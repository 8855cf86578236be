//! Normalisation of the `daemon` subcommand into the flag form the CLI parser
//! understands: `tau-rs daemon status --json` becomes
//! `tau-rs --daemon-status --daemon-status-json`.
use vstd::prelude::*;

use crate::text::{chars_eq_str, chars_of, string_of, string_views};

verus! {

/// The flag for a daemon action.
pub open spec fn daemon_action_flag(action: Seq<char>) -> Option<Seq<char>> {
    if action == "install"@ {
        Some("--daemon-install"@)
    } else if action == "uninstall"@ {
        Some("--daemon-uninstall"@)
    } else if action == "start"@ {
        Some("--daemon-start"@)
    } else if action == "stop"@ {
        Some("--daemon-stop"@)
    } else if action == "status"@ {
        Some("--daemon-status"@)
    } else {
        None
    }
}

/// Option aliases of the subcommand form; anything else is kept as it is.
pub open spec fn daemon_alias(arg: Seq<char>) -> Seq<char> {
    if arg == "--profile"@ {
        "--daemon-profile"@
    } else if arg == "--state-dir"@ {
        "--daemon-state-dir"@
    } else if arg == "--reason"@ {
        "--daemon-stop-reason"@
    } else if arg == "--json"@ {
        "--daemon-status-json"@
    } else {
        arg
    }
}

/// `args` unchanged unless it reads `<bin> daemon <action> ...` with a known
/// action; then `<bin> <action flag>` followed by the remaining arguments with
/// their aliases mapped.
pub open spec fn normalize_daemon_spec(args: Seq<Seq<char>>) -> Seq<Seq<char>> {
    if args.len() < 3 || args[1] != "daemon"@ {
        args
    } else {
        match daemon_action_flag(args[2]) {
            None => args,
            Some(flag) => seq![args[0], flag] + args.skip(3).map_values(
                |a: Seq<char>| daemon_alias(a),
            ),
        }
    }
}

fn action_flag(action: &String) -> (r: Option<&'static str>)
    ensures
        match r {
            Some(f) => daemon_action_flag(action@) == Some(f@),
            None => daemon_action_flag(action@) is None,
        },
{
    let a = chars_of(action.as_str());
    if chars_eq_str(&a, "install") {
        Some("--daemon-install")
    } else if chars_eq_str(&a, "uninstall") {
        Some("--daemon-uninstall")
    } else if chars_eq_str(&a, "start") {
        Some("--daemon-start")
    } else if chars_eq_str(&a, "stop") {
        Some("--daemon-stop")
    } else if chars_eq_str(&a, "status") {
        Some("--daemon-status")
    } else {
        None
    }
}

fn alias_of(arg: &String) -> (r: String)
    ensures
        r@ == daemon_alias(arg@),
{
    let a = chars_of(arg.as_str());
    if chars_eq_str(&a, "--profile") {
        String::from_str("--daemon-profile")
    } else if chars_eq_str(&a, "--state-dir") {
        String::from_str("--daemon-state-dir")
    } else if chars_eq_str(&a, "--reason") {
        String::from_str("--daemon-stop-reason")
    } else if chars_eq_str(&a, "--json") {
        String::from_str("--daemon-status-json")
    } else {
        string_of(&a)
    }
}

/// Rewrites `<bin> daemon <action> [options]` into the flag form.
pub fn normalize_daemon_subcommand_args(args: Vec<String>) -> (r: Vec<String>)
    ensures
        string_views(r@) == normalize_daemon_spec(string_views(args@)),
{
    let ghost sv = string_views(args@);
    if args.len() < 3 {
        return args;
    }
    let second = chars_of(args[1].as_str());
    assert(sv[1] == args@[1]@);
    if !chars_eq_str(&second, "daemon") {
        return args;
    }
    assert(sv[2] == args@[2]@);
    let flag = match action_flag(&args[2]) {
        Some(f) => f,
        None => {
            return args;
        },
    };
    let mut normalized: Vec<String> = Vec::new();
    normalized.push(string_of(&chars_of(args[0].as_str())));
    normalized.push(String::from_str(flag));
    assert(sv[0] == args@[0]@);
    let ghost f = daemon_action_flag(sv[2])->0;
    let ghost mapped = sv.skip(3).map_values(|a: Seq<char>| daemon_alias(a));
    assert(string_views(normalized@) =~= seq![sv[0], f]);
    let mut i: usize = 3;
    while i < args.len()
        invariant
            3 <= i <= args.len(),
            sv == string_views(args@),
            mapped == sv.skip(3).map_values(|a: Seq<char>| daemon_alias(a)),
            string_views(normalized@) == seq![sv[0], f] + mapped.take(i - 3),
        decreases args.len() - i,
    {
        let alias = alias_of(&args[i]);
        let ghost before = normalized@;
        normalized.push(alias);
        proof {
            assert(mapped[i - 3] == daemon_alias(sv[i as int]));
            assert(sv[i as int] == args@[i as int]@);
            assert(string_views(normalized@) =~= string_views(before).push(alias@));
            assert(mapped.take(i - 3).push(mapped[i - 3]) =~= mapped.take(i + 1 - 3));
            assert(seq![sv[0], f] + mapped.take(i + 1 - 3) =~= (seq![sv[0], f] + mapped.take(
                i - 3,
            )).push(mapped[i - 3]));
        }
        i += 1;
    }
    assert(mapped.take(args.len() - 3) =~= mapped);
    normalized
}

} // verus!
