use std::path::PathBuf;

use tau_coding_agent::self_modification_runtime::{
    can_auto_apply, check_proposal_id, proposal_id_from_millis, classify_modification_target, generate_proposal_id, validate_proposal_id,
    worktree_path_for, worktree_within_root, worktrees_root, ModificationTarget,
    ProposalIdRejection, SelfModificationConfig,
};

// classify_modification_target

#[test]
fn classify_skills_directory_as_skill() {
    assert_eq!(
        classify_modification_target("skills/my-skill/manifest.toml"),
        ModificationTarget::Skill,
    );
}

#[test]
fn classify_skills_markdown_as_skill() {
    assert_eq!(
        classify_modification_target("docs/skills/overview.md"),
        ModificationTarget::Skill,
    );
}

#[test]
fn classify_tau_toml_as_config() {
    assert_eq!(classify_modification_target(".tau.toml"), ModificationTarget::Config);
}

#[test]
fn classify_config_toml_as_config() {
    assert_eq!(
        classify_modification_target("some/config/settings.toml"),
        ModificationTarget::Config,
    );
}

#[test]
fn classify_prompt_file_as_prompt() {
    assert_eq!(
        classify_modification_target("prompts/system_prompt.txt"),
        ModificationTarget::Prompt,
    );
}

#[test]
fn classify_template_file_as_prompt() {
    assert_eq!(classify_modification_target("assets/template.hbs"), ModificationTarget::Prompt);
}

#[test]
fn classify_rust_source_as_source() {
    assert_eq!(
        classify_modification_target("crates/tau-ops/src/main.rs"),
        ModificationTarget::Source,
    );
}

#[test]
fn classify_unknown_path_as_other() {
    assert_eq!(classify_modification_target("README.txt"), ModificationTarget::Other);
}

#[test]
fn classify_does_not_misfire_on_substring_collisions() {
    assert_eq!(classify_modification_target("promptly-archive/foo.rs"), ModificationTarget::Other);
    assert_eq!(
        classify_modification_target("configuration-notes/readme.toml"),
        ModificationTarget::Other,
    );
    assert_eq!(classify_modification_target("fuzz/fuzz_targets/foo.rs"), ModificationTarget::Other);
}

#[test]
fn classify_template_filename_still_classifies_as_prompt() {
    assert_eq!(classify_modification_target("assets/template.hbs"), ModificationTarget::Prompt);
}

#[test]
fn classify_windows_style_paths_are_normalised() {
    assert_eq!(
        classify_modification_target(r"crates\tau-ops\src\main.rs"),
        ModificationTarget::Source,
    );
    assert_eq!(
        classify_modification_target(r"skills\my-skill\manifest.toml"),
        ModificationTarget::Skill,
    );
}

#[test]
fn classify_ignores_dot_and_empty_segments() {
    assert_eq!(classify_modification_target("./skills//x.toml"), ModificationTarget::Skill);
    assert_eq!(classify_modification_target(""), ModificationTarget::Other);
    assert_eq!(classify_modification_target("a/prompt_v2.txt"), ModificationTarget::Prompt);
    assert_eq!(classify_modification_target("a/config/b/c.toml"), ModificationTarget::Config);
}

// can_auto_apply

#[test]
fn auto_apply_skill_when_enabled() {
    let config = SelfModificationConfig { auto_apply_skills: true, ..Default::default() };
    assert!(can_auto_apply(&config, &ModificationTarget::Skill));
}

#[test]
fn auto_apply_skill_when_disabled() {
    let config = SelfModificationConfig { auto_apply_skills: false, ..Default::default() };
    assert!(!can_auto_apply(&config, &ModificationTarget::Skill));
}

#[test]
fn auto_apply_config_when_enabled() {
    let config = SelfModificationConfig { auto_apply_config: true, ..Default::default() };
    assert!(can_auto_apply(&config, &ModificationTarget::Config));
}

#[test]
fn auto_apply_config_when_disabled() {
    let config = SelfModificationConfig::default();
    assert!(!can_auto_apply(&config, &ModificationTarget::Config));
}

#[test]
fn auto_apply_source_when_enabled() {
    let config = SelfModificationConfig { auto_apply_source: true, ..Default::default() };
    assert!(can_auto_apply(&config, &ModificationTarget::Source));
}

#[test]
fn auto_apply_source_when_disabled() {
    let config = SelfModificationConfig::default();
    assert!(!can_auto_apply(&config, &ModificationTarget::Source));
}

#[test]
fn auto_apply_prompt_follows_skill_policy() {
    let config = SelfModificationConfig { auto_apply_skills: true, ..Default::default() };
    assert!(can_auto_apply(&config, &ModificationTarget::Prompt));

    let config_off = SelfModificationConfig { auto_apply_skills: false, ..Default::default() };
    assert!(!can_auto_apply(&config_off, &ModificationTarget::Prompt));
}

#[test]
fn auto_apply_other_is_always_false() {
    let config = SelfModificationConfig {
        auto_apply_skills: true,
        auto_apply_config: true,
        auto_apply_source: true,
        ..Default::default()
    };
    assert!(!can_auto_apply(&config, &ModificationTarget::Other));
}

// SelfModificationConfig::default

#[test]
fn default_config_has_correct_values() {
    let config = SelfModificationConfig::default();
    assert!(config.enabled);
    assert!(config.auto_apply_skills);
    assert!(!config.auto_apply_config);
    assert!(!config.auto_apply_source);
    assert_eq!(PathBuf::from(&config.workspace_root), PathBuf::from("."));
}

// generate_proposal_id

#[test]
fn generate_proposal_id_has_expected_prefix() {
    let id = generate_proposal_id();
    assert!(!id.is_empty());
    assert!(id.starts_with("self-mod-"), "expected 'self-mod-' prefix, got: {id}");
}

#[test]
fn generate_proposal_id_produces_non_empty_suffix() {
    let id = generate_proposal_id();
    let suffix = id.strip_prefix("self-mod-").unwrap();
    assert!(!suffix.is_empty());
    assert!(suffix.chars().all(|c| c.is_ascii_digit()));
}

// validate_proposal_id

#[test]
fn validate_proposal_id_accepts_generator_output() {
    let id = generate_proposal_id();
    assert!(validate_proposal_id(&id).is_ok());
}

#[test]
fn validate_proposal_id_accepts_simple_identifiers() {
    for good in ["self-mod-12345", "proposal.v2", "abc_123", "A", "0", "self-mod-1700000000000"] {
        assert!(validate_proposal_id(good).is_ok(), "expected {good:?} to be accepted");
    }
}

#[test]
fn validate_proposal_id_rejects_traversal_and_separators() {
    for bad in [
        "",
        ".",
        "..",
        "../etc/passwd",
        "foo/../bar",
        "/absolute",
        "\\windows",
        "a/b",
        "a\\b",
        "foo..bar",
        "with space",
        "has\0null",
        "new\nline",
        "emoji🚀",
    ] {
        let res = validate_proposal_id(bad);
        assert!(res.is_err(), "expected {bad:?} to be rejected");
        assert_eq!(res.unwrap_err().kind(), std::io::ErrorKind::InvalidInput);
    }
}

#[test]
fn proposal_id_rejections_name_the_first_broken_rule() {
    assert_eq!(check_proposal_id(""), Err(ProposalIdRejection::Empty));
    assert_eq!(check_proposal_id(".."), Err(ProposalIdRejection::DotOrDotDot));
    assert_eq!(check_proposal_id("a/b c"), Err(ProposalIdRejection::DisallowedChar('/')));
    assert_eq!(check_proposal_id("foo..bar"), Err(ProposalIdRejection::ContainsDotDot));
    assert_eq!(check_proposal_id("ok-1.2_3"), Ok(()));
    assert_eq!(
        ProposalIdRejection::DisallowedChar('\n').to_string(),
        "proposal_id contains disallowed character '\\n'; allowed: [A-Za-z0-9._-]"
    );
}

// worktree paths and containment

#[test]
fn worktree_paths_live_under_the_worktrees_root() {
    assert_eq!(worktrees_root("/ws"), "/ws/.tau/self-mod-worktrees");
    assert_eq!(worktrees_root("/ws/"), "/ws/.tau/self-mod-worktrees");
    assert_eq!(worktree_path_for("/ws", "p-1").unwrap(), "/ws/.tau/self-mod-worktrees/p-1");
    assert_eq!(
        worktree_path_for("/ws", "../escape").unwrap_err(),
        ProposalIdRejection::DisallowedChar('/')
    );
}

#[test]
fn containment_accepts_only_strict_descendants() {
    let root = "/tmp/ws/.tau/self-mod-worktrees";
    assert!(worktree_within_root(root, "/tmp/ws/.tau/self-mod-worktrees/p1"));
    assert!(worktree_within_root(root, "/tmp/ws/.tau/self-mod-worktrees/./p1/"));
    assert!(!worktree_within_root(root, root));
    assert!(!worktree_within_root(root, "/tmp/ws/not-a-worktree"));
    assert!(!worktree_within_root(root, "/tmp/ws/.tau/self-mod-worktrees-x/p1"));
    assert!(!worktree_within_root(root, "tmp/ws/.tau/self-mod-worktrees/p1"));
}

#[test]
fn disallowed_characters_are_quoted_as_debug_prints_them() {
    for ch in ['\0', '\t', '\r', '\n', '\'', '\\', '"', '\u{1}', '\u{1f}', '\u{7f}', ' ', '/', 'é', '\u{85}', '\u{9f}', '\u{ad}', '\u{300}', '\u{36f}', '\u{200b}', '\u{2028}', '\u{202e}', '\u{2060}', '\u{feff}', '\u{fffb}', '\u{a0}', '\u{1680}', '\u{2000}', '\u{200a}', '\u{202f}', '\u{205f}', '\u{3000}', '\u{180e}', '\u{61c}', '\u{2066}', '\u{206f}', '\u{fff9}', '\u{2029}', '\u{200d}', '字'] {
        assert_eq!(
            ProposalIdRejection::DisallowedChar(ch).to_string(),
            format!("proposal_id contains disallowed character {ch:?}; allowed: [A-Za-z0-9._-]")
        );
    }
}

#[test]
fn classify_any_skills_segment_as_skill() {
    assert_eq!(classify_modification_target("docs/skills/notes.txt"), ModificationTarget::Skill);
    assert_eq!(classify_modification_target("a/skills"), ModificationTarget::Skill);
    assert_eq!(classify_modification_target("docs/skillset/notes.txt"), ModificationTarget::Other);
}

#[test]
fn proposal_ids_render_the_clock_reading() {
    assert_eq!(proposal_id_from_millis(0), "self-mod-0");
    assert_eq!(proposal_id_from_millis(1_700_000_000_123), "self-mod-1700000000123");
    assert_eq!(proposal_id_from_millis(u64::MAX), format!("self-mod-{}", u64::MAX));
    assert!(check_proposal_id(&proposal_id_from_millis(42)).is_ok());
}

#[test]
fn validated_ids_stay_inside_the_worktrees_root() {
    for ws in ["/srv/ws", "/srv/ws/", "/"] {
        for id in ["self-mod-1", "a.b_c-d", "X"] {
            let path = worktree_path_for(ws, id).expect("valid id");
            assert!(worktree_within_root(&worktrees_root(ws), &path), "{ws} {id}");
        }
    }
}

#[test]
fn classification_ignores_backslashes_and_dot_prefixes() {
    for p in [r"crates\tau-ops\src\main.rs", r"skills\my-skill\manifest.toml", r"a\prompts\x", "README.txt"] {
        let c = classify_modification_target(p);
        assert_eq!(classify_modification_target(&p.replace('\\', "/")), c);
        assert_eq!(classify_modification_target(&format!("./{p}")), c);
    }
}

#[test]
fn containment_compares_components_as_path_does() {
    assert!(!worktree_within_root("./.tau/self-mod-worktrees", ".tau/self-mod-worktrees/x"));
    assert!(worktree_within_root("./.tau/self-mod-worktrees", "./.tau/self-mod-worktrees/x"));
    assert!(worktree_within_root(".tau/self-mod-worktrees", ".tau/./self-mod-worktrees//x/"));
    assert!(!worktree_within_root("/root", "/root\\x"));
    assert!(worktree_within_root("/root", "/root/a\\b"));
    assert!(!worktree_within_root("/root", "/root/."));
    assert!(!worktree_within_root("/root", "root/x"));
}
