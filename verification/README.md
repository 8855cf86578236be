# tau-coding-agent

The decision logic of the Tau coding agent, written in Verus with its
contracts proved.

- `src/` is the verified library: self-modification policy and dry-run
  pipeline, mission-owned self-improvement (targets, apply eligibility,
  workspace containment, dry-run evidence), the multi-channel runtime and
  lifecycle rules, the live reinforcement-learning runtime's settings, state
  machine, category handling and curriculum selection, the live coding-loop
  harness's text handling and verdicts, the OpenRouter repair adapter's
  decisions, the autonomous coding job's intake rules, release channels,
  command-file bookkeeping and CLI argument normalisation. `text.rs` and
  `json_text.rs` hold the character-level helpers the rest builds on.
- `tests/` runs the library on concrete values.
- `app/` is the program around it: argument parsing, files, processes,
  JSON, logging.
