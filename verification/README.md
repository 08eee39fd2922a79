# deepseek_tui (verified core)

The logic of three parts of the DeepSeek terminal client, written in Verus
and proved against its contracts:

- `src/spillover.rs`: sanitising tool call ids into file names, the
  spillover file path under `~/.deepseek/tool_outputs/` (stated in terms
  of what `Path::join` builds; which home directory exists is up to the
  environment), the decision to
  spill an oversized tool output and the inline head that stays (cut on a
  UTF-8 character boundary), and which files the boot prune drops.
- `src/header.rs`: the compact token count (exactly as an `f64` quotient
  prints with `{:.1}`, computed in integers), the usage summary, model name
  truncation, and the choice of header layout for the available width.
- `src/fim.rs`: the fill-in-the-middle tool's name, description and input
  check.
- `src/text.rs`: character, decimal and space appending helpers.

`app/` holds what stays outside the proofs: file system writes and the
prune's directory walk, drawing the header with ratatui, the floating-point
parts of the usage summary, and the FIM tool's JSON schema and input.
