# nexa_core

The decision logic of the Nexa agent runtime, written in Verus: each public
function carries a `requires`/`ensures` contract, and the properties that
span several calls are stated as `law_*` proof functions.

## Layout

- `src/` — the verified library, one module per concern: context budgets and
  compaction boundaries, loop guards, output and stream recovery, power modes,
  prompt layout and cache diagnostics, tool discovery and tool-call assembly,
  the projection of a subscription session onto the agent's events, and the
  texts a turn ends with.
- `tests/` — executable tests of the library, one file per module.
- `app/` — the unverified runtime around it: environment variables, JSON on
  the wire through serde, and the driver loop that performs what the library
  decides.

## Trusted boundary

A few calls into `std`, `serde_json`, `uuid` and `blake3` stand behind
`#[verifier::external_body]` wrappers; each names its outside function in its
doc comment, and the contract it is believed to meet is written in terms of
`uninterp` spec functions where the result is only named.

## Checking

`verus` on `src/lib.rs` verifies the library; `cargo test` runs the tests.
