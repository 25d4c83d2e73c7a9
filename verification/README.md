# temper

The logic of an agent platform, verified with Verus: what it learns from the
trajectories of its agents, how it evolves its specs, how its guest modules talk
to models, tools and sandboxes, how apps are catalogued and installed, and what
its hosts give to WebAssembly guests.

## Layout

- `src/` is the library. Every function in it has a contract that Verus proves,
  but for the few that call outside functions (see the end).
  - `order`, `text`, `keys`, `table`, `numerals`, `score`, `json`, `json_text`:
    sequences, strings, sorted tables, numerals, scores and JSON values.
  - `trajectory`, `timeline`, `evidence`, `candidates`, `intent_evidence`,
    `evidence_laws`, `insights`, `unmet`, `feature_requests`: what trajectories
    show.
  - `findings`, `materialize`, `observe`: findings of agents, and the answers of
    the endpoints about evolution.
  - `pareto`, `frontier_update`, `reflective`, `replay`, `scoring`, `proposal`,
    `proposer`: the evolution of specs.
  - `module`, `llm`, `llm_convert`, `llm_providers`, `llm_tools`, `tools`,
    `tool_runner`, `sandbox`: the guest modules of an agent.
  - `guest`, `streams`, `host`, `invocation`, `wasm`: the host of guest modules.
  - `catalog`, `bundles`, `install`, `installation`: apps.
  - `mcp`, `blobs`, `persistence`: sessions, blobs and what is stored.
- `tests/` runs the library on concrete values.
- `app/` is ordinary Rust around the library: the web handlers, the databases, the
  disk, the WebAssembly runtime and the stdio server.

Logic that alternates with requests over the network is written as a state
machine: a `start_…` function returns the first step, and a `resume_…` function
turns a state and a reply into the next. The code in `app/` performs the steps.

Scores are floating-point numbers, held in the library as the bits of a 64-bit
float. The library compares and halves them by their bits; all other arithmetic
on them is done in `app/`.

What is not proved is marked `#[verifier::external_body]`, `assume_specification`
or `uninterp`, with a comment that says what is claimed of the outside function:
`serde_json` for JSON text, `sha2` for hashes, `wasmtime` for compiling modules,
and a few functions of `std`.
