# Ice Signal engine — verified core

A privacy-first social signal processor: fixed-point signal cores turn audio
samples into per-frame reports, and a metadata layer turns those reports into
JSONL events, session analytics and social estimates. No audio is retained.

Layout:

- `src/signal/` — the portable core: energy accumulator, leaky
  integrate-and-fire neuron, VAD state machine and the per-sample `Engine`,
  each with an exact specification of its registers and reports; `run`
  states what a fresh core reports over any run of samples.
- `src/host/` — the metadata layer: schema events and their JSONL lines
  (`events`, `json`), session analytics (`analytics`), social signals from
  channel activity (`social`), the synthetic demo schedule (`demo`) and the
  `Session` that ties the cores, analytics and social tracker together.
- `src/frame.rs` — a generic fixed-length framer.
- `app/` — the command-line program: microphone capture, resampling, the
  dashboard/WebSocket transport, the terminal meter and every floating-point
  rendering (dBFS, shares, ratios, energy trend, cards).
- `tests/` — scenario tests of the library.
