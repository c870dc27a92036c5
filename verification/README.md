# ruview_swarm

Verified coordination core of a civilian cooperative-UAV fleet, written in
Verus.

* `src/latentmesh/` — LatentMesh advisory messaging: payload-free metrics,
  the default-deny capability gate, delivery admission, residual-evidence
  screening and per-loss-band delivery treatment, transmit
  sequencing, the receive-side gate, screens and replay high-water marks,
  Ed25519 envelope authentication (through `ed25519-dalek`), the integer side
  of the telemetry schema, and transport bounds.
* `src/forecast.rs` — bounded observation history, refresh cadence and the
  reduce-only eligibility rule of the predictive advisory.
* `src/navigation_lab/` — the laboratory's six-connected A* grid search, its
  seeded pillar layout, scenarios and verdict, and the local HTTP gate (text
  primitives included).
* `app/` — ordinary Rust around the library: floating-point telemetry,
  delivery and motion models, the Air codec and forecasting plumbing, async
  transports, the HTTP server loop, the jellyfish behaviours, and
  serialisable copies of library types.
* `tests/` — executable tests of the library.
