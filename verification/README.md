# torshield

Bridge selection and anti-censorship decisions for Tor bridges used from
Iran, with their rules proved in Verus.

- `src/` is the verified library: bridge-line parsing and reserved-address
  screening, transport detection, the SIAM layer analysis, JA3 rotation
  planning, the rotation and priority orders, the failure classifier and its
  statistics, the bridge history database, the evidence stamps, the export
  file contents, feature flags, and the connectivity and censorship
  decisions. Each public function states in `ensures` what it returns or
  changes; the `law_*` proof functions state properties that relate several
  calls or hold of every input.
- Calls into `regex` and `chrono` go through a few trusted wrappers in
  `src/patterns.rs`, `src/text.rs` and `src/timefmt.rs`; their contracts name
  the outside results instead of restating them. The one clock reading in
  the library, `timefmt::utc_now`, is what `IranSmartAntiFilter::new` takes
  its instant from; every other function takes its instant as an argument.
- `app/` holds what Verus does not check: file and network I/O, most clock
  readings, JSON reading and writing (including which JSON values count as
  true or as numbers), and the scores computed in floating point: the
  log-odds evidence fusion, the SIAM evasion score, the composite and
  context-weighted priority scores. Their thresholds, orders and counts are
  decided in `src/`.
- `tests/` exercises the library on concrete values.
- Not part of this crate: the intelligence core that composes the transport
  plugin registry, source discovery, bootstrap verification, multi-vantage
  probing and runtime health checks (none of those components is in this
  code base), and the harness of injected-failure tests built on it. The
  static bridge list, the bridge scorer and the configuration are supplied
  by the caller.
