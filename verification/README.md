# relay_wright

The verified core of an automatic PLC write engine, with the validators of
its write registry and of project files, written in Verus.

- `src/` — the library. Each module states its behaviour in `requires` /
  `ensures` over mathematical models (`Seq`, `Map`, `int`) and Verus proves
  the code against them. Multi-call properties are public `law_*` proof
  functions.
  - engine: `arming`, `rate_limiter`, `writer` (the write guard),
    `rule_engine` (edge/cooldown tracking), `current_values`, `poller`,
    `compile`, `engine`, `monitor`
  - registry validators: `write_rules`, `write_rule_conditions`,
    `write_targets`, `write_cycle` (write-loop detection), `registry`,
    `project`, `project_replay` (whole-file validation before an import),
    `rule_error_fields` (which form fields a validation reports, and when)
  - shared: `error`, `text`, `support`, `calendar`, `hub`, `rest`,
    `write_audit`, `write_audit_query`
- `tests/` — ordinary Rust tests of the library.
- `app/` — the parts of the runtime around it that are written here: SQLite
  access, the project export and import, the clock, floating-point readings and the
  JSON wire shapes.
