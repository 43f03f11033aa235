# frontlight_auto

Verified decisions of an e-reader's automatic frontlight and of its terminal's shell
shutdown, written in Verus.

- `src/solar.rs`: the UTC date of an instant, the sunrises and sunsets of the five dates
  around it (computed by the `sunrise` crate), their stable sort by time, and the boundaries
  that surround an instant, with laws on the sort and the search.
- `src/frontlight.rs`: the warmth transition, the brightness and warmth decision, and
  `compute_auto_frontlight_levels`, with laws on ramps, polar fallbacks and daylight.
- `src/terminal.rs`: the default shell and the shutdown state machine of a pseudo-terminal,
  with its law: a shell is terminated and reaped once.
- `app/`: floating-point light levels, time zones, and the pseudo-terminal itself
  (`portable-pty`), driving the library.
