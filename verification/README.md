# convergio

The logic of the Convergio command line (`cvg`) and its brand kit, as a
Verus-verified library, with a thin program around it.

- `src/` — the library. Every function carries a contract that Verus
  proves: the PR manifest parser and the dependency-respecting merge
  order, the `Tracks:` parser and the sync decisions of `cvg pr sync`,
  the ADR/markdown coherence checks, the AUTO-block rewriter and its
  generators, the session pre-stop checks, the doctor's verdicts, the
  service definitions, the graph routes and query encoding, the bus
  topic rules, the theme resolution, gradient, glitch, banner and boot
  sequence, and every human/plain layout. Laws that span calls are
  public proof functions named `law_*`.
- `tests/` — ordinary Rust tests that run the compiled library.
- `app/` — the `cvg` program: argument parsing, files, processes
  (`git`, `gh`, the service manager), the daemon's HTTP API, and the
  stand-alone branding demo. It hands plain values to the library and
  prints what the library lays out.
