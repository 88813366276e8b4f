# tracing_profile

A span based profiler for programs instrumented with `tracing`, written in Verus.

- `src/layers/init_tracing.rs`: `init_tracing` builds an environment filter from the
  directives it is handed (default level `Debug`), puts it on a registry and sets that
  as the global subscriber. No layer that prints is added. Its contract states that
  the result is `Ok` whatever setting the global subscriber reported, and that the
  filter was built from the default level and the directives handed in.
- `src/layers/directives.rs`: a model of the filter's directive parser that follows
  its states and holds where none of its cuts falls inside a character;
  `init_tracing` requires it and `check_directives` tests it.
- `src/layers/subscriber.rs`: the calls into `tracing_subscriber` that build and set
  the subscriber, each carrying the record of what the filter was built from.
- `src/utils.rs`: conversion of the peak resident set size into mebibytes, with the
  laws that both reporting units agree and that the result is bounded by the input.
- `src/test_utils.rs`: the directory that trace tests write into.
- `app/`: what talks to the operating system and to the running subscriber
  (`RUST_LOG`, `getrusage`, events, environment variables, the file system, span
  storage).
