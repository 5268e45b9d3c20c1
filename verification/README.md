# external_mutator

Delegates the mutation of fuzzing inputs to an external, long-running program, which is spawned with
the switch `--mutator` and then serves requests on its stdin and stdout, one line each:

```text
1f 616263                    the input `abc`, in the request with the id 1f
2 226122 7879 226222         the parts `"a": xy` and `"b":` (empty), in the request with the id 2
```

Every line consists of fields separated by exactly one space. The first field is an id (a `u64` as
hex), all others are hex-encoded data. A reply has the same format and carries the id of its request.

## Layout

- `src/` is the library, verified with Verus. It holds the rules of the conversation and no I/O.
  - `protocol`, `hexcode`, `bytes`: the lines, written and read.
  - `lines`, `reader`: what the program writes, cut into lines and turned into events.
  - `mutator`, `exchange`, `mutate`: the settings and counters, one request/reply exchange as a state
    machine, and how a reply is applied to an input. `exchange_laws` states what holds of every
    exchange.
  - `process`, `time`, `inputs`: the end of a process, spans of time, the inputs.
  - `observer`: a map observer with a shrinkable size.
  - `options`, `harness`: the command line and the target of the example fuzzer.
- `tests/` runs the library against programs that are played by closures.
- `app/` is the example fuzzer: it spawns the process, moves the bytes and keeps the clock.

## What is trusted

Three functions are believed rather than proved: the wrappers of `hex::encode` and `hex::decode` in
`src/hexcode.rs`, and the one of std's `Debug` form of a `String` in `src/mutate.rs`.
