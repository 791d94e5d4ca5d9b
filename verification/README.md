# wavecrux_sigrok_bridge

The WaveCrux SigRok bridge keeps GPL protocol decoders out of the WaveCrux
process: a plugin (the shim) forwards every decoding request over a pipe to a
subprocess, and the two sides exchange length-prefixed JSON frames.

* `src/` — the verified library (Verus): framing codec, wire types, the
  subprocess's request handler and scripted mock backend, the sample replay
  arithmetic, the WaveCrux manifest, and the shim's bookkeeping (instance
  binding, inbox, request correlation, C-ABI return codes).
* `tests/` — tests of the library.
* `app/` — the program around it: command line, stdin/stdout loop, JSON
  (serde), subprocess spawning and the C entry points.

The original project can also host the real libsigrokdecode engine in the
subprocess. That backend is not here: its calls go through bindings that a
build script generates against the system's `libsigrokdecode` (and an
embedded Python), which this build cannot have. Its logic — replaying
transitions as sample rows, chunking, decoder ids, option kinds, annotation
conversion — is in `src/replay.rs` and `src/engine.rs`, verified; the
subprocess runs the scripted mock backend.
