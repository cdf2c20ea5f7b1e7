# koto

Pieces of the Koto synthesizer, with their behaviour stated and proved.

- `src/conflisp.rs` — the S-expression reader: `read` / `try_read`, their
  specification (`parse_exp`, `parse_elems`, `read_spec`) and its laws
  (reading the canonical text of a well-formed expression gives it back,
  everything read is well formed, leading whitespace changes nothing).
- `src/kfs.rs` — KotoFS, the in-memory file system behind the FUSE mount:
  the tree of nodes by inode number and the operations `getattr`, `readdir`,
  `lookup`, `create`, `setattr`, `write`, `read`, with laws such as "a read
  after a write gives back what was written".
- `src/tapirlisp/make.rs` — making units and events from expressions.
  `make_unit` is a step: given the outcomes of the evaluations it asked for
  so far, it names the next argument to evaluate or gives the finished plan
  (kind, numerals as written, unit and pattern handles) or the error, with
  the argument counts, error labels, evaluation order and error rules of
  each unit (`make_pan`, `make_clip`, ...).  `make_event` gives the shape of
  an event expression.  The caller evaluates and builds.
- `src/units/unit.rs`, `src/ugen/ugcore.rs` — the shared cell `Mut` and the
  envelope stages.
- `app/` — the executable: it answers FUSE requests from `KotoFS` and turns
  numerals read by the reader into `f64`.

Not in this crate, because what they are built on is not part of it: the evaluator (`tapirlisp::eval`, `print`, `Value`, `Env`,
`EvalError`), the units themselves (`units::core`, `oscillator`,
`sequencer`), and the `event`, `time`, `mtime` and `audio_device` modules.
So the unit graph (`UnitGraph`, `Node`, `UGen`, `Aug`, `Table`, `Pattern`
and their traits, which also carry `f64` signals) and the building of plans
into units and of event shapes into timed events are absent, in `src/` and
in `app/` alike.  `app/make.rs` runs the `make_unit` steps with an evaluator
given by its caller.
