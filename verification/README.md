# rustray (verified core)

The integer and text logic of the `rustray` ray tracer, written in Verus and
proved against its contracts:

- `fixedpoint`: fixed-point numbers `FP<P>` (an `i64` with `P` fraction bits):
  constants, integer part, truncation and fraction, sign, ordering, integer
  conversions; `fixedpoint_laws` and `shift_lemmas` hold what is proved of them.
- `timeslice`: a stopwatch that charges time to named sections and reports
  them from the most expensive down.
- `download`: archive names, paths and addresses of ambientCG textures.
- `format::sbt`, `format::sbt2`: the token-level and tree-level parts of the
  two `.ray` scene readers (versions, typed value access, dictionaries, faces).
- `engine`: render jobs and the bookkeeping of which image lines are being
  rendered.

`app/` holds the command-line program and what needs the clock, the file
system, the network or floating point.
