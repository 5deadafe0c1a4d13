# quad_flight

Flight decisions of two small quadcopters and their ground station, verified
with Verus.

- `src/` is the library: telemetry and radio formats, arming and failsafe,
  heading hold, motor mixing limits, rate controller state, calibration
  procedures, loop timing, and what ground control sends when. Every function
  carries a contract that Verus proves, except the few in `crsf_parser` that
  call another crate (see below), and the properties that hold across functions
  stand beside them as `law_...` proof functions.
- `app/` surrounds it with what is not verified: drivers, sockets, clocks,
  executors and floating-point arithmetic.
- `tests/` runs the library on concrete values, among them every radio channel
  value against the machine's floating point.

Single-precision numbers cross the boundary as bit patterns (`single::Single`).
Their order, sign and class are decided on the pattern; sums and products are
computed by the caller, and the library decides what becomes of the results.

Radio frames are cut and decoded by the `crsf` crate. Its functions are trusted
to do what the contracts in `src/crsf_parser.rs` say of them.
