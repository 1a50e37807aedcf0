# gyromouse

A gyro mouse moves the cursor with the motion of a game controller. This crate
holds its decisions, verified with Verus, and the program around them.

`src/` is the verified library.

- `backend/stall_watchdog.rs` notices that a controller's sensor stream has
  fallen silent, and climbs a ladder of remedies until it flows again.
  `backend/ladder_laws.rs` states what holds of it over a series of calls.
- `backend/session.rs` keeps the books of a run: open controllers, parked
  engines and watched names. `backend/session_laws.rs` states what holds across
  several calls. `backend/run_loop.rs` is the loop of a run, one step after the
  other; `backend/events.rs` says what an event leads to, `backend/tick.rs` orders
  the work of one tick, and `backend/reopen.rs` takes a reopen from the request of
  a ladder to its report.
- `backend/keys.rs`, `watch.rs`, `rate_limit.rs`, `name_map.rs` and `diag.rs` are
  the smaller pieces of the same.
- `engine/` turns actions into clicks and keys, holds back the jerk of a click
  (`click_stab.rs`), puts the cursor to sleep when the controller rests
  (`motion_wake.rs`), and says which motion of a frame goes out (`gyro.rs`).
- `gyromouse.rs` decides how a sample is filtered, and `mouse.rs` rounds movement
  to whole pixels without losing any.
- `binary64.rs` and `time.rs` are the numbers and the clock that these speak of.
  A floating-point number is given by its bits, compared and rounded exactly.

`app/` is ordinary Rust: SDL controllers, cursor and keys through enigo, and the
floating-point arithmetic of motion. `tests/` runs the library.
