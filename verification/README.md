# dora-openarm-actions-executor-rust

A dora-rs node that executes timestamped action chunks for OpenArm. Every
input event is one action chunk: rows of joined arm positions, with
`interval` (nanoseconds between rows), `cutoff_hz` and `reset` metadata. The
node optionally upsamples each chunk with a cubic Hermite spline and smooths
it with a biquad low-pass filter, steps through the rows in real time, and
sends each enabled arm's position on its own output. A chunk that arrives
while another is playing cancels it; the canceled tail is crossfaded into the
next chunk unless that chunk starts a new episode.

## Layout

- `src/` is the library, verified with Verus:
  - `arms.rs`: which arms a configuration string enables, and how a joined
    position vector splits into the arms' slices;
  - `chunk.rs`: validation of a chunk's rows;
  - `blend.rs`: pairing canceled rows with the next chunk's leading rows;
  - `cli.rs`: the left-to-right walk over the arguments and the decision
    between its outcomes;
  - `environment.rs`: the `Environment` trait the real-time work goes
    through, and `Recorded`, which forwards each call to it and keeps the
    record of the calls made;
  - `executor.rs`: the scheduler's decisions (configuration, lazy
    initialization, the filter's re-anchoring on a reset, carry-over, step
    timing, polled signals), and the step loop that runs a chunk's steps
    through a recorded environment;
  - `metadata.rs`: which chunk metadata is accepted, and its defaults;
  - `output.rs`: which outputs a step sends and what each carries;
  - `text.rs`, and `message` on each error type: error texts.
- `app/` is the node itself: dora I/O, the wall clock, Arrow arrays, and the
  floating-point shaping of trajectories (the spline, the filter, the
  crossfade weights, `arange`), which the library leaves to it.
- `tests/` exercises the library.
