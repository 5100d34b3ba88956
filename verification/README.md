# xlog-cuda-tests

Certification tests for the CUDA device layer of xlog: twenty-one categories of tests, from the
toolchain and launch configurations to atomics, floating point, determinism and endurance.

A test is a *script*: a list of steps that fill host columns, ask the device for something, and
check what it hands out. The library holds the scripts and the machine that runs them, and is
verified with Verus. It never talks to a device itself. It hands out requests and takes replies, so
that what it does is a function of the replies alone.

## Layout

- `src/categories/` holds the scripts, one module for each category. `run_all` lists the tests of a
  category in the order in which they run.
- `src/script.rs`, `src/expr.rs`, `src/message.rs` and `src/tables.rs` are what scripts are made of:
  steps, numbers that are computed from columns and registers, messages, and tables of words.
- `src/machine.rs` and `src/memory.rs` run a script; `src/harness.rs` runs a category and collects
  its results; `src/render.rs` writes messages out.
- `src/columns.rs` and `src/scalar.rs` compute with columns of words. Doubles are kept as their bits
  and compared by rank.
- `src/ptx.rs` chooses, reads and judges PTX files.
- `src/walk.rs` states what holds of every script, and `src/laws/` what the single tests demand of a
  device: most laws say that a test passes exactly when the answers have a certain form.
- `app/` serves the requests of a script from a device provider and from the file system.
- `tests/` runs the scripts against a simulated device.
