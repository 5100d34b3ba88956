//! Scripts: what a test asks of the device and what it checks.

use vstd::prelude::*;
use crate::expr::Expr;
use crate::message::Note;
use crate::scalar::Scalar;

verus! {

/// The register that takes the row counts of [`Act::Match`].
pub const COUNT: u64 = 15;

/// The columns of a buffer and their names.
#[derive(Clone, Copy, PartialEq, Eq, Structural, Debug)]
pub enum Layout {
    /// `val`
    Val,
    /// `key`, `val`
    KeyVal,
    /// `key`, `lval`
    KeyLval,
    /// `key`, `rval`
    KeyRval,
    /// `k1`, `k2`, `k3`, `k4`, `val`
    FourKeys,
    /// `col0`, `col1`
    Two,
    /// `col0`, `col1`, `col2`
    Three,
    /// `col0`, `col1`, `col2`, `col3`
    Four,
}

/// The names of the columns of a layout, in order.
pub open spec fn names_of(layout: Layout) -> Seq<&'static str> {
    match layout {
        Layout::Val => seq!["val"],
        Layout::KeyVal => seq!["key", "val"],
        Layout::KeyLval => seq!["key", "lval"],
        Layout::KeyRval => seq!["key", "rval"],
        Layout::FourKeys => seq!["k1", "k2", "k3", "k4", "val"],
        Layout::Two => seq!["col0", "col1"],
        Layout::Three => seq!["col0", "col1", "col2"],
        Layout::Four => seq!["col0", "col1", "col2", "col3"],
    }
}

/// Lists the names of the columns of a layout.
pub fn column_names(layout: Layout) -> (names: Vec<&'static str>)
    ensures
        names@ == names_of(layout),
{
    match layout {
        Layout::Val => vec!["val"],
        Layout::KeyVal => vec!["key", "val"],
        Layout::KeyLval => vec!["key", "lval"],
        Layout::KeyRval => vec!["key", "rval"],
        Layout::FourKeys => vec!["k1", "k2", "k3", "k4", "val"],
        Layout::Two => vec!["col0", "col1"],
        Layout::Three => vec!["col0", "col1", "col2"],
        Layout::Four => vec!["col0", "col1", "col2", "col3"],
    }
}

/// A request to the device. Buffers, host columns and registers are named by their slots. A
/// buffer put into a slot takes the place of the one that was there.
#[derive(Clone, Copy, PartialEq, Eq, Structural, Debug)]
pub enum Request {
    /// Upload the host columns from slot `from` on as a buffer of a layout.
    Create { into: u64, layout: Layout, scalar: Scalar, from: u64 },
    /// Make a buffer without rows.
    CreateEmpty { into: u64, layout: Layout, scalar: Scalar },
    /// Sort a buffer by its first `keys` columns.
    Sort { of: u64, keys: u64, into: u64 },
    /// Keep the rows that a mask in a host column marks.
    Filter { of: u64, mask: u64, into: u64 },
    /// Keep one row for each value of the first column.
    Dedup { of: u64, into: u64 },
    /// Join two buffers on their first columns.
    Join { left: u64, right: u64, into: u64 },
    /// Read the number of rows of a buffer from the device.
    Rows { of: u64, into: u64 },
    /// Read the number of rows that the buffer's handle holds.
    RowsKnown { of: u64, into: u64 },
    /// Download a column of a buffer.
    Download { of: u64, column: u64, scalar: Scalar, into: u64 },
    /// Synchronise and report pending faults.
    Sync,
    /// The running sums of a mask, and its sum.
    PrefixSum { mask: u64, sums: u64, sum: u64 },
    /// The compute capability.
    Capability { major: u64, minor: u64 },
    /// The ordinal of the device.
    Ordinal { into: u64 },
    /// The memory budget in bytes.
    Budget { into: u64 },
    /// The memory in use in bytes.
    Used { into: u64 },
    /// Whether more than one device is available.
    Several { into: u64 },
    /// The number of devices.
    Devices { into: u64 },
    /// Allocate raw memory for `count` values.
    Alloc { scalar: Scalar, count: u64, into: u64 },
    /// Allocate `count` zero bytes of raw memory. This cannot be refused.
    Zeroed { count: u64, into: u64 },
    /// Copy a host column into raw memory.
    CopyIn { from: u64, to: u64 },
    /// Copy raw memory into a host column.
    CopyOut { of: u64, scalar: Scalar, into: u64 },
    /// Draw `samples` samples of every variable, where the raw bytes in `mask` and `forced`
    /// may fix values.
    Sample { from: u64, samples: u64, seed: u64, mask: u64, forced: u64, into: u64 },
    /// Whether the build kernel of the hash join can be resolved.
    KernelKnown { into: u64 },
    /// Whether an entry point can be resolved in a module, both named by texts of the script.
    Resolve { module: u64, entry: u64, into: u64 },
    /// The values of the small reference circuit.
    Forward { into: u64 },
    /// The values, adjoints and gradients of the small reference circuit, in four columns.
    Backward { into: u64 },
    /// Free the buffers from a slot on.
    Release { from: u64 },
    /// Set a timer, counted from the start of the test or from now.
    Deadline { timer: u64, seconds: u64, whole: bool },
    /// Whether a timer still runs.
    Clock { timer: u64 },
    /// The time since the start of the test, as text.
    Elapsed,
}

/// What a script does where a request fails.
pub enum Otherwise {
    /// The test fails.
    Fail(Note),
    /// The script goes on.
    Go,
    /// The script goes on with zero in the register that the request would have filled.
    Zero,
    /// The script adds one to a register and goes on at another step.
    Jump { bump: u64, to: u64 },
    /// The script goes on at another step.
    Leave { to: u64 },
}

/// Faults to look for at one place, in order.
pub enum Faults {
    One(Expr, Note),
    More(Expr, Note, Box<Faults>),
}

/// What one step of a script does.
pub enum Act {
    /// Make a request.
    Ask(Request, Otherwise),
    /// Read the number of rows of a buffer. Where it is not the expected one, read it again
    /// into [`COUNT`] and fail.
    Match { of: u64, expected: Expr, note: Note },
    /// Go on at step `again` while a timer runs, else at step `done`.
    Tick { timer: u64, again: u64, done: u64 },
    /// Fill a column place by place.
    Fill { into: u64, length: Expr, word: Expr },
    /// Fill a column from the places that a condition keeps.
    Select { into: u64, length: Expr, keep: Expr, word: Expr },
    /// Put the sorted copy of a column into a slot.
    SortColumn { into: u64, from: u64, scalar: Scalar },
    /// Put the running sums of a column into a slot.
    Running { into: u64, from: u64 },
    /// Put a shuffled copy of a column into a slot.
    Shuffle { into: u64, from: u64 },
    /// Put a number into a register.
    Let { into: u64, value: Expr },
    /// Fail where a fault shows.
    Check { fault: Expr, note: Note },
    /// Give the test up where a condition holds.
    Skip { when: Expr, reason: &'static str },
    /// Look for faults at the places `low`, `low + by`, ... below `high`.
    Scan { low: Expr, high: Expr, by: u64, faults: Faults },
}

/// A step of a script.
pub enum Step {
    /// Take it.
    Do(Act),
    /// Take it only where a condition holds.
    When(Expr, Act),
}

/// A test: its name, its steps in order, and the texts that it speaks of. A script that runs
/// through to the end has passed.
pub struct Script {
    pub name: &'static str,
    pub steps: Vec<Step>,
    pub texts: Vec<String>,
}

/// The contents of a [`Script`].
pub struct Plan {
    pub name: &'static str,
    pub steps: Seq<Step>,
    pub texts: Seq<Seq<char>>,
}

impl View for Script {
    type V = Plan;

    open spec fn view(&self) -> Plan {
        Plan {
            name: self.name,
            steps: self.steps@,
            texts: crate::memory::texts_in(self.texts@),
        }
    }
}

/// A script that speaks of no texts.
pub open spec fn plan(name: &'static str, steps: Seq<Step>) -> Plan {
    Plan { name, steps, texts: Seq::empty() }
}

impl Script {
    /// A script that speaks of no texts.
    pub fn new(name: &'static str, steps: Vec<Step>) -> (script: Script)
        ensures
            script@ == plan(name, steps@),
    {
        let script = Script { name, steps, texts: Vec::new() };
        assert(script@.texts =~= Seq::empty());
        script
    }
}

/// The steps of the first `count` rounds, one round after the other.
pub open spec fn rounds(count: int, round: spec_fn(int) -> Seq<Step>) -> Seq<Step>
    decreases count,
{
    if count <= 0 {
        Seq::empty()
    } else {
        rounds(count - 1, round) + round(count - 1)
    }
}

/// Uploads the columns of a layout, from a slot on, into a new buffer.
#[verifier::allow_in_spec]
pub fn create(into: u64, layout: Layout, scalar: Scalar, from: u64, note: Note) -> Step
    returns
        (Step::Do(Act::Ask(Request::Create { into, layout, scalar, from }, Otherwise::Fail(note)))),
{
    Step::Do(Act::Ask(Request::Create { into, layout, scalar, from }, Otherwise::Fail(note)))
}

/// Makes a buffer without rows.
#[verifier::allow_in_spec]
pub fn create_empty(into: u64, layout: Layout, scalar: Scalar, note: Note) -> Step
    returns
        (Step::Do(Act::Ask(Request::CreateEmpty { into, layout, scalar }, Otherwise::Fail(note)))),
{
    Step::Do(Act::Ask(Request::CreateEmpty { into, layout, scalar }, Otherwise::Fail(note)))
}

/// Sorts a buffer by its first `keys` columns.
#[verifier::allow_in_spec]
pub fn sort_by(of: u64, keys: u64, into: u64, note: Note) -> Step
    returns
        (Step::Do(Act::Ask(Request::Sort { of, keys, into }, Otherwise::Fail(note)))),
{
    Step::Do(Act::Ask(Request::Sort { of, keys, into }, Otherwise::Fail(note)))
}

/// Uploads one column of 32-bit values into a new buffer.
#[verifier::allow_in_spec]
pub fn upload(into: u64, from: u64, note: Note) -> Step
    returns
        create(into, Layout::Val, Scalar::U32, from, note),
{
    create(into, Layout::Val, Scalar::U32, from, note)
}

/// Sorts a buffer by its first column.
#[verifier::allow_in_spec]
pub fn sort(of: u64, into: u64, note: Note) -> Step
    returns
        sort_by(of, 1, into, note),
{
    sort_by(of, 1, into, note)
}

/// Downloads the first column of a buffer of 32-bit values.
#[verifier::allow_in_spec]
pub fn fetch(of: u64, into: u64, note: Note) -> Step
    returns
        download(of, 0, Scalar::U32, into, note),
{
    download(of, 0, Scalar::U32, into, note)
}

/// Uploads a table of keys and values of 32 bits.
#[verifier::allow_in_spec]
pub fn upload_table(into: u64, layout: Layout, from: u64, note: Note) -> Step
    returns
        create(into, layout, Scalar::U32, from, note),
{
    create(into, layout, Scalar::U32, from, note)
}

/// Keeps the rows of a buffer that a mask column marks.
#[verifier::allow_in_spec]
pub fn filter(of: u64, mask: u64, into: u64, note: Note) -> Step
    returns
        (Step::Do(Act::Ask(Request::Filter { of, mask, into }, Otherwise::Fail(note)))),
{
    Step::Do(Act::Ask(Request::Filter { of, mask, into }, Otherwise::Fail(note)))
}

/// Keeps one row of a buffer for each value of its first column.
#[verifier::allow_in_spec]
pub fn dedup(of: u64, into: u64, note: Note) -> Step
    returns
        (Step::Do(Act::Ask(Request::Dedup { of, into }, Otherwise::Fail(note)))),
{
    Step::Do(Act::Ask(Request::Dedup { of, into }, Otherwise::Fail(note)))
}

/// Joins two buffers on their first columns.
#[verifier::allow_in_spec]
pub fn join(left: u64, right: u64, into: u64, note: Note) -> Step
    returns
        (Step::Do(Act::Ask(Request::Join { left, right, into }, Otherwise::Fail(note)))),
{
    Step::Do(Act::Ask(Request::Join { left, right, into }, Otherwise::Fail(note)))
}

/// Downloads a column of a buffer.
#[verifier::allow_in_spec]
pub fn download(of: u64, column: u64, scalar: Scalar, into: u64, note: Note) -> Step
    returns
        (Step::Do(Act::Ask(Request::Download { of, column, scalar, into }, Otherwise::Fail(note)))),
{
    Step::Do(Act::Ask(Request::Download { of, column, scalar, into }, Otherwise::Fail(note)))
}

/// Waits for the device and asks it for pending faults.
#[verifier::allow_in_spec]
pub fn sync(note: Note) -> Step
    returns
        (Step::Do(Act::Ask(Request::Sync, Otherwise::Fail(note)))),
{
    Step::Do(Act::Ask(Request::Sync, Otherwise::Fail(note)))
}

/// Asks for the running sums of a mask column and for its sum.
#[verifier::allow_in_spec]
pub fn prefix_sum(mask: u64, sums: u64, sum: u64, note: Note) -> Step
    returns
        (Step::Do(Act::Ask(Request::PrefixSum { mask, sums, sum }, Otherwise::Fail(note)))),
{
    Step::Do(Act::Ask(Request::PrefixSum { mask, sums, sum }, Otherwise::Fail(note)))
}

/// Asks for the compute capability.
#[verifier::allow_in_spec]
pub fn capability(major: u64, minor: u64, note: Note) -> Step
    returns
        (Step::Do(Act::Ask(Request::Capability { major, minor }, Otherwise::Fail(note)))),
{
    Step::Do(Act::Ask(Request::Capability { major, minor }, Otherwise::Fail(note)))
}

/// Asks how many devices there are.
#[verifier::allow_in_spec]
pub fn devices(into: u64, note: Note) -> Step
    returns
        (Step::Do(Act::Ask(Request::Devices { into }, Otherwise::Fail(note)))),
{
    Step::Do(Act::Ask(Request::Devices { into }, Otherwise::Fail(note)))
}

/// Allocates raw device memory.
#[verifier::allow_in_spec]
pub fn allocate(scalar: Scalar, count: u64, into: u64, note: Note) -> Step
    returns
        (Step::Do(Act::Ask(Request::Alloc { scalar, count, into }, Otherwise::Fail(note)))),
{
    Step::Do(Act::Ask(Request::Alloc { scalar, count, into }, Otherwise::Fail(note)))
}

/// Copies a column into raw device memory.
#[verifier::allow_in_spec]
pub fn copy_in(from: u64, to: u64, note: Note) -> Step
    returns
        (Step::Do(Act::Ask(Request::CopyIn { from, to }, Otherwise::Fail(note)))),
{
    Step::Do(Act::Ask(Request::CopyIn { from, to }, Otherwise::Fail(note)))
}

/// Copies raw device memory into a column.
#[verifier::allow_in_spec]
pub fn copy_out(of: u64, scalar: Scalar, into: u64, note: Note) -> Step
    returns
        (Step::Do(Act::Ask(Request::CopyOut { of, scalar, into }, Otherwise::Fail(note)))),
{
    Step::Do(Act::Ask(Request::CopyOut { of, scalar, into }, Otherwise::Fail(note)))
}

/// Draws a matrix of samples, one variable for each probability of a column.
#[verifier::allow_in_spec]
pub fn sample(
    from: u64,
    samples: u64,
    seed: u64,
    mask: u64,
    forced: u64,
    into: u64,
    note: Note,
) -> Step
    returns
        (Step::Do(
            Act::Ask(
                Request::Sample { from, samples, seed, mask, forced, into },
                Otherwise::Fail(note),
            ),
        )),
{
    Step::Do(
        Act::Ask(
            Request::Sample { from, samples, seed, mask, forced, into },
            Otherwise::Fail(note),
        ),
    )
}

/// Evaluates the small reference circuit.
#[verifier::allow_in_spec]
pub fn forward(into: u64, note: Note) -> Step
    returns
        (Step::Do(Act::Ask(Request::Forward { into }, Otherwise::Fail(note)))),
{
    Step::Do(Act::Ask(Request::Forward { into }, Otherwise::Fail(note)))
}

/// Differentiates the small reference circuit.
#[verifier::allow_in_spec]
pub fn backward(into: u64, note: Note) -> Step
    returns
        (Step::Do(Act::Ask(Request::Backward { into }, Otherwise::Fail(note)))),
{
    Step::Do(Act::Ask(Request::Backward { into }, Otherwise::Fail(note)))
}

/// Asks the device for the number of rows of a buffer.
#[verifier::allow_in_spec]
pub fn rows(of: u64, into: u64) -> Step
    returns
        (Step::Do(Act::Ask(Request::Rows { of, into }, Otherwise::Go))),
{
    Step::Do(Act::Ask(Request::Rows { of, into }, Otherwise::Go))
}

/// Takes the number of rows that a buffer was made with.
#[verifier::allow_in_spec]
pub fn rows_known(of: u64, into: u64) -> Step
    returns
        (Step::Do(Act::Ask(Request::RowsKnown { of, into }, Otherwise::Go))),
{
    Step::Do(Act::Ask(Request::RowsKnown { of, into }, Otherwise::Go))
}

/// Asks for the ordinal of the device.
#[verifier::allow_in_spec]
pub fn ordinal(into: u64) -> Step
    returns
        (Step::Do(Act::Ask(Request::Ordinal { into }, Otherwise::Go))),
{
    Step::Do(Act::Ask(Request::Ordinal { into }, Otherwise::Go))
}

/// Asks for the memory budget in bytes.
#[verifier::allow_in_spec]
pub fn budget(into: u64) -> Step
    returns
        (Step::Do(Act::Ask(Request::Budget { into }, Otherwise::Go))),
{
    Step::Do(Act::Ask(Request::Budget { into }, Otherwise::Go))
}

/// Asks for the memory in use in bytes.
#[verifier::allow_in_spec]
pub fn used(into: u64) -> Step
    returns
        (Step::Do(Act::Ask(Request::Used { into }, Otherwise::Go))),
{
    Step::Do(Act::Ask(Request::Used { into }, Otherwise::Go))
}

/// Asks whether more than one device is available.
#[verifier::allow_in_spec]
pub fn several(into: u64) -> Step
    returns
        (Step::Do(Act::Ask(Request::Several { into }, Otherwise::Go))),
{
    Step::Do(Act::Ask(Request::Several { into }, Otherwise::Go))
}

/// Allocates raw device memory of zero bytes.
#[verifier::allow_in_spec]
pub fn zeroed(count: u64, into: u64) -> Step
    returns
        (Step::Do(Act::Ask(Request::Zeroed { count, into }, Otherwise::Go))),
{
    Step::Do(Act::Ask(Request::Zeroed { count, into }, Otherwise::Go))
}

/// Asks whether the build kernel of the hash join can be resolved.
#[verifier::allow_in_spec]
pub fn kernel_known(into: u64) -> Step
    returns
        (Step::Do(Act::Ask(Request::KernelKnown { into }, Otherwise::Go))),
{
    Step::Do(Act::Ask(Request::KernelKnown { into }, Otherwise::Go))
}

/// Asks whether an entry point can be resolved in a module.
#[verifier::allow_in_spec]
pub fn resolve(module: u64, entry: u64, into: u64) -> Step
    returns
        (Step::Do(Act::Ask(Request::Resolve { module, entry, into }, Otherwise::Go))),
{
    Step::Do(Act::Ask(Request::Resolve { module, entry, into }, Otherwise::Go))
}

/// Frees the buffers from a slot on.
#[verifier::allow_in_spec]
pub fn release(from: u64) -> Step
    returns
        (Step::Do(Act::Ask(Request::Release { from }, Otherwise::Go))),
{
    Step::Do(Act::Ask(Request::Release { from }, Otherwise::Go))
}

/// Sets a timer, counted from the start of the test or from now.
#[verifier::allow_in_spec]
pub fn deadline(timer: u64, seconds: u64, whole: bool) -> Step
    returns
        (Step::Do(Act::Ask(Request::Deadline { timer, seconds, whole }, Otherwise::Go))),
{
    Step::Do(Act::Ask(Request::Deadline { timer, seconds, whole }, Otherwise::Go))
}

/// Takes the time since the start of the test.
#[verifier::allow_in_spec]
pub fn elapsed() -> Step
    returns
        (Step::Do(Act::Ask(Request::Elapsed, Otherwise::Go))),
{
    Step::Do(Act::Ask(Request::Elapsed, Otherwise::Go))
}

/// Makes a request that may fail without ending the test.
#[verifier::allow_in_spec]
pub fn attempt(request: Request, otherwise: Otherwise) -> Step
    returns
        (Step::Do(Act::Ask(request, otherwise))),
{
    Step::Do(Act::Ask(request, otherwise))
}

/// Holds the number of rows of a buffer against the expected one.
#[verifier::allow_in_spec]
pub fn match_rows(of: u64, expected: Expr, note: Note) -> Step
    returns
        (Step::Do(Act::Match { of, expected, note })),
{
    Step::Do(Act::Match { of, expected, note })
}

/// Goes on at one step while a timer runs, and at another once it is up.
#[verifier::allow_in_spec]
pub fn tick(timer: u64, again: u64, done: u64) -> Step
    returns
        (Step::Do(Act::Tick { timer, again, done })),
{
    Step::Do(Act::Tick { timer, again, done })
}

/// Fills a column place by place.
#[verifier::allow_in_spec]
pub fn fill(into: u64, length: Expr, word: Expr) -> Step
    returns
        (Step::Do(Act::Fill { into, length, word })),
{
    Step::Do(Act::Fill { into, length, word })
}

/// Fills a column from the places that a condition keeps.
#[verifier::allow_in_spec]
pub fn select(into: u64, length: Expr, keep: Expr, word: Expr) -> Step
    returns
        (Step::Do(Act::Select { into, length, keep, word })),
{
    Step::Do(Act::Select { into, length, keep, word })
}

/// Puts the sorted copy of a column into a slot.
#[verifier::allow_in_spec]
pub fn sort_column(into: u64, from: u64, scalar: Scalar) -> Step
    returns
        (Step::Do(Act::SortColumn { into, from, scalar })),
{
    Step::Do(Act::SortColumn { into, from, scalar })
}

/// Puts the running sums of a column into a slot.
#[verifier::allow_in_spec]
pub fn running_column(into: u64, from: u64) -> Step
    returns
        (Step::Do(Act::Running { into, from })),
{
    Step::Do(Act::Running { into, from })
}

/// Puts a shuffled copy of a column into a slot.
#[verifier::allow_in_spec]
pub fn shuffle_column(into: u64, from: u64) -> Step
    returns
        (Step::Do(Act::Shuffle { into, from })),
{
    Step::Do(Act::Shuffle { into, from })
}

/// Puts a number into a slot.
#[verifier::allow_in_spec]
pub fn put(into: u64, value: Expr) -> Step
    returns
        (Step::Do(Act::Let { into, value })),
{
    Step::Do(Act::Let { into, value })
}

/// Fails where a fault shows.
#[verifier::allow_in_spec]
pub fn check(fault: Expr, note: Note) -> Step
    returns
        (Step::Do(Act::Check { fault, note })),
{
    Step::Do(Act::Check { fault, note })
}

/// Gives the test up without a failure where a condition holds.
#[verifier::allow_in_spec]
pub fn skip(when: Expr, reason: &'static str) -> Step
    returns
        (Step::Do(Act::Skip { when, reason })),
{
    Step::Do(Act::Skip { when, reason })
}

/// Looks for faults at every place of a range, `by` places apart.
#[verifier::allow_in_spec]
pub fn scan(low: Expr, high: Expr, by: u64, faults: Faults) -> Step
    returns
        (Step::Do(Act::Scan { low, high, by, faults })),
{
    Step::Do(Act::Scan { low, high, by, faults })
}

/// Takes a step only where a condition holds.
#[verifier::allow_in_spec]
pub fn only(condition: Expr, step: Step) -> Step
    returns
        (match step {
            Step::Do(act) => Step::When(condition, act),
            Step::When(further, act) => Step::When(
                Expr::And(Box::new(condition), Box::new(further)),
                act,
            ),
        }),
{
    match step {
        Step::Do(act) => Step::When(condition, act),
        Step::When(further, act) => Step::When(
            Expr::And(Box::new(condition), Box::new(further)),
            act,
        ),
    }
}

/// The number some places after a first one.
#[verifier::allow_in_spec]
pub fn after(first: u64, places: u64) -> u64
    requires
        first + places <= u64::MAX,
    returns
        (first + places) as u64,
{
    first + places
}

/// One fault to look for.
#[verifier::allow_in_spec]
pub fn fault1(fault: Expr, note: Note) -> Faults
    returns
        (Faults::One(fault, note)),
{
    Faults::One(fault, note)
}

/// Two faults to look for, in order.
#[verifier::allow_in_spec]
pub fn fault2(fault: Expr, note: Note, second: Expr, second_note: Note) -> Faults
    returns
        (Faults::More(fault, note, Box::new(Faults::One(second, second_note)))),
{
    Faults::More(fault, note, Box::new(Faults::One(second, second_note)))
}

/// Three faults to look for, in order.
#[verifier::allow_in_spec]
pub fn fault3(
    fault: Expr,
    note: Note,
    second: Expr,
    second_note: Note,
    third: Expr,
    third_note: Note,
) -> Faults
    returns
        (Faults::More(
            fault,
            note,
            Box::new(Faults::More(second, second_note, Box::new(Faults::One(third, third_note)))),
        )),
{
    Faults::More(
        fault,
        note,
        Box::new(Faults::More(second, second_note, Box::new(Faults::One(third, third_note)))),
    )
}

} // verus!
