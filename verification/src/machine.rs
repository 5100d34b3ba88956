//! The machine that runs a script: it hands out requests, takes replies, and ends in a verdict.

use vstd::prelude::*;
use crate::columns;
use crate::expr::{evaluate, plus, Expr};
use crate::memory::{Contents, Memory, COLUMNS, REGISTERS};
use crate::message::{tell, Message, Note, Said};
use crate::script::{Act, Faults, Otherwise, Plan, Request, Script, Step, COUNT};

verus! {

/// What the device replies to a request.
#[derive(Debug)]
pub enum Reply {
    /// It was done.
    Done,
    /// A number, or truth as 1 or 0.
    Count(u64),
    /// Two numbers.
    Pair(u64, u64),
    /// A column.
    Words(Vec<u64>),
    /// A column of running sums, and the sum.
    Sums(Vec<u64>, u64),
    /// Four columns.
    Four(Vec<u64>, Vec<u64>, Vec<u64>, Vec<u64>),
    /// A text.
    Text(String),
    /// It failed, with a reason.
    Failed(String),
}

/// The contents of a [`Reply`].
pub enum Answer {
    Done,
    Count(u64),
    Pair(u64, u64),
    Words(Seq<u64>),
    Sums(Seq<u64>, u64),
    Four(Seq<u64>, Seq<u64>, Seq<u64>, Seq<u64>),
    Text(Seq<char>),
    Failed(Seq<char>),
}

impl View for Reply {
    type V = Answer;

    open spec fn view(&self) -> Answer {
        match *self {
            Reply::Done => Answer::Done,
            Reply::Count(number) => Answer::Count(number),
            Reply::Pair(first, second) => Answer::Pair(first, second),
            Reply::Words(words) => Answer::Words(words@),
            Reply::Sums(sums, sum) => Answer::Sums(sums@, sum),
            Reply::Four(first, second, third, fourth) => Answer::Four(
                first@,
                second@,
                third@,
                fourth@,
            ),
            Reply::Text(text) => Answer::Text(text@),
            Reply::Failed(reason) => Answer::Failed(reason@),
        }
    }
}

/// Whether a request can be refused.
pub open spec fn refusable(request: Request) -> bool {
    match request {
        Request::Rows { .. } => false,
        Request::RowsKnown { .. } => false,
        Request::Ordinal { .. } => false,
        Request::Budget { .. } => false,
        Request::Used { .. } => false,
        Request::Several { .. } => false,
        Request::Zeroed { .. } => false,
        Request::KernelKnown { .. } => false,
        Request::Resolve { .. } => false,
        Request::Release { .. } => false,
        Request::Deadline { .. } => false,
        Request::Clock { .. } => false,
        Request::Elapsed => false,
        _ => true,
    }
}

/// Whether an answer is of the form that a request asks for.
#[verifier::opaque]
pub open spec fn answers(request: Request, answer: Answer) -> bool {
    match answer {
        Answer::Failed(_) => refusable(request),
        Answer::Count(_) => match request {
            Request::Rows { .. } => true,
            Request::RowsKnown { .. } => true,
            Request::Ordinal { .. } => true,
            Request::Budget { .. } => true,
            Request::Used { .. } => true,
            Request::Several { .. } => true,
            Request::Devices { .. } => true,
            Request::KernelKnown { .. } => true,
            Request::Resolve { .. } => true,
            Request::Clock { .. } => true,
            _ => false,
        },
        Answer::Pair(_, _) => request is Capability,
        Answer::Words(_) => match request {
            Request::Download { .. } => true,
            Request::CopyOut { .. } => true,
            Request::Sample { .. } => true,
            Request::Forward { .. } => true,
            _ => false,
        },
        Answer::Sums(_, _) => request is PrefixSum,
        Answer::Four(_, _, _, _) => request is Backward,
        Answer::Text(_) => request is Elapsed,
        Answer::Done => match request {
            Request::Create { .. } => true,
            Request::CreateEmpty { .. } => true,
            Request::Sort { .. } => true,
            Request::Filter { .. } => true,
            Request::Dedup { .. } => true,
            Request::Join { .. } => true,
            Request::Sync => true,
            Request::Alloc { .. } => true,
            Request::Zeroed { .. } => true,
            Request::CopyIn { .. } => true,
            Request::Release { .. } => true,
            Request::Deadline { .. } => true,
            _ => false,
        },
    }
}

/// How a script ends.
pub enum Ending {
    /// It ran through.
    Passed,
    /// A request or a check failed.
    Failed(Said),
    /// It was given up, with a reason.
    Skipped(&'static str),
    /// A computation in it could not be carried out.
    Aborted,
}

/// Where a script stands.
pub enum Progress {
    /// At a step that waits for the reply to a request. A count that did not match is asked for
    /// again.
    Asking { at: int, again: bool, request: Request },
    /// At its end.
    Over(Ending),
}

/// The state of a running script.
pub struct Run {
    pub contents: Contents,
    pub progress: Progress,
}

/// What one act leads to.
pub enum Effect {
    /// The script goes on with these contents.
    Next(Contents),
    /// The script makes a request.
    Ask(Request),
    /// The script ends.
    Stop(Ending),
}

/// The words of a column that is filled place by place.
pub open spec fn filled(word: Expr, contents: Contents, length: nat) -> Option<Seq<u64>> {
    if forall|i: int|
        0 <= i < length ==> #[trigger] crate::expr::value_of(word, contents, i as u64) is Some {
        Some(
            Seq::new(
                length,
                |i: int| crate::expr::value_of(word, contents, i as u64)->0,
            ),
        )
    } else {
        None
    }
}

/// The words of a column that is filled from the places below `length` that a condition keeps.
pub open spec fn selected(keep: Expr, word: Expr, contents: Contents, length: nat) -> Option<
    Seq<u64>,
>
    decreases length,
{
    if length == 0 {
        Some(Seq::empty())
    } else {
        let place = (length - 1) as u64;
        match (
            selected(keep, word, contents, (length - 1) as nat),
            crate::expr::value_of(keep, contents, place),
        ) {
            (Some(words), Some(kept)) => if kept == 0 {
                Some(words)
            } else {
                match crate::expr::value_of(word, contents, place) {
                    Some(word) => Some(words.push(word)),
                    None => None,
                }
            },
            _ => None,
        }
    }
}

/// A column after its first `rounds` places have each been swapped with the place
/// `place * 17 + 7`, modulo the length.
pub open spec fn shuffled(words: Seq<u64>, rounds: nat) -> Seq<u64>
    decreases rounds,
{
    if rounds == 0 {
        words
    } else {
        let place = rounds - 1;
        let before = shuffled(words, (rounds - 1) as nat);
        let other = (place * 17 + 7) % (words.len() as int);
        before.update(place, before[other]).update(other, before[place])
    }
}

/// What looking for faults finds.
pub enum Finding {
    /// Nothing.
    Clean,
    /// A fault.
    Fault(Said),
    /// A computation that could not be carried out.
    Broken,
}

/// What looking for faults at one place finds: the first fault that shows.
pub open spec fn found_at(faults: Faults, contents: Contents, place: u64) -> Finding
    decreases faults,
{
    let (fault, note) = match faults {
        Faults::One(fault, note) => (fault, note),
        Faults::More(fault, note, _) => (fault, note),
    };
    match crate::expr::value_of(fault, contents, place) {
        Some(value) => if value != 0 {
            match crate::message::said(note, contents, place, None) {
                Some(said) => Finding::Fault(said),
                None => Finding::Broken,
            }
        } else {
            match faults {
                Faults::One(_, _) => Finding::Clean,
                Faults::More(_, _, rest) => found_at(*rest, contents, place),
            }
        },
        None => Finding::Broken,
    }
}

/// What looking for faults at the places `place`, `place + by`, ... below `to` finds: the first
/// fault of the first place that has one.
pub open spec fn found_from(
    faults: Faults,
    contents: Contents,
    place: int,
    to: int,
    by: int,
) -> Finding
    decreases
        if place < to {
            to - place
        } else {
            0
        },
{
    if by <= 0 {
        Finding::Broken
    } else if place >= to {
        Finding::Clean
    } else {
        match found_at(faults, contents, place as u64) {
            Finding::Clean => found_from(faults, contents, place + by, to, by),
            other => other,
        }
    }
}

/// The contents with a column put into a slot, if there is such a slot.
pub open spec fn column_put(contents: Contents, slot: u64, words: Option<Seq<u64>>) -> Option<
    Contents,
> {
    match words {
        Some(words) => if slot < contents.columns.len() {
            Some(contents.with_column(slot, words))
        } else {
            None
        },
        None => None,
    }
}

/// The contents with a number put into a slot, if there is such a slot.
pub open spec fn register_put(contents: Contents, slot: u64, number: Option<u64>) -> Option<
    Contents,
> {
    match number {
        Some(number) => if slot < contents.registers.len() {
            Some(contents.with_register(slot, number))
        } else {
            None
        },
        None => None,
    }
}

/// The column in a slot, if there is such a slot.
pub open spec fn column_in(contents: Contents, slot: u64) -> Option<Seq<u64>> {
    if slot < contents.columns.len() {
        Some(contents.columns[slot as int])
    } else {
        None
    }
}

/// Goes on with new contents, or ends where they could not be computed.
pub open spec fn onward(contents: Option<Contents>) -> Effect {
    match contents {
        Some(contents) => Effect::Next(contents),
        None => Effect::Stop(Ending::Aborted),
    }
}

/// Fails with a message, or ends where it could not be written.
pub open spec fn failing(said: Option<Said>) -> Ending {
    match said {
        Some(said) => Ending::Failed(said),
        None => Ending::Aborted,
    }
}

/// What one act leads to.
#[verifier::opaque]
pub open spec fn effect_of(act: Act, contents: Contents) -> Effect {
    match act {
        Act::Ask(request, _) => Effect::Ask(request),
        Act::Match { of, .. } => Effect::Ask(Request::Rows { of, into: COUNT }),
        Act::Tick { timer, .. } => Effect::Ask(Request::Clock { timer }),
        Act::Fill { into, length, word } => match crate::expr::value_of(length, contents, 0) {
            Some(length) => onward(
                column_put(contents, into, filled(word, contents, length as nat)),
            ),
            None => Effect::Stop(Ending::Aborted),
        },
        Act::Select { into, length, keep, word } => match crate::expr::value_of(
            length,
            contents,
            0,
        ) {
            Some(length) => onward(
                column_put(contents, into, selected(keep, word, contents, length as nat)),
            ),
            None => Effect::Stop(Ending::Aborted),
        },
        Act::SortColumn { into, from, scalar } => match column_in(contents, from) {
            Some(words) => onward(
                column_put(contents, into, Some(columns::sorted(scalar, words))),
            ),
            None => Effect::Stop(Ending::Aborted),
        },
        Act::Running { into, from } => match column_in(contents, from) {
            Some(words) => if columns::total(words) <= u64::MAX {
                onward(column_put(contents, into, Some(columns::running_sums(words))))
            } else {
                Effect::Stop(Ending::Aborted)
            },
            None => Effect::Stop(Ending::Aborted),
        },
        Act::Shuffle { into, from } => match column_in(contents, from) {
            Some(words) => onward(column_put(contents, into, Some(shuffled(words, words.len())))),
            None => Effect::Stop(Ending::Aborted),
        },
        Act::Let { into, value } => onward(
            register_put(contents, into, crate::expr::value_of(value, contents, 0)),
        ),
        Act::Check { fault, note } => match crate::expr::value_of(fault, contents, 0) {
            Some(value) => if value != 0 {
                Effect::Stop(failing(crate::message::said(note, contents, 0, None)))
            } else {
                Effect::Next(contents)
            },
            None => Effect::Stop(Ending::Aborted),
        },
        Act::Skip { when, reason } => match crate::expr::value_of(when, contents, 0) {
            Some(value) => if value != 0 {
                Effect::Stop(Ending::Skipped(reason))
            } else {
                Effect::Next(contents)
            },
            None => Effect::Stop(Ending::Aborted),
        },
        Act::Scan { low, high, by, faults } => match (
            crate::expr::value_of(low, contents, 0),
            crate::expr::value_of(high, contents, 0),
        ) {
            (Some(from), Some(to)) => match found_from(
                faults,
                contents,
                from as int,
                to as int,
                by as int,
            ) {
                Finding::Clean => Effect::Next(contents),
                Finding::Fault(said) => Effect::Stop(Ending::Failed(said)),
                Finding::Broken => Effect::Stop(Ending::Aborted),
            },
            _ => Effect::Stop(Ending::Aborted),
        },
    }
}

/// What a step does.
pub open spec fn act_of(step: Step) -> Act {
    match step {
        Step::Do(act) => act,
        Step::When(_, act) => act,
    }
}

/// Whether a step is taken.
pub open spec fn taken(step: Step, contents: Contents) -> Option<bool> {
    match step {
        Step::Do(_) => Some(true),
        Step::When(condition, _) => match crate::expr::value_of(condition, contents, 0) {
            Some(value) => Some(value != 0),
            None => None,
        },
    }
}

/// What one step leads to. A step that is not taken changes nothing.
pub open spec fn moved(step: Step, contents: Contents) -> Effect {
    match taken(step, contents) {
        None => Effect::Stop(Ending::Aborted),
        Some(false) => Effect::Next(contents),
        Some(true) => effect_of(act_of(step), contents),
    }
}

/// A script that goes on from a step: up to its next request, or to its end.
pub open spec fn settled(steps: Seq<Step>, at: int, contents: Contents) -> Run
    decreases steps.len() - at,
{
    if at < 0 || at >= steps.len() {
        over(contents, Ending::Passed)
    } else {
        match moved(steps[at], contents) {
            Effect::Next(contents) => settled(steps, at + 1, contents),
            Effect::Ask(request) => Run {
                contents,
                progress: Progress::Asking { at, again: false, request },
            },
            Effect::Stop(ending) => over(contents, ending),
        }
    }
}

/// The contents after the device has done what was asked.
#[verifier::opaque]
pub open spec fn stored(request: Request, contents: Contents, answer: Answer) -> Option<Contents> {
    match (request, answer) {
        (Request::Rows { into, .. }, Answer::Count(number)) => register_put(
            contents,
            into,
            Some(number),
        ),
        (Request::RowsKnown { into, .. }, Answer::Count(number)) => register_put(
            contents,
            into,
            Some(number),
        ),
        (Request::Ordinal { into }, Answer::Count(number)) => register_put(
            contents,
            into,
            Some(number),
        ),
        (Request::Budget { into }, Answer::Count(number)) => register_put(
            contents,
            into,
            Some(number),
        ),
        (Request::Used { into }, Answer::Count(number)) => register_put(
            contents,
            into,
            Some(number),
        ),
        (Request::Several { into }, Answer::Count(number)) => register_put(
            contents,
            into,
            Some(number),
        ),
        (Request::Devices { into }, Answer::Count(number)) => register_put(
            contents,
            into,
            Some(number),
        ),
        (Request::KernelKnown { into }, Answer::Count(number)) => register_put(
            contents,
            into,
            Some(number),
        ),
        (Request::Resolve { into, .. }, Answer::Count(number)) => register_put(
            contents,
            into,
            Some(number),
        ),
        (Request::Capability { major, minor }, Answer::Pair(first, second)) => match register_put(
            contents,
            major,
            Some(first),
        ) {
            Some(contents) => register_put(contents, minor, Some(second)),
            None => None,
        },
        (Request::Download { into, .. }, Answer::Words(words)) => column_put(
            contents,
            into,
            Some(words),
        ),
        (Request::CopyOut { into, .. }, Answer::Words(words)) => column_put(
            contents,
            into,
            Some(words),
        ),
        (Request::Sample { into, .. }, Answer::Words(words)) => column_put(
            contents,
            into,
            Some(words),
        ),
        (Request::Forward { into }, Answer::Words(words)) => column_put(
            contents,
            into,
            Some(words),
        ),
        (Request::PrefixSum { sums, sum, .. }, Answer::Sums(words, number)) => match column_put(
            contents,
            sums,
            Some(words),
        ) {
            Some(contents) => register_put(contents, sum, Some(number)),
            None => None,
        },
        (Request::Backward { into }, Answer::Four(first, second, third, fourth)) => if into + 3
            < contents.columns.len() {
            Some(
                contents.with_column(into, first).with_column((into + 1) as u64, second).with_column(
                    (into + 2) as u64,
                    third,
                ).with_column((into + 3) as u64, fourth),
            )
        } else {
            None
        },
        (Request::Elapsed, Answer::Text(text)) => Some(contents.with_timing(text)),
        _ => Some(contents),
    }
}

/// The register that a count is put into.
pub open spec fn register_of(request: Request) -> u64 {
    match request {
        Request::Devices { into } => into,
        _ => COUNT,
    }
}

/// The end of a script.
pub open spec fn over(contents: Contents, ending: Ending) -> Run {
    Run { contents, progress: Progress::Over(ending) }
}

/// A script that goes on from a step with new contents, or ends where they could not be computed.
pub open spec fn resumed(
    steps: Seq<Step>,
    at: int,
    before: Contents,
    contents: Option<Contents>,
) -> Run {
    match contents {
        Some(contents) => settled(steps, at, contents),
        None => over(before, Ending::Aborted),
    }
}

/// A script after a request has been refused.
pub open spec fn refused(
    steps: Seq<Step>,
    at: int,
    request: Request,
    otherwise: Otherwise,
    contents: Contents,
    reason: Seq<char>,
) -> Run {
    match otherwise {
        Otherwise::Fail(note) => over(
            contents,
            failing(crate::message::said(note, contents, 0, Some(reason))),
        ),
        Otherwise::Go => settled(steps, at + 1, contents),
        Otherwise::Zero => resumed(
            steps,
            at + 1,
            contents,
            register_put(contents, register_of(request), Some(0)),
        ),
        Otherwise::Jump { bump, to } => resumed(
            steps,
            to as int,
            contents,
            register_put(
                contents,
                bump,
                crate::expr::value_of(
                    crate::expr::plus(Expr::Register(bump), Expr::Number(1)),
                    contents,
                    0,
                ),
            ),
        ),
        Otherwise::Leave { to } => settled(steps, to as int, contents),
    }
}

/// A script after the device has answered the request that it waited for.
pub open spec fn answered(steps: Seq<Step>, run: Run, answer: Answer) -> Run
    recommends
        run.progress is Asking,
{
    let contents = run.contents;
    match run.progress {
        Progress::Asking { at, again, request } => match act_of(steps[at]) {
            Act::Ask(_, otherwise) => match answer {
                Answer::Failed(reason) => refused(
                    steps,
                    at,
                    request,
                    otherwise,
                    contents,
                    reason,
                ),
                _ => resumed(steps, at + 1, contents, stored(request, contents, answer)),
            },
            Act::Match { expected, note, .. } => match answer {
                Answer::Count(number) => match crate::expr::value_of(expected, contents, 0) {
                    None => over(contents, Ending::Aborted),
                    Some(expected) => {
                        let counted = register_put(contents, COUNT, Some(number));
                        if again {
                            match counted {
                                Some(counted) => over(
                                    counted,
                                    failing(crate::message::said(note, counted, 0, None)),
                                ),
                                None => over(contents, Ending::Aborted),
                            }
                        } else if number == expected {
                            resumed(steps, at + 1, contents, counted)
                        } else {
                            Run {
                                contents,
                                progress: Progress::Asking { at, again: true, request },
                            }
                        }
                    },
                },
                _ => over(contents, Ending::Aborted),
            },
            Act::Tick { again, done, .. } => match answer {
                Answer::Count(number) => settled(
                    steps,
                    if number != 0 {
                        again as int
                    } else {
                        done as int
                    },
                    contents,
                ),
                _ => over(contents, Ending::Aborted),
            },
            _ => over(contents, Ending::Aborted),
        },
        Progress::Over(_) => run,
    }
}

/// A script from its start, after a run of answers: it takes as many of them as it asks for.
pub open spec fn run_of(plan: Plan, answers: Seq<Answer>) -> Run
    decreases answers.len(),
{
    if answers.len() == 0 {
        settled(plan.steps, 0, Contents::blank(plan.texts))
    } else {
        answered(plan.steps, run_of(plan, answers.drop_last()), answers.last())
    }
}

/// How a test ended.
#[derive(Debug, PartialEq, Eq)]
pub enum Verdict {
    /// It passed.
    Passed,
    /// It failed.
    Failed(Message),
    /// It was given up, with a reason.
    Skipped(&'static str),
    /// A computation in it could not be carried out: a place past the end of a column was
    /// looked at, or a number left its width.
    Aborted,
}

impl View for Verdict {
    type V = Ending;

    open spec fn view(&self) -> Ending {
        match *self {
            Verdict::Passed => Ending::Passed,
            Verdict::Failed(message) => Ending::Failed(message@),
            Verdict::Skipped(reason) => Ending::Skipped(reason),
            Verdict::Aborted => Ending::Aborted,
        }
    }
}

/// Where a machine stands.
#[derive(Debug, PartialEq, Eq)]
pub enum Status {
    /// It waits for the reply to a request.
    Asking { at: usize, again: bool, request: Request },
    /// It has come to an end.
    Over(Verdict),
}

impl View for Status {
    type V = Progress;

    open spec fn view(&self) -> Progress {
        match *self {
            Status::Asking { at, again, request } => Progress::Asking {
                at: at as int,
                again,
                request,
            },
            Status::Over(verdict) => Progress::Over(verdict@),
        }
    }
}

/// A running script.
pub struct Machine {
    name: &'static str,
    steps: Vec<Step>,
    memory: Memory,
    status: Status,
}

/// What one act leads to, short of the contents.
enum Performed {
    Next,
    Ask(Request),
    Stop(Verdict),
}

/// What looking for faults finds.
enum Look {
    Clean,
    Fault(Message),
    Broken,
}

impl View for Look {
    type V = Finding;

    closed spec fn view(&self) -> Finding {
        match *self {
            Look::Clean => Finding::Clean,
            Look::Fault(message) => Finding::Fault(message@),
            Look::Broken => Finding::Broken,
        }
    }
}

/// Looks for faults at one place.
fn look_at(faults: &Faults, memory: &Memory, place: u64) -> (result: Look)
    ensures
        result@ == found_at(*faults, memory@, place),
    decreases faults,
{
    let (fault, note) = match faults {
        Faults::One(fault, note) => (fault, note),
        Faults::More(fault, note, _) => (fault, note),
    };
    match evaluate(fault, memory, place) {
        Some(value) => if value != 0 {
            match tell(note, memory, place, None) {
                Some(message) => Look::Fault(message),
                None => Look::Broken,
            }
        } else {
            match faults {
                Faults::One(_, _) => Look::Clean,
                Faults::More(_, _, rest) => look_at(rest, memory, place),
            }
        },
        None => Look::Broken,
    }
}

/// Looks for faults at every place of a range.
fn look_from(faults: &Faults, memory: &Memory, from: u64, to: u64, by: u64) -> (result: Look)
    ensures
        result@ == found_from(*faults, memory@, from as int, to as int, by as int),
{
    if by == 0 {
        return Look::Broken;
    }
    let mut place: u64 = from;
    while place < to
        invariant
            by > 0,
            found_from(*faults, memory@, from as int, to as int, by as int) == found_from(
                *faults,
                memory@,
                place as int,
                to as int,
                by as int,
            ),
        decreases to - place,
    {
        let look = look_at(faults, memory, place);
        match look {
            Look::Clean => {},
            other => {
                return other;
            },
        }
        if by >= to - place {
            assert(found_from(*faults, memory@, place + by, to as int, by as int) is Clean);
            return Look::Clean;
        }
        place = place + by;
    }
    Look::Clean
}

/// Fills a column place by place.
fn fill_words(word: &Expr, memory: &Memory, length: u64) -> (result: Option<Vec<u64>>)
    ensures
        match result {
            Some(words) => filled(*word, memory@, length as nat) == Some(words@),
            None => filled(*word, memory@, length as nat) is None,
        },
{
    let mut words: Vec<u64> = Vec::new();
    let mut place: u64 = 0;
    while place < length
        invariant
            place <= length,
            words@.len() == place,
            forall|i: int|
                0 <= i < place ==> #[trigger] crate::expr::value_of(*word, memory@, i as u64)
                    == Some(words@[i]),
        decreases length - place,
    {
        match evaluate(word, memory, place) {
            Some(value) => {
                words.push(value);
            },
            None => {
                assert(crate::expr::value_of(*word, memory@, (place as int) as u64) is None);
                return None;
            },
        }
        place = place + 1;
    }
    proof {
        let full = filled(*word, memory@, length as nat);
        assert(full is Some);
        assert(full->0 =~= words@);
    }
    Some(words)
}

/// Fills a column from the places that a condition keeps.
fn select_words(keep: &Expr, word: &Expr, memory: &Memory, length: u64) -> (result: Option<
    Vec<u64>,
>)
    ensures
        match result {
            Some(words) => selected(*keep, *word, memory@, length as nat) == Some(words@),
            None => selected(*keep, *word, memory@, length as nat) is None,
        },
{
    let mut words: Vec<u64> = Vec::new();
    let mut place: u64 = 0;
    while place < length
        invariant
            place <= length,
            selected(*keep, *word, memory@, place as nat) == Some(words@),
        decreases length - place,
    {
        let ghost broken = selected(*keep, *word, memory@, (place + 1) as nat) is None;
        match evaluate(keep, memory, place) {
            Some(kept) => {
                if kept != 0 {
                    match evaluate(word, memory, place) {
                        Some(value) => {
                            words.push(value);
                        },
                        None => {
                            assert(broken);
                            proof {
                                lemma_selection_stays_broken(
                                    *keep,
                                    *word,
                                    memory@,
                                    (place + 1) as nat,
                                    length as nat,
                                );
                            }
                            return None;
                        },
                    }
                }
            },
            None => {
                assert(broken);
                proof {
                    lemma_selection_stays_broken(
                        *keep,
                        *word,
                        memory@,
                        (place + 1) as nat,
                        length as nat,
                    );
                }
                return None;
            },
        }
        place = place + 1;
    }
    Some(words)
}

/// A selection that cannot be carried out up to one place cannot be carried out further.
proof fn lemma_selection_stays_broken(
    keep: Expr,
    word: Expr,
    contents: Contents,
    short: nat,
    long: nat,
)
    requires
        short <= long,
        selected(keep, word, contents, short) is None,
    ensures
        selected(keep, word, contents, long) is None,
    decreases long,
{
    if short < long {
        lemma_selection_stays_broken(keep, word, contents, short, (long - 1) as nat);
    }
}

/// Shuffles a copy of a column.
fn shuffle_words(words: &Vec<u64>) -> (result: Vec<u64>)
    ensures
        result@ == shuffled(words@, words@.len()),
{
    let mut result = words.clone();
    assert(result@ =~= words@);
    let mut place: usize = 0;
    while place < words.len()
        invariant
            place <= words.len(),
            result@.len() == words@.len(),
            result@ == shuffled(words@, place as nat),
        decreases words.len() - place,
    {
        let other: usize = ((place as u128 * 17 + 7) % (words.len() as u128)) as usize;
        assert(other == (place * 17 + 7) % (words@.len() as int));
        let here: u64 = result[place];
        let there: u64 = result[other];
        result.set(place, there);
        result.set(other, here);
        place = place + 1;
    }
    result
}

/// Puts a column into a slot; `false` where there is no such slot.
fn store_column(memory: &mut Memory, slot: u64, words: Vec<u64>) -> (done: bool)
    requires
        old(memory)@.full(),
    ensures
        final(memory)@.full(),
        match column_put(old(memory)@, slot, Some(words@)) {
            Some(contents) => done && final(memory)@ == contents,
            None => !done && final(memory)@ == old(memory)@,
        },
{
    if slot < COLUMNS as u64 {
        memory.put_column(slot, words);
        true
    } else {
        false
    }
}

/// Puts a number into a slot; `false` where there is no such slot.
fn store_register(memory: &mut Memory, slot: u64, number: u64) -> (done: bool)
    requires
        old(memory)@.full(),
    ensures
        final(memory)@.full(),
        match register_put(old(memory)@, slot, Some(number)) {
            Some(contents) => done && final(memory)@ == contents,
            None => !done && final(memory)@ == old(memory)@,
        },
{
    if slot < REGISTERS as u64 {
        memory.put_register(slot, number);
        true
    } else {
        false
    }
}

/// Goes on, or ends where something could not be put away.
fn proceed(done: bool) -> (result: Performed)
    ensures
        result == (if done {
            Performed::Next
        } else {
            Performed::Stop(Verdict::Aborted)
        }),
{
    if done {
        Performed::Next
    } else {
        Performed::Stop(Verdict::Aborted)
    }
}

/// Writes the message of a failure.
fn fail(note: &Note, memory: &Memory, reason: Option<String>) -> (verdict: Verdict)
    ensures
        verdict@ == failing(
            crate::message::said(
                *note,
                memory@,
                0,
                match reason {
                    Some(reason) => Some(reason@),
                    None => None,
                },
            ),
        ),
{
    match tell(note, memory, 0, reason) {
        Some(message) => Verdict::Failed(message),
        None => Verdict::Aborted,
    }
}

/// Carries an act out, up to a request that it makes.
fn perform(act: &Act, memory: &mut Memory) -> (result: Performed)
    requires
        old(memory)@.full(),
    ensures
        final(memory)@.full(),
        match effect_of(*act, old(memory)@) {
            Effect::Next(contents) => result is Next && final(memory)@ == contents,
            Effect::Ask(request) => result == Performed::Ask(request) && final(memory)@ == old(
                memory,
            )@,
            Effect::Stop(ending) => final(memory)@ == old(memory)@ && match result {
                Performed::Stop(verdict) => verdict@ == ending,
                _ => false,
            },
        },
{
    reveal(effect_of);
    match act {
        Act::Ask(request, _) => Performed::Ask(*request),
        Act::Match { of, .. } => Performed::Ask(Request::Rows { of: *of, into: COUNT }),
        Act::Tick { timer, .. } => Performed::Ask(Request::Clock { timer: *timer }),
        Act::Fill { into, length, word } => match evaluate(length, memory, 0) {
            Some(length) => match fill_words(word, memory, length) {
                Some(words) => proceed(store_column(memory, *into, words)),
                None => Performed::Stop(Verdict::Aborted),
            },
            None => Performed::Stop(Verdict::Aborted),
        },
        Act::Select { into, length, keep, word } => match evaluate(length, memory, 0) {
            Some(length) => match select_words(keep, word, memory, length) {
                Some(words) => proceed(store_column(memory, *into, words)),
                None => Performed::Stop(Verdict::Aborted),
            },
            None => Performed::Stop(Verdict::Aborted),
        },
        Act::SortColumn { into, from, scalar } => if *from < COLUMNS as u64 {
            let words = columns::sort(*scalar, &memory.columns[*from as usize]);
            proceed(store_column(memory, *into, words))
        } else {
            Performed::Stop(Verdict::Aborted)
        },
        Act::Running { into, from } => if *from < COLUMNS as u64 {
            match columns::running(&memory.columns[*from as usize]) {
                Some(words) => proceed(store_column(memory, *into, words)),
                None => Performed::Stop(Verdict::Aborted),
            }
        } else {
            Performed::Stop(Verdict::Aborted)
        },
        Act::Shuffle { into, from } => if *from < COLUMNS as u64 {
            let words = shuffle_words(&memory.columns[*from as usize]);
            proceed(store_column(memory, *into, words))
        } else {
            Performed::Stop(Verdict::Aborted)
        },
        Act::Let { into, value } => match evaluate(value, memory, 0) {
            Some(number) => proceed(store_register(memory, *into, number)),
            None => Performed::Stop(Verdict::Aborted),
        },
        Act::Check { fault, note } => match evaluate(fault, memory, 0) {
            Some(value) => if value != 0 {
                Performed::Stop(fail(note, memory, None))
            } else {
                Performed::Next
            },
            None => Performed::Stop(Verdict::Aborted),
        },
        Act::Skip { when, reason } => match evaluate(when, memory, 0) {
            Some(value) => if value != 0 {
                Performed::Stop(Verdict::Skipped(*reason))
            } else {
                Performed::Next
            },
            None => Performed::Stop(Verdict::Aborted),
        },
        Act::Scan { low, high, by, faults } => match (
            evaluate(low, memory, 0),
            evaluate(high, memory, 0),
        ) {
            (Some(from), Some(to)) => match look_from(faults, memory, from, to, *by) {
                Look::Clean => Performed::Next,
                Look::Fault(message) => Performed::Stop(Verdict::Failed(message)),
                Look::Broken => Performed::Stop(Verdict::Aborted),
            },
            _ => Performed::Stop(Verdict::Aborted),
        },
    }
}

/// Takes a step, up to a request that it makes.
fn take(step: &Step, memory: &mut Memory) -> (result: Performed)
    requires
        old(memory)@.full(),
    ensures
        final(memory)@.full(),
        match moved(*step, old(memory)@) {
            Effect::Next(contents) => result is Next && final(memory)@ == contents,
            Effect::Ask(request) => result == Performed::Ask(request) && final(memory)@ == old(
                memory,
            )@,
            Effect::Stop(ending) => final(memory)@ == old(memory)@ && match result {
                Performed::Stop(verdict) => verdict@ == ending,
                _ => false,
            },
        },
{
    match step {
        Step::Do(act) => perform(act, memory),
        Step::When(condition, act) => match evaluate(condition, memory, 0) {
            Some(value) => if value != 0 {
                perform(act, memory)
            } else {
                Performed::Next
            },
            None => Performed::Stop(Verdict::Aborted),
        },
    }
}

/// Goes on from a step, up to the next request or to the end.
fn settle(steps: &Vec<Step>, from: u64, memory: &mut Memory) -> (status: Status)
    requires
        old(memory)@.full(),
    ensures
        final(memory)@.full(),
        (Run { contents: final(memory)@, progress: status@ }) == settled(
            steps@,
            from as int,
            old(memory)@,
        ),
        match status {
            Status::Asking { at, .. } => at < steps@.len(),
            _ => true,
        },
{
    if from >= steps.len() as u64 {
        return Status::Over(Verdict::Passed);
    }
    let mut at: usize = from as usize;
    while at < steps.len()
        invariant
            at <= steps.len(),
            memory@.full(),
            settled(steps@, from as int, old(memory)@) == settled(steps@, at as int, memory@),
        decreases steps.len() - at,
    {
        match take(&steps[at], memory) {
            Performed::Next => {},
            Performed::Ask(request) => {
                return Status::Asking { at, again: false, request };
            },
            Performed::Stop(verdict) => {
                return Status::Over(verdict);
            },
        }
        at = at + 1;
    }
    Status::Over(Verdict::Passed)
}

/// Puts away what the device has done; `false` where something could not be put away.
fn store(request: Request, memory: &mut Memory, reply: Reply) -> (done: bool)
    requires
        old(memory)@.full(),
        answers(request, reply@),
    ensures
        final(memory)@.full(),
        match stored(request, old(memory)@, reply@) {
            Some(contents) => done && final(memory)@ == contents,
            None => !done && final(memory)@ == old(memory)@,
        },
{
    reveal(answers);
    reveal(stored);
    match (request, reply) {
        (Request::Rows { into, .. }, Reply::Count(number)) => store_register(memory, into, number),
        (Request::RowsKnown { into, .. }, Reply::Count(number)) => store_register(
            memory,
            into,
            number,
        ),
        (Request::Ordinal { into }, Reply::Count(number)) => store_register(memory, into, number),
        (Request::Budget { into }, Reply::Count(number)) => store_register(memory, into, number),
        (Request::Used { into }, Reply::Count(number)) => store_register(memory, into, number),
        (Request::Several { into }, Reply::Count(number)) => store_register(memory, into, number),
        (Request::Devices { into }, Reply::Count(number)) => store_register(memory, into, number),
        (Request::KernelKnown { into }, Reply::Count(number)) => store_register(
            memory,
            into,
            number,
        ),
        (Request::Resolve { into, .. }, Reply::Count(number)) => store_register(
            memory,
            into,
            number,
        ),
        (Request::Capability { major, minor }, Reply::Pair(first, second)) => if major
            < REGISTERS as u64 && minor < REGISTERS as u64 {
            memory.put_register(major, first);
            memory.put_register(minor, second);
            true
        } else {
            false
        },
        (Request::Download { into, .. }, Reply::Words(words)) => store_column(memory, into, words),
        (Request::CopyOut { into, .. }, Reply::Words(words)) => store_column(memory, into, words),
        (Request::Sample { into, .. }, Reply::Words(words)) => store_column(memory, into, words),
        (Request::Forward { into }, Reply::Words(words)) => store_column(memory, into, words),
        (Request::PrefixSum { sums, sum, .. }, Reply::Sums(words, number)) => if sums
            < COLUMNS as u64 && sum < REGISTERS as u64 {
            memory.put_column(sums, words);
            memory.put_register(sum, number);
            true
        } else {
            false
        },
        (Request::Backward { into }, Reply::Four(first, second, third, fourth)) => if into
            < COLUMNS as u64 - 3 {
            memory.put_column(into, first);
            memory.put_column(into + 1, second);
            memory.put_column(into + 2, third);
            memory.put_column(into + 3, fourth);
            true
        } else {
            false
        },
        (Request::Elapsed, Reply::Text(text)) => {
            memory.put_timing(text);
            true
        },
        _ => true,
    }
}

impl Machine {
    /// The state of the script.
    pub closed spec fn run(&self) -> Run {
        Run { contents: self.memory@, progress: self.status@ }
    }

    /// The steps of the script.
    pub closed spec fn steps(&self) -> Seq<Step> {
        self.steps@
    }

    /// The name of the script.
    pub closed spec fn title(&self) -> &'static str {
        self.name
    }

    #[verifier::type_invariant]
    closed spec fn sound(&self) -> bool {
        &&& self.memory@.full()
        &&& match self.status {
            Status::Asking { at, .. } => at < self.steps@.len(),
            _ => true,
        }
    }

    /// Starts a script.
    pub fn start(script: Script) -> (machine: Machine)
        ensures
            machine.title() == script.name,
            machine.steps() == script.steps@,
            machine.run() == run_of(script@, Seq::empty()),
    {
        let Script { name, steps, texts } = script;
        let mut memory = Memory::new(texts);
        let status = settle(&steps, 0, &mut memory);
        Machine { name, steps, memory, status }
    }

    /// The name of the script.
    pub fn name(&self) -> (name: &'static str)
        ensures
            name == self.title(),
    {
        self.name
    }

    /// The request that the script waits for, if it has not ended.
    pub fn request(&self) -> (request: Option<Request>)
        ensures
            request == match self.run().progress {
                Progress::Asking { request, .. } => Some(request),
                Progress::Over(_) => None,
            },
    {
        match &self.status {
            Status::Asking { request, .. } => Some(*request),
            Status::Over(_) => None,
        }
    }

    /// The host column in a slot, if there is such a slot.
    pub fn column(&self, slot: u64) -> (column: Option<&Vec<u64>>)
        ensures
            match column {
                Some(words) => column_in(self.run().contents, slot) == Some(words@),
                None => column_in(self.run().contents, slot) is None,
            },
    {
        proof {
            use_type_invariant(self);
        }
        if slot < COLUMNS as u64 {
            Some(&self.memory.columns[slot as usize])
        } else {
            None
        }
    }

    /// One of the texts that the script was given, if there is such a text.
    pub fn text(&self, place: u64) -> (text: Option<&String>)
        ensures
            match text {
                Some(text) => place < self.run().contents.texts.len() && text@
                    == self.run().contents.texts[place as int],
                None => place >= self.run().contents.texts.len(),
            },
    {
        if place < self.memory.texts.len() as u64 {
            Some(&self.memory.texts[place as usize])
        } else {
            None
        }
    }

    /// Goes on with the reply to the request that the script waits for.
    pub fn resume(self, reply: Reply) -> (machine: Machine)
        requires
            match self.run().progress {
                Progress::Asking { request, .. } => answers(request, reply@),
                Progress::Over(_) => false,
            },
        ensures
            machine.title() == self.title(),
            machine.steps() == self.steps(),
            machine.run() == answered(self.steps(), self.run(), reply@),
    {
        proof {
            use_type_invariant(&self);
        }
        let Machine { name, steps, mut memory, status } = self;
        let status = match status {
            Status::Asking { at, again, request } => Self::go_on(
                &steps,
                at,
                again,
                request,
                &mut memory,
                reply,
            ),
            over => over,
        };
        Machine { name, steps, memory, status }
    }

    /// Goes on from a step with the reply to its request.
    fn go_on(
        steps: &Vec<Step>,
        at: usize,
        again: bool,
        request: Request,
        memory: &mut Memory,
        reply: Reply,
    ) -> (status: Status)
        requires
            at < steps.len(),
            old(memory)@.full(),
            answers(request, reply@),
        ensures
            final(memory)@.full(),
            (Run { contents: final(memory)@, progress: status@ }) == answered(
                steps@,
                Run {
                    contents: old(memory)@,
                    progress: Progress::Asking { at: at as int, again, request },
                },
                reply@,
            ),
            match status {
                Status::Asking { at, .. } => at < steps@.len(),
                _ => true,
            },
    {
        let act = match &steps[at] {
            Step::Do(act) => act,
            Step::When(_, act) => act,
        };
        match act {
            Act::Ask(_, otherwise) => match reply {
                Reply::Failed(reason) => Self::go_round(
                    steps,
                    at,
                    request,
                    otherwise,
                    memory,
                    reason,
                ),
                reply => if store(request, memory, reply) {
                    settle(steps, (at + 1) as u64, memory)
                } else {
                    Status::Over(Verdict::Aborted)
                },
            },
            Act::Match { expected, note, .. } => match reply {
                Reply::Count(number) => match evaluate(expected, memory, 0) {
                    None => Status::Over(Verdict::Aborted),
                    Some(expected) => if again {
                        memory.put_register(COUNT, number);
                        Status::Over(fail(note, memory, None))
                    } else if number == expected {
                        memory.put_register(COUNT, number);
                        settle(steps, (at + 1) as u64, memory)
                    } else {
                        Status::Asking { at, again: true, request }
                    },
                },
                _ => Status::Over(Verdict::Aborted),
            },
            Act::Tick { again, done, .. } => match reply {
                Reply::Count(number) => settle(
                    steps,
                    if number != 0 {
                        *again
                    } else {
                        *done
                    },
                    memory,
                ),
                _ => Status::Over(Verdict::Aborted),
            },
            _ => Status::Over(Verdict::Aborted),
        }
    }

    /// Goes on from a step whose request was refused.
    fn go_round(
        steps: &Vec<Step>,
        at: usize,
        request: Request,
        otherwise: &Otherwise,
        memory: &mut Memory,
        reason: String,
    ) -> (status: Status)
        requires
            at < steps.len(),
            old(memory)@.full(),
        ensures
            final(memory)@.full(),
            (Run { contents: final(memory)@, progress: status@ }) == refused(
                steps@,
                at as int,
                request,
                *otherwise,
                old(memory)@,
                reason@,
            ),
            match status {
                Status::Asking { at, .. } => at < steps@.len(),
                _ => true,
            },
    {
        match otherwise {
            Otherwise::Fail(note) => Status::Over(fail(note, memory, Some(reason))),
            Otherwise::Go => settle(steps, (at + 1) as u64, memory),
            Otherwise::Zero => {
                let slot: u64 = match request {
                    Request::Devices { into } => into,
                    _ => COUNT,
                };
                if store_register(memory, slot, 0) {
                    settle(steps, (at + 1) as u64, memory)
                } else {
                    Status::Over(Verdict::Aborted)
                }
            },
            Otherwise::Jump { bump, to } => match evaluate(
                &plus(Expr::Register(*bump), Expr::Number(1)),
                memory,
                0,
            ) {
                Some(number) => if store_register(memory, *bump, number) {
                    settle(steps, *to, memory)
                } else {
                    Status::Over(Verdict::Aborted)
                },
                None => Status::Over(Verdict::Aborted),
            },
            Otherwise::Leave { to } => settle(steps, *to, memory),
        }
    }

    /// Whether the script could not be carried out.
    pub fn aborted(&self) -> (result: bool)
        ensures
            result == (self.run().progress == Progress::Over(Ending::Aborted)),
    {
        match &self.status {
            Status::Over(Verdict::Aborted) => true,
            _ => false,
        }
    }

    /// How the script ended, if it has.
    pub fn verdict(self) -> (verdict: Option<Verdict>)
        ensures
            match verdict {
                Some(verdict) => self.run().progress == Progress::Over(verdict@),
                None => self.run().progress is Asking,
            },
    {
        match self.status {
            Status::Asking { .. } => None,
            Status::Over(verdict) => Some(verdict),
        }
    }
}

} // verus!
