//! What single steps of a script do to a walk.

use vstd::prelude::*;
use crate::expr::{
    alike, at, before, differs, here, ix, least, len, lt, not, num, ranked, reg, Expr,
};
use crate::machine::{Answer, Ending, Progress};
use crate::memory::Contents;
use crate::scalar::Scalar;
use crate::script::{Act, Faults, Otherwise, Plan, Request, Step, COUNT};

verus! {

/// Whether an answer is that to a download.
pub open spec fn column_or_refusal(answer: Answer) -> bool {
    match answer {
        Answer::Words(words) => words.len() <= u64::MAX,
        Answer::Failed(_) => true,
        _ => false,
    }
}

/// A column that is filled with words that can all be computed.
pub proof fn lemma_fill(
    steps: Seq<Step>,
    at: int,
    to: int,
    contents: Contents,
    answers: Seq<Answer>,
    used: int,
    words: Seq<u64>,
)
    requires
        at < to,
        crate::machine::taken(steps[at], contents) == Some(true),
        crate::machine::act_of(steps[at]) matches Act::Fill { into, length, word } && {
            &&& into < contents.columns.len()
            &&& words.len() <= u64::MAX
            &&& crate::expr::value_of(length, contents, 0) == Some(words.len() as u64)
            &&& forall|i: int|
                0 <= i < words.len() ==> #[trigger] crate::expr::value_of(word, contents, i as u64)
                    == Some(words[i])
        },
    ensures
        crate::machine::act_of(steps[at]) matches Act::Fill { into, .. } && crate::walk::walked(
            steps,
            at,
            to,
            contents,
            answers,
            used,
        ) == crate::walk::walked(
            steps,
            at + 1,
            to,
            contents.with_column(into, words),
            answers,
            used,
        ),
{
    reveal_with_fuel(crate::walk::walked, 2);
    reveal(crate::machine::effect_of);
    match crate::machine::act_of(steps[at]) {
        Act::Fill { into, length, word } => {
            let full = crate::machine::filled(word, contents, words.len());
            assert(full is Some);
            assert(full->0 =~= words);
        },
        _ => {},
    }
}

/// A request that ends the test where it is refused, and that stores nothing.
pub proof fn lemma_command(
    steps: Seq<Step>,
    at: int,
    to: int,
    contents: Contents,
    answers: Seq<Answer>,
    used: int,
)
    requires
        at < to,
        crate::machine::taken(steps[at], contents) == Some(true),
        used < answers.len(),
        crate::machine::act_of(steps[at]) matches Act::Ask(request, otherwise) && {
            &&& otherwise is Fail || otherwise is Go
            &&& match request {
                Request::Create { .. } => true,
                Request::CreateEmpty { .. } => true,
                Request::Sort { .. } => true,
                Request::Filter { .. } => true,
                Request::Dedup { .. } => true,
                Request::Join { .. } => true,
                Request::Sync => true,
                Request::Alloc { .. } => true,
                Request::Zeroed { .. } => true,
                Request::CopyIn { .. } => true,
                Request::Release { .. } => true,
                Request::Deadline { .. } => true,
                _ => false,
            }
        },
    ensures
        crate::walk::walked(steps, at, to, contents, answers, used) == (if answers[used] is Failed
            && crate::machine::act_of(steps[at])->Ask_1 is Fail {
            None
        } else {
            crate::walk::walked(steps, at + 1, to, contents, answers, used + 1)
        }),
{
    reveal_with_fuel(crate::walk::walked, 2);
    reveal(crate::machine::effect_of);
    reveal(crate::machine::stored);
}

/// The slot of the column that a request fills.
pub open spec fn column_of(request: Request) -> Option<u64> {
    match request {
        Request::Download { into, .. } => Some(into),
        Request::CopyOut { into, .. } => Some(into),
        Request::Sample { into, .. } => Some(into),
        Request::Forward { into } => Some(into),
        _ => None,
    }
}

/// A column that the device hands out, where a refusal ends the test.
pub proof fn lemma_download(
    steps: Seq<Step>,
    at: int,
    to: int,
    contents: Contents,
    answers: Seq<Answer>,
    used: int,
)
    requires
        at < to,
        crate::machine::taken(steps[at], contents) == Some(true),
        used < answers.len(),
        answers[used] is Words || answers[used] is Failed,
        crate::machine::act_of(steps[at]) matches Act::Ask(request, Otherwise::Fail(_)) && {
            &&& column_of(request) matches Some(into)
            &&& into < contents.columns.len()
        },
    ensures
        crate::machine::act_of(steps[at]) matches Act::Ask(request, _) && match answers[used] {
            Answer::Words(words) => crate::walk::walked(steps, at, to, contents, answers, used)
                == crate::walk::walked(
                steps,
                at + 1,
                to,
                contents.with_column(column_of(request)->0, words),
                answers,
                used + 1,
            ),
            _ => crate::walk::walked(steps, at, to, contents, answers, used) is None,
        },
{
    reveal_with_fuel(crate::walk::walked, 2);
    reveal(crate::machine::effect_of);
    reveal(crate::machine::stored);
}

/// Four columns that the device hands out, where a refusal ends the test.
pub proof fn lemma_four_columns(
    steps: Seq<Step>,
    at: int,
    to: int,
    contents: Contents,
    answers: Seq<Answer>,
    used: int,
    into: u64,
)
    requires
        at < to,
        crate::machine::taken(steps[at], contents) == Some(true),
        used < answers.len(),
        answers[used] is Four || answers[used] is Failed,
        crate::machine::act_of(steps[at]) matches Act::Ask(request, Otherwise::Fail(_))
            && request == (
        Request::Backward { into }),
        into + 3 < contents.columns.len(),
        into + 3 <= u64::MAX,
    ensures
        match answers[used] {
            Answer::Four(first, second, third, fourth) => crate::walk::walked(
                steps,
                at,
                to,
                contents,
                answers,
                used,
            ) == crate::walk::walked(
                steps,
                at + 1,
                to,
                contents.with_column(into, first).with_column(
                    (into + 1) as u64,
                    second,
                ).with_column((into + 2) as u64, third).with_column((into + 3) as u64, fourth),
                answers,
                used + 1,
            ),
            _ => crate::walk::walked(steps, at, to, contents, answers, used) is None,
        },
{
    reveal_with_fuel(crate::walk::walked, 2);
    reveal(crate::machine::effect_of);
    reveal(crate::machine::stored);
}

/// The running sums of a mask and its sum, where a refusal ends the test.
pub proof fn lemma_sums(
    steps: Seq<Step>,
    at: int,
    to: int,
    contents: Contents,
    answers: Seq<Answer>,
    used: int,
    slot: u64,
    register: u64,
)
    requires
        at < to,
        crate::machine::taken(steps[at], contents) == Some(true),
        used < answers.len(),
        answers[used] is Sums || answers[used] is Failed,
        crate::machine::act_of(steps[at]) matches Act::Ask(
            Request::PrefixSum { sums, sum, .. },
            Otherwise::Fail(_),
        ) && sums == slot && sum == register,
        slot < contents.columns.len(),
        register < contents.registers.len(),
    ensures
        match answers[used] {
            Answer::Sums(words, number) => crate::walk::walked(
                steps,
                at,
                to,
                contents,
                answers,
                used,
            ) == crate::walk::walked(
                steps,
                at + 1,
                to,
                contents.with_column(slot, words).with_register(register, number),
                answers,
                used + 1,
            ),
            _ => crate::walk::walked(steps, at, to, contents, answers, used) is None,
        },
{
    reveal_with_fuel(crate::walk::walked, 2);
    reveal(crate::machine::effect_of);
    reveal(crate::machine::stored);
}

/// A column that is filled from the places that a condition keeps.
pub proof fn lemma_select(
    steps: Seq<Step>,
    at: int,
    to: int,
    contents: Contents,
    answers: Seq<Answer>,
    used: int,
    length: u64,
    words: Seq<u64>,
)
    requires
        at < to,
        crate::machine::taken(steps[at], contents) == Some(true),
        crate::machine::act_of(
            steps[at],
        ) matches Act::Select { into, length: count, keep, word } && {
            &&& into < contents.columns.len()
            &&& crate::expr::value_of(count, contents, 0) == Some(length)
            &&& crate::machine::selected(keep, word, contents, length as nat) == Some(words)
        },
    ensures
        crate::machine::act_of(steps[at]) matches Act::Select { into, .. } && crate::walk::walked(
            steps,
            at,
            to,
            contents,
            answers,
            used,
        ) == crate::walk::walked(
            steps,
            at + 1,
            to,
            contents.with_column(into, words),
            answers,
            used,
        ),
{
    reveal_with_fuel(crate::walk::walked, 2);
    reveal(crate::machine::effect_of);
}

/// The sorted copy of a column.
pub proof fn lemma_sort_column(
    steps: Seq<Step>,
    at: int,
    to: int,
    contents: Contents,
    answers: Seq<Answer>,
    used: int,
)
    requires
        at < to,
        crate::machine::taken(steps[at], contents) == Some(true),
        crate::machine::act_of(steps[at]) matches Act::SortColumn { into, from, .. } && into
            < contents.columns.len() && from < contents.columns.len(),
    ensures
        crate::machine::act_of(steps[at]) matches Act::SortColumn { into, from, scalar }
            && crate::walk::walked(
            steps,
            at,
            to,
            contents,
            answers,
            used,
        ) == crate::walk::walked(
            steps,
            at + 1,
            to,
            contents.with_column(
                into,
                crate::columns::sorted(scalar, contents.columns[from as int]),
            ),
            answers,
            used,
        ),
{
    reveal_with_fuel(crate::walk::walked, 2);
    reveal(crate::machine::effect_of);
}

/// The running sums of a column.
pub proof fn lemma_running(
    steps: Seq<Step>,
    at: int,
    to: int,
    contents: Contents,
    answers: Seq<Answer>,
    used: int,
)
    requires
        at < to,
        crate::machine::taken(steps[at], contents) == Some(true),
        crate::machine::act_of(steps[at]) matches Act::Running { into, from } && {
            &&& into < contents.columns.len()
            &&& from < contents.columns.len()
            &&& crate::columns::total(contents.columns[from as int]) <= u64::MAX
        },
    ensures
        crate::machine::act_of(steps[at]) matches Act::Running { into, from }
            && crate::walk::walked(
            steps,
            at,
            to,
            contents,
            answers,
            used,
        ) == crate::walk::walked(
            steps,
            at + 1,
            to,
            contents.with_column(
                into,
                crate::columns::running_sums(contents.columns[from as int]),
            ),
            answers,
            used,
        ),
{
    reveal_with_fuel(crate::walk::walked, 2);
    reveal(crate::machine::effect_of);
}

/// A number that is put into a register.
pub proof fn lemma_put(
    steps: Seq<Step>,
    at: int,
    to: int,
    contents: Contents,
    answers: Seq<Answer>,
    used: int,
    number: u64,
)
    requires
        at < to,
        crate::machine::taken(steps[at], contents) == Some(true),
        crate::machine::act_of(
            steps[at],
        ) matches Act::Let { into, value } && into < contents.registers.len()
            && crate::expr::value_of(value, contents, 0) == Some(number),
    ensures
        crate::machine::act_of(steps[at]) matches Act::Let { into, .. } && crate::walk::walked(
            steps,
            at,
            to,
            contents,
            answers,
            used,
        ) == crate::walk::walked(
            steps,
            at + 1,
            to,
            contents.with_register(into, number),
            answers,
            used,
        ),
{
    reveal_with_fuel(crate::walk::walked, 2);
    reveal(crate::machine::effect_of);
}

/// A step that is not taken.
pub proof fn lemma_not_taken(
    steps: Seq<Step>,
    at: int,
    to: int,
    contents: Contents,
    answers: Seq<Answer>,
    used: int,
)
    requires
        at < to,
        crate::machine::taken(steps[at], contents) == Some(false),
    ensures
        crate::walk::walked(steps, at, to, contents, answers, used) == crate::walk::walked(
            steps,
            at + 1,
            to,
            contents,
            answers,
            used,
        ),
{
    reveal_with_fuel(crate::walk::walked, 2);
}

/// The end of the steps.
pub proof fn lemma_end(
    steps: Seq<Step>,
    to: int,
    contents: Contents,
    answers: Seq<Answer>,
    used: int,
)
    ensures
        crate::walk::walked(steps, to, to, contents, answers, used) == Some((contents, used)),
{
    reveal(crate::walk::walked);
}

/// A number of rows that is held against the expected one.
pub proof fn lemma_match(
    steps: Seq<Step>,
    at: int,
    to: int,
    contents: Contents,
    answers: Seq<Answer>,
    used: int,
    number: u64,
)
    requires
        at < to,
        crate::machine::taken(steps[at], contents) == Some(true),
        used < answers.len(),
        contents.full(),
        crate::machine::act_of(steps[at]) matches Act::Match { expected, .. }
            && crate::expr::value_of(
            expected,
            contents,
            0,
        ) == Some(number),
    ensures
        crate::walk::walked(steps, at, to, contents, answers, used) == (if answers[used]
            == Answer::Count(number) {
            crate::walk::walked(
                steps,
                at + 1,
                to,
                contents.with_register(COUNT, number),
                answers,
                used + 1,
            )
        } else {
            None
        }),
{
    reveal_with_fuel(crate::walk::walked, 2);
    reveal(crate::machine::effect_of);
}

/// Places that are looked at for faults.
pub proof fn lemma_scan(
    steps: Seq<Step>,
    at: int,
    to: int,
    contents: Contents,
    answers: Seq<Answer>,
    used: int,
    from: u64,
    end: u64,
)
    requires
        at < to,
        crate::machine::taken(steps[at], contents) == Some(true),
        crate::machine::act_of(steps[at]) matches Act::Scan { low, high, by, faults } && {
            &&& by == 1
            &&& crate::expr::value_of(low, contents, 0) == Some(from)
            &&& crate::expr::value_of(high, contents, 0) == Some(end)
        },
    ensures
        crate::machine::act_of(steps[at]) matches Act::Scan { faults, .. } && crate::walk::walked(
            steps,
            at,
            to,
            contents,
            answers,
            used,
        ) == (if forall|place: int|
            from <= place < end ==> !(#[trigger] crate::walk::shows(
                faults,
                contents,
                place as u64,
            )) {
            crate::walk::walked(steps, at + 1, to, contents, answers, used)
        } else {
            None
        }),
{
    reveal_with_fuel(crate::walk::walked, 2);
    reveal(crate::machine::effect_of);
    match crate::machine::act_of(steps[at]) {
        Act::Scan { low, high, by, faults } => {
            crate::walk::law_scan_is_clean_exactly_when_no_fault_shows(
                faults,
                contents,
                from as int,
                end as int,
                1,
            );
            assert forall|place: int| from <= place implies #[trigger] crate::walk::visited(
                from as int,
                1,
                place,
            ) by {
                assert((place - from) % 1 == 0);
            }
            if forall|place: int|
                from <= place < end ==> !(#[trigger] crate::walk::shows(
                    faults,
                    contents,
                    place as u64,
                )) {
                assert(crate::machine::found_from(faults, contents, from as int, end as int, 1)
                    is Clean);
            } else {
                let place = choose|place: int|
                    from <= place < end && #[trigger] crate::walk::shows(
                        faults,
                        contents,
                        place as u64,
                    );
                assert(crate::walk::visited(from as int, 1, place));
            }
        },
        _ => {},
    }
}

/// The register that a request for a number fills.
pub open spec fn number_into(request: Request) -> Option<u64> {
    match request {
        Request::Rows { into, .. } => Some(into),
        Request::RowsKnown { into, .. } => Some(into),
        Request::Several { into } => Some(into),
        Request::Devices { into } => Some(into),
        Request::Ordinal { into } => Some(into),
        Request::Budget { into } => Some(into),
        Request::Used { into } => Some(into),
        Request::KernelKnown { into } => Some(into),
        _ => None,
    }
}

/// A number that the device says, put into a register.
pub proof fn lemma_number(
    steps: Seq<Step>,
    at: int,
    to: int,
    contents: Contents,
    answers: Seq<Answer>,
    used: int,
    number: u64,
)
    requires
        at < to,
        crate::machine::taken(steps[at], contents) == Some(true),
        0 <= used < answers.len(),
        answers[used] == Answer::Count(number),
        crate::machine::act_of(steps[at]) matches Act::Ask(request, _) && {
            &&& number_into(request) matches Some(into)
            &&& into < contents.registers.len()
        },
    ensures
        crate::machine::act_of(steps[at]) matches Act::Ask(request, _) && crate::walk::walked(
            steps,
            at,
            to,
            contents,
            answers,
            used,
        ) == crate::walk::walked(
            steps,
            at + 1,
            to,
            contents.with_register(number_into(request)->0, number),
            answers,
            used + 1,
        ),
{
    reveal_with_fuel(crate::walk::walked, 2);
    reveal(crate::machine::effect_of);
    reveal(crate::machine::stored);
}

/// A check that can be carried out.
pub proof fn lemma_check(
    steps: Seq<Step>,
    at: int,
    to: int,
    contents: Contents,
    answers: Seq<Answer>,
    used: int,
    faulty: bool,
)
    requires
        at < to,
        crate::machine::taken(steps[at], contents) == Some(true),
        crate::machine::act_of(steps[at]) matches Act::Check { fault, .. } && crate::expr::value_of(
            fault,
            contents,
            0,
        ) == Some(crate::expr::truth(faulty)),
    ensures
        crate::walk::walked(steps, at, to, contents, answers, used) == (if faulty {
            None
        } else {
            crate::walk::walked(steps, at + 1, to, contents, answers, used)
        }),
{
    reveal_with_fuel(crate::walk::walked, 2);
    reveal(crate::machine::effect_of);
}

/// A check that goes through exactly when it finds no fault.
pub proof fn lemma_check_or_abort(
    steps: Seq<Step>,
    at: int,
    to: int,
    contents: Contents,
    answers: Seq<Answer>,
    used: int,
    fine: bool,
)
    requires
        at < to,
        crate::machine::taken(steps[at], contents) == Some(true),
        crate::machine::act_of(steps[at]) matches Act::Check { fault, .. } && (
        crate::expr::value_of(fault, contents, 0) == Some(0u64) <==> fine),
    ensures
        crate::walk::walked(steps, at, to, contents, answers, used) == (if fine {
            crate::walk::walked(steps, at + 1, to, contents, answers, used)
        } else {
            None
        }),
{
    reveal_with_fuel(crate::walk::walked, 2);
    reveal(crate::machine::effect_of);
}

/// A number that is put into a register, if it can be computed.
pub proof fn lemma_put_or_abort(
    steps: Seq<Step>,
    at: int,
    to: int,
    contents: Contents,
    answers: Seq<Answer>,
    used: int,
)
    requires
        at < to,
        crate::machine::taken(steps[at], contents) == Some(true),
        crate::machine::act_of(steps[at]) matches Act::Let { into, .. } && into
            < contents.registers.len(),
    ensures
        crate::machine::act_of(steps[at]) matches Act::Let { into, value } && crate::walk::walked(
            steps,
            at,
            to,
            contents,
            answers,
            used,
        ) == match crate::expr::value_of(value, contents, 0) {
            Some(number) => crate::walk::walked(
                steps,
                at + 1,
                to,
                contents.with_register(into, number),
                answers,
                used,
            ),
            None => None,
        },
{
    reveal_with_fuel(crate::walk::walked, 2);
    reveal(crate::machine::effect_of);
}

/// Whether two columns are not alike.
pub proof fn lemma_not_alike(contents: Contents, left: u64, right: u64)
    requires
        left < contents.columns.len(),
        right < contents.columns.len(),
    ensures
        crate::expr::value_of(not(alike(left, right)), contents, 0) == Some(
            crate::expr::truth(contents.columns[left as int] != contents.columns[right as int]),
        ),
{
    reveal_with_fuel(crate::expr::value_of, 3);
}

/// A column that the device hands out and that has to be equal to another one.
pub proof fn lemma_fetch_same(
    steps: Seq<Step>,
    at: int,
    to: int,
    contents: Contents,
    answers: Seq<Answer>,
    used: int,
    slot: u64,
    other: u64,
)
    requires
        at + 1 < to,
        used < answers.len(),
        answers[used] is Words || answers[used] is Failed,
        crate::machine::taken(steps[at], contents) == Some(true),
        crate::machine::act_of(steps[at]) matches Act::Ask(request, Otherwise::Fail(_))
            && column_of(request) == Some(slot),
        steps[at + 1] matches Step::Do(Act::Check { fault, .. }) && fault == not(
            alike(slot, other),
        ),
        slot != other,
        slot < contents.columns.len(),
        other < contents.columns.len(),
    ensures
        crate::walk::walked(steps, at, to, contents, answers, used) == (if answers[used]
            == Answer::Words(contents.columns[other as int]) {
            crate::walk::walked(
                steps,
                at + 2,
                to,
                contents.with_column(slot, contents.columns[other as int]),
                answers,
                used + 1,
            )
        } else {
            None
        }),
{
    lemma_download(steps, at, to, contents, answers, used);
    if answers[used] is Words {
        let words = answers[used]->Words_0;
        let after = contents.with_column(slot, words);
        let faulty = words != contents.columns[other as int];
        lemma_not_alike(after, slot, other);
        lemma_check(steps, at + 1, to, after, answers, used + 1, faulty);
    }
}

/// Whether an answer is that to a download of 32-bit words.
pub open spec fn narrow_or_refusal(answer: Answer) -> bool {
    match answer {
        Answer::Words(words) => words.len() <= u64::MAX && forall|i: int|
            0 <= i < words.len() ==> words[i] <= u32::MAX,
        Answer::Failed(_) => true,
        _ => false,
    }
}

/// Whether every word of a column is its place.
pub open spec fn counts_up(words: Seq<u64>) -> bool {
    forall|i: int| 0 <= i < words.len() ==> words[i] == i
}

/// Whether no word of a column is less than the one before it.
pub open spec fn rises(words: Seq<u64>) -> bool {
    forall|i: int| 1 <= i < words.len() ==> words[i - 1] <= #[trigger] words[i]
}

/// Looking for words that are not their place.
pub proof fn lemma_place_faults(faults: Faults, contents: Contents, slot: u64)
    requires
        faults matches Faults::One(fault, _) && fault == differs(here(slot), ix()),
        slot < contents.columns.len(),
        contents.columns[slot as int].len() <= u64::MAX,
    ensures
        forall|i: int|
            0 <= i < contents.columns[slot as int].len() ==> (#[trigger] crate::walk::shows(
                faults,
                contents,
                i as u64,
            ) <==> contents.columns[slot as int][i] != i),
{
    reveal_with_fuel(crate::expr::value_of, 4);
}

/// A scan for words that are not their place.
pub proof fn lemma_scan_places(
    steps: Seq<Step>,
    at: int,
    to: int,
    contents: Contents,
    answers: Seq<Answer>,
    used: int,
    slot: u64,
)
    requires
        at < to,
        crate::machine::taken(steps[at], contents) == Some(true),
        crate::machine::act_of(steps[at]) matches Act::Scan { low, high, by, faults } && {
            &&& low == num(0)
            &&& high == len(slot)
            &&& by == 1
            &&& faults matches Faults::One(fault, _)
            &&& fault == differs(here(slot), ix())
        },
        slot < contents.columns.len(),
        contents.columns[slot as int].len() <= u64::MAX,
    ensures
        crate::walk::walked(steps, at, to, contents, answers, used) == (if counts_up(
            contents.columns[slot as int],
        ) {
            crate::walk::walked(steps, at + 1, to, contents, answers, used)
        } else {
            None
        }),
{
    let words = contents.columns[slot as int];
    match crate::machine::act_of(steps[at]) {
        Act::Scan { faults, .. } => {
            lemma_place_faults(faults, contents, slot);
            lemma_scan(steps, at, to, contents, answers, used, 0, words.len() as u64);
            if !counts_up(words) {
                let i = choose|i: int| 0 <= i < words.len() && words[i] != i;
                assert(crate::walk::shows(faults, contents, i as u64));
            }
        },
        _ => {},
    }
}

/// Looking for words that are less than the one before them.
#[verifier::spinoff_prover]
#[verifier::rlimit(50)]
pub proof fn lemma_order_faults(faults: Faults, contents: Contents, slot: u64)
    requires
        faults matches Faults::One(fault, _) && fault == lt(here(slot), before(slot)),
        slot < contents.columns.len(),
        contents.columns[slot as int].len() <= u64::MAX,
    ensures
        forall|i: int|
            1 <= i < contents.columns[slot as int].len() ==> (#[trigger] crate::walk::shows(
                faults,
                contents,
                i as u64,
            ) <==> contents.columns[slot as int][i] < contents.columns[slot as int][i - 1]),
{
    reveal_with_fuel(crate::expr::value_of, 5);
}

/// A scan for words that are less than the one before them.
pub proof fn lemma_scan_order(
    steps: Seq<Step>,
    at: int,
    to: int,
    contents: Contents,
    answers: Seq<Answer>,
    used: int,
    slot: u64,
)
    requires
        at < to,
        crate::machine::taken(steps[at], contents) == Some(true),
        crate::machine::act_of(steps[at]) matches Act::Scan { low, high, by, faults } && {
            &&& low == num(1)
            &&& high == len(slot)
            &&& by == 1
            &&& faults matches Faults::One(fault, _)
            &&& fault == lt(here(slot), before(slot))
        },
        slot < contents.columns.len(),
        contents.columns[slot as int].len() <= u64::MAX,
    ensures
        crate::walk::walked(steps, at, to, contents, answers, used) == (if rises(
            contents.columns[slot as int],
        ) {
            crate::walk::walked(steps, at + 1, to, contents, answers, used)
        } else {
            None
        }),
{
    let words = contents.columns[slot as int];
    match crate::machine::act_of(steps[at]) {
        Act::Scan { faults, .. } => {
            lemma_order_faults(faults, contents, slot);
            lemma_scan(steps, at, to, contents, answers, used, 1, words.len() as u64);
            if rises(words) {
                assert forall|i: int| 1 <= i < words.len() implies !(#[trigger] crate::walk::shows(
                    faults,
                    contents,
                    i as u64,
                )) by {
                    assert(words[i - 1] <= words[i]);
                }
            } else {
                let i = choose|i: int| 1 <= i < words.len() && !(
                    words[i - 1] <= #[trigger] words[i]
                );
                assert(crate::walk::shows(faults, contents, i as u64));
            }
        },
        _ => {},
    }
}

/// Whether there is a word at a place, and it is not less than the one before it.
pub open spec fn in_order_at(words: Seq<u64>, place: int) -> bool {
    place < words.len() && words[place - 1] <= words[place]
}

/// Whether the first `count` words are there and none of them is less than the one before it.
pub open spec fn rises_to(words: Seq<u64>, count: int) -> bool {
    forall|i: int| 1 <= i < count ==> #[trigger] in_order_at(words, i)
}

/// What looking at a word and the one before it finds.
#[verifier::spinoff_prover]
#[verifier::rlimit(50)]
pub proof fn lemma_order_to_faults(faults: Faults, contents: Contents, slot: u64, count: u64)
    requires
        faults matches Faults::One(fault, _) && fault == lt(here(slot), before(slot)),
        slot < contents.columns.len(),
        contents.columns[slot as int].len() <= u64::MAX,
    ensures
        forall|i: int|
            1 <= i < count ==> (#[trigger] crate::walk::shows(faults, contents, i as u64) <==> !(i
                < contents.columns[slot as int].len() && contents.columns[slot as int][i - 1]
                <= contents.columns[slot as int][i])),
{
    reveal_with_fuel(crate::expr::value_of, 5);
}

/// A scan of the first words of a column for their order.
pub proof fn lemma_scan_order_to(
    steps: Seq<Step>,
    at: int,
    to: int,
    contents: Contents,
    answers: Seq<Answer>,
    used: int,
    slot: u64,
    count: u64,
)
    requires
        at < to,
        slot < contents.columns.len(),
        contents.columns[slot as int].len() <= u64::MAX,
        crate::machine::taken(steps[at], contents) == Some(true),
        crate::machine::act_of(steps[at]) matches Act::Scan { low, high, by, faults } && {
            &&& low == num(1)
            &&& high == num(count)
            &&& by == 1
            &&& faults matches Faults::One(fault, _)
            &&& fault == lt(here(slot), before(slot))
        },
    ensures
        crate::walk::walked(steps, at, to, contents, answers, used) == (if rises_to(
            contents.columns[slot as int],
            count as int,
        ) {
            crate::walk::walked(steps, at + 1, to, contents, answers, used)
        } else {
            None
        }),
{
    let words = contents.columns[slot as int];
    match crate::machine::act_of(steps[at]) {
        Act::Scan { faults, .. } => {
            lemma_scan(steps, at, to, contents, answers, used, 1, count);
            lemma_order_to_faults(faults, contents, slot, count);
            if rises_to(words, count as int) {
                assert forall|i: int| 1 <= i < count implies !(#[trigger] crate::walk::shows(
                    faults,
                    contents,
                    i as u64,
                )) by {
                    assert(in_order_at(words, i));
                }
            } else {
                let i = choose|i: int| 1 <= i < count && !(#[trigger] in_order_at(words, i));
                assert(crate::walk::shows(faults, contents, i as u64));
            }
        },
        _ => {},
    }
}

/// Whether no word of a column is less than the one before it, at the places 1, `1 + by` and so
/// on.
pub open spec fn rises_by(words: Seq<u64>, by: u64) -> bool {
    forall|i: int|
        crate::walk::visited(1, by as int, i) && i < words.len() ==> words[i - 1]
            <= #[trigger] words[i]
}

/// A scan for words that are less than the one before them, some places apart.
pub proof fn lemma_scan_order_by(
    steps: Seq<Step>,
    at: int,
    to: int,
    contents: Contents,
    answers: Seq<Answer>,
    used: int,
    slot: u64,
    apart: u64,
)
    requires
        at < to,
        apart > 0,
        crate::machine::taken(steps[at], contents) == Some(true),
        crate::machine::act_of(steps[at]) matches Act::Scan { low, high, by, faults } && {
            &&& low == num(1)
            &&& high == len(slot)
            &&& by == apart
            &&& faults matches Faults::One(fault, _)
            &&& fault == lt(here(slot), before(slot))
        },
        slot < contents.columns.len(),
        contents.columns[slot as int].len() <= u64::MAX,
    ensures
        crate::walk::walked(steps, at, to, contents, answers, used) == (if rises_by(
            contents.columns[slot as int],
            apart,
        ) {
            crate::walk::walked(steps, at + 1, to, contents, answers, used)
        } else {
            None
        }),
{
    reveal_with_fuel(crate::walk::walked, 2);
    reveal(crate::machine::effect_of);
    let words = contents.columns[slot as int];
    match crate::machine::act_of(steps[at]) {
        Act::Scan { faults, .. } => {
            lemma_order_faults(faults, contents, slot);
            crate::walk::law_scan_is_clean_exactly_when_no_fault_shows(
                faults,
                contents,
                1,
                words.len() as int,
                apart as int,
            );
            if rises_by(words, apart) {
                assert forall|i: int|
                    #![trigger crate::walk::shows(faults, contents, i as u64)]
                    crate::walk::visited(1, apart as int, i) && i
                        < words.len() implies !crate::walk::shows(faults, contents, i as u64) by {
                    assert(words[i - 1] <= words[i]);
                }
            } else {
                let i = choose|i: int|
                    crate::walk::visited(1, apart as int, i) && i < words.len() && !(words[i - 1]
                        <= #[trigger] words[i]);
                assert(crate::walk::shows(faults, contents, i as u64));
            }
        },
        _ => {},
    }
}

/// A test that runs rounds and then waits for the device: it passes exactly when every round
/// goes through and the device reports no fault.
pub proof fn lemma_rounds_and_sync(
    plan: Plan,
    count: int,
    round: spec_fn(int) -> Seq<Step>,
    each: int,
    good: spec_fn(int) -> bool,
    end: Seq<Step>,
    answers: Seq<Answer>,
)
    requires
        count >= 0,
        each >= 0,
        plan.steps == crate::script::rounds(count, round) + end,
        end.len() == 1,
        end[0] matches Step::Do(Act::Ask(Request::Sync, Otherwise::Fail(_))),
        answers.len() > each * count,
        forall|k: int, contents: Contents|
            #![trigger good(k), contents.full()]
            0 <= k < count && contents.full() ==> if good(k) {
                crate::walk::goes_through(round(k), contents, answers, 0 + each * k, each)
            } else {
                crate::walk::walked(
                    round(k),
                    0,
                    round(k).len() as int,
                    contents,
                    answers,
                    0 + each * k,
                ) is None
            },
        forall|k: int, j: int|
            0 <= k < count && 0 <= j < round(k).len() ==> crate::walk::straight(
                #[trigger] round(k)[j],
            ),
    ensures
        crate::machine::run_of(plan, answers).progress == Progress::Over(Ending::Passed) <==> {
            &&& forall|k: int| 0 <= k < count ==> #[trigger] good(k)
            &&& !(answers[each * count] is Failed)
        },
{
    let blank = Contents::blank(plan.texts);
    let before = crate::script::rounds(count, round);
    crate::walk::law_rounds_go_through_one_by_one(count, round, each, good, blank, answers, 0);
    crate::walk::law_straight_rounds_are_straight(count, round);
    assert forall|j: int| 0 <= j < plan.steps.len() implies crate::walk::straight(
        #[trigger] plan.steps[j],
    ) by {
        if j < before.len() {
            assert(crate::walk::straight(before[j]));
        }
    }
    crate::walk::law_passes_exactly_when_every_step_goes_through(plan, answers);
    let mid = before.len() as int;
    assert(plan.steps.subrange(0, mid) =~= before);
    assert(each * count >= 0) by (nonlinear_arith)
        requires
            each >= 0,
            count >= 0,
    ;
    crate::walk::law_walks_compose(plan.steps, 0, mid, mid + 1, blank, answers, 0);
    crate::walk::law_walks_are_local(plan.steps, before, 0, 0, blank, answers, 0);
    if forall|k: int| 0 <= k < count ==> #[trigger] good(k) {
        let (after, next) = crate::walk::walked(before, 0, mid, blank, answers, 0)->0;
        lemma_command(plan.steps, mid, mid + 1, after, answers, next);
        lemma_end(plan.steps, mid + 1, after, answers, next + 1);
    }
}

/// Whether two columns hold the same words as far as both go.
pub open spec fn agree(left: Seq<u64>, right: Seq<u64>) -> bool {
    forall|i: int| 0 <= i < left.len() && i < right.len() ==> #[trigger] left[i] == right[i]
}

/// Looking for places at which two columns differ.
proof fn lemma_difference_faults(faults: Faults, contents: Contents, left: u64, right: u64)
    requires
        faults matches Faults::One(fault, _) && fault == differs(here(left), here(right)),
        left < contents.columns.len(),
        right < contents.columns.len(),
        contents.columns[left as int].len() <= u64::MAX,
        contents.columns[right as int].len() <= u64::MAX,
    ensures
        forall|i: int|
            0 <= i < contents.columns[left as int].len() && i
                < contents.columns[right as int].len() ==> (#[trigger] crate::walk::shows(
                faults,
                contents,
                i as u64,
            ) <==> contents.columns[left as int][i] != contents.columns[right as int][i]),
{
    reveal_with_fuel(crate::expr::value_of, 4);
}

/// A scan for places at which two columns differ.
pub proof fn lemma_scan_differences(
    steps: Seq<Step>,
    at: int,
    to: int,
    contents: Contents,
    answers: Seq<Answer>,
    used: int,
    left: u64,
    right: u64,
)
    requires
        at < to,
        crate::machine::taken(steps[at], contents) == Some(true),
        crate::machine::act_of(steps[at]) matches Act::Scan { low, high, by, faults } && {
            &&& low == num(0)
            &&& high == least(len(left), len(right))
            &&& by == 1
            &&& faults matches Faults::One(fault, _)
            &&& fault == differs(here(left), here(right))
        },
        left < contents.columns.len(),
        right < contents.columns.len(),
        contents.columns[left as int].len() <= u64::MAX,
        contents.columns[right as int].len() <= u64::MAX,
    ensures
        crate::walk::walked(steps, at, to, contents, answers, used) == (if agree(
            contents.columns[left as int],
            contents.columns[right as int],
        ) {
            crate::walk::walked(steps, at + 1, to, contents, answers, used)
        } else {
            None
        }),
{
    let first = contents.columns[left as int];
    let second = contents.columns[right as int];
    let end = if first.len() < second.len() {
        first.len()
    } else {
        second.len()
    };
    match crate::machine::act_of(steps[at]) {
        Act::Scan { faults, .. } => {
            assert(crate::expr::value_of(least(len(left), len(right)), contents, 0) == Some(
                end as u64,
            )) by {
                reveal_with_fuel(crate::expr::value_of, 3);
            }
            lemma_difference_faults(faults, contents, left, right);
            lemma_scan(
                steps,
                at,
                to,
                contents,
                answers,
                used,
                0,
                end as u64,
            );
            if agree(first, second) {
                assert forall|i: int| 0 <= i < end implies !(#[trigger] crate::walk::shows(
                    faults,
                    contents,
                    i as u64,
                )) by {
                    assert(first[i] == second[i]);
                }
            } else {
                let i = choose|i: int|
                    0 <= i < first.len() && i < second.len() && #[trigger] first[i] != second[i];
                assert(crate::walk::shows(faults, contents, i as u64));
            }
        },
        _ => {},
    }
}

/// Whether two columns do not have the same length.
pub proof fn lemma_lengths(contents: Contents, left: u64, right: u64)
    requires
        left < contents.columns.len(),
        right < contents.columns.len(),
        contents.columns[left as int].len() <= u64::MAX,
        contents.columns[right as int].len() <= u64::MAX,
    ensures
        crate::expr::value_of(differs(len(right), len(left)), contents, 0) == Some(
            crate::expr::truth(
                contents.columns[right as int].len() != contents.columns[left as int].len(),
            ),
        ),
{
    reveal_with_fuel(crate::expr::value_of, 3);
}

/// Whether no word of a column ranks lower than the one before it.
pub open spec fn rises_in(scalar: Scalar, words: Seq<u64>) -> bool {
    forall|i: int|
        1 <= i < words.len() ==> crate::scalar::rank_of(scalar, words[i - 1])
            <= crate::scalar::rank_of(scalar, #[trigger] words[i])
}

/// Looking for words that rank lower than the one before them.
#[verifier::spinoff_prover]
#[verifier::rlimit(50)]
proof fn lemma_rank_faults(faults: Faults, contents: Contents, slot: u64, scalar: Scalar)
    requires
        faults matches Faults::One(fault, _) && fault == lt(
            ranked(scalar, here(slot)),
            ranked(scalar, before(slot)),
        ),
        slot < contents.columns.len(),
        contents.columns[slot as int].len() <= u64::MAX,
    ensures
        forall|i: int|
            1 <= i < contents.columns[slot as int].len() ==> (#[trigger] crate::walk::shows(
                faults,
                contents,
                i as u64,
            ) <==> crate::scalar::rank_of(scalar, contents.columns[slot as int][i])
                < crate::scalar::rank_of(scalar, contents.columns[slot as int][i - 1])),
{
    reveal_with_fuel(crate::expr::value_of, 6);
}

/// A scan for words that rank lower than the one before them.
pub proof fn lemma_scan_ranks(
    steps: Seq<Step>,
    at: int,
    to: int,
    contents: Contents,
    answers: Seq<Answer>,
    used: int,
    slot: u64,
    scalar: Scalar,
)
    requires
        at < to,
        crate::machine::taken(steps[at], contents) == Some(true),
        crate::machine::act_of(steps[at]) matches Act::Scan { low, high, by, faults } && {
            &&& low == num(1)
            &&& high == len(slot)
            &&& by == 1
            &&& faults matches Faults::One(fault, _)
            &&& fault == lt(ranked(scalar, here(slot)), ranked(scalar, before(slot)))
        },
        slot < contents.columns.len(),
        contents.columns[slot as int].len() <= u64::MAX,
    ensures
        crate::walk::walked(steps, at, to, contents, answers, used) == (if rises_in(
            scalar,
            contents.columns[slot as int],
        ) {
            crate::walk::walked(steps, at + 1, to, contents, answers, used)
        } else {
            None
        }),
{
    let words = contents.columns[slot as int];
    match crate::machine::act_of(steps[at]) {
        Act::Scan { faults, .. } => {
            lemma_rank_faults(faults, contents, slot, scalar);
            lemma_scan(steps, at, to, contents, answers, used, 1, words.len() as u64);
            if rises_in(scalar, words) {
                assert forall|i: int| 1 <= i < words.len() implies !(#[trigger] crate::walk::shows(
                    faults,
                    contents,
                    i as u64,
                )) by {
                    assert(crate::scalar::rank_of(scalar, words[i - 1]) <= crate::scalar::rank_of(
                        scalar,
                        words[i],
                    ));
                }
            } else {
                let i = choose|i: int|
                    1 <= i < words.len() && !(crate::scalar::rank_of(scalar, words[i - 1])
                        <= crate::scalar::rank_of(scalar, #[trigger] words[i]));
                assert(crate::walk::shows(faults, contents, i as u64));
            }
        },
        _ => {},
    }
}

/// A sorted column rises.
pub proof fn lemma_sorted_rises(scalar: Scalar, words: Seq<u64>)
    ensures
        rises_in(scalar, crate::columns::sorted(scalar, words)),
        crate::columns::sorted(scalar, words).len() == words.len(),
{
    let risen = crate::columns::sorted(scalar, words);
    let order = crate::columns::ordered(scalar);
    crate::columns::law_sorted_is_the_rising_permutation(scalar, words, risen);
    assert forall|i: int| 1 <= i < risen.len() implies crate::scalar::rank_of(scalar, risen[i - 1])
        <= crate::scalar::rank_of(scalar, #[trigger] risen[i]) by {
        assert(order(risen[i - 1], risen[i]));
    }
    assert(risen.to_multiset().len() == words.to_multiset().len());
    vstd::seq_lib::to_multiset_len(risen);
    vstd::seq_lib::to_multiset_len(words);
}

/// Whether two numbers differ.
pub proof fn lemma_differs(left: Expr, right: Expr, contents: Contents, place: u64)
    ensures
        crate::expr::value_of(differs(left, right), contents, place) == match (
            crate::expr::value_of(left, contents, place),
            crate::expr::value_of(right, contents, place),
        ) {
            (Some(a), Some(b)) => Some(crate::expr::truth(a != b)),
            _ => None,
        },
{
    reveal_with_fuel(crate::expr::value_of, 3);
}

/// The word of a column at a place, if it has one.
pub proof fn lemma_here(contents: Contents, slot: u64, place: u64)
    requires
        slot < contents.columns.len(),
    ensures
        crate::expr::value_of(here(slot), contents, place) == (if place
            < contents.columns[slot as int].len() {
            Some(contents.columns[slot as int][place as int])
        } else {
            None
        }),
{
    reveal_with_fuel(crate::expr::value_of, 2);
}

/// Whether a column holds a certain word at a place.
pub open spec fn holds_at(words: Seq<u64>, target: Seq<u64>, place: int) -> bool {
    place < words.len() && words[place] == target[place]
}

/// Whether a column begins with certain words.
pub open spec fn begins_with(words: Seq<u64>, target: Seq<u64>) -> bool {
    forall|i: int| 0 <= i < target.len() ==> #[trigger] holds_at(words, target, i)
}

/// Looking for words that are not the expected ones.
proof fn lemma_expected_faults(
    faults: Faults,
    contents: Contents,
    slot: u64,
    expected: Expr,
    target: Seq<u64>,
)
    requires
        faults matches Faults::One(fault, _) && fault == differs(here(slot), expected),
        slot < contents.columns.len(),
        target.len() <= u64::MAX,
        forall|i: int|
            0 <= i < target.len() ==> #[trigger] crate::expr::value_of(
                expected,
                contents,
                i as u64,
            ) == Some(target[i]),
    ensures
        forall|i: int|
            0 <= i < target.len() ==> (#[trigger] crate::walk::shows(faults, contents, i as u64)
                <==> !holds_at(contents.columns[slot as int], target, i)),
{
    assert forall|i: int| 0 <= i < target.len() implies (#[trigger] crate::walk::shows(
        faults,
        contents,
        i as u64,
    ) <==> !holds_at(contents.columns[slot as int], target, i)) by {
        assert(crate::expr::value_of(expected, contents, i as u64) == Some(target[i]));
        lemma_here(contents, slot, i as u64);
        lemma_differs(here(slot), expected, contents, i as u64);
    }
}

/// A scan for words that are not the expected ones.
pub proof fn lemma_scan_expected(
    steps: Seq<Step>,
    at: int,
    to: int,
    contents: Contents,
    answers: Seq<Answer>,
    used: int,
    slot: u64,
    expected: Expr,
    target: Seq<u64>,
)
    requires
        at < to,
        crate::machine::taken(steps[at], contents) == Some(true),
        crate::machine::act_of(steps[at]) matches Act::Scan { low, high, by, faults } && {
            &&& low == num(0)
            &&& target.len() <= u64::MAX
            &&& crate::expr::value_of(high, contents, 0) == Some(target.len() as u64)
            &&& by == 1
            &&& faults matches Faults::One(fault, _)
            &&& fault == differs(here(slot), expected)
        },
        slot < contents.columns.len(),
        forall|i: int|
            0 <= i < target.len() ==> #[trigger] crate::expr::value_of(
                expected,
                contents,
                i as u64,
            ) == Some(target[i]),
    ensures
        crate::walk::walked(steps, at, to, contents, answers, used) == (if begins_with(
            contents.columns[slot as int],
            target,
        ) {
            crate::walk::walked(steps, at + 1, to, contents, answers, used)
        } else {
            None
        }),
{
    let words = contents.columns[slot as int];
    match crate::machine::act_of(steps[at]) {
        Act::Scan { faults, .. } => {
            lemma_expected_faults(faults, contents, slot, expected, target);
            lemma_scan(steps, at, to, contents, answers, used, 0, target.len() as u64);
            if begins_with(words, target) {
                assert forall|i: int| 0 <= i < target.len() implies !(#[trigger] crate::walk::shows(
                    faults,
                    contents,
                    i as u64,
                )) by {
                    assert(holds_at(words, target, i));
                }
            } else {
                let i = choose|i: int| 0 <= i < target.len() && !(#[trigger] holds_at(
                    words,
                    target,
                    i,
                ));
                assert(crate::walk::shows(faults, contents, i as u64));
            }
        },
        _ => {},
    }
}

/// Whether every word of a column is what an expression comes to at its place.
pub open spec fn each_is(contents: Contents, slot: u64, expected: Expr) -> bool {
    forall|i: int|
        0 <= i < contents.columns[slot as int].len() ==> #[trigger] crate::expr::value_of(
            expected,
            contents,
            i as u64,
        ) == Some(contents.columns[slot as int][i])
}

/// Looking for a word that is not what an expression comes to at its place.
proof fn lemma_each_fault(
    faults: Faults,
    contents: Contents,
    slot: u64,
    expected: Expr,
    place: u64,
)
    requires
        faults matches Faults::One(fault, _) && fault == differs(here(slot), expected),
        slot < contents.columns.len(),
        place < contents.columns[slot as int].len(),
    ensures
        crate::walk::shows(faults, contents, place) <==> crate::expr::value_of(
            expected,
            contents,
            place,
        ) != Some(contents.columns[slot as int][place as int]),
{
    lemma_here(contents, slot, place);
    lemma_differs(here(slot), expected, contents, place);
}

/// A scan of a whole column for words that are not what an expression comes to at their places.
pub proof fn lemma_scan_each(
    steps: Seq<Step>,
    at: int,
    to: int,
    contents: Contents,
    answers: Seq<Answer>,
    used: int,
    slot: u64,
    expected: Expr,
)
    requires
        at < to,
        crate::machine::taken(steps[at], contents) == Some(true),
        crate::machine::act_of(steps[at]) matches Act::Scan { low, high, by, faults } && {
            &&& low == num(0)
            &&& high == len(slot)
            &&& by == 1
            &&& faults matches Faults::One(fault, _)
            &&& fault == differs(here(slot), expected)
        },
        slot < contents.columns.len(),
        contents.columns[slot as int].len() <= u64::MAX,
    ensures
        crate::walk::walked(steps, at, to, contents, answers, used) == (if each_is(
            contents,
            slot,
            expected,
        ) {
            crate::walk::walked(steps, at + 1, to, contents, answers, used)
        } else {
            None
        }),
{
    let words = contents.columns[slot as int];
    match crate::machine::act_of(steps[at]) {
        Act::Scan { faults, .. } => {
            lemma_scan(steps, at, to, contents, answers, used, 0, words.len() as u64);
            if each_is(contents, slot, expected) {
                assert forall|i: int| 0 <= i < words.len() implies !(#[trigger] crate::walk::shows(
                    faults,
                    contents,
                    i as u64,
                )) by {
                    lemma_each_fault(faults, contents, slot, expected, i as u64);
                    assert(crate::expr::value_of(expected, contents, i as u64) == Some(words[i]));
                }
            } else {
                let i = choose|i: int|
                    0 <= i < words.len() && #[trigger] crate::expr::value_of(
                        expected,
                        contents,
                        i as u64,
                    ) != Some(words[i]);
                lemma_each_fault(faults, contents, slot, expected, i as u64);
                assert(crate::walk::shows(faults, contents, i as u64));
            }
        },
        _ => {},
    }
}

/// Whether a register is not what a number is.
pub proof fn lemma_register(contents: Contents, register: u64, number: Expr, expected: u64)
    requires
        register < contents.registers.len(),
        crate::expr::value_of(number, contents, 0) == Some(expected),
    ensures
        crate::expr::value_of(differs(reg(register), number), contents, 0) == Some(
            crate::expr::truth(contents.registers[register as int] != expected),
        ),
{
    lemma_differs(reg(register), number, contents, 0);
    assert(crate::expr::value_of(reg(register), contents, 0) == Some(
        contents.registers[register as int],
    ));
}

/// Looking at one word of a column.
pub proof fn lemma_word_at(
    contents: Contents,
    slot: u64,
    place: Expr,
    expected: Expr,
    found: u64,
    word: u64,
)
    requires
        slot < contents.columns.len(),
        crate::expr::value_of(place, contents, 0) == Some(found),
        crate::expr::value_of(expected, contents, 0) == Some(word),
    ensures
        crate::expr::value_of(differs(at(slot, place), expected), contents, 0) == Some(0u64)
            <==> found < contents.columns[slot as int].len()
            && contents.columns[slot as int][found as int] == word,
{
    lemma_differs(at(slot, place), expected, contents, 0);
    assert(crate::expr::value_of(at(slot, place), contents, 0) == (if found
        < contents.columns[slot as int].len() {
        Some(contents.columns[slot as int][found as int])
    } else {
        None
    }));
}

/// A scan of a whole column for words of which something does not hold.
pub proof fn lemma_scan_words(
    steps: Seq<Step>,
    at: int,
    to: int,
    contents: Contents,
    answers: Seq<Answer>,
    used: int,
    slot: u64,
    fault: Expr,
    fine: spec_fn(u64) -> bool,
)
    requires
        at < to,
        crate::machine::taken(steps[at], contents) == Some(true),
        crate::machine::act_of(steps[at]) matches Act::Scan { low, high, by, faults } && {
            &&& low == num(0)
            &&& high == len(slot)
            &&& by == 1
            &&& faults matches Faults::One(own, _)
            &&& own == fault
        },
        slot < contents.columns.len(),
        contents.columns[slot as int].len() <= u64::MAX,
        forall|i: int|
            0 <= i < contents.columns[slot as int].len() ==> (#[trigger] crate::expr::value_of(
                fault,
                contents,
                i as u64,
            ) == Some(0u64) <==> fine(contents.columns[slot as int][i])),
    ensures
        crate::walk::walked(steps, at, to, contents, answers, used) == (if forall|i: int|
            0 <= i < contents.columns[slot as int].len() ==> fine(
                #[trigger] contents.columns[slot as int][i],
            ) {
            crate::walk::walked(steps, at + 1, to, contents, answers, used)
        } else {
            None
        }),
{
    let words = contents.columns[slot as int];
    match crate::machine::act_of(steps[at]) {
        Act::Scan { faults, .. } => {
            lemma_scan(steps, at, to, contents, answers, used, 0, words.len() as u64);
            assert forall|i: int| 0 <= i < words.len() implies (#[trigger] crate::walk::shows(
                faults,
                contents,
                i as u64,
            ) <==> !fine(words[i])) by {
                assert(crate::expr::value_of(fault, contents, i as u64) == Some(0u64) <==> fine(
                    words[i],
                ));
            }
            if forall|i: int| 0 <= i < words.len() ==> fine(#[trigger] words[i]) {
                assert forall|i: int| 0 <= i < words.len() implies !(#[trigger] crate::walk::shows(
                    faults,
                    contents,
                    i as u64,
                )) by {
                    assert(fine(words[i]));
                }
            } else {
                let i = choose|i: int| 0 <= i < words.len() && !fine(#[trigger] words[i]);
                assert(crate::walk::shows(faults, contents, i as u64));
            }
        },
        _ => {},
    }
}

/// The first round and the later ones.
pub proof fn lemma_first_round(
    count: int,
    round: spec_fn(int) -> Seq<Step>,
    later: spec_fn(int) -> Seq<Step>,
)
    requires
        count > 0,
        forall|k: int| #[trigger] later(k) == round(k + 1),
    ensures
        crate::script::rounds(count, round) == round(0) + crate::script::rounds(count - 1, later),
    decreases count,
{
    reveal_with_fuel(crate::script::rounds, 2);
    if count > 1 {
        lemma_first_round(count - 1, round, later);
        assert(later(count - 2) == round(count - 1));
        assert(crate::script::rounds(count, round) =~= round(0) + (crate::script::rounds(
            count - 2,
            later,
        ) + later(count - 2)));
    } else {
        assert(crate::script::rounds(count, round) =~= round(0) + crate::script::rounds(0, later));
    }
}

} // verus!
