//! The laws of the tests that move large columns.

use vstd::prelude::*;
use crate::expr::{
    at, before, differs, here, ix, least, len, lt, minus, modulo, num, pick, times, Expr,
};
use crate::machine::{Answer, Ending, Progress};
use crate::memory::Contents;
use crate::script::{Act, Faults, Step, COUNT};

verus! {

/// Whether something holds at each of the places looked at.
pub open spec fn at_each(from: int, end: int, by: int, fine: spec_fn(int) -> bool) -> bool {
    forall|i: int| crate::walk::visited(from, by, i) && i < end ==> #[trigger] fine(i)
}

/// A scan that goes through exactly when something holds at each of the places looked at.
pub proof fn lemma_scan_each(
    steps: Seq<Step>,
    place: int,
    to: int,
    contents: Contents,
    answers: Seq<Answer>,
    used: int,
    from: u64,
    end: u64,
    apart: u64,
    fault: Expr,
    fine: spec_fn(int) -> bool,
)
    requires
        place < to,
        apart > 0,
        crate::machine::taken(steps[place], contents) == Some(true),
        crate::machine::act_of(steps[place]) matches Act::Scan { low, high, by, faults } && {
            &&& crate::expr::value_of(low, contents, 0) == Some(from)
            &&& crate::expr::value_of(high, contents, 0) == Some(end)
            &&& by == apart
            &&& faults matches Faults::One(own, _)
            &&& own == fault
        },
        forall|i: int|
            from <= i < end ==> (#[trigger] crate::expr::value_of(fault, contents, i as u64)
                == Some(0u64) <==> fine(i)),
    ensures
        crate::walk::walked(steps, place, to, contents, answers, used) == (if at_each(
            from as int,
            end as int,
            apart as int,
            fine,
        ) {
            crate::walk::walked(steps, place + 1, to, contents, answers, used)
        } else {
            None
        }),
{
    reveal_with_fuel(crate::walk::walked, 2);
    reveal(crate::machine::effect_of);
    match crate::machine::act_of(steps[place]) {
        Act::Scan { faults, .. } => {
            crate::walk::law_scan_is_clean_exactly_when_no_fault_shows(
                faults,
                contents,
                from as int,
                end as int,
                apart as int,
            );
            assert forall|i: int| from <= i < end implies (#[trigger] crate::walk::shows(
                faults,
                contents,
                i as u64,
            ) <==> !fine(i)) by {
                assert(crate::expr::value_of(fault, contents, i as u64) == Some(0u64) <==> fine(i));
            }
            if at_each(from as int, end as int, apart as int, fine) {
                assert forall|i: int|
                    #![trigger crate::walk::shows(faults, contents, i as u64)]
                    crate::walk::visited(from as int, apart as int, i) && i
                        < end implies !crate::walk::shows(faults, contents, i as u64) by {
                    assert(fine(i));
                }
            } else {
                let i = choose|i: int|
                    crate::walk::visited(from as int, apart as int, i) && i < end && !(
                    #[trigger] fine(i));
                assert(crate::walk::shows(faults, contents, i as u64));
            }
        },
        _ => {},
    }
}

/// Looking at a word and the one before it.
proof fn lemma_in_order_at(contents: Contents, i: u64)
    requires
        contents.full(),
        contents.columns[1].len() <= u64::MAX,
        1 <= i,
    ensures
        crate::expr::value_of(lt(here(1), before(1)), contents, i) == Some(0u64)
            <==> crate::laws::steps::in_order_at(
            contents.columns[1],
            i as int,
        ),
{
    reveal_with_fuel(crate::expr::value_of, 4);
}

/// Whether no word of a column is less than the one before it, at some of the places.
pub open spec fn in_order(words: Seq<u64>, from: int, end: int) -> bool {
    at_each(from, end, 1, |i: int| crate::laws::steps::in_order_at(words, i))
}

/// A scan of some of the places of a column for their order.
proof fn lemma_scan_in_order(
    steps: Seq<Step>,
    place: int,
    to: int,
    contents: Contents,
    answers: Seq<Answer>,
    used: int,
    from: u64,
    end: u64,
)
    requires
        place < to,
        1 <= from || end <= from,
        contents.full(),
        contents.columns[1].len() <= u64::MAX,
        crate::machine::taken(steps[place], contents) == Some(true),
        crate::machine::act_of(steps[place]) matches Act::Scan { low, high, by, faults } && {
            &&& crate::expr::value_of(low, contents, 0) == Some(from)
            &&& crate::expr::value_of(high, contents, 0) == Some(end)
            &&& by == 1
            &&& faults matches Faults::One(fault, _)
            &&& fault == lt(here(1), before(1))
        },
    ensures
        crate::walk::walked(steps, place, to, contents, answers, used) == (if in_order(
            contents.columns[1],
            from as int,
            end as int,
        ) {
            crate::walk::walked(steps, place + 1, to, contents, answers, used)
        } else {
            None
        }),
{
    let words = contents.columns[1];
    let fine = |i: int| crate::laws::steps::in_order_at(words, i);
    assert forall|i: int| from <= i < end implies (#[trigger] crate::expr::value_of(
        lt(here(1), before(1)),
        contents,
        i as u64,
    ) == Some(0u64) <==> fine(i)) by {
        lemma_in_order_at(contents, i as u64);
    }
    lemma_scan_each(
        steps,
        place,
        to,
        contents,
        answers,
        used,
        from,
        end,
        1,
        lt(here(1), before(1)),
        fine,
    );
}

/// Where the first thousand places of a column end.
pub open spec fn head_end(words: Seq<u64>) -> int {
    if words.len() < 1000 {
        words.len() as int
    } else {
        1000
    }
}

/// Where the last thousand places of a column start, but for the first of them; its end where it
/// is shorter.
pub open spec fn tail_start(words: Seq<u64>) -> int {
    if words.len() > 1000 {
        words.len() - 999
    } else {
        words.len() as int
    }
}

/// The bounds of the first and of the last thousand places.
proof fn lemma_bounds(contents: Contents)
    requires
        contents.full(),
        contents.columns[1].len() <= u64::MAX,
    ensures
        crate::expr::value_of(num(1), contents, 0) == Some(1u64),
        crate::expr::value_of(len(1), contents, 0) == Some(contents.columns[1].len() as u64),
        crate::expr::value_of(least(num(1000), len(1)), contents, 0) == Some(
            head_end(contents.columns[1]) as u64,
        ),
        crate::expr::value_of(
            pick(lt(num(1000), len(1)), minus(len(1), num(999)), len(1)),
            contents,
            0,
        ) == Some(tail_start(contents.columns[1]) as u64),
{
    reveal_with_fuel(crate::expr::value_of, 3);
}

/// The keys of the second column of the test of many words.
pub open spec fn second_keys() -> Seq<u64> {
    Seq::new(1000000, |i: int| (i * 31337 % 1000000) as u64)
}

/// One of the words of [`second_keys`].
proof fn lemma_second_keys_at(contents: Contents, i: u64)
    requires
        i < 1000000,
    ensures
        crate::expr::value_of(modulo(times(ix(), num(31337)), num(1000000)), contents, i) == Some(
            second_keys()[i as int],
        ),
{
    reveal_with_fuel(crate::expr::value_of, 3);
}

/// The words of [`second_keys`].
proof fn lemma_second_keys(contents: Contents)
    ensures
        forall|i: int|
            0 <= i < 1000000 ==> #[trigger] crate::expr::value_of(
                modulo(times(ix(), num(31337)), num(1000000)),
                contents,
                i as u64,
            ) == Some(second_keys()[i]),
{
    assert forall|i: int| 0 <= i < 1000000 implies #[trigger] crate::expr::value_of(
        modulo(times(ix(), num(31337)), num(1000000)),
        contents,
        i as u64,
    ) == Some(second_keys()[i]) by {
        lemma_second_keys_at(contents, i as u64);
    }
}

/// Whether the length of a column is not the expected one.
proof fn lemma_length(contents: Contents, expected: u64)
    requires
        contents.full(),
        contents.columns[1].len() <= u64::MAX,
    ensures
        crate::expr::value_of(differs(len(1), num(expected)), contents, 0) == Some(
            crate::expr::truth(contents.columns[1].len() != expected),
        ),
{
    crate::laws::steps::lemma_differs(len(1), num(expected), contents, 0);
}

/// Whether two columns hold the same word at a place.
pub open spec fn same_at(left: Seq<u64>, right: Seq<u64>, place: int) -> bool {
    place < left.len() && place < right.len() && left[place] == right[place]
}

/// Whether two columns hold the same words at each of the places looked at.
pub open spec fn same_from(left: Seq<u64>, right: Seq<u64>, from: int, end: int, by: int) -> bool {
    at_each(from, end, by, |i: int| same_at(left, right, i))
}

/// Looking at the same place of two columns.
proof fn lemma_same_at(contents: Contents, i: u64)
    requires
        contents.full(),
    ensures
        crate::expr::value_of(differs(here(1), here(0)), contents, i) == Some(0u64) <==> same_at(
            contents.columns[1],
            contents.columns[0],
            i as int,
        ),
{
    reveal_with_fuel(crate::expr::value_of, 4);
}

/// A scan of some of the places of two columns for differences.
proof fn lemma_scan_same(
    steps: Seq<Step>,
    place: int,
    to: int,
    contents: Contents,
    answers: Seq<Answer>,
    used: int,
    from: u64,
    end: u64,
    apart: u64,
)
    requires
        place < to,
        apart > 0,
        contents.full(),
        crate::machine::taken(steps[place], contents) == Some(true),
        crate::machine::act_of(steps[place]) matches Act::Scan { low, high, by, faults } && {
            &&& crate::expr::value_of(low, contents, 0) == Some(from)
            &&& crate::expr::value_of(high, contents, 0) == Some(end)
            &&& by == apart
            &&& faults matches Faults::One(fault, _)
            &&& fault == differs(here(1), here(0))
        },
    ensures
        crate::walk::walked(steps, place, to, contents, answers, used) == (if same_from(
            contents.columns[1],
            contents.columns[0],
            from as int,
            end as int,
            apart as int,
        ) {
            crate::walk::walked(steps, place + 1, to, contents, answers, used)
        } else {
            None
        }),
{
    let left = contents.columns[1];
    let right = contents.columns[0];
    let fine = |i: int| same_at(left, right, i);
    assert forall|i: int| from <= i < end implies (#[trigger] crate::expr::value_of(
        differs(here(1), here(0)),
        contents,
        i as u64,
    ) == Some(0u64) <==> fine(i)) by {
        lemma_same_at(contents, i as u64);
    }
    lemma_scan_each(
        steps,
        place,
        to,
        contents,
        answers,
        used,
        from,
        end,
        apart,
        differs(here(1), here(0)),
        fine,
    );
}

/// Whether a column holds the word that stands at ten times the place in another one.
pub open spec fn tenth_at(kept: Seq<u64>, words: Seq<u64>, place: int) -> bool {
    place < kept.len() && place * 10 < words.len() && kept[place] == words[place * 10]
}

/// Whether a column holds every tenth word of another one, as far as it goes.
pub open spec fn tenths(kept: Seq<u64>, words: Seq<u64>) -> bool {
    at_each(0, kept.len() as int, 1, |i: int| tenth_at(kept, words, i))
}

/// Looking at a word and at the one at ten times its place.
#[verifier::spinoff_prover]
#[verifier::rlimit(50)]
proof fn lemma_tenth_at(contents: Contents, i: u64)
    requires
        contents.full(),
        contents.columns[0].len() <= u64::MAX,
    ensures
        crate::expr::value_of(differs(here(3), at(0, times(ix(), num(10)))), contents, i) == Some(
            0u64,
        ) <==> tenth_at(contents.columns[3], contents.columns[0], i as int),
{
    reveal_with_fuel(crate::expr::value_of, 5);
}

/// A scan for words that are not every tenth word of another column.
proof fn lemma_scan_tenths(
    steps: Seq<Step>,
    place: int,
    to: int,
    contents: Contents,
    answers: Seq<Answer>,
    used: int,
)
    requires
        place < to,
        contents.full(),
        contents.columns[0].len() <= u64::MAX,
        contents.columns[3].len() <= u64::MAX,
        crate::machine::taken(steps[place], contents) == Some(true),
        crate::machine::act_of(steps[place]) matches Act::Scan { low, high, by, faults } && {
            &&& low == num(0)
            &&& high == len(3)
            &&& by == 1
            &&& faults matches Faults::One(fault, _)
            &&& fault == differs(here(3), at(0, times(ix(), num(10))))
        },
    ensures
        crate::walk::walked(steps, place, to, contents, answers, used) == (if tenths(
            contents.columns[3],
            contents.columns[0],
        ) {
            crate::walk::walked(steps, place + 1, to, contents, answers, used)
        } else {
            None
        }),
{
    let kept = contents.columns[3];
    let words = contents.columns[0];
    let fine = |i: int| tenth_at(kept, words, i);
    assert forall|i: int| 0 <= i < kept.len() implies (#[trigger] crate::expr::value_of(
        differs(here(3), at(0, times(ix(), num(10)))),
        contents,
        i as u64,
    ) == Some(0u64) <==> fine(i)) by {
        lemma_tenth_at(contents, i as u64);
    }
    lemma_scan_each(
        steps,
        place,
        to,
        contents,
        answers,
        used,
        0,
        kept.len() as u64,
        1,
        differs(here(3), at(0, times(ix(), num(10)))),
        fine,
    );
}

/// The bounds of the last thousand of the words that are sent.
proof fn lemma_sent_bounds(contents: Contents)
    ensures
        crate::expr::value_of(num(0), contents, 0) == Some(0u64),
        crate::expr::value_of(num(1000), contents, 0) == Some(1000u64),
        crate::expr::value_of(num(25000000), contents, 0) == Some(25000000u64),
        crate::expr::value_of(minus(num(25000000), num(1000)), contents, 0) == Some(24999000u64),
{
    reveal_with_fuel(crate::expr::value_of, 2);
}

/// Whether the answers to the downloads of the test are columns or refusals.
pub open spec fn thrashing_shaped(answers: Seq<Answer>) -> bool {
    &&& answers.len() >= 9
    &&& crate::laws::steps::column_or_refusal(answers[2])
    &&& crate::laws::steps::column_or_refusal(answers[5])
}

/// What the device has to answer.
pub open spec fn thrashing_answers(answers: Seq<Answer>) -> bool {
    &&& !(answers[0] is Failed)
    &&& !(answers[1] is Failed)
    &&& answers[2] is Words
    &&& answers[2]->Words_0.len() == 5000000
    &&& crate::laws::steps::rises_by(answers[2]->Words_0, 10000)
    &&& in_order(answers[2]->Words_0, 1, head_end(answers[2]->Words_0))
    &&& in_order(
        answers[2]->Words_0,
        tail_start(answers[2]->Words_0),
        answers[2]->Words_0.len() as int,
    )
    &&& !(answers[3] is Failed)
    &&& !(answers[4] is Failed)
    &&& answers[5] is Words
    &&& crate::laws::steps::rises_by(answers[5]->Words_0, 1000)
    &&& !(answers[6] is Failed)
    &&& answers[7] == Answer::Count(1250000)
    &&& !(answers[8] is Failed)
}

/// The steps of the test.
proof fn lemma_thrashing_answers(contents: Contents, answers: Seq<Answer>)
    requires
        contents.full(),
        thrashing_shaped(answers),
    ensures
        match crate::walk::walked(
            crate::categories::c17_caching::cache_thrashing_steps(),
            0,
            17,
            contents,
            answers,
            0,
        ) {
            Some((after, next)) => {
                &&& thrashing_answers(answers)
                &&& after.full()
                &&& next == 9
            },
            None => !thrashing_answers(answers),
        },
        crate::categories::c17_caching::cache_thrashing_steps().len() == 17,
{
    let steps = crate::categories::c17_caching::cache_thrashing_steps();
    crate::laws::words::lemma_scattered(10000000, 5000000, contents);
    let words1 = crate::laws::words::scattered(10000000, 5000000);
    crate::laws::steps::lemma_fill(steps, 0, 17, contents, answers, 0, words1);
    let next1 = contents.with_column(0, words1);
    crate::laws::steps::lemma_command(steps, 1, 17, next1, answers, 0);
    crate::laws::steps::lemma_command(steps, 2, 17, next1, answers, 1);
    crate::laws::steps::lemma_download(steps, 3, 17, next1, answers, 2);
    if answers[2] is Words {
        let next2 = next1.with_column(1, answers[2]->Words_0);
        lemma_length(next2, 5000000);
        crate::laws::steps::lemma_check(
            steps,
            4,
            17,
            next2,
            answers,
            3,
            !(answers[2]->Words_0.len() == 5000000),
        );
        crate::laws::steps::lemma_scan_order_by(steps, 5, 17, next2, answers, 3, 1, 10000);
        lemma_bounds(next2);
        lemma_scan_in_order(
            steps,
            6,
            17,
            next2,
            answers,
            3,
            1,
            head_end(answers[2]->Words_0) as u64,
        );
        lemma_scan_in_order(
            steps,
            7,
            17,
            next2,
            answers,
            3,
            tail_start(answers[2]->Words_0) as u64,
            answers[2]->Words_0.len() as u64,
        );
        lemma_second_keys(next2);
        let words3 = second_keys();
        crate::laws::steps::lemma_fill(steps, 8, 17, next2, answers, 3, words3);
        let next3 = next2.with_column(2, words3);
        crate::laws::steps::lemma_command(steps, 9, 17, next3, answers, 3);
        crate::laws::steps::lemma_command(steps, 10, 17, next3, answers, 4);
        crate::laws::steps::lemma_download(steps, 11, 17, next3, answers, 5);
        if answers[5] is Words {
            let next4 = next3.with_column(3, answers[5]->Words_0);
            crate::laws::steps::lemma_scan_order_by(steps, 12, 17, next4, answers, 6, 3, 1000);
            crate::laws::masks::lemma_remainder_words(4, 5000000, next4);
            let words5 = crate::laws::masks::every(4, 5000000);
            crate::laws::steps::lemma_fill(steps, 13, 17, next4, answers, 6, words5);
            let next5 = next4.with_column(4, words5);
            crate::laws::steps::lemma_command(steps, 14, 17, next5, answers, 6);
            crate::laws::steps::lemma_match(steps, 15, 17, next5, answers, 7, 1250000);
            let next6 = next5.with_register(COUNT, 1250000);
            crate::laws::steps::lemma_command(steps, 16, 17, next6, answers, 8);
            crate::laws::steps::lemma_end(steps, 17, next6, answers, 9);
        }
    }
}

/// The test has no jumps.
proof fn lemma_thrashing_straight()
    ensures
        forall|j: int|
            0 <= j < crate::categories::c17_caching::cache_thrashing_steps().len()
                ==> crate::walk::straight(
                #[trigger] crate::categories::c17_caching::cache_thrashing_steps()[j],
            ),
{
}

/// The test of more words than a cache holds passes exactly when the first column comes back whole,
/// in rising order at every ten thousandth place and throughout its first and its last thousand
/// places, the second one in rising order at every thousandth place, and a filter leaves a quarter
/// of the rows.
pub proof fn law_thrashing_passes_exactly_when_sorted_and_filtered(answers: Seq<Answer>)
    requires
        thrashing_shaped(answers),
    ensures
        crate::machine::run_of(
            crate::script::plan(
                "test_cache_thrashing",
                crate::categories::c17_caching::cache_thrashing_steps(),
            ),
            answers,
        ).progress == Progress::Over(Ending::Passed) <==> thrashing_answers(answers),
{
    let plan = crate::script::plan(
        "test_cache_thrashing",
        crate::categories::c17_caching::cache_thrashing_steps(),
    );
    let blank = Contents::blank(plan.texts);
    lemma_thrashing_answers(blank, answers);
    lemma_thrashing_straight();
    crate::walk::law_passes_exactly_when_every_step_goes_through(plan, answers);
}

/// Whether the answers to the downloads of the test are columns or refusals.
pub open spec fn large_shaped(answers: Seq<Answer>) -> bool {
    &&& answers.len() >= 7
    &&& crate::laws::steps::column_or_refusal(answers[2])
    &&& crate::laws::steps::column_or_refusal(answers[5])
}

/// What the device has to answer.
pub open spec fn large_answers(answers: Seq<Answer>) -> bool {
    &&& !(answers[0] is Failed)
    &&& answers[1] == Answer::Count(25000000)
    &&& answers[2] is Words
    &&& answers[2]->Words_0.len() == 25000000
    &&& same_from(
        answers[2]->Words_0,
        crate::laws::words::scattered(25000000, 25000000),
        0,
        25000000,
        100000,
    )
    &&& same_from(
        answers[2]->Words_0,
        crate::laws::words::scattered(25000000, 25000000),
        0,
        1000,
        1,
    )
    &&& same_from(
        answers[2]->Words_0,
        crate::laws::words::scattered(25000000, 25000000),
        24999000,
        25000000,
        1,
    )
    &&& !(answers[3] is Failed)
    &&& answers[4] == Answer::Count(2500000)
    &&& answers[5] is Words
    &&& tenths(answers[5]->Words_0, crate::laws::words::scattered(25000000, 25000000))
    &&& !(answers[6] is Failed)
}

/// The steps of the test.
proof fn lemma_large_answers(contents: Contents, answers: Seq<Answer>)
    requires
        contents.full(),
        large_shaped(answers),
    ensures
        match crate::walk::walked(
            crate::categories::c18_host_device::large_transfer_steps(),
            0,
            14,
            contents,
            answers,
            0,
        ) {
            Some((after, next)) => {
                &&& large_answers(answers)
                &&& after.full()
                &&& next == 7
            },
            None => !large_answers(answers),
        },
        crate::categories::c18_host_device::large_transfer_steps().len() == 14,
{
    let steps = crate::categories::c18_host_device::large_transfer_steps();
    crate::laws::words::lemma_scattered(25000000, 25000000, contents);
    let words1 = crate::laws::words::scattered(25000000, 25000000);
    crate::laws::steps::lemma_fill(steps, 0, 14, contents, answers, 0, words1);
    let next1 = contents.with_column(0, words1);
    crate::laws::steps::lemma_command(steps, 1, 14, next1, answers, 0);
    crate::laws::steps::lemma_match(steps, 2, 14, next1, answers, 1, 25000000);
    let next2 = next1.with_register(COUNT, 25000000);
    crate::laws::steps::lemma_download(steps, 3, 14, next2, answers, 2);
    if answers[2] is Words {
        let next3 = next2.with_column(1, answers[2]->Words_0);
        lemma_length(next3, 25000000);
        crate::laws::steps::lemma_check(
            steps,
            4,
            14,
            next3,
            answers,
            3,
            !(answers[2]->Words_0.len() == 25000000),
        );
        lemma_sent_bounds(next3);
        lemma_scan_same(steps, 5, 14, next3, answers, 3, 0, 25000000, 100000);
        lemma_scan_same(steps, 6, 14, next3, answers, 3, 0, 1000, 1);
        lemma_scan_same(steps, 7, 14, next3, answers, 3, 24999000, 25000000, 1);
        crate::laws::masks::lemma_remainder_words(10, 25000000, next3);
        let words4 = crate::laws::masks::every(10, 25000000);
        crate::laws::steps::lemma_fill(steps, 8, 14, next3, answers, 3, words4);
        let next4 = next3.with_column(2, words4);
        crate::laws::steps::lemma_command(steps, 9, 14, next4, answers, 3);
        crate::laws::steps::lemma_match(steps, 10, 14, next4, answers, 4, 2500000);
        let next5 = next4.with_register(COUNT, 2500000);
        crate::laws::steps::lemma_download(steps, 11, 14, next5, answers, 5);
        if answers[5] is Words {
            let next6 = next5.with_column(3, answers[5]->Words_0);
            lemma_scan_tenths(steps, 12, 14, next6, answers, 6);
            crate::laws::steps::lemma_command(steps, 13, 14, next6, answers, 6);
            crate::laws::steps::lemma_end(steps, 14, next6, answers, 7);
        }
    }
}

/// The test has no jumps.
proof fn lemma_large_straight()
    ensures
        forall|j: int|
            0 <= j < crate::categories::c18_host_device::large_transfer_steps().len()
                ==> crate::walk::straight(
                #[trigger] crate::categories::c18_host_device::large_transfer_steps()[j],
            ),
{
}

/// The test of a large transfer passes exactly when as many words come back as were sent, the same
/// at every hundred thousandth place and throughout the first and the last thousand places, and a
/// filter leaves every tenth word.
pub proof fn law_large_transfer_passes_exactly_when_words_come_back(answers: Seq<Answer>)
    requires
        large_shaped(answers),
    ensures
        crate::machine::run_of(
            crate::script::plan(
                "test_large_transfer",
                crate::categories::c18_host_device::large_transfer_steps(),
            ),
            answers,
        ).progress == Progress::Over(Ending::Passed) <==> large_answers(answers),
{
    let plan = crate::script::plan(
        "test_large_transfer",
        crate::categories::c18_host_device::large_transfer_steps(),
    );
    let blank = Contents::blank(plan.texts);
    lemma_large_answers(blank, answers);
    lemma_large_straight();
    crate::walk::law_passes_exactly_when_every_step_goes_through(plan, answers);
}

} // verus!
