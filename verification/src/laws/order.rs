//! The law of the test of stable order.

use vstd::prelude::*;
use crate::expr::{
    and, at, before, count_in, differs, here, ix, len, lt, modulo, num, over, plus, same_as, times,
};
use crate::machine::{Answer, Ending, Progress};
use crate::memory::Contents;
use crate::script::{Act, Faults, Step};

verus! {

/// The keys of the rows, ten rows each.
pub open spec fn keys() -> Seq<u64> {
    Seq::new(1000, |i: int| (i / 10) as u64)
}

/// The values of the rows: a hundred times the key, and the number of the row among those of its
/// key.
pub open spec fn values() -> Seq<u64> {
    Seq::new(1000, |i: int| ((i / 10) * 100 + i % 10) as u64)
}

/// The words of [`keys`].
proof fn lemma_keys(contents: Contents)
    ensures
        forall|i: int|
            0 <= i < 1000 ==> #[trigger] crate::expr::value_of(
                over(ix(), num(10)),
                contents,
                i as u64,
            ) == Some(keys()[i]),
{
    reveal_with_fuel(crate::expr::value_of, 2);
}

/// One of the words of [`values`].
proof fn lemma_values_at(contents: Contents, i: u64)
    requires
        i < 1000,
    ensures
        crate::expr::value_of(
            plus(times(over(ix(), num(10)), num(100)), modulo(ix(), num(10))),
            contents,
            i,
        ) == Some(values()[i as int]),
{
    reveal_with_fuel(crate::expr::value_of, 4);
}

/// The words of [`values`].
proof fn lemma_values(contents: Contents)
    ensures
        forall|i: int|
            0 <= i < 1000 ==> #[trigger] crate::expr::value_of(
                plus(times(over(ix(), num(10)), num(100)), modulo(ix(), num(10))),
                contents,
                i as u64,
            ) == Some(values()[i]),
{
    assert forall|i: int| 0 <= i < 1000 implies #[trigger] crate::expr::value_of(
        plus(times(over(ix(), num(10)), num(100)), modulo(ix(), num(10))),
        contents,
        i as u64,
    ) == Some(values()[i]) by {
        lemma_values_at(contents, i as u64);
    }
}

/// Whether a row has the key of the row before it.
pub open spec fn repeats(keys: Seq<u64>, place: int) -> bool {
    0 < place && keys[place] == keys[place - 1]
}

/// Whether a row that has the key of the row before it has a value, and not a smaller one.
pub open spec fn keeps_order_at(keys: Seq<u64>, values: Seq<u64>, place: int) -> bool {
    repeats(keys, place) ==> place < values.len() && values[place] >= values[place - 1]
}

/// Whether the values of rows with equal keys never fall: whether these rows have kept the order
/// that they had.
pub open spec fn keeps_order(keys: Seq<u64>, values: Seq<u64>) -> bool {
    forall|i: int| 0 < i < keys.len() ==> #[trigger] keeps_order_at(keys, values, i)
}

/// Looking for a smaller value under the same key.
proof fn lemma_keeps_order_at(contents: Contents, i: u64)
    requires
        contents.full(),
        0 < i < contents.columns[2].len(),
        contents.columns[2].len() <= u64::MAX,
        contents.columns[3].len() <= u64::MAX,
    ensures
        crate::expr::value_of(
            and(same_as(here(2), before(2)), lt(here(3), before(3))),
            contents,
            i,
        ) == Some(0u64) <==> keeps_order_at(contents.columns[2], contents.columns[3], i as int),
{
    let keys = contents.columns[2];
    let values = contents.columns[3];
    assert(crate::expr::value_of(same_as(here(2), before(2)), contents, i) == Some(
        crate::expr::truth(keys[i as int] == keys[i - 1]),
    )) by {
        reveal_with_fuel(crate::expr::value_of, 4);
    }
    assert(crate::expr::value_of(lt(here(3), before(3)), contents, i) == (if i < values.len() {
        Some(crate::expr::truth(values[i as int] < values[i - 1]))
    } else {
        None
    })) by {
        reveal_with_fuel(crate::expr::value_of, 4);
    }
}

/// A scan for smaller values under the same key.
proof fn lemma_scan_keeps_order(
    steps: Seq<Step>,
    place: int,
    to: int,
    contents: Contents,
    answers: Seq<Answer>,
    used: int,
)
    requires
        place < to,
        contents.full(),
        contents.columns[2].len() <= u64::MAX,
        contents.columns[3].len() <= u64::MAX,
        crate::machine::taken(steps[place], contents) == Some(true),
        crate::machine::act_of(steps[place]) matches Act::Scan { low, high, by, faults } && {
            &&& low == num(1)
            &&& high == len(2)
            &&& by == 1
            &&& faults matches Faults::One(fault, _)
            &&& fault == and(same_as(here(2), before(2)), lt(here(3), before(3)))
        },
    ensures
        crate::walk::walked(steps, place, to, contents, answers, used) == (if keeps_order(
            contents.columns[2],
            contents.columns[3],
        ) {
            crate::walk::walked(steps, place + 1, to, contents, answers, used)
        } else {
            None
        }),
{
    let keys = contents.columns[2];
    let values = contents.columns[3];
    match crate::machine::act_of(steps[place]) {
        Act::Scan { faults, .. } => {
            assert(crate::expr::value_of(num(1), contents, 0) == Some(1u64));
            assert(crate::expr::value_of(len(2), contents, 0) == Some(keys.len() as u64));
            crate::laws::steps::lemma_scan(
                steps,
                place,
                to,
                contents,
                answers,
                used,
                1,
                keys.len() as u64,
            );
            assert forall|i: int| 1 <= i < keys.len() implies (#[trigger] crate::walk::shows(
                faults,
                contents,
                i as u64,
            ) <==> !keeps_order_at(keys, values, i)) by {
                lemma_keeps_order_at(contents, i as u64);
            }
            if keeps_order(keys, values) {
                assert forall|i: int| 1 <= i < keys.len() implies !(#[trigger] crate::walk::shows(
                    faults,
                    contents,
                    i as u64,
                )) by {
                    assert(keeps_order_at(keys, values, i));
                }
            } else {
                let i = choose|i: int|
                    0 < i < keys.len() && !(#[trigger] keeps_order_at(keys, values, i));
                assert(crate::walk::shows(faults, contents, i as u64));
            }
        },
        _ => {},
    }
}

/// Whether each word of a column occurs ten times.
pub open spec fn tenfold(words: Seq<u64>) -> bool {
    forall|i: int|
        0 <= i < words.len() ==> crate::columns::occurrences(words, #[trigger] words[i]) == 10
}

/// Counting a word.
proof fn lemma_count(contents: Contents, i: u64)
    requires
        contents.full(),
        i < contents.columns[2].len(),
        contents.columns[2].len() <= u64::MAX,
    ensures
        crate::expr::value_of(differs(count_in(2, here(2)), num(10)), contents, i) == Some(0u64)
            <==> crate::columns::occurrences(
            contents.columns[2],
            contents.columns[2][i as int],
        ) == 10,
{
    let words = contents.columns[2];
    crate::laws::types::lemma_occurrences(words, words[i as int]);
    crate::laws::steps::lemma_here(contents, 2, i);
    assert(crate::expr::value_of(count_in(2, here(2)), contents, i) == Some(
        crate::columns::occurrences(words, words[i as int]) as u64,
    ));
    assert(crate::expr::value_of(num(10), contents, i) == Some(10u64));
    crate::laws::steps::lemma_differs(count_in(2, here(2)), num(10), contents, i);
}

/// Counting each word.
proof fn lemma_counts(contents: Contents)
    requires
        contents.full(),
        contents.columns[2].len() <= u64::MAX,
    ensures
        forall|i: int|
            0 <= i < contents.columns[2].len() ==> (#[trigger] crate::expr::value_of(
                differs(count_in(2, here(2)), num(10)),
                contents,
                i as u64,
            ) == Some(0u64) <==> crate::columns::occurrences(
                contents.columns[2],
                contents.columns[2][i],
            ) == 10),
{
    assert forall|i: int|
        0 <= i < contents.columns[2].len() implies (#[trigger] crate::expr::value_of(
        differs(count_in(2, here(2)), num(10)),
        contents,
        i as u64,
    ) == Some(0u64) <==> crate::columns::occurrences(
        contents.columns[2],
        contents.columns[2][i],
    ) == 10) by {
        lemma_count(contents, i as u64);
    }
}

/// The first word of a column, if it has one.
proof fn lemma_first(contents: Contents)
    requires
        contents.full(),
    ensures
        crate::expr::value_of(at(2, num(0)), contents, 0) == (if contents.columns[2].len() > 0 {
            Some(contents.columns[2][0])
        } else {
            None
        }),
{
    reveal_with_fuel(crate::expr::value_of, 2);
}

/// Whether the answers to the downloads of the test are columns or refusals.
pub open spec fn stable_shaped(answers: Seq<Answer>) -> bool {
    &&& answers.len() >= 8
    &&& crate::laws::steps::column_or_refusal(answers[2])
    &&& crate::laws::steps::column_or_refusal(answers[3])
    &&& crate::laws::steps::column_or_refusal(answers[5])
    &&& crate::laws::steps::column_or_refusal(answers[6])
}

/// What the device has to answer.
pub open spec fn stable_answers(answers: Seq<Answer>) -> bool {
    &&& !(answers[0] is Failed)
    &&& !(answers[1] is Failed)
    &&& answers[2] is Words
    &&& answers[3] is Words
    &&& crate::laws::steps::rises(answers[2]->Words_0)
    &&& answers[2]->Words_0.len() > 0
    &&& keeps_order(answers[2]->Words_0, answers[3]->Words_0)
    &&& tenfold(answers[2]->Words_0)
    &&& !(answers[4] is Failed)
    &&& answers[5] is Words
    &&& answers[6] is Words
    &&& answers[2]->Words_0 == answers[5]->Words_0
    &&& answers[3]->Words_0 == answers[6]->Words_0
    &&& !(answers[7] is Failed)
}

/// The steps of the test.
proof fn lemma_stable_answers(contents: Contents, answers: Seq<Answer>)
    requires
        contents.full(),
        stable_shaped(answers),
    ensures
        match crate::walk::walked(
            crate::categories::c15_determinism::stable_sort_order_steps(),
            0,
            16,
            contents,
            answers,
            0,
        ) {
            Some((after, next)) => {
                &&& stable_answers(answers)
                &&& after.full()
                &&& next == 8
            },
            None => !stable_answers(answers),
        },
        crate::categories::c15_determinism::stable_sort_order_steps().len() == 16,
{
    let steps = crate::categories::c15_determinism::stable_sort_order_steps();
    lemma_keys(contents);
    let words1 = keys();
    crate::laws::steps::lemma_fill(steps, 0, 16, contents, answers, 0, words1);
    let next1 = contents.with_column(0, words1);
    lemma_values(next1);
    let words2 = values();
    crate::laws::steps::lemma_fill(steps, 1, 16, next1, answers, 0, words2);
    let next2 = next1.with_column(1, words2);
    crate::laws::steps::lemma_command(steps, 2, 16, next2, answers, 0);
    crate::laws::steps::lemma_command(steps, 3, 16, next2, answers, 1);
    crate::laws::steps::lemma_download(steps, 4, 16, next2, answers, 2);
    if answers[2] is Words {
        let next3 = next2.with_column(2, answers[2]->Words_0);
        crate::laws::steps::lemma_download(steps, 5, 16, next3, answers, 3);
        if answers[3] is Words {
            let next4 = next3.with_column(3, answers[3]->Words_0);
            crate::laws::steps::lemma_scan_order(steps, 6, 16, next4, answers, 4, 2);
            lemma_first(next4);
            crate::laws::steps::lemma_put_or_abort(steps, 7, 16, next4, answers, 4);
            if answers[2]->Words_0.len() > 0 {
                let next5 = next4.with_register(0, answers[2]->Words_0[0]);
                lemma_scan_keeps_order(steps, 8, 16, next5, answers, 4);
                lemma_counts(next5);
                crate::laws::steps::lemma_scan_words(
                    steps,
                    9,
                    16,
                    next5,
                    answers,
                    4,
                    2,
                    differs(count_in(2, here(2)), num(10)),
                    |word: u64| crate::columns::occurrences(answers[2]->Words_0, word) == 10,
                );
                crate::laws::steps::lemma_command(steps, 10, 16, next5, answers, 4);
                crate::laws::steps::lemma_download(steps, 11, 16, next5, answers, 5);
                if answers[5] is Words {
                    let next6 = next5.with_column(5, answers[5]->Words_0);
                    crate::laws::steps::lemma_download(steps, 12, 16, next6, answers, 6);
                    if answers[6] is Words {
                        let next7 = next6.with_column(6, answers[6]->Words_0);
                        crate::laws::steps::lemma_not_alike(next7, 2, 5);
                        crate::laws::steps::lemma_check(
                            steps,
                            13,
                            16,
                            next7,
                            answers,
                            7,
                            !(answers[2]->Words_0 == answers[5]->Words_0),
                        );
                        crate::laws::steps::lemma_not_alike(next7, 3, 6);
                        crate::laws::steps::lemma_check(
                            steps,
                            14,
                            16,
                            next7,
                            answers,
                            7,
                            !(answers[3]->Words_0 == answers[6]->Words_0),
                        );
                        crate::laws::steps::lemma_command(steps, 15, 16, next7, answers, 7);
                        crate::laws::steps::lemma_end(steps, 16, next7, answers, 8);
                    }
                }
            }
        }
    }
}

/// The test has no jumps.
proof fn lemma_stable_straight()
    ensures
        forall|j: int|
            0 <= j < crate::categories::c15_determinism::stable_sort_order_steps().len()
                ==> crate::walk::straight(
                #[trigger] crate::categories::c15_determinism::stable_sort_order_steps()[j],
            ),
{
}

/// The test of stable order passes exactly when a sort gives at least one row and leaves the keys
/// in rising order, ten rows each, and the rows of each key in the order in which they went in, and
/// a second sort gives the same keys and the same values in the same order.
pub proof fn law_stable_order_passes_exactly_when_equal_keys_keep_their_order(answers: Seq<Answer>)
    requires
        stable_shaped(answers),
    ensures
        crate::machine::run_of(
            crate::script::plan(
                "test_stable_sort_order",
                crate::categories::c15_determinism::stable_sort_order_steps(),
            ),
            answers,
        ).progress == Progress::Over(Ending::Passed) <==> stable_answers(answers),
{
    let plan = crate::script::plan(
        "test_stable_sort_order",
        crate::categories::c15_determinism::stable_sort_order_steps(),
    );
    let blank = Contents::blank(plan.texts);
    lemma_stable_answers(blank, answers);
    lemma_stable_straight();
    crate::walk::law_passes_exactly_when_every_step_goes_through(plan, answers);
}

} // verus!
