//! The laws of the tests in which one operation takes the result of another.

use vstd::prelude::*;
use crate::expr::{
    and, differs, here, ix, len, lt, modulo, not, num, or, plus, same_as, times, Expr,
};
use crate::machine::{Answer, Ending, Progress};
use crate::memory::Contents;
use crate::scalar::Scalar;

verus! {

/// Whether a word is below five hundred.
pub open spec fn lower(word: u64) -> bool {
    word < 500
}

/// Whether a word is five hundred or more.
pub open spec fn higher(word: u64) -> bool {
    word >= 500
}

/// Whether a word is below eight hundred.
pub open spec fn bounded(word: u64) -> bool {
    word < 800
}

/// Whether a word lies from five hundred on and below eight hundred.
pub open spec fn between(word: u64) -> bool {
    500 <= word < 800
}

/// Whether a word is even.
pub open spec fn even(word: u64) -> bool {
    word % 2 == 0
}

/// The mask of the words below five hundred.
pub open spec fn lowers(words: Seq<u64>) -> Seq<u64> {
    Seq::new(words.len(), |i: int| crate::expr::truth(lower(words[i])))
}

/// One of the words of [`lowers`].
proof fn lemma_lowers_at(contents: Contents, slot: u64, i: u64)
    requires
        slot < contents.columns.len(),
        i < contents.columns[slot as int].len(),
    ensures
        crate::expr::value_of(
            lt(here(slot), num(500)),
            contents,
            i,
        ) == Some(crate::expr::truth(lower(contents.columns[slot as int][i as int]))),
{
    reveal_with_fuel(crate::expr::value_of, 4);
}

/// The words of [`lowers`].
proof fn lemma_lowers(contents: Contents, slot: u64)
    requires
        slot < contents.columns.len(),
        contents.columns[slot as int].len() <= u64::MAX,
    ensures
        forall|i: int|
            0 <= i < contents.columns[slot as int].len() ==> #[trigger] crate::expr::value_of(
                lt(here(slot), num(500)),
                contents,
                i as u64,
            ) == Some(lowers(contents.columns[slot as int])[i]),
{
    assert forall|i: int|
        0 <= i < contents.columns[slot as int].len() implies #[trigger] crate::expr::value_of(
        lt(here(slot), num(500)),
        contents,
        i as u64,
    ) == Some(lowers(contents.columns[slot as int])[i]) by {
        lemma_lowers_at(contents, slot, i as u64);
    }
}

/// The mask of the words from five hundred on.
pub open spec fn highers(words: Seq<u64>) -> Seq<u64> {
    Seq::new(words.len(), |i: int| crate::expr::truth(higher(words[i])))
}

/// One of the words of [`highers`].
proof fn lemma_highers_at(contents: Contents, slot: u64, i: u64)
    requires
        slot < contents.columns.len(),
        i < contents.columns[slot as int].len(),
    ensures
        crate::expr::value_of(
            not(lt(here(slot), num(500))),
            contents,
            i,
        ) == Some(crate::expr::truth(higher(contents.columns[slot as int][i as int]))),
{
    reveal_with_fuel(crate::expr::value_of, 4);
}

/// The words of [`highers`].
proof fn lemma_highers(contents: Contents, slot: u64)
    requires
        slot < contents.columns.len(),
        contents.columns[slot as int].len() <= u64::MAX,
    ensures
        forall|i: int|
            0 <= i < contents.columns[slot as int].len() ==> #[trigger] crate::expr::value_of(
                not(lt(here(slot), num(500))),
                contents,
                i as u64,
            ) == Some(highers(contents.columns[slot as int])[i]),
{
    assert forall|i: int|
        0 <= i < contents.columns[slot as int].len() implies #[trigger] crate::expr::value_of(
        not(lt(here(slot), num(500))),
        contents,
        i as u64,
    ) == Some(highers(contents.columns[slot as int])[i]) by {
        lemma_highers_at(contents, slot, i as u64);
    }
}

/// The mask of the words below eight hundred.
pub open spec fn boundeds(words: Seq<u64>) -> Seq<u64> {
    Seq::new(words.len(), |i: int| crate::expr::truth(bounded(words[i])))
}

/// One of the words of [`boundeds`].
proof fn lemma_boundeds_at(contents: Contents, slot: u64, i: u64)
    requires
        slot < contents.columns.len(),
        i < contents.columns[slot as int].len(),
    ensures
        crate::expr::value_of(
            lt(here(slot), num(800)),
            contents,
            i,
        ) == Some(crate::expr::truth(bounded(contents.columns[slot as int][i as int]))),
{
    reveal_with_fuel(crate::expr::value_of, 4);
}

/// The words of [`boundeds`].
proof fn lemma_boundeds(contents: Contents, slot: u64)
    requires
        slot < contents.columns.len(),
        contents.columns[slot as int].len() <= u64::MAX,
    ensures
        forall|i: int|
            0 <= i < contents.columns[slot as int].len() ==> #[trigger] crate::expr::value_of(
                lt(here(slot), num(800)),
                contents,
                i as u64,
            ) == Some(boundeds(contents.columns[slot as int])[i]),
{
    assert forall|i: int|
        0 <= i < contents.columns[slot as int].len() implies #[trigger] crate::expr::value_of(
        lt(here(slot), num(800)),
        contents,
        i as u64,
    ) == Some(boundeds(contents.columns[slot as int])[i]) by {
        lemma_boundeds_at(contents, slot, i as u64);
    }
}

/// The mask of the words from five hundred on and below eight hundred.
pub open spec fn betweens(words: Seq<u64>) -> Seq<u64> {
    Seq::new(words.len(), |i: int| crate::expr::truth(between(words[i])))
}

/// One of the words of [`betweens`].
#[verifier::spinoff_prover]
#[verifier::rlimit(50)]
proof fn lemma_betweens_at(contents: Contents, slot: u64, i: u64)
    requires
        slot < contents.columns.len(),
        i < contents.columns[slot as int].len(),
    ensures
        crate::expr::value_of(
            and(not(lt(here(slot), num(500))), lt(here(slot), num(800))),
            contents,
            i,
        ) == Some(crate::expr::truth(between(contents.columns[slot as int][i as int]))),
{
    reveal_with_fuel(crate::expr::value_of, 5);
}

/// The words of [`betweens`].
proof fn lemma_betweens(contents: Contents, slot: u64)
    requires
        slot < contents.columns.len(),
        contents.columns[slot as int].len() <= u64::MAX,
    ensures
        forall|i: int|
            0 <= i < contents.columns[slot as int].len() ==> #[trigger] crate::expr::value_of(
                and(not(lt(here(slot), num(500))), lt(here(slot), num(800))),
                contents,
                i as u64,
            ) == Some(betweens(contents.columns[slot as int])[i]),
{
    assert forall|i: int|
        0 <= i < contents.columns[slot as int].len() implies #[trigger] crate::expr::value_of(
        and(not(lt(here(slot), num(500))), lt(here(slot), num(800))),
        contents,
        i as u64,
    ) == Some(betweens(contents.columns[slot as int])[i]) by {
        lemma_betweens_at(contents, slot, i as u64);
    }
}

/// The mask of the even words.
pub open spec fn evens(words: Seq<u64>) -> Seq<u64> {
    Seq::new(words.len(), |i: int| crate::expr::truth(even(words[i])))
}

/// One of the words of [`evens`].
#[verifier::spinoff_prover]
#[verifier::rlimit(50)]
proof fn lemma_evens_at(contents: Contents, slot: u64, i: u64)
    requires
        slot < contents.columns.len(),
        i < contents.columns[slot as int].len(),
    ensures
        crate::expr::value_of(
            same_as(modulo(here(slot), num(2)), num(0)),
            contents,
            i,
        ) == Some(crate::expr::truth(even(contents.columns[slot as int][i as int]))),
{
    reveal_with_fuel(crate::expr::value_of, 5);
}

/// The words of [`evens`].
proof fn lemma_evens(contents: Contents, slot: u64)
    requires
        slot < contents.columns.len(),
        contents.columns[slot as int].len() <= u64::MAX,
    ensures
        forall|i: int|
            0 <= i < contents.columns[slot as int].len() ==> #[trigger] crate::expr::value_of(
                same_as(modulo(here(slot), num(2)), num(0)),
                contents,
                i as u64,
            ) == Some(evens(contents.columns[slot as int])[i]),
{
    assert forall|i: int|
        0 <= i < contents.columns[slot as int].len() implies #[trigger] crate::expr::value_of(
        same_as(modulo(here(slot), num(2)), num(0)),
        contents,
        i as u64,
    ) == Some(evens(contents.columns[slot as int])[i]) by {
        lemma_evens_at(contents, slot, i as u64);
    }
}

/// Whether something holds of all words of a column.
pub open spec fn all(words: Seq<u64>, fine: spec_fn(u64) -> bool) -> bool {
    forall|i: int| 0 <= i < words.len() ==> fine(#[trigger] words[i])
}

/// Looking for words below five hundred, outside of a range, and for odd ones.
#[verifier::spinoff_prover]
#[verifier::rlimit(50)]
proof fn lemma_word_faults(contents: Contents, slot: u64, i: u64)
    requires
        slot < contents.columns.len(),
        i < contents.columns[slot as int].len(),
    ensures
        crate::expr::value_of(lt(here(slot), num(500)), contents, i) == Some(0u64) <==> higher(
            contents.columns[slot as int][i as int],
        ),
        crate::expr::value_of(
            or(lt(here(slot), num(500)), not(lt(here(slot), num(800)))),
            contents,
            i,
        ) == Some(0u64) <==> between(contents.columns[slot as int][i as int]),
        crate::expr::value_of(differs(modulo(here(slot), num(2)), num(0)), contents, i) == Some(
            0u64,
        ) <==> even(contents.columns[slot as int][i as int]),
{
    reveal_with_fuel(crate::expr::value_of, 5);
}

/// Looking for words below five hundred, outside of a range, and for odd ones, at every place.
proof fn lemma_words_faults(contents: Contents, slot: u64)
    requires
        slot < contents.columns.len(),
        contents.columns[slot as int].len() <= u64::MAX,
    ensures
        forall|i: int|
            0 <= i < contents.columns[slot as int].len() ==> (#[trigger] crate::expr::value_of(
                lt(here(slot), num(500)),
                contents,
                i as u64,
            ) == Some(0u64) <==> higher(contents.columns[slot as int][i])),
        forall|i: int|
            0 <= i < contents.columns[slot as int].len() ==> (#[trigger] crate::expr::value_of(
                or(lt(here(slot), num(500)), not(lt(here(slot), num(800)))),
                contents,
                i as u64,
            ) == Some(0u64) <==> between(contents.columns[slot as int][i])),
        forall|i: int|
            0 <= i < contents.columns[slot as int].len() ==> (#[trigger] crate::expr::value_of(
                differs(modulo(here(slot), num(2)), num(0)),
                contents,
                i as u64,
            ) == Some(0u64) <==> even(contents.columns[slot as int][i])),
{
    assert forall|i: int|
        0 <= i < contents.columns[slot as int].len() implies (#[trigger] crate::expr::value_of(
        lt(here(slot), num(500)),
        contents,
        i as u64,
    ) == Some(0u64) <==> higher(contents.columns[slot as int][i])) by {
        lemma_word_faults(contents, slot, i as u64);
    }
    assert forall|i: int|
        0 <= i < contents.columns[slot as int].len() implies (#[trigger] crate::expr::value_of(
        or(lt(here(slot), num(500)), not(lt(here(slot), num(800)))),
        contents,
        i as u64,
    ) == Some(0u64) <==> between(contents.columns[slot as int][i])) by {
        lemma_word_faults(contents, slot, i as u64);
    }
    assert forall|i: int|
        0 <= i < contents.columns[slot as int].len() implies (#[trigger] crate::expr::value_of(
        differs(modulo(here(slot), num(2)), num(0)),
        contents,
        i as u64,
    ) == Some(0u64) <==> even(contents.columns[slot as int][i])) by {
        lemma_word_faults(contents, slot, i as u64);
    }
}

/// The first `n` numbers of a linear scatter below `limit`.
pub open spec fn linear(factor: u64, offset: u64, limit: u64, n: u64) -> Seq<u64> {
    Seq::new(n as nat, |i: int| ((i * factor + offset) % (limit as int)) as u64)
}

/// The words of the scatters of the tests.
proof fn lemma_linear_at(contents: Contents, i: u64)
    requires
        i < 50000,
    ensures
        crate::expr::value_of(
            modulo(plus(times(ix(), num(7)), num(13)), num(1000)),
            contents,
            i,
        ) == Some(((i * 7 + 13) % 1000) as u64),
        crate::expr::value_of(
            modulo(plus(times(ix(), num(17)), num(13)), num(1000)),
            contents,
            i,
        ) == Some(((i * 17 + 13) % 1000) as u64),
        crate::expr::value_of(modulo(times(ix(), num(31337)), num(1000000)), contents, i) == Some(
            ((i * 31337) % 1000000) as u64,
        ),
{
    reveal_with_fuel(crate::expr::value_of, 4);
}

/// The words of the first scatter.
proof fn lemma_sevens(contents: Contents)
    ensures
        forall|i: int|
            0 <= i < 10000 ==> #[trigger] crate::expr::value_of(
                modulo(plus(times(ix(), num(7)), num(13)), num(1000)),
                contents,
                i as u64,
            ) == Some(linear(7, 13, 1000, 10000)[i]),
{
    assert forall|i: int| 0 <= i < 10000 implies #[trigger] crate::expr::value_of(
        modulo(plus(times(ix(), num(7)), num(13)), num(1000)),
        contents,
        i as u64,
    ) == Some(linear(7, 13, 1000, 10000)[i]) by {
        lemma_linear_at(contents, i as u64);
    }
}

/// The words of the second scatter.
proof fn lemma_seventeens(contents: Contents)
    ensures
        forall|i: int|
            0 <= i < 10000 ==> #[trigger] crate::expr::value_of(
                modulo(plus(times(ix(), num(17)), num(13)), num(1000)),
                contents,
                i as u64,
            ) == Some(linear(17, 13, 1000, 10000)[i]),
{
    assert forall|i: int| 0 <= i < 10000 implies #[trigger] crate::expr::value_of(
        modulo(plus(times(ix(), num(17)), num(13)), num(1000)),
        contents,
        i as u64,
    ) == Some(linear(17, 13, 1000, 10000)[i]) by {
        lemma_linear_at(contents, i as u64);
    }
}

/// The words of the third scatter.
proof fn lemma_strides(contents: Contents)
    ensures
        forall|i: int|
            0 <= i < 50000 ==> #[trigger] crate::expr::value_of(
                modulo(times(ix(), num(31337)), num(1000000)),
                contents,
                i as u64,
            ) == Some(linear(31337, 0, 1000000, 50000)[i]),
{
    assert forall|i: int| 0 <= i < 50000 implies #[trigger] crate::expr::value_of(
        modulo(times(ix(), num(31337)), num(1000000)),
        contents,
        i as u64,
    ) == Some(linear(31337, 0, 1000000, 50000)[i]) by {
        lemma_linear_at(contents, i as u64);
    }
}

/// Keeping the words of the first column that a mask of it marks.
proof fn lemma_kept(contents: Contents, keep: Expr, mask: Seq<u64>)
    requires
        contents.full(),
        contents.columns[0].len() <= u64::MAX,
        mask.len() == contents.columns[0].len(),
        forall|i: int|
            0 <= i < mask.len() ==> #[trigger] crate::expr::value_of(keep, contents, i as u64)
                == Some(mask[i]),
    ensures
        crate::machine::selected(keep, here(0), contents, mask.len()) == Some(
            crate::laws::predicates::picked(contents.columns[0], mask, mask.len()),
        ),
{
    let words = contents.columns[0];
    assert forall|i: int| 0 <= i < words.len() implies #[trigger] crate::expr::value_of(
        here(0),
        contents,
        i as u64,
    ) == Some(words[i]) by {
        crate::laws::steps::lemma_here(contents, 0, i as u64);
    }
    crate::laws::predicates::lemma_picked(keep, here(0), contents, words, mask, mask.len());
}

/// Whether the length of a column is not the expected one.
proof fn lemma_length(contents: Contents, slot: u64, expected: u64)
    requires
        slot < contents.columns.len(),
        contents.columns[slot as int].len() <= u64::MAX,
    ensures
        crate::expr::value_of(differs(len(slot), num(expected)), contents, 0) == Some(
            crate::expr::truth(contents.columns[slot as int].len() != expected),
        ),
{
    crate::laws::steps::lemma_differs(len(slot), num(expected), contents, 0);
}

/// Whether the answers to the downloads of the test are columns or refusals.
pub open spec fn accessed_shaped(answers: Seq<Answer>) -> bool {
    &&& answers.len() >= 10
    &&& crate::laws::steps::column_or_refusal(answers[4])
    &&& crate::laws::steps::column_or_refusal(answers[5])
    &&& crate::laws::steps::column_or_refusal(answers[6])
    &&& crate::laws::steps::column_or_refusal(answers[8])
}

/// What the device has to answer.
pub open spec fn accessed_answers(answers: Seq<Answer>) -> bool {
    &&& !(answers[0] is Failed)
    &&& !(answers[1] is Failed)
    &&& !(answers[2] is Failed)
    &&& !(answers[3] is Failed)
    &&& answers[4] is Words
    &&& answers[5] is Words
    &&& answers[4]->Words_0 == answers[5]->Words_0
    &&& answers[4]->Words_0 == crate::columns::sorted(Scalar::U32, linear(7, 13, 1000, 10000))
    &&& answers[6] is Words
    &&& answers[6]->Words_0 == crate::laws::predicates::picked(
        linear(7, 13, 1000, 10000),
        lowers(linear(7, 13, 1000, 10000)),
        10000,
    )
    &&& !(answers[7] is Failed)
    &&& answers[8] is Words
    &&& answers[8]->Words_0 == crate::columns::sorted(Scalar::U32, linear(7, 13, 1000, 10000))
    &&& !(answers[9] is Failed)
}

/// The steps of the test.
proof fn lemma_accessed_answers(contents: Contents, answers: Seq<Answer>)
    requires
        contents.full(),
        accessed_shaped(answers),
    ensures
        match crate::walk::walked(
            crate::categories::c05_global_memory::repeated_access_steps(),
            0,
            18,
            contents,
            answers,
            0,
        ) {
            Some((after, next)) => {
                &&& accessed_answers(answers)
                &&& after.full()
                &&& next == 10
            },
            None => !accessed_answers(answers),
        },
        crate::categories::c05_global_memory::repeated_access_steps().len() == 18,
{
    let steps = crate::categories::c05_global_memory::repeated_access_steps();
    lemma_sevens(contents);
    let words1 = linear(7, 13, 1000, 10000);
    crate::laws::steps::lemma_fill(steps, 0, 18, contents, answers, 0, words1);
    let next1 = contents.with_column(0, words1);
    crate::laws::steps::lemma_command(steps, 1, 18, next1, answers, 0);
    crate::laws::steps::lemma_command(steps, 2, 18, next1, answers, 1);
    crate::laws::steps::lemma_command(steps, 3, 18, next1, answers, 2);
    lemma_lowers(next1, 0);
    let words2 = lowers(linear(7, 13, 1000, 10000));
    crate::laws::steps::lemma_fill(steps, 4, 18, next1, answers, 3, words2);
    let next2 = next1.with_column(1, words2);
    crate::laws::steps::lemma_command(steps, 5, 18, next2, answers, 3);
    crate::laws::steps::lemma_download(steps, 6, 18, next2, answers, 4);
    if answers[4] is Words {
        let next3 = next2.with_column(2, answers[4]->Words_0);
        crate::laws::steps::lemma_download(steps, 7, 18, next3, answers, 5);
        if answers[5] is Words {
            let next4 = next3.with_column(3, answers[5]->Words_0);
            crate::laws::steps::lemma_not_alike(next4, 2, 3);
            crate::laws::steps::lemma_check(
                steps,
                8,
                18,
                next4,
                answers,
                6,
                !(answers[4]->Words_0 == answers[5]->Words_0),
            );
            crate::laws::steps::lemma_sort_column(steps, 9, 18, next4, answers, 6);
            let next5 = next4.with_column(
                4,
                crate::columns::sorted(Scalar::U32, linear(7, 13, 1000, 10000)),
            );
            crate::laws::steps::lemma_not_alike(next5, 2, 4);
            crate::laws::steps::lemma_check(
                steps,
                10,
                18,
                next5,
                answers,
                6,
                !(
                    answers[4]->Words_0 == crate::columns::sorted(
                        Scalar::U32,
                        linear(7, 13, 1000, 10000),
                    )
                ),
            );
            crate::laws::steps::lemma_download(steps, 11, 18, next5, answers, 6);
            if answers[6] is Words {
                let next6 = next5.with_column(5, answers[6]->Words_0);
                lemma_lowers(next6, 0);
                lemma_kept(next6, lt(here(0), num(500)), lowers(linear(7, 13, 1000, 10000)));
                crate::laws::steps::lemma_select(
                    steps,
                    12,
                    18,
                    next6,
                    answers,
                    7,
                    10000,
                    crate::laws::predicates::picked(
                        linear(7, 13, 1000, 10000),
                        lowers(linear(7, 13, 1000, 10000)),
                        10000,
                    ),
                );
                let next7 = next6.with_column(
                    6,
                    crate::laws::predicates::picked(
                        linear(7, 13, 1000, 10000),
                        lowers(linear(7, 13, 1000, 10000)),
                        10000,
                    ),
                );
                crate::laws::steps::lemma_not_alike(next7, 5, 6);
                crate::laws::steps::lemma_check(
                    steps,
                    13,
                    18,
                    next7,
                    answers,
                    7,
                    !(
                        answers[6]->Words_0 == crate::laws::predicates::picked(
                            linear(7, 13, 1000, 10000),
                            lowers(linear(7, 13, 1000, 10000)),
                            10000,
                        )
                    ),
                );
                crate::laws::steps::lemma_command(steps, 14, 18, next7, answers, 7);
                crate::laws::steps::lemma_download(steps, 15, 18, next7, answers, 8);
                if answers[8] is Words {
                    let next8 = next7.with_column(7, answers[8]->Words_0);
                    crate::laws::steps::lemma_not_alike(next8, 7, 4);
                    crate::laws::steps::lemma_check(
                        steps,
                        16,
                        18,
                        next8,
                        answers,
                        9,
                        !(
                            answers[8]->Words_0 == crate::columns::sorted(
                                Scalar::U32,
                                linear(7, 13, 1000, 10000),
                            )
                        ),
                    );
                    crate::laws::steps::lemma_command(steps, 17, 18, next8, answers, 9);
                    crate::laws::steps::lemma_end(steps, 18, next8, answers, 10);
                }
            }
        }
    }
}

/// The test has no jumps.
proof fn lemma_accessed_straight()
    ensures
        forall|j: int|
            0 <= j < crate::categories::c05_global_memory::repeated_access_steps().len()
                ==> crate::walk::straight(
                #[trigger] crate::categories::c05_global_memory::repeated_access_steps()[j],
            ),
{
}

/// The test that uses a column again and again passes exactly when three sorts hand out the sorted
/// column, and a filter the words below five hundred, in order.
pub proof fn law_repeated_access_passes_exactly_when_results_agree(answers: Seq<Answer>)
    requires
        accessed_shaped(answers),
    ensures
        crate::machine::run_of(
            crate::script::plan(
                "test_repeated_access",
                crate::categories::c05_global_memory::repeated_access_steps(),
            ),
            answers,
        ).progress == Progress::Over(Ending::Passed) <==> accessed_answers(answers),
{
    let plan = crate::script::plan(
        "test_repeated_access",
        crate::categories::c05_global_memory::repeated_access_steps(),
    );
    let blank = Contents::blank(plan.texts);
    lemma_accessed_answers(blank, answers);
    lemma_accessed_straight();
    crate::walk::law_passes_exactly_when_every_step_goes_through(plan, answers);
}

/// Whether the answers to the downloads of the test are columns or refusals.
pub open spec fn dependent_shaped(answers: Seq<Answer>) -> bool {
    &&& answers.len() >= 12
    &&& crate::laws::steps::column_or_refusal(answers[2])
    &&& crate::laws::steps::column_or_refusal(answers[4])
    &&& crate::laws::steps::column_or_refusal(answers[6])
    &&& crate::laws::steps::column_or_refusal(answers[8])
    &&& crate::laws::steps::column_or_refusal(answers[10])
}

/// What the device has to answer.
pub open spec fn dependent_answers(answers: Seq<Answer>) -> bool {
    &&& !(answers[0] is Failed)
    &&& !(answers[1] is Failed)
    &&& answers[2] is Words
    &&& crate::laws::steps::rises(answers[2]->Words_0)
    &&& !(answers[3] is Failed)
    &&& answers[4] is Words
    &&& all(answers[4]->Words_0, |word: u64| higher(word))
    &&& !(answers[5] is Failed)
    &&& answers[6] is Words
    &&& !(answers[7] is Failed)
    &&& answers[8] is Words
    &&& all(answers[8]->Words_0, |word: u64| between(word))
    &&& !(answers[9] is Failed)
    &&& answers[10] is Words
    &&& crate::laws::steps::rises(answers[10]->Words_0)
    &&& answers[10]->Words_0 == crate::columns::sorted(
        Scalar::U32,
        crate::laws::predicates::picked(
            linear(17, 13, 1000, 10000),
            betweens(linear(17, 13, 1000, 10000)),
            10000,
        ),
    )
    &&& !(answers[11] is Failed)
}

/// The steps of the test.
proof fn lemma_dependent_answers(contents: Contents, answers: Seq<Answer>)
    requires
        contents.full(),
        dependent_shaped(answers),
    ensures
        match crate::walk::walked(
            crate::categories::c16_async_pipeline::operation_dependencies_steps(),
            0,
            22,
            contents,
            answers,
            0,
        ) {
            Some((after, next)) => {
                &&& dependent_answers(answers)
                &&& after.full()
                &&& next == 12
            },
            None => !dependent_answers(answers),
        },
        crate::categories::c16_async_pipeline::operation_dependencies_steps().len() == 22,
{
    let steps = crate::categories::c16_async_pipeline::operation_dependencies_steps();
    lemma_seventeens(contents);
    let words1 = linear(17, 13, 1000, 10000);
    crate::laws::steps::lemma_fill(steps, 0, 22, contents, answers, 0, words1);
    let next1 = contents.with_column(0, words1);
    crate::laws::steps::lemma_command(steps, 1, 22, next1, answers, 0);
    crate::laws::steps::lemma_command(steps, 2, 22, next1, answers, 1);
    crate::laws::steps::lemma_download(steps, 3, 22, next1, answers, 2);
    if answers[2] is Words {
        let next2 = next1.with_column(1, answers[2]->Words_0);
        crate::laws::steps::lemma_scan_order(steps, 4, 22, next2, answers, 3, 1);
        lemma_highers(next2, 1);
        let words3 = highers(answers[2]->Words_0);
        crate::laws::steps::lemma_fill(steps, 5, 22, next2, answers, 3, words3);
        let next3 = next2.with_column(2, words3);
        crate::laws::steps::lemma_command(steps, 6, 22, next3, answers, 3);
        crate::laws::steps::lemma_download(steps, 7, 22, next3, answers, 4);
        if answers[4] is Words {
            let next4 = next3.with_column(3, answers[4]->Words_0);
            lemma_words_faults(next4, 3);
            crate::laws::steps::lemma_scan_words(
                steps,
                8,
                22,
                next4,
                answers,
                5,
                3,
                lt(here(3), num(500)),
                |word: u64| higher(word),
            );
            crate::laws::steps::lemma_command(steps, 9, 22, next4, answers, 5);
            crate::laws::steps::lemma_download(steps, 10, 22, next4, answers, 6);
            if answers[6] is Words {
                let next5 = next4.with_column(4, answers[6]->Words_0);
                lemma_boundeds(next5, 4);
                let words6 = boundeds(answers[6]->Words_0);
                crate::laws::steps::lemma_fill(steps, 11, 22, next5, answers, 7, words6);
                let next6 = next5.with_column(5, words6);
                crate::laws::steps::lemma_command(steps, 12, 22, next6, answers, 7);
                crate::laws::steps::lemma_download(steps, 13, 22, next6, answers, 8);
                if answers[8] is Words {
                    let next7 = next6.with_column(6, answers[8]->Words_0);
                    lemma_words_faults(next7, 6);
                    crate::laws::steps::lemma_scan_words(
                        steps,
                        14,
                        22,
                        next7,
                        answers,
                        9,
                        6,
                        or(lt(here(6), num(500)), not(lt(here(6), num(800)))),
                        |word: u64| between(word),
                    );
                    crate::laws::steps::lemma_command(steps, 15, 22, next7, answers, 9);
                    crate::laws::steps::lemma_download(steps, 16, 22, next7, answers, 10);
                    if answers[10] is Words {
                        let next8 = next7.with_column(7, answers[10]->Words_0);
                        crate::laws::steps::lemma_scan_order(steps, 17, 22, next8, answers, 11, 7);
                        lemma_betweens(next8, 0);
                        lemma_kept(
                            next8,
                            and(not(lt(here(0), num(500))), lt(here(0), num(800))),
                            betweens(linear(17, 13, 1000, 10000)),
                        );
                        crate::laws::steps::lemma_select(
                            steps,
                            18,
                            22,
                            next8,
                            answers,
                            11,
                            10000,
                            crate::laws::predicates::picked(
                                linear(17, 13, 1000, 10000),
                                betweens(linear(17, 13, 1000, 10000)),
                                10000,
                            ),
                        );
                        let next9 = next8.with_column(
                            8,
                            crate::laws::predicates::picked(
                                linear(17, 13, 1000, 10000),
                                betweens(linear(17, 13, 1000, 10000)),
                                10000,
                            ),
                        );
                        crate::laws::steps::lemma_sort_column(steps, 19, 22, next9, answers, 11);
                        let next10 = next9.with_column(
                            9,
                            crate::columns::sorted(
                                Scalar::U32,
                                crate::laws::predicates::picked(
                                    linear(17, 13, 1000, 10000),
                                    betweens(linear(17, 13, 1000, 10000)),
                                    10000,
                                ),
                            ),
                        );
                        crate::laws::steps::lemma_not_alike(next10, 7, 9);
                        crate::laws::steps::lemma_check(
                            steps,
                            20,
                            22,
                            next10,
                            answers,
                            11,
                            !(
                                answers[10]->Words_0 == crate::columns::sorted(
                                    Scalar::U32,
                                    crate::laws::predicates::picked(
                                        linear(17, 13, 1000, 10000),
                                        betweens(linear(17, 13, 1000, 10000)),
                                        10000,
                                    ),
                                )
                            ),
                        );
                        crate::laws::steps::lemma_command(steps, 21, 22, next10, answers, 11);
                        crate::laws::steps::lemma_end(steps, 22, next10, answers, 12);
                    }
                }
            }
        }
    }
}

/// The test has no jumps.
proof fn lemma_dependent_straight()
    ensures
        forall|j: int|
            0 <= j < crate::categories::c16_async_pipeline::operation_dependencies_steps().len()
                ==> crate::walk::straight(
                #[trigger] crate::categories::c16_async_pipeline::operation_dependencies_steps()[j],
            ),
{
}

/// The test of dependent operations passes exactly when each sort comes back in rising order, each
/// filter keeps words of its range only, and the last result is the sorted column of the words from
/// five hundred on and below eight hundred.
pub proof fn law_dependencies_pass_exactly_when_each_result_is_right(answers: Seq<Answer>)
    requires
        dependent_shaped(answers),
    ensures
        crate::machine::run_of(
            crate::script::plan(
                "test_operation_dependencies",
                crate::categories::c16_async_pipeline::operation_dependencies_steps(),
            ),
            answers,
        ).progress == Progress::Over(Ending::Passed) <==> dependent_answers(answers),
{
    let plan = crate::script::plan(
        "test_operation_dependencies",
        crate::categories::c16_async_pipeline::operation_dependencies_steps(),
    );
    let blank = Contents::blank(plan.texts);
    lemma_dependent_answers(blank, answers);
    lemma_dependent_straight();
    crate::walk::law_passes_exactly_when_every_step_goes_through(plan, answers);
}

/// Whether the answers to the downloads of the test are columns or refusals.
pub open spec fn synced_shaped(answers: Seq<Answer>) -> bool {
    &&& answers.len() >= 14
    &&& crate::laws::steps::column_or_refusal(answers[3])
    &&& crate::laws::steps::column_or_refusal(answers[6])
    &&& crate::laws::steps::column_or_refusal(answers[11])
    &&& crate::laws::steps::column_or_refusal(answers[12])
}

/// What the device has to answer.
pub open spec fn synced_answers(answers: Seq<Answer>) -> bool {
    &&& !(answers[0] is Failed)
    &&& !(answers[1] is Failed)
    &&& !(answers[2] is Failed)
    &&& answers[3] is Words
    &&& crate::laws::steps::rises(answers[3]->Words_0)
    &&& !(answers[4] is Failed)
    &&& !(answers[5] is Failed)
    &&& answers[6] is Words
    &&& all(answers[6]->Words_0, |word: u64| even(word))
    &&& !(answers[7] is Failed)
    &&& !(answers[8] is Failed)
    &&& !(answers[9] is Failed)
    &&& !(answers[10] is Failed)
    &&& answers[11] is Words
    &&& answers[12] is Words
    &&& answers[11]->Words_0.len() == 1000
    &&& answers[12]->Words_0.len() == 1000
    &&& !(answers[13] is Failed)
}

/// The steps of the test.
proof fn lemma_synced_answers(contents: Contents, answers: Seq<Answer>)
    requires
        contents.full(),
        synced_shaped(answers),
    ensures
        match crate::walk::walked(
            crate::categories::c16_async_pipeline::sync_between_operations_steps(),
            0,
            22,
            contents,
            answers,
            0,
        ) {
            Some((after, next)) => {
                &&& synced_answers(answers)
                &&& after.full()
                &&& next == 14
            },
            None => !synced_answers(answers),
        },
        crate::categories::c16_async_pipeline::sync_between_operations_steps().len() == 22,
{
    let steps = crate::categories::c16_async_pipeline::sync_between_operations_steps();
    lemma_strides(contents);
    let words1 = linear(31337, 0, 1000000, 50000);
    crate::laws::steps::lemma_fill(steps, 0, 22, contents, answers, 0, words1);
    let next1 = contents.with_column(0, words1);
    crate::laws::steps::lemma_command(steps, 1, 22, next1, answers, 0);
    crate::laws::steps::lemma_command(steps, 2, 22, next1, answers, 1);
    crate::laws::steps::lemma_command(steps, 3, 22, next1, answers, 2);
    crate::laws::steps::lemma_download(steps, 4, 22, next1, answers, 3);
    if answers[3] is Words {
        let next2 = next1.with_column(1, answers[3]->Words_0);
        crate::laws::steps::lemma_scan_order(steps, 5, 22, next2, answers, 4, 1);
        lemma_evens(next2, 1);
        let words3 = evens(answers[3]->Words_0);
        crate::laws::steps::lemma_fill(steps, 6, 22, next2, answers, 4, words3);
        let next3 = next2.with_column(2, words3);
        crate::laws::steps::lemma_command(steps, 7, 22, next3, answers, 4);
        crate::laws::steps::lemma_command(steps, 8, 22, next3, answers, 5);
        crate::laws::steps::lemma_download(steps, 9, 22, next3, answers, 6);
        if answers[6] is Words {
            let next4 = next3.with_column(3, answers[6]->Words_0);
            lemma_words_faults(next4, 3);
            crate::laws::steps::lemma_scan_words(
                steps,
                10,
                22,
                next4,
                answers,
                7,
                3,
                differs(modulo(here(3), num(2)), num(0)),
                |word: u64| even(word),
            );
            crate::laws::words::lemma_below(1000, next4);
            let words5 = crate::laws::words::below(1000);
            crate::laws::steps::lemma_fill(steps, 11, 22, next4, answers, 7, words5);
            let next5 = next4.with_column(4, words5);
            crate::laws::words::lemma_scaled(4, 10, next5);
            let words6 = crate::laws::words::scaled(crate::laws::words::below(1000), 10);
            crate::laws::steps::lemma_fill(steps, 12, 22, next5, answers, 7, words6);
            let next6 = next5.with_column(5, words6);
            crate::laws::steps::lemma_command(steps, 13, 22, next6, answers, 7);
            crate::laws::steps::lemma_command(steps, 14, 22, next6, answers, 8);
            crate::laws::steps::lemma_command(steps, 15, 22, next6, answers, 9);
            crate::laws::steps::lemma_command(steps, 16, 22, next6, answers, 10);
            crate::laws::steps::lemma_download(steps, 17, 22, next6, answers, 11);
            if answers[11] is Words {
                let next7 = next6.with_column(6, answers[11]->Words_0);
                crate::laws::steps::lemma_download(steps, 18, 22, next7, answers, 12);
                if answers[12] is Words {
                    let next8 = next7.with_column(7, answers[12]->Words_0);
                    lemma_length(next8, 6, 1000);
                    crate::laws::steps::lemma_check(
                        steps,
                        19,
                        22,
                        next8,
                        answers,
                        13,
                        !(answers[11]->Words_0.len() == 1000),
                    );
                    lemma_length(next8, 7, 1000);
                    crate::laws::steps::lemma_check(
                        steps,
                        20,
                        22,
                        next8,
                        answers,
                        13,
                        !(answers[12]->Words_0.len() == 1000),
                    );
                    crate::laws::steps::lemma_command(steps, 21, 22, next8, answers, 13);
                    crate::laws::steps::lemma_end(steps, 22, next8, answers, 14);
                }
            }
        }
    }
}

/// The test has no jumps.
proof fn lemma_synced_straight()
    ensures
        forall|j: int|
            0 <= j < crate::categories::c16_async_pipeline::sync_between_operations_steps().len()
                ==> crate::walk::straight(
                #[trigger] crate::categories::c16_async_pipeline::sync_between_operations_steps()[j],
            ),
{
}

/// The test of operations with a sync between them passes exactly when the sorted column comes back
/// in rising order, the filter keeps even words only, and a sort and a removal of duplicates both
/// hand out a thousand keys.
pub proof fn law_synced_operations_pass_exactly_when_each_result_is_right(answers: Seq<Answer>)
    requires
        synced_shaped(answers),
    ensures
        crate::machine::run_of(
            crate::script::plan(
                "test_sync_between_operations",
                crate::categories::c16_async_pipeline::sync_between_operations_steps(),
            ),
            answers,
        ).progress == Progress::Over(Ending::Passed) <==> synced_answers(answers),
{
    let plan = crate::script::plan(
        "test_sync_between_operations",
        crate::categories::c16_async_pipeline::sync_between_operations_steps(),
    );
    let blank = Contents::blank(plan.texts);
    lemma_synced_answers(blank, answers);
    lemma_synced_straight();
    crate::walk::law_passes_exactly_when_every_step_goes_through(plan, answers);
}

} // verus!
