//! The laws of the tests that sort and filter the same column over and over.

use vstd::prelude::*;
use crate::expr::{differs, ix, len, lt, modulo, num, plus, same_as, sum_of, times};
use crate::machine::{Answer, Ending, Progress};
use crate::memory::Contents;

verus! {

/// The mask that marks three rows of every ten.
pub open spec fn three_in_ten() -> Seq<u64> {
    Seq::new(10000, |i: int| crate::expr::truth((i * 7 + 3) % 10 < 3))
}

/// One of the words of [`three_in_ten`].
#[verifier::spinoff_prover]
#[verifier::rlimit(50)]
proof fn lemma_three_in_ten_at(contents: Contents, i: u64)
    requires
        i < 10000,
    ensures
        crate::expr::value_of(
            lt(modulo(plus(times(ix(), num(7)), num(3)), num(10)), num(3)),
            contents,
            i,
        ) == Some(three_in_ten()[i as int]),
{
    reveal_with_fuel(crate::expr::value_of, 6);
}

/// The words of [`three_in_ten`].
proof fn lemma_three_in_ten(contents: Contents)
    ensures
        forall|i: int|
            0 <= i < 10000 ==> #[trigger] crate::expr::value_of(
                lt(modulo(plus(times(ix(), num(7)), num(3)), num(10)), num(3)),
                contents,
                i as u64,
            ) == Some(three_in_ten()[i]),
{
    assert forall|i: int| 0 <= i < 10000 implies #[trigger] crate::expr::value_of(
        lt(modulo(plus(times(ix(), num(7)), num(3)), num(10)), num(3)),
        contents,
        i as u64,
    ) == Some(three_in_ten()[i]) by {
        lemma_three_in_ten_at(contents, i as u64);
    }
}

/// Whether a column does not have as many words as a mask marks.
pub proof fn lemma_as_many(contents: Contents, slot: u64, mask: u64)
    requires
        slot < contents.columns.len(),
        mask < contents.columns.len(),
        contents.columns[slot as int].len() <= u64::MAX,
        contents.columns[mask as int].len() <= u64::MAX,
        forall|i: int|
            0 <= i < contents.columns[mask as int].len() ==> contents.columns[mask as int][i] <= 1,
    ensures
        crate::expr::value_of(differs(len(slot), sum_of(mask)), contents, 0) == Some(
            crate::expr::truth(
                contents.columns[slot as int].len() != crate::columns::total(
                    contents.columns[mask as int],
                ),
            ),
        ),
{
    crate::laws::lanes::lemma_mask_sum(contents, mask);
    crate::laws::steps::lemma_differs(len(slot), sum_of(mask), contents, 0);
}

/// Whether the answers to the downloads of the test are columns or refusals.
pub open spec fn resorted_shaped(answers: Seq<Answer>) -> bool {
    &&& answers.len() >= 19
    &&& crate::laws::steps::column_or_refusal(answers[2])
    &&& forall|k: int|
        0 <= k < 4 ==> crate::laws::steps::column_or_refusal(#[trigger] answers[4 + 3 * k])
    &&& crate::laws::steps::column_or_refusal(answers[17])
}

/// What the device has to answer in the part `first`.
pub open spec fn resorted_first(answers: Seq<Answer>) -> bool {
    &&& !(answers[0] is Failed)
    &&& !(answers[1] is Failed)
    &&& answers[2] is Words
    &&& crate::laws::steps::rises(answers[2]->Words_0)
}

/// What the device has to answer in round `k` of the part `repeats`, from answer `used` on.
pub open spec fn resorted_repeats(k: int, answers: Seq<Answer>, used: int) -> bool {
    &&& !(answers[used] is Failed)
    &&& answers[used + 1] is Words
    &&& answers[used + 1]->Words_0.len() == answers[2]->Words_0.len()
    &&& crate::laws::steps::agree(answers[2]->Words_0, answers[used + 1]->Words_0)
}

/// What the device has to answer in the part `end`.
pub open spec fn resorted_end(answers: Seq<Answer>) -> bool {
    &&& !(answers[15] is Failed)
    &&& !(answers[16] is Failed)
    &&& answers[17] is Words
    &&& answers[17]->Words_0 == answers[2]->Words_0
    &&& !(answers[18] is Failed)
}

/// The part `first`.
proof fn lemma_resorted_first(contents: Contents, answers: Seq<Answer>)
    requires
        contents.full(),
        resorted_shaped(answers),
    ensures
        match crate::walk::walked(
            crate::categories::c15_determinism::sort_reproducibility_first_steps(),
            0,
            5,
            contents,
            answers,
            0,
        ) {
            Some((after, next)) => {
                &&& resorted_first(answers)
                &&& after.full()
                &&& next == 3
                &&& after.columns[0] == crate::laws::words::scattered(1000000, 10000)
                &&& after.columns[1] == answers[2]->Words_0
                &&& answers[2] is Words
            },
            None => !resorted_first(answers),
        },
        crate::categories::c15_determinism::sort_reproducibility_first_steps().len() == 5,
{
    let steps = crate::categories::c15_determinism::sort_reproducibility_first_steps();
    crate::laws::words::lemma_scattered(1000000, 10000, contents);
    let words1 = crate::laws::words::scattered(1000000, 10000);
    crate::laws::steps::lemma_fill(steps, 0, 5, contents, answers, 0, words1);
    let next1 = contents.with_column(0, words1);
    crate::laws::steps::lemma_command(steps, 1, 5, next1, answers, 0);
    crate::laws::steps::lemma_command(steps, 2, 5, next1, answers, 1);
    crate::laws::steps::lemma_download(steps, 3, 5, next1, answers, 2);
    if answers[2] is Words {
        let next2 = next1.with_column(1, answers[2]->Words_0);
        crate::laws::steps::lemma_scan_order(steps, 4, 5, next2, answers, 3, 1);
        crate::laws::steps::lemma_end(steps, 5, next2, answers, 3);
    }
}

/// One round of the part `repeats`.
proof fn lemma_resorted_repeats(k: int, contents: Contents, answers: Seq<Answer>, used: int)
    requires
        0 <= k < 4,
        used == 3 + 3 * k,
        contents.full(),
        resorted_shaped(answers),
        contents.columns[0] == crate::laws::words::scattered(1000000, 10000),
        contents.columns[1] == answers[2]->Words_0,
        answers[2] is Words,
    ensures
        match crate::walk::walked(
            crate::categories::c15_determinism::sort_reproducibility_repeats_round(k as u64),
            0,
            5,
            contents,
            answers,
            used,
        ) {
            Some((after, next)) => {
                &&& resorted_repeats(k, answers, used)
                &&& after.full()
                &&& next == 3 + 3 * (k + 1)
                &&& after.columns[0] == crate::laws::words::scattered(1000000, 10000)
                &&& after.columns[1] == answers[2]->Words_0
                &&& answers[2] is Words
            },
            None => !resorted_repeats(k, answers, used),
        },
        crate::categories::c15_determinism::sort_reproducibility_repeats_round(k as u64).len() == 5,
{
    let steps = crate::categories::c15_determinism::sort_reproducibility_repeats_round(k as u64);
    assert(crate::laws::steps::column_or_refusal(answers[4 + 3 * k]));
    crate::laws::steps::lemma_command(steps, 0, 5, contents, answers, used);
    crate::laws::steps::lemma_download(steps, 1, 5, contents, answers, used + 1);
    if answers[used + 1] is Words {
        let next1 = contents.with_column(2, answers[used + 1]->Words_0);
        crate::laws::steps::lemma_lengths(next1, 1, 2);
        crate::laws::steps::lemma_check(
            steps,
            2,
            5,
            next1,
            answers,
            used + 2,
            !(answers[used + 1]->Words_0.len() == answers[2]->Words_0.len()),
        );
        crate::laws::steps::lemma_scan_differences(steps, 3, 5, next1, answers, used + 2, 1, 2);
        crate::laws::steps::lemma_command(steps, 4, 5, next1, answers, used + 2);
        crate::laws::steps::lemma_end(steps, 5, next1, answers, used + 3);
    }
}

/// All rounds of the part `repeats`.
proof fn lemma_resorted_repeats_rounds(contents: Contents, answers: Seq<Answer>)
    requires
        contents.full(),
        resorted_shaped(answers),
        contents.columns[0] == crate::laws::words::scattered(1000000, 10000),
        contents.columns[1] == answers[2]->Words_0,
        answers[2] is Words,
    ensures
        ({
            let steps = crate::script::rounds(
                4,
                |k: int| crate::categories::c15_determinism::sort_reproducibility_repeats_round(
                    k as u64,
                ),
            );
            match crate::walk::walked(steps, 0, steps.len() as int, contents, answers, 3) {
                Some((after, next)) => {
                    &&& forall|k: int|
                        0 <= k < 4 ==> #[trigger] resorted_repeats(k, answers, 3 + 3 * k)
                    &&& after.full()
                    &&& next == 15
                    &&& after.columns[0] == crate::laws::words::scattered(1000000, 10000)
                    &&& after.columns[1] == answers[2]->Words_0
                    &&& answers[2] is Words
                },
                None => !(forall|k: int|
                    0 <= k < 4 ==> #[trigger] resorted_repeats(k, answers, 3 + 3 * k)),
            }
        }),
{
    let round = |k: int| crate::categories::c15_determinism::sort_reproducibility_repeats_round(
        k as u64,
    );
    let start = |k: int| 3 + 3 * k;
    let good = |k: int| resorted_repeats(k, answers, start(k));
    let kept = |contents: Contents|
        contents.full() && contents.columns[0] == crate::laws::words::scattered(
        1000000,
        10000,
    ) && contents.columns[1] == answers[2]->Words_0 && answers[2] is Words;
    assert forall|k: int, contents: Contents|
        #![trigger good(k), kept(contents)]
        0 <= k < 4 && kept(contents) implies if good(k) {
        crate::walk::goes_to(round(k), contents, answers, start(k), start(k + 1), kept)
    } else {
        crate::walk::walked(round(k), 0, round(k).len() as int, contents, answers, start(k)) is None
    } by {
        lemma_resorted_repeats(k, contents, answers, start(k));
    }
    crate::walk::law_rounds_keep_what_each_keeps(4, round, start, good, kept, contents, answers);
    if forall|k: int| 0 <= k < 4 ==> #[trigger] good(k) {
        assert forall|k: int| 0 <= k < 4 implies #[trigger] resorted_repeats(
            k,
            answers,
            3 + 3 * k,
        ) by {
            assert(good(k));
        }
    } else {
        let k = choose|k: int| 0 <= k < 4 && !(#[trigger] good(k));
        assert(!resorted_repeats(k, answers, 3 + 3 * k));
    }
}

/// The part `end`.
proof fn lemma_resorted_end(contents: Contents, answers: Seq<Answer>)
    requires
        contents.full(),
        resorted_shaped(answers),
        contents.columns[0] == crate::laws::words::scattered(1000000, 10000),
        contents.columns[1] == answers[2]->Words_0,
        answers[2] is Words,
    ensures
        match crate::walk::walked(
            crate::categories::c15_determinism::sort_reproducibility_end_steps(),
            0,
            5,
            contents,
            answers,
            15,
        ) {
            Some((after, next)) => {
                &&& resorted_end(answers)
                &&& after.full()
                &&& next == 19
            },
            None => !resorted_end(answers),
        },
        crate::categories::c15_determinism::sort_reproducibility_end_steps().len() == 5,
{
    let steps = crate::categories::c15_determinism::sort_reproducibility_end_steps();
    crate::laws::steps::lemma_command(steps, 0, 5, contents, answers, 15);
    crate::laws::steps::lemma_command(steps, 1, 5, contents, answers, 16);
    crate::laws::steps::lemma_download(steps, 2, 5, contents, answers, 17);
    if answers[17] is Words {
        let next1 = contents.with_column(2, answers[17]->Words_0);
        crate::laws::steps::lemma_not_alike(next1, 2, 1);
        crate::laws::steps::lemma_check(
            steps,
            3,
            5,
            next1,
            answers,
            18,
            !(answers[17]->Words_0 == answers[2]->Words_0),
        );
        crate::laws::steps::lemma_command(steps, 4, 5, next1, answers, 18);
        crate::laws::steps::lemma_end(steps, 5, next1, answers, 19);
    }
}

/// The test has no jumps.
proof fn lemma_resorted_straight()
    ensures
        forall|j: int|
            0 <= j < crate::categories::c15_determinism::sort_reproducibility_steps().len()
                ==> crate::walk::straight(
                #[trigger] crate::categories::c15_determinism::sort_reproducibility_steps()[j],
            ),
{
    let part1 = crate::categories::c15_determinism::sort_reproducibility_first_steps();
    let part2 = crate::script::rounds(
        4,
        |k: int| crate::categories::c15_determinism::sort_reproducibility_repeats_round(k as u64),
    );
    let round2 = |k: int| crate::categories::c15_determinism::sort_reproducibility_repeats_round(
        k as u64,
    );
    crate::walk::law_straight_rounds_are_straight(4, round2);
    let part3 = crate::categories::c15_determinism::sort_reproducibility_end_steps();
    let whole1 = part1;
    let whole2 = whole1 + part2;
    crate::walk::law_straight_scripts_make_a_straight_one(whole1, part2);
    let whole3 = whole2 + part3;
    crate::walk::law_straight_scripts_make_a_straight_one(whole2, part3);
    assert(crate::categories::c15_determinism::sort_reproducibility_steps() == whole3);
}

/// The test that sorts a column again and again passes exactly when the first result is in rising
/// order, each of four more sorts gives the same result, and so does a sort of a fresh copy.
pub proof fn law_sorting_again_passes_exactly_when_reproduced(answers: Seq<Answer>)
    requires
        resorted_shaped(answers),
    ensures
        crate::machine::run_of(
            crate::script::plan(
                "test_sort_reproducibility",
                crate::categories::c15_determinism::sort_reproducibility_steps(),
            ),
            answers,
        ).progress == Progress::Over(Ending::Passed) <==> {
            &&& resorted_first(answers)
            &&& forall|k: int|
                0 <= k < 4 ==> #[trigger] resorted_repeats(k, answers, 3 + 3 * k)
            &&& resorted_end(answers)
        },
{
    let plan = crate::script::plan(
        "test_sort_reproducibility",
        crate::categories::c15_determinism::sort_reproducibility_steps(),
    );
    let blank = Contents::blank(plan.texts);
    let part1 = crate::categories::c15_determinism::sort_reproducibility_first_steps();
    let part2 = crate::script::rounds(
        4,
        |k: int| crate::categories::c15_determinism::sort_reproducibility_repeats_round(k as u64),
    );
    let part3 = crate::categories::c15_determinism::sort_reproducibility_end_steps();
    let whole1 = part1;
    let whole2 = whole1 + part2;
    let whole3 = whole2 + part3;
    assert(plan.steps == whole3);
    lemma_resorted_first(blank, answers);
    crate::walk::law_walks_over_two_scripts_compose(whole1, part2, blank, answers, 0);
    crate::walk::law_walks_over_two_scripts_compose(whole2, part3, blank, answers, 0);
    match crate::walk::walked(whole1, 0, whole1.len() as int, blank, answers, 0) {
        Some((after, _)) => {
            lemma_resorted_repeats_rounds(after, answers);
            match crate::walk::walked(whole2, 0, whole2.len() as int, blank, answers, 0) {
                Some((after, _)) => {
                    lemma_resorted_end(after, answers);
                },
                None => {},
            }
        },
        None => {},
    }
    lemma_resorted_straight();
    crate::walk::law_passes_exactly_when_every_step_goes_through(plan, answers);
}

/// Whether the answers to the downloads of the test are columns or refusals.
pub open spec fn refiltered_shaped(answers: Seq<Answer>) -> bool {
    &&& answers.len() >= 31
    &&& crate::laws::steps::column_or_refusal(answers[2])
    &&& forall|k: int|
        0 <= k < 4 ==> crate::laws::steps::column_or_refusal(#[trigger] answers[4 + 3 * k])
    &&& crate::laws::steps::column_or_refusal(answers[16])
    &&& crate::laws::steps::column_or_refusal(answers[18])
    &&& crate::laws::steps::column_or_refusal(answers[21])
    &&& crate::laws::steps::column_or_refusal(answers[23])
    &&& crate::laws::steps::column_or_refusal(answers[26])
    &&& crate::laws::steps::column_or_refusal(answers[28])
}

/// What the device has to answer in the part `first`.
pub open spec fn refiltered_first(answers: Seq<Answer>) -> bool {
    &&& !(answers[0] is Failed)
    &&& !(answers[1] is Failed)
    &&& answers[2] is Words
    &&& answers[2]->Words_0.len() == crate::columns::total(three_in_ten())
}

/// What the device has to answer in round `k` of the part `repeats`, from answer `used` on.
pub open spec fn refiltered_repeats(k: int, answers: Seq<Answer>, used: int) -> bool {
    &&& !(answers[used] is Failed)
    &&& answers[used + 1] is Words
    &&& answers[used + 1]->Words_0 == answers[2]->Words_0
}

/// What the device has to answer in the part `tenth`.
pub open spec fn refiltered_tenth(answers: Seq<Answer>) -> bool {
    &&& !(answers[15] is Failed)
    &&& answers[16] is Words
    &&& !(answers[17] is Failed)
    &&& answers[18] is Words
    &&& answers[16]->Words_0 == answers[18]->Words_0
}

/// What the device has to answer in the part `half`.
pub open spec fn refiltered_half(answers: Seq<Answer>) -> bool {
    &&& !(answers[20] is Failed)
    &&& answers[21] is Words
    &&& !(answers[22] is Failed)
    &&& answers[23] is Words
    &&& answers[21]->Words_0 == answers[23]->Words_0
}

/// What the device has to answer in the part `most`.
pub open spec fn refiltered_most(answers: Seq<Answer>) -> bool {
    &&& !(answers[25] is Failed)
    &&& answers[26] is Words
    &&& !(answers[27] is Failed)
    &&& answers[28] is Words
    &&& answers[26]->Words_0 == answers[28]->Words_0
}

/// What the device has to answer in the part `end`.
pub open spec fn refiltered_end(answers: Seq<Answer>) -> bool {
    !(answers[30] is Failed)
}

/// The part `first`.
proof fn lemma_refiltered_first(contents: Contents, answers: Seq<Answer>)
    requires
        contents.full(),
        refiltered_shaped(answers),
    ensures
        match crate::walk::walked(
            crate::categories::c15_determinism::filter_reproducibility_first_steps(),
            0,
            6,
            contents,
            answers,
            0,
        ) {
            Some((after, next)) => {
                &&& refiltered_first(answers)
                &&& after.full()
                &&& next == 3
                &&& after.columns[1] == three_in_ten()
                &&& after.columns[2] == answers[2]->Words_0
                &&& answers[2] is Words
            },
            None => !refiltered_first(answers),
        },
        crate::categories::c15_determinism::filter_reproducibility_first_steps().len() == 6,
{
    let steps = crate::categories::c15_determinism::filter_reproducibility_first_steps();
    crate::laws::words::lemma_below(10000, contents);
    let words1 = crate::laws::words::below(10000);
    crate::laws::steps::lemma_fill(steps, 0, 6, contents, answers, 0, words1);
    let next1 = contents.with_column(0, words1);
    lemma_three_in_ten(next1);
    let words2 = three_in_ten();
    crate::laws::steps::lemma_fill(steps, 1, 6, next1, answers, 0, words2);
    let next2 = next1.with_column(1, words2);
    crate::laws::steps::lemma_command(steps, 2, 6, next2, answers, 0);
    crate::laws::steps::lemma_command(steps, 3, 6, next2, answers, 1);
    crate::laws::steps::lemma_download(steps, 4, 6, next2, answers, 2);
    if answers[2] is Words {
        let next3 = next2.with_column(2, answers[2]->Words_0);
        lemma_as_many(next3, 2, 1);
        crate::laws::steps::lemma_check(
            steps,
            5,
            6,
            next3,
            answers,
            3,
            !(answers[2]->Words_0.len() == crate::columns::total(three_in_ten())),
        );
        crate::laws::steps::lemma_end(steps, 6, next3, answers, 3);
    }
}

/// One round of the part `repeats`.
proof fn lemma_refiltered_repeats(k: int, contents: Contents, answers: Seq<Answer>, used: int)
    requires
        0 <= k < 4,
        used == 3 + 3 * k,
        contents.full(),
        refiltered_shaped(answers),
        contents.columns[1] == three_in_ten(),
        contents.columns[2] == answers[2]->Words_0,
        answers[2] is Words,
    ensures
        match crate::walk::walked(
            crate::categories::c15_determinism::filter_reproducibility_repeats_round(k as u64),
            0,
            4,
            contents,
            answers,
            used,
        ) {
            Some((after, next)) => {
                &&& refiltered_repeats(k, answers, used)
                &&& after.full()
                &&& next == 3 + 3 * (k + 1)
                &&& after.columns[1] == three_in_ten()
                &&& after.columns[2] == answers[2]->Words_0
                &&& answers[2] is Words
            },
            None => !refiltered_repeats(k, answers, used),
        },
        crate::categories::c15_determinism::filter_reproducibility_repeats_round(
            k as u64,
        ).len() == 4,
{
    let steps = crate::categories::c15_determinism::filter_reproducibility_repeats_round(k as u64);
    assert(crate::laws::steps::column_or_refusal(answers[4 + 3 * k]));
    crate::laws::steps::lemma_command(steps, 0, 4, contents, answers, used);
    crate::laws::steps::lemma_download(steps, 1, 4, contents, answers, used + 1);
    if answers[used + 1] is Words {
        let next1 = contents.with_column(3, answers[used + 1]->Words_0);
        crate::laws::steps::lemma_not_alike(next1, 3, 2);
        crate::laws::steps::lemma_check(
            steps,
            2,
            4,
            next1,
            answers,
            used + 2,
            !(answers[used + 1]->Words_0 == answers[2]->Words_0),
        );
        crate::laws::steps::lemma_command(steps, 3, 4, next1, answers, used + 2);
        crate::laws::steps::lemma_end(steps, 4, next1, answers, used + 3);
    }
}

/// All rounds of the part `repeats`.
proof fn lemma_refiltered_repeats_rounds(contents: Contents, answers: Seq<Answer>)
    requires
        contents.full(),
        refiltered_shaped(answers),
        contents.columns[1] == three_in_ten(),
        contents.columns[2] == answers[2]->Words_0,
        answers[2] is Words,
    ensures
        ({
            let steps = crate::script::rounds(
                4,
                |k: int| crate::categories::c15_determinism::filter_reproducibility_repeats_round(
                    k as u64,
                ),
            );
            match crate::walk::walked(steps, 0, steps.len() as int, contents, answers, 3) {
                Some((after, next)) => {
                    &&& forall|k: int|
                        0 <= k < 4 ==> #[trigger] refiltered_repeats(k, answers, 3 + 3 * k)
                    &&& after.full()
                    &&& next == 15
                    &&& after.columns[1] == three_in_ten()
                    &&& after.columns[2] == answers[2]->Words_0
                    &&& answers[2] is Words
                },
                None => !(forall|k: int|
                    0 <= k < 4 ==> #[trigger] refiltered_repeats(k, answers, 3 + 3 * k)),
            }
        }),
{
    let round = |k: int| crate::categories::c15_determinism::filter_reproducibility_repeats_round(
        k as u64,
    );
    let start = |k: int| 3 + 3 * k;
    let good = |k: int| refiltered_repeats(k, answers, start(k));
    let kept = |contents: Contents|
        contents.full() && contents.columns[1] == three_in_ten() && contents.columns[2] == answers[2]->Words_0 && answers[2] is Words;
    assert forall|k: int, contents: Contents|
        #![trigger good(k), kept(contents)]
        0 <= k < 4 && kept(contents) implies if good(k) {
        crate::walk::goes_to(round(k), contents, answers, start(k), start(k + 1), kept)
    } else {
        crate::walk::walked(round(k), 0, round(k).len() as int, contents, answers, start(k)) is None
    } by {
        lemma_refiltered_repeats(k, contents, answers, start(k));
    }
    crate::walk::law_rounds_keep_what_each_keeps(4, round, start, good, kept, contents, answers);
    if forall|k: int| 0 <= k < 4 ==> #[trigger] good(k) {
        assert forall|k: int| 0 <= k < 4 implies #[trigger] refiltered_repeats(
            k,
            answers,
            3 + 3 * k,
        ) by {
            assert(good(k));
        }
    } else {
        let k = choose|k: int| 0 <= k < 4 && !(#[trigger] good(k));
        assert(!refiltered_repeats(k, answers, 3 + 3 * k));
    }
}

/// The part `tenth`.
proof fn lemma_refiltered_tenth(contents: Contents, answers: Seq<Answer>)
    requires
        contents.full(),
        refiltered_shaped(answers),
        contents.columns[1] == three_in_ten(),
        contents.columns[2] == answers[2]->Words_0,
        answers[2] is Words,
    ensures
        match crate::walk::walked(
            crate::categories::c15_determinism::repeated_filter_steps(
                "10%",
                same_as(modulo(ix(), num(10)), num(0)),
            ),
            0,
            7,
            contents,
            answers,
            15,
        ) {
            Some((after, next)) => {
                &&& refiltered_tenth(answers)
                &&& after.full()
                &&& next == 20
            },
            None => !refiltered_tenth(answers),
        },
        crate::categories::c15_determinism::repeated_filter_steps(
            "10%",
            same_as(modulo(ix(), num(10)), num(0)),
        ).len() == 7,
{
    let steps = crate::categories::c15_determinism::repeated_filter_steps(
        "10%",
        same_as(modulo(ix(), num(10)), num(0)),
    );
    crate::laws::masks::lemma_remainder_words(10, 10000, contents);
    let words1 = crate::laws::masks::every(10, 10000);
    crate::laws::steps::lemma_fill(steps, 0, 7, contents, answers, 15, words1);
    let next1 = contents.with_column(1, words1);
    crate::laws::steps::lemma_command(steps, 1, 7, next1, answers, 15);
    crate::laws::steps::lemma_download(steps, 2, 7, next1, answers, 16);
    if answers[16] is Words {
        let next2 = next1.with_column(4, answers[16]->Words_0);
        crate::laws::steps::lemma_command(steps, 3, 7, next2, answers, 17);
        crate::laws::steps::lemma_download(steps, 4, 7, next2, answers, 18);
        if answers[18] is Words {
            let next3 = next2.with_column(5, answers[18]->Words_0);
            crate::laws::steps::lemma_not_alike(next3, 4, 5);
            crate::laws::steps::lemma_check(
                steps,
                5,
                7,
                next3,
                answers,
                19,
                !(answers[16]->Words_0 == answers[18]->Words_0),
            );
            crate::laws::steps::lemma_command(steps, 6, 7, next3, answers, 19);
            crate::laws::steps::lemma_end(steps, 7, next3, answers, 20);
        }
    }
}

/// The part `half`.
proof fn lemma_refiltered_half(contents: Contents, answers: Seq<Answer>)
    requires
        contents.full(),
        refiltered_shaped(answers),
    ensures
        match crate::walk::walked(
            crate::categories::c15_determinism::repeated_filter_steps(
                "50%",
                same_as(modulo(ix(), num(2)), num(0)),
            ),
            0,
            7,
            contents,
            answers,
            20,
        ) {
            Some((after, next)) => {
                &&& refiltered_half(answers)
                &&& after.full()
                &&& next == 25
            },
            None => !refiltered_half(answers),
        },
        crate::categories::c15_determinism::repeated_filter_steps(
            "50%",
            same_as(modulo(ix(), num(2)), num(0)),
        ).len() == 7,
{
    let steps = crate::categories::c15_determinism::repeated_filter_steps(
        "50%",
        same_as(modulo(ix(), num(2)), num(0)),
    );
    crate::laws::masks::lemma_remainder_words(2, 10000, contents);
    let words1 = crate::laws::masks::every(2, 10000);
    crate::laws::steps::lemma_fill(steps, 0, 7, contents, answers, 20, words1);
    let next1 = contents.with_column(1, words1);
    crate::laws::steps::lemma_command(steps, 1, 7, next1, answers, 20);
    crate::laws::steps::lemma_download(steps, 2, 7, next1, answers, 21);
    if answers[21] is Words {
        let next2 = next1.with_column(4, answers[21]->Words_0);
        crate::laws::steps::lemma_command(steps, 3, 7, next2, answers, 22);
        crate::laws::steps::lemma_download(steps, 4, 7, next2, answers, 23);
        if answers[23] is Words {
            let next3 = next2.with_column(5, answers[23]->Words_0);
            crate::laws::steps::lemma_not_alike(next3, 4, 5);
            crate::laws::steps::lemma_check(
                steps,
                5,
                7,
                next3,
                answers,
                24,
                !(answers[21]->Words_0 == answers[23]->Words_0),
            );
            crate::laws::steps::lemma_command(steps, 6, 7, next3, answers, 24);
            crate::laws::steps::lemma_end(steps, 7, next3, answers, 25);
        }
    }
}

/// The part `most`.
proof fn lemma_refiltered_most(contents: Contents, answers: Seq<Answer>)
    requires
        contents.full(),
        refiltered_shaped(answers),
    ensures
        match crate::walk::walked(
            crate::categories::c15_determinism::repeated_filter_steps(
                "90%",
                differs(modulo(ix(), num(10)), num(0)),
            ),
            0,
            7,
            contents,
            answers,
            25,
        ) {
            Some((after, next)) => {
                &&& refiltered_most(answers)
                &&& after.full()
                &&& next == 30
            },
            None => !refiltered_most(answers),
        },
        crate::categories::c15_determinism::repeated_filter_steps(
            "90%",
            differs(modulo(ix(), num(10)), num(0)),
        ).len() == 7,
{
    let steps = crate::categories::c15_determinism::repeated_filter_steps(
        "90%",
        differs(modulo(ix(), num(10)), num(0)),
    );
    crate::laws::predicates::lemma_but_every(10, 10000, contents);
    let words1 = crate::laws::predicates::but_every(10, 10000);
    crate::laws::steps::lemma_fill(steps, 0, 7, contents, answers, 25, words1);
    let next1 = contents.with_column(1, words1);
    crate::laws::steps::lemma_command(steps, 1, 7, next1, answers, 25);
    crate::laws::steps::lemma_download(steps, 2, 7, next1, answers, 26);
    if answers[26] is Words {
        let next2 = next1.with_column(4, answers[26]->Words_0);
        crate::laws::steps::lemma_command(steps, 3, 7, next2, answers, 27);
        crate::laws::steps::lemma_download(steps, 4, 7, next2, answers, 28);
        if answers[28] is Words {
            let next3 = next2.with_column(5, answers[28]->Words_0);
            crate::laws::steps::lemma_not_alike(next3, 4, 5);
            crate::laws::steps::lemma_check(
                steps,
                5,
                7,
                next3,
                answers,
                29,
                !(answers[26]->Words_0 == answers[28]->Words_0),
            );
            crate::laws::steps::lemma_command(steps, 6, 7, next3, answers, 29);
            crate::laws::steps::lemma_end(steps, 7, next3, answers, 30);
        }
    }
}

/// The part `end`.
proof fn lemma_refiltered_end(contents: Contents, answers: Seq<Answer>)
    requires
        contents.full(),
        refiltered_shaped(answers),
    ensures
        match crate::walk::walked(
            crate::categories::c15_determinism::filter_reproducibility_end_steps(),
            0,
            1,
            contents,
            answers,
            30,
        ) {
            Some((after, next)) => {
                &&& refiltered_end(answers)
                &&& after.full()
                &&& next == 31
            },
            None => !refiltered_end(answers),
        },
        crate::categories::c15_determinism::filter_reproducibility_end_steps().len() == 1,
{
    let steps = crate::categories::c15_determinism::filter_reproducibility_end_steps();
    crate::laws::steps::lemma_command(steps, 0, 1, contents, answers, 30);
    crate::laws::steps::lemma_end(steps, 1, contents, answers, 31);
}

/// The test has no jumps.
proof fn lemma_refiltered_straight()
    ensures
        forall|j: int|
            0 <= j < crate::categories::c15_determinism::filter_reproducibility_steps().len()
                ==> crate::walk::straight(
                #[trigger] crate::categories::c15_determinism::filter_reproducibility_steps()[j],
            ),
{
    let part1 = crate::categories::c15_determinism::filter_reproducibility_first_steps();
    let part2 = crate::script::rounds(
        4,
        |k: int| crate::categories::c15_determinism::filter_reproducibility_repeats_round(k as u64),
    );
    let round2 = |k: int| crate::categories::c15_determinism::filter_reproducibility_repeats_round(
        k as u64,
    );
    crate::walk::law_straight_rounds_are_straight(4, round2);
    let part3 = crate::categories::c15_determinism::repeated_filter_steps(
        "10%",
        same_as(modulo(ix(), num(10)), num(0)),
    );
    let part4 = crate::categories::c15_determinism::repeated_filter_steps(
        "50%",
        same_as(modulo(ix(), num(2)), num(0)),
    );
    let part5 = crate::categories::c15_determinism::repeated_filter_steps(
        "90%",
        differs(modulo(ix(), num(10)), num(0)),
    );
    let part6 = crate::categories::c15_determinism::filter_reproducibility_end_steps();
    let whole1 = part1;
    let whole2 = whole1 + part2;
    crate::walk::law_straight_scripts_make_a_straight_one(whole1, part2);
    let whole3 = whole2 + part3;
    crate::walk::law_straight_scripts_make_a_straight_one(whole2, part3);
    let whole4 = whole3 + part4;
    crate::walk::law_straight_scripts_make_a_straight_one(whole3, part4);
    let whole5 = whole4 + part5;
    crate::walk::law_straight_scripts_make_a_straight_one(whole4, part5);
    let whole6 = whole5 + part6;
    crate::walk::law_straight_scripts_make_a_straight_one(whole5, part6);
    assert(crate::categories::c15_determinism::filter_reproducibility_steps() == whole6);
}

/// The test that filters a column again and again passes exactly when the first result has as many
/// words as are marked, each of four more filters gives the same result, and each of three more
/// masks gives one result twice.
pub proof fn law_filtering_again_passes_exactly_when_reproduced(answers: Seq<Answer>)
    requires
        refiltered_shaped(answers),
    ensures
        crate::machine::run_of(
            crate::script::plan(
                "test_filter_reproducibility",
                crate::categories::c15_determinism::filter_reproducibility_steps(),
            ),
            answers,
        ).progress == Progress::Over(Ending::Passed) <==> {
            &&& refiltered_first(answers)
            &&& forall|k: int|
                0 <= k < 4 ==> #[trigger] refiltered_repeats(k, answers, 3 + 3 * k)
            &&& refiltered_tenth(answers)
            &&& refiltered_half(answers)
            &&& refiltered_most(answers)
            &&& refiltered_end(answers)
        },
{
    let plan = crate::script::plan(
        "test_filter_reproducibility",
        crate::categories::c15_determinism::filter_reproducibility_steps(),
    );
    let blank = Contents::blank(plan.texts);
    let part1 = crate::categories::c15_determinism::filter_reproducibility_first_steps();
    let part2 = crate::script::rounds(
        4,
        |k: int| crate::categories::c15_determinism::filter_reproducibility_repeats_round(k as u64),
    );
    let part3 = crate::categories::c15_determinism::repeated_filter_steps(
        "10%",
        same_as(modulo(ix(), num(10)), num(0)),
    );
    let part4 = crate::categories::c15_determinism::repeated_filter_steps(
        "50%",
        same_as(modulo(ix(), num(2)), num(0)),
    );
    let part5 = crate::categories::c15_determinism::repeated_filter_steps(
        "90%",
        differs(modulo(ix(), num(10)), num(0)),
    );
    let part6 = crate::categories::c15_determinism::filter_reproducibility_end_steps();
    let whole1 = part1;
    let whole2 = whole1 + part2;
    let whole3 = whole2 + part3;
    let whole4 = whole3 + part4;
    let whole5 = whole4 + part5;
    let whole6 = whole5 + part6;
    assert(plan.steps == whole6);
    lemma_refiltered_first(blank, answers);
    crate::walk::law_walks_over_two_scripts_compose(whole1, part2, blank, answers, 0);
    crate::walk::law_walks_over_two_scripts_compose(whole2, part3, blank, answers, 0);
    crate::walk::law_walks_over_two_scripts_compose(whole3, part4, blank, answers, 0);
    crate::walk::law_walks_over_two_scripts_compose(whole4, part5, blank, answers, 0);
    crate::walk::law_walks_over_two_scripts_compose(whole5, part6, blank, answers, 0);
    match crate::walk::walked(whole1, 0, whole1.len() as int, blank, answers, 0) {
        Some((after, _)) => {
            lemma_refiltered_repeats_rounds(after, answers);
            match crate::walk::walked(whole2, 0, whole2.len() as int, blank, answers, 0) {
                Some((after, _)) => {
                    lemma_refiltered_tenth(after, answers);
                    match crate::walk::walked(whole3, 0, whole3.len() as int, blank, answers, 0) {
                        Some((after, _)) => {
                            lemma_refiltered_half(after, answers);
                            match crate::walk::walked(
                                whole4,
                                0,
                                whole4.len() as int,
                                blank,
                                answers,
                                0,
                            ) {
                                Some((after, _)) => {
                                    lemma_refiltered_most(after, answers);
                                    match crate::walk::walked(
                                        whole5,
                                        0,
                                        whole5.len() as int,
                                        blank,
                                        answers,
                                        0,
                                    ) {
                                        Some((after, _)) => {
                                            lemma_refiltered_end(after, answers);
                                        },
                                        None => {},
                                    }
                                },
                                None => {},
                            }
                        },
                        None => {},
                    }
                },
                None => {},
            }
        },
        None => {},
    }
    lemma_refiltered_straight();
    crate::walk::law_passes_exactly_when_every_step_goes_through(plan, answers);
}

} // verus!
