//! The laws of the tests that make mistakes on purpose, and go on after them.

use vstd::prelude::*;
use crate::expr::{differs, ix, len, modulo, num, plus, times};
use crate::machine::{Answer, Effect, Ending, Progress};
use crate::memory::Contents;
use crate::script::{Act, Plan, Request, Step, COUNT};

verus! {

/// The first `n` numbers, from one on.
pub open spec fn counted(n: u64) -> Seq<u64> {
    Seq::new(n as nat, |i: int| (i + 1) as u64)
}

/// The words of [`counted`].
proof fn lemma_counted(n: u64, contents: Contents)
    requires
        n < u64::MAX,
    ensures
        forall|i: int|
            0 <= i < n ==> #[trigger] crate::expr::value_of(
                plus(ix(), num(1)),
                contents,
                i as u64,
            ) == Some(counted(n)[i]),
{
    reveal_with_fuel(crate::expr::value_of, 2);
}

/// The mask of `n` rows that marks every other row, from the first one on.
pub open spec fn alternate(n: u64) -> Seq<u64> {
    Seq::new(n as nat, |i: int| ((i + 1) % 2) as u64)
}

/// The words of [`alternate`].
proof fn lemma_alternate(n: u64, contents: Contents)
    requires
        n < u64::MAX,
    ensures
        forall|i: int|
            0 <= i < n ==> #[trigger] crate::expr::value_of(
                modulo(plus(ix(), num(1)), num(2)),
                contents,
                i as u64,
            ) == Some(alternate(n)[i]),
{
    reveal_with_fuel(crate::expr::value_of, 3);
}

/// The thousand numbers from `1000 * k` on.
pub open spec fn thousand(k: int) -> Seq<u64> {
    Seq::new(1000, |i: int| (i + k * 1000) as u64)
}

/// The words of [`thousand`].
proof fn lemma_thousand(k: int, contents: Contents)
    requires
        0 <= k < 10,
    ensures
        forall|i: int|
            0 <= i < 1000 ==> #[trigger] crate::expr::value_of(
                plus(ix(), times(num(k as u64), num(1000))),
                contents,
                i as u64,
            ) == Some(thousand(k)[i]),
{
    reveal_with_fuel(crate::expr::value_of, 3);
}

/// Whether the length of a column is not the expected one.
proof fn lemma_length(contents: Contents, slot: u64, expected: u64)
    requires
        slot < contents.columns.len(),
        contents.columns[slot as int].len() <= u64::MAX,
    ensures
        crate::expr::value_of(differs(len(slot), num(expected)), contents, 0) == Some(
            crate::expr::truth(contents.columns[slot as int].len() != expected),
        ),
{
    reveal_with_fuel(crate::expr::value_of, 3);
}

/// Whether the answers to the downloads of the test are columns or refusals.
pub open spec fn propagation_shaped(answers: Seq<Answer>) -> bool {
    &&& answers.len() >= 13
    &&& crate::laws::steps::column_or_refusal(answers[11])
}

/// What the device has to answer.
pub open spec fn propagation_answers(answers: Seq<Answer>) -> bool {
    &&& !(answers[0] is Failed)
    &&& !(answers[1] is Failed)
    &&& answers[2] == Answer::Count(0)
    &&& !(answers[3] is Failed)
    &&& !(answers[6] is Failed)
    &&& !(answers[7] is Failed)
    &&& answers[8] == Answer::Count(3)
    &&& !(answers[9] is Failed)
    &&& !(answers[10] is Failed)
    &&& answers[11] is Words
    &&& answers[11]->Words_0.len() == 100
    &&& !(answers[12] is Failed)
}

/// The steps of the test.
proof fn lemma_propagation_answers(contents: Contents, answers: Seq<Answer>)
    requires
        contents.full(),
        propagation_shaped(answers),
    ensures
        match crate::walk::walked(
            crate::categories::c16_async_pipeline::error_propagation_steps(),
            0,
            20,
            contents,
            answers,
            0,
        ) {
            Some((after, next)) => {
                &&& propagation_answers(answers)
                &&& after.full()
                &&& next == 13
            },
            None => !propagation_answers(answers),
        },
        crate::categories::c16_async_pipeline::error_propagation_steps().len() == 20,
{
    let steps = crate::categories::c16_async_pipeline::error_propagation_steps();
    let words1 = crate::laws::words::constant(0, 0);
    crate::laws::steps::lemma_fill(steps, 0, 20, contents, answers, 0, words1);
    let next1 = contents.with_column(0, words1);
    crate::laws::steps::lemma_command(steps, 1, 20, next1, answers, 0);
    crate::laws::steps::lemma_command(steps, 2, 20, next1, answers, 1);
    crate::laws::steps::lemma_match(steps, 3, 20, next1, answers, 2, 0);
    let next2 = next1.with_register(COUNT, 0);
    lemma_counted(5, next2);
    let words3 = counted(5);
    crate::laws::steps::lemma_fill(steps, 4, 20, next2, answers, 3, words3);
    let next3 = next2.with_column(1, words3);
    crate::laws::steps::lemma_command(steps, 5, 20, next3, answers, 3);
    lemma_alternate(3, next3);
    let words4 = alternate(3);
    crate::laws::steps::lemma_fill(steps, 6, 20, next3, answers, 4, words4);
    let next4 = next3.with_column(2, words4);
    crate::laws::steps::lemma_command(steps, 7, 20, next4, answers, 4);
    crate::laws::steps::lemma_command(steps, 8, 20, next4, answers, 5);
    crate::laws::steps::lemma_command(steps, 9, 20, next4, answers, 6);
    lemma_alternate(5, next4);
    let words5 = alternate(5);
    crate::laws::steps::lemma_fill(steps, 10, 20, next4, answers, 7, words5);
    let next5 = next4.with_column(3, words5);
    crate::laws::steps::lemma_command(steps, 11, 20, next5, answers, 7);
    crate::laws::steps::lemma_match(steps, 12, 20, next5, answers, 8, 3);
    let next6 = next5.with_register(COUNT, 3);
    crate::laws::words::lemma_below(100, next6);
    let words7 = crate::laws::words::below(100);
    crate::laws::steps::lemma_fill(steps, 13, 20, next6, answers, 9, words7);
    let next7 = next6.with_column(4, words7);
    crate::laws::words::lemma_scaled(4, 2, next7);
    let words8 = crate::laws::words::scaled(crate::laws::words::below(100), 2);
    crate::laws::steps::lemma_fill(steps, 14, 20, next7, answers, 9, words8);
    let next8 = next7.with_column(5, words8);
    crate::laws::steps::lemma_command(steps, 15, 20, next8, answers, 9);
    crate::laws::steps::lemma_command(steps, 16, 20, next8, answers, 10);
    crate::laws::steps::lemma_download(steps, 17, 20, next8, answers, 11);
    if answers[11] is Words {
        let next9 = next8.with_column(6, answers[11]->Words_0);
        lemma_length(next9, 6, 100);
        crate::laws::steps::lemma_check(
            steps,
            18,
            20,
            next9,
            answers,
            12,
            !(answers[11]->Words_0.len() == 100),
        );
        crate::laws::steps::lemma_command(steps, 19, 20, next9, answers, 12);
        crate::laws::steps::lemma_end(steps, 20, next9, answers, 13);
    }
}

/// The test has no jumps.
proof fn lemma_propagation_straight()
    ensures
        forall|j: int|
            0 <= j < crate::categories::c16_async_pipeline::error_propagation_steps().len()
                ==> crate::walk::straight(
                #[trigger] crate::categories::c16_async_pipeline::error_propagation_steps()[j],
            ),
{
}

/// The test that hands the device a mask of the wrong length passes whether the device refuses the
/// filter or not, exactly when a sort of nothing leaves nothing before it and, after it, a filter
/// keeps the three marked rows of five and a sort hands out all of a hundred rows.
pub proof fn law_propagation_passes_exactly_when_the_device_goes_on(answers: Seq<Answer>)
    requires
        propagation_shaped(answers),
    ensures
        crate::machine::run_of(
            crate::script::plan(
                "test_error_propagation",
                crate::categories::c16_async_pipeline::error_propagation_steps(),
            ),
            answers,
        ).progress == Progress::Over(Ending::Passed) <==> propagation_answers(answers),
{
    let plan = crate::script::plan(
        "test_error_propagation",
        crate::categories::c16_async_pipeline::error_propagation_steps(),
    );
    let blank = Contents::blank(plan.texts);
    lemma_propagation_answers(blank, answers);
    lemma_propagation_straight();
    crate::walk::law_passes_exactly_when_every_step_goes_through(plan, answers);
}

/// Whether the answers to the downloads of the test are columns or refusals.
pub open spec fn detection_shaped(answers: Seq<Answer>) -> bool {
    &&& answers.len() >= 32
    &&& crate::laws::steps::column_or_refusal(answers[3])
    &&& crate::laws::steps::column_or_refusal(answers[30])
}

/// What the device has to answer in the part `column`.
pub open spec fn detection_column(answers: Seq<Answer>) -> bool {
    &&& !(answers[0] is Failed)
    &&& !(answers[1] is Failed)
    &&& !(answers[2] is Failed)
    &&& answers[3] is Words
    &&& crate::laws::steps::counts_up(answers[3]->Words_0)
}

/// What the device has to answer in round `k` of the part `checks`, from answer `used` on.
pub open spec fn detection_checks(k: int, answers: Seq<Answer>, used: int) -> bool {
    &&& !(answers[used] is Failed)
    &&& !(answers[used + 1] is Failed)
    &&& !(answers[used + 2] is Failed)
}

/// What the device has to answer in the part `edges`.
pub open spec fn detection_edges(answers: Seq<Answer>) -> bool {
    &&& !(answers[24] is Failed)
    &&& !(answers[25] is Failed)
    &&& !(answers[26] is Failed)
    &&& !(answers[27] is Failed)
    &&& !(answers[28] is Failed)
    &&& !(answers[29] is Failed)
    &&& answers[30] is Words
    &&& answers[30]->Words_0 == crate::laws::words::constant(42, 1)
    &&& !(answers[31] is Failed)
}

/// The part `column`.
proof fn lemma_detection_column(contents: Contents, answers: Seq<Answer>)
    requires
        contents.full(),
        detection_shaped(answers),
    ensures
        match crate::walk::walked(
            crate::categories::c21_hardware::error_detection_column_steps(),
            0,
            6,
            contents,
            answers,
            0,
        ) {
            Some((after, next)) => {
                &&& detection_column(answers)
                &&& after.full()
                &&& next == 4
            },
            None => !detection_column(answers),
        },
        crate::categories::c21_hardware::error_detection_column_steps().len() == 6,
{
    let steps = crate::categories::c21_hardware::error_detection_column_steps();
    crate::laws::words::lemma_below(10000, contents);
    let words1 = crate::laws::words::below(10000);
    crate::laws::steps::lemma_fill(steps, 0, 6, contents, answers, 0, words1);
    let next1 = contents.with_column(0, words1);
    crate::laws::steps::lemma_command(steps, 1, 6, next1, answers, 0);
    crate::laws::steps::lemma_command(steps, 2, 6, next1, answers, 1);
    crate::laws::steps::lemma_command(steps, 3, 6, next1, answers, 2);
    crate::laws::steps::lemma_download(steps, 4, 6, next1, answers, 3);
    if answers[3] is Words {
        let next2 = next1.with_column(1, answers[3]->Words_0);
        crate::laws::steps::lemma_scan_places(steps, 5, 6, next2, answers, 4, 1);
        crate::laws::steps::lemma_end(steps, 6, next2, answers, 4);
    }
}

/// One round of the part `checks`.
proof fn lemma_detection_checks(k: int, contents: Contents, answers: Seq<Answer>, used: int)
    requires
        0 <= k < 5,
        used == 4 + 4 * k,
        contents.full(),
        detection_shaped(answers),
    ensures
        match crate::walk::walked(
            crate::categories::c21_hardware::error_detection_checks_round(k as u64),
            0,
            5,
            contents,
            answers,
            used,
        ) {
            Some((after, next)) => {
                &&& detection_checks(k, answers, used)
                &&& after.full()
                &&& next == 4 + 4 * (k + 1)
            },
            None => !detection_checks(k, answers, used),
        },
        crate::categories::c21_hardware::error_detection_checks_round(k as u64).len() == 5,
{
    let steps = crate::categories::c21_hardware::error_detection_checks_round(k as u64);
    lemma_thousand(k, contents);
    let words1 = thousand(k);
    crate::laws::steps::lemma_fill(steps, 0, 5, contents, answers, used, words1);
    let next1 = contents.with_column(2, words1);
    crate::laws::steps::lemma_command(steps, 1, 5, next1, answers, used);
    crate::laws::steps::lemma_command(steps, 2, 5, next1, answers, used + 1);
    crate::laws::steps::lemma_command(steps, 3, 5, next1, answers, used + 2);
    crate::laws::steps::lemma_command(steps, 4, 5, next1, answers, used + 3);
    crate::laws::steps::lemma_end(steps, 5, next1, answers, used + 4);
}

/// All rounds of the part `checks`.
proof fn lemma_detection_checks_rounds(contents: Contents, answers: Seq<Answer>)
    requires
        contents.full(),
        detection_shaped(answers),
    ensures
        ({
            let steps = crate::script::rounds(
                5,
                |k: int| crate::categories::c21_hardware::error_detection_checks_round(k as u64),
            );
            match crate::walk::walked(steps, 0, steps.len() as int, contents, answers, 4) {
                Some((after, next)) => {
                    &&& forall|k: int|
                        0 <= k < 5 ==> #[trigger] detection_checks(k, answers, 4 + 4 * k)
                    &&& after.full()
                    &&& next == 24
                },
                None => !(forall|k: int|
                    0 <= k < 5 ==> #[trigger] detection_checks(k, answers, 4 + 4 * k)),
            }
        }),
{
    let round = |k: int| crate::categories::c21_hardware::error_detection_checks_round(k as u64);
    let start = |k: int| 4 + 4 * k;
    let good = |k: int| detection_checks(k, answers, start(k));
    let kept = |contents: Contents| contents.full();
    assert forall|k: int, contents: Contents|
        #![trigger good(k), kept(contents)]
        0 <= k < 5 && kept(contents) implies if good(k) {
        crate::walk::goes_to(round(k), contents, answers, start(k), start(k + 1), kept)
    } else {
        crate::walk::walked(round(k), 0, round(k).len() as int, contents, answers, start(k)) is None
    } by {
        lemma_detection_checks(k, contents, answers, start(k));
    }
    crate::walk::law_rounds_keep_what_each_keeps(5, round, start, good, kept, contents, answers);
    if forall|k: int| 0 <= k < 5 ==> #[trigger] good(k) {
        assert forall|k: int| 0 <= k < 5 implies #[trigger] detection_checks(
            k,
            answers,
            4 + 4 * k,
        ) by {
            assert(good(k));
        }
    } else {
        let k = choose|k: int| 0 <= k < 5 && !(#[trigger] good(k));
        assert(!detection_checks(k, answers, 4 + 4 * k));
    }
}

/// The part `edges`.
proof fn lemma_detection_edges(contents: Contents, answers: Seq<Answer>)
    requires
        contents.full(),
        detection_shaped(answers),
    ensures
        match crate::walk::walked(
            crate::categories::c21_hardware::error_detection_edges_steps(),
            0,
            11,
            contents,
            answers,
            24,
        ) {
            Some((after, next)) => {
                &&& detection_edges(answers)
                &&& after.full()
                &&& next == 32
            },
            None => !detection_edges(answers),
        },
        crate::categories::c21_hardware::error_detection_edges_steps().len() == 11,
{
    let steps = crate::categories::c21_hardware::error_detection_edges_steps();
    let words1 = crate::laws::words::constant(0, 0);
    crate::laws::steps::lemma_fill(steps, 0, 11, contents, answers, 24, words1);
    let next1 = contents.with_column(3, words1);
    crate::laws::steps::lemma_command(steps, 1, 11, next1, answers, 24);
    crate::laws::steps::lemma_command(steps, 2, 11, next1, answers, 25);
    crate::laws::steps::lemma_command(steps, 3, 11, next1, answers, 26);
    crate::laws::words::lemma_constant(42, 1, next1);
    let words2 = crate::laws::words::constant(42, 1);
    crate::laws::steps::lemma_fill(steps, 4, 11, next1, answers, 27, words2);
    let next2 = next1.with_column(4, words2);
    crate::laws::steps::lemma_command(steps, 5, 11, next2, answers, 27);
    crate::laws::steps::lemma_command(steps, 6, 11, next2, answers, 28);
    crate::laws::steps::lemma_command(steps, 7, 11, next2, answers, 29);
    crate::laws::steps::lemma_download(steps, 8, 11, next2, answers, 30);
    if answers[30] is Words {
        let next3 = next2.with_column(5, answers[30]->Words_0);
        crate::laws::steps::lemma_not_alike(next3, 5, 4);
        crate::laws::steps::lemma_check(
            steps,
            9,
            11,
            next3,
            answers,
            31,
            !(answers[30]->Words_0 == crate::laws::words::constant(42, 1)),
        );
        crate::laws::steps::lemma_command(steps, 10, 11, next3, answers, 31);
        crate::laws::steps::lemma_end(steps, 11, next3, answers, 32);
    }
}

/// The test has no jumps.
proof fn lemma_detection_straight()
    ensures
        forall|j: int|
            0 <= j < crate::categories::c21_hardware::error_detection_steps().len()
                ==> crate::walk::straight(
                #[trigger] crate::categories::c21_hardware::error_detection_steps()[j],
            ),
{
    let part1 = crate::categories::c21_hardware::error_detection_column_steps();
    let part2 = crate::script::rounds(
        5,
        |k: int| crate::categories::c21_hardware::error_detection_checks_round(k as u64),
    );
    let round2 = |k: int| crate::categories::c21_hardware::error_detection_checks_round(k as u64);
    crate::walk::law_straight_rounds_are_straight(5, round2);
    let part3 = crate::categories::c21_hardware::error_detection_edges_steps();
    let whole1 = part1;
    let whole2 = whole1 + part2;
    crate::walk::law_straight_scripts_make_a_straight_one(whole1, part2);
    let whole3 = whole2 + part3;
    crate::walk::law_straight_scripts_make_a_straight_one(whole2, part3);
    assert(crate::categories::c21_hardware::error_detection_steps() == whole3);
}

/// The test that looks for errors of the device passes exactly when none shows: ten thousand
/// numbers come back each at its place, five more sorts and one of nothing are carried out, and one
/// word comes back as it was.
pub proof fn law_detection_passes_exactly_when_no_error_shows(answers: Seq<Answer>)
    requires
        detection_shaped(answers),
    ensures
        crate::machine::run_of(
            crate::script::plan(
                "test_error_detection",
                crate::categories::c21_hardware::error_detection_steps(),
            ),
            answers,
        ).progress == Progress::Over(Ending::Passed) <==> {
            &&& detection_column(answers)
            &&& forall|k: int|
                0 <= k < 5 ==> #[trigger] detection_checks(k, answers, 4 + 4 * k)
            &&& detection_edges(answers)
        },
{
    let plan = crate::script::plan(
        "test_error_detection",
        crate::categories::c21_hardware::error_detection_steps(),
    );
    let blank = Contents::blank(plan.texts);
    let part1 = crate::categories::c21_hardware::error_detection_column_steps();
    let part2 = crate::script::rounds(
        5,
        |k: int| crate::categories::c21_hardware::error_detection_checks_round(k as u64),
    );
    let part3 = crate::categories::c21_hardware::error_detection_edges_steps();
    let whole1 = part1;
    let whole2 = whole1 + part2;
    let whole3 = whole2 + part3;
    assert(plan.steps == whole3);
    lemma_detection_column(blank, answers);
    crate::walk::law_walks_over_two_scripts_compose(whole1, part2, blank, answers, 0);
    crate::walk::law_walks_over_two_scripts_compose(whole2, part3, blank, answers, 0);
    match crate::walk::walked(whole1, 0, whole1.len() as int, blank, answers, 0) {
        Some((after, _)) => {
            lemma_detection_checks_rounds(after, answers);
            match crate::walk::walked(whole2, 0, whole2.len() as int, blank, answers, 0) {
                Some((after, _)) => {
                    lemma_detection_edges(after, answers);
                },
                None => {},
            }
        },
        None => {},
    }
    lemma_detection_straight();
    crate::walk::law_passes_exactly_when_every_step_goes_through(plan, answers);
}

/// Whether the answers to the downloads of the test are columns or refusals.
pub open spec fn recovery_shaped(answers: Seq<Answer>) -> bool {
    &&& answers.len() >= 27
    &&& crate::laws::steps::column_or_refusal(answers[9])
    &&& forall|k: int|
        0 <= k < 3 ==> crate::laws::steps::column_or_refusal(#[trigger] answers[13 + 5 * k])
    &&& crate::laws::steps::column_or_refusal(answers[25])
}

/// What the device has to answer in the part `recovery`.
pub open spec fn recovery_recovery(answers: Seq<Answer>) -> bool {
    &&& !(answers[0] is Failed)
    &&& !(answers[1] is Failed)
    &&& !(answers[2] is Failed)
    &&& !(answers[3] is Failed)
    &&& !(answers[6] is Failed)
    &&& !(answers[7] is Failed)
    &&& !(answers[8] is Failed)
    &&& answers[9] is Words
    &&& crate::laws::steps::counts_up(answers[9]->Words_0)
}

/// What the device has to answer in round `k` of the part `cycles`, from answer `used` on.
pub open spec fn recovery_cycles(k: int, answers: Seq<Answer>, used: int) -> bool {
    &&& !(answers[used] is Failed)
    &&& !(answers[used + 1] is Failed)
    &&& !(answers[used + 2] is Failed)
    &&& answers[used + 3] is Words
    &&& answers[used + 3]->Words_0.len() == 1000
}

/// What the device has to answer in the part `end`.
pub open spec fn recovery_end(answers: Seq<Answer>) -> bool {
    &&& answers[25] is Words
    &&& crate::laws::steps::counts_up(answers[25]->Words_0)
    &&& !(answers[26] is Failed)
}

/// The part `recovery`.
proof fn lemma_recovery_recovery(contents: Contents, answers: Seq<Answer>)
    requires
        contents.full(),
        recovery_shaped(answers),
    ensures
        match crate::walk::walked(
            crate::categories::c21_hardware::recovery_after_error_recovery_steps(),
            0,
            15,
            contents,
            answers,
            0,
        ) {
            Some((after, next)) => {
                &&& recovery_recovery(answers)
                &&& after.full()
                &&& next == 10
            },
            None => !recovery_recovery(answers),
        },
        crate::categories::c21_hardware::recovery_after_error_recovery_steps().len() == 15,
{
    let steps = crate::categories::c21_hardware::recovery_after_error_recovery_steps();
    crate::laws::words::lemma_below(5000, contents);
    let words1 = crate::laws::words::below(5000);
    crate::laws::steps::lemma_fill(steps, 0, 15, contents, answers, 0, words1);
    let next1 = contents.with_column(0, words1);
    crate::laws::steps::lemma_command(steps, 1, 15, next1, answers, 0);
    crate::laws::steps::lemma_command(steps, 2, 15, next1, answers, 1);
    crate::laws::steps::lemma_command(steps, 3, 15, next1, answers, 2);
    lemma_counted(5, next1);
    let words2 = counted(5);
    crate::laws::steps::lemma_fill(steps, 4, 15, next1, answers, 3, words2);
    let next2 = next1.with_column(1, words2);
    crate::laws::steps::lemma_command(steps, 5, 15, next2, answers, 3);
    lemma_alternate(3, next2);
    let words3 = alternate(3);
    crate::laws::steps::lemma_fill(steps, 6, 15, next2, answers, 4, words3);
    let next3 = next2.with_column(2, words3);
    crate::laws::steps::lemma_command(steps, 7, 15, next3, answers, 4);
    crate::laws::steps::lemma_command(steps, 8, 15, next3, answers, 5);
    crate::laws::words::lemma_below(10000, next3);
    let words4 = crate::laws::words::below(10000);
    crate::laws::steps::lemma_fill(steps, 9, 15, next3, answers, 6, words4);
    let next4 = next3.with_column(3, words4);
    crate::laws::steps::lemma_command(steps, 10, 15, next4, answers, 6);
    crate::laws::steps::lemma_command(steps, 11, 15, next4, answers, 7);
    crate::laws::steps::lemma_command(steps, 12, 15, next4, answers, 8);
    crate::laws::steps::lemma_download(steps, 13, 15, next4, answers, 9);
    if answers[9] is Words {
        let next5 = next4.with_column(4, answers[9]->Words_0);
        crate::laws::steps::lemma_scan_places(steps, 14, 15, next5, answers, 10, 4);
        crate::laws::steps::lemma_end(steps, 15, next5, answers, 10);
    }
}

/// One round of the part `cycles`.
proof fn lemma_recovery_cycles(k: int, contents: Contents, answers: Seq<Answer>, used: int)
    requires
        0 <= k < 3,
        used == 10 + 5 * k,
        contents.full(),
        recovery_shaped(answers),
    ensures
        match crate::walk::walked(
            crate::categories::c21_hardware::recovery_after_error_cycles_round(k as u64),
            0,
            7,
            contents,
            answers,
            used,
        ) {
            Some((after, next)) => {
                &&& recovery_cycles(k, answers, used)
                &&& after.full()
                &&& next == 10 + 5 * (k + 1)
            },
            None => !recovery_cycles(k, answers, used),
        },
        crate::categories::c21_hardware::recovery_after_error_cycles_round(k as u64).len() == 7,
{
    let steps = crate::categories::c21_hardware::recovery_after_error_cycles_round(k as u64);
    assert(crate::laws::steps::column_or_refusal(answers[13 + 5 * k]));
    lemma_thousand(k, contents);
    let words1 = thousand(k);
    crate::laws::steps::lemma_fill(steps, 0, 7, contents, answers, used, words1);
    let next1 = contents.with_column(5, words1);
    crate::laws::steps::lemma_command(steps, 1, 7, next1, answers, used);
    crate::laws::steps::lemma_command(steps, 2, 7, next1, answers, used + 1);
    crate::laws::steps::lemma_command(steps, 3, 7, next1, answers, used + 2);
    crate::laws::steps::lemma_download(steps, 4, 7, next1, answers, used + 3);
    if answers[used + 3] is Words {
        let next2 = next1.with_column(6, answers[used + 3]->Words_0);
        lemma_length(next2, 6, 1000);
        crate::laws::steps::lemma_check(
            steps,
            5,
            7,
            next2,
            answers,
            used + 4,
            !(answers[used + 3]->Words_0.len() == 1000),
        );
        crate::laws::steps::lemma_command(steps, 6, 7, next2, answers, used + 4);
        crate::laws::steps::lemma_end(steps, 7, next2, answers, used + 5);
    }
}

/// All rounds of the part `cycles`.
proof fn lemma_recovery_cycles_rounds(contents: Contents, answers: Seq<Answer>)
    requires
        contents.full(),
        recovery_shaped(answers),
    ensures
        ({
            let steps = crate::script::rounds(
                3,
                |k: int| crate::categories::c21_hardware::recovery_after_error_cycles_round(
                    k as u64,
                ),
            );
            match crate::walk::walked(steps, 0, steps.len() as int, contents, answers, 10) {
                Some((after, next)) => {
                    &&& forall|k: int|
                        0 <= k < 3 ==> #[trigger] recovery_cycles(k, answers, 10 + 5 * k)
                    &&& after.full()
                    &&& next == 25
                },
                None => !(forall|k: int|
                    0 <= k < 3 ==> #[trigger] recovery_cycles(k, answers, 10 + 5 * k)),
            }
        }),
{
    let round = |k: int| crate::categories::c21_hardware::recovery_after_error_cycles_round(
        k as u64,
    );
    let start = |k: int| 10 + 5 * k;
    let good = |k: int| recovery_cycles(k, answers, start(k));
    let kept = |contents: Contents| contents.full();
    assert forall|k: int, contents: Contents|
        #![trigger good(k), kept(contents)]
        0 <= k < 3 && kept(contents) implies if good(k) {
        crate::walk::goes_to(round(k), contents, answers, start(k), start(k + 1), kept)
    } else {
        crate::walk::walked(round(k), 0, round(k).len() as int, contents, answers, start(k)) is None
    } by {
        lemma_recovery_cycles(k, contents, answers, start(k));
    }
    crate::walk::law_rounds_keep_what_each_keeps(3, round, start, good, kept, contents, answers);
    if forall|k: int| 0 <= k < 3 ==> #[trigger] good(k) {
        assert forall|k: int| 0 <= k < 3 implies #[trigger] recovery_cycles(
            k,
            answers,
            10 + 5 * k,
        ) by {
            assert(good(k));
        }
    } else {
        let k = choose|k: int| 0 <= k < 3 && !(#[trigger] good(k));
        assert(!recovery_cycles(k, answers, 10 + 5 * k));
    }
}

/// The part `end`.
proof fn lemma_recovery_end(contents: Contents, answers: Seq<Answer>)
    requires
        contents.full(),
        recovery_shaped(answers),
    ensures
        match crate::walk::walked(
            crate::categories::c21_hardware::recovery_after_error_end_steps(),
            0,
            3,
            contents,
            answers,
            25,
        ) {
            Some((after, next)) => {
                &&& recovery_end(answers)
                &&& after.full()
                &&& next == 27
            },
            None => !recovery_end(answers),
        },
        crate::categories::c21_hardware::recovery_after_error_end_steps().len() == 3,
{
    let steps = crate::categories::c21_hardware::recovery_after_error_end_steps();
    crate::laws::steps::lemma_download(steps, 0, 3, contents, answers, 25);
    if answers[25] is Words {
        let next1 = contents.with_column(7, answers[25]->Words_0);
        crate::laws::steps::lemma_scan_places(steps, 1, 3, next1, answers, 26, 7);
        crate::laws::steps::lemma_command(steps, 2, 3, next1, answers, 26);
        crate::laws::steps::lemma_end(steps, 3, next1, answers, 27);
    }
}

/// The test has no jumps.
proof fn lemma_recovery_straight()
    ensures
        forall|j: int|
            0 <= j < crate::categories::c21_hardware::recovery_after_error_steps().len()
                ==> crate::walk::straight(
                #[trigger] crate::categories::c21_hardware::recovery_after_error_steps()[j],
            ),
{
    let part1 = crate::categories::c21_hardware::recovery_after_error_recovery_steps();
    let part2 = crate::script::rounds(
        3,
        |k: int| crate::categories::c21_hardware::recovery_after_error_cycles_round(k as u64),
    );
    let round2 = |k: int| crate::categories::c21_hardware::recovery_after_error_cycles_round(
        k as u64,
    );
    crate::walk::law_straight_rounds_are_straight(3, round2);
    let part3 = crate::categories::c21_hardware::recovery_after_error_end_steps();
    let whole1 = part1;
    let whole2 = whole1 + part2;
    crate::walk::law_straight_scripts_make_a_straight_one(whole1, part2);
    let whole3 = whole2 + part3;
    crate::walk::law_straight_scripts_make_a_straight_one(whole2, part3);
    assert(crate::categories::c21_hardware::recovery_after_error_steps() == whole3);
}

/// The test that goes on after a mistake passes whether the device refuses the filter or not,
/// exactly when the numbers sorted after it come back each at its place, three more sorts leave a
/// thousand rows each, and the numbers sorted before it come back each at its place in the end.
pub proof fn law_recovery_passes_exactly_when_results_are_right(answers: Seq<Answer>)
    requires
        recovery_shaped(answers),
    ensures
        crate::machine::run_of(
            crate::script::plan(
                "test_recovery_after_error",
                crate::categories::c21_hardware::recovery_after_error_steps(),
            ),
            answers,
        ).progress == Progress::Over(Ending::Passed) <==> {
            &&& recovery_recovery(answers)
            &&& forall|k: int|
                0 <= k < 3 ==> #[trigger] recovery_cycles(k, answers, 10 + 5 * k)
            &&& recovery_end(answers)
        },
{
    let plan = crate::script::plan(
        "test_recovery_after_error",
        crate::categories::c21_hardware::recovery_after_error_steps(),
    );
    let blank = Contents::blank(plan.texts);
    let part1 = crate::categories::c21_hardware::recovery_after_error_recovery_steps();
    let part2 = crate::script::rounds(
        3,
        |k: int| crate::categories::c21_hardware::recovery_after_error_cycles_round(k as u64),
    );
    let part3 = crate::categories::c21_hardware::recovery_after_error_end_steps();
    let whole1 = part1;
    let whole2 = whole1 + part2;
    let whole3 = whole2 + part3;
    assert(plan.steps == whole3);
    lemma_recovery_recovery(blank, answers);
    crate::walk::law_walks_over_two_scripts_compose(whole1, part2, blank, answers, 0);
    crate::walk::law_walks_over_two_scripts_compose(whole2, part3, blank, answers, 0);
    match crate::walk::walked(whole1, 0, whole1.len() as int, blank, answers, 0) {
        Some((after, _)) => {
            lemma_recovery_cycles_rounds(after, answers);
            match crate::walk::walked(whole2, 0, whole2.len() as int, blank, answers, 0) {
                Some((after, _)) => {
                    lemma_recovery_end(after, answers);
                },
                None => {},
            }
        },
        None => {},
    }
    lemma_recovery_straight();
    crate::walk::law_passes_exactly_when_every_step_goes_through(plan, answers);
}

/// Whether a run has come to its end, or stands before a step, once some of the answers have been
/// heard.
spec fn comes_to(
    plan: Plan,
    answers: Seq<Answer>,
    used: int,
    at: int,
    contents: Contents,
) -> bool {
    let run = crate::machine::run_of(plan, answers.take(used));
    run.progress is Over || run == crate::machine::settled(plan.steps, at, contents)
}

/// A run comes past a column that it fills.
proof fn lemma_past_fill(
    plan: Plan,
    answers: Seq<Answer>,
    used: int,
    at: int,
    contents: Contents,
) -> (after: Contents)
    requires
        0 <= at < plan.steps.len(),
        comes_to(plan, answers, used, at, contents),
        plan.steps[at] matches Step::Do(Act::Fill { .. }),
    ensures
        comes_to(plan, answers, used, at + 1, after),
{
    reveal(crate::machine::effect_of);
    match crate::machine::moved(plan.steps[at], contents) {
        Effect::Next(after) => after,
        _ => contents,
    }
}

/// A run comes past a request that leaves nothing behind, or ends there.
proof fn lemma_past_command(
    plan: Plan,
    answers: Seq<Answer>,
    used: int,
    at: int,
    contents: Contents,
)
    requires
        0 <= at < plan.steps.len(),
        0 <= used < answers.len(),
        comes_to(plan, answers, used, at, contents),
        plan.steps[at] matches Step::Do(Act::Ask(request, otherwise)) && {
            &&& otherwise is Fail || otherwise is Go
            &&& match request {
                Request::Create { .. } => true,
                Request::Sort { .. } => true,
                Request::Filter { .. } => true,
                Request::Sync => true,
                _ => false,
            }
        },
    ensures
        comes_to(plan, answers, used + 1, at + 1, contents),
{
    reveal(crate::machine::effect_of);
    reveal(crate::machine::stored);
    assert(answers.take(used + 1).drop_last() =~= answers.take(used));
}

/// A run comes past a row count that has to match, or ends there, at the latest with the answer
/// after that.
proof fn lemma_past_match(
    plan: Plan,
    answers: Seq<Answer>,
    used: int,
    at: int,
    contents: Contents,
) -> (after: Contents)
    requires
        0 <= at < plan.steps.len(),
        0 <= used < answers.len() - 1,
        comes_to(plan, answers, used, at, contents),
        plan.steps[at] matches Step::Do(Act::Match { .. }),
    ensures
        comes_to(plan, answers, used + 1, at + 1, after) || crate::machine::run_of(
            plan,
            answers.take(used + 2),
        ).progress is Over,
{
    reveal(crate::machine::effect_of);
    assert(answers.take(used + 1).drop_last() =~= answers.take(used));
    assert(answers.take(used + 2).drop_last() =~= answers.take(used + 1));
    contents.with_register(COUNT, answers[used]->Count_0)
}

/// A run that stands before a request waits for its answer.
proof fn lemma_waits(
    plan: Plan,
    answers: Seq<Answer>,
    used: int,
    at: int,
    contents: Contents,
)
    requires
        0 <= at < plan.steps.len(),
        comes_to(plan, answers, used, at, contents),
        plan.steps[at] matches Step::Do(Act::Ask(_, _)),
    ensures
        match crate::machine::run_of(plan, answers.take(used)).progress {
            Progress::Asking { at: place, request, .. } => place == at && match plan.steps[at] {
                Step::Do(Act::Ask(own, _)) => own == request,
                _ => false,
            },
            Progress::Over(_) => true,
        },
{
    reveal(crate::machine::effect_of);
}

/// Whether the device refuses the filter with a mask of the wrong length or not, and whether it
/// shows an error right after it or not, does not matter: with other answers to these two requests
/// the test that goes on after a mistake ends in the same way, with the same message where it
/// fails.
pub proof fn law_recovery_ends_alike_whatever_the_mistake_leads_to(
    answers: Seq<Answer>,
    filtered: Answer,
    synced: Answer,
)
    requires
        answers.len() >= 6,
    ensures
        crate::machine::run_of(
            crate::script::plan(
                "test_recovery_after_error",
                crate::categories::c21_hardware::recovery_after_error_steps(),
            ),
            answers,
        ) == crate::machine::run_of(
            crate::script::plan(
                "test_recovery_after_error",
                crate::categories::c21_hardware::recovery_after_error_steps(),
            ),
            answers.update(4, filtered).update(5, synced),
        ),
{
    let plan = crate::script::plan(
        "test_recovery_after_error",
        crate::categories::c21_hardware::recovery_after_error_steps(),
    );
    let start = crate::categories::c21_hardware::recovery_after_error_recovery_steps();
    assert(forall|k: int| 0 <= k < 15 ==> #[trigger] plan.steps[k] == start[k]);
    let blank = Contents::blank(plan.texts);
    let first = answers.update(4, filtered);
    assert(answers.take(0) =~= Seq::<Answer>::empty());
    let column = lemma_past_fill(plan, answers, 0, 0, blank);
    lemma_past_command(plan, answers, 0, 1, column);
    lemma_past_command(plan, answers, 1, 2, column);
    lemma_past_command(plan, answers, 2, 3, column);
    let edge = lemma_past_fill(plan, answers, 3, 4, column);
    lemma_past_command(plan, answers, 3, 5, edge);
    let mask = lemma_past_fill(plan, answers, 4, 6, edge);
    lemma_waits(plan, answers, 4, 7, mask);
    crate::walk::law_answers_to_indifferent_steps_do_not_matter(plan, answers, 4, filtered);
    assert(first.take(4) =~= answers.take(4));
    lemma_past_command(plan, first, 4, 7, mask);
    lemma_waits(plan, first, 5, 8, mask);
    crate::walk::law_answers_to_indifferent_steps_do_not_matter(plan, first, 5, synced);
}

/// Whether the device refuses the filter with a mask of the wrong length or not does not matter:
/// with another answer to it the test that hands the device such a mask ends in the same way, with
/// the same message where it fails.
pub proof fn law_propagation_ends_alike_whatever_the_mistake_leads_to(
    answers: Seq<Answer>,
    filtered: Answer,
)
    requires
        answers.len() >= 5,
    ensures
        crate::machine::run_of(
            crate::script::plan(
                "test_error_propagation",
                crate::categories::c16_async_pipeline::error_propagation_steps(),
            ),
            answers,
        ) == crate::machine::run_of(
            crate::script::plan(
                "test_error_propagation",
                crate::categories::c16_async_pipeline::error_propagation_steps(),
            ),
            answers.update(4, filtered),
        ),
{
    let plan = crate::script::plan(
        "test_error_propagation",
        crate::categories::c16_async_pipeline::error_propagation_steps(),
    );
    let blank = Contents::blank(plan.texts);
    assert(answers.take(0) =~= Seq::<Answer>::empty());
    let column = lemma_past_fill(plan, answers, 0, 0, blank);
    lemma_past_command(plan, answers, 0, 1, column);
    lemma_past_command(plan, answers, 1, 2, column);
    let counted = lemma_past_match(plan, answers, 2, 3, column);
    if comes_to(plan, answers, 3, 4, counted) {
        let edge = lemma_past_fill(plan, answers, 3, 4, counted);
        lemma_past_command(plan, answers, 3, 5, edge);
        let mask = lemma_past_fill(plan, answers, 4, 6, edge);
        lemma_waits(plan, answers, 4, 7, mask);
    }
    crate::walk::law_answers_to_indifferent_steps_do_not_matter(plan, answers, 4, filtered);
}

} // verus!
