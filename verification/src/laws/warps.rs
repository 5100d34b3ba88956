//! The law of the test of values that are equal within a warp.

use vstd::prelude::*;
use crate::expr::{count_in, differs, ix, num, reg};
use crate::machine::{Answer, Ending, Progress};
use crate::memory::Contents;
use crate::script::{Act, Faults, Step};

verus! {

/// Whether each of the first 32 numbers occurs 32 times.
pub open spec fn warps_are_whole(words: Seq<u64>) -> bool {
    forall|i: int| 0 <= i < 32 ==> crate::columns::occurrences(words, #[trigger] (i as u64)) == 32
}

/// Whether a row count is not the expected one.
proof fn lemma_count(contents: Contents, expected: u64)
    requires
        contents.full(),
    ensures
        crate::expr::value_of(differs(reg(0), num(expected)), contents, 0) == Some(
            crate::expr::truth(contents.registers[0] != expected),
        ),
{
    reveal_with_fuel(crate::expr::value_of, 4);
}

/// A scan for numbers that do not occur 32 times.
#[verifier::spinoff_prover]
#[verifier::rlimit(50)]
proof fn lemma_scan_warps(
    steps: Seq<Step>,
    at: int,
    to: int,
    contents: Contents,
    answers: Seq<Answer>,
    used: int,
)
    requires
        at < to,
        contents.full(),
        contents.columns[1].len() <= u64::MAX,
        crate::machine::taken(steps[at], contents) == Some(true),
        crate::machine::act_of(steps[at]) matches Act::Scan { low, high, by, faults } && {
            &&& low == num(0)
            &&& high == num(32)
            &&& by == 1
            &&& faults matches Faults::One(fault, _)
            &&& fault == differs(count_in(1, ix()), num(32))
        },
    ensures
        crate::walk::walked(steps, at, to, contents, answers, used) == (if warps_are_whole(
            contents.columns[1],
        ) {
            crate::walk::walked(steps, at + 1, to, contents, answers, used)
        } else {
            None
        }),
{
    let words = contents.columns[1];
    match crate::machine::act_of(steps[at]) {
        Act::Scan { faults, .. } => {
            crate::laws::steps::lemma_scan(steps, at, to, contents, answers, used, 0, 32);
            assert forall|i: int| 0 <= i < 32 implies (#[trigger] crate::walk::shows(
                faults,
                contents,
                i as u64,
            ) <==> crate::columns::occurrences(words, i as u64) != 32) by {
                lemma_occurrences(words, i as u64);
                reveal_with_fuel(crate::expr::value_of, 5);
            }
            if !warps_are_whole(words) {
                let i = choose|i: int|
                    0 <= i < 32 && crate::columns::occurrences(words, #[trigger] (i as u64)) != 32;
                assert(crate::walk::shows(faults, contents, i as u64));
            }
        },
        _ => {},
    }
}

/// A word occurs no more often than there are words.
proof fn lemma_occurrences(words: Seq<u64>, word: u64)
    ensures
        0 <= crate::columns::occurrences(words, word) <= words.len(),
    decreases words.len(),
{
    if words.len() > 0 {
        lemma_occurrences(words.drop_last(), word);
    }
}

/// Whether the answers to the downloads of the test are columns or refusals.
pub open spec fn warps_shaped(answers: Seq<Answer>) -> bool {
    &&& answers.len() >= 9
    &&& crate::laws::steps::column_or_refusal(answers[2])
    &&& answers[4] is Count
    &&& answers[7] is Count
}

/// What the device has to answer.
pub open spec fn warps_all(answers: Seq<Answer>) -> bool {
    &&& !(answers[0] is Failed)
    &&& !(answers[1] is Failed)
    &&& answers[2] is Words
    &&& warps_are_whole(answers[2]->Words_0)
    &&& crate::laws::steps::rises_to(answers[2]->Words_0, 1024)
    &&& !(answers[3] is Failed)
    &&& answers[4]->Count_0 == 32
    &&& !(answers[5] is Failed)
    &&& !(answers[6] is Failed)
    &&& answers[7]->Count_0 == 1
    &&& !(answers[8] is Failed)
}

/// The steps of the test.
proof fn lemma_warps_all(contents: Contents, answers: Seq<Answer>)
    requires
        contents.full(),
        warps_shaped(answers),
    ensures
        match crate::walk::walked(
            crate::categories::c09_warp_level::warp_uniform_patterns_steps(),
            0,
            15,
            contents,
            answers,
            0,
        ) {
            Some((after, next)) => {
                &&& warps_all(answers)
                &&& after.full()
                &&& next == 9
            },
            None => !warps_all(answers),
        },
        crate::categories::c09_warp_level::warp_uniform_patterns_steps().len() == 15,
{
    let steps = crate::categories::c09_warp_level::warp_uniform_patterns_steps();
    crate::laws::duplicates::lemma_grouped(32, 1024, contents);
    let words1 = crate::laws::duplicates::grouped(32, 1024);
    crate::laws::steps::lemma_fill(steps, 0, 15, contents, answers, 0, words1);
    let next1 = contents.with_column(0, words1);
    crate::laws::steps::lemma_command(steps, 1, 15, next1, answers, 0);
    crate::laws::steps::lemma_command(steps, 2, 15, next1, answers, 1);
    crate::laws::steps::lemma_download(steps, 3, 15, next1, answers, 2);
    if answers[2] is Words {
        let next2 = next1.with_column(1, answers[2]->Words_0);
        lemma_scan_warps(steps, 4, 15, next2, answers, 3);
        crate::laws::steps::lemma_scan_order_to(steps, 5, 15, next2, answers, 3, 1, 1024);
        crate::laws::steps::lemma_command(steps, 6, 15, next2, answers, 3);
        crate::laws::steps::lemma_number(steps, 7, 15, next2, answers, 4, answers[4]->Count_0);
        let next3 = next2.with_register(0, answers[4]->Count_0);
        lemma_count(next3, 32);
        crate::laws::steps::lemma_check(
            steps,
            8,
            15,
            next3,
            answers,
            5,
            !(answers[4]->Count_0 == 32),
        );
        crate::laws::words::lemma_constant(42, 1024, next3);
        let words4 = crate::laws::words::constant(42, 1024);
        crate::laws::steps::lemma_fill(steps, 9, 15, next3, answers, 5, words4);
        let next4 = next3.with_column(2, words4);
        crate::laws::steps::lemma_command(steps, 10, 15, next4, answers, 5);
        crate::laws::steps::lemma_command(steps, 11, 15, next4, answers, 6);
        crate::laws::steps::lemma_number(steps, 12, 15, next4, answers, 7, answers[7]->Count_0);
        let next5 = next4.with_register(0, answers[7]->Count_0);
        lemma_count(next5, 1);
        crate::laws::steps::lemma_check(
            steps,
            13,
            15,
            next5,
            answers,
            8,
            !(answers[7]->Count_0 == 1),
        );
        crate::laws::steps::lemma_command(steps, 14, 15, next5, answers, 8);
        crate::laws::steps::lemma_end(steps, 15, next5, answers, 9);
    }
}

/// The test has no jumps.
proof fn lemma_warps_straight()
    ensures
        forall|j: int|
            0 <= j < crate::categories::c09_warp_level::warp_uniform_patterns_steps().len()
                ==> crate::walk::straight(
            #[trigger] crate::categories::c09_warp_level::warp_uniform_patterns_steps()[j],
        ),
{
}

/// The test of values that are equal within a warp passes exactly when each value comes back 32
/// times and in rising order, and removing duplicates leaves 32 values, and one where all are the
/// same.
pub proof fn law_uniform_warps_pass_exactly_when_kept_whole(answers: Seq<Answer>)
    requires
        warps_shaped(answers),
    ensures
        crate::machine::run_of(
            crate::script::plan(
                "test_warp_uniform_patterns",
                crate::categories::c09_warp_level::warp_uniform_patterns_steps(),
            ),
            answers,
        ).progress == Progress::Over(Ending::Passed) <==> warps_all(answers),
{
    let plan = crate::script::plan(
        "test_warp_uniform_patterns",
        crate::categories::c09_warp_level::warp_uniform_patterns_steps(),
    );
    let blank = Contents::blank(plan.texts);
    lemma_warps_all(blank, answers);
    lemma_warps_straight();
    crate::walk::law_passes_exactly_when_every_step_goes_through(plan, answers);
}

} // verus!
