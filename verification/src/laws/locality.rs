//! The law of the test of memory locality.

use vstd::prelude::*;
use crate::machine::{Answer, Ending, Progress};
use crate::memory::Contents;
use crate::script::{Step, COUNT};

verus! {

/// The locality test passes exactly when the device does what it is asked, hands out the rising and
/// the falling column as the numbers from zero on, the scattered one in rising order, and keeps
/// half of the rows, half of them, and one in a hundred.
pub proof fn law_locality_passes_exactly_when_sorted_and_filtered(answers: Seq<Answer>)
    requires
        answers.len() >= 16,
        crate::laws::steps::column_or_refusal(answers[2]),
        crate::laws::steps::column_or_refusal(answers[5]),
        crate::laws::steps::column_or_refusal(answers[8]),
    ensures
        crate::machine::run_of(
            crate::script::plan(
                "test_memory_locality",
                crate::categories::c17_caching::memory_locality_steps(),
            ),
            answers,
        ).progress == Progress::Over(Ending::Passed) <==> {
            &&& !(answers[0] is Failed)
            &&& !(answers[1] is Failed)
            &&& answers[2] matches Answer::Words(rising)
            &&& crate::laws::steps::counts_up(rising)
            &&& !(answers[3] is Failed)
            &&& !(answers[4] is Failed)
            &&& answers[5] matches Answer::Words(reversed)
            &&& crate::laws::steps::counts_up(reversed)
            &&& !(answers[6] is Failed)
            &&& !(answers[7] is Failed)
            &&& answers[8] matches Answer::Words(scattered)
            &&& crate::laws::steps::rises(scattered)
            &&& !(answers[9] is Failed)
            &&& answers[10] == Answer::Count(50000)
            &&& !(answers[11] is Failed)
            &&& answers[12] == Answer::Count(50000)
            &&& !(answers[13] is Failed)
            &&& answers[14] == Answer::Count(1000)
            &&& !(answers[15] is Failed)
        },
{
    let steps = crate::categories::c17_caching::memory_locality_steps();
    let plan = crate::script::plan("test_memory_locality", steps);
    crate::walk::law_passes_exactly_when_every_step_goes_through(plan, answers);
    lemma_locality_1(steps, Contents::blank(plan.texts), answers);
}

/// Part 1 of the proof of [`law_locality_passes_exactly_when_sorted_and_filtered`].
proof fn lemma_locality_1(
    steps: Seq<Step>,
    contents: Contents,
    answers: Seq<Answer>,
)
    requires
        steps == crate::categories::c17_caching::memory_locality_steps(),
        contents.full(),
        answers.len() >= 16,
        crate::laws::steps::column_or_refusal(answers[2]),
        crate::laws::steps::column_or_refusal(answers[5]),
        crate::laws::steps::column_or_refusal(answers[8]),
    ensures
        crate::walk::walked(steps, 0, 25, contents, answers, 0) is Some <==> {
            &&& !(answers[0] is Failed)
            &&& !(answers[1] is Failed)
            &&& answers[2] matches Answer::Words(rising)
            &&& crate::laws::steps::counts_up(rising)
            &&& !(answers[3] is Failed)
            &&& !(answers[4] is Failed)
            &&& answers[5] matches Answer::Words(reversed)
            &&& crate::laws::steps::counts_up(reversed)
            &&& !(answers[6] is Failed)
            &&& !(answers[7] is Failed)
            &&& answers[8] matches Answer::Words(scattered)
            &&& crate::laws::steps::rises(scattered)
            &&& !(answers[9] is Failed)
            &&& answers[10] == Answer::Count(50000)
            &&& !(answers[11] is Failed)
            &&& answers[12] == Answer::Count(50000)
            &&& !(answers[13] is Failed)
            &&& answers[14] == Answer::Count(1000)
            &&& !(answers[15] is Failed)
        },
{
    crate::laws::words::lemma_below(100000, contents);
    let words1 = crate::laws::words::below(100000);
    crate::laws::steps::lemma_fill(steps, 0, 25, contents, answers, 0, words1);
    let next1 = contents.with_column(0, words1);
    crate::laws::steps::lemma_command(steps, 1, 25, next1, answers, 0);
    crate::laws::steps::lemma_command(steps, 2, 25, next1, answers, 1);
    crate::laws::steps::lemma_download(steps, 3, 25, next1, answers, 2);
    if answers[2] is Words {
        let rising = answers[2]->Words_0;
        let next2 = next1.with_column(1, rising);
        crate::laws::steps::lemma_scan_places(steps, 4, 25, next2, answers, 3, 1);
        crate::laws::words::lemma_falling(100000, next2);
        let words3 = crate::laws::words::falling(100000);
        crate::laws::steps::lemma_fill(steps, 5, 25, next2, answers, 3, words3);
        let next3 = next2.with_column(2, words3);
        crate::laws::steps::lemma_command(steps, 6, 25, next3, answers, 3);
        crate::laws::steps::lemma_command(steps, 7, 25, next3, answers, 4);
        crate::laws::steps::lemma_download(steps, 8, 25, next3, answers, 5);
        if answers[5] is Words {
            let reversed = answers[5]->Words_0;
            let next4 = next3.with_column(3, reversed);
            crate::laws::steps::lemma_scan_places(steps, 9, 25, next4, answers, 6, 3);
            lemma_locality_2(steps, next4, answers, rising, reversed);
        }
    }
}

/// Part 2 of the proof of [`law_locality_passes_exactly_when_sorted_and_filtered`].
proof fn lemma_locality_2(
    steps: Seq<Step>,
    contents: Contents,
    answers: Seq<Answer>,
    rising: Seq<u64>,
    reversed: Seq<u64>,
)
    requires
        steps == crate::categories::c17_caching::memory_locality_steps(),
        contents.full(),
        answers.len() >= 16,
        crate::laws::steps::column_or_refusal(answers[2]),
        crate::laws::steps::column_or_refusal(answers[5]),
        crate::laws::steps::column_or_refusal(answers[8]),
    ensures
        crate::walk::walked(steps, 10, 25, contents, answers, 6) is Some <==> {
            &&& !(answers[6] is Failed)
            &&& !(answers[7] is Failed)
            &&& answers[8] matches Answer::Words(scattered)
            &&& crate::laws::steps::rises(scattered)
            &&& !(answers[9] is Failed)
            &&& answers[10] == Answer::Count(50000)
            &&& !(answers[11] is Failed)
            &&& answers[12] == Answer::Count(50000)
            &&& !(answers[13] is Failed)
            &&& answers[14] == Answer::Count(1000)
            &&& !(answers[15] is Failed)
        },
{
    crate::laws::words::lemma_scattered(100000, 100000, contents);
    let words1 = crate::laws::words::scattered(100000, 100000);
    crate::laws::steps::lemma_fill(steps, 10, 25, contents, answers, 6, words1);
    let next1 = contents.with_column(4, words1);
    crate::laws::steps::lemma_command(steps, 11, 25, next1, answers, 6);
    crate::laws::steps::lemma_command(steps, 12, 25, next1, answers, 7);
    crate::laws::steps::lemma_download(steps, 13, 25, next1, answers, 8);
    if answers[8] is Words {
        let scattered = answers[8]->Words_0;
        let next2 = next1.with_column(5, scattered);
        crate::laws::steps::lemma_scan_order(steps, 14, 25, next2, answers, 9, 5);
        lemma_locality_3(steps, next2, answers, rising, reversed, scattered);
    }
}

/// Part 3 of the proof of [`law_locality_passes_exactly_when_sorted_and_filtered`].
proof fn lemma_locality_3(
    steps: Seq<Step>,
    contents: Contents,
    answers: Seq<Answer>,
    rising: Seq<u64>,
    reversed: Seq<u64>,
    scattered: Seq<u64>,
)
    requires
        steps == crate::categories::c17_caching::memory_locality_steps(),
        contents.full(),
        answers.len() >= 16,
        crate::laws::steps::column_or_refusal(answers[2]),
        crate::laws::steps::column_or_refusal(answers[5]),
        crate::laws::steps::column_or_refusal(answers[8]),
    ensures
        crate::walk::walked(steps, 15, 25, contents, answers, 9) is Some <==> {
            &&& !(answers[9] is Failed)
            &&& answers[10] == Answer::Count(50000)
            &&& !(answers[11] is Failed)
            &&& answers[12] == Answer::Count(50000)
            &&& !(answers[13] is Failed)
            &&& answers[14] == Answer::Count(1000)
            &&& !(answers[15] is Failed)
        },
{
    crate::laws::words::lemma_leading(50000, 100000, contents);
    let words1 = crate::laws::words::leading(50000, 100000);
    crate::laws::steps::lemma_fill(steps, 15, 25, contents, answers, 9, words1);
    let next1 = contents.with_column(6, words1);
    crate::laws::steps::lemma_command(steps, 16, 25, next1, answers, 9);
    crate::laws::steps::lemma_match(steps, 17, 25, next1, answers, 10, 50000);
    let next2 = next1.with_register(COUNT, 50000);
    crate::laws::masks::lemma_remainder_words(2, 100000, next2);
    let words3 = crate::laws::masks::every(2, 100000);
    crate::laws::steps::lemma_fill(steps, 18, 25, next2, answers, 11, words3);
    let next3 = next2.with_column(7, words3);
    crate::laws::steps::lemma_command(steps, 19, 25, next3, answers, 11);
    crate::laws::steps::lemma_match(steps, 20, 25, next3, answers, 12, 50000);
    let next4 = next3.with_register(COUNT, 50000);
    crate::laws::masks::lemma_remainder_words(100, 100000, next4);
    let words5 = crate::laws::masks::every(100, 100000);
    crate::laws::steps::lemma_fill(steps, 21, 25, next4, answers, 13, words5);
    let next5 = next4.with_column(8, words5);
    crate::laws::steps::lemma_command(steps, 22, 25, next5, answers, 13);
    crate::laws::steps::lemma_match(steps, 23, 25, next5, answers, 14, 1000);
    let next6 = next5.with_register(COUNT, 1000);
    crate::laws::steps::lemma_command(steps, 24, 25, next6, answers, 15);
    crate::laws::steps::lemma_end(steps, 25, next6, answers, 16);
}

} // verus!
