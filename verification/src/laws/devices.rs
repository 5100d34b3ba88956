//! Laws of the tests that count devices.

use vstd::prelude::*;
use crate::expr::{lt, num, reg, same_as};
use crate::machine::{Answer, Ending, Progress};
use crate::memory::Contents;
use crate::script::{Act, Request, Step, COUNT};

verus! {

/// The detection of several devices passes exactly when the device still sorts, whatever is said
/// of several devices and whether their number can be had or not: what is said of them is for
/// information only.
pub proof fn law_detection_passes_exactly_when_the_device_works(answers: Seq<Answer>)
    requires
        answers.len() >= 6,
        answers[0] is Count,
        answers[1] is Count || answers[1] is Failed,
    ensures
        crate::machine::run_of(
            crate::script::plan(
                "test_multi_gpu_detection",
                crate::categories::c20_multi_gpu::multi_gpu_detection_steps(),
            ),
            answers,
        ).progress == Progress::Over(Ending::Passed) <==> {
            &&& !(answers[2] is Failed)
            &&& !(answers[3] is Failed)
            &&& answers[4] == Answer::Count(1000)
            &&& !(answers[5] is Failed)
        },
{
    let steps = crate::categories::c20_multi_gpu::multi_gpu_detection_steps();
    let plan = crate::script::plan("test_multi_gpu_detection", steps);
    let blank = Contents::blank(plan.texts);
    crate::walk::law_passes_exactly_when_every_step_goes_through(plan, answers);
    let several = answers[0]->Count_0;
    crate::laws::steps::lemma_number(steps, 0, 7, blank, answers, 0, several);
    let first = blank.with_register(0, several);
    crate::laws::queries::lemma_devices(steps, 1, 7, first, answers, 1, 1);
    let second = first.with_register(1, crate::laws::queries::devices(answers[1]));
    let rising = crate::laws::words::below(1000);
    crate::laws::words::lemma_below(1000, second);
    crate::laws::steps::lemma_fill(steps, 2, 7, second, answers, 2, rising);
    let third = second.with_column(0, rising);
    crate::laws::steps::lemma_command(steps, 3, 7, third, answers, 2);
    crate::laws::steps::lemma_command(steps, 4, 7, third, answers, 3);
    crate::laws::steps::lemma_match(steps, 5, 7, third, answers, 4, 1000);
    let fourth = third.with_register(COUNT, 1000);
    crate::laws::steps::lemma_command(steps, 6, 7, fourth, answers, 5);
    crate::laws::steps::lemma_end(steps, 7, fourth, answers, 6);
}

/// The enumeration of devices is given up where there are none, whatever else is answered.
pub proof fn law_enumeration_is_given_up_without_devices(answers: Seq<Answer>)
    requires
        answers.len() > 0,
        answers[0] == Answer::Count(0),
    ensures
        crate::machine::run_of(
            crate::script::plan(
                "test_device_enumeration",
                crate::categories::c20_multi_gpu::device_enumeration_steps(),
            ),
            answers,
        ).progress == Progress::Over(Ending::Skipped("No CUDA devices available")),
{
    let steps = crate::categories::c20_multi_gpu::device_enumeration_steps();
    let plan = crate::script::plan("test_device_enumeration", steps);
    let blank = Contents::blank(plan.texts);
    let after = blank.with_register(0, 0);
    crate::laws::steps::lemma_number(steps, 0, 1, blank, answers, 0, 0);
    crate::laws::steps::lemma_end(steps, 1, after, answers, 1);
    crate::walk::law_steps_are_taken_in_order(plan, 1, answers);
    assert(crate::expr::value_of(same_as(reg(0), num(0)), after, 0) == Some(1u64)) by {
        reveal_with_fuel(crate::expr::value_of, 3);
    }
    assert(crate::machine::settled(steps, 1, after).progress == Progress::Over(
        Ending::Skipped("No CUDA devices available"),
    )) by {
        reveal(crate::machine::effect_of);
    }
    assert(answers =~= answers.take(1) + answers.skip(1));
    crate::walk::law_ends_are_final(plan, answers.take(1), answers.skip(1));
}

/// A number of devices that is asked for, where a refusal ends the test.
proof fn lemma_told(
    steps: Seq<Step>,
    place: int,
    to: int,
    contents: Contents,
    answers: Seq<Answer>,
    used: int,
    register: u64,
)
    requires
        place < to,
        register < contents.registers.len(),
        0 <= used < answers.len(),
        answers[used] is Count || answers[used] is Failed,
        crate::machine::taken(steps[place], contents) == Some(true),
        crate::machine::act_of(steps[place]) matches Act::Ask(request, otherwise) && {
            &&& request == (Request::Devices { into: register })
            &&& otherwise is Fail
        },
    ensures
        crate::walk::walked(steps, place, to, contents, answers, used) == match answers[used] {
            Answer::Count(count) => crate::walk::walked(
                steps,
                place + 1,
                to,
                contents.with_register(register, count),
                answers,
                used + 1,
            ),
            _ => None,
        },
{
    reveal_with_fuel(crate::walk::walked, 2);
    reveal(crate::machine::effect_of);
    reveal(crate::machine::stored);
}

/// Giving up where there are no devices.
proof fn lemma_none_found(
    steps: Seq<Step>,
    place: int,
    to: int,
    contents: Contents,
    answers: Seq<Answer>,
    used: int,
)
    requires
        place < to,
        contents.full(),
        crate::machine::taken(steps[place], contents) == Some(true),
        crate::machine::act_of(steps[place]) matches Act::Skip { when, .. } && when == same_as(
            reg(0),
            num(0),
        ),
    ensures
        crate::walk::walked(steps, place, to, contents, answers, used) == (
        if contents.registers[0] != 0 {
            crate::walk::walked(steps, place + 1, to, contents, answers, used)
        } else {
            None
        }),
{
    assert(crate::expr::value_of(same_as(reg(0), num(0)), contents, 0) == Some(
        crate::expr::truth(contents.registers[0] == 0),
    )) by {
        reveal_with_fuel(crate::expr::value_of, 2);
    }
    reveal_with_fuel(crate::walk::walked, 2);
    reveal(crate::machine::effect_of);
}

/// The enumeration of devices passes exactly when there are one to sixteen of them, the first one
/// sorts, and asking again gives the same number.
pub proof fn law_enumeration_passes_exactly_when_the_number_stays(answers: Seq<Answer>)
    requires
        answers.len() >= 7,
        answers[0] is Count || answers[0] is Failed,
        answers[5] is Count || answers[5] is Failed,
    ensures
        crate::machine::run_of(
            crate::script::plan(
                "test_device_enumeration",
                crate::categories::c20_multi_gpu::device_enumeration_steps(),
            ),
            answers,
        ).progress == Progress::Over(Ending::Passed) <==> {
            &&& answers[0] matches Answer::Count(count) && 0 < count <= 16
            &&& !(answers[1] is Failed)
            &&& !(answers[2] is Failed)
            &&& answers[3] == Answer::Count(1000)
            &&& answers[5] == answers[0]
            &&& !(answers[6] is Failed)
        },
{
    let steps = crate::categories::c20_multi_gpu::device_enumeration_steps();
    let plan = crate::script::plan("test_device_enumeration", steps);
    let blank = Contents::blank(plan.texts);
    crate::walk::law_passes_exactly_when_every_step_goes_through(plan, answers);
    lemma_told(steps, 0, 11, blank, answers, 0, 0);
    if answers[0] is Count {
        let count = answers[0]->Count_0;
        let first = blank.with_register(0, count);
        lemma_none_found(steps, 1, 11, first, answers, 1);
        assert(crate::expr::value_of(lt(num(16), reg(0)), first, 0) == Some(
            crate::expr::truth(16 < count),
        )) by {
            reveal_with_fuel(crate::expr::value_of, 2);
        }
        crate::laws::steps::lemma_check(steps, 2, 11, first, answers, 1, 16 < count);
        let rising = crate::laws::words::below(1000);
        crate::laws::words::lemma_below(1000, first);
        crate::laws::steps::lemma_fill(steps, 3, 11, first, answers, 1, rising);
        let second = first.with_column(0, rising);
        crate::laws::steps::lemma_command(steps, 4, 11, second, answers, 1);
        crate::laws::steps::lemma_command(steps, 5, 11, second, answers, 2);
        crate::laws::steps::lemma_match(steps, 6, 11, second, answers, 3, 1000);
        let third = second.with_register(COUNT, 1000);
        crate::laws::steps::lemma_command(steps, 7, 11, third, answers, 4);
        lemma_told(steps, 8, 11, third, answers, 5, 1);
        if answers[5] is Count {
            let again = answers[5]->Count_0;
            let fourth = third.with_register(1, again);
            assert(crate::expr::value_of(reg(1), fourth, 0) == Some(again));
            crate::laws::steps::lemma_register(fourth, 0, reg(1), again);
            crate::laws::steps::lemma_check(steps, 9, 11, fourth, answers, 6, count != again);
            crate::laws::steps::lemma_command(steps, 10, 11, fourth, answers, 6);
            crate::laws::steps::lemma_end(steps, 11, fourth, answers, 7);
        }
    }
}

} // verus!
