//! The law of the test of what a device says of itself.

use vstd::prelude::*;
use crate::expr::{
    and, differs, ix, lt, modulo, not, num, or, pick, reg, same_as, times, wrap_plus, wrap_times,
};
use crate::machine::{Answer, Ending, Progress};
use crate::memory::Contents;
use crate::script::{Act, Otherwise, Request, Step};

verus! {

/// The version that the device says, put into two registers.
proof fn lemma_capability(
    steps: Seq<Step>,
    place: int,
    to: int,
    contents: Contents,
    answers: Seq<Answer>,
    used: int,
)
    requires
        place < to,
        contents.full(),
        0 <= used < answers.len(),
        answers[used] is Pair || answers[used] is Failed,
        crate::machine::taken(steps[place], contents) == Some(true),
        crate::machine::act_of(steps[place]) matches Act::Ask(request, otherwise) && {
            &&& request == (Request::Capability { major: 0, minor: 1 })
            &&& otherwise is Fail
        },
    ensures
        crate::walk::walked(steps, place, to, contents, answers, used) == match answers[used] {
            Answer::Pair(major, minor) => crate::walk::walked(
                steps,
                place + 1,
                to,
                contents.with_register(0, major).with_register(1, minor),
                answers,
                used + 1,
            ),
            _ => None,
        },
{
    reveal_with_fuel(crate::walk::walked, 2);
    reveal(crate::machine::effect_of);
    reveal(crate::machine::stored);
}

/// How many devices there are, as far as the device says; none where it refuses to say.
pub open spec fn devices(answer: Answer) -> u64 {
    match answer {
        Answer::Count(number) => number,
        _ => 0,
    }
}

/// The number of devices, put into a register.
pub proof fn lemma_devices(
    steps: Seq<Step>,
    place: int,
    to: int,
    contents: Contents,
    answers: Seq<Answer>,
    used: int,
    register: u64,
)
    requires
        place < to,
        contents.full(),
        register < contents.registers.len(),
        0 <= used < answers.len(),
        answers[used] is Count || answers[used] is Failed,
        crate::machine::taken(steps[place], contents) == Some(true),
        crate::machine::act_of(steps[place]) == Act::Ask(
            Request::Devices { into: register },
            Otherwise::Zero,
        ),
    ensures
        crate::walk::walked(steps, place, to, contents, answers, used) == crate::walk::walked(
            steps,
            place + 1,
            to,
            contents.with_register(register, devices(answers[used])),
            answers,
            used + 1,
        ),
{
    reveal_with_fuel(crate::walk::walked, 2);
    reveal(crate::machine::effect_of);
    reveal(crate::machine::stored);
}

/// Looking for an implausible version.
proof fn lemma_version(contents: Contents, major: u64, minor: u64)
    requires
        contents.full(),
        contents.registers[0] == major,
        contents.registers[1] == minor,
    ensures
        crate::expr::value_of(or(lt(reg(0), num(2)), lt(num(12), reg(0))), contents, 0) == Some(
            crate::expr::truth(!(2 <= major <= 12)),
        ),
        crate::expr::value_of(lt(num(9), reg(1)), contents, 0) == Some(
            crate::expr::truth(!(minor <= 9)),
        ),
{
    reveal_with_fuel(crate::expr::value_of, 3);
}

/// Looking for an implausible budget.
proof fn lemma_budget(contents: Contents, budget: u64, used: u64)
    requires
        contents.full(),
        contents.registers[2] == budget,
        contents.registers[3] == used,
    ensures
        crate::expr::value_of(lt(reg(2), times(num(1024), num(1024))), contents, 0) == Some(
            crate::expr::truth(!(budget >= 1048576)),
        ),
        crate::expr::value_of(and(lt(reg(2), reg(3)), lt(num(0), reg(2))), contents, 0) == Some(
            crate::expr::truth(!(used <= budget || budget == 0)),
        ),
{
    reveal_with_fuel(crate::expr::value_of, 3);
}

/// How many words are sorted on a device of a version.
pub open spec fn workload(major: u64) -> u64 {
    if major >= 7 {
        100000
    } else if major >= 5 {
        50000
    } else {
        10000
    }
}

/// The number of [`workload`].
proof fn lemma_workload(contents: Contents, major: u64)
    requires
        contents.full(),
        contents.registers[0] == major,
    ensures
        crate::expr::value_of(
            pick(
                not(lt(reg(0), num(7))),
                num(100000),
                pick(not(lt(reg(0), num(5))), num(50000), num(10000)),
            ),
            contents,
            0,
        ) == Some(workload(major)),
{
    let modern = not(lt(reg(0), num(7)));
    let recent = not(lt(reg(0), num(5)));
    assert(crate::expr::value_of(modern, contents, 0) == Some(crate::expr::truth(major >= 7))) by {
        reveal_with_fuel(crate::expr::value_of, 3);
    }
    assert(crate::expr::value_of(recent, contents, 0) == Some(crate::expr::truth(major >= 5))) by {
        reveal_with_fuel(crate::expr::value_of, 3);
    }
    assert(crate::expr::value_of(num(100000), contents, 0) == Some(100000u64));
    assert(crate::expr::value_of(num(50000), contents, 0) == Some(50000u64));
    assert(crate::expr::value_of(num(10000), contents, 0) == Some(10000u64));
    assert(crate::expr::value_of(pick(recent, num(50000), num(10000)), contents, 0) == Some(
        if major >= 5 {
            50000u64
        } else {
            10000u64
        },
    ));
}

/// The words that are sorted.
proof fn lemma_words(contents: Contents, major: u64)
    requires
        contents.full(),
        contents.registers[4] == workload(major),
    ensures
        crate::expr::value_of(reg(4), contents, 0) == Some(workload(major)),
        forall|i: int|
            0 <= i < workload(major) ==> #[trigger] crate::expr::value_of(
                modulo(wrap_plus(wrap_times(ix(), num(1103515245)), num(12345)), reg(4)),
                contents,
                i as u64,
            ) == Some(crate::laws::words::scattered(workload(major), workload(major))[i]),
{
    assert forall|i: int| 0 <= i < workload(major) implies #[trigger] crate::expr::value_of(
        modulo(wrap_plus(wrap_times(ix(), num(1103515245)), num(12345)), reg(4)),
        contents,
        i as u64,
    ) == Some(crate::laws::words::scattered(workload(major), workload(major))[i]) by {
        assert(crate::expr::value_of(ix(), contents, i as u64) == Some(i as u64));
        assert(crate::expr::value_of(num(1103515245), contents, i as u64) == Some(1103515245u64));
        assert(crate::expr::value_of(num(12345), contents, i as u64) == Some(12345u64));
        assert(crate::expr::value_of(reg(4), contents, i as u64) == Some(workload(major)));
        let spread = wrap_times(ix(), num(1103515245));
        assert(crate::expr::value_of(spread, contents, i as u64) == Some(
            (i * 1103515245) as u64,
        ));
        assert(crate::expr::value_of(wrap_plus(spread, num(12345)), contents, i as u64) == Some(
            (i * 1103515245 + 12345) as u64,
        ));
    }
}

/// Whether what is said of several devices does not agree with their number.
proof fn lemma_several(contents: Contents, several: u64, count: u64)
    requires
        contents.full(),
        contents.registers[5] == several,
        contents.registers[6] == count,
    ensures
        crate::expr::value_of(
            or(
                and(differs(reg(5), num(0)), not(lt(num(1), reg(6)))),
                and(same_as(reg(5), num(0)), lt(num(1), reg(6))),
            ),
            contents,
            0,
        ) == Some(crate::expr::truth(!(several != 0 <==> count > 1))),
{
    assert(crate::expr::value_of(differs(reg(5), num(0)), contents, 0) == Some(
        crate::expr::truth(several != 0),
    )) by {
        reveal_with_fuel(crate::expr::value_of, 3);
    }
    assert(crate::expr::value_of(same_as(reg(5), num(0)), contents, 0) == Some(
        crate::expr::truth(several == 0),
    )) by {
        reveal_with_fuel(crate::expr::value_of, 2);
    }
    assert(crate::expr::value_of(lt(num(1), reg(6)), contents, 0) == Some(
        crate::expr::truth(1 < count),
    )) by {
        reveal_with_fuel(crate::expr::value_of, 2);
    }
    let none = not(lt(num(1), reg(6)));
    assert(crate::expr::value_of(none, contents, 0) == Some(crate::expr::truth(!(1 < count))));
    assert(crate::expr::value_of(and(differs(reg(5), num(0)), none), contents, 0) == Some(
        crate::expr::truth(several != 0 && !(1 < count)),
    ));
    assert(crate::expr::value_of(
        and(same_as(reg(5), num(0)), lt(num(1), reg(6))),
        contents,
        0,
    ) == Some(crate::expr::truth(several == 0 && 1 < count)));
}

/// Whether the answers to the downloads of the test are columns or refusals.
pub open spec fn query_shaped(answers: Seq<Answer>) -> bool {
    &&& answers.len() >= 9
    &&& answers[0] is Pair || answers[0] is Failed
    &&& answers[1] is Count
    &&& answers[2] is Count
    &&& crate::laws::steps::column_or_refusal(answers[5])
    &&& answers[6] is Count
    &&& answers[7] is Count || answers[7] is Failed
}

/// What the device has to answer.
pub open spec fn query_answers(answers: Seq<Answer>) -> bool {
    &&& answers[0] is Pair
    &&& 2 <= answers[0]->Pair_0 <= 12
    &&& answers[0]->Pair_1 <= 9
    &&& answers[1]->Count_0 >= 1048576
    &&& answers[2]->Count_0 <= answers[1]->Count_0 || answers[1]->Count_0 == 0
    &&& !(answers[3] is Failed)
    &&& !(answers[4] is Failed)
    &&& answers[5] is Words
    &&& crate::laws::steps::rises(answers[5]->Words_0)
    &&& (answers[6]->Count_0 != 0 <==> devices(answers[7]) > 1)
    &&& !(answers[8] is Failed)
}

/// The steps of the test.
proof fn lemma_query_answers(contents: Contents, answers: Seq<Answer>)
    requires
        contents.full(),
        query_shaped(answers),
    ensures
        match crate::walk::walked(
            crate::categories::c20_multi_gpu::device_capability_query_steps(),
            0,
            17,
            contents,
            answers,
            0,
        ) {
            Some((after, next)) => {
                &&& query_answers(answers)
                &&& after.full()
                &&& next == 9
            },
            None => !query_answers(answers),
        },
        crate::categories::c20_multi_gpu::device_capability_query_steps().len() == 17,
{
    let steps = crate::categories::c20_multi_gpu::device_capability_query_steps();
    lemma_capability(steps, 0, 17, contents, answers, 0);
    if answers[0] is Pair {
        let next1 = contents.with_register(
            0,
            answers[0]->Pair_0,
        ).with_register(1, answers[0]->Pair_1);
        lemma_version(next1, answers[0]->Pair_0, answers[0]->Pair_1);
        crate::laws::steps::lemma_check(
            steps,
            1,
            17,
            next1,
            answers,
            1,
            !(2 <= answers[0]->Pair_0 <= 12),
        );
        lemma_version(next1, answers[0]->Pair_0, answers[0]->Pair_1);
        crate::laws::steps::lemma_check(
            steps,
            2,
            17,
            next1,
            answers,
            1,
            !(answers[0]->Pair_1 <= 9),
        );
        crate::laws::steps::lemma_number(steps, 3, 17, next1, answers, 1, answers[1]->Count_0);
        let next2 = next1.with_register(2, answers[1]->Count_0);
        crate::laws::steps::lemma_number(steps, 4, 17, next2, answers, 2, answers[2]->Count_0);
        let next3 = next2.with_register(3, answers[2]->Count_0);
        lemma_budget(next3, answers[1]->Count_0, answers[2]->Count_0);
        crate::laws::steps::lemma_check(
            steps,
            5,
            17,
            next3,
            answers,
            3,
            !(answers[1]->Count_0 >= 1048576),
        );
        lemma_budget(next3, answers[1]->Count_0, answers[2]->Count_0);
        crate::laws::steps::lemma_check(
            steps,
            6,
            17,
            next3,
            answers,
            3,
            !(answers[2]->Count_0 <= answers[1]->Count_0 || answers[1]->Count_0 == 0),
        );
        lemma_workload(next3, answers[0]->Pair_0);
        crate::laws::steps::lemma_put(
            steps,
            7,
            17,
            next3,
            answers,
            3,
            workload(answers[0]->Pair_0),
        );
        let next4 = next3.with_register(4, workload(answers[0]->Pair_0));
        lemma_words(next4, answers[0]->Pair_0);
        let words5 = crate::laws::words::scattered(
            workload(answers[0]->Pair_0),
            workload(answers[0]->Pair_0),
        );
        crate::laws::steps::lemma_fill(steps, 8, 17, next4, answers, 3, words5);
        let next5 = next4.with_column(0, words5);
        crate::laws::steps::lemma_command(steps, 9, 17, next5, answers, 3);
        crate::laws::steps::lemma_command(steps, 10, 17, next5, answers, 4);
        crate::laws::steps::lemma_download(steps, 11, 17, next5, answers, 5);
        if answers[5] is Words {
            let next6 = next5.with_column(1, answers[5]->Words_0);
            crate::laws::steps::lemma_scan_order(steps, 12, 17, next6, answers, 6, 1);
            crate::laws::steps::lemma_number(steps, 13, 17, next6, answers, 6, answers[6]->Count_0);
            let next7 = next6.with_register(5, answers[6]->Count_0);
            lemma_devices(steps, 14, 17, next7, answers, 7, 6);
            let next8 = next7.with_register(6, devices(answers[7]));
            lemma_several(next8, answers[6]->Count_0, devices(answers[7]));
            crate::laws::steps::lemma_check(
                steps,
                15,
                17,
                next8,
                answers,
                8,
                !((answers[6]->Count_0 != 0 <==> devices(answers[7]) > 1)),
            );
            crate::laws::steps::lemma_command(steps, 16, 17, next8, answers, 8);
            crate::laws::steps::lemma_end(steps, 17, next8, answers, 9);
        }
    }
}

/// The test has no jumps.
proof fn lemma_query_straight()
    ensures
        forall|j: int|
            0 <= j < crate::categories::c20_multi_gpu::device_capability_query_steps().len()
                ==> crate::walk::straight(
                #[trigger] crate::categories::c20_multi_gpu::device_capability_query_steps()[j],
            ),
{
}

/// The test of what a device says of itself passes exactly when its version is plausible, its
/// budget is at least a mebibyte and not exceeded, it sorts as many words as suit its version, and
/// what it says of several devices agrees with their number, where a refusal to say the number
/// counts as none.
pub proof fn law_query_passes_exactly_when_plausible_and_sorted(answers: Seq<Answer>)
    requires
        query_shaped(answers),
    ensures
        crate::machine::run_of(
            crate::script::plan(
                "test_device_capability_query",
                crate::categories::c20_multi_gpu::device_capability_query_steps(),
            ),
            answers,
        ).progress == Progress::Over(Ending::Passed) <==> query_answers(answers),
{
    let plan = crate::script::plan(
        "test_device_capability_query",
        crate::categories::c20_multi_gpu::device_capability_query_steps(),
    );
    let blank = Contents::blank(plan.texts);
    lemma_query_answers(blank, answers);
    lemma_query_straight();
    crate::walk::law_passes_exactly_when_every_step_goes_through(plan, answers);
}

} // verus!
