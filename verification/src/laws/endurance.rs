//! The law of the test of sustained operation.

use vstd::prelude::*;
use crate::expr::{
    alike, and, here, ix, less_or_zero, lt, modulo, not, num, or, over, plus, reg, same_as, times,
};
use crate::machine::{Answer, Ending, Progress};
use crate::memory::Contents;
use crate::scalar::Scalar;
use crate::script::{
    attempt, deadline, elapsed, fill, only, put, release, rows, sort_column, tick, Act, Layout,
    Otherwise, Plan, Request, Step, COUNT,
};

verus! {

/// The test of sustained operation.
#[verifier::opaque]
pub open spec fn sustained() -> Plan {
    crate::script::plan(
        "test_sustained_operation",
        crate::categories::c21_hardware::sustained_operation_steps(),
    )
}

/// Whether each answer is of the form that the request before it asks for.
pub open spec fn fitting(plan: Plan, answers: Seq<Answer>) -> bool {
    forall|n: int|
        0 <= n < answers.len() ==> match crate::machine::run_of(plan, answers.take(n)).progress {
            Progress::Asking { request, .. } => crate::machine::answers(
                request,
                #[trigger] answers[n],
            ),
            Progress::Over(_) => true,
        }
}

/// The words that are sorted again and again.
pub open spec fn reference() -> Seq<u64> {
    crate::laws::words::scattered(50000, 50000)
}

/// The words that are sorted again and again, in order.
pub open spec fn expected() -> Seq<u64> {
    crate::columns::sorted(Scalar::U32, reference())
}

/// How a round of the sorts ends that hears the answers from number `used` on: the number of the
/// answer after it, and whether the sort was completed. Every tenth result is held against the
/// expected one: where it is wrong, or the device shows an error after it, the test ends in the
/// round.
pub open spec fn sort_round(answers: Seq<Answer>, used: int, done: int) -> Option<(int, bool)> {
    if answers[used] is Failed {
        Some((used + 2, false))
    } else if answers[used + 1] is Failed {
        Some((used + 3, false))
    } else if done % 10 != 0 {
        Some((used + 3, true))
    } else if answers[used + 2] is Failed {
        Some((used + 4, false))
    } else if answers[used + 2] == Answer::Words(expected()) && !(answers[used + 3] is Failed) {
        Some((used + 5, true))
    } else {
        None
    }
}

/// How the sorts end that hear the answers from number `used` on, if they go on until the first
/// timer is up: the number of the answer after them, how many were completed, and how many were
/// refused.
pub open spec fn sorts(answers: Seq<Answer>, used: int, done: int, refused: int) -> Option<
    (int, int, int),
>
    decreases
        if used < answers.len() {
            answers.len() - used
        } else {
            0
        },
{
    if used >= answers.len() {
        None
    } else {
        match answers[used] {
            Answer::Count(left) => if left == 0 {
                Some((used + 1, done, refused))
            } else {
                match sort_round(answers, used + 1, done) {
                    Some((next, completed)) => if completed {
                        sorts(answers, next, done + 1, refused)
                    } else {
                        sorts(answers, next, done, refused + 1)
                    },
                    None => None,
                }
            },
            _ => None,
        }
    }
}

/// Whether a number of rows is within a tenth of all rows of the share that filter `k` keeps.
pub open spec fn about(rows: u64, k: int) -> bool {
    crate::laws::stress::share(k) * 500 - 5000 <= rows <= crate::laws::stress::share(k) * 500 + 5001
}

/// The number of the answer after the filters that hear the answers from number `used` on, filter
/// `k` first, if they go on until the second timer is up and each leaves about as many rows as it
/// keeps.
pub open spec fn filters(answers: Seq<Answer>, used: int, k: int) -> Option<int>
    decreases
        if used < answers.len() {
            answers.len() - used
        } else {
            0
        },
{
    if used >= answers.len() {
        None
    } else {
        match answers[used] {
            Answer::Count(left) => if left == 0 {
                Some(used + 1)
            } else if !(answers[used + 1] is Failed) && about(answers[used + 2]->Count_0, k) {
                filters(answers, used + 4, k + 1)
            } else {
                None
            },
            _ => None,
        }
    }
}

/// The number of the answer after the joins that hear the answers from number `used` on, if they
/// go on until the third timer is up and each gives five hundred rows.
pub open spec fn joins(answers: Seq<Answer>, used: int) -> Option<int>
    decreases
        if used < answers.len() {
            answers.len() - used
        } else {
            0
        },
{
    if used >= answers.len() {
        None
    } else {
        match answers[used] {
            Answer::Count(left) => if left == 0 {
                Some(used + 1)
            } else if !(answers[used + 1] is Failed) && answers[used + 2] == Answer::Count(500) {
                joins(answers, used + 4)
            } else {
                None
            },
            _ => None,
        }
    }
}

/// Whether the joins, and all after them, go through.
pub open spec fn joins_endured(answers: Seq<Answer>, used: int) -> bool {
    &&& !(answers[used] is Failed)
    &&& !(answers[used + 1] is Failed)
    &&& joins(answers, used + 3) matches Some(next)
    &&& next < answers.len()
    &&& !(answers[next] is Failed)
}

/// Whether the filters, and all after them, go through.
pub open spec fn filters_endured(answers: Seq<Answer>, used: int) -> bool {
    &&& !(answers[used] is Failed)
    &&& filters(answers, used + 2, 0) matches Some(next)
    &&& joins_endured(answers, next)
}

/// Whether the test goes through: at least ten sorts are completed, with no more than one refused
/// for each hundred of them, and the filters and joins after them go through.
pub open spec fn endured(answers: Seq<Answer>) -> bool {
    &&& sorts(answers, 1, 0, 0) matches Some((next, done, refused))
    &&& done >= 10
    &&& refused <= done / 100
    &&& filters_endured(answers, next)
}

/// Whether the test passes.
spec fn passes(answers: Seq<Answer>) -> bool {
    crate::machine::run_of(sustained(), answers).progress == Progress::Over(Ending::Passed)
}

/// The steps that ask the clocks.
proof fn lemma_clock_steps()
    ensures
        sustained().steps.len() == 46,
        sustained().steps[5] == tick(0, 6, 15),
        sustained().steps[14] == tick(0, 6, 15),
        sustained().steps[21] == tick(1, 22, 31),
        sustained().steps[30] == tick(1, 22, 31),
        sustained().steps[39] == tick(2, 40, 45),
        sustained().steps[44] == tick(2, 40, 45),
{
    reveal(sustained);
}

/// The steps before the sorts.
proof fn lemma_first_steps()
    ensures
        sustained().steps.len() == 46,
        forall|k: int| 0 <= k < 5 ==> crate::walk::straight(#[trigger] sustained().steps[k]),
        sustained().steps[0] == deadline(0, 5, true),
        sustained().steps[1] == fill(
            0,
            num(50000),
            modulo(plus(times(ix(), num(1103515245)), num(12345)), num(50000)),
        ),
        sustained().steps[2] == sort_column(1, 0, Scalar::U32),
        sustained().steps[3] == put(0, num(0)),
        sustained().steps[4] == put(1, num(0)),
{
    reveal(sustained);
}

/// The steps of a sort that may be refused.
proof fn lemma_sort_steps()
    ensures
        sustained().steps.len() == 46,
        sustained().steps[6] == attempt(
            Request::Create { into: 0, layout: Layout::Val, scalar: Scalar::U32, from: 0 },
            Otherwise::Jump { bump: 1, to: 13 },
        ),
        sustained().steps[7] == attempt(
            Request::Sort { of: 0, keys: 1, into: 1 },
            Otherwise::Jump { bump: 1, to: 13 },
        ),
        sustained().steps[8] == only(
            same_as(modulo(reg(0), num(10)), num(0)),
            attempt(
                Request::Download { of: 1, column: 0, scalar: Scalar::U32, into: 2 },
                Otherwise::Jump { bump: 1, to: 13 },
            ),
        ),
{
    reveal(sustained);
}

/// The steps after a sort.
proof fn lemma_sorted_steps()
    ensures
        sustained().steps.len() == 46,
        forall|k: int| 9 <= k < 14 ==> crate::walk::straight(#[trigger] sustained().steps[k]),
        sustained().steps[9] == only(
            and(same_as(modulo(reg(0), num(10)), num(0)), not(alike(2, 1))),
            elapsed(),
        ),
        sustained().steps[10] matches Step::When(condition, Act::Check { fault, .. }) && condition
            == same_as(modulo(reg(0), num(10)), num(0)) && fault == not(alike(2, 1)),
        sustained().steps[11] matches Step::When(
            condition,
            Act::Ask(Request::Sync, Otherwise::Fail(_)),
        ) && condition == same_as(modulo(reg(0), num(10)), num(0)),
        sustained().steps[12] == put(0, plus(reg(0), num(1))),
        sustained().steps[13] == release(0),
{
    reveal(sustained);
}

/// The steps between the sorts and the filters.
proof fn lemma_middle_steps()
    ensures
        sustained().steps.len() == 46,
        forall|k: int| 15 <= k < 21 ==> crate::walk::straight(#[trigger] sustained().steps[k]),
        sustained().steps[15] matches Step::Do(Act::Check { fault, .. }) && fault == lt(
            reg(0),
            num(10),
        ),
        sustained().steps[16] matches Step::Do(Act::Check { fault, .. }) && fault == lt(
            over(reg(0), num(100)),
            reg(1),
        ),
        sustained().steps[17] == fill(3, num(50000), ix()),
        sustained().steps[18] matches Step::Do(
            Act::Ask(Request::Create { .. }, Otherwise::Fail(_)),
        ),
        sustained().steps[19] == deadline(1, 2, false),
        sustained().steps[20] == put(2, num(0)),
{
    reveal(sustained);
}

/// The steps of a filter.
proof fn lemma_filter_steps()
    ensures
        sustained().steps.len() == 46,
        forall|k: int| 22 <= k < 30 ==> crate::walk::straight(#[trigger] sustained().steps[k]),
        sustained().steps[22] == put(3, times(plus(modulo(reg(2), num(10)), num(1)), num(10))),
        sustained().steps[23] == fill(
            4,
            num(50000),
            lt(over(times(ix(), num(100)), num(50000)), reg(3)),
        ),
        sustained().steps[24] matches Step::Do(
            Act::Ask(Request::Filter { .. }, Otherwise::Fail(_)),
        ),
        sustained().steps[25] == put(4, over(times(num(50000), reg(3)), num(100))),
        sustained().steps[26] == rows(3, 5),
        sustained().steps[27] matches Step::Do(Act::Check { fault, .. }) && fault == or(
            lt(reg(5), less_or_zero(reg(4), num(5000))),
            lt(plus(plus(reg(4), num(5000)), num(1)), reg(5)),
        ),
        sustained().steps[28] == put(2, plus(reg(2), num(1))),
        sustained().steps[29] == release(3),
{
    reveal(sustained);
}

/// The steps between the filters and the joins.
proof fn lemma_table_steps()
    ensures
        sustained().steps.len() == 46,
        forall|k: int| 31 <= k < 39 ==> crate::walk::straight(#[trigger] sustained().steps[k]),
        sustained().steps[31] == fill(5, num(1000), ix()),
        sustained().steps[32] == fill(6, num(1000), times(here(5), num(2))),
        sustained().steps[33] == fill(7, num(500), times(ix(), num(2))),
        sustained().steps[34] == fill(8, num(500), times(here(7), num(3))),
        sustained().steps[35] matches Step::Do(
            Act::Ask(Request::Create { .. }, Otherwise::Fail(_)),
        ),
        sustained().steps[36] matches Step::Do(
            Act::Ask(Request::Create { .. }, Otherwise::Fail(_)),
        ),
        sustained().steps[37] == deadline(2, 2, false),
        sustained().steps[38] == put(6, num(0)),
{
    reveal(sustained);
}

/// The steps of a join, and the last one.
proof fn lemma_join_steps()
    ensures
        sustained().steps.len() == 46,
        forall|k: int| 40 <= k < 44 ==> crate::walk::straight(#[trigger] sustained().steps[k]),
        crate::walk::straight(sustained().steps[45]),
        sustained().steps[40] matches Step::Do(
            Act::Ask(Request::Join { .. }, Otherwise::Fail(_)),
        ),
        sustained().steps[41] matches Step::Do(Act::Match { expected, .. }) && expected == num(
            500,
        ),
        sustained().steps[42] == put(6, plus(reg(6), num(1))),
        sustained().steps[43] == release(5),
        sustained().steps[45] matches Step::Do(Act::Ask(Request::Sync, Otherwise::Fail(_))),
{
    reveal(sustained);
}

/// A request that leaves nothing behind, if there is an answer to it.
proof fn lemma_command(
    steps: Seq<Step>,
    at: int,
    to: int,
    contents: Contents,
    answers: Seq<Answer>,
    used: int,
)
    requires
        at < to,
        0 <= used,
        crate::machine::taken(steps[at], contents) == Some(true),
        crate::machine::act_of(steps[at]) matches Act::Ask(request, otherwise) && {
            &&& otherwise is Fail || otherwise is Go
            &&& match request {
                Request::Create { .. } => true,
                Request::Filter { .. } => true,
                Request::Join { .. } => true,
                Request::Sync => true,
                Request::Release { .. } => true,
                Request::Deadline { .. } => true,
                _ => false,
            }
        },
    ensures
        crate::walk::walked(steps, at, to, contents, answers, used) == (if used >= answers.len() || (
        answers[used] is Failed && crate::machine::act_of(steps[at])->Ask_1 is Fail) {
            None
        } else {
            crate::walk::walked(steps, at + 1, to, contents, answers, used + 1)
        }),
{
    if used < answers.len() {
        crate::laws::steps::lemma_command(steps, at, to, contents, answers, used);
    } else {
        reveal_with_fuel(crate::walk::walked, 2);
        reveal(crate::machine::effect_of);
    }
}

/// What the sorts have in hand.
spec fn sorting(contents: Contents, done: int, refused: int) -> bool {
    &&& contents.full()
    &&& contents.columns[1] == expected()
    &&& contents.registers[0] == done
    &&& contents.registers[1] == refused
}

/// The end of a round of the sorts: the buffers are given back.
proof fn lemma_released(answers: Seq<Answer>, used: int, contents: Contents)
    requires
        crate::walk::stands(sustained(), answers, used, 13, contents),
    ensures
        if used < answers.len() {
            crate::walk::stands(sustained(), answers, used + 1, 14, contents)
        } else {
            !passes(answers)
        },
{
    lemma_sorted_steps();
    let steps = sustained().steps;
    crate::walk::law_steps_without_jumps_go_through_or_do_not_pass(
        sustained(),
        13,
        14,
        contents,
        answers,
        used,
    );
    lemma_command(steps, 13, 14, contents, answers, used);
    crate::laws::steps::lemma_end(steps, 14, contents, answers, used + 1);
}

/// Whether a result of the sorts is looked at.
proof fn lemma_looked_at(contents: Contents, done: int, refused: int)
    requires
        sorting(contents, done, refused),
    ensures
        crate::expr::value_of(same_as(modulo(reg(0), num(10)), num(0)), contents, 0) == Some(
            crate::expr::truth(done % 10 == 0),
        ),
        crate::expr::value_of(
            and(same_as(modulo(reg(0), num(10)), num(0)), not(alike(2, 1))),
            contents,
            0,
        ) == Some(
            crate::expr::truth(done % 10 == 0 && contents.columns[2] != contents.columns[1]),
        ),
        crate::expr::value_of(not(alike(2, 1)), contents, 0) == Some(
            crate::expr::truth(contents.columns[2] != contents.columns[1]),
        ),
        done < u64::MAX ==> crate::expr::value_of(plus(reg(0), num(1)), contents, 0) == Some(
            (done + 1) as u64,
        ),
{
    assert(crate::expr::value_of(same_as(modulo(reg(0), num(10)), num(0)), contents, 0) == Some(
        crate::expr::truth(done % 10 == 0),
    )) by {
        reveal_with_fuel(crate::expr::value_of, 3);
    }
    assert(crate::expr::value_of(not(alike(2, 1)), contents, 0) == Some(
        crate::expr::truth(contents.columns[2] != contents.columns[1]),
    )) by {
        reveal_with_fuel(crate::expr::value_of, 2);
    }
    reveal_with_fuel(crate::expr::value_of, 2);
}

/// The time that is asked for where a result is wrong.
proof fn lemma_elapsed(
    steps: Seq<Step>,
    at: int,
    to: int,
    contents: Contents,
    answers: Seq<Answer>,
    used: int,
) -> (after: Contents)
    requires
        at < to,
        0 <= used,
        crate::machine::taken(steps[at], contents) == Some(true),
        crate::machine::act_of(steps[at]) == Act::Ask(Request::Elapsed, Otherwise::Go),
    ensures
        after.columns == contents.columns,
        after.registers == contents.registers,
        crate::walk::walked(steps, at, to, contents, answers, used) == (if used < answers.len() {
            crate::walk::walked(steps, at + 1, to, after, answers, used + 1)
        } else {
            None
        }),
{
    reveal_with_fuel(crate::walk::walked, 2);
    reveal(crate::machine::effect_of);
    reveal(crate::machine::stored);
    if used < answers.len() && answers[used] is Text {
        contents.with_timing(answers[used]->Text_0)
    } else {
        contents
    }
}

/// A round of the sorts after the result has been handed out, or is not looked at.
#[verifier::spinoff_prover]
#[verifier::rlimit(50)]
proof fn lemma_sorted(
    answers: Seq<Answer>,
    used: int,
    contents: Contents,
    done: int,
    refused: int,
) -> (after: Contents)
    requires
        crate::walk::stands(sustained(), answers, used, 9, contents),
        sorting(contents, done, refused),
        done < u64::MAX,
    ensures
        if done % 10 == 0 && (contents.columns[2] != expected() || answers[used] is Failed) {
            !passes(answers)
        } else {
            let next = if done % 10 == 0 {
                used + 2
            } else {
                used + 1
            };
            if next <= answers.len() {
                &&& crate::walk::stands(sustained(), answers, next, 14, after)
                &&& sorting(after, done + 1, refused)
            } else {
                !passes(answers)
            }
        },
{
    lemma_sorted_steps();
    let plan = sustained();
    let steps = plan.steps;
    let after = contents.with_register(0, (done + 1) as u64);
    crate::walk::law_steps_without_jumps_go_through_or_do_not_pass(
        plan,
        9,
        14,
        contents,
        answers,
        used,
    );
    lemma_looked_at(contents, done, refused);
    if done % 10 != 0 {
        crate::laws::steps::lemma_not_taken(steps, 9, 14, contents, answers, used);
        crate::laws::steps::lemma_not_taken(steps, 10, 14, contents, answers, used);
        crate::laws::steps::lemma_not_taken(steps, 11, 14, contents, answers, used);
        crate::laws::steps::lemma_put(steps, 12, 14, contents, answers, used, (done + 1) as u64);
        lemma_command(steps, 13, 14, after, answers, used);
        crate::laws::steps::lemma_end(steps, 14, after, answers, used + 1);
    } else if contents.columns[2] != expected() {
        let timed = lemma_elapsed(steps, 9, 14, contents, answers, used);
        lemma_looked_at(timed, done, refused);
        crate::laws::steps::lemma_check(steps, 10, 14, timed, answers, used + 1, true);
    } else {
        crate::laws::steps::lemma_not_taken(steps, 9, 14, contents, answers, used);
        crate::laws::steps::lemma_check(steps, 10, 14, contents, answers, used, false);
        lemma_command(steps, 11, 14, contents, answers, used);
        crate::laws::steps::lemma_put(
            steps,
            12,
            14,
            contents,
            answers,
            used + 1,
            (done + 1) as u64,
        );
        lemma_command(steps, 13, 14, after, answers, used + 1);
        crate::laws::steps::lemma_end(steps, 14, after, answers, used + 2);
    }
    after
}

/// A refusal of the sorts that is counted.
proof fn lemma_refused(
    answers: Seq<Answer>,
    used: int,
    contents: Contents,
    done: int,
    refused: int,
) -> (after: Contents)
    requires
        crate::walk::stands(
            sustained(),
            answers,
            used,
            13,
            contents.with_register(1, (refused + 1) as u64),
        ),
        sorting(contents, done, refused),
        refused < u64::MAX,
    ensures
        if used < answers.len() {
            &&& crate::walk::stands(sustained(), answers, used + 1, 14, after)
            &&& sorting(after, done, refused + 1)
        } else {
            !passes(answers)
        },
{
    let after = contents.with_register(1, (refused + 1) as u64);
    lemma_released(answers, used, after);
    after
}

/// A round of the sorts after the sort: every tenth result is handed out.
#[verifier::spinoff_prover]
#[verifier::rlimit(50)]
proof fn lemma_handed_out(
    answers: Seq<Answer>,
    used: int,
    contents: Contents,
    done: int,
    refused: int,
) -> (after: Contents)
    requires
        fitting(sustained(), answers),
        crate::walk::stands(sustained(), answers, used, 8, contents),
        sorting(contents, done, refused),
        done < u64::MAX,
        refused < u64::MAX,
    ensures
        if done % 10 != 0 {
            if used + 1 <= answers.len() {
                &&& crate::walk::stands(sustained(), answers, used + 1, 14, after)
                &&& sorting(after, done + 1, refused)
            } else {
                !passes(answers)
            }
        } else if used < answers.len() && answers[used] is Failed {
            if used + 2 <= answers.len() {
                &&& crate::walk::stands(sustained(), answers, used + 2, 14, after)
                &&& sorting(after, done, refused + 1)
            } else {
                !passes(answers)
            }
        } else if used + 3 <= answers.len() && answers[used] == Answer::Words(expected()) && !(
        answers[used + 1] is Failed) {
            &&& crate::walk::stands(sustained(), answers, used + 3, 14, after)
            &&& sorting(after, done + 1, refused)
        } else {
            !passes(answers)
        },
{
    lemma_sort_steps();
    let plan = sustained();
    let steps = plan.steps;
    lemma_looked_at(contents, done, refused);
    if done % 10 != 0 {
        assert(crate::machine::settled(steps, 8, contents) == crate::machine::settled(
            steps,
            9,
            contents,
        ));
        lemma_sorted(answers, used, contents, done, refused)
    } else {
        crate::walk::law_counted_refusals_jump(plan, 8, contents, answers, used);
        if used >= answers.len() {
            contents
        } else if answers[used] is Failed {
            lemma_refused(answers, used + 1, contents, done, refused)
        } else {
            lemma_asked_for(answers, used, 8, contents);
            reveal(crate::machine::stored);
            let downloaded = contents.with_column(2, answers[used]->Words_0);
            lemma_sorted(answers, used + 1, downloaded, done, refused)
        }
    }
}

/// The answer to a request is of the form that the request asks for.
proof fn lemma_asked_for(answers: Seq<Answer>, used: int, at: int, contents: Contents)
    requires
        fitting(sustained(), answers),
        crate::walk::stands(sustained(), answers, used, at, contents),
        0 <= at < sustained().steps.len(),
        used < answers.len(),
        crate::machine::taken(sustained().steps[at], contents) == Some(true),
        crate::machine::act_of(sustained().steps[at]) is Ask,
    ensures
        crate::machine::act_of(sustained().steps[at]) matches Act::Ask(request, _) && match request {
            Request::Rows { .. } => answers[used] is Count,
            Request::Download { .. } => answers[used] is Words || answers[used] is Failed,
            _ => true,
        },
{
    reveal(crate::machine::effect_of);
    reveal(crate::machine::answers);
    let run = crate::machine::run_of(sustained(), answers.take(used));
    assert(run.progress is Asking);
    assert(crate::machine::answers(run.progress->request, answers[used]));
}

/// One round of the sorts.
#[verifier::spinoff_prover]
#[verifier::rlimit(50)]
proof fn lemma_sort_round(
    answers: Seq<Answer>,
    used: int,
    contents: Contents,
    done: int,
    refused: int,
) -> (after: Contents)
    requires
        fitting(sustained(), answers),
        crate::walk::stands(sustained(), answers, used, 6, contents),
        sorting(contents, done, refused),
        done < u64::MAX,
        refused < u64::MAX,
    ensures
        match sort_round(answers, used, done) {
            Some((next, completed)) => if next <= answers.len() {
                &&& crate::walk::stands(sustained(), answers, next, 14, after)
                &&& completed ==> sorting(after, done + 1, refused)
                &&& !completed ==> sorting(after, done, refused + 1)
            } else {
                !passes(answers)
            },
            None => !passes(answers),
        },
{
    lemma_sort_steps();
    let plan = sustained();
    reveal(crate::machine::stored);
    crate::walk::law_counted_refusals_jump(plan, 6, contents, answers, used);
    if used >= answers.len() {
        contents
    } else if answers[used] is Failed {
        lemma_refused(answers, used + 1, contents, done, refused)
    } else {
        crate::walk::law_counted_refusals_jump(plan, 7, contents, answers, used + 1);
        if used + 1 >= answers.len() {
            contents
        } else if answers[used + 1] is Failed {
            lemma_refused(answers, used + 2, contents, done, refused)
        } else {
            lemma_handed_out(answers, used + 2, contents, done, refused)
        }
    }
}

/// All rounds of the sorts.
#[verifier::spinoff_prover]
#[verifier::rlimit(50)]
proof fn lemma_sorts(
    answers: Seq<Answer>,
    used: int,
    at: int,
    contents: Contents,
    done: int,
    refused: int,
) -> (after: Contents)
    requires
        fitting(sustained(), answers),
        answers.len() <= u64::MAX,
        at == 5 || at == 14,
        crate::walk::stands(sustained(), answers, used, at, contents),
        sorting(contents, done, refused),
        0 <= done,
        0 <= refused,
        done + refused < used,
    ensures
        match sorts(answers, used, done, refused) {
            Some((next, completed, failed)) => {
                &&& crate::walk::stands(sustained(), answers, next, 15, after)
                &&& sorting(after, completed, failed)
                &&& 0 <= completed
                &&& 0 <= failed
            },
            None => !passes(answers),
        },
    decreases answers.len() - used,
{
    lemma_clock_steps();
    let plan = sustained();
    crate::walk::law_clocks_decide_where_a_script_goes_on(plan, at, contents, answers, used);
    if used < answers.len() && answers[used] is Count && answers[used]->Count_0 != 0 {
        let after = lemma_sort_round(answers, used + 1, contents, done, refused);
        match sort_round(answers, used + 1, done) {
            Some((next, completed)) => if next <= answers.len() {
                if completed {
                    lemma_sorts(answers, next, 14, after, done + 1, refused)
                } else {
                    lemma_sorts(answers, next, 14, after, done, refused + 1)
                }
            } else {
                after
            },
            None => after,
        }
    } else {
        contents
    }
}

/// The mask of filter `k`.
spec fn shares(k: int) -> Seq<u64> {
    Seq::new(50000, |i: int| crate::expr::truth(i * 100 / 50000 < crate::laws::stress::share(k)))
}

/// One of the words of [`shares`].
proof fn lemma_shares_at(contents: Contents, k: int, i: u64)
    requires
        contents.full(),
        contents.registers[3] == crate::laws::stress::share(k),
        0 <= k,
        i < 50000,
    ensures
        crate::expr::value_of(lt(over(times(ix(), num(100)), num(50000)), reg(3)), contents, i)
            == Some(shares(k)[i as int]),
{
    assert(crate::expr::value_of(over(times(ix(), num(100)), num(50000)), contents, i) == Some(
        (i * 100 / 50000) as u64,
    )) by {
        reveal_with_fuel(crate::expr::value_of, 3);
    }
    assert(crate::expr::value_of(reg(3), contents, i) == Some(contents.registers[3]));
}

/// The numbers of filter `k`.
proof fn lemma_filter_numbers(contents: Contents, k: int)
    requires
        contents.full(),
        0 <= k < u64::MAX,
        contents.registers[2] == k,
    ensures
        crate::expr::value_of(
            times(plus(modulo(reg(2), num(10)), num(1)), num(10)),
            contents,
            0,
        ) == Some(crate::laws::stress::share(k) as u64),
        crate::expr::value_of(plus(reg(2), num(1)), contents, 0) == Some((k + 1) as u64),
{
    assert(crate::expr::value_of(modulo(reg(2), num(10)), contents, 0) == Some((k % 10) as u64))
        by {
        reveal_with_fuel(crate::expr::value_of, 2);
    }
    assert(crate::expr::value_of(num(1), contents, 0) == Some(1u64));
    assert(crate::expr::value_of(num(10), contents, 0) == Some(10u64));
    assert(crate::expr::value_of(reg(2), contents, 0) == Some(k as u64));
    assert(crate::expr::value_of(plus(modulo(reg(2), num(10)), num(1)), contents, 0) == Some(
        (k % 10 + 1) as u64,
    ));
}

/// How many rows the share of filter `k` is.
proof fn lemma_share_of_rows(contents: Contents, k: int)
    requires
        contents.full(),
        0 <= k,
        contents.registers[3] == crate::laws::stress::share(k),
    ensures
        crate::expr::value_of(over(times(num(50000), reg(3)), num(100)), contents, 0) == Some(
            (crate::laws::stress::share(k) * 500) as u64,
        ),
{
    let share = crate::laws::stress::share(k);
    assert(crate::expr::value_of(reg(3), contents, 0) == Some(share as u64));
    assert(crate::expr::value_of(num(50000), contents, 0) == Some(50000u64));
    assert(crate::expr::value_of(num(100), contents, 0) == Some(100u64));
    assert(crate::expr::value_of(times(num(50000), reg(3)), contents, 0) == Some(
        (50000 * share) as u64,
    ));
}

/// Looking for a number of rows that is not about the share of filter `k`.
proof fn lemma_about(contents: Contents, rows: u64, k: int)
    requires
        contents.full(),
        0 <= k,
        contents.registers[4] == crate::laws::stress::share(k) * 500,
        contents.registers[5] == rows,
    ensures
        crate::expr::value_of(
            or(
                lt(reg(5), less_or_zero(reg(4), num(5000))),
                lt(plus(plus(reg(4), num(5000)), num(1)), reg(5)),
            ),
            contents,
            0,
        ) == Some(crate::expr::truth(!about(rows, k))),
{
    let wanted = crate::laws::stress::share(k) * 500;
    assert(crate::expr::value_of(reg(4), contents, 0) == Some(wanted as u64));
    assert(crate::expr::value_of(reg(5), contents, 0) == Some(rows));
    assert(crate::expr::value_of(num(5000), contents, 0) == Some(5000u64));
    assert(crate::expr::value_of(num(1), contents, 0) == Some(1u64));
    let low = less_or_zero(reg(4), num(5000));
    assert(crate::expr::value_of(low, contents, 0) == Some((wanted - 5000) as u64));
    assert(crate::expr::value_of(plus(reg(4), num(5000)), contents, 0) == Some(
        (wanted + 5000) as u64,
    ));
    let high = plus(plus(reg(4), num(5000)), num(1));
    assert(crate::expr::value_of(high, contents, 0) == Some((wanted + 5001) as u64));
    assert(crate::expr::value_of(lt(reg(5), low), contents, 0) == Some(
        crate::expr::truth(rows < wanted - 5000),
    ));
    assert(crate::expr::value_of(lt(high, reg(5)), contents, 0) == Some(
        crate::expr::truth(wanted + 5001 < rows),
    ));
}

/// One filter, up to the request for its number of rows.
#[verifier::spinoff_prover]
#[verifier::rlimit(50)]
proof fn lemma_filtered(
    answers: Seq<Answer>,
    used: int,
    contents: Contents,
    k: int,
) -> (after: Contents)
    requires
        crate::walk::stands(sustained(), answers, used, 22, contents),
        contents.full(),
        0 <= k < u64::MAX,
        contents.registers[2] == k,
    ensures
        if used < answers.len() && !(answers[used] is Failed) {
            &&& crate::walk::stands(sustained(), answers, used + 1, 26, after)
            &&& after.full()
            &&& after.registers[2] == k
            &&& after.registers[4] == crate::laws::stress::share(k) * 500
        } else {
            !passes(answers)
        },
{
    lemma_filter_steps();
    let plan = sustained();
    let steps = plan.steps;
    let share = crate::laws::stress::share(k) as u64;
    crate::walk::law_steps_without_jumps_go_through_or_do_not_pass(
        plan,
        22,
        26,
        contents,
        answers,
        used,
    );
    lemma_filter_numbers(contents, k);
    crate::laws::steps::lemma_put(steps, 22, 26, contents, answers, used, share);
    let shared = contents.with_register(3, share);
    assert forall|i: int| 0 <= i < 50000 implies #[trigger] crate::expr::value_of(
        lt(over(times(ix(), num(100)), num(50000)), reg(3)),
        shared,
        i as u64,
    ) == Some(shares(k)[i]) by {
        lemma_shares_at(shared, k, i as u64);
    }
    assert(crate::expr::value_of(num(50000), shared, 0) == Some(50000u64));
    crate::laws::steps::lemma_fill(steps, 23, 26, shared, answers, used, shares(k));
    let masked = shared.with_column(4, shares(k));
    lemma_command(steps, 24, 26, masked, answers, used);
    lemma_share_of_rows(masked, k);
    let wanted = (share * 500) as u64;
    crate::laws::steps::lemma_put(steps, 25, 26, masked, answers, used + 1, wanted);
    let after = masked.with_register(4, wanted);
    crate::laws::steps::lemma_end(steps, 26, after, answers, used + 1);
    after
}

/// One filter, from the request for its number of rows on.
#[verifier::spinoff_prover]
#[verifier::rlimit(50)]
proof fn lemma_filter_counted(
    answers: Seq<Answer>,
    used: int,
    contents: Contents,
    k: int,
) -> (after: Contents)
    requires
        fitting(sustained(), answers),
        crate::walk::stands(sustained(), answers, used, 26, contents),
        contents.full(),
        0 <= k < u64::MAX,
        contents.registers[2] == k,
        contents.registers[4] == crate::laws::stress::share(k) * 500,
    ensures
        if used + 2 <= answers.len() && about(answers[used]->Count_0, k) {
            &&& crate::walk::stands(sustained(), answers, used + 2, 30, after)
            &&& after.full()
            &&& after.registers[2] == k + 1
        } else {
            !passes(answers)
        },
{
    lemma_filter_steps();
    let plan = sustained();
    let steps = plan.steps;
    crate::walk::law_steps_without_jumps_go_through_or_do_not_pass(
        plan,
        26,
        30,
        contents,
        answers,
        used,
    );
    if used < answers.len() {
        lemma_asked_for(answers, used, 26, contents);
        let rows = answers[used]->Count_0;
        crate::laws::steps::lemma_number(steps, 26, 30, contents, answers, used, rows);
        let counted = contents.with_register(5, rows);
        lemma_about(counted, rows, k);
        crate::laws::steps::lemma_check(
            steps,
            27,
            30,
            counted,
            answers,
            used + 1,
            !about(rows, k),
        );
        lemma_filter_numbers(counted, k);
        crate::laws::steps::lemma_put(
            steps,
            28,
            30,
            counted,
            answers,
            used + 1,
            (k + 1) as u64,
        );
        let after = counted.with_register(2, (k + 1) as u64);
        lemma_command(steps, 29, 30, after, answers, used + 1);
        crate::laws::steps::lemma_end(steps, 30, after, answers, used + 2);
        after
    } else {
        assert(crate::walk::walked(steps, 26, 30, contents, answers, used) is None) by {
            reveal_with_fuel(crate::walk::walked, 2);
            reveal(crate::machine::effect_of);
        }
        contents
    }
}

/// All filters.
#[verifier::spinoff_prover]
#[verifier::rlimit(50)]
proof fn lemma_filters(
    answers: Seq<Answer>,
    used: int,
    at: int,
    contents: Contents,
    k: int,
) -> (after: Contents)
    requires
        fitting(sustained(), answers),
        answers.len() <= u64::MAX,
        at == 21 || at == 30,
        crate::walk::stands(sustained(), answers, used, at, contents),
        contents.full(),
        contents.registers[2] == k,
        0 <= k < used,
    ensures
        match filters(answers, used, k) {
            Some(next) => {
                &&& crate::walk::stands(sustained(), answers, next, 31, after)
                &&& after.full()
            },
            None => !passes(answers),
        },
    decreases answers.len() - used,
{
    lemma_clock_steps();
    let plan = sustained();
    crate::walk::law_clocks_decide_where_a_script_goes_on(plan, at, contents, answers, used);
    if used < answers.len() && answers[used] is Count && answers[used]->Count_0 != 0 {
        let filtered = lemma_filtered(answers, used + 1, contents, k);
        if used + 1 < answers.len() && !(answers[used + 1] is Failed) {
            let after = lemma_filter_counted(answers, used + 2, filtered, k);
            if used + 4 <= answers.len() && about(answers[used + 2]->Count_0, k) {
                lemma_filters(answers, used + 4, 30, after, k + 1)
            } else {
                assert(used + 4 >= answers.len() ==> filters(answers, used + 4, k + 1) is None);
                after
            }
        } else {
            assert(used + 4 >= answers.len() ==> filters(answers, used + 4, k + 1) is None);
            contents
        }
    } else {
        contents
    }
}

/// One join.
proof fn lemma_joined(
    answers: Seq<Answer>,
    used: int,
    contents: Contents,
    k: int,
) -> (after: Contents)
    requires
        crate::walk::stands(sustained(), answers, used, 40, contents),
        contents.full(),
        0 <= k < u64::MAX,
        contents.registers[6] == k,
    ensures
        if used + 3 <= answers.len() && !(answers[used] is Failed) && answers[used + 1]
            == Answer::Count(500) {
            &&& crate::walk::stands(sustained(), answers, used + 3, 44, after)
            &&& after.full()
            &&& after.registers[6] == k + 1
        } else {
            !passes(answers)
        },
{
    lemma_join_steps();
    let plan = sustained();
    let steps = plan.steps;
    crate::walk::law_steps_without_jumps_go_through_or_do_not_pass(
        plan,
        40,
        44,
        contents,
        answers,
        used,
    );
    lemma_command(steps, 40, 44, contents, answers, used);
    let counted = contents.with_register(COUNT, 500);
    let after = counted.with_register(6, (k + 1) as u64);
    if used + 1 < answers.len() {
        assert(crate::expr::value_of(num(500), contents, 0) == Some(500u64));
        crate::laws::steps::lemma_match(steps, 41, 44, contents, answers, used + 1, 500);
        assert(crate::expr::value_of(plus(reg(6), num(1)), counted, 0) == Some((k + 1) as u64)) by {
            reveal_with_fuel(crate::expr::value_of, 2);
        }
        crate::laws::steps::lemma_put(
            steps,
            42,
            44,
            counted,
            answers,
            used + 2,
            (k + 1) as u64,
        );
        lemma_command(steps, 43, 44, after, answers, used + 2);
        crate::laws::steps::lemma_end(steps, 44, after, answers, used + 3);
    } else if used < answers.len() {
        assert(crate::walk::walked(steps, 41, 44, contents, answers, used + 1) is None) by {
            reveal_with_fuel(crate::walk::walked, 2);
            reveal(crate::machine::effect_of);
        }
    }
    after
}

/// All joins.
#[verifier::spinoff_prover]
#[verifier::rlimit(50)]
proof fn lemma_joins(
    answers: Seq<Answer>,
    used: int,
    at: int,
    contents: Contents,
    k: int,
) -> (after: Contents)
    requires
        answers.len() <= u64::MAX,
        at == 39 || at == 44,
        crate::walk::stands(sustained(), answers, used, at, contents),
        contents.full(),
        contents.registers[6] == k,
        0 <= k < used,
    ensures
        match joins(answers, used) {
            Some(next) => crate::walk::stands(sustained(), answers, next, 45, after),
            None => !passes(answers),
        },
    decreases answers.len() - used,
{
    lemma_clock_steps();
    let plan = sustained();
    crate::walk::law_clocks_decide_where_a_script_goes_on(plan, at, contents, answers, used);
    if used < answers.len() && answers[used] is Count && answers[used]->Count_0 != 0 {
        let after = lemma_joined(answers, used + 1, contents, k);
        if used + 4 <= answers.len() && !(answers[used + 1] is Failed) && answers[used + 2]
            == Answer::Count(500) {
            assert(joins(answers, used) == joins(answers, used + 4));
            lemma_joins(answers, used + 4, 44, after, k + 1)
        } else {
            assert(used + 4 > answers.len() ==> joins(answers, used + 4) is None);
            assert(joins(answers, used) is None);
            after
        }
    } else {
        contents
    }
}

/// The start of the test.
proof fn lemma_start(answers: Seq<Answer>) -> (after: Contents)
    requires
        answers.len() > 0,
    ensures
        crate::walk::stands(sustained(), answers, 1, 5, after),
        sorting(after, 0, 0),
{
    lemma_first_steps();
    let plan = sustained();
    let steps = plan.steps;
    let blank = Contents::blank(plan.texts);
    assert(answers.take(0) =~= Seq::<Answer>::empty());
    crate::walk::law_steps_without_jumps_go_through_or_do_not_pass(plan, 0, 5, blank, answers, 0);
    lemma_command(steps, 0, 5, blank, answers, 0);
    crate::laws::words::lemma_scattered(50000, 50000, blank);
    crate::laws::steps::lemma_fill(steps, 1, 5, blank, answers, 1, reference());
    let filled = blank.with_column(0, reference());
    crate::laws::steps::lemma_sort_column(steps, 2, 5, filled, answers, 1);
    let ordered = filled.with_column(1, expected());
    crate::laws::steps::lemma_put(steps, 3, 5, ordered, answers, 1, 0);
    let first = ordered.with_register(0, 0);
    crate::laws::steps::lemma_put(steps, 4, 5, first, answers, 1, 0);
    let after = first.with_register(1, 0);
    crate::laws::steps::lemma_end(steps, 5, after, answers, 1);
    after
}

/// What comes between the sorts and the filters.
proof fn lemma_to_filters(
    answers: Seq<Answer>,
    used: int,
    contents: Contents,
    done: int,
    refused: int,
) -> (after: Contents)
    requires
        crate::walk::stands(sustained(), answers, used, 15, contents),
        sorting(contents, done, refused),
    ensures
        if used + 2 <= answers.len() && done >= 10 && refused <= done / 100 && !(
        answers[used] is Failed) {
            &&& crate::walk::stands(sustained(), answers, used + 2, 21, after)
            &&& after.full()
            &&& after.registers[2] == 0
        } else {
            !passes(answers)
        },
{
    lemma_middle_steps();
    let plan = sustained();
    let steps = plan.steps;
    crate::walk::law_steps_without_jumps_go_through_or_do_not_pass(
        plan,
        15,
        21,
        contents,
        answers,
        used,
    );
    assert(crate::expr::value_of(lt(reg(0), num(10)), contents, 0) == Some(
        crate::expr::truth(done < 10),
    )) by {
        reveal_with_fuel(crate::expr::value_of, 2);
    }
    assert(crate::expr::value_of(lt(over(reg(0), num(100)), reg(1)), contents, 0) == Some(
        crate::expr::truth(done / 100 < refused),
    )) by {
        reveal_with_fuel(crate::expr::value_of, 3);
    }
    crate::laws::steps::lemma_check(steps, 15, 21, contents, answers, used, done < 10);
    crate::laws::steps::lemma_check(steps, 16, 21, contents, answers, used, done / 100 < refused);
    let rising = crate::laws::words::below(50000);
    crate::laws::words::lemma_below(50000, contents);
    crate::laws::steps::lemma_fill(steps, 17, 21, contents, answers, used, rising);
    let filled = contents.with_column(3, rising);
    lemma_command(steps, 18, 21, filled, answers, used);
    lemma_command(steps, 19, 21, filled, answers, used + 1);
    crate::laws::steps::lemma_put(steps, 20, 21, filled, answers, used + 2, 0);
    let after = filled.with_register(2, 0);
    crate::laws::steps::lemma_end(steps, 21, after, answers, used + 2);
    after
}

/// What comes between the filters and the joins.
proof fn lemma_to_joins(answers: Seq<Answer>, used: int, contents: Contents) -> (after: Contents)
    requires
        crate::walk::stands(sustained(), answers, used, 31, contents),
        contents.full(),
    ensures
        if used + 3 <= answers.len() && !(answers[used] is Failed) && !(
        answers[used + 1] is Failed) {
            &&& crate::walk::stands(sustained(), answers, used + 3, 39, after)
            &&& after.full()
            &&& after.registers[6] == 0
        } else {
            !passes(answers)
        },
{
    lemma_table_steps();
    let plan = sustained();
    let steps = plan.steps;
    crate::walk::law_steps_without_jumps_go_through_or_do_not_pass(
        plan,
        31,
        39,
        contents,
        answers,
        used,
    );
    let keys = crate::laws::words::below(1000);
    crate::laws::words::lemma_below(1000, contents);
    crate::laws::steps::lemma_fill(steps, 31, 39, contents, answers, used, keys);
    let first = contents.with_column(5, keys);
    let doubled = crate::laws::words::scaled(keys, 2);
    crate::laws::words::lemma_scaled(5, 2, first);
    crate::laws::steps::lemma_fill(steps, 32, 39, first, answers, used, doubled);
    let second = first.with_column(6, doubled);
    let even = crate::laws::words::scaled(crate::laws::words::below(500), 2);
    crate::laws::words::lemma_scaled_places(2, 500, second);
    crate::laws::steps::lemma_fill(steps, 33, 39, second, answers, used, even);
    let third = second.with_column(7, even);
    let tripled = crate::laws::words::scaled(even, 3);
    crate::laws::words::lemma_scaled(7, 3, third);
    crate::laws::steps::lemma_fill(steps, 34, 39, third, answers, used, tripled);
    let fourth = third.with_column(8, tripled);
    lemma_command(steps, 35, 39, fourth, answers, used);
    lemma_command(steps, 36, 39, fourth, answers, used + 1);
    lemma_command(steps, 37, 39, fourth, answers, used + 2);
    crate::laws::steps::lemma_put(steps, 38, 39, fourth, answers, used + 3, 0);
    let after = fourth.with_register(6, 0);
    crate::laws::steps::lemma_end(steps, 39, after, answers, used + 3);
    after
}

/// The joins and what comes after them.
proof fn lemma_joins_endured(answers: Seq<Answer>, used: int, contents: Contents)
    requires
        answers.len() <= u64::MAX,
        crate::walk::stands(sustained(), answers, used, 31, contents),
        contents.full(),
    ensures
        passes(answers) <==> joins_endured(answers, used),
{
    lemma_join_steps();
    let plan = sustained();
    let steps = plan.steps;
    let joining = lemma_to_joins(answers, used, contents);
    assert(used + 3 > answers.len() ==> joins(answers, used + 3) is None);
    if used + 3 <= answers.len() && !(answers[used] is Failed) && !(answers[used + 1] is Failed) {
        let last = lemma_joins(answers, used + 3, 39, joining, 0);
        match joins(answers, used + 3) {
            Some(next) => {
                crate::walk::law_rest_passes_exactly_when_it_goes_through(
                    plan,
                    45,
                    last,
                    answers,
                    next,
                );
                lemma_command(steps, 45, 46, last, answers, next);
                crate::laws::steps::lemma_end(steps, 46, last, answers, next + 1);
            },
            None => {},
        }
    }
}

/// The test of sustained operation passes exactly when at least ten sorts are completed before the
/// first timer is up, with no more than one refused for each hundred of them, every tenth hands out
/// the words in order and shows no error after it, each filter before the second timer is up leaves
/// about as many rows as it keeps, each join before the third timer is up gives five hundred rows,
/// and the device shows no error in the end. This holds however often the loops run.
pub proof fn law_sustained_operation_passes_exactly_when_endured(answers: Seq<Answer>)
    requires
        fitting(sustained(), answers),
        answers.len() <= u64::MAX,
    ensures
        crate::machine::run_of(sustained(), answers).progress == Progress::Over(Ending::Passed)
            <==> endured(answers),
{
    if answers.len() > 0 {
        let ready = lemma_start(answers);
        let sorted = lemma_sorts(answers, 1, 5, ready, 0, 0);
        match sorts(answers, 1, 0, 0) {
            Some((next, done, refused)) => {
                let filtering = lemma_to_filters(answers, next, sorted, done, refused);
                assert(next + 2 > answers.len() ==> filters(answers, next + 2, 0) is None);
                if next + 2 <= answers.len() && done >= 10 && refused <= done / 100 && !(
                answers[next] is Failed) {
                    let filtered = lemma_filters(answers, next + 2, 21, filtering, 0);
                    match filters(answers, next + 2, 0) {
                        Some(after) => {
                            lemma_joins_endured(answers, after, filtered);
                        },
                        None => {},
                    }
                }
            },
            None => {},
        }
    } else {
        lemma_first_steps();
        reveal(crate::machine::effect_of);
    }
}

} // verus!
