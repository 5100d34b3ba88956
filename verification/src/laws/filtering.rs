//! Laws of the tests whose filters keep everything or nothing.

use vstd::prelude::*;
use crate::categories::c11_control_flow::SIZES;
use crate::expr::{alike, ix, not, num};
use crate::machine::{Answer, Ending, Progress};
use crate::memory::Contents;
use crate::script::{fill, release, Act, Otherwise, Request, Step, COUNT};

verus! {

/// Whether a filter that keeps everything hands out the `n` rows that were uploaded.
pub open spec fn keeps_all(n: u64, answers: Seq<Answer>, used: int) -> bool {
    &&& !(answers[used] is Failed)
    &&& !(answers[used + 1] is Failed)
    &&& answers[used + 2] == Answer::Count(n)
    &&& answers[used + 3] == Answer::Words(crate::laws::words::below(n))
}

/// Whether a filter that keeps nothing leaves no rows.
pub open spec fn keeps_none(answers: Seq<Answer>, used: int) -> bool {
    &&& !(answers[used] is Failed)
    &&& !(answers[used + 1] is Failed)
    &&& answers[used + 2] == Answer::Count(0)
}

/// The steps that keep all rows.
proof fn lemma_all(
    steps: Seq<Step>,
    n: u64,
    contents: Contents,
    answers: Seq<Answer>,
    used: int,
)
    requires
        steps.len() == 8,
        steps[0] == fill(0, num(n), ix()),
        steps[1] matches Step::Do(Act::Ask(Request::Create { .. }, Otherwise::Fail(_))),
        steps[2] == fill(1, num(n), num(1)),
        steps[3] matches Step::Do(Act::Ask(Request::Filter { .. }, Otherwise::Fail(_))),
        steps[4] matches Step::Do(Act::Match { expected, .. }) && expected == num(n),
        steps[5] matches Step::Do(Act::Ask(request, Otherwise::Fail(_)))
            && crate::laws::steps::column_of(request) == Some(2u64),
        steps[6] matches Step::Do(Act::Check { fault, .. }) && fault == not(alike(2, 0)),
        steps[7] == release(0),
        contents.full(),
        0 <= used,
        used + 5 <= answers.len(),
        crate::laws::steps::column_or_refusal(answers[used + 3]),
    ensures
        keeps_all(n, answers, used) ==> crate::walk::goes_through(
            steps,
            contents,
            answers,
            used,
            5,
        ),
        !keeps_all(n, answers, used) ==> crate::walk::walked(steps, 0, 8, contents, answers, used)
            is None,
{
    let rows = crate::laws::words::below(n);
    let mask = crate::laws::words::constant(1, n);
    crate::laws::words::lemma_below(n, contents);
    crate::laws::steps::lemma_fill(steps, 0, 8, contents, answers, used, rows);
    let first = contents.with_column(0, rows);
    crate::laws::steps::lemma_command(steps, 1, 8, first, answers, used);
    crate::laws::words::lemma_constant(1, n, first);
    crate::laws::steps::lemma_fill(steps, 2, 8, first, answers, used + 1, mask);
    let second = first.with_column(1, mask);
    crate::laws::steps::lemma_command(steps, 3, 8, second, answers, used + 1);
    crate::laws::steps::lemma_match(steps, 4, 8, second, answers, used + 2, n);
    let third = second.with_register(COUNT, n);
    crate::laws::steps::lemma_fetch_same(steps, 5, 8, third, answers, used + 3, 2, 0);
    let fourth = third.with_column(2, rows);
    crate::laws::steps::lemma_command(steps, 7, 8, fourth, answers, used + 4);
    crate::laws::steps::lemma_end(steps, 8, fourth, answers, used + 5);
}

/// The steps that keep no rows.
proof fn lemma_none(
    steps: Seq<Step>,
    n: u64,
    contents: Contents,
    answers: Seq<Answer>,
    used: int,
)
    requires
        steps.len() == 6,
        steps[0] == fill(0, num(n), ix()),
        steps[1] matches Step::Do(Act::Ask(Request::Create { .. }, Otherwise::Fail(_))),
        steps[2] == fill(1, num(n), num(0)),
        steps[3] matches Step::Do(Act::Ask(Request::Filter { .. }, Otherwise::Fail(_))),
        steps[4] matches Step::Do(Act::Match { expected, .. }) && expected == num(0),
        steps[5] == release(0),
        contents.full(),
        0 <= used,
        used + 4 <= answers.len(),
    ensures
        keeps_none(answers, used) ==> crate::walk::goes_through(
            steps,
            contents,
            answers,
            used,
            4,
        ),
        !keeps_none(answers, used) ==> crate::walk::walked(steps, 0, 6, contents, answers, used)
            is None,
{
    let rows = crate::laws::words::below(n);
    let mask = crate::laws::words::constant(0, n);
    crate::laws::words::lemma_below(n, contents);
    crate::laws::steps::lemma_fill(steps, 0, 6, contents, answers, used, rows);
    let first = contents.with_column(0, rows);
    crate::laws::steps::lemma_command(steps, 1, 6, first, answers, used);
    crate::laws::words::lemma_constant(0, n, first);
    crate::laws::steps::lemma_fill(steps, 2, 6, first, answers, used + 1, mask);
    let second = first.with_column(1, mask);
    crate::laws::steps::lemma_command(steps, 3, 6, second, answers, used + 1);
    crate::laws::steps::lemma_match(steps, 4, 6, second, answers, used + 2, 0);
    let third = second.with_register(COUNT, 0);
    crate::laws::steps::lemma_command(steps, 5, 6, third, answers, used + 3);
    crate::laws::steps::lemma_end(steps, 6, third, answers, used + 4);
}

/// A filter that keeps everything passes its test exactly when, for each size, the output equals
/// the input.
pub proof fn law_keeping_all_passes_exactly_when_output_is_input(answers: Seq<Answer>)
    requires
        answers.len() > 20,
        forall|k: int|
            0 <= k < 4 ==> #[trigger] crate::laws::steps::column_or_refusal(answers[5 * k + 3]),
    ensures
        crate::machine::run_of(
            crate::script::plan(
                "test_filter_all_pass",
                crate::categories::c11_control_flow::filter_all_pass_steps(),
            ),
            answers,
        ).progress == Progress::Over(Ending::Passed) <==> {
            &&& forall|k: int| 0 <= k < 4 ==> #[trigger] keeps_all(SIZES@[k], answers, 5 * k)
            &&& !(answers[20] is Failed)
        },
{
    let round = |i: int| crate::categories::c11_control_flow::filter_all_pass_sizes_round(i as u64);
    let good = |k: int| keeps_all(SIZES@[k], answers, 5 * k);
    assert forall|k: int, contents: Contents|
        #![trigger good(k), contents.full()]
        0 <= k < 4 && contents.full() implies if good(k) {
        crate::walk::goes_through(round(k), contents, answers, 5 * k, 5)
    } else {
        crate::walk::walked(round(k), 0, round(k).len() as int, contents, answers, 5 * k)
            is None
    } by {
        assert(crate::laws::steps::column_or_refusal(answers[5 * k + 3]));
        lemma_all(round(k), SIZES@[k], contents, answers, 5 * k);
    }
    crate::laws::steps::lemma_rounds_and_sync(
        crate::script::plan(
            "test_filter_all_pass",
            crate::categories::c11_control_flow::filter_all_pass_steps(),
        ),
        4,
        round,
        5,
        good,
        crate::categories::c11_control_flow::filter_all_pass_end_steps(),
        answers,
    );
    assert forall|k: int| 0 <= k < 4 implies (#[trigger] good(k) <==> keeps_all(
        SIZES@[k],
        answers,
        5 * k,
    )) by {}
    if exists|k: int| 0 <= k < 4 && !(#[trigger] keeps_all(SIZES@[k], answers, 5 * k)) {
        let k = choose|k: int| 0 <= k < 4 && !(#[trigger] keeps_all(SIZES@[k], answers, 5 * k));
        assert(!good(k));
    }
}

/// A filter that keeps nothing passes its test exactly when, for each size, the output is empty.
pub proof fn law_keeping_none_passes_exactly_when_output_is_empty(answers: Seq<Answer>)
    requires
        answers.len() > 16,
    ensures
        crate::machine::run_of(
            crate::script::plan(
                "test_filter_none_pass",
                crate::categories::c11_control_flow::filter_none_pass_steps(),
            ),
            answers,
        ).progress == Progress::Over(Ending::Passed) <==> {
            &&& forall|k: int| 0 <= k < 4 ==> #[trigger] keeps_none(answers, 4 * k)
            &&& !(answers[16] is Failed)
        },
{
    let round = |i: int|
        crate::categories::c11_control_flow::filter_none_pass_sizes_round(i as u64);
    let good = |k: int| keeps_none(answers, 4 * k);
    assert forall|k: int, contents: Contents|
        #![trigger good(k), contents.full()]
        0 <= k < 4 && contents.full() implies if good(k) {
        crate::walk::goes_through(round(k), contents, answers, 4 * k, 4)
    } else {
        crate::walk::walked(round(k), 0, round(k).len() as int, contents, answers, 4 * k)
            is None
    } by {
        lemma_none(round(k), SIZES@[k], contents, answers, 4 * k);
    }
    crate::laws::steps::lemma_rounds_and_sync(
        crate::script::plan(
            "test_filter_none_pass",
            crate::categories::c11_control_flow::filter_none_pass_steps(),
        ),
        4,
        round,
        4,
        good,
        crate::categories::c11_control_flow::filter_none_pass_end_steps(),
        answers,
    );
    assert forall|k: int| 0 <= k < 4 implies (#[trigger] good(k) <==> keeps_none(
        answers,
        4 * k,
    )) by {}
    if exists|k: int| 0 <= k < 4 && !(#[trigger] keeps_none(answers, 4 * k)) {
        let k = choose|k: int| 0 <= k < 4 && !(#[trigger] keeps_none(answers, 4 * k));
        assert(!good(k));
    }
}

} // verus!
