//! Laws of the tests that run the same work twice.

use vstd::prelude::*;
use crate::expr::{
    alike, and, differs, doubles_differ, here, least, len, lt, modulo, not, num, or, same_as,
    sum_of,
};
use crate::machine::{Answer, Ending, Progress};
use crate::memory::Contents;
use crate::scalar::{INFINITY, SIGN};
use crate::script::{fill, Step};
use crate::tables::PROBABILITIES;

verus! {

/// Sampling with a fixed seed passes exactly when both runs give the same bits.
pub proof fn law_sampling_passes_exactly_when_reproduced(answers: Seq<Answer>)
    requires
        answers.len() >= 4,
        crate::laws::steps::column_or_refusal(answers[2]),
        crate::laws::steps::column_or_refusal(answers[3]),
    ensures
        crate::machine::run_of(
            crate::script::plan(
                "test_mc_sample_reproducibility",
                crate::categories::c15_determinism::mc_sample_reproducibility_steps(),
            ),
            answers,
        ).progress == Progress::Over(Ending::Passed) <==> answers[2] is Words && answers[2]
            == answers[3],
{
    let steps = crate::categories::c15_determinism::mc_sample_reproducibility_steps();
    let plan = crate::script::plan("test_mc_sample_reproducibility", steps);
    let blank = Contents::blank(plan.texts);
    crate::walk::law_passes_exactly_when_every_step_goes_through(plan, answers);
    let first = blank.with_column(0, PROBABILITIES@);
    assert forall|i: int| 0 <= i < 3 implies #[trigger] crate::expr::value_of(
        crate::expr::entry(crate::tables::Table::Probabilities, crate::expr::ix()),
        blank,
        i as u64,
    ) == Some(PROBABILITIES@[i]) by {
        reveal_with_fuel(crate::expr::value_of, 3);
    }
    crate::laws::steps::lemma_fill(steps, 0, 6, blank, answers, 0, PROBABILITIES@);
    crate::laws::steps::lemma_command(steps, 1, 6, first, answers, 0);
    crate::laws::steps::lemma_command(steps, 2, 6, first, answers, 1);
    crate::laws::steps::lemma_download(steps, 3, 6, first, answers, 2);
    if answers[2] is Words {
        let once = answers[2]->Words_0;
        let second = first.with_column(1, once);
        crate::laws::steps::lemma_download(steps, 4, 6, second, answers, 3);
        if answers[3] is Words {
            let again = answers[3]->Words_0;
            let third = second.with_column(2, again);
            assert(crate::expr::value_of(not(alike(1, 2)), third, 0) == Some(
                crate::expr::truth(once != again),
            )) by {
                reveal_with_fuel(crate::expr::value_of, 3);
            }
            crate::laws::steps::lemma_check(steps, 5, 6, third, answers, 4, once != again);
            crate::laws::steps::lemma_end(steps, 6, third, answers, 4);
        }
    }
}

/// Whether two words are equal as doubles: neither is a NaN, and they are the same or both zero.
pub open spec fn equal_doubles(left: u64, right: u64) -> bool {
    &&& left % SIGN <= INFINITY
    &&& right % SIGN <= INFINITY
    &&& left == right || (left % SIGN == 0 && right % SIGN == 0)
}

/// Whether two columns are equal as doubles.
pub open spec fn equal_columns(left: Seq<u64>, right: Seq<u64>) -> bool {
    left.len() == right.len() && forall|i: int|
        0 <= i < left.len() ==> equal_doubles(#[trigger] left[i], right[i])
}

/// The flags of the places at which two columns differ as doubles.
pub open spec fn differences(left: Seq<u64>, right: Seq<u64>) -> Seq<u64> {
    Seq::new(
        if left.len() < right.len() {
            left.len()
        } else {
            right.len()
        },
        |i: int| crate::expr::truth(!equal_doubles(left[i], right[i])),
    )
}

/// How two words at a place differ as doubles.
proof fn lemma_doubles_differ(contents: Contents, left: u64, right: u64, place: u64)
    requires
        left < contents.columns.len(),
        right < contents.columns.len(),
        place < contents.columns[left as int].len(),
        place < contents.columns[right as int].len(),
    ensures
        crate::expr::value_of(doubles_differ(left, right), contents, place) == Some(
            crate::expr::truth(
                !equal_doubles(
                    contents.columns[left as int][place as int],
                    contents.columns[right as int][place as int],
                ),
            ),
        ),
{
    let a = contents.columns[left as int][place as int];
    let b = contents.columns[right as int][place as int];
    assert(crate::expr::value_of(here(left), contents, place) == Some(a)) by {
        reveal_with_fuel(crate::expr::value_of, 2);
    }
    assert(crate::expr::value_of(here(right), contents, place) == Some(b)) by {
        reveal_with_fuel(crate::expr::value_of, 2);
    }
    let same = same_as(here(left), here(right));
    assert(crate::expr::value_of(same, contents, place) == Some(crate::expr::truth(a == b)));
    assert(crate::expr::value_of(num(SIGN), contents, place) == Some(SIGN));
    assert(crate::expr::value_of(num(INFINITY), contents, place) == Some(INFINITY));
    assert(crate::expr::value_of(num(0), contents, place) == Some(0u64));
    let a_size = modulo(here(left), num(SIGN));
    let b_size = modulo(here(right), num(SIGN));
    assert(crate::expr::value_of(a_size, contents, place) == Some((a % SIGN) as u64));
    assert(crate::expr::value_of(b_size, contents, place) == Some((b % SIGN) as u64));
    let a_zero = same_as(a_size, num(0));
    let b_zero = same_as(b_size, num(0));
    assert(crate::expr::value_of(a_zero, contents, place) == Some(
        crate::expr::truth(a % SIGN == 0),
    ));
    assert(crate::expr::value_of(b_zero, contents, place) == Some(
        crate::expr::truth(b % SIGN == 0),
    ));
    let zeros = and(a_zero, b_zero);
    assert(crate::expr::value_of(zeros, contents, place) == Some(
        crate::expr::truth(a % SIGN == 0 && b % SIGN == 0),
    ));
    let alike = or(same, zeros);
    assert(crate::expr::value_of(alike, contents, place) == Some(
        crate::expr::truth(a == b || (a % SIGN == 0 && b % SIGN == 0)),
    ));
    let a_high = lt(num(INFINITY), a_size);
    let b_high = lt(num(INFINITY), b_size);
    assert(crate::expr::value_of(a_high, contents, place) == Some(
        crate::expr::truth(a % SIGN > INFINITY),
    ));
    assert(crate::expr::value_of(b_high, contents, place) == Some(
        crate::expr::truth(b % SIGN > INFINITY),
    ));
    assert(crate::expr::value_of(not(a_high), contents, place) == Some(
        crate::expr::truth(a % SIGN <= INFINITY),
    ));
    assert(crate::expr::value_of(not(b_high), contents, place) == Some(
        crate::expr::truth(b % SIGN <= INFINITY),
    ));
    let right_alike = and(not(b_high), alike);
    assert(crate::expr::value_of(right_alike, contents, place) == Some(
        crate::expr::truth(
            b % SIGN <= INFINITY && (a == b || (a % SIGN == 0 && b % SIGN == 0)),
        ),
    ));
    let equal = and(not(a_high), right_alike);
    assert(crate::expr::value_of(equal, contents, place) == Some(
        crate::expr::truth(equal_doubles(a, b)),
    ));
}

/// Flagging the places at which two columns differ.
proof fn lemma_flag(
    steps: Seq<Step>,
    at: int,
    to: int,
    contents: Contents,
    answers: Seq<Answer>,
    used: int,
    left: u64,
    right: u64,
    into: u64,
)
    requires
        at < to,
        steps[at] == fill(into, least(len(left), len(right)), doubles_differ(left, right)),
        left < contents.columns.len(),
        right < contents.columns.len(),
        into < contents.columns.len(),
        contents.columns[left as int].len() <= u64::MAX,
        contents.columns[right as int].len() <= u64::MAX,
    ensures
        crate::walk::walked(steps, at, to, contents, answers, used) == crate::walk::walked(
            steps,
            at + 1,
            to,
            contents.with_column(
                into,
                differences(contents.columns[left as int], contents.columns[right as int]),
            ),
            answers,
            used,
        ),
{
    let flags = differences(contents.columns[left as int], contents.columns[right as int]);
    assert forall|i: int| 0 <= i < flags.len() implies #[trigger] crate::expr::value_of(
        doubles_differ(left, right),
        contents,
        i as u64,
    ) == Some(flags[i]) by {
        lemma_doubles_differ(contents, left, right, i as u64);
    }
    assert(crate::expr::value_of(least(len(left), len(right)), contents, 0) == Some(
        flags.len() as u64,
    )) by {
        reveal_with_fuel(crate::expr::value_of, 3);
    }
    crate::laws::steps::lemma_fill(steps, at, to, contents, answers, used, flags);
}

/// Whether the flags, and the lengths, show that two columns differ.
proof fn lemma_differ(
    contents: Contents,
    left: u64,
    right: u64,
    flags: u64,
)
    requires
        left < contents.columns.len(),
        right < contents.columns.len(),
        flags < contents.columns.len(),
        contents.columns[left as int].len() <= u64::MAX,
        contents.columns[right as int].len() <= u64::MAX,
        contents.columns[flags as int] == differences(
            contents.columns[left as int],
            contents.columns[right as int],
        ),
    ensures
        crate::expr::value_of(
            or(differs(len(left), len(right)), lt(num(0), sum_of(flags))),
            contents,
            0,
        ) == Some(
            crate::expr::truth(
                !equal_columns(contents.columns[left as int], contents.columns[right as int]),
            ),
        ),
{
    let a = contents.columns[left as int];
    let b = contents.columns[right as int];
    let marks = differences(a, b);
    crate::columns::law_total_of_zeros_and_ones(marks);
    if a.len() == b.len() {
        if equal_columns(a, b) {
            assert forall|i: int| 0 <= i < marks.len() implies marks[i] == 0 by {
                assert(equal_doubles(a[i], b[i]));
            }
        } else {
            let i = choose|i: int| 0 <= i < a.len() && !equal_doubles(#[trigger] a[i], b[i]);
            assert(marks[i] != 0);
        }
    }
    reveal_with_fuel(crate::expr::value_of, 4);
}

/// Evaluating the reference circuit twice passes exactly when both runs give equal values.
pub proof fn law_evaluation_passes_exactly_when_reproduced(answers: Seq<Answer>)
    requires
        answers.len() >= 2,
        crate::laws::steps::column_or_refusal(answers[0]),
        crate::laws::steps::column_or_refusal(answers[1]),
    ensures
        crate::machine::run_of(
            crate::script::plan(
                "test_xgcf_forward_reproducibility",
                crate::categories::c15_determinism::xgcf_forward_reproducibility_steps(),
            ),
            answers,
        ).progress == Progress::Over(Ending::Passed) <==> match (answers[0], answers[1]) {
            (Answer::Words(once), Answer::Words(again)) => equal_columns(once, again),
            _ => false,
        },
{
    let steps = crate::categories::c15_determinism::xgcf_forward_reproducibility_steps();
    let plan = crate::script::plan("test_xgcf_forward_reproducibility", steps);
    let blank = Contents::blank(plan.texts);
    crate::walk::law_passes_exactly_when_every_step_goes_through(plan, answers);
    crate::laws::steps::lemma_download(steps, 0, 4, blank, answers, 0);
    if answers[0] is Words {
        let once = answers[0]->Words_0;
        let first = blank.with_column(0, once);
        crate::laws::steps::lemma_download(steps, 1, 4, first, answers, 1);
        if answers[1] is Words {
            let again = answers[1]->Words_0;
            let second = first.with_column(1, again);
            lemma_flag(steps, 2, 4, second, answers, 2, 0, 1, 2);
            let third = second.with_column(2, differences(once, again));
            lemma_differ(third, 0, 1, 2);
            crate::laws::steps::lemma_check(
                steps,
                3,
                4,
                third,
                answers,
                2,
                !equal_columns(once, again),
            );
            crate::laws::steps::lemma_end(steps, 4, third, answers, 2);
        }
    }
}

/// Whether an answer is that to a differentiation.
pub open spec fn columns_or_refusal(answer: Answer) -> bool {
    match answer {
        Answer::Four(first, second, third, fourth) => {
            &&& first.len() <= u64::MAX
            &&& second.len() <= u64::MAX
            &&& third.len() <= u64::MAX
            &&& fourth.len() <= u64::MAX
        },
        Answer::Failed(_) => true,
        _ => false,
    }
}

/// Differentiating the reference circuit twice passes exactly when both runs give equal values,
/// adjoints and gradients.
pub proof fn law_differentiation_passes_exactly_when_reproduced(answers: Seq<Answer>)
    requires
        answers.len() >= 2,
        columns_or_refusal(answers[0]),
        columns_or_refusal(answers[1]),
    ensures
        crate::machine::run_of(
            crate::script::plan(
                "test_xgcf_backward_reproducibility",
                crate::categories::c15_determinism::xgcf_backward_reproducibility_steps(),
            ),
            answers,
        ).progress == Progress::Over(Ending::Passed) <==> match (answers[0], answers[1]) {
            (Answer::Four(a, b, c, d), Answer::Four(e, f, g, h)) => equal_columns(a, e)
                && equal_columns(b, f) && equal_columns(c, g) && equal_columns(d, h),
            _ => false,
        },
{
    let steps = crate::categories::c15_determinism::xgcf_backward_reproducibility_steps();
    let plan = crate::script::plan("test_xgcf_backward_reproducibility", steps);
    let blank = Contents::blank(plan.texts);
    crate::walk::law_passes_exactly_when_every_step_goes_through(plan, answers);
    crate::laws::steps::lemma_four_columns(steps, 0, 7, blank, answers, 0, 0);
    match answers[0] {
        Answer::Four(a, b, c, d) => {
            let first = blank.with_column(0, a).with_column(1, b).with_column(2, c).with_column(
                3,
                d,
            );
            crate::laws::steps::lemma_four_columns(steps, 1, 7, first, answers, 1, 4);
            match answers[1] {
                Answer::Four(e, f, g, h) => {
                    let second = first.with_column(4, e).with_column(5, f).with_column(
                        6,
                        g,
                    ).with_column(7, h);
                    lemma_backward_end(steps, second, answers, a, b, c, d, e, f, g, h);
                },
                _ => {},
            }
        },
        _ => {},
    }
}

/// The end of the differentiation test, once both runs are in.
proof fn lemma_backward_end(
    steps: Seq<Step>,
    contents: Contents,
    answers: Seq<Answer>,
    a: Seq<u64>,
    b: Seq<u64>,
    c: Seq<u64>,
    d: Seq<u64>,
    e: Seq<u64>,
    f: Seq<u64>,
    g: Seq<u64>,
    h: Seq<u64>,
)
    requires
        steps == crate::categories::c15_determinism::xgcf_backward_reproducibility_steps(),
        contents.full(),
        contents.columns[0] == a,
        contents.columns[1] == b,
        contents.columns[2] == c,
        contents.columns[3] == d,
        contents.columns[4] == e,
        contents.columns[5] == f,
        contents.columns[6] == g,
        contents.columns[7] == h,
        a.len() <= u64::MAX,
        b.len() <= u64::MAX,
        c.len() <= u64::MAX,
        d.len() <= u64::MAX,
        e.len() <= u64::MAX,
        f.len() <= u64::MAX,
        g.len() <= u64::MAX,
        h.len() <= u64::MAX,
    ensures
        crate::walk::walked(steps, 2, 7, contents, answers, 2) is Some <==> equal_columns(a, e)
            && equal_columns(b, f) && equal_columns(c, g) && equal_columns(d, h),
{
    lemma_flag(steps, 2, 7, contents, answers, 2, 0, 4, 8);
    let first = contents.with_column(8, differences(a, e));
    lemma_flag(steps, 3, 7, first, answers, 2, 1, 5, 9);
    let second = first.with_column(9, differences(b, f));
    lemma_flag(steps, 4, 7, second, answers, 2, 2, 6, 10);
    let third = second.with_column(10, differences(c, g));
    lemma_flag(steps, 5, 7, third, answers, 2, 3, 7, 11);
    let fourth = third.with_column(11, differences(d, h));
    lemma_differ(fourth, 0, 4, 8);
    lemma_differ(fourth, 1, 5, 9);
    lemma_differ(fourth, 2, 6, 10);
    lemma_differ(fourth, 3, 7, 11);
    let faulty = !(equal_columns(a, e) && equal_columns(b, f) && equal_columns(c, g)
        && equal_columns(d, h));
    let last = or(differs(len(3), len(7)), lt(num(0), sum_of(11)));
    let later = or(or(differs(len(2), len(6)), lt(num(0), sum_of(10))), last);
    let late = or(or(differs(len(1), len(5)), lt(num(0), sum_of(9))), later);
    let whole = or(or(differs(len(0), len(4)), lt(num(0), sum_of(8))), late);
    assert(steps[6]->Do_0->Check_fault == whole);
    assert(crate::expr::value_of(later, fourth, 0) == Some(
        crate::expr::truth(!(equal_columns(c, g) && equal_columns(d, h))),
    ));
    assert(crate::expr::value_of(late, fourth, 0) == Some(
        crate::expr::truth(
            !(equal_columns(b, f) && equal_columns(c, g) && equal_columns(d, h)),
        ),
    ));
    assert(crate::expr::value_of(whole, fourth, 0) == Some(crate::expr::truth(faulty)));
    crate::laws::steps::lemma_check(steps, 6, 7, fourth, answers, 2, faulty);
    crate::laws::steps::lemma_end(steps, 7, fourth, answers, 2);
}

} // verus!
