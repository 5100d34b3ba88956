//! What it takes for a script to pass: the laws of its runs.

use vstd::prelude::*;
use crate::machine::{Answer, Ending, Progress, Run};
use crate::memory::Contents;
use crate::script::{Act, Faults, Otherwise, Plan, Request, Step, COUNT};

verus! {

/// Whether the step after a step is the only one that a script can go on at from it.
pub open spec fn straight(step: Step) -> bool {
    match crate::machine::act_of(step) {
        Act::Tick { .. } => false,
        Act::Ask(_, otherwise) => match otherwise {
            Otherwise::Jump { .. } => false,
            Otherwise::Leave { .. } => false,
            _ => true,
        },
        _ => true,
    }
}

/// The contents with which a script goes on after the step of a request has been answered, if it
/// goes on at the step after it.
pub open spec fn heard(step: Step, request: Request, contents: Contents, answer: Answer) -> Option<
    Contents,
> {
    match crate::machine::act_of(step) {
        Act::Ask(_, otherwise) => match answer {
            Answer::Failed(_) => match otherwise {
                Otherwise::Go => Some(contents),
                Otherwise::Zero => crate::machine::register_put(
                    contents,
                    crate::machine::register_of(request),
                    Some(0),
                ),
                _ => None,
            },
            _ => crate::machine::stored(request, contents, answer),
        },
        Act::Match { expected, .. } => match answer {
            Answer::Count(number) => if crate::expr::value_of(expected, contents, 0) == Some(
                number,
            ) {
                crate::machine::register_put(contents, COUNT, Some(number))
            } else {
                None
            },
            _ => None,
        },
        _ => None,
    }
}

/// A script that takes the steps from `at` up to `to`, one after the other, and hears the answers
/// from number `used` on: the contents it comes to and the number of the next answer, if each of
/// these steps goes through.
#[verifier::opaque]
pub open spec fn walked(
    steps: Seq<Step>,
    at: int,
    to: int,
    contents: Contents,
    answers: Seq<Answer>,
    used: int,
) -> Option<(Contents, int)>
    decreases to - at,
{
    if at >= to {
        Some((contents, used))
    } else {
        match crate::machine::moved(steps[at], contents) {
            crate::machine::Effect::Next(contents) => walked(
                steps,
                at + 1,
                to,
                contents,
                answers,
                used,
            ),
            crate::machine::Effect::Ask(request) => if used < answers.len() {
                match heard(steps[at], request, contents, answers[used]) {
                    Some(contents) => walked(steps, at + 1, to, contents, answers, used + 1),
                    None => None,
                }
            } else {
                None
            },
            crate::machine::Effect::Stop(_) => None,
        }
    }
}

/// A script that has come to its end stays there, whatever more the device answers.
pub proof fn law_ends_are_final(plan: Plan, answers: Seq<Answer>, more: Seq<Answer>)
    requires
        crate::machine::run_of(plan, answers).progress is Over,
    ensures
        crate::machine::run_of(plan, answers + more) == crate::machine::run_of(plan, answers),
    decreases more.len(),
{
    if more.len() == 0 {
        assert(answers + more =~= answers);
    } else {
        law_ends_are_final(plan, answers, more.drop_last());
        assert((answers + more).drop_last() =~= answers + more.drop_last());
    }
}

/// A walk uses answers only.
proof fn lemma_walk_uses_answers(
    steps: Seq<Step>,
    at: int,
    to: int,
    contents: Contents,
    answers: Seq<Answer>,
    used: int,
)
    requires
        0 <= used <= answers.len(),
    ensures
        match walked(steps, at, to, contents, answers, used) {
            Some((_, next)) => used <= next <= answers.len(),
            None => true,
        },
    decreases to - at,
{
    reveal_with_fuel(walked, 2);
    if at < to {
        match crate::machine::moved(steps[at], contents) {
            crate::machine::Effect::Next(contents) => {
                lemma_walk_uses_answers(steps, at + 1, to, contents, answers, used);
            },
            crate::machine::Effect::Ask(request) => if used < answers.len() {
                match heard(steps[at], request, contents, answers[used]) {
                    Some(contents) => {
                        lemma_walk_uses_answers(steps, at + 1, to, contents, answers, used + 1);
                    },
                    None => {},
                }
            },
            _ => {},
        }
    }
}

/// A run follows a walk.
proof fn lemma_run_follows_walk(
    plan: Plan,
    at: int,
    to: int,
    contents: Contents,
    answers: Seq<Answer>,
    used: int,
)
    requires
        0 <= at <= to <= plan.steps.len(),
        0 <= used <= answers.len(),
        crate::machine::run_of(plan, answers.take(used)) == crate::machine::settled(
            plan.steps,
            at,
            contents,
        ),
    ensures
        match walked(plan.steps, at, to, contents, answers, used) {
            Some((after, next)) => crate::machine::run_of(plan, answers.take(next))
                == crate::machine::settled(plan.steps, to, after),
            None => true,
        },
    decreases to - at,
{
    reveal_with_fuel(walked, 2);
    let steps = plan.steps;
    if at < to {
        match crate::machine::moved(steps[at], contents) {
            crate::machine::Effect::Next(further) => {
                lemma_run_follows_walk(plan, at + 1, to, further, answers, used);
            },
            crate::machine::Effect::Ask(request) => if used < answers.len() {
                match heard(steps[at], request, contents, answers[used]) {
                    Some(further) => {
                        reveal(crate::machine::effect_of);
                        assert(answers.take(used + 1).drop_last() =~= answers.take(used));
                        assert(crate::machine::run_of(plan, answers.take(used + 1))
                            == crate::machine::settled(steps, at + 1, further));
                        lemma_run_follows_walk(plan, at + 1, to, further, answers, used + 1);
                    },
                    None => {},
                }
            },
            _ => {},
        }
    }
}

/// A run that goes wrong at a step does not pass.
proof fn lemma_run_fails_with_walk(
    plan: Plan,
    at: int,
    to: int,
    contents: Contents,
    answers: Seq<Answer>,
    used: int,
)
    requires
        0 <= at <= to <= plan.steps.len(),
        0 <= used <= answers.len(),
        forall|k: int| at <= k < to ==> straight(#[trigger] plan.steps[k]),
        crate::machine::run_of(plan, answers.take(used)) == crate::machine::settled(
            plan.steps,
            at,
            contents,
        ),
        walked(plan.steps, at, to, contents, answers, used) is None,
    ensures
        crate::machine::run_of(plan, answers).progress != Progress::Over(Ending::Passed),
    decreases to - at,
{
    reveal_with_fuel(walked, 2);
    let steps = plan.steps;
    assert(answers.take(answers.len() as int) =~= answers);
    assert(answers =~= answers.take(used) + answers.skip(used));
    match crate::machine::moved(steps[at], contents) {
        crate::machine::Effect::Next(further) => {
            lemma_run_fails_with_walk(plan, at + 1, to, further, answers, used);
        },
        crate::machine::Effect::Ask(request) => if used < answers.len() {
            reveal(crate::machine::effect_of);
            assert(straight(steps[at]));
            assert(answers.take(used + 1).drop_last() =~= answers.take(used));
            match heard(steps[at], request, contents, answers[used]) {
                Some(further) => {
                    lemma_run_fails_with_walk(plan, at + 1, to, further, answers, used + 1);
                },
                None => {
                    let next = crate::machine::run_of(plan, answers.take(used + 1));
                    assert(next.progress != Progress::Over(Ending::Passed));
                    if next.progress is Over {
                        assert(answers =~= answers.take(used + 1) + answers.skip(used + 1));
                        law_ends_are_final(plan, answers.take(used + 1), answers.skip(used + 1));
                    } else if used + 1 < answers.len() {
                        assert(answers.take(used + 2).drop_last() =~= answers.take(used + 1));
                        let last = crate::machine::run_of(plan, answers.take(used + 2));
                        assert(last.progress is Over);
                        assert(answers =~= answers.take(used + 2) + answers.skip(used + 2));
                        law_ends_are_final(plan, answers.take(used + 2), answers.skip(used + 2));
                    }
                },
            }
        },
        crate::machine::Effect::Stop(ending) => {
            reveal(crate::machine::effect_of);
            law_ends_are_final(plan, answers.take(used), answers.skip(used));
        },
    }
}

/// Once a script has gone through its first `to` steps it stands before the next one: nothing but
/// that step decides how it goes on.
pub proof fn law_steps_are_taken_in_order(plan: Plan, to: int, answers: Seq<Answer>)
    requires
        0 <= to <= plan.steps.len(),
    ensures
        match walked(plan.steps, 0, to, Contents::blank(plan.texts), answers, 0) {
            Some((after, next)) => 0 <= next <= answers.len() && crate::machine::run_of(
                plan,
                answers.take(next),
            ) == crate::machine::settled(plan.steps, to, after),
            None => true,
        },
{
    let blank = Contents::blank(plan.texts);
    assert(answers.take(0) =~= Seq::<Answer>::empty());
    lemma_run_follows_walk(plan, 0, to, blank, answers, 0);
    lemma_walk_uses_answers(plan.steps, 0, to, blank, answers, 0);
}

/// A script without jumps passes exactly when each of its steps goes through, one after the
/// other.
pub proof fn law_passes_exactly_when_every_step_goes_through(plan: Plan, answers: Seq<Answer>)
    requires
        forall|k: int| 0 <= k < plan.steps.len() ==> straight(#[trigger] plan.steps[k]),
    ensures
        crate::machine::run_of(plan, answers).progress == Progress::Over(Ending::Passed) <==> walked(
            plan.steps,
            0,
            plan.steps.len() as int,
            Contents::blank(plan.texts),
            answers,
            0,
        ) is Some,
{
    let blank = Contents::blank(plan.texts);
    let end = plan.steps.len() as int;
    assert(answers.take(0) =~= Seq::<Answer>::empty());
    match walked(plan.steps, 0, end, blank, answers, 0) {
        Some((after, next)) => {
            law_steps_are_taken_in_order(plan, end, answers);
            assert(answers =~= answers.take(next) + answers.skip(next));
            law_ends_are_final(plan, answers.take(next), answers.skip(next));
        },
        None => {
            lemma_run_fails_with_walk(plan, 0, end, blank, answers, 0);
        },
    }
}

/// A script whose first steps have no jumps, and do not all go through, does not pass.
pub proof fn law_scripts_that_fall_short_do_not_pass(plan: Plan, to: int, answers: Seq<Answer>)
    requires
        0 <= to <= plan.steps.len(),
        forall|k: int| 0 <= k < to ==> straight(#[trigger] plan.steps[k]),
        walked(plan.steps, 0, to, Contents::blank(plan.texts), answers, 0) is None,
    ensures
        crate::machine::run_of(plan, answers).progress != Progress::Over(Ending::Passed),
{
    assert(answers.take(0) =~= Seq::<Answer>::empty());
    lemma_run_fails_with_walk(plan, 0, to, Contents::blank(plan.texts), answers, 0);
}

/// Whether a script stands before a step once some of the answers have been heard.
pub open spec fn stands(
    plan: Plan,
    answers: Seq<Answer>,
    used: int,
    at: int,
    contents: Contents,
) -> bool {
    &&& 0 <= used <= answers.len()
    &&& crate::machine::run_of(plan, answers.take(used)) == crate::machine::settled(
        plan.steps,
        at,
        contents,
    )
}

/// Where a script stands before steps without jumps, it comes past them where each of them goes
/// through, and does not pass where one does not.
pub proof fn law_steps_without_jumps_go_through_or_do_not_pass(
    plan: Plan,
    at: int,
    to: int,
    contents: Contents,
    answers: Seq<Answer>,
    used: int,
)
    requires
        0 <= at <= to <= plan.steps.len(),
        forall|k: int| at <= k < to ==> straight(#[trigger] plan.steps[k]),
        stands(plan, answers, used, at, contents),
    ensures
        match walked(plan.steps, at, to, contents, answers, used) {
            Some((after, next)) => stands(plan, answers, next, to, after),
            None => crate::machine::run_of(plan, answers).progress != Progress::Over(
                Ending::Passed,
            ),
        },
{
    match walked(plan.steps, at, to, contents, answers, used) {
        Some(_) => {
            lemma_run_follows_walk(plan, at, to, contents, answers, used);
            lemma_walk_uses_answers(plan.steps, at, to, contents, answers, used);
        },
        None => {
            lemma_run_fails_with_walk(plan, at, to, contents, answers, used);
        },
    }
}

/// A script that stands before the asking of a clock goes on at one step or at another, by the
/// answer; it does not pass without one.
pub proof fn law_clocks_decide_where_a_script_goes_on(
    plan: Plan,
    at: int,
    contents: Contents,
    answers: Seq<Answer>,
    used: int,
)
    requires
        0 <= at < plan.steps.len(),
        stands(plan, answers, used, at, contents),
        plan.steps[at] matches Step::Do(Act::Tick { .. }),
    ensures
        plan.steps[at] matches Step::Do(Act::Tick { again, done, .. }) && if used < answers.len() {
            match answers[used] {
                Answer::Count(number) => stands(
                    plan,
                    answers,
                    used + 1,
                    if number != 0 {
                        again as int
                    } else {
                        done as int
                    },
                    contents,
                ),
                _ => crate::machine::run_of(plan, answers).progress != Progress::Over(
                    Ending::Passed,
                ),
            }
        } else {
            crate::machine::run_of(plan, answers).progress != Progress::Over(Ending::Passed)
        },
{
    reveal(crate::machine::effect_of);
    if used < answers.len() {
        assert(answers.take(used + 1).drop_last() =~= answers.take(used));
        if !(answers[used] is Count) {
            assert(answers =~= answers.take(used + 1) + answers.skip(used + 1));
            law_ends_are_final(plan, answers.take(used + 1), answers.skip(used + 1));
        }
    } else {
        assert(answers.take(used) =~= answers);
    }
}

/// A script that stands before a request that it counts the refusals of goes on at the next step
/// where the device does it, and otherwise at the step that the request names, with one more
/// refusal; it does not pass without an answer.
pub proof fn law_counted_refusals_jump(
    plan: Plan,
    at: int,
    contents: Contents,
    answers: Seq<Answer>,
    used: int,
)
    requires
        0 <= at < plan.steps.len(),
        stands(plan, answers, used, at, contents),
        crate::machine::taken(plan.steps[at], contents) == Some(true),
        crate::machine::act_of(plan.steps[at]) matches Act::Ask(_, Otherwise::Jump { bump, .. })
            && bump < contents.registers.len() && contents.registers[bump as int] < u64::MAX,
    ensures
        crate::machine::act_of(
            plan.steps[at],
        ) matches Act::Ask(request, Otherwise::Jump { bump, to }) && if used < answers.len() {
            match answers[used] {
                Answer::Failed(_) => stands(
                    plan,
                    answers,
                    used + 1,
                    to as int,
                    contents.with_register(bump, (contents.registers[bump as int] + 1) as u64),
                ),
                answer => match crate::machine::stored(request, contents, answer) {
                    Some(after) => stands(plan, answers, used + 1, at + 1, after),
                    None => true,
                },
            }
        } else {
            crate::machine::run_of(plan, answers).progress != Progress::Over(Ending::Passed)
        },
{
    reveal(crate::machine::effect_of);
    if used < answers.len() {
        assert(answers.take(used + 1).drop_last() =~= answers.take(used));
        reveal_with_fuel(crate::expr::value_of, 2);
    } else {
        assert(answers.take(used) =~= answers);
    }
}

/// A script that stands before a step, and has no jumps from there on, passes exactly when each of
/// the steps that are left goes through.
pub proof fn law_rest_passes_exactly_when_it_goes_through(
    plan: Plan,
    at: int,
    contents: Contents,
    answers: Seq<Answer>,
    used: int,
)
    requires
        0 <= at <= plan.steps.len(),
        0 <= used <= answers.len(),
        forall|k: int| at <= k < plan.steps.len() ==> straight(#[trigger] plan.steps[k]),
        crate::machine::run_of(plan, answers.take(used)) == crate::machine::settled(
            plan.steps,
            at,
            contents,
        ),
    ensures
        crate::machine::run_of(plan, answers).progress == Progress::Over(Ending::Passed) <==> walked(
            plan.steps,
            at,
            plan.steps.len() as int,
            contents,
            answers,
            used,
        ) is Some,
{
    let end = plan.steps.len() as int;
    match walked(plan.steps, at, end, contents, answers, used) {
        Some((after, next)) => {
            lemma_run_follows_walk(plan, at, end, contents, answers, used);
            lemma_walk_uses_answers(plan.steps, at, end, contents, answers, used);
            assert(answers =~= answers.take(next) + answers.skip(next));
            law_ends_are_final(plan, answers.take(next), answers.skip(next));
        },
        None => {
            lemma_run_fails_with_walk(plan, at, end, contents, answers, used);
        },
    }
}

/// A script that may leave off at a request goes on at the step that the request names where the
/// device refuses it.
pub proof fn law_refused_requests_leave_to_their_step(
    plan: Plan,
    at: int,
    answers: Seq<Answer>,
    to: u64,
)
    requires
        0 <= at < plan.steps.len(),
        match walked(plan.steps, 0, at, Contents::blank(plan.texts), answers, 0) {
            Some((contents, used)) => {
                &&& crate::machine::moved(plan.steps[at], contents) is Ask
                &&& used < answers.len()
                &&& answers[used] is Failed
            },
            None => false,
        },
        crate::machine::act_of(plan.steps[at]) matches Act::Ask(_, otherwise) && otherwise == (
        Otherwise::Leave { to }),
    ensures
        match walked(plan.steps, 0, at, Contents::blank(plan.texts), answers, 0) {
            Some((contents, used)) => crate::machine::run_of(plan, answers.take(used + 1))
                == crate::machine::settled(plan.steps, to as int, contents),
            None => false,
        },
{
    let (contents, used) = walked(plan.steps, 0, at, Contents::blank(plan.texts), answers, 0)->0;
    law_steps_are_taken_in_order(plan, at, answers);
    reveal(crate::machine::effect_of);
    assert(answers.take(used + 1).drop_last() =~= answers.take(used));
}

/// Whether a script goes on after a step in the same way whatever the device answers: the step
/// makes a request that leaves nothing behind, and goes on where it is refused.
pub open spec fn indifferent(step: Step) -> bool {
    match crate::machine::act_of(step) {
        Act::Ask(request, Otherwise::Go) => match request {
            Request::Create { .. } => true,
            Request::Sort { .. } => true,
            Request::Filter { .. } => true,
            Request::Dedup { .. } => true,
            Request::Join { .. } => true,
            Request::Sync => true,
            _ => false,
        },
        _ => false,
    }
}

/// An answer to a step that goes on whatever it is does not matter: with another answer in its
/// place the run is the same, and ends, if it does, with the same message.
pub proof fn law_answers_to_indifferent_steps_do_not_matter(
    plan: Plan,
    answers: Seq<Answer>,
    place: int,
    other: Answer,
)
    requires
        0 <= place < answers.len(),
        match crate::machine::run_of(plan, answers.take(place)).progress {
            Progress::Asking { at, request, .. } => indifferent(plan.steps[at])
                && crate::machine::act_of(plan.steps[at]) == Act::Ask(request, Otherwise::Go),
            Progress::Over(_) => true,
        },
    ensures
        crate::machine::run_of(plan, answers) == crate::machine::run_of(
            plan,
            answers.update(place, other),
        ),
    decreases answers.len(),
{
    let changed = answers.update(place, other);
    if answers.len() == place + 1 {
        assert(answers.drop_last() =~= answers.take(place));
        assert(changed.drop_last() =~= answers.take(place));
        reveal(crate::machine::stored);
    } else {
        assert(answers.drop_last().take(place) =~= answers.take(place));
        assert(changed.drop_last() =~= answers.drop_last().update(place, other));
        law_answers_to_indifferent_steps_do_not_matter(plan, answers.drop_last(), place, other);
    }
}

/// A request that the device refuses ends the test with the note of its step, which shows the
/// reason that the device gave: the first refusal is the one that is reported.
pub proof fn law_refusals_are_reported_with_their_reason(
    plan: Plan,
    at: int,
    answers: Seq<Answer>,
    reason: Seq<char>,
)
    requires
        0 <= at < plan.steps.len(),
        match walked(plan.steps, 0, at, Contents::blank(plan.texts), answers, 0) {
            Some((contents, used)) => {
                &&& crate::machine::moved(plan.steps[at], contents) is Ask
                &&& used < answers.len()
                &&& answers[used] == Answer::Failed(reason)
            },
            None => false,
        },
        crate::machine::act_of(plan.steps[at]) matches Act::Ask(_, Otherwise::Fail(_)),
    ensures
        crate::machine::act_of(plan.steps[at]) matches Act::Ask(_, Otherwise::Fail(note)) && match walked(
            plan.steps,
            0,
            at,
            Contents::blank(plan.texts),
            answers,
            0,
        ) {
            Some((contents, _)) => crate::machine::run_of(plan, answers).progress
                == Progress::Over(
                crate::machine::failing(crate::message::said(note, contents, 0, Some(reason))),
            ),
            None => false,
        },
{
    let (contents, used) = walked(plan.steps, 0, at, Contents::blank(plan.texts), answers, 0)->0;
    law_steps_are_taken_in_order(plan, at, answers);
    reveal(crate::machine::effect_of);
    assert(answers.take(used + 1).drop_last() =~= answers.take(used));
    assert(crate::machine::run_of(plan, answers.take(used + 1)).progress is Over);
    assert(answers =~= answers.take(used + 1) + answers.skip(used + 1));
    law_ends_are_final(plan, answers.take(used + 1), answers.skip(used + 1));
}

/// A check that does not hold ends the test with the note of its step, whatever the device would
/// have answered later.
pub proof fn law_failed_checks_are_reported(plan: Plan, at: int, answers: Seq<Answer>)
    requires
        0 <= at < plan.steps.len(),
        match walked(plan.steps, 0, at, Contents::blank(plan.texts), answers, 0) {
            Some((contents, _)) => {
                &&& crate::machine::taken(plan.steps[at], contents) == Some(true)
                &&& crate::machine::act_of(plan.steps[at]) matches Act::Check { fault, .. }
                &&& crate::expr::value_of(fault, contents, 0) matches Some(value)
                &&& value != 0
            },
            None => false,
        },
    ensures
        crate::machine::act_of(plan.steps[at]) matches Act::Check { note, .. } && match walked(
            plan.steps,
            0,
            at,
            Contents::blank(plan.texts),
            answers,
            0,
        ) {
            Some((contents, _)) => crate::machine::run_of(plan, answers).progress
                == Progress::Over(
                crate::machine::failing(crate::message::said(note, contents, 0, None)),
            ),
            None => false,
        },
{
    let (contents, used) = walked(plan.steps, 0, at, Contents::blank(plan.texts), answers, 0)->0;
    law_steps_are_taken_in_order(plan, at, answers);
    reveal(crate::machine::effect_of);
    assert(answers =~= answers.take(used) + answers.skip(used));
    law_ends_are_final(plan, answers.take(used), answers.skip(used));
}

/// Whether a script can be given up with a reason.
pub open spec fn may_be_given_up(steps: Seq<Step>, reason: &'static str) -> bool {
    exists|k: int|
        0 <= k < steps.len() && match #[trigger] crate::machine::act_of(steps[k]) {
            Act::Skip { reason: own, .. } => own == reason,
            _ => false,
        }
}

/// A script that goes on from a step is given up only by a step of it.
proof fn lemma_given_up_by_a_step(
    steps: Seq<Step>,
    at: int,
    contents: Contents,
    reason: &'static str,
)
    requires
        crate::machine::settled(steps, at, contents).progress == Progress::Over(
            Ending::Skipped(reason),
        ),
    ensures
        may_be_given_up(steps, reason),
    decreases steps.len() - at,
{
    reveal(crate::machine::effect_of);
    match crate::machine::moved(steps[at], contents) {
        crate::machine::Effect::Next(further) => {
            lemma_given_up_by_a_step(steps, at + 1, further, reason);
        },
        _ => {
            assert(crate::machine::act_of(steps[at]) is Skip);
        },
    }
}

/// A test is given up only by one of its own steps, and with the reason of that step: no answer
/// of the device can make it skip otherwise.
pub proof fn law_only_own_steps_give_up(plan: Plan, answers: Seq<Answer>, reason: &'static str)
    requires
        crate::machine::run_of(plan, answers).progress == Progress::Over(Ending::Skipped(reason)),
    ensures
        may_be_given_up(plan.steps, reason),
    decreases answers.len(),
{
    let blank = Contents::blank(plan.texts);
    if answers.len() == 0 {
        lemma_given_up_by_a_step(plan.steps, 0, blank, reason);
    } else {
        let before = crate::machine::run_of(plan, answers.drop_last());
        match before.progress {
            Progress::Over(_) => {
                law_only_own_steps_give_up(plan, answers.drop_last(), reason);
            },
            Progress::Asking { at, again, request } => {
                lemma_answer_gives_up_by_a_step(
                    plan.steps,
                    before,
                    answers.last(),
                    reason,
                );
            },
        }
    }
}

/// An answer makes a script give up only by a step of it.
proof fn lemma_answer_gives_up_by_a_step(
    steps: Seq<Step>,
    before: Run,
    answer: Answer,
    reason: &'static str,
)
    requires
        before.progress is Asking,
        crate::machine::answered(steps, before, answer).progress == Progress::Over(
            Ending::Skipped(reason),
        ),
    ensures
        may_be_given_up(steps, reason),
{
    let contents = before.contents;
    match before.progress {
        Progress::Asking { at, again, request } => match crate::machine::act_of(steps[at]) {
            Act::Ask(_, otherwise) => match answer {
                Answer::Failed(_) => match otherwise {
                    Otherwise::Fail(_) => {},
                    Otherwise::Go => {
                        lemma_given_up_by_a_step(steps, at + 1, contents, reason);
                    },
                    Otherwise::Zero => {
                        let next = crate::machine::register_put(
                            contents,
                            crate::machine::register_of(request),
                            Some(0),
                        );
                        lemma_given_up_by_a_step(steps, at + 1, next->0, reason);
                    },
                    Otherwise::Jump { bump, to } => {
                        let next = crate::machine::register_put(
                            contents,
                            bump,
                            crate::expr::value_of(
                                crate::expr::plus(
                                    crate::expr::Expr::Register(bump),
                                    crate::expr::Expr::Number(1),
                                ),
                                contents,
                                0,
                            ),
                        );
                        lemma_given_up_by_a_step(steps, to as int, next->0, reason);
                    },
                    Otherwise::Leave { to } => {
                        lemma_given_up_by_a_step(steps, to as int, contents, reason);
                    },
                },
                _ => {
                    let next = crate::machine::stored(request, contents, answer);
                    lemma_given_up_by_a_step(steps, at + 1, next->0, reason);
                },
            },
            Act::Match { .. } => match answer {
                Answer::Count(number) => {
                    let next = crate::machine::register_put(contents, COUNT, Some(number));
                    lemma_given_up_by_a_step(steps, at + 1, next->0, reason);
                },
                _ => {},
            },
            Act::Tick { again, done, .. } => match answer {
                Answer::Count(number) => {
                    let to = if number != 0 {
                        again as int
                    } else {
                        done as int
                    };
                    lemma_given_up_by_a_step(steps, to, contents, reason);
                },
                _ => {},
            },
            _ => {},
        },
        _ => {},
    }
}

/// A walk over two parts of a script is a walk over the first and then over the second.
pub proof fn law_walks_compose(
    steps: Seq<Step>,
    from: int,
    mid: int,
    to: int,
    contents: Contents,
    answers: Seq<Answer>,
    used: int,
)
    requires
        from <= mid <= to,
    ensures
        walked(steps, from, to, contents, answers, used) == match walked(
            steps,
            from,
            mid,
            contents,
            answers,
            used,
        ) {
            Some((after, next)) => walked(steps, mid, to, after, answers, next),
            None => None,
        },
    decreases mid - from,
{
    reveal_with_fuel(walked, 2);
    if from < mid {
        match crate::machine::moved(steps[from], contents) {
            crate::machine::Effect::Next(further) => {
                law_walks_compose(steps, from + 1, mid, to, further, answers, used);
            },
            crate::machine::Effect::Ask(request) => if used < answers.len() {
                match heard(steps[from], request, contents, answers[used]) {
                    Some(further) => {
                        law_walks_compose(steps, from + 1, mid, to, further, answers, used + 1);
                    },
                    None => {},
                }
            },
            _ => {},
        }
    }
}

/// A walk over a part of a script is a walk over that part alone.
pub proof fn law_walks_are_local(
    steps: Seq<Step>,
    part: Seq<Step>,
    from: int,
    at: int,
    contents: Contents,
    answers: Seq<Answer>,
    used: int,
)
    requires
        0 <= from,
        from + part.len() <= steps.len(),
        0 <= at <= part.len(),
        steps.subrange(from, from + part.len()) == part,
    ensures
        walked(steps, from + at, from + part.len(), contents, answers, used) == walked(
            part,
            at,
            part.len() as int,
            contents,
            answers,
            used,
        ),
    decreases part.len() - at,
{
    reveal_with_fuel(walked, 2);
    if at < part.len() {
        assert(steps[from + at] == part[at]);
        match crate::machine::moved(part[at], contents) {
            crate::machine::Effect::Next(further) => {
                law_walks_are_local(steps, part, from, at + 1, further, answers, used);
            },
            crate::machine::Effect::Ask(request) => if used < answers.len() {
                match heard(part[at], request, contents, answers[used]) {
                    Some(further) => {
                        law_walks_are_local(steps, part, from, at + 1, further, answers, used + 1);
                    },
                    None => {},
                }
            },
            _ => {},
        }
    }
}

/// Whether a walk goes through with `count` answers, to contents with every slot in them.
pub open spec fn goes_through(
    steps: Seq<Step>,
    contents: Contents,
    answers: Seq<Answer>,
    used: int,
    count: int,
) -> bool {
    match walked(steps, 0, steps.len() as int, contents, answers, used) {
        Some((after, next)) => after.full() && next == used + count,
        None => false,
    }
}

/// Rounds that each take as many answers go through exactly when each of them does.
pub proof fn law_rounds_go_through_one_by_one(
    count: int,
    round: spec_fn(int) -> Seq<Step>,
    each: int,
    good: spec_fn(int) -> bool,
    contents: Contents,
    answers: Seq<Answer>,
    used: int,
)
    requires
        count >= 0,
        contents.full(),
        forall|k: int, contents: Contents|
            #![trigger good(k), contents.full()]
            0 <= k < count && contents.full() ==> if good(k) {
                goes_through(round(k), contents, answers, used + each * k, each)
            } else {
                walked(
                    round(k),
                    0,
                    round(k).len() as int,
                    contents,
                    answers,
                    used + each * k,
                ) is None
            },
    ensures
        (forall|k: int| 0 <= k < count ==> #[trigger] good(k)) ==> goes_through(
            crate::script::rounds(count, round),
            contents,
            answers,
            used,
            each * count,
        ),
        !(forall|k: int| 0 <= k < count ==> #[trigger] good(k)) ==> walked(
            crate::script::rounds(count, round),
            0,
            crate::script::rounds(count, round).len() as int,
            contents,
            answers,
            used,
        ) is None,
{
    let kept = |contents: Contents| contents.full();
    let start = |k: int| used + each * k;
    assert forall|k: int, contents: Contents|
        #![trigger good(k), kept(contents)]
        0 <= k < count && kept(contents) implies if good(k) {
        goes_to(round(k), contents, answers, start(k), start(k + 1), kept)
    } else {
        walked(round(k), 0, round(k).len() as int, contents, answers, start(k)) is None
    } by {
        assert(contents.full());
        assert(each * (k + 1) == each * k + each) by (nonlinear_arith);
    }
    assert(each * 0 == 0);
    law_rounds_keep_what_each_keeps(count, round, start, good, kept, contents, answers);
}

/// Whether a walk goes through up to an answer, to contents of which something holds.
pub open spec fn goes_to(
    steps: Seq<Step>,
    contents: Contents,
    answers: Seq<Answer>,
    used: int,
    next: int,
    kept: spec_fn(Contents) -> bool,
) -> bool {
    match walked(steps, 0, steps.len() as int, contents, answers, used) {
        Some((after, reached)) => kept(after) && reached == next,
        None => false,
    }
}

/// Rounds that each take known answers, and keep something true of the contents, go through
/// exactly when each of them does.
pub proof fn law_rounds_keep_what_each_keeps(
    count: int,
    round: spec_fn(int) -> Seq<Step>,
    start: spec_fn(int) -> int,
    good: spec_fn(int) -> bool,
    kept: spec_fn(Contents) -> bool,
    contents: Contents,
    answers: Seq<Answer>,
)
    requires
        count >= 0,
        kept(contents),
        forall|k: int, contents: Contents|
            #![trigger good(k), kept(contents)]
            0 <= k < count && kept(contents) ==> if good(k) {
                goes_to(round(k), contents, answers, start(k), start(k + 1), kept)
            } else {
                walked(round(k), 0, round(k).len() as int, contents, answers, start(k)) is None
            },
    ensures
        (forall|k: int| 0 <= k < count ==> #[trigger] good(k)) ==> goes_to(
            crate::script::rounds(count, round),
            contents,
            answers,
            start(0),
            start(count),
            kept,
        ),
        !(forall|k: int| 0 <= k < count ==> #[trigger] good(k)) ==> walked(
            crate::script::rounds(count, round),
            0,
            crate::script::rounds(count, round).len() as int,
            contents,
            answers,
            start(0),
        ) is None,
    decreases count,
{
    if count == 0 {
        reveal(walked);
    } else {
        let before = crate::script::rounds(count - 1, round);
        let last = round(count - 1);
        law_rounds_keep_what_each_keeps(count - 1, round, start, good, kept, contents, answers);
        law_walks_over_two_scripts_compose(before, last, contents, answers, start(0));
        if forall|k: int| 0 <= k < count - 1 ==> #[trigger] good(k) {
            let (after, next) = walked(
                before,
                0,
                before.len() as int,
                contents,
                answers,
                start(0),
            )->0;
            if good(count - 1) {
                assert(goes_to(last, after, answers, start(count - 1), start(count), kept));
            }
        } else {
            let k = choose|k: int| 0 <= k < count - 1 && !(#[trigger] good(k));
            assert(!good(k));
        }
    }
}

/// A walk over a script and another one after it is a walk over the first and then over the
/// second.
pub proof fn law_walks_over_two_scripts_compose(
    first: Seq<Step>,
    second: Seq<Step>,
    contents: Contents,
    answers: Seq<Answer>,
    used: int,
)
    ensures
        walked(
            first + second,
            0,
            (first + second).len() as int,
            contents,
            answers,
            used,
        ) == match walked(first, 0, first.len() as int, contents, answers, used) {
            Some((after, next)) => walked(
                second,
                0,
                second.len() as int,
                after,
                answers,
                next,
            ),
            None => None,
        },
{
    let steps = first + second;
    let mid = first.len() as int;
    let end = steps.len() as int;
    assert(steps.subrange(0, mid) =~= first);
    assert(steps.subrange(mid, end) =~= second);
    law_walks_compose(steps, 0, mid, end, contents, answers, used);
    law_walks_are_local(steps, first, 0, 0, contents, answers, used);
    match walked(first, 0, mid, contents, answers, used) {
        Some((after, next)) => {
            law_walks_are_local(steps, second, mid, 0, after, answers, next);
        },
        None => {},
    }
}

/// Two scripts without jumps make a script without jumps.
pub proof fn law_straight_scripts_make_a_straight_one(first: Seq<Step>, second: Seq<Step>)
    requires
        forall|j: int| 0 <= j < first.len() ==> straight(#[trigger] first[j]),
        forall|j: int| 0 <= j < second.len() ==> straight(#[trigger] second[j]),
    ensures
        forall|j: int| 0 <= j < (first + second).len() ==> straight(#[trigger] (first + second)[j]),
{
    assert forall|j: int| 0 <= j < (first + second).len() implies straight(
        #[trigger] (first + second)[j],
    ) by {
        if j < first.len() {
            assert(straight(first[j]));
        } else {
            assert(straight(second[j - first.len()]));
        }
    }
}

/// Rounds without jumps make a script without jumps.
pub proof fn law_straight_rounds_are_straight(count: int, round: spec_fn(int) -> Seq<Step>)
    requires
        forall|k: int, j: int|
            0 <= k < count && 0 <= j < round(k).len() ==> straight(#[trigger] round(k)[j]),
    ensures
        forall|j: int|
            0 <= j < crate::script::rounds(count, round).len() ==> straight(
                #[trigger] crate::script::rounds(count, round)[j],
            ),
    decreases count,
{
    if count > 0 {
        law_straight_rounds_are_straight(count - 1, round);
        let before = crate::script::rounds(count - 1, round);
        assert forall|j: int| 0 <= j < crate::script::rounds(count, round).len() implies straight(
            #[trigger] crate::script::rounds(count, round)[j],
        ) by {
            if j < before.len() {
                assert(straight(before[j]));
            } else {
                assert(straight(round(count - 1)[j - before.len()]));
            }
        }
    }
}

/// Whether one of some faults shows at a place, or cannot be looked for.
pub open spec fn shows(faults: Faults, contents: Contents, place: u64) -> bool
    decreases faults,
{
    match faults {
        Faults::One(fault, _) => crate::expr::value_of(fault, contents, place) != Some(0u64),
        Faults::More(fault, _, rest) => crate::expr::value_of(fault, contents, place) != Some(0u64)
            || shows(*rest, contents, place),
    }
}

/// Nothing is found at a place exactly when none of the faults shows there.
pub proof fn law_place_is_clean_exactly_when_no_fault_shows(
    faults: Faults,
    contents: Contents,
    place: u64,
)
    ensures
        crate::machine::found_at(faults, contents, place) is Clean <==> !shows(
            faults,
            contents,
            place,
        ),
    decreases faults,
{
    match faults {
        Faults::One(_, _) => {},
        Faults::More(_, _, rest) => {
            law_place_is_clean_exactly_when_no_fault_shows(*rest, contents, place);
        },
    }
}

/// Whether a place is one of `low`, `low + by`, `low + 2 * by` and so on.
pub open spec fn visited(low: int, by: int, place: int) -> bool {
    low <= place && (place - low) % by == 0
}

/// The places visited from one place on, but for that place, are those visited from the next one
/// on.
proof fn lemma_visited_later(low: int, by: int, place: int)
    requires
        by > 0,
    ensures
        visited(low, by, low),
        visited(low, by, place) <==> place == low || visited(low + by, by, place),
{
    vstd::arithmetic::div_mod::lemma_small_mod(0, by as nat);
    vstd::arithmetic::div_mod::lemma_mod_sub_multiples_vanish(place - low, by);
    if low < place < low + by {
        vstd::arithmetic::div_mod::lemma_small_mod((place - low) as nat, by as nat);
    }
}

/// Looking for faults finds nothing exactly when no fault shows at any place looked at.
pub proof fn law_scan_is_clean_exactly_when_no_fault_shows(
    faults: Faults,
    contents: Contents,
    low: int,
    high: int,
    by: int,
)
    requires
        0 <= low,
        high <= u64::MAX,
        by > 0,
    ensures
        crate::machine::found_from(faults, contents, low, high, by) is Clean <==> forall|place: int|
            #![trigger shows(faults, contents, place as u64)]
            visited(low, by, place) && place < high ==> !shows(faults, contents, place as u64),
    decreases
        if low < high {
            high - low
        } else {
            0
        },
{
    if low < high {
        law_place_is_clean_exactly_when_no_fault_shows(faults, contents, low as u64);
        law_scan_is_clean_exactly_when_no_fault_shows(faults, contents, low + by, high, by);
        lemma_visited_later(low, by, low);
        if crate::machine::found_at(faults, contents, low as u64) is Clean {
            if crate::machine::found_from(faults, contents, low + by, high, by) is Clean {
                assert forall|place: int|
                    #![trigger shows(faults, contents, place as u64)]
                    visited(low, by, place) && place < high implies !shows(
                    faults,
                    contents,
                    place as u64,
                ) by {
                    lemma_visited_later(low, by, place);
                }
            } else {
                let place = choose|place: int|
                    #![trigger shows(faults, contents, place as u64)]
                    visited(low + by, by, place) && place < high && shows(
                        faults,
                        contents,
                        place as u64,
                    );
                lemma_visited_later(low, by, place);
            }
        } else {
            assert(shows(faults, contents, low as u64));
        }
    }
}

/// A scan reports the first place at which a fault shows: nothing shows at the places before it.
pub proof fn law_scan_reports_the_first_place(
    faults: Faults,
    contents: Contents,
    low: int,
    high: int,
    by: int,
    place: int,
)
    requires
        0 <= low,
        high <= u64::MAX,
        by > 0,
        visited(low, by, place),
        place < high,
        shows(faults, contents, place as u64),
        forall|earlier: int|
            #![trigger shows(faults, contents, earlier as u64)]
            visited(low, by, earlier) && earlier < place ==> !shows(
                faults,
                contents,
                earlier as u64,
            ),
    ensures
        crate::machine::found_from(faults, contents, low, high, by) == crate::machine::found_at(
            faults,
            contents,
            place as u64,
        ),
    decreases place - low,
{
    law_place_is_clean_exactly_when_no_fault_shows(faults, contents, low as u64);
    law_place_is_clean_exactly_when_no_fault_shows(faults, contents, place as u64);
    if low < place {
        lemma_visited_later(low, by, low);
        lemma_visited_later(low, by, place);
        assert(!shows(faults, contents, low as u64));
        assert forall|earlier: int|
            #![trigger shows(faults, contents, earlier as u64)]
            visited(low + by, by, earlier) && earlier < place implies !shows(
            faults,
            contents,
            earlier as u64,
        ) by {
            lemma_visited_later(low, by, earlier);
        }
        law_scan_reports_the_first_place(faults, contents, low + by, high, by, place);
    }
}

} // verus!
