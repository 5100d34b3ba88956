//! Laws of the tests that sort columns.

use vstd::prelude::*;
use crate::categories::c02_launch_config::{BLOCK_SIZES, PRIME_SIZES, WARP_SIZES};
use crate::expr::{differs, here, ix, len, minus, num};
use crate::machine::{Answer, Ending, Progress};
use crate::memory::Contents;
use crate::scalar::Scalar;
use crate::script::{fill, release, scan, Act, Faults, Otherwise, Plan, Request, Step, COUNT};

verus! {

/// Whether the device sorts a falling column of `n` rows: it does what it is asked, counts `n`
/// rows, and hands out the numbers from zero on.
pub open spec fn sorts(n: u64, answers: Seq<Answer>, used: int) -> bool {
    &&& !(answers[used] is Failed)
    &&& !(answers[used + 1] is Failed)
    &&& answers[used + 2] == Answer::Count(n)
    &&& answers[used + 3] matches Answer::Words(words)
    &&& crate::laws::steps::counts_up(words)
}

/// The steps that sort a falling column.
proof fn lemma_falling_column(
    steps: Seq<Step>,
    faults: Faults,
    n: u64,
    contents: Contents,
    answers: Seq<Answer>,
    used: int,
)
    requires
        steps.len() == 7,
        steps[0] == fill(0, num(n), minus(minus(num(n), num(1)), ix())),
        steps[1] matches Step::Do(Act::Ask(Request::Create { .. }, Otherwise::Fail(_))),
        steps[2] matches Step::Do(Act::Ask(Request::Sort { .. }, Otherwise::Fail(_))),
        steps[3] matches Step::Do(Act::Match { expected, .. }) && expected == num(n),
        steps[4] matches Step::Do(Act::Ask(Request::Download { into, .. }, Otherwise::Fail(_)))
            && into == 1,
        steps[5] == scan(num(0), len(1), 1, faults),
        faults matches Faults::One(fault, _) && fault == differs(here(1), ix()),
        steps[6] == release(0),
        contents.full(),
        0 <= used,
        used + 5 <= answers.len(),
        crate::laws::steps::column_or_refusal(answers[used + 3]),
    ensures
        sorts(n, answers, used) ==> crate::walk::goes_through(steps, contents, answers, used, 5),
        !sorts(n, answers, used) ==> crate::walk::walked(steps, 0, 7, contents, answers, used)
            is None,
{
    let falling = crate::laws::words::falling(n);
    let first = contents.with_column(0, falling);
    crate::laws::words::lemma_falling(n, contents);
    crate::laws::steps::lemma_fill(steps, 0, 7, contents, answers, used, falling);
    crate::laws::steps::lemma_command(steps, 1, 7, first, answers, used);
    crate::laws::steps::lemma_command(steps, 2, 7, first, answers, used + 1);
    crate::laws::steps::lemma_match(steps, 3, 7, first, answers, used + 2, n);
    let second = first.with_register(COUNT, n);
    crate::laws::steps::lemma_download(steps, 4, 7, second, answers, used + 3);
    if answers[used + 3] is Words {
        let words = answers[used + 3]->Words_0;
        let third = second.with_column(1, words);
        crate::laws::steps::lemma_scan_places(steps, 5, 7, third, answers, used + 4, 1);
        crate::laws::steps::lemma_command(steps, 6, 7, third, answers, used + 4);
        crate::laws::steps::lemma_end(steps, 7, third, answers, used + 5);
    }
}

/// The sort of a falling column goes through exactly when the device sorts it.
pub proof fn law_falling_column_goes_through_exactly_when_sorted(
    n: u64,
    contents: Contents,
    answers: Seq<Answer>,
    used: int,
)
    requires
        contents.full(),
        0 <= used,
        used + 5 <= answers.len(),
        crate::laws::steps::column_or_refusal(answers[used + 3]),
    ensures
        sorts(n, answers, used) ==> crate::walk::goes_through(
            crate::categories::c02_launch_config::sorted_size_steps(n),
            contents,
            answers,
            used,
            5,
        ),
        !sorts(n, answers, used) ==> crate::walk::walked(
            crate::categories::c02_launch_config::sorted_size_steps(n),
            0,
            7,
            contents,
            answers,
            used,
        ) is None,
{
    let steps = crate::categories::c02_launch_config::sorted_size_steps(n);
    let faults = steps[5]->Do_0->Scan_faults;
    lemma_falling_column(steps, faults, n, contents, answers, used);
}

/// A test that sorts falling columns of twelve sizes and then waits for the device.
proof fn lemma_sizes(
    plan: Plan,
    sizes: Seq<u64>,
    round: spec_fn(int) -> Seq<Step>,
    end: Seq<Step>,
    answers: Seq<Answer>,
)
    requires
        plan.steps == crate::script::rounds(12, round) + end,
        forall|k: int|
            0 <= k < 12 ==> #[trigger] round(k)
                == crate::categories::c02_launch_config::sorted_size_steps(sizes[k]),
        end.len() == 1,
        end[0] matches Step::Do(Act::Ask(Request::Sync, Otherwise::Fail(_))),
        answers.len() > 60,
        forall|k: int| 0 <= k < 12 ==> #[trigger] crate::laws::steps::column_or_refusal(
            answers[5 * k + 3],
        ),
    ensures
        crate::machine::run_of(plan, answers).progress == Progress::Over(Ending::Passed) <==> {
            &&& forall|k: int| 0 <= k < 12 ==> #[trigger] sorts(sizes[k], answers, 5 * k)
            &&& !(answers[60] is Failed)
        },
{
    let good = |k: int| sorts(sizes[k], answers, 5 * k);
    assert forall|k: int, contents: Contents|
        #![trigger good(k), contents.full()]
        0 <= k < 12 && contents.full() implies if good(k) {
        crate::walk::goes_through(round(k), contents, answers, 5 * k, 5)
    } else {
        crate::walk::walked(round(k), 0, round(k).len() as int, contents, answers, 5 * k)
            is None
    } by {
        assert(crate::laws::steps::column_or_refusal(answers[5 * k + 3]));
        law_falling_column_goes_through_exactly_when_sorted(sizes[k], contents, answers, 5 * k);
    }
    crate::laws::steps::lemma_rounds_and_sync(plan, 12, round, 5, good, end, answers);
    if forall|k: int| 0 <= k < 12 ==> #[trigger] good(k) {
        assert forall|k: int| 0 <= k < 12 implies #[trigger] sorts(sizes[k], answers, 5 * k) by {
            assert(good(k));
        }
    } else {
        let k = choose|k: int| 0 <= k < 12 && !(#[trigger] good(k));
        assert(!sorts(sizes[k], answers, 5 * k));
    }
}

/// The test of sizes around warps passes exactly when the device sorts a column of each of these
/// sizes and reports no fault in the end.
pub proof fn law_warp_boundary_sizes_pass_exactly_when_sorted(answers: Seq<Answer>)
    requires
        answers.len() > 60,
        forall|k: int| 0 <= k < 12 ==> #[trigger] crate::laws::steps::column_or_refusal(
            answers[5 * k + 3],
        ),
    ensures
        crate::machine::run_of(
            crate::script::plan(
                "warp_boundary_sizes",
                crate::categories::c02_launch_config::warp_boundary_sizes_steps(),
            ),
            answers,
        ).progress == Progress::Over(Ending::Passed) <==> {
            &&& forall|k: int|
                0 <= k < 12 ==> #[trigger] sorts(WARP_SIZES@[k], answers, 5 * k)
            &&& !(answers[60] is Failed)
        },
{
    let round = |i: int| crate::categories::c02_launch_config::sorted_size_steps(WARP_SIZES@[i]);
    lemma_sizes(
        crate::script::plan(
            "warp_boundary_sizes",
            crate::categories::c02_launch_config::warp_boundary_sizes_steps(),
        ),
        WARP_SIZES@,
        round,
        crate::categories::c02_launch_config::warp_boundary_sizes_end_steps(),
        answers,
    );
}

/// The test of sizes around blocks passes exactly when the device sorts a column of each of these
/// sizes and reports no fault in the end.
pub proof fn law_block_boundary_sizes_pass_exactly_when_sorted(answers: Seq<Answer>)
    requires
        answers.len() > 60,
        forall|k: int| 0 <= k < 12 ==> #[trigger] crate::laws::steps::column_or_refusal(
            answers[5 * k + 3],
        ),
    ensures
        crate::machine::run_of(
            crate::script::plan(
                "block_boundary_sizes",
                crate::categories::c02_launch_config::block_boundary_sizes_steps(),
            ),
            answers,
        ).progress == Progress::Over(Ending::Passed) <==> {
            &&& forall|k: int|
                0 <= k < 12 ==> #[trigger] sorts(BLOCK_SIZES@[k], answers, 5 * k)
            &&& !(answers[60] is Failed)
        },
{
    let round = |i: int| crate::categories::c02_launch_config::sorted_size_steps(BLOCK_SIZES@[i]);
    lemma_sizes(
        crate::script::plan(
            "block_boundary_sizes",
            crate::categories::c02_launch_config::block_boundary_sizes_steps(),
        ),
        BLOCK_SIZES@,
        round,
        crate::categories::c02_launch_config::block_boundary_sizes_end_steps(),
        answers,
    );
}

/// The test of sizes that are no powers of two passes exactly when the device sorts a column of
/// each of these sizes and reports no fault in the end.
pub proof fn law_odd_sizes_pass_exactly_when_sorted(answers: Seq<Answer>)
    requires
        answers.len() > 60,
        forall|k: int| 0 <= k < 12 ==> #[trigger] crate::laws::steps::column_or_refusal(
            answers[5 * k + 3],
        ),
    ensures
        crate::machine::run_of(
            crate::script::plan(
                "non_power_of_two_sizes",
                crate::categories::c02_launch_config::non_power_of_two_sizes_steps(),
            ),
            answers,
        ).progress == Progress::Over(Ending::Passed) <==> {
            &&& forall|k: int|
                0 <= k < 12 ==> #[trigger] sorts(PRIME_SIZES@[k], answers, 5 * k)
            &&& !(answers[60] is Failed)
        },
{
    let round = |i: int| crate::categories::c02_launch_config::sorted_size_steps(PRIME_SIZES@[i]);
    lemma_sizes(
        crate::script::plan(
            "non_power_of_two_sizes",
            crate::categories::c02_launch_config::non_power_of_two_sizes_steps(),
        ),
        PRIME_SIZES@,
        round,
        crate::categories::c02_launch_config::non_power_of_two_sizes_end_steps(),
        answers,
    );
}

/// A device that hands out the sorted copy of the falling column that it was given sorts it in
/// the sense of the tests.
pub proof fn law_sorted_falling_column_counts_up(n: u64, answers: Seq<Answer>, used: int)
    requires
        answers[used] is Done,
        answers[used + 1] is Done,
        answers[used + 2] == Answer::Count(n),
        answers[used + 3] == Answer::Words(
            crate::columns::sorted(Scalar::U32, crate::laws::words::falling(n)),
        ),
    ensures
        sorts(n, answers, used),
{
    let falling = crate::laws::words::falling(n);
    assert(falling.no_duplicates());
    crate::columns::law_distinct_small_words_sort_to_their_places(falling);
}

/// The keys of the test that sorts in many passes.
pub open spec fn scrambled_keys() -> Seq<u64> {
    Seq::new(1000000, |i: int| ((i * 1103515247 + 12345) % 1000000) as u64)
}

/// Two different places below a million have different keys.
proof fn lemma_scrambled_keys_differ(i: int, j: int)
    requires
        0 <= i < 1000000,
        0 <= j < 1000000,
        (i * 1103515247 + 12345) % 1000000 == (j * 1103515247 + 12345) % 1000000,
    ensures
        i == j,
{
    let x = i * 1103515247 + 12345;
    let y = j * 1103515247 + 12345;
    let quotients = x / 1000000 - y / 1000000;
    let gap = i - j;
    assert(gap * 1103515247 == 1000000 * quotients);
    let factor = quotients * 213583 - gap * 235692097;
    assert(gap == 1000000 * factor);
    assert(factor == 0);
}

/// The keys of the test that sorts in many passes are the numbers below a million in another
/// order, so that a device that sorts them hands out these numbers from zero on.
pub proof fn law_scrambled_keys_sort_to_their_places()
    ensures
        scrambled_keys().no_duplicates(),
        crate::columns::sorted(Scalar::U32, scrambled_keys()) == Seq::new(
            1000000,
            |i: int| i as u64,
        ),
{
    let keys = scrambled_keys();
    assert forall|i: int, j: int|
        0 <= i < keys.len() && 0 <= j < keys.len() && i != j implies keys[i] != keys[j] by {
        if keys[i] == keys[j] {
            lemma_scrambled_keys_differ(i, j);
        }
    }
    crate::columns::law_distinct_small_words_sort_to_their_places(keys);
}

} // verus!
