//! Laws of the test of edge sizes and of the check of the compute capability.

use vstd::prelude::*;
use crate::expr::{differs, here, ix, lt, num, over, plus, reg, times};
use crate::machine::{Answer, Ending, Progress};
use crate::memory::Contents;
use crate::message::note0;
use crate::script::{sync, Faults, COUNT};

verus! {

/// Whether every word of a column is twice its place.
pub open spec fn counts_by_two(words: Seq<u64>) -> bool {
    forall|i: int| 0 <= i < words.len() ==> #[trigger] words[i] == 2 * i
}

/// Whether the device keeps every other one of `n` rows: it does what it is asked, counts half of
/// them, rounded up, and hands out the even numbers.
pub open spec fn keeps_half(n: u64, answers: Seq<Answer>, used: int) -> bool {
    &&& !(answers[used] is Failed)
    &&& !(answers[used + 1] is Failed)
    &&& answers[used + 2] == Answer::Count(((n + 1) / 2) as u64)
    &&& answers[used + 3] matches Answer::Words(words)
    &&& counts_by_two(words)
}

/// How many answers the first `count` sizes take: none for an empty column, five for another one.
pub open spec fn answers_before(sizes: Seq<u64>, count: int) -> int
    decreases count,
{
    if count <= 0 {
        0
    } else {
        answers_before(sizes, count - 1) + if sizes[count - 1] == 0 {
            0int
        } else {
            5
        }
    }
}

/// Later sizes start at later answers.
proof fn lemma_answers_before(sizes: Seq<u64>, early: int, late: int)
    requires
        0 <= early <= late,
    ensures
        0 <= answers_before(sizes, early) <= answers_before(sizes, late),
    decreases late,
{
    if early < late {
        lemma_answers_before(sizes, early, late - 1);
    } else if early > 0 {
        lemma_answers_before(sizes, early - 1, late - 1);
    }
}

/// Looking for words that are not twice their place.
#[verifier::spinoff_prover]
#[verifier::rlimit(50)]
proof fn lemma_even_faults(faults: Faults, contents: Contents)
    requires
        contents.full(),
        faults matches Faults::One(fault, _) && fault == differs(here(2), times(ix(), num(2))),
        contents.columns[2].len() <= u32::MAX,
    ensures
        forall|i: int|
            0 <= i < contents.columns[2].len() ==> (#[trigger] crate::walk::shows(
                faults,
                contents,
                i as u64,
            ) <==> contents.columns[2][i] != 2 * i),
{
    reveal_with_fuel(crate::expr::value_of, 5);
}

/// The expected number of rows.
proof fn lemma_half(n: u64, contents: Contents)
    requires
        n <= u32::MAX,
    ensures
        crate::expr::value_of(over(plus(num(n), num(1)), num(2)), contents, 0) == Some(
            ((n + 1) / 2) as u64,
        ),
{
    reveal_with_fuel(crate::expr::value_of, 4);
}

/// Whether an answer is that to the download of a column that fits 32-bit places.
pub open spec fn short_or_refusal(answer: Answer) -> bool {
    match answer {
        Answer::Words(words) => words.len() <= u32::MAX,
        Answer::Failed(_) => true,
        _ => false,
    }
}

/// The filter of one size goes through exactly when every other row is kept.
pub proof fn law_edge_size_goes_through_exactly_when_half_is_kept(
    n: u64,
    contents: Contents,
    answers: Seq<Answer>,
    used: int,
)
    requires
        0 < n <= u32::MAX,
        contents.full(),
        0 <= used,
        used + 5 <= answers.len(),
        short_or_refusal(answers[used + 3]),
    ensures
        keeps_half(n, answers, used) ==> crate::walk::goes_through(
            crate::categories::c03_pointer_bounds::edge_case_sizes_round(n),
            contents,
            answers,
            used,
            5,
        ),
        !keeps_half(n, answers, used) ==> crate::walk::walked(
            crate::categories::c03_pointer_bounds::edge_case_sizes_round(n),
            0,
            8,
            contents,
            answers,
            used,
        ) is None,
        crate::categories::c03_pointer_bounds::edge_case_sizes_round(n).len() == 8,
{
    let steps = crate::categories::c03_pointer_bounds::edge_case_sizes_round(n);
    let rows = crate::laws::words::below(n);
    let mask = crate::laws::masks::every(2, n as nat);
    let half = ((n + 1) / 2) as u64;
    crate::laws::words::lemma_below(n, contents);
    crate::laws::steps::lemma_fill(steps, 0, 8, contents, answers, used, rows);
    let first = contents.with_column(0, rows);
    crate::laws::steps::lemma_command(steps, 1, 8, first, answers, used);
    crate::laws::masks::lemma_remainder_words(2, n, first);
    crate::laws::steps::lemma_fill(steps, 2, 8, first, answers, used + 1, mask);
    let second = first.with_column(1, mask);
    crate::laws::steps::lemma_command(steps, 3, 8, second, answers, used + 1);
    lemma_half(n, second);
    crate::laws::steps::lemma_match(steps, 4, 8, second, answers, used + 2, half);
    let third = second.with_register(COUNT, half);
    crate::laws::steps::lemma_download(steps, 5, 8, third, answers, used + 3);
    if answers[used + 3] is Words {
        let words = answers[used + 3]->Words_0;
        let fourth = third.with_column(2, words);
        let faults = steps[6]->Do_0->Scan_faults;
        crate::laws::steps::lemma_scan(
            steps,
            6,
            8,
            fourth,
            answers,
            used + 4,
            0,
            words.len() as u64,
        );
        lemma_even_faults(faults, fourth);
        if !counts_by_two(words) {
            let i = choose|i: int| 0 <= i < words.len() && #[trigger] words[i] != 2 * i;
            assert(crate::walk::shows(faults, fourth, i as u64));
        }
        crate::laws::steps::lemma_command(steps, 7, 8, fourth, answers, used + 4);
        crate::laws::steps::lemma_end(steps, 8, fourth, answers, used + 5);
    }
}

/// The test of edge sizes, for whatever sizes, passes exactly when the device keeps every other
/// row of each size that is not zero, and reports no fault in the end.
pub proof fn law_edge_sizes_pass_exactly_when_half_is_kept(sizes: Seq<u64>, answers: Seq<Answer>)
    requires
        forall|k: int| 0 <= k < sizes.len() ==> #[trigger] sizes[k] <= u32::MAX,
        answers.len() > answers_before(sizes, sizes.len() as int),
        forall|k: int|
            0 <= k < sizes.len() && sizes[k] != 0 ==> short_or_refusal(
                answers[#[trigger] answers_before(sizes, k) + 3],
            ),
    ensures
        crate::machine::run_of(
            crate::script::plan(
                "test_edge_case_sizes",
                crate::categories::c03_pointer_bounds::edge_case_sizes_steps(sizes),
            ),
            answers,
        ).progress == Progress::Over(Ending::Passed) <==> {
            &&& forall|k: int|
                0 <= k < sizes.len() && sizes[k] != 0 ==> keeps_half(
                    sizes[k],
                    answers,
                    #[trigger] answers_before(sizes, k),
                )
            &&& !(answers[answers_before(sizes, sizes.len() as int)] is Failed)
        },
{
    let count = sizes.len() as int;
    let steps = crate::categories::c03_pointer_bounds::edge_case_sizes_steps(sizes);
    let plan = crate::script::plan("test_edge_case_sizes", steps);
    let blank = Contents::blank(plan.texts);
    let round = |i: int| crate::categories::c03_pointer_bounds::edge_case_sizes_round(sizes[i]);
    let start = |k: int| answers_before(sizes, k);
    let good = |k: int| sizes[k] == 0 || keeps_half(sizes[k], answers, answers_before(sizes, k));
    let kept = |contents: Contents| contents.full();
    assert forall|k: int, contents: Contents|
        #![trigger good(k), kept(contents)]
        0 <= k < count && kept(contents) implies if good(k) {
        crate::walk::goes_to(round(k), contents, answers, start(k), start(k + 1), kept)
    } else {
        crate::walk::walked(round(k), 0, round(k).len() as int, contents, answers, start(k)) is None
    } by {
        lemma_answers_before(sizes, 0, k);
        lemma_answers_before(sizes, k + 1, count);
        assert(sizes[k] <= u32::MAX);
        if sizes[k] == 0 {
            crate::laws::steps::lemma_end(round(k), 0, contents, answers, start(k));
        } else {
            assert(short_or_refusal(answers[answers_before(sizes, k) + 3]));
            law_edge_size_goes_through_exactly_when_half_is_kept(
                sizes[k],
                contents,
                answers,
                start(k),
            );
        }
    }
    crate::walk::law_rounds_keep_what_each_keeps(
        count,
        round,
        start,
        good,
        kept,
        blank,
        answers,
    );
    let before = crate::script::rounds(count, round);
    let end = seq![sync(note0("Sync failed: {}"))];
    assert(steps == before + end);
    crate::walk::law_walks_over_two_scripts_compose(before, end, blank, answers, 0);
    crate::walk::law_straight_rounds_are_straight(count, round);
    crate::walk::law_straight_scripts_make_a_straight_one(before, end);
    crate::walk::law_passes_exactly_when_every_step_goes_through(plan, answers);
    lemma_answers_before(sizes, 0, count);
    if forall|k: int| 0 <= k < count ==> #[trigger] good(k) {
        let (after, next) = crate::walk::walked(
            before,
            0,
            before.len() as int,
            blank,
            answers,
            0,
        )->0;
        crate::laws::steps::lemma_command(end, 0, 1, after, answers, next);
        crate::laws::steps::lemma_end(end, 1, after, answers, next + 1);
        assert forall|k: int| 0 <= k < count && sizes[k] != 0 implies keeps_half(
            sizes[k],
            answers,
            #[trigger] answers_before(sizes, k),
        ) by {
            assert(good(k));
        }
    } else {
        let k = choose|k: int| 0 <= k < count && !(#[trigger] good(k));
        assert(!keeps_half(sizes[k], answers, answers_before(sizes, k)));
    }
}

/// The compute capability is accepted exactly when its major number is at least seven and the
/// device reports no fault.
pub proof fn law_capability_passes_exactly_from_seven_on(
    answers: Seq<Answer>,
    major: u64,
    minor: u64,
)
    requires
        answers.len() >= 2,
        answers[0] == Answer::Pair(major, minor),
    ensures
        crate::machine::run_of(
            crate::script::plan(
                "test_compute_capability_check",
                crate::categories::c01_toolchain::compute_capability_check_steps(),
            ),
            answers,
        ).progress == Progress::Over(Ending::Passed) <==> major >= 7 && !(answers[1] is Failed),
{
    let steps = crate::categories::c01_toolchain::compute_capability_check_steps();
    let plan = crate::script::plan("test_compute_capability_check", steps);
    let blank = Contents::blank(plan.texts);
    crate::walk::law_passes_exactly_when_every_step_goes_through(plan, answers);
    let first = blank.with_register(0, major).with_register(1, minor);
    assert(crate::walk::walked(steps, 0, 3, blank, answers, 0) == crate::walk::walked(
        steps,
        1,
        3,
        first,
        answers,
        1,
    )) by {
        reveal_with_fuel(crate::walk::walked, 2);
        reveal(crate::machine::effect_of);
        reveal(crate::machine::stored);
    }
    assert(crate::expr::value_of(lt(reg(0), num(7)), first, 0) == Some(
        crate::expr::truth(major < 7),
    )) by {
        reveal_with_fuel(crate::expr::value_of, 3);
    }
    crate::laws::steps::lemma_check(steps, 1, 3, first, answers, 1, major < 7);
    crate::laws::steps::lemma_command(steps, 2, 3, first, answers, 1);
    crate::laws::steps::lemma_end(steps, 3, first, answers, 2);
}

} // verus!
