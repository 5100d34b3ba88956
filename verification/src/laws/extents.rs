//! The laws of the tests of tiny and of large columns, and of those around a block.

use vstd::prelude::*;
use crate::categories::c05_global_memory::ALIGNED_SIZES;
use crate::categories::c07_local_memory::WORKLOADS;
use crate::categories::c10_block_grid::{EDGE_SIZES, SINGLE_SIZES};
use crate::expr::{here, ix, minus, modulo, num, or, over, plus, reg, same_as, times};
use crate::machine::{Answer, Ending, Progress};
use crate::memory::Contents;
use crate::script::COUNT;

verus! {

/// Whether a column holds a certain word at a place.
pub open spec fn word_is(words: Seq<u64>, place: int, word: int) -> bool {
    place < words.len() && words[place] == word
}

/// A thousand times a number.
proof fn lemma_thousandfold(contents: Contents, number: u64)
    requires
        number < 1000000,
    ensures
        crate::expr::value_of(times(num(number), num(1000)), contents, 0) == Some(
            (number * 1000) as u64,
        ),
{
    reveal_with_fuel(crate::expr::value_of, 2);
}

/// One less than a number.
proof fn lemma_one_less(contents: Contents, number: u64)
    requires
        number > 0,
    ensures
        crate::expr::value_of(minus(num(number), num(1)), contents, 0) == Some(
            (number - 1) as u64,
        ),
{
    reveal_with_fuel(crate::expr::value_of, 2);
}

/// The sizes are those of columns.
proof fn lemma_workloads(k: int)
    requires
        0 <= k < 8,
    ensures
        0 < WORKLOADS@[k] < 10000000,
{
}

/// The sizes are those of columns.
proof fn lemma_single_sizes(k: int)
    requires
        0 <= k < 7,
    ensures
        0 < SINGLE_SIZES@[k] < 1000000,
{
}

/// The sizes are those of columns.
proof fn lemma_edge_sizes(k: int)
    requires
        0 <= k < 6,
    ensures
        0 < EDGE_SIZES@[k] < 1000000,
{
}

/// The mask that marks the first and the last row of every block of 256.
pub open spec fn block_edges(n: u64) -> Seq<u64> {
    Seq::new(n as nat, |i: int| crate::expr::truth(i % 256 == 0 || i % 256 == 255))
}

/// One of the words of [`block_edges`].
#[verifier::spinoff_prover]
#[verifier::rlimit(50)]
proof fn lemma_block_edge(n: u64, contents: Contents, i: u64)
    requires
        i < n,
    ensures
        crate::expr::value_of(
            or(
                same_as(modulo(ix(), num(256)), num(0)),
                same_as(modulo(ix(), num(256)), num(255)),
            ),
            contents,
            i,
        ) == Some(block_edges(n)[i as int]),
{
    reveal_with_fuel(crate::expr::value_of, 5);
}

/// The words of [`block_edges`].
proof fn lemma_block_edges(n: u64, contents: Contents)
    ensures
        forall|i: int|
            0 <= i < n ==> #[trigger] crate::expr::value_of(
                or(
                    same_as(modulo(ix(), num(256)), num(0)),
                    same_as(modulo(ix(), num(256)), num(255)),
                ),
                contents,
                i as u64,
            ) == Some(block_edges(n)[i]),
{
    assert forall|i: int| 0 <= i < n implies #[trigger] crate::expr::value_of(
        or(same_as(modulo(ix(), num(256)), num(0)), same_as(modulo(ix(), num(256)), num(255))),
        contents,
        i as u64,
    ) == Some(block_edges(n)[i]) by {
        lemma_block_edge(n, contents, i as u64);
    }
}

/// Whether a mask marks a place.
proof fn lemma_mark(contents: Contents, slot: u64, i: u64)
    requires
        slot < contents.columns.len(),
        i < contents.columns[slot as int].len(),
    ensures
        crate::expr::value_of(same_as(here(slot), num(1)), contents, i) == Some(
            crate::expr::truth(contents.columns[slot as int][i as int] == 1),
        ),
        crate::expr::value_of(here(slot), contents, i) == Some(
            contents.columns[slot as int][i as int],
        ),
{
    reveal_with_fuel(crate::expr::value_of, 4);
}

/// Keeping the words of one column at the places that another one marks.
pub proof fn lemma_marked_words(contents: Contents, slot: u64, mask: u64, n: nat)
    requires
        slot < contents.columns.len(),
        mask < contents.columns.len(),
        n == contents.columns[slot as int].len(),
        n == contents.columns[mask as int].len(),
        n <= u64::MAX,
        forall|i: int| 0 <= i < n ==> contents.columns[mask as int][i] <= 1,
    ensures
        crate::machine::selected(same_as(here(mask), num(1)), here(slot), contents, n) == Some(
            crate::laws::predicates::picked(
                contents.columns[slot as int],
                contents.columns[mask as int],
                n,
            ),
        ),
{
    let keep = same_as(here(mask), num(1));
    let marks = contents.columns[mask as int];
    let words = contents.columns[slot as int];
    assert forall|i: int| 0 <= i < n implies #[trigger] crate::expr::value_of(
        keep,
        contents,
        i as u64,
    ) == Some(marks[i]) by {
        lemma_mark(contents, mask, i as u64);
        assert(marks[i] <= 1);
    }
    assert forall|i: int| 0 <= i < n implies #[trigger] crate::expr::value_of(
        here(slot),
        contents,
        i as u64,
    ) == Some(words[i]) by {
        lemma_mark(contents, slot, i as u64);
    }
    crate::laws::predicates::lemma_picked(keep, here(slot), contents, words, marks, n);
}

/// Whether the answers to the downloads of the test are columns or refusals.
pub open spec fn nothing_shaped(answers: Seq<Answer>) -> bool {
    answers.len() >= 9
}

/// What the device has to answer.
pub open spec fn nothing_answers(answers: Seq<Answer>) -> bool {
    &&& !(answers[0] is Failed)
    &&& answers[1] == Answer::Count(0)
    &&& !(answers[2] is Failed)
    &&& answers[3] == Answer::Count(0)
    &&& !(answers[5] is Failed)
    &&& answers[6] == Answer::Count(0)
    &&& !(answers[8] is Failed)
}

/// The steps of the test.
proof fn lemma_nothing_answers(contents: Contents, answers: Seq<Answer>)
    requires
        contents.full(),
        nothing_shaped(answers),
    ensures
        match crate::walk::walked(
            crate::categories::c02_launch_config::zero_elements_no_launch_steps(),
            0,
            10,
            contents,
            answers,
            0,
        ) {
            Some((after, next)) => {
                &&& nothing_answers(answers)
                &&& after.full()
                &&& next == 9
            },
            None => !nothing_answers(answers),
        },
        crate::categories::c02_launch_config::zero_elements_no_launch_steps().len() == 10,
{
    let steps = crate::categories::c02_launch_config::zero_elements_no_launch_steps();
    crate::laws::steps::lemma_command(steps, 0, 10, contents, answers, 0);
    crate::laws::steps::lemma_match(steps, 1, 10, contents, answers, 1, 0);
    let next1 = contents.with_register(COUNT, 0);
    crate::laws::steps::lemma_command(steps, 2, 10, next1, answers, 2);
    crate::laws::steps::lemma_match(steps, 3, 10, next1, answers, 3, 0);
    let next2 = next1.with_register(COUNT, 0);
    crate::laws::steps::lemma_command(steps, 4, 10, next2, answers, 4);
    let words3 = crate::laws::words::constant(1, 0);
    crate::laws::steps::lemma_fill(steps, 5, 10, next2, answers, 5, words3);
    let next3 = next2.with_column(0, words3);
    crate::laws::steps::lemma_command(steps, 6, 10, next3, answers, 5);
    crate::laws::steps::lemma_match(steps, 7, 10, next3, answers, 6, 0);
    let next4 = next3.with_register(COUNT, 0);
    crate::laws::steps::lemma_command(steps, 8, 10, next4, answers, 7);
    crate::laws::steps::lemma_command(steps, 9, 10, next4, answers, 8);
    crate::laws::steps::lemma_end(steps, 10, next4, answers, 9);
}

/// The test has no jumps.
proof fn lemma_nothing_straight()
    ensures
        forall|j: int|
            0 <= j < crate::categories::c02_launch_config::zero_elements_no_launch_steps().len()
                ==> crate::walk::straight(
                #[trigger] crate::categories::c02_launch_config::zero_elements_no_launch_steps()[j],
            ),
{
}

/// The test of an empty column passes exactly when the device counts no rows in it, none after a
/// sort and none after a filter.
pub proof fn law_nothing_passes_exactly_when_nothing_is_left(answers: Seq<Answer>)
    requires
        nothing_shaped(answers),
    ensures
        crate::machine::run_of(
            crate::script::plan(
                "zero_elements_no_launch",
                crate::categories::c02_launch_config::zero_elements_no_launch_steps(),
            ),
            answers,
        ).progress == Progress::Over(Ending::Passed) <==> nothing_answers(answers),
{
    let plan = crate::script::plan(
        "zero_elements_no_launch",
        crate::categories::c02_launch_config::zero_elements_no_launch_steps(),
    );
    let blank = Contents::blank(plan.texts);
    lemma_nothing_answers(blank, answers);
    lemma_nothing_straight();
    crate::walk::law_passes_exactly_when_every_step_goes_through(plan, answers);
}

/// Whether the answers to the downloads of the test are columns or refusals.
pub open spec fn lone_shaped(answers: Seq<Answer>) -> bool {
    &&& answers.len() >= 11
    &&& crate::laws::steps::column_or_refusal(answers[4])
    &&& crate::laws::steps::column_or_refusal(answers[7])
}

/// What the device has to answer.
pub open spec fn lone_answers(answers: Seq<Answer>) -> bool {
    &&& !(answers[0] is Failed)
    &&& answers[1] == Answer::Count(1)
    &&& !(answers[2] is Failed)
    &&& answers[3] == Answer::Count(1)
    &&& answers[4] is Words
    &&& answers[4]->Words_0 == seq![42u64]
    &&& !(answers[5] is Failed)
    &&& answers[6] == Answer::Count(1)
    &&& answers[7] is Words
    &&& answers[7]->Words_0 == seq![42u64]
    &&& !(answers[8] is Failed)
    &&& answers[9] == Answer::Count(0)
    &&& !(answers[10] is Failed)
}

/// The steps of the test.
proof fn lemma_lone_answers(contents: Contents, answers: Seq<Answer>)
    requires
        contents.full(),
        lone_shaped(answers),
    ensures
        match crate::walk::walked(
            crate::categories::c02_launch_config::single_element_steps(),
            0,
            16,
            contents,
            answers,
            0,
        ) {
            Some((after, next)) => {
                &&& lone_answers(answers)
                &&& after.full()
                &&& next == 11
            },
            None => !lone_answers(answers),
        },
        crate::categories::c02_launch_config::single_element_steps().len() == 16,
{
    let steps = crate::categories::c02_launch_config::single_element_steps();
    crate::laws::words::lemma_constant(42, 1, contents);
    let words1 = crate::laws::words::constant(42, 1);
    crate::laws::steps::lemma_fill(steps, 0, 16, contents, answers, 0, words1);
    let next1 = contents.with_column(0, words1);
    crate::laws::steps::lemma_command(steps, 1, 16, next1, answers, 0);
    crate::laws::steps::lemma_match(steps, 2, 16, next1, answers, 1, 1);
    let next2 = next1.with_register(COUNT, 1);
    crate::laws::steps::lemma_command(steps, 3, 16, next2, answers, 2);
    crate::laws::steps::lemma_match(steps, 4, 16, next2, answers, 3, 1);
    let next3 = next2.with_register(COUNT, 1);
    crate::laws::steps::lemma_download(steps, 5, 16, next3, answers, 4);
    if answers[4] is Words {
        let next4 = next3.with_column(1, answers[4]->Words_0);
        crate::laws::sizes::lemma_lone(next4, 1, 42);
        crate::laws::steps::lemma_check_or_abort(
            steps,
            6,
            16,
            next4,
            answers,
            5,
            answers[4]->Words_0 == seq![42u64],
        );
        crate::laws::words::lemma_constant(1, 1, next4);
        let words5 = crate::laws::words::constant(1, 1);
        crate::laws::steps::lemma_fill(steps, 7, 16, next4, answers, 5, words5);
        let next5 = next4.with_column(2, words5);
        crate::laws::steps::lemma_command(steps, 8, 16, next5, answers, 5);
        crate::laws::steps::lemma_match(steps, 9, 16, next5, answers, 6, 1);
        let next6 = next5.with_register(COUNT, 1);
        crate::laws::steps::lemma_download(steps, 10, 16, next6, answers, 7);
        if answers[7] is Words {
            let next7 = next6.with_column(3, answers[7]->Words_0);
            crate::laws::sizes::lemma_lone(next7, 3, 42);
            crate::laws::steps::lemma_check_or_abort(
                steps,
                11,
                16,
                next7,
                answers,
                8,
                answers[7]->Words_0 == seq![42u64],
            );
            crate::laws::words::lemma_constant(0, 1, next7);
            let words8 = crate::laws::words::constant(0, 1);
            crate::laws::steps::lemma_fill(steps, 12, 16, next7, answers, 8, words8);
            let next8 = next7.with_column(4, words8);
            crate::laws::steps::lemma_command(steps, 13, 16, next8, answers, 8);
            crate::laws::steps::lemma_match(steps, 14, 16, next8, answers, 9, 0);
            let next9 = next8.with_register(COUNT, 0);
            crate::laws::steps::lemma_command(steps, 15, 16, next9, answers, 10);
            crate::laws::steps::lemma_end(steps, 16, next9, answers, 11);
        }
    }
}

/// The test has no jumps.
proof fn lemma_lone_straight()
    ensures
        forall|j: int|
            0 <= j < crate::categories::c02_launch_config::single_element_steps().len()
                ==> crate::walk::straight(
                #[trigger] crate::categories::c02_launch_config::single_element_steps()[j],
            ),
{
}

/// The test of a single word passes exactly when the word comes back after a sort and after a
/// filter that keeps it, and a filter that does not keep it leaves no rows.
pub proof fn law_one_element_passes_exactly_when_it_is_kept(answers: Seq<Answer>)
    requires
        lone_shaped(answers),
    ensures
        crate::machine::run_of(
            crate::script::plan(
                "single_element",
                crate::categories::c02_launch_config::single_element_steps(),
            ),
            answers,
        ).progress == Progress::Over(Ending::Passed) <==> lone_answers(answers),
{
    let plan = crate::script::plan(
        "single_element",
        crate::categories::c02_launch_config::single_element_steps(),
    );
    let blank = Contents::blank(plan.texts);
    lemma_lone_answers(blank, answers);
    lemma_lone_straight();
    crate::walk::law_passes_exactly_when_every_step_goes_through(plan, answers);
}

/// Whether the answers to the downloads of the test are columns or refusals.
pub open spec fn aligned_shaped(answers: Seq<Answer>) -> bool {
    &&& answers.len() >= 33
    &&& forall|k: int|
        0 <= k < 8 ==> crate::laws::steps::column_or_refusal(#[trigger] answers[2 + 4 * k])
}

/// What the device has to answer in round `k` of the part `sizes`, from answer `used` on.
pub open spec fn aligned_sizes(k: int, answers: Seq<Answer>, used: int) -> bool {
    &&& !(answers[used] is Failed)
    &&& !(answers[used + 1] is Failed)
    &&& answers[used + 2] is Words
    &&& answers[used + 2]->Words_0 == crate::laws::words::below(ALIGNED_SIZES@[k])
}

/// What the device has to answer in the part `end`.
pub open spec fn aligned_end(answers: Seq<Answer>) -> bool {
    !(answers[32] is Failed)
}

/// One round of the part `sizes`.
proof fn lemma_aligned_sizes(k: int, contents: Contents, answers: Seq<Answer>, used: int)
    requires
        0 <= k < 8,
        used == 4 * k,
        contents.full(),
        aligned_shaped(answers),
    ensures
        match crate::walk::walked(
            crate::categories::c05_global_memory::aligned_access_patterns_sizes_round(k as u64),
            0,
            6,
            contents,
            answers,
            used,
        ) {
            Some((after, next)) => {
                &&& aligned_sizes(k, answers, used)
                &&& after.full()
                &&& next == 4 * (k + 1)
            },
            None => !aligned_sizes(k, answers, used),
        },
        crate::categories::c05_global_memory::aligned_access_patterns_sizes_round(
            k as u64,
        ).len() == 6,
{
    let steps = crate::categories::c05_global_memory::aligned_access_patterns_sizes_round(k as u64);
    assert(crate::laws::steps::column_or_refusal(answers[2 + 4 * k]));
    crate::laws::words::lemma_below(ALIGNED_SIZES@[k], contents);
    let words1 = crate::laws::words::below(ALIGNED_SIZES@[k]);
    crate::laws::steps::lemma_fill(steps, 0, 6, contents, answers, used, words1);
    let next1 = contents.with_column(0, words1);
    crate::laws::steps::lemma_command(steps, 1, 6, next1, answers, used);
    crate::laws::steps::lemma_command(steps, 2, 6, next1, answers, used + 1);
    crate::laws::steps::lemma_download(steps, 3, 6, next1, answers, used + 2);
    if answers[used + 2] is Words {
        let next2 = next1.with_column(1, answers[used + 2]->Words_0);
        crate::laws::steps::lemma_not_alike(next2, 1, 0);
        crate::laws::steps::lemma_check(
            steps,
            4,
            6,
            next2,
            answers,
            used + 3,
            !(answers[used + 2]->Words_0 == crate::laws::words::below(ALIGNED_SIZES@[k])),
        );
        crate::laws::steps::lemma_command(steps, 5, 6, next2, answers, used + 3);
        crate::laws::steps::lemma_end(steps, 6, next2, answers, used + 4);
    }
}

/// All rounds of the part `sizes`.
proof fn lemma_aligned_sizes_rounds(contents: Contents, answers: Seq<Answer>)
    requires
        contents.full(),
        aligned_shaped(answers),
    ensures
        ({
            let steps = crate::script::rounds(
                8,
                |k: int| crate::categories::c05_global_memory::aligned_access_patterns_sizes_round(
                    k as u64,
                ),
            );
            match crate::walk::walked(steps, 0, steps.len() as int, contents, answers, 0) {
                Some((after, next)) => {
                    &&& forall|k: int|
                        0 <= k < 8 ==> #[trigger] aligned_sizes(k, answers, 4 * k)
                    &&& after.full()
                    &&& next == 32
                },
                None => !(forall|k: int|
                    0 <= k < 8 ==> #[trigger] aligned_sizes(k, answers, 4 * k)),
            }
        }),
{
    let round = |k: int| crate::categories::c05_global_memory::aligned_access_patterns_sizes_round(
        k as u64,
    );
    let start = |k: int| 4 * k;
    let good = |k: int| aligned_sizes(k, answers, start(k));
    let kept = |contents: Contents| contents.full();
    assert forall|k: int, contents: Contents|
        #![trigger good(k), kept(contents)]
        0 <= k < 8 && kept(contents) implies if good(k) {
        crate::walk::goes_to(round(k), contents, answers, start(k), start(k + 1), kept)
    } else {
        crate::walk::walked(round(k), 0, round(k).len() as int, contents, answers, start(k)) is None
    } by {
        lemma_aligned_sizes(k, contents, answers, start(k));
    }
    crate::walk::law_rounds_keep_what_each_keeps(8, round, start, good, kept, contents, answers);
    if forall|k: int| 0 <= k < 8 ==> #[trigger] good(k) {
        assert forall|k: int| 0 <= k < 8 implies #[trigger] aligned_sizes(
            k,
            answers,
            4 * k,
        ) by {
            assert(good(k));
        }
    } else {
        let k = choose|k: int| 0 <= k < 8 && !(#[trigger] good(k));
        assert(!aligned_sizes(k, answers, 4 * k));
    }
}

/// The part `end`.
proof fn lemma_aligned_end(contents: Contents, answers: Seq<Answer>)
    requires
        contents.full(),
        aligned_shaped(answers),
    ensures
        match crate::walk::walked(
            crate::categories::c05_global_memory::aligned_access_patterns_end_steps(),
            0,
            1,
            contents,
            answers,
            32,
        ) {
            Some((after, next)) => {
                &&& aligned_end(answers)
                &&& after.full()
                &&& next == 33
            },
            None => !aligned_end(answers),
        },
        crate::categories::c05_global_memory::aligned_access_patterns_end_steps().len() == 1,
{
    let steps = crate::categories::c05_global_memory::aligned_access_patterns_end_steps();
    crate::laws::steps::lemma_command(steps, 0, 1, contents, answers, 32);
    crate::laws::steps::lemma_end(steps, 1, contents, answers, 33);
}

/// The test has no jumps.
proof fn lemma_aligned_straight()
    ensures
        forall|j: int|
            0 <= j < crate::categories::c05_global_memory::aligned_access_patterns_steps().len()
                ==> crate::walk::straight(
                #[trigger] crate::categories::c05_global_memory::aligned_access_patterns_steps()[j],
            ),
{
    let part1 = crate::script::rounds(
        8,
        |k: int| crate::categories::c05_global_memory::aligned_access_patterns_sizes_round(
            k as u64,
        ),
    );
    let round1 = |k: int| crate::categories::c05_global_memory::aligned_access_patterns_sizes_round(
        k as u64,
    );
    crate::walk::law_straight_rounds_are_straight(8, round1);
    let part2 = crate::categories::c05_global_memory::aligned_access_patterns_end_steps();
    let whole1 = part1;
    let whole2 = whole1 + part2;
    crate::walk::law_straight_scripts_make_a_straight_one(whole1, part2);
    assert(crate::categories::c05_global_memory::aligned_access_patterns_steps() == whole2);
}

/// The test of aligned sizes passes exactly when, for each size, rising numbers come back unchanged
/// from a sort.
pub proof fn law_aligned_sizes_pass_exactly_when_unchanged(answers: Seq<Answer>)
    requires
        aligned_shaped(answers),
    ensures
        crate::machine::run_of(
            crate::script::plan(
                "test_aligned_access_patterns",
                crate::categories::c05_global_memory::aligned_access_patterns_steps(),
            ),
            answers,
        ).progress == Progress::Over(Ending::Passed) <==> {
            &&& forall|k: int|
                0 <= k < 8 ==> #[trigger] aligned_sizes(k, answers, 4 * k)
            &&& aligned_end(answers)
        },
{
    let plan = crate::script::plan(
        "test_aligned_access_patterns",
        crate::categories::c05_global_memory::aligned_access_patterns_steps(),
    );
    let blank = Contents::blank(plan.texts);
    let part1 = crate::script::rounds(
        8,
        |k: int| crate::categories::c05_global_memory::aligned_access_patterns_sizes_round(
            k as u64,
        ),
    );
    let part2 = crate::categories::c05_global_memory::aligned_access_patterns_end_steps();
    let whole1 = part1;
    let whole2 = whole1 + part2;
    assert(plan.steps == whole2);
    lemma_aligned_sizes_rounds(blank, answers);
    crate::walk::law_walks_over_two_scripts_compose(whole1, part2, blank, answers, 0);
    match crate::walk::walked(whole1, 0, whole1.len() as int, blank, answers, 0) {
        Some((after, _)) => {
            lemma_aligned_end(after, answers);
        },
        None => {},
    }
    lemma_aligned_straight();
    crate::walk::law_passes_exactly_when_every_step_goes_through(plan, answers);
}

/// Whether the answers to the downloads of the test are columns or refusals.
pub open spec fn coalesced_shaped(answers: Seq<Answer>) -> bool {
    &&& answers.len() >= 5
    &&& crate::laws::steps::column_or_refusal(answers[2])
    &&& crate::laws::steps::column_or_refusal(answers[3])
}

/// What the device has to answer.
pub open spec fn coalesced_answers(answers: Seq<Answer>) -> bool {
    &&& !(answers[0] is Failed)
    &&& !(answers[1] is Failed)
    &&& answers[2] is Words
    &&& answers[3] is Words
    &&& crate::laws::steps::counts_up(answers[2]->Words_0)
    &&& crate::laws::steps::begins_with(answers[3]->Words_0, crate::laws::words::falling(32768))
    &&& !(answers[4] is Failed)
}

/// The steps of the test.
proof fn lemma_coalesced_answers(contents: Contents, answers: Seq<Answer>)
    requires
        contents.full(),
        coalesced_shaped(answers),
    ensures
        match crate::walk::walked(
            crate::categories::c05_global_memory::coalesced_access_steps(),
            0,
            9,
            contents,
            answers,
            0,
        ) {
            Some((after, next)) => {
                &&& coalesced_answers(answers)
                &&& after.full()
                &&& next == 5
            },
            None => !coalesced_answers(answers),
        },
        crate::categories::c05_global_memory::coalesced_access_steps().len() == 9,
{
    let steps = crate::categories::c05_global_memory::coalesced_access_steps();
    crate::laws::words::lemma_falling(32768, contents);
    let words1 = crate::laws::words::falling(32768);
    crate::laws::steps::lemma_fill(steps, 0, 9, contents, answers, 0, words1);
    let next1 = contents.with_column(0, words1);
    crate::laws::words::lemma_below(32768, next1);
    let words2 = crate::laws::words::below(32768);
    crate::laws::steps::lemma_fill(steps, 1, 9, next1, answers, 0, words2);
    let next2 = next1.with_column(1, words2);
    crate::laws::steps::lemma_command(steps, 2, 9, next2, answers, 0);
    crate::laws::steps::lemma_command(steps, 3, 9, next2, answers, 1);
    crate::laws::steps::lemma_download(steps, 4, 9, next2, answers, 2);
    if answers[2] is Words {
        let next3 = next2.with_column(2, answers[2]->Words_0);
        crate::laws::steps::lemma_download(steps, 5, 9, next3, answers, 3);
        if answers[3] is Words {
            let next4 = next3.with_column(3, answers[3]->Words_0);
            crate::laws::steps::lemma_scan_places(steps, 6, 9, next4, answers, 4, 2);
            crate::laws::words::lemma_falling(32768, next4);
            crate::laws::steps::lemma_scan_expected(
                steps,
                7,
                9,
                next4,
                answers,
                4,
                3,
                minus(minus(num(32768), num(1)), ix()),
                crate::laws::words::falling(32768),
            );
            crate::laws::steps::lemma_command(steps, 8, 9, next4, answers, 4);
            crate::laws::steps::lemma_end(steps, 9, next4, answers, 5);
        }
    }
}

/// The test has no jumps.
proof fn lemma_coalesced_straight()
    ensures
        forall|j: int|
            0 <= j < crate::categories::c05_global_memory::coalesced_access_steps().len()
                ==> crate::walk::straight(
                #[trigger] crate::categories::c05_global_memory::coalesced_access_steps()[j],
            ),
{
}

/// The test of coalesced access passes exactly when the keys come back each at its place and the
/// values follow them.
pub proof fn law_coalesced_access_passes_exactly_when_values_follow_their_keys(answers: Seq<Answer>)
    requires
        coalesced_shaped(answers),
    ensures
        crate::machine::run_of(
            crate::script::plan(
                "test_coalesced_access",
                crate::categories::c05_global_memory::coalesced_access_steps(),
            ),
            answers,
        ).progress == Progress::Over(Ending::Passed) <==> coalesced_answers(answers),
{
    let plan = crate::script::plan(
        "test_coalesced_access",
        crate::categories::c05_global_memory::coalesced_access_steps(),
    );
    let blank = Contents::blank(plan.texts);
    lemma_coalesced_answers(blank, answers);
    lemma_coalesced_straight();
    crate::walk::law_passes_exactly_when_every_step_goes_through(plan, answers);
}

/// Whether the answers to the downloads of the test are columns or refusals.
pub open spec fn large_shaped(answers: Seq<Answer>) -> bool {
    &&& answers.len() >= 6
    &&& answers[1] is Count
    &&& answers[3] is Count
    &&& crate::laws::steps::column_or_refusal(answers[4])
}

/// What the device has to answer.
pub open spec fn large_answers(answers: Seq<Answer>) -> bool {
    &&& !(answers[0] is Failed)
    &&& answers[1]->Count_0 == 10000000
    &&& !(answers[2] is Failed)
    &&& answers[3]->Count_0 == 10000
    &&& answers[4] is Words
    &&& word_is(answers[4]->Words_0, 0, 0)
    &&& word_is(answers[4]->Words_0, 5000, 5000000)
    &&& word_is(answers[4]->Words_0, 9999, 9999000)
    &&& !(answers[5] is Failed)
}

/// The steps of the test.
proof fn lemma_large_answers(contents: Contents, answers: Seq<Answer>)
    requires
        contents.full(),
        large_shaped(answers),
    ensures
        match crate::walk::walked(
            crate::categories::c05_global_memory::large_allocation_steps(),
            0,
            13,
            contents,
            answers,
            0,
        ) {
            Some((after, next)) => {
                &&& large_answers(answers)
                &&& after.full()
                &&& next == 6
            },
            None => !large_answers(answers),
        },
        crate::categories::c05_global_memory::large_allocation_steps().len() == 13,
{
    let steps = crate::categories::c05_global_memory::large_allocation_steps();
    crate::laws::words::lemma_below(10000000, contents);
    let words1 = crate::laws::words::below(10000000);
    crate::laws::steps::lemma_fill(steps, 0, 13, contents, answers, 0, words1);
    let next1 = contents.with_column(0, words1);
    crate::laws::steps::lemma_command(steps, 1, 13, next1, answers, 0);
    crate::laws::steps::lemma_number(steps, 2, 13, next1, answers, 1, answers[1]->Count_0);
    let next2 = next1.with_register(0, answers[1]->Count_0);
    crate::laws::steps::lemma_register(next2, 0, num(10000000), 10000000);
    crate::laws::steps::lemma_check(
        steps,
        3,
        13,
        next2,
        answers,
        2,
        !(answers[1]->Count_0 == 10000000),
    );
    crate::laws::masks::lemma_remainder_words(1000, 10000000, next2);
    let words3 = crate::laws::masks::every(1000, 10000000);
    crate::laws::steps::lemma_fill(steps, 4, 13, next2, answers, 2, words3);
    let next3 = next2.with_column(1, words3);
    crate::laws::steps::lemma_command(steps, 5, 13, next3, answers, 2);
    crate::laws::steps::lemma_number(steps, 6, 13, next3, answers, 3, answers[3]->Count_0);
    let next4 = next3.with_register(0, answers[3]->Count_0);
    crate::laws::steps::lemma_register(next4, 0, num(10000), 10000);
    crate::laws::steps::lemma_check(
        steps,
        7,
        13,
        next4,
        answers,
        4,
        !(answers[3]->Count_0 == 10000),
    );
    crate::laws::steps::lemma_download(steps, 8, 13, next4, answers, 4);
    if answers[4] is Words {
        let next5 = next4.with_column(2, answers[4]->Words_0);
        lemma_thousandfold(next5, 0);
        crate::laws::steps::lemma_word_at(next5, 2, num(0), times(num(0), num(1000)), 0, 0);
        crate::laws::steps::lemma_check_or_abort(
            steps,
            9,
            13,
            next5,
            answers,
            5,
            word_is(answers[4]->Words_0, 0, 0),
        );
        lemma_thousandfold(next5, 5000);
        crate::laws::steps::lemma_word_at(
            next5,
            2,
            num(5000),
            times(num(5000), num(1000)),
            5000,
            5000000,
        );
        crate::laws::steps::lemma_check_or_abort(
            steps,
            10,
            13,
            next5,
            answers,
            5,
            word_is(answers[4]->Words_0, 5000, 5000000),
        );
        lemma_thousandfold(next5, 9999);
        crate::laws::steps::lemma_word_at(
            next5,
            2,
            num(9999),
            times(num(9999), num(1000)),
            9999,
            9999000,
        );
        crate::laws::steps::lemma_check_or_abort(
            steps,
            11,
            13,
            next5,
            answers,
            5,
            word_is(answers[4]->Words_0, 9999, 9999000),
        );
        crate::laws::steps::lemma_command(steps, 12, 13, next5, answers, 5);
        crate::laws::steps::lemma_end(steps, 13, next5, answers, 6);
    }
}

/// The test has no jumps.
proof fn lemma_large_straight()
    ensures
        forall|j: int|
            0 <= j < crate::categories::c05_global_memory::large_allocation_steps().len()
                ==> crate::walk::straight(
                #[trigger] crate::categories::c05_global_memory::large_allocation_steps()[j],
            ),
{
}

/// The test of ten million rows passes exactly when the device counts all of them and, after a
/// filter, every thousandth one, and hands out the right ones at the first, the middle and the last
/// place.
pub proof fn law_large_allocation_passes_exactly_when_counted_and_kept(answers: Seq<Answer>)
    requires
        large_shaped(answers),
    ensures
        crate::machine::run_of(
            crate::script::plan(
                "test_large_allocation",
                crate::categories::c05_global_memory::large_allocation_steps(),
            ),
            answers,
        ).progress == Progress::Over(Ending::Passed) <==> large_answers(answers),
{
    let plan = crate::script::plan(
        "test_large_allocation",
        crate::categories::c05_global_memory::large_allocation_steps(),
    );
    let blank = Contents::blank(plan.texts);
    lemma_large_answers(blank, answers);
    lemma_large_straight();
    crate::walk::law_passes_exactly_when_every_step_goes_through(plan, answers);
}

/// Whether the answers to the downloads of the test are columns or refusals.
pub open spec fn workloads_shaped(answers: Seq<Answer>) -> bool {
    &&& answers.len() >= 41
    &&& forall|k: int| 0 <= k < 8 ==> #[trigger] answers[2 + 5 * k] is Count
    &&& forall|k: int|
        0 <= k < 8 ==> crate::laws::steps::column_or_refusal(#[trigger] answers[3 + 5 * k])
}

/// What the device has to answer in round `k` of the part `sizes`, from answer `used` on.
pub open spec fn workloads_sizes(k: int, answers: Seq<Answer>, used: int) -> bool {
    &&& !(answers[used] is Failed)
    &&& !(answers[used + 1] is Failed)
    &&& answers[used + 2]->Count_0 == WORKLOADS@[k]
    &&& answers[used + 3] is Words
    &&& word_is(answers[used + 3]->Words_0, 0, 0)
    &&& word_is(answers[used + 3]->Words_0, WORKLOADS@[k] - 1, WORKLOADS@[k] - 1)
}

/// What the device has to answer in the part `end`.
pub open spec fn workloads_end(answers: Seq<Answer>) -> bool {
    !(answers[40] is Failed)
}

/// One round of the part `sizes`.
proof fn lemma_workloads_sizes(k: int, contents: Contents, answers: Seq<Answer>, used: int)
    requires
        0 <= k < 8,
        used == 5 * k,
        contents.full(),
        workloads_shaped(answers),
    ensures
        match crate::walk::walked(
            crate::categories::c07_local_memory::variable_workload_sizes_round(k as u64),
            0,
            9,
            contents,
            answers,
            used,
        ) {
            Some((after, next)) => {
                &&& workloads_sizes(k, answers, used)
                &&& after.full()
                &&& next == 5 * (k + 1)
            },
            None => !workloads_sizes(k, answers, used),
        },
        crate::categories::c07_local_memory::variable_workload_sizes_round(k as u64).len() == 9,
{
    let steps = crate::categories::c07_local_memory::variable_workload_sizes_round(k as u64);
    assert(answers[2 + 5 * k] is Count);
    assert(crate::laws::steps::column_or_refusal(answers[3 + 5 * k]));
    lemma_workloads(k);
    crate::laws::words::lemma_falling(WORKLOADS@[k], contents);
    let words1 = crate::laws::words::falling(WORKLOADS@[k]);
    crate::laws::steps::lemma_fill(steps, 0, 9, contents, answers, used, words1);
    let next1 = contents.with_column(0, words1);
    crate::laws::steps::lemma_command(steps, 1, 9, next1, answers, used);
    crate::laws::steps::lemma_command(steps, 2, 9, next1, answers, used + 1);
    crate::laws::steps::lemma_number(
        steps,
        3,
        9,
        next1,
        answers,
        used + 2,
        answers[used + 2]->Count_0,
    );
    let next2 = next1.with_register(0, answers[used + 2]->Count_0);
    crate::laws::steps::lemma_register(next2, 0, num(WORKLOADS@[k]), WORKLOADS@[k]);
    crate::laws::steps::lemma_check(
        steps,
        4,
        9,
        next2,
        answers,
        used + 3,
        !(answers[used + 2]->Count_0 == WORKLOADS@[k]),
    );
    crate::laws::steps::lemma_download(steps, 5, 9, next2, answers, used + 3);
    if answers[used + 3] is Words {
        let next3 = next2.with_column(1, answers[used + 3]->Words_0);
        crate::laws::steps::lemma_word_at(next3, 1, num(0), num(0), 0, 0);
        crate::laws::steps::lemma_check_or_abort(
            steps,
            6,
            9,
            next3,
            answers,
            used + 4,
            word_is(answers[used + 3]->Words_0, 0, 0),
        );
        lemma_one_less(next3, WORKLOADS@[k]);
        crate::laws::steps::lemma_word_at(
            next3,
            1,
            minus(num(WORKLOADS@[k]), num(1)),
            minus(num(WORKLOADS@[k]), num(1)),
            (WORKLOADS@[k] - 1) as u64,
            (WORKLOADS@[k] - 1) as u64,
        );
        crate::laws::steps::lemma_check_or_abort(
            steps,
            7,
            9,
            next3,
            answers,
            used + 4,
            word_is(answers[used + 3]->Words_0, WORKLOADS@[k] - 1, WORKLOADS@[k] - 1),
        );
        crate::laws::steps::lemma_command(steps, 8, 9, next3, answers, used + 4);
        crate::laws::steps::lemma_end(steps, 9, next3, answers, used + 5);
    }
}

/// All rounds of the part `sizes`.
proof fn lemma_workloads_sizes_rounds(contents: Contents, answers: Seq<Answer>)
    requires
        contents.full(),
        workloads_shaped(answers),
    ensures
        ({
            let steps = crate::script::rounds(
                8,
                |k: int| crate::categories::c07_local_memory::variable_workload_sizes_round(
                    k as u64,
                ),
            );
            match crate::walk::walked(steps, 0, steps.len() as int, contents, answers, 0) {
                Some((after, next)) => {
                    &&& forall|k: int|
                        0 <= k < 8 ==> #[trigger] workloads_sizes(k, answers, 5 * k)
                    &&& after.full()
                    &&& next == 40
                },
                None => !(forall|k: int|
                    0 <= k < 8 ==> #[trigger] workloads_sizes(k, answers, 5 * k)),
            }
        }),
{
    let round = |k: int| crate::categories::c07_local_memory::variable_workload_sizes_round(
        k as u64,
    );
    let start = |k: int| 5 * k;
    let good = |k: int| workloads_sizes(k, answers, start(k));
    let kept = |contents: Contents| contents.full();
    assert forall|k: int, contents: Contents|
        #![trigger good(k), kept(contents)]
        0 <= k < 8 && kept(contents) implies if good(k) {
        crate::walk::goes_to(round(k), contents, answers, start(k), start(k + 1), kept)
    } else {
        crate::walk::walked(round(k), 0, round(k).len() as int, contents, answers, start(k)) is None
    } by {
        lemma_workloads_sizes(k, contents, answers, start(k));
    }
    crate::walk::law_rounds_keep_what_each_keeps(8, round, start, good, kept, contents, answers);
    if forall|k: int| 0 <= k < 8 ==> #[trigger] good(k) {
        assert forall|k: int| 0 <= k < 8 implies #[trigger] workloads_sizes(
            k,
            answers,
            5 * k,
        ) by {
            assert(good(k));
        }
    } else {
        let k = choose|k: int| 0 <= k < 8 && !(#[trigger] good(k));
        assert(!workloads_sizes(k, answers, 5 * k));
    }
}

/// The part `end`.
proof fn lemma_workloads_end(contents: Contents, answers: Seq<Answer>)
    requires
        contents.full(),
        workloads_shaped(answers),
    ensures
        match crate::walk::walked(
            crate::categories::c07_local_memory::variable_workload_end_steps(),
            0,
            1,
            contents,
            answers,
            40,
        ) {
            Some((after, next)) => {
                &&& workloads_end(answers)
                &&& after.full()
                &&& next == 41
            },
            None => !workloads_end(answers),
        },
        crate::categories::c07_local_memory::variable_workload_end_steps().len() == 1,
{
    let steps = crate::categories::c07_local_memory::variable_workload_end_steps();
    crate::laws::steps::lemma_command(steps, 0, 1, contents, answers, 40);
    crate::laws::steps::lemma_end(steps, 1, contents, answers, 41);
}

/// The test has no jumps.
proof fn lemma_workloads_straight()
    ensures
        forall|j: int|
            0 <= j < crate::categories::c07_local_memory::variable_workload_steps().len()
                ==> crate::walk::straight(
                #[trigger] crate::categories::c07_local_memory::variable_workload_steps()[j],
            ),
{
    let part1 = crate::script::rounds(
        8,
        |k: int| crate::categories::c07_local_memory::variable_workload_sizes_round(k as u64),
    );
    let round1 = |k: int| crate::categories::c07_local_memory::variable_workload_sizes_round(
        k as u64,
    );
    crate::walk::law_straight_rounds_are_straight(8, round1);
    let part2 = crate::categories::c07_local_memory::variable_workload_end_steps();
    let whole1 = part1;
    let whole2 = whole1 + part2;
    crate::walk::law_straight_scripts_make_a_straight_one(whole1, part2);
    assert(crate::categories::c07_local_memory::variable_workload_steps() == whole2);
}

/// The test of varying sizes passes exactly when, for each size, a sort of falling numbers leaves
/// all rows, the least number first and the greatest one at the last place.
pub proof fn law_workloads_pass_exactly_when_first_and_last_are_right(answers: Seq<Answer>)
    requires
        workloads_shaped(answers),
    ensures
        crate::machine::run_of(
            crate::script::plan(
                "test_variable_workload",
                crate::categories::c07_local_memory::variable_workload_steps(),
            ),
            answers,
        ).progress == Progress::Over(Ending::Passed) <==> {
            &&& forall|k: int|
                0 <= k < 8 ==> #[trigger] workloads_sizes(k, answers, 5 * k)
            &&& workloads_end(answers)
        },
{
    let plan = crate::script::plan(
        "test_variable_workload",
        crate::categories::c07_local_memory::variable_workload_steps(),
    );
    let blank = Contents::blank(plan.texts);
    let part1 = crate::script::rounds(
        8,
        |k: int| crate::categories::c07_local_memory::variable_workload_sizes_round(k as u64),
    );
    let part2 = crate::categories::c07_local_memory::variable_workload_end_steps();
    let whole1 = part1;
    let whole2 = whole1 + part2;
    assert(plan.steps == whole2);
    lemma_workloads_sizes_rounds(blank, answers);
    crate::walk::law_walks_over_two_scripts_compose(whole1, part2, blank, answers, 0);
    match crate::walk::walked(whole1, 0, whole1.len() as int, blank, answers, 0) {
        Some((after, _)) => {
            lemma_workloads_end(after, answers);
        },
        None => {},
    }
    lemma_workloads_straight();
    crate::walk::law_passes_exactly_when_every_step_goes_through(plan, answers);
}

/// Whether the answers to the downloads of the test are columns or refusals.
pub open spec fn one_block_shaped(answers: Seq<Answer>) -> bool {
    &&& answers.len() >= 64
    &&& forall|k: int| 0 <= k < 7 ==> #[trigger] answers[2 + 9 * k] is Count
    &&& forall|k: int|
        0 <= k < 7 ==> crate::laws::steps::column_or_refusal(#[trigger] answers[3 + 9 * k])
    &&& forall|k: int| 0 <= k < 7 ==> #[trigger] answers[5 + 9 * k] is Count
    &&& forall|k: int| 0 <= k < 7 ==> #[trigger] answers[7 + 9 * k] is Count
}

/// What the device has to answer in round `k` of the part `sizes`, from answer `used` on.
pub open spec fn one_block_sizes(k: int, answers: Seq<Answer>, used: int) -> bool {
    &&& !(answers[used] is Failed)
    &&& !(answers[used + 1] is Failed)
    &&& answers[used + 2]->Count_0 == SINGLE_SIZES@[k]
    &&& answers[used + 3] is Words
    &&& crate::laws::steps::counts_up(answers[used + 3]->Words_0)
    &&& !(answers[used + 4] is Failed)
    &&& answers[used + 5]->Count_0 == (SINGLE_SIZES@[k] + 1) / 2
    &&& !(answers[used + 6] is Failed)
    &&& answers[used + 7]->Count_0 == SINGLE_SIZES@[k]
}

/// What the device has to answer in the part `end`.
pub open spec fn one_block_end(answers: Seq<Answer>) -> bool {
    !(answers[63] is Failed)
}

/// One round of the part `sizes`.
proof fn lemma_one_block_sizes(k: int, contents: Contents, answers: Seq<Answer>, used: int)
    requires
        0 <= k < 7,
        used == 9 * k,
        contents.full(),
        one_block_shaped(answers),
    ensures
        match crate::walk::walked(
            crate::categories::c10_block_grid::single_block_operations_sizes_round(k as u64),
            0,
            16,
            contents,
            answers,
            used,
        ) {
            Some((after, next)) => {
                &&& one_block_sizes(k, answers, used)
                &&& after.full()
                &&& next == 9 * (k + 1)
            },
            None => !one_block_sizes(k, answers, used),
        },
        crate::categories::c10_block_grid::single_block_operations_sizes_round(
            k as u64,
        ).len() == 16,
{
    let steps = crate::categories::c10_block_grid::single_block_operations_sizes_round(k as u64);
    assert(answers[2 + 9 * k] is Count);
    assert(crate::laws::steps::column_or_refusal(answers[3 + 9 * k]));
    assert(answers[5 + 9 * k] is Count);
    assert(answers[7 + 9 * k] is Count);
    lemma_single_sizes(k);
    crate::laws::words::lemma_falling(SINGLE_SIZES@[k], contents);
    let words1 = crate::laws::words::falling(SINGLE_SIZES@[k]);
    crate::laws::steps::lemma_fill(steps, 0, 16, contents, answers, used, words1);
    let next1 = contents.with_column(0, words1);
    crate::laws::words::lemma_below(SINGLE_SIZES@[k], next1);
    let words2 = crate::laws::words::below(SINGLE_SIZES@[k]);
    crate::laws::steps::lemma_fill(steps, 1, 16, next1, answers, used, words2);
    let next2 = next1.with_column(1, words2);
    crate::laws::steps::lemma_command(steps, 2, 16, next2, answers, used);
    crate::laws::steps::lemma_command(steps, 3, 16, next2, answers, used + 1);
    crate::laws::steps::lemma_number(
        steps,
        4,
        16,
        next2,
        answers,
        used + 2,
        answers[used + 2]->Count_0,
    );
    let next3 = next2.with_register(0, answers[used + 2]->Count_0);
    crate::laws::steps::lemma_register(next3, 0, num(SINGLE_SIZES@[k]), SINGLE_SIZES@[k]);
    crate::laws::steps::lemma_check(
        steps,
        5,
        16,
        next3,
        answers,
        used + 3,
        !(answers[used + 2]->Count_0 == SINGLE_SIZES@[k]),
    );
    crate::laws::steps::lemma_download(steps, 6, 16, next3, answers, used + 3);
    if answers[used + 3] is Words {
        let next4 = next3.with_column(2, answers[used + 3]->Words_0);
        crate::laws::steps::lemma_scan_places(steps, 7, 16, next4, answers, used + 4, 2);
        crate::laws::masks::lemma_remainder_words(2, SINGLE_SIZES@[k], next4);
        let words5 = crate::laws::masks::every(2, SINGLE_SIZES@[k] as nat);
        crate::laws::steps::lemma_fill(steps, 8, 16, next4, answers, used + 4, words5);
        let next5 = next4.with_column(3, words5);
        crate::laws::steps::lemma_command(steps, 9, 16, next5, answers, used + 4);
        crate::laws::steps::lemma_number(
            steps,
            10,
            16,
            next5,
            answers,
            used + 5,
            answers[used + 5]->Count_0,
        );
        let next6 = next5.with_register(0, answers[used + 5]->Count_0);
        crate::laws::lanes::lemma_half(SINGLE_SIZES@[k], next6);
        crate::laws::steps::lemma_register(
            next6,
            0,
            over(plus(num(SINGLE_SIZES@[k]), num(1)), num(2)),
            ((SINGLE_SIZES@[k] + 1) / 2) as u64,
        );
        crate::laws::steps::lemma_check(
            steps,
            11,
            16,
            next6,
            answers,
            used + 6,
            !(answers[used + 5]->Count_0 == (SINGLE_SIZES@[k] + 1) / 2),
        );
        crate::laws::steps::lemma_command(steps, 12, 16, next6, answers, used + 6);
        crate::laws::steps::lemma_number(
            steps,
            13,
            16,
            next6,
            answers,
            used + 7,
            answers[used + 7]->Count_0,
        );
        let next7 = next6.with_register(0, answers[used + 7]->Count_0);
        crate::laws::steps::lemma_register(next7, 0, num(SINGLE_SIZES@[k]), SINGLE_SIZES@[k]);
        crate::laws::steps::lemma_check(
            steps,
            14,
            16,
            next7,
            answers,
            used + 8,
            !(answers[used + 7]->Count_0 == SINGLE_SIZES@[k]),
        );
        crate::laws::steps::lemma_command(steps, 15, 16, next7, answers, used + 8);
        crate::laws::steps::lemma_end(steps, 16, next7, answers, used + 9);
    }
}

/// All rounds of the part `sizes`.
proof fn lemma_one_block_sizes_rounds(contents: Contents, answers: Seq<Answer>)
    requires
        contents.full(),
        one_block_shaped(answers),
    ensures
        ({
            let steps = crate::script::rounds(
                7,
                |k: int| crate::categories::c10_block_grid::single_block_operations_sizes_round(
                    k as u64,
                ),
            );
            match crate::walk::walked(steps, 0, steps.len() as int, contents, answers, 0) {
                Some((after, next)) => {
                    &&& forall|k: int|
                        0 <= k < 7 ==> #[trigger] one_block_sizes(k, answers, 9 * k)
                    &&& after.full()
                    &&& next == 63
                },
                None => !(forall|k: int|
                    0 <= k < 7 ==> #[trigger] one_block_sizes(k, answers, 9 * k)),
            }
        }),
{
    let round = |k: int| crate::categories::c10_block_grid::single_block_operations_sizes_round(
        k as u64,
    );
    let start = |k: int| 9 * k;
    let good = |k: int| one_block_sizes(k, answers, start(k));
    let kept = |contents: Contents| contents.full();
    assert forall|k: int, contents: Contents|
        #![trigger good(k), kept(contents)]
        0 <= k < 7 && kept(contents) implies if good(k) {
        crate::walk::goes_to(round(k), contents, answers, start(k), start(k + 1), kept)
    } else {
        crate::walk::walked(round(k), 0, round(k).len() as int, contents, answers, start(k)) is None
    } by {
        lemma_one_block_sizes(k, contents, answers, start(k));
    }
    crate::walk::law_rounds_keep_what_each_keeps(7, round, start, good, kept, contents, answers);
    if forall|k: int| 0 <= k < 7 ==> #[trigger] good(k) {
        assert forall|k: int| 0 <= k < 7 implies #[trigger] one_block_sizes(
            k,
            answers,
            9 * k,
        ) by {
            assert(good(k));
        }
    } else {
        let k = choose|k: int| 0 <= k < 7 && !(#[trigger] good(k));
        assert(!one_block_sizes(k, answers, 9 * k));
    }
}

/// The part `end`.
proof fn lemma_one_block_end(contents: Contents, answers: Seq<Answer>)
    requires
        contents.full(),
        one_block_shaped(answers),
    ensures
        match crate::walk::walked(
            crate::categories::c10_block_grid::single_block_operations_end_steps(),
            0,
            1,
            contents,
            answers,
            63,
        ) {
            Some((after, next)) => {
                &&& one_block_end(answers)
                &&& after.full()
                &&& next == 64
            },
            None => !one_block_end(answers),
        },
        crate::categories::c10_block_grid::single_block_operations_end_steps().len() == 1,
{
    let steps = crate::categories::c10_block_grid::single_block_operations_end_steps();
    crate::laws::steps::lemma_command(steps, 0, 1, contents, answers, 63);
    crate::laws::steps::lemma_end(steps, 1, contents, answers, 64);
}

/// The test has no jumps.
proof fn lemma_one_block_straight()
    ensures
        forall|j: int|
            0 <= j < crate::categories::c10_block_grid::single_block_operations_steps().len()
                ==> crate::walk::straight(
                #[trigger] crate::categories::c10_block_grid::single_block_operations_steps()[j],
            ),
{
    let part1 = crate::script::rounds(
        7,
        |k: int| crate::categories::c10_block_grid::single_block_operations_sizes_round(k as u64),
    );
    let round1 = |k: int| crate::categories::c10_block_grid::single_block_operations_sizes_round(
        k as u64,
    );
    crate::walk::law_straight_rounds_are_straight(7, round1);
    let part2 = crate::categories::c10_block_grid::single_block_operations_end_steps();
    let whole1 = part1;
    let whole2 = whole1 + part2;
    crate::walk::law_straight_scripts_make_a_straight_one(whole1, part2);
    assert(crate::categories::c10_block_grid::single_block_operations_steps() == whole2);
}

/// The test of a single block passes exactly when, for each size, a sort leaves all rows, with the
/// keys each at its place, a filter of every other row leaves half of them, rounded up, and
/// removing duplicates leaves all of them.
pub proof fn law_one_block_passes_exactly_when_nothing_is_lost(answers: Seq<Answer>)
    requires
        one_block_shaped(answers),
    ensures
        crate::machine::run_of(
            crate::script::plan(
                "test_single_block_operations",
                crate::categories::c10_block_grid::single_block_operations_steps(),
            ),
            answers,
        ).progress == Progress::Over(Ending::Passed) <==> {
            &&& forall|k: int|
                0 <= k < 7 ==> #[trigger] one_block_sizes(k, answers, 9 * k)
            &&& one_block_end(answers)
        },
{
    let plan = crate::script::plan(
        "test_single_block_operations",
        crate::categories::c10_block_grid::single_block_operations_steps(),
    );
    let blank = Contents::blank(plan.texts);
    let part1 = crate::script::rounds(
        7,
        |k: int| crate::categories::c10_block_grid::single_block_operations_sizes_round(k as u64),
    );
    let part2 = crate::categories::c10_block_grid::single_block_operations_end_steps();
    let whole1 = part1;
    let whole2 = whole1 + part2;
    assert(plan.steps == whole2);
    lemma_one_block_sizes_rounds(blank, answers);
    crate::walk::law_walks_over_two_scripts_compose(whole1, part2, blank, answers, 0);
    match crate::walk::walked(whole1, 0, whole1.len() as int, blank, answers, 0) {
        Some((after, _)) => {
            lemma_one_block_end(after, answers);
        },
        None => {},
    }
    lemma_one_block_straight();
    crate::walk::law_passes_exactly_when_every_step_goes_through(plan, answers);
}

/// Whether the answers to the downloads of the test are columns or refusals.
pub open spec fn block_edges_shaped(answers: Seq<Answer>) -> bool {
    &&& answers.len() >= 49
    &&& forall|k: int| 0 <= k < 6 ==> #[trigger] answers[2 + 8 * k] is Count
    &&& forall|k: int|
        0 <= k < 6 ==> crate::laws::steps::column_or_refusal(#[trigger] answers[3 + 8 * k])
    &&& forall|k: int| 0 <= k < 6 ==> #[trigger] answers[5 + 8 * k] is Count
    &&& forall|k: int|
        0 <= k < 6 ==> crate::laws::steps::column_or_refusal(#[trigger] answers[6 + 8 * k])
}

/// What the device has to answer in round `k` of the part `sizes`, from answer `used` on.
pub open spec fn block_edges_sizes(k: int, answers: Seq<Answer>, used: int) -> bool {
    &&& !(answers[used] is Failed)
    &&& !(answers[used + 1] is Failed)
    &&& answers[used + 2]->Count_0 == EDGE_SIZES@[k]
    &&& answers[used + 3] is Words
    &&& crate::laws::steps::counts_up(answers[used + 3]->Words_0)
    &&& !(answers[used + 4] is Failed)
    &&& answers[used + 5]->Count_0 == crate::columns::total(block_edges(EDGE_SIZES@[k]))
    &&& answers[used + 6] is Words
    &&& answers[used + 6]->Words_0 == crate::laws::predicates::picked(
        crate::laws::words::falling(EDGE_SIZES@[k]),
        block_edges(EDGE_SIZES@[k]),
        EDGE_SIZES@[k] as nat,
    )
}

/// What the device has to answer in the part `end`.
pub open spec fn block_edges_end(answers: Seq<Answer>) -> bool {
    !(answers[48] is Failed)
}

/// One round of the part `sizes`.
proof fn lemma_block_edges_sizes(k: int, contents: Contents, answers: Seq<Answer>, used: int)
    requires
        0 <= k < 6,
        used == 8 * k,
        contents.full(),
        block_edges_shaped(answers),
    ensures
        match crate::walk::walked(
            crate::categories::c10_block_grid::block_boundary_correctness_sizes_round(k as u64),
            0,
            16,
            contents,
            answers,
            used,
        ) {
            Some((after, next)) => {
                &&& block_edges_sizes(k, answers, used)
                &&& after.full()
                &&& next == 8 * (k + 1)
            },
            None => !block_edges_sizes(k, answers, used),
        },
        crate::categories::c10_block_grid::block_boundary_correctness_sizes_round(
            k as u64,
        ).len() == 16,
{
    let steps = crate::categories::c10_block_grid::block_boundary_correctness_sizes_round(k as u64);
    assert(answers[2 + 8 * k] is Count);
    assert(crate::laws::steps::column_or_refusal(answers[3 + 8 * k]));
    assert(answers[5 + 8 * k] is Count);
    assert(crate::laws::steps::column_or_refusal(answers[6 + 8 * k]));
    lemma_edge_sizes(k);
    crate::laws::words::lemma_falling(EDGE_SIZES@[k], contents);
    let words1 = crate::laws::words::falling(EDGE_SIZES@[k]);
    crate::laws::steps::lemma_fill(steps, 0, 16, contents, answers, used, words1);
    let next1 = contents.with_column(0, words1);
    crate::laws::steps::lemma_command(steps, 1, 16, next1, answers, used);
    crate::laws::steps::lemma_command(steps, 2, 16, next1, answers, used + 1);
    crate::laws::steps::lemma_number(
        steps,
        3,
        16,
        next1,
        answers,
        used + 2,
        answers[used + 2]->Count_0,
    );
    let next2 = next1.with_register(0, answers[used + 2]->Count_0);
    crate::laws::steps::lemma_register(next2, 0, num(EDGE_SIZES@[k]), EDGE_SIZES@[k]);
    crate::laws::steps::lemma_check(
        steps,
        4,
        16,
        next2,
        answers,
        used + 3,
        !(answers[used + 2]->Count_0 == EDGE_SIZES@[k]),
    );
    crate::laws::steps::lemma_download(steps, 5, 16, next2, answers, used + 3);
    if answers[used + 3] is Words {
        let next3 = next2.with_column(1, answers[used + 3]->Words_0);
        crate::laws::steps::lemma_scan_places(steps, 6, 16, next3, answers, used + 4, 1);
        lemma_block_edges(EDGE_SIZES@[k], next3);
        let words4 = block_edges(EDGE_SIZES@[k]);
        crate::laws::steps::lemma_fill(steps, 7, 16, next3, answers, used + 4, words4);
        let next4 = next3.with_column(2, words4);
        crate::laws::lanes::lemma_mask_sum(next4, 2);
        crate::laws::steps::lemma_put(
            steps,
            8,
            16,
            next4,
            answers,
            used + 4,
            crate::columns::total(block_edges(EDGE_SIZES@[k])) as u64,
        );
        let next5 = next4.with_register(
            1,
            crate::columns::total(block_edges(EDGE_SIZES@[k])) as u64,
        );
        crate::laws::steps::lemma_command(steps, 9, 16, next5, answers, used + 4);
        crate::laws::steps::lemma_number(
            steps,
            10,
            16,
            next5,
            answers,
            used + 5,
            answers[used + 5]->Count_0,
        );
        let next6 = next5.with_register(0, answers[used + 5]->Count_0);
        crate::laws::lanes::lemma_mask_sum(next6, 2);
        crate::laws::steps::lemma_register(
            next6,
            0,
            reg(1),
            crate::columns::total(block_edges(EDGE_SIZES@[k])) as u64,
        );
        crate::laws::steps::lemma_check(
            steps,
            11,
            16,
            next6,
            answers,
            used + 6,
            !(answers[used + 5]->Count_0 == crate::columns::total(block_edges(EDGE_SIZES@[k]))),
        );
        crate::laws::steps::lemma_download(steps, 12, 16, next6, answers, used + 6);
        if answers[used + 6] is Words {
            let next7 = next6.with_column(3, answers[used + 6]->Words_0);
            lemma_marked_words(next7, 0, 2, EDGE_SIZES@[k] as nat);
            crate::laws::steps::lemma_select(
                steps,
                13,
                16,
                next7,
                answers,
                used + 7,
                EDGE_SIZES@[k],
                crate::laws::predicates::picked(
                    crate::laws::words::falling(EDGE_SIZES@[k]),
                    block_edges(EDGE_SIZES@[k]),
                    EDGE_SIZES@[k] as nat,
                ),
            );
            let next8 = next7.with_column(
                4,
                crate::laws::predicates::picked(
                    crate::laws::words::falling(EDGE_SIZES@[k]),
                    block_edges(EDGE_SIZES@[k]),
                    EDGE_SIZES@[k] as nat,
                ),
            );
            crate::laws::steps::lemma_not_alike(next8, 3, 4);
            crate::laws::steps::lemma_check(
                steps,
                14,
                16,
                next8,
                answers,
                used + 7,
                !(
                    answers[used + 6]->Words_0 == crate::laws::predicates::picked(
                        crate::laws::words::falling(EDGE_SIZES@[k]),
                        block_edges(EDGE_SIZES@[k]),
                        EDGE_SIZES@[k] as nat,
                    )
                ),
            );
            crate::laws::steps::lemma_command(steps, 15, 16, next8, answers, used + 7);
            crate::laws::steps::lemma_end(steps, 16, next8, answers, used + 8);
        }
    }
}

/// All rounds of the part `sizes`.
proof fn lemma_block_edges_sizes_rounds(contents: Contents, answers: Seq<Answer>)
    requires
        contents.full(),
        block_edges_shaped(answers),
    ensures
        ({
            let steps = crate::script::rounds(
                6,
                |k: int| crate::categories::c10_block_grid::block_boundary_correctness_sizes_round(
                    k as u64,
                ),
            );
            match crate::walk::walked(steps, 0, steps.len() as int, contents, answers, 0) {
                Some((after, next)) => {
                    &&& forall|k: int|
                        0 <= k < 6 ==> #[trigger] block_edges_sizes(k, answers, 8 * k)
                    &&& after.full()
                    &&& next == 48
                },
                None => !(forall|k: int|
                    0 <= k < 6 ==> #[trigger] block_edges_sizes(k, answers, 8 * k)),
            }
        }),
{
    let round = |k: int| crate::categories::c10_block_grid::block_boundary_correctness_sizes_round(
        k as u64,
    );
    let start = |k: int| 8 * k;
    let good = |k: int| block_edges_sizes(k, answers, start(k));
    let kept = |contents: Contents| contents.full();
    assert forall|k: int, contents: Contents|
        #![trigger good(k), kept(contents)]
        0 <= k < 6 && kept(contents) implies if good(k) {
        crate::walk::goes_to(round(k), contents, answers, start(k), start(k + 1), kept)
    } else {
        crate::walk::walked(round(k), 0, round(k).len() as int, contents, answers, start(k)) is None
    } by {
        lemma_block_edges_sizes(k, contents, answers, start(k));
    }
    crate::walk::law_rounds_keep_what_each_keeps(6, round, start, good, kept, contents, answers);
    if forall|k: int| 0 <= k < 6 ==> #[trigger] good(k) {
        assert forall|k: int| 0 <= k < 6 implies #[trigger] block_edges_sizes(
            k,
            answers,
            8 * k,
        ) by {
            assert(good(k));
        }
    } else {
        let k = choose|k: int| 0 <= k < 6 && !(#[trigger] good(k));
        assert(!block_edges_sizes(k, answers, 8 * k));
    }
}

/// The part `end`.
proof fn lemma_block_edges_end(contents: Contents, answers: Seq<Answer>)
    requires
        contents.full(),
        block_edges_shaped(answers),
    ensures
        match crate::walk::walked(
            crate::categories::c10_block_grid::block_boundary_correctness_end_steps(),
            0,
            1,
            contents,
            answers,
            48,
        ) {
            Some((after, next)) => {
                &&& block_edges_end(answers)
                &&& after.full()
                &&& next == 49
            },
            None => !block_edges_end(answers),
        },
        crate::categories::c10_block_grid::block_boundary_correctness_end_steps().len() == 1,
{
    let steps = crate::categories::c10_block_grid::block_boundary_correctness_end_steps();
    crate::laws::steps::lemma_command(steps, 0, 1, contents, answers, 48);
    crate::laws::steps::lemma_end(steps, 1, contents, answers, 49);
}

/// The test has no jumps.
proof fn lemma_block_edges_straight()
    ensures
        forall|j: int|
            0 <= j < crate::categories::c10_block_grid::block_boundary_correctness_steps().len()
                ==> crate::walk::straight(
                #[trigger] crate::categories::c10_block_grid::block_boundary_correctness_steps()[j],
            ),
{
    let part1 = crate::script::rounds(
        6,
        |k: int| crate::categories::c10_block_grid::block_boundary_correctness_sizes_round(
            k as u64,
        ),
    );
    let round1 = |k: int| crate::categories::c10_block_grid::block_boundary_correctness_sizes_round(
        k as u64,
    );
    crate::walk::law_straight_rounds_are_straight(6, round1);
    let part2 = crate::categories::c10_block_grid::block_boundary_correctness_end_steps();
    let whole1 = part1;
    let whole2 = whole1 + part2;
    crate::walk::law_straight_scripts_make_a_straight_one(whole1, part2);
    assert(crate::categories::c10_block_grid::block_boundary_correctness_steps() == whole2);
}

/// The test around the edges of blocks passes exactly when, for each size, a sort leaves all rows,
/// with every number at its place, and a filter that marks the edges keeps as many rows as are
/// marked, and just those.
pub proof fn law_block_edges_pass_exactly_when_sorted_and_filtered(answers: Seq<Answer>)
    requires
        block_edges_shaped(answers),
    ensures
        crate::machine::run_of(
            crate::script::plan(
                "test_block_boundary_correctness",
                crate::categories::c10_block_grid::block_boundary_correctness_steps(),
            ),
            answers,
        ).progress == Progress::Over(Ending::Passed) <==> {
            &&& forall|k: int|
                0 <= k < 6 ==> #[trigger] block_edges_sizes(k, answers, 8 * k)
            &&& block_edges_end(answers)
        },
{
    let plan = crate::script::plan(
        "test_block_boundary_correctness",
        crate::categories::c10_block_grid::block_boundary_correctness_steps(),
    );
    let blank = Contents::blank(plan.texts);
    let part1 = crate::script::rounds(
        6,
        |k: int| crate::categories::c10_block_grid::block_boundary_correctness_sizes_round(
            k as u64,
        ),
    );
    let part2 = crate::categories::c10_block_grid::block_boundary_correctness_end_steps();
    let whole1 = part1;
    let whole2 = whole1 + part2;
    assert(plan.steps == whole2);
    lemma_block_edges_sizes_rounds(blank, answers);
    crate::walk::law_walks_over_two_scripts_compose(whole1, part2, blank, answers, 0);
    match crate::walk::walked(whole1, 0, whole1.len() as int, blank, answers, 0) {
        Some((after, _)) => {
            lemma_block_edges_end(after, answers);
        },
        None => {},
    }
    lemma_block_edges_straight();
    crate::walk::law_passes_exactly_when_every_step_goes_through(plan, answers);
}

} // verus!
