//! The laws of the tests that sort columns around the size of a tile.

use vstd::prelude::*;
use crate::categories::c06_shared_memory::{EDGE_SIZES, STRESS_SIZES, TILE_SIZES};
use crate::expr::{differs, entry, ix, minus, modulo, num, over, plus, reg, times};
use crate::machine::{Answer, Ending, Progress};
use crate::memory::Contents;
use crate::tables::Table;

verus! {

/// Whether a row count is not the expected one.
proof fn lemma_count(contents: Contents, expected: u64)
    requires
        contents.full(),
    ensures
        crate::expr::value_of(differs(reg(0), num(expected)), contents, 0) == Some(
            crate::expr::truth(contents.registers[0] != expected),
        ),
{
    reveal_with_fuel(crate::expr::value_of, 4);
}

/// The keys that all fall into one bank of every 32.
pub open spec fn banked() -> Seq<u64> {
    Seq::new(4096, |i: int| ((i % 32) * 1000 + i / 32) as u64)
}

/// The words of [`banked`].
#[verifier::spinoff_prover]
#[verifier::rlimit(50)]
proof fn lemma_banked(contents: Contents)
    ensures
        forall|i: int|
            0 <= i < 4096 ==> #[trigger] crate::expr::value_of(
                plus(times(modulo(ix(), num(32)), num(1000)), over(ix(), num(32))),
                contents,
                i as u64,
            ) == Some(banked()[i]),
{
    assert forall|i: int| 0 <= i < 4096 implies #[trigger] crate::expr::value_of(
        plus(times(modulo(ix(), num(32)), num(1000)), over(ix(), num(32))),
        contents,
        i as u64,
    ) == Some(banked()[i]) by {
        reveal_with_fuel(crate::expr::value_of, 5);
    }
}

/// The powers of two, over and over.
pub open spec fn powers() -> Seq<u64> {
    Seq::new(4096, |i: int| crate::tables::words_of(Table::Powers)[i % 16])
}

/// The words of [`powers`].
proof fn lemma_powers(contents: Contents)
    ensures
        forall|i: int|
            0 <= i < 4096 ==> #[trigger] crate::expr::value_of(
                entry(Table::Powers, modulo(ix(), num(16))),
                contents,
                i as u64,
            ) == Some(powers()[i]),
{
    assert forall|i: int| 0 <= i < 4096 implies #[trigger] crate::expr::value_of(
        entry(Table::Powers, modulo(ix(), num(16))),
        contents,
        i as u64,
    ) == Some(powers()[i]) by {
        reveal_with_fuel(crate::expr::value_of, 3);
    }
}

/// The words of the keys that many passes are needed for.
#[verifier::spinoff_prover]
#[verifier::rlimit(50)]
proof fn lemma_scrambled(contents: Contents)
    ensures
        forall|i: int|
            0 <= i < 1000000 ==> #[trigger] crate::expr::value_of(
                modulo(plus(times(ix(), num(1103515247)), num(12345)), num(1000000)),
                contents,
                i as u64,
            ) == Some(crate::laws::sorting::scrambled_keys()[i]),
{
    assert forall|i: int| 0 <= i < 1000000 implies #[trigger] crate::expr::value_of(
        modulo(plus(times(ix(), num(1103515247)), num(12345)), num(1000000)),
        contents,
        i as u64,
    ) == Some(crate::laws::sorting::scrambled_keys()[i]) by {
        reveal_with_fuel(crate::expr::value_of, 5);
    }
}

/// Whether the answers to the downloads of the test are columns or refusals.
pub open spec fn tiles_shaped(answers: Seq<Answer>) -> bool {
    &&& answers.len() >= 36
    &&& forall|k: int| 0 <= k < 7 ==> #[trigger] answers[2 + 5 * k] is Count
    &&& forall|k: int|
        0 <= k < 7 ==> crate::laws::steps::column_or_refusal(#[trigger] answers[3 + 5 * k])
}

/// What the device has to answer in round `k` of the part `sizes`, from answer `used` on.
pub open spec fn tiles_sizes(k: int, answers: Seq<Answer>, used: int) -> bool {
    &&& !(answers[used] is Failed)
    &&& !(answers[used + 1] is Failed)
    &&& answers[used + 2]->Count_0 == TILE_SIZES@[k]
    &&& answers[used + 3] is Words
    &&& crate::laws::steps::counts_up(answers[used + 3]->Words_0)
}

/// What the device has to answer in the part `end`.
pub open spec fn tiles_end(answers: Seq<Answer>) -> bool {
    !(answers[35] is Failed)
}

/// One round of the part `sizes`.
proof fn lemma_tiles_sizes(k: int, contents: Contents, answers: Seq<Answer>, used: int)
    requires
        0 <= k < 7,
        used == 5 * k,
        contents.full(),
        tiles_shaped(answers),
    ensures
        match crate::walk::walked(
            crate::categories::c06_shared_memory::sorted_size_steps(TILE_SIZES@[k]),
            0,
            8,
            contents,
            answers,
            used,
        ) {
            Some((after, next)) => {
                &&& tiles_sizes(k, answers, used)
                &&& after.full()
                &&& next == 5 * (k + 1)
            },
            None => !tiles_sizes(k, answers, used),
        },
        crate::categories::c06_shared_memory::sorted_size_steps(TILE_SIZES@[k]).len() == 8,
{
    let steps = crate::categories::c06_shared_memory::sorted_size_steps(TILE_SIZES@[k]);
    assert(answers[2 + 5 * k] is Count);
    assert(crate::laws::steps::column_or_refusal(answers[3 + 5 * k]));
    crate::laws::words::lemma_falling(TILE_SIZES@[k], contents);
    let words1 = crate::laws::words::falling(TILE_SIZES@[k]);
    crate::laws::steps::lemma_fill(steps, 0, 8, contents, answers, used, words1);
    let next1 = contents.with_column(0, words1);
    crate::laws::steps::lemma_command(steps, 1, 8, next1, answers, used);
    crate::laws::steps::lemma_command(steps, 2, 8, next1, answers, used + 1);
    crate::laws::steps::lemma_number(
        steps,
        3,
        8,
        next1,
        answers,
        used + 2,
        answers[used + 2]->Count_0,
    );
    let next2 = next1.with_register(0, answers[used + 2]->Count_0);
    lemma_count(next2, TILE_SIZES@[k]);
    crate::laws::steps::lemma_check(
        steps,
        4,
        8,
        next2,
        answers,
        used + 3,
        !(answers[used + 2]->Count_0 == TILE_SIZES@[k]),
    );
    crate::laws::steps::lemma_download(steps, 5, 8, next2, answers, used + 3);
    if answers[used + 3] is Words {
        let next3 = next2.with_column(1, answers[used + 3]->Words_0);
        crate::laws::steps::lemma_scan_places(steps, 6, 8, next3, answers, used + 4, 1);
        crate::laws::steps::lemma_command(steps, 7, 8, next3, answers, used + 4);
        crate::laws::steps::lemma_end(steps, 8, next3, answers, used + 5);
    }
}

/// All rounds of the part `sizes`.
proof fn lemma_tiles_sizes_rounds(contents: Contents, answers: Seq<Answer>)
    requires
        contents.full(),
        tiles_shaped(answers),
    ensures
        ({
            let steps = crate::script::rounds(
                7,
                |k: int| crate::categories::c06_shared_memory::sorted_size_steps(TILE_SIZES@[k]),
            );
            match crate::walk::walked(steps, 0, steps.len() as int, contents, answers, 0) {
                Some((after, next)) => {
                    &&& forall|k: int| 0 <= k < 7 ==> #[trigger] tiles_sizes(k, answers, 5 * k)
                    &&& after.full()
                    &&& next == 35
                },
                None => !(forall|k: int|
                    0 <= k < 7 ==> #[trigger] tiles_sizes(k, answers, 5 * k)),
            }
        }),
{
    let round = |k: int| crate::categories::c06_shared_memory::sorted_size_steps(TILE_SIZES@[k]);
    let start = |k: int| 5 * k;
    let good = |k: int| tiles_sizes(k, answers, start(k));
    let kept = |contents: Contents| contents.full();
    assert forall|k: int, contents: Contents|
        #![trigger good(k), kept(contents)]
        0 <= k < 7 && kept(contents) implies if good(k) {
        crate::walk::goes_to(round(k), contents, answers, start(k), start(k + 1), kept)
    } else {
        crate::walk::walked(round(k), 0, round(k).len() as int, contents, answers, start(k)) is None
    } by {
        lemma_tiles_sizes(k, contents, answers, start(k));
    }
    crate::walk::law_rounds_keep_what_each_keeps(7, round, start, good, kept, contents, answers);
    if forall|k: int| 0 <= k < 7 ==> #[trigger] good(k) {
        assert forall|k: int| 0 <= k < 7 implies #[trigger] tiles_sizes(k, answers, 5 * k) by {
            assert(good(k));
        }
    } else {
        let k = choose|k: int| 0 <= k < 7 && !(#[trigger] good(k));
        assert(!tiles_sizes(k, answers, 5 * k));
    }
}

/// The part `end`.
proof fn lemma_tiles_end(contents: Contents, answers: Seq<Answer>)
    requires
        contents.full(),
        tiles_shaped(answers),
    ensures
        match crate::walk::walked(
            crate::categories::c06_shared_memory::sort_uses_shared_memory_end_steps(),
            0,
            1,
            contents,
            answers,
            35,
        ) {
            Some((after, next)) => {
                &&& tiles_end(answers)
                &&& after.full()
                &&& next == 36
            },
            None => !tiles_end(answers),
        },
        crate::categories::c06_shared_memory::sort_uses_shared_memory_end_steps().len() == 1,
{
    let steps = crate::categories::c06_shared_memory::sort_uses_shared_memory_end_steps();
    crate::laws::steps::lemma_command(steps, 0, 1, contents, answers, 35);
    crate::laws::steps::lemma_end(steps, 1, contents, answers, 36);
}

/// The test has no jumps.
proof fn lemma_tiles_straight()
    ensures
        forall|j: int|
            0 <= j < crate::categories::c06_shared_memory::sort_uses_shared_memory_steps().len()
                ==> crate::walk::straight(
                #[trigger] crate::categories::c06_shared_memory::sort_uses_shared_memory_steps()[j],
            ),
{
    let part1 = crate::script::rounds(
        7,
        |k: int| crate::categories::c06_shared_memory::sorted_size_steps(TILE_SIZES@[k]),
    );
    let round1 = |k: int| crate::categories::c06_shared_memory::sorted_size_steps(TILE_SIZES@[k]);
    crate::walk::law_straight_rounds_are_straight(7, round1);
    let part2 = crate::categories::c06_shared_memory::sort_uses_shared_memory_end_steps();
    let whole1 = part1;
    let whole2 = whole1 + part2;
    crate::walk::law_straight_scripts_make_a_straight_one(whole1, part2);
    assert(crate::categories::c06_shared_memory::sort_uses_shared_memory_steps() == whole2);
}

/// The test that sorts tiles passes exactly when, for each size, all rows are left and every number
/// comes back at its place.
pub proof fn law_tiles_pass_exactly_when_sorted(answers: Seq<Answer>)
    requires
        tiles_shaped(answers),
    ensures
        crate::machine::run_of(
            crate::script::plan(
                "test_sort_uses_shared_memory",
                crate::categories::c06_shared_memory::sort_uses_shared_memory_steps(),
            ),
            answers,
        ).progress == Progress::Over(Ending::Passed) <==> {
            &&& forall|k: int|
                0 <= k < 7 ==> #[trigger] tiles_sizes(k, answers, 5 * k)
            &&& tiles_end(answers)
        },
{
    let plan = crate::script::plan(
        "test_sort_uses_shared_memory",
        crate::categories::c06_shared_memory::sort_uses_shared_memory_steps(),
    );
    let blank = Contents::blank(plan.texts);
    let part1 = crate::script::rounds(
        7,
        |k: int| crate::categories::c06_shared_memory::sorted_size_steps(TILE_SIZES@[k]),
    );
    let part2 = crate::categories::c06_shared_memory::sort_uses_shared_memory_end_steps();
    let whole1 = part1;
    let whole2 = whole1 + part2;
    assert(plan.steps == whole2);
    lemma_tiles_sizes_rounds(blank, answers);
    crate::walk::law_walks_over_two_scripts_compose(whole1, part2, blank, answers, 0);
    match crate::walk::walked(whole1, 0, whole1.len() as int, blank, answers, 0) {
        Some((after, _)) => {
            lemma_tiles_end(after, answers);
        },
        None => {},
    }
    lemma_tiles_straight();
    crate::walk::law_passes_exactly_when_every_step_goes_through(plan, answers);
}

/// Whether the answers to the downloads of the test are columns or refusals.
pub open spec fn edges_shaped(answers: Seq<Answer>) -> bool {
    &&& answers.len() >= 76
    &&& forall|k: int| 0 <= k < 15 ==> #[trigger] answers[2 + 5 * k] is Count
    &&& forall|k: int|
        0 <= k < 15 ==> crate::laws::steps::column_or_refusal(#[trigger] answers[3 + 5 * k])
}

/// What the device has to answer in round `k` of the part `sizes`, from answer `used` on.
pub open spec fn edges_sizes(k: int, answers: Seq<Answer>, used: int) -> bool {
    &&& !(answers[used] is Failed)
    &&& !(answers[used + 1] is Failed)
    &&& answers[used + 2]->Count_0 == EDGE_SIZES@[k]
    &&& answers[used + 3] is Words
    &&& crate::laws::steps::counts_up(answers[used + 3]->Words_0)
}

/// What the device has to answer in the part `end`.
pub open spec fn edges_end(answers: Seq<Answer>) -> bool {
    !(answers[75] is Failed)
}

/// One round of the part `sizes`.
proof fn lemma_edges_sizes(k: int, contents: Contents, answers: Seq<Answer>, used: int)
    requires
        0 <= k < 15,
        used == 5 * k,
        contents.full(),
        edges_shaped(answers),
    ensures
        match crate::walk::walked(
            crate::categories::c06_shared_memory::sorted_size_steps(EDGE_SIZES@[k]),
            0,
            8,
            contents,
            answers,
            used,
        ) {
            Some((after, next)) => {
                &&& edges_sizes(k, answers, used)
                &&& after.full()
                &&& next == 5 * (k + 1)
            },
            None => !edges_sizes(k, answers, used),
        },
        crate::categories::c06_shared_memory::sorted_size_steps(EDGE_SIZES@[k]).len() == 8,
{
    let steps = crate::categories::c06_shared_memory::sorted_size_steps(EDGE_SIZES@[k]);
    assert(answers[2 + 5 * k] is Count);
    assert(crate::laws::steps::column_or_refusal(answers[3 + 5 * k]));
    crate::laws::words::lemma_falling(EDGE_SIZES@[k], contents);
    let words1 = crate::laws::words::falling(EDGE_SIZES@[k]);
    crate::laws::steps::lemma_fill(steps, 0, 8, contents, answers, used, words1);
    let next1 = contents.with_column(0, words1);
    crate::laws::steps::lemma_command(steps, 1, 8, next1, answers, used);
    crate::laws::steps::lemma_command(steps, 2, 8, next1, answers, used + 1);
    crate::laws::steps::lemma_number(
        steps,
        3,
        8,
        next1,
        answers,
        used + 2,
        answers[used + 2]->Count_0,
    );
    let next2 = next1.with_register(0, answers[used + 2]->Count_0);
    lemma_count(next2, EDGE_SIZES@[k]);
    crate::laws::steps::lemma_check(
        steps,
        4,
        8,
        next2,
        answers,
        used + 3,
        !(answers[used + 2]->Count_0 == EDGE_SIZES@[k]),
    );
    crate::laws::steps::lemma_download(steps, 5, 8, next2, answers, used + 3);
    if answers[used + 3] is Words {
        let next3 = next2.with_column(1, answers[used + 3]->Words_0);
        crate::laws::steps::lemma_scan_places(steps, 6, 8, next3, answers, used + 4, 1);
        crate::laws::steps::lemma_command(steps, 7, 8, next3, answers, used + 4);
        crate::laws::steps::lemma_end(steps, 8, next3, answers, used + 5);
    }
}

/// All rounds of the part `sizes`.
proof fn lemma_edges_sizes_rounds(contents: Contents, answers: Seq<Answer>)
    requires
        contents.full(),
        edges_shaped(answers),
    ensures
        ({
            let steps = crate::script::rounds(
                15,
                |k: int| crate::categories::c06_shared_memory::sorted_size_steps(EDGE_SIZES@[k]),
            );
            match crate::walk::walked(steps, 0, steps.len() as int, contents, answers, 0) {
                Some((after, next)) => {
                    &&& forall|k: int| 0 <= k < 15 ==> #[trigger] edges_sizes(k, answers, 5 * k)
                    &&& after.full()
                    &&& next == 75
                },
                None => !(forall|k: int|
                    0 <= k < 15 ==> #[trigger] edges_sizes(k, answers, 5 * k)),
            }
        }),
{
    let round = |k: int| crate::categories::c06_shared_memory::sorted_size_steps(EDGE_SIZES@[k]);
    let start = |k: int| 5 * k;
    let good = |k: int| edges_sizes(k, answers, start(k));
    let kept = |contents: Contents| contents.full();
    assert forall|k: int, contents: Contents|
        #![trigger good(k), kept(contents)]
        0 <= k < 15 && kept(contents) implies if good(k) {
        crate::walk::goes_to(round(k), contents, answers, start(k), start(k + 1), kept)
    } else {
        crate::walk::walked(round(k), 0, round(k).len() as int, contents, answers, start(k)) is None
    } by {
        lemma_edges_sizes(k, contents, answers, start(k));
    }
    crate::walk::law_rounds_keep_what_each_keeps(15, round, start, good, kept, contents, answers);
    if forall|k: int| 0 <= k < 15 ==> #[trigger] good(k) {
        assert forall|k: int| 0 <= k < 15 implies #[trigger] edges_sizes(k, answers, 5 * k) by {
            assert(good(k));
        }
    } else {
        let k = choose|k: int| 0 <= k < 15 && !(#[trigger] good(k));
        assert(!edges_sizes(k, answers, 5 * k));
    }
}

/// The part `end`.
proof fn lemma_edges_end(contents: Contents, answers: Seq<Answer>)
    requires
        contents.full(),
        edges_shaped(answers),
    ensures
        match crate::walk::walked(
            crate::categories::c06_shared_memory::block_boundary_shared_mem_end_steps(),
            0,
            1,
            contents,
            answers,
            75,
        ) {
            Some((after, next)) => {
                &&& edges_end(answers)
                &&& after.full()
                &&& next == 76
            },
            None => !edges_end(answers),
        },
        crate::categories::c06_shared_memory::block_boundary_shared_mem_end_steps().len() == 1,
{
    let steps = crate::categories::c06_shared_memory::block_boundary_shared_mem_end_steps();
    crate::laws::steps::lemma_command(steps, 0, 1, contents, answers, 75);
    crate::laws::steps::lemma_end(steps, 1, contents, answers, 76);
}

/// The test has no jumps.
proof fn lemma_edges_straight()
    ensures
        forall|j: int|
            0 <= j < crate::categories::c06_shared_memory::block_boundary_shared_mem_steps().len()
                ==> crate::walk::straight(
                #[trigger] crate::categories::c06_shared_memory::block_boundary_shared_mem_steps()[j],
            ),
{
    let part1 = crate::script::rounds(
        15,
        |k: int| crate::categories::c06_shared_memory::sorted_size_steps(EDGE_SIZES@[k]),
    );
    let round1 = |k: int| crate::categories::c06_shared_memory::sorted_size_steps(EDGE_SIZES@[k]);
    crate::walk::law_straight_rounds_are_straight(15, round1);
    let part2 = crate::categories::c06_shared_memory::block_boundary_shared_mem_end_steps();
    let whole1 = part1;
    let whole2 = whole1 + part2;
    crate::walk::law_straight_scripts_make_a_straight_one(whole1, part2);
    assert(crate::categories::c06_shared_memory::block_boundary_shared_mem_steps() == whole2);
}

/// The test that sorts around the edges of tiles passes exactly when, for each size, all rows are
/// left and every number comes back at its place.
pub proof fn law_tile_edges_pass_exactly_when_sorted(answers: Seq<Answer>)
    requires
        edges_shaped(answers),
    ensures
        crate::machine::run_of(
            crate::script::plan(
                "test_block_boundary_shared_mem",
                crate::categories::c06_shared_memory::block_boundary_shared_mem_steps(),
            ),
            answers,
        ).progress == Progress::Over(Ending::Passed) <==> {
            &&& forall|k: int|
                0 <= k < 15 ==> #[trigger] edges_sizes(k, answers, 5 * k)
            &&& edges_end(answers)
        },
{
    let plan = crate::script::plan(
        "test_block_boundary_shared_mem",
        crate::categories::c06_shared_memory::block_boundary_shared_mem_steps(),
    );
    let blank = Contents::blank(plan.texts);
    let part1 = crate::script::rounds(
        15,
        |k: int| crate::categories::c06_shared_memory::sorted_size_steps(EDGE_SIZES@[k]),
    );
    let part2 = crate::categories::c06_shared_memory::block_boundary_shared_mem_end_steps();
    let whole1 = part1;
    let whole2 = whole1 + part2;
    assert(plan.steps == whole2);
    lemma_edges_sizes_rounds(blank, answers);
    crate::walk::law_walks_over_two_scripts_compose(whole1, part2, blank, answers, 0);
    match crate::walk::walked(whole1, 0, whole1.len() as int, blank, answers, 0) {
        Some((after, _)) => {
            lemma_edges_end(after, answers);
        },
        None => {},
    }
    lemma_edges_straight();
    crate::walk::law_passes_exactly_when_every_step_goes_through(plan, answers);
}

/// Whether the answers to the downloads of the test are columns or refusals.
pub open spec fn banks_shaped(answers: Seq<Answer>) -> bool {
    &&& answers.len() >= 10
    &&& crate::laws::steps::column_or_refusal(answers[2])
    &&& crate::laws::steps::column_or_refusal(answers[5])
    &&& crate::laws::steps::column_or_refusal(answers[8])
}

/// What the device has to answer.
pub open spec fn banks_answers(answers: Seq<Answer>) -> bool {
    &&& !(answers[0] is Failed)
    &&& !(answers[1] is Failed)
    &&& answers[2] is Words
    &&& answers[2]->Words_0 == crate::laws::words::constant(42, 4096)
    &&& !(answers[3] is Failed)
    &&& !(answers[4] is Failed)
    &&& answers[5] is Words
    &&& crate::laws::steps::rises(answers[5]->Words_0)
    &&& !(answers[6] is Failed)
    &&& !(answers[7] is Failed)
    &&& answers[8] is Words
    &&& crate::laws::steps::rises(answers[8]->Words_0)
    &&& !(answers[9] is Failed)
}

/// The steps of the test.
proof fn lemma_banks_answers(contents: Contents, answers: Seq<Answer>)
    requires
        contents.full(),
        banks_shaped(answers),
    ensures
        match crate::walk::walked(
            crate::categories::c06_shared_memory::sort_bank_conflicts_steps(),
            0,
            16,
            contents,
            answers,
            0,
        ) {
            Some((after, next)) => {
                &&& banks_answers(answers)
                &&& after.full()
                &&& next == 10
            },
            None => !banks_answers(answers),
        },
        crate::categories::c06_shared_memory::sort_bank_conflicts_steps().len() == 16,
{
    let steps = crate::categories::c06_shared_memory::sort_bank_conflicts_steps();
    crate::laws::words::lemma_constant(42, 4096, contents);
    let words1 = crate::laws::words::constant(42, 4096);
    crate::laws::steps::lemma_fill(steps, 0, 16, contents, answers, 0, words1);
    let next1 = contents.with_column(0, words1);
    crate::laws::steps::lemma_command(steps, 1, 16, next1, answers, 0);
    crate::laws::steps::lemma_command(steps, 2, 16, next1, answers, 1);
    crate::laws::steps::lemma_download(steps, 3, 16, next1, answers, 2);
    if answers[2] is Words {
        let next2 = next1.with_column(1, answers[2]->Words_0);
        crate::laws::steps::lemma_not_alike(next2, 1, 0);
        crate::laws::steps::lemma_check(
            steps,
            4,
            16,
            next2,
            answers,
            3,
            !(answers[2]->Words_0 == crate::laws::words::constant(42, 4096)),
        );
        lemma_banked(next2);
        let words3 = banked();
        crate::laws::steps::lemma_fill(steps, 5, 16, next2, answers, 3, words3);
        let next3 = next2.with_column(2, words3);
        crate::laws::steps::lemma_command(steps, 6, 16, next3, answers, 3);
        crate::laws::steps::lemma_command(steps, 7, 16, next3, answers, 4);
        crate::laws::steps::lemma_download(steps, 8, 16, next3, answers, 5);
        if answers[5] is Words {
            let next4 = next3.with_column(3, answers[5]->Words_0);
            crate::laws::steps::lemma_scan_order(steps, 9, 16, next4, answers, 6, 3);
            lemma_powers(next4);
            let words5 = powers();
            crate::laws::steps::lemma_fill(steps, 10, 16, next4, answers, 6, words5);
            let next5 = next4.with_column(4, words5);
            crate::laws::steps::lemma_command(steps, 11, 16, next5, answers, 6);
            crate::laws::steps::lemma_command(steps, 12, 16, next5, answers, 7);
            crate::laws::steps::lemma_download(steps, 13, 16, next5, answers, 8);
            if answers[8] is Words {
                let next6 = next5.with_column(5, answers[8]->Words_0);
                crate::laws::steps::lemma_scan_order(steps, 14, 16, next6, answers, 9, 5);
                crate::laws::steps::lemma_command(steps, 15, 16, next6, answers, 9);
                crate::laws::steps::lemma_end(steps, 16, next6, answers, 10);
            }
        }
    }
}

/// The test has no jumps.
proof fn lemma_banks_straight()
    ensures
        forall|j: int|
            0 <= j < crate::categories::c06_shared_memory::sort_bank_conflicts_steps().len()
                ==> crate::walk::straight(
                #[trigger] crate::categories::c06_shared_memory::sort_bank_conflicts_steps()[j],
            ),
{
}

/// The test of keys that fall into the same banks passes exactly when equal keys come back as they
/// were, and the others in rising order.
pub proof fn law_bank_conflicts_pass_exactly_when_sorted(answers: Seq<Answer>)
    requires
        banks_shaped(answers),
    ensures
        crate::machine::run_of(
            crate::script::plan(
                "test_sort_bank_conflicts",
                crate::categories::c06_shared_memory::sort_bank_conflicts_steps(),
            ),
            answers,
        ).progress == Progress::Over(Ending::Passed) <==> banks_answers(answers),
{
    let plan = crate::script::plan(
        "test_sort_bank_conflicts",
        crate::categories::c06_shared_memory::sort_bank_conflicts_steps(),
    );
    let blank = Contents::blank(plan.texts);
    lemma_banks_answers(blank, answers);
    lemma_banks_straight();
    crate::walk::law_passes_exactly_when_every_step_goes_through(plan, answers);
}

/// Whether the answers to the downloads of the test are columns or refusals.
pub open spec fn passes_shaped(answers: Seq<Answer>) -> bool {
    &&& answers.len() >= 5
    &&& answers[2] is Count
    &&& crate::laws::steps::column_or_refusal(answers[3])
}

/// What the device has to answer.
pub open spec fn passes_answers(answers: Seq<Answer>) -> bool {
    &&& !(answers[0] is Failed)
    &&& !(answers[1] is Failed)
    &&& answers[2]->Count_0 == 1000000
    &&& answers[3] is Words
    &&& crate::laws::steps::rises(answers[3]->Words_0)
    &&& crate::laws::steps::counts_up(answers[3]->Words_0)
    &&& !(answers[4] is Failed)
}

/// The steps of the test.
proof fn lemma_passes_answers(contents: Contents, answers: Seq<Answer>)
    requires
        contents.full(),
        passes_shaped(answers),
    ensures
        match crate::walk::walked(
            crate::categories::c06_shared_memory::sort_multiple_passes_steps(),
            0,
            10,
            contents,
            answers,
            0,
        ) {
            Some((after, next)) => {
                &&& passes_answers(answers)
                &&& after.full()
                &&& next == 5
            },
            None => !passes_answers(answers),
        },
        crate::categories::c06_shared_memory::sort_multiple_passes_steps().len() == 10,
{
    let steps = crate::categories::c06_shared_memory::sort_multiple_passes_steps();
    lemma_scrambled(contents);
    let words1 = crate::laws::sorting::scrambled_keys();
    crate::laws::steps::lemma_fill(steps, 0, 10, contents, answers, 0, words1);
    let next1 = contents.with_column(0, words1);
    crate::laws::words::lemma_below(1000000, next1);
    let words2 = crate::laws::words::below(1000000);
    crate::laws::steps::lemma_fill(steps, 1, 10, next1, answers, 0, words2);
    let next2 = next1.with_column(1, words2);
    crate::laws::steps::lemma_command(steps, 2, 10, next2, answers, 0);
    crate::laws::steps::lemma_command(steps, 3, 10, next2, answers, 1);
    crate::laws::steps::lemma_number(steps, 4, 10, next2, answers, 2, answers[2]->Count_0);
    let next3 = next2.with_register(0, answers[2]->Count_0);
    lemma_count(next3, 1000000);
    crate::laws::steps::lemma_check(
        steps,
        5,
        10,
        next3,
        answers,
        3,
        !(answers[2]->Count_0 == 1000000),
    );
    crate::laws::steps::lemma_download(steps, 6, 10, next3, answers, 3);
    if answers[3] is Words {
        let next4 = next3.with_column(2, answers[3]->Words_0);
        crate::laws::steps::lemma_scan_order(steps, 7, 10, next4, answers, 4, 2);
        crate::laws::steps::lemma_scan_places(steps, 8, 10, next4, answers, 4, 2);
        crate::laws::steps::lemma_command(steps, 9, 10, next4, answers, 4);
        crate::laws::steps::lemma_end(steps, 10, next4, answers, 5);
    }
}

/// The test has no jumps.
proof fn lemma_passes_straight()
    ensures
        forall|j: int|
            0 <= j < crate::categories::c06_shared_memory::sort_multiple_passes_steps().len()
                ==> crate::walk::straight(
                #[trigger] crate::categories::c06_shared_memory::sort_multiple_passes_steps()[j],
            ),
{
}

/// The test of a million keys passes exactly when all rows are left and the keys come back in
/// rising order, each at its place.
pub proof fn law_many_passes_pass_exactly_when_sorted(answers: Seq<Answer>)
    requires
        passes_shaped(answers),
    ensures
        crate::machine::run_of(
            crate::script::plan(
                "test_sort_multiple_passes",
                crate::categories::c06_shared_memory::sort_multiple_passes_steps(),
            ),
            answers,
        ).progress == Progress::Over(Ending::Passed) <==> passes_answers(answers),
{
    let plan = crate::script::plan(
        "test_sort_multiple_passes",
        crate::categories::c06_shared_memory::sort_multiple_passes_steps(),
    );
    let blank = Contents::blank(plan.texts);
    lemma_passes_answers(blank, answers);
    lemma_passes_straight();
    crate::walk::law_passes_exactly_when_every_step_goes_through(plan, answers);
}

/// Whether the answers to the downloads of the test are columns or refusals.
pub open spec fn limits_shaped(answers: Seq<Answer>) -> bool {
    &&& answers.len() >= 31
    &&& forall|k: int| 0 <= k < 5 ==> #[trigger] answers[2 + 6 * k] is Count
    &&& forall|k: int|
        0 <= k < 5 ==> crate::laws::steps::column_or_refusal(#[trigger] answers[3 + 6 * k])
    &&& forall|k: int|
        0 <= k < 5 ==> crate::laws::steps::column_or_refusal(#[trigger] answers[4 + 6 * k])
}

/// What the device has to answer in round `k` of the part `sizes`, from answer `used` on.
pub open spec fn limits_sizes(k: int, answers: Seq<Answer>, used: int) -> bool {
    &&& !(answers[used] is Failed)
    &&& !(answers[used + 1] is Failed)
    &&& answers[used + 2]->Count_0 == STRESS_SIZES@[k]
    &&& answers[used + 3] is Words
    &&& answers[used + 4] is Words
    &&& crate::laws::steps::counts_up(answers[used + 3]->Words_0)
    &&& crate::laws::steps::begins_with(
        answers[used + 4]->Words_0,
        crate::laws::words::falling(STRESS_SIZES@[k]),
    )
}

/// What the device has to answer in the part `end`.
pub open spec fn limits_end(answers: Seq<Answer>) -> bool {
    !(answers[30] is Failed)
}

/// One round of the part `sizes`.
proof fn lemma_limits_sizes(k: int, contents: Contents, answers: Seq<Answer>, used: int)
    requires
        0 <= k < 5,
        used == 6 * k,
        contents.full(),
        limits_shaped(answers),
    ensures
        match crate::walk::walked(
            crate::categories::c06_shared_memory::shared_mem_size_limits_sizes_round(k as u64),
            0,
            11,
            contents,
            answers,
            used,
        ) {
            Some((after, next)) => {
                &&& limits_sizes(k, answers, used)
                &&& after.full()
                &&& next == 6 * (k + 1)
            },
            None => !limits_sizes(k, answers, used),
        },
        crate::categories::c06_shared_memory::shared_mem_size_limits_sizes_round(
            k as u64,
        ).len() == 11,
{
    let steps = crate::categories::c06_shared_memory::shared_mem_size_limits_sizes_round(k as u64);
    assert(answers[2 + 6 * k] is Count);
    assert(crate::laws::steps::column_or_refusal(answers[3 + 6 * k]));
    assert(crate::laws::steps::column_or_refusal(answers[4 + 6 * k]));
    crate::laws::words::lemma_falling(STRESS_SIZES@[k], contents);
    let words1 = crate::laws::words::falling(STRESS_SIZES@[k]);
    crate::laws::steps::lemma_fill(steps, 0, 11, contents, answers, used, words1);
    let next1 = contents.with_column(0, words1);
    crate::laws::words::lemma_below(STRESS_SIZES@[k], next1);
    let words2 = crate::laws::words::below(STRESS_SIZES@[k]);
    crate::laws::steps::lemma_fill(steps, 1, 11, next1, answers, used, words2);
    let next2 = next1.with_column(1, words2);
    crate::laws::steps::lemma_command(steps, 2, 11, next2, answers, used);
    crate::laws::steps::lemma_command(steps, 3, 11, next2, answers, used + 1);
    crate::laws::steps::lemma_number(
        steps,
        4,
        11,
        next2,
        answers,
        used + 2,
        answers[used + 2]->Count_0,
    );
    let next3 = next2.with_register(0, answers[used + 2]->Count_0);
    lemma_count(next3, STRESS_SIZES@[k]);
    crate::laws::steps::lemma_check(
        steps,
        5,
        11,
        next3,
        answers,
        used + 3,
        !(answers[used + 2]->Count_0 == STRESS_SIZES@[k]),
    );
    crate::laws::steps::lemma_download(steps, 6, 11, next3, answers, used + 3);
    if answers[used + 3] is Words {
        let next4 = next3.with_column(2, answers[used + 3]->Words_0);
        crate::laws::steps::lemma_download(steps, 7, 11, next4, answers, used + 4);
        if answers[used + 4] is Words {
            let next5 = next4.with_column(3, answers[used + 4]->Words_0);
            crate::laws::steps::lemma_scan_places(steps, 8, 11, next5, answers, used + 5, 2);
            crate::laws::words::lemma_falling(STRESS_SIZES@[k], next5);
            crate::laws::steps::lemma_scan_expected(
                steps,
                9,
                11,
                next5,
                answers,
                used + 5,
                3,
                minus(minus(num(STRESS_SIZES@[k]), num(1)), ix()),
                crate::laws::words::falling(STRESS_SIZES@[k]),
            );
            crate::laws::steps::lemma_command(steps, 10, 11, next5, answers, used + 5);
            crate::laws::steps::lemma_end(steps, 11, next5, answers, used + 6);
        }
    }
}

/// All rounds of the part `sizes`.
proof fn lemma_limits_sizes_rounds(contents: Contents, answers: Seq<Answer>)
    requires
        contents.full(),
        limits_shaped(answers),
    ensures
        ({
            let steps = crate::script::rounds(
                5,
                |k: int| crate::categories::c06_shared_memory::shared_mem_size_limits_sizes_round(
                    k as u64,
                ),
            );
            match crate::walk::walked(steps, 0, steps.len() as int, contents, answers, 0) {
                Some((after, next)) => {
                    &&& forall|k: int| 0 <= k < 5 ==> #[trigger] limits_sizes(k, answers, 6 * k)
                    &&& after.full()
                    &&& next == 30
                },
                None => !(forall|k: int|
                    0 <= k < 5 ==> #[trigger] limits_sizes(k, answers, 6 * k)),
            }
        }),
{
    let round = |k: int| crate::categories::c06_shared_memory::shared_mem_size_limits_sizes_round(
        k as u64,
    );
    let start = |k: int| 6 * k;
    let good = |k: int| limits_sizes(k, answers, start(k));
    let kept = |contents: Contents| contents.full();
    assert forall|k: int, contents: Contents|
        #![trigger good(k), kept(contents)]
        0 <= k < 5 && kept(contents) implies if good(k) {
        crate::walk::goes_to(round(k), contents, answers, start(k), start(k + 1), kept)
    } else {
        crate::walk::walked(round(k), 0, round(k).len() as int, contents, answers, start(k)) is None
    } by {
        lemma_limits_sizes(k, contents, answers, start(k));
    }
    crate::walk::law_rounds_keep_what_each_keeps(5, round, start, good, kept, contents, answers);
    if forall|k: int| 0 <= k < 5 ==> #[trigger] good(k) {
        assert forall|k: int| 0 <= k < 5 implies #[trigger] limits_sizes(k, answers, 6 * k) by {
            assert(good(k));
        }
    } else {
        let k = choose|k: int| 0 <= k < 5 && !(#[trigger] good(k));
        assert(!limits_sizes(k, answers, 6 * k));
    }
}

/// The part `end`.
proof fn lemma_limits_end(contents: Contents, answers: Seq<Answer>)
    requires
        contents.full(),
        limits_shaped(answers),
    ensures
        match crate::walk::walked(
            crate::categories::c06_shared_memory::shared_mem_size_limits_end_steps(),
            0,
            1,
            contents,
            answers,
            30,
        ) {
            Some((after, next)) => {
                &&& limits_end(answers)
                &&& after.full()
                &&& next == 31
            },
            None => !limits_end(answers),
        },
        crate::categories::c06_shared_memory::shared_mem_size_limits_end_steps().len() == 1,
{
    let steps = crate::categories::c06_shared_memory::shared_mem_size_limits_end_steps();
    crate::laws::steps::lemma_command(steps, 0, 1, contents, answers, 30);
    crate::laws::steps::lemma_end(steps, 1, contents, answers, 31);
}

/// The test has no jumps.
proof fn lemma_limits_straight()
    ensures
        forall|j: int|
            0 <= j < crate::categories::c06_shared_memory::shared_mem_size_limits_steps().len()
                ==> crate::walk::straight(
                #[trigger] crate::categories::c06_shared_memory::shared_mem_size_limits_steps()[j],
            ),
{
    let part1 = crate::script::rounds(
        5,
        |k: int| crate::categories::c06_shared_memory::shared_mem_size_limits_sizes_round(k as u64),
    );
    let round1 = |k: int| crate::categories::c06_shared_memory::shared_mem_size_limits_sizes_round(
        k as u64,
    );
    crate::walk::law_straight_rounds_are_straight(5, round1);
    let part2 = crate::categories::c06_shared_memory::shared_mem_size_limits_end_steps();
    let whole1 = part1;
    let whole2 = whole1 + part2;
    crate::walk::law_straight_scripts_make_a_straight_one(whole1, part2);
    assert(crate::categories::c06_shared_memory::shared_mem_size_limits_steps() == whole2);
}

/// The test of large tables passes exactly when, for each size, all rows are left, the keys come
/// back each at its place, and the values follow them.
pub proof fn law_size_limits_pass_exactly_when_values_follow_their_keys(answers: Seq<Answer>)
    requires
        limits_shaped(answers),
    ensures
        crate::machine::run_of(
            crate::script::plan(
                "test_shared_mem_size_limits",
                crate::categories::c06_shared_memory::shared_mem_size_limits_steps(),
            ),
            answers,
        ).progress == Progress::Over(Ending::Passed) <==> {
            &&& forall|k: int|
                0 <= k < 5 ==> #[trigger] limits_sizes(k, answers, 6 * k)
            &&& limits_end(answers)
        },
{
    let plan = crate::script::plan(
        "test_shared_mem_size_limits",
        crate::categories::c06_shared_memory::shared_mem_size_limits_steps(),
    );
    let blank = Contents::blank(plan.texts);
    let part1 = crate::script::rounds(
        5,
        |k: int| crate::categories::c06_shared_memory::shared_mem_size_limits_sizes_round(k as u64),
    );
    let part2 = crate::categories::c06_shared_memory::shared_mem_size_limits_end_steps();
    let whole1 = part1;
    let whole2 = whole1 + part2;
    assert(plan.steps == whole2);
    lemma_limits_sizes_rounds(blank, answers);
    crate::walk::law_walks_over_two_scripts_compose(whole1, part2, blank, answers, 0);
    match crate::walk::walked(whole1, 0, whole1.len() as int, blank, answers, 0) {
        Some((after, _)) => {
            lemma_limits_end(after, answers);
        },
        None => {},
    }
    lemma_limits_straight();
    crate::walk::law_passes_exactly_when_every_step_goes_through(plan, answers);
}

} // verus!
