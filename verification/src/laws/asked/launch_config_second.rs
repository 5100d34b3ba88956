//! What these tests ask the device in runs that pass: `block_boundary_sizes`,
//! `non_power_of_two_sizes`, `large_grid_sizes`.

use vstd::prelude::*;
use crate::expr::{ix, minus, num};
use crate::machine::Answer;
use crate::scalar::Scalar;
use crate::script::{Layout, Request, Step};
use crate::stage::{Ask, Moment, Thing};

verus! {

/// What the device is asked in round `k` of the part `part1` of `block_boundary_sizes`.
pub open spec fn block_boundary_sizes_part1_asks(k: int) -> Seq<Ask> {
    let words1 = crate::stage::column(
        (crate::categories::c02_launch_config::BLOCK_SIZES@[k] as int),
        |i: int| ((crate::categories::c02_launch_config::BLOCK_SIZES@[k] as int) - 1) - i,
    );
    let table1 = Thing::Table {
        layout: Layout::Val,
        scalar: Scalar::U32,
        columns: seq![words1],
        turn: 0 + 5 * k,
    };
    let sorted1 = Thing::Sorted { of: Box::new(table1), keys: 1, turn: 1 + 5 * k };
    seq![
        Ask::Make(table1),
        Ask::Make(sorted1),
        Ask::Rows(sorted1),
        Ask::Words { of: sorted1, column: 0, scalar: Scalar::U32 },
        Ask::Other(Request::Release { from: 0 }),
    ]
}

/// Round `k` of the part `part1` of `block_boundary_sizes` asks what it should.
proof fn lemma_block_boundary_sizes_part1(m: Moment, steps: Seq<Step>, k: int) -> (n: Moment)
    requires
        0 <= k < 12,
        m.holds(),
        m.at == 0 + 7 * k,
        m.used == 0 + 5 * k,
        0 + 7 * k + 7 <= m.plan.steps.len(),
        forall|j: int| 0 <= j < 7 ==> m.plan.steps[0 + 7 * k + j] == #[trigger] steps[j],
        crate::stage::fills(
            steps[0],
            0,
            num(crate::categories::c02_launch_config::BLOCK_SIZES@[k]),
            minus(minus(num(crate::categories::c02_launch_config::BLOCK_SIZES@[k]), num(1)), ix()),
        ),
        crate::stage::demands(
            steps[1],
            Request::Create { into: 0, layout: Layout::Val, scalar: Scalar::U32, from: 0 },
        ),
        crate::stage::demands(steps[2], Request::Sort { of: 0, keys: 1, into: 1 }),
        crate::stage::counts(steps[3], 1),
        crate::stage::demands(
            steps[4],
            Request::Download { of: 1, column: 0, scalar: Scalar::U32, into: 1 },
        ),
        crate::stage::looks(steps[5]),
        crate::stage::inquires(steps[6], Request::Release { from: 0 }),
    ensures
        n.holds(),
        n.plan == m.plan,
        n.answers == m.answers,
        n.at == 0 + 7 * k + 7,
        n.used == m.used + 5,
        crate::stage::asks(m.plan, m.answers, 0 + 5 * k, block_boundary_sizes_part1_asks(k)),
{
    crate::stage::lemma_full(m);
    crate::stage::lemma_asks_none(m, 0 + 5 * k);
    let list0 = Seq::<Ask>::empty();
    let words1 = crate::stage::column(
        (crate::categories::c02_launch_config::BLOCK_SIZES@[k] as int),
        |i: int| ((crate::categories::c02_launch_config::BLOCK_SIZES@[k] as int) - 1) - i,
    );
    let word1 = minus(
        minus(num(crate::categories::c02_launch_config::BLOCK_SIZES@[k]), num(1)),
        ix(),
    );
    assert forall|i: int| 0 <= i < words1.len() implies crate::stage::meaning(
        word1,
        m.contents,
        i,
    ) as u64 == #[trigger] words1[i] by {
        reveal_with_fuel(crate::stage::meaning, 4);
    }
    let m1 = crate::stage::lemma_filled(
        m,
        steps[0],
        0,
        num(crate::categories::c02_launch_config::BLOCK_SIZES@[k]),
        word1,
        words1,
    );
    let table1 = Thing::Table {
        layout: Layout::Val,
        scalar: Scalar::U32,
        columns: seq![words1],
        turn: 0 + 5 * k,
    };
    let m2 = crate::stage::lemma_create(m1, steps[1], 0, Layout::Val, Scalar::U32, 0, table1);
    crate::stage::lemma_asks_more(m, 0 + 5 * k, list0, Ask::Make(table1));
    let list1 = list0.push(Ask::Make(table1));
    let sorted1 = Thing::Sorted { of: Box::new(table1), keys: 1, turn: 1 + 5 * k };
    let m3 = crate::stage::lemma_sort(m2, steps[2], 0, 1, 1, table1, sorted1);
    crate::stage::lemma_asks_more(m, 0 + 5 * k, list1, Ask::Make(sorted1));
    let list2 = list1.push(Ask::Make(sorted1));
    let m4 = crate::stage::lemma_count(m3, steps[3], 1, sorted1);
    crate::stage::lemma_asks_more(m, 0 + 5 * k, list2, Ask::Rows(sorted1));
    let list3 = list2.push(Ask::Rows(sorted1));
    let m5 = crate::stage::lemma_download(m4, steps[4], 1, 0, Scalar::U32, 1, sorted1);
    crate::stage::lemma_asks_more(
        m,
        0 + 5 * k,
        list3,
        Ask::Words { of: sorted1, column: 0, scalar: Scalar::U32 },
    );
    let list4 = list3.push(Ask::Words { of: sorted1, column: 0, scalar: Scalar::U32 });
    let m6 = crate::stage::lemma_look(m5, steps[5]);
    let m7 = crate::stage::lemma_release(m6, steps[6], 0);
    crate::stage::lemma_asks_more(m, 0 + 5 * k, list4, Ask::Other(Request::Release { from: 0 }));
    let list5 = list4.push(Ask::Other(Request::Release { from: 0 }));
    assert(block_boundary_sizes_part1_asks(k) == list5);
    m7
}

/// The steps of the part `part1` of `block_boundary_sizes`.
proof fn lemma_block_boundary_sizes_part1_steps(k: int)
    ensures
        ({
            let steps = crate::categories::c02_launch_config::sorted_size_steps(
                crate::categories::c02_launch_config::BLOCK_SIZES@[k],
            );
            &&& steps.len() == 7
            &&& crate::stage::fills(
                steps[0],
                0,
                num(crate::categories::c02_launch_config::BLOCK_SIZES@[k]),
                minus(
                    minus(num(crate::categories::c02_launch_config::BLOCK_SIZES@[k]), num(1)),
                    ix(),
                ),
            )
            &&& crate::stage::demands(
                steps[1],
                Request::Create { into: 0, layout: Layout::Val, scalar: Scalar::U32, from: 0 },
            )
            &&& crate::stage::demands(steps[2], Request::Sort { of: 0, keys: 1, into: 1 })
            &&& crate::stage::counts(steps[3], 1)
            &&& crate::stage::demands(
                steps[4],
                Request::Download { of: 1, column: 0, scalar: Scalar::U32, into: 1 },
            )
            &&& crate::stage::looks(steps[5])
            &&& crate::stage::inquires(steps[6], Request::Release { from: 0 })
        }),
{
}

/// The first `k` rounds of the part `part1` of `block_boundary_sizes` ask what they should.
proof fn lemma_block_boundary_sizes_part1_rounds(m: Moment, part: Seq<Step>, k: int) -> (n: Moment)
    requires
        0 <= k <= 12,
        m.holds(),
        m.at == 0,
        m.used == 0 + 5 * 0,
        m.at + 84 <= m.plan.steps.len(),
        part == crate::script::rounds(
            12,
            |k: int| crate::categories::c02_launch_config::sorted_size_steps(
                crate::categories::c02_launch_config::BLOCK_SIZES@[k],
            ),
        ),
        forall|j: int| 0 <= j < 84 ==> m.plan.steps[0 + j] == #[trigger] part[j],
    ensures
        n.holds(),
        n.plan == m.plan,
        n.answers == m.answers,
        n.at == 0 + 7 * k,
        n.used == 0 + 5 * k,
        forall|j: int|
            0 <= j < k ==> crate::stage::asks(
                m.plan,
                m.answers,
                0 + 5 * j,
                #[trigger] block_boundary_sizes_part1_asks(j),
            ),
    decreases k,
{
    if k == 0 {
        m
    } else {
        let round = |k: int| crate::categories::c02_launch_config::sorted_size_steps(
            crate::categories::c02_launch_config::BLOCK_SIZES@[k],
        );
        let before = lemma_block_boundary_sizes_part1_rounds(m, part, k - 1);
        assert forall|j: int| 0 <= j < 7 implies m.plan.steps[before.at + j] == #[trigger] crate::categories::c02_launch_config::sorted_size_steps(
            crate::categories::c02_launch_config::BLOCK_SIZES@[k - 1],
        )[j] by {
            assert forall|k: int| 0 <= k < 12 implies (#[trigger] round(k)).len() == 7 by {
                lemma_block_boundary_sizes_part1_steps(k);
            }
            crate::stage::lemma_round_place(12, round, 7, k - 1, j);
            assert(part[(k - 1) * 7 + j] == round(k - 1)[j]);
        }
        lemma_block_boundary_sizes_part1_steps(k - 1);
        lemma_block_boundary_sizes_part1(
            before,
            crate::categories::c02_launch_config::sorted_size_steps(
                crate::categories::c02_launch_config::BLOCK_SIZES@[k - 1],
            ),
            k - 1,
        )
    }
}

/// What the device is asked in the part `end` of `block_boundary_sizes`.
pub open spec fn block_boundary_sizes_end_asks() -> Seq<Ask> {
    seq![Ask::Other(Request::Sync)]
}

/// The part `end` of `block_boundary_sizes` asks what it should.
proof fn lemma_block_boundary_sizes_end(m: Moment, steps: Seq<Step>) -> (n: Moment)
    requires
        m.holds(),
        m.at == 84,
        m.used == 60,
        84 + 1 <= m.plan.steps.len(),
        forall|j: int| 0 <= j < 1 ==> m.plan.steps[84 + j] == #[trigger] steps[j],
        crate::stage::demands(steps[0], Request::Sync),
    ensures
        n.holds(),
        n.plan == m.plan,
        n.answers == m.answers,
        n.at == 84 + 1,
        n.used == m.used + 1,
        crate::stage::asks(m.plan, m.answers, 60, block_boundary_sizes_end_asks()),
{
    crate::stage::lemma_full(m);
    crate::stage::lemma_asks_none(m, 60);
    let list0 = Seq::<Ask>::empty();
    let m1 = crate::stage::lemma_sync(m, steps[0]);
    crate::stage::lemma_asks_more(m, 60, list0, Ask::Other(Request::Sync));
    let list1 = list0.push(Ask::Other(Request::Sync));
    assert(block_boundary_sizes_end_asks() == list1);
    m1
}

/// The steps of the part `end` of `block_boundary_sizes`.
proof fn lemma_block_boundary_sizes_end_steps()
    ensures
        ({
            let steps = crate::categories::c02_launch_config::block_boundary_sizes_end_steps();
            &&& steps.len() == 1
            &&& crate::stage::demands(steps[0], Request::Sync)
        }),
{
}

/// In a run of `block_boundary_sizes` that passes the device is asked this, in this order, and
/// nothing else: each request about what an earlier one made is about that, and about what was
/// uploaded for it.
pub proof fn law_block_boundary_sizes_asks_about_what_it_made(answers: Seq<Answer>)
    requires
        crate::stage::passes(
            crate::script::plan(
                "block_boundary_sizes",
                crate::categories::c02_launch_config::block_boundary_sizes_steps(),
            ),
            answers,
        ),
    ensures
        forall|k: int|
            0 <= k < 12 ==> crate::stage::asks(
                crate::script::plan(
                    "block_boundary_sizes",
                    crate::categories::c02_launch_config::block_boundary_sizes_steps(),
                ),
                answers,
                0 + 5 * k,
                #[trigger] block_boundary_sizes_part1_asks(k),
            ),
        crate::stage::asks(
            crate::script::plan(
                "block_boundary_sizes",
                crate::categories::c02_launch_config::block_boundary_sizes_steps(),
            ),
            answers,
            60,
            block_boundary_sizes_end_asks(),
        ),
        crate::stage::asked(
            crate::script::plan(
                "block_boundary_sizes",
                crate::categories::c02_launch_config::block_boundary_sizes_steps(),
            ),
            answers,
            61,
        ) is None,
{
    let plan = crate::script::plan(
        "block_boundary_sizes",
        crate::categories::c02_launch_config::block_boundary_sizes_steps(),
    );
    let round1 = |k: int| crate::categories::c02_launch_config::sorted_size_steps(
        crate::categories::c02_launch_config::BLOCK_SIZES@[k],
    );
    let part1 = crate::script::rounds(12, round1);
    assert forall|k: int| 0 <= k < 12 implies (#[trigger] round1(k)).len() == 7 by {
        lemma_block_boundary_sizes_part1_steps(k);
    }
    crate::stage::lemma_rounds_length(12, round1, 7);
    let part2 = crate::categories::c02_launch_config::block_boundary_sizes_end_steps();
    lemma_block_boundary_sizes_end_steps();
    let whole1 = part1;
    let whole2 = whole1 + part2;
    assert(plan.steps == whole2);
    let m0 = crate::stage::lemma_start(plan, answers);
    assert forall|j: int| 0 <= j < 84 implies plan.steps[0 + j] == #[trigger] part1[j] by {}
    let m1 = lemma_block_boundary_sizes_part1_rounds(m0, part1, 12);
    assert forall|j: int| 0 <= j < 1 implies plan.steps[84 + j] == #[trigger] part2[j] by {}
    let m2 = lemma_block_boundary_sizes_end(m1, part2);
    crate::stage::lemma_end(m2);
}

/// What the device is asked in round `k` of the part `part1` of `non_power_of_two_sizes`.
pub open spec fn non_power_of_two_sizes_part1_asks(k: int) -> Seq<Ask> {
    let words1 = crate::stage::column(
        (crate::categories::c02_launch_config::PRIME_SIZES@[k] as int),
        |i: int| ((crate::categories::c02_launch_config::PRIME_SIZES@[k] as int) - 1) - i,
    );
    let table1 = Thing::Table {
        layout: Layout::Val,
        scalar: Scalar::U32,
        columns: seq![words1],
        turn: 0 + 5 * k,
    };
    let sorted1 = Thing::Sorted { of: Box::new(table1), keys: 1, turn: 1 + 5 * k };
    seq![
        Ask::Make(table1),
        Ask::Make(sorted1),
        Ask::Rows(sorted1),
        Ask::Words { of: sorted1, column: 0, scalar: Scalar::U32 },
        Ask::Other(Request::Release { from: 0 }),
    ]
}

/// Round `k` of the part `part1` of `non_power_of_two_sizes` asks what it should.
proof fn lemma_non_power_of_two_sizes_part1(m: Moment, steps: Seq<Step>, k: int) -> (n: Moment)
    requires
        0 <= k < 12,
        m.holds(),
        m.at == 0 + 7 * k,
        m.used == 0 + 5 * k,
        0 + 7 * k + 7 <= m.plan.steps.len(),
        forall|j: int| 0 <= j < 7 ==> m.plan.steps[0 + 7 * k + j] == #[trigger] steps[j],
        crate::stage::fills(
            steps[0],
            0,
            num(crate::categories::c02_launch_config::PRIME_SIZES@[k]),
            minus(minus(num(crate::categories::c02_launch_config::PRIME_SIZES@[k]), num(1)), ix()),
        ),
        crate::stage::demands(
            steps[1],
            Request::Create { into: 0, layout: Layout::Val, scalar: Scalar::U32, from: 0 },
        ),
        crate::stage::demands(steps[2], Request::Sort { of: 0, keys: 1, into: 1 }),
        crate::stage::counts(steps[3], 1),
        crate::stage::demands(
            steps[4],
            Request::Download { of: 1, column: 0, scalar: Scalar::U32, into: 1 },
        ),
        crate::stage::looks(steps[5]),
        crate::stage::inquires(steps[6], Request::Release { from: 0 }),
    ensures
        n.holds(),
        n.plan == m.plan,
        n.answers == m.answers,
        n.at == 0 + 7 * k + 7,
        n.used == m.used + 5,
        crate::stage::asks(m.plan, m.answers, 0 + 5 * k, non_power_of_two_sizes_part1_asks(k)),
{
    crate::stage::lemma_full(m);
    crate::stage::lemma_asks_none(m, 0 + 5 * k);
    let list0 = Seq::<Ask>::empty();
    let words1 = crate::stage::column(
        (crate::categories::c02_launch_config::PRIME_SIZES@[k] as int),
        |i: int| ((crate::categories::c02_launch_config::PRIME_SIZES@[k] as int) - 1) - i,
    );
    let word1 = minus(
        minus(num(crate::categories::c02_launch_config::PRIME_SIZES@[k]), num(1)),
        ix(),
    );
    assert forall|i: int| 0 <= i < words1.len() implies crate::stage::meaning(
        word1,
        m.contents,
        i,
    ) as u64 == #[trigger] words1[i] by {
        reveal_with_fuel(crate::stage::meaning, 4);
    }
    let m1 = crate::stage::lemma_filled(
        m,
        steps[0],
        0,
        num(crate::categories::c02_launch_config::PRIME_SIZES@[k]),
        word1,
        words1,
    );
    let table1 = Thing::Table {
        layout: Layout::Val,
        scalar: Scalar::U32,
        columns: seq![words1],
        turn: 0 + 5 * k,
    };
    let m2 = crate::stage::lemma_create(m1, steps[1], 0, Layout::Val, Scalar::U32, 0, table1);
    crate::stage::lemma_asks_more(m, 0 + 5 * k, list0, Ask::Make(table1));
    let list1 = list0.push(Ask::Make(table1));
    let sorted1 = Thing::Sorted { of: Box::new(table1), keys: 1, turn: 1 + 5 * k };
    let m3 = crate::stage::lemma_sort(m2, steps[2], 0, 1, 1, table1, sorted1);
    crate::stage::lemma_asks_more(m, 0 + 5 * k, list1, Ask::Make(sorted1));
    let list2 = list1.push(Ask::Make(sorted1));
    let m4 = crate::stage::lemma_count(m3, steps[3], 1, sorted1);
    crate::stage::lemma_asks_more(m, 0 + 5 * k, list2, Ask::Rows(sorted1));
    let list3 = list2.push(Ask::Rows(sorted1));
    let m5 = crate::stage::lemma_download(m4, steps[4], 1, 0, Scalar::U32, 1, sorted1);
    crate::stage::lemma_asks_more(
        m,
        0 + 5 * k,
        list3,
        Ask::Words { of: sorted1, column: 0, scalar: Scalar::U32 },
    );
    let list4 = list3.push(Ask::Words { of: sorted1, column: 0, scalar: Scalar::U32 });
    let m6 = crate::stage::lemma_look(m5, steps[5]);
    let m7 = crate::stage::lemma_release(m6, steps[6], 0);
    crate::stage::lemma_asks_more(m, 0 + 5 * k, list4, Ask::Other(Request::Release { from: 0 }));
    let list5 = list4.push(Ask::Other(Request::Release { from: 0 }));
    assert(non_power_of_two_sizes_part1_asks(k) == list5);
    m7
}

/// The steps of the part `part1` of `non_power_of_two_sizes`.
proof fn lemma_non_power_of_two_sizes_part1_steps(k: int)
    ensures
        ({
            let steps = crate::categories::c02_launch_config::sorted_size_steps(
                crate::categories::c02_launch_config::PRIME_SIZES@[k],
            );
            &&& steps.len() == 7
            &&& crate::stage::fills(
                steps[0],
                0,
                num(crate::categories::c02_launch_config::PRIME_SIZES@[k]),
                minus(
                    minus(num(crate::categories::c02_launch_config::PRIME_SIZES@[k]), num(1)),
                    ix(),
                ),
            )
            &&& crate::stage::demands(
                steps[1],
                Request::Create { into: 0, layout: Layout::Val, scalar: Scalar::U32, from: 0 },
            )
            &&& crate::stage::demands(steps[2], Request::Sort { of: 0, keys: 1, into: 1 })
            &&& crate::stage::counts(steps[3], 1)
            &&& crate::stage::demands(
                steps[4],
                Request::Download { of: 1, column: 0, scalar: Scalar::U32, into: 1 },
            )
            &&& crate::stage::looks(steps[5])
            &&& crate::stage::inquires(steps[6], Request::Release { from: 0 })
        }),
{
}

/// The first `k` rounds of the part `part1` of `non_power_of_two_sizes` ask what they should.
proof fn lemma_non_power_of_two_sizes_part1_rounds(
    m: Moment,
    part: Seq<Step>,
    k: int,
) -> (n: Moment)
    requires
        0 <= k <= 12,
        m.holds(),
        m.at == 0,
        m.used == 0 + 5 * 0,
        m.at + 84 <= m.plan.steps.len(),
        part == crate::script::rounds(
            12,
            |k: int| crate::categories::c02_launch_config::sorted_size_steps(
                crate::categories::c02_launch_config::PRIME_SIZES@[k],
            ),
        ),
        forall|j: int| 0 <= j < 84 ==> m.plan.steps[0 + j] == #[trigger] part[j],
    ensures
        n.holds(),
        n.plan == m.plan,
        n.answers == m.answers,
        n.at == 0 + 7 * k,
        n.used == 0 + 5 * k,
        forall|j: int|
            0 <= j < k ==> crate::stage::asks(
                m.plan,
                m.answers,
                0 + 5 * j,
                #[trigger] non_power_of_two_sizes_part1_asks(j),
            ),
    decreases k,
{
    if k == 0 {
        m
    } else {
        let round = |k: int| crate::categories::c02_launch_config::sorted_size_steps(
            crate::categories::c02_launch_config::PRIME_SIZES@[k],
        );
        let before = lemma_non_power_of_two_sizes_part1_rounds(m, part, k - 1);
        assert forall|j: int| 0 <= j < 7 implies m.plan.steps[before.at + j] == #[trigger] crate::categories::c02_launch_config::sorted_size_steps(
            crate::categories::c02_launch_config::PRIME_SIZES@[k - 1],
        )[j] by {
            assert forall|k: int| 0 <= k < 12 implies (#[trigger] round(k)).len() == 7 by {
                lemma_non_power_of_two_sizes_part1_steps(k);
            }
            crate::stage::lemma_round_place(12, round, 7, k - 1, j);
            assert(part[(k - 1) * 7 + j] == round(k - 1)[j]);
        }
        lemma_non_power_of_two_sizes_part1_steps(k - 1);
        lemma_non_power_of_two_sizes_part1(
            before,
            crate::categories::c02_launch_config::sorted_size_steps(
                crate::categories::c02_launch_config::PRIME_SIZES@[k - 1],
            ),
            k - 1,
        )
    }
}

/// What the device is asked in the part `end` of `non_power_of_two_sizes`.
pub open spec fn non_power_of_two_sizes_end_asks() -> Seq<Ask> {
    seq![Ask::Other(Request::Sync)]
}

/// The part `end` of `non_power_of_two_sizes` asks what it should.
proof fn lemma_non_power_of_two_sizes_end(m: Moment, steps: Seq<Step>) -> (n: Moment)
    requires
        m.holds(),
        m.at == 84,
        m.used == 60,
        84 + 1 <= m.plan.steps.len(),
        forall|j: int| 0 <= j < 1 ==> m.plan.steps[84 + j] == #[trigger] steps[j],
        crate::stage::demands(steps[0], Request::Sync),
    ensures
        n.holds(),
        n.plan == m.plan,
        n.answers == m.answers,
        n.at == 84 + 1,
        n.used == m.used + 1,
        crate::stage::asks(m.plan, m.answers, 60, non_power_of_two_sizes_end_asks()),
{
    crate::stage::lemma_full(m);
    crate::stage::lemma_asks_none(m, 60);
    let list0 = Seq::<Ask>::empty();
    let m1 = crate::stage::lemma_sync(m, steps[0]);
    crate::stage::lemma_asks_more(m, 60, list0, Ask::Other(Request::Sync));
    let list1 = list0.push(Ask::Other(Request::Sync));
    assert(non_power_of_two_sizes_end_asks() == list1);
    m1
}

/// The steps of the part `end` of `non_power_of_two_sizes`.
proof fn lemma_non_power_of_two_sizes_end_steps()
    ensures
        ({
            let steps = crate::categories::c02_launch_config::non_power_of_two_sizes_end_steps();
            &&& steps.len() == 1
            &&& crate::stage::demands(steps[0], Request::Sync)
        }),
{
}

/// In a run of `non_power_of_two_sizes` that passes the device is asked this, in this order, and
/// nothing else: each request about what an earlier one made is about that, and about what was
/// uploaded for it.
pub proof fn law_non_power_of_two_sizes_asks_about_what_it_made(answers: Seq<Answer>)
    requires
        crate::stage::passes(
            crate::script::plan(
                "non_power_of_two_sizes",
                crate::categories::c02_launch_config::non_power_of_two_sizes_steps(),
            ),
            answers,
        ),
    ensures
        forall|k: int|
            0 <= k < 12 ==> crate::stage::asks(
                crate::script::plan(
                    "non_power_of_two_sizes",
                    crate::categories::c02_launch_config::non_power_of_two_sizes_steps(),
                ),
                answers,
                0 + 5 * k,
                #[trigger] non_power_of_two_sizes_part1_asks(k),
            ),
        crate::stage::asks(
            crate::script::plan(
                "non_power_of_two_sizes",
                crate::categories::c02_launch_config::non_power_of_two_sizes_steps(),
            ),
            answers,
            60,
            non_power_of_two_sizes_end_asks(),
        ),
        crate::stage::asked(
            crate::script::plan(
                "non_power_of_two_sizes",
                crate::categories::c02_launch_config::non_power_of_two_sizes_steps(),
            ),
            answers,
            61,
        ) is None,
{
    let plan = crate::script::plan(
        "non_power_of_two_sizes",
        crate::categories::c02_launch_config::non_power_of_two_sizes_steps(),
    );
    let round1 = |k: int| crate::categories::c02_launch_config::sorted_size_steps(
        crate::categories::c02_launch_config::PRIME_SIZES@[k],
    );
    let part1 = crate::script::rounds(12, round1);
    assert forall|k: int| 0 <= k < 12 implies (#[trigger] round1(k)).len() == 7 by {
        lemma_non_power_of_two_sizes_part1_steps(k);
    }
    crate::stage::lemma_rounds_length(12, round1, 7);
    let part2 = crate::categories::c02_launch_config::non_power_of_two_sizes_end_steps();
    lemma_non_power_of_two_sizes_end_steps();
    let whole1 = part1;
    let whole2 = whole1 + part2;
    assert(plan.steps == whole2);
    let m0 = crate::stage::lemma_start(plan, answers);
    assert forall|j: int| 0 <= j < 84 implies plan.steps[0 + j] == #[trigger] part1[j] by {}
    let m1 = lemma_non_power_of_two_sizes_part1_rounds(m0, part1, 12);
    assert forall|j: int| 0 <= j < 1 implies plan.steps[84 + j] == #[trigger] part2[j] by {}
    let m2 = lemma_non_power_of_two_sizes_end(m1, part2);
    crate::stage::lemma_end(m2);
}

/// What the device is asked in the part `start` of `large_grid_sizes`.
pub open spec fn large_grid_sizes_start_asks() -> Seq<Ask> {
    let words1 = crate::stage::column(1000000, |i: int| (1000000 - 1) - i);
    let table1 = Thing::Table {
        layout: Layout::Val,
        scalar: Scalar::U32,
        columns: seq![words1],
        turn: 0,
    };
    let sorted1 = Thing::Sorted { of: Box::new(table1), keys: 1, turn: 1 };
    seq![
        Ask::Make(table1),
        Ask::Make(sorted1),
        Ask::Rows(sorted1),
        Ask::Words { of: sorted1, column: 0, scalar: Scalar::U32 },
    ]
}

/// The part `start` of `large_grid_sizes` asks what it should.
proof fn lemma_large_grid_sizes_start(m: Moment, steps: Seq<Step>) -> (n: Moment)
    requires
        m.holds(),
        m.at == 0,
        m.used == 0,
        0 + 8 <= m.plan.steps.len(),
        forall|j: int| 0 <= j < 8 ==> m.plan.steps[0 + j] == #[trigger] steps[j],
        crate::stage::fills(steps[0], 0, num(1000000), minus(minus(num(1000000), num(1)), ix())),
        crate::stage::demands(
            steps[1],
            Request::Create { into: 0, layout: Layout::Val, scalar: Scalar::U32, from: 0 },
        ),
        crate::stage::demands(steps[2], Request::Sort { of: 0, keys: 1, into: 1 }),
        crate::stage::counts(steps[3], 1),
        crate::stage::demands(
            steps[4],
            Request::Download { of: 1, column: 0, scalar: Scalar::U32, into: 1 },
        ),
        crate::stage::looks(steps[5]),
        crate::stage::looks(steps[6]),
        crate::stage::looks(steps[7]),
    ensures
        n.holds(),
        n.plan == m.plan,
        n.answers == m.answers,
        n.at == 0 + 8,
        n.used == m.used + 4,
        crate::stage::asks(m.plan, m.answers, 0, large_grid_sizes_start_asks()),
{
    crate::stage::lemma_full(m);
    crate::stage::lemma_asks_none(m, 0);
    let list0 = Seq::<Ask>::empty();
    let words1 = crate::stage::column(1000000, |i: int| (1000000 - 1) - i);
    let word1 = minus(minus(num(1000000), num(1)), ix());
    assert forall|i: int| 0 <= i < words1.len() implies crate::stage::meaning(
        word1,
        m.contents,
        i,
    ) as u64 == #[trigger] words1[i] by {
        reveal_with_fuel(crate::stage::meaning, 4);
    }
    let m1 = crate::stage::lemma_filled(m, steps[0], 0, num(1000000), word1, words1);
    let table1 = Thing::Table {
        layout: Layout::Val,
        scalar: Scalar::U32,
        columns: seq![words1],
        turn: 0,
    };
    let m2 = crate::stage::lemma_create(m1, steps[1], 0, Layout::Val, Scalar::U32, 0, table1);
    crate::stage::lemma_asks_more(m, 0, list0, Ask::Make(table1));
    let list1 = list0.push(Ask::Make(table1));
    let sorted1 = Thing::Sorted { of: Box::new(table1), keys: 1, turn: 1 };
    let m3 = crate::stage::lemma_sort(m2, steps[2], 0, 1, 1, table1, sorted1);
    crate::stage::lemma_asks_more(m, 0, list1, Ask::Make(sorted1));
    let list2 = list1.push(Ask::Make(sorted1));
    let m4 = crate::stage::lemma_count(m3, steps[3], 1, sorted1);
    crate::stage::lemma_asks_more(m, 0, list2, Ask::Rows(sorted1));
    let list3 = list2.push(Ask::Rows(sorted1));
    let m5 = crate::stage::lemma_download(m4, steps[4], 1, 0, Scalar::U32, 1, sorted1);
    crate::stage::lemma_asks_more(
        m,
        0,
        list3,
        Ask::Words { of: sorted1, column: 0, scalar: Scalar::U32 },
    );
    let list4 = list3.push(Ask::Words { of: sorted1, column: 0, scalar: Scalar::U32 });
    let m6 = crate::stage::lemma_look(m5, steps[5]);
    let m7 = crate::stage::lemma_look(m6, steps[6]);
    let m8 = crate::stage::lemma_look(m7, steps[7]);
    assert(large_grid_sizes_start_asks() == list4);
    m8
}

/// The steps of the part `start` of `large_grid_sizes`.
proof fn lemma_large_grid_sizes_start_steps()
    ensures
        ({
            let steps = crate::categories::c02_launch_config::large_grid_sizes_start_steps();
            &&& steps.len() == 8
            &&& crate::stage::fills(
                steps[0],
                0,
                num(1000000),
                minus(minus(num(1000000), num(1)), ix()),
            )
            &&& crate::stage::demands(
                steps[1],
                Request::Create { into: 0, layout: Layout::Val, scalar: Scalar::U32, from: 0 },
            )
            &&& crate::stage::demands(steps[2], Request::Sort { of: 0, keys: 1, into: 1 })
            &&& crate::stage::counts(steps[3], 1)
            &&& crate::stage::demands(
                steps[4],
                Request::Download { of: 1, column: 0, scalar: Scalar::U32, into: 1 },
            )
            &&& crate::stage::looks(steps[5])
            &&& crate::stage::looks(steps[6])
            &&& crate::stage::looks(steps[7])
        }),
{
}

/// Round `k` of the part `samples` of `large_grid_sizes` asks what it should.
proof fn lemma_large_grid_sizes_samples(m: Moment, steps: Seq<Step>, k: int) -> (n: Moment)
    requires
        0 <= k < 10,
        m.holds(),
        m.at == 8 + 1 * k,
        m.used == 4 + 0 * k,
        8 + 1 * k + 1 <= m.plan.steps.len(),
        forall|j: int| 0 <= j < 1 ==> m.plan.steps[8 + 1 * k + j] == #[trigger] steps[j],
        crate::stage::looks(steps[0]),
    ensures
        n.holds(),
        n.plan == m.plan,
        n.answers == m.answers,
        n.at == 8 + 1 * k + 1,
        n.used == m.used + 0,
{
    crate::stage::lemma_full(m);
    let m1 = crate::stage::lemma_look(m, steps[0]);
    m1
}

/// The steps of the part `samples` of `large_grid_sizes`.
proof fn lemma_large_grid_sizes_samples_steps(k: int)
    ensures
        ({
            let steps = crate::categories::c02_launch_config::large_grid_sizes_samples_round(
                k as u64,
            );
            &&& steps.len() == 1
            &&& crate::stage::looks(steps[0])
        }),
{
}

/// The first `k` rounds of the part `samples` of `large_grid_sizes` ask what they should.
proof fn lemma_large_grid_sizes_samples_rounds(m: Moment, part: Seq<Step>, k: int) -> (n: Moment)
    requires
        0 <= k <= 10,
        m.holds(),
        m.at == 8,
        m.used == 4 + 0 * 0,
        m.at + 10 <= m.plan.steps.len(),
        part == crate::script::rounds(
            10,
            |k: int| crate::categories::c02_launch_config::large_grid_sizes_samples_round(k as u64),
        ),
        forall|j: int| 0 <= j < 10 ==> m.plan.steps[8 + j] == #[trigger] part[j],
    ensures
        n.holds(),
        n.plan == m.plan,
        n.answers == m.answers,
        n.at == 8 + 1 * k,
        n.used == 4 + 0 * k,
    decreases k,
{
    if k == 0 {
        m
    } else {
        let round = |k: int| crate::categories::c02_launch_config::large_grid_sizes_samples_round(
            k as u64,
        );
        let before = lemma_large_grid_sizes_samples_rounds(m, part, k - 1);
        assert forall|j: int| 0 <= j < 1 implies m.plan.steps[before.at + j] == #[trigger] crate::categories::c02_launch_config::large_grid_sizes_samples_round(
            (k - 1) as u64,
        )[j] by {
            assert forall|k: int| 0 <= k < 10 implies (#[trigger] round(k)).len() == 1 by {
                lemma_large_grid_sizes_samples_steps(k);
            }
            crate::stage::lemma_round_place(10, round, 1, k - 1, j);
            assert(part[(k - 1) * 1 + j] == round(k - 1)[j]);
        }
        lemma_large_grid_sizes_samples_steps(k - 1);
        lemma_large_grid_sizes_samples(
            before,
            crate::categories::c02_launch_config::large_grid_sizes_samples_round((k - 1) as u64),
            k - 1,
        )
    }
}

/// What the device is asked in the part `end` of `large_grid_sizes`.
pub open spec fn large_grid_sizes_end_asks() -> Seq<Ask> {
    seq![Ask::Other(Request::Sync)]
}

/// The part `end` of `large_grid_sizes` asks what it should.
proof fn lemma_large_grid_sizes_end(m: Moment, steps: Seq<Step>) -> (n: Moment)
    requires
        m.holds(),
        m.at == 18,
        m.used == 4,
        18 + 1 <= m.plan.steps.len(),
        forall|j: int| 0 <= j < 1 ==> m.plan.steps[18 + j] == #[trigger] steps[j],
        crate::stage::demands(steps[0], Request::Sync),
    ensures
        n.holds(),
        n.plan == m.plan,
        n.answers == m.answers,
        n.at == 18 + 1,
        n.used == m.used + 1,
        crate::stage::asks(m.plan, m.answers, 4, large_grid_sizes_end_asks()),
{
    crate::stage::lemma_full(m);
    crate::stage::lemma_asks_none(m, 4);
    let list0 = Seq::<Ask>::empty();
    let m1 = crate::stage::lemma_sync(m, steps[0]);
    crate::stage::lemma_asks_more(m, 4, list0, Ask::Other(Request::Sync));
    let list1 = list0.push(Ask::Other(Request::Sync));
    assert(large_grid_sizes_end_asks() == list1);
    m1
}

/// The steps of the part `end` of `large_grid_sizes`.
proof fn lemma_large_grid_sizes_end_steps()
    ensures
        ({
            let steps = crate::categories::c02_launch_config::large_grid_sizes_end_steps();
            &&& steps.len() == 1
            &&& crate::stage::demands(steps[0], Request::Sync)
        }),
{
}

/// In a run of `large_grid_sizes` that passes the device is asked this, in this order, and nothing
/// else: each request about what an earlier one made is about that, and about what was uploaded for
/// it.
pub proof fn law_large_grid_sizes_asks_about_what_it_made(answers: Seq<Answer>)
    requires
        crate::stage::passes(
            crate::script::plan(
                "large_grid_sizes",
                crate::categories::c02_launch_config::large_grid_sizes_steps(),
            ),
            answers,
        ),
    ensures
        crate::stage::asks(
            crate::script::plan(
                "large_grid_sizes",
                crate::categories::c02_launch_config::large_grid_sizes_steps(),
            ),
            answers,
            0,
            large_grid_sizes_start_asks(),
        ),
        crate::stage::asks(
            crate::script::plan(
                "large_grid_sizes",
                crate::categories::c02_launch_config::large_grid_sizes_steps(),
            ),
            answers,
            4,
            large_grid_sizes_end_asks(),
        ),
        crate::stage::asked(
            crate::script::plan(
                "large_grid_sizes",
                crate::categories::c02_launch_config::large_grid_sizes_steps(),
            ),
            answers,
            5,
        ) is None,
{
    let plan = crate::script::plan(
        "large_grid_sizes",
        crate::categories::c02_launch_config::large_grid_sizes_steps(),
    );
    let part1 = crate::categories::c02_launch_config::large_grid_sizes_start_steps();
    lemma_large_grid_sizes_start_steps();
    let round2 = |k: int| crate::categories::c02_launch_config::large_grid_sizes_samples_round(
        k as u64,
    );
    let part2 = crate::script::rounds(10, round2);
    assert forall|k: int| 0 <= k < 10 implies (#[trigger] round2(k)).len() == 1 by {
        lemma_large_grid_sizes_samples_steps(k);
    }
    crate::stage::lemma_rounds_length(10, round2, 1);
    let part3 = crate::categories::c02_launch_config::large_grid_sizes_end_steps();
    lemma_large_grid_sizes_end_steps();
    let whole1 = part1;
    let whole2 = whole1 + part2;
    let whole3 = whole2 + part3;
    assert(plan.steps == whole3);
    let m0 = crate::stage::lemma_start(plan, answers);
    assert forall|j: int| 0 <= j < 8 implies plan.steps[0 + j] == #[trigger] part1[j] by {}
    let m1 = lemma_large_grid_sizes_start(m0, part1);
    assert forall|j: int| 0 <= j < 10 implies plan.steps[8 + j] == #[trigger] part2[j] by {}
    let m2 = lemma_large_grid_sizes_samples_rounds(m1, part2, 10);
    assert forall|j: int| 0 <= j < 1 implies plan.steps[18 + j] == #[trigger] part3[j] by {}
    let m3 = lemma_large_grid_sizes_end(m2, part3);
    crate::stage::lemma_end(m3);
}

} // verus!
