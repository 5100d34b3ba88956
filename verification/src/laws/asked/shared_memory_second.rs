//! What these tests ask the device in runs that pass: `test_block_boundary_shared_mem`,
//! `test_shared_mem_size_limits`.

use vstd::prelude::*;
use crate::expr::{ix, minus, num};
use crate::machine::Answer;
use crate::scalar::Scalar;
use crate::script::{Layout, Request, Step};
use crate::stage::{Ask, Moment, Thing};

verus! {

/// What the device is asked in round `k` of the part `part1` of `test_block_boundary_shared_mem`.
pub open spec fn block_boundary_shared_mem_part1_asks(k: int) -> Seq<Ask> {
    let words1 = crate::stage::column(
        (crate::categories::c06_shared_memory::EDGE_SIZES@[k] as int),
        |i: int| ((crate::categories::c06_shared_memory::EDGE_SIZES@[k] as int) - 1) - i,
    );
    let table1 = Thing::Table {
        layout: Layout::Val,
        scalar: Scalar::U32,
        columns: seq![words1],
        turn: 0 + 5 * k,
    };
    let sorted1 = Thing::Sorted { of: Box::new(table1), keys: 1, turn: 1 + 5 * k };
    seq![
        Ask::Make(table1),
        Ask::Make(sorted1),
        Ask::Handle(sorted1),
        Ask::Words { of: sorted1, column: 0, scalar: Scalar::U32 },
        Ask::Other(Request::Release { from: 0 }),
    ]
}

/// Round `k` of the part `part1` of `test_block_boundary_shared_mem` asks what it should.
proof fn lemma_block_boundary_shared_mem_part1(m: Moment, steps: Seq<Step>, k: int) -> (n: Moment)
    requires
        0 <= k < 15,
        m.holds(),
        m.at == 0 + 8 * k,
        m.used == 0 + 5 * k,
        0 + 8 * k + 8 <= m.plan.steps.len(),
        forall|j: int| 0 <= j < 8 ==> m.plan.steps[0 + 8 * k + j] == #[trigger] steps[j],
        crate::stage::fills(
            steps[0],
            0,
            num(crate::categories::c06_shared_memory::EDGE_SIZES@[k]),
            minus(minus(num(crate::categories::c06_shared_memory::EDGE_SIZES@[k]), num(1)), ix()),
        ),
        crate::stage::demands(
            steps[1],
            Request::Create { into: 0, layout: Layout::Val, scalar: Scalar::U32, from: 0 },
        ),
        crate::stage::demands(steps[2], Request::Sort { of: 0, keys: 1, into: 1 }),
        crate::stage::inquires(steps[3], Request::RowsKnown { of: 1, into: 0 }),
        crate::stage::looks(steps[4]),
        crate::stage::demands(
            steps[5],
            Request::Download { of: 1, column: 0, scalar: Scalar::U32, into: 1 },
        ),
        crate::stage::looks(steps[6]),
        crate::stage::inquires(steps[7], Request::Release { from: 0 }),
    ensures
        n.holds(),
        n.plan == m.plan,
        n.answers == m.answers,
        n.at == 0 + 8 * k + 8,
        n.used == m.used + 5,
        crate::stage::asks(m.plan, m.answers, 0 + 5 * k, block_boundary_shared_mem_part1_asks(k)),
{
    crate::stage::lemma_full(m);
    crate::stage::lemma_asks_none(m, 0 + 5 * k);
    let list0 = Seq::<Ask>::empty();
    let words1 = crate::stage::column(
        (crate::categories::c06_shared_memory::EDGE_SIZES@[k] as int),
        |i: int| ((crate::categories::c06_shared_memory::EDGE_SIZES@[k] as int) - 1) - i,
    );
    let word1 = minus(
        minus(num(crate::categories::c06_shared_memory::EDGE_SIZES@[k]), num(1)),
        ix(),
    );
    assert forall|i: int| 0 <= i < words1.len() implies crate::stage::meaning(
        word1,
        m.contents,
        i,
    ) as u64 == #[trigger] words1[i] by {
        reveal_with_fuel(crate::stage::meaning, 4);
    }
    let m1 = crate::stage::lemma_filled(
        m,
        steps[0],
        0,
        num(crate::categories::c06_shared_memory::EDGE_SIZES@[k]),
        word1,
        words1,
    );
    let table1 = Thing::Table {
        layout: Layout::Val,
        scalar: Scalar::U32,
        columns: seq![words1],
        turn: 0 + 5 * k,
    };
    let m2 = crate::stage::lemma_create(m1, steps[1], 0, Layout::Val, Scalar::U32, 0, table1);
    crate::stage::lemma_asks_more(m, 0 + 5 * k, list0, Ask::Make(table1));
    let list1 = list0.push(Ask::Make(table1));
    let sorted1 = Thing::Sorted { of: Box::new(table1), keys: 1, turn: 1 + 5 * k };
    let m3 = crate::stage::lemma_sort(m2, steps[2], 0, 1, 1, table1, sorted1);
    crate::stage::lemma_asks_more(m, 0 + 5 * k, list1, Ask::Make(sorted1));
    let list2 = list1.push(Ask::Make(sorted1));
    let m4 = crate::stage::lemma_handle(m3, steps[3], 1, 0, sorted1);
    crate::stage::lemma_asks_more(m, 0 + 5 * k, list2, Ask::Handle(sorted1));
    let list3 = list2.push(Ask::Handle(sorted1));
    let m5 = crate::stage::lemma_look(m4, steps[4]);
    let m6 = crate::stage::lemma_download(m5, steps[5], 1, 0, Scalar::U32, 1, sorted1);
    crate::stage::lemma_asks_more(
        m,
        0 + 5 * k,
        list3,
        Ask::Words { of: sorted1, column: 0, scalar: Scalar::U32 },
    );
    let list4 = list3.push(Ask::Words { of: sorted1, column: 0, scalar: Scalar::U32 });
    let m7 = crate::stage::lemma_look(m6, steps[6]);
    let m8 = crate::stage::lemma_release(m7, steps[7], 0);
    crate::stage::lemma_asks_more(m, 0 + 5 * k, list4, Ask::Other(Request::Release { from: 0 }));
    let list5 = list4.push(Ask::Other(Request::Release { from: 0 }));
    assert(block_boundary_shared_mem_part1_asks(k) == list5);
    m8
}

/// The steps of the part `part1` of `test_block_boundary_shared_mem`.
proof fn lemma_block_boundary_shared_mem_part1_steps(k: int)
    ensures
        ({
            let steps = crate::categories::c06_shared_memory::sorted_size_steps(
                crate::categories::c06_shared_memory::EDGE_SIZES@[k],
            );
            &&& steps.len() == 8
            &&& crate::stage::fills(
                steps[0],
                0,
                num(crate::categories::c06_shared_memory::EDGE_SIZES@[k]),
                minus(
                    minus(num(crate::categories::c06_shared_memory::EDGE_SIZES@[k]), num(1)),
                    ix(),
                ),
            )
            &&& crate::stage::demands(
                steps[1],
                Request::Create { into: 0, layout: Layout::Val, scalar: Scalar::U32, from: 0 },
            )
            &&& crate::stage::demands(steps[2], Request::Sort { of: 0, keys: 1, into: 1 })
            &&& crate::stage::inquires(steps[3], Request::RowsKnown { of: 1, into: 0 })
            &&& crate::stage::looks(steps[4])
            &&& crate::stage::demands(
                steps[5],
                Request::Download { of: 1, column: 0, scalar: Scalar::U32, into: 1 },
            )
            &&& crate::stage::looks(steps[6])
            &&& crate::stage::inquires(steps[7], Request::Release { from: 0 })
        }),
{
}

/// The first `k` rounds of the part `part1` of `test_block_boundary_shared_mem` ask what they
/// should.
proof fn lemma_block_boundary_shared_mem_part1_rounds(
    m: Moment,
    part: Seq<Step>,
    k: int,
) -> (n: Moment)
    requires
        0 <= k <= 15,
        m.holds(),
        m.at == 0,
        m.used == 0 + 5 * 0,
        m.at + 120 <= m.plan.steps.len(),
        part == crate::script::rounds(
            15,
            |k: int| crate::categories::c06_shared_memory::sorted_size_steps(
                crate::categories::c06_shared_memory::EDGE_SIZES@[k],
            ),
        ),
        forall|j: int| 0 <= j < 120 ==> m.plan.steps[0 + j] == #[trigger] part[j],
    ensures
        n.holds(),
        n.plan == m.plan,
        n.answers == m.answers,
        n.at == 0 + 8 * k,
        n.used == 0 + 5 * k,
        forall|j: int|
            0 <= j < k ==> crate::stage::asks(
                m.plan,
                m.answers,
                0 + 5 * j,
                #[trigger] block_boundary_shared_mem_part1_asks(j),
            ),
    decreases k,
{
    if k == 0 {
        m
    } else {
        let round = |k: int| crate::categories::c06_shared_memory::sorted_size_steps(
            crate::categories::c06_shared_memory::EDGE_SIZES@[k],
        );
        let before = lemma_block_boundary_shared_mem_part1_rounds(m, part, k - 1);
        assert forall|j: int| 0 <= j < 8 implies m.plan.steps[before.at + j] == #[trigger] crate::categories::c06_shared_memory::sorted_size_steps(
            crate::categories::c06_shared_memory::EDGE_SIZES@[k - 1],
        )[j] by {
            assert forall|k: int| 0 <= k < 15 implies (#[trigger] round(k)).len() == 8 by {
                lemma_block_boundary_shared_mem_part1_steps(k);
            }
            crate::stage::lemma_round_place(15, round, 8, k - 1, j);
            assert(part[(k - 1) * 8 + j] == round(k - 1)[j]);
        }
        lemma_block_boundary_shared_mem_part1_steps(k - 1);
        lemma_block_boundary_shared_mem_part1(
            before,
            crate::categories::c06_shared_memory::sorted_size_steps(
                crate::categories::c06_shared_memory::EDGE_SIZES@[k - 1],
            ),
            k - 1,
        )
    }
}

/// What the device is asked in the part `end` of `test_block_boundary_shared_mem`.
pub open spec fn block_boundary_shared_mem_end_asks() -> Seq<Ask> {
    seq![Ask::Other(Request::Sync)]
}

/// The part `end` of `test_block_boundary_shared_mem` asks what it should.
proof fn lemma_block_boundary_shared_mem_end(m: Moment, steps: Seq<Step>) -> (n: Moment)
    requires
        m.holds(),
        m.at == 120,
        m.used == 75,
        120 + 1 <= m.plan.steps.len(),
        forall|j: int| 0 <= j < 1 ==> m.plan.steps[120 + j] == #[trigger] steps[j],
        crate::stage::demands(steps[0], Request::Sync),
    ensures
        n.holds(),
        n.plan == m.plan,
        n.answers == m.answers,
        n.at == 120 + 1,
        n.used == m.used + 1,
        crate::stage::asks(m.plan, m.answers, 75, block_boundary_shared_mem_end_asks()),
{
    crate::stage::lemma_full(m);
    crate::stage::lemma_asks_none(m, 75);
    let list0 = Seq::<Ask>::empty();
    let m1 = crate::stage::lemma_sync(m, steps[0]);
    crate::stage::lemma_asks_more(m, 75, list0, Ask::Other(Request::Sync));
    let list1 = list0.push(Ask::Other(Request::Sync));
    assert(block_boundary_shared_mem_end_asks() == list1);
    m1
}

/// The steps of the part `end` of `test_block_boundary_shared_mem`.
proof fn lemma_block_boundary_shared_mem_end_steps()
    ensures
        ({
            let steps = crate::categories::c06_shared_memory::block_boundary_shared_mem_end_steps();
            &&& steps.len() == 1
            &&& crate::stage::demands(steps[0], Request::Sync)
        }),
{
}

/// In a run of `test_block_boundary_shared_mem` that passes the device is asked this, in this
/// order, and nothing else: each request about what an earlier one made is about that, and about
/// what was uploaded for it.
pub proof fn law_block_boundary_shared_mem_asks_about_what_it_made(answers: Seq<Answer>)
    requires
        crate::stage::passes(
            crate::script::plan(
                "test_block_boundary_shared_mem",
                crate::categories::c06_shared_memory::block_boundary_shared_mem_steps(),
            ),
            answers,
        ),
    ensures
        forall|k: int|
            0 <= k < 15 ==> crate::stage::asks(
                crate::script::plan(
                    "test_block_boundary_shared_mem",
                    crate::categories::c06_shared_memory::block_boundary_shared_mem_steps(),
                ),
                answers,
                0 + 5 * k,
                #[trigger] block_boundary_shared_mem_part1_asks(k),
            ),
        crate::stage::asks(
            crate::script::plan(
                "test_block_boundary_shared_mem",
                crate::categories::c06_shared_memory::block_boundary_shared_mem_steps(),
            ),
            answers,
            75,
            block_boundary_shared_mem_end_asks(),
        ),
        crate::stage::asked(
            crate::script::plan(
                "test_block_boundary_shared_mem",
                crate::categories::c06_shared_memory::block_boundary_shared_mem_steps(),
            ),
            answers,
            76,
        ) is None,
{
    let plan = crate::script::plan(
        "test_block_boundary_shared_mem",
        crate::categories::c06_shared_memory::block_boundary_shared_mem_steps(),
    );
    let round1 = |k: int| crate::categories::c06_shared_memory::sorted_size_steps(
        crate::categories::c06_shared_memory::EDGE_SIZES@[k],
    );
    let part1 = crate::script::rounds(15, round1);
    assert forall|k: int| 0 <= k < 15 implies (#[trigger] round1(k)).len() == 8 by {
        lemma_block_boundary_shared_mem_part1_steps(k);
    }
    crate::stage::lemma_rounds_length(15, round1, 8);
    let part2 = crate::categories::c06_shared_memory::block_boundary_shared_mem_end_steps();
    lemma_block_boundary_shared_mem_end_steps();
    let whole1 = part1;
    let whole2 = whole1 + part2;
    assert(plan.steps == whole2);
    let m0 = crate::stage::lemma_start(plan, answers);
    assert forall|j: int| 0 <= j < 120 implies plan.steps[0 + j] == #[trigger] part1[j] by {}
    let m1 = lemma_block_boundary_shared_mem_part1_rounds(m0, part1, 15);
    assert forall|j: int| 0 <= j < 1 implies plan.steps[120 + j] == #[trigger] part2[j] by {}
    let m2 = lemma_block_boundary_shared_mem_end(m1, part2);
    crate::stage::lemma_end(m2);
}

/// What the device is asked in piece 1 of round `k` of the part `sizes` of
/// `test_shared_mem_size_limits`.
pub open spec fn shared_mem_size_limits_sizes_1_asks(k: int) -> Seq<Ask> {
    let words1 = crate::stage::column(
        (crate::categories::c06_shared_memory::STRESS_SIZES@[k] as int),
        |i: int| ((crate::categories::c06_shared_memory::STRESS_SIZES@[k] as int) - 1) - i,
    );
    let words2 = crate::stage::column(
        (crate::categories::c06_shared_memory::STRESS_SIZES@[k] as int),
        |i: int| i,
    );
    let table1 = Thing::Table {
        layout: Layout::KeyVal,
        scalar: Scalar::U32,
        columns: seq![words1, words2],
        turn: 0 + 6 * k,
    };
    let sorted1 = Thing::Sorted { of: Box::new(table1), keys: 1, turn: 1 + 6 * k };
    seq![
        Ask::Make(table1),
        Ask::Make(sorted1),
        Ask::Handle(sorted1),
        Ask::Words { of: sorted1, column: 0, scalar: Scalar::U32 },
        Ask::Words { of: sorted1, column: 1, scalar: Scalar::U32 },
    ]
}

/// Piece 1 of round `k` of the part `sizes` of `test_shared_mem_size_limits` asks what it should.
proof fn lemma_shared_mem_size_limits_sizes_1(m: Moment, steps: Seq<Step>, k: int) -> (n: Moment)
    requires
        0 <= k < 5,
        m.holds(),
        m.at == 0 + 11 * k,
        m.used == 0 + 6 * k,
        0 + 11 * k + 11 <= m.plan.steps.len(),
        forall|j: int| 0 <= j < 11 ==> m.plan.steps[0 + 11 * k + j] == #[trigger] steps[j],
        crate::stage::fills(
            steps[0],
            0,
            num(crate::categories::c06_shared_memory::STRESS_SIZES@[k as u64 as int]),
            minus(
                minus(
                    num(crate::categories::c06_shared_memory::STRESS_SIZES@[k as u64 as int]),
                    num(1),
                ),
                ix(),
            ),
        ),
        crate::stage::fills(
            steps[1],
            1,
            num(crate::categories::c06_shared_memory::STRESS_SIZES@[k as u64 as int]),
            ix(),
        ),
        crate::stage::demands(
            steps[2],
            Request::Create { into: 0, layout: Layout::KeyVal, scalar: Scalar::U32, from: 0 },
        ),
        crate::stage::demands(steps[3], Request::Sort { of: 0, keys: 1, into: 1 }),
        crate::stage::inquires(steps[4], Request::RowsKnown { of: 1, into: 0 }),
        crate::stage::looks(steps[5]),
        crate::stage::demands(
            steps[6],
            Request::Download { of: 1, column: 0, scalar: Scalar::U32, into: 2 },
        ),
        crate::stage::demands(
            steps[7],
            Request::Download { of: 1, column: 1, scalar: Scalar::U32, into: 3 },
        ),
    ensures
        n.holds(),
        n.plan == m.plan,
        n.answers == m.answers,
        n.at == 0 + 11 * k + 8,
        n.used == m.used + 5,
        crate::stage::asks(m.plan, m.answers, 0 + 6 * k, shared_mem_size_limits_sizes_1_asks(k)),
{
    crate::stage::lemma_full(m);
    crate::stage::lemma_asks_none(m, 0 + 6 * k);
    let list0 = Seq::<Ask>::empty();
    let words1 = crate::stage::column(
        (crate::categories::c06_shared_memory::STRESS_SIZES@[k] as int),
        |i: int| ((crate::categories::c06_shared_memory::STRESS_SIZES@[k] as int) - 1) - i,
    );
    let word1 = minus(
        minus(num(crate::categories::c06_shared_memory::STRESS_SIZES@[k as u64 as int]), num(1)),
        ix(),
    );
    assert forall|i: int| 0 <= i < words1.len() implies crate::stage::meaning(
        word1,
        m.contents,
        i,
    ) as u64 == #[trigger] words1[i] by {
        reveal_with_fuel(crate::stage::meaning, 4);
    }
    let m1 = crate::stage::lemma_filled(
        m,
        steps[0],
        0,
        num(crate::categories::c06_shared_memory::STRESS_SIZES@[k as u64 as int]),
        word1,
        words1,
    );
    let words2 = crate::stage::column(
        (crate::categories::c06_shared_memory::STRESS_SIZES@[k] as int),
        |i: int| i,
    );
    let word2 = ix();
    assert forall|i: int| 0 <= i < words2.len() implies crate::stage::meaning(
        word2,
        m1.contents,
        i,
    ) as u64 == #[trigger] words2[i] by {
        reveal_with_fuel(crate::stage::meaning, 1);
    }
    let m2 = crate::stage::lemma_filled(
        m1,
        steps[1],
        1,
        num(crate::categories::c06_shared_memory::STRESS_SIZES@[k as u64 as int]),
        word2,
        words2,
    );
    let table1 = Thing::Table {
        layout: Layout::KeyVal,
        scalar: Scalar::U32,
        columns: seq![words1, words2],
        turn: 0 + 6 * k,
    };
    let m3 = crate::stage::lemma_create(m2, steps[2], 0, Layout::KeyVal, Scalar::U32, 0, table1);
    crate::stage::lemma_asks_more(m, 0 + 6 * k, list0, Ask::Make(table1));
    let list1 = list0.push(Ask::Make(table1));
    let sorted1 = Thing::Sorted { of: Box::new(table1), keys: 1, turn: 1 + 6 * k };
    let m4 = crate::stage::lemma_sort(m3, steps[3], 0, 1, 1, table1, sorted1);
    crate::stage::lemma_asks_more(m, 0 + 6 * k, list1, Ask::Make(sorted1));
    let list2 = list1.push(Ask::Make(sorted1));
    let m5 = crate::stage::lemma_handle(m4, steps[4], 1, 0, sorted1);
    crate::stage::lemma_asks_more(m, 0 + 6 * k, list2, Ask::Handle(sorted1));
    let list3 = list2.push(Ask::Handle(sorted1));
    let m6 = crate::stage::lemma_look(m5, steps[5]);
    let m7 = crate::stage::lemma_download(m6, steps[6], 1, 0, Scalar::U32, 2, sorted1);
    crate::stage::lemma_asks_more(
        m,
        0 + 6 * k,
        list3,
        Ask::Words { of: sorted1, column: 0, scalar: Scalar::U32 },
    );
    let list4 = list3.push(Ask::Words { of: sorted1, column: 0, scalar: Scalar::U32 });
    let m8 = crate::stage::lemma_download(m7, steps[7], 1, 1, Scalar::U32, 3, sorted1);
    crate::stage::lemma_asks_more(
        m,
        0 + 6 * k,
        list4,
        Ask::Words { of: sorted1, column: 1, scalar: Scalar::U32 },
    );
    let list5 = list4.push(Ask::Words { of: sorted1, column: 1, scalar: Scalar::U32 });
    assert(shared_mem_size_limits_sizes_1_asks(k) == list5);
    m8
}

/// What the device is asked in piece 2 of round `k` of the part `sizes` of
/// `test_shared_mem_size_limits`.
pub open spec fn shared_mem_size_limits_sizes_2_asks(k: int) -> Seq<Ask> {
    seq![Ask::Other(Request::Release { from: 0 })]
}

/// Piece 2 of round `k` of the part `sizes` of `test_shared_mem_size_limits` asks what it should.
proof fn lemma_shared_mem_size_limits_sizes_2(m: Moment, steps: Seq<Step>, k: int) -> (n: Moment)
    requires
        0 <= k < 5,
        m.holds(),
        m.at == 0 + 11 * k + 8,
        m.used == 5 + 6 * k,
        0 + 11 * k + 11 <= m.plan.steps.len(),
        forall|j: int| 0 <= j < 11 ==> m.plan.steps[0 + 11 * k + j] == #[trigger] steps[j],
        crate::stage::looks(steps[8]),
        crate::stage::looks(steps[9]),
        crate::stage::inquires(steps[10], Request::Release { from: 0 }),
    ensures
        n.holds(),
        n.plan == m.plan,
        n.answers == m.answers,
        n.at == 0 + 11 * k + 11,
        n.used == m.used + 1,
        crate::stage::asks(m.plan, m.answers, 5 + 6 * k, shared_mem_size_limits_sizes_2_asks(k)),
{
    crate::stage::lemma_full(m);
    crate::stage::lemma_asks_none(m, 5 + 6 * k);
    let list0 = Seq::<Ask>::empty();
    let m1 = crate::stage::lemma_look(m, steps[8]);
    let m2 = crate::stage::lemma_look(m1, steps[9]);
    let m3 = crate::stage::lemma_release(m2, steps[10], 0);
    crate::stage::lemma_asks_more(m, 5 + 6 * k, list0, Ask::Other(Request::Release { from: 0 }));
    let list1 = list0.push(Ask::Other(Request::Release { from: 0 }));
    assert(shared_mem_size_limits_sizes_2_asks(k) == list1);
    m3
}

/// The steps of the part `sizes` of `test_shared_mem_size_limits`.
proof fn lemma_shared_mem_size_limits_sizes_steps(k: int)
    ensures
        ({
            let steps = crate::categories::c06_shared_memory::shared_mem_size_limits_sizes_round(
                k as u64,
            );
            &&& steps.len() == 11
            &&& crate::stage::fills(
                steps[0],
                0,
                num(crate::categories::c06_shared_memory::STRESS_SIZES@[k as u64 as int]),
                minus(
                    minus(
                        num(crate::categories::c06_shared_memory::STRESS_SIZES@[k as u64 as int]),
                        num(1),
                    ),
                    ix(),
                ),
            )
            &&& crate::stage::fills(
                steps[1],
                1,
                num(crate::categories::c06_shared_memory::STRESS_SIZES@[k as u64 as int]),
                ix(),
            )
            &&& crate::stage::demands(
                steps[2],
                Request::Create { into: 0, layout: Layout::KeyVal, scalar: Scalar::U32, from: 0 },
            )
            &&& crate::stage::demands(steps[3], Request::Sort { of: 0, keys: 1, into: 1 })
            &&& crate::stage::inquires(steps[4], Request::RowsKnown { of: 1, into: 0 })
            &&& crate::stage::looks(steps[5])
            &&& crate::stage::demands(
                steps[6],
                Request::Download { of: 1, column: 0, scalar: Scalar::U32, into: 2 },
            )
            &&& crate::stage::demands(
                steps[7],
                Request::Download { of: 1, column: 1, scalar: Scalar::U32, into: 3 },
            )
            &&& crate::stage::looks(steps[8])
            &&& crate::stage::looks(steps[9])
            &&& crate::stage::inquires(steps[10], Request::Release { from: 0 })
        }),
{
}

/// Round `k` of the part `sizes` of `test_shared_mem_size_limits` asks what it should.
proof fn lemma_shared_mem_size_limits_sizes_round(m: Moment, k: int) -> (n: Moment)
    requires
        0 <= k < 5,
        m.holds(),
        m.at == 0 + 11 * k,
        m.used == 0 + 6 * k,
        m.at + 11 <= m.plan.steps.len(),
        forall|j: int|
            0 <= j < 11 ==> m.plan.steps[0 + 11 * k + j] == #[trigger] crate::categories::c06_shared_memory::shared_mem_size_limits_sizes_round(
                k as u64,
            )[j],
    ensures
        n.holds(),
        n.plan == m.plan,
        n.answers == m.answers,
        n.at == 0 + 11 * (k + 1),
        n.used == 0 + 6 * (k + 1),
        crate::stage::asks(m.plan, m.answers, 0 + 6 * k, shared_mem_size_limits_sizes_1_asks(k)),
        crate::stage::asks(m.plan, m.answers, 5 + 6 * k, shared_mem_size_limits_sizes_2_asks(k)),
{
    let steps = crate::categories::c06_shared_memory::shared_mem_size_limits_sizes_round(k as u64);
    lemma_shared_mem_size_limits_sizes_steps(k);
    let m1 = lemma_shared_mem_size_limits_sizes_1(m, steps, k);
    lemma_shared_mem_size_limits_sizes_2(m1, steps, k)
}

/// The first `k` rounds of the part `sizes` of `test_shared_mem_size_limits` ask what they should.
proof fn lemma_shared_mem_size_limits_sizes_rounds(
    m: Moment,
    part: Seq<Step>,
    k: int,
) -> (n: Moment)
    requires
        0 <= k <= 5,
        m.holds(),
        m.at == 0,
        m.used == 0 + 6 * 0,
        m.at + 55 <= m.plan.steps.len(),
        part == crate::script::rounds(
            5,
            |k: int| crate::categories::c06_shared_memory::shared_mem_size_limits_sizes_round(
                k as u64,
            ),
        ),
        forall|j: int| 0 <= j < 55 ==> m.plan.steps[0 + j] == #[trigger] part[j],
    ensures
        n.holds(),
        n.plan == m.plan,
        n.answers == m.answers,
        n.at == 0 + 11 * k,
        n.used == 0 + 6 * k,
        forall|j: int|
            0 <= j < k ==> crate::stage::asks(
                m.plan,
                m.answers,
                0 + 6 * j,
                #[trigger] shared_mem_size_limits_sizes_1_asks(j),
            ),
        forall|j: int|
            0 <= j < k ==> crate::stage::asks(
                m.plan,
                m.answers,
                5 + 6 * j,
                #[trigger] shared_mem_size_limits_sizes_2_asks(j),
            ),
    decreases k,
{
    if k == 0 {
        m
    } else {
        let round = |k: int| crate::categories::c06_shared_memory::shared_mem_size_limits_sizes_round(
            k as u64,
        );
        let before = lemma_shared_mem_size_limits_sizes_rounds(m, part, k - 1);
        assert forall|j: int| 0 <= j < 11 implies m.plan.steps[before.at + j] == #[trigger] crate::categories::c06_shared_memory::shared_mem_size_limits_sizes_round(
            (k - 1) as u64,
        )[j] by {
            assert forall|k: int| 0 <= k < 5 implies (#[trigger] round(k)).len() == 11 by {
                lemma_shared_mem_size_limits_sizes_steps(k);
            }
            crate::stage::lemma_round_place(5, round, 11, k - 1, j);
            assert(part[(k - 1) * 11 + j] == round(k - 1)[j]);
        }
        lemma_shared_mem_size_limits_sizes_round(before, k - 1)
    }
}

/// What the device is asked in the part `end` of `test_shared_mem_size_limits`.
pub open spec fn shared_mem_size_limits_end_asks() -> Seq<Ask> {
    seq![Ask::Other(Request::Sync)]
}

/// The part `end` of `test_shared_mem_size_limits` asks what it should.
proof fn lemma_shared_mem_size_limits_end(m: Moment, steps: Seq<Step>) -> (n: Moment)
    requires
        m.holds(),
        m.at == 55,
        m.used == 30,
        55 + 1 <= m.plan.steps.len(),
        forall|j: int| 0 <= j < 1 ==> m.plan.steps[55 + j] == #[trigger] steps[j],
        crate::stage::demands(steps[0], Request::Sync),
    ensures
        n.holds(),
        n.plan == m.plan,
        n.answers == m.answers,
        n.at == 55 + 1,
        n.used == m.used + 1,
        crate::stage::asks(m.plan, m.answers, 30, shared_mem_size_limits_end_asks()),
{
    crate::stage::lemma_full(m);
    crate::stage::lemma_asks_none(m, 30);
    let list0 = Seq::<Ask>::empty();
    let m1 = crate::stage::lemma_sync(m, steps[0]);
    crate::stage::lemma_asks_more(m, 30, list0, Ask::Other(Request::Sync));
    let list1 = list0.push(Ask::Other(Request::Sync));
    assert(shared_mem_size_limits_end_asks() == list1);
    m1
}

/// The steps of the part `end` of `test_shared_mem_size_limits`.
proof fn lemma_shared_mem_size_limits_end_steps()
    ensures
        ({
            let steps = crate::categories::c06_shared_memory::shared_mem_size_limits_end_steps();
            &&& steps.len() == 1
            &&& crate::stage::demands(steps[0], Request::Sync)
        }),
{
}

/// In a run of `test_shared_mem_size_limits` that passes the device is asked this, in this order,
/// and nothing else: each request about what an earlier one made is about that, and about what was
/// uploaded for it.
pub proof fn law_shared_mem_size_limits_asks_about_what_it_made(answers: Seq<Answer>)
    requires
        crate::stage::passes(
            crate::script::plan(
                "test_shared_mem_size_limits",
                crate::categories::c06_shared_memory::shared_mem_size_limits_steps(),
            ),
            answers,
        ),
    ensures
        forall|k: int|
            0 <= k < 5 ==> crate::stage::asks(
                crate::script::plan(
                    "test_shared_mem_size_limits",
                    crate::categories::c06_shared_memory::shared_mem_size_limits_steps(),
                ),
                answers,
                0 + 6 * k,
                #[trigger] shared_mem_size_limits_sizes_1_asks(k),
            ),
        forall|k: int|
            0 <= k < 5 ==> crate::stage::asks(
                crate::script::plan(
                    "test_shared_mem_size_limits",
                    crate::categories::c06_shared_memory::shared_mem_size_limits_steps(),
                ),
                answers,
                5 + 6 * k,
                #[trigger] shared_mem_size_limits_sizes_2_asks(k),
            ),
        crate::stage::asks(
            crate::script::plan(
                "test_shared_mem_size_limits",
                crate::categories::c06_shared_memory::shared_mem_size_limits_steps(),
            ),
            answers,
            30,
            shared_mem_size_limits_end_asks(),
        ),
        crate::stage::asked(
            crate::script::plan(
                "test_shared_mem_size_limits",
                crate::categories::c06_shared_memory::shared_mem_size_limits_steps(),
            ),
            answers,
            31,
        ) is None,
{
    let plan = crate::script::plan(
        "test_shared_mem_size_limits",
        crate::categories::c06_shared_memory::shared_mem_size_limits_steps(),
    );
    let round1 = |k: int| crate::categories::c06_shared_memory::shared_mem_size_limits_sizes_round(
        k as u64,
    );
    let part1 = crate::script::rounds(5, round1);
    assert forall|k: int| 0 <= k < 5 implies (#[trigger] round1(k)).len() == 11 by {
        lemma_shared_mem_size_limits_sizes_steps(k);
    }
    crate::stage::lemma_rounds_length(5, round1, 11);
    let part2 = crate::categories::c06_shared_memory::shared_mem_size_limits_end_steps();
    lemma_shared_mem_size_limits_end_steps();
    let whole1 = part1;
    let whole2 = whole1 + part2;
    assert(plan.steps == whole2);
    let m0 = crate::stage::lemma_start(plan, answers);
    assert forall|j: int| 0 <= j < 55 implies plan.steps[0 + j] == #[trigger] part1[j] by {}
    let m1 = lemma_shared_mem_size_limits_sizes_rounds(m0, part1, 5);
    assert forall|j: int| 0 <= j < 1 implies plan.steps[55 + j] == #[trigger] part2[j] by {}
    let m2 = lemma_shared_mem_size_limits_end(m1, part2);
    crate::stage::lemma_end(m2);
}

} // verus!
