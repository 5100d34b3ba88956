//! What these tests ask the device in runs that pass: `test_single_block_operations`,
//! `test_multi_block_operations`, `test_block_boundary_correctness`.

use vstd::prelude::*;
use crate::expr::{ix, minus, modulo, num, or, same_as};
use crate::machine::Answer;
use crate::scalar::Scalar;
use crate::script::{Layout, Request, Step};
use crate::stage::{Ask, Moment, Thing};

verus! {

/// A buffer that is uploaded in round `k` of the part `sizes` of `test_single_block_operations`.
pub open spec fn single_block_operations_sizes_table1(k: int) -> Thing {
    Thing::Table {
        layout: Layout::KeyVal,
        scalar: Scalar::U32,
        columns: seq![
            crate::stage::column(
                (crate::categories::c10_block_grid::SINGLE_SIZES@[k] as int),
                |i: int| ((crate::categories::c10_block_grid::SINGLE_SIZES@[k] as int) - 1) - i,
            ),
            crate::stage::column(
                (crate::categories::c10_block_grid::SINGLE_SIZES@[k] as int),
                |i: int| i,
            ),
        ],
        turn: 0 + 9 * k,
    }
}

/// What the device is asked in piece 1 of round `k` of the part `sizes` of
/// `test_single_block_operations`.
pub open spec fn single_block_operations_sizes_1_asks(k: int) -> Seq<Ask> {
    let sorted1 = Thing::Sorted {
        of: Box::new(single_block_operations_sizes_table1(k)),
        keys: 1,
        turn: 1 + 9 * k,
    };
    seq![
        Ask::Make(single_block_operations_sizes_table1(k)),
        Ask::Make(sorted1),
        Ask::Handle(sorted1),
        Ask::Words { of: sorted1, column: 0, scalar: Scalar::U32 },
    ]
}

/// Piece 1 of round `k` of the part `sizes` of `test_single_block_operations` asks what it should.
proof fn lemma_single_block_operations_sizes_1(m: Moment, steps: Seq<Step>, k: int) -> (n: Moment)
    requires
        0 <= k < 7,
        m.holds(),
        m.at == 0 + 16 * k,
        m.used == 0 + 9 * k,
        0 + 16 * k + 16 <= m.plan.steps.len(),
        forall|j: int| 0 <= j < 16 ==> m.plan.steps[0 + 16 * k + j] == #[trigger] steps[j],
        crate::stage::fills(
            steps[0],
            0,
            num(crate::categories::c10_block_grid::SINGLE_SIZES@[k as u64 as int]),
            minus(
                minus(
                    num(crate::categories::c10_block_grid::SINGLE_SIZES@[k as u64 as int]),
                    num(1),
                ),
                ix(),
            ),
        ),
        crate::stage::fills(
            steps[1],
            1,
            num(crate::categories::c10_block_grid::SINGLE_SIZES@[k as u64 as int]),
            ix(),
        ),
        crate::stage::demands(
            steps[2],
            Request::Create { into: 0, layout: Layout::KeyVal, scalar: Scalar::U32, from: 0 },
        ),
        crate::stage::demands(steps[3], Request::Sort { of: 0, keys: 1, into: 1 }),
        crate::stage::inquires(steps[4], Request::RowsKnown { of: 1, into: 0 }),
        crate::stage::looks(steps[5]),
        crate::stage::demands(
            steps[6],
            Request::Download { of: 1, column: 0, scalar: Scalar::U32, into: 2 },
        ),
        crate::stage::looks(steps[7]),
    ensures
        n.holds(),
        n.plan == m.plan,
        n.answers == m.answers,
        n.at == 0 + 16 * k + 8,
        n.used == m.used + 4,
        n.scene.buffer(0) == single_block_operations_sizes_table1(k),
        crate::stage::asks(m.plan, m.answers, 0 + 9 * k, single_block_operations_sizes_1_asks(k)),
{
    crate::stage::lemma_full(m);
    crate::stage::lemma_asks_none(m, 0 + 9 * k);
    let list0 = Seq::<Ask>::empty();
    let words1 = crate::stage::column(
        (crate::categories::c10_block_grid::SINGLE_SIZES@[k] as int),
        |i: int| ((crate::categories::c10_block_grid::SINGLE_SIZES@[k] as int) - 1) - i,
    );
    let word1 = minus(
        minus(num(crate::categories::c10_block_grid::SINGLE_SIZES@[k as u64 as int]), num(1)),
        ix(),
    );
    assert forall|i: int| 0 <= i < words1.len() implies crate::stage::meaning(
        word1,
        m.contents,
        i,
    ) as u64 == #[trigger] words1[i] by {
        reveal_with_fuel(crate::stage::meaning, 4);
    }
    let m1 = crate::stage::lemma_filled(
        m,
        steps[0],
        0,
        num(crate::categories::c10_block_grid::SINGLE_SIZES@[k as u64 as int]),
        word1,
        words1,
    );
    let words2 = crate::stage::column(
        (crate::categories::c10_block_grid::SINGLE_SIZES@[k] as int),
        |i: int| i,
    );
    let word2 = ix();
    assert forall|i: int| 0 <= i < words2.len() implies crate::stage::meaning(
        word2,
        m1.contents,
        i,
    ) as u64 == #[trigger] words2[i] by {
        reveal_with_fuel(crate::stage::meaning, 1);
    }
    let m2 = crate::stage::lemma_filled(
        m1,
        steps[1],
        1,
        num(crate::categories::c10_block_grid::SINGLE_SIZES@[k as u64 as int]),
        word2,
        words2,
    );
    let m3 = crate::stage::lemma_create(
        m2,
        steps[2],
        0,
        Layout::KeyVal,
        Scalar::U32,
        0,
        single_block_operations_sizes_table1(k),
    );
    crate::stage::lemma_asks_more(
        m,
        0 + 9 * k,
        list0,
        Ask::Make(single_block_operations_sizes_table1(k)),
    );
    let list1 = list0.push(Ask::Make(single_block_operations_sizes_table1(k)));
    let sorted1 = Thing::Sorted {
        of: Box::new(single_block_operations_sizes_table1(k)),
        keys: 1,
        turn: 1 + 9 * k,
    };
    let m4 = crate::stage::lemma_sort(
        m3,
        steps[3],
        0,
        1,
        1,
        single_block_operations_sizes_table1(k),
        sorted1,
    );
    crate::stage::lemma_asks_more(m, 0 + 9 * k, list1, Ask::Make(sorted1));
    let list2 = list1.push(Ask::Make(sorted1));
    let m5 = crate::stage::lemma_handle(m4, steps[4], 1, 0, sorted1);
    crate::stage::lemma_asks_more(m, 0 + 9 * k, list2, Ask::Handle(sorted1));
    let list3 = list2.push(Ask::Handle(sorted1));
    let m6 = crate::stage::lemma_look(m5, steps[5]);
    let m7 = crate::stage::lemma_download(m6, steps[6], 1, 0, Scalar::U32, 2, sorted1);
    crate::stage::lemma_asks_more(
        m,
        0 + 9 * k,
        list3,
        Ask::Words { of: sorted1, column: 0, scalar: Scalar::U32 },
    );
    let list4 = list3.push(Ask::Words { of: sorted1, column: 0, scalar: Scalar::U32 });
    let m8 = crate::stage::lemma_look(m7, steps[7]);
    assert(single_block_operations_sizes_1_asks(k) == list4);
    m8
}

/// What the device is asked in piece 2 of round `k` of the part `sizes` of
/// `test_single_block_operations`.
pub open spec fn single_block_operations_sizes_2_asks(k: int) -> Seq<Ask> {
    let words3 = crate::stage::column(
        (crate::categories::c10_block_grid::SINGLE_SIZES@[k] as int),
        |i: int| crate::stage::flag(((i % 2) == 0)),
    );
    let kept1 = Thing::Kept {
        of: Box::new(single_block_operations_sizes_table1(k)),
        mask: words3,
        turn: 4 + 9 * k,
    };
    let unique1 = Thing::Unique {
        of: Box::new(single_block_operations_sizes_table1(k)),
        turn: 6 + 9 * k,
    };
    seq![
        Ask::Make(kept1),
        Ask::Handle(kept1),
        Ask::Make(unique1),
        Ask::Handle(unique1),
        Ask::Other(Request::Release { from: 0 }),
    ]
}

/// Piece 2 of round `k` of the part `sizes` of `test_single_block_operations` asks what it should.
proof fn lemma_single_block_operations_sizes_2(m: Moment, steps: Seq<Step>, k: int) -> (n: Moment)
    requires
        0 <= k < 7,
        m.holds(),
        m.at == 0 + 16 * k + 8,
        m.used == 4 + 9 * k,
        0 + 16 * k + 16 <= m.plan.steps.len(),
        forall|j: int| 0 <= j < 16 ==> m.plan.steps[0 + 16 * k + j] == #[trigger] steps[j],
        crate::stage::fills(
            steps[8],
            3,
            num(crate::categories::c10_block_grid::SINGLE_SIZES@[k as u64 as int]),
            same_as(modulo(ix(), num(2)), num(0)),
        ),
        crate::stage::demands(steps[9], Request::Filter { of: 0, mask: 3, into: 2 }),
        crate::stage::inquires(steps[10], Request::RowsKnown { of: 2, into: 0 }),
        crate::stage::looks(steps[11]),
        crate::stage::demands(steps[12], Request::Dedup { of: 0, into: 3 }),
        crate::stage::inquires(steps[13], Request::RowsKnown { of: 3, into: 0 }),
        crate::stage::looks(steps[14]),
        crate::stage::inquires(steps[15], Request::Release { from: 0 }),
        m.scene.buffer(0) == single_block_operations_sizes_table1(k),
    ensures
        n.holds(),
        n.plan == m.plan,
        n.answers == m.answers,
        n.at == 0 + 16 * k + 16,
        n.used == m.used + 5,
        crate::stage::asks(m.plan, m.answers, 4 + 9 * k, single_block_operations_sizes_2_asks(k)),
{
    crate::stage::lemma_full(m);
    crate::stage::lemma_asks_none(m, 4 + 9 * k);
    let list0 = Seq::<Ask>::empty();
    let words3 = crate::stage::column(
        (crate::categories::c10_block_grid::SINGLE_SIZES@[k] as int),
        |i: int| crate::stage::flag(((i % 2) == 0)),
    );
    let word1 = same_as(modulo(ix(), num(2)), num(0));
    assert forall|i: int| 0 <= i < words3.len() implies crate::stage::meaning(
        word1,
        m.contents,
        i,
    ) as u64 == #[trigger] words3[i] by {
        reveal_with_fuel(crate::stage::meaning, 4);
    }
    let m1 = crate::stage::lemma_filled(
        m,
        steps[8],
        3,
        num(crate::categories::c10_block_grid::SINGLE_SIZES@[k as u64 as int]),
        word1,
        words3,
    );
    let kept1 = Thing::Kept {
        of: Box::new(single_block_operations_sizes_table1(k)),
        mask: words3,
        turn: 4 + 9 * k,
    };
    let m2 = crate::stage::lemma_filter(
        m1,
        steps[9],
        0,
        3,
        2,
        single_block_operations_sizes_table1(k),
        words3,
        kept1,
    );
    crate::stage::lemma_asks_more(m, 4 + 9 * k, list0, Ask::Make(kept1));
    let list1 = list0.push(Ask::Make(kept1));
    let m3 = crate::stage::lemma_handle(m2, steps[10], 2, 0, kept1);
    crate::stage::lemma_asks_more(m, 4 + 9 * k, list1, Ask::Handle(kept1));
    let list2 = list1.push(Ask::Handle(kept1));
    let m4 = crate::stage::lemma_look(m3, steps[11]);
    let unique1 = Thing::Unique {
        of: Box::new(single_block_operations_sizes_table1(k)),
        turn: 6 + 9 * k,
    };
    let m5 = crate::stage::lemma_dedup(
        m4,
        steps[12],
        0,
        3,
        single_block_operations_sizes_table1(k),
        unique1,
    );
    crate::stage::lemma_asks_more(m, 4 + 9 * k, list2, Ask::Make(unique1));
    let list3 = list2.push(Ask::Make(unique1));
    let m6 = crate::stage::lemma_handle(m5, steps[13], 3, 0, unique1);
    crate::stage::lemma_asks_more(m, 4 + 9 * k, list3, Ask::Handle(unique1));
    let list4 = list3.push(Ask::Handle(unique1));
    let m7 = crate::stage::lemma_look(m6, steps[14]);
    let m8 = crate::stage::lemma_release(m7, steps[15], 0);
    crate::stage::lemma_asks_more(m, 4 + 9 * k, list4, Ask::Other(Request::Release { from: 0 }));
    let list5 = list4.push(Ask::Other(Request::Release { from: 0 }));
    assert(single_block_operations_sizes_2_asks(k) == list5);
    m8
}

/// The steps of the part `sizes` of `test_single_block_operations`.
proof fn lemma_single_block_operations_sizes_steps(k: int)
    ensures
        ({
            let steps = crate::categories::c10_block_grid::single_block_operations_sizes_round(
                k as u64,
            );
            &&& steps.len() == 16
            &&& crate::stage::fills(
                steps[0],
                0,
                num(crate::categories::c10_block_grid::SINGLE_SIZES@[k as u64 as int]),
                minus(
                    minus(
                        num(crate::categories::c10_block_grid::SINGLE_SIZES@[k as u64 as int]),
                        num(1),
                    ),
                    ix(),
                ),
            )
            &&& crate::stage::fills(
                steps[1],
                1,
                num(crate::categories::c10_block_grid::SINGLE_SIZES@[k as u64 as int]),
                ix(),
            )
            &&& crate::stage::demands(
                steps[2],
                Request::Create { into: 0, layout: Layout::KeyVal, scalar: Scalar::U32, from: 0 },
            )
            &&& crate::stage::demands(steps[3], Request::Sort { of: 0, keys: 1, into: 1 })
            &&& crate::stage::inquires(steps[4], Request::RowsKnown { of: 1, into: 0 })
            &&& crate::stage::looks(steps[5])
            &&& crate::stage::demands(
                steps[6],
                Request::Download { of: 1, column: 0, scalar: Scalar::U32, into: 2 },
            )
            &&& crate::stage::looks(steps[7])
            &&& crate::stage::fills(
                steps[8],
                3,
                num(crate::categories::c10_block_grid::SINGLE_SIZES@[k as u64 as int]),
                same_as(modulo(ix(), num(2)), num(0)),
            )
            &&& crate::stage::demands(steps[9], Request::Filter { of: 0, mask: 3, into: 2 })
            &&& crate::stage::inquires(steps[10], Request::RowsKnown { of: 2, into: 0 })
            &&& crate::stage::looks(steps[11])
            &&& crate::stage::demands(steps[12], Request::Dedup { of: 0, into: 3 })
            &&& crate::stage::inquires(steps[13], Request::RowsKnown { of: 3, into: 0 })
            &&& crate::stage::looks(steps[14])
            &&& crate::stage::inquires(steps[15], Request::Release { from: 0 })
        }),
{
}

/// Round `k` of the part `sizes` of `test_single_block_operations` asks what it should.
proof fn lemma_single_block_operations_sizes_round(m: Moment, k: int) -> (n: Moment)
    requires
        0 <= k < 7,
        m.holds(),
        m.at == 0 + 16 * k,
        m.used == 0 + 9 * k,
        m.at + 16 <= m.plan.steps.len(),
        forall|j: int|
            0 <= j < 16 ==> m.plan.steps[0 + 16 * k + j] == #[trigger] crate::categories::c10_block_grid::single_block_operations_sizes_round(
                k as u64,
            )[j],
    ensures
        n.holds(),
        n.plan == m.plan,
        n.answers == m.answers,
        n.at == 0 + 16 * (k + 1),
        n.used == 0 + 9 * (k + 1),
        crate::stage::asks(m.plan, m.answers, 0 + 9 * k, single_block_operations_sizes_1_asks(k)),
        crate::stage::asks(m.plan, m.answers, 4 + 9 * k, single_block_operations_sizes_2_asks(k)),
{
    let steps = crate::categories::c10_block_grid::single_block_operations_sizes_round(k as u64);
    lemma_single_block_operations_sizes_steps(k);
    let m1 = lemma_single_block_operations_sizes_1(m, steps, k);
    lemma_single_block_operations_sizes_2(m1, steps, k)
}

/// The first `k` rounds of the part `sizes` of `test_single_block_operations` ask what they should.
proof fn lemma_single_block_operations_sizes_rounds(
    m: Moment,
    part: Seq<Step>,
    k: int,
) -> (n: Moment)
    requires
        0 <= k <= 7,
        m.holds(),
        m.at == 0,
        m.used == 0 + 9 * 0,
        m.at + 112 <= m.plan.steps.len(),
        part == crate::script::rounds(
            7,
            |k: int| crate::categories::c10_block_grid::single_block_operations_sizes_round(
                k as u64,
            ),
        ),
        forall|j: int| 0 <= j < 112 ==> m.plan.steps[0 + j] == #[trigger] part[j],
    ensures
        n.holds(),
        n.plan == m.plan,
        n.answers == m.answers,
        n.at == 0 + 16 * k,
        n.used == 0 + 9 * k,
        forall|j: int|
            0 <= j < k ==> crate::stage::asks(
                m.plan,
                m.answers,
                0 + 9 * j,
                #[trigger] single_block_operations_sizes_1_asks(j),
            ),
        forall|j: int|
            0 <= j < k ==> crate::stage::asks(
                m.plan,
                m.answers,
                4 + 9 * j,
                #[trigger] single_block_operations_sizes_2_asks(j),
            ),
    decreases k,
{
    if k == 0 {
        m
    } else {
        let round = |k: int| crate::categories::c10_block_grid::single_block_operations_sizes_round(
            k as u64,
        );
        let before = lemma_single_block_operations_sizes_rounds(m, part, k - 1);
        assert forall|j: int| 0 <= j < 16 implies m.plan.steps[before.at + j] == #[trigger] crate::categories::c10_block_grid::single_block_operations_sizes_round(
            (k - 1) as u64,
        )[j] by {
            assert forall|k: int| 0 <= k < 7 implies (#[trigger] round(k)).len() == 16 by {
                lemma_single_block_operations_sizes_steps(k);
            }
            crate::stage::lemma_round_place(7, round, 16, k - 1, j);
            assert(part[(k - 1) * 16 + j] == round(k - 1)[j]);
        }
        lemma_single_block_operations_sizes_round(before, k - 1)
    }
}

/// What the device is asked in the part `end` of `test_single_block_operations`.
pub open spec fn single_block_operations_end_asks() -> Seq<Ask> {
    seq![Ask::Other(Request::Sync)]
}

/// The part `end` of `test_single_block_operations` asks what it should.
proof fn lemma_single_block_operations_end(m: Moment, steps: Seq<Step>) -> (n: Moment)
    requires
        m.holds(),
        m.at == 112,
        m.used == 63,
        112 + 1 <= m.plan.steps.len(),
        forall|j: int| 0 <= j < 1 ==> m.plan.steps[112 + j] == #[trigger] steps[j],
        crate::stage::demands(steps[0], Request::Sync),
    ensures
        n.holds(),
        n.plan == m.plan,
        n.answers == m.answers,
        n.at == 112 + 1,
        n.used == m.used + 1,
        crate::stage::asks(m.plan, m.answers, 63, single_block_operations_end_asks()),
{
    crate::stage::lemma_full(m);
    crate::stage::lemma_asks_none(m, 63);
    let list0 = Seq::<Ask>::empty();
    let m1 = crate::stage::lemma_sync(m, steps[0]);
    crate::stage::lemma_asks_more(m, 63, list0, Ask::Other(Request::Sync));
    let list1 = list0.push(Ask::Other(Request::Sync));
    assert(single_block_operations_end_asks() == list1);
    m1
}

/// The steps of the part `end` of `test_single_block_operations`.
proof fn lemma_single_block_operations_end_steps()
    ensures
        ({
            let steps = crate::categories::c10_block_grid::single_block_operations_end_steps();
            &&& steps.len() == 1
            &&& crate::stage::demands(steps[0], Request::Sync)
        }),
{
}

/// In a run of `test_single_block_operations` that passes the device is asked this, in this order,
/// and nothing else: each request about what an earlier one made is about that, and about what was
/// uploaded for it.
pub proof fn law_single_block_operations_asks_about_what_it_made(answers: Seq<Answer>)
    requires
        crate::stage::passes(
            crate::script::plan(
                "test_single_block_operations",
                crate::categories::c10_block_grid::single_block_operations_steps(),
            ),
            answers,
        ),
    ensures
        forall|k: int|
            0 <= k < 7 ==> crate::stage::asks(
                crate::script::plan(
                    "test_single_block_operations",
                    crate::categories::c10_block_grid::single_block_operations_steps(),
                ),
                answers,
                0 + 9 * k,
                #[trigger] single_block_operations_sizes_1_asks(k),
            ),
        forall|k: int|
            0 <= k < 7 ==> crate::stage::asks(
                crate::script::plan(
                    "test_single_block_operations",
                    crate::categories::c10_block_grid::single_block_operations_steps(),
                ),
                answers,
                4 + 9 * k,
                #[trigger] single_block_operations_sizes_2_asks(k),
            ),
        crate::stage::asks(
            crate::script::plan(
                "test_single_block_operations",
                crate::categories::c10_block_grid::single_block_operations_steps(),
            ),
            answers,
            63,
            single_block_operations_end_asks(),
        ),
        crate::stage::asked(
            crate::script::plan(
                "test_single_block_operations",
                crate::categories::c10_block_grid::single_block_operations_steps(),
            ),
            answers,
            64,
        ) is None,
{
    let plan = crate::script::plan(
        "test_single_block_operations",
        crate::categories::c10_block_grid::single_block_operations_steps(),
    );
    let round1 = |k: int| crate::categories::c10_block_grid::single_block_operations_sizes_round(
        k as u64,
    );
    let part1 = crate::script::rounds(7, round1);
    assert forall|k: int| 0 <= k < 7 implies (#[trigger] round1(k)).len() == 16 by {
        lemma_single_block_operations_sizes_steps(k);
    }
    crate::stage::lemma_rounds_length(7, round1, 16);
    let part2 = crate::categories::c10_block_grid::single_block_operations_end_steps();
    lemma_single_block_operations_end_steps();
    let whole1 = part1;
    let whole2 = whole1 + part2;
    assert(plan.steps == whole2);
    let m0 = crate::stage::lemma_start(plan, answers);
    assert forall|j: int| 0 <= j < 112 implies plan.steps[0 + j] == #[trigger] part1[j] by {}
    let m1 = lemma_single_block_operations_sizes_rounds(m0, part1, 7);
    assert forall|j: int| 0 <= j < 1 implies plan.steps[112 + j] == #[trigger] part2[j] by {}
    let m2 = lemma_single_block_operations_end(m1, part2);
    crate::stage::lemma_end(m2);
}

/// A buffer that is uploaded in round `k` of the part `sizes` of `test_multi_block_operations`.
pub open spec fn multi_block_operations_sizes_table1(k: int) -> Thing {
    Thing::Table {
        layout: Layout::Val,
        scalar: Scalar::U32,
        columns: seq![
            crate::stage::column(
                (crate::categories::c10_block_grid::MULTI_SIZES@[k] as int),
                |i: int| ((crate::categories::c10_block_grid::MULTI_SIZES@[k] as int) - 1) - i,
            ),
        ],
        turn: 0 + 7 * k,
    }
}

/// What the device is asked in piece 1 of round `k` of the part `sizes` of
/// `test_multi_block_operations`.
pub open spec fn multi_block_operations_sizes_1_asks(k: int) -> Seq<Ask> {
    let sorted1 = Thing::Sorted {
        of: Box::new(multi_block_operations_sizes_table1(k)),
        keys: 1,
        turn: 1 + 7 * k,
    };
    seq![
        Ask::Make(multi_block_operations_sizes_table1(k)),
        Ask::Make(sorted1),
        Ask::Handle(sorted1),
        Ask::Words { of: sorted1, column: 0, scalar: Scalar::U32 },
    ]
}

/// Piece 1 of round `k` of the part `sizes` of `test_multi_block_operations` asks what it should.
proof fn lemma_multi_block_operations_sizes_1(m: Moment, steps: Seq<Step>, k: int) -> (n: Moment)
    requires
        0 <= k < 4,
        m.holds(),
        m.at == 0 + 22 * k,
        m.used == 0 + 7 * k,
        0 + 22 * k + 22 <= m.plan.steps.len(),
        forall|j: int| 0 <= j < 22 ==> m.plan.steps[0 + 22 * k + j] == #[trigger] steps[j],
        crate::stage::fills(
            steps[0],
            0,
            num(crate::categories::c10_block_grid::MULTI_SIZES@[k as u64 as int]),
            minus(
                minus(
                    num(crate::categories::c10_block_grid::MULTI_SIZES@[k as u64 as int]),
                    num(1),
                ),
                ix(),
            ),
        ),
        crate::stage::demands(
            steps[1],
            Request::Create { into: 0, layout: Layout::Val, scalar: Scalar::U32, from: 0 },
        ),
        crate::stage::demands(steps[2], Request::Sort { of: 0, keys: 1, into: 1 }),
        crate::stage::inquires(steps[3], Request::RowsKnown { of: 1, into: 0 }),
        crate::stage::looks(steps[4]),
        crate::stage::demands(
            steps[5],
            Request::Download { of: 1, column: 0, scalar: Scalar::U32, into: 1 },
        ),
        crate::stage::looks(steps[6]),
        crate::stage::looks(steps[7]),
    ensures
        n.holds(),
        n.plan == m.plan,
        n.answers == m.answers,
        n.at == 0 + 22 * k + 8,
        n.used == m.used + 4,
        n.scene.buffer(0) == multi_block_operations_sizes_table1(k),
        crate::stage::asks(m.plan, m.answers, 0 + 7 * k, multi_block_operations_sizes_1_asks(k)),
{
    crate::stage::lemma_full(m);
    crate::stage::lemma_asks_none(m, 0 + 7 * k);
    let list0 = Seq::<Ask>::empty();
    let words1 = crate::stage::column(
        (crate::categories::c10_block_grid::MULTI_SIZES@[k] as int),
        |i: int| ((crate::categories::c10_block_grid::MULTI_SIZES@[k] as int) - 1) - i,
    );
    let word1 = minus(
        minus(num(crate::categories::c10_block_grid::MULTI_SIZES@[k as u64 as int]), num(1)),
        ix(),
    );
    assert forall|i: int| 0 <= i < words1.len() implies crate::stage::meaning(
        word1,
        m.contents,
        i,
    ) as u64 == #[trigger] words1[i] by {
        reveal_with_fuel(crate::stage::meaning, 4);
    }
    let m1 = crate::stage::lemma_filled(
        m,
        steps[0],
        0,
        num(crate::categories::c10_block_grid::MULTI_SIZES@[k as u64 as int]),
        word1,
        words1,
    );
    let m2 = crate::stage::lemma_create(
        m1,
        steps[1],
        0,
        Layout::Val,
        Scalar::U32,
        0,
        multi_block_operations_sizes_table1(k),
    );
    crate::stage::lemma_asks_more(
        m,
        0 + 7 * k,
        list0,
        Ask::Make(multi_block_operations_sizes_table1(k)),
    );
    let list1 = list0.push(Ask::Make(multi_block_operations_sizes_table1(k)));
    let sorted1 = Thing::Sorted {
        of: Box::new(multi_block_operations_sizes_table1(k)),
        keys: 1,
        turn: 1 + 7 * k,
    };
    let m3 = crate::stage::lemma_sort(
        m2,
        steps[2],
        0,
        1,
        1,
        multi_block_operations_sizes_table1(k),
        sorted1,
    );
    crate::stage::lemma_asks_more(m, 0 + 7 * k, list1, Ask::Make(sorted1));
    let list2 = list1.push(Ask::Make(sorted1));
    let m4 = crate::stage::lemma_handle(m3, steps[3], 1, 0, sorted1);
    crate::stage::lemma_asks_more(m, 0 + 7 * k, list2, Ask::Handle(sorted1));
    let list3 = list2.push(Ask::Handle(sorted1));
    let m5 = crate::stage::lemma_look(m4, steps[4]);
    let m6 = crate::stage::lemma_download(m5, steps[5], 1, 0, Scalar::U32, 1, sorted1);
    crate::stage::lemma_asks_more(
        m,
        0 + 7 * k,
        list3,
        Ask::Words { of: sorted1, column: 0, scalar: Scalar::U32 },
    );
    let list4 = list3.push(Ask::Words { of: sorted1, column: 0, scalar: Scalar::U32 });
    let m7 = crate::stage::lemma_look(m6, steps[6]);
    let m8 = crate::stage::lemma_look(m7, steps[7]);
    assert(multi_block_operations_sizes_1_asks(k) == list4);
    m8
}

/// Piece 2 of round `k` of the part `sizes` of `test_multi_block_operations` asks what it should.
proof fn lemma_multi_block_operations_sizes_2(m: Moment, steps: Seq<Step>, k: int) -> (n: Moment)
    requires
        0 <= k < 4,
        m.holds(),
        m.at == 0 + 22 * k + 8,
        m.used == 4 + 7 * k,
        0 + 22 * k + 22 <= m.plan.steps.len(),
        forall|j: int| 0 <= j < 22 ==> m.plan.steps[0 + 22 * k + j] == #[trigger] steps[j],
        crate::stage::looks(steps[8]),
        crate::stage::looks(steps[9]),
        crate::stage::looks(steps[10]),
        crate::stage::reckons(steps[11], 1),
        crate::stage::looks(steps[12]),
        crate::stage::looks(steps[13]),
        crate::stage::looks(steps[14]),
        crate::stage::looks(steps[15]),
        m.scene.buffer(0) == multi_block_operations_sizes_table1(k),
    ensures
        n.holds(),
        n.plan == m.plan,
        n.answers == m.answers,
        n.at == 0 + 22 * k + 16,
        n.used == m.used + 0,
        n.scene.buffer(0) == multi_block_operations_sizes_table1(k),
{
    crate::stage::lemma_full(m);
    let m1 = crate::stage::lemma_look(m, steps[8]);
    let m2 = crate::stage::lemma_look(m1, steps[9]);
    let m3 = crate::stage::lemma_look(m2, steps[10]);
    let m4 = crate::stage::lemma_reckon(m3, steps[11], 1);
    let m5 = crate::stage::lemma_look(m4, steps[12]);
    let m6 = crate::stage::lemma_look(m5, steps[13]);
    let m7 = crate::stage::lemma_look(m6, steps[14]);
    let m8 = crate::stage::lemma_look(m7, steps[15]);
    m8
}

/// What the device is asked in piece 3 of round `k` of the part `sizes` of
/// `test_multi_block_operations`.
pub open spec fn multi_block_operations_sizes_3_asks(k: int) -> Seq<Ask> {
    let words2 = crate::stage::column(
        (crate::categories::c10_block_grid::MULTI_SIZES@[k] as int),
        |i: int| crate::stage::flag(((i % 10) == 0)),
    );
    let kept1 = Thing::Kept {
        of: Box::new(multi_block_operations_sizes_table1(k)),
        mask: words2,
        turn: 4 + 7 * k,
    };
    seq![Ask::Make(kept1), Ask::Handle(kept1), Ask::Other(Request::Release { from: 0 })]
}

/// Piece 3 of round `k` of the part `sizes` of `test_multi_block_operations` asks what it should.
proof fn lemma_multi_block_operations_sizes_3(m: Moment, steps: Seq<Step>, k: int) -> (n: Moment)
    requires
        0 <= k < 4,
        m.holds(),
        m.at == 0 + 22 * k + 16,
        m.used == 4 + 7 * k,
        0 + 22 * k + 22 <= m.plan.steps.len(),
        forall|j: int| 0 <= j < 22 ==> m.plan.steps[0 + 22 * k + j] == #[trigger] steps[j],
        crate::stage::looks(steps[16]),
        crate::stage::fills(
            steps[17],
            2,
            num(crate::categories::c10_block_grid::MULTI_SIZES@[k as u64 as int]),
            same_as(modulo(ix(), num(10)), num(0)),
        ),
        crate::stage::demands(steps[18], Request::Filter { of: 0, mask: 2, into: 2 }),
        crate::stage::inquires(steps[19], Request::RowsKnown { of: 2, into: 0 }),
        crate::stage::looks(steps[20]),
        crate::stage::inquires(steps[21], Request::Release { from: 0 }),
        m.scene.buffer(0) == multi_block_operations_sizes_table1(k),
    ensures
        n.holds(),
        n.plan == m.plan,
        n.answers == m.answers,
        n.at == 0 + 22 * k + 22,
        n.used == m.used + 3,
        crate::stage::asks(m.plan, m.answers, 4 + 7 * k, multi_block_operations_sizes_3_asks(k)),
{
    crate::stage::lemma_full(m);
    crate::stage::lemma_asks_none(m, 4 + 7 * k);
    let list0 = Seq::<Ask>::empty();
    let m1 = crate::stage::lemma_look(m, steps[16]);
    let words2 = crate::stage::column(
        (crate::categories::c10_block_grid::MULTI_SIZES@[k] as int),
        |i: int| crate::stage::flag(((i % 10) == 0)),
    );
    let word2 = same_as(modulo(ix(), num(10)), num(0));
    assert forall|i: int| 0 <= i < words2.len() implies crate::stage::meaning(
        word2,
        m1.contents,
        i,
    ) as u64 == #[trigger] words2[i] by {
        reveal_with_fuel(crate::stage::meaning, 4);
    }
    let m2 = crate::stage::lemma_filled(
        m1,
        steps[17],
        2,
        num(crate::categories::c10_block_grid::MULTI_SIZES@[k as u64 as int]),
        word2,
        words2,
    );
    let kept1 = Thing::Kept {
        of: Box::new(multi_block_operations_sizes_table1(k)),
        mask: words2,
        turn: 4 + 7 * k,
    };
    let m3 = crate::stage::lemma_filter(
        m2,
        steps[18],
        0,
        2,
        2,
        multi_block_operations_sizes_table1(k),
        words2,
        kept1,
    );
    crate::stage::lemma_asks_more(m, 4 + 7 * k, list0, Ask::Make(kept1));
    let list1 = list0.push(Ask::Make(kept1));
    let m4 = crate::stage::lemma_handle(m3, steps[19], 2, 0, kept1);
    crate::stage::lemma_asks_more(m, 4 + 7 * k, list1, Ask::Handle(kept1));
    let list2 = list1.push(Ask::Handle(kept1));
    let m5 = crate::stage::lemma_look(m4, steps[20]);
    let m6 = crate::stage::lemma_release(m5, steps[21], 0);
    crate::stage::lemma_asks_more(m, 4 + 7 * k, list2, Ask::Other(Request::Release { from: 0 }));
    let list3 = list2.push(Ask::Other(Request::Release { from: 0 }));
    assert(multi_block_operations_sizes_3_asks(k) == list3);
    m6
}

/// The steps of the part `sizes` of `test_multi_block_operations`.
proof fn lemma_multi_block_operations_sizes_steps(k: int)
    ensures
        ({
            let steps = crate::categories::c10_block_grid::multi_block_operations_sizes_round(
                k as u64,
            );
            &&& steps.len() == 22
            &&& crate::stage::fills(
                steps[0],
                0,
                num(crate::categories::c10_block_grid::MULTI_SIZES@[k as u64 as int]),
                minus(
                    minus(
                        num(crate::categories::c10_block_grid::MULTI_SIZES@[k as u64 as int]),
                        num(1),
                    ),
                    ix(),
                ),
            )
            &&& crate::stage::demands(
                steps[1],
                Request::Create { into: 0, layout: Layout::Val, scalar: Scalar::U32, from: 0 },
            )
            &&& crate::stage::demands(steps[2], Request::Sort { of: 0, keys: 1, into: 1 })
            &&& crate::stage::inquires(steps[3], Request::RowsKnown { of: 1, into: 0 })
            &&& crate::stage::looks(steps[4])
            &&& crate::stage::demands(
                steps[5],
                Request::Download { of: 1, column: 0, scalar: Scalar::U32, into: 1 },
            )
            &&& crate::stage::looks(steps[6])
            &&& crate::stage::looks(steps[7])
            &&& crate::stage::looks(steps[8])
            &&& crate::stage::looks(steps[9])
            &&& crate::stage::looks(steps[10])
            &&& crate::stage::reckons(steps[11], 1)
            &&& crate::stage::looks(steps[12])
            &&& crate::stage::looks(steps[13])
            &&& crate::stage::looks(steps[14])
            &&& crate::stage::looks(steps[15])
            &&& crate::stage::looks(steps[16])
            &&& crate::stage::fills(
                steps[17],
                2,
                num(crate::categories::c10_block_grid::MULTI_SIZES@[k as u64 as int]),
                same_as(modulo(ix(), num(10)), num(0)),
            )
            &&& crate::stage::demands(steps[18], Request::Filter { of: 0, mask: 2, into: 2 })
            &&& crate::stage::inquires(steps[19], Request::RowsKnown { of: 2, into: 0 })
            &&& crate::stage::looks(steps[20])
            &&& crate::stage::inquires(steps[21], Request::Release { from: 0 })
        }),
{
}

/// Round `k` of the part `sizes` of `test_multi_block_operations` asks what it should.
proof fn lemma_multi_block_operations_sizes_round(m: Moment, k: int) -> (n: Moment)
    requires
        0 <= k < 4,
        m.holds(),
        m.at == 0 + 22 * k,
        m.used == 0 + 7 * k,
        m.at + 22 <= m.plan.steps.len(),
        forall|j: int|
            0 <= j < 22 ==> m.plan.steps[0 + 22 * k + j] == #[trigger] crate::categories::c10_block_grid::multi_block_operations_sizes_round(
                k as u64,
            )[j],
    ensures
        n.holds(),
        n.plan == m.plan,
        n.answers == m.answers,
        n.at == 0 + 22 * (k + 1),
        n.used == 0 + 7 * (k + 1),
        crate::stage::asks(m.plan, m.answers, 0 + 7 * k, multi_block_operations_sizes_1_asks(k)),
        crate::stage::asks(m.plan, m.answers, 4 + 7 * k, multi_block_operations_sizes_3_asks(k)),
{
    let steps = crate::categories::c10_block_grid::multi_block_operations_sizes_round(k as u64);
    lemma_multi_block_operations_sizes_steps(k);
    let m1 = lemma_multi_block_operations_sizes_1(m, steps, k);
    let m2 = lemma_multi_block_operations_sizes_2(m1, steps, k);
    lemma_multi_block_operations_sizes_3(m2, steps, k)
}

/// The first `k` rounds of the part `sizes` of `test_multi_block_operations` ask what they should.
proof fn lemma_multi_block_operations_sizes_rounds(
    m: Moment,
    part: Seq<Step>,
    k: int,
) -> (n: Moment)
    requires
        0 <= k <= 4,
        m.holds(),
        m.at == 0,
        m.used == 0 + 7 * 0,
        m.at + 88 <= m.plan.steps.len(),
        part == crate::script::rounds(
            4,
            |k: int| crate::categories::c10_block_grid::multi_block_operations_sizes_round(
                k as u64,
            ),
        ),
        forall|j: int| 0 <= j < 88 ==> m.plan.steps[0 + j] == #[trigger] part[j],
    ensures
        n.holds(),
        n.plan == m.plan,
        n.answers == m.answers,
        n.at == 0 + 22 * k,
        n.used == 0 + 7 * k,
        forall|j: int|
            0 <= j < k ==> crate::stage::asks(
                m.plan,
                m.answers,
                0 + 7 * j,
                #[trigger] multi_block_operations_sizes_1_asks(j),
            ),
        forall|j: int|
            0 <= j < k ==> crate::stage::asks(
                m.plan,
                m.answers,
                4 + 7 * j,
                #[trigger] multi_block_operations_sizes_3_asks(j),
            ),
    decreases k,
{
    if k == 0 {
        m
    } else {
        let round = |k: int| crate::categories::c10_block_grid::multi_block_operations_sizes_round(
            k as u64,
        );
        let before = lemma_multi_block_operations_sizes_rounds(m, part, k - 1);
        assert forall|j: int| 0 <= j < 22 implies m.plan.steps[before.at + j] == #[trigger] crate::categories::c10_block_grid::multi_block_operations_sizes_round(
            (k - 1) as u64,
        )[j] by {
            assert forall|k: int| 0 <= k < 4 implies (#[trigger] round(k)).len() == 22 by {
                lemma_multi_block_operations_sizes_steps(k);
            }
            crate::stage::lemma_round_place(4, round, 22, k - 1, j);
            assert(part[(k - 1) * 22 + j] == round(k - 1)[j]);
        }
        lemma_multi_block_operations_sizes_round(before, k - 1)
    }
}

/// What the device is asked in the part `end` of `test_multi_block_operations`.
pub open spec fn multi_block_operations_end_asks() -> Seq<Ask> {
    seq![Ask::Other(Request::Sync)]
}

/// The part `end` of `test_multi_block_operations` asks what it should.
proof fn lemma_multi_block_operations_end(m: Moment, steps: Seq<Step>) -> (n: Moment)
    requires
        m.holds(),
        m.at == 88,
        m.used == 28,
        88 + 1 <= m.plan.steps.len(),
        forall|j: int| 0 <= j < 1 ==> m.plan.steps[88 + j] == #[trigger] steps[j],
        crate::stage::demands(steps[0], Request::Sync),
    ensures
        n.holds(),
        n.plan == m.plan,
        n.answers == m.answers,
        n.at == 88 + 1,
        n.used == m.used + 1,
        crate::stage::asks(m.plan, m.answers, 28, multi_block_operations_end_asks()),
{
    crate::stage::lemma_full(m);
    crate::stage::lemma_asks_none(m, 28);
    let list0 = Seq::<Ask>::empty();
    let m1 = crate::stage::lemma_sync(m, steps[0]);
    crate::stage::lemma_asks_more(m, 28, list0, Ask::Other(Request::Sync));
    let list1 = list0.push(Ask::Other(Request::Sync));
    assert(multi_block_operations_end_asks() == list1);
    m1
}

/// The steps of the part `end` of `test_multi_block_operations`.
proof fn lemma_multi_block_operations_end_steps()
    ensures
        ({
            let steps = crate::categories::c10_block_grid::multi_block_operations_end_steps();
            &&& steps.len() == 1
            &&& crate::stage::demands(steps[0], Request::Sync)
        }),
{
}

/// In a run of `test_multi_block_operations` that passes the device is asked this, in this order,
/// and nothing else: each request about what an earlier one made is about that, and about what was
/// uploaded for it.
pub proof fn law_multi_block_operations_asks_about_what_it_made(answers: Seq<Answer>)
    requires
        crate::stage::passes(
            crate::script::plan(
                "test_multi_block_operations",
                crate::categories::c10_block_grid::multi_block_operations_steps(),
            ),
            answers,
        ),
    ensures
        forall|k: int|
            0 <= k < 4 ==> crate::stage::asks(
                crate::script::plan(
                    "test_multi_block_operations",
                    crate::categories::c10_block_grid::multi_block_operations_steps(),
                ),
                answers,
                0 + 7 * k,
                #[trigger] multi_block_operations_sizes_1_asks(k),
            ),
        forall|k: int|
            0 <= k < 4 ==> crate::stage::asks(
                crate::script::plan(
                    "test_multi_block_operations",
                    crate::categories::c10_block_grid::multi_block_operations_steps(),
                ),
                answers,
                4 + 7 * k,
                #[trigger] multi_block_operations_sizes_3_asks(k),
            ),
        crate::stage::asks(
            crate::script::plan(
                "test_multi_block_operations",
                crate::categories::c10_block_grid::multi_block_operations_steps(),
            ),
            answers,
            28,
            multi_block_operations_end_asks(),
        ),
        crate::stage::asked(
            crate::script::plan(
                "test_multi_block_operations",
                crate::categories::c10_block_grid::multi_block_operations_steps(),
            ),
            answers,
            29,
        ) is None,
{
    let plan = crate::script::plan(
        "test_multi_block_operations",
        crate::categories::c10_block_grid::multi_block_operations_steps(),
    );
    let round1 = |k: int| crate::categories::c10_block_grid::multi_block_operations_sizes_round(
        k as u64,
    );
    let part1 = crate::script::rounds(4, round1);
    assert forall|k: int| 0 <= k < 4 implies (#[trigger] round1(k)).len() == 22 by {
        lemma_multi_block_operations_sizes_steps(k);
    }
    crate::stage::lemma_rounds_length(4, round1, 22);
    let part2 = crate::categories::c10_block_grid::multi_block_operations_end_steps();
    lemma_multi_block_operations_end_steps();
    let whole1 = part1;
    let whole2 = whole1 + part2;
    assert(plan.steps == whole2);
    let m0 = crate::stage::lemma_start(plan, answers);
    assert forall|j: int| 0 <= j < 88 implies plan.steps[0 + j] == #[trigger] part1[j] by {}
    let m1 = lemma_multi_block_operations_sizes_rounds(m0, part1, 4);
    assert forall|j: int| 0 <= j < 1 implies plan.steps[88 + j] == #[trigger] part2[j] by {}
    let m2 = lemma_multi_block_operations_end(m1, part2);
    crate::stage::lemma_end(m2);
}

/// A buffer that is uploaded in round `k` of the part `sizes` of `test_block_boundary_correctness`.
pub open spec fn block_boundary_correctness_sizes_table1(k: int) -> Thing {
    Thing::Table {
        layout: Layout::Val,
        scalar: Scalar::U32,
        columns: seq![
            crate::stage::column(
                (crate::categories::c10_block_grid::EDGE_SIZES@[k] as int),
                |i: int| ((crate::categories::c10_block_grid::EDGE_SIZES@[k] as int) - 1) - i,
            ),
        ],
        turn: 0 + 8 * k,
    }
}

/// A column that is filled in round `k` of the part `sizes` of `test_block_boundary_correctness`.
pub open spec fn block_boundary_correctness_sizes_words2(k: int) -> Seq<u64> {
    crate::stage::column(
        (crate::categories::c10_block_grid::EDGE_SIZES@[k] as int),
        |i: int| crate::stage::flag((((i % 256) == 0) || ((i % 256) == 255))),
    )
}

/// What the device is asked in piece 1 of round `k` of the part `sizes` of
/// `test_block_boundary_correctness`.
pub open spec fn block_boundary_correctness_sizes_1_asks(k: int) -> Seq<Ask> {
    let sorted1 = Thing::Sorted {
        of: Box::new(block_boundary_correctness_sizes_table1(k)),
        keys: 1,
        turn: 1 + 8 * k,
    };
    seq![
        Ask::Make(block_boundary_correctness_sizes_table1(k)),
        Ask::Make(sorted1),
        Ask::Handle(sorted1),
        Ask::Words { of: sorted1, column: 0, scalar: Scalar::U32 },
    ]
}

/// Piece 1 of round `k` of the part `sizes` of `test_block_boundary_correctness` asks what it
/// should.
proof fn lemma_block_boundary_correctness_sizes_1(
    m: Moment,
    steps: Seq<Step>,
    k: int,
) -> (n: Moment)
    requires
        0 <= k < 6,
        m.holds(),
        m.at == 0 + 16 * k,
        m.used == 0 + 8 * k,
        0 + 16 * k + 16 <= m.plan.steps.len(),
        forall|j: int| 0 <= j < 16 ==> m.plan.steps[0 + 16 * k + j] == #[trigger] steps[j],
        crate::stage::fills(
            steps[0],
            0,
            num(crate::categories::c10_block_grid::EDGE_SIZES@[k as u64 as int]),
            minus(
                minus(num(crate::categories::c10_block_grid::EDGE_SIZES@[k as u64 as int]), num(1)),
                ix(),
            ),
        ),
        crate::stage::demands(
            steps[1],
            Request::Create { into: 0, layout: Layout::Val, scalar: Scalar::U32, from: 0 },
        ),
        crate::stage::demands(steps[2], Request::Sort { of: 0, keys: 1, into: 1 }),
        crate::stage::inquires(steps[3], Request::RowsKnown { of: 1, into: 0 }),
        crate::stage::looks(steps[4]),
        crate::stage::demands(
            steps[5],
            Request::Download { of: 1, column: 0, scalar: Scalar::U32, into: 1 },
        ),
        crate::stage::looks(steps[6]),
        crate::stage::fills(
            steps[7],
            2,
            num(crate::categories::c10_block_grid::EDGE_SIZES@[k as u64 as int]),
            or(
                same_as(modulo(ix(), num(256)), num(0)),
                same_as(modulo(ix(), num(256)), num(255)),
            ),
        ),
    ensures
        n.holds(),
        n.plan == m.plan,
        n.answers == m.answers,
        n.at == 0 + 16 * k + 8,
        n.used == m.used + 4,
        n.contents.columns[2] == block_boundary_correctness_sizes_words2(k),
        n.scene.buffer(0) == block_boundary_correctness_sizes_table1(k),
        crate::stage::asks(
            m.plan,
            m.answers,
            0 + 8 * k,
            block_boundary_correctness_sizes_1_asks(k),
        ),
{
    crate::stage::lemma_full(m);
    crate::stage::lemma_asks_none(m, 0 + 8 * k);
    let list0 = Seq::<Ask>::empty();
    let words1 = crate::stage::column(
        (crate::categories::c10_block_grid::EDGE_SIZES@[k] as int),
        |i: int| ((crate::categories::c10_block_grid::EDGE_SIZES@[k] as int) - 1) - i,
    );
    let word1 = minus(
        minus(num(crate::categories::c10_block_grid::EDGE_SIZES@[k as u64 as int]), num(1)),
        ix(),
    );
    assert forall|i: int| 0 <= i < words1.len() implies crate::stage::meaning(
        word1,
        m.contents,
        i,
    ) as u64 == #[trigger] words1[i] by {
        reveal_with_fuel(crate::stage::meaning, 4);
    }
    let m1 = crate::stage::lemma_filled(
        m,
        steps[0],
        0,
        num(crate::categories::c10_block_grid::EDGE_SIZES@[k as u64 as int]),
        word1,
        words1,
    );
    let m2 = crate::stage::lemma_create(
        m1,
        steps[1],
        0,
        Layout::Val,
        Scalar::U32,
        0,
        block_boundary_correctness_sizes_table1(k),
    );
    crate::stage::lemma_asks_more(
        m,
        0 + 8 * k,
        list0,
        Ask::Make(block_boundary_correctness_sizes_table1(k)),
    );
    let list1 = list0.push(Ask::Make(block_boundary_correctness_sizes_table1(k)));
    let sorted1 = Thing::Sorted {
        of: Box::new(block_boundary_correctness_sizes_table1(k)),
        keys: 1,
        turn: 1 + 8 * k,
    };
    let m3 = crate::stage::lemma_sort(
        m2,
        steps[2],
        0,
        1,
        1,
        block_boundary_correctness_sizes_table1(k),
        sorted1,
    );
    crate::stage::lemma_asks_more(m, 0 + 8 * k, list1, Ask::Make(sorted1));
    let list2 = list1.push(Ask::Make(sorted1));
    let m4 = crate::stage::lemma_handle(m3, steps[3], 1, 0, sorted1);
    crate::stage::lemma_asks_more(m, 0 + 8 * k, list2, Ask::Handle(sorted1));
    let list3 = list2.push(Ask::Handle(sorted1));
    let m5 = crate::stage::lemma_look(m4, steps[4]);
    let m6 = crate::stage::lemma_download(m5, steps[5], 1, 0, Scalar::U32, 1, sorted1);
    crate::stage::lemma_asks_more(
        m,
        0 + 8 * k,
        list3,
        Ask::Words { of: sorted1, column: 0, scalar: Scalar::U32 },
    );
    let list4 = list3.push(Ask::Words { of: sorted1, column: 0, scalar: Scalar::U32 });
    let m7 = crate::stage::lemma_look(m6, steps[6]);
    let words2 = block_boundary_correctness_sizes_words2(k);
    let word8 = or(
        same_as(modulo(ix(), num(256)), num(0)),
        same_as(modulo(ix(), num(256)), num(255)),
    );
    assert forall|i: int| 0 <= i < words2.len() implies crate::stage::meaning(
        word8,
        m7.contents,
        i,
    ) as u64 == #[trigger] words2[i] by {
        reveal_with_fuel(crate::stage::meaning, 5);
    }
    let m8 = crate::stage::lemma_filled(
        m7,
        steps[7],
        2,
        num(crate::categories::c10_block_grid::EDGE_SIZES@[k as u64 as int]),
        word8,
        words2,
    );
    assert(block_boundary_correctness_sizes_1_asks(k) == list4);
    m8
}

/// What the device is asked in piece 2 of round `k` of the part `sizes` of
/// `test_block_boundary_correctness`.
pub open spec fn block_boundary_correctness_sizes_2_asks(k: int) -> Seq<Ask> {
    let kept1 = Thing::Kept {
        of: Box::new(block_boundary_correctness_sizes_table1(k)),
        mask: block_boundary_correctness_sizes_words2(k),
        turn: 4 + 8 * k,
    };
    seq![
        Ask::Make(kept1),
        Ask::Handle(kept1),
        Ask::Words { of: kept1, column: 0, scalar: Scalar::U32 },
        Ask::Other(Request::Release { from: 0 }),
    ]
}

/// Piece 2 of round `k` of the part `sizes` of `test_block_boundary_correctness` asks what it
/// should.
proof fn lemma_block_boundary_correctness_sizes_2(
    m: Moment,
    steps: Seq<Step>,
    k: int,
) -> (n: Moment)
    requires
        0 <= k < 6,
        m.holds(),
        m.at == 0 + 16 * k + 8,
        m.used == 4 + 8 * k,
        0 + 16 * k + 16 <= m.plan.steps.len(),
        forall|j: int| 0 <= j < 16 ==> m.plan.steps[0 + 16 * k + j] == #[trigger] steps[j],
        crate::stage::reckons(steps[8], 1),
        crate::stage::demands(steps[9], Request::Filter { of: 0, mask: 2, into: 2 }),
        crate::stage::inquires(steps[10], Request::RowsKnown { of: 2, into: 0 }),
        crate::stage::looks(steps[11]),
        crate::stage::demands(
            steps[12],
            Request::Download { of: 2, column: 0, scalar: Scalar::U32, into: 3 },
        ),
        crate::stage::works(steps[13], 4),
        crate::stage::looks(steps[14]),
        crate::stage::inquires(steps[15], Request::Release { from: 0 }),
        m.contents.columns[2] == block_boundary_correctness_sizes_words2(k),
        m.scene.buffer(0) == block_boundary_correctness_sizes_table1(k),
    ensures
        n.holds(),
        n.plan == m.plan,
        n.answers == m.answers,
        n.at == 0 + 16 * k + 16,
        n.used == m.used + 4,
        crate::stage::asks(
            m.plan,
            m.answers,
            4 + 8 * k,
            block_boundary_correctness_sizes_2_asks(k),
        ),
{
    crate::stage::lemma_full(m);
    crate::stage::lemma_asks_none(m, 4 + 8 * k);
    let list0 = Seq::<Ask>::empty();
    let m1 = crate::stage::lemma_reckon(m, steps[8], 1);
    let kept1 = Thing::Kept {
        of: Box::new(block_boundary_correctness_sizes_table1(k)),
        mask: block_boundary_correctness_sizes_words2(k),
        turn: 4 + 8 * k,
    };
    let m2 = crate::stage::lemma_filter(
        m1,
        steps[9],
        0,
        2,
        2,
        block_boundary_correctness_sizes_table1(k),
        block_boundary_correctness_sizes_words2(k),
        kept1,
    );
    crate::stage::lemma_asks_more(m, 4 + 8 * k, list0, Ask::Make(kept1));
    let list1 = list0.push(Ask::Make(kept1));
    let m3 = crate::stage::lemma_handle(m2, steps[10], 2, 0, kept1);
    crate::stage::lemma_asks_more(m, 4 + 8 * k, list1, Ask::Handle(kept1));
    let list2 = list1.push(Ask::Handle(kept1));
    let m4 = crate::stage::lemma_look(m3, steps[11]);
    let m5 = crate::stage::lemma_download(m4, steps[12], 2, 0, Scalar::U32, 3, kept1);
    crate::stage::lemma_asks_more(
        m,
        4 + 8 * k,
        list2,
        Ask::Words { of: kept1, column: 0, scalar: Scalar::U32 },
    );
    let list3 = list2.push(Ask::Words { of: kept1, column: 0, scalar: Scalar::U32 });
    let m6 = crate::stage::lemma_work(m5, steps[13], 4);
    let m7 = crate::stage::lemma_look(m6, steps[14]);
    let m8 = crate::stage::lemma_release(m7, steps[15], 0);
    crate::stage::lemma_asks_more(m, 4 + 8 * k, list3, Ask::Other(Request::Release { from: 0 }));
    let list4 = list3.push(Ask::Other(Request::Release { from: 0 }));
    assert(block_boundary_correctness_sizes_2_asks(k) == list4);
    m8
}

/// The steps of the part `sizes` of `test_block_boundary_correctness`.
proof fn lemma_block_boundary_correctness_sizes_steps(k: int)
    ensures
        ({
            let steps = crate::categories::c10_block_grid::block_boundary_correctness_sizes_round(
                k as u64,
            );
            &&& steps.len() == 16
            &&& crate::stage::fills(
                steps[0],
                0,
                num(crate::categories::c10_block_grid::EDGE_SIZES@[k as u64 as int]),
                minus(
                    minus(
                        num(crate::categories::c10_block_grid::EDGE_SIZES@[k as u64 as int]),
                        num(1),
                    ),
                    ix(),
                ),
            )
            &&& crate::stage::demands(
                steps[1],
                Request::Create { into: 0, layout: Layout::Val, scalar: Scalar::U32, from: 0 },
            )
            &&& crate::stage::demands(steps[2], Request::Sort { of: 0, keys: 1, into: 1 })
            &&& crate::stage::inquires(steps[3], Request::RowsKnown { of: 1, into: 0 })
            &&& crate::stage::looks(steps[4])
            &&& crate::stage::demands(
                steps[5],
                Request::Download { of: 1, column: 0, scalar: Scalar::U32, into: 1 },
            )
            &&& crate::stage::looks(steps[6])
            &&& crate::stage::fills(
                steps[7],
                2,
                num(crate::categories::c10_block_grid::EDGE_SIZES@[k as u64 as int]),
                or(
                    same_as(modulo(ix(), num(256)), num(0)),
                    same_as(modulo(ix(), num(256)), num(255)),
                ),
            )
            &&& crate::stage::reckons(steps[8], 1)
            &&& crate::stage::demands(steps[9], Request::Filter { of: 0, mask: 2, into: 2 })
            &&& crate::stage::inquires(steps[10], Request::RowsKnown { of: 2, into: 0 })
            &&& crate::stage::looks(steps[11])
            &&& crate::stage::demands(
                steps[12],
                Request::Download { of: 2, column: 0, scalar: Scalar::U32, into: 3 },
            )
            &&& crate::stage::works(steps[13], 4)
            &&& crate::stage::looks(steps[14])
            &&& crate::stage::inquires(steps[15], Request::Release { from: 0 })
        }),
{
}

/// Round `k` of the part `sizes` of `test_block_boundary_correctness` asks what it should.
proof fn lemma_block_boundary_correctness_sizes_round(m: Moment, k: int) -> (n: Moment)
    requires
        0 <= k < 6,
        m.holds(),
        m.at == 0 + 16 * k,
        m.used == 0 + 8 * k,
        m.at + 16 <= m.plan.steps.len(),
        forall|j: int|
            0 <= j < 16 ==> m.plan.steps[0 + 16 * k + j] == #[trigger] crate::categories::c10_block_grid::block_boundary_correctness_sizes_round(
                k as u64,
            )[j],
    ensures
        n.holds(),
        n.plan == m.plan,
        n.answers == m.answers,
        n.at == 0 + 16 * (k + 1),
        n.used == 0 + 8 * (k + 1),
        crate::stage::asks(
            m.plan,
            m.answers,
            0 + 8 * k,
            block_boundary_correctness_sizes_1_asks(k),
        ),
        crate::stage::asks(
            m.plan,
            m.answers,
            4 + 8 * k,
            block_boundary_correctness_sizes_2_asks(k),
        ),
{
    let steps = crate::categories::c10_block_grid::block_boundary_correctness_sizes_round(k as u64);
    lemma_block_boundary_correctness_sizes_steps(k);
    let m1 = lemma_block_boundary_correctness_sizes_1(m, steps, k);
    lemma_block_boundary_correctness_sizes_2(m1, steps, k)
}

/// The first `k` rounds of the part `sizes` of `test_block_boundary_correctness` ask what they
/// should.
proof fn lemma_block_boundary_correctness_sizes_rounds(
    m: Moment,
    part: Seq<Step>,
    k: int,
) -> (n: Moment)
    requires
        0 <= k <= 6,
        m.holds(),
        m.at == 0,
        m.used == 0 + 8 * 0,
        m.at + 96 <= m.plan.steps.len(),
        part == crate::script::rounds(
            6,
            |k: int| crate::categories::c10_block_grid::block_boundary_correctness_sizes_round(
                k as u64,
            ),
        ),
        forall|j: int| 0 <= j < 96 ==> m.plan.steps[0 + j] == #[trigger] part[j],
    ensures
        n.holds(),
        n.plan == m.plan,
        n.answers == m.answers,
        n.at == 0 + 16 * k,
        n.used == 0 + 8 * k,
        forall|j: int|
            0 <= j < k ==> crate::stage::asks(
                m.plan,
                m.answers,
                0 + 8 * j,
                #[trigger] block_boundary_correctness_sizes_1_asks(j),
            ),
        forall|j: int|
            0 <= j < k ==> crate::stage::asks(
                m.plan,
                m.answers,
                4 + 8 * j,
                #[trigger] block_boundary_correctness_sizes_2_asks(j),
            ),
    decreases k,
{
    if k == 0 {
        m
    } else {
        let round = |k: int| crate::categories::c10_block_grid::block_boundary_correctness_sizes_round(
            k as u64,
        );
        let before = lemma_block_boundary_correctness_sizes_rounds(m, part, k - 1);
        assert forall|j: int| 0 <= j < 16 implies m.plan.steps[before.at + j] == #[trigger] crate::categories::c10_block_grid::block_boundary_correctness_sizes_round(
            (k - 1) as u64,
        )[j] by {
            assert forall|k: int| 0 <= k < 6 implies (#[trigger] round(k)).len() == 16 by {
                lemma_block_boundary_correctness_sizes_steps(k);
            }
            crate::stage::lemma_round_place(6, round, 16, k - 1, j);
            assert(part[(k - 1) * 16 + j] == round(k - 1)[j]);
        }
        lemma_block_boundary_correctness_sizes_round(before, k - 1)
    }
}

/// What the device is asked in the part `end` of `test_block_boundary_correctness`.
pub open spec fn block_boundary_correctness_end_asks() -> Seq<Ask> {
    seq![Ask::Other(Request::Sync)]
}

/// The part `end` of `test_block_boundary_correctness` asks what it should.
proof fn lemma_block_boundary_correctness_end(m: Moment, steps: Seq<Step>) -> (n: Moment)
    requires
        m.holds(),
        m.at == 96,
        m.used == 48,
        96 + 1 <= m.plan.steps.len(),
        forall|j: int| 0 <= j < 1 ==> m.plan.steps[96 + j] == #[trigger] steps[j],
        crate::stage::demands(steps[0], Request::Sync),
    ensures
        n.holds(),
        n.plan == m.plan,
        n.answers == m.answers,
        n.at == 96 + 1,
        n.used == m.used + 1,
        crate::stage::asks(m.plan, m.answers, 48, block_boundary_correctness_end_asks()),
{
    crate::stage::lemma_full(m);
    crate::stage::lemma_asks_none(m, 48);
    let list0 = Seq::<Ask>::empty();
    let m1 = crate::stage::lemma_sync(m, steps[0]);
    crate::stage::lemma_asks_more(m, 48, list0, Ask::Other(Request::Sync));
    let list1 = list0.push(Ask::Other(Request::Sync));
    assert(block_boundary_correctness_end_asks() == list1);
    m1
}

/// The steps of the part `end` of `test_block_boundary_correctness`.
proof fn lemma_block_boundary_correctness_end_steps()
    ensures
        ({
            let steps = crate::categories::c10_block_grid::block_boundary_correctness_end_steps();
            &&& steps.len() == 1
            &&& crate::stage::demands(steps[0], Request::Sync)
        }),
{
}

/// In a run of `test_block_boundary_correctness` that passes the device is asked this, in this
/// order, and nothing else: each request about what an earlier one made is about that, and about
/// what was uploaded for it.
pub proof fn law_block_boundary_correctness_asks_about_what_it_made(answers: Seq<Answer>)
    requires
        crate::stage::passes(
            crate::script::plan(
                "test_block_boundary_correctness",
                crate::categories::c10_block_grid::block_boundary_correctness_steps(),
            ),
            answers,
        ),
    ensures
        forall|k: int|
            0 <= k < 6 ==> crate::stage::asks(
                crate::script::plan(
                    "test_block_boundary_correctness",
                    crate::categories::c10_block_grid::block_boundary_correctness_steps(),
                ),
                answers,
                0 + 8 * k,
                #[trigger] block_boundary_correctness_sizes_1_asks(k),
            ),
        forall|k: int|
            0 <= k < 6 ==> crate::stage::asks(
                crate::script::plan(
                    "test_block_boundary_correctness",
                    crate::categories::c10_block_grid::block_boundary_correctness_steps(),
                ),
                answers,
                4 + 8 * k,
                #[trigger] block_boundary_correctness_sizes_2_asks(k),
            ),
        crate::stage::asks(
            crate::script::plan(
                "test_block_boundary_correctness",
                crate::categories::c10_block_grid::block_boundary_correctness_steps(),
            ),
            answers,
            48,
            block_boundary_correctness_end_asks(),
        ),
        crate::stage::asked(
            crate::script::plan(
                "test_block_boundary_correctness",
                crate::categories::c10_block_grid::block_boundary_correctness_steps(),
            ),
            answers,
            49,
        ) is None,
{
    let plan = crate::script::plan(
        "test_block_boundary_correctness",
        crate::categories::c10_block_grid::block_boundary_correctness_steps(),
    );
    let round1 = |k: int| crate::categories::c10_block_grid::block_boundary_correctness_sizes_round(
        k as u64,
    );
    let part1 = crate::script::rounds(6, round1);
    assert forall|k: int| 0 <= k < 6 implies (#[trigger] round1(k)).len() == 16 by {
        lemma_block_boundary_correctness_sizes_steps(k);
    }
    crate::stage::lemma_rounds_length(6, round1, 16);
    let part2 = crate::categories::c10_block_grid::block_boundary_correctness_end_steps();
    lemma_block_boundary_correctness_end_steps();
    let whole1 = part1;
    let whole2 = whole1 + part2;
    assert(plan.steps == whole2);
    let m0 = crate::stage::lemma_start(plan, answers);
    assert forall|j: int| 0 <= j < 96 implies plan.steps[0 + j] == #[trigger] part1[j] by {}
    let m1 = lemma_block_boundary_correctness_sizes_rounds(m0, part1, 6);
    assert forall|j: int| 0 <= j < 1 implies plan.steps[96 + j] == #[trigger] part2[j] by {}
    let m2 = lemma_block_boundary_correctness_end(m1, part2);
    crate::stage::lemma_end(m2);
}

} // verus!
