//! What these tests ask the device in runs that pass: `test_sparse_predicate`,
//! `test_dense_predicate`, `test_alternating_predicate`.

use vstd::prelude::*;
use crate::expr::{differs, ix, modulo, num, same_as};
use crate::machine::Answer;
use crate::scalar::Scalar;
use crate::script::{Layout, Request, Step};
use crate::stage::{Ask, Moment, Thing};

verus! {

/// What the device is asked in piece 1 of round `k` of the part `sizes` of `test_sparse_predicate`.
pub open spec fn sparse_predicate_sizes_1_asks(k: int) -> Seq<Ask> {
    let words1 = crate::stage::column(
        (crate::categories::c11_control_flow::LONG_SIZES@[k] as int),
        |i: int| i,
    );
    let table1 = Thing::Table {
        layout: Layout::Val,
        scalar: Scalar::U32,
        columns: seq![words1],
        turn: 0 + 5 * k,
    };
    let words2 = crate::stage::column(
        (crate::categories::c11_control_flow::LONG_SIZES@[k] as int),
        |i: int| crate::stage::flag(((i % 100) == 0)),
    );
    let kept1 = Thing::Kept { of: Box::new(table1), mask: words2, turn: 1 + 5 * k };
    seq![
        Ask::Make(table1),
        Ask::Make(kept1),
        Ask::Rows(kept1),
        Ask::Words { of: kept1, column: 0, scalar: Scalar::U32 },
    ]
}

/// Piece 1 of round `k` of the part `sizes` of `test_sparse_predicate` asks what it should.
proof fn lemma_sparse_predicate_sizes_1(m: Moment, steps: Seq<Step>, k: int) -> (n: Moment)
    requires
        0 <= k < 3,
        m.holds(),
        m.at == 0 + 9 * k,
        m.used == 0 + 5 * k,
        0 + 9 * k + 9 <= m.plan.steps.len(),
        forall|j: int| 0 <= j < 9 ==> m.plan.steps[0 + 9 * k + j] == #[trigger] steps[j],
        crate::stage::fills(
            steps[0],
            0,
            num(crate::categories::c11_control_flow::LONG_SIZES@[k as u64 as int]),
            ix(),
        ),
        crate::stage::demands(
            steps[1],
            Request::Create { into: 0, layout: Layout::Val, scalar: Scalar::U32, from: 0 },
        ),
        crate::stage::fills(
            steps[2],
            1,
            num(crate::categories::c11_control_flow::LONG_SIZES@[k as u64 as int]),
            same_as(modulo(ix(), num(100)), num(0)),
        ),
        crate::stage::reckons(steps[3], 0),
        crate::stage::demands(steps[4], Request::Filter { of: 0, mask: 1, into: 1 }),
        crate::stage::counts(steps[5], 1),
        crate::stage::demands(
            steps[6],
            Request::Download { of: 1, column: 0, scalar: Scalar::U32, into: 2 },
        ),
        crate::stage::looks(steps[7]),
    ensures
        n.holds(),
        n.plan == m.plan,
        n.answers == m.answers,
        n.at == 0 + 9 * k + 8,
        n.used == m.used + 4,
        crate::stage::asks(m.plan, m.answers, 0 + 5 * k, sparse_predicate_sizes_1_asks(k)),
{
    crate::stage::lemma_full(m);
    crate::stage::lemma_asks_none(m, 0 + 5 * k);
    let list0 = Seq::<Ask>::empty();
    let words1 = crate::stage::column(
        (crate::categories::c11_control_flow::LONG_SIZES@[k] as int),
        |i: int| i,
    );
    let word1 = ix();
    assert forall|i: int| 0 <= i < words1.len() implies crate::stage::meaning(
        word1,
        m.contents,
        i,
    ) as u64 == #[trigger] words1[i] by {
        reveal_with_fuel(crate::stage::meaning, 1);
    }
    let m1 = crate::stage::lemma_filled(
        m,
        steps[0],
        0,
        num(crate::categories::c11_control_flow::LONG_SIZES@[k as u64 as int]),
        word1,
        words1,
    );
    let table1 = Thing::Table {
        layout: Layout::Val,
        scalar: Scalar::U32,
        columns: seq![words1],
        turn: 0 + 5 * k,
    };
    let m2 = crate::stage::lemma_create(m1, steps[1], 0, Layout::Val, Scalar::U32, 0, table1);
    crate::stage::lemma_asks_more(m, 0 + 5 * k, list0, Ask::Make(table1));
    let list1 = list0.push(Ask::Make(table1));
    let words2 = crate::stage::column(
        (crate::categories::c11_control_flow::LONG_SIZES@[k] as int),
        |i: int| crate::stage::flag(((i % 100) == 0)),
    );
    let word3 = same_as(modulo(ix(), num(100)), num(0));
    assert forall|i: int| 0 <= i < words2.len() implies crate::stage::meaning(
        word3,
        m2.contents,
        i,
    ) as u64 == #[trigger] words2[i] by {
        reveal_with_fuel(crate::stage::meaning, 4);
    }
    let m3 = crate::stage::lemma_filled(
        m2,
        steps[2],
        1,
        num(crate::categories::c11_control_flow::LONG_SIZES@[k as u64 as int]),
        word3,
        words2,
    );
    let m4 = crate::stage::lemma_reckon(m3, steps[3], 0);
    let kept1 = Thing::Kept { of: Box::new(table1), mask: words2, turn: 1 + 5 * k };
    let m5 = crate::stage::lemma_filter(m4, steps[4], 0, 1, 1, table1, words2, kept1);
    crate::stage::lemma_asks_more(m, 0 + 5 * k, list1, Ask::Make(kept1));
    let list2 = list1.push(Ask::Make(kept1));
    let m6 = crate::stage::lemma_count(m5, steps[5], 1, kept1);
    crate::stage::lemma_asks_more(m, 0 + 5 * k, list2, Ask::Rows(kept1));
    let list3 = list2.push(Ask::Rows(kept1));
    let m7 = crate::stage::lemma_download(m6, steps[6], 1, 0, Scalar::U32, 2, kept1);
    crate::stage::lemma_asks_more(
        m,
        0 + 5 * k,
        list3,
        Ask::Words { of: kept1, column: 0, scalar: Scalar::U32 },
    );
    let list4 = list3.push(Ask::Words { of: kept1, column: 0, scalar: Scalar::U32 });
    let m8 = crate::stage::lemma_look(m7, steps[7]);
    assert(sparse_predicate_sizes_1_asks(k) == list4);
    m8
}

/// What the device is asked in piece 2 of round `k` of the part `sizes` of `test_sparse_predicate`.
pub open spec fn sparse_predicate_sizes_2_asks(k: int) -> Seq<Ask> {
    seq![Ask::Other(Request::Release { from: 0 })]
}

/// Piece 2 of round `k` of the part `sizes` of `test_sparse_predicate` asks what it should.
proof fn lemma_sparse_predicate_sizes_2(m: Moment, steps: Seq<Step>, k: int) -> (n: Moment)
    requires
        0 <= k < 3,
        m.holds(),
        m.at == 0 + 9 * k + 8,
        m.used == 4 + 5 * k,
        0 + 9 * k + 9 <= m.plan.steps.len(),
        forall|j: int| 0 <= j < 9 ==> m.plan.steps[0 + 9 * k + j] == #[trigger] steps[j],
        crate::stage::inquires(steps[8], Request::Release { from: 0 }),
    ensures
        n.holds(),
        n.plan == m.plan,
        n.answers == m.answers,
        n.at == 0 + 9 * k + 9,
        n.used == m.used + 1,
        crate::stage::asks(m.plan, m.answers, 4 + 5 * k, sparse_predicate_sizes_2_asks(k)),
{
    crate::stage::lemma_full(m);
    crate::stage::lemma_asks_none(m, 4 + 5 * k);
    let list0 = Seq::<Ask>::empty();
    let m1 = crate::stage::lemma_release(m, steps[8], 0);
    crate::stage::lemma_asks_more(m, 4 + 5 * k, list0, Ask::Other(Request::Release { from: 0 }));
    let list1 = list0.push(Ask::Other(Request::Release { from: 0 }));
    assert(sparse_predicate_sizes_2_asks(k) == list1);
    m1
}

/// The steps of the part `sizes` of `test_sparse_predicate`.
proof fn lemma_sparse_predicate_sizes_steps(k: int)
    ensures
        ({
            let steps = crate::categories::c11_control_flow::sparse_predicate_sizes_round(k as u64);
            &&& steps.len() == 9
            &&& crate::stage::fills(
                steps[0],
                0,
                num(crate::categories::c11_control_flow::LONG_SIZES@[k as u64 as int]),
                ix(),
            )
            &&& crate::stage::demands(
                steps[1],
                Request::Create { into: 0, layout: Layout::Val, scalar: Scalar::U32, from: 0 },
            )
            &&& crate::stage::fills(
                steps[2],
                1,
                num(crate::categories::c11_control_flow::LONG_SIZES@[k as u64 as int]),
                same_as(modulo(ix(), num(100)), num(0)),
            )
            &&& crate::stage::reckons(steps[3], 0)
            &&& crate::stage::demands(steps[4], Request::Filter { of: 0, mask: 1, into: 1 })
            &&& crate::stage::counts(steps[5], 1)
            &&& crate::stage::demands(
                steps[6],
                Request::Download { of: 1, column: 0, scalar: Scalar::U32, into: 2 },
            )
            &&& crate::stage::looks(steps[7])
            &&& crate::stage::inquires(steps[8], Request::Release { from: 0 })
        }),
{
}

/// Round `k` of the part `sizes` of `test_sparse_predicate` asks what it should.
proof fn lemma_sparse_predicate_sizes_round(m: Moment, k: int) -> (n: Moment)
    requires
        0 <= k < 3,
        m.holds(),
        m.at == 0 + 9 * k,
        m.used == 0 + 5 * k,
        m.at + 9 <= m.plan.steps.len(),
        forall|j: int|
            0 <= j < 9 ==> m.plan.steps[0 + 9 * k + j] == #[trigger] crate::categories::c11_control_flow::sparse_predicate_sizes_round(
                k as u64,
            )[j],
    ensures
        n.holds(),
        n.plan == m.plan,
        n.answers == m.answers,
        n.at == 0 + 9 * (k + 1),
        n.used == 0 + 5 * (k + 1),
        crate::stage::asks(m.plan, m.answers, 0 + 5 * k, sparse_predicate_sizes_1_asks(k)),
        crate::stage::asks(m.plan, m.answers, 4 + 5 * k, sparse_predicate_sizes_2_asks(k)),
{
    let steps = crate::categories::c11_control_flow::sparse_predicate_sizes_round(k as u64);
    lemma_sparse_predicate_sizes_steps(k);
    let m1 = lemma_sparse_predicate_sizes_1(m, steps, k);
    lemma_sparse_predicate_sizes_2(m1, steps, k)
}

/// The first `k` rounds of the part `sizes` of `test_sparse_predicate` ask what they should.
proof fn lemma_sparse_predicate_sizes_rounds(m: Moment, part: Seq<Step>, k: int) -> (n: Moment)
    requires
        0 <= k <= 3,
        m.holds(),
        m.at == 0,
        m.used == 0 + 5 * 0,
        m.at + 27 <= m.plan.steps.len(),
        part == crate::script::rounds(
            3,
            |k: int| crate::categories::c11_control_flow::sparse_predicate_sizes_round(k as u64),
        ),
        forall|j: int| 0 <= j < 27 ==> m.plan.steps[0 + j] == #[trigger] part[j],
    ensures
        n.holds(),
        n.plan == m.plan,
        n.answers == m.answers,
        n.at == 0 + 9 * k,
        n.used == 0 + 5 * k,
        forall|j: int|
            0 <= j < k ==> crate::stage::asks(
                m.plan,
                m.answers,
                0 + 5 * j,
                #[trigger] sparse_predicate_sizes_1_asks(j),
            ),
        forall|j: int|
            0 <= j < k ==> crate::stage::asks(
                m.plan,
                m.answers,
                4 + 5 * j,
                #[trigger] sparse_predicate_sizes_2_asks(j),
            ),
    decreases k,
{
    if k == 0 {
        m
    } else {
        let round = |k: int| crate::categories::c11_control_flow::sparse_predicate_sizes_round(
            k as u64,
        );
        let before = lemma_sparse_predicate_sizes_rounds(m, part, k - 1);
        assert forall|j: int| 0 <= j < 9 implies m.plan.steps[before.at + j] == #[trigger] crate::categories::c11_control_flow::sparse_predicate_sizes_round(
            (k - 1) as u64,
        )[j] by {
            assert forall|k: int| 0 <= k < 3 implies (#[trigger] round(k)).len() == 9 by {
                lemma_sparse_predicate_sizes_steps(k);
            }
            crate::stage::lemma_round_place(3, round, 9, k - 1, j);
            assert(part[(k - 1) * 9 + j] == round(k - 1)[j]);
        }
        lemma_sparse_predicate_sizes_round(before, k - 1)
    }
}

/// What the device is asked in the part `end` of `test_sparse_predicate`.
pub open spec fn sparse_predicate_end_asks() -> Seq<Ask> {
    seq![Ask::Other(Request::Sync)]
}

/// The part `end` of `test_sparse_predicate` asks what it should.
proof fn lemma_sparse_predicate_end(m: Moment, steps: Seq<Step>) -> (n: Moment)
    requires
        m.holds(),
        m.at == 27,
        m.used == 15,
        27 + 1 <= m.plan.steps.len(),
        forall|j: int| 0 <= j < 1 ==> m.plan.steps[27 + j] == #[trigger] steps[j],
        crate::stage::demands(steps[0], Request::Sync),
    ensures
        n.holds(),
        n.plan == m.plan,
        n.answers == m.answers,
        n.at == 27 + 1,
        n.used == m.used + 1,
        crate::stage::asks(m.plan, m.answers, 15, sparse_predicate_end_asks()),
{
    crate::stage::lemma_full(m);
    crate::stage::lemma_asks_none(m, 15);
    let list0 = Seq::<Ask>::empty();
    let m1 = crate::stage::lemma_sync(m, steps[0]);
    crate::stage::lemma_asks_more(m, 15, list0, Ask::Other(Request::Sync));
    let list1 = list0.push(Ask::Other(Request::Sync));
    assert(sparse_predicate_end_asks() == list1);
    m1
}

/// The steps of the part `end` of `test_sparse_predicate`.
proof fn lemma_sparse_predicate_end_steps()
    ensures
        ({
            let steps = crate::categories::c11_control_flow::sparse_predicate_end_steps();
            &&& steps.len() == 1
            &&& crate::stage::demands(steps[0], Request::Sync)
        }),
{
}

/// In a run of `test_sparse_predicate` that passes the device is asked this, in this order, and
/// nothing else: each request about what an earlier one made is about that, and about what was
/// uploaded for it.
pub proof fn law_sparse_predicate_asks_about_what_it_made(answers: Seq<Answer>)
    requires
        crate::stage::passes(
            crate::script::plan(
                "test_sparse_predicate",
                crate::categories::c11_control_flow::sparse_predicate_steps(),
            ),
            answers,
        ),
    ensures
        forall|k: int|
            0 <= k < 3 ==> crate::stage::asks(
                crate::script::plan(
                    "test_sparse_predicate",
                    crate::categories::c11_control_flow::sparse_predicate_steps(),
                ),
                answers,
                0 + 5 * k,
                #[trigger] sparse_predicate_sizes_1_asks(k),
            ),
        forall|k: int|
            0 <= k < 3 ==> crate::stage::asks(
                crate::script::plan(
                    "test_sparse_predicate",
                    crate::categories::c11_control_flow::sparse_predicate_steps(),
                ),
                answers,
                4 + 5 * k,
                #[trigger] sparse_predicate_sizes_2_asks(k),
            ),
        crate::stage::asks(
            crate::script::plan(
                "test_sparse_predicate",
                crate::categories::c11_control_flow::sparse_predicate_steps(),
            ),
            answers,
            15,
            sparse_predicate_end_asks(),
        ),
        crate::stage::asked(
            crate::script::plan(
                "test_sparse_predicate",
                crate::categories::c11_control_flow::sparse_predicate_steps(),
            ),
            answers,
            16,
        ) is None,
{
    let plan = crate::script::plan(
        "test_sparse_predicate",
        crate::categories::c11_control_flow::sparse_predicate_steps(),
    );
    let round1 = |k: int| crate::categories::c11_control_flow::sparse_predicate_sizes_round(
        k as u64,
    );
    let part1 = crate::script::rounds(3, round1);
    assert forall|k: int| 0 <= k < 3 implies (#[trigger] round1(k)).len() == 9 by {
        lemma_sparse_predicate_sizes_steps(k);
    }
    crate::stage::lemma_rounds_length(3, round1, 9);
    let part2 = crate::categories::c11_control_flow::sparse_predicate_end_steps();
    lemma_sparse_predicate_end_steps();
    let whole1 = part1;
    let whole2 = whole1 + part2;
    assert(plan.steps == whole2);
    let m0 = crate::stage::lemma_start(plan, answers);
    assert forall|j: int| 0 <= j < 27 implies plan.steps[0 + j] == #[trigger] part1[j] by {}
    let m1 = lemma_sparse_predicate_sizes_rounds(m0, part1, 3);
    assert forall|j: int| 0 <= j < 1 implies plan.steps[27 + j] == #[trigger] part2[j] by {}
    let m2 = lemma_sparse_predicate_end(m1, part2);
    crate::stage::lemma_end(m2);
}

/// What the device is asked in piece 1 of round `k` of the part `sizes` of `test_dense_predicate`.
pub open spec fn dense_predicate_sizes_1_asks(k: int) -> Seq<Ask> {
    let words1 = crate::stage::column(
        (crate::categories::c11_control_flow::LONG_SIZES@[k] as int),
        |i: int| i,
    );
    let table1 = Thing::Table {
        layout: Layout::Val,
        scalar: Scalar::U32,
        columns: seq![words1],
        turn: 0 + 5 * k,
    };
    let words2 = crate::stage::column(
        (crate::categories::c11_control_flow::LONG_SIZES@[k] as int),
        |i: int| crate::stage::flag(((i % 100) != 0)),
    );
    let kept1 = Thing::Kept { of: Box::new(table1), mask: words2, turn: 1 + 5 * k };
    seq![
        Ask::Make(table1),
        Ask::Make(kept1),
        Ask::Rows(kept1),
        Ask::Words { of: kept1, column: 0, scalar: Scalar::U32 },
    ]
}

/// Piece 1 of round `k` of the part `sizes` of `test_dense_predicate` asks what it should.
proof fn lemma_dense_predicate_sizes_1(m: Moment, steps: Seq<Step>, k: int) -> (n: Moment)
    requires
        0 <= k < 3,
        m.holds(),
        m.at == 0 + 11 * k,
        m.used == 0 + 5 * k,
        0 + 11 * k + 11 <= m.plan.steps.len(),
        forall|j: int| 0 <= j < 11 ==> m.plan.steps[0 + 11 * k + j] == #[trigger] steps[j],
        crate::stage::fills(
            steps[0],
            0,
            num(crate::categories::c11_control_flow::LONG_SIZES@[k as u64 as int]),
            ix(),
        ),
        crate::stage::demands(
            steps[1],
            Request::Create { into: 0, layout: Layout::Val, scalar: Scalar::U32, from: 0 },
        ),
        crate::stage::fills(
            steps[2],
            1,
            num(crate::categories::c11_control_flow::LONG_SIZES@[k as u64 as int]),
            differs(modulo(ix(), num(100)), num(0)),
        ),
        crate::stage::reckons(steps[3], 0),
        crate::stage::demands(steps[4], Request::Filter { of: 0, mask: 1, into: 1 }),
        crate::stage::counts(steps[5], 1),
        crate::stage::demands(
            steps[6],
            Request::Download { of: 1, column: 0, scalar: Scalar::U32, into: 2 },
        ),
        crate::stage::looks(steps[7]),
    ensures
        n.holds(),
        n.plan == m.plan,
        n.answers == m.answers,
        n.at == 0 + 11 * k + 8,
        n.used == m.used + 4,
        crate::stage::asks(m.plan, m.answers, 0 + 5 * k, dense_predicate_sizes_1_asks(k)),
{
    crate::stage::lemma_full(m);
    crate::stage::lemma_asks_none(m, 0 + 5 * k);
    let list0 = Seq::<Ask>::empty();
    let words1 = crate::stage::column(
        (crate::categories::c11_control_flow::LONG_SIZES@[k] as int),
        |i: int| i,
    );
    let word1 = ix();
    assert forall|i: int| 0 <= i < words1.len() implies crate::stage::meaning(
        word1,
        m.contents,
        i,
    ) as u64 == #[trigger] words1[i] by {
        reveal_with_fuel(crate::stage::meaning, 1);
    }
    let m1 = crate::stage::lemma_filled(
        m,
        steps[0],
        0,
        num(crate::categories::c11_control_flow::LONG_SIZES@[k as u64 as int]),
        word1,
        words1,
    );
    let table1 = Thing::Table {
        layout: Layout::Val,
        scalar: Scalar::U32,
        columns: seq![words1],
        turn: 0 + 5 * k,
    };
    let m2 = crate::stage::lemma_create(m1, steps[1], 0, Layout::Val, Scalar::U32, 0, table1);
    crate::stage::lemma_asks_more(m, 0 + 5 * k, list0, Ask::Make(table1));
    let list1 = list0.push(Ask::Make(table1));
    let words2 = crate::stage::column(
        (crate::categories::c11_control_flow::LONG_SIZES@[k] as int),
        |i: int| crate::stage::flag(((i % 100) != 0)),
    );
    let word3 = differs(modulo(ix(), num(100)), num(0));
    assert forall|i: int| 0 <= i < words2.len() implies crate::stage::meaning(
        word3,
        m2.contents,
        i,
    ) as u64 == #[trigger] words2[i] by {
        reveal_with_fuel(crate::stage::meaning, 5);
    }
    let m3 = crate::stage::lemma_filled(
        m2,
        steps[2],
        1,
        num(crate::categories::c11_control_flow::LONG_SIZES@[k as u64 as int]),
        word3,
        words2,
    );
    let m4 = crate::stage::lemma_reckon(m3, steps[3], 0);
    let kept1 = Thing::Kept { of: Box::new(table1), mask: words2, turn: 1 + 5 * k };
    let m5 = crate::stage::lemma_filter(m4, steps[4], 0, 1, 1, table1, words2, kept1);
    crate::stage::lemma_asks_more(m, 0 + 5 * k, list1, Ask::Make(kept1));
    let list2 = list1.push(Ask::Make(kept1));
    let m6 = crate::stage::lemma_count(m5, steps[5], 1, kept1);
    crate::stage::lemma_asks_more(m, 0 + 5 * k, list2, Ask::Rows(kept1));
    let list3 = list2.push(Ask::Rows(kept1));
    let m7 = crate::stage::lemma_download(m6, steps[6], 1, 0, Scalar::U32, 2, kept1);
    crate::stage::lemma_asks_more(
        m,
        0 + 5 * k,
        list3,
        Ask::Words { of: kept1, column: 0, scalar: Scalar::U32 },
    );
    let list4 = list3.push(Ask::Words { of: kept1, column: 0, scalar: Scalar::U32 });
    let m8 = crate::stage::lemma_look(m7, steps[7]);
    assert(dense_predicate_sizes_1_asks(k) == list4);
    m8
}

/// What the device is asked in piece 2 of round `k` of the part `sizes` of `test_dense_predicate`.
pub open spec fn dense_predicate_sizes_2_asks(k: int) -> Seq<Ask> {
    seq![Ask::Other(Request::Release { from: 0 })]
}

/// Piece 2 of round `k` of the part `sizes` of `test_dense_predicate` asks what it should.
proof fn lemma_dense_predicate_sizes_2(m: Moment, steps: Seq<Step>, k: int) -> (n: Moment)
    requires
        0 <= k < 3,
        m.holds(),
        m.at == 0 + 11 * k + 8,
        m.used == 4 + 5 * k,
        0 + 11 * k + 11 <= m.plan.steps.len(),
        forall|j: int| 0 <= j < 11 ==> m.plan.steps[0 + 11 * k + j] == #[trigger] steps[j],
        crate::stage::works(steps[8], 3),
        crate::stage::looks(steps[9]),
        crate::stage::inquires(steps[10], Request::Release { from: 0 }),
    ensures
        n.holds(),
        n.plan == m.plan,
        n.answers == m.answers,
        n.at == 0 + 11 * k + 11,
        n.used == m.used + 1,
        crate::stage::asks(m.plan, m.answers, 4 + 5 * k, dense_predicate_sizes_2_asks(k)),
{
    crate::stage::lemma_full(m);
    crate::stage::lemma_asks_none(m, 4 + 5 * k);
    let list0 = Seq::<Ask>::empty();
    let m1 = crate::stage::lemma_work(m, steps[8], 3);
    let m2 = crate::stage::lemma_look(m1, steps[9]);
    let m3 = crate::stage::lemma_release(m2, steps[10], 0);
    crate::stage::lemma_asks_more(m, 4 + 5 * k, list0, Ask::Other(Request::Release { from: 0 }));
    let list1 = list0.push(Ask::Other(Request::Release { from: 0 }));
    assert(dense_predicate_sizes_2_asks(k) == list1);
    m3
}

/// The steps of the part `sizes` of `test_dense_predicate`.
proof fn lemma_dense_predicate_sizes_steps(k: int)
    ensures
        ({
            let steps = crate::categories::c11_control_flow::dense_predicate_sizes_round(k as u64);
            &&& steps.len() == 11
            &&& crate::stage::fills(
                steps[0],
                0,
                num(crate::categories::c11_control_flow::LONG_SIZES@[k as u64 as int]),
                ix(),
            )
            &&& crate::stage::demands(
                steps[1],
                Request::Create { into: 0, layout: Layout::Val, scalar: Scalar::U32, from: 0 },
            )
            &&& crate::stage::fills(
                steps[2],
                1,
                num(crate::categories::c11_control_flow::LONG_SIZES@[k as u64 as int]),
                differs(modulo(ix(), num(100)), num(0)),
            )
            &&& crate::stage::reckons(steps[3], 0)
            &&& crate::stage::demands(steps[4], Request::Filter { of: 0, mask: 1, into: 1 })
            &&& crate::stage::counts(steps[5], 1)
            &&& crate::stage::demands(
                steps[6],
                Request::Download { of: 1, column: 0, scalar: Scalar::U32, into: 2 },
            )
            &&& crate::stage::looks(steps[7])
            &&& crate::stage::works(steps[8], 3)
            &&& crate::stage::looks(steps[9])
            &&& crate::stage::inquires(steps[10], Request::Release { from: 0 })
        }),
{
}

/// Round `k` of the part `sizes` of `test_dense_predicate` asks what it should.
proof fn lemma_dense_predicate_sizes_round(m: Moment, k: int) -> (n: Moment)
    requires
        0 <= k < 3,
        m.holds(),
        m.at == 0 + 11 * k,
        m.used == 0 + 5 * k,
        m.at + 11 <= m.plan.steps.len(),
        forall|j: int|
            0 <= j < 11 ==> m.plan.steps[0 + 11 * k + j] == #[trigger] crate::categories::c11_control_flow::dense_predicate_sizes_round(
                k as u64,
            )[j],
    ensures
        n.holds(),
        n.plan == m.plan,
        n.answers == m.answers,
        n.at == 0 + 11 * (k + 1),
        n.used == 0 + 5 * (k + 1),
        crate::stage::asks(m.plan, m.answers, 0 + 5 * k, dense_predicate_sizes_1_asks(k)),
        crate::stage::asks(m.plan, m.answers, 4 + 5 * k, dense_predicate_sizes_2_asks(k)),
{
    let steps = crate::categories::c11_control_flow::dense_predicate_sizes_round(k as u64);
    lemma_dense_predicate_sizes_steps(k);
    let m1 = lemma_dense_predicate_sizes_1(m, steps, k);
    lemma_dense_predicate_sizes_2(m1, steps, k)
}

/// The first `k` rounds of the part `sizes` of `test_dense_predicate` ask what they should.
proof fn lemma_dense_predicate_sizes_rounds(m: Moment, part: Seq<Step>, k: int) -> (n: Moment)
    requires
        0 <= k <= 3,
        m.holds(),
        m.at == 0,
        m.used == 0 + 5 * 0,
        m.at + 33 <= m.plan.steps.len(),
        part == crate::script::rounds(
            3,
            |k: int| crate::categories::c11_control_flow::dense_predicate_sizes_round(k as u64),
        ),
        forall|j: int| 0 <= j < 33 ==> m.plan.steps[0 + j] == #[trigger] part[j],
    ensures
        n.holds(),
        n.plan == m.plan,
        n.answers == m.answers,
        n.at == 0 + 11 * k,
        n.used == 0 + 5 * k,
        forall|j: int|
            0 <= j < k ==> crate::stage::asks(
                m.plan,
                m.answers,
                0 + 5 * j,
                #[trigger] dense_predicate_sizes_1_asks(j),
            ),
        forall|j: int|
            0 <= j < k ==> crate::stage::asks(
                m.plan,
                m.answers,
                4 + 5 * j,
                #[trigger] dense_predicate_sizes_2_asks(j),
            ),
    decreases k,
{
    if k == 0 {
        m
    } else {
        let round = |k: int| crate::categories::c11_control_flow::dense_predicate_sizes_round(
            k as u64,
        );
        let before = lemma_dense_predicate_sizes_rounds(m, part, k - 1);
        assert forall|j: int| 0 <= j < 11 implies m.plan.steps[before.at + j] == #[trigger] crate::categories::c11_control_flow::dense_predicate_sizes_round(
            (k - 1) as u64,
        )[j] by {
            assert forall|k: int| 0 <= k < 3 implies (#[trigger] round(k)).len() == 11 by {
                lemma_dense_predicate_sizes_steps(k);
            }
            crate::stage::lemma_round_place(3, round, 11, k - 1, j);
            assert(part[(k - 1) * 11 + j] == round(k - 1)[j]);
        }
        lemma_dense_predicate_sizes_round(before, k - 1)
    }
}

/// What the device is asked in the part `end` of `test_dense_predicate`.
pub open spec fn dense_predicate_end_asks() -> Seq<Ask> {
    seq![Ask::Other(Request::Sync)]
}

/// The part `end` of `test_dense_predicate` asks what it should.
proof fn lemma_dense_predicate_end(m: Moment, steps: Seq<Step>) -> (n: Moment)
    requires
        m.holds(),
        m.at == 33,
        m.used == 15,
        33 + 1 <= m.plan.steps.len(),
        forall|j: int| 0 <= j < 1 ==> m.plan.steps[33 + j] == #[trigger] steps[j],
        crate::stage::demands(steps[0], Request::Sync),
    ensures
        n.holds(),
        n.plan == m.plan,
        n.answers == m.answers,
        n.at == 33 + 1,
        n.used == m.used + 1,
        crate::stage::asks(m.plan, m.answers, 15, dense_predicate_end_asks()),
{
    crate::stage::lemma_full(m);
    crate::stage::lemma_asks_none(m, 15);
    let list0 = Seq::<Ask>::empty();
    let m1 = crate::stage::lemma_sync(m, steps[0]);
    crate::stage::lemma_asks_more(m, 15, list0, Ask::Other(Request::Sync));
    let list1 = list0.push(Ask::Other(Request::Sync));
    assert(dense_predicate_end_asks() == list1);
    m1
}

/// The steps of the part `end` of `test_dense_predicate`.
proof fn lemma_dense_predicate_end_steps()
    ensures
        ({
            let steps = crate::categories::c11_control_flow::dense_predicate_end_steps();
            &&& steps.len() == 1
            &&& crate::stage::demands(steps[0], Request::Sync)
        }),
{
}

/// In a run of `test_dense_predicate` that passes the device is asked this, in this order, and
/// nothing else: each request about what an earlier one made is about that, and about what was
/// uploaded for it.
pub proof fn law_dense_predicate_asks_about_what_it_made(answers: Seq<Answer>)
    requires
        crate::stage::passes(
            crate::script::plan(
                "test_dense_predicate",
                crate::categories::c11_control_flow::dense_predicate_steps(),
            ),
            answers,
        ),
    ensures
        forall|k: int|
            0 <= k < 3 ==> crate::stage::asks(
                crate::script::plan(
                    "test_dense_predicate",
                    crate::categories::c11_control_flow::dense_predicate_steps(),
                ),
                answers,
                0 + 5 * k,
                #[trigger] dense_predicate_sizes_1_asks(k),
            ),
        forall|k: int|
            0 <= k < 3 ==> crate::stage::asks(
                crate::script::plan(
                    "test_dense_predicate",
                    crate::categories::c11_control_flow::dense_predicate_steps(),
                ),
                answers,
                4 + 5 * k,
                #[trigger] dense_predicate_sizes_2_asks(k),
            ),
        crate::stage::asks(
            crate::script::plan(
                "test_dense_predicate",
                crate::categories::c11_control_flow::dense_predicate_steps(),
            ),
            answers,
            15,
            dense_predicate_end_asks(),
        ),
        crate::stage::asked(
            crate::script::plan(
                "test_dense_predicate",
                crate::categories::c11_control_flow::dense_predicate_steps(),
            ),
            answers,
            16,
        ) is None,
{
    let plan = crate::script::plan(
        "test_dense_predicate",
        crate::categories::c11_control_flow::dense_predicate_steps(),
    );
    let round1 = |k: int| crate::categories::c11_control_flow::dense_predicate_sizes_round(
        k as u64,
    );
    let part1 = crate::script::rounds(3, round1);
    assert forall|k: int| 0 <= k < 3 implies (#[trigger] round1(k)).len() == 11 by {
        lemma_dense_predicate_sizes_steps(k);
    }
    crate::stage::lemma_rounds_length(3, round1, 11);
    let part2 = crate::categories::c11_control_flow::dense_predicate_end_steps();
    lemma_dense_predicate_end_steps();
    let whole1 = part1;
    let whole2 = whole1 + part2;
    assert(plan.steps == whole2);
    let m0 = crate::stage::lemma_start(plan, answers);
    assert forall|j: int| 0 <= j < 33 implies plan.steps[0 + j] == #[trigger] part1[j] by {}
    let m1 = lemma_dense_predicate_sizes_rounds(m0, part1, 3);
    assert forall|j: int| 0 <= j < 1 implies plan.steps[33 + j] == #[trigger] part2[j] by {}
    let m2 = lemma_dense_predicate_end(m1, part2);
    crate::stage::lemma_end(m2);
}

/// A buffer that is uploaded in round `k` of the part `sizes` of `test_alternating_predicate`.
pub open spec fn alternating_predicate_sizes_table1(k: int) -> Thing {
    Thing::Table {
        layout: Layout::Val,
        scalar: Scalar::U32,
        columns: seq![
            crate::stage::column(
                (crate::categories::c11_control_flow::SIZES@[k] as int),
                |i: int| i,
            ),
        ],
        turn: 0 + 8 * k,
    }
}

/// A column that is filled in round `k` of the part `sizes` of `test_alternating_predicate`.
pub open spec fn alternating_predicate_sizes_words3(k: int) -> Seq<u64> {
    crate::stage::column(
        (crate::categories::c11_control_flow::SIZES@[k] as int),
        |i: int| crate::stage::flag(((i % 2) != 0)),
    )
}

/// What the device is asked in piece 1 of round `k` of the part `sizes` of
/// `test_alternating_predicate`.
pub open spec fn alternating_predicate_sizes_1_asks(k: int) -> Seq<Ask> {
    let words2 = crate::stage::column(
        (crate::categories::c11_control_flow::SIZES@[k] as int),
        |i: int| crate::stage::flag(((i % 2) == 0)),
    );
    let kept1 = Thing::Kept {
        of: Box::new(alternating_predicate_sizes_table1(k)),
        mask: words2,
        turn: 1 + 8 * k,
    };
    seq![
        Ask::Make(alternating_predicate_sizes_table1(k)),
        Ask::Make(kept1),
        Ask::Rows(kept1),
        Ask::Words { of: kept1, column: 0, scalar: Scalar::U32 },
    ]
}

/// Piece 1 of round `k` of the part `sizes` of `test_alternating_predicate` asks what it should.
proof fn lemma_alternating_predicate_sizes_1(m: Moment, steps: Seq<Step>, k: int) -> (n: Moment)
    requires
        0 <= k < 4,
        m.holds(),
        m.at == 0 + 13 * k,
        m.used == 0 + 8 * k,
        0 + 13 * k + 13 <= m.plan.steps.len(),
        forall|j: int| 0 <= j < 13 ==> m.plan.steps[0 + 13 * k + j] == #[trigger] steps[j],
        crate::stage::fills(
            steps[0],
            0,
            num(crate::categories::c11_control_flow::SIZES@[k as u64 as int]),
            ix(),
        ),
        crate::stage::demands(
            steps[1],
            Request::Create { into: 0, layout: Layout::Val, scalar: Scalar::U32, from: 0 },
        ),
        crate::stage::fills(
            steps[2],
            1,
            num(crate::categories::c11_control_flow::SIZES@[k as u64 as int]),
            same_as(modulo(ix(), num(2)), num(0)),
        ),
        crate::stage::demands(steps[3], Request::Filter { of: 0, mask: 1, into: 1 }),
        crate::stage::counts(steps[4], 1),
        crate::stage::demands(
            steps[5],
            Request::Download { of: 1, column: 0, scalar: Scalar::U32, into: 2 },
        ),
        crate::stage::looks(steps[6]),
        crate::stage::fills(
            steps[7],
            1,
            num(crate::categories::c11_control_flow::SIZES@[k as u64 as int]),
            differs(modulo(ix(), num(2)), num(0)),
        ),
    ensures
        n.holds(),
        n.plan == m.plan,
        n.answers == m.answers,
        n.at == 0 + 13 * k + 8,
        n.used == m.used + 4,
        n.contents.columns[1] == alternating_predicate_sizes_words3(k),
        n.scene.buffer(0) == alternating_predicate_sizes_table1(k),
        crate::stage::asks(m.plan, m.answers, 0 + 8 * k, alternating_predicate_sizes_1_asks(k)),
{
    crate::stage::lemma_full(m);
    crate::stage::lemma_asks_none(m, 0 + 8 * k);
    let list0 = Seq::<Ask>::empty();
    let words1 = crate::stage::column(
        (crate::categories::c11_control_flow::SIZES@[k] as int),
        |i: int| i,
    );
    let word1 = ix();
    assert forall|i: int| 0 <= i < words1.len() implies crate::stage::meaning(
        word1,
        m.contents,
        i,
    ) as u64 == #[trigger] words1[i] by {
        reveal_with_fuel(crate::stage::meaning, 1);
    }
    let m1 = crate::stage::lemma_filled(
        m,
        steps[0],
        0,
        num(crate::categories::c11_control_flow::SIZES@[k as u64 as int]),
        word1,
        words1,
    );
    let m2 = crate::stage::lemma_create(
        m1,
        steps[1],
        0,
        Layout::Val,
        Scalar::U32,
        0,
        alternating_predicate_sizes_table1(k),
    );
    crate::stage::lemma_asks_more(
        m,
        0 + 8 * k,
        list0,
        Ask::Make(alternating_predicate_sizes_table1(k)),
    );
    let list1 = list0.push(Ask::Make(alternating_predicate_sizes_table1(k)));
    let words2 = crate::stage::column(
        (crate::categories::c11_control_flow::SIZES@[k] as int),
        |i: int| crate::stage::flag(((i % 2) == 0)),
    );
    let word3 = same_as(modulo(ix(), num(2)), num(0));
    assert forall|i: int| 0 <= i < words2.len() implies crate::stage::meaning(
        word3,
        m2.contents,
        i,
    ) as u64 == #[trigger] words2[i] by {
        reveal_with_fuel(crate::stage::meaning, 4);
    }
    let m3 = crate::stage::lemma_filled(
        m2,
        steps[2],
        1,
        num(crate::categories::c11_control_flow::SIZES@[k as u64 as int]),
        word3,
        words2,
    );
    let kept1 = Thing::Kept {
        of: Box::new(alternating_predicate_sizes_table1(k)),
        mask: words2,
        turn: 1 + 8 * k,
    };
    let m4 = crate::stage::lemma_filter(
        m3,
        steps[3],
        0,
        1,
        1,
        alternating_predicate_sizes_table1(k),
        words2,
        kept1,
    );
    crate::stage::lemma_asks_more(m, 0 + 8 * k, list1, Ask::Make(kept1));
    let list2 = list1.push(Ask::Make(kept1));
    let m5 = crate::stage::lemma_count(m4, steps[4], 1, kept1);
    crate::stage::lemma_asks_more(m, 0 + 8 * k, list2, Ask::Rows(kept1));
    let list3 = list2.push(Ask::Rows(kept1));
    let m6 = crate::stage::lemma_download(m5, steps[5], 1, 0, Scalar::U32, 2, kept1);
    crate::stage::lemma_asks_more(
        m,
        0 + 8 * k,
        list3,
        Ask::Words { of: kept1, column: 0, scalar: Scalar::U32 },
    );
    let list4 = list3.push(Ask::Words { of: kept1, column: 0, scalar: Scalar::U32 });
    let m7 = crate::stage::lemma_look(m6, steps[6]);
    let words3 = alternating_predicate_sizes_words3(k);
    let word8 = differs(modulo(ix(), num(2)), num(0));
    assert forall|i: int| 0 <= i < words3.len() implies crate::stage::meaning(
        word8,
        m7.contents,
        i,
    ) as u64 == #[trigger] words3[i] by {
        reveal_with_fuel(crate::stage::meaning, 5);
    }
    let m8 = crate::stage::lemma_filled(
        m7,
        steps[7],
        1,
        num(crate::categories::c11_control_flow::SIZES@[k as u64 as int]),
        word8,
        words3,
    );
    assert(alternating_predicate_sizes_1_asks(k) == list4);
    m8
}

/// What the device is asked in piece 2 of round `k` of the part `sizes` of
/// `test_alternating_predicate`.
pub open spec fn alternating_predicate_sizes_2_asks(k: int) -> Seq<Ask> {
    let kept2 = Thing::Kept {
        of: Box::new(alternating_predicate_sizes_table1(k)),
        mask: alternating_predicate_sizes_words3(k),
        turn: 4 + 8 * k,
    };
    seq![
        Ask::Make(kept2),
        Ask::Rows(kept2),
        Ask::Words { of: kept2, column: 0, scalar: Scalar::U32 },
        Ask::Other(Request::Release { from: 0 }),
    ]
}

/// Piece 2 of round `k` of the part `sizes` of `test_alternating_predicate` asks what it should.
proof fn lemma_alternating_predicate_sizes_2(m: Moment, steps: Seq<Step>, k: int) -> (n: Moment)
    requires
        0 <= k < 4,
        m.holds(),
        m.at == 0 + 13 * k + 8,
        m.used == 4 + 8 * k,
        0 + 13 * k + 13 <= m.plan.steps.len(),
        forall|j: int| 0 <= j < 13 ==> m.plan.steps[0 + 13 * k + j] == #[trigger] steps[j],
        crate::stage::demands(steps[8], Request::Filter { of: 0, mask: 1, into: 2 }),
        crate::stage::counts(steps[9], 2),
        crate::stage::demands(
            steps[10],
            Request::Download { of: 2, column: 0, scalar: Scalar::U32, into: 3 },
        ),
        crate::stage::looks(steps[11]),
        crate::stage::inquires(steps[12], Request::Release { from: 0 }),
        m.contents.columns[1] == alternating_predicate_sizes_words3(k),
        m.scene.buffer(0) == alternating_predicate_sizes_table1(k),
    ensures
        n.holds(),
        n.plan == m.plan,
        n.answers == m.answers,
        n.at == 0 + 13 * k + 13,
        n.used == m.used + 4,
        crate::stage::asks(m.plan, m.answers, 4 + 8 * k, alternating_predicate_sizes_2_asks(k)),
{
    crate::stage::lemma_full(m);
    crate::stage::lemma_asks_none(m, 4 + 8 * k);
    let list0 = Seq::<Ask>::empty();
    let kept2 = Thing::Kept {
        of: Box::new(alternating_predicate_sizes_table1(k)),
        mask: alternating_predicate_sizes_words3(k),
        turn: 4 + 8 * k,
    };
    let m1 = crate::stage::lemma_filter(
        m,
        steps[8],
        0,
        1,
        2,
        alternating_predicate_sizes_table1(k),
        alternating_predicate_sizes_words3(k),
        kept2,
    );
    crate::stage::lemma_asks_more(m, 4 + 8 * k, list0, Ask::Make(kept2));
    let list1 = list0.push(Ask::Make(kept2));
    let m2 = crate::stage::lemma_count(m1, steps[9], 2, kept2);
    crate::stage::lemma_asks_more(m, 4 + 8 * k, list1, Ask::Rows(kept2));
    let list2 = list1.push(Ask::Rows(kept2));
    let m3 = crate::stage::lemma_download(m2, steps[10], 2, 0, Scalar::U32, 3, kept2);
    crate::stage::lemma_asks_more(
        m,
        4 + 8 * k,
        list2,
        Ask::Words { of: kept2, column: 0, scalar: Scalar::U32 },
    );
    let list3 = list2.push(Ask::Words { of: kept2, column: 0, scalar: Scalar::U32 });
    let m4 = crate::stage::lemma_look(m3, steps[11]);
    let m5 = crate::stage::lemma_release(m4, steps[12], 0);
    crate::stage::lemma_asks_more(m, 4 + 8 * k, list3, Ask::Other(Request::Release { from: 0 }));
    let list4 = list3.push(Ask::Other(Request::Release { from: 0 }));
    assert(alternating_predicate_sizes_2_asks(k) == list4);
    m5
}

/// The steps of the part `sizes` of `test_alternating_predicate`.
proof fn lemma_alternating_predicate_sizes_steps(k: int)
    ensures
        ({
            let steps = crate::categories::c11_control_flow::alternating_predicate_sizes_round(
                k as u64,
            );
            &&& steps.len() == 13
            &&& crate::stage::fills(
                steps[0],
                0,
                num(crate::categories::c11_control_flow::SIZES@[k as u64 as int]),
                ix(),
            )
            &&& crate::stage::demands(
                steps[1],
                Request::Create { into: 0, layout: Layout::Val, scalar: Scalar::U32, from: 0 },
            )
            &&& crate::stage::fills(
                steps[2],
                1,
                num(crate::categories::c11_control_flow::SIZES@[k as u64 as int]),
                same_as(modulo(ix(), num(2)), num(0)),
            )
            &&& crate::stage::demands(steps[3], Request::Filter { of: 0, mask: 1, into: 1 })
            &&& crate::stage::counts(steps[4], 1)
            &&& crate::stage::demands(
                steps[5],
                Request::Download { of: 1, column: 0, scalar: Scalar::U32, into: 2 },
            )
            &&& crate::stage::looks(steps[6])
            &&& crate::stage::fills(
                steps[7],
                1,
                num(crate::categories::c11_control_flow::SIZES@[k as u64 as int]),
                differs(modulo(ix(), num(2)), num(0)),
            )
            &&& crate::stage::demands(steps[8], Request::Filter { of: 0, mask: 1, into: 2 })
            &&& crate::stage::counts(steps[9], 2)
            &&& crate::stage::demands(
                steps[10],
                Request::Download { of: 2, column: 0, scalar: Scalar::U32, into: 3 },
            )
            &&& crate::stage::looks(steps[11])
            &&& crate::stage::inquires(steps[12], Request::Release { from: 0 })
        }),
{
}

/// Round `k` of the part `sizes` of `test_alternating_predicate` asks what it should.
proof fn lemma_alternating_predicate_sizes_round(m: Moment, k: int) -> (n: Moment)
    requires
        0 <= k < 4,
        m.holds(),
        m.at == 0 + 13 * k,
        m.used == 0 + 8 * k,
        m.at + 13 <= m.plan.steps.len(),
        forall|j: int|
            0 <= j < 13 ==> m.plan.steps[0 + 13 * k + j] == #[trigger] crate::categories::c11_control_flow::alternating_predicate_sizes_round(
                k as u64,
            )[j],
    ensures
        n.holds(),
        n.plan == m.plan,
        n.answers == m.answers,
        n.at == 0 + 13 * (k + 1),
        n.used == 0 + 8 * (k + 1),
        crate::stage::asks(m.plan, m.answers, 0 + 8 * k, alternating_predicate_sizes_1_asks(k)),
        crate::stage::asks(m.plan, m.answers, 4 + 8 * k, alternating_predicate_sizes_2_asks(k)),
{
    let steps = crate::categories::c11_control_flow::alternating_predicate_sizes_round(k as u64);
    lemma_alternating_predicate_sizes_steps(k);
    let m1 = lemma_alternating_predicate_sizes_1(m, steps, k);
    lemma_alternating_predicate_sizes_2(m1, steps, k)
}

/// The first `k` rounds of the part `sizes` of `test_alternating_predicate` ask what they should.
proof fn lemma_alternating_predicate_sizes_rounds(m: Moment, part: Seq<Step>, k: int) -> (n: Moment)
    requires
        0 <= k <= 4,
        m.holds(),
        m.at == 0,
        m.used == 0 + 8 * 0,
        m.at + 52 <= m.plan.steps.len(),
        part == crate::script::rounds(
            4,
            |k: int| crate::categories::c11_control_flow::alternating_predicate_sizes_round(
                k as u64,
            ),
        ),
        forall|j: int| 0 <= j < 52 ==> m.plan.steps[0 + j] == #[trigger] part[j],
    ensures
        n.holds(),
        n.plan == m.plan,
        n.answers == m.answers,
        n.at == 0 + 13 * k,
        n.used == 0 + 8 * k,
        forall|j: int|
            0 <= j < k ==> crate::stage::asks(
                m.plan,
                m.answers,
                0 + 8 * j,
                #[trigger] alternating_predicate_sizes_1_asks(j),
            ),
        forall|j: int|
            0 <= j < k ==> crate::stage::asks(
                m.plan,
                m.answers,
                4 + 8 * j,
                #[trigger] alternating_predicate_sizes_2_asks(j),
            ),
    decreases k,
{
    if k == 0 {
        m
    } else {
        let round = |k: int| crate::categories::c11_control_flow::alternating_predicate_sizes_round(
            k as u64,
        );
        let before = lemma_alternating_predicate_sizes_rounds(m, part, k - 1);
        assert forall|j: int| 0 <= j < 13 implies m.plan.steps[before.at + j] == #[trigger] crate::categories::c11_control_flow::alternating_predicate_sizes_round(
            (k - 1) as u64,
        )[j] by {
            assert forall|k: int| 0 <= k < 4 implies (#[trigger] round(k)).len() == 13 by {
                lemma_alternating_predicate_sizes_steps(k);
            }
            crate::stage::lemma_round_place(4, round, 13, k - 1, j);
            assert(part[(k - 1) * 13 + j] == round(k - 1)[j]);
        }
        lemma_alternating_predicate_sizes_round(before, k - 1)
    }
}

/// What the device is asked in the part `end` of `test_alternating_predicate`.
pub open spec fn alternating_predicate_end_asks() -> Seq<Ask> {
    seq![Ask::Other(Request::Sync)]
}

/// The part `end` of `test_alternating_predicate` asks what it should.
proof fn lemma_alternating_predicate_end(m: Moment, steps: Seq<Step>) -> (n: Moment)
    requires
        m.holds(),
        m.at == 52,
        m.used == 32,
        52 + 1 <= m.plan.steps.len(),
        forall|j: int| 0 <= j < 1 ==> m.plan.steps[52 + j] == #[trigger] steps[j],
        crate::stage::demands(steps[0], Request::Sync),
    ensures
        n.holds(),
        n.plan == m.plan,
        n.answers == m.answers,
        n.at == 52 + 1,
        n.used == m.used + 1,
        crate::stage::asks(m.plan, m.answers, 32, alternating_predicate_end_asks()),
{
    crate::stage::lemma_full(m);
    crate::stage::lemma_asks_none(m, 32);
    let list0 = Seq::<Ask>::empty();
    let m1 = crate::stage::lemma_sync(m, steps[0]);
    crate::stage::lemma_asks_more(m, 32, list0, Ask::Other(Request::Sync));
    let list1 = list0.push(Ask::Other(Request::Sync));
    assert(alternating_predicate_end_asks() == list1);
    m1
}

/// The steps of the part `end` of `test_alternating_predicate`.
proof fn lemma_alternating_predicate_end_steps()
    ensures
        ({
            let steps = crate::categories::c11_control_flow::alternating_predicate_end_steps();
            &&& steps.len() == 1
            &&& crate::stage::demands(steps[0], Request::Sync)
        }),
{
}

/// In a run of `test_alternating_predicate` that passes the device is asked this, in this order,
/// and nothing else: each request about what an earlier one made is about that, and about what was
/// uploaded for it.
pub proof fn law_alternating_predicate_asks_about_what_it_made(answers: Seq<Answer>)
    requires
        crate::stage::passes(
            crate::script::plan(
                "test_alternating_predicate",
                crate::categories::c11_control_flow::alternating_predicate_steps(),
            ),
            answers,
        ),
    ensures
        forall|k: int|
            0 <= k < 4 ==> crate::stage::asks(
                crate::script::plan(
                    "test_alternating_predicate",
                    crate::categories::c11_control_flow::alternating_predicate_steps(),
                ),
                answers,
                0 + 8 * k,
                #[trigger] alternating_predicate_sizes_1_asks(k),
            ),
        forall|k: int|
            0 <= k < 4 ==> crate::stage::asks(
                crate::script::plan(
                    "test_alternating_predicate",
                    crate::categories::c11_control_flow::alternating_predicate_steps(),
                ),
                answers,
                4 + 8 * k,
                #[trigger] alternating_predicate_sizes_2_asks(k),
            ),
        crate::stage::asks(
            crate::script::plan(
                "test_alternating_predicate",
                crate::categories::c11_control_flow::alternating_predicate_steps(),
            ),
            answers,
            32,
            alternating_predicate_end_asks(),
        ),
        crate::stage::asked(
            crate::script::plan(
                "test_alternating_predicate",
                crate::categories::c11_control_flow::alternating_predicate_steps(),
            ),
            answers,
            33,
        ) is None,
{
    let plan = crate::script::plan(
        "test_alternating_predicate",
        crate::categories::c11_control_flow::alternating_predicate_steps(),
    );
    let round1 = |k: int| crate::categories::c11_control_flow::alternating_predicate_sizes_round(
        k as u64,
    );
    let part1 = crate::script::rounds(4, round1);
    assert forall|k: int| 0 <= k < 4 implies (#[trigger] round1(k)).len() == 13 by {
        lemma_alternating_predicate_sizes_steps(k);
    }
    crate::stage::lemma_rounds_length(4, round1, 13);
    let part2 = crate::categories::c11_control_flow::alternating_predicate_end_steps();
    lemma_alternating_predicate_end_steps();
    let whole1 = part1;
    let whole2 = whole1 + part2;
    assert(plan.steps == whole2);
    let m0 = crate::stage::lemma_start(plan, answers);
    assert forall|j: int| 0 <= j < 52 implies plan.steps[0 + j] == #[trigger] part1[j] by {}
    let m1 = lemma_alternating_predicate_sizes_rounds(m0, part1, 4);
    assert forall|j: int| 0 <= j < 1 implies plan.steps[52 + j] == #[trigger] part2[j] by {}
    let m2 = lemma_alternating_predicate_end(m1, part2);
    crate::stage::lemma_end(m2);
}

} // verus!
