//! What these tests ask the device in runs that pass: `test_warp_size_operations`,
//! `test_partial_warp_correctness`, `test_warp_divergence_patterns`.

use vstd::prelude::*;
use crate::expr::{ix, lt, minus, modulo, num, over, pick, plus, same_as, times};
use crate::machine::Answer;
use crate::scalar::Scalar;
use crate::script::{after, Layout, Request, Step};
use crate::stage::{Ask, Moment, Thing};

verus! {

/// A buffer that is uploaded in round `k` of the part `sizes` of `test_warp_size_operations`.
pub open spec fn warp_size_operations_sizes_table1(k: int) -> Thing {
    Thing::Table {
        layout: Layout::Val,
        scalar: Scalar::U32,
        columns: seq![
            crate::stage::column(
                (crate::categories::c09_warp_level::WARP_SIZES@[k] as int),
                |i: int| ((crate::categories::c09_warp_level::WARP_SIZES@[k] as int) - 1) - i,
            ),
        ],
        turn: 0 + 7 * k,
    }
}

/// A column that is filled in round `k` of the part `sizes` of `test_warp_size_operations`.
pub open spec fn warp_size_operations_sizes_words2(k: int) -> Seq<u64> {
    crate::stage::column(
        (crate::categories::c09_warp_level::WARP_SIZES@[k] as int),
        |i: int| crate::stage::flag(((i % 2) == 0)),
    )
}

/// What the device is asked in piece 1 of round `k` of the part `sizes` of
/// `test_warp_size_operations`.
pub open spec fn warp_size_operations_sizes_1_asks(k: int) -> Seq<Ask> {
    let sorted1 = Thing::Sorted {
        of: Box::new(warp_size_operations_sizes_table1(k)),
        keys: 1,
        turn: 1 + 7 * k,
    };
    seq![
        Ask::Make(warp_size_operations_sizes_table1(k)),
        Ask::Make(sorted1),
        Ask::Handle(sorted1),
        Ask::Words { of: sorted1, column: 0, scalar: Scalar::U32 },
    ]
}

/// Piece 1 of round `k` of the part `sizes` of `test_warp_size_operations` asks what it should.
proof fn lemma_warp_size_operations_sizes_1(m: Moment, steps: Seq<Step>, k: int) -> (n: Moment)
    requires
        0 <= k < 6,
        m.holds(),
        m.at == 0 + 12 * k,
        m.used == 0 + 7 * k,
        0 + 12 * k + 12 <= m.plan.steps.len(),
        forall|j: int| 0 <= j < 12 ==> m.plan.steps[0 + 12 * k + j] == #[trigger] steps[j],
        crate::stage::fills(
            steps[0],
            0,
            num(crate::categories::c09_warp_level::WARP_SIZES@[k as u64 as int]),
            minus(
                minus(num(crate::categories::c09_warp_level::WARP_SIZES@[k as u64 as int]), num(1)),
                ix(),
            ),
        ),
        crate::stage::demands(
            steps[1],
            Request::Create { into: 0, layout: Layout::Val, scalar: Scalar::U32, from: 0 },
        ),
        crate::stage::demands(steps[2], Request::Sort { of: 0, keys: 1, into: 1 }),
        crate::stage::inquires(steps[3], Request::RowsKnown { of: 1, into: 0 }),
        crate::stage::looks(steps[4]),
        crate::stage::demands(
            steps[5],
            Request::Download { of: 1, column: 0, scalar: Scalar::U32, into: 1 },
        ),
        crate::stage::looks(steps[6]),
        crate::stage::fills(
            steps[7],
            2,
            num(crate::categories::c09_warp_level::WARP_SIZES@[k as u64 as int]),
            same_as(modulo(ix(), num(2)), num(0)),
        ),
    ensures
        n.holds(),
        n.plan == m.plan,
        n.answers == m.answers,
        n.at == 0 + 12 * k + 8,
        n.used == m.used + 4,
        n.contents.columns[2] == warp_size_operations_sizes_words2(k),
        n.scene.buffer(0) == warp_size_operations_sizes_table1(k),
        crate::stage::asks(m.plan, m.answers, 0 + 7 * k, warp_size_operations_sizes_1_asks(k)),
{
    crate::stage::lemma_full(m);
    crate::stage::lemma_asks_none(m, 0 + 7 * k);
    let list0 = Seq::<Ask>::empty();
    let words1 = crate::stage::column(
        (crate::categories::c09_warp_level::WARP_SIZES@[k] as int),
        |i: int| ((crate::categories::c09_warp_level::WARP_SIZES@[k] as int) - 1) - i,
    );
    let word1 = minus(
        minus(num(crate::categories::c09_warp_level::WARP_SIZES@[k as u64 as int]), num(1)),
        ix(),
    );
    assert forall|i: int| 0 <= i < words1.len() implies crate::stage::meaning(
        word1,
        m.contents,
        i,
    ) as u64 == #[trigger] words1[i] by {
        reveal_with_fuel(crate::stage::meaning, 4);
    }
    let m1 = crate::stage::lemma_filled(
        m,
        steps[0],
        0,
        num(crate::categories::c09_warp_level::WARP_SIZES@[k as u64 as int]),
        word1,
        words1,
    );
    let m2 = crate::stage::lemma_create(
        m1,
        steps[1],
        0,
        Layout::Val,
        Scalar::U32,
        0,
        warp_size_operations_sizes_table1(k),
    );
    crate::stage::lemma_asks_more(
        m,
        0 + 7 * k,
        list0,
        Ask::Make(warp_size_operations_sizes_table1(k)),
    );
    let list1 = list0.push(Ask::Make(warp_size_operations_sizes_table1(k)));
    let sorted1 = Thing::Sorted {
        of: Box::new(warp_size_operations_sizes_table1(k)),
        keys: 1,
        turn: 1 + 7 * k,
    };
    let m3 = crate::stage::lemma_sort(
        m2,
        steps[2],
        0,
        1,
        1,
        warp_size_operations_sizes_table1(k),
        sorted1,
    );
    crate::stage::lemma_asks_more(m, 0 + 7 * k, list1, Ask::Make(sorted1));
    let list2 = list1.push(Ask::Make(sorted1));
    let m4 = crate::stage::lemma_handle(m3, steps[3], 1, 0, sorted1);
    crate::stage::lemma_asks_more(m, 0 + 7 * k, list2, Ask::Handle(sorted1));
    let list3 = list2.push(Ask::Handle(sorted1));
    let m5 = crate::stage::lemma_look(m4, steps[4]);
    let m6 = crate::stage::lemma_download(m5, steps[5], 1, 0, Scalar::U32, 1, sorted1);
    crate::stage::lemma_asks_more(
        m,
        0 + 7 * k,
        list3,
        Ask::Words { of: sorted1, column: 0, scalar: Scalar::U32 },
    );
    let list4 = list3.push(Ask::Words { of: sorted1, column: 0, scalar: Scalar::U32 });
    let m7 = crate::stage::lemma_look(m6, steps[6]);
    let words2 = warp_size_operations_sizes_words2(k);
    let word8 = same_as(modulo(ix(), num(2)), num(0));
    assert forall|i: int| 0 <= i < words2.len() implies crate::stage::meaning(
        word8,
        m7.contents,
        i,
    ) as u64 == #[trigger] words2[i] by {
        reveal_with_fuel(crate::stage::meaning, 4);
    }
    let m8 = crate::stage::lemma_filled(
        m7,
        steps[7],
        2,
        num(crate::categories::c09_warp_level::WARP_SIZES@[k as u64 as int]),
        word8,
        words2,
    );
    assert(warp_size_operations_sizes_1_asks(k) == list4);
    m8
}

/// What the device is asked in piece 2 of round `k` of the part `sizes` of
/// `test_warp_size_operations`.
pub open spec fn warp_size_operations_sizes_2_asks(k: int) -> Seq<Ask> {
    let kept1 = Thing::Kept {
        of: Box::new(warp_size_operations_sizes_table1(k)),
        mask: warp_size_operations_sizes_words2(k),
        turn: 4 + 7 * k,
    };
    seq![Ask::Make(kept1), Ask::Handle(kept1), Ask::Other(Request::Release { from: 0 })]
}

/// Piece 2 of round `k` of the part `sizes` of `test_warp_size_operations` asks what it should.
proof fn lemma_warp_size_operations_sizes_2(m: Moment, steps: Seq<Step>, k: int) -> (n: Moment)
    requires
        0 <= k < 6,
        m.holds(),
        m.at == 0 + 12 * k + 8,
        m.used == 4 + 7 * k,
        0 + 12 * k + 12 <= m.plan.steps.len(),
        forall|j: int| 0 <= j < 12 ==> m.plan.steps[0 + 12 * k + j] == #[trigger] steps[j],
        crate::stage::demands(steps[8], Request::Filter { of: 0, mask: 2, into: 2 }),
        crate::stage::inquires(steps[9], Request::RowsKnown { of: 2, into: 0 }),
        crate::stage::looks(steps[10]),
        crate::stage::inquires(steps[11], Request::Release { from: 0 }),
        m.contents.columns[2] == warp_size_operations_sizes_words2(k),
        m.scene.buffer(0) == warp_size_operations_sizes_table1(k),
    ensures
        n.holds(),
        n.plan == m.plan,
        n.answers == m.answers,
        n.at == 0 + 12 * k + 12,
        n.used == m.used + 3,
        crate::stage::asks(m.plan, m.answers, 4 + 7 * k, warp_size_operations_sizes_2_asks(k)),
{
    crate::stage::lemma_full(m);
    crate::stage::lemma_asks_none(m, 4 + 7 * k);
    let list0 = Seq::<Ask>::empty();
    let kept1 = Thing::Kept {
        of: Box::new(warp_size_operations_sizes_table1(k)),
        mask: warp_size_operations_sizes_words2(k),
        turn: 4 + 7 * k,
    };
    let m1 = crate::stage::lemma_filter(
        m,
        steps[8],
        0,
        2,
        2,
        warp_size_operations_sizes_table1(k),
        warp_size_operations_sizes_words2(k),
        kept1,
    );
    crate::stage::lemma_asks_more(m, 4 + 7 * k, list0, Ask::Make(kept1));
    let list1 = list0.push(Ask::Make(kept1));
    let m2 = crate::stage::lemma_handle(m1, steps[9], 2, 0, kept1);
    crate::stage::lemma_asks_more(m, 4 + 7 * k, list1, Ask::Handle(kept1));
    let list2 = list1.push(Ask::Handle(kept1));
    let m3 = crate::stage::lemma_look(m2, steps[10]);
    let m4 = crate::stage::lemma_release(m3, steps[11], 0);
    crate::stage::lemma_asks_more(m, 4 + 7 * k, list2, Ask::Other(Request::Release { from: 0 }));
    let list3 = list2.push(Ask::Other(Request::Release { from: 0 }));
    assert(warp_size_operations_sizes_2_asks(k) == list3);
    m4
}

/// The steps of the part `sizes` of `test_warp_size_operations`.
proof fn lemma_warp_size_operations_sizes_steps(k: int)
    ensures
        ({
            let steps = crate::categories::c09_warp_level::warp_size_operations_sizes_round(
                k as u64,
            );
            &&& steps.len() == 12
            &&& crate::stage::fills(
                steps[0],
                0,
                num(crate::categories::c09_warp_level::WARP_SIZES@[k as u64 as int]),
                minus(
                    minus(
                        num(crate::categories::c09_warp_level::WARP_SIZES@[k as u64 as int]),
                        num(1),
                    ),
                    ix(),
                ),
            )
            &&& crate::stage::demands(
                steps[1],
                Request::Create { into: 0, layout: Layout::Val, scalar: Scalar::U32, from: 0 },
            )
            &&& crate::stage::demands(steps[2], Request::Sort { of: 0, keys: 1, into: 1 })
            &&& crate::stage::inquires(steps[3], Request::RowsKnown { of: 1, into: 0 })
            &&& crate::stage::looks(steps[4])
            &&& crate::stage::demands(
                steps[5],
                Request::Download { of: 1, column: 0, scalar: Scalar::U32, into: 1 },
            )
            &&& crate::stage::looks(steps[6])
            &&& crate::stage::fills(
                steps[7],
                2,
                num(crate::categories::c09_warp_level::WARP_SIZES@[k as u64 as int]),
                same_as(modulo(ix(), num(2)), num(0)),
            )
            &&& crate::stage::demands(steps[8], Request::Filter { of: 0, mask: 2, into: 2 })
            &&& crate::stage::inquires(steps[9], Request::RowsKnown { of: 2, into: 0 })
            &&& crate::stage::looks(steps[10])
            &&& crate::stage::inquires(steps[11], Request::Release { from: 0 })
        }),
{
}

/// Round `k` of the part `sizes` of `test_warp_size_operations` asks what it should.
proof fn lemma_warp_size_operations_sizes_round(m: Moment, k: int) -> (n: Moment)
    requires
        0 <= k < 6,
        m.holds(),
        m.at == 0 + 12 * k,
        m.used == 0 + 7 * k,
        m.at + 12 <= m.plan.steps.len(),
        forall|j: int|
            0 <= j < 12 ==> m.plan.steps[0 + 12 * k + j] == #[trigger] crate::categories::c09_warp_level::warp_size_operations_sizes_round(
                k as u64,
            )[j],
    ensures
        n.holds(),
        n.plan == m.plan,
        n.answers == m.answers,
        n.at == 0 + 12 * (k + 1),
        n.used == 0 + 7 * (k + 1),
        crate::stage::asks(m.plan, m.answers, 0 + 7 * k, warp_size_operations_sizes_1_asks(k)),
        crate::stage::asks(m.plan, m.answers, 4 + 7 * k, warp_size_operations_sizes_2_asks(k)),
{
    let steps = crate::categories::c09_warp_level::warp_size_operations_sizes_round(k as u64);
    lemma_warp_size_operations_sizes_steps(k);
    let m1 = lemma_warp_size_operations_sizes_1(m, steps, k);
    lemma_warp_size_operations_sizes_2(m1, steps, k)
}

/// The first `k` rounds of the part `sizes` of `test_warp_size_operations` ask what they should.
proof fn lemma_warp_size_operations_sizes_rounds(m: Moment, part: Seq<Step>, k: int) -> (n: Moment)
    requires
        0 <= k <= 6,
        m.holds(),
        m.at == 0,
        m.used == 0 + 7 * 0,
        m.at + 72 <= m.plan.steps.len(),
        part == crate::script::rounds(
            6,
            |k: int| crate::categories::c09_warp_level::warp_size_operations_sizes_round(k as u64),
        ),
        forall|j: int| 0 <= j < 72 ==> m.plan.steps[0 + j] == #[trigger] part[j],
    ensures
        n.holds(),
        n.plan == m.plan,
        n.answers == m.answers,
        n.at == 0 + 12 * k,
        n.used == 0 + 7 * k,
        forall|j: int|
            0 <= j < k ==> crate::stage::asks(
                m.plan,
                m.answers,
                0 + 7 * j,
                #[trigger] warp_size_operations_sizes_1_asks(j),
            ),
        forall|j: int|
            0 <= j < k ==> crate::stage::asks(
                m.plan,
                m.answers,
                4 + 7 * j,
                #[trigger] warp_size_operations_sizes_2_asks(j),
            ),
    decreases k,
{
    if k == 0 {
        m
    } else {
        let round = |k: int| crate::categories::c09_warp_level::warp_size_operations_sizes_round(
            k as u64,
        );
        let before = lemma_warp_size_operations_sizes_rounds(m, part, k - 1);
        assert forall|j: int| 0 <= j < 12 implies m.plan.steps[before.at + j] == #[trigger] crate::categories::c09_warp_level::warp_size_operations_sizes_round(
            (k - 1) as u64,
        )[j] by {
            assert forall|k: int| 0 <= k < 6 implies (#[trigger] round(k)).len() == 12 by {
                lemma_warp_size_operations_sizes_steps(k);
            }
            crate::stage::lemma_round_place(6, round, 12, k - 1, j);
            assert(part[(k - 1) * 12 + j] == round(k - 1)[j]);
        }
        lemma_warp_size_operations_sizes_round(before, k - 1)
    }
}

/// What the device is asked in the part `end` of `test_warp_size_operations`.
pub open spec fn warp_size_operations_end_asks() -> Seq<Ask> {
    seq![Ask::Other(Request::Sync)]
}

/// The part `end` of `test_warp_size_operations` asks what it should.
proof fn lemma_warp_size_operations_end(m: Moment, steps: Seq<Step>) -> (n: Moment)
    requires
        m.holds(),
        m.at == 72,
        m.used == 42,
        72 + 1 <= m.plan.steps.len(),
        forall|j: int| 0 <= j < 1 ==> m.plan.steps[72 + j] == #[trigger] steps[j],
        crate::stage::demands(steps[0], Request::Sync),
    ensures
        n.holds(),
        n.plan == m.plan,
        n.answers == m.answers,
        n.at == 72 + 1,
        n.used == m.used + 1,
        crate::stage::asks(m.plan, m.answers, 42, warp_size_operations_end_asks()),
{
    crate::stage::lemma_full(m);
    crate::stage::lemma_asks_none(m, 42);
    let list0 = Seq::<Ask>::empty();
    let m1 = crate::stage::lemma_sync(m, steps[0]);
    crate::stage::lemma_asks_more(m, 42, list0, Ask::Other(Request::Sync));
    let list1 = list0.push(Ask::Other(Request::Sync));
    assert(warp_size_operations_end_asks() == list1);
    m1
}

/// The steps of the part `end` of `test_warp_size_operations`.
proof fn lemma_warp_size_operations_end_steps()
    ensures
        ({
            let steps = crate::categories::c09_warp_level::warp_size_operations_end_steps();
            &&& steps.len() == 1
            &&& crate::stage::demands(steps[0], Request::Sync)
        }),
{
}

/// In a run of `test_warp_size_operations` that passes the device is asked this, in this order, and
/// nothing else: each request about what an earlier one made is about that, and about what was
/// uploaded for it.
pub proof fn law_warp_size_operations_asks_about_what_it_made(answers: Seq<Answer>)
    requires
        crate::stage::passes(
            crate::script::plan(
                "test_warp_size_operations",
                crate::categories::c09_warp_level::warp_size_operations_steps(),
            ),
            answers,
        ),
    ensures
        forall|k: int|
            0 <= k < 6 ==> crate::stage::asks(
                crate::script::plan(
                    "test_warp_size_operations",
                    crate::categories::c09_warp_level::warp_size_operations_steps(),
                ),
                answers,
                0 + 7 * k,
                #[trigger] warp_size_operations_sizes_1_asks(k),
            ),
        forall|k: int|
            0 <= k < 6 ==> crate::stage::asks(
                crate::script::plan(
                    "test_warp_size_operations",
                    crate::categories::c09_warp_level::warp_size_operations_steps(),
                ),
                answers,
                4 + 7 * k,
                #[trigger] warp_size_operations_sizes_2_asks(k),
            ),
        crate::stage::asks(
            crate::script::plan(
                "test_warp_size_operations",
                crate::categories::c09_warp_level::warp_size_operations_steps(),
            ),
            answers,
            42,
            warp_size_operations_end_asks(),
        ),
        crate::stage::asked(
            crate::script::plan(
                "test_warp_size_operations",
                crate::categories::c09_warp_level::warp_size_operations_steps(),
            ),
            answers,
            43,
        ) is None,
{
    let plan = crate::script::plan(
        "test_warp_size_operations",
        crate::categories::c09_warp_level::warp_size_operations_steps(),
    );
    let round1 = |k: int| crate::categories::c09_warp_level::warp_size_operations_sizes_round(
        k as u64,
    );
    let part1 = crate::script::rounds(6, round1);
    assert forall|k: int| 0 <= k < 6 implies (#[trigger] round1(k)).len() == 12 by {
        lemma_warp_size_operations_sizes_steps(k);
    }
    crate::stage::lemma_rounds_length(6, round1, 12);
    let part2 = crate::categories::c09_warp_level::warp_size_operations_end_steps();
    lemma_warp_size_operations_end_steps();
    let whole1 = part1;
    let whole2 = whole1 + part2;
    assert(plan.steps == whole2);
    let m0 = crate::stage::lemma_start(plan, answers);
    assert forall|j: int| 0 <= j < 72 implies plan.steps[0 + j] == #[trigger] part1[j] by {}
    let m1 = lemma_warp_size_operations_sizes_rounds(m0, part1, 6);
    assert forall|j: int| 0 <= j < 1 implies plan.steps[72 + j] == #[trigger] part2[j] by {}
    let m2 = lemma_warp_size_operations_end(m1, part2);
    crate::stage::lemma_end(m2);
}

/// What is left without duplicates in round `k` of the part `sizes` of
/// `test_partial_warp_correctness`.
pub open spec fn partial_warp_correctness_sizes_unique1(k: int) -> Thing {
    Thing::Unique {
        of: Box::new(
            Thing::Table {
                layout: Layout::Val,
                scalar: Scalar::U32,
                columns: seq![crate::stage::column(1 + k, |i: int| ((1 + k) - 1) - i)],
                turn: 0 + 7 * k,
            },
        ),
        turn: 4 + 7 * k,
    }
}

/// What the device is asked in piece 1 of round `k` of the part `sizes` of
/// `test_partial_warp_correctness`.
pub open spec fn partial_warp_correctness_sizes_1_asks(k: int) -> Seq<Ask> {
    let words1 = crate::stage::column(1 + k, |i: int| ((1 + k) - 1) - i);
    let table1 = Thing::Table {
        layout: Layout::Val,
        scalar: Scalar::U32,
        columns: seq![words1],
        turn: 0 + 7 * k,
    };
    let sorted1 = Thing::Sorted { of: Box::new(table1), keys: 1, turn: 1 + 7 * k };
    seq![
        Ask::Make(table1),
        Ask::Make(sorted1),
        Ask::Handle(sorted1),
        Ask::Words { of: sorted1, column: 0, scalar: Scalar::U32 },
        Ask::Make(partial_warp_correctness_sizes_unique1(k)),
    ]
}

/// Piece 1 of round `k` of the part `sizes` of `test_partial_warp_correctness` asks what it should.
proof fn lemma_partial_warp_correctness_sizes_1(m: Moment, steps: Seq<Step>, k: int) -> (n: Moment)
    requires
        0 <= k < 31,
        m.holds(),
        m.at == 0 + 11 * k,
        m.used == 0 + 7 * k,
        0 + 11 * k + 11 <= m.plan.steps.len(),
        forall|j: int| 0 <= j < 11 ==> m.plan.steps[0 + 11 * k + j] == #[trigger] steps[j],
        crate::stage::fills(
            steps[0],
            0,
            num(after(1, k as u64)),
            minus(minus(num(after(1, k as u64)), num(1)), ix()),
        ),
        crate::stage::demands(
            steps[1],
            Request::Create { into: 0, layout: Layout::Val, scalar: Scalar::U32, from: 0 },
        ),
        crate::stage::demands(steps[2], Request::Sort { of: 0, keys: 1, into: 1 }),
        crate::stage::inquires(steps[3], Request::RowsKnown { of: 1, into: 0 }),
        crate::stage::looks(steps[4]),
        crate::stage::demands(
            steps[5],
            Request::Download { of: 1, column: 0, scalar: Scalar::U32, into: 1 },
        ),
        crate::stage::looks(steps[6]),
        crate::stage::demands(steps[7], Request::Dedup { of: 0, into: 2 }),
    ensures
        n.holds(),
        n.plan == m.plan,
        n.answers == m.answers,
        n.at == 0 + 11 * k + 8,
        n.used == m.used + 5,
        n.scene.buffer(2) == partial_warp_correctness_sizes_unique1(k),
        crate::stage::asks(m.plan, m.answers, 0 + 7 * k, partial_warp_correctness_sizes_1_asks(k)),
{
    crate::stage::lemma_full(m);
    crate::stage::lemma_asks_none(m, 0 + 7 * k);
    let list0 = Seq::<Ask>::empty();
    let words1 = crate::stage::column(1 + k, |i: int| ((1 + k) - 1) - i);
    let word1 = minus(minus(num(after(1, k as u64)), num(1)), ix());
    assert forall|i: int| 0 <= i < words1.len() implies crate::stage::meaning(
        word1,
        m.contents,
        i,
    ) as u64 == #[trigger] words1[i] by {
        reveal_with_fuel(crate::stage::meaning, 5);
    }
    let m1 = crate::stage::lemma_filled(m, steps[0], 0, num(after(1, k as u64)), word1, words1);
    let table1 = Thing::Table {
        layout: Layout::Val,
        scalar: Scalar::U32,
        columns: seq![words1],
        turn: 0 + 7 * k,
    };
    let m2 = crate::stage::lemma_create(m1, steps[1], 0, Layout::Val, Scalar::U32, 0, table1);
    crate::stage::lemma_asks_more(m, 0 + 7 * k, list0, Ask::Make(table1));
    let list1 = list0.push(Ask::Make(table1));
    let sorted1 = Thing::Sorted { of: Box::new(table1), keys: 1, turn: 1 + 7 * k };
    let m3 = crate::stage::lemma_sort(m2, steps[2], 0, 1, 1, table1, sorted1);
    crate::stage::lemma_asks_more(m, 0 + 7 * k, list1, Ask::Make(sorted1));
    let list2 = list1.push(Ask::Make(sorted1));
    let m4 = crate::stage::lemma_handle(m3, steps[3], 1, 0, sorted1);
    crate::stage::lemma_asks_more(m, 0 + 7 * k, list2, Ask::Handle(sorted1));
    let list3 = list2.push(Ask::Handle(sorted1));
    let m5 = crate::stage::lemma_look(m4, steps[4]);
    let m6 = crate::stage::lemma_download(m5, steps[5], 1, 0, Scalar::U32, 1, sorted1);
    crate::stage::lemma_asks_more(
        m,
        0 + 7 * k,
        list3,
        Ask::Words { of: sorted1, column: 0, scalar: Scalar::U32 },
    );
    let list4 = list3.push(Ask::Words { of: sorted1, column: 0, scalar: Scalar::U32 });
    let m7 = crate::stage::lemma_look(m6, steps[6]);
    let m8 = crate::stage::lemma_dedup(
        m7,
        steps[7],
        0,
        2,
        table1,
        partial_warp_correctness_sizes_unique1(k),
    );
    crate::stage::lemma_asks_more(
        m,
        0 + 7 * k,
        list4,
        Ask::Make(partial_warp_correctness_sizes_unique1(k)),
    );
    let list5 = list4.push(Ask::Make(partial_warp_correctness_sizes_unique1(k)));
    assert(partial_warp_correctness_sizes_1_asks(k) == list5);
    m8
}

/// What the device is asked in piece 2 of round `k` of the part `sizes` of
/// `test_partial_warp_correctness`.
pub open spec fn partial_warp_correctness_sizes_2_asks(k: int) -> Seq<Ask> {
    seq![
        Ask::Handle(partial_warp_correctness_sizes_unique1(k)),
        Ask::Other(Request::Release { from: 0 }),
    ]
}

/// Piece 2 of round `k` of the part `sizes` of `test_partial_warp_correctness` asks what it should.
proof fn lemma_partial_warp_correctness_sizes_2(m: Moment, steps: Seq<Step>, k: int) -> (n: Moment)
    requires
        0 <= k < 31,
        m.holds(),
        m.at == 0 + 11 * k + 8,
        m.used == 5 + 7 * k,
        0 + 11 * k + 11 <= m.plan.steps.len(),
        forall|j: int| 0 <= j < 11 ==> m.plan.steps[0 + 11 * k + j] == #[trigger] steps[j],
        crate::stage::inquires(steps[8], Request::RowsKnown { of: 2, into: 0 }),
        crate::stage::looks(steps[9]),
        crate::stage::inquires(steps[10], Request::Release { from: 0 }),
        m.scene.buffer(2) == partial_warp_correctness_sizes_unique1(k),
    ensures
        n.holds(),
        n.plan == m.plan,
        n.answers == m.answers,
        n.at == 0 + 11 * k + 11,
        n.used == m.used + 2,
        crate::stage::asks(m.plan, m.answers, 5 + 7 * k, partial_warp_correctness_sizes_2_asks(k)),
{
    crate::stage::lemma_full(m);
    crate::stage::lemma_asks_none(m, 5 + 7 * k);
    let list0 = Seq::<Ask>::empty();
    let m1 = crate::stage::lemma_handle(
        m,
        steps[8],
        2,
        0,
        partial_warp_correctness_sizes_unique1(k),
    );
    crate::stage::lemma_asks_more(
        m,
        5 + 7 * k,
        list0,
        Ask::Handle(partial_warp_correctness_sizes_unique1(k)),
    );
    let list1 = list0.push(Ask::Handle(partial_warp_correctness_sizes_unique1(k)));
    let m2 = crate::stage::lemma_look(m1, steps[9]);
    let m3 = crate::stage::lemma_release(m2, steps[10], 0);
    crate::stage::lemma_asks_more(m, 5 + 7 * k, list1, Ask::Other(Request::Release { from: 0 }));
    let list2 = list1.push(Ask::Other(Request::Release { from: 0 }));
    assert(partial_warp_correctness_sizes_2_asks(k) == list2);
    m3
}

/// The steps of the part `sizes` of `test_partial_warp_correctness`.
proof fn lemma_partial_warp_correctness_sizes_steps(k: int)
    ensures
        ({
            let steps = crate::categories::c09_warp_level::partial_warp_correctness_sizes_round(
                k as u64,
            );
            &&& steps.len() == 11
            &&& crate::stage::fills(
                steps[0],
                0,
                num(after(1, k as u64)),
                minus(minus(num(after(1, k as u64)), num(1)), ix()),
            )
            &&& crate::stage::demands(
                steps[1],
                Request::Create { into: 0, layout: Layout::Val, scalar: Scalar::U32, from: 0 },
            )
            &&& crate::stage::demands(steps[2], Request::Sort { of: 0, keys: 1, into: 1 })
            &&& crate::stage::inquires(steps[3], Request::RowsKnown { of: 1, into: 0 })
            &&& crate::stage::looks(steps[4])
            &&& crate::stage::demands(
                steps[5],
                Request::Download { of: 1, column: 0, scalar: Scalar::U32, into: 1 },
            )
            &&& crate::stage::looks(steps[6])
            &&& crate::stage::demands(steps[7], Request::Dedup { of: 0, into: 2 })
            &&& crate::stage::inquires(steps[8], Request::RowsKnown { of: 2, into: 0 })
            &&& crate::stage::looks(steps[9])
            &&& crate::stage::inquires(steps[10], Request::Release { from: 0 })
        }),
{
}

/// Round `k` of the part `sizes` of `test_partial_warp_correctness` asks what it should.
proof fn lemma_partial_warp_correctness_sizes_round(m: Moment, k: int) -> (n: Moment)
    requires
        0 <= k < 31,
        m.holds(),
        m.at == 0 + 11 * k,
        m.used == 0 + 7 * k,
        m.at + 11 <= m.plan.steps.len(),
        forall|j: int|
            0 <= j < 11 ==> m.plan.steps[0 + 11 * k + j] == #[trigger] crate::categories::c09_warp_level::partial_warp_correctness_sizes_round(
                k as u64,
            )[j],
    ensures
        n.holds(),
        n.plan == m.plan,
        n.answers == m.answers,
        n.at == 0 + 11 * (k + 1),
        n.used == 0 + 7 * (k + 1),
        crate::stage::asks(m.plan, m.answers, 0 + 7 * k, partial_warp_correctness_sizes_1_asks(k)),
        crate::stage::asks(m.plan, m.answers, 5 + 7 * k, partial_warp_correctness_sizes_2_asks(k)),
{
    let steps = crate::categories::c09_warp_level::partial_warp_correctness_sizes_round(k as u64);
    lemma_partial_warp_correctness_sizes_steps(k);
    let m1 = lemma_partial_warp_correctness_sizes_1(m, steps, k);
    lemma_partial_warp_correctness_sizes_2(m1, steps, k)
}

/// The first `k` rounds of the part `sizes` of `test_partial_warp_correctness` ask what they
/// should.
proof fn lemma_partial_warp_correctness_sizes_rounds(
    m: Moment,
    part: Seq<Step>,
    k: int,
) -> (n: Moment)
    requires
        0 <= k <= 31,
        m.holds(),
        m.at == 0,
        m.used == 0 + 7 * 0,
        m.at + 341 <= m.plan.steps.len(),
        part == crate::script::rounds(
            31,
            |k: int| crate::categories::c09_warp_level::partial_warp_correctness_sizes_round(
                k as u64,
            ),
        ),
        forall|j: int| 0 <= j < 341 ==> m.plan.steps[0 + j] == #[trigger] part[j],
    ensures
        n.holds(),
        n.plan == m.plan,
        n.answers == m.answers,
        n.at == 0 + 11 * k,
        n.used == 0 + 7 * k,
        forall|j: int|
            0 <= j < k ==> crate::stage::asks(
                m.plan,
                m.answers,
                0 + 7 * j,
                #[trigger] partial_warp_correctness_sizes_1_asks(j),
            ),
        forall|j: int|
            0 <= j < k ==> crate::stage::asks(
                m.plan,
                m.answers,
                5 + 7 * j,
                #[trigger] partial_warp_correctness_sizes_2_asks(j),
            ),
    decreases k,
{
    if k == 0 {
        m
    } else {
        let round = |k: int| crate::categories::c09_warp_level::partial_warp_correctness_sizes_round(
            k as u64,
        );
        let before = lemma_partial_warp_correctness_sizes_rounds(m, part, k - 1);
        assert forall|j: int| 0 <= j < 11 implies m.plan.steps[before.at + j] == #[trigger] crate::categories::c09_warp_level::partial_warp_correctness_sizes_round(
            (k - 1) as u64,
        )[j] by {
            assert forall|k: int| 0 <= k < 31 implies (#[trigger] round(k)).len() == 11 by {
                lemma_partial_warp_correctness_sizes_steps(k);
            }
            crate::stage::lemma_round_place(31, round, 11, k - 1, j);
            assert(part[(k - 1) * 11 + j] == round(k - 1)[j]);
        }
        lemma_partial_warp_correctness_sizes_round(before, k - 1)
    }
}

/// What the device is asked in the part `end` of `test_partial_warp_correctness`.
pub open spec fn partial_warp_correctness_end_asks() -> Seq<Ask> {
    seq![Ask::Other(Request::Sync)]
}

/// The part `end` of `test_partial_warp_correctness` asks what it should.
proof fn lemma_partial_warp_correctness_end(m: Moment, steps: Seq<Step>) -> (n: Moment)
    requires
        m.holds(),
        m.at == 341,
        m.used == 217,
        341 + 1 <= m.plan.steps.len(),
        forall|j: int| 0 <= j < 1 ==> m.plan.steps[341 + j] == #[trigger] steps[j],
        crate::stage::demands(steps[0], Request::Sync),
    ensures
        n.holds(),
        n.plan == m.plan,
        n.answers == m.answers,
        n.at == 341 + 1,
        n.used == m.used + 1,
        crate::stage::asks(m.plan, m.answers, 217, partial_warp_correctness_end_asks()),
{
    crate::stage::lemma_full(m);
    crate::stage::lemma_asks_none(m, 217);
    let list0 = Seq::<Ask>::empty();
    let m1 = crate::stage::lemma_sync(m, steps[0]);
    crate::stage::lemma_asks_more(m, 217, list0, Ask::Other(Request::Sync));
    let list1 = list0.push(Ask::Other(Request::Sync));
    assert(partial_warp_correctness_end_asks() == list1);
    m1
}

/// The steps of the part `end` of `test_partial_warp_correctness`.
proof fn lemma_partial_warp_correctness_end_steps()
    ensures
        ({
            let steps = crate::categories::c09_warp_level::partial_warp_correctness_end_steps();
            &&& steps.len() == 1
            &&& crate::stage::demands(steps[0], Request::Sync)
        }),
{
}

/// In a run of `test_partial_warp_correctness` that passes the device is asked this, in this order,
/// and nothing else: each request about what an earlier one made is about that, and about what was
/// uploaded for it.
pub proof fn law_partial_warp_correctness_asks_about_what_it_made(answers: Seq<Answer>)
    requires
        crate::stage::passes(
            crate::script::plan(
                "test_partial_warp_correctness",
                crate::categories::c09_warp_level::partial_warp_correctness_steps(),
            ),
            answers,
        ),
    ensures
        forall|k: int|
            0 <= k < 31 ==> crate::stage::asks(
                crate::script::plan(
                    "test_partial_warp_correctness",
                    crate::categories::c09_warp_level::partial_warp_correctness_steps(),
                ),
                answers,
                0 + 7 * k,
                #[trigger] partial_warp_correctness_sizes_1_asks(k),
            ),
        forall|k: int|
            0 <= k < 31 ==> crate::stage::asks(
                crate::script::plan(
                    "test_partial_warp_correctness",
                    crate::categories::c09_warp_level::partial_warp_correctness_steps(),
                ),
                answers,
                5 + 7 * k,
                #[trigger] partial_warp_correctness_sizes_2_asks(k),
            ),
        crate::stage::asks(
            crate::script::plan(
                "test_partial_warp_correctness",
                crate::categories::c09_warp_level::partial_warp_correctness_steps(),
            ),
            answers,
            217,
            partial_warp_correctness_end_asks(),
        ),
        crate::stage::asked(
            crate::script::plan(
                "test_partial_warp_correctness",
                crate::categories::c09_warp_level::partial_warp_correctness_steps(),
            ),
            answers,
            218,
        ) is None,
{
    let plan = crate::script::plan(
        "test_partial_warp_correctness",
        crate::categories::c09_warp_level::partial_warp_correctness_steps(),
    );
    let round1 = |k: int| crate::categories::c09_warp_level::partial_warp_correctness_sizes_round(
        k as u64,
    );
    let part1 = crate::script::rounds(31, round1);
    assert forall|k: int| 0 <= k < 31 implies (#[trigger] round1(k)).len() == 11 by {
        lemma_partial_warp_correctness_sizes_steps(k);
    }
    crate::stage::lemma_rounds_length(31, round1, 11);
    let part2 = crate::categories::c09_warp_level::partial_warp_correctness_end_steps();
    lemma_partial_warp_correctness_end_steps();
    let whole1 = part1;
    let whole2 = whole1 + part2;
    assert(plan.steps == whole2);
    let m0 = crate::stage::lemma_start(plan, answers);
    assert forall|j: int| 0 <= j < 341 implies plan.steps[0 + j] == #[trigger] part1[j] by {}
    let m1 = lemma_partial_warp_correctness_sizes_rounds(m0, part1, 31);
    assert forall|j: int| 0 <= j < 1 implies plan.steps[341 + j] == #[trigger] part2[j] by {}
    let m2 = lemma_partial_warp_correctness_end(m1, part2);
    crate::stage::lemma_end(m2);
}

/// What is sorted in the part `all` of `test_warp_divergence_patterns`.
pub open spec fn warp_divergence_patterns_all_sorted2() -> Thing {
    Thing::Sorted {
        of: Box::new(
            Thing::Table {
                layout: Layout::Val,
                scalar: Scalar::U32,
                columns: seq![
                    crate::stage::column(
                        1024,
                        |i: int| ((((i % 32) * 7) + ((i / 32) * 13)) + (i * 17)) % 1000,
                    ),
                ],
                turn: 3,
            },
        ),
        keys: 1,
        turn: 4,
    }
}

/// What the device is asked in piece 1 of the part `all` of `test_warp_divergence_patterns`.
pub open spec fn warp_divergence_patterns_all_1_asks() -> Seq<Ask> {
    let words1 = crate::stage::column(1024, |i: int| if ((i % 2) == 0) { i } else { (1024 - i) });
    let table1 = Thing::Table {
        layout: Layout::Val,
        scalar: Scalar::U32,
        columns: seq![words1],
        turn: 0,
    };
    let sorted1 = Thing::Sorted { of: Box::new(table1), keys: 1, turn: 1 };
    let words2 = crate::stage::column(
        1024,
        |i: int| ((((i % 32) * 7) + ((i / 32) * 13)) + (i * 17)) % 1000,
    );
    let table2 = Thing::Table {
        layout: Layout::Val,
        scalar: Scalar::U32,
        columns: seq![words2],
        turn: 3,
    };
    seq![
        Ask::Make(table1),
        Ask::Make(sorted1),
        Ask::Words { of: sorted1, column: 0, scalar: Scalar::U32 },
        Ask::Make(table2),
        Ask::Make(warp_divergence_patterns_all_sorted2()),
    ]
}

/// Piece 1 of the part `all` of `test_warp_divergence_patterns` asks what it should.
proof fn lemma_warp_divergence_patterns_all_1(m: Moment, steps: Seq<Step>) -> (n: Moment)
    requires
        m.holds(),
        m.at == 0,
        m.used == 0,
        0 + 16 <= m.plan.steps.len(),
        forall|j: int| 0 <= j < 16 ==> m.plan.steps[0 + j] == #[trigger] steps[j],
        crate::stage::fills(
            steps[0],
            0,
            num(1024),
            pick(same_as(modulo(ix(), num(2)), num(0)), ix(), minus(num(1024), ix())),
        ),
        crate::stage::demands(
            steps[1],
            Request::Create { into: 0, layout: Layout::Val, scalar: Scalar::U32, from: 0 },
        ),
        crate::stage::demands(steps[2], Request::Sort { of: 0, keys: 1, into: 1 }),
        crate::stage::demands(
            steps[3],
            Request::Download { of: 1, column: 0, scalar: Scalar::U32, into: 1 },
        ),
        crate::stage::looks(steps[4]),
        crate::stage::fills(
            steps[5],
            2,
            num(1024),
            modulo(
                plus(
                    plus(
                        times(modulo(ix(), num(32)), num(7)),
                        times(over(ix(), num(32)), num(13)),
                    ),
                    times(ix(), num(17)),
                ),
                num(1000),
            ),
        ),
        crate::stage::demands(
            steps[6],
            Request::Create { into: 2, layout: Layout::Val, scalar: Scalar::U32, from: 2 },
        ),
        crate::stage::demands(steps[7], Request::Sort { of: 2, keys: 1, into: 3 }),
    ensures
        n.holds(),
        n.plan == m.plan,
        n.answers == m.answers,
        n.at == 0 + 8,
        n.used == m.used + 5,
        n.scene.buffer(3) == warp_divergence_patterns_all_sorted2(),
        crate::stage::asks(m.plan, m.answers, 0, warp_divergence_patterns_all_1_asks()),
{
    crate::stage::lemma_full(m);
    crate::stage::lemma_asks_none(m, 0);
    let list0 = Seq::<Ask>::empty();
    let words1 = crate::stage::column(1024, |i: int| if ((i % 2) == 0) { i } else { (1024 - i) });
    let word1 = pick(same_as(modulo(ix(), num(2)), num(0)), ix(), minus(num(1024), ix()));
    assert forall|i: int| 0 <= i < words1.len() implies crate::stage::meaning(
        word1,
        m.contents,
        i,
    ) as u64 == #[trigger] words1[i] by {
        reveal_with_fuel(crate::stage::meaning, 5);
    }
    let m1 = crate::stage::lemma_filled(m, steps[0], 0, num(1024), word1, words1);
    let table1 = Thing::Table {
        layout: Layout::Val,
        scalar: Scalar::U32,
        columns: seq![words1],
        turn: 0,
    };
    let m2 = crate::stage::lemma_create(m1, steps[1], 0, Layout::Val, Scalar::U32, 0, table1);
    crate::stage::lemma_asks_more(m, 0, list0, Ask::Make(table1));
    let list1 = list0.push(Ask::Make(table1));
    let sorted1 = Thing::Sorted { of: Box::new(table1), keys: 1, turn: 1 };
    let m3 = crate::stage::lemma_sort(m2, steps[2], 0, 1, 1, table1, sorted1);
    crate::stage::lemma_asks_more(m, 0, list1, Ask::Make(sorted1));
    let list2 = list1.push(Ask::Make(sorted1));
    let m4 = crate::stage::lemma_download(m3, steps[3], 1, 0, Scalar::U32, 1, sorted1);
    crate::stage::lemma_asks_more(
        m,
        0,
        list2,
        Ask::Words { of: sorted1, column: 0, scalar: Scalar::U32 },
    );
    let list3 = list2.push(Ask::Words { of: sorted1, column: 0, scalar: Scalar::U32 });
    let m5 = crate::stage::lemma_look(m4, steps[4]);
    let words2 = crate::stage::column(
        1024,
        |i: int| ((((i % 32) * 7) + ((i / 32) * 13)) + (i * 17)) % 1000,
    );
    let word6 = modulo(
        plus(
            plus( times(modulo(ix(), num(32)), num(7)), times(over(ix(), num(32)), num(13)), ),
            times(ix(), num(17)),
        ),
        num(1000),
    );
    assert forall|i: int| 0 <= i < words2.len() implies crate::stage::meaning(
        word6,
        m5.contents,
        i,
    ) as u64 == #[trigger] words2[i] by {
        reveal_with_fuel(crate::stage::meaning, 7);
    }
    let m6 = crate::stage::lemma_filled(m5, steps[5], 2, num(1024), word6, words2);
    let table2 = Thing::Table {
        layout: Layout::Val,
        scalar: Scalar::U32,
        columns: seq![words2],
        turn: 3,
    };
    let m7 = crate::stage::lemma_create(m6, steps[6], 2, Layout::Val, Scalar::U32, 2, table2);
    crate::stage::lemma_asks_more(m, 0, list3, Ask::Make(table2));
    let list4 = list3.push(Ask::Make(table2));
    let m8 = crate::stage::lemma_sort(
        m7,
        steps[7],
        2,
        1,
        3,
        table2,
        warp_divergence_patterns_all_sorted2(),
    );
    crate::stage::lemma_asks_more(m, 0, list4, Ask::Make(warp_divergence_patterns_all_sorted2()));
    let list5 = list4.push(Ask::Make(warp_divergence_patterns_all_sorted2()));
    assert(warp_divergence_patterns_all_1_asks() == list5);
    m8
}

/// What the device is asked in piece 2 of the part `all` of `test_warp_divergence_patterns`.
pub open spec fn warp_divergence_patterns_all_2_asks() -> Seq<Ask> {
    let words3 = crate::stage::column(
        1024,
        |i: int| if ((i % 64) < 32) { (i % 64) } else { (63 - (i % 64)) },
    );
    let table3 = Thing::Table {
        layout: Layout::Val,
        scalar: Scalar::U32,
        columns: seq![words3],
        turn: 6,
    };
    let sorted3 = Thing::Sorted { of: Box::new(table3), keys: 1, turn: 7 };
    seq![
        Ask::Words { of: warp_divergence_patterns_all_sorted2(), column: 0, scalar: Scalar::U32 },
        Ask::Make(table3),
        Ask::Make(sorted3),
        Ask::Words { of: sorted3, column: 0, scalar: Scalar::U32 },
        Ask::Other(Request::Sync),
    ]
}

/// Piece 2 of the part `all` of `test_warp_divergence_patterns` asks what it should.
proof fn lemma_warp_divergence_patterns_all_2(m: Moment, steps: Seq<Step>) -> (n: Moment)
    requires
        m.holds(),
        m.at == 0 + 8,
        m.used == 5,
        0 + 16 <= m.plan.steps.len(),
        forall|j: int| 0 <= j < 16 ==> m.plan.steps[0 + j] == #[trigger] steps[j],
        crate::stage::demands(
            steps[8],
            Request::Download { of: 3, column: 0, scalar: Scalar::U32, into: 3 },
        ),
        crate::stage::looks(steps[9]),
        crate::stage::fills(
            steps[10],
            4,
            num(1024),
            pick(
                lt(modulo(ix(), num(64)), num(32)),
                modulo(ix(), num(64)),
                minus(num(63), modulo(ix(), num(64))),
            ),
        ),
        crate::stage::demands(
            steps[11],
            Request::Create { into: 4, layout: Layout::Val, scalar: Scalar::U32, from: 4 },
        ),
        crate::stage::demands(steps[12], Request::Sort { of: 4, keys: 1, into: 5 }),
        crate::stage::demands(
            steps[13],
            Request::Download { of: 5, column: 0, scalar: Scalar::U32, into: 5 },
        ),
        crate::stage::looks(steps[14]),
        crate::stage::demands(steps[15], Request::Sync),
        m.scene.buffer(3) == warp_divergence_patterns_all_sorted2(),
    ensures
        n.holds(),
        n.plan == m.plan,
        n.answers == m.answers,
        n.at == 0 + 16,
        n.used == m.used + 5,
        crate::stage::asks(m.plan, m.answers, 5, warp_divergence_patterns_all_2_asks()),
{
    crate::stage::lemma_full(m);
    crate::stage::lemma_asks_none(m, 5);
    let list0 = Seq::<Ask>::empty();
    let m1 = crate::stage::lemma_download(
        m,
        steps[8],
        3,
        0,
        Scalar::U32,
        3,
        warp_divergence_patterns_all_sorted2(),
    );
    crate::stage::lemma_asks_more(
        m,
        5,
        list0,
        Ask::Words { of: warp_divergence_patterns_all_sorted2(), column: 0, scalar: Scalar::U32 },
    );
    let list1 = list0.push(
        Ask::Words { of: warp_divergence_patterns_all_sorted2(), column: 0, scalar: Scalar::U32 },
    );
    let m2 = crate::stage::lemma_look(m1, steps[9]);
    let words3 = crate::stage::column(
        1024,
        |i: int| if ((i % 64) < 32) { (i % 64) } else { (63 - (i % 64)) },
    );
    let word3 = pick(
        lt(modulo(ix(), num(64)), num(32)),
        modulo(ix(), num(64)),
        minus(num(63), modulo(ix(), num(64))),
    );
    assert forall|i: int| 0 <= i < words3.len() implies crate::stage::meaning(
        word3,
        m2.contents,
        i,
    ) as u64 == #[trigger] words3[i] by {
        reveal_with_fuel(crate::stage::meaning, 5);
    }
    let m3 = crate::stage::lemma_filled(m2, steps[10], 4, num(1024), word3, words3);
    let table3 = Thing::Table {
        layout: Layout::Val,
        scalar: Scalar::U32,
        columns: seq![words3],
        turn: 6,
    };
    let m4 = crate::stage::lemma_create(m3, steps[11], 4, Layout::Val, Scalar::U32, 4, table3);
    crate::stage::lemma_asks_more(m, 5, list1, Ask::Make(table3));
    let list2 = list1.push(Ask::Make(table3));
    let sorted3 = Thing::Sorted { of: Box::new(table3), keys: 1, turn: 7 };
    let m5 = crate::stage::lemma_sort(m4, steps[12], 4, 1, 5, table3, sorted3);
    crate::stage::lemma_asks_more(m, 5, list2, Ask::Make(sorted3));
    let list3 = list2.push(Ask::Make(sorted3));
    let m6 = crate::stage::lemma_download(m5, steps[13], 5, 0, Scalar::U32, 5, sorted3);
    crate::stage::lemma_asks_more(
        m,
        5,
        list3,
        Ask::Words { of: sorted3, column: 0, scalar: Scalar::U32 },
    );
    let list4 = list3.push(Ask::Words { of: sorted3, column: 0, scalar: Scalar::U32 });
    let m7 = crate::stage::lemma_look(m6, steps[14]);
    let m8 = crate::stage::lemma_sync(m7, steps[15]);
    crate::stage::lemma_asks_more(m, 5, list4, Ask::Other(Request::Sync));
    let list5 = list4.push(Ask::Other(Request::Sync));
    assert(warp_divergence_patterns_all_2_asks() == list5);
    m8
}

/// The steps of the part `all` of `test_warp_divergence_patterns`.
proof fn lemma_warp_divergence_patterns_all_steps()
    ensures
        ({
            let steps = crate::categories::c09_warp_level::warp_divergence_patterns_steps();
            &&& steps.len() == 16
            &&& crate::stage::fills(
                steps[0],
                0,
                num(1024),
                pick(same_as(modulo(ix(), num(2)), num(0)), ix(), minus(num(1024), ix())),
            )
            &&& crate::stage::demands(
                steps[1],
                Request::Create { into: 0, layout: Layout::Val, scalar: Scalar::U32, from: 0 },
            )
            &&& crate::stage::demands(steps[2], Request::Sort { of: 0, keys: 1, into: 1 })
            &&& crate::stage::demands(
                steps[3],
                Request::Download { of: 1, column: 0, scalar: Scalar::U32, into: 1 },
            )
            &&& crate::stage::looks(steps[4])
            &&& crate::stage::fills(
                steps[5],
                2,
                num(1024),
                modulo(
                    plus(
                        plus(
                            times(modulo(ix(), num(32)), num(7)),
                            times(over(ix(), num(32)), num(13)),
                        ),
                        times(ix(), num(17)),
                    ),
                    num(1000),
                ),
            )
            &&& crate::stage::demands(
                steps[6],
                Request::Create { into: 2, layout: Layout::Val, scalar: Scalar::U32, from: 2 },
            )
            &&& crate::stage::demands(steps[7], Request::Sort { of: 2, keys: 1, into: 3 })
            &&& crate::stage::demands(
                steps[8],
                Request::Download { of: 3, column: 0, scalar: Scalar::U32, into: 3 },
            )
            &&& crate::stage::looks(steps[9])
            &&& crate::stage::fills(
                steps[10],
                4,
                num(1024),
                pick(
                    lt(modulo(ix(), num(64)), num(32)),
                    modulo(ix(), num(64)),
                    minus(num(63), modulo(ix(), num(64))),
                ),
            )
            &&& crate::stage::demands(
                steps[11],
                Request::Create { into: 4, layout: Layout::Val, scalar: Scalar::U32, from: 4 },
            )
            &&& crate::stage::demands(steps[12], Request::Sort { of: 4, keys: 1, into: 5 })
            &&& crate::stage::demands(
                steps[13],
                Request::Download { of: 5, column: 0, scalar: Scalar::U32, into: 5 },
            )
            &&& crate::stage::looks(steps[14])
            &&& crate::stage::demands(steps[15], Request::Sync)
        }),
{
}

/// In a run of `test_warp_divergence_patterns` that passes the device is asked this, in this order,
/// and nothing else: each request about what an earlier one made is about that, and about what was
/// uploaded for it.
pub proof fn law_warp_divergence_patterns_asks_about_what_it_made(answers: Seq<Answer>)
    requires
        crate::stage::passes(
            crate::script::plan(
                "test_warp_divergence_patterns",
                crate::categories::c09_warp_level::warp_divergence_patterns_steps(),
            ),
            answers,
        ),
    ensures
        crate::stage::asks(
            crate::script::plan(
                "test_warp_divergence_patterns",
                crate::categories::c09_warp_level::warp_divergence_patterns_steps(),
            ),
            answers,
            0,
            warp_divergence_patterns_all_1_asks(),
        ),
        crate::stage::asks(
            crate::script::plan(
                "test_warp_divergence_patterns",
                crate::categories::c09_warp_level::warp_divergence_patterns_steps(),
            ),
            answers,
            5,
            warp_divergence_patterns_all_2_asks(),
        ),
        crate::stage::asked(
            crate::script::plan(
                "test_warp_divergence_patterns",
                crate::categories::c09_warp_level::warp_divergence_patterns_steps(),
            ),
            answers,
            10,
        ) is None,
{
    let plan = crate::script::plan(
        "test_warp_divergence_patterns",
        crate::categories::c09_warp_level::warp_divergence_patterns_steps(),
    );
    let part1 = crate::categories::c09_warp_level::warp_divergence_patterns_steps();
    lemma_warp_divergence_patterns_all_steps();
    let whole1 = part1;
    assert(plan.steps == whole1);
    let m0 = crate::stage::lemma_start(plan, answers);
    assert forall|j: int| 0 <= j < 16 implies plan.steps[0 + j] == #[trigger] part1[j] by {}
    let m1 = lemma_warp_divergence_patterns_all_1(m0, part1);
    let m2 = lemma_warp_divergence_patterns_all_2(m1, part1);
    crate::stage::lemma_end(m2);
}

} // verus!
