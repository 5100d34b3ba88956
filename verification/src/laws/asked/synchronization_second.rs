//! What these tests ask the device in runs that pass: `test_sort_barrier_correctness`.

use vstd::prelude::*;
use crate::expr::{ix, minus, modulo, num, over, pick, plus, same_as, times};
use crate::machine::Answer;
use crate::scalar::Scalar;
use crate::script::{Layout, Request, Step};
use crate::stage::{Ask, Moment, Thing};

verus! {

/// What the device is asked in piece 1 of the part `part1` of `test_sort_barrier_correctness`.
pub open spec fn sort_barrier_correctness_part1_1_asks() -> Seq<Ask> {
    let words1 = crate::stage::column(10000, |i: int| (10000 - 1) - i);
    let words2 = crate::stage::column(10000, |i: int| i);
    let table1 = Thing::Table {
        layout: Layout::KeyVal,
        scalar: Scalar::U32,
        columns: seq![words1, words2],
        turn: 0,
    };
    let sorted1 = Thing::Sorted { of: Box::new(table1), keys: 1, turn: 1 };
    seq![
        Ask::Make(table1),
        Ask::Make(sorted1),
        Ask::Rows(sorted1),
        Ask::Words { of: sorted1, column: 0, scalar: Scalar::U32 },
    ]
}

/// Piece 1 of the part `part1` of `test_sort_barrier_correctness` asks what it should.
proof fn lemma_sort_barrier_correctness_part1_1(m: Moment, steps: Seq<Step>) -> (n: Moment)
    requires
        m.holds(),
        m.at == 0,
        m.used == 0,
        0 + 10 <= m.plan.steps.len(),
        forall|j: int| 0 <= j < 10 ==> m.plan.steps[0 + j] == #[trigger] steps[j],
        crate::stage::fills(steps[0], 0, num(10000), minus(minus(num(10000), num(1)), ix())),
        crate::stage::fills(steps[1], 1, num(10000), ix()),
        crate::stage::demands(
            steps[2],
            Request::Create { into: 0, layout: Layout::KeyVal, scalar: Scalar::U32, from: 0 },
        ),
        crate::stage::demands(steps[3], Request::Sort { of: 0, keys: 1, into: 1 }),
        crate::stage::counts(steps[4], 1),
        crate::stage::demands(
            steps[5],
            Request::Download { of: 1, column: 0, scalar: Scalar::U32, into: 2 },
        ),
        crate::stage::looks(steps[6]),
        crate::stage::works(steps[7], 3),
    ensures
        n.holds(),
        n.plan == m.plan,
        n.answers == m.answers,
        n.at == 0 + 8,
        n.used == m.used + 4,
        crate::stage::asks(m.plan, m.answers, 0, sort_barrier_correctness_part1_1_asks()),
{
    crate::stage::lemma_full(m);
    crate::stage::lemma_asks_none(m, 0);
    let list0 = Seq::<Ask>::empty();
    let words1 = crate::stage::column(10000, |i: int| (10000 - 1) - i);
    let word1 = minus(minus(num(10000), num(1)), ix());
    assert forall|i: int| 0 <= i < words1.len() implies crate::stage::meaning(
        word1,
        m.contents,
        i,
    ) as u64 == #[trigger] words1[i] by {
        reveal_with_fuel(crate::stage::meaning, 4);
    }
    let m1 = crate::stage::lemma_filled(m, steps[0], 0, num(10000), word1, words1);
    let words2 = crate::stage::column(10000, |i: int| i);
    let word2 = ix();
    assert forall|i: int| 0 <= i < words2.len() implies crate::stage::meaning(
        word2,
        m1.contents,
        i,
    ) as u64 == #[trigger] words2[i] by {
        reveal_with_fuel(crate::stage::meaning, 1);
    }
    let m2 = crate::stage::lemma_filled(m1, steps[1], 1, num(10000), word2, words2);
    let table1 = Thing::Table {
        layout: Layout::KeyVal,
        scalar: Scalar::U32,
        columns: seq![words1, words2],
        turn: 0,
    };
    let m3 = crate::stage::lemma_create(m2, steps[2], 0, Layout::KeyVal, Scalar::U32, 0, table1);
    crate::stage::lemma_asks_more(m, 0, list0, Ask::Make(table1));
    let list1 = list0.push(Ask::Make(table1));
    let sorted1 = Thing::Sorted { of: Box::new(table1), keys: 1, turn: 1 };
    let m4 = crate::stage::lemma_sort(m3, steps[3], 0, 1, 1, table1, sorted1);
    crate::stage::lemma_asks_more(m, 0, list1, Ask::Make(sorted1));
    let list2 = list1.push(Ask::Make(sorted1));
    let m5 = crate::stage::lemma_count(m4, steps[4], 1, sorted1);
    crate::stage::lemma_asks_more(m, 0, list2, Ask::Rows(sorted1));
    let list3 = list2.push(Ask::Rows(sorted1));
    let m6 = crate::stage::lemma_download(m5, steps[5], 1, 0, Scalar::U32, 2, sorted1);
    crate::stage::lemma_asks_more(
        m,
        0,
        list3,
        Ask::Words { of: sorted1, column: 0, scalar: Scalar::U32 },
    );
    let list4 = list3.push(Ask::Words { of: sorted1, column: 0, scalar: Scalar::U32 });
    let m7 = crate::stage::lemma_look(m6, steps[6]);
    let m8 = crate::stage::lemma_work(m7, steps[7], 3);
    assert(sort_barrier_correctness_part1_1_asks() == list4);
    m8
}

/// What the device is asked in piece 2 of the part `part1` of `test_sort_barrier_correctness`.
pub open spec fn sort_barrier_correctness_part1_2_asks() -> Seq<Ask> {
    seq![Ask::Other(Request::Release { from: 0 })]
}

/// Piece 2 of the part `part1` of `test_sort_barrier_correctness` asks what it should.
proof fn lemma_sort_barrier_correctness_part1_2(m: Moment, steps: Seq<Step>) -> (n: Moment)
    requires
        m.holds(),
        m.at == 0 + 8,
        m.used == 4,
        0 + 10 <= m.plan.steps.len(),
        forall|j: int| 0 <= j < 10 ==> m.plan.steps[0 + j] == #[trigger] steps[j],
        crate::stage::looks(steps[8]),
        crate::stage::inquires(steps[9], Request::Release { from: 0 }),
    ensures
        n.holds(),
        n.plan == m.plan,
        n.answers == m.answers,
        n.at == 0 + 10,
        n.used == m.used + 1,
        crate::stage::asks(m.plan, m.answers, 4, sort_barrier_correctness_part1_2_asks()),
{
    crate::stage::lemma_full(m);
    crate::stage::lemma_asks_none(m, 4);
    let list0 = Seq::<Ask>::empty();
    let m1 = crate::stage::lemma_look(m, steps[8]);
    let m2 = crate::stage::lemma_release(m1, steps[9], 0);
    crate::stage::lemma_asks_more(m, 4, list0, Ask::Other(Request::Release { from: 0 }));
    let list1 = list0.push(Ask::Other(Request::Release { from: 0 }));
    assert(sort_barrier_correctness_part1_2_asks() == list1);
    m2
}

/// The steps of the part `part1` of `test_sort_barrier_correctness`.
proof fn lemma_sort_barrier_correctness_part1_steps()
    ensures
        ({
            let steps = crate::categories::c08_synchronization::sorted_pattern_steps(
                "reverse",
                minus(minus(num(10000), num(1)), ix()),
            );
            &&& steps.len() == 10
            &&& crate::stage::fills(steps[0], 0, num(10000), minus(minus(num(10000), num(1)), ix()))
            &&& crate::stage::fills(steps[1], 1, num(10000), ix())
            &&& crate::stage::demands(
                steps[2],
                Request::Create { into: 0, layout: Layout::KeyVal, scalar: Scalar::U32, from: 0 },
            )
            &&& crate::stage::demands(steps[3], Request::Sort { of: 0, keys: 1, into: 1 })
            &&& crate::stage::counts(steps[4], 1)
            &&& crate::stage::demands(
                steps[5],
                Request::Download { of: 1, column: 0, scalar: Scalar::U32, into: 2 },
            )
            &&& crate::stage::looks(steps[6])
            &&& crate::stage::works(steps[7], 3)
            &&& crate::stage::looks(steps[8])
            &&& crate::stage::inquires(steps[9], Request::Release { from: 0 })
        }),
{
}

/// What the device is asked in piece 1 of the part `part2` of `test_sort_barrier_correctness`.
pub open spec fn sort_barrier_correctness_part2_1_asks() -> Seq<Ask> {
    let words1 = crate::stage::column(10000, |i: int| if ((i % 2) == 0) { i } else { (10000 - i) });
    let words2 = crate::stage::column(10000, |i: int| i);
    let table1 = Thing::Table {
        layout: Layout::KeyVal,
        scalar: Scalar::U32,
        columns: seq![words1, words2],
        turn: 5,
    };
    let sorted1 = Thing::Sorted { of: Box::new(table1), keys: 1, turn: 6 };
    seq![
        Ask::Make(table1),
        Ask::Make(sorted1),
        Ask::Rows(sorted1),
        Ask::Words { of: sorted1, column: 0, scalar: Scalar::U32 },
    ]
}

/// Piece 1 of the part `part2` of `test_sort_barrier_correctness` asks what it should.
proof fn lemma_sort_barrier_correctness_part2_1(m: Moment, steps: Seq<Step>) -> (n: Moment)
    requires
        m.holds(),
        m.at == 10,
        m.used == 5,
        10 + 10 <= m.plan.steps.len(),
        forall|j: int| 0 <= j < 10 ==> m.plan.steps[10 + j] == #[trigger] steps[j],
        crate::stage::fills(
            steps[0],
            0,
            num(10000),
            pick(same_as(modulo(ix(), num(2)), num(0)), ix(), minus(num(10000), ix())),
        ),
        crate::stage::fills(steps[1], 1, num(10000), ix()),
        crate::stage::demands(
            steps[2],
            Request::Create { into: 0, layout: Layout::KeyVal, scalar: Scalar::U32, from: 0 },
        ),
        crate::stage::demands(steps[3], Request::Sort { of: 0, keys: 1, into: 1 }),
        crate::stage::counts(steps[4], 1),
        crate::stage::demands(
            steps[5],
            Request::Download { of: 1, column: 0, scalar: Scalar::U32, into: 2 },
        ),
        crate::stage::looks(steps[6]),
        crate::stage::works(steps[7], 3),
    ensures
        n.holds(),
        n.plan == m.plan,
        n.answers == m.answers,
        n.at == 10 + 8,
        n.used == m.used + 4,
        crate::stage::asks(m.plan, m.answers, 5, sort_barrier_correctness_part2_1_asks()),
{
    crate::stage::lemma_full(m);
    crate::stage::lemma_asks_none(m, 5);
    let list0 = Seq::<Ask>::empty();
    let words1 = crate::stage::column(10000, |i: int| if ((i % 2) == 0) { i } else { (10000 - i) });
    let word1 = pick(same_as(modulo(ix(), num(2)), num(0)), ix(), minus(num(10000), ix()));
    assert forall|i: int| 0 <= i < words1.len() implies crate::stage::meaning(
        word1,
        m.contents,
        i,
    ) as u64 == #[trigger] words1[i] by {
        reveal_with_fuel(crate::stage::meaning, 5);
    }
    let m1 = crate::stage::lemma_filled(m, steps[0], 0, num(10000), word1, words1);
    let words2 = crate::stage::column(10000, |i: int| i);
    let word2 = ix();
    assert forall|i: int| 0 <= i < words2.len() implies crate::stage::meaning(
        word2,
        m1.contents,
        i,
    ) as u64 == #[trigger] words2[i] by {
        reveal_with_fuel(crate::stage::meaning, 1);
    }
    let m2 = crate::stage::lemma_filled(m1, steps[1], 1, num(10000), word2, words2);
    let table1 = Thing::Table {
        layout: Layout::KeyVal,
        scalar: Scalar::U32,
        columns: seq![words1, words2],
        turn: 5,
    };
    let m3 = crate::stage::lemma_create(m2, steps[2], 0, Layout::KeyVal, Scalar::U32, 0, table1);
    crate::stage::lemma_asks_more(m, 5, list0, Ask::Make(table1));
    let list1 = list0.push(Ask::Make(table1));
    let sorted1 = Thing::Sorted { of: Box::new(table1), keys: 1, turn: 6 };
    let m4 = crate::stage::lemma_sort(m3, steps[3], 0, 1, 1, table1, sorted1);
    crate::stage::lemma_asks_more(m, 5, list1, Ask::Make(sorted1));
    let list2 = list1.push(Ask::Make(sorted1));
    let m5 = crate::stage::lemma_count(m4, steps[4], 1, sorted1);
    crate::stage::lemma_asks_more(m, 5, list2, Ask::Rows(sorted1));
    let list3 = list2.push(Ask::Rows(sorted1));
    let m6 = crate::stage::lemma_download(m5, steps[5], 1, 0, Scalar::U32, 2, sorted1);
    crate::stage::lemma_asks_more(
        m,
        5,
        list3,
        Ask::Words { of: sorted1, column: 0, scalar: Scalar::U32 },
    );
    let list4 = list3.push(Ask::Words { of: sorted1, column: 0, scalar: Scalar::U32 });
    let m7 = crate::stage::lemma_look(m6, steps[6]);
    let m8 = crate::stage::lemma_work(m7, steps[7], 3);
    assert(sort_barrier_correctness_part2_1_asks() == list4);
    m8
}

/// What the device is asked in piece 2 of the part `part2` of `test_sort_barrier_correctness`.
pub open spec fn sort_barrier_correctness_part2_2_asks() -> Seq<Ask> {
    seq![Ask::Other(Request::Release { from: 0 })]
}

/// Piece 2 of the part `part2` of `test_sort_barrier_correctness` asks what it should.
proof fn lemma_sort_barrier_correctness_part2_2(m: Moment, steps: Seq<Step>) -> (n: Moment)
    requires
        m.holds(),
        m.at == 10 + 8,
        m.used == 9,
        10 + 10 <= m.plan.steps.len(),
        forall|j: int| 0 <= j < 10 ==> m.plan.steps[10 + j] == #[trigger] steps[j],
        crate::stage::looks(steps[8]),
        crate::stage::inquires(steps[9], Request::Release { from: 0 }),
    ensures
        n.holds(),
        n.plan == m.plan,
        n.answers == m.answers,
        n.at == 10 + 10,
        n.used == m.used + 1,
        crate::stage::asks(m.plan, m.answers, 9, sort_barrier_correctness_part2_2_asks()),
{
    crate::stage::lemma_full(m);
    crate::stage::lemma_asks_none(m, 9);
    let list0 = Seq::<Ask>::empty();
    let m1 = crate::stage::lemma_look(m, steps[8]);
    let m2 = crate::stage::lemma_release(m1, steps[9], 0);
    crate::stage::lemma_asks_more(m, 9, list0, Ask::Other(Request::Release { from: 0 }));
    let list1 = list0.push(Ask::Other(Request::Release { from: 0 }));
    assert(sort_barrier_correctness_part2_2_asks() == list1);
    m2
}

/// The steps of the part `part2` of `test_sort_barrier_correctness`.
proof fn lemma_sort_barrier_correctness_part2_steps()
    ensures
        ({
            let steps = crate::categories::c08_synchronization::sorted_pattern_steps(
                "alternating",
                pick(same_as(modulo(ix(), num(2)), num(0)), ix(), minus(num(10000), ix())),
            );
            &&& steps.len() == 10
            &&& crate::stage::fills(
                steps[0],
                0,
                num(10000),
                pick(same_as(modulo(ix(), num(2)), num(0)), ix(), minus(num(10000), ix())),
            )
            &&& crate::stage::fills(steps[1], 1, num(10000), ix())
            &&& crate::stage::demands(
                steps[2],
                Request::Create { into: 0, layout: Layout::KeyVal, scalar: Scalar::U32, from: 0 },
            )
            &&& crate::stage::demands(steps[3], Request::Sort { of: 0, keys: 1, into: 1 })
            &&& crate::stage::counts(steps[4], 1)
            &&& crate::stage::demands(
                steps[5],
                Request::Download { of: 1, column: 0, scalar: Scalar::U32, into: 2 },
            )
            &&& crate::stage::looks(steps[6])
            &&& crate::stage::works(steps[7], 3)
            &&& crate::stage::looks(steps[8])
            &&& crate::stage::inquires(steps[9], Request::Release { from: 0 })
        }),
{
}

/// What the device is asked in piece 1 of the part `part3` of `test_sort_barrier_correctness`.
pub open spec fn sort_barrier_correctness_part3_1_asks() -> Seq<Ask> {
    let words1 = crate::stage::column(10000, |i: int| i % 100);
    let words2 = crate::stage::column(10000, |i: int| i);
    let table1 = Thing::Table {
        layout: Layout::KeyVal,
        scalar: Scalar::U32,
        columns: seq![words1, words2],
        turn: 10,
    };
    let sorted1 = Thing::Sorted { of: Box::new(table1), keys: 1, turn: 11 };
    seq![
        Ask::Make(table1),
        Ask::Make(sorted1),
        Ask::Rows(sorted1),
        Ask::Words { of: sorted1, column: 0, scalar: Scalar::U32 },
    ]
}

/// Piece 1 of the part `part3` of `test_sort_barrier_correctness` asks what it should.
proof fn lemma_sort_barrier_correctness_part3_1(m: Moment, steps: Seq<Step>) -> (n: Moment)
    requires
        m.holds(),
        m.at == 20,
        m.used == 10,
        20 + 10 <= m.plan.steps.len(),
        forall|j: int| 0 <= j < 10 ==> m.plan.steps[20 + j] == #[trigger] steps[j],
        crate::stage::fills(steps[0], 0, num(10000), modulo(ix(), num(100))),
        crate::stage::fills(steps[1], 1, num(10000), ix()),
        crate::stage::demands(
            steps[2],
            Request::Create { into: 0, layout: Layout::KeyVal, scalar: Scalar::U32, from: 0 },
        ),
        crate::stage::demands(steps[3], Request::Sort { of: 0, keys: 1, into: 1 }),
        crate::stage::counts(steps[4], 1),
        crate::stage::demands(
            steps[5],
            Request::Download { of: 1, column: 0, scalar: Scalar::U32, into: 2 },
        ),
        crate::stage::looks(steps[6]),
        crate::stage::works(steps[7], 3),
    ensures
        n.holds(),
        n.plan == m.plan,
        n.answers == m.answers,
        n.at == 20 + 8,
        n.used == m.used + 4,
        crate::stage::asks(m.plan, m.answers, 10, sort_barrier_correctness_part3_1_asks()),
{
    crate::stage::lemma_full(m);
    crate::stage::lemma_asks_none(m, 10);
    let list0 = Seq::<Ask>::empty();
    let words1 = crate::stage::column(10000, |i: int| i % 100);
    let word1 = modulo(ix(), num(100));
    assert forall|i: int| 0 <= i < words1.len() implies crate::stage::meaning(
        word1,
        m.contents,
        i,
    ) as u64 == #[trigger] words1[i] by {
        reveal_with_fuel(crate::stage::meaning, 3);
    }
    let m1 = crate::stage::lemma_filled(m, steps[0], 0, num(10000), word1, words1);
    let words2 = crate::stage::column(10000, |i: int| i);
    let word2 = ix();
    assert forall|i: int| 0 <= i < words2.len() implies crate::stage::meaning(
        word2,
        m1.contents,
        i,
    ) as u64 == #[trigger] words2[i] by {
        reveal_with_fuel(crate::stage::meaning, 1);
    }
    let m2 = crate::stage::lemma_filled(m1, steps[1], 1, num(10000), word2, words2);
    let table1 = Thing::Table {
        layout: Layout::KeyVal,
        scalar: Scalar::U32,
        columns: seq![words1, words2],
        turn: 10,
    };
    let m3 = crate::stage::lemma_create(m2, steps[2], 0, Layout::KeyVal, Scalar::U32, 0, table1);
    crate::stage::lemma_asks_more(m, 10, list0, Ask::Make(table1));
    let list1 = list0.push(Ask::Make(table1));
    let sorted1 = Thing::Sorted { of: Box::new(table1), keys: 1, turn: 11 };
    let m4 = crate::stage::lemma_sort(m3, steps[3], 0, 1, 1, table1, sorted1);
    crate::stage::lemma_asks_more(m, 10, list1, Ask::Make(sorted1));
    let list2 = list1.push(Ask::Make(sorted1));
    let m5 = crate::stage::lemma_count(m4, steps[4], 1, sorted1);
    crate::stage::lemma_asks_more(m, 10, list2, Ask::Rows(sorted1));
    let list3 = list2.push(Ask::Rows(sorted1));
    let m6 = crate::stage::lemma_download(m5, steps[5], 1, 0, Scalar::U32, 2, sorted1);
    crate::stage::lemma_asks_more(
        m,
        10,
        list3,
        Ask::Words { of: sorted1, column: 0, scalar: Scalar::U32 },
    );
    let list4 = list3.push(Ask::Words { of: sorted1, column: 0, scalar: Scalar::U32 });
    let m7 = crate::stage::lemma_look(m6, steps[6]);
    let m8 = crate::stage::lemma_work(m7, steps[7], 3);
    assert(sort_barrier_correctness_part3_1_asks() == list4);
    m8
}

/// What the device is asked in piece 2 of the part `part3` of `test_sort_barrier_correctness`.
pub open spec fn sort_barrier_correctness_part3_2_asks() -> Seq<Ask> {
    seq![Ask::Other(Request::Release { from: 0 })]
}

/// Piece 2 of the part `part3` of `test_sort_barrier_correctness` asks what it should.
proof fn lemma_sort_barrier_correctness_part3_2(m: Moment, steps: Seq<Step>) -> (n: Moment)
    requires
        m.holds(),
        m.at == 20 + 8,
        m.used == 14,
        20 + 10 <= m.plan.steps.len(),
        forall|j: int| 0 <= j < 10 ==> m.plan.steps[20 + j] == #[trigger] steps[j],
        crate::stage::looks(steps[8]),
        crate::stage::inquires(steps[9], Request::Release { from: 0 }),
    ensures
        n.holds(),
        n.plan == m.plan,
        n.answers == m.answers,
        n.at == 20 + 10,
        n.used == m.used + 1,
        crate::stage::asks(m.plan, m.answers, 14, sort_barrier_correctness_part3_2_asks()),
{
    crate::stage::lemma_full(m);
    crate::stage::lemma_asks_none(m, 14);
    let list0 = Seq::<Ask>::empty();
    let m1 = crate::stage::lemma_look(m, steps[8]);
    let m2 = crate::stage::lemma_release(m1, steps[9], 0);
    crate::stage::lemma_asks_more(m, 14, list0, Ask::Other(Request::Release { from: 0 }));
    let list1 = list0.push(Ask::Other(Request::Release { from: 0 }));
    assert(sort_barrier_correctness_part3_2_asks() == list1);
    m2
}

/// The steps of the part `part3` of `test_sort_barrier_correctness`.
proof fn lemma_sort_barrier_correctness_part3_steps()
    ensures
        ({
            let steps = crate::categories::c08_synchronization::sorted_pattern_steps(
                "sawtooth",
                modulo(ix(), num(100)),
            );
            &&& steps.len() == 10
            &&& crate::stage::fills(steps[0], 0, num(10000), modulo(ix(), num(100)))
            &&& crate::stage::fills(steps[1], 1, num(10000), ix())
            &&& crate::stage::demands(
                steps[2],
                Request::Create { into: 0, layout: Layout::KeyVal, scalar: Scalar::U32, from: 0 },
            )
            &&& crate::stage::demands(steps[3], Request::Sort { of: 0, keys: 1, into: 1 })
            &&& crate::stage::counts(steps[4], 1)
            &&& crate::stage::demands(
                steps[5],
                Request::Download { of: 1, column: 0, scalar: Scalar::U32, into: 2 },
            )
            &&& crate::stage::looks(steps[6])
            &&& crate::stage::works(steps[7], 3)
            &&& crate::stage::looks(steps[8])
            &&& crate::stage::inquires(steps[9], Request::Release { from: 0 })
        }),
{
}

/// What the device is asked in piece 1 of the part `part4` of `test_sort_barrier_correctness`.
pub open spec fn sort_barrier_correctness_part4_1_asks() -> Seq<Ask> {
    let words1 = crate::stage::column(10000, |i: int| ((i * 1103515245) + 12345) % 10000);
    let words2 = crate::stage::column(10000, |i: int| i);
    let table1 = Thing::Table {
        layout: Layout::KeyVal,
        scalar: Scalar::U32,
        columns: seq![words1, words2],
        turn: 15,
    };
    let sorted1 = Thing::Sorted { of: Box::new(table1), keys: 1, turn: 16 };
    seq![
        Ask::Make(table1),
        Ask::Make(sorted1),
        Ask::Rows(sorted1),
        Ask::Words { of: sorted1, column: 0, scalar: Scalar::U32 },
    ]
}

/// Piece 1 of the part `part4` of `test_sort_barrier_correctness` asks what it should.
proof fn lemma_sort_barrier_correctness_part4_1(m: Moment, steps: Seq<Step>) -> (n: Moment)
    requires
        m.holds(),
        m.at == 30,
        m.used == 15,
        30 + 10 <= m.plan.steps.len(),
        forall|j: int| 0 <= j < 10 ==> m.plan.steps[30 + j] == #[trigger] steps[j],
        crate::stage::fills(
            steps[0],
            0,
            num(10000),
            modulo(plus(times(ix(), num(1103515245)), num(12345)), num(10000)),
        ),
        crate::stage::fills(steps[1], 1, num(10000), ix()),
        crate::stage::demands(
            steps[2],
            Request::Create { into: 0, layout: Layout::KeyVal, scalar: Scalar::U32, from: 0 },
        ),
        crate::stage::demands(steps[3], Request::Sort { of: 0, keys: 1, into: 1 }),
        crate::stage::counts(steps[4], 1),
        crate::stage::demands(
            steps[5],
            Request::Download { of: 1, column: 0, scalar: Scalar::U32, into: 2 },
        ),
        crate::stage::looks(steps[6]),
        crate::stage::works(steps[7], 3),
    ensures
        n.holds(),
        n.plan == m.plan,
        n.answers == m.answers,
        n.at == 30 + 8,
        n.used == m.used + 4,
        crate::stage::asks(m.plan, m.answers, 15, sort_barrier_correctness_part4_1_asks()),
{
    crate::stage::lemma_full(m);
    crate::stage::lemma_asks_none(m, 15);
    let list0 = Seq::<Ask>::empty();
    let words1 = crate::stage::column(10000, |i: int| ((i * 1103515245) + 12345) % 10000);
    let word1 = modulo(plus(times(ix(), num(1103515245)), num(12345)), num(10000));
    assert forall|i: int| 0 <= i < words1.len() implies crate::stage::meaning(
        word1,
        m.contents,
        i,
    ) as u64 == #[trigger] words1[i] by {
        reveal_with_fuel(crate::stage::meaning, 5);
    }
    let m1 = crate::stage::lemma_filled(m, steps[0], 0, num(10000), word1, words1);
    let words2 = crate::stage::column(10000, |i: int| i);
    let word2 = ix();
    assert forall|i: int| 0 <= i < words2.len() implies crate::stage::meaning(
        word2,
        m1.contents,
        i,
    ) as u64 == #[trigger] words2[i] by {
        reveal_with_fuel(crate::stage::meaning, 1);
    }
    let m2 = crate::stage::lemma_filled(m1, steps[1], 1, num(10000), word2, words2);
    let table1 = Thing::Table {
        layout: Layout::KeyVal,
        scalar: Scalar::U32,
        columns: seq![words1, words2],
        turn: 15,
    };
    let m3 = crate::stage::lemma_create(m2, steps[2], 0, Layout::KeyVal, Scalar::U32, 0, table1);
    crate::stage::lemma_asks_more(m, 15, list0, Ask::Make(table1));
    let list1 = list0.push(Ask::Make(table1));
    let sorted1 = Thing::Sorted { of: Box::new(table1), keys: 1, turn: 16 };
    let m4 = crate::stage::lemma_sort(m3, steps[3], 0, 1, 1, table1, sorted1);
    crate::stage::lemma_asks_more(m, 15, list1, Ask::Make(sorted1));
    let list2 = list1.push(Ask::Make(sorted1));
    let m5 = crate::stage::lemma_count(m4, steps[4], 1, sorted1);
    crate::stage::lemma_asks_more(m, 15, list2, Ask::Rows(sorted1));
    let list3 = list2.push(Ask::Rows(sorted1));
    let m6 = crate::stage::lemma_download(m5, steps[5], 1, 0, Scalar::U32, 2, sorted1);
    crate::stage::lemma_asks_more(
        m,
        15,
        list3,
        Ask::Words { of: sorted1, column: 0, scalar: Scalar::U32 },
    );
    let list4 = list3.push(Ask::Words { of: sorted1, column: 0, scalar: Scalar::U32 });
    let m7 = crate::stage::lemma_look(m6, steps[6]);
    let m8 = crate::stage::lemma_work(m7, steps[7], 3);
    assert(sort_barrier_correctness_part4_1_asks() == list4);
    m8
}

/// What the device is asked in piece 2 of the part `part4` of `test_sort_barrier_correctness`.
pub open spec fn sort_barrier_correctness_part4_2_asks() -> Seq<Ask> {
    seq![Ask::Other(Request::Release { from: 0 })]
}

/// Piece 2 of the part `part4` of `test_sort_barrier_correctness` asks what it should.
proof fn lemma_sort_barrier_correctness_part4_2(m: Moment, steps: Seq<Step>) -> (n: Moment)
    requires
        m.holds(),
        m.at == 30 + 8,
        m.used == 19,
        30 + 10 <= m.plan.steps.len(),
        forall|j: int| 0 <= j < 10 ==> m.plan.steps[30 + j] == #[trigger] steps[j],
        crate::stage::looks(steps[8]),
        crate::stage::inquires(steps[9], Request::Release { from: 0 }),
    ensures
        n.holds(),
        n.plan == m.plan,
        n.answers == m.answers,
        n.at == 30 + 10,
        n.used == m.used + 1,
        crate::stage::asks(m.plan, m.answers, 19, sort_barrier_correctness_part4_2_asks()),
{
    crate::stage::lemma_full(m);
    crate::stage::lemma_asks_none(m, 19);
    let list0 = Seq::<Ask>::empty();
    let m1 = crate::stage::lemma_look(m, steps[8]);
    let m2 = crate::stage::lemma_release(m1, steps[9], 0);
    crate::stage::lemma_asks_more(m, 19, list0, Ask::Other(Request::Release { from: 0 }));
    let list1 = list0.push(Ask::Other(Request::Release { from: 0 }));
    assert(sort_barrier_correctness_part4_2_asks() == list1);
    m2
}

/// The steps of the part `part4` of `test_sort_barrier_correctness`.
proof fn lemma_sort_barrier_correctness_part4_steps()
    ensures
        ({
            let steps = crate::categories::c08_synchronization::sorted_pattern_steps(
                "random_lcg",
                modulo(plus(times(ix(), num(1103515245)), num(12345)), num(10000)),
            );
            &&& steps.len() == 10
            &&& crate::stage::fills(
                steps[0],
                0,
                num(10000),
                modulo(plus(times(ix(), num(1103515245)), num(12345)), num(10000)),
            )
            &&& crate::stage::fills(steps[1], 1, num(10000), ix())
            &&& crate::stage::demands(
                steps[2],
                Request::Create { into: 0, layout: Layout::KeyVal, scalar: Scalar::U32, from: 0 },
            )
            &&& crate::stage::demands(steps[3], Request::Sort { of: 0, keys: 1, into: 1 })
            &&& crate::stage::counts(steps[4], 1)
            &&& crate::stage::demands(
                steps[5],
                Request::Download { of: 1, column: 0, scalar: Scalar::U32, into: 2 },
            )
            &&& crate::stage::looks(steps[6])
            &&& crate::stage::works(steps[7], 3)
            &&& crate::stage::looks(steps[8])
            &&& crate::stage::inquires(steps[9], Request::Release { from: 0 })
        }),
{
}

/// What the device is asked in piece 1 of the part `part5` of `test_sort_barrier_correctness`.
pub open spec fn sort_barrier_correctness_part5_1_asks() -> Seq<Ask> {
    let words1 = crate::stage::column(10000, |i: int| ((i / 256) * 256) + (255 - (i % 256)));
    let words2 = crate::stage::column(10000, |i: int| i);
    let table1 = Thing::Table {
        layout: Layout::KeyVal,
        scalar: Scalar::U32,
        columns: seq![words1, words2],
        turn: 20,
    };
    let sorted1 = Thing::Sorted { of: Box::new(table1), keys: 1, turn: 21 };
    seq![
        Ask::Make(table1),
        Ask::Make(sorted1),
        Ask::Rows(sorted1),
        Ask::Words { of: sorted1, column: 0, scalar: Scalar::U32 },
    ]
}

/// Piece 1 of the part `part5` of `test_sort_barrier_correctness` asks what it should.
proof fn lemma_sort_barrier_correctness_part5_1(m: Moment, steps: Seq<Step>) -> (n: Moment)
    requires
        m.holds(),
        m.at == 40,
        m.used == 20,
        40 + 10 <= m.plan.steps.len(),
        forall|j: int| 0 <= j < 10 ==> m.plan.steps[40 + j] == #[trigger] steps[j],
        crate::stage::fills(
            steps[0],
            0,
            num(10000),
            plus(times(over(ix(), num(256)), num(256)), minus(num(255), modulo(ix(), num(256)))),
        ),
        crate::stage::fills(steps[1], 1, num(10000), ix()),
        crate::stage::demands(
            steps[2],
            Request::Create { into: 0, layout: Layout::KeyVal, scalar: Scalar::U32, from: 0 },
        ),
        crate::stage::demands(steps[3], Request::Sort { of: 0, keys: 1, into: 1 }),
        crate::stage::counts(steps[4], 1),
        crate::stage::demands(
            steps[5],
            Request::Download { of: 1, column: 0, scalar: Scalar::U32, into: 2 },
        ),
        crate::stage::looks(steps[6]),
        crate::stage::works(steps[7], 3),
    ensures
        n.holds(),
        n.plan == m.plan,
        n.answers == m.answers,
        n.at == 40 + 8,
        n.used == m.used + 4,
        crate::stage::asks(m.plan, m.answers, 20, sort_barrier_correctness_part5_1_asks()),
{
    crate::stage::lemma_full(m);
    crate::stage::lemma_asks_none(m, 20);
    let list0 = Seq::<Ask>::empty();
    let words1 = crate::stage::column(10000, |i: int| ((i / 256) * 256) + (255 - (i % 256)));
    let word1 = plus(
        times(over(ix(), num(256)), num(256)),
        minus(num(255), modulo(ix(), num(256))),
    );
    assert forall|i: int| 0 <= i < words1.len() implies crate::stage::meaning(
        word1,
        m.contents,
        i,
    ) as u64 == #[trigger] words1[i] by {
        reveal_with_fuel(crate::stage::meaning, 5);
    }
    let m1 = crate::stage::lemma_filled(m, steps[0], 0, num(10000), word1, words1);
    let words2 = crate::stage::column(10000, |i: int| i);
    let word2 = ix();
    assert forall|i: int| 0 <= i < words2.len() implies crate::stage::meaning(
        word2,
        m1.contents,
        i,
    ) as u64 == #[trigger] words2[i] by {
        reveal_with_fuel(crate::stage::meaning, 1);
    }
    let m2 = crate::stage::lemma_filled(m1, steps[1], 1, num(10000), word2, words2);
    let table1 = Thing::Table {
        layout: Layout::KeyVal,
        scalar: Scalar::U32,
        columns: seq![words1, words2],
        turn: 20,
    };
    let m3 = crate::stage::lemma_create(m2, steps[2], 0, Layout::KeyVal, Scalar::U32, 0, table1);
    crate::stage::lemma_asks_more(m, 20, list0, Ask::Make(table1));
    let list1 = list0.push(Ask::Make(table1));
    let sorted1 = Thing::Sorted { of: Box::new(table1), keys: 1, turn: 21 };
    let m4 = crate::stage::lemma_sort(m3, steps[3], 0, 1, 1, table1, sorted1);
    crate::stage::lemma_asks_more(m, 20, list1, Ask::Make(sorted1));
    let list2 = list1.push(Ask::Make(sorted1));
    let m5 = crate::stage::lemma_count(m4, steps[4], 1, sorted1);
    crate::stage::lemma_asks_more(m, 20, list2, Ask::Rows(sorted1));
    let list3 = list2.push(Ask::Rows(sorted1));
    let m6 = crate::stage::lemma_download(m5, steps[5], 1, 0, Scalar::U32, 2, sorted1);
    crate::stage::lemma_asks_more(
        m,
        20,
        list3,
        Ask::Words { of: sorted1, column: 0, scalar: Scalar::U32 },
    );
    let list4 = list3.push(Ask::Words { of: sorted1, column: 0, scalar: Scalar::U32 });
    let m7 = crate::stage::lemma_look(m6, steps[6]);
    let m8 = crate::stage::lemma_work(m7, steps[7], 3);
    assert(sort_barrier_correctness_part5_1_asks() == list4);
    m8
}

/// What the device is asked in piece 2 of the part `part5` of `test_sort_barrier_correctness`.
pub open spec fn sort_barrier_correctness_part5_2_asks() -> Seq<Ask> {
    seq![Ask::Other(Request::Release { from: 0 })]
}

/// Piece 2 of the part `part5` of `test_sort_barrier_correctness` asks what it should.
proof fn lemma_sort_barrier_correctness_part5_2(m: Moment, steps: Seq<Step>) -> (n: Moment)
    requires
        m.holds(),
        m.at == 40 + 8,
        m.used == 24,
        40 + 10 <= m.plan.steps.len(),
        forall|j: int| 0 <= j < 10 ==> m.plan.steps[40 + j] == #[trigger] steps[j],
        crate::stage::looks(steps[8]),
        crate::stage::inquires(steps[9], Request::Release { from: 0 }),
    ensures
        n.holds(),
        n.plan == m.plan,
        n.answers == m.answers,
        n.at == 40 + 10,
        n.used == m.used + 1,
        crate::stage::asks(m.plan, m.answers, 24, sort_barrier_correctness_part5_2_asks()),
{
    crate::stage::lemma_full(m);
    crate::stage::lemma_asks_none(m, 24);
    let list0 = Seq::<Ask>::empty();
    let m1 = crate::stage::lemma_look(m, steps[8]);
    let m2 = crate::stage::lemma_release(m1, steps[9], 0);
    crate::stage::lemma_asks_more(m, 24, list0, Ask::Other(Request::Release { from: 0 }));
    let list1 = list0.push(Ask::Other(Request::Release { from: 0 }));
    assert(sort_barrier_correctness_part5_2_asks() == list1);
    m2
}

/// The steps of the part `part5` of `test_sort_barrier_correctness`.
proof fn lemma_sort_barrier_correctness_part5_steps()
    ensures
        ({
            let steps = crate::categories::c08_synchronization::sorted_pattern_steps(
                "blocks_reversed",
                plus(
                    times(over(ix(), num(256)), num(256)),
                    minus(num(255), modulo(ix(), num(256))),
                ),
            );
            &&& steps.len() == 10
            &&& crate::stage::fills(
                steps[0],
                0,
                num(10000),
                plus(
                    times(over(ix(), num(256)), num(256)),
                    minus(num(255), modulo(ix(), num(256))),
                ),
            )
            &&& crate::stage::fills(steps[1], 1, num(10000), ix())
            &&& crate::stage::demands(
                steps[2],
                Request::Create { into: 0, layout: Layout::KeyVal, scalar: Scalar::U32, from: 0 },
            )
            &&& crate::stage::demands(steps[3], Request::Sort { of: 0, keys: 1, into: 1 })
            &&& crate::stage::counts(steps[4], 1)
            &&& crate::stage::demands(
                steps[5],
                Request::Download { of: 1, column: 0, scalar: Scalar::U32, into: 2 },
            )
            &&& crate::stage::looks(steps[6])
            &&& crate::stage::works(steps[7], 3)
            &&& crate::stage::looks(steps[8])
            &&& crate::stage::inquires(steps[9], Request::Release { from: 0 })
        }),
{
}

/// What the device is asked in the part `end` of `test_sort_barrier_correctness`.
pub open spec fn sort_barrier_correctness_end_asks() -> Seq<Ask> {
    seq![Ask::Other(Request::Sync)]
}

/// The part `end` of `test_sort_barrier_correctness` asks what it should.
proof fn lemma_sort_barrier_correctness_end(m: Moment, steps: Seq<Step>) -> (n: Moment)
    requires
        m.holds(),
        m.at == 50,
        m.used == 25,
        50 + 1 <= m.plan.steps.len(),
        forall|j: int| 0 <= j < 1 ==> m.plan.steps[50 + j] == #[trigger] steps[j],
        crate::stage::demands(steps[0], Request::Sync),
    ensures
        n.holds(),
        n.plan == m.plan,
        n.answers == m.answers,
        n.at == 50 + 1,
        n.used == m.used + 1,
        crate::stage::asks(m.plan, m.answers, 25, sort_barrier_correctness_end_asks()),
{
    crate::stage::lemma_full(m);
    crate::stage::lemma_asks_none(m, 25);
    let list0 = Seq::<Ask>::empty();
    let m1 = crate::stage::lemma_sync(m, steps[0]);
    crate::stage::lemma_asks_more(m, 25, list0, Ask::Other(Request::Sync));
    let list1 = list0.push(Ask::Other(Request::Sync));
    assert(sort_barrier_correctness_end_asks() == list1);
    m1
}

/// The steps of the part `end` of `test_sort_barrier_correctness`.
proof fn lemma_sort_barrier_correctness_end_steps()
    ensures
        ({
            let steps = crate::categories::c08_synchronization::sort_barrier_correctness_end_steps();
            &&& steps.len() == 1
            &&& crate::stage::demands(steps[0], Request::Sync)
        }),
{
}

/// In a run of `test_sort_barrier_correctness` that passes the device is asked this, in this order,
/// and nothing else: each request about what an earlier one made is about that, and about what was
/// uploaded for it.
pub proof fn law_sort_barrier_correctness_asks_about_what_it_made(answers: Seq<Answer>)
    requires
        crate::stage::passes(
            crate::script::plan(
                "test_sort_barrier_correctness",
                crate::categories::c08_synchronization::sort_barrier_correctness_steps(),
            ),
            answers,
        ),
    ensures
        crate::stage::asks(
            crate::script::plan(
                "test_sort_barrier_correctness",
                crate::categories::c08_synchronization::sort_barrier_correctness_steps(),
            ),
            answers,
            0,
            sort_barrier_correctness_part1_1_asks(),
        ),
        crate::stage::asks(
            crate::script::plan(
                "test_sort_barrier_correctness",
                crate::categories::c08_synchronization::sort_barrier_correctness_steps(),
            ),
            answers,
            4,
            sort_barrier_correctness_part1_2_asks(),
        ),
        crate::stage::asks(
            crate::script::plan(
                "test_sort_barrier_correctness",
                crate::categories::c08_synchronization::sort_barrier_correctness_steps(),
            ),
            answers,
            5,
            sort_barrier_correctness_part2_1_asks(),
        ),
        crate::stage::asks(
            crate::script::plan(
                "test_sort_barrier_correctness",
                crate::categories::c08_synchronization::sort_barrier_correctness_steps(),
            ),
            answers,
            9,
            sort_barrier_correctness_part2_2_asks(),
        ),
        crate::stage::asks(
            crate::script::plan(
                "test_sort_barrier_correctness",
                crate::categories::c08_synchronization::sort_barrier_correctness_steps(),
            ),
            answers,
            10,
            sort_barrier_correctness_part3_1_asks(),
        ),
        crate::stage::asks(
            crate::script::plan(
                "test_sort_barrier_correctness",
                crate::categories::c08_synchronization::sort_barrier_correctness_steps(),
            ),
            answers,
            14,
            sort_barrier_correctness_part3_2_asks(),
        ),
        crate::stage::asks(
            crate::script::plan(
                "test_sort_barrier_correctness",
                crate::categories::c08_synchronization::sort_barrier_correctness_steps(),
            ),
            answers,
            15,
            sort_barrier_correctness_part4_1_asks(),
        ),
        crate::stage::asks(
            crate::script::plan(
                "test_sort_barrier_correctness",
                crate::categories::c08_synchronization::sort_barrier_correctness_steps(),
            ),
            answers,
            19,
            sort_barrier_correctness_part4_2_asks(),
        ),
        crate::stage::asks(
            crate::script::plan(
                "test_sort_barrier_correctness",
                crate::categories::c08_synchronization::sort_barrier_correctness_steps(),
            ),
            answers,
            20,
            sort_barrier_correctness_part5_1_asks(),
        ),
        crate::stage::asks(
            crate::script::plan(
                "test_sort_barrier_correctness",
                crate::categories::c08_synchronization::sort_barrier_correctness_steps(),
            ),
            answers,
            24,
            sort_barrier_correctness_part5_2_asks(),
        ),
        crate::stage::asks(
            crate::script::plan(
                "test_sort_barrier_correctness",
                crate::categories::c08_synchronization::sort_barrier_correctness_steps(),
            ),
            answers,
            25,
            sort_barrier_correctness_end_asks(),
        ),
        crate::stage::asked(
            crate::script::plan(
                "test_sort_barrier_correctness",
                crate::categories::c08_synchronization::sort_barrier_correctness_steps(),
            ),
            answers,
            26,
        ) is None,
{
    let plan = crate::script::plan(
        "test_sort_barrier_correctness",
        crate::categories::c08_synchronization::sort_barrier_correctness_steps(),
    );
    let part1 = crate::categories::c08_synchronization::sorted_pattern_steps(
        "reverse",
        minus(minus(num(10000), num(1)), ix()),
    );
    lemma_sort_barrier_correctness_part1_steps();
    let part2 = crate::categories::c08_synchronization::sorted_pattern_steps(
        "alternating",
        pick(same_as(modulo(ix(), num(2)), num(0)), ix(), minus(num(10000), ix())),
    );
    lemma_sort_barrier_correctness_part2_steps();
    let part3 = crate::categories::c08_synchronization::sorted_pattern_steps(
        "sawtooth",
        modulo(ix(), num(100)),
    );
    lemma_sort_barrier_correctness_part3_steps();
    let part4 = crate::categories::c08_synchronization::sorted_pattern_steps(
        "random_lcg",
        modulo(plus(times(ix(), num(1103515245)), num(12345)), num(10000)),
    );
    lemma_sort_barrier_correctness_part4_steps();
    let part5 = crate::categories::c08_synchronization::sorted_pattern_steps(
        "blocks_reversed",
        plus(times(over(ix(), num(256)), num(256)), minus(num(255), modulo(ix(), num(256)))),
    );
    lemma_sort_barrier_correctness_part5_steps();
    let part6 = crate::categories::c08_synchronization::sort_barrier_correctness_end_steps();
    lemma_sort_barrier_correctness_end_steps();
    let whole1 = part1;
    let whole2 = whole1 + part2;
    let whole3 = whole2 + part3;
    let whole4 = whole3 + part4;
    let whole5 = whole4 + part5;
    let whole6 = whole5 + part6;
    assert(plan.steps == whole6);
    let m0 = crate::stage::lemma_start(plan, answers);
    assert forall|j: int| 0 <= j < 10 implies plan.steps[0 + j] == #[trigger] part1[j] by {}
    let m1 = lemma_sort_barrier_correctness_part1_1(m0, part1);
    let m2 = lemma_sort_barrier_correctness_part1_2(m1, part1);
    assert forall|j: int| 0 <= j < 10 implies plan.steps[10 + j] == #[trigger] part2[j] by {}
    let m3 = lemma_sort_barrier_correctness_part2_1(m2, part2);
    let m4 = lemma_sort_barrier_correctness_part2_2(m3, part2);
    assert forall|j: int| 0 <= j < 10 implies plan.steps[20 + j] == #[trigger] part3[j] by {}
    let m5 = lemma_sort_barrier_correctness_part3_1(m4, part3);
    let m6 = lemma_sort_barrier_correctness_part3_2(m5, part3);
    assert forall|j: int| 0 <= j < 10 implies plan.steps[30 + j] == #[trigger] part4[j] by {}
    let m7 = lemma_sort_barrier_correctness_part4_1(m6, part4);
    let m8 = lemma_sort_barrier_correctness_part4_2(m7, part4);
    assert forall|j: int| 0 <= j < 10 implies plan.steps[40 + j] == #[trigger] part5[j] by {}
    let m9 = lemma_sort_barrier_correctness_part5_1(m8, part5);
    let m10 = lemma_sort_barrier_correctness_part5_2(m9, part5);
    assert forall|j: int| 0 <= j < 1 implies plan.steps[50 + j] == #[trigger] part6[j] by {}
    let m11 = lemma_sort_barrier_correctness_end(m10, part6);
    crate::stage::lemma_end(m11);
}

} // verus!
