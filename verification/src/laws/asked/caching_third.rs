//! What these tests ask the device in runs that pass: `test_l2_cache_effects`.

use vstd::prelude::*;
use crate::expr::{ix, modulo, num, plus, times};
use crate::machine::Answer;
use crate::scalar::Scalar;
use crate::script::{Layout, Request, Step};
use crate::stage::{Ask, Moment, Thing};

verus! {

/// A buffer that is uploaded in the part `small` of `test_l2_cache_effects`.
pub open spec fn l2_cache_effects_small_table1() -> Thing {
    Thing::Table {
        layout: Layout::Val,
        scalar: Scalar::U32,
        columns: seq![crate::stage::column(64000, |i: int| ((i * 17) + 13) % 64000)],
        turn: 0,
    }
}

/// A buffer that is uploaded in the part `larger` of `test_l2_cache_effects`.
pub open spec fn l2_cache_effects_larger_table1() -> Thing {
    Thing::Table {
        layout: Layout::Val,
        scalar: Scalar::U32,
        columns: seq![crate::stage::column(512000, |i: int| (i * 31337) % 512000)],
        turn: 10,
    }
}

/// What is sorted in the part `larger` of `test_l2_cache_effects`.
pub open spec fn l2_cache_effects_larger_sorted2() -> Thing {
    Thing::Sorted {
        of: Box::new(
            Thing::Table {
                layout: Layout::Val,
                scalar: Scalar::U32,
                columns: seq![
                    crate::stage::column(2000000, |i: int| ((i * 1103515245) + 12345) % 2000000),
                ],
                turn: 13,
            },
        ),
        keys: 1,
        turn: 14,
    }
}

/// A buffer that is uploaded in the part `larger` of `test_l2_cache_effects`.
pub open spec fn l2_cache_effects_larger_table3() -> Thing {
    Thing::Table {
        layout: Layout::Val,
        scalar: Scalar::U32,
        columns: seq![crate::stage::column(64000, |i: int| i * 3)],
        turn: 16,
    }
}

/// What the device is asked in the part `small` of `test_l2_cache_effects`.
pub open spec fn l2_cache_effects_small_asks() -> Seq<Ask> {
    seq![Ask::Make(l2_cache_effects_small_table1())]
}

/// The part `small` of `test_l2_cache_effects` asks what it should.
proof fn lemma_l2_cache_effects_small(m: Moment, steps: Seq<Step>) -> (n: Moment)
    requires
        m.holds(),
        m.at == 0,
        m.used == 0,
        0 + 2 <= m.plan.steps.len(),
        forall|j: int| 0 <= j < 2 ==> m.plan.steps[0 + j] == #[trigger] steps[j],
        crate::stage::fills(
            steps[0],
            0,
            num(64000),
            modulo(plus(times(ix(), num(17)), num(13)), num(64000)),
        ),
        crate::stage::demands(
            steps[1],
            Request::Create { into: 0, layout: Layout::Val, scalar: Scalar::U32, from: 0 },
        ),
    ensures
        n.holds(),
        n.plan == m.plan,
        n.answers == m.answers,
        n.at == 0 + 2,
        n.used == m.used + 1,
        n.scene.buffer(0) == l2_cache_effects_small_table1(),
        crate::stage::asks(m.plan, m.answers, 0, l2_cache_effects_small_asks()),
{
    crate::stage::lemma_full(m);
    crate::stage::lemma_asks_none(m, 0);
    let list0 = Seq::<Ask>::empty();
    let words1 = crate::stage::column(64000, |i: int| ((i * 17) + 13) % 64000);
    let word1 = modulo(plus(times(ix(), num(17)), num(13)), num(64000));
    assert forall|i: int| 0 <= i < words1.len() implies crate::stage::meaning(
        word1,
        m.contents,
        i,
    ) as u64 == #[trigger] words1[i] by {
        reveal_with_fuel(crate::stage::meaning, 5);
    }
    let m1 = crate::stage::lemma_filled(m, steps[0], 0, num(64000), word1, words1);
    let m2 = crate::stage::lemma_create(
        m1,
        steps[1],
        0,
        Layout::Val,
        Scalar::U32,
        0,
        l2_cache_effects_small_table1(),
    );
    crate::stage::lemma_asks_more(m, 0, list0, Ask::Make(l2_cache_effects_small_table1()));
    let list1 = list0.push(Ask::Make(l2_cache_effects_small_table1()));
    assert(l2_cache_effects_small_asks() == list1);
    m2
}

/// The steps of the part `small` of `test_l2_cache_effects`.
proof fn lemma_l2_cache_effects_small_steps()
    ensures
        ({
            let steps = crate::categories::c17_caching::l2_cache_effects_small_steps();
            &&& steps.len() == 2
            &&& crate::stage::fills(
                steps[0],
                0,
                num(64000),
                modulo(plus(times(ix(), num(17)), num(13)), num(64000)),
            )
            &&& crate::stage::demands(
                steps[1],
                Request::Create { into: 0, layout: Layout::Val, scalar: Scalar::U32, from: 0 },
            )
        }),
{
}

/// What the device is asked in round `k` of the part `small_sorts` of `test_l2_cache_effects`.
pub open spec fn l2_cache_effects_small_sorts_asks(k: int) -> Seq<Ask> {
    let sorted1 = Thing::Sorted {
        of: Box::new(l2_cache_effects_small_table1()),
        keys: 1,
        turn: 1 + 3 * k,
    };
    seq![
        Ask::Make(sorted1),
        Ask::Words { of: sorted1, column: 0, scalar: Scalar::U32 },
        Ask::Other(Request::Release { from: 1 }),
    ]
}

/// Round `k` of the part `small_sorts` of `test_l2_cache_effects` asks what it should.
proof fn lemma_l2_cache_effects_small_sorts(m: Moment, steps: Seq<Step>, k: int) -> (n: Moment)
    requires
        0 <= k < 3,
        m.holds(),
        m.at == 2 + 4 * k,
        m.used == 1 + 3 * k,
        2 + 4 * k + 4 <= m.plan.steps.len(),
        forall|j: int| 0 <= j < 4 ==> m.plan.steps[2 + 4 * k + j] == #[trigger] steps[j],
        crate::stage::demands(steps[0], Request::Sort { of: 0, keys: 1, into: 1 }),
        crate::stage::demands(
            steps[1],
            Request::Download { of: 1, column: 0, scalar: Scalar::U32, into: 1 },
        ),
        crate::stage::looks(steps[2]),
        crate::stage::inquires(steps[3], Request::Release { from: 1 }),
        m.scene.buffer(0) == l2_cache_effects_small_table1(),
    ensures
        n.holds(),
        n.plan == m.plan,
        n.answers == m.answers,
        n.at == 2 + 4 * k + 4,
        n.used == m.used + 3,
        n.scene.buffer(0) == l2_cache_effects_small_table1(),
        crate::stage::asks(m.plan, m.answers, 1 + 3 * k, l2_cache_effects_small_sorts_asks(k)),
{
    crate::stage::lemma_full(m);
    crate::stage::lemma_asks_none(m, 1 + 3 * k);
    let list0 = Seq::<Ask>::empty();
    let sorted1 = Thing::Sorted {
        of: Box::new(l2_cache_effects_small_table1()),
        keys: 1,
        turn: 1 + 3 * k,
    };
    let m1 = crate::stage::lemma_sort(
        m,
        steps[0],
        0,
        1,
        1,
        l2_cache_effects_small_table1(),
        sorted1,
    );
    crate::stage::lemma_asks_more(m, 1 + 3 * k, list0, Ask::Make(sorted1));
    let list1 = list0.push(Ask::Make(sorted1));
    let m2 = crate::stage::lemma_download(m1, steps[1], 1, 0, Scalar::U32, 1, sorted1);
    crate::stage::lemma_asks_more(
        m,
        1 + 3 * k,
        list1,
        Ask::Words { of: sorted1, column: 0, scalar: Scalar::U32 },
    );
    let list2 = list1.push(Ask::Words { of: sorted1, column: 0, scalar: Scalar::U32 });
    let m3 = crate::stage::lemma_look(m2, steps[2]);
    let m4 = crate::stage::lemma_release(m3, steps[3], 1);
    crate::stage::lemma_asks_more(m, 1 + 3 * k, list2, Ask::Other(Request::Release { from: 1 }));
    let list3 = list2.push(Ask::Other(Request::Release { from: 1 }));
    assert(l2_cache_effects_small_sorts_asks(k) == list3);
    m4
}

/// The steps of the part `small_sorts` of `test_l2_cache_effects`.
proof fn lemma_l2_cache_effects_small_sorts_steps(k: int)
    ensures
        ({
            let steps = crate::categories::c17_caching::l2_cache_effects_small_sorts_round(
                k as u64,
            );
            &&& steps.len() == 4
            &&& crate::stage::demands(steps[0], Request::Sort { of: 0, keys: 1, into: 1 })
            &&& crate::stage::demands(
                steps[1],
                Request::Download { of: 1, column: 0, scalar: Scalar::U32, into: 1 },
            )
            &&& crate::stage::looks(steps[2])
            &&& crate::stage::inquires(steps[3], Request::Release { from: 1 })
        }),
{
}

/// The first `k` rounds of the part `small_sorts` of `test_l2_cache_effects` ask what they should.
proof fn lemma_l2_cache_effects_small_sorts_rounds(
    m: Moment,
    part: Seq<Step>,
    k: int,
) -> (n: Moment)
    requires
        0 <= k <= 3,
        m.holds(),
        m.at == 2,
        m.used == 1 + 3 * 0,
        m.at + 12 <= m.plan.steps.len(),
        part == crate::script::rounds(
            3,
            |k: int| crate::categories::c17_caching::l2_cache_effects_small_sorts_round(k as u64),
        ),
        forall|j: int| 0 <= j < 12 ==> m.plan.steps[2 + j] == #[trigger] part[j],
        m.scene.buffer(0) == l2_cache_effects_small_table1(),
    ensures
        n.holds(),
        n.plan == m.plan,
        n.answers == m.answers,
        n.at == 2 + 4 * k,
        n.used == 1 + 3 * k,
        n.scene.buffer(0) == l2_cache_effects_small_table1(),
        forall|j: int|
            0 <= j < k ==> crate::stage::asks(
                m.plan,
                m.answers,
                1 + 3 * j,
                #[trigger] l2_cache_effects_small_sorts_asks(j),
            ),
    decreases k,
{
    if k == 0 {
        m
    } else {
        let round = |k: int| crate::categories::c17_caching::l2_cache_effects_small_sorts_round(
            k as u64,
        );
        let before = lemma_l2_cache_effects_small_sorts_rounds(m, part, k - 1);
        assert forall|j: int| 0 <= j < 4 implies m.plan.steps[before.at + j] == #[trigger] crate::categories::c17_caching::l2_cache_effects_small_sorts_round(
            (k - 1) as u64,
        )[j] by {
            assert forall|k: int| 0 <= k < 3 implies (#[trigger] round(k)).len() == 4 by {
                lemma_l2_cache_effects_small_sorts_steps(k);
            }
            crate::stage::lemma_round_place(3, round, 4, k - 1, j);
            assert(part[(k - 1) * 4 + j] == round(k - 1)[j]);
        }
        lemma_l2_cache_effects_small_sorts_steps(k - 1);
        lemma_l2_cache_effects_small_sorts(
            before,
            crate::categories::c17_caching::l2_cache_effects_small_sorts_round((k - 1) as u64),
            k - 1,
        )
    }
}

/// What the device is asked in piece 1 of the part `larger` of `test_l2_cache_effects`.
pub open spec fn l2_cache_effects_larger_1_asks() -> Seq<Ask> {
    let sorted1 = Thing::Sorted {
        of: Box::new(l2_cache_effects_larger_table1()),
        keys: 1,
        turn: 11,
    };
    let words2 = crate::stage::column(2000000, |i: int| ((i * 1103515245) + 12345) % 2000000);
    let table2 = Thing::Table {
        layout: Layout::Val,
        scalar: Scalar::U32,
        columns: seq![words2],
        turn: 13,
    };
    seq![
        Ask::Make(l2_cache_effects_larger_table1()),
        Ask::Make(sorted1),
        Ask::Words { of: sorted1, column: 0, scalar: Scalar::U32 },
        Ask::Make(table2),
        Ask::Make(l2_cache_effects_larger_sorted2()),
    ]
}

/// Piece 1 of the part `larger` of `test_l2_cache_effects` asks what it should.
proof fn lemma_l2_cache_effects_larger_1(m: Moment, steps: Seq<Step>) -> (n: Moment)
    requires
        m.holds(),
        m.at == 14,
        m.used == 10,
        14 + 12 <= m.plan.steps.len(),
        forall|j: int| 0 <= j < 12 ==> m.plan.steps[14 + j] == #[trigger] steps[j],
        crate::stage::fills(steps[0], 2, num(512000), modulo(times(ix(), num(31337)), num(512000))),
        crate::stage::demands(
            steps[1],
            Request::Create { into: 1, layout: Layout::Val, scalar: Scalar::U32, from: 2 },
        ),
        crate::stage::demands(steps[2], Request::Sort { of: 1, keys: 1, into: 2 }),
        crate::stage::demands(
            steps[3],
            Request::Download { of: 2, column: 0, scalar: Scalar::U32, into: 3 },
        ),
        crate::stage::looks(steps[4]),
        crate::stage::fills(
            steps[5],
            4,
            num(2000000),
            modulo(plus(times(ix(), num(1103515245)), num(12345)), num(2000000)),
        ),
        crate::stage::demands(
            steps[6],
            Request::Create { into: 3, layout: Layout::Val, scalar: Scalar::U32, from: 4 },
        ),
        crate::stage::demands(steps[7], Request::Sort { of: 3, keys: 1, into: 4 }),
    ensures
        n.holds(),
        n.plan == m.plan,
        n.answers == m.answers,
        n.at == 14 + 8,
        n.used == m.used + 5,
        n.scene.buffer(1) == l2_cache_effects_larger_table1(),
        n.scene.buffer(4) == l2_cache_effects_larger_sorted2(),
        crate::stage::asks(m.plan, m.answers, 10, l2_cache_effects_larger_1_asks()),
{
    crate::stage::lemma_full(m);
    crate::stage::lemma_asks_none(m, 10);
    let list0 = Seq::<Ask>::empty();
    let words1 = crate::stage::column(512000, |i: int| (i * 31337) % 512000);
    let word1 = modulo(times(ix(), num(31337)), num(512000));
    assert forall|i: int| 0 <= i < words1.len() implies crate::stage::meaning(
        word1,
        m.contents,
        i,
    ) as u64 == #[trigger] words1[i] by {
        reveal_with_fuel(crate::stage::meaning, 4);
    }
    let m1 = crate::stage::lemma_filled(m, steps[0], 2, num(512000), word1, words1);
    let m2 = crate::stage::lemma_create(
        m1,
        steps[1],
        1,
        Layout::Val,
        Scalar::U32,
        2,
        l2_cache_effects_larger_table1(),
    );
    crate::stage::lemma_asks_more(m, 10, list0, Ask::Make(l2_cache_effects_larger_table1()));
    let list1 = list0.push(Ask::Make(l2_cache_effects_larger_table1()));
    let sorted1 = Thing::Sorted {
        of: Box::new(l2_cache_effects_larger_table1()),
        keys: 1,
        turn: 11,
    };
    let m3 = crate::stage::lemma_sort(
        m2,
        steps[2],
        1,
        1,
        2,
        l2_cache_effects_larger_table1(),
        sorted1,
    );
    crate::stage::lemma_asks_more(m, 10, list1, Ask::Make(sorted1));
    let list2 = list1.push(Ask::Make(sorted1));
    let m4 = crate::stage::lemma_download(m3, steps[3], 2, 0, Scalar::U32, 3, sorted1);
    crate::stage::lemma_asks_more(
        m,
        10,
        list2,
        Ask::Words { of: sorted1, column: 0, scalar: Scalar::U32 },
    );
    let list3 = list2.push(Ask::Words { of: sorted1, column: 0, scalar: Scalar::U32 });
    let m5 = crate::stage::lemma_look(m4, steps[4]);
    let words2 = crate::stage::column(2000000, |i: int| ((i * 1103515245) + 12345) % 2000000);
    let word6 = modulo(plus(times(ix(), num(1103515245)), num(12345)), num(2000000));
    assert forall|i: int| 0 <= i < words2.len() implies crate::stage::meaning(
        word6,
        m5.contents,
        i,
    ) as u64 == #[trigger] words2[i] by {
        reveal_with_fuel(crate::stage::meaning, 5);
    }
    let m6 = crate::stage::lemma_filled(m5, steps[5], 4, num(2000000), word6, words2);
    let table2 = Thing::Table {
        layout: Layout::Val,
        scalar: Scalar::U32,
        columns: seq![words2],
        turn: 13,
    };
    let m7 = crate::stage::lemma_create(m6, steps[6], 3, Layout::Val, Scalar::U32, 4, table2);
    crate::stage::lemma_asks_more(m, 10, list3, Ask::Make(table2));
    let list4 = list3.push(Ask::Make(table2));
    let m8 = crate::stage::lemma_sort(
        m7,
        steps[7],
        3,
        1,
        4,
        table2,
        l2_cache_effects_larger_sorted2(),
    );
    crate::stage::lemma_asks_more(m, 10, list4, Ask::Make(l2_cache_effects_larger_sorted2()));
    let list5 = list4.push(Ask::Make(l2_cache_effects_larger_sorted2()));
    assert(l2_cache_effects_larger_1_asks() == list5);
    m8
}

/// What the device is asked in piece 2 of the part `larger` of `test_l2_cache_effects`.
pub open spec fn l2_cache_effects_larger_2_asks() -> Seq<Ask> {
    seq![
        Ask::Words { of: l2_cache_effects_larger_sorted2(), column: 0, scalar: Scalar::U32 },
        Ask::Make(l2_cache_effects_larger_table3()),
    ]
}

/// Piece 2 of the part `larger` of `test_l2_cache_effects` asks what it should.
proof fn lemma_l2_cache_effects_larger_2(m: Moment, steps: Seq<Step>) -> (n: Moment)
    requires
        m.holds(),
        m.at == 14 + 8,
        m.used == 15,
        14 + 12 <= m.plan.steps.len(),
        forall|j: int| 0 <= j < 12 ==> m.plan.steps[14 + j] == #[trigger] steps[j],
        crate::stage::demands(
            steps[8],
            Request::Download { of: 4, column: 0, scalar: Scalar::U32, into: 5 },
        ),
        crate::stage::looks(steps[9]),
        crate::stage::fills(steps[10], 6, num(64000), times(ix(), num(3))),
        crate::stage::demands(
            steps[11],
            Request::Create { into: 5, layout: Layout::Val, scalar: Scalar::U32, from: 6 },
        ),
        m.scene.buffer(1) == l2_cache_effects_larger_table1(),
        m.scene.buffer(4) == l2_cache_effects_larger_sorted2(),
    ensures
        n.holds(),
        n.plan == m.plan,
        n.answers == m.answers,
        n.at == 14 + 12,
        n.used == m.used + 2,
        n.scene.buffer(1) == l2_cache_effects_larger_table1(),
        n.scene.buffer(5) == l2_cache_effects_larger_table3(),
        crate::stage::asks(m.plan, m.answers, 15, l2_cache_effects_larger_2_asks()),
{
    crate::stage::lemma_full(m);
    crate::stage::lemma_asks_none(m, 15);
    let list0 = Seq::<Ask>::empty();
    let m1 = crate::stage::lemma_download(
        m,
        steps[8],
        4,
        0,
        Scalar::U32,
        5,
        l2_cache_effects_larger_sorted2(),
    );
    crate::stage::lemma_asks_more(
        m,
        15,
        list0,
        Ask::Words { of: l2_cache_effects_larger_sorted2(), column: 0, scalar: Scalar::U32 },
    );
    let list1 = list0.push(
        Ask::Words { of: l2_cache_effects_larger_sorted2(), column: 0, scalar: Scalar::U32 },
    );
    let m2 = crate::stage::lemma_look(m1, steps[9]);
    let words3 = crate::stage::column(64000, |i: int| i * 3);
    let word3 = times(ix(), num(3));
    assert forall|i: int| 0 <= i < words3.len() implies crate::stage::meaning(
        word3,
        m2.contents,
        i,
    ) as u64 == #[trigger] words3[i] by {
        reveal_with_fuel(crate::stage::meaning, 3);
    }
    let m3 = crate::stage::lemma_filled(m2, steps[10], 6, num(64000), word3, words3);
    let m4 = crate::stage::lemma_create(
        m3,
        steps[11],
        5,
        Layout::Val,
        Scalar::U32,
        6,
        l2_cache_effects_larger_table3(),
    );
    crate::stage::lemma_asks_more(m, 15, list1, Ask::Make(l2_cache_effects_larger_table3()));
    let list2 = list1.push(Ask::Make(l2_cache_effects_larger_table3()));
    assert(l2_cache_effects_larger_2_asks() == list2);
    m4
}

/// The steps of the part `larger` of `test_l2_cache_effects`.
proof fn lemma_l2_cache_effects_larger_steps()
    ensures
        ({
            let steps = crate::categories::c17_caching::l2_cache_effects_larger_steps();
            &&& steps.len() == 12
            &&& crate::stage::fills(
                steps[0],
                2,
                num(512000),
                modulo(times(ix(), num(31337)), num(512000)),
            )
            &&& crate::stage::demands(
                steps[1],
                Request::Create { into: 1, layout: Layout::Val, scalar: Scalar::U32, from: 2 },
            )
            &&& crate::stage::demands(steps[2], Request::Sort { of: 1, keys: 1, into: 2 })
            &&& crate::stage::demands(
                steps[3],
                Request::Download { of: 2, column: 0, scalar: Scalar::U32, into: 3 },
            )
            &&& crate::stage::looks(steps[4])
            &&& crate::stage::fills(
                steps[5],
                4,
                num(2000000),
                modulo(plus(times(ix(), num(1103515245)), num(12345)), num(2000000)),
            )
            &&& crate::stage::demands(
                steps[6],
                Request::Create { into: 3, layout: Layout::Val, scalar: Scalar::U32, from: 4 },
            )
            &&& crate::stage::demands(steps[7], Request::Sort { of: 3, keys: 1, into: 4 })
            &&& crate::stage::demands(
                steps[8],
                Request::Download { of: 4, column: 0, scalar: Scalar::U32, into: 5 },
            )
            &&& crate::stage::looks(steps[9])
            &&& crate::stage::fills(steps[10], 6, num(64000), times(ix(), num(3)))
            &&& crate::stage::demands(
                steps[11],
                Request::Create { into: 5, layout: Layout::Val, scalar: Scalar::U32, from: 6 },
            )
        }),
{
}

/// What the device is asked in round `k` of the part `interleaved` of `test_l2_cache_effects`.
pub open spec fn l2_cache_effects_interleaved_asks(k: int) -> Seq<Ask> {
    let sorted1 = Thing::Sorted {
        of: Box::new(l2_cache_effects_larger_table3()),
        keys: 1,
        turn: 17 + 5 * k,
    };
    let sorted2 = Thing::Sorted {
        of: Box::new(l2_cache_effects_larger_table1()),
        keys: 1,
        turn: 18 + 5 * k,
    };
    seq![
        Ask::Make(sorted1),
        Ask::Make(sorted2),
        Ask::Rows(sorted1),
        Ask::Rows(sorted2),
        Ask::Other(Request::Release { from: 6 }),
    ]
}

/// Round `k` of the part `interleaved` of `test_l2_cache_effects` asks what it should.
proof fn lemma_l2_cache_effects_interleaved(m: Moment, steps: Seq<Step>, k: int) -> (n: Moment)
    requires
        0 <= k < 3,
        m.holds(),
        m.at == 26 + 5 * k,
        m.used == 17 + 5 * k,
        26 + 5 * k + 5 <= m.plan.steps.len(),
        forall|j: int| 0 <= j < 5 ==> m.plan.steps[26 + 5 * k + j] == #[trigger] steps[j],
        crate::stage::demands(steps[0], Request::Sort { of: 5, keys: 1, into: 6 }),
        crate::stage::demands(steps[1], Request::Sort { of: 1, keys: 1, into: 7 }),
        crate::stage::counts(steps[2], 6),
        crate::stage::counts(steps[3], 7),
        crate::stage::inquires(steps[4], Request::Release { from: 6 }),
        m.scene.buffer(1) == l2_cache_effects_larger_table1(),
        m.scene.buffer(5) == l2_cache_effects_larger_table3(),
    ensures
        n.holds(),
        n.plan == m.plan,
        n.answers == m.answers,
        n.at == 26 + 5 * k + 5,
        n.used == m.used + 5,
        n.scene.buffer(1) == l2_cache_effects_larger_table1(),
        n.scene.buffer(5) == l2_cache_effects_larger_table3(),
        crate::stage::asks(m.plan, m.answers, 17 + 5 * k, l2_cache_effects_interleaved_asks(k)),
{
    crate::stage::lemma_full(m);
    crate::stage::lemma_asks_none(m, 17 + 5 * k);
    let list0 = Seq::<Ask>::empty();
    let sorted1 = Thing::Sorted {
        of: Box::new(l2_cache_effects_larger_table3()),
        keys: 1,
        turn: 17 + 5 * k,
    };
    let m1 = crate::stage::lemma_sort(
        m,
        steps[0],
        5,
        1,
        6,
        l2_cache_effects_larger_table3(),
        sorted1,
    );
    crate::stage::lemma_asks_more(m, 17 + 5 * k, list0, Ask::Make(sorted1));
    let list1 = list0.push(Ask::Make(sorted1));
    let sorted2 = Thing::Sorted {
        of: Box::new(l2_cache_effects_larger_table1()),
        keys: 1,
        turn: 18 + 5 * k,
    };
    let m2 = crate::stage::lemma_sort(
        m1,
        steps[1],
        1,
        1,
        7,
        l2_cache_effects_larger_table1(),
        sorted2,
    );
    crate::stage::lemma_asks_more(m, 17 + 5 * k, list1, Ask::Make(sorted2));
    let list2 = list1.push(Ask::Make(sorted2));
    let m3 = crate::stage::lemma_count(m2, steps[2], 6, sorted1);
    crate::stage::lemma_asks_more(m, 17 + 5 * k, list2, Ask::Rows(sorted1));
    let list3 = list2.push(Ask::Rows(sorted1));
    let m4 = crate::stage::lemma_count(m3, steps[3], 7, sorted2);
    crate::stage::lemma_asks_more(m, 17 + 5 * k, list3, Ask::Rows(sorted2));
    let list4 = list3.push(Ask::Rows(sorted2));
    let m5 = crate::stage::lemma_release(m4, steps[4], 6);
    crate::stage::lemma_asks_more(m, 17 + 5 * k, list4, Ask::Other(Request::Release { from: 6 }));
    let list5 = list4.push(Ask::Other(Request::Release { from: 6 }));
    assert(l2_cache_effects_interleaved_asks(k) == list5);
    m5
}

/// The steps of the part `interleaved` of `test_l2_cache_effects`.
proof fn lemma_l2_cache_effects_interleaved_steps(k: int)
    ensures
        ({
            let steps = crate::categories::c17_caching::l2_cache_effects_interleaved_round(
                k as u64,
            );
            &&& steps.len() == 5
            &&& crate::stage::demands(steps[0], Request::Sort { of: 5, keys: 1, into: 6 })
            &&& crate::stage::demands(steps[1], Request::Sort { of: 1, keys: 1, into: 7 })
            &&& crate::stage::counts(steps[2], 6)
            &&& crate::stage::counts(steps[3], 7)
            &&& crate::stage::inquires(steps[4], Request::Release { from: 6 })
        }),
{
}

/// The first `k` rounds of the part `interleaved` of `test_l2_cache_effects` ask what they should.
proof fn lemma_l2_cache_effects_interleaved_rounds(
    m: Moment,
    part: Seq<Step>,
    k: int,
) -> (n: Moment)
    requires
        0 <= k <= 3,
        m.holds(),
        m.at == 26,
        m.used == 17 + 5 * 0,
        m.at + 15 <= m.plan.steps.len(),
        part == crate::script::rounds(
            3,
            |k: int| crate::categories::c17_caching::l2_cache_effects_interleaved_round(k as u64),
        ),
        forall|j: int| 0 <= j < 15 ==> m.plan.steps[26 + j] == #[trigger] part[j],
        m.scene.buffer(1) == l2_cache_effects_larger_table1(),
        m.scene.buffer(5) == l2_cache_effects_larger_table3(),
    ensures
        n.holds(),
        n.plan == m.plan,
        n.answers == m.answers,
        n.at == 26 + 5 * k,
        n.used == 17 + 5 * k,
        n.scene.buffer(1) == l2_cache_effects_larger_table1(),
        n.scene.buffer(5) == l2_cache_effects_larger_table3(),
        forall|j: int|
            0 <= j < k ==> crate::stage::asks(
                m.plan,
                m.answers,
                17 + 5 * j,
                #[trigger] l2_cache_effects_interleaved_asks(j),
            ),
    decreases k,
{
    if k == 0 {
        m
    } else {
        let round = |k: int| crate::categories::c17_caching::l2_cache_effects_interleaved_round(
            k as u64,
        );
        let before = lemma_l2_cache_effects_interleaved_rounds(m, part, k - 1);
        assert forall|j: int| 0 <= j < 5 implies m.plan.steps[before.at + j] == #[trigger] crate::categories::c17_caching::l2_cache_effects_interleaved_round(
            (k - 1) as u64,
        )[j] by {
            assert forall|k: int| 0 <= k < 3 implies (#[trigger] round(k)).len() == 5 by {
                lemma_l2_cache_effects_interleaved_steps(k);
            }
            crate::stage::lemma_round_place(3, round, 5, k - 1, j);
            assert(part[(k - 1) * 5 + j] == round(k - 1)[j]);
        }
        lemma_l2_cache_effects_interleaved_steps(k - 1);
        lemma_l2_cache_effects_interleaved(
            before,
            crate::categories::c17_caching::l2_cache_effects_interleaved_round((k - 1) as u64),
            k - 1,
        )
    }
}

/// What the device is asked in the part `end` of `test_l2_cache_effects`.
pub open spec fn l2_cache_effects_end_asks() -> Seq<Ask> {
    seq![Ask::Other(Request::Sync)]
}

/// The part `end` of `test_l2_cache_effects` asks what it should.
proof fn lemma_l2_cache_effects_end(m: Moment, steps: Seq<Step>) -> (n: Moment)
    requires
        m.holds(),
        m.at == 41,
        m.used == 32,
        41 + 1 <= m.plan.steps.len(),
        forall|j: int| 0 <= j < 1 ==> m.plan.steps[41 + j] == #[trigger] steps[j],
        crate::stage::demands(steps[0], Request::Sync),
    ensures
        n.holds(),
        n.plan == m.plan,
        n.answers == m.answers,
        n.at == 41 + 1,
        n.used == m.used + 1,
        crate::stage::asks(m.plan, m.answers, 32, l2_cache_effects_end_asks()),
{
    crate::stage::lemma_full(m);
    crate::stage::lemma_asks_none(m, 32);
    let list0 = Seq::<Ask>::empty();
    let m1 = crate::stage::lemma_sync(m, steps[0]);
    crate::stage::lemma_asks_more(m, 32, list0, Ask::Other(Request::Sync));
    let list1 = list0.push(Ask::Other(Request::Sync));
    assert(l2_cache_effects_end_asks() == list1);
    m1
}

/// The steps of the part `end` of `test_l2_cache_effects`.
proof fn lemma_l2_cache_effects_end_steps()
    ensures
        ({
            let steps = crate::categories::c17_caching::l2_cache_effects_end_steps();
            &&& steps.len() == 1
            &&& crate::stage::demands(steps[0], Request::Sync)
        }),
{
}

/// In a run of `test_l2_cache_effects` that passes the device is asked this, in this order, and
/// nothing else: each request about what an earlier one made is about that, and about what was
/// uploaded for it.
pub proof fn law_l2_cache_effects_asks_about_what_it_made(answers: Seq<Answer>)
    requires
        crate::stage::passes(
            crate::script::plan(
                "test_l2_cache_effects",
                crate::categories::c17_caching::l2_cache_effects_steps(),
            ),
            answers,
        ),
    ensures
        crate::stage::asks(
            crate::script::plan(
                "test_l2_cache_effects",
                crate::categories::c17_caching::l2_cache_effects_steps(),
            ),
            answers,
            0,
            l2_cache_effects_small_asks(),
        ),
        forall|k: int|
            0 <= k < 3 ==> crate::stage::asks(
                crate::script::plan(
                    "test_l2_cache_effects",
                    crate::categories::c17_caching::l2_cache_effects_steps(),
                ),
                answers,
                1 + 3 * k,
                #[trigger] l2_cache_effects_small_sorts_asks(k),
            ),
        crate::stage::asks(
            crate::script::plan(
                "test_l2_cache_effects",
                crate::categories::c17_caching::l2_cache_effects_steps(),
            ),
            answers,
            10,
            l2_cache_effects_larger_1_asks(),
        ),
        crate::stage::asks(
            crate::script::plan(
                "test_l2_cache_effects",
                crate::categories::c17_caching::l2_cache_effects_steps(),
            ),
            answers,
            15,
            l2_cache_effects_larger_2_asks(),
        ),
        forall|k: int|
            0 <= k < 3 ==> crate::stage::asks(
                crate::script::plan(
                    "test_l2_cache_effects",
                    crate::categories::c17_caching::l2_cache_effects_steps(),
                ),
                answers,
                17 + 5 * k,
                #[trigger] l2_cache_effects_interleaved_asks(k),
            ),
        crate::stage::asks(
            crate::script::plan(
                "test_l2_cache_effects",
                crate::categories::c17_caching::l2_cache_effects_steps(),
            ),
            answers,
            32,
            l2_cache_effects_end_asks(),
        ),
        crate::stage::asked(
            crate::script::plan(
                "test_l2_cache_effects",
                crate::categories::c17_caching::l2_cache_effects_steps(),
            ),
            answers,
            33,
        ) is None,
{
    let plan = crate::script::plan(
        "test_l2_cache_effects",
        crate::categories::c17_caching::l2_cache_effects_steps(),
    );
    let part1 = crate::categories::c17_caching::l2_cache_effects_small_steps();
    lemma_l2_cache_effects_small_steps();
    let round2 = |k: int| crate::categories::c17_caching::l2_cache_effects_small_sorts_round(
        k as u64,
    );
    let part2 = crate::script::rounds(3, round2);
    assert forall|k: int| 0 <= k < 3 implies (#[trigger] round2(k)).len() == 4 by {
        lemma_l2_cache_effects_small_sorts_steps(k);
    }
    crate::stage::lemma_rounds_length(3, round2, 4);
    let part3 = crate::categories::c17_caching::l2_cache_effects_larger_steps();
    lemma_l2_cache_effects_larger_steps();
    let round4 = |k: int| crate::categories::c17_caching::l2_cache_effects_interleaved_round(
        k as u64,
    );
    let part4 = crate::script::rounds(3, round4);
    assert forall|k: int| 0 <= k < 3 implies (#[trigger] round4(k)).len() == 5 by {
        lemma_l2_cache_effects_interleaved_steps(k);
    }
    crate::stage::lemma_rounds_length(3, round4, 5);
    let part5 = crate::categories::c17_caching::l2_cache_effects_end_steps();
    lemma_l2_cache_effects_end_steps();
    let whole1 = part1;
    let whole2 = whole1 + part2;
    let whole3 = whole2 + part3;
    let whole4 = whole3 + part4;
    let whole5 = whole4 + part5;
    assert(plan.steps == whole5);
    let m0 = crate::stage::lemma_start(plan, answers);
    assert forall|j: int| 0 <= j < 2 implies plan.steps[0 + j] == #[trigger] part1[j] by {}
    let m1 = lemma_l2_cache_effects_small(m0, part1);
    assert forall|j: int| 0 <= j < 12 implies plan.steps[2 + j] == #[trigger] part2[j] by {}
    let m2 = lemma_l2_cache_effects_small_sorts_rounds(m1, part2, 3);
    assert forall|j: int| 0 <= j < 12 implies plan.steps[14 + j] == #[trigger] part3[j] by {}
    let m3 = lemma_l2_cache_effects_larger_1(m2, part3);
    let m4 = lemma_l2_cache_effects_larger_2(m3, part3);
    assert forall|j: int| 0 <= j < 15 implies plan.steps[26 + j] == #[trigger] part4[j] by {}
    let m5 = lemma_l2_cache_effects_interleaved_rounds(m4, part4, 3);
    assert forall|j: int| 0 <= j < 1 implies plan.steps[41 + j] == #[trigger] part5[j] by {}
    let m6 = lemma_l2_cache_effects_end(m5, part5);
    crate::stage::lemma_end(m6);
}

} // verus!
