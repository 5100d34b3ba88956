//! What these tests ask the device in runs that pass: `test_stress_operations`.

use vstd::prelude::*;
use crate::expr::{ix, lt, modulo, num, over, plus, reg, same_as, times};
use crate::machine::Answer;
use crate::scalar::Scalar;
use crate::script::{Layout, Request, Step};
use crate::stage::{Ask, Moment, Thing};

verus! {

/// The turn in which round `k` of the part `sorts` of `test_stress_operations` starts.
pub open spec fn stress_operations_sorts_start(k: int) -> int
    decreases k,
{
    if k <= 0 {
        0
    } else {
        stress_operations_sorts_start(k - 1) + if ((k - 1) % 20) == 0 { 5int } else { 3int }
    }
}

/// The turn in which round `k` of the part `filters` of `test_stress_operations` starts.
pub open spec fn stress_operations_filters_start(k: int) -> int
    decreases k,
{
    if k <= 0 {
        stress_operations_sorts_start(200) + 1
    } else {
        stress_operations_filters_start(k - 1) + if ((k - 1) % 20) == 0 { 4int } else { 2int }
    }
}

/// The turn in which round `k` of the part `dedups` of `test_stress_operations` starts.
pub open spec fn stress_operations_dedups_start(k: int) -> int
    decreases k,
{
    if k <= 0 {
        stress_operations_filters_start(200) + 0
    } else {
        stress_operations_dedups_start(k - 1) + if ((k - 1) % 20) == 0 { 5int } else { 4int }
    }
}

/// A buffer that is uploaded in the part `filter_source` of `test_stress_operations`.
pub open spec fn stress_operations_filter_source_table1() -> Thing {
    Thing::Table {
        layout: Layout::Val,
        scalar: Scalar::U32,
        columns: seq![crate::stage::column(10000, |i: int| i)],
        turn: stress_operations_sorts_start(200) + 0,
    }
}

/// What the device is asked in round `k` of the part `sorts` of `test_stress_operations`.
pub open spec fn stress_operations_sorts_with_asks(k: int) -> Seq<Ask> {
    let words1 = crate::stage::column(
        10000,
        |i: int| (((i * (k + 1)) * 1103515245) + 12345) % 10000,
    );
    let table1 = Thing::Table {
        layout: Layout::Val,
        scalar: Scalar::U32,
        columns: seq![words1],
        turn: stress_operations_sorts_start(k),
    };
    let sorted1 = Thing::Sorted {
        of: Box::new(table1),
        keys: 1,
        turn: stress_operations_sorts_start(k) + 1,
    };
    seq![
        Ask::Make(table1),
        Ask::Make(sorted1),
        Ask::Words { of: sorted1, column: 0, scalar: Scalar::U32 },
        Ask::Other(Request::Sync),
        Ask::Other(Request::Release { from: 0 }),
    ]
}

/// Round `k` of the part `sorts` of `test_stress_operations` asks what it should.
proof fn lemma_stress_operations_sorts_with(m: Moment, steps: Seq<Step>, k: int) -> (n: Moment)
    requires
        0 <= k < 200,
        (k % 20) == 0,
        m.holds(),
        m.at == 0 + 7 * k,
        m.used == stress_operations_sorts_start(k),
        0 + 7 * k + 7 <= m.plan.steps.len(),
        forall|j: int| 0 <= j < 7 ==> m.plan.steps[0 + 7 * k + j] == #[trigger] steps[j],
        crate::stage::fills(
            steps[0],
            0,
            num(10000),
            modulo(
                plus(times(times(ix(), plus(num(k as u64), num(1))), num(1103515245)), num(12345)),
                num(10000),
            ),
        ),
        crate::stage::demands(
            steps[1],
            Request::Create { into: 0, layout: Layout::Val, scalar: Scalar::U32, from: 0 },
        ),
        crate::stage::demands(steps[2], Request::Sort { of: 0, keys: 1, into: 1 }),
        crate::stage::guards(steps[3], same_as(modulo(num(k as u64), num(20)), num(0))),
        crate::walk::straight(steps[3]),
        crate::stage::demands(
            crate::stage::bare(steps[3]),
            Request::Download { of: 1, column: 0, scalar: Scalar::U32, into: 1 },
        ),
        crate::stage::guards(steps[4], same_as(modulo(num(k as u64), num(20)), num(0))),
        crate::walk::straight(steps[4]),
        crate::stage::looks(crate::stage::bare(steps[4])),
        crate::stage::guards(steps[5], same_as(modulo(num(k as u64), num(20)), num(0))),
        crate::walk::straight(steps[5]),
        crate::stage::demands(crate::stage::bare(steps[5]), Request::Sync),
        crate::stage::inquires(steps[6], Request::Release { from: 0 }),
    ensures
        n.holds(),
        n.plan == m.plan,
        n.answers == m.answers,
        n.at == 0 + 7 * k + 7,
        n.used == m.used + 5,
        crate::stage::asks(
            m.plan,
            m.answers,
            stress_operations_sorts_start(k),
            stress_operations_sorts_with_asks(k),
        ),
{
    crate::stage::lemma_full(m);
    crate::stage::lemma_asks_none(m, stress_operations_sorts_start(k));
    let list0 = Seq::<Ask>::empty();
    let words1 = crate::stage::column(
        10000,
        |i: int| (((i * (k + 1)) * 1103515245) + 12345) % 10000,
    );
    let word1 = modulo(
        plus(times(times(ix(), plus(num(k as u64), num(1))), num(1103515245)), num(12345)),
        num(10000),
    );
    assert forall|i: int| 0 <= i < words1.len() implies crate::stage::meaning(
        word1,
        m.contents,
        i,
    ) as u64 == #[trigger] words1[i] by {
        reveal_with_fuel(crate::stage::meaning, 7);
    }
    let m1 = crate::stage::lemma_filled(m, steps[0], 0, num(10000), word1, words1);
    let table1 = Thing::Table {
        layout: Layout::Val,
        scalar: Scalar::U32,
        columns: seq![words1],
        turn: stress_operations_sorts_start(k),
    };
    let m2 = crate::stage::lemma_create(m1, steps[1], 0, Layout::Val, Scalar::U32, 0, table1);
    crate::stage::lemma_asks_more(m, stress_operations_sorts_start(k), list0, Ask::Make(table1));
    let list1 = list0.push(Ask::Make(table1));
    let sorted1 = Thing::Sorted {
        of: Box::new(table1),
        keys: 1,
        turn: stress_operations_sorts_start(k) + 1,
    };
    let m3 = crate::stage::lemma_sort(m2, steps[2], 0, 1, 1, table1, sorted1);
    crate::stage::lemma_asks_more(m, stress_operations_sorts_start(k), list1, Ask::Make(sorted1));
    let list2 = list1.push(Ask::Make(sorted1));
    assert(
        crate::stage::meaning(
            same_as(modulo(num(k as u64), num(20)), num(0)),
            m3.contents,
            0,
        ) != 0
    ) by {
        reveal_with_fuel(crate::stage::meaning, 6);
    }
    crate::stage::lemma_guard(m3, steps[3], same_as(modulo(num(k as u64), num(20)), num(0)), true);
    let m4 = crate::stage::lemma_download(m3, steps[3], 1, 0, Scalar::U32, 1, sorted1);
    crate::stage::lemma_asks_more(
        m,
        stress_operations_sorts_start(k),
        list2,
        Ask::Words { of: sorted1, column: 0, scalar: Scalar::U32 },
    );
    let list3 = list2.push(Ask::Words { of: sorted1, column: 0, scalar: Scalar::U32 });
    assert(
        crate::stage::meaning(
            same_as(modulo(num(k as u64), num(20)), num(0)),
            m4.contents,
            0,
        ) != 0
    ) by {
        reveal_with_fuel(crate::stage::meaning, 6);
    }
    crate::stage::lemma_guard(m4, steps[4], same_as(modulo(num(k as u64), num(20)), num(0)), true);
    let m5 = crate::stage::lemma_look(m4, steps[4]);
    assert(
        crate::stage::meaning(
            same_as(modulo(num(k as u64), num(20)), num(0)),
            m5.contents,
            0,
        ) != 0
    ) by {
        reveal_with_fuel(crate::stage::meaning, 6);
    }
    crate::stage::lemma_guard(m5, steps[5], same_as(modulo(num(k as u64), num(20)), num(0)), true);
    let m6 = crate::stage::lemma_sync(m5, steps[5]);
    crate::stage::lemma_asks_more(
        m,
        stress_operations_sorts_start(k),
        list3,
        Ask::Other(Request::Sync),
    );
    let list4 = list3.push(Ask::Other(Request::Sync));
    let m7 = crate::stage::lemma_release(m6, steps[6], 0);
    crate::stage::lemma_asks_more(
        m,
        stress_operations_sorts_start(k),
        list4,
        Ask::Other(Request::Release { from: 0 }),
    );
    let list5 = list4.push(Ask::Other(Request::Release { from: 0 }));
    assert(stress_operations_sorts_with_asks(k) == list5);
    m7
}

/// What the device is asked in round `k` of the part `sorts` of `test_stress_operations`.
pub open spec fn stress_operations_sorts_without_asks(k: int) -> Seq<Ask> {
    let words1 = crate::stage::column(
        10000,
        |i: int| (((i * (k + 1)) * 1103515245) + 12345) % 10000,
    );
    let table1 = Thing::Table {
        layout: Layout::Val,
        scalar: Scalar::U32,
        columns: seq![words1],
        turn: stress_operations_sorts_start(k),
    };
    let sorted1 = Thing::Sorted {
        of: Box::new(table1),
        keys: 1,
        turn: stress_operations_sorts_start(k) + 1,
    };
    seq![Ask::Make(table1), Ask::Make(sorted1), Ask::Other(Request::Release { from: 0 })]
}

/// Round `k` of the part `sorts` of `test_stress_operations` asks what it should.
proof fn lemma_stress_operations_sorts_without(m: Moment, steps: Seq<Step>, k: int) -> (n: Moment)
    requires
        0 <= k < 200,
        !((k % 20) == 0),
        m.holds(),
        m.at == 0 + 7 * k,
        m.used == stress_operations_sorts_start(k),
        0 + 7 * k + 7 <= m.plan.steps.len(),
        forall|j: int| 0 <= j < 7 ==> m.plan.steps[0 + 7 * k + j] == #[trigger] steps[j],
        crate::stage::fills(
            steps[0],
            0,
            num(10000),
            modulo(
                plus(times(times(ix(), plus(num(k as u64), num(1))), num(1103515245)), num(12345)),
                num(10000),
            ),
        ),
        crate::stage::demands(
            steps[1],
            Request::Create { into: 0, layout: Layout::Val, scalar: Scalar::U32, from: 0 },
        ),
        crate::stage::demands(steps[2], Request::Sort { of: 0, keys: 1, into: 1 }),
        crate::stage::guards(steps[3], same_as(modulo(num(k as u64), num(20)), num(0))),
        crate::walk::straight(steps[3]),
        crate::stage::guards(steps[4], same_as(modulo(num(k as u64), num(20)), num(0))),
        crate::walk::straight(steps[4]),
        crate::stage::guards(steps[5], same_as(modulo(num(k as u64), num(20)), num(0))),
        crate::walk::straight(steps[5]),
        crate::stage::inquires(steps[6], Request::Release { from: 0 }),
    ensures
        n.holds(),
        n.plan == m.plan,
        n.answers == m.answers,
        n.at == 0 + 7 * k + 7,
        n.used == m.used + 3,
        crate::stage::asks(
            m.plan,
            m.answers,
            stress_operations_sorts_start(k),
            stress_operations_sorts_without_asks(k),
        ),
{
    crate::stage::lemma_full(m);
    crate::stage::lemma_asks_none(m, stress_operations_sorts_start(k));
    let list0 = Seq::<Ask>::empty();
    let words1 = crate::stage::column(
        10000,
        |i: int| (((i * (k + 1)) * 1103515245) + 12345) % 10000,
    );
    let word1 = modulo(
        plus(times(times(ix(), plus(num(k as u64), num(1))), num(1103515245)), num(12345)),
        num(10000),
    );
    assert forall|i: int| 0 <= i < words1.len() implies crate::stage::meaning(
        word1,
        m.contents,
        i,
    ) as u64 == #[trigger] words1[i] by {
        reveal_with_fuel(crate::stage::meaning, 7);
    }
    let m1 = crate::stage::lemma_filled(m, steps[0], 0, num(10000), word1, words1);
    let table1 = Thing::Table {
        layout: Layout::Val,
        scalar: Scalar::U32,
        columns: seq![words1],
        turn: stress_operations_sorts_start(k),
    };
    let m2 = crate::stage::lemma_create(m1, steps[1], 0, Layout::Val, Scalar::U32, 0, table1);
    crate::stage::lemma_asks_more(m, stress_operations_sorts_start(k), list0, Ask::Make(table1));
    let list1 = list0.push(Ask::Make(table1));
    let sorted1 = Thing::Sorted {
        of: Box::new(table1),
        keys: 1,
        turn: stress_operations_sorts_start(k) + 1,
    };
    let m3 = crate::stage::lemma_sort(m2, steps[2], 0, 1, 1, table1, sorted1);
    crate::stage::lemma_asks_more(m, stress_operations_sorts_start(k), list1, Ask::Make(sorted1));
    let list2 = list1.push(Ask::Make(sorted1));
    assert(
        crate::stage::meaning(
            same_as(modulo(num(k as u64), num(20)), num(0)),
            m3.contents,
            0,
        ) == 0
    ) by {
        reveal_with_fuel(crate::stage::meaning, 6);
    }
    crate::stage::lemma_guard(m3, steps[3], same_as(modulo(num(k as u64), num(20)), num(0)), false);
    let m4 = crate::stage::lemma_skipped(m3, steps[3]);
    assert(
        crate::stage::meaning(
            same_as(modulo(num(k as u64), num(20)), num(0)),
            m4.contents,
            0,
        ) == 0
    ) by {
        reveal_with_fuel(crate::stage::meaning, 6);
    }
    crate::stage::lemma_guard(m4, steps[4], same_as(modulo(num(k as u64), num(20)), num(0)), false);
    let m5 = crate::stage::lemma_skipped(m4, steps[4]);
    assert(
        crate::stage::meaning(
            same_as(modulo(num(k as u64), num(20)), num(0)),
            m5.contents,
            0,
        ) == 0
    ) by {
        reveal_with_fuel(crate::stage::meaning, 6);
    }
    crate::stage::lemma_guard(m5, steps[5], same_as(modulo(num(k as u64), num(20)), num(0)), false);
    let m6 = crate::stage::lemma_skipped(m5, steps[5]);
    let m7 = crate::stage::lemma_release(m6, steps[6], 0);
    crate::stage::lemma_asks_more(
        m,
        stress_operations_sorts_start(k),
        list2,
        Ask::Other(Request::Release { from: 0 }),
    );
    let list3 = list2.push(Ask::Other(Request::Release { from: 0 }));
    assert(stress_operations_sorts_without_asks(k) == list3);
    m7
}

/// The steps of the part `sorts` of `test_stress_operations`.
proof fn lemma_stress_operations_sorts_steps(k: int)
    ensures
        ({
            let steps = crate::categories::c21_hardware::stress_operations_sorts_round(k as u64);
            &&& steps.len() == 7
            &&& crate::stage::fills(
                steps[0],
                0,
                num(10000),
                modulo(
                    plus(
                        times(times(ix(), plus(num(k as u64), num(1))), num(1103515245)),
                        num(12345),
                    ),
                    num(10000),
                ),
            )
            &&& crate::stage::demands(
                steps[1],
                Request::Create { into: 0, layout: Layout::Val, scalar: Scalar::U32, from: 0 },
            )
            &&& crate::stage::demands(steps[2], Request::Sort { of: 0, keys: 1, into: 1 })
            &&& crate::stage::guards(steps[3], same_as(modulo(num(k as u64), num(20)), num(0)))
            &&& crate::walk::straight(steps[3])
            &&& crate::stage::demands(
                crate::stage::bare(steps[3]),
                Request::Download { of: 1, column: 0, scalar: Scalar::U32, into: 1 },
            )
            &&& crate::stage::guards(steps[4], same_as(modulo(num(k as u64), num(20)), num(0)))
            &&& crate::walk::straight(steps[4])
            &&& crate::stage::looks(crate::stage::bare(steps[4]))
            &&& crate::stage::guards(steps[5], same_as(modulo(num(k as u64), num(20)), num(0)))
            &&& crate::walk::straight(steps[5])
            &&& crate::stage::demands(crate::stage::bare(steps[5]), Request::Sync)
            &&& crate::stage::inquires(steps[6], Request::Release { from: 0 })
        }),
{
}

/// Round `k` of the part `sorts` of `test_stress_operations` asks what it should.
proof fn lemma_stress_operations_sorts_round(m: Moment, k: int) -> (n: Moment)
    requires
        0 <= k < 200,
        m.holds(),
        m.at == 0 + 7 * k,
        m.used == stress_operations_sorts_start(k),
        m.at + 7 <= m.plan.steps.len(),
        forall|j: int|
            0 <= j < 7 ==> m.plan.steps[0 + 7 * k + j] == #[trigger] crate::categories::c21_hardware::stress_operations_sorts_round(
                k as u64,
            )[j],
    ensures
        n.holds(),
        n.plan == m.plan,
        n.answers == m.answers,
        n.at == 0 + 7 * (k + 1),
        n.used == stress_operations_sorts_start(k + 1),
        (k % 20) == 0 ==> crate::stage::asks(
            m.plan,
            m.answers,
            stress_operations_sorts_start(k),
            stress_operations_sorts_with_asks(k),
        ),
        !((k % 20) == 0) ==> crate::stage::asks(
            m.plan,
            m.answers,
            stress_operations_sorts_start(k),
            stress_operations_sorts_without_asks(k),
        ),
{
    let steps = crate::categories::c21_hardware::stress_operations_sorts_round(k as u64);
    lemma_stress_operations_sorts_steps(k);
    reveal_with_fuel(stress_operations_sorts_start, 2);
    if (k % 20) == 0 {
        lemma_stress_operations_sorts_with(m, steps, k)
    } else {
        lemma_stress_operations_sorts_without(m, steps, k)
    }
}

/// The first `k` rounds of the part `sorts` of `test_stress_operations` ask what they should.
proof fn lemma_stress_operations_sorts_rounds(m: Moment, part: Seq<Step>, k: int) -> (n: Moment)
    requires
        0 <= k <= 200,
        m.holds(),
        m.at == 0,
        m.used == stress_operations_sorts_start(0),
        m.at + 1400 <= m.plan.steps.len(),
        part == crate::script::rounds(
            200,
            |k: int| crate::categories::c21_hardware::stress_operations_sorts_round(k as u64),
        ),
        forall|j: int| 0 <= j < 1400 ==> m.plan.steps[0 + j] == #[trigger] part[j],
    ensures
        n.holds(),
        n.plan == m.plan,
        n.answers == m.answers,
        n.at == 0 + 7 * k,
        n.used == stress_operations_sorts_start(k),
        forall|j: int|
            0 <= j < k && (j % 20) == 0 ==> crate::stage::asks(
                m.plan,
                m.answers,
                stress_operations_sorts_start(j),
                #[trigger] stress_operations_sorts_with_asks(j),
            ),
        forall|j: int|
            0 <= j < k && !((j % 20) == 0) ==> crate::stage::asks(
                m.plan,
                m.answers,
                stress_operations_sorts_start(j),
                #[trigger] stress_operations_sorts_without_asks(j),
            ),
    decreases k,
{
    if k == 0 {
        m
    } else {
        let round = |k: int| crate::categories::c21_hardware::stress_operations_sorts_round(
            k as u64,
        );
        let before = lemma_stress_operations_sorts_rounds(m, part, k - 1);
        assert forall|j: int| 0 <= j < 7 implies m.plan.steps[before.at + j] == #[trigger] crate::categories::c21_hardware::stress_operations_sorts_round(
            (k - 1) as u64,
        )[j] by {
            assert forall|k: int| 0 <= k < 200 implies (#[trigger] round(k)).len() == 7 by {
                lemma_stress_operations_sorts_steps(k);
            }
            crate::stage::lemma_round_place(200, round, 7, k - 1, j);
            assert(part[(k - 1) * 7 + j] == round(k - 1)[j]);
        }
        lemma_stress_operations_sorts_round(before, k - 1)
    }
}

/// What the device is asked in the part `filter_source` of `test_stress_operations`.
pub open spec fn stress_operations_filter_source_asks() -> Seq<Ask> {
    seq![Ask::Make(stress_operations_filter_source_table1())]
}

/// The part `filter_source` of `test_stress_operations` asks what it should.
proof fn lemma_stress_operations_filter_source(m: Moment, steps: Seq<Step>) -> (n: Moment)
    requires
        m.holds(),
        m.at == 1400,
        m.used == stress_operations_sorts_start(200) + 0,
        1400 + 2 <= m.plan.steps.len(),
        forall|j: int| 0 <= j < 2 ==> m.plan.steps[1400 + j] == #[trigger] steps[j],
        crate::stage::fills(steps[0], 0, num(10000), ix()),
        crate::stage::demands(
            steps[1],
            Request::Create { into: 0, layout: Layout::Val, scalar: Scalar::U32, from: 0 },
        ),
    ensures
        n.holds(),
        n.plan == m.plan,
        n.answers == m.answers,
        n.at == 1400 + 2,
        n.used == m.used + 1,
        n.scene.buffer(0) == stress_operations_filter_source_table1(),
        crate::stage::asks(
            m.plan,
            m.answers,
            stress_operations_sorts_start(200) + 0,
            stress_operations_filter_source_asks(),
        ),
{
    crate::stage::lemma_full(m);
    crate::stage::lemma_asks_none(m, stress_operations_sorts_start(200) + 0);
    let list0 = Seq::<Ask>::empty();
    let words1 = crate::stage::column(10000, |i: int| i);
    let word1 = ix();
    assert forall|i: int| 0 <= i < words1.len() implies crate::stage::meaning(
        word1,
        m.contents,
        i,
    ) as u64 == #[trigger] words1[i] by {
        reveal_with_fuel(crate::stage::meaning, 1);
    }
    let m1 = crate::stage::lemma_filled(m, steps[0], 0, num(10000), word1, words1);
    let m2 = crate::stage::lemma_create(
        m1,
        steps[1],
        0,
        Layout::Val,
        Scalar::U32,
        0,
        stress_operations_filter_source_table1(),
    );
    crate::stage::lemma_asks_more(
        m,
        stress_operations_sorts_start(200) + 0,
        list0,
        Ask::Make(stress_operations_filter_source_table1()),
    );
    let list1 = list0.push(Ask::Make(stress_operations_filter_source_table1()));
    assert(stress_operations_filter_source_asks() == list1);
    m2
}

/// The steps of the part `filter_source` of `test_stress_operations`.
proof fn lemma_stress_operations_filter_source_steps()
    ensures
        ({
            let steps = crate::categories::c21_hardware::stress_operations_filter_source_steps();
            &&& steps.len() == 2
            &&& crate::stage::fills(steps[0], 0, num(10000), ix())
            &&& crate::stage::demands(
                steps[1],
                Request::Create { into: 0, layout: Layout::Val, scalar: Scalar::U32, from: 0 },
            )
        }),
{
}

/// What the device is asked in round `k` of the part `filters` of `test_stress_operations`.
pub open spec fn stress_operations_filters_with_asks(k: int) -> Seq<Ask> {
    let number1 = ((k % 10) + 1) * 10;
    let words1 = crate::stage::column(
        10000,
        |i: int| crate::stage::flag((((i * 100) / 10000) < number1)),
    );
    let kept1 = Thing::Kept {
        of: Box::new(stress_operations_filter_source_table1()),
        mask: words1,
        turn: stress_operations_filters_start(k),
    };
    seq![
        Ask::Make(kept1),
        Ask::Rows(kept1),
        Ask::Other(Request::Sync),
        Ask::Other(Request::Release { from: 1 }),
    ]
}

/// Round `k` of the part `filters` of `test_stress_operations` asks what it should.
proof fn lemma_stress_operations_filters_with(m: Moment, steps: Seq<Step>, k: int) -> (n: Moment)
    requires
        0 <= k < 200,
        (k % 20) == 0,
        m.holds(),
        m.at == 1402 + 8 * k,
        m.used == stress_operations_filters_start(k),
        1402 + 8 * k + 8 <= m.plan.steps.len(),
        forall|j: int| 0 <= j < 8 ==> m.plan.steps[1402 + 8 * k + j] == #[trigger] steps[j],
        crate::stage::puts(
            steps[0],
            0,
            times(plus(modulo(num(k as u64), num(10)), num(1)), num(10)),
        ),
        crate::stage::fills(
            steps[1],
            1,
            num(10000),
            lt(over(times(ix(), num(100)), num(10000)), reg(0)),
        ),
        crate::stage::demands(steps[2], Request::Filter { of: 0, mask: 1, into: 1 }),
        crate::stage::guards(steps[3], same_as(modulo(num(k as u64), num(20)), num(0))),
        crate::walk::straight(steps[3]),
        crate::stage::reckons(crate::stage::bare(steps[3]), 1),
        crate::stage::guards(steps[4], same_as(modulo(num(k as u64), num(20)), num(0))),
        crate::walk::straight(steps[4]),
        crate::stage::inquires(crate::stage::bare(steps[4]), Request::Rows { of: 1, into: 2 }),
        crate::stage::guards(steps[5], same_as(modulo(num(k as u64), num(20)), num(0))),
        crate::walk::straight(steps[5]),
        crate::stage::looks(crate::stage::bare(steps[5])),
        crate::stage::guards(steps[6], same_as(modulo(num(k as u64), num(20)), num(0))),
        crate::walk::straight(steps[6]),
        crate::stage::demands(crate::stage::bare(steps[6]), Request::Sync),
        crate::stage::inquires(steps[7], Request::Release { from: 1 }),
        m.scene.buffer(0) == stress_operations_filter_source_table1(),
    ensures
        n.holds(),
        n.plan == m.plan,
        n.answers == m.answers,
        n.at == 1402 + 8 * k + 8,
        n.used == m.used + 4,
        n.scene.buffer(0) == stress_operations_filter_source_table1(),
        crate::stage::asks(
            m.plan,
            m.answers,
            stress_operations_filters_start(k),
            stress_operations_filters_with_asks(k),
        ),
{
    crate::stage::lemma_full(m);
    crate::stage::lemma_asks_none(m, stress_operations_filters_start(k));
    let list0 = Seq::<Ask>::empty();
    let number1 = ((k % 10) + 1) * 10;
    assert(
        crate::stage::meaning(
            times(plus(modulo(num(k as u64), num(10)), num(1)), num(10)),
            m.contents,
            0,
        ) == number1
    ) by {
        reveal_with_fuel(crate::stage::meaning, 5);
    }
    let m1 = crate::stage::lemma_set(
        m,
        steps[0],
        0,
        times(plus(modulo(num(k as u64), num(10)), num(1)), num(10)),
        number1,
    );
    let words1 = crate::stage::column(
        10000,
        |i: int| crate::stage::flag((((i * 100) / 10000) < number1)),
    );
    let word2 = lt(over(times(ix(), num(100)), num(10000)), reg(0));
    assert forall|i: int| 0 <= i < words1.len() implies crate::stage::meaning(
        word2,
        m1.contents,
        i,
    ) as u64 == #[trigger] words1[i] by {
        reveal_with_fuel(crate::stage::meaning, 5);
    }
    let m2 = crate::stage::lemma_filled(m1, steps[1], 1, num(10000), word2, words1);
    let kept1 = Thing::Kept {
        of: Box::new(stress_operations_filter_source_table1()),
        mask: words1,
        turn: stress_operations_filters_start(k),
    };
    let m3 = crate::stage::lemma_filter(
        m2,
        steps[2],
        0,
        1,
        1,
        stress_operations_filter_source_table1(),
        words1,
        kept1,
    );
    crate::stage::lemma_asks_more(m, stress_operations_filters_start(k), list0, Ask::Make(kept1));
    let list1 = list0.push(Ask::Make(kept1));
    assert(
        crate::stage::meaning(
            same_as(modulo(num(k as u64), num(20)), num(0)),
            m3.contents,
            0,
        ) != 0
    ) by {
        reveal_with_fuel(crate::stage::meaning, 6);
    }
    crate::stage::lemma_guard(m3, steps[3], same_as(modulo(num(k as u64), num(20)), num(0)), true);
    let m4 = crate::stage::lemma_reckon(m3, steps[3], 1);
    assert(
        crate::stage::meaning(
            same_as(modulo(num(k as u64), num(20)), num(0)),
            m4.contents,
            0,
        ) != 0
    ) by {
        reveal_with_fuel(crate::stage::meaning, 6);
    }
    crate::stage::lemma_guard(m4, steps[4], same_as(modulo(num(k as u64), num(20)), num(0)), true);
    let m5 = crate::stage::lemma_rows(m4, steps[4], 1, 2, kept1);
    crate::stage::lemma_asks_more(m, stress_operations_filters_start(k), list1, Ask::Rows(kept1));
    let list2 = list1.push(Ask::Rows(kept1));
    assert(
        crate::stage::meaning(
            same_as(modulo(num(k as u64), num(20)), num(0)),
            m5.contents,
            0,
        ) != 0
    ) by {
        reveal_with_fuel(crate::stage::meaning, 6);
    }
    crate::stage::lemma_guard(m5, steps[5], same_as(modulo(num(k as u64), num(20)), num(0)), true);
    let m6 = crate::stage::lemma_look(m5, steps[5]);
    assert(
        crate::stage::meaning(
            same_as(modulo(num(k as u64), num(20)), num(0)),
            m6.contents,
            0,
        ) != 0
    ) by {
        reveal_with_fuel(crate::stage::meaning, 6);
    }
    crate::stage::lemma_guard(m6, steps[6], same_as(modulo(num(k as u64), num(20)), num(0)), true);
    let m7 = crate::stage::lemma_sync(m6, steps[6]);
    crate::stage::lemma_asks_more(
        m,
        stress_operations_filters_start(k),
        list2,
        Ask::Other(Request::Sync),
    );
    let list3 = list2.push(Ask::Other(Request::Sync));
    let m8 = crate::stage::lemma_release(m7, steps[7], 1);
    crate::stage::lemma_asks_more(
        m,
        stress_operations_filters_start(k),
        list3,
        Ask::Other(Request::Release { from: 1 }),
    );
    let list4 = list3.push(Ask::Other(Request::Release { from: 1 }));
    assert(stress_operations_filters_with_asks(k) == list4);
    m8
}

/// What the device is asked in round `k` of the part `filters` of `test_stress_operations`.
pub open spec fn stress_operations_filters_without_asks(k: int) -> Seq<Ask> {
    let number1 = ((k % 10) + 1) * 10;
    let words1 = crate::stage::column(
        10000,
        |i: int| crate::stage::flag((((i * 100) / 10000) < number1)),
    );
    let kept1 = Thing::Kept {
        of: Box::new(stress_operations_filter_source_table1()),
        mask: words1,
        turn: stress_operations_filters_start(k),
    };
    seq![Ask::Make(kept1), Ask::Other(Request::Release { from: 1 })]
}

/// Round `k` of the part `filters` of `test_stress_operations` asks what it should.
proof fn lemma_stress_operations_filters_without(m: Moment, steps: Seq<Step>, k: int) -> (n: Moment)
    requires
        0 <= k < 200,
        !((k % 20) == 0),
        m.holds(),
        m.at == 1402 + 8 * k,
        m.used == stress_operations_filters_start(k),
        1402 + 8 * k + 8 <= m.plan.steps.len(),
        forall|j: int| 0 <= j < 8 ==> m.plan.steps[1402 + 8 * k + j] == #[trigger] steps[j],
        crate::stage::puts(
            steps[0],
            0,
            times(plus(modulo(num(k as u64), num(10)), num(1)), num(10)),
        ),
        crate::stage::fills(
            steps[1],
            1,
            num(10000),
            lt(over(times(ix(), num(100)), num(10000)), reg(0)),
        ),
        crate::stage::demands(steps[2], Request::Filter { of: 0, mask: 1, into: 1 }),
        crate::stage::guards(steps[3], same_as(modulo(num(k as u64), num(20)), num(0))),
        crate::walk::straight(steps[3]),
        crate::stage::guards(steps[4], same_as(modulo(num(k as u64), num(20)), num(0))),
        crate::walk::straight(steps[4]),
        crate::stage::guards(steps[5], same_as(modulo(num(k as u64), num(20)), num(0))),
        crate::walk::straight(steps[5]),
        crate::stage::guards(steps[6], same_as(modulo(num(k as u64), num(20)), num(0))),
        crate::walk::straight(steps[6]),
        crate::stage::inquires(steps[7], Request::Release { from: 1 }),
        m.scene.buffer(0) == stress_operations_filter_source_table1(),
    ensures
        n.holds(),
        n.plan == m.plan,
        n.answers == m.answers,
        n.at == 1402 + 8 * k + 8,
        n.used == m.used + 2,
        n.scene.buffer(0) == stress_operations_filter_source_table1(),
        crate::stage::asks(
            m.plan,
            m.answers,
            stress_operations_filters_start(k),
            stress_operations_filters_without_asks(k),
        ),
{
    crate::stage::lemma_full(m);
    crate::stage::lemma_asks_none(m, stress_operations_filters_start(k));
    let list0 = Seq::<Ask>::empty();
    let number1 = ((k % 10) + 1) * 10;
    assert(
        crate::stage::meaning(
            times(plus(modulo(num(k as u64), num(10)), num(1)), num(10)),
            m.contents,
            0,
        ) == number1
    ) by {
        reveal_with_fuel(crate::stage::meaning, 5);
    }
    let m1 = crate::stage::lemma_set(
        m,
        steps[0],
        0,
        times(plus(modulo(num(k as u64), num(10)), num(1)), num(10)),
        number1,
    );
    let words1 = crate::stage::column(
        10000,
        |i: int| crate::stage::flag((((i * 100) / 10000) < number1)),
    );
    let word2 = lt(over(times(ix(), num(100)), num(10000)), reg(0));
    assert forall|i: int| 0 <= i < words1.len() implies crate::stage::meaning(
        word2,
        m1.contents,
        i,
    ) as u64 == #[trigger] words1[i] by {
        reveal_with_fuel(crate::stage::meaning, 5);
    }
    let m2 = crate::stage::lemma_filled(m1, steps[1], 1, num(10000), word2, words1);
    let kept1 = Thing::Kept {
        of: Box::new(stress_operations_filter_source_table1()),
        mask: words1,
        turn: stress_operations_filters_start(k),
    };
    let m3 = crate::stage::lemma_filter(
        m2,
        steps[2],
        0,
        1,
        1,
        stress_operations_filter_source_table1(),
        words1,
        kept1,
    );
    crate::stage::lemma_asks_more(m, stress_operations_filters_start(k), list0, Ask::Make(kept1));
    let list1 = list0.push(Ask::Make(kept1));
    assert(
        crate::stage::meaning(
            same_as(modulo(num(k as u64), num(20)), num(0)),
            m3.contents,
            0,
        ) == 0
    ) by {
        reveal_with_fuel(crate::stage::meaning, 6);
    }
    crate::stage::lemma_guard(m3, steps[3], same_as(modulo(num(k as u64), num(20)), num(0)), false);
    let m4 = crate::stage::lemma_skipped(m3, steps[3]);
    assert(
        crate::stage::meaning(
            same_as(modulo(num(k as u64), num(20)), num(0)),
            m4.contents,
            0,
        ) == 0
    ) by {
        reveal_with_fuel(crate::stage::meaning, 6);
    }
    crate::stage::lemma_guard(m4, steps[4], same_as(modulo(num(k as u64), num(20)), num(0)), false);
    let m5 = crate::stage::lemma_skipped(m4, steps[4]);
    assert(
        crate::stage::meaning(
            same_as(modulo(num(k as u64), num(20)), num(0)),
            m5.contents,
            0,
        ) == 0
    ) by {
        reveal_with_fuel(crate::stage::meaning, 6);
    }
    crate::stage::lemma_guard(m5, steps[5], same_as(modulo(num(k as u64), num(20)), num(0)), false);
    let m6 = crate::stage::lemma_skipped(m5, steps[5]);
    assert(
        crate::stage::meaning(
            same_as(modulo(num(k as u64), num(20)), num(0)),
            m6.contents,
            0,
        ) == 0
    ) by {
        reveal_with_fuel(crate::stage::meaning, 6);
    }
    crate::stage::lemma_guard(m6, steps[6], same_as(modulo(num(k as u64), num(20)), num(0)), false);
    let m7 = crate::stage::lemma_skipped(m6, steps[6]);
    let m8 = crate::stage::lemma_release(m7, steps[7], 1);
    crate::stage::lemma_asks_more(
        m,
        stress_operations_filters_start(k),
        list1,
        Ask::Other(Request::Release { from: 1 }),
    );
    let list2 = list1.push(Ask::Other(Request::Release { from: 1 }));
    assert(stress_operations_filters_without_asks(k) == list2);
    m8
}

/// The steps of the part `filters` of `test_stress_operations`.
proof fn lemma_stress_operations_filters_steps(k: int)
    ensures
        ({
            let steps = crate::categories::c21_hardware::stress_operations_filters_round(k as u64);
            &&& steps.len() == 8
            &&& crate::stage::puts(
                steps[0],
                0,
                times(plus(modulo(num(k as u64), num(10)), num(1)), num(10)),
            )
            &&& crate::stage::fills(
                steps[1],
                1,
                num(10000),
                lt(over(times(ix(), num(100)), num(10000)), reg(0)),
            )
            &&& crate::stage::demands(steps[2], Request::Filter { of: 0, mask: 1, into: 1 })
            &&& crate::stage::guards(steps[3], same_as(modulo(num(k as u64), num(20)), num(0)))
            &&& crate::walk::straight(steps[3])
            &&& crate::stage::reckons(crate::stage::bare(steps[3]), 1)
            &&& crate::stage::guards(steps[4], same_as(modulo(num(k as u64), num(20)), num(0)))
            &&& crate::walk::straight(steps[4])
            &&& crate::stage::inquires(
                crate::stage::bare(steps[4]),
                Request::Rows { of: 1, into: 2 },
            )
            &&& crate::stage::guards(steps[5], same_as(modulo(num(k as u64), num(20)), num(0)))
            &&& crate::walk::straight(steps[5])
            &&& crate::stage::looks(crate::stage::bare(steps[5]))
            &&& crate::stage::guards(steps[6], same_as(modulo(num(k as u64), num(20)), num(0)))
            &&& crate::walk::straight(steps[6])
            &&& crate::stage::demands(crate::stage::bare(steps[6]), Request::Sync)
            &&& crate::stage::inquires(steps[7], Request::Release { from: 1 })
        }),
{
}

/// Round `k` of the part `filters` of `test_stress_operations` asks what it should.
proof fn lemma_stress_operations_filters_round(m: Moment, k: int) -> (n: Moment)
    requires
        0 <= k < 200,
        m.holds(),
        m.at == 1402 + 8 * k,
        m.used == stress_operations_filters_start(k),
        m.at + 8 <= m.plan.steps.len(),
        forall|j: int|
            0 <= j < 8 ==> m.plan.steps[1402 + 8 * k + j] == #[trigger] crate::categories::c21_hardware::stress_operations_filters_round(
                k as u64,
            )[j],
        m.scene.buffer(0) == stress_operations_filter_source_table1(),
    ensures
        n.holds(),
        n.plan == m.plan,
        n.answers == m.answers,
        n.at == 1402 + 8 * (k + 1),
        n.used == stress_operations_filters_start(k + 1),
        n.scene.buffer(0) == stress_operations_filter_source_table1(),
        (k % 20) == 0 ==> crate::stage::asks(
            m.plan,
            m.answers,
            stress_operations_filters_start(k),
            stress_operations_filters_with_asks(k),
        ),
        !((k % 20) == 0) ==> crate::stage::asks(
            m.plan,
            m.answers,
            stress_operations_filters_start(k),
            stress_operations_filters_without_asks(k),
        ),
{
    let steps = crate::categories::c21_hardware::stress_operations_filters_round(k as u64);
    lemma_stress_operations_filters_steps(k);
    reveal_with_fuel(stress_operations_filters_start, 2);
    if (k % 20) == 0 {
        lemma_stress_operations_filters_with(m, steps, k)
    } else {
        lemma_stress_operations_filters_without(m, steps, k)
    }
}

/// The first `k` rounds of the part `filters` of `test_stress_operations` ask what they should.
proof fn lemma_stress_operations_filters_rounds(m: Moment, part: Seq<Step>, k: int) -> (n: Moment)
    requires
        0 <= k <= 200,
        m.holds(),
        m.at == 1402,
        m.used == stress_operations_filters_start(0),
        m.at + 1600 <= m.plan.steps.len(),
        part == crate::script::rounds(
            200,
            |k: int| crate::categories::c21_hardware::stress_operations_filters_round(k as u64),
        ),
        forall|j: int| 0 <= j < 1600 ==> m.plan.steps[1402 + j] == #[trigger] part[j],
        m.scene.buffer(0) == stress_operations_filter_source_table1(),
    ensures
        n.holds(),
        n.plan == m.plan,
        n.answers == m.answers,
        n.at == 1402 + 8 * k,
        n.used == stress_operations_filters_start(k),
        n.scene.buffer(0) == stress_operations_filter_source_table1(),
        forall|j: int|
            0 <= j < k && (j % 20) == 0 ==> crate::stage::asks(
                m.plan,
                m.answers,
                stress_operations_filters_start(j),
                #[trigger] stress_operations_filters_with_asks(j),
            ),
        forall|j: int|
            0 <= j < k && !((j % 20) == 0) ==> crate::stage::asks(
                m.plan,
                m.answers,
                stress_operations_filters_start(j),
                #[trigger] stress_operations_filters_without_asks(j),
            ),
    decreases k,
{
    if k == 0 {
        m
    } else {
        let round = |k: int| crate::categories::c21_hardware::stress_operations_filters_round(
            k as u64,
        );
        let before = lemma_stress_operations_filters_rounds(m, part, k - 1);
        assert forall|j: int| 0 <= j < 8 implies m.plan.steps[before.at + j] == #[trigger] crate::categories::c21_hardware::stress_operations_filters_round(
            (k - 1) as u64,
        )[j] by {
            assert forall|k: int| 0 <= k < 200 implies (#[trigger] round(k)).len() == 8 by {
                lemma_stress_operations_filters_steps(k);
            }
            crate::stage::lemma_round_place(200, round, 8, k - 1, j);
            assert(part[(k - 1) * 8 + j] == round(k - 1)[j]);
        }
        lemma_stress_operations_filters_round(before, k - 1)
    }
}

/// What the device is asked in round `k` of the part `dedups` of `test_stress_operations`.
pub open spec fn stress_operations_dedups_with_asks(k: int) -> Seq<Ask> {
    let words1 = crate::stage::column(10000, |i: int| i % 100);
    let words2 = crate::stage::column(10000, |i: int| i);
    let table1 = Thing::Table {
        layout: Layout::KeyVal,
        scalar: Scalar::U32,
        columns: seq![words1, words2],
        turn: stress_operations_dedups_start(k),
    };
    let unique1 = Thing::Unique {
        of: Box::new(table1),
        turn: stress_operations_dedups_start(k) + 1,
    };
    seq![
        Ask::Make(table1),
        Ask::Make(unique1),
        Ask::Rows(unique1),
        Ask::Other(Request::Sync),
        Ask::Other(Request::Release { from: 1 }),
    ]
}

/// Round `k` of the part `dedups` of `test_stress_operations` asks what it should.
proof fn lemma_stress_operations_dedups_with(m: Moment, steps: Seq<Step>, k: int) -> (n: Moment)
    requires
        0 <= k < 100,
        (k % 20) == 0,
        m.holds(),
        m.at == 3002 + 7 * k,
        m.used == stress_operations_dedups_start(k),
        3002 + 7 * k + 7 <= m.plan.steps.len(),
        forall|j: int| 0 <= j < 7 ==> m.plan.steps[3002 + 7 * k + j] == #[trigger] steps[j],
        crate::stage::fills(steps[0], 2, num(10000), modulo(ix(), num(100))),
        crate::stage::fills(steps[1], 3, num(10000), ix()),
        crate::stage::demands(
            steps[2],
            Request::Create { into: 1, layout: Layout::KeyVal, scalar: Scalar::U32, from: 2 },
        ),
        crate::stage::demands(steps[3], Request::Dedup { of: 1, into: 2 }),
        crate::stage::counts(steps[4], 2),
        crate::stage::guards(steps[5], same_as(modulo(num(k as u64), num(20)), num(0))),
        crate::walk::straight(steps[5]),
        crate::stage::demands(crate::stage::bare(steps[5]), Request::Sync),
        crate::stage::inquires(steps[6], Request::Release { from: 1 }),
    ensures
        n.holds(),
        n.plan == m.plan,
        n.answers == m.answers,
        n.at == 3002 + 7 * k + 7,
        n.used == m.used + 5,
        crate::stage::asks(
            m.plan,
            m.answers,
            stress_operations_dedups_start(k),
            stress_operations_dedups_with_asks(k),
        ),
{
    crate::stage::lemma_full(m);
    crate::stage::lemma_asks_none(m, stress_operations_dedups_start(k));
    let list0 = Seq::<Ask>::empty();
    let words1 = crate::stage::column(10000, |i: int| i % 100);
    let word1 = modulo(ix(), num(100));
    assert forall|i: int| 0 <= i < words1.len() implies crate::stage::meaning(
        word1,
        m.contents,
        i,
    ) as u64 == #[trigger] words1[i] by {
        reveal_with_fuel(crate::stage::meaning, 3);
    }
    let m1 = crate::stage::lemma_filled(m, steps[0], 2, num(10000), word1, words1);
    let words2 = crate::stage::column(10000, |i: int| i);
    let word2 = ix();
    assert forall|i: int| 0 <= i < words2.len() implies crate::stage::meaning(
        word2,
        m1.contents,
        i,
    ) as u64 == #[trigger] words2[i] by {
        reveal_with_fuel(crate::stage::meaning, 1);
    }
    let m2 = crate::stage::lemma_filled(m1, steps[1], 3, num(10000), word2, words2);
    let table1 = Thing::Table {
        layout: Layout::KeyVal,
        scalar: Scalar::U32,
        columns: seq![words1, words2],
        turn: stress_operations_dedups_start(k),
    };
    let m3 = crate::stage::lemma_create(m2, steps[2], 1, Layout::KeyVal, Scalar::U32, 2, table1);
    crate::stage::lemma_asks_more(m, stress_operations_dedups_start(k), list0, Ask::Make(table1));
    let list1 = list0.push(Ask::Make(table1));
    let unique1 = Thing::Unique {
        of: Box::new(table1),
        turn: stress_operations_dedups_start(k) + 1,
    };
    let m4 = crate::stage::lemma_dedup(m3, steps[3], 1, 2, table1, unique1);
    crate::stage::lemma_asks_more(m, stress_operations_dedups_start(k), list1, Ask::Make(unique1));
    let list2 = list1.push(Ask::Make(unique1));
    let m5 = crate::stage::lemma_count(m4, steps[4], 2, unique1);
    crate::stage::lemma_asks_more(m, stress_operations_dedups_start(k), list2, Ask::Rows(unique1));
    let list3 = list2.push(Ask::Rows(unique1));
    assert(
        crate::stage::meaning(
            same_as(modulo(num(k as u64), num(20)), num(0)),
            m5.contents,
            0,
        ) != 0
    ) by {
        reveal_with_fuel(crate::stage::meaning, 6);
    }
    crate::stage::lemma_guard(m5, steps[5], same_as(modulo(num(k as u64), num(20)), num(0)), true);
    let m6 = crate::stage::lemma_sync(m5, steps[5]);
    crate::stage::lemma_asks_more(
        m,
        stress_operations_dedups_start(k),
        list3,
        Ask::Other(Request::Sync),
    );
    let list4 = list3.push(Ask::Other(Request::Sync));
    let m7 = crate::stage::lemma_release(m6, steps[6], 1);
    crate::stage::lemma_asks_more(
        m,
        stress_operations_dedups_start(k),
        list4,
        Ask::Other(Request::Release { from: 1 }),
    );
    let list5 = list4.push(Ask::Other(Request::Release { from: 1 }));
    assert(stress_operations_dedups_with_asks(k) == list5);
    m7
}

/// What the device is asked in round `k` of the part `dedups` of `test_stress_operations`.
pub open spec fn stress_operations_dedups_without_asks(k: int) -> Seq<Ask> {
    let words1 = crate::stage::column(10000, |i: int| i % 100);
    let words2 = crate::stage::column(10000, |i: int| i);
    let table1 = Thing::Table {
        layout: Layout::KeyVal,
        scalar: Scalar::U32,
        columns: seq![words1, words2],
        turn: stress_operations_dedups_start(k),
    };
    let unique1 = Thing::Unique {
        of: Box::new(table1),
        turn: stress_operations_dedups_start(k) + 1,
    };
    seq![
        Ask::Make(table1),
        Ask::Make(unique1),
        Ask::Rows(unique1),
        Ask::Other(Request::Release { from: 1 }),
    ]
}

/// Round `k` of the part `dedups` of `test_stress_operations` asks what it should.
proof fn lemma_stress_operations_dedups_without(m: Moment, steps: Seq<Step>, k: int) -> (n: Moment)
    requires
        0 <= k < 100,
        !((k % 20) == 0),
        m.holds(),
        m.at == 3002 + 7 * k,
        m.used == stress_operations_dedups_start(k),
        3002 + 7 * k + 7 <= m.plan.steps.len(),
        forall|j: int| 0 <= j < 7 ==> m.plan.steps[3002 + 7 * k + j] == #[trigger] steps[j],
        crate::stage::fills(steps[0], 2, num(10000), modulo(ix(), num(100))),
        crate::stage::fills(steps[1], 3, num(10000), ix()),
        crate::stage::demands(
            steps[2],
            Request::Create { into: 1, layout: Layout::KeyVal, scalar: Scalar::U32, from: 2 },
        ),
        crate::stage::demands(steps[3], Request::Dedup { of: 1, into: 2 }),
        crate::stage::counts(steps[4], 2),
        crate::stage::guards(steps[5], same_as(modulo(num(k as u64), num(20)), num(0))),
        crate::walk::straight(steps[5]),
        crate::stage::inquires(steps[6], Request::Release { from: 1 }),
    ensures
        n.holds(),
        n.plan == m.plan,
        n.answers == m.answers,
        n.at == 3002 + 7 * k + 7,
        n.used == m.used + 4,
        crate::stage::asks(
            m.plan,
            m.answers,
            stress_operations_dedups_start(k),
            stress_operations_dedups_without_asks(k),
        ),
{
    crate::stage::lemma_full(m);
    crate::stage::lemma_asks_none(m, stress_operations_dedups_start(k));
    let list0 = Seq::<Ask>::empty();
    let words1 = crate::stage::column(10000, |i: int| i % 100);
    let word1 = modulo(ix(), num(100));
    assert forall|i: int| 0 <= i < words1.len() implies crate::stage::meaning(
        word1,
        m.contents,
        i,
    ) as u64 == #[trigger] words1[i] by {
        reveal_with_fuel(crate::stage::meaning, 3);
    }
    let m1 = crate::stage::lemma_filled(m, steps[0], 2, num(10000), word1, words1);
    let words2 = crate::stage::column(10000, |i: int| i);
    let word2 = ix();
    assert forall|i: int| 0 <= i < words2.len() implies crate::stage::meaning(
        word2,
        m1.contents,
        i,
    ) as u64 == #[trigger] words2[i] by {
        reveal_with_fuel(crate::stage::meaning, 1);
    }
    let m2 = crate::stage::lemma_filled(m1, steps[1], 3, num(10000), word2, words2);
    let table1 = Thing::Table {
        layout: Layout::KeyVal,
        scalar: Scalar::U32,
        columns: seq![words1, words2],
        turn: stress_operations_dedups_start(k),
    };
    let m3 = crate::stage::lemma_create(m2, steps[2], 1, Layout::KeyVal, Scalar::U32, 2, table1);
    crate::stage::lemma_asks_more(m, stress_operations_dedups_start(k), list0, Ask::Make(table1));
    let list1 = list0.push(Ask::Make(table1));
    let unique1 = Thing::Unique {
        of: Box::new(table1),
        turn: stress_operations_dedups_start(k) + 1,
    };
    let m4 = crate::stage::lemma_dedup(m3, steps[3], 1, 2, table1, unique1);
    crate::stage::lemma_asks_more(m, stress_operations_dedups_start(k), list1, Ask::Make(unique1));
    let list2 = list1.push(Ask::Make(unique1));
    let m5 = crate::stage::lemma_count(m4, steps[4], 2, unique1);
    crate::stage::lemma_asks_more(m, stress_operations_dedups_start(k), list2, Ask::Rows(unique1));
    let list3 = list2.push(Ask::Rows(unique1));
    assert(
        crate::stage::meaning(
            same_as(modulo(num(k as u64), num(20)), num(0)),
            m5.contents,
            0,
        ) == 0
    ) by {
        reveal_with_fuel(crate::stage::meaning, 6);
    }
    crate::stage::lemma_guard(m5, steps[5], same_as(modulo(num(k as u64), num(20)), num(0)), false);
    let m6 = crate::stage::lemma_skipped(m5, steps[5]);
    let m7 = crate::stage::lemma_release(m6, steps[6], 1);
    crate::stage::lemma_asks_more(
        m,
        stress_operations_dedups_start(k),
        list3,
        Ask::Other(Request::Release { from: 1 }),
    );
    let list4 = list3.push(Ask::Other(Request::Release { from: 1 }));
    assert(stress_operations_dedups_without_asks(k) == list4);
    m7
}

/// The steps of the part `dedups` of `test_stress_operations`.
proof fn lemma_stress_operations_dedups_steps(k: int)
    ensures
        ({
            let steps = crate::categories::c21_hardware::stress_operations_dedups_round(k as u64);
            &&& steps.len() == 7
            &&& crate::stage::fills(steps[0], 2, num(10000), modulo(ix(), num(100)))
            &&& crate::stage::fills(steps[1], 3, num(10000), ix())
            &&& crate::stage::demands(
                steps[2],
                Request::Create { into: 1, layout: Layout::KeyVal, scalar: Scalar::U32, from: 2 },
            )
            &&& crate::stage::demands(steps[3], Request::Dedup { of: 1, into: 2 })
            &&& crate::stage::counts(steps[4], 2)
            &&& crate::stage::guards(steps[5], same_as(modulo(num(k as u64), num(20)), num(0)))
            &&& crate::walk::straight(steps[5])
            &&& crate::stage::demands(crate::stage::bare(steps[5]), Request::Sync)
            &&& crate::stage::inquires(steps[6], Request::Release { from: 1 })
        }),
{
}

/// Round `k` of the part `dedups` of `test_stress_operations` asks what it should.
proof fn lemma_stress_operations_dedups_round(m: Moment, k: int) -> (n: Moment)
    requires
        0 <= k < 100,
        m.holds(),
        m.at == 3002 + 7 * k,
        m.used == stress_operations_dedups_start(k),
        m.at + 7 <= m.plan.steps.len(),
        forall|j: int|
            0 <= j < 7 ==> m.plan.steps[3002 + 7 * k + j] == #[trigger] crate::categories::c21_hardware::stress_operations_dedups_round(
                k as u64,
            )[j],
    ensures
        n.holds(),
        n.plan == m.plan,
        n.answers == m.answers,
        n.at == 3002 + 7 * (k + 1),
        n.used == stress_operations_dedups_start(k + 1),
        (k % 20) == 0 ==> crate::stage::asks(
            m.plan,
            m.answers,
            stress_operations_dedups_start(k),
            stress_operations_dedups_with_asks(k),
        ),
        !((k % 20) == 0) ==> crate::stage::asks(
            m.plan,
            m.answers,
            stress_operations_dedups_start(k),
            stress_operations_dedups_without_asks(k),
        ),
{
    let steps = crate::categories::c21_hardware::stress_operations_dedups_round(k as u64);
    lemma_stress_operations_dedups_steps(k);
    reveal_with_fuel(stress_operations_dedups_start, 2);
    if (k % 20) == 0 {
        lemma_stress_operations_dedups_with(m, steps, k)
    } else {
        lemma_stress_operations_dedups_without(m, steps, k)
    }
}

/// The first `k` rounds of the part `dedups` of `test_stress_operations` ask what they should.
proof fn lemma_stress_operations_dedups_rounds(m: Moment, part: Seq<Step>, k: int) -> (n: Moment)
    requires
        0 <= k <= 100,
        m.holds(),
        m.at == 3002,
        m.used == stress_operations_dedups_start(0),
        m.at + 700 <= m.plan.steps.len(),
        part == crate::script::rounds(
            100,
            |k: int| crate::categories::c21_hardware::stress_operations_dedups_round(k as u64),
        ),
        forall|j: int| 0 <= j < 700 ==> m.plan.steps[3002 + j] == #[trigger] part[j],
    ensures
        n.holds(),
        n.plan == m.plan,
        n.answers == m.answers,
        n.at == 3002 + 7 * k,
        n.used == stress_operations_dedups_start(k),
        forall|j: int|
            0 <= j < k && (j % 20) == 0 ==> crate::stage::asks(
                m.plan,
                m.answers,
                stress_operations_dedups_start(j),
                #[trigger] stress_operations_dedups_with_asks(j),
            ),
        forall|j: int|
            0 <= j < k && !((j % 20) == 0) ==> crate::stage::asks(
                m.plan,
                m.answers,
                stress_operations_dedups_start(j),
                #[trigger] stress_operations_dedups_without_asks(j),
            ),
    decreases k,
{
    if k == 0 {
        m
    } else {
        let round = |k: int| crate::categories::c21_hardware::stress_operations_dedups_round(
            k as u64,
        );
        let before = lemma_stress_operations_dedups_rounds(m, part, k - 1);
        assert forall|j: int| 0 <= j < 7 implies m.plan.steps[before.at + j] == #[trigger] crate::categories::c21_hardware::stress_operations_dedups_round(
            (k - 1) as u64,
        )[j] by {
            assert forall|k: int| 0 <= k < 100 implies (#[trigger] round(k)).len() == 7 by {
                lemma_stress_operations_dedups_steps(k);
            }
            crate::stage::lemma_round_place(100, round, 7, k - 1, j);
            assert(part[(k - 1) * 7 + j] == round(k - 1)[j]);
        }
        lemma_stress_operations_dedups_round(before, k - 1)
    }
}

/// What the device is asked in the part `end` of `test_stress_operations`.
pub open spec fn stress_operations_end_asks() -> Seq<Ask> {
    seq![Ask::Other(Request::Sync)]
}

/// The part `end` of `test_stress_operations` asks what it should.
proof fn lemma_stress_operations_end(m: Moment, steps: Seq<Step>) -> (n: Moment)
    requires
        m.holds(),
        m.at == 3702,
        m.used == stress_operations_dedups_start(100) + 0,
        3702 + 1 <= m.plan.steps.len(),
        forall|j: int| 0 <= j < 1 ==> m.plan.steps[3702 + j] == #[trigger] steps[j],
        crate::stage::demands(steps[0], Request::Sync),
    ensures
        n.holds(),
        n.plan == m.plan,
        n.answers == m.answers,
        n.at == 3702 + 1,
        n.used == m.used + 1,
        crate::stage::asks(
            m.plan,
            m.answers,
            stress_operations_dedups_start(100) + 0,
            stress_operations_end_asks(),
        ),
{
    crate::stage::lemma_full(m);
    crate::stage::lemma_asks_none(m, stress_operations_dedups_start(100) + 0);
    let list0 = Seq::<Ask>::empty();
    let m1 = crate::stage::lemma_sync(m, steps[0]);
    crate::stage::lemma_asks_more(
        m,
        stress_operations_dedups_start(100) + 0,
        list0,
        Ask::Other(Request::Sync),
    );
    let list1 = list0.push(Ask::Other(Request::Sync));
    assert(stress_operations_end_asks() == list1);
    m1
}

/// The steps of the part `end` of `test_stress_operations`.
proof fn lemma_stress_operations_end_steps()
    ensures
        ({
            let steps = crate::categories::c21_hardware::stress_operations_end_steps();
            &&& steps.len() == 1
            &&& crate::stage::demands(steps[0], Request::Sync)
        }),
{
}

/// In a run of `test_stress_operations` that passes the device is asked this, in this order, and
/// nothing else: each request about what an earlier one made is about that, and about what was
/// uploaded for it.
pub proof fn law_stress_operations_asks_about_what_it_made(answers: Seq<Answer>)
    requires
        crate::stage::passes(
            crate::script::plan(
                "test_stress_operations",
                crate::categories::c21_hardware::stress_operations_steps(),
            ),
            answers,
        ),
    ensures
        forall|k: int|
            0 <= k < 200 && (k % 20) == 0 ==> crate::stage::asks(
                crate::script::plan(
                    "test_stress_operations",
                    crate::categories::c21_hardware::stress_operations_steps(),
                ),
                answers,
                stress_operations_sorts_start(k),
                #[trigger] stress_operations_sorts_with_asks(k),
            ),
        forall|k: int|
            0 <= k < 200 && !((k % 20) == 0) ==> crate::stage::asks(
                crate::script::plan(
                    "test_stress_operations",
                    crate::categories::c21_hardware::stress_operations_steps(),
                ),
                answers,
                stress_operations_sorts_start(k),
                #[trigger] stress_operations_sorts_without_asks(k),
            ),
        crate::stage::asks(
            crate::script::plan(
                "test_stress_operations",
                crate::categories::c21_hardware::stress_operations_steps(),
            ),
            answers,
            stress_operations_sorts_start(200) + 0,
            stress_operations_filter_source_asks(),
        ),
        forall|k: int|
            0 <= k < 200 && (k % 20) == 0 ==> crate::stage::asks(
                crate::script::plan(
                    "test_stress_operations",
                    crate::categories::c21_hardware::stress_operations_steps(),
                ),
                answers,
                stress_operations_filters_start(k),
                #[trigger] stress_operations_filters_with_asks(k),
            ),
        forall|k: int|
            0 <= k < 200 && !((k % 20) == 0) ==> crate::stage::asks(
                crate::script::plan(
                    "test_stress_operations",
                    crate::categories::c21_hardware::stress_operations_steps(),
                ),
                answers,
                stress_operations_filters_start(k),
                #[trigger] stress_operations_filters_without_asks(k),
            ),
        forall|k: int|
            0 <= k < 100 && (k % 20) == 0 ==> crate::stage::asks(
                crate::script::plan(
                    "test_stress_operations",
                    crate::categories::c21_hardware::stress_operations_steps(),
                ),
                answers,
                stress_operations_dedups_start(k),
                #[trigger] stress_operations_dedups_with_asks(k),
            ),
        forall|k: int|
            0 <= k < 100 && !((k % 20) == 0) ==> crate::stage::asks(
                crate::script::plan(
                    "test_stress_operations",
                    crate::categories::c21_hardware::stress_operations_steps(),
                ),
                answers,
                stress_operations_dedups_start(k),
                #[trigger] stress_operations_dedups_without_asks(k),
            ),
        crate::stage::asks(
            crate::script::plan(
                "test_stress_operations",
                crate::categories::c21_hardware::stress_operations_steps(),
            ),
            answers,
            stress_operations_dedups_start(100) + 0,
            stress_operations_end_asks(),
        ),
        crate::stage::asked(
            crate::script::plan(
                "test_stress_operations",
                crate::categories::c21_hardware::stress_operations_steps(),
            ),
            answers,
            stress_operations_dedups_start(100) + 1,
        ) is None,
{
    let plan = crate::script::plan(
        "test_stress_operations",
        crate::categories::c21_hardware::stress_operations_steps(),
    );
    let round1 = |k: int| crate::categories::c21_hardware::stress_operations_sorts_round(k as u64);
    let part1 = crate::script::rounds(200, round1);
    assert forall|k: int| 0 <= k < 200 implies (#[trigger] round1(k)).len() == 7 by {
        lemma_stress_operations_sorts_steps(k);
    }
    crate::stage::lemma_rounds_length(200, round1, 7);
    let part2 = crate::categories::c21_hardware::stress_operations_filter_source_steps();
    lemma_stress_operations_filter_source_steps();
    let round3 = |k: int| crate::categories::c21_hardware::stress_operations_filters_round(
        k as u64,
    );
    let part3 = crate::script::rounds(200, round3);
    assert forall|k: int| 0 <= k < 200 implies (#[trigger] round3(k)).len() == 8 by {
        lemma_stress_operations_filters_steps(k);
    }
    crate::stage::lemma_rounds_length(200, round3, 8);
    let round4 = |k: int| crate::categories::c21_hardware::stress_operations_dedups_round(k as u64);
    let part4 = crate::script::rounds(100, round4);
    assert forall|k: int| 0 <= k < 100 implies (#[trigger] round4(k)).len() == 7 by {
        lemma_stress_operations_dedups_steps(k);
    }
    crate::stage::lemma_rounds_length(100, round4, 7);
    let part5 = crate::categories::c21_hardware::stress_operations_end_steps();
    lemma_stress_operations_end_steps();
    let whole1 = part1;
    let whole2 = whole1 + part2;
    let whole3 = whole2 + part3;
    let whole4 = whole3 + part4;
    let whole5 = whole4 + part5;
    assert(plan.steps == whole5);
    let m0 = crate::stage::lemma_start(plan, answers);
    assert forall|j: int| 0 <= j < 1400 implies plan.steps[0 + j] == #[trigger] part1[j] by {}
    let m1 = lemma_stress_operations_sorts_rounds(m0, part1, 200);
    assert forall|j: int| 0 <= j < 2 implies plan.steps[1400 + j] == #[trigger] part2[j] by {}
    let m2 = lemma_stress_operations_filter_source(m1, part2);
    assert forall|j: int| 0 <= j < 1600 implies plan.steps[1402 + j] == #[trigger] part3[j] by {}
    let m3 = lemma_stress_operations_filters_rounds(m2, part3, 200);
    assert forall|j: int| 0 <= j < 700 implies plan.steps[3002 + j] == #[trigger] part4[j] by {}
    let m4 = lemma_stress_operations_dedups_rounds(m3, part4, 100);
    assert forall|j: int| 0 <= j < 1 implies plan.steps[3702 + j] == #[trigger] part5[j] by {}
    let m5 = lemma_stress_operations_end(m4, part5);
    crate::stage::lemma_end(m5);
}

} // verus!
