//! What these tests ask the device in runs that pass: `test_large_batch_operations`.

use vstd::prelude::*;
use crate::expr::{here, ix, len, lt, modulo, not, num, over, plus, same_as, times};
use crate::machine::Answer;
use crate::scalar::Scalar;
use crate::script::{Layout, Request, Step};
use crate::stage::{Ask, Moment, Thing};

verus! {

/// The turn in which round `k` of the part `sorts` of `test_large_batch_operations` starts.
pub open spec fn large_batch_operations_sorts_start(k: int) -> int
    decreases k,
{
    if k <= 0 {
        0
    } else {
        large_batch_operations_sorts_start(k - 1) + if ((k - 1) % 10) == 0 { 4int } else { 3int }
    }
}

/// A column that is filled in the part `filter_source` of `test_large_batch_operations`.
pub open spec fn large_batch_operations_filter_source_words1() -> Seq<u64> {
    crate::stage::column(5000, |i: int| i)
}

/// A buffer that is uploaded in the part `filter_source` of `test_large_batch_operations`.
pub open spec fn large_batch_operations_filter_source_table1() -> Thing {
    Thing::Table {
        layout: Layout::Val,
        scalar: Scalar::U32,
        columns: seq![large_batch_operations_filter_source_words1()],
        turn: large_batch_operations_sorts_start(100) + 1,
    }
}

/// What the device is asked in round `k` of the part `sorts` of `test_large_batch_operations`.
pub open spec fn large_batch_operations_sorts_with_asks(k: int) -> Seq<Ask> {
    let words1 = crate::stage::column(5000, |i: int| ((i * (k + 1)) * 7) % 100000);
    let table1 = Thing::Table {
        layout: Layout::Val,
        scalar: Scalar::U32,
        columns: seq![words1],
        turn: large_batch_operations_sorts_start(k),
    };
    let sorted1 = Thing::Sorted {
        of: Box::new(table1),
        keys: 1,
        turn: large_batch_operations_sorts_start(k) + 1,
    };
    seq![
        Ask::Make(table1),
        Ask::Make(sorted1),
        Ask::Words { of: sorted1, column: 0, scalar: Scalar::U32 },
        Ask::Other(Request::Release { from: 0 }),
    ]
}

/// Round `k` of the part `sorts` of `test_large_batch_operations` asks what it should.
proof fn lemma_large_batch_operations_sorts_with(m: Moment, steps: Seq<Step>, k: int) -> (n: Moment)
    requires
        0 <= k < 100,
        (k % 10) == 0,
        m.holds(),
        m.at == 0 + 6 * k,
        m.used == large_batch_operations_sorts_start(k),
        0 + 6 * k + 6 <= m.plan.steps.len(),
        forall|j: int| 0 <= j < 6 ==> m.plan.steps[0 + 6 * k + j] == #[trigger] steps[j],
        crate::stage::fills(
            steps[0],
            0,
            num(5000),
            modulo(times(times(ix(), plus(num(k as u64), num(1))), num(7)), num(100000)),
        ),
        crate::stage::demands(
            steps[1],
            Request::Create { into: 0, layout: Layout::Val, scalar: Scalar::U32, from: 0 },
        ),
        crate::stage::demands(steps[2], Request::Sort { of: 0, keys: 1, into: 1 }),
        crate::stage::guards(steps[3], same_as(modulo(num(k as u64), num(10)), num(0))),
        crate::walk::straight(steps[3]),
        crate::stage::demands(
            crate::stage::bare(steps[3]),
            Request::Download { of: 1, column: 0, scalar: Scalar::U32, into: 1 },
        ),
        crate::stage::guards(steps[4], same_as(modulo(num(k as u64), num(10)), num(0))),
        crate::walk::straight(steps[4]),
        crate::stage::looks(crate::stage::bare(steps[4])),
        crate::stage::inquires(steps[5], Request::Release { from: 0 }),
    ensures
        n.holds(),
        n.plan == m.plan,
        n.answers == m.answers,
        n.at == 0 + 6 * k + 6,
        n.used == m.used + 4,
        crate::stage::asks(
            m.plan,
            m.answers,
            large_batch_operations_sorts_start(k),
            large_batch_operations_sorts_with_asks(k),
        ),
{
    crate::stage::lemma_full(m);
    crate::stage::lemma_asks_none(m, large_batch_operations_sorts_start(k));
    let list0 = Seq::<Ask>::empty();
    let words1 = crate::stage::column(5000, |i: int| ((i * (k + 1)) * 7) % 100000);
    let word1 = modulo(times(times(ix(), plus(num(k as u64), num(1))), num(7)), num(100000));
    assert forall|i: int| 0 <= i < words1.len() implies crate::stage::meaning(
        word1,
        m.contents,
        i,
    ) as u64 == #[trigger] words1[i] by {
        reveal_with_fuel(crate::stage::meaning, 6);
    }
    let m1 = crate::stage::lemma_filled(m, steps[0], 0, num(5000), word1, words1);
    let table1 = Thing::Table {
        layout: Layout::Val,
        scalar: Scalar::U32,
        columns: seq![words1],
        turn: large_batch_operations_sorts_start(k),
    };
    let m2 = crate::stage::lemma_create(m1, steps[1], 0, Layout::Val, Scalar::U32, 0, table1);
    crate::stage::lemma_asks_more(
        m,
        large_batch_operations_sorts_start(k),
        list0,
        Ask::Make(table1),
    );
    let list1 = list0.push(Ask::Make(table1));
    let sorted1 = Thing::Sorted {
        of: Box::new(table1),
        keys: 1,
        turn: large_batch_operations_sorts_start(k) + 1,
    };
    let m3 = crate::stage::lemma_sort(m2, steps[2], 0, 1, 1, table1, sorted1);
    crate::stage::lemma_asks_more(
        m,
        large_batch_operations_sorts_start(k),
        list1,
        Ask::Make(sorted1),
    );
    let list2 = list1.push(Ask::Make(sorted1));
    assert(
        crate::stage::meaning(
            same_as(modulo(num(k as u64), num(10)), num(0)),
            m3.contents,
            0,
        ) != 0
    ) by {
        reveal_with_fuel(crate::stage::meaning, 6);
    }
    crate::stage::lemma_guard(m3, steps[3], same_as(modulo(num(k as u64), num(10)), num(0)), true);
    let m4 = crate::stage::lemma_download(m3, steps[3], 1, 0, Scalar::U32, 1, sorted1);
    crate::stage::lemma_asks_more(
        m,
        large_batch_operations_sorts_start(k),
        list2,
        Ask::Words { of: sorted1, column: 0, scalar: Scalar::U32 },
    );
    let list3 = list2.push(Ask::Words { of: sorted1, column: 0, scalar: Scalar::U32 });
    assert(
        crate::stage::meaning(
            same_as(modulo(num(k as u64), num(10)), num(0)),
            m4.contents,
            0,
        ) != 0
    ) by {
        reveal_with_fuel(crate::stage::meaning, 6);
    }
    crate::stage::lemma_guard(m4, steps[4], same_as(modulo(num(k as u64), num(10)), num(0)), true);
    let m5 = crate::stage::lemma_look(m4, steps[4]);
    let m6 = crate::stage::lemma_release(m5, steps[5], 0);
    crate::stage::lemma_asks_more(
        m,
        large_batch_operations_sorts_start(k),
        list3,
        Ask::Other(Request::Release { from: 0 }),
    );
    let list4 = list3.push(Ask::Other(Request::Release { from: 0 }));
    assert(large_batch_operations_sorts_with_asks(k) == list4);
    m6
}

/// What the device is asked in round `k` of the part `sorts` of `test_large_batch_operations`.
pub open spec fn large_batch_operations_sorts_without_asks(k: int) -> Seq<Ask> {
    let words1 = crate::stage::column(5000, |i: int| ((i * (k + 1)) * 7) % 100000);
    let table1 = Thing::Table {
        layout: Layout::Val,
        scalar: Scalar::U32,
        columns: seq![words1],
        turn: large_batch_operations_sorts_start(k),
    };
    let sorted1 = Thing::Sorted {
        of: Box::new(table1),
        keys: 1,
        turn: large_batch_operations_sorts_start(k) + 1,
    };
    seq![Ask::Make(table1), Ask::Make(sorted1), Ask::Other(Request::Release { from: 0 })]
}

/// Round `k` of the part `sorts` of `test_large_batch_operations` asks what it should.
proof fn lemma_large_batch_operations_sorts_without(
    m: Moment,
    steps: Seq<Step>,
    k: int,
) -> (n: Moment)
    requires
        0 <= k < 100,
        !((k % 10) == 0),
        m.holds(),
        m.at == 0 + 6 * k,
        m.used == large_batch_operations_sorts_start(k),
        0 + 6 * k + 6 <= m.plan.steps.len(),
        forall|j: int| 0 <= j < 6 ==> m.plan.steps[0 + 6 * k + j] == #[trigger] steps[j],
        crate::stage::fills(
            steps[0],
            0,
            num(5000),
            modulo(times(times(ix(), plus(num(k as u64), num(1))), num(7)), num(100000)),
        ),
        crate::stage::demands(
            steps[1],
            Request::Create { into: 0, layout: Layout::Val, scalar: Scalar::U32, from: 0 },
        ),
        crate::stage::demands(steps[2], Request::Sort { of: 0, keys: 1, into: 1 }),
        crate::stage::guards(steps[3], same_as(modulo(num(k as u64), num(10)), num(0))),
        crate::walk::straight(steps[3]),
        crate::stage::guards(steps[4], same_as(modulo(num(k as u64), num(10)), num(0))),
        crate::walk::straight(steps[4]),
        crate::stage::inquires(steps[5], Request::Release { from: 0 }),
    ensures
        n.holds(),
        n.plan == m.plan,
        n.answers == m.answers,
        n.at == 0 + 6 * k + 6,
        n.used == m.used + 3,
        crate::stage::asks(
            m.plan,
            m.answers,
            large_batch_operations_sorts_start(k),
            large_batch_operations_sorts_without_asks(k),
        ),
{
    crate::stage::lemma_full(m);
    crate::stage::lemma_asks_none(m, large_batch_operations_sorts_start(k));
    let list0 = Seq::<Ask>::empty();
    let words1 = crate::stage::column(5000, |i: int| ((i * (k + 1)) * 7) % 100000);
    let word1 = modulo(times(times(ix(), plus(num(k as u64), num(1))), num(7)), num(100000));
    assert forall|i: int| 0 <= i < words1.len() implies crate::stage::meaning(
        word1,
        m.contents,
        i,
    ) as u64 == #[trigger] words1[i] by {
        reveal_with_fuel(crate::stage::meaning, 6);
    }
    let m1 = crate::stage::lemma_filled(m, steps[0], 0, num(5000), word1, words1);
    let table1 = Thing::Table {
        layout: Layout::Val,
        scalar: Scalar::U32,
        columns: seq![words1],
        turn: large_batch_operations_sorts_start(k),
    };
    let m2 = crate::stage::lemma_create(m1, steps[1], 0, Layout::Val, Scalar::U32, 0, table1);
    crate::stage::lemma_asks_more(
        m,
        large_batch_operations_sorts_start(k),
        list0,
        Ask::Make(table1),
    );
    let list1 = list0.push(Ask::Make(table1));
    let sorted1 = Thing::Sorted {
        of: Box::new(table1),
        keys: 1,
        turn: large_batch_operations_sorts_start(k) + 1,
    };
    let m3 = crate::stage::lemma_sort(m2, steps[2], 0, 1, 1, table1, sorted1);
    crate::stage::lemma_asks_more(
        m,
        large_batch_operations_sorts_start(k),
        list1,
        Ask::Make(sorted1),
    );
    let list2 = list1.push(Ask::Make(sorted1));
    assert(
        crate::stage::meaning(
            same_as(modulo(num(k as u64), num(10)), num(0)),
            m3.contents,
            0,
        ) == 0
    ) by {
        reveal_with_fuel(crate::stage::meaning, 6);
    }
    crate::stage::lemma_guard(m3, steps[3], same_as(modulo(num(k as u64), num(10)), num(0)), false);
    let m4 = crate::stage::lemma_skipped(m3, steps[3]);
    assert(
        crate::stage::meaning(
            same_as(modulo(num(k as u64), num(10)), num(0)),
            m4.contents,
            0,
        ) == 0
    ) by {
        reveal_with_fuel(crate::stage::meaning, 6);
    }
    crate::stage::lemma_guard(m4, steps[4], same_as(modulo(num(k as u64), num(10)), num(0)), false);
    let m5 = crate::stage::lemma_skipped(m4, steps[4]);
    let m6 = crate::stage::lemma_release(m5, steps[5], 0);
    crate::stage::lemma_asks_more(
        m,
        large_batch_operations_sorts_start(k),
        list2,
        Ask::Other(Request::Release { from: 0 }),
    );
    let list3 = list2.push(Ask::Other(Request::Release { from: 0 }));
    assert(large_batch_operations_sorts_without_asks(k) == list3);
    m6
}

/// The steps of the part `sorts` of `test_large_batch_operations`.
proof fn lemma_large_batch_operations_sorts_steps(k: int)
    ensures
        ({
            let steps = crate::categories::c16_async_pipeline::large_batch_operations_sorts_round(
                k as u64,
            );
            &&& steps.len() == 6
            &&& crate::stage::fills(
                steps[0],
                0,
                num(5000),
                modulo(times(times(ix(), plus(num(k as u64), num(1))), num(7)), num(100000)),
            )
            &&& crate::stage::demands(
                steps[1],
                Request::Create { into: 0, layout: Layout::Val, scalar: Scalar::U32, from: 0 },
            )
            &&& crate::stage::demands(steps[2], Request::Sort { of: 0, keys: 1, into: 1 })
            &&& crate::stage::guards(steps[3], same_as(modulo(num(k as u64), num(10)), num(0)))
            &&& crate::walk::straight(steps[3])
            &&& crate::stage::demands(
                crate::stage::bare(steps[3]),
                Request::Download { of: 1, column: 0, scalar: Scalar::U32, into: 1 },
            )
            &&& crate::stage::guards(steps[4], same_as(modulo(num(k as u64), num(10)), num(0)))
            &&& crate::walk::straight(steps[4])
            &&& crate::stage::looks(crate::stage::bare(steps[4]))
            &&& crate::stage::inquires(steps[5], Request::Release { from: 0 })
        }),
{
}

/// Round `k` of the part `sorts` of `test_large_batch_operations` asks what it should.
proof fn lemma_large_batch_operations_sorts_round(m: Moment, k: int) -> (n: Moment)
    requires
        0 <= k < 100,
        m.holds(),
        m.at == 0 + 6 * k,
        m.used == large_batch_operations_sorts_start(k),
        m.at + 6 <= m.plan.steps.len(),
        forall|j: int|
            0 <= j < 6 ==> m.plan.steps[0 + 6 * k + j] == #[trigger] crate::categories::c16_async_pipeline::large_batch_operations_sorts_round(
                k as u64,
            )[j],
    ensures
        n.holds(),
        n.plan == m.plan,
        n.answers == m.answers,
        n.at == 0 + 6 * (k + 1),
        n.used == large_batch_operations_sorts_start(k + 1),
        (k % 10) == 0 ==> crate::stage::asks(
            m.plan,
            m.answers,
            large_batch_operations_sorts_start(k),
            large_batch_operations_sorts_with_asks(k),
        ),
        !((k % 10) == 0) ==> crate::stage::asks(
            m.plan,
            m.answers,
            large_batch_operations_sorts_start(k),
            large_batch_operations_sorts_without_asks(k),
        ),
{
    let steps = crate::categories::c16_async_pipeline::large_batch_operations_sorts_round(k as u64);
    lemma_large_batch_operations_sorts_steps(k);
    reveal_with_fuel(large_batch_operations_sorts_start, 2);
    if (k % 10) == 0 {
        lemma_large_batch_operations_sorts_with(m, steps, k)
    } else {
        lemma_large_batch_operations_sorts_without(m, steps, k)
    }
}

/// The first `k` rounds of the part `sorts` of `test_large_batch_operations` ask what they should.
proof fn lemma_large_batch_operations_sorts_rounds(
    m: Moment,
    part: Seq<Step>,
    k: int,
) -> (n: Moment)
    requires
        0 <= k <= 100,
        m.holds(),
        m.at == 0,
        m.used == large_batch_operations_sorts_start(0),
        m.at + 600 <= m.plan.steps.len(),
        part == crate::script::rounds(
            100,
            |k: int| crate::categories::c16_async_pipeline::large_batch_operations_sorts_round(
                k as u64,
            ),
        ),
        forall|j: int| 0 <= j < 600 ==> m.plan.steps[0 + j] == #[trigger] part[j],
    ensures
        n.holds(),
        n.plan == m.plan,
        n.answers == m.answers,
        n.at == 0 + 6 * k,
        n.used == large_batch_operations_sorts_start(k),
        forall|j: int|
            0 <= j < k && (j % 10) == 0 ==> crate::stage::asks(
                m.plan,
                m.answers,
                large_batch_operations_sorts_start(j),
                #[trigger] large_batch_operations_sorts_with_asks(j),
            ),
        forall|j: int|
            0 <= j < k && !((j % 10) == 0) ==> crate::stage::asks(
                m.plan,
                m.answers,
                large_batch_operations_sorts_start(j),
                #[trigger] large_batch_operations_sorts_without_asks(j),
            ),
    decreases k,
{
    if k == 0 {
        m
    } else {
        let round = |k: int| crate::categories::c16_async_pipeline::large_batch_operations_sorts_round(
            k as u64,
        );
        let before = lemma_large_batch_operations_sorts_rounds(m, part, k - 1);
        assert forall|j: int| 0 <= j < 6 implies m.plan.steps[before.at + j] == #[trigger] crate::categories::c16_async_pipeline::large_batch_operations_sorts_round(
            (k - 1) as u64,
        )[j] by {
            assert forall|k: int| 0 <= k < 100 implies (#[trigger] round(k)).len() == 6 by {
                lemma_large_batch_operations_sorts_steps(k);
            }
            crate::stage::lemma_round_place(100, round, 6, k - 1, j);
            assert(part[(k - 1) * 6 + j] == round(k - 1)[j]);
        }
        lemma_large_batch_operations_sorts_round(before, k - 1)
    }
}

/// What the device is asked in the part `filter_source` of `test_large_batch_operations`.
pub open spec fn large_batch_operations_filter_source_asks() -> Seq<Ask> {
    seq![Ask::Other(Request::Sync), Ask::Make(large_batch_operations_filter_source_table1())]
}

/// The part `filter_source` of `test_large_batch_operations` asks what it should.
proof fn lemma_large_batch_operations_filter_source(m: Moment, steps: Seq<Step>) -> (n: Moment)
    requires
        m.holds(),
        m.at == 600,
        m.used == large_batch_operations_sorts_start(100) + 0,
        600 + 3 <= m.plan.steps.len(),
        forall|j: int| 0 <= j < 3 ==> m.plan.steps[600 + j] == #[trigger] steps[j],
        crate::stage::demands(steps[0], Request::Sync),
        crate::stage::fills(steps[1], 0, num(5000), ix()),
        crate::stage::demands(
            steps[2],
            Request::Create { into: 0, layout: Layout::Val, scalar: Scalar::U32, from: 0 },
        ),
    ensures
        n.holds(),
        n.plan == m.plan,
        n.answers == m.answers,
        n.at == 600 + 3,
        n.used == m.used + 2,
        n.contents.columns[0] == large_batch_operations_filter_source_words1(),
        n.scene.buffer(0) == large_batch_operations_filter_source_table1(),
        crate::stage::asks(
            m.plan,
            m.answers,
            large_batch_operations_sorts_start(100) + 0,
            large_batch_operations_filter_source_asks(),
        ),
{
    crate::stage::lemma_full(m);
    crate::stage::lemma_asks_none(m, large_batch_operations_sorts_start(100) + 0);
    let list0 = Seq::<Ask>::empty();
    let m1 = crate::stage::lemma_sync(m, steps[0]);
    crate::stage::lemma_asks_more(
        m,
        large_batch_operations_sorts_start(100) + 0,
        list0,
        Ask::Other(Request::Sync),
    );
    let list1 = list0.push(Ask::Other(Request::Sync));
    let words1 = large_batch_operations_filter_source_words1();
    let word2 = ix();
    assert forall|i: int| 0 <= i < words1.len() implies crate::stage::meaning(
        word2,
        m1.contents,
        i,
    ) as u64 == #[trigger] words1[i] by {
        reveal_with_fuel(crate::stage::meaning, 1);
    }
    let m2 = crate::stage::lemma_filled(m1, steps[1], 0, num(5000), word2, words1);
    let m3 = crate::stage::lemma_create(
        m2,
        steps[2],
        0,
        Layout::Val,
        Scalar::U32,
        0,
        large_batch_operations_filter_source_table1(),
    );
    crate::stage::lemma_asks_more(
        m,
        large_batch_operations_sorts_start(100) + 0,
        list1,
        Ask::Make(large_batch_operations_filter_source_table1()),
    );
    let list2 = list1.push(Ask::Make(large_batch_operations_filter_source_table1()));
    assert(large_batch_operations_filter_source_asks() == list2);
    m3
}

/// The steps of the part `filter_source` of `test_large_batch_operations`.
proof fn lemma_large_batch_operations_filter_source_steps()
    ensures
        ({
            let steps = crate::categories::c16_async_pipeline::large_batch_operations_filter_source_steps();
            &&& steps.len() == 3
            &&& crate::stage::demands(steps[0], Request::Sync)
            &&& crate::stage::fills(steps[1], 0, num(5000), ix())
            &&& crate::stage::demands(
                steps[2],
                Request::Create { into: 0, layout: Layout::Val, scalar: Scalar::U32, from: 0 },
            )
        }),
{
}

/// What the device is asked in round `k` of the part `filters` of `test_large_batch_operations`.
pub open spec fn large_batch_operations_filters_asks(k: int) -> Seq<Ask> {
    let words1 = crate::stage::column(
        (large_batch_operations_filter_source_words1().len() as int),
        |i: int| crate::stage::flag(
            !((large_batch_operations_filter_source_words1()[i] as int) < ((k * 5000) / 100)),
        ),
    );
    let kept1 = Thing::Kept {
        of: Box::new(large_batch_operations_filter_source_table1()),
        mask: words1,
        turn: large_batch_operations_sorts_start(100) + 2 + 3 * k,
    };
    seq![Ask::Make(kept1), Ask::Rows(kept1), Ask::Other(Request::Release { from: 1 })]
}

/// Round `k` of the part `filters` of `test_large_batch_operations` asks what it should.
proof fn lemma_large_batch_operations_filters(m: Moment, steps: Seq<Step>, k: int) -> (n: Moment)
    requires
        0 <= k < 100,
        m.holds(),
        m.at == 603 + 4 * k,
        m.used == large_batch_operations_sorts_start(100) + 2 + 3 * k,
        603 + 4 * k + 4 <= m.plan.steps.len(),
        forall|j: int| 0 <= j < 4 ==> m.plan.steps[603 + 4 * k + j] == #[trigger] steps[j],
        crate::stage::fills(
            steps[0],
            1,
            len(0),
            not(lt(here(0), over(times(num(k as u64), num(5000)), num(100)))),
        ),
        crate::stage::demands(steps[1], Request::Filter { of: 0, mask: 1, into: 1 }),
        crate::stage::counts(steps[2], 1),
        crate::stage::inquires(steps[3], Request::Release { from: 1 }),
        m.contents.columns[0] == large_batch_operations_filter_source_words1(),
        m.scene.buffer(0) == large_batch_operations_filter_source_table1(),
    ensures
        n.holds(),
        n.plan == m.plan,
        n.answers == m.answers,
        n.at == 603 + 4 * k + 4,
        n.used == m.used + 3,
        n.contents.columns[0] == large_batch_operations_filter_source_words1(),
        n.scene.buffer(0) == large_batch_operations_filter_source_table1(),
        crate::stage::asks(
            m.plan,
            m.answers,
            large_batch_operations_sorts_start(100) + 2 + 3 * k,
            large_batch_operations_filters_asks(k),
        ),
{
    crate::stage::lemma_full(m);
    crate::stage::lemma_asks_none(m, large_batch_operations_sorts_start(100) + 2 + 3 * k);
    let list0 = Seq::<Ask>::empty();
    let words1 = crate::stage::column(
        (large_batch_operations_filter_source_words1().len() as int),
        |i: int| crate::stage::flag(
            !((large_batch_operations_filter_source_words1()[i] as int) < ((k * 5000) / 100)),
        ),
    );
    let word1 = not(lt(here(0), over(times(num(k as u64), num(5000)), num(100))));
    assert forall|i: int| 0 <= i < words1.len() implies crate::stage::meaning(
        word1,
        m.contents,
        i,
    ) as u64 == #[trigger] words1[i] by {
        reveal_with_fuel(crate::stage::meaning, 6);
    }
    let m1 = crate::stage::lemma_filled(m, steps[0], 1, len(0), word1, words1);
    let kept1 = Thing::Kept {
        of: Box::new(large_batch_operations_filter_source_table1()),
        mask: words1,
        turn: large_batch_operations_sorts_start(100) + 2 + 3 * k,
    };
    let m2 = crate::stage::lemma_filter(
        m1,
        steps[1],
        0,
        1,
        1,
        large_batch_operations_filter_source_table1(),
        words1,
        kept1,
    );
    crate::stage::lemma_asks_more(
        m,
        large_batch_operations_sorts_start(100) + 2 + 3 * k,
        list0,
        Ask::Make(kept1),
    );
    let list1 = list0.push(Ask::Make(kept1));
    let m3 = crate::stage::lemma_count(m2, steps[2], 1, kept1);
    crate::stage::lemma_asks_more(
        m,
        large_batch_operations_sorts_start(100) + 2 + 3 * k,
        list1,
        Ask::Rows(kept1),
    );
    let list2 = list1.push(Ask::Rows(kept1));
    let m4 = crate::stage::lemma_release(m3, steps[3], 1);
    crate::stage::lemma_asks_more(
        m,
        large_batch_operations_sorts_start(100) + 2 + 3 * k,
        list2,
        Ask::Other(Request::Release { from: 1 }),
    );
    let list3 = list2.push(Ask::Other(Request::Release { from: 1 }));
    assert(large_batch_operations_filters_asks(k) == list3);
    m4
}

/// The steps of the part `filters` of `test_large_batch_operations`.
proof fn lemma_large_batch_operations_filters_steps(k: int)
    ensures
        ({
            let steps = crate::categories::c16_async_pipeline::large_batch_operations_filters_round(
                k as u64,
            );
            &&& steps.len() == 4
            &&& crate::stage::fills(
                steps[0],
                1,
                len(0),
                not(lt(here(0), over(times(num(k as u64), num(5000)), num(100)))),
            )
            &&& crate::stage::demands(steps[1], Request::Filter { of: 0, mask: 1, into: 1 })
            &&& crate::stage::counts(steps[2], 1)
            &&& crate::stage::inquires(steps[3], Request::Release { from: 1 })
        }),
{
}

/// The first `k` rounds of the part `filters` of `test_large_batch_operations` ask what they
/// should.
proof fn lemma_large_batch_operations_filters_rounds(
    m: Moment,
    part: Seq<Step>,
    k: int,
) -> (n: Moment)
    requires
        0 <= k <= 100,
        m.holds(),
        m.at == 603,
        m.used == large_batch_operations_sorts_start(100) + 2 + 3 * 0,
        m.at + 400 <= m.plan.steps.len(),
        part == crate::script::rounds(
            100,
            |k: int| crate::categories::c16_async_pipeline::large_batch_operations_filters_round(
                k as u64,
            ),
        ),
        forall|j: int| 0 <= j < 400 ==> m.plan.steps[603 + j] == #[trigger] part[j],
        m.contents.columns[0] == large_batch_operations_filter_source_words1(),
        m.scene.buffer(0) == large_batch_operations_filter_source_table1(),
    ensures
        n.holds(),
        n.plan == m.plan,
        n.answers == m.answers,
        n.at == 603 + 4 * k,
        n.used == large_batch_operations_sorts_start(100) + 2 + 3 * k,
        n.contents.columns[0] == large_batch_operations_filter_source_words1(),
        n.scene.buffer(0) == large_batch_operations_filter_source_table1(),
        forall|j: int|
            0 <= j < k ==> crate::stage::asks(
                m.plan,
                m.answers,
                large_batch_operations_sorts_start(100) + 2 + 3 * j,
                #[trigger] large_batch_operations_filters_asks(j),
            ),
    decreases k,
{
    if k == 0 {
        m
    } else {
        let round = |k: int| crate::categories::c16_async_pipeline::large_batch_operations_filters_round(
            k as u64,
        );
        let before = lemma_large_batch_operations_filters_rounds(m, part, k - 1);
        assert forall|j: int| 0 <= j < 4 implies m.plan.steps[before.at + j] == #[trigger] crate::categories::c16_async_pipeline::large_batch_operations_filters_round(
            (k - 1) as u64,
        )[j] by {
            assert forall|k: int| 0 <= k < 100 implies (#[trigger] round(k)).len() == 4 by {
                lemma_large_batch_operations_filters_steps(k);
            }
            crate::stage::lemma_round_place(100, round, 4, k - 1, j);
            assert(part[(k - 1) * 4 + j] == round(k - 1)[j]);
        }
        lemma_large_batch_operations_filters_steps(k - 1);
        lemma_large_batch_operations_filters(
            before,
            crate::categories::c16_async_pipeline::large_batch_operations_filters_round(
                (k - 1) as u64,
            ),
            k - 1,
        )
    }
}

/// What the device is asked in the part `after_filters` of `test_large_batch_operations`.
pub open spec fn large_batch_operations_after_filters_asks() -> Seq<Ask> {
    seq![Ask::Other(Request::Sync)]
}

/// The part `after_filters` of `test_large_batch_operations` asks what it should.
proof fn lemma_large_batch_operations_after_filters(m: Moment, steps: Seq<Step>) -> (n: Moment)
    requires
        m.holds(),
        m.at == 1003,
        m.used == large_batch_operations_sorts_start(100) + 302,
        1003 + 1 <= m.plan.steps.len(),
        forall|j: int| 0 <= j < 1 ==> m.plan.steps[1003 + j] == #[trigger] steps[j],
        crate::stage::demands(steps[0], Request::Sync),
    ensures
        n.holds(),
        n.plan == m.plan,
        n.answers == m.answers,
        n.at == 1003 + 1,
        n.used == m.used + 1,
        crate::stage::asks(
            m.plan,
            m.answers,
            large_batch_operations_sorts_start(100) + 302,
            large_batch_operations_after_filters_asks(),
        ),
{
    crate::stage::lemma_full(m);
    crate::stage::lemma_asks_none(m, large_batch_operations_sorts_start(100) + 302);
    let list0 = Seq::<Ask>::empty();
    let m1 = crate::stage::lemma_sync(m, steps[0]);
    crate::stage::lemma_asks_more(
        m,
        large_batch_operations_sorts_start(100) + 302,
        list0,
        Ask::Other(Request::Sync),
    );
    let list1 = list0.push(Ask::Other(Request::Sync));
    assert(large_batch_operations_after_filters_asks() == list1);
    m1
}

/// The steps of the part `after_filters` of `test_large_batch_operations`.
proof fn lemma_large_batch_operations_after_filters_steps()
    ensures
        ({
            let steps = crate::categories::c16_async_pipeline::large_batch_operations_after_filters_steps();
            &&& steps.len() == 1
            &&& crate::stage::demands(steps[0], Request::Sync)
        }),
{
}

/// What the device is asked in round `k` of the part `dedups` of `test_large_batch_operations`.
pub open spec fn large_batch_operations_dedups_asks(k: int) -> Seq<Ask> {
    let words1 = crate::stage::column(5000, |i: int| i % (100 + (k * 10)));
    let words2 = crate::stage::column(5000, |i: int| i);
    let table1 = Thing::Table {
        layout: Layout::KeyVal,
        scalar: Scalar::U32,
        columns: seq![words1, words2],
        turn: large_batch_operations_sorts_start(100) + 303 + 4 * k,
    };
    let unique1 = Thing::Unique {
        of: Box::new(table1),
        turn: large_batch_operations_sorts_start(100) + 304 + 4 * k,
    };
    seq![
        Ask::Make(table1),
        Ask::Make(unique1),
        Ask::Rows(unique1),
        Ask::Other(Request::Release { from: 1 }),
    ]
}

/// Round `k` of the part `dedups` of `test_large_batch_operations` asks what it should.
proof fn lemma_large_batch_operations_dedups(m: Moment, steps: Seq<Step>, k: int) -> (n: Moment)
    requires
        0 <= k < 50,
        m.holds(),
        m.at == 1004 + 6 * k,
        m.used == large_batch_operations_sorts_start(100) + 303 + 4 * k,
        1004 + 6 * k + 6 <= m.plan.steps.len(),
        forall|j: int| 0 <= j < 6 ==> m.plan.steps[1004 + 6 * k + j] == #[trigger] steps[j],
        crate::stage::fills(
            steps[0],
            1,
            num(5000),
            modulo(ix(), plus(num(100), times(num(k as u64), num(10)))),
        ),
        crate::stage::fills(steps[1], 2, num(5000), ix()),
        crate::stage::demands(
            steps[2],
            Request::Create { into: 1, layout: Layout::KeyVal, scalar: Scalar::U32, from: 1 },
        ),
        crate::stage::demands(steps[3], Request::Dedup { of: 1, into: 2 }),
        crate::stage::counts(steps[4], 2),
        crate::stage::inquires(steps[5], Request::Release { from: 1 }),
    ensures
        n.holds(),
        n.plan == m.plan,
        n.answers == m.answers,
        n.at == 1004 + 6 * k + 6,
        n.used == m.used + 4,
        crate::stage::asks(
            m.plan,
            m.answers,
            large_batch_operations_sorts_start(100) + 303 + 4 * k,
            large_batch_operations_dedups_asks(k),
        ),
{
    crate::stage::lemma_full(m);
    crate::stage::lemma_asks_none(m, large_batch_operations_sorts_start(100) + 303 + 4 * k);
    let list0 = Seq::<Ask>::empty();
    let words1 = crate::stage::column(5000, |i: int| i % (100 + (k * 10)));
    let word1 = modulo(ix(), plus(num(100), times(num(k as u64), num(10))));
    assert forall|i: int| 0 <= i < words1.len() implies crate::stage::meaning(
        word1,
        m.contents,
        i,
    ) as u64 == #[trigger] words1[i] by {
        reveal_with_fuel(crate::stage::meaning, 5);
    }
    let m1 = crate::stage::lemma_filled(m, steps[0], 1, num(5000), word1, words1);
    let words2 = crate::stage::column(5000, |i: int| i);
    let word2 = ix();
    assert forall|i: int| 0 <= i < words2.len() implies crate::stage::meaning(
        word2,
        m1.contents,
        i,
    ) as u64 == #[trigger] words2[i] by {
        reveal_with_fuel(crate::stage::meaning, 1);
    }
    let m2 = crate::stage::lemma_filled(m1, steps[1], 2, num(5000), word2, words2);
    let table1 = Thing::Table {
        layout: Layout::KeyVal,
        scalar: Scalar::U32,
        columns: seq![words1, words2],
        turn: large_batch_operations_sorts_start(100) + 303 + 4 * k,
    };
    let m3 = crate::stage::lemma_create(m2, steps[2], 1, Layout::KeyVal, Scalar::U32, 1, table1);
    crate::stage::lemma_asks_more(
        m,
        large_batch_operations_sorts_start(100) + 303 + 4 * k,
        list0,
        Ask::Make(table1),
    );
    let list1 = list0.push(Ask::Make(table1));
    let unique1 = Thing::Unique {
        of: Box::new(table1),
        turn: large_batch_operations_sorts_start(100) + 304 + 4 * k,
    };
    let m4 = crate::stage::lemma_dedup(m3, steps[3], 1, 2, table1, unique1);
    crate::stage::lemma_asks_more(
        m,
        large_batch_operations_sorts_start(100) + 303 + 4 * k,
        list1,
        Ask::Make(unique1),
    );
    let list2 = list1.push(Ask::Make(unique1));
    let m5 = crate::stage::lemma_count(m4, steps[4], 2, unique1);
    crate::stage::lemma_asks_more(
        m,
        large_batch_operations_sorts_start(100) + 303 + 4 * k,
        list2,
        Ask::Rows(unique1),
    );
    let list3 = list2.push(Ask::Rows(unique1));
    let m6 = crate::stage::lemma_release(m5, steps[5], 1);
    crate::stage::lemma_asks_more(
        m,
        large_batch_operations_sorts_start(100) + 303 + 4 * k,
        list3,
        Ask::Other(Request::Release { from: 1 }),
    );
    let list4 = list3.push(Ask::Other(Request::Release { from: 1 }));
    assert(large_batch_operations_dedups_asks(k) == list4);
    m6
}

/// The steps of the part `dedups` of `test_large_batch_operations`.
proof fn lemma_large_batch_operations_dedups_steps(k: int)
    ensures
        ({
            let steps = crate::categories::c16_async_pipeline::large_batch_operations_dedups_round(
                k as u64,
            );
            &&& steps.len() == 6
            &&& crate::stage::fills(
                steps[0],
                1,
                num(5000),
                modulo(ix(), plus(num(100), times(num(k as u64), num(10)))),
            )
            &&& crate::stage::fills(steps[1], 2, num(5000), ix())
            &&& crate::stage::demands(
                steps[2],
                Request::Create { into: 1, layout: Layout::KeyVal, scalar: Scalar::U32, from: 1 },
            )
            &&& crate::stage::demands(steps[3], Request::Dedup { of: 1, into: 2 })
            &&& crate::stage::counts(steps[4], 2)
            &&& crate::stage::inquires(steps[5], Request::Release { from: 1 })
        }),
{
}

/// The first `k` rounds of the part `dedups` of `test_large_batch_operations` ask what they should.
proof fn lemma_large_batch_operations_dedups_rounds(
    m: Moment,
    part: Seq<Step>,
    k: int,
) -> (n: Moment)
    requires
        0 <= k <= 50,
        m.holds(),
        m.at == 1004,
        m.used == large_batch_operations_sorts_start(100) + 303 + 4 * 0,
        m.at + 300 <= m.plan.steps.len(),
        part == crate::script::rounds(
            50,
            |k: int| crate::categories::c16_async_pipeline::large_batch_operations_dedups_round(
                k as u64,
            ),
        ),
        forall|j: int| 0 <= j < 300 ==> m.plan.steps[1004 + j] == #[trigger] part[j],
    ensures
        n.holds(),
        n.plan == m.plan,
        n.answers == m.answers,
        n.at == 1004 + 6 * k,
        n.used == large_batch_operations_sorts_start(100) + 303 + 4 * k,
        forall|j: int|
            0 <= j < k ==> crate::stage::asks(
                m.plan,
                m.answers,
                large_batch_operations_sorts_start(100) + 303 + 4 * j,
                #[trigger] large_batch_operations_dedups_asks(j),
            ),
    decreases k,
{
    if k == 0 {
        m
    } else {
        let round = |k: int| crate::categories::c16_async_pipeline::large_batch_operations_dedups_round(
            k as u64,
        );
        let before = lemma_large_batch_operations_dedups_rounds(m, part, k - 1);
        assert forall|j: int| 0 <= j < 6 implies m.plan.steps[before.at + j] == #[trigger] crate::categories::c16_async_pipeline::large_batch_operations_dedups_round(
            (k - 1) as u64,
        )[j] by {
            assert forall|k: int| 0 <= k < 50 implies (#[trigger] round(k)).len() == 6 by {
                lemma_large_batch_operations_dedups_steps(k);
            }
            crate::stage::lemma_round_place(50, round, 6, k - 1, j);
            assert(part[(k - 1) * 6 + j] == round(k - 1)[j]);
        }
        lemma_large_batch_operations_dedups_steps(k - 1);
        lemma_large_batch_operations_dedups(
            before,
            crate::categories::c16_async_pipeline::large_batch_operations_dedups_round(
                (k - 1) as u64,
            ),
            k - 1,
        )
    }
}

/// What the device is asked in the part `after_dedups` of `test_large_batch_operations`.
pub open spec fn large_batch_operations_after_dedups_asks() -> Seq<Ask> {
    seq![Ask::Other(Request::Sync)]
}

/// The part `after_dedups` of `test_large_batch_operations` asks what it should.
proof fn lemma_large_batch_operations_after_dedups(m: Moment, steps: Seq<Step>) -> (n: Moment)
    requires
        m.holds(),
        m.at == 1304,
        m.used == large_batch_operations_sorts_start(100) + 503,
        1304 + 1 <= m.plan.steps.len(),
        forall|j: int| 0 <= j < 1 ==> m.plan.steps[1304 + j] == #[trigger] steps[j],
        crate::stage::demands(steps[0], Request::Sync),
    ensures
        n.holds(),
        n.plan == m.plan,
        n.answers == m.answers,
        n.at == 1304 + 1,
        n.used == m.used + 1,
        crate::stage::asks(
            m.plan,
            m.answers,
            large_batch_operations_sorts_start(100) + 503,
            large_batch_operations_after_dedups_asks(),
        ),
{
    crate::stage::lemma_full(m);
    crate::stage::lemma_asks_none(m, large_batch_operations_sorts_start(100) + 503);
    let list0 = Seq::<Ask>::empty();
    let m1 = crate::stage::lemma_sync(m, steps[0]);
    crate::stage::lemma_asks_more(
        m,
        large_batch_operations_sorts_start(100) + 503,
        list0,
        Ask::Other(Request::Sync),
    );
    let list1 = list0.push(Ask::Other(Request::Sync));
    assert(large_batch_operations_after_dedups_asks() == list1);
    m1
}

/// The steps of the part `after_dedups` of `test_large_batch_operations`.
proof fn lemma_large_batch_operations_after_dedups_steps()
    ensures
        ({
            let steps = crate::categories::c16_async_pipeline::large_batch_operations_after_dedups_steps();
            &&& steps.len() == 1
            &&& crate::stage::demands(steps[0], Request::Sync)
        }),
{
}

/// What the device is asked in piece 1 of round `k` of the part `joins` of
/// `test_large_batch_operations`.
pub open spec fn large_batch_operations_joins_1_asks(k: int) -> Seq<Ask> {
    let words1 = crate::stage::column(500, |i: int| i);
    let words2 = crate::stage::column(500, |i: int| (words1[i] as int) + (k * 1000));
    let words3 = crate::stage::column(300, |i: int| i * 2);
    let words4 = crate::stage::column(300, |i: int| (words3[i] as int) * 10);
    let table1 = Thing::Table {
        layout: Layout::KeyLval,
        scalar: Scalar::U32,
        columns: seq![words1, words2],
        turn: large_batch_operations_sorts_start(100) + 504 + 5 * k,
    };
    let table2 = Thing::Table {
        layout: Layout::KeyRval,
        scalar: Scalar::U32,
        columns: seq![words3, words4],
        turn: large_batch_operations_sorts_start(100) + 505 + 5 * k,
    };
    let joined1 = Thing::Joined {
        left: Box::new(table1),
        right: Box::new(table2),
        turn: large_batch_operations_sorts_start(100) + 506 + 5 * k,
    };
    seq![Ask::Make(table1), Ask::Make(table2), Ask::Make(joined1), Ask::Rows(joined1)]
}

/// Piece 1 of round `k` of the part `joins` of `test_large_batch_operations` asks what it should.
proof fn lemma_large_batch_operations_joins_1(m: Moment, steps: Seq<Step>, k: int) -> (n: Moment)
    requires
        0 <= k < 25,
        m.holds(),
        m.at == 1305 + 9 * k,
        m.used == large_batch_operations_sorts_start(100) + 504 + 5 * k,
        1305 + 9 * k + 9 <= m.plan.steps.len(),
        forall|j: int| 0 <= j < 9 ==> m.plan.steps[1305 + 9 * k + j] == #[trigger] steps[j],
        crate::stage::fills(steps[0], 1, num(500), ix()),
        crate::stage::fills(steps[1], 2, num(500), plus(here(1), times(num(k as u64), num(1000)))),
        crate::stage::fills(steps[2], 3, num(300), times(ix(), num(2))),
        crate::stage::fills(steps[3], 4, num(300), times(here(3), num(10))),
        crate::stage::demands(
            steps[4],
            Request::Create { into: 1, layout: Layout::KeyLval, scalar: Scalar::U32, from: 1 },
        ),
        crate::stage::demands(
            steps[5],
            Request::Create { into: 2, layout: Layout::KeyRval, scalar: Scalar::U32, from: 3 },
        ),
        crate::stage::demands(steps[6], Request::Join { left: 1, right: 2, into: 3 }),
        crate::stage::counts(steps[7], 3),
    ensures
        n.holds(),
        n.plan == m.plan,
        n.answers == m.answers,
        n.at == 1305 + 9 * k + 8,
        n.used == m.used + 4,
        crate::stage::asks(
            m.plan,
            m.answers,
            large_batch_operations_sorts_start(100) + 504 + 5 * k,
            large_batch_operations_joins_1_asks(k),
        ),
{
    crate::stage::lemma_full(m);
    crate::stage::lemma_asks_none(m, large_batch_operations_sorts_start(100) + 504 + 5 * k);
    let list0 = Seq::<Ask>::empty();
    let words1 = crate::stage::column(500, |i: int| i);
    let word1 = ix();
    assert forall|i: int| 0 <= i < words1.len() implies crate::stage::meaning(
        word1,
        m.contents,
        i,
    ) as u64 == #[trigger] words1[i] by {
        reveal_with_fuel(crate::stage::meaning, 1);
    }
    let m1 = crate::stage::lemma_filled(m, steps[0], 1, num(500), word1, words1);
    let words2 = crate::stage::column(500, |i: int| (words1[i] as int) + (k * 1000));
    let word2 = plus(here(1), times(num(k as u64), num(1000)));
    assert forall|i: int| 0 <= i < words2.len() implies crate::stage::meaning(
        word2,
        m1.contents,
        i,
    ) as u64 == #[trigger] words2[i] by {
        reveal_with_fuel(crate::stage::meaning, 4);
    }
    let m2 = crate::stage::lemma_filled(m1, steps[1], 2, num(500), word2, words2);
    let words3 = crate::stage::column(300, |i: int| i * 2);
    let word3 = times(ix(), num(2));
    assert forall|i: int| 0 <= i < words3.len() implies crate::stage::meaning(
        word3,
        m2.contents,
        i,
    ) as u64 == #[trigger] words3[i] by {
        reveal_with_fuel(crate::stage::meaning, 3);
    }
    let m3 = crate::stage::lemma_filled(m2, steps[2], 3, num(300), word3, words3);
    let words4 = crate::stage::column(300, |i: int| (words3[i] as int) * 10);
    let word4 = times(here(3), num(10));
    assert forall|i: int| 0 <= i < words4.len() implies crate::stage::meaning(
        word4,
        m3.contents,
        i,
    ) as u64 == #[trigger] words4[i] by {
        reveal_with_fuel(crate::stage::meaning, 4);
    }
    let m4 = crate::stage::lemma_filled(m3, steps[3], 4, num(300), word4, words4);
    let table1 = Thing::Table {
        layout: Layout::KeyLval,
        scalar: Scalar::U32,
        columns: seq![words1, words2],
        turn: large_batch_operations_sorts_start(100) + 504 + 5 * k,
    };
    let m5 = crate::stage::lemma_create(m4, steps[4], 1, Layout::KeyLval, Scalar::U32, 1, table1);
    crate::stage::lemma_asks_more(
        m,
        large_batch_operations_sorts_start(100) + 504 + 5 * k,
        list0,
        Ask::Make(table1),
    );
    let list1 = list0.push(Ask::Make(table1));
    let table2 = Thing::Table {
        layout: Layout::KeyRval,
        scalar: Scalar::U32,
        columns: seq![words3, words4],
        turn: large_batch_operations_sorts_start(100) + 505 + 5 * k,
    };
    let m6 = crate::stage::lemma_create(m5, steps[5], 2, Layout::KeyRval, Scalar::U32, 3, table2);
    crate::stage::lemma_asks_more(
        m,
        large_batch_operations_sorts_start(100) + 504 + 5 * k,
        list1,
        Ask::Make(table2),
    );
    let list2 = list1.push(Ask::Make(table2));
    let joined1 = Thing::Joined {
        left: Box::new(table1),
        right: Box::new(table2),
        turn: large_batch_operations_sorts_start(100) + 506 + 5 * k,
    };
    let m7 = crate::stage::lemma_join(m6, steps[6], 1, 2, 3, table1, table2, joined1);
    crate::stage::lemma_asks_more(
        m,
        large_batch_operations_sorts_start(100) + 504 + 5 * k,
        list2,
        Ask::Make(joined1),
    );
    let list3 = list2.push(Ask::Make(joined1));
    let m8 = crate::stage::lemma_count(m7, steps[7], 3, joined1);
    crate::stage::lemma_asks_more(
        m,
        large_batch_operations_sorts_start(100) + 504 + 5 * k,
        list3,
        Ask::Rows(joined1),
    );
    let list4 = list3.push(Ask::Rows(joined1));
    assert(large_batch_operations_joins_1_asks(k) == list4);
    m8
}

/// What the device is asked in piece 2 of round `k` of the part `joins` of
/// `test_large_batch_operations`.
pub open spec fn large_batch_operations_joins_2_asks(k: int) -> Seq<Ask> {
    seq![Ask::Other(Request::Release { from: 1 })]
}

/// Piece 2 of round `k` of the part `joins` of `test_large_batch_operations` asks what it should.
proof fn lemma_large_batch_operations_joins_2(m: Moment, steps: Seq<Step>, k: int) -> (n: Moment)
    requires
        0 <= k < 25,
        m.holds(),
        m.at == 1305 + 9 * k + 8,
        m.used == large_batch_operations_sorts_start(100) + 508 + 5 * k,
        1305 + 9 * k + 9 <= m.plan.steps.len(),
        forall|j: int| 0 <= j < 9 ==> m.plan.steps[1305 + 9 * k + j] == #[trigger] steps[j],
        crate::stage::inquires(steps[8], Request::Release { from: 1 }),
    ensures
        n.holds(),
        n.plan == m.plan,
        n.answers == m.answers,
        n.at == 1305 + 9 * k + 9,
        n.used == m.used + 1,
        crate::stage::asks(
            m.plan,
            m.answers,
            large_batch_operations_sorts_start(100) + 508 + 5 * k,
            large_batch_operations_joins_2_asks(k),
        ),
{
    crate::stage::lemma_full(m);
    crate::stage::lemma_asks_none(m, large_batch_operations_sorts_start(100) + 508 + 5 * k);
    let list0 = Seq::<Ask>::empty();
    let m1 = crate::stage::lemma_release(m, steps[8], 1);
    crate::stage::lemma_asks_more(
        m,
        large_batch_operations_sorts_start(100) + 508 + 5 * k,
        list0,
        Ask::Other(Request::Release { from: 1 }),
    );
    let list1 = list0.push(Ask::Other(Request::Release { from: 1 }));
    assert(large_batch_operations_joins_2_asks(k) == list1);
    m1
}

/// The steps of the part `joins` of `test_large_batch_operations`.
proof fn lemma_large_batch_operations_joins_steps(k: int)
    ensures
        ({
            let steps = crate::categories::c16_async_pipeline::large_batch_operations_joins_round(
                k as u64,
            );
            &&& steps.len() == 9
            &&& crate::stage::fills(steps[0], 1, num(500), ix())
            &&& crate::stage::fills(
                steps[1],
                2,
                num(500),
                plus(here(1), times(num(k as u64), num(1000))),
            )
            &&& crate::stage::fills(steps[2], 3, num(300), times(ix(), num(2)))
            &&& crate::stage::fills(steps[3], 4, num(300), times(here(3), num(10)))
            &&& crate::stage::demands(
                steps[4],
                Request::Create { into: 1, layout: Layout::KeyLval, scalar: Scalar::U32, from: 1 },
            )
            &&& crate::stage::demands(
                steps[5],
                Request::Create { into: 2, layout: Layout::KeyRval, scalar: Scalar::U32, from: 3 },
            )
            &&& crate::stage::demands(steps[6], Request::Join { left: 1, right: 2, into: 3 })
            &&& crate::stage::counts(steps[7], 3)
            &&& crate::stage::inquires(steps[8], Request::Release { from: 1 })
        }),
{
}

/// Round `k` of the part `joins` of `test_large_batch_operations` asks what it should.
proof fn lemma_large_batch_operations_joins_round(m: Moment, k: int) -> (n: Moment)
    requires
        0 <= k < 25,
        m.holds(),
        m.at == 1305 + 9 * k,
        m.used == large_batch_operations_sorts_start(100) + 504 + 5 * k,
        m.at + 9 <= m.plan.steps.len(),
        forall|j: int|
            0 <= j < 9 ==> m.plan.steps[1305 + 9 * k + j] == #[trigger] crate::categories::c16_async_pipeline::large_batch_operations_joins_round(
                k as u64,
            )[j],
    ensures
        n.holds(),
        n.plan == m.plan,
        n.answers == m.answers,
        n.at == 1305 + 9 * (k + 1),
        n.used == large_batch_operations_sorts_start(100) + 504 + 5 * (k + 1),
        crate::stage::asks(
            m.plan,
            m.answers,
            large_batch_operations_sorts_start(100) + 504 + 5 * k,
            large_batch_operations_joins_1_asks(k),
        ),
        crate::stage::asks(
            m.plan,
            m.answers,
            large_batch_operations_sorts_start(100) + 508 + 5 * k,
            large_batch_operations_joins_2_asks(k),
        ),
{
    let steps = crate::categories::c16_async_pipeline::large_batch_operations_joins_round(k as u64);
    lemma_large_batch_operations_joins_steps(k);
    let m1 = lemma_large_batch_operations_joins_1(m, steps, k);
    lemma_large_batch_operations_joins_2(m1, steps, k)
}

/// The first `k` rounds of the part `joins` of `test_large_batch_operations` ask what they should.
proof fn lemma_large_batch_operations_joins_rounds(
    m: Moment,
    part: Seq<Step>,
    k: int,
) -> (n: Moment)
    requires
        0 <= k <= 25,
        m.holds(),
        m.at == 1305,
        m.used == large_batch_operations_sorts_start(100) + 504 + 5 * 0,
        m.at + 225 <= m.plan.steps.len(),
        part == crate::script::rounds(
            25,
            |k: int| crate::categories::c16_async_pipeline::large_batch_operations_joins_round(
                k as u64,
            ),
        ),
        forall|j: int| 0 <= j < 225 ==> m.plan.steps[1305 + j] == #[trigger] part[j],
    ensures
        n.holds(),
        n.plan == m.plan,
        n.answers == m.answers,
        n.at == 1305 + 9 * k,
        n.used == large_batch_operations_sorts_start(100) + 504 + 5 * k,
        forall|j: int|
            0 <= j < k ==> crate::stage::asks(
                m.plan,
                m.answers,
                large_batch_operations_sorts_start(100) + 504 + 5 * j,
                #[trigger] large_batch_operations_joins_1_asks(j),
            ),
        forall|j: int|
            0 <= j < k ==> crate::stage::asks(
                m.plan,
                m.answers,
                large_batch_operations_sorts_start(100) + 508 + 5 * j,
                #[trigger] large_batch_operations_joins_2_asks(j),
            ),
    decreases k,
{
    if k == 0 {
        m
    } else {
        let round = |k: int| crate::categories::c16_async_pipeline::large_batch_operations_joins_round(
            k as u64,
        );
        let before = lemma_large_batch_operations_joins_rounds(m, part, k - 1);
        assert forall|j: int| 0 <= j < 9 implies m.plan.steps[before.at + j] == #[trigger] crate::categories::c16_async_pipeline::large_batch_operations_joins_round(
            (k - 1) as u64,
        )[j] by {
            assert forall|k: int| 0 <= k < 25 implies (#[trigger] round(k)).len() == 9 by {
                lemma_large_batch_operations_joins_steps(k);
            }
            crate::stage::lemma_round_place(25, round, 9, k - 1, j);
            assert(part[(k - 1) * 9 + j] == round(k - 1)[j]);
        }
        lemma_large_batch_operations_joins_round(before, k - 1)
    }
}

/// What the device is asked in the part `end` of `test_large_batch_operations`.
pub open spec fn large_batch_operations_end_asks() -> Seq<Ask> {
    seq![Ask::Other(Request::Sync)]
}

/// The part `end` of `test_large_batch_operations` asks what it should.
proof fn lemma_large_batch_operations_end(m: Moment, steps: Seq<Step>) -> (n: Moment)
    requires
        m.holds(),
        m.at == 1530,
        m.used == large_batch_operations_sorts_start(100) + 629,
        1530 + 1 <= m.plan.steps.len(),
        forall|j: int| 0 <= j < 1 ==> m.plan.steps[1530 + j] == #[trigger] steps[j],
        crate::stage::demands(steps[0], Request::Sync),
    ensures
        n.holds(),
        n.plan == m.plan,
        n.answers == m.answers,
        n.at == 1530 + 1,
        n.used == m.used + 1,
        crate::stage::asks(
            m.plan,
            m.answers,
            large_batch_operations_sorts_start(100) + 629,
            large_batch_operations_end_asks(),
        ),
{
    crate::stage::lemma_full(m);
    crate::stage::lemma_asks_none(m, large_batch_operations_sorts_start(100) + 629);
    let list0 = Seq::<Ask>::empty();
    let m1 = crate::stage::lemma_sync(m, steps[0]);
    crate::stage::lemma_asks_more(
        m,
        large_batch_operations_sorts_start(100) + 629,
        list0,
        Ask::Other(Request::Sync),
    );
    let list1 = list0.push(Ask::Other(Request::Sync));
    assert(large_batch_operations_end_asks() == list1);
    m1
}

/// The steps of the part `end` of `test_large_batch_operations`.
proof fn lemma_large_batch_operations_end_steps()
    ensures
        ({
            let steps = crate::categories::c16_async_pipeline::large_batch_operations_end_steps();
            &&& steps.len() == 1
            &&& crate::stage::demands(steps[0], Request::Sync)
        }),
{
}

/// In a run of `test_large_batch_operations` that passes the device is asked this, in this order,
/// and nothing else: each request about what an earlier one made is about that, and about what was
/// uploaded for it.
pub proof fn law_large_batch_operations_asks_about_what_it_made(answers: Seq<Answer>)
    requires
        crate::stage::passes(
            crate::script::plan(
                "test_large_batch_operations",
                crate::categories::c16_async_pipeline::large_batch_operations_steps(),
            ),
            answers,
        ),
    ensures
        forall|k: int|
            0 <= k < 100 && (k % 10) == 0 ==> crate::stage::asks(
                crate::script::plan(
                    "test_large_batch_operations",
                    crate::categories::c16_async_pipeline::large_batch_operations_steps(),
                ),
                answers,
                large_batch_operations_sorts_start(k),
                #[trigger] large_batch_operations_sorts_with_asks(k),
            ),
        forall|k: int|
            0 <= k < 100 && !((k % 10) == 0) ==> crate::stage::asks(
                crate::script::plan(
                    "test_large_batch_operations",
                    crate::categories::c16_async_pipeline::large_batch_operations_steps(),
                ),
                answers,
                large_batch_operations_sorts_start(k),
                #[trigger] large_batch_operations_sorts_without_asks(k),
            ),
        crate::stage::asks(
            crate::script::plan(
                "test_large_batch_operations",
                crate::categories::c16_async_pipeline::large_batch_operations_steps(),
            ),
            answers,
            large_batch_operations_sorts_start(100) + 0,
            large_batch_operations_filter_source_asks(),
        ),
        forall|k: int|
            0 <= k < 100 ==> crate::stage::asks(
                crate::script::plan(
                    "test_large_batch_operations",
                    crate::categories::c16_async_pipeline::large_batch_operations_steps(),
                ),
                answers,
                large_batch_operations_sorts_start(100) + 2 + 3 * k,
                #[trigger] large_batch_operations_filters_asks(k),
            ),
        crate::stage::asks(
            crate::script::plan(
                "test_large_batch_operations",
                crate::categories::c16_async_pipeline::large_batch_operations_steps(),
            ),
            answers,
            large_batch_operations_sorts_start(100) + 302,
            large_batch_operations_after_filters_asks(),
        ),
        forall|k: int|
            0 <= k < 50 ==> crate::stage::asks(
                crate::script::plan(
                    "test_large_batch_operations",
                    crate::categories::c16_async_pipeline::large_batch_operations_steps(),
                ),
                answers,
                large_batch_operations_sorts_start(100) + 303 + 4 * k,
                #[trigger] large_batch_operations_dedups_asks(k),
            ),
        crate::stage::asks(
            crate::script::plan(
                "test_large_batch_operations",
                crate::categories::c16_async_pipeline::large_batch_operations_steps(),
            ),
            answers,
            large_batch_operations_sorts_start(100) + 503,
            large_batch_operations_after_dedups_asks(),
        ),
        forall|k: int|
            0 <= k < 25 ==> crate::stage::asks(
                crate::script::plan(
                    "test_large_batch_operations",
                    crate::categories::c16_async_pipeline::large_batch_operations_steps(),
                ),
                answers,
                large_batch_operations_sorts_start(100) + 504 + 5 * k,
                #[trigger] large_batch_operations_joins_1_asks(k),
            ),
        forall|k: int|
            0 <= k < 25 ==> crate::stage::asks(
                crate::script::plan(
                    "test_large_batch_operations",
                    crate::categories::c16_async_pipeline::large_batch_operations_steps(),
                ),
                answers,
                large_batch_operations_sorts_start(100) + 508 + 5 * k,
                #[trigger] large_batch_operations_joins_2_asks(k),
            ),
        crate::stage::asks(
            crate::script::plan(
                "test_large_batch_operations",
                crate::categories::c16_async_pipeline::large_batch_operations_steps(),
            ),
            answers,
            large_batch_operations_sorts_start(100) + 629,
            large_batch_operations_end_asks(),
        ),
        crate::stage::asked(
            crate::script::plan(
                "test_large_batch_operations",
                crate::categories::c16_async_pipeline::large_batch_operations_steps(),
            ),
            answers,
            large_batch_operations_sorts_start(100) + 630,
        ) is None,
{
    let plan = crate::script::plan(
        "test_large_batch_operations",
        crate::categories::c16_async_pipeline::large_batch_operations_steps(),
    );
    let round1 = |k: int| crate::categories::c16_async_pipeline::large_batch_operations_sorts_round(
        k as u64,
    );
    let part1 = crate::script::rounds(100, round1);
    assert forall|k: int| 0 <= k < 100 implies (#[trigger] round1(k)).len() == 6 by {
        lemma_large_batch_operations_sorts_steps(k);
    }
    crate::stage::lemma_rounds_length(100, round1, 6);
    let part2 = crate::categories::c16_async_pipeline::large_batch_operations_filter_source_steps();
    lemma_large_batch_operations_filter_source_steps();
    let round3 = |k: int| crate::categories::c16_async_pipeline::large_batch_operations_filters_round(
        k as u64,
    );
    let part3 = crate::script::rounds(100, round3);
    assert forall|k: int| 0 <= k < 100 implies (#[trigger] round3(k)).len() == 4 by {
        lemma_large_batch_operations_filters_steps(k);
    }
    crate::stage::lemma_rounds_length(100, round3, 4);
    let part4 = crate::categories::c16_async_pipeline::large_batch_operations_after_filters_steps();
    lemma_large_batch_operations_after_filters_steps();
    let round5 = |k: int| crate::categories::c16_async_pipeline::large_batch_operations_dedups_round(
        k as u64,
    );
    let part5 = crate::script::rounds(50, round5);
    assert forall|k: int| 0 <= k < 50 implies (#[trigger] round5(k)).len() == 6 by {
        lemma_large_batch_operations_dedups_steps(k);
    }
    crate::stage::lemma_rounds_length(50, round5, 6);
    let part6 = crate::categories::c16_async_pipeline::large_batch_operations_after_dedups_steps();
    lemma_large_batch_operations_after_dedups_steps();
    let round7 = |k: int| crate::categories::c16_async_pipeline::large_batch_operations_joins_round(
        k as u64,
    );
    let part7 = crate::script::rounds(25, round7);
    assert forall|k: int| 0 <= k < 25 implies (#[trigger] round7(k)).len() == 9 by {
        lemma_large_batch_operations_joins_steps(k);
    }
    crate::stage::lemma_rounds_length(25, round7, 9);
    let part8 = crate::categories::c16_async_pipeline::large_batch_operations_end_steps();
    lemma_large_batch_operations_end_steps();
    let whole1 = part1;
    let whole2 = whole1 + part2;
    let whole3 = whole2 + part3;
    let whole4 = whole3 + part4;
    let whole5 = whole4 + part5;
    let whole6 = whole5 + part6;
    let whole7 = whole6 + part7;
    let whole8 = whole7 + part8;
    assert(plan.steps == whole8);
    let m0 = crate::stage::lemma_start(plan, answers);
    assert forall|j: int| 0 <= j < 600 implies plan.steps[0 + j] == #[trigger] part1[j] by {}
    let m1 = lemma_large_batch_operations_sorts_rounds(m0, part1, 100);
    assert forall|j: int| 0 <= j < 3 implies plan.steps[600 + j] == #[trigger] part2[j] by {}
    let m2 = lemma_large_batch_operations_filter_source(m1, part2);
    assert forall|j: int| 0 <= j < 400 implies plan.steps[603 + j] == #[trigger] part3[j] by {}
    let m3 = lemma_large_batch_operations_filters_rounds(m2, part3, 100);
    assert forall|j: int| 0 <= j < 1 implies plan.steps[1003 + j] == #[trigger] part4[j] by {}
    let m4 = lemma_large_batch_operations_after_filters(m3, part4);
    assert forall|j: int| 0 <= j < 300 implies plan.steps[1004 + j] == #[trigger] part5[j] by {}
    let m5 = lemma_large_batch_operations_dedups_rounds(m4, part5, 50);
    assert forall|j: int| 0 <= j < 1 implies plan.steps[1304 + j] == #[trigger] part6[j] by {}
    let m6 = lemma_large_batch_operations_after_dedups(m5, part6);
    assert forall|j: int| 0 <= j < 225 implies plan.steps[1305 + j] == #[trigger] part7[j] by {}
    let m7 = lemma_large_batch_operations_joins_rounds(m6, part7, 25);
    assert forall|j: int| 0 <= j < 1 implies plan.steps[1530 + j] == #[trigger] part8[j] by {}
    let m8 = lemma_large_batch_operations_end(m7, part8);
    crate::stage::lemma_end(m8);
}

} // verus!
