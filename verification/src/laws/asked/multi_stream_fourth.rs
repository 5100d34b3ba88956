//! What these tests ask the device in runs that pass: `test_batch_completion`.

use vstd::prelude::*;
use crate::expr::{ix, modulo, num, plus, same_as, times};
use crate::machine::Answer;
use crate::scalar::Scalar;
use crate::script::{after, Layout, Request, Step};
use crate::stage::{Ask, Moment, Thing};

verus! {

/// What is sorted in round `k` of the part `operations` of `test_batch_completion`.
pub open spec fn batch_completion_operations_sorted1(k: int) -> Thing {
    Thing::Sorted {
        of: Box::new(
            Thing::Table {
                layout: Layout::Val,
                scalar: Scalar::U32,
                columns: seq![
                    crate::stage::column(50000, |i: int| ((i * (k + 1)) * 31337) % 1000000),
                ],
                turn: 0 + 3 * k,
            },
        ),
        keys: 1,
        turn: 1 + 3 * k,
    }
}

/// A buffer that is uploaded in the part `base` of `test_batch_completion`.
pub open spec fn batch_completion_base_table1() -> Thing {
    Thing::Table {
        layout: Layout::Val,
        scalar: Scalar::U32,
        columns: seq![crate::stage::column(50000, |i: int| i)],
        turn: 81,
    }
}

/// What the device is asked in round `k` of the part `operations` of `test_batch_completion`.
pub open spec fn batch_completion_operations_asks(k: int) -> Seq<Ask> {
    let words1 = crate::stage::column(50000, |i: int| ((i * (k + 1)) * 31337) % 1000000);
    let table1 = Thing::Table {
        layout: Layout::Val,
        scalar: Scalar::U32,
        columns: seq![words1],
        turn: 0 + 3 * k,
    };
    seq![
        Ask::Make(table1),
        Ask::Make(batch_completion_operations_sorted1(k)),
        Ask::Other(Request::Release { from: 40 }),
    ]
}

/// Round `k` of the part `operations` of `test_batch_completion` asks what it should.
proof fn lemma_batch_completion_operations(m: Moment, steps: Seq<Step>, k: int) -> (n: Moment)
    requires
        0 <= k < 20,
        m.holds(),
        m.at == 0 + 4 * k,
        m.used == 0 + 3 * k,
        0 + 4 * k + 4 <= m.plan.steps.len(),
        forall|j: int| 0 <= j < 4 ==> m.plan.steps[0 + 4 * k + j] == #[trigger] steps[j],
        crate::stage::fills(
            steps[0],
            0,
            num(50000),
            modulo(times(times(ix(), plus(num(k as u64), num(1))), num(31337)), num(1000000)),
        ),
        crate::stage::demands(
            steps[1],
            Request::Create { into: 40, layout: Layout::Val, scalar: Scalar::U32, from: 0 },
        ),
        crate::stage::demands(
            steps[2],
            Request::Sort { of: 40, keys: 1, into: after(10, k as u64) },
        ),
        crate::stage::inquires(steps[3], Request::Release { from: 40 }),
        forall|j: int|
            0 <= j < k ==> m.scene.buffer(
                (10 + j) as u64,
            ) == #[trigger] batch_completion_operations_sorted1(j),
    ensures
        n.holds(),
        n.plan == m.plan,
        n.answers == m.answers,
        n.at == 0 + 4 * k + 4,
        n.used == m.used + 3,
        forall|j: int|
            0 <= j < k + 1 ==> n.scene.buffer(
                (10 + j) as u64,
            ) == #[trigger] batch_completion_operations_sorted1(j),
        crate::stage::asks(m.plan, m.answers, 0 + 3 * k, batch_completion_operations_asks(k)),
{
    crate::stage::lemma_full(m);
    crate::stage::lemma_asks_none(m, 0 + 3 * k);
    let list0 = Seq::<Ask>::empty();
    let words1 = crate::stage::column(50000, |i: int| ((i * (k + 1)) * 31337) % 1000000);
    let word1 = modulo(times(times(ix(), plus(num(k as u64), num(1))), num(31337)), num(1000000));
    assert forall|i: int| 0 <= i < words1.len() implies crate::stage::meaning(
        word1,
        m.contents,
        i,
    ) as u64 == #[trigger] words1[i] by {
        reveal_with_fuel(crate::stage::meaning, 6);
    }
    let m1 = crate::stage::lemma_filled(m, steps[0], 0, num(50000), word1, words1);
    let table1 = Thing::Table {
        layout: Layout::Val,
        scalar: Scalar::U32,
        columns: seq![words1],
        turn: 0 + 3 * k,
    };
    let m2 = crate::stage::lemma_create(m1, steps[1], 40, Layout::Val, Scalar::U32, 0, table1);
    crate::stage::lemma_asks_more(m, 0 + 3 * k, list0, Ask::Make(table1));
    let list1 = list0.push(Ask::Make(table1));
    let m3 = crate::stage::lemma_sort(
        m2,
        steps[2],
        40,
        1,
        after(10, k as u64),
        table1,
        batch_completion_operations_sorted1(k),
    );
    crate::stage::lemma_asks_more(
        m,
        0 + 3 * k,
        list1,
        Ask::Make(batch_completion_operations_sorted1(k)),
    );
    let list2 = list1.push(Ask::Make(batch_completion_operations_sorted1(k)));
    let m4 = crate::stage::lemma_release(m3, steps[3], 40);
    crate::stage::lemma_asks_more(m, 0 + 3 * k, list2, Ask::Other(Request::Release { from: 40 }));
    let list3 = list2.push(Ask::Other(Request::Release { from: 40 }));
    assert(batch_completion_operations_asks(k) == list3);
    m4
}

/// The steps of the part `operations` of `test_batch_completion`.
proof fn lemma_batch_completion_operations_steps(k: int)
    ensures
        ({
            let steps = crate::categories::c19_multi_stream::batch_completion_operations_round(
                k as u64,
            );
            &&& steps.len() == 4
            &&& crate::stage::fills(
                steps[0],
                0,
                num(50000),
                modulo(times(times(ix(), plus(num(k as u64), num(1))), num(31337)), num(1000000)),
            )
            &&& crate::stage::demands(
                steps[1],
                Request::Create { into: 40, layout: Layout::Val, scalar: Scalar::U32, from: 0 },
            )
            &&& crate::stage::demands(
                steps[2],
                Request::Sort { of: 40, keys: 1, into: after(10, k as u64) },
            )
            &&& crate::stage::inquires(steps[3], Request::Release { from: 40 })
        }),
{
}

/// The first `k` rounds of the part `operations` of `test_batch_completion` ask what they should.
proof fn lemma_batch_completion_operations_rounds(m: Moment, part: Seq<Step>, k: int) -> (n: Moment)
    requires
        0 <= k <= 20,
        m.holds(),
        m.at == 0,
        m.used == 0 + 3 * 0,
        m.at + 80 <= m.plan.steps.len(),
        part == crate::script::rounds(
            20,
            |k: int| crate::categories::c19_multi_stream::batch_completion_operations_round(
                k as u64,
            ),
        ),
        forall|j: int| 0 <= j < 80 ==> m.plan.steps[0 + j] == #[trigger] part[j],
    ensures
        n.holds(),
        n.plan == m.plan,
        n.answers == m.answers,
        n.at == 0 + 4 * k,
        n.used == 0 + 3 * k,
        forall|j: int|
            0 <= j < k ==> n.scene.buffer(
                (10 + j) as u64,
            ) == #[trigger] batch_completion_operations_sorted1(j),
        forall|j: int|
            0 <= j < k ==> crate::stage::asks(
                m.plan,
                m.answers,
                0 + 3 * j,
                #[trigger] batch_completion_operations_asks(j),
            ),
    decreases k,
{
    if k == 0 {
        m
    } else {
        let round = |k: int| crate::categories::c19_multi_stream::batch_completion_operations_round(
            k as u64,
        );
        let before = lemma_batch_completion_operations_rounds(m, part, k - 1);
        assert forall|j: int| 0 <= j < 4 implies m.plan.steps[before.at + j] == #[trigger] crate::categories::c19_multi_stream::batch_completion_operations_round(
            (k - 1) as u64,
        )[j] by {
            assert forall|k: int| 0 <= k < 20 implies (#[trigger] round(k)).len() == 4 by {
                lemma_batch_completion_operations_steps(k);
            }
            crate::stage::lemma_round_place(20, round, 4, k - 1, j);
            assert(part[(k - 1) * 4 + j] == round(k - 1)[j]);
        }
        lemma_batch_completion_operations_steps(k - 1);
        lemma_batch_completion_operations(
            before,
            crate::categories::c19_multi_stream::batch_completion_operations_round((k - 1) as u64),
            k - 1,
        )
    }
}

/// What the device is asked in the part `completion` of `test_batch_completion`.
pub open spec fn batch_completion_completion_asks() -> Seq<Ask> {
    seq![Ask::Other(Request::Sync)]
}

/// The part `completion` of `test_batch_completion` asks what it should.
proof fn lemma_batch_completion_completion(m: Moment, steps: Seq<Step>) -> (n: Moment)
    requires
        m.holds(),
        m.at == 80,
        m.used == 60,
        80 + 1 <= m.plan.steps.len(),
        forall|j: int| 0 <= j < 1 ==> m.plan.steps[80 + j] == #[trigger] steps[j],
        crate::stage::demands(steps[0], Request::Sync),
        forall|j: int|
            0 <= j < 20 ==> m.scene.buffer(
                (10 + j) as u64,
            ) == #[trigger] batch_completion_operations_sorted1(j),
    ensures
        n.holds(),
        n.plan == m.plan,
        n.answers == m.answers,
        n.at == 80 + 1,
        n.used == m.used + 1,
        forall|j: int|
            0 <= j < 20 ==> n.scene.buffer(
                (10 + j) as u64,
            ) == #[trigger] batch_completion_operations_sorted1(j),
        crate::stage::asks(m.plan, m.answers, 60, batch_completion_completion_asks()),
{
    crate::stage::lemma_full(m);
    crate::stage::lemma_asks_none(m, 60);
    let list0 = Seq::<Ask>::empty();
    let m1 = crate::stage::lemma_sync(m, steps[0]);
    crate::stage::lemma_asks_more(m, 60, list0, Ask::Other(Request::Sync));
    let list1 = list0.push(Ask::Other(Request::Sync));
    assert(batch_completion_completion_asks() == list1);
    m1
}

/// The steps of the part `completion` of `test_batch_completion`.
proof fn lemma_batch_completion_completion_steps()
    ensures
        ({
            let steps = crate::categories::c19_multi_stream::batch_completion_completion_steps();
            &&& steps.len() == 1
            &&& crate::stage::demands(steps[0], Request::Sync)
        }),
{
}

/// What the device is asked in round `k` of the part `results` of `test_batch_completion`.
pub open spec fn batch_completion_results_asks(k: int) -> Seq<Ask> {
    seq![Ask::Words { of: batch_completion_operations_sorted1(k), column: 0, scalar: Scalar::U32 }]
}

/// Round `k` of the part `results` of `test_batch_completion` asks what it should.
proof fn lemma_batch_completion_results(m: Moment, steps: Seq<Step>, k: int) -> (n: Moment)
    requires
        0 <= k < 20,
        m.holds(),
        m.at == 81 + 5 * k,
        m.used == 61 + 1 * k,
        81 + 5 * k + 5 <= m.plan.steps.len(),
        forall|j: int| 0 <= j < 5 ==> m.plan.steps[81 + 5 * k + j] == #[trigger] steps[j],
        crate::stage::demands(
            steps[0],
            Request::Download { of: after(10, k as u64), column: 0, scalar: Scalar::U32, into: 1 },
        ),
        crate::stage::looks(steps[1]),
        crate::stage::works(steps[2], 0),
        crate::stage::works(steps[3], 2),
        crate::stage::looks(steps[4]),
        forall|j: int|
            0 <= j < 20 ==> m.scene.buffer(
                (10 + j) as u64,
            ) == #[trigger] batch_completion_operations_sorted1(j),
    ensures
        n.holds(),
        n.plan == m.plan,
        n.answers == m.answers,
        n.at == 81 + 5 * k + 5,
        n.used == m.used + 1,
        forall|j: int|
            0 <= j < 20 ==> n.scene.buffer(
                (10 + j) as u64,
            ) == #[trigger] batch_completion_operations_sorted1(j),
        crate::stage::asks(m.plan, m.answers, 61 + 1 * k, batch_completion_results_asks(k)),
{
    crate::stage::lemma_full(m);
    crate::stage::lemma_asks_none(m, 61 + 1 * k);
    let list0 = Seq::<Ask>::empty();
    let m1 = crate::stage::lemma_download(
        m,
        steps[0],
        after(10, k as u64),
        0,
        Scalar::U32,
        1,
        batch_completion_operations_sorted1(k),
    );
    crate::stage::lemma_asks_more(
        m,
        61 + 1 * k,
        list0,
        Ask::Words { of: batch_completion_operations_sorted1(k), column: 0, scalar: Scalar::U32 },
    );
    let list1 = list0.push(
        Ask::Words { of: batch_completion_operations_sorted1(k), column: 0, scalar: Scalar::U32 },
    );
    let m2 = crate::stage::lemma_look(m1, steps[1]);
    let m3 = crate::stage::lemma_work(m2, steps[2], 0);
    let m4 = crate::stage::lemma_work(m3, steps[3], 2);
    let m5 = crate::stage::lemma_look(m4, steps[4]);
    assert(batch_completion_results_asks(k) == list1);
    m5
}

/// The steps of the part `results` of `test_batch_completion`.
proof fn lemma_batch_completion_results_steps(k: int)
    ensures
        ({
            let steps = crate::categories::c19_multi_stream::batch_completion_results_round(
                k as u64,
            );
            &&& steps.len() == 5
            &&& crate::stage::demands(
                steps[0],
                Request::Download {
                    of: after(10, k as u64),
                    column: 0,
                    scalar: Scalar::U32,
                    into: 1,
                },
            )
            &&& crate::stage::looks(steps[1])
            &&& crate::stage::works(steps[2], 0)
            &&& crate::stage::works(steps[3], 2)
            &&& crate::stage::looks(steps[4])
        }),
{
}

/// The first `k` rounds of the part `results` of `test_batch_completion` ask what they should.
proof fn lemma_batch_completion_results_rounds(m: Moment, part: Seq<Step>, k: int) -> (n: Moment)
    requires
        0 <= k <= 20,
        m.holds(),
        m.at == 81,
        m.used == 61 + 1 * 0,
        m.at + 100 <= m.plan.steps.len(),
        part == crate::script::rounds(
            20,
            |k: int| crate::categories::c19_multi_stream::batch_completion_results_round(k as u64),
        ),
        forall|j: int| 0 <= j < 100 ==> m.plan.steps[81 + j] == #[trigger] part[j],
        forall|j: int|
            0 <= j < 20 ==> m.scene.buffer(
                (10 + j) as u64,
            ) == #[trigger] batch_completion_operations_sorted1(j),
    ensures
        n.holds(),
        n.plan == m.plan,
        n.answers == m.answers,
        n.at == 81 + 5 * k,
        n.used == 61 + 1 * k,
        forall|j: int|
            0 <= j < 20 ==> n.scene.buffer(
                (10 + j) as u64,
            ) == #[trigger] batch_completion_operations_sorted1(j),
        forall|j: int|
            0 <= j < k ==> crate::stage::asks(
                m.plan,
                m.answers,
                61 + 1 * j,
                #[trigger] batch_completion_results_asks(j),
            ),
    decreases k,
{
    if k == 0 {
        m
    } else {
        let round = |k: int| crate::categories::c19_multi_stream::batch_completion_results_round(
            k as u64,
        );
        let before = lemma_batch_completion_results_rounds(m, part, k - 1);
        assert forall|j: int| 0 <= j < 5 implies m.plan.steps[before.at + j] == #[trigger] crate::categories::c19_multi_stream::batch_completion_results_round(
            (k - 1) as u64,
        )[j] by {
            assert forall|k: int| 0 <= k < 20 implies (#[trigger] round(k)).len() == 5 by {
                lemma_batch_completion_results_steps(k);
            }
            crate::stage::lemma_round_place(20, round, 5, k - 1, j);
            assert(part[(k - 1) * 5 + j] == round(k - 1)[j]);
        }
        lemma_batch_completion_results_steps(k - 1);
        lemma_batch_completion_results(
            before,
            crate::categories::c19_multi_stream::batch_completion_results_round((k - 1) as u64),
            k - 1,
        )
    }
}

/// What the device is asked in the part `base` of `test_batch_completion`.
pub open spec fn batch_completion_base_asks() -> Seq<Ask> {
    seq![Ask::Make(batch_completion_base_table1())]
}

/// The part `base` of `test_batch_completion` asks what it should.
proof fn lemma_batch_completion_base(m: Moment, steps: Seq<Step>) -> (n: Moment)
    requires
        m.holds(),
        m.at == 181,
        m.used == 81,
        181 + 2 <= m.plan.steps.len(),
        forall|j: int| 0 <= j < 2 ==> m.plan.steps[181 + j] == #[trigger] steps[j],
        crate::stage::fills(steps[0], 0, num(50000), ix()),
        crate::stage::demands(
            steps[1],
            Request::Create { into: 30, layout: Layout::Val, scalar: Scalar::U32, from: 0 },
        ),
    ensures
        n.holds(),
        n.plan == m.plan,
        n.answers == m.answers,
        n.at == 181 + 2,
        n.used == m.used + 1,
        n.scene.buffer(30) == batch_completion_base_table1(),
        crate::stage::asks(m.plan, m.answers, 81, batch_completion_base_asks()),
{
    crate::stage::lemma_full(m);
    crate::stage::lemma_asks_none(m, 81);
    let list0 = Seq::<Ask>::empty();
    let words1 = crate::stage::column(50000, |i: int| i);
    let word1 = ix();
    assert forall|i: int| 0 <= i < words1.len() implies crate::stage::meaning(
        word1,
        m.contents,
        i,
    ) as u64 == #[trigger] words1[i] by {
        reveal_with_fuel(crate::stage::meaning, 1);
    }
    let m1 = crate::stage::lemma_filled(m, steps[0], 0, num(50000), word1, words1);
    let m2 = crate::stage::lemma_create(
        m1,
        steps[1],
        30,
        Layout::Val,
        Scalar::U32,
        0,
        batch_completion_base_table1(),
    );
    crate::stage::lemma_asks_more(m, 81, list0, Ask::Make(batch_completion_base_table1()));
    let list1 = list0.push(Ask::Make(batch_completion_base_table1()));
    assert(batch_completion_base_asks() == list1);
    m2
}

/// The steps of the part `base` of `test_batch_completion`.
proof fn lemma_batch_completion_base_steps()
    ensures
        ({
            let steps = crate::categories::c19_multi_stream::batch_completion_base_steps();
            &&& steps.len() == 2
            &&& crate::stage::fills(steps[0], 0, num(50000), ix())
            &&& crate::stage::demands(
                steps[1],
                Request::Create { into: 30, layout: Layout::Val, scalar: Scalar::U32, from: 0 },
            )
        }),
{
}

/// What the device is asked in round `k` of the part `mixed` of `test_batch_completion`.
pub open spec fn batch_completion_mixed_asks(k: int) -> Seq<Ask> {
    let words1 = crate::stage::column(50000, |i: int| (i * k) % 50000);
    let table1 = Thing::Table {
        layout: Layout::Val,
        scalar: Scalar::U32,
        columns: seq![words1],
        turn: 82 + 6 * k,
    };
    let sorted1 = Thing::Sorted { of: Box::new(table1), keys: 1, turn: 83 + 6 * k };
    let words2 = crate::stage::column(50000, |i: int| crate::stage::flag(((i % (k + 2)) == 0)));
    let kept1 = Thing::Kept {
        of: Box::new(batch_completion_base_table1()),
        mask: words2,
        turn: 85 + 6 * k,
    };
    seq![
        Ask::Make(table1),
        Ask::Make(sorted1),
        Ask::Rows(sorted1),
        Ask::Make(kept1),
        Ask::Rows(kept1),
        Ask::Other(Request::Release { from: 31 }),
    ]
}

/// Round `k` of the part `mixed` of `test_batch_completion` asks what it should.
proof fn lemma_batch_completion_mixed(m: Moment, steps: Seq<Step>, k: int) -> (n: Moment)
    requires
        0 <= k < 5,
        m.holds(),
        m.at == 183 + 8 * k,
        m.used == 82 + 6 * k,
        183 + 8 * k + 8 <= m.plan.steps.len(),
        forall|j: int| 0 <= j < 8 ==> m.plan.steps[183 + 8 * k + j] == #[trigger] steps[j],
        crate::stage::fills(
            steps[0],
            1,
            num(50000),
            modulo(times(ix(), num(k as u64)), num(50000)),
        ),
        crate::stage::demands(
            steps[1],
            Request::Create { into: 31, layout: Layout::Val, scalar: Scalar::U32, from: 1 },
        ),
        crate::stage::demands(steps[2], Request::Sort { of: 31, keys: 1, into: 32 }),
        crate::stage::inquires(
            steps[3],
            Request::Rows {
                of: 32,
                into: crate::categories::c19_multi_stream::SORT_COUNTS@[k as u64 as int],
            },
        ),
        crate::stage::fills(
            steps[4],
            2,
            num(50000),
            same_as(modulo(ix(), plus(num(k as u64), num(2))), num(0)),
        ),
        crate::stage::demands(steps[5], Request::Filter { of: 30, mask: 2, into: 33 }),
        crate::stage::inquires(
            steps[6],
            Request::Rows {
                of: 33,
                into: crate::categories::c19_multi_stream::FILTER_COUNTS@[k as u64 as int],
            },
        ),
        crate::stage::inquires(steps[7], Request::Release { from: 31 }),
        m.scene.buffer(30) == batch_completion_base_table1(),
    ensures
        n.holds(),
        n.plan == m.plan,
        n.answers == m.answers,
        n.at == 183 + 8 * k + 8,
        n.used == m.used + 6,
        n.scene.buffer(30) == batch_completion_base_table1(),
        crate::stage::asks(m.plan, m.answers, 82 + 6 * k, batch_completion_mixed_asks(k)),
{
    crate::stage::lemma_full(m);
    crate::stage::lemma_asks_none(m, 82 + 6 * k);
    let list0 = Seq::<Ask>::empty();
    let words1 = crate::stage::column(50000, |i: int| (i * k) % 50000);
    let word1 = modulo(times(ix(), num(k as u64)), num(50000));
    assert forall|i: int| 0 <= i < words1.len() implies crate::stage::meaning(
        word1,
        m.contents,
        i,
    ) as u64 == #[trigger] words1[i] by {
        reveal_with_fuel(crate::stage::meaning, 4);
    }
    let m1 = crate::stage::lemma_filled(m, steps[0], 1, num(50000), word1, words1);
    let table1 = Thing::Table {
        layout: Layout::Val,
        scalar: Scalar::U32,
        columns: seq![words1],
        turn: 82 + 6 * k,
    };
    let m2 = crate::stage::lemma_create(m1, steps[1], 31, Layout::Val, Scalar::U32, 1, table1);
    crate::stage::lemma_asks_more(m, 82 + 6 * k, list0, Ask::Make(table1));
    let list1 = list0.push(Ask::Make(table1));
    let sorted1 = Thing::Sorted { of: Box::new(table1), keys: 1, turn: 83 + 6 * k };
    let m3 = crate::stage::lemma_sort(m2, steps[2], 31, 1, 32, table1, sorted1);
    crate::stage::lemma_asks_more(m, 82 + 6 * k, list1, Ask::Make(sorted1));
    let list2 = list1.push(Ask::Make(sorted1));
    let m4 = crate::stage::lemma_rows(
        m3,
        steps[3],
        32,
        crate::categories::c19_multi_stream::SORT_COUNTS@[k as u64 as int],
        sorted1,
    );
    crate::stage::lemma_asks_more(m, 82 + 6 * k, list2, Ask::Rows(sorted1));
    let list3 = list2.push(Ask::Rows(sorted1));
    let words2 = crate::stage::column(50000, |i: int| crate::stage::flag(((i % (k + 2)) == 0)));
    let word5 = same_as(modulo(ix(), plus(num(k as u64), num(2))), num(0));
    assert forall|i: int| 0 <= i < words2.len() implies crate::stage::meaning(
        word5,
        m4.contents,
        i,
    ) as u64 == #[trigger] words2[i] by {
        reveal_with_fuel(crate::stage::meaning, 5);
    }
    let m5 = crate::stage::lemma_filled(m4, steps[4], 2, num(50000), word5, words2);
    let kept1 = Thing::Kept {
        of: Box::new(batch_completion_base_table1()),
        mask: words2,
        turn: 85 + 6 * k,
    };
    let m6 = crate::stage::lemma_filter(
        m5,
        steps[5],
        30,
        2,
        33,
        batch_completion_base_table1(),
        words2,
        kept1,
    );
    crate::stage::lemma_asks_more(m, 82 + 6 * k, list3, Ask::Make(kept1));
    let list4 = list3.push(Ask::Make(kept1));
    let m7 = crate::stage::lemma_rows(
        m6,
        steps[6],
        33,
        crate::categories::c19_multi_stream::FILTER_COUNTS@[k as u64 as int],
        kept1,
    );
    crate::stage::lemma_asks_more(m, 82 + 6 * k, list4, Ask::Rows(kept1));
    let list5 = list4.push(Ask::Rows(kept1));
    let m8 = crate::stage::lemma_release(m7, steps[7], 31);
    crate::stage::lemma_asks_more(m, 82 + 6 * k, list5, Ask::Other(Request::Release { from: 31 }));
    let list6 = list5.push(Ask::Other(Request::Release { from: 31 }));
    assert(batch_completion_mixed_asks(k) == list6);
    m8
}

/// The steps of the part `mixed` of `test_batch_completion`.
proof fn lemma_batch_completion_mixed_steps(k: int)
    ensures
        ({
            let steps = crate::categories::c19_multi_stream::batch_completion_mixed_round(k as u64);
            &&& steps.len() == 8
            &&& crate::stage::fills(
                steps[0],
                1,
                num(50000),
                modulo(times(ix(), num(k as u64)), num(50000)),
            )
            &&& crate::stage::demands(
                steps[1],
                Request::Create { into: 31, layout: Layout::Val, scalar: Scalar::U32, from: 1 },
            )
            &&& crate::stage::demands(steps[2], Request::Sort { of: 31, keys: 1, into: 32 })
            &&& crate::stage::inquires(
                steps[3],
                Request::Rows {
                    of: 32,
                    into: crate::categories::c19_multi_stream::SORT_COUNTS@[k as u64 as int],
                },
            )
            &&& crate::stage::fills(
                steps[4],
                2,
                num(50000),
                same_as(modulo(ix(), plus(num(k as u64), num(2))), num(0)),
            )
            &&& crate::stage::demands(steps[5], Request::Filter { of: 30, mask: 2, into: 33 })
            &&& crate::stage::inquires(
                steps[6],
                Request::Rows {
                    of: 33,
                    into: crate::categories::c19_multi_stream::FILTER_COUNTS@[k as u64 as int],
                },
            )
            &&& crate::stage::inquires(steps[7], Request::Release { from: 31 })
        }),
{
}

/// The first `k` rounds of the part `mixed` of `test_batch_completion` ask what they should.
proof fn lemma_batch_completion_mixed_rounds(m: Moment, part: Seq<Step>, k: int) -> (n: Moment)
    requires
        0 <= k <= 5,
        m.holds(),
        m.at == 183,
        m.used == 82 + 6 * 0,
        m.at + 40 <= m.plan.steps.len(),
        part == crate::script::rounds(
            5,
            |k: int| crate::categories::c19_multi_stream::batch_completion_mixed_round(k as u64),
        ),
        forall|j: int| 0 <= j < 40 ==> m.plan.steps[183 + j] == #[trigger] part[j],
        m.scene.buffer(30) == batch_completion_base_table1(),
    ensures
        n.holds(),
        n.plan == m.plan,
        n.answers == m.answers,
        n.at == 183 + 8 * k,
        n.used == 82 + 6 * k,
        n.scene.buffer(30) == batch_completion_base_table1(),
        forall|j: int|
            0 <= j < k ==> crate::stage::asks(
                m.plan,
                m.answers,
                82 + 6 * j,
                #[trigger] batch_completion_mixed_asks(j),
            ),
    decreases k,
{
    if k == 0 {
        m
    } else {
        let round = |k: int| crate::categories::c19_multi_stream::batch_completion_mixed_round(
            k as u64,
        );
        let before = lemma_batch_completion_mixed_rounds(m, part, k - 1);
        assert forall|j: int| 0 <= j < 8 implies m.plan.steps[before.at + j] == #[trigger] crate::categories::c19_multi_stream::batch_completion_mixed_round(
            (k - 1) as u64,
        )[j] by {
            assert forall|k: int| 0 <= k < 5 implies (#[trigger] round(k)).len() == 8 by {
                lemma_batch_completion_mixed_steps(k);
            }
            crate::stage::lemma_round_place(5, round, 8, k - 1, j);
            assert(part[(k - 1) * 8 + j] == round(k - 1)[j]);
        }
        lemma_batch_completion_mixed_steps(k - 1);
        lemma_batch_completion_mixed(
            before,
            crate::categories::c19_multi_stream::batch_completion_mixed_round((k - 1) as u64),
            k - 1,
        )
    }
}

/// What the device is asked in the part `mixed_completion` of `test_batch_completion`.
pub open spec fn batch_completion_mixed_completion_asks() -> Seq<Ask> {
    seq![Ask::Other(Request::Sync)]
}

/// The part `mixed_completion` of `test_batch_completion` asks what it should.
proof fn lemma_batch_completion_mixed_completion(m: Moment, steps: Seq<Step>) -> (n: Moment)
    requires
        m.holds(),
        m.at == 223,
        m.used == 112,
        223 + 1 <= m.plan.steps.len(),
        forall|j: int| 0 <= j < 1 ==> m.plan.steps[223 + j] == #[trigger] steps[j],
        crate::stage::demands(steps[0], Request::Sync),
    ensures
        n.holds(),
        n.plan == m.plan,
        n.answers == m.answers,
        n.at == 223 + 1,
        n.used == m.used + 1,
        crate::stage::asks(m.plan, m.answers, 112, batch_completion_mixed_completion_asks()),
{
    crate::stage::lemma_full(m);
    crate::stage::lemma_asks_none(m, 112);
    let list0 = Seq::<Ask>::empty();
    let m1 = crate::stage::lemma_sync(m, steps[0]);
    crate::stage::lemma_asks_more(m, 112, list0, Ask::Other(Request::Sync));
    let list1 = list0.push(Ask::Other(Request::Sync));
    assert(batch_completion_mixed_completion_asks() == list1);
    m1
}

/// The steps of the part `mixed_completion` of `test_batch_completion`.
proof fn lemma_batch_completion_mixed_completion_steps()
    ensures
        ({
            let steps = crate::categories::c19_multi_stream::batch_completion_mixed_completion_steps();
            &&& steps.len() == 1
            &&& crate::stage::demands(steps[0], Request::Sync)
        }),
{
}

/// Round `k` of the part `counts` of `test_batch_completion` asks what it should.
proof fn lemma_batch_completion_counts(m: Moment, steps: Seq<Step>, k: int) -> (n: Moment)
    requires
        0 <= k < 5,
        m.holds(),
        m.at == 224 + 4 * k,
        m.used == 113 + 0 * k,
        224 + 4 * k + 4 <= m.plan.steps.len(),
        forall|j: int| 0 <= j < 4 ==> m.plan.steps[224 + 4 * k + j] == #[trigger] steps[j],
        crate::stage::looks(steps[0]),
        crate::stage::works(steps[1], 2),
        crate::stage::reckons(steps[2], 10),
        crate::stage::looks(steps[3]),
    ensures
        n.holds(),
        n.plan == m.plan,
        n.answers == m.answers,
        n.at == 224 + 4 * k + 4,
        n.used == m.used + 0,
{
    crate::stage::lemma_full(m);
    let m1 = crate::stage::lemma_look(m, steps[0]);
    let m2 = crate::stage::lemma_work(m1, steps[1], 2);
    let m3 = crate::stage::lemma_reckon(m2, steps[2], 10);
    let m4 = crate::stage::lemma_look(m3, steps[3]);
    m4
}

/// The steps of the part `counts` of `test_batch_completion`.
proof fn lemma_batch_completion_counts_steps(k: int)
    ensures
        ({
            let steps = crate::categories::c19_multi_stream::batch_completion_counts_round(
                k as u64,
            );
            &&& steps.len() == 4
            &&& crate::stage::looks(steps[0])
            &&& crate::stage::works(steps[1], 2)
            &&& crate::stage::reckons(steps[2], 10)
            &&& crate::stage::looks(steps[3])
        }),
{
}

/// The first `k` rounds of the part `counts` of `test_batch_completion` ask what they should.
proof fn lemma_batch_completion_counts_rounds(m: Moment, part: Seq<Step>, k: int) -> (n: Moment)
    requires
        0 <= k <= 5,
        m.holds(),
        m.at == 224,
        m.used == 113 + 0 * 0,
        m.at + 20 <= m.plan.steps.len(),
        part == crate::script::rounds(
            5,
            |k: int| crate::categories::c19_multi_stream::batch_completion_counts_round(k as u64),
        ),
        forall|j: int| 0 <= j < 20 ==> m.plan.steps[224 + j] == #[trigger] part[j],
    ensures
        n.holds(),
        n.plan == m.plan,
        n.answers == m.answers,
        n.at == 224 + 4 * k,
        n.used == 113 + 0 * k,
    decreases k,
{
    if k == 0 {
        m
    } else {
        let round = |k: int| crate::categories::c19_multi_stream::batch_completion_counts_round(
            k as u64,
        );
        let before = lemma_batch_completion_counts_rounds(m, part, k - 1);
        assert forall|j: int| 0 <= j < 4 implies m.plan.steps[before.at + j] == #[trigger] crate::categories::c19_multi_stream::batch_completion_counts_round(
            (k - 1) as u64,
        )[j] by {
            assert forall|k: int| 0 <= k < 5 implies (#[trigger] round(k)).len() == 4 by {
                lemma_batch_completion_counts_steps(k);
            }
            crate::stage::lemma_round_place(5, round, 4, k - 1, j);
            assert(part[(k - 1) * 4 + j] == round(k - 1)[j]);
        }
        lemma_batch_completion_counts_steps(k - 1);
        lemma_batch_completion_counts(
            before,
            crate::categories::c19_multi_stream::batch_completion_counts_round((k - 1) as u64),
            k - 1,
        )
    }
}

/// What the device is asked in the part `end` of `test_batch_completion`.
pub open spec fn batch_completion_end_asks() -> Seq<Ask> {
    seq![Ask::Other(Request::Sync)]
}

/// The part `end` of `test_batch_completion` asks what it should.
proof fn lemma_batch_completion_end(m: Moment, steps: Seq<Step>) -> (n: Moment)
    requires
        m.holds(),
        m.at == 244,
        m.used == 113,
        244 + 1 <= m.plan.steps.len(),
        forall|j: int| 0 <= j < 1 ==> m.plan.steps[244 + j] == #[trigger] steps[j],
        crate::stage::demands(steps[0], Request::Sync),
    ensures
        n.holds(),
        n.plan == m.plan,
        n.answers == m.answers,
        n.at == 244 + 1,
        n.used == m.used + 1,
        crate::stage::asks(m.plan, m.answers, 113, batch_completion_end_asks()),
{
    crate::stage::lemma_full(m);
    crate::stage::lemma_asks_none(m, 113);
    let list0 = Seq::<Ask>::empty();
    let m1 = crate::stage::lemma_sync(m, steps[0]);
    crate::stage::lemma_asks_more(m, 113, list0, Ask::Other(Request::Sync));
    let list1 = list0.push(Ask::Other(Request::Sync));
    assert(batch_completion_end_asks() == list1);
    m1
}

/// The steps of the part `end` of `test_batch_completion`.
proof fn lemma_batch_completion_end_steps()
    ensures
        ({
            let steps = crate::categories::c19_multi_stream::batch_completion_end_steps();
            &&& steps.len() == 1
            &&& crate::stage::demands(steps[0], Request::Sync)
        }),
{
}

/// In a run of `test_batch_completion` that passes the device is asked this, in this order, and
/// nothing else: each request about what an earlier one made is about that, and about what was
/// uploaded for it.
pub proof fn law_batch_completion_asks_about_what_it_made(answers: Seq<Answer>)
    requires
        crate::stage::passes(
            crate::script::plan(
                "test_batch_completion",
                crate::categories::c19_multi_stream::batch_completion_steps(),
            ),
            answers,
        ),
    ensures
        forall|k: int|
            0 <= k < 20 ==> crate::stage::asks(
                crate::script::plan(
                    "test_batch_completion",
                    crate::categories::c19_multi_stream::batch_completion_steps(),
                ),
                answers,
                0 + 3 * k,
                #[trigger] batch_completion_operations_asks(k),
            ),
        crate::stage::asks(
            crate::script::plan(
                "test_batch_completion",
                crate::categories::c19_multi_stream::batch_completion_steps(),
            ),
            answers,
            60,
            batch_completion_completion_asks(),
        ),
        forall|k: int|
            0 <= k < 20 ==> crate::stage::asks(
                crate::script::plan(
                    "test_batch_completion",
                    crate::categories::c19_multi_stream::batch_completion_steps(),
                ),
                answers,
                61 + 1 * k,
                #[trigger] batch_completion_results_asks(k),
            ),
        crate::stage::asks(
            crate::script::plan(
                "test_batch_completion",
                crate::categories::c19_multi_stream::batch_completion_steps(),
            ),
            answers,
            81,
            batch_completion_base_asks(),
        ),
        forall|k: int|
            0 <= k < 5 ==> crate::stage::asks(
                crate::script::plan(
                    "test_batch_completion",
                    crate::categories::c19_multi_stream::batch_completion_steps(),
                ),
                answers,
                82 + 6 * k,
                #[trigger] batch_completion_mixed_asks(k),
            ),
        crate::stage::asks(
            crate::script::plan(
                "test_batch_completion",
                crate::categories::c19_multi_stream::batch_completion_steps(),
            ),
            answers,
            112,
            batch_completion_mixed_completion_asks(),
        ),
        crate::stage::asks(
            crate::script::plan(
                "test_batch_completion",
                crate::categories::c19_multi_stream::batch_completion_steps(),
            ),
            answers,
            113,
            batch_completion_end_asks(),
        ),
        crate::stage::asked(
            crate::script::plan(
                "test_batch_completion",
                crate::categories::c19_multi_stream::batch_completion_steps(),
            ),
            answers,
            114,
        ) is None,
{
    let plan = crate::script::plan(
        "test_batch_completion",
        crate::categories::c19_multi_stream::batch_completion_steps(),
    );
    let round1 = |k: int| crate::categories::c19_multi_stream::batch_completion_operations_round(
        k as u64,
    );
    let part1 = crate::script::rounds(20, round1);
    assert forall|k: int| 0 <= k < 20 implies (#[trigger] round1(k)).len() == 4 by {
        lemma_batch_completion_operations_steps(k);
    }
    crate::stage::lemma_rounds_length(20, round1, 4);
    let part2 = crate::categories::c19_multi_stream::batch_completion_completion_steps();
    lemma_batch_completion_completion_steps();
    let round3 = |k: int| crate::categories::c19_multi_stream::batch_completion_results_round(
        k as u64,
    );
    let part3 = crate::script::rounds(20, round3);
    assert forall|k: int| 0 <= k < 20 implies (#[trigger] round3(k)).len() == 5 by {
        lemma_batch_completion_results_steps(k);
    }
    crate::stage::lemma_rounds_length(20, round3, 5);
    let part4 = crate::categories::c19_multi_stream::batch_completion_base_steps();
    lemma_batch_completion_base_steps();
    let round5 = |k: int| crate::categories::c19_multi_stream::batch_completion_mixed_round(
        k as u64,
    );
    let part5 = crate::script::rounds(5, round5);
    assert forall|k: int| 0 <= k < 5 implies (#[trigger] round5(k)).len() == 8 by {
        lemma_batch_completion_mixed_steps(k);
    }
    crate::stage::lemma_rounds_length(5, round5, 8);
    let part6 = crate::categories::c19_multi_stream::batch_completion_mixed_completion_steps();
    lemma_batch_completion_mixed_completion_steps();
    let round7 = |k: int| crate::categories::c19_multi_stream::batch_completion_counts_round(
        k as u64,
    );
    let part7 = crate::script::rounds(5, round7);
    assert forall|k: int| 0 <= k < 5 implies (#[trigger] round7(k)).len() == 4 by {
        lemma_batch_completion_counts_steps(k);
    }
    crate::stage::lemma_rounds_length(5, round7, 4);
    let part8 = crate::categories::c19_multi_stream::batch_completion_end_steps();
    lemma_batch_completion_end_steps();
    let whole1 = part1;
    let whole2 = whole1 + part2;
    let whole3 = whole2 + part3;
    let whole4 = whole3 + part4;
    let whole5 = whole4 + part5;
    let whole6 = whole5 + part6;
    let whole7 = whole6 + part7;
    let whole8 = whole7 + part8;
    assert(plan.steps == whole8);
    let m0 = crate::stage::lemma_start(plan, answers);
    assert forall|j: int| 0 <= j < 80 implies plan.steps[0 + j] == #[trigger] part1[j] by {}
    let m1 = lemma_batch_completion_operations_rounds(m0, part1, 20);
    assert forall|j: int| 0 <= j < 1 implies plan.steps[80 + j] == #[trigger] part2[j] by {}
    let m2 = lemma_batch_completion_completion(m1, part2);
    assert forall|j: int| 0 <= j < 100 implies plan.steps[81 + j] == #[trigger] part3[j] by {}
    let m3 = lemma_batch_completion_results_rounds(m2, part3, 20);
    assert forall|j: int| 0 <= j < 2 implies plan.steps[181 + j] == #[trigger] part4[j] by {}
    let m4 = lemma_batch_completion_base(m3, part4);
    assert forall|j: int| 0 <= j < 40 implies plan.steps[183 + j] == #[trigger] part5[j] by {}
    let m5 = lemma_batch_completion_mixed_rounds(m4, part5, 5);
    assert forall|j: int| 0 <= j < 1 implies plan.steps[223 + j] == #[trigger] part6[j] by {}
    let m6 = lemma_batch_completion_mixed_completion(m5, part6);
    assert forall|j: int| 0 <= j < 20 implies plan.steps[224 + j] == #[trigger] part7[j] by {}
    let m7 = lemma_batch_completion_counts_rounds(m6, part7, 5);
    assert forall|j: int| 0 <= j < 1 implies plan.steps[244 + j] == #[trigger] part8[j] by {}
    let m8 = lemma_batch_completion_end(m7, part8);
    crate::stage::lemma_end(m8);
}

} // verus!
