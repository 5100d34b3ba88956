//! What these tests ask the device in runs that pass: `test_operation_isolation`.

use vstd::prelude::*;
use crate::expr::{ix, lt, modulo, num, plus, times};
use crate::machine::Answer;
use crate::scalar::Scalar;
use crate::script::{after, Layout, Request, Step};
use crate::stage::{Ask, Moment, Thing};

verus! {

/// A buffer that is uploaded in round `k` of the part `buffers` of `test_operation_isolation`.
pub open spec fn operation_isolation_buffers_table1(k: int) -> Thing {
    Thing::Table {
        layout: Layout::Val,
        scalar: Scalar::U32,
        columns: seq![crate::stage::column(10000, |i: int| (k * 10000) + (i % 10000))],
        turn: 0 + 1 * k,
    }
}

/// What is sorted in round `k` of the part `sorts` of `test_operation_isolation`.
pub open spec fn operation_isolation_sorts_sorted1(k: int) -> Thing {
    Thing::Sorted { of: Box::new(operation_isolation_buffers_table1(k)), keys: 1, turn: 5 + 1 * k }
}

/// What is kept in round `k` of the part `filters` of `test_operation_isolation`.
pub open spec fn operation_isolation_filters_kept1(k: int) -> Thing {
    Thing::Kept {
        of: Box::new(operation_isolation_buffers_table1(k)),
        mask: crate::stage::column(10000, |i: int| crate::stage::flag((i < 5000))),
        turn: 15 + 1 * k,
    }
}

/// What the device is asked in round `k` of the part `buffers` of `test_operation_isolation`.
pub open spec fn operation_isolation_buffers_asks(k: int) -> Seq<Ask> {
    seq![Ask::Make(operation_isolation_buffers_table1(k))]
}

/// Round `k` of the part `buffers` of `test_operation_isolation` asks what it should.
proof fn lemma_operation_isolation_buffers(m: Moment, steps: Seq<Step>, k: int) -> (n: Moment)
    requires
        0 <= k < 5,
        m.holds(),
        m.at == 0 + 2 * k,
        m.used == 0 + 1 * k,
        0 + 2 * k + 2 <= m.plan.steps.len(),
        forall|j: int| 0 <= j < 2 ==> m.plan.steps[0 + 2 * k + j] == #[trigger] steps[j],
        crate::stage::fills(
            steps[0],
            0,
            num(10000),
            plus(times(num(k as u64), num(10000)), modulo(ix(), num(10000))),
        ),
        crate::stage::demands(
            steps[1],
            Request::Create { into: k as u64, layout: Layout::Val, scalar: Scalar::U32, from: 0 },
        ),
        forall|j: int|
            0 <= j < k ==> m.scene.buffer(
                (0 + j) as u64,
            ) == #[trigger] operation_isolation_buffers_table1(j),
    ensures
        n.holds(),
        n.plan == m.plan,
        n.answers == m.answers,
        n.at == 0 + 2 * k + 2,
        n.used == m.used + 1,
        forall|j: int|
            0 <= j < k + 1 ==> n.scene.buffer(
                (0 + j) as u64,
            ) == #[trigger] operation_isolation_buffers_table1(j),
        crate::stage::asks(m.plan, m.answers, 0 + 1 * k, operation_isolation_buffers_asks(k)),
{
    crate::stage::lemma_full(m);
    crate::stage::lemma_asks_none(m, 0 + 1 * k);
    let list0 = Seq::<Ask>::empty();
    let words1 = crate::stage::column(10000, |i: int| (k * 10000) + (i % 10000));
    let word1 = plus(times(num(k as u64), num(10000)), modulo(ix(), num(10000)));
    assert forall|i: int| 0 <= i < words1.len() implies crate::stage::meaning(
        word1,
        m.contents,
        i,
    ) as u64 == #[trigger] words1[i] by {
        reveal_with_fuel(crate::stage::meaning, 4);
    }
    let m1 = crate::stage::lemma_filled(m, steps[0], 0, num(10000), word1, words1);
    let m2 = crate::stage::lemma_create(
        m1,
        steps[1],
        k as u64,
        Layout::Val,
        Scalar::U32,
        0,
        operation_isolation_buffers_table1(k),
    );
    crate::stage::lemma_asks_more(
        m,
        0 + 1 * k,
        list0,
        Ask::Make(operation_isolation_buffers_table1(k)),
    );
    let list1 = list0.push(Ask::Make(operation_isolation_buffers_table1(k)));
    assert(operation_isolation_buffers_asks(k) == list1);
    m2
}

/// The steps of the part `buffers` of `test_operation_isolation`.
proof fn lemma_operation_isolation_buffers_steps(k: int)
    ensures
        ({
            let steps = crate::categories::c19_multi_stream::operation_isolation_buffers_round(
                k as u64,
            );
            &&& steps.len() == 2
            &&& crate::stage::fills(
                steps[0],
                0,
                num(10000),
                plus(times(num(k as u64), num(10000)), modulo(ix(), num(10000))),
            )
            &&& crate::stage::demands(
                steps[1],
                Request::Create {
                    into: k as u64,
                    layout: Layout::Val,
                    scalar: Scalar::U32,
                    from: 0,
                },
            )
        }),
{
}

/// The first `k` rounds of the part `buffers` of `test_operation_isolation` ask what they should.
proof fn lemma_operation_isolation_buffers_rounds(m: Moment, part: Seq<Step>, k: int) -> (n: Moment)
    requires
        0 <= k <= 5,
        m.holds(),
        m.at == 0,
        m.used == 0 + 1 * 0,
        m.at + 10 <= m.plan.steps.len(),
        part == crate::script::rounds(
            5,
            |k: int| crate::categories::c19_multi_stream::operation_isolation_buffers_round(
                k as u64,
            ),
        ),
        forall|j: int| 0 <= j < 10 ==> m.plan.steps[0 + j] == #[trigger] part[j],
    ensures
        n.holds(),
        n.plan == m.plan,
        n.answers == m.answers,
        n.at == 0 + 2 * k,
        n.used == 0 + 1 * k,
        forall|j: int|
            0 <= j < k ==> n.scene.buffer(
                (0 + j) as u64,
            ) == #[trigger] operation_isolation_buffers_table1(j),
        forall|j: int|
            0 <= j < k ==> crate::stage::asks(
                m.plan,
                m.answers,
                0 + 1 * j,
                #[trigger] operation_isolation_buffers_asks(j),
            ),
    decreases k,
{
    if k == 0 {
        m
    } else {
        let round = |k: int| crate::categories::c19_multi_stream::operation_isolation_buffers_round(
            k as u64,
        );
        let before = lemma_operation_isolation_buffers_rounds(m, part, k - 1);
        assert forall|j: int| 0 <= j < 2 implies m.plan.steps[before.at + j] == #[trigger] crate::categories::c19_multi_stream::operation_isolation_buffers_round(
            (k - 1) as u64,
        )[j] by {
            assert forall|k: int| 0 <= k < 5 implies (#[trigger] round(k)).len() == 2 by {
                lemma_operation_isolation_buffers_steps(k);
            }
            crate::stage::lemma_round_place(5, round, 2, k - 1, j);
            assert(part[(k - 1) * 2 + j] == round(k - 1)[j]);
        }
        lemma_operation_isolation_buffers_steps(k - 1);
        lemma_operation_isolation_buffers(
            before,
            crate::categories::c19_multi_stream::operation_isolation_buffers_round((k - 1) as u64),
            k - 1,
        )
    }
}

/// What the device is asked in round `k` of the part `sorts` of `test_operation_isolation`.
pub open spec fn operation_isolation_sorts_asks(k: int) -> Seq<Ask> {
    seq![Ask::Make(operation_isolation_sorts_sorted1(k))]
}

/// Round `k` of the part `sorts` of `test_operation_isolation` asks what it should.
proof fn lemma_operation_isolation_sorts(m: Moment, steps: Seq<Step>, k: int) -> (n: Moment)
    requires
        0 <= k < 5,
        m.holds(),
        m.at == 10 + 1 * k,
        m.used == 5 + 1 * k,
        10 + 1 * k + 1 <= m.plan.steps.len(),
        forall|j: int| 0 <= j < 1 ==> m.plan.steps[10 + 1 * k + j] == #[trigger] steps[j],
        crate::stage::demands(
            steps[0],
            Request::Sort { of: k as u64, keys: 1, into: after(10, k as u64) },
        ),
        forall|j: int|
            0 <= j < 5 ==> m.scene.buffer(
                (0 + j) as u64,
            ) == #[trigger] operation_isolation_buffers_table1(j),
        forall|j: int|
            0 <= j < k ==> m.scene.buffer(
                (10 + j) as u64,
            ) == #[trigger] operation_isolation_sorts_sorted1(j),
    ensures
        n.holds(),
        n.plan == m.plan,
        n.answers == m.answers,
        n.at == 10 + 1 * k + 1,
        n.used == m.used + 1,
        forall|j: int|
            0 <= j < 5 ==> n.scene.buffer(
                (0 + j) as u64,
            ) == #[trigger] operation_isolation_buffers_table1(j),
        forall|j: int|
            0 <= j < k + 1 ==> n.scene.buffer(
                (10 + j) as u64,
            ) == #[trigger] operation_isolation_sorts_sorted1(j),
        crate::stage::asks(m.plan, m.answers, 5 + 1 * k, operation_isolation_sorts_asks(k)),
{
    crate::stage::lemma_full(m);
    crate::stage::lemma_asks_none(m, 5 + 1 * k);
    let list0 = Seq::<Ask>::empty();
    let m1 = crate::stage::lemma_sort(
        m,
        steps[0],
        k as u64,
        1,
        after(10, k as u64),
        operation_isolation_buffers_table1(k),
        operation_isolation_sorts_sorted1(k),
    );
    crate::stage::lemma_asks_more(
        m,
        5 + 1 * k,
        list0,
        Ask::Make(operation_isolation_sorts_sorted1(k)),
    );
    let list1 = list0.push(Ask::Make(operation_isolation_sorts_sorted1(k)));
    assert(operation_isolation_sorts_asks(k) == list1);
    m1
}

/// The steps of the part `sorts` of `test_operation_isolation`.
proof fn lemma_operation_isolation_sorts_steps(k: int)
    ensures
        ({
            let steps = crate::categories::c19_multi_stream::operation_isolation_sorts_round(
                k as u64,
            );
            &&& steps.len() == 1
            &&& crate::stage::demands(
                steps[0],
                Request::Sort { of: k as u64, keys: 1, into: after(10, k as u64) },
            )
        }),
{
}

/// The first `k` rounds of the part `sorts` of `test_operation_isolation` ask what they should.
proof fn lemma_operation_isolation_sorts_rounds(m: Moment, part: Seq<Step>, k: int) -> (n: Moment)
    requires
        0 <= k <= 5,
        m.holds(),
        m.at == 10,
        m.used == 5 + 1 * 0,
        m.at + 5 <= m.plan.steps.len(),
        part == crate::script::rounds(
            5,
            |k: int| crate::categories::c19_multi_stream::operation_isolation_sorts_round(k as u64),
        ),
        forall|j: int| 0 <= j < 5 ==> m.plan.steps[10 + j] == #[trigger] part[j],
        forall|j: int|
            0 <= j < 5 ==> m.scene.buffer(
                (0 + j) as u64,
            ) == #[trigger] operation_isolation_buffers_table1(j),
    ensures
        n.holds(),
        n.plan == m.plan,
        n.answers == m.answers,
        n.at == 10 + 1 * k,
        n.used == 5 + 1 * k,
        forall|j: int|
            0 <= j < 5 ==> n.scene.buffer(
                (0 + j) as u64,
            ) == #[trigger] operation_isolation_buffers_table1(j),
        forall|j: int|
            0 <= j < k ==> n.scene.buffer(
                (10 + j) as u64,
            ) == #[trigger] operation_isolation_sorts_sorted1(j),
        forall|j: int|
            0 <= j < k ==> crate::stage::asks(
                m.plan,
                m.answers,
                5 + 1 * j,
                #[trigger] operation_isolation_sorts_asks(j),
            ),
    decreases k,
{
    if k == 0 {
        m
    } else {
        let round = |k: int| crate::categories::c19_multi_stream::operation_isolation_sorts_round(
            k as u64,
        );
        let before = lemma_operation_isolation_sorts_rounds(m, part, k - 1);
        assert forall|j: int| 0 <= j < 1 implies m.plan.steps[before.at + j] == #[trigger] crate::categories::c19_multi_stream::operation_isolation_sorts_round(
            (k - 1) as u64,
        )[j] by {
            assert forall|k: int| 0 <= k < 5 implies (#[trigger] round(k)).len() == 1 by {
                lemma_operation_isolation_sorts_steps(k);
            }
            crate::stage::lemma_round_place(5, round, 1, k - 1, j);
            assert(part[(k - 1) * 1 + j] == round(k - 1)[j]);
        }
        lemma_operation_isolation_sorts_steps(k - 1);
        lemma_operation_isolation_sorts(
            before,
            crate::categories::c19_multi_stream::operation_isolation_sorts_round((k - 1) as u64),
            k - 1,
        )
    }
}

/// What the device is asked in round `k` of the part `sorted` of `test_operation_isolation`.
pub open spec fn operation_isolation_sorted_asks(k: int) -> Seq<Ask> {
    seq![Ask::Words { of: operation_isolation_sorts_sorted1(k), column: 0, scalar: Scalar::U32 }]
}

/// Round `k` of the part `sorted` of `test_operation_isolation` asks what it should.
proof fn lemma_operation_isolation_sorted(m: Moment, steps: Seq<Step>, k: int) -> (n: Moment)
    requires
        0 <= k < 5,
        m.holds(),
        m.at == 15 + 8 * k,
        m.used == 10 + 1 * k,
        15 + 8 * k + 8 <= m.plan.steps.len(),
        forall|j: int| 0 <= j < 8 ==> m.plan.steps[15 + 8 * k + j] == #[trigger] steps[j],
        crate::stage::demands(
            steps[0],
            Request::Download { of: after(10, k as u64), column: 0, scalar: Scalar::U32, into: 1 },
        ),
        crate::stage::looks(steps[1]),
        crate::stage::works(steps[2], 0),
        crate::stage::reckons(steps[3], 0),
        crate::stage::reckons(steps[4], 1),
        crate::stage::looks(steps[5]),
        crate::stage::looks(steps[6]),
        crate::stage::looks(steps[7]),
        forall|j: int|
            0 <= j < 5 ==> m.scene.buffer(
                (0 + j) as u64,
            ) == #[trigger] operation_isolation_buffers_table1(j),
        forall|j: int|
            0 <= j < 5 ==> m.scene.buffer(
                (10 + j) as u64,
            ) == #[trigger] operation_isolation_sorts_sorted1(j),
    ensures
        n.holds(),
        n.plan == m.plan,
        n.answers == m.answers,
        n.at == 15 + 8 * k + 8,
        n.used == m.used + 1,
        forall|j: int|
            0 <= j < 5 ==> n.scene.buffer(
                (0 + j) as u64,
            ) == #[trigger] operation_isolation_buffers_table1(j),
        forall|j: int|
            0 <= j < 5 ==> n.scene.buffer(
                (10 + j) as u64,
            ) == #[trigger] operation_isolation_sorts_sorted1(j),
        crate::stage::asks(m.plan, m.answers, 10 + 1 * k, operation_isolation_sorted_asks(k)),
{
    crate::stage::lemma_full(m);
    crate::stage::lemma_asks_none(m, 10 + 1 * k);
    let list0 = Seq::<Ask>::empty();
    let m1 = crate::stage::lemma_download(
        m,
        steps[0],
        after(10, k as u64),
        0,
        Scalar::U32,
        1,
        operation_isolation_sorts_sorted1(k),
    );
    crate::stage::lemma_asks_more(
        m,
        10 + 1 * k,
        list0,
        Ask::Words { of: operation_isolation_sorts_sorted1(k), column: 0, scalar: Scalar::U32 },
    );
    let list1 = list0.push(
        Ask::Words { of: operation_isolation_sorts_sorted1(k), column: 0, scalar: Scalar::U32 },
    );
    let m2 = crate::stage::lemma_look(m1, steps[1]);
    let m3 = crate::stage::lemma_work(m2, steps[2], 0);
    let m4 = crate::stage::lemma_reckon(m3, steps[3], 0);
    let m5 = crate::stage::lemma_reckon(m4, steps[4], 1);
    let m6 = crate::stage::lemma_look(m5, steps[5]);
    let m7 = crate::stage::lemma_look(m6, steps[6]);
    let m8 = crate::stage::lemma_look(m7, steps[7]);
    assert(operation_isolation_sorted_asks(k) == list1);
    m8
}

/// The steps of the part `sorted` of `test_operation_isolation`.
proof fn lemma_operation_isolation_sorted_steps(k: int)
    ensures
        ({
            let steps = crate::categories::c19_multi_stream::operation_isolation_sorted_round(
                k as u64,
            );
            &&& steps.len() == 8
            &&& crate::stage::demands(
                steps[0],
                Request::Download {
                    of: after(10, k as u64),
                    column: 0,
                    scalar: Scalar::U32,
                    into: 1,
                },
            )
            &&& crate::stage::looks(steps[1])
            &&& crate::stage::works(steps[2], 0)
            &&& crate::stage::reckons(steps[3], 0)
            &&& crate::stage::reckons(steps[4], 1)
            &&& crate::stage::looks(steps[5])
            &&& crate::stage::looks(steps[6])
            &&& crate::stage::looks(steps[7])
        }),
{
}

/// The first `k` rounds of the part `sorted` of `test_operation_isolation` ask what they should.
proof fn lemma_operation_isolation_sorted_rounds(m: Moment, part: Seq<Step>, k: int) -> (n: Moment)
    requires
        0 <= k <= 5,
        m.holds(),
        m.at == 15,
        m.used == 10 + 1 * 0,
        m.at + 40 <= m.plan.steps.len(),
        part == crate::script::rounds(
            5,
            |k: int| crate::categories::c19_multi_stream::operation_isolation_sorted_round(
                k as u64,
            ),
        ),
        forall|j: int| 0 <= j < 40 ==> m.plan.steps[15 + j] == #[trigger] part[j],
        forall|j: int|
            0 <= j < 5 ==> m.scene.buffer(
                (0 + j) as u64,
            ) == #[trigger] operation_isolation_buffers_table1(j),
        forall|j: int|
            0 <= j < 5 ==> m.scene.buffer(
                (10 + j) as u64,
            ) == #[trigger] operation_isolation_sorts_sorted1(j),
    ensures
        n.holds(),
        n.plan == m.plan,
        n.answers == m.answers,
        n.at == 15 + 8 * k,
        n.used == 10 + 1 * k,
        forall|j: int|
            0 <= j < 5 ==> n.scene.buffer(
                (0 + j) as u64,
            ) == #[trigger] operation_isolation_buffers_table1(j),
        forall|j: int|
            0 <= j < 5 ==> n.scene.buffer(
                (10 + j) as u64,
            ) == #[trigger] operation_isolation_sorts_sorted1(j),
        forall|j: int|
            0 <= j < k ==> crate::stage::asks(
                m.plan,
                m.answers,
                10 + 1 * j,
                #[trigger] operation_isolation_sorted_asks(j),
            ),
    decreases k,
{
    if k == 0 {
        m
    } else {
        let round = |k: int| crate::categories::c19_multi_stream::operation_isolation_sorted_round(
            k as u64,
        );
        let before = lemma_operation_isolation_sorted_rounds(m, part, k - 1);
        assert forall|j: int| 0 <= j < 8 implies m.plan.steps[before.at + j] == #[trigger] crate::categories::c19_multi_stream::operation_isolation_sorted_round(
            (k - 1) as u64,
        )[j] by {
            assert forall|k: int| 0 <= k < 5 implies (#[trigger] round(k)).len() == 8 by {
                lemma_operation_isolation_sorted_steps(k);
            }
            crate::stage::lemma_round_place(5, round, 8, k - 1, j);
            assert(part[(k - 1) * 8 + j] == round(k - 1)[j]);
        }
        lemma_operation_isolation_sorted_steps(k - 1);
        lemma_operation_isolation_sorted(
            before,
            crate::categories::c19_multi_stream::operation_isolation_sorted_round((k - 1) as u64),
            k - 1,
        )
    }
}

/// What the device is asked in round `k` of the part `filters` of `test_operation_isolation`.
pub open spec fn operation_isolation_filters_asks(k: int) -> Seq<Ask> {
    seq![Ask::Make(operation_isolation_filters_kept1(k))]
}

/// Round `k` of the part `filters` of `test_operation_isolation` asks what it should.
proof fn lemma_operation_isolation_filters(m: Moment, steps: Seq<Step>, k: int) -> (n: Moment)
    requires
        0 <= k < 5,
        m.holds(),
        m.at == 55 + 2 * k,
        m.used == 15 + 1 * k,
        55 + 2 * k + 2 <= m.plan.steps.len(),
        forall|j: int| 0 <= j < 2 ==> m.plan.steps[55 + 2 * k + j] == #[trigger] steps[j],
        crate::stage::fills(steps[0], 2, num(10000), lt(ix(), num(5000))),
        crate::stage::demands(
            steps[1],
            Request::Filter { of: k as u64, mask: 2, into: after(20, k as u64) },
        ),
        forall|j: int|
            0 <= j < 5 ==> m.scene.buffer(
                (0 + j) as u64,
            ) == #[trigger] operation_isolation_buffers_table1(j),
        forall|j: int|
            0 <= j < k ==> m.scene.buffer(
                (20 + j) as u64,
            ) == #[trigger] operation_isolation_filters_kept1(j),
    ensures
        n.holds(),
        n.plan == m.plan,
        n.answers == m.answers,
        n.at == 55 + 2 * k + 2,
        n.used == m.used + 1,
        forall|j: int|
            0 <= j < 5 ==> n.scene.buffer(
                (0 + j) as u64,
            ) == #[trigger] operation_isolation_buffers_table1(j),
        forall|j: int|
            0 <= j < k + 1 ==> n.scene.buffer(
                (20 + j) as u64,
            ) == #[trigger] operation_isolation_filters_kept1(j),
        crate::stage::asks(m.plan, m.answers, 15 + 1 * k, operation_isolation_filters_asks(k)),
{
    crate::stage::lemma_full(m);
    crate::stage::lemma_asks_none(m, 15 + 1 * k);
    let list0 = Seq::<Ask>::empty();
    let words1 = crate::stage::column(10000, |i: int| crate::stage::flag((i < 5000)));
    let word1 = lt(ix(), num(5000));
    assert forall|i: int| 0 <= i < words1.len() implies crate::stage::meaning(
        word1,
        m.contents,
        i,
    ) as u64 == #[trigger] words1[i] by {
        reveal_with_fuel(crate::stage::meaning, 3);
    }
    let m1 = crate::stage::lemma_filled(m, steps[0], 2, num(10000), word1, words1);
    let m2 = crate::stage::lemma_filter(
        m1,
        steps[1],
        k as u64,
        2,
        after(20, k as u64),
        operation_isolation_buffers_table1(k),
        words1,
        operation_isolation_filters_kept1(k),
    );
    crate::stage::lemma_asks_more(
        m,
        15 + 1 * k,
        list0,
        Ask::Make(operation_isolation_filters_kept1(k)),
    );
    let list1 = list0.push(Ask::Make(operation_isolation_filters_kept1(k)));
    assert(operation_isolation_filters_asks(k) == list1);
    m2
}

/// The steps of the part `filters` of `test_operation_isolation`.
proof fn lemma_operation_isolation_filters_steps(k: int)
    ensures
        ({
            let steps = crate::categories::c19_multi_stream::operation_isolation_filters_round(
                k as u64,
            );
            &&& steps.len() == 2
            &&& crate::stage::fills(steps[0], 2, num(10000), lt(ix(), num(5000)))
            &&& crate::stage::demands(
                steps[1],
                Request::Filter { of: k as u64, mask: 2, into: after(20, k as u64) },
            )
        }),
{
}

/// The first `k` rounds of the part `filters` of `test_operation_isolation` ask what they should.
proof fn lemma_operation_isolation_filters_rounds(m: Moment, part: Seq<Step>, k: int) -> (n: Moment)
    requires
        0 <= k <= 5,
        m.holds(),
        m.at == 55,
        m.used == 15 + 1 * 0,
        m.at + 10 <= m.plan.steps.len(),
        part == crate::script::rounds(
            5,
            |k: int| crate::categories::c19_multi_stream::operation_isolation_filters_round(
                k as u64,
            ),
        ),
        forall|j: int| 0 <= j < 10 ==> m.plan.steps[55 + j] == #[trigger] part[j],
        forall|j: int|
            0 <= j < 5 ==> m.scene.buffer(
                (0 + j) as u64,
            ) == #[trigger] operation_isolation_buffers_table1(j),
    ensures
        n.holds(),
        n.plan == m.plan,
        n.answers == m.answers,
        n.at == 55 + 2 * k,
        n.used == 15 + 1 * k,
        forall|j: int|
            0 <= j < 5 ==> n.scene.buffer(
                (0 + j) as u64,
            ) == #[trigger] operation_isolation_buffers_table1(j),
        forall|j: int|
            0 <= j < k ==> n.scene.buffer(
                (20 + j) as u64,
            ) == #[trigger] operation_isolation_filters_kept1(j),
        forall|j: int|
            0 <= j < k ==> crate::stage::asks(
                m.plan,
                m.answers,
                15 + 1 * j,
                #[trigger] operation_isolation_filters_asks(j),
            ),
    decreases k,
{
    if k == 0 {
        m
    } else {
        let round = |k: int| crate::categories::c19_multi_stream::operation_isolation_filters_round(
            k as u64,
        );
        let before = lemma_operation_isolation_filters_rounds(m, part, k - 1);
        assert forall|j: int| 0 <= j < 2 implies m.plan.steps[before.at + j] == #[trigger] crate::categories::c19_multi_stream::operation_isolation_filters_round(
            (k - 1) as u64,
        )[j] by {
            assert forall|k: int| 0 <= k < 5 implies (#[trigger] round(k)).len() == 2 by {
                lemma_operation_isolation_filters_steps(k);
            }
            crate::stage::lemma_round_place(5, round, 2, k - 1, j);
            assert(part[(k - 1) * 2 + j] == round(k - 1)[j]);
        }
        lemma_operation_isolation_filters_steps(k - 1);
        lemma_operation_isolation_filters(
            before,
            crate::categories::c19_multi_stream::operation_isolation_filters_round((k - 1) as u64),
            k - 1,
        )
    }
}

/// What the device is asked in round `k` of the part `filtered` of `test_operation_isolation`.
pub open spec fn operation_isolation_filtered_asks(k: int) -> Seq<Ask> {
    seq![Ask::Words { of: operation_isolation_filters_kept1(k), column: 0, scalar: Scalar::U32 }]
}

/// Round `k` of the part `filtered` of `test_operation_isolation` asks what it should.
proof fn lemma_operation_isolation_filtered(m: Moment, steps: Seq<Step>, k: int) -> (n: Moment)
    requires
        0 <= k < 5,
        m.holds(),
        m.at == 65 + 3 * k,
        m.used == 20 + 1 * k,
        65 + 3 * k + 3 <= m.plan.steps.len(),
        forall|j: int| 0 <= j < 3 ==> m.plan.steps[65 + 3 * k + j] == #[trigger] steps[j],
        crate::stage::demands(
            steps[0],
            Request::Download { of: after(20, k as u64), column: 0, scalar: Scalar::U32, into: 1 },
        ),
        crate::stage::looks(steps[1]),
        crate::stage::looks(steps[2]),
        forall|j: int|
            0 <= j < 5 ==> m.scene.buffer(
                (20 + j) as u64,
            ) == #[trigger] operation_isolation_filters_kept1(j),
    ensures
        n.holds(),
        n.plan == m.plan,
        n.answers == m.answers,
        n.at == 65 + 3 * k + 3,
        n.used == m.used + 1,
        forall|j: int|
            0 <= j < 5 ==> n.scene.buffer(
                (20 + j) as u64,
            ) == #[trigger] operation_isolation_filters_kept1(j),
        crate::stage::asks(m.plan, m.answers, 20 + 1 * k, operation_isolation_filtered_asks(k)),
{
    crate::stage::lemma_full(m);
    crate::stage::lemma_asks_none(m, 20 + 1 * k);
    let list0 = Seq::<Ask>::empty();
    let m1 = crate::stage::lemma_download(
        m,
        steps[0],
        after(20, k as u64),
        0,
        Scalar::U32,
        1,
        operation_isolation_filters_kept1(k),
    );
    crate::stage::lemma_asks_more(
        m,
        20 + 1 * k,
        list0,
        Ask::Words { of: operation_isolation_filters_kept1(k), column: 0, scalar: Scalar::U32 },
    );
    let list1 = list0.push(
        Ask::Words { of: operation_isolation_filters_kept1(k), column: 0, scalar: Scalar::U32 },
    );
    let m2 = crate::stage::lemma_look(m1, steps[1]);
    let m3 = crate::stage::lemma_look(m2, steps[2]);
    assert(operation_isolation_filtered_asks(k) == list1);
    m3
}

/// The steps of the part `filtered` of `test_operation_isolation`.
proof fn lemma_operation_isolation_filtered_steps(k: int)
    ensures
        ({
            let steps = crate::categories::c19_multi_stream::operation_isolation_filtered_round(
                k as u64,
            );
            &&& steps.len() == 3
            &&& crate::stage::demands(
                steps[0],
                Request::Download {
                    of: after(20, k as u64),
                    column: 0,
                    scalar: Scalar::U32,
                    into: 1,
                },
            )
            &&& crate::stage::looks(steps[1])
            &&& crate::stage::looks(steps[2])
        }),
{
}

/// The first `k` rounds of the part `filtered` of `test_operation_isolation` ask what they should.
proof fn lemma_operation_isolation_filtered_rounds(
    m: Moment,
    part: Seq<Step>,
    k: int,
) -> (n: Moment)
    requires
        0 <= k <= 5,
        m.holds(),
        m.at == 65,
        m.used == 20 + 1 * 0,
        m.at + 15 <= m.plan.steps.len(),
        part == crate::script::rounds(
            5,
            |k: int| crate::categories::c19_multi_stream::operation_isolation_filtered_round(
                k as u64,
            ),
        ),
        forall|j: int| 0 <= j < 15 ==> m.plan.steps[65 + j] == #[trigger] part[j],
        forall|j: int|
            0 <= j < 5 ==> m.scene.buffer(
                (20 + j) as u64,
            ) == #[trigger] operation_isolation_filters_kept1(j),
    ensures
        n.holds(),
        n.plan == m.plan,
        n.answers == m.answers,
        n.at == 65 + 3 * k,
        n.used == 20 + 1 * k,
        forall|j: int|
            0 <= j < 5 ==> n.scene.buffer(
                (20 + j) as u64,
            ) == #[trigger] operation_isolation_filters_kept1(j),
        forall|j: int|
            0 <= j < k ==> crate::stage::asks(
                m.plan,
                m.answers,
                20 + 1 * j,
                #[trigger] operation_isolation_filtered_asks(j),
            ),
    decreases k,
{
    if k == 0 {
        m
    } else {
        let round = |k: int| crate::categories::c19_multi_stream::operation_isolation_filtered_round(
            k as u64,
        );
        let before = lemma_operation_isolation_filtered_rounds(m, part, k - 1);
        assert forall|j: int| 0 <= j < 3 implies m.plan.steps[before.at + j] == #[trigger] crate::categories::c19_multi_stream::operation_isolation_filtered_round(
            (k - 1) as u64,
        )[j] by {
            assert forall|k: int| 0 <= k < 5 implies (#[trigger] round(k)).len() == 3 by {
                lemma_operation_isolation_filtered_steps(k);
            }
            crate::stage::lemma_round_place(5, round, 3, k - 1, j);
            assert(part[(k - 1) * 3 + j] == round(k - 1)[j]);
        }
        lemma_operation_isolation_filtered_steps(k - 1);
        lemma_operation_isolation_filtered(
            before,
            crate::categories::c19_multi_stream::operation_isolation_filtered_round((k - 1) as u64),
            k - 1,
        )
    }
}

/// What the device is asked in the part `end` of `test_operation_isolation`.
pub open spec fn operation_isolation_end_asks() -> Seq<Ask> {
    seq![Ask::Other(Request::Sync)]
}

/// The part `end` of `test_operation_isolation` asks what it should.
proof fn lemma_operation_isolation_end(m: Moment, steps: Seq<Step>) -> (n: Moment)
    requires
        m.holds(),
        m.at == 80,
        m.used == 25,
        80 + 1 <= m.plan.steps.len(),
        forall|j: int| 0 <= j < 1 ==> m.plan.steps[80 + j] == #[trigger] steps[j],
        crate::stage::demands(steps[0], Request::Sync),
    ensures
        n.holds(),
        n.plan == m.plan,
        n.answers == m.answers,
        n.at == 80 + 1,
        n.used == m.used + 1,
        crate::stage::asks(m.plan, m.answers, 25, operation_isolation_end_asks()),
{
    crate::stage::lemma_full(m);
    crate::stage::lemma_asks_none(m, 25);
    let list0 = Seq::<Ask>::empty();
    let m1 = crate::stage::lemma_sync(m, steps[0]);
    crate::stage::lemma_asks_more(m, 25, list0, Ask::Other(Request::Sync));
    let list1 = list0.push(Ask::Other(Request::Sync));
    assert(operation_isolation_end_asks() == list1);
    m1
}

/// The steps of the part `end` of `test_operation_isolation`.
proof fn lemma_operation_isolation_end_steps()
    ensures
        ({
            let steps = crate::categories::c19_multi_stream::operation_isolation_end_steps();
            &&& steps.len() == 1
            &&& crate::stage::demands(steps[0], Request::Sync)
        }),
{
}

/// In a run of `test_operation_isolation` that passes the device is asked this, in this order, and
/// nothing else: each request about what an earlier one made is about that, and about what was
/// uploaded for it.
pub proof fn law_operation_isolation_asks_about_what_it_made(answers: Seq<Answer>)
    requires
        crate::stage::passes(
            crate::script::plan(
                "test_operation_isolation",
                crate::categories::c19_multi_stream::operation_isolation_steps(),
            ),
            answers,
        ),
    ensures
        forall|k: int|
            0 <= k < 5 ==> crate::stage::asks(
                crate::script::plan(
                    "test_operation_isolation",
                    crate::categories::c19_multi_stream::operation_isolation_steps(),
                ),
                answers,
                0 + 1 * k,
                #[trigger] operation_isolation_buffers_asks(k),
            ),
        forall|k: int|
            0 <= k < 5 ==> crate::stage::asks(
                crate::script::plan(
                    "test_operation_isolation",
                    crate::categories::c19_multi_stream::operation_isolation_steps(),
                ),
                answers,
                5 + 1 * k,
                #[trigger] operation_isolation_sorts_asks(k),
            ),
        forall|k: int|
            0 <= k < 5 ==> crate::stage::asks(
                crate::script::plan(
                    "test_operation_isolation",
                    crate::categories::c19_multi_stream::operation_isolation_steps(),
                ),
                answers,
                10 + 1 * k,
                #[trigger] operation_isolation_sorted_asks(k),
            ),
        forall|k: int|
            0 <= k < 5 ==> crate::stage::asks(
                crate::script::plan(
                    "test_operation_isolation",
                    crate::categories::c19_multi_stream::operation_isolation_steps(),
                ),
                answers,
                15 + 1 * k,
                #[trigger] operation_isolation_filters_asks(k),
            ),
        forall|k: int|
            0 <= k < 5 ==> crate::stage::asks(
                crate::script::plan(
                    "test_operation_isolation",
                    crate::categories::c19_multi_stream::operation_isolation_steps(),
                ),
                answers,
                20 + 1 * k,
                #[trigger] operation_isolation_filtered_asks(k),
            ),
        crate::stage::asks(
            crate::script::plan(
                "test_operation_isolation",
                crate::categories::c19_multi_stream::operation_isolation_steps(),
            ),
            answers,
            25,
            operation_isolation_end_asks(),
        ),
        crate::stage::asked(
            crate::script::plan(
                "test_operation_isolation",
                crate::categories::c19_multi_stream::operation_isolation_steps(),
            ),
            answers,
            26,
        ) is None,
{
    let plan = crate::script::plan(
        "test_operation_isolation",
        crate::categories::c19_multi_stream::operation_isolation_steps(),
    );
    let round1 = |k: int| crate::categories::c19_multi_stream::operation_isolation_buffers_round(
        k as u64,
    );
    let part1 = crate::script::rounds(5, round1);
    assert forall|k: int| 0 <= k < 5 implies (#[trigger] round1(k)).len() == 2 by {
        lemma_operation_isolation_buffers_steps(k);
    }
    crate::stage::lemma_rounds_length(5, round1, 2);
    let round2 = |k: int| crate::categories::c19_multi_stream::operation_isolation_sorts_round(
        k as u64,
    );
    let part2 = crate::script::rounds(5, round2);
    assert forall|k: int| 0 <= k < 5 implies (#[trigger] round2(k)).len() == 1 by {
        lemma_operation_isolation_sorts_steps(k);
    }
    crate::stage::lemma_rounds_length(5, round2, 1);
    let round3 = |k: int| crate::categories::c19_multi_stream::operation_isolation_sorted_round(
        k as u64,
    );
    let part3 = crate::script::rounds(5, round3);
    assert forall|k: int| 0 <= k < 5 implies (#[trigger] round3(k)).len() == 8 by {
        lemma_operation_isolation_sorted_steps(k);
    }
    crate::stage::lemma_rounds_length(5, round3, 8);
    let round4 = |k: int| crate::categories::c19_multi_stream::operation_isolation_filters_round(
        k as u64,
    );
    let part4 = crate::script::rounds(5, round4);
    assert forall|k: int| 0 <= k < 5 implies (#[trigger] round4(k)).len() == 2 by {
        lemma_operation_isolation_filters_steps(k);
    }
    crate::stage::lemma_rounds_length(5, round4, 2);
    let round5 = |k: int| crate::categories::c19_multi_stream::operation_isolation_filtered_round(
        k as u64,
    );
    let part5 = crate::script::rounds(5, round5);
    assert forall|k: int| 0 <= k < 5 implies (#[trigger] round5(k)).len() == 3 by {
        lemma_operation_isolation_filtered_steps(k);
    }
    crate::stage::lemma_rounds_length(5, round5, 3);
    let part6 = crate::categories::c19_multi_stream::operation_isolation_end_steps();
    lemma_operation_isolation_end_steps();
    let whole1 = part1;
    let whole2 = whole1 + part2;
    let whole3 = whole2 + part3;
    let whole4 = whole3 + part4;
    let whole5 = whole4 + part5;
    let whole6 = whole5 + part6;
    assert(plan.steps == whole6);
    let m0 = crate::stage::lemma_start(plan, answers);
    assert forall|j: int| 0 <= j < 10 implies plan.steps[0 + j] == #[trigger] part1[j] by {}
    let m1 = lemma_operation_isolation_buffers_rounds(m0, part1, 5);
    assert forall|j: int| 0 <= j < 5 implies plan.steps[10 + j] == #[trigger] part2[j] by {}
    let m2 = lemma_operation_isolation_sorts_rounds(m1, part2, 5);
    assert forall|j: int| 0 <= j < 40 implies plan.steps[15 + j] == #[trigger] part3[j] by {}
    let m3 = lemma_operation_isolation_sorted_rounds(m2, part3, 5);
    assert forall|j: int| 0 <= j < 10 implies plan.steps[55 + j] == #[trigger] part4[j] by {}
    let m4 = lemma_operation_isolation_filters_rounds(m3, part4, 5);
    assert forall|j: int| 0 <= j < 15 implies plan.steps[65 + j] == #[trigger] part5[j] by {}
    let m5 = lemma_operation_isolation_filtered_rounds(m4, part5, 5);
    assert forall|j: int| 0 <= j < 1 implies plan.steps[80 + j] == #[trigger] part6[j] by {}
    let m6 = lemma_operation_isolation_end(m5, part6);
    crate::stage::lemma_end(m6);
}

} // verus!
