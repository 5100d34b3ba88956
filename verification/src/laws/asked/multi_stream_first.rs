//! What these tests ask the device in runs that pass: `test_sequential_batch_operations`.

use vstd::prelude::*;
use crate::expr::{ix, modulo, num, plus, same_as, times};
use crate::machine::Answer;
use crate::scalar::Scalar;
use crate::script::{after, Layout, Request, Step};
use crate::stage::{Ask, Moment, Thing};

verus! {

/// A buffer that is uploaded in round `k` of the part `buffers` of
/// `test_sequential_batch_operations`.
pub open spec fn sequential_batch_operations_buffers_table1(k: int) -> Thing {
    Thing::Table {
        layout: Layout::Val,
        scalar: Scalar::U32,
        columns: seq![crate::stage::column(10000, |i: int| (((i * (k + 1)) * 17) + 13) % 100000)],
        turn: 0 + 1 * k,
    }
}

/// What is sorted in round `k` of the part `sorts` of `test_sequential_batch_operations`.
pub open spec fn sequential_batch_operations_sorts_sorted1(k: int) -> Thing {
    Thing::Sorted {
        of: Box::new(sequential_batch_operations_buffers_table1(k)),
        keys: 1,
        turn: 10 + 1 * k,
    }
}

/// What is kept in round `k` of the part `filters` of `test_sequential_batch_operations`.
pub open spec fn sequential_batch_operations_filters_kept1(k: int) -> Thing {
    Thing::Kept {
        of: Box::new(sequential_batch_operations_buffers_table1(k)),
        mask: crate::stage::column(10000, |i: int| crate::stage::flag((((i + k) % 3) == 0))),
        turn: 30 + 1 * k,
    }
}

/// What the device is asked in round `k` of the part `buffers` of
/// `test_sequential_batch_operations`.
pub open spec fn sequential_batch_operations_buffers_asks(k: int) -> Seq<Ask> {
    seq![Ask::Make(sequential_batch_operations_buffers_table1(k))]
}

/// Round `k` of the part `buffers` of `test_sequential_batch_operations` asks what it should.
proof fn lemma_sequential_batch_operations_buffers(
    m: Moment,
    steps: Seq<Step>,
    k: int,
) -> (n: Moment)
    requires
        0 <= k < 10,
        m.holds(),
        m.at == 0 + 2 * k,
        m.used == 0 + 1 * k,
        0 + 2 * k + 2 <= m.plan.steps.len(),
        forall|j: int| 0 <= j < 2 ==> m.plan.steps[0 + 2 * k + j] == #[trigger] steps[j],
        crate::stage::fills(
            steps[0],
            0,
            num(10000),
            modulo(
                plus(times(times(ix(), plus(num(k as u64), num(1))), num(17)), num(13)),
                num(100000),
            ),
        ),
        crate::stage::demands(
            steps[1],
            Request::Create { into: k as u64, layout: Layout::Val, scalar: Scalar::U32, from: 0 },
        ),
        forall|j: int|
            0 <= j < k ==> m.scene.buffer(
                (0 + j) as u64,
            ) == #[trigger] sequential_batch_operations_buffers_table1(j),
    ensures
        n.holds(),
        n.plan == m.plan,
        n.answers == m.answers,
        n.at == 0 + 2 * k + 2,
        n.used == m.used + 1,
        forall|j: int|
            0 <= j < k + 1 ==> n.scene.buffer(
                (0 + j) as u64,
            ) == #[trigger] sequential_batch_operations_buffers_table1(j),
        crate::stage::asks(
            m.plan,
            m.answers,
            0 + 1 * k,
            sequential_batch_operations_buffers_asks(k),
        ),
{
    crate::stage::lemma_full(m);
    crate::stage::lemma_asks_none(m, 0 + 1 * k);
    let list0 = Seq::<Ask>::empty();
    let words1 = crate::stage::column(10000, |i: int| (((i * (k + 1)) * 17) + 13) % 100000);
    let word1 = modulo(
        plus(times(times(ix(), plus(num(k as u64), num(1))), num(17)), num(13)),
        num(100000),
    );
    assert forall|i: int| 0 <= i < words1.len() implies crate::stage::meaning(
        word1,
        m.contents,
        i,
    ) as u64 == #[trigger] words1[i] by {
        reveal_with_fuel(crate::stage::meaning, 7);
    }
    let m1 = crate::stage::lemma_filled(m, steps[0], 0, num(10000), word1, words1);
    let m2 = crate::stage::lemma_create(
        m1,
        steps[1],
        k as u64,
        Layout::Val,
        Scalar::U32,
        0,
        sequential_batch_operations_buffers_table1(k),
    );
    crate::stage::lemma_asks_more(
        m,
        0 + 1 * k,
        list0,
        Ask::Make(sequential_batch_operations_buffers_table1(k)),
    );
    let list1 = list0.push(Ask::Make(sequential_batch_operations_buffers_table1(k)));
    assert(sequential_batch_operations_buffers_asks(k) == list1);
    m2
}

/// The steps of the part `buffers` of `test_sequential_batch_operations`.
proof fn lemma_sequential_batch_operations_buffers_steps(k: int)
    ensures
        ({
            let steps = crate::categories::c19_multi_stream::sequential_batch_operations_buffers_round(
                k as u64,
            );
            &&& steps.len() == 2
            &&& crate::stage::fills(
                steps[0],
                0,
                num(10000),
                modulo(
                    plus(times(times(ix(), plus(num(k as u64), num(1))), num(17)), num(13)),
                    num(100000),
                ),
            )
            &&& crate::stage::demands(
                steps[1],
                Request::Create {
                    into: k as u64,
                    layout: Layout::Val,
                    scalar: Scalar::U32,
                    from: 0,
                },
            )
        }),
{
}

/// The first `k` rounds of the part `buffers` of `test_sequential_batch_operations` ask what they
/// should.
proof fn lemma_sequential_batch_operations_buffers_rounds(
    m: Moment,
    part: Seq<Step>,
    k: int,
) -> (n: Moment)
    requires
        0 <= k <= 10,
        m.holds(),
        m.at == 0,
        m.used == 0 + 1 * 0,
        m.at + 20 <= m.plan.steps.len(),
        part == crate::script::rounds(
            10,
            |k: int| crate::categories::c19_multi_stream::sequential_batch_operations_buffers_round(
                k as u64,
            ),
        ),
        forall|j: int| 0 <= j < 20 ==> m.plan.steps[0 + j] == #[trigger] part[j],
    ensures
        n.holds(),
        n.plan == m.plan,
        n.answers == m.answers,
        n.at == 0 + 2 * k,
        n.used == 0 + 1 * k,
        forall|j: int|
            0 <= j < k ==> n.scene.buffer(
                (0 + j) as u64,
            ) == #[trigger] sequential_batch_operations_buffers_table1(j),
        forall|j: int|
            0 <= j < k ==> crate::stage::asks(
                m.plan,
                m.answers,
                0 + 1 * j,
                #[trigger] sequential_batch_operations_buffers_asks(j),
            ),
    decreases k,
{
    if k == 0 {
        m
    } else {
        let round = |k: int| crate::categories::c19_multi_stream::sequential_batch_operations_buffers_round(
            k as u64,
        );
        let before = lemma_sequential_batch_operations_buffers_rounds(m, part, k - 1);
        assert forall|j: int| 0 <= j < 2 implies m.plan.steps[before.at + j] == #[trigger] crate::categories::c19_multi_stream::sequential_batch_operations_buffers_round(
            (k - 1) as u64,
        )[j] by {
            assert forall|k: int| 0 <= k < 10 implies (#[trigger] round(k)).len() == 2 by {
                lemma_sequential_batch_operations_buffers_steps(k);
            }
            crate::stage::lemma_round_place(10, round, 2, k - 1, j);
            assert(part[(k - 1) * 2 + j] == round(k - 1)[j]);
        }
        lemma_sequential_batch_operations_buffers_steps(k - 1);
        lemma_sequential_batch_operations_buffers(
            before,
            crate::categories::c19_multi_stream::sequential_batch_operations_buffers_round(
                (k - 1) as u64,
            ),
            k - 1,
        )
    }
}

/// What the device is asked in round `k` of the part `sorts` of `test_sequential_batch_operations`.
pub open spec fn sequential_batch_operations_sorts_asks(k: int) -> Seq<Ask> {
    seq![Ask::Make(sequential_batch_operations_sorts_sorted1(k))]
}

/// Round `k` of the part `sorts` of `test_sequential_batch_operations` asks what it should.
proof fn lemma_sequential_batch_operations_sorts(m: Moment, steps: Seq<Step>, k: int) -> (n: Moment)
    requires
        0 <= k < 10,
        m.holds(),
        m.at == 20 + 1 * k,
        m.used == 10 + 1 * k,
        20 + 1 * k + 1 <= m.plan.steps.len(),
        forall|j: int| 0 <= j < 1 ==> m.plan.steps[20 + 1 * k + j] == #[trigger] steps[j],
        crate::stage::demands(
            steps[0],
            Request::Sort { of: k as u64, keys: 1, into: after(10, k as u64) },
        ),
        forall|j: int|
            0 <= j < 10 ==> m.scene.buffer(
                (0 + j) as u64,
            ) == #[trigger] sequential_batch_operations_buffers_table1(j),
        forall|j: int|
            0 <= j < k ==> m.scene.buffer(
                (10 + j) as u64,
            ) == #[trigger] sequential_batch_operations_sorts_sorted1(j),
    ensures
        n.holds(),
        n.plan == m.plan,
        n.answers == m.answers,
        n.at == 20 + 1 * k + 1,
        n.used == m.used + 1,
        forall|j: int|
            0 <= j < 10 ==> n.scene.buffer(
                (0 + j) as u64,
            ) == #[trigger] sequential_batch_operations_buffers_table1(j),
        forall|j: int|
            0 <= j < k + 1 ==> n.scene.buffer(
                (10 + j) as u64,
            ) == #[trigger] sequential_batch_operations_sorts_sorted1(j),
        crate::stage::asks(
            m.plan,
            m.answers,
            10 + 1 * k,
            sequential_batch_operations_sorts_asks(k),
        ),
{
    crate::stage::lemma_full(m);
    crate::stage::lemma_asks_none(m, 10 + 1 * k);
    let list0 = Seq::<Ask>::empty();
    let m1 = crate::stage::lemma_sort(
        m,
        steps[0],
        k as u64,
        1,
        after(10, k as u64),
        sequential_batch_operations_buffers_table1(k),
        sequential_batch_operations_sorts_sorted1(k),
    );
    crate::stage::lemma_asks_more(
        m,
        10 + 1 * k,
        list0,
        Ask::Make(sequential_batch_operations_sorts_sorted1(k)),
    );
    let list1 = list0.push(Ask::Make(sequential_batch_operations_sorts_sorted1(k)));
    assert(sequential_batch_operations_sorts_asks(k) == list1);
    m1
}

/// The steps of the part `sorts` of `test_sequential_batch_operations`.
proof fn lemma_sequential_batch_operations_sorts_steps(k: int)
    ensures
        ({
            let steps = crate::categories::c19_multi_stream::sequential_batch_operations_sorts_round(
                k as u64,
            );
            &&& steps.len() == 1
            &&& crate::stage::demands(
                steps[0],
                Request::Sort { of: k as u64, keys: 1, into: after(10, k as u64) },
            )
        }),
{
}

/// The first `k` rounds of the part `sorts` of `test_sequential_batch_operations` ask what they
/// should.
proof fn lemma_sequential_batch_operations_sorts_rounds(
    m: Moment,
    part: Seq<Step>,
    k: int,
) -> (n: Moment)
    requires
        0 <= k <= 10,
        m.holds(),
        m.at == 20,
        m.used == 10 + 1 * 0,
        m.at + 10 <= m.plan.steps.len(),
        part == crate::script::rounds(
            10,
            |k: int| crate::categories::c19_multi_stream::sequential_batch_operations_sorts_round(
                k as u64,
            ),
        ),
        forall|j: int| 0 <= j < 10 ==> m.plan.steps[20 + j] == #[trigger] part[j],
        forall|j: int|
            0 <= j < 10 ==> m.scene.buffer(
                (0 + j) as u64,
            ) == #[trigger] sequential_batch_operations_buffers_table1(j),
    ensures
        n.holds(),
        n.plan == m.plan,
        n.answers == m.answers,
        n.at == 20 + 1 * k,
        n.used == 10 + 1 * k,
        forall|j: int|
            0 <= j < 10 ==> n.scene.buffer(
                (0 + j) as u64,
            ) == #[trigger] sequential_batch_operations_buffers_table1(j),
        forall|j: int|
            0 <= j < k ==> n.scene.buffer(
                (10 + j) as u64,
            ) == #[trigger] sequential_batch_operations_sorts_sorted1(j),
        forall|j: int|
            0 <= j < k ==> crate::stage::asks(
                m.plan,
                m.answers,
                10 + 1 * j,
                #[trigger] sequential_batch_operations_sorts_asks(j),
            ),
    decreases k,
{
    if k == 0 {
        m
    } else {
        let round = |k: int| crate::categories::c19_multi_stream::sequential_batch_operations_sorts_round(
            k as u64,
        );
        let before = lemma_sequential_batch_operations_sorts_rounds(m, part, k - 1);
        assert forall|j: int| 0 <= j < 1 implies m.plan.steps[before.at + j] == #[trigger] crate::categories::c19_multi_stream::sequential_batch_operations_sorts_round(
            (k - 1) as u64,
        )[j] by {
            assert forall|k: int| 0 <= k < 10 implies (#[trigger] round(k)).len() == 1 by {
                lemma_sequential_batch_operations_sorts_steps(k);
            }
            crate::stage::lemma_round_place(10, round, 1, k - 1, j);
            assert(part[(k - 1) * 1 + j] == round(k - 1)[j]);
        }
        lemma_sequential_batch_operations_sorts_steps(k - 1);
        lemma_sequential_batch_operations_sorts(
            before,
            crate::categories::c19_multi_stream::sequential_batch_operations_sorts_round(
                (k - 1) as u64,
            ),
            k - 1,
        )
    }
}

/// What the device is asked in round `k` of the part `sorted` of
/// `test_sequential_batch_operations`.
pub open spec fn sequential_batch_operations_sorted_asks(k: int) -> Seq<Ask> {
    seq![
        Ask::Words {
            of: sequential_batch_operations_sorts_sorted1(k),
            column: 0,
            scalar: Scalar::U32,
        },
    ]
}

/// Round `k` of the part `sorted` of `test_sequential_batch_operations` asks what it should.
proof fn lemma_sequential_batch_operations_sorted(
    m: Moment,
    steps: Seq<Step>,
    k: int,
) -> (n: Moment)
    requires
        0 <= k < 10,
        m.holds(),
        m.at == 30 + 5 * k,
        m.used == 20 + 1 * k,
        30 + 5 * k + 5 <= m.plan.steps.len(),
        forall|j: int| 0 <= j < 5 ==> m.plan.steps[30 + 5 * k + j] == #[trigger] steps[j],
        crate::stage::demands(
            steps[0],
            Request::Download { of: after(10, k as u64), column: 0, scalar: Scalar::U32, into: 1 },
        ),
        crate::stage::looks(steps[1]),
        crate::stage::works(steps[2], 0),
        crate::stage::works(steps[3], 2),
        crate::stage::looks(steps[4]),
        forall|j: int|
            0 <= j < 10 ==> m.scene.buffer(
                (0 + j) as u64,
            ) == #[trigger] sequential_batch_operations_buffers_table1(j),
        forall|j: int|
            0 <= j < 10 ==> m.scene.buffer(
                (10 + j) as u64,
            ) == #[trigger] sequential_batch_operations_sorts_sorted1(j),
    ensures
        n.holds(),
        n.plan == m.plan,
        n.answers == m.answers,
        n.at == 30 + 5 * k + 5,
        n.used == m.used + 1,
        forall|j: int|
            0 <= j < 10 ==> n.scene.buffer(
                (0 + j) as u64,
            ) == #[trigger] sequential_batch_operations_buffers_table1(j),
        forall|j: int|
            0 <= j < 10 ==> n.scene.buffer(
                (10 + j) as u64,
            ) == #[trigger] sequential_batch_operations_sorts_sorted1(j),
        crate::stage::asks(
            m.plan,
            m.answers,
            20 + 1 * k,
            sequential_batch_operations_sorted_asks(k),
        ),
{
    crate::stage::lemma_full(m);
    crate::stage::lemma_asks_none(m, 20 + 1 * k);
    let list0 = Seq::<Ask>::empty();
    let m1 = crate::stage::lemma_download(
        m,
        steps[0],
        after(10, k as u64),
        0,
        Scalar::U32,
        1,
        sequential_batch_operations_sorts_sorted1(k),
    );
    crate::stage::lemma_asks_more(
        m,
        20 + 1 * k,
        list0,
        Ask::Words {
            of: sequential_batch_operations_sorts_sorted1(k),
            column: 0,
            scalar: Scalar::U32,
        },
    );
    let list1 = list0.push(
        Ask::Words {
            of: sequential_batch_operations_sorts_sorted1(k),
            column: 0,
            scalar: Scalar::U32,
        },
    );
    let m2 = crate::stage::lemma_look(m1, steps[1]);
    let m3 = crate::stage::lemma_work(m2, steps[2], 0);
    let m4 = crate::stage::lemma_work(m3, steps[3], 2);
    let m5 = crate::stage::lemma_look(m4, steps[4]);
    assert(sequential_batch_operations_sorted_asks(k) == list1);
    m5
}

/// The steps of the part `sorted` of `test_sequential_batch_operations`.
proof fn lemma_sequential_batch_operations_sorted_steps(k: int)
    ensures
        ({
            let steps = crate::categories::c19_multi_stream::sequential_batch_operations_sorted_round(
                k as u64,
            );
            &&& steps.len() == 5
            &&& crate::stage::demands(
                steps[0],
                Request::Download {
                    of: after(10, k as u64),
                    column: 0,
                    scalar: Scalar::U32,
                    into: 1,
                },
            )
            &&& crate::stage::looks(steps[1])
            &&& crate::stage::works(steps[2], 0)
            &&& crate::stage::works(steps[3], 2)
            &&& crate::stage::looks(steps[4])
        }),
{
}

/// The first `k` rounds of the part `sorted` of `test_sequential_batch_operations` ask what they
/// should.
proof fn lemma_sequential_batch_operations_sorted_rounds(
    m: Moment,
    part: Seq<Step>,
    k: int,
) -> (n: Moment)
    requires
        0 <= k <= 10,
        m.holds(),
        m.at == 30,
        m.used == 20 + 1 * 0,
        m.at + 50 <= m.plan.steps.len(),
        part == crate::script::rounds(
            10,
            |k: int| crate::categories::c19_multi_stream::sequential_batch_operations_sorted_round(
                k as u64,
            ),
        ),
        forall|j: int| 0 <= j < 50 ==> m.plan.steps[30 + j] == #[trigger] part[j],
        forall|j: int|
            0 <= j < 10 ==> m.scene.buffer(
                (0 + j) as u64,
            ) == #[trigger] sequential_batch_operations_buffers_table1(j),
        forall|j: int|
            0 <= j < 10 ==> m.scene.buffer(
                (10 + j) as u64,
            ) == #[trigger] sequential_batch_operations_sorts_sorted1(j),
    ensures
        n.holds(),
        n.plan == m.plan,
        n.answers == m.answers,
        n.at == 30 + 5 * k,
        n.used == 20 + 1 * k,
        forall|j: int|
            0 <= j < 10 ==> n.scene.buffer(
                (0 + j) as u64,
            ) == #[trigger] sequential_batch_operations_buffers_table1(j),
        forall|j: int|
            0 <= j < 10 ==> n.scene.buffer(
                (10 + j) as u64,
            ) == #[trigger] sequential_batch_operations_sorts_sorted1(j),
        forall|j: int|
            0 <= j < k ==> crate::stage::asks(
                m.plan,
                m.answers,
                20 + 1 * j,
                #[trigger] sequential_batch_operations_sorted_asks(j),
            ),
    decreases k,
{
    if k == 0 {
        m
    } else {
        let round = |k: int| crate::categories::c19_multi_stream::sequential_batch_operations_sorted_round(
            k as u64,
        );
        let before = lemma_sequential_batch_operations_sorted_rounds(m, part, k - 1);
        assert forall|j: int| 0 <= j < 5 implies m.plan.steps[before.at + j] == #[trigger] crate::categories::c19_multi_stream::sequential_batch_operations_sorted_round(
            (k - 1) as u64,
        )[j] by {
            assert forall|k: int| 0 <= k < 10 implies (#[trigger] round(k)).len() == 5 by {
                lemma_sequential_batch_operations_sorted_steps(k);
            }
            crate::stage::lemma_round_place(10, round, 5, k - 1, j);
            assert(part[(k - 1) * 5 + j] == round(k - 1)[j]);
        }
        lemma_sequential_batch_operations_sorted_steps(k - 1);
        lemma_sequential_batch_operations_sorted(
            before,
            crate::categories::c19_multi_stream::sequential_batch_operations_sorted_round(
                (k - 1) as u64,
            ),
            k - 1,
        )
    }
}

/// What the device is asked in round `k` of the part `filters` of
/// `test_sequential_batch_operations`.
pub open spec fn sequential_batch_operations_filters_asks(k: int) -> Seq<Ask> {
    seq![Ask::Make(sequential_batch_operations_filters_kept1(k))]
}

/// Round `k` of the part `filters` of `test_sequential_batch_operations` asks what it should.
proof fn lemma_sequential_batch_operations_filters(
    m: Moment,
    steps: Seq<Step>,
    k: int,
) -> (n: Moment)
    requires
        0 <= k < 10,
        m.holds(),
        m.at == 80 + 2 * k,
        m.used == 30 + 1 * k,
        80 + 2 * k + 2 <= m.plan.steps.len(),
        forall|j: int| 0 <= j < 2 ==> m.plan.steps[80 + 2 * k + j] == #[trigger] steps[j],
        crate::stage::fills(
            steps[0],
            3,
            num(10000),
            same_as(modulo(plus(ix(), num(k as u64)), num(3)), num(0)),
        ),
        crate::stage::demands(
            steps[1],
            Request::Filter { of: k as u64, mask: 3, into: after(20, k as u64) },
        ),
        forall|j: int|
            0 <= j < 10 ==> m.scene.buffer(
                (0 + j) as u64,
            ) == #[trigger] sequential_batch_operations_buffers_table1(j),
        forall|j: int|
            0 <= j < k ==> m.scene.buffer(
                (20 + j) as u64,
            ) == #[trigger] sequential_batch_operations_filters_kept1(j),
    ensures
        n.holds(),
        n.plan == m.plan,
        n.answers == m.answers,
        n.at == 80 + 2 * k + 2,
        n.used == m.used + 1,
        forall|j: int|
            0 <= j < 10 ==> n.scene.buffer(
                (0 + j) as u64,
            ) == #[trigger] sequential_batch_operations_buffers_table1(j),
        forall|j: int|
            0 <= j < k + 1 ==> n.scene.buffer(
                (20 + j) as u64,
            ) == #[trigger] sequential_batch_operations_filters_kept1(j),
        crate::stage::asks(
            m.plan,
            m.answers,
            30 + 1 * k,
            sequential_batch_operations_filters_asks(k),
        ),
{
    crate::stage::lemma_full(m);
    crate::stage::lemma_asks_none(m, 30 + 1 * k);
    let list0 = Seq::<Ask>::empty();
    let words1 = crate::stage::column(10000, |i: int| crate::stage::flag((((i + k) % 3) == 0)));
    let word1 = same_as(modulo(plus(ix(), num(k as u64)), num(3)), num(0));
    assert forall|i: int| 0 <= i < words1.len() implies crate::stage::meaning(
        word1,
        m.contents,
        i,
    ) as u64 == #[trigger] words1[i] by {
        reveal_with_fuel(crate::stage::meaning, 5);
    }
    let m1 = crate::stage::lemma_filled(m, steps[0], 3, num(10000), word1, words1);
    let m2 = crate::stage::lemma_filter(
        m1,
        steps[1],
        k as u64,
        3,
        after(20, k as u64),
        sequential_batch_operations_buffers_table1(k),
        words1,
        sequential_batch_operations_filters_kept1(k),
    );
    crate::stage::lemma_asks_more(
        m,
        30 + 1 * k,
        list0,
        Ask::Make(sequential_batch_operations_filters_kept1(k)),
    );
    let list1 = list0.push(Ask::Make(sequential_batch_operations_filters_kept1(k)));
    assert(sequential_batch_operations_filters_asks(k) == list1);
    m2
}

/// The steps of the part `filters` of `test_sequential_batch_operations`.
proof fn lemma_sequential_batch_operations_filters_steps(k: int)
    ensures
        ({
            let steps = crate::categories::c19_multi_stream::sequential_batch_operations_filters_round(
                k as u64,
            );
            &&& steps.len() == 2
            &&& crate::stage::fills(
                steps[0],
                3,
                num(10000),
                same_as(modulo(plus(ix(), num(k as u64)), num(3)), num(0)),
            )
            &&& crate::stage::demands(
                steps[1],
                Request::Filter { of: k as u64, mask: 3, into: after(20, k as u64) },
            )
        }),
{
}

/// The first `k` rounds of the part `filters` of `test_sequential_batch_operations` ask what they
/// should.
proof fn lemma_sequential_batch_operations_filters_rounds(
    m: Moment,
    part: Seq<Step>,
    k: int,
) -> (n: Moment)
    requires
        0 <= k <= 10,
        m.holds(),
        m.at == 80,
        m.used == 30 + 1 * 0,
        m.at + 20 <= m.plan.steps.len(),
        part == crate::script::rounds(
            10,
            |k: int| crate::categories::c19_multi_stream::sequential_batch_operations_filters_round(
                k as u64,
            ),
        ),
        forall|j: int| 0 <= j < 20 ==> m.plan.steps[80 + j] == #[trigger] part[j],
        forall|j: int|
            0 <= j < 10 ==> m.scene.buffer(
                (0 + j) as u64,
            ) == #[trigger] sequential_batch_operations_buffers_table1(j),
    ensures
        n.holds(),
        n.plan == m.plan,
        n.answers == m.answers,
        n.at == 80 + 2 * k,
        n.used == 30 + 1 * k,
        forall|j: int|
            0 <= j < 10 ==> n.scene.buffer(
                (0 + j) as u64,
            ) == #[trigger] sequential_batch_operations_buffers_table1(j),
        forall|j: int|
            0 <= j < k ==> n.scene.buffer(
                (20 + j) as u64,
            ) == #[trigger] sequential_batch_operations_filters_kept1(j),
        forall|j: int|
            0 <= j < k ==> crate::stage::asks(
                m.plan,
                m.answers,
                30 + 1 * j,
                #[trigger] sequential_batch_operations_filters_asks(j),
            ),
    decreases k,
{
    if k == 0 {
        m
    } else {
        let round = |k: int| crate::categories::c19_multi_stream::sequential_batch_operations_filters_round(
            k as u64,
        );
        let before = lemma_sequential_batch_operations_filters_rounds(m, part, k - 1);
        assert forall|j: int| 0 <= j < 2 implies m.plan.steps[before.at + j] == #[trigger] crate::categories::c19_multi_stream::sequential_batch_operations_filters_round(
            (k - 1) as u64,
        )[j] by {
            assert forall|k: int| 0 <= k < 10 implies (#[trigger] round(k)).len() == 2 by {
                lemma_sequential_batch_operations_filters_steps(k);
            }
            crate::stage::lemma_round_place(10, round, 2, k - 1, j);
            assert(part[(k - 1) * 2 + j] == round(k - 1)[j]);
        }
        lemma_sequential_batch_operations_filters_steps(k - 1);
        lemma_sequential_batch_operations_filters(
            before,
            crate::categories::c19_multi_stream::sequential_batch_operations_filters_round(
                (k - 1) as u64,
            ),
            k - 1,
        )
    }
}

/// What the device is asked in round `k` of the part `filtered` of
/// `test_sequential_batch_operations`.
pub open spec fn sequential_batch_operations_filtered_asks(k: int) -> Seq<Ask> {
    seq![Ask::Rows(sequential_batch_operations_filters_kept1(k))]
}

/// Round `k` of the part `filtered` of `test_sequential_batch_operations` asks what it should.
proof fn lemma_sequential_batch_operations_filtered(
    m: Moment,
    steps: Seq<Step>,
    k: int,
) -> (n: Moment)
    requires
        0 <= k < 10,
        m.holds(),
        m.at == 100 + 3 * k,
        m.used == 40 + 1 * k,
        100 + 3 * k + 3 <= m.plan.steps.len(),
        forall|j: int| 0 <= j < 3 ==> m.plan.steps[100 + 3 * k + j] == #[trigger] steps[j],
        crate::stage::works(steps[0], 3),
        crate::stage::reckons(steps[1], 0),
        crate::stage::counts(steps[2], after(20, k as u64)),
        forall|j: int|
            0 <= j < 10 ==> m.scene.buffer(
                (20 + j) as u64,
            ) == #[trigger] sequential_batch_operations_filters_kept1(j),
    ensures
        n.holds(),
        n.plan == m.plan,
        n.answers == m.answers,
        n.at == 100 + 3 * k + 3,
        n.used == m.used + 1,
        forall|j: int|
            0 <= j < 10 ==> n.scene.buffer(
                (20 + j) as u64,
            ) == #[trigger] sequential_batch_operations_filters_kept1(j),
        crate::stage::asks(
            m.plan,
            m.answers,
            40 + 1 * k,
            sequential_batch_operations_filtered_asks(k),
        ),
{
    crate::stage::lemma_full(m);
    crate::stage::lemma_asks_none(m, 40 + 1 * k);
    let list0 = Seq::<Ask>::empty();
    let m1 = crate::stage::lemma_work(m, steps[0], 3);
    let m2 = crate::stage::lemma_reckon(m1, steps[1], 0);
    let m3 = crate::stage::lemma_count(
        m2,
        steps[2],
        after(20, k as u64),
        sequential_batch_operations_filters_kept1(k),
    );
    crate::stage::lemma_asks_more(
        m,
        40 + 1 * k,
        list0,
        Ask::Rows(sequential_batch_operations_filters_kept1(k)),
    );
    let list1 = list0.push(Ask::Rows(sequential_batch_operations_filters_kept1(k)));
    assert(sequential_batch_operations_filtered_asks(k) == list1);
    m3
}

/// The steps of the part `filtered` of `test_sequential_batch_operations`.
proof fn lemma_sequential_batch_operations_filtered_steps(k: int)
    ensures
        ({
            let steps = crate::categories::c19_multi_stream::sequential_batch_operations_filtered_round(
                k as u64,
            );
            &&& steps.len() == 3
            &&& crate::stage::works(steps[0], 3)
            &&& crate::stage::reckons(steps[1], 0)
            &&& crate::stage::counts(steps[2], after(20, k as u64))
        }),
{
}

/// The first `k` rounds of the part `filtered` of `test_sequential_batch_operations` ask what they
/// should.
proof fn lemma_sequential_batch_operations_filtered_rounds(
    m: Moment,
    part: Seq<Step>,
    k: int,
) -> (n: Moment)
    requires
        0 <= k <= 10,
        m.holds(),
        m.at == 100,
        m.used == 40 + 1 * 0,
        m.at + 30 <= m.plan.steps.len(),
        part == crate::script::rounds(
            10,
            |k: int| crate::categories::c19_multi_stream::sequential_batch_operations_filtered_round(
                k as u64,
            ),
        ),
        forall|j: int| 0 <= j < 30 ==> m.plan.steps[100 + j] == #[trigger] part[j],
        forall|j: int|
            0 <= j < 10 ==> m.scene.buffer(
                (20 + j) as u64,
            ) == #[trigger] sequential_batch_operations_filters_kept1(j),
    ensures
        n.holds(),
        n.plan == m.plan,
        n.answers == m.answers,
        n.at == 100 + 3 * k,
        n.used == 40 + 1 * k,
        forall|j: int|
            0 <= j < 10 ==> n.scene.buffer(
                (20 + j) as u64,
            ) == #[trigger] sequential_batch_operations_filters_kept1(j),
        forall|j: int|
            0 <= j < k ==> crate::stage::asks(
                m.plan,
                m.answers,
                40 + 1 * j,
                #[trigger] sequential_batch_operations_filtered_asks(j),
            ),
    decreases k,
{
    if k == 0 {
        m
    } else {
        let round = |k: int| crate::categories::c19_multi_stream::sequential_batch_operations_filtered_round(
            k as u64,
        );
        let before = lemma_sequential_batch_operations_filtered_rounds(m, part, k - 1);
        assert forall|j: int| 0 <= j < 3 implies m.plan.steps[before.at + j] == #[trigger] crate::categories::c19_multi_stream::sequential_batch_operations_filtered_round(
            (k - 1) as u64,
        )[j] by {
            assert forall|k: int| 0 <= k < 10 implies (#[trigger] round(k)).len() == 3 by {
                lemma_sequential_batch_operations_filtered_steps(k);
            }
            crate::stage::lemma_round_place(10, round, 3, k - 1, j);
            assert(part[(k - 1) * 3 + j] == round(k - 1)[j]);
        }
        lemma_sequential_batch_operations_filtered_steps(k - 1);
        lemma_sequential_batch_operations_filtered(
            before,
            crate::categories::c19_multi_stream::sequential_batch_operations_filtered_round(
                (k - 1) as u64,
            ),
            k - 1,
        )
    }
}

/// What the device is asked in the part `end` of `test_sequential_batch_operations`.
pub open spec fn sequential_batch_operations_end_asks() -> Seq<Ask> {
    seq![Ask::Other(Request::Sync)]
}

/// The part `end` of `test_sequential_batch_operations` asks what it should.
proof fn lemma_sequential_batch_operations_end(m: Moment, steps: Seq<Step>) -> (n: Moment)
    requires
        m.holds(),
        m.at == 130,
        m.used == 50,
        130 + 1 <= m.plan.steps.len(),
        forall|j: int| 0 <= j < 1 ==> m.plan.steps[130 + j] == #[trigger] steps[j],
        crate::stage::demands(steps[0], Request::Sync),
    ensures
        n.holds(),
        n.plan == m.plan,
        n.answers == m.answers,
        n.at == 130 + 1,
        n.used == m.used + 1,
        crate::stage::asks(m.plan, m.answers, 50, sequential_batch_operations_end_asks()),
{
    crate::stage::lemma_full(m);
    crate::stage::lemma_asks_none(m, 50);
    let list0 = Seq::<Ask>::empty();
    let m1 = crate::stage::lemma_sync(m, steps[0]);
    crate::stage::lemma_asks_more(m, 50, list0, Ask::Other(Request::Sync));
    let list1 = list0.push(Ask::Other(Request::Sync));
    assert(sequential_batch_operations_end_asks() == list1);
    m1
}

/// The steps of the part `end` of `test_sequential_batch_operations`.
proof fn lemma_sequential_batch_operations_end_steps()
    ensures
        ({
            let steps = crate::categories::c19_multi_stream::sequential_batch_operations_end_steps();
            &&& steps.len() == 1
            &&& crate::stage::demands(steps[0], Request::Sync)
        }),
{
}

/// In a run of `test_sequential_batch_operations` that passes the device is asked this, in this
/// order, and nothing else: each request about what an earlier one made is about that, and about
/// what was uploaded for it.
pub proof fn law_sequential_batch_operations_asks_about_what_it_made(answers: Seq<Answer>)
    requires
        crate::stage::passes(
            crate::script::plan(
                "test_sequential_batch_operations",
                crate::categories::c19_multi_stream::sequential_batch_operations_steps(),
            ),
            answers,
        ),
    ensures
        forall|k: int|
            0 <= k < 10 ==> crate::stage::asks(
                crate::script::plan(
                    "test_sequential_batch_operations",
                    crate::categories::c19_multi_stream::sequential_batch_operations_steps(),
                ),
                answers,
                0 + 1 * k,
                #[trigger] sequential_batch_operations_buffers_asks(k),
            ),
        forall|k: int|
            0 <= k < 10 ==> crate::stage::asks(
                crate::script::plan(
                    "test_sequential_batch_operations",
                    crate::categories::c19_multi_stream::sequential_batch_operations_steps(),
                ),
                answers,
                10 + 1 * k,
                #[trigger] sequential_batch_operations_sorts_asks(k),
            ),
        forall|k: int|
            0 <= k < 10 ==> crate::stage::asks(
                crate::script::plan(
                    "test_sequential_batch_operations",
                    crate::categories::c19_multi_stream::sequential_batch_operations_steps(),
                ),
                answers,
                20 + 1 * k,
                #[trigger] sequential_batch_operations_sorted_asks(k),
            ),
        forall|k: int|
            0 <= k < 10 ==> crate::stage::asks(
                crate::script::plan(
                    "test_sequential_batch_operations",
                    crate::categories::c19_multi_stream::sequential_batch_operations_steps(),
                ),
                answers,
                30 + 1 * k,
                #[trigger] sequential_batch_operations_filters_asks(k),
            ),
        forall|k: int|
            0 <= k < 10 ==> crate::stage::asks(
                crate::script::plan(
                    "test_sequential_batch_operations",
                    crate::categories::c19_multi_stream::sequential_batch_operations_steps(),
                ),
                answers,
                40 + 1 * k,
                #[trigger] sequential_batch_operations_filtered_asks(k),
            ),
        crate::stage::asks(
            crate::script::plan(
                "test_sequential_batch_operations",
                crate::categories::c19_multi_stream::sequential_batch_operations_steps(),
            ),
            answers,
            50,
            sequential_batch_operations_end_asks(),
        ),
        crate::stage::asked(
            crate::script::plan(
                "test_sequential_batch_operations",
                crate::categories::c19_multi_stream::sequential_batch_operations_steps(),
            ),
            answers,
            51,
        ) is None,
{
    let plan = crate::script::plan(
        "test_sequential_batch_operations",
        crate::categories::c19_multi_stream::sequential_batch_operations_steps(),
    );
    let round1 = |k: int| crate::categories::c19_multi_stream::sequential_batch_operations_buffers_round(
        k as u64,
    );
    let part1 = crate::script::rounds(10, round1);
    assert forall|k: int| 0 <= k < 10 implies (#[trigger] round1(k)).len() == 2 by {
        lemma_sequential_batch_operations_buffers_steps(k);
    }
    crate::stage::lemma_rounds_length(10, round1, 2);
    let round2 = |k: int| crate::categories::c19_multi_stream::sequential_batch_operations_sorts_round(
        k as u64,
    );
    let part2 = crate::script::rounds(10, round2);
    assert forall|k: int| 0 <= k < 10 implies (#[trigger] round2(k)).len() == 1 by {
        lemma_sequential_batch_operations_sorts_steps(k);
    }
    crate::stage::lemma_rounds_length(10, round2, 1);
    let round3 = |k: int| crate::categories::c19_multi_stream::sequential_batch_operations_sorted_round(
        k as u64,
    );
    let part3 = crate::script::rounds(10, round3);
    assert forall|k: int| 0 <= k < 10 implies (#[trigger] round3(k)).len() == 5 by {
        lemma_sequential_batch_operations_sorted_steps(k);
    }
    crate::stage::lemma_rounds_length(10, round3, 5);
    let round4 = |k: int| crate::categories::c19_multi_stream::sequential_batch_operations_filters_round(
        k as u64,
    );
    let part4 = crate::script::rounds(10, round4);
    assert forall|k: int| 0 <= k < 10 implies (#[trigger] round4(k)).len() == 2 by {
        lemma_sequential_batch_operations_filters_steps(k);
    }
    crate::stage::lemma_rounds_length(10, round4, 2);
    let round5 = |k: int| crate::categories::c19_multi_stream::sequential_batch_operations_filtered_round(
        k as u64,
    );
    let part5 = crate::script::rounds(10, round5);
    assert forall|k: int| 0 <= k < 10 implies (#[trigger] round5(k)).len() == 3 by {
        lemma_sequential_batch_operations_filtered_steps(k);
    }
    crate::stage::lemma_rounds_length(10, round5, 3);
    let part6 = crate::categories::c19_multi_stream::sequential_batch_operations_end_steps();
    lemma_sequential_batch_operations_end_steps();
    let whole1 = part1;
    let whole2 = whole1 + part2;
    let whole3 = whole2 + part3;
    let whole4 = whole3 + part4;
    let whole5 = whole4 + part5;
    let whole6 = whole5 + part6;
    assert(plan.steps == whole6);
    let m0 = crate::stage::lemma_start(plan, answers);
    assert forall|j: int| 0 <= j < 20 implies plan.steps[0 + j] == #[trigger] part1[j] by {}
    let m1 = lemma_sequential_batch_operations_buffers_rounds(m0, part1, 10);
    assert forall|j: int| 0 <= j < 10 implies plan.steps[20 + j] == #[trigger] part2[j] by {}
    let m2 = lemma_sequential_batch_operations_sorts_rounds(m1, part2, 10);
    assert forall|j: int| 0 <= j < 50 implies plan.steps[30 + j] == #[trigger] part3[j] by {}
    let m3 = lemma_sequential_batch_operations_sorted_rounds(m2, part3, 10);
    assert forall|j: int| 0 <= j < 20 implies plan.steps[80 + j] == #[trigger] part4[j] by {}
    let m4 = lemma_sequential_batch_operations_filters_rounds(m3, part4, 10);
    assert forall|j: int| 0 <= j < 30 implies plan.steps[100 + j] == #[trigger] part5[j] by {}
    let m5 = lemma_sequential_batch_operations_filtered_rounds(m4, part5, 10);
    assert forall|j: int| 0 <= j < 1 implies plan.steps[130 + j] == #[trigger] part6[j] by {}
    let m6 = lemma_sequential_batch_operations_end(m5, part6);
    crate::stage::lemma_end(m6);
}

} // verus!
