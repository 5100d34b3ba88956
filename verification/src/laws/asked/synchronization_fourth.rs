//! What these tests ask the device in runs that pass: `test_concurrent_operations`.

use vstd::prelude::*;
use crate::expr::{ix, lt, modulo, num, plus, same_as, times};
use crate::machine::Answer;
use crate::scalar::Scalar;
use crate::script::{after, Layout, Request, Step};
use crate::stage::{Ask, Moment, Thing};

verus! {

/// A buffer that is uploaded in round `k` of the part `buffers` of `test_concurrent_operations`.
pub open spec fn concurrent_operations_buffers_table1(k: int) -> Thing {
    Thing::Table {
        layout: Layout::Val,
        scalar: Scalar::U32,
        columns: seq![
            crate::stage::column(10000, |i: int| (((i * (k + 1)) * 7) + (k * 13)) % 10000),
        ],
        turn: 0 + 1 * k,
    }
}

/// What is sorted in the part `operations` of `test_concurrent_operations`.
pub open spec fn concurrent_operations_operations_sorted1() -> Thing {
    Thing::Sorted { of: Box::new(concurrent_operations_buffers_table1(0)), keys: 1, turn: 5 }
}

/// What is kept in the part `operations` of `test_concurrent_operations`.
pub open spec fn concurrent_operations_operations_kept1() -> Thing {
    Thing::Kept {
        of: Box::new(concurrent_operations_buffers_table1(1)),
        mask: crate::stage::column(10000, |i: int| crate::stage::flag((i < 5000))),
        turn: 6,
    }
}

/// What is sorted in the part `operations` of `test_concurrent_operations`.
pub open spec fn concurrent_operations_operations_sorted2() -> Thing {
    Thing::Sorted { of: Box::new(concurrent_operations_buffers_table1(2)), keys: 1, turn: 7 }
}

/// What is kept in the part `operations` of `test_concurrent_operations`.
pub open spec fn concurrent_operations_operations_kept2() -> Thing {
    Thing::Kept {
        of: Box::new(concurrent_operations_buffers_table1(3)),
        mask: crate::stage::column(10000, |i: int| crate::stage::flag(((i % 2) == 0))),
        turn: 8,
    }
}

/// What is sorted in the part `operations` of `test_concurrent_operations`.
pub open spec fn concurrent_operations_operations_sorted3() -> Thing {
    Thing::Sorted { of: Box::new(concurrent_operations_buffers_table1(4)), keys: 1, turn: 9 }
}

/// What the device is asked in round `k` of the part `buffers` of `test_concurrent_operations`.
pub open spec fn concurrent_operations_buffers_asks(k: int) -> Seq<Ask> {
    seq![Ask::Make(concurrent_operations_buffers_table1(k))]
}

/// Round `k` of the part `buffers` of `test_concurrent_operations` asks what it should.
proof fn lemma_concurrent_operations_buffers(m: Moment, steps: Seq<Step>, k: int) -> (n: Moment)
    requires
        0 <= k < 5,
        m.holds(),
        m.at == 0 + 2 * k,
        m.used == 0 + 1 * k,
        0 + 2 * k + 2 <= m.plan.steps.len(),
        forall|j: int| 0 <= j < 2 ==> m.plan.steps[0 + 2 * k + j] == #[trigger] steps[j],
        crate::stage::fills(
            steps[0],
            0,
            num(10000),
            modulo(
                plus(
                    times(times(ix(), plus(num(k as u64), num(1))), num(7)),
                    times(num(k as u64), num(13)),
                ),
                num(10000),
            ),
        ),
        crate::stage::demands(
            steps[1],
            Request::Create { into: k as u64, layout: Layout::Val, scalar: Scalar::U32, from: 0 },
        ),
        forall|j: int|
            0 <= j < k ==> m.scene.buffer(
                (0 + j) as u64,
            ) == #[trigger] concurrent_operations_buffers_table1(j),
    ensures
        n.holds(),
        n.plan == m.plan,
        n.answers == m.answers,
        n.at == 0 + 2 * k + 2,
        n.used == m.used + 1,
        forall|j: int|
            0 <= j < k + 1 ==> n.scene.buffer(
                (0 + j) as u64,
            ) == #[trigger] concurrent_operations_buffers_table1(j),
        crate::stage::asks(m.plan, m.answers, 0 + 1 * k, concurrent_operations_buffers_asks(k)),
{
    crate::stage::lemma_full(m);
    crate::stage::lemma_asks_none(m, 0 + 1 * k);
    let list0 = Seq::<Ask>::empty();
    let words1 = crate::stage::column(10000, |i: int| (((i * (k + 1)) * 7) + (k * 13)) % 10000);
    let word1 = modulo(
        plus(
            times(times(ix(), plus(num(k as u64), num(1))), num(7)),
            times(num(k as u64), num(13)),
        ),
        num(10000),
    );
    assert forall|i: int| 0 <= i < words1.len() implies crate::stage::meaning(
        word1,
        m.contents,
        i,
    ) as u64 == #[trigger] words1[i] by {
        reveal_with_fuel(crate::stage::meaning, 7);
    }
    let m1 = crate::stage::lemma_filled(m, steps[0], 0, num(10000), word1, words1);
    let m2 = crate::stage::lemma_create(
        m1,
        steps[1],
        k as u64,
        Layout::Val,
        Scalar::U32,
        0,
        concurrent_operations_buffers_table1(k),
    );
    crate::stage::lemma_asks_more(
        m,
        0 + 1 * k,
        list0,
        Ask::Make(concurrent_operations_buffers_table1(k)),
    );
    let list1 = list0.push(Ask::Make(concurrent_operations_buffers_table1(k)));
    assert(concurrent_operations_buffers_asks(k) == list1);
    m2
}

/// The steps of the part `buffers` of `test_concurrent_operations`.
proof fn lemma_concurrent_operations_buffers_steps(k: int)
    ensures
        ({
            let steps = crate::categories::c08_synchronization::concurrent_operations_buffers_round(
                k as u64,
            );
            &&& steps.len() == 2
            &&& crate::stage::fills(
                steps[0],
                0,
                num(10000),
                modulo(
                    plus(
                        times(times(ix(), plus(num(k as u64), num(1))), num(7)),
                        times(num(k as u64), num(13)),
                    ),
                    num(10000),
                ),
            )
            &&& crate::stage::demands(
                steps[1],
                Request::Create {
                    into: k as u64,
                    layout: Layout::Val,
                    scalar: Scalar::U32,
                    from: 0,
                },
            )
        }),
{
}

/// The first `k` rounds of the part `buffers` of `test_concurrent_operations` ask what they should.
proof fn lemma_concurrent_operations_buffers_rounds(
    m: Moment,
    part: Seq<Step>,
    k: int,
) -> (n: Moment)
    requires
        0 <= k <= 5,
        m.holds(),
        m.at == 0,
        m.used == 0 + 1 * 0,
        m.at + 10 <= m.plan.steps.len(),
        part == crate::script::rounds(
            5,
            |k: int| crate::categories::c08_synchronization::concurrent_operations_buffers_round(
                k as u64,
            ),
        ),
        forall|j: int| 0 <= j < 10 ==> m.plan.steps[0 + j] == #[trigger] part[j],
    ensures
        n.holds(),
        n.plan == m.plan,
        n.answers == m.answers,
        n.at == 0 + 2 * k,
        n.used == 0 + 1 * k,
        forall|j: int|
            0 <= j < k ==> n.scene.buffer(
                (0 + j) as u64,
            ) == #[trigger] concurrent_operations_buffers_table1(j),
        forall|j: int|
            0 <= j < k ==> crate::stage::asks(
                m.plan,
                m.answers,
                0 + 1 * j,
                #[trigger] concurrent_operations_buffers_asks(j),
            ),
    decreases k,
{
    if k == 0 {
        m
    } else {
        let round = |k: int| crate::categories::c08_synchronization::concurrent_operations_buffers_round(
            k as u64,
        );
        let before = lemma_concurrent_operations_buffers_rounds(m, part, k - 1);
        assert forall|j: int| 0 <= j < 2 implies m.plan.steps[before.at + j] == #[trigger] crate::categories::c08_synchronization::concurrent_operations_buffers_round(
            (k - 1) as u64,
        )[j] by {
            assert forall|k: int| 0 <= k < 5 implies (#[trigger] round(k)).len() == 2 by {
                lemma_concurrent_operations_buffers_steps(k);
            }
            crate::stage::lemma_round_place(5, round, 2, k - 1, j);
            assert(part[(k - 1) * 2 + j] == round(k - 1)[j]);
        }
        lemma_concurrent_operations_buffers_steps(k - 1);
        lemma_concurrent_operations_buffers(
            before,
            crate::categories::c08_synchronization::concurrent_operations_buffers_round(
                (k - 1) as u64,
            ),
            k - 1,
        )
    }
}

/// What the device is asked in the part `operations` of `test_concurrent_operations`.
pub open spec fn concurrent_operations_operations_asks() -> Seq<Ask> {
    seq![
        Ask::Make(concurrent_operations_operations_sorted1()),
        Ask::Make(concurrent_operations_operations_kept1()),
        Ask::Make(concurrent_operations_operations_sorted2()),
        Ask::Make(concurrent_operations_operations_kept2()),
        Ask::Make(concurrent_operations_operations_sorted3()),
    ]
}

/// The part `operations` of `test_concurrent_operations` asks what it should.
proof fn lemma_concurrent_operations_operations(m: Moment, steps: Seq<Step>) -> (n: Moment)
    requires
        m.holds(),
        m.at == 10,
        m.used == 5,
        10 + 7 <= m.plan.steps.len(),
        forall|j: int| 0 <= j < 7 ==> m.plan.steps[10 + j] == #[trigger] steps[j],
        crate::stage::demands(steps[0], Request::Sort { of: 0, keys: 1, into: 10 }),
        crate::stage::fills(steps[1], 1, num(10000), lt(ix(), num(5000))),
        crate::stage::demands(steps[2], Request::Filter { of: 1, mask: 1, into: 11 }),
        crate::stage::demands(steps[3], Request::Sort { of: 2, keys: 1, into: 12 }),
        crate::stage::fills(steps[4], 1, num(10000), same_as(modulo(ix(), num(2)), num(0))),
        crate::stage::demands(steps[5], Request::Filter { of: 3, mask: 1, into: 13 }),
        crate::stage::demands(steps[6], Request::Sort { of: 4, keys: 1, into: 14 }),
        forall|j: int|
            0 <= j < 5 ==> m.scene.buffer(
                (0 + j) as u64,
            ) == #[trigger] concurrent_operations_buffers_table1(j),
    ensures
        n.holds(),
        n.plan == m.plan,
        n.answers == m.answers,
        n.at == 10 + 7,
        n.used == m.used + 5,
        n.scene.buffer(10) == concurrent_operations_operations_sorted1(),
        n.scene.buffer(11) == concurrent_operations_operations_kept1(),
        n.scene.buffer(12) == concurrent_operations_operations_sorted2(),
        n.scene.buffer(13) == concurrent_operations_operations_kept2(),
        n.scene.buffer(14) == concurrent_operations_operations_sorted3(),
        forall|j: int|
            0 <= j < 5 ==> n.scene.buffer(
                (0 + j) as u64,
            ) == #[trigger] concurrent_operations_buffers_table1(j),
        crate::stage::asks(m.plan, m.answers, 5, concurrent_operations_operations_asks()),
{
    crate::stage::lemma_full(m);
    crate::stage::lemma_asks_none(m, 5);
    let list0 = Seq::<Ask>::empty();
    let m1 = crate::stage::lemma_sort(
        m,
        steps[0],
        0,
        1,
        10,
        concurrent_operations_buffers_table1(0),
        concurrent_operations_operations_sorted1(),
    );
    crate::stage::lemma_asks_more(
        m,
        5,
        list0,
        Ask::Make(concurrent_operations_operations_sorted1()),
    );
    let list1 = list0.push(Ask::Make(concurrent_operations_operations_sorted1()));
    let words1 = crate::stage::column(10000, |i: int| crate::stage::flag((i < 5000)));
    let word2 = lt(ix(), num(5000));
    assert forall|i: int| 0 <= i < words1.len() implies crate::stage::meaning(
        word2,
        m1.contents,
        i,
    ) as u64 == #[trigger] words1[i] by {
        reveal_with_fuel(crate::stage::meaning, 3);
    }
    let m2 = crate::stage::lemma_filled(m1, steps[1], 1, num(10000), word2, words1);
    let m3 = crate::stage::lemma_filter(
        m2,
        steps[2],
        1,
        1,
        11,
        concurrent_operations_buffers_table1(1),
        words1,
        concurrent_operations_operations_kept1(),
    );
    crate::stage::lemma_asks_more(m, 5, list1, Ask::Make(concurrent_operations_operations_kept1()));
    let list2 = list1.push(Ask::Make(concurrent_operations_operations_kept1()));
    let m4 = crate::stage::lemma_sort(
        m3,
        steps[3],
        2,
        1,
        12,
        concurrent_operations_buffers_table1(2),
        concurrent_operations_operations_sorted2(),
    );
    crate::stage::lemma_asks_more(
        m,
        5,
        list2,
        Ask::Make(concurrent_operations_operations_sorted2()),
    );
    let list3 = list2.push(Ask::Make(concurrent_operations_operations_sorted2()));
    let words2 = crate::stage::column(10000, |i: int| crate::stage::flag(((i % 2) == 0)));
    let word5 = same_as(modulo(ix(), num(2)), num(0));
    assert forall|i: int| 0 <= i < words2.len() implies crate::stage::meaning(
        word5,
        m4.contents,
        i,
    ) as u64 == #[trigger] words2[i] by {
        reveal_with_fuel(crate::stage::meaning, 4);
    }
    let m5 = crate::stage::lemma_filled(m4, steps[4], 1, num(10000), word5, words2);
    let m6 = crate::stage::lemma_filter(
        m5,
        steps[5],
        3,
        1,
        13,
        concurrent_operations_buffers_table1(3),
        words2,
        concurrent_operations_operations_kept2(),
    );
    crate::stage::lemma_asks_more(m, 5, list3, Ask::Make(concurrent_operations_operations_kept2()));
    let list4 = list3.push(Ask::Make(concurrent_operations_operations_kept2()));
    let m7 = crate::stage::lemma_sort(
        m6,
        steps[6],
        4,
        1,
        14,
        concurrent_operations_buffers_table1(4),
        concurrent_operations_operations_sorted3(),
    );
    crate::stage::lemma_asks_more(
        m,
        5,
        list4,
        Ask::Make(concurrent_operations_operations_sorted3()),
    );
    let list5 = list4.push(Ask::Make(concurrent_operations_operations_sorted3()));
    assert(concurrent_operations_operations_asks() == list5);
    m7
}

/// The steps of the part `operations` of `test_concurrent_operations`.
proof fn lemma_concurrent_operations_operations_steps()
    ensures
        ({
            let steps = crate::categories::c08_synchronization::concurrent_operations_operations_steps();
            &&& steps.len() == 7
            &&& crate::stage::demands(steps[0], Request::Sort { of: 0, keys: 1, into: 10 })
            &&& crate::stage::fills(steps[1], 1, num(10000), lt(ix(), num(5000)))
            &&& crate::stage::demands(steps[2], Request::Filter { of: 1, mask: 1, into: 11 })
            &&& crate::stage::demands(steps[3], Request::Sort { of: 2, keys: 1, into: 12 })
            &&& crate::stage::fills(steps[4], 1, num(10000), same_as(modulo(ix(), num(2)), num(0)))
            &&& crate::stage::demands(steps[5], Request::Filter { of: 3, mask: 1, into: 13 })
            &&& crate::stage::demands(steps[6], Request::Sort { of: 4, keys: 1, into: 14 })
        }),
{
}

/// What the device is asked in round `k` of the part `sorted` of `test_concurrent_operations`.
pub open spec fn concurrent_operations_sorted_asks(k: int) -> Seq<Ask> {
    let picked1 = if k == 0 {
        concurrent_operations_operations_sorted1()
    } else if k == 1 {
        concurrent_operations_operations_sorted2()
    } else {
        concurrent_operations_operations_sorted3()
    };
    let picked2 = if k == 0 {
        concurrent_operations_operations_sorted1()
    } else if k == 1 {
        concurrent_operations_operations_sorted2()
    } else {
        concurrent_operations_operations_sorted3()
    };
    seq![Ask::Rows(picked1), Ask::Words { of: picked2, column: 0, scalar: Scalar::U32 }]
}

/// Round `k` of the part `sorted` of `test_concurrent_operations` asks what it should.
proof fn lemma_concurrent_operations_sorted(m: Moment, steps: Seq<Step>, k: int) -> (n: Moment)
    requires
        0 <= k < 3,
        m.holds(),
        m.at == 17 + 6 * k,
        m.used == 10 + 2 * k,
        17 + 6 * k + 6 <= m.plan.steps.len(),
        forall|j: int| 0 <= j < 6 ==> m.plan.steps[17 + 6 * k + j] == #[trigger] steps[j],
        crate::stage::counts(
            steps[0],
            after(10, crate::categories::c08_synchronization::SORTED_BUFFERS@[k as u64 as int]),
        ),
        crate::stage::demands(
            steps[1],
            Request::Download {
                of: after(
                    10,
                    crate::categories::c08_synchronization::SORTED_BUFFERS@[k as u64 as int],
                ),
                column: 0,
                scalar: Scalar::U32,
                into: 2,
            },
        ),
        crate::stage::looks(steps[2]),
        crate::stage::works(steps[3], 0),
        crate::stage::works(steps[4], 3),
        crate::stage::looks(steps[5]),
        m.scene.buffer(10) == concurrent_operations_operations_sorted1(),
        m.scene.buffer(11) == concurrent_operations_operations_kept1(),
        m.scene.buffer(12) == concurrent_operations_operations_sorted2(),
        m.scene.buffer(13) == concurrent_operations_operations_kept2(),
        m.scene.buffer(14) == concurrent_operations_operations_sorted3(),
        forall|j: int|
            0 <= j < 5 ==> m.scene.buffer(
                (0 + j) as u64,
            ) == #[trigger] concurrent_operations_buffers_table1(j),
    ensures
        n.holds(),
        n.plan == m.plan,
        n.answers == m.answers,
        n.at == 17 + 6 * k + 6,
        n.used == m.used + 2,
        n.scene.buffer(10) == concurrent_operations_operations_sorted1(),
        n.scene.buffer(11) == concurrent_operations_operations_kept1(),
        n.scene.buffer(12) == concurrent_operations_operations_sorted2(),
        n.scene.buffer(13) == concurrent_operations_operations_kept2(),
        n.scene.buffer(14) == concurrent_operations_operations_sorted3(),
        forall|j: int|
            0 <= j < 5 ==> n.scene.buffer(
                (0 + j) as u64,
            ) == #[trigger] concurrent_operations_buffers_table1(j),
        crate::stage::asks(m.plan, m.answers, 10 + 2 * k, concurrent_operations_sorted_asks(k)),
{
    crate::stage::lemma_full(m);
    crate::stage::lemma_asks_none(m, 10 + 2 * k);
    let list0 = Seq::<Ask>::empty();
    let picked1 = if k == 0 {
        concurrent_operations_operations_sorted1()
    } else if k == 1 {
        concurrent_operations_operations_sorted2()
    } else {
        concurrent_operations_operations_sorted3()
    };
    let m1 = crate::stage::lemma_count(
        m,
        steps[0],
        after(10, crate::categories::c08_synchronization::SORTED_BUFFERS@[k as u64 as int]),
        picked1,
    );
    crate::stage::lemma_asks_more(m, 10 + 2 * k, list0, Ask::Rows(picked1));
    let list1 = list0.push(Ask::Rows(picked1));
    let picked2 = if k == 0 {
        concurrent_operations_operations_sorted1()
    } else if k == 1 {
        concurrent_operations_operations_sorted2()
    } else {
        concurrent_operations_operations_sorted3()
    };
    let m2 = crate::stage::lemma_download(
        m1,
        steps[1],
        after(10, crate::categories::c08_synchronization::SORTED_BUFFERS@[k as u64 as int]),
        0,
        Scalar::U32,
        2,
        picked2,
    );
    crate::stage::lemma_asks_more(
        m,
        10 + 2 * k,
        list1,
        Ask::Words { of: picked2, column: 0, scalar: Scalar::U32 },
    );
    let list2 = list1.push(Ask::Words { of: picked2, column: 0, scalar: Scalar::U32 });
    let m3 = crate::stage::lemma_look(m2, steps[2]);
    let m4 = crate::stage::lemma_work(m3, steps[3], 0);
    let m5 = crate::stage::lemma_work(m4, steps[4], 3);
    let m6 = crate::stage::lemma_look(m5, steps[5]);
    assert(concurrent_operations_sorted_asks(k) == list2);
    m6
}

/// The steps of the part `sorted` of `test_concurrent_operations`.
proof fn lemma_concurrent_operations_sorted_steps(k: int)
    ensures
        ({
            let steps = crate::categories::c08_synchronization::concurrent_operations_sorted_round(
                k as u64,
            );
            &&& steps.len() == 6
            &&& crate::stage::counts(
                steps[0],
                after(10, crate::categories::c08_synchronization::SORTED_BUFFERS@[k as u64 as int]),
            )
            &&& crate::stage::demands(
                steps[1],
                Request::Download {
                    of: after(
                        10,
                        crate::categories::c08_synchronization::SORTED_BUFFERS@[k as u64 as int],
                    ),
                    column: 0,
                    scalar: Scalar::U32,
                    into: 2,
                },
            )
            &&& crate::stage::looks(steps[2])
            &&& crate::stage::works(steps[3], 0)
            &&& crate::stage::works(steps[4], 3)
            &&& crate::stage::looks(steps[5])
        }),
{
}

/// The first `k` rounds of the part `sorted` of `test_concurrent_operations` ask what they should.
proof fn lemma_concurrent_operations_sorted_rounds(
    m: Moment,
    part: Seq<Step>,
    k: int,
) -> (n: Moment)
    requires
        0 <= k <= 3,
        m.holds(),
        m.at == 17,
        m.used == 10 + 2 * 0,
        m.at + 18 <= m.plan.steps.len(),
        part == crate::script::rounds(
            3,
            |k: int| crate::categories::c08_synchronization::concurrent_operations_sorted_round(
                k as u64,
            ),
        ),
        forall|j: int| 0 <= j < 18 ==> m.plan.steps[17 + j] == #[trigger] part[j],
        m.scene.buffer(10) == concurrent_operations_operations_sorted1(),
        m.scene.buffer(11) == concurrent_operations_operations_kept1(),
        m.scene.buffer(12) == concurrent_operations_operations_sorted2(),
        m.scene.buffer(13) == concurrent_operations_operations_kept2(),
        m.scene.buffer(14) == concurrent_operations_operations_sorted3(),
        forall|j: int|
            0 <= j < 5 ==> m.scene.buffer(
                (0 + j) as u64,
            ) == #[trigger] concurrent_operations_buffers_table1(j),
    ensures
        n.holds(),
        n.plan == m.plan,
        n.answers == m.answers,
        n.at == 17 + 6 * k,
        n.used == 10 + 2 * k,
        n.scene.buffer(10) == concurrent_operations_operations_sorted1(),
        n.scene.buffer(11) == concurrent_operations_operations_kept1(),
        n.scene.buffer(12) == concurrent_operations_operations_sorted2(),
        n.scene.buffer(13) == concurrent_operations_operations_kept2(),
        n.scene.buffer(14) == concurrent_operations_operations_sorted3(),
        forall|j: int|
            0 <= j < 5 ==> n.scene.buffer(
                (0 + j) as u64,
            ) == #[trigger] concurrent_operations_buffers_table1(j),
        forall|j: int|
            0 <= j < k ==> crate::stage::asks(
                m.plan,
                m.answers,
                10 + 2 * j,
                #[trigger] concurrent_operations_sorted_asks(j),
            ),
    decreases k,
{
    if k == 0 {
        m
    } else {
        let round = |k: int| crate::categories::c08_synchronization::concurrent_operations_sorted_round(
            k as u64,
        );
        let before = lemma_concurrent_operations_sorted_rounds(m, part, k - 1);
        assert forall|j: int| 0 <= j < 6 implies m.plan.steps[before.at + j] == #[trigger] crate::categories::c08_synchronization::concurrent_operations_sorted_round(
            (k - 1) as u64,
        )[j] by {
            assert forall|k: int| 0 <= k < 3 implies (#[trigger] round(k)).len() == 6 by {
                lemma_concurrent_operations_sorted_steps(k);
            }
            crate::stage::lemma_round_place(3, round, 6, k - 1, j);
            assert(part[(k - 1) * 6 + j] == round(k - 1)[j]);
        }
        lemma_concurrent_operations_sorted_steps(k - 1);
        lemma_concurrent_operations_sorted(
            before,
            crate::categories::c08_synchronization::concurrent_operations_sorted_round(
                (k - 1) as u64,
            ),
            k - 1,
        )
    }
}

/// What the device is asked in the part `filtered` of `test_concurrent_operations`.
pub open spec fn concurrent_operations_filtered_asks() -> Seq<Ask> {
    seq![
        Ask::Rows(concurrent_operations_operations_kept1()),
        Ask::Rows(concurrent_operations_operations_kept2()),
    ]
}

/// The part `filtered` of `test_concurrent_operations` asks what it should.
proof fn lemma_concurrent_operations_filtered(m: Moment, steps: Seq<Step>) -> (n: Moment)
    requires
        m.holds(),
        m.at == 35,
        m.used == 16,
        35 + 2 <= m.plan.steps.len(),
        forall|j: int| 0 <= j < 2 ==> m.plan.steps[35 + j] == #[trigger] steps[j],
        crate::stage::counts(steps[0], 11),
        crate::stage::counts(steps[1], 13),
        m.scene.buffer(11) == concurrent_operations_operations_kept1(),
        m.scene.buffer(13) == concurrent_operations_operations_kept2(),
        forall|j: int|
            0 <= j < 5 ==> m.scene.buffer(
                (0 + j) as u64,
            ) == #[trigger] concurrent_operations_buffers_table1(j),
    ensures
        n.holds(),
        n.plan == m.plan,
        n.answers == m.answers,
        n.at == 35 + 2,
        n.used == m.used + 2,
        forall|j: int|
            0 <= j < 5 ==> n.scene.buffer(
                (0 + j) as u64,
            ) == #[trigger] concurrent_operations_buffers_table1(j),
        crate::stage::asks(m.plan, m.answers, 16, concurrent_operations_filtered_asks()),
{
    crate::stage::lemma_full(m);
    crate::stage::lemma_asks_none(m, 16);
    let list0 = Seq::<Ask>::empty();
    let m1 = crate::stage::lemma_count(m, steps[0], 11, concurrent_operations_operations_kept1());
    crate::stage::lemma_asks_more(
        m,
        16,
        list0,
        Ask::Rows(concurrent_operations_operations_kept1()),
    );
    let list1 = list0.push(Ask::Rows(concurrent_operations_operations_kept1()));
    let m2 = crate::stage::lemma_count(m1, steps[1], 13, concurrent_operations_operations_kept2());
    crate::stage::lemma_asks_more(
        m,
        16,
        list1,
        Ask::Rows(concurrent_operations_operations_kept2()),
    );
    let list2 = list1.push(Ask::Rows(concurrent_operations_operations_kept2()));
    assert(concurrent_operations_filtered_asks() == list2);
    m2
}

/// The steps of the part `filtered` of `test_concurrent_operations`.
proof fn lemma_concurrent_operations_filtered_steps()
    ensures
        ({
            let steps = crate::categories::c08_synchronization::concurrent_operations_filtered_steps();
            &&& steps.len() == 2
            &&& crate::stage::counts(steps[0], 11)
            &&& crate::stage::counts(steps[1], 13)
        }),
{
}

/// What the device is asked in round `k` of the part `sources` of `test_concurrent_operations`.
pub open spec fn concurrent_operations_sources_asks(k: int) -> Seq<Ask> {
    seq![Ask::Words { of: concurrent_operations_buffers_table1(k), column: 0, scalar: Scalar::U32 }]
}

/// Round `k` of the part `sources` of `test_concurrent_operations` asks what it should.
proof fn lemma_concurrent_operations_sources(m: Moment, steps: Seq<Step>, k: int) -> (n: Moment)
    requires
        0 <= k < 5,
        m.holds(),
        m.at == 37 + 3 * k,
        m.used == 18 + 1 * k,
        37 + 3 * k + 3 <= m.plan.steps.len(),
        forall|j: int| 0 <= j < 3 ==> m.plan.steps[37 + 3 * k + j] == #[trigger] steps[j],
        crate::stage::demands(
            steps[0],
            Request::Download { of: k as u64, column: 0, scalar: Scalar::U32, into: 2 },
        ),
        crate::stage::works(steps[1], 0),
        crate::stage::looks(steps[2]),
        forall|j: int|
            0 <= j < 5 ==> m.scene.buffer(
                (0 + j) as u64,
            ) == #[trigger] concurrent_operations_buffers_table1(j),
    ensures
        n.holds(),
        n.plan == m.plan,
        n.answers == m.answers,
        n.at == 37 + 3 * k + 3,
        n.used == m.used + 1,
        forall|j: int|
            0 <= j < 5 ==> n.scene.buffer(
                (0 + j) as u64,
            ) == #[trigger] concurrent_operations_buffers_table1(j),
        crate::stage::asks(m.plan, m.answers, 18 + 1 * k, concurrent_operations_sources_asks(k)),
{
    crate::stage::lemma_full(m);
    crate::stage::lemma_asks_none(m, 18 + 1 * k);
    let list0 = Seq::<Ask>::empty();
    let m1 = crate::stage::lemma_download(
        m,
        steps[0],
        k as u64,
        0,
        Scalar::U32,
        2,
        concurrent_operations_buffers_table1(k),
    );
    crate::stage::lemma_asks_more(
        m,
        18 + 1 * k,
        list0,
        Ask::Words { of: concurrent_operations_buffers_table1(k), column: 0, scalar: Scalar::U32 },
    );
    let list1 = list0.push(
        Ask::Words { of: concurrent_operations_buffers_table1(k), column: 0, scalar: Scalar::U32 },
    );
    let m2 = crate::stage::lemma_work(m1, steps[1], 0);
    let m3 = crate::stage::lemma_look(m2, steps[2]);
    assert(concurrent_operations_sources_asks(k) == list1);
    m3
}

/// The steps of the part `sources` of `test_concurrent_operations`.
proof fn lemma_concurrent_operations_sources_steps(k: int)
    ensures
        ({
            let steps = crate::categories::c08_synchronization::concurrent_operations_sources_round(
                k as u64,
            );
            &&& steps.len() == 3
            &&& crate::stage::demands(
                steps[0],
                Request::Download { of: k as u64, column: 0, scalar: Scalar::U32, into: 2 },
            )
            &&& crate::stage::works(steps[1], 0)
            &&& crate::stage::looks(steps[2])
        }),
{
}

/// The first `k` rounds of the part `sources` of `test_concurrent_operations` ask what they should.
proof fn lemma_concurrent_operations_sources_rounds(
    m: Moment,
    part: Seq<Step>,
    k: int,
) -> (n: Moment)
    requires
        0 <= k <= 5,
        m.holds(),
        m.at == 37,
        m.used == 18 + 1 * 0,
        m.at + 15 <= m.plan.steps.len(),
        part == crate::script::rounds(
            5,
            |k: int| crate::categories::c08_synchronization::concurrent_operations_sources_round(
                k as u64,
            ),
        ),
        forall|j: int| 0 <= j < 15 ==> m.plan.steps[37 + j] == #[trigger] part[j],
        forall|j: int|
            0 <= j < 5 ==> m.scene.buffer(
                (0 + j) as u64,
            ) == #[trigger] concurrent_operations_buffers_table1(j),
    ensures
        n.holds(),
        n.plan == m.plan,
        n.answers == m.answers,
        n.at == 37 + 3 * k,
        n.used == 18 + 1 * k,
        forall|j: int|
            0 <= j < 5 ==> n.scene.buffer(
                (0 + j) as u64,
            ) == #[trigger] concurrent_operations_buffers_table1(j),
        forall|j: int|
            0 <= j < k ==> crate::stage::asks(
                m.plan,
                m.answers,
                18 + 1 * j,
                #[trigger] concurrent_operations_sources_asks(j),
            ),
    decreases k,
{
    if k == 0 {
        m
    } else {
        let round = |k: int| crate::categories::c08_synchronization::concurrent_operations_sources_round(
            k as u64,
        );
        let before = lemma_concurrent_operations_sources_rounds(m, part, k - 1);
        assert forall|j: int| 0 <= j < 3 implies m.plan.steps[before.at + j] == #[trigger] crate::categories::c08_synchronization::concurrent_operations_sources_round(
            (k - 1) as u64,
        )[j] by {
            assert forall|k: int| 0 <= k < 5 implies (#[trigger] round(k)).len() == 3 by {
                lemma_concurrent_operations_sources_steps(k);
            }
            crate::stage::lemma_round_place(5, round, 3, k - 1, j);
            assert(part[(k - 1) * 3 + j] == round(k - 1)[j]);
        }
        lemma_concurrent_operations_sources_steps(k - 1);
        lemma_concurrent_operations_sources(
            before,
            crate::categories::c08_synchronization::concurrent_operations_sources_round(
                (k - 1) as u64,
            ),
            k - 1,
        )
    }
}

/// What the device is asked in the part `end` of `test_concurrent_operations`.
pub open spec fn concurrent_operations_end_asks() -> Seq<Ask> {
    seq![Ask::Other(Request::Sync)]
}

/// The part `end` of `test_concurrent_operations` asks what it should.
proof fn lemma_concurrent_operations_end(m: Moment, steps: Seq<Step>) -> (n: Moment)
    requires
        m.holds(),
        m.at == 52,
        m.used == 23,
        52 + 1 <= m.plan.steps.len(),
        forall|j: int| 0 <= j < 1 ==> m.plan.steps[52 + j] == #[trigger] steps[j],
        crate::stage::demands(steps[0], Request::Sync),
    ensures
        n.holds(),
        n.plan == m.plan,
        n.answers == m.answers,
        n.at == 52 + 1,
        n.used == m.used + 1,
        crate::stage::asks(m.plan, m.answers, 23, concurrent_operations_end_asks()),
{
    crate::stage::lemma_full(m);
    crate::stage::lemma_asks_none(m, 23);
    let list0 = Seq::<Ask>::empty();
    let m1 = crate::stage::lemma_sync(m, steps[0]);
    crate::stage::lemma_asks_more(m, 23, list0, Ask::Other(Request::Sync));
    let list1 = list0.push(Ask::Other(Request::Sync));
    assert(concurrent_operations_end_asks() == list1);
    m1
}

/// The steps of the part `end` of `test_concurrent_operations`.
proof fn lemma_concurrent_operations_end_steps()
    ensures
        ({
            let steps = crate::categories::c08_synchronization::concurrent_operations_end_steps();
            &&& steps.len() == 1
            &&& crate::stage::demands(steps[0], Request::Sync)
        }),
{
}

/// In a run of `test_concurrent_operations` that passes the device is asked this, in this order,
/// and nothing else: each request about what an earlier one made is about that, and about what was
/// uploaded for it.
pub proof fn law_concurrent_operations_asks_about_what_it_made(answers: Seq<Answer>)
    requires
        crate::stage::passes(
            crate::script::plan(
                "test_concurrent_operations",
                crate::categories::c08_synchronization::concurrent_operations_steps(),
            ),
            answers,
        ),
    ensures
        forall|k: int|
            0 <= k < 5 ==> crate::stage::asks(
                crate::script::plan(
                    "test_concurrent_operations",
                    crate::categories::c08_synchronization::concurrent_operations_steps(),
                ),
                answers,
                0 + 1 * k,
                #[trigger] concurrent_operations_buffers_asks(k),
            ),
        crate::stage::asks(
            crate::script::plan(
                "test_concurrent_operations",
                crate::categories::c08_synchronization::concurrent_operations_steps(),
            ),
            answers,
            5,
            concurrent_operations_operations_asks(),
        ),
        forall|k: int|
            0 <= k < 3 ==> crate::stage::asks(
                crate::script::plan(
                    "test_concurrent_operations",
                    crate::categories::c08_synchronization::concurrent_operations_steps(),
                ),
                answers,
                10 + 2 * k,
                #[trigger] concurrent_operations_sorted_asks(k),
            ),
        crate::stage::asks(
            crate::script::plan(
                "test_concurrent_operations",
                crate::categories::c08_synchronization::concurrent_operations_steps(),
            ),
            answers,
            16,
            concurrent_operations_filtered_asks(),
        ),
        forall|k: int|
            0 <= k < 5 ==> crate::stage::asks(
                crate::script::plan(
                    "test_concurrent_operations",
                    crate::categories::c08_synchronization::concurrent_operations_steps(),
                ),
                answers,
                18 + 1 * k,
                #[trigger] concurrent_operations_sources_asks(k),
            ),
        crate::stage::asks(
            crate::script::plan(
                "test_concurrent_operations",
                crate::categories::c08_synchronization::concurrent_operations_steps(),
            ),
            answers,
            23,
            concurrent_operations_end_asks(),
        ),
        crate::stage::asked(
            crate::script::plan(
                "test_concurrent_operations",
                crate::categories::c08_synchronization::concurrent_operations_steps(),
            ),
            answers,
            24,
        ) is None,
{
    let plan = crate::script::plan(
        "test_concurrent_operations",
        crate::categories::c08_synchronization::concurrent_operations_steps(),
    );
    let round1 = |k: int| crate::categories::c08_synchronization::concurrent_operations_buffers_round(
        k as u64,
    );
    let part1 = crate::script::rounds(5, round1);
    assert forall|k: int| 0 <= k < 5 implies (#[trigger] round1(k)).len() == 2 by {
        lemma_concurrent_operations_buffers_steps(k);
    }
    crate::stage::lemma_rounds_length(5, round1, 2);
    let part2 = crate::categories::c08_synchronization::concurrent_operations_operations_steps();
    lemma_concurrent_operations_operations_steps();
    let round3 = |k: int| crate::categories::c08_synchronization::concurrent_operations_sorted_round(
        k as u64,
    );
    let part3 = crate::script::rounds(3, round3);
    assert forall|k: int| 0 <= k < 3 implies (#[trigger] round3(k)).len() == 6 by {
        lemma_concurrent_operations_sorted_steps(k);
    }
    crate::stage::lemma_rounds_length(3, round3, 6);
    let part4 = crate::categories::c08_synchronization::concurrent_operations_filtered_steps();
    lemma_concurrent_operations_filtered_steps();
    let round5 = |k: int| crate::categories::c08_synchronization::concurrent_operations_sources_round(
        k as u64,
    );
    let part5 = crate::script::rounds(5, round5);
    assert forall|k: int| 0 <= k < 5 implies (#[trigger] round5(k)).len() == 3 by {
        lemma_concurrent_operations_sources_steps(k);
    }
    crate::stage::lemma_rounds_length(5, round5, 3);
    let part6 = crate::categories::c08_synchronization::concurrent_operations_end_steps();
    lemma_concurrent_operations_end_steps();
    let whole1 = part1;
    let whole2 = whole1 + part2;
    let whole3 = whole2 + part3;
    let whole4 = whole3 + part4;
    let whole5 = whole4 + part5;
    let whole6 = whole5 + part6;
    assert(plan.steps == whole6);
    let m0 = crate::stage::lemma_start(plan, answers);
    assert forall|j: int| 0 <= j < 10 implies plan.steps[0 + j] == #[trigger] part1[j] by {}
    let m1 = lemma_concurrent_operations_buffers_rounds(m0, part1, 5);
    assert forall|j: int| 0 <= j < 7 implies plan.steps[10 + j] == #[trigger] part2[j] by {}
    let m2 = lemma_concurrent_operations_operations(m1, part2);
    assert forall|j: int| 0 <= j < 18 implies plan.steps[17 + j] == #[trigger] part3[j] by {}
    let m3 = lemma_concurrent_operations_sorted_rounds(m2, part3, 3);
    assert forall|j: int| 0 <= j < 2 implies plan.steps[35 + j] == #[trigger] part4[j] by {}
    let m4 = lemma_concurrent_operations_filtered(m3, part4);
    assert forall|j: int| 0 <= j < 15 implies plan.steps[37 + j] == #[trigger] part5[j] by {}
    let m5 = lemma_concurrent_operations_sources_rounds(m4, part5, 5);
    assert forall|j: int| 0 <= j < 1 implies plan.steps[52 + j] == #[trigger] part6[j] by {}
    let m6 = lemma_concurrent_operations_end(m5, part6);
    crate::stage::lemma_end(m6);
}

} // verus!
