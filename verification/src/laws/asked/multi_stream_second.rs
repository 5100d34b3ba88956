//! What these tests ask the device in runs that pass: `test_interleaved_operations`.

use vstd::prelude::*;
use crate::expr::{differs, ix, lt, modulo, num, over, plus, same_as, times};
use crate::machine::Answer;
use crate::scalar::Scalar;
use crate::script::{after, Layout, Request, Step};
use crate::stage::{Ask, Moment, Thing};

verus! {

/// A buffer that is uploaded in the part `start` of `test_interleaved_operations`.
pub open spec fn interleaved_operations_start_table1() -> Thing {
    Thing::Table {
        layout: Layout::Val,
        scalar: Scalar::U32,
        columns: seq![crate::stage::column(10000, |i: int| ((i * 1103515245) + 12345) % 10000)],
        turn: 0,
    }
}

/// A buffer that is uploaded in the part `start` of `test_interleaved_operations`.
pub open spec fn interleaved_operations_start_table2() -> Thing {
    Thing::Table {
        layout: Layout::Val,
        scalar: Scalar::U32,
        columns: seq![crate::stage::column(10000, |i: int| i)],
        turn: 1,
    }
}

/// What is sorted in round `k` of the part `turns` of `test_interleaved_operations`.
pub open spec fn interleaved_operations_turns_sorted1(k: int) -> Thing {
    Thing::Sorted { of: Box::new(interleaved_operations_start_table1()), keys: 1, turn: 2 + 2 * k }
}

/// What is kept in round `k` of the part `turns` of `test_interleaved_operations`.
pub open spec fn interleaved_operations_turns_kept1(k: int) -> Thing {
    Thing::Kept {
        of: Box::new(interleaved_operations_start_table2()),
        mask: crate::stage::column(
            10000,
            |i: int| crate::stage::flag((((i * 100) / 10000) < ((k + 1) * 5))),
        ),
        turn: 3 + 2 * k,
    }
}

/// What the device is asked in the part `start` of `test_interleaved_operations`.
pub open spec fn interleaved_operations_start_asks() -> Seq<Ask> {
    seq![
        Ask::Make(interleaved_operations_start_table1()),
        Ask::Make(interleaved_operations_start_table2()),
    ]
}

/// The part `start` of `test_interleaved_operations` asks what it should.
proof fn lemma_interleaved_operations_start(m: Moment, steps: Seq<Step>) -> (n: Moment)
    requires
        m.holds(),
        m.at == 0,
        m.used == 0,
        0 + 4 <= m.plan.steps.len(),
        forall|j: int| 0 <= j < 4 ==> m.plan.steps[0 + j] == #[trigger] steps[j],
        crate::stage::fills(
            steps[0],
            0,
            num(10000),
            modulo(plus(times(ix(), num(1103515245)), num(12345)), num(10000)),
        ),
        crate::stage::fills(steps[1], 1, num(10000), ix()),
        crate::stage::demands(
            steps[2],
            Request::Create { into: 0, layout: Layout::Val, scalar: Scalar::U32, from: 0 },
        ),
        crate::stage::demands(
            steps[3],
            Request::Create { into: 1, layout: Layout::Val, scalar: Scalar::U32, from: 1 },
        ),
    ensures
        n.holds(),
        n.plan == m.plan,
        n.answers == m.answers,
        n.at == 0 + 4,
        n.used == m.used + 2,
        n.scene.buffer(0) == interleaved_operations_start_table1(),
        n.scene.buffer(1) == interleaved_operations_start_table2(),
        crate::stage::asks(m.plan, m.answers, 0, interleaved_operations_start_asks()),
{
    crate::stage::lemma_full(m);
    crate::stage::lemma_asks_none(m, 0);
    let list0 = Seq::<Ask>::empty();
    let words1 = crate::stage::column(10000, |i: int| ((i * 1103515245) + 12345) % 10000);
    let word1 = modulo(plus(times(ix(), num(1103515245)), num(12345)), num(10000));
    assert forall|i: int| 0 <= i < words1.len() implies crate::stage::meaning(
        word1,
        m.contents,
        i,
    ) as u64 == #[trigger] words1[i] by {
        reveal_with_fuel(crate::stage::meaning, 5);
    }
    let m1 = crate::stage::lemma_filled(m, steps[0], 0, num(10000), word1, words1);
    let words2 = crate::stage::column(10000, |i: int| i);
    let word2 = ix();
    assert forall|i: int| 0 <= i < words2.len() implies crate::stage::meaning(
        word2,
        m1.contents,
        i,
    ) as u64 == #[trigger] words2[i] by {
        reveal_with_fuel(crate::stage::meaning, 1);
    }
    let m2 = crate::stage::lemma_filled(m1, steps[1], 1, num(10000), word2, words2);
    let m3 = crate::stage::lemma_create(
        m2,
        steps[2],
        0,
        Layout::Val,
        Scalar::U32,
        0,
        interleaved_operations_start_table1(),
    );
    crate::stage::lemma_asks_more(m, 0, list0, Ask::Make(interleaved_operations_start_table1()));
    let list1 = list0.push(Ask::Make(interleaved_operations_start_table1()));
    let m4 = crate::stage::lemma_create(
        m3,
        steps[3],
        1,
        Layout::Val,
        Scalar::U32,
        1,
        interleaved_operations_start_table2(),
    );
    crate::stage::lemma_asks_more(m, 0, list1, Ask::Make(interleaved_operations_start_table2()));
    let list2 = list1.push(Ask::Make(interleaved_operations_start_table2()));
    assert(interleaved_operations_start_asks() == list2);
    m4
}

/// The steps of the part `start` of `test_interleaved_operations`.
proof fn lemma_interleaved_operations_start_steps()
    ensures
        ({
            let steps = crate::categories::c19_multi_stream::interleaved_operations_start_steps();
            &&& steps.len() == 4
            &&& crate::stage::fills(
                steps[0],
                0,
                num(10000),
                modulo(plus(times(ix(), num(1103515245)), num(12345)), num(10000)),
            )
            &&& crate::stage::fills(steps[1], 1, num(10000), ix())
            &&& crate::stage::demands(
                steps[2],
                Request::Create { into: 0, layout: Layout::Val, scalar: Scalar::U32, from: 0 },
            )
            &&& crate::stage::demands(
                steps[3],
                Request::Create { into: 1, layout: Layout::Val, scalar: Scalar::U32, from: 1 },
            )
        }),
{
}

/// What the device is asked in round `k` of the part `turns` of `test_interleaved_operations`.
pub open spec fn interleaved_operations_turns_asks(k: int) -> Seq<Ask> {
    seq![
        Ask::Make(interleaved_operations_turns_sorted1(k)),
        Ask::Make(interleaved_operations_turns_kept1(k)),
    ]
}

/// Round `k` of the part `turns` of `test_interleaved_operations` asks what it should.
proof fn lemma_interleaved_operations_turns(m: Moment, steps: Seq<Step>, k: int) -> (n: Moment)
    requires
        0 <= k < 20,
        m.holds(),
        m.at == 4 + 3 * k,
        m.used == 2 + 2 * k,
        4 + 3 * k + 3 <= m.plan.steps.len(),
        forall|j: int| 0 <= j < 3 ==> m.plan.steps[4 + 3 * k + j] == #[trigger] steps[j],
        crate::stage::demands(
            steps[0],
            Request::Sort { of: 0, keys: 1, into: after(10, k as u64) },
        ),
        crate::stage::fills(
            steps[1],
            2,
            num(10000),
            lt(over(times(ix(), num(100)), num(10000)), times(plus(num(k as u64), num(1)), num(5))),
        ),
        crate::stage::demands(
            steps[2],
            Request::Filter { of: 1, mask: 2, into: after(30, k as u64) },
        ),
        m.scene.buffer(0) == interleaved_operations_start_table1(),
        m.scene.buffer(1) == interleaved_operations_start_table2(),
        forall|j: int|
            0 <= j < k ==> m.scene.buffer(
                (10 + j) as u64,
            ) == #[trigger] interleaved_operations_turns_sorted1(j),
        forall|j: int|
            0 <= j < k ==> m.scene.buffer(
                (30 + j) as u64,
            ) == #[trigger] interleaved_operations_turns_kept1(j),
    ensures
        n.holds(),
        n.plan == m.plan,
        n.answers == m.answers,
        n.at == 4 + 3 * k + 3,
        n.used == m.used + 2,
        n.scene.buffer(0) == interleaved_operations_start_table1(),
        n.scene.buffer(1) == interleaved_operations_start_table2(),
        forall|j: int|
            0 <= j < k + 1 ==> n.scene.buffer(
                (10 + j) as u64,
            ) == #[trigger] interleaved_operations_turns_sorted1(j),
        forall|j: int|
            0 <= j < k + 1 ==> n.scene.buffer(
                (30 + j) as u64,
            ) == #[trigger] interleaved_operations_turns_kept1(j),
        crate::stage::asks(m.plan, m.answers, 2 + 2 * k, interleaved_operations_turns_asks(k)),
{
    crate::stage::lemma_full(m);
    crate::stage::lemma_asks_none(m, 2 + 2 * k);
    let list0 = Seq::<Ask>::empty();
    let m1 = crate::stage::lemma_sort(
        m,
        steps[0],
        0,
        1,
        after(10, k as u64),
        interleaved_operations_start_table1(),
        interleaved_operations_turns_sorted1(k),
    );
    crate::stage::lemma_asks_more(
        m,
        2 + 2 * k,
        list0,
        Ask::Make(interleaved_operations_turns_sorted1(k)),
    );
    let list1 = list0.push(Ask::Make(interleaved_operations_turns_sorted1(k)));
    let words1 = crate::stage::column(
        10000,
        |i: int| crate::stage::flag((((i * 100) / 10000) < ((k + 1) * 5))),
    );
    let word2 = lt(
        over(times(ix(), num(100)), num(10000)),
        times(plus(num(k as u64), num(1)), num(5)),
    );
    assert forall|i: int| 0 <= i < words1.len() implies crate::stage::meaning(
        word2,
        m1.contents,
        i,
    ) as u64 == #[trigger] words1[i] by {
        reveal_with_fuel(crate::stage::meaning, 5);
    }
    let m2 = crate::stage::lemma_filled(m1, steps[1], 2, num(10000), word2, words1);
    let m3 = crate::stage::lemma_filter(
        m2,
        steps[2],
        1,
        2,
        after(30, k as u64),
        interleaved_operations_start_table2(),
        words1,
        interleaved_operations_turns_kept1(k),
    );
    crate::stage::lemma_asks_more(
        m,
        2 + 2 * k,
        list1,
        Ask::Make(interleaved_operations_turns_kept1(k)),
    );
    let list2 = list1.push(Ask::Make(interleaved_operations_turns_kept1(k)));
    assert(interleaved_operations_turns_asks(k) == list2);
    m3
}

/// The steps of the part `turns` of `test_interleaved_operations`.
proof fn lemma_interleaved_operations_turns_steps(k: int)
    ensures
        ({
            let steps = crate::categories::c19_multi_stream::interleaved_operations_turns_round(
                k as u64,
            );
            &&& steps.len() == 3
            &&& crate::stage::demands(
                steps[0],
                Request::Sort { of: 0, keys: 1, into: after(10, k as u64) },
            )
            &&& crate::stage::fills(
                steps[1],
                2,
                num(10000),
                lt(
                    over(times(ix(), num(100)), num(10000)),
                    times(plus(num(k as u64), num(1)), num(5)),
                ),
            )
            &&& crate::stage::demands(
                steps[2],
                Request::Filter { of: 1, mask: 2, into: after(30, k as u64) },
            )
        }),
{
}

/// The first `k` rounds of the part `turns` of `test_interleaved_operations` ask what they should.
proof fn lemma_interleaved_operations_turns_rounds(
    m: Moment,
    part: Seq<Step>,
    k: int,
) -> (n: Moment)
    requires
        0 <= k <= 20,
        m.holds(),
        m.at == 4,
        m.used == 2 + 2 * 0,
        m.at + 60 <= m.plan.steps.len(),
        part == crate::script::rounds(
            20,
            |k: int| crate::categories::c19_multi_stream::interleaved_operations_turns_round(
                k as u64,
            ),
        ),
        forall|j: int| 0 <= j < 60 ==> m.plan.steps[4 + j] == #[trigger] part[j],
        m.scene.buffer(0) == interleaved_operations_start_table1(),
        m.scene.buffer(1) == interleaved_operations_start_table2(),
    ensures
        n.holds(),
        n.plan == m.plan,
        n.answers == m.answers,
        n.at == 4 + 3 * k,
        n.used == 2 + 2 * k,
        n.scene.buffer(0) == interleaved_operations_start_table1(),
        n.scene.buffer(1) == interleaved_operations_start_table2(),
        forall|j: int|
            0 <= j < k ==> n.scene.buffer(
                (10 + j) as u64,
            ) == #[trigger] interleaved_operations_turns_sorted1(j),
        forall|j: int|
            0 <= j < k ==> n.scene.buffer(
                (30 + j) as u64,
            ) == #[trigger] interleaved_operations_turns_kept1(j),
        forall|j: int|
            0 <= j < k ==> crate::stage::asks(
                m.plan,
                m.answers,
                2 + 2 * j,
                #[trigger] interleaved_operations_turns_asks(j),
            ),
    decreases k,
{
    if k == 0 {
        m
    } else {
        let round = |k: int| crate::categories::c19_multi_stream::interleaved_operations_turns_round(
            k as u64,
        );
        let before = lemma_interleaved_operations_turns_rounds(m, part, k - 1);
        assert forall|j: int| 0 <= j < 3 implies m.plan.steps[before.at + j] == #[trigger] crate::categories::c19_multi_stream::interleaved_operations_turns_round(
            (k - 1) as u64,
        )[j] by {
            assert forall|k: int| 0 <= k < 20 implies (#[trigger] round(k)).len() == 3 by {
                lemma_interleaved_operations_turns_steps(k);
            }
            crate::stage::lemma_round_place(20, round, 3, k - 1, j);
            assert(part[(k - 1) * 3 + j] == round(k - 1)[j]);
        }
        lemma_interleaved_operations_turns_steps(k - 1);
        lemma_interleaved_operations_turns(
            before,
            crate::categories::c19_multi_stream::interleaved_operations_turns_round((k - 1) as u64),
            k - 1,
        )
    }
}

/// What the device is asked in round `k` of the part `sorted` of `test_interleaved_operations`.
pub open spec fn interleaved_operations_sorted_with_asks(k: int) -> Seq<Ask> {
    seq![Ask::Words { of: interleaved_operations_turns_sorted1(k), column: 0, scalar: Scalar::U32 }]
}

/// Round `k` of the part `sorted` of `test_interleaved_operations` asks what it should.
proof fn lemma_interleaved_operations_sorted_with(
    m: Moment,
    steps: Seq<Step>,
    k: int,
) -> (n: Moment)
    requires
        0 <= k < 20,
        k == 0,
        m.holds(),
        m.at == 64 + 4 * k,
        m.used == 42 + 1 * k,
        64 + 4 * k + 4 <= m.plan.steps.len(),
        forall|j: int| 0 <= j < 4 ==> m.plan.steps[64 + 4 * k + j] == #[trigger] steps[j],
        crate::stage::demands(
            steps[0],
            Request::Download { of: after(10, k as u64), column: 0, scalar: Scalar::U32, into: 3 },
        ),
        crate::stage::looks(steps[1]),
        crate::stage::guards(steps[2], same_as(num(k as u64), num(0))),
        crate::walk::straight(steps[2]),
        crate::stage::works(crate::stage::bare(steps[2]), 4),
        crate::stage::guards(steps[3], differs(num(k as u64), num(0))),
        crate::walk::straight(steps[3]),
        forall|j: int|
            0 <= j < 20 ==> m.scene.buffer(
                (10 + j) as u64,
            ) == #[trigger] interleaved_operations_turns_sorted1(j),
        forall|j: int|
            0 <= j < 20 ==> m.scene.buffer(
                (30 + j) as u64,
            ) == #[trigger] interleaved_operations_turns_kept1(j),
    ensures
        n.holds(),
        n.plan == m.plan,
        n.answers == m.answers,
        n.at == 64 + 4 * k + 4,
        n.used == m.used + 1,
        forall|j: int|
            0 <= j < 20 ==> n.scene.buffer(
                (10 + j) as u64,
            ) == #[trigger] interleaved_operations_turns_sorted1(j),
        forall|j: int|
            0 <= j < 20 ==> n.scene.buffer(
                (30 + j) as u64,
            ) == #[trigger] interleaved_operations_turns_kept1(j),
        crate::stage::asks(
            m.plan,
            m.answers,
            42 + 1 * k,
            interleaved_operations_sorted_with_asks(k),
        ),
{
    crate::stage::lemma_full(m);
    crate::stage::lemma_asks_none(m, 42 + 1 * k);
    let list0 = Seq::<Ask>::empty();
    let m1 = crate::stage::lemma_download(
        m,
        steps[0],
        after(10, k as u64),
        0,
        Scalar::U32,
        3,
        interleaved_operations_turns_sorted1(k),
    );
    crate::stage::lemma_asks_more(
        m,
        42 + 1 * k,
        list0,
        Ask::Words { of: interleaved_operations_turns_sorted1(k), column: 0, scalar: Scalar::U32 },
    );
    let list1 = list0.push(
        Ask::Words { of: interleaved_operations_turns_sorted1(k), column: 0, scalar: Scalar::U32 },
    );
    let m2 = crate::stage::lemma_look(m1, steps[1]);
    assert(crate::stage::meaning(same_as(num(k as u64), num(0)), m2.contents, 0) != 0) by {
        reveal_with_fuel(crate::stage::meaning, 6);
    }
    crate::stage::lemma_guard(m2, steps[2], same_as(num(k as u64), num(0)), true);
    let m3 = crate::stage::lemma_work(m2, steps[2], 4);
    assert(crate::stage::meaning(differs(num(k as u64), num(0)), m3.contents, 0) == 0) by {
        reveal_with_fuel(crate::stage::meaning, 6);
    }
    crate::stage::lemma_guard(m3, steps[3], differs(num(k as u64), num(0)), false);
    let m4 = crate::stage::lemma_skipped(m3, steps[3]);
    assert(interleaved_operations_sorted_with_asks(k) == list1);
    m4
}

/// What the device is asked in round `k` of the part `sorted` of `test_interleaved_operations`.
pub open spec fn interleaved_operations_sorted_without_asks(k: int) -> Seq<Ask> {
    seq![Ask::Words { of: interleaved_operations_turns_sorted1(k), column: 0, scalar: Scalar::U32 }]
}

/// Round `k` of the part `sorted` of `test_interleaved_operations` asks what it should.
proof fn lemma_interleaved_operations_sorted_without(
    m: Moment,
    steps: Seq<Step>,
    k: int,
) -> (n: Moment)
    requires
        0 <= k < 20,
        !(k == 0),
        m.holds(),
        m.at == 64 + 4 * k,
        m.used == 42 + 1 * k,
        64 + 4 * k + 4 <= m.plan.steps.len(),
        forall|j: int| 0 <= j < 4 ==> m.plan.steps[64 + 4 * k + j] == #[trigger] steps[j],
        crate::stage::demands(
            steps[0],
            Request::Download { of: after(10, k as u64), column: 0, scalar: Scalar::U32, into: 3 },
        ),
        crate::stage::looks(steps[1]),
        crate::stage::guards(steps[2], same_as(num(k as u64), num(0))),
        crate::walk::straight(steps[2]),
        crate::stage::guards(steps[3], differs(num(k as u64), num(0))),
        crate::walk::straight(steps[3]),
        crate::stage::looks(crate::stage::bare(steps[3])),
        forall|j: int|
            0 <= j < 20 ==> m.scene.buffer(
                (10 + j) as u64,
            ) == #[trigger] interleaved_operations_turns_sorted1(j),
        forall|j: int|
            0 <= j < 20 ==> m.scene.buffer(
                (30 + j) as u64,
            ) == #[trigger] interleaved_operations_turns_kept1(j),
    ensures
        n.holds(),
        n.plan == m.plan,
        n.answers == m.answers,
        n.at == 64 + 4 * k + 4,
        n.used == m.used + 1,
        forall|j: int|
            0 <= j < 20 ==> n.scene.buffer(
                (10 + j) as u64,
            ) == #[trigger] interleaved_operations_turns_sorted1(j),
        forall|j: int|
            0 <= j < 20 ==> n.scene.buffer(
                (30 + j) as u64,
            ) == #[trigger] interleaved_operations_turns_kept1(j),
        crate::stage::asks(
            m.plan,
            m.answers,
            42 + 1 * k,
            interleaved_operations_sorted_without_asks(k),
        ),
{
    crate::stage::lemma_full(m);
    crate::stage::lemma_asks_none(m, 42 + 1 * k);
    let list0 = Seq::<Ask>::empty();
    let m1 = crate::stage::lemma_download(
        m,
        steps[0],
        after(10, k as u64),
        0,
        Scalar::U32,
        3,
        interleaved_operations_turns_sorted1(k),
    );
    crate::stage::lemma_asks_more(
        m,
        42 + 1 * k,
        list0,
        Ask::Words { of: interleaved_operations_turns_sorted1(k), column: 0, scalar: Scalar::U32 },
    );
    let list1 = list0.push(
        Ask::Words { of: interleaved_operations_turns_sorted1(k), column: 0, scalar: Scalar::U32 },
    );
    let m2 = crate::stage::lemma_look(m1, steps[1]);
    assert(crate::stage::meaning(same_as(num(k as u64), num(0)), m2.contents, 0) == 0) by {
        reveal_with_fuel(crate::stage::meaning, 6);
    }
    crate::stage::lemma_guard(m2, steps[2], same_as(num(k as u64), num(0)), false);
    let m3 = crate::stage::lemma_skipped(m2, steps[2]);
    assert(crate::stage::meaning(differs(num(k as u64), num(0)), m3.contents, 0) != 0) by {
        reveal_with_fuel(crate::stage::meaning, 6);
    }
    crate::stage::lemma_guard(m3, steps[3], differs(num(k as u64), num(0)), true);
    let m4 = crate::stage::lemma_look(m3, steps[3]);
    assert(interleaved_operations_sorted_without_asks(k) == list1);
    m4
}

/// The steps of the part `sorted` of `test_interleaved_operations`.
proof fn lemma_interleaved_operations_sorted_steps(k: int)
    ensures
        ({
            let steps = crate::categories::c19_multi_stream::interleaved_operations_sorted_round(
                k as u64,
            );
            &&& steps.len() == 4
            &&& crate::stage::demands(
                steps[0],
                Request::Download {
                    of: after(10, k as u64),
                    column: 0,
                    scalar: Scalar::U32,
                    into: 3,
                },
            )
            &&& crate::stage::looks(steps[1])
            &&& crate::stage::guards(steps[2], same_as(num(k as u64), num(0)))
            &&& crate::walk::straight(steps[2])
            &&& crate::stage::works(crate::stage::bare(steps[2]), 4)
            &&& crate::stage::guards(steps[3], differs(num(k as u64), num(0)))
            &&& crate::walk::straight(steps[3])
            &&& crate::stage::looks(crate::stage::bare(steps[3]))
        }),
{
}

/// Round `k` of the part `sorted` of `test_interleaved_operations` asks what it should.
proof fn lemma_interleaved_operations_sorted_round(m: Moment, k: int) -> (n: Moment)
    requires
        0 <= k < 20,
        m.holds(),
        m.at == 64 + 4 * k,
        m.used == 42 + 1 * k,
        m.at + 4 <= m.plan.steps.len(),
        forall|j: int|
            0 <= j < 4 ==> m.plan.steps[64 + 4 * k + j] == #[trigger] crate::categories::c19_multi_stream::interleaved_operations_sorted_round(
                k as u64,
            )[j],
        forall|j: int|
            0 <= j < 20 ==> m.scene.buffer(
                (10 + j) as u64,
            ) == #[trigger] interleaved_operations_turns_sorted1(j),
        forall|j: int|
            0 <= j < 20 ==> m.scene.buffer(
                (30 + j) as u64,
            ) == #[trigger] interleaved_operations_turns_kept1(j),
    ensures
        n.holds(),
        n.plan == m.plan,
        n.answers == m.answers,
        n.at == 64 + 4 * (k + 1),
        n.used == 42 + 1 * (k + 1),
        forall|j: int|
            0 <= j < 20 ==> n.scene.buffer(
                (10 + j) as u64,
            ) == #[trigger] interleaved_operations_turns_sorted1(j),
        forall|j: int|
            0 <= j < 20 ==> n.scene.buffer(
                (30 + j) as u64,
            ) == #[trigger] interleaved_operations_turns_kept1(j),
        k == 0 ==> crate::stage::asks(
            m.plan,
            m.answers,
            42 + 1 * k,
            interleaved_operations_sorted_with_asks(k),
        ),
        !(k == 0) ==> crate::stage::asks(
            m.plan,
            m.answers,
            42 + 1 * k,
            interleaved_operations_sorted_without_asks(k),
        ),
{
    let steps = crate::categories::c19_multi_stream::interleaved_operations_sorted_round(k as u64);
    lemma_interleaved_operations_sorted_steps(k);
    if k == 0 {
        lemma_interleaved_operations_sorted_with(m, steps, k)
    } else {
        lemma_interleaved_operations_sorted_without(m, steps, k)
    }
}

/// The first `k` rounds of the part `sorted` of `test_interleaved_operations` ask what they should.
proof fn lemma_interleaved_operations_sorted_rounds(
    m: Moment,
    part: Seq<Step>,
    k: int,
) -> (n: Moment)
    requires
        0 <= k <= 20,
        m.holds(),
        m.at == 64,
        m.used == 42 + 1 * 0,
        m.at + 80 <= m.plan.steps.len(),
        part == crate::script::rounds(
            20,
            |k: int| crate::categories::c19_multi_stream::interleaved_operations_sorted_round(
                k as u64,
            ),
        ),
        forall|j: int| 0 <= j < 80 ==> m.plan.steps[64 + j] == #[trigger] part[j],
        forall|j: int|
            0 <= j < 20 ==> m.scene.buffer(
                (10 + j) as u64,
            ) == #[trigger] interleaved_operations_turns_sorted1(j),
        forall|j: int|
            0 <= j < 20 ==> m.scene.buffer(
                (30 + j) as u64,
            ) == #[trigger] interleaved_operations_turns_kept1(j),
    ensures
        n.holds(),
        n.plan == m.plan,
        n.answers == m.answers,
        n.at == 64 + 4 * k,
        n.used == 42 + 1 * k,
        forall|j: int|
            0 <= j < 20 ==> n.scene.buffer(
                (10 + j) as u64,
            ) == #[trigger] interleaved_operations_turns_sorted1(j),
        forall|j: int|
            0 <= j < 20 ==> n.scene.buffer(
                (30 + j) as u64,
            ) == #[trigger] interleaved_operations_turns_kept1(j),
        forall|j: int|
            0 <= j < k && j == 0 ==> crate::stage::asks(
                m.plan,
                m.answers,
                42 + 1 * j,
                #[trigger] interleaved_operations_sorted_with_asks(j),
            ),
        forall|j: int|
            0 <= j < k && !(j == 0) ==> crate::stage::asks(
                m.plan,
                m.answers,
                42 + 1 * j,
                #[trigger] interleaved_operations_sorted_without_asks(j),
            ),
    decreases k,
{
    if k == 0 {
        m
    } else {
        let round = |k: int| crate::categories::c19_multi_stream::interleaved_operations_sorted_round(
            k as u64,
        );
        let before = lemma_interleaved_operations_sorted_rounds(m, part, k - 1);
        assert forall|j: int| 0 <= j < 4 implies m.plan.steps[before.at + j] == #[trigger] crate::categories::c19_multi_stream::interleaved_operations_sorted_round(
            (k - 1) as u64,
        )[j] by {
            assert forall|k: int| 0 <= k < 20 implies (#[trigger] round(k)).len() == 4 by {
                lemma_interleaved_operations_sorted_steps(k);
            }
            crate::stage::lemma_round_place(20, round, 4, k - 1, j);
            assert(part[(k - 1) * 4 + j] == round(k - 1)[j]);
        }
        lemma_interleaved_operations_sorted_round(before, k - 1)
    }
}

/// What the device is asked in round `k` of the part `filtered` of `test_interleaved_operations`.
pub open spec fn interleaved_operations_filtered_asks(k: int) -> Seq<Ask> {
    seq![Ask::Rows(interleaved_operations_turns_kept1(k))]
}

/// Round `k` of the part `filtered` of `test_interleaved_operations` asks what it should.
proof fn lemma_interleaved_operations_filtered(m: Moment, steps: Seq<Step>, k: int) -> (n: Moment)
    requires
        0 <= k < 20,
        m.holds(),
        m.at == 144 + 3 * k,
        m.used == 62 + 1 * k,
        144 + 3 * k + 3 <= m.plan.steps.len(),
        forall|j: int| 0 <= j < 3 ==> m.plan.steps[144 + 3 * k + j] == #[trigger] steps[j],
        crate::stage::reckons(steps[0], 0),
        crate::stage::inquires(steps[1], Request::Rows { of: after(30, k as u64), into: 1 }),
        crate::stage::looks(steps[2]),
        forall|j: int|
            0 <= j < 20 ==> m.scene.buffer(
                (30 + j) as u64,
            ) == #[trigger] interleaved_operations_turns_kept1(j),
    ensures
        n.holds(),
        n.plan == m.plan,
        n.answers == m.answers,
        n.at == 144 + 3 * k + 3,
        n.used == m.used + 1,
        forall|j: int|
            0 <= j < 20 ==> n.scene.buffer(
                (30 + j) as u64,
            ) == #[trigger] interleaved_operations_turns_kept1(j),
        crate::stage::asks(m.plan, m.answers, 62 + 1 * k, interleaved_operations_filtered_asks(k)),
{
    crate::stage::lemma_full(m);
    crate::stage::lemma_asks_none(m, 62 + 1 * k);
    let list0 = Seq::<Ask>::empty();
    let m1 = crate::stage::lemma_reckon(m, steps[0], 0);
    let m2 = crate::stage::lemma_rows(
        m1,
        steps[1],
        after(30, k as u64),
        1,
        interleaved_operations_turns_kept1(k),
    );
    crate::stage::lemma_asks_more(
        m,
        62 + 1 * k,
        list0,
        Ask::Rows(interleaved_operations_turns_kept1(k)),
    );
    let list1 = list0.push(Ask::Rows(interleaved_operations_turns_kept1(k)));
    let m3 = crate::stage::lemma_look(m2, steps[2]);
    assert(interleaved_operations_filtered_asks(k) == list1);
    m3
}

/// The steps of the part `filtered` of `test_interleaved_operations`.
proof fn lemma_interleaved_operations_filtered_steps(k: int)
    ensures
        ({
            let steps = crate::categories::c19_multi_stream::interleaved_operations_filtered_round(
                k as u64,
            );
            &&& steps.len() == 3
            &&& crate::stage::reckons(steps[0], 0)
            &&& crate::stage::inquires(steps[1], Request::Rows { of: after(30, k as u64), into: 1 })
            &&& crate::stage::looks(steps[2])
        }),
{
}

/// The first `k` rounds of the part `filtered` of `test_interleaved_operations` ask what they
/// should.
proof fn lemma_interleaved_operations_filtered_rounds(
    m: Moment,
    part: Seq<Step>,
    k: int,
) -> (n: Moment)
    requires
        0 <= k <= 20,
        m.holds(),
        m.at == 144,
        m.used == 62 + 1 * 0,
        m.at + 60 <= m.plan.steps.len(),
        part == crate::script::rounds(
            20,
            |k: int| crate::categories::c19_multi_stream::interleaved_operations_filtered_round(
                k as u64,
            ),
        ),
        forall|j: int| 0 <= j < 60 ==> m.plan.steps[144 + j] == #[trigger] part[j],
        forall|j: int|
            0 <= j < 20 ==> m.scene.buffer(
                (30 + j) as u64,
            ) == #[trigger] interleaved_operations_turns_kept1(j),
    ensures
        n.holds(),
        n.plan == m.plan,
        n.answers == m.answers,
        n.at == 144 + 3 * k,
        n.used == 62 + 1 * k,
        forall|j: int|
            0 <= j < 20 ==> n.scene.buffer(
                (30 + j) as u64,
            ) == #[trigger] interleaved_operations_turns_kept1(j),
        forall|j: int|
            0 <= j < k ==> crate::stage::asks(
                m.plan,
                m.answers,
                62 + 1 * j,
                #[trigger] interleaved_operations_filtered_asks(j),
            ),
    decreases k,
{
    if k == 0 {
        m
    } else {
        let round = |k: int| crate::categories::c19_multi_stream::interleaved_operations_filtered_round(
            k as u64,
        );
        let before = lemma_interleaved_operations_filtered_rounds(m, part, k - 1);
        assert forall|j: int| 0 <= j < 3 implies m.plan.steps[before.at + j] == #[trigger] crate::categories::c19_multi_stream::interleaved_operations_filtered_round(
            (k - 1) as u64,
        )[j] by {
            assert forall|k: int| 0 <= k < 20 implies (#[trigger] round(k)).len() == 3 by {
                lemma_interleaved_operations_filtered_steps(k);
            }
            crate::stage::lemma_round_place(20, round, 3, k - 1, j);
            assert(part[(k - 1) * 3 + j] == round(k - 1)[j]);
        }
        lemma_interleaved_operations_filtered_steps(k - 1);
        lemma_interleaved_operations_filtered(
            before,
            crate::categories::c19_multi_stream::interleaved_operations_filtered_round(
                (k - 1) as u64,
            ),
            k - 1,
        )
    }
}

/// What the device is asked in the part `end` of `test_interleaved_operations`.
pub open spec fn interleaved_operations_end_asks() -> Seq<Ask> {
    seq![Ask::Other(Request::Sync)]
}

/// The part `end` of `test_interleaved_operations` asks what it should.
proof fn lemma_interleaved_operations_end(m: Moment, steps: Seq<Step>) -> (n: Moment)
    requires
        m.holds(),
        m.at == 204,
        m.used == 82,
        204 + 1 <= m.plan.steps.len(),
        forall|j: int| 0 <= j < 1 ==> m.plan.steps[204 + j] == #[trigger] steps[j],
        crate::stage::demands(steps[0], Request::Sync),
    ensures
        n.holds(),
        n.plan == m.plan,
        n.answers == m.answers,
        n.at == 204 + 1,
        n.used == m.used + 1,
        crate::stage::asks(m.plan, m.answers, 82, interleaved_operations_end_asks()),
{
    crate::stage::lemma_full(m);
    crate::stage::lemma_asks_none(m, 82);
    let list0 = Seq::<Ask>::empty();
    let m1 = crate::stage::lemma_sync(m, steps[0]);
    crate::stage::lemma_asks_more(m, 82, list0, Ask::Other(Request::Sync));
    let list1 = list0.push(Ask::Other(Request::Sync));
    assert(interleaved_operations_end_asks() == list1);
    m1
}

/// The steps of the part `end` of `test_interleaved_operations`.
proof fn lemma_interleaved_operations_end_steps()
    ensures
        ({
            let steps = crate::categories::c19_multi_stream::interleaved_operations_end_steps();
            &&& steps.len() == 1
            &&& crate::stage::demands(steps[0], Request::Sync)
        }),
{
}

/// In a run of `test_interleaved_operations` that passes the device is asked this, in this order,
/// and nothing else: each request about what an earlier one made is about that, and about what was
/// uploaded for it.
pub proof fn law_interleaved_operations_asks_about_what_it_made(answers: Seq<Answer>)
    requires
        crate::stage::passes(
            crate::script::plan(
                "test_interleaved_operations",
                crate::categories::c19_multi_stream::interleaved_operations_steps(),
            ),
            answers,
        ),
    ensures
        crate::stage::asks(
            crate::script::plan(
                "test_interleaved_operations",
                crate::categories::c19_multi_stream::interleaved_operations_steps(),
            ),
            answers,
            0,
            interleaved_operations_start_asks(),
        ),
        forall|k: int|
            0 <= k < 20 ==> crate::stage::asks(
                crate::script::plan(
                    "test_interleaved_operations",
                    crate::categories::c19_multi_stream::interleaved_operations_steps(),
                ),
                answers,
                2 + 2 * k,
                #[trigger] interleaved_operations_turns_asks(k),
            ),
        forall|k: int|
            0 <= k < 20 && k == 0 ==> crate::stage::asks(
                crate::script::plan(
                    "test_interleaved_operations",
                    crate::categories::c19_multi_stream::interleaved_operations_steps(),
                ),
                answers,
                42 + 1 * k,
                #[trigger] interleaved_operations_sorted_with_asks(k),
            ),
        forall|k: int|
            0 <= k < 20 && !(k == 0) ==> crate::stage::asks(
                crate::script::plan(
                    "test_interleaved_operations",
                    crate::categories::c19_multi_stream::interleaved_operations_steps(),
                ),
                answers,
                42 + 1 * k,
                #[trigger] interleaved_operations_sorted_without_asks(k),
            ),
        forall|k: int|
            0 <= k < 20 ==> crate::stage::asks(
                crate::script::plan(
                    "test_interleaved_operations",
                    crate::categories::c19_multi_stream::interleaved_operations_steps(),
                ),
                answers,
                62 + 1 * k,
                #[trigger] interleaved_operations_filtered_asks(k),
            ),
        crate::stage::asks(
            crate::script::plan(
                "test_interleaved_operations",
                crate::categories::c19_multi_stream::interleaved_operations_steps(),
            ),
            answers,
            82,
            interleaved_operations_end_asks(),
        ),
        crate::stage::asked(
            crate::script::plan(
                "test_interleaved_operations",
                crate::categories::c19_multi_stream::interleaved_operations_steps(),
            ),
            answers,
            83,
        ) is None,
{
    let plan = crate::script::plan(
        "test_interleaved_operations",
        crate::categories::c19_multi_stream::interleaved_operations_steps(),
    );
    let part1 = crate::categories::c19_multi_stream::interleaved_operations_start_steps();
    lemma_interleaved_operations_start_steps();
    let round2 = |k: int| crate::categories::c19_multi_stream::interleaved_operations_turns_round(
        k as u64,
    );
    let part2 = crate::script::rounds(20, round2);
    assert forall|k: int| 0 <= k < 20 implies (#[trigger] round2(k)).len() == 3 by {
        lemma_interleaved_operations_turns_steps(k);
    }
    crate::stage::lemma_rounds_length(20, round2, 3);
    let round3 = |k: int| crate::categories::c19_multi_stream::interleaved_operations_sorted_round(
        k as u64,
    );
    let part3 = crate::script::rounds(20, round3);
    assert forall|k: int| 0 <= k < 20 implies (#[trigger] round3(k)).len() == 4 by {
        lemma_interleaved_operations_sorted_steps(k);
    }
    crate::stage::lemma_rounds_length(20, round3, 4);
    let round4 = |k: int| crate::categories::c19_multi_stream::interleaved_operations_filtered_round(
        k as u64,
    );
    let part4 = crate::script::rounds(20, round4);
    assert forall|k: int| 0 <= k < 20 implies (#[trigger] round4(k)).len() == 3 by {
        lemma_interleaved_operations_filtered_steps(k);
    }
    crate::stage::lemma_rounds_length(20, round4, 3);
    let part5 = crate::categories::c19_multi_stream::interleaved_operations_end_steps();
    lemma_interleaved_operations_end_steps();
    let whole1 = part1;
    let whole2 = whole1 + part2;
    let whole3 = whole2 + part3;
    let whole4 = whole3 + part4;
    let whole5 = whole4 + part5;
    assert(plan.steps == whole5);
    let m0 = crate::stage::lemma_start(plan, answers);
    assert forall|j: int| 0 <= j < 4 implies plan.steps[0 + j] == #[trigger] part1[j] by {}
    let m1 = lemma_interleaved_operations_start(m0, part1);
    assert forall|j: int| 0 <= j < 60 implies plan.steps[4 + j] == #[trigger] part2[j] by {}
    let m2 = lemma_interleaved_operations_turns_rounds(m1, part2, 20);
    assert forall|j: int| 0 <= j < 80 implies plan.steps[64 + j] == #[trigger] part3[j] by {}
    let m3 = lemma_interleaved_operations_sorted_rounds(m2, part3, 20);
    assert forall|j: int| 0 <= j < 60 implies plan.steps[144 + j] == #[trigger] part4[j] by {}
    let m4 = lemma_interleaved_operations_filtered_rounds(m3, part4, 20);
    assert forall|j: int| 0 <= j < 1 implies plan.steps[204 + j] == #[trigger] part5[j] by {}
    let m5 = lemma_interleaved_operations_end(m4, part5);
    crate::stage::lemma_end(m5);
}

} // verus!
