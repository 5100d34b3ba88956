//! What these tests ask the device in runs that pass: `test_deep_sort_keys`,
//! `test_repeated_operations`, `test_variable_workload`.

use vstd::prelude::*;
use crate::expr::{ix, minus, modulo, num, over, same_as};
use crate::machine::Answer;
use crate::scalar::Scalar;
use crate::script::{Layout, Request, Step};
use crate::stage::{Ask, Moment, Thing};

verus! {

/// What is sorted in the part `all` of `test_deep_sort_keys`.
pub open spec fn deep_sort_keys_all_sorted1() -> Thing {
    Thing::Sorted {
        of: Box::new(
            Thing::Table {
                layout: Layout::FourKeys,
                scalar: Scalar::U32,
                columns: seq![
                    crate::stage::column(10000, |i: int| (9999 - i) / 1000),
                    crate::stage::column(10000, |i: int| ((9999 - i) % 1000) / 100),
                    crate::stage::column(10000, |i: int| ((9999 - i) % 100) / 10),
                    crate::stage::column(10000, |i: int| (9999 - i) % 10),
                    crate::stage::column(10000, |i: int| 9999 - i),
                ],
                turn: 0,
            },
        ),
        keys: 4,
        turn: 1,
    }
}

/// What the device is asked in piece 1 of the part `all` of `test_deep_sort_keys`.
pub open spec fn deep_sort_keys_all_1_asks() -> Seq<Ask> {
    let words1 = crate::stage::column(10000, |i: int| (9999 - i) / 1000);
    let words2 = crate::stage::column(10000, |i: int| ((9999 - i) % 1000) / 100);
    let words3 = crate::stage::column(10000, |i: int| ((9999 - i) % 100) / 10);
    let words4 = crate::stage::column(10000, |i: int| (9999 - i) % 10);
    let words5 = crate::stage::column(10000, |i: int| 9999 - i);
    let table1 = Thing::Table {
        layout: Layout::FourKeys,
        scalar: Scalar::U32,
        columns: seq![words1, words2, words3, words4, words5],
        turn: 0,
    };
    seq![
        Ask::Make(table1),
        Ask::Make(deep_sort_keys_all_sorted1()),
        Ask::Handle(deep_sort_keys_all_sorted1()),
    ]
}

/// Piece 1 of the part `all` of `test_deep_sort_keys` asks what it should.
proof fn lemma_deep_sort_keys_all_1(m: Moment, steps: Seq<Step>) -> (n: Moment)
    requires
        m.holds(),
        m.at == 0,
        m.used == 0,
        0 + 15 <= m.plan.steps.len(),
        forall|j: int| 0 <= j < 15 ==> m.plan.steps[0 + j] == #[trigger] steps[j],
        crate::stage::fills(steps[0], 0, num(10000), over(minus(num(9999), ix()), num(1000))),
        crate::stage::fills(
            steps[1],
            1,
            num(10000),
            over(modulo(minus(num(9999), ix()), num(1000)), num(100)),
        ),
        crate::stage::fills(
            steps[2],
            2,
            num(10000),
            over(modulo(minus(num(9999), ix()), num(100)), num(10)),
        ),
        crate::stage::fills(steps[3], 3, num(10000), modulo(minus(num(9999), ix()), num(10))),
        crate::stage::fills(steps[4], 4, num(10000), minus(num(9999), ix())),
        crate::stage::demands(
            steps[5],
            Request::Create { into: 0, layout: Layout::FourKeys, scalar: Scalar::U32, from: 0 },
        ),
        crate::stage::demands(steps[6], Request::Sort { of: 0, keys: 4, into: 1 }),
        crate::stage::inquires(steps[7], Request::RowsKnown { of: 1, into: 0 }),
    ensures
        n.holds(),
        n.plan == m.plan,
        n.answers == m.answers,
        n.at == 0 + 8,
        n.used == m.used + 3,
        n.scene.buffer(1) == deep_sort_keys_all_sorted1(),
        crate::stage::asks(m.plan, m.answers, 0, deep_sort_keys_all_1_asks()),
{
    crate::stage::lemma_full(m);
    crate::stage::lemma_asks_none(m, 0);
    let list0 = Seq::<Ask>::empty();
    let words1 = crate::stage::column(10000, |i: int| (9999 - i) / 1000);
    let word1 = over(minus(num(9999), ix()), num(1000));
    assert forall|i: int| 0 <= i < words1.len() implies crate::stage::meaning(
        word1,
        m.contents,
        i,
    ) as u64 == #[trigger] words1[i] by {
        reveal_with_fuel(crate::stage::meaning, 4);
    }
    let m1 = crate::stage::lemma_filled(m, steps[0], 0, num(10000), word1, words1);
    let words2 = crate::stage::column(10000, |i: int| ((9999 - i) % 1000) / 100);
    let word2 = over(modulo(minus(num(9999), ix()), num(1000)), num(100));
    assert forall|i: int| 0 <= i < words2.len() implies crate::stage::meaning(
        word2,
        m1.contents,
        i,
    ) as u64 == #[trigger] words2[i] by {
        reveal_with_fuel(crate::stage::meaning, 5);
    }
    let m2 = crate::stage::lemma_filled(m1, steps[1], 1, num(10000), word2, words2);
    let words3 = crate::stage::column(10000, |i: int| ((9999 - i) % 100) / 10);
    let word3 = over(modulo(minus(num(9999), ix()), num(100)), num(10));
    assert forall|i: int| 0 <= i < words3.len() implies crate::stage::meaning(
        word3,
        m2.contents,
        i,
    ) as u64 == #[trigger] words3[i] by {
        reveal_with_fuel(crate::stage::meaning, 5);
    }
    let m3 = crate::stage::lemma_filled(m2, steps[2], 2, num(10000), word3, words3);
    let words4 = crate::stage::column(10000, |i: int| (9999 - i) % 10);
    let word4 = modulo(minus(num(9999), ix()), num(10));
    assert forall|i: int| 0 <= i < words4.len() implies crate::stage::meaning(
        word4,
        m3.contents,
        i,
    ) as u64 == #[trigger] words4[i] by {
        reveal_with_fuel(crate::stage::meaning, 4);
    }
    let m4 = crate::stage::lemma_filled(m3, steps[3], 3, num(10000), word4, words4);
    let words5 = crate::stage::column(10000, |i: int| 9999 - i);
    let word5 = minus(num(9999), ix());
    assert forall|i: int| 0 <= i < words5.len() implies crate::stage::meaning(
        word5,
        m4.contents,
        i,
    ) as u64 == #[trigger] words5[i] by {
        reveal_with_fuel(crate::stage::meaning, 3);
    }
    let m5 = crate::stage::lemma_filled(m4, steps[4], 4, num(10000), word5, words5);
    let table1 = Thing::Table {
        layout: Layout::FourKeys,
        scalar: Scalar::U32,
        columns: seq![words1, words2, words3, words4, words5],
        turn: 0,
    };
    let m6 = crate::stage::lemma_create(m5, steps[5], 0, Layout::FourKeys, Scalar::U32, 0, table1);
    crate::stage::lemma_asks_more(m, 0, list0, Ask::Make(table1));
    let list1 = list0.push(Ask::Make(table1));
    let m7 = crate::stage::lemma_sort(m6, steps[6], 0, 4, 1, table1, deep_sort_keys_all_sorted1());
    crate::stage::lemma_asks_more(m, 0, list1, Ask::Make(deep_sort_keys_all_sorted1()));
    let list2 = list1.push(Ask::Make(deep_sort_keys_all_sorted1()));
    let m8 = crate::stage::lemma_handle(m7, steps[7], 1, 0, deep_sort_keys_all_sorted1());
    crate::stage::lemma_asks_more(m, 0, list2, Ask::Handle(deep_sort_keys_all_sorted1()));
    let list3 = list2.push(Ask::Handle(deep_sort_keys_all_sorted1()));
    assert(deep_sort_keys_all_1_asks() == list3);
    m8
}

/// What the device is asked in piece 2 of the part `all` of `test_deep_sort_keys`.
pub open spec fn deep_sort_keys_all_2_asks() -> Seq<Ask> {
    seq![
        Ask::Words { of: deep_sort_keys_all_sorted1(), column: 0, scalar: Scalar::U32 },
        Ask::Words { of: deep_sort_keys_all_sorted1(), column: 1, scalar: Scalar::U32 },
        Ask::Words { of: deep_sort_keys_all_sorted1(), column: 4, scalar: Scalar::U32 },
        Ask::Other(Request::Sync),
    ]
}

/// Piece 2 of the part `all` of `test_deep_sort_keys` asks what it should.
proof fn lemma_deep_sort_keys_all_2(m: Moment, steps: Seq<Step>) -> (n: Moment)
    requires
        m.holds(),
        m.at == 0 + 8,
        m.used == 3,
        0 + 15 <= m.plan.steps.len(),
        forall|j: int| 0 <= j < 15 ==> m.plan.steps[0 + j] == #[trigger] steps[j],
        crate::stage::looks(steps[8]),
        crate::stage::demands(
            steps[9],
            Request::Download { of: 1, column: 0, scalar: Scalar::U32, into: 5 },
        ),
        crate::stage::demands(
            steps[10],
            Request::Download { of: 1, column: 1, scalar: Scalar::U32, into: 6 },
        ),
        crate::stage::demands(
            steps[11],
            Request::Download { of: 1, column: 4, scalar: Scalar::U32, into: 7 },
        ),
        crate::stage::looks(steps[12]),
        crate::stage::looks(steps[13]),
        crate::stage::demands(steps[14], Request::Sync),
        m.scene.buffer(1) == deep_sort_keys_all_sorted1(),
    ensures
        n.holds(),
        n.plan == m.plan,
        n.answers == m.answers,
        n.at == 0 + 15,
        n.used == m.used + 4,
        crate::stage::asks(m.plan, m.answers, 3, deep_sort_keys_all_2_asks()),
{
    crate::stage::lemma_full(m);
    crate::stage::lemma_asks_none(m, 3);
    let list0 = Seq::<Ask>::empty();
    let m1 = crate::stage::lemma_look(m, steps[8]);
    let m2 = crate::stage::lemma_download(
        m1,
        steps[9],
        1,
        0,
        Scalar::U32,
        5,
        deep_sort_keys_all_sorted1(),
    );
    crate::stage::lemma_asks_more(
        m,
        3,
        list0,
        Ask::Words { of: deep_sort_keys_all_sorted1(), column: 0, scalar: Scalar::U32 },
    );
    let list1 = list0.push(
        Ask::Words { of: deep_sort_keys_all_sorted1(), column: 0, scalar: Scalar::U32 },
    );
    let m3 = crate::stage::lemma_download(
        m2,
        steps[10],
        1,
        1,
        Scalar::U32,
        6,
        deep_sort_keys_all_sorted1(),
    );
    crate::stage::lemma_asks_more(
        m,
        3,
        list1,
        Ask::Words { of: deep_sort_keys_all_sorted1(), column: 1, scalar: Scalar::U32 },
    );
    let list2 = list1.push(
        Ask::Words { of: deep_sort_keys_all_sorted1(), column: 1, scalar: Scalar::U32 },
    );
    let m4 = crate::stage::lemma_download(
        m3,
        steps[11],
        1,
        4,
        Scalar::U32,
        7,
        deep_sort_keys_all_sorted1(),
    );
    crate::stage::lemma_asks_more(
        m,
        3,
        list2,
        Ask::Words { of: deep_sort_keys_all_sorted1(), column: 4, scalar: Scalar::U32 },
    );
    let list3 = list2.push(
        Ask::Words { of: deep_sort_keys_all_sorted1(), column: 4, scalar: Scalar::U32 },
    );
    let m5 = crate::stage::lemma_look(m4, steps[12]);
    let m6 = crate::stage::lemma_look(m5, steps[13]);
    let m7 = crate::stage::lemma_sync(m6, steps[14]);
    crate::stage::lemma_asks_more(m, 3, list3, Ask::Other(Request::Sync));
    let list4 = list3.push(Ask::Other(Request::Sync));
    assert(deep_sort_keys_all_2_asks() == list4);
    m7
}

/// The steps of the part `all` of `test_deep_sort_keys`.
proof fn lemma_deep_sort_keys_all_steps()
    ensures
        ({
            let steps = crate::categories::c07_local_memory::deep_sort_keys_steps();
            &&& steps.len() == 15
            &&& crate::stage::fills(
                steps[0],
                0,
                num(10000),
                over(minus(num(9999), ix()), num(1000)),
            )
            &&& crate::stage::fills(
                steps[1],
                1,
                num(10000),
                over(modulo(minus(num(9999), ix()), num(1000)), num(100)),
            )
            &&& crate::stage::fills(
                steps[2],
                2,
                num(10000),
                over(modulo(minus(num(9999), ix()), num(100)), num(10)),
            )
            &&& crate::stage::fills(
                steps[3],
                3,
                num(10000),
                modulo(minus(num(9999), ix()), num(10)),
            )
            &&& crate::stage::fills(steps[4], 4, num(10000), minus(num(9999), ix()))
            &&& crate::stage::demands(
                steps[5],
                Request::Create { into: 0, layout: Layout::FourKeys, scalar: Scalar::U32, from: 0 },
            )
            &&& crate::stage::demands(steps[6], Request::Sort { of: 0, keys: 4, into: 1 })
            &&& crate::stage::inquires(steps[7], Request::RowsKnown { of: 1, into: 0 })
            &&& crate::stage::looks(steps[8])
            &&& crate::stage::demands(
                steps[9],
                Request::Download { of: 1, column: 0, scalar: Scalar::U32, into: 5 },
            )
            &&& crate::stage::demands(
                steps[10],
                Request::Download { of: 1, column: 1, scalar: Scalar::U32, into: 6 },
            )
            &&& crate::stage::demands(
                steps[11],
                Request::Download { of: 1, column: 4, scalar: Scalar::U32, into: 7 },
            )
            &&& crate::stage::looks(steps[12])
            &&& crate::stage::looks(steps[13])
            &&& crate::stage::demands(steps[14], Request::Sync)
        }),
{
}

/// In a run of `test_deep_sort_keys` that passes the device is asked this, in this order, and
/// nothing else: each request about what an earlier one made is about that, and about what was
/// uploaded for it.
pub proof fn law_deep_sort_keys_asks_about_what_it_made(answers: Seq<Answer>)
    requires
        crate::stage::passes(
            crate::script::plan(
                "test_deep_sort_keys",
                crate::categories::c07_local_memory::deep_sort_keys_steps(),
            ),
            answers,
        ),
    ensures
        crate::stage::asks(
            crate::script::plan(
                "test_deep_sort_keys",
                crate::categories::c07_local_memory::deep_sort_keys_steps(),
            ),
            answers,
            0,
            deep_sort_keys_all_1_asks(),
        ),
        crate::stage::asks(
            crate::script::plan(
                "test_deep_sort_keys",
                crate::categories::c07_local_memory::deep_sort_keys_steps(),
            ),
            answers,
            3,
            deep_sort_keys_all_2_asks(),
        ),
        crate::stage::asked(
            crate::script::plan(
                "test_deep_sort_keys",
                crate::categories::c07_local_memory::deep_sort_keys_steps(),
            ),
            answers,
            7,
        ) is None,
{
    let plan = crate::script::plan(
        "test_deep_sort_keys",
        crate::categories::c07_local_memory::deep_sort_keys_steps(),
    );
    let part1 = crate::categories::c07_local_memory::deep_sort_keys_steps();
    lemma_deep_sort_keys_all_steps();
    let whole1 = part1;
    assert(plan.steps == whole1);
    let m0 = crate::stage::lemma_start(plan, answers);
    assert forall|j: int| 0 <= j < 15 implies plan.steps[0 + j] == #[trigger] part1[j] by {}
    let m1 = lemma_deep_sort_keys_all_1(m0, part1);
    let m2 = lemma_deep_sort_keys_all_2(m1, part1);
    crate::stage::lemma_end(m2);
}

/// The turn in which round `k` of the part `sorts` of `test_repeated_operations` starts.
pub open spec fn repeated_operations_sorts_start(k: int) -> int
    decreases k,
{
    if k <= 0 {
        1
    } else {
        repeated_operations_sorts_start(k - 1) + if ((k - 1) % 5) == 0 { 4int } else { 3int }
    }
}

/// A buffer that is uploaded in the part `start` of `test_repeated_operations`.
pub open spec fn repeated_operations_start_table1() -> Thing {
    Thing::Table {
        layout: Layout::Val,
        scalar: Scalar::U32,
        columns: seq![crate::stage::column(5000, |i: int| i)],
        turn: 0,
    }
}

/// What the device is asked in the part `start` of `test_repeated_operations`.
pub open spec fn repeated_operations_start_asks() -> Seq<Ask> {
    seq![Ask::Make(repeated_operations_start_table1())]
}

/// The part `start` of `test_repeated_operations` asks what it should.
proof fn lemma_repeated_operations_start(m: Moment, steps: Seq<Step>) -> (n: Moment)
    requires
        m.holds(),
        m.at == 0,
        m.used == 0,
        0 + 2 <= m.plan.steps.len(),
        forall|j: int| 0 <= j < 2 ==> m.plan.steps[0 + j] == #[trigger] steps[j],
        crate::stage::fills(steps[0], 0, num(5000), ix()),
        crate::stage::demands(
            steps[1],
            Request::Create { into: 0, layout: Layout::Val, scalar: Scalar::U32, from: 0 },
        ),
    ensures
        n.holds(),
        n.plan == m.plan,
        n.answers == m.answers,
        n.at == 0 + 2,
        n.used == m.used + 1,
        n.scene.buffer(0) == repeated_operations_start_table1(),
        crate::stage::asks(m.plan, m.answers, 0, repeated_operations_start_asks()),
{
    crate::stage::lemma_full(m);
    crate::stage::lemma_asks_none(m, 0);
    let list0 = Seq::<Ask>::empty();
    let words1 = crate::stage::column(5000, |i: int| i);
    let word1 = ix();
    assert forall|i: int| 0 <= i < words1.len() implies crate::stage::meaning(
        word1,
        m.contents,
        i,
    ) as u64 == #[trigger] words1[i] by {
        reveal_with_fuel(crate::stage::meaning, 1);
    }
    let m1 = crate::stage::lemma_filled(m, steps[0], 0, num(5000), word1, words1);
    let m2 = crate::stage::lemma_create(
        m1,
        steps[1],
        0,
        Layout::Val,
        Scalar::U32,
        0,
        repeated_operations_start_table1(),
    );
    crate::stage::lemma_asks_more(m, 0, list0, Ask::Make(repeated_operations_start_table1()));
    let list1 = list0.push(Ask::Make(repeated_operations_start_table1()));
    assert(repeated_operations_start_asks() == list1);
    m2
}

/// The steps of the part `start` of `test_repeated_operations`.
proof fn lemma_repeated_operations_start_steps()
    ensures
        ({
            let steps = crate::categories::c07_local_memory::repeated_operations_start_steps();
            &&& steps.len() == 2
            &&& crate::stage::fills(steps[0], 0, num(5000), ix())
            &&& crate::stage::demands(
                steps[1],
                Request::Create { into: 0, layout: Layout::Val, scalar: Scalar::U32, from: 0 },
            )
        }),
{
}

/// What the device is asked in round `k` of the part `sorts` of `test_repeated_operations`.
pub open spec fn repeated_operations_sorts_with_asks(k: int) -> Seq<Ask> {
    let sorted1 = Thing::Sorted {
        of: Box::new(repeated_operations_start_table1()),
        keys: 1,
        turn: repeated_operations_sorts_start(k),
    };
    seq![
        Ask::Make(sorted1),
        Ask::Handle(sorted1),
        Ask::Words { of: sorted1, column: 0, scalar: Scalar::U32 },
        Ask::Other(Request::Release { from: 1 }),
    ]
}

/// Round `k` of the part `sorts` of `test_repeated_operations` asks what it should.
proof fn lemma_repeated_operations_sorts_with(m: Moment, steps: Seq<Step>, k: int) -> (n: Moment)
    requires
        0 <= k < 20,
        (k % 5) == 0,
        m.holds(),
        m.at == 2 + 6 * k,
        m.used == repeated_operations_sorts_start(k),
        2 + 6 * k + 6 <= m.plan.steps.len(),
        forall|j: int| 0 <= j < 6 ==> m.plan.steps[2 + 6 * k + j] == #[trigger] steps[j],
        crate::stage::demands(steps[0], Request::Sort { of: 0, keys: 1, into: 1 }),
        crate::stage::inquires(steps[1], Request::RowsKnown { of: 1, into: 0 }),
        crate::stage::looks(steps[2]),
        crate::stage::guards(steps[3], same_as(modulo(num(k as u64), num(5)), num(0))),
        crate::walk::straight(steps[3]),
        crate::stage::demands(
            crate::stage::bare(steps[3]),
            Request::Download { of: 1, column: 0, scalar: Scalar::U32, into: 1 },
        ),
        crate::stage::guards(steps[4], same_as(modulo(num(k as u64), num(5)), num(0))),
        crate::walk::straight(steps[4]),
        crate::stage::looks(crate::stage::bare(steps[4])),
        crate::stage::inquires(steps[5], Request::Release { from: 1 }),
        m.scene.buffer(0) == repeated_operations_start_table1(),
    ensures
        n.holds(),
        n.plan == m.plan,
        n.answers == m.answers,
        n.at == 2 + 6 * k + 6,
        n.used == m.used + 4,
        n.scene.buffer(0) == repeated_operations_start_table1(),
        crate::stage::asks(
            m.plan,
            m.answers,
            repeated_operations_sorts_start(k),
            repeated_operations_sorts_with_asks(k),
        ),
{
    crate::stage::lemma_full(m);
    crate::stage::lemma_asks_none(m, repeated_operations_sorts_start(k));
    let list0 = Seq::<Ask>::empty();
    let sorted1 = Thing::Sorted {
        of: Box::new(repeated_operations_start_table1()),
        keys: 1,
        turn: repeated_operations_sorts_start(k),
    };
    let m1 = crate::stage::lemma_sort(
        m,
        steps[0],
        0,
        1,
        1,
        repeated_operations_start_table1(),
        sorted1,
    );
    crate::stage::lemma_asks_more(m, repeated_operations_sorts_start(k), list0, Ask::Make(sorted1));
    let list1 = list0.push(Ask::Make(sorted1));
    let m2 = crate::stage::lemma_handle(m1, steps[1], 1, 0, sorted1);
    crate::stage::lemma_asks_more(
        m,
        repeated_operations_sorts_start(k),
        list1,
        Ask::Handle(sorted1),
    );
    let list2 = list1.push(Ask::Handle(sorted1));
    let m3 = crate::stage::lemma_look(m2, steps[2]);
    assert(
        crate::stage::meaning(same_as(modulo(num(k as u64), num(5)), num(0)), m3.contents, 0) != 0
    ) by {
        reveal_with_fuel(crate::stage::meaning, 6);
    }
    crate::stage::lemma_guard(m3, steps[3], same_as(modulo(num(k as u64), num(5)), num(0)), true);
    let m4 = crate::stage::lemma_download(m3, steps[3], 1, 0, Scalar::U32, 1, sorted1);
    crate::stage::lemma_asks_more(
        m,
        repeated_operations_sorts_start(k),
        list2,
        Ask::Words { of: sorted1, column: 0, scalar: Scalar::U32 },
    );
    let list3 = list2.push(Ask::Words { of: sorted1, column: 0, scalar: Scalar::U32 });
    assert(
        crate::stage::meaning(same_as(modulo(num(k as u64), num(5)), num(0)), m4.contents, 0) != 0
    ) by {
        reveal_with_fuel(crate::stage::meaning, 6);
    }
    crate::stage::lemma_guard(m4, steps[4], same_as(modulo(num(k as u64), num(5)), num(0)), true);
    let m5 = crate::stage::lemma_look(m4, steps[4]);
    let m6 = crate::stage::lemma_release(m5, steps[5], 1);
    crate::stage::lemma_asks_more(
        m,
        repeated_operations_sorts_start(k),
        list3,
        Ask::Other(Request::Release { from: 1 }),
    );
    let list4 = list3.push(Ask::Other(Request::Release { from: 1 }));
    assert(repeated_operations_sorts_with_asks(k) == list4);
    m6
}

/// What the device is asked in round `k` of the part `sorts` of `test_repeated_operations`.
pub open spec fn repeated_operations_sorts_without_asks(k: int) -> Seq<Ask> {
    let sorted1 = Thing::Sorted {
        of: Box::new(repeated_operations_start_table1()),
        keys: 1,
        turn: repeated_operations_sorts_start(k),
    };
    seq![Ask::Make(sorted1), Ask::Handle(sorted1), Ask::Other(Request::Release { from: 1 })]
}

/// Round `k` of the part `sorts` of `test_repeated_operations` asks what it should.
proof fn lemma_repeated_operations_sorts_without(m: Moment, steps: Seq<Step>, k: int) -> (n: Moment)
    requires
        0 <= k < 20,
        !((k % 5) == 0),
        m.holds(),
        m.at == 2 + 6 * k,
        m.used == repeated_operations_sorts_start(k),
        2 + 6 * k + 6 <= m.plan.steps.len(),
        forall|j: int| 0 <= j < 6 ==> m.plan.steps[2 + 6 * k + j] == #[trigger] steps[j],
        crate::stage::demands(steps[0], Request::Sort { of: 0, keys: 1, into: 1 }),
        crate::stage::inquires(steps[1], Request::RowsKnown { of: 1, into: 0 }),
        crate::stage::looks(steps[2]),
        crate::stage::guards(steps[3], same_as(modulo(num(k as u64), num(5)), num(0))),
        crate::walk::straight(steps[3]),
        crate::stage::guards(steps[4], same_as(modulo(num(k as u64), num(5)), num(0))),
        crate::walk::straight(steps[4]),
        crate::stage::inquires(steps[5], Request::Release { from: 1 }),
        m.scene.buffer(0) == repeated_operations_start_table1(),
    ensures
        n.holds(),
        n.plan == m.plan,
        n.answers == m.answers,
        n.at == 2 + 6 * k + 6,
        n.used == m.used + 3,
        n.scene.buffer(0) == repeated_operations_start_table1(),
        crate::stage::asks(
            m.plan,
            m.answers,
            repeated_operations_sorts_start(k),
            repeated_operations_sorts_without_asks(k),
        ),
{
    crate::stage::lemma_full(m);
    crate::stage::lemma_asks_none(m, repeated_operations_sorts_start(k));
    let list0 = Seq::<Ask>::empty();
    let sorted1 = Thing::Sorted {
        of: Box::new(repeated_operations_start_table1()),
        keys: 1,
        turn: repeated_operations_sorts_start(k),
    };
    let m1 = crate::stage::lemma_sort(
        m,
        steps[0],
        0,
        1,
        1,
        repeated_operations_start_table1(),
        sorted1,
    );
    crate::stage::lemma_asks_more(m, repeated_operations_sorts_start(k), list0, Ask::Make(sorted1));
    let list1 = list0.push(Ask::Make(sorted1));
    let m2 = crate::stage::lemma_handle(m1, steps[1], 1, 0, sorted1);
    crate::stage::lemma_asks_more(
        m,
        repeated_operations_sorts_start(k),
        list1,
        Ask::Handle(sorted1),
    );
    let list2 = list1.push(Ask::Handle(sorted1));
    let m3 = crate::stage::lemma_look(m2, steps[2]);
    assert(
        crate::stage::meaning(same_as(modulo(num(k as u64), num(5)), num(0)), m3.contents, 0) == 0
    ) by {
        reveal_with_fuel(crate::stage::meaning, 6);
    }
    crate::stage::lemma_guard(m3, steps[3], same_as(modulo(num(k as u64), num(5)), num(0)), false);
    let m4 = crate::stage::lemma_skipped(m3, steps[3]);
    assert(
        crate::stage::meaning(same_as(modulo(num(k as u64), num(5)), num(0)), m4.contents, 0) == 0
    ) by {
        reveal_with_fuel(crate::stage::meaning, 6);
    }
    crate::stage::lemma_guard(m4, steps[4], same_as(modulo(num(k as u64), num(5)), num(0)), false);
    let m5 = crate::stage::lemma_skipped(m4, steps[4]);
    let m6 = crate::stage::lemma_release(m5, steps[5], 1);
    crate::stage::lemma_asks_more(
        m,
        repeated_operations_sorts_start(k),
        list2,
        Ask::Other(Request::Release { from: 1 }),
    );
    let list3 = list2.push(Ask::Other(Request::Release { from: 1 }));
    assert(repeated_operations_sorts_without_asks(k) == list3);
    m6
}

/// The steps of the part `sorts` of `test_repeated_operations`.
proof fn lemma_repeated_operations_sorts_steps(k: int)
    ensures
        ({
            let steps = crate::categories::c07_local_memory::repeated_operations_sorts_round(
                k as u64,
            );
            &&& steps.len() == 6
            &&& crate::stage::demands(steps[0], Request::Sort { of: 0, keys: 1, into: 1 })
            &&& crate::stage::inquires(steps[1], Request::RowsKnown { of: 1, into: 0 })
            &&& crate::stage::looks(steps[2])
            &&& crate::stage::guards(steps[3], same_as(modulo(num(k as u64), num(5)), num(0)))
            &&& crate::walk::straight(steps[3])
            &&& crate::stage::demands(
                crate::stage::bare(steps[3]),
                Request::Download { of: 1, column: 0, scalar: Scalar::U32, into: 1 },
            )
            &&& crate::stage::guards(steps[4], same_as(modulo(num(k as u64), num(5)), num(0)))
            &&& crate::walk::straight(steps[4])
            &&& crate::stage::looks(crate::stage::bare(steps[4]))
            &&& crate::stage::inquires(steps[5], Request::Release { from: 1 })
        }),
{
}

/// Round `k` of the part `sorts` of `test_repeated_operations` asks what it should.
proof fn lemma_repeated_operations_sorts_round(m: Moment, k: int) -> (n: Moment)
    requires
        0 <= k < 20,
        m.holds(),
        m.at == 2 + 6 * k,
        m.used == repeated_operations_sorts_start(k),
        m.at + 6 <= m.plan.steps.len(),
        forall|j: int|
            0 <= j < 6 ==> m.plan.steps[2 + 6 * k + j] == #[trigger] crate::categories::c07_local_memory::repeated_operations_sorts_round(
                k as u64,
            )[j],
        m.scene.buffer(0) == repeated_operations_start_table1(),
    ensures
        n.holds(),
        n.plan == m.plan,
        n.answers == m.answers,
        n.at == 2 + 6 * (k + 1),
        n.used == repeated_operations_sorts_start(k + 1),
        n.scene.buffer(0) == repeated_operations_start_table1(),
        (k % 5) == 0 ==> crate::stage::asks(
            m.plan,
            m.answers,
            repeated_operations_sorts_start(k),
            repeated_operations_sorts_with_asks(k),
        ),
        !((k % 5) == 0) ==> crate::stage::asks(
            m.plan,
            m.answers,
            repeated_operations_sorts_start(k),
            repeated_operations_sorts_without_asks(k),
        ),
{
    let steps = crate::categories::c07_local_memory::repeated_operations_sorts_round(k as u64);
    lemma_repeated_operations_sorts_steps(k);
    reveal_with_fuel(repeated_operations_sorts_start, 2);
    if (k % 5) == 0 {
        lemma_repeated_operations_sorts_with(m, steps, k)
    } else {
        lemma_repeated_operations_sorts_without(m, steps, k)
    }
}

/// The first `k` rounds of the part `sorts` of `test_repeated_operations` ask what they should.
proof fn lemma_repeated_operations_sorts_rounds(m: Moment, part: Seq<Step>, k: int) -> (n: Moment)
    requires
        0 <= k <= 20,
        m.holds(),
        m.at == 2,
        m.used == repeated_operations_sorts_start(0),
        m.at + 120 <= m.plan.steps.len(),
        part == crate::script::rounds(
            20,
            |k: int| crate::categories::c07_local_memory::repeated_operations_sorts_round(k as u64),
        ),
        forall|j: int| 0 <= j < 120 ==> m.plan.steps[2 + j] == #[trigger] part[j],
        m.scene.buffer(0) == repeated_operations_start_table1(),
    ensures
        n.holds(),
        n.plan == m.plan,
        n.answers == m.answers,
        n.at == 2 + 6 * k,
        n.used == repeated_operations_sorts_start(k),
        n.scene.buffer(0) == repeated_operations_start_table1(),
        forall|j: int|
            0 <= j < k && (j % 5) == 0 ==> crate::stage::asks(
                m.plan,
                m.answers,
                repeated_operations_sorts_start(j),
                #[trigger] repeated_operations_sorts_with_asks(j),
            ),
        forall|j: int|
            0 <= j < k && !((j % 5) == 0) ==> crate::stage::asks(
                m.plan,
                m.answers,
                repeated_operations_sorts_start(j),
                #[trigger] repeated_operations_sorts_without_asks(j),
            ),
    decreases k,
{
    if k == 0 {
        m
    } else {
        let round = |k: int| crate::categories::c07_local_memory::repeated_operations_sorts_round(
            k as u64,
        );
        let before = lemma_repeated_operations_sorts_rounds(m, part, k - 1);
        assert forall|j: int| 0 <= j < 6 implies m.plan.steps[before.at + j] == #[trigger] crate::categories::c07_local_memory::repeated_operations_sorts_round(
            (k - 1) as u64,
        )[j] by {
            assert forall|k: int| 0 <= k < 20 implies (#[trigger] round(k)).len() == 6 by {
                lemma_repeated_operations_sorts_steps(k);
            }
            crate::stage::lemma_round_place(20, round, 6, k - 1, j);
            assert(part[(k - 1) * 6 + j] == round(k - 1)[j]);
        }
        lemma_repeated_operations_sorts_round(before, k - 1)
    }
}

/// What the device is asked in round `k` of the part `filters` of `test_repeated_operations`.
pub open spec fn repeated_operations_filters_asks(k: int) -> Seq<Ask> {
    let words1 = crate::stage::column(5000, |i: int| crate::stage::flag(((i % 2) == 0)));
    let kept1 = Thing::Kept {
        of: Box::new(repeated_operations_start_table1()),
        mask: words1,
        turn: repeated_operations_sorts_start(20) + 0 + 3 * k,
    };
    seq![Ask::Make(kept1), Ask::Handle(kept1), Ask::Other(Request::Release { from: 1 })]
}

/// Round `k` of the part `filters` of `test_repeated_operations` asks what it should.
proof fn lemma_repeated_operations_filters(m: Moment, steps: Seq<Step>, k: int) -> (n: Moment)
    requires
        0 <= k < 20,
        m.holds(),
        m.at == 122 + 5 * k,
        m.used == repeated_operations_sorts_start(20) + 0 + 3 * k,
        122 + 5 * k + 5 <= m.plan.steps.len(),
        forall|j: int| 0 <= j < 5 ==> m.plan.steps[122 + 5 * k + j] == #[trigger] steps[j],
        crate::stage::fills(steps[0], 1, num(5000), same_as(modulo(ix(), num(2)), num(0))),
        crate::stage::demands(steps[1], Request::Filter { of: 0, mask: 1, into: 1 }),
        crate::stage::inquires(steps[2], Request::RowsKnown { of: 1, into: 0 }),
        crate::stage::looks(steps[3]),
        crate::stage::inquires(steps[4], Request::Release { from: 1 }),
        m.scene.buffer(0) == repeated_operations_start_table1(),
    ensures
        n.holds(),
        n.plan == m.plan,
        n.answers == m.answers,
        n.at == 122 + 5 * k + 5,
        n.used == m.used + 3,
        n.scene.buffer(0) == repeated_operations_start_table1(),
        crate::stage::asks(
            m.plan,
            m.answers,
            repeated_operations_sorts_start(20) + 0 + 3 * k,
            repeated_operations_filters_asks(k),
        ),
{
    crate::stage::lemma_full(m);
    crate::stage::lemma_asks_none(m, repeated_operations_sorts_start(20) + 0 + 3 * k);
    let list0 = Seq::<Ask>::empty();
    let words1 = crate::stage::column(5000, |i: int| crate::stage::flag(((i % 2) == 0)));
    let word1 = same_as(modulo(ix(), num(2)), num(0));
    assert forall|i: int| 0 <= i < words1.len() implies crate::stage::meaning(
        word1,
        m.contents,
        i,
    ) as u64 == #[trigger] words1[i] by {
        reveal_with_fuel(crate::stage::meaning, 4);
    }
    let m1 = crate::stage::lemma_filled(m, steps[0], 1, num(5000), word1, words1);
    let kept1 = Thing::Kept {
        of: Box::new(repeated_operations_start_table1()),
        mask: words1,
        turn: repeated_operations_sorts_start(20) + 0 + 3 * k,
    };
    let m2 = crate::stage::lemma_filter(
        m1,
        steps[1],
        0,
        1,
        1,
        repeated_operations_start_table1(),
        words1,
        kept1,
    );
    crate::stage::lemma_asks_more(
        m,
        repeated_operations_sorts_start(20) + 0 + 3 * k,
        list0,
        Ask::Make(kept1),
    );
    let list1 = list0.push(Ask::Make(kept1));
    let m3 = crate::stage::lemma_handle(m2, steps[2], 1, 0, kept1);
    crate::stage::lemma_asks_more(
        m,
        repeated_operations_sorts_start(20) + 0 + 3 * k,
        list1,
        Ask::Handle(kept1),
    );
    let list2 = list1.push(Ask::Handle(kept1));
    let m4 = crate::stage::lemma_look(m3, steps[3]);
    let m5 = crate::stage::lemma_release(m4, steps[4], 1);
    crate::stage::lemma_asks_more(
        m,
        repeated_operations_sorts_start(20) + 0 + 3 * k,
        list2,
        Ask::Other(Request::Release { from: 1 }),
    );
    let list3 = list2.push(Ask::Other(Request::Release { from: 1 }));
    assert(repeated_operations_filters_asks(k) == list3);
    m5
}

/// The steps of the part `filters` of `test_repeated_operations`.
proof fn lemma_repeated_operations_filters_steps(k: int)
    ensures
        ({
            let steps = crate::categories::c07_local_memory::repeated_operations_filters_round(
                k as u64,
            );
            &&& steps.len() == 5
            &&& crate::stage::fills(steps[0], 1, num(5000), same_as(modulo(ix(), num(2)), num(0)))
            &&& crate::stage::demands(steps[1], Request::Filter { of: 0, mask: 1, into: 1 })
            &&& crate::stage::inquires(steps[2], Request::RowsKnown { of: 1, into: 0 })
            &&& crate::stage::looks(steps[3])
            &&& crate::stage::inquires(steps[4], Request::Release { from: 1 })
        }),
{
}

/// The first `k` rounds of the part `filters` of `test_repeated_operations` ask what they should.
proof fn lemma_repeated_operations_filters_rounds(m: Moment, part: Seq<Step>, k: int) -> (n: Moment)
    requires
        0 <= k <= 20,
        m.holds(),
        m.at == 122,
        m.used == repeated_operations_sorts_start(20) + 0 + 3 * 0,
        m.at + 100 <= m.plan.steps.len(),
        part == crate::script::rounds(
            20,
            |k: int| crate::categories::c07_local_memory::repeated_operations_filters_round(
                k as u64,
            ),
        ),
        forall|j: int| 0 <= j < 100 ==> m.plan.steps[122 + j] == #[trigger] part[j],
        m.scene.buffer(0) == repeated_operations_start_table1(),
    ensures
        n.holds(),
        n.plan == m.plan,
        n.answers == m.answers,
        n.at == 122 + 5 * k,
        n.used == repeated_operations_sorts_start(20) + 0 + 3 * k,
        n.scene.buffer(0) == repeated_operations_start_table1(),
        forall|j: int|
            0 <= j < k ==> crate::stage::asks(
                m.plan,
                m.answers,
                repeated_operations_sorts_start(20) + 0 + 3 * j,
                #[trigger] repeated_operations_filters_asks(j),
            ),
    decreases k,
{
    if k == 0 {
        m
    } else {
        let round = |k: int| crate::categories::c07_local_memory::repeated_operations_filters_round(
            k as u64,
        );
        let before = lemma_repeated_operations_filters_rounds(m, part, k - 1);
        assert forall|j: int| 0 <= j < 5 implies m.plan.steps[before.at + j] == #[trigger] crate::categories::c07_local_memory::repeated_operations_filters_round(
            (k - 1) as u64,
        )[j] by {
            assert forall|k: int| 0 <= k < 20 implies (#[trigger] round(k)).len() == 5 by {
                lemma_repeated_operations_filters_steps(k);
            }
            crate::stage::lemma_round_place(20, round, 5, k - 1, j);
            assert(part[(k - 1) * 5 + j] == round(k - 1)[j]);
        }
        lemma_repeated_operations_filters_steps(k - 1);
        lemma_repeated_operations_filters(
            before,
            crate::categories::c07_local_memory::repeated_operations_filters_round((k - 1) as u64),
            k - 1,
        )
    }
}

/// What the device is asked in the part `end` of `test_repeated_operations`.
pub open spec fn repeated_operations_end_asks() -> Seq<Ask> {
    seq![Ask::Other(Request::Sync)]
}

/// The part `end` of `test_repeated_operations` asks what it should.
proof fn lemma_repeated_operations_end(m: Moment, steps: Seq<Step>) -> (n: Moment)
    requires
        m.holds(),
        m.at == 222,
        m.used == repeated_operations_sorts_start(20) + 60,
        222 + 1 <= m.plan.steps.len(),
        forall|j: int| 0 <= j < 1 ==> m.plan.steps[222 + j] == #[trigger] steps[j],
        crate::stage::demands(steps[0], Request::Sync),
    ensures
        n.holds(),
        n.plan == m.plan,
        n.answers == m.answers,
        n.at == 222 + 1,
        n.used == m.used + 1,
        crate::stage::asks(
            m.plan,
            m.answers,
            repeated_operations_sorts_start(20) + 60,
            repeated_operations_end_asks(),
        ),
{
    crate::stage::lemma_full(m);
    crate::stage::lemma_asks_none(m, repeated_operations_sorts_start(20) + 60);
    let list0 = Seq::<Ask>::empty();
    let m1 = crate::stage::lemma_sync(m, steps[0]);
    crate::stage::lemma_asks_more(
        m,
        repeated_operations_sorts_start(20) + 60,
        list0,
        Ask::Other(Request::Sync),
    );
    let list1 = list0.push(Ask::Other(Request::Sync));
    assert(repeated_operations_end_asks() == list1);
    m1
}

/// The steps of the part `end` of `test_repeated_operations`.
proof fn lemma_repeated_operations_end_steps()
    ensures
        ({
            let steps = crate::categories::c07_local_memory::repeated_operations_end_steps();
            &&& steps.len() == 1
            &&& crate::stage::demands(steps[0], Request::Sync)
        }),
{
}

/// In a run of `test_repeated_operations` that passes the device is asked this, in this order, and
/// nothing else: each request about what an earlier one made is about that, and about what was
/// uploaded for it.
pub proof fn law_repeated_operations_asks_about_what_it_made(answers: Seq<Answer>)
    requires
        crate::stage::passes(
            crate::script::plan(
                "test_repeated_operations",
                crate::categories::c07_local_memory::repeated_operations_steps(),
            ),
            answers,
        ),
    ensures
        crate::stage::asks(
            crate::script::plan(
                "test_repeated_operations",
                crate::categories::c07_local_memory::repeated_operations_steps(),
            ),
            answers,
            0,
            repeated_operations_start_asks(),
        ),
        forall|k: int|
            0 <= k < 20 && (k % 5) == 0 ==> crate::stage::asks(
                crate::script::plan(
                    "test_repeated_operations",
                    crate::categories::c07_local_memory::repeated_operations_steps(),
                ),
                answers,
                repeated_operations_sorts_start(k),
                #[trigger] repeated_operations_sorts_with_asks(k),
            ),
        forall|k: int|
            0 <= k < 20 && !((k % 5) == 0) ==> crate::stage::asks(
                crate::script::plan(
                    "test_repeated_operations",
                    crate::categories::c07_local_memory::repeated_operations_steps(),
                ),
                answers,
                repeated_operations_sorts_start(k),
                #[trigger] repeated_operations_sorts_without_asks(k),
            ),
        forall|k: int|
            0 <= k < 20 ==> crate::stage::asks(
                crate::script::plan(
                    "test_repeated_operations",
                    crate::categories::c07_local_memory::repeated_operations_steps(),
                ),
                answers,
                repeated_operations_sorts_start(20) + 0 + 3 * k,
                #[trigger] repeated_operations_filters_asks(k),
            ),
        crate::stage::asks(
            crate::script::plan(
                "test_repeated_operations",
                crate::categories::c07_local_memory::repeated_operations_steps(),
            ),
            answers,
            repeated_operations_sorts_start(20) + 60,
            repeated_operations_end_asks(),
        ),
        crate::stage::asked(
            crate::script::plan(
                "test_repeated_operations",
                crate::categories::c07_local_memory::repeated_operations_steps(),
            ),
            answers,
            repeated_operations_sorts_start(20) + 61,
        ) is None,
{
    let plan = crate::script::plan(
        "test_repeated_operations",
        crate::categories::c07_local_memory::repeated_operations_steps(),
    );
    let part1 = crate::categories::c07_local_memory::repeated_operations_start_steps();
    lemma_repeated_operations_start_steps();
    let round2 = |k: int| crate::categories::c07_local_memory::repeated_operations_sorts_round(
        k as u64,
    );
    let part2 = crate::script::rounds(20, round2);
    assert forall|k: int| 0 <= k < 20 implies (#[trigger] round2(k)).len() == 6 by {
        lemma_repeated_operations_sorts_steps(k);
    }
    crate::stage::lemma_rounds_length(20, round2, 6);
    let round3 = |k: int| crate::categories::c07_local_memory::repeated_operations_filters_round(
        k as u64,
    );
    let part3 = crate::script::rounds(20, round3);
    assert forall|k: int| 0 <= k < 20 implies (#[trigger] round3(k)).len() == 5 by {
        lemma_repeated_operations_filters_steps(k);
    }
    crate::stage::lemma_rounds_length(20, round3, 5);
    let part4 = crate::categories::c07_local_memory::repeated_operations_end_steps();
    lemma_repeated_operations_end_steps();
    let whole1 = part1;
    let whole2 = whole1 + part2;
    let whole3 = whole2 + part3;
    let whole4 = whole3 + part4;
    assert(plan.steps == whole4);
    let m0 = crate::stage::lemma_start(plan, answers);
    assert forall|j: int| 0 <= j < 2 implies plan.steps[0 + j] == #[trigger] part1[j] by {}
    let m1 = lemma_repeated_operations_start(m0, part1);
    assert forall|j: int| 0 <= j < 120 implies plan.steps[2 + j] == #[trigger] part2[j] by {}
    let m2 = lemma_repeated_operations_sorts_rounds(m1, part2, 20);
    assert forall|j: int| 0 <= j < 100 implies plan.steps[122 + j] == #[trigger] part3[j] by {}
    let m3 = lemma_repeated_operations_filters_rounds(m2, part3, 20);
    assert forall|j: int| 0 <= j < 1 implies plan.steps[222 + j] == #[trigger] part4[j] by {}
    let m4 = lemma_repeated_operations_end(m3, part4);
    crate::stage::lemma_end(m4);
}

/// What the device is asked in piece 1 of round `k` of the part `sizes` of
/// `test_variable_workload`.
pub open spec fn variable_workload_sizes_1_asks(k: int) -> Seq<Ask> {
    let words1 = crate::stage::column(
        (crate::categories::c07_local_memory::WORKLOADS@[k] as int),
        |i: int| ((crate::categories::c07_local_memory::WORKLOADS@[k] as int) - 1) - i,
    );
    let table1 = Thing::Table {
        layout: Layout::Val,
        scalar: Scalar::U32,
        columns: seq![words1],
        turn: 0 + 5 * k,
    };
    let sorted1 = Thing::Sorted { of: Box::new(table1), keys: 1, turn: 1 + 5 * k };
    seq![
        Ask::Make(table1),
        Ask::Make(sorted1),
        Ask::Handle(sorted1),
        Ask::Words { of: sorted1, column: 0, scalar: Scalar::U32 },
    ]
}

/// Piece 1 of round `k` of the part `sizes` of `test_variable_workload` asks what it should.
proof fn lemma_variable_workload_sizes_1(m: Moment, steps: Seq<Step>, k: int) -> (n: Moment)
    requires
        0 <= k < 8,
        m.holds(),
        m.at == 0 + 9 * k,
        m.used == 0 + 5 * k,
        0 + 9 * k + 9 <= m.plan.steps.len(),
        forall|j: int| 0 <= j < 9 ==> m.plan.steps[0 + 9 * k + j] == #[trigger] steps[j],
        crate::stage::fills(
            steps[0],
            0,
            num(crate::categories::c07_local_memory::WORKLOADS@[k as u64 as int]),
            minus(
                minus(
                    num(crate::categories::c07_local_memory::WORKLOADS@[k as u64 as int]),
                    num(1),
                ),
                ix(),
            ),
        ),
        crate::stage::demands(
            steps[1],
            Request::Create { into: 0, layout: Layout::Val, scalar: Scalar::U32, from: 0 },
        ),
        crate::stage::demands(steps[2], Request::Sort { of: 0, keys: 1, into: 1 }),
        crate::stage::inquires(steps[3], Request::RowsKnown { of: 1, into: 0 }),
        crate::stage::looks(steps[4]),
        crate::stage::demands(
            steps[5],
            Request::Download { of: 1, column: 0, scalar: Scalar::U32, into: 1 },
        ),
        crate::stage::looks(steps[6]),
        crate::stage::looks(steps[7]),
    ensures
        n.holds(),
        n.plan == m.plan,
        n.answers == m.answers,
        n.at == 0 + 9 * k + 8,
        n.used == m.used + 4,
        crate::stage::asks(m.plan, m.answers, 0 + 5 * k, variable_workload_sizes_1_asks(k)),
{
    crate::stage::lemma_full(m);
    crate::stage::lemma_asks_none(m, 0 + 5 * k);
    let list0 = Seq::<Ask>::empty();
    let words1 = crate::stage::column(
        (crate::categories::c07_local_memory::WORKLOADS@[k] as int),
        |i: int| ((crate::categories::c07_local_memory::WORKLOADS@[k] as int) - 1) - i,
    );
    let word1 = minus(
        minus(num(crate::categories::c07_local_memory::WORKLOADS@[k as u64 as int]), num(1)),
        ix(),
    );
    assert forall|i: int| 0 <= i < words1.len() implies crate::stage::meaning(
        word1,
        m.contents,
        i,
    ) as u64 == #[trigger] words1[i] by {
        reveal_with_fuel(crate::stage::meaning, 4);
    }
    let m1 = crate::stage::lemma_filled(
        m,
        steps[0],
        0,
        num(crate::categories::c07_local_memory::WORKLOADS@[k as u64 as int]),
        word1,
        words1,
    );
    let table1 = Thing::Table {
        layout: Layout::Val,
        scalar: Scalar::U32,
        columns: seq![words1],
        turn: 0 + 5 * k,
    };
    let m2 = crate::stage::lemma_create(m1, steps[1], 0, Layout::Val, Scalar::U32, 0, table1);
    crate::stage::lemma_asks_more(m, 0 + 5 * k, list0, Ask::Make(table1));
    let list1 = list0.push(Ask::Make(table1));
    let sorted1 = Thing::Sorted { of: Box::new(table1), keys: 1, turn: 1 + 5 * k };
    let m3 = crate::stage::lemma_sort(m2, steps[2], 0, 1, 1, table1, sorted1);
    crate::stage::lemma_asks_more(m, 0 + 5 * k, list1, Ask::Make(sorted1));
    let list2 = list1.push(Ask::Make(sorted1));
    let m4 = crate::stage::lemma_handle(m3, steps[3], 1, 0, sorted1);
    crate::stage::lemma_asks_more(m, 0 + 5 * k, list2, Ask::Handle(sorted1));
    let list3 = list2.push(Ask::Handle(sorted1));
    let m5 = crate::stage::lemma_look(m4, steps[4]);
    let m6 = crate::stage::lemma_download(m5, steps[5], 1, 0, Scalar::U32, 1, sorted1);
    crate::stage::lemma_asks_more(
        m,
        0 + 5 * k,
        list3,
        Ask::Words { of: sorted1, column: 0, scalar: Scalar::U32 },
    );
    let list4 = list3.push(Ask::Words { of: sorted1, column: 0, scalar: Scalar::U32 });
    let m7 = crate::stage::lemma_look(m6, steps[6]);
    let m8 = crate::stage::lemma_look(m7, steps[7]);
    assert(variable_workload_sizes_1_asks(k) == list4);
    m8
}

/// What the device is asked in piece 2 of round `k` of the part `sizes` of
/// `test_variable_workload`.
pub open spec fn variable_workload_sizes_2_asks(k: int) -> Seq<Ask> {
    seq![Ask::Other(Request::Release { from: 0 })]
}

/// Piece 2 of round `k` of the part `sizes` of `test_variable_workload` asks what it should.
proof fn lemma_variable_workload_sizes_2(m: Moment, steps: Seq<Step>, k: int) -> (n: Moment)
    requires
        0 <= k < 8,
        m.holds(),
        m.at == 0 + 9 * k + 8,
        m.used == 4 + 5 * k,
        0 + 9 * k + 9 <= m.plan.steps.len(),
        forall|j: int| 0 <= j < 9 ==> m.plan.steps[0 + 9 * k + j] == #[trigger] steps[j],
        crate::stage::inquires(steps[8], Request::Release { from: 0 }),
    ensures
        n.holds(),
        n.plan == m.plan,
        n.answers == m.answers,
        n.at == 0 + 9 * k + 9,
        n.used == m.used + 1,
        crate::stage::asks(m.plan, m.answers, 4 + 5 * k, variable_workload_sizes_2_asks(k)),
{
    crate::stage::lemma_full(m);
    crate::stage::lemma_asks_none(m, 4 + 5 * k);
    let list0 = Seq::<Ask>::empty();
    let m1 = crate::stage::lemma_release(m, steps[8], 0);
    crate::stage::lemma_asks_more(m, 4 + 5 * k, list0, Ask::Other(Request::Release { from: 0 }));
    let list1 = list0.push(Ask::Other(Request::Release { from: 0 }));
    assert(variable_workload_sizes_2_asks(k) == list1);
    m1
}

/// The steps of the part `sizes` of `test_variable_workload`.
proof fn lemma_variable_workload_sizes_steps(k: int)
    ensures
        ({
            let steps = crate::categories::c07_local_memory::variable_workload_sizes_round(
                k as u64,
            );
            &&& steps.len() == 9
            &&& crate::stage::fills(
                steps[0],
                0,
                num(crate::categories::c07_local_memory::WORKLOADS@[k as u64 as int]),
                minus(
                    minus(
                        num(crate::categories::c07_local_memory::WORKLOADS@[k as u64 as int]),
                        num(1),
                    ),
                    ix(),
                ),
            )
            &&& crate::stage::demands(
                steps[1],
                Request::Create { into: 0, layout: Layout::Val, scalar: Scalar::U32, from: 0 },
            )
            &&& crate::stage::demands(steps[2], Request::Sort { of: 0, keys: 1, into: 1 })
            &&& crate::stage::inquires(steps[3], Request::RowsKnown { of: 1, into: 0 })
            &&& crate::stage::looks(steps[4])
            &&& crate::stage::demands(
                steps[5],
                Request::Download { of: 1, column: 0, scalar: Scalar::U32, into: 1 },
            )
            &&& crate::stage::looks(steps[6])
            &&& crate::stage::looks(steps[7])
            &&& crate::stage::inquires(steps[8], Request::Release { from: 0 })
        }),
{
}

/// Round `k` of the part `sizes` of `test_variable_workload` asks what it should.
proof fn lemma_variable_workload_sizes_round(m: Moment, k: int) -> (n: Moment)
    requires
        0 <= k < 8,
        m.holds(),
        m.at == 0 + 9 * k,
        m.used == 0 + 5 * k,
        m.at + 9 <= m.plan.steps.len(),
        forall|j: int|
            0 <= j < 9 ==> m.plan.steps[0 + 9 * k + j] == #[trigger] crate::categories::c07_local_memory::variable_workload_sizes_round(
                k as u64,
            )[j],
    ensures
        n.holds(),
        n.plan == m.plan,
        n.answers == m.answers,
        n.at == 0 + 9 * (k + 1),
        n.used == 0 + 5 * (k + 1),
        crate::stage::asks(m.plan, m.answers, 0 + 5 * k, variable_workload_sizes_1_asks(k)),
        crate::stage::asks(m.plan, m.answers, 4 + 5 * k, variable_workload_sizes_2_asks(k)),
{
    let steps = crate::categories::c07_local_memory::variable_workload_sizes_round(k as u64);
    lemma_variable_workload_sizes_steps(k);
    let m1 = lemma_variable_workload_sizes_1(m, steps, k);
    lemma_variable_workload_sizes_2(m1, steps, k)
}

/// The first `k` rounds of the part `sizes` of `test_variable_workload` ask what they should.
proof fn lemma_variable_workload_sizes_rounds(m: Moment, part: Seq<Step>, k: int) -> (n: Moment)
    requires
        0 <= k <= 8,
        m.holds(),
        m.at == 0,
        m.used == 0 + 5 * 0,
        m.at + 72 <= m.plan.steps.len(),
        part == crate::script::rounds(
            8,
            |k: int| crate::categories::c07_local_memory::variable_workload_sizes_round(k as u64),
        ),
        forall|j: int| 0 <= j < 72 ==> m.plan.steps[0 + j] == #[trigger] part[j],
    ensures
        n.holds(),
        n.plan == m.plan,
        n.answers == m.answers,
        n.at == 0 + 9 * k,
        n.used == 0 + 5 * k,
        forall|j: int|
            0 <= j < k ==> crate::stage::asks(
                m.plan,
                m.answers,
                0 + 5 * j,
                #[trigger] variable_workload_sizes_1_asks(j),
            ),
        forall|j: int|
            0 <= j < k ==> crate::stage::asks(
                m.plan,
                m.answers,
                4 + 5 * j,
                #[trigger] variable_workload_sizes_2_asks(j),
            ),
    decreases k,
{
    if k == 0 {
        m
    } else {
        let round = |k: int| crate::categories::c07_local_memory::variable_workload_sizes_round(
            k as u64,
        );
        let before = lemma_variable_workload_sizes_rounds(m, part, k - 1);
        assert forall|j: int| 0 <= j < 9 implies m.plan.steps[before.at + j] == #[trigger] crate::categories::c07_local_memory::variable_workload_sizes_round(
            (k - 1) as u64,
        )[j] by {
            assert forall|k: int| 0 <= k < 8 implies (#[trigger] round(k)).len() == 9 by {
                lemma_variable_workload_sizes_steps(k);
            }
            crate::stage::lemma_round_place(8, round, 9, k - 1, j);
            assert(part[(k - 1) * 9 + j] == round(k - 1)[j]);
        }
        lemma_variable_workload_sizes_round(before, k - 1)
    }
}

/// What the device is asked in the part `end` of `test_variable_workload`.
pub open spec fn variable_workload_end_asks() -> Seq<Ask> {
    seq![Ask::Other(Request::Sync)]
}

/// The part `end` of `test_variable_workload` asks what it should.
proof fn lemma_variable_workload_end(m: Moment, steps: Seq<Step>) -> (n: Moment)
    requires
        m.holds(),
        m.at == 72,
        m.used == 40,
        72 + 1 <= m.plan.steps.len(),
        forall|j: int| 0 <= j < 1 ==> m.plan.steps[72 + j] == #[trigger] steps[j],
        crate::stage::demands(steps[0], Request::Sync),
    ensures
        n.holds(),
        n.plan == m.plan,
        n.answers == m.answers,
        n.at == 72 + 1,
        n.used == m.used + 1,
        crate::stage::asks(m.plan, m.answers, 40, variable_workload_end_asks()),
{
    crate::stage::lemma_full(m);
    crate::stage::lemma_asks_none(m, 40);
    let list0 = Seq::<Ask>::empty();
    let m1 = crate::stage::lemma_sync(m, steps[0]);
    crate::stage::lemma_asks_more(m, 40, list0, Ask::Other(Request::Sync));
    let list1 = list0.push(Ask::Other(Request::Sync));
    assert(variable_workload_end_asks() == list1);
    m1
}

/// The steps of the part `end` of `test_variable_workload`.
proof fn lemma_variable_workload_end_steps()
    ensures
        ({
            let steps = crate::categories::c07_local_memory::variable_workload_end_steps();
            &&& steps.len() == 1
            &&& crate::stage::demands(steps[0], Request::Sync)
        }),
{
}

/// In a run of `test_variable_workload` that passes the device is asked this, in this order, and
/// nothing else: each request about what an earlier one made is about that, and about what was
/// uploaded for it.
pub proof fn law_variable_workload_asks_about_what_it_made(answers: Seq<Answer>)
    requires
        crate::stage::passes(
            crate::script::plan(
                "test_variable_workload",
                crate::categories::c07_local_memory::variable_workload_steps(),
            ),
            answers,
        ),
    ensures
        forall|k: int|
            0 <= k < 8 ==> crate::stage::asks(
                crate::script::plan(
                    "test_variable_workload",
                    crate::categories::c07_local_memory::variable_workload_steps(),
                ),
                answers,
                0 + 5 * k,
                #[trigger] variable_workload_sizes_1_asks(k),
            ),
        forall|k: int|
            0 <= k < 8 ==> crate::stage::asks(
                crate::script::plan(
                    "test_variable_workload",
                    crate::categories::c07_local_memory::variable_workload_steps(),
                ),
                answers,
                4 + 5 * k,
                #[trigger] variable_workload_sizes_2_asks(k),
            ),
        crate::stage::asks(
            crate::script::plan(
                "test_variable_workload",
                crate::categories::c07_local_memory::variable_workload_steps(),
            ),
            answers,
            40,
            variable_workload_end_asks(),
        ),
        crate::stage::asked(
            crate::script::plan(
                "test_variable_workload",
                crate::categories::c07_local_memory::variable_workload_steps(),
            ),
            answers,
            41,
        ) is None,
{
    let plan = crate::script::plan(
        "test_variable_workload",
        crate::categories::c07_local_memory::variable_workload_steps(),
    );
    let round1 = |k: int| crate::categories::c07_local_memory::variable_workload_sizes_round(
        k as u64,
    );
    let part1 = crate::script::rounds(8, round1);
    assert forall|k: int| 0 <= k < 8 implies (#[trigger] round1(k)).len() == 9 by {
        lemma_variable_workload_sizes_steps(k);
    }
    crate::stage::lemma_rounds_length(8, round1, 9);
    let part2 = crate::categories::c07_local_memory::variable_workload_end_steps();
    lemma_variable_workload_end_steps();
    let whole1 = part1;
    let whole2 = whole1 + part2;
    assert(plan.steps == whole2);
    let m0 = crate::stage::lemma_start(plan, answers);
    assert forall|j: int| 0 <= j < 72 implies plan.steps[0 + j] == #[trigger] part1[j] by {}
    let m1 = lemma_variable_workload_sizes_rounds(m0, part1, 8);
    assert forall|j: int| 0 <= j < 1 implies plan.steps[72 + j] == #[trigger] part2[j] by {}
    let m2 = lemma_variable_workload_end(m1, part2);
    crate::stage::lemma_end(m2);
}

} // verus!
