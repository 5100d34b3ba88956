//! What these tests ask the device in runs that pass: `test_cache_thrashing`,
//! `test_memory_locality`.

use vstd::prelude::*;
use crate::expr::{ix, lt, minus, modulo, num, plus, same_as, times};
use crate::machine::Answer;
use crate::scalar::Scalar;
use crate::script::{Layout, Request, Step};
use crate::stage::{Ask, Moment, Thing};

verus! {

/// A buffer that is uploaded in the part `all` of `test_cache_thrashing`.
pub open spec fn cache_thrashing_all_table1() -> Thing {
    Thing::Table {
        layout: Layout::Val,
        scalar: Scalar::U32,
        columns: seq![
            crate::stage::column(5000000, |i: int| ((i * 1103515245) + 12345) % 10000000),
        ],
        turn: 0,
    }
}

/// What the device is asked in piece 1 of the part `all` of `test_cache_thrashing`.
pub open spec fn cache_thrashing_all_1_asks() -> Seq<Ask> {
    let sorted1 = Thing::Sorted { of: Box::new(cache_thrashing_all_table1()), keys: 1, turn: 1 };
    seq![
        Ask::Make(cache_thrashing_all_table1()),
        Ask::Make(sorted1),
        Ask::Words { of: sorted1, column: 0, scalar: Scalar::U32 },
    ]
}

/// Piece 1 of the part `all` of `test_cache_thrashing` asks what it should.
proof fn lemma_cache_thrashing_all_1(m: Moment, steps: Seq<Step>) -> (n: Moment)
    requires
        m.holds(),
        m.at == 0,
        m.used == 0,
        0 + 17 <= m.plan.steps.len(),
        forall|j: int| 0 <= j < 17 ==> m.plan.steps[0 + j] == #[trigger] steps[j],
        crate::stage::fills(
            steps[0],
            0,
            num(5000000),
            modulo(plus(times(ix(), num(1103515245)), num(12345)), num(10000000)),
        ),
        crate::stage::demands(
            steps[1],
            Request::Create { into: 0, layout: Layout::Val, scalar: Scalar::U32, from: 0 },
        ),
        crate::stage::demands(steps[2], Request::Sort { of: 0, keys: 1, into: 1 }),
        crate::stage::demands(
            steps[3],
            Request::Download { of: 1, column: 0, scalar: Scalar::U32, into: 1 },
        ),
        crate::stage::looks(steps[4]),
        crate::stage::looks(steps[5]),
        crate::stage::looks(steps[6]),
        crate::stage::looks(steps[7]),
    ensures
        n.holds(),
        n.plan == m.plan,
        n.answers == m.answers,
        n.at == 0 + 8,
        n.used == m.used + 3,
        n.scene.buffer(0) == cache_thrashing_all_table1(),
        crate::stage::asks(m.plan, m.answers, 0, cache_thrashing_all_1_asks()),
{
    crate::stage::lemma_full(m);
    crate::stage::lemma_asks_none(m, 0);
    let list0 = Seq::<Ask>::empty();
    let words1 = crate::stage::column(5000000, |i: int| ((i * 1103515245) + 12345) % 10000000);
    let word1 = modulo(plus(times(ix(), num(1103515245)), num(12345)), num(10000000));
    assert forall|i: int| 0 <= i < words1.len() implies crate::stage::meaning(
        word1,
        m.contents,
        i,
    ) as u64 == #[trigger] words1[i] by {
        reveal_with_fuel(crate::stage::meaning, 5);
    }
    let m1 = crate::stage::lemma_filled(m, steps[0], 0, num(5000000), word1, words1);
    let m2 = crate::stage::lemma_create(
        m1,
        steps[1],
        0,
        Layout::Val,
        Scalar::U32,
        0,
        cache_thrashing_all_table1(),
    );
    crate::stage::lemma_asks_more(m, 0, list0, Ask::Make(cache_thrashing_all_table1()));
    let list1 = list0.push(Ask::Make(cache_thrashing_all_table1()));
    let sorted1 = Thing::Sorted { of: Box::new(cache_thrashing_all_table1()), keys: 1, turn: 1 };
    let m3 = crate::stage::lemma_sort(m2, steps[2], 0, 1, 1, cache_thrashing_all_table1(), sorted1);
    crate::stage::lemma_asks_more(m, 0, list1, Ask::Make(sorted1));
    let list2 = list1.push(Ask::Make(sorted1));
    let m4 = crate::stage::lemma_download(m3, steps[3], 1, 0, Scalar::U32, 1, sorted1);
    crate::stage::lemma_asks_more(
        m,
        0,
        list2,
        Ask::Words { of: sorted1, column: 0, scalar: Scalar::U32 },
    );
    let list3 = list2.push(Ask::Words { of: sorted1, column: 0, scalar: Scalar::U32 });
    let m5 = crate::stage::lemma_look(m4, steps[4]);
    let m6 = crate::stage::lemma_look(m5, steps[5]);
    let m7 = crate::stage::lemma_look(m6, steps[6]);
    let m8 = crate::stage::lemma_look(m7, steps[7]);
    assert(cache_thrashing_all_1_asks() == list3);
    m8
}

/// What the device is asked in piece 2 of the part `all` of `test_cache_thrashing`.
pub open spec fn cache_thrashing_all_2_asks() -> Seq<Ask> {
    let words2 = crate::stage::column(1000000, |i: int| (i * 31337) % 1000000);
    let table2 = Thing::Table {
        layout: Layout::Val,
        scalar: Scalar::U32,
        columns: seq![words2],
        turn: 3,
    };
    let sorted2 = Thing::Sorted { of: Box::new(table2), keys: 1, turn: 4 };
    let words3 = crate::stage::column(5000000, |i: int| crate::stage::flag(((i % 4) == 0)));
    let kept1 = Thing::Kept { of: Box::new(cache_thrashing_all_table1()), mask: words3, turn: 6 };
    seq![
        Ask::Make(table2),
        Ask::Make(sorted2),
        Ask::Words { of: sorted2, column: 0, scalar: Scalar::U32 },
        Ask::Make(kept1),
        Ask::Rows(kept1),
    ]
}

/// Piece 2 of the part `all` of `test_cache_thrashing` asks what it should.
proof fn lemma_cache_thrashing_all_2(m: Moment, steps: Seq<Step>) -> (n: Moment)
    requires
        m.holds(),
        m.at == 0 + 8,
        m.used == 3,
        0 + 17 <= m.plan.steps.len(),
        forall|j: int| 0 <= j < 17 ==> m.plan.steps[0 + j] == #[trigger] steps[j],
        crate::stage::fills(
            steps[8],
            2,
            num(1000000),
            modulo(times(ix(), num(31337)), num(1000000)),
        ),
        crate::stage::demands(
            steps[9],
            Request::Create { into: 2, layout: Layout::Val, scalar: Scalar::U32, from: 2 },
        ),
        crate::stage::demands(steps[10], Request::Sort { of: 2, keys: 1, into: 3 }),
        crate::stage::demands(
            steps[11],
            Request::Download { of: 3, column: 0, scalar: Scalar::U32, into: 3 },
        ),
        crate::stage::looks(steps[12]),
        crate::stage::fills(steps[13], 4, num(5000000), same_as(modulo(ix(), num(4)), num(0))),
        crate::stage::demands(steps[14], Request::Filter { of: 0, mask: 4, into: 4 }),
        crate::stage::counts(steps[15], 4),
        m.scene.buffer(0) == cache_thrashing_all_table1(),
    ensures
        n.holds(),
        n.plan == m.plan,
        n.answers == m.answers,
        n.at == 0 + 16,
        n.used == m.used + 5,
        crate::stage::asks(m.plan, m.answers, 3, cache_thrashing_all_2_asks()),
{
    crate::stage::lemma_full(m);
    crate::stage::lemma_asks_none(m, 3);
    let list0 = Seq::<Ask>::empty();
    let words2 = crate::stage::column(1000000, |i: int| (i * 31337) % 1000000);
    let word1 = modulo(times(ix(), num(31337)), num(1000000));
    assert forall|i: int| 0 <= i < words2.len() implies crate::stage::meaning(
        word1,
        m.contents,
        i,
    ) as u64 == #[trigger] words2[i] by {
        reveal_with_fuel(crate::stage::meaning, 4);
    }
    let m1 = crate::stage::lemma_filled(m, steps[8], 2, num(1000000), word1, words2);
    let table2 = Thing::Table {
        layout: Layout::Val,
        scalar: Scalar::U32,
        columns: seq![words2],
        turn: 3,
    };
    let m2 = crate::stage::lemma_create(m1, steps[9], 2, Layout::Val, Scalar::U32, 2, table2);
    crate::stage::lemma_asks_more(m, 3, list0, Ask::Make(table2));
    let list1 = list0.push(Ask::Make(table2));
    let sorted2 = Thing::Sorted { of: Box::new(table2), keys: 1, turn: 4 };
    let m3 = crate::stage::lemma_sort(m2, steps[10], 2, 1, 3, table2, sorted2);
    crate::stage::lemma_asks_more(m, 3, list1, Ask::Make(sorted2));
    let list2 = list1.push(Ask::Make(sorted2));
    let m4 = crate::stage::lemma_download(m3, steps[11], 3, 0, Scalar::U32, 3, sorted2);
    crate::stage::lemma_asks_more(
        m,
        3,
        list2,
        Ask::Words { of: sorted2, column: 0, scalar: Scalar::U32 },
    );
    let list3 = list2.push(Ask::Words { of: sorted2, column: 0, scalar: Scalar::U32 });
    let m5 = crate::stage::lemma_look(m4, steps[12]);
    let words3 = crate::stage::column(5000000, |i: int| crate::stage::flag(((i % 4) == 0)));
    let word6 = same_as(modulo(ix(), num(4)), num(0));
    assert forall|i: int| 0 <= i < words3.len() implies crate::stage::meaning(
        word6,
        m5.contents,
        i,
    ) as u64 == #[trigger] words3[i] by {
        reveal_with_fuel(crate::stage::meaning, 4);
    }
    let m6 = crate::stage::lemma_filled(m5, steps[13], 4, num(5000000), word6, words3);
    let kept1 = Thing::Kept { of: Box::new(cache_thrashing_all_table1()), mask: words3, turn: 6 };
    let m7 = crate::stage::lemma_filter(
        m6,
        steps[14],
        0,
        4,
        4,
        cache_thrashing_all_table1(),
        words3,
        kept1,
    );
    crate::stage::lemma_asks_more(m, 3, list3, Ask::Make(kept1));
    let list4 = list3.push(Ask::Make(kept1));
    let m8 = crate::stage::lemma_count(m7, steps[15], 4, kept1);
    crate::stage::lemma_asks_more(m, 3, list4, Ask::Rows(kept1));
    let list5 = list4.push(Ask::Rows(kept1));
    assert(cache_thrashing_all_2_asks() == list5);
    m8
}

/// What the device is asked in piece 3 of the part `all` of `test_cache_thrashing`.
pub open spec fn cache_thrashing_all_3_asks() -> Seq<Ask> {
    seq![Ask::Other(Request::Sync)]
}

/// Piece 3 of the part `all` of `test_cache_thrashing` asks what it should.
proof fn lemma_cache_thrashing_all_3(m: Moment, steps: Seq<Step>) -> (n: Moment)
    requires
        m.holds(),
        m.at == 0 + 16,
        m.used == 8,
        0 + 17 <= m.plan.steps.len(),
        forall|j: int| 0 <= j < 17 ==> m.plan.steps[0 + j] == #[trigger] steps[j],
        crate::stage::demands(steps[16], Request::Sync),
    ensures
        n.holds(),
        n.plan == m.plan,
        n.answers == m.answers,
        n.at == 0 + 17,
        n.used == m.used + 1,
        crate::stage::asks(m.plan, m.answers, 8, cache_thrashing_all_3_asks()),
{
    crate::stage::lemma_full(m);
    crate::stage::lemma_asks_none(m, 8);
    let list0 = Seq::<Ask>::empty();
    let m1 = crate::stage::lemma_sync(m, steps[16]);
    crate::stage::lemma_asks_more(m, 8, list0, Ask::Other(Request::Sync));
    let list1 = list0.push(Ask::Other(Request::Sync));
    assert(cache_thrashing_all_3_asks() == list1);
    m1
}

/// The steps of the part `all` of `test_cache_thrashing`.
proof fn lemma_cache_thrashing_all_steps()
    ensures
        ({
            let steps = crate::categories::c17_caching::cache_thrashing_steps();
            &&& steps.len() == 17
            &&& crate::stage::fills(
                steps[0],
                0,
                num(5000000),
                modulo(plus(times(ix(), num(1103515245)), num(12345)), num(10000000)),
            )
            &&& crate::stage::demands(
                steps[1],
                Request::Create { into: 0, layout: Layout::Val, scalar: Scalar::U32, from: 0 },
            )
            &&& crate::stage::demands(steps[2], Request::Sort { of: 0, keys: 1, into: 1 })
            &&& crate::stage::demands(
                steps[3],
                Request::Download { of: 1, column: 0, scalar: Scalar::U32, into: 1 },
            )
            &&& crate::stage::looks(steps[4])
            &&& crate::stage::looks(steps[5])
            &&& crate::stage::looks(steps[6])
            &&& crate::stage::looks(steps[7])
            &&& crate::stage::fills(
                steps[8],
                2,
                num(1000000),
                modulo(times(ix(), num(31337)), num(1000000)),
            )
            &&& crate::stage::demands(
                steps[9],
                Request::Create { into: 2, layout: Layout::Val, scalar: Scalar::U32, from: 2 },
            )
            &&& crate::stage::demands(steps[10], Request::Sort { of: 2, keys: 1, into: 3 })
            &&& crate::stage::demands(
                steps[11],
                Request::Download { of: 3, column: 0, scalar: Scalar::U32, into: 3 },
            )
            &&& crate::stage::looks(steps[12])
            &&& crate::stage::fills(
                steps[13],
                4,
                num(5000000),
                same_as(modulo(ix(), num(4)), num(0)),
            )
            &&& crate::stage::demands(steps[14], Request::Filter { of: 0, mask: 4, into: 4 })
            &&& crate::stage::counts(steps[15], 4)
            &&& crate::stage::demands(steps[16], Request::Sync)
        }),
{
}

/// In a run of `test_cache_thrashing` that passes the device is asked this, in this order, and
/// nothing else: each request about what an earlier one made is about that, and about what was
/// uploaded for it.
pub proof fn law_cache_thrashing_asks_about_what_it_made(answers: Seq<Answer>)
    requires
        crate::stage::passes(
            crate::script::plan(
                "test_cache_thrashing",
                crate::categories::c17_caching::cache_thrashing_steps(),
            ),
            answers,
        ),
    ensures
        crate::stage::asks(
            crate::script::plan(
                "test_cache_thrashing",
                crate::categories::c17_caching::cache_thrashing_steps(),
            ),
            answers,
            0,
            cache_thrashing_all_1_asks(),
        ),
        crate::stage::asks(
            crate::script::plan(
                "test_cache_thrashing",
                crate::categories::c17_caching::cache_thrashing_steps(),
            ),
            answers,
            3,
            cache_thrashing_all_2_asks(),
        ),
        crate::stage::asks(
            crate::script::plan(
                "test_cache_thrashing",
                crate::categories::c17_caching::cache_thrashing_steps(),
            ),
            answers,
            8,
            cache_thrashing_all_3_asks(),
        ),
        crate::stage::asked(
            crate::script::plan(
                "test_cache_thrashing",
                crate::categories::c17_caching::cache_thrashing_steps(),
            ),
            answers,
            9,
        ) is None,
{
    let plan = crate::script::plan(
        "test_cache_thrashing",
        crate::categories::c17_caching::cache_thrashing_steps(),
    );
    let part1 = crate::categories::c17_caching::cache_thrashing_steps();
    lemma_cache_thrashing_all_steps();
    let whole1 = part1;
    assert(plan.steps == whole1);
    let m0 = crate::stage::lemma_start(plan, answers);
    assert forall|j: int| 0 <= j < 17 implies plan.steps[0 + j] == #[trigger] part1[j] by {}
    let m1 = lemma_cache_thrashing_all_1(m0, part1);
    let m2 = lemma_cache_thrashing_all_2(m1, part1);
    let m3 = lemma_cache_thrashing_all_3(m2, part1);
    crate::stage::lemma_end(m3);
}

/// A buffer that is uploaded in the part `sorts` of `test_memory_locality`.
pub open spec fn memory_locality_sorts_table1() -> Thing {
    Thing::Table {
        layout: Layout::Val,
        scalar: Scalar::U32,
        columns: seq![crate::stage::column(100000, |i: int| i)],
        turn: 0,
    }
}

/// What is sorted in the part `sorts` of `test_memory_locality`.
pub open spec fn memory_locality_sorts_sorted2() -> Thing {
    Thing::Sorted {
        of: Box::new(
            Thing::Table {
                layout: Layout::Val,
                scalar: Scalar::U32,
                columns: seq![crate::stage::column(100000, |i: int| (100000 - 1) - i)],
                turn: 3,
            },
        ),
        keys: 1,
        turn: 4,
    }
}

/// What is kept in the part `filters` of `test_memory_locality`.
pub open spec fn memory_locality_filters_kept3() -> Thing {
    Thing::Kept {
        of: Box::new(memory_locality_sorts_table1()),
        mask: crate::stage::column(100000, |i: int| crate::stage::flag(((i % 100) == 0))),
        turn: 13,
    }
}

/// What the device is asked in piece 1 of the part `sorts` of `test_memory_locality`.
pub open spec fn memory_locality_sorts_1_asks() -> Seq<Ask> {
    let sorted1 = Thing::Sorted { of: Box::new(memory_locality_sorts_table1()), keys: 1, turn: 1 };
    let words2 = crate::stage::column(100000, |i: int| (100000 - 1) - i);
    let table2 = Thing::Table {
        layout: Layout::Val,
        scalar: Scalar::U32,
        columns: seq![words2],
        turn: 3,
    };
    seq![
        Ask::Make(memory_locality_sorts_table1()),
        Ask::Make(sorted1),
        Ask::Words { of: sorted1, column: 0, scalar: Scalar::U32 },
        Ask::Make(table2),
        Ask::Make(memory_locality_sorts_sorted2()),
    ]
}

/// Piece 1 of the part `sorts` of `test_memory_locality` asks what it should.
proof fn lemma_memory_locality_sorts_1(m: Moment, steps: Seq<Step>) -> (n: Moment)
    requires
        m.holds(),
        m.at == 0,
        m.used == 0,
        0 + 15 <= m.plan.steps.len(),
        forall|j: int| 0 <= j < 15 ==> m.plan.steps[0 + j] == #[trigger] steps[j],
        crate::stage::fills(steps[0], 0, num(100000), ix()),
        crate::stage::demands(
            steps[1],
            Request::Create { into: 0, layout: Layout::Val, scalar: Scalar::U32, from: 0 },
        ),
        crate::stage::demands(steps[2], Request::Sort { of: 0, keys: 1, into: 1 }),
        crate::stage::demands(
            steps[3],
            Request::Download { of: 1, column: 0, scalar: Scalar::U32, into: 1 },
        ),
        crate::stage::looks(steps[4]),
        crate::stage::fills(steps[5], 2, num(100000), minus(minus(num(100000), num(1)), ix())),
        crate::stage::demands(
            steps[6],
            Request::Create { into: 2, layout: Layout::Val, scalar: Scalar::U32, from: 2 },
        ),
        crate::stage::demands(steps[7], Request::Sort { of: 2, keys: 1, into: 3 }),
    ensures
        n.holds(),
        n.plan == m.plan,
        n.answers == m.answers,
        n.at == 0 + 8,
        n.used == m.used + 5,
        n.scene.buffer(0) == memory_locality_sorts_table1(),
        n.scene.buffer(3) == memory_locality_sorts_sorted2(),
        crate::stage::asks(m.plan, m.answers, 0, memory_locality_sorts_1_asks()),
{
    crate::stage::lemma_full(m);
    crate::stage::lemma_asks_none(m, 0);
    let list0 = Seq::<Ask>::empty();
    let words1 = crate::stage::column(100000, |i: int| i);
    let word1 = ix();
    assert forall|i: int| 0 <= i < words1.len() implies crate::stage::meaning(
        word1,
        m.contents,
        i,
    ) as u64 == #[trigger] words1[i] by {
        reveal_with_fuel(crate::stage::meaning, 1);
    }
    let m1 = crate::stage::lemma_filled(m, steps[0], 0, num(100000), word1, words1);
    let m2 = crate::stage::lemma_create(
        m1,
        steps[1],
        0,
        Layout::Val,
        Scalar::U32,
        0,
        memory_locality_sorts_table1(),
    );
    crate::stage::lemma_asks_more(m, 0, list0, Ask::Make(memory_locality_sorts_table1()));
    let list1 = list0.push(Ask::Make(memory_locality_sorts_table1()));
    let sorted1 = Thing::Sorted { of: Box::new(memory_locality_sorts_table1()), keys: 1, turn: 1 };
    let m3 = crate::stage::lemma_sort(
        m2,
        steps[2],
        0,
        1,
        1,
        memory_locality_sorts_table1(),
        sorted1,
    );
    crate::stage::lemma_asks_more(m, 0, list1, Ask::Make(sorted1));
    let list2 = list1.push(Ask::Make(sorted1));
    let m4 = crate::stage::lemma_download(m3, steps[3], 1, 0, Scalar::U32, 1, sorted1);
    crate::stage::lemma_asks_more(
        m,
        0,
        list2,
        Ask::Words { of: sorted1, column: 0, scalar: Scalar::U32 },
    );
    let list3 = list2.push(Ask::Words { of: sorted1, column: 0, scalar: Scalar::U32 });
    let m5 = crate::stage::lemma_look(m4, steps[4]);
    let words2 = crate::stage::column(100000, |i: int| (100000 - 1) - i);
    let word6 = minus(minus(num(100000), num(1)), ix());
    assert forall|i: int| 0 <= i < words2.len() implies crate::stage::meaning(
        word6,
        m5.contents,
        i,
    ) as u64 == #[trigger] words2[i] by {
        reveal_with_fuel(crate::stage::meaning, 4);
    }
    let m6 = crate::stage::lemma_filled(m5, steps[5], 2, num(100000), word6, words2);
    let table2 = Thing::Table {
        layout: Layout::Val,
        scalar: Scalar::U32,
        columns: seq![words2],
        turn: 3,
    };
    let m7 = crate::stage::lemma_create(m6, steps[6], 2, Layout::Val, Scalar::U32, 2, table2);
    crate::stage::lemma_asks_more(m, 0, list3, Ask::Make(table2));
    let list4 = list3.push(Ask::Make(table2));
    let m8 = crate::stage::lemma_sort(
        m7,
        steps[7],
        2,
        1,
        3,
        table2,
        memory_locality_sorts_sorted2(),
    );
    crate::stage::lemma_asks_more(m, 0, list4, Ask::Make(memory_locality_sorts_sorted2()));
    let list5 = list4.push(Ask::Make(memory_locality_sorts_sorted2()));
    assert(memory_locality_sorts_1_asks() == list5);
    m8
}

/// What the device is asked in piece 2 of the part `sorts` of `test_memory_locality`.
pub open spec fn memory_locality_sorts_2_asks() -> Seq<Ask> {
    let words3 = crate::stage::column(100000, |i: int| ((i * 1103515245) + 12345) % 100000);
    let table3 = Thing::Table {
        layout: Layout::Val,
        scalar: Scalar::U32,
        columns: seq![words3],
        turn: 6,
    };
    let sorted3 = Thing::Sorted { of: Box::new(table3), keys: 1, turn: 7 };
    seq![
        Ask::Words { of: memory_locality_sorts_sorted2(), column: 0, scalar: Scalar::U32 },
        Ask::Make(table3),
        Ask::Make(sorted3),
        Ask::Words { of: sorted3, column: 0, scalar: Scalar::U32 },
    ]
}

/// Piece 2 of the part `sorts` of `test_memory_locality` asks what it should.
proof fn lemma_memory_locality_sorts_2(m: Moment, steps: Seq<Step>) -> (n: Moment)
    requires
        m.holds(),
        m.at == 0 + 8,
        m.used == 5,
        0 + 15 <= m.plan.steps.len(),
        forall|j: int| 0 <= j < 15 ==> m.plan.steps[0 + j] == #[trigger] steps[j],
        crate::stage::demands(
            steps[8],
            Request::Download { of: 3, column: 0, scalar: Scalar::U32, into: 3 },
        ),
        crate::stage::looks(steps[9]),
        crate::stage::fills(
            steps[10],
            4,
            num(100000),
            modulo(plus(times(ix(), num(1103515245)), num(12345)), num(100000)),
        ),
        crate::stage::demands(
            steps[11],
            Request::Create { into: 4, layout: Layout::Val, scalar: Scalar::U32, from: 4 },
        ),
        crate::stage::demands(steps[12], Request::Sort { of: 4, keys: 1, into: 5 }),
        crate::stage::demands(
            steps[13],
            Request::Download { of: 5, column: 0, scalar: Scalar::U32, into: 5 },
        ),
        crate::stage::looks(steps[14]),
        m.scene.buffer(0) == memory_locality_sorts_table1(),
        m.scene.buffer(3) == memory_locality_sorts_sorted2(),
    ensures
        n.holds(),
        n.plan == m.plan,
        n.answers == m.answers,
        n.at == 0 + 15,
        n.used == m.used + 4,
        n.scene.buffer(0) == memory_locality_sorts_table1(),
        crate::stage::asks(m.plan, m.answers, 5, memory_locality_sorts_2_asks()),
{
    crate::stage::lemma_full(m);
    crate::stage::lemma_asks_none(m, 5);
    let list0 = Seq::<Ask>::empty();
    let m1 = crate::stage::lemma_download(
        m,
        steps[8],
        3,
        0,
        Scalar::U32,
        3,
        memory_locality_sorts_sorted2(),
    );
    crate::stage::lemma_asks_more(
        m,
        5,
        list0,
        Ask::Words { of: memory_locality_sorts_sorted2(), column: 0, scalar: Scalar::U32 },
    );
    let list1 = list0.push(
        Ask::Words { of: memory_locality_sorts_sorted2(), column: 0, scalar: Scalar::U32 },
    );
    let m2 = crate::stage::lemma_look(m1, steps[9]);
    let words3 = crate::stage::column(100000, |i: int| ((i * 1103515245) + 12345) % 100000);
    let word3 = modulo(plus(times(ix(), num(1103515245)), num(12345)), num(100000));
    assert forall|i: int| 0 <= i < words3.len() implies crate::stage::meaning(
        word3,
        m2.contents,
        i,
    ) as u64 == #[trigger] words3[i] by {
        reveal_with_fuel(crate::stage::meaning, 5);
    }
    let m3 = crate::stage::lemma_filled(m2, steps[10], 4, num(100000), word3, words3);
    let table3 = Thing::Table {
        layout: Layout::Val,
        scalar: Scalar::U32,
        columns: seq![words3],
        turn: 6,
    };
    let m4 = crate::stage::lemma_create(m3, steps[11], 4, Layout::Val, Scalar::U32, 4, table3);
    crate::stage::lemma_asks_more(m, 5, list1, Ask::Make(table3));
    let list2 = list1.push(Ask::Make(table3));
    let sorted3 = Thing::Sorted { of: Box::new(table3), keys: 1, turn: 7 };
    let m5 = crate::stage::lemma_sort(m4, steps[12], 4, 1, 5, table3, sorted3);
    crate::stage::lemma_asks_more(m, 5, list2, Ask::Make(sorted3));
    let list3 = list2.push(Ask::Make(sorted3));
    let m6 = crate::stage::lemma_download(m5, steps[13], 5, 0, Scalar::U32, 5, sorted3);
    crate::stage::lemma_asks_more(
        m,
        5,
        list3,
        Ask::Words { of: sorted3, column: 0, scalar: Scalar::U32 },
    );
    let list4 = list3.push(Ask::Words { of: sorted3, column: 0, scalar: Scalar::U32 });
    let m7 = crate::stage::lemma_look(m6, steps[14]);
    assert(memory_locality_sorts_2_asks() == list4);
    m7
}

/// The steps of the part `sorts` of `test_memory_locality`.
proof fn lemma_memory_locality_sorts_steps()
    ensures
        ({
            let steps = crate::categories::c17_caching::memory_locality_sorts_steps();
            &&& steps.len() == 15
            &&& crate::stage::fills(steps[0], 0, num(100000), ix())
            &&& crate::stage::demands(
                steps[1],
                Request::Create { into: 0, layout: Layout::Val, scalar: Scalar::U32, from: 0 },
            )
            &&& crate::stage::demands(steps[2], Request::Sort { of: 0, keys: 1, into: 1 })
            &&& crate::stage::demands(
                steps[3],
                Request::Download { of: 1, column: 0, scalar: Scalar::U32, into: 1 },
            )
            &&& crate::stage::looks(steps[4])
            &&& crate::stage::fills(
                steps[5],
                2,
                num(100000),
                minus(minus(num(100000), num(1)), ix()),
            )
            &&& crate::stage::demands(
                steps[6],
                Request::Create { into: 2, layout: Layout::Val, scalar: Scalar::U32, from: 2 },
            )
            &&& crate::stage::demands(steps[7], Request::Sort { of: 2, keys: 1, into: 3 })
            &&& crate::stage::demands(
                steps[8],
                Request::Download { of: 3, column: 0, scalar: Scalar::U32, into: 3 },
            )
            &&& crate::stage::looks(steps[9])
            &&& crate::stage::fills(
                steps[10],
                4,
                num(100000),
                modulo(plus(times(ix(), num(1103515245)), num(12345)), num(100000)),
            )
            &&& crate::stage::demands(
                steps[11],
                Request::Create { into: 4, layout: Layout::Val, scalar: Scalar::U32, from: 4 },
            )
            &&& crate::stage::demands(steps[12], Request::Sort { of: 4, keys: 1, into: 5 })
            &&& crate::stage::demands(
                steps[13],
                Request::Download { of: 5, column: 0, scalar: Scalar::U32, into: 5 },
            )
            &&& crate::stage::looks(steps[14])
        }),
{
}

/// What the device is asked in piece 1 of the part `filters` of `test_memory_locality`.
pub open spec fn memory_locality_filters_1_asks() -> Seq<Ask> {
    let words1 = crate::stage::column(100000, |i: int| crate::stage::flag((i < 50000)));
    let kept1 = Thing::Kept { of: Box::new(memory_locality_sorts_table1()), mask: words1, turn: 9 };
    let words2 = crate::stage::column(100000, |i: int| crate::stage::flag(((i % 2) == 0)));
    let kept2 = Thing::Kept {
        of: Box::new(memory_locality_sorts_table1()),
        mask: words2,
        turn: 11,
    };
    seq![
        Ask::Make(kept1),
        Ask::Rows(kept1),
        Ask::Make(kept2),
        Ask::Rows(kept2),
        Ask::Make(memory_locality_filters_kept3()),
    ]
}

/// Piece 1 of the part `filters` of `test_memory_locality` asks what it should.
proof fn lemma_memory_locality_filters_1(m: Moment, steps: Seq<Step>) -> (n: Moment)
    requires
        m.holds(),
        m.at == 15,
        m.used == 9,
        15 + 10 <= m.plan.steps.len(),
        forall|j: int| 0 <= j < 10 ==> m.plan.steps[15 + j] == #[trigger] steps[j],
        crate::stage::fills(steps[0], 6, num(100000), lt(ix(), num(50000))),
        crate::stage::demands(steps[1], Request::Filter { of: 0, mask: 6, into: 6 }),
        crate::stage::counts(steps[2], 6),
        crate::stage::fills(steps[3], 7, num(100000), same_as(modulo(ix(), num(2)), num(0))),
        crate::stage::demands(steps[4], Request::Filter { of: 0, mask: 7, into: 7 }),
        crate::stage::counts(steps[5], 7),
        crate::stage::fills(steps[6], 8, num(100000), same_as(modulo(ix(), num(100)), num(0))),
        crate::stage::demands(steps[7], Request::Filter { of: 0, mask: 8, into: 8 }),
        m.scene.buffer(0) == memory_locality_sorts_table1(),
    ensures
        n.holds(),
        n.plan == m.plan,
        n.answers == m.answers,
        n.at == 15 + 8,
        n.used == m.used + 5,
        n.scene.buffer(8) == memory_locality_filters_kept3(),
        crate::stage::asks(m.plan, m.answers, 9, memory_locality_filters_1_asks()),
{
    crate::stage::lemma_full(m);
    crate::stage::lemma_asks_none(m, 9);
    let list0 = Seq::<Ask>::empty();
    let words1 = crate::stage::column(100000, |i: int| crate::stage::flag((i < 50000)));
    let word1 = lt(ix(), num(50000));
    assert forall|i: int| 0 <= i < words1.len() implies crate::stage::meaning(
        word1,
        m.contents,
        i,
    ) as u64 == #[trigger] words1[i] by {
        reveal_with_fuel(crate::stage::meaning, 3);
    }
    let m1 = crate::stage::lemma_filled(m, steps[0], 6, num(100000), word1, words1);
    let kept1 = Thing::Kept { of: Box::new(memory_locality_sorts_table1()), mask: words1, turn: 9 };
    let m2 = crate::stage::lemma_filter(
        m1,
        steps[1],
        0,
        6,
        6,
        memory_locality_sorts_table1(),
        words1,
        kept1,
    );
    crate::stage::lemma_asks_more(m, 9, list0, Ask::Make(kept1));
    let list1 = list0.push(Ask::Make(kept1));
    let m3 = crate::stage::lemma_count(m2, steps[2], 6, kept1);
    crate::stage::lemma_asks_more(m, 9, list1, Ask::Rows(kept1));
    let list2 = list1.push(Ask::Rows(kept1));
    let words2 = crate::stage::column(100000, |i: int| crate::stage::flag(((i % 2) == 0)));
    let word4 = same_as(modulo(ix(), num(2)), num(0));
    assert forall|i: int| 0 <= i < words2.len() implies crate::stage::meaning(
        word4,
        m3.contents,
        i,
    ) as u64 == #[trigger] words2[i] by {
        reveal_with_fuel(crate::stage::meaning, 4);
    }
    let m4 = crate::stage::lemma_filled(m3, steps[3], 7, num(100000), word4, words2);
    let kept2 = Thing::Kept {
        of: Box::new(memory_locality_sorts_table1()),
        mask: words2,
        turn: 11,
    };
    let m5 = crate::stage::lemma_filter(
        m4,
        steps[4],
        0,
        7,
        7,
        memory_locality_sorts_table1(),
        words2,
        kept2,
    );
    crate::stage::lemma_asks_more(m, 9, list2, Ask::Make(kept2));
    let list3 = list2.push(Ask::Make(kept2));
    let m6 = crate::stage::lemma_count(m5, steps[5], 7, kept2);
    crate::stage::lemma_asks_more(m, 9, list3, Ask::Rows(kept2));
    let list4 = list3.push(Ask::Rows(kept2));
    let words3 = crate::stage::column(100000, |i: int| crate::stage::flag(((i % 100) == 0)));
    let word7 = same_as(modulo(ix(), num(100)), num(0));
    assert forall|i: int| 0 <= i < words3.len() implies crate::stage::meaning(
        word7,
        m6.contents,
        i,
    ) as u64 == #[trigger] words3[i] by {
        reveal_with_fuel(crate::stage::meaning, 4);
    }
    let m7 = crate::stage::lemma_filled(m6, steps[6], 8, num(100000), word7, words3);
    let m8 = crate::stage::lemma_filter(
        m7,
        steps[7],
        0,
        8,
        8,
        memory_locality_sorts_table1(),
        words3,
        memory_locality_filters_kept3(),
    );
    crate::stage::lemma_asks_more(m, 9, list4, Ask::Make(memory_locality_filters_kept3()));
    let list5 = list4.push(Ask::Make(memory_locality_filters_kept3()));
    assert(memory_locality_filters_1_asks() == list5);
    m8
}

/// What the device is asked in piece 2 of the part `filters` of `test_memory_locality`.
pub open spec fn memory_locality_filters_2_asks() -> Seq<Ask> {
    seq![Ask::Rows(memory_locality_filters_kept3()), Ask::Other(Request::Sync)]
}

/// Piece 2 of the part `filters` of `test_memory_locality` asks what it should.
proof fn lemma_memory_locality_filters_2(m: Moment, steps: Seq<Step>) -> (n: Moment)
    requires
        m.holds(),
        m.at == 15 + 8,
        m.used == 14,
        15 + 10 <= m.plan.steps.len(),
        forall|j: int| 0 <= j < 10 ==> m.plan.steps[15 + j] == #[trigger] steps[j],
        crate::stage::counts(steps[8], 8),
        crate::stage::demands(steps[9], Request::Sync),
        m.scene.buffer(8) == memory_locality_filters_kept3(),
    ensures
        n.holds(),
        n.plan == m.plan,
        n.answers == m.answers,
        n.at == 15 + 10,
        n.used == m.used + 2,
        crate::stage::asks(m.plan, m.answers, 14, memory_locality_filters_2_asks()),
{
    crate::stage::lemma_full(m);
    crate::stage::lemma_asks_none(m, 14);
    let list0 = Seq::<Ask>::empty();
    let m1 = crate::stage::lemma_count(m, steps[8], 8, memory_locality_filters_kept3());
    crate::stage::lemma_asks_more(m, 14, list0, Ask::Rows(memory_locality_filters_kept3()));
    let list1 = list0.push(Ask::Rows(memory_locality_filters_kept3()));
    let m2 = crate::stage::lemma_sync(m1, steps[9]);
    crate::stage::lemma_asks_more(m, 14, list1, Ask::Other(Request::Sync));
    let list2 = list1.push(Ask::Other(Request::Sync));
    assert(memory_locality_filters_2_asks() == list2);
    m2
}

/// The steps of the part `filters` of `test_memory_locality`.
proof fn lemma_memory_locality_filters_steps()
    ensures
        ({
            let steps = crate::categories::c17_caching::memory_locality_filters_steps();
            &&& steps.len() == 10
            &&& crate::stage::fills(steps[0], 6, num(100000), lt(ix(), num(50000)))
            &&& crate::stage::demands(steps[1], Request::Filter { of: 0, mask: 6, into: 6 })
            &&& crate::stage::counts(steps[2], 6)
            &&& crate::stage::fills(steps[3], 7, num(100000), same_as(modulo(ix(), num(2)), num(0)))
            &&& crate::stage::demands(steps[4], Request::Filter { of: 0, mask: 7, into: 7 })
            &&& crate::stage::counts(steps[5], 7)
            &&& crate::stage::fills(
                steps[6],
                8,
                num(100000),
                same_as(modulo(ix(), num(100)), num(0)),
            )
            &&& crate::stage::demands(steps[7], Request::Filter { of: 0, mask: 8, into: 8 })
            &&& crate::stage::counts(steps[8], 8)
            &&& crate::stage::demands(steps[9], Request::Sync)
        }),
{
}

/// In a run of `test_memory_locality` that passes the device is asked this, in this order, and
/// nothing else: each request about what an earlier one made is about that, and about what was
/// uploaded for it.
pub proof fn law_memory_locality_asks_about_what_it_made(answers: Seq<Answer>)
    requires
        crate::stage::passes(
            crate::script::plan(
                "test_memory_locality",
                crate::categories::c17_caching::memory_locality_steps(),
            ),
            answers,
        ),
    ensures
        crate::stage::asks(
            crate::script::plan(
                "test_memory_locality",
                crate::categories::c17_caching::memory_locality_steps(),
            ),
            answers,
            0,
            memory_locality_sorts_1_asks(),
        ),
        crate::stage::asks(
            crate::script::plan(
                "test_memory_locality",
                crate::categories::c17_caching::memory_locality_steps(),
            ),
            answers,
            5,
            memory_locality_sorts_2_asks(),
        ),
        crate::stage::asks(
            crate::script::plan(
                "test_memory_locality",
                crate::categories::c17_caching::memory_locality_steps(),
            ),
            answers,
            9,
            memory_locality_filters_1_asks(),
        ),
        crate::stage::asks(
            crate::script::plan(
                "test_memory_locality",
                crate::categories::c17_caching::memory_locality_steps(),
            ),
            answers,
            14,
            memory_locality_filters_2_asks(),
        ),
        crate::stage::asked(
            crate::script::plan(
                "test_memory_locality",
                crate::categories::c17_caching::memory_locality_steps(),
            ),
            answers,
            16,
        ) is None,
{
    let plan = crate::script::plan(
        "test_memory_locality",
        crate::categories::c17_caching::memory_locality_steps(),
    );
    let part1 = crate::categories::c17_caching::memory_locality_sorts_steps();
    lemma_memory_locality_sorts_steps();
    let part2 = crate::categories::c17_caching::memory_locality_filters_steps();
    lemma_memory_locality_filters_steps();
    let whole1 = part1;
    let whole2 = whole1 + part2;
    assert(plan.steps == whole2);
    let m0 = crate::stage::lemma_start(plan, answers);
    assert forall|j: int| 0 <= j < 15 implies plan.steps[0 + j] == #[trigger] part1[j] by {}
    let m1 = lemma_memory_locality_sorts_1(m0, part1);
    let m2 = lemma_memory_locality_sorts_2(m1, part1);
    assert forall|j: int| 0 <= j < 10 implies plan.steps[15 + j] == #[trigger] part2[j] by {}
    let m3 = lemma_memory_locality_filters_1(m2, part2);
    let m4 = lemma_memory_locality_filters_2(m3, part2);
    crate::stage::lemma_end(m4);
}

} // verus!
