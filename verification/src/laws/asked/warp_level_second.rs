//! What these tests ask the device in runs that pass: `test_warp_uniform_patterns`,
//! `test_multi_warp_coordination`.

use vstd::prelude::*;
use crate::expr::{ix, lt, minus, modulo, num, over, pick, same_as};
use crate::machine::Answer;
use crate::scalar::Scalar;
use crate::script::{Layout, Request, Step};
use crate::stage::{Ask, Moment, Thing};

verus! {

/// What the device is asked in piece 1 of the part `all` of `test_warp_uniform_patterns`.
pub open spec fn warp_uniform_patterns_all_1_asks() -> Seq<Ask> {
    let words1 = crate::stage::column(1024, |i: int| i / 32);
    let table1 = Thing::Table {
        layout: Layout::Val,
        scalar: Scalar::U32,
        columns: seq![words1],
        turn: 0,
    };
    let sorted1 = Thing::Sorted { of: Box::new(table1), keys: 1, turn: 1 };
    let unique1 = Thing::Unique { of: Box::new(table1), turn: 3 };
    seq![
        Ask::Make(table1),
        Ask::Make(sorted1),
        Ask::Words { of: sorted1, column: 0, scalar: Scalar::U32 },
        Ask::Make(unique1),
        Ask::Handle(unique1),
    ]
}

/// Piece 1 of the part `all` of `test_warp_uniform_patterns` asks what it should.
proof fn lemma_warp_uniform_patterns_all_1(m: Moment, steps: Seq<Step>) -> (n: Moment)
    requires
        m.holds(),
        m.at == 0,
        m.used == 0,
        0 + 15 <= m.plan.steps.len(),
        forall|j: int| 0 <= j < 15 ==> m.plan.steps[0 + j] == #[trigger] steps[j],
        crate::stage::fills(steps[0], 0, num(1024), over(ix(), num(32))),
        crate::stage::demands(
            steps[1],
            Request::Create { into: 0, layout: Layout::Val, scalar: Scalar::U32, from: 0 },
        ),
        crate::stage::demands(steps[2], Request::Sort { of: 0, keys: 1, into: 1 }),
        crate::stage::demands(
            steps[3],
            Request::Download { of: 1, column: 0, scalar: Scalar::U32, into: 1 },
        ),
        crate::stage::looks(steps[4]),
        crate::stage::looks(steps[5]),
        crate::stage::demands(steps[6], Request::Dedup { of: 0, into: 2 }),
        crate::stage::inquires(steps[7], Request::RowsKnown { of: 2, into: 0 }),
    ensures
        n.holds(),
        n.plan == m.plan,
        n.answers == m.answers,
        n.at == 0 + 8,
        n.used == m.used + 5,
        crate::stage::asks(m.plan, m.answers, 0, warp_uniform_patterns_all_1_asks()),
{
    crate::stage::lemma_full(m);
    crate::stage::lemma_asks_none(m, 0);
    let list0 = Seq::<Ask>::empty();
    let words1 = crate::stage::column(1024, |i: int| i / 32);
    let word1 = over(ix(), num(32));
    assert forall|i: int| 0 <= i < words1.len() implies crate::stage::meaning(
        word1,
        m.contents,
        i,
    ) as u64 == #[trigger] words1[i] by {
        reveal_with_fuel(crate::stage::meaning, 3);
    }
    let m1 = crate::stage::lemma_filled(m, steps[0], 0, num(1024), word1, words1);
    let table1 = Thing::Table {
        layout: Layout::Val,
        scalar: Scalar::U32,
        columns: seq![words1],
        turn: 0,
    };
    let m2 = crate::stage::lemma_create(m1, steps[1], 0, Layout::Val, Scalar::U32, 0, table1);
    crate::stage::lemma_asks_more(m, 0, list0, Ask::Make(table1));
    let list1 = list0.push(Ask::Make(table1));
    let sorted1 = Thing::Sorted { of: Box::new(table1), keys: 1, turn: 1 };
    let m3 = crate::stage::lemma_sort(m2, steps[2], 0, 1, 1, table1, sorted1);
    crate::stage::lemma_asks_more(m, 0, list1, Ask::Make(sorted1));
    let list2 = list1.push(Ask::Make(sorted1));
    let m4 = crate::stage::lemma_download(m3, steps[3], 1, 0, Scalar::U32, 1, sorted1);
    crate::stage::lemma_asks_more(
        m,
        0,
        list2,
        Ask::Words { of: sorted1, column: 0, scalar: Scalar::U32 },
    );
    let list3 = list2.push(Ask::Words { of: sorted1, column: 0, scalar: Scalar::U32 });
    let m5 = crate::stage::lemma_look(m4, steps[4]);
    let m6 = crate::stage::lemma_look(m5, steps[5]);
    let unique1 = Thing::Unique { of: Box::new(table1), turn: 3 };
    let m7 = crate::stage::lemma_dedup(m6, steps[6], 0, 2, table1, unique1);
    crate::stage::lemma_asks_more(m, 0, list3, Ask::Make(unique1));
    let list4 = list3.push(Ask::Make(unique1));
    let m8 = crate::stage::lemma_handle(m7, steps[7], 2, 0, unique1);
    crate::stage::lemma_asks_more(m, 0, list4, Ask::Handle(unique1));
    let list5 = list4.push(Ask::Handle(unique1));
    assert(warp_uniform_patterns_all_1_asks() == list5);
    m8
}

/// What the device is asked in piece 2 of the part `all` of `test_warp_uniform_patterns`.
pub open spec fn warp_uniform_patterns_all_2_asks() -> Seq<Ask> {
    let words2 = crate::stage::column(1024, |i: int| 42);
    let table2 = Thing::Table {
        layout: Layout::Val,
        scalar: Scalar::U32,
        columns: seq![words2],
        turn: 5,
    };
    let unique2 = Thing::Unique { of: Box::new(table2), turn: 6 };
    seq![Ask::Make(table2), Ask::Make(unique2), Ask::Handle(unique2), Ask::Other(Request::Sync)]
}

/// Piece 2 of the part `all` of `test_warp_uniform_patterns` asks what it should.
proof fn lemma_warp_uniform_patterns_all_2(m: Moment, steps: Seq<Step>) -> (n: Moment)
    requires
        m.holds(),
        m.at == 0 + 8,
        m.used == 5,
        0 + 15 <= m.plan.steps.len(),
        forall|j: int| 0 <= j < 15 ==> m.plan.steps[0 + j] == #[trigger] steps[j],
        crate::stage::looks(steps[8]),
        crate::stage::fills(steps[9], 2, num(1024), num(42)),
        crate::stage::demands(
            steps[10],
            Request::Create { into: 3, layout: Layout::Val, scalar: Scalar::U32, from: 2 },
        ),
        crate::stage::demands(steps[11], Request::Dedup { of: 3, into: 4 }),
        crate::stage::inquires(steps[12], Request::RowsKnown { of: 4, into: 0 }),
        crate::stage::looks(steps[13]),
        crate::stage::demands(steps[14], Request::Sync),
    ensures
        n.holds(),
        n.plan == m.plan,
        n.answers == m.answers,
        n.at == 0 + 15,
        n.used == m.used + 4,
        crate::stage::asks(m.plan, m.answers, 5, warp_uniform_patterns_all_2_asks()),
{
    crate::stage::lemma_full(m);
    crate::stage::lemma_asks_none(m, 5);
    let list0 = Seq::<Ask>::empty();
    let m1 = crate::stage::lemma_look(m, steps[8]);
    let words2 = crate::stage::column(1024, |i: int| 42);
    let word2 = num(42);
    assert forall|i: int| 0 <= i < words2.len() implies crate::stage::meaning(
        word2,
        m1.contents,
        i,
    ) as u64 == #[trigger] words2[i] by {
        reveal_with_fuel(crate::stage::meaning, 2);
    }
    let m2 = crate::stage::lemma_filled(m1, steps[9], 2, num(1024), word2, words2);
    let table2 = Thing::Table {
        layout: Layout::Val,
        scalar: Scalar::U32,
        columns: seq![words2],
        turn: 5,
    };
    let m3 = crate::stage::lemma_create(m2, steps[10], 3, Layout::Val, Scalar::U32, 2, table2);
    crate::stage::lemma_asks_more(m, 5, list0, Ask::Make(table2));
    let list1 = list0.push(Ask::Make(table2));
    let unique2 = Thing::Unique { of: Box::new(table2), turn: 6 };
    let m4 = crate::stage::lemma_dedup(m3, steps[11], 3, 4, table2, unique2);
    crate::stage::lemma_asks_more(m, 5, list1, Ask::Make(unique2));
    let list2 = list1.push(Ask::Make(unique2));
    let m5 = crate::stage::lemma_handle(m4, steps[12], 4, 0, unique2);
    crate::stage::lemma_asks_more(m, 5, list2, Ask::Handle(unique2));
    let list3 = list2.push(Ask::Handle(unique2));
    let m6 = crate::stage::lemma_look(m5, steps[13]);
    let m7 = crate::stage::lemma_sync(m6, steps[14]);
    crate::stage::lemma_asks_more(m, 5, list3, Ask::Other(Request::Sync));
    let list4 = list3.push(Ask::Other(Request::Sync));
    assert(warp_uniform_patterns_all_2_asks() == list4);
    m7
}

/// The steps of the part `all` of `test_warp_uniform_patterns`.
proof fn lemma_warp_uniform_patterns_all_steps()
    ensures
        ({
            let steps = crate::categories::c09_warp_level::warp_uniform_patterns_steps();
            &&& steps.len() == 15
            &&& crate::stage::fills(steps[0], 0, num(1024), over(ix(), num(32)))
            &&& crate::stage::demands(
                steps[1],
                Request::Create { into: 0, layout: Layout::Val, scalar: Scalar::U32, from: 0 },
            )
            &&& crate::stage::demands(steps[2], Request::Sort { of: 0, keys: 1, into: 1 })
            &&& crate::stage::demands(
                steps[3],
                Request::Download { of: 1, column: 0, scalar: Scalar::U32, into: 1 },
            )
            &&& crate::stage::looks(steps[4])
            &&& crate::stage::looks(steps[5])
            &&& crate::stage::demands(steps[6], Request::Dedup { of: 0, into: 2 })
            &&& crate::stage::inquires(steps[7], Request::RowsKnown { of: 2, into: 0 })
            &&& crate::stage::looks(steps[8])
            &&& crate::stage::fills(steps[9], 2, num(1024), num(42))
            &&& crate::stage::demands(
                steps[10],
                Request::Create { into: 3, layout: Layout::Val, scalar: Scalar::U32, from: 2 },
            )
            &&& crate::stage::demands(steps[11], Request::Dedup { of: 3, into: 4 })
            &&& crate::stage::inquires(steps[12], Request::RowsKnown { of: 4, into: 0 })
            &&& crate::stage::looks(steps[13])
            &&& crate::stage::demands(steps[14], Request::Sync)
        }),
{
}

/// In a run of `test_warp_uniform_patterns` that passes the device is asked this, in this order,
/// and nothing else: each request about what an earlier one made is about that, and about what was
/// uploaded for it.
pub proof fn law_warp_uniform_patterns_asks_about_what_it_made(answers: Seq<Answer>)
    requires
        crate::stage::passes(
            crate::script::plan(
                "test_warp_uniform_patterns",
                crate::categories::c09_warp_level::warp_uniform_patterns_steps(),
            ),
            answers,
        ),
    ensures
        crate::stage::asks(
            crate::script::plan(
                "test_warp_uniform_patterns",
                crate::categories::c09_warp_level::warp_uniform_patterns_steps(),
            ),
            answers,
            0,
            warp_uniform_patterns_all_1_asks(),
        ),
        crate::stage::asks(
            crate::script::plan(
                "test_warp_uniform_patterns",
                crate::categories::c09_warp_level::warp_uniform_patterns_steps(),
            ),
            answers,
            5,
            warp_uniform_patterns_all_2_asks(),
        ),
        crate::stage::asked(
            crate::script::plan(
                "test_warp_uniform_patterns",
                crate::categories::c09_warp_level::warp_uniform_patterns_steps(),
            ),
            answers,
            9,
        ) is None,
{
    let plan = crate::script::plan(
        "test_warp_uniform_patterns",
        crate::categories::c09_warp_level::warp_uniform_patterns_steps(),
    );
    let part1 = crate::categories::c09_warp_level::warp_uniform_patterns_steps();
    lemma_warp_uniform_patterns_all_steps();
    let whole1 = part1;
    assert(plan.steps == whole1);
    let m0 = crate::stage::lemma_start(plan, answers);
    assert forall|j: int| 0 <= j < 15 implies plan.steps[0 + j] == #[trigger] part1[j] by {}
    let m1 = lemma_warp_uniform_patterns_all_1(m0, part1);
    let m2 = lemma_warp_uniform_patterns_all_2(m1, part1);
    crate::stage::lemma_end(m2);
}

/// A buffer that is uploaded in round `k` of the part `sizes` of `test_multi_warp_coordination`.
pub open spec fn multi_warp_coordination_sizes_table1(k: int) -> Thing {
    Thing::Table {
        layout: Layout::KeyVal,
        scalar: Scalar::U32,
        columns: seq![
            crate::stage::column(
                (crate::categories::c09_warp_level::COORDINATION_SIZES@[k] as int),
                |i: int| ((crate::categories::c09_warp_level::COORDINATION_SIZES@[k] as int) - 1) - i,
            ),
            crate::stage::column(
                (crate::categories::c09_warp_level::COORDINATION_SIZES@[k] as int),
                |i: int| i,
            ),
        ],
        turn: 0 + 8 * k,
    }
}

/// What the device is asked in piece 1 of round `k` of the part `sizes` of
/// `test_multi_warp_coordination`.
pub open spec fn multi_warp_coordination_sizes_1_asks(k: int) -> Seq<Ask> {
    let sorted1 = Thing::Sorted {
        of: Box::new(multi_warp_coordination_sizes_table1(k)),
        keys: 1,
        turn: 1 + 8 * k,
    };
    seq![
        Ask::Make(multi_warp_coordination_sizes_table1(k)),
        Ask::Make(sorted1),
        Ask::Handle(sorted1),
        Ask::Words { of: sorted1, column: 0, scalar: Scalar::U32 },
        Ask::Words { of: sorted1, column: 1, scalar: Scalar::U32 },
    ]
}

/// Piece 1 of round `k` of the part `sizes` of `test_multi_warp_coordination` asks what it should.
proof fn lemma_multi_warp_coordination_sizes_1(m: Moment, steps: Seq<Step>, k: int) -> (n: Moment)
    requires
        0 <= k < 3,
        m.holds(),
        m.at == 0 + 16 * k,
        m.used == 0 + 8 * k,
        0 + 16 * k + 16 <= m.plan.steps.len(),
        forall|j: int| 0 <= j < 16 ==> m.plan.steps[0 + 16 * k + j] == #[trigger] steps[j],
        crate::stage::fills(
            steps[0],
            0,
            num(crate::categories::c09_warp_level::COORDINATION_SIZES@[k as u64 as int]),
            minus(
                minus(
                    num(crate::categories::c09_warp_level::COORDINATION_SIZES@[k as u64 as int]),
                    num(1),
                ),
                ix(),
            ),
        ),
        crate::stage::fills(
            steps[1],
            1,
            num(crate::categories::c09_warp_level::COORDINATION_SIZES@[k as u64 as int]),
            ix(),
        ),
        crate::stage::demands(
            steps[2],
            Request::Create { into: 0, layout: Layout::KeyVal, scalar: Scalar::U32, from: 0 },
        ),
        crate::stage::demands(steps[3], Request::Sort { of: 0, keys: 1, into: 1 }),
        crate::stage::inquires(steps[4], Request::RowsKnown { of: 1, into: 0 }),
        crate::stage::looks(steps[5]),
        crate::stage::demands(
            steps[6],
            Request::Download { of: 1, column: 0, scalar: Scalar::U32, into: 2 },
        ),
        crate::stage::demands(
            steps[7],
            Request::Download { of: 1, column: 1, scalar: Scalar::U32, into: 3 },
        ),
    ensures
        n.holds(),
        n.plan == m.plan,
        n.answers == m.answers,
        n.at == 0 + 16 * k + 8,
        n.used == m.used + 5,
        n.scene.buffer(0) == multi_warp_coordination_sizes_table1(k),
        crate::stage::asks(m.plan, m.answers, 0 + 8 * k, multi_warp_coordination_sizes_1_asks(k)),
{
    crate::stage::lemma_full(m);
    crate::stage::lemma_asks_none(m, 0 + 8 * k);
    let list0 = Seq::<Ask>::empty();
    let words1 = crate::stage::column(
        (crate::categories::c09_warp_level::COORDINATION_SIZES@[k] as int),
        |i: int| ((crate::categories::c09_warp_level::COORDINATION_SIZES@[k] as int) - 1) - i,
    );
    let word1 = minus(
        minus(num(crate::categories::c09_warp_level::COORDINATION_SIZES@[k as u64 as int]), num(1)),
        ix(),
    );
    assert forall|i: int| 0 <= i < words1.len() implies crate::stage::meaning(
        word1,
        m.contents,
        i,
    ) as u64 == #[trigger] words1[i] by {
        reveal_with_fuel(crate::stage::meaning, 4);
    }
    let m1 = crate::stage::lemma_filled(
        m,
        steps[0],
        0,
        num(crate::categories::c09_warp_level::COORDINATION_SIZES@[k as u64 as int]),
        word1,
        words1,
    );
    let words2 = crate::stage::column(
        (crate::categories::c09_warp_level::COORDINATION_SIZES@[k] as int),
        |i: int| i,
    );
    let word2 = ix();
    assert forall|i: int| 0 <= i < words2.len() implies crate::stage::meaning(
        word2,
        m1.contents,
        i,
    ) as u64 == #[trigger] words2[i] by {
        reveal_with_fuel(crate::stage::meaning, 1);
    }
    let m2 = crate::stage::lemma_filled(
        m1,
        steps[1],
        1,
        num(crate::categories::c09_warp_level::COORDINATION_SIZES@[k as u64 as int]),
        word2,
        words2,
    );
    let m3 = crate::stage::lemma_create(
        m2,
        steps[2],
        0,
        Layout::KeyVal,
        Scalar::U32,
        0,
        multi_warp_coordination_sizes_table1(k),
    );
    crate::stage::lemma_asks_more(
        m,
        0 + 8 * k,
        list0,
        Ask::Make(multi_warp_coordination_sizes_table1(k)),
    );
    let list1 = list0.push(Ask::Make(multi_warp_coordination_sizes_table1(k)));
    let sorted1 = Thing::Sorted {
        of: Box::new(multi_warp_coordination_sizes_table1(k)),
        keys: 1,
        turn: 1 + 8 * k,
    };
    let m4 = crate::stage::lemma_sort(
        m3,
        steps[3],
        0,
        1,
        1,
        multi_warp_coordination_sizes_table1(k),
        sorted1,
    );
    crate::stage::lemma_asks_more(m, 0 + 8 * k, list1, Ask::Make(sorted1));
    let list2 = list1.push(Ask::Make(sorted1));
    let m5 = crate::stage::lemma_handle(m4, steps[4], 1, 0, sorted1);
    crate::stage::lemma_asks_more(m, 0 + 8 * k, list2, Ask::Handle(sorted1));
    let list3 = list2.push(Ask::Handle(sorted1));
    let m6 = crate::stage::lemma_look(m5, steps[5]);
    let m7 = crate::stage::lemma_download(m6, steps[6], 1, 0, Scalar::U32, 2, sorted1);
    crate::stage::lemma_asks_more(
        m,
        0 + 8 * k,
        list3,
        Ask::Words { of: sorted1, column: 0, scalar: Scalar::U32 },
    );
    let list4 = list3.push(Ask::Words { of: sorted1, column: 0, scalar: Scalar::U32 });
    let m8 = crate::stage::lemma_download(m7, steps[7], 1, 1, Scalar::U32, 3, sorted1);
    crate::stage::lemma_asks_more(
        m,
        0 + 8 * k,
        list4,
        Ask::Words { of: sorted1, column: 1, scalar: Scalar::U32 },
    );
    let list5 = list4.push(Ask::Words { of: sorted1, column: 1, scalar: Scalar::U32 });
    assert(multi_warp_coordination_sizes_1_asks(k) == list5);
    m8
}

/// What the device is asked in piece 2 of round `k` of the part `sizes` of
/// `test_multi_warp_coordination`.
pub open spec fn multi_warp_coordination_sizes_2_asks(k: int) -> Seq<Ask> {
    let words3 = crate::stage::column(
        (crate::categories::c09_warp_level::COORDINATION_SIZES@[k] as int),
        |i: int| if (
            ((i / 32) % 2) == 0
        ) { crate::stage::flag(((i % 3) == 0)) } else { crate::stage::flag(((i % 32) < 16)) },
    );
    let kept1 = Thing::Kept {
        of: Box::new(multi_warp_coordination_sizes_table1(k)),
        mask: words3,
        turn: 5 + 8 * k,
    };
    seq![Ask::Make(kept1), Ask::Handle(kept1), Ask::Other(Request::Release { from: 0 })]
}

/// Piece 2 of round `k` of the part `sizes` of `test_multi_warp_coordination` asks what it should.
proof fn lemma_multi_warp_coordination_sizes_2(m: Moment, steps: Seq<Step>, k: int) -> (n: Moment)
    requires
        0 <= k < 3,
        m.holds(),
        m.at == 0 + 16 * k + 8,
        m.used == 5 + 8 * k,
        0 + 16 * k + 16 <= m.plan.steps.len(),
        forall|j: int| 0 <= j < 16 ==> m.plan.steps[0 + 16 * k + j] == #[trigger] steps[j],
        crate::stage::looks(steps[8]),
        crate::stage::looks(steps[9]),
        crate::stage::fills(
            steps[10],
            4,
            num(crate::categories::c09_warp_level::COORDINATION_SIZES@[k as u64 as int]),
            pick(
                same_as(modulo(over(ix(), num(32)), num(2)), num(0)),
                same_as(modulo(ix(), num(3)), num(0)),
                lt(modulo(ix(), num(32)), num(16)),
            ),
        ),
        crate::stage::reckons(steps[11], 1),
        crate::stage::demands(steps[12], Request::Filter { of: 0, mask: 4, into: 2 }),
        crate::stage::inquires(steps[13], Request::RowsKnown { of: 2, into: 0 }),
        crate::stage::looks(steps[14]),
        crate::stage::inquires(steps[15], Request::Release { from: 0 }),
        m.scene.buffer(0) == multi_warp_coordination_sizes_table1(k),
    ensures
        n.holds(),
        n.plan == m.plan,
        n.answers == m.answers,
        n.at == 0 + 16 * k + 16,
        n.used == m.used + 3,
        crate::stage::asks(m.plan, m.answers, 5 + 8 * k, multi_warp_coordination_sizes_2_asks(k)),
{
    crate::stage::lemma_full(m);
    crate::stage::lemma_asks_none(m, 5 + 8 * k);
    let list0 = Seq::<Ask>::empty();
    let m1 = crate::stage::lemma_look(m, steps[8]);
    let m2 = crate::stage::lemma_look(m1, steps[9]);
    let words3 = crate::stage::column(
        (crate::categories::c09_warp_level::COORDINATION_SIZES@[k] as int),
        |i: int| if (
            ((i / 32) % 2) == 0
        ) { crate::stage::flag(((i % 3) == 0)) } else { crate::stage::flag(((i % 32) < 16)) },
    );
    let word3 = pick(
        same_as(modulo(over(ix(), num(32)), num(2)), num(0)),
        same_as(modulo(ix(), num(3)), num(0)),
        lt(modulo(ix(), num(32)), num(16)),
    );
    assert forall|i: int| 0 <= i < words3.len() implies crate::stage::meaning(
        word3,
        m2.contents,
        i,
    ) as u64 == #[trigger] words3[i] by {
        reveal_with_fuel(crate::stage::meaning, 6);
    }
    let m3 = crate::stage::lemma_filled(
        m2,
        steps[10],
        4,
        num(crate::categories::c09_warp_level::COORDINATION_SIZES@[k as u64 as int]),
        word3,
        words3,
    );
    let m4 = crate::stage::lemma_reckon(m3, steps[11], 1);
    let kept1 = Thing::Kept {
        of: Box::new(multi_warp_coordination_sizes_table1(k)),
        mask: words3,
        turn: 5 + 8 * k,
    };
    let m5 = crate::stage::lemma_filter(
        m4,
        steps[12],
        0,
        4,
        2,
        multi_warp_coordination_sizes_table1(k),
        words3,
        kept1,
    );
    crate::stage::lemma_asks_more(m, 5 + 8 * k, list0, Ask::Make(kept1));
    let list1 = list0.push(Ask::Make(kept1));
    let m6 = crate::stage::lemma_handle(m5, steps[13], 2, 0, kept1);
    crate::stage::lemma_asks_more(m, 5 + 8 * k, list1, Ask::Handle(kept1));
    let list2 = list1.push(Ask::Handle(kept1));
    let m7 = crate::stage::lemma_look(m6, steps[14]);
    let m8 = crate::stage::lemma_release(m7, steps[15], 0);
    crate::stage::lemma_asks_more(m, 5 + 8 * k, list2, Ask::Other(Request::Release { from: 0 }));
    let list3 = list2.push(Ask::Other(Request::Release { from: 0 }));
    assert(multi_warp_coordination_sizes_2_asks(k) == list3);
    m8
}

/// The steps of the part `sizes` of `test_multi_warp_coordination`.
proof fn lemma_multi_warp_coordination_sizes_steps(k: int)
    ensures
        ({
            let steps = crate::categories::c09_warp_level::multi_warp_coordination_sizes_round(
                k as u64,
            );
            &&& steps.len() == 16
            &&& crate::stage::fills(
                steps[0],
                0,
                num(crate::categories::c09_warp_level::COORDINATION_SIZES@[k as u64 as int]),
                minus(
                    minus(
                        num(
                            crate::categories::c09_warp_level::COORDINATION_SIZES@[k as u64 as int],
                        ),
                        num(1),
                    ),
                    ix(),
                ),
            )
            &&& crate::stage::fills(
                steps[1],
                1,
                num(crate::categories::c09_warp_level::COORDINATION_SIZES@[k as u64 as int]),
                ix(),
            )
            &&& crate::stage::demands(
                steps[2],
                Request::Create { into: 0, layout: Layout::KeyVal, scalar: Scalar::U32, from: 0 },
            )
            &&& crate::stage::demands(steps[3], Request::Sort { of: 0, keys: 1, into: 1 })
            &&& crate::stage::inquires(steps[4], Request::RowsKnown { of: 1, into: 0 })
            &&& crate::stage::looks(steps[5])
            &&& crate::stage::demands(
                steps[6],
                Request::Download { of: 1, column: 0, scalar: Scalar::U32, into: 2 },
            )
            &&& crate::stage::demands(
                steps[7],
                Request::Download { of: 1, column: 1, scalar: Scalar::U32, into: 3 },
            )
            &&& crate::stage::looks(steps[8])
            &&& crate::stage::looks(steps[9])
            &&& crate::stage::fills(
                steps[10],
                4,
                num(crate::categories::c09_warp_level::COORDINATION_SIZES@[k as u64 as int]),
                pick(
                    same_as(modulo(over(ix(), num(32)), num(2)), num(0)),
                    same_as(modulo(ix(), num(3)), num(0)),
                    lt(modulo(ix(), num(32)), num(16)),
                ),
            )
            &&& crate::stage::reckons(steps[11], 1)
            &&& crate::stage::demands(steps[12], Request::Filter { of: 0, mask: 4, into: 2 })
            &&& crate::stage::inquires(steps[13], Request::RowsKnown { of: 2, into: 0 })
            &&& crate::stage::looks(steps[14])
            &&& crate::stage::inquires(steps[15], Request::Release { from: 0 })
        }),
{
}

/// Round `k` of the part `sizes` of `test_multi_warp_coordination` asks what it should.
proof fn lemma_multi_warp_coordination_sizes_round(m: Moment, k: int) -> (n: Moment)
    requires
        0 <= k < 3,
        m.holds(),
        m.at == 0 + 16 * k,
        m.used == 0 + 8 * k,
        m.at + 16 <= m.plan.steps.len(),
        forall|j: int|
            0 <= j < 16 ==> m.plan.steps[0 + 16 * k + j] == #[trigger] crate::categories::c09_warp_level::multi_warp_coordination_sizes_round(
                k as u64,
            )[j],
    ensures
        n.holds(),
        n.plan == m.plan,
        n.answers == m.answers,
        n.at == 0 + 16 * (k + 1),
        n.used == 0 + 8 * (k + 1),
        crate::stage::asks(m.plan, m.answers, 0 + 8 * k, multi_warp_coordination_sizes_1_asks(k)),
        crate::stage::asks(m.plan, m.answers, 5 + 8 * k, multi_warp_coordination_sizes_2_asks(k)),
{
    let steps = crate::categories::c09_warp_level::multi_warp_coordination_sizes_round(k as u64);
    lemma_multi_warp_coordination_sizes_steps(k);
    let m1 = lemma_multi_warp_coordination_sizes_1(m, steps, k);
    lemma_multi_warp_coordination_sizes_2(m1, steps, k)
}

/// The first `k` rounds of the part `sizes` of `test_multi_warp_coordination` ask what they should.
proof fn lemma_multi_warp_coordination_sizes_rounds(
    m: Moment,
    part: Seq<Step>,
    k: int,
) -> (n: Moment)
    requires
        0 <= k <= 3,
        m.holds(),
        m.at == 0,
        m.used == 0 + 8 * 0,
        m.at + 48 <= m.plan.steps.len(),
        part == crate::script::rounds(
            3,
            |k: int| crate::categories::c09_warp_level::multi_warp_coordination_sizes_round(
                k as u64,
            ),
        ),
        forall|j: int| 0 <= j < 48 ==> m.plan.steps[0 + j] == #[trigger] part[j],
    ensures
        n.holds(),
        n.plan == m.plan,
        n.answers == m.answers,
        n.at == 0 + 16 * k,
        n.used == 0 + 8 * k,
        forall|j: int|
            0 <= j < k ==> crate::stage::asks(
                m.plan,
                m.answers,
                0 + 8 * j,
                #[trigger] multi_warp_coordination_sizes_1_asks(j),
            ),
        forall|j: int|
            0 <= j < k ==> crate::stage::asks(
                m.plan,
                m.answers,
                5 + 8 * j,
                #[trigger] multi_warp_coordination_sizes_2_asks(j),
            ),
    decreases k,
{
    if k == 0 {
        m
    } else {
        let round = |k: int| crate::categories::c09_warp_level::multi_warp_coordination_sizes_round(
            k as u64,
        );
        let before = lemma_multi_warp_coordination_sizes_rounds(m, part, k - 1);
        assert forall|j: int| 0 <= j < 16 implies m.plan.steps[before.at + j] == #[trigger] crate::categories::c09_warp_level::multi_warp_coordination_sizes_round(
            (k - 1) as u64,
        )[j] by {
            assert forall|k: int| 0 <= k < 3 implies (#[trigger] round(k)).len() == 16 by {
                lemma_multi_warp_coordination_sizes_steps(k);
            }
            crate::stage::lemma_round_place(3, round, 16, k - 1, j);
            assert(part[(k - 1) * 16 + j] == round(k - 1)[j]);
        }
        lemma_multi_warp_coordination_sizes_round(before, k - 1)
    }
}

/// What the device is asked in the part `end` of `test_multi_warp_coordination`.
pub open spec fn multi_warp_coordination_end_asks() -> Seq<Ask> {
    seq![Ask::Other(Request::Sync)]
}

/// The part `end` of `test_multi_warp_coordination` asks what it should.
proof fn lemma_multi_warp_coordination_end(m: Moment, steps: Seq<Step>) -> (n: Moment)
    requires
        m.holds(),
        m.at == 48,
        m.used == 24,
        48 + 1 <= m.plan.steps.len(),
        forall|j: int| 0 <= j < 1 ==> m.plan.steps[48 + j] == #[trigger] steps[j],
        crate::stage::demands(steps[0], Request::Sync),
    ensures
        n.holds(),
        n.plan == m.plan,
        n.answers == m.answers,
        n.at == 48 + 1,
        n.used == m.used + 1,
        crate::stage::asks(m.plan, m.answers, 24, multi_warp_coordination_end_asks()),
{
    crate::stage::lemma_full(m);
    crate::stage::lemma_asks_none(m, 24);
    let list0 = Seq::<Ask>::empty();
    let m1 = crate::stage::lemma_sync(m, steps[0]);
    crate::stage::lemma_asks_more(m, 24, list0, Ask::Other(Request::Sync));
    let list1 = list0.push(Ask::Other(Request::Sync));
    assert(multi_warp_coordination_end_asks() == list1);
    m1
}

/// The steps of the part `end` of `test_multi_warp_coordination`.
proof fn lemma_multi_warp_coordination_end_steps()
    ensures
        ({
            let steps = crate::categories::c09_warp_level::multi_warp_coordination_end_steps();
            &&& steps.len() == 1
            &&& crate::stage::demands(steps[0], Request::Sync)
        }),
{
}

/// In a run of `test_multi_warp_coordination` that passes the device is asked this, in this order,
/// and nothing else: each request about what an earlier one made is about that, and about what was
/// uploaded for it.
pub proof fn law_multi_warp_coordination_asks_about_what_it_made(answers: Seq<Answer>)
    requires
        crate::stage::passes(
            crate::script::plan(
                "test_multi_warp_coordination",
                crate::categories::c09_warp_level::multi_warp_coordination_steps(),
            ),
            answers,
        ),
    ensures
        forall|k: int|
            0 <= k < 3 ==> crate::stage::asks(
                crate::script::plan(
                    "test_multi_warp_coordination",
                    crate::categories::c09_warp_level::multi_warp_coordination_steps(),
                ),
                answers,
                0 + 8 * k,
                #[trigger] multi_warp_coordination_sizes_1_asks(k),
            ),
        forall|k: int|
            0 <= k < 3 ==> crate::stage::asks(
                crate::script::plan(
                    "test_multi_warp_coordination",
                    crate::categories::c09_warp_level::multi_warp_coordination_steps(),
                ),
                answers,
                5 + 8 * k,
                #[trigger] multi_warp_coordination_sizes_2_asks(k),
            ),
        crate::stage::asks(
            crate::script::plan(
                "test_multi_warp_coordination",
                crate::categories::c09_warp_level::multi_warp_coordination_steps(),
            ),
            answers,
            24,
            multi_warp_coordination_end_asks(),
        ),
        crate::stage::asked(
            crate::script::plan(
                "test_multi_warp_coordination",
                crate::categories::c09_warp_level::multi_warp_coordination_steps(),
            ),
            answers,
            25,
        ) is None,
{
    let plan = crate::script::plan(
        "test_multi_warp_coordination",
        crate::categories::c09_warp_level::multi_warp_coordination_steps(),
    );
    let round1 = |k: int| crate::categories::c09_warp_level::multi_warp_coordination_sizes_round(
        k as u64,
    );
    let part1 = crate::script::rounds(3, round1);
    assert forall|k: int| 0 <= k < 3 implies (#[trigger] round1(k)).len() == 16 by {
        lemma_multi_warp_coordination_sizes_steps(k);
    }
    crate::stage::lemma_rounds_length(3, round1, 16);
    let part2 = crate::categories::c09_warp_level::multi_warp_coordination_end_steps();
    lemma_multi_warp_coordination_end_steps();
    let whole1 = part1;
    let whole2 = whole1 + part2;
    assert(plan.steps == whole2);
    let m0 = crate::stage::lemma_start(plan, answers);
    assert forall|j: int| 0 <= j < 48 implies plan.steps[0 + j] == #[trigger] part1[j] by {}
    let m1 = lemma_multi_warp_coordination_sizes_rounds(m0, part1, 3);
    assert forall|j: int| 0 <= j < 1 implies plan.steps[48 + j] == #[trigger] part2[j] by {}
    let m2 = lemma_multi_warp_coordination_end(m1, part2);
    crate::stage::lemma_end(m2);
}

} // verus!
