//! What these tests ask the device in runs that pass: `test_error_propagation`.

use vstd::prelude::*;
use crate::expr::{here, ix, modulo, num, plus, times};
use crate::machine::Answer;
use crate::scalar::Scalar;
use crate::script::{Layout, Request, Step};
use crate::stage::{Ask, Moment, Thing};

verus! {

/// A buffer that is uploaded in the part `all` of `test_error_propagation`.
pub open spec fn error_propagation_all_table2() -> Thing {
    Thing::Table {
        layout: Layout::Val,
        scalar: Scalar::U32,
        columns: seq![crate::stage::column(5, |i: int| i + 1)],
        turn: 3,
    }
}

/// A buffer that is uploaded in the part `all` of `test_error_propagation`.
pub open spec fn error_propagation_all_table3() -> Thing {
    Thing::Table {
        layout: Layout::KeyVal,
        scalar: Scalar::U32,
        columns: seq![
            crate::stage::column(100, |i: int| i),
            crate::stage::column(
                100,
                |i: int| (crate::stage::column(100, |i: int| i)[i] as int) * 2,
            ),
        ],
        turn: 9,
    }
}

/// What the device is asked in piece 1 of the part `all` of `test_error_propagation`.
pub open spec fn error_propagation_all_1_asks() -> Seq<Ask> {
    let words1 = crate::stage::column(0, |i: int| 0);
    let table1 = Thing::Table {
        layout: Layout::Val,
        scalar: Scalar::U32,
        columns: seq![words1],
        turn: 0,
    };
    let sorted1 = Thing::Sorted { of: Box::new(table1), keys: 1, turn: 1 };
    let words3 = crate::stage::column(3, |i: int| (i + 1) % 2);
    let kept1 = Thing::Kept { of: Box::new(error_propagation_all_table2()), mask: words3, turn: 4 };
    seq![
        Ask::Make(table1),
        Ask::Make(sorted1),
        Ask::Rows(sorted1),
        Ask::Make(error_propagation_all_table2()),
        Ask::Make(kept1),
    ]
}

/// Piece 1 of the part `all` of `test_error_propagation` asks what it should.
proof fn lemma_error_propagation_all_1(m: Moment, steps: Seq<Step>) -> (n: Moment)
    requires
        m.holds(),
        m.at == 0,
        m.used == 0,
        0 + 20 <= m.plan.steps.len(),
        forall|j: int| 0 <= j < 20 ==> m.plan.steps[0 + j] == #[trigger] steps[j],
        crate::stage::fills(steps[0], 0, num(0), num(0)),
        crate::stage::demands(
            steps[1],
            Request::Create { into: 0, layout: Layout::Val, scalar: Scalar::U32, from: 0 },
        ),
        crate::stage::demands(steps[2], Request::Sort { of: 0, keys: 1, into: 1 }),
        crate::stage::counts(steps[3], 1),
        crate::stage::fills(steps[4], 1, num(5), plus(ix(), num(1))),
        crate::stage::demands(
            steps[5],
            Request::Create { into: 2, layout: Layout::Val, scalar: Scalar::U32, from: 1 },
        ),
        crate::stage::fills(steps[6], 2, num(3), modulo(plus(ix(), num(1)), num(2))),
        crate::stage::inquires(steps[7], Request::Filter { of: 2, mask: 2, into: 3 }),
    ensures
        n.holds(),
        n.plan == m.plan,
        n.answers == m.answers,
        n.at == 0 + 8,
        n.used == m.used + 5,
        n.scene.buffer(2) == error_propagation_all_table2(),
        crate::stage::asks(m.plan, m.answers, 0, error_propagation_all_1_asks()),
{
    crate::stage::lemma_full(m);
    crate::stage::lemma_asks_none(m, 0);
    let list0 = Seq::<Ask>::empty();
    let words1 = crate::stage::column(0, |i: int| 0);
    let word1 = num(0);
    assert forall|i: int| 0 <= i < words1.len() implies crate::stage::meaning(
        word1,
        m.contents,
        i,
    ) as u64 == #[trigger] words1[i] by {
        reveal_with_fuel(crate::stage::meaning, 2);
    }
    let m1 = crate::stage::lemma_filled(m, steps[0], 0, num(0), word1, words1);
    let table1 = Thing::Table {
        layout: Layout::Val,
        scalar: Scalar::U32,
        columns: seq![words1],
        turn: 0,
    };
    let m2 = crate::stage::lemma_create(m1, steps[1], 0, Layout::Val, Scalar::U32, 0, table1);
    crate::stage::lemma_asks_more(m, 0, list0, Ask::Make(table1));
    let list1 = list0.push(Ask::Make(table1));
    let sorted1 = Thing::Sorted { of: Box::new(table1), keys: 1, turn: 1 };
    let m3 = crate::stage::lemma_sort(m2, steps[2], 0, 1, 1, table1, sorted1);
    crate::stage::lemma_asks_more(m, 0, list1, Ask::Make(sorted1));
    let list2 = list1.push(Ask::Make(sorted1));
    let m4 = crate::stage::lemma_count(m3, steps[3], 1, sorted1);
    crate::stage::lemma_asks_more(m, 0, list2, Ask::Rows(sorted1));
    let list3 = list2.push(Ask::Rows(sorted1));
    let words2 = crate::stage::column(5, |i: int| i + 1);
    let word5 = plus(ix(), num(1));
    assert forall|i: int| 0 <= i < words2.len() implies crate::stage::meaning(
        word5,
        m4.contents,
        i,
    ) as u64 == #[trigger] words2[i] by {
        reveal_with_fuel(crate::stage::meaning, 3);
    }
    let m5 = crate::stage::lemma_filled(m4, steps[4], 1, num(5), word5, words2);
    let m6 = crate::stage::lemma_create(
        m5,
        steps[5],
        2,
        Layout::Val,
        Scalar::U32,
        1,
        error_propagation_all_table2(),
    );
    crate::stage::lemma_asks_more(m, 0, list3, Ask::Make(error_propagation_all_table2()));
    let list4 = list3.push(Ask::Make(error_propagation_all_table2()));
    let words3 = crate::stage::column(3, |i: int| (i + 1) % 2);
    let word7 = modulo(plus(ix(), num(1)), num(2));
    assert forall|i: int| 0 <= i < words3.len() implies crate::stage::meaning(
        word7,
        m6.contents,
        i,
    ) as u64 == #[trigger] words3[i] by {
        reveal_with_fuel(crate::stage::meaning, 4);
    }
    let m7 = crate::stage::lemma_filled(m6, steps[6], 2, num(3), word7, words3);
    let kept1 = Thing::Kept { of: Box::new(error_propagation_all_table2()), mask: words3, turn: 4 };
    let m8 = crate::stage::lemma_attempt(
        m7,
        steps[7],
        2,
        2,
        3,
        error_propagation_all_table2(),
        words3,
        kept1,
    );
    crate::stage::lemma_asks_more(m, 0, list4, Ask::Make(kept1));
    let list5 = list4.push(Ask::Make(kept1));
    assert(error_propagation_all_1_asks() == list5);
    m8
}

/// What the device is asked in piece 2 of the part `all` of `test_error_propagation`.
pub open spec fn error_propagation_all_2_asks() -> Seq<Ask> {
    let words4 = crate::stage::column(5, |i: int| (i + 1) % 2);
    let kept2 = Thing::Kept { of: Box::new(error_propagation_all_table2()), mask: words4, turn: 7 };
    seq![
        Ask::Other(Request::Release { from: 3 }),
        Ask::Other(Request::Sync),
        Ask::Make(kept2),
        Ask::Rows(kept2),
        Ask::Make(error_propagation_all_table3()),
    ]
}

/// Piece 2 of the part `all` of `test_error_propagation` asks what it should.
proof fn lemma_error_propagation_all_2(m: Moment, steps: Seq<Step>) -> (n: Moment)
    requires
        m.holds(),
        m.at == 0 + 8,
        m.used == 5,
        0 + 20 <= m.plan.steps.len(),
        forall|j: int| 0 <= j < 20 ==> m.plan.steps[0 + j] == #[trigger] steps[j],
        crate::stage::inquires(steps[8], Request::Release { from: 3 }),
        crate::stage::demands(steps[9], Request::Sync),
        crate::stage::fills(steps[10], 3, num(5), modulo(plus(ix(), num(1)), num(2))),
        crate::stage::demands(steps[11], Request::Filter { of: 2, mask: 3, into: 3 }),
        crate::stage::counts(steps[12], 3),
        crate::stage::fills(steps[13], 4, num(100), ix()),
        crate::stage::fills(steps[14], 5, num(100), times(here(4), num(2))),
        crate::stage::demands(
            steps[15],
            Request::Create { into: 4, layout: Layout::KeyVal, scalar: Scalar::U32, from: 4 },
        ),
        m.scene.buffer(2) == error_propagation_all_table2(),
    ensures
        n.holds(),
        n.plan == m.plan,
        n.answers == m.answers,
        n.at == 0 + 16,
        n.used == m.used + 5,
        n.scene.buffer(4) == error_propagation_all_table3(),
        crate::stage::asks(m.plan, m.answers, 5, error_propagation_all_2_asks()),
{
    crate::stage::lemma_full(m);
    crate::stage::lemma_asks_none(m, 5);
    let list0 = Seq::<Ask>::empty();
    let m1 = crate::stage::lemma_release(m, steps[8], 3);
    crate::stage::lemma_asks_more(m, 5, list0, Ask::Other(Request::Release { from: 3 }));
    let list1 = list0.push(Ask::Other(Request::Release { from: 3 }));
    let m2 = crate::stage::lemma_sync(m1, steps[9]);
    crate::stage::lemma_asks_more(m, 5, list1, Ask::Other(Request::Sync));
    let list2 = list1.push(Ask::Other(Request::Sync));
    let words4 = crate::stage::column(5, |i: int| (i + 1) % 2);
    let word3 = modulo(plus(ix(), num(1)), num(2));
    assert forall|i: int| 0 <= i < words4.len() implies crate::stage::meaning(
        word3,
        m2.contents,
        i,
    ) as u64 == #[trigger] words4[i] by {
        reveal_with_fuel(crate::stage::meaning, 4);
    }
    let m3 = crate::stage::lemma_filled(m2, steps[10], 3, num(5), word3, words4);
    let kept2 = Thing::Kept { of: Box::new(error_propagation_all_table2()), mask: words4, turn: 7 };
    let m4 = crate::stage::lemma_filter(
        m3,
        steps[11],
        2,
        3,
        3,
        error_propagation_all_table2(),
        words4,
        kept2,
    );
    crate::stage::lemma_asks_more(m, 5, list2, Ask::Make(kept2));
    let list3 = list2.push(Ask::Make(kept2));
    let m5 = crate::stage::lemma_count(m4, steps[12], 3, kept2);
    crate::stage::lemma_asks_more(m, 5, list3, Ask::Rows(kept2));
    let list4 = list3.push(Ask::Rows(kept2));
    let words5 = crate::stage::column(100, |i: int| i);
    let word6 = ix();
    assert forall|i: int| 0 <= i < words5.len() implies crate::stage::meaning(
        word6,
        m5.contents,
        i,
    ) as u64 == #[trigger] words5[i] by {
        reveal_with_fuel(crate::stage::meaning, 1);
    }
    let m6 = crate::stage::lemma_filled(m5, steps[13], 4, num(100), word6, words5);
    let words6 = crate::stage::column(100, |i: int| (words5[i] as int) * 2);
    let word7 = times(here(4), num(2));
    assert forall|i: int| 0 <= i < words6.len() implies crate::stage::meaning(
        word7,
        m6.contents,
        i,
    ) as u64 == #[trigger] words6[i] by {
        reveal_with_fuel(crate::stage::meaning, 4);
    }
    let m7 = crate::stage::lemma_filled(m6, steps[14], 5, num(100), word7, words6);
    let m8 = crate::stage::lemma_create(
        m7,
        steps[15],
        4,
        Layout::KeyVal,
        Scalar::U32,
        4,
        error_propagation_all_table3(),
    );
    crate::stage::lemma_asks_more(m, 5, list4, Ask::Make(error_propagation_all_table3()));
    let list5 = list4.push(Ask::Make(error_propagation_all_table3()));
    assert(error_propagation_all_2_asks() == list5);
    m8
}

/// What the device is asked in piece 3 of the part `all` of `test_error_propagation`.
pub open spec fn error_propagation_all_3_asks() -> Seq<Ask> {
    let sorted2 = Thing::Sorted { of: Box::new(error_propagation_all_table3()), keys: 1, turn: 10 };
    seq![
        Ask::Make(sorted2),
        Ask::Words { of: sorted2, column: 0, scalar: Scalar::U32 },
        Ask::Other(Request::Sync),
    ]
}

/// Piece 3 of the part `all` of `test_error_propagation` asks what it should.
proof fn lemma_error_propagation_all_3(m: Moment, steps: Seq<Step>) -> (n: Moment)
    requires
        m.holds(),
        m.at == 0 + 16,
        m.used == 10,
        0 + 20 <= m.plan.steps.len(),
        forall|j: int| 0 <= j < 20 ==> m.plan.steps[0 + j] == #[trigger] steps[j],
        crate::stage::demands(steps[16], Request::Sort { of: 4, keys: 1, into: 5 }),
        crate::stage::demands(
            steps[17],
            Request::Download { of: 5, column: 0, scalar: Scalar::U32, into: 6 },
        ),
        crate::stage::looks(steps[18]),
        crate::stage::demands(steps[19], Request::Sync),
        m.scene.buffer(4) == error_propagation_all_table3(),
    ensures
        n.holds(),
        n.plan == m.plan,
        n.answers == m.answers,
        n.at == 0 + 20,
        n.used == m.used + 3,
        crate::stage::asks(m.plan, m.answers, 10, error_propagation_all_3_asks()),
{
    crate::stage::lemma_full(m);
    crate::stage::lemma_asks_none(m, 10);
    let list0 = Seq::<Ask>::empty();
    let sorted2 = Thing::Sorted { of: Box::new(error_propagation_all_table3()), keys: 1, turn: 10 };
    let m1 = crate::stage::lemma_sort(
        m,
        steps[16],
        4,
        1,
        5,
        error_propagation_all_table3(),
        sorted2,
    );
    crate::stage::lemma_asks_more(m, 10, list0, Ask::Make(sorted2));
    let list1 = list0.push(Ask::Make(sorted2));
    let m2 = crate::stage::lemma_download(m1, steps[17], 5, 0, Scalar::U32, 6, sorted2);
    crate::stage::lemma_asks_more(
        m,
        10,
        list1,
        Ask::Words { of: sorted2, column: 0, scalar: Scalar::U32 },
    );
    let list2 = list1.push(Ask::Words { of: sorted2, column: 0, scalar: Scalar::U32 });
    let m3 = crate::stage::lemma_look(m2, steps[18]);
    let m4 = crate::stage::lemma_sync(m3, steps[19]);
    crate::stage::lemma_asks_more(m, 10, list2, Ask::Other(Request::Sync));
    let list3 = list2.push(Ask::Other(Request::Sync));
    assert(error_propagation_all_3_asks() == list3);
    m4
}

/// The steps of the part `all` of `test_error_propagation`.
proof fn lemma_error_propagation_all_steps()
    ensures
        ({
            let steps = crate::categories::c16_async_pipeline::error_propagation_steps();
            &&& steps.len() == 20
            &&& crate::stage::fills(steps[0], 0, num(0), num(0))
            &&& crate::stage::demands(
                steps[1],
                Request::Create { into: 0, layout: Layout::Val, scalar: Scalar::U32, from: 0 },
            )
            &&& crate::stage::demands(steps[2], Request::Sort { of: 0, keys: 1, into: 1 })
            &&& crate::stage::counts(steps[3], 1)
            &&& crate::stage::fills(steps[4], 1, num(5), plus(ix(), num(1)))
            &&& crate::stage::demands(
                steps[5],
                Request::Create { into: 2, layout: Layout::Val, scalar: Scalar::U32, from: 1 },
            )
            &&& crate::stage::fills(steps[6], 2, num(3), modulo(plus(ix(), num(1)), num(2)))
            &&& crate::stage::inquires(steps[7], Request::Filter { of: 2, mask: 2, into: 3 })
            &&& crate::stage::inquires(steps[8], Request::Release { from: 3 })
            &&& crate::stage::demands(steps[9], Request::Sync)
            &&& crate::stage::fills(steps[10], 3, num(5), modulo(plus(ix(), num(1)), num(2)))
            &&& crate::stage::demands(steps[11], Request::Filter { of: 2, mask: 3, into: 3 })
            &&& crate::stage::counts(steps[12], 3)
            &&& crate::stage::fills(steps[13], 4, num(100), ix())
            &&& crate::stage::fills(steps[14], 5, num(100), times(here(4), num(2)))
            &&& crate::stage::demands(
                steps[15],
                Request::Create { into: 4, layout: Layout::KeyVal, scalar: Scalar::U32, from: 4 },
            )
            &&& crate::stage::demands(steps[16], Request::Sort { of: 4, keys: 1, into: 5 })
            &&& crate::stage::demands(
                steps[17],
                Request::Download { of: 5, column: 0, scalar: Scalar::U32, into: 6 },
            )
            &&& crate::stage::looks(steps[18])
            &&& crate::stage::demands(steps[19], Request::Sync)
        }),
{
}

/// In a run of `test_error_propagation` that passes the device is asked this, in this order, and
/// nothing else: each request about what an earlier one made is about that, and about what was
/// uploaded for it.
pub proof fn law_error_propagation_asks_about_what_it_made(answers: Seq<Answer>)
    requires
        crate::stage::passes(
            crate::script::plan(
                "test_error_propagation",
                crate::categories::c16_async_pipeline::error_propagation_steps(),
            ),
            answers,
        ),
    ensures
        crate::stage::asks(
            crate::script::plan(
                "test_error_propagation",
                crate::categories::c16_async_pipeline::error_propagation_steps(),
            ),
            answers,
            0,
            error_propagation_all_1_asks(),
        ),
        crate::stage::asks(
            crate::script::plan(
                "test_error_propagation",
                crate::categories::c16_async_pipeline::error_propagation_steps(),
            ),
            answers,
            5,
            error_propagation_all_2_asks(),
        ),
        crate::stage::asks(
            crate::script::plan(
                "test_error_propagation",
                crate::categories::c16_async_pipeline::error_propagation_steps(),
            ),
            answers,
            10,
            error_propagation_all_3_asks(),
        ),
        crate::stage::asked(
            crate::script::plan(
                "test_error_propagation",
                crate::categories::c16_async_pipeline::error_propagation_steps(),
            ),
            answers,
            13,
        ) is None,
{
    let plan = crate::script::plan(
        "test_error_propagation",
        crate::categories::c16_async_pipeline::error_propagation_steps(),
    );
    let part1 = crate::categories::c16_async_pipeline::error_propagation_steps();
    lemma_error_propagation_all_steps();
    let whole1 = part1;
    assert(plan.steps == whole1);
    let m0 = crate::stage::lemma_start(plan, answers);
    assert forall|j: int| 0 <= j < 20 implies plan.steps[0 + j] == #[trigger] part1[j] by {}
    let m1 = lemma_error_propagation_all_1(m0, part1);
    let m2 = lemma_error_propagation_all_2(m1, part1);
    let m3 = lemma_error_propagation_all_3(m2, part1);
    crate::stage::lemma_end(m3);
}

} // verus!
