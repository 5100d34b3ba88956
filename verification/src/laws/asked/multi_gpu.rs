//! What these tests ask the device in runs that pass: `test_single_gpu_baseline`,
//! `test_device_enumeration`, `test_primary_device_operations`.

use vstd::prelude::*;
use crate::expr::{here, ix, len, lt, modulo, num, plus, same_as, times};
use crate::machine::Answer;
use crate::scalar::Scalar;
use crate::script::{after, Layout, Request, Step};
use crate::stage::{Ask, Moment, Thing};

verus! {

/// A buffer that is uploaded in the part `column` of `test_single_gpu_baseline`.
pub open spec fn single_gpu_baseline_column_table1() -> Thing {
    Thing::Table {
        layout: Layout::Val,
        scalar: Scalar::U32,
        columns: seq![crate::stage::column(100000, |i: int| ((i * 1103515245) + 12345) % 1000000)],
        turn: 0,
    }
}

/// A column that is filled in the part `column` of `test_single_gpu_baseline`.
pub open spec fn single_gpu_baseline_column_words2() -> Seq<u64> {
    crate::stage::column(100000, |i: int| crate::stage::flag(((i % 3) == 0)))
}

/// A column that is filled in the part `tables` of `test_single_gpu_baseline`.
pub open spec fn single_gpu_baseline_tables_words3() -> Seq<u64> {
    crate::stage::column(1000, |i: int| i)
}

/// A column that is filled in the part `tables` of `test_single_gpu_baseline`.
pub open spec fn single_gpu_baseline_tables_words4() -> Seq<u64> {
    crate::stage::column(1000, |i: int| (single_gpu_baseline_tables_words3()[i] as int) * 2)
}

/// A column that is filled in the part `tables` of `test_single_gpu_baseline`.
pub open spec fn single_gpu_baseline_tables_words5() -> Seq<u64> {
    crate::stage::column(500, |i: int| i * 2)
}

/// What the device is asked in piece 1 of the part `column` of `test_single_gpu_baseline`.
pub open spec fn single_gpu_baseline_column_1_asks() -> Seq<Ask> {
    let sorted1 = Thing::Sorted {
        of: Box::new(single_gpu_baseline_column_table1()),
        keys: 1,
        turn: 1,
    };
    seq![
        Ask::Make(single_gpu_baseline_column_table1()),
        Ask::Make(sorted1),
        Ask::Words { of: sorted1, column: 0, scalar: Scalar::U32 },
    ]
}

/// Piece 1 of the part `column` of `test_single_gpu_baseline` asks what it should.
proof fn lemma_single_gpu_baseline_column_1(m: Moment, steps: Seq<Step>) -> (n: Moment)
    requires
        m.holds(),
        m.at == 0,
        m.used == 0,
        0 + 10 <= m.plan.steps.len(),
        forall|j: int| 0 <= j < 10 ==> m.plan.steps[0 + j] == #[trigger] steps[j],
        crate::stage::fills(
            steps[0],
            0,
            num(100000),
            modulo(plus(times(ix(), num(1103515245)), num(12345)), num(1000000)),
        ),
        crate::stage::demands(
            steps[1],
            Request::Create { into: 0, layout: Layout::Val, scalar: Scalar::U32, from: 0 },
        ),
        crate::stage::demands(steps[2], Request::Sort { of: 0, keys: 1, into: 1 }),
        crate::stage::demands(
            steps[3],
            Request::Download { of: 1, column: 0, scalar: Scalar::U32, into: 1 },
        ),
        crate::stage::looks(steps[4]),
        crate::stage::works(steps[5], 2),
        crate::stage::looks(steps[6]),
        crate::stage::fills(steps[7], 3, num(100000), same_as(modulo(ix(), num(3)), num(0))),
    ensures
        n.holds(),
        n.plan == m.plan,
        n.answers == m.answers,
        n.at == 0 + 8,
        n.used == m.used + 3,
        n.contents.columns[3] == single_gpu_baseline_column_words2(),
        n.scene.buffer(0) == single_gpu_baseline_column_table1(),
        crate::stage::asks(m.plan, m.answers, 0, single_gpu_baseline_column_1_asks()),
{
    crate::stage::lemma_full(m);
    crate::stage::lemma_asks_none(m, 0);
    let list0 = Seq::<Ask>::empty();
    let words1 = crate::stage::column(100000, |i: int| ((i * 1103515245) + 12345) % 1000000);
    let word1 = modulo(plus(times(ix(), num(1103515245)), num(12345)), num(1000000));
    assert forall|i: int| 0 <= i < words1.len() implies crate::stage::meaning(
        word1,
        m.contents,
        i,
    ) as u64 == #[trigger] words1[i] by {
        reveal_with_fuel(crate::stage::meaning, 5);
    }
    let m1 = crate::stage::lemma_filled(m, steps[0], 0, num(100000), word1, words1);
    let m2 = crate::stage::lemma_create(
        m1,
        steps[1],
        0,
        Layout::Val,
        Scalar::U32,
        0,
        single_gpu_baseline_column_table1(),
    );
    crate::stage::lemma_asks_more(m, 0, list0, Ask::Make(single_gpu_baseline_column_table1()));
    let list1 = list0.push(Ask::Make(single_gpu_baseline_column_table1()));
    let sorted1 = Thing::Sorted {
        of: Box::new(single_gpu_baseline_column_table1()),
        keys: 1,
        turn: 1,
    };
    let m3 = crate::stage::lemma_sort(
        m2,
        steps[2],
        0,
        1,
        1,
        single_gpu_baseline_column_table1(),
        sorted1,
    );
    crate::stage::lemma_asks_more(m, 0, list1, Ask::Make(sorted1));
    let list2 = list1.push(Ask::Make(sorted1));
    let m4 = crate::stage::lemma_download(m3, steps[3], 1, 0, Scalar::U32, 1, sorted1);
    crate::stage::lemma_asks_more(
        m,
        0,
        list2,
        Ask::Words { of: sorted1, column: 0, scalar: Scalar::U32 },
    );
    let list3 = list2.push(Ask::Words { of: sorted1, column: 0, scalar: Scalar::U32 });
    let m5 = crate::stage::lemma_look(m4, steps[4]);
    let m6 = crate::stage::lemma_work(m5, steps[5], 2);
    let m7 = crate::stage::lemma_look(m6, steps[6]);
    let words2 = single_gpu_baseline_column_words2();
    let word8 = same_as(modulo(ix(), num(3)), num(0));
    assert forall|i: int| 0 <= i < words2.len() implies crate::stage::meaning(
        word8,
        m7.contents,
        i,
    ) as u64 == #[trigger] words2[i] by {
        reveal_with_fuel(crate::stage::meaning, 4);
    }
    let m8 = crate::stage::lemma_filled(m7, steps[7], 3, num(100000), word8, words2);
    assert(single_gpu_baseline_column_1_asks() == list3);
    m8
}

/// What the device is asked in piece 2 of the part `column` of `test_single_gpu_baseline`.
pub open spec fn single_gpu_baseline_column_2_asks() -> Seq<Ask> {
    let kept1 = Thing::Kept {
        of: Box::new(single_gpu_baseline_column_table1()),
        mask: single_gpu_baseline_column_words2(),
        turn: 3,
    };
    seq![Ask::Make(kept1), Ask::Rows(kept1)]
}

/// Piece 2 of the part `column` of `test_single_gpu_baseline` asks what it should.
proof fn lemma_single_gpu_baseline_column_2(m: Moment, steps: Seq<Step>) -> (n: Moment)
    requires
        m.holds(),
        m.at == 0 + 8,
        m.used == 3,
        0 + 10 <= m.plan.steps.len(),
        forall|j: int| 0 <= j < 10 ==> m.plan.steps[0 + j] == #[trigger] steps[j],
        crate::stage::demands(steps[8], Request::Filter { of: 0, mask: 3, into: 2 }),
        crate::stage::counts(steps[9], 2),
        m.contents.columns[3] == single_gpu_baseline_column_words2(),
        m.scene.buffer(0) == single_gpu_baseline_column_table1(),
    ensures
        n.holds(),
        n.plan == m.plan,
        n.answers == m.answers,
        n.at == 0 + 10,
        n.used == m.used + 2,
        crate::stage::asks(m.plan, m.answers, 3, single_gpu_baseline_column_2_asks()),
{
    crate::stage::lemma_full(m);
    crate::stage::lemma_asks_none(m, 3);
    let list0 = Seq::<Ask>::empty();
    let kept1 = Thing::Kept {
        of: Box::new(single_gpu_baseline_column_table1()),
        mask: single_gpu_baseline_column_words2(),
        turn: 3,
    };
    let m1 = crate::stage::lemma_filter(
        m,
        steps[8],
        0,
        3,
        2,
        single_gpu_baseline_column_table1(),
        single_gpu_baseline_column_words2(),
        kept1,
    );
    crate::stage::lemma_asks_more(m, 3, list0, Ask::Make(kept1));
    let list1 = list0.push(Ask::Make(kept1));
    let m2 = crate::stage::lemma_count(m1, steps[9], 2, kept1);
    crate::stage::lemma_asks_more(m, 3, list1, Ask::Rows(kept1));
    let list2 = list1.push(Ask::Rows(kept1));
    assert(single_gpu_baseline_column_2_asks() == list2);
    m2
}

/// The steps of the part `column` of `test_single_gpu_baseline`.
proof fn lemma_single_gpu_baseline_column_steps()
    ensures
        ({
            let steps = crate::categories::c20_multi_gpu::single_gpu_baseline_column_steps();
            &&& steps.len() == 10
            &&& crate::stage::fills(
                steps[0],
                0,
                num(100000),
                modulo(plus(times(ix(), num(1103515245)), num(12345)), num(1000000)),
            )
            &&& crate::stage::demands(
                steps[1],
                Request::Create { into: 0, layout: Layout::Val, scalar: Scalar::U32, from: 0 },
            )
            &&& crate::stage::demands(steps[2], Request::Sort { of: 0, keys: 1, into: 1 })
            &&& crate::stage::demands(
                steps[3],
                Request::Download { of: 1, column: 0, scalar: Scalar::U32, into: 1 },
            )
            &&& crate::stage::looks(steps[4])
            &&& crate::stage::works(steps[5], 2)
            &&& crate::stage::looks(steps[6])
            &&& crate::stage::fills(steps[7], 3, num(100000), same_as(modulo(ix(), num(3)), num(0)))
            &&& crate::stage::demands(steps[8], Request::Filter { of: 0, mask: 3, into: 2 })
            &&& crate::stage::counts(steps[9], 2)
        }),
{
}

/// What the device is asked in piece 1 of the part `tables` of `test_single_gpu_baseline`.
pub open spec fn single_gpu_baseline_tables_1_asks() -> Seq<Ask> {
    let words1 = crate::stage::column(100000, |i: int| i % 1000);
    let words2 = crate::stage::column(100000, |i: int| i);
    let table1 = Thing::Table {
        layout: Layout::KeyVal,
        scalar: Scalar::U32,
        columns: seq![words1, words2],
        turn: 5,
    };
    let unique1 = Thing::Unique { of: Box::new(table1), turn: 6 };
    seq![Ask::Make(table1), Ask::Make(unique1), Ask::Rows(unique1)]
}

/// Piece 1 of the part `tables` of `test_single_gpu_baseline` asks what it should.
proof fn lemma_single_gpu_baseline_tables_1(m: Moment, steps: Seq<Step>) -> (n: Moment)
    requires
        m.holds(),
        m.at == 10,
        m.used == 5,
        10 + 14 <= m.plan.steps.len(),
        forall|j: int| 0 <= j < 14 ==> m.plan.steps[10 + j] == #[trigger] steps[j],
        crate::stage::fills(steps[0], 4, num(100000), modulo(ix(), num(1000))),
        crate::stage::fills(steps[1], 5, num(100000), ix()),
        crate::stage::demands(
            steps[2],
            Request::Create { into: 3, layout: Layout::KeyVal, scalar: Scalar::U32, from: 4 },
        ),
        crate::stage::demands(steps[3], Request::Dedup { of: 3, into: 4 }),
        crate::stage::counts(steps[4], 4),
        crate::stage::fills(steps[5], 6, num(1000), ix()),
        crate::stage::fills(steps[6], 7, num(1000), times(here(6), num(2))),
        crate::stage::fills(steps[7], 8, num(500), times(ix(), num(2))),
    ensures
        n.holds(),
        n.plan == m.plan,
        n.answers == m.answers,
        n.at == 10 + 8,
        n.used == m.used + 3,
        n.contents.columns[6] == single_gpu_baseline_tables_words3(),
        n.contents.columns[7] == single_gpu_baseline_tables_words4(),
        n.contents.columns[8] == single_gpu_baseline_tables_words5(),
        crate::stage::asks(m.plan, m.answers, 5, single_gpu_baseline_tables_1_asks()),
{
    crate::stage::lemma_full(m);
    crate::stage::lemma_asks_none(m, 5);
    let list0 = Seq::<Ask>::empty();
    let words1 = crate::stage::column(100000, |i: int| i % 1000);
    let word1 = modulo(ix(), num(1000));
    assert forall|i: int| 0 <= i < words1.len() implies crate::stage::meaning(
        word1,
        m.contents,
        i,
    ) as u64 == #[trigger] words1[i] by {
        reveal_with_fuel(crate::stage::meaning, 3);
    }
    let m1 = crate::stage::lemma_filled(m, steps[0], 4, num(100000), word1, words1);
    let words2 = crate::stage::column(100000, |i: int| i);
    let word2 = ix();
    assert forall|i: int| 0 <= i < words2.len() implies crate::stage::meaning(
        word2,
        m1.contents,
        i,
    ) as u64 == #[trigger] words2[i] by {
        reveal_with_fuel(crate::stage::meaning, 1);
    }
    let m2 = crate::stage::lemma_filled(m1, steps[1], 5, num(100000), word2, words2);
    let table1 = Thing::Table {
        layout: Layout::KeyVal,
        scalar: Scalar::U32,
        columns: seq![words1, words2],
        turn: 5,
    };
    let m3 = crate::stage::lemma_create(m2, steps[2], 3, Layout::KeyVal, Scalar::U32, 4, table1);
    crate::stage::lemma_asks_more(m, 5, list0, Ask::Make(table1));
    let list1 = list0.push(Ask::Make(table1));
    let unique1 = Thing::Unique { of: Box::new(table1), turn: 6 };
    let m4 = crate::stage::lemma_dedup(m3, steps[3], 3, 4, table1, unique1);
    crate::stage::lemma_asks_more(m, 5, list1, Ask::Make(unique1));
    let list2 = list1.push(Ask::Make(unique1));
    let m5 = crate::stage::lemma_count(m4, steps[4], 4, unique1);
    crate::stage::lemma_asks_more(m, 5, list2, Ask::Rows(unique1));
    let list3 = list2.push(Ask::Rows(unique1));
    let words3 = single_gpu_baseline_tables_words3();
    let word6 = ix();
    assert forall|i: int| 0 <= i < words3.len() implies crate::stage::meaning(
        word6,
        m5.contents,
        i,
    ) as u64 == #[trigger] words3[i] by {
        reveal_with_fuel(crate::stage::meaning, 1);
    }
    let m6 = crate::stage::lemma_filled(m5, steps[5], 6, num(1000), word6, words3);
    let words4 = single_gpu_baseline_tables_words4();
    let word7 = times(here(6), num(2));
    assert forall|i: int| 0 <= i < words4.len() implies crate::stage::meaning(
        word7,
        m6.contents,
        i,
    ) as u64 == #[trigger] words4[i] by {
        reveal_with_fuel(crate::stage::meaning, 4);
    }
    let m7 = crate::stage::lemma_filled(m6, steps[6], 7, num(1000), word7, words4);
    let words5 = single_gpu_baseline_tables_words5();
    let word8 = times(ix(), num(2));
    assert forall|i: int| 0 <= i < words5.len() implies crate::stage::meaning(
        word8,
        m7.contents,
        i,
    ) as u64 == #[trigger] words5[i] by {
        reveal_with_fuel(crate::stage::meaning, 3);
    }
    let m8 = crate::stage::lemma_filled(m7, steps[7], 8, num(500), word8, words5);
    assert(single_gpu_baseline_tables_1_asks() == list3);
    m8
}

/// What the device is asked in piece 2 of the part `tables` of `test_single_gpu_baseline`.
pub open spec fn single_gpu_baseline_tables_2_asks() -> Seq<Ask> {
    let words6 = crate::stage::column(
        500,
        |i: int| (single_gpu_baseline_tables_words5()[i] as int) * 3,
    );
    let table2 = Thing::Table {
        layout: Layout::KeyLval,
        scalar: Scalar::U32,
        columns: seq![single_gpu_baseline_tables_words3(), single_gpu_baseline_tables_words4()],
        turn: 8,
    };
    let table3 = Thing::Table {
        layout: Layout::KeyRval,
        scalar: Scalar::U32,
        columns: seq![single_gpu_baseline_tables_words5(), words6],
        turn: 9,
    };
    let joined1 = Thing::Joined { left: Box::new(table2), right: Box::new(table3), turn: 10 };
    seq![
        Ask::Make(table2),
        Ask::Make(table3),
        Ask::Make(joined1),
        Ask::Rows(joined1),
        Ask::Other(Request::Sync),
    ]
}

/// Piece 2 of the part `tables` of `test_single_gpu_baseline` asks what it should.
proof fn lemma_single_gpu_baseline_tables_2(m: Moment, steps: Seq<Step>) -> (n: Moment)
    requires
        m.holds(),
        m.at == 10 + 8,
        m.used == 8,
        10 + 14 <= m.plan.steps.len(),
        forall|j: int| 0 <= j < 14 ==> m.plan.steps[10 + j] == #[trigger] steps[j],
        crate::stage::fills(steps[8], 9, num(500), times(here(8), num(3))),
        crate::stage::demands(
            steps[9],
            Request::Create { into: 5, layout: Layout::KeyLval, scalar: Scalar::U32, from: 6 },
        ),
        crate::stage::demands(
            steps[10],
            Request::Create { into: 6, layout: Layout::KeyRval, scalar: Scalar::U32, from: 8 },
        ),
        crate::stage::demands(steps[11], Request::Join { left: 5, right: 6, into: 7 }),
        crate::stage::counts(steps[12], 7),
        crate::stage::demands(steps[13], Request::Sync),
        m.contents.columns[6] == single_gpu_baseline_tables_words3(),
        m.contents.columns[7] == single_gpu_baseline_tables_words4(),
        m.contents.columns[8] == single_gpu_baseline_tables_words5(),
    ensures
        n.holds(),
        n.plan == m.plan,
        n.answers == m.answers,
        n.at == 10 + 14,
        n.used == m.used + 5,
        crate::stage::asks(m.plan, m.answers, 8, single_gpu_baseline_tables_2_asks()),
{
    crate::stage::lemma_full(m);
    crate::stage::lemma_asks_none(m, 8);
    let list0 = Seq::<Ask>::empty();
    let words6 = crate::stage::column(
        500,
        |i: int| (single_gpu_baseline_tables_words5()[i] as int) * 3,
    );
    let word1 = times(here(8), num(3));
    assert forall|i: int| 0 <= i < words6.len() implies crate::stage::meaning(
        word1,
        m.contents,
        i,
    ) as u64 == #[trigger] words6[i] by {
        reveal_with_fuel(crate::stage::meaning, 4);
    }
    let m1 = crate::stage::lemma_filled(m, steps[8], 9, num(500), word1, words6);
    let table2 = Thing::Table {
        layout: Layout::KeyLval,
        scalar: Scalar::U32,
        columns: seq![single_gpu_baseline_tables_words3(), single_gpu_baseline_tables_words4()],
        turn: 8,
    };
    let m2 = crate::stage::lemma_create(m1, steps[9], 5, Layout::KeyLval, Scalar::U32, 6, table2);
    crate::stage::lemma_asks_more(m, 8, list0, Ask::Make(table2));
    let list1 = list0.push(Ask::Make(table2));
    let table3 = Thing::Table {
        layout: Layout::KeyRval,
        scalar: Scalar::U32,
        columns: seq![single_gpu_baseline_tables_words5(), words6],
        turn: 9,
    };
    let m3 = crate::stage::lemma_create(m2, steps[10], 6, Layout::KeyRval, Scalar::U32, 8, table3);
    crate::stage::lemma_asks_more(m, 8, list1, Ask::Make(table3));
    let list2 = list1.push(Ask::Make(table3));
    let joined1 = Thing::Joined { left: Box::new(table2), right: Box::new(table3), turn: 10 };
    let m4 = crate::stage::lemma_join(m3, steps[11], 5, 6, 7, table2, table3, joined1);
    crate::stage::lemma_asks_more(m, 8, list2, Ask::Make(joined1));
    let list3 = list2.push(Ask::Make(joined1));
    let m5 = crate::stage::lemma_count(m4, steps[12], 7, joined1);
    crate::stage::lemma_asks_more(m, 8, list3, Ask::Rows(joined1));
    let list4 = list3.push(Ask::Rows(joined1));
    let m6 = crate::stage::lemma_sync(m5, steps[13]);
    crate::stage::lemma_asks_more(m, 8, list4, Ask::Other(Request::Sync));
    let list5 = list4.push(Ask::Other(Request::Sync));
    assert(single_gpu_baseline_tables_2_asks() == list5);
    m6
}

/// The steps of the part `tables` of `test_single_gpu_baseline`.
proof fn lemma_single_gpu_baseline_tables_steps()
    ensures
        ({
            let steps = crate::categories::c20_multi_gpu::single_gpu_baseline_tables_steps();
            &&& steps.len() == 14
            &&& crate::stage::fills(steps[0], 4, num(100000), modulo(ix(), num(1000)))
            &&& crate::stage::fills(steps[1], 5, num(100000), ix())
            &&& crate::stage::demands(
                steps[2],
                Request::Create { into: 3, layout: Layout::KeyVal, scalar: Scalar::U32, from: 4 },
            )
            &&& crate::stage::demands(steps[3], Request::Dedup { of: 3, into: 4 })
            &&& crate::stage::counts(steps[4], 4)
            &&& crate::stage::fills(steps[5], 6, num(1000), ix())
            &&& crate::stage::fills(steps[6], 7, num(1000), times(here(6), num(2)))
            &&& crate::stage::fills(steps[7], 8, num(500), times(ix(), num(2)))
            &&& crate::stage::fills(steps[8], 9, num(500), times(here(8), num(3)))
            &&& crate::stage::demands(
                steps[9],
                Request::Create { into: 5, layout: Layout::KeyLval, scalar: Scalar::U32, from: 6 },
            )
            &&& crate::stage::demands(
                steps[10],
                Request::Create { into: 6, layout: Layout::KeyRval, scalar: Scalar::U32, from: 8 },
            )
            &&& crate::stage::demands(steps[11], Request::Join { left: 5, right: 6, into: 7 })
            &&& crate::stage::counts(steps[12], 7)
            &&& crate::stage::demands(steps[13], Request::Sync)
        }),
{
}

/// In a run of `test_single_gpu_baseline` that passes the device is asked this, in this order, and
/// nothing else: each request about what an earlier one made is about that, and about what was
/// uploaded for it.
pub proof fn law_single_gpu_baseline_asks_about_what_it_made(answers: Seq<Answer>)
    requires
        crate::stage::passes(
            crate::script::plan(
                "test_single_gpu_baseline",
                crate::categories::c20_multi_gpu::single_gpu_baseline_steps(),
            ),
            answers,
        ),
    ensures
        crate::stage::asks(
            crate::script::plan(
                "test_single_gpu_baseline",
                crate::categories::c20_multi_gpu::single_gpu_baseline_steps(),
            ),
            answers,
            0,
            single_gpu_baseline_column_1_asks(),
        ),
        crate::stage::asks(
            crate::script::plan(
                "test_single_gpu_baseline",
                crate::categories::c20_multi_gpu::single_gpu_baseline_steps(),
            ),
            answers,
            3,
            single_gpu_baseline_column_2_asks(),
        ),
        crate::stage::asks(
            crate::script::plan(
                "test_single_gpu_baseline",
                crate::categories::c20_multi_gpu::single_gpu_baseline_steps(),
            ),
            answers,
            5,
            single_gpu_baseline_tables_1_asks(),
        ),
        crate::stage::asks(
            crate::script::plan(
                "test_single_gpu_baseline",
                crate::categories::c20_multi_gpu::single_gpu_baseline_steps(),
            ),
            answers,
            8,
            single_gpu_baseline_tables_2_asks(),
        ),
        crate::stage::asked(
            crate::script::plan(
                "test_single_gpu_baseline",
                crate::categories::c20_multi_gpu::single_gpu_baseline_steps(),
            ),
            answers,
            13,
        ) is None,
{
    let plan = crate::script::plan(
        "test_single_gpu_baseline",
        crate::categories::c20_multi_gpu::single_gpu_baseline_steps(),
    );
    let part1 = crate::categories::c20_multi_gpu::single_gpu_baseline_column_steps();
    lemma_single_gpu_baseline_column_steps();
    let part2 = crate::categories::c20_multi_gpu::single_gpu_baseline_tables_steps();
    lemma_single_gpu_baseline_tables_steps();
    let whole1 = part1;
    let whole2 = whole1 + part2;
    assert(plan.steps == whole2);
    let m0 = crate::stage::lemma_start(plan, answers);
    assert forall|j: int| 0 <= j < 10 implies plan.steps[0 + j] == #[trigger] part1[j] by {}
    let m1 = lemma_single_gpu_baseline_column_1(m0, part1);
    let m2 = lemma_single_gpu_baseline_column_2(m1, part1);
    assert forall|j: int| 0 <= j < 14 implies plan.steps[10 + j] == #[trigger] part2[j] by {}
    let m3 = lemma_single_gpu_baseline_tables_1(m2, part2);
    let m4 = lemma_single_gpu_baseline_tables_2(m3, part2);
    crate::stage::lemma_end(m4);
}

/// What the device is asked in piece 1 of the part `all` of `test_device_enumeration`.
pub open spec fn device_enumeration_all_1_asks() -> Seq<Ask> {
    let words1 = crate::stage::column(1000, |i: int| i);
    let table1 = Thing::Table {
        layout: Layout::Val,
        scalar: Scalar::U32,
        columns: seq![words1],
        turn: 1,
    };
    let sorted1 = Thing::Sorted { of: Box::new(table1), keys: 1, turn: 2 };
    seq![
        Ask::Other(Request::Devices { into: 0 }),
        Ask::Make(table1),
        Ask::Make(sorted1),
        Ask::Rows(sorted1),
        Ask::Other(Request::Release { from: 0 }),
    ]
}

/// Piece 1 of the part `all` of `test_device_enumeration` asks what it should.
proof fn lemma_device_enumeration_all_1(m: Moment, steps: Seq<Step>) -> (n: Moment)
    requires
        m.holds(),
        m.at == 0,
        m.used == 0,
        0 + 11 <= m.plan.steps.len(),
        forall|j: int| 0 <= j < 11 ==> m.plan.steps[0 + j] == #[trigger] steps[j],
        crate::stage::demands(steps[0], Request::Devices { into: 0 }),
        crate::stage::looks(steps[1]),
        crate::stage::looks(steps[2]),
        crate::stage::fills(steps[3], 0, num(1000), ix()),
        crate::stage::demands(
            steps[4],
            Request::Create { into: 0, layout: Layout::Val, scalar: Scalar::U32, from: 0 },
        ),
        crate::stage::demands(steps[5], Request::Sort { of: 0, keys: 1, into: 1 }),
        crate::stage::counts(steps[6], 1),
        crate::stage::inquires(steps[7], Request::Release { from: 0 }),
    ensures
        n.holds(),
        n.plan == m.plan,
        n.answers == m.answers,
        n.at == 0 + 8,
        n.used == m.used + 5,
        crate::stage::asks(m.plan, m.answers, 0, device_enumeration_all_1_asks()),
{
    crate::stage::lemma_full(m);
    crate::stage::lemma_asks_none(m, 0);
    let list0 = Seq::<Ask>::empty();
    let m1 = crate::stage::lemma_number(m, steps[0], Ask::Other(Request::Devices { into: 0 }));
    crate::stage::lemma_asks_more(m, 0, list0, Ask::Other(Request::Devices { into: 0 }));
    let list1 = list0.push(Ask::Other(Request::Devices { into: 0 }));
    let m2 = crate::stage::lemma_look(m1, steps[1]);
    let m3 = crate::stage::lemma_look(m2, steps[2]);
    let words1 = crate::stage::column(1000, |i: int| i);
    let word4 = ix();
    assert forall|i: int| 0 <= i < words1.len() implies crate::stage::meaning(
        word4,
        m3.contents,
        i,
    ) as u64 == #[trigger] words1[i] by {
        reveal_with_fuel(crate::stage::meaning, 1);
    }
    let m4 = crate::stage::lemma_filled(m3, steps[3], 0, num(1000), word4, words1);
    let table1 = Thing::Table {
        layout: Layout::Val,
        scalar: Scalar::U32,
        columns: seq![words1],
        turn: 1,
    };
    let m5 = crate::stage::lemma_create(m4, steps[4], 0, Layout::Val, Scalar::U32, 0, table1);
    crate::stage::lemma_asks_more(m, 0, list1, Ask::Make(table1));
    let list2 = list1.push(Ask::Make(table1));
    let sorted1 = Thing::Sorted { of: Box::new(table1), keys: 1, turn: 2 };
    let m6 = crate::stage::lemma_sort(m5, steps[5], 0, 1, 1, table1, sorted1);
    crate::stage::lemma_asks_more(m, 0, list2, Ask::Make(sorted1));
    let list3 = list2.push(Ask::Make(sorted1));
    let m7 = crate::stage::lemma_count(m6, steps[6], 1, sorted1);
    crate::stage::lemma_asks_more(m, 0, list3, Ask::Rows(sorted1));
    let list4 = list3.push(Ask::Rows(sorted1));
    let m8 = crate::stage::lemma_release(m7, steps[7], 0);
    crate::stage::lemma_asks_more(m, 0, list4, Ask::Other(Request::Release { from: 0 }));
    let list5 = list4.push(Ask::Other(Request::Release { from: 0 }));
    assert(device_enumeration_all_1_asks() == list5);
    m8
}

/// What the device is asked in piece 2 of the part `all` of `test_device_enumeration`.
pub open spec fn device_enumeration_all_2_asks() -> Seq<Ask> {
    seq![Ask::Other(Request::Devices { into: 1 }), Ask::Other(Request::Sync)]
}

/// Piece 2 of the part `all` of `test_device_enumeration` asks what it should.
proof fn lemma_device_enumeration_all_2(m: Moment, steps: Seq<Step>) -> (n: Moment)
    requires
        m.holds(),
        m.at == 0 + 8,
        m.used == 5,
        0 + 11 <= m.plan.steps.len(),
        forall|j: int| 0 <= j < 11 ==> m.plan.steps[0 + j] == #[trigger] steps[j],
        crate::stage::demands(steps[8], Request::Devices { into: 1 }),
        crate::stage::looks(steps[9]),
        crate::stage::demands(steps[10], Request::Sync),
    ensures
        n.holds(),
        n.plan == m.plan,
        n.answers == m.answers,
        n.at == 0 + 11,
        n.used == m.used + 2,
        crate::stage::asks(m.plan, m.answers, 5, device_enumeration_all_2_asks()),
{
    crate::stage::lemma_full(m);
    crate::stage::lemma_asks_none(m, 5);
    let list0 = Seq::<Ask>::empty();
    let m1 = crate::stage::lemma_number(m, steps[8], Ask::Other(Request::Devices { into: 1 }));
    crate::stage::lemma_asks_more(m, 5, list0, Ask::Other(Request::Devices { into: 1 }));
    let list1 = list0.push(Ask::Other(Request::Devices { into: 1 }));
    let m2 = crate::stage::lemma_look(m1, steps[9]);
    let m3 = crate::stage::lemma_sync(m2, steps[10]);
    crate::stage::lemma_asks_more(m, 5, list1, Ask::Other(Request::Sync));
    let list2 = list1.push(Ask::Other(Request::Sync));
    assert(device_enumeration_all_2_asks() == list2);
    m3
}

/// The steps of the part `all` of `test_device_enumeration`.
proof fn lemma_device_enumeration_all_steps()
    ensures
        ({
            let steps = crate::categories::c20_multi_gpu::device_enumeration_steps();
            &&& steps.len() == 11
            &&& crate::stage::demands(steps[0], Request::Devices { into: 0 })
            &&& crate::stage::looks(steps[1])
            &&& crate::stage::looks(steps[2])
            &&& crate::stage::fills(steps[3], 0, num(1000), ix())
            &&& crate::stage::demands(
                steps[4],
                Request::Create { into: 0, layout: Layout::Val, scalar: Scalar::U32, from: 0 },
            )
            &&& crate::stage::demands(steps[5], Request::Sort { of: 0, keys: 1, into: 1 })
            &&& crate::stage::counts(steps[6], 1)
            &&& crate::stage::inquires(steps[7], Request::Release { from: 0 })
            &&& crate::stage::demands(steps[8], Request::Devices { into: 1 })
            &&& crate::stage::looks(steps[9])
            &&& crate::stage::demands(steps[10], Request::Sync)
        }),
{
}

/// In a run of `test_device_enumeration` that passes the device is asked this, in this order, and
/// nothing else: each request about what an earlier one made is about that, and about what was
/// uploaded for it.
pub proof fn law_device_enumeration_asks_about_what_it_made(answers: Seq<Answer>)
    requires
        crate::stage::passes(
            crate::script::plan(
                "test_device_enumeration",
                crate::categories::c20_multi_gpu::device_enumeration_steps(),
            ),
            answers,
        ),
    ensures
        crate::stage::asks(
            crate::script::plan(
                "test_device_enumeration",
                crate::categories::c20_multi_gpu::device_enumeration_steps(),
            ),
            answers,
            0,
            device_enumeration_all_1_asks(),
        ),
        crate::stage::asks(
            crate::script::plan(
                "test_device_enumeration",
                crate::categories::c20_multi_gpu::device_enumeration_steps(),
            ),
            answers,
            5,
            device_enumeration_all_2_asks(),
        ),
        crate::stage::asked(
            crate::script::plan(
                "test_device_enumeration",
                crate::categories::c20_multi_gpu::device_enumeration_steps(),
            ),
            answers,
            7,
        ) is None,
{
    let plan = crate::script::plan(
        "test_device_enumeration",
        crate::categories::c20_multi_gpu::device_enumeration_steps(),
    );
    let part1 = crate::categories::c20_multi_gpu::device_enumeration_steps();
    lemma_device_enumeration_all_steps();
    let whole1 = part1;
    assert(plan.steps == whole1);
    let m0 = crate::stage::lemma_start(plan, answers);
    assert forall|j: int| 0 <= j < 11 implies plan.steps[0 + j] == #[trigger] part1[j] by {}
    let m1 = lemma_device_enumeration_all_1(m0, part1);
    let m2 = lemma_device_enumeration_all_2(m1, part1);
    crate::stage::lemma_end(m2);
}

/// What is sorted in round `k` of the part `buffers` of `test_primary_device_operations`.
pub open spec fn primary_device_operations_buffers_sorted1(k: int) -> Thing {
    Thing::Sorted {
        of: Box::new(
            Thing::Table {
                layout: Layout::Val,
                scalar: Scalar::U32,
                columns: seq![crate::stage::column(5000, |i: int| (i + (k * 5000)) % 10000)],
                turn: 9 + 3 * k,
            },
        ),
        keys: 1,
        turn: 10 + 3 * k,
    }
}

/// What the device is asked in the part `large` of `test_primary_device_operations`.
pub open spec fn primary_device_operations_large_asks() -> Seq<Ask> {
    let words1 = crate::stage::column(500000, |i: int| ((i * 1103515245) + 12345) % 10000000);
    let table1 = Thing::Table {
        layout: Layout::Val,
        scalar: Scalar::U32,
        columns: seq![words1],
        turn: 0,
    };
    let sorted1 = Thing::Sorted { of: Box::new(table1), keys: 1, turn: 1 };
    seq![
        Ask::Make(table1),
        Ask::Make(sorted1),
        Ask::Words { of: sorted1, column: 0, scalar: Scalar::U32 },
    ]
}

/// The part `large` of `test_primary_device_operations` asks what it should.
proof fn lemma_primary_device_operations_large(m: Moment, steps: Seq<Step>) -> (n: Moment)
    requires
        m.holds(),
        m.at == 0,
        m.used == 0,
        0 + 5 <= m.plan.steps.len(),
        forall|j: int| 0 <= j < 5 ==> m.plan.steps[0 + j] == #[trigger] steps[j],
        crate::stage::fills(
            steps[0],
            0,
            num(500000),
            modulo(plus(times(ix(), num(1103515245)), num(12345)), num(10000000)),
        ),
        crate::stage::demands(
            steps[1],
            Request::Create { into: 0, layout: Layout::Val, scalar: Scalar::U32, from: 0 },
        ),
        crate::stage::demands(steps[2], Request::Sort { of: 0, keys: 1, into: 1 }),
        crate::stage::demands(
            steps[3],
            Request::Download { of: 1, column: 0, scalar: Scalar::U32, into: 1 },
        ),
        crate::stage::looks(steps[4]),
        m.answers[5] is Words,
    ensures
        n.holds(),
        n.plan == m.plan,
        n.answers == m.answers,
        n.at == 0 + 5,
        n.used == m.used + 3,
        crate::stage::asks(m.plan, m.answers, 0, primary_device_operations_large_asks()),
{
    crate::stage::lemma_full(m);
    crate::stage::lemma_asks_none(m, 0);
    let list0 = Seq::<Ask>::empty();
    let words1 = crate::stage::column(500000, |i: int| ((i * 1103515245) + 12345) % 10000000);
    let word1 = modulo(plus(times(ix(), num(1103515245)), num(12345)), num(10000000));
    assert forall|i: int| 0 <= i < words1.len() implies crate::stage::meaning(
        word1,
        m.contents,
        i,
    ) as u64 == #[trigger] words1[i] by {
        reveal_with_fuel(crate::stage::meaning, 5);
    }
    let m1 = crate::stage::lemma_filled(m, steps[0], 0, num(500000), word1, words1);
    let table1 = Thing::Table {
        layout: Layout::Val,
        scalar: Scalar::U32,
        columns: seq![words1],
        turn: 0,
    };
    let m2 = crate::stage::lemma_create(m1, steps[1], 0, Layout::Val, Scalar::U32, 0, table1);
    crate::stage::lemma_asks_more(m, 0, list0, Ask::Make(table1));
    let list1 = list0.push(Ask::Make(table1));
    let sorted1 = Thing::Sorted { of: Box::new(table1), keys: 1, turn: 1 };
    let m3 = crate::stage::lemma_sort(m2, steps[2], 0, 1, 1, table1, sorted1);
    crate::stage::lemma_asks_more(m, 0, list1, Ask::Make(sorted1));
    let list2 = list1.push(Ask::Make(sorted1));
    let m4 = crate::stage::lemma_download(m3, steps[3], 1, 0, Scalar::U32, 1, sorted1);
    crate::stage::lemma_asks_more(
        m,
        0,
        list2,
        Ask::Words { of: sorted1, column: 0, scalar: Scalar::U32 },
    );
    let list3 = list2.push(Ask::Words { of: sorted1, column: 0, scalar: Scalar::U32 });
    let m5 = crate::stage::lemma_look(m4, steps[4]);
    assert(primary_device_operations_large_asks() == list3);
    m5
}

/// The steps of the part `large` of `test_primary_device_operations`.
proof fn lemma_primary_device_operations_large_steps()
    ensures
        ({
            let steps = crate::categories::c20_multi_gpu::primary_device_operations_large_steps();
            &&& steps.len() == 5
            &&& crate::stage::fills(
                steps[0],
                0,
                num(500000),
                modulo(plus(times(ix(), num(1103515245)), num(12345)), num(10000000)),
            )
            &&& crate::stage::demands(
                steps[1],
                Request::Create { into: 0, layout: Layout::Val, scalar: Scalar::U32, from: 0 },
            )
            &&& crate::stage::demands(steps[2], Request::Sort { of: 0, keys: 1, into: 1 })
            &&& crate::stage::demands(
                steps[3],
                Request::Download { of: 1, column: 0, scalar: Scalar::U32, into: 1 },
            )
            &&& crate::stage::looks(steps[4])
        }),
{
}

/// What the device is asked in piece 1 of the part `chain` of `test_primary_device_operations`.
pub open spec fn primary_device_operations_chain_1_asks(answers: Seq<Answer>) -> Seq<Ask> {
    let words1 = crate::stage::column(10000, |i: int| i % 1000);
    let table1 = Thing::Table {
        layout: Layout::Val,
        scalar: Scalar::U32,
        columns: seq![words1],
        turn: 3,
    };
    let sorted1 = Thing::Sorted { of: Box::new(table1), keys: 1, turn: 4 };
    let fetched1 = answers[5]->Words_0;
    let words2 = crate::stage::column(
        (fetched1.len() as int),
        |i: int| crate::stage::flag(((fetched1[i] as int) < 500)),
    );
    let kept1 = Thing::Kept { of: Box::new(sorted1), mask: words2, turn: 6 };
    let sorted2 = Thing::Sorted { of: Box::new(kept1), keys: 1, turn: 7 };
    seq![
        Ask::Make(table1),
        Ask::Make(sorted1),
        Ask::Words { of: sorted1, column: 0, scalar: Scalar::U32 },
        Ask::Make(kept1),
        Ask::Make(sorted2),
        Ask::Words { of: sorted2, column: 0, scalar: Scalar::U32 },
    ]
}

/// Piece 1 of the part `chain` of `test_primary_device_operations` asks what it should.
proof fn lemma_primary_device_operations_chain_1(m: Moment, steps: Seq<Step>) -> (n: Moment)
    requires
        m.holds(),
        m.at == 5,
        m.used == 3,
        5 + 10 <= m.plan.steps.len(),
        forall|j: int| 0 <= j < 10 ==> m.plan.steps[5 + j] == #[trigger] steps[j],
        crate::stage::fills(steps[0], 2, num(10000), modulo(ix(), num(1000))),
        crate::stage::demands(
            steps[1],
            Request::Create { into: 2, layout: Layout::Val, scalar: Scalar::U32, from: 2 },
        ),
        crate::stage::demands(steps[2], Request::Sort { of: 2, keys: 1, into: 3 }),
        crate::stage::demands(
            steps[3],
            Request::Download { of: 3, column: 0, scalar: Scalar::U32, into: 3 },
        ),
        crate::stage::fills(steps[4], 4, len(3), lt(here(3), num(500))),
        crate::stage::demands(steps[5], Request::Filter { of: 3, mask: 4, into: 4 }),
        crate::stage::demands(steps[6], Request::Sort { of: 4, keys: 1, into: 5 }),
        crate::stage::demands(
            steps[7],
            Request::Download { of: 5, column: 0, scalar: Scalar::U32, into: 5 },
        ),
        m.answers[5] is Words,
    ensures
        n.holds(),
        n.plan == m.plan,
        n.answers == m.answers,
        n.at == 5 + 8,
        n.used == m.used + 6,
        crate::stage::asks(m.plan, m.answers, 3, primary_device_operations_chain_1_asks(m.answers)),
{
    let answers = m.answers;
    crate::stage::lemma_full(m);
    crate::stage::lemma_asks_none(m, 3);
    let list0 = Seq::<Ask>::empty();
    let words1 = crate::stage::column(10000, |i: int| i % 1000);
    let word1 = modulo(ix(), num(1000));
    assert forall|i: int| 0 <= i < words1.len() implies crate::stage::meaning(
        word1,
        m.contents,
        i,
    ) as u64 == #[trigger] words1[i] by {
        reveal_with_fuel(crate::stage::meaning, 3);
    }
    let m1 = crate::stage::lemma_filled(m, steps[0], 2, num(10000), word1, words1);
    let table1 = Thing::Table {
        layout: Layout::Val,
        scalar: Scalar::U32,
        columns: seq![words1],
        turn: 3,
    };
    let m2 = crate::stage::lemma_create(m1, steps[1], 2, Layout::Val, Scalar::U32, 2, table1);
    crate::stage::lemma_asks_more(m, 3, list0, Ask::Make(table1));
    let list1 = list0.push(Ask::Make(table1));
    let sorted1 = Thing::Sorted { of: Box::new(table1), keys: 1, turn: 4 };
    let m3 = crate::stage::lemma_sort(m2, steps[2], 2, 1, 3, table1, sorted1);
    crate::stage::lemma_asks_more(m, 3, list1, Ask::Make(sorted1));
    let list2 = list1.push(Ask::Make(sorted1));
    let m4 = crate::stage::lemma_download(m3, steps[3], 3, 0, Scalar::U32, 3, sorted1);
    crate::stage::lemma_asks_more(
        m,
        3,
        list2,
        Ask::Words { of: sorted1, column: 0, scalar: Scalar::U32 },
    );
    let list3 = list2.push(Ask::Words { of: sorted1, column: 0, scalar: Scalar::U32 });
    let fetched1 = answers[5]->Words_0;
    let words2 = crate::stage::column(
        (fetched1.len() as int),
        |i: int| crate::stage::flag(((fetched1[i] as int) < 500)),
    );
    let word5 = lt(here(3), num(500));
    assert forall|i: int| 0 <= i < words2.len() implies crate::stage::meaning(
        word5,
        m4.contents,
        i,
    ) as u64 == #[trigger] words2[i] by {
        reveal_with_fuel(crate::stage::meaning, 4);
    }
    let m5 = crate::stage::lemma_filled(m4, steps[4], 4, len(3), word5, words2);
    let kept1 = Thing::Kept { of: Box::new(sorted1), mask: words2, turn: 6 };
    let m6 = crate::stage::lemma_filter(m5, steps[5], 3, 4, 4, sorted1, words2, kept1);
    crate::stage::lemma_asks_more(m, 3, list3, Ask::Make(kept1));
    let list4 = list3.push(Ask::Make(kept1));
    let sorted2 = Thing::Sorted { of: Box::new(kept1), keys: 1, turn: 7 };
    let m7 = crate::stage::lemma_sort(m6, steps[6], 4, 1, 5, kept1, sorted2);
    crate::stage::lemma_asks_more(m, 3, list4, Ask::Make(sorted2));
    let list5 = list4.push(Ask::Make(sorted2));
    let m8 = crate::stage::lemma_download(m7, steps[7], 5, 0, Scalar::U32, 5, sorted2);
    crate::stage::lemma_asks_more(
        m,
        3,
        list5,
        Ask::Words { of: sorted2, column: 0, scalar: Scalar::U32 },
    );
    let list6 = list5.push(Ask::Words { of: sorted2, column: 0, scalar: Scalar::U32 });
    assert(primary_device_operations_chain_1_asks(m.answers) == list6);
    m8
}

/// Piece 2 of the part `chain` of `test_primary_device_operations` asks what it should.
proof fn lemma_primary_device_operations_chain_2(m: Moment, steps: Seq<Step>) -> (n: Moment)
    requires
        m.holds(),
        m.at == 5 + 8,
        m.used == 9,
        5 + 10 <= m.plan.steps.len(),
        forall|j: int| 0 <= j < 10 ==> m.plan.steps[5 + j] == #[trigger] steps[j],
        crate::stage::looks(steps[8]),
        crate::stage::looks(steps[9]),
        m.answers[5] is Words,
    ensures
        n.holds(),
        n.plan == m.plan,
        n.answers == m.answers,
        n.at == 5 + 10,
        n.used == m.used + 0,
{
    crate::stage::lemma_full(m);
    let m1 = crate::stage::lemma_look(m, steps[8]);
    let m2 = crate::stage::lemma_look(m1, steps[9]);
    m2
}

/// The steps of the part `chain` of `test_primary_device_operations`.
proof fn lemma_primary_device_operations_chain_steps()
    ensures
        ({
            let steps = crate::categories::c20_multi_gpu::primary_device_operations_chain_steps();
            &&& steps.len() == 10
            &&& crate::stage::fills(steps[0], 2, num(10000), modulo(ix(), num(1000)))
            &&& crate::stage::demands(
                steps[1],
                Request::Create { into: 2, layout: Layout::Val, scalar: Scalar::U32, from: 2 },
            )
            &&& crate::stage::demands(steps[2], Request::Sort { of: 2, keys: 1, into: 3 })
            &&& crate::stage::demands(
                steps[3],
                Request::Download { of: 3, column: 0, scalar: Scalar::U32, into: 3 },
            )
            &&& crate::stage::fills(steps[4], 4, len(3), lt(here(3), num(500)))
            &&& crate::stage::demands(steps[5], Request::Filter { of: 3, mask: 4, into: 4 })
            &&& crate::stage::demands(steps[6], Request::Sort { of: 4, keys: 1, into: 5 })
            &&& crate::stage::demands(
                steps[7],
                Request::Download { of: 5, column: 0, scalar: Scalar::U32, into: 5 },
            )
            &&& crate::stage::looks(steps[8])
            &&& crate::stage::looks(steps[9])
        }),
{
}

/// What the device is asked in round `k` of the part `buffers` of `test_primary_device_operations`.
pub open spec fn primary_device_operations_buffers_asks(k: int) -> Seq<Ask> {
    let words1 = crate::stage::column(5000, |i: int| (i + (k * 5000)) % 10000);
    let table1 = Thing::Table {
        layout: Layout::Val,
        scalar: Scalar::U32,
        columns: seq![words1],
        turn: 9 + 3 * k,
    };
    seq![
        Ask::Make(table1),
        Ask::Make(primary_device_operations_buffers_sorted1(k)),
        Ask::Other(Request::Release { from: 20 }),
    ]
}

/// Round `k` of the part `buffers` of `test_primary_device_operations` asks what it should.
proof fn lemma_primary_device_operations_buffers(m: Moment, steps: Seq<Step>, k: int) -> (n: Moment)
    requires
        0 <= k < 5,
        m.holds(),
        m.at == 15 + 4 * k,
        m.used == 9 + 3 * k,
        15 + 4 * k + 4 <= m.plan.steps.len(),
        forall|j: int| 0 <= j < 4 ==> m.plan.steps[15 + 4 * k + j] == #[trigger] steps[j],
        crate::stage::fills(
            steps[0],
            6,
            num(5000),
            modulo(plus(ix(), times(num(k as u64), num(5000))), num(10000)),
        ),
        crate::stage::demands(
            steps[1],
            Request::Create { into: 20, layout: Layout::Val, scalar: Scalar::U32, from: 6 },
        ),
        crate::stage::demands(
            steps[2],
            Request::Sort { of: 20, keys: 1, into: after(10, k as u64) },
        ),
        crate::stage::inquires(steps[3], Request::Release { from: 20 }),
        forall|j: int|
            0 <= j < k ==> m.scene.buffer(
                (10 + j) as u64,
            ) == #[trigger] primary_device_operations_buffers_sorted1(j),
        m.answers[5] is Words,
    ensures
        n.holds(),
        n.plan == m.plan,
        n.answers == m.answers,
        n.at == 15 + 4 * k + 4,
        n.used == m.used + 3,
        forall|j: int|
            0 <= j < k + 1 ==> n.scene.buffer(
                (10 + j) as u64,
            ) == #[trigger] primary_device_operations_buffers_sorted1(j),
        crate::stage::asks(m.plan, m.answers, 9 + 3 * k, primary_device_operations_buffers_asks(k)),
{
    crate::stage::lemma_full(m);
    crate::stage::lemma_asks_none(m, 9 + 3 * k);
    let list0 = Seq::<Ask>::empty();
    let words1 = crate::stage::column(5000, |i: int| (i + (k * 5000)) % 10000);
    let word1 = modulo(plus(ix(), times(num(k as u64), num(5000))), num(10000));
    assert forall|i: int| 0 <= i < words1.len() implies crate::stage::meaning(
        word1,
        m.contents,
        i,
    ) as u64 == #[trigger] words1[i] by {
        reveal_with_fuel(crate::stage::meaning, 5);
    }
    let m1 = crate::stage::lemma_filled(m, steps[0], 6, num(5000), word1, words1);
    let table1 = Thing::Table {
        layout: Layout::Val,
        scalar: Scalar::U32,
        columns: seq![words1],
        turn: 9 + 3 * k,
    };
    let m2 = crate::stage::lemma_create(m1, steps[1], 20, Layout::Val, Scalar::U32, 6, table1);
    crate::stage::lemma_asks_more(m, 9 + 3 * k, list0, Ask::Make(table1));
    let list1 = list0.push(Ask::Make(table1));
    let m3 = crate::stage::lemma_sort(
        m2,
        steps[2],
        20,
        1,
        after(10, k as u64),
        table1,
        primary_device_operations_buffers_sorted1(k),
    );
    crate::stage::lemma_asks_more(
        m,
        9 + 3 * k,
        list1,
        Ask::Make(primary_device_operations_buffers_sorted1(k)),
    );
    let list2 = list1.push(Ask::Make(primary_device_operations_buffers_sorted1(k)));
    let m4 = crate::stage::lemma_release(m3, steps[3], 20);
    crate::stage::lemma_asks_more(m, 9 + 3 * k, list2, Ask::Other(Request::Release { from: 20 }));
    let list3 = list2.push(Ask::Other(Request::Release { from: 20 }));
    assert(primary_device_operations_buffers_asks(k) == list3);
    m4
}

/// The steps of the part `buffers` of `test_primary_device_operations`.
proof fn lemma_primary_device_operations_buffers_steps(k: int)
    ensures
        ({
            let steps = crate::categories::c20_multi_gpu::primary_device_operations_buffers_round(
                k as u64,
            );
            &&& steps.len() == 4
            &&& crate::stage::fills(
                steps[0],
                6,
                num(5000),
                modulo(plus(ix(), times(num(k as u64), num(5000))), num(10000)),
            )
            &&& crate::stage::demands(
                steps[1],
                Request::Create { into: 20, layout: Layout::Val, scalar: Scalar::U32, from: 6 },
            )
            &&& crate::stage::demands(
                steps[2],
                Request::Sort { of: 20, keys: 1, into: after(10, k as u64) },
            )
            &&& crate::stage::inquires(steps[3], Request::Release { from: 20 })
        }),
{
}

/// The first `k` rounds of the part `buffers` of `test_primary_device_operations` ask what they
/// should.
proof fn lemma_primary_device_operations_buffers_rounds(
    m: Moment,
    part: Seq<Step>,
    k: int,
) -> (n: Moment)
    requires
        0 <= k <= 5,
        m.holds(),
        m.at == 15,
        m.used == 9 + 3 * 0,
        m.at + 20 <= m.plan.steps.len(),
        part == crate::script::rounds(
            5,
            |k: int| crate::categories::c20_multi_gpu::primary_device_operations_buffers_round(
                k as u64,
            ),
        ),
        forall|j: int| 0 <= j < 20 ==> m.plan.steps[15 + j] == #[trigger] part[j],
        m.answers[5] is Words,
    ensures
        n.holds(),
        n.plan == m.plan,
        n.answers == m.answers,
        n.at == 15 + 4 * k,
        n.used == 9 + 3 * k,
        forall|j: int|
            0 <= j < k ==> n.scene.buffer(
                (10 + j) as u64,
            ) == #[trigger] primary_device_operations_buffers_sorted1(j),
        forall|j: int|
            0 <= j < k ==> crate::stage::asks(
                m.plan,
                m.answers,
                9 + 3 * j,
                #[trigger] primary_device_operations_buffers_asks(j),
            ),
    decreases k,
{
    if k == 0 {
        m
    } else {
        let round = |k: int| crate::categories::c20_multi_gpu::primary_device_operations_buffers_round(
            k as u64,
        );
        let before = lemma_primary_device_operations_buffers_rounds(m, part, k - 1);
        assert forall|j: int| 0 <= j < 4 implies m.plan.steps[before.at + j] == #[trigger] crate::categories::c20_multi_gpu::primary_device_operations_buffers_round(
            (k - 1) as u64,
        )[j] by {
            assert forall|k: int| 0 <= k < 5 implies (#[trigger] round(k)).len() == 4 by {
                lemma_primary_device_operations_buffers_steps(k);
            }
            crate::stage::lemma_round_place(5, round, 4, k - 1, j);
            assert(part[(k - 1) * 4 + j] == round(k - 1)[j]);
        }
        lemma_primary_device_operations_buffers_steps(k - 1);
        lemma_primary_device_operations_buffers(
            before,
            crate::categories::c20_multi_gpu::primary_device_operations_buffers_round(
                (k - 1) as u64,
            ),
            k - 1,
        )
    }
}

/// What the device is asked in round `k` of the part `results` of `test_primary_device_operations`.
pub open spec fn primary_device_operations_results_asks(k: int) -> Seq<Ask> {
    seq![
        Ask::Words {
            of: primary_device_operations_buffers_sorted1(k),
            column: 0,
            scalar: Scalar::U32,
        },
    ]
}

/// Round `k` of the part `results` of `test_primary_device_operations` asks what it should.
proof fn lemma_primary_device_operations_results(m: Moment, steps: Seq<Step>, k: int) -> (n: Moment)
    requires
        0 <= k < 5,
        m.holds(),
        m.at == 35 + 2 * k,
        m.used == 24 + 1 * k,
        35 + 2 * k + 2 <= m.plan.steps.len(),
        forall|j: int| 0 <= j < 2 ==> m.plan.steps[35 + 2 * k + j] == #[trigger] steps[j],
        crate::stage::demands(
            steps[0],
            Request::Download { of: after(10, k as u64), column: 0, scalar: Scalar::U32, into: 7 },
        ),
        crate::stage::looks(steps[1]),
        forall|j: int|
            0 <= j < 5 ==> m.scene.buffer(
                (10 + j) as u64,
            ) == #[trigger] primary_device_operations_buffers_sorted1(j),
        m.answers[5] is Words,
    ensures
        n.holds(),
        n.plan == m.plan,
        n.answers == m.answers,
        n.at == 35 + 2 * k + 2,
        n.used == m.used + 1,
        forall|j: int|
            0 <= j < 5 ==> n.scene.buffer(
                (10 + j) as u64,
            ) == #[trigger] primary_device_operations_buffers_sorted1(j),
        crate::stage::asks(
            m.plan,
            m.answers,
            24 + 1 * k,
            primary_device_operations_results_asks(k),
        ),
{
    crate::stage::lemma_full(m);
    crate::stage::lemma_asks_none(m, 24 + 1 * k);
    let list0 = Seq::<Ask>::empty();
    let m1 = crate::stage::lemma_download(
        m,
        steps[0],
        after(10, k as u64),
        0,
        Scalar::U32,
        7,
        primary_device_operations_buffers_sorted1(k),
    );
    crate::stage::lemma_asks_more(
        m,
        24 + 1 * k,
        list0,
        Ask::Words {
            of: primary_device_operations_buffers_sorted1(k),
            column: 0,
            scalar: Scalar::U32,
        },
    );
    let list1 = list0.push(
        Ask::Words {
            of: primary_device_operations_buffers_sorted1(k),
            column: 0,
            scalar: Scalar::U32,
        },
    );
    let m2 = crate::stage::lemma_look(m1, steps[1]);
    assert(primary_device_operations_results_asks(k) == list1);
    m2
}

/// The steps of the part `results` of `test_primary_device_operations`.
proof fn lemma_primary_device_operations_results_steps(k: int)
    ensures
        ({
            let steps = crate::categories::c20_multi_gpu::primary_device_operations_results_round(
                k as u64,
            );
            &&& steps.len() == 2
            &&& crate::stage::demands(
                steps[0],
                Request::Download {
                    of: after(10, k as u64),
                    column: 0,
                    scalar: Scalar::U32,
                    into: 7,
                },
            )
            &&& crate::stage::looks(steps[1])
        }),
{
}

/// The first `k` rounds of the part `results` of `test_primary_device_operations` ask what they
/// should.
proof fn lemma_primary_device_operations_results_rounds(
    m: Moment,
    part: Seq<Step>,
    k: int,
) -> (n: Moment)
    requires
        0 <= k <= 5,
        m.holds(),
        m.at == 35,
        m.used == 24 + 1 * 0,
        m.at + 10 <= m.plan.steps.len(),
        part == crate::script::rounds(
            5,
            |k: int| crate::categories::c20_multi_gpu::primary_device_operations_results_round(
                k as u64,
            ),
        ),
        forall|j: int| 0 <= j < 10 ==> m.plan.steps[35 + j] == #[trigger] part[j],
        forall|j: int|
            0 <= j < 5 ==> m.scene.buffer(
                (10 + j) as u64,
            ) == #[trigger] primary_device_operations_buffers_sorted1(j),
        m.answers[5] is Words,
    ensures
        n.holds(),
        n.plan == m.plan,
        n.answers == m.answers,
        n.at == 35 + 2 * k,
        n.used == 24 + 1 * k,
        forall|j: int|
            0 <= j < 5 ==> n.scene.buffer(
                (10 + j) as u64,
            ) == #[trigger] primary_device_operations_buffers_sorted1(j),
        forall|j: int|
            0 <= j < k ==> crate::stage::asks(
                m.plan,
                m.answers,
                24 + 1 * j,
                #[trigger] primary_device_operations_results_asks(j),
            ),
    decreases k,
{
    if k == 0 {
        m
    } else {
        let round = |k: int| crate::categories::c20_multi_gpu::primary_device_operations_results_round(
            k as u64,
        );
        let before = lemma_primary_device_operations_results_rounds(m, part, k - 1);
        assert forall|j: int| 0 <= j < 2 implies m.plan.steps[before.at + j] == #[trigger] crate::categories::c20_multi_gpu::primary_device_operations_results_round(
            (k - 1) as u64,
        )[j] by {
            assert forall|k: int| 0 <= k < 5 implies (#[trigger] round(k)).len() == 2 by {
                lemma_primary_device_operations_results_steps(k);
            }
            crate::stage::lemma_round_place(5, round, 2, k - 1, j);
            assert(part[(k - 1) * 2 + j] == round(k - 1)[j]);
        }
        lemma_primary_device_operations_results_steps(k - 1);
        lemma_primary_device_operations_results(
            before,
            crate::categories::c20_multi_gpu::primary_device_operations_results_round(
                (k - 1) as u64,
            ),
            k - 1,
        )
    }
}

/// What the device is asked in the part `end` of `test_primary_device_operations`.
pub open spec fn primary_device_operations_end_asks() -> Seq<Ask> {
    seq![Ask::Other(Request::Sync)]
}

/// The part `end` of `test_primary_device_operations` asks what it should.
proof fn lemma_primary_device_operations_end(m: Moment, steps: Seq<Step>) -> (n: Moment)
    requires
        m.holds(),
        m.at == 45,
        m.used == 29,
        45 + 1 <= m.plan.steps.len(),
        forall|j: int| 0 <= j < 1 ==> m.plan.steps[45 + j] == #[trigger] steps[j],
        crate::stage::demands(steps[0], Request::Sync),
        m.answers[5] is Words,
    ensures
        n.holds(),
        n.plan == m.plan,
        n.answers == m.answers,
        n.at == 45 + 1,
        n.used == m.used + 1,
        crate::stage::asks(m.plan, m.answers, 29, primary_device_operations_end_asks()),
{
    crate::stage::lemma_full(m);
    crate::stage::lemma_asks_none(m, 29);
    let list0 = Seq::<Ask>::empty();
    let m1 = crate::stage::lemma_sync(m, steps[0]);
    crate::stage::lemma_asks_more(m, 29, list0, Ask::Other(Request::Sync));
    let list1 = list0.push(Ask::Other(Request::Sync));
    assert(primary_device_operations_end_asks() == list1);
    m1
}

/// The steps of the part `end` of `test_primary_device_operations`.
proof fn lemma_primary_device_operations_end_steps()
    ensures
        ({
            let steps = crate::categories::c20_multi_gpu::primary_device_operations_end_steps();
            &&& steps.len() == 1
            &&& crate::stage::demands(steps[0], Request::Sync)
        }),
{
}

/// In a run of `test_primary_device_operations` that passes the device is asked this, in this
/// order, and nothing else: each request about what an earlier one made is about that, and about
/// what was uploaded for it.
pub proof fn law_primary_device_operations_asks_about_what_it_made(answers: Seq<Answer>)
    requires
        crate::stage::passes(
            crate::script::plan(
                "test_primary_device_operations",
                crate::categories::c20_multi_gpu::primary_device_operations_steps(),
            ),
            answers,
        ),
        answers[5] is Words,
    ensures
        crate::stage::asks(
            crate::script::plan(
                "test_primary_device_operations",
                crate::categories::c20_multi_gpu::primary_device_operations_steps(),
            ),
            answers,
            0,
            primary_device_operations_large_asks(),
        ),
        crate::stage::asks(
            crate::script::plan(
                "test_primary_device_operations",
                crate::categories::c20_multi_gpu::primary_device_operations_steps(),
            ),
            answers,
            3,
            primary_device_operations_chain_1_asks(answers),
        ),
        forall|k: int|
            0 <= k < 5 ==> crate::stage::asks(
                crate::script::plan(
                    "test_primary_device_operations",
                    crate::categories::c20_multi_gpu::primary_device_operations_steps(),
                ),
                answers,
                9 + 3 * k,
                #[trigger] primary_device_operations_buffers_asks(k),
            ),
        forall|k: int|
            0 <= k < 5 ==> crate::stage::asks(
                crate::script::plan(
                    "test_primary_device_operations",
                    crate::categories::c20_multi_gpu::primary_device_operations_steps(),
                ),
                answers,
                24 + 1 * k,
                #[trigger] primary_device_operations_results_asks(k),
            ),
        crate::stage::asks(
            crate::script::plan(
                "test_primary_device_operations",
                crate::categories::c20_multi_gpu::primary_device_operations_steps(),
            ),
            answers,
            29,
            primary_device_operations_end_asks(),
        ),
        crate::stage::asked(
            crate::script::plan(
                "test_primary_device_operations",
                crate::categories::c20_multi_gpu::primary_device_operations_steps(),
            ),
            answers,
            30,
        ) is None,
{
    let plan = crate::script::plan(
        "test_primary_device_operations",
        crate::categories::c20_multi_gpu::primary_device_operations_steps(),
    );
    let part1 = crate::categories::c20_multi_gpu::primary_device_operations_large_steps();
    lemma_primary_device_operations_large_steps();
    let part2 = crate::categories::c20_multi_gpu::primary_device_operations_chain_steps();
    lemma_primary_device_operations_chain_steps();
    let round3 = |k: int| crate::categories::c20_multi_gpu::primary_device_operations_buffers_round(
        k as u64,
    );
    let part3 = crate::script::rounds(5, round3);
    assert forall|k: int| 0 <= k < 5 implies (#[trigger] round3(k)).len() == 4 by {
        lemma_primary_device_operations_buffers_steps(k);
    }
    crate::stage::lemma_rounds_length(5, round3, 4);
    let round4 = |k: int| crate::categories::c20_multi_gpu::primary_device_operations_results_round(
        k as u64,
    );
    let part4 = crate::script::rounds(5, round4);
    assert forall|k: int| 0 <= k < 5 implies (#[trigger] round4(k)).len() == 2 by {
        lemma_primary_device_operations_results_steps(k);
    }
    crate::stage::lemma_rounds_length(5, round4, 2);
    let part5 = crate::categories::c20_multi_gpu::primary_device_operations_end_steps();
    lemma_primary_device_operations_end_steps();
    let whole1 = part1;
    let whole2 = whole1 + part2;
    let whole3 = whole2 + part3;
    let whole4 = whole3 + part4;
    let whole5 = whole4 + part5;
    assert(plan.steps == whole5);
    let m0 = crate::stage::lemma_start(plan, answers);
    assert forall|j: int| 0 <= j < 5 implies plan.steps[0 + j] == #[trigger] part1[j] by {}
    let m1 = lemma_primary_device_operations_large(m0, part1);
    assert forall|j: int| 0 <= j < 10 implies plan.steps[5 + j] == #[trigger] part2[j] by {}
    let m2 = lemma_primary_device_operations_chain_1(m1, part2);
    let m3 = lemma_primary_device_operations_chain_2(m2, part2);
    assert forall|j: int| 0 <= j < 20 implies plan.steps[15 + j] == #[trigger] part3[j] by {}
    let m4 = lemma_primary_device_operations_buffers_rounds(m3, part3, 5);
    assert forall|j: int| 0 <= j < 10 implies plan.steps[35 + j] == #[trigger] part4[j] by {}
    let m5 = lemma_primary_device_operations_results_rounds(m4, part4, 5);
    assert forall|j: int| 0 <= j < 1 implies plan.steps[45 + j] == #[trigger] part5[j] by {}
    let m6 = lemma_primary_device_operations_end(m5, part5);
    crate::stage::lemma_end(m6);
}

} // verus!
