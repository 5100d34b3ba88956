//! What these tests ask the device in runs that pass: `test_global_f64_correctness`,
//! `test_multi_buffer_isolation`.

use vstd::prelude::*;
use crate::expr::{entry, ix, len, modulo, num, plus, same_as, times};
use crate::machine::Answer;
use crate::scalar::Scalar;
use crate::script::{Layout, Request, Step};
use crate::stage::{Ask, Moment, Thing};
use crate::tables::Table;

verus! {

/// What the device is asked in piece 1 of the part `all` of `test_global_f64_correctness`.
pub open spec fn global_f64_correctness_all_1_asks() -> Seq<Ask> {
    let words1 = crate::stage::column(
        21,
        |i: int| crate::tables::words_of(Table::GlobalF64)[i] as int,
    );
    let table1 = Thing::Table {
        layout: Layout::Val,
        scalar: Scalar::F64,
        columns: seq![words1],
        turn: 0,
    };
    let sorted1 = Thing::Sorted { of: Box::new(table1), keys: 1, turn: 1 };
    seq![
        Ask::Make(table1),
        Ask::Make(sorted1),
        Ask::Rows(sorted1),
        Ask::Words { of: sorted1, column: 0, scalar: Scalar::F64 },
    ]
}

/// Piece 1 of the part `all` of `test_global_f64_correctness` asks what it should.
proof fn lemma_global_f64_correctness_all_1(m: Moment, steps: Seq<Step>) -> (n: Moment)
    requires
        m.holds(),
        m.at == 0,
        m.used == 0,
        0 + 9 <= m.plan.steps.len(),
        forall|j: int| 0 <= j < 9 ==> m.plan.steps[0 + j] == #[trigger] steps[j],
        crate::stage::fills(steps[0], 0, num(21), entry(Table::GlobalF64, ix())),
        crate::stage::demands(
            steps[1],
            Request::Create { into: 0, layout: Layout::Val, scalar: Scalar::F64, from: 0 },
        ),
        crate::stage::demands(steps[2], Request::Sort { of: 0, keys: 1, into: 1 }),
        crate::stage::counts(steps[3], 1),
        crate::stage::demands(
            steps[4],
            Request::Download { of: 1, column: 0, scalar: Scalar::F64, into: 1 },
        ),
        crate::stage::looks(steps[5]),
        crate::stage::looks(steps[6]),
        crate::stage::looks(steps[7]),
    ensures
        n.holds(),
        n.plan == m.plan,
        n.answers == m.answers,
        n.at == 0 + 8,
        n.used == m.used + 4,
        crate::stage::asks(m.plan, m.answers, 0, global_f64_correctness_all_1_asks()),
{
    crate::stage::lemma_full(m);
    crate::stage::lemma_asks_none(m, 0);
    let list0 = Seq::<Ask>::empty();
    let words1 = crate::stage::column(
        21,
        |i: int| crate::tables::words_of(Table::GlobalF64)[i] as int,
    );
    crate::stage::lemma_entry_of(Table::GlobalF64);
    let word1 = entry(Table::GlobalF64, ix());
    assert forall|i: int| 0 <= i < words1.len() implies crate::stage::meaning(
        word1,
        m.contents,
        i,
    ) as u64 == #[trigger] words1[i] by {
        reveal_with_fuel(crate::stage::meaning, 2);
    }
    let m1 = crate::stage::lemma_filled(m, steps[0], 0, num(21), word1, words1);
    let table1 = Thing::Table {
        layout: Layout::Val,
        scalar: Scalar::F64,
        columns: seq![words1],
        turn: 0,
    };
    let m2 = crate::stage::lemma_create(m1, steps[1], 0, Layout::Val, Scalar::F64, 0, table1);
    crate::stage::lemma_asks_more(m, 0, list0, Ask::Make(table1));
    let list1 = list0.push(Ask::Make(table1));
    let sorted1 = Thing::Sorted { of: Box::new(table1), keys: 1, turn: 1 };
    let m3 = crate::stage::lemma_sort(m2, steps[2], 0, 1, 1, table1, sorted1);
    crate::stage::lemma_asks_more(m, 0, list1, Ask::Make(sorted1));
    let list2 = list1.push(Ask::Make(sorted1));
    let m4 = crate::stage::lemma_count(m3, steps[3], 1, sorted1);
    crate::stage::lemma_asks_more(m, 0, list2, Ask::Rows(sorted1));
    let list3 = list2.push(Ask::Rows(sorted1));
    let m5 = crate::stage::lemma_download(m4, steps[4], 1, 0, Scalar::F64, 1, sorted1);
    crate::stage::lemma_asks_more(
        m,
        0,
        list3,
        Ask::Words { of: sorted1, column: 0, scalar: Scalar::F64 },
    );
    let list4 = list3.push(Ask::Words { of: sorted1, column: 0, scalar: Scalar::F64 });
    let m6 = crate::stage::lemma_look(m5, steps[5]);
    let m7 = crate::stage::lemma_look(m6, steps[6]);
    let m8 = crate::stage::lemma_look(m7, steps[7]);
    assert(global_f64_correctness_all_1_asks() == list4);
    m8
}

/// What the device is asked in piece 2 of the part `all` of `test_global_f64_correctness`.
pub open spec fn global_f64_correctness_all_2_asks() -> Seq<Ask> {
    seq![Ask::Other(Request::Sync)]
}

/// Piece 2 of the part `all` of `test_global_f64_correctness` asks what it should.
proof fn lemma_global_f64_correctness_all_2(m: Moment, steps: Seq<Step>) -> (n: Moment)
    requires
        m.holds(),
        m.at == 0 + 8,
        m.used == 4,
        0 + 9 <= m.plan.steps.len(),
        forall|j: int| 0 <= j < 9 ==> m.plan.steps[0 + j] == #[trigger] steps[j],
        crate::stage::demands(steps[8], Request::Sync),
    ensures
        n.holds(),
        n.plan == m.plan,
        n.answers == m.answers,
        n.at == 0 + 9,
        n.used == m.used + 1,
        crate::stage::asks(m.plan, m.answers, 4, global_f64_correctness_all_2_asks()),
{
    crate::stage::lemma_full(m);
    crate::stage::lemma_asks_none(m, 4);
    let list0 = Seq::<Ask>::empty();
    let m1 = crate::stage::lemma_sync(m, steps[8]);
    crate::stage::lemma_asks_more(m, 4, list0, Ask::Other(Request::Sync));
    let list1 = list0.push(Ask::Other(Request::Sync));
    assert(global_f64_correctness_all_2_asks() == list1);
    m1
}

/// The steps of the part `all` of `test_global_f64_correctness`.
proof fn lemma_global_f64_correctness_all_steps()
    ensures
        ({
            let steps = crate::categories::c04_address_space::global_f64_correctness_steps();
            &&& steps.len() == 9
            &&& crate::stage::fills(steps[0], 0, num(21), entry(Table::GlobalF64, ix()))
            &&& crate::stage::demands(
                steps[1],
                Request::Create { into: 0, layout: Layout::Val, scalar: Scalar::F64, from: 0 },
            )
            &&& crate::stage::demands(steps[2], Request::Sort { of: 0, keys: 1, into: 1 })
            &&& crate::stage::counts(steps[3], 1)
            &&& crate::stage::demands(
                steps[4],
                Request::Download { of: 1, column: 0, scalar: Scalar::F64, into: 1 },
            )
            &&& crate::stage::looks(steps[5])
            &&& crate::stage::looks(steps[6])
            &&& crate::stage::looks(steps[7])
            &&& crate::stage::demands(steps[8], Request::Sync)
        }),
{
}

/// In a run of `test_global_f64_correctness` that passes the device is asked this, in this order,
/// and nothing else: each request about what an earlier one made is about that, and about what was
/// uploaded for it.
pub proof fn law_global_f64_correctness_asks_about_what_it_made(answers: Seq<Answer>)
    requires
        crate::stage::passes(
            crate::script::plan(
                "test_global_f64_correctness",
                crate::categories::c04_address_space::global_f64_correctness_steps(),
            ),
            answers,
        ),
    ensures
        crate::stage::asks(
            crate::script::plan(
                "test_global_f64_correctness",
                crate::categories::c04_address_space::global_f64_correctness_steps(),
            ),
            answers,
            0,
            global_f64_correctness_all_1_asks(),
        ),
        crate::stage::asks(
            crate::script::plan(
                "test_global_f64_correctness",
                crate::categories::c04_address_space::global_f64_correctness_steps(),
            ),
            answers,
            4,
            global_f64_correctness_all_2_asks(),
        ),
        crate::stage::asked(
            crate::script::plan(
                "test_global_f64_correctness",
                crate::categories::c04_address_space::global_f64_correctness_steps(),
            ),
            answers,
            5,
        ) is None,
{
    let plan = crate::script::plan(
        "test_global_f64_correctness",
        crate::categories::c04_address_space::global_f64_correctness_steps(),
    );
    let part1 = crate::categories::c04_address_space::global_f64_correctness_steps();
    lemma_global_f64_correctness_all_steps();
    let whole1 = part1;
    assert(plan.steps == whole1);
    let m0 = crate::stage::lemma_start(plan, answers);
    assert forall|j: int| 0 <= j < 9 implies plan.steps[0 + j] == #[trigger] part1[j] by {}
    let m1 = lemma_global_f64_correctness_all_1(m0, part1);
    let m2 = lemma_global_f64_correctness_all_2(m1, part1);
    crate::stage::lemma_end(m2);
}

/// A column that is filled in the part `all` of `test_multi_buffer_isolation`.
pub open spec fn multi_buffer_isolation_all_words1() -> Seq<u64> {
    crate::stage::column(1000, |i: int| i * 3)
}

/// A buffer that is uploaded in the part `all` of `test_multi_buffer_isolation`.
pub open spec fn multi_buffer_isolation_all_table1() -> Thing {
    Thing::Table {
        layout: Layout::Val,
        scalar: Scalar::U32,
        columns: seq![multi_buffer_isolation_all_words1()],
        turn: 0,
    }
}

/// A buffer that is uploaded in the part `all` of `test_multi_buffer_isolation`.
pub open spec fn multi_buffer_isolation_all_table3() -> Thing {
    Thing::Table {
        layout: Layout::Val,
        scalar: Scalar::U32,
        columns: seq![crate::stage::column(1000, |i: int| (i * 7) + 2)],
        turn: 2,
    }
}

/// What is sorted in the part `all` of `test_multi_buffer_isolation`.
pub open spec fn multi_buffer_isolation_all_sorted1() -> Thing {
    Thing::Sorted {
        of: Box::new(
            Thing::Table {
                layout: Layout::Val,
                scalar: Scalar::U32,
                columns: seq![crate::stage::column(1000, |i: int| (i * 5) + 1)],
                turn: 1,
            },
        ),
        keys: 1,
        turn: 3,
    }
}

/// What is kept in the part `all` of `test_multi_buffer_isolation`.
pub open spec fn multi_buffer_isolation_all_kept1() -> Thing {
    Thing::Kept {
        of: Box::new(multi_buffer_isolation_all_table1()),
        mask: crate::stage::column(
            (multi_buffer_isolation_all_words1().len() as int),
            |i: int| crate::stage::flag(((i % 2) == 0)),
        ),
        turn: 7,
    }
}

/// What the device is asked in piece 1 of the part `all` of `test_multi_buffer_isolation`.
pub open spec fn multi_buffer_isolation_all_1_asks() -> Seq<Ask> {
    let words2 = crate::stage::column(1000, |i: int| (i * 5) + 1);
    let table2 = Thing::Table {
        layout: Layout::Val,
        scalar: Scalar::U32,
        columns: seq![words2],
        turn: 1,
    };
    seq![
        Ask::Make(multi_buffer_isolation_all_table1()),
        Ask::Make(table2),
        Ask::Make(multi_buffer_isolation_all_table3()),
        Ask::Make(multi_buffer_isolation_all_sorted1()),
        Ask::Words { of: multi_buffer_isolation_all_table1(), column: 0, scalar: Scalar::U32 },
    ]
}

/// Piece 1 of the part `all` of `test_multi_buffer_isolation` asks what it should.
proof fn lemma_multi_buffer_isolation_all_1(m: Moment, steps: Seq<Step>) -> (n: Moment)
    requires
        m.holds(),
        m.at == 0,
        m.used == 0,
        0 + 22 <= m.plan.steps.len(),
        forall|j: int| 0 <= j < 22 ==> m.plan.steps[0 + j] == #[trigger] steps[j],
        crate::stage::fills(steps[0], 0, num(1000), times(ix(), num(3))),
        crate::stage::fills(steps[1], 1, num(1000), plus(times(ix(), num(5)), num(1))),
        crate::stage::fills(steps[2], 2, num(1000), plus(times(ix(), num(7)), num(2))),
        crate::stage::demands(
            steps[3],
            Request::Create { into: 0, layout: Layout::Val, scalar: Scalar::U32, from: 0 },
        ),
        crate::stage::demands(
            steps[4],
            Request::Create { into: 1, layout: Layout::Val, scalar: Scalar::U32, from: 1 },
        ),
        crate::stage::demands(
            steps[5],
            Request::Create { into: 2, layout: Layout::Val, scalar: Scalar::U32, from: 2 },
        ),
        crate::stage::demands(steps[6], Request::Sort { of: 1, keys: 1, into: 3 }),
        crate::stage::demands(
            steps[7],
            Request::Download { of: 0, column: 0, scalar: Scalar::U32, into: 3 },
        ),
    ensures
        n.holds(),
        n.plan == m.plan,
        n.answers == m.answers,
        n.at == 0 + 8,
        n.used == m.used + 5,
        n.contents.columns[0] == multi_buffer_isolation_all_words1(),
        n.scene.buffer(0) == multi_buffer_isolation_all_table1(),
        n.scene.buffer(2) == multi_buffer_isolation_all_table3(),
        n.scene.buffer(3) == multi_buffer_isolation_all_sorted1(),
        crate::stage::asks(m.plan, m.answers, 0, multi_buffer_isolation_all_1_asks()),
{
    crate::stage::lemma_full(m);
    crate::stage::lemma_asks_none(m, 0);
    let list0 = Seq::<Ask>::empty();
    let words1 = multi_buffer_isolation_all_words1();
    let word1 = times(ix(), num(3));
    assert forall|i: int| 0 <= i < words1.len() implies crate::stage::meaning(
        word1,
        m.contents,
        i,
    ) as u64 == #[trigger] words1[i] by {
        reveal_with_fuel(crate::stage::meaning, 3);
    }
    let m1 = crate::stage::lemma_filled(m, steps[0], 0, num(1000), word1, words1);
    let words2 = crate::stage::column(1000, |i: int| (i * 5) + 1);
    let word2 = plus(times(ix(), num(5)), num(1));
    assert forall|i: int| 0 <= i < words2.len() implies crate::stage::meaning(
        word2,
        m1.contents,
        i,
    ) as u64 == #[trigger] words2[i] by {
        reveal_with_fuel(crate::stage::meaning, 4);
    }
    let m2 = crate::stage::lemma_filled(m1, steps[1], 1, num(1000), word2, words2);
    let words3 = crate::stage::column(1000, |i: int| (i * 7) + 2);
    let word3 = plus(times(ix(), num(7)), num(2));
    assert forall|i: int| 0 <= i < words3.len() implies crate::stage::meaning(
        word3,
        m2.contents,
        i,
    ) as u64 == #[trigger] words3[i] by {
        reveal_with_fuel(crate::stage::meaning, 4);
    }
    let m3 = crate::stage::lemma_filled(m2, steps[2], 2, num(1000), word3, words3);
    let m4 = crate::stage::lemma_create(
        m3,
        steps[3],
        0,
        Layout::Val,
        Scalar::U32,
        0,
        multi_buffer_isolation_all_table1(),
    );
    crate::stage::lemma_asks_more(m, 0, list0, Ask::Make(multi_buffer_isolation_all_table1()));
    let list1 = list0.push(Ask::Make(multi_buffer_isolation_all_table1()));
    let table2 = Thing::Table {
        layout: Layout::Val,
        scalar: Scalar::U32,
        columns: seq![words2],
        turn: 1,
    };
    let m5 = crate::stage::lemma_create(m4, steps[4], 1, Layout::Val, Scalar::U32, 1, table2);
    crate::stage::lemma_asks_more(m, 0, list1, Ask::Make(table2));
    let list2 = list1.push(Ask::Make(table2));
    let m6 = crate::stage::lemma_create(
        m5,
        steps[5],
        2,
        Layout::Val,
        Scalar::U32,
        2,
        multi_buffer_isolation_all_table3(),
    );
    crate::stage::lemma_asks_more(m, 0, list2, Ask::Make(multi_buffer_isolation_all_table3()));
    let list3 = list2.push(Ask::Make(multi_buffer_isolation_all_table3()));
    let m7 = crate::stage::lemma_sort(
        m6,
        steps[6],
        1,
        1,
        3,
        table2,
        multi_buffer_isolation_all_sorted1(),
    );
    crate::stage::lemma_asks_more(m, 0, list3, Ask::Make(multi_buffer_isolation_all_sorted1()));
    let list4 = list3.push(Ask::Make(multi_buffer_isolation_all_sorted1()));
    let m8 = crate::stage::lemma_download(
        m7,
        steps[7],
        0,
        0,
        Scalar::U32,
        3,
        multi_buffer_isolation_all_table1(),
    );
    crate::stage::lemma_asks_more(
        m,
        0,
        list4,
        Ask::Words { of: multi_buffer_isolation_all_table1(), column: 0, scalar: Scalar::U32 },
    );
    let list5 = list4.push(
        Ask::Words { of: multi_buffer_isolation_all_table1(), column: 0, scalar: Scalar::U32 },
    );
    assert(multi_buffer_isolation_all_1_asks() == list5);
    m8
}

/// What the device is asked in piece 2 of the part `all` of `test_multi_buffer_isolation`.
pub open spec fn multi_buffer_isolation_all_2_asks() -> Seq<Ask> {
    seq![
        Ask::Words { of: multi_buffer_isolation_all_table3(), column: 0, scalar: Scalar::U32 },
        Ask::Words { of: multi_buffer_isolation_all_sorted1(), column: 0, scalar: Scalar::U32 },
        Ask::Make(multi_buffer_isolation_all_kept1()),
    ]
}

/// Piece 2 of the part `all` of `test_multi_buffer_isolation` asks what it should.
proof fn lemma_multi_buffer_isolation_all_2(m: Moment, steps: Seq<Step>) -> (n: Moment)
    requires
        m.holds(),
        m.at == 0 + 8,
        m.used == 5,
        0 + 22 <= m.plan.steps.len(),
        forall|j: int| 0 <= j < 22 ==> m.plan.steps[0 + j] == #[trigger] steps[j],
        crate::stage::looks(steps[8]),
        crate::stage::demands(
            steps[9],
            Request::Download { of: 2, column: 0, scalar: Scalar::U32, into: 3 },
        ),
        crate::stage::looks(steps[10]),
        crate::stage::demands(
            steps[11],
            Request::Download { of: 3, column: 0, scalar: Scalar::U32, into: 3 },
        ),
        crate::stage::works(steps[12], 4),
        crate::stage::looks(steps[13]),
        crate::stage::fills(steps[14], 5, len(0), same_as(modulo(ix(), num(2)), num(0))),
        crate::stage::demands(steps[15], Request::Filter { of: 0, mask: 5, into: 4 }),
        m.contents.columns[0] == multi_buffer_isolation_all_words1(),
        m.scene.buffer(0) == multi_buffer_isolation_all_table1(),
        m.scene.buffer(2) == multi_buffer_isolation_all_table3(),
        m.scene.buffer(3) == multi_buffer_isolation_all_sorted1(),
    ensures
        n.holds(),
        n.plan == m.plan,
        n.answers == m.answers,
        n.at == 0 + 16,
        n.used == m.used + 3,
        n.scene.buffer(2) == multi_buffer_isolation_all_table3(),
        n.scene.buffer(4) == multi_buffer_isolation_all_kept1(),
        crate::stage::asks(m.plan, m.answers, 5, multi_buffer_isolation_all_2_asks()),
{
    crate::stage::lemma_full(m);
    crate::stage::lemma_asks_none(m, 5);
    let list0 = Seq::<Ask>::empty();
    let m1 = crate::stage::lemma_look(m, steps[8]);
    let m2 = crate::stage::lemma_download(
        m1,
        steps[9],
        2,
        0,
        Scalar::U32,
        3,
        multi_buffer_isolation_all_table3(),
    );
    crate::stage::lemma_asks_more(
        m,
        5,
        list0,
        Ask::Words { of: multi_buffer_isolation_all_table3(), column: 0, scalar: Scalar::U32 },
    );
    let list1 = list0.push(
        Ask::Words { of: multi_buffer_isolation_all_table3(), column: 0, scalar: Scalar::U32 },
    );
    let m3 = crate::stage::lemma_look(m2, steps[10]);
    let m4 = crate::stage::lemma_download(
        m3,
        steps[11],
        3,
        0,
        Scalar::U32,
        3,
        multi_buffer_isolation_all_sorted1(),
    );
    crate::stage::lemma_asks_more(
        m,
        5,
        list1,
        Ask::Words { of: multi_buffer_isolation_all_sorted1(), column: 0, scalar: Scalar::U32 },
    );
    let list2 = list1.push(
        Ask::Words { of: multi_buffer_isolation_all_sorted1(), column: 0, scalar: Scalar::U32 },
    );
    let m5 = crate::stage::lemma_work(m4, steps[12], 4);
    let m6 = crate::stage::lemma_look(m5, steps[13]);
    let words4 = crate::stage::column(
        (multi_buffer_isolation_all_words1().len() as int),
        |i: int| crate::stage::flag(((i % 2) == 0)),
    );
    let word7 = same_as(modulo(ix(), num(2)), num(0));
    assert forall|i: int| 0 <= i < words4.len() implies crate::stage::meaning(
        word7,
        m6.contents,
        i,
    ) as u64 == #[trigger] words4[i] by {
        reveal_with_fuel(crate::stage::meaning, 4);
    }
    let m7 = crate::stage::lemma_filled(m6, steps[14], 5, len(0), word7, words4);
    let m8 = crate::stage::lemma_filter(
        m7,
        steps[15],
        0,
        5,
        4,
        multi_buffer_isolation_all_table1(),
        words4,
        multi_buffer_isolation_all_kept1(),
    );
    crate::stage::lemma_asks_more(m, 5, list2, Ask::Make(multi_buffer_isolation_all_kept1()));
    let list3 = list2.push(Ask::Make(multi_buffer_isolation_all_kept1()));
    assert(multi_buffer_isolation_all_2_asks() == list3);
    m8
}

/// What the device is asked in piece 3 of the part `all` of `test_multi_buffer_isolation`.
pub open spec fn multi_buffer_isolation_all_3_asks() -> Seq<Ask> {
    seq![
        Ask::Words { of: multi_buffer_isolation_all_table3(), column: 0, scalar: Scalar::U32 },
        Ask::Words { of: multi_buffer_isolation_all_kept1(), column: 0, scalar: Scalar::U32 },
        Ask::Other(Request::Sync),
    ]
}

/// Piece 3 of the part `all` of `test_multi_buffer_isolation` asks what it should.
proof fn lemma_multi_buffer_isolation_all_3(m: Moment, steps: Seq<Step>) -> (n: Moment)
    requires
        m.holds(),
        m.at == 0 + 16,
        m.used == 8,
        0 + 22 <= m.plan.steps.len(),
        forall|j: int| 0 <= j < 22 ==> m.plan.steps[0 + j] == #[trigger] steps[j],
        crate::stage::demands(
            steps[16],
            Request::Download { of: 2, column: 0, scalar: Scalar::U32, into: 3 },
        ),
        crate::stage::looks(steps[17]),
        crate::stage::demands(
            steps[18],
            Request::Download { of: 4, column: 0, scalar: Scalar::U32, into: 3 },
        ),
        crate::stage::works(steps[19], 6),
        crate::stage::looks(steps[20]),
        crate::stage::demands(steps[21], Request::Sync),
        m.scene.buffer(2) == multi_buffer_isolation_all_table3(),
        m.scene.buffer(4) == multi_buffer_isolation_all_kept1(),
    ensures
        n.holds(),
        n.plan == m.plan,
        n.answers == m.answers,
        n.at == 0 + 22,
        n.used == m.used + 3,
        crate::stage::asks(m.plan, m.answers, 8, multi_buffer_isolation_all_3_asks()),
{
    crate::stage::lemma_full(m);
    crate::stage::lemma_asks_none(m, 8);
    let list0 = Seq::<Ask>::empty();
    let m1 = crate::stage::lemma_download(
        m,
        steps[16],
        2,
        0,
        Scalar::U32,
        3,
        multi_buffer_isolation_all_table3(),
    );
    crate::stage::lemma_asks_more(
        m,
        8,
        list0,
        Ask::Words { of: multi_buffer_isolation_all_table3(), column: 0, scalar: Scalar::U32 },
    );
    let list1 = list0.push(
        Ask::Words { of: multi_buffer_isolation_all_table3(), column: 0, scalar: Scalar::U32 },
    );
    let m2 = crate::stage::lemma_look(m1, steps[17]);
    let m3 = crate::stage::lemma_download(
        m2,
        steps[18],
        4,
        0,
        Scalar::U32,
        3,
        multi_buffer_isolation_all_kept1(),
    );
    crate::stage::lemma_asks_more(
        m,
        8,
        list1,
        Ask::Words { of: multi_buffer_isolation_all_kept1(), column: 0, scalar: Scalar::U32 },
    );
    let list2 = list1.push(
        Ask::Words { of: multi_buffer_isolation_all_kept1(), column: 0, scalar: Scalar::U32 },
    );
    let m4 = crate::stage::lemma_work(m3, steps[19], 6);
    let m5 = crate::stage::lemma_look(m4, steps[20]);
    let m6 = crate::stage::lemma_sync(m5, steps[21]);
    crate::stage::lemma_asks_more(m, 8, list2, Ask::Other(Request::Sync));
    let list3 = list2.push(Ask::Other(Request::Sync));
    assert(multi_buffer_isolation_all_3_asks() == list3);
    m6
}

/// The steps of the part `all` of `test_multi_buffer_isolation`.
proof fn lemma_multi_buffer_isolation_all_steps()
    ensures
        ({
            let steps = crate::categories::c04_address_space::multi_buffer_isolation_steps();
            &&& steps.len() == 22
            &&& crate::stage::fills(steps[0], 0, num(1000), times(ix(), num(3)))
            &&& crate::stage::fills(steps[1], 1, num(1000), plus(times(ix(), num(5)), num(1)))
            &&& crate::stage::fills(steps[2], 2, num(1000), plus(times(ix(), num(7)), num(2)))
            &&& crate::stage::demands(
                steps[3],
                Request::Create { into: 0, layout: Layout::Val, scalar: Scalar::U32, from: 0 },
            )
            &&& crate::stage::demands(
                steps[4],
                Request::Create { into: 1, layout: Layout::Val, scalar: Scalar::U32, from: 1 },
            )
            &&& crate::stage::demands(
                steps[5],
                Request::Create { into: 2, layout: Layout::Val, scalar: Scalar::U32, from: 2 },
            )
            &&& crate::stage::demands(steps[6], Request::Sort { of: 1, keys: 1, into: 3 })
            &&& crate::stage::demands(
                steps[7],
                Request::Download { of: 0, column: 0, scalar: Scalar::U32, into: 3 },
            )
            &&& crate::stage::looks(steps[8])
            &&& crate::stage::demands(
                steps[9],
                Request::Download { of: 2, column: 0, scalar: Scalar::U32, into: 3 },
            )
            &&& crate::stage::looks(steps[10])
            &&& crate::stage::demands(
                steps[11],
                Request::Download { of: 3, column: 0, scalar: Scalar::U32, into: 3 },
            )
            &&& crate::stage::works(steps[12], 4)
            &&& crate::stage::looks(steps[13])
            &&& crate::stage::fills(steps[14], 5, len(0), same_as(modulo(ix(), num(2)), num(0)))
            &&& crate::stage::demands(steps[15], Request::Filter { of: 0, mask: 5, into: 4 })
            &&& crate::stage::demands(
                steps[16],
                Request::Download { of: 2, column: 0, scalar: Scalar::U32, into: 3 },
            )
            &&& crate::stage::looks(steps[17])
            &&& crate::stage::demands(
                steps[18],
                Request::Download { of: 4, column: 0, scalar: Scalar::U32, into: 3 },
            )
            &&& crate::stage::works(steps[19], 6)
            &&& crate::stage::looks(steps[20])
            &&& crate::stage::demands(steps[21], Request::Sync)
        }),
{
}

/// In a run of `test_multi_buffer_isolation` that passes the device is asked this, in this order,
/// and nothing else: each request about what an earlier one made is about that, and about what was
/// uploaded for it.
pub proof fn law_multi_buffer_isolation_asks_about_what_it_made(answers: Seq<Answer>)
    requires
        crate::stage::passes(
            crate::script::plan(
                "test_multi_buffer_isolation",
                crate::categories::c04_address_space::multi_buffer_isolation_steps(),
            ),
            answers,
        ),
    ensures
        crate::stage::asks(
            crate::script::plan(
                "test_multi_buffer_isolation",
                crate::categories::c04_address_space::multi_buffer_isolation_steps(),
            ),
            answers,
            0,
            multi_buffer_isolation_all_1_asks(),
        ),
        crate::stage::asks(
            crate::script::plan(
                "test_multi_buffer_isolation",
                crate::categories::c04_address_space::multi_buffer_isolation_steps(),
            ),
            answers,
            5,
            multi_buffer_isolation_all_2_asks(),
        ),
        crate::stage::asks(
            crate::script::plan(
                "test_multi_buffer_isolation",
                crate::categories::c04_address_space::multi_buffer_isolation_steps(),
            ),
            answers,
            8,
            multi_buffer_isolation_all_3_asks(),
        ),
        crate::stage::asked(
            crate::script::plan(
                "test_multi_buffer_isolation",
                crate::categories::c04_address_space::multi_buffer_isolation_steps(),
            ),
            answers,
            11,
        ) is None,
{
    let plan = crate::script::plan(
        "test_multi_buffer_isolation",
        crate::categories::c04_address_space::multi_buffer_isolation_steps(),
    );
    let part1 = crate::categories::c04_address_space::multi_buffer_isolation_steps();
    lemma_multi_buffer_isolation_all_steps();
    let whole1 = part1;
    assert(plan.steps == whole1);
    let m0 = crate::stage::lemma_start(plan, answers);
    assert forall|j: int| 0 <= j < 22 implies plan.steps[0 + j] == #[trigger] part1[j] by {}
    let m1 = lemma_multi_buffer_isolation_all_1(m0, part1);
    let m2 = lemma_multi_buffer_isolation_all_2(m1, part1);
    let m3 = lemma_multi_buffer_isolation_all_3(m2, part1);
    crate::stage::lemma_end(m3);
}

} // verus!
