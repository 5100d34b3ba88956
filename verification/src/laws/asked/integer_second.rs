//! What these tests ask the device in runs that pass: `test_i64_signed_comparison`,
//! `test_integer_wraparound_keys`.

use vstd::prelude::*;
use crate::expr::{entry, here, ix, modulo, num, plus, times};
use crate::machine::Answer;
use crate::scalar::Scalar;
use crate::script::{Layout, Request, Step};
use crate::stage::{Ask, Moment, Thing};
use crate::tables::Table;

verus! {

/// What the device is asked in piece 1 of the part `all` of `test_i64_signed_comparison`.
pub open spec fn i64_signed_comparison_all_1_asks() -> Seq<Ask> {
    let words1 = crate::stage::column(
        11,
        |i: int| crate::tables::words_of(Table::SignedMix)[i] as int,
    );
    let table1 = Thing::Table {
        layout: Layout::Val,
        scalar: Scalar::I64,
        columns: seq![words1],
        turn: 0,
    };
    let sorted1 = Thing::Sorted { of: Box::new(table1), keys: 1, turn: 1 };
    seq![
        Ask::Make(table1),
        Ask::Make(sorted1),
        Ask::Words { of: sorted1, column: 0, scalar: Scalar::I64 },
    ]
}

/// Piece 1 of the part `all` of `test_i64_signed_comparison` asks what it should.
proof fn lemma_i64_signed_comparison_all_1(m: Moment, steps: Seq<Step>) -> (n: Moment)
    requires
        m.holds(),
        m.at == 0,
        m.used == 0,
        0 + 13 <= m.plan.steps.len(),
        forall|j: int| 0 <= j < 13 ==> m.plan.steps[0 + j] == #[trigger] steps[j],
        crate::stage::fills(steps[0], 0, num(11), entry(Table::SignedMix, ix())),
        crate::stage::demands(
            steps[1],
            Request::Create { into: 0, layout: Layout::Val, scalar: Scalar::I64, from: 0 },
        ),
        crate::stage::demands(steps[2], Request::Sort { of: 0, keys: 1, into: 1 }),
        crate::stage::demands(
            steps[3],
            Request::Download { of: 1, column: 0, scalar: Scalar::I64, into: 1 },
        ),
        crate::stage::looks(steps[4]),
        crate::stage::works(steps[5], 2),
        crate::stage::looks(steps[6]),
        crate::stage::works(steps[7], 3),
    ensures
        n.holds(),
        n.plan == m.plan,
        n.answers == m.answers,
        n.at == 0 + 8,
        n.used == m.used + 3,
        crate::stage::asks(m.plan, m.answers, 0, i64_signed_comparison_all_1_asks()),
{
    crate::stage::lemma_full(m);
    crate::stage::lemma_asks_none(m, 0);
    let list0 = Seq::<Ask>::empty();
    let words1 = crate::stage::column(
        11,
        |i: int| crate::tables::words_of(Table::SignedMix)[i] as int,
    );
    crate::stage::lemma_entry_of(Table::SignedMix);
    let word1 = entry(Table::SignedMix, ix());
    assert forall|i: int| 0 <= i < words1.len() implies crate::stage::meaning(
        word1,
        m.contents,
        i,
    ) as u64 == #[trigger] words1[i] by {
        reveal_with_fuel(crate::stage::meaning, 2);
    }
    let m1 = crate::stage::lemma_filled(m, steps[0], 0, num(11), word1, words1);
    let table1 = Thing::Table {
        layout: Layout::Val,
        scalar: Scalar::I64,
        columns: seq![words1],
        turn: 0,
    };
    let m2 = crate::stage::lemma_create(m1, steps[1], 0, Layout::Val, Scalar::I64, 0, table1);
    crate::stage::lemma_asks_more(m, 0, list0, Ask::Make(table1));
    let list1 = list0.push(Ask::Make(table1));
    let sorted1 = Thing::Sorted { of: Box::new(table1), keys: 1, turn: 1 };
    let m3 = crate::stage::lemma_sort(m2, steps[2], 0, 1, 1, table1, sorted1);
    crate::stage::lemma_asks_more(m, 0, list1, Ask::Make(sorted1));
    let list2 = list1.push(Ask::Make(sorted1));
    let m4 = crate::stage::lemma_download(m3, steps[3], 1, 0, Scalar::I64, 1, sorted1);
    crate::stage::lemma_asks_more(
        m,
        0,
        list2,
        Ask::Words { of: sorted1, column: 0, scalar: Scalar::I64 },
    );
    let list3 = list2.push(Ask::Words { of: sorted1, column: 0, scalar: Scalar::I64 });
    let m5 = crate::stage::lemma_look(m4, steps[4]);
    let m6 = crate::stage::lemma_work(m5, steps[5], 2);
    let m7 = crate::stage::lemma_look(m6, steps[6]);
    let m8 = crate::stage::lemma_work(m7, steps[7], 3);
    assert(i64_signed_comparison_all_1_asks() == list3);
    m8
}

/// What the device is asked in piece 2 of the part `all` of `test_i64_signed_comparison`.
pub open spec fn i64_signed_comparison_all_2_asks() -> Seq<Ask> {
    seq![Ask::Other(Request::Sync)]
}

/// Piece 2 of the part `all` of `test_i64_signed_comparison` asks what it should.
proof fn lemma_i64_signed_comparison_all_2(m: Moment, steps: Seq<Step>) -> (n: Moment)
    requires
        m.holds(),
        m.at == 0 + 8,
        m.used == 3,
        0 + 13 <= m.plan.steps.len(),
        forall|j: int| 0 <= j < 13 ==> m.plan.steps[0 + j] == #[trigger] steps[j],
        crate::stage::reckons(steps[8], 0),
        crate::stage::looks(steps[9]),
        crate::stage::looks(steps[10]),
        crate::stage::looks(steps[11]),
        crate::stage::demands(steps[12], Request::Sync),
    ensures
        n.holds(),
        n.plan == m.plan,
        n.answers == m.answers,
        n.at == 0 + 13,
        n.used == m.used + 1,
        crate::stage::asks(m.plan, m.answers, 3, i64_signed_comparison_all_2_asks()),
{
    crate::stage::lemma_full(m);
    crate::stage::lemma_asks_none(m, 3);
    let list0 = Seq::<Ask>::empty();
    let m1 = crate::stage::lemma_reckon(m, steps[8], 0);
    let m2 = crate::stage::lemma_look(m1, steps[9]);
    let m3 = crate::stage::lemma_look(m2, steps[10]);
    let m4 = crate::stage::lemma_look(m3, steps[11]);
    let m5 = crate::stage::lemma_sync(m4, steps[12]);
    crate::stage::lemma_asks_more(m, 3, list0, Ask::Other(Request::Sync));
    let list1 = list0.push(Ask::Other(Request::Sync));
    assert(i64_signed_comparison_all_2_asks() == list1);
    m5
}

/// The steps of the part `all` of `test_i64_signed_comparison`.
proof fn lemma_i64_signed_comparison_all_steps()
    ensures
        ({
            let steps = crate::categories::c14_integer::i64_signed_comparison_steps();
            &&& steps.len() == 13
            &&& crate::stage::fills(steps[0], 0, num(11), entry(Table::SignedMix, ix()))
            &&& crate::stage::demands(
                steps[1],
                Request::Create { into: 0, layout: Layout::Val, scalar: Scalar::I64, from: 0 },
            )
            &&& crate::stage::demands(steps[2], Request::Sort { of: 0, keys: 1, into: 1 })
            &&& crate::stage::demands(
                steps[3],
                Request::Download { of: 1, column: 0, scalar: Scalar::I64, into: 1 },
            )
            &&& crate::stage::looks(steps[4])
            &&& crate::stage::works(steps[5], 2)
            &&& crate::stage::looks(steps[6])
            &&& crate::stage::works(steps[7], 3)
            &&& crate::stage::reckons(steps[8], 0)
            &&& crate::stage::looks(steps[9])
            &&& crate::stage::looks(steps[10])
            &&& crate::stage::looks(steps[11])
            &&& crate::stage::demands(steps[12], Request::Sync)
        }),
{
}

/// In a run of `test_i64_signed_comparison` that passes the device is asked this, in this order,
/// and nothing else: each request about what an earlier one made is about that, and about what was
/// uploaded for it.
pub proof fn law_i64_signed_comparison_asks_about_what_it_made(answers: Seq<Answer>)
    requires
        crate::stage::passes(
            crate::script::plan(
                "test_i64_signed_comparison",
                crate::categories::c14_integer::i64_signed_comparison_steps(),
            ),
            answers,
        ),
    ensures
        crate::stage::asks(
            crate::script::plan(
                "test_i64_signed_comparison",
                crate::categories::c14_integer::i64_signed_comparison_steps(),
            ),
            answers,
            0,
            i64_signed_comparison_all_1_asks(),
        ),
        crate::stage::asks(
            crate::script::plan(
                "test_i64_signed_comparison",
                crate::categories::c14_integer::i64_signed_comparison_steps(),
            ),
            answers,
            3,
            i64_signed_comparison_all_2_asks(),
        ),
        crate::stage::asked(
            crate::script::plan(
                "test_i64_signed_comparison",
                crate::categories::c14_integer::i64_signed_comparison_steps(),
            ),
            answers,
            4,
        ) is None,
{
    let plan = crate::script::plan(
        "test_i64_signed_comparison",
        crate::categories::c14_integer::i64_signed_comparison_steps(),
    );
    let part1 = crate::categories::c14_integer::i64_signed_comparison_steps();
    lemma_i64_signed_comparison_all_steps();
    let whole1 = part1;
    assert(plan.steps == whole1);
    let m0 = crate::stage::lemma_start(plan, answers);
    assert forall|j: int| 0 <= j < 13 implies plan.steps[0 + j] == #[trigger] part1[j] by {}
    let m1 = lemma_i64_signed_comparison_all_1(m0, part1);
    let m2 = lemma_i64_signed_comparison_all_2(m1, part1);
    crate::stage::lemma_end(m2);
}

/// What is joined in the part `all` of `test_integer_wraparound_keys`.
pub open spec fn integer_wraparound_keys_all_joined1() -> Thing {
    Thing::Joined {
        left: Box::new(
            Thing::Table {
                layout: Layout::KeyLval,
                scalar: Scalar::U32,
                columns: seq![
                    crate::stage::column(
                        12,
                        |i: int| crate::tables::words_of(Table::LeftKeys)[i] as int,
                    ),
                    crate::stage::column(
                        12,
                        |i: int| ((crate::stage::column(12, |i: int| crate::tables::words_of(Table::LeftKeys)[i] as int)[i] as int) + 100) % 4294967296,
                    ),
                ],
                turn: 0,
            },
        ),
        right: Box::new(
            Thing::Table {
                layout: Layout::KeyRval,
                scalar: Scalar::U32,
                columns: seq![
                    crate::stage::column(
                        6,
                        |i: int| crate::tables::words_of(Table::RightKeys)[i] as int,
                    ),
                    crate::stage::column(
                        6,
                        |i: int| ((crate::stage::column(6, |i: int| crate::tables::words_of(Table::RightKeys)[i] as int)[i] as int) * 10) % 4294967296,
                    ),
                ],
                turn: 1,
            },
        ),
        turn: 2,
    }
}

/// What the device is asked in piece 1 of the part `all` of `test_integer_wraparound_keys`.
pub open spec fn integer_wraparound_keys_all_1_asks() -> Seq<Ask> {
    let words1 = crate::stage::column(
        12,
        |i: int| crate::tables::words_of(Table::LeftKeys)[i] as int,
    );
    let words2 = crate::stage::column(12, |i: int| ((words1[i] as int) + 100) % 4294967296);
    let words3 = crate::stage::column(
        6,
        |i: int| crate::tables::words_of(Table::RightKeys)[i] as int,
    );
    let words4 = crate::stage::column(6, |i: int| ((words3[i] as int) * 10) % 4294967296);
    let table1 = Thing::Table {
        layout: Layout::KeyLval,
        scalar: Scalar::U32,
        columns: seq![words1, words2],
        turn: 0,
    };
    let table2 = Thing::Table {
        layout: Layout::KeyRval,
        scalar: Scalar::U32,
        columns: seq![words3, words4],
        turn: 1,
    };
    seq![Ask::Make(table1), Ask::Make(table2), Ask::Make(integer_wraparound_keys_all_joined1())]
}

/// Piece 1 of the part `all` of `test_integer_wraparound_keys` asks what it should.
proof fn lemma_integer_wraparound_keys_all_1(m: Moment, steps: Seq<Step>) -> (n: Moment)
    requires
        m.holds(),
        m.at == 0,
        m.used == 0,
        0 + 19 <= m.plan.steps.len(),
        forall|j: int| 0 <= j < 19 ==> m.plan.steps[0 + j] == #[trigger] steps[j],
        crate::stage::fills(steps[0], 0, num(12), entry(Table::LeftKeys, ix())),
        crate::stage::fills(steps[1], 1, num(12), modulo(plus(here(0), num(100)), num(4294967296))),
        crate::stage::fills(steps[2], 2, num(6), entry(Table::RightKeys, ix())),
        crate::stage::fills(steps[3], 3, num(6), modulo(times(here(2), num(10)), num(4294967296))),
        crate::stage::demands(
            steps[4],
            Request::Create { into: 0, layout: Layout::KeyLval, scalar: Scalar::U32, from: 0 },
        ),
        crate::stage::demands(
            steps[5],
            Request::Create { into: 1, layout: Layout::KeyRval, scalar: Scalar::U32, from: 2 },
        ),
        crate::stage::demands(steps[6], Request::Join { left: 0, right: 1, into: 2 }),
        crate::stage::works(steps[7], 7),
    ensures
        n.holds(),
        n.plan == m.plan,
        n.answers == m.answers,
        n.at == 0 + 8,
        n.used == m.used + 3,
        n.scene.buffer(2) == integer_wraparound_keys_all_joined1(),
        crate::stage::asks(m.plan, m.answers, 0, integer_wraparound_keys_all_1_asks()),
{
    crate::stage::lemma_full(m);
    crate::stage::lemma_asks_none(m, 0);
    let list0 = Seq::<Ask>::empty();
    let words1 = crate::stage::column(
        12,
        |i: int| crate::tables::words_of(Table::LeftKeys)[i] as int,
    );
    crate::stage::lemma_entry_of(Table::LeftKeys);
    let word1 = entry(Table::LeftKeys, ix());
    assert forall|i: int| 0 <= i < words1.len() implies crate::stage::meaning(
        word1,
        m.contents,
        i,
    ) as u64 == #[trigger] words1[i] by {
        reveal_with_fuel(crate::stage::meaning, 2);
    }
    let m1 = crate::stage::lemma_filled(m, steps[0], 0, num(12), word1, words1);
    let words2 = crate::stage::column(12, |i: int| ((words1[i] as int) + 100) % 4294967296);
    let word2 = modulo(plus(here(0), num(100)), num(4294967296));
    assert forall|i: int| 0 <= i < words2.len() implies crate::stage::meaning(
        word2,
        m1.contents,
        i,
    ) as u64 == #[trigger] words2[i] by {
        reveal_with_fuel(crate::stage::meaning, 5);
    }
    let m2 = crate::stage::lemma_filled(m1, steps[1], 1, num(12), word2, words2);
    let words3 = crate::stage::column(
        6,
        |i: int| crate::tables::words_of(Table::RightKeys)[i] as int,
    );
    crate::stage::lemma_entry_of(Table::RightKeys);
    let word3 = entry(Table::RightKeys, ix());
    assert forall|i: int| 0 <= i < words3.len() implies crate::stage::meaning(
        word3,
        m2.contents,
        i,
    ) as u64 == #[trigger] words3[i] by {
        reveal_with_fuel(crate::stage::meaning, 2);
    }
    let m3 = crate::stage::lemma_filled(m2, steps[2], 2, num(6), word3, words3);
    let words4 = crate::stage::column(6, |i: int| ((words3[i] as int) * 10) % 4294967296);
    let word4 = modulo(times(here(2), num(10)), num(4294967296));
    assert forall|i: int| 0 <= i < words4.len() implies crate::stage::meaning(
        word4,
        m3.contents,
        i,
    ) as u64 == #[trigger] words4[i] by {
        reveal_with_fuel(crate::stage::meaning, 5);
    }
    let m4 = crate::stage::lemma_filled(m3, steps[3], 3, num(6), word4, words4);
    let table1 = Thing::Table {
        layout: Layout::KeyLval,
        scalar: Scalar::U32,
        columns: seq![words1, words2],
        turn: 0,
    };
    let m5 = crate::stage::lemma_create(m4, steps[4], 0, Layout::KeyLval, Scalar::U32, 0, table1);
    crate::stage::lemma_asks_more(m, 0, list0, Ask::Make(table1));
    let list1 = list0.push(Ask::Make(table1));
    let table2 = Thing::Table {
        layout: Layout::KeyRval,
        scalar: Scalar::U32,
        columns: seq![words3, words4],
        turn: 1,
    };
    let m6 = crate::stage::lemma_create(m5, steps[5], 1, Layout::KeyRval, Scalar::U32, 2, table2);
    crate::stage::lemma_asks_more(m, 0, list1, Ask::Make(table2));
    let list2 = list1.push(Ask::Make(table2));
    let m7 = crate::stage::lemma_join(
        m6,
        steps[6],
        0,
        1,
        2,
        table1,
        table2,
        integer_wraparound_keys_all_joined1(),
    );
    crate::stage::lemma_asks_more(m, 0, list2, Ask::Make(integer_wraparound_keys_all_joined1()));
    let list3 = list2.push(Ask::Make(integer_wraparound_keys_all_joined1()));
    let m8 = crate::stage::lemma_work(m7, steps[7], 7);
    assert(integer_wraparound_keys_all_1_asks() == list3);
    m8
}

/// What the device is asked in piece 2 of the part `all` of `test_integer_wraparound_keys`.
pub open spec fn integer_wraparound_keys_all_2_asks() -> Seq<Ask> {
    seq![
        Ask::Rows(integer_wraparound_keys_all_joined1()),
        Ask::Words { of: integer_wraparound_keys_all_joined1(), column: 0, scalar: Scalar::U32 },
        Ask::Words { of: integer_wraparound_keys_all_joined1(), column: 1, scalar: Scalar::U32 },
        Ask::Words { of: integer_wraparound_keys_all_joined1(), column: 2, scalar: Scalar::U32 },
        Ask::Rows(integer_wraparound_keys_all_joined1()),
    ]
}

/// Piece 2 of the part `all` of `test_integer_wraparound_keys` asks what it should.
proof fn lemma_integer_wraparound_keys_all_2(m: Moment, steps: Seq<Step>) -> (n: Moment)
    requires
        m.holds(),
        m.at == 0 + 8,
        m.used == 3,
        0 + 19 <= m.plan.steps.len(),
        forall|j: int| 0 <= j < 19 ==> m.plan.steps[0 + j] == #[trigger] steps[j],
        crate::stage::reckons(steps[8], 0),
        crate::stage::counts(steps[9], 2),
        crate::stage::demands(
            steps[10],
            Request::Download { of: 2, column: 0, scalar: Scalar::U32, into: 4 },
        ),
        crate::stage::demands(
            steps[11],
            Request::Download { of: 2, column: 1, scalar: Scalar::U32, into: 5 },
        ),
        crate::stage::demands(
            steps[12],
            Request::Download { of: 2, column: 2, scalar: Scalar::U32, into: 6 },
        ),
        crate::stage::inquires(steps[13], Request::Rows { of: 2, into: 1 }),
        crate::stage::looks(steps[14]),
        crate::stage::looks(steps[15]),
        m.scene.buffer(2) == integer_wraparound_keys_all_joined1(),
    ensures
        n.holds(),
        n.plan == m.plan,
        n.answers == m.answers,
        n.at == 0 + 16,
        n.used == m.used + 5,
        crate::stage::asks(m.plan, m.answers, 3, integer_wraparound_keys_all_2_asks()),
{
    crate::stage::lemma_full(m);
    crate::stage::lemma_asks_none(m, 3);
    let list0 = Seq::<Ask>::empty();
    let m1 = crate::stage::lemma_reckon(m, steps[8], 0);
    let m2 = crate::stage::lemma_count(m1, steps[9], 2, integer_wraparound_keys_all_joined1());
    crate::stage::lemma_asks_more(m, 3, list0, Ask::Rows(integer_wraparound_keys_all_joined1()));
    let list1 = list0.push(Ask::Rows(integer_wraparound_keys_all_joined1()));
    let m3 = crate::stage::lemma_download(
        m2,
        steps[10],
        2,
        0,
        Scalar::U32,
        4,
        integer_wraparound_keys_all_joined1(),
    );
    crate::stage::lemma_asks_more(
        m,
        3,
        list1,
        Ask::Words { of: integer_wraparound_keys_all_joined1(), column: 0, scalar: Scalar::U32 },
    );
    let list2 = list1.push(
        Ask::Words { of: integer_wraparound_keys_all_joined1(), column: 0, scalar: Scalar::U32 },
    );
    let m4 = crate::stage::lemma_download(
        m3,
        steps[11],
        2,
        1,
        Scalar::U32,
        5,
        integer_wraparound_keys_all_joined1(),
    );
    crate::stage::lemma_asks_more(
        m,
        3,
        list2,
        Ask::Words { of: integer_wraparound_keys_all_joined1(), column: 1, scalar: Scalar::U32 },
    );
    let list3 = list2.push(
        Ask::Words { of: integer_wraparound_keys_all_joined1(), column: 1, scalar: Scalar::U32 },
    );
    let m5 = crate::stage::lemma_download(
        m4,
        steps[12],
        2,
        2,
        Scalar::U32,
        6,
        integer_wraparound_keys_all_joined1(),
    );
    crate::stage::lemma_asks_more(
        m,
        3,
        list3,
        Ask::Words { of: integer_wraparound_keys_all_joined1(), column: 2, scalar: Scalar::U32 },
    );
    let list4 = list3.push(
        Ask::Words { of: integer_wraparound_keys_all_joined1(), column: 2, scalar: Scalar::U32 },
    );
    let m6 = crate::stage::lemma_rows(m5, steps[13], 2, 1, integer_wraparound_keys_all_joined1());
    crate::stage::lemma_asks_more(m, 3, list4, Ask::Rows(integer_wraparound_keys_all_joined1()));
    let list5 = list4.push(Ask::Rows(integer_wraparound_keys_all_joined1()));
    let m7 = crate::stage::lemma_look(m6, steps[14]);
    let m8 = crate::stage::lemma_look(m7, steps[15]);
    assert(integer_wraparound_keys_all_2_asks() == list5);
    m8
}

/// What the device is asked in piece 3 of the part `all` of `test_integer_wraparound_keys`.
pub open spec fn integer_wraparound_keys_all_3_asks() -> Seq<Ask> {
    seq![Ask::Other(Request::Sync)]
}

/// Piece 3 of the part `all` of `test_integer_wraparound_keys` asks what it should.
proof fn lemma_integer_wraparound_keys_all_3(m: Moment, steps: Seq<Step>) -> (n: Moment)
    requires
        m.holds(),
        m.at == 0 + 16,
        m.used == 8,
        0 + 19 <= m.plan.steps.len(),
        forall|j: int| 0 <= j < 19 ==> m.plan.steps[0 + j] == #[trigger] steps[j],
        crate::stage::works(steps[16], 8),
        crate::stage::looks(steps[17]),
        crate::stage::demands(steps[18], Request::Sync),
    ensures
        n.holds(),
        n.plan == m.plan,
        n.answers == m.answers,
        n.at == 0 + 19,
        n.used == m.used + 1,
        crate::stage::asks(m.plan, m.answers, 8, integer_wraparound_keys_all_3_asks()),
{
    crate::stage::lemma_full(m);
    crate::stage::lemma_asks_none(m, 8);
    let list0 = Seq::<Ask>::empty();
    let m1 = crate::stage::lemma_work(m, steps[16], 8);
    let m2 = crate::stage::lemma_look(m1, steps[17]);
    let m3 = crate::stage::lemma_sync(m2, steps[18]);
    crate::stage::lemma_asks_more(m, 8, list0, Ask::Other(Request::Sync));
    let list1 = list0.push(Ask::Other(Request::Sync));
    assert(integer_wraparound_keys_all_3_asks() == list1);
    m3
}

/// The steps of the part `all` of `test_integer_wraparound_keys`.
proof fn lemma_integer_wraparound_keys_all_steps()
    ensures
        ({
            let steps = crate::categories::c14_integer::integer_wraparound_keys_steps();
            &&& steps.len() == 19
            &&& crate::stage::fills(steps[0], 0, num(12), entry(Table::LeftKeys, ix()))
            &&& crate::stage::fills(
                steps[1],
                1,
                num(12),
                modulo(plus(here(0), num(100)), num(4294967296)),
            )
            &&& crate::stage::fills(steps[2], 2, num(6), entry(Table::RightKeys, ix()))
            &&& crate::stage::fills(
                steps[3],
                3,
                num(6),
                modulo(times(here(2), num(10)), num(4294967296)),
            )
            &&& crate::stage::demands(
                steps[4],
                Request::Create { into: 0, layout: Layout::KeyLval, scalar: Scalar::U32, from: 0 },
            )
            &&& crate::stage::demands(
                steps[5],
                Request::Create { into: 1, layout: Layout::KeyRval, scalar: Scalar::U32, from: 2 },
            )
            &&& crate::stage::demands(steps[6], Request::Join { left: 0, right: 1, into: 2 })
            &&& crate::stage::works(steps[7], 7)
            &&& crate::stage::reckons(steps[8], 0)
            &&& crate::stage::counts(steps[9], 2)
            &&& crate::stage::demands(
                steps[10],
                Request::Download { of: 2, column: 0, scalar: Scalar::U32, into: 4 },
            )
            &&& crate::stage::demands(
                steps[11],
                Request::Download { of: 2, column: 1, scalar: Scalar::U32, into: 5 },
            )
            &&& crate::stage::demands(
                steps[12],
                Request::Download { of: 2, column: 2, scalar: Scalar::U32, into: 6 },
            )
            &&& crate::stage::inquires(steps[13], Request::Rows { of: 2, into: 1 })
            &&& crate::stage::looks(steps[14])
            &&& crate::stage::looks(steps[15])
            &&& crate::stage::works(steps[16], 8)
            &&& crate::stage::looks(steps[17])
            &&& crate::stage::demands(steps[18], Request::Sync)
        }),
{
}

/// In a run of `test_integer_wraparound_keys` that passes the device is asked this, in this order,
/// and nothing else: each request about what an earlier one made is about that, and about what was
/// uploaded for it.
pub proof fn law_integer_wraparound_keys_asks_about_what_it_made(answers: Seq<Answer>)
    requires
        crate::stage::passes(
            crate::script::plan(
                "test_integer_wraparound_keys",
                crate::categories::c14_integer::integer_wraparound_keys_steps(),
            ),
            answers,
        ),
    ensures
        crate::stage::asks(
            crate::script::plan(
                "test_integer_wraparound_keys",
                crate::categories::c14_integer::integer_wraparound_keys_steps(),
            ),
            answers,
            0,
            integer_wraparound_keys_all_1_asks(),
        ),
        crate::stage::asks(
            crate::script::plan(
                "test_integer_wraparound_keys",
                crate::categories::c14_integer::integer_wraparound_keys_steps(),
            ),
            answers,
            3,
            integer_wraparound_keys_all_2_asks(),
        ),
        crate::stage::asks(
            crate::script::plan(
                "test_integer_wraparound_keys",
                crate::categories::c14_integer::integer_wraparound_keys_steps(),
            ),
            answers,
            8,
            integer_wraparound_keys_all_3_asks(),
        ),
        crate::stage::asked(
            crate::script::plan(
                "test_integer_wraparound_keys",
                crate::categories::c14_integer::integer_wraparound_keys_steps(),
            ),
            answers,
            9,
        ) is None,
{
    let plan = crate::script::plan(
        "test_integer_wraparound_keys",
        crate::categories::c14_integer::integer_wraparound_keys_steps(),
    );
    let part1 = crate::categories::c14_integer::integer_wraparound_keys_steps();
    lemma_integer_wraparound_keys_all_steps();
    let whole1 = part1;
    assert(plan.steps == whole1);
    let m0 = crate::stage::lemma_start(plan, answers);
    assert forall|j: int| 0 <= j < 19 implies plan.steps[0 + j] == #[trigger] part1[j] by {}
    let m1 = lemma_integer_wraparound_keys_all_1(m0, part1);
    let m2 = lemma_integer_wraparound_keys_all_2(m1, part1);
    let m3 = lemma_integer_wraparound_keys_all_3(m2, part1);
    crate::stage::lemma_end(m3);
}

} // verus!
