//! What these tests ask the device in runs that pass: `test_f64_infinity`, `test_f64_nan_handling`,
//! `test_f64_zero_signs`.

use vstd::prelude::*;
use crate::expr::{and, entry, here, ix, len, lt, not, num};
use crate::machine::Answer;
use crate::scalar::Scalar;
use crate::script::{Layout, Request, Step};
use crate::stage::{Ask, Moment, Thing};
use crate::tables::Table;

verus! {

/// A column that is filled in the part `all` of `test_f64_infinity`.
pub open spec fn f64_infinity_all_words1() -> Seq<u64> {
    crate::stage::column(11, |i: int| crate::tables::words_of(Table::Infinities)[i] as int)
}

/// A buffer that is uploaded in the part `all` of `test_f64_infinity`.
pub open spec fn f64_infinity_all_table1() -> Thing {
    Thing::Table {
        layout: Layout::Val,
        scalar: Scalar::F64,
        columns: seq![f64_infinity_all_words1()],
        turn: 0,
    }
}

/// What the device is asked in piece 1 of the part `all` of `test_f64_infinity`.
pub open spec fn f64_infinity_all_1_asks() -> Seq<Ask> {
    let sorted1 = Thing::Sorted { of: Box::new(f64_infinity_all_table1()), keys: 1, turn: 1 };
    seq![
        Ask::Make(f64_infinity_all_table1()),
        Ask::Make(sorted1),
        Ask::Words { of: sorted1, column: 0, scalar: Scalar::F64 },
    ]
}

/// Piece 1 of the part `all` of `test_f64_infinity` asks what it should.
proof fn lemma_f64_infinity_all_1(m: Moment, steps: Seq<Step>) -> (n: Moment)
    requires
        m.holds(),
        m.at == 0,
        m.used == 0,
        0 + 15 <= m.plan.steps.len(),
        forall|j: int| 0 <= j < 15 ==> m.plan.steps[0 + j] == #[trigger] steps[j],
        crate::stage::fills(steps[0], 0, num(11), entry(Table::Infinities, ix())),
        crate::stage::demands(
            steps[1],
            Request::Create { into: 0, layout: Layout::Val, scalar: Scalar::F64, from: 0 },
        ),
        crate::stage::demands(steps[2], Request::Sort { of: 0, keys: 1, into: 1 }),
        crate::stage::demands(
            steps[3],
            Request::Download { of: 1, column: 0, scalar: Scalar::F64, into: 1 },
        ),
        crate::stage::looks(steps[4]),
        crate::stage::looks(steps[5]),
        crate::stage::looks(steps[6]),
        crate::stage::looks(steps[7]),
    ensures
        n.holds(),
        n.plan == m.plan,
        n.answers == m.answers,
        n.at == 0 + 8,
        n.used == m.used + 3,
        n.contents.columns[0] == f64_infinity_all_words1(),
        n.scene.buffer(0) == f64_infinity_all_table1(),
        crate::stage::asks(m.plan, m.answers, 0, f64_infinity_all_1_asks()),
{
    crate::stage::lemma_full(m);
    crate::stage::lemma_asks_none(m, 0);
    let list0 = Seq::<Ask>::empty();
    let words1 = f64_infinity_all_words1();
    crate::stage::lemma_entry_of(Table::Infinities);
    let word1 = entry(Table::Infinities, ix());
    assert forall|i: int| 0 <= i < words1.len() implies crate::stage::meaning(
        word1,
        m.contents,
        i,
    ) as u64 == #[trigger] words1[i] by {
        reveal_with_fuel(crate::stage::meaning, 2);
    }
    let m1 = crate::stage::lemma_filled(m, steps[0], 0, num(11), word1, words1);
    let m2 = crate::stage::lemma_create(
        m1,
        steps[1],
        0,
        Layout::Val,
        Scalar::F64,
        0,
        f64_infinity_all_table1(),
    );
    crate::stage::lemma_asks_more(m, 0, list0, Ask::Make(f64_infinity_all_table1()));
    let list1 = list0.push(Ask::Make(f64_infinity_all_table1()));
    let sorted1 = Thing::Sorted { of: Box::new(f64_infinity_all_table1()), keys: 1, turn: 1 };
    let m3 = crate::stage::lemma_sort(m2, steps[2], 0, 1, 1, f64_infinity_all_table1(), sorted1);
    crate::stage::lemma_asks_more(m, 0, list1, Ask::Make(sorted1));
    let list2 = list1.push(Ask::Make(sorted1));
    let m4 = crate::stage::lemma_download(m3, steps[3], 1, 0, Scalar::F64, 1, sorted1);
    crate::stage::lemma_asks_more(
        m,
        0,
        list2,
        Ask::Words { of: sorted1, column: 0, scalar: Scalar::F64 },
    );
    let list3 = list2.push(Ask::Words { of: sorted1, column: 0, scalar: Scalar::F64 });
    let m5 = crate::stage::lemma_look(m4, steps[4]);
    let m6 = crate::stage::lemma_look(m5, steps[5]);
    let m7 = crate::stage::lemma_look(m6, steps[6]);
    let m8 = crate::stage::lemma_look(m7, steps[7]);
    assert(f64_infinity_all_1_asks() == list3);
    m8
}

/// What the device is asked in piece 2 of the part `all` of `test_f64_infinity`.
pub open spec fn f64_infinity_all_2_asks() -> Seq<Ask> {
    let words2 = crate::stage::column(
        (f64_infinity_all_words1().len() as int),
        |i: int| crate::stage::flag(
            (
                (0 < (f64_infinity_all_words1()[i] as int)) && !(
                    0x7FF0_0000_0000_0000 < (f64_infinity_all_words1()[i] as int)
                )
            ),
        ),
    );
    let kept1 = Thing::Kept { of: Box::new(f64_infinity_all_table1()), mask: words2, turn: 3 };
    seq![
        Ask::Make(kept1),
        Ask::Words { of: kept1, column: 0, scalar: Scalar::F64 },
        Ask::Other(Request::Sync),
    ]
}

/// Piece 2 of the part `all` of `test_f64_infinity` asks what it should.
proof fn lemma_f64_infinity_all_2(m: Moment, steps: Seq<Step>) -> (n: Moment)
    requires
        m.holds(),
        m.at == 0 + 8,
        m.used == 3,
        0 + 15 <= m.plan.steps.len(),
        forall|j: int| 0 <= j < 15 ==> m.plan.steps[0 + j] == #[trigger] steps[j],
        crate::stage::fills(
            steps[8],
            2,
            len(0),
            and(lt(num(0), here(0)), not(lt(num(0x7FF0_0000_0000_0000), here(0)))),
        ),
        crate::stage::demands(steps[9], Request::Filter { of: 0, mask: 2, into: 2 }),
        crate::stage::demands(
            steps[10],
            Request::Download { of: 2, column: 0, scalar: Scalar::F64, into: 3 },
        ),
        crate::stage::works(steps[11], 4),
        crate::stage::looks(steps[12]),
        crate::stage::looks(steps[13]),
        crate::stage::demands(steps[14], Request::Sync),
        m.contents.columns[0] == f64_infinity_all_words1(),
        m.scene.buffer(0) == f64_infinity_all_table1(),
    ensures
        n.holds(),
        n.plan == m.plan,
        n.answers == m.answers,
        n.at == 0 + 15,
        n.used == m.used + 3,
        crate::stage::asks(m.plan, m.answers, 3, f64_infinity_all_2_asks()),
{
    crate::stage::lemma_full(m);
    crate::stage::lemma_asks_none(m, 3);
    let list0 = Seq::<Ask>::empty();
    let words2 = crate::stage::column(
        (f64_infinity_all_words1().len() as int),
        |i: int| crate::stage::flag(
            (
                (0 < (f64_infinity_all_words1()[i] as int)) && !(
                    0x7FF0_0000_0000_0000 < (f64_infinity_all_words1()[i] as int)
                )
            ),
        ),
    );
    let word1 = and(lt(num(0), here(0)), not(lt(num(0x7FF0_0000_0000_0000), here(0))));
    assert forall|i: int| 0 <= i < words2.len() implies crate::stage::meaning(
        word1,
        m.contents,
        i,
    ) as u64 == #[trigger] words2[i] by {
        reveal_with_fuel(crate::stage::meaning, 6);
    }
    let m1 = crate::stage::lemma_filled(m, steps[8], 2, len(0), word1, words2);
    let kept1 = Thing::Kept { of: Box::new(f64_infinity_all_table1()), mask: words2, turn: 3 };
    let m2 = crate::stage::lemma_filter(
        m1,
        steps[9],
        0,
        2,
        2,
        f64_infinity_all_table1(),
        words2,
        kept1,
    );
    crate::stage::lemma_asks_more(m, 3, list0, Ask::Make(kept1));
    let list1 = list0.push(Ask::Make(kept1));
    let m3 = crate::stage::lemma_download(m2, steps[10], 2, 0, Scalar::F64, 3, kept1);
    crate::stage::lemma_asks_more(
        m,
        3,
        list1,
        Ask::Words { of: kept1, column: 0, scalar: Scalar::F64 },
    );
    let list2 = list1.push(Ask::Words { of: kept1, column: 0, scalar: Scalar::F64 });
    let m4 = crate::stage::lemma_work(m3, steps[11], 4);
    let m5 = crate::stage::lemma_look(m4, steps[12]);
    let m6 = crate::stage::lemma_look(m5, steps[13]);
    let m7 = crate::stage::lemma_sync(m6, steps[14]);
    crate::stage::lemma_asks_more(m, 3, list2, Ask::Other(Request::Sync));
    let list3 = list2.push(Ask::Other(Request::Sync));
    assert(f64_infinity_all_2_asks() == list3);
    m7
}

/// The steps of the part `all` of `test_f64_infinity`.
proof fn lemma_f64_infinity_all_steps()
    ensures
        ({
            let steps = crate::categories::c13_floating_point::f64_infinity_steps();
            &&& steps.len() == 15
            &&& crate::stage::fills(steps[0], 0, num(11), entry(Table::Infinities, ix()))
            &&& crate::stage::demands(
                steps[1],
                Request::Create { into: 0, layout: Layout::Val, scalar: Scalar::F64, from: 0 },
            )
            &&& crate::stage::demands(steps[2], Request::Sort { of: 0, keys: 1, into: 1 })
            &&& crate::stage::demands(
                steps[3],
                Request::Download { of: 1, column: 0, scalar: Scalar::F64, into: 1 },
            )
            &&& crate::stage::looks(steps[4])
            &&& crate::stage::looks(steps[5])
            &&& crate::stage::looks(steps[6])
            &&& crate::stage::looks(steps[7])
            &&& crate::stage::fills(
                steps[8],
                2,
                len(0),
                and(lt(num(0), here(0)), not(lt(num(0x7FF0_0000_0000_0000), here(0)))),
            )
            &&& crate::stage::demands(steps[9], Request::Filter { of: 0, mask: 2, into: 2 })
            &&& crate::stage::demands(
                steps[10],
                Request::Download { of: 2, column: 0, scalar: Scalar::F64, into: 3 },
            )
            &&& crate::stage::works(steps[11], 4)
            &&& crate::stage::looks(steps[12])
            &&& crate::stage::looks(steps[13])
            &&& crate::stage::demands(steps[14], Request::Sync)
        }),
{
}

/// In a run of `test_f64_infinity` that passes the device is asked this, in this order, and nothing
/// else: each request about what an earlier one made is about that, and about what was uploaded for
/// it.
pub proof fn law_f64_infinity_asks_about_what_it_made(answers: Seq<Answer>)
    requires
        crate::stage::passes(
            crate::script::plan(
                "test_f64_infinity",
                crate::categories::c13_floating_point::f64_infinity_steps(),
            ),
            answers,
        ),
    ensures
        crate::stage::asks(
            crate::script::plan(
                "test_f64_infinity",
                crate::categories::c13_floating_point::f64_infinity_steps(),
            ),
            answers,
            0,
            f64_infinity_all_1_asks(),
        ),
        crate::stage::asks(
            crate::script::plan(
                "test_f64_infinity",
                crate::categories::c13_floating_point::f64_infinity_steps(),
            ),
            answers,
            3,
            f64_infinity_all_2_asks(),
        ),
        crate::stage::asked(
            crate::script::plan(
                "test_f64_infinity",
                crate::categories::c13_floating_point::f64_infinity_steps(),
            ),
            answers,
            6,
        ) is None,
{
    let plan = crate::script::plan(
        "test_f64_infinity",
        crate::categories::c13_floating_point::f64_infinity_steps(),
    );
    let part1 = crate::categories::c13_floating_point::f64_infinity_steps();
    lemma_f64_infinity_all_steps();
    let whole1 = part1;
    assert(plan.steps == whole1);
    let m0 = crate::stage::lemma_start(plan, answers);
    assert forall|j: int| 0 <= j < 15 implies plan.steps[0 + j] == #[trigger] part1[j] by {}
    let m1 = lemma_f64_infinity_all_1(m0, part1);
    let m2 = lemma_f64_infinity_all_2(m1, part1);
    crate::stage::lemma_end(m2);
}

/// What the device is asked in piece 1 of the part `all` of `test_f64_nan_handling`.
pub open spec fn f64_nan_handling_all_1_asks() -> Seq<Ask> {
    let words1 = crate::stage::column(10, |i: int| crate::tables::words_of(Table::Nans)[i] as int);
    let table1 = Thing::Table {
        layout: Layout::Val,
        scalar: Scalar::F64,
        columns: seq![words1],
        turn: 0,
    };
    let sorted1 = Thing::Sorted { of: Box::new(table1), keys: 1, turn: 1 };
    seq![
        Ask::Make(table1),
        Ask::Make(sorted1),
        Ask::Words { of: sorted1, column: 0, scalar: Scalar::F64 },
    ]
}

/// Piece 1 of the part `all` of `test_f64_nan_handling` asks what it should.
proof fn lemma_f64_nan_handling_all_1(m: Moment, steps: Seq<Step>) -> (n: Moment)
    requires
        m.holds(),
        m.at == 0,
        m.used == 0,
        0 + 12 <= m.plan.steps.len(),
        forall|j: int| 0 <= j < 12 ==> m.plan.steps[0 + j] == #[trigger] steps[j],
        crate::stage::fills(steps[0], 0, num(10), entry(Table::Nans, ix())),
        crate::stage::demands(
            steps[1],
            Request::Create { into: 0, layout: Layout::Val, scalar: Scalar::F64, from: 0 },
        ),
        crate::stage::demands(steps[2], Request::Sort { of: 0, keys: 1, into: 1 }),
        crate::stage::demands(
            steps[3],
            Request::Download { of: 1, column: 0, scalar: Scalar::F64, into: 1 },
        ),
        crate::stage::looks(steps[4]),
        crate::stage::works(steps[5], 2),
        crate::stage::works(steps[6], 3),
        crate::stage::looks(steps[7]),
    ensures
        n.holds(),
        n.plan == m.plan,
        n.answers == m.answers,
        n.at == 0 + 8,
        n.used == m.used + 3,
        crate::stage::asks(m.plan, m.answers, 0, f64_nan_handling_all_1_asks()),
{
    crate::stage::lemma_full(m);
    crate::stage::lemma_asks_none(m, 0);
    let list0 = Seq::<Ask>::empty();
    let words1 = crate::stage::column(10, |i: int| crate::tables::words_of(Table::Nans)[i] as int);
    crate::stage::lemma_entry_of(Table::Nans);
    let word1 = entry(Table::Nans, ix());
    assert forall|i: int| 0 <= i < words1.len() implies crate::stage::meaning(
        word1,
        m.contents,
        i,
    ) as u64 == #[trigger] words1[i] by {
        reveal_with_fuel(crate::stage::meaning, 2);
    }
    let m1 = crate::stage::lemma_filled(m, steps[0], 0, num(10), word1, words1);
    let table1 = Thing::Table {
        layout: Layout::Val,
        scalar: Scalar::F64,
        columns: seq![words1],
        turn: 0,
    };
    let m2 = crate::stage::lemma_create(m1, steps[1], 0, Layout::Val, Scalar::F64, 0, table1);
    crate::stage::lemma_asks_more(m, 0, list0, Ask::Make(table1));
    let list1 = list0.push(Ask::Make(table1));
    let sorted1 = Thing::Sorted { of: Box::new(table1), keys: 1, turn: 1 };
    let m3 = crate::stage::lemma_sort(m2, steps[2], 0, 1, 1, table1, sorted1);
    crate::stage::lemma_asks_more(m, 0, list1, Ask::Make(sorted1));
    let list2 = list1.push(Ask::Make(sorted1));
    let m4 = crate::stage::lemma_download(m3, steps[3], 1, 0, Scalar::F64, 1, sorted1);
    crate::stage::lemma_asks_more(
        m,
        0,
        list2,
        Ask::Words { of: sorted1, column: 0, scalar: Scalar::F64 },
    );
    let list3 = list2.push(Ask::Words { of: sorted1, column: 0, scalar: Scalar::F64 });
    let m5 = crate::stage::lemma_look(m4, steps[4]);
    let m6 = crate::stage::lemma_work(m5, steps[5], 2);
    let m7 = crate::stage::lemma_work(m6, steps[6], 3);
    let m8 = crate::stage::lemma_look(m7, steps[7]);
    assert(f64_nan_handling_all_1_asks() == list3);
    m8
}

/// What the device is asked in piece 2 of the part `all` of `test_f64_nan_handling`.
pub open spec fn f64_nan_handling_all_2_asks() -> Seq<Ask> {
    seq![Ask::Other(Request::Sync)]
}

/// Piece 2 of the part `all` of `test_f64_nan_handling` asks what it should.
proof fn lemma_f64_nan_handling_all_2(m: Moment, steps: Seq<Step>) -> (n: Moment)
    requires
        m.holds(),
        m.at == 0 + 8,
        m.used == 3,
        0 + 12 <= m.plan.steps.len(),
        forall|j: int| 0 <= j < 12 ==> m.plan.steps[0 + j] == #[trigger] steps[j],
        crate::stage::works(steps[8], 4),
        crate::stage::looks(steps[9]),
        crate::stage::looks(steps[10]),
        crate::stage::demands(steps[11], Request::Sync),
    ensures
        n.holds(),
        n.plan == m.plan,
        n.answers == m.answers,
        n.at == 0 + 12,
        n.used == m.used + 1,
        crate::stage::asks(m.plan, m.answers, 3, f64_nan_handling_all_2_asks()),
{
    crate::stage::lemma_full(m);
    crate::stage::lemma_asks_none(m, 3);
    let list0 = Seq::<Ask>::empty();
    let m1 = crate::stage::lemma_work(m, steps[8], 4);
    let m2 = crate::stage::lemma_look(m1, steps[9]);
    let m3 = crate::stage::lemma_look(m2, steps[10]);
    let m4 = crate::stage::lemma_sync(m3, steps[11]);
    crate::stage::lemma_asks_more(m, 3, list0, Ask::Other(Request::Sync));
    let list1 = list0.push(Ask::Other(Request::Sync));
    assert(f64_nan_handling_all_2_asks() == list1);
    m4
}

/// The steps of the part `all` of `test_f64_nan_handling`.
proof fn lemma_f64_nan_handling_all_steps()
    ensures
        ({
            let steps = crate::categories::c13_floating_point::f64_nan_handling_steps();
            &&& steps.len() == 12
            &&& crate::stage::fills(steps[0], 0, num(10), entry(Table::Nans, ix()))
            &&& crate::stage::demands(
                steps[1],
                Request::Create { into: 0, layout: Layout::Val, scalar: Scalar::F64, from: 0 },
            )
            &&& crate::stage::demands(steps[2], Request::Sort { of: 0, keys: 1, into: 1 })
            &&& crate::stage::demands(
                steps[3],
                Request::Download { of: 1, column: 0, scalar: Scalar::F64, into: 1 },
            )
            &&& crate::stage::looks(steps[4])
            &&& crate::stage::works(steps[5], 2)
            &&& crate::stage::works(steps[6], 3)
            &&& crate::stage::looks(steps[7])
            &&& crate::stage::works(steps[8], 4)
            &&& crate::stage::looks(steps[9])
            &&& crate::stage::looks(steps[10])
            &&& crate::stage::demands(steps[11], Request::Sync)
        }),
{
}

/// In a run of `test_f64_nan_handling` that passes the device is asked this, in this order, and
/// nothing else: each request about what an earlier one made is about that, and about what was
/// uploaded for it.
pub proof fn law_f64_nan_handling_asks_about_what_it_made(answers: Seq<Answer>)
    requires
        crate::stage::passes(
            crate::script::plan(
                "test_f64_nan_handling",
                crate::categories::c13_floating_point::f64_nan_handling_steps(),
            ),
            answers,
        ),
    ensures
        crate::stage::asks(
            crate::script::plan(
                "test_f64_nan_handling",
                crate::categories::c13_floating_point::f64_nan_handling_steps(),
            ),
            answers,
            0,
            f64_nan_handling_all_1_asks(),
        ),
        crate::stage::asks(
            crate::script::plan(
                "test_f64_nan_handling",
                crate::categories::c13_floating_point::f64_nan_handling_steps(),
            ),
            answers,
            3,
            f64_nan_handling_all_2_asks(),
        ),
        crate::stage::asked(
            crate::script::plan(
                "test_f64_nan_handling",
                crate::categories::c13_floating_point::f64_nan_handling_steps(),
            ),
            answers,
            4,
        ) is None,
{
    let plan = crate::script::plan(
        "test_f64_nan_handling",
        crate::categories::c13_floating_point::f64_nan_handling_steps(),
    );
    let part1 = crate::categories::c13_floating_point::f64_nan_handling_steps();
    lemma_f64_nan_handling_all_steps();
    let whole1 = part1;
    assert(plan.steps == whole1);
    let m0 = crate::stage::lemma_start(plan, answers);
    assert forall|j: int| 0 <= j < 12 implies plan.steps[0 + j] == #[trigger] part1[j] by {}
    let m1 = lemma_f64_nan_handling_all_1(m0, part1);
    let m2 = lemma_f64_nan_handling_all_2(m1, part1);
    crate::stage::lemma_end(m2);
}

/// What the device is asked in piece 1 of the part `all` of `test_f64_zero_signs`.
pub open spec fn f64_zero_signs_all_1_asks() -> Seq<Ask> {
    let words1 = crate::stage::column(10, |i: int| crate::tables::words_of(Table::Zeros)[i] as int);
    let table1 = Thing::Table {
        layout: Layout::Val,
        scalar: Scalar::F64,
        columns: seq![words1],
        turn: 0,
    };
    let sorted1 = Thing::Sorted { of: Box::new(table1), keys: 1, turn: 1 };
    seq![
        Ask::Make(table1),
        Ask::Make(sorted1),
        Ask::Words { of: sorted1, column: 0, scalar: Scalar::F64 },
    ]
}

/// Piece 1 of the part `all` of `test_f64_zero_signs` asks what it should.
proof fn lemma_f64_zero_signs_all_1(m: Moment, steps: Seq<Step>) -> (n: Moment)
    requires
        m.holds(),
        m.at == 0,
        m.used == 0,
        0 + 14 <= m.plan.steps.len(),
        forall|j: int| 0 <= j < 14 ==> m.plan.steps[0 + j] == #[trigger] steps[j],
        crate::stage::fills(steps[0], 0, num(10), entry(Table::Zeros, ix())),
        crate::stage::demands(
            steps[1],
            Request::Create { into: 0, layout: Layout::Val, scalar: Scalar::F64, from: 0 },
        ),
        crate::stage::demands(steps[2], Request::Sort { of: 0, keys: 1, into: 1 }),
        crate::stage::demands(
            steps[3],
            Request::Download { of: 1, column: 0, scalar: Scalar::F64, into: 1 },
        ),
        crate::stage::looks(steps[4]),
        crate::stage::looks(steps[5]),
        crate::stage::works(steps[6], 2),
        crate::stage::works(steps[7], 3),
    ensures
        n.holds(),
        n.plan == m.plan,
        n.answers == m.answers,
        n.at == 0 + 8,
        n.used == m.used + 3,
        crate::stage::asks(m.plan, m.answers, 0, f64_zero_signs_all_1_asks()),
{
    crate::stage::lemma_full(m);
    crate::stage::lemma_asks_none(m, 0);
    let list0 = Seq::<Ask>::empty();
    let words1 = crate::stage::column(10, |i: int| crate::tables::words_of(Table::Zeros)[i] as int);
    crate::stage::lemma_entry_of(Table::Zeros);
    let word1 = entry(Table::Zeros, ix());
    assert forall|i: int| 0 <= i < words1.len() implies crate::stage::meaning(
        word1,
        m.contents,
        i,
    ) as u64 == #[trigger] words1[i] by {
        reveal_with_fuel(crate::stage::meaning, 2);
    }
    let m1 = crate::stage::lemma_filled(m, steps[0], 0, num(10), word1, words1);
    let table1 = Thing::Table {
        layout: Layout::Val,
        scalar: Scalar::F64,
        columns: seq![words1],
        turn: 0,
    };
    let m2 = crate::stage::lemma_create(m1, steps[1], 0, Layout::Val, Scalar::F64, 0, table1);
    crate::stage::lemma_asks_more(m, 0, list0, Ask::Make(table1));
    let list1 = list0.push(Ask::Make(table1));
    let sorted1 = Thing::Sorted { of: Box::new(table1), keys: 1, turn: 1 };
    let m3 = crate::stage::lemma_sort(m2, steps[2], 0, 1, 1, table1, sorted1);
    crate::stage::lemma_asks_more(m, 0, list1, Ask::Make(sorted1));
    let list2 = list1.push(Ask::Make(sorted1));
    let m4 = crate::stage::lemma_download(m3, steps[3], 1, 0, Scalar::F64, 1, sorted1);
    crate::stage::lemma_asks_more(
        m,
        0,
        list2,
        Ask::Words { of: sorted1, column: 0, scalar: Scalar::F64 },
    );
    let list3 = list2.push(Ask::Words { of: sorted1, column: 0, scalar: Scalar::F64 });
    let m5 = crate::stage::lemma_look(m4, steps[4]);
    let m6 = crate::stage::lemma_look(m5, steps[5]);
    let m7 = crate::stage::lemma_work(m6, steps[6], 2);
    let m8 = crate::stage::lemma_work(m7, steps[7], 3);
    assert(f64_zero_signs_all_1_asks() == list3);
    m8
}

/// What the device is asked in piece 2 of the part `all` of `test_f64_zero_signs`.
pub open spec fn f64_zero_signs_all_2_asks() -> Seq<Ask> {
    seq![Ask::Other(Request::Sync)]
}

/// Piece 2 of the part `all` of `test_f64_zero_signs` asks what it should.
proof fn lemma_f64_zero_signs_all_2(m: Moment, steps: Seq<Step>) -> (n: Moment)
    requires
        m.holds(),
        m.at == 0 + 8,
        m.used == 3,
        0 + 14 <= m.plan.steps.len(),
        forall|j: int| 0 <= j < 14 ==> m.plan.steps[0 + j] == #[trigger] steps[j],
        crate::stage::reckons(steps[8], 0),
        crate::stage::looks(steps[9]),
        crate::stage::reckons(steps[10], 1),
        crate::stage::looks(steps[11]),
        crate::stage::looks(steps[12]),
        crate::stage::demands(steps[13], Request::Sync),
    ensures
        n.holds(),
        n.plan == m.plan,
        n.answers == m.answers,
        n.at == 0 + 14,
        n.used == m.used + 1,
        crate::stage::asks(m.plan, m.answers, 3, f64_zero_signs_all_2_asks()),
{
    crate::stage::lemma_full(m);
    crate::stage::lemma_asks_none(m, 3);
    let list0 = Seq::<Ask>::empty();
    let m1 = crate::stage::lemma_reckon(m, steps[8], 0);
    let m2 = crate::stage::lemma_look(m1, steps[9]);
    let m3 = crate::stage::lemma_reckon(m2, steps[10], 1);
    let m4 = crate::stage::lemma_look(m3, steps[11]);
    let m5 = crate::stage::lemma_look(m4, steps[12]);
    let m6 = crate::stage::lemma_sync(m5, steps[13]);
    crate::stage::lemma_asks_more(m, 3, list0, Ask::Other(Request::Sync));
    let list1 = list0.push(Ask::Other(Request::Sync));
    assert(f64_zero_signs_all_2_asks() == list1);
    m6
}

/// The steps of the part `all` of `test_f64_zero_signs`.
proof fn lemma_f64_zero_signs_all_steps()
    ensures
        ({
            let steps = crate::categories::c13_floating_point::f64_zero_signs_steps();
            &&& steps.len() == 14
            &&& crate::stage::fills(steps[0], 0, num(10), entry(Table::Zeros, ix()))
            &&& crate::stage::demands(
                steps[1],
                Request::Create { into: 0, layout: Layout::Val, scalar: Scalar::F64, from: 0 },
            )
            &&& crate::stage::demands(steps[2], Request::Sort { of: 0, keys: 1, into: 1 })
            &&& crate::stage::demands(
                steps[3],
                Request::Download { of: 1, column: 0, scalar: Scalar::F64, into: 1 },
            )
            &&& crate::stage::looks(steps[4])
            &&& crate::stage::looks(steps[5])
            &&& crate::stage::works(steps[6], 2)
            &&& crate::stage::works(steps[7], 3)
            &&& crate::stage::reckons(steps[8], 0)
            &&& crate::stage::looks(steps[9])
            &&& crate::stage::reckons(steps[10], 1)
            &&& crate::stage::looks(steps[11])
            &&& crate::stage::looks(steps[12])
            &&& crate::stage::demands(steps[13], Request::Sync)
        }),
{
}

/// In a run of `test_f64_zero_signs` that passes the device is asked this, in this order, and
/// nothing else: each request about what an earlier one made is about that, and about what was
/// uploaded for it.
pub proof fn law_f64_zero_signs_asks_about_what_it_made(answers: Seq<Answer>)
    requires
        crate::stage::passes(
            crate::script::plan(
                "test_f64_zero_signs",
                crate::categories::c13_floating_point::f64_zero_signs_steps(),
            ),
            answers,
        ),
    ensures
        crate::stage::asks(
            crate::script::plan(
                "test_f64_zero_signs",
                crate::categories::c13_floating_point::f64_zero_signs_steps(),
            ),
            answers,
            0,
            f64_zero_signs_all_1_asks(),
        ),
        crate::stage::asks(
            crate::script::plan(
                "test_f64_zero_signs",
                crate::categories::c13_floating_point::f64_zero_signs_steps(),
            ),
            answers,
            3,
            f64_zero_signs_all_2_asks(),
        ),
        crate::stage::asked(
            crate::script::plan(
                "test_f64_zero_signs",
                crate::categories::c13_floating_point::f64_zero_signs_steps(),
            ),
            answers,
            4,
        ) is None,
{
    let plan = crate::script::plan(
        "test_f64_zero_signs",
        crate::categories::c13_floating_point::f64_zero_signs_steps(),
    );
    let part1 = crate::categories::c13_floating_point::f64_zero_signs_steps();
    lemma_f64_zero_signs_all_steps();
    let whole1 = part1;
    assert(plan.steps == whole1);
    let m0 = crate::stage::lemma_start(plan, answers);
    assert forall|j: int| 0 <= j < 14 implies plan.steps[0 + j] == #[trigger] part1[j] by {}
    let m1 = lemma_f64_zero_signs_all_1(m0, part1);
    let m2 = lemma_f64_zero_signs_all_2(m1, part1);
    crate::stage::lemma_end(m2);
}

} // verus!
