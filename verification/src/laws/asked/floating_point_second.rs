//! What these tests ask the device in runs that pass: `test_f64_subnormal`,
//! `test_f64_precision_extremes`.

use vstd::prelude::*;
use crate::expr::{entry, ix, num};
use crate::machine::Answer;
use crate::scalar::Scalar;
use crate::script::{Layout, Request, Step};
use crate::stage::{Ask, Moment, Thing};
use crate::tables::Table;

verus! {

/// What the device is asked in piece 1 of the part `all` of `test_f64_subnormal`.
pub open spec fn f64_subnormal_all_1_asks() -> Seq<Ask> {
    let words1 = crate::stage::column(
        12,
        |i: int| crate::tables::words_of(Table::Subnormals)[i] as int,
    );
    let table1 = Thing::Table {
        layout: Layout::Val,
        scalar: Scalar::F64,
        columns: seq![words1],
        turn: 0,
    };
    let sorted1 = Thing::Sorted { of: Box::new(table1), keys: 1, turn: 1 };
    seq![
        Ask::Make(table1),
        Ask::Make(sorted1),
        Ask::Words { of: sorted1, column: 0, scalar: Scalar::F64 },
    ]
}

/// Piece 1 of the part `all` of `test_f64_subnormal` asks what it should.
proof fn lemma_f64_subnormal_all_1(m: Moment, steps: Seq<Step>) -> (n: Moment)
    requires
        m.holds(),
        m.at == 0,
        m.used == 0,
        0 + 11 <= m.plan.steps.len(),
        forall|j: int| 0 <= j < 11 ==> m.plan.steps[0 + j] == #[trigger] steps[j],
        crate::stage::fills(steps[0], 0, num(12), entry(Table::Subnormals, ix())),
        crate::stage::demands(
            steps[1],
            Request::Create { into: 0, layout: Layout::Val, scalar: Scalar::F64, from: 0 },
        ),
        crate::stage::demands(steps[2], Request::Sort { of: 0, keys: 1, into: 1 }),
        crate::stage::demands(
            steps[3],
            Request::Download { of: 1, column: 0, scalar: Scalar::F64, into: 1 },
        ),
        crate::stage::looks(steps[4]),
        crate::stage::looks(steps[5]),
        crate::stage::works(steps[6], 2),
        crate::stage::works(steps[7], 3),
    ensures
        n.holds(),
        n.plan == m.plan,
        n.answers == m.answers,
        n.at == 0 + 8,
        n.used == m.used + 3,
        crate::stage::asks(m.plan, m.answers, 0, f64_subnormal_all_1_asks()),
{
    crate::stage::lemma_full(m);
    crate::stage::lemma_asks_none(m, 0);
    let list0 = Seq::<Ask>::empty();
    let words1 = crate::stage::column(
        12,
        |i: int| crate::tables::words_of(Table::Subnormals)[i] as int,
    );
    crate::stage::lemma_entry_of(Table::Subnormals);
    let word1 = entry(Table::Subnormals, ix());
    assert forall|i: int| 0 <= i < words1.len() implies crate::stage::meaning(
        word1,
        m.contents,
        i,
    ) as u64 == #[trigger] words1[i] by {
        reveal_with_fuel(crate::stage::meaning, 2);
    }
    let m1 = crate::stage::lemma_filled(m, steps[0], 0, num(12), word1, words1);
    let table1 = Thing::Table {
        layout: Layout::Val,
        scalar: Scalar::F64,
        columns: seq![words1],
        turn: 0,
    };
    let m2 = crate::stage::lemma_create(m1, steps[1], 0, Layout::Val, Scalar::F64, 0, table1);
    crate::stage::lemma_asks_more(m, 0, list0, Ask::Make(table1));
    let list1 = list0.push(Ask::Make(table1));
    let sorted1 = Thing::Sorted { of: Box::new(table1), keys: 1, turn: 1 };
    let m3 = crate::stage::lemma_sort(m2, steps[2], 0, 1, 1, table1, sorted1);
    crate::stage::lemma_asks_more(m, 0, list1, Ask::Make(sorted1));
    let list2 = list1.push(Ask::Make(sorted1));
    let m4 = crate::stage::lemma_download(m3, steps[3], 1, 0, Scalar::F64, 1, sorted1);
    crate::stage::lemma_asks_more(
        m,
        0,
        list2,
        Ask::Words { of: sorted1, column: 0, scalar: Scalar::F64 },
    );
    let list3 = list2.push(Ask::Words { of: sorted1, column: 0, scalar: Scalar::F64 });
    let m5 = crate::stage::lemma_look(m4, steps[4]);
    let m6 = crate::stage::lemma_look(m5, steps[5]);
    let m7 = crate::stage::lemma_work(m6, steps[6], 2);
    let m8 = crate::stage::lemma_work(m7, steps[7], 3);
    assert(f64_subnormal_all_1_asks() == list3);
    m8
}

/// What the device is asked in piece 2 of the part `all` of `test_f64_subnormal`.
pub open spec fn f64_subnormal_all_2_asks() -> Seq<Ask> {
    seq![Ask::Other(Request::Sync)]
}

/// Piece 2 of the part `all` of `test_f64_subnormal` asks what it should.
proof fn lemma_f64_subnormal_all_2(m: Moment, steps: Seq<Step>) -> (n: Moment)
    requires
        m.holds(),
        m.at == 0 + 8,
        m.used == 3,
        0 + 11 <= m.plan.steps.len(),
        forall|j: int| 0 <= j < 11 ==> m.plan.steps[0 + j] == #[trigger] steps[j],
        crate::stage::looks(steps[8]),
        crate::stage::looks(steps[9]),
        crate::stage::demands(steps[10], Request::Sync),
    ensures
        n.holds(),
        n.plan == m.plan,
        n.answers == m.answers,
        n.at == 0 + 11,
        n.used == m.used + 1,
        crate::stage::asks(m.plan, m.answers, 3, f64_subnormal_all_2_asks()),
{
    crate::stage::lemma_full(m);
    crate::stage::lemma_asks_none(m, 3);
    let list0 = Seq::<Ask>::empty();
    let m1 = crate::stage::lemma_look(m, steps[8]);
    let m2 = crate::stage::lemma_look(m1, steps[9]);
    let m3 = crate::stage::lemma_sync(m2, steps[10]);
    crate::stage::lemma_asks_more(m, 3, list0, Ask::Other(Request::Sync));
    let list1 = list0.push(Ask::Other(Request::Sync));
    assert(f64_subnormal_all_2_asks() == list1);
    m3
}

/// The steps of the part `all` of `test_f64_subnormal`.
proof fn lemma_f64_subnormal_all_steps()
    ensures
        ({
            let steps = crate::categories::c13_floating_point::f64_subnormal_steps();
            &&& steps.len() == 11
            &&& crate::stage::fills(steps[0], 0, num(12), entry(Table::Subnormals, ix()))
            &&& crate::stage::demands(
                steps[1],
                Request::Create { into: 0, layout: Layout::Val, scalar: Scalar::F64, from: 0 },
            )
            &&& crate::stage::demands(steps[2], Request::Sort { of: 0, keys: 1, into: 1 })
            &&& crate::stage::demands(
                steps[3],
                Request::Download { of: 1, column: 0, scalar: Scalar::F64, into: 1 },
            )
            &&& crate::stage::looks(steps[4])
            &&& crate::stage::looks(steps[5])
            &&& crate::stage::works(steps[6], 2)
            &&& crate::stage::works(steps[7], 3)
            &&& crate::stage::looks(steps[8])
            &&& crate::stage::looks(steps[9])
            &&& crate::stage::demands(steps[10], Request::Sync)
        }),
{
}

/// In a run of `test_f64_subnormal` that passes the device is asked this, in this order, and
/// nothing else: each request about what an earlier one made is about that, and about what was
/// uploaded for it.
pub proof fn law_f64_subnormal_asks_about_what_it_made(answers: Seq<Answer>)
    requires
        crate::stage::passes(
            crate::script::plan(
                "test_f64_subnormal",
                crate::categories::c13_floating_point::f64_subnormal_steps(),
            ),
            answers,
        ),
    ensures
        crate::stage::asks(
            crate::script::plan(
                "test_f64_subnormal",
                crate::categories::c13_floating_point::f64_subnormal_steps(),
            ),
            answers,
            0,
            f64_subnormal_all_1_asks(),
        ),
        crate::stage::asks(
            crate::script::plan(
                "test_f64_subnormal",
                crate::categories::c13_floating_point::f64_subnormal_steps(),
            ),
            answers,
            3,
            f64_subnormal_all_2_asks(),
        ),
        crate::stage::asked(
            crate::script::plan(
                "test_f64_subnormal",
                crate::categories::c13_floating_point::f64_subnormal_steps(),
            ),
            answers,
            4,
        ) is None,
{
    let plan = crate::script::plan(
        "test_f64_subnormal",
        crate::categories::c13_floating_point::f64_subnormal_steps(),
    );
    let part1 = crate::categories::c13_floating_point::f64_subnormal_steps();
    lemma_f64_subnormal_all_steps();
    let whole1 = part1;
    assert(plan.steps == whole1);
    let m0 = crate::stage::lemma_start(plan, answers);
    assert forall|j: int| 0 <= j < 11 implies plan.steps[0 + j] == #[trigger] part1[j] by {}
    let m1 = lemma_f64_subnormal_all_1(m0, part1);
    let m2 = lemma_f64_subnormal_all_2(m1, part1);
    crate::stage::lemma_end(m2);
}

/// What the device is asked in piece 1 of the part `all` of `test_f64_precision_extremes`.
pub open spec fn f64_precision_extremes_all_1_asks() -> Seq<Ask> {
    let words1 = crate::stage::column(
        17,
        |i: int| crate::tables::words_of(Table::Extremes)[i] as int,
    );
    let table1 = Thing::Table {
        layout: Layout::Val,
        scalar: Scalar::F64,
        columns: seq![words1],
        turn: 0,
    };
    let sorted1 = Thing::Sorted { of: Box::new(table1), keys: 1, turn: 1 };
    seq![
        Ask::Make(table1),
        Ask::Make(sorted1),
        Ask::Words { of: sorted1, column: 0, scalar: Scalar::F64 },
    ]
}

/// Piece 1 of the part `all` of `test_f64_precision_extremes` asks what it should.
proof fn lemma_f64_precision_extremes_all_1(m: Moment, steps: Seq<Step>) -> (n: Moment)
    requires
        m.holds(),
        m.at == 0,
        m.used == 0,
        0 + 10 <= m.plan.steps.len(),
        forall|j: int| 0 <= j < 10 ==> m.plan.steps[0 + j] == #[trigger] steps[j],
        crate::stage::fills(steps[0], 0, num(17), entry(Table::Extremes, ix())),
        crate::stage::demands(
            steps[1],
            Request::Create { into: 0, layout: Layout::Val, scalar: Scalar::F64, from: 0 },
        ),
        crate::stage::demands(steps[2], Request::Sort { of: 0, keys: 1, into: 1 }),
        crate::stage::demands(
            steps[3],
            Request::Download { of: 1, column: 0, scalar: Scalar::F64, into: 1 },
        ),
        crate::stage::looks(steps[4]),
        crate::stage::looks(steps[5]),
        crate::stage::looks(steps[6]),
        crate::stage::looks(steps[7]),
    ensures
        n.holds(),
        n.plan == m.plan,
        n.answers == m.answers,
        n.at == 0 + 8,
        n.used == m.used + 3,
        crate::stage::asks(m.plan, m.answers, 0, f64_precision_extremes_all_1_asks()),
{
    crate::stage::lemma_full(m);
    crate::stage::lemma_asks_none(m, 0);
    let list0 = Seq::<Ask>::empty();
    let words1 = crate::stage::column(
        17,
        |i: int| crate::tables::words_of(Table::Extremes)[i] as int,
    );
    crate::stage::lemma_entry_of(Table::Extremes);
    let word1 = entry(Table::Extremes, ix());
    assert forall|i: int| 0 <= i < words1.len() implies crate::stage::meaning(
        word1,
        m.contents,
        i,
    ) as u64 == #[trigger] words1[i] by {
        reveal_with_fuel(crate::stage::meaning, 2);
    }
    let m1 = crate::stage::lemma_filled(m, steps[0], 0, num(17), word1, words1);
    let table1 = Thing::Table {
        layout: Layout::Val,
        scalar: Scalar::F64,
        columns: seq![words1],
        turn: 0,
    };
    let m2 = crate::stage::lemma_create(m1, steps[1], 0, Layout::Val, Scalar::F64, 0, table1);
    crate::stage::lemma_asks_more(m, 0, list0, Ask::Make(table1));
    let list1 = list0.push(Ask::Make(table1));
    let sorted1 = Thing::Sorted { of: Box::new(table1), keys: 1, turn: 1 };
    let m3 = crate::stage::lemma_sort(m2, steps[2], 0, 1, 1, table1, sorted1);
    crate::stage::lemma_asks_more(m, 0, list1, Ask::Make(sorted1));
    let list2 = list1.push(Ask::Make(sorted1));
    let m4 = crate::stage::lemma_download(m3, steps[3], 1, 0, Scalar::F64, 1, sorted1);
    crate::stage::lemma_asks_more(
        m,
        0,
        list2,
        Ask::Words { of: sorted1, column: 0, scalar: Scalar::F64 },
    );
    let list3 = list2.push(Ask::Words { of: sorted1, column: 0, scalar: Scalar::F64 });
    let m5 = crate::stage::lemma_look(m4, steps[4]);
    let m6 = crate::stage::lemma_look(m5, steps[5]);
    let m7 = crate::stage::lemma_look(m6, steps[6]);
    let m8 = crate::stage::lemma_look(m7, steps[7]);
    assert(f64_precision_extremes_all_1_asks() == list3);
    m8
}

/// What the device is asked in piece 2 of the part `all` of `test_f64_precision_extremes`.
pub open spec fn f64_precision_extremes_all_2_asks() -> Seq<Ask> {
    seq![Ask::Other(Request::Sync)]
}

/// Piece 2 of the part `all` of `test_f64_precision_extremes` asks what it should.
proof fn lemma_f64_precision_extremes_all_2(m: Moment, steps: Seq<Step>) -> (n: Moment)
    requires
        m.holds(),
        m.at == 0 + 8,
        m.used == 3,
        0 + 10 <= m.plan.steps.len(),
        forall|j: int| 0 <= j < 10 ==> m.plan.steps[0 + j] == #[trigger] steps[j],
        crate::stage::looks(steps[8]),
        crate::stage::demands(steps[9], Request::Sync),
    ensures
        n.holds(),
        n.plan == m.plan,
        n.answers == m.answers,
        n.at == 0 + 10,
        n.used == m.used + 1,
        crate::stage::asks(m.plan, m.answers, 3, f64_precision_extremes_all_2_asks()),
{
    crate::stage::lemma_full(m);
    crate::stage::lemma_asks_none(m, 3);
    let list0 = Seq::<Ask>::empty();
    let m1 = crate::stage::lemma_look(m, steps[8]);
    let m2 = crate::stage::lemma_sync(m1, steps[9]);
    crate::stage::lemma_asks_more(m, 3, list0, Ask::Other(Request::Sync));
    let list1 = list0.push(Ask::Other(Request::Sync));
    assert(f64_precision_extremes_all_2_asks() == list1);
    m2
}

/// The steps of the part `all` of `test_f64_precision_extremes`.
proof fn lemma_f64_precision_extremes_all_steps()
    ensures
        ({
            let steps = crate::categories::c13_floating_point::f64_precision_extremes_steps();
            &&& steps.len() == 10
            &&& crate::stage::fills(steps[0], 0, num(17), entry(Table::Extremes, ix()))
            &&& crate::stage::demands(
                steps[1],
                Request::Create { into: 0, layout: Layout::Val, scalar: Scalar::F64, from: 0 },
            )
            &&& crate::stage::demands(steps[2], Request::Sort { of: 0, keys: 1, into: 1 })
            &&& crate::stage::demands(
                steps[3],
                Request::Download { of: 1, column: 0, scalar: Scalar::F64, into: 1 },
            )
            &&& crate::stage::looks(steps[4])
            &&& crate::stage::looks(steps[5])
            &&& crate::stage::looks(steps[6])
            &&& crate::stage::looks(steps[7])
            &&& crate::stage::looks(steps[8])
            &&& crate::stage::demands(steps[9], Request::Sync)
        }),
{
}

/// In a run of `test_f64_precision_extremes` that passes the device is asked this, in this order,
/// and nothing else: each request about what an earlier one made is about that, and about what was
/// uploaded for it.
pub proof fn law_f64_precision_extremes_asks_about_what_it_made(answers: Seq<Answer>)
    requires
        crate::stage::passes(
            crate::script::plan(
                "test_f64_precision_extremes",
                crate::categories::c13_floating_point::f64_precision_extremes_steps(),
            ),
            answers,
        ),
    ensures
        crate::stage::asks(
            crate::script::plan(
                "test_f64_precision_extremes",
                crate::categories::c13_floating_point::f64_precision_extremes_steps(),
            ),
            answers,
            0,
            f64_precision_extremes_all_1_asks(),
        ),
        crate::stage::asks(
            crate::script::plan(
                "test_f64_precision_extremes",
                crate::categories::c13_floating_point::f64_precision_extremes_steps(),
            ),
            answers,
            3,
            f64_precision_extremes_all_2_asks(),
        ),
        crate::stage::asked(
            crate::script::plan(
                "test_f64_precision_extremes",
                crate::categories::c13_floating_point::f64_precision_extremes_steps(),
            ),
            answers,
            4,
        ) is None,
{
    let plan = crate::script::plan(
        "test_f64_precision_extremes",
        crate::categories::c13_floating_point::f64_precision_extremes_steps(),
    );
    let part1 = crate::categories::c13_floating_point::f64_precision_extremes_steps();
    lemma_f64_precision_extremes_all_steps();
    let whole1 = part1;
    assert(plan.steps == whole1);
    let m0 = crate::stage::lemma_start(plan, answers);
    assert forall|j: int| 0 <= j < 10 implies plan.steps[0 + j] == #[trigger] part1[j] by {}
    let m1 = lemma_f64_precision_extremes_all_1(m0, part1);
    let m2 = lemma_f64_precision_extremes_all_2(m1, part1);
    crate::stage::lemma_end(m2);
}

} // verus!
