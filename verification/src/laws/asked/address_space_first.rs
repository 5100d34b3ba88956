//! What these tests ask the device in runs that pass: `test_global_u32_correctness`,
//! `test_global_u64_correctness`, `test_global_i64_correctness`.

use vstd::prelude::*;
use crate::expr::{entry, ix, num};
use crate::machine::Answer;
use crate::scalar::Scalar;
use crate::script::{Layout, Request, Step};
use crate::stage::{Ask, Moment, Thing};
use crate::tables::Table;

verus! {

/// What the device is asked in piece 1 of the part `all` of `test_global_u32_correctness`.
pub open spec fn global_u32_correctness_all_1_asks() -> Seq<Ask> {
    let words1 = crate::stage::column(
        16,
        |i: int| crate::tables::words_of(Table::GlobalU32)[i] as int,
    );
    let table1 = Thing::Table {
        layout: Layout::Val,
        scalar: Scalar::U32,
        columns: seq![words1],
        turn: 0,
    };
    let sorted1 = Thing::Sorted { of: Box::new(table1), keys: 1, turn: 1 };
    seq![
        Ask::Make(table1),
        Ask::Make(sorted1),
        Ask::Rows(sorted1),
        Ask::Words { of: sorted1, column: 0, scalar: Scalar::U32 },
    ]
}

/// Piece 1 of the part `all` of `test_global_u32_correctness` asks what it should.
proof fn lemma_global_u32_correctness_all_1(m: Moment, steps: Seq<Step>) -> (n: Moment)
    requires
        m.holds(),
        m.at == 0,
        m.used == 0,
        0 + 9 <= m.plan.steps.len(),
        forall|j: int| 0 <= j < 9 ==> m.plan.steps[0 + j] == #[trigger] steps[j],
        crate::stage::fills(steps[0], 0, num(16), entry(Table::GlobalU32, ix())),
        crate::stage::demands(
            steps[1],
            Request::Create { into: 0, layout: Layout::Val, scalar: Scalar::U32, from: 0 },
        ),
        crate::stage::demands(steps[2], Request::Sort { of: 0, keys: 1, into: 1 }),
        crate::stage::counts(steps[3], 1),
        crate::stage::demands(
            steps[4],
            Request::Download { of: 1, column: 0, scalar: Scalar::U32, into: 1 },
        ),
        crate::stage::looks(steps[5]),
        crate::stage::works(steps[6], 2),
        crate::stage::looks(steps[7]),
    ensures
        n.holds(),
        n.plan == m.plan,
        n.answers == m.answers,
        n.at == 0 + 8,
        n.used == m.used + 4,
        crate::stage::asks(m.plan, m.answers, 0, global_u32_correctness_all_1_asks()),
{
    crate::stage::lemma_full(m);
    crate::stage::lemma_asks_none(m, 0);
    let list0 = Seq::<Ask>::empty();
    let words1 = crate::stage::column(
        16,
        |i: int| crate::tables::words_of(Table::GlobalU32)[i] as int,
    );
    crate::stage::lemma_entry_of(Table::GlobalU32);
    let word1 = entry(Table::GlobalU32, ix());
    assert forall|i: int| 0 <= i < words1.len() implies crate::stage::meaning(
        word1,
        m.contents,
        i,
    ) as u64 == #[trigger] words1[i] by {
        reveal_with_fuel(crate::stage::meaning, 2);
    }
    let m1 = crate::stage::lemma_filled(m, steps[0], 0, num(16), word1, words1);
    let table1 = Thing::Table {
        layout: Layout::Val,
        scalar: Scalar::U32,
        columns: seq![words1],
        turn: 0,
    };
    let m2 = crate::stage::lemma_create(m1, steps[1], 0, Layout::Val, Scalar::U32, 0, table1);
    crate::stage::lemma_asks_more(m, 0, list0, Ask::Make(table1));
    let list1 = list0.push(Ask::Make(table1));
    let sorted1 = Thing::Sorted { of: Box::new(table1), keys: 1, turn: 1 };
    let m3 = crate::stage::lemma_sort(m2, steps[2], 0, 1, 1, table1, sorted1);
    crate::stage::lemma_asks_more(m, 0, list1, Ask::Make(sorted1));
    let list2 = list1.push(Ask::Make(sorted1));
    let m4 = crate::stage::lemma_count(m3, steps[3], 1, sorted1);
    crate::stage::lemma_asks_more(m, 0, list2, Ask::Rows(sorted1));
    let list3 = list2.push(Ask::Rows(sorted1));
    let m5 = crate::stage::lemma_download(m4, steps[4], 1, 0, Scalar::U32, 1, sorted1);
    crate::stage::lemma_asks_more(
        m,
        0,
        list3,
        Ask::Words { of: sorted1, column: 0, scalar: Scalar::U32 },
    );
    let list4 = list3.push(Ask::Words { of: sorted1, column: 0, scalar: Scalar::U32 });
    let m6 = crate::stage::lemma_look(m5, steps[5]);
    let m7 = crate::stage::lemma_work(m6, steps[6], 2);
    let m8 = crate::stage::lemma_look(m7, steps[7]);
    assert(global_u32_correctness_all_1_asks() == list4);
    m8
}

/// What the device is asked in piece 2 of the part `all` of `test_global_u32_correctness`.
pub open spec fn global_u32_correctness_all_2_asks() -> Seq<Ask> {
    seq![Ask::Other(Request::Sync)]
}

/// Piece 2 of the part `all` of `test_global_u32_correctness` asks what it should.
proof fn lemma_global_u32_correctness_all_2(m: Moment, steps: Seq<Step>) -> (n: Moment)
    requires
        m.holds(),
        m.at == 0 + 8,
        m.used == 4,
        0 + 9 <= m.plan.steps.len(),
        forall|j: int| 0 <= j < 9 ==> m.plan.steps[0 + j] == #[trigger] steps[j],
        crate::stage::demands(steps[8], Request::Sync),
    ensures
        n.holds(),
        n.plan == m.plan,
        n.answers == m.answers,
        n.at == 0 + 9,
        n.used == m.used + 1,
        crate::stage::asks(m.plan, m.answers, 4, global_u32_correctness_all_2_asks()),
{
    crate::stage::lemma_full(m);
    crate::stage::lemma_asks_none(m, 4);
    let list0 = Seq::<Ask>::empty();
    let m1 = crate::stage::lemma_sync(m, steps[8]);
    crate::stage::lemma_asks_more(m, 4, list0, Ask::Other(Request::Sync));
    let list1 = list0.push(Ask::Other(Request::Sync));
    assert(global_u32_correctness_all_2_asks() == list1);
    m1
}

/// The steps of the part `all` of `test_global_u32_correctness`.
proof fn lemma_global_u32_correctness_all_steps()
    ensures
        ({
            let steps = crate::categories::c04_address_space::global_u32_correctness_steps();
            &&& steps.len() == 9
            &&& crate::stage::fills(steps[0], 0, num(16), entry(Table::GlobalU32, ix()))
            &&& crate::stage::demands(
                steps[1],
                Request::Create { into: 0, layout: Layout::Val, scalar: Scalar::U32, from: 0 },
            )
            &&& crate::stage::demands(steps[2], Request::Sort { of: 0, keys: 1, into: 1 })
            &&& crate::stage::counts(steps[3], 1)
            &&& crate::stage::demands(
                steps[4],
                Request::Download { of: 1, column: 0, scalar: Scalar::U32, into: 1 },
            )
            &&& crate::stage::looks(steps[5])
            &&& crate::stage::works(steps[6], 2)
            &&& crate::stage::looks(steps[7])
            &&& crate::stage::demands(steps[8], Request::Sync)
        }),
{
}

/// In a run of `test_global_u32_correctness` that passes the device is asked this, in this order,
/// and nothing else: each request about what an earlier one made is about that, and about what was
/// uploaded for it.
pub proof fn law_global_u32_correctness_asks_about_what_it_made(answers: Seq<Answer>)
    requires
        crate::stage::passes(
            crate::script::plan(
                "test_global_u32_correctness",
                crate::categories::c04_address_space::global_u32_correctness_steps(),
            ),
            answers,
        ),
    ensures
        crate::stage::asks(
            crate::script::plan(
                "test_global_u32_correctness",
                crate::categories::c04_address_space::global_u32_correctness_steps(),
            ),
            answers,
            0,
            global_u32_correctness_all_1_asks(),
        ),
        crate::stage::asks(
            crate::script::plan(
                "test_global_u32_correctness",
                crate::categories::c04_address_space::global_u32_correctness_steps(),
            ),
            answers,
            4,
            global_u32_correctness_all_2_asks(),
        ),
        crate::stage::asked(
            crate::script::plan(
                "test_global_u32_correctness",
                crate::categories::c04_address_space::global_u32_correctness_steps(),
            ),
            answers,
            5,
        ) is None,
{
    let plan = crate::script::plan(
        "test_global_u32_correctness",
        crate::categories::c04_address_space::global_u32_correctness_steps(),
    );
    let part1 = crate::categories::c04_address_space::global_u32_correctness_steps();
    lemma_global_u32_correctness_all_steps();
    let whole1 = part1;
    assert(plan.steps == whole1);
    let m0 = crate::stage::lemma_start(plan, answers);
    assert forall|j: int| 0 <= j < 9 implies plan.steps[0 + j] == #[trigger] part1[j] by {}
    let m1 = lemma_global_u32_correctness_all_1(m0, part1);
    let m2 = lemma_global_u32_correctness_all_2(m1, part1);
    crate::stage::lemma_end(m2);
}

/// What the device is asked in piece 1 of the part `all` of `test_global_u64_correctness`.
pub open spec fn global_u64_correctness_all_1_asks() -> Seq<Ask> {
    let words1 = crate::stage::column(
        13,
        |i: int| crate::tables::words_of(Table::GlobalU64)[i] as int,
    );
    let table1 = Thing::Table {
        layout: Layout::Val,
        scalar: Scalar::U64,
        columns: seq![words1],
        turn: 0,
    };
    let sorted1 = Thing::Sorted { of: Box::new(table1), keys: 1, turn: 1 };
    seq![
        Ask::Make(table1),
        Ask::Make(sorted1),
        Ask::Rows(sorted1),
        Ask::Words { of: sorted1, column: 0, scalar: Scalar::U64 },
    ]
}

/// Piece 1 of the part `all` of `test_global_u64_correctness` asks what it should.
proof fn lemma_global_u64_correctness_all_1(m: Moment, steps: Seq<Step>) -> (n: Moment)
    requires
        m.holds(),
        m.at == 0,
        m.used == 0,
        0 + 10 <= m.plan.steps.len(),
        forall|j: int| 0 <= j < 10 ==> m.plan.steps[0 + j] == #[trigger] steps[j],
        crate::stage::fills(steps[0], 0, num(13), entry(Table::GlobalU64, ix())),
        crate::stage::demands(
            steps[1],
            Request::Create { into: 0, layout: Layout::Val, scalar: Scalar::U64, from: 0 },
        ),
        crate::stage::demands(steps[2], Request::Sort { of: 0, keys: 1, into: 1 }),
        crate::stage::counts(steps[3], 1),
        crate::stage::demands(
            steps[4],
            Request::Download { of: 1, column: 0, scalar: Scalar::U64, into: 1 },
        ),
        crate::stage::looks(steps[5]),
        crate::stage::works(steps[6], 2),
        crate::stage::looks(steps[7]),
    ensures
        n.holds(),
        n.plan == m.plan,
        n.answers == m.answers,
        n.at == 0 + 8,
        n.used == m.used + 4,
        crate::stage::asks(m.plan, m.answers, 0, global_u64_correctness_all_1_asks()),
{
    crate::stage::lemma_full(m);
    crate::stage::lemma_asks_none(m, 0);
    let list0 = Seq::<Ask>::empty();
    let words1 = crate::stage::column(
        13,
        |i: int| crate::tables::words_of(Table::GlobalU64)[i] as int,
    );
    crate::stage::lemma_entry_of(Table::GlobalU64);
    let word1 = entry(Table::GlobalU64, ix());
    assert forall|i: int| 0 <= i < words1.len() implies crate::stage::meaning(
        word1,
        m.contents,
        i,
    ) as u64 == #[trigger] words1[i] by {
        reveal_with_fuel(crate::stage::meaning, 2);
    }
    let m1 = crate::stage::lemma_filled(m, steps[0], 0, num(13), word1, words1);
    let table1 = Thing::Table {
        layout: Layout::Val,
        scalar: Scalar::U64,
        columns: seq![words1],
        turn: 0,
    };
    let m2 = crate::stage::lemma_create(m1, steps[1], 0, Layout::Val, Scalar::U64, 0, table1);
    crate::stage::lemma_asks_more(m, 0, list0, Ask::Make(table1));
    let list1 = list0.push(Ask::Make(table1));
    let sorted1 = Thing::Sorted { of: Box::new(table1), keys: 1, turn: 1 };
    let m3 = crate::stage::lemma_sort(m2, steps[2], 0, 1, 1, table1, sorted1);
    crate::stage::lemma_asks_more(m, 0, list1, Ask::Make(sorted1));
    let list2 = list1.push(Ask::Make(sorted1));
    let m4 = crate::stage::lemma_count(m3, steps[3], 1, sorted1);
    crate::stage::lemma_asks_more(m, 0, list2, Ask::Rows(sorted1));
    let list3 = list2.push(Ask::Rows(sorted1));
    let m5 = crate::stage::lemma_download(m4, steps[4], 1, 0, Scalar::U64, 1, sorted1);
    crate::stage::lemma_asks_more(
        m,
        0,
        list3,
        Ask::Words { of: sorted1, column: 0, scalar: Scalar::U64 },
    );
    let list4 = list3.push(Ask::Words { of: sorted1, column: 0, scalar: Scalar::U64 });
    let m6 = crate::stage::lemma_look(m5, steps[5]);
    let m7 = crate::stage::lemma_work(m6, steps[6], 2);
    let m8 = crate::stage::lemma_look(m7, steps[7]);
    assert(global_u64_correctness_all_1_asks() == list4);
    m8
}

/// What the device is asked in piece 2 of the part `all` of `test_global_u64_correctness`.
pub open spec fn global_u64_correctness_all_2_asks() -> Seq<Ask> {
    seq![Ask::Other(Request::Sync)]
}

/// Piece 2 of the part `all` of `test_global_u64_correctness` asks what it should.
proof fn lemma_global_u64_correctness_all_2(m: Moment, steps: Seq<Step>) -> (n: Moment)
    requires
        m.holds(),
        m.at == 0 + 8,
        m.used == 4,
        0 + 10 <= m.plan.steps.len(),
        forall|j: int| 0 <= j < 10 ==> m.plan.steps[0 + j] == #[trigger] steps[j],
        crate::stage::looks(steps[8]),
        crate::stage::demands(steps[9], Request::Sync),
    ensures
        n.holds(),
        n.plan == m.plan,
        n.answers == m.answers,
        n.at == 0 + 10,
        n.used == m.used + 1,
        crate::stage::asks(m.plan, m.answers, 4, global_u64_correctness_all_2_asks()),
{
    crate::stage::lemma_full(m);
    crate::stage::lemma_asks_none(m, 4);
    let list0 = Seq::<Ask>::empty();
    let m1 = crate::stage::lemma_look(m, steps[8]);
    let m2 = crate::stage::lemma_sync(m1, steps[9]);
    crate::stage::lemma_asks_more(m, 4, list0, Ask::Other(Request::Sync));
    let list1 = list0.push(Ask::Other(Request::Sync));
    assert(global_u64_correctness_all_2_asks() == list1);
    m2
}

/// The steps of the part `all` of `test_global_u64_correctness`.
proof fn lemma_global_u64_correctness_all_steps()
    ensures
        ({
            let steps = crate::categories::c04_address_space::global_u64_correctness_steps();
            &&& steps.len() == 10
            &&& crate::stage::fills(steps[0], 0, num(13), entry(Table::GlobalU64, ix()))
            &&& crate::stage::demands(
                steps[1],
                Request::Create { into: 0, layout: Layout::Val, scalar: Scalar::U64, from: 0 },
            )
            &&& crate::stage::demands(steps[2], Request::Sort { of: 0, keys: 1, into: 1 })
            &&& crate::stage::counts(steps[3], 1)
            &&& crate::stage::demands(
                steps[4],
                Request::Download { of: 1, column: 0, scalar: Scalar::U64, into: 1 },
            )
            &&& crate::stage::looks(steps[5])
            &&& crate::stage::works(steps[6], 2)
            &&& crate::stage::looks(steps[7])
            &&& crate::stage::looks(steps[8])
            &&& crate::stage::demands(steps[9], Request::Sync)
        }),
{
}

/// In a run of `test_global_u64_correctness` that passes the device is asked this, in this order,
/// and nothing else: each request about what an earlier one made is about that, and about what was
/// uploaded for it.
pub proof fn law_global_u64_correctness_asks_about_what_it_made(answers: Seq<Answer>)
    requires
        crate::stage::passes(
            crate::script::plan(
                "test_global_u64_correctness",
                crate::categories::c04_address_space::global_u64_correctness_steps(),
            ),
            answers,
        ),
    ensures
        crate::stage::asks(
            crate::script::plan(
                "test_global_u64_correctness",
                crate::categories::c04_address_space::global_u64_correctness_steps(),
            ),
            answers,
            0,
            global_u64_correctness_all_1_asks(),
        ),
        crate::stage::asks(
            crate::script::plan(
                "test_global_u64_correctness",
                crate::categories::c04_address_space::global_u64_correctness_steps(),
            ),
            answers,
            4,
            global_u64_correctness_all_2_asks(),
        ),
        crate::stage::asked(
            crate::script::plan(
                "test_global_u64_correctness",
                crate::categories::c04_address_space::global_u64_correctness_steps(),
            ),
            answers,
            5,
        ) is None,
{
    let plan = crate::script::plan(
        "test_global_u64_correctness",
        crate::categories::c04_address_space::global_u64_correctness_steps(),
    );
    let part1 = crate::categories::c04_address_space::global_u64_correctness_steps();
    lemma_global_u64_correctness_all_steps();
    let whole1 = part1;
    assert(plan.steps == whole1);
    let m0 = crate::stage::lemma_start(plan, answers);
    assert forall|j: int| 0 <= j < 10 implies plan.steps[0 + j] == #[trigger] part1[j] by {}
    let m1 = lemma_global_u64_correctness_all_1(m0, part1);
    let m2 = lemma_global_u64_correctness_all_2(m1, part1);
    crate::stage::lemma_end(m2);
}

/// What the device is asked in piece 1 of the part `all` of `test_global_i64_correctness`.
pub open spec fn global_i64_correctness_all_1_asks() -> Seq<Ask> {
    let words1 = crate::stage::column(
        15,
        |i: int| crate::tables::words_of(Table::GlobalI64)[i] as int,
    );
    let table1 = Thing::Table {
        layout: Layout::Val,
        scalar: Scalar::I64,
        columns: seq![words1],
        turn: 0,
    };
    let sorted1 = Thing::Sorted { of: Box::new(table1), keys: 1, turn: 1 };
    seq![
        Ask::Make(table1),
        Ask::Make(sorted1),
        Ask::Rows(sorted1),
        Ask::Words { of: sorted1, column: 0, scalar: Scalar::I64 },
    ]
}

/// Piece 1 of the part `all` of `test_global_i64_correctness` asks what it should.
proof fn lemma_global_i64_correctness_all_1(m: Moment, steps: Seq<Step>) -> (n: Moment)
    requires
        m.holds(),
        m.at == 0,
        m.used == 0,
        0 + 11 <= m.plan.steps.len(),
        forall|j: int| 0 <= j < 11 ==> m.plan.steps[0 + j] == #[trigger] steps[j],
        crate::stage::fills(steps[0], 0, num(15), entry(Table::GlobalI64, ix())),
        crate::stage::demands(
            steps[1],
            Request::Create { into: 0, layout: Layout::Val, scalar: Scalar::I64, from: 0 },
        ),
        crate::stage::demands(steps[2], Request::Sort { of: 0, keys: 1, into: 1 }),
        crate::stage::counts(steps[3], 1),
        crate::stage::demands(
            steps[4],
            Request::Download { of: 1, column: 0, scalar: Scalar::I64, into: 1 },
        ),
        crate::stage::looks(steps[5]),
        crate::stage::works(steps[6], 2),
        crate::stage::looks(steps[7]),
    ensures
        n.holds(),
        n.plan == m.plan,
        n.answers == m.answers,
        n.at == 0 + 8,
        n.used == m.used + 4,
        crate::stage::asks(m.plan, m.answers, 0, global_i64_correctness_all_1_asks()),
{
    crate::stage::lemma_full(m);
    crate::stage::lemma_asks_none(m, 0);
    let list0 = Seq::<Ask>::empty();
    let words1 = crate::stage::column(
        15,
        |i: int| crate::tables::words_of(Table::GlobalI64)[i] as int,
    );
    crate::stage::lemma_entry_of(Table::GlobalI64);
    let word1 = entry(Table::GlobalI64, ix());
    assert forall|i: int| 0 <= i < words1.len() implies crate::stage::meaning(
        word1,
        m.contents,
        i,
    ) as u64 == #[trigger] words1[i] by {
        reveal_with_fuel(crate::stage::meaning, 2);
    }
    let m1 = crate::stage::lemma_filled(m, steps[0], 0, num(15), word1, words1);
    let table1 = Thing::Table {
        layout: Layout::Val,
        scalar: Scalar::I64,
        columns: seq![words1],
        turn: 0,
    };
    let m2 = crate::stage::lemma_create(m1, steps[1], 0, Layout::Val, Scalar::I64, 0, table1);
    crate::stage::lemma_asks_more(m, 0, list0, Ask::Make(table1));
    let list1 = list0.push(Ask::Make(table1));
    let sorted1 = Thing::Sorted { of: Box::new(table1), keys: 1, turn: 1 };
    let m3 = crate::stage::lemma_sort(m2, steps[2], 0, 1, 1, table1, sorted1);
    crate::stage::lemma_asks_more(m, 0, list1, Ask::Make(sorted1));
    let list2 = list1.push(Ask::Make(sorted1));
    let m4 = crate::stage::lemma_count(m3, steps[3], 1, sorted1);
    crate::stage::lemma_asks_more(m, 0, list2, Ask::Rows(sorted1));
    let list3 = list2.push(Ask::Rows(sorted1));
    let m5 = crate::stage::lemma_download(m4, steps[4], 1, 0, Scalar::I64, 1, sorted1);
    crate::stage::lemma_asks_more(
        m,
        0,
        list3,
        Ask::Words { of: sorted1, column: 0, scalar: Scalar::I64 },
    );
    let list4 = list3.push(Ask::Words { of: sorted1, column: 0, scalar: Scalar::I64 });
    let m6 = crate::stage::lemma_look(m5, steps[5]);
    let m7 = crate::stage::lemma_work(m6, steps[6], 2);
    let m8 = crate::stage::lemma_look(m7, steps[7]);
    assert(global_i64_correctness_all_1_asks() == list4);
    m8
}

/// What the device is asked in piece 2 of the part `all` of `test_global_i64_correctness`.
pub open spec fn global_i64_correctness_all_2_asks() -> Seq<Ask> {
    seq![Ask::Other(Request::Sync)]
}

/// Piece 2 of the part `all` of `test_global_i64_correctness` asks what it should.
proof fn lemma_global_i64_correctness_all_2(m: Moment, steps: Seq<Step>) -> (n: Moment)
    requires
        m.holds(),
        m.at == 0 + 8,
        m.used == 4,
        0 + 11 <= m.plan.steps.len(),
        forall|j: int| 0 <= j < 11 ==> m.plan.steps[0 + j] == #[trigger] steps[j],
        crate::stage::looks(steps[8]),
        crate::stage::looks(steps[9]),
        crate::stage::demands(steps[10], Request::Sync),
    ensures
        n.holds(),
        n.plan == m.plan,
        n.answers == m.answers,
        n.at == 0 + 11,
        n.used == m.used + 1,
        crate::stage::asks(m.plan, m.answers, 4, global_i64_correctness_all_2_asks()),
{
    crate::stage::lemma_full(m);
    crate::stage::lemma_asks_none(m, 4);
    let list0 = Seq::<Ask>::empty();
    let m1 = crate::stage::lemma_look(m, steps[8]);
    let m2 = crate::stage::lemma_look(m1, steps[9]);
    let m3 = crate::stage::lemma_sync(m2, steps[10]);
    crate::stage::lemma_asks_more(m, 4, list0, Ask::Other(Request::Sync));
    let list1 = list0.push(Ask::Other(Request::Sync));
    assert(global_i64_correctness_all_2_asks() == list1);
    m3
}

/// The steps of the part `all` of `test_global_i64_correctness`.
proof fn lemma_global_i64_correctness_all_steps()
    ensures
        ({
            let steps = crate::categories::c04_address_space::global_i64_correctness_steps();
            &&& steps.len() == 11
            &&& crate::stage::fills(steps[0], 0, num(15), entry(Table::GlobalI64, ix()))
            &&& crate::stage::demands(
                steps[1],
                Request::Create { into: 0, layout: Layout::Val, scalar: Scalar::I64, from: 0 },
            )
            &&& crate::stage::demands(steps[2], Request::Sort { of: 0, keys: 1, into: 1 })
            &&& crate::stage::counts(steps[3], 1)
            &&& crate::stage::demands(
                steps[4],
                Request::Download { of: 1, column: 0, scalar: Scalar::I64, into: 1 },
            )
            &&& crate::stage::looks(steps[5])
            &&& crate::stage::works(steps[6], 2)
            &&& crate::stage::looks(steps[7])
            &&& crate::stage::looks(steps[8])
            &&& crate::stage::looks(steps[9])
            &&& crate::stage::demands(steps[10], Request::Sync)
        }),
{
}

/// In a run of `test_global_i64_correctness` that passes the device is asked this, in this order,
/// and nothing else: each request about what an earlier one made is about that, and about what was
/// uploaded for it.
pub proof fn law_global_i64_correctness_asks_about_what_it_made(answers: Seq<Answer>)
    requires
        crate::stage::passes(
            crate::script::plan(
                "test_global_i64_correctness",
                crate::categories::c04_address_space::global_i64_correctness_steps(),
            ),
            answers,
        ),
    ensures
        crate::stage::asks(
            crate::script::plan(
                "test_global_i64_correctness",
                crate::categories::c04_address_space::global_i64_correctness_steps(),
            ),
            answers,
            0,
            global_i64_correctness_all_1_asks(),
        ),
        crate::stage::asks(
            crate::script::plan(
                "test_global_i64_correctness",
                crate::categories::c04_address_space::global_i64_correctness_steps(),
            ),
            answers,
            4,
            global_i64_correctness_all_2_asks(),
        ),
        crate::stage::asked(
            crate::script::plan(
                "test_global_i64_correctness",
                crate::categories::c04_address_space::global_i64_correctness_steps(),
            ),
            answers,
            5,
        ) is None,
{
    let plan = crate::script::plan(
        "test_global_i64_correctness",
        crate::categories::c04_address_space::global_i64_correctness_steps(),
    );
    let part1 = crate::categories::c04_address_space::global_i64_correctness_steps();
    lemma_global_i64_correctness_all_steps();
    let whole1 = part1;
    assert(plan.steps == whole1);
    let m0 = crate::stage::lemma_start(plan, answers);
    assert forall|j: int| 0 <= j < 11 implies plan.steps[0 + j] == #[trigger] part1[j] by {}
    let m1 = lemma_global_i64_correctness_all_1(m0, part1);
    let m2 = lemma_global_i64_correctness_all_2(m1, part1);
    crate::stage::lemma_end(m2);
}

} // verus!
