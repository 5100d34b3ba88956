//! What these tests ask the device in runs that pass: `test_i64_overflow_boundaries`,
//! `test_u64_overflow_boundaries`, `test_u32_full_range`.

use vstd::prelude::*;
use crate::expr::{entry, here, ix, len, lt, minus, not, num, over, pick, times};
use crate::machine::Answer;
use crate::scalar::Scalar;
use crate::script::{Layout, Request, Step};
use crate::stage::{Ask, Moment, Thing};
use crate::tables::Table;

verus! {

/// A column that is filled in the part `all` of `test_i64_overflow_boundaries`.
pub open spec fn i64_overflow_boundaries_all_words1() -> Seq<u64> {
    crate::stage::column(16, |i: int| crate::tables::words_of(Table::SignedEdges)[i] as int)
}

/// A buffer that is uploaded in the part `all` of `test_i64_overflow_boundaries`.
pub open spec fn i64_overflow_boundaries_all_table1() -> Thing {
    Thing::Table {
        layout: Layout::Val,
        scalar: Scalar::I64,
        columns: seq![i64_overflow_boundaries_all_words1()],
        turn: 0,
    }
}

/// What the device is asked in piece 1 of the part `all` of `test_i64_overflow_boundaries`.
pub open spec fn i64_overflow_boundaries_all_1_asks() -> Seq<Ask> {
    let sorted1 = Thing::Sorted {
        of: Box::new(i64_overflow_boundaries_all_table1()),
        keys: 1,
        turn: 1,
    };
    seq![
        Ask::Make(i64_overflow_boundaries_all_table1()),
        Ask::Make(sorted1),
        Ask::Words { of: sorted1, column: 0, scalar: Scalar::I64 },
    ]
}

/// Piece 1 of the part `all` of `test_i64_overflow_boundaries` asks what it should.
proof fn lemma_i64_overflow_boundaries_all_1(m: Moment, steps: Seq<Step>) -> (n: Moment)
    requires
        m.holds(),
        m.at == 0,
        m.used == 0,
        0 + 15 <= m.plan.steps.len(),
        forall|j: int| 0 <= j < 15 ==> m.plan.steps[0 + j] == #[trigger] steps[j],
        crate::stage::fills(steps[0], 0, num(16), entry(Table::SignedEdges, ix())),
        crate::stage::demands(
            steps[1],
            Request::Create { into: 0, layout: Layout::Val, scalar: Scalar::I64, from: 0 },
        ),
        crate::stage::demands(steps[2], Request::Sort { of: 0, keys: 1, into: 1 }),
        crate::stage::demands(
            steps[3],
            Request::Download { of: 1, column: 0, scalar: Scalar::I64, into: 1 },
        ),
        crate::stage::looks(steps[4]),
        crate::stage::looks(steps[5]),
        crate::stage::looks(steps[6]),
        crate::stage::looks(steps[7]),
    ensures
        n.holds(),
        n.plan == m.plan,
        n.answers == m.answers,
        n.at == 0 + 8,
        n.used == m.used + 3,
        n.contents.columns[0] == i64_overflow_boundaries_all_words1(),
        n.scene.buffer(0) == i64_overflow_boundaries_all_table1(),
        crate::stage::asks(m.plan, m.answers, 0, i64_overflow_boundaries_all_1_asks()),
{
    crate::stage::lemma_full(m);
    crate::stage::lemma_asks_none(m, 0);
    let list0 = Seq::<Ask>::empty();
    let words1 = i64_overflow_boundaries_all_words1();
    crate::stage::lemma_entry_of(Table::SignedEdges);
    let word1 = entry(Table::SignedEdges, ix());
    assert forall|i: int| 0 <= i < words1.len() implies crate::stage::meaning(
        word1,
        m.contents,
        i,
    ) as u64 == #[trigger] words1[i] by {
        reveal_with_fuel(crate::stage::meaning, 2);
    }
    let m1 = crate::stage::lemma_filled(m, steps[0], 0, num(16), word1, words1);
    let m2 = crate::stage::lemma_create(
        m1,
        steps[1],
        0,
        Layout::Val,
        Scalar::I64,
        0,
        i64_overflow_boundaries_all_table1(),
    );
    crate::stage::lemma_asks_more(m, 0, list0, Ask::Make(i64_overflow_boundaries_all_table1()));
    let list1 = list0.push(Ask::Make(i64_overflow_boundaries_all_table1()));
    let sorted1 = Thing::Sorted {
        of: Box::new(i64_overflow_boundaries_all_table1()),
        keys: 1,
        turn: 1,
    };
    let m3 = crate::stage::lemma_sort(
        m2,
        steps[2],
        0,
        1,
        1,
        i64_overflow_boundaries_all_table1(),
        sorted1,
    );
    crate::stage::lemma_asks_more(m, 0, list1, Ask::Make(sorted1));
    let list2 = list1.push(Ask::Make(sorted1));
    let m4 = crate::stage::lemma_download(m3, steps[3], 1, 0, Scalar::I64, 1, sorted1);
    crate::stage::lemma_asks_more(
        m,
        0,
        list2,
        Ask::Words { of: sorted1, column: 0, scalar: Scalar::I64 },
    );
    let list3 = list2.push(Ask::Words { of: sorted1, column: 0, scalar: Scalar::I64 });
    let m5 = crate::stage::lemma_look(m4, steps[4]);
    let m6 = crate::stage::lemma_look(m5, steps[5]);
    let m7 = crate::stage::lemma_look(m6, steps[6]);
    let m8 = crate::stage::lemma_look(m7, steps[7]);
    assert(i64_overflow_boundaries_all_1_asks() == list3);
    m8
}

/// What the device is asked in piece 2 of the part `all` of `test_i64_overflow_boundaries`.
pub open spec fn i64_overflow_boundaries_all_2_asks() -> Seq<Ask> {
    let words2 = crate::stage::column(
        (i64_overflow_boundaries_all_words1().len() as int),
        |i: int| crate::stage::flag(
            !((i64_overflow_boundaries_all_words1()[i] as int) < 0x8000_0000_0000_0000),
        ),
    );
    let kept1 = Thing::Kept {
        of: Box::new(i64_overflow_boundaries_all_table1()),
        mask: words2,
        turn: 3,
    };
    seq![
        Ask::Make(kept1),
        Ask::Words { of: kept1, column: 0, scalar: Scalar::I64 },
        Ask::Other(Request::Sync),
    ]
}

/// Piece 2 of the part `all` of `test_i64_overflow_boundaries` asks what it should.
proof fn lemma_i64_overflow_boundaries_all_2(m: Moment, steps: Seq<Step>) -> (n: Moment)
    requires
        m.holds(),
        m.at == 0 + 8,
        m.used == 3,
        0 + 15 <= m.plan.steps.len(),
        forall|j: int| 0 <= j < 15 ==> m.plan.steps[0 + j] == #[trigger] steps[j],
        crate::stage::looks(steps[8]),
        crate::stage::fills(steps[9], 2, len(0), not(lt(here(0), num(0x8000_0000_0000_0000)))),
        crate::stage::demands(steps[10], Request::Filter { of: 0, mask: 2, into: 2 }),
        crate::stage::demands(
            steps[11],
            Request::Download { of: 2, column: 0, scalar: Scalar::I64, into: 3 },
        ),
        crate::stage::looks(steps[12]),
        crate::stage::looks(steps[13]),
        crate::stage::demands(steps[14], Request::Sync),
        m.contents.columns[0] == i64_overflow_boundaries_all_words1(),
        m.scene.buffer(0) == i64_overflow_boundaries_all_table1(),
    ensures
        n.holds(),
        n.plan == m.plan,
        n.answers == m.answers,
        n.at == 0 + 15,
        n.used == m.used + 3,
        crate::stage::asks(m.plan, m.answers, 3, i64_overflow_boundaries_all_2_asks()),
{
    crate::stage::lemma_full(m);
    crate::stage::lemma_asks_none(m, 3);
    let list0 = Seq::<Ask>::empty();
    let m1 = crate::stage::lemma_look(m, steps[8]);
    let words2 = crate::stage::column(
        (i64_overflow_boundaries_all_words1().len() as int),
        |i: int| crate::stage::flag(
            !((i64_overflow_boundaries_all_words1()[i] as int) < 0x8000_0000_0000_0000),
        ),
    );
    let word2 = not(lt(here(0), num(0x8000_0000_0000_0000)));
    assert forall|i: int| 0 <= i < words2.len() implies crate::stage::meaning(
        word2,
        m1.contents,
        i,
    ) as u64 == #[trigger] words2[i] by {
        reveal_with_fuel(crate::stage::meaning, 5);
    }
    let m2 = crate::stage::lemma_filled(m1, steps[9], 2, len(0), word2, words2);
    let kept1 = Thing::Kept {
        of: Box::new(i64_overflow_boundaries_all_table1()),
        mask: words2,
        turn: 3,
    };
    let m3 = crate::stage::lemma_filter(
        m2,
        steps[10],
        0,
        2,
        2,
        i64_overflow_boundaries_all_table1(),
        words2,
        kept1,
    );
    crate::stage::lemma_asks_more(m, 3, list0, Ask::Make(kept1));
    let list1 = list0.push(Ask::Make(kept1));
    let m4 = crate::stage::lemma_download(m3, steps[11], 2, 0, Scalar::I64, 3, kept1);
    crate::stage::lemma_asks_more(
        m,
        3,
        list1,
        Ask::Words { of: kept1, column: 0, scalar: Scalar::I64 },
    );
    let list2 = list1.push(Ask::Words { of: kept1, column: 0, scalar: Scalar::I64 });
    let m5 = crate::stage::lemma_look(m4, steps[12]);
    let m6 = crate::stage::lemma_look(m5, steps[13]);
    let m7 = crate::stage::lemma_sync(m6, steps[14]);
    crate::stage::lemma_asks_more(m, 3, list2, Ask::Other(Request::Sync));
    let list3 = list2.push(Ask::Other(Request::Sync));
    assert(i64_overflow_boundaries_all_2_asks() == list3);
    m7
}

/// The steps of the part `all` of `test_i64_overflow_boundaries`.
proof fn lemma_i64_overflow_boundaries_all_steps()
    ensures
        ({
            let steps = crate::categories::c14_integer::i64_overflow_boundaries_steps();
            &&& steps.len() == 15
            &&& crate::stage::fills(steps[0], 0, num(16), entry(Table::SignedEdges, ix()))
            &&& crate::stage::demands(
                steps[1],
                Request::Create { into: 0, layout: Layout::Val, scalar: Scalar::I64, from: 0 },
            )
            &&& crate::stage::demands(steps[2], Request::Sort { of: 0, keys: 1, into: 1 })
            &&& crate::stage::demands(
                steps[3],
                Request::Download { of: 1, column: 0, scalar: Scalar::I64, into: 1 },
            )
            &&& crate::stage::looks(steps[4])
            &&& crate::stage::looks(steps[5])
            &&& crate::stage::looks(steps[6])
            &&& crate::stage::looks(steps[7])
            &&& crate::stage::looks(steps[8])
            &&& crate::stage::fills(
                steps[9],
                2,
                len(0),
                not(lt(here(0), num(0x8000_0000_0000_0000))),
            )
            &&& crate::stage::demands(steps[10], Request::Filter { of: 0, mask: 2, into: 2 })
            &&& crate::stage::demands(
                steps[11],
                Request::Download { of: 2, column: 0, scalar: Scalar::I64, into: 3 },
            )
            &&& crate::stage::looks(steps[12])
            &&& crate::stage::looks(steps[13])
            &&& crate::stage::demands(steps[14], Request::Sync)
        }),
{
}

/// In a run of `test_i64_overflow_boundaries` that passes the device is asked this, in this order,
/// and nothing else: each request about what an earlier one made is about that, and about what was
/// uploaded for it.
pub proof fn law_i64_overflow_boundaries_asks_about_what_it_made(answers: Seq<Answer>)
    requires
        crate::stage::passes(
            crate::script::plan(
                "test_i64_overflow_boundaries",
                crate::categories::c14_integer::i64_overflow_boundaries_steps(),
            ),
            answers,
        ),
    ensures
        crate::stage::asks(
            crate::script::plan(
                "test_i64_overflow_boundaries",
                crate::categories::c14_integer::i64_overflow_boundaries_steps(),
            ),
            answers,
            0,
            i64_overflow_boundaries_all_1_asks(),
        ),
        crate::stage::asks(
            crate::script::plan(
                "test_i64_overflow_boundaries",
                crate::categories::c14_integer::i64_overflow_boundaries_steps(),
            ),
            answers,
            3,
            i64_overflow_boundaries_all_2_asks(),
        ),
        crate::stage::asked(
            crate::script::plan(
                "test_i64_overflow_boundaries",
                crate::categories::c14_integer::i64_overflow_boundaries_steps(),
            ),
            answers,
            6,
        ) is None,
{
    let plan = crate::script::plan(
        "test_i64_overflow_boundaries",
        crate::categories::c14_integer::i64_overflow_boundaries_steps(),
    );
    let part1 = crate::categories::c14_integer::i64_overflow_boundaries_steps();
    lemma_i64_overflow_boundaries_all_steps();
    let whole1 = part1;
    assert(plan.steps == whole1);
    let m0 = crate::stage::lemma_start(plan, answers);
    assert forall|j: int| 0 <= j < 15 implies plan.steps[0 + j] == #[trigger] part1[j] by {}
    let m1 = lemma_i64_overflow_boundaries_all_1(m0, part1);
    let m2 = lemma_i64_overflow_boundaries_all_2(m1, part1);
    crate::stage::lemma_end(m2);
}

/// What the device is asked in piece 1 of the part `all` of `test_u64_overflow_boundaries`.
pub open spec fn u64_overflow_boundaries_all_1_asks() -> Seq<Ask> {
    let words1 = crate::stage::column(
        16,
        |i: int| crate::tables::words_of(Table::UnsignedEdges)[i] as int,
    );
    let table1 = Thing::Table {
        layout: Layout::Val,
        scalar: Scalar::U64,
        columns: seq![words1],
        turn: 0,
    };
    let sorted1 = Thing::Sorted { of: Box::new(table1), keys: 1, turn: 1 };
    seq![
        Ask::Make(table1),
        Ask::Make(sorted1),
        Ask::Words { of: sorted1, column: 0, scalar: Scalar::U64 },
    ]
}

/// Piece 1 of the part `all` of `test_u64_overflow_boundaries` asks what it should.
proof fn lemma_u64_overflow_boundaries_all_1(m: Moment, steps: Seq<Step>) -> (n: Moment)
    requires
        m.holds(),
        m.at == 0,
        m.used == 0,
        0 + 13 <= m.plan.steps.len(),
        forall|j: int| 0 <= j < 13 ==> m.plan.steps[0 + j] == #[trigger] steps[j],
        crate::stage::fills(steps[0], 0, num(16), entry(Table::UnsignedEdges, ix())),
        crate::stage::demands(
            steps[1],
            Request::Create { into: 0, layout: Layout::Val, scalar: Scalar::U64, from: 0 },
        ),
        crate::stage::demands(steps[2], Request::Sort { of: 0, keys: 1, into: 1 }),
        crate::stage::demands(
            steps[3],
            Request::Download { of: 1, column: 0, scalar: Scalar::U64, into: 1 },
        ),
        crate::stage::looks(steps[4]),
        crate::stage::looks(steps[5]),
        crate::stage::looks(steps[6]),
        crate::stage::looks(steps[7]),
    ensures
        n.holds(),
        n.plan == m.plan,
        n.answers == m.answers,
        n.at == 0 + 8,
        n.used == m.used + 3,
        crate::stage::asks(m.plan, m.answers, 0, u64_overflow_boundaries_all_1_asks()),
{
    crate::stage::lemma_full(m);
    crate::stage::lemma_asks_none(m, 0);
    let list0 = Seq::<Ask>::empty();
    let words1 = crate::stage::column(
        16,
        |i: int| crate::tables::words_of(Table::UnsignedEdges)[i] as int,
    );
    crate::stage::lemma_entry_of(Table::UnsignedEdges);
    let word1 = entry(Table::UnsignedEdges, ix());
    assert forall|i: int| 0 <= i < words1.len() implies crate::stage::meaning(
        word1,
        m.contents,
        i,
    ) as u64 == #[trigger] words1[i] by {
        reveal_with_fuel(crate::stage::meaning, 2);
    }
    let m1 = crate::stage::lemma_filled(m, steps[0], 0, num(16), word1, words1);
    let table1 = Thing::Table {
        layout: Layout::Val,
        scalar: Scalar::U64,
        columns: seq![words1],
        turn: 0,
    };
    let m2 = crate::stage::lemma_create(m1, steps[1], 0, Layout::Val, Scalar::U64, 0, table1);
    crate::stage::lemma_asks_more(m, 0, list0, Ask::Make(table1));
    let list1 = list0.push(Ask::Make(table1));
    let sorted1 = Thing::Sorted { of: Box::new(table1), keys: 1, turn: 1 };
    let m3 = crate::stage::lemma_sort(m2, steps[2], 0, 1, 1, table1, sorted1);
    crate::stage::lemma_asks_more(m, 0, list1, Ask::Make(sorted1));
    let list2 = list1.push(Ask::Make(sorted1));
    let m4 = crate::stage::lemma_download(m3, steps[3], 1, 0, Scalar::U64, 1, sorted1);
    crate::stage::lemma_asks_more(
        m,
        0,
        list2,
        Ask::Words { of: sorted1, column: 0, scalar: Scalar::U64 },
    );
    let list3 = list2.push(Ask::Words { of: sorted1, column: 0, scalar: Scalar::U64 });
    let m5 = crate::stage::lemma_look(m4, steps[4]);
    let m6 = crate::stage::lemma_look(m5, steps[5]);
    let m7 = crate::stage::lemma_look(m6, steps[6]);
    let m8 = crate::stage::lemma_look(m7, steps[7]);
    assert(u64_overflow_boundaries_all_1_asks() == list3);
    m8
}

/// What the device is asked in piece 2 of the part `all` of `test_u64_overflow_boundaries`.
pub open spec fn u64_overflow_boundaries_all_2_asks() -> Seq<Ask> {
    seq![Ask::Other(Request::Sync)]
}

/// Piece 2 of the part `all` of `test_u64_overflow_boundaries` asks what it should.
proof fn lemma_u64_overflow_boundaries_all_2(m: Moment, steps: Seq<Step>) -> (n: Moment)
    requires
        m.holds(),
        m.at == 0 + 8,
        m.used == 3,
        0 + 13 <= m.plan.steps.len(),
        forall|j: int| 0 <= j < 13 ==> m.plan.steps[0 + j] == #[trigger] steps[j],
        crate::stage::looks(steps[8]),
        crate::stage::works(steps[9], 2),
        crate::stage::reckons(steps[10], 0),
        crate::stage::looks(steps[11]),
        crate::stage::demands(steps[12], Request::Sync),
    ensures
        n.holds(),
        n.plan == m.plan,
        n.answers == m.answers,
        n.at == 0 + 13,
        n.used == m.used + 1,
        crate::stage::asks(m.plan, m.answers, 3, u64_overflow_boundaries_all_2_asks()),
{
    crate::stage::lemma_full(m);
    crate::stage::lemma_asks_none(m, 3);
    let list0 = Seq::<Ask>::empty();
    let m1 = crate::stage::lemma_look(m, steps[8]);
    let m2 = crate::stage::lemma_work(m1, steps[9], 2);
    let m3 = crate::stage::lemma_reckon(m2, steps[10], 0);
    let m4 = crate::stage::lemma_look(m3, steps[11]);
    let m5 = crate::stage::lemma_sync(m4, steps[12]);
    crate::stage::lemma_asks_more(m, 3, list0, Ask::Other(Request::Sync));
    let list1 = list0.push(Ask::Other(Request::Sync));
    assert(u64_overflow_boundaries_all_2_asks() == list1);
    m5
}

/// The steps of the part `all` of `test_u64_overflow_boundaries`.
proof fn lemma_u64_overflow_boundaries_all_steps()
    ensures
        ({
            let steps = crate::categories::c14_integer::u64_overflow_boundaries_steps();
            &&& steps.len() == 13
            &&& crate::stage::fills(steps[0], 0, num(16), entry(Table::UnsignedEdges, ix()))
            &&& crate::stage::demands(
                steps[1],
                Request::Create { into: 0, layout: Layout::Val, scalar: Scalar::U64, from: 0 },
            )
            &&& crate::stage::demands(steps[2], Request::Sort { of: 0, keys: 1, into: 1 })
            &&& crate::stage::demands(
                steps[3],
                Request::Download { of: 1, column: 0, scalar: Scalar::U64, into: 1 },
            )
            &&& crate::stage::looks(steps[4])
            &&& crate::stage::looks(steps[5])
            &&& crate::stage::looks(steps[6])
            &&& crate::stage::looks(steps[7])
            &&& crate::stage::looks(steps[8])
            &&& crate::stage::works(steps[9], 2)
            &&& crate::stage::reckons(steps[10], 0)
            &&& crate::stage::looks(steps[11])
            &&& crate::stage::demands(steps[12], Request::Sync)
        }),
{
}

/// In a run of `test_u64_overflow_boundaries` that passes the device is asked this, in this order,
/// and nothing else: each request about what an earlier one made is about that, and about what was
/// uploaded for it.
pub proof fn law_u64_overflow_boundaries_asks_about_what_it_made(answers: Seq<Answer>)
    requires
        crate::stage::passes(
            crate::script::plan(
                "test_u64_overflow_boundaries",
                crate::categories::c14_integer::u64_overflow_boundaries_steps(),
            ),
            answers,
        ),
    ensures
        crate::stage::asks(
            crate::script::plan(
                "test_u64_overflow_boundaries",
                crate::categories::c14_integer::u64_overflow_boundaries_steps(),
            ),
            answers,
            0,
            u64_overflow_boundaries_all_1_asks(),
        ),
        crate::stage::asks(
            crate::script::plan(
                "test_u64_overflow_boundaries",
                crate::categories::c14_integer::u64_overflow_boundaries_steps(),
            ),
            answers,
            3,
            u64_overflow_boundaries_all_2_asks(),
        ),
        crate::stage::asked(
            crate::script::plan(
                "test_u64_overflow_boundaries",
                crate::categories::c14_integer::u64_overflow_boundaries_steps(),
            ),
            answers,
            4,
        ) is None,
{
    let plan = crate::script::plan(
        "test_u64_overflow_boundaries",
        crate::categories::c14_integer::u64_overflow_boundaries_steps(),
    );
    let part1 = crate::categories::c14_integer::u64_overflow_boundaries_steps();
    lemma_u64_overflow_boundaries_all_steps();
    let whole1 = part1;
    assert(plan.steps == whole1);
    let m0 = crate::stage::lemma_start(plan, answers);
    assert forall|j: int| 0 <= j < 13 implies plan.steps[0 + j] == #[trigger] part1[j] by {}
    let m1 = lemma_u64_overflow_boundaries_all_1(m0, part1);
    let m2 = lemma_u64_overflow_boundaries_all_2(m1, part1);
    crate::stage::lemma_end(m2);
}

/// A column that is filled in the part `all` of `test_u32_full_range`.
pub open spec fn u32_full_range_all_words1() -> Seq<u64> {
    crate::stage::column(
        32,
        |i: int| if (
            i < 16
        ) { (crate::tables::words_of(Table::NarrowEdges)[i] as int) } else { ((4294967295 * (i - 16)) / 16) },
    )
}

/// A buffer that is uploaded in the part `all` of `test_u32_full_range`.
pub open spec fn u32_full_range_all_table1() -> Thing {
    Thing::Table {
        layout: Layout::Val,
        scalar: Scalar::U32,
        columns: seq![u32_full_range_all_words1()],
        turn: 0,
    }
}

/// What the device is asked in piece 1 of the part `all` of `test_u32_full_range`.
pub open spec fn u32_full_range_all_1_asks() -> Seq<Ask> {
    let sorted1 = Thing::Sorted { of: Box::new(u32_full_range_all_table1()), keys: 1, turn: 1 };
    seq![
        Ask::Make(u32_full_range_all_table1()),
        Ask::Make(sorted1),
        Ask::Words { of: sorted1, column: 0, scalar: Scalar::U32 },
    ]
}

/// Piece 1 of the part `all` of `test_u32_full_range` asks what it should.
proof fn lemma_u32_full_range_all_1(m: Moment, steps: Seq<Step>) -> (n: Moment)
    requires
        m.holds(),
        m.at == 0,
        m.used == 0,
        0 + 13 <= m.plan.steps.len(),
        forall|j: int| 0 <= j < 13 ==> m.plan.steps[0 + j] == #[trigger] steps[j],
        crate::stage::fills(
            steps[0],
            0,
            num(32),
            pick(
                lt(ix(), num(16)),
                entry(Table::NarrowEdges, ix()),
                over(times(num(4294967295), minus(ix(), num(16))), num(16)),
            ),
        ),
        crate::stage::demands(
            steps[1],
            Request::Create { into: 0, layout: Layout::Val, scalar: Scalar::U32, from: 0 },
        ),
        crate::stage::demands(steps[2], Request::Sort { of: 0, keys: 1, into: 1 }),
        crate::stage::demands(
            steps[3],
            Request::Download { of: 1, column: 0, scalar: Scalar::U32, into: 1 },
        ),
        crate::stage::looks(steps[4]),
        crate::stage::looks(steps[5]),
        crate::stage::looks(steps[6]),
        crate::stage::looks(steps[7]),
    ensures
        n.holds(),
        n.plan == m.plan,
        n.answers == m.answers,
        n.at == 0 + 8,
        n.used == m.used + 3,
        n.contents.columns[0] == u32_full_range_all_words1(),
        n.scene.buffer(0) == u32_full_range_all_table1(),
        crate::stage::asks(m.plan, m.answers, 0, u32_full_range_all_1_asks()),
{
    crate::stage::lemma_full(m);
    crate::stage::lemma_asks_none(m, 0);
    let list0 = Seq::<Ask>::empty();
    let words1 = u32_full_range_all_words1();
    crate::stage::lemma_entry_of(Table::NarrowEdges);
    let word1 = pick(
        lt(ix(), num(16)),
        entry(Table::NarrowEdges, ix()),
        over(times(num(4294967295), minus(ix(), num(16))), num(16)),
    );
    assert forall|i: int| 0 <= i < words1.len() implies crate::stage::meaning(
        word1,
        m.contents,
        i,
    ) as u64 == #[trigger] words1[i] by {
        reveal_with_fuel(crate::stage::meaning, 6);
    }
    let m1 = crate::stage::lemma_filled(m, steps[0], 0, num(32), word1, words1);
    let m2 = crate::stage::lemma_create(
        m1,
        steps[1],
        0,
        Layout::Val,
        Scalar::U32,
        0,
        u32_full_range_all_table1(),
    );
    crate::stage::lemma_asks_more(m, 0, list0, Ask::Make(u32_full_range_all_table1()));
    let list1 = list0.push(Ask::Make(u32_full_range_all_table1()));
    let sorted1 = Thing::Sorted { of: Box::new(u32_full_range_all_table1()), keys: 1, turn: 1 };
    let m3 = crate::stage::lemma_sort(m2, steps[2], 0, 1, 1, u32_full_range_all_table1(), sorted1);
    crate::stage::lemma_asks_more(m, 0, list1, Ask::Make(sorted1));
    let list2 = list1.push(Ask::Make(sorted1));
    let m4 = crate::stage::lemma_download(m3, steps[3], 1, 0, Scalar::U32, 1, sorted1);
    crate::stage::lemma_asks_more(
        m,
        0,
        list2,
        Ask::Words { of: sorted1, column: 0, scalar: Scalar::U32 },
    );
    let list3 = list2.push(Ask::Words { of: sorted1, column: 0, scalar: Scalar::U32 });
    let m5 = crate::stage::lemma_look(m4, steps[4]);
    let m6 = crate::stage::lemma_look(m5, steps[5]);
    let m7 = crate::stage::lemma_look(m6, steps[6]);
    let m8 = crate::stage::lemma_look(m7, steps[7]);
    assert(u32_full_range_all_1_asks() == list3);
    m8
}

/// What the device is asked in piece 2 of the part `all` of `test_u32_full_range`.
pub open spec fn u32_full_range_all_2_asks() -> Seq<Ask> {
    let words2 = crate::stage::column(
        (u32_full_range_all_words1().len() as int),
        |i: int| crate::stage::flag(!((u32_full_range_all_words1()[i] as int) < 2147483647)),
    );
    let kept1 = Thing::Kept { of: Box::new(u32_full_range_all_table1()), mask: words2, turn: 3 };
    seq![
        Ask::Make(kept1),
        Ask::Words { of: kept1, column: 0, scalar: Scalar::U32 },
        Ask::Other(Request::Sync),
    ]
}

/// Piece 2 of the part `all` of `test_u32_full_range` asks what it should.
proof fn lemma_u32_full_range_all_2(m: Moment, steps: Seq<Step>) -> (n: Moment)
    requires
        m.holds(),
        m.at == 0 + 8,
        m.used == 3,
        0 + 13 <= m.plan.steps.len(),
        forall|j: int| 0 <= j < 13 ==> m.plan.steps[0 + j] == #[trigger] steps[j],
        crate::stage::fills(steps[8], 2, len(0), not(lt(here(0), num(2147483647)))),
        crate::stage::demands(steps[9], Request::Filter { of: 0, mask: 2, into: 2 }),
        crate::stage::demands(
            steps[10],
            Request::Download { of: 2, column: 0, scalar: Scalar::U32, into: 3 },
        ),
        crate::stage::looks(steps[11]),
        crate::stage::demands(steps[12], Request::Sync),
        m.contents.columns[0] == u32_full_range_all_words1(),
        m.scene.buffer(0) == u32_full_range_all_table1(),
    ensures
        n.holds(),
        n.plan == m.plan,
        n.answers == m.answers,
        n.at == 0 + 13,
        n.used == m.used + 3,
        crate::stage::asks(m.plan, m.answers, 3, u32_full_range_all_2_asks()),
{
    crate::stage::lemma_full(m);
    crate::stage::lemma_asks_none(m, 3);
    let list0 = Seq::<Ask>::empty();
    let words2 = crate::stage::column(
        (u32_full_range_all_words1().len() as int),
        |i: int| crate::stage::flag(!((u32_full_range_all_words1()[i] as int) < 2147483647)),
    );
    let word1 = not(lt(here(0), num(2147483647)));
    assert forall|i: int| 0 <= i < words2.len() implies crate::stage::meaning(
        word1,
        m.contents,
        i,
    ) as u64 == #[trigger] words2[i] by {
        reveal_with_fuel(crate::stage::meaning, 5);
    }
    let m1 = crate::stage::lemma_filled(m, steps[8], 2, len(0), word1, words2);
    let kept1 = Thing::Kept { of: Box::new(u32_full_range_all_table1()), mask: words2, turn: 3 };
    let m2 = crate::stage::lemma_filter(
        m1,
        steps[9],
        0,
        2,
        2,
        u32_full_range_all_table1(),
        words2,
        kept1,
    );
    crate::stage::lemma_asks_more(m, 3, list0, Ask::Make(kept1));
    let list1 = list0.push(Ask::Make(kept1));
    let m3 = crate::stage::lemma_download(m2, steps[10], 2, 0, Scalar::U32, 3, kept1);
    crate::stage::lemma_asks_more(
        m,
        3,
        list1,
        Ask::Words { of: kept1, column: 0, scalar: Scalar::U32 },
    );
    let list2 = list1.push(Ask::Words { of: kept1, column: 0, scalar: Scalar::U32 });
    let m4 = crate::stage::lemma_look(m3, steps[11]);
    let m5 = crate::stage::lemma_sync(m4, steps[12]);
    crate::stage::lemma_asks_more(m, 3, list2, Ask::Other(Request::Sync));
    let list3 = list2.push(Ask::Other(Request::Sync));
    assert(u32_full_range_all_2_asks() == list3);
    m5
}

/// The steps of the part `all` of `test_u32_full_range`.
proof fn lemma_u32_full_range_all_steps()
    ensures
        ({
            let steps = crate::categories::c14_integer::u32_full_range_steps();
            &&& steps.len() == 13
            &&& crate::stage::fills(
                steps[0],
                0,
                num(32),
                pick(
                    lt(ix(), num(16)),
                    entry(Table::NarrowEdges, ix()),
                    over(times(num(4294967295), minus(ix(), num(16))), num(16)),
                ),
            )
            &&& crate::stage::demands(
                steps[1],
                Request::Create { into: 0, layout: Layout::Val, scalar: Scalar::U32, from: 0 },
            )
            &&& crate::stage::demands(steps[2], Request::Sort { of: 0, keys: 1, into: 1 })
            &&& crate::stage::demands(
                steps[3],
                Request::Download { of: 1, column: 0, scalar: Scalar::U32, into: 1 },
            )
            &&& crate::stage::looks(steps[4])
            &&& crate::stage::looks(steps[5])
            &&& crate::stage::looks(steps[6])
            &&& crate::stage::looks(steps[7])
            &&& crate::stage::fills(steps[8], 2, len(0), not(lt(here(0), num(2147483647))))
            &&& crate::stage::demands(steps[9], Request::Filter { of: 0, mask: 2, into: 2 })
            &&& crate::stage::demands(
                steps[10],
                Request::Download { of: 2, column: 0, scalar: Scalar::U32, into: 3 },
            )
            &&& crate::stage::looks(steps[11])
            &&& crate::stage::demands(steps[12], Request::Sync)
        }),
{
}

/// In a run of `test_u32_full_range` that passes the device is asked this, in this order, and
/// nothing else: each request about what an earlier one made is about that, and about what was
/// uploaded for it.
pub proof fn law_u32_full_range_asks_about_what_it_made(answers: Seq<Answer>)
    requires
        crate::stage::passes(
            crate::script::plan(
                "test_u32_full_range",
                crate::categories::c14_integer::u32_full_range_steps(),
            ),
            answers,
        ),
    ensures
        crate::stage::asks(
            crate::script::plan(
                "test_u32_full_range",
                crate::categories::c14_integer::u32_full_range_steps(),
            ),
            answers,
            0,
            u32_full_range_all_1_asks(),
        ),
        crate::stage::asks(
            crate::script::plan(
                "test_u32_full_range",
                crate::categories::c14_integer::u32_full_range_steps(),
            ),
            answers,
            3,
            u32_full_range_all_2_asks(),
        ),
        crate::stage::asked(
            crate::script::plan(
                "test_u32_full_range",
                crate::categories::c14_integer::u32_full_range_steps(),
            ),
            answers,
            6,
        ) is None,
{
    let plan = crate::script::plan(
        "test_u32_full_range",
        crate::categories::c14_integer::u32_full_range_steps(),
    );
    let part1 = crate::categories::c14_integer::u32_full_range_steps();
    lemma_u32_full_range_all_steps();
    let whole1 = part1;
    assert(plan.steps == whole1);
    let m0 = crate::stage::lemma_start(plan, answers);
    assert forall|j: int| 0 <= j < 13 implies plan.steps[0 + j] == #[trigger] part1[j] by {}
    let m1 = lemma_u32_full_range_all_1(m0, part1);
    let m2 = lemma_u32_full_range_all_2(m1, part1);
    crate::stage::lemma_end(m2);
}

} // verus!
