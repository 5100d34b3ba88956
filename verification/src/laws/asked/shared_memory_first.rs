//! What these tests ask the device in runs that pass: `test_sort_uses_shared_memory`,
//! `test_sort_bank_conflicts`, `test_sort_multiple_passes`.

use vstd::prelude::*;
use crate::expr::{entry, ix, minus, modulo, num, over, plus, times};
use crate::machine::Answer;
use crate::scalar::Scalar;
use crate::script::{Layout, Request, Step};
use crate::stage::{Ask, Moment, Thing};
use crate::tables::Table;

verus! {

/// What the device is asked in round `k` of the part `part1` of `test_sort_uses_shared_memory`.
pub open spec fn sort_uses_shared_memory_part1_asks(k: int) -> Seq<Ask> {
    let words1 = crate::stage::column(
        (crate::categories::c06_shared_memory::TILE_SIZES@[k] as int),
        |i: int| ((crate::categories::c06_shared_memory::TILE_SIZES@[k] as int) - 1) - i,
    );
    let table1 = Thing::Table {
        layout: Layout::Val,
        scalar: Scalar::U32,
        columns: seq![words1],
        turn: 0 + 5 * k,
    };
    let sorted1 = Thing::Sorted { of: Box::new(table1), keys: 1, turn: 1 + 5 * k };
    seq![
        Ask::Make(table1),
        Ask::Make(sorted1),
        Ask::Handle(sorted1),
        Ask::Words { of: sorted1, column: 0, scalar: Scalar::U32 },
        Ask::Other(Request::Release { from: 0 }),
    ]
}

/// Round `k` of the part `part1` of `test_sort_uses_shared_memory` asks what it should.
proof fn lemma_sort_uses_shared_memory_part1(m: Moment, steps: Seq<Step>, k: int) -> (n: Moment)
    requires
        0 <= k < 7,
        m.holds(),
        m.at == 0 + 8 * k,
        m.used == 0 + 5 * k,
        0 + 8 * k + 8 <= m.plan.steps.len(),
        forall|j: int| 0 <= j < 8 ==> m.plan.steps[0 + 8 * k + j] == #[trigger] steps[j],
        crate::stage::fills(
            steps[0],
            0,
            num(crate::categories::c06_shared_memory::TILE_SIZES@[k]),
            minus(minus(num(crate::categories::c06_shared_memory::TILE_SIZES@[k]), num(1)), ix()),
        ),
        crate::stage::demands(
            steps[1],
            Request::Create { into: 0, layout: Layout::Val, scalar: Scalar::U32, from: 0 },
        ),
        crate::stage::demands(steps[2], Request::Sort { of: 0, keys: 1, into: 1 }),
        crate::stage::inquires(steps[3], Request::RowsKnown { of: 1, into: 0 }),
        crate::stage::looks(steps[4]),
        crate::stage::demands(
            steps[5],
            Request::Download { of: 1, column: 0, scalar: Scalar::U32, into: 1 },
        ),
        crate::stage::looks(steps[6]),
        crate::stage::inquires(steps[7], Request::Release { from: 0 }),
    ensures
        n.holds(),
        n.plan == m.plan,
        n.answers == m.answers,
        n.at == 0 + 8 * k + 8,
        n.used == m.used + 5,
        crate::stage::asks(m.plan, m.answers, 0 + 5 * k, sort_uses_shared_memory_part1_asks(k)),
{
    crate::stage::lemma_full(m);
    crate::stage::lemma_asks_none(m, 0 + 5 * k);
    let list0 = Seq::<Ask>::empty();
    let words1 = crate::stage::column(
        (crate::categories::c06_shared_memory::TILE_SIZES@[k] as int),
        |i: int| ((crate::categories::c06_shared_memory::TILE_SIZES@[k] as int) - 1) - i,
    );
    let word1 = minus(
        minus(num(crate::categories::c06_shared_memory::TILE_SIZES@[k]), num(1)),
        ix(),
    );
    assert forall|i: int| 0 <= i < words1.len() implies crate::stage::meaning(
        word1,
        m.contents,
        i,
    ) as u64 == #[trigger] words1[i] by {
        reveal_with_fuel(crate::stage::meaning, 4);
    }
    let m1 = crate::stage::lemma_filled(
        m,
        steps[0],
        0,
        num(crate::categories::c06_shared_memory::TILE_SIZES@[k]),
        word1,
        words1,
    );
    let table1 = Thing::Table {
        layout: Layout::Val,
        scalar: Scalar::U32,
        columns: seq![words1],
        turn: 0 + 5 * k,
    };
    let m2 = crate::stage::lemma_create(m1, steps[1], 0, Layout::Val, Scalar::U32, 0, table1);
    crate::stage::lemma_asks_more(m, 0 + 5 * k, list0, Ask::Make(table1));
    let list1 = list0.push(Ask::Make(table1));
    let sorted1 = Thing::Sorted { of: Box::new(table1), keys: 1, turn: 1 + 5 * k };
    let m3 = crate::stage::lemma_sort(m2, steps[2], 0, 1, 1, table1, sorted1);
    crate::stage::lemma_asks_more(m, 0 + 5 * k, list1, Ask::Make(sorted1));
    let list2 = list1.push(Ask::Make(sorted1));
    let m4 = crate::stage::lemma_handle(m3, steps[3], 1, 0, sorted1);
    crate::stage::lemma_asks_more(m, 0 + 5 * k, list2, Ask::Handle(sorted1));
    let list3 = list2.push(Ask::Handle(sorted1));
    let m5 = crate::stage::lemma_look(m4, steps[4]);
    let m6 = crate::stage::lemma_download(m5, steps[5], 1, 0, Scalar::U32, 1, sorted1);
    crate::stage::lemma_asks_more(
        m,
        0 + 5 * k,
        list3,
        Ask::Words { of: sorted1, column: 0, scalar: Scalar::U32 },
    );
    let list4 = list3.push(Ask::Words { of: sorted1, column: 0, scalar: Scalar::U32 });
    let m7 = crate::stage::lemma_look(m6, steps[6]);
    let m8 = crate::stage::lemma_release(m7, steps[7], 0);
    crate::stage::lemma_asks_more(m, 0 + 5 * k, list4, Ask::Other(Request::Release { from: 0 }));
    let list5 = list4.push(Ask::Other(Request::Release { from: 0 }));
    assert(sort_uses_shared_memory_part1_asks(k) == list5);
    m8
}

/// The steps of the part `part1` of `test_sort_uses_shared_memory`.
proof fn lemma_sort_uses_shared_memory_part1_steps(k: int)
    ensures
        ({
            let steps = crate::categories::c06_shared_memory::sorted_size_steps(
                crate::categories::c06_shared_memory::TILE_SIZES@[k],
            );
            &&& steps.len() == 8
            &&& crate::stage::fills(
                steps[0],
                0,
                num(crate::categories::c06_shared_memory::TILE_SIZES@[k]),
                minus(
                    minus(num(crate::categories::c06_shared_memory::TILE_SIZES@[k]), num(1)),
                    ix(),
                ),
            )
            &&& crate::stage::demands(
                steps[1],
                Request::Create { into: 0, layout: Layout::Val, scalar: Scalar::U32, from: 0 },
            )
            &&& crate::stage::demands(steps[2], Request::Sort { of: 0, keys: 1, into: 1 })
            &&& crate::stage::inquires(steps[3], Request::RowsKnown { of: 1, into: 0 })
            &&& crate::stage::looks(steps[4])
            &&& crate::stage::demands(
                steps[5],
                Request::Download { of: 1, column: 0, scalar: Scalar::U32, into: 1 },
            )
            &&& crate::stage::looks(steps[6])
            &&& crate::stage::inquires(steps[7], Request::Release { from: 0 })
        }),
{
}

/// The first `k` rounds of the part `part1` of `test_sort_uses_shared_memory` ask what they should.
proof fn lemma_sort_uses_shared_memory_part1_rounds(
    m: Moment,
    part: Seq<Step>,
    k: int,
) -> (n: Moment)
    requires
        0 <= k <= 7,
        m.holds(),
        m.at == 0,
        m.used == 0 + 5 * 0,
        m.at + 56 <= m.plan.steps.len(),
        part == crate::script::rounds(
            7,
            |k: int| crate::categories::c06_shared_memory::sorted_size_steps(
                crate::categories::c06_shared_memory::TILE_SIZES@[k],
            ),
        ),
        forall|j: int| 0 <= j < 56 ==> m.plan.steps[0 + j] == #[trigger] part[j],
    ensures
        n.holds(),
        n.plan == m.plan,
        n.answers == m.answers,
        n.at == 0 + 8 * k,
        n.used == 0 + 5 * k,
        forall|j: int|
            0 <= j < k ==> crate::stage::asks(
                m.plan,
                m.answers,
                0 + 5 * j,
                #[trigger] sort_uses_shared_memory_part1_asks(j),
            ),
    decreases k,
{
    if k == 0 {
        m
    } else {
        let round = |k: int| crate::categories::c06_shared_memory::sorted_size_steps(
            crate::categories::c06_shared_memory::TILE_SIZES@[k],
        );
        let before = lemma_sort_uses_shared_memory_part1_rounds(m, part, k - 1);
        assert forall|j: int| 0 <= j < 8 implies m.plan.steps[before.at + j] == #[trigger] crate::categories::c06_shared_memory::sorted_size_steps(
            crate::categories::c06_shared_memory::TILE_SIZES@[k - 1],
        )[j] by {
            assert forall|k: int| 0 <= k < 7 implies (#[trigger] round(k)).len() == 8 by {
                lemma_sort_uses_shared_memory_part1_steps(k);
            }
            crate::stage::lemma_round_place(7, round, 8, k - 1, j);
            assert(part[(k - 1) * 8 + j] == round(k - 1)[j]);
        }
        lemma_sort_uses_shared_memory_part1_steps(k - 1);
        lemma_sort_uses_shared_memory_part1(
            before,
            crate::categories::c06_shared_memory::sorted_size_steps(
                crate::categories::c06_shared_memory::TILE_SIZES@[k - 1],
            ),
            k - 1,
        )
    }
}

/// What the device is asked in the part `end` of `test_sort_uses_shared_memory`.
pub open spec fn sort_uses_shared_memory_end_asks() -> Seq<Ask> {
    seq![Ask::Other(Request::Sync)]
}

/// The part `end` of `test_sort_uses_shared_memory` asks what it should.
proof fn lemma_sort_uses_shared_memory_end(m: Moment, steps: Seq<Step>) -> (n: Moment)
    requires
        m.holds(),
        m.at == 56,
        m.used == 35,
        56 + 1 <= m.plan.steps.len(),
        forall|j: int| 0 <= j < 1 ==> m.plan.steps[56 + j] == #[trigger] steps[j],
        crate::stage::demands(steps[0], Request::Sync),
    ensures
        n.holds(),
        n.plan == m.plan,
        n.answers == m.answers,
        n.at == 56 + 1,
        n.used == m.used + 1,
        crate::stage::asks(m.plan, m.answers, 35, sort_uses_shared_memory_end_asks()),
{
    crate::stage::lemma_full(m);
    crate::stage::lemma_asks_none(m, 35);
    let list0 = Seq::<Ask>::empty();
    let m1 = crate::stage::lemma_sync(m, steps[0]);
    crate::stage::lemma_asks_more(m, 35, list0, Ask::Other(Request::Sync));
    let list1 = list0.push(Ask::Other(Request::Sync));
    assert(sort_uses_shared_memory_end_asks() == list1);
    m1
}

/// The steps of the part `end` of `test_sort_uses_shared_memory`.
proof fn lemma_sort_uses_shared_memory_end_steps()
    ensures
        ({
            let steps = crate::categories::c06_shared_memory::sort_uses_shared_memory_end_steps();
            &&& steps.len() == 1
            &&& crate::stage::demands(steps[0], Request::Sync)
        }),
{
}

/// In a run of `test_sort_uses_shared_memory` that passes the device is asked this, in this order,
/// and nothing else: each request about what an earlier one made is about that, and about what was
/// uploaded for it.
pub proof fn law_sort_uses_shared_memory_asks_about_what_it_made(answers: Seq<Answer>)
    requires
        crate::stage::passes(
            crate::script::plan(
                "test_sort_uses_shared_memory",
                crate::categories::c06_shared_memory::sort_uses_shared_memory_steps(),
            ),
            answers,
        ),
    ensures
        forall|k: int|
            0 <= k < 7 ==> crate::stage::asks(
                crate::script::plan(
                    "test_sort_uses_shared_memory",
                    crate::categories::c06_shared_memory::sort_uses_shared_memory_steps(),
                ),
                answers,
                0 + 5 * k,
                #[trigger] sort_uses_shared_memory_part1_asks(k),
            ),
        crate::stage::asks(
            crate::script::plan(
                "test_sort_uses_shared_memory",
                crate::categories::c06_shared_memory::sort_uses_shared_memory_steps(),
            ),
            answers,
            35,
            sort_uses_shared_memory_end_asks(),
        ),
        crate::stage::asked(
            crate::script::plan(
                "test_sort_uses_shared_memory",
                crate::categories::c06_shared_memory::sort_uses_shared_memory_steps(),
            ),
            answers,
            36,
        ) is None,
{
    let plan = crate::script::plan(
        "test_sort_uses_shared_memory",
        crate::categories::c06_shared_memory::sort_uses_shared_memory_steps(),
    );
    let round1 = |k: int| crate::categories::c06_shared_memory::sorted_size_steps(
        crate::categories::c06_shared_memory::TILE_SIZES@[k],
    );
    let part1 = crate::script::rounds(7, round1);
    assert forall|k: int| 0 <= k < 7 implies (#[trigger] round1(k)).len() == 8 by {
        lemma_sort_uses_shared_memory_part1_steps(k);
    }
    crate::stage::lemma_rounds_length(7, round1, 8);
    let part2 = crate::categories::c06_shared_memory::sort_uses_shared_memory_end_steps();
    lemma_sort_uses_shared_memory_end_steps();
    let whole1 = part1;
    let whole2 = whole1 + part2;
    assert(plan.steps == whole2);
    let m0 = crate::stage::lemma_start(plan, answers);
    assert forall|j: int| 0 <= j < 56 implies plan.steps[0 + j] == #[trigger] part1[j] by {}
    let m1 = lemma_sort_uses_shared_memory_part1_rounds(m0, part1, 7);
    assert forall|j: int| 0 <= j < 1 implies plan.steps[56 + j] == #[trigger] part2[j] by {}
    let m2 = lemma_sort_uses_shared_memory_end(m1, part2);
    crate::stage::lemma_end(m2);
}

/// What is sorted in the part `all` of `test_sort_bank_conflicts`.
pub open spec fn sort_bank_conflicts_all_sorted2() -> Thing {
    Thing::Sorted {
        of: Box::new(
            Thing::Table {
                layout: Layout::Val,
                scalar: Scalar::U32,
                columns: seq![crate::stage::column(4096, |i: int| ((i % 32) * 1000) + (i / 32))],
                turn: 3,
            },
        ),
        keys: 1,
        turn: 4,
    }
}

/// What the device is asked in piece 1 of the part `all` of `test_sort_bank_conflicts`.
pub open spec fn sort_bank_conflicts_all_1_asks() -> Seq<Ask> {
    let words1 = crate::stage::column(4096, |i: int| 42);
    let table1 = Thing::Table {
        layout: Layout::Val,
        scalar: Scalar::U32,
        columns: seq![words1],
        turn: 0,
    };
    let sorted1 = Thing::Sorted { of: Box::new(table1), keys: 1, turn: 1 };
    let words2 = crate::stage::column(4096, |i: int| ((i % 32) * 1000) + (i / 32));
    let table2 = Thing::Table {
        layout: Layout::Val,
        scalar: Scalar::U32,
        columns: seq![words2],
        turn: 3,
    };
    seq![
        Ask::Make(table1),
        Ask::Make(sorted1),
        Ask::Words { of: sorted1, column: 0, scalar: Scalar::U32 },
        Ask::Make(table2),
        Ask::Make(sort_bank_conflicts_all_sorted2()),
    ]
}

/// Piece 1 of the part `all` of `test_sort_bank_conflicts` asks what it should.
proof fn lemma_sort_bank_conflicts_all_1(m: Moment, steps: Seq<Step>) -> (n: Moment)
    requires
        m.holds(),
        m.at == 0,
        m.used == 0,
        0 + 16 <= m.plan.steps.len(),
        forall|j: int| 0 <= j < 16 ==> m.plan.steps[0 + j] == #[trigger] steps[j],
        crate::stage::fills(steps[0], 0, num(4096), num(42)),
        crate::stage::demands(
            steps[1],
            Request::Create { into: 0, layout: Layout::Val, scalar: Scalar::U32, from: 0 },
        ),
        crate::stage::demands(steps[2], Request::Sort { of: 0, keys: 1, into: 1 }),
        crate::stage::demands(
            steps[3],
            Request::Download { of: 1, column: 0, scalar: Scalar::U32, into: 1 },
        ),
        crate::stage::looks(steps[4]),
        crate::stage::fills(
            steps[5],
            2,
            num(4096),
            plus(times(modulo(ix(), num(32)), num(1000)), over(ix(), num(32))),
        ),
        crate::stage::demands(
            steps[6],
            Request::Create { into: 2, layout: Layout::Val, scalar: Scalar::U32, from: 2 },
        ),
        crate::stage::demands(steps[7], Request::Sort { of: 2, keys: 1, into: 3 }),
    ensures
        n.holds(),
        n.plan == m.plan,
        n.answers == m.answers,
        n.at == 0 + 8,
        n.used == m.used + 5,
        n.scene.buffer(3) == sort_bank_conflicts_all_sorted2(),
        crate::stage::asks(m.plan, m.answers, 0, sort_bank_conflicts_all_1_asks()),
{
    crate::stage::lemma_full(m);
    crate::stage::lemma_asks_none(m, 0);
    let list0 = Seq::<Ask>::empty();
    let words1 = crate::stage::column(4096, |i: int| 42);
    let word1 = num(42);
    assert forall|i: int| 0 <= i < words1.len() implies crate::stage::meaning(
        word1,
        m.contents,
        i,
    ) as u64 == #[trigger] words1[i] by {
        reveal_with_fuel(crate::stage::meaning, 2);
    }
    let m1 = crate::stage::lemma_filled(m, steps[0], 0, num(4096), word1, words1);
    let table1 = Thing::Table {
        layout: Layout::Val,
        scalar: Scalar::U32,
        columns: seq![words1],
        turn: 0,
    };
    let m2 = crate::stage::lemma_create(m1, steps[1], 0, Layout::Val, Scalar::U32, 0, table1);
    crate::stage::lemma_asks_more(m, 0, list0, Ask::Make(table1));
    let list1 = list0.push(Ask::Make(table1));
    let sorted1 = Thing::Sorted { of: Box::new(table1), keys: 1, turn: 1 };
    let m3 = crate::stage::lemma_sort(m2, steps[2], 0, 1, 1, table1, sorted1);
    crate::stage::lemma_asks_more(m, 0, list1, Ask::Make(sorted1));
    let list2 = list1.push(Ask::Make(sorted1));
    let m4 = crate::stage::lemma_download(m3, steps[3], 1, 0, Scalar::U32, 1, sorted1);
    crate::stage::lemma_asks_more(
        m,
        0,
        list2,
        Ask::Words { of: sorted1, column: 0, scalar: Scalar::U32 },
    );
    let list3 = list2.push(Ask::Words { of: sorted1, column: 0, scalar: Scalar::U32 });
    let m5 = crate::stage::lemma_look(m4, steps[4]);
    let words2 = crate::stage::column(4096, |i: int| ((i % 32) * 1000) + (i / 32));
    let word6 = plus(times(modulo(ix(), num(32)), num(1000)), over(ix(), num(32)));
    assert forall|i: int| 0 <= i < words2.len() implies crate::stage::meaning(
        word6,
        m5.contents,
        i,
    ) as u64 == #[trigger] words2[i] by {
        reveal_with_fuel(crate::stage::meaning, 5);
    }
    let m6 = crate::stage::lemma_filled(m5, steps[5], 2, num(4096), word6, words2);
    let table2 = Thing::Table {
        layout: Layout::Val,
        scalar: Scalar::U32,
        columns: seq![words2],
        turn: 3,
    };
    let m7 = crate::stage::lemma_create(m6, steps[6], 2, Layout::Val, Scalar::U32, 2, table2);
    crate::stage::lemma_asks_more(m, 0, list3, Ask::Make(table2));
    let list4 = list3.push(Ask::Make(table2));
    let m8 = crate::stage::lemma_sort(
        m7,
        steps[7],
        2,
        1,
        3,
        table2,
        sort_bank_conflicts_all_sorted2(),
    );
    crate::stage::lemma_asks_more(m, 0, list4, Ask::Make(sort_bank_conflicts_all_sorted2()));
    let list5 = list4.push(Ask::Make(sort_bank_conflicts_all_sorted2()));
    assert(sort_bank_conflicts_all_1_asks() == list5);
    m8
}

/// What the device is asked in piece 2 of the part `all` of `test_sort_bank_conflicts`.
pub open spec fn sort_bank_conflicts_all_2_asks() -> Seq<Ask> {
    let words3 = crate::stage::column(
        4096,
        |i: int| crate::tables::words_of(Table::Powers)[(i % 16)] as int,
    );
    let table3 = Thing::Table {
        layout: Layout::Val,
        scalar: Scalar::U32,
        columns: seq![words3],
        turn: 6,
    };
    let sorted3 = Thing::Sorted { of: Box::new(table3), keys: 1, turn: 7 };
    seq![
        Ask::Words { of: sort_bank_conflicts_all_sorted2(), column: 0, scalar: Scalar::U32 },
        Ask::Make(table3),
        Ask::Make(sorted3),
        Ask::Words { of: sorted3, column: 0, scalar: Scalar::U32 },
        Ask::Other(Request::Sync),
    ]
}

/// Piece 2 of the part `all` of `test_sort_bank_conflicts` asks what it should.
proof fn lemma_sort_bank_conflicts_all_2(m: Moment, steps: Seq<Step>) -> (n: Moment)
    requires
        m.holds(),
        m.at == 0 + 8,
        m.used == 5,
        0 + 16 <= m.plan.steps.len(),
        forall|j: int| 0 <= j < 16 ==> m.plan.steps[0 + j] == #[trigger] steps[j],
        crate::stage::demands(
            steps[8],
            Request::Download { of: 3, column: 0, scalar: Scalar::U32, into: 3 },
        ),
        crate::stage::looks(steps[9]),
        crate::stage::fills(steps[10], 4, num(4096), entry(Table::Powers, modulo(ix(), num(16)))),
        crate::stage::demands(
            steps[11],
            Request::Create { into: 4, layout: Layout::Val, scalar: Scalar::U32, from: 4 },
        ),
        crate::stage::demands(steps[12], Request::Sort { of: 4, keys: 1, into: 5 }),
        crate::stage::demands(
            steps[13],
            Request::Download { of: 5, column: 0, scalar: Scalar::U32, into: 5 },
        ),
        crate::stage::looks(steps[14]),
        crate::stage::demands(steps[15], Request::Sync),
        m.scene.buffer(3) == sort_bank_conflicts_all_sorted2(),
    ensures
        n.holds(),
        n.plan == m.plan,
        n.answers == m.answers,
        n.at == 0 + 16,
        n.used == m.used + 5,
        crate::stage::asks(m.plan, m.answers, 5, sort_bank_conflicts_all_2_asks()),
{
    crate::stage::lemma_full(m);
    crate::stage::lemma_asks_none(m, 5);
    let list0 = Seq::<Ask>::empty();
    let m1 = crate::stage::lemma_download(
        m,
        steps[8],
        3,
        0,
        Scalar::U32,
        3,
        sort_bank_conflicts_all_sorted2(),
    );
    crate::stage::lemma_asks_more(
        m,
        5,
        list0,
        Ask::Words { of: sort_bank_conflicts_all_sorted2(), column: 0, scalar: Scalar::U32 },
    );
    let list1 = list0.push(
        Ask::Words { of: sort_bank_conflicts_all_sorted2(), column: 0, scalar: Scalar::U32 },
    );
    let m2 = crate::stage::lemma_look(m1, steps[9]);
    let words3 = crate::stage::column(
        4096,
        |i: int| crate::tables::words_of(Table::Powers)[(i % 16)] as int,
    );
    crate::stage::lemma_entry_of(Table::Powers);
    let word3 = entry(Table::Powers, modulo(ix(), num(16)));
    assert forall|i: int| 0 <= i < words3.len() implies crate::stage::meaning(
        word3,
        m2.contents,
        i,
    ) as u64 == #[trigger] words3[i] by {
        reveal_with_fuel(crate::stage::meaning, 4);
    }
    let m3 = crate::stage::lemma_filled(m2, steps[10], 4, num(4096), word3, words3);
    let table3 = Thing::Table {
        layout: Layout::Val,
        scalar: Scalar::U32,
        columns: seq![words3],
        turn: 6,
    };
    let m4 = crate::stage::lemma_create(m3, steps[11], 4, Layout::Val, Scalar::U32, 4, table3);
    crate::stage::lemma_asks_more(m, 5, list1, Ask::Make(table3));
    let list2 = list1.push(Ask::Make(table3));
    let sorted3 = Thing::Sorted { of: Box::new(table3), keys: 1, turn: 7 };
    let m5 = crate::stage::lemma_sort(m4, steps[12], 4, 1, 5, table3, sorted3);
    crate::stage::lemma_asks_more(m, 5, list2, Ask::Make(sorted3));
    let list3 = list2.push(Ask::Make(sorted3));
    let m6 = crate::stage::lemma_download(m5, steps[13], 5, 0, Scalar::U32, 5, sorted3);
    crate::stage::lemma_asks_more(
        m,
        5,
        list3,
        Ask::Words { of: sorted3, column: 0, scalar: Scalar::U32 },
    );
    let list4 = list3.push(Ask::Words { of: sorted3, column: 0, scalar: Scalar::U32 });
    let m7 = crate::stage::lemma_look(m6, steps[14]);
    let m8 = crate::stage::lemma_sync(m7, steps[15]);
    crate::stage::lemma_asks_more(m, 5, list4, Ask::Other(Request::Sync));
    let list5 = list4.push(Ask::Other(Request::Sync));
    assert(sort_bank_conflicts_all_2_asks() == list5);
    m8
}

/// The steps of the part `all` of `test_sort_bank_conflicts`.
proof fn lemma_sort_bank_conflicts_all_steps()
    ensures
        ({
            let steps = crate::categories::c06_shared_memory::sort_bank_conflicts_steps();
            &&& steps.len() == 16
            &&& crate::stage::fills(steps[0], 0, num(4096), num(42))
            &&& crate::stage::demands(
                steps[1],
                Request::Create { into: 0, layout: Layout::Val, scalar: Scalar::U32, from: 0 },
            )
            &&& crate::stage::demands(steps[2], Request::Sort { of: 0, keys: 1, into: 1 })
            &&& crate::stage::demands(
                steps[3],
                Request::Download { of: 1, column: 0, scalar: Scalar::U32, into: 1 },
            )
            &&& crate::stage::looks(steps[4])
            &&& crate::stage::fills(
                steps[5],
                2,
                num(4096),
                plus(times(modulo(ix(), num(32)), num(1000)), over(ix(), num(32))),
            )
            &&& crate::stage::demands(
                steps[6],
                Request::Create { into: 2, layout: Layout::Val, scalar: Scalar::U32, from: 2 },
            )
            &&& crate::stage::demands(steps[7], Request::Sort { of: 2, keys: 1, into: 3 })
            &&& crate::stage::demands(
                steps[8],
                Request::Download { of: 3, column: 0, scalar: Scalar::U32, into: 3 },
            )
            &&& crate::stage::looks(steps[9])
            &&& crate::stage::fills(
                steps[10],
                4,
                num(4096),
                entry(Table::Powers, modulo(ix(), num(16))),
            )
            &&& crate::stage::demands(
                steps[11],
                Request::Create { into: 4, layout: Layout::Val, scalar: Scalar::U32, from: 4 },
            )
            &&& crate::stage::demands(steps[12], Request::Sort { of: 4, keys: 1, into: 5 })
            &&& crate::stage::demands(
                steps[13],
                Request::Download { of: 5, column: 0, scalar: Scalar::U32, into: 5 },
            )
            &&& crate::stage::looks(steps[14])
            &&& crate::stage::demands(steps[15], Request::Sync)
        }),
{
}

/// In a run of `test_sort_bank_conflicts` that passes the device is asked this, in this order, and
/// nothing else: each request about what an earlier one made is about that, and about what was
/// uploaded for it.
pub proof fn law_sort_bank_conflicts_asks_about_what_it_made(answers: Seq<Answer>)
    requires
        crate::stage::passes(
            crate::script::plan(
                "test_sort_bank_conflicts",
                crate::categories::c06_shared_memory::sort_bank_conflicts_steps(),
            ),
            answers,
        ),
    ensures
        crate::stage::asks(
            crate::script::plan(
                "test_sort_bank_conflicts",
                crate::categories::c06_shared_memory::sort_bank_conflicts_steps(),
            ),
            answers,
            0,
            sort_bank_conflicts_all_1_asks(),
        ),
        crate::stage::asks(
            crate::script::plan(
                "test_sort_bank_conflicts",
                crate::categories::c06_shared_memory::sort_bank_conflicts_steps(),
            ),
            answers,
            5,
            sort_bank_conflicts_all_2_asks(),
        ),
        crate::stage::asked(
            crate::script::plan(
                "test_sort_bank_conflicts",
                crate::categories::c06_shared_memory::sort_bank_conflicts_steps(),
            ),
            answers,
            10,
        ) is None,
{
    let plan = crate::script::plan(
        "test_sort_bank_conflicts",
        crate::categories::c06_shared_memory::sort_bank_conflicts_steps(),
    );
    let part1 = crate::categories::c06_shared_memory::sort_bank_conflicts_steps();
    lemma_sort_bank_conflicts_all_steps();
    let whole1 = part1;
    assert(plan.steps == whole1);
    let m0 = crate::stage::lemma_start(plan, answers);
    assert forall|j: int| 0 <= j < 16 implies plan.steps[0 + j] == #[trigger] part1[j] by {}
    let m1 = lemma_sort_bank_conflicts_all_1(m0, part1);
    let m2 = lemma_sort_bank_conflicts_all_2(m1, part1);
    crate::stage::lemma_end(m2);
}

/// What the device is asked in piece 1 of the part `all` of `test_sort_multiple_passes`.
pub open spec fn sort_multiple_passes_all_1_asks() -> Seq<Ask> {
    let words1 = crate::stage::column(1000000, |i: int| ((i * 1103515247) + 12345) % 1000000);
    let words2 = crate::stage::column(1000000, |i: int| i);
    let table1 = Thing::Table {
        layout: Layout::KeyVal,
        scalar: Scalar::U32,
        columns: seq![words1, words2],
        turn: 0,
    };
    let sorted1 = Thing::Sorted { of: Box::new(table1), keys: 1, turn: 1 };
    seq![
        Ask::Make(table1),
        Ask::Make(sorted1),
        Ask::Handle(sorted1),
        Ask::Words { of: sorted1, column: 0, scalar: Scalar::U32 },
    ]
}

/// Piece 1 of the part `all` of `test_sort_multiple_passes` asks what it should.
proof fn lemma_sort_multiple_passes_all_1(m: Moment, steps: Seq<Step>) -> (n: Moment)
    requires
        m.holds(),
        m.at == 0,
        m.used == 0,
        0 + 10 <= m.plan.steps.len(),
        forall|j: int| 0 <= j < 10 ==> m.plan.steps[0 + j] == #[trigger] steps[j],
        crate::stage::fills(
            steps[0],
            0,
            num(1000000),
            modulo(plus(times(ix(), num(1103515247)), num(12345)), num(1000000)),
        ),
        crate::stage::fills(steps[1], 1, num(1000000), ix()),
        crate::stage::demands(
            steps[2],
            Request::Create { into: 0, layout: Layout::KeyVal, scalar: Scalar::U32, from: 0 },
        ),
        crate::stage::demands(steps[3], Request::Sort { of: 0, keys: 1, into: 1 }),
        crate::stage::inquires(steps[4], Request::RowsKnown { of: 1, into: 0 }),
        crate::stage::looks(steps[5]),
        crate::stage::demands(
            steps[6],
            Request::Download { of: 1, column: 0, scalar: Scalar::U32, into: 2 },
        ),
        crate::stage::looks(steps[7]),
    ensures
        n.holds(),
        n.plan == m.plan,
        n.answers == m.answers,
        n.at == 0 + 8,
        n.used == m.used + 4,
        crate::stage::asks(m.plan, m.answers, 0, sort_multiple_passes_all_1_asks()),
{
    crate::stage::lemma_full(m);
    crate::stage::lemma_asks_none(m, 0);
    let list0 = Seq::<Ask>::empty();
    let words1 = crate::stage::column(1000000, |i: int| ((i * 1103515247) + 12345) % 1000000);
    let word1 = modulo(plus(times(ix(), num(1103515247)), num(12345)), num(1000000));
    assert forall|i: int| 0 <= i < words1.len() implies crate::stage::meaning(
        word1,
        m.contents,
        i,
    ) as u64 == #[trigger] words1[i] by {
        reveal_with_fuel(crate::stage::meaning, 5);
    }
    let m1 = crate::stage::lemma_filled(m, steps[0], 0, num(1000000), word1, words1);
    let words2 = crate::stage::column(1000000, |i: int| i);
    let word2 = ix();
    assert forall|i: int| 0 <= i < words2.len() implies crate::stage::meaning(
        word2,
        m1.contents,
        i,
    ) as u64 == #[trigger] words2[i] by {
        reveal_with_fuel(crate::stage::meaning, 1);
    }
    let m2 = crate::stage::lemma_filled(m1, steps[1], 1, num(1000000), word2, words2);
    let table1 = Thing::Table {
        layout: Layout::KeyVal,
        scalar: Scalar::U32,
        columns: seq![words1, words2],
        turn: 0,
    };
    let m3 = crate::stage::lemma_create(m2, steps[2], 0, Layout::KeyVal, Scalar::U32, 0, table1);
    crate::stage::lemma_asks_more(m, 0, list0, Ask::Make(table1));
    let list1 = list0.push(Ask::Make(table1));
    let sorted1 = Thing::Sorted { of: Box::new(table1), keys: 1, turn: 1 };
    let m4 = crate::stage::lemma_sort(m3, steps[3], 0, 1, 1, table1, sorted1);
    crate::stage::lemma_asks_more(m, 0, list1, Ask::Make(sorted1));
    let list2 = list1.push(Ask::Make(sorted1));
    let m5 = crate::stage::lemma_handle(m4, steps[4], 1, 0, sorted1);
    crate::stage::lemma_asks_more(m, 0, list2, Ask::Handle(sorted1));
    let list3 = list2.push(Ask::Handle(sorted1));
    let m6 = crate::stage::lemma_look(m5, steps[5]);
    let m7 = crate::stage::lemma_download(m6, steps[6], 1, 0, Scalar::U32, 2, sorted1);
    crate::stage::lemma_asks_more(
        m,
        0,
        list3,
        Ask::Words { of: sorted1, column: 0, scalar: Scalar::U32 },
    );
    let list4 = list3.push(Ask::Words { of: sorted1, column: 0, scalar: Scalar::U32 });
    let m8 = crate::stage::lemma_look(m7, steps[7]);
    assert(sort_multiple_passes_all_1_asks() == list4);
    m8
}

/// What the device is asked in piece 2 of the part `all` of `test_sort_multiple_passes`.
pub open spec fn sort_multiple_passes_all_2_asks() -> Seq<Ask> {
    seq![Ask::Other(Request::Sync)]
}

/// Piece 2 of the part `all` of `test_sort_multiple_passes` asks what it should.
proof fn lemma_sort_multiple_passes_all_2(m: Moment, steps: Seq<Step>) -> (n: Moment)
    requires
        m.holds(),
        m.at == 0 + 8,
        m.used == 4,
        0 + 10 <= m.plan.steps.len(),
        forall|j: int| 0 <= j < 10 ==> m.plan.steps[0 + j] == #[trigger] steps[j],
        crate::stage::looks(steps[8]),
        crate::stage::demands(steps[9], Request::Sync),
    ensures
        n.holds(),
        n.plan == m.plan,
        n.answers == m.answers,
        n.at == 0 + 10,
        n.used == m.used + 1,
        crate::stage::asks(m.plan, m.answers, 4, sort_multiple_passes_all_2_asks()),
{
    crate::stage::lemma_full(m);
    crate::stage::lemma_asks_none(m, 4);
    let list0 = Seq::<Ask>::empty();
    let m1 = crate::stage::lemma_look(m, steps[8]);
    let m2 = crate::stage::lemma_sync(m1, steps[9]);
    crate::stage::lemma_asks_more(m, 4, list0, Ask::Other(Request::Sync));
    let list1 = list0.push(Ask::Other(Request::Sync));
    assert(sort_multiple_passes_all_2_asks() == list1);
    m2
}

/// The steps of the part `all` of `test_sort_multiple_passes`.
proof fn lemma_sort_multiple_passes_all_steps()
    ensures
        ({
            let steps = crate::categories::c06_shared_memory::sort_multiple_passes_steps();
            &&& steps.len() == 10
            &&& crate::stage::fills(
                steps[0],
                0,
                num(1000000),
                modulo(plus(times(ix(), num(1103515247)), num(12345)), num(1000000)),
            )
            &&& crate::stage::fills(steps[1], 1, num(1000000), ix())
            &&& crate::stage::demands(
                steps[2],
                Request::Create { into: 0, layout: Layout::KeyVal, scalar: Scalar::U32, from: 0 },
            )
            &&& crate::stage::demands(steps[3], Request::Sort { of: 0, keys: 1, into: 1 })
            &&& crate::stage::inquires(steps[4], Request::RowsKnown { of: 1, into: 0 })
            &&& crate::stage::looks(steps[5])
            &&& crate::stage::demands(
                steps[6],
                Request::Download { of: 1, column: 0, scalar: Scalar::U32, into: 2 },
            )
            &&& crate::stage::looks(steps[7])
            &&& crate::stage::looks(steps[8])
            &&& crate::stage::demands(steps[9], Request::Sync)
        }),
{
}

/// In a run of `test_sort_multiple_passes` that passes the device is asked this, in this order, and
/// nothing else: each request about what an earlier one made is about that, and about what was
/// uploaded for it.
pub proof fn law_sort_multiple_passes_asks_about_what_it_made(answers: Seq<Answer>)
    requires
        crate::stage::passes(
            crate::script::plan(
                "test_sort_multiple_passes",
                crate::categories::c06_shared_memory::sort_multiple_passes_steps(),
            ),
            answers,
        ),
    ensures
        crate::stage::asks(
            crate::script::plan(
                "test_sort_multiple_passes",
                crate::categories::c06_shared_memory::sort_multiple_passes_steps(),
            ),
            answers,
            0,
            sort_multiple_passes_all_1_asks(),
        ),
        crate::stage::asks(
            crate::script::plan(
                "test_sort_multiple_passes",
                crate::categories::c06_shared_memory::sort_multiple_passes_steps(),
            ),
            answers,
            4,
            sort_multiple_passes_all_2_asks(),
        ),
        crate::stage::asked(
            crate::script::plan(
                "test_sort_multiple_passes",
                crate::categories::c06_shared_memory::sort_multiple_passes_steps(),
            ),
            answers,
            5,
        ) is None,
{
    let plan = crate::script::plan(
        "test_sort_multiple_passes",
        crate::categories::c06_shared_memory::sort_multiple_passes_steps(),
    );
    let part1 = crate::categories::c06_shared_memory::sort_multiple_passes_steps();
    lemma_sort_multiple_passes_all_steps();
    let whole1 = part1;
    assert(plan.steps == whole1);
    let m0 = crate::stage::lemma_start(plan, answers);
    assert forall|j: int| 0 <= j < 10 implies plan.steps[0 + j] == #[trigger] part1[j] by {}
    let m1 = lemma_sort_multiple_passes_all_1(m0, part1);
    let m2 = lemma_sort_multiple_passes_all_2(m1, part1);
    crate::stage::lemma_end(m2);
}

} // verus!
