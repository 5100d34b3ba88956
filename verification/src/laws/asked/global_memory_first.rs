//! What these tests ask the device in runs that pass: `test_large_allocation`,
//! `test_aligned_access_patterns`, `test_coalesced_access`.

use vstd::prelude::*;
use crate::expr::{ix, minus, modulo, num, same_as};
use crate::machine::Answer;
use crate::scalar::Scalar;
use crate::script::{Layout, Request, Step};
use crate::stage::{Ask, Moment, Thing};

verus! {

/// What is kept in the part `all` of `test_large_allocation`.
pub open spec fn large_allocation_all_kept1() -> Thing {
    Thing::Kept {
        of: Box::new(
            Thing::Table {
                layout: Layout::Val,
                scalar: Scalar::U32,
                columns: seq![crate::stage::column(10000000, |i: int| i)],
                turn: 0,
            },
        ),
        mask: crate::stage::column(10000000, |i: int| crate::stage::flag(((i % 1000) == 0))),
        turn: 2,
    }
}

/// What the device is asked in piece 1 of the part `all` of `test_large_allocation`.
pub open spec fn large_allocation_all_1_asks() -> Seq<Ask> {
    let words1 = crate::stage::column(10000000, |i: int| i);
    let table1 = Thing::Table {
        layout: Layout::Val,
        scalar: Scalar::U32,
        columns: seq![words1],
        turn: 0,
    };
    seq![
        Ask::Make(table1),
        Ask::Handle(table1),
        Ask::Make(large_allocation_all_kept1()),
        Ask::Handle(large_allocation_all_kept1()),
    ]
}

/// Piece 1 of the part `all` of `test_large_allocation` asks what it should.
proof fn lemma_large_allocation_all_1(m: Moment, steps: Seq<Step>) -> (n: Moment)
    requires
        m.holds(),
        m.at == 0,
        m.used == 0,
        0 + 13 <= m.plan.steps.len(),
        forall|j: int| 0 <= j < 13 ==> m.plan.steps[0 + j] == #[trigger] steps[j],
        crate::stage::fills(steps[0], 0, num(10000000), ix()),
        crate::stage::demands(
            steps[1],
            Request::Create { into: 0, layout: Layout::Val, scalar: Scalar::U32, from: 0 },
        ),
        crate::stage::inquires(steps[2], Request::RowsKnown { of: 0, into: 0 }),
        crate::stage::looks(steps[3]),
        crate::stage::fills(steps[4], 1, num(10000000), same_as(modulo(ix(), num(1000)), num(0))),
        crate::stage::demands(steps[5], Request::Filter { of: 0, mask: 1, into: 1 }),
        crate::stage::inquires(steps[6], Request::RowsKnown { of: 1, into: 0 }),
        crate::stage::looks(steps[7]),
    ensures
        n.holds(),
        n.plan == m.plan,
        n.answers == m.answers,
        n.at == 0 + 8,
        n.used == m.used + 4,
        n.scene.buffer(1) == large_allocation_all_kept1(),
        crate::stage::asks(m.plan, m.answers, 0, large_allocation_all_1_asks()),
{
    crate::stage::lemma_full(m);
    crate::stage::lemma_asks_none(m, 0);
    let list0 = Seq::<Ask>::empty();
    let words1 = crate::stage::column(10000000, |i: int| i);
    let word1 = ix();
    assert forall|i: int| 0 <= i < words1.len() implies crate::stage::meaning(
        word1,
        m.contents,
        i,
    ) as u64 == #[trigger] words1[i] by {
        reveal_with_fuel(crate::stage::meaning, 1);
    }
    let m1 = crate::stage::lemma_filled(m, steps[0], 0, num(10000000), word1, words1);
    let table1 = Thing::Table {
        layout: Layout::Val,
        scalar: Scalar::U32,
        columns: seq![words1],
        turn: 0,
    };
    let m2 = crate::stage::lemma_create(m1, steps[1], 0, Layout::Val, Scalar::U32, 0, table1);
    crate::stage::lemma_asks_more(m, 0, list0, Ask::Make(table1));
    let list1 = list0.push(Ask::Make(table1));
    let m3 = crate::stage::lemma_handle(m2, steps[2], 0, 0, table1);
    crate::stage::lemma_asks_more(m, 0, list1, Ask::Handle(table1));
    let list2 = list1.push(Ask::Handle(table1));
    let m4 = crate::stage::lemma_look(m3, steps[3]);
    let words2 = crate::stage::column(10000000, |i: int| crate::stage::flag(((i % 1000) == 0)));
    let word5 = same_as(modulo(ix(), num(1000)), num(0));
    assert forall|i: int| 0 <= i < words2.len() implies crate::stage::meaning(
        word5,
        m4.contents,
        i,
    ) as u64 == #[trigger] words2[i] by {
        reveal_with_fuel(crate::stage::meaning, 4);
    }
    let m5 = crate::stage::lemma_filled(m4, steps[4], 1, num(10000000), word5, words2);
    let m6 = crate::stage::lemma_filter(
        m5,
        steps[5],
        0,
        1,
        1,
        table1,
        words2,
        large_allocation_all_kept1(),
    );
    crate::stage::lemma_asks_more(m, 0, list2, Ask::Make(large_allocation_all_kept1()));
    let list3 = list2.push(Ask::Make(large_allocation_all_kept1()));
    let m7 = crate::stage::lemma_handle(m6, steps[6], 1, 0, large_allocation_all_kept1());
    crate::stage::lemma_asks_more(m, 0, list3, Ask::Handle(large_allocation_all_kept1()));
    let list4 = list3.push(Ask::Handle(large_allocation_all_kept1()));
    let m8 = crate::stage::lemma_look(m7, steps[7]);
    assert(large_allocation_all_1_asks() == list4);
    m8
}

/// What the device is asked in piece 2 of the part `all` of `test_large_allocation`.
pub open spec fn large_allocation_all_2_asks() -> Seq<Ask> {
    seq![
        Ask::Words { of: large_allocation_all_kept1(), column: 0, scalar: Scalar::U32 },
        Ask::Other(Request::Sync),
    ]
}

/// Piece 2 of the part `all` of `test_large_allocation` asks what it should.
proof fn lemma_large_allocation_all_2(m: Moment, steps: Seq<Step>) -> (n: Moment)
    requires
        m.holds(),
        m.at == 0 + 8,
        m.used == 4,
        0 + 13 <= m.plan.steps.len(),
        forall|j: int| 0 <= j < 13 ==> m.plan.steps[0 + j] == #[trigger] steps[j],
        crate::stage::demands(
            steps[8],
            Request::Download { of: 1, column: 0, scalar: Scalar::U32, into: 2 },
        ),
        crate::stage::looks(steps[9]),
        crate::stage::looks(steps[10]),
        crate::stage::looks(steps[11]),
        crate::stage::demands(steps[12], Request::Sync),
        m.scene.buffer(1) == large_allocation_all_kept1(),
    ensures
        n.holds(),
        n.plan == m.plan,
        n.answers == m.answers,
        n.at == 0 + 13,
        n.used == m.used + 2,
        crate::stage::asks(m.plan, m.answers, 4, large_allocation_all_2_asks()),
{
    crate::stage::lemma_full(m);
    crate::stage::lemma_asks_none(m, 4);
    let list0 = Seq::<Ask>::empty();
    let m1 = crate::stage::lemma_download(
        m,
        steps[8],
        1,
        0,
        Scalar::U32,
        2,
        large_allocation_all_kept1(),
    );
    crate::stage::lemma_asks_more(
        m,
        4,
        list0,
        Ask::Words { of: large_allocation_all_kept1(), column: 0, scalar: Scalar::U32 },
    );
    let list1 = list0.push(
        Ask::Words { of: large_allocation_all_kept1(), column: 0, scalar: Scalar::U32 },
    );
    let m2 = crate::stage::lemma_look(m1, steps[9]);
    let m3 = crate::stage::lemma_look(m2, steps[10]);
    let m4 = crate::stage::lemma_look(m3, steps[11]);
    let m5 = crate::stage::lemma_sync(m4, steps[12]);
    crate::stage::lemma_asks_more(m, 4, list1, Ask::Other(Request::Sync));
    let list2 = list1.push(Ask::Other(Request::Sync));
    assert(large_allocation_all_2_asks() == list2);
    m5
}

/// The steps of the part `all` of `test_large_allocation`.
proof fn lemma_large_allocation_all_steps()
    ensures
        ({
            let steps = crate::categories::c05_global_memory::large_allocation_steps();
            &&& steps.len() == 13
            &&& crate::stage::fills(steps[0], 0, num(10000000), ix())
            &&& crate::stage::demands(
                steps[1],
                Request::Create { into: 0, layout: Layout::Val, scalar: Scalar::U32, from: 0 },
            )
            &&& crate::stage::inquires(steps[2], Request::RowsKnown { of: 0, into: 0 })
            &&& crate::stage::looks(steps[3])
            &&& crate::stage::fills(
                steps[4],
                1,
                num(10000000),
                same_as(modulo(ix(), num(1000)), num(0)),
            )
            &&& crate::stage::demands(steps[5], Request::Filter { of: 0, mask: 1, into: 1 })
            &&& crate::stage::inquires(steps[6], Request::RowsKnown { of: 1, into: 0 })
            &&& crate::stage::looks(steps[7])
            &&& crate::stage::demands(
                steps[8],
                Request::Download { of: 1, column: 0, scalar: Scalar::U32, into: 2 },
            )
            &&& crate::stage::looks(steps[9])
            &&& crate::stage::looks(steps[10])
            &&& crate::stage::looks(steps[11])
            &&& crate::stage::demands(steps[12], Request::Sync)
        }),
{
}

/// In a run of `test_large_allocation` that passes the device is asked this, in this order, and
/// nothing else: each request about what an earlier one made is about that, and about what was
/// uploaded for it.
pub proof fn law_large_allocation_asks_about_what_it_made(answers: Seq<Answer>)
    requires
        crate::stage::passes(
            crate::script::plan(
                "test_large_allocation",
                crate::categories::c05_global_memory::large_allocation_steps(),
            ),
            answers,
        ),
    ensures
        crate::stage::asks(
            crate::script::plan(
                "test_large_allocation",
                crate::categories::c05_global_memory::large_allocation_steps(),
            ),
            answers,
            0,
            large_allocation_all_1_asks(),
        ),
        crate::stage::asks(
            crate::script::plan(
                "test_large_allocation",
                crate::categories::c05_global_memory::large_allocation_steps(),
            ),
            answers,
            4,
            large_allocation_all_2_asks(),
        ),
        crate::stage::asked(
            crate::script::plan(
                "test_large_allocation",
                crate::categories::c05_global_memory::large_allocation_steps(),
            ),
            answers,
            6,
        ) is None,
{
    let plan = crate::script::plan(
        "test_large_allocation",
        crate::categories::c05_global_memory::large_allocation_steps(),
    );
    let part1 = crate::categories::c05_global_memory::large_allocation_steps();
    lemma_large_allocation_all_steps();
    let whole1 = part1;
    assert(plan.steps == whole1);
    let m0 = crate::stage::lemma_start(plan, answers);
    assert forall|j: int| 0 <= j < 13 implies plan.steps[0 + j] == #[trigger] part1[j] by {}
    let m1 = lemma_large_allocation_all_1(m0, part1);
    let m2 = lemma_large_allocation_all_2(m1, part1);
    crate::stage::lemma_end(m2);
}

/// What the device is asked in round `k` of the part `sizes` of `test_aligned_access_patterns`.
pub open spec fn aligned_access_patterns_sizes_asks(k: int) -> Seq<Ask> {
    let words1 = crate::stage::column(
        (crate::categories::c05_global_memory::ALIGNED_SIZES@[k] as int),
        |i: int| i,
    );
    let table1 = Thing::Table {
        layout: Layout::Val,
        scalar: Scalar::U32,
        columns: seq![words1],
        turn: 0 + 4 * k,
    };
    let sorted1 = Thing::Sorted { of: Box::new(table1), keys: 1, turn: 1 + 4 * k };
    seq![
        Ask::Make(table1),
        Ask::Make(sorted1),
        Ask::Words { of: sorted1, column: 0, scalar: Scalar::U32 },
        Ask::Other(Request::Release { from: 0 }),
    ]
}

/// Round `k` of the part `sizes` of `test_aligned_access_patterns` asks what it should.
proof fn lemma_aligned_access_patterns_sizes(m: Moment, steps: Seq<Step>, k: int) -> (n: Moment)
    requires
        0 <= k < 8,
        m.holds(),
        m.at == 0 + 6 * k,
        m.used == 0 + 4 * k,
        0 + 6 * k + 6 <= m.plan.steps.len(),
        forall|j: int| 0 <= j < 6 ==> m.plan.steps[0 + 6 * k + j] == #[trigger] steps[j],
        crate::stage::fills(
            steps[0],
            0,
            num(crate::categories::c05_global_memory::ALIGNED_SIZES@[k as u64 as int]),
            ix(),
        ),
        crate::stage::demands(
            steps[1],
            Request::Create { into: 0, layout: Layout::Val, scalar: Scalar::U32, from: 0 },
        ),
        crate::stage::demands(steps[2], Request::Sort { of: 0, keys: 1, into: 1 }),
        crate::stage::demands(
            steps[3],
            Request::Download { of: 1, column: 0, scalar: Scalar::U32, into: 1 },
        ),
        crate::stage::looks(steps[4]),
        crate::stage::inquires(steps[5], Request::Release { from: 0 }),
    ensures
        n.holds(),
        n.plan == m.plan,
        n.answers == m.answers,
        n.at == 0 + 6 * k + 6,
        n.used == m.used + 4,
        crate::stage::asks(m.plan, m.answers, 0 + 4 * k, aligned_access_patterns_sizes_asks(k)),
{
    crate::stage::lemma_full(m);
    crate::stage::lemma_asks_none(m, 0 + 4 * k);
    let list0 = Seq::<Ask>::empty();
    let words1 = crate::stage::column(
        (crate::categories::c05_global_memory::ALIGNED_SIZES@[k] as int),
        |i: int| i,
    );
    let word1 = ix();
    assert forall|i: int| 0 <= i < words1.len() implies crate::stage::meaning(
        word1,
        m.contents,
        i,
    ) as u64 == #[trigger] words1[i] by {
        reveal_with_fuel(crate::stage::meaning, 1);
    }
    let m1 = crate::stage::lemma_filled(
        m,
        steps[0],
        0,
        num(crate::categories::c05_global_memory::ALIGNED_SIZES@[k as u64 as int]),
        word1,
        words1,
    );
    let table1 = Thing::Table {
        layout: Layout::Val,
        scalar: Scalar::U32,
        columns: seq![words1],
        turn: 0 + 4 * k,
    };
    let m2 = crate::stage::lemma_create(m1, steps[1], 0, Layout::Val, Scalar::U32, 0, table1);
    crate::stage::lemma_asks_more(m, 0 + 4 * k, list0, Ask::Make(table1));
    let list1 = list0.push(Ask::Make(table1));
    let sorted1 = Thing::Sorted { of: Box::new(table1), keys: 1, turn: 1 + 4 * k };
    let m3 = crate::stage::lemma_sort(m2, steps[2], 0, 1, 1, table1, sorted1);
    crate::stage::lemma_asks_more(m, 0 + 4 * k, list1, Ask::Make(sorted1));
    let list2 = list1.push(Ask::Make(sorted1));
    let m4 = crate::stage::lemma_download(m3, steps[3], 1, 0, Scalar::U32, 1, sorted1);
    crate::stage::lemma_asks_more(
        m,
        0 + 4 * k,
        list2,
        Ask::Words { of: sorted1, column: 0, scalar: Scalar::U32 },
    );
    let list3 = list2.push(Ask::Words { of: sorted1, column: 0, scalar: Scalar::U32 });
    let m5 = crate::stage::lemma_look(m4, steps[4]);
    let m6 = crate::stage::lemma_release(m5, steps[5], 0);
    crate::stage::lemma_asks_more(m, 0 + 4 * k, list3, Ask::Other(Request::Release { from: 0 }));
    let list4 = list3.push(Ask::Other(Request::Release { from: 0 }));
    assert(aligned_access_patterns_sizes_asks(k) == list4);
    m6
}

/// The steps of the part `sizes` of `test_aligned_access_patterns`.
proof fn lemma_aligned_access_patterns_sizes_steps(k: int)
    ensures
        ({
            let steps = crate::categories::c05_global_memory::aligned_access_patterns_sizes_round(
                k as u64,
            );
            &&& steps.len() == 6
            &&& crate::stage::fills(
                steps[0],
                0,
                num(crate::categories::c05_global_memory::ALIGNED_SIZES@[k as u64 as int]),
                ix(),
            )
            &&& crate::stage::demands(
                steps[1],
                Request::Create { into: 0, layout: Layout::Val, scalar: Scalar::U32, from: 0 },
            )
            &&& crate::stage::demands(steps[2], Request::Sort { of: 0, keys: 1, into: 1 })
            &&& crate::stage::demands(
                steps[3],
                Request::Download { of: 1, column: 0, scalar: Scalar::U32, into: 1 },
            )
            &&& crate::stage::looks(steps[4])
            &&& crate::stage::inquires(steps[5], Request::Release { from: 0 })
        }),
{
}

/// The first `k` rounds of the part `sizes` of `test_aligned_access_patterns` ask what they should.
proof fn lemma_aligned_access_patterns_sizes_rounds(
    m: Moment,
    part: Seq<Step>,
    k: int,
) -> (n: Moment)
    requires
        0 <= k <= 8,
        m.holds(),
        m.at == 0,
        m.used == 0 + 4 * 0,
        m.at + 48 <= m.plan.steps.len(),
        part == crate::script::rounds(
            8,
            |k: int| crate::categories::c05_global_memory::aligned_access_patterns_sizes_round(
                k as u64,
            ),
        ),
        forall|j: int| 0 <= j < 48 ==> m.plan.steps[0 + j] == #[trigger] part[j],
    ensures
        n.holds(),
        n.plan == m.plan,
        n.answers == m.answers,
        n.at == 0 + 6 * k,
        n.used == 0 + 4 * k,
        forall|j: int|
            0 <= j < k ==> crate::stage::asks(
                m.plan,
                m.answers,
                0 + 4 * j,
                #[trigger] aligned_access_patterns_sizes_asks(j),
            ),
    decreases k,
{
    if k == 0 {
        m
    } else {
        let round = |k: int| crate::categories::c05_global_memory::aligned_access_patterns_sizes_round(
            k as u64,
        );
        let before = lemma_aligned_access_patterns_sizes_rounds(m, part, k - 1);
        assert forall|j: int| 0 <= j < 6 implies m.plan.steps[before.at + j] == #[trigger] crate::categories::c05_global_memory::aligned_access_patterns_sizes_round(
            (k - 1) as u64,
        )[j] by {
            assert forall|k: int| 0 <= k < 8 implies (#[trigger] round(k)).len() == 6 by {
                lemma_aligned_access_patterns_sizes_steps(k);
            }
            crate::stage::lemma_round_place(8, round, 6, k - 1, j);
            assert(part[(k - 1) * 6 + j] == round(k - 1)[j]);
        }
        lemma_aligned_access_patterns_sizes_steps(k - 1);
        lemma_aligned_access_patterns_sizes(
            before,
            crate::categories::c05_global_memory::aligned_access_patterns_sizes_round(
                (k - 1) as u64,
            ),
            k - 1,
        )
    }
}

/// What the device is asked in the part `end` of `test_aligned_access_patterns`.
pub open spec fn aligned_access_patterns_end_asks() -> Seq<Ask> {
    seq![Ask::Other(Request::Sync)]
}

/// The part `end` of `test_aligned_access_patterns` asks what it should.
proof fn lemma_aligned_access_patterns_end(m: Moment, steps: Seq<Step>) -> (n: Moment)
    requires
        m.holds(),
        m.at == 48,
        m.used == 32,
        48 + 1 <= m.plan.steps.len(),
        forall|j: int| 0 <= j < 1 ==> m.plan.steps[48 + j] == #[trigger] steps[j],
        crate::stage::demands(steps[0], Request::Sync),
    ensures
        n.holds(),
        n.plan == m.plan,
        n.answers == m.answers,
        n.at == 48 + 1,
        n.used == m.used + 1,
        crate::stage::asks(m.plan, m.answers, 32, aligned_access_patterns_end_asks()),
{
    crate::stage::lemma_full(m);
    crate::stage::lemma_asks_none(m, 32);
    let list0 = Seq::<Ask>::empty();
    let m1 = crate::stage::lemma_sync(m, steps[0]);
    crate::stage::lemma_asks_more(m, 32, list0, Ask::Other(Request::Sync));
    let list1 = list0.push(Ask::Other(Request::Sync));
    assert(aligned_access_patterns_end_asks() == list1);
    m1
}

/// The steps of the part `end` of `test_aligned_access_patterns`.
proof fn lemma_aligned_access_patterns_end_steps()
    ensures
        ({
            let steps = crate::categories::c05_global_memory::aligned_access_patterns_end_steps();
            &&& steps.len() == 1
            &&& crate::stage::demands(steps[0], Request::Sync)
        }),
{
}

/// In a run of `test_aligned_access_patterns` that passes the device is asked this, in this order,
/// and nothing else: each request about what an earlier one made is about that, and about what was
/// uploaded for it.
pub proof fn law_aligned_access_patterns_asks_about_what_it_made(answers: Seq<Answer>)
    requires
        crate::stage::passes(
            crate::script::plan(
                "test_aligned_access_patterns",
                crate::categories::c05_global_memory::aligned_access_patterns_steps(),
            ),
            answers,
        ),
    ensures
        forall|k: int|
            0 <= k < 8 ==> crate::stage::asks(
                crate::script::plan(
                    "test_aligned_access_patterns",
                    crate::categories::c05_global_memory::aligned_access_patterns_steps(),
                ),
                answers,
                0 + 4 * k,
                #[trigger] aligned_access_patterns_sizes_asks(k),
            ),
        crate::stage::asks(
            crate::script::plan(
                "test_aligned_access_patterns",
                crate::categories::c05_global_memory::aligned_access_patterns_steps(),
            ),
            answers,
            32,
            aligned_access_patterns_end_asks(),
        ),
        crate::stage::asked(
            crate::script::plan(
                "test_aligned_access_patterns",
                crate::categories::c05_global_memory::aligned_access_patterns_steps(),
            ),
            answers,
            33,
        ) is None,
{
    let plan = crate::script::plan(
        "test_aligned_access_patterns",
        crate::categories::c05_global_memory::aligned_access_patterns_steps(),
    );
    let round1 = |k: int| crate::categories::c05_global_memory::aligned_access_patterns_sizes_round(
        k as u64,
    );
    let part1 = crate::script::rounds(8, round1);
    assert forall|k: int| 0 <= k < 8 implies (#[trigger] round1(k)).len() == 6 by {
        lemma_aligned_access_patterns_sizes_steps(k);
    }
    crate::stage::lemma_rounds_length(8, round1, 6);
    let part2 = crate::categories::c05_global_memory::aligned_access_patterns_end_steps();
    lemma_aligned_access_patterns_end_steps();
    let whole1 = part1;
    let whole2 = whole1 + part2;
    assert(plan.steps == whole2);
    let m0 = crate::stage::lemma_start(plan, answers);
    assert forall|j: int| 0 <= j < 48 implies plan.steps[0 + j] == #[trigger] part1[j] by {}
    let m1 = lemma_aligned_access_patterns_sizes_rounds(m0, part1, 8);
    assert forall|j: int| 0 <= j < 1 implies plan.steps[48 + j] == #[trigger] part2[j] by {}
    let m2 = lemma_aligned_access_patterns_end(m1, part2);
    crate::stage::lemma_end(m2);
}

/// What the device is asked in piece 1 of the part `all` of `test_coalesced_access`.
pub open spec fn coalesced_access_all_1_asks() -> Seq<Ask> {
    let words1 = crate::stage::column(32768, |i: int| (32768 - 1) - i);
    let words2 = crate::stage::column(32768, |i: int| i);
    let table1 = Thing::Table {
        layout: Layout::KeyVal,
        scalar: Scalar::U32,
        columns: seq![words1, words2],
        turn: 0,
    };
    let sorted1 = Thing::Sorted { of: Box::new(table1), keys: 1, turn: 1 };
    seq![
        Ask::Make(table1),
        Ask::Make(sorted1),
        Ask::Words { of: sorted1, column: 0, scalar: Scalar::U32 },
        Ask::Words { of: sorted1, column: 1, scalar: Scalar::U32 },
    ]
}

/// Piece 1 of the part `all` of `test_coalesced_access` asks what it should.
proof fn lemma_coalesced_access_all_1(m: Moment, steps: Seq<Step>) -> (n: Moment)
    requires
        m.holds(),
        m.at == 0,
        m.used == 0,
        0 + 9 <= m.plan.steps.len(),
        forall|j: int| 0 <= j < 9 ==> m.plan.steps[0 + j] == #[trigger] steps[j],
        crate::stage::fills(steps[0], 0, num(32768), minus(minus(num(32768), num(1)), ix())),
        crate::stage::fills(steps[1], 1, num(32768), ix()),
        crate::stage::demands(
            steps[2],
            Request::Create { into: 0, layout: Layout::KeyVal, scalar: Scalar::U32, from: 0 },
        ),
        crate::stage::demands(steps[3], Request::Sort { of: 0, keys: 1, into: 1 }),
        crate::stage::demands(
            steps[4],
            Request::Download { of: 1, column: 0, scalar: Scalar::U32, into: 2 },
        ),
        crate::stage::demands(
            steps[5],
            Request::Download { of: 1, column: 1, scalar: Scalar::U32, into: 3 },
        ),
        crate::stage::looks(steps[6]),
        crate::stage::looks(steps[7]),
    ensures
        n.holds(),
        n.plan == m.plan,
        n.answers == m.answers,
        n.at == 0 + 8,
        n.used == m.used + 4,
        crate::stage::asks(m.plan, m.answers, 0, coalesced_access_all_1_asks()),
{
    crate::stage::lemma_full(m);
    crate::stage::lemma_asks_none(m, 0);
    let list0 = Seq::<Ask>::empty();
    let words1 = crate::stage::column(32768, |i: int| (32768 - 1) - i);
    let word1 = minus(minus(num(32768), num(1)), ix());
    assert forall|i: int| 0 <= i < words1.len() implies crate::stage::meaning(
        word1,
        m.contents,
        i,
    ) as u64 == #[trigger] words1[i] by {
        reveal_with_fuel(crate::stage::meaning, 4);
    }
    let m1 = crate::stage::lemma_filled(m, steps[0], 0, num(32768), word1, words1);
    let words2 = crate::stage::column(32768, |i: int| i);
    let word2 = ix();
    assert forall|i: int| 0 <= i < words2.len() implies crate::stage::meaning(
        word2,
        m1.contents,
        i,
    ) as u64 == #[trigger] words2[i] by {
        reveal_with_fuel(crate::stage::meaning, 1);
    }
    let m2 = crate::stage::lemma_filled(m1, steps[1], 1, num(32768), word2, words2);
    let table1 = Thing::Table {
        layout: Layout::KeyVal,
        scalar: Scalar::U32,
        columns: seq![words1, words2],
        turn: 0,
    };
    let m3 = crate::stage::lemma_create(m2, steps[2], 0, Layout::KeyVal, Scalar::U32, 0, table1);
    crate::stage::lemma_asks_more(m, 0, list0, Ask::Make(table1));
    let list1 = list0.push(Ask::Make(table1));
    let sorted1 = Thing::Sorted { of: Box::new(table1), keys: 1, turn: 1 };
    let m4 = crate::stage::lemma_sort(m3, steps[3], 0, 1, 1, table1, sorted1);
    crate::stage::lemma_asks_more(m, 0, list1, Ask::Make(sorted1));
    let list2 = list1.push(Ask::Make(sorted1));
    let m5 = crate::stage::lemma_download(m4, steps[4], 1, 0, Scalar::U32, 2, sorted1);
    crate::stage::lemma_asks_more(
        m,
        0,
        list2,
        Ask::Words { of: sorted1, column: 0, scalar: Scalar::U32 },
    );
    let list3 = list2.push(Ask::Words { of: sorted1, column: 0, scalar: Scalar::U32 });
    let m6 = crate::stage::lemma_download(m5, steps[5], 1, 1, Scalar::U32, 3, sorted1);
    crate::stage::lemma_asks_more(
        m,
        0,
        list3,
        Ask::Words { of: sorted1, column: 1, scalar: Scalar::U32 },
    );
    let list4 = list3.push(Ask::Words { of: sorted1, column: 1, scalar: Scalar::U32 });
    let m7 = crate::stage::lemma_look(m6, steps[6]);
    let m8 = crate::stage::lemma_look(m7, steps[7]);
    assert(coalesced_access_all_1_asks() == list4);
    m8
}

/// What the device is asked in piece 2 of the part `all` of `test_coalesced_access`.
pub open spec fn coalesced_access_all_2_asks() -> Seq<Ask> {
    seq![Ask::Other(Request::Sync)]
}

/// Piece 2 of the part `all` of `test_coalesced_access` asks what it should.
proof fn lemma_coalesced_access_all_2(m: Moment, steps: Seq<Step>) -> (n: Moment)
    requires
        m.holds(),
        m.at == 0 + 8,
        m.used == 4,
        0 + 9 <= m.plan.steps.len(),
        forall|j: int| 0 <= j < 9 ==> m.plan.steps[0 + j] == #[trigger] steps[j],
        crate::stage::demands(steps[8], Request::Sync),
    ensures
        n.holds(),
        n.plan == m.plan,
        n.answers == m.answers,
        n.at == 0 + 9,
        n.used == m.used + 1,
        crate::stage::asks(m.plan, m.answers, 4, coalesced_access_all_2_asks()),
{
    crate::stage::lemma_full(m);
    crate::stage::lemma_asks_none(m, 4);
    let list0 = Seq::<Ask>::empty();
    let m1 = crate::stage::lemma_sync(m, steps[8]);
    crate::stage::lemma_asks_more(m, 4, list0, Ask::Other(Request::Sync));
    let list1 = list0.push(Ask::Other(Request::Sync));
    assert(coalesced_access_all_2_asks() == list1);
    m1
}

/// The steps of the part `all` of `test_coalesced_access`.
proof fn lemma_coalesced_access_all_steps()
    ensures
        ({
            let steps = crate::categories::c05_global_memory::coalesced_access_steps();
            &&& steps.len() == 9
            &&& crate::stage::fills(steps[0], 0, num(32768), minus(minus(num(32768), num(1)), ix()))
            &&& crate::stage::fills(steps[1], 1, num(32768), ix())
            &&& crate::stage::demands(
                steps[2],
                Request::Create { into: 0, layout: Layout::KeyVal, scalar: Scalar::U32, from: 0 },
            )
            &&& crate::stage::demands(steps[3], Request::Sort { of: 0, keys: 1, into: 1 })
            &&& crate::stage::demands(
                steps[4],
                Request::Download { of: 1, column: 0, scalar: Scalar::U32, into: 2 },
            )
            &&& crate::stage::demands(
                steps[5],
                Request::Download { of: 1, column: 1, scalar: Scalar::U32, into: 3 },
            )
            &&& crate::stage::looks(steps[6])
            &&& crate::stage::looks(steps[7])
            &&& crate::stage::demands(steps[8], Request::Sync)
        }),
{
}

/// In a run of `test_coalesced_access` that passes the device is asked this, in this order, and
/// nothing else: each request about what an earlier one made is about that, and about what was
/// uploaded for it.
pub proof fn law_coalesced_access_asks_about_what_it_made(answers: Seq<Answer>)
    requires
        crate::stage::passes(
            crate::script::plan(
                "test_coalesced_access",
                crate::categories::c05_global_memory::coalesced_access_steps(),
            ),
            answers,
        ),
    ensures
        crate::stage::asks(
            crate::script::plan(
                "test_coalesced_access",
                crate::categories::c05_global_memory::coalesced_access_steps(),
            ),
            answers,
            0,
            coalesced_access_all_1_asks(),
        ),
        crate::stage::asks(
            crate::script::plan(
                "test_coalesced_access",
                crate::categories::c05_global_memory::coalesced_access_steps(),
            ),
            answers,
            4,
            coalesced_access_all_2_asks(),
        ),
        crate::stage::asked(
            crate::script::plan(
                "test_coalesced_access",
                crate::categories::c05_global_memory::coalesced_access_steps(),
            ),
            answers,
            5,
        ) is None,
{
    let plan = crate::script::plan(
        "test_coalesced_access",
        crate::categories::c05_global_memory::coalesced_access_steps(),
    );
    let part1 = crate::categories::c05_global_memory::coalesced_access_steps();
    lemma_coalesced_access_all_steps();
    let whole1 = part1;
    assert(plan.steps == whole1);
    let m0 = crate::stage::lemma_start(plan, answers);
    assert forall|j: int| 0 <= j < 9 implies plan.steps[0 + j] == #[trigger] part1[j] by {}
    let m1 = lemma_coalesced_access_all_1(m0, part1);
    let m2 = lemma_coalesced_access_all_2(m1, part1);
    crate::stage::lemma_end(m2);
}

} // verus!
