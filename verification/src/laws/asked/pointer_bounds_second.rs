//! What these tests ask the device in runs that pass: `test_tail_handling_filter`,
//! `test_tail_handling_sort`, `test_boundary_indices`.

use vstd::prelude::*;
use crate::expr::{ix, minus, num, same_as};
use crate::machine::Answer;
use crate::scalar::Scalar;
use crate::script::{Layout, Request, Step};
use crate::stage::{Ask, Moment, Thing};

verus! {

/// What the device is asked in round `k` of the part `sizes` of `test_tail_handling_filter`.
pub open spec fn tail_handling_filter_sizes_asks(k: int) -> Seq<Ask> {
    let words1 = crate::stage::column(
        (crate::categories::c03_pointer_bounds::TAIL_SIZES@[k] as int),
        |i: int| i,
    );
    let table1 = Thing::Table {
        layout: Layout::Val,
        scalar: Scalar::U32,
        columns: seq![words1],
        turn: 0 + 5 * k,
    };
    let words2 = crate::stage::column(
        (crate::categories::c03_pointer_bounds::TAIL_SIZES@[k] as int),
        |i: int| 1,
    );
    let kept1 = Thing::Kept { of: Box::new(table1), mask: words2, turn: 1 + 5 * k };
    seq![
        Ask::Make(table1),
        Ask::Make(kept1),
        Ask::Rows(kept1),
        Ask::Words { of: kept1, column: 0, scalar: Scalar::U32 },
        Ask::Other(Request::Release { from: 0 }),
    ]
}

/// Round `k` of the part `sizes` of `test_tail_handling_filter` asks what it should.
proof fn lemma_tail_handling_filter_sizes(m: Moment, steps: Seq<Step>, k: int) -> (n: Moment)
    requires
        0 <= k < 6,
        m.holds(),
        m.at == 0 + 8 * k,
        m.used == 0 + 5 * k,
        0 + 8 * k + 8 <= m.plan.steps.len(),
        forall|j: int| 0 <= j < 8 ==> m.plan.steps[0 + 8 * k + j] == #[trigger] steps[j],
        crate::stage::fills(
            steps[0],
            0,
            num(crate::categories::c03_pointer_bounds::TAIL_SIZES@[k as u64 as int]),
            ix(),
        ),
        crate::stage::demands(
            steps[1],
            Request::Create { into: 0, layout: Layout::Val, scalar: Scalar::U32, from: 0 },
        ),
        crate::stage::fills(
            steps[2],
            1,
            num(crate::categories::c03_pointer_bounds::TAIL_SIZES@[k as u64 as int]),
            num(1),
        ),
        crate::stage::demands(steps[3], Request::Filter { of: 0, mask: 1, into: 1 }),
        crate::stage::counts(steps[4], 1),
        crate::stage::demands(
            steps[5],
            Request::Download { of: 1, column: 0, scalar: Scalar::U32, into: 2 },
        ),
        crate::stage::looks(steps[6]),
        crate::stage::inquires(steps[7], Request::Release { from: 0 }),
    ensures
        n.holds(),
        n.plan == m.plan,
        n.answers == m.answers,
        n.at == 0 + 8 * k + 8,
        n.used == m.used + 5,
        crate::stage::asks(m.plan, m.answers, 0 + 5 * k, tail_handling_filter_sizes_asks(k)),
{
    crate::stage::lemma_full(m);
    crate::stage::lemma_asks_none(m, 0 + 5 * k);
    let list0 = Seq::<Ask>::empty();
    let words1 = crate::stage::column(
        (crate::categories::c03_pointer_bounds::TAIL_SIZES@[k] as int),
        |i: int| i,
    );
    let word1 = ix();
    assert forall|i: int| 0 <= i < words1.len() implies crate::stage::meaning(
        word1,
        m.contents,
        i,
    ) as u64 == #[trigger] words1[i] by {
        reveal_with_fuel(crate::stage::meaning, 1);
    }
    let m1 = crate::stage::lemma_filled(
        m,
        steps[0],
        0,
        num(crate::categories::c03_pointer_bounds::TAIL_SIZES@[k as u64 as int]),
        word1,
        words1,
    );
    let table1 = Thing::Table {
        layout: Layout::Val,
        scalar: Scalar::U32,
        columns: seq![words1],
        turn: 0 + 5 * k,
    };
    let m2 = crate::stage::lemma_create(m1, steps[1], 0, Layout::Val, Scalar::U32, 0, table1);
    crate::stage::lemma_asks_more(m, 0 + 5 * k, list0, Ask::Make(table1));
    let list1 = list0.push(Ask::Make(table1));
    let words2 = crate::stage::column(
        (crate::categories::c03_pointer_bounds::TAIL_SIZES@[k] as int),
        |i: int| 1,
    );
    let word3 = num(1);
    assert forall|i: int| 0 <= i < words2.len() implies crate::stage::meaning(
        word3,
        m2.contents,
        i,
    ) as u64 == #[trigger] words2[i] by {
        reveal_with_fuel(crate::stage::meaning, 2);
    }
    let m3 = crate::stage::lemma_filled(
        m2,
        steps[2],
        1,
        num(crate::categories::c03_pointer_bounds::TAIL_SIZES@[k as u64 as int]),
        word3,
        words2,
    );
    let kept1 = Thing::Kept { of: Box::new(table1), mask: words2, turn: 1 + 5 * k };
    let m4 = crate::stage::lemma_filter(m3, steps[3], 0, 1, 1, table1, words2, kept1);
    crate::stage::lemma_asks_more(m, 0 + 5 * k, list1, Ask::Make(kept1));
    let list2 = list1.push(Ask::Make(kept1));
    let m5 = crate::stage::lemma_count(m4, steps[4], 1, kept1);
    crate::stage::lemma_asks_more(m, 0 + 5 * k, list2, Ask::Rows(kept1));
    let list3 = list2.push(Ask::Rows(kept1));
    let m6 = crate::stage::lemma_download(m5, steps[5], 1, 0, Scalar::U32, 2, kept1);
    crate::stage::lemma_asks_more(
        m,
        0 + 5 * k,
        list3,
        Ask::Words { of: kept1, column: 0, scalar: Scalar::U32 },
    );
    let list4 = list3.push(Ask::Words { of: kept1, column: 0, scalar: Scalar::U32 });
    let m7 = crate::stage::lemma_look(m6, steps[6]);
    let m8 = crate::stage::lemma_release(m7, steps[7], 0);
    crate::stage::lemma_asks_more(m, 0 + 5 * k, list4, Ask::Other(Request::Release { from: 0 }));
    let list5 = list4.push(Ask::Other(Request::Release { from: 0 }));
    assert(tail_handling_filter_sizes_asks(k) == list5);
    m8
}

/// The steps of the part `sizes` of `test_tail_handling_filter`.
proof fn lemma_tail_handling_filter_sizes_steps(k: int)
    ensures
        ({
            let steps = crate::categories::c03_pointer_bounds::tail_handling_filter_sizes_round(
                k as u64,
            );
            &&& steps.len() == 8
            &&& crate::stage::fills(
                steps[0],
                0,
                num(crate::categories::c03_pointer_bounds::TAIL_SIZES@[k as u64 as int]),
                ix(),
            )
            &&& crate::stage::demands(
                steps[1],
                Request::Create { into: 0, layout: Layout::Val, scalar: Scalar::U32, from: 0 },
            )
            &&& crate::stage::fills(
                steps[2],
                1,
                num(crate::categories::c03_pointer_bounds::TAIL_SIZES@[k as u64 as int]),
                num(1),
            )
            &&& crate::stage::demands(steps[3], Request::Filter { of: 0, mask: 1, into: 1 })
            &&& crate::stage::counts(steps[4], 1)
            &&& crate::stage::demands(
                steps[5],
                Request::Download { of: 1, column: 0, scalar: Scalar::U32, into: 2 },
            )
            &&& crate::stage::looks(steps[6])
            &&& crate::stage::inquires(steps[7], Request::Release { from: 0 })
        }),
{
}

/// The first `k` rounds of the part `sizes` of `test_tail_handling_filter` ask what they should.
proof fn lemma_tail_handling_filter_sizes_rounds(m: Moment, part: Seq<Step>, k: int) -> (n: Moment)
    requires
        0 <= k <= 6,
        m.holds(),
        m.at == 0,
        m.used == 0 + 5 * 0,
        m.at + 48 <= m.plan.steps.len(),
        part == crate::script::rounds(
            6,
            |k: int| crate::categories::c03_pointer_bounds::tail_handling_filter_sizes_round(
                k as u64,
            ),
        ),
        forall|j: int| 0 <= j < 48 ==> m.plan.steps[0 + j] == #[trigger] part[j],
    ensures
        n.holds(),
        n.plan == m.plan,
        n.answers == m.answers,
        n.at == 0 + 8 * k,
        n.used == 0 + 5 * k,
        forall|j: int|
            0 <= j < k ==> crate::stage::asks(
                m.plan,
                m.answers,
                0 + 5 * j,
                #[trigger] tail_handling_filter_sizes_asks(j),
            ),
    decreases k,
{
    if k == 0 {
        m
    } else {
        let round = |k: int| crate::categories::c03_pointer_bounds::tail_handling_filter_sizes_round(
            k as u64,
        );
        let before = lemma_tail_handling_filter_sizes_rounds(m, part, k - 1);
        assert forall|j: int| 0 <= j < 8 implies m.plan.steps[before.at + j] == #[trigger] crate::categories::c03_pointer_bounds::tail_handling_filter_sizes_round(
            (k - 1) as u64,
        )[j] by {
            assert forall|k: int| 0 <= k < 6 implies (#[trigger] round(k)).len() == 8 by {
                lemma_tail_handling_filter_sizes_steps(k);
            }
            crate::stage::lemma_round_place(6, round, 8, k - 1, j);
            assert(part[(k - 1) * 8 + j] == round(k - 1)[j]);
        }
        lemma_tail_handling_filter_sizes_steps(k - 1);
        lemma_tail_handling_filter_sizes(
            before,
            crate::categories::c03_pointer_bounds::tail_handling_filter_sizes_round((k - 1) as u64),
            k - 1,
        )
    }
}

/// What the device is asked in the part `end` of `test_tail_handling_filter`.
pub open spec fn tail_handling_filter_end_asks() -> Seq<Ask> {
    seq![Ask::Other(Request::Sync)]
}

/// The part `end` of `test_tail_handling_filter` asks what it should.
proof fn lemma_tail_handling_filter_end(m: Moment, steps: Seq<Step>) -> (n: Moment)
    requires
        m.holds(),
        m.at == 48,
        m.used == 30,
        48 + 1 <= m.plan.steps.len(),
        forall|j: int| 0 <= j < 1 ==> m.plan.steps[48 + j] == #[trigger] steps[j],
        crate::stage::demands(steps[0], Request::Sync),
    ensures
        n.holds(),
        n.plan == m.plan,
        n.answers == m.answers,
        n.at == 48 + 1,
        n.used == m.used + 1,
        crate::stage::asks(m.plan, m.answers, 30, tail_handling_filter_end_asks()),
{
    crate::stage::lemma_full(m);
    crate::stage::lemma_asks_none(m, 30);
    let list0 = Seq::<Ask>::empty();
    let m1 = crate::stage::lemma_sync(m, steps[0]);
    crate::stage::lemma_asks_more(m, 30, list0, Ask::Other(Request::Sync));
    let list1 = list0.push(Ask::Other(Request::Sync));
    assert(tail_handling_filter_end_asks() == list1);
    m1
}

/// The steps of the part `end` of `test_tail_handling_filter`.
proof fn lemma_tail_handling_filter_end_steps()
    ensures
        ({
            let steps = crate::categories::c03_pointer_bounds::tail_handling_filter_end_steps();
            &&& steps.len() == 1
            &&& crate::stage::demands(steps[0], Request::Sync)
        }),
{
}

/// In a run of `test_tail_handling_filter` that passes the device is asked this, in this order, and
/// nothing else: each request about what an earlier one made is about that, and about what was
/// uploaded for it.
pub proof fn law_tail_handling_filter_asks_about_what_it_made(answers: Seq<Answer>)
    requires
        crate::stage::passes(
            crate::script::plan(
                "test_tail_handling_filter",
                crate::categories::c03_pointer_bounds::tail_handling_filter_steps(),
            ),
            answers,
        ),
    ensures
        forall|k: int|
            0 <= k < 6 ==> crate::stage::asks(
                crate::script::plan(
                    "test_tail_handling_filter",
                    crate::categories::c03_pointer_bounds::tail_handling_filter_steps(),
                ),
                answers,
                0 + 5 * k,
                #[trigger] tail_handling_filter_sizes_asks(k),
            ),
        crate::stage::asks(
            crate::script::plan(
                "test_tail_handling_filter",
                crate::categories::c03_pointer_bounds::tail_handling_filter_steps(),
            ),
            answers,
            30,
            tail_handling_filter_end_asks(),
        ),
        crate::stage::asked(
            crate::script::plan(
                "test_tail_handling_filter",
                crate::categories::c03_pointer_bounds::tail_handling_filter_steps(),
            ),
            answers,
            31,
        ) is None,
{
    let plan = crate::script::plan(
        "test_tail_handling_filter",
        crate::categories::c03_pointer_bounds::tail_handling_filter_steps(),
    );
    let round1 = |k: int| crate::categories::c03_pointer_bounds::tail_handling_filter_sizes_round(
        k as u64,
    );
    let part1 = crate::script::rounds(6, round1);
    assert forall|k: int| 0 <= k < 6 implies (#[trigger] round1(k)).len() == 8 by {
        lemma_tail_handling_filter_sizes_steps(k);
    }
    crate::stage::lemma_rounds_length(6, round1, 8);
    let part2 = crate::categories::c03_pointer_bounds::tail_handling_filter_end_steps();
    lemma_tail_handling_filter_end_steps();
    let whole1 = part1;
    let whole2 = whole1 + part2;
    assert(plan.steps == whole2);
    let m0 = crate::stage::lemma_start(plan, answers);
    assert forall|j: int| 0 <= j < 48 implies plan.steps[0 + j] == #[trigger] part1[j] by {}
    let m1 = lemma_tail_handling_filter_sizes_rounds(m0, part1, 6);
    assert forall|j: int| 0 <= j < 1 implies plan.steps[48 + j] == #[trigger] part2[j] by {}
    let m2 = lemma_tail_handling_filter_end(m1, part2);
    crate::stage::lemma_end(m2);
}

/// What the device is asked in round `k` of the part `sizes` of `test_tail_handling_sort`.
pub open spec fn tail_handling_sort_sizes_asks(k: int) -> Seq<Ask> {
    let words1 = crate::stage::column(
        (crate::categories::c03_pointer_bounds::TAIL_SIZES@[k] as int),
        |i: int| ((crate::categories::c03_pointer_bounds::TAIL_SIZES@[k] as int) - 1) - i,
    );
    let table1 = Thing::Table {
        layout: Layout::Val,
        scalar: Scalar::U32,
        columns: seq![words1],
        turn: 0 + 5 * k,
    };
    let sorted1 = Thing::Sorted { of: Box::new(table1), keys: 1, turn: 1 + 5 * k };
    seq![
        Ask::Make(table1),
        Ask::Make(sorted1),
        Ask::Rows(sorted1),
        Ask::Words { of: sorted1, column: 0, scalar: Scalar::U32 },
        Ask::Other(Request::Release { from: 0 }),
    ]
}

/// Round `k` of the part `sizes` of `test_tail_handling_sort` asks what it should.
proof fn lemma_tail_handling_sort_sizes(m: Moment, steps: Seq<Step>, k: int) -> (n: Moment)
    requires
        0 <= k < 6,
        m.holds(),
        m.at == 0 + 7 * k,
        m.used == 0 + 5 * k,
        0 + 7 * k + 7 <= m.plan.steps.len(),
        forall|j: int| 0 <= j < 7 ==> m.plan.steps[0 + 7 * k + j] == #[trigger] steps[j],
        crate::stage::fills(
            steps[0],
            0,
            num(crate::categories::c03_pointer_bounds::TAIL_SIZES@[k as u64 as int]),
            minus(
                minus(
                    num(crate::categories::c03_pointer_bounds::TAIL_SIZES@[k as u64 as int]),
                    num(1),
                ),
                ix(),
            ),
        ),
        crate::stage::demands(
            steps[1],
            Request::Create { into: 0, layout: Layout::Val, scalar: Scalar::U32, from: 0 },
        ),
        crate::stage::demands(steps[2], Request::Sort { of: 0, keys: 1, into: 1 }),
        crate::stage::counts(steps[3], 1),
        crate::stage::demands(
            steps[4],
            Request::Download { of: 1, column: 0, scalar: Scalar::U32, into: 2 },
        ),
        crate::stage::looks(steps[5]),
        crate::stage::inquires(steps[6], Request::Release { from: 0 }),
    ensures
        n.holds(),
        n.plan == m.plan,
        n.answers == m.answers,
        n.at == 0 + 7 * k + 7,
        n.used == m.used + 5,
        crate::stage::asks(m.plan, m.answers, 0 + 5 * k, tail_handling_sort_sizes_asks(k)),
{
    crate::stage::lemma_full(m);
    crate::stage::lemma_asks_none(m, 0 + 5 * k);
    let list0 = Seq::<Ask>::empty();
    let words1 = crate::stage::column(
        (crate::categories::c03_pointer_bounds::TAIL_SIZES@[k] as int),
        |i: int| ((crate::categories::c03_pointer_bounds::TAIL_SIZES@[k] as int) - 1) - i,
    );
    let word1 = minus(
        minus(num(crate::categories::c03_pointer_bounds::TAIL_SIZES@[k as u64 as int]), num(1)),
        ix(),
    );
    assert forall|i: int| 0 <= i < words1.len() implies crate::stage::meaning(
        word1,
        m.contents,
        i,
    ) as u64 == #[trigger] words1[i] by {
        reveal_with_fuel(crate::stage::meaning, 4);
    }
    let m1 = crate::stage::lemma_filled(
        m,
        steps[0],
        0,
        num(crate::categories::c03_pointer_bounds::TAIL_SIZES@[k as u64 as int]),
        word1,
        words1,
    );
    let table1 = Thing::Table {
        layout: Layout::Val,
        scalar: Scalar::U32,
        columns: seq![words1],
        turn: 0 + 5 * k,
    };
    let m2 = crate::stage::lemma_create(m1, steps[1], 0, Layout::Val, Scalar::U32, 0, table1);
    crate::stage::lemma_asks_more(m, 0 + 5 * k, list0, Ask::Make(table1));
    let list1 = list0.push(Ask::Make(table1));
    let sorted1 = Thing::Sorted { of: Box::new(table1), keys: 1, turn: 1 + 5 * k };
    let m3 = crate::stage::lemma_sort(m2, steps[2], 0, 1, 1, table1, sorted1);
    crate::stage::lemma_asks_more(m, 0 + 5 * k, list1, Ask::Make(sorted1));
    let list2 = list1.push(Ask::Make(sorted1));
    let m4 = crate::stage::lemma_count(m3, steps[3], 1, sorted1);
    crate::stage::lemma_asks_more(m, 0 + 5 * k, list2, Ask::Rows(sorted1));
    let list3 = list2.push(Ask::Rows(sorted1));
    let m5 = crate::stage::lemma_download(m4, steps[4], 1, 0, Scalar::U32, 2, sorted1);
    crate::stage::lemma_asks_more(
        m,
        0 + 5 * k,
        list3,
        Ask::Words { of: sorted1, column: 0, scalar: Scalar::U32 },
    );
    let list4 = list3.push(Ask::Words { of: sorted1, column: 0, scalar: Scalar::U32 });
    let m6 = crate::stage::lemma_look(m5, steps[5]);
    let m7 = crate::stage::lemma_release(m6, steps[6], 0);
    crate::stage::lemma_asks_more(m, 0 + 5 * k, list4, Ask::Other(Request::Release { from: 0 }));
    let list5 = list4.push(Ask::Other(Request::Release { from: 0 }));
    assert(tail_handling_sort_sizes_asks(k) == list5);
    m7
}

/// The steps of the part `sizes` of `test_tail_handling_sort`.
proof fn lemma_tail_handling_sort_sizes_steps(k: int)
    ensures
        ({
            let steps = crate::categories::c03_pointer_bounds::tail_handling_sort_sizes_round(
                k as u64,
            );
            &&& steps.len() == 7
            &&& crate::stage::fills(
                steps[0],
                0,
                num(crate::categories::c03_pointer_bounds::TAIL_SIZES@[k as u64 as int]),
                minus(
                    minus(
                        num(crate::categories::c03_pointer_bounds::TAIL_SIZES@[k as u64 as int]),
                        num(1),
                    ),
                    ix(),
                ),
            )
            &&& crate::stage::demands(
                steps[1],
                Request::Create { into: 0, layout: Layout::Val, scalar: Scalar::U32, from: 0 },
            )
            &&& crate::stage::demands(steps[2], Request::Sort { of: 0, keys: 1, into: 1 })
            &&& crate::stage::counts(steps[3], 1)
            &&& crate::stage::demands(
                steps[4],
                Request::Download { of: 1, column: 0, scalar: Scalar::U32, into: 2 },
            )
            &&& crate::stage::looks(steps[5])
            &&& crate::stage::inquires(steps[6], Request::Release { from: 0 })
        }),
{
}

/// The first `k` rounds of the part `sizes` of `test_tail_handling_sort` ask what they should.
proof fn lemma_tail_handling_sort_sizes_rounds(m: Moment, part: Seq<Step>, k: int) -> (n: Moment)
    requires
        0 <= k <= 6,
        m.holds(),
        m.at == 0,
        m.used == 0 + 5 * 0,
        m.at + 42 <= m.plan.steps.len(),
        part == crate::script::rounds(
            6,
            |k: int| crate::categories::c03_pointer_bounds::tail_handling_sort_sizes_round(
                k as u64,
            ),
        ),
        forall|j: int| 0 <= j < 42 ==> m.plan.steps[0 + j] == #[trigger] part[j],
    ensures
        n.holds(),
        n.plan == m.plan,
        n.answers == m.answers,
        n.at == 0 + 7 * k,
        n.used == 0 + 5 * k,
        forall|j: int|
            0 <= j < k ==> crate::stage::asks(
                m.plan,
                m.answers,
                0 + 5 * j,
                #[trigger] tail_handling_sort_sizes_asks(j),
            ),
    decreases k,
{
    if k == 0 {
        m
    } else {
        let round = |k: int| crate::categories::c03_pointer_bounds::tail_handling_sort_sizes_round(
            k as u64,
        );
        let before = lemma_tail_handling_sort_sizes_rounds(m, part, k - 1);
        assert forall|j: int| 0 <= j < 7 implies m.plan.steps[before.at + j] == #[trigger] crate::categories::c03_pointer_bounds::tail_handling_sort_sizes_round(
            (k - 1) as u64,
        )[j] by {
            assert forall|k: int| 0 <= k < 6 implies (#[trigger] round(k)).len() == 7 by {
                lemma_tail_handling_sort_sizes_steps(k);
            }
            crate::stage::lemma_round_place(6, round, 7, k - 1, j);
            assert(part[(k - 1) * 7 + j] == round(k - 1)[j]);
        }
        lemma_tail_handling_sort_sizes_steps(k - 1);
        lemma_tail_handling_sort_sizes(
            before,
            crate::categories::c03_pointer_bounds::tail_handling_sort_sizes_round((k - 1) as u64),
            k - 1,
        )
    }
}

/// What the device is asked in the part `end` of `test_tail_handling_sort`.
pub open spec fn tail_handling_sort_end_asks() -> Seq<Ask> {
    seq![Ask::Other(Request::Sync)]
}

/// The part `end` of `test_tail_handling_sort` asks what it should.
proof fn lemma_tail_handling_sort_end(m: Moment, steps: Seq<Step>) -> (n: Moment)
    requires
        m.holds(),
        m.at == 42,
        m.used == 30,
        42 + 1 <= m.plan.steps.len(),
        forall|j: int| 0 <= j < 1 ==> m.plan.steps[42 + j] == #[trigger] steps[j],
        crate::stage::demands(steps[0], Request::Sync),
    ensures
        n.holds(),
        n.plan == m.plan,
        n.answers == m.answers,
        n.at == 42 + 1,
        n.used == m.used + 1,
        crate::stage::asks(m.plan, m.answers, 30, tail_handling_sort_end_asks()),
{
    crate::stage::lemma_full(m);
    crate::stage::lemma_asks_none(m, 30);
    let list0 = Seq::<Ask>::empty();
    let m1 = crate::stage::lemma_sync(m, steps[0]);
    crate::stage::lemma_asks_more(m, 30, list0, Ask::Other(Request::Sync));
    let list1 = list0.push(Ask::Other(Request::Sync));
    assert(tail_handling_sort_end_asks() == list1);
    m1
}

/// The steps of the part `end` of `test_tail_handling_sort`.
proof fn lemma_tail_handling_sort_end_steps()
    ensures
        ({
            let steps = crate::categories::c03_pointer_bounds::tail_handling_sort_end_steps();
            &&& steps.len() == 1
            &&& crate::stage::demands(steps[0], Request::Sync)
        }),
{
}

/// In a run of `test_tail_handling_sort` that passes the device is asked this, in this order, and
/// nothing else: each request about what an earlier one made is about that, and about what was
/// uploaded for it.
pub proof fn law_tail_handling_sort_asks_about_what_it_made(answers: Seq<Answer>)
    requires
        crate::stage::passes(
            crate::script::plan(
                "test_tail_handling_sort",
                crate::categories::c03_pointer_bounds::tail_handling_sort_steps(),
            ),
            answers,
        ),
    ensures
        forall|k: int|
            0 <= k < 6 ==> crate::stage::asks(
                crate::script::plan(
                    "test_tail_handling_sort",
                    crate::categories::c03_pointer_bounds::tail_handling_sort_steps(),
                ),
                answers,
                0 + 5 * k,
                #[trigger] tail_handling_sort_sizes_asks(k),
            ),
        crate::stage::asks(
            crate::script::plan(
                "test_tail_handling_sort",
                crate::categories::c03_pointer_bounds::tail_handling_sort_steps(),
            ),
            answers,
            30,
            tail_handling_sort_end_asks(),
        ),
        crate::stage::asked(
            crate::script::plan(
                "test_tail_handling_sort",
                crate::categories::c03_pointer_bounds::tail_handling_sort_steps(),
            ),
            answers,
            31,
        ) is None,
{
    let plan = crate::script::plan(
        "test_tail_handling_sort",
        crate::categories::c03_pointer_bounds::tail_handling_sort_steps(),
    );
    let round1 = |k: int| crate::categories::c03_pointer_bounds::tail_handling_sort_sizes_round(
        k as u64,
    );
    let part1 = crate::script::rounds(6, round1);
    assert forall|k: int| 0 <= k < 6 implies (#[trigger] round1(k)).len() == 7 by {
        lemma_tail_handling_sort_sizes_steps(k);
    }
    crate::stage::lemma_rounds_length(6, round1, 7);
    let part2 = crate::categories::c03_pointer_bounds::tail_handling_sort_end_steps();
    lemma_tail_handling_sort_end_steps();
    let whole1 = part1;
    let whole2 = whole1 + part2;
    assert(plan.steps == whole2);
    let m0 = crate::stage::lemma_start(plan, answers);
    assert forall|j: int| 0 <= j < 42 implies plan.steps[0 + j] == #[trigger] part1[j] by {}
    let m1 = lemma_tail_handling_sort_sizes_rounds(m0, part1, 6);
    assert forall|j: int| 0 <= j < 1 implies plan.steps[42 + j] == #[trigger] part2[j] by {}
    let m2 = lemma_tail_handling_sort_end(m1, part2);
    crate::stage::lemma_end(m2);
}

/// A buffer that is uploaded in the part `all` of `test_boundary_indices`.
pub open spec fn boundary_indices_all_table1() -> Thing {
    Thing::Table {
        layout: Layout::Val,
        scalar: Scalar::U32,
        columns: seq![crate::stage::column(1000, |i: int| i)],
        turn: 0,
    }
}

/// A column that is filled in the part `all` of `test_boundary_indices`.
pub open spec fn boundary_indices_all_words3() -> Seq<u64> {
    crate::stage::column(1000, |i: int| crate::stage::flag((i == (1000 - 1))))
}

/// What the device is asked in piece 1 of the part `all` of `test_boundary_indices`.
pub open spec fn boundary_indices_all_1_asks() -> Seq<Ask> {
    let words2 = crate::stage::column(1000, |i: int| crate::stage::flag((i == 0)));
    let kept1 = Thing::Kept { of: Box::new(boundary_indices_all_table1()), mask: words2, turn: 1 };
    seq![
        Ask::Make(boundary_indices_all_table1()),
        Ask::Make(kept1),
        Ask::Rows(kept1),
        Ask::Words { of: kept1, column: 0, scalar: Scalar::U32 },
    ]
}

/// Piece 1 of the part `all` of `test_boundary_indices` asks what it should.
proof fn lemma_boundary_indices_all_1(m: Moment, steps: Seq<Step>) -> (n: Moment)
    requires
        m.holds(),
        m.at == 0,
        m.used == 0,
        0 + 13 <= m.plan.steps.len(),
        forall|j: int| 0 <= j < 13 ==> m.plan.steps[0 + j] == #[trigger] steps[j],
        crate::stage::fills(steps[0], 0, num(1000), ix()),
        crate::stage::demands(
            steps[1],
            Request::Create { into: 0, layout: Layout::Val, scalar: Scalar::U32, from: 0 },
        ),
        crate::stage::fills(steps[2], 1, num(1000), same_as(ix(), num(0))),
        crate::stage::demands(steps[3], Request::Filter { of: 0, mask: 1, into: 1 }),
        crate::stage::counts(steps[4], 1),
        crate::stage::demands(
            steps[5],
            Request::Download { of: 1, column: 0, scalar: Scalar::U32, into: 2 },
        ),
        crate::stage::looks(steps[6]),
        crate::stage::fills(steps[7], 3, num(1000), same_as(ix(), minus(num(1000), num(1)))),
    ensures
        n.holds(),
        n.plan == m.plan,
        n.answers == m.answers,
        n.at == 0 + 8,
        n.used == m.used + 4,
        n.contents.columns[3] == boundary_indices_all_words3(),
        n.scene.buffer(0) == boundary_indices_all_table1(),
        crate::stage::asks(m.plan, m.answers, 0, boundary_indices_all_1_asks()),
{
    crate::stage::lemma_full(m);
    crate::stage::lemma_asks_none(m, 0);
    let list0 = Seq::<Ask>::empty();
    let words1 = crate::stage::column(1000, |i: int| i);
    let word1 = ix();
    assert forall|i: int| 0 <= i < words1.len() implies crate::stage::meaning(
        word1,
        m.contents,
        i,
    ) as u64 == #[trigger] words1[i] by {
        reveal_with_fuel(crate::stage::meaning, 1);
    }
    let m1 = crate::stage::lemma_filled(m, steps[0], 0, num(1000), word1, words1);
    let m2 = crate::stage::lemma_create(
        m1,
        steps[1],
        0,
        Layout::Val,
        Scalar::U32,
        0,
        boundary_indices_all_table1(),
    );
    crate::stage::lemma_asks_more(m, 0, list0, Ask::Make(boundary_indices_all_table1()));
    let list1 = list0.push(Ask::Make(boundary_indices_all_table1()));
    let words2 = crate::stage::column(1000, |i: int| crate::stage::flag((i == 0)));
    let word3 = same_as(ix(), num(0));
    assert forall|i: int| 0 <= i < words2.len() implies crate::stage::meaning(
        word3,
        m2.contents,
        i,
    ) as u64 == #[trigger] words2[i] by {
        reveal_with_fuel(crate::stage::meaning, 3);
    }
    let m3 = crate::stage::lemma_filled(m2, steps[2], 1, num(1000), word3, words2);
    let kept1 = Thing::Kept { of: Box::new(boundary_indices_all_table1()), mask: words2, turn: 1 };
    let m4 = crate::stage::lemma_filter(
        m3,
        steps[3],
        0,
        1,
        1,
        boundary_indices_all_table1(),
        words2,
        kept1,
    );
    crate::stage::lemma_asks_more(m, 0, list1, Ask::Make(kept1));
    let list2 = list1.push(Ask::Make(kept1));
    let m5 = crate::stage::lemma_count(m4, steps[4], 1, kept1);
    crate::stage::lemma_asks_more(m, 0, list2, Ask::Rows(kept1));
    let list3 = list2.push(Ask::Rows(kept1));
    let m6 = crate::stage::lemma_download(m5, steps[5], 1, 0, Scalar::U32, 2, kept1);
    crate::stage::lemma_asks_more(
        m,
        0,
        list3,
        Ask::Words { of: kept1, column: 0, scalar: Scalar::U32 },
    );
    let list4 = list3.push(Ask::Words { of: kept1, column: 0, scalar: Scalar::U32 });
    let m7 = crate::stage::lemma_look(m6, steps[6]);
    let words3 = boundary_indices_all_words3();
    let word8 = same_as(ix(), minus(num(1000), num(1)));
    assert forall|i: int| 0 <= i < words3.len() implies crate::stage::meaning(
        word8,
        m7.contents,
        i,
    ) as u64 == #[trigger] words3[i] by {
        reveal_with_fuel(crate::stage::meaning, 4);
    }
    let m8 = crate::stage::lemma_filled(m7, steps[7], 3, num(1000), word8, words3);
    assert(boundary_indices_all_1_asks() == list4);
    m8
}

/// What the device is asked in piece 2 of the part `all` of `test_boundary_indices`.
pub open spec fn boundary_indices_all_2_asks() -> Seq<Ask> {
    let kept2 = Thing::Kept {
        of: Box::new(boundary_indices_all_table1()),
        mask: boundary_indices_all_words3(),
        turn: 4,
    };
    seq![
        Ask::Make(kept2),
        Ask::Rows(kept2),
        Ask::Words { of: kept2, column: 0, scalar: Scalar::U32 },
        Ask::Other(Request::Sync),
    ]
}

/// Piece 2 of the part `all` of `test_boundary_indices` asks what it should.
proof fn lemma_boundary_indices_all_2(m: Moment, steps: Seq<Step>) -> (n: Moment)
    requires
        m.holds(),
        m.at == 0 + 8,
        m.used == 4,
        0 + 13 <= m.plan.steps.len(),
        forall|j: int| 0 <= j < 13 ==> m.plan.steps[0 + j] == #[trigger] steps[j],
        crate::stage::demands(steps[8], Request::Filter { of: 0, mask: 3, into: 2 }),
        crate::stage::counts(steps[9], 2),
        crate::stage::demands(
            steps[10],
            Request::Download { of: 2, column: 0, scalar: Scalar::U32, into: 4 },
        ),
        crate::stage::looks(steps[11]),
        crate::stage::demands(steps[12], Request::Sync),
        m.contents.columns[3] == boundary_indices_all_words3(),
        m.scene.buffer(0) == boundary_indices_all_table1(),
    ensures
        n.holds(),
        n.plan == m.plan,
        n.answers == m.answers,
        n.at == 0 + 13,
        n.used == m.used + 4,
        crate::stage::asks(m.plan, m.answers, 4, boundary_indices_all_2_asks()),
{
    crate::stage::lemma_full(m);
    crate::stage::lemma_asks_none(m, 4);
    let list0 = Seq::<Ask>::empty();
    let kept2 = Thing::Kept {
        of: Box::new(boundary_indices_all_table1()),
        mask: boundary_indices_all_words3(),
        turn: 4,
    };
    let m1 = crate::stage::lemma_filter(
        m,
        steps[8],
        0,
        3,
        2,
        boundary_indices_all_table1(),
        boundary_indices_all_words3(),
        kept2,
    );
    crate::stage::lemma_asks_more(m, 4, list0, Ask::Make(kept2));
    let list1 = list0.push(Ask::Make(kept2));
    let m2 = crate::stage::lemma_count(m1, steps[9], 2, kept2);
    crate::stage::lemma_asks_more(m, 4, list1, Ask::Rows(kept2));
    let list2 = list1.push(Ask::Rows(kept2));
    let m3 = crate::stage::lemma_download(m2, steps[10], 2, 0, Scalar::U32, 4, kept2);
    crate::stage::lemma_asks_more(
        m,
        4,
        list2,
        Ask::Words { of: kept2, column: 0, scalar: Scalar::U32 },
    );
    let list3 = list2.push(Ask::Words { of: kept2, column: 0, scalar: Scalar::U32 });
    let m4 = crate::stage::lemma_look(m3, steps[11]);
    let m5 = crate::stage::lemma_sync(m4, steps[12]);
    crate::stage::lemma_asks_more(m, 4, list3, Ask::Other(Request::Sync));
    let list4 = list3.push(Ask::Other(Request::Sync));
    assert(boundary_indices_all_2_asks() == list4);
    m5
}

/// The steps of the part `all` of `test_boundary_indices`.
proof fn lemma_boundary_indices_all_steps()
    ensures
        ({
            let steps = crate::categories::c03_pointer_bounds::boundary_indices_steps();
            &&& steps.len() == 13
            &&& crate::stage::fills(steps[0], 0, num(1000), ix())
            &&& crate::stage::demands(
                steps[1],
                Request::Create { into: 0, layout: Layout::Val, scalar: Scalar::U32, from: 0 },
            )
            &&& crate::stage::fills(steps[2], 1, num(1000), same_as(ix(), num(0)))
            &&& crate::stage::demands(steps[3], Request::Filter { of: 0, mask: 1, into: 1 })
            &&& crate::stage::counts(steps[4], 1)
            &&& crate::stage::demands(
                steps[5],
                Request::Download { of: 1, column: 0, scalar: Scalar::U32, into: 2 },
            )
            &&& crate::stage::looks(steps[6])
            &&& crate::stage::fills(steps[7], 3, num(1000), same_as(ix(), minus(num(1000), num(1))))
            &&& crate::stage::demands(steps[8], Request::Filter { of: 0, mask: 3, into: 2 })
            &&& crate::stage::counts(steps[9], 2)
            &&& crate::stage::demands(
                steps[10],
                Request::Download { of: 2, column: 0, scalar: Scalar::U32, into: 4 },
            )
            &&& crate::stage::looks(steps[11])
            &&& crate::stage::demands(steps[12], Request::Sync)
        }),
{
}

/// In a run of `test_boundary_indices` that passes the device is asked this, in this order, and
/// nothing else: each request about what an earlier one made is about that, and about what was
/// uploaded for it.
pub proof fn law_boundary_indices_asks_about_what_it_made(answers: Seq<Answer>)
    requires
        crate::stage::passes(
            crate::script::plan(
                "test_boundary_indices",
                crate::categories::c03_pointer_bounds::boundary_indices_steps(),
            ),
            answers,
        ),
    ensures
        crate::stage::asks(
            crate::script::plan(
                "test_boundary_indices",
                crate::categories::c03_pointer_bounds::boundary_indices_steps(),
            ),
            answers,
            0,
            boundary_indices_all_1_asks(),
        ),
        crate::stage::asks(
            crate::script::plan(
                "test_boundary_indices",
                crate::categories::c03_pointer_bounds::boundary_indices_steps(),
            ),
            answers,
            4,
            boundary_indices_all_2_asks(),
        ),
        crate::stage::asked(
            crate::script::plan(
                "test_boundary_indices",
                crate::categories::c03_pointer_bounds::boundary_indices_steps(),
            ),
            answers,
            8,
        ) is None,
{
    let plan = crate::script::plan(
        "test_boundary_indices",
        crate::categories::c03_pointer_bounds::boundary_indices_steps(),
    );
    let part1 = crate::categories::c03_pointer_bounds::boundary_indices_steps();
    lemma_boundary_indices_all_steps();
    let whole1 = part1;
    assert(plan.steps == whole1);
    let m0 = crate::stage::lemma_start(plan, answers);
    assert forall|j: int| 0 <= j < 13 implies plan.steps[0 + j] == #[trigger] part1[j] by {}
    let m1 = lemma_boundary_indices_all_1(m0, part1);
    let m2 = lemma_boundary_indices_all_2(m1, part1);
    crate::stage::lemma_end(m2);
}

} // verus!
