//! What these tests ask the device in runs that pass: `test_off_by_one_filter`,
//! `test_off_by_one_sort`, `test_grid_stride_loop`.

use vstd::prelude::*;
use crate::expr::{differs, ix, minus, modulo, num, times};
use crate::machine::Answer;
use crate::scalar::Scalar;
use crate::script::{Layout, Request, Step};
use crate::stage::{Ask, Moment, Thing};

verus! {

/// What the device is asked in piece 1 of round `k` of the part `sizes` of
/// `test_off_by_one_filter`.
pub open spec fn off_by_one_filter_sizes_1_asks(k: int) -> Seq<Ask> {
    let words1 = crate::stage::column(
        (crate::categories::c03_pointer_bounds::FILTER_SIZES@[k] as int),
        |i: int| i,
    );
    let table1 = Thing::Table {
        layout: Layout::Val,
        scalar: Scalar::U32,
        columns: seq![words1],
        turn: 0 + 5 * k,
    };
    let words2 = crate::stage::column(
        (crate::categories::c03_pointer_bounds::FILTER_SIZES@[k] as int),
        |i: int| crate::stage::flag(
            (i != ((crate::categories::c03_pointer_bounds::FILTER_SIZES@[k] as int) - 1)),
        ),
    );
    let kept1 = Thing::Kept { of: Box::new(table1), mask: words2, turn: 1 + 5 * k };
    seq![
        Ask::Make(table1),
        Ask::Make(kept1),
        Ask::Rows(kept1),
        Ask::Words { of: kept1, column: 0, scalar: Scalar::U32 },
    ]
}

/// Piece 1 of round `k` of the part `sizes` of `test_off_by_one_filter` asks what it should.
proof fn lemma_off_by_one_filter_sizes_1(m: Moment, steps: Seq<Step>, k: int) -> (n: Moment)
    requires
        0 <= k < 12,
        m.holds(),
        m.at == 0 + 9 * k,
        m.used == 0 + 5 * k,
        0 + 9 * k + 9 <= m.plan.steps.len(),
        forall|j: int| 0 <= j < 9 ==> m.plan.steps[0 + 9 * k + j] == #[trigger] steps[j],
        crate::stage::fills(
            steps[0],
            0,
            num(crate::categories::c03_pointer_bounds::FILTER_SIZES@[k as u64 as int]),
            ix(),
        ),
        crate::stage::demands(
            steps[1],
            Request::Create { into: 0, layout: Layout::Val, scalar: Scalar::U32, from: 0 },
        ),
        crate::stage::fills(
            steps[2],
            1,
            num(crate::categories::c03_pointer_bounds::FILTER_SIZES@[k as u64 as int]),
            differs(
                ix(),
                minus(
                    num(crate::categories::c03_pointer_bounds::FILTER_SIZES@[k as u64 as int]),
                    num(1),
                ),
            ),
        ),
        crate::stage::demands(steps[3], Request::Filter { of: 0, mask: 1, into: 1 }),
        crate::stage::counts(steps[4], 1),
        crate::stage::demands(
            steps[5],
            Request::Download { of: 1, column: 0, scalar: Scalar::U32, into: 2 },
        ),
        crate::stage::looks(steps[6]),
        crate::stage::looks(steps[7]),
    ensures
        n.holds(),
        n.plan == m.plan,
        n.answers == m.answers,
        n.at == 0 + 9 * k + 8,
        n.used == m.used + 4,
        crate::stage::asks(m.plan, m.answers, 0 + 5 * k, off_by_one_filter_sizes_1_asks(k)),
{
    crate::stage::lemma_full(m);
    crate::stage::lemma_asks_none(m, 0 + 5 * k);
    let list0 = Seq::<Ask>::empty();
    let words1 = crate::stage::column(
        (crate::categories::c03_pointer_bounds::FILTER_SIZES@[k] as int),
        |i: int| i,
    );
    let word1 = ix();
    assert forall|i: int| 0 <= i < words1.len() implies crate::stage::meaning(
        word1,
        m.contents,
        i,
    ) as u64 == #[trigger] words1[i] by {
        reveal_with_fuel(crate::stage::meaning, 1);
    }
    let m1 = crate::stage::lemma_filled(
        m,
        steps[0],
        0,
        num(crate::categories::c03_pointer_bounds::FILTER_SIZES@[k as u64 as int]),
        word1,
        words1,
    );
    let table1 = Thing::Table {
        layout: Layout::Val,
        scalar: Scalar::U32,
        columns: seq![words1],
        turn: 0 + 5 * k,
    };
    let m2 = crate::stage::lemma_create(m1, steps[1], 0, Layout::Val, Scalar::U32, 0, table1);
    crate::stage::lemma_asks_more(m, 0 + 5 * k, list0, Ask::Make(table1));
    let list1 = list0.push(Ask::Make(table1));
    let words2 = crate::stage::column(
        (crate::categories::c03_pointer_bounds::FILTER_SIZES@[k] as int),
        |i: int| crate::stage::flag(
            (i != ((crate::categories::c03_pointer_bounds::FILTER_SIZES@[k] as int) - 1)),
        ),
    );
    let word3 = differs(
        ix(),
        minus(num(crate::categories::c03_pointer_bounds::FILTER_SIZES@[k as u64 as int]), num(1)),
    );
    assert forall|i: int| 0 <= i < words2.len() implies crate::stage::meaning(
        word3,
        m2.contents,
        i,
    ) as u64 == #[trigger] words2[i] by {
        reveal_with_fuel(crate::stage::meaning, 5);
    }
    let m3 = crate::stage::lemma_filled(
        m2,
        steps[2],
        1,
        num(crate::categories::c03_pointer_bounds::FILTER_SIZES@[k as u64 as int]),
        word3,
        words2,
    );
    let kept1 = Thing::Kept { of: Box::new(table1), mask: words2, turn: 1 + 5 * k };
    let m4 = crate::stage::lemma_filter(m3, steps[3], 0, 1, 1, table1, words2, kept1);
    crate::stage::lemma_asks_more(m, 0 + 5 * k, list1, Ask::Make(kept1));
    let list2 = list1.push(Ask::Make(kept1));
    let m5 = crate::stage::lemma_count(m4, steps[4], 1, kept1);
    crate::stage::lemma_asks_more(m, 0 + 5 * k, list2, Ask::Rows(kept1));
    let list3 = list2.push(Ask::Rows(kept1));
    let m6 = crate::stage::lemma_download(m5, steps[5], 1, 0, Scalar::U32, 2, kept1);
    crate::stage::lemma_asks_more(
        m,
        0 + 5 * k,
        list3,
        Ask::Words { of: kept1, column: 0, scalar: Scalar::U32 },
    );
    let list4 = list3.push(Ask::Words { of: kept1, column: 0, scalar: Scalar::U32 });
    let m7 = crate::stage::lemma_look(m6, steps[6]);
    let m8 = crate::stage::lemma_look(m7, steps[7]);
    assert(off_by_one_filter_sizes_1_asks(k) == list4);
    m8
}

/// What the device is asked in piece 2 of round `k` of the part `sizes` of
/// `test_off_by_one_filter`.
pub open spec fn off_by_one_filter_sizes_2_asks(k: int) -> Seq<Ask> {
    seq![Ask::Other(Request::Release { from: 0 })]
}

/// Piece 2 of round `k` of the part `sizes` of `test_off_by_one_filter` asks what it should.
proof fn lemma_off_by_one_filter_sizes_2(m: Moment, steps: Seq<Step>, k: int) -> (n: Moment)
    requires
        0 <= k < 12,
        m.holds(),
        m.at == 0 + 9 * k + 8,
        m.used == 4 + 5 * k,
        0 + 9 * k + 9 <= m.plan.steps.len(),
        forall|j: int| 0 <= j < 9 ==> m.plan.steps[0 + 9 * k + j] == #[trigger] steps[j],
        crate::stage::inquires(steps[8], Request::Release { from: 0 }),
    ensures
        n.holds(),
        n.plan == m.plan,
        n.answers == m.answers,
        n.at == 0 + 9 * k + 9,
        n.used == m.used + 1,
        crate::stage::asks(m.plan, m.answers, 4 + 5 * k, off_by_one_filter_sizes_2_asks(k)),
{
    crate::stage::lemma_full(m);
    crate::stage::lemma_asks_none(m, 4 + 5 * k);
    let list0 = Seq::<Ask>::empty();
    let m1 = crate::stage::lemma_release(m, steps[8], 0);
    crate::stage::lemma_asks_more(m, 4 + 5 * k, list0, Ask::Other(Request::Release { from: 0 }));
    let list1 = list0.push(Ask::Other(Request::Release { from: 0 }));
    assert(off_by_one_filter_sizes_2_asks(k) == list1);
    m1
}

/// The steps of the part `sizes` of `test_off_by_one_filter`.
proof fn lemma_off_by_one_filter_sizes_steps(k: int)
    ensures
        ({
            let steps = crate::categories::c03_pointer_bounds::off_by_one_filter_sizes_round(
                k as u64,
            );
            &&& steps.len() == 9
            &&& crate::stage::fills(
                steps[0],
                0,
                num(crate::categories::c03_pointer_bounds::FILTER_SIZES@[k as u64 as int]),
                ix(),
            )
            &&& crate::stage::demands(
                steps[1],
                Request::Create { into: 0, layout: Layout::Val, scalar: Scalar::U32, from: 0 },
            )
            &&& crate::stage::fills(
                steps[2],
                1,
                num(crate::categories::c03_pointer_bounds::FILTER_SIZES@[k as u64 as int]),
                differs(
                    ix(),
                    minus(
                        num(crate::categories::c03_pointer_bounds::FILTER_SIZES@[k as u64 as int]),
                        num(1),
                    ),
                ),
            )
            &&& crate::stage::demands(steps[3], Request::Filter { of: 0, mask: 1, into: 1 })
            &&& crate::stage::counts(steps[4], 1)
            &&& crate::stage::demands(
                steps[5],
                Request::Download { of: 1, column: 0, scalar: Scalar::U32, into: 2 },
            )
            &&& crate::stage::looks(steps[6])
            &&& crate::stage::looks(steps[7])
            &&& crate::stage::inquires(steps[8], Request::Release { from: 0 })
        }),
{
}

/// Round `k` of the part `sizes` of `test_off_by_one_filter` asks what it should.
proof fn lemma_off_by_one_filter_sizes_round(m: Moment, k: int) -> (n: Moment)
    requires
        0 <= k < 12,
        m.holds(),
        m.at == 0 + 9 * k,
        m.used == 0 + 5 * k,
        m.at + 9 <= m.plan.steps.len(),
        forall|j: int|
            0 <= j < 9 ==> m.plan.steps[0 + 9 * k + j] == #[trigger] crate::categories::c03_pointer_bounds::off_by_one_filter_sizes_round(
                k as u64,
            )[j],
    ensures
        n.holds(),
        n.plan == m.plan,
        n.answers == m.answers,
        n.at == 0 + 9 * (k + 1),
        n.used == 0 + 5 * (k + 1),
        crate::stage::asks(m.plan, m.answers, 0 + 5 * k, off_by_one_filter_sizes_1_asks(k)),
        crate::stage::asks(m.plan, m.answers, 4 + 5 * k, off_by_one_filter_sizes_2_asks(k)),
{
    let steps = crate::categories::c03_pointer_bounds::off_by_one_filter_sizes_round(k as u64);
    lemma_off_by_one_filter_sizes_steps(k);
    let m1 = lemma_off_by_one_filter_sizes_1(m, steps, k);
    lemma_off_by_one_filter_sizes_2(m1, steps, k)
}

/// The first `k` rounds of the part `sizes` of `test_off_by_one_filter` ask what they should.
proof fn lemma_off_by_one_filter_sizes_rounds(m: Moment, part: Seq<Step>, k: int) -> (n: Moment)
    requires
        0 <= k <= 12,
        m.holds(),
        m.at == 0,
        m.used == 0 + 5 * 0,
        m.at + 108 <= m.plan.steps.len(),
        part == crate::script::rounds(
            12,
            |k: int| crate::categories::c03_pointer_bounds::off_by_one_filter_sizes_round(k as u64),
        ),
        forall|j: int| 0 <= j < 108 ==> m.plan.steps[0 + j] == #[trigger] part[j],
    ensures
        n.holds(),
        n.plan == m.plan,
        n.answers == m.answers,
        n.at == 0 + 9 * k,
        n.used == 0 + 5 * k,
        forall|j: int|
            0 <= j < k ==> crate::stage::asks(
                m.plan,
                m.answers,
                0 + 5 * j,
                #[trigger] off_by_one_filter_sizes_1_asks(j),
            ),
        forall|j: int|
            0 <= j < k ==> crate::stage::asks(
                m.plan,
                m.answers,
                4 + 5 * j,
                #[trigger] off_by_one_filter_sizes_2_asks(j),
            ),
    decreases k,
{
    if k == 0 {
        m
    } else {
        let round = |k: int| crate::categories::c03_pointer_bounds::off_by_one_filter_sizes_round(
            k as u64,
        );
        let before = lemma_off_by_one_filter_sizes_rounds(m, part, k - 1);
        assert forall|j: int| 0 <= j < 9 implies m.plan.steps[before.at + j] == #[trigger] crate::categories::c03_pointer_bounds::off_by_one_filter_sizes_round(
            (k - 1) as u64,
        )[j] by {
            assert forall|k: int| 0 <= k < 12 implies (#[trigger] round(k)).len() == 9 by {
                lemma_off_by_one_filter_sizes_steps(k);
            }
            crate::stage::lemma_round_place(12, round, 9, k - 1, j);
            assert(part[(k - 1) * 9 + j] == round(k - 1)[j]);
        }
        lemma_off_by_one_filter_sizes_round(before, k - 1)
    }
}

/// What the device is asked in the part `end` of `test_off_by_one_filter`.
pub open spec fn off_by_one_filter_end_asks() -> Seq<Ask> {
    seq![Ask::Other(Request::Sync)]
}

/// The part `end` of `test_off_by_one_filter` asks what it should.
proof fn lemma_off_by_one_filter_end(m: Moment, steps: Seq<Step>) -> (n: Moment)
    requires
        m.holds(),
        m.at == 108,
        m.used == 60,
        108 + 1 <= m.plan.steps.len(),
        forall|j: int| 0 <= j < 1 ==> m.plan.steps[108 + j] == #[trigger] steps[j],
        crate::stage::demands(steps[0], Request::Sync),
    ensures
        n.holds(),
        n.plan == m.plan,
        n.answers == m.answers,
        n.at == 108 + 1,
        n.used == m.used + 1,
        crate::stage::asks(m.plan, m.answers, 60, off_by_one_filter_end_asks()),
{
    crate::stage::lemma_full(m);
    crate::stage::lemma_asks_none(m, 60);
    let list0 = Seq::<Ask>::empty();
    let m1 = crate::stage::lemma_sync(m, steps[0]);
    crate::stage::lemma_asks_more(m, 60, list0, Ask::Other(Request::Sync));
    let list1 = list0.push(Ask::Other(Request::Sync));
    assert(off_by_one_filter_end_asks() == list1);
    m1
}

/// The steps of the part `end` of `test_off_by_one_filter`.
proof fn lemma_off_by_one_filter_end_steps()
    ensures
        ({
            let steps = crate::categories::c03_pointer_bounds::off_by_one_filter_end_steps();
            &&& steps.len() == 1
            &&& crate::stage::demands(steps[0], Request::Sync)
        }),
{
}

/// In a run of `test_off_by_one_filter` that passes the device is asked this, in this order, and
/// nothing else: each request about what an earlier one made is about that, and about what was
/// uploaded for it.
pub proof fn law_off_by_one_filter_asks_about_what_it_made(answers: Seq<Answer>)
    requires
        crate::stage::passes(
            crate::script::plan(
                "test_off_by_one_filter",
                crate::categories::c03_pointer_bounds::off_by_one_filter_steps(),
            ),
            answers,
        ),
    ensures
        forall|k: int|
            0 <= k < 12 ==> crate::stage::asks(
                crate::script::plan(
                    "test_off_by_one_filter",
                    crate::categories::c03_pointer_bounds::off_by_one_filter_steps(),
                ),
                answers,
                0 + 5 * k,
                #[trigger] off_by_one_filter_sizes_1_asks(k),
            ),
        forall|k: int|
            0 <= k < 12 ==> crate::stage::asks(
                crate::script::plan(
                    "test_off_by_one_filter",
                    crate::categories::c03_pointer_bounds::off_by_one_filter_steps(),
                ),
                answers,
                4 + 5 * k,
                #[trigger] off_by_one_filter_sizes_2_asks(k),
            ),
        crate::stage::asks(
            crate::script::plan(
                "test_off_by_one_filter",
                crate::categories::c03_pointer_bounds::off_by_one_filter_steps(),
            ),
            answers,
            60,
            off_by_one_filter_end_asks(),
        ),
        crate::stage::asked(
            crate::script::plan(
                "test_off_by_one_filter",
                crate::categories::c03_pointer_bounds::off_by_one_filter_steps(),
            ),
            answers,
            61,
        ) is None,
{
    let plan = crate::script::plan(
        "test_off_by_one_filter",
        crate::categories::c03_pointer_bounds::off_by_one_filter_steps(),
    );
    let round1 = |k: int| crate::categories::c03_pointer_bounds::off_by_one_filter_sizes_round(
        k as u64,
    );
    let part1 = crate::script::rounds(12, round1);
    assert forall|k: int| 0 <= k < 12 implies (#[trigger] round1(k)).len() == 9 by {
        lemma_off_by_one_filter_sizes_steps(k);
    }
    crate::stage::lemma_rounds_length(12, round1, 9);
    let part2 = crate::categories::c03_pointer_bounds::off_by_one_filter_end_steps();
    lemma_off_by_one_filter_end_steps();
    let whole1 = part1;
    let whole2 = whole1 + part2;
    assert(plan.steps == whole2);
    let m0 = crate::stage::lemma_start(plan, answers);
    assert forall|j: int| 0 <= j < 108 implies plan.steps[0 + j] == #[trigger] part1[j] by {}
    let m1 = lemma_off_by_one_filter_sizes_rounds(m0, part1, 12);
    assert forall|j: int| 0 <= j < 1 implies plan.steps[108 + j] == #[trigger] part2[j] by {}
    let m2 = lemma_off_by_one_filter_end(m1, part2);
    crate::stage::lemma_end(m2);
}

/// What the device is asked in piece 1 of round `k` of the part `sizes` of `test_off_by_one_sort`.
pub open spec fn off_by_one_sort_sizes_1_asks(k: int) -> Seq<Ask> {
    let words1 = crate::stage::column(
        (crate::categories::c03_pointer_bounds::SORT_SIZES@[k] as int),
        |i: int| ((crate::categories::c03_pointer_bounds::SORT_SIZES@[k] as int) - 1) - i,
    );
    let words2 = crate::stage::column(
        (crate::categories::c03_pointer_bounds::SORT_SIZES@[k] as int),
        |i: int| i * 10,
    );
    let table1 = Thing::Table {
        layout: Layout::KeyVal,
        scalar: Scalar::U32,
        columns: seq![words1, words2],
        turn: 0 + 6 * k,
    };
    let sorted1 = Thing::Sorted { of: Box::new(table1), keys: 1, turn: 1 + 6 * k };
    seq![
        Ask::Make(table1),
        Ask::Make(sorted1),
        Ask::Rows(sorted1),
        Ask::Words { of: sorted1, column: 0, scalar: Scalar::U32 },
        Ask::Words { of: sorted1, column: 1, scalar: Scalar::U32 },
    ]
}

/// Piece 1 of round `k` of the part `sizes` of `test_off_by_one_sort` asks what it should.
proof fn lemma_off_by_one_sort_sizes_1(m: Moment, steps: Seq<Step>, k: int) -> (n: Moment)
    requires
        0 <= k < 9,
        m.holds(),
        m.at == 0 + 11 * k,
        m.used == 0 + 6 * k,
        0 + 11 * k + 11 <= m.plan.steps.len(),
        forall|j: int| 0 <= j < 11 ==> m.plan.steps[0 + 11 * k + j] == #[trigger] steps[j],
        crate::stage::fills(
            steps[0],
            0,
            num(crate::categories::c03_pointer_bounds::SORT_SIZES@[k as u64 as int]),
            minus(
                minus(
                    num(crate::categories::c03_pointer_bounds::SORT_SIZES@[k as u64 as int]),
                    num(1),
                ),
                ix(),
            ),
        ),
        crate::stage::fills(
            steps[1],
            1,
            num(crate::categories::c03_pointer_bounds::SORT_SIZES@[k as u64 as int]),
            times(ix(), num(10)),
        ),
        crate::stage::demands(
            steps[2],
            Request::Create { into: 0, layout: Layout::KeyVal, scalar: Scalar::U32, from: 0 },
        ),
        crate::stage::demands(steps[3], Request::Sort { of: 0, keys: 1, into: 1 }),
        crate::stage::counts(steps[4], 1),
        crate::stage::demands(
            steps[5],
            Request::Download { of: 1, column: 0, scalar: Scalar::U32, into: 2 },
        ),
        crate::stage::demands(
            steps[6],
            Request::Download { of: 1, column: 1, scalar: Scalar::U32, into: 3 },
        ),
        crate::stage::looks(steps[7]),
    ensures
        n.holds(),
        n.plan == m.plan,
        n.answers == m.answers,
        n.at == 0 + 11 * k + 8,
        n.used == m.used + 5,
        crate::stage::asks(m.plan, m.answers, 0 + 6 * k, off_by_one_sort_sizes_1_asks(k)),
{
    crate::stage::lemma_full(m);
    crate::stage::lemma_asks_none(m, 0 + 6 * k);
    let list0 = Seq::<Ask>::empty();
    let words1 = crate::stage::column(
        (crate::categories::c03_pointer_bounds::SORT_SIZES@[k] as int),
        |i: int| ((crate::categories::c03_pointer_bounds::SORT_SIZES@[k] as int) - 1) - i,
    );
    let word1 = minus(
        minus(num(crate::categories::c03_pointer_bounds::SORT_SIZES@[k as u64 as int]), num(1)),
        ix(),
    );
    assert forall|i: int| 0 <= i < words1.len() implies crate::stage::meaning(
        word1,
        m.contents,
        i,
    ) as u64 == #[trigger] words1[i] by {
        reveal_with_fuel(crate::stage::meaning, 4);
    }
    let m1 = crate::stage::lemma_filled(
        m,
        steps[0],
        0,
        num(crate::categories::c03_pointer_bounds::SORT_SIZES@[k as u64 as int]),
        word1,
        words1,
    );
    let words2 = crate::stage::column(
        (crate::categories::c03_pointer_bounds::SORT_SIZES@[k] as int),
        |i: int| i * 10,
    );
    let word2 = times(ix(), num(10));
    assert forall|i: int| 0 <= i < words2.len() implies crate::stage::meaning(
        word2,
        m1.contents,
        i,
    ) as u64 == #[trigger] words2[i] by {
        reveal_with_fuel(crate::stage::meaning, 3);
    }
    let m2 = crate::stage::lemma_filled(
        m1,
        steps[1],
        1,
        num(crate::categories::c03_pointer_bounds::SORT_SIZES@[k as u64 as int]),
        word2,
        words2,
    );
    let table1 = Thing::Table {
        layout: Layout::KeyVal,
        scalar: Scalar::U32,
        columns: seq![words1, words2],
        turn: 0 + 6 * k,
    };
    let m3 = crate::stage::lemma_create(m2, steps[2], 0, Layout::KeyVal, Scalar::U32, 0, table1);
    crate::stage::lemma_asks_more(m, 0 + 6 * k, list0, Ask::Make(table1));
    let list1 = list0.push(Ask::Make(table1));
    let sorted1 = Thing::Sorted { of: Box::new(table1), keys: 1, turn: 1 + 6 * k };
    let m4 = crate::stage::lemma_sort(m3, steps[3], 0, 1, 1, table1, sorted1);
    crate::stage::lemma_asks_more(m, 0 + 6 * k, list1, Ask::Make(sorted1));
    let list2 = list1.push(Ask::Make(sorted1));
    let m5 = crate::stage::lemma_count(m4, steps[4], 1, sorted1);
    crate::stage::lemma_asks_more(m, 0 + 6 * k, list2, Ask::Rows(sorted1));
    let list3 = list2.push(Ask::Rows(sorted1));
    let m6 = crate::stage::lemma_download(m5, steps[5], 1, 0, Scalar::U32, 2, sorted1);
    crate::stage::lemma_asks_more(
        m,
        0 + 6 * k,
        list3,
        Ask::Words { of: sorted1, column: 0, scalar: Scalar::U32 },
    );
    let list4 = list3.push(Ask::Words { of: sorted1, column: 0, scalar: Scalar::U32 });
    let m7 = crate::stage::lemma_download(m6, steps[6], 1, 1, Scalar::U32, 3, sorted1);
    crate::stage::lemma_asks_more(
        m,
        0 + 6 * k,
        list4,
        Ask::Words { of: sorted1, column: 1, scalar: Scalar::U32 },
    );
    let list5 = list4.push(Ask::Words { of: sorted1, column: 1, scalar: Scalar::U32 });
    let m8 = crate::stage::lemma_look(m7, steps[7]);
    assert(off_by_one_sort_sizes_1_asks(k) == list5);
    m8
}

/// What the device is asked in piece 2 of round `k` of the part `sizes` of `test_off_by_one_sort`.
pub open spec fn off_by_one_sort_sizes_2_asks(k: int) -> Seq<Ask> {
    seq![Ask::Other(Request::Release { from: 0 })]
}

/// Piece 2 of round `k` of the part `sizes` of `test_off_by_one_sort` asks what it should.
proof fn lemma_off_by_one_sort_sizes_2(m: Moment, steps: Seq<Step>, k: int) -> (n: Moment)
    requires
        0 <= k < 9,
        m.holds(),
        m.at == 0 + 11 * k + 8,
        m.used == 5 + 6 * k,
        0 + 11 * k + 11 <= m.plan.steps.len(),
        forall|j: int| 0 <= j < 11 ==> m.plan.steps[0 + 11 * k + j] == #[trigger] steps[j],
        crate::stage::looks(steps[8]),
        crate::stage::looks(steps[9]),
        crate::stage::inquires(steps[10], Request::Release { from: 0 }),
    ensures
        n.holds(),
        n.plan == m.plan,
        n.answers == m.answers,
        n.at == 0 + 11 * k + 11,
        n.used == m.used + 1,
        crate::stage::asks(m.plan, m.answers, 5 + 6 * k, off_by_one_sort_sizes_2_asks(k)),
{
    crate::stage::lemma_full(m);
    crate::stage::lemma_asks_none(m, 5 + 6 * k);
    let list0 = Seq::<Ask>::empty();
    let m1 = crate::stage::lemma_look(m, steps[8]);
    let m2 = crate::stage::lemma_look(m1, steps[9]);
    let m3 = crate::stage::lemma_release(m2, steps[10], 0);
    crate::stage::lemma_asks_more(m, 5 + 6 * k, list0, Ask::Other(Request::Release { from: 0 }));
    let list1 = list0.push(Ask::Other(Request::Release { from: 0 }));
    assert(off_by_one_sort_sizes_2_asks(k) == list1);
    m3
}

/// The steps of the part `sizes` of `test_off_by_one_sort`.
proof fn lemma_off_by_one_sort_sizes_steps(k: int)
    ensures
        ({
            let steps = crate::categories::c03_pointer_bounds::off_by_one_sort_sizes_round(
                k as u64,
            );
            &&& steps.len() == 11
            &&& crate::stage::fills(
                steps[0],
                0,
                num(crate::categories::c03_pointer_bounds::SORT_SIZES@[k as u64 as int]),
                minus(
                    minus(
                        num(crate::categories::c03_pointer_bounds::SORT_SIZES@[k as u64 as int]),
                        num(1),
                    ),
                    ix(),
                ),
            )
            &&& crate::stage::fills(
                steps[1],
                1,
                num(crate::categories::c03_pointer_bounds::SORT_SIZES@[k as u64 as int]),
                times(ix(), num(10)),
            )
            &&& crate::stage::demands(
                steps[2],
                Request::Create { into: 0, layout: Layout::KeyVal, scalar: Scalar::U32, from: 0 },
            )
            &&& crate::stage::demands(steps[3], Request::Sort { of: 0, keys: 1, into: 1 })
            &&& crate::stage::counts(steps[4], 1)
            &&& crate::stage::demands(
                steps[5],
                Request::Download { of: 1, column: 0, scalar: Scalar::U32, into: 2 },
            )
            &&& crate::stage::demands(
                steps[6],
                Request::Download { of: 1, column: 1, scalar: Scalar::U32, into: 3 },
            )
            &&& crate::stage::looks(steps[7])
            &&& crate::stage::looks(steps[8])
            &&& crate::stage::looks(steps[9])
            &&& crate::stage::inquires(steps[10], Request::Release { from: 0 })
        }),
{
}

/// Round `k` of the part `sizes` of `test_off_by_one_sort` asks what it should.
proof fn lemma_off_by_one_sort_sizes_round(m: Moment, k: int) -> (n: Moment)
    requires
        0 <= k < 9,
        m.holds(),
        m.at == 0 + 11 * k,
        m.used == 0 + 6 * k,
        m.at + 11 <= m.plan.steps.len(),
        forall|j: int|
            0 <= j < 11 ==> m.plan.steps[0 + 11 * k + j] == #[trigger] crate::categories::c03_pointer_bounds::off_by_one_sort_sizes_round(
                k as u64,
            )[j],
    ensures
        n.holds(),
        n.plan == m.plan,
        n.answers == m.answers,
        n.at == 0 + 11 * (k + 1),
        n.used == 0 + 6 * (k + 1),
        crate::stage::asks(m.plan, m.answers, 0 + 6 * k, off_by_one_sort_sizes_1_asks(k)),
        crate::stage::asks(m.plan, m.answers, 5 + 6 * k, off_by_one_sort_sizes_2_asks(k)),
{
    let steps = crate::categories::c03_pointer_bounds::off_by_one_sort_sizes_round(k as u64);
    lemma_off_by_one_sort_sizes_steps(k);
    let m1 = lemma_off_by_one_sort_sizes_1(m, steps, k);
    lemma_off_by_one_sort_sizes_2(m1, steps, k)
}

/// The first `k` rounds of the part `sizes` of `test_off_by_one_sort` ask what they should.
proof fn lemma_off_by_one_sort_sizes_rounds(m: Moment, part: Seq<Step>, k: int) -> (n: Moment)
    requires
        0 <= k <= 9,
        m.holds(),
        m.at == 0,
        m.used == 0 + 6 * 0,
        m.at + 99 <= m.plan.steps.len(),
        part == crate::script::rounds(
            9,
            |k: int| crate::categories::c03_pointer_bounds::off_by_one_sort_sizes_round(k as u64),
        ),
        forall|j: int| 0 <= j < 99 ==> m.plan.steps[0 + j] == #[trigger] part[j],
    ensures
        n.holds(),
        n.plan == m.plan,
        n.answers == m.answers,
        n.at == 0 + 11 * k,
        n.used == 0 + 6 * k,
        forall|j: int|
            0 <= j < k ==> crate::stage::asks(
                m.plan,
                m.answers,
                0 + 6 * j,
                #[trigger] off_by_one_sort_sizes_1_asks(j),
            ),
        forall|j: int|
            0 <= j < k ==> crate::stage::asks(
                m.plan,
                m.answers,
                5 + 6 * j,
                #[trigger] off_by_one_sort_sizes_2_asks(j),
            ),
    decreases k,
{
    if k == 0 {
        m
    } else {
        let round = |k: int| crate::categories::c03_pointer_bounds::off_by_one_sort_sizes_round(
            k as u64,
        );
        let before = lemma_off_by_one_sort_sizes_rounds(m, part, k - 1);
        assert forall|j: int| 0 <= j < 11 implies m.plan.steps[before.at + j] == #[trigger] crate::categories::c03_pointer_bounds::off_by_one_sort_sizes_round(
            (k - 1) as u64,
        )[j] by {
            assert forall|k: int| 0 <= k < 9 implies (#[trigger] round(k)).len() == 11 by {
                lemma_off_by_one_sort_sizes_steps(k);
            }
            crate::stage::lemma_round_place(9, round, 11, k - 1, j);
            assert(part[(k - 1) * 11 + j] == round(k - 1)[j]);
        }
        lemma_off_by_one_sort_sizes_round(before, k - 1)
    }
}

/// What the device is asked in the part `end` of `test_off_by_one_sort`.
pub open spec fn off_by_one_sort_end_asks() -> Seq<Ask> {
    seq![Ask::Other(Request::Sync)]
}

/// The part `end` of `test_off_by_one_sort` asks what it should.
proof fn lemma_off_by_one_sort_end(m: Moment, steps: Seq<Step>) -> (n: Moment)
    requires
        m.holds(),
        m.at == 99,
        m.used == 54,
        99 + 1 <= m.plan.steps.len(),
        forall|j: int| 0 <= j < 1 ==> m.plan.steps[99 + j] == #[trigger] steps[j],
        crate::stage::demands(steps[0], Request::Sync),
    ensures
        n.holds(),
        n.plan == m.plan,
        n.answers == m.answers,
        n.at == 99 + 1,
        n.used == m.used + 1,
        crate::stage::asks(m.plan, m.answers, 54, off_by_one_sort_end_asks()),
{
    crate::stage::lemma_full(m);
    crate::stage::lemma_asks_none(m, 54);
    let list0 = Seq::<Ask>::empty();
    let m1 = crate::stage::lemma_sync(m, steps[0]);
    crate::stage::lemma_asks_more(m, 54, list0, Ask::Other(Request::Sync));
    let list1 = list0.push(Ask::Other(Request::Sync));
    assert(off_by_one_sort_end_asks() == list1);
    m1
}

/// The steps of the part `end` of `test_off_by_one_sort`.
proof fn lemma_off_by_one_sort_end_steps()
    ensures
        ({
            let steps = crate::categories::c03_pointer_bounds::off_by_one_sort_end_steps();
            &&& steps.len() == 1
            &&& crate::stage::demands(steps[0], Request::Sync)
        }),
{
}

/// In a run of `test_off_by_one_sort` that passes the device is asked this, in this order, and
/// nothing else: each request about what an earlier one made is about that, and about what was
/// uploaded for it.
pub proof fn law_off_by_one_sort_asks_about_what_it_made(answers: Seq<Answer>)
    requires
        crate::stage::passes(
            crate::script::plan(
                "test_off_by_one_sort",
                crate::categories::c03_pointer_bounds::off_by_one_sort_steps(),
            ),
            answers,
        ),
    ensures
        forall|k: int|
            0 <= k < 9 ==> crate::stage::asks(
                crate::script::plan(
                    "test_off_by_one_sort",
                    crate::categories::c03_pointer_bounds::off_by_one_sort_steps(),
                ),
                answers,
                0 + 6 * k,
                #[trigger] off_by_one_sort_sizes_1_asks(k),
            ),
        forall|k: int|
            0 <= k < 9 ==> crate::stage::asks(
                crate::script::plan(
                    "test_off_by_one_sort",
                    crate::categories::c03_pointer_bounds::off_by_one_sort_steps(),
                ),
                answers,
                5 + 6 * k,
                #[trigger] off_by_one_sort_sizes_2_asks(k),
            ),
        crate::stage::asks(
            crate::script::plan(
                "test_off_by_one_sort",
                crate::categories::c03_pointer_bounds::off_by_one_sort_steps(),
            ),
            answers,
            54,
            off_by_one_sort_end_asks(),
        ),
        crate::stage::asked(
            crate::script::plan(
                "test_off_by_one_sort",
                crate::categories::c03_pointer_bounds::off_by_one_sort_steps(),
            ),
            answers,
            55,
        ) is None,
{
    let plan = crate::script::plan(
        "test_off_by_one_sort",
        crate::categories::c03_pointer_bounds::off_by_one_sort_steps(),
    );
    let round1 = |k: int| crate::categories::c03_pointer_bounds::off_by_one_sort_sizes_round(
        k as u64,
    );
    let part1 = crate::script::rounds(9, round1);
    assert forall|k: int| 0 <= k < 9 implies (#[trigger] round1(k)).len() == 11 by {
        lemma_off_by_one_sort_sizes_steps(k);
    }
    crate::stage::lemma_rounds_length(9, round1, 11);
    let part2 = crate::categories::c03_pointer_bounds::off_by_one_sort_end_steps();
    lemma_off_by_one_sort_end_steps();
    let whole1 = part1;
    let whole2 = whole1 + part2;
    assert(plan.steps == whole2);
    let m0 = crate::stage::lemma_start(plan, answers);
    assert forall|j: int| 0 <= j < 99 implies plan.steps[0 + j] == #[trigger] part1[j] by {}
    let m1 = lemma_off_by_one_sort_sizes_rounds(m0, part1, 9);
    assert forall|j: int| 0 <= j < 1 implies plan.steps[99 + j] == #[trigger] part2[j] by {}
    let m2 = lemma_off_by_one_sort_end(m1, part2);
    crate::stage::lemma_end(m2);
}

/// What the device is asked in piece 1 of round `k` of the part `sizes` of `test_grid_stride_loop`.
pub open spec fn grid_stride_loop_sizes_1_asks(k: int) -> Seq<Ask> {
    let words1 = crate::stage::column(
        (crate::categories::c03_pointer_bounds::STRIDE_SIZES@[k] as int),
        |i: int| i,
    );
    let table1 = Thing::Table {
        layout: Layout::Val,
        scalar: Scalar::U32,
        columns: seq![words1],
        turn: 0 + 5 * k,
    };
    let words2 = crate::stage::column(
        (crate::categories::c03_pointer_bounds::STRIDE_SIZES@[k] as int),
        |i: int| i % 2,
    );
    let kept1 = Thing::Kept { of: Box::new(table1), mask: words2, turn: 1 + 5 * k };
    seq![
        Ask::Make(table1),
        Ask::Make(kept1),
        Ask::Rows(kept1),
        Ask::Words { of: kept1, column: 0, scalar: Scalar::U32 },
    ]
}

/// Piece 1 of round `k` of the part `sizes` of `test_grid_stride_loop` asks what it should.
proof fn lemma_grid_stride_loop_sizes_1(m: Moment, steps: Seq<Step>, k: int) -> (n: Moment)
    requires
        0 <= k < 3,
        m.holds(),
        m.at == 0 + 14 * k,
        m.used == 0 + 5 * k,
        0 + 14 * k + 14 <= m.plan.steps.len(),
        forall|j: int| 0 <= j < 14 ==> m.plan.steps[0 + 14 * k + j] == #[trigger] steps[j],
        crate::stage::fills(
            steps[0],
            0,
            num(crate::categories::c03_pointer_bounds::STRIDE_SIZES@[k as u64 as int]),
            ix(),
        ),
        crate::stage::demands(
            steps[1],
            Request::Create { into: 0, layout: Layout::Val, scalar: Scalar::U32, from: 0 },
        ),
        crate::stage::fills(
            steps[2],
            1,
            num(crate::categories::c03_pointer_bounds::STRIDE_SIZES@[k as u64 as int]),
            modulo(ix(), num(2)),
        ),
        crate::stage::demands(steps[3], Request::Filter { of: 0, mask: 1, into: 1 }),
        crate::stage::counts(steps[4], 1),
        crate::stage::demands(
            steps[5],
            Request::Download { of: 1, column: 0, scalar: Scalar::U32, into: 2 },
        ),
        crate::stage::looks(steps[6]),
        crate::stage::looks(steps[7]),
    ensures
        n.holds(),
        n.plan == m.plan,
        n.answers == m.answers,
        n.at == 0 + 14 * k + 8,
        n.used == m.used + 4,
        crate::stage::asks(m.plan, m.answers, 0 + 5 * k, grid_stride_loop_sizes_1_asks(k)),
{
    crate::stage::lemma_full(m);
    crate::stage::lemma_asks_none(m, 0 + 5 * k);
    let list0 = Seq::<Ask>::empty();
    let words1 = crate::stage::column(
        (crate::categories::c03_pointer_bounds::STRIDE_SIZES@[k] as int),
        |i: int| i,
    );
    let word1 = ix();
    assert forall|i: int| 0 <= i < words1.len() implies crate::stage::meaning(
        word1,
        m.contents,
        i,
    ) as u64 == #[trigger] words1[i] by {
        reveal_with_fuel(crate::stage::meaning, 1);
    }
    let m1 = crate::stage::lemma_filled(
        m,
        steps[0],
        0,
        num(crate::categories::c03_pointer_bounds::STRIDE_SIZES@[k as u64 as int]),
        word1,
        words1,
    );
    let table1 = Thing::Table {
        layout: Layout::Val,
        scalar: Scalar::U32,
        columns: seq![words1],
        turn: 0 + 5 * k,
    };
    let m2 = crate::stage::lemma_create(m1, steps[1], 0, Layout::Val, Scalar::U32, 0, table1);
    crate::stage::lemma_asks_more(m, 0 + 5 * k, list0, Ask::Make(table1));
    let list1 = list0.push(Ask::Make(table1));
    let words2 = crate::stage::column(
        (crate::categories::c03_pointer_bounds::STRIDE_SIZES@[k] as int),
        |i: int| i % 2,
    );
    let word3 = modulo(ix(), num(2));
    assert forall|i: int| 0 <= i < words2.len() implies crate::stage::meaning(
        word3,
        m2.contents,
        i,
    ) as u64 == #[trigger] words2[i] by {
        reveal_with_fuel(crate::stage::meaning, 3);
    }
    let m3 = crate::stage::lemma_filled(
        m2,
        steps[2],
        1,
        num(crate::categories::c03_pointer_bounds::STRIDE_SIZES@[k as u64 as int]),
        word3,
        words2,
    );
    let kept1 = Thing::Kept { of: Box::new(table1), mask: words2, turn: 1 + 5 * k };
    let m4 = crate::stage::lemma_filter(m3, steps[3], 0, 1, 1, table1, words2, kept1);
    crate::stage::lemma_asks_more(m, 0 + 5 * k, list1, Ask::Make(kept1));
    let list2 = list1.push(Ask::Make(kept1));
    let m5 = crate::stage::lemma_count(m4, steps[4], 1, kept1);
    crate::stage::lemma_asks_more(m, 0 + 5 * k, list2, Ask::Rows(kept1));
    let list3 = list2.push(Ask::Rows(kept1));
    let m6 = crate::stage::lemma_download(m5, steps[5], 1, 0, Scalar::U32, 2, kept1);
    crate::stage::lemma_asks_more(
        m,
        0 + 5 * k,
        list3,
        Ask::Words { of: kept1, column: 0, scalar: Scalar::U32 },
    );
    let list4 = list3.push(Ask::Words { of: kept1, column: 0, scalar: Scalar::U32 });
    let m7 = crate::stage::lemma_look(m6, steps[6]);
    let m8 = crate::stage::lemma_look(m7, steps[7]);
    assert(grid_stride_loop_sizes_1_asks(k) == list4);
    m8
}

/// What the device is asked in piece 2 of round `k` of the part `sizes` of `test_grid_stride_loop`.
pub open spec fn grid_stride_loop_sizes_2_asks(k: int) -> Seq<Ask> {
    seq![Ask::Other(Request::Release { from: 0 })]
}

/// Piece 2 of round `k` of the part `sizes` of `test_grid_stride_loop` asks what it should.
proof fn lemma_grid_stride_loop_sizes_2(m: Moment, steps: Seq<Step>, k: int) -> (n: Moment)
    requires
        0 <= k < 3,
        m.holds(),
        m.at == 0 + 14 * k + 8,
        m.used == 4 + 5 * k,
        0 + 14 * k + 14 <= m.plan.steps.len(),
        forall|j: int| 0 <= j < 14 ==> m.plan.steps[0 + 14 * k + j] == #[trigger] steps[j],
        crate::stage::looks(steps[8]),
        crate::stage::looks(steps[9]),
        crate::stage::looks(steps[10]),
        crate::stage::looks(steps[11]),
        crate::stage::looks(steps[12]),
        crate::stage::inquires(steps[13], Request::Release { from: 0 }),
    ensures
        n.holds(),
        n.plan == m.plan,
        n.answers == m.answers,
        n.at == 0 + 14 * k + 14,
        n.used == m.used + 1,
        crate::stage::asks(m.plan, m.answers, 4 + 5 * k, grid_stride_loop_sizes_2_asks(k)),
{
    crate::stage::lemma_full(m);
    crate::stage::lemma_asks_none(m, 4 + 5 * k);
    let list0 = Seq::<Ask>::empty();
    let m1 = crate::stage::lemma_look(m, steps[8]);
    let m2 = crate::stage::lemma_look(m1, steps[9]);
    let m3 = crate::stage::lemma_look(m2, steps[10]);
    let m4 = crate::stage::lemma_look(m3, steps[11]);
    let m5 = crate::stage::lemma_look(m4, steps[12]);
    let m6 = crate::stage::lemma_release(m5, steps[13], 0);
    crate::stage::lemma_asks_more(m, 4 + 5 * k, list0, Ask::Other(Request::Release { from: 0 }));
    let list1 = list0.push(Ask::Other(Request::Release { from: 0 }));
    assert(grid_stride_loop_sizes_2_asks(k) == list1);
    m6
}

/// The steps of the part `sizes` of `test_grid_stride_loop`.
proof fn lemma_grid_stride_loop_sizes_steps(k: int)
    ensures
        ({
            let steps = crate::categories::c03_pointer_bounds::grid_stride_loop_sizes_round(
                k as u64,
            );
            &&& steps.len() == 14
            &&& crate::stage::fills(
                steps[0],
                0,
                num(crate::categories::c03_pointer_bounds::STRIDE_SIZES@[k as u64 as int]),
                ix(),
            )
            &&& crate::stage::demands(
                steps[1],
                Request::Create { into: 0, layout: Layout::Val, scalar: Scalar::U32, from: 0 },
            )
            &&& crate::stage::fills(
                steps[2],
                1,
                num(crate::categories::c03_pointer_bounds::STRIDE_SIZES@[k as u64 as int]),
                modulo(ix(), num(2)),
            )
            &&& crate::stage::demands(steps[3], Request::Filter { of: 0, mask: 1, into: 1 })
            &&& crate::stage::counts(steps[4], 1)
            &&& crate::stage::demands(
                steps[5],
                Request::Download { of: 1, column: 0, scalar: Scalar::U32, into: 2 },
            )
            &&& crate::stage::looks(steps[6])
            &&& crate::stage::looks(steps[7])
            &&& crate::stage::looks(steps[8])
            &&& crate::stage::looks(steps[9])
            &&& crate::stage::looks(steps[10])
            &&& crate::stage::looks(steps[11])
            &&& crate::stage::looks(steps[12])
            &&& crate::stage::inquires(steps[13], Request::Release { from: 0 })
        }),
{
}

/// Round `k` of the part `sizes` of `test_grid_stride_loop` asks what it should.
proof fn lemma_grid_stride_loop_sizes_round(m: Moment, k: int) -> (n: Moment)
    requires
        0 <= k < 3,
        m.holds(),
        m.at == 0 + 14 * k,
        m.used == 0 + 5 * k,
        m.at + 14 <= m.plan.steps.len(),
        forall|j: int|
            0 <= j < 14 ==> m.plan.steps[0 + 14 * k + j] == #[trigger] crate::categories::c03_pointer_bounds::grid_stride_loop_sizes_round(
                k as u64,
            )[j],
    ensures
        n.holds(),
        n.plan == m.plan,
        n.answers == m.answers,
        n.at == 0 + 14 * (k + 1),
        n.used == 0 + 5 * (k + 1),
        crate::stage::asks(m.plan, m.answers, 0 + 5 * k, grid_stride_loop_sizes_1_asks(k)),
        crate::stage::asks(m.plan, m.answers, 4 + 5 * k, grid_stride_loop_sizes_2_asks(k)),
{
    let steps = crate::categories::c03_pointer_bounds::grid_stride_loop_sizes_round(k as u64);
    lemma_grid_stride_loop_sizes_steps(k);
    let m1 = lemma_grid_stride_loop_sizes_1(m, steps, k);
    lemma_grid_stride_loop_sizes_2(m1, steps, k)
}

/// The first `k` rounds of the part `sizes` of `test_grid_stride_loop` ask what they should.
proof fn lemma_grid_stride_loop_sizes_rounds(m: Moment, part: Seq<Step>, k: int) -> (n: Moment)
    requires
        0 <= k <= 3,
        m.holds(),
        m.at == 0,
        m.used == 0 + 5 * 0,
        m.at + 42 <= m.plan.steps.len(),
        part == crate::script::rounds(
            3,
            |k: int| crate::categories::c03_pointer_bounds::grid_stride_loop_sizes_round(k as u64),
        ),
        forall|j: int| 0 <= j < 42 ==> m.plan.steps[0 + j] == #[trigger] part[j],
    ensures
        n.holds(),
        n.plan == m.plan,
        n.answers == m.answers,
        n.at == 0 + 14 * k,
        n.used == 0 + 5 * k,
        forall|j: int|
            0 <= j < k ==> crate::stage::asks(
                m.plan,
                m.answers,
                0 + 5 * j,
                #[trigger] grid_stride_loop_sizes_1_asks(j),
            ),
        forall|j: int|
            0 <= j < k ==> crate::stage::asks(
                m.plan,
                m.answers,
                4 + 5 * j,
                #[trigger] grid_stride_loop_sizes_2_asks(j),
            ),
    decreases k,
{
    if k == 0 {
        m
    } else {
        let round = |k: int| crate::categories::c03_pointer_bounds::grid_stride_loop_sizes_round(
            k as u64,
        );
        let before = lemma_grid_stride_loop_sizes_rounds(m, part, k - 1);
        assert forall|j: int| 0 <= j < 14 implies m.plan.steps[before.at + j] == #[trigger] crate::categories::c03_pointer_bounds::grid_stride_loop_sizes_round(
            (k - 1) as u64,
        )[j] by {
            assert forall|k: int| 0 <= k < 3 implies (#[trigger] round(k)).len() == 14 by {
                lemma_grid_stride_loop_sizes_steps(k);
            }
            crate::stage::lemma_round_place(3, round, 14, k - 1, j);
            assert(part[(k - 1) * 14 + j] == round(k - 1)[j]);
        }
        lemma_grid_stride_loop_sizes_round(before, k - 1)
    }
}

/// What the device is asked in the part `end` of `test_grid_stride_loop`.
pub open spec fn grid_stride_loop_end_asks() -> Seq<Ask> {
    seq![Ask::Other(Request::Sync)]
}

/// The part `end` of `test_grid_stride_loop` asks what it should.
proof fn lemma_grid_stride_loop_end(m: Moment, steps: Seq<Step>) -> (n: Moment)
    requires
        m.holds(),
        m.at == 42,
        m.used == 15,
        42 + 1 <= m.plan.steps.len(),
        forall|j: int| 0 <= j < 1 ==> m.plan.steps[42 + j] == #[trigger] steps[j],
        crate::stage::demands(steps[0], Request::Sync),
    ensures
        n.holds(),
        n.plan == m.plan,
        n.answers == m.answers,
        n.at == 42 + 1,
        n.used == m.used + 1,
        crate::stage::asks(m.plan, m.answers, 15, grid_stride_loop_end_asks()),
{
    crate::stage::lemma_full(m);
    crate::stage::lemma_asks_none(m, 15);
    let list0 = Seq::<Ask>::empty();
    let m1 = crate::stage::lemma_sync(m, steps[0]);
    crate::stage::lemma_asks_more(m, 15, list0, Ask::Other(Request::Sync));
    let list1 = list0.push(Ask::Other(Request::Sync));
    assert(grid_stride_loop_end_asks() == list1);
    m1
}

/// The steps of the part `end` of `test_grid_stride_loop`.
proof fn lemma_grid_stride_loop_end_steps()
    ensures
        ({
            let steps = crate::categories::c03_pointer_bounds::grid_stride_loop_end_steps();
            &&& steps.len() == 1
            &&& crate::stage::demands(steps[0], Request::Sync)
        }),
{
}

/// In a run of `test_grid_stride_loop` that passes the device is asked this, in this order, and
/// nothing else: each request about what an earlier one made is about that, and about what was
/// uploaded for it.
pub proof fn law_grid_stride_loop_asks_about_what_it_made(answers: Seq<Answer>)
    requires
        crate::stage::passes(
            crate::script::plan(
                "test_grid_stride_loop",
                crate::categories::c03_pointer_bounds::grid_stride_loop_steps(),
            ),
            answers,
        ),
    ensures
        forall|k: int|
            0 <= k < 3 ==> crate::stage::asks(
                crate::script::plan(
                    "test_grid_stride_loop",
                    crate::categories::c03_pointer_bounds::grid_stride_loop_steps(),
                ),
                answers,
                0 + 5 * k,
                #[trigger] grid_stride_loop_sizes_1_asks(k),
            ),
        forall|k: int|
            0 <= k < 3 ==> crate::stage::asks(
                crate::script::plan(
                    "test_grid_stride_loop",
                    crate::categories::c03_pointer_bounds::grid_stride_loop_steps(),
                ),
                answers,
                4 + 5 * k,
                #[trigger] grid_stride_loop_sizes_2_asks(k),
            ),
        crate::stage::asks(
            crate::script::plan(
                "test_grid_stride_loop",
                crate::categories::c03_pointer_bounds::grid_stride_loop_steps(),
            ),
            answers,
            15,
            grid_stride_loop_end_asks(),
        ),
        crate::stage::asked(
            crate::script::plan(
                "test_grid_stride_loop",
                crate::categories::c03_pointer_bounds::grid_stride_loop_steps(),
            ),
            answers,
            16,
        ) is None,
{
    let plan = crate::script::plan(
        "test_grid_stride_loop",
        crate::categories::c03_pointer_bounds::grid_stride_loop_steps(),
    );
    let round1 = |k: int| crate::categories::c03_pointer_bounds::grid_stride_loop_sizes_round(
        k as u64,
    );
    let part1 = crate::script::rounds(3, round1);
    assert forall|k: int| 0 <= k < 3 implies (#[trigger] round1(k)).len() == 14 by {
        lemma_grid_stride_loop_sizes_steps(k);
    }
    crate::stage::lemma_rounds_length(3, round1, 14);
    let part2 = crate::categories::c03_pointer_bounds::grid_stride_loop_end_steps();
    lemma_grid_stride_loop_end_steps();
    let whole1 = part1;
    let whole2 = whole1 + part2;
    assert(plan.steps == whole2);
    let m0 = crate::stage::lemma_start(plan, answers);
    assert forall|j: int| 0 <= j < 42 implies plan.steps[0 + j] == #[trigger] part1[j] by {}
    let m1 = lemma_grid_stride_loop_sizes_rounds(m0, part1, 3);
    assert forall|j: int| 0 <= j < 1 implies plan.steps[42 + j] == #[trigger] part2[j] by {}
    let m2 = lemma_grid_stride_loop_end(m1, part2);
    crate::stage::lemma_end(m2);
}

} // verus!
