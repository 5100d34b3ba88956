//! What these tests ask the device in runs that pass: `test_filter_all_pass`,
//! `test_filter_none_pass`, `test_filter_half_pass`.

use vstd::prelude::*;
use crate::expr::{ix, lt, num, over};
use crate::machine::Answer;
use crate::scalar::Scalar;
use crate::script::{Layout, Request, Step};
use crate::stage::{Ask, Moment, Thing};

verus! {

/// What the device is asked in round `k` of the part `sizes` of `test_filter_all_pass`.
pub open spec fn filter_all_pass_sizes_asks(k: int) -> Seq<Ask> {
    let words1 = crate::stage::column(
        (crate::categories::c11_control_flow::SIZES@[k] as int),
        |i: int| i,
    );
    let table1 = Thing::Table {
        layout: Layout::Val,
        scalar: Scalar::U32,
        columns: seq![words1],
        turn: 0 + 5 * k,
    };
    let words2 = crate::stage::column(
        (crate::categories::c11_control_flow::SIZES@[k] as int),
        |i: int| 1,
    );
    let kept1 = Thing::Kept { of: Box::new(table1), mask: words2, turn: 1 + 5 * k };
    seq![
        Ask::Make(table1),
        Ask::Make(kept1),
        Ask::Rows(kept1),
        Ask::Words { of: kept1, column: 0, scalar: Scalar::U32 },
        Ask::Other(Request::Release { from: 0 }),
    ]
}

/// Round `k` of the part `sizes` of `test_filter_all_pass` asks what it should.
proof fn lemma_filter_all_pass_sizes(m: Moment, steps: Seq<Step>, k: int) -> (n: Moment)
    requires
        0 <= k < 4,
        m.holds(),
        m.at == 0 + 8 * k,
        m.used == 0 + 5 * k,
        0 + 8 * k + 8 <= m.plan.steps.len(),
        forall|j: int| 0 <= j < 8 ==> m.plan.steps[0 + 8 * k + j] == #[trigger] steps[j],
        crate::stage::fills(
            steps[0],
            0,
            num(crate::categories::c11_control_flow::SIZES@[k as u64 as int]),
            ix(),
        ),
        crate::stage::demands(
            steps[1],
            Request::Create { into: 0, layout: Layout::Val, scalar: Scalar::U32, from: 0 },
        ),
        crate::stage::fills(
            steps[2],
            1,
            num(crate::categories::c11_control_flow::SIZES@[k as u64 as int]),
            num(1),
        ),
        crate::stage::demands(steps[3], Request::Filter { of: 0, mask: 1, into: 1 }),
        crate::stage::counts(steps[4], 1),
        crate::stage::demands(
            steps[5],
            Request::Download { of: 1, column: 0, scalar: Scalar::U32, into: 2 },
        ),
        crate::stage::looks(steps[6]),
        crate::stage::inquires(steps[7], Request::Release { from: 0 }),
    ensures
        n.holds(),
        n.plan == m.plan,
        n.answers == m.answers,
        n.at == 0 + 8 * k + 8,
        n.used == m.used + 5,
        crate::stage::asks(m.plan, m.answers, 0 + 5 * k, filter_all_pass_sizes_asks(k)),
{
    crate::stage::lemma_full(m);
    crate::stage::lemma_asks_none(m, 0 + 5 * k);
    let list0 = Seq::<Ask>::empty();
    let words1 = crate::stage::column(
        (crate::categories::c11_control_flow::SIZES@[k] as int),
        |i: int| i,
    );
    let word1 = ix();
    assert forall|i: int| 0 <= i < words1.len() implies crate::stage::meaning(
        word1,
        m.contents,
        i,
    ) as u64 == #[trigger] words1[i] by {
        reveal_with_fuel(crate::stage::meaning, 1);
    }
    let m1 = crate::stage::lemma_filled(
        m,
        steps[0],
        0,
        num(crate::categories::c11_control_flow::SIZES@[k as u64 as int]),
        word1,
        words1,
    );
    let table1 = Thing::Table {
        layout: Layout::Val,
        scalar: Scalar::U32,
        columns: seq![words1],
        turn: 0 + 5 * k,
    };
    let m2 = crate::stage::lemma_create(m1, steps[1], 0, Layout::Val, Scalar::U32, 0, table1);
    crate::stage::lemma_asks_more(m, 0 + 5 * k, list0, Ask::Make(table1));
    let list1 = list0.push(Ask::Make(table1));
    let words2 = crate::stage::column(
        (crate::categories::c11_control_flow::SIZES@[k] as int),
        |i: int| 1,
    );
    let word3 = num(1);
    assert forall|i: int| 0 <= i < words2.len() implies crate::stage::meaning(
        word3,
        m2.contents,
        i,
    ) as u64 == #[trigger] words2[i] by {
        reveal_with_fuel(crate::stage::meaning, 2);
    }
    let m3 = crate::stage::lemma_filled(
        m2,
        steps[2],
        1,
        num(crate::categories::c11_control_flow::SIZES@[k as u64 as int]),
        word3,
        words2,
    );
    let kept1 = Thing::Kept { of: Box::new(table1), mask: words2, turn: 1 + 5 * k };
    let m4 = crate::stage::lemma_filter(m3, steps[3], 0, 1, 1, table1, words2, kept1);
    crate::stage::lemma_asks_more(m, 0 + 5 * k, list1, Ask::Make(kept1));
    let list2 = list1.push(Ask::Make(kept1));
    let m5 = crate::stage::lemma_count(m4, steps[4], 1, kept1);
    crate::stage::lemma_asks_more(m, 0 + 5 * k, list2, Ask::Rows(kept1));
    let list3 = list2.push(Ask::Rows(kept1));
    let m6 = crate::stage::lemma_download(m5, steps[5], 1, 0, Scalar::U32, 2, kept1);
    crate::stage::lemma_asks_more(
        m,
        0 + 5 * k,
        list3,
        Ask::Words { of: kept1, column: 0, scalar: Scalar::U32 },
    );
    let list4 = list3.push(Ask::Words { of: kept1, column: 0, scalar: Scalar::U32 });
    let m7 = crate::stage::lemma_look(m6, steps[6]);
    let m8 = crate::stage::lemma_release(m7, steps[7], 0);
    crate::stage::lemma_asks_more(m, 0 + 5 * k, list4, Ask::Other(Request::Release { from: 0 }));
    let list5 = list4.push(Ask::Other(Request::Release { from: 0 }));
    assert(filter_all_pass_sizes_asks(k) == list5);
    m8
}

/// The steps of the part `sizes` of `test_filter_all_pass`.
proof fn lemma_filter_all_pass_sizes_steps(k: int)
    ensures
        ({
            let steps = crate::categories::c11_control_flow::filter_all_pass_sizes_round(k as u64);
            &&& steps.len() == 8
            &&& crate::stage::fills(
                steps[0],
                0,
                num(crate::categories::c11_control_flow::SIZES@[k as u64 as int]),
                ix(),
            )
            &&& crate::stage::demands(
                steps[1],
                Request::Create { into: 0, layout: Layout::Val, scalar: Scalar::U32, from: 0 },
            )
            &&& crate::stage::fills(
                steps[2],
                1,
                num(crate::categories::c11_control_flow::SIZES@[k as u64 as int]),
                num(1),
            )
            &&& crate::stage::demands(steps[3], Request::Filter { of: 0, mask: 1, into: 1 })
            &&& crate::stage::counts(steps[4], 1)
            &&& crate::stage::demands(
                steps[5],
                Request::Download { of: 1, column: 0, scalar: Scalar::U32, into: 2 },
            )
            &&& crate::stage::looks(steps[6])
            &&& crate::stage::inquires(steps[7], Request::Release { from: 0 })
        }),
{
}

/// The first `k` rounds of the part `sizes` of `test_filter_all_pass` ask what they should.
proof fn lemma_filter_all_pass_sizes_rounds(m: Moment, part: Seq<Step>, k: int) -> (n: Moment)
    requires
        0 <= k <= 4,
        m.holds(),
        m.at == 0,
        m.used == 0 + 5 * 0,
        m.at + 32 <= m.plan.steps.len(),
        part == crate::script::rounds(
            4,
            |k: int| crate::categories::c11_control_flow::filter_all_pass_sizes_round(k as u64),
        ),
        forall|j: int| 0 <= j < 32 ==> m.plan.steps[0 + j] == #[trigger] part[j],
    ensures
        n.holds(),
        n.plan == m.plan,
        n.answers == m.answers,
        n.at == 0 + 8 * k,
        n.used == 0 + 5 * k,
        forall|j: int|
            0 <= j < k ==> crate::stage::asks(
                m.plan,
                m.answers,
                0 + 5 * j,
                #[trigger] filter_all_pass_sizes_asks(j),
            ),
    decreases k,
{
    if k == 0 {
        m
    } else {
        let round = |k: int| crate::categories::c11_control_flow::filter_all_pass_sizes_round(
            k as u64,
        );
        let before = lemma_filter_all_pass_sizes_rounds(m, part, k - 1);
        assert forall|j: int| 0 <= j < 8 implies m.plan.steps[before.at + j] == #[trigger] crate::categories::c11_control_flow::filter_all_pass_sizes_round(
            (k - 1) as u64,
        )[j] by {
            assert forall|k: int| 0 <= k < 4 implies (#[trigger] round(k)).len() == 8 by {
                lemma_filter_all_pass_sizes_steps(k);
            }
            crate::stage::lemma_round_place(4, round, 8, k - 1, j);
            assert(part[(k - 1) * 8 + j] == round(k - 1)[j]);
        }
        lemma_filter_all_pass_sizes_steps(k - 1);
        lemma_filter_all_pass_sizes(
            before,
            crate::categories::c11_control_flow::filter_all_pass_sizes_round((k - 1) as u64),
            k - 1,
        )
    }
}

/// What the device is asked in the part `end` of `test_filter_all_pass`.
pub open spec fn filter_all_pass_end_asks() -> Seq<Ask> {
    seq![Ask::Other(Request::Sync)]
}

/// The part `end` of `test_filter_all_pass` asks what it should.
proof fn lemma_filter_all_pass_end(m: Moment, steps: Seq<Step>) -> (n: Moment)
    requires
        m.holds(),
        m.at == 32,
        m.used == 20,
        32 + 1 <= m.plan.steps.len(),
        forall|j: int| 0 <= j < 1 ==> m.plan.steps[32 + j] == #[trigger] steps[j],
        crate::stage::demands(steps[0], Request::Sync),
    ensures
        n.holds(),
        n.plan == m.plan,
        n.answers == m.answers,
        n.at == 32 + 1,
        n.used == m.used + 1,
        crate::stage::asks(m.plan, m.answers, 20, filter_all_pass_end_asks()),
{
    crate::stage::lemma_full(m);
    crate::stage::lemma_asks_none(m, 20);
    let list0 = Seq::<Ask>::empty();
    let m1 = crate::stage::lemma_sync(m, steps[0]);
    crate::stage::lemma_asks_more(m, 20, list0, Ask::Other(Request::Sync));
    let list1 = list0.push(Ask::Other(Request::Sync));
    assert(filter_all_pass_end_asks() == list1);
    m1
}

/// The steps of the part `end` of `test_filter_all_pass`.
proof fn lemma_filter_all_pass_end_steps()
    ensures
        ({
            let steps = crate::categories::c11_control_flow::filter_all_pass_end_steps();
            &&& steps.len() == 1
            &&& crate::stage::demands(steps[0], Request::Sync)
        }),
{
}

/// In a run of `test_filter_all_pass` that passes the device is asked this, in this order, and
/// nothing else: each request about what an earlier one made is about that, and about what was
/// uploaded for it.
pub proof fn law_filter_all_pass_asks_about_what_it_made(answers: Seq<Answer>)
    requires
        crate::stage::passes(
            crate::script::plan(
                "test_filter_all_pass",
                crate::categories::c11_control_flow::filter_all_pass_steps(),
            ),
            answers,
        ),
    ensures
        forall|k: int|
            0 <= k < 4 ==> crate::stage::asks(
                crate::script::plan(
                    "test_filter_all_pass",
                    crate::categories::c11_control_flow::filter_all_pass_steps(),
                ),
                answers,
                0 + 5 * k,
                #[trigger] filter_all_pass_sizes_asks(k),
            ),
        crate::stage::asks(
            crate::script::plan(
                "test_filter_all_pass",
                crate::categories::c11_control_flow::filter_all_pass_steps(),
            ),
            answers,
            20,
            filter_all_pass_end_asks(),
        ),
        crate::stage::asked(
            crate::script::plan(
                "test_filter_all_pass",
                crate::categories::c11_control_flow::filter_all_pass_steps(),
            ),
            answers,
            21,
        ) is None,
{
    let plan = crate::script::plan(
        "test_filter_all_pass",
        crate::categories::c11_control_flow::filter_all_pass_steps(),
    );
    let round1 = |k: int| crate::categories::c11_control_flow::filter_all_pass_sizes_round(
        k as u64,
    );
    let part1 = crate::script::rounds(4, round1);
    assert forall|k: int| 0 <= k < 4 implies (#[trigger] round1(k)).len() == 8 by {
        lemma_filter_all_pass_sizes_steps(k);
    }
    crate::stage::lemma_rounds_length(4, round1, 8);
    let part2 = crate::categories::c11_control_flow::filter_all_pass_end_steps();
    lemma_filter_all_pass_end_steps();
    let whole1 = part1;
    let whole2 = whole1 + part2;
    assert(plan.steps == whole2);
    let m0 = crate::stage::lemma_start(plan, answers);
    assert forall|j: int| 0 <= j < 32 implies plan.steps[0 + j] == #[trigger] part1[j] by {}
    let m1 = lemma_filter_all_pass_sizes_rounds(m0, part1, 4);
    assert forall|j: int| 0 <= j < 1 implies plan.steps[32 + j] == #[trigger] part2[j] by {}
    let m2 = lemma_filter_all_pass_end(m1, part2);
    crate::stage::lemma_end(m2);
}

/// What the device is asked in round `k` of the part `sizes` of `test_filter_none_pass`.
pub open spec fn filter_none_pass_sizes_asks(k: int) -> Seq<Ask> {
    let words1 = crate::stage::column(
        (crate::categories::c11_control_flow::SIZES@[k] as int),
        |i: int| i,
    );
    let table1 = Thing::Table {
        layout: Layout::Val,
        scalar: Scalar::U32,
        columns: seq![words1],
        turn: 0 + 4 * k,
    };
    let words2 = crate::stage::column(
        (crate::categories::c11_control_flow::SIZES@[k] as int),
        |i: int| 0,
    );
    let kept1 = Thing::Kept { of: Box::new(table1), mask: words2, turn: 1 + 4 * k };
    seq![
        Ask::Make(table1),
        Ask::Make(kept1),
        Ask::Rows(kept1),
        Ask::Other(Request::Release { from: 0 }),
    ]
}

/// Round `k` of the part `sizes` of `test_filter_none_pass` asks what it should.
proof fn lemma_filter_none_pass_sizes(m: Moment, steps: Seq<Step>, k: int) -> (n: Moment)
    requires
        0 <= k < 4,
        m.holds(),
        m.at == 0 + 6 * k,
        m.used == 0 + 4 * k,
        0 + 6 * k + 6 <= m.plan.steps.len(),
        forall|j: int| 0 <= j < 6 ==> m.plan.steps[0 + 6 * k + j] == #[trigger] steps[j],
        crate::stage::fills(
            steps[0],
            0,
            num(crate::categories::c11_control_flow::SIZES@[k as u64 as int]),
            ix(),
        ),
        crate::stage::demands(
            steps[1],
            Request::Create { into: 0, layout: Layout::Val, scalar: Scalar::U32, from: 0 },
        ),
        crate::stage::fills(
            steps[2],
            1,
            num(crate::categories::c11_control_flow::SIZES@[k as u64 as int]),
            num(0),
        ),
        crate::stage::demands(steps[3], Request::Filter { of: 0, mask: 1, into: 1 }),
        crate::stage::counts(steps[4], 1),
        crate::stage::inquires(steps[5], Request::Release { from: 0 }),
    ensures
        n.holds(),
        n.plan == m.plan,
        n.answers == m.answers,
        n.at == 0 + 6 * k + 6,
        n.used == m.used + 4,
        crate::stage::asks(m.plan, m.answers, 0 + 4 * k, filter_none_pass_sizes_asks(k)),
{
    crate::stage::lemma_full(m);
    crate::stage::lemma_asks_none(m, 0 + 4 * k);
    let list0 = Seq::<Ask>::empty();
    let words1 = crate::stage::column(
        (crate::categories::c11_control_flow::SIZES@[k] as int),
        |i: int| i,
    );
    let word1 = ix();
    assert forall|i: int| 0 <= i < words1.len() implies crate::stage::meaning(
        word1,
        m.contents,
        i,
    ) as u64 == #[trigger] words1[i] by {
        reveal_with_fuel(crate::stage::meaning, 1);
    }
    let m1 = crate::stage::lemma_filled(
        m,
        steps[0],
        0,
        num(crate::categories::c11_control_flow::SIZES@[k as u64 as int]),
        word1,
        words1,
    );
    let table1 = Thing::Table {
        layout: Layout::Val,
        scalar: Scalar::U32,
        columns: seq![words1],
        turn: 0 + 4 * k,
    };
    let m2 = crate::stage::lemma_create(m1, steps[1], 0, Layout::Val, Scalar::U32, 0, table1);
    crate::stage::lemma_asks_more(m, 0 + 4 * k, list0, Ask::Make(table1));
    let list1 = list0.push(Ask::Make(table1));
    let words2 = crate::stage::column(
        (crate::categories::c11_control_flow::SIZES@[k] as int),
        |i: int| 0,
    );
    let word3 = num(0);
    assert forall|i: int| 0 <= i < words2.len() implies crate::stage::meaning(
        word3,
        m2.contents,
        i,
    ) as u64 == #[trigger] words2[i] by {
        reveal_with_fuel(crate::stage::meaning, 2);
    }
    let m3 = crate::stage::lemma_filled(
        m2,
        steps[2],
        1,
        num(crate::categories::c11_control_flow::SIZES@[k as u64 as int]),
        word3,
        words2,
    );
    let kept1 = Thing::Kept { of: Box::new(table1), mask: words2, turn: 1 + 4 * k };
    let m4 = crate::stage::lemma_filter(m3, steps[3], 0, 1, 1, table1, words2, kept1);
    crate::stage::lemma_asks_more(m, 0 + 4 * k, list1, Ask::Make(kept1));
    let list2 = list1.push(Ask::Make(kept1));
    let m5 = crate::stage::lemma_count(m4, steps[4], 1, kept1);
    crate::stage::lemma_asks_more(m, 0 + 4 * k, list2, Ask::Rows(kept1));
    let list3 = list2.push(Ask::Rows(kept1));
    let m6 = crate::stage::lemma_release(m5, steps[5], 0);
    crate::stage::lemma_asks_more(m, 0 + 4 * k, list3, Ask::Other(Request::Release { from: 0 }));
    let list4 = list3.push(Ask::Other(Request::Release { from: 0 }));
    assert(filter_none_pass_sizes_asks(k) == list4);
    m6
}

/// The steps of the part `sizes` of `test_filter_none_pass`.
proof fn lemma_filter_none_pass_sizes_steps(k: int)
    ensures
        ({
            let steps = crate::categories::c11_control_flow::filter_none_pass_sizes_round(k as u64);
            &&& steps.len() == 6
            &&& crate::stage::fills(
                steps[0],
                0,
                num(crate::categories::c11_control_flow::SIZES@[k as u64 as int]),
                ix(),
            )
            &&& crate::stage::demands(
                steps[1],
                Request::Create { into: 0, layout: Layout::Val, scalar: Scalar::U32, from: 0 },
            )
            &&& crate::stage::fills(
                steps[2],
                1,
                num(crate::categories::c11_control_flow::SIZES@[k as u64 as int]),
                num(0),
            )
            &&& crate::stage::demands(steps[3], Request::Filter { of: 0, mask: 1, into: 1 })
            &&& crate::stage::counts(steps[4], 1)
            &&& crate::stage::inquires(steps[5], Request::Release { from: 0 })
        }),
{
}

/// The first `k` rounds of the part `sizes` of `test_filter_none_pass` ask what they should.
proof fn lemma_filter_none_pass_sizes_rounds(m: Moment, part: Seq<Step>, k: int) -> (n: Moment)
    requires
        0 <= k <= 4,
        m.holds(),
        m.at == 0,
        m.used == 0 + 4 * 0,
        m.at + 24 <= m.plan.steps.len(),
        part == crate::script::rounds(
            4,
            |k: int| crate::categories::c11_control_flow::filter_none_pass_sizes_round(k as u64),
        ),
        forall|j: int| 0 <= j < 24 ==> m.plan.steps[0 + j] == #[trigger] part[j],
    ensures
        n.holds(),
        n.plan == m.plan,
        n.answers == m.answers,
        n.at == 0 + 6 * k,
        n.used == 0 + 4 * k,
        forall|j: int|
            0 <= j < k ==> crate::stage::asks(
                m.plan,
                m.answers,
                0 + 4 * j,
                #[trigger] filter_none_pass_sizes_asks(j),
            ),
    decreases k,
{
    if k == 0 {
        m
    } else {
        let round = |k: int| crate::categories::c11_control_flow::filter_none_pass_sizes_round(
            k as u64,
        );
        let before = lemma_filter_none_pass_sizes_rounds(m, part, k - 1);
        assert forall|j: int| 0 <= j < 6 implies m.plan.steps[before.at + j] == #[trigger] crate::categories::c11_control_flow::filter_none_pass_sizes_round(
            (k - 1) as u64,
        )[j] by {
            assert forall|k: int| 0 <= k < 4 implies (#[trigger] round(k)).len() == 6 by {
                lemma_filter_none_pass_sizes_steps(k);
            }
            crate::stage::lemma_round_place(4, round, 6, k - 1, j);
            assert(part[(k - 1) * 6 + j] == round(k - 1)[j]);
        }
        lemma_filter_none_pass_sizes_steps(k - 1);
        lemma_filter_none_pass_sizes(
            before,
            crate::categories::c11_control_flow::filter_none_pass_sizes_round((k - 1) as u64),
            k - 1,
        )
    }
}

/// What the device is asked in the part `end` of `test_filter_none_pass`.
pub open spec fn filter_none_pass_end_asks() -> Seq<Ask> {
    seq![Ask::Other(Request::Sync)]
}

/// The part `end` of `test_filter_none_pass` asks what it should.
proof fn lemma_filter_none_pass_end(m: Moment, steps: Seq<Step>) -> (n: Moment)
    requires
        m.holds(),
        m.at == 24,
        m.used == 16,
        24 + 1 <= m.plan.steps.len(),
        forall|j: int| 0 <= j < 1 ==> m.plan.steps[24 + j] == #[trigger] steps[j],
        crate::stage::demands(steps[0], Request::Sync),
    ensures
        n.holds(),
        n.plan == m.plan,
        n.answers == m.answers,
        n.at == 24 + 1,
        n.used == m.used + 1,
        crate::stage::asks(m.plan, m.answers, 16, filter_none_pass_end_asks()),
{
    crate::stage::lemma_full(m);
    crate::stage::lemma_asks_none(m, 16);
    let list0 = Seq::<Ask>::empty();
    let m1 = crate::stage::lemma_sync(m, steps[0]);
    crate::stage::lemma_asks_more(m, 16, list0, Ask::Other(Request::Sync));
    let list1 = list0.push(Ask::Other(Request::Sync));
    assert(filter_none_pass_end_asks() == list1);
    m1
}

/// The steps of the part `end` of `test_filter_none_pass`.
proof fn lemma_filter_none_pass_end_steps()
    ensures
        ({
            let steps = crate::categories::c11_control_flow::filter_none_pass_end_steps();
            &&& steps.len() == 1
            &&& crate::stage::demands(steps[0], Request::Sync)
        }),
{
}

/// In a run of `test_filter_none_pass` that passes the device is asked this, in this order, and
/// nothing else: each request about what an earlier one made is about that, and about what was
/// uploaded for it.
pub proof fn law_filter_none_pass_asks_about_what_it_made(answers: Seq<Answer>)
    requires
        crate::stage::passes(
            crate::script::plan(
                "test_filter_none_pass",
                crate::categories::c11_control_flow::filter_none_pass_steps(),
            ),
            answers,
        ),
    ensures
        forall|k: int|
            0 <= k < 4 ==> crate::stage::asks(
                crate::script::plan(
                    "test_filter_none_pass",
                    crate::categories::c11_control_flow::filter_none_pass_steps(),
                ),
                answers,
                0 + 4 * k,
                #[trigger] filter_none_pass_sizes_asks(k),
            ),
        crate::stage::asks(
            crate::script::plan(
                "test_filter_none_pass",
                crate::categories::c11_control_flow::filter_none_pass_steps(),
            ),
            answers,
            16,
            filter_none_pass_end_asks(),
        ),
        crate::stage::asked(
            crate::script::plan(
                "test_filter_none_pass",
                crate::categories::c11_control_flow::filter_none_pass_steps(),
            ),
            answers,
            17,
        ) is None,
{
    let plan = crate::script::plan(
        "test_filter_none_pass",
        crate::categories::c11_control_flow::filter_none_pass_steps(),
    );
    let round1 = |k: int| crate::categories::c11_control_flow::filter_none_pass_sizes_round(
        k as u64,
    );
    let part1 = crate::script::rounds(4, round1);
    assert forall|k: int| 0 <= k < 4 implies (#[trigger] round1(k)).len() == 6 by {
        lemma_filter_none_pass_sizes_steps(k);
    }
    crate::stage::lemma_rounds_length(4, round1, 6);
    let part2 = crate::categories::c11_control_flow::filter_none_pass_end_steps();
    lemma_filter_none_pass_end_steps();
    let whole1 = part1;
    let whole2 = whole1 + part2;
    assert(plan.steps == whole2);
    let m0 = crate::stage::lemma_start(plan, answers);
    assert forall|j: int| 0 <= j < 24 implies plan.steps[0 + j] == #[trigger] part1[j] by {}
    let m1 = lemma_filter_none_pass_sizes_rounds(m0, part1, 4);
    assert forall|j: int| 0 <= j < 1 implies plan.steps[24 + j] == #[trigger] part2[j] by {}
    let m2 = lemma_filter_none_pass_end(m1, part2);
    crate::stage::lemma_end(m2);
}

/// What the device is asked in round `k` of the part `sizes` of `test_filter_half_pass`.
pub open spec fn filter_half_pass_sizes_asks(k: int) -> Seq<Ask> {
    let words1 = crate::stage::column(
        (crate::categories::c11_control_flow::SIZES@[k] as int),
        |i: int| i,
    );
    let table1 = Thing::Table {
        layout: Layout::Val,
        scalar: Scalar::U32,
        columns: seq![words1],
        turn: 0 + 5 * k,
    };
    let words2 = crate::stage::column(
        (crate::categories::c11_control_flow::SIZES@[k] as int),
        |i: int| crate::stage::flag(
            (i < ((crate::categories::c11_control_flow::SIZES@[k] as int) / 2)),
        ),
    );
    let kept1 = Thing::Kept { of: Box::new(table1), mask: words2, turn: 1 + 5 * k };
    seq![
        Ask::Make(table1),
        Ask::Make(kept1),
        Ask::Rows(kept1),
        Ask::Words { of: kept1, column: 0, scalar: Scalar::U32 },
        Ask::Other(Request::Release { from: 0 }),
    ]
}

/// Round `k` of the part `sizes` of `test_filter_half_pass` asks what it should.
proof fn lemma_filter_half_pass_sizes(m: Moment, steps: Seq<Step>, k: int) -> (n: Moment)
    requires
        0 <= k < 4,
        m.holds(),
        m.at == 0 + 8 * k,
        m.used == 0 + 5 * k,
        0 + 8 * k + 8 <= m.plan.steps.len(),
        forall|j: int| 0 <= j < 8 ==> m.plan.steps[0 + 8 * k + j] == #[trigger] steps[j],
        crate::stage::fills(
            steps[0],
            0,
            num(crate::categories::c11_control_flow::SIZES@[k as u64 as int]),
            ix(),
        ),
        crate::stage::demands(
            steps[1],
            Request::Create { into: 0, layout: Layout::Val, scalar: Scalar::U32, from: 0 },
        ),
        crate::stage::fills(
            steps[2],
            1,
            num(crate::categories::c11_control_flow::SIZES@[k as u64 as int]),
            lt(
                ix(),
                over(num(crate::categories::c11_control_flow::SIZES@[k as u64 as int]), num(2)),
            ),
        ),
        crate::stage::demands(steps[3], Request::Filter { of: 0, mask: 1, into: 1 }),
        crate::stage::counts(steps[4], 1),
        crate::stage::demands(
            steps[5],
            Request::Download { of: 1, column: 0, scalar: Scalar::U32, into: 2 },
        ),
        crate::stage::looks(steps[6]),
        crate::stage::inquires(steps[7], Request::Release { from: 0 }),
    ensures
        n.holds(),
        n.plan == m.plan,
        n.answers == m.answers,
        n.at == 0 + 8 * k + 8,
        n.used == m.used + 5,
        crate::stage::asks(m.plan, m.answers, 0 + 5 * k, filter_half_pass_sizes_asks(k)),
{
    crate::stage::lemma_full(m);
    crate::stage::lemma_asks_none(m, 0 + 5 * k);
    let list0 = Seq::<Ask>::empty();
    let words1 = crate::stage::column(
        (crate::categories::c11_control_flow::SIZES@[k] as int),
        |i: int| i,
    );
    let word1 = ix();
    assert forall|i: int| 0 <= i < words1.len() implies crate::stage::meaning(
        word1,
        m.contents,
        i,
    ) as u64 == #[trigger] words1[i] by {
        reveal_with_fuel(crate::stage::meaning, 1);
    }
    let m1 = crate::stage::lemma_filled(
        m,
        steps[0],
        0,
        num(crate::categories::c11_control_flow::SIZES@[k as u64 as int]),
        word1,
        words1,
    );
    let table1 = Thing::Table {
        layout: Layout::Val,
        scalar: Scalar::U32,
        columns: seq![words1],
        turn: 0 + 5 * k,
    };
    let m2 = crate::stage::lemma_create(m1, steps[1], 0, Layout::Val, Scalar::U32, 0, table1);
    crate::stage::lemma_asks_more(m, 0 + 5 * k, list0, Ask::Make(table1));
    let list1 = list0.push(Ask::Make(table1));
    let words2 = crate::stage::column(
        (crate::categories::c11_control_flow::SIZES@[k] as int),
        |i: int| crate::stage::flag(
            (i < ((crate::categories::c11_control_flow::SIZES@[k] as int) / 2)),
        ),
    );
    let word3 = lt(
        ix(),
        over(num(crate::categories::c11_control_flow::SIZES@[k as u64 as int]), num(2)),
    );
    assert forall|i: int| 0 <= i < words2.len() implies crate::stage::meaning(
        word3,
        m2.contents,
        i,
    ) as u64 == #[trigger] words2[i] by {
        reveal_with_fuel(crate::stage::meaning, 4);
    }
    let m3 = crate::stage::lemma_filled(
        m2,
        steps[2],
        1,
        num(crate::categories::c11_control_flow::SIZES@[k as u64 as int]),
        word3,
        words2,
    );
    let kept1 = Thing::Kept { of: Box::new(table1), mask: words2, turn: 1 + 5 * k };
    let m4 = crate::stage::lemma_filter(m3, steps[3], 0, 1, 1, table1, words2, kept1);
    crate::stage::lemma_asks_more(m, 0 + 5 * k, list1, Ask::Make(kept1));
    let list2 = list1.push(Ask::Make(kept1));
    let m5 = crate::stage::lemma_count(m4, steps[4], 1, kept1);
    crate::stage::lemma_asks_more(m, 0 + 5 * k, list2, Ask::Rows(kept1));
    let list3 = list2.push(Ask::Rows(kept1));
    let m6 = crate::stage::lemma_download(m5, steps[5], 1, 0, Scalar::U32, 2, kept1);
    crate::stage::lemma_asks_more(
        m,
        0 + 5 * k,
        list3,
        Ask::Words { of: kept1, column: 0, scalar: Scalar::U32 },
    );
    let list4 = list3.push(Ask::Words { of: kept1, column: 0, scalar: Scalar::U32 });
    let m7 = crate::stage::lemma_look(m6, steps[6]);
    let m8 = crate::stage::lemma_release(m7, steps[7], 0);
    crate::stage::lemma_asks_more(m, 0 + 5 * k, list4, Ask::Other(Request::Release { from: 0 }));
    let list5 = list4.push(Ask::Other(Request::Release { from: 0 }));
    assert(filter_half_pass_sizes_asks(k) == list5);
    m8
}

/// The steps of the part `sizes` of `test_filter_half_pass`.
proof fn lemma_filter_half_pass_sizes_steps(k: int)
    ensures
        ({
            let steps = crate::categories::c11_control_flow::filter_half_pass_sizes_round(k as u64);
            &&& steps.len() == 8
            &&& crate::stage::fills(
                steps[0],
                0,
                num(crate::categories::c11_control_flow::SIZES@[k as u64 as int]),
                ix(),
            )
            &&& crate::stage::demands(
                steps[1],
                Request::Create { into: 0, layout: Layout::Val, scalar: Scalar::U32, from: 0 },
            )
            &&& crate::stage::fills(
                steps[2],
                1,
                num(crate::categories::c11_control_flow::SIZES@[k as u64 as int]),
                lt(
                    ix(),
                    over(num(crate::categories::c11_control_flow::SIZES@[k as u64 as int]), num(2)),
                ),
            )
            &&& crate::stage::demands(steps[3], Request::Filter { of: 0, mask: 1, into: 1 })
            &&& crate::stage::counts(steps[4], 1)
            &&& crate::stage::demands(
                steps[5],
                Request::Download { of: 1, column: 0, scalar: Scalar::U32, into: 2 },
            )
            &&& crate::stage::looks(steps[6])
            &&& crate::stage::inquires(steps[7], Request::Release { from: 0 })
        }),
{
}

/// The first `k` rounds of the part `sizes` of `test_filter_half_pass` ask what they should.
proof fn lemma_filter_half_pass_sizes_rounds(m: Moment, part: Seq<Step>, k: int) -> (n: Moment)
    requires
        0 <= k <= 4,
        m.holds(),
        m.at == 0,
        m.used == 0 + 5 * 0,
        m.at + 32 <= m.plan.steps.len(),
        part == crate::script::rounds(
            4,
            |k: int| crate::categories::c11_control_flow::filter_half_pass_sizes_round(k as u64),
        ),
        forall|j: int| 0 <= j < 32 ==> m.plan.steps[0 + j] == #[trigger] part[j],
    ensures
        n.holds(),
        n.plan == m.plan,
        n.answers == m.answers,
        n.at == 0 + 8 * k,
        n.used == 0 + 5 * k,
        forall|j: int|
            0 <= j < k ==> crate::stage::asks(
                m.plan,
                m.answers,
                0 + 5 * j,
                #[trigger] filter_half_pass_sizes_asks(j),
            ),
    decreases k,
{
    if k == 0 {
        m
    } else {
        let round = |k: int| crate::categories::c11_control_flow::filter_half_pass_sizes_round(
            k as u64,
        );
        let before = lemma_filter_half_pass_sizes_rounds(m, part, k - 1);
        assert forall|j: int| 0 <= j < 8 implies m.plan.steps[before.at + j] == #[trigger] crate::categories::c11_control_flow::filter_half_pass_sizes_round(
            (k - 1) as u64,
        )[j] by {
            assert forall|k: int| 0 <= k < 4 implies (#[trigger] round(k)).len() == 8 by {
                lemma_filter_half_pass_sizes_steps(k);
            }
            crate::stage::lemma_round_place(4, round, 8, k - 1, j);
            assert(part[(k - 1) * 8 + j] == round(k - 1)[j]);
        }
        lemma_filter_half_pass_sizes_steps(k - 1);
        lemma_filter_half_pass_sizes(
            before,
            crate::categories::c11_control_flow::filter_half_pass_sizes_round((k - 1) as u64),
            k - 1,
        )
    }
}

/// What the device is asked in the part `end` of `test_filter_half_pass`.
pub open spec fn filter_half_pass_end_asks() -> Seq<Ask> {
    seq![Ask::Other(Request::Sync)]
}

/// The part `end` of `test_filter_half_pass` asks what it should.
proof fn lemma_filter_half_pass_end(m: Moment, steps: Seq<Step>) -> (n: Moment)
    requires
        m.holds(),
        m.at == 32,
        m.used == 20,
        32 + 1 <= m.plan.steps.len(),
        forall|j: int| 0 <= j < 1 ==> m.plan.steps[32 + j] == #[trigger] steps[j],
        crate::stage::demands(steps[0], Request::Sync),
    ensures
        n.holds(),
        n.plan == m.plan,
        n.answers == m.answers,
        n.at == 32 + 1,
        n.used == m.used + 1,
        crate::stage::asks(m.plan, m.answers, 20, filter_half_pass_end_asks()),
{
    crate::stage::lemma_full(m);
    crate::stage::lemma_asks_none(m, 20);
    let list0 = Seq::<Ask>::empty();
    let m1 = crate::stage::lemma_sync(m, steps[0]);
    crate::stage::lemma_asks_more(m, 20, list0, Ask::Other(Request::Sync));
    let list1 = list0.push(Ask::Other(Request::Sync));
    assert(filter_half_pass_end_asks() == list1);
    m1
}

/// The steps of the part `end` of `test_filter_half_pass`.
proof fn lemma_filter_half_pass_end_steps()
    ensures
        ({
            let steps = crate::categories::c11_control_flow::filter_half_pass_end_steps();
            &&& steps.len() == 1
            &&& crate::stage::demands(steps[0], Request::Sync)
        }),
{
}

/// In a run of `test_filter_half_pass` that passes the device is asked this, in this order, and
/// nothing else: each request about what an earlier one made is about that, and about what was
/// uploaded for it.
pub proof fn law_filter_half_pass_asks_about_what_it_made(answers: Seq<Answer>)
    requires
        crate::stage::passes(
            crate::script::plan(
                "test_filter_half_pass",
                crate::categories::c11_control_flow::filter_half_pass_steps(),
            ),
            answers,
        ),
    ensures
        forall|k: int|
            0 <= k < 4 ==> crate::stage::asks(
                crate::script::plan(
                    "test_filter_half_pass",
                    crate::categories::c11_control_flow::filter_half_pass_steps(),
                ),
                answers,
                0 + 5 * k,
                #[trigger] filter_half_pass_sizes_asks(k),
            ),
        crate::stage::asks(
            crate::script::plan(
                "test_filter_half_pass",
                crate::categories::c11_control_flow::filter_half_pass_steps(),
            ),
            answers,
            20,
            filter_half_pass_end_asks(),
        ),
        crate::stage::asked(
            crate::script::plan(
                "test_filter_half_pass",
                crate::categories::c11_control_flow::filter_half_pass_steps(),
            ),
            answers,
            21,
        ) is None,
{
    let plan = crate::script::plan(
        "test_filter_half_pass",
        crate::categories::c11_control_flow::filter_half_pass_steps(),
    );
    let round1 = |k: int| crate::categories::c11_control_flow::filter_half_pass_sizes_round(
        k as u64,
    );
    let part1 = crate::script::rounds(4, round1);
    assert forall|k: int| 0 <= k < 4 implies (#[trigger] round1(k)).len() == 8 by {
        lemma_filter_half_pass_sizes_steps(k);
    }
    crate::stage::lemma_rounds_length(4, round1, 8);
    let part2 = crate::categories::c11_control_flow::filter_half_pass_end_steps();
    lemma_filter_half_pass_end_steps();
    let whole1 = part1;
    let whole2 = whole1 + part2;
    assert(plan.steps == whole2);
    let m0 = crate::stage::lemma_start(plan, answers);
    assert forall|j: int| 0 <= j < 32 implies plan.steps[0 + j] == #[trigger] part1[j] by {}
    let m1 = lemma_filter_half_pass_sizes_rounds(m0, part1, 4);
    assert forall|j: int| 0 <= j < 1 implies plan.steps[32 + j] == #[trigger] part2[j] by {}
    let m2 = lemma_filter_half_pass_end(m1, part2);
    crate::stage::lemma_end(m2);
}

} // verus!
