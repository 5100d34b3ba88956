//! What these tests ask the device in runs that pass: `test_error_detection`,
//! `test_recovery_after_error`.

use vstd::prelude::*;
use crate::expr::{ix, modulo, num, plus, times};
use crate::machine::Answer;
use crate::scalar::Scalar;
use crate::script::{Layout, Request, Step};
use crate::stage::{Ask, Moment, Thing};

verus! {

/// What is sorted in the part `edges` of `test_error_detection`.
pub open spec fn error_detection_edges_sorted2() -> Thing {
    Thing::Sorted {
        of: Box::new(
            Thing::Table {
                layout: Layout::Val,
                scalar: Scalar::U32,
                columns: seq![crate::stage::column(1, |i: int| 42)],
                turn: 27,
            },
        ),
        keys: 1,
        turn: 28,
    }
}

/// What the device is asked in the part `column` of `test_error_detection`.
pub open spec fn error_detection_column_asks() -> Seq<Ask> {
    let words1 = crate::stage::column(10000, |i: int| i);
    let table1 = Thing::Table {
        layout: Layout::Val,
        scalar: Scalar::U32,
        columns: seq![words1],
        turn: 0,
    };
    let sorted1 = Thing::Sorted { of: Box::new(table1), keys: 1, turn: 1 };
    seq![
        Ask::Make(table1),
        Ask::Make(sorted1),
        Ask::Other(Request::Sync),
        Ask::Words { of: sorted1, column: 0, scalar: Scalar::U32 },
    ]
}

/// The part `column` of `test_error_detection` asks what it should.
proof fn lemma_error_detection_column(m: Moment, steps: Seq<Step>) -> (n: Moment)
    requires
        m.holds(),
        m.at == 0,
        m.used == 0,
        0 + 6 <= m.plan.steps.len(),
        forall|j: int| 0 <= j < 6 ==> m.plan.steps[0 + j] == #[trigger] steps[j],
        crate::stage::fills(steps[0], 0, num(10000), ix()),
        crate::stage::demands(
            steps[1],
            Request::Create { into: 0, layout: Layout::Val, scalar: Scalar::U32, from: 0 },
        ),
        crate::stage::demands(steps[2], Request::Sort { of: 0, keys: 1, into: 1 }),
        crate::stage::demands(steps[3], Request::Sync),
        crate::stage::demands(
            steps[4],
            Request::Download { of: 1, column: 0, scalar: Scalar::U32, into: 1 },
        ),
        crate::stage::looks(steps[5]),
    ensures
        n.holds(),
        n.plan == m.plan,
        n.answers == m.answers,
        n.at == 0 + 6,
        n.used == m.used + 4,
        crate::stage::asks(m.plan, m.answers, 0, error_detection_column_asks()),
{
    crate::stage::lemma_full(m);
    crate::stage::lemma_asks_none(m, 0);
    let list0 = Seq::<Ask>::empty();
    let words1 = crate::stage::column(10000, |i: int| i);
    let word1 = ix();
    assert forall|i: int| 0 <= i < words1.len() implies crate::stage::meaning(
        word1,
        m.contents,
        i,
    ) as u64 == #[trigger] words1[i] by {
        reveal_with_fuel(crate::stage::meaning, 1);
    }
    let m1 = crate::stage::lemma_filled(m, steps[0], 0, num(10000), word1, words1);
    let table1 = Thing::Table {
        layout: Layout::Val,
        scalar: Scalar::U32,
        columns: seq![words1],
        turn: 0,
    };
    let m2 = crate::stage::lemma_create(m1, steps[1], 0, Layout::Val, Scalar::U32, 0, table1);
    crate::stage::lemma_asks_more(m, 0, list0, Ask::Make(table1));
    let list1 = list0.push(Ask::Make(table1));
    let sorted1 = Thing::Sorted { of: Box::new(table1), keys: 1, turn: 1 };
    let m3 = crate::stage::lemma_sort(m2, steps[2], 0, 1, 1, table1, sorted1);
    crate::stage::lemma_asks_more(m, 0, list1, Ask::Make(sorted1));
    let list2 = list1.push(Ask::Make(sorted1));
    let m4 = crate::stage::lemma_sync(m3, steps[3]);
    crate::stage::lemma_asks_more(m, 0, list2, Ask::Other(Request::Sync));
    let list3 = list2.push(Ask::Other(Request::Sync));
    let m5 = crate::stage::lemma_download(m4, steps[4], 1, 0, Scalar::U32, 1, sorted1);
    crate::stage::lemma_asks_more(
        m,
        0,
        list3,
        Ask::Words { of: sorted1, column: 0, scalar: Scalar::U32 },
    );
    let list4 = list3.push(Ask::Words { of: sorted1, column: 0, scalar: Scalar::U32 });
    let m6 = crate::stage::lemma_look(m5, steps[5]);
    assert(error_detection_column_asks() == list4);
    m6
}

/// The steps of the part `column` of `test_error_detection`.
proof fn lemma_error_detection_column_steps()
    ensures
        ({
            let steps = crate::categories::c21_hardware::error_detection_column_steps();
            &&& steps.len() == 6
            &&& crate::stage::fills(steps[0], 0, num(10000), ix())
            &&& crate::stage::demands(
                steps[1],
                Request::Create { into: 0, layout: Layout::Val, scalar: Scalar::U32, from: 0 },
            )
            &&& crate::stage::demands(steps[2], Request::Sort { of: 0, keys: 1, into: 1 })
            &&& crate::stage::demands(steps[3], Request::Sync)
            &&& crate::stage::demands(
                steps[4],
                Request::Download { of: 1, column: 0, scalar: Scalar::U32, into: 1 },
            )
            &&& crate::stage::looks(steps[5])
        }),
{
}

/// What the device is asked in round `k` of the part `checks` of `test_error_detection`.
pub open spec fn error_detection_checks_asks(k: int) -> Seq<Ask> {
    let words1 = crate::stage::column(1000, |i: int| i + (k * 1000));
    let table1 = Thing::Table {
        layout: Layout::Val,
        scalar: Scalar::U32,
        columns: seq![words1],
        turn: 4 + 4 * k,
    };
    let sorted1 = Thing::Sorted { of: Box::new(table1), keys: 1, turn: 5 + 4 * k };
    seq![
        Ask::Make(table1),
        Ask::Make(sorted1),
        Ask::Other(Request::Sync),
        Ask::Other(Request::Release { from: 2 }),
    ]
}

/// Round `k` of the part `checks` of `test_error_detection` asks what it should.
proof fn lemma_error_detection_checks(m: Moment, steps: Seq<Step>, k: int) -> (n: Moment)
    requires
        0 <= k < 5,
        m.holds(),
        m.at == 6 + 5 * k,
        m.used == 4 + 4 * k,
        6 + 5 * k + 5 <= m.plan.steps.len(),
        forall|j: int| 0 <= j < 5 ==> m.plan.steps[6 + 5 * k + j] == #[trigger] steps[j],
        crate::stage::fills(steps[0], 2, num(1000), plus(ix(), times(num(k as u64), num(1000)))),
        crate::stage::demands(
            steps[1],
            Request::Create { into: 2, layout: Layout::Val, scalar: Scalar::U32, from: 2 },
        ),
        crate::stage::demands(steps[2], Request::Sort { of: 2, keys: 1, into: 3 }),
        crate::stage::demands(steps[3], Request::Sync),
        crate::stage::inquires(steps[4], Request::Release { from: 2 }),
    ensures
        n.holds(),
        n.plan == m.plan,
        n.answers == m.answers,
        n.at == 6 + 5 * k + 5,
        n.used == m.used + 4,
        crate::stage::asks(m.plan, m.answers, 4 + 4 * k, error_detection_checks_asks(k)),
{
    crate::stage::lemma_full(m);
    crate::stage::lemma_asks_none(m, 4 + 4 * k);
    let list0 = Seq::<Ask>::empty();
    let words1 = crate::stage::column(1000, |i: int| i + (k * 1000));
    let word1 = plus(ix(), times(num(k as u64), num(1000)));
    assert forall|i: int| 0 <= i < words1.len() implies crate::stage::meaning(
        word1,
        m.contents,
        i,
    ) as u64 == #[trigger] words1[i] by {
        reveal_with_fuel(crate::stage::meaning, 4);
    }
    let m1 = crate::stage::lemma_filled(m, steps[0], 2, num(1000), word1, words1);
    let table1 = Thing::Table {
        layout: Layout::Val,
        scalar: Scalar::U32,
        columns: seq![words1],
        turn: 4 + 4 * k,
    };
    let m2 = crate::stage::lemma_create(m1, steps[1], 2, Layout::Val, Scalar::U32, 2, table1);
    crate::stage::lemma_asks_more(m, 4 + 4 * k, list0, Ask::Make(table1));
    let list1 = list0.push(Ask::Make(table1));
    let sorted1 = Thing::Sorted { of: Box::new(table1), keys: 1, turn: 5 + 4 * k };
    let m3 = crate::stage::lemma_sort(m2, steps[2], 2, 1, 3, table1, sorted1);
    crate::stage::lemma_asks_more(m, 4 + 4 * k, list1, Ask::Make(sorted1));
    let list2 = list1.push(Ask::Make(sorted1));
    let m4 = crate::stage::lemma_sync(m3, steps[3]);
    crate::stage::lemma_asks_more(m, 4 + 4 * k, list2, Ask::Other(Request::Sync));
    let list3 = list2.push(Ask::Other(Request::Sync));
    let m5 = crate::stage::lemma_release(m4, steps[4], 2);
    crate::stage::lemma_asks_more(m, 4 + 4 * k, list3, Ask::Other(Request::Release { from: 2 }));
    let list4 = list3.push(Ask::Other(Request::Release { from: 2 }));
    assert(error_detection_checks_asks(k) == list4);
    m5
}

/// The steps of the part `checks` of `test_error_detection`.
proof fn lemma_error_detection_checks_steps(k: int)
    ensures
        ({
            let steps = crate::categories::c21_hardware::error_detection_checks_round(k as u64);
            &&& steps.len() == 5
            &&& crate::stage::fills(
                steps[0],
                2,
                num(1000),
                plus(ix(), times(num(k as u64), num(1000))),
            )
            &&& crate::stage::demands(
                steps[1],
                Request::Create { into: 2, layout: Layout::Val, scalar: Scalar::U32, from: 2 },
            )
            &&& crate::stage::demands(steps[2], Request::Sort { of: 2, keys: 1, into: 3 })
            &&& crate::stage::demands(steps[3], Request::Sync)
            &&& crate::stage::inquires(steps[4], Request::Release { from: 2 })
        }),
{
}

/// The first `k` rounds of the part `checks` of `test_error_detection` ask what they should.
proof fn lemma_error_detection_checks_rounds(m: Moment, part: Seq<Step>, k: int) -> (n: Moment)
    requires
        0 <= k <= 5,
        m.holds(),
        m.at == 6,
        m.used == 4 + 4 * 0,
        m.at + 25 <= m.plan.steps.len(),
        part == crate::script::rounds(
            5,
            |k: int| crate::categories::c21_hardware::error_detection_checks_round(k as u64),
        ),
        forall|j: int| 0 <= j < 25 ==> m.plan.steps[6 + j] == #[trigger] part[j],
    ensures
        n.holds(),
        n.plan == m.plan,
        n.answers == m.answers,
        n.at == 6 + 5 * k,
        n.used == 4 + 4 * k,
        forall|j: int|
            0 <= j < k ==> crate::stage::asks(
                m.plan,
                m.answers,
                4 + 4 * j,
                #[trigger] error_detection_checks_asks(j),
            ),
    decreases k,
{
    if k == 0 {
        m
    } else {
        let round = |k: int| crate::categories::c21_hardware::error_detection_checks_round(
            k as u64,
        );
        let before = lemma_error_detection_checks_rounds(m, part, k - 1);
        assert forall|j: int| 0 <= j < 5 implies m.plan.steps[before.at + j] == #[trigger] crate::categories::c21_hardware::error_detection_checks_round(
            (k - 1) as u64,
        )[j] by {
            assert forall|k: int| 0 <= k < 5 implies (#[trigger] round(k)).len() == 5 by {
                lemma_error_detection_checks_steps(k);
            }
            crate::stage::lemma_round_place(5, round, 5, k - 1, j);
            assert(part[(k - 1) * 5 + j] == round(k - 1)[j]);
        }
        lemma_error_detection_checks_steps(k - 1);
        lemma_error_detection_checks(
            before,
            crate::categories::c21_hardware::error_detection_checks_round((k - 1) as u64),
            k - 1,
        )
    }
}

/// What the device is asked in piece 1 of the part `edges` of `test_error_detection`.
pub open spec fn error_detection_edges_1_asks() -> Seq<Ask> {
    let words1 = crate::stage::column(0, |i: int| 0);
    let table1 = Thing::Table {
        layout: Layout::Val,
        scalar: Scalar::U32,
        columns: seq![words1],
        turn: 24,
    };
    let sorted1 = Thing::Sorted { of: Box::new(table1), keys: 1, turn: 25 };
    let words2 = crate::stage::column(1, |i: int| 42);
    let table2 = Thing::Table {
        layout: Layout::Val,
        scalar: Scalar::U32,
        columns: seq![words2],
        turn: 27,
    };
    seq![
        Ask::Make(table1),
        Ask::Make(sorted1),
        Ask::Other(Request::Sync),
        Ask::Make(table2),
        Ask::Make(error_detection_edges_sorted2()),
        Ask::Other(Request::Sync),
    ]
}

/// Piece 1 of the part `edges` of `test_error_detection` asks what it should.
proof fn lemma_error_detection_edges_1(m: Moment, steps: Seq<Step>) -> (n: Moment)
    requires
        m.holds(),
        m.at == 31,
        m.used == 24,
        31 + 11 <= m.plan.steps.len(),
        forall|j: int| 0 <= j < 11 ==> m.plan.steps[31 + j] == #[trigger] steps[j],
        crate::stage::fills(steps[0], 3, num(0), num(0)),
        crate::stage::demands(
            steps[1],
            Request::Create { into: 2, layout: Layout::Val, scalar: Scalar::U32, from: 3 },
        ),
        crate::stage::demands(steps[2], Request::Sort { of: 2, keys: 1, into: 3 }),
        crate::stage::demands(steps[3], Request::Sync),
        crate::stage::fills(steps[4], 4, num(1), num(42)),
        crate::stage::demands(
            steps[5],
            Request::Create { into: 4, layout: Layout::Val, scalar: Scalar::U32, from: 4 },
        ),
        crate::stage::demands(steps[6], Request::Sort { of: 4, keys: 1, into: 5 }),
        crate::stage::demands(steps[7], Request::Sync),
    ensures
        n.holds(),
        n.plan == m.plan,
        n.answers == m.answers,
        n.at == 31 + 8,
        n.used == m.used + 6,
        n.scene.buffer(5) == error_detection_edges_sorted2(),
        crate::stage::asks(m.plan, m.answers, 24, error_detection_edges_1_asks()),
{
    crate::stage::lemma_full(m);
    crate::stage::lemma_asks_none(m, 24);
    let list0 = Seq::<Ask>::empty();
    let words1 = crate::stage::column(0, |i: int| 0);
    let word1 = num(0);
    assert forall|i: int| 0 <= i < words1.len() implies crate::stage::meaning(
        word1,
        m.contents,
        i,
    ) as u64 == #[trigger] words1[i] by {
        reveal_with_fuel(crate::stage::meaning, 2);
    }
    let m1 = crate::stage::lemma_filled(m, steps[0], 3, num(0), word1, words1);
    let table1 = Thing::Table {
        layout: Layout::Val,
        scalar: Scalar::U32,
        columns: seq![words1],
        turn: 24,
    };
    let m2 = crate::stage::lemma_create(m1, steps[1], 2, Layout::Val, Scalar::U32, 3, table1);
    crate::stage::lemma_asks_more(m, 24, list0, Ask::Make(table1));
    let list1 = list0.push(Ask::Make(table1));
    let sorted1 = Thing::Sorted { of: Box::new(table1), keys: 1, turn: 25 };
    let m3 = crate::stage::lemma_sort(m2, steps[2], 2, 1, 3, table1, sorted1);
    crate::stage::lemma_asks_more(m, 24, list1, Ask::Make(sorted1));
    let list2 = list1.push(Ask::Make(sorted1));
    let m4 = crate::stage::lemma_sync(m3, steps[3]);
    crate::stage::lemma_asks_more(m, 24, list2, Ask::Other(Request::Sync));
    let list3 = list2.push(Ask::Other(Request::Sync));
    let words2 = crate::stage::column(1, |i: int| 42);
    let word5 = num(42);
    assert forall|i: int| 0 <= i < words2.len() implies crate::stage::meaning(
        word5,
        m4.contents,
        i,
    ) as u64 == #[trigger] words2[i] by {
        reveal_with_fuel(crate::stage::meaning, 2);
    }
    let m5 = crate::stage::lemma_filled(m4, steps[4], 4, num(1), word5, words2);
    let table2 = Thing::Table {
        layout: Layout::Val,
        scalar: Scalar::U32,
        columns: seq![words2],
        turn: 27,
    };
    let m6 = crate::stage::lemma_create(m5, steps[5], 4, Layout::Val, Scalar::U32, 4, table2);
    crate::stage::lemma_asks_more(m, 24, list3, Ask::Make(table2));
    let list4 = list3.push(Ask::Make(table2));
    let m7 = crate::stage::lemma_sort(
        m6,
        steps[6],
        4,
        1,
        5,
        table2,
        error_detection_edges_sorted2(),
    );
    crate::stage::lemma_asks_more(m, 24, list4, Ask::Make(error_detection_edges_sorted2()));
    let list5 = list4.push(Ask::Make(error_detection_edges_sorted2()));
    let m8 = crate::stage::lemma_sync(m7, steps[7]);
    crate::stage::lemma_asks_more(m, 24, list5, Ask::Other(Request::Sync));
    let list6 = list5.push(Ask::Other(Request::Sync));
    assert(error_detection_edges_1_asks() == list6);
    m8
}

/// What the device is asked in piece 2 of the part `edges` of `test_error_detection`.
pub open spec fn error_detection_edges_2_asks() -> Seq<Ask> {
    seq![
        Ask::Words { of: error_detection_edges_sorted2(), column: 0, scalar: Scalar::U32 },
        Ask::Other(Request::Sync),
    ]
}

/// Piece 2 of the part `edges` of `test_error_detection` asks what it should.
proof fn lemma_error_detection_edges_2(m: Moment, steps: Seq<Step>) -> (n: Moment)
    requires
        m.holds(),
        m.at == 31 + 8,
        m.used == 30,
        31 + 11 <= m.plan.steps.len(),
        forall|j: int| 0 <= j < 11 ==> m.plan.steps[31 + j] == #[trigger] steps[j],
        crate::stage::demands(
            steps[8],
            Request::Download { of: 5, column: 0, scalar: Scalar::U32, into: 5 },
        ),
        crate::stage::looks(steps[9]),
        crate::stage::demands(steps[10], Request::Sync),
        m.scene.buffer(5) == error_detection_edges_sorted2(),
    ensures
        n.holds(),
        n.plan == m.plan,
        n.answers == m.answers,
        n.at == 31 + 11,
        n.used == m.used + 2,
        crate::stage::asks(m.plan, m.answers, 30, error_detection_edges_2_asks()),
{
    crate::stage::lemma_full(m);
    crate::stage::lemma_asks_none(m, 30);
    let list0 = Seq::<Ask>::empty();
    let m1 = crate::stage::lemma_download(
        m,
        steps[8],
        5,
        0,
        Scalar::U32,
        5,
        error_detection_edges_sorted2(),
    );
    crate::stage::lemma_asks_more(
        m,
        30,
        list0,
        Ask::Words { of: error_detection_edges_sorted2(), column: 0, scalar: Scalar::U32 },
    );
    let list1 = list0.push(
        Ask::Words { of: error_detection_edges_sorted2(), column: 0, scalar: Scalar::U32 },
    );
    let m2 = crate::stage::lemma_look(m1, steps[9]);
    let m3 = crate::stage::lemma_sync(m2, steps[10]);
    crate::stage::lemma_asks_more(m, 30, list1, Ask::Other(Request::Sync));
    let list2 = list1.push(Ask::Other(Request::Sync));
    assert(error_detection_edges_2_asks() == list2);
    m3
}

/// The steps of the part `edges` of `test_error_detection`.
proof fn lemma_error_detection_edges_steps()
    ensures
        ({
            let steps = crate::categories::c21_hardware::error_detection_edges_steps();
            &&& steps.len() == 11
            &&& crate::stage::fills(steps[0], 3, num(0), num(0))
            &&& crate::stage::demands(
                steps[1],
                Request::Create { into: 2, layout: Layout::Val, scalar: Scalar::U32, from: 3 },
            )
            &&& crate::stage::demands(steps[2], Request::Sort { of: 2, keys: 1, into: 3 })
            &&& crate::stage::demands(steps[3], Request::Sync)
            &&& crate::stage::fills(steps[4], 4, num(1), num(42))
            &&& crate::stage::demands(
                steps[5],
                Request::Create { into: 4, layout: Layout::Val, scalar: Scalar::U32, from: 4 },
            )
            &&& crate::stage::demands(steps[6], Request::Sort { of: 4, keys: 1, into: 5 })
            &&& crate::stage::demands(steps[7], Request::Sync)
            &&& crate::stage::demands(
                steps[8],
                Request::Download { of: 5, column: 0, scalar: Scalar::U32, into: 5 },
            )
            &&& crate::stage::looks(steps[9])
            &&& crate::stage::demands(steps[10], Request::Sync)
        }),
{
}

/// In a run of `test_error_detection` that passes the device is asked this, in this order, and
/// nothing else: each request about what an earlier one made is about that, and about what was
/// uploaded for it.
pub proof fn law_error_detection_asks_about_what_it_made(answers: Seq<Answer>)
    requires
        crate::stage::passes(
            crate::script::plan(
                "test_error_detection",
                crate::categories::c21_hardware::error_detection_steps(),
            ),
            answers,
        ),
    ensures
        crate::stage::asks(
            crate::script::plan(
                "test_error_detection",
                crate::categories::c21_hardware::error_detection_steps(),
            ),
            answers,
            0,
            error_detection_column_asks(),
        ),
        forall|k: int|
            0 <= k < 5 ==> crate::stage::asks(
                crate::script::plan(
                    "test_error_detection",
                    crate::categories::c21_hardware::error_detection_steps(),
                ),
                answers,
                4 + 4 * k,
                #[trigger] error_detection_checks_asks(k),
            ),
        crate::stage::asks(
            crate::script::plan(
                "test_error_detection",
                crate::categories::c21_hardware::error_detection_steps(),
            ),
            answers,
            24,
            error_detection_edges_1_asks(),
        ),
        crate::stage::asks(
            crate::script::plan(
                "test_error_detection",
                crate::categories::c21_hardware::error_detection_steps(),
            ),
            answers,
            30,
            error_detection_edges_2_asks(),
        ),
        crate::stage::asked(
            crate::script::plan(
                "test_error_detection",
                crate::categories::c21_hardware::error_detection_steps(),
            ),
            answers,
            32,
        ) is None,
{
    let plan = crate::script::plan(
        "test_error_detection",
        crate::categories::c21_hardware::error_detection_steps(),
    );
    let part1 = crate::categories::c21_hardware::error_detection_column_steps();
    lemma_error_detection_column_steps();
    let round2 = |k: int| crate::categories::c21_hardware::error_detection_checks_round(k as u64);
    let part2 = crate::script::rounds(5, round2);
    assert forall|k: int| 0 <= k < 5 implies (#[trigger] round2(k)).len() == 5 by {
        lemma_error_detection_checks_steps(k);
    }
    crate::stage::lemma_rounds_length(5, round2, 5);
    let part3 = crate::categories::c21_hardware::error_detection_edges_steps();
    lemma_error_detection_edges_steps();
    let whole1 = part1;
    let whole2 = whole1 + part2;
    let whole3 = whole2 + part3;
    assert(plan.steps == whole3);
    let m0 = crate::stage::lemma_start(plan, answers);
    assert forall|j: int| 0 <= j < 6 implies plan.steps[0 + j] == #[trigger] part1[j] by {}
    let m1 = lemma_error_detection_column(m0, part1);
    assert forall|j: int| 0 <= j < 25 implies plan.steps[6 + j] == #[trigger] part2[j] by {}
    let m2 = lemma_error_detection_checks_rounds(m1, part2, 5);
    assert forall|j: int| 0 <= j < 11 implies plan.steps[31 + j] == #[trigger] part3[j] by {}
    let m3 = lemma_error_detection_edges_1(m2, part3);
    let m4 = lemma_error_detection_edges_2(m3, part3);
    crate::stage::lemma_end(m4);
}

/// What is sorted in the part `recovery` of `test_recovery_after_error`.
pub open spec fn recovery_after_error_recovery_sorted1() -> Thing {
    Thing::Sorted {
        of: Box::new(
            Thing::Table {
                layout: Layout::Val,
                scalar: Scalar::U32,
                columns: seq![crate::stage::column(5000, |i: int| i)],
                turn: 0,
            },
        ),
        keys: 1,
        turn: 1,
    }
}

/// What the device is asked in piece 1 of the part `recovery` of `test_recovery_after_error`.
pub open spec fn recovery_after_error_recovery_1_asks() -> Seq<Ask> {
    let words1 = crate::stage::column(5000, |i: int| i);
    let table1 = Thing::Table {
        layout: Layout::Val,
        scalar: Scalar::U32,
        columns: seq![words1],
        turn: 0,
    };
    let words2 = crate::stage::column(5, |i: int| i + 1);
    let table2 = Thing::Table {
        layout: Layout::Val,
        scalar: Scalar::U32,
        columns: seq![words2],
        turn: 3,
    };
    let words3 = crate::stage::column(3, |i: int| (i + 1) % 2);
    let kept1 = Thing::Kept { of: Box::new(table2), mask: words3, turn: 4 };
    seq![
        Ask::Make(table1),
        Ask::Make(recovery_after_error_recovery_sorted1()),
        Ask::Other(Request::Sync),
        Ask::Make(table2),
        Ask::Make(kept1),
    ]
}

/// Piece 1 of the part `recovery` of `test_recovery_after_error` asks what it should.
proof fn lemma_recovery_after_error_recovery_1(m: Moment, steps: Seq<Step>) -> (n: Moment)
    requires
        m.holds(),
        m.at == 0,
        m.used == 0,
        0 + 15 <= m.plan.steps.len(),
        forall|j: int| 0 <= j < 15 ==> m.plan.steps[0 + j] == #[trigger] steps[j],
        crate::stage::fills(steps[0], 0, num(5000), ix()),
        crate::stage::demands(
            steps[1],
            Request::Create { into: 0, layout: Layout::Val, scalar: Scalar::U32, from: 0 },
        ),
        crate::stage::demands(steps[2], Request::Sort { of: 0, keys: 1, into: 1 }),
        crate::stage::demands(steps[3], Request::Sync),
        crate::stage::fills(steps[4], 1, num(5), plus(ix(), num(1))),
        crate::stage::demands(
            steps[5],
            Request::Create { into: 2, layout: Layout::Val, scalar: Scalar::U32, from: 1 },
        ),
        crate::stage::fills(steps[6], 2, num(3), modulo(plus(ix(), num(1)), num(2))),
        crate::stage::inquires(steps[7], Request::Filter { of: 2, mask: 2, into: 3 }),
    ensures
        n.holds(),
        n.plan == m.plan,
        n.answers == m.answers,
        n.at == 0 + 8,
        n.used == m.used + 5,
        n.scene.buffer(1) == recovery_after_error_recovery_sorted1(),
        crate::stage::asks(m.plan, m.answers, 0, recovery_after_error_recovery_1_asks()),
{
    crate::stage::lemma_full(m);
    crate::stage::lemma_asks_none(m, 0);
    let list0 = Seq::<Ask>::empty();
    let words1 = crate::stage::column(5000, |i: int| i);
    let word1 = ix();
    assert forall|i: int| 0 <= i < words1.len() implies crate::stage::meaning(
        word1,
        m.contents,
        i,
    ) as u64 == #[trigger] words1[i] by {
        reveal_with_fuel(crate::stage::meaning, 1);
    }
    let m1 = crate::stage::lemma_filled(m, steps[0], 0, num(5000), word1, words1);
    let table1 = Thing::Table {
        layout: Layout::Val,
        scalar: Scalar::U32,
        columns: seq![words1],
        turn: 0,
    };
    let m2 = crate::stage::lemma_create(m1, steps[1], 0, Layout::Val, Scalar::U32, 0, table1);
    crate::stage::lemma_asks_more(m, 0, list0, Ask::Make(table1));
    let list1 = list0.push(Ask::Make(table1));
    let m3 = crate::stage::lemma_sort(
        m2,
        steps[2],
        0,
        1,
        1,
        table1,
        recovery_after_error_recovery_sorted1(),
    );
    crate::stage::lemma_asks_more(m, 0, list1, Ask::Make(recovery_after_error_recovery_sorted1()));
    let list2 = list1.push(Ask::Make(recovery_after_error_recovery_sorted1()));
    let m4 = crate::stage::lemma_sync(m3, steps[3]);
    crate::stage::lemma_asks_more(m, 0, list2, Ask::Other(Request::Sync));
    let list3 = list2.push(Ask::Other(Request::Sync));
    let words2 = crate::stage::column(5, |i: int| i + 1);
    let word5 = plus(ix(), num(1));
    assert forall|i: int| 0 <= i < words2.len() implies crate::stage::meaning(
        word5,
        m4.contents,
        i,
    ) as u64 == #[trigger] words2[i] by {
        reveal_with_fuel(crate::stage::meaning, 3);
    }
    let m5 = crate::stage::lemma_filled(m4, steps[4], 1, num(5), word5, words2);
    let table2 = Thing::Table {
        layout: Layout::Val,
        scalar: Scalar::U32,
        columns: seq![words2],
        turn: 3,
    };
    let m6 = crate::stage::lemma_create(m5, steps[5], 2, Layout::Val, Scalar::U32, 1, table2);
    crate::stage::lemma_asks_more(m, 0, list3, Ask::Make(table2));
    let list4 = list3.push(Ask::Make(table2));
    let words3 = crate::stage::column(3, |i: int| (i + 1) % 2);
    let word7 = modulo(plus(ix(), num(1)), num(2));
    assert forall|i: int| 0 <= i < words3.len() implies crate::stage::meaning(
        word7,
        m6.contents,
        i,
    ) as u64 == #[trigger] words3[i] by {
        reveal_with_fuel(crate::stage::meaning, 4);
    }
    let m7 = crate::stage::lemma_filled(m6, steps[6], 2, num(3), word7, words3);
    let kept1 = Thing::Kept { of: Box::new(table2), mask: words3, turn: 4 };
    let m8 = crate::stage::lemma_attempt(m7, steps[7], 2, 2, 3, table2, words3, kept1);
    crate::stage::lemma_asks_more(m, 0, list4, Ask::Make(kept1));
    let list5 = list4.push(Ask::Make(kept1));
    assert(recovery_after_error_recovery_1_asks() == list5);
    m8
}

/// What the device is asked in piece 2 of the part `recovery` of `test_recovery_after_error`.
pub open spec fn recovery_after_error_recovery_2_asks() -> Seq<Ask> {
    let words4 = crate::stage::column(10000, |i: int| i);
    let table3 = Thing::Table {
        layout: Layout::Val,
        scalar: Scalar::U32,
        columns: seq![words4],
        turn: 6,
    };
    let sorted2 = Thing::Sorted { of: Box::new(table3), keys: 1, turn: 7 };
    seq![
        Ask::Other(Request::Sync),
        Ask::Make(table3),
        Ask::Make(sorted2),
        Ask::Other(Request::Sync),
        Ask::Words { of: sorted2, column: 0, scalar: Scalar::U32 },
    ]
}

/// Piece 2 of the part `recovery` of `test_recovery_after_error` asks what it should.
proof fn lemma_recovery_after_error_recovery_2(m: Moment, steps: Seq<Step>) -> (n: Moment)
    requires
        m.holds(),
        m.at == 0 + 8,
        m.used == 5,
        0 + 15 <= m.plan.steps.len(),
        forall|j: int| 0 <= j < 15 ==> m.plan.steps[0 + j] == #[trigger] steps[j],
        crate::stage::inquires(steps[8], Request::Sync),
        crate::stage::fills(steps[9], 3, num(10000), ix()),
        crate::stage::demands(
            steps[10],
            Request::Create { into: 4, layout: Layout::Val, scalar: Scalar::U32, from: 3 },
        ),
        crate::stage::demands(steps[11], Request::Sort { of: 4, keys: 1, into: 5 }),
        crate::stage::demands(steps[12], Request::Sync),
        crate::stage::demands(
            steps[13],
            Request::Download { of: 5, column: 0, scalar: Scalar::U32, into: 4 },
        ),
        crate::stage::looks(steps[14]),
        m.scene.buffer(1) == recovery_after_error_recovery_sorted1(),
    ensures
        n.holds(),
        n.plan == m.plan,
        n.answers == m.answers,
        n.at == 0 + 15,
        n.used == m.used + 5,
        n.scene.buffer(1) == recovery_after_error_recovery_sorted1(),
        crate::stage::asks(m.plan, m.answers, 5, recovery_after_error_recovery_2_asks()),
{
    crate::stage::lemma_full(m);
    crate::stage::lemma_asks_none(m, 5);
    let list0 = Seq::<Ask>::empty();
    let m1 = crate::stage::lemma_pause(m, steps[8]);
    crate::stage::lemma_asks_more(m, 5, list0, Ask::Other(Request::Sync));
    let list1 = list0.push(Ask::Other(Request::Sync));
    let words4 = crate::stage::column(10000, |i: int| i);
    let word2 = ix();
    assert forall|i: int| 0 <= i < words4.len() implies crate::stage::meaning(
        word2,
        m1.contents,
        i,
    ) as u64 == #[trigger] words4[i] by {
        reveal_with_fuel(crate::stage::meaning, 1);
    }
    let m2 = crate::stage::lemma_filled(m1, steps[9], 3, num(10000), word2, words4);
    let table3 = Thing::Table {
        layout: Layout::Val,
        scalar: Scalar::U32,
        columns: seq![words4],
        turn: 6,
    };
    let m3 = crate::stage::lemma_create(m2, steps[10], 4, Layout::Val, Scalar::U32, 3, table3);
    crate::stage::lemma_asks_more(m, 5, list1, Ask::Make(table3));
    let list2 = list1.push(Ask::Make(table3));
    let sorted2 = Thing::Sorted { of: Box::new(table3), keys: 1, turn: 7 };
    let m4 = crate::stage::lemma_sort(m3, steps[11], 4, 1, 5, table3, sorted2);
    crate::stage::lemma_asks_more(m, 5, list2, Ask::Make(sorted2));
    let list3 = list2.push(Ask::Make(sorted2));
    let m5 = crate::stage::lemma_sync(m4, steps[12]);
    crate::stage::lemma_asks_more(m, 5, list3, Ask::Other(Request::Sync));
    let list4 = list3.push(Ask::Other(Request::Sync));
    let m6 = crate::stage::lemma_download(m5, steps[13], 5, 0, Scalar::U32, 4, sorted2);
    crate::stage::lemma_asks_more(
        m,
        5,
        list4,
        Ask::Words { of: sorted2, column: 0, scalar: Scalar::U32 },
    );
    let list5 = list4.push(Ask::Words { of: sorted2, column: 0, scalar: Scalar::U32 });
    let m7 = crate::stage::lemma_look(m6, steps[14]);
    assert(recovery_after_error_recovery_2_asks() == list5);
    m7
}

/// The steps of the part `recovery` of `test_recovery_after_error`.
proof fn lemma_recovery_after_error_recovery_steps()
    ensures
        ({
            let steps = crate::categories::c21_hardware::recovery_after_error_recovery_steps();
            &&& steps.len() == 15
            &&& crate::stage::fills(steps[0], 0, num(5000), ix())
            &&& crate::stage::demands(
                steps[1],
                Request::Create { into: 0, layout: Layout::Val, scalar: Scalar::U32, from: 0 },
            )
            &&& crate::stage::demands(steps[2], Request::Sort { of: 0, keys: 1, into: 1 })
            &&& crate::stage::demands(steps[3], Request::Sync)
            &&& crate::stage::fills(steps[4], 1, num(5), plus(ix(), num(1)))
            &&& crate::stage::demands(
                steps[5],
                Request::Create { into: 2, layout: Layout::Val, scalar: Scalar::U32, from: 1 },
            )
            &&& crate::stage::fills(steps[6], 2, num(3), modulo(plus(ix(), num(1)), num(2)))
            &&& crate::stage::inquires(steps[7], Request::Filter { of: 2, mask: 2, into: 3 })
            &&& crate::stage::inquires(steps[8], Request::Sync)
            &&& crate::stage::fills(steps[9], 3, num(10000), ix())
            &&& crate::stage::demands(
                steps[10],
                Request::Create { into: 4, layout: Layout::Val, scalar: Scalar::U32, from: 3 },
            )
            &&& crate::stage::demands(steps[11], Request::Sort { of: 4, keys: 1, into: 5 })
            &&& crate::stage::demands(steps[12], Request::Sync)
            &&& crate::stage::demands(
                steps[13],
                Request::Download { of: 5, column: 0, scalar: Scalar::U32, into: 4 },
            )
            &&& crate::stage::looks(steps[14])
        }),
{
}

/// What the device is asked in round `k` of the part `cycles` of `test_recovery_after_error`.
pub open spec fn recovery_after_error_cycles_asks(k: int) -> Seq<Ask> {
    let words1 = crate::stage::column(1000, |i: int| i + (k * 1000));
    let table1 = Thing::Table {
        layout: Layout::Val,
        scalar: Scalar::U32,
        columns: seq![words1],
        turn: 10 + 5 * k,
    };
    let sorted1 = Thing::Sorted { of: Box::new(table1), keys: 1, turn: 11 + 5 * k };
    seq![
        Ask::Make(table1),
        Ask::Make(sorted1),
        Ask::Other(Request::Sync),
        Ask::Words { of: sorted1, column: 0, scalar: Scalar::U32 },
        Ask::Other(Request::Release { from: 6 }),
    ]
}

/// Round `k` of the part `cycles` of `test_recovery_after_error` asks what it should.
proof fn lemma_recovery_after_error_cycles(m: Moment, steps: Seq<Step>, k: int) -> (n: Moment)
    requires
        0 <= k < 3,
        m.holds(),
        m.at == 15 + 7 * k,
        m.used == 10 + 5 * k,
        15 + 7 * k + 7 <= m.plan.steps.len(),
        forall|j: int| 0 <= j < 7 ==> m.plan.steps[15 + 7 * k + j] == #[trigger] steps[j],
        crate::stage::fills(steps[0], 5, num(1000), plus(ix(), times(num(k as u64), num(1000)))),
        crate::stage::demands(
            steps[1],
            Request::Create { into: 6, layout: Layout::Val, scalar: Scalar::U32, from: 5 },
        ),
        crate::stage::demands(steps[2], Request::Sort { of: 6, keys: 1, into: 7 }),
        crate::stage::demands(steps[3], Request::Sync),
        crate::stage::demands(
            steps[4],
            Request::Download { of: 7, column: 0, scalar: Scalar::U32, into: 6 },
        ),
        crate::stage::looks(steps[5]),
        crate::stage::inquires(steps[6], Request::Release { from: 6 }),
        m.scene.buffer(1) == recovery_after_error_recovery_sorted1(),
    ensures
        n.holds(),
        n.plan == m.plan,
        n.answers == m.answers,
        n.at == 15 + 7 * k + 7,
        n.used == m.used + 5,
        n.scene.buffer(1) == recovery_after_error_recovery_sorted1(),
        crate::stage::asks(m.plan, m.answers, 10 + 5 * k, recovery_after_error_cycles_asks(k)),
{
    crate::stage::lemma_full(m);
    crate::stage::lemma_asks_none(m, 10 + 5 * k);
    let list0 = Seq::<Ask>::empty();
    let words1 = crate::stage::column(1000, |i: int| i + (k * 1000));
    let word1 = plus(ix(), times(num(k as u64), num(1000)));
    assert forall|i: int| 0 <= i < words1.len() implies crate::stage::meaning(
        word1,
        m.contents,
        i,
    ) as u64 == #[trigger] words1[i] by {
        reveal_with_fuel(crate::stage::meaning, 4);
    }
    let m1 = crate::stage::lemma_filled(m, steps[0], 5, num(1000), word1, words1);
    let table1 = Thing::Table {
        layout: Layout::Val,
        scalar: Scalar::U32,
        columns: seq![words1],
        turn: 10 + 5 * k,
    };
    let m2 = crate::stage::lemma_create(m1, steps[1], 6, Layout::Val, Scalar::U32, 5, table1);
    crate::stage::lemma_asks_more(m, 10 + 5 * k, list0, Ask::Make(table1));
    let list1 = list0.push(Ask::Make(table1));
    let sorted1 = Thing::Sorted { of: Box::new(table1), keys: 1, turn: 11 + 5 * k };
    let m3 = crate::stage::lemma_sort(m2, steps[2], 6, 1, 7, table1, sorted1);
    crate::stage::lemma_asks_more(m, 10 + 5 * k, list1, Ask::Make(sorted1));
    let list2 = list1.push(Ask::Make(sorted1));
    let m4 = crate::stage::lemma_sync(m3, steps[3]);
    crate::stage::lemma_asks_more(m, 10 + 5 * k, list2, Ask::Other(Request::Sync));
    let list3 = list2.push(Ask::Other(Request::Sync));
    let m5 = crate::stage::lemma_download(m4, steps[4], 7, 0, Scalar::U32, 6, sorted1);
    crate::stage::lemma_asks_more(
        m,
        10 + 5 * k,
        list3,
        Ask::Words { of: sorted1, column: 0, scalar: Scalar::U32 },
    );
    let list4 = list3.push(Ask::Words { of: sorted1, column: 0, scalar: Scalar::U32 });
    let m6 = crate::stage::lemma_look(m5, steps[5]);
    let m7 = crate::stage::lemma_release(m6, steps[6], 6);
    crate::stage::lemma_asks_more(m, 10 + 5 * k, list4, Ask::Other(Request::Release { from: 6 }));
    let list5 = list4.push(Ask::Other(Request::Release { from: 6 }));
    assert(recovery_after_error_cycles_asks(k) == list5);
    m7
}

/// The steps of the part `cycles` of `test_recovery_after_error`.
proof fn lemma_recovery_after_error_cycles_steps(k: int)
    ensures
        ({
            let steps = crate::categories::c21_hardware::recovery_after_error_cycles_round(
                k as u64,
            );
            &&& steps.len() == 7
            &&& crate::stage::fills(
                steps[0],
                5,
                num(1000),
                plus(ix(), times(num(k as u64), num(1000))),
            )
            &&& crate::stage::demands(
                steps[1],
                Request::Create { into: 6, layout: Layout::Val, scalar: Scalar::U32, from: 5 },
            )
            &&& crate::stage::demands(steps[2], Request::Sort { of: 6, keys: 1, into: 7 })
            &&& crate::stage::demands(steps[3], Request::Sync)
            &&& crate::stage::demands(
                steps[4],
                Request::Download { of: 7, column: 0, scalar: Scalar::U32, into: 6 },
            )
            &&& crate::stage::looks(steps[5])
            &&& crate::stage::inquires(steps[6], Request::Release { from: 6 })
        }),
{
}

/// The first `k` rounds of the part `cycles` of `test_recovery_after_error` ask what they should.
proof fn lemma_recovery_after_error_cycles_rounds(m: Moment, part: Seq<Step>, k: int) -> (n: Moment)
    requires
        0 <= k <= 3,
        m.holds(),
        m.at == 15,
        m.used == 10 + 5 * 0,
        m.at + 21 <= m.plan.steps.len(),
        part == crate::script::rounds(
            3,
            |k: int| crate::categories::c21_hardware::recovery_after_error_cycles_round(k as u64),
        ),
        forall|j: int| 0 <= j < 21 ==> m.plan.steps[15 + j] == #[trigger] part[j],
        m.scene.buffer(1) == recovery_after_error_recovery_sorted1(),
    ensures
        n.holds(),
        n.plan == m.plan,
        n.answers == m.answers,
        n.at == 15 + 7 * k,
        n.used == 10 + 5 * k,
        n.scene.buffer(1) == recovery_after_error_recovery_sorted1(),
        forall|j: int|
            0 <= j < k ==> crate::stage::asks(
                m.plan,
                m.answers,
                10 + 5 * j,
                #[trigger] recovery_after_error_cycles_asks(j),
            ),
    decreases k,
{
    if k == 0 {
        m
    } else {
        let round = |k: int| crate::categories::c21_hardware::recovery_after_error_cycles_round(
            k as u64,
        );
        let before = lemma_recovery_after_error_cycles_rounds(m, part, k - 1);
        assert forall|j: int| 0 <= j < 7 implies m.plan.steps[before.at + j] == #[trigger] crate::categories::c21_hardware::recovery_after_error_cycles_round(
            (k - 1) as u64,
        )[j] by {
            assert forall|k: int| 0 <= k < 3 implies (#[trigger] round(k)).len() == 7 by {
                lemma_recovery_after_error_cycles_steps(k);
            }
            crate::stage::lemma_round_place(3, round, 7, k - 1, j);
            assert(part[(k - 1) * 7 + j] == round(k - 1)[j]);
        }
        lemma_recovery_after_error_cycles_steps(k - 1);
        lemma_recovery_after_error_cycles(
            before,
            crate::categories::c21_hardware::recovery_after_error_cycles_round((k - 1) as u64),
            k - 1,
        )
    }
}

/// What the device is asked in the part `end` of `test_recovery_after_error`.
pub open spec fn recovery_after_error_end_asks() -> Seq<Ask> {
    seq![
        Ask::Words { of: recovery_after_error_recovery_sorted1(), column: 0, scalar: Scalar::U32 },
        Ask::Other(Request::Sync),
    ]
}

/// The part `end` of `test_recovery_after_error` asks what it should.
proof fn lemma_recovery_after_error_end(m: Moment, steps: Seq<Step>) -> (n: Moment)
    requires
        m.holds(),
        m.at == 36,
        m.used == 25,
        36 + 3 <= m.plan.steps.len(),
        forall|j: int| 0 <= j < 3 ==> m.plan.steps[36 + j] == #[trigger] steps[j],
        crate::stage::demands(
            steps[0],
            Request::Download { of: 1, column: 0, scalar: Scalar::U32, into: 7 },
        ),
        crate::stage::looks(steps[1]),
        crate::stage::demands(steps[2], Request::Sync),
        m.scene.buffer(1) == recovery_after_error_recovery_sorted1(),
    ensures
        n.holds(),
        n.plan == m.plan,
        n.answers == m.answers,
        n.at == 36 + 3,
        n.used == m.used + 2,
        crate::stage::asks(m.plan, m.answers, 25, recovery_after_error_end_asks()),
{
    crate::stage::lemma_full(m);
    crate::stage::lemma_asks_none(m, 25);
    let list0 = Seq::<Ask>::empty();
    let m1 = crate::stage::lemma_download(
        m,
        steps[0],
        1,
        0,
        Scalar::U32,
        7,
        recovery_after_error_recovery_sorted1(),
    );
    crate::stage::lemma_asks_more(
        m,
        25,
        list0,
        Ask::Words { of: recovery_after_error_recovery_sorted1(), column: 0, scalar: Scalar::U32 },
    );
    let list1 = list0.push(
        Ask::Words { of: recovery_after_error_recovery_sorted1(), column: 0, scalar: Scalar::U32 },
    );
    let m2 = crate::stage::lemma_look(m1, steps[1]);
    let m3 = crate::stage::lemma_sync(m2, steps[2]);
    crate::stage::lemma_asks_more(m, 25, list1, Ask::Other(Request::Sync));
    let list2 = list1.push(Ask::Other(Request::Sync));
    assert(recovery_after_error_end_asks() == list2);
    m3
}

/// The steps of the part `end` of `test_recovery_after_error`.
proof fn lemma_recovery_after_error_end_steps()
    ensures
        ({
            let steps = crate::categories::c21_hardware::recovery_after_error_end_steps();
            &&& steps.len() == 3
            &&& crate::stage::demands(
                steps[0],
                Request::Download { of: 1, column: 0, scalar: Scalar::U32, into: 7 },
            )
            &&& crate::stage::looks(steps[1])
            &&& crate::stage::demands(steps[2], Request::Sync)
        }),
{
}

/// In a run of `test_recovery_after_error` that passes the device is asked this, in this order, and
/// nothing else: each request about what an earlier one made is about that, and about what was
/// uploaded for it.
pub proof fn law_recovery_after_error_asks_about_what_it_made(answers: Seq<Answer>)
    requires
        crate::stage::passes(
            crate::script::plan(
                "test_recovery_after_error",
                crate::categories::c21_hardware::recovery_after_error_steps(),
            ),
            answers,
        ),
    ensures
        crate::stage::asks(
            crate::script::plan(
                "test_recovery_after_error",
                crate::categories::c21_hardware::recovery_after_error_steps(),
            ),
            answers,
            0,
            recovery_after_error_recovery_1_asks(),
        ),
        crate::stage::asks(
            crate::script::plan(
                "test_recovery_after_error",
                crate::categories::c21_hardware::recovery_after_error_steps(),
            ),
            answers,
            5,
            recovery_after_error_recovery_2_asks(),
        ),
        forall|k: int|
            0 <= k < 3 ==> crate::stage::asks(
                crate::script::plan(
                    "test_recovery_after_error",
                    crate::categories::c21_hardware::recovery_after_error_steps(),
                ),
                answers,
                10 + 5 * k,
                #[trigger] recovery_after_error_cycles_asks(k),
            ),
        crate::stage::asks(
            crate::script::plan(
                "test_recovery_after_error",
                crate::categories::c21_hardware::recovery_after_error_steps(),
            ),
            answers,
            25,
            recovery_after_error_end_asks(),
        ),
        crate::stage::asked(
            crate::script::plan(
                "test_recovery_after_error",
                crate::categories::c21_hardware::recovery_after_error_steps(),
            ),
            answers,
            27,
        ) is None,
{
    let plan = crate::script::plan(
        "test_recovery_after_error",
        crate::categories::c21_hardware::recovery_after_error_steps(),
    );
    let part1 = crate::categories::c21_hardware::recovery_after_error_recovery_steps();
    lemma_recovery_after_error_recovery_steps();
    let round2 = |k: int| crate::categories::c21_hardware::recovery_after_error_cycles_round(
        k as u64,
    );
    let part2 = crate::script::rounds(3, round2);
    assert forall|k: int| 0 <= k < 3 implies (#[trigger] round2(k)).len() == 7 by {
        lemma_recovery_after_error_cycles_steps(k);
    }
    crate::stage::lemma_rounds_length(3, round2, 7);
    let part3 = crate::categories::c21_hardware::recovery_after_error_end_steps();
    lemma_recovery_after_error_end_steps();
    let whole1 = part1;
    let whole2 = whole1 + part2;
    let whole3 = whole2 + part3;
    assert(plan.steps == whole3);
    let m0 = crate::stage::lemma_start(plan, answers);
    assert forall|j: int| 0 <= j < 15 implies plan.steps[0 + j] == #[trigger] part1[j] by {}
    let m1 = lemma_recovery_after_error_recovery_1(m0, part1);
    let m2 = lemma_recovery_after_error_recovery_2(m1, part1);
    assert forall|j: int| 0 <= j < 21 implies plan.steps[15 + j] == #[trigger] part2[j] by {}
    let m3 = lemma_recovery_after_error_cycles_rounds(m2, part2, 3);
    assert forall|j: int| 0 <= j < 3 implies plan.steps[36 + j] == #[trigger] part3[j] by {}
    let m4 = lemma_recovery_after_error_end(m3, part3);
    crate::stage::lemma_end(m4);
}

} // verus!
