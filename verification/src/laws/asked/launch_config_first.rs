//! What these tests ask the device in runs that pass: `zero_elements_no_launch`, `single_element`,
//! `warp_boundary_sizes`.

use vstd::prelude::*;
use crate::expr::{ix, minus, num};
use crate::machine::Answer;
use crate::scalar::Scalar;
use crate::script::{Layout, Request, Step};
use crate::stage::{Ask, Moment, Thing};

verus! {

/// What the device is asked in piece 1 of the part `all` of `zero_elements_no_launch`.
pub open spec fn zero_elements_no_launch_all_1_asks() -> Seq<Ask> {
    let blank1 = Thing::Blank { layout: Layout::Val, scalar: Scalar::U32, turn: 0 };
    let sorted1 = Thing::Sorted { of: Box::new(blank1), keys: 1, turn: 2 };
    let words1 = crate::stage::column(0, |i: int| 1);
    let kept1 = Thing::Kept { of: Box::new(blank1), mask: words1, turn: 5 };
    seq![
        Ask::Make(blank1),
        Ask::Rows(blank1),
        Ask::Make(sorted1),
        Ask::Rows(sorted1),
        Ask::Other(Request::Release { from: 1 }),
        Ask::Make(kept1),
        Ask::Rows(kept1),
    ]
}

/// Piece 1 of the part `all` of `zero_elements_no_launch` asks what it should.
proof fn lemma_zero_elements_no_launch_all_1(m: Moment, steps: Seq<Step>) -> (n: Moment)
    requires
        m.holds(),
        m.at == 0,
        m.used == 0,
        0 + 10 <= m.plan.steps.len(),
        forall|j: int| 0 <= j < 10 ==> m.plan.steps[0 + j] == #[trigger] steps[j],
        crate::stage::demands(
            steps[0],
            Request::CreateEmpty { into: 0, layout: Layout::Val, scalar: Scalar::U32 },
        ),
        crate::stage::counts(steps[1], 0),
        crate::stage::demands(steps[2], Request::Sort { of: 0, keys: 1, into: 1 }),
        crate::stage::counts(steps[3], 1),
        crate::stage::inquires(steps[4], Request::Release { from: 1 }),
        crate::stage::fills(steps[5], 0, num(0), num(1)),
        crate::stage::demands(steps[6], Request::Filter { of: 0, mask: 0, into: 1 }),
        crate::stage::counts(steps[7], 1),
    ensures
        n.holds(),
        n.plan == m.plan,
        n.answers == m.answers,
        n.at == 0 + 8,
        n.used == m.used + 7,
        crate::stage::asks(m.plan, m.answers, 0, zero_elements_no_launch_all_1_asks()),
{
    crate::stage::lemma_full(m);
    crate::stage::lemma_asks_none(m, 0);
    let list0 = Seq::<Ask>::empty();
    let blank1 = Thing::Blank { layout: Layout::Val, scalar: Scalar::U32, turn: 0 };
    let m1 = crate::stage::lemma_make(m, steps[0], blank1);
    crate::stage::lemma_asks_more(m, 0, list0, Ask::Make(blank1));
    let list1 = list0.push(Ask::Make(blank1));
    let m2 = crate::stage::lemma_count(m1, steps[1], 0, blank1);
    crate::stage::lemma_asks_more(m, 0, list1, Ask::Rows(blank1));
    let list2 = list1.push(Ask::Rows(blank1));
    let sorted1 = Thing::Sorted { of: Box::new(blank1), keys: 1, turn: 2 };
    let m3 = crate::stage::lemma_sort(m2, steps[2], 0, 1, 1, blank1, sorted1);
    crate::stage::lemma_asks_more(m, 0, list2, Ask::Make(sorted1));
    let list3 = list2.push(Ask::Make(sorted1));
    let m4 = crate::stage::lemma_count(m3, steps[3], 1, sorted1);
    crate::stage::lemma_asks_more(m, 0, list3, Ask::Rows(sorted1));
    let list4 = list3.push(Ask::Rows(sorted1));
    let m5 = crate::stage::lemma_release(m4, steps[4], 1);
    crate::stage::lemma_asks_more(m, 0, list4, Ask::Other(Request::Release { from: 1 }));
    let list5 = list4.push(Ask::Other(Request::Release { from: 1 }));
    let words1 = crate::stage::column(0, |i: int| 1);
    let word6 = num(1);
    assert forall|i: int| 0 <= i < words1.len() implies crate::stage::meaning(
        word6,
        m5.contents,
        i,
    ) as u64 == #[trigger] words1[i] by {
        reveal_with_fuel(crate::stage::meaning, 2);
    }
    let m6 = crate::stage::lemma_filled(m5, steps[5], 0, num(0), word6, words1);
    let kept1 = Thing::Kept { of: Box::new(blank1), mask: words1, turn: 5 };
    let m7 = crate::stage::lemma_filter(m6, steps[6], 0, 0, 1, blank1, words1, kept1);
    crate::stage::lemma_asks_more(m, 0, list5, Ask::Make(kept1));
    let list6 = list5.push(Ask::Make(kept1));
    let m8 = crate::stage::lemma_count(m7, steps[7], 1, kept1);
    crate::stage::lemma_asks_more(m, 0, list6, Ask::Rows(kept1));
    let list7 = list6.push(Ask::Rows(kept1));
    assert(zero_elements_no_launch_all_1_asks() == list7);
    m8
}

/// What the device is asked in piece 2 of the part `all` of `zero_elements_no_launch`.
pub open spec fn zero_elements_no_launch_all_2_asks() -> Seq<Ask> {
    seq![Ask::Other(Request::Release { from: 1 }), Ask::Other(Request::Sync)]
}

/// Piece 2 of the part `all` of `zero_elements_no_launch` asks what it should.
proof fn lemma_zero_elements_no_launch_all_2(m: Moment, steps: Seq<Step>) -> (n: Moment)
    requires
        m.holds(),
        m.at == 0 + 8,
        m.used == 7,
        0 + 10 <= m.plan.steps.len(),
        forall|j: int| 0 <= j < 10 ==> m.plan.steps[0 + j] == #[trigger] steps[j],
        crate::stage::inquires(steps[8], Request::Release { from: 1 }),
        crate::stage::demands(steps[9], Request::Sync),
    ensures
        n.holds(),
        n.plan == m.plan,
        n.answers == m.answers,
        n.at == 0 + 10,
        n.used == m.used + 2,
        crate::stage::asks(m.plan, m.answers, 7, zero_elements_no_launch_all_2_asks()),
{
    crate::stage::lemma_full(m);
    crate::stage::lemma_asks_none(m, 7);
    let list0 = Seq::<Ask>::empty();
    let m1 = crate::stage::lemma_release(m, steps[8], 1);
    crate::stage::lemma_asks_more(m, 7, list0, Ask::Other(Request::Release { from: 1 }));
    let list1 = list0.push(Ask::Other(Request::Release { from: 1 }));
    let m2 = crate::stage::lemma_sync(m1, steps[9]);
    crate::stage::lemma_asks_more(m, 7, list1, Ask::Other(Request::Sync));
    let list2 = list1.push(Ask::Other(Request::Sync));
    assert(zero_elements_no_launch_all_2_asks() == list2);
    m2
}

/// The steps of the part `all` of `zero_elements_no_launch`.
proof fn lemma_zero_elements_no_launch_all_steps()
    ensures
        ({
            let steps = crate::categories::c02_launch_config::zero_elements_no_launch_steps();
            &&& steps.len() == 10
            &&& crate::stage::demands(
                steps[0],
                Request::CreateEmpty { into: 0, layout: Layout::Val, scalar: Scalar::U32 },
            )
            &&& crate::stage::counts(steps[1], 0)
            &&& crate::stage::demands(steps[2], Request::Sort { of: 0, keys: 1, into: 1 })
            &&& crate::stage::counts(steps[3], 1)
            &&& crate::stage::inquires(steps[4], Request::Release { from: 1 })
            &&& crate::stage::fills(steps[5], 0, num(0), num(1))
            &&& crate::stage::demands(steps[6], Request::Filter { of: 0, mask: 0, into: 1 })
            &&& crate::stage::counts(steps[7], 1)
            &&& crate::stage::inquires(steps[8], Request::Release { from: 1 })
            &&& crate::stage::demands(steps[9], Request::Sync)
        }),
{
}

/// In a run of `zero_elements_no_launch` that passes the device is asked this, in this order, and
/// nothing else: each request about what an earlier one made is about that, and about what was
/// uploaded for it.
pub proof fn law_zero_elements_no_launch_asks_about_what_it_made(answers: Seq<Answer>)
    requires
        crate::stage::passes(
            crate::script::plan(
                "zero_elements_no_launch",
                crate::categories::c02_launch_config::zero_elements_no_launch_steps(),
            ),
            answers,
        ),
    ensures
        crate::stage::asks(
            crate::script::plan(
                "zero_elements_no_launch",
                crate::categories::c02_launch_config::zero_elements_no_launch_steps(),
            ),
            answers,
            0,
            zero_elements_no_launch_all_1_asks(),
        ),
        crate::stage::asks(
            crate::script::plan(
                "zero_elements_no_launch",
                crate::categories::c02_launch_config::zero_elements_no_launch_steps(),
            ),
            answers,
            7,
            zero_elements_no_launch_all_2_asks(),
        ),
        crate::stage::asked(
            crate::script::plan(
                "zero_elements_no_launch",
                crate::categories::c02_launch_config::zero_elements_no_launch_steps(),
            ),
            answers,
            9,
        ) is None,
{
    let plan = crate::script::plan(
        "zero_elements_no_launch",
        crate::categories::c02_launch_config::zero_elements_no_launch_steps(),
    );
    let part1 = crate::categories::c02_launch_config::zero_elements_no_launch_steps();
    lemma_zero_elements_no_launch_all_steps();
    let whole1 = part1;
    assert(plan.steps == whole1);
    let m0 = crate::stage::lemma_start(plan, answers);
    assert forall|j: int| 0 <= j < 10 implies plan.steps[0 + j] == #[trigger] part1[j] by {}
    let m1 = lemma_zero_elements_no_launch_all_1(m0, part1);
    let m2 = lemma_zero_elements_no_launch_all_2(m1, part1);
    crate::stage::lemma_end(m2);
}

/// A buffer that is uploaded in the part `all` of `single_element`.
pub open spec fn single_element_all_table1() -> Thing {
    Thing::Table {
        layout: Layout::Val,
        scalar: Scalar::U32,
        columns: seq![crate::stage::column(1, |i: int| 42)],
        turn: 0,
    }
}

/// A column that is filled in the part `all` of `single_element`.
pub open spec fn single_element_all_words2() -> Seq<u64> {
    crate::stage::column(1, |i: int| 1)
}

/// What the device is asked in piece 1 of the part `all` of `single_element`.
pub open spec fn single_element_all_1_asks() -> Seq<Ask> {
    let sorted1 = Thing::Sorted { of: Box::new(single_element_all_table1()), keys: 1, turn: 2 };
    seq![
        Ask::Make(single_element_all_table1()),
        Ask::Rows(single_element_all_table1()),
        Ask::Make(sorted1),
        Ask::Rows(sorted1),
        Ask::Words { of: sorted1, column: 0, scalar: Scalar::U32 },
    ]
}

/// Piece 1 of the part `all` of `single_element` asks what it should.
proof fn lemma_single_element_all_1(m: Moment, steps: Seq<Step>) -> (n: Moment)
    requires
        m.holds(),
        m.at == 0,
        m.used == 0,
        0 + 16 <= m.plan.steps.len(),
        forall|j: int| 0 <= j < 16 ==> m.plan.steps[0 + j] == #[trigger] steps[j],
        crate::stage::fills(steps[0], 0, num(1), num(42)),
        crate::stage::demands(
            steps[1],
            Request::Create { into: 0, layout: Layout::Val, scalar: Scalar::U32, from: 0 },
        ),
        crate::stage::counts(steps[2], 0),
        crate::stage::demands(steps[3], Request::Sort { of: 0, keys: 1, into: 1 }),
        crate::stage::counts(steps[4], 1),
        crate::stage::demands(
            steps[5],
            Request::Download { of: 1, column: 0, scalar: Scalar::U32, into: 1 },
        ),
        crate::stage::looks(steps[6]),
        crate::stage::fills(steps[7], 2, num(1), num(1)),
    ensures
        n.holds(),
        n.plan == m.plan,
        n.answers == m.answers,
        n.at == 0 + 8,
        n.used == m.used + 5,
        n.contents.columns[2] == single_element_all_words2(),
        n.scene.buffer(0) == single_element_all_table1(),
        crate::stage::asks(m.plan, m.answers, 0, single_element_all_1_asks()),
{
    crate::stage::lemma_full(m);
    crate::stage::lemma_asks_none(m, 0);
    let list0 = Seq::<Ask>::empty();
    let words1 = crate::stage::column(1, |i: int| 42);
    let word1 = num(42);
    assert forall|i: int| 0 <= i < words1.len() implies crate::stage::meaning(
        word1,
        m.contents,
        i,
    ) as u64 == #[trigger] words1[i] by {
        reveal_with_fuel(crate::stage::meaning, 2);
    }
    let m1 = crate::stage::lemma_filled(m, steps[0], 0, num(1), word1, words1);
    let m2 = crate::stage::lemma_create(
        m1,
        steps[1],
        0,
        Layout::Val,
        Scalar::U32,
        0,
        single_element_all_table1(),
    );
    crate::stage::lemma_asks_more(m, 0, list0, Ask::Make(single_element_all_table1()));
    let list1 = list0.push(Ask::Make(single_element_all_table1()));
    let m3 = crate::stage::lemma_count(m2, steps[2], 0, single_element_all_table1());
    crate::stage::lemma_asks_more(m, 0, list1, Ask::Rows(single_element_all_table1()));
    let list2 = list1.push(Ask::Rows(single_element_all_table1()));
    let sorted1 = Thing::Sorted { of: Box::new(single_element_all_table1()), keys: 1, turn: 2 };
    let m4 = crate::stage::lemma_sort(m3, steps[3], 0, 1, 1, single_element_all_table1(), sorted1);
    crate::stage::lemma_asks_more(m, 0, list2, Ask::Make(sorted1));
    let list3 = list2.push(Ask::Make(sorted1));
    let m5 = crate::stage::lemma_count(m4, steps[4], 1, sorted1);
    crate::stage::lemma_asks_more(m, 0, list3, Ask::Rows(sorted1));
    let list4 = list3.push(Ask::Rows(sorted1));
    let m6 = crate::stage::lemma_download(m5, steps[5], 1, 0, Scalar::U32, 1, sorted1);
    crate::stage::lemma_asks_more(
        m,
        0,
        list4,
        Ask::Words { of: sorted1, column: 0, scalar: Scalar::U32 },
    );
    let list5 = list4.push(Ask::Words { of: sorted1, column: 0, scalar: Scalar::U32 });
    let m7 = crate::stage::lemma_look(m6, steps[6]);
    let words2 = single_element_all_words2();
    let word8 = num(1);
    assert forall|i: int| 0 <= i < words2.len() implies crate::stage::meaning(
        word8,
        m7.contents,
        i,
    ) as u64 == #[trigger] words2[i] by {
        reveal_with_fuel(crate::stage::meaning, 2);
    }
    let m8 = crate::stage::lemma_filled(m7, steps[7], 2, num(1), word8, words2);
    assert(single_element_all_1_asks() == list5);
    m8
}

/// What the device is asked in piece 2 of the part `all` of `single_element`.
pub open spec fn single_element_all_2_asks() -> Seq<Ask> {
    let kept1 = Thing::Kept {
        of: Box::new(single_element_all_table1()),
        mask: single_element_all_words2(),
        turn: 5,
    };
    let words3 = crate::stage::column(1, |i: int| 0);
    let kept2 = Thing::Kept { of: Box::new(single_element_all_table1()), mask: words3, turn: 8 };
    seq![
        Ask::Make(kept1),
        Ask::Rows(kept1),
        Ask::Words { of: kept1, column: 0, scalar: Scalar::U32 },
        Ask::Make(kept2),
        Ask::Rows(kept2),
        Ask::Other(Request::Sync),
    ]
}

/// Piece 2 of the part `all` of `single_element` asks what it should.
proof fn lemma_single_element_all_2(m: Moment, steps: Seq<Step>) -> (n: Moment)
    requires
        m.holds(),
        m.at == 0 + 8,
        m.used == 5,
        0 + 16 <= m.plan.steps.len(),
        forall|j: int| 0 <= j < 16 ==> m.plan.steps[0 + j] == #[trigger] steps[j],
        crate::stage::demands(steps[8], Request::Filter { of: 0, mask: 2, into: 2 }),
        crate::stage::counts(steps[9], 2),
        crate::stage::demands(
            steps[10],
            Request::Download { of: 2, column: 0, scalar: Scalar::U32, into: 3 },
        ),
        crate::stage::looks(steps[11]),
        crate::stage::fills(steps[12], 4, num(1), num(0)),
        crate::stage::demands(steps[13], Request::Filter { of: 0, mask: 4, into: 3 }),
        crate::stage::counts(steps[14], 3),
        crate::stage::demands(steps[15], Request::Sync),
        m.contents.columns[2] == single_element_all_words2(),
        m.scene.buffer(0) == single_element_all_table1(),
    ensures
        n.holds(),
        n.plan == m.plan,
        n.answers == m.answers,
        n.at == 0 + 16,
        n.used == m.used + 6,
        crate::stage::asks(m.plan, m.answers, 5, single_element_all_2_asks()),
{
    crate::stage::lemma_full(m);
    crate::stage::lemma_asks_none(m, 5);
    let list0 = Seq::<Ask>::empty();
    let kept1 = Thing::Kept {
        of: Box::new(single_element_all_table1()),
        mask: single_element_all_words2(),
        turn: 5,
    };
    let m1 = crate::stage::lemma_filter(
        m,
        steps[8],
        0,
        2,
        2,
        single_element_all_table1(),
        single_element_all_words2(),
        kept1,
    );
    crate::stage::lemma_asks_more(m, 5, list0, Ask::Make(kept1));
    let list1 = list0.push(Ask::Make(kept1));
    let m2 = crate::stage::lemma_count(m1, steps[9], 2, kept1);
    crate::stage::lemma_asks_more(m, 5, list1, Ask::Rows(kept1));
    let list2 = list1.push(Ask::Rows(kept1));
    let m3 = crate::stage::lemma_download(m2, steps[10], 2, 0, Scalar::U32, 3, kept1);
    crate::stage::lemma_asks_more(
        m,
        5,
        list2,
        Ask::Words { of: kept1, column: 0, scalar: Scalar::U32 },
    );
    let list3 = list2.push(Ask::Words { of: kept1, column: 0, scalar: Scalar::U32 });
    let m4 = crate::stage::lemma_look(m3, steps[11]);
    let words3 = crate::stage::column(1, |i: int| 0);
    let word5 = num(0);
    assert forall|i: int| 0 <= i < words3.len() implies crate::stage::meaning(
        word5,
        m4.contents,
        i,
    ) as u64 == #[trigger] words3[i] by {
        reveal_with_fuel(crate::stage::meaning, 2);
    }
    let m5 = crate::stage::lemma_filled(m4, steps[12], 4, num(1), word5, words3);
    let kept2 = Thing::Kept { of: Box::new(single_element_all_table1()), mask: words3, turn: 8 };
    let m6 = crate::stage::lemma_filter(
        m5,
        steps[13],
        0,
        4,
        3,
        single_element_all_table1(),
        words3,
        kept2,
    );
    crate::stage::lemma_asks_more(m, 5, list3, Ask::Make(kept2));
    let list4 = list3.push(Ask::Make(kept2));
    let m7 = crate::stage::lemma_count(m6, steps[14], 3, kept2);
    crate::stage::lemma_asks_more(m, 5, list4, Ask::Rows(kept2));
    let list5 = list4.push(Ask::Rows(kept2));
    let m8 = crate::stage::lemma_sync(m7, steps[15]);
    crate::stage::lemma_asks_more(m, 5, list5, Ask::Other(Request::Sync));
    let list6 = list5.push(Ask::Other(Request::Sync));
    assert(single_element_all_2_asks() == list6);
    m8
}

/// The steps of the part `all` of `single_element`.
proof fn lemma_single_element_all_steps()
    ensures
        ({
            let steps = crate::categories::c02_launch_config::single_element_steps();
            &&& steps.len() == 16
            &&& crate::stage::fills(steps[0], 0, num(1), num(42))
            &&& crate::stage::demands(
                steps[1],
                Request::Create { into: 0, layout: Layout::Val, scalar: Scalar::U32, from: 0 },
            )
            &&& crate::stage::counts(steps[2], 0)
            &&& crate::stage::demands(steps[3], Request::Sort { of: 0, keys: 1, into: 1 })
            &&& crate::stage::counts(steps[4], 1)
            &&& crate::stage::demands(
                steps[5],
                Request::Download { of: 1, column: 0, scalar: Scalar::U32, into: 1 },
            )
            &&& crate::stage::looks(steps[6])
            &&& crate::stage::fills(steps[7], 2, num(1), num(1))
            &&& crate::stage::demands(steps[8], Request::Filter { of: 0, mask: 2, into: 2 })
            &&& crate::stage::counts(steps[9], 2)
            &&& crate::stage::demands(
                steps[10],
                Request::Download { of: 2, column: 0, scalar: Scalar::U32, into: 3 },
            )
            &&& crate::stage::looks(steps[11])
            &&& crate::stage::fills(steps[12], 4, num(1), num(0))
            &&& crate::stage::demands(steps[13], Request::Filter { of: 0, mask: 4, into: 3 })
            &&& crate::stage::counts(steps[14], 3)
            &&& crate::stage::demands(steps[15], Request::Sync)
        }),
{
}

/// In a run of `single_element` that passes the device is asked this, in this order, and nothing
/// else: each request about what an earlier one made is about that, and about what was uploaded for
/// it.
pub proof fn law_single_element_asks_about_what_it_made(answers: Seq<Answer>)
    requires
        crate::stage::passes(
            crate::script::plan(
                "single_element",
                crate::categories::c02_launch_config::single_element_steps(),
            ),
            answers,
        ),
    ensures
        crate::stage::asks(
            crate::script::plan(
                "single_element",
                crate::categories::c02_launch_config::single_element_steps(),
            ),
            answers,
            0,
            single_element_all_1_asks(),
        ),
        crate::stage::asks(
            crate::script::plan(
                "single_element",
                crate::categories::c02_launch_config::single_element_steps(),
            ),
            answers,
            5,
            single_element_all_2_asks(),
        ),
        crate::stage::asked(
            crate::script::plan(
                "single_element",
                crate::categories::c02_launch_config::single_element_steps(),
            ),
            answers,
            11,
        ) is None,
{
    let plan = crate::script::plan(
        "single_element",
        crate::categories::c02_launch_config::single_element_steps(),
    );
    let part1 = crate::categories::c02_launch_config::single_element_steps();
    lemma_single_element_all_steps();
    let whole1 = part1;
    assert(plan.steps == whole1);
    let m0 = crate::stage::lemma_start(plan, answers);
    assert forall|j: int| 0 <= j < 16 implies plan.steps[0 + j] == #[trigger] part1[j] by {}
    let m1 = lemma_single_element_all_1(m0, part1);
    let m2 = lemma_single_element_all_2(m1, part1);
    crate::stage::lemma_end(m2);
}

/// What the device is asked in round `k` of the part `part1` of `warp_boundary_sizes`.
pub open spec fn warp_boundary_sizes_part1_asks(k: int) -> Seq<Ask> {
    let words1 = crate::stage::column(
        (crate::categories::c02_launch_config::WARP_SIZES@[k] as int),
        |i: int| ((crate::categories::c02_launch_config::WARP_SIZES@[k] as int) - 1) - i,
    );
    let table1 = Thing::Table {
        layout: Layout::Val,
        scalar: Scalar::U32,
        columns: seq![words1],
        turn: 0 + 5 * k,
    };
    let sorted1 = Thing::Sorted { of: Box::new(table1), keys: 1, turn: 1 + 5 * k };
    seq![
        Ask::Make(table1),
        Ask::Make(sorted1),
        Ask::Rows(sorted1),
        Ask::Words { of: sorted1, column: 0, scalar: Scalar::U32 },
        Ask::Other(Request::Release { from: 0 }),
    ]
}

/// Round `k` of the part `part1` of `warp_boundary_sizes` asks what it should.
proof fn lemma_warp_boundary_sizes_part1(m: Moment, steps: Seq<Step>, k: int) -> (n: Moment)
    requires
        0 <= k < 12,
        m.holds(),
        m.at == 0 + 7 * k,
        m.used == 0 + 5 * k,
        0 + 7 * k + 7 <= m.plan.steps.len(),
        forall|j: int| 0 <= j < 7 ==> m.plan.steps[0 + 7 * k + j] == #[trigger] steps[j],
        crate::stage::fills(
            steps[0],
            0,
            num(crate::categories::c02_launch_config::WARP_SIZES@[k]),
            minus(minus(num(crate::categories::c02_launch_config::WARP_SIZES@[k]), num(1)), ix()),
        ),
        crate::stage::demands(
            steps[1],
            Request::Create { into: 0, layout: Layout::Val, scalar: Scalar::U32, from: 0 },
        ),
        crate::stage::demands(steps[2], Request::Sort { of: 0, keys: 1, into: 1 }),
        crate::stage::counts(steps[3], 1),
        crate::stage::demands(
            steps[4],
            Request::Download { of: 1, column: 0, scalar: Scalar::U32, into: 1 },
        ),
        crate::stage::looks(steps[5]),
        crate::stage::inquires(steps[6], Request::Release { from: 0 }),
    ensures
        n.holds(),
        n.plan == m.plan,
        n.answers == m.answers,
        n.at == 0 + 7 * k + 7,
        n.used == m.used + 5,
        crate::stage::asks(m.plan, m.answers, 0 + 5 * k, warp_boundary_sizes_part1_asks(k)),
{
    crate::stage::lemma_full(m);
    crate::stage::lemma_asks_none(m, 0 + 5 * k);
    let list0 = Seq::<Ask>::empty();
    let words1 = crate::stage::column(
        (crate::categories::c02_launch_config::WARP_SIZES@[k] as int),
        |i: int| ((crate::categories::c02_launch_config::WARP_SIZES@[k] as int) - 1) - i,
    );
    let word1 = minus(
        minus(num(crate::categories::c02_launch_config::WARP_SIZES@[k]), num(1)),
        ix(),
    );
    assert forall|i: int| 0 <= i < words1.len() implies crate::stage::meaning(
        word1,
        m.contents,
        i,
    ) as u64 == #[trigger] words1[i] by {
        reveal_with_fuel(crate::stage::meaning, 4);
    }
    let m1 = crate::stage::lemma_filled(
        m,
        steps[0],
        0,
        num(crate::categories::c02_launch_config::WARP_SIZES@[k]),
        word1,
        words1,
    );
    let table1 = Thing::Table {
        layout: Layout::Val,
        scalar: Scalar::U32,
        columns: seq![words1],
        turn: 0 + 5 * k,
    };
    let m2 = crate::stage::lemma_create(m1, steps[1], 0, Layout::Val, Scalar::U32, 0, table1);
    crate::stage::lemma_asks_more(m, 0 + 5 * k, list0, Ask::Make(table1));
    let list1 = list0.push(Ask::Make(table1));
    let sorted1 = Thing::Sorted { of: Box::new(table1), keys: 1, turn: 1 + 5 * k };
    let m3 = crate::stage::lemma_sort(m2, steps[2], 0, 1, 1, table1, sorted1);
    crate::stage::lemma_asks_more(m, 0 + 5 * k, list1, Ask::Make(sorted1));
    let list2 = list1.push(Ask::Make(sorted1));
    let m4 = crate::stage::lemma_count(m3, steps[3], 1, sorted1);
    crate::stage::lemma_asks_more(m, 0 + 5 * k, list2, Ask::Rows(sorted1));
    let list3 = list2.push(Ask::Rows(sorted1));
    let m5 = crate::stage::lemma_download(m4, steps[4], 1, 0, Scalar::U32, 1, sorted1);
    crate::stage::lemma_asks_more(
        m,
        0 + 5 * k,
        list3,
        Ask::Words { of: sorted1, column: 0, scalar: Scalar::U32 },
    );
    let list4 = list3.push(Ask::Words { of: sorted1, column: 0, scalar: Scalar::U32 });
    let m6 = crate::stage::lemma_look(m5, steps[5]);
    let m7 = crate::stage::lemma_release(m6, steps[6], 0);
    crate::stage::lemma_asks_more(m, 0 + 5 * k, list4, Ask::Other(Request::Release { from: 0 }));
    let list5 = list4.push(Ask::Other(Request::Release { from: 0 }));
    assert(warp_boundary_sizes_part1_asks(k) == list5);
    m7
}

/// The steps of the part `part1` of `warp_boundary_sizes`.
proof fn lemma_warp_boundary_sizes_part1_steps(k: int)
    ensures
        ({
            let steps = crate::categories::c02_launch_config::sorted_size_steps(
                crate::categories::c02_launch_config::WARP_SIZES@[k],
            );
            &&& steps.len() == 7
            &&& crate::stage::fills(
                steps[0],
                0,
                num(crate::categories::c02_launch_config::WARP_SIZES@[k]),
                minus(
                    minus(num(crate::categories::c02_launch_config::WARP_SIZES@[k]), num(1)),
                    ix(),
                ),
            )
            &&& crate::stage::demands(
                steps[1],
                Request::Create { into: 0, layout: Layout::Val, scalar: Scalar::U32, from: 0 },
            )
            &&& crate::stage::demands(steps[2], Request::Sort { of: 0, keys: 1, into: 1 })
            &&& crate::stage::counts(steps[3], 1)
            &&& crate::stage::demands(
                steps[4],
                Request::Download { of: 1, column: 0, scalar: Scalar::U32, into: 1 },
            )
            &&& crate::stage::looks(steps[5])
            &&& crate::stage::inquires(steps[6], Request::Release { from: 0 })
        }),
{
}

/// The first `k` rounds of the part `part1` of `warp_boundary_sizes` ask what they should.
proof fn lemma_warp_boundary_sizes_part1_rounds(m: Moment, part: Seq<Step>, k: int) -> (n: Moment)
    requires
        0 <= k <= 12,
        m.holds(),
        m.at == 0,
        m.used == 0 + 5 * 0,
        m.at + 84 <= m.plan.steps.len(),
        part == crate::script::rounds(
            12,
            |k: int| crate::categories::c02_launch_config::sorted_size_steps(
                crate::categories::c02_launch_config::WARP_SIZES@[k],
            ),
        ),
        forall|j: int| 0 <= j < 84 ==> m.plan.steps[0 + j] == #[trigger] part[j],
    ensures
        n.holds(),
        n.plan == m.plan,
        n.answers == m.answers,
        n.at == 0 + 7 * k,
        n.used == 0 + 5 * k,
        forall|j: int|
            0 <= j < k ==> crate::stage::asks(
                m.plan,
                m.answers,
                0 + 5 * j,
                #[trigger] warp_boundary_sizes_part1_asks(j),
            ),
    decreases k,
{
    if k == 0 {
        m
    } else {
        let round = |k: int| crate::categories::c02_launch_config::sorted_size_steps(
            crate::categories::c02_launch_config::WARP_SIZES@[k],
        );
        let before = lemma_warp_boundary_sizes_part1_rounds(m, part, k - 1);
        assert forall|j: int| 0 <= j < 7 implies m.plan.steps[before.at + j] == #[trigger] crate::categories::c02_launch_config::sorted_size_steps(
            crate::categories::c02_launch_config::WARP_SIZES@[k - 1],
        )[j] by {
            assert forall|k: int| 0 <= k < 12 implies (#[trigger] round(k)).len() == 7 by {
                lemma_warp_boundary_sizes_part1_steps(k);
            }
            crate::stage::lemma_round_place(12, round, 7, k - 1, j);
            assert(part[(k - 1) * 7 + j] == round(k - 1)[j]);
        }
        lemma_warp_boundary_sizes_part1_steps(k - 1);
        lemma_warp_boundary_sizes_part1(
            before,
            crate::categories::c02_launch_config::sorted_size_steps(
                crate::categories::c02_launch_config::WARP_SIZES@[k - 1],
            ),
            k - 1,
        )
    }
}

/// What the device is asked in the part `end` of `warp_boundary_sizes`.
pub open spec fn warp_boundary_sizes_end_asks() -> Seq<Ask> {
    seq![Ask::Other(Request::Sync)]
}

/// The part `end` of `warp_boundary_sizes` asks what it should.
proof fn lemma_warp_boundary_sizes_end(m: Moment, steps: Seq<Step>) -> (n: Moment)
    requires
        m.holds(),
        m.at == 84,
        m.used == 60,
        84 + 1 <= m.plan.steps.len(),
        forall|j: int| 0 <= j < 1 ==> m.plan.steps[84 + j] == #[trigger] steps[j],
        crate::stage::demands(steps[0], Request::Sync),
    ensures
        n.holds(),
        n.plan == m.plan,
        n.answers == m.answers,
        n.at == 84 + 1,
        n.used == m.used + 1,
        crate::stage::asks(m.plan, m.answers, 60, warp_boundary_sizes_end_asks()),
{
    crate::stage::lemma_full(m);
    crate::stage::lemma_asks_none(m, 60);
    let list0 = Seq::<Ask>::empty();
    let m1 = crate::stage::lemma_sync(m, steps[0]);
    crate::stage::lemma_asks_more(m, 60, list0, Ask::Other(Request::Sync));
    let list1 = list0.push(Ask::Other(Request::Sync));
    assert(warp_boundary_sizes_end_asks() == list1);
    m1
}

/// The steps of the part `end` of `warp_boundary_sizes`.
proof fn lemma_warp_boundary_sizes_end_steps()
    ensures
        ({
            let steps = crate::categories::c02_launch_config::warp_boundary_sizes_end_steps();
            &&& steps.len() == 1
            &&& crate::stage::demands(steps[0], Request::Sync)
        }),
{
}

/// In a run of `warp_boundary_sizes` that passes the device is asked this, in this order, and
/// nothing else: each request about what an earlier one made is about that, and about what was
/// uploaded for it.
pub proof fn law_warp_boundary_sizes_asks_about_what_it_made(answers: Seq<Answer>)
    requires
        crate::stage::passes(
            crate::script::plan(
                "warp_boundary_sizes",
                crate::categories::c02_launch_config::warp_boundary_sizes_steps(),
            ),
            answers,
        ),
    ensures
        forall|k: int|
            0 <= k < 12 ==> crate::stage::asks(
                crate::script::plan(
                    "warp_boundary_sizes",
                    crate::categories::c02_launch_config::warp_boundary_sizes_steps(),
                ),
                answers,
                0 + 5 * k,
                #[trigger] warp_boundary_sizes_part1_asks(k),
            ),
        crate::stage::asks(
            crate::script::plan(
                "warp_boundary_sizes",
                crate::categories::c02_launch_config::warp_boundary_sizes_steps(),
            ),
            answers,
            60,
            warp_boundary_sizes_end_asks(),
        ),
        crate::stage::asked(
            crate::script::plan(
                "warp_boundary_sizes",
                crate::categories::c02_launch_config::warp_boundary_sizes_steps(),
            ),
            answers,
            61,
        ) is None,
{
    let plan = crate::script::plan(
        "warp_boundary_sizes",
        crate::categories::c02_launch_config::warp_boundary_sizes_steps(),
    );
    let round1 = |k: int| crate::categories::c02_launch_config::sorted_size_steps(
        crate::categories::c02_launch_config::WARP_SIZES@[k],
    );
    let part1 = crate::script::rounds(12, round1);
    assert forall|k: int| 0 <= k < 12 implies (#[trigger] round1(k)).len() == 7 by {
        lemma_warp_boundary_sizes_part1_steps(k);
    }
    crate::stage::lemma_rounds_length(12, round1, 7);
    let part2 = crate::categories::c02_launch_config::warp_boundary_sizes_end_steps();
    lemma_warp_boundary_sizes_end_steps();
    let whole1 = part1;
    let whole2 = whole1 + part2;
    assert(plan.steps == whole2);
    let m0 = crate::stage::lemma_start(plan, answers);
    assert forall|j: int| 0 <= j < 84 implies plan.steps[0 + j] == #[trigger] part1[j] by {}
    let m1 = lemma_warp_boundary_sizes_part1_rounds(m0, part1, 12);
    assert forall|j: int| 0 <= j < 1 implies plan.steps[84 + j] == #[trigger] part2[j] by {}
    let m2 = lemma_warp_boundary_sizes_end(m1, part2);
    crate::stage::lemma_end(m2);
}

} // verus!
