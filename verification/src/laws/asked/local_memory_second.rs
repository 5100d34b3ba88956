//! What these tests ask the device in runs that pass: `test_complex_filter_chains`,
//! `test_local_memory_stress`.

use vstd::prelude::*;
use crate::expr::{and, ix, lt, minus, modulo, num, over, same_as};
use crate::machine::Answer;
use crate::scalar::Scalar;
use crate::script::{Layout, Request, Step};
use crate::stage::{Ask, Moment, Thing};

verus! {

/// What is kept in the part `all` of `test_complex_filter_chains`.
pub open spec fn complex_filter_chains_all_kept2() -> Thing {
    Thing::Kept {
        of: Box::new(
            Thing::Kept {
                of: Box::new(
                    Thing::Table {
                        layout: Layout::Val,
                        scalar: Scalar::U32,
                        columns: seq![crate::stage::column(100000, |i: int| i)],
                        turn: 0,
                    },
                ),
                mask: crate::stage::column(100000, |i: int| crate::stage::flag(((i % 2) == 0))),
                turn: 1,
            },
        ),
        mask: crate::stage::column(50000, |i: int| crate::stage::flag(((i % 4) == 0))),
        turn: 3,
    }
}

/// What the device is asked in piece 1 of the part `all` of `test_complex_filter_chains`.
pub open spec fn complex_filter_chains_all_1_asks() -> Seq<Ask> {
    let words1 = crate::stage::column(100000, |i: int| i);
    let table1 = Thing::Table {
        layout: Layout::Val,
        scalar: Scalar::U32,
        columns: seq![words1],
        turn: 0,
    };
    let words2 = crate::stage::column(100000, |i: int| crate::stage::flag(((i % 2) == 0)));
    let kept1 = Thing::Kept { of: Box::new(table1), mask: words2, turn: 1 };
    seq![
        Ask::Make(table1),
        Ask::Make(kept1),
        Ask::Handle(kept1),
        Ask::Make(complex_filter_chains_all_kept2()),
    ]
}

/// Piece 1 of the part `all` of `test_complex_filter_chains` asks what it should.
proof fn lemma_complex_filter_chains_all_1(m: Moment, steps: Seq<Step>) -> (n: Moment)
    requires
        m.holds(),
        m.at == 0,
        m.used == 0,
        0 + 17 <= m.plan.steps.len(),
        forall|j: int| 0 <= j < 17 ==> m.plan.steps[0 + j] == #[trigger] steps[j],
        crate::stage::fills(steps[0], 0, num(100000), ix()),
        crate::stage::demands(
            steps[1],
            Request::Create { into: 0, layout: Layout::Val, scalar: Scalar::U32, from: 0 },
        ),
        crate::stage::fills(steps[2], 1, num(100000), same_as(modulo(ix(), num(2)), num(0))),
        crate::stage::demands(steps[3], Request::Filter { of: 0, mask: 1, into: 1 }),
        crate::stage::inquires(steps[4], Request::RowsKnown { of: 1, into: 0 }),
        crate::stage::looks(steps[5]),
        crate::stage::fills(steps[6], 1, num(50000), same_as(modulo(ix(), num(4)), num(0))),
        crate::stage::demands(steps[7], Request::Filter { of: 1, mask: 1, into: 2 }),
    ensures
        n.holds(),
        n.plan == m.plan,
        n.answers == m.answers,
        n.at == 0 + 8,
        n.used == m.used + 4,
        n.scene.buffer(2) == complex_filter_chains_all_kept2(),
        crate::stage::asks(m.plan, m.answers, 0, complex_filter_chains_all_1_asks()),
{
    crate::stage::lemma_full(m);
    crate::stage::lemma_asks_none(m, 0);
    let list0 = Seq::<Ask>::empty();
    let words1 = crate::stage::column(100000, |i: int| i);
    let word1 = ix();
    assert forall|i: int| 0 <= i < words1.len() implies crate::stage::meaning(
        word1,
        m.contents,
        i,
    ) as u64 == #[trigger] words1[i] by {
        reveal_with_fuel(crate::stage::meaning, 1);
    }
    let m1 = crate::stage::lemma_filled(m, steps[0], 0, num(100000), word1, words1);
    let table1 = Thing::Table {
        layout: Layout::Val,
        scalar: Scalar::U32,
        columns: seq![words1],
        turn: 0,
    };
    let m2 = crate::stage::lemma_create(m1, steps[1], 0, Layout::Val, Scalar::U32, 0, table1);
    crate::stage::lemma_asks_more(m, 0, list0, Ask::Make(table1));
    let list1 = list0.push(Ask::Make(table1));
    let words2 = crate::stage::column(100000, |i: int| crate::stage::flag(((i % 2) == 0)));
    let word3 = same_as(modulo(ix(), num(2)), num(0));
    assert forall|i: int| 0 <= i < words2.len() implies crate::stage::meaning(
        word3,
        m2.contents,
        i,
    ) as u64 == #[trigger] words2[i] by {
        reveal_with_fuel(crate::stage::meaning, 4);
    }
    let m3 = crate::stage::lemma_filled(m2, steps[2], 1, num(100000), word3, words2);
    let kept1 = Thing::Kept { of: Box::new(table1), mask: words2, turn: 1 };
    let m4 = crate::stage::lemma_filter(m3, steps[3], 0, 1, 1, table1, words2, kept1);
    crate::stage::lemma_asks_more(m, 0, list1, Ask::Make(kept1));
    let list2 = list1.push(Ask::Make(kept1));
    let m5 = crate::stage::lemma_handle(m4, steps[4], 1, 0, kept1);
    crate::stage::lemma_asks_more(m, 0, list2, Ask::Handle(kept1));
    let list3 = list2.push(Ask::Handle(kept1));
    let m6 = crate::stage::lemma_look(m5, steps[5]);
    let words3 = crate::stage::column(50000, |i: int| crate::stage::flag(((i % 4) == 0)));
    let word7 = same_as(modulo(ix(), num(4)), num(0));
    assert forall|i: int| 0 <= i < words3.len() implies crate::stage::meaning(
        word7,
        m6.contents,
        i,
    ) as u64 == #[trigger] words3[i] by {
        reveal_with_fuel(crate::stage::meaning, 4);
    }
    let m7 = crate::stage::lemma_filled(m6, steps[6], 1, num(50000), word7, words3);
    let m8 = crate::stage::lemma_filter(
        m7,
        steps[7],
        1,
        1,
        2,
        kept1,
        words3,
        complex_filter_chains_all_kept2(),
    );
    crate::stage::lemma_asks_more(m, 0, list3, Ask::Make(complex_filter_chains_all_kept2()));
    let list4 = list3.push(Ask::Make(complex_filter_chains_all_kept2()));
    assert(complex_filter_chains_all_1_asks() == list4);
    m8
}

/// What the device is asked in piece 2 of the part `all` of `test_complex_filter_chains`.
pub open spec fn complex_filter_chains_all_2_asks() -> Seq<Ask> {
    let words4 = crate::stage::column(12500, |i: int| crate::stage::flag(((i % 5) == 0)));
    let kept3 = Thing::Kept {
        of: Box::new(complex_filter_chains_all_kept2()),
        mask: words4,
        turn: 5,
    };
    seq![
        Ask::Handle(complex_filter_chains_all_kept2()),
        Ask::Make(kept3),
        Ask::Handle(kept3),
        Ask::Words { of: kept3, column: 0, scalar: Scalar::U32 },
    ]
}

/// Piece 2 of the part `all` of `test_complex_filter_chains` asks what it should.
proof fn lemma_complex_filter_chains_all_2(m: Moment, steps: Seq<Step>) -> (n: Moment)
    requires
        m.holds(),
        m.at == 0 + 8,
        m.used == 4,
        0 + 17 <= m.plan.steps.len(),
        forall|j: int| 0 <= j < 17 ==> m.plan.steps[0 + j] == #[trigger] steps[j],
        crate::stage::inquires(steps[8], Request::RowsKnown { of: 2, into: 0 }),
        crate::stage::looks(steps[9]),
        crate::stage::fills(steps[10], 1, num(12500), same_as(modulo(ix(), num(5)), num(0))),
        crate::stage::demands(steps[11], Request::Filter { of: 2, mask: 1, into: 3 }),
        crate::stage::inquires(steps[12], Request::RowsKnown { of: 3, into: 0 }),
        crate::stage::looks(steps[13]),
        crate::stage::demands(
            steps[14],
            Request::Download { of: 3, column: 0, scalar: Scalar::U32, into: 2 },
        ),
        crate::stage::looks(steps[15]),
        m.scene.buffer(2) == complex_filter_chains_all_kept2(),
    ensures
        n.holds(),
        n.plan == m.plan,
        n.answers == m.answers,
        n.at == 0 + 16,
        n.used == m.used + 4,
        crate::stage::asks(m.plan, m.answers, 4, complex_filter_chains_all_2_asks()),
{
    crate::stage::lemma_full(m);
    crate::stage::lemma_asks_none(m, 4);
    let list0 = Seq::<Ask>::empty();
    let m1 = crate::stage::lemma_handle(m, steps[8], 2, 0, complex_filter_chains_all_kept2());
    crate::stage::lemma_asks_more(m, 4, list0, Ask::Handle(complex_filter_chains_all_kept2()));
    let list1 = list0.push(Ask::Handle(complex_filter_chains_all_kept2()));
    let m2 = crate::stage::lemma_look(m1, steps[9]);
    let words4 = crate::stage::column(12500, |i: int| crate::stage::flag(((i % 5) == 0)));
    let word3 = same_as(modulo(ix(), num(5)), num(0));
    assert forall|i: int| 0 <= i < words4.len() implies crate::stage::meaning(
        word3,
        m2.contents,
        i,
    ) as u64 == #[trigger] words4[i] by {
        reveal_with_fuel(crate::stage::meaning, 4);
    }
    let m3 = crate::stage::lemma_filled(m2, steps[10], 1, num(12500), word3, words4);
    let kept3 = Thing::Kept {
        of: Box::new(complex_filter_chains_all_kept2()),
        mask: words4,
        turn: 5,
    };
    let m4 = crate::stage::lemma_filter(
        m3,
        steps[11],
        2,
        1,
        3,
        complex_filter_chains_all_kept2(),
        words4,
        kept3,
    );
    crate::stage::lemma_asks_more(m, 4, list1, Ask::Make(kept3));
    let list2 = list1.push(Ask::Make(kept3));
    let m5 = crate::stage::lemma_handle(m4, steps[12], 3, 0, kept3);
    crate::stage::lemma_asks_more(m, 4, list2, Ask::Handle(kept3));
    let list3 = list2.push(Ask::Handle(kept3));
    let m6 = crate::stage::lemma_look(m5, steps[13]);
    let m7 = crate::stage::lemma_download(m6, steps[14], 3, 0, Scalar::U32, 2, kept3);
    crate::stage::lemma_asks_more(
        m,
        4,
        list3,
        Ask::Words { of: kept3, column: 0, scalar: Scalar::U32 },
    );
    let list4 = list3.push(Ask::Words { of: kept3, column: 0, scalar: Scalar::U32 });
    let m8 = crate::stage::lemma_look(m7, steps[15]);
    assert(complex_filter_chains_all_2_asks() == list4);
    m8
}

/// What the device is asked in piece 3 of the part `all` of `test_complex_filter_chains`.
pub open spec fn complex_filter_chains_all_3_asks() -> Seq<Ask> {
    seq![Ask::Other(Request::Sync)]
}

/// Piece 3 of the part `all` of `test_complex_filter_chains` asks what it should.
proof fn lemma_complex_filter_chains_all_3(m: Moment, steps: Seq<Step>) -> (n: Moment)
    requires
        m.holds(),
        m.at == 0 + 16,
        m.used == 8,
        0 + 17 <= m.plan.steps.len(),
        forall|j: int| 0 <= j < 17 ==> m.plan.steps[0 + j] == #[trigger] steps[j],
        crate::stage::demands(steps[16], Request::Sync),
    ensures
        n.holds(),
        n.plan == m.plan,
        n.answers == m.answers,
        n.at == 0 + 17,
        n.used == m.used + 1,
        crate::stage::asks(m.plan, m.answers, 8, complex_filter_chains_all_3_asks()),
{
    crate::stage::lemma_full(m);
    crate::stage::lemma_asks_none(m, 8);
    let list0 = Seq::<Ask>::empty();
    let m1 = crate::stage::lemma_sync(m, steps[16]);
    crate::stage::lemma_asks_more(m, 8, list0, Ask::Other(Request::Sync));
    let list1 = list0.push(Ask::Other(Request::Sync));
    assert(complex_filter_chains_all_3_asks() == list1);
    m1
}

/// The steps of the part `all` of `test_complex_filter_chains`.
proof fn lemma_complex_filter_chains_all_steps()
    ensures
        ({
            let steps = crate::categories::c07_local_memory::complex_filter_chains_steps();
            &&& steps.len() == 17
            &&& crate::stage::fills(steps[0], 0, num(100000), ix())
            &&& crate::stage::demands(
                steps[1],
                Request::Create { into: 0, layout: Layout::Val, scalar: Scalar::U32, from: 0 },
            )
            &&& crate::stage::fills(steps[2], 1, num(100000), same_as(modulo(ix(), num(2)), num(0)))
            &&& crate::stage::demands(steps[3], Request::Filter { of: 0, mask: 1, into: 1 })
            &&& crate::stage::inquires(steps[4], Request::RowsKnown { of: 1, into: 0 })
            &&& crate::stage::looks(steps[5])
            &&& crate::stage::fills(steps[6], 1, num(50000), same_as(modulo(ix(), num(4)), num(0)))
            &&& crate::stage::demands(steps[7], Request::Filter { of: 1, mask: 1, into: 2 })
            &&& crate::stage::inquires(steps[8], Request::RowsKnown { of: 2, into: 0 })
            &&& crate::stage::looks(steps[9])
            &&& crate::stage::fills(steps[10], 1, num(12500), same_as(modulo(ix(), num(5)), num(0)))
            &&& crate::stage::demands(steps[11], Request::Filter { of: 2, mask: 1, into: 3 })
            &&& crate::stage::inquires(steps[12], Request::RowsKnown { of: 3, into: 0 })
            &&& crate::stage::looks(steps[13])
            &&& crate::stage::demands(
                steps[14],
                Request::Download { of: 3, column: 0, scalar: Scalar::U32, into: 2 },
            )
            &&& crate::stage::looks(steps[15])
            &&& crate::stage::demands(steps[16], Request::Sync)
        }),
{
}

/// In a run of `test_complex_filter_chains` that passes the device is asked this, in this order,
/// and nothing else: each request about what an earlier one made is about that, and about what was
/// uploaded for it.
pub proof fn law_complex_filter_chains_asks_about_what_it_made(answers: Seq<Answer>)
    requires
        crate::stage::passes(
            crate::script::plan(
                "test_complex_filter_chains",
                crate::categories::c07_local_memory::complex_filter_chains_steps(),
            ),
            answers,
        ),
    ensures
        crate::stage::asks(
            crate::script::plan(
                "test_complex_filter_chains",
                crate::categories::c07_local_memory::complex_filter_chains_steps(),
            ),
            answers,
            0,
            complex_filter_chains_all_1_asks(),
        ),
        crate::stage::asks(
            crate::script::plan(
                "test_complex_filter_chains",
                crate::categories::c07_local_memory::complex_filter_chains_steps(),
            ),
            answers,
            4,
            complex_filter_chains_all_2_asks(),
        ),
        crate::stage::asks(
            crate::script::plan(
                "test_complex_filter_chains",
                crate::categories::c07_local_memory::complex_filter_chains_steps(),
            ),
            answers,
            8,
            complex_filter_chains_all_3_asks(),
        ),
        crate::stage::asked(
            crate::script::plan(
                "test_complex_filter_chains",
                crate::categories::c07_local_memory::complex_filter_chains_steps(),
            ),
            answers,
            9,
        ) is None,
{
    let plan = crate::script::plan(
        "test_complex_filter_chains",
        crate::categories::c07_local_memory::complex_filter_chains_steps(),
    );
    let part1 = crate::categories::c07_local_memory::complex_filter_chains_steps();
    lemma_complex_filter_chains_all_steps();
    let whole1 = part1;
    assert(plan.steps == whole1);
    let m0 = crate::stage::lemma_start(plan, answers);
    assert forall|j: int| 0 <= j < 17 implies plan.steps[0 + j] == #[trigger] part1[j] by {}
    let m1 = lemma_complex_filter_chains_all_1(m0, part1);
    let m2 = lemma_complex_filter_chains_all_2(m1, part1);
    let m3 = lemma_complex_filter_chains_all_3(m2, part1);
    crate::stage::lemma_end(m3);
}

/// The turn in which round `k` of the part `rounds` of `test_local_memory_stress` starts.
pub open spec fn local_memory_stress_rounds_start(k: int) -> int
    decreases k,
{
    if k <= 0 {
        0
    } else {
        local_memory_stress_rounds_start(k - 1) + if (((k - 1) % 5) == 4) && (
            (((k - 1) / 5) % 10) == 9
        ) { 7int } else { 6int }
    }
}

/// What the device is asked in piece 1 of round `k` of the part `rounds` of
/// `test_local_memory_stress`.
pub open spec fn local_memory_stress_rounds_with_1_asks(k: int) -> Seq<Ask> {
    let words1 = crate::stage::column(
        (crate::categories::c07_local_memory::SMALL_SIZES@[(k % 5)] as int),
        |i: int| ((crate::categories::c07_local_memory::SMALL_SIZES@[(k % 5)] as int) - 1) - i,
    );
    let table1 = Thing::Table {
        layout: Layout::Val,
        scalar: Scalar::U32,
        columns: seq![words1],
        turn: local_memory_stress_rounds_start(k),
    };
    let sorted1 = Thing::Sorted {
        of: Box::new(table1),
        keys: 1,
        turn: local_memory_stress_rounds_start(k) + 1,
    };
    let words2 = crate::stage::column(
        (crate::categories::c07_local_memory::SMALL_SIZES@[(k % 5)] as int),
        |i: int| crate::stage::flag(
            (i < ((crate::categories::c07_local_memory::SMALL_SIZES@[(k % 5)] as int) / 2)),
        ),
    );
    let kept1 = Thing::Kept {
        of: Box::new(sorted1),
        mask: words2,
        turn: local_memory_stress_rounds_start(k) + 3,
    };
    seq![
        Ask::Make(table1),
        Ask::Make(sorted1),
        Ask::Handle(sorted1),
        Ask::Make(kept1),
        Ask::Handle(kept1),
    ]
}

/// Piece 1 of round `k` of the part `rounds` of `test_local_memory_stress` asks what it should.
proof fn lemma_local_memory_stress_rounds_with_1(m: Moment, steps: Seq<Step>, k: int) -> (n: Moment)
    requires
        0 <= k < 250,
        ((k % 5) == 4) && (((k / 5) % 10) == 9),
        m.holds(),
        m.at == 0 + 11 * k,
        m.used == local_memory_stress_rounds_start(k),
        0 + 11 * k + 11 <= m.plan.steps.len(),
        forall|j: int| 0 <= j < 11 ==> m.plan.steps[0 + 11 * k + j] == #[trigger] steps[j],
        crate::stage::fills(
            steps[0],
            0,
            num((crate::categories::c07_local_memory::SMALL_SIZES@[(k as u64 % 5) as int])),
            minus(
                minus(
                    num((crate::categories::c07_local_memory::SMALL_SIZES@[(k as u64 % 5) as int])),
                    num(1),
                ),
                ix(),
            ),
        ),
        crate::stage::demands(
            steps[1],
            Request::Create { into: 0, layout: Layout::Val, scalar: Scalar::U32, from: 0 },
        ),
        crate::stage::demands(steps[2], Request::Sort { of: 0, keys: 1, into: 1 }),
        crate::stage::inquires(steps[3], Request::RowsKnown { of: 1, into: 0 }),
        crate::stage::looks(steps[4]),
        crate::stage::fills(
            steps[5],
            1,
            num((crate::categories::c07_local_memory::SMALL_SIZES@[(k as u64 % 5) as int])),
            lt(
                ix(),
                over(
                    num((crate::categories::c07_local_memory::SMALL_SIZES@[(k as u64 % 5) as int])),
                    num(2),
                ),
            ),
        ),
        crate::stage::demands(steps[6], Request::Filter { of: 1, mask: 1, into: 2 }),
        crate::stage::inquires(steps[7], Request::RowsKnown { of: 2, into: 0 }),
    ensures
        n.holds(),
        n.plan == m.plan,
        n.answers == m.answers,
        n.at == 0 + 11 * k + 8,
        n.used == m.used + 5,
        crate::stage::asks(
            m.plan,
            m.answers,
            local_memory_stress_rounds_start(k),
            local_memory_stress_rounds_with_1_asks(k),
        ),
{
    crate::stage::lemma_full(m);
    crate::stage::lemma_asks_none(m, local_memory_stress_rounds_start(k));
    let list0 = Seq::<Ask>::empty();
    let words1 = crate::stage::column(
        (crate::categories::c07_local_memory::SMALL_SIZES@[(k % 5)] as int),
        |i: int| ((crate::categories::c07_local_memory::SMALL_SIZES@[(k % 5)] as int) - 1) - i,
    );
    let word1 = minus(
        minus(
            num((crate::categories::c07_local_memory::SMALL_SIZES@[(k as u64 % 5) as int])),
            num(1),
        ),
        ix(),
    );
    assert forall|i: int| 0 <= i < words1.len() implies crate::stage::meaning(
        word1,
        m.contents,
        i,
    ) as u64 == #[trigger] words1[i] by {
        reveal_with_fuel(crate::stage::meaning, 4);
    }
    let m1 = crate::stage::lemma_filled(
        m,
        steps[0],
        0,
        num((crate::categories::c07_local_memory::SMALL_SIZES@[(k as u64 % 5) as int])),
        word1,
        words1,
    );
    let table1 = Thing::Table {
        layout: Layout::Val,
        scalar: Scalar::U32,
        columns: seq![words1],
        turn: local_memory_stress_rounds_start(k),
    };
    let m2 = crate::stage::lemma_create(m1, steps[1], 0, Layout::Val, Scalar::U32, 0, table1);
    crate::stage::lemma_asks_more(m, local_memory_stress_rounds_start(k), list0, Ask::Make(table1));
    let list1 = list0.push(Ask::Make(table1));
    let sorted1 = Thing::Sorted {
        of: Box::new(table1),
        keys: 1,
        turn: local_memory_stress_rounds_start(k) + 1,
    };
    let m3 = crate::stage::lemma_sort(m2, steps[2], 0, 1, 1, table1, sorted1);
    crate::stage::lemma_asks_more(
        m,
        local_memory_stress_rounds_start(k),
        list1,
        Ask::Make(sorted1),
    );
    let list2 = list1.push(Ask::Make(sorted1));
    let m4 = crate::stage::lemma_handle(m3, steps[3], 1, 0, sorted1);
    crate::stage::lemma_asks_more(
        m,
        local_memory_stress_rounds_start(k),
        list2,
        Ask::Handle(sorted1),
    );
    let list3 = list2.push(Ask::Handle(sorted1));
    let m5 = crate::stage::lemma_look(m4, steps[4]);
    let words2 = crate::stage::column(
        (crate::categories::c07_local_memory::SMALL_SIZES@[(k % 5)] as int),
        |i: int| crate::stage::flag(
            (i < ((crate::categories::c07_local_memory::SMALL_SIZES@[(k % 5)] as int) / 2)),
        ),
    );
    let word6 = lt(
        ix(),
        over(
            num((crate::categories::c07_local_memory::SMALL_SIZES@[(k as u64 % 5) as int])),
            num(2),
        ),
    );
    assert forall|i: int| 0 <= i < words2.len() implies crate::stage::meaning(
        word6,
        m5.contents,
        i,
    ) as u64 == #[trigger] words2[i] by {
        reveal_with_fuel(crate::stage::meaning, 4);
    }
    let m6 = crate::stage::lemma_filled(
        m5,
        steps[5],
        1,
        num((crate::categories::c07_local_memory::SMALL_SIZES@[(k as u64 % 5) as int])),
        word6,
        words2,
    );
    let kept1 = Thing::Kept {
        of: Box::new(sorted1),
        mask: words2,
        turn: local_memory_stress_rounds_start(k) + 3,
    };
    let m7 = crate::stage::lemma_filter(m6, steps[6], 1, 1, 2, sorted1, words2, kept1);
    crate::stage::lemma_asks_more(m, local_memory_stress_rounds_start(k), list3, Ask::Make(kept1));
    let list4 = list3.push(Ask::Make(kept1));
    let m8 = crate::stage::lemma_handle(m7, steps[7], 2, 0, kept1);
    crate::stage::lemma_asks_more(
        m,
        local_memory_stress_rounds_start(k),
        list4,
        Ask::Handle(kept1),
    );
    let list5 = list4.push(Ask::Handle(kept1));
    assert(local_memory_stress_rounds_with_1_asks(k) == list5);
    m8
}

/// What the device is asked in piece 2 of round `k` of the part `rounds` of
/// `test_local_memory_stress`.
pub open spec fn local_memory_stress_rounds_with_2_asks(k: int) -> Seq<Ask> {
    seq![Ask::Other(Request::Release { from: 0 }), Ask::Other(Request::Sync)]
}

/// Piece 2 of round `k` of the part `rounds` of `test_local_memory_stress` asks what it should.
proof fn lemma_local_memory_stress_rounds_with_2(m: Moment, steps: Seq<Step>, k: int) -> (n: Moment)
    requires
        0 <= k < 250,
        ((k % 5) == 4) && (((k / 5) % 10) == 9),
        m.holds(),
        m.at == 0 + 11 * k + 8,
        m.used == local_memory_stress_rounds_start(k) + 5,
        0 + 11 * k + 11 <= m.plan.steps.len(),
        forall|j: int| 0 <= j < 11 ==> m.plan.steps[0 + 11 * k + j] == #[trigger] steps[j],
        crate::stage::looks(steps[8]),
        crate::stage::inquires(steps[9], Request::Release { from: 0 }),
        crate::stage::guards(
            steps[10],
            and(
                same_as(modulo(num(k as u64), num(5)), num(4)),
                same_as(modulo(num((k as u64 / 5)), num(10)), num(9)),
            ),
        ),
        crate::walk::straight(steps[10]),
        crate::stage::demands(crate::stage::bare(steps[10]), Request::Sync),
    ensures
        n.holds(),
        n.plan == m.plan,
        n.answers == m.answers,
        n.at == 0 + 11 * k + 11,
        n.used == m.used + 2,
        crate::stage::asks(
            m.plan,
            m.answers,
            local_memory_stress_rounds_start(k) + 5,
            local_memory_stress_rounds_with_2_asks(k),
        ),
{
    crate::stage::lemma_full(m);
    crate::stage::lemma_asks_none(m, local_memory_stress_rounds_start(k) + 5);
    let list0 = Seq::<Ask>::empty();
    let m1 = crate::stage::lemma_look(m, steps[8]);
    let m2 = crate::stage::lemma_release(m1, steps[9], 0);
    crate::stage::lemma_asks_more(
        m,
        local_memory_stress_rounds_start(k) + 5,
        list0,
        Ask::Other(Request::Release { from: 0 }),
    );
    let list1 = list0.push(Ask::Other(Request::Release { from: 0 }));
    assert(
        crate::stage::meaning(
            and(
                same_as(modulo(num(k as u64), num(5)), num(4)),
                same_as(modulo(num((k as u64 / 5)), num(10)), num(9)),
            ),
            m2.contents,
            0,
        ) != 0
    ) by {
        reveal_with_fuel(crate::stage::meaning, 6);
    }
    crate::stage::lemma_guard(
        m2,
        steps[10],
        and(
            same_as(modulo(num(k as u64), num(5)), num(4)),
            same_as(modulo(num((k as u64 / 5)), num(10)), num(9)),
        ),
        true,
    );
    let m3 = crate::stage::lemma_sync(m2, steps[10]);
    crate::stage::lemma_asks_more(
        m,
        local_memory_stress_rounds_start(k) + 5,
        list1,
        Ask::Other(Request::Sync),
    );
    let list2 = list1.push(Ask::Other(Request::Sync));
    assert(local_memory_stress_rounds_with_2_asks(k) == list2);
    m3
}

/// What the device is asked in piece 1 of round `k` of the part `rounds` of
/// `test_local_memory_stress`.
pub open spec fn local_memory_stress_rounds_without_1_asks(k: int) -> Seq<Ask> {
    let words1 = crate::stage::column(
        (crate::categories::c07_local_memory::SMALL_SIZES@[(k % 5)] as int),
        |i: int| ((crate::categories::c07_local_memory::SMALL_SIZES@[(k % 5)] as int) - 1) - i,
    );
    let table1 = Thing::Table {
        layout: Layout::Val,
        scalar: Scalar::U32,
        columns: seq![words1],
        turn: local_memory_stress_rounds_start(k),
    };
    let sorted1 = Thing::Sorted {
        of: Box::new(table1),
        keys: 1,
        turn: local_memory_stress_rounds_start(k) + 1,
    };
    let words2 = crate::stage::column(
        (crate::categories::c07_local_memory::SMALL_SIZES@[(k % 5)] as int),
        |i: int| crate::stage::flag(
            (i < ((crate::categories::c07_local_memory::SMALL_SIZES@[(k % 5)] as int) / 2)),
        ),
    );
    let kept1 = Thing::Kept {
        of: Box::new(sorted1),
        mask: words2,
        turn: local_memory_stress_rounds_start(k) + 3,
    };
    seq![
        Ask::Make(table1),
        Ask::Make(sorted1),
        Ask::Handle(sorted1),
        Ask::Make(kept1),
        Ask::Handle(kept1),
    ]
}

/// Piece 1 of round `k` of the part `rounds` of `test_local_memory_stress` asks what it should.
proof fn lemma_local_memory_stress_rounds_without_1(
    m: Moment,
    steps: Seq<Step>,
    k: int,
) -> (n: Moment)
    requires
        0 <= k < 250,
        !(((k % 5) == 4) && (((k / 5) % 10) == 9)),
        m.holds(),
        m.at == 0 + 11 * k,
        m.used == local_memory_stress_rounds_start(k),
        0 + 11 * k + 11 <= m.plan.steps.len(),
        forall|j: int| 0 <= j < 11 ==> m.plan.steps[0 + 11 * k + j] == #[trigger] steps[j],
        crate::stage::fills(
            steps[0],
            0,
            num((crate::categories::c07_local_memory::SMALL_SIZES@[(k as u64 % 5) as int])),
            minus(
                minus(
                    num((crate::categories::c07_local_memory::SMALL_SIZES@[(k as u64 % 5) as int])),
                    num(1),
                ),
                ix(),
            ),
        ),
        crate::stage::demands(
            steps[1],
            Request::Create { into: 0, layout: Layout::Val, scalar: Scalar::U32, from: 0 },
        ),
        crate::stage::demands(steps[2], Request::Sort { of: 0, keys: 1, into: 1 }),
        crate::stage::inquires(steps[3], Request::RowsKnown { of: 1, into: 0 }),
        crate::stage::looks(steps[4]),
        crate::stage::fills(
            steps[5],
            1,
            num((crate::categories::c07_local_memory::SMALL_SIZES@[(k as u64 % 5) as int])),
            lt(
                ix(),
                over(
                    num((crate::categories::c07_local_memory::SMALL_SIZES@[(k as u64 % 5) as int])),
                    num(2),
                ),
            ),
        ),
        crate::stage::demands(steps[6], Request::Filter { of: 1, mask: 1, into: 2 }),
        crate::stage::inquires(steps[7], Request::RowsKnown { of: 2, into: 0 }),
    ensures
        n.holds(),
        n.plan == m.plan,
        n.answers == m.answers,
        n.at == 0 + 11 * k + 8,
        n.used == m.used + 5,
        crate::stage::asks(
            m.plan,
            m.answers,
            local_memory_stress_rounds_start(k),
            local_memory_stress_rounds_without_1_asks(k),
        ),
{
    crate::stage::lemma_full(m);
    crate::stage::lemma_asks_none(m, local_memory_stress_rounds_start(k));
    let list0 = Seq::<Ask>::empty();
    let words1 = crate::stage::column(
        (crate::categories::c07_local_memory::SMALL_SIZES@[(k % 5)] as int),
        |i: int| ((crate::categories::c07_local_memory::SMALL_SIZES@[(k % 5)] as int) - 1) - i,
    );
    let word1 = minus(
        minus(
            num((crate::categories::c07_local_memory::SMALL_SIZES@[(k as u64 % 5) as int])),
            num(1),
        ),
        ix(),
    );
    assert forall|i: int| 0 <= i < words1.len() implies crate::stage::meaning(
        word1,
        m.contents,
        i,
    ) as u64 == #[trigger] words1[i] by {
        reveal_with_fuel(crate::stage::meaning, 4);
    }
    let m1 = crate::stage::lemma_filled(
        m,
        steps[0],
        0,
        num((crate::categories::c07_local_memory::SMALL_SIZES@[(k as u64 % 5) as int])),
        word1,
        words1,
    );
    let table1 = Thing::Table {
        layout: Layout::Val,
        scalar: Scalar::U32,
        columns: seq![words1],
        turn: local_memory_stress_rounds_start(k),
    };
    let m2 = crate::stage::lemma_create(m1, steps[1], 0, Layout::Val, Scalar::U32, 0, table1);
    crate::stage::lemma_asks_more(m, local_memory_stress_rounds_start(k), list0, Ask::Make(table1));
    let list1 = list0.push(Ask::Make(table1));
    let sorted1 = Thing::Sorted {
        of: Box::new(table1),
        keys: 1,
        turn: local_memory_stress_rounds_start(k) + 1,
    };
    let m3 = crate::stage::lemma_sort(m2, steps[2], 0, 1, 1, table1, sorted1);
    crate::stage::lemma_asks_more(
        m,
        local_memory_stress_rounds_start(k),
        list1,
        Ask::Make(sorted1),
    );
    let list2 = list1.push(Ask::Make(sorted1));
    let m4 = crate::stage::lemma_handle(m3, steps[3], 1, 0, sorted1);
    crate::stage::lemma_asks_more(
        m,
        local_memory_stress_rounds_start(k),
        list2,
        Ask::Handle(sorted1),
    );
    let list3 = list2.push(Ask::Handle(sorted1));
    let m5 = crate::stage::lemma_look(m4, steps[4]);
    let words2 = crate::stage::column(
        (crate::categories::c07_local_memory::SMALL_SIZES@[(k % 5)] as int),
        |i: int| crate::stage::flag(
            (i < ((crate::categories::c07_local_memory::SMALL_SIZES@[(k % 5)] as int) / 2)),
        ),
    );
    let word6 = lt(
        ix(),
        over(
            num((crate::categories::c07_local_memory::SMALL_SIZES@[(k as u64 % 5) as int])),
            num(2),
        ),
    );
    assert forall|i: int| 0 <= i < words2.len() implies crate::stage::meaning(
        word6,
        m5.contents,
        i,
    ) as u64 == #[trigger] words2[i] by {
        reveal_with_fuel(crate::stage::meaning, 4);
    }
    let m6 = crate::stage::lemma_filled(
        m5,
        steps[5],
        1,
        num((crate::categories::c07_local_memory::SMALL_SIZES@[(k as u64 % 5) as int])),
        word6,
        words2,
    );
    let kept1 = Thing::Kept {
        of: Box::new(sorted1),
        mask: words2,
        turn: local_memory_stress_rounds_start(k) + 3,
    };
    let m7 = crate::stage::lemma_filter(m6, steps[6], 1, 1, 2, sorted1, words2, kept1);
    crate::stage::lemma_asks_more(m, local_memory_stress_rounds_start(k), list3, Ask::Make(kept1));
    let list4 = list3.push(Ask::Make(kept1));
    let m8 = crate::stage::lemma_handle(m7, steps[7], 2, 0, kept1);
    crate::stage::lemma_asks_more(
        m,
        local_memory_stress_rounds_start(k),
        list4,
        Ask::Handle(kept1),
    );
    let list5 = list4.push(Ask::Handle(kept1));
    assert(local_memory_stress_rounds_without_1_asks(k) == list5);
    m8
}

/// What the device is asked in piece 2 of round `k` of the part `rounds` of
/// `test_local_memory_stress`.
pub open spec fn local_memory_stress_rounds_without_2_asks(k: int) -> Seq<Ask> {
    seq![Ask::Other(Request::Release { from: 0 })]
}

/// Piece 2 of round `k` of the part `rounds` of `test_local_memory_stress` asks what it should.
proof fn lemma_local_memory_stress_rounds_without_2(
    m: Moment,
    steps: Seq<Step>,
    k: int,
) -> (n: Moment)
    requires
        0 <= k < 250,
        !(((k % 5) == 4) && (((k / 5) % 10) == 9)),
        m.holds(),
        m.at == 0 + 11 * k + 8,
        m.used == local_memory_stress_rounds_start(k) + 5,
        0 + 11 * k + 11 <= m.plan.steps.len(),
        forall|j: int| 0 <= j < 11 ==> m.plan.steps[0 + 11 * k + j] == #[trigger] steps[j],
        crate::stage::looks(steps[8]),
        crate::stage::inquires(steps[9], Request::Release { from: 0 }),
        crate::stage::guards(
            steps[10],
            and(
                same_as(modulo(num(k as u64), num(5)), num(4)),
                same_as(modulo(num((k as u64 / 5)), num(10)), num(9)),
            ),
        ),
        crate::walk::straight(steps[10]),
    ensures
        n.holds(),
        n.plan == m.plan,
        n.answers == m.answers,
        n.at == 0 + 11 * k + 11,
        n.used == m.used + 1,
        crate::stage::asks(
            m.plan,
            m.answers,
            local_memory_stress_rounds_start(k) + 5,
            local_memory_stress_rounds_without_2_asks(k),
        ),
{
    crate::stage::lemma_full(m);
    crate::stage::lemma_asks_none(m, local_memory_stress_rounds_start(k) + 5);
    let list0 = Seq::<Ask>::empty();
    let m1 = crate::stage::lemma_look(m, steps[8]);
    let m2 = crate::stage::lemma_release(m1, steps[9], 0);
    crate::stage::lemma_asks_more(
        m,
        local_memory_stress_rounds_start(k) + 5,
        list0,
        Ask::Other(Request::Release { from: 0 }),
    );
    let list1 = list0.push(Ask::Other(Request::Release { from: 0 }));
    assert(
        crate::stage::meaning(
            and(
                same_as(modulo(num(k as u64), num(5)), num(4)),
                same_as(modulo(num((k as u64 / 5)), num(10)), num(9)),
            ),
            m2.contents,
            0,
        ) == 0
    ) by {
        reveal_with_fuel(crate::stage::meaning, 6);
    }
    crate::stage::lemma_guard(
        m2,
        steps[10],
        and(
            same_as(modulo(num(k as u64), num(5)), num(4)),
            same_as(modulo(num((k as u64 / 5)), num(10)), num(9)),
        ),
        false,
    );
    let m3 = crate::stage::lemma_skipped(m2, steps[10]);
    assert(local_memory_stress_rounds_without_2_asks(k) == list1);
    m3
}

/// The steps of the part `rounds` of `test_local_memory_stress`.
proof fn lemma_local_memory_stress_rounds_steps(k: int)
    ensures
        ({
            let steps = crate::categories::c07_local_memory::local_memory_stress_rounds_round(
                k as u64,
            );
            &&& steps.len() == 11
            &&& crate::stage::fills(
                steps[0],
                0,
                num((crate::categories::c07_local_memory::SMALL_SIZES@[(k as u64 % 5) as int])),
                minus(
                    minus(
                        num(
                            (
                                crate::categories::c07_local_memory::SMALL_SIZES@[(k as u64 % 5) as int]
                            ),
                        ),
                        num(1),
                    ),
                    ix(),
                ),
            )
            &&& crate::stage::demands(
                steps[1],
                Request::Create { into: 0, layout: Layout::Val, scalar: Scalar::U32, from: 0 },
            )
            &&& crate::stage::demands(steps[2], Request::Sort { of: 0, keys: 1, into: 1 })
            &&& crate::stage::inquires(steps[3], Request::RowsKnown { of: 1, into: 0 })
            &&& crate::stage::looks(steps[4])
            &&& crate::stage::fills(
                steps[5],
                1,
                num((crate::categories::c07_local_memory::SMALL_SIZES@[(k as u64 % 5) as int])),
                lt(
                    ix(),
                    over(
                        num(
                            (
                                crate::categories::c07_local_memory::SMALL_SIZES@[(k as u64 % 5) as int]
                            ),
                        ),
                        num(2),
                    ),
                ),
            )
            &&& crate::stage::demands(steps[6], Request::Filter { of: 1, mask: 1, into: 2 })
            &&& crate::stage::inquires(steps[7], Request::RowsKnown { of: 2, into: 0 })
            &&& crate::stage::looks(steps[8])
            &&& crate::stage::inquires(steps[9], Request::Release { from: 0 })
            &&& crate::stage::guards(
                steps[10],
                and(
                    same_as(modulo(num(k as u64), num(5)), num(4)),
                    same_as(modulo(num((k as u64 / 5)), num(10)), num(9)),
                ),
            )
            &&& crate::walk::straight(steps[10])
            &&& crate::stage::demands(crate::stage::bare(steps[10]), Request::Sync)
        }),
{
}

/// Round `k` of the part `rounds` of `test_local_memory_stress` asks what it should.
proof fn lemma_local_memory_stress_rounds_round(m: Moment, k: int) -> (n: Moment)
    requires
        0 <= k < 250,
        m.holds(),
        m.at == 0 + 11 * k,
        m.used == local_memory_stress_rounds_start(k),
        m.at + 11 <= m.plan.steps.len(),
        forall|j: int|
            0 <= j < 11 ==> m.plan.steps[0 + 11 * k + j] == #[trigger] crate::categories::c07_local_memory::local_memory_stress_rounds_round(
                k as u64,
            )[j],
    ensures
        n.holds(),
        n.plan == m.plan,
        n.answers == m.answers,
        n.at == 0 + 11 * (k + 1),
        n.used == local_memory_stress_rounds_start(k + 1),
        ((k % 5) == 4) && (((k / 5) % 10) == 9) ==> crate::stage::asks(
            m.plan,
            m.answers,
            local_memory_stress_rounds_start(k),
            local_memory_stress_rounds_with_1_asks(k),
        ),
        ((k % 5) == 4) && (((k / 5) % 10) == 9) ==> crate::stage::asks(
            m.plan,
            m.answers,
            local_memory_stress_rounds_start(k) + 5,
            local_memory_stress_rounds_with_2_asks(k),
        ),
        !(((k % 5) == 4) && (((k / 5) % 10) == 9)) ==> crate::stage::asks(
            m.plan,
            m.answers,
            local_memory_stress_rounds_start(k),
            local_memory_stress_rounds_without_1_asks(k),
        ),
        !(((k % 5) == 4) && (((k / 5) % 10) == 9)) ==> crate::stage::asks(
            m.plan,
            m.answers,
            local_memory_stress_rounds_start(k) + 5,
            local_memory_stress_rounds_without_2_asks(k),
        ),
{
    let steps = crate::categories::c07_local_memory::local_memory_stress_rounds_round(k as u64);
    lemma_local_memory_stress_rounds_steps(k);
    reveal_with_fuel(local_memory_stress_rounds_start, 2);
    if ((k % 5) == 4) && (((k / 5) % 10) == 9) {
        let m1 = lemma_local_memory_stress_rounds_with_1(m, steps, k);
        lemma_local_memory_stress_rounds_with_2(m1, steps, k)
    } else {
        let m1 = lemma_local_memory_stress_rounds_without_1(m, steps, k);
        lemma_local_memory_stress_rounds_without_2(m1, steps, k)
    }
}

/// The first `k` rounds of the part `rounds` of `test_local_memory_stress` ask what they should.
proof fn lemma_local_memory_stress_rounds_rounds(m: Moment, part: Seq<Step>, k: int) -> (n: Moment)
    requires
        0 <= k <= 250,
        m.holds(),
        m.at == 0,
        m.used == local_memory_stress_rounds_start(0),
        m.at + 2750 <= m.plan.steps.len(),
        part == crate::script::rounds(
            250,
            |k: int| crate::categories::c07_local_memory::local_memory_stress_rounds_round(
                k as u64,
            ),
        ),
        forall|j: int| 0 <= j < 2750 ==> m.plan.steps[0 + j] == #[trigger] part[j],
    ensures
        n.holds(),
        n.plan == m.plan,
        n.answers == m.answers,
        n.at == 0 + 11 * k,
        n.used == local_memory_stress_rounds_start(k),
        forall|j: int|
            0 <= j < k && ((j % 5) == 4) && (((j / 5) % 10) == 9) ==> crate::stage::asks(
                m.plan,
                m.answers,
                local_memory_stress_rounds_start(j),
                #[trigger] local_memory_stress_rounds_with_1_asks(j),
            ),
        forall|j: int|
            0 <= j < k && ((j % 5) == 4) && (((j / 5) % 10) == 9) ==> crate::stage::asks(
                m.plan,
                m.answers,
                local_memory_stress_rounds_start(j) + 5,
                #[trigger] local_memory_stress_rounds_with_2_asks(j),
            ),
        forall|j: int|
            0 <= j < k && !(((j % 5) == 4) && (((j / 5) % 10) == 9)) ==> crate::stage::asks(
                m.plan,
                m.answers,
                local_memory_stress_rounds_start(j),
                #[trigger] local_memory_stress_rounds_without_1_asks(j),
            ),
        forall|j: int|
            0 <= j < k && !(((j % 5) == 4) && (((j / 5) % 10) == 9)) ==> crate::stage::asks(
                m.plan,
                m.answers,
                local_memory_stress_rounds_start(j) + 5,
                #[trigger] local_memory_stress_rounds_without_2_asks(j),
            ),
    decreases k,
{
    if k == 0 {
        m
    } else {
        let round = |k: int| crate::categories::c07_local_memory::local_memory_stress_rounds_round(
            k as u64,
        );
        let before = lemma_local_memory_stress_rounds_rounds(m, part, k - 1);
        assert forall|j: int| 0 <= j < 11 implies m.plan.steps[before.at + j] == #[trigger] crate::categories::c07_local_memory::local_memory_stress_rounds_round(
            (k - 1) as u64,
        )[j] by {
            assert forall|k: int| 0 <= k < 250 implies (#[trigger] round(k)).len() == 11 by {
                lemma_local_memory_stress_rounds_steps(k);
            }
            crate::stage::lemma_round_place(250, round, 11, k - 1, j);
            assert(part[(k - 1) * 11 + j] == round(k - 1)[j]);
        }
        lemma_local_memory_stress_rounds_round(before, k - 1)
    }
}

/// What the device is asked in the part `end` of `test_local_memory_stress`.
pub open spec fn local_memory_stress_end_asks() -> Seq<Ask> {
    seq![Ask::Other(Request::Sync)]
}

/// The part `end` of `test_local_memory_stress` asks what it should.
proof fn lemma_local_memory_stress_end(m: Moment, steps: Seq<Step>) -> (n: Moment)
    requires
        m.holds(),
        m.at == 2750,
        m.used == local_memory_stress_rounds_start(250) + 0,
        2750 + 1 <= m.plan.steps.len(),
        forall|j: int| 0 <= j < 1 ==> m.plan.steps[2750 + j] == #[trigger] steps[j],
        crate::stage::demands(steps[0], Request::Sync),
    ensures
        n.holds(),
        n.plan == m.plan,
        n.answers == m.answers,
        n.at == 2750 + 1,
        n.used == m.used + 1,
        crate::stage::asks(
            m.plan,
            m.answers,
            local_memory_stress_rounds_start(250) + 0,
            local_memory_stress_end_asks(),
        ),
{
    crate::stage::lemma_full(m);
    crate::stage::lemma_asks_none(m, local_memory_stress_rounds_start(250) + 0);
    let list0 = Seq::<Ask>::empty();
    let m1 = crate::stage::lemma_sync(m, steps[0]);
    crate::stage::lemma_asks_more(
        m,
        local_memory_stress_rounds_start(250) + 0,
        list0,
        Ask::Other(Request::Sync),
    );
    let list1 = list0.push(Ask::Other(Request::Sync));
    assert(local_memory_stress_end_asks() == list1);
    m1
}

/// The steps of the part `end` of `test_local_memory_stress`.
proof fn lemma_local_memory_stress_end_steps()
    ensures
        ({
            let steps = crate::categories::c07_local_memory::local_memory_stress_end_steps();
            &&& steps.len() == 1
            &&& crate::stage::demands(steps[0], Request::Sync)
        }),
{
}

/// In a run of `test_local_memory_stress` that passes the device is asked this, in this order, and
/// nothing else: each request about what an earlier one made is about that, and about what was
/// uploaded for it.
pub proof fn law_local_memory_stress_asks_about_what_it_made(answers: Seq<Answer>)
    requires
        crate::stage::passes(
            crate::script::plan(
                "test_local_memory_stress",
                crate::categories::c07_local_memory::local_memory_stress_steps(),
            ),
            answers,
        ),
    ensures
        forall|k: int|
            0 <= k < 250 && ((k % 5) == 4) && (((k / 5) % 10) == 9) ==> crate::stage::asks(
                crate::script::plan(
                    "test_local_memory_stress",
                    crate::categories::c07_local_memory::local_memory_stress_steps(),
                ),
                answers,
                local_memory_stress_rounds_start(k),
                #[trigger] local_memory_stress_rounds_with_1_asks(k),
            ),
        forall|k: int|
            0 <= k < 250 && ((k % 5) == 4) && (((k / 5) % 10) == 9) ==> crate::stage::asks(
                crate::script::plan(
                    "test_local_memory_stress",
                    crate::categories::c07_local_memory::local_memory_stress_steps(),
                ),
                answers,
                local_memory_stress_rounds_start(k) + 5,
                #[trigger] local_memory_stress_rounds_with_2_asks(k),
            ),
        forall|k: int|
            0 <= k < 250 && !(((k % 5) == 4) && (((k / 5) % 10) == 9)) ==> crate::stage::asks(
                crate::script::plan(
                    "test_local_memory_stress",
                    crate::categories::c07_local_memory::local_memory_stress_steps(),
                ),
                answers,
                local_memory_stress_rounds_start(k),
                #[trigger] local_memory_stress_rounds_without_1_asks(k),
            ),
        forall|k: int|
            0 <= k < 250 && !(((k % 5) == 4) && (((k / 5) % 10) == 9)) ==> crate::stage::asks(
                crate::script::plan(
                    "test_local_memory_stress",
                    crate::categories::c07_local_memory::local_memory_stress_steps(),
                ),
                answers,
                local_memory_stress_rounds_start(k) + 5,
                #[trigger] local_memory_stress_rounds_without_2_asks(k),
            ),
        crate::stage::asks(
            crate::script::plan(
                "test_local_memory_stress",
                crate::categories::c07_local_memory::local_memory_stress_steps(),
            ),
            answers,
            local_memory_stress_rounds_start(250) + 0,
            local_memory_stress_end_asks(),
        ),
        crate::stage::asked(
            crate::script::plan(
                "test_local_memory_stress",
                crate::categories::c07_local_memory::local_memory_stress_steps(),
            ),
            answers,
            local_memory_stress_rounds_start(250) + 1,
        ) is None,
{
    let plan = crate::script::plan(
        "test_local_memory_stress",
        crate::categories::c07_local_memory::local_memory_stress_steps(),
    );
    let round1 = |k: int| crate::categories::c07_local_memory::local_memory_stress_rounds_round(
        k as u64,
    );
    let part1 = crate::script::rounds(250, round1);
    assert forall|k: int| 0 <= k < 250 implies (#[trigger] round1(k)).len() == 11 by {
        lemma_local_memory_stress_rounds_steps(k);
    }
    crate::stage::lemma_rounds_length(250, round1, 11);
    let part2 = crate::categories::c07_local_memory::local_memory_stress_end_steps();
    lemma_local_memory_stress_end_steps();
    let whole1 = part1;
    let whole2 = whole1 + part2;
    assert(plan.steps == whole2);
    let m0 = crate::stage::lemma_start(plan, answers);
    assert forall|j: int| 0 <= j < 2750 implies plan.steps[0 + j] == #[trigger] part1[j] by {}
    let m1 = lemma_local_memory_stress_rounds_rounds(m0, part1, 250);
    assert forall|j: int| 0 <= j < 1 implies plan.steps[2750 + j] == #[trigger] part2[j] by {}
    let m2 = lemma_local_memory_stress_end(m1, part2);
    crate::stage::lemma_end(m2);
}

} // verus!
