//! What these tests ask the device in runs that pass: `test_join_reproducibility`.

use vstd::prelude::*;
use crate::expr::{differs, here, ix, num, reg, times};
use crate::machine::Answer;
use crate::scalar::Scalar;
use crate::script::{Layout, Request, Step};
use crate::stage::{Ask, Moment, Thing};

verus! {

/// A buffer that is uploaded in the part `first` of `test_join_reproducibility`.
pub open spec fn join_reproducibility_first_table1() -> Thing {
    Thing::Table {
        layout: Layout::KeyLval,
        scalar: Scalar::U32,
        columns: seq![
            crate::stage::column(5000, |i: int| i * 3),
            crate::stage::column(
                5000,
                |i: int| (crate::stage::column(5000, |i: int| i * 3)[i] as int) * 10,
            ),
        ],
        turn: 0,
    }
}

/// A buffer that is uploaded in the part `first` of `test_join_reproducibility`.
pub open spec fn join_reproducibility_first_table2() -> Thing {
    Thing::Table {
        layout: Layout::KeyRval,
        scalar: Scalar::U32,
        columns: seq![
            crate::stage::column(3000, |i: int| i * 5),
            crate::stage::column(
                3000,
                |i: int| (crate::stage::column(3000, |i: int| i * 5)[i] as int) * 100,
            ),
        ],
        turn: 1,
    }
}

/// What is joined in the part `first` of `test_join_reproducibility`.
pub open spec fn join_reproducibility_first_joined1() -> Thing {
    Thing::Joined {
        left: Box::new(join_reproducibility_first_table1()),
        right: Box::new(join_reproducibility_first_table2()),
        turn: 2,
    }
}

/// What is joined in round `k` of the part `repeats` of `test_join_reproducibility`.
pub open spec fn join_reproducibility_repeats_joined1(k: int) -> Thing {
    Thing::Joined {
        left: Box::new(join_reproducibility_first_table1()),
        right: Box::new(join_reproducibility_first_table2()),
        turn: 6 + 7 * k,
    }
}

/// What the device is asked in piece 1 of the part `first` of `test_join_reproducibility`.
pub open spec fn join_reproducibility_first_1_asks() -> Seq<Ask> {
    seq![
        Ask::Make(join_reproducibility_first_table1()),
        Ask::Make(join_reproducibility_first_table2()),
        Ask::Make(join_reproducibility_first_joined1()),
        Ask::Words { of: join_reproducibility_first_joined1(), column: 0, scalar: Scalar::U32 },
    ]
}

/// Piece 1 of the part `first` of `test_join_reproducibility` asks what it should.
proof fn lemma_join_reproducibility_first_1(m: Moment, steps: Seq<Step>) -> (n: Moment)
    requires
        m.holds(),
        m.at == 0,
        m.used == 0,
        0 + 10 <= m.plan.steps.len(),
        forall|j: int| 0 <= j < 10 ==> m.plan.steps[0 + j] == #[trigger] steps[j],
        crate::stage::fills(steps[0], 0, num(5000), times(ix(), num(3))),
        crate::stage::fills(steps[1], 1, num(5000), times(here(0), num(10))),
        crate::stage::fills(steps[2], 2, num(3000), times(ix(), num(5))),
        crate::stage::fills(steps[3], 3, num(3000), times(here(2), num(100))),
        crate::stage::demands(
            steps[4],
            Request::Create { into: 0, layout: Layout::KeyLval, scalar: Scalar::U32, from: 0 },
        ),
        crate::stage::demands(
            steps[5],
            Request::Create { into: 1, layout: Layout::KeyRval, scalar: Scalar::U32, from: 2 },
        ),
        crate::stage::demands(steps[6], Request::Join { left: 0, right: 1, into: 2 }),
        crate::stage::demands(
            steps[7],
            Request::Download { of: 2, column: 0, scalar: Scalar::U32, into: 4 },
        ),
    ensures
        n.holds(),
        n.plan == m.plan,
        n.answers == m.answers,
        n.at == 0 + 8,
        n.used == m.used + 4,
        n.scene.buffer(0) == join_reproducibility_first_table1(),
        n.scene.buffer(1) == join_reproducibility_first_table2(),
        n.scene.buffer(2) == join_reproducibility_first_joined1(),
        crate::stage::asks(m.plan, m.answers, 0, join_reproducibility_first_1_asks()),
{
    crate::stage::lemma_full(m);
    crate::stage::lemma_asks_none(m, 0);
    let list0 = Seq::<Ask>::empty();
    let words1 = crate::stage::column(5000, |i: int| i * 3);
    let word1 = times(ix(), num(3));
    assert forall|i: int| 0 <= i < words1.len() implies crate::stage::meaning(
        word1,
        m.contents,
        i,
    ) as u64 == #[trigger] words1[i] by {
        reveal_with_fuel(crate::stage::meaning, 3);
    }
    let m1 = crate::stage::lemma_filled(m, steps[0], 0, num(5000), word1, words1);
    let words2 = crate::stage::column(5000, |i: int| (words1[i] as int) * 10);
    let word2 = times(here(0), num(10));
    assert forall|i: int| 0 <= i < words2.len() implies crate::stage::meaning(
        word2,
        m1.contents,
        i,
    ) as u64 == #[trigger] words2[i] by {
        reveal_with_fuel(crate::stage::meaning, 4);
    }
    let m2 = crate::stage::lemma_filled(m1, steps[1], 1, num(5000), word2, words2);
    let words3 = crate::stage::column(3000, |i: int| i * 5);
    let word3 = times(ix(), num(5));
    assert forall|i: int| 0 <= i < words3.len() implies crate::stage::meaning(
        word3,
        m2.contents,
        i,
    ) as u64 == #[trigger] words3[i] by {
        reveal_with_fuel(crate::stage::meaning, 3);
    }
    let m3 = crate::stage::lemma_filled(m2, steps[2], 2, num(3000), word3, words3);
    let words4 = crate::stage::column(3000, |i: int| (words3[i] as int) * 100);
    let word4 = times(here(2), num(100));
    assert forall|i: int| 0 <= i < words4.len() implies crate::stage::meaning(
        word4,
        m3.contents,
        i,
    ) as u64 == #[trigger] words4[i] by {
        reveal_with_fuel(crate::stage::meaning, 4);
    }
    let m4 = crate::stage::lemma_filled(m3, steps[3], 3, num(3000), word4, words4);
    let m5 = crate::stage::lemma_create(
        m4,
        steps[4],
        0,
        Layout::KeyLval,
        Scalar::U32,
        0,
        join_reproducibility_first_table1(),
    );
    crate::stage::lemma_asks_more(m, 0, list0, Ask::Make(join_reproducibility_first_table1()));
    let list1 = list0.push(Ask::Make(join_reproducibility_first_table1()));
    let m6 = crate::stage::lemma_create(
        m5,
        steps[5],
        1,
        Layout::KeyRval,
        Scalar::U32,
        2,
        join_reproducibility_first_table2(),
    );
    crate::stage::lemma_asks_more(m, 0, list1, Ask::Make(join_reproducibility_first_table2()));
    let list2 = list1.push(Ask::Make(join_reproducibility_first_table2()));
    let m7 = crate::stage::lemma_join(
        m6,
        steps[6],
        0,
        1,
        2,
        join_reproducibility_first_table1(),
        join_reproducibility_first_table2(),
        join_reproducibility_first_joined1(),
    );
    crate::stage::lemma_asks_more(m, 0, list2, Ask::Make(join_reproducibility_first_joined1()));
    let list3 = list2.push(Ask::Make(join_reproducibility_first_joined1()));
    let m8 = crate::stage::lemma_download(
        m7,
        steps[7],
        2,
        0,
        Scalar::U32,
        4,
        join_reproducibility_first_joined1(),
    );
    crate::stage::lemma_asks_more(
        m,
        0,
        list3,
        Ask::Words { of: join_reproducibility_first_joined1(), column: 0, scalar: Scalar::U32 },
    );
    let list4 = list3.push(
        Ask::Words { of: join_reproducibility_first_joined1(), column: 0, scalar: Scalar::U32 },
    );
    assert(join_reproducibility_first_1_asks() == list4);
    m8
}

/// What the device is asked in piece 2 of the part `first` of `test_join_reproducibility`.
pub open spec fn join_reproducibility_first_2_asks() -> Seq<Ask> {
    seq![
        Ask::Words { of: join_reproducibility_first_joined1(), column: 1, scalar: Scalar::U32 },
        Ask::Words { of: join_reproducibility_first_joined1(), column: 2, scalar: Scalar::U32 },
    ]
}

/// Piece 2 of the part `first` of `test_join_reproducibility` asks what it should.
proof fn lemma_join_reproducibility_first_2(m: Moment, steps: Seq<Step>) -> (n: Moment)
    requires
        m.holds(),
        m.at == 0 + 8,
        m.used == 4,
        0 + 10 <= m.plan.steps.len(),
        forall|j: int| 0 <= j < 10 ==> m.plan.steps[0 + j] == #[trigger] steps[j],
        crate::stage::demands(
            steps[8],
            Request::Download { of: 2, column: 1, scalar: Scalar::U32, into: 5 },
        ),
        crate::stage::demands(
            steps[9],
            Request::Download { of: 2, column: 2, scalar: Scalar::U32, into: 6 },
        ),
        m.scene.buffer(0) == join_reproducibility_first_table1(),
        m.scene.buffer(1) == join_reproducibility_first_table2(),
        m.scene.buffer(2) == join_reproducibility_first_joined1(),
    ensures
        n.holds(),
        n.plan == m.plan,
        n.answers == m.answers,
        n.at == 0 + 10,
        n.used == m.used + 2,
        n.scene.buffer(0) == join_reproducibility_first_table1(),
        n.scene.buffer(1) == join_reproducibility_first_table2(),
        n.scene.buffer(2) == join_reproducibility_first_joined1(),
        crate::stage::asks(m.plan, m.answers, 4, join_reproducibility_first_2_asks()),
{
    crate::stage::lemma_full(m);
    crate::stage::lemma_asks_none(m, 4);
    let list0 = Seq::<Ask>::empty();
    let m1 = crate::stage::lemma_download(
        m,
        steps[8],
        2,
        1,
        Scalar::U32,
        5,
        join_reproducibility_first_joined1(),
    );
    crate::stage::lemma_asks_more(
        m,
        4,
        list0,
        Ask::Words { of: join_reproducibility_first_joined1(), column: 1, scalar: Scalar::U32 },
    );
    let list1 = list0.push(
        Ask::Words { of: join_reproducibility_first_joined1(), column: 1, scalar: Scalar::U32 },
    );
    let m2 = crate::stage::lemma_download(
        m1,
        steps[9],
        2,
        2,
        Scalar::U32,
        6,
        join_reproducibility_first_joined1(),
    );
    crate::stage::lemma_asks_more(
        m,
        4,
        list1,
        Ask::Words { of: join_reproducibility_first_joined1(), column: 2, scalar: Scalar::U32 },
    );
    let list2 = list1.push(
        Ask::Words { of: join_reproducibility_first_joined1(), column: 2, scalar: Scalar::U32 },
    );
    assert(join_reproducibility_first_2_asks() == list2);
    m2
}

/// The steps of the part `first` of `test_join_reproducibility`.
proof fn lemma_join_reproducibility_first_steps()
    ensures
        ({
            let steps = crate::categories::c15_determinism::join_reproducibility_first_steps();
            &&& steps.len() == 10
            &&& crate::stage::fills(steps[0], 0, num(5000), times(ix(), num(3)))
            &&& crate::stage::fills(steps[1], 1, num(5000), times(here(0), num(10)))
            &&& crate::stage::fills(steps[2], 2, num(3000), times(ix(), num(5)))
            &&& crate::stage::fills(steps[3], 3, num(3000), times(here(2), num(100)))
            &&& crate::stage::demands(
                steps[4],
                Request::Create { into: 0, layout: Layout::KeyLval, scalar: Scalar::U32, from: 0 },
            )
            &&& crate::stage::demands(
                steps[5],
                Request::Create { into: 1, layout: Layout::KeyRval, scalar: Scalar::U32, from: 2 },
            )
            &&& crate::stage::demands(steps[6], Request::Join { left: 0, right: 1, into: 2 })
            &&& crate::stage::demands(
                steps[7],
                Request::Download { of: 2, column: 0, scalar: Scalar::U32, into: 4 },
            )
            &&& crate::stage::demands(
                steps[8],
                Request::Download { of: 2, column: 1, scalar: Scalar::U32, into: 5 },
            )
            &&& crate::stage::demands(
                steps[9],
                Request::Download { of: 2, column: 2, scalar: Scalar::U32, into: 6 },
            )
        }),
{
}

/// What the device is asked in piece 1 of round `k` of the part `repeats` of
/// `test_join_reproducibility`.
pub open spec fn join_reproducibility_repeats_1_asks(k: int) -> Seq<Ask> {
    seq![
        Ask::Make(join_reproducibility_repeats_joined1(k)),
        Ask::Rows(join_reproducibility_repeats_joined1(k)),
        Ask::Rows(join_reproducibility_first_joined1()),
        Ask::Words { of: join_reproducibility_repeats_joined1(k), column: 0, scalar: Scalar::U32 },
        Ask::Words { of: join_reproducibility_repeats_joined1(k), column: 1, scalar: Scalar::U32 },
    ]
}

/// Piece 1 of round `k` of the part `repeats` of `test_join_reproducibility` asks what it should.
proof fn lemma_join_reproducibility_repeats_1(m: Moment, steps: Seq<Step>, k: int) -> (n: Moment)
    requires
        0 <= k < 4,
        m.holds(),
        m.at == 10 + 11 * k,
        m.used == 6 + 7 * k,
        10 + 11 * k + 11 <= m.plan.steps.len(),
        forall|j: int| 0 <= j < 11 ==> m.plan.steps[10 + 11 * k + j] == #[trigger] steps[j],
        crate::stage::demands(steps[0], Request::Join { left: 0, right: 1, into: 3 }),
        crate::stage::inquires(steps[1], Request::Rows { of: 3, into: 0 }),
        crate::stage::inquires(steps[2], Request::Rows { of: 2, into: 1 }),
        crate::stage::guards(steps[3], differs(reg(0), reg(1))),
        crate::walk::straight(steps[3]),
        crate::stage::inquires(crate::stage::bare(steps[3]), Request::Rows { of: 3, into: 2 }),
        crate::stage::guards(steps[4], differs(reg(0), reg(1))),
        crate::walk::straight(steps[4]),
        crate::stage::inquires(crate::stage::bare(steps[4]), Request::Rows { of: 2, into: 3 }),
        crate::stage::looks(steps[5]),
        crate::stage::checks(steps[5], differs(reg(0), reg(1))),
        crate::stage::demands(
            steps[6],
            Request::Download { of: 3, column: 0, scalar: Scalar::U32, into: 7 },
        ),
        crate::stage::demands(
            steps[7],
            Request::Download { of: 3, column: 1, scalar: Scalar::U32, into: 8 },
        ),
        m.scene.buffer(0) == join_reproducibility_first_table1(),
        m.scene.buffer(1) == join_reproducibility_first_table2(),
        m.scene.buffer(2) == join_reproducibility_first_joined1(),
    ensures
        n.holds(),
        n.plan == m.plan,
        n.answers == m.answers,
        n.at == 10 + 11 * k + 8,
        n.used == m.used + 5,
        n.scene.buffer(0) == join_reproducibility_first_table1(),
        n.scene.buffer(1) == join_reproducibility_first_table2(),
        n.scene.buffer(2) == join_reproducibility_first_joined1(),
        n.scene.buffer(3) == join_reproducibility_repeats_joined1(k),
        crate::stage::asks(m.plan, m.answers, 6 + 7 * k, join_reproducibility_repeats_1_asks(k)),
{
    crate::stage::lemma_full(m);
    crate::stage::lemma_asks_none(m, 6 + 7 * k);
    let list0 = Seq::<Ask>::empty();
    let m1 = crate::stage::lemma_join(
        m,
        steps[0],
        0,
        1,
        3,
        join_reproducibility_first_table1(),
        join_reproducibility_first_table2(),
        join_reproducibility_repeats_joined1(k),
    );
    crate::stage::lemma_asks_more(
        m,
        6 + 7 * k,
        list0,
        Ask::Make(join_reproducibility_repeats_joined1(k)),
    );
    let list1 = list0.push(Ask::Make(join_reproducibility_repeats_joined1(k)));
    let m2 = crate::stage::lemma_rows(m1, steps[1], 3, 0, join_reproducibility_repeats_joined1(k));
    crate::stage::lemma_asks_more(
        m,
        6 + 7 * k,
        list1,
        Ask::Rows(join_reproducibility_repeats_joined1(k)),
    );
    let list2 = list1.push(Ask::Rows(join_reproducibility_repeats_joined1(k)));
    let m3 = crate::stage::lemma_rows(m2, steps[2], 2, 1, join_reproducibility_first_joined1());
    crate::stage::lemma_asks_more(
        m,
        6 + 7 * k,
        list2,
        Ask::Rows(join_reproducibility_first_joined1()),
    );
    let list3 = list2.push(Ask::Rows(join_reproducibility_first_joined1()));
    if crate::stage::meaning(differs(reg(0), reg(1)), m3.contents, 0) != 0 {
        reveal_with_fuel(crate::stage::meaning, 4);
        crate::stage::lemma_guard(m3, steps[3], differs(reg(0), reg(1)), true);
        let first = crate::stage::lemma_rows(m3, steps[3], 3, 2, m3.scene.buffer(3));
        crate::stage::lemma_guard(first, steps[4], differs(reg(0), reg(1)), true);
        let second = crate::stage::lemma_rows(first, steps[4], 2, 3, first.scene.buffer(2));
        crate::stage::lemma_refute(second, steps[5], differs(reg(0), reg(1)));
    }
    crate::stage::lemma_guard(m3, steps[3], differs(reg(0), reg(1)), false);
    let m4 = crate::stage::lemma_skipped(m3, steps[3]);
    crate::stage::lemma_guard(m4, steps[4], differs(reg(0), reg(1)), false);
    let m5 = crate::stage::lemma_skipped(m4, steps[4]);
    let m6 = crate::stage::lemma_look(m5, steps[5]);
    let m7 = crate::stage::lemma_download(
        m6,
        steps[6],
        3,
        0,
        Scalar::U32,
        7,
        join_reproducibility_repeats_joined1(k),
    );
    crate::stage::lemma_asks_more(
        m,
        6 + 7 * k,
        list3,
        Ask::Words { of: join_reproducibility_repeats_joined1(k), column: 0, scalar: Scalar::U32 },
    );
    let list4 = list3.push(
        Ask::Words { of: join_reproducibility_repeats_joined1(k), column: 0, scalar: Scalar::U32 },
    );
    let m8 = crate::stage::lemma_download(
        m7,
        steps[7],
        3,
        1,
        Scalar::U32,
        8,
        join_reproducibility_repeats_joined1(k),
    );
    crate::stage::lemma_asks_more(
        m,
        6 + 7 * k,
        list4,
        Ask::Words { of: join_reproducibility_repeats_joined1(k), column: 1, scalar: Scalar::U32 },
    );
    let list5 = list4.push(
        Ask::Words { of: join_reproducibility_repeats_joined1(k), column: 1, scalar: Scalar::U32 },
    );
    assert(join_reproducibility_repeats_1_asks(k) == list5);
    m8
}

/// What the device is asked in piece 2 of round `k` of the part `repeats` of
/// `test_join_reproducibility`.
pub open spec fn join_reproducibility_repeats_2_asks(k: int) -> Seq<Ask> {
    seq![
        Ask::Words { of: join_reproducibility_repeats_joined1(k), column: 2, scalar: Scalar::U32 },
        Ask::Other(Request::Release { from: 3 }),
    ]
}

/// Piece 2 of round `k` of the part `repeats` of `test_join_reproducibility` asks what it should.
proof fn lemma_join_reproducibility_repeats_2(m: Moment, steps: Seq<Step>, k: int) -> (n: Moment)
    requires
        0 <= k < 4,
        m.holds(),
        m.at == 10 + 11 * k + 8,
        m.used == 11 + 7 * k,
        10 + 11 * k + 11 <= m.plan.steps.len(),
        forall|j: int| 0 <= j < 11 ==> m.plan.steps[10 + 11 * k + j] == #[trigger] steps[j],
        crate::stage::demands(
            steps[8],
            Request::Download { of: 3, column: 2, scalar: Scalar::U32, into: 9 },
        ),
        crate::stage::looks(steps[9]),
        crate::stage::inquires(steps[10], Request::Release { from: 3 }),
        m.scene.buffer(0) == join_reproducibility_first_table1(),
        m.scene.buffer(1) == join_reproducibility_first_table2(),
        m.scene.buffer(2) == join_reproducibility_first_joined1(),
        m.scene.buffer(3) == join_reproducibility_repeats_joined1(k),
    ensures
        n.holds(),
        n.plan == m.plan,
        n.answers == m.answers,
        n.at == 10 + 11 * k + 11,
        n.used == m.used + 2,
        n.scene.buffer(0) == join_reproducibility_first_table1(),
        n.scene.buffer(1) == join_reproducibility_first_table2(),
        n.scene.buffer(2) == join_reproducibility_first_joined1(),
        crate::stage::asks(m.plan, m.answers, 11 + 7 * k, join_reproducibility_repeats_2_asks(k)),
{
    crate::stage::lemma_full(m);
    crate::stage::lemma_asks_none(m, 11 + 7 * k);
    let list0 = Seq::<Ask>::empty();
    let m1 = crate::stage::lemma_download(
        m,
        steps[8],
        3,
        2,
        Scalar::U32,
        9,
        join_reproducibility_repeats_joined1(k),
    );
    crate::stage::lemma_asks_more(
        m,
        11 + 7 * k,
        list0,
        Ask::Words { of: join_reproducibility_repeats_joined1(k), column: 2, scalar: Scalar::U32 },
    );
    let list1 = list0.push(
        Ask::Words { of: join_reproducibility_repeats_joined1(k), column: 2, scalar: Scalar::U32 },
    );
    let m2 = crate::stage::lemma_look(m1, steps[9]);
    let m3 = crate::stage::lemma_release(m2, steps[10], 3);
    crate::stage::lemma_asks_more(m, 11 + 7 * k, list1, Ask::Other(Request::Release { from: 3 }));
    let list2 = list1.push(Ask::Other(Request::Release { from: 3 }));
    assert(join_reproducibility_repeats_2_asks(k) == list2);
    m3
}

/// The steps of the part `repeats` of `test_join_reproducibility`.
proof fn lemma_join_reproducibility_repeats_steps(k: int)
    ensures
        ({
            let steps = crate::categories::c15_determinism::join_reproducibility_repeats_round(
                k as u64,
            );
            &&& steps.len() == 11
            &&& crate::stage::demands(steps[0], Request::Join { left: 0, right: 1, into: 3 })
            &&& crate::stage::inquires(steps[1], Request::Rows { of: 3, into: 0 })
            &&& crate::stage::inquires(steps[2], Request::Rows { of: 2, into: 1 })
            &&& crate::stage::guards(steps[3], differs(reg(0), reg(1)))
            &&& crate::walk::straight(steps[3])
            &&& crate::stage::inquires(
                crate::stage::bare(steps[3]),
                Request::Rows { of: 3, into: 2 },
            )
            &&& crate::stage::guards(steps[4], differs(reg(0), reg(1)))
            &&& crate::walk::straight(steps[4])
            &&& crate::stage::inquires(
                crate::stage::bare(steps[4]),
                Request::Rows { of: 2, into: 3 },
            )
            &&& crate::stage::looks(steps[5])
            &&& crate::stage::checks(steps[5], differs(reg(0), reg(1)))
            &&& crate::stage::demands(
                steps[6],
                Request::Download { of: 3, column: 0, scalar: Scalar::U32, into: 7 },
            )
            &&& crate::stage::demands(
                steps[7],
                Request::Download { of: 3, column: 1, scalar: Scalar::U32, into: 8 },
            )
            &&& crate::stage::demands(
                steps[8],
                Request::Download { of: 3, column: 2, scalar: Scalar::U32, into: 9 },
            )
            &&& crate::stage::looks(steps[9])
            &&& crate::stage::inquires(steps[10], Request::Release { from: 3 })
        }),
{
}

/// Round `k` of the part `repeats` of `test_join_reproducibility` asks what it should.
proof fn lemma_join_reproducibility_repeats_round(m: Moment, k: int) -> (n: Moment)
    requires
        0 <= k < 4,
        m.holds(),
        m.at == 10 + 11 * k,
        m.used == 6 + 7 * k,
        m.at + 11 <= m.plan.steps.len(),
        forall|j: int|
            0 <= j < 11 ==> m.plan.steps[10 + 11 * k + j] == #[trigger] crate::categories::c15_determinism::join_reproducibility_repeats_round(
                k as u64,
            )[j],
        m.scene.buffer(0) == join_reproducibility_first_table1(),
        m.scene.buffer(1) == join_reproducibility_first_table2(),
        m.scene.buffer(2) == join_reproducibility_first_joined1(),
    ensures
        n.holds(),
        n.plan == m.plan,
        n.answers == m.answers,
        n.at == 10 + 11 * (k + 1),
        n.used == 6 + 7 * (k + 1),
        n.scene.buffer(0) == join_reproducibility_first_table1(),
        n.scene.buffer(1) == join_reproducibility_first_table2(),
        n.scene.buffer(2) == join_reproducibility_first_joined1(),
        crate::stage::asks(m.plan, m.answers, 6 + 7 * k, join_reproducibility_repeats_1_asks(k)),
        crate::stage::asks(m.plan, m.answers, 11 + 7 * k, join_reproducibility_repeats_2_asks(k)),
{
    let steps = crate::categories::c15_determinism::join_reproducibility_repeats_round(k as u64);
    lemma_join_reproducibility_repeats_steps(k);
    let m1 = lemma_join_reproducibility_repeats_1(m, steps, k);
    lemma_join_reproducibility_repeats_2(m1, steps, k)
}

/// The first `k` rounds of the part `repeats` of `test_join_reproducibility` ask what they should.
proof fn lemma_join_reproducibility_repeats_rounds(
    m: Moment,
    part: Seq<Step>,
    k: int,
) -> (n: Moment)
    requires
        0 <= k <= 4,
        m.holds(),
        m.at == 10,
        m.used == 6 + 7 * 0,
        m.at + 44 <= m.plan.steps.len(),
        part == crate::script::rounds(
            4,
            |k: int| crate::categories::c15_determinism::join_reproducibility_repeats_round(
                k as u64,
            ),
        ),
        forall|j: int| 0 <= j < 44 ==> m.plan.steps[10 + j] == #[trigger] part[j],
        m.scene.buffer(0) == join_reproducibility_first_table1(),
        m.scene.buffer(1) == join_reproducibility_first_table2(),
        m.scene.buffer(2) == join_reproducibility_first_joined1(),
    ensures
        n.holds(),
        n.plan == m.plan,
        n.answers == m.answers,
        n.at == 10 + 11 * k,
        n.used == 6 + 7 * k,
        n.scene.buffer(0) == join_reproducibility_first_table1(),
        n.scene.buffer(1) == join_reproducibility_first_table2(),
        n.scene.buffer(2) == join_reproducibility_first_joined1(),
        forall|j: int|
            0 <= j < k ==> crate::stage::asks(
                m.plan,
                m.answers,
                6 + 7 * j,
                #[trigger] join_reproducibility_repeats_1_asks(j),
            ),
        forall|j: int|
            0 <= j < k ==> crate::stage::asks(
                m.plan,
                m.answers,
                11 + 7 * j,
                #[trigger] join_reproducibility_repeats_2_asks(j),
            ),
    decreases k,
{
    if k == 0 {
        m
    } else {
        let round = |k: int| crate::categories::c15_determinism::join_reproducibility_repeats_round(
            k as u64,
        );
        let before = lemma_join_reproducibility_repeats_rounds(m, part, k - 1);
        assert forall|j: int| 0 <= j < 11 implies m.plan.steps[before.at + j] == #[trigger] crate::categories::c15_determinism::join_reproducibility_repeats_round(
            (k - 1) as u64,
        )[j] by {
            assert forall|k: int| 0 <= k < 4 implies (#[trigger] round(k)).len() == 11 by {
                lemma_join_reproducibility_repeats_steps(k);
            }
            crate::stage::lemma_round_place(4, round, 11, k - 1, j);
            assert(part[(k - 1) * 11 + j] == round(k - 1)[j]);
        }
        lemma_join_reproducibility_repeats_round(before, k - 1)
    }
}

/// What the device is asked in the part `end` of `test_join_reproducibility`.
pub open spec fn join_reproducibility_end_asks() -> Seq<Ask> {
    seq![Ask::Other(Request::Sync)]
}

/// The part `end` of `test_join_reproducibility` asks what it should.
proof fn lemma_join_reproducibility_end(m: Moment, steps: Seq<Step>) -> (n: Moment)
    requires
        m.holds(),
        m.at == 54,
        m.used == 34,
        54 + 1 <= m.plan.steps.len(),
        forall|j: int| 0 <= j < 1 ==> m.plan.steps[54 + j] == #[trigger] steps[j],
        crate::stage::demands(steps[0], Request::Sync),
    ensures
        n.holds(),
        n.plan == m.plan,
        n.answers == m.answers,
        n.at == 54 + 1,
        n.used == m.used + 1,
        crate::stage::asks(m.plan, m.answers, 34, join_reproducibility_end_asks()),
{
    crate::stage::lemma_full(m);
    crate::stage::lemma_asks_none(m, 34);
    let list0 = Seq::<Ask>::empty();
    let m1 = crate::stage::lemma_sync(m, steps[0]);
    crate::stage::lemma_asks_more(m, 34, list0, Ask::Other(Request::Sync));
    let list1 = list0.push(Ask::Other(Request::Sync));
    assert(join_reproducibility_end_asks() == list1);
    m1
}

/// The steps of the part `end` of `test_join_reproducibility`.
proof fn lemma_join_reproducibility_end_steps()
    ensures
        ({
            let steps = crate::categories::c15_determinism::join_reproducibility_end_steps();
            &&& steps.len() == 1
            &&& crate::stage::demands(steps[0], Request::Sync)
        }),
{
}

/// In a run of `test_join_reproducibility` that passes the device is asked this, in this order, and
/// nothing else: each request about what an earlier one made is about that, and about what was
/// uploaded for it.
pub proof fn law_join_reproducibility_asks_about_what_it_made(answers: Seq<Answer>)
    requires
        crate::stage::passes(
            crate::script::plan(
                "test_join_reproducibility",
                crate::categories::c15_determinism::join_reproducibility_steps(),
            ),
            answers,
        ),
    ensures
        crate::stage::asks(
            crate::script::plan(
                "test_join_reproducibility",
                crate::categories::c15_determinism::join_reproducibility_steps(),
            ),
            answers,
            0,
            join_reproducibility_first_1_asks(),
        ),
        crate::stage::asks(
            crate::script::plan(
                "test_join_reproducibility",
                crate::categories::c15_determinism::join_reproducibility_steps(),
            ),
            answers,
            4,
            join_reproducibility_first_2_asks(),
        ),
        forall|k: int|
            0 <= k < 4 ==> crate::stage::asks(
                crate::script::plan(
                    "test_join_reproducibility",
                    crate::categories::c15_determinism::join_reproducibility_steps(),
                ),
                answers,
                6 + 7 * k,
                #[trigger] join_reproducibility_repeats_1_asks(k),
            ),
        forall|k: int|
            0 <= k < 4 ==> crate::stage::asks(
                crate::script::plan(
                    "test_join_reproducibility",
                    crate::categories::c15_determinism::join_reproducibility_steps(),
                ),
                answers,
                11 + 7 * k,
                #[trigger] join_reproducibility_repeats_2_asks(k),
            ),
        crate::stage::asks(
            crate::script::plan(
                "test_join_reproducibility",
                crate::categories::c15_determinism::join_reproducibility_steps(),
            ),
            answers,
            34,
            join_reproducibility_end_asks(),
        ),
        crate::stage::asked(
            crate::script::plan(
                "test_join_reproducibility",
                crate::categories::c15_determinism::join_reproducibility_steps(),
            ),
            answers,
            35,
        ) is None,
{
    let plan = crate::script::plan(
        "test_join_reproducibility",
        crate::categories::c15_determinism::join_reproducibility_steps(),
    );
    let part1 = crate::categories::c15_determinism::join_reproducibility_first_steps();
    lemma_join_reproducibility_first_steps();
    let round2 = |k: int| crate::categories::c15_determinism::join_reproducibility_repeats_round(
        k as u64,
    );
    let part2 = crate::script::rounds(4, round2);
    assert forall|k: int| 0 <= k < 4 implies (#[trigger] round2(k)).len() == 11 by {
        lemma_join_reproducibility_repeats_steps(k);
    }
    crate::stage::lemma_rounds_length(4, round2, 11);
    let part3 = crate::categories::c15_determinism::join_reproducibility_end_steps();
    lemma_join_reproducibility_end_steps();
    let whole1 = part1;
    let whole2 = whole1 + part2;
    let whole3 = whole2 + part3;
    assert(plan.steps == whole3);
    let m0 = crate::stage::lemma_start(plan, answers);
    assert forall|j: int| 0 <= j < 10 implies plan.steps[0 + j] == #[trigger] part1[j] by {}
    let m1 = lemma_join_reproducibility_first_1(m0, part1);
    let m2 = lemma_join_reproducibility_first_2(m1, part1);
    assert forall|j: int| 0 <= j < 44 implies plan.steps[10 + j] == #[trigger] part2[j] by {}
    let m3 = lemma_join_reproducibility_repeats_rounds(m2, part2, 4);
    assert forall|j: int| 0 <= j < 1 implies plan.steps[54 + j] == #[trigger] part3[j] by {}
    let m4 = lemma_join_reproducibility_end(m3, part3);
    crate::stage::lemma_end(m4);
}

} // verus!
