//! What these tests ask the device in runs that pass: `test_dedup_reproducibility`,
//! `test_stable_sort_order`.

use vstd::prelude::*;
use crate::expr::{differs, ix, modulo, num, over, plus, reg, times};
use crate::machine::Answer;
use crate::scalar::Scalar;
use crate::script::{Layout, Request, Step};
use crate::stage::{Ask, Moment, Thing};

verus! {

/// A buffer that is uploaded in the part `first` of `test_dedup_reproducibility`.
pub open spec fn dedup_reproducibility_first_table1() -> Thing {
    Thing::Table {
        layout: Layout::KeyVal,
        scalar: Scalar::U32,
        columns: seq![
            crate::stage::column(10000, |i: int| i % 1000),
            crate::stage::column(10000, |i: int| i),
        ],
        turn: 0,
    }
}

/// What is left without duplicates in the part `first` of `test_dedup_reproducibility`.
pub open spec fn dedup_reproducibility_first_unique1() -> Thing {
    Thing::Unique { of: Box::new(dedup_reproducibility_first_table1()), turn: 1 }
}

/// What the device is asked in the part `first` of `test_dedup_reproducibility`.
pub open spec fn dedup_reproducibility_first_asks() -> Seq<Ask> {
    seq![
        Ask::Make(dedup_reproducibility_first_table1()),
        Ask::Make(dedup_reproducibility_first_unique1()),
        Ask::Words { of: dedup_reproducibility_first_unique1(), column: 0, scalar: Scalar::U32 },
    ]
}

/// The part `first` of `test_dedup_reproducibility` asks what it should.
proof fn lemma_dedup_reproducibility_first(m: Moment, steps: Seq<Step>) -> (n: Moment)
    requires
        m.holds(),
        m.at == 0,
        m.used == 0,
        0 + 7 <= m.plan.steps.len(),
        forall|j: int| 0 <= j < 7 ==> m.plan.steps[0 + j] == #[trigger] steps[j],
        crate::stage::fills(steps[0], 0, num(10000), modulo(ix(), num(1000))),
        crate::stage::fills(steps[1], 1, num(10000), ix()),
        crate::stage::demands(
            steps[2],
            Request::Create { into: 0, layout: Layout::KeyVal, scalar: Scalar::U32, from: 0 },
        ),
        crate::stage::demands(steps[3], Request::Dedup { of: 0, into: 1 }),
        crate::stage::demands(
            steps[4],
            Request::Download { of: 1, column: 0, scalar: Scalar::U32, into: 2 },
        ),
        crate::stage::looks(steps[5]),
        crate::stage::looks(steps[6]),
    ensures
        n.holds(),
        n.plan == m.plan,
        n.answers == m.answers,
        n.at == 0 + 7,
        n.used == m.used + 3,
        n.scene.buffer(0) == dedup_reproducibility_first_table1(),
        n.scene.buffer(1) == dedup_reproducibility_first_unique1(),
        crate::stage::asks(m.plan, m.answers, 0, dedup_reproducibility_first_asks()),
{
    crate::stage::lemma_full(m);
    crate::stage::lemma_asks_none(m, 0);
    let list0 = Seq::<Ask>::empty();
    let words1 = crate::stage::column(10000, |i: int| i % 1000);
    let word1 = modulo(ix(), num(1000));
    assert forall|i: int| 0 <= i < words1.len() implies crate::stage::meaning(
        word1,
        m.contents,
        i,
    ) as u64 == #[trigger] words1[i] by {
        reveal_with_fuel(crate::stage::meaning, 3);
    }
    let m1 = crate::stage::lemma_filled(m, steps[0], 0, num(10000), word1, words1);
    let words2 = crate::stage::column(10000, |i: int| i);
    let word2 = ix();
    assert forall|i: int| 0 <= i < words2.len() implies crate::stage::meaning(
        word2,
        m1.contents,
        i,
    ) as u64 == #[trigger] words2[i] by {
        reveal_with_fuel(crate::stage::meaning, 1);
    }
    let m2 = crate::stage::lemma_filled(m1, steps[1], 1, num(10000), word2, words2);
    let m3 = crate::stage::lemma_create(
        m2,
        steps[2],
        0,
        Layout::KeyVal,
        Scalar::U32,
        0,
        dedup_reproducibility_first_table1(),
    );
    crate::stage::lemma_asks_more(m, 0, list0, Ask::Make(dedup_reproducibility_first_table1()));
    let list1 = list0.push(Ask::Make(dedup_reproducibility_first_table1()));
    let m4 = crate::stage::lemma_dedup(
        m3,
        steps[3],
        0,
        1,
        dedup_reproducibility_first_table1(),
        dedup_reproducibility_first_unique1(),
    );
    crate::stage::lemma_asks_more(m, 0, list1, Ask::Make(dedup_reproducibility_first_unique1()));
    let list2 = list1.push(Ask::Make(dedup_reproducibility_first_unique1()));
    let m5 = crate::stage::lemma_download(
        m4,
        steps[4],
        1,
        0,
        Scalar::U32,
        2,
        dedup_reproducibility_first_unique1(),
    );
    crate::stage::lemma_asks_more(
        m,
        0,
        list2,
        Ask::Words { of: dedup_reproducibility_first_unique1(), column: 0, scalar: Scalar::U32 },
    );
    let list3 = list2.push(
        Ask::Words { of: dedup_reproducibility_first_unique1(), column: 0, scalar: Scalar::U32 },
    );
    let m6 = crate::stage::lemma_look(m5, steps[5]);
    let m7 = crate::stage::lemma_look(m6, steps[6]);
    assert(dedup_reproducibility_first_asks() == list3);
    m7
}

/// The steps of the part `first` of `test_dedup_reproducibility`.
proof fn lemma_dedup_reproducibility_first_steps()
    ensures
        ({
            let steps = crate::categories::c15_determinism::dedup_reproducibility_first_steps();
            &&& steps.len() == 7
            &&& crate::stage::fills(steps[0], 0, num(10000), modulo(ix(), num(1000)))
            &&& crate::stage::fills(steps[1], 1, num(10000), ix())
            &&& crate::stage::demands(
                steps[2],
                Request::Create { into: 0, layout: Layout::KeyVal, scalar: Scalar::U32, from: 0 },
            )
            &&& crate::stage::demands(steps[3], Request::Dedup { of: 0, into: 1 })
            &&& crate::stage::demands(
                steps[4],
                Request::Download { of: 1, column: 0, scalar: Scalar::U32, into: 2 },
            )
            &&& crate::stage::looks(steps[5])
            &&& crate::stage::looks(steps[6])
        }),
{
}

/// What the device is asked in piece 1 of round `k` of the part `repeats` of
/// `test_dedup_reproducibility`.
pub open spec fn dedup_reproducibility_repeats_1_asks(k: int) -> Seq<Ask> {
    let unique1 = Thing::Unique {
        of: Box::new(dedup_reproducibility_first_table1()),
        turn: 3 + 5 * k,
    };
    seq![
        Ask::Make(unique1),
        Ask::Rows(unique1),
        Ask::Rows(dedup_reproducibility_first_unique1()),
        Ask::Words { of: unique1, column: 0, scalar: Scalar::U32 },
    ]
}

/// Piece 1 of round `k` of the part `repeats` of `test_dedup_reproducibility` asks what it should.
proof fn lemma_dedup_reproducibility_repeats_1(m: Moment, steps: Seq<Step>, k: int) -> (n: Moment)
    requires
        0 <= k < 4,
        m.holds(),
        m.at == 7 + 9 * k,
        m.used == 3 + 5 * k,
        7 + 9 * k + 9 <= m.plan.steps.len(),
        forall|j: int| 0 <= j < 9 ==> m.plan.steps[7 + 9 * k + j] == #[trigger] steps[j],
        crate::stage::demands(steps[0], Request::Dedup { of: 0, into: 2 }),
        crate::stage::inquires(steps[1], Request::Rows { of: 2, into: 0 }),
        crate::stage::inquires(steps[2], Request::Rows { of: 1, into: 1 }),
        crate::stage::guards(steps[3], differs(reg(0), reg(1))),
        crate::walk::straight(steps[3]),
        crate::stage::inquires(crate::stage::bare(steps[3]), Request::Rows { of: 2, into: 2 }),
        crate::stage::guards(steps[4], differs(reg(0), reg(1))),
        crate::walk::straight(steps[4]),
        crate::stage::inquires(crate::stage::bare(steps[4]), Request::Rows { of: 1, into: 3 }),
        crate::stage::looks(steps[5]),
        crate::stage::checks(steps[5], differs(reg(0), reg(1))),
        crate::stage::demands(
            steps[6],
            Request::Download { of: 2, column: 0, scalar: Scalar::U32, into: 3 },
        ),
        crate::stage::looks(steps[7]),
        m.scene.buffer(0) == dedup_reproducibility_first_table1(),
        m.scene.buffer(1) == dedup_reproducibility_first_unique1(),
    ensures
        n.holds(),
        n.plan == m.plan,
        n.answers == m.answers,
        n.at == 7 + 9 * k + 8,
        n.used == m.used + 4,
        n.scene.buffer(0) == dedup_reproducibility_first_table1(),
        n.scene.buffer(1) == dedup_reproducibility_first_unique1(),
        crate::stage::asks(m.plan, m.answers, 3 + 5 * k, dedup_reproducibility_repeats_1_asks(k)),
{
    crate::stage::lemma_full(m);
    crate::stage::lemma_asks_none(m, 3 + 5 * k);
    let list0 = Seq::<Ask>::empty();
    let unique1 = Thing::Unique {
        of: Box::new(dedup_reproducibility_first_table1()),
        turn: 3 + 5 * k,
    };
    let m1 = crate::stage::lemma_dedup(
        m,
        steps[0],
        0,
        2,
        dedup_reproducibility_first_table1(),
        unique1,
    );
    crate::stage::lemma_asks_more(m, 3 + 5 * k, list0, Ask::Make(unique1));
    let list1 = list0.push(Ask::Make(unique1));
    let m2 = crate::stage::lemma_rows(m1, steps[1], 2, 0, unique1);
    crate::stage::lemma_asks_more(m, 3 + 5 * k, list1, Ask::Rows(unique1));
    let list2 = list1.push(Ask::Rows(unique1));
    let m3 = crate::stage::lemma_rows(m2, steps[2], 1, 1, dedup_reproducibility_first_unique1());
    crate::stage::lemma_asks_more(
        m,
        3 + 5 * k,
        list2,
        Ask::Rows(dedup_reproducibility_first_unique1()),
    );
    let list3 = list2.push(Ask::Rows(dedup_reproducibility_first_unique1()));
    if crate::stage::meaning(differs(reg(0), reg(1)), m3.contents, 0) != 0 {
        reveal_with_fuel(crate::stage::meaning, 4);
        crate::stage::lemma_guard(m3, steps[3], differs(reg(0), reg(1)), true);
        let first = crate::stage::lemma_rows(m3, steps[3], 2, 2, m3.scene.buffer(2));
        crate::stage::lemma_guard(first, steps[4], differs(reg(0), reg(1)), true);
        let second = crate::stage::lemma_rows(first, steps[4], 1, 3, first.scene.buffer(1));
        crate::stage::lemma_refute(second, steps[5], differs(reg(0), reg(1)));
    }
    crate::stage::lemma_guard(m3, steps[3], differs(reg(0), reg(1)), false);
    let m4 = crate::stage::lemma_skipped(m3, steps[3]);
    crate::stage::lemma_guard(m4, steps[4], differs(reg(0), reg(1)), false);
    let m5 = crate::stage::lemma_skipped(m4, steps[4]);
    let m6 = crate::stage::lemma_look(m5, steps[5]);
    let m7 = crate::stage::lemma_download(m6, steps[6], 2, 0, Scalar::U32, 3, unique1);
    crate::stage::lemma_asks_more(
        m,
        3 + 5 * k,
        list3,
        Ask::Words { of: unique1, column: 0, scalar: Scalar::U32 },
    );
    let list4 = list3.push(Ask::Words { of: unique1, column: 0, scalar: Scalar::U32 });
    let m8 = crate::stage::lemma_look(m7, steps[7]);
    assert(dedup_reproducibility_repeats_1_asks(k) == list4);
    m8
}

/// What the device is asked in piece 2 of round `k` of the part `repeats` of
/// `test_dedup_reproducibility`.
pub open spec fn dedup_reproducibility_repeats_2_asks(k: int) -> Seq<Ask> {
    seq![Ask::Other(Request::Release { from: 2 })]
}

/// Piece 2 of round `k` of the part `repeats` of `test_dedup_reproducibility` asks what it should.
proof fn lemma_dedup_reproducibility_repeats_2(m: Moment, steps: Seq<Step>, k: int) -> (n: Moment)
    requires
        0 <= k < 4,
        m.holds(),
        m.at == 7 + 9 * k + 8,
        m.used == 7 + 5 * k,
        7 + 9 * k + 9 <= m.plan.steps.len(),
        forall|j: int| 0 <= j < 9 ==> m.plan.steps[7 + 9 * k + j] == #[trigger] steps[j],
        crate::stage::inquires(steps[8], Request::Release { from: 2 }),
        m.scene.buffer(0) == dedup_reproducibility_first_table1(),
        m.scene.buffer(1) == dedup_reproducibility_first_unique1(),
    ensures
        n.holds(),
        n.plan == m.plan,
        n.answers == m.answers,
        n.at == 7 + 9 * k + 9,
        n.used == m.used + 1,
        n.scene.buffer(0) == dedup_reproducibility_first_table1(),
        n.scene.buffer(1) == dedup_reproducibility_first_unique1(),
        crate::stage::asks(m.plan, m.answers, 7 + 5 * k, dedup_reproducibility_repeats_2_asks(k)),
{
    crate::stage::lemma_full(m);
    crate::stage::lemma_asks_none(m, 7 + 5 * k);
    let list0 = Seq::<Ask>::empty();
    let m1 = crate::stage::lemma_release(m, steps[8], 2);
    crate::stage::lemma_asks_more(m, 7 + 5 * k, list0, Ask::Other(Request::Release { from: 2 }));
    let list1 = list0.push(Ask::Other(Request::Release { from: 2 }));
    assert(dedup_reproducibility_repeats_2_asks(k) == list1);
    m1
}

/// The steps of the part `repeats` of `test_dedup_reproducibility`.
proof fn lemma_dedup_reproducibility_repeats_steps(k: int)
    ensures
        ({
            let steps = crate::categories::c15_determinism::dedup_reproducibility_repeats_round(
                k as u64,
            );
            &&& steps.len() == 9
            &&& crate::stage::demands(steps[0], Request::Dedup { of: 0, into: 2 })
            &&& crate::stage::inquires(steps[1], Request::Rows { of: 2, into: 0 })
            &&& crate::stage::inquires(steps[2], Request::Rows { of: 1, into: 1 })
            &&& crate::stage::guards(steps[3], differs(reg(0), reg(1)))
            &&& crate::walk::straight(steps[3])
            &&& crate::stage::inquires(
                crate::stage::bare(steps[3]),
                Request::Rows { of: 2, into: 2 },
            )
            &&& crate::stage::guards(steps[4], differs(reg(0), reg(1)))
            &&& crate::walk::straight(steps[4])
            &&& crate::stage::inquires(
                crate::stage::bare(steps[4]),
                Request::Rows { of: 1, into: 3 },
            )
            &&& crate::stage::looks(steps[5])
            &&& crate::stage::checks(steps[5], differs(reg(0), reg(1)))
            &&& crate::stage::demands(
                steps[6],
                Request::Download { of: 2, column: 0, scalar: Scalar::U32, into: 3 },
            )
            &&& crate::stage::looks(steps[7])
            &&& crate::stage::inquires(steps[8], Request::Release { from: 2 })
        }),
{
}

/// Round `k` of the part `repeats` of `test_dedup_reproducibility` asks what it should.
proof fn lemma_dedup_reproducibility_repeats_round(m: Moment, k: int) -> (n: Moment)
    requires
        0 <= k < 4,
        m.holds(),
        m.at == 7 + 9 * k,
        m.used == 3 + 5 * k,
        m.at + 9 <= m.plan.steps.len(),
        forall|j: int|
            0 <= j < 9 ==> m.plan.steps[7 + 9 * k + j] == #[trigger] crate::categories::c15_determinism::dedup_reproducibility_repeats_round(
                k as u64,
            )[j],
        m.scene.buffer(0) == dedup_reproducibility_first_table1(),
        m.scene.buffer(1) == dedup_reproducibility_first_unique1(),
    ensures
        n.holds(),
        n.plan == m.plan,
        n.answers == m.answers,
        n.at == 7 + 9 * (k + 1),
        n.used == 3 + 5 * (k + 1),
        n.scene.buffer(0) == dedup_reproducibility_first_table1(),
        n.scene.buffer(1) == dedup_reproducibility_first_unique1(),
        crate::stage::asks(m.plan, m.answers, 3 + 5 * k, dedup_reproducibility_repeats_1_asks(k)),
        crate::stage::asks(m.plan, m.answers, 7 + 5 * k, dedup_reproducibility_repeats_2_asks(k)),
{
    let steps = crate::categories::c15_determinism::dedup_reproducibility_repeats_round(k as u64);
    lemma_dedup_reproducibility_repeats_steps(k);
    let m1 = lemma_dedup_reproducibility_repeats_1(m, steps, k);
    lemma_dedup_reproducibility_repeats_2(m1, steps, k)
}

/// The first `k` rounds of the part `repeats` of `test_dedup_reproducibility` ask what they should.
proof fn lemma_dedup_reproducibility_repeats_rounds(
    m: Moment,
    part: Seq<Step>,
    k: int,
) -> (n: Moment)
    requires
        0 <= k <= 4,
        m.holds(),
        m.at == 7,
        m.used == 3 + 5 * 0,
        m.at + 36 <= m.plan.steps.len(),
        part == crate::script::rounds(
            4,
            |k: int| crate::categories::c15_determinism::dedup_reproducibility_repeats_round(
                k as u64,
            ),
        ),
        forall|j: int| 0 <= j < 36 ==> m.plan.steps[7 + j] == #[trigger] part[j],
        m.scene.buffer(0) == dedup_reproducibility_first_table1(),
        m.scene.buffer(1) == dedup_reproducibility_first_unique1(),
    ensures
        n.holds(),
        n.plan == m.plan,
        n.answers == m.answers,
        n.at == 7 + 9 * k,
        n.used == 3 + 5 * k,
        n.scene.buffer(0) == dedup_reproducibility_first_table1(),
        n.scene.buffer(1) == dedup_reproducibility_first_unique1(),
        forall|j: int|
            0 <= j < k ==> crate::stage::asks(
                m.plan,
                m.answers,
                3 + 5 * j,
                #[trigger] dedup_reproducibility_repeats_1_asks(j),
            ),
        forall|j: int|
            0 <= j < k ==> crate::stage::asks(
                m.plan,
                m.answers,
                7 + 5 * j,
                #[trigger] dedup_reproducibility_repeats_2_asks(j),
            ),
    decreases k,
{
    if k == 0 {
        m
    } else {
        let round = |k: int| crate::categories::c15_determinism::dedup_reproducibility_repeats_round(
            k as u64,
        );
        let before = lemma_dedup_reproducibility_repeats_rounds(m, part, k - 1);
        assert forall|j: int| 0 <= j < 9 implies m.plan.steps[before.at + j] == #[trigger] crate::categories::c15_determinism::dedup_reproducibility_repeats_round(
            (k - 1) as u64,
        )[j] by {
            assert forall|k: int| 0 <= k < 4 implies (#[trigger] round(k)).len() == 9 by {
                lemma_dedup_reproducibility_repeats_steps(k);
            }
            crate::stage::lemma_round_place(4, round, 9, k - 1, j);
            assert(part[(k - 1) * 9 + j] == round(k - 1)[j]);
        }
        lemma_dedup_reproducibility_repeats_round(before, k - 1)
    }
}

/// What the device is asked in piece 1 of the part `part3` of `test_dedup_reproducibility`.
pub open spec fn dedup_reproducibility_part3_1_asks() -> Seq<Ask> {
    let words1 = crate::stage::column(5000, |i: int| 42);
    let words2 = crate::stage::column(5000, |i: int| i);
    let table1 = Thing::Table {
        layout: Layout::KeyVal,
        scalar: Scalar::U32,
        columns: seq![words1, words2],
        turn: 23,
    };
    let unique1 = Thing::Unique { of: Box::new(table1), turn: 24 };
    let unique2 = Thing::Unique { of: Box::new(table1), turn: 26 };
    seq![
        Ask::Make(table1),
        Ask::Make(unique1),
        Ask::Words { of: unique1, column: 0, scalar: Scalar::U32 },
        Ask::Make(unique2),
        Ask::Words { of: unique2, column: 0, scalar: Scalar::U32 },
    ]
}

/// Piece 1 of the part `part3` of `test_dedup_reproducibility` asks what it should.
proof fn lemma_dedup_reproducibility_part3_1(m: Moment, steps: Seq<Step>) -> (n: Moment)
    requires
        m.holds(),
        m.at == 43,
        m.used == 23,
        43 + 9 <= m.plan.steps.len(),
        forall|j: int| 0 <= j < 9 ==> m.plan.steps[43 + j] == #[trigger] steps[j],
        crate::stage::fills(steps[0], 4, num(5000), num(42)),
        crate::stage::fills(steps[1], 5, num(5000), ix()),
        crate::stage::demands(
            steps[2],
            Request::Create { into: 2, layout: Layout::KeyVal, scalar: Scalar::U32, from: 4 },
        ),
        crate::stage::demands(steps[3], Request::Dedup { of: 2, into: 3 }),
        crate::stage::demands(
            steps[4],
            Request::Download { of: 3, column: 0, scalar: Scalar::U32, into: 6 },
        ),
        crate::stage::demands(steps[5], Request::Dedup { of: 2, into: 4 }),
        crate::stage::demands(
            steps[6],
            Request::Download { of: 4, column: 0, scalar: Scalar::U32, into: 7 },
        ),
        crate::stage::looks(steps[7]),
    ensures
        n.holds(),
        n.plan == m.plan,
        n.answers == m.answers,
        n.at == 43 + 8,
        n.used == m.used + 5,
        crate::stage::asks(m.plan, m.answers, 23, dedup_reproducibility_part3_1_asks()),
{
    crate::stage::lemma_full(m);
    crate::stage::lemma_asks_none(m, 23);
    let list0 = Seq::<Ask>::empty();
    let words1 = crate::stage::column(5000, |i: int| 42);
    let word1 = num(42);
    assert forall|i: int| 0 <= i < words1.len() implies crate::stage::meaning(
        word1,
        m.contents,
        i,
    ) as u64 == #[trigger] words1[i] by {
        reveal_with_fuel(crate::stage::meaning, 2);
    }
    let m1 = crate::stage::lemma_filled(m, steps[0], 4, num(5000), word1, words1);
    let words2 = crate::stage::column(5000, |i: int| i);
    let word2 = ix();
    assert forall|i: int| 0 <= i < words2.len() implies crate::stage::meaning(
        word2,
        m1.contents,
        i,
    ) as u64 == #[trigger] words2[i] by {
        reveal_with_fuel(crate::stage::meaning, 1);
    }
    let m2 = crate::stage::lemma_filled(m1, steps[1], 5, num(5000), word2, words2);
    let table1 = Thing::Table {
        layout: Layout::KeyVal,
        scalar: Scalar::U32,
        columns: seq![words1, words2],
        turn: 23,
    };
    let m3 = crate::stage::lemma_create(m2, steps[2], 2, Layout::KeyVal, Scalar::U32, 4, table1);
    crate::stage::lemma_asks_more(m, 23, list0, Ask::Make(table1));
    let list1 = list0.push(Ask::Make(table1));
    let unique1 = Thing::Unique { of: Box::new(table1), turn: 24 };
    let m4 = crate::stage::lemma_dedup(m3, steps[3], 2, 3, table1, unique1);
    crate::stage::lemma_asks_more(m, 23, list1, Ask::Make(unique1));
    let list2 = list1.push(Ask::Make(unique1));
    let m5 = crate::stage::lemma_download(m4, steps[4], 3, 0, Scalar::U32, 6, unique1);
    crate::stage::lemma_asks_more(
        m,
        23,
        list2,
        Ask::Words { of: unique1, column: 0, scalar: Scalar::U32 },
    );
    let list3 = list2.push(Ask::Words { of: unique1, column: 0, scalar: Scalar::U32 });
    let unique2 = Thing::Unique { of: Box::new(table1), turn: 26 };
    let m6 = crate::stage::lemma_dedup(m5, steps[5], 2, 4, table1, unique2);
    crate::stage::lemma_asks_more(m, 23, list3, Ask::Make(unique2));
    let list4 = list3.push(Ask::Make(unique2));
    let m7 = crate::stage::lemma_download(m6, steps[6], 4, 0, Scalar::U32, 7, unique2);
    crate::stage::lemma_asks_more(
        m,
        23,
        list4,
        Ask::Words { of: unique2, column: 0, scalar: Scalar::U32 },
    );
    let list5 = list4.push(Ask::Words { of: unique2, column: 0, scalar: Scalar::U32 });
    let m8 = crate::stage::lemma_look(m7, steps[7]);
    assert(dedup_reproducibility_part3_1_asks() == list5);
    m8
}

/// What the device is asked in piece 2 of the part `part3` of `test_dedup_reproducibility`.
pub open spec fn dedup_reproducibility_part3_2_asks() -> Seq<Ask> {
    seq![Ask::Other(Request::Release { from: 2 })]
}

/// Piece 2 of the part `part3` of `test_dedup_reproducibility` asks what it should.
proof fn lemma_dedup_reproducibility_part3_2(m: Moment, steps: Seq<Step>) -> (n: Moment)
    requires
        m.holds(),
        m.at == 43 + 8,
        m.used == 28,
        43 + 9 <= m.plan.steps.len(),
        forall|j: int| 0 <= j < 9 ==> m.plan.steps[43 + j] == #[trigger] steps[j],
        crate::stage::inquires(steps[8], Request::Release { from: 2 }),
    ensures
        n.holds(),
        n.plan == m.plan,
        n.answers == m.answers,
        n.at == 43 + 9,
        n.used == m.used + 1,
        crate::stage::asks(m.plan, m.answers, 28, dedup_reproducibility_part3_2_asks()),
{
    crate::stage::lemma_full(m);
    crate::stage::lemma_asks_none(m, 28);
    let list0 = Seq::<Ask>::empty();
    let m1 = crate::stage::lemma_release(m, steps[8], 2);
    crate::stage::lemma_asks_more(m, 28, list0, Ask::Other(Request::Release { from: 2 }));
    let list1 = list0.push(Ask::Other(Request::Release { from: 2 }));
    assert(dedup_reproducibility_part3_2_asks() == list1);
    m1
}

/// The steps of the part `part3` of `test_dedup_reproducibility`.
proof fn lemma_dedup_reproducibility_part3_steps()
    ensures
        ({
            let steps = crate::categories::c15_determinism::repeated_dedup_steps(
                "all_same",
                num(42),
            );
            &&& steps.len() == 9
            &&& crate::stage::fills(steps[0], 4, num(5000), num(42))
            &&& crate::stage::fills(steps[1], 5, num(5000), ix())
            &&& crate::stage::demands(
                steps[2],
                Request::Create { into: 2, layout: Layout::KeyVal, scalar: Scalar::U32, from: 4 },
            )
            &&& crate::stage::demands(steps[3], Request::Dedup { of: 2, into: 3 })
            &&& crate::stage::demands(
                steps[4],
                Request::Download { of: 3, column: 0, scalar: Scalar::U32, into: 6 },
            )
            &&& crate::stage::demands(steps[5], Request::Dedup { of: 2, into: 4 })
            &&& crate::stage::demands(
                steps[6],
                Request::Download { of: 4, column: 0, scalar: Scalar::U32, into: 7 },
            )
            &&& crate::stage::looks(steps[7])
            &&& crate::stage::inquires(steps[8], Request::Release { from: 2 })
        }),
{
}

/// What the device is asked in piece 1 of the part `part4` of `test_dedup_reproducibility`.
pub open spec fn dedup_reproducibility_part4_1_asks() -> Seq<Ask> {
    let words1 = crate::stage::column(5000, |i: int| i / 2);
    let words2 = crate::stage::column(5000, |i: int| i);
    let table1 = Thing::Table {
        layout: Layout::KeyVal,
        scalar: Scalar::U32,
        columns: seq![words1, words2],
        turn: 29,
    };
    let unique1 = Thing::Unique { of: Box::new(table1), turn: 30 };
    let unique2 = Thing::Unique { of: Box::new(table1), turn: 32 };
    seq![
        Ask::Make(table1),
        Ask::Make(unique1),
        Ask::Words { of: unique1, column: 0, scalar: Scalar::U32 },
        Ask::Make(unique2),
        Ask::Words { of: unique2, column: 0, scalar: Scalar::U32 },
    ]
}

/// Piece 1 of the part `part4` of `test_dedup_reproducibility` asks what it should.
proof fn lemma_dedup_reproducibility_part4_1(m: Moment, steps: Seq<Step>) -> (n: Moment)
    requires
        m.holds(),
        m.at == 52,
        m.used == 29,
        52 + 9 <= m.plan.steps.len(),
        forall|j: int| 0 <= j < 9 ==> m.plan.steps[52 + j] == #[trigger] steps[j],
        crate::stage::fills(steps[0], 4, num(5000), over(ix(), num(2))),
        crate::stage::fills(steps[1], 5, num(5000), ix()),
        crate::stage::demands(
            steps[2],
            Request::Create { into: 2, layout: Layout::KeyVal, scalar: Scalar::U32, from: 4 },
        ),
        crate::stage::demands(steps[3], Request::Dedup { of: 2, into: 3 }),
        crate::stage::demands(
            steps[4],
            Request::Download { of: 3, column: 0, scalar: Scalar::U32, into: 6 },
        ),
        crate::stage::demands(steps[5], Request::Dedup { of: 2, into: 4 }),
        crate::stage::demands(
            steps[6],
            Request::Download { of: 4, column: 0, scalar: Scalar::U32, into: 7 },
        ),
        crate::stage::looks(steps[7]),
    ensures
        n.holds(),
        n.plan == m.plan,
        n.answers == m.answers,
        n.at == 52 + 8,
        n.used == m.used + 5,
        crate::stage::asks(m.plan, m.answers, 29, dedup_reproducibility_part4_1_asks()),
{
    crate::stage::lemma_full(m);
    crate::stage::lemma_asks_none(m, 29);
    let list0 = Seq::<Ask>::empty();
    let words1 = crate::stage::column(5000, |i: int| i / 2);
    let word1 = over(ix(), num(2));
    assert forall|i: int| 0 <= i < words1.len() implies crate::stage::meaning(
        word1,
        m.contents,
        i,
    ) as u64 == #[trigger] words1[i] by {
        reveal_with_fuel(crate::stage::meaning, 3);
    }
    let m1 = crate::stage::lemma_filled(m, steps[0], 4, num(5000), word1, words1);
    let words2 = crate::stage::column(5000, |i: int| i);
    let word2 = ix();
    assert forall|i: int| 0 <= i < words2.len() implies crate::stage::meaning(
        word2,
        m1.contents,
        i,
    ) as u64 == #[trigger] words2[i] by {
        reveal_with_fuel(crate::stage::meaning, 1);
    }
    let m2 = crate::stage::lemma_filled(m1, steps[1], 5, num(5000), word2, words2);
    let table1 = Thing::Table {
        layout: Layout::KeyVal,
        scalar: Scalar::U32,
        columns: seq![words1, words2],
        turn: 29,
    };
    let m3 = crate::stage::lemma_create(m2, steps[2], 2, Layout::KeyVal, Scalar::U32, 4, table1);
    crate::stage::lemma_asks_more(m, 29, list0, Ask::Make(table1));
    let list1 = list0.push(Ask::Make(table1));
    let unique1 = Thing::Unique { of: Box::new(table1), turn: 30 };
    let m4 = crate::stage::lemma_dedup(m3, steps[3], 2, 3, table1, unique1);
    crate::stage::lemma_asks_more(m, 29, list1, Ask::Make(unique1));
    let list2 = list1.push(Ask::Make(unique1));
    let m5 = crate::stage::lemma_download(m4, steps[4], 3, 0, Scalar::U32, 6, unique1);
    crate::stage::lemma_asks_more(
        m,
        29,
        list2,
        Ask::Words { of: unique1, column: 0, scalar: Scalar::U32 },
    );
    let list3 = list2.push(Ask::Words { of: unique1, column: 0, scalar: Scalar::U32 });
    let unique2 = Thing::Unique { of: Box::new(table1), turn: 32 };
    let m6 = crate::stage::lemma_dedup(m5, steps[5], 2, 4, table1, unique2);
    crate::stage::lemma_asks_more(m, 29, list3, Ask::Make(unique2));
    let list4 = list3.push(Ask::Make(unique2));
    let m7 = crate::stage::lemma_download(m6, steps[6], 4, 0, Scalar::U32, 7, unique2);
    crate::stage::lemma_asks_more(
        m,
        29,
        list4,
        Ask::Words { of: unique2, column: 0, scalar: Scalar::U32 },
    );
    let list5 = list4.push(Ask::Words { of: unique2, column: 0, scalar: Scalar::U32 });
    let m8 = crate::stage::lemma_look(m7, steps[7]);
    assert(dedup_reproducibility_part4_1_asks() == list5);
    m8
}

/// What the device is asked in piece 2 of the part `part4` of `test_dedup_reproducibility`.
pub open spec fn dedup_reproducibility_part4_2_asks() -> Seq<Ask> {
    seq![Ask::Other(Request::Release { from: 2 })]
}

/// Piece 2 of the part `part4` of `test_dedup_reproducibility` asks what it should.
proof fn lemma_dedup_reproducibility_part4_2(m: Moment, steps: Seq<Step>) -> (n: Moment)
    requires
        m.holds(),
        m.at == 52 + 8,
        m.used == 34,
        52 + 9 <= m.plan.steps.len(),
        forall|j: int| 0 <= j < 9 ==> m.plan.steps[52 + j] == #[trigger] steps[j],
        crate::stage::inquires(steps[8], Request::Release { from: 2 }),
    ensures
        n.holds(),
        n.plan == m.plan,
        n.answers == m.answers,
        n.at == 52 + 9,
        n.used == m.used + 1,
        crate::stage::asks(m.plan, m.answers, 34, dedup_reproducibility_part4_2_asks()),
{
    crate::stage::lemma_full(m);
    crate::stage::lemma_asks_none(m, 34);
    let list0 = Seq::<Ask>::empty();
    let m1 = crate::stage::lemma_release(m, steps[8], 2);
    crate::stage::lemma_asks_more(m, 34, list0, Ask::Other(Request::Release { from: 2 }));
    let list1 = list0.push(Ask::Other(Request::Release { from: 2 }));
    assert(dedup_reproducibility_part4_2_asks() == list1);
    m1
}

/// The steps of the part `part4` of `test_dedup_reproducibility`.
proof fn lemma_dedup_reproducibility_part4_steps()
    ensures
        ({
            let steps = crate::categories::c15_determinism::repeated_dedup_steps(
                "pairs",
                over(ix(), num(2)),
            );
            &&& steps.len() == 9
            &&& crate::stage::fills(steps[0], 4, num(5000), over(ix(), num(2)))
            &&& crate::stage::fills(steps[1], 5, num(5000), ix())
            &&& crate::stage::demands(
                steps[2],
                Request::Create { into: 2, layout: Layout::KeyVal, scalar: Scalar::U32, from: 4 },
            )
            &&& crate::stage::demands(steps[3], Request::Dedup { of: 2, into: 3 })
            &&& crate::stage::demands(
                steps[4],
                Request::Download { of: 3, column: 0, scalar: Scalar::U32, into: 6 },
            )
            &&& crate::stage::demands(steps[5], Request::Dedup { of: 2, into: 4 })
            &&& crate::stage::demands(
                steps[6],
                Request::Download { of: 4, column: 0, scalar: Scalar::U32, into: 7 },
            )
            &&& crate::stage::looks(steps[7])
            &&& crate::stage::inquires(steps[8], Request::Release { from: 2 })
        }),
{
}

/// What the device is asked in piece 1 of the part `part5` of `test_dedup_reproducibility`.
pub open spec fn dedup_reproducibility_part5_1_asks() -> Seq<Ask> {
    let words1 = crate::stage::column(5000, |i: int| ((i * 1103515245) + 12345) % 500);
    let words2 = crate::stage::column(5000, |i: int| i);
    let table1 = Thing::Table {
        layout: Layout::KeyVal,
        scalar: Scalar::U32,
        columns: seq![words1, words2],
        turn: 35,
    };
    let unique1 = Thing::Unique { of: Box::new(table1), turn: 36 };
    let unique2 = Thing::Unique { of: Box::new(table1), turn: 38 };
    seq![
        Ask::Make(table1),
        Ask::Make(unique1),
        Ask::Words { of: unique1, column: 0, scalar: Scalar::U32 },
        Ask::Make(unique2),
        Ask::Words { of: unique2, column: 0, scalar: Scalar::U32 },
    ]
}

/// Piece 1 of the part `part5` of `test_dedup_reproducibility` asks what it should.
proof fn lemma_dedup_reproducibility_part5_1(m: Moment, steps: Seq<Step>) -> (n: Moment)
    requires
        m.holds(),
        m.at == 61,
        m.used == 35,
        61 + 9 <= m.plan.steps.len(),
        forall|j: int| 0 <= j < 9 ==> m.plan.steps[61 + j] == #[trigger] steps[j],
        crate::stage::fills(
            steps[0],
            4,
            num(5000),
            modulo(plus(times(ix(), num(1103515245)), num(12345)), num(500)),
        ),
        crate::stage::fills(steps[1], 5, num(5000), ix()),
        crate::stage::demands(
            steps[2],
            Request::Create { into: 2, layout: Layout::KeyVal, scalar: Scalar::U32, from: 4 },
        ),
        crate::stage::demands(steps[3], Request::Dedup { of: 2, into: 3 }),
        crate::stage::demands(
            steps[4],
            Request::Download { of: 3, column: 0, scalar: Scalar::U32, into: 6 },
        ),
        crate::stage::demands(steps[5], Request::Dedup { of: 2, into: 4 }),
        crate::stage::demands(
            steps[6],
            Request::Download { of: 4, column: 0, scalar: Scalar::U32, into: 7 },
        ),
        crate::stage::looks(steps[7]),
    ensures
        n.holds(),
        n.plan == m.plan,
        n.answers == m.answers,
        n.at == 61 + 8,
        n.used == m.used + 5,
        crate::stage::asks(m.plan, m.answers, 35, dedup_reproducibility_part5_1_asks()),
{
    crate::stage::lemma_full(m);
    crate::stage::lemma_asks_none(m, 35);
    let list0 = Seq::<Ask>::empty();
    let words1 = crate::stage::column(5000, |i: int| ((i * 1103515245) + 12345) % 500);
    let word1 = modulo(plus(times(ix(), num(1103515245)), num(12345)), num(500));
    assert forall|i: int| 0 <= i < words1.len() implies crate::stage::meaning(
        word1,
        m.contents,
        i,
    ) as u64 == #[trigger] words1[i] by {
        reveal_with_fuel(crate::stage::meaning, 5);
    }
    let m1 = crate::stage::lemma_filled(m, steps[0], 4, num(5000), word1, words1);
    let words2 = crate::stage::column(5000, |i: int| i);
    let word2 = ix();
    assert forall|i: int| 0 <= i < words2.len() implies crate::stage::meaning(
        word2,
        m1.contents,
        i,
    ) as u64 == #[trigger] words2[i] by {
        reveal_with_fuel(crate::stage::meaning, 1);
    }
    let m2 = crate::stage::lemma_filled(m1, steps[1], 5, num(5000), word2, words2);
    let table1 = Thing::Table {
        layout: Layout::KeyVal,
        scalar: Scalar::U32,
        columns: seq![words1, words2],
        turn: 35,
    };
    let m3 = crate::stage::lemma_create(m2, steps[2], 2, Layout::KeyVal, Scalar::U32, 4, table1);
    crate::stage::lemma_asks_more(m, 35, list0, Ask::Make(table1));
    let list1 = list0.push(Ask::Make(table1));
    let unique1 = Thing::Unique { of: Box::new(table1), turn: 36 };
    let m4 = crate::stage::lemma_dedup(m3, steps[3], 2, 3, table1, unique1);
    crate::stage::lemma_asks_more(m, 35, list1, Ask::Make(unique1));
    let list2 = list1.push(Ask::Make(unique1));
    let m5 = crate::stage::lemma_download(m4, steps[4], 3, 0, Scalar::U32, 6, unique1);
    crate::stage::lemma_asks_more(
        m,
        35,
        list2,
        Ask::Words { of: unique1, column: 0, scalar: Scalar::U32 },
    );
    let list3 = list2.push(Ask::Words { of: unique1, column: 0, scalar: Scalar::U32 });
    let unique2 = Thing::Unique { of: Box::new(table1), turn: 38 };
    let m6 = crate::stage::lemma_dedup(m5, steps[5], 2, 4, table1, unique2);
    crate::stage::lemma_asks_more(m, 35, list3, Ask::Make(unique2));
    let list4 = list3.push(Ask::Make(unique2));
    let m7 = crate::stage::lemma_download(m6, steps[6], 4, 0, Scalar::U32, 7, unique2);
    crate::stage::lemma_asks_more(
        m,
        35,
        list4,
        Ask::Words { of: unique2, column: 0, scalar: Scalar::U32 },
    );
    let list5 = list4.push(Ask::Words { of: unique2, column: 0, scalar: Scalar::U32 });
    let m8 = crate::stage::lemma_look(m7, steps[7]);
    assert(dedup_reproducibility_part5_1_asks() == list5);
    m8
}

/// What the device is asked in piece 2 of the part `part5` of `test_dedup_reproducibility`.
pub open spec fn dedup_reproducibility_part5_2_asks() -> Seq<Ask> {
    seq![Ask::Other(Request::Release { from: 2 })]
}

/// Piece 2 of the part `part5` of `test_dedup_reproducibility` asks what it should.
proof fn lemma_dedup_reproducibility_part5_2(m: Moment, steps: Seq<Step>) -> (n: Moment)
    requires
        m.holds(),
        m.at == 61 + 8,
        m.used == 40,
        61 + 9 <= m.plan.steps.len(),
        forall|j: int| 0 <= j < 9 ==> m.plan.steps[61 + j] == #[trigger] steps[j],
        crate::stage::inquires(steps[8], Request::Release { from: 2 }),
    ensures
        n.holds(),
        n.plan == m.plan,
        n.answers == m.answers,
        n.at == 61 + 9,
        n.used == m.used + 1,
        crate::stage::asks(m.plan, m.answers, 40, dedup_reproducibility_part5_2_asks()),
{
    crate::stage::lemma_full(m);
    crate::stage::lemma_asks_none(m, 40);
    let list0 = Seq::<Ask>::empty();
    let m1 = crate::stage::lemma_release(m, steps[8], 2);
    crate::stage::lemma_asks_more(m, 40, list0, Ask::Other(Request::Release { from: 2 }));
    let list1 = list0.push(Ask::Other(Request::Release { from: 2 }));
    assert(dedup_reproducibility_part5_2_asks() == list1);
    m1
}

/// The steps of the part `part5` of `test_dedup_reproducibility`.
proof fn lemma_dedup_reproducibility_part5_steps()
    ensures
        ({
            let steps = crate::categories::c15_determinism::repeated_dedup_steps(
                "random_dups",
                modulo(plus(times(ix(), num(1103515245)), num(12345)), num(500)),
            );
            &&& steps.len() == 9
            &&& crate::stage::fills(
                steps[0],
                4,
                num(5000),
                modulo(plus(times(ix(), num(1103515245)), num(12345)), num(500)),
            )
            &&& crate::stage::fills(steps[1], 5, num(5000), ix())
            &&& crate::stage::demands(
                steps[2],
                Request::Create { into: 2, layout: Layout::KeyVal, scalar: Scalar::U32, from: 4 },
            )
            &&& crate::stage::demands(steps[3], Request::Dedup { of: 2, into: 3 })
            &&& crate::stage::demands(
                steps[4],
                Request::Download { of: 3, column: 0, scalar: Scalar::U32, into: 6 },
            )
            &&& crate::stage::demands(steps[5], Request::Dedup { of: 2, into: 4 })
            &&& crate::stage::demands(
                steps[6],
                Request::Download { of: 4, column: 0, scalar: Scalar::U32, into: 7 },
            )
            &&& crate::stage::looks(steps[7])
            &&& crate::stage::inquires(steps[8], Request::Release { from: 2 })
        }),
{
}

/// What the device is asked in the part `end` of `test_dedup_reproducibility`.
pub open spec fn dedup_reproducibility_end_asks() -> Seq<Ask> {
    seq![Ask::Other(Request::Sync)]
}

/// The part `end` of `test_dedup_reproducibility` asks what it should.
proof fn lemma_dedup_reproducibility_end(m: Moment, steps: Seq<Step>) -> (n: Moment)
    requires
        m.holds(),
        m.at == 70,
        m.used == 41,
        70 + 1 <= m.plan.steps.len(),
        forall|j: int| 0 <= j < 1 ==> m.plan.steps[70 + j] == #[trigger] steps[j],
        crate::stage::demands(steps[0], Request::Sync),
    ensures
        n.holds(),
        n.plan == m.plan,
        n.answers == m.answers,
        n.at == 70 + 1,
        n.used == m.used + 1,
        crate::stage::asks(m.plan, m.answers, 41, dedup_reproducibility_end_asks()),
{
    crate::stage::lemma_full(m);
    crate::stage::lemma_asks_none(m, 41);
    let list0 = Seq::<Ask>::empty();
    let m1 = crate::stage::lemma_sync(m, steps[0]);
    crate::stage::lemma_asks_more(m, 41, list0, Ask::Other(Request::Sync));
    let list1 = list0.push(Ask::Other(Request::Sync));
    assert(dedup_reproducibility_end_asks() == list1);
    m1
}

/// The steps of the part `end` of `test_dedup_reproducibility`.
proof fn lemma_dedup_reproducibility_end_steps()
    ensures
        ({
            let steps = crate::categories::c15_determinism::dedup_reproducibility_end_steps();
            &&& steps.len() == 1
            &&& crate::stage::demands(steps[0], Request::Sync)
        }),
{
}

/// In a run of `test_dedup_reproducibility` that passes the device is asked this, in this order,
/// and nothing else: each request about what an earlier one made is about that, and about what was
/// uploaded for it.
pub proof fn law_dedup_reproducibility_asks_about_what_it_made(answers: Seq<Answer>)
    requires
        crate::stage::passes(
            crate::script::plan(
                "test_dedup_reproducibility",
                crate::categories::c15_determinism::dedup_reproducibility_steps(),
            ),
            answers,
        ),
    ensures
        crate::stage::asks(
            crate::script::plan(
                "test_dedup_reproducibility",
                crate::categories::c15_determinism::dedup_reproducibility_steps(),
            ),
            answers,
            0,
            dedup_reproducibility_first_asks(),
        ),
        forall|k: int|
            0 <= k < 4 ==> crate::stage::asks(
                crate::script::plan(
                    "test_dedup_reproducibility",
                    crate::categories::c15_determinism::dedup_reproducibility_steps(),
                ),
                answers,
                3 + 5 * k,
                #[trigger] dedup_reproducibility_repeats_1_asks(k),
            ),
        forall|k: int|
            0 <= k < 4 ==> crate::stage::asks(
                crate::script::plan(
                    "test_dedup_reproducibility",
                    crate::categories::c15_determinism::dedup_reproducibility_steps(),
                ),
                answers,
                7 + 5 * k,
                #[trigger] dedup_reproducibility_repeats_2_asks(k),
            ),
        crate::stage::asks(
            crate::script::plan(
                "test_dedup_reproducibility",
                crate::categories::c15_determinism::dedup_reproducibility_steps(),
            ),
            answers,
            23,
            dedup_reproducibility_part3_1_asks(),
        ),
        crate::stage::asks(
            crate::script::plan(
                "test_dedup_reproducibility",
                crate::categories::c15_determinism::dedup_reproducibility_steps(),
            ),
            answers,
            28,
            dedup_reproducibility_part3_2_asks(),
        ),
        crate::stage::asks(
            crate::script::plan(
                "test_dedup_reproducibility",
                crate::categories::c15_determinism::dedup_reproducibility_steps(),
            ),
            answers,
            29,
            dedup_reproducibility_part4_1_asks(),
        ),
        crate::stage::asks(
            crate::script::plan(
                "test_dedup_reproducibility",
                crate::categories::c15_determinism::dedup_reproducibility_steps(),
            ),
            answers,
            34,
            dedup_reproducibility_part4_2_asks(),
        ),
        crate::stage::asks(
            crate::script::plan(
                "test_dedup_reproducibility",
                crate::categories::c15_determinism::dedup_reproducibility_steps(),
            ),
            answers,
            35,
            dedup_reproducibility_part5_1_asks(),
        ),
        crate::stage::asks(
            crate::script::plan(
                "test_dedup_reproducibility",
                crate::categories::c15_determinism::dedup_reproducibility_steps(),
            ),
            answers,
            40,
            dedup_reproducibility_part5_2_asks(),
        ),
        crate::stage::asks(
            crate::script::plan(
                "test_dedup_reproducibility",
                crate::categories::c15_determinism::dedup_reproducibility_steps(),
            ),
            answers,
            41,
            dedup_reproducibility_end_asks(),
        ),
        crate::stage::asked(
            crate::script::plan(
                "test_dedup_reproducibility",
                crate::categories::c15_determinism::dedup_reproducibility_steps(),
            ),
            answers,
            42,
        ) is None,
{
    let plan = crate::script::plan(
        "test_dedup_reproducibility",
        crate::categories::c15_determinism::dedup_reproducibility_steps(),
    );
    let part1 = crate::categories::c15_determinism::dedup_reproducibility_first_steps();
    lemma_dedup_reproducibility_first_steps();
    let round2 = |k: int| crate::categories::c15_determinism::dedup_reproducibility_repeats_round(
        k as u64,
    );
    let part2 = crate::script::rounds(4, round2);
    assert forall|k: int| 0 <= k < 4 implies (#[trigger] round2(k)).len() == 9 by {
        lemma_dedup_reproducibility_repeats_steps(k);
    }
    crate::stage::lemma_rounds_length(4, round2, 9);
    let part3 = crate::categories::c15_determinism::repeated_dedup_steps("all_same", num(42));
    lemma_dedup_reproducibility_part3_steps();
    let part4 = crate::categories::c15_determinism::repeated_dedup_steps(
        "pairs",
        over(ix(), num(2)),
    );
    lemma_dedup_reproducibility_part4_steps();
    let part5 = crate::categories::c15_determinism::repeated_dedup_steps(
        "random_dups",
        modulo(plus(times(ix(), num(1103515245)), num(12345)), num(500)),
    );
    lemma_dedup_reproducibility_part5_steps();
    let part6 = crate::categories::c15_determinism::dedup_reproducibility_end_steps();
    lemma_dedup_reproducibility_end_steps();
    let whole1 = part1;
    let whole2 = whole1 + part2;
    let whole3 = whole2 + part3;
    let whole4 = whole3 + part4;
    let whole5 = whole4 + part5;
    let whole6 = whole5 + part6;
    assert(plan.steps == whole6);
    let m0 = crate::stage::lemma_start(plan, answers);
    assert forall|j: int| 0 <= j < 7 implies plan.steps[0 + j] == #[trigger] part1[j] by {}
    let m1 = lemma_dedup_reproducibility_first(m0, part1);
    assert forall|j: int| 0 <= j < 36 implies plan.steps[7 + j] == #[trigger] part2[j] by {}
    let m2 = lemma_dedup_reproducibility_repeats_rounds(m1, part2, 4);
    assert forall|j: int| 0 <= j < 9 implies plan.steps[43 + j] == #[trigger] part3[j] by {}
    let m3 = lemma_dedup_reproducibility_part3_1(m2, part3);
    let m4 = lemma_dedup_reproducibility_part3_2(m3, part3);
    assert forall|j: int| 0 <= j < 9 implies plan.steps[52 + j] == #[trigger] part4[j] by {}
    let m5 = lemma_dedup_reproducibility_part4_1(m4, part4);
    let m6 = lemma_dedup_reproducibility_part4_2(m5, part4);
    assert forall|j: int| 0 <= j < 9 implies plan.steps[61 + j] == #[trigger] part5[j] by {}
    let m7 = lemma_dedup_reproducibility_part5_1(m6, part5);
    let m8 = lemma_dedup_reproducibility_part5_2(m7, part5);
    assert forall|j: int| 0 <= j < 1 implies plan.steps[70 + j] == #[trigger] part6[j] by {}
    let m9 = lemma_dedup_reproducibility_end(m8, part6);
    crate::stage::lemma_end(m9);
}

/// A buffer that is uploaded in the part `all` of `test_stable_sort_order`.
pub open spec fn stable_sort_order_all_table1() -> Thing {
    Thing::Table {
        layout: Layout::KeyVal,
        scalar: Scalar::U32,
        columns: seq![
            crate::stage::column(1000, |i: int| i / 10),
            crate::stage::column(1000, |i: int| ((i / 10) * 100) + (i % 10)),
        ],
        turn: 0,
    }
}

/// What the device is asked in piece 1 of the part `all` of `test_stable_sort_order`.
pub open spec fn stable_sort_order_all_1_asks() -> Seq<Ask> {
    let sorted1 = Thing::Sorted { of: Box::new(stable_sort_order_all_table1()), keys: 1, turn: 1 };
    seq![
        Ask::Make(stable_sort_order_all_table1()),
        Ask::Make(sorted1),
        Ask::Words { of: sorted1, column: 0, scalar: Scalar::U32 },
        Ask::Words { of: sorted1, column: 1, scalar: Scalar::U32 },
    ]
}

/// Piece 1 of the part `all` of `test_stable_sort_order` asks what it should.
proof fn lemma_stable_sort_order_all_1(m: Moment, steps: Seq<Step>) -> (n: Moment)
    requires
        m.holds(),
        m.at == 0,
        m.used == 0,
        0 + 16 <= m.plan.steps.len(),
        forall|j: int| 0 <= j < 16 ==> m.plan.steps[0 + j] == #[trigger] steps[j],
        crate::stage::fills(steps[0], 0, num(1000), over(ix(), num(10))),
        crate::stage::fills(
            steps[1],
            1,
            num(1000),
            plus(times(over(ix(), num(10)), num(100)), modulo(ix(), num(10))),
        ),
        crate::stage::demands(
            steps[2],
            Request::Create { into: 0, layout: Layout::KeyVal, scalar: Scalar::U32, from: 0 },
        ),
        crate::stage::demands(steps[3], Request::Sort { of: 0, keys: 1, into: 1 }),
        crate::stage::demands(
            steps[4],
            Request::Download { of: 1, column: 0, scalar: Scalar::U32, into: 2 },
        ),
        crate::stage::demands(
            steps[5],
            Request::Download { of: 1, column: 1, scalar: Scalar::U32, into: 3 },
        ),
        crate::stage::looks(steps[6]),
        crate::stage::reckons(steps[7], 0),
    ensures
        n.holds(),
        n.plan == m.plan,
        n.answers == m.answers,
        n.at == 0 + 8,
        n.used == m.used + 4,
        n.scene.buffer(0) == stable_sort_order_all_table1(),
        crate::stage::asks(m.plan, m.answers, 0, stable_sort_order_all_1_asks()),
{
    crate::stage::lemma_full(m);
    crate::stage::lemma_asks_none(m, 0);
    let list0 = Seq::<Ask>::empty();
    let words1 = crate::stage::column(1000, |i: int| i / 10);
    let word1 = over(ix(), num(10));
    assert forall|i: int| 0 <= i < words1.len() implies crate::stage::meaning(
        word1,
        m.contents,
        i,
    ) as u64 == #[trigger] words1[i] by {
        reveal_with_fuel(crate::stage::meaning, 3);
    }
    let m1 = crate::stage::lemma_filled(m, steps[0], 0, num(1000), word1, words1);
    let words2 = crate::stage::column(1000, |i: int| ((i / 10) * 100) + (i % 10));
    let word2 = plus(times(over(ix(), num(10)), num(100)), modulo(ix(), num(10)));
    assert forall|i: int| 0 <= i < words2.len() implies crate::stage::meaning(
        word2,
        m1.contents,
        i,
    ) as u64 == #[trigger] words2[i] by {
        reveal_with_fuel(crate::stage::meaning, 5);
    }
    let m2 = crate::stage::lemma_filled(m1, steps[1], 1, num(1000), word2, words2);
    let m3 = crate::stage::lemma_create(
        m2,
        steps[2],
        0,
        Layout::KeyVal,
        Scalar::U32,
        0,
        stable_sort_order_all_table1(),
    );
    crate::stage::lemma_asks_more(m, 0, list0, Ask::Make(stable_sort_order_all_table1()));
    let list1 = list0.push(Ask::Make(stable_sort_order_all_table1()));
    let sorted1 = Thing::Sorted { of: Box::new(stable_sort_order_all_table1()), keys: 1, turn: 1 };
    let m4 = crate::stage::lemma_sort(
        m3,
        steps[3],
        0,
        1,
        1,
        stable_sort_order_all_table1(),
        sorted1,
    );
    crate::stage::lemma_asks_more(m, 0, list1, Ask::Make(sorted1));
    let list2 = list1.push(Ask::Make(sorted1));
    let m5 = crate::stage::lemma_download(m4, steps[4], 1, 0, Scalar::U32, 2, sorted1);
    crate::stage::lemma_asks_more(
        m,
        0,
        list2,
        Ask::Words { of: sorted1, column: 0, scalar: Scalar::U32 },
    );
    let list3 = list2.push(Ask::Words { of: sorted1, column: 0, scalar: Scalar::U32 });
    let m6 = crate::stage::lemma_download(m5, steps[5], 1, 1, Scalar::U32, 3, sorted1);
    crate::stage::lemma_asks_more(
        m,
        0,
        list3,
        Ask::Words { of: sorted1, column: 1, scalar: Scalar::U32 },
    );
    let list4 = list3.push(Ask::Words { of: sorted1, column: 1, scalar: Scalar::U32 });
    let m7 = crate::stage::lemma_look(m6, steps[6]);
    let m8 = crate::stage::lemma_reckon(m7, steps[7], 0);
    assert(stable_sort_order_all_1_asks() == list4);
    m8
}

/// What the device is asked in piece 2 of the part `all` of `test_stable_sort_order`.
pub open spec fn stable_sort_order_all_2_asks() -> Seq<Ask> {
    let sorted2 = Thing::Sorted { of: Box::new(stable_sort_order_all_table1()), keys: 1, turn: 4 };
    seq![
        Ask::Make(sorted2),
        Ask::Words { of: sorted2, column: 0, scalar: Scalar::U32 },
        Ask::Words { of: sorted2, column: 1, scalar: Scalar::U32 },
        Ask::Other(Request::Sync),
    ]
}

/// Piece 2 of the part `all` of `test_stable_sort_order` asks what it should.
proof fn lemma_stable_sort_order_all_2(m: Moment, steps: Seq<Step>) -> (n: Moment)
    requires
        m.holds(),
        m.at == 0 + 8,
        m.used == 4,
        0 + 16 <= m.plan.steps.len(),
        forall|j: int| 0 <= j < 16 ==> m.plan.steps[0 + j] == #[trigger] steps[j],
        crate::stage::looks(steps[8]),
        crate::stage::looks(steps[9]),
        crate::stage::demands(steps[10], Request::Sort { of: 0, keys: 1, into: 2 }),
        crate::stage::demands(
            steps[11],
            Request::Download { of: 2, column: 0, scalar: Scalar::U32, into: 5 },
        ),
        crate::stage::demands(
            steps[12],
            Request::Download { of: 2, column: 1, scalar: Scalar::U32, into: 6 },
        ),
        crate::stage::looks(steps[13]),
        crate::stage::looks(steps[14]),
        crate::stage::demands(steps[15], Request::Sync),
        m.scene.buffer(0) == stable_sort_order_all_table1(),
    ensures
        n.holds(),
        n.plan == m.plan,
        n.answers == m.answers,
        n.at == 0 + 16,
        n.used == m.used + 4,
        crate::stage::asks(m.plan, m.answers, 4, stable_sort_order_all_2_asks()),
{
    crate::stage::lemma_full(m);
    crate::stage::lemma_asks_none(m, 4);
    let list0 = Seq::<Ask>::empty();
    let m1 = crate::stage::lemma_look(m, steps[8]);
    let m2 = crate::stage::lemma_look(m1, steps[9]);
    let sorted2 = Thing::Sorted { of: Box::new(stable_sort_order_all_table1()), keys: 1, turn: 4 };
    let m3 = crate::stage::lemma_sort(
        m2,
        steps[10],
        0,
        1,
        2,
        stable_sort_order_all_table1(),
        sorted2,
    );
    crate::stage::lemma_asks_more(m, 4, list0, Ask::Make(sorted2));
    let list1 = list0.push(Ask::Make(sorted2));
    let m4 = crate::stage::lemma_download(m3, steps[11], 2, 0, Scalar::U32, 5, sorted2);
    crate::stage::lemma_asks_more(
        m,
        4,
        list1,
        Ask::Words { of: sorted2, column: 0, scalar: Scalar::U32 },
    );
    let list2 = list1.push(Ask::Words { of: sorted2, column: 0, scalar: Scalar::U32 });
    let m5 = crate::stage::lemma_download(m4, steps[12], 2, 1, Scalar::U32, 6, sorted2);
    crate::stage::lemma_asks_more(
        m,
        4,
        list2,
        Ask::Words { of: sorted2, column: 1, scalar: Scalar::U32 },
    );
    let list3 = list2.push(Ask::Words { of: sorted2, column: 1, scalar: Scalar::U32 });
    let m6 = crate::stage::lemma_look(m5, steps[13]);
    let m7 = crate::stage::lemma_look(m6, steps[14]);
    let m8 = crate::stage::lemma_sync(m7, steps[15]);
    crate::stage::lemma_asks_more(m, 4, list3, Ask::Other(Request::Sync));
    let list4 = list3.push(Ask::Other(Request::Sync));
    assert(stable_sort_order_all_2_asks() == list4);
    m8
}

/// The steps of the part `all` of `test_stable_sort_order`.
proof fn lemma_stable_sort_order_all_steps()
    ensures
        ({
            let steps = crate::categories::c15_determinism::stable_sort_order_steps();
            &&& steps.len() == 16
            &&& crate::stage::fills(steps[0], 0, num(1000), over(ix(), num(10)))
            &&& crate::stage::fills(
                steps[1],
                1,
                num(1000),
                plus(times(over(ix(), num(10)), num(100)), modulo(ix(), num(10))),
            )
            &&& crate::stage::demands(
                steps[2],
                Request::Create { into: 0, layout: Layout::KeyVal, scalar: Scalar::U32, from: 0 },
            )
            &&& crate::stage::demands(steps[3], Request::Sort { of: 0, keys: 1, into: 1 })
            &&& crate::stage::demands(
                steps[4],
                Request::Download { of: 1, column: 0, scalar: Scalar::U32, into: 2 },
            )
            &&& crate::stage::demands(
                steps[5],
                Request::Download { of: 1, column: 1, scalar: Scalar::U32, into: 3 },
            )
            &&& crate::stage::looks(steps[6])
            &&& crate::stage::reckons(steps[7], 0)
            &&& crate::stage::looks(steps[8])
            &&& crate::stage::looks(steps[9])
            &&& crate::stage::demands(steps[10], Request::Sort { of: 0, keys: 1, into: 2 })
            &&& crate::stage::demands(
                steps[11],
                Request::Download { of: 2, column: 0, scalar: Scalar::U32, into: 5 },
            )
            &&& crate::stage::demands(
                steps[12],
                Request::Download { of: 2, column: 1, scalar: Scalar::U32, into: 6 },
            )
            &&& crate::stage::looks(steps[13])
            &&& crate::stage::looks(steps[14])
            &&& crate::stage::demands(steps[15], Request::Sync)
        }),
{
}

/// In a run of `test_stable_sort_order` that passes the device is asked this, in this order, and
/// nothing else: each request about what an earlier one made is about that, and about what was
/// uploaded for it.
pub proof fn law_stable_sort_order_asks_about_what_it_made(answers: Seq<Answer>)
    requires
        crate::stage::passes(
            crate::script::plan(
                "test_stable_sort_order",
                crate::categories::c15_determinism::stable_sort_order_steps(),
            ),
            answers,
        ),
    ensures
        crate::stage::asks(
            crate::script::plan(
                "test_stable_sort_order",
                crate::categories::c15_determinism::stable_sort_order_steps(),
            ),
            answers,
            0,
            stable_sort_order_all_1_asks(),
        ),
        crate::stage::asks(
            crate::script::plan(
                "test_stable_sort_order",
                crate::categories::c15_determinism::stable_sort_order_steps(),
            ),
            answers,
            4,
            stable_sort_order_all_2_asks(),
        ),
        crate::stage::asked(
            crate::script::plan(
                "test_stable_sort_order",
                crate::categories::c15_determinism::stable_sort_order_steps(),
            ),
            answers,
            8,
        ) is None,
{
    let plan = crate::script::plan(
        "test_stable_sort_order",
        crate::categories::c15_determinism::stable_sort_order_steps(),
    );
    let part1 = crate::categories::c15_determinism::stable_sort_order_steps();
    lemma_stable_sort_order_all_steps();
    let whole1 = part1;
    assert(plan.steps == whole1);
    let m0 = crate::stage::lemma_start(plan, answers);
    assert forall|j: int| 0 <= j < 16 implies plan.steps[0 + j] == #[trigger] part1[j] by {}
    let m1 = lemma_stable_sort_order_all_1(m0, part1);
    let m2 = lemma_stable_sort_order_all_2(m1, part1);
    crate::stage::lemma_end(m2);
}

} // verus!
