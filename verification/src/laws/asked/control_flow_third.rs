//! What these tests ask the device in runs that pass: `test_random_predicate_distribution`.

use vstd::prelude::*;
use crate::expr::{ix, lt, modulo, num, over, plus, same_as, times, wrap_plus, wrap_times};
use crate::machine::Answer;
use crate::scalar::Scalar;
use crate::script::{Layout, Request, Step};
use crate::stage::{Ask, Moment, Thing};

verus! {

/// A buffer that is uploaded in round `k` of the part `sizes` of
/// `test_random_predicate_distribution`.
pub open spec fn random_predicate_distribution_sizes_table1(k: int) -> Thing {
    Thing::Table {
        layout: Layout::Val,
        scalar: Scalar::U32,
        columns: seq![
            crate::stage::column(
                (crate::categories::c11_control_flow::LONG_SIZES@[k] as int),
                |i: int| i,
            ),
        ],
        turn: 0 + 10 * k,
    }
}

/// What is kept in round `k` of the part `sizes` of `test_random_predicate_distribution`.
pub open spec fn random_predicate_distribution_sizes_kept3(k: int) -> Thing {
    Thing::Kept {
        of: Box::new(random_predicate_distribution_sizes_table1(k)),
        mask: crate::stage::column(
            (crate::categories::c11_control_flow::LONG_SIZES@[k] as int),
            |i: int| crate::stage::flag((((i / 17) % 5) < 2)),
        ),
        turn: 6 + 10 * k,
    }
}

/// What the device is asked in piece 1 of round `k` of the part `sizes` of
/// `test_random_predicate_distribution`.
pub open spec fn random_predicate_distribution_sizes_1_asks(k: int) -> Seq<Ask> {
    let words2 = crate::stage::column(
        (crate::categories::c11_control_flow::LONG_SIZES@[k] as int),
        |i: int| crate::stage::flag(((((((i * 1103515245) + 12345) / 65536) % 32768) % 2) == 0)),
    );
    let kept1 = Thing::Kept {
        of: Box::new(random_predicate_distribution_sizes_table1(k)),
        mask: words2,
        turn: 1 + 10 * k,
    };
    seq![
        Ask::Make(random_predicate_distribution_sizes_table1(k)),
        Ask::Make(kept1),
        Ask::Rows(kept1),
        Ask::Words { of: kept1, column: 0, scalar: Scalar::U32 },
    ]
}

/// Piece 1 of round `k` of the part `sizes` of `test_random_predicate_distribution` asks what it
/// should.
proof fn lemma_random_predicate_distribution_sizes_1(
    m: Moment,
    steps: Seq<Step>,
    k: int,
) -> (n: Moment)
    requires
        0 <= k < 3,
        m.holds(),
        m.at == 0 + 21 * k,
        m.used == 0 + 10 * k,
        0 + 21 * k + 21 <= m.plan.steps.len(),
        forall|j: int| 0 <= j < 21 ==> m.plan.steps[0 + 21 * k + j] == #[trigger] steps[j],
        crate::stage::fills(
            steps[0],
            0,
            num(crate::categories::c11_control_flow::LONG_SIZES@[k as u64 as int]),
            ix(),
        ),
        crate::stage::demands(
            steps[1],
            Request::Create { into: 0, layout: Layout::Val, scalar: Scalar::U32, from: 0 },
        ),
        crate::stage::fills(
            steps[2],
            1,
            num(crate::categories::c11_control_flow::LONG_SIZES@[k as u64 as int]),
            same_as(
                modulo(
                    modulo(
                        over(plus(times(ix(), num(1103515245)), num(12345)), num(65536)),
                        num(32768),
                    ),
                    num(2),
                ),
                num(0),
            ),
        ),
        crate::stage::reckons(steps[3], 0),
        crate::stage::demands(steps[4], Request::Filter { of: 0, mask: 1, into: 1 }),
        crate::stage::counts(steps[5], 1),
        crate::stage::demands(
            steps[6],
            Request::Download { of: 1, column: 0, scalar: Scalar::U32, into: 2 },
        ),
        crate::stage::works(steps[7], 3),
    ensures
        n.holds(),
        n.plan == m.plan,
        n.answers == m.answers,
        n.at == 0 + 21 * k + 8,
        n.used == m.used + 4,
        n.scene.buffer(0) == random_predicate_distribution_sizes_table1(k),
        crate::stage::asks(
            m.plan,
            m.answers,
            0 + 10 * k,
            random_predicate_distribution_sizes_1_asks(k),
        ),
{
    crate::stage::lemma_full(m);
    crate::stage::lemma_asks_none(m, 0 + 10 * k);
    let list0 = Seq::<Ask>::empty();
    let words1 = crate::stage::column(
        (crate::categories::c11_control_flow::LONG_SIZES@[k] as int),
        |i: int| i,
    );
    let word1 = ix();
    assert forall|i: int| 0 <= i < words1.len() implies crate::stage::meaning(
        word1,
        m.contents,
        i,
    ) as u64 == #[trigger] words1[i] by {
        reveal_with_fuel(crate::stage::meaning, 1);
    }
    let m1 = crate::stage::lemma_filled(
        m,
        steps[0],
        0,
        num(crate::categories::c11_control_flow::LONG_SIZES@[k as u64 as int]),
        word1,
        words1,
    );
    let m2 = crate::stage::lemma_create(
        m1,
        steps[1],
        0,
        Layout::Val,
        Scalar::U32,
        0,
        random_predicate_distribution_sizes_table1(k),
    );
    crate::stage::lemma_asks_more(
        m,
        0 + 10 * k,
        list0,
        Ask::Make(random_predicate_distribution_sizes_table1(k)),
    );
    let list1 = list0.push(Ask::Make(random_predicate_distribution_sizes_table1(k)));
    let words2 = crate::stage::column(
        (crate::categories::c11_control_flow::LONG_SIZES@[k] as int),
        |i: int| crate::stage::flag(((((((i * 1103515245) + 12345) / 65536) % 32768) % 2) == 0)),
    );
    let word3 = same_as(
        modulo(
            modulo( over(plus(times(ix(), num(1103515245)), num(12345)), num(65536)), num(32768), ),
            num(2),
        ),
        num(0),
    );
    assert forall|i: int| 0 <= i < words2.len() implies crate::stage::meaning(
        word3,
        m2.contents,
        i,
    ) as u64 == #[trigger] words2[i] by {
        reveal_with_fuel(crate::stage::meaning, 8);
    }
    let m3 = crate::stage::lemma_filled(
        m2,
        steps[2],
        1,
        num(crate::categories::c11_control_flow::LONG_SIZES@[k as u64 as int]),
        word3,
        words2,
    );
    let m4 = crate::stage::lemma_reckon(m3, steps[3], 0);
    let kept1 = Thing::Kept {
        of: Box::new(random_predicate_distribution_sizes_table1(k)),
        mask: words2,
        turn: 1 + 10 * k,
    };
    let m5 = crate::stage::lemma_filter(
        m4,
        steps[4],
        0,
        1,
        1,
        random_predicate_distribution_sizes_table1(k),
        words2,
        kept1,
    );
    crate::stage::lemma_asks_more(m, 0 + 10 * k, list1, Ask::Make(kept1));
    let list2 = list1.push(Ask::Make(kept1));
    let m6 = crate::stage::lemma_count(m5, steps[5], 1, kept1);
    crate::stage::lemma_asks_more(m, 0 + 10 * k, list2, Ask::Rows(kept1));
    let list3 = list2.push(Ask::Rows(kept1));
    let m7 = crate::stage::lemma_download(m6, steps[6], 1, 0, Scalar::U32, 2, kept1);
    crate::stage::lemma_asks_more(
        m,
        0 + 10 * k,
        list3,
        Ask::Words { of: kept1, column: 0, scalar: Scalar::U32 },
    );
    let list4 = list3.push(Ask::Words { of: kept1, column: 0, scalar: Scalar::U32 });
    let m8 = crate::stage::lemma_work(m7, steps[7], 3);
    assert(random_predicate_distribution_sizes_1_asks(k) == list4);
    m8
}

/// What the device is asked in piece 2 of round `k` of the part `sizes` of
/// `test_random_predicate_distribution`.
pub open spec fn random_predicate_distribution_sizes_2_asks(k: int) -> Seq<Ask> {
    let words3 = crate::stage::column(
        (crate::categories::c11_control_flow::LONG_SIZES@[k] as int),
        |i: int| crate::stage::flag(
            (
                (
                    (
                        (
                            (
                                (
                                    (i * 0x5851_F42D_4C95_7F2D) % 0x1_0000_0000_0000_0000
                                ) + 0x1405_7B7E_F767_814F
                            ) % 0x1_0000_0000_0000_0000
                        ) / 1099511627776
                    ) % 10
                ) < 3
            ),
        ),
    );
    let kept2 = Thing::Kept {
        of: Box::new(random_predicate_distribution_sizes_table1(k)),
        mask: words3,
        turn: 4 + 10 * k,
    };
    seq![
        Ask::Make(kept2),
        Ask::Rows(kept2),
        Ask::Make(random_predicate_distribution_sizes_kept3(k)),
    ]
}

/// Piece 2 of round `k` of the part `sizes` of `test_random_predicate_distribution` asks what it
/// should.
proof fn lemma_random_predicate_distribution_sizes_2(
    m: Moment,
    steps: Seq<Step>,
    k: int,
) -> (n: Moment)
    requires
        0 <= k < 3,
        m.holds(),
        m.at == 0 + 21 * k + 8,
        m.used == 4 + 10 * k,
        0 + 21 * k + 21 <= m.plan.steps.len(),
        forall|j: int| 0 <= j < 21 ==> m.plan.steps[0 + 21 * k + j] == #[trigger] steps[j],
        crate::stage::looks(steps[8]),
        crate::stage::fills(
            steps[9],
            1,
            num(crate::categories::c11_control_flow::LONG_SIZES@[k as u64 as int]),
            lt(
                modulo(
                    over(
                        wrap_plus(
                            wrap_times(ix(), num(0x5851_F42D_4C95_7F2D)),
                            num(0x1405_7B7E_F767_814F),
                        ),
                        num(1099511627776),
                    ),
                    num(10),
                ),
                num(3),
            ),
        ),
        crate::stage::reckons(steps[10], 0),
        crate::stage::demands(steps[11], Request::Filter { of: 0, mask: 1, into: 2 }),
        crate::stage::counts(steps[12], 2),
        crate::stage::fills(
            steps[13],
            1,
            num(crate::categories::c11_control_flow::LONG_SIZES@[k as u64 as int]),
            lt(modulo(over(ix(), num(17)), num(5)), num(2)),
        ),
        crate::stage::reckons(steps[14], 0),
        crate::stage::demands(steps[15], Request::Filter { of: 0, mask: 1, into: 3 }),
        m.scene.buffer(0) == random_predicate_distribution_sizes_table1(k),
    ensures
        n.holds(),
        n.plan == m.plan,
        n.answers == m.answers,
        n.at == 0 + 21 * k + 16,
        n.used == m.used + 3,
        n.scene.buffer(3) == random_predicate_distribution_sizes_kept3(k),
        crate::stage::asks(
            m.plan,
            m.answers,
            4 + 10 * k,
            random_predicate_distribution_sizes_2_asks(k),
        ),
{
    crate::stage::lemma_full(m);
    crate::stage::lemma_asks_none(m, 4 + 10 * k);
    let list0 = Seq::<Ask>::empty();
    let m1 = crate::stage::lemma_look(m, steps[8]);
    let words3 = crate::stage::column(
        (crate::categories::c11_control_flow::LONG_SIZES@[k] as int),
        |i: int| crate::stage::flag(
            (
                (
                    (
                        (
                            (
                                (
                                    (i * 0x5851_F42D_4C95_7F2D) % 0x1_0000_0000_0000_0000
                                ) + 0x1405_7B7E_F767_814F
                            ) % 0x1_0000_0000_0000_0000
                        ) / 1099511627776
                    ) % 10
                ) < 3
            ),
        ),
    );
    let word2 = lt(
        modulo(
            over(
                wrap_plus(
                    wrap_times(ix(), num(0x5851_F42D_4C95_7F2D)),
                    num(0x1405_7B7E_F767_814F),
                ),
                num(1099511627776),
            ),
            num(10),
        ),
        num(3),
    );
    assert forall|i: int| 0 <= i < words3.len() implies crate::stage::meaning(
        word2,
        m1.contents,
        i,
    ) as u64 == #[trigger] words3[i] by {
        reveal_with_fuel(crate::stage::meaning, 7);
    }
    let m2 = crate::stage::lemma_filled(
        m1,
        steps[9],
        1,
        num(crate::categories::c11_control_flow::LONG_SIZES@[k as u64 as int]),
        word2,
        words3,
    );
    let m3 = crate::stage::lemma_reckon(m2, steps[10], 0);
    let kept2 = Thing::Kept {
        of: Box::new(random_predicate_distribution_sizes_table1(k)),
        mask: words3,
        turn: 4 + 10 * k,
    };
    let m4 = crate::stage::lemma_filter(
        m3,
        steps[11],
        0,
        1,
        2,
        random_predicate_distribution_sizes_table1(k),
        words3,
        kept2,
    );
    crate::stage::lemma_asks_more(m, 4 + 10 * k, list0, Ask::Make(kept2));
    let list1 = list0.push(Ask::Make(kept2));
    let m5 = crate::stage::lemma_count(m4, steps[12], 2, kept2);
    crate::stage::lemma_asks_more(m, 4 + 10 * k, list1, Ask::Rows(kept2));
    let list2 = list1.push(Ask::Rows(kept2));
    let words4 = crate::stage::column(
        (crate::categories::c11_control_flow::LONG_SIZES@[k] as int),
        |i: int| crate::stage::flag((((i / 17) % 5) < 2)),
    );
    let word6 = lt(modulo(over(ix(), num(17)), num(5)), num(2));
    assert forall|i: int| 0 <= i < words4.len() implies crate::stage::meaning(
        word6,
        m5.contents,
        i,
    ) as u64 == #[trigger] words4[i] by {
        reveal_with_fuel(crate::stage::meaning, 5);
    }
    let m6 = crate::stage::lemma_filled(
        m5,
        steps[13],
        1,
        num(crate::categories::c11_control_flow::LONG_SIZES@[k as u64 as int]),
        word6,
        words4,
    );
    let m7 = crate::stage::lemma_reckon(m6, steps[14], 0);
    let m8 = crate::stage::lemma_filter(
        m7,
        steps[15],
        0,
        1,
        3,
        random_predicate_distribution_sizes_table1(k),
        words4,
        random_predicate_distribution_sizes_kept3(k),
    );
    crate::stage::lemma_asks_more(
        m,
        4 + 10 * k,
        list2,
        Ask::Make(random_predicate_distribution_sizes_kept3(k)),
    );
    let list3 = list2.push(Ask::Make(random_predicate_distribution_sizes_kept3(k)));
    assert(random_predicate_distribution_sizes_2_asks(k) == list3);
    m8
}

/// What the device is asked in piece 3 of round `k` of the part `sizes` of
/// `test_random_predicate_distribution`.
pub open spec fn random_predicate_distribution_sizes_3_asks(k: int) -> Seq<Ask> {
    seq![
        Ask::Rows(random_predicate_distribution_sizes_kept3(k)),
        Ask::Words {
            of: random_predicate_distribution_sizes_kept3(k),
            column: 0,
            scalar: Scalar::U32,
        },
        Ask::Other(Request::Release { from: 0 }),
    ]
}

/// Piece 3 of round `k` of the part `sizes` of `test_random_predicate_distribution` asks what it
/// should.
proof fn lemma_random_predicate_distribution_sizes_3(
    m: Moment,
    steps: Seq<Step>,
    k: int,
) -> (n: Moment)
    requires
        0 <= k < 3,
        m.holds(),
        m.at == 0 + 21 * k + 16,
        m.used == 7 + 10 * k,
        0 + 21 * k + 21 <= m.plan.steps.len(),
        forall|j: int| 0 <= j < 21 ==> m.plan.steps[0 + 21 * k + j] == #[trigger] steps[j],
        crate::stage::counts(steps[16], 3),
        crate::stage::demands(
            steps[17],
            Request::Download { of: 3, column: 0, scalar: Scalar::U32, into: 2 },
        ),
        crate::stage::works(steps[18], 3),
        crate::stage::looks(steps[19]),
        crate::stage::inquires(steps[20], Request::Release { from: 0 }),
        m.scene.buffer(3) == random_predicate_distribution_sizes_kept3(k),
    ensures
        n.holds(),
        n.plan == m.plan,
        n.answers == m.answers,
        n.at == 0 + 21 * k + 21,
        n.used == m.used + 3,
        crate::stage::asks(
            m.plan,
            m.answers,
            7 + 10 * k,
            random_predicate_distribution_sizes_3_asks(k),
        ),
{
    crate::stage::lemma_full(m);
    crate::stage::lemma_asks_none(m, 7 + 10 * k);
    let list0 = Seq::<Ask>::empty();
    let m1 = crate::stage::lemma_count(
        m,
        steps[16],
        3,
        random_predicate_distribution_sizes_kept3(k),
    );
    crate::stage::lemma_asks_more(
        m,
        7 + 10 * k,
        list0,
        Ask::Rows(random_predicate_distribution_sizes_kept3(k)),
    );
    let list1 = list0.push(Ask::Rows(random_predicate_distribution_sizes_kept3(k)));
    let m2 = crate::stage::lemma_download(
        m1,
        steps[17],
        3,
        0,
        Scalar::U32,
        2,
        random_predicate_distribution_sizes_kept3(k),
    );
    crate::stage::lemma_asks_more(
        m,
        7 + 10 * k,
        list1,
        Ask::Words {
            of: random_predicate_distribution_sizes_kept3(k),
            column: 0,
            scalar: Scalar::U32,
        },
    );
    let list2 = list1.push(
        Ask::Words {
            of: random_predicate_distribution_sizes_kept3(k),
            column: 0,
            scalar: Scalar::U32,
        },
    );
    let m3 = crate::stage::lemma_work(m2, steps[18], 3);
    let m4 = crate::stage::lemma_look(m3, steps[19]);
    let m5 = crate::stage::lemma_release(m4, steps[20], 0);
    crate::stage::lemma_asks_more(m, 7 + 10 * k, list2, Ask::Other(Request::Release { from: 0 }));
    let list3 = list2.push(Ask::Other(Request::Release { from: 0 }));
    assert(random_predicate_distribution_sizes_3_asks(k) == list3);
    m5
}

/// The steps of the part `sizes` of `test_random_predicate_distribution`.
proof fn lemma_random_predicate_distribution_sizes_steps(k: int)
    ensures
        ({
            let steps = crate::categories::c11_control_flow::random_predicate_distribution_sizes_round(
                k as u64,
            );
            &&& steps.len() == 21
            &&& crate::stage::fills(
                steps[0],
                0,
                num(crate::categories::c11_control_flow::LONG_SIZES@[k as u64 as int]),
                ix(),
            )
            &&& crate::stage::demands(
                steps[1],
                Request::Create { into: 0, layout: Layout::Val, scalar: Scalar::U32, from: 0 },
            )
            &&& crate::stage::fills(
                steps[2],
                1,
                num(crate::categories::c11_control_flow::LONG_SIZES@[k as u64 as int]),
                same_as(
                    modulo(
                        modulo(
                            over(plus(times(ix(), num(1103515245)), num(12345)), num(65536)),
                            num(32768),
                        ),
                        num(2),
                    ),
                    num(0),
                ),
            )
            &&& crate::stage::reckons(steps[3], 0)
            &&& crate::stage::demands(steps[4], Request::Filter { of: 0, mask: 1, into: 1 })
            &&& crate::stage::counts(steps[5], 1)
            &&& crate::stage::demands(
                steps[6],
                Request::Download { of: 1, column: 0, scalar: Scalar::U32, into: 2 },
            )
            &&& crate::stage::works(steps[7], 3)
            &&& crate::stage::looks(steps[8])
            &&& crate::stage::fills(
                steps[9],
                1,
                num(crate::categories::c11_control_flow::LONG_SIZES@[k as u64 as int]),
                lt(
                    modulo(
                        over(
                            wrap_plus(
                                wrap_times(ix(), num(0x5851_F42D_4C95_7F2D)),
                                num(0x1405_7B7E_F767_814F),
                            ),
                            num(1099511627776),
                        ),
                        num(10),
                    ),
                    num(3),
                ),
            )
            &&& crate::stage::reckons(steps[10], 0)
            &&& crate::stage::demands(steps[11], Request::Filter { of: 0, mask: 1, into: 2 })
            &&& crate::stage::counts(steps[12], 2)
            &&& crate::stage::fills(
                steps[13],
                1,
                num(crate::categories::c11_control_flow::LONG_SIZES@[k as u64 as int]),
                lt(modulo(over(ix(), num(17)), num(5)), num(2)),
            )
            &&& crate::stage::reckons(steps[14], 0)
            &&& crate::stage::demands(steps[15], Request::Filter { of: 0, mask: 1, into: 3 })
            &&& crate::stage::counts(steps[16], 3)
            &&& crate::stage::demands(
                steps[17],
                Request::Download { of: 3, column: 0, scalar: Scalar::U32, into: 2 },
            )
            &&& crate::stage::works(steps[18], 3)
            &&& crate::stage::looks(steps[19])
            &&& crate::stage::inquires(steps[20], Request::Release { from: 0 })
        }),
{
}

/// Round `k` of the part `sizes` of `test_random_predicate_distribution` asks what it should.
proof fn lemma_random_predicate_distribution_sizes_round(m: Moment, k: int) -> (n: Moment)
    requires
        0 <= k < 3,
        m.holds(),
        m.at == 0 + 21 * k,
        m.used == 0 + 10 * k,
        m.at + 21 <= m.plan.steps.len(),
        forall|j: int|
            0 <= j < 21 ==> m.plan.steps[0 + 21 * k + j] == #[trigger] crate::categories::c11_control_flow::random_predicate_distribution_sizes_round(
                k as u64,
            )[j],
    ensures
        n.holds(),
        n.plan == m.plan,
        n.answers == m.answers,
        n.at == 0 + 21 * (k + 1),
        n.used == 0 + 10 * (k + 1),
        crate::stage::asks(
            m.plan,
            m.answers,
            0 + 10 * k,
            random_predicate_distribution_sizes_1_asks(k),
        ),
        crate::stage::asks(
            m.plan,
            m.answers,
            4 + 10 * k,
            random_predicate_distribution_sizes_2_asks(k),
        ),
        crate::stage::asks(
            m.plan,
            m.answers,
            7 + 10 * k,
            random_predicate_distribution_sizes_3_asks(k),
        ),
{
    let steps = crate::categories::c11_control_flow::random_predicate_distribution_sizes_round(
        k as u64,
    );
    lemma_random_predicate_distribution_sizes_steps(k);
    let m1 = lemma_random_predicate_distribution_sizes_1(m, steps, k);
    let m2 = lemma_random_predicate_distribution_sizes_2(m1, steps, k);
    lemma_random_predicate_distribution_sizes_3(m2, steps, k)
}

/// The first `k` rounds of the part `sizes` of `test_random_predicate_distribution` ask what they
/// should.
proof fn lemma_random_predicate_distribution_sizes_rounds(
    m: Moment,
    part: Seq<Step>,
    k: int,
) -> (n: Moment)
    requires
        0 <= k <= 3,
        m.holds(),
        m.at == 0,
        m.used == 0 + 10 * 0,
        m.at + 63 <= m.plan.steps.len(),
        part == crate::script::rounds(
            3,
            |k: int| crate::categories::c11_control_flow::random_predicate_distribution_sizes_round(
                k as u64,
            ),
        ),
        forall|j: int| 0 <= j < 63 ==> m.plan.steps[0 + j] == #[trigger] part[j],
    ensures
        n.holds(),
        n.plan == m.plan,
        n.answers == m.answers,
        n.at == 0 + 21 * k,
        n.used == 0 + 10 * k,
        forall|j: int|
            0 <= j < k ==> crate::stage::asks(
                m.plan,
                m.answers,
                0 + 10 * j,
                #[trigger] random_predicate_distribution_sizes_1_asks(j),
            ),
        forall|j: int|
            0 <= j < k ==> crate::stage::asks(
                m.plan,
                m.answers,
                4 + 10 * j,
                #[trigger] random_predicate_distribution_sizes_2_asks(j),
            ),
        forall|j: int|
            0 <= j < k ==> crate::stage::asks(
                m.plan,
                m.answers,
                7 + 10 * j,
                #[trigger] random_predicate_distribution_sizes_3_asks(j),
            ),
    decreases k,
{
    if k == 0 {
        m
    } else {
        let round = |k: int| crate::categories::c11_control_flow::random_predicate_distribution_sizes_round(
            k as u64,
        );
        let before = lemma_random_predicate_distribution_sizes_rounds(m, part, k - 1);
        assert forall|j: int| 0 <= j < 21 implies m.plan.steps[before.at + j] == #[trigger] crate::categories::c11_control_flow::random_predicate_distribution_sizes_round(
            (k - 1) as u64,
        )[j] by {
            assert forall|k: int| 0 <= k < 3 implies (#[trigger] round(k)).len() == 21 by {
                lemma_random_predicate_distribution_sizes_steps(k);
            }
            crate::stage::lemma_round_place(3, round, 21, k - 1, j);
            assert(part[(k - 1) * 21 + j] == round(k - 1)[j]);
        }
        lemma_random_predicate_distribution_sizes_round(before, k - 1)
    }
}

/// What the device is asked in the part `end` of `test_random_predicate_distribution`.
pub open spec fn random_predicate_distribution_end_asks() -> Seq<Ask> {
    seq![Ask::Other(Request::Sync)]
}

/// The part `end` of `test_random_predicate_distribution` asks what it should.
proof fn lemma_random_predicate_distribution_end(m: Moment, steps: Seq<Step>) -> (n: Moment)
    requires
        m.holds(),
        m.at == 63,
        m.used == 30,
        63 + 1 <= m.plan.steps.len(),
        forall|j: int| 0 <= j < 1 ==> m.plan.steps[63 + j] == #[trigger] steps[j],
        crate::stage::demands(steps[0], Request::Sync),
    ensures
        n.holds(),
        n.plan == m.plan,
        n.answers == m.answers,
        n.at == 63 + 1,
        n.used == m.used + 1,
        crate::stage::asks(m.plan, m.answers, 30, random_predicate_distribution_end_asks()),
{
    crate::stage::lemma_full(m);
    crate::stage::lemma_asks_none(m, 30);
    let list0 = Seq::<Ask>::empty();
    let m1 = crate::stage::lemma_sync(m, steps[0]);
    crate::stage::lemma_asks_more(m, 30, list0, Ask::Other(Request::Sync));
    let list1 = list0.push(Ask::Other(Request::Sync));
    assert(random_predicate_distribution_end_asks() == list1);
    m1
}

/// The steps of the part `end` of `test_random_predicate_distribution`.
proof fn lemma_random_predicate_distribution_end_steps()
    ensures
        ({
            let steps = crate::categories::c11_control_flow::random_predicate_distribution_end_steps();
            &&& steps.len() == 1
            &&& crate::stage::demands(steps[0], Request::Sync)
        }),
{
}

/// In a run of `test_random_predicate_distribution` that passes the device is asked this, in this
/// order, and nothing else: each request about what an earlier one made is about that, and about
/// what was uploaded for it.
pub proof fn law_random_predicate_distribution_asks_about_what_it_made(answers: Seq<Answer>)
    requires
        crate::stage::passes(
            crate::script::plan(
                "test_random_predicate_distribution",
                crate::categories::c11_control_flow::random_predicate_distribution_steps(),
            ),
            answers,
        ),
    ensures
        forall|k: int|
            0 <= k < 3 ==> crate::stage::asks(
                crate::script::plan(
                    "test_random_predicate_distribution",
                    crate::categories::c11_control_flow::random_predicate_distribution_steps(),
                ),
                answers,
                0 + 10 * k,
                #[trigger] random_predicate_distribution_sizes_1_asks(k),
            ),
        forall|k: int|
            0 <= k < 3 ==> crate::stage::asks(
                crate::script::plan(
                    "test_random_predicate_distribution",
                    crate::categories::c11_control_flow::random_predicate_distribution_steps(),
                ),
                answers,
                4 + 10 * k,
                #[trigger] random_predicate_distribution_sizes_2_asks(k),
            ),
        forall|k: int|
            0 <= k < 3 ==> crate::stage::asks(
                crate::script::plan(
                    "test_random_predicate_distribution",
                    crate::categories::c11_control_flow::random_predicate_distribution_steps(),
                ),
                answers,
                7 + 10 * k,
                #[trigger] random_predicate_distribution_sizes_3_asks(k),
            ),
        crate::stage::asks(
            crate::script::plan(
                "test_random_predicate_distribution",
                crate::categories::c11_control_flow::random_predicate_distribution_steps(),
            ),
            answers,
            30,
            random_predicate_distribution_end_asks(),
        ),
        crate::stage::asked(
            crate::script::plan(
                "test_random_predicate_distribution",
                crate::categories::c11_control_flow::random_predicate_distribution_steps(),
            ),
            answers,
            31,
        ) is None,
{
    let plan = crate::script::plan(
        "test_random_predicate_distribution",
        crate::categories::c11_control_flow::random_predicate_distribution_steps(),
    );
    let round1 = |k: int| crate::categories::c11_control_flow::random_predicate_distribution_sizes_round(
        k as u64,
    );
    let part1 = crate::script::rounds(3, round1);
    assert forall|k: int| 0 <= k < 3 implies (#[trigger] round1(k)).len() == 21 by {
        lemma_random_predicate_distribution_sizes_steps(k);
    }
    crate::stage::lemma_rounds_length(3, round1, 21);
    let part2 = crate::categories::c11_control_flow::random_predicate_distribution_end_steps();
    lemma_random_predicate_distribution_end_steps();
    let whole1 = part1;
    let whole2 = whole1 + part2;
    assert(plan.steps == whole2);
    let m0 = crate::stage::lemma_start(plan, answers);
    assert forall|j: int| 0 <= j < 63 implies plan.steps[0 + j] == #[trigger] part1[j] by {}
    let m1 = lemma_random_predicate_distribution_sizes_rounds(m0, part1, 3);
    assert forall|j: int| 0 <= j < 1 implies plan.steps[63 + j] == #[trigger] part2[j] by {}
    let m2 = lemma_random_predicate_distribution_end(m1, part2);
    crate::stage::lemma_end(m2);
}

} // verus!
