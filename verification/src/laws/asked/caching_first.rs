//! What these tests ask the device in runs that pass: `test_cache_line_access`, `test_cache_reuse`.

use vstd::prelude::*;
use crate::expr::{differs, ix, modulo, num, plus, same_as, times};
use crate::machine::Answer;
use crate::scalar::Scalar;
use crate::script::{Layout, Request, Step};
use crate::stage::{Ask, Moment, Thing};

verus! {

/// What is kept in round `k` of the part `lines` of `test_cache_line_access`.
pub open spec fn cache_line_access_lines_kept1(k: int) -> Thing {
    Thing::Kept {
        of: Box::new(
            Thing::Table {
                layout: Layout::Val,
                scalar: Scalar::U32,
                columns: seq![
                    crate::stage::column(
                        (crate::categories::c17_caching::LINE_SIZES@[k] as int),
                        |i: int| ((i * 1103515245) + 12345) % 1000000,
                    ),
                ],
                turn: 0 + 6 * k,
            },
        ),
        mask: crate::stage::column(
            (crate::categories::c17_caching::LINE_SIZES@[k] as int),
            |i: int| crate::stage::flag(((i % 2) == 0)),
        ),
        turn: 3 + 6 * k,
    }
}

/// What the device is asked in piece 1 of round `k` of the part `lines` of
/// `test_cache_line_access`.
pub open spec fn cache_line_access_lines_1_asks(k: int) -> Seq<Ask> {
    let words1 = crate::stage::column(
        (crate::categories::c17_caching::LINE_SIZES@[k] as int),
        |i: int| ((i * 1103515245) + 12345) % 1000000,
    );
    let table1 = Thing::Table {
        layout: Layout::Val,
        scalar: Scalar::U32,
        columns: seq![words1],
        turn: 0 + 6 * k,
    };
    let sorted1 = Thing::Sorted { of: Box::new(table1), keys: 1, turn: 1 + 6 * k };
    seq![
        Ask::Make(table1),
        Ask::Make(sorted1),
        Ask::Words { of: sorted1, column: 0, scalar: Scalar::U32 },
        Ask::Make(cache_line_access_lines_kept1(k)),
    ]
}

/// Piece 1 of round `k` of the part `lines` of `test_cache_line_access` asks what it should.
proof fn lemma_cache_line_access_lines_1(m: Moment, steps: Seq<Step>, k: int) -> (n: Moment)
    requires
        0 <= k < 6,
        m.holds(),
        m.at == 0 + 10 * k,
        m.used == 0 + 6 * k,
        0 + 10 * k + 10 <= m.plan.steps.len(),
        forall|j: int| 0 <= j < 10 ==> m.plan.steps[0 + 10 * k + j] == #[trigger] steps[j],
        crate::stage::fills(
            steps[0],
            0,
            num(crate::categories::c17_caching::LINE_SIZES@[k as u64 as int]),
            modulo(plus(times(ix(), num(1103515245)), num(12345)), num(1000000)),
        ),
        crate::stage::demands(
            steps[1],
            Request::Create { into: 0, layout: Layout::Val, scalar: Scalar::U32, from: 0 },
        ),
        crate::stage::demands(steps[2], Request::Sort { of: 0, keys: 1, into: 1 }),
        crate::stage::demands(
            steps[3],
            Request::Download { of: 1, column: 0, scalar: Scalar::U32, into: 1 },
        ),
        crate::stage::looks(steps[4]),
        crate::stage::looks(steps[5]),
        crate::stage::fills(
            steps[6],
            2,
            num(crate::categories::c17_caching::LINE_SIZES@[k as u64 as int]),
            same_as(modulo(ix(), num(2)), num(0)),
        ),
        crate::stage::demands(steps[7], Request::Filter { of: 0, mask: 2, into: 2 }),
    ensures
        n.holds(),
        n.plan == m.plan,
        n.answers == m.answers,
        n.at == 0 + 10 * k + 8,
        n.used == m.used + 4,
        n.scene.buffer(2) == cache_line_access_lines_kept1(k),
        crate::stage::asks(m.plan, m.answers, 0 + 6 * k, cache_line_access_lines_1_asks(k)),
{
    crate::stage::lemma_full(m);
    crate::stage::lemma_asks_none(m, 0 + 6 * k);
    let list0 = Seq::<Ask>::empty();
    let words1 = crate::stage::column(
        (crate::categories::c17_caching::LINE_SIZES@[k] as int),
        |i: int| ((i * 1103515245) + 12345) % 1000000,
    );
    let word1 = modulo(plus(times(ix(), num(1103515245)), num(12345)), num(1000000));
    assert forall|i: int| 0 <= i < words1.len() implies crate::stage::meaning(
        word1,
        m.contents,
        i,
    ) as u64 == #[trigger] words1[i] by {
        reveal_with_fuel(crate::stage::meaning, 5);
    }
    let m1 = crate::stage::lemma_filled(
        m,
        steps[0],
        0,
        num(crate::categories::c17_caching::LINE_SIZES@[k as u64 as int]),
        word1,
        words1,
    );
    let table1 = Thing::Table {
        layout: Layout::Val,
        scalar: Scalar::U32,
        columns: seq![words1],
        turn: 0 + 6 * k,
    };
    let m2 = crate::stage::lemma_create(m1, steps[1], 0, Layout::Val, Scalar::U32, 0, table1);
    crate::stage::lemma_asks_more(m, 0 + 6 * k, list0, Ask::Make(table1));
    let list1 = list0.push(Ask::Make(table1));
    let sorted1 = Thing::Sorted { of: Box::new(table1), keys: 1, turn: 1 + 6 * k };
    let m3 = crate::stage::lemma_sort(m2, steps[2], 0, 1, 1, table1, sorted1);
    crate::stage::lemma_asks_more(m, 0 + 6 * k, list1, Ask::Make(sorted1));
    let list2 = list1.push(Ask::Make(sorted1));
    let m4 = crate::stage::lemma_download(m3, steps[3], 1, 0, Scalar::U32, 1, sorted1);
    crate::stage::lemma_asks_more(
        m,
        0 + 6 * k,
        list2,
        Ask::Words { of: sorted1, column: 0, scalar: Scalar::U32 },
    );
    let list3 = list2.push(Ask::Words { of: sorted1, column: 0, scalar: Scalar::U32 });
    let m5 = crate::stage::lemma_look(m4, steps[4]);
    let m6 = crate::stage::lemma_look(m5, steps[5]);
    let words2 = crate::stage::column(
        (crate::categories::c17_caching::LINE_SIZES@[k] as int),
        |i: int| crate::stage::flag(((i % 2) == 0)),
    );
    let word7 = same_as(modulo(ix(), num(2)), num(0));
    assert forall|i: int| 0 <= i < words2.len() implies crate::stage::meaning(
        word7,
        m6.contents,
        i,
    ) as u64 == #[trigger] words2[i] by {
        reveal_with_fuel(crate::stage::meaning, 4);
    }
    let m7 = crate::stage::lemma_filled(
        m6,
        steps[6],
        2,
        num(crate::categories::c17_caching::LINE_SIZES@[k as u64 as int]),
        word7,
        words2,
    );
    let m8 = crate::stage::lemma_filter(
        m7,
        steps[7],
        0,
        2,
        2,
        table1,
        words2,
        cache_line_access_lines_kept1(k),
    );
    crate::stage::lemma_asks_more(m, 0 + 6 * k, list3, Ask::Make(cache_line_access_lines_kept1(k)));
    let list4 = list3.push(Ask::Make(cache_line_access_lines_kept1(k)));
    assert(cache_line_access_lines_1_asks(k) == list4);
    m8
}

/// What the device is asked in piece 2 of round `k` of the part `lines` of
/// `test_cache_line_access`.
pub open spec fn cache_line_access_lines_2_asks(k: int) -> Seq<Ask> {
    seq![Ask::Rows(cache_line_access_lines_kept1(k)), Ask::Other(Request::Release { from: 0 })]
}

/// Piece 2 of round `k` of the part `lines` of `test_cache_line_access` asks what it should.
proof fn lemma_cache_line_access_lines_2(m: Moment, steps: Seq<Step>, k: int) -> (n: Moment)
    requires
        0 <= k < 6,
        m.holds(),
        m.at == 0 + 10 * k + 8,
        m.used == 4 + 6 * k,
        0 + 10 * k + 10 <= m.plan.steps.len(),
        forall|j: int| 0 <= j < 10 ==> m.plan.steps[0 + 10 * k + j] == #[trigger] steps[j],
        crate::stage::counts(steps[8], 2),
        crate::stage::inquires(steps[9], Request::Release { from: 0 }),
        m.scene.buffer(2) == cache_line_access_lines_kept1(k),
    ensures
        n.holds(),
        n.plan == m.plan,
        n.answers == m.answers,
        n.at == 0 + 10 * k + 10,
        n.used == m.used + 2,
        crate::stage::asks(m.plan, m.answers, 4 + 6 * k, cache_line_access_lines_2_asks(k)),
{
    crate::stage::lemma_full(m);
    crate::stage::lemma_asks_none(m, 4 + 6 * k);
    let list0 = Seq::<Ask>::empty();
    let m1 = crate::stage::lemma_count(m, steps[8], 2, cache_line_access_lines_kept1(k));
    crate::stage::lemma_asks_more(m, 4 + 6 * k, list0, Ask::Rows(cache_line_access_lines_kept1(k)));
    let list1 = list0.push(Ask::Rows(cache_line_access_lines_kept1(k)));
    let m2 = crate::stage::lemma_release(m1, steps[9], 0);
    crate::stage::lemma_asks_more(m, 4 + 6 * k, list1, Ask::Other(Request::Release { from: 0 }));
    let list2 = list1.push(Ask::Other(Request::Release { from: 0 }));
    assert(cache_line_access_lines_2_asks(k) == list2);
    m2
}

/// The steps of the part `lines` of `test_cache_line_access`.
proof fn lemma_cache_line_access_lines_steps(k: int)
    ensures
        ({
            let steps = crate::categories::c17_caching::cache_line_access_lines_round(k as u64);
            &&& steps.len() == 10
            &&& crate::stage::fills(
                steps[0],
                0,
                num(crate::categories::c17_caching::LINE_SIZES@[k as u64 as int]),
                modulo(plus(times(ix(), num(1103515245)), num(12345)), num(1000000)),
            )
            &&& crate::stage::demands(
                steps[1],
                Request::Create { into: 0, layout: Layout::Val, scalar: Scalar::U32, from: 0 },
            )
            &&& crate::stage::demands(steps[2], Request::Sort { of: 0, keys: 1, into: 1 })
            &&& crate::stage::demands(
                steps[3],
                Request::Download { of: 1, column: 0, scalar: Scalar::U32, into: 1 },
            )
            &&& crate::stage::looks(steps[4])
            &&& crate::stage::looks(steps[5])
            &&& crate::stage::fills(
                steps[6],
                2,
                num(crate::categories::c17_caching::LINE_SIZES@[k as u64 as int]),
                same_as(modulo(ix(), num(2)), num(0)),
            )
            &&& crate::stage::demands(steps[7], Request::Filter { of: 0, mask: 2, into: 2 })
            &&& crate::stage::counts(steps[8], 2)
            &&& crate::stage::inquires(steps[9], Request::Release { from: 0 })
        }),
{
}

/// Round `k` of the part `lines` of `test_cache_line_access` asks what it should.
proof fn lemma_cache_line_access_lines_round(m: Moment, k: int) -> (n: Moment)
    requires
        0 <= k < 6,
        m.holds(),
        m.at == 0 + 10 * k,
        m.used == 0 + 6 * k,
        m.at + 10 <= m.plan.steps.len(),
        forall|j: int|
            0 <= j < 10 ==> m.plan.steps[0 + 10 * k + j] == #[trigger] crate::categories::c17_caching::cache_line_access_lines_round(
                k as u64,
            )[j],
    ensures
        n.holds(),
        n.plan == m.plan,
        n.answers == m.answers,
        n.at == 0 + 10 * (k + 1),
        n.used == 0 + 6 * (k + 1),
        crate::stage::asks(m.plan, m.answers, 0 + 6 * k, cache_line_access_lines_1_asks(k)),
        crate::stage::asks(m.plan, m.answers, 4 + 6 * k, cache_line_access_lines_2_asks(k)),
{
    let steps = crate::categories::c17_caching::cache_line_access_lines_round(k as u64);
    lemma_cache_line_access_lines_steps(k);
    let m1 = lemma_cache_line_access_lines_1(m, steps, k);
    lemma_cache_line_access_lines_2(m1, steps, k)
}

/// The first `k` rounds of the part `lines` of `test_cache_line_access` ask what they should.
proof fn lemma_cache_line_access_lines_rounds(m: Moment, part: Seq<Step>, k: int) -> (n: Moment)
    requires
        0 <= k <= 6,
        m.holds(),
        m.at == 0,
        m.used == 0 + 6 * 0,
        m.at + 60 <= m.plan.steps.len(),
        part == crate::script::rounds(
            6,
            |k: int| crate::categories::c17_caching::cache_line_access_lines_round(k as u64),
        ),
        forall|j: int| 0 <= j < 60 ==> m.plan.steps[0 + j] == #[trigger] part[j],
    ensures
        n.holds(),
        n.plan == m.plan,
        n.answers == m.answers,
        n.at == 0 + 10 * k,
        n.used == 0 + 6 * k,
        forall|j: int|
            0 <= j < k ==> crate::stage::asks(
                m.plan,
                m.answers,
                0 + 6 * j,
                #[trigger] cache_line_access_lines_1_asks(j),
            ),
        forall|j: int|
            0 <= j < k ==> crate::stage::asks(
                m.plan,
                m.answers,
                4 + 6 * j,
                #[trigger] cache_line_access_lines_2_asks(j),
            ),
    decreases k,
{
    if k == 0 {
        m
    } else {
        let round = |k: int| crate::categories::c17_caching::cache_line_access_lines_round(
            k as u64,
        );
        let before = lemma_cache_line_access_lines_rounds(m, part, k - 1);
        assert forall|j: int| 0 <= j < 10 implies m.plan.steps[before.at + j] == #[trigger] crate::categories::c17_caching::cache_line_access_lines_round(
            (k - 1) as u64,
        )[j] by {
            assert forall|k: int| 0 <= k < 6 implies (#[trigger] round(k)).len() == 10 by {
                lemma_cache_line_access_lines_steps(k);
            }
            crate::stage::lemma_round_place(6, round, 10, k - 1, j);
            assert(part[(k - 1) * 10 + j] == round(k - 1)[j]);
        }
        lemma_cache_line_access_lines_round(before, k - 1)
    }
}

/// What the device is asked in round `k` of the part `odd_sizes` of `test_cache_line_access`.
pub open spec fn cache_line_access_odd_sizes_asks(k: int) -> Seq<Ask> {
    let words1 = crate::stage::column(
        (crate::categories::c17_caching::ODD_SIZES@[k] as int),
        |i: int| (i * 31337) % 100000,
    );
    let table1 = Thing::Table {
        layout: Layout::Val,
        scalar: Scalar::U32,
        columns: seq![words1],
        turn: 36 + 4 * k,
    };
    let sorted1 = Thing::Sorted { of: Box::new(table1), keys: 1, turn: 37 + 4 * k };
    seq![
        Ask::Make(table1),
        Ask::Make(sorted1),
        Ask::Words { of: sorted1, column: 0, scalar: Scalar::U32 },
        Ask::Other(Request::Release { from: 0 }),
    ]
}

/// Round `k` of the part `odd_sizes` of `test_cache_line_access` asks what it should.
proof fn lemma_cache_line_access_odd_sizes(m: Moment, steps: Seq<Step>, k: int) -> (n: Moment)
    requires
        0 <= k < 4,
        m.holds(),
        m.at == 60 + 6 * k,
        m.used == 36 + 4 * k,
        60 + 6 * k + 6 <= m.plan.steps.len(),
        forall|j: int| 0 <= j < 6 ==> m.plan.steps[60 + 6 * k + j] == #[trigger] steps[j],
        crate::stage::fills(
            steps[0],
            0,
            num(crate::categories::c17_caching::ODD_SIZES@[k as u64 as int]),
            modulo(times(ix(), num(31337)), num(100000)),
        ),
        crate::stage::demands(
            steps[1],
            Request::Create { into: 0, layout: Layout::Val, scalar: Scalar::U32, from: 0 },
        ),
        crate::stage::demands(steps[2], Request::Sort { of: 0, keys: 1, into: 1 }),
        crate::stage::demands(
            steps[3],
            Request::Download { of: 1, column: 0, scalar: Scalar::U32, into: 1 },
        ),
        crate::stage::looks(steps[4]),
        crate::stage::inquires(steps[5], Request::Release { from: 0 }),
    ensures
        n.holds(),
        n.plan == m.plan,
        n.answers == m.answers,
        n.at == 60 + 6 * k + 6,
        n.used == m.used + 4,
        crate::stage::asks(m.plan, m.answers, 36 + 4 * k, cache_line_access_odd_sizes_asks(k)),
{
    crate::stage::lemma_full(m);
    crate::stage::lemma_asks_none(m, 36 + 4 * k);
    let list0 = Seq::<Ask>::empty();
    let words1 = crate::stage::column(
        (crate::categories::c17_caching::ODD_SIZES@[k] as int),
        |i: int| (i * 31337) % 100000,
    );
    let word1 = modulo(times(ix(), num(31337)), num(100000));
    assert forall|i: int| 0 <= i < words1.len() implies crate::stage::meaning(
        word1,
        m.contents,
        i,
    ) as u64 == #[trigger] words1[i] by {
        reveal_with_fuel(crate::stage::meaning, 4);
    }
    let m1 = crate::stage::lemma_filled(
        m,
        steps[0],
        0,
        num(crate::categories::c17_caching::ODD_SIZES@[k as u64 as int]),
        word1,
        words1,
    );
    let table1 = Thing::Table {
        layout: Layout::Val,
        scalar: Scalar::U32,
        columns: seq![words1],
        turn: 36 + 4 * k,
    };
    let m2 = crate::stage::lemma_create(m1, steps[1], 0, Layout::Val, Scalar::U32, 0, table1);
    crate::stage::lemma_asks_more(m, 36 + 4 * k, list0, Ask::Make(table1));
    let list1 = list0.push(Ask::Make(table1));
    let sorted1 = Thing::Sorted { of: Box::new(table1), keys: 1, turn: 37 + 4 * k };
    let m3 = crate::stage::lemma_sort(m2, steps[2], 0, 1, 1, table1, sorted1);
    crate::stage::lemma_asks_more(m, 36 + 4 * k, list1, Ask::Make(sorted1));
    let list2 = list1.push(Ask::Make(sorted1));
    let m4 = crate::stage::lemma_download(m3, steps[3], 1, 0, Scalar::U32, 1, sorted1);
    crate::stage::lemma_asks_more(
        m,
        36 + 4 * k,
        list2,
        Ask::Words { of: sorted1, column: 0, scalar: Scalar::U32 },
    );
    let list3 = list2.push(Ask::Words { of: sorted1, column: 0, scalar: Scalar::U32 });
    let m5 = crate::stage::lemma_look(m4, steps[4]);
    let m6 = crate::stage::lemma_release(m5, steps[5], 0);
    crate::stage::lemma_asks_more(m, 36 + 4 * k, list3, Ask::Other(Request::Release { from: 0 }));
    let list4 = list3.push(Ask::Other(Request::Release { from: 0 }));
    assert(cache_line_access_odd_sizes_asks(k) == list4);
    m6
}

/// The steps of the part `odd_sizes` of `test_cache_line_access`.
proof fn lemma_cache_line_access_odd_sizes_steps(k: int)
    ensures
        ({
            let steps = crate::categories::c17_caching::cache_line_access_odd_sizes_round(k as u64);
            &&& steps.len() == 6
            &&& crate::stage::fills(
                steps[0],
                0,
                num(crate::categories::c17_caching::ODD_SIZES@[k as u64 as int]),
                modulo(times(ix(), num(31337)), num(100000)),
            )
            &&& crate::stage::demands(
                steps[1],
                Request::Create { into: 0, layout: Layout::Val, scalar: Scalar::U32, from: 0 },
            )
            &&& crate::stage::demands(steps[2], Request::Sort { of: 0, keys: 1, into: 1 })
            &&& crate::stage::demands(
                steps[3],
                Request::Download { of: 1, column: 0, scalar: Scalar::U32, into: 1 },
            )
            &&& crate::stage::looks(steps[4])
            &&& crate::stage::inquires(steps[5], Request::Release { from: 0 })
        }),
{
}

/// The first `k` rounds of the part `odd_sizes` of `test_cache_line_access` ask what they should.
proof fn lemma_cache_line_access_odd_sizes_rounds(m: Moment, part: Seq<Step>, k: int) -> (n: Moment)
    requires
        0 <= k <= 4,
        m.holds(),
        m.at == 60,
        m.used == 36 + 4 * 0,
        m.at + 24 <= m.plan.steps.len(),
        part == crate::script::rounds(
            4,
            |k: int| crate::categories::c17_caching::cache_line_access_odd_sizes_round(k as u64),
        ),
        forall|j: int| 0 <= j < 24 ==> m.plan.steps[60 + j] == #[trigger] part[j],
    ensures
        n.holds(),
        n.plan == m.plan,
        n.answers == m.answers,
        n.at == 60 + 6 * k,
        n.used == 36 + 4 * k,
        forall|j: int|
            0 <= j < k ==> crate::stage::asks(
                m.plan,
                m.answers,
                36 + 4 * j,
                #[trigger] cache_line_access_odd_sizes_asks(j),
            ),
    decreases k,
{
    if k == 0 {
        m
    } else {
        let round = |k: int| crate::categories::c17_caching::cache_line_access_odd_sizes_round(
            k as u64,
        );
        let before = lemma_cache_line_access_odd_sizes_rounds(m, part, k - 1);
        assert forall|j: int| 0 <= j < 6 implies m.plan.steps[before.at + j] == #[trigger] crate::categories::c17_caching::cache_line_access_odd_sizes_round(
            (k - 1) as u64,
        )[j] by {
            assert forall|k: int| 0 <= k < 4 implies (#[trigger] round(k)).len() == 6 by {
                lemma_cache_line_access_odd_sizes_steps(k);
            }
            crate::stage::lemma_round_place(4, round, 6, k - 1, j);
            assert(part[(k - 1) * 6 + j] == round(k - 1)[j]);
        }
        lemma_cache_line_access_odd_sizes_steps(k - 1);
        lemma_cache_line_access_odd_sizes(
            before,
            crate::categories::c17_caching::cache_line_access_odd_sizes_round((k - 1) as u64),
            k - 1,
        )
    }
}

/// What the device is asked in the part `end` of `test_cache_line_access`.
pub open spec fn cache_line_access_end_asks() -> Seq<Ask> {
    seq![Ask::Other(Request::Sync)]
}

/// The part `end` of `test_cache_line_access` asks what it should.
proof fn lemma_cache_line_access_end(m: Moment, steps: Seq<Step>) -> (n: Moment)
    requires
        m.holds(),
        m.at == 84,
        m.used == 52,
        84 + 1 <= m.plan.steps.len(),
        forall|j: int| 0 <= j < 1 ==> m.plan.steps[84 + j] == #[trigger] steps[j],
        crate::stage::demands(steps[0], Request::Sync),
    ensures
        n.holds(),
        n.plan == m.plan,
        n.answers == m.answers,
        n.at == 84 + 1,
        n.used == m.used + 1,
        crate::stage::asks(m.plan, m.answers, 52, cache_line_access_end_asks()),
{
    crate::stage::lemma_full(m);
    crate::stage::lemma_asks_none(m, 52);
    let list0 = Seq::<Ask>::empty();
    let m1 = crate::stage::lemma_sync(m, steps[0]);
    crate::stage::lemma_asks_more(m, 52, list0, Ask::Other(Request::Sync));
    let list1 = list0.push(Ask::Other(Request::Sync));
    assert(cache_line_access_end_asks() == list1);
    m1
}

/// The steps of the part `end` of `test_cache_line_access`.
proof fn lemma_cache_line_access_end_steps()
    ensures
        ({
            let steps = crate::categories::c17_caching::cache_line_access_end_steps();
            &&& steps.len() == 1
            &&& crate::stage::demands(steps[0], Request::Sync)
        }),
{
}

/// In a run of `test_cache_line_access` that passes the device is asked this, in this order, and
/// nothing else: each request about what an earlier one made is about that, and about what was
/// uploaded for it.
pub proof fn law_cache_line_access_asks_about_what_it_made(answers: Seq<Answer>)
    requires
        crate::stage::passes(
            crate::script::plan(
                "test_cache_line_access",
                crate::categories::c17_caching::cache_line_access_steps(),
            ),
            answers,
        ),
    ensures
        forall|k: int|
            0 <= k < 6 ==> crate::stage::asks(
                crate::script::plan(
                    "test_cache_line_access",
                    crate::categories::c17_caching::cache_line_access_steps(),
                ),
                answers,
                0 + 6 * k,
                #[trigger] cache_line_access_lines_1_asks(k),
            ),
        forall|k: int|
            0 <= k < 6 ==> crate::stage::asks(
                crate::script::plan(
                    "test_cache_line_access",
                    crate::categories::c17_caching::cache_line_access_steps(),
                ),
                answers,
                4 + 6 * k,
                #[trigger] cache_line_access_lines_2_asks(k),
            ),
        forall|k: int|
            0 <= k < 4 ==> crate::stage::asks(
                crate::script::plan(
                    "test_cache_line_access",
                    crate::categories::c17_caching::cache_line_access_steps(),
                ),
                answers,
                36 + 4 * k,
                #[trigger] cache_line_access_odd_sizes_asks(k),
            ),
        crate::stage::asks(
            crate::script::plan(
                "test_cache_line_access",
                crate::categories::c17_caching::cache_line_access_steps(),
            ),
            answers,
            52,
            cache_line_access_end_asks(),
        ),
        crate::stage::asked(
            crate::script::plan(
                "test_cache_line_access",
                crate::categories::c17_caching::cache_line_access_steps(),
            ),
            answers,
            53,
        ) is None,
{
    let plan = crate::script::plan(
        "test_cache_line_access",
        crate::categories::c17_caching::cache_line_access_steps(),
    );
    let round1 = |k: int| crate::categories::c17_caching::cache_line_access_lines_round(k as u64);
    let part1 = crate::script::rounds(6, round1);
    assert forall|k: int| 0 <= k < 6 implies (#[trigger] round1(k)).len() == 10 by {
        lemma_cache_line_access_lines_steps(k);
    }
    crate::stage::lemma_rounds_length(6, round1, 10);
    let round2 = |k: int| crate::categories::c17_caching::cache_line_access_odd_sizes_round(
        k as u64,
    );
    let part2 = crate::script::rounds(4, round2);
    assert forall|k: int| 0 <= k < 4 implies (#[trigger] round2(k)).len() == 6 by {
        lemma_cache_line_access_odd_sizes_steps(k);
    }
    crate::stage::lemma_rounds_length(4, round2, 6);
    let part3 = crate::categories::c17_caching::cache_line_access_end_steps();
    lemma_cache_line_access_end_steps();
    let whole1 = part1;
    let whole2 = whole1 + part2;
    let whole3 = whole2 + part3;
    assert(plan.steps == whole3);
    let m0 = crate::stage::lemma_start(plan, answers);
    assert forall|j: int| 0 <= j < 60 implies plan.steps[0 + j] == #[trigger] part1[j] by {}
    let m1 = lemma_cache_line_access_lines_rounds(m0, part1, 6);
    assert forall|j: int| 0 <= j < 24 implies plan.steps[60 + j] == #[trigger] part2[j] by {}
    let m2 = lemma_cache_line_access_odd_sizes_rounds(m1, part2, 4);
    assert forall|j: int| 0 <= j < 1 implies plan.steps[84 + j] == #[trigger] part3[j] by {}
    let m3 = lemma_cache_line_access_end(m2, part3);
    crate::stage::lemma_end(m3);
}

/// A buffer that is uploaded in the part `start` of `test_cache_reuse`.
pub open spec fn cache_reuse_start_table1() -> Thing {
    Thing::Table {
        layout: Layout::Val,
        scalar: Scalar::U32,
        columns: seq![crate::stage::column(10000, |i: int| ((i * 17) + 13) % 10000)],
        turn: 0,
    }
}

/// A column that is filled in the part `mask` of `test_cache_reuse`.
pub open spec fn cache_reuse_mask_words1() -> Seq<u64> {
    crate::stage::column(10000, |i: int| crate::stage::flag(((i % 3) == 0)))
}

/// A buffer that is uploaded in the part `table` of `test_cache_reuse`.
pub open spec fn cache_reuse_table_table1() -> Thing {
    Thing::Table {
        layout: Layout::KeyVal,
        scalar: Scalar::U32,
        columns: seq![
            crate::stage::column(10000, |i: int| i % 1000),
            crate::stage::column(10000, |i: int| i),
        ],
        turn: 61,
    }
}

/// What the device is asked in the part `start` of `test_cache_reuse`.
pub open spec fn cache_reuse_start_asks() -> Seq<Ask> {
    seq![Ask::Make(cache_reuse_start_table1())]
}

/// The part `start` of `test_cache_reuse` asks what it should.
proof fn lemma_cache_reuse_start(m: Moment, steps: Seq<Step>) -> (n: Moment)
    requires
        m.holds(),
        m.at == 0,
        m.used == 0,
        0 + 2 <= m.plan.steps.len(),
        forall|j: int| 0 <= j < 2 ==> m.plan.steps[0 + j] == #[trigger] steps[j],
        crate::stage::fills(
            steps[0],
            0,
            num(10000),
            modulo(plus(times(ix(), num(17)), num(13)), num(10000)),
        ),
        crate::stage::demands(
            steps[1],
            Request::Create { into: 0, layout: Layout::Val, scalar: Scalar::U32, from: 0 },
        ),
    ensures
        n.holds(),
        n.plan == m.plan,
        n.answers == m.answers,
        n.at == 0 + 2,
        n.used == m.used + 1,
        n.scene.buffer(0) == cache_reuse_start_table1(),
        crate::stage::asks(m.plan, m.answers, 0, cache_reuse_start_asks()),
{
    crate::stage::lemma_full(m);
    crate::stage::lemma_asks_none(m, 0);
    let list0 = Seq::<Ask>::empty();
    let words1 = crate::stage::column(10000, |i: int| ((i * 17) + 13) % 10000);
    let word1 = modulo(plus(times(ix(), num(17)), num(13)), num(10000));
    assert forall|i: int| 0 <= i < words1.len() implies crate::stage::meaning(
        word1,
        m.contents,
        i,
    ) as u64 == #[trigger] words1[i] by {
        reveal_with_fuel(crate::stage::meaning, 5);
    }
    let m1 = crate::stage::lemma_filled(m, steps[0], 0, num(10000), word1, words1);
    let m2 = crate::stage::lemma_create(
        m1,
        steps[1],
        0,
        Layout::Val,
        Scalar::U32,
        0,
        cache_reuse_start_table1(),
    );
    crate::stage::lemma_asks_more(m, 0, list0, Ask::Make(cache_reuse_start_table1()));
    let list1 = list0.push(Ask::Make(cache_reuse_start_table1()));
    assert(cache_reuse_start_asks() == list1);
    m2
}

/// The steps of the part `start` of `test_cache_reuse`.
proof fn lemma_cache_reuse_start_steps()
    ensures
        ({
            let steps = crate::categories::c17_caching::cache_reuse_start_steps();
            &&& steps.len() == 2
            &&& crate::stage::fills(
                steps[0],
                0,
                num(10000),
                modulo(plus(times(ix(), num(17)), num(13)), num(10000)),
            )
            &&& crate::stage::demands(
                steps[1],
                Request::Create { into: 0, layout: Layout::Val, scalar: Scalar::U32, from: 0 },
            )
        }),
{
}

/// What the device is asked in round `k` of the part `sorts` of `test_cache_reuse`.
pub open spec fn cache_reuse_sorts_with_asks(k: int) -> Seq<Ask> {
    let sorted1 = Thing::Sorted {
        of: Box::new(cache_reuse_start_table1()),
        keys: 1,
        turn: 1 + 3 * k,
    };
    seq![
        Ask::Make(sorted1),
        Ask::Words { of: sorted1, column: 0, scalar: Scalar::U32 },
        Ask::Other(Request::Release { from: 1 }),
    ]
}

/// Round `k` of the part `sorts` of `test_cache_reuse` asks what it should.
proof fn lemma_cache_reuse_sorts_with(m: Moment, steps: Seq<Step>, k: int) -> (n: Moment)
    requires
        0 <= k < 10,
        k == 0,
        m.holds(),
        m.at == 2 + 6 * k,
        m.used == 1 + 3 * k,
        2 + 6 * k + 6 <= m.plan.steps.len(),
        forall|j: int| 0 <= j < 6 ==> m.plan.steps[2 + 6 * k + j] == #[trigger] steps[j],
        crate::stage::demands(steps[0], Request::Sort { of: 0, keys: 1, into: 1 }),
        crate::stage::demands(
            steps[1],
            Request::Download { of: 1, column: 0, scalar: Scalar::U32, into: 2 },
        ),
        crate::stage::looks(steps[2]),
        crate::stage::guards(steps[3], same_as(num(k as u64), num(0))),
        crate::walk::straight(steps[3]),
        crate::stage::works(crate::stage::bare(steps[3]), 1),
        crate::stage::guards(steps[4], differs(num(k as u64), num(0))),
        crate::walk::straight(steps[4]),
        crate::stage::inquires(steps[5], Request::Release { from: 1 }),
        m.scene.buffer(0) == cache_reuse_start_table1(),
    ensures
        n.holds(),
        n.plan == m.plan,
        n.answers == m.answers,
        n.at == 2 + 6 * k + 6,
        n.used == m.used + 3,
        n.scene.buffer(0) == cache_reuse_start_table1(),
        crate::stage::asks(m.plan, m.answers, 1 + 3 * k, cache_reuse_sorts_with_asks(k)),
{
    crate::stage::lemma_full(m);
    crate::stage::lemma_asks_none(m, 1 + 3 * k);
    let list0 = Seq::<Ask>::empty();
    let sorted1 = Thing::Sorted {
        of: Box::new(cache_reuse_start_table1()),
        keys: 1,
        turn: 1 + 3 * k,
    };
    let m1 = crate::stage::lemma_sort(m, steps[0], 0, 1, 1, cache_reuse_start_table1(), sorted1);
    crate::stage::lemma_asks_more(m, 1 + 3 * k, list0, Ask::Make(sorted1));
    let list1 = list0.push(Ask::Make(sorted1));
    let m2 = crate::stage::lemma_download(m1, steps[1], 1, 0, Scalar::U32, 2, sorted1);
    crate::stage::lemma_asks_more(
        m,
        1 + 3 * k,
        list1,
        Ask::Words { of: sorted1, column: 0, scalar: Scalar::U32 },
    );
    let list2 = list1.push(Ask::Words { of: sorted1, column: 0, scalar: Scalar::U32 });
    let m3 = crate::stage::lemma_look(m2, steps[2]);
    assert(crate::stage::meaning(same_as(num(k as u64), num(0)), m3.contents, 0) != 0) by {
        reveal_with_fuel(crate::stage::meaning, 6);
    }
    crate::stage::lemma_guard(m3, steps[3], same_as(num(k as u64), num(0)), true);
    let m4 = crate::stage::lemma_work(m3, steps[3], 1);
    assert(crate::stage::meaning(differs(num(k as u64), num(0)), m4.contents, 0) == 0) by {
        reveal_with_fuel(crate::stage::meaning, 6);
    }
    crate::stage::lemma_guard(m4, steps[4], differs(num(k as u64), num(0)), false);
    let m5 = crate::stage::lemma_skipped(m4, steps[4]);
    let m6 = crate::stage::lemma_release(m5, steps[5], 1);
    crate::stage::lemma_asks_more(m, 1 + 3 * k, list2, Ask::Other(Request::Release { from: 1 }));
    let list3 = list2.push(Ask::Other(Request::Release { from: 1 }));
    assert(cache_reuse_sorts_with_asks(k) == list3);
    m6
}

/// What the device is asked in round `k` of the part `sorts` of `test_cache_reuse`.
pub open spec fn cache_reuse_sorts_without_asks(k: int) -> Seq<Ask> {
    let sorted1 = Thing::Sorted {
        of: Box::new(cache_reuse_start_table1()),
        keys: 1,
        turn: 1 + 3 * k,
    };
    seq![
        Ask::Make(sorted1),
        Ask::Words { of: sorted1, column: 0, scalar: Scalar::U32 },
        Ask::Other(Request::Release { from: 1 }),
    ]
}

/// Round `k` of the part `sorts` of `test_cache_reuse` asks what it should.
proof fn lemma_cache_reuse_sorts_without(m: Moment, steps: Seq<Step>, k: int) -> (n: Moment)
    requires
        0 <= k < 10,
        !(k == 0),
        m.holds(),
        m.at == 2 + 6 * k,
        m.used == 1 + 3 * k,
        2 + 6 * k + 6 <= m.plan.steps.len(),
        forall|j: int| 0 <= j < 6 ==> m.plan.steps[2 + 6 * k + j] == #[trigger] steps[j],
        crate::stage::demands(steps[0], Request::Sort { of: 0, keys: 1, into: 1 }),
        crate::stage::demands(
            steps[1],
            Request::Download { of: 1, column: 0, scalar: Scalar::U32, into: 2 },
        ),
        crate::stage::looks(steps[2]),
        crate::stage::guards(steps[3], same_as(num(k as u64), num(0))),
        crate::walk::straight(steps[3]),
        crate::stage::guards(steps[4], differs(num(k as u64), num(0))),
        crate::walk::straight(steps[4]),
        crate::stage::looks(crate::stage::bare(steps[4])),
        crate::stage::inquires(steps[5], Request::Release { from: 1 }),
        m.scene.buffer(0) == cache_reuse_start_table1(),
    ensures
        n.holds(),
        n.plan == m.plan,
        n.answers == m.answers,
        n.at == 2 + 6 * k + 6,
        n.used == m.used + 3,
        n.scene.buffer(0) == cache_reuse_start_table1(),
        crate::stage::asks(m.plan, m.answers, 1 + 3 * k, cache_reuse_sorts_without_asks(k)),
{
    crate::stage::lemma_full(m);
    crate::stage::lemma_asks_none(m, 1 + 3 * k);
    let list0 = Seq::<Ask>::empty();
    let sorted1 = Thing::Sorted {
        of: Box::new(cache_reuse_start_table1()),
        keys: 1,
        turn: 1 + 3 * k,
    };
    let m1 = crate::stage::lemma_sort(m, steps[0], 0, 1, 1, cache_reuse_start_table1(), sorted1);
    crate::stage::lemma_asks_more(m, 1 + 3 * k, list0, Ask::Make(sorted1));
    let list1 = list0.push(Ask::Make(sorted1));
    let m2 = crate::stage::lemma_download(m1, steps[1], 1, 0, Scalar::U32, 2, sorted1);
    crate::stage::lemma_asks_more(
        m,
        1 + 3 * k,
        list1,
        Ask::Words { of: sorted1, column: 0, scalar: Scalar::U32 },
    );
    let list2 = list1.push(Ask::Words { of: sorted1, column: 0, scalar: Scalar::U32 });
    let m3 = crate::stage::lemma_look(m2, steps[2]);
    assert(crate::stage::meaning(same_as(num(k as u64), num(0)), m3.contents, 0) == 0) by {
        reveal_with_fuel(crate::stage::meaning, 6);
    }
    crate::stage::lemma_guard(m3, steps[3], same_as(num(k as u64), num(0)), false);
    let m4 = crate::stage::lemma_skipped(m3, steps[3]);
    assert(crate::stage::meaning(differs(num(k as u64), num(0)), m4.contents, 0) != 0) by {
        reveal_with_fuel(crate::stage::meaning, 6);
    }
    crate::stage::lemma_guard(m4, steps[4], differs(num(k as u64), num(0)), true);
    let m5 = crate::stage::lemma_look(m4, steps[4]);
    let m6 = crate::stage::lemma_release(m5, steps[5], 1);
    crate::stage::lemma_asks_more(m, 1 + 3 * k, list2, Ask::Other(Request::Release { from: 1 }));
    let list3 = list2.push(Ask::Other(Request::Release { from: 1 }));
    assert(cache_reuse_sorts_without_asks(k) == list3);
    m6
}

/// The steps of the part `sorts` of `test_cache_reuse`.
proof fn lemma_cache_reuse_sorts_steps(k: int)
    ensures
        ({
            let steps = crate::categories::c17_caching::cache_reuse_sorts_round(k as u64);
            &&& steps.len() == 6
            &&& crate::stage::demands(steps[0], Request::Sort { of: 0, keys: 1, into: 1 })
            &&& crate::stage::demands(
                steps[1],
                Request::Download { of: 1, column: 0, scalar: Scalar::U32, into: 2 },
            )
            &&& crate::stage::looks(steps[2])
            &&& crate::stage::guards(steps[3], same_as(num(k as u64), num(0)))
            &&& crate::walk::straight(steps[3])
            &&& crate::stage::works(crate::stage::bare(steps[3]), 1)
            &&& crate::stage::guards(steps[4], differs(num(k as u64), num(0)))
            &&& crate::walk::straight(steps[4])
            &&& crate::stage::inquires(steps[5], Request::Release { from: 1 })
            &&& crate::stage::looks(crate::stage::bare(steps[4]))
        }),
{
}

/// Round `k` of the part `sorts` of `test_cache_reuse` asks what it should.
proof fn lemma_cache_reuse_sorts_round(m: Moment, k: int) -> (n: Moment)
    requires
        0 <= k < 10,
        m.holds(),
        m.at == 2 + 6 * k,
        m.used == 1 + 3 * k,
        m.at + 6 <= m.plan.steps.len(),
        forall|j: int|
            0 <= j < 6 ==> m.plan.steps[2 + 6 * k + j] == #[trigger] crate::categories::c17_caching::cache_reuse_sorts_round(
                k as u64,
            )[j],
        m.scene.buffer(0) == cache_reuse_start_table1(),
    ensures
        n.holds(),
        n.plan == m.plan,
        n.answers == m.answers,
        n.at == 2 + 6 * (k + 1),
        n.used == 1 + 3 * (k + 1),
        n.scene.buffer(0) == cache_reuse_start_table1(),
        k == 0 ==> crate::stage::asks(m.plan, m.answers, 1 + 3 * k, cache_reuse_sorts_with_asks(k)),
        !(k == 0) ==> crate::stage::asks(
            m.plan,
            m.answers,
            1 + 3 * k,
            cache_reuse_sorts_without_asks(k),
        ),
{
    let steps = crate::categories::c17_caching::cache_reuse_sorts_round(k as u64);
    lemma_cache_reuse_sorts_steps(k);
    if k == 0 {
        lemma_cache_reuse_sorts_with(m, steps, k)
    } else {
        lemma_cache_reuse_sorts_without(m, steps, k)
    }
}

/// The first `k` rounds of the part `sorts` of `test_cache_reuse` ask what they should.
proof fn lemma_cache_reuse_sorts_rounds(m: Moment, part: Seq<Step>, k: int) -> (n: Moment)
    requires
        0 <= k <= 10,
        m.holds(),
        m.at == 2,
        m.used == 1 + 3 * 0,
        m.at + 60 <= m.plan.steps.len(),
        part == crate::script::rounds(
            10,
            |k: int| crate::categories::c17_caching::cache_reuse_sorts_round(k as u64),
        ),
        forall|j: int| 0 <= j < 60 ==> m.plan.steps[2 + j] == #[trigger] part[j],
        m.scene.buffer(0) == cache_reuse_start_table1(),
    ensures
        n.holds(),
        n.plan == m.plan,
        n.answers == m.answers,
        n.at == 2 + 6 * k,
        n.used == 1 + 3 * k,
        n.scene.buffer(0) == cache_reuse_start_table1(),
        forall|j: int|
            0 <= j < k && j == 0 ==> crate::stage::asks(
                m.plan,
                m.answers,
                1 + 3 * j,
                #[trigger] cache_reuse_sorts_with_asks(j),
            ),
        forall|j: int|
            0 <= j < k && !(j == 0) ==> crate::stage::asks(
                m.plan,
                m.answers,
                1 + 3 * j,
                #[trigger] cache_reuse_sorts_without_asks(j),
            ),
    decreases k,
{
    if k == 0 {
        m
    } else {
        let round = |k: int| crate::categories::c17_caching::cache_reuse_sorts_round(k as u64);
        let before = lemma_cache_reuse_sorts_rounds(m, part, k - 1);
        assert forall|j: int| 0 <= j < 6 implies m.plan.steps[before.at + j] == #[trigger] crate::categories::c17_caching::cache_reuse_sorts_round(
            (k - 1) as u64,
        )[j] by {
            assert forall|k: int| 0 <= k < 10 implies (#[trigger] round(k)).len() == 6 by {
                lemma_cache_reuse_sorts_steps(k);
            }
            crate::stage::lemma_round_place(10, round, 6, k - 1, j);
            assert(part[(k - 1) * 6 + j] == round(k - 1)[j]);
        }
        lemma_cache_reuse_sorts_round(before, k - 1)
    }
}

/// The part `mask` of `test_cache_reuse` asks what it should.
proof fn lemma_cache_reuse_mask(m: Moment, steps: Seq<Step>) -> (n: Moment)
    requires
        m.holds(),
        m.at == 62,
        m.used == 31,
        62 + 1 <= m.plan.steps.len(),
        forall|j: int| 0 <= j < 1 ==> m.plan.steps[62 + j] == #[trigger] steps[j],
        crate::stage::fills(steps[0], 3, num(10000), same_as(modulo(ix(), num(3)), num(0))),
        m.scene.buffer(0) == cache_reuse_start_table1(),
    ensures
        n.holds(),
        n.plan == m.plan,
        n.answers == m.answers,
        n.at == 62 + 1,
        n.used == m.used + 0,
        n.contents.columns[3] == cache_reuse_mask_words1(),
        n.scene.buffer(0) == cache_reuse_start_table1(),
{
    crate::stage::lemma_full(m);
    let words1 = cache_reuse_mask_words1();
    let word1 = same_as(modulo(ix(), num(3)), num(0));
    assert forall|i: int| 0 <= i < words1.len() implies crate::stage::meaning(
        word1,
        m.contents,
        i,
    ) as u64 == #[trigger] words1[i] by {
        reveal_with_fuel(crate::stage::meaning, 4);
    }
    let m1 = crate::stage::lemma_filled(m, steps[0], 3, num(10000), word1, words1);
    m1
}

/// The steps of the part `mask` of `test_cache_reuse`.
proof fn lemma_cache_reuse_mask_steps()
    ensures
        ({
            let steps = crate::categories::c17_caching::cache_reuse_mask_steps();
            &&& steps.len() == 1
            &&& crate::stage::fills(steps[0], 3, num(10000), same_as(modulo(ix(), num(3)), num(0)))
        }),
{
}

/// What the device is asked in round `k` of the part `filters` of `test_cache_reuse`.
pub open spec fn cache_reuse_filters_asks(k: int) -> Seq<Ask> {
    let kept1 = Thing::Kept {
        of: Box::new(cache_reuse_start_table1()),
        mask: cache_reuse_mask_words1(),
        turn: 31 + 3 * k,
    };
    seq![Ask::Make(kept1), Ask::Rows(kept1), Ask::Other(Request::Release { from: 1 })]
}

/// Round `k` of the part `filters` of `test_cache_reuse` asks what it should.
proof fn lemma_cache_reuse_filters(m: Moment, steps: Seq<Step>, k: int) -> (n: Moment)
    requires
        0 <= k < 10,
        m.holds(),
        m.at == 63 + 3 * k,
        m.used == 31 + 3 * k,
        63 + 3 * k + 3 <= m.plan.steps.len(),
        forall|j: int| 0 <= j < 3 ==> m.plan.steps[63 + 3 * k + j] == #[trigger] steps[j],
        crate::stage::demands(steps[0], Request::Filter { of: 0, mask: 3, into: 1 }),
        crate::stage::counts(steps[1], 1),
        crate::stage::inquires(steps[2], Request::Release { from: 1 }),
        m.contents.columns[3] == cache_reuse_mask_words1(),
        m.scene.buffer(0) == cache_reuse_start_table1(),
    ensures
        n.holds(),
        n.plan == m.plan,
        n.answers == m.answers,
        n.at == 63 + 3 * k + 3,
        n.used == m.used + 3,
        n.contents.columns[3] == cache_reuse_mask_words1(),
        n.scene.buffer(0) == cache_reuse_start_table1(),
        crate::stage::asks(m.plan, m.answers, 31 + 3 * k, cache_reuse_filters_asks(k)),
{
    crate::stage::lemma_full(m);
    crate::stage::lemma_asks_none(m, 31 + 3 * k);
    let list0 = Seq::<Ask>::empty();
    let kept1 = Thing::Kept {
        of: Box::new(cache_reuse_start_table1()),
        mask: cache_reuse_mask_words1(),
        turn: 31 + 3 * k,
    };
    let m1 = crate::stage::lemma_filter(
        m,
        steps[0],
        0,
        3,
        1,
        cache_reuse_start_table1(),
        cache_reuse_mask_words1(),
        kept1,
    );
    crate::stage::lemma_asks_more(m, 31 + 3 * k, list0, Ask::Make(kept1));
    let list1 = list0.push(Ask::Make(kept1));
    let m2 = crate::stage::lemma_count(m1, steps[1], 1, kept1);
    crate::stage::lemma_asks_more(m, 31 + 3 * k, list1, Ask::Rows(kept1));
    let list2 = list1.push(Ask::Rows(kept1));
    let m3 = crate::stage::lemma_release(m2, steps[2], 1);
    crate::stage::lemma_asks_more(m, 31 + 3 * k, list2, Ask::Other(Request::Release { from: 1 }));
    let list3 = list2.push(Ask::Other(Request::Release { from: 1 }));
    assert(cache_reuse_filters_asks(k) == list3);
    m3
}

/// The steps of the part `filters` of `test_cache_reuse`.
proof fn lemma_cache_reuse_filters_steps(k: int)
    ensures
        ({
            let steps = crate::categories::c17_caching::cache_reuse_filters_round(k as u64);
            &&& steps.len() == 3
            &&& crate::stage::demands(steps[0], Request::Filter { of: 0, mask: 3, into: 1 })
            &&& crate::stage::counts(steps[1], 1)
            &&& crate::stage::inquires(steps[2], Request::Release { from: 1 })
        }),
{
}

/// The first `k` rounds of the part `filters` of `test_cache_reuse` ask what they should.
proof fn lemma_cache_reuse_filters_rounds(m: Moment, part: Seq<Step>, k: int) -> (n: Moment)
    requires
        0 <= k <= 10,
        m.holds(),
        m.at == 63,
        m.used == 31 + 3 * 0,
        m.at + 30 <= m.plan.steps.len(),
        part == crate::script::rounds(
            10,
            |k: int| crate::categories::c17_caching::cache_reuse_filters_round(k as u64),
        ),
        forall|j: int| 0 <= j < 30 ==> m.plan.steps[63 + j] == #[trigger] part[j],
        m.contents.columns[3] == cache_reuse_mask_words1(),
        m.scene.buffer(0) == cache_reuse_start_table1(),
    ensures
        n.holds(),
        n.plan == m.plan,
        n.answers == m.answers,
        n.at == 63 + 3 * k,
        n.used == 31 + 3 * k,
        n.contents.columns[3] == cache_reuse_mask_words1(),
        n.scene.buffer(0) == cache_reuse_start_table1(),
        forall|j: int|
            0 <= j < k ==> crate::stage::asks(
                m.plan,
                m.answers,
                31 + 3 * j,
                #[trigger] cache_reuse_filters_asks(j),
            ),
    decreases k,
{
    if k == 0 {
        m
    } else {
        let round = |k: int| crate::categories::c17_caching::cache_reuse_filters_round(k as u64);
        let before = lemma_cache_reuse_filters_rounds(m, part, k - 1);
        assert forall|j: int| 0 <= j < 3 implies m.plan.steps[before.at + j] == #[trigger] crate::categories::c17_caching::cache_reuse_filters_round(
            (k - 1) as u64,
        )[j] by {
            assert forall|k: int| 0 <= k < 10 implies (#[trigger] round(k)).len() == 3 by {
                lemma_cache_reuse_filters_steps(k);
            }
            crate::stage::lemma_round_place(10, round, 3, k - 1, j);
            assert(part[(k - 1) * 3 + j] == round(k - 1)[j]);
        }
        lemma_cache_reuse_filters_steps(k - 1);
        lemma_cache_reuse_filters(
            before,
            crate::categories::c17_caching::cache_reuse_filters_round((k - 1) as u64),
            k - 1,
        )
    }
}

/// What the device is asked in the part `table` of `test_cache_reuse`.
pub open spec fn cache_reuse_table_asks() -> Seq<Ask> {
    seq![Ask::Make(cache_reuse_table_table1())]
}

/// The part `table` of `test_cache_reuse` asks what it should.
proof fn lemma_cache_reuse_table(m: Moment, steps: Seq<Step>) -> (n: Moment)
    requires
        m.holds(),
        m.at == 93,
        m.used == 61,
        93 + 3 <= m.plan.steps.len(),
        forall|j: int| 0 <= j < 3 ==> m.plan.steps[93 + j] == #[trigger] steps[j],
        crate::stage::fills(steps[0], 4, num(10000), modulo(ix(), num(1000))),
        crate::stage::fills(steps[1], 5, num(10000), ix()),
        crate::stage::demands(
            steps[2],
            Request::Create { into: 1, layout: Layout::KeyVal, scalar: Scalar::U32, from: 4 },
        ),
    ensures
        n.holds(),
        n.plan == m.plan,
        n.answers == m.answers,
        n.at == 93 + 3,
        n.used == m.used + 1,
        n.scene.buffer(1) == cache_reuse_table_table1(),
        crate::stage::asks(m.plan, m.answers, 61, cache_reuse_table_asks()),
{
    crate::stage::lemma_full(m);
    crate::stage::lemma_asks_none(m, 61);
    let list0 = Seq::<Ask>::empty();
    let words1 = crate::stage::column(10000, |i: int| i % 1000);
    let word1 = modulo(ix(), num(1000));
    assert forall|i: int| 0 <= i < words1.len() implies crate::stage::meaning(
        word1,
        m.contents,
        i,
    ) as u64 == #[trigger] words1[i] by {
        reveal_with_fuel(crate::stage::meaning, 3);
    }
    let m1 = crate::stage::lemma_filled(m, steps[0], 4, num(10000), word1, words1);
    let words2 = crate::stage::column(10000, |i: int| i);
    let word2 = ix();
    assert forall|i: int| 0 <= i < words2.len() implies crate::stage::meaning(
        word2,
        m1.contents,
        i,
    ) as u64 == #[trigger] words2[i] by {
        reveal_with_fuel(crate::stage::meaning, 1);
    }
    let m2 = crate::stage::lemma_filled(m1, steps[1], 5, num(10000), word2, words2);
    let m3 = crate::stage::lemma_create(
        m2,
        steps[2],
        1,
        Layout::KeyVal,
        Scalar::U32,
        4,
        cache_reuse_table_table1(),
    );
    crate::stage::lemma_asks_more(m, 61, list0, Ask::Make(cache_reuse_table_table1()));
    let list1 = list0.push(Ask::Make(cache_reuse_table_table1()));
    assert(cache_reuse_table_asks() == list1);
    m3
}

/// The steps of the part `table` of `test_cache_reuse`.
proof fn lemma_cache_reuse_table_steps()
    ensures
        ({
            let steps = crate::categories::c17_caching::cache_reuse_table_steps();
            &&& steps.len() == 3
            &&& crate::stage::fills(steps[0], 4, num(10000), modulo(ix(), num(1000)))
            &&& crate::stage::fills(steps[1], 5, num(10000), ix())
            &&& crate::stage::demands(
                steps[2],
                Request::Create { into: 1, layout: Layout::KeyVal, scalar: Scalar::U32, from: 4 },
            )
        }),
{
}

/// What the device is asked in round `k` of the part `dedups` of `test_cache_reuse`.
pub open spec fn cache_reuse_dedups_asks(k: int) -> Seq<Ask> {
    let unique1 = Thing::Unique { of: Box::new(cache_reuse_table_table1()), turn: 62 + 3 * k };
    seq![Ask::Make(unique1), Ask::Rows(unique1), Ask::Other(Request::Release { from: 2 })]
}

/// Round `k` of the part `dedups` of `test_cache_reuse` asks what it should.
proof fn lemma_cache_reuse_dedups(m: Moment, steps: Seq<Step>, k: int) -> (n: Moment)
    requires
        0 <= k < 10,
        m.holds(),
        m.at == 96 + 3 * k,
        m.used == 62 + 3 * k,
        96 + 3 * k + 3 <= m.plan.steps.len(),
        forall|j: int| 0 <= j < 3 ==> m.plan.steps[96 + 3 * k + j] == #[trigger] steps[j],
        crate::stage::demands(steps[0], Request::Dedup { of: 1, into: 2 }),
        crate::stage::counts(steps[1], 2),
        crate::stage::inquires(steps[2], Request::Release { from: 2 }),
        m.scene.buffer(1) == cache_reuse_table_table1(),
    ensures
        n.holds(),
        n.plan == m.plan,
        n.answers == m.answers,
        n.at == 96 + 3 * k + 3,
        n.used == m.used + 3,
        n.scene.buffer(1) == cache_reuse_table_table1(),
        crate::stage::asks(m.plan, m.answers, 62 + 3 * k, cache_reuse_dedups_asks(k)),
{
    crate::stage::lemma_full(m);
    crate::stage::lemma_asks_none(m, 62 + 3 * k);
    let list0 = Seq::<Ask>::empty();
    let unique1 = Thing::Unique { of: Box::new(cache_reuse_table_table1()), turn: 62 + 3 * k };
    let m1 = crate::stage::lemma_dedup(m, steps[0], 1, 2, cache_reuse_table_table1(), unique1);
    crate::stage::lemma_asks_more(m, 62 + 3 * k, list0, Ask::Make(unique1));
    let list1 = list0.push(Ask::Make(unique1));
    let m2 = crate::stage::lemma_count(m1, steps[1], 2, unique1);
    crate::stage::lemma_asks_more(m, 62 + 3 * k, list1, Ask::Rows(unique1));
    let list2 = list1.push(Ask::Rows(unique1));
    let m3 = crate::stage::lemma_release(m2, steps[2], 2);
    crate::stage::lemma_asks_more(m, 62 + 3 * k, list2, Ask::Other(Request::Release { from: 2 }));
    let list3 = list2.push(Ask::Other(Request::Release { from: 2 }));
    assert(cache_reuse_dedups_asks(k) == list3);
    m3
}

/// The steps of the part `dedups` of `test_cache_reuse`.
proof fn lemma_cache_reuse_dedups_steps(k: int)
    ensures
        ({
            let steps = crate::categories::c17_caching::cache_reuse_dedups_round(k as u64);
            &&& steps.len() == 3
            &&& crate::stage::demands(steps[0], Request::Dedup { of: 1, into: 2 })
            &&& crate::stage::counts(steps[1], 2)
            &&& crate::stage::inquires(steps[2], Request::Release { from: 2 })
        }),
{
}

/// The first `k` rounds of the part `dedups` of `test_cache_reuse` ask what they should.
proof fn lemma_cache_reuse_dedups_rounds(m: Moment, part: Seq<Step>, k: int) -> (n: Moment)
    requires
        0 <= k <= 10,
        m.holds(),
        m.at == 96,
        m.used == 62 + 3 * 0,
        m.at + 30 <= m.plan.steps.len(),
        part == crate::script::rounds(
            10,
            |k: int| crate::categories::c17_caching::cache_reuse_dedups_round(k as u64),
        ),
        forall|j: int| 0 <= j < 30 ==> m.plan.steps[96 + j] == #[trigger] part[j],
        m.scene.buffer(1) == cache_reuse_table_table1(),
    ensures
        n.holds(),
        n.plan == m.plan,
        n.answers == m.answers,
        n.at == 96 + 3 * k,
        n.used == 62 + 3 * k,
        n.scene.buffer(1) == cache_reuse_table_table1(),
        forall|j: int|
            0 <= j < k ==> crate::stage::asks(
                m.plan,
                m.answers,
                62 + 3 * j,
                #[trigger] cache_reuse_dedups_asks(j),
            ),
    decreases k,
{
    if k == 0 {
        m
    } else {
        let round = |k: int| crate::categories::c17_caching::cache_reuse_dedups_round(k as u64);
        let before = lemma_cache_reuse_dedups_rounds(m, part, k - 1);
        assert forall|j: int| 0 <= j < 3 implies m.plan.steps[before.at + j] == #[trigger] crate::categories::c17_caching::cache_reuse_dedups_round(
            (k - 1) as u64,
        )[j] by {
            assert forall|k: int| 0 <= k < 10 implies (#[trigger] round(k)).len() == 3 by {
                lemma_cache_reuse_dedups_steps(k);
            }
            crate::stage::lemma_round_place(10, round, 3, k - 1, j);
            assert(part[(k - 1) * 3 + j] == round(k - 1)[j]);
        }
        lemma_cache_reuse_dedups_steps(k - 1);
        lemma_cache_reuse_dedups(
            before,
            crate::categories::c17_caching::cache_reuse_dedups_round((k - 1) as u64),
            k - 1,
        )
    }
}

/// What the device is asked in the part `end` of `test_cache_reuse`.
pub open spec fn cache_reuse_end_asks() -> Seq<Ask> {
    seq![Ask::Other(Request::Sync)]
}

/// The part `end` of `test_cache_reuse` asks what it should.
proof fn lemma_cache_reuse_end(m: Moment, steps: Seq<Step>) -> (n: Moment)
    requires
        m.holds(),
        m.at == 126,
        m.used == 92,
        126 + 1 <= m.plan.steps.len(),
        forall|j: int| 0 <= j < 1 ==> m.plan.steps[126 + j] == #[trigger] steps[j],
        crate::stage::demands(steps[0], Request::Sync),
    ensures
        n.holds(),
        n.plan == m.plan,
        n.answers == m.answers,
        n.at == 126 + 1,
        n.used == m.used + 1,
        crate::stage::asks(m.plan, m.answers, 92, cache_reuse_end_asks()),
{
    crate::stage::lemma_full(m);
    crate::stage::lemma_asks_none(m, 92);
    let list0 = Seq::<Ask>::empty();
    let m1 = crate::stage::lemma_sync(m, steps[0]);
    crate::stage::lemma_asks_more(m, 92, list0, Ask::Other(Request::Sync));
    let list1 = list0.push(Ask::Other(Request::Sync));
    assert(cache_reuse_end_asks() == list1);
    m1
}

/// The steps of the part `end` of `test_cache_reuse`.
proof fn lemma_cache_reuse_end_steps()
    ensures
        ({
            let steps = crate::categories::c17_caching::cache_reuse_end_steps();
            &&& steps.len() == 1
            &&& crate::stage::demands(steps[0], Request::Sync)
        }),
{
}

/// In a run of `test_cache_reuse` that passes the device is asked this, in this order, and nothing
/// else: each request about what an earlier one made is about that, and about what was uploaded for
/// it.
pub proof fn law_cache_reuse_asks_about_what_it_made(answers: Seq<Answer>)
    requires
        crate::stage::passes(
            crate::script::plan(
                "test_cache_reuse",
                crate::categories::c17_caching::cache_reuse_steps(),
            ),
            answers,
        ),
    ensures
        crate::stage::asks(
            crate::script::plan(
                "test_cache_reuse",
                crate::categories::c17_caching::cache_reuse_steps(),
            ),
            answers,
            0,
            cache_reuse_start_asks(),
        ),
        forall|k: int|
            0 <= k < 10 && k == 0 ==> crate::stage::asks(
                crate::script::plan(
                    "test_cache_reuse",
                    crate::categories::c17_caching::cache_reuse_steps(),
                ),
                answers,
                1 + 3 * k,
                #[trigger] cache_reuse_sorts_with_asks(k),
            ),
        forall|k: int|
            0 <= k < 10 && !(k == 0) ==> crate::stage::asks(
                crate::script::plan(
                    "test_cache_reuse",
                    crate::categories::c17_caching::cache_reuse_steps(),
                ),
                answers,
                1 + 3 * k,
                #[trigger] cache_reuse_sorts_without_asks(k),
            ),
        forall|k: int|
            0 <= k < 10 ==> crate::stage::asks(
                crate::script::plan(
                    "test_cache_reuse",
                    crate::categories::c17_caching::cache_reuse_steps(),
                ),
                answers,
                31 + 3 * k,
                #[trigger] cache_reuse_filters_asks(k),
            ),
        crate::stage::asks(
            crate::script::plan(
                "test_cache_reuse",
                crate::categories::c17_caching::cache_reuse_steps(),
            ),
            answers,
            61,
            cache_reuse_table_asks(),
        ),
        forall|k: int|
            0 <= k < 10 ==> crate::stage::asks(
                crate::script::plan(
                    "test_cache_reuse",
                    crate::categories::c17_caching::cache_reuse_steps(),
                ),
                answers,
                62 + 3 * k,
                #[trigger] cache_reuse_dedups_asks(k),
            ),
        crate::stage::asks(
            crate::script::plan(
                "test_cache_reuse",
                crate::categories::c17_caching::cache_reuse_steps(),
            ),
            answers,
            92,
            cache_reuse_end_asks(),
        ),
        crate::stage::asked(
            crate::script::plan(
                "test_cache_reuse",
                crate::categories::c17_caching::cache_reuse_steps(),
            ),
            answers,
            93,
        ) is None,
{
    let plan = crate::script::plan(
        "test_cache_reuse",
        crate::categories::c17_caching::cache_reuse_steps(),
    );
    let part1 = crate::categories::c17_caching::cache_reuse_start_steps();
    lemma_cache_reuse_start_steps();
    let round2 = |k: int| crate::categories::c17_caching::cache_reuse_sorts_round(k as u64);
    let part2 = crate::script::rounds(10, round2);
    assert forall|k: int| 0 <= k < 10 implies (#[trigger] round2(k)).len() == 6 by {
        lemma_cache_reuse_sorts_steps(k);
    }
    crate::stage::lemma_rounds_length(10, round2, 6);
    let part3 = crate::categories::c17_caching::cache_reuse_mask_steps();
    lemma_cache_reuse_mask_steps();
    let round4 = |k: int| crate::categories::c17_caching::cache_reuse_filters_round(k as u64);
    let part4 = crate::script::rounds(10, round4);
    assert forall|k: int| 0 <= k < 10 implies (#[trigger] round4(k)).len() == 3 by {
        lemma_cache_reuse_filters_steps(k);
    }
    crate::stage::lemma_rounds_length(10, round4, 3);
    let part5 = crate::categories::c17_caching::cache_reuse_table_steps();
    lemma_cache_reuse_table_steps();
    let round6 = |k: int| crate::categories::c17_caching::cache_reuse_dedups_round(k as u64);
    let part6 = crate::script::rounds(10, round6);
    assert forall|k: int| 0 <= k < 10 implies (#[trigger] round6(k)).len() == 3 by {
        lemma_cache_reuse_dedups_steps(k);
    }
    crate::stage::lemma_rounds_length(10, round6, 3);
    let part7 = crate::categories::c17_caching::cache_reuse_end_steps();
    lemma_cache_reuse_end_steps();
    let whole1 = part1;
    let whole2 = whole1 + part2;
    let whole3 = whole2 + part3;
    let whole4 = whole3 + part4;
    let whole5 = whole4 + part5;
    let whole6 = whole5 + part6;
    let whole7 = whole6 + part7;
    assert(plan.steps == whole7);
    let m0 = crate::stage::lemma_start(plan, answers);
    assert forall|j: int| 0 <= j < 2 implies plan.steps[0 + j] == #[trigger] part1[j] by {}
    let m1 = lemma_cache_reuse_start(m0, part1);
    assert forall|j: int| 0 <= j < 60 implies plan.steps[2 + j] == #[trigger] part2[j] by {}
    let m2 = lemma_cache_reuse_sorts_rounds(m1, part2, 10);
    assert forall|j: int| 0 <= j < 1 implies plan.steps[62 + j] == #[trigger] part3[j] by {}
    let m3 = lemma_cache_reuse_mask(m2, part3);
    assert forall|j: int| 0 <= j < 30 implies plan.steps[63 + j] == #[trigger] part4[j] by {}
    let m4 = lemma_cache_reuse_filters_rounds(m3, part4, 10);
    assert forall|j: int| 0 <= j < 3 implies plan.steps[93 + j] == #[trigger] part5[j] by {}
    let m5 = lemma_cache_reuse_table(m4, part5);
    assert forall|j: int| 0 <= j < 30 implies plan.steps[96 + j] == #[trigger] part6[j] by {}
    let m6 = lemma_cache_reuse_dedups_rounds(m5, part6, 10);
    assert forall|j: int| 0 <= j < 1 implies plan.steps[126 + j] == #[trigger] part7[j] by {}
    let m7 = lemma_cache_reuse_end(m6, part7);
    crate::stage::lemma_end(m7);
}

} // verus!
