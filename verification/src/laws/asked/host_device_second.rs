//! What these tests ask the device in runs that pass: `test_large_transfer`,
//! `test_repeated_transfer`.

use vstd::prelude::*;
use crate::expr::{ix, modulo, num, plus, same_as, times};
use crate::machine::Answer;
use crate::scalar::Scalar;
use crate::script::{Layout, Request, Step};
use crate::stage::{Ask, Moment, Thing};

verus! {

/// A buffer that is uploaded in the part `all` of `test_large_transfer`.
pub open spec fn large_transfer_all_table1() -> Thing {
    Thing::Table {
        layout: Layout::Val,
        scalar: Scalar::U32,
        columns: seq![
            crate::stage::column(25000000, |i: int| ((i * 1103515245) + 12345) % 25000000),
        ],
        turn: 0,
    }
}

/// What the device is asked in piece 1 of the part `all` of `test_large_transfer`.
pub open spec fn large_transfer_all_1_asks() -> Seq<Ask> {
    seq![
        Ask::Make(large_transfer_all_table1()),
        Ask::Rows(large_transfer_all_table1()),
        Ask::Words { of: large_transfer_all_table1(), column: 0, scalar: Scalar::U32 },
    ]
}

/// Piece 1 of the part `all` of `test_large_transfer` asks what it should.
proof fn lemma_large_transfer_all_1(m: Moment, steps: Seq<Step>) -> (n: Moment)
    requires
        m.holds(),
        m.at == 0,
        m.used == 0,
        0 + 14 <= m.plan.steps.len(),
        forall|j: int| 0 <= j < 14 ==> m.plan.steps[0 + j] == #[trigger] steps[j],
        crate::stage::fills(
            steps[0],
            0,
            num(25000000),
            modulo(plus(times(ix(), num(1103515245)), num(12345)), num(25000000)),
        ),
        crate::stage::demands(
            steps[1],
            Request::Create { into: 0, layout: Layout::Val, scalar: Scalar::U32, from: 0 },
        ),
        crate::stage::counts(steps[2], 0),
        crate::stage::demands(
            steps[3],
            Request::Download { of: 0, column: 0, scalar: Scalar::U32, into: 1 },
        ),
        crate::stage::looks(steps[4]),
        crate::stage::looks(steps[5]),
        crate::stage::looks(steps[6]),
        crate::stage::looks(steps[7]),
    ensures
        n.holds(),
        n.plan == m.plan,
        n.answers == m.answers,
        n.at == 0 + 8,
        n.used == m.used + 3,
        n.scene.buffer(0) == large_transfer_all_table1(),
        crate::stage::asks(m.plan, m.answers, 0, large_transfer_all_1_asks()),
{
    crate::stage::lemma_full(m);
    crate::stage::lemma_asks_none(m, 0);
    let list0 = Seq::<Ask>::empty();
    let words1 = crate::stage::column(25000000, |i: int| ((i * 1103515245) + 12345) % 25000000);
    let word1 = modulo(plus(times(ix(), num(1103515245)), num(12345)), num(25000000));
    assert forall|i: int| 0 <= i < words1.len() implies crate::stage::meaning(
        word1,
        m.contents,
        i,
    ) as u64 == #[trigger] words1[i] by {
        reveal_with_fuel(crate::stage::meaning, 5);
    }
    let m1 = crate::stage::lemma_filled(m, steps[0], 0, num(25000000), word1, words1);
    let m2 = crate::stage::lemma_create(
        m1,
        steps[1],
        0,
        Layout::Val,
        Scalar::U32,
        0,
        large_transfer_all_table1(),
    );
    crate::stage::lemma_asks_more(m, 0, list0, Ask::Make(large_transfer_all_table1()));
    let list1 = list0.push(Ask::Make(large_transfer_all_table1()));
    let m3 = crate::stage::lemma_count(m2, steps[2], 0, large_transfer_all_table1());
    crate::stage::lemma_asks_more(m, 0, list1, Ask::Rows(large_transfer_all_table1()));
    let list2 = list1.push(Ask::Rows(large_transfer_all_table1()));
    let m4 = crate::stage::lemma_download(
        m3,
        steps[3],
        0,
        0,
        Scalar::U32,
        1,
        large_transfer_all_table1(),
    );
    crate::stage::lemma_asks_more(
        m,
        0,
        list2,
        Ask::Words { of: large_transfer_all_table1(), column: 0, scalar: Scalar::U32 },
    );
    let list3 = list2.push(
        Ask::Words { of: large_transfer_all_table1(), column: 0, scalar: Scalar::U32 },
    );
    let m5 = crate::stage::lemma_look(m4, steps[4]);
    let m6 = crate::stage::lemma_look(m5, steps[5]);
    let m7 = crate::stage::lemma_look(m6, steps[6]);
    let m8 = crate::stage::lemma_look(m7, steps[7]);
    assert(large_transfer_all_1_asks() == list3);
    m8
}

/// What the device is asked in piece 2 of the part `all` of `test_large_transfer`.
pub open spec fn large_transfer_all_2_asks() -> Seq<Ask> {
    let words2 = crate::stage::column(25000000, |i: int| crate::stage::flag(((i % 10) == 0)));
    let kept1 = Thing::Kept { of: Box::new(large_transfer_all_table1()), mask: words2, turn: 3 };
    seq![
        Ask::Make(kept1),
        Ask::Rows(kept1),
        Ask::Words { of: kept1, column: 0, scalar: Scalar::U32 },
        Ask::Other(Request::Sync),
    ]
}

/// Piece 2 of the part `all` of `test_large_transfer` asks what it should.
proof fn lemma_large_transfer_all_2(m: Moment, steps: Seq<Step>) -> (n: Moment)
    requires
        m.holds(),
        m.at == 0 + 8,
        m.used == 3,
        0 + 14 <= m.plan.steps.len(),
        forall|j: int| 0 <= j < 14 ==> m.plan.steps[0 + j] == #[trigger] steps[j],
        crate::stage::fills(steps[8], 2, num(25000000), same_as(modulo(ix(), num(10)), num(0))),
        crate::stage::demands(steps[9], Request::Filter { of: 0, mask: 2, into: 1 }),
        crate::stage::counts(steps[10], 1),
        crate::stage::demands(
            steps[11],
            Request::Download { of: 1, column: 0, scalar: Scalar::U32, into: 3 },
        ),
        crate::stage::looks(steps[12]),
        crate::stage::demands(steps[13], Request::Sync),
        m.scene.buffer(0) == large_transfer_all_table1(),
    ensures
        n.holds(),
        n.plan == m.plan,
        n.answers == m.answers,
        n.at == 0 + 14,
        n.used == m.used + 4,
        crate::stage::asks(m.plan, m.answers, 3, large_transfer_all_2_asks()),
{
    crate::stage::lemma_full(m);
    crate::stage::lemma_asks_none(m, 3);
    let list0 = Seq::<Ask>::empty();
    let words2 = crate::stage::column(25000000, |i: int| crate::stage::flag(((i % 10) == 0)));
    let word1 = same_as(modulo(ix(), num(10)), num(0));
    assert forall|i: int| 0 <= i < words2.len() implies crate::stage::meaning(
        word1,
        m.contents,
        i,
    ) as u64 == #[trigger] words2[i] by {
        reveal_with_fuel(crate::stage::meaning, 4);
    }
    let m1 = crate::stage::lemma_filled(m, steps[8], 2, num(25000000), word1, words2);
    let kept1 = Thing::Kept { of: Box::new(large_transfer_all_table1()), mask: words2, turn: 3 };
    let m2 = crate::stage::lemma_filter(
        m1,
        steps[9],
        0,
        2,
        1,
        large_transfer_all_table1(),
        words2,
        kept1,
    );
    crate::stage::lemma_asks_more(m, 3, list0, Ask::Make(kept1));
    let list1 = list0.push(Ask::Make(kept1));
    let m3 = crate::stage::lemma_count(m2, steps[10], 1, kept1);
    crate::stage::lemma_asks_more(m, 3, list1, Ask::Rows(kept1));
    let list2 = list1.push(Ask::Rows(kept1));
    let m4 = crate::stage::lemma_download(m3, steps[11], 1, 0, Scalar::U32, 3, kept1);
    crate::stage::lemma_asks_more(
        m,
        3,
        list2,
        Ask::Words { of: kept1, column: 0, scalar: Scalar::U32 },
    );
    let list3 = list2.push(Ask::Words { of: kept1, column: 0, scalar: Scalar::U32 });
    let m5 = crate::stage::lemma_look(m4, steps[12]);
    let m6 = crate::stage::lemma_sync(m5, steps[13]);
    crate::stage::lemma_asks_more(m, 3, list3, Ask::Other(Request::Sync));
    let list4 = list3.push(Ask::Other(Request::Sync));
    assert(large_transfer_all_2_asks() == list4);
    m6
}

/// The steps of the part `all` of `test_large_transfer`.
proof fn lemma_large_transfer_all_steps()
    ensures
        ({
            let steps = crate::categories::c18_host_device::large_transfer_steps();
            &&& steps.len() == 14
            &&& crate::stage::fills(
                steps[0],
                0,
                num(25000000),
                modulo(plus(times(ix(), num(1103515245)), num(12345)), num(25000000)),
            )
            &&& crate::stage::demands(
                steps[1],
                Request::Create { into: 0, layout: Layout::Val, scalar: Scalar::U32, from: 0 },
            )
            &&& crate::stage::counts(steps[2], 0)
            &&& crate::stage::demands(
                steps[3],
                Request::Download { of: 0, column: 0, scalar: Scalar::U32, into: 1 },
            )
            &&& crate::stage::looks(steps[4])
            &&& crate::stage::looks(steps[5])
            &&& crate::stage::looks(steps[6])
            &&& crate::stage::looks(steps[7])
            &&& crate::stage::fills(
                steps[8],
                2,
                num(25000000),
                same_as(modulo(ix(), num(10)), num(0)),
            )
            &&& crate::stage::demands(steps[9], Request::Filter { of: 0, mask: 2, into: 1 })
            &&& crate::stage::counts(steps[10], 1)
            &&& crate::stage::demands(
                steps[11],
                Request::Download { of: 1, column: 0, scalar: Scalar::U32, into: 3 },
            )
            &&& crate::stage::looks(steps[12])
            &&& crate::stage::demands(steps[13], Request::Sync)
        }),
{
}

/// In a run of `test_large_transfer` that passes the device is asked this, in this order, and
/// nothing else: each request about what an earlier one made is about that, and about what was
/// uploaded for it.
pub proof fn law_large_transfer_asks_about_what_it_made(answers: Seq<Answer>)
    requires
        crate::stage::passes(
            crate::script::plan(
                "test_large_transfer",
                crate::categories::c18_host_device::large_transfer_steps(),
            ),
            answers,
        ),
    ensures
        crate::stage::asks(
            crate::script::plan(
                "test_large_transfer",
                crate::categories::c18_host_device::large_transfer_steps(),
            ),
            answers,
            0,
            large_transfer_all_1_asks(),
        ),
        crate::stage::asks(
            crate::script::plan(
                "test_large_transfer",
                crate::categories::c18_host_device::large_transfer_steps(),
            ),
            answers,
            3,
            large_transfer_all_2_asks(),
        ),
        crate::stage::asked(
            crate::script::plan(
                "test_large_transfer",
                crate::categories::c18_host_device::large_transfer_steps(),
            ),
            answers,
            7,
        ) is None,
{
    let plan = crate::script::plan(
        "test_large_transfer",
        crate::categories::c18_host_device::large_transfer_steps(),
    );
    let part1 = crate::categories::c18_host_device::large_transfer_steps();
    lemma_large_transfer_all_steps();
    let whole1 = part1;
    assert(plan.steps == whole1);
    let m0 = crate::stage::lemma_start(plan, answers);
    assert forall|j: int| 0 <= j < 14 implies plan.steps[0 + j] == #[trigger] part1[j] by {}
    let m1 = lemma_large_transfer_all_1(m0, part1);
    let m2 = lemma_large_transfer_all_2(m1, part1);
    crate::stage::lemma_end(m2);
}

/// The turn in which round `k` of the part `sorts` of `test_repeated_transfer` starts.
pub open spec fn repeated_transfer_sorts_start(k: int) -> int
    decreases k,
{
    if k <= 0 {
        1500
    } else {
        repeated_transfer_sorts_start(k - 1) + if ((k - 1) % 50) == 0 { 4int } else { 3int }
    }
}

/// What the device is asked in round `k` of the part `transfers` of `test_repeated_transfer`.
pub open spec fn repeated_transfer_transfers_asks(k: int) -> Seq<Ask> {
    let words1 = crate::stage::column(1000, |i: int| (i + (k * 1000)) % 1000000);
    let table1 = Thing::Table {
        layout: Layout::Val,
        scalar: Scalar::U32,
        columns: seq![words1],
        turn: 0 + 3 * k,
    };
    seq![
        Ask::Make(table1),
        Ask::Words { of: table1, column: 0, scalar: Scalar::U32 },
        Ask::Other(Request::Release { from: 0 }),
    ]
}

/// Round `k` of the part `transfers` of `test_repeated_transfer` asks what it should.
proof fn lemma_repeated_transfer_transfers(m: Moment, steps: Seq<Step>, k: int) -> (n: Moment)
    requires
        0 <= k < 500,
        m.holds(),
        m.at == 0 + 6 * k,
        m.used == 0 + 3 * k,
        0 + 6 * k + 6 <= m.plan.steps.len(),
        forall|j: int| 0 <= j < 6 ==> m.plan.steps[0 + 6 * k + j] == #[trigger] steps[j],
        crate::stage::fills(
            steps[0],
            0,
            num(1000),
            modulo(plus(ix(), times(num(k as u64), num(1000))), num(1000000)),
        ),
        crate::stage::demands(
            steps[1],
            Request::Create { into: 0, layout: Layout::Val, scalar: Scalar::U32, from: 0 },
        ),
        crate::stage::demands(
            steps[2],
            Request::Download { of: 0, column: 0, scalar: Scalar::U32, into: 1 },
        ),
        crate::stage::looks(steps[3]),
        crate::stage::looks(steps[4]),
        crate::stage::inquires(steps[5], Request::Release { from: 0 }),
    ensures
        n.holds(),
        n.plan == m.plan,
        n.answers == m.answers,
        n.at == 0 + 6 * k + 6,
        n.used == m.used + 3,
        crate::stage::asks(m.plan, m.answers, 0 + 3 * k, repeated_transfer_transfers_asks(k)),
{
    crate::stage::lemma_full(m);
    crate::stage::lemma_asks_none(m, 0 + 3 * k);
    let list0 = Seq::<Ask>::empty();
    let words1 = crate::stage::column(1000, |i: int| (i + (k * 1000)) % 1000000);
    let word1 = modulo(plus(ix(), times(num(k as u64), num(1000))), num(1000000));
    assert forall|i: int| 0 <= i < words1.len() implies crate::stage::meaning(
        word1,
        m.contents,
        i,
    ) as u64 == #[trigger] words1[i] by {
        reveal_with_fuel(crate::stage::meaning, 5);
    }
    let m1 = crate::stage::lemma_filled(m, steps[0], 0, num(1000), word1, words1);
    let table1 = Thing::Table {
        layout: Layout::Val,
        scalar: Scalar::U32,
        columns: seq![words1],
        turn: 0 + 3 * k,
    };
    let m2 = crate::stage::lemma_create(m1, steps[1], 0, Layout::Val, Scalar::U32, 0, table1);
    crate::stage::lemma_asks_more(m, 0 + 3 * k, list0, Ask::Make(table1));
    let list1 = list0.push(Ask::Make(table1));
    let m3 = crate::stage::lemma_download(m2, steps[2], 0, 0, Scalar::U32, 1, table1);
    crate::stage::lemma_asks_more(
        m,
        0 + 3 * k,
        list1,
        Ask::Words { of: table1, column: 0, scalar: Scalar::U32 },
    );
    let list2 = list1.push(Ask::Words { of: table1, column: 0, scalar: Scalar::U32 });
    let m4 = crate::stage::lemma_look(m3, steps[3]);
    let m5 = crate::stage::lemma_look(m4, steps[4]);
    let m6 = crate::stage::lemma_release(m5, steps[5], 0);
    crate::stage::lemma_asks_more(m, 0 + 3 * k, list2, Ask::Other(Request::Release { from: 0 }));
    let list3 = list2.push(Ask::Other(Request::Release { from: 0 }));
    assert(repeated_transfer_transfers_asks(k) == list3);
    m6
}

/// The steps of the part `transfers` of `test_repeated_transfer`.
proof fn lemma_repeated_transfer_transfers_steps(k: int)
    ensures
        ({
            let steps = crate::categories::c18_host_device::repeated_transfer_transfers_round(
                k as u64,
            );
            &&& steps.len() == 6
            &&& crate::stage::fills(
                steps[0],
                0,
                num(1000),
                modulo(plus(ix(), times(num(k as u64), num(1000))), num(1000000)),
            )
            &&& crate::stage::demands(
                steps[1],
                Request::Create { into: 0, layout: Layout::Val, scalar: Scalar::U32, from: 0 },
            )
            &&& crate::stage::demands(
                steps[2],
                Request::Download { of: 0, column: 0, scalar: Scalar::U32, into: 1 },
            )
            &&& crate::stage::looks(steps[3])
            &&& crate::stage::looks(steps[4])
            &&& crate::stage::inquires(steps[5], Request::Release { from: 0 })
        }),
{
}

/// The first `k` rounds of the part `transfers` of `test_repeated_transfer` ask what they should.
proof fn lemma_repeated_transfer_transfers_rounds(m: Moment, part: Seq<Step>, k: int) -> (n: Moment)
    requires
        0 <= k <= 500,
        m.holds(),
        m.at == 0,
        m.used == 0 + 3 * 0,
        m.at + 3000 <= m.plan.steps.len(),
        part == crate::script::rounds(
            500,
            |k: int| crate::categories::c18_host_device::repeated_transfer_transfers_round(
                k as u64,
            ),
        ),
        forall|j: int| 0 <= j < 3000 ==> m.plan.steps[0 + j] == #[trigger] part[j],
    ensures
        n.holds(),
        n.plan == m.plan,
        n.answers == m.answers,
        n.at == 0 + 6 * k,
        n.used == 0 + 3 * k,
        forall|j: int|
            0 <= j < k ==> crate::stage::asks(
                m.plan,
                m.answers,
                0 + 3 * j,
                #[trigger] repeated_transfer_transfers_asks(j),
            ),
    decreases k,
{
    if k == 0 {
        m
    } else {
        let round = |k: int| crate::categories::c18_host_device::repeated_transfer_transfers_round(
            k as u64,
        );
        let before = lemma_repeated_transfer_transfers_rounds(m, part, k - 1);
        assert forall|j: int| 0 <= j < 6 implies m.plan.steps[before.at + j] == #[trigger] crate::categories::c18_host_device::repeated_transfer_transfers_round(
            (k - 1) as u64,
        )[j] by {
            assert forall|k: int| 0 <= k < 500 implies (#[trigger] round(k)).len() == 6 by {
                lemma_repeated_transfer_transfers_steps(k);
            }
            crate::stage::lemma_round_place(500, round, 6, k - 1, j);
            assert(part[(k - 1) * 6 + j] == round(k - 1)[j]);
        }
        lemma_repeated_transfer_transfers_steps(k - 1);
        lemma_repeated_transfer_transfers(
            before,
            crate::categories::c18_host_device::repeated_transfer_transfers_round((k - 1) as u64),
            k - 1,
        )
    }
}

/// What the device is asked in round `k` of the part `sorts` of `test_repeated_transfer`.
pub open spec fn repeated_transfer_sorts_with_asks(k: int) -> Seq<Ask> {
    let words1 = crate::stage::column(1000, |i: int| i);
    let table1 = Thing::Table {
        layout: Layout::Val,
        scalar: Scalar::U32,
        columns: seq![words1],
        turn: repeated_transfer_sorts_start(k),
    };
    let sorted1 = Thing::Sorted {
        of: Box::new(table1),
        keys: 1,
        turn: repeated_transfer_sorts_start(k) + 1,
    };
    seq![
        Ask::Make(table1),
        Ask::Make(sorted1),
        Ask::Words { of: sorted1, column: 0, scalar: Scalar::U32 },
        Ask::Other(Request::Release { from: 0 }),
    ]
}

/// Round `k` of the part `sorts` of `test_repeated_transfer` asks what it should.
proof fn lemma_repeated_transfer_sorts_with(m: Moment, steps: Seq<Step>, k: int) -> (n: Moment)
    requires
        0 <= k < 500,
        (k % 50) == 0,
        m.holds(),
        m.at == 3000 + 6 * k,
        m.used == repeated_transfer_sorts_start(k),
        3000 + 6 * k + 6 <= m.plan.steps.len(),
        forall|j: int| 0 <= j < 6 ==> m.plan.steps[3000 + 6 * k + j] == #[trigger] steps[j],
        crate::stage::fills(steps[0], 0, num(1000), ix()),
        crate::stage::demands(
            steps[1],
            Request::Create { into: 0, layout: Layout::Val, scalar: Scalar::U32, from: 0 },
        ),
        crate::stage::demands(steps[2], Request::Sort { of: 0, keys: 1, into: 1 }),
        crate::stage::guards(steps[3], same_as(modulo(num(k as u64), num(50)), num(0))),
        crate::walk::straight(steps[3]),
        crate::stage::demands(
            crate::stage::bare(steps[3]),
            Request::Download { of: 1, column: 0, scalar: Scalar::U32, into: 1 },
        ),
        crate::stage::guards(steps[4], same_as(modulo(num(k as u64), num(50)), num(0))),
        crate::walk::straight(steps[4]),
        crate::stage::looks(crate::stage::bare(steps[4])),
        crate::stage::inquires(steps[5], Request::Release { from: 0 }),
    ensures
        n.holds(),
        n.plan == m.plan,
        n.answers == m.answers,
        n.at == 3000 + 6 * k + 6,
        n.used == m.used + 4,
        crate::stage::asks(
            m.plan,
            m.answers,
            repeated_transfer_sorts_start(k),
            repeated_transfer_sorts_with_asks(k),
        ),
{
    crate::stage::lemma_full(m);
    crate::stage::lemma_asks_none(m, repeated_transfer_sorts_start(k));
    let list0 = Seq::<Ask>::empty();
    let words1 = crate::stage::column(1000, |i: int| i);
    let word1 = ix();
    assert forall|i: int| 0 <= i < words1.len() implies crate::stage::meaning(
        word1,
        m.contents,
        i,
    ) as u64 == #[trigger] words1[i] by {
        reveal_with_fuel(crate::stage::meaning, 1);
    }
    let m1 = crate::stage::lemma_filled(m, steps[0], 0, num(1000), word1, words1);
    let table1 = Thing::Table {
        layout: Layout::Val,
        scalar: Scalar::U32,
        columns: seq![words1],
        turn: repeated_transfer_sorts_start(k),
    };
    let m2 = crate::stage::lemma_create(m1, steps[1], 0, Layout::Val, Scalar::U32, 0, table1);
    crate::stage::lemma_asks_more(m, repeated_transfer_sorts_start(k), list0, Ask::Make(table1));
    let list1 = list0.push(Ask::Make(table1));
    let sorted1 = Thing::Sorted {
        of: Box::new(table1),
        keys: 1,
        turn: repeated_transfer_sorts_start(k) + 1,
    };
    let m3 = crate::stage::lemma_sort(m2, steps[2], 0, 1, 1, table1, sorted1);
    crate::stage::lemma_asks_more(m, repeated_transfer_sorts_start(k), list1, Ask::Make(sorted1));
    let list2 = list1.push(Ask::Make(sorted1));
    assert(
        crate::stage::meaning(
            same_as(modulo(num(k as u64), num(50)), num(0)),
            m3.contents,
            0,
        ) != 0
    ) by {
        reveal_with_fuel(crate::stage::meaning, 6);
    }
    crate::stage::lemma_guard(m3, steps[3], same_as(modulo(num(k as u64), num(50)), num(0)), true);
    let m4 = crate::stage::lemma_download(m3, steps[3], 1, 0, Scalar::U32, 1, sorted1);
    crate::stage::lemma_asks_more(
        m,
        repeated_transfer_sorts_start(k),
        list2,
        Ask::Words { of: sorted1, column: 0, scalar: Scalar::U32 },
    );
    let list3 = list2.push(Ask::Words { of: sorted1, column: 0, scalar: Scalar::U32 });
    assert(
        crate::stage::meaning(
            same_as(modulo(num(k as u64), num(50)), num(0)),
            m4.contents,
            0,
        ) != 0
    ) by {
        reveal_with_fuel(crate::stage::meaning, 6);
    }
    crate::stage::lemma_guard(m4, steps[4], same_as(modulo(num(k as u64), num(50)), num(0)), true);
    let m5 = crate::stage::lemma_look(m4, steps[4]);
    let m6 = crate::stage::lemma_release(m5, steps[5], 0);
    crate::stage::lemma_asks_more(
        m,
        repeated_transfer_sorts_start(k),
        list3,
        Ask::Other(Request::Release { from: 0 }),
    );
    let list4 = list3.push(Ask::Other(Request::Release { from: 0 }));
    assert(repeated_transfer_sorts_with_asks(k) == list4);
    m6
}

/// What the device is asked in round `k` of the part `sorts` of `test_repeated_transfer`.
pub open spec fn repeated_transfer_sorts_without_asks(k: int) -> Seq<Ask> {
    let words1 = crate::stage::column(1000, |i: int| i);
    let table1 = Thing::Table {
        layout: Layout::Val,
        scalar: Scalar::U32,
        columns: seq![words1],
        turn: repeated_transfer_sorts_start(k),
    };
    let sorted1 = Thing::Sorted {
        of: Box::new(table1),
        keys: 1,
        turn: repeated_transfer_sorts_start(k) + 1,
    };
    seq![Ask::Make(table1), Ask::Make(sorted1), Ask::Other(Request::Release { from: 0 })]
}

/// Round `k` of the part `sorts` of `test_repeated_transfer` asks what it should.
proof fn lemma_repeated_transfer_sorts_without(m: Moment, steps: Seq<Step>, k: int) -> (n: Moment)
    requires
        0 <= k < 500,
        !((k % 50) == 0),
        m.holds(),
        m.at == 3000 + 6 * k,
        m.used == repeated_transfer_sorts_start(k),
        3000 + 6 * k + 6 <= m.plan.steps.len(),
        forall|j: int| 0 <= j < 6 ==> m.plan.steps[3000 + 6 * k + j] == #[trigger] steps[j],
        crate::stage::fills(steps[0], 0, num(1000), ix()),
        crate::stage::demands(
            steps[1],
            Request::Create { into: 0, layout: Layout::Val, scalar: Scalar::U32, from: 0 },
        ),
        crate::stage::demands(steps[2], Request::Sort { of: 0, keys: 1, into: 1 }),
        crate::stage::guards(steps[3], same_as(modulo(num(k as u64), num(50)), num(0))),
        crate::walk::straight(steps[3]),
        crate::stage::guards(steps[4], same_as(modulo(num(k as u64), num(50)), num(0))),
        crate::walk::straight(steps[4]),
        crate::stage::inquires(steps[5], Request::Release { from: 0 }),
    ensures
        n.holds(),
        n.plan == m.plan,
        n.answers == m.answers,
        n.at == 3000 + 6 * k + 6,
        n.used == m.used + 3,
        crate::stage::asks(
            m.plan,
            m.answers,
            repeated_transfer_sorts_start(k),
            repeated_transfer_sorts_without_asks(k),
        ),
{
    crate::stage::lemma_full(m);
    crate::stage::lemma_asks_none(m, repeated_transfer_sorts_start(k));
    let list0 = Seq::<Ask>::empty();
    let words1 = crate::stage::column(1000, |i: int| i);
    let word1 = ix();
    assert forall|i: int| 0 <= i < words1.len() implies crate::stage::meaning(
        word1,
        m.contents,
        i,
    ) as u64 == #[trigger] words1[i] by {
        reveal_with_fuel(crate::stage::meaning, 1);
    }
    let m1 = crate::stage::lemma_filled(m, steps[0], 0, num(1000), word1, words1);
    let table1 = Thing::Table {
        layout: Layout::Val,
        scalar: Scalar::U32,
        columns: seq![words1],
        turn: repeated_transfer_sorts_start(k),
    };
    let m2 = crate::stage::lemma_create(m1, steps[1], 0, Layout::Val, Scalar::U32, 0, table1);
    crate::stage::lemma_asks_more(m, repeated_transfer_sorts_start(k), list0, Ask::Make(table1));
    let list1 = list0.push(Ask::Make(table1));
    let sorted1 = Thing::Sorted {
        of: Box::new(table1),
        keys: 1,
        turn: repeated_transfer_sorts_start(k) + 1,
    };
    let m3 = crate::stage::lemma_sort(m2, steps[2], 0, 1, 1, table1, sorted1);
    crate::stage::lemma_asks_more(m, repeated_transfer_sorts_start(k), list1, Ask::Make(sorted1));
    let list2 = list1.push(Ask::Make(sorted1));
    assert(
        crate::stage::meaning(
            same_as(modulo(num(k as u64), num(50)), num(0)),
            m3.contents,
            0,
        ) == 0
    ) by {
        reveal_with_fuel(crate::stage::meaning, 6);
    }
    crate::stage::lemma_guard(m3, steps[3], same_as(modulo(num(k as u64), num(50)), num(0)), false);
    let m4 = crate::stage::lemma_skipped(m3, steps[3]);
    assert(
        crate::stage::meaning(
            same_as(modulo(num(k as u64), num(50)), num(0)),
            m4.contents,
            0,
        ) == 0
    ) by {
        reveal_with_fuel(crate::stage::meaning, 6);
    }
    crate::stage::lemma_guard(m4, steps[4], same_as(modulo(num(k as u64), num(50)), num(0)), false);
    let m5 = crate::stage::lemma_skipped(m4, steps[4]);
    let m6 = crate::stage::lemma_release(m5, steps[5], 0);
    crate::stage::lemma_asks_more(
        m,
        repeated_transfer_sorts_start(k),
        list2,
        Ask::Other(Request::Release { from: 0 }),
    );
    let list3 = list2.push(Ask::Other(Request::Release { from: 0 }));
    assert(repeated_transfer_sorts_without_asks(k) == list3);
    m6
}

/// The steps of the part `sorts` of `test_repeated_transfer`.
proof fn lemma_repeated_transfer_sorts_steps(k: int)
    ensures
        ({
            let steps = crate::categories::c18_host_device::repeated_transfer_sorts_round(k as u64);
            &&& steps.len() == 6
            &&& crate::stage::fills(steps[0], 0, num(1000), ix())
            &&& crate::stage::demands(
                steps[1],
                Request::Create { into: 0, layout: Layout::Val, scalar: Scalar::U32, from: 0 },
            )
            &&& crate::stage::demands(steps[2], Request::Sort { of: 0, keys: 1, into: 1 })
            &&& crate::stage::guards(steps[3], same_as(modulo(num(k as u64), num(50)), num(0)))
            &&& crate::walk::straight(steps[3])
            &&& crate::stage::demands(
                crate::stage::bare(steps[3]),
                Request::Download { of: 1, column: 0, scalar: Scalar::U32, into: 1 },
            )
            &&& crate::stage::guards(steps[4], same_as(modulo(num(k as u64), num(50)), num(0)))
            &&& crate::walk::straight(steps[4])
            &&& crate::stage::looks(crate::stage::bare(steps[4]))
            &&& crate::stage::inquires(steps[5], Request::Release { from: 0 })
        }),
{
}

/// Round `k` of the part `sorts` of `test_repeated_transfer` asks what it should.
proof fn lemma_repeated_transfer_sorts_round(m: Moment, k: int) -> (n: Moment)
    requires
        0 <= k < 500,
        m.holds(),
        m.at == 3000 + 6 * k,
        m.used == repeated_transfer_sorts_start(k),
        m.at + 6 <= m.plan.steps.len(),
        forall|j: int|
            0 <= j < 6 ==> m.plan.steps[3000 + 6 * k + j] == #[trigger] crate::categories::c18_host_device::repeated_transfer_sorts_round(
                k as u64,
            )[j],
    ensures
        n.holds(),
        n.plan == m.plan,
        n.answers == m.answers,
        n.at == 3000 + 6 * (k + 1),
        n.used == repeated_transfer_sorts_start(k + 1),
        (k % 50) == 0 ==> crate::stage::asks(
            m.plan,
            m.answers,
            repeated_transfer_sorts_start(k),
            repeated_transfer_sorts_with_asks(k),
        ),
        !((k % 50) == 0) ==> crate::stage::asks(
            m.plan,
            m.answers,
            repeated_transfer_sorts_start(k),
            repeated_transfer_sorts_without_asks(k),
        ),
{
    let steps = crate::categories::c18_host_device::repeated_transfer_sorts_round(k as u64);
    lemma_repeated_transfer_sorts_steps(k);
    reveal_with_fuel(repeated_transfer_sorts_start, 2);
    if (k % 50) == 0 {
        lemma_repeated_transfer_sorts_with(m, steps, k)
    } else {
        lemma_repeated_transfer_sorts_without(m, steps, k)
    }
}

/// The first `k` rounds of the part `sorts` of `test_repeated_transfer` ask what they should.
proof fn lemma_repeated_transfer_sorts_rounds(m: Moment, part: Seq<Step>, k: int) -> (n: Moment)
    requires
        0 <= k <= 500,
        m.holds(),
        m.at == 3000,
        m.used == repeated_transfer_sorts_start(0),
        m.at + 3000 <= m.plan.steps.len(),
        part == crate::script::rounds(
            500,
            |k: int| crate::categories::c18_host_device::repeated_transfer_sorts_round(k as u64),
        ),
        forall|j: int| 0 <= j < 3000 ==> m.plan.steps[3000 + j] == #[trigger] part[j],
    ensures
        n.holds(),
        n.plan == m.plan,
        n.answers == m.answers,
        n.at == 3000 + 6 * k,
        n.used == repeated_transfer_sorts_start(k),
        forall|j: int|
            0 <= j < k && (j % 50) == 0 ==> crate::stage::asks(
                m.plan,
                m.answers,
                repeated_transfer_sorts_start(j),
                #[trigger] repeated_transfer_sorts_with_asks(j),
            ),
        forall|j: int|
            0 <= j < k && !((j % 50) == 0) ==> crate::stage::asks(
                m.plan,
                m.answers,
                repeated_transfer_sorts_start(j),
                #[trigger] repeated_transfer_sorts_without_asks(j),
            ),
    decreases k,
{
    if k == 0 {
        m
    } else {
        let round = |k: int| crate::categories::c18_host_device::repeated_transfer_sorts_round(
            k as u64,
        );
        let before = lemma_repeated_transfer_sorts_rounds(m, part, k - 1);
        assert forall|j: int| 0 <= j < 6 implies m.plan.steps[before.at + j] == #[trigger] crate::categories::c18_host_device::repeated_transfer_sorts_round(
            (k - 1) as u64,
        )[j] by {
            assert forall|k: int| 0 <= k < 500 implies (#[trigger] round(k)).len() == 6 by {
                lemma_repeated_transfer_sorts_steps(k);
            }
            crate::stage::lemma_round_place(500, round, 6, k - 1, j);
            assert(part[(k - 1) * 6 + j] == round(k - 1)[j]);
        }
        lemma_repeated_transfer_sorts_round(before, k - 1)
    }
}

/// What the device is asked in round `k` of the part `filters` of `test_repeated_transfer`.
pub open spec fn repeated_transfer_filters_asks(k: int) -> Seq<Ask> {
    let words1 = crate::stage::column(1000, |i: int| (i * (k + 1)) % 10000);
    let table1 = Thing::Table {
        layout: Layout::Val,
        scalar: Scalar::U32,
        columns: seq![words1],
        turn: repeated_transfer_sorts_start(500) + 0 + 4 * k,
    };
    let words2 = crate::stage::column(1000, |i: int| crate::stage::flag(((i % 2) == 0)));
    let kept1 = Thing::Kept {
        of: Box::new(table1),
        mask: words2,
        turn: repeated_transfer_sorts_start(500) + 1 + 4 * k,
    };
    seq![
        Ask::Make(table1),
        Ask::Make(kept1),
        Ask::Words { of: kept1, column: 0, scalar: Scalar::U32 },
        Ask::Other(Request::Release { from: 0 }),
    ]
}

/// Round `k` of the part `filters` of `test_repeated_transfer` asks what it should.
proof fn lemma_repeated_transfer_filters(m: Moment, steps: Seq<Step>, k: int) -> (n: Moment)
    requires
        0 <= k < 100,
        m.holds(),
        m.at == 6000 + 7 * k,
        m.used == repeated_transfer_sorts_start(500) + 0 + 4 * k,
        6000 + 7 * k + 7 <= m.plan.steps.len(),
        forall|j: int| 0 <= j < 7 ==> m.plan.steps[6000 + 7 * k + j] == #[trigger] steps[j],
        crate::stage::fills(
            steps[0],
            0,
            num(1000),
            modulo(times(ix(), plus(num(k as u64), num(1))), num(10000)),
        ),
        crate::stage::demands(
            steps[1],
            Request::Create { into: 0, layout: Layout::Val, scalar: Scalar::U32, from: 0 },
        ),
        crate::stage::fills(steps[2], 1, num(1000), same_as(modulo(ix(), num(2)), num(0))),
        crate::stage::demands(steps[3], Request::Filter { of: 0, mask: 1, into: 1 }),
        crate::stage::demands(
            steps[4],
            Request::Download { of: 1, column: 0, scalar: Scalar::U32, into: 2 },
        ),
        crate::stage::looks(steps[5]),
        crate::stage::inquires(steps[6], Request::Release { from: 0 }),
    ensures
        n.holds(),
        n.plan == m.plan,
        n.answers == m.answers,
        n.at == 6000 + 7 * k + 7,
        n.used == m.used + 4,
        crate::stage::asks(
            m.plan,
            m.answers,
            repeated_transfer_sorts_start(500) + 0 + 4 * k,
            repeated_transfer_filters_asks(k),
        ),
{
    crate::stage::lemma_full(m);
    crate::stage::lemma_asks_none(m, repeated_transfer_sorts_start(500) + 0 + 4 * k);
    let list0 = Seq::<Ask>::empty();
    let words1 = crate::stage::column(1000, |i: int| (i * (k + 1)) % 10000);
    let word1 = modulo(times(ix(), plus(num(k as u64), num(1))), num(10000));
    assert forall|i: int| 0 <= i < words1.len() implies crate::stage::meaning(
        word1,
        m.contents,
        i,
    ) as u64 == #[trigger] words1[i] by {
        reveal_with_fuel(crate::stage::meaning, 5);
    }
    let m1 = crate::stage::lemma_filled(m, steps[0], 0, num(1000), word1, words1);
    let table1 = Thing::Table {
        layout: Layout::Val,
        scalar: Scalar::U32,
        columns: seq![words1],
        turn: repeated_transfer_sorts_start(500) + 0 + 4 * k,
    };
    let m2 = crate::stage::lemma_create(m1, steps[1], 0, Layout::Val, Scalar::U32, 0, table1);
    crate::stage::lemma_asks_more(
        m,
        repeated_transfer_sorts_start(500) + 0 + 4 * k,
        list0,
        Ask::Make(table1),
    );
    let list1 = list0.push(Ask::Make(table1));
    let words2 = crate::stage::column(1000, |i: int| crate::stage::flag(((i % 2) == 0)));
    let word3 = same_as(modulo(ix(), num(2)), num(0));
    assert forall|i: int| 0 <= i < words2.len() implies crate::stage::meaning(
        word3,
        m2.contents,
        i,
    ) as u64 == #[trigger] words2[i] by {
        reveal_with_fuel(crate::stage::meaning, 4);
    }
    let m3 = crate::stage::lemma_filled(m2, steps[2], 1, num(1000), word3, words2);
    let kept1 = Thing::Kept {
        of: Box::new(table1),
        mask: words2,
        turn: repeated_transfer_sorts_start(500) + 1 + 4 * k,
    };
    let m4 = crate::stage::lemma_filter(m3, steps[3], 0, 1, 1, table1, words2, kept1);
    crate::stage::lemma_asks_more(
        m,
        repeated_transfer_sorts_start(500) + 0 + 4 * k,
        list1,
        Ask::Make(kept1),
    );
    let list2 = list1.push(Ask::Make(kept1));
    let m5 = crate::stage::lemma_download(m4, steps[4], 1, 0, Scalar::U32, 2, kept1);
    crate::stage::lemma_asks_more(
        m,
        repeated_transfer_sorts_start(500) + 0 + 4 * k,
        list2,
        Ask::Words { of: kept1, column: 0, scalar: Scalar::U32 },
    );
    let list3 = list2.push(Ask::Words { of: kept1, column: 0, scalar: Scalar::U32 });
    let m6 = crate::stage::lemma_look(m5, steps[5]);
    let m7 = crate::stage::lemma_release(m6, steps[6], 0);
    crate::stage::lemma_asks_more(
        m,
        repeated_transfer_sorts_start(500) + 0 + 4 * k,
        list3,
        Ask::Other(Request::Release { from: 0 }),
    );
    let list4 = list3.push(Ask::Other(Request::Release { from: 0 }));
    assert(repeated_transfer_filters_asks(k) == list4);
    m7
}

/// The steps of the part `filters` of `test_repeated_transfer`.
proof fn lemma_repeated_transfer_filters_steps(k: int)
    ensures
        ({
            let steps = crate::categories::c18_host_device::repeated_transfer_filters_round(
                k as u64,
            );
            &&& steps.len() == 7
            &&& crate::stage::fills(
                steps[0],
                0,
                num(1000),
                modulo(times(ix(), plus(num(k as u64), num(1))), num(10000)),
            )
            &&& crate::stage::demands(
                steps[1],
                Request::Create { into: 0, layout: Layout::Val, scalar: Scalar::U32, from: 0 },
            )
            &&& crate::stage::fills(steps[2], 1, num(1000), same_as(modulo(ix(), num(2)), num(0)))
            &&& crate::stage::demands(steps[3], Request::Filter { of: 0, mask: 1, into: 1 })
            &&& crate::stage::demands(
                steps[4],
                Request::Download { of: 1, column: 0, scalar: Scalar::U32, into: 2 },
            )
            &&& crate::stage::looks(steps[5])
            &&& crate::stage::inquires(steps[6], Request::Release { from: 0 })
        }),
{
}

/// The first `k` rounds of the part `filters` of `test_repeated_transfer` ask what they should.
proof fn lemma_repeated_transfer_filters_rounds(m: Moment, part: Seq<Step>, k: int) -> (n: Moment)
    requires
        0 <= k <= 100,
        m.holds(),
        m.at == 6000,
        m.used == repeated_transfer_sorts_start(500) + 0 + 4 * 0,
        m.at + 700 <= m.plan.steps.len(),
        part == crate::script::rounds(
            100,
            |k: int| crate::categories::c18_host_device::repeated_transfer_filters_round(k as u64),
        ),
        forall|j: int| 0 <= j < 700 ==> m.plan.steps[6000 + j] == #[trigger] part[j],
    ensures
        n.holds(),
        n.plan == m.plan,
        n.answers == m.answers,
        n.at == 6000 + 7 * k,
        n.used == repeated_transfer_sorts_start(500) + 0 + 4 * k,
        forall|j: int|
            0 <= j < k ==> crate::stage::asks(
                m.plan,
                m.answers,
                repeated_transfer_sorts_start(500) + 0 + 4 * j,
                #[trigger] repeated_transfer_filters_asks(j),
            ),
    decreases k,
{
    if k == 0 {
        m
    } else {
        let round = |k: int| crate::categories::c18_host_device::repeated_transfer_filters_round(
            k as u64,
        );
        let before = lemma_repeated_transfer_filters_rounds(m, part, k - 1);
        assert forall|j: int| 0 <= j < 7 implies m.plan.steps[before.at + j] == #[trigger] crate::categories::c18_host_device::repeated_transfer_filters_round(
            (k - 1) as u64,
        )[j] by {
            assert forall|k: int| 0 <= k < 100 implies (#[trigger] round(k)).len() == 7 by {
                lemma_repeated_transfer_filters_steps(k);
            }
            crate::stage::lemma_round_place(100, round, 7, k - 1, j);
            assert(part[(k - 1) * 7 + j] == round(k - 1)[j]);
        }
        lemma_repeated_transfer_filters_steps(k - 1);
        lemma_repeated_transfer_filters(
            before,
            crate::categories::c18_host_device::repeated_transfer_filters_round((k - 1) as u64),
            k - 1,
        )
    }
}

/// What the device is asked in the part `end` of `test_repeated_transfer`.
pub open spec fn repeated_transfer_end_asks() -> Seq<Ask> {
    seq![Ask::Other(Request::Sync)]
}

/// The part `end` of `test_repeated_transfer` asks what it should.
proof fn lemma_repeated_transfer_end(m: Moment, steps: Seq<Step>) -> (n: Moment)
    requires
        m.holds(),
        m.at == 6700,
        m.used == repeated_transfer_sorts_start(500) + 400,
        6700 + 1 <= m.plan.steps.len(),
        forall|j: int| 0 <= j < 1 ==> m.plan.steps[6700 + j] == #[trigger] steps[j],
        crate::stage::demands(steps[0], Request::Sync),
    ensures
        n.holds(),
        n.plan == m.plan,
        n.answers == m.answers,
        n.at == 6700 + 1,
        n.used == m.used + 1,
        crate::stage::asks(
            m.plan,
            m.answers,
            repeated_transfer_sorts_start(500) + 400,
            repeated_transfer_end_asks(),
        ),
{
    crate::stage::lemma_full(m);
    crate::stage::lemma_asks_none(m, repeated_transfer_sorts_start(500) + 400);
    let list0 = Seq::<Ask>::empty();
    let m1 = crate::stage::lemma_sync(m, steps[0]);
    crate::stage::lemma_asks_more(
        m,
        repeated_transfer_sorts_start(500) + 400,
        list0,
        Ask::Other(Request::Sync),
    );
    let list1 = list0.push(Ask::Other(Request::Sync));
    assert(repeated_transfer_end_asks() == list1);
    m1
}

/// The steps of the part `end` of `test_repeated_transfer`.
proof fn lemma_repeated_transfer_end_steps()
    ensures
        ({
            let steps = crate::categories::c18_host_device::repeated_transfer_end_steps();
            &&& steps.len() == 1
            &&& crate::stage::demands(steps[0], Request::Sync)
        }),
{
}

/// In a run of `test_repeated_transfer` that passes the device is asked this, in this order, and
/// nothing else: each request about what an earlier one made is about that, and about what was
/// uploaded for it.
pub proof fn law_repeated_transfer_asks_about_what_it_made(answers: Seq<Answer>)
    requires
        crate::stage::passes(
            crate::script::plan(
                "test_repeated_transfer",
                crate::categories::c18_host_device::repeated_transfer_steps(),
            ),
            answers,
        ),
    ensures
        forall|k: int|
            0 <= k < 500 ==> crate::stage::asks(
                crate::script::plan(
                    "test_repeated_transfer",
                    crate::categories::c18_host_device::repeated_transfer_steps(),
                ),
                answers,
                0 + 3 * k,
                #[trigger] repeated_transfer_transfers_asks(k),
            ),
        forall|k: int|
            0 <= k < 500 && (k % 50) == 0 ==> crate::stage::asks(
                crate::script::plan(
                    "test_repeated_transfer",
                    crate::categories::c18_host_device::repeated_transfer_steps(),
                ),
                answers,
                repeated_transfer_sorts_start(k),
                #[trigger] repeated_transfer_sorts_with_asks(k),
            ),
        forall|k: int|
            0 <= k < 500 && !((k % 50) == 0) ==> crate::stage::asks(
                crate::script::plan(
                    "test_repeated_transfer",
                    crate::categories::c18_host_device::repeated_transfer_steps(),
                ),
                answers,
                repeated_transfer_sorts_start(k),
                #[trigger] repeated_transfer_sorts_without_asks(k),
            ),
        forall|k: int|
            0 <= k < 100 ==> crate::stage::asks(
                crate::script::plan(
                    "test_repeated_transfer",
                    crate::categories::c18_host_device::repeated_transfer_steps(),
                ),
                answers,
                repeated_transfer_sorts_start(500) + 0 + 4 * k,
                #[trigger] repeated_transfer_filters_asks(k),
            ),
        crate::stage::asks(
            crate::script::plan(
                "test_repeated_transfer",
                crate::categories::c18_host_device::repeated_transfer_steps(),
            ),
            answers,
            repeated_transfer_sorts_start(500) + 400,
            repeated_transfer_end_asks(),
        ),
        crate::stage::asked(
            crate::script::plan(
                "test_repeated_transfer",
                crate::categories::c18_host_device::repeated_transfer_steps(),
            ),
            answers,
            repeated_transfer_sorts_start(500) + 401,
        ) is None,
{
    let plan = crate::script::plan(
        "test_repeated_transfer",
        crate::categories::c18_host_device::repeated_transfer_steps(),
    );
    let round1 = |k: int| crate::categories::c18_host_device::repeated_transfer_transfers_round(
        k as u64,
    );
    let part1 = crate::script::rounds(500, round1);
    assert forall|k: int| 0 <= k < 500 implies (#[trigger] round1(k)).len() == 6 by {
        lemma_repeated_transfer_transfers_steps(k);
    }
    crate::stage::lemma_rounds_length(500, round1, 6);
    let round2 = |k: int| crate::categories::c18_host_device::repeated_transfer_sorts_round(
        k as u64,
    );
    let part2 = crate::script::rounds(500, round2);
    assert forall|k: int| 0 <= k < 500 implies (#[trigger] round2(k)).len() == 6 by {
        lemma_repeated_transfer_sorts_steps(k);
    }
    crate::stage::lemma_rounds_length(500, round2, 6);
    let round3 = |k: int| crate::categories::c18_host_device::repeated_transfer_filters_round(
        k as u64,
    );
    let part3 = crate::script::rounds(100, round3);
    assert forall|k: int| 0 <= k < 100 implies (#[trigger] round3(k)).len() == 7 by {
        lemma_repeated_transfer_filters_steps(k);
    }
    crate::stage::lemma_rounds_length(100, round3, 7);
    let part4 = crate::categories::c18_host_device::repeated_transfer_end_steps();
    lemma_repeated_transfer_end_steps();
    let whole1 = part1;
    let whole2 = whole1 + part2;
    let whole3 = whole2 + part3;
    let whole4 = whole3 + part4;
    assert(plan.steps == whole4);
    let m0 = crate::stage::lemma_start(plan, answers);
    assert forall|j: int| 0 <= j < 3000 implies plan.steps[0 + j] == #[trigger] part1[j] by {}
    let m1 = lemma_repeated_transfer_transfers_rounds(m0, part1, 500);
    assert forall|j: int| 0 <= j < 3000 implies plan.steps[3000 + j] == #[trigger] part2[j] by {}
    let m2 = lemma_repeated_transfer_sorts_rounds(m1, part2, 500);
    assert forall|j: int| 0 <= j < 700 implies plan.steps[6000 + j] == #[trigger] part3[j] by {}
    let m3 = lemma_repeated_transfer_filters_rounds(m2, part3, 100);
    assert forall|j: int| 0 <= j < 1 implies plan.steps[6700 + j] == #[trigger] part4[j] by {}
    let m4 = lemma_repeated_transfer_end(m3, part4);
    crate::stage::lemma_end(m4);
}

} // verus!
