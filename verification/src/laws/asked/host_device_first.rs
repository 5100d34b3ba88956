//! What these tests ask the device in runs that pass: `test_upload_download_integrity`.

use vstd::prelude::*;
use crate::expr::{ix, minus, modulo, num, pick, plus, same_as, times};
use crate::machine::Answer;
use crate::scalar::Scalar;
use crate::script::{Layout, Request, Step};
use crate::stage::{Ask, Moment, Thing};

verus! {

/// What the device is asked in piece 1 of the part `part1` of `test_upload_download_integrity`.
pub open spec fn upload_download_integrity_part1_1_asks() -> Seq<Ask> {
    let words1 = crate::stage::column(10000, |i: int| 0);
    let table1 = Thing::Table {
        layout: Layout::Val,
        scalar: Scalar::U32,
        columns: seq![words1],
        turn: 0,
    };
    let sorted1 = Thing::Sorted { of: Box::new(table1), keys: 1, turn: 2 };
    seq![
        Ask::Make(table1),
        Ask::Words { of: table1, column: 0, scalar: Scalar::U32 },
        Ask::Make(sorted1),
        Ask::Words { of: sorted1, column: 0, scalar: Scalar::U32 },
    ]
}

/// Piece 1 of the part `part1` of `test_upload_download_integrity` asks what it should.
proof fn lemma_upload_download_integrity_part1_1(m: Moment, steps: Seq<Step>) -> (n: Moment)
    requires
        m.holds(),
        m.at == 0,
        m.used == 0,
        0 + 11 <= m.plan.steps.len(),
        forall|j: int| 0 <= j < 11 ==> m.plan.steps[0 + j] == #[trigger] steps[j],
        crate::stage::fills(steps[0], 0, num(10000), num(0)),
        crate::stage::demands(
            steps[1],
            Request::Create { into: 0, layout: Layout::Val, scalar: Scalar::U32, from: 0 },
        ),
        crate::stage::demands(
            steps[2],
            Request::Download { of: 0, column: 0, scalar: Scalar::U32, into: 1 },
        ),
        crate::stage::looks(steps[3]),
        crate::stage::looks(steps[4]),
        crate::stage::demands(steps[5], Request::Sort { of: 0, keys: 1, into: 1 }),
        crate::stage::demands(
            steps[6],
            Request::Download { of: 1, column: 0, scalar: Scalar::U32, into: 2 },
        ),
        crate::stage::looks(steps[7]),
    ensures
        n.holds(),
        n.plan == m.plan,
        n.answers == m.answers,
        n.at == 0 + 8,
        n.used == m.used + 4,
        crate::stage::asks(m.plan, m.answers, 0, upload_download_integrity_part1_1_asks()),
{
    crate::stage::lemma_full(m);
    crate::stage::lemma_asks_none(m, 0);
    let list0 = Seq::<Ask>::empty();
    let words1 = crate::stage::column(10000, |i: int| 0);
    let word1 = num(0);
    assert forall|i: int| 0 <= i < words1.len() implies crate::stage::meaning(
        word1,
        m.contents,
        i,
    ) as u64 == #[trigger] words1[i] by {
        reveal_with_fuel(crate::stage::meaning, 2);
    }
    let m1 = crate::stage::lemma_filled(m, steps[0], 0, num(10000), word1, words1);
    let table1 = Thing::Table {
        layout: Layout::Val,
        scalar: Scalar::U32,
        columns: seq![words1],
        turn: 0,
    };
    let m2 = crate::stage::lemma_create(m1, steps[1], 0, Layout::Val, Scalar::U32, 0, table1);
    crate::stage::lemma_asks_more(m, 0, list0, Ask::Make(table1));
    let list1 = list0.push(Ask::Make(table1));
    let m3 = crate::stage::lemma_download(m2, steps[2], 0, 0, Scalar::U32, 1, table1);
    crate::stage::lemma_asks_more(
        m,
        0,
        list1,
        Ask::Words { of: table1, column: 0, scalar: Scalar::U32 },
    );
    let list2 = list1.push(Ask::Words { of: table1, column: 0, scalar: Scalar::U32 });
    let m4 = crate::stage::lemma_look(m3, steps[3]);
    let m5 = crate::stage::lemma_look(m4, steps[4]);
    let sorted1 = Thing::Sorted { of: Box::new(table1), keys: 1, turn: 2 };
    let m6 = crate::stage::lemma_sort(m5, steps[5], 0, 1, 1, table1, sorted1);
    crate::stage::lemma_asks_more(m, 0, list2, Ask::Make(sorted1));
    let list3 = list2.push(Ask::Make(sorted1));
    let m7 = crate::stage::lemma_download(m6, steps[6], 1, 0, Scalar::U32, 2, sorted1);
    crate::stage::lemma_asks_more(
        m,
        0,
        list3,
        Ask::Words { of: sorted1, column: 0, scalar: Scalar::U32 },
    );
    let list4 = list3.push(Ask::Words { of: sorted1, column: 0, scalar: Scalar::U32 });
    let m8 = crate::stage::lemma_look(m7, steps[7]);
    assert(upload_download_integrity_part1_1_asks() == list4);
    m8
}

/// What the device is asked in piece 2 of the part `part1` of `test_upload_download_integrity`.
pub open spec fn upload_download_integrity_part1_2_asks() -> Seq<Ask> {
    seq![Ask::Other(Request::Release { from: 0 })]
}

/// Piece 2 of the part `part1` of `test_upload_download_integrity` asks what it should.
proof fn lemma_upload_download_integrity_part1_2(m: Moment, steps: Seq<Step>) -> (n: Moment)
    requires
        m.holds(),
        m.at == 0 + 8,
        m.used == 4,
        0 + 11 <= m.plan.steps.len(),
        forall|j: int| 0 <= j < 11 ==> m.plan.steps[0 + j] == #[trigger] steps[j],
        crate::stage::works(steps[8], 3),
        crate::stage::looks(steps[9]),
        crate::stage::inquires(steps[10], Request::Release { from: 0 }),
    ensures
        n.holds(),
        n.plan == m.plan,
        n.answers == m.answers,
        n.at == 0 + 11,
        n.used == m.used + 1,
        crate::stage::asks(m.plan, m.answers, 4, upload_download_integrity_part1_2_asks()),
{
    crate::stage::lemma_full(m);
    crate::stage::lemma_asks_none(m, 4);
    let list0 = Seq::<Ask>::empty();
    let m1 = crate::stage::lemma_work(m, steps[8], 3);
    let m2 = crate::stage::lemma_look(m1, steps[9]);
    let m3 = crate::stage::lemma_release(m2, steps[10], 0);
    crate::stage::lemma_asks_more(m, 4, list0, Ask::Other(Request::Release { from: 0 }));
    let list1 = list0.push(Ask::Other(Request::Release { from: 0 }));
    assert(upload_download_integrity_part1_2_asks() == list1);
    m3
}

/// The steps of the part `part1` of `test_upload_download_integrity`.
proof fn lemma_upload_download_integrity_part1_steps()
    ensures
        ({
            let steps = crate::categories::c18_host_device::transferred_pattern_steps(
                "zeros",
                num(0),
            );
            &&& steps.len() == 11
            &&& crate::stage::fills(steps[0], 0, num(10000), num(0))
            &&& crate::stage::demands(
                steps[1],
                Request::Create { into: 0, layout: Layout::Val, scalar: Scalar::U32, from: 0 },
            )
            &&& crate::stage::demands(
                steps[2],
                Request::Download { of: 0, column: 0, scalar: Scalar::U32, into: 1 },
            )
            &&& crate::stage::looks(steps[3])
            &&& crate::stage::looks(steps[4])
            &&& crate::stage::demands(steps[5], Request::Sort { of: 0, keys: 1, into: 1 })
            &&& crate::stage::demands(
                steps[6],
                Request::Download { of: 1, column: 0, scalar: Scalar::U32, into: 2 },
            )
            &&& crate::stage::looks(steps[7])
            &&& crate::stage::works(steps[8], 3)
            &&& crate::stage::looks(steps[9])
            &&& crate::stage::inquires(steps[10], Request::Release { from: 0 })
        }),
{
}

/// What the device is asked in piece 1 of the part `part2` of `test_upload_download_integrity`.
pub open spec fn upload_download_integrity_part2_1_asks() -> Seq<Ask> {
    let words1 = crate::stage::column(10000, |i: int| 1);
    let table1 = Thing::Table {
        layout: Layout::Val,
        scalar: Scalar::U32,
        columns: seq![words1],
        turn: 5,
    };
    let sorted1 = Thing::Sorted { of: Box::new(table1), keys: 1, turn: 7 };
    seq![
        Ask::Make(table1),
        Ask::Words { of: table1, column: 0, scalar: Scalar::U32 },
        Ask::Make(sorted1),
        Ask::Words { of: sorted1, column: 0, scalar: Scalar::U32 },
    ]
}

/// Piece 1 of the part `part2` of `test_upload_download_integrity` asks what it should.
proof fn lemma_upload_download_integrity_part2_1(m: Moment, steps: Seq<Step>) -> (n: Moment)
    requires
        m.holds(),
        m.at == 11,
        m.used == 5,
        11 + 11 <= m.plan.steps.len(),
        forall|j: int| 0 <= j < 11 ==> m.plan.steps[11 + j] == #[trigger] steps[j],
        crate::stage::fills(steps[0], 0, num(10000), num(1)),
        crate::stage::demands(
            steps[1],
            Request::Create { into: 0, layout: Layout::Val, scalar: Scalar::U32, from: 0 },
        ),
        crate::stage::demands(
            steps[2],
            Request::Download { of: 0, column: 0, scalar: Scalar::U32, into: 1 },
        ),
        crate::stage::looks(steps[3]),
        crate::stage::looks(steps[4]),
        crate::stage::demands(steps[5], Request::Sort { of: 0, keys: 1, into: 1 }),
        crate::stage::demands(
            steps[6],
            Request::Download { of: 1, column: 0, scalar: Scalar::U32, into: 2 },
        ),
        crate::stage::looks(steps[7]),
    ensures
        n.holds(),
        n.plan == m.plan,
        n.answers == m.answers,
        n.at == 11 + 8,
        n.used == m.used + 4,
        crate::stage::asks(m.plan, m.answers, 5, upload_download_integrity_part2_1_asks()),
{
    crate::stage::lemma_full(m);
    crate::stage::lemma_asks_none(m, 5);
    let list0 = Seq::<Ask>::empty();
    let words1 = crate::stage::column(10000, |i: int| 1);
    let word1 = num(1);
    assert forall|i: int| 0 <= i < words1.len() implies crate::stage::meaning(
        word1,
        m.contents,
        i,
    ) as u64 == #[trigger] words1[i] by {
        reveal_with_fuel(crate::stage::meaning, 2);
    }
    let m1 = crate::stage::lemma_filled(m, steps[0], 0, num(10000), word1, words1);
    let table1 = Thing::Table {
        layout: Layout::Val,
        scalar: Scalar::U32,
        columns: seq![words1],
        turn: 5,
    };
    let m2 = crate::stage::lemma_create(m1, steps[1], 0, Layout::Val, Scalar::U32, 0, table1);
    crate::stage::lemma_asks_more(m, 5, list0, Ask::Make(table1));
    let list1 = list0.push(Ask::Make(table1));
    let m3 = crate::stage::lemma_download(m2, steps[2], 0, 0, Scalar::U32, 1, table1);
    crate::stage::lemma_asks_more(
        m,
        5,
        list1,
        Ask::Words { of: table1, column: 0, scalar: Scalar::U32 },
    );
    let list2 = list1.push(Ask::Words { of: table1, column: 0, scalar: Scalar::U32 });
    let m4 = crate::stage::lemma_look(m3, steps[3]);
    let m5 = crate::stage::lemma_look(m4, steps[4]);
    let sorted1 = Thing::Sorted { of: Box::new(table1), keys: 1, turn: 7 };
    let m6 = crate::stage::lemma_sort(m5, steps[5], 0, 1, 1, table1, sorted1);
    crate::stage::lemma_asks_more(m, 5, list2, Ask::Make(sorted1));
    let list3 = list2.push(Ask::Make(sorted1));
    let m7 = crate::stage::lemma_download(m6, steps[6], 1, 0, Scalar::U32, 2, sorted1);
    crate::stage::lemma_asks_more(
        m,
        5,
        list3,
        Ask::Words { of: sorted1, column: 0, scalar: Scalar::U32 },
    );
    let list4 = list3.push(Ask::Words { of: sorted1, column: 0, scalar: Scalar::U32 });
    let m8 = crate::stage::lemma_look(m7, steps[7]);
    assert(upload_download_integrity_part2_1_asks() == list4);
    m8
}

/// What the device is asked in piece 2 of the part `part2` of `test_upload_download_integrity`.
pub open spec fn upload_download_integrity_part2_2_asks() -> Seq<Ask> {
    seq![Ask::Other(Request::Release { from: 0 })]
}

/// Piece 2 of the part `part2` of `test_upload_download_integrity` asks what it should.
proof fn lemma_upload_download_integrity_part2_2(m: Moment, steps: Seq<Step>) -> (n: Moment)
    requires
        m.holds(),
        m.at == 11 + 8,
        m.used == 9,
        11 + 11 <= m.plan.steps.len(),
        forall|j: int| 0 <= j < 11 ==> m.plan.steps[11 + j] == #[trigger] steps[j],
        crate::stage::works(steps[8], 3),
        crate::stage::looks(steps[9]),
        crate::stage::inquires(steps[10], Request::Release { from: 0 }),
    ensures
        n.holds(),
        n.plan == m.plan,
        n.answers == m.answers,
        n.at == 11 + 11,
        n.used == m.used + 1,
        crate::stage::asks(m.plan, m.answers, 9, upload_download_integrity_part2_2_asks()),
{
    crate::stage::lemma_full(m);
    crate::stage::lemma_asks_none(m, 9);
    let list0 = Seq::<Ask>::empty();
    let m1 = crate::stage::lemma_work(m, steps[8], 3);
    let m2 = crate::stage::lemma_look(m1, steps[9]);
    let m3 = crate::stage::lemma_release(m2, steps[10], 0);
    crate::stage::lemma_asks_more(m, 9, list0, Ask::Other(Request::Release { from: 0 }));
    let list1 = list0.push(Ask::Other(Request::Release { from: 0 }));
    assert(upload_download_integrity_part2_2_asks() == list1);
    m3
}

/// The steps of the part `part2` of `test_upload_download_integrity`.
proof fn lemma_upload_download_integrity_part2_steps()
    ensures
        ({
            let steps = crate::categories::c18_host_device::transferred_pattern_steps(
                "ones",
                num(1),
            );
            &&& steps.len() == 11
            &&& crate::stage::fills(steps[0], 0, num(10000), num(1))
            &&& crate::stage::demands(
                steps[1],
                Request::Create { into: 0, layout: Layout::Val, scalar: Scalar::U32, from: 0 },
            )
            &&& crate::stage::demands(
                steps[2],
                Request::Download { of: 0, column: 0, scalar: Scalar::U32, into: 1 },
            )
            &&& crate::stage::looks(steps[3])
            &&& crate::stage::looks(steps[4])
            &&& crate::stage::demands(steps[5], Request::Sort { of: 0, keys: 1, into: 1 })
            &&& crate::stage::demands(
                steps[6],
                Request::Download { of: 1, column: 0, scalar: Scalar::U32, into: 2 },
            )
            &&& crate::stage::looks(steps[7])
            &&& crate::stage::works(steps[8], 3)
            &&& crate::stage::looks(steps[9])
            &&& crate::stage::inquires(steps[10], Request::Release { from: 0 })
        }),
{
}

/// What the device is asked in piece 1 of the part `part3` of `test_upload_download_integrity`.
pub open spec fn upload_download_integrity_part3_1_asks() -> Seq<Ask> {
    let words1 = crate::stage::column(10000, |i: int| 4294967295);
    let table1 = Thing::Table {
        layout: Layout::Val,
        scalar: Scalar::U32,
        columns: seq![words1],
        turn: 10,
    };
    let sorted1 = Thing::Sorted { of: Box::new(table1), keys: 1, turn: 12 };
    seq![
        Ask::Make(table1),
        Ask::Words { of: table1, column: 0, scalar: Scalar::U32 },
        Ask::Make(sorted1),
        Ask::Words { of: sorted1, column: 0, scalar: Scalar::U32 },
    ]
}

/// Piece 1 of the part `part3` of `test_upload_download_integrity` asks what it should.
proof fn lemma_upload_download_integrity_part3_1(m: Moment, steps: Seq<Step>) -> (n: Moment)
    requires
        m.holds(),
        m.at == 22,
        m.used == 10,
        22 + 11 <= m.plan.steps.len(),
        forall|j: int| 0 <= j < 11 ==> m.plan.steps[22 + j] == #[trigger] steps[j],
        crate::stage::fills(steps[0], 0, num(10000), num(4294967295)),
        crate::stage::demands(
            steps[1],
            Request::Create { into: 0, layout: Layout::Val, scalar: Scalar::U32, from: 0 },
        ),
        crate::stage::demands(
            steps[2],
            Request::Download { of: 0, column: 0, scalar: Scalar::U32, into: 1 },
        ),
        crate::stage::looks(steps[3]),
        crate::stage::looks(steps[4]),
        crate::stage::demands(steps[5], Request::Sort { of: 0, keys: 1, into: 1 }),
        crate::stage::demands(
            steps[6],
            Request::Download { of: 1, column: 0, scalar: Scalar::U32, into: 2 },
        ),
        crate::stage::looks(steps[7]),
    ensures
        n.holds(),
        n.plan == m.plan,
        n.answers == m.answers,
        n.at == 22 + 8,
        n.used == m.used + 4,
        crate::stage::asks(m.plan, m.answers, 10, upload_download_integrity_part3_1_asks()),
{
    crate::stage::lemma_full(m);
    crate::stage::lemma_asks_none(m, 10);
    let list0 = Seq::<Ask>::empty();
    let words1 = crate::stage::column(10000, |i: int| 4294967295);
    let word1 = num(4294967295);
    assert forall|i: int| 0 <= i < words1.len() implies crate::stage::meaning(
        word1,
        m.contents,
        i,
    ) as u64 == #[trigger] words1[i] by {
        reveal_with_fuel(crate::stage::meaning, 2);
    }
    let m1 = crate::stage::lemma_filled(m, steps[0], 0, num(10000), word1, words1);
    let table1 = Thing::Table {
        layout: Layout::Val,
        scalar: Scalar::U32,
        columns: seq![words1],
        turn: 10,
    };
    let m2 = crate::stage::lemma_create(m1, steps[1], 0, Layout::Val, Scalar::U32, 0, table1);
    crate::stage::lemma_asks_more(m, 10, list0, Ask::Make(table1));
    let list1 = list0.push(Ask::Make(table1));
    let m3 = crate::stage::lemma_download(m2, steps[2], 0, 0, Scalar::U32, 1, table1);
    crate::stage::lemma_asks_more(
        m,
        10,
        list1,
        Ask::Words { of: table1, column: 0, scalar: Scalar::U32 },
    );
    let list2 = list1.push(Ask::Words { of: table1, column: 0, scalar: Scalar::U32 });
    let m4 = crate::stage::lemma_look(m3, steps[3]);
    let m5 = crate::stage::lemma_look(m4, steps[4]);
    let sorted1 = Thing::Sorted { of: Box::new(table1), keys: 1, turn: 12 };
    let m6 = crate::stage::lemma_sort(m5, steps[5], 0, 1, 1, table1, sorted1);
    crate::stage::lemma_asks_more(m, 10, list2, Ask::Make(sorted1));
    let list3 = list2.push(Ask::Make(sorted1));
    let m7 = crate::stage::lemma_download(m6, steps[6], 1, 0, Scalar::U32, 2, sorted1);
    crate::stage::lemma_asks_more(
        m,
        10,
        list3,
        Ask::Words { of: sorted1, column: 0, scalar: Scalar::U32 },
    );
    let list4 = list3.push(Ask::Words { of: sorted1, column: 0, scalar: Scalar::U32 });
    let m8 = crate::stage::lemma_look(m7, steps[7]);
    assert(upload_download_integrity_part3_1_asks() == list4);
    m8
}

/// What the device is asked in piece 2 of the part `part3` of `test_upload_download_integrity`.
pub open spec fn upload_download_integrity_part3_2_asks() -> Seq<Ask> {
    seq![Ask::Other(Request::Release { from: 0 })]
}

/// Piece 2 of the part `part3` of `test_upload_download_integrity` asks what it should.
proof fn lemma_upload_download_integrity_part3_2(m: Moment, steps: Seq<Step>) -> (n: Moment)
    requires
        m.holds(),
        m.at == 22 + 8,
        m.used == 14,
        22 + 11 <= m.plan.steps.len(),
        forall|j: int| 0 <= j < 11 ==> m.plan.steps[22 + j] == #[trigger] steps[j],
        crate::stage::works(steps[8], 3),
        crate::stage::looks(steps[9]),
        crate::stage::inquires(steps[10], Request::Release { from: 0 }),
    ensures
        n.holds(),
        n.plan == m.plan,
        n.answers == m.answers,
        n.at == 22 + 11,
        n.used == m.used + 1,
        crate::stage::asks(m.plan, m.answers, 14, upload_download_integrity_part3_2_asks()),
{
    crate::stage::lemma_full(m);
    crate::stage::lemma_asks_none(m, 14);
    let list0 = Seq::<Ask>::empty();
    let m1 = crate::stage::lemma_work(m, steps[8], 3);
    let m2 = crate::stage::lemma_look(m1, steps[9]);
    let m3 = crate::stage::lemma_release(m2, steps[10], 0);
    crate::stage::lemma_asks_more(m, 14, list0, Ask::Other(Request::Release { from: 0 }));
    let list1 = list0.push(Ask::Other(Request::Release { from: 0 }));
    assert(upload_download_integrity_part3_2_asks() == list1);
    m3
}

/// The steps of the part `part3` of `test_upload_download_integrity`.
proof fn lemma_upload_download_integrity_part3_steps()
    ensures
        ({
            let steps = crate::categories::c18_host_device::transferred_pattern_steps(
                "max_values",
                num(4294967295),
            );
            &&& steps.len() == 11
            &&& crate::stage::fills(steps[0], 0, num(10000), num(4294967295))
            &&& crate::stage::demands(
                steps[1],
                Request::Create { into: 0, layout: Layout::Val, scalar: Scalar::U32, from: 0 },
            )
            &&& crate::stage::demands(
                steps[2],
                Request::Download { of: 0, column: 0, scalar: Scalar::U32, into: 1 },
            )
            &&& crate::stage::looks(steps[3])
            &&& crate::stage::looks(steps[4])
            &&& crate::stage::demands(steps[5], Request::Sort { of: 0, keys: 1, into: 1 })
            &&& crate::stage::demands(
                steps[6],
                Request::Download { of: 1, column: 0, scalar: Scalar::U32, into: 2 },
            )
            &&& crate::stage::looks(steps[7])
            &&& crate::stage::works(steps[8], 3)
            &&& crate::stage::looks(steps[9])
            &&& crate::stage::inquires(steps[10], Request::Release { from: 0 })
        }),
{
}

/// What the device is asked in piece 1 of the part `part4` of `test_upload_download_integrity`.
pub open spec fn upload_download_integrity_part4_1_asks() -> Seq<Ask> {
    let words1 = crate::stage::column(10000, |i: int| i);
    let table1 = Thing::Table {
        layout: Layout::Val,
        scalar: Scalar::U32,
        columns: seq![words1],
        turn: 15,
    };
    let sorted1 = Thing::Sorted { of: Box::new(table1), keys: 1, turn: 17 };
    seq![
        Ask::Make(table1),
        Ask::Words { of: table1, column: 0, scalar: Scalar::U32 },
        Ask::Make(sorted1),
        Ask::Words { of: sorted1, column: 0, scalar: Scalar::U32 },
    ]
}

/// Piece 1 of the part `part4` of `test_upload_download_integrity` asks what it should.
proof fn lemma_upload_download_integrity_part4_1(m: Moment, steps: Seq<Step>) -> (n: Moment)
    requires
        m.holds(),
        m.at == 33,
        m.used == 15,
        33 + 11 <= m.plan.steps.len(),
        forall|j: int| 0 <= j < 11 ==> m.plan.steps[33 + j] == #[trigger] steps[j],
        crate::stage::fills(steps[0], 0, num(10000), ix()),
        crate::stage::demands(
            steps[1],
            Request::Create { into: 0, layout: Layout::Val, scalar: Scalar::U32, from: 0 },
        ),
        crate::stage::demands(
            steps[2],
            Request::Download { of: 0, column: 0, scalar: Scalar::U32, into: 1 },
        ),
        crate::stage::looks(steps[3]),
        crate::stage::looks(steps[4]),
        crate::stage::demands(steps[5], Request::Sort { of: 0, keys: 1, into: 1 }),
        crate::stage::demands(
            steps[6],
            Request::Download { of: 1, column: 0, scalar: Scalar::U32, into: 2 },
        ),
        crate::stage::looks(steps[7]),
    ensures
        n.holds(),
        n.plan == m.plan,
        n.answers == m.answers,
        n.at == 33 + 8,
        n.used == m.used + 4,
        crate::stage::asks(m.plan, m.answers, 15, upload_download_integrity_part4_1_asks()),
{
    crate::stage::lemma_full(m);
    crate::stage::lemma_asks_none(m, 15);
    let list0 = Seq::<Ask>::empty();
    let words1 = crate::stage::column(10000, |i: int| i);
    let word1 = ix();
    assert forall|i: int| 0 <= i < words1.len() implies crate::stage::meaning(
        word1,
        m.contents,
        i,
    ) as u64 == #[trigger] words1[i] by {
        reveal_with_fuel(crate::stage::meaning, 1);
    }
    let m1 = crate::stage::lemma_filled(m, steps[0], 0, num(10000), word1, words1);
    let table1 = Thing::Table {
        layout: Layout::Val,
        scalar: Scalar::U32,
        columns: seq![words1],
        turn: 15,
    };
    let m2 = crate::stage::lemma_create(m1, steps[1], 0, Layout::Val, Scalar::U32, 0, table1);
    crate::stage::lemma_asks_more(m, 15, list0, Ask::Make(table1));
    let list1 = list0.push(Ask::Make(table1));
    let m3 = crate::stage::lemma_download(m2, steps[2], 0, 0, Scalar::U32, 1, table1);
    crate::stage::lemma_asks_more(
        m,
        15,
        list1,
        Ask::Words { of: table1, column: 0, scalar: Scalar::U32 },
    );
    let list2 = list1.push(Ask::Words { of: table1, column: 0, scalar: Scalar::U32 });
    let m4 = crate::stage::lemma_look(m3, steps[3]);
    let m5 = crate::stage::lemma_look(m4, steps[4]);
    let sorted1 = Thing::Sorted { of: Box::new(table1), keys: 1, turn: 17 };
    let m6 = crate::stage::lemma_sort(m5, steps[5], 0, 1, 1, table1, sorted1);
    crate::stage::lemma_asks_more(m, 15, list2, Ask::Make(sorted1));
    let list3 = list2.push(Ask::Make(sorted1));
    let m7 = crate::stage::lemma_download(m6, steps[6], 1, 0, Scalar::U32, 2, sorted1);
    crate::stage::lemma_asks_more(
        m,
        15,
        list3,
        Ask::Words { of: sorted1, column: 0, scalar: Scalar::U32 },
    );
    let list4 = list3.push(Ask::Words { of: sorted1, column: 0, scalar: Scalar::U32 });
    let m8 = crate::stage::lemma_look(m7, steps[7]);
    assert(upload_download_integrity_part4_1_asks() == list4);
    m8
}

/// What the device is asked in piece 2 of the part `part4` of `test_upload_download_integrity`.
pub open spec fn upload_download_integrity_part4_2_asks() -> Seq<Ask> {
    seq![Ask::Other(Request::Release { from: 0 })]
}

/// Piece 2 of the part `part4` of `test_upload_download_integrity` asks what it should.
proof fn lemma_upload_download_integrity_part4_2(m: Moment, steps: Seq<Step>) -> (n: Moment)
    requires
        m.holds(),
        m.at == 33 + 8,
        m.used == 19,
        33 + 11 <= m.plan.steps.len(),
        forall|j: int| 0 <= j < 11 ==> m.plan.steps[33 + j] == #[trigger] steps[j],
        crate::stage::works(steps[8], 3),
        crate::stage::looks(steps[9]),
        crate::stage::inquires(steps[10], Request::Release { from: 0 }),
    ensures
        n.holds(),
        n.plan == m.plan,
        n.answers == m.answers,
        n.at == 33 + 11,
        n.used == m.used + 1,
        crate::stage::asks(m.plan, m.answers, 19, upload_download_integrity_part4_2_asks()),
{
    crate::stage::lemma_full(m);
    crate::stage::lemma_asks_none(m, 19);
    let list0 = Seq::<Ask>::empty();
    let m1 = crate::stage::lemma_work(m, steps[8], 3);
    let m2 = crate::stage::lemma_look(m1, steps[9]);
    let m3 = crate::stage::lemma_release(m2, steps[10], 0);
    crate::stage::lemma_asks_more(m, 19, list0, Ask::Other(Request::Release { from: 0 }));
    let list1 = list0.push(Ask::Other(Request::Release { from: 0 }));
    assert(upload_download_integrity_part4_2_asks() == list1);
    m3
}

/// The steps of the part `part4` of `test_upload_download_integrity`.
proof fn lemma_upload_download_integrity_part4_steps()
    ensures
        ({
            let steps = crate::categories::c18_host_device::transferred_pattern_steps(
                "sequential",
                ix(),
            );
            &&& steps.len() == 11
            &&& crate::stage::fills(steps[0], 0, num(10000), ix())
            &&& crate::stage::demands(
                steps[1],
                Request::Create { into: 0, layout: Layout::Val, scalar: Scalar::U32, from: 0 },
            )
            &&& crate::stage::demands(
                steps[2],
                Request::Download { of: 0, column: 0, scalar: Scalar::U32, into: 1 },
            )
            &&& crate::stage::looks(steps[3])
            &&& crate::stage::looks(steps[4])
            &&& crate::stage::demands(steps[5], Request::Sort { of: 0, keys: 1, into: 1 })
            &&& crate::stage::demands(
                steps[6],
                Request::Download { of: 1, column: 0, scalar: Scalar::U32, into: 2 },
            )
            &&& crate::stage::looks(steps[7])
            &&& crate::stage::works(steps[8], 3)
            &&& crate::stage::looks(steps[9])
            &&& crate::stage::inquires(steps[10], Request::Release { from: 0 })
        }),
{
}

/// What the device is asked in piece 1 of the part `part5` of `test_upload_download_integrity`.
pub open spec fn upload_download_integrity_part5_1_asks() -> Seq<Ask> {
    let words1 = crate::stage::column(10000, |i: int| (10000 - 1) - i);
    let table1 = Thing::Table {
        layout: Layout::Val,
        scalar: Scalar::U32,
        columns: seq![words1],
        turn: 20,
    };
    let sorted1 = Thing::Sorted { of: Box::new(table1), keys: 1, turn: 22 };
    seq![
        Ask::Make(table1),
        Ask::Words { of: table1, column: 0, scalar: Scalar::U32 },
        Ask::Make(sorted1),
        Ask::Words { of: sorted1, column: 0, scalar: Scalar::U32 },
    ]
}

/// Piece 1 of the part `part5` of `test_upload_download_integrity` asks what it should.
proof fn lemma_upload_download_integrity_part5_1(m: Moment, steps: Seq<Step>) -> (n: Moment)
    requires
        m.holds(),
        m.at == 44,
        m.used == 20,
        44 + 11 <= m.plan.steps.len(),
        forall|j: int| 0 <= j < 11 ==> m.plan.steps[44 + j] == #[trigger] steps[j],
        crate::stage::fills(steps[0], 0, num(10000), minus(minus(num(10000), num(1)), ix())),
        crate::stage::demands(
            steps[1],
            Request::Create { into: 0, layout: Layout::Val, scalar: Scalar::U32, from: 0 },
        ),
        crate::stage::demands(
            steps[2],
            Request::Download { of: 0, column: 0, scalar: Scalar::U32, into: 1 },
        ),
        crate::stage::looks(steps[3]),
        crate::stage::looks(steps[4]),
        crate::stage::demands(steps[5], Request::Sort { of: 0, keys: 1, into: 1 }),
        crate::stage::demands(
            steps[6],
            Request::Download { of: 1, column: 0, scalar: Scalar::U32, into: 2 },
        ),
        crate::stage::looks(steps[7]),
    ensures
        n.holds(),
        n.plan == m.plan,
        n.answers == m.answers,
        n.at == 44 + 8,
        n.used == m.used + 4,
        crate::stage::asks(m.plan, m.answers, 20, upload_download_integrity_part5_1_asks()),
{
    crate::stage::lemma_full(m);
    crate::stage::lemma_asks_none(m, 20);
    let list0 = Seq::<Ask>::empty();
    let words1 = crate::stage::column(10000, |i: int| (10000 - 1) - i);
    let word1 = minus(minus(num(10000), num(1)), ix());
    assert forall|i: int| 0 <= i < words1.len() implies crate::stage::meaning(
        word1,
        m.contents,
        i,
    ) as u64 == #[trigger] words1[i] by {
        reveal_with_fuel(crate::stage::meaning, 4);
    }
    let m1 = crate::stage::lemma_filled(m, steps[0], 0, num(10000), word1, words1);
    let table1 = Thing::Table {
        layout: Layout::Val,
        scalar: Scalar::U32,
        columns: seq![words1],
        turn: 20,
    };
    let m2 = crate::stage::lemma_create(m1, steps[1], 0, Layout::Val, Scalar::U32, 0, table1);
    crate::stage::lemma_asks_more(m, 20, list0, Ask::Make(table1));
    let list1 = list0.push(Ask::Make(table1));
    let m3 = crate::stage::lemma_download(m2, steps[2], 0, 0, Scalar::U32, 1, table1);
    crate::stage::lemma_asks_more(
        m,
        20,
        list1,
        Ask::Words { of: table1, column: 0, scalar: Scalar::U32 },
    );
    let list2 = list1.push(Ask::Words { of: table1, column: 0, scalar: Scalar::U32 });
    let m4 = crate::stage::lemma_look(m3, steps[3]);
    let m5 = crate::stage::lemma_look(m4, steps[4]);
    let sorted1 = Thing::Sorted { of: Box::new(table1), keys: 1, turn: 22 };
    let m6 = crate::stage::lemma_sort(m5, steps[5], 0, 1, 1, table1, sorted1);
    crate::stage::lemma_asks_more(m, 20, list2, Ask::Make(sorted1));
    let list3 = list2.push(Ask::Make(sorted1));
    let m7 = crate::stage::lemma_download(m6, steps[6], 1, 0, Scalar::U32, 2, sorted1);
    crate::stage::lemma_asks_more(
        m,
        20,
        list3,
        Ask::Words { of: sorted1, column: 0, scalar: Scalar::U32 },
    );
    let list4 = list3.push(Ask::Words { of: sorted1, column: 0, scalar: Scalar::U32 });
    let m8 = crate::stage::lemma_look(m7, steps[7]);
    assert(upload_download_integrity_part5_1_asks() == list4);
    m8
}

/// What the device is asked in piece 2 of the part `part5` of `test_upload_download_integrity`.
pub open spec fn upload_download_integrity_part5_2_asks() -> Seq<Ask> {
    seq![Ask::Other(Request::Release { from: 0 })]
}

/// Piece 2 of the part `part5` of `test_upload_download_integrity` asks what it should.
proof fn lemma_upload_download_integrity_part5_2(m: Moment, steps: Seq<Step>) -> (n: Moment)
    requires
        m.holds(),
        m.at == 44 + 8,
        m.used == 24,
        44 + 11 <= m.plan.steps.len(),
        forall|j: int| 0 <= j < 11 ==> m.plan.steps[44 + j] == #[trigger] steps[j],
        crate::stage::works(steps[8], 3),
        crate::stage::looks(steps[9]),
        crate::stage::inquires(steps[10], Request::Release { from: 0 }),
    ensures
        n.holds(),
        n.plan == m.plan,
        n.answers == m.answers,
        n.at == 44 + 11,
        n.used == m.used + 1,
        crate::stage::asks(m.plan, m.answers, 24, upload_download_integrity_part5_2_asks()),
{
    crate::stage::lemma_full(m);
    crate::stage::lemma_asks_none(m, 24);
    let list0 = Seq::<Ask>::empty();
    let m1 = crate::stage::lemma_work(m, steps[8], 3);
    let m2 = crate::stage::lemma_look(m1, steps[9]);
    let m3 = crate::stage::lemma_release(m2, steps[10], 0);
    crate::stage::lemma_asks_more(m, 24, list0, Ask::Other(Request::Release { from: 0 }));
    let list1 = list0.push(Ask::Other(Request::Release { from: 0 }));
    assert(upload_download_integrity_part5_2_asks() == list1);
    m3
}

/// The steps of the part `part5` of `test_upload_download_integrity`.
proof fn lemma_upload_download_integrity_part5_steps()
    ensures
        ({
            let steps = crate::categories::c18_host_device::transferred_pattern_steps(
                "reverse",
                minus(minus(num(10000), num(1)), ix()),
            );
            &&& steps.len() == 11
            &&& crate::stage::fills(steps[0], 0, num(10000), minus(minus(num(10000), num(1)), ix()))
            &&& crate::stage::demands(
                steps[1],
                Request::Create { into: 0, layout: Layout::Val, scalar: Scalar::U32, from: 0 },
            )
            &&& crate::stage::demands(
                steps[2],
                Request::Download { of: 0, column: 0, scalar: Scalar::U32, into: 1 },
            )
            &&& crate::stage::looks(steps[3])
            &&& crate::stage::looks(steps[4])
            &&& crate::stage::demands(steps[5], Request::Sort { of: 0, keys: 1, into: 1 })
            &&& crate::stage::demands(
                steps[6],
                Request::Download { of: 1, column: 0, scalar: Scalar::U32, into: 2 },
            )
            &&& crate::stage::looks(steps[7])
            &&& crate::stage::works(steps[8], 3)
            &&& crate::stage::looks(steps[9])
            &&& crate::stage::inquires(steps[10], Request::Release { from: 0 })
        }),
{
}

/// What the device is asked in piece 1 of the part `part6` of `test_upload_download_integrity`.
pub open spec fn upload_download_integrity_part6_1_asks() -> Seq<Ask> {
    let words1 = crate::stage::column(10000, |i: int| if ((i % 2) == 0) { 0 } else { 4294967295 });
    let table1 = Thing::Table {
        layout: Layout::Val,
        scalar: Scalar::U32,
        columns: seq![words1],
        turn: 25,
    };
    let sorted1 = Thing::Sorted { of: Box::new(table1), keys: 1, turn: 27 };
    seq![
        Ask::Make(table1),
        Ask::Words { of: table1, column: 0, scalar: Scalar::U32 },
        Ask::Make(sorted1),
        Ask::Words { of: sorted1, column: 0, scalar: Scalar::U32 },
    ]
}

/// Piece 1 of the part `part6` of `test_upload_download_integrity` asks what it should.
proof fn lemma_upload_download_integrity_part6_1(m: Moment, steps: Seq<Step>) -> (n: Moment)
    requires
        m.holds(),
        m.at == 55,
        m.used == 25,
        55 + 11 <= m.plan.steps.len(),
        forall|j: int| 0 <= j < 11 ==> m.plan.steps[55 + j] == #[trigger] steps[j],
        crate::stage::fills(
            steps[0],
            0,
            num(10000),
            pick(same_as(modulo(ix(), num(2)), num(0)), num(0), num(4294967295)),
        ),
        crate::stage::demands(
            steps[1],
            Request::Create { into: 0, layout: Layout::Val, scalar: Scalar::U32, from: 0 },
        ),
        crate::stage::demands(
            steps[2],
            Request::Download { of: 0, column: 0, scalar: Scalar::U32, into: 1 },
        ),
        crate::stage::looks(steps[3]),
        crate::stage::looks(steps[4]),
        crate::stage::demands(steps[5], Request::Sort { of: 0, keys: 1, into: 1 }),
        crate::stage::demands(
            steps[6],
            Request::Download { of: 1, column: 0, scalar: Scalar::U32, into: 2 },
        ),
        crate::stage::looks(steps[7]),
    ensures
        n.holds(),
        n.plan == m.plan,
        n.answers == m.answers,
        n.at == 55 + 8,
        n.used == m.used + 4,
        crate::stage::asks(m.plan, m.answers, 25, upload_download_integrity_part6_1_asks()),
{
    crate::stage::lemma_full(m);
    crate::stage::lemma_asks_none(m, 25);
    let list0 = Seq::<Ask>::empty();
    let words1 = crate::stage::column(10000, |i: int| if ((i % 2) == 0) { 0 } else { 4294967295 });
    let word1 = pick(same_as(modulo(ix(), num(2)), num(0)), num(0), num(4294967295));
    assert forall|i: int| 0 <= i < words1.len() implies crate::stage::meaning(
        word1,
        m.contents,
        i,
    ) as u64 == #[trigger] words1[i] by {
        reveal_with_fuel(crate::stage::meaning, 5);
    }
    let m1 = crate::stage::lemma_filled(m, steps[0], 0, num(10000), word1, words1);
    let table1 = Thing::Table {
        layout: Layout::Val,
        scalar: Scalar::U32,
        columns: seq![words1],
        turn: 25,
    };
    let m2 = crate::stage::lemma_create(m1, steps[1], 0, Layout::Val, Scalar::U32, 0, table1);
    crate::stage::lemma_asks_more(m, 25, list0, Ask::Make(table1));
    let list1 = list0.push(Ask::Make(table1));
    let m3 = crate::stage::lemma_download(m2, steps[2], 0, 0, Scalar::U32, 1, table1);
    crate::stage::lemma_asks_more(
        m,
        25,
        list1,
        Ask::Words { of: table1, column: 0, scalar: Scalar::U32 },
    );
    let list2 = list1.push(Ask::Words { of: table1, column: 0, scalar: Scalar::U32 });
    let m4 = crate::stage::lemma_look(m3, steps[3]);
    let m5 = crate::stage::lemma_look(m4, steps[4]);
    let sorted1 = Thing::Sorted { of: Box::new(table1), keys: 1, turn: 27 };
    let m6 = crate::stage::lemma_sort(m5, steps[5], 0, 1, 1, table1, sorted1);
    crate::stage::lemma_asks_more(m, 25, list2, Ask::Make(sorted1));
    let list3 = list2.push(Ask::Make(sorted1));
    let m7 = crate::stage::lemma_download(m6, steps[6], 1, 0, Scalar::U32, 2, sorted1);
    crate::stage::lemma_asks_more(
        m,
        25,
        list3,
        Ask::Words { of: sorted1, column: 0, scalar: Scalar::U32 },
    );
    let list4 = list3.push(Ask::Words { of: sorted1, column: 0, scalar: Scalar::U32 });
    let m8 = crate::stage::lemma_look(m7, steps[7]);
    assert(upload_download_integrity_part6_1_asks() == list4);
    m8
}

/// What the device is asked in piece 2 of the part `part6` of `test_upload_download_integrity`.
pub open spec fn upload_download_integrity_part6_2_asks() -> Seq<Ask> {
    seq![Ask::Other(Request::Release { from: 0 })]
}

/// Piece 2 of the part `part6` of `test_upload_download_integrity` asks what it should.
proof fn lemma_upload_download_integrity_part6_2(m: Moment, steps: Seq<Step>) -> (n: Moment)
    requires
        m.holds(),
        m.at == 55 + 8,
        m.used == 29,
        55 + 11 <= m.plan.steps.len(),
        forall|j: int| 0 <= j < 11 ==> m.plan.steps[55 + j] == #[trigger] steps[j],
        crate::stage::works(steps[8], 3),
        crate::stage::looks(steps[9]),
        crate::stage::inquires(steps[10], Request::Release { from: 0 }),
    ensures
        n.holds(),
        n.plan == m.plan,
        n.answers == m.answers,
        n.at == 55 + 11,
        n.used == m.used + 1,
        crate::stage::asks(m.plan, m.answers, 29, upload_download_integrity_part6_2_asks()),
{
    crate::stage::lemma_full(m);
    crate::stage::lemma_asks_none(m, 29);
    let list0 = Seq::<Ask>::empty();
    let m1 = crate::stage::lemma_work(m, steps[8], 3);
    let m2 = crate::stage::lemma_look(m1, steps[9]);
    let m3 = crate::stage::lemma_release(m2, steps[10], 0);
    crate::stage::lemma_asks_more(m, 29, list0, Ask::Other(Request::Release { from: 0 }));
    let list1 = list0.push(Ask::Other(Request::Release { from: 0 }));
    assert(upload_download_integrity_part6_2_asks() == list1);
    m3
}

/// The steps of the part `part6` of `test_upload_download_integrity`.
proof fn lemma_upload_download_integrity_part6_steps()
    ensures
        ({
            let steps = crate::categories::c18_host_device::transferred_pattern_steps(
                "alternating",
                pick(same_as(modulo(ix(), num(2)), num(0)), num(0), num(4294967295)),
            );
            &&& steps.len() == 11
            &&& crate::stage::fills(
                steps[0],
                0,
                num(10000),
                pick(same_as(modulo(ix(), num(2)), num(0)), num(0), num(4294967295)),
            )
            &&& crate::stage::demands(
                steps[1],
                Request::Create { into: 0, layout: Layout::Val, scalar: Scalar::U32, from: 0 },
            )
            &&& crate::stage::demands(
                steps[2],
                Request::Download { of: 0, column: 0, scalar: Scalar::U32, into: 1 },
            )
            &&& crate::stage::looks(steps[3])
            &&& crate::stage::looks(steps[4])
            &&& crate::stage::demands(steps[5], Request::Sort { of: 0, keys: 1, into: 1 })
            &&& crate::stage::demands(
                steps[6],
                Request::Download { of: 1, column: 0, scalar: Scalar::U32, into: 2 },
            )
            &&& crate::stage::looks(steps[7])
            &&& crate::stage::works(steps[8], 3)
            &&& crate::stage::looks(steps[9])
            &&& crate::stage::inquires(steps[10], Request::Release { from: 0 })
        }),
{
}

/// What the device is asked in piece 1 of the part `part7` of `test_upload_download_integrity`.
pub open spec fn upload_download_integrity_part7_1_asks() -> Seq<Ask> {
    let words1 = crate::stage::column(10000, |i: int| ((i * 1103515245) + 12345) % 4294967296);
    let table1 = Thing::Table {
        layout: Layout::Val,
        scalar: Scalar::U32,
        columns: seq![words1],
        turn: 30,
    };
    let sorted1 = Thing::Sorted { of: Box::new(table1), keys: 1, turn: 32 };
    seq![
        Ask::Make(table1),
        Ask::Words { of: table1, column: 0, scalar: Scalar::U32 },
        Ask::Make(sorted1),
        Ask::Words { of: sorted1, column: 0, scalar: Scalar::U32 },
    ]
}

/// Piece 1 of the part `part7` of `test_upload_download_integrity` asks what it should.
proof fn lemma_upload_download_integrity_part7_1(m: Moment, steps: Seq<Step>) -> (n: Moment)
    requires
        m.holds(),
        m.at == 66,
        m.used == 30,
        66 + 11 <= m.plan.steps.len(),
        forall|j: int| 0 <= j < 11 ==> m.plan.steps[66 + j] == #[trigger] steps[j],
        crate::stage::fills(
            steps[0],
            0,
            num(10000),
            modulo(plus(times(ix(), num(1103515245)), num(12345)), num(4294967296)),
        ),
        crate::stage::demands(
            steps[1],
            Request::Create { into: 0, layout: Layout::Val, scalar: Scalar::U32, from: 0 },
        ),
        crate::stage::demands(
            steps[2],
            Request::Download { of: 0, column: 0, scalar: Scalar::U32, into: 1 },
        ),
        crate::stage::looks(steps[3]),
        crate::stage::looks(steps[4]),
        crate::stage::demands(steps[5], Request::Sort { of: 0, keys: 1, into: 1 }),
        crate::stage::demands(
            steps[6],
            Request::Download { of: 1, column: 0, scalar: Scalar::U32, into: 2 },
        ),
        crate::stage::looks(steps[7]),
    ensures
        n.holds(),
        n.plan == m.plan,
        n.answers == m.answers,
        n.at == 66 + 8,
        n.used == m.used + 4,
        crate::stage::asks(m.plan, m.answers, 30, upload_download_integrity_part7_1_asks()),
{
    crate::stage::lemma_full(m);
    crate::stage::lemma_asks_none(m, 30);
    let list0 = Seq::<Ask>::empty();
    let words1 = crate::stage::column(10000, |i: int| ((i * 1103515245) + 12345) % 4294967296);
    let word1 = modulo(plus(times(ix(), num(1103515245)), num(12345)), num(4294967296));
    assert forall|i: int| 0 <= i < words1.len() implies crate::stage::meaning(
        word1,
        m.contents,
        i,
    ) as u64 == #[trigger] words1[i] by {
        reveal_with_fuel(crate::stage::meaning, 5);
    }
    let m1 = crate::stage::lemma_filled(m, steps[0], 0, num(10000), word1, words1);
    let table1 = Thing::Table {
        layout: Layout::Val,
        scalar: Scalar::U32,
        columns: seq![words1],
        turn: 30,
    };
    let m2 = crate::stage::lemma_create(m1, steps[1], 0, Layout::Val, Scalar::U32, 0, table1);
    crate::stage::lemma_asks_more(m, 30, list0, Ask::Make(table1));
    let list1 = list0.push(Ask::Make(table1));
    let m3 = crate::stage::lemma_download(m2, steps[2], 0, 0, Scalar::U32, 1, table1);
    crate::stage::lemma_asks_more(
        m,
        30,
        list1,
        Ask::Words { of: table1, column: 0, scalar: Scalar::U32 },
    );
    let list2 = list1.push(Ask::Words { of: table1, column: 0, scalar: Scalar::U32 });
    let m4 = crate::stage::lemma_look(m3, steps[3]);
    let m5 = crate::stage::lemma_look(m4, steps[4]);
    let sorted1 = Thing::Sorted { of: Box::new(table1), keys: 1, turn: 32 };
    let m6 = crate::stage::lemma_sort(m5, steps[5], 0, 1, 1, table1, sorted1);
    crate::stage::lemma_asks_more(m, 30, list2, Ask::Make(sorted1));
    let list3 = list2.push(Ask::Make(sorted1));
    let m7 = crate::stage::lemma_download(m6, steps[6], 1, 0, Scalar::U32, 2, sorted1);
    crate::stage::lemma_asks_more(
        m,
        30,
        list3,
        Ask::Words { of: sorted1, column: 0, scalar: Scalar::U32 },
    );
    let list4 = list3.push(Ask::Words { of: sorted1, column: 0, scalar: Scalar::U32 });
    let m8 = crate::stage::lemma_look(m7, steps[7]);
    assert(upload_download_integrity_part7_1_asks() == list4);
    m8
}

/// What the device is asked in piece 2 of the part `part7` of `test_upload_download_integrity`.
pub open spec fn upload_download_integrity_part7_2_asks() -> Seq<Ask> {
    seq![Ask::Other(Request::Release { from: 0 })]
}

/// Piece 2 of the part `part7` of `test_upload_download_integrity` asks what it should.
proof fn lemma_upload_download_integrity_part7_2(m: Moment, steps: Seq<Step>) -> (n: Moment)
    requires
        m.holds(),
        m.at == 66 + 8,
        m.used == 34,
        66 + 11 <= m.plan.steps.len(),
        forall|j: int| 0 <= j < 11 ==> m.plan.steps[66 + j] == #[trigger] steps[j],
        crate::stage::works(steps[8], 3),
        crate::stage::looks(steps[9]),
        crate::stage::inquires(steps[10], Request::Release { from: 0 }),
    ensures
        n.holds(),
        n.plan == m.plan,
        n.answers == m.answers,
        n.at == 66 + 11,
        n.used == m.used + 1,
        crate::stage::asks(m.plan, m.answers, 34, upload_download_integrity_part7_2_asks()),
{
    crate::stage::lemma_full(m);
    crate::stage::lemma_asks_none(m, 34);
    let list0 = Seq::<Ask>::empty();
    let m1 = crate::stage::lemma_work(m, steps[8], 3);
    let m2 = crate::stage::lemma_look(m1, steps[9]);
    let m3 = crate::stage::lemma_release(m2, steps[10], 0);
    crate::stage::lemma_asks_more(m, 34, list0, Ask::Other(Request::Release { from: 0 }));
    let list1 = list0.push(Ask::Other(Request::Release { from: 0 }));
    assert(upload_download_integrity_part7_2_asks() == list1);
    m3
}

/// The steps of the part `part7` of `test_upload_download_integrity`.
proof fn lemma_upload_download_integrity_part7_steps()
    ensures
        ({
            let steps = crate::categories::c18_host_device::transferred_pattern_steps(
                "random_lcg",
                modulo(plus(times(ix(), num(1103515245)), num(12345)), num(4294967296)),
            );
            &&& steps.len() == 11
            &&& crate::stage::fills(
                steps[0],
                0,
                num(10000),
                modulo(plus(times(ix(), num(1103515245)), num(12345)), num(4294967296)),
            )
            &&& crate::stage::demands(
                steps[1],
                Request::Create { into: 0, layout: Layout::Val, scalar: Scalar::U32, from: 0 },
            )
            &&& crate::stage::demands(
                steps[2],
                Request::Download { of: 0, column: 0, scalar: Scalar::U32, into: 1 },
            )
            &&& crate::stage::looks(steps[3])
            &&& crate::stage::looks(steps[4])
            &&& crate::stage::demands(steps[5], Request::Sort { of: 0, keys: 1, into: 1 })
            &&& crate::stage::demands(
                steps[6],
                Request::Download { of: 1, column: 0, scalar: Scalar::U32, into: 2 },
            )
            &&& crate::stage::looks(steps[7])
            &&& crate::stage::works(steps[8], 3)
            &&& crate::stage::looks(steps[9])
            &&& crate::stage::inquires(steps[10], Request::Release { from: 0 })
        }),
{
}

/// What the device is asked in the part `wide` of `test_upload_download_integrity`.
pub open spec fn upload_download_integrity_wide_asks() -> Seq<Ask> {
    let words1 = crate::stage::column(5000, |i: int| i * 1000000000);
    let table1 = Thing::Table {
        layout: Layout::Val,
        scalar: Scalar::U64,
        columns: seq![words1],
        turn: 35,
    };
    seq![
        Ask::Make(table1),
        Ask::Words { of: table1, column: 0, scalar: Scalar::U64 },
        Ask::Other(Request::Sync),
    ]
}

/// The part `wide` of `test_upload_download_integrity` asks what it should.
proof fn lemma_upload_download_integrity_wide(m: Moment, steps: Seq<Step>) -> (n: Moment)
    requires
        m.holds(),
        m.at == 77,
        m.used == 35,
        77 + 5 <= m.plan.steps.len(),
        forall|j: int| 0 <= j < 5 ==> m.plan.steps[77 + j] == #[trigger] steps[j],
        crate::stage::fills(steps[0], 0, num(5000), times(ix(), num(1000000000))),
        crate::stage::demands(
            steps[1],
            Request::Create { into: 0, layout: Layout::Val, scalar: Scalar::U64, from: 0 },
        ),
        crate::stage::demands(
            steps[2],
            Request::Download { of: 0, column: 0, scalar: Scalar::U64, into: 1 },
        ),
        crate::stage::looks(steps[3]),
        crate::stage::demands(steps[4], Request::Sync),
    ensures
        n.holds(),
        n.plan == m.plan,
        n.answers == m.answers,
        n.at == 77 + 5,
        n.used == m.used + 3,
        crate::stage::asks(m.plan, m.answers, 35, upload_download_integrity_wide_asks()),
{
    crate::stage::lemma_full(m);
    crate::stage::lemma_asks_none(m, 35);
    let list0 = Seq::<Ask>::empty();
    let words1 = crate::stage::column(5000, |i: int| i * 1000000000);
    let word1 = times(ix(), num(1000000000));
    assert forall|i: int| 0 <= i < words1.len() implies crate::stage::meaning(
        word1,
        m.contents,
        i,
    ) as u64 == #[trigger] words1[i] by {
        reveal_with_fuel(crate::stage::meaning, 3);
    }
    let m1 = crate::stage::lemma_filled(m, steps[0], 0, num(5000), word1, words1);
    let table1 = Thing::Table {
        layout: Layout::Val,
        scalar: Scalar::U64,
        columns: seq![words1],
        turn: 35,
    };
    let m2 = crate::stage::lemma_create(m1, steps[1], 0, Layout::Val, Scalar::U64, 0, table1);
    crate::stage::lemma_asks_more(m, 35, list0, Ask::Make(table1));
    let list1 = list0.push(Ask::Make(table1));
    let m3 = crate::stage::lemma_download(m2, steps[2], 0, 0, Scalar::U64, 1, table1);
    crate::stage::lemma_asks_more(
        m,
        35,
        list1,
        Ask::Words { of: table1, column: 0, scalar: Scalar::U64 },
    );
    let list2 = list1.push(Ask::Words { of: table1, column: 0, scalar: Scalar::U64 });
    let m4 = crate::stage::lemma_look(m3, steps[3]);
    let m5 = crate::stage::lemma_sync(m4, steps[4]);
    crate::stage::lemma_asks_more(m, 35, list2, Ask::Other(Request::Sync));
    let list3 = list2.push(Ask::Other(Request::Sync));
    assert(upload_download_integrity_wide_asks() == list3);
    m5
}

/// The steps of the part `wide` of `test_upload_download_integrity`.
proof fn lemma_upload_download_integrity_wide_steps()
    ensures
        ({
            let steps = crate::categories::c18_host_device::upload_download_integrity_wide_steps();
            &&& steps.len() == 5
            &&& crate::stage::fills(steps[0], 0, num(5000), times(ix(), num(1000000000)))
            &&& crate::stage::demands(
                steps[1],
                Request::Create { into: 0, layout: Layout::Val, scalar: Scalar::U64, from: 0 },
            )
            &&& crate::stage::demands(
                steps[2],
                Request::Download { of: 0, column: 0, scalar: Scalar::U64, into: 1 },
            )
            &&& crate::stage::looks(steps[3])
            &&& crate::stage::demands(steps[4], Request::Sync)
        }),
{
}

/// In a run of `test_upload_download_integrity` that passes the device is asked this, in this
/// order, and nothing else: each request about what an earlier one made is about that, and about
/// what was uploaded for it.
pub proof fn law_upload_download_integrity_asks_about_what_it_made(answers: Seq<Answer>)
    requires
        crate::stage::passes(
            crate::script::plan(
                "test_upload_download_integrity",
                crate::categories::c18_host_device::upload_download_integrity_steps(),
            ),
            answers,
        ),
    ensures
        crate::stage::asks(
            crate::script::plan(
                "test_upload_download_integrity",
                crate::categories::c18_host_device::upload_download_integrity_steps(),
            ),
            answers,
            0,
            upload_download_integrity_part1_1_asks(),
        ),
        crate::stage::asks(
            crate::script::plan(
                "test_upload_download_integrity",
                crate::categories::c18_host_device::upload_download_integrity_steps(),
            ),
            answers,
            4,
            upload_download_integrity_part1_2_asks(),
        ),
        crate::stage::asks(
            crate::script::plan(
                "test_upload_download_integrity",
                crate::categories::c18_host_device::upload_download_integrity_steps(),
            ),
            answers,
            5,
            upload_download_integrity_part2_1_asks(),
        ),
        crate::stage::asks(
            crate::script::plan(
                "test_upload_download_integrity",
                crate::categories::c18_host_device::upload_download_integrity_steps(),
            ),
            answers,
            9,
            upload_download_integrity_part2_2_asks(),
        ),
        crate::stage::asks(
            crate::script::plan(
                "test_upload_download_integrity",
                crate::categories::c18_host_device::upload_download_integrity_steps(),
            ),
            answers,
            10,
            upload_download_integrity_part3_1_asks(),
        ),
        crate::stage::asks(
            crate::script::plan(
                "test_upload_download_integrity",
                crate::categories::c18_host_device::upload_download_integrity_steps(),
            ),
            answers,
            14,
            upload_download_integrity_part3_2_asks(),
        ),
        crate::stage::asks(
            crate::script::plan(
                "test_upload_download_integrity",
                crate::categories::c18_host_device::upload_download_integrity_steps(),
            ),
            answers,
            15,
            upload_download_integrity_part4_1_asks(),
        ),
        crate::stage::asks(
            crate::script::plan(
                "test_upload_download_integrity",
                crate::categories::c18_host_device::upload_download_integrity_steps(),
            ),
            answers,
            19,
            upload_download_integrity_part4_2_asks(),
        ),
        crate::stage::asks(
            crate::script::plan(
                "test_upload_download_integrity",
                crate::categories::c18_host_device::upload_download_integrity_steps(),
            ),
            answers,
            20,
            upload_download_integrity_part5_1_asks(),
        ),
        crate::stage::asks(
            crate::script::plan(
                "test_upload_download_integrity",
                crate::categories::c18_host_device::upload_download_integrity_steps(),
            ),
            answers,
            24,
            upload_download_integrity_part5_2_asks(),
        ),
        crate::stage::asks(
            crate::script::plan(
                "test_upload_download_integrity",
                crate::categories::c18_host_device::upload_download_integrity_steps(),
            ),
            answers,
            25,
            upload_download_integrity_part6_1_asks(),
        ),
        crate::stage::asks(
            crate::script::plan(
                "test_upload_download_integrity",
                crate::categories::c18_host_device::upload_download_integrity_steps(),
            ),
            answers,
            29,
            upload_download_integrity_part6_2_asks(),
        ),
        crate::stage::asks(
            crate::script::plan(
                "test_upload_download_integrity",
                crate::categories::c18_host_device::upload_download_integrity_steps(),
            ),
            answers,
            30,
            upload_download_integrity_part7_1_asks(),
        ),
        crate::stage::asks(
            crate::script::plan(
                "test_upload_download_integrity",
                crate::categories::c18_host_device::upload_download_integrity_steps(),
            ),
            answers,
            34,
            upload_download_integrity_part7_2_asks(),
        ),
        crate::stage::asks(
            crate::script::plan(
                "test_upload_download_integrity",
                crate::categories::c18_host_device::upload_download_integrity_steps(),
            ),
            answers,
            35,
            upload_download_integrity_wide_asks(),
        ),
        crate::stage::asked(
            crate::script::plan(
                "test_upload_download_integrity",
                crate::categories::c18_host_device::upload_download_integrity_steps(),
            ),
            answers,
            38,
        ) is None,
{
    let plan = crate::script::plan(
        "test_upload_download_integrity",
        crate::categories::c18_host_device::upload_download_integrity_steps(),
    );
    let part1 = crate::categories::c18_host_device::transferred_pattern_steps("zeros", num(0));
    lemma_upload_download_integrity_part1_steps();
    let part2 = crate::categories::c18_host_device::transferred_pattern_steps("ones", num(1));
    lemma_upload_download_integrity_part2_steps();
    let part3 = crate::categories::c18_host_device::transferred_pattern_steps(
        "max_values",
        num(4294967295),
    );
    lemma_upload_download_integrity_part3_steps();
    let part4 = crate::categories::c18_host_device::transferred_pattern_steps("sequential", ix());
    lemma_upload_download_integrity_part4_steps();
    let part5 = crate::categories::c18_host_device::transferred_pattern_steps(
        "reverse",
        minus(minus(num(10000), num(1)), ix()),
    );
    lemma_upload_download_integrity_part5_steps();
    let part6 = crate::categories::c18_host_device::transferred_pattern_steps(
        "alternating",
        pick(same_as(modulo(ix(), num(2)), num(0)), num(0), num(4294967295)),
    );
    lemma_upload_download_integrity_part6_steps();
    let part7 = crate::categories::c18_host_device::transferred_pattern_steps(
        "random_lcg",
        modulo(plus(times(ix(), num(1103515245)), num(12345)), num(4294967296)),
    );
    lemma_upload_download_integrity_part7_steps();
    let part8 = crate::categories::c18_host_device::upload_download_integrity_wide_steps();
    lemma_upload_download_integrity_wide_steps();
    let whole1 = part1;
    let whole2 = whole1 + part2;
    let whole3 = whole2 + part3;
    let whole4 = whole3 + part4;
    let whole5 = whole4 + part5;
    let whole6 = whole5 + part6;
    let whole7 = whole6 + part7;
    let whole8 = whole7 + part8;
    assert(plan.steps == whole8);
    let m0 = crate::stage::lemma_start(plan, answers);
    assert forall|j: int| 0 <= j < 11 implies plan.steps[0 + j] == #[trigger] part1[j] by {}
    let m1 = lemma_upload_download_integrity_part1_1(m0, part1);
    let m2 = lemma_upload_download_integrity_part1_2(m1, part1);
    assert forall|j: int| 0 <= j < 11 implies plan.steps[11 + j] == #[trigger] part2[j] by {}
    let m3 = lemma_upload_download_integrity_part2_1(m2, part2);
    let m4 = lemma_upload_download_integrity_part2_2(m3, part2);
    assert forall|j: int| 0 <= j < 11 implies plan.steps[22 + j] == #[trigger] part3[j] by {}
    let m5 = lemma_upload_download_integrity_part3_1(m4, part3);
    let m6 = lemma_upload_download_integrity_part3_2(m5, part3);
    assert forall|j: int| 0 <= j < 11 implies plan.steps[33 + j] == #[trigger] part4[j] by {}
    let m7 = lemma_upload_download_integrity_part4_1(m6, part4);
    let m8 = lemma_upload_download_integrity_part4_2(m7, part4);
    assert forall|j: int| 0 <= j < 11 implies plan.steps[44 + j] == #[trigger] part5[j] by {}
    let m9 = lemma_upload_download_integrity_part5_1(m8, part5);
    let m10 = lemma_upload_download_integrity_part5_2(m9, part5);
    assert forall|j: int| 0 <= j < 11 implies plan.steps[55 + j] == #[trigger] part6[j] by {}
    let m11 = lemma_upload_download_integrity_part6_1(m10, part6);
    let m12 = lemma_upload_download_integrity_part6_2(m11, part6);
    assert forall|j: int| 0 <= j < 11 implies plan.steps[66 + j] == #[trigger] part7[j] by {}
    let m13 = lemma_upload_download_integrity_part7_1(m12, part7);
    let m14 = lemma_upload_download_integrity_part7_2(m13, part7);
    assert forall|j: int| 0 <= j < 5 implies plan.steps[77 + j] == #[trigger] part8[j] by {}
    let m15 = lemma_upload_download_integrity_wide(m14, part8);
    crate::stage::lemma_end(m15);
}

} // verus!
