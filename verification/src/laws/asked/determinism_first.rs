//! What these tests ask the device in runs that pass: `test_sort_reproducibility`,
//! `test_filter_reproducibility`.

use vstd::prelude::*;
use crate::expr::{differs, ix, lt, modulo, num, plus, same_as, times};
use crate::machine::Answer;
use crate::scalar::Scalar;
use crate::script::{Layout, Request, Step};
use crate::stage::{Ask, Moment, Thing};

verus! {

/// A column that is filled in the part `first` of `test_sort_reproducibility`.
pub open spec fn sort_reproducibility_first_words1() -> Seq<u64> {
    crate::stage::column(10000, |i: int| ((i * 1103515245) + 12345) % 1000000)
}

/// A buffer that is uploaded in the part `first` of `test_sort_reproducibility`.
pub open spec fn sort_reproducibility_first_table1() -> Thing {
    Thing::Table {
        layout: Layout::Val,
        scalar: Scalar::U32,
        columns: seq![sort_reproducibility_first_words1()],
        turn: 0,
    }
}

/// What the device is asked in the part `first` of `test_sort_reproducibility`.
pub open spec fn sort_reproducibility_first_asks() -> Seq<Ask> {
    let sorted1 = Thing::Sorted {
        of: Box::new(sort_reproducibility_first_table1()),
        keys: 1,
        turn: 1,
    };
    seq![
        Ask::Make(sort_reproducibility_first_table1()),
        Ask::Make(sorted1),
        Ask::Words { of: sorted1, column: 0, scalar: Scalar::U32 },
    ]
}

/// The part `first` of `test_sort_reproducibility` asks what it should.
proof fn lemma_sort_reproducibility_first(m: Moment, steps: Seq<Step>) -> (n: Moment)
    requires
        m.holds(),
        m.at == 0,
        m.used == 0,
        0 + 5 <= m.plan.steps.len(),
        forall|j: int| 0 <= j < 5 ==> m.plan.steps[0 + j] == #[trigger] steps[j],
        crate::stage::fills(
            steps[0],
            0,
            num(10000),
            modulo(plus(times(ix(), num(1103515245)), num(12345)), num(1000000)),
        ),
        crate::stage::demands(
            steps[1],
            Request::Create { into: 0, layout: Layout::Val, scalar: Scalar::U32, from: 0 },
        ),
        crate::stage::demands(steps[2], Request::Sort { of: 0, keys: 1, into: 1 }),
        crate::stage::demands(
            steps[3],
            Request::Download { of: 1, column: 0, scalar: Scalar::U32, into: 1 },
        ),
        crate::stage::looks(steps[4]),
    ensures
        n.holds(),
        n.plan == m.plan,
        n.answers == m.answers,
        n.at == 0 + 5,
        n.used == m.used + 3,
        n.contents.columns[0] == sort_reproducibility_first_words1(),
        n.scene.buffer(0) == sort_reproducibility_first_table1(),
        crate::stage::asks(m.plan, m.answers, 0, sort_reproducibility_first_asks()),
{
    crate::stage::lemma_full(m);
    crate::stage::lemma_asks_none(m, 0);
    let list0 = Seq::<Ask>::empty();
    let words1 = sort_reproducibility_first_words1();
    let word1 = modulo(plus(times(ix(), num(1103515245)), num(12345)), num(1000000));
    assert forall|i: int| 0 <= i < words1.len() implies crate::stage::meaning(
        word1,
        m.contents,
        i,
    ) as u64 == #[trigger] words1[i] by {
        reveal_with_fuel(crate::stage::meaning, 5);
    }
    let m1 = crate::stage::lemma_filled(m, steps[0], 0, num(10000), word1, words1);
    let m2 = crate::stage::lemma_create(
        m1,
        steps[1],
        0,
        Layout::Val,
        Scalar::U32,
        0,
        sort_reproducibility_first_table1(),
    );
    crate::stage::lemma_asks_more(m, 0, list0, Ask::Make(sort_reproducibility_first_table1()));
    let list1 = list0.push(Ask::Make(sort_reproducibility_first_table1()));
    let sorted1 = Thing::Sorted {
        of: Box::new(sort_reproducibility_first_table1()),
        keys: 1,
        turn: 1,
    };
    let m3 = crate::stage::lemma_sort(
        m2,
        steps[2],
        0,
        1,
        1,
        sort_reproducibility_first_table1(),
        sorted1,
    );
    crate::stage::lemma_asks_more(m, 0, list1, Ask::Make(sorted1));
    let list2 = list1.push(Ask::Make(sorted1));
    let m4 = crate::stage::lemma_download(m3, steps[3], 1, 0, Scalar::U32, 1, sorted1);
    crate::stage::lemma_asks_more(
        m,
        0,
        list2,
        Ask::Words { of: sorted1, column: 0, scalar: Scalar::U32 },
    );
    let list3 = list2.push(Ask::Words { of: sorted1, column: 0, scalar: Scalar::U32 });
    let m5 = crate::stage::lemma_look(m4, steps[4]);
    assert(sort_reproducibility_first_asks() == list3);
    m5
}

/// The steps of the part `first` of `test_sort_reproducibility`.
proof fn lemma_sort_reproducibility_first_steps()
    ensures
        ({
            let steps = crate::categories::c15_determinism::sort_reproducibility_first_steps();
            &&& steps.len() == 5
            &&& crate::stage::fills(
                steps[0],
                0,
                num(10000),
                modulo(plus(times(ix(), num(1103515245)), num(12345)), num(1000000)),
            )
            &&& crate::stage::demands(
                steps[1],
                Request::Create { into: 0, layout: Layout::Val, scalar: Scalar::U32, from: 0 },
            )
            &&& crate::stage::demands(steps[2], Request::Sort { of: 0, keys: 1, into: 1 })
            &&& crate::stage::demands(
                steps[3],
                Request::Download { of: 1, column: 0, scalar: Scalar::U32, into: 1 },
            )
            &&& crate::stage::looks(steps[4])
        }),
{
}

/// What the device is asked in round `k` of the part `repeats` of `test_sort_reproducibility`.
pub open spec fn sort_reproducibility_repeats_asks(k: int) -> Seq<Ask> {
    let sorted1 = Thing::Sorted {
        of: Box::new(sort_reproducibility_first_table1()),
        keys: 1,
        turn: 3 + 3 * k,
    };
    seq![
        Ask::Make(sorted1),
        Ask::Words { of: sorted1, column: 0, scalar: Scalar::U32 },
        Ask::Other(Request::Release { from: 2 }),
    ]
}

/// Round `k` of the part `repeats` of `test_sort_reproducibility` asks what it should.
proof fn lemma_sort_reproducibility_repeats(m: Moment, steps: Seq<Step>, k: int) -> (n: Moment)
    requires
        0 <= k < 4,
        m.holds(),
        m.at == 5 + 5 * k,
        m.used == 3 + 3 * k,
        5 + 5 * k + 5 <= m.plan.steps.len(),
        forall|j: int| 0 <= j < 5 ==> m.plan.steps[5 + 5 * k + j] == #[trigger] steps[j],
        crate::stage::demands(steps[0], Request::Sort { of: 0, keys: 1, into: 2 }),
        crate::stage::demands(
            steps[1],
            Request::Download { of: 2, column: 0, scalar: Scalar::U32, into: 2 },
        ),
        crate::stage::looks(steps[2]),
        crate::stage::looks(steps[3]),
        crate::stage::inquires(steps[4], Request::Release { from: 2 }),
        m.contents.columns[0] == sort_reproducibility_first_words1(),
        m.scene.buffer(0) == sort_reproducibility_first_table1(),
    ensures
        n.holds(),
        n.plan == m.plan,
        n.answers == m.answers,
        n.at == 5 + 5 * k + 5,
        n.used == m.used + 3,
        n.contents.columns[0] == sort_reproducibility_first_words1(),
        n.scene.buffer(0) == sort_reproducibility_first_table1(),
        crate::stage::asks(m.plan, m.answers, 3 + 3 * k, sort_reproducibility_repeats_asks(k)),
{
    crate::stage::lemma_full(m);
    crate::stage::lemma_asks_none(m, 3 + 3 * k);
    let list0 = Seq::<Ask>::empty();
    let sorted1 = Thing::Sorted {
        of: Box::new(sort_reproducibility_first_table1()),
        keys: 1,
        turn: 3 + 3 * k,
    };
    let m1 = crate::stage::lemma_sort(
        m,
        steps[0],
        0,
        1,
        2,
        sort_reproducibility_first_table1(),
        sorted1,
    );
    crate::stage::lemma_asks_more(m, 3 + 3 * k, list0, Ask::Make(sorted1));
    let list1 = list0.push(Ask::Make(sorted1));
    let m2 = crate::stage::lemma_download(m1, steps[1], 2, 0, Scalar::U32, 2, sorted1);
    crate::stage::lemma_asks_more(
        m,
        3 + 3 * k,
        list1,
        Ask::Words { of: sorted1, column: 0, scalar: Scalar::U32 },
    );
    let list2 = list1.push(Ask::Words { of: sorted1, column: 0, scalar: Scalar::U32 });
    let m3 = crate::stage::lemma_look(m2, steps[2]);
    let m4 = crate::stage::lemma_look(m3, steps[3]);
    let m5 = crate::stage::lemma_release(m4, steps[4], 2);
    crate::stage::lemma_asks_more(m, 3 + 3 * k, list2, Ask::Other(Request::Release { from: 2 }));
    let list3 = list2.push(Ask::Other(Request::Release { from: 2 }));
    assert(sort_reproducibility_repeats_asks(k) == list3);
    m5
}

/// The steps of the part `repeats` of `test_sort_reproducibility`.
proof fn lemma_sort_reproducibility_repeats_steps(k: int)
    ensures
        ({
            let steps = crate::categories::c15_determinism::sort_reproducibility_repeats_round(
                k as u64,
            );
            &&& steps.len() == 5
            &&& crate::stage::demands(steps[0], Request::Sort { of: 0, keys: 1, into: 2 })
            &&& crate::stage::demands(
                steps[1],
                Request::Download { of: 2, column: 0, scalar: Scalar::U32, into: 2 },
            )
            &&& crate::stage::looks(steps[2])
            &&& crate::stage::looks(steps[3])
            &&& crate::stage::inquires(steps[4], Request::Release { from: 2 })
        }),
{
}

/// The first `k` rounds of the part `repeats` of `test_sort_reproducibility` ask what they should.
proof fn lemma_sort_reproducibility_repeats_rounds(
    m: Moment,
    part: Seq<Step>,
    k: int,
) -> (n: Moment)
    requires
        0 <= k <= 4,
        m.holds(),
        m.at == 5,
        m.used == 3 + 3 * 0,
        m.at + 20 <= m.plan.steps.len(),
        part == crate::script::rounds(
            4,
            |k: int| crate::categories::c15_determinism::sort_reproducibility_repeats_round(
                k as u64,
            ),
        ),
        forall|j: int| 0 <= j < 20 ==> m.plan.steps[5 + j] == #[trigger] part[j],
        m.contents.columns[0] == sort_reproducibility_first_words1(),
        m.scene.buffer(0) == sort_reproducibility_first_table1(),
    ensures
        n.holds(),
        n.plan == m.plan,
        n.answers == m.answers,
        n.at == 5 + 5 * k,
        n.used == 3 + 3 * k,
        n.contents.columns[0] == sort_reproducibility_first_words1(),
        n.scene.buffer(0) == sort_reproducibility_first_table1(),
        forall|j: int|
            0 <= j < k ==> crate::stage::asks(
                m.plan,
                m.answers,
                3 + 3 * j,
                #[trigger] sort_reproducibility_repeats_asks(j),
            ),
    decreases k,
{
    if k == 0 {
        m
    } else {
        let round = |k: int| crate::categories::c15_determinism::sort_reproducibility_repeats_round(
            k as u64,
        );
        let before = lemma_sort_reproducibility_repeats_rounds(m, part, k - 1);
        assert forall|j: int| 0 <= j < 5 implies m.plan.steps[before.at + j] == #[trigger] crate::categories::c15_determinism::sort_reproducibility_repeats_round(
            (k - 1) as u64,
        )[j] by {
            assert forall|k: int| 0 <= k < 4 implies (#[trigger] round(k)).len() == 5 by {
                lemma_sort_reproducibility_repeats_steps(k);
            }
            crate::stage::lemma_round_place(4, round, 5, k - 1, j);
            assert(part[(k - 1) * 5 + j] == round(k - 1)[j]);
        }
        lemma_sort_reproducibility_repeats_steps(k - 1);
        lemma_sort_reproducibility_repeats(
            before,
            crate::categories::c15_determinism::sort_reproducibility_repeats_round((k - 1) as u64),
            k - 1,
        )
    }
}

/// What the device is asked in the part `end` of `test_sort_reproducibility`.
pub open spec fn sort_reproducibility_end_asks() -> Seq<Ask> {
    let table1 = Thing::Table {
        layout: Layout::Val,
        scalar: Scalar::U32,
        columns: seq![sort_reproducibility_first_words1()],
        turn: 15,
    };
    let sorted1 = Thing::Sorted { of: Box::new(table1), keys: 1, turn: 16 };
    seq![
        Ask::Make(table1),
        Ask::Make(sorted1),
        Ask::Words { of: sorted1, column: 0, scalar: Scalar::U32 },
        Ask::Other(Request::Sync),
    ]
}

/// The part `end` of `test_sort_reproducibility` asks what it should.
proof fn lemma_sort_reproducibility_end(m: Moment, steps: Seq<Step>) -> (n: Moment)
    requires
        m.holds(),
        m.at == 25,
        m.used == 15,
        25 + 5 <= m.plan.steps.len(),
        forall|j: int| 0 <= j < 5 ==> m.plan.steps[25 + j] == #[trigger] steps[j],
        crate::stage::demands(
            steps[0],
            Request::Create { into: 2, layout: Layout::Val, scalar: Scalar::U32, from: 0 },
        ),
        crate::stage::demands(steps[1], Request::Sort { of: 2, keys: 1, into: 3 }),
        crate::stage::demands(
            steps[2],
            Request::Download { of: 3, column: 0, scalar: Scalar::U32, into: 2 },
        ),
        crate::stage::looks(steps[3]),
        crate::stage::demands(steps[4], Request::Sync),
        m.contents.columns[0] == sort_reproducibility_first_words1(),
    ensures
        n.holds(),
        n.plan == m.plan,
        n.answers == m.answers,
        n.at == 25 + 5,
        n.used == m.used + 4,
        crate::stage::asks(m.plan, m.answers, 15, sort_reproducibility_end_asks()),
{
    crate::stage::lemma_full(m);
    crate::stage::lemma_asks_none(m, 15);
    let list0 = Seq::<Ask>::empty();
    let table1 = Thing::Table {
        layout: Layout::Val,
        scalar: Scalar::U32,
        columns: seq![sort_reproducibility_first_words1()],
        turn: 15,
    };
    let m1 = crate::stage::lemma_create(m, steps[0], 2, Layout::Val, Scalar::U32, 0, table1);
    crate::stage::lemma_asks_more(m, 15, list0, Ask::Make(table1));
    let list1 = list0.push(Ask::Make(table1));
    let sorted1 = Thing::Sorted { of: Box::new(table1), keys: 1, turn: 16 };
    let m2 = crate::stage::lemma_sort(m1, steps[1], 2, 1, 3, table1, sorted1);
    crate::stage::lemma_asks_more(m, 15, list1, Ask::Make(sorted1));
    let list2 = list1.push(Ask::Make(sorted1));
    let m3 = crate::stage::lemma_download(m2, steps[2], 3, 0, Scalar::U32, 2, sorted1);
    crate::stage::lemma_asks_more(
        m,
        15,
        list2,
        Ask::Words { of: sorted1, column: 0, scalar: Scalar::U32 },
    );
    let list3 = list2.push(Ask::Words { of: sorted1, column: 0, scalar: Scalar::U32 });
    let m4 = crate::stage::lemma_look(m3, steps[3]);
    let m5 = crate::stage::lemma_sync(m4, steps[4]);
    crate::stage::lemma_asks_more(m, 15, list3, Ask::Other(Request::Sync));
    let list4 = list3.push(Ask::Other(Request::Sync));
    assert(sort_reproducibility_end_asks() == list4);
    m5
}

/// The steps of the part `end` of `test_sort_reproducibility`.
proof fn lemma_sort_reproducibility_end_steps()
    ensures
        ({
            let steps = crate::categories::c15_determinism::sort_reproducibility_end_steps();
            &&& steps.len() == 5
            &&& crate::stage::demands(
                steps[0],
                Request::Create { into: 2, layout: Layout::Val, scalar: Scalar::U32, from: 0 },
            )
            &&& crate::stage::demands(steps[1], Request::Sort { of: 2, keys: 1, into: 3 })
            &&& crate::stage::demands(
                steps[2],
                Request::Download { of: 3, column: 0, scalar: Scalar::U32, into: 2 },
            )
            &&& crate::stage::looks(steps[3])
            &&& crate::stage::demands(steps[4], Request::Sync)
        }),
{
}

/// In a run of `test_sort_reproducibility` that passes the device is asked this, in this order, and
/// nothing else: each request about what an earlier one made is about that, and about what was
/// uploaded for it.
pub proof fn law_sort_reproducibility_asks_about_what_it_made(answers: Seq<Answer>)
    requires
        crate::stage::passes(
            crate::script::plan(
                "test_sort_reproducibility",
                crate::categories::c15_determinism::sort_reproducibility_steps(),
            ),
            answers,
        ),
    ensures
        crate::stage::asks(
            crate::script::plan(
                "test_sort_reproducibility",
                crate::categories::c15_determinism::sort_reproducibility_steps(),
            ),
            answers,
            0,
            sort_reproducibility_first_asks(),
        ),
        forall|k: int|
            0 <= k < 4 ==> crate::stage::asks(
                crate::script::plan(
                    "test_sort_reproducibility",
                    crate::categories::c15_determinism::sort_reproducibility_steps(),
                ),
                answers,
                3 + 3 * k,
                #[trigger] sort_reproducibility_repeats_asks(k),
            ),
        crate::stage::asks(
            crate::script::plan(
                "test_sort_reproducibility",
                crate::categories::c15_determinism::sort_reproducibility_steps(),
            ),
            answers,
            15,
            sort_reproducibility_end_asks(),
        ),
        crate::stage::asked(
            crate::script::plan(
                "test_sort_reproducibility",
                crate::categories::c15_determinism::sort_reproducibility_steps(),
            ),
            answers,
            19,
        ) is None,
{
    let plan = crate::script::plan(
        "test_sort_reproducibility",
        crate::categories::c15_determinism::sort_reproducibility_steps(),
    );
    let part1 = crate::categories::c15_determinism::sort_reproducibility_first_steps();
    lemma_sort_reproducibility_first_steps();
    let round2 = |k: int| crate::categories::c15_determinism::sort_reproducibility_repeats_round(
        k as u64,
    );
    let part2 = crate::script::rounds(4, round2);
    assert forall|k: int| 0 <= k < 4 implies (#[trigger] round2(k)).len() == 5 by {
        lemma_sort_reproducibility_repeats_steps(k);
    }
    crate::stage::lemma_rounds_length(4, round2, 5);
    let part3 = crate::categories::c15_determinism::sort_reproducibility_end_steps();
    lemma_sort_reproducibility_end_steps();
    let whole1 = part1;
    let whole2 = whole1 + part2;
    let whole3 = whole2 + part3;
    assert(plan.steps == whole3);
    let m0 = crate::stage::lemma_start(plan, answers);
    assert forall|j: int| 0 <= j < 5 implies plan.steps[0 + j] == #[trigger] part1[j] by {}
    let m1 = lemma_sort_reproducibility_first(m0, part1);
    assert forall|j: int| 0 <= j < 20 implies plan.steps[5 + j] == #[trigger] part2[j] by {}
    let m2 = lemma_sort_reproducibility_repeats_rounds(m1, part2, 4);
    assert forall|j: int| 0 <= j < 5 implies plan.steps[25 + j] == #[trigger] part3[j] by {}
    let m3 = lemma_sort_reproducibility_end(m2, part3);
    crate::stage::lemma_end(m3);
}

/// A column that is filled in the part `first` of `test_filter_reproducibility`.
pub open spec fn filter_reproducibility_first_words2() -> Seq<u64> {
    crate::stage::column(10000, |i: int| crate::stage::flag(((((i * 7) + 3) % 10) < 3)))
}

/// A buffer that is uploaded in the part `first` of `test_filter_reproducibility`.
pub open spec fn filter_reproducibility_first_table1() -> Thing {
    Thing::Table {
        layout: Layout::Val,
        scalar: Scalar::U32,
        columns: seq![crate::stage::column(10000, |i: int| i)],
        turn: 0,
    }
}

/// What the device is asked in the part `first` of `test_filter_reproducibility`.
pub open spec fn filter_reproducibility_first_asks() -> Seq<Ask> {
    let kept1 = Thing::Kept {
        of: Box::new(filter_reproducibility_first_table1()),
        mask: filter_reproducibility_first_words2(),
        turn: 1,
    };
    seq![
        Ask::Make(filter_reproducibility_first_table1()),
        Ask::Make(kept1),
        Ask::Words { of: kept1, column: 0, scalar: Scalar::U32 },
    ]
}

/// The part `first` of `test_filter_reproducibility` asks what it should.
proof fn lemma_filter_reproducibility_first(m: Moment, steps: Seq<Step>) -> (n: Moment)
    requires
        m.holds(),
        m.at == 0,
        m.used == 0,
        0 + 6 <= m.plan.steps.len(),
        forall|j: int| 0 <= j < 6 ==> m.plan.steps[0 + j] == #[trigger] steps[j],
        crate::stage::fills(steps[0], 0, num(10000), ix()),
        crate::stage::fills(
            steps[1],
            1,
            num(10000),
            lt(modulo(plus(times(ix(), num(7)), num(3)), num(10)), num(3)),
        ),
        crate::stage::demands(
            steps[2],
            Request::Create { into: 0, layout: Layout::Val, scalar: Scalar::U32, from: 0 },
        ),
        crate::stage::demands(steps[3], Request::Filter { of: 0, mask: 1, into: 1 }),
        crate::stage::demands(
            steps[4],
            Request::Download { of: 1, column: 0, scalar: Scalar::U32, into: 2 },
        ),
        crate::stage::looks(steps[5]),
    ensures
        n.holds(),
        n.plan == m.plan,
        n.answers == m.answers,
        n.at == 0 + 6,
        n.used == m.used + 3,
        n.contents.columns[1] == filter_reproducibility_first_words2(),
        n.scene.buffer(0) == filter_reproducibility_first_table1(),
        crate::stage::asks(m.plan, m.answers, 0, filter_reproducibility_first_asks()),
{
    crate::stage::lemma_full(m);
    crate::stage::lemma_asks_none(m, 0);
    let list0 = Seq::<Ask>::empty();
    let words1 = crate::stage::column(10000, |i: int| i);
    let word1 = ix();
    assert forall|i: int| 0 <= i < words1.len() implies crate::stage::meaning(
        word1,
        m.contents,
        i,
    ) as u64 == #[trigger] words1[i] by {
        reveal_with_fuel(crate::stage::meaning, 1);
    }
    let m1 = crate::stage::lemma_filled(m, steps[0], 0, num(10000), word1, words1);
    let words2 = filter_reproducibility_first_words2();
    let word2 = lt(modulo(plus(times(ix(), num(7)), num(3)), num(10)), num(3));
    assert forall|i: int| 0 <= i < words2.len() implies crate::stage::meaning(
        word2,
        m1.contents,
        i,
    ) as u64 == #[trigger] words2[i] by {
        reveal_with_fuel(crate::stage::meaning, 6);
    }
    let m2 = crate::stage::lemma_filled(m1, steps[1], 1, num(10000), word2, words2);
    let m3 = crate::stage::lemma_create(
        m2,
        steps[2],
        0,
        Layout::Val,
        Scalar::U32,
        0,
        filter_reproducibility_first_table1(),
    );
    crate::stage::lemma_asks_more(m, 0, list0, Ask::Make(filter_reproducibility_first_table1()));
    let list1 = list0.push(Ask::Make(filter_reproducibility_first_table1()));
    let kept1 = Thing::Kept {
        of: Box::new(filter_reproducibility_first_table1()),
        mask: filter_reproducibility_first_words2(),
        turn: 1,
    };
    let m4 = crate::stage::lemma_filter(
        m3,
        steps[3],
        0,
        1,
        1,
        filter_reproducibility_first_table1(),
        filter_reproducibility_first_words2(),
        kept1,
    );
    crate::stage::lemma_asks_more(m, 0, list1, Ask::Make(kept1));
    let list2 = list1.push(Ask::Make(kept1));
    let m5 = crate::stage::lemma_download(m4, steps[4], 1, 0, Scalar::U32, 2, kept1);
    crate::stage::lemma_asks_more(
        m,
        0,
        list2,
        Ask::Words { of: kept1, column: 0, scalar: Scalar::U32 },
    );
    let list3 = list2.push(Ask::Words { of: kept1, column: 0, scalar: Scalar::U32 });
    let m6 = crate::stage::lemma_look(m5, steps[5]);
    assert(filter_reproducibility_first_asks() == list3);
    m6
}

/// The steps of the part `first` of `test_filter_reproducibility`.
proof fn lemma_filter_reproducibility_first_steps()
    ensures
        ({
            let steps = crate::categories::c15_determinism::filter_reproducibility_first_steps();
            &&& steps.len() == 6
            &&& crate::stage::fills(steps[0], 0, num(10000), ix())
            &&& crate::stage::fills(
                steps[1],
                1,
                num(10000),
                lt(modulo(plus(times(ix(), num(7)), num(3)), num(10)), num(3)),
            )
            &&& crate::stage::demands(
                steps[2],
                Request::Create { into: 0, layout: Layout::Val, scalar: Scalar::U32, from: 0 },
            )
            &&& crate::stage::demands(steps[3], Request::Filter { of: 0, mask: 1, into: 1 })
            &&& crate::stage::demands(
                steps[4],
                Request::Download { of: 1, column: 0, scalar: Scalar::U32, into: 2 },
            )
            &&& crate::stage::looks(steps[5])
        }),
{
}

/// What the device is asked in round `k` of the part `repeats` of `test_filter_reproducibility`.
pub open spec fn filter_reproducibility_repeats_asks(k: int) -> Seq<Ask> {
    let kept1 = Thing::Kept {
        of: Box::new(filter_reproducibility_first_table1()),
        mask: filter_reproducibility_first_words2(),
        turn: 3 + 3 * k,
    };
    seq![
        Ask::Make(kept1),
        Ask::Words { of: kept1, column: 0, scalar: Scalar::U32 },
        Ask::Other(Request::Release { from: 2 }),
    ]
}

/// Round `k` of the part `repeats` of `test_filter_reproducibility` asks what it should.
proof fn lemma_filter_reproducibility_repeats(m: Moment, steps: Seq<Step>, k: int) -> (n: Moment)
    requires
        0 <= k < 4,
        m.holds(),
        m.at == 6 + 4 * k,
        m.used == 3 + 3 * k,
        6 + 4 * k + 4 <= m.plan.steps.len(),
        forall|j: int| 0 <= j < 4 ==> m.plan.steps[6 + 4 * k + j] == #[trigger] steps[j],
        crate::stage::demands(steps[0], Request::Filter { of: 0, mask: 1, into: 2 }),
        crate::stage::demands(
            steps[1],
            Request::Download { of: 2, column: 0, scalar: Scalar::U32, into: 3 },
        ),
        crate::stage::looks(steps[2]),
        crate::stage::inquires(steps[3], Request::Release { from: 2 }),
        m.contents.columns[1] == filter_reproducibility_first_words2(),
        m.scene.buffer(0) == filter_reproducibility_first_table1(),
    ensures
        n.holds(),
        n.plan == m.plan,
        n.answers == m.answers,
        n.at == 6 + 4 * k + 4,
        n.used == m.used + 3,
        n.contents.columns[1] == filter_reproducibility_first_words2(),
        n.scene.buffer(0) == filter_reproducibility_first_table1(),
        crate::stage::asks(m.plan, m.answers, 3 + 3 * k, filter_reproducibility_repeats_asks(k)),
{
    crate::stage::lemma_full(m);
    crate::stage::lemma_asks_none(m, 3 + 3 * k);
    let list0 = Seq::<Ask>::empty();
    let kept1 = Thing::Kept {
        of: Box::new(filter_reproducibility_first_table1()),
        mask: filter_reproducibility_first_words2(),
        turn: 3 + 3 * k,
    };
    let m1 = crate::stage::lemma_filter(
        m,
        steps[0],
        0,
        1,
        2,
        filter_reproducibility_first_table1(),
        filter_reproducibility_first_words2(),
        kept1,
    );
    crate::stage::lemma_asks_more(m, 3 + 3 * k, list0, Ask::Make(kept1));
    let list1 = list0.push(Ask::Make(kept1));
    let m2 = crate::stage::lemma_download(m1, steps[1], 2, 0, Scalar::U32, 3, kept1);
    crate::stage::lemma_asks_more(
        m,
        3 + 3 * k,
        list1,
        Ask::Words { of: kept1, column: 0, scalar: Scalar::U32 },
    );
    let list2 = list1.push(Ask::Words { of: kept1, column: 0, scalar: Scalar::U32 });
    let m3 = crate::stage::lemma_look(m2, steps[2]);
    let m4 = crate::stage::lemma_release(m3, steps[3], 2);
    crate::stage::lemma_asks_more(m, 3 + 3 * k, list2, Ask::Other(Request::Release { from: 2 }));
    let list3 = list2.push(Ask::Other(Request::Release { from: 2 }));
    assert(filter_reproducibility_repeats_asks(k) == list3);
    m4
}

/// The steps of the part `repeats` of `test_filter_reproducibility`.
proof fn lemma_filter_reproducibility_repeats_steps(k: int)
    ensures
        ({
            let steps = crate::categories::c15_determinism::filter_reproducibility_repeats_round(
                k as u64,
            );
            &&& steps.len() == 4
            &&& crate::stage::demands(steps[0], Request::Filter { of: 0, mask: 1, into: 2 })
            &&& crate::stage::demands(
                steps[1],
                Request::Download { of: 2, column: 0, scalar: Scalar::U32, into: 3 },
            )
            &&& crate::stage::looks(steps[2])
            &&& crate::stage::inquires(steps[3], Request::Release { from: 2 })
        }),
{
}

/// The first `k` rounds of the part `repeats` of `test_filter_reproducibility` ask what they
/// should.
proof fn lemma_filter_reproducibility_repeats_rounds(
    m: Moment,
    part: Seq<Step>,
    k: int,
) -> (n: Moment)
    requires
        0 <= k <= 4,
        m.holds(),
        m.at == 6,
        m.used == 3 + 3 * 0,
        m.at + 16 <= m.plan.steps.len(),
        part == crate::script::rounds(
            4,
            |k: int| crate::categories::c15_determinism::filter_reproducibility_repeats_round(
                k as u64,
            ),
        ),
        forall|j: int| 0 <= j < 16 ==> m.plan.steps[6 + j] == #[trigger] part[j],
        m.contents.columns[1] == filter_reproducibility_first_words2(),
        m.scene.buffer(0) == filter_reproducibility_first_table1(),
    ensures
        n.holds(),
        n.plan == m.plan,
        n.answers == m.answers,
        n.at == 6 + 4 * k,
        n.used == 3 + 3 * k,
        n.contents.columns[1] == filter_reproducibility_first_words2(),
        n.scene.buffer(0) == filter_reproducibility_first_table1(),
        forall|j: int|
            0 <= j < k ==> crate::stage::asks(
                m.plan,
                m.answers,
                3 + 3 * j,
                #[trigger] filter_reproducibility_repeats_asks(j),
            ),
    decreases k,
{
    if k == 0 {
        m
    } else {
        let round = |k: int| crate::categories::c15_determinism::filter_reproducibility_repeats_round(
            k as u64,
        );
        let before = lemma_filter_reproducibility_repeats_rounds(m, part, k - 1);
        assert forall|j: int| 0 <= j < 4 implies m.plan.steps[before.at + j] == #[trigger] crate::categories::c15_determinism::filter_reproducibility_repeats_round(
            (k - 1) as u64,
        )[j] by {
            assert forall|k: int| 0 <= k < 4 implies (#[trigger] round(k)).len() == 4 by {
                lemma_filter_reproducibility_repeats_steps(k);
            }
            crate::stage::lemma_round_place(4, round, 4, k - 1, j);
            assert(part[(k - 1) * 4 + j] == round(k - 1)[j]);
        }
        lemma_filter_reproducibility_repeats_steps(k - 1);
        lemma_filter_reproducibility_repeats(
            before,
            crate::categories::c15_determinism::filter_reproducibility_repeats_round(
                (k - 1) as u64,
            ),
            k - 1,
        )
    }
}

/// What the device is asked in the part `part3` of `test_filter_reproducibility`.
pub open spec fn filter_reproducibility_part3_asks() -> Seq<Ask> {
    let words1 = crate::stage::column(10000, |i: int| crate::stage::flag(((i % 10) == 0)));
    let kept1 = Thing::Kept {
        of: Box::new(filter_reproducibility_first_table1()),
        mask: words1,
        turn: 15,
    };
    let kept2 = Thing::Kept {
        of: Box::new(filter_reproducibility_first_table1()),
        mask: words1,
        turn: 17,
    };
    seq![
        Ask::Make(kept1),
        Ask::Words { of: kept1, column: 0, scalar: Scalar::U32 },
        Ask::Make(kept2),
        Ask::Words { of: kept2, column: 0, scalar: Scalar::U32 },
        Ask::Other(Request::Release { from: 2 }),
    ]
}

/// The part `part3` of `test_filter_reproducibility` asks what it should.
proof fn lemma_filter_reproducibility_part3(m: Moment, steps: Seq<Step>) -> (n: Moment)
    requires
        m.holds(),
        m.at == 22,
        m.used == 15,
        22 + 7 <= m.plan.steps.len(),
        forall|j: int| 0 <= j < 7 ==> m.plan.steps[22 + j] == #[trigger] steps[j],
        crate::stage::fills(steps[0], 1, num(10000), same_as(modulo(ix(), num(10)), num(0))),
        crate::stage::demands(steps[1], Request::Filter { of: 0, mask: 1, into: 2 }),
        crate::stage::demands(
            steps[2],
            Request::Download { of: 2, column: 0, scalar: Scalar::U32, into: 4 },
        ),
        crate::stage::demands(steps[3], Request::Filter { of: 0, mask: 1, into: 3 }),
        crate::stage::demands(
            steps[4],
            Request::Download { of: 3, column: 0, scalar: Scalar::U32, into: 5 },
        ),
        crate::stage::looks(steps[5]),
        crate::stage::inquires(steps[6], Request::Release { from: 2 }),
        m.scene.buffer(0) == filter_reproducibility_first_table1(),
    ensures
        n.holds(),
        n.plan == m.plan,
        n.answers == m.answers,
        n.at == 22 + 7,
        n.used == m.used + 5,
        n.scene.buffer(0) == filter_reproducibility_first_table1(),
        crate::stage::asks(m.plan, m.answers, 15, filter_reproducibility_part3_asks()),
{
    crate::stage::lemma_full(m);
    crate::stage::lemma_asks_none(m, 15);
    let list0 = Seq::<Ask>::empty();
    let words1 = crate::stage::column(10000, |i: int| crate::stage::flag(((i % 10) == 0)));
    let word1 = same_as(modulo(ix(), num(10)), num(0));
    assert forall|i: int| 0 <= i < words1.len() implies crate::stage::meaning(
        word1,
        m.contents,
        i,
    ) as u64 == #[trigger] words1[i] by {
        reveal_with_fuel(crate::stage::meaning, 4);
    }
    let m1 = crate::stage::lemma_filled(m, steps[0], 1, num(10000), word1, words1);
    let kept1 = Thing::Kept {
        of: Box::new(filter_reproducibility_first_table1()),
        mask: words1,
        turn: 15,
    };
    let m2 = crate::stage::lemma_filter(
        m1,
        steps[1],
        0,
        1,
        2,
        filter_reproducibility_first_table1(),
        words1,
        kept1,
    );
    crate::stage::lemma_asks_more(m, 15, list0, Ask::Make(kept1));
    let list1 = list0.push(Ask::Make(kept1));
    let m3 = crate::stage::lemma_download(m2, steps[2], 2, 0, Scalar::U32, 4, kept1);
    crate::stage::lemma_asks_more(
        m,
        15,
        list1,
        Ask::Words { of: kept1, column: 0, scalar: Scalar::U32 },
    );
    let list2 = list1.push(Ask::Words { of: kept1, column: 0, scalar: Scalar::U32 });
    let kept2 = Thing::Kept {
        of: Box::new(filter_reproducibility_first_table1()),
        mask: words1,
        turn: 17,
    };
    let m4 = crate::stage::lemma_filter(
        m3,
        steps[3],
        0,
        1,
        3,
        filter_reproducibility_first_table1(),
        words1,
        kept2,
    );
    crate::stage::lemma_asks_more(m, 15, list2, Ask::Make(kept2));
    let list3 = list2.push(Ask::Make(kept2));
    let m5 = crate::stage::lemma_download(m4, steps[4], 3, 0, Scalar::U32, 5, kept2);
    crate::stage::lemma_asks_more(
        m,
        15,
        list3,
        Ask::Words { of: kept2, column: 0, scalar: Scalar::U32 },
    );
    let list4 = list3.push(Ask::Words { of: kept2, column: 0, scalar: Scalar::U32 });
    let m6 = crate::stage::lemma_look(m5, steps[5]);
    let m7 = crate::stage::lemma_release(m6, steps[6], 2);
    crate::stage::lemma_asks_more(m, 15, list4, Ask::Other(Request::Release { from: 2 }));
    let list5 = list4.push(Ask::Other(Request::Release { from: 2 }));
    assert(filter_reproducibility_part3_asks() == list5);
    m7
}

/// The steps of the part `part3` of `test_filter_reproducibility`.
proof fn lemma_filter_reproducibility_part3_steps()
    ensures
        ({
            let steps = crate::categories::c15_determinism::repeated_filter_steps(
                "10%",
                same_as(modulo(ix(), num(10)), num(0)),
            );
            &&& steps.len() == 7
            &&& crate::stage::fills(steps[0], 1, num(10000), same_as(modulo(ix(), num(10)), num(0)))
            &&& crate::stage::demands(steps[1], Request::Filter { of: 0, mask: 1, into: 2 })
            &&& crate::stage::demands(
                steps[2],
                Request::Download { of: 2, column: 0, scalar: Scalar::U32, into: 4 },
            )
            &&& crate::stage::demands(steps[3], Request::Filter { of: 0, mask: 1, into: 3 })
            &&& crate::stage::demands(
                steps[4],
                Request::Download { of: 3, column: 0, scalar: Scalar::U32, into: 5 },
            )
            &&& crate::stage::looks(steps[5])
            &&& crate::stage::inquires(steps[6], Request::Release { from: 2 })
        }),
{
}

/// What the device is asked in the part `part4` of `test_filter_reproducibility`.
pub open spec fn filter_reproducibility_part4_asks() -> Seq<Ask> {
    let words1 = crate::stage::column(10000, |i: int| crate::stage::flag(((i % 2) == 0)));
    let kept1 = Thing::Kept {
        of: Box::new(filter_reproducibility_first_table1()),
        mask: words1,
        turn: 20,
    };
    let kept2 = Thing::Kept {
        of: Box::new(filter_reproducibility_first_table1()),
        mask: words1,
        turn: 22,
    };
    seq![
        Ask::Make(kept1),
        Ask::Words { of: kept1, column: 0, scalar: Scalar::U32 },
        Ask::Make(kept2),
        Ask::Words { of: kept2, column: 0, scalar: Scalar::U32 },
        Ask::Other(Request::Release { from: 2 }),
    ]
}

/// The part `part4` of `test_filter_reproducibility` asks what it should.
proof fn lemma_filter_reproducibility_part4(m: Moment, steps: Seq<Step>) -> (n: Moment)
    requires
        m.holds(),
        m.at == 29,
        m.used == 20,
        29 + 7 <= m.plan.steps.len(),
        forall|j: int| 0 <= j < 7 ==> m.plan.steps[29 + j] == #[trigger] steps[j],
        crate::stage::fills(steps[0], 1, num(10000), same_as(modulo(ix(), num(2)), num(0))),
        crate::stage::demands(steps[1], Request::Filter { of: 0, mask: 1, into: 2 }),
        crate::stage::demands(
            steps[2],
            Request::Download { of: 2, column: 0, scalar: Scalar::U32, into: 4 },
        ),
        crate::stage::demands(steps[3], Request::Filter { of: 0, mask: 1, into: 3 }),
        crate::stage::demands(
            steps[4],
            Request::Download { of: 3, column: 0, scalar: Scalar::U32, into: 5 },
        ),
        crate::stage::looks(steps[5]),
        crate::stage::inquires(steps[6], Request::Release { from: 2 }),
        m.scene.buffer(0) == filter_reproducibility_first_table1(),
    ensures
        n.holds(),
        n.plan == m.plan,
        n.answers == m.answers,
        n.at == 29 + 7,
        n.used == m.used + 5,
        n.scene.buffer(0) == filter_reproducibility_first_table1(),
        crate::stage::asks(m.plan, m.answers, 20, filter_reproducibility_part4_asks()),
{
    crate::stage::lemma_full(m);
    crate::stage::lemma_asks_none(m, 20);
    let list0 = Seq::<Ask>::empty();
    let words1 = crate::stage::column(10000, |i: int| crate::stage::flag(((i % 2) == 0)));
    let word1 = same_as(modulo(ix(), num(2)), num(0));
    assert forall|i: int| 0 <= i < words1.len() implies crate::stage::meaning(
        word1,
        m.contents,
        i,
    ) as u64 == #[trigger] words1[i] by {
        reveal_with_fuel(crate::stage::meaning, 4);
    }
    let m1 = crate::stage::lemma_filled(m, steps[0], 1, num(10000), word1, words1);
    let kept1 = Thing::Kept {
        of: Box::new(filter_reproducibility_first_table1()),
        mask: words1,
        turn: 20,
    };
    let m2 = crate::stage::lemma_filter(
        m1,
        steps[1],
        0,
        1,
        2,
        filter_reproducibility_first_table1(),
        words1,
        kept1,
    );
    crate::stage::lemma_asks_more(m, 20, list0, Ask::Make(kept1));
    let list1 = list0.push(Ask::Make(kept1));
    let m3 = crate::stage::lemma_download(m2, steps[2], 2, 0, Scalar::U32, 4, kept1);
    crate::stage::lemma_asks_more(
        m,
        20,
        list1,
        Ask::Words { of: kept1, column: 0, scalar: Scalar::U32 },
    );
    let list2 = list1.push(Ask::Words { of: kept1, column: 0, scalar: Scalar::U32 });
    let kept2 = Thing::Kept {
        of: Box::new(filter_reproducibility_first_table1()),
        mask: words1,
        turn: 22,
    };
    let m4 = crate::stage::lemma_filter(
        m3,
        steps[3],
        0,
        1,
        3,
        filter_reproducibility_first_table1(),
        words1,
        kept2,
    );
    crate::stage::lemma_asks_more(m, 20, list2, Ask::Make(kept2));
    let list3 = list2.push(Ask::Make(kept2));
    let m5 = crate::stage::lemma_download(m4, steps[4], 3, 0, Scalar::U32, 5, kept2);
    crate::stage::lemma_asks_more(
        m,
        20,
        list3,
        Ask::Words { of: kept2, column: 0, scalar: Scalar::U32 },
    );
    let list4 = list3.push(Ask::Words { of: kept2, column: 0, scalar: Scalar::U32 });
    let m6 = crate::stage::lemma_look(m5, steps[5]);
    let m7 = crate::stage::lemma_release(m6, steps[6], 2);
    crate::stage::lemma_asks_more(m, 20, list4, Ask::Other(Request::Release { from: 2 }));
    let list5 = list4.push(Ask::Other(Request::Release { from: 2 }));
    assert(filter_reproducibility_part4_asks() == list5);
    m7
}

/// The steps of the part `part4` of `test_filter_reproducibility`.
proof fn lemma_filter_reproducibility_part4_steps()
    ensures
        ({
            let steps = crate::categories::c15_determinism::repeated_filter_steps(
                "50%",
                same_as(modulo(ix(), num(2)), num(0)),
            );
            &&& steps.len() == 7
            &&& crate::stage::fills(steps[0], 1, num(10000), same_as(modulo(ix(), num(2)), num(0)))
            &&& crate::stage::demands(steps[1], Request::Filter { of: 0, mask: 1, into: 2 })
            &&& crate::stage::demands(
                steps[2],
                Request::Download { of: 2, column: 0, scalar: Scalar::U32, into: 4 },
            )
            &&& crate::stage::demands(steps[3], Request::Filter { of: 0, mask: 1, into: 3 })
            &&& crate::stage::demands(
                steps[4],
                Request::Download { of: 3, column: 0, scalar: Scalar::U32, into: 5 },
            )
            &&& crate::stage::looks(steps[5])
            &&& crate::stage::inquires(steps[6], Request::Release { from: 2 })
        }),
{
}

/// What the device is asked in the part `part5` of `test_filter_reproducibility`.
pub open spec fn filter_reproducibility_part5_asks() -> Seq<Ask> {
    let words1 = crate::stage::column(10000, |i: int| crate::stage::flag(((i % 10) != 0)));
    let kept1 = Thing::Kept {
        of: Box::new(filter_reproducibility_first_table1()),
        mask: words1,
        turn: 25,
    };
    let kept2 = Thing::Kept {
        of: Box::new(filter_reproducibility_first_table1()),
        mask: words1,
        turn: 27,
    };
    seq![
        Ask::Make(kept1),
        Ask::Words { of: kept1, column: 0, scalar: Scalar::U32 },
        Ask::Make(kept2),
        Ask::Words { of: kept2, column: 0, scalar: Scalar::U32 },
        Ask::Other(Request::Release { from: 2 }),
    ]
}

/// The part `part5` of `test_filter_reproducibility` asks what it should.
proof fn lemma_filter_reproducibility_part5(m: Moment, steps: Seq<Step>) -> (n: Moment)
    requires
        m.holds(),
        m.at == 36,
        m.used == 25,
        36 + 7 <= m.plan.steps.len(),
        forall|j: int| 0 <= j < 7 ==> m.plan.steps[36 + j] == #[trigger] steps[j],
        crate::stage::fills(steps[0], 1, num(10000), differs(modulo(ix(), num(10)), num(0))),
        crate::stage::demands(steps[1], Request::Filter { of: 0, mask: 1, into: 2 }),
        crate::stage::demands(
            steps[2],
            Request::Download { of: 2, column: 0, scalar: Scalar::U32, into: 4 },
        ),
        crate::stage::demands(steps[3], Request::Filter { of: 0, mask: 1, into: 3 }),
        crate::stage::demands(
            steps[4],
            Request::Download { of: 3, column: 0, scalar: Scalar::U32, into: 5 },
        ),
        crate::stage::looks(steps[5]),
        crate::stage::inquires(steps[6], Request::Release { from: 2 }),
        m.scene.buffer(0) == filter_reproducibility_first_table1(),
    ensures
        n.holds(),
        n.plan == m.plan,
        n.answers == m.answers,
        n.at == 36 + 7,
        n.used == m.used + 5,
        crate::stage::asks(m.plan, m.answers, 25, filter_reproducibility_part5_asks()),
{
    crate::stage::lemma_full(m);
    crate::stage::lemma_asks_none(m, 25);
    let list0 = Seq::<Ask>::empty();
    let words1 = crate::stage::column(10000, |i: int| crate::stage::flag(((i % 10) != 0)));
    let word1 = differs(modulo(ix(), num(10)), num(0));
    assert forall|i: int| 0 <= i < words1.len() implies crate::stage::meaning(
        word1,
        m.contents,
        i,
    ) as u64 == #[trigger] words1[i] by {
        reveal_with_fuel(crate::stage::meaning, 5);
    }
    let m1 = crate::stage::lemma_filled(m, steps[0], 1, num(10000), word1, words1);
    let kept1 = Thing::Kept {
        of: Box::new(filter_reproducibility_first_table1()),
        mask: words1,
        turn: 25,
    };
    let m2 = crate::stage::lemma_filter(
        m1,
        steps[1],
        0,
        1,
        2,
        filter_reproducibility_first_table1(),
        words1,
        kept1,
    );
    crate::stage::lemma_asks_more(m, 25, list0, Ask::Make(kept1));
    let list1 = list0.push(Ask::Make(kept1));
    let m3 = crate::stage::lemma_download(m2, steps[2], 2, 0, Scalar::U32, 4, kept1);
    crate::stage::lemma_asks_more(
        m,
        25,
        list1,
        Ask::Words { of: kept1, column: 0, scalar: Scalar::U32 },
    );
    let list2 = list1.push(Ask::Words { of: kept1, column: 0, scalar: Scalar::U32 });
    let kept2 = Thing::Kept {
        of: Box::new(filter_reproducibility_first_table1()),
        mask: words1,
        turn: 27,
    };
    let m4 = crate::stage::lemma_filter(
        m3,
        steps[3],
        0,
        1,
        3,
        filter_reproducibility_first_table1(),
        words1,
        kept2,
    );
    crate::stage::lemma_asks_more(m, 25, list2, Ask::Make(kept2));
    let list3 = list2.push(Ask::Make(kept2));
    let m5 = crate::stage::lemma_download(m4, steps[4], 3, 0, Scalar::U32, 5, kept2);
    crate::stage::lemma_asks_more(
        m,
        25,
        list3,
        Ask::Words { of: kept2, column: 0, scalar: Scalar::U32 },
    );
    let list4 = list3.push(Ask::Words { of: kept2, column: 0, scalar: Scalar::U32 });
    let m6 = crate::stage::lemma_look(m5, steps[5]);
    let m7 = crate::stage::lemma_release(m6, steps[6], 2);
    crate::stage::lemma_asks_more(m, 25, list4, Ask::Other(Request::Release { from: 2 }));
    let list5 = list4.push(Ask::Other(Request::Release { from: 2 }));
    assert(filter_reproducibility_part5_asks() == list5);
    m7
}

/// The steps of the part `part5` of `test_filter_reproducibility`.
proof fn lemma_filter_reproducibility_part5_steps()
    ensures
        ({
            let steps = crate::categories::c15_determinism::repeated_filter_steps(
                "90%",
                differs(modulo(ix(), num(10)), num(0)),
            );
            &&& steps.len() == 7
            &&& crate::stage::fills(steps[0], 1, num(10000), differs(modulo(ix(), num(10)), num(0)))
            &&& crate::stage::demands(steps[1], Request::Filter { of: 0, mask: 1, into: 2 })
            &&& crate::stage::demands(
                steps[2],
                Request::Download { of: 2, column: 0, scalar: Scalar::U32, into: 4 },
            )
            &&& crate::stage::demands(steps[3], Request::Filter { of: 0, mask: 1, into: 3 })
            &&& crate::stage::demands(
                steps[4],
                Request::Download { of: 3, column: 0, scalar: Scalar::U32, into: 5 },
            )
            &&& crate::stage::looks(steps[5])
            &&& crate::stage::inquires(steps[6], Request::Release { from: 2 })
        }),
{
}

/// What the device is asked in the part `end` of `test_filter_reproducibility`.
pub open spec fn filter_reproducibility_end_asks() -> Seq<Ask> {
    seq![Ask::Other(Request::Sync)]
}

/// The part `end` of `test_filter_reproducibility` asks what it should.
proof fn lemma_filter_reproducibility_end(m: Moment, steps: Seq<Step>) -> (n: Moment)
    requires
        m.holds(),
        m.at == 43,
        m.used == 30,
        43 + 1 <= m.plan.steps.len(),
        forall|j: int| 0 <= j < 1 ==> m.plan.steps[43 + j] == #[trigger] steps[j],
        crate::stage::demands(steps[0], Request::Sync),
    ensures
        n.holds(),
        n.plan == m.plan,
        n.answers == m.answers,
        n.at == 43 + 1,
        n.used == m.used + 1,
        crate::stage::asks(m.plan, m.answers, 30, filter_reproducibility_end_asks()),
{
    crate::stage::lemma_full(m);
    crate::stage::lemma_asks_none(m, 30);
    let list0 = Seq::<Ask>::empty();
    let m1 = crate::stage::lemma_sync(m, steps[0]);
    crate::stage::lemma_asks_more(m, 30, list0, Ask::Other(Request::Sync));
    let list1 = list0.push(Ask::Other(Request::Sync));
    assert(filter_reproducibility_end_asks() == list1);
    m1
}

/// The steps of the part `end` of `test_filter_reproducibility`.
proof fn lemma_filter_reproducibility_end_steps()
    ensures
        ({
            let steps = crate::categories::c15_determinism::filter_reproducibility_end_steps();
            &&& steps.len() == 1
            &&& crate::stage::demands(steps[0], Request::Sync)
        }),
{
}

/// In a run of `test_filter_reproducibility` that passes the device is asked this, in this order,
/// and nothing else: each request about what an earlier one made is about that, and about what was
/// uploaded for it.
pub proof fn law_filter_reproducibility_asks_about_what_it_made(answers: Seq<Answer>)
    requires
        crate::stage::passes(
            crate::script::plan(
                "test_filter_reproducibility",
                crate::categories::c15_determinism::filter_reproducibility_steps(),
            ),
            answers,
        ),
    ensures
        crate::stage::asks(
            crate::script::plan(
                "test_filter_reproducibility",
                crate::categories::c15_determinism::filter_reproducibility_steps(),
            ),
            answers,
            0,
            filter_reproducibility_first_asks(),
        ),
        forall|k: int|
            0 <= k < 4 ==> crate::stage::asks(
                crate::script::plan(
                    "test_filter_reproducibility",
                    crate::categories::c15_determinism::filter_reproducibility_steps(),
                ),
                answers,
                3 + 3 * k,
                #[trigger] filter_reproducibility_repeats_asks(k),
            ),
        crate::stage::asks(
            crate::script::plan(
                "test_filter_reproducibility",
                crate::categories::c15_determinism::filter_reproducibility_steps(),
            ),
            answers,
            15,
            filter_reproducibility_part3_asks(),
        ),
        crate::stage::asks(
            crate::script::plan(
                "test_filter_reproducibility",
                crate::categories::c15_determinism::filter_reproducibility_steps(),
            ),
            answers,
            20,
            filter_reproducibility_part4_asks(),
        ),
        crate::stage::asks(
            crate::script::plan(
                "test_filter_reproducibility",
                crate::categories::c15_determinism::filter_reproducibility_steps(),
            ),
            answers,
            25,
            filter_reproducibility_part5_asks(),
        ),
        crate::stage::asks(
            crate::script::plan(
                "test_filter_reproducibility",
                crate::categories::c15_determinism::filter_reproducibility_steps(),
            ),
            answers,
            30,
            filter_reproducibility_end_asks(),
        ),
        crate::stage::asked(
            crate::script::plan(
                "test_filter_reproducibility",
                crate::categories::c15_determinism::filter_reproducibility_steps(),
            ),
            answers,
            31,
        ) is None,
{
    let plan = crate::script::plan(
        "test_filter_reproducibility",
        crate::categories::c15_determinism::filter_reproducibility_steps(),
    );
    let part1 = crate::categories::c15_determinism::filter_reproducibility_first_steps();
    lemma_filter_reproducibility_first_steps();
    let round2 = |k: int| crate::categories::c15_determinism::filter_reproducibility_repeats_round(
        k as u64,
    );
    let part2 = crate::script::rounds(4, round2);
    assert forall|k: int| 0 <= k < 4 implies (#[trigger] round2(k)).len() == 4 by {
        lemma_filter_reproducibility_repeats_steps(k);
    }
    crate::stage::lemma_rounds_length(4, round2, 4);
    let part3 = crate::categories::c15_determinism::repeated_filter_steps(
        "10%",
        same_as(modulo(ix(), num(10)), num(0)),
    );
    lemma_filter_reproducibility_part3_steps();
    let part4 = crate::categories::c15_determinism::repeated_filter_steps(
        "50%",
        same_as(modulo(ix(), num(2)), num(0)),
    );
    lemma_filter_reproducibility_part4_steps();
    let part5 = crate::categories::c15_determinism::repeated_filter_steps(
        "90%",
        differs(modulo(ix(), num(10)), num(0)),
    );
    lemma_filter_reproducibility_part5_steps();
    let part6 = crate::categories::c15_determinism::filter_reproducibility_end_steps();
    lemma_filter_reproducibility_end_steps();
    let whole1 = part1;
    let whole2 = whole1 + part2;
    let whole3 = whole2 + part3;
    let whole4 = whole3 + part4;
    let whole5 = whole4 + part5;
    let whole6 = whole5 + part6;
    assert(plan.steps == whole6);
    let m0 = crate::stage::lemma_start(plan, answers);
    assert forall|j: int| 0 <= j < 6 implies plan.steps[0 + j] == #[trigger] part1[j] by {}
    let m1 = lemma_filter_reproducibility_first(m0, part1);
    assert forall|j: int| 0 <= j < 16 implies plan.steps[6 + j] == #[trigger] part2[j] by {}
    let m2 = lemma_filter_reproducibility_repeats_rounds(m1, part2, 4);
    assert forall|j: int| 0 <= j < 7 implies plan.steps[22 + j] == #[trigger] part3[j] by {}
    let m3 = lemma_filter_reproducibility_part3(m2, part3);
    assert forall|j: int| 0 <= j < 7 implies plan.steps[29 + j] == #[trigger] part4[j] by {}
    let m4 = lemma_filter_reproducibility_part4(m3, part4);
    assert forall|j: int| 0 <= j < 7 implies plan.steps[36 + j] == #[trigger] part5[j] by {}
    let m5 = lemma_filter_reproducibility_part5(m4, part5);
    assert forall|j: int| 0 <= j < 1 implies plan.steps[43 + j] == #[trigger] part6[j] by {}
    let m6 = lemma_filter_reproducibility_end(m5, part6);
    crate::stage::lemma_end(m6);
}

} // verus!
