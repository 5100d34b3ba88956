//! What these tests ask the device in runs that pass: `max_practical_size`.

use vstd::prelude::*;
use crate::expr::{ix, modulo, num};
use crate::machine::Answer;
use crate::scalar::Scalar;
use crate::script::{Layout, Request, Step};
use crate::stage::{Ask, Moment, Thing};

verus! {

/// What the device is asked in the part `start` of `max_practical_size`.
pub open spec fn max_practical_size_start_asks() -> Seq<Ask> {
    let words1 = crate::stage::column(10000000, |i: int| i % 1000);
    let table1 = Thing::Table {
        layout: Layout::Val,
        scalar: Scalar::U32,
        columns: seq![words1],
        turn: 0,
    };
    let sorted1 = Thing::Sorted { of: Box::new(table1), keys: 1, turn: 1 };
    seq![
        Ask::Make(table1),
        Ask::Make(sorted1),
        Ask::Rows(sorted1),
        Ask::Words { of: sorted1, column: 0, scalar: Scalar::U32 },
    ]
}

/// The part `start` of `max_practical_size` asks what it should.
proof fn lemma_max_practical_size_start(m: Moment, steps: Seq<Step>) -> (n: Moment)
    requires
        m.holds(),
        m.at == 0,
        m.used == 0,
        0 + 7 <= m.plan.steps.len(),
        forall|j: int| 0 <= j < 7 ==> m.plan.steps[0 + j] == #[trigger] steps[j],
        crate::stage::fills(steps[0], 0, num(10000000), modulo(ix(), num(1000))),
        crate::stage::demands(
            steps[1],
            Request::Create { into: 0, layout: Layout::Val, scalar: Scalar::U32, from: 0 },
        ),
        crate::stage::demands(steps[2], Request::Sort { of: 0, keys: 1, into: 1 }),
        crate::stage::counts(steps[3], 1),
        crate::stage::demands(
            steps[4],
            Request::Download { of: 1, column: 0, scalar: Scalar::U32, into: 1 },
        ),
        crate::stage::looks(steps[5]),
        crate::stage::looks(steps[6]),
    ensures
        n.holds(),
        n.plan == m.plan,
        n.answers == m.answers,
        n.at == 0 + 7,
        n.used == m.used + 4,
        crate::stage::asks(m.plan, m.answers, 0, max_practical_size_start_asks()),
{
    crate::stage::lemma_full(m);
    crate::stage::lemma_asks_none(m, 0);
    let list0 = Seq::<Ask>::empty();
    let words1 = crate::stage::column(10000000, |i: int| i % 1000);
    let word1 = modulo(ix(), num(1000));
    assert forall|i: int| 0 <= i < words1.len() implies crate::stage::meaning(
        word1,
        m.contents,
        i,
    ) as u64 == #[trigger] words1[i] by {
        reveal_with_fuel(crate::stage::meaning, 3);
    }
    let m1 = crate::stage::lemma_filled(m, steps[0], 0, num(10000000), word1, words1);
    let table1 = Thing::Table {
        layout: Layout::Val,
        scalar: Scalar::U32,
        columns: seq![words1],
        turn: 0,
    };
    let m2 = crate::stage::lemma_create(m1, steps[1], 0, Layout::Val, Scalar::U32, 0, table1);
    crate::stage::lemma_asks_more(m, 0, list0, Ask::Make(table1));
    let list1 = list0.push(Ask::Make(table1));
    let sorted1 = Thing::Sorted { of: Box::new(table1), keys: 1, turn: 1 };
    let m3 = crate::stage::lemma_sort(m2, steps[2], 0, 1, 1, table1, sorted1);
    crate::stage::lemma_asks_more(m, 0, list1, Ask::Make(sorted1));
    let list2 = list1.push(Ask::Make(sorted1));
    let m4 = crate::stage::lemma_count(m3, steps[3], 1, sorted1);
    crate::stage::lemma_asks_more(m, 0, list2, Ask::Rows(sorted1));
    let list3 = list2.push(Ask::Rows(sorted1));
    let m5 = crate::stage::lemma_download(m4, steps[4], 1, 0, Scalar::U32, 1, sorted1);
    crate::stage::lemma_asks_more(
        m,
        0,
        list3,
        Ask::Words { of: sorted1, column: 0, scalar: Scalar::U32 },
    );
    let list4 = list3.push(Ask::Words { of: sorted1, column: 0, scalar: Scalar::U32 });
    let m6 = crate::stage::lemma_look(m5, steps[5]);
    let m7 = crate::stage::lemma_look(m6, steps[6]);
    assert(max_practical_size_start_asks() == list4);
    m7
}

/// The steps of the part `start` of `max_practical_size`.
proof fn lemma_max_practical_size_start_steps()
    ensures
        ({
            let steps = crate::categories::c02_launch_config::max_practical_size_start_steps();
            &&& steps.len() == 7
            &&& crate::stage::fills(steps[0], 0, num(10000000), modulo(ix(), num(1000)))
            &&& crate::stage::demands(
                steps[1],
                Request::Create { into: 0, layout: Layout::Val, scalar: Scalar::U32, from: 0 },
            )
            &&& crate::stage::demands(steps[2], Request::Sort { of: 0, keys: 1, into: 1 })
            &&& crate::stage::counts(steps[3], 1)
            &&& crate::stage::demands(
                steps[4],
                Request::Download { of: 1, column: 0, scalar: Scalar::U32, into: 1 },
            )
            &&& crate::stage::looks(steps[5])
            &&& crate::stage::looks(steps[6])
        }),
{
}

/// Round `k` of the part `samples` of `max_practical_size` asks what it should.
proof fn lemma_max_practical_size_samples(m: Moment, steps: Seq<Step>, k: int) -> (n: Moment)
    requires
        0 <= k < 6,
        m.holds(),
        m.at == 7 + 1 * k,
        m.used == 4 + 0 * k,
        7 + 1 * k + 1 <= m.plan.steps.len(),
        forall|j: int| 0 <= j < 1 ==> m.plan.steps[7 + 1 * k + j] == #[trigger] steps[j],
        crate::stage::looks(steps[0]),
    ensures
        n.holds(),
        n.plan == m.plan,
        n.answers == m.answers,
        n.at == 7 + 1 * k + 1,
        n.used == m.used + 0,
{
    crate::stage::lemma_full(m);
    let m1 = crate::stage::lemma_look(m, steps[0]);
    m1
}

/// The steps of the part `samples` of `max_practical_size`.
proof fn lemma_max_practical_size_samples_steps(k: int)
    ensures
        ({
            let steps = crate::categories::c02_launch_config::max_practical_size_samples_round(
                k as u64,
            );
            &&& steps.len() == 1
            &&& crate::stage::looks(steps[0])
        }),
{
}

/// The first `k` rounds of the part `samples` of `max_practical_size` ask what they should.
proof fn lemma_max_practical_size_samples_rounds(m: Moment, part: Seq<Step>, k: int) -> (n: Moment)
    requires
        0 <= k <= 6,
        m.holds(),
        m.at == 7,
        m.used == 4 + 0 * 0,
        m.at + 6 <= m.plan.steps.len(),
        part == crate::script::rounds(
            6,
            |k: int| crate::categories::c02_launch_config::max_practical_size_samples_round(
                k as u64,
            ),
        ),
        forall|j: int| 0 <= j < 6 ==> m.plan.steps[7 + j] == #[trigger] part[j],
    ensures
        n.holds(),
        n.plan == m.plan,
        n.answers == m.answers,
        n.at == 7 + 1 * k,
        n.used == 4 + 0 * k,
    decreases k,
{
    if k == 0 {
        m
    } else {
        let round = |k: int| crate::categories::c02_launch_config::max_practical_size_samples_round(
            k as u64,
        );
        let before = lemma_max_practical_size_samples_rounds(m, part, k - 1);
        assert forall|j: int| 0 <= j < 1 implies m.plan.steps[before.at + j] == #[trigger] crate::categories::c02_launch_config::max_practical_size_samples_round(
            (k - 1) as u64,
        )[j] by {
            assert forall|k: int| 0 <= k < 6 implies (#[trigger] round(k)).len() == 1 by {
                lemma_max_practical_size_samples_steps(k);
            }
            crate::stage::lemma_round_place(6, round, 1, k - 1, j);
            assert(part[(k - 1) * 1 + j] == round(k - 1)[j]);
        }
        lemma_max_practical_size_samples_steps(k - 1);
        lemma_max_practical_size_samples(
            before,
            crate::categories::c02_launch_config::max_practical_size_samples_round((k - 1) as u64),
            k - 1,
        )
    }
}

/// What the device is asked in the part `end` of `max_practical_size`.
pub open spec fn max_practical_size_end_asks() -> Seq<Ask> {
    seq![Ask::Other(Request::Sync)]
}

/// The part `end` of `max_practical_size` asks what it should.
proof fn lemma_max_practical_size_end(m: Moment, steps: Seq<Step>) -> (n: Moment)
    requires
        m.holds(),
        m.at == 13,
        m.used == 4,
        13 + 2 <= m.plan.steps.len(),
        forall|j: int| 0 <= j < 2 ==> m.plan.steps[13 + j] == #[trigger] steps[j],
        crate::stage::looks(steps[0]),
        crate::stage::demands(steps[1], Request::Sync),
    ensures
        n.holds(),
        n.plan == m.plan,
        n.answers == m.answers,
        n.at == 13 + 2,
        n.used == m.used + 1,
        crate::stage::asks(m.plan, m.answers, 4, max_practical_size_end_asks()),
{
    crate::stage::lemma_full(m);
    crate::stage::lemma_asks_none(m, 4);
    let list0 = Seq::<Ask>::empty();
    let m1 = crate::stage::lemma_look(m, steps[0]);
    let m2 = crate::stage::lemma_sync(m1, steps[1]);
    crate::stage::lemma_asks_more(m, 4, list0, Ask::Other(Request::Sync));
    let list1 = list0.push(Ask::Other(Request::Sync));
    assert(max_practical_size_end_asks() == list1);
    m2
}

/// The steps of the part `end` of `max_practical_size`.
proof fn lemma_max_practical_size_end_steps()
    ensures
        ({
            let steps = crate::categories::c02_launch_config::max_practical_size_end_steps();
            &&& steps.len() == 2
            &&& crate::stage::looks(steps[0])
            &&& crate::stage::demands(steps[1], Request::Sync)
        }),
{
}

/// In a run of `max_practical_size` that passes the device is asked this, in this order, and
/// nothing else: each request about what an earlier one made is about that, and about what was
/// uploaded for it.
pub proof fn law_max_practical_size_asks_about_what_it_made(answers: Seq<Answer>)
    requires
        crate::stage::passes(
            crate::script::plan(
                "max_practical_size",
                crate::categories::c02_launch_config::max_practical_size_steps(),
            ),
            answers,
        ),
    ensures
        crate::stage::asks(
            crate::script::plan(
                "max_practical_size",
                crate::categories::c02_launch_config::max_practical_size_steps(),
            ),
            answers,
            0,
            max_practical_size_start_asks(),
        ),
        crate::stage::asks(
            crate::script::plan(
                "max_practical_size",
                crate::categories::c02_launch_config::max_practical_size_steps(),
            ),
            answers,
            4,
            max_practical_size_end_asks(),
        ),
        crate::stage::asked(
            crate::script::plan(
                "max_practical_size",
                crate::categories::c02_launch_config::max_practical_size_steps(),
            ),
            answers,
            5,
        ) is None,
{
    let plan = crate::script::plan(
        "max_practical_size",
        crate::categories::c02_launch_config::max_practical_size_steps(),
    );
    let part1 = crate::categories::c02_launch_config::max_practical_size_start_steps();
    lemma_max_practical_size_start_steps();
    let round2 = |k: int| crate::categories::c02_launch_config::max_practical_size_samples_round(
        k as u64,
    );
    let part2 = crate::script::rounds(6, round2);
    assert forall|k: int| 0 <= k < 6 implies (#[trigger] round2(k)).len() == 1 by {
        lemma_max_practical_size_samples_steps(k);
    }
    crate::stage::lemma_rounds_length(6, round2, 1);
    let part3 = crate::categories::c02_launch_config::max_practical_size_end_steps();
    lemma_max_practical_size_end_steps();
    let whole1 = part1;
    let whole2 = whole1 + part2;
    let whole3 = whole2 + part3;
    assert(plan.steps == whole3);
    let m0 = crate::stage::lemma_start(plan, answers);
    assert forall|j: int| 0 <= j < 7 implies plan.steps[0 + j] == #[trigger] part1[j] by {}
    let m1 = lemma_max_practical_size_start(m0, part1);
    assert forall|j: int| 0 <= j < 6 implies plan.steps[7 + j] == #[trigger] part2[j] by {}
    let m2 = lemma_max_practical_size_samples_rounds(m1, part2, 6);
    assert forall|j: int| 0 <= j < 2 implies plan.steps[13 + j] == #[trigger] part3[j] by {}
    let m3 = lemma_max_practical_size_end(m2, part3);
    crate::stage::lemma_end(m3);
}

} // verus!
