//! What these tests ask the device in runs that pass: `test_ptx_loads_successfully`,
//! `test_compute_capability_check`, `test_ptx_module_attributes`.

use vstd::prelude::*;
use crate::expr::{entry, ix, num};
use crate::machine::Answer;
use crate::scalar::Scalar;
use crate::script::{Request, Step};
use crate::stage::{Ask, Moment, Thing};
use crate::tables::Table;

verus! {

/// What the device is asked in the part `all` of `test_ptx_loads_successfully`.
pub open spec fn ptx_loads_successfully_all_asks() -> Seq<Ask> {
    seq![Ask::Other(Request::Sync), Ask::Other(Request::Ordinal { into: 0 })]
}

/// The part `all` of `test_ptx_loads_successfully` asks what it should.
proof fn lemma_ptx_loads_successfully_all(m: Moment, steps: Seq<Step>) -> (n: Moment)
    requires
        m.holds(),
        m.at == 0,
        m.used == 0,
        0 + 3 <= m.plan.steps.len(),
        forall|j: int| 0 <= j < 3 ==> m.plan.steps[0 + j] == #[trigger] steps[j],
        crate::stage::demands(steps[0], Request::Sync),
        crate::stage::inquires(steps[1], Request::Ordinal { into: 0 }),
        crate::stage::looks(steps[2]),
    ensures
        n.holds(),
        n.plan == m.plan,
        n.answers == m.answers,
        n.at == 0 + 3,
        n.used == m.used + 2,
        crate::stage::asks(m.plan, m.answers, 0, ptx_loads_successfully_all_asks()),
{
    crate::stage::lemma_full(m);
    crate::stage::lemma_asks_none(m, 0);
    let list0 = Seq::<Ask>::empty();
    let m1 = crate::stage::lemma_sync(m, steps[0]);
    crate::stage::lemma_asks_more(m, 0, list0, Ask::Other(Request::Sync));
    let list1 = list0.push(Ask::Other(Request::Sync));
    let m2 = crate::stage::lemma_told(
        m1,
        steps[1],
        Request::Ordinal { into: 0 },
        0,
        Ask::Other(Request::Ordinal { into: 0 }),
    );
    crate::stage::lemma_asks_more(m, 0, list1, Ask::Other(Request::Ordinal { into: 0 }));
    let list2 = list1.push(Ask::Other(Request::Ordinal { into: 0 }));
    let m3 = crate::stage::lemma_look(m2, steps[2]);
    assert(ptx_loads_successfully_all_asks() == list2);
    m3
}

/// The steps of the part `all` of `test_ptx_loads_successfully`.
proof fn lemma_ptx_loads_successfully_all_steps()
    ensures
        ({
            let steps = crate::categories::c01_toolchain::ptx_loads_successfully_steps();
            &&& steps.len() == 3
            &&& crate::stage::demands(steps[0], Request::Sync)
            &&& crate::stage::inquires(steps[1], Request::Ordinal { into: 0 })
            &&& crate::stage::looks(steps[2])
        }),
{
}

/// In a run of `test_ptx_loads_successfully` that passes the device is asked this, in this order,
/// and nothing else: each request about what an earlier one made is about that, and about what was
/// uploaded for it.
pub proof fn law_ptx_loads_successfully_asks_about_what_it_made(answers: Seq<Answer>)
    requires
        crate::stage::passes(
            crate::script::plan(
                "test_ptx_loads_successfully",
                crate::categories::c01_toolchain::ptx_loads_successfully_steps(),
            ),
            answers,
        ),
    ensures
        crate::stage::asks(
            crate::script::plan(
                "test_ptx_loads_successfully",
                crate::categories::c01_toolchain::ptx_loads_successfully_steps(),
            ),
            answers,
            0,
            ptx_loads_successfully_all_asks(),
        ),
        crate::stage::asked(
            crate::script::plan(
                "test_ptx_loads_successfully",
                crate::categories::c01_toolchain::ptx_loads_successfully_steps(),
            ),
            answers,
            2,
        ) is None,
{
    let plan = crate::script::plan(
        "test_ptx_loads_successfully",
        crate::categories::c01_toolchain::ptx_loads_successfully_steps(),
    );
    let part1 = crate::categories::c01_toolchain::ptx_loads_successfully_steps();
    lemma_ptx_loads_successfully_all_steps();
    let whole1 = part1;
    assert(plan.steps == whole1);
    let m0 = crate::stage::lemma_start(plan, answers);
    assert forall|j: int| 0 <= j < 3 implies plan.steps[0 + j] == #[trigger] part1[j] by {}
    let m1 = lemma_ptx_loads_successfully_all(m0, part1);
    crate::stage::lemma_end(m1);
}

/// What the device is asked in the part `all` of `test_compute_capability_check`.
pub open spec fn compute_capability_check_all_asks() -> Seq<Ask> {
    seq![Ask::Other(Request::Capability { major: 0, minor: 1 }), Ask::Other(Request::Sync)]
}

/// The part `all` of `test_compute_capability_check` asks what it should.
proof fn lemma_compute_capability_check_all(m: Moment, steps: Seq<Step>) -> (n: Moment)
    requires
        m.holds(),
        m.at == 0,
        m.used == 0,
        0 + 3 <= m.plan.steps.len(),
        forall|j: int| 0 <= j < 3 ==> m.plan.steps[0 + j] == #[trigger] steps[j],
        crate::stage::demands(steps[0], Request::Capability { major: 0, minor: 1 }),
        crate::stage::looks(steps[1]),
        crate::stage::demands(steps[2], Request::Sync),
    ensures
        n.holds(),
        n.plan == m.plan,
        n.answers == m.answers,
        n.at == 0 + 3,
        n.used == m.used + 2,
        crate::stage::asks(m.plan, m.answers, 0, compute_capability_check_all_asks()),
{
    crate::stage::lemma_full(m);
    crate::stage::lemma_asks_none(m, 0);
    let list0 = Seq::<Ask>::empty();
    let m1 = crate::stage::lemma_number(
        m,
        steps[0],
        Ask::Other(Request::Capability { major: 0, minor: 1 }),
    );
    crate::stage::lemma_asks_more(
        m,
        0,
        list0,
        Ask::Other(Request::Capability { major: 0, minor: 1 }),
    );
    let list1 = list0.push(Ask::Other(Request::Capability { major: 0, minor: 1 }));
    let m2 = crate::stage::lemma_look(m1, steps[1]);
    let m3 = crate::stage::lemma_sync(m2, steps[2]);
    crate::stage::lemma_asks_more(m, 0, list1, Ask::Other(Request::Sync));
    let list2 = list1.push(Ask::Other(Request::Sync));
    assert(compute_capability_check_all_asks() == list2);
    m3
}

/// The steps of the part `all` of `test_compute_capability_check`.
proof fn lemma_compute_capability_check_all_steps()
    ensures
        ({
            let steps = crate::categories::c01_toolchain::compute_capability_check_steps();
            &&& steps.len() == 3
            &&& crate::stage::demands(steps[0], Request::Capability { major: 0, minor: 1 })
            &&& crate::stage::looks(steps[1])
            &&& crate::stage::demands(steps[2], Request::Sync)
        }),
{
}

/// In a run of `test_compute_capability_check` that passes the device is asked this, in this order,
/// and nothing else: each request about what an earlier one made is about that, and about what was
/// uploaded for it.
pub proof fn law_compute_capability_check_asks_about_what_it_made(answers: Seq<Answer>)
    requires
        crate::stage::passes(
            crate::script::plan(
                "test_compute_capability_check",
                crate::categories::c01_toolchain::compute_capability_check_steps(),
            ),
            answers,
        ),
    ensures
        crate::stage::asks(
            crate::script::plan(
                "test_compute_capability_check",
                crate::categories::c01_toolchain::compute_capability_check_steps(),
            ),
            answers,
            0,
            compute_capability_check_all_asks(),
        ),
        crate::stage::asked(
            crate::script::plan(
                "test_compute_capability_check",
                crate::categories::c01_toolchain::compute_capability_check_steps(),
            ),
            answers,
            2,
        ) is None,
{
    let plan = crate::script::plan(
        "test_compute_capability_check",
        crate::categories::c01_toolchain::compute_capability_check_steps(),
    );
    let part1 = crate::categories::c01_toolchain::compute_capability_check_steps();
    lemma_compute_capability_check_all_steps();
    let whole1 = part1;
    assert(plan.steps == whole1);
    let m0 = crate::stage::lemma_start(plan, answers);
    assert forall|j: int| 0 <= j < 3 implies plan.steps[0 + j] == #[trigger] part1[j] by {}
    let m1 = lemma_compute_capability_check_all(m0, part1);
    crate::stage::lemma_end(m1);
}

/// A column that is filled in the part `all` of `test_ptx_module_attributes`.
pub open spec fn ptx_module_attributes_all_words2() -> Seq<u64> {
    crate::stage::column(6, |i: int| crate::tables::words_of(Table::BitPatterns)[i] as int)
}

/// Raw memory that is allocated in the part `all` of `test_ptx_module_attributes`.
pub open spec fn ptx_module_attributes_all_raw2() -> Thing {
    Thing::Raw { scalar: Scalar::U64, count: 6, turn: 4 }
}

/// What the device is asked in piece 1 of the part `all` of `test_ptx_module_attributes`.
pub open spec fn ptx_module_attributes_all_1_asks() -> Seq<Ask> {
    let words1 = crate::stage::column(16, |i: int| 0xFFFF_FFFF_FFFF_FFFF);
    let raw1 = Thing::Raw { scalar: Scalar::U64, count: 16, turn: 0 };
    let written1 = Thing::Written { to: Box::new(raw1), words: words1, turn: 1 };
    seq![
        Ask::Make(raw1),
        Ask::Make(written1),
        Ask::Other(Request::Sync),
        Ask::Words { of: written1, column: 0, scalar: Scalar::U64 },
        Ask::Make(ptx_module_attributes_all_raw2()),
    ]
}

/// Piece 1 of the part `all` of `test_ptx_module_attributes` asks what it should.
proof fn lemma_ptx_module_attributes_all_1(m: Moment, steps: Seq<Step>) -> (n: Moment)
    requires
        m.holds(),
        m.at == 0,
        m.used == 0,
        0 + 12 <= m.plan.steps.len(),
        forall|j: int| 0 <= j < 12 ==> m.plan.steps[0 + j] == #[trigger] steps[j],
        crate::stage::fills(steps[0], 0, num(16), num(0xFFFF_FFFF_FFFF_FFFF)),
        crate::stage::demands(steps[1], Request::Alloc { scalar: Scalar::U64, count: 16, into: 0 }),
        crate::stage::demands(steps[2], Request::CopyIn { from: 0, to: 0 }),
        crate::stage::demands(steps[3], Request::Sync),
        crate::stage::demands(steps[4], Request::CopyOut { of: 0, scalar: Scalar::U64, into: 1 }),
        crate::stage::looks(steps[5]),
        crate::stage::fills(steps[6], 2, num(6), entry(Table::BitPatterns, ix())),
        crate::stage::demands(steps[7], Request::Alloc { scalar: Scalar::U64, count: 6, into: 1 }),
    ensures
        n.holds(),
        n.plan == m.plan,
        n.answers == m.answers,
        n.at == 0 + 8,
        n.used == m.used + 5,
        n.contents.columns[2] == ptx_module_attributes_all_words2(),
        n.scene.raw(1) == ptx_module_attributes_all_raw2(),
        crate::stage::asks(m.plan, m.answers, 0, ptx_module_attributes_all_1_asks()),
{
    crate::stage::lemma_full(m);
    crate::stage::lemma_asks_none(m, 0);
    let list0 = Seq::<Ask>::empty();
    let words1 = crate::stage::column(16, |i: int| 0xFFFF_FFFF_FFFF_FFFF);
    let word1 = num(0xFFFF_FFFF_FFFF_FFFF);
    assert forall|i: int| 0 <= i < words1.len() implies crate::stage::meaning(
        word1,
        m.contents,
        i,
    ) as u64 == #[trigger] words1[i] by {
        reveal_with_fuel(crate::stage::meaning, 2);
    }
    let m1 = crate::stage::lemma_filled(m, steps[0], 0, num(16), word1, words1);
    let raw1 = Thing::Raw { scalar: Scalar::U64, count: 16, turn: 0 };
    let m2 = crate::stage::lemma_make(m1, steps[1], raw1);
    crate::stage::lemma_asks_more(m, 0, list0, Ask::Make(raw1));
    let list1 = list0.push(Ask::Make(raw1));
    let written1 = Thing::Written { to: Box::new(raw1), words: words1, turn: 1 };
    let m3 = crate::stage::lemma_make(m2, steps[2], written1);
    crate::stage::lemma_asks_more(m, 0, list1, Ask::Make(written1));
    let list2 = list1.push(Ask::Make(written1));
    let m4 = crate::stage::lemma_sync(m3, steps[3]);
    crate::stage::lemma_asks_more(m, 0, list2, Ask::Other(Request::Sync));
    let list3 = list2.push(Ask::Other(Request::Sync));
    let m5 = crate::stage::lemma_words(
        m4,
        steps[4],
        Ask::Words { of: written1, column: 0, scalar: Scalar::U64 },
    );
    crate::stage::lemma_asks_more(
        m,
        0,
        list3,
        Ask::Words { of: written1, column: 0, scalar: Scalar::U64 },
    );
    let list4 = list3.push(Ask::Words { of: written1, column: 0, scalar: Scalar::U64 });
    let m6 = crate::stage::lemma_look(m5, steps[5]);
    let words2 = ptx_module_attributes_all_words2();
    crate::stage::lemma_entry_of(Table::BitPatterns);
    let word7 = entry(Table::BitPatterns, ix());
    assert forall|i: int| 0 <= i < words2.len() implies crate::stage::meaning(
        word7,
        m6.contents,
        i,
    ) as u64 == #[trigger] words2[i] by {
        reveal_with_fuel(crate::stage::meaning, 2);
    }
    let m7 = crate::stage::lemma_filled(m6, steps[6], 2, num(6), word7, words2);
    let m8 = crate::stage::lemma_make(m7, steps[7], ptx_module_attributes_all_raw2());
    crate::stage::lemma_asks_more(m, 0, list4, Ask::Make(ptx_module_attributes_all_raw2()));
    let list5 = list4.push(Ask::Make(ptx_module_attributes_all_raw2()));
    assert(ptx_module_attributes_all_1_asks() == list5);
    m8
}

/// What the device is asked in piece 2 of the part `all` of `test_ptx_module_attributes`.
pub open spec fn ptx_module_attributes_all_2_asks() -> Seq<Ask> {
    let written2 = Thing::Written {
        to: Box::new(ptx_module_attributes_all_raw2()),
        words: ptx_module_attributes_all_words2(),
        turn: 5,
    };
    seq![
        Ask::Make(written2),
        Ask::Words { of: written2, column: 0, scalar: Scalar::U64 },
        Ask::Other(Request::Sync),
    ]
}

/// Piece 2 of the part `all` of `test_ptx_module_attributes` asks what it should.
proof fn lemma_ptx_module_attributes_all_2(m: Moment, steps: Seq<Step>) -> (n: Moment)
    requires
        m.holds(),
        m.at == 0 + 8,
        m.used == 5,
        0 + 12 <= m.plan.steps.len(),
        forall|j: int| 0 <= j < 12 ==> m.plan.steps[0 + j] == #[trigger] steps[j],
        crate::stage::demands(steps[8], Request::CopyIn { from: 2, to: 1 }),
        crate::stage::demands(steps[9], Request::CopyOut { of: 1, scalar: Scalar::U64, into: 3 }),
        crate::stage::looks(steps[10]),
        crate::stage::demands(steps[11], Request::Sync),
        m.contents.columns[2] == ptx_module_attributes_all_words2(),
        m.scene.raw(1) == ptx_module_attributes_all_raw2(),
    ensures
        n.holds(),
        n.plan == m.plan,
        n.answers == m.answers,
        n.at == 0 + 12,
        n.used == m.used + 3,
        crate::stage::asks(m.plan, m.answers, 5, ptx_module_attributes_all_2_asks()),
{
    crate::stage::lemma_full(m);
    crate::stage::lemma_asks_none(m, 5);
    let list0 = Seq::<Ask>::empty();
    let written2 = Thing::Written {
        to: Box::new(ptx_module_attributes_all_raw2()),
        words: ptx_module_attributes_all_words2(),
        turn: 5,
    };
    let m1 = crate::stage::lemma_make(m, steps[8], written2);
    crate::stage::lemma_asks_more(m, 5, list0, Ask::Make(written2));
    let list1 = list0.push(Ask::Make(written2));
    let m2 = crate::stage::lemma_words(
        m1,
        steps[9],
        Ask::Words { of: written2, column: 0, scalar: Scalar::U64 },
    );
    crate::stage::lemma_asks_more(
        m,
        5,
        list1,
        Ask::Words { of: written2, column: 0, scalar: Scalar::U64 },
    );
    let list2 = list1.push(Ask::Words { of: written2, column: 0, scalar: Scalar::U64 });
    let m3 = crate::stage::lemma_look(m2, steps[10]);
    let m4 = crate::stage::lemma_sync(m3, steps[11]);
    crate::stage::lemma_asks_more(m, 5, list2, Ask::Other(Request::Sync));
    let list3 = list2.push(Ask::Other(Request::Sync));
    assert(ptx_module_attributes_all_2_asks() == list3);
    m4
}

/// The steps of the part `all` of `test_ptx_module_attributes`.
proof fn lemma_ptx_module_attributes_all_steps()
    ensures
        ({
            let steps = crate::categories::c01_toolchain::ptx_module_attributes_steps();
            &&& steps.len() == 12
            &&& crate::stage::fills(steps[0], 0, num(16), num(0xFFFF_FFFF_FFFF_FFFF))
            &&& crate::stage::demands(
                steps[1],
                Request::Alloc { scalar: Scalar::U64, count: 16, into: 0 },
            )
            &&& crate::stage::demands(steps[2], Request::CopyIn { from: 0, to: 0 })
            &&& crate::stage::demands(steps[3], Request::Sync)
            &&& crate::stage::demands(
                steps[4],
                Request::CopyOut { of: 0, scalar: Scalar::U64, into: 1 },
            )
            &&& crate::stage::looks(steps[5])
            &&& crate::stage::fills(steps[6], 2, num(6), entry(Table::BitPatterns, ix()))
            &&& crate::stage::demands(
                steps[7],
                Request::Alloc { scalar: Scalar::U64, count: 6, into: 1 },
            )
            &&& crate::stage::demands(steps[8], Request::CopyIn { from: 2, to: 1 })
            &&& crate::stage::demands(
                steps[9],
                Request::CopyOut { of: 1, scalar: Scalar::U64, into: 3 },
            )
            &&& crate::stage::looks(steps[10])
            &&& crate::stage::demands(steps[11], Request::Sync)
        }),
{
}

/// In a run of `test_ptx_module_attributes` that passes the device is asked this, in this order,
/// and nothing else: each request about what an earlier one made is about that, and about what was
/// uploaded for it.
pub proof fn law_ptx_module_attributes_asks_about_what_it_made(answers: Seq<Answer>)
    requires
        crate::stage::passes(
            crate::script::plan(
                "test_ptx_module_attributes",
                crate::categories::c01_toolchain::ptx_module_attributes_steps(),
            ),
            answers,
        ),
    ensures
        crate::stage::asks(
            crate::script::plan(
                "test_ptx_module_attributes",
                crate::categories::c01_toolchain::ptx_module_attributes_steps(),
            ),
            answers,
            0,
            ptx_module_attributes_all_1_asks(),
        ),
        crate::stage::asks(
            crate::script::plan(
                "test_ptx_module_attributes",
                crate::categories::c01_toolchain::ptx_module_attributes_steps(),
            ),
            answers,
            5,
            ptx_module_attributes_all_2_asks(),
        ),
        crate::stage::asked(
            crate::script::plan(
                "test_ptx_module_attributes",
                crate::categories::c01_toolchain::ptx_module_attributes_steps(),
            ),
            answers,
            8,
        ) is None,
{
    let plan = crate::script::plan(
        "test_ptx_module_attributes",
        crate::categories::c01_toolchain::ptx_module_attributes_steps(),
    );
    let part1 = crate::categories::c01_toolchain::ptx_module_attributes_steps();
    lemma_ptx_module_attributes_all_steps();
    let whole1 = part1;
    assert(plan.steps == whole1);
    let m0 = crate::stage::lemma_start(plan, answers);
    assert forall|j: int| 0 <= j < 12 implies plan.steps[0 + j] == #[trigger] part1[j] by {}
    let m1 = lemma_ptx_module_attributes_all_1(m0, part1);
    let m2 = lemma_ptx_module_attributes_all_2(m1, part1);
    crate::stage::lemma_end(m2);
}

} // verus!
