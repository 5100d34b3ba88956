//! Address spaces: values of every type pass through device memory unharmed.

use vstd::prelude::*;
use crate::expr::{
    alike, at, before, count_in, differs, entry, here, ix, len, lt, minus, modulo, not, num, plus,
    ranked, reg, same_as, times,
};
use crate::harness::{CategoryRun, Outcome};
use crate::message::{double, list, note0, note2, note3, remark1, remark2, remark3, signed, val};
use crate::scalar::Scalar;
use crate::script::{
    check, COUNT, create, download, fault1, fetch, fill, filter, Layout, match_rows, Plan, scan,
    Script, select, sort, sort_column, Step, sync, upload,
};
use crate::tables::Table;

verus! {

/// The steps of [`test_global_u32_correctness`].
pub open spec fn global_u32_correctness_steps() -> Seq<Step> {
    seq![
        fill(0, num(16), entry(Table::GlobalU32, ix())),
        upload(0, 0, note0("Failed to create U32 buffer: {}")),
        sort(0, 1, note0("Sort failed: {}")),
        match_rows(1, num(16), note2("Sort returned {} rows, expected {}", reg(COUNT), num(16))),
        fetch(1, 1, note0("Failed to download sorted column: {}")),
        scan(
            num(1),
            len(1),
            1,
            fault1(
                lt(here(1), before(1)),
                note3("Sort order incorrect at index {}: {} > {}", ix(), before(1), here(1)),
            ),
        ),
        sort_column(2, 0, Scalar::U32),
        check(
            not(alike(1, 2)),
            remark2(
                "Values not preserved: expected {}, got {}",
                list(2, Scalar::U32),
                list(1, Scalar::U32),
            ),
        ),
        sync(note0("Sync failed: {}")),
    ]
}

/// 32-bit values of every size are sorted and none is lost.
pub fn test_global_u32_correctness() -> (script: Script)
    ensures
        script@ == crate::script::plan(
            "test_global_u32_correctness",
            global_u32_correctness_steps(),
        ),
{
    let steps: Vec<Step> = vec![
        fill(0, num(16), entry(Table::GlobalU32, ix())),
        upload(0, 0, note0("Failed to create U32 buffer: {}")),
        sort(0, 1, note0("Sort failed: {}")),
        match_rows(1, num(16), note2("Sort returned {} rows, expected {}", reg(COUNT), num(16))),
        fetch(1, 1, note0("Failed to download sorted column: {}")),
        scan(
            num(1),
            len(1),
            1,
            fault1(
                lt(here(1), before(1)),
                note3("Sort order incorrect at index {}: {} > {}", ix(), before(1), here(1)),
            ),
        ),
        sort_column(2, 0, Scalar::U32),
        check(
            not(alike(1, 2)),
            remark2(
                "Values not preserved: expected {}, got {}",
                list(2, Scalar::U32),
                list(1, Scalar::U32),
            ),
        ),
        sync(note0("Sync failed: {}")),
    ];
    Script::new("test_global_u32_correctness", steps)
}

/// The steps of [`test_global_u64_correctness`].
pub open spec fn global_u64_correctness_steps() -> Seq<Step> {
    seq![
        fill(0, num(13), entry(Table::GlobalU64, ix())),
        create(0, Layout::Val, Scalar::U64, 0, note0("Failed to create U64 buffer: {}")),
        sort(0, 1, note0("Sort failed: {}")),
        match_rows(1, num(13), note2("Sort returned {} rows, expected {}", reg(COUNT), num(13))),
        download(1, 0, Scalar::U64, 1, note0("Failed to download sorted column: {}")),
        scan(
            num(1),
            len(1),
            1,
            fault1(
                lt(here(1), before(1)),
                note3("Sort order incorrect at index {}: {} > {}", ix(), before(1), here(1)),
            ),
        ),
        sort_column(2, 0, Scalar::U64),
        check(
            not(alike(1, 2)),
            remark2(
                "Values not preserved: expected {}, got {}",
                list(2, Scalar::U64),
                list(1, Scalar::U64),
            ),
        ),
        check(
            same_as(count_in(1, num(0xFFFF_FFFF_FFFF_FFFF)), num(0)),
            note0("U64::MAX not found in sorted output"),
        ),
        sync(note0("Sync failed: {}")),
    ]
}

/// 64-bit values of every size are sorted and none is lost.
pub fn test_global_u64_correctness() -> (script: Script)
    ensures
        script@ == crate::script::plan(
            "test_global_u64_correctness",
            global_u64_correctness_steps(),
        ),
{
    let steps: Vec<Step> = vec![
        fill(0, num(13), entry(Table::GlobalU64, ix())),
        create(0, Layout::Val, Scalar::U64, 0, note0("Failed to create U64 buffer: {}")),
        sort(0, 1, note0("Sort failed: {}")),
        match_rows(1, num(13), note2("Sort returned {} rows, expected {}", reg(COUNT), num(13))),
        download(1, 0, Scalar::U64, 1, note0("Failed to download sorted column: {}")),
        scan(
            num(1),
            len(1),
            1,
            fault1(
                lt(here(1), before(1)),
                note3("Sort order incorrect at index {}: {} > {}", ix(), before(1), here(1)),
            ),
        ),
        sort_column(2, 0, Scalar::U64),
        check(
            not(alike(1, 2)),
            remark2(
                "Values not preserved: expected {}, got {}",
                list(2, Scalar::U64),
                list(1, Scalar::U64),
            ),
        ),
        check(
            same_as(count_in(1, num(0xFFFF_FFFF_FFFF_FFFF)), num(0)),
            note0("U64::MAX not found in sorted output"),
        ),
        sync(note0("Sync failed: {}")),
    ];
    Script::new("test_global_u64_correctness", steps)
}

/// The steps of [`test_global_i64_correctness`].
pub open spec fn global_i64_correctness_steps() -> Seq<Step> {
    seq![
        fill(0, num(15), entry(Table::GlobalI64, ix())),
        create(0, Layout::Val, Scalar::I64, 0, note0("Failed to create I64 buffer: {}")),
        sort(0, 1, note0("Sort failed: {}")),
        match_rows(1, num(15), note2("Sort returned {} rows, expected {}", reg(COUNT), num(15))),
        download(1, 0, Scalar::I64, 1, note0("Failed to download sorted column: {}")),
        scan(
            num(1),
            len(1),
            1,
            fault1(
                lt(ranked(Scalar::I64, here(1)), ranked(Scalar::I64, before(1))),
                remark3(
                    "Sort order incorrect at index {}: {} > {}",
                    val(ix()),
                    signed(before(1)),
                    signed(here(1)),
                ),
            ),
        ),
        sort_column(2, 0, Scalar::I64),
        check(
            not(alike(1, 2)),
            remark2(
                "Values not preserved: expected {}, got {}",
                list(2, Scalar::I64),
                list(1, Scalar::I64),
            ),
        ),
        check(
            differs(at(1, num(0)), num(0x8000_0000_0000_0000)),
            remark2(
                "First element should be i64::MIN ({}), got {}",
                signed(num(0x8000_0000_0000_0000)),
                signed(at(1, num(0))),
            ),
        ),
        check(
            differs(at(1, minus(len(1), num(1))), num(0x7FFF_FFFF_FFFF_FFFF)),
            remark2(
                "Last element should be i64::MAX ({}), got {}",
                signed(num(0x7FFF_FFFF_FFFF_FFFF)),
                signed(at(1, minus(len(1), num(1)))),
            ),
        ),
        sync(note0("Sync failed: {}")),
    ]
}

/// Signed values are sorted by value, from the lowest to the highest.
pub fn test_global_i64_correctness() -> (script: Script)
    ensures
        script@ == crate::script::plan(
            "test_global_i64_correctness",
            global_i64_correctness_steps(),
        ),
{
    let steps: Vec<Step> = vec![
        fill(0, num(15), entry(Table::GlobalI64, ix())),
        create(0, Layout::Val, Scalar::I64, 0, note0("Failed to create I64 buffer: {}")),
        sort(0, 1, note0("Sort failed: {}")),
        match_rows(1, num(15), note2("Sort returned {} rows, expected {}", reg(COUNT), num(15))),
        download(1, 0, Scalar::I64, 1, note0("Failed to download sorted column: {}")),
        scan(
            num(1),
            len(1),
            1,
            fault1(
                lt(ranked(Scalar::I64, here(1)), ranked(Scalar::I64, before(1))),
                remark3(
                    "Sort order incorrect at index {}: {} > {}",
                    val(ix()),
                    signed(before(1)),
                    signed(here(1)),
                ),
            ),
        ),
        sort_column(2, 0, Scalar::I64),
        check(
            not(alike(1, 2)),
            remark2(
                "Values not preserved: expected {}, got {}",
                list(2, Scalar::I64),
                list(1, Scalar::I64),
            ),
        ),
        check(
            differs(at(1, num(0)), num(0x8000_0000_0000_0000)),
            remark2(
                "First element should be i64::MIN ({}), got {}",
                signed(num(0x8000_0000_0000_0000)),
                signed(at(1, num(0))),
            ),
        ),
        check(
            differs(at(1, minus(len(1), num(1))), num(0x7FFF_FFFF_FFFF_FFFF)),
            remark2(
                "Last element should be i64::MAX ({}), got {}",
                signed(num(0x7FFF_FFFF_FFFF_FFFF)),
                signed(at(1, minus(len(1), num(1)))),
            ),
        ),
        sync(note0("Sync failed: {}")),
    ];
    Script::new("test_global_i64_correctness", steps)
}

/// The steps of [`test_global_f64_correctness`].
pub open spec fn global_f64_correctness_steps() -> Seq<Step> {
    seq![
        fill(0, num(21), entry(Table::GlobalF64, ix())),
        create(0, Layout::Val, Scalar::F64, 0, note0("Failed to create F64 buffer: {}")),
        sort(0, 1, note0("Sort failed: {}")),
        match_rows(1, num(21), note2("Sort returned {} rows, expected {}", reg(COUNT), num(21))),
        download(1, 0, Scalar::F64, 1, note0("Failed to download sorted column: {}")),
        scan(
            num(1),
            len(1),
            1,
            fault1(
                lt(ranked(Scalar::F64, here(1)), ranked(Scalar::F64, before(1))),
                remark3(
                    "Sort order incorrect at index {}: {} > {}",
                    val(ix()),
                    double(before(1)),
                    double(here(1)),
                ),
            ),
        ),
        check(
            differs(at(1, num(0)), num(0xFFF0_0000_0000_0000)),
            remark1("First element should be NEG_INFINITY, got {}", double(at(1, num(0)))),
        ),
        check(
            differs(at(1, minus(len(1), num(1))), num(0x7FF0_0000_0000_0000)),
            remark1(
                "Last element should be INFINITY, got {}",
                double(at(1, minus(len(1), num(1)))),
            ),
        ),
        sync(note0("Sync failed: {}")),
    ]
}

/// Doubles are sorted by their total order, from one infinity to the other.
pub fn test_global_f64_correctness() -> (script: Script)
    ensures
        script@ == crate::script::plan(
            "test_global_f64_correctness",
            global_f64_correctness_steps(),
        ),
{
    let steps: Vec<Step> = vec![
        fill(0, num(21), entry(Table::GlobalF64, ix())),
        create(0, Layout::Val, Scalar::F64, 0, note0("Failed to create F64 buffer: {}")),
        sort(0, 1, note0("Sort failed: {}")),
        match_rows(1, num(21), note2("Sort returned {} rows, expected {}", reg(COUNT), num(21))),
        download(1, 0, Scalar::F64, 1, note0("Failed to download sorted column: {}")),
        scan(
            num(1),
            len(1),
            1,
            fault1(
                lt(ranked(Scalar::F64, here(1)), ranked(Scalar::F64, before(1))),
                remark3(
                    "Sort order incorrect at index {}: {} > {}",
                    val(ix()),
                    double(before(1)),
                    double(here(1)),
                ),
            ),
        ),
        check(
            differs(at(1, num(0)), num(0xFFF0_0000_0000_0000)),
            remark1("First element should be NEG_INFINITY, got {}", double(at(1, num(0)))),
        ),
        check(
            differs(at(1, minus(len(1), num(1))), num(0x7FF0_0000_0000_0000)),
            remark1(
                "Last element should be INFINITY, got {}",
                double(at(1, minus(len(1), num(1)))),
            ),
        ),
        sync(note0("Sync failed: {}")),
    ];
    Script::new("test_global_f64_correctness", steps)
}

/// The steps of [`test_multi_buffer_isolation`].
pub open spec fn multi_buffer_isolation_steps() -> Seq<Step> {
    seq![
        fill(0, num(1000), times(ix(), num(3))),
        fill(1, num(1000), plus(times(ix(), num(5)), num(1))),
        fill(2, num(1000), plus(times(ix(), num(7)), num(2))),
        upload(0, 0, note0("Failed to create buffer A: {}")),
        upload(1, 1, note0("Failed to create buffer B: {}")),
        upload(2, 2, note0("Failed to create buffer C: {}")),
        sort(1, 3, note0("Sort of buffer B failed: {}")),
        fetch(0, 3, note0("Failed to download buffer A: {}")),
        check(not(alike(3, 0)), note0("Buffer A was corrupted after operating on buffer B")),
        fetch(2, 3, note0("Failed to download buffer C: {}")),
        check(not(alike(3, 2)), note0("Buffer C was corrupted after operating on buffer B")),
        fetch(3, 3, note0("Failed to download sorted buffer B: {}")),
        sort_column(4, 1, Scalar::U32),
        check(not(alike(3, 4)), note0("Sorted buffer B has incorrect values")),
        fill(5, len(0), same_as(modulo(ix(), num(2)), num(0))),
        filter(0, 5, 4, note0("Filter of buffer A failed: {}")),
        fetch(2, 3, note0("Failed to download buffer C again: {}")),
        check(not(alike(3, 2)), note0("Buffer C was corrupted after filtering buffer A")),
        fetch(4, 3, note0("Failed to download filtered buffer A: {}")),
        select(6, len(0), same_as(modulo(ix(), num(2)), num(0)), here(0)),
        check(not(alike(3, 6)), note0("Filtered buffer A has incorrect values")),
        sync(note0("Sync failed: {}")),
    ]
}

/// Operations on one buffer leave the others as they were.
pub fn test_multi_buffer_isolation() -> (script: Script)
    ensures
        script@ == crate::script::plan(
            "test_multi_buffer_isolation",
            multi_buffer_isolation_steps(),
        ),
{
    let steps: Vec<Step> = vec![
        fill(0, num(1000), times(ix(), num(3))),
        fill(1, num(1000), plus(times(ix(), num(5)), num(1))),
        fill(2, num(1000), plus(times(ix(), num(7)), num(2))),
        upload(0, 0, note0("Failed to create buffer A: {}")),
        upload(1, 1, note0("Failed to create buffer B: {}")),
        upload(2, 2, note0("Failed to create buffer C: {}")),
        sort(1, 3, note0("Sort of buffer B failed: {}")),
        fetch(0, 3, note0("Failed to download buffer A: {}")),
        check(not(alike(3, 0)), note0("Buffer A was corrupted after operating on buffer B")),
        fetch(2, 3, note0("Failed to download buffer C: {}")),
        check(not(alike(3, 2)), note0("Buffer C was corrupted after operating on buffer B")),
        fetch(3, 3, note0("Failed to download sorted buffer B: {}")),
        sort_column(4, 1, Scalar::U32),
        check(not(alike(3, 4)), note0("Sorted buffer B has incorrect values")),
        fill(5, len(0), same_as(modulo(ix(), num(2)), num(0))),
        filter(0, 5, 4, note0("Filter of buffer A failed: {}")),
        fetch(2, 3, note0("Failed to download buffer C again: {}")),
        check(not(alike(3, 2)), note0("Buffer C was corrupted after filtering buffer A")),
        fetch(4, 3, note0("Failed to download filtered buffer A: {}")),
        select(6, len(0), same_as(modulo(ix(), num(2)), num(0)), here(0)),
        check(not(alike(3, 6)), note0("Filtered buffer A has incorrect values")),
        sync(note0("Sync failed: {}")),
    ];
    Script::new("test_multi_buffer_isolation", steps)
}

/// The tests of the category.
pub open spec fn tests() -> Seq<Plan> {
    seq![
        crate::script::plan("test_global_u32_correctness", global_u32_correctness_steps()),
        crate::script::plan("test_global_u64_correctness", global_u64_correctness_steps()),
        crate::script::plan("test_global_i64_correctness", global_i64_correctness_steps()),
        crate::script::plan("test_global_f64_correctness", global_f64_correctness_steps()),
        crate::script::plan("test_multi_buffer_isolation", multi_buffer_isolation_steps()),
    ]
}

/// Lists the tests of the category, in the order in which they run.
pub fn run_all() -> (category: CategoryRun)
    ensures
        category.title() == "c04_address_space",
        category.waiting() == tests(),
        category.test() is None,
        category.run() is None,
        category.done() == Seq::<Outcome>::empty(),
{
    let scripts: Vec<Script> = vec![
        test_global_u32_correctness(),
        test_global_u64_correctness(),
        test_global_i64_correctness(),
        test_global_f64_correctness(),
        test_multi_buffer_isolation(),
    ];
    let category = CategoryRun::new("c04_address_space", scripts);
    assert(category.waiting() =~= tests());
    category
}

} // verus!
