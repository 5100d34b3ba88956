//! Global memory: large, aligned, coalesced and repeated accesses.

use vstd::prelude::*;
use crate::expr::{
    alike, at, differs, here, ix, len, lt, minus, modulo, not, num, plus, reg, same_as, times,
};
use crate::harness::{CategoryRun, Outcome};
use crate::message::{note0, note1, note2, note3};
use crate::scalar::Scalar;
use crate::script::{
    check, download, fault1, fetch, fill, filter, Layout, Plan, release, rows_known, scan, Script,
    select, sort, sort_column, Step, sync, upload, upload_table,
};

verus! {

/// Sizes that are aligned to warps.
pub const ALIGNED_SIZES: [u64; 8] = [32, 64, 128, 256, 512, 1024, 2048, 4096];

/// The steps of [`test_large_allocation`].
pub open spec fn large_allocation_steps() -> Seq<Step> {
    seq![
        fill(0, num(10000000), ix()),
        upload(0, 0, note0("Failed to create 10M element buffer: {}")),
        rows_known(0, 0),
        check(
            differs(reg(0), num(10000000)),
            note2("Buffer has {} rows, expected {}", reg(0), num(10000000)),
        ),
        fill(1, num(10000000), same_as(modulo(ix(), num(1000)), num(0))),
        filter(0, 1, 1, note0("Filter of large buffer failed: {}")),
        rows_known(1, 0),
        check(
            differs(reg(0), num(10000)),
            note2("Filter returned {} rows, expected {}", reg(0), num(10000)),
        ),
        fetch(1, 2, note0("Failed to download filtered column: {}")),
        check(
            differs(at(2, num(0)), times(num(0), num(1000))),
            note3(
                "filtered[{}] = {}, expected {}",
                num(0),
                at(2, num(0)),
                times(num(0), num(1000)),
            ),
        ),
        check(
            differs(at(2, num(5000)), times(num(5000), num(1000))),
            note3(
                "filtered[{}] = {}, expected {}",
                num(5000),
                at(2, num(5000)),
                times(num(5000), num(1000)),
            ),
        ),
        check(
            differs(at(2, num(9999)), times(num(9999), num(1000))),
            note3(
                "filtered[{}] = {}, expected {}",
                num(9999),
                at(2, num(9999)),
                times(num(9999), num(1000)),
            ),
        ),
        sync(note0("Sync failed: {}")),
    ]
}

/// A filter over ten million rows keeps every thousandth.
pub fn test_large_allocation() -> (script: Script)
    ensures
        script@ == crate::script::plan("test_large_allocation", large_allocation_steps()),
{
    let steps: Vec<Step> = vec![
        fill(0, num(10000000), ix()),
        upload(0, 0, note0("Failed to create 10M element buffer: {}")),
        rows_known(0, 0),
        check(
            differs(reg(0), num(10000000)),
            note2("Buffer has {} rows, expected {}", reg(0), num(10000000)),
        ),
        fill(1, num(10000000), same_as(modulo(ix(), num(1000)), num(0))),
        filter(0, 1, 1, note0("Filter of large buffer failed: {}")),
        rows_known(1, 0),
        check(
            differs(reg(0), num(10000)),
            note2("Filter returned {} rows, expected {}", reg(0), num(10000)),
        ),
        fetch(1, 2, note0("Failed to download filtered column: {}")),
        check(
            differs(at(2, num(0)), times(num(0), num(1000))),
            note3(
                "filtered[{}] = {}, expected {}",
                num(0),
                at(2, num(0)),
                times(num(0), num(1000)),
            ),
        ),
        check(
            differs(at(2, num(5000)), times(num(5000), num(1000))),
            note3(
                "filtered[{}] = {}, expected {}",
                num(5000),
                at(2, num(5000)),
                times(num(5000), num(1000)),
            ),
        ),
        check(
            differs(at(2, num(9999)), times(num(9999), num(1000))),
            note3(
                "filtered[{}] = {}, expected {}",
                num(9999),
                at(2, num(9999)),
                times(num(9999), num(1000)),
            ),
        ),
        sync(note0("Sync failed: {}")),
    ];
    Script::new("test_large_allocation", steps)
}

/// One round of the sizes of [`test_aligned_access_patterns`].
pub open spec fn aligned_access_patterns_sizes_round(i: u64) -> Seq<Step> {
    let n = ALIGNED_SIZES@[i as int];
    seq![
        fill(0, num(n), ix()),
        upload(0, 0, note1("Failed to create buffer of size {}: {}", num(n))),
        sort(0, 1, note1("Sort failed for size {}: {}", num(n))),
        fetch(1, 1, note1("Failed to download for size {}: {}", num(n))),
        check(not(alike(1, 0)), note1("Size {}: data corrupted after sort", num(n))),
        release(0),
    ]
}

/// Writes one round of the sizes of [`test_aligned_access_patterns`].
fn aligned_access_patterns_sizes(i: u64) -> (steps: Vec<Step>)
    requires
        i < 8,
    ensures
        steps@ == aligned_access_patterns_sizes_round(i),
{
    let n: u64 = ALIGNED_SIZES[i as usize];
    vec![
        fill(0, num(n), ix()),
        upload(0, 0, note1("Failed to create buffer of size {}: {}", num(n))),
        sort(0, 1, note1("Sort failed for size {}: {}", num(n))),
        fetch(1, 1, note1("Failed to download for size {}: {}", num(n))),
        check(not(alike(1, 0)), note1("Size {}: data corrupted after sort", num(n))),
        release(0),
    ]
}

/// The end of [`test_aligned_access_patterns`].
pub open spec fn aligned_access_patterns_end_steps() -> Seq<Step> {
    seq![
        sync(note0("Sync failed: {}")),
    ]
}

/// Writes the end of [`test_aligned_access_patterns`].
fn aligned_access_patterns_end() -> (steps: Vec<Step>)
    ensures
        steps@ == aligned_access_patterns_end_steps(),
{
    vec![
        sync(note0("Sync failed: {}")),
    ]
}

/// The steps of [`test_aligned_access_patterns`].
pub open spec fn aligned_access_patterns_steps() -> Seq<Step> {
    crate::script::rounds(8, |i: int| aligned_access_patterns_sizes_round(i as u64))
        + aligned_access_patterns_end_steps()
}

/// Rising columns of aligned sizes come back as they are.
pub fn test_aligned_access_patterns() -> (script: Script)
    ensures
        script@ == crate::script::plan(
            "test_aligned_access_patterns",
            aligned_access_patterns_steps(),
        ),
{
    let mut steps: Vec<Step> = Vec::new();
    let mut i: u64 = 0;
    while i < 8
        invariant
            i <= 8,
            steps@ == crate::script::rounds(
                i as int,
                |i: int| aligned_access_patterns_sizes_round(i as u64),
            ),
        decreases 8 - i,
    {
        let mut round = aligned_access_patterns_sizes(i);
        steps.append(&mut round);
        i = i + 1;
    }
    let mut more = aligned_access_patterns_end();
    steps.append(&mut more);
    Script::new("test_aligned_access_patterns", steps)
}

/// The steps of [`test_coalesced_access`].
pub open spec fn coalesced_access_steps() -> Seq<Step> {
    seq![
        fill(0, num(32768), minus(minus(num(32768), num(1)), ix())),
        fill(1, num(32768), ix()),
        upload_table(0, Layout::KeyVal, 0, note0("Failed to create buffer: {}")),
        sort(0, 1, note0("Sort failed: {}")),
        fetch(1, 2, note0("Failed to download sorted keys: {}")),
        download(1, 1, Scalar::U32, 3, note0("Failed to download sorted vals: {}")),
        scan(
            num(0),
            len(2),
            1,
            fault1(
                differs(here(2), ix()),
                note3("sorted_keys[{}] = {}, expected {}", ix(), here(2), ix()),
            ),
        ),
        scan(
            num(0),
            num(32768),
            1,
            fault1(
                differs(here(3), minus(minus(num(32768), num(1)), ix())),
                note3(
                    "sorted_vals[{}] = {}, expected {}",
                    ix(),
                    here(3),
                    minus(minus(num(32768), num(1)), ix()),
                ),
            ),
        ),
        sync(note0("Sync failed: {}")),
    ]
}

/// Sorting falling keys turns their values round.
pub fn test_coalesced_access() -> (script: Script)
    ensures
        script@ == crate::script::plan("test_coalesced_access", coalesced_access_steps()),
{
    let steps: Vec<Step> = vec![
        fill(0, num(32768), minus(minus(num(32768), num(1)), ix())),
        fill(1, num(32768), ix()),
        upload_table(0, Layout::KeyVal, 0, note0("Failed to create buffer: {}")),
        sort(0, 1, note0("Sort failed: {}")),
        fetch(1, 2, note0("Failed to download sorted keys: {}")),
        download(1, 1, Scalar::U32, 3, note0("Failed to download sorted vals: {}")),
        scan(
            num(0),
            len(2),
            1,
            fault1(
                differs(here(2), ix()),
                note3("sorted_keys[{}] = {}, expected {}", ix(), here(2), ix()),
            ),
        ),
        scan(
            num(0),
            num(32768),
            1,
            fault1(
                differs(here(3), minus(minus(num(32768), num(1)), ix())),
                note3(
                    "sorted_vals[{}] = {}, expected {}",
                    ix(),
                    here(3),
                    minus(minus(num(32768), num(1)), ix()),
                ),
            ),
        ),
        sync(note0("Sync failed: {}")),
    ];
    Script::new("test_coalesced_access", steps)
}

/// The steps of [`test_repeated_access`].
pub open spec fn repeated_access_steps() -> Seq<Step> {
    seq![
        fill(0, num(10000), modulo(plus(times(ix(), num(7)), num(13)), num(1000))),
        upload(0, 0, note0("Failed to create buffer: {}")),
        sort(0, 1, note0("First sort failed: {}")),
        sort(0, 2, note0("Second sort failed: {}")),
        fill(1, len(0), lt(here(0), num(500))),
        filter(0, 1, 3, note0("Filter failed: {}")),
        fetch(1, 2, note0("Failed to download sorted1: {}")),
        fetch(2, 3, note0("Failed to download sorted2: {}")),
        check(not(alike(2, 3)), note0("Two sorts of same buffer produced different results")),
        sort_column(4, 0, Scalar::U32),
        check(not(alike(2, 4)), note0("Sorted data is incorrect")),
        fetch(3, 5, note0("Failed to download filtered: {}")),
        select(6, len(0), lt(here(0), num(500)), here(0)),
        check(
            not(alike(5, 6)),
            note2("Filtered data incorrect: got {} elements, expected {}", len(5), len(6)),
        ),
        sort(0, 4, note0("Third sort failed: {}")),
        fetch(4, 7, note0("Failed to download sorted3: {}")),
        check(not(alike(7, 4)), note0("Buffer corrupted after multiple operations")),
        sync(note0("Sync failed: {}")),
    ]
}

/// Reading a buffer again and again gives the same results.
pub fn test_repeated_access() -> (script: Script)
    ensures
        script@ == crate::script::plan("test_repeated_access", repeated_access_steps()),
{
    let steps: Vec<Step> = vec![
        fill(0, num(10000), modulo(plus(times(ix(), num(7)), num(13)), num(1000))),
        upload(0, 0, note0("Failed to create buffer: {}")),
        sort(0, 1, note0("First sort failed: {}")),
        sort(0, 2, note0("Second sort failed: {}")),
        fill(1, len(0), lt(here(0), num(500))),
        filter(0, 1, 3, note0("Filter failed: {}")),
        fetch(1, 2, note0("Failed to download sorted1: {}")),
        fetch(2, 3, note0("Failed to download sorted2: {}")),
        check(not(alike(2, 3)), note0("Two sorts of same buffer produced different results")),
        sort_column(4, 0, Scalar::U32),
        check(not(alike(2, 4)), note0("Sorted data is incorrect")),
        fetch(3, 5, note0("Failed to download filtered: {}")),
        select(6, len(0), lt(here(0), num(500)), here(0)),
        check(
            not(alike(5, 6)),
            note2("Filtered data incorrect: got {} elements, expected {}", len(5), len(6)),
        ),
        sort(0, 4, note0("Third sort failed: {}")),
        fetch(4, 7, note0("Failed to download sorted3: {}")),
        check(not(alike(7, 4)), note0("Buffer corrupted after multiple operations")),
        sync(note0("Sync failed: {}")),
    ];
    Script::new("test_repeated_access", steps)
}

/// The steps of [`test_buffer_reuse`].
pub open spec fn buffer_reuse_steps() -> Seq<Step> {
    seq![
        fill(0, num(5000), ix()),
        upload(0, 0, note0("Failed to create buffer: {}")),
        fetch(0, 1, note0("First read failed: {}")),
        check(not(alike(1, 0)), note0("First read returned incorrect data")),
        sort(0, 1, note0("Sort failed: {}")),
        fetch(0, 1, note0("Second read failed: {}")),
        check(not(alike(1, 0)), note0("Original buffer modified by sort operation")),
        fill(2, num(5000), same_as(modulo(ix(), num(3)), num(0))),
        filter(0, 2, 2, note0("Filter failed: {}")),
        fetch(0, 1, note0("Third read failed: {}")),
        check(not(alike(1, 0)), note0("Original buffer modified by filter operation")),
        fetch(1, 1, note0("Failed to download sorted: {}")),
        check(not(alike(1, 0)), note0("Sorted result incorrect")),
        fetch(2, 1, note0("Failed to download filtered: {}")),
        select(3, len(0), same_as(modulo(ix(), num(3)), num(0)), here(0)),
        check(not(alike(1, 3)), note0("Filtered result incorrect")),
        sync(note0("Sync failed: {}")),
    ]
}

/// Sorting and filtering leave their source as it was.
pub fn test_buffer_reuse() -> (script: Script)
    ensures
        script@ == crate::script::plan("test_buffer_reuse", buffer_reuse_steps()),
{
    let steps: Vec<Step> = vec![
        fill(0, num(5000), ix()),
        upload(0, 0, note0("Failed to create buffer: {}")),
        fetch(0, 1, note0("First read failed: {}")),
        check(not(alike(1, 0)), note0("First read returned incorrect data")),
        sort(0, 1, note0("Sort failed: {}")),
        fetch(0, 1, note0("Second read failed: {}")),
        check(not(alike(1, 0)), note0("Original buffer modified by sort operation")),
        fill(2, num(5000), same_as(modulo(ix(), num(3)), num(0))),
        filter(0, 2, 2, note0("Filter failed: {}")),
        fetch(0, 1, note0("Third read failed: {}")),
        check(not(alike(1, 0)), note0("Original buffer modified by filter operation")),
        fetch(1, 1, note0("Failed to download sorted: {}")),
        check(not(alike(1, 0)), note0("Sorted result incorrect")),
        fetch(2, 1, note0("Failed to download filtered: {}")),
        select(3, len(0), same_as(modulo(ix(), num(3)), num(0)), here(0)),
        check(not(alike(1, 3)), note0("Filtered result incorrect")),
        sync(note0("Sync failed: {}")),
    ];
    Script::new("test_buffer_reuse", steps)
}

/// The tests of the category.
pub open spec fn tests() -> Seq<Plan> {
    seq![
        crate::script::plan("test_large_allocation", large_allocation_steps()),
        crate::script::plan("test_aligned_access_patterns", aligned_access_patterns_steps()),
        crate::script::plan("test_coalesced_access", coalesced_access_steps()),
        crate::script::plan("test_repeated_access", repeated_access_steps()),
        crate::script::plan("test_buffer_reuse", buffer_reuse_steps()),
    ]
}

/// Lists the tests of the category, in the order in which they run.
pub fn run_all() -> (category: CategoryRun)
    ensures
        category.title() == "c05_global_memory",
        category.waiting() == tests(),
        category.test() is None,
        category.run() is None,
        category.done() == Seq::<Outcome>::empty(),
{
    let scripts: Vec<Script> = vec![
        test_large_allocation(),
        test_aligned_access_patterns(),
        test_coalesced_access(),
        test_repeated_access(),
        test_buffer_reuse(),
    ];
    let category = CategoryRun::new("c05_global_memory", scripts);
    assert(category.waiting() =~= tests());
    category
}

} // verus!
