//! Shared memory: sorts that use one tile, many tiles, and conflicting banks.

use vstd::prelude::*;
use crate::expr::{
    alike, before, differs, entry, here, ix, len, lt, minus, modulo, not, num, over, plus, reg,
    times,
};
use crate::harness::{CategoryRun, Outcome};
use crate::message::{note0, note1, note2, note3, note4};
use crate::scalar::Scalar;
use crate::script::{
    check, download, fault1, fetch, fill, Layout, Plan, release, rows_known, scan, Script, sort,
    Step, sync, upload, upload_table,
};
use crate::tables::Table;

verus! {

/// Sizes of one shared memory tile and more.
pub const TILE_SIZES: [u64; 7] = [256, 512, 1024, 2048, 4096, 8192, 16384];

/// Sizes around multiples of a tile.
pub const EDGE_SIZES: [u64; 15] = [
    255, 256, 257, 511, 512, 513, 1023, 1024, 1025, 2047, 2048, 2049, 4095, 4096, 4097,
];

/// Sizes that press on the limits of shared memory.
pub const STRESS_SIZES: [u64; 5] = [8192, 12288, 16384, 32768, 65536];

/// A falling column of `n` rows comes back sorted.
pub open spec fn sorted_size_steps(n: u64) -> Seq<Step> {
    seq![
        fill(0, num(n), minus(minus(num(n), num(1)), ix())),
        upload(0, 0, note1("Failed to create buffer of size {}: {}", num(n))),
        sort(0, 1, note1("Sort failed for size {}: {}", num(n))),
        rows_known(1, 0),
        check(
            differs(reg(0), num(n)),
            note3("Size {}: sort returned {} rows, expected {}", num(n), reg(0), num(n)),
        ),
        fetch(1, 1, note1("Size {}: failed to download: {}", num(n))),
        scan(
            num(0),
            len(1),
            1,
            fault1(
                differs(here(1), ix()),
                note4("Size {}: sorted[{}] = {}, expected {}", num(n), ix(), here(1), ix()),
            ),
        ),
        release(0),
    ]
}

/// Writes [`sorted_size_steps`].
pub fn sorted_size(n: u64) -> (steps: Vec<Step>)
    ensures
        steps@ == sorted_size_steps(n),
{
    vec![
        fill(0, num(n), minus(minus(num(n), num(1)), ix())),
        upload(0, 0, note1("Failed to create buffer of size {}: {}", num(n))),
        sort(0, 1, note1("Sort failed for size {}: {}", num(n))),
        rows_known(1, 0),
        check(
            differs(reg(0), num(n)),
            note3("Size {}: sort returned {} rows, expected {}", num(n), reg(0), num(n)),
        ),
        fetch(1, 1, note1("Size {}: failed to download: {}", num(n))),
        scan(
            num(0),
            len(1),
            1,
            fault1(
                differs(here(1), ix()),
                note4("Size {}: sorted[{}] = {}, expected {}", num(n), ix(), here(1), ix()),
            ),
        ),
        release(0),
    ]
}

/// The end of [`test_sort_uses_shared_memory`].
pub open spec fn sort_uses_shared_memory_end_steps() -> Seq<Step> {
    seq![
        sync(note0("Sync failed: {}")),
    ]
}

/// Writes the end of [`test_sort_uses_shared_memory`].
fn sort_uses_shared_memory_end() -> (steps: Vec<Step>)
    ensures
        steps@ == sort_uses_shared_memory_end_steps(),
{
    vec![
        sync(note0("Sync failed: {}")),
    ]
}

/// The steps of [`test_sort_uses_shared_memory`].
pub open spec fn sort_uses_shared_memory_steps() -> Seq<Step> {
    crate::script::rounds(7, |i: int| sorted_size_steps(TILE_SIZES@[i]))
        + sort_uses_shared_memory_end_steps()
}

/// Falling columns of tile sizes come back sorted.
pub fn test_sort_uses_shared_memory() -> (script: Script)
    ensures
        script@ == crate::script::plan(
            "test_sort_uses_shared_memory",
            sort_uses_shared_memory_steps(),
        ),
{
    let mut steps: Vec<Step> = Vec::new();
    let mut i: u64 = 0;
    while i < 7
        invariant
            i <= 7,
            steps@ == crate::script::rounds(
                i as int,
                |i: int| sorted_size_steps(TILE_SIZES@[i]),
            ),
        decreases 7 - i,
    {
        let mut round = sorted_size(TILE_SIZES[i as usize]);
        steps.append(&mut round);
        i = i + 1;
    }
    let mut more = sort_uses_shared_memory_end();
    steps.append(&mut more);
    Script::new("test_sort_uses_shared_memory", steps)
}

/// The steps of [`test_sort_bank_conflicts`].
pub open spec fn sort_bank_conflicts_steps() -> Seq<Step> {
    seq![
        fill(0, num(4096), num(42)),
        upload(0, 0, note0("Failed to create same-value buffer: {}")),
        sort(0, 1, note0("Sort of same-value buffer failed: {}")),
        fetch(1, 1, note0("Failed to download same-value result: {}")),
        check(not(alike(1, 0)), note0("Same-value sort produced incorrect result")),
        fill(2, num(4096), plus(times(modulo(ix(), num(32)), num(1000)), over(ix(), num(32)))),
        upload(2, 2, note0("Failed to create stride buffer: {}")),
        sort(2, 3, note0("Sort of stride buffer failed: {}")),
        fetch(3, 3, note0("Failed to download stride result: {}")),
        scan(
            num(1),
            len(3),
            1,
            fault1(
                lt(here(3), before(3)),
                note3("Stride sort order incorrect at {}: {} > {}", ix(), before(3), here(3)),
            ),
        ),
        fill(4, num(4096), entry(Table::Powers, modulo(ix(), num(16)))),
        upload(4, 4, note0("Failed to create pow2 buffer: {}")),
        sort(4, 5, note0("Sort of pow2 buffer failed: {}")),
        fetch(5, 5, note0("Failed to download pow2 result: {}")),
        scan(
            num(1),
            len(5),
            1,
            fault1(
                lt(here(5), before(5)),
                note3("Pow2 sort order incorrect at {}: {} > {}", ix(), before(5), here(5)),
            ),
        ),
        sync(note0("Sync failed: {}")),
    ]
}

/// Equal, strided and power-of-two values are sorted in spite of bank conflicts.
pub fn test_sort_bank_conflicts() -> (script: Script)
    ensures
        script@ == crate::script::plan("test_sort_bank_conflicts", sort_bank_conflicts_steps()),
{
    let steps: Vec<Step> = vec![
        fill(0, num(4096), num(42)),
        upload(0, 0, note0("Failed to create same-value buffer: {}")),
        sort(0, 1, note0("Sort of same-value buffer failed: {}")),
        fetch(1, 1, note0("Failed to download same-value result: {}")),
        check(not(alike(1, 0)), note0("Same-value sort produced incorrect result")),
        fill(2, num(4096), plus(times(modulo(ix(), num(32)), num(1000)), over(ix(), num(32)))),
        upload(2, 2, note0("Failed to create stride buffer: {}")),
        sort(2, 3, note0("Sort of stride buffer failed: {}")),
        fetch(3, 3, note0("Failed to download stride result: {}")),
        scan(
            num(1),
            len(3),
            1,
            fault1(
                lt(here(3), before(3)),
                note3("Stride sort order incorrect at {}: {} > {}", ix(), before(3), here(3)),
            ),
        ),
        fill(4, num(4096), entry(Table::Powers, modulo(ix(), num(16)))),
        upload(4, 4, note0("Failed to create pow2 buffer: {}")),
        sort(4, 5, note0("Sort of pow2 buffer failed: {}")),
        fetch(5, 5, note0("Failed to download pow2 result: {}")),
        scan(
            num(1),
            len(5),
            1,
            fault1(
                lt(here(5), before(5)),
                note3("Pow2 sort order incorrect at {}: {} > {}", ix(), before(5), here(5)),
            ),
        ),
        sync(note0("Sync failed: {}")),
    ];
    Script::new("test_sort_bank_conflicts", steps)
}

/// The steps of [`test_sort_multiple_passes`].
pub open spec fn sort_multiple_passes_steps() -> Seq<Step> {
    seq![
        fill(
            0,
            num(1000000),
            modulo(plus(times(ix(), num(1103515247)), num(12345)), num(1000000)),
        ),
        fill(1, num(1000000), ix()),
        upload_table(0, Layout::KeyVal, 0, note0("Failed to create buffer: {}")),
        sort(0, 1, note0("Sort failed: {}")),
        rows_known(1, 0),
        check(
            differs(reg(0), num(1000000)),
            note2("Sort returned {} rows, expected {}", reg(0), num(1000000)),
        ),
        fetch(1, 2, note0("Failed to download sorted keys: {}")),
        scan(
            num(1),
            len(2),
            1,
            fault1(
                lt(here(2), before(2)),
                note3("Sort order incorrect at {}: {} > {}", ix(), before(2), here(2)),
            ),
        ),
        scan(
            num(0),
            len(2),
            1,
            fault1(
                differs(here(2), ix()),
                note3("Key at {} is {}, expected {}", ix(), here(2), ix()),
            ),
        ),
        sync(note0("Sync failed: {}")),
    ]
}

/// A million keys in scrambled order, each once, come back as 0, 1, 2 and so on.
pub fn test_sort_multiple_passes() -> (script: Script)
    ensures
        script@ == crate::script::plan("test_sort_multiple_passes", sort_multiple_passes_steps()),
{
    let steps: Vec<Step> = vec![
        fill(
            0,
            num(1000000),
            modulo(plus(times(ix(), num(1103515247)), num(12345)), num(1000000)),
        ),
        fill(1, num(1000000), ix()),
        upload_table(0, Layout::KeyVal, 0, note0("Failed to create buffer: {}")),
        sort(0, 1, note0("Sort failed: {}")),
        rows_known(1, 0),
        check(
            differs(reg(0), num(1000000)),
            note2("Sort returned {} rows, expected {}", reg(0), num(1000000)),
        ),
        fetch(1, 2, note0("Failed to download sorted keys: {}")),
        scan(
            num(1),
            len(2),
            1,
            fault1(
                lt(here(2), before(2)),
                note3("Sort order incorrect at {}: {} > {}", ix(), before(2), here(2)),
            ),
        ),
        scan(
            num(0),
            len(2),
            1,
            fault1(
                differs(here(2), ix()),
                note3("Key at {} is {}, expected {}", ix(), here(2), ix()),
            ),
        ),
        sync(note0("Sync failed: {}")),
    ];
    Script::new("test_sort_multiple_passes", steps)
}

/// The end of [`test_block_boundary_shared_mem`].
pub open spec fn block_boundary_shared_mem_end_steps() -> Seq<Step> {
    seq![
        sync(note0("Sync failed: {}")),
    ]
}

/// Writes the end of [`test_block_boundary_shared_mem`].
fn block_boundary_shared_mem_end() -> (steps: Vec<Step>)
    ensures
        steps@ == block_boundary_shared_mem_end_steps(),
{
    vec![
        sync(note0("Sync failed: {}")),
    ]
}

/// The steps of [`test_block_boundary_shared_mem`].
pub open spec fn block_boundary_shared_mem_steps() -> Seq<Step> {
    crate::script::rounds(15, |i: int| sorted_size_steps(EDGE_SIZES@[i]))
        + block_boundary_shared_mem_end_steps()
}

/// Falling columns of sizes around tiles come back sorted.
pub fn test_block_boundary_shared_mem() -> (script: Script)
    ensures
        script@ == crate::script::plan(
            "test_block_boundary_shared_mem",
            block_boundary_shared_mem_steps(),
        ),
{
    let mut steps: Vec<Step> = Vec::new();
    let mut i: u64 = 0;
    while i < 15
        invariant
            i <= 15,
            steps@ == crate::script::rounds(
                i as int,
                |i: int| sorted_size_steps(EDGE_SIZES@[i]),
            ),
        decreases 15 - i,
    {
        let mut round = sorted_size(EDGE_SIZES[i as usize]);
        steps.append(&mut round);
        i = i + 1;
    }
    let mut more = block_boundary_shared_mem_end();
    steps.append(&mut more);
    Script::new("test_block_boundary_shared_mem", steps)
}

/// One round of the sizes of [`test_shared_mem_size_limits`].
pub open spec fn shared_mem_size_limits_sizes_round(i: u64) -> Seq<Step> {
    let n = STRESS_SIZES@[i as int];
    seq![
        fill(0, num(n), minus(minus(num(n), num(1)), ix())),
        fill(1, num(n), ix()),
        upload_table(
            0,
            Layout::KeyVal,
            0,
            note1("Failed to create buffer of size {}: {}", num(n)),
        ),
        sort(0, 1, note1("Sort failed for size {}: {}", num(n))),
        rows_known(1, 0),
        check(
            differs(reg(0), num(n)),
            note3("Size {}: sort returned {} rows, expected {}", num(n), reg(0), num(n)),
        ),
        fetch(1, 2, note1("Size {}: failed to download keys: {}", num(n))),
        download(1, 1, Scalar::U32, 3, note1("Size {}: failed to download vals: {}", num(n))),
        scan(
            num(0),
            len(2),
            1,
            fault1(
                differs(here(2), ix()),
                note4("Size {}: sorted_keys[{}] = {}, expected {}", num(n), ix(), here(2), ix()),
            ),
        ),
        scan(
            num(0),
            num(n),
            1,
            fault1(
                differs(here(3), minus(minus(num(n), num(1)), ix())),
                note4(
                    "Size {}: sorted_vals[{}] = {}, expected {}",
                    num(n),
                    ix(),
                    here(3),
                    minus(minus(num(n), num(1)), ix()),
                ),
            ),
        ),
        release(0),
    ]
}

/// Writes one round of the sizes of [`test_shared_mem_size_limits`].
fn shared_mem_size_limits_sizes(i: u64) -> (steps: Vec<Step>)
    requires
        i < 5,
    ensures
        steps@ == shared_mem_size_limits_sizes_round(i),
{
    let n: u64 = STRESS_SIZES[i as usize];
    vec![
        fill(0, num(n), minus(minus(num(n), num(1)), ix())),
        fill(1, num(n), ix()),
        upload_table(
            0,
            Layout::KeyVal,
            0,
            note1("Failed to create buffer of size {}: {}", num(n)),
        ),
        sort(0, 1, note1("Sort failed for size {}: {}", num(n))),
        rows_known(1, 0),
        check(
            differs(reg(0), num(n)),
            note3("Size {}: sort returned {} rows, expected {}", num(n), reg(0), num(n)),
        ),
        fetch(1, 2, note1("Size {}: failed to download keys: {}", num(n))),
        download(1, 1, Scalar::U32, 3, note1("Size {}: failed to download vals: {}", num(n))),
        scan(
            num(0),
            len(2),
            1,
            fault1(
                differs(here(2), ix()),
                note4("Size {}: sorted_keys[{}] = {}, expected {}", num(n), ix(), here(2), ix()),
            ),
        ),
        scan(
            num(0),
            num(n),
            1,
            fault1(
                differs(here(3), minus(minus(num(n), num(1)), ix())),
                note4(
                    "Size {}: sorted_vals[{}] = {}, expected {}",
                    num(n),
                    ix(),
                    here(3),
                    minus(minus(num(n), num(1)), ix()),
                ),
            ),
        ),
        release(0),
    ]
}

/// The end of [`test_shared_mem_size_limits`].
pub open spec fn shared_mem_size_limits_end_steps() -> Seq<Step> {
    seq![
        sync(note0("Sync failed: {}")),
    ]
}

/// Writes the end of [`test_shared_mem_size_limits`].
fn shared_mem_size_limits_end() -> (steps: Vec<Step>)
    ensures
        steps@ == shared_mem_size_limits_end_steps(),
{
    vec![
        sync(note0("Sync failed: {}")),
    ]
}

/// The steps of [`test_shared_mem_size_limits`].
pub open spec fn shared_mem_size_limits_steps() -> Seq<Step> {
    crate::script::rounds(5, |i: int| shared_mem_size_limits_sizes_round(i as u64))
        + shared_mem_size_limits_end_steps()
}

/// Large tables are sorted by key, and the values follow.
pub fn test_shared_mem_size_limits() -> (script: Script)
    ensures
        script@ == crate::script::plan(
            "test_shared_mem_size_limits",
            shared_mem_size_limits_steps(),
        ),
{
    let mut steps: Vec<Step> = Vec::new();
    let mut i: u64 = 0;
    while i < 5
        invariant
            i <= 5,
            steps@ == crate::script::rounds(
                i as int,
                |i: int| shared_mem_size_limits_sizes_round(i as u64),
            ),
        decreases 5 - i,
    {
        let mut round = shared_mem_size_limits_sizes(i);
        steps.append(&mut round);
        i = i + 1;
    }
    let mut more = shared_mem_size_limits_end();
    steps.append(&mut more);
    Script::new("test_shared_mem_size_limits", steps)
}

/// The tests of the category.
pub open spec fn tests() -> Seq<Plan> {
    seq![
        crate::script::plan("test_sort_uses_shared_memory", sort_uses_shared_memory_steps()),
        crate::script::plan("test_sort_bank_conflicts", sort_bank_conflicts_steps()),
        crate::script::plan("test_sort_multiple_passes", sort_multiple_passes_steps()),
        crate::script::plan("test_block_boundary_shared_mem", block_boundary_shared_mem_steps()),
        crate::script::plan("test_shared_mem_size_limits", shared_mem_size_limits_steps()),
    ]
}

/// Lists the tests of the category, in the order in which they run.
pub fn run_all() -> (category: CategoryRun)
    ensures
        category.title() == "c06_shared_memory",
        category.waiting() == tests(),
        category.test() is None,
        category.run() is None,
        category.done() == Seq::<Outcome>::empty(),
{
    let scripts: Vec<Script> = vec![
        test_sort_uses_shared_memory(),
        test_sort_bank_conflicts(),
        test_sort_multiple_passes(),
        test_block_boundary_shared_mem(),
        test_shared_mem_size_limits(),
    ];
    let category = CategoryRun::new("c06_shared_memory", scripts);
    assert(category.waiting() =~= tests());
    category
}

} // verus!
