//! Warps: whole, partial, diverging and uniform.

use vstd::prelude::*;
use crate::expr::{
    before, count_in, differs, here, ix, len, lt, minus, modulo, num, over, pick, plus, reg,
    same_as, sum_of, times,
};
use crate::harness::{CategoryRun, Outcome};
use crate::message::{note0, note1, note2, note3, note4};
use crate::scalar::Scalar;
use crate::script::{
    after, check, dedup, download, fault1, fetch, fill, filter, Layout, Plan, put, release,
    rows_known, scan, Script, sort, Step, sync, upload, upload_table,
};

verus! {

/// Sizes around one warp and two.
pub const WARP_SIZES: [u64; 6] = [31, 32, 33, 63, 64, 65];

/// Sizes of many warps.
pub const COORDINATION_SIZES: [u64; 3] = [1024, 2048, 4096];

/// One round of the sizes of [`test_warp_size_operations`].
pub open spec fn warp_size_operations_sizes_round(i: u64) -> Seq<Step> {
    let n = WARP_SIZES@[i as int];
    seq![
        fill(0, num(n), minus(minus(num(n), num(1)), ix())),
        upload(0, 0, note1("Size {}: failed to create buffer: {}", num(n))),
        sort(0, 1, note1("Size {}: sort failed: {}", num(n))),
        rows_known(1, 0),
        check(
            differs(reg(0), num(n)),
            note3("Size {}: sort returned {} rows, expected {}", num(n), reg(0), num(n)),
        ),
        fetch(1, 1, note1("Size {}: failed to download: {}", num(n))),
        scan(
            num(0),
            len(1),
            1,
            fault1(
                differs(here(1), ix()),
                note4("Size {}: sorted[{}] = {}, expected {}", num(n), ix(), here(1), ix()),
            ),
        ),
        fill(2, num(n), same_as(modulo(ix(), num(2)), num(0))),
        filter(0, 2, 2, note1("Size {}: filter failed: {}", num(n))),
        rows_known(2, 0),
        check(
            differs(reg(0), over(plus(num(n), num(1)), num(2))),
            note3(
                "Size {}: filter returned {} rows, expected {}",
                num(n),
                reg(0),
                over(plus(num(n), num(1)), num(2)),
            ),
        ),
        release(0),
    ]
}

/// Writes one round of the sizes of [`test_warp_size_operations`].
fn warp_size_operations_sizes(i: u64) -> (steps: Vec<Step>)
    requires
        i < 6,
    ensures
        steps@ == warp_size_operations_sizes_round(i),
{
    let n: u64 = WARP_SIZES[i as usize];
    vec![
        fill(0, num(n), minus(minus(num(n), num(1)), ix())),
        upload(0, 0, note1("Size {}: failed to create buffer: {}", num(n))),
        sort(0, 1, note1("Size {}: sort failed: {}", num(n))),
        rows_known(1, 0),
        check(
            differs(reg(0), num(n)),
            note3("Size {}: sort returned {} rows, expected {}", num(n), reg(0), num(n)),
        ),
        fetch(1, 1, note1("Size {}: failed to download: {}", num(n))),
        scan(
            num(0),
            len(1),
            1,
            fault1(
                differs(here(1), ix()),
                note4("Size {}: sorted[{}] = {}, expected {}", num(n), ix(), here(1), ix()),
            ),
        ),
        fill(2, num(n), same_as(modulo(ix(), num(2)), num(0))),
        filter(0, 2, 2, note1("Size {}: filter failed: {}", num(n))),
        rows_known(2, 0),
        check(
            differs(reg(0), over(plus(num(n), num(1)), num(2))),
            note3(
                "Size {}: filter returned {} rows, expected {}",
                num(n),
                reg(0),
                over(plus(num(n), num(1)), num(2)),
            ),
        ),
        release(0),
    ]
}

/// The end of [`test_warp_size_operations`].
pub open spec fn warp_size_operations_end_steps() -> Seq<Step> {
    seq![
        sync(note0("Sync failed: {}")),
    ]
}

/// Writes the end of [`test_warp_size_operations`].
fn warp_size_operations_end() -> (steps: Vec<Step>)
    ensures
        steps@ == warp_size_operations_end_steps(),
{
    vec![
        sync(note0("Sync failed: {}")),
    ]
}

/// The steps of [`test_warp_size_operations`].
pub open spec fn warp_size_operations_steps() -> Seq<Step> {
    crate::script::rounds(6, |i: int| warp_size_operations_sizes_round(i as u64))
        + warp_size_operations_end_steps()
}

/// Columns of about one warp or two are sorted and filtered.
pub fn test_warp_size_operations() -> (script: Script)
    ensures
        script@ == crate::script::plan("test_warp_size_operations", warp_size_operations_steps()),
{
    let mut steps: Vec<Step> = Vec::new();
    let mut i: u64 = 0;
    while i < 6
        invariant
            i <= 6,
            steps@ == crate::script::rounds(
                i as int,
                |i: int| warp_size_operations_sizes_round(i as u64),
            ),
        decreases 6 - i,
    {
        let mut round = warp_size_operations_sizes(i);
        steps.append(&mut round);
        i = i + 1;
    }
    let mut more = warp_size_operations_end();
    steps.append(&mut more);
    Script::new("test_warp_size_operations", steps)
}

/// One round of the sizes of [`test_partial_warp_correctness`].
pub open spec fn partial_warp_correctness_sizes_round(i: u64) -> Seq<Step> {
    let n = after(1, i);
    seq![
        fill(0, num(n), minus(minus(num(n), num(1)), ix())),
        upload(0, 0, note1("Size {}: failed to create buffer: {}", num(n))),
        sort(0, 1, note1("Size {}: sort failed: {}", num(n))),
        rows_known(1, 0),
        check(
            differs(reg(0), num(n)),
            note3("Size {}: sort returned {} rows, expected {}", num(n), reg(0), num(n)),
        ),
        fetch(1, 1, note1("Size {}: failed to download: {}", num(n))),
        scan(
            num(0),
            len(1),
            1,
            fault1(
                differs(here(1), ix()),
                note4("Size {}: sorted[{}] = {}, expected {}", num(n), ix(), here(1), ix()),
            ),
        ),
        dedup(0, 2, note1("Size {}: dedup failed: {}", num(n))),
        rows_known(2, 0),
        check(
            differs(reg(0), num(n)),
            note3("Size {}: dedup returned {} rows, expected {}", num(n), reg(0), num(n)),
        ),
        release(0),
    ]
}

/// Writes one round of the sizes of [`test_partial_warp_correctness`].
fn partial_warp_correctness_sizes(i: u64) -> (steps: Vec<Step>)
    requires
        i < 31,
    ensures
        steps@ == partial_warp_correctness_sizes_round(i),
{
    let n: u64 = after(1, i);
    vec![
        fill(0, num(n), minus(minus(num(n), num(1)), ix())),
        upload(0, 0, note1("Size {}: failed to create buffer: {}", num(n))),
        sort(0, 1, note1("Size {}: sort failed: {}", num(n))),
        rows_known(1, 0),
        check(
            differs(reg(0), num(n)),
            note3("Size {}: sort returned {} rows, expected {}", num(n), reg(0), num(n)),
        ),
        fetch(1, 1, note1("Size {}: failed to download: {}", num(n))),
        scan(
            num(0),
            len(1),
            1,
            fault1(
                differs(here(1), ix()),
                note4("Size {}: sorted[{}] = {}, expected {}", num(n), ix(), here(1), ix()),
            ),
        ),
        dedup(0, 2, note1("Size {}: dedup failed: {}", num(n))),
        rows_known(2, 0),
        check(
            differs(reg(0), num(n)),
            note3("Size {}: dedup returned {} rows, expected {}", num(n), reg(0), num(n)),
        ),
        release(0),
    ]
}

/// The end of [`test_partial_warp_correctness`].
pub open spec fn partial_warp_correctness_end_steps() -> Seq<Step> {
    seq![
        sync(note0("Sync failed: {}")),
    ]
}

/// Writes the end of [`test_partial_warp_correctness`].
fn partial_warp_correctness_end() -> (steps: Vec<Step>)
    ensures
        steps@ == partial_warp_correctness_end_steps(),
{
    vec![
        sync(note0("Sync failed: {}")),
    ]
}

/// The steps of [`test_partial_warp_correctness`].
pub open spec fn partial_warp_correctness_steps() -> Seq<Step> {
    crate::script::rounds(31, |i: int| partial_warp_correctness_sizes_round(i as u64))
        + partial_warp_correctness_end_steps()
}

/// Columns shorter than a warp are sorted, and have no duplicates to remove.
pub fn test_partial_warp_correctness() -> (script: Script)
    ensures
        script@ == crate::script::plan(
            "test_partial_warp_correctness",
            partial_warp_correctness_steps(),
        ),
{
    let mut steps: Vec<Step> = Vec::new();
    let mut i: u64 = 0;
    while i < 31
        invariant
            i <= 31,
            steps@ == crate::script::rounds(
                i as int,
                |i: int| partial_warp_correctness_sizes_round(i as u64),
            ),
        decreases 31 - i,
    {
        let mut round = partial_warp_correctness_sizes(i);
        steps.append(&mut round);
        i = i + 1;
    }
    let mut more = partial_warp_correctness_end();
    steps.append(&mut more);
    Script::new("test_partial_warp_correctness", steps)
}

/// The steps of [`test_warp_divergence_patterns`].
pub open spec fn warp_divergence_patterns_steps() -> Seq<Step> {
    seq![
        fill(
            0,
            num(1024),
            pick(same_as(modulo(ix(), num(2)), num(0)), ix(), minus(num(1024), ix())),
        ),
        upload(0, 0, note0("Failed to create alternating buffer: {}")),
        sort(0, 1, note0("Sort of alternating pattern failed: {}")),
        fetch(1, 1, note0("Failed to download alternating sorted: {}")),
        scan(
            num(1),
            num(1024),
            1,
            fault1(
                lt(here(1), before(1)),
                note3("Alternating: not sorted at {}: {} > {}", ix(), before(1), here(1)),
            ),
        ),
        fill(
            2,
            num(1024),
            modulo(
                plus(
                    plus(
                        times(modulo(ix(), num(32)), num(7)),
                        times(over(ix(), num(32)), num(13)),
                    ),
                    times(ix(), num(17)),
                ),
                num(1000),
            ),
        ),
        upload(2, 2, note0("Failed to create warp chaos buffer: {}")),
        sort(2, 3, note0("Sort of warp chaos pattern failed: {}")),
        fetch(3, 3, note0("Failed to download warp chaos sorted: {}")),
        scan(
            num(1),
            num(1024),
            1,
            fault1(
                lt(here(3), before(3)),
                note3("Warp chaos: not sorted at {}: {} > {}", ix(), before(3), here(3)),
            ),
        ),
        fill(
            4,
            num(1024),
            pick(
                lt(modulo(ix(), num(64)), num(32)),
                modulo(ix(), num(64)),
                minus(num(63), modulo(ix(), num(64))),
            ),
        ),
        upload(4, 4, note0("Failed to create sawtooth buffer: {}")),
        sort(4, 5, note0("Sort of sawtooth pattern failed: {}")),
        fetch(5, 5, note0("Failed to download sawtooth sorted: {}")),
        scan(
            num(1),
            num(1024),
            1,
            fault1(
                lt(here(5), before(5)),
                note3("Sawtooth: not sorted at {}: {} > {}", ix(), before(5), here(5)),
            ),
        ),
        sync(note0("Sync failed: {}")),
    ]
}

/// Orders that make the lanes of a warp diverge are sorted.
pub fn test_warp_divergence_patterns() -> (script: Script)
    ensures
        script@ == crate::script::plan(
            "test_warp_divergence_patterns",
            warp_divergence_patterns_steps(),
        ),
{
    let steps: Vec<Step> = vec![
        fill(
            0,
            num(1024),
            pick(same_as(modulo(ix(), num(2)), num(0)), ix(), minus(num(1024), ix())),
        ),
        upload(0, 0, note0("Failed to create alternating buffer: {}")),
        sort(0, 1, note0("Sort of alternating pattern failed: {}")),
        fetch(1, 1, note0("Failed to download alternating sorted: {}")),
        scan(
            num(1),
            num(1024),
            1,
            fault1(
                lt(here(1), before(1)),
                note3("Alternating: not sorted at {}: {} > {}", ix(), before(1), here(1)),
            ),
        ),
        fill(
            2,
            num(1024),
            modulo(
                plus(
                    plus(
                        times(modulo(ix(), num(32)), num(7)),
                        times(over(ix(), num(32)), num(13)),
                    ),
                    times(ix(), num(17)),
                ),
                num(1000),
            ),
        ),
        upload(2, 2, note0("Failed to create warp chaos buffer: {}")),
        sort(2, 3, note0("Sort of warp chaos pattern failed: {}")),
        fetch(3, 3, note0("Failed to download warp chaos sorted: {}")),
        scan(
            num(1),
            num(1024),
            1,
            fault1(
                lt(here(3), before(3)),
                note3("Warp chaos: not sorted at {}: {} > {}", ix(), before(3), here(3)),
            ),
        ),
        fill(
            4,
            num(1024),
            pick(
                lt(modulo(ix(), num(64)), num(32)),
                modulo(ix(), num(64)),
                minus(num(63), modulo(ix(), num(64))),
            ),
        ),
        upload(4, 4, note0("Failed to create sawtooth buffer: {}")),
        sort(4, 5, note0("Sort of sawtooth pattern failed: {}")),
        fetch(5, 5, note0("Failed to download sawtooth sorted: {}")),
        scan(
            num(1),
            num(1024),
            1,
            fault1(
                lt(here(5), before(5)),
                note3("Sawtooth: not sorted at {}: {} > {}", ix(), before(5), here(5)),
            ),
        ),
        sync(note0("Sync failed: {}")),
    ];
    Script::new("test_warp_divergence_patterns", steps)
}

/// The steps of [`test_warp_uniform_patterns`].
pub open spec fn warp_uniform_patterns_steps() -> Seq<Step> {
    seq![
        fill(0, num(1024), over(ix(), num(32))),
        upload(0, 0, note0("Failed to create warp uniform buffer: {}")),
        sort(0, 1, note0("Sort of warp uniform failed: {}")),
        fetch(1, 1, note0("Failed to download warp uniform sorted: {}")),
        scan(
            num(0),
            num(32),
            1,
            fault1(
                differs(count_in(1, ix()), num(32)),
                note2("Warp {}: count = {}, expected 32", ix(), count_in(1, ix())),
            ),
        ),
        scan(
            num(1),
            num(1024),
            1,
            fault1(
                lt(here(1), before(1)),
                note3("Warp uniform: not sorted at {}: {} > {}", ix(), before(1), here(1)),
            ),
        ),
        dedup(0, 2, note0("Dedup of warp uniform failed: {}")),
        rows_known(2, 0),
        check(
            differs(reg(0), num(32)),
            note2("Dedup returned {} unique, expected {}", reg(0), num(32)),
        ),
        fill(2, num(1024), num(42)),
        upload(3, 2, note0("Failed to create all-same buffer: {}")),
        dedup(3, 4, note0("Dedup of all-same failed: {}")),
        rows_known(4, 0),
        check(
            differs(reg(0), num(1)),
            note1("Dedup of all-same returned {} rows, expected 1", reg(0)),
        ),
        sync(note0("Sync failed: {}")),
    ]
}

/// Values that are equal within a warp are counted, sorted and made unique.
pub fn test_warp_uniform_patterns() -> (script: Script)
    ensures
        script@ == crate::script::plan("test_warp_uniform_patterns", warp_uniform_patterns_steps()),
{
    let steps: Vec<Step> = vec![
        fill(0, num(1024), over(ix(), num(32))),
        upload(0, 0, note0("Failed to create warp uniform buffer: {}")),
        sort(0, 1, note0("Sort of warp uniform failed: {}")),
        fetch(1, 1, note0("Failed to download warp uniform sorted: {}")),
        scan(
            num(0),
            num(32),
            1,
            fault1(
                differs(count_in(1, ix()), num(32)),
                note2("Warp {}: count = {}, expected 32", ix(), count_in(1, ix())),
            ),
        ),
        scan(
            num(1),
            num(1024),
            1,
            fault1(
                lt(here(1), before(1)),
                note3("Warp uniform: not sorted at {}: {} > {}", ix(), before(1), here(1)),
            ),
        ),
        dedup(0, 2, note0("Dedup of warp uniform failed: {}")),
        rows_known(2, 0),
        check(
            differs(reg(0), num(32)),
            note2("Dedup returned {} unique, expected {}", reg(0), num(32)),
        ),
        fill(2, num(1024), num(42)),
        upload(3, 2, note0("Failed to create all-same buffer: {}")),
        dedup(3, 4, note0("Dedup of all-same failed: {}")),
        rows_known(4, 0),
        check(
            differs(reg(0), num(1)),
            note1("Dedup of all-same returned {} rows, expected 1", reg(0)),
        ),
        sync(note0("Sync failed: {}")),
    ];
    Script::new("test_warp_uniform_patterns", steps)
}

/// One round of the sizes of [`test_multi_warp_coordination`].
pub open spec fn multi_warp_coordination_sizes_round(i: u64) -> Seq<Step> {
    let n = COORDINATION_SIZES@[i as int];
    seq![
        fill(0, num(n), minus(minus(num(n), num(1)), ix())),
        fill(1, num(n), ix()),
        upload_table(0, Layout::KeyVal, 0, note1("Size {}: failed to create buffer: {}", num(n))),
        sort(0, 1, note1("Size {}: sort failed: {}", num(n))),
        rows_known(1, 0),
        check(
            differs(reg(0), num(n)),
            note3("Size {}: sort returned {} rows, expected {}", num(n), reg(0), num(n)),
        ),
        fetch(1, 2, note1("Size {}: failed to download keys: {}", num(n))),
        download(1, 1, Scalar::U32, 3, note1("Size {}: failed to download vals: {}", num(n))),
        scan(
            num(0),
            len(2),
            1,
            fault1(
                differs(here(2), ix()),
                note4("Size {}: sorted_keys[{}] = {}, expected {}", num(n), ix(), here(2), ix()),
            ),
        ),
        scan(
            num(0),
            num(n),
            1,
            fault1(
                differs(here(3), minus(minus(num(n), num(1)), ix())),
                note4(
                    "Size {}: sorted_vals[{}] = {}, expected {}",
                    num(n),
                    ix(),
                    here(3),
                    minus(minus(num(n), num(1)), ix()),
                ),
            ),
        ),
        fill(
            4,
            num(n),
            pick(
                same_as(modulo(over(ix(), num(32)), num(2)), num(0)),
                same_as(modulo(ix(), num(3)), num(0)),
                lt(modulo(ix(), num(32)), num(16)),
            ),
        ),
        put(1, sum_of(4)),
        filter(0, 4, 2, note1("Size {}: filter failed: {}", num(n))),
        rows_known(2, 0),
        check(
            differs(reg(0), reg(1)),
            note3("Size {}: filter returned {} rows, expected {}", num(n), reg(0), reg(1)),
        ),
        release(0),
    ]
}

/// Writes one round of the sizes of [`test_multi_warp_coordination`].
fn multi_warp_coordination_sizes(i: u64) -> (steps: Vec<Step>)
    requires
        i < 3,
    ensures
        steps@ == multi_warp_coordination_sizes_round(i),
{
    let n: u64 = COORDINATION_SIZES[i as usize];
    vec![
        fill(0, num(n), minus(minus(num(n), num(1)), ix())),
        fill(1, num(n), ix()),
        upload_table(0, Layout::KeyVal, 0, note1("Size {}: failed to create buffer: {}", num(n))),
        sort(0, 1, note1("Size {}: sort failed: {}", num(n))),
        rows_known(1, 0),
        check(
            differs(reg(0), num(n)),
            note3("Size {}: sort returned {} rows, expected {}", num(n), reg(0), num(n)),
        ),
        fetch(1, 2, note1("Size {}: failed to download keys: {}", num(n))),
        download(1, 1, Scalar::U32, 3, note1("Size {}: failed to download vals: {}", num(n))),
        scan(
            num(0),
            len(2),
            1,
            fault1(
                differs(here(2), ix()),
                note4("Size {}: sorted_keys[{}] = {}, expected {}", num(n), ix(), here(2), ix()),
            ),
        ),
        scan(
            num(0),
            num(n),
            1,
            fault1(
                differs(here(3), minus(minus(num(n), num(1)), ix())),
                note4(
                    "Size {}: sorted_vals[{}] = {}, expected {}",
                    num(n),
                    ix(),
                    here(3),
                    minus(minus(num(n), num(1)), ix()),
                ),
            ),
        ),
        fill(
            4,
            num(n),
            pick(
                same_as(modulo(over(ix(), num(32)), num(2)), num(0)),
                same_as(modulo(ix(), num(3)), num(0)),
                lt(modulo(ix(), num(32)), num(16)),
            ),
        ),
        put(1, sum_of(4)),
        filter(0, 4, 2, note1("Size {}: filter failed: {}", num(n))),
        rows_known(2, 0),
        check(
            differs(reg(0), reg(1)),
            note3("Size {}: filter returned {} rows, expected {}", num(n), reg(0), reg(1)),
        ),
        release(0),
    ]
}

/// The end of [`test_multi_warp_coordination`].
pub open spec fn multi_warp_coordination_end_steps() -> Seq<Step> {
    seq![
        sync(note0("Sync failed: {}")),
    ]
}

/// Writes the end of [`test_multi_warp_coordination`].
fn multi_warp_coordination_end() -> (steps: Vec<Step>)
    ensures
        steps@ == multi_warp_coordination_end_steps(),
{
    vec![
        sync(note0("Sync failed: {}")),
    ]
}

/// The steps of [`test_multi_warp_coordination`].
pub open spec fn multi_warp_coordination_steps() -> Seq<Step> {
    crate::script::rounds(3, |i: int| multi_warp_coordination_sizes_round(i as u64))
        + multi_warp_coordination_end_steps()
}

/// Many warps sort one table, and filter it by different rules.
pub fn test_multi_warp_coordination() -> (script: Script)
    ensures
        script@ == crate::script::plan(
            "test_multi_warp_coordination",
            multi_warp_coordination_steps(),
        ),
{
    let mut steps: Vec<Step> = Vec::new();
    let mut i: u64 = 0;
    while i < 3
        invariant
            i <= 3,
            steps@ == crate::script::rounds(
                i as int,
                |i: int| multi_warp_coordination_sizes_round(i as u64),
            ),
        decreases 3 - i,
    {
        let mut round = multi_warp_coordination_sizes(i);
        steps.append(&mut round);
        i = i + 1;
    }
    let mut more = multi_warp_coordination_end();
    steps.append(&mut more);
    Script::new("test_multi_warp_coordination", steps)
}

/// The tests of the category.
pub open spec fn tests() -> Seq<Plan> {
    seq![
        crate::script::plan("test_warp_size_operations", warp_size_operations_steps()),
        crate::script::plan("test_partial_warp_correctness", partial_warp_correctness_steps()),
        crate::script::plan("test_warp_divergence_patterns", warp_divergence_patterns_steps()),
        crate::script::plan("test_warp_uniform_patterns", warp_uniform_patterns_steps()),
        crate::script::plan("test_multi_warp_coordination", multi_warp_coordination_steps()),
    ]
}

/// Lists the tests of the category, in the order in which they run.
pub fn run_all() -> (category: CategoryRun)
    ensures
        category.title() == "c09_warp_level",
        category.waiting() == tests(),
        category.test() is None,
        category.run() is None,
        category.done() == Seq::<Outcome>::empty(),
{
    let scripts: Vec<Script> = vec![
        test_warp_size_operations(),
        test_partial_warp_correctness(),
        test_warp_divergence_patterns(),
        test_warp_uniform_patterns(),
        test_multi_warp_coordination(),
    ];
    let category = CategoryRun::new("c09_warp_level", scripts);
    assert(category.waiting() =~= tests());
    category
}

} // verus!
