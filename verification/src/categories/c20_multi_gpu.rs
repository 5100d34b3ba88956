//! Several devices: counting them, and working on the primary one.

use vstd::prelude::*;
use crate::expr::{
    alike, and, before, differs, here, ix, len, lt, modulo, not, num, or, pick, plus, reg, same_as,
    times, wrap_plus, wrap_times,
};
use crate::harness::{CategoryRun, Outcome};
use crate::message::{flag, note0, note1, note2, note3, remark2, val};
use crate::scalar::Scalar;
use crate::script::{
    after, attempt, budget, capability, check, COUNT, dedup, devices, fault1, fetch, fill, filter,
    join, Layout, match_rows, Otherwise, Plan, put, release, Request, scan, Script, several, skip,
    sort, sort_column, Step, sync, upload, upload_table, used,
};

verus! {

/// The column of [`test_single_gpu_baseline`].
pub open spec fn single_gpu_baseline_column_steps() -> Seq<Step> {
    seq![
        fill(
            0,
            num(100000),
            modulo(plus(times(ix(), num(1103515245)), num(12345)), num(1000000)),
        ),
        upload(0, 0, note0("Failed to create buffer: {}")),
        sort(0, 1, note0("Sort failed: {}")),
        fetch(1, 1, note0("Download failed: {}")),
        scan(
            num(1),
            len(1),
            1,
            fault1(lt(here(1), before(1)), note1("Sort incorrect at index {}", ix())),
        ),
        sort_column(2, 0, Scalar::U32),
        check(not(alike(1, 2)), note0("Sorted result doesn't match expected")),
        fill(3, num(100000), same_as(modulo(ix(), num(3)), num(0))),
        filter(0, 3, 2, note0("Filter failed: {}")),
        match_rows(
            2,
            num(33334),
            note2("Filter: expected {} rows, got {}", num(33334), reg(COUNT)),
        ),
    ]
}

/// Writes the column of [`test_single_gpu_baseline`].
fn single_gpu_baseline_column() -> (steps: Vec<Step>)
    ensures
        steps@ == single_gpu_baseline_column_steps(),
{
    vec![
        fill(
            0,
            num(100000),
            modulo(plus(times(ix(), num(1103515245)), num(12345)), num(1000000)),
        ),
        upload(0, 0, note0("Failed to create buffer: {}")),
        sort(0, 1, note0("Sort failed: {}")),
        fetch(1, 1, note0("Download failed: {}")),
        scan(
            num(1),
            len(1),
            1,
            fault1(lt(here(1), before(1)), note1("Sort incorrect at index {}", ix())),
        ),
        sort_column(2, 0, Scalar::U32),
        check(not(alike(1, 2)), note0("Sorted result doesn't match expected")),
        fill(3, num(100000), same_as(modulo(ix(), num(3)), num(0))),
        filter(0, 3, 2, note0("Filter failed: {}")),
        match_rows(
            2,
            num(33334),
            note2("Filter: expected {} rows, got {}", num(33334), reg(COUNT)),
        ),
    ]
}

/// The tables of [`test_single_gpu_baseline`].
pub open spec fn single_gpu_baseline_tables_steps() -> Seq<Step> {
    seq![
        fill(4, num(100000), modulo(ix(), num(1000))),
        fill(5, num(100000), ix()),
        upload_table(3, Layout::KeyVal, 4, note0("Failed to create buffer2: {}")),
        dedup(3, 4, note0("Dedup failed: {}")),
        match_rows(4, num(1000), note1("Dedup: expected 1000 unique, got {}", reg(COUNT))),
        fill(6, num(1000), ix()),
        fill(7, num(1000), times(here(6), num(2))),
        fill(8, num(500), times(ix(), num(2))),
        fill(9, num(500), times(here(8), num(3))),
        upload_table(5, Layout::KeyLval, 6, note0("Failed to create left buffer: {}")),
        upload_table(6, Layout::KeyRval, 8, note0("Failed to create right buffer: {}")),
        join(5, 6, 7, note0("Join failed: {}")),
        match_rows(7, num(500), note1("Join: expected 500 rows, got {}", reg(COUNT))),
        sync(note0("Sync failed: {}")),
    ]
}

/// Writes the tables of [`test_single_gpu_baseline`].
fn single_gpu_baseline_tables() -> (steps: Vec<Step>)
    ensures
        steps@ == single_gpu_baseline_tables_steps(),
{
    vec![
        fill(4, num(100000), modulo(ix(), num(1000))),
        fill(5, num(100000), ix()),
        upload_table(3, Layout::KeyVal, 4, note0("Failed to create buffer2: {}")),
        dedup(3, 4, note0("Dedup failed: {}")),
        match_rows(4, num(1000), note1("Dedup: expected 1000 unique, got {}", reg(COUNT))),
        fill(6, num(1000), ix()),
        fill(7, num(1000), times(here(6), num(2))),
        fill(8, num(500), times(ix(), num(2))),
        fill(9, num(500), times(here(8), num(3))),
        upload_table(5, Layout::KeyLval, 6, note0("Failed to create left buffer: {}")),
        upload_table(6, Layout::KeyRval, 8, note0("Failed to create right buffer: {}")),
        join(5, 6, 7, note0("Join failed: {}")),
        match_rows(7, num(500), note1("Join: expected 500 rows, got {}", reg(COUNT))),
        sync(note0("Sync failed: {}")),
    ]
}

/// The steps of [`test_single_gpu_baseline`].
pub open spec fn single_gpu_baseline_steps() -> Seq<Step> {
    single_gpu_baseline_column_steps()
        + single_gpu_baseline_tables_steps()
}

/// One device sorts, filters, removes duplicates and joins.
pub fn test_single_gpu_baseline() -> (script: Script)
    ensures
        script@ == crate::script::plan("test_single_gpu_baseline", single_gpu_baseline_steps()),
{
    let mut steps: Vec<Step> = single_gpu_baseline_column();
    let mut more = single_gpu_baseline_tables();
    steps.append(&mut more);
    Script::new("test_single_gpu_baseline", steps)
}

/// The steps of [`test_multi_gpu_detection`].
pub open spec fn multi_gpu_detection_steps() -> Seq<Step> {
    seq![
        several(0),
        attempt(Request::Devices { into: 1 }, Otherwise::Zero),
        fill(0, num(1000), ix()),
        upload(0, 0, note0("Buffer creation failed after detection: {}")),
        sort(0, 1, note0("Sort failed after detection: {}")),
        match_rows(1, num(1000), note1("Sort returned {} rows, expected 1000", reg(COUNT))),
        sync(note0("Sync failed: {}")),
    ]
}

/// The devices are counted, for information only, and the device works.
///
/// Whatever is said of several devices and of their number, the test passes where the device
/// works.
pub fn test_multi_gpu_detection() -> (script: Script)
    ensures
        script@ == crate::script::plan("test_multi_gpu_detection", multi_gpu_detection_steps()),
{
    let steps: Vec<Step> = vec![
        several(0),
        attempt(Request::Devices { into: 1 }, Otherwise::Zero),
        fill(0, num(1000), ix()),
        upload(0, 0, note0("Buffer creation failed after detection: {}")),
        sort(0, 1, note0("Sort failed after detection: {}")),
        match_rows(1, num(1000), note1("Sort returned {} rows, expected 1000", reg(COUNT))),
        sync(note0("Sync failed: {}")),
    ];
    Script::new("test_multi_gpu_detection", steps)
}

/// The steps of [`test_device_enumeration`].
pub open spec fn device_enumeration_steps() -> Seq<Step> {
    seq![
        devices(0, note0("Failed to get device count: {}")),
        skip(same_as(reg(0), num(0)), "No CUDA devices available"),
        check(lt(num(16), reg(0)), note1("Suspicious device count: {} (>16)", reg(0))),
        fill(0, num(1000), ix()),
        upload(0, 0, note1("Device {}: buffer creation failed: {}", num(0))),
        sort(0, 1, note1("Device {}: sort failed: {}", num(0))),
        match_rows(1, num(1000), note2("Device {}: sort returned {} rows", num(0), reg(COUNT))),
        release(0),
        devices(1, note0("Failed to get device count on second call: {}")),
        check(
            differs(reg(0), reg(1)),
            note2("Device count changed between calls: {} vs {}", reg(0), reg(1)),
        ),
        sync(note0("Sync failed: {}")),
    ]
}

/// The devices can be counted, and the first one works.
pub fn test_device_enumeration() -> (script: Script)
    ensures
        script@ == crate::script::plan("test_device_enumeration", device_enumeration_steps()),
{
    let steps: Vec<Step> = vec![
        devices(0, note0("Failed to get device count: {}")),
        skip(same_as(reg(0), num(0)), "No CUDA devices available"),
        check(lt(num(16), reg(0)), note1("Suspicious device count: {} (>16)", reg(0))),
        fill(0, num(1000), ix()),
        upload(0, 0, note1("Device {}: buffer creation failed: {}", num(0))),
        sort(0, 1, note1("Device {}: sort failed: {}", num(0))),
        match_rows(1, num(1000), note2("Device {}: sort returned {} rows", num(0), reg(COUNT))),
        release(0),
        devices(1, note0("Failed to get device count on second call: {}")),
        check(
            differs(reg(0), reg(1)),
            note2("Device count changed between calls: {} vs {}", reg(0), reg(1)),
        ),
        sync(note0("Sync failed: {}")),
    ];
    Script::new("test_device_enumeration", steps)
}

/// The large of [`test_primary_device_operations`].
pub open spec fn primary_device_operations_large_steps() -> Seq<Step> {
    seq![
        fill(
            0,
            num(500000),
            modulo(plus(times(ix(), num(1103515245)), num(12345)), num(10000000)),
        ),
        upload(0, 0, note0("Large buffer creation failed: {}")),
        sort(0, 1, note0("Large sort failed: {}")),
        fetch(1, 1, note0("Large download failed: {}")),
        scan(
            num(1),
            len(1),
            1000,
            fault1(lt(here(1), before(1)), note1("Large sort incorrect at index {}", ix())),
        ),
    ]
}

/// Writes the large of [`test_primary_device_operations`].
fn primary_device_operations_large() -> (steps: Vec<Step>)
    ensures
        steps@ == primary_device_operations_large_steps(),
{
    vec![
        fill(
            0,
            num(500000),
            modulo(plus(times(ix(), num(1103515245)), num(12345)), num(10000000)),
        ),
        upload(0, 0, note0("Large buffer creation failed: {}")),
        sort(0, 1, note0("Large sort failed: {}")),
        fetch(1, 1, note0("Large download failed: {}")),
        scan(
            num(1),
            len(1),
            1000,
            fault1(lt(here(1), before(1)), note1("Large sort incorrect at index {}", ix())),
        ),
    ]
}

/// The chain of [`test_primary_device_operations`].
pub open spec fn primary_device_operations_chain_steps() -> Seq<Step> {
    seq![
        fill(2, num(10000), modulo(ix(), num(1000))),
        upload(2, 2, note0("Chain buffer creation failed: {}")),
        sort(2, 3, note0("Chain step 1 failed: {}")),
        fetch(3, 3, note0("Chain step 1 download failed: {}")),
        fill(4, len(3), lt(here(3), num(500))),
        filter(3, 4, 4, note0("Chain step 2 failed: {}")),
        sort(4, 5, note0("Chain step 3 failed: {}")),
        fetch(5, 5, note0("Chain result download failed: {}")),
        scan(
            num(1),
            len(5),
            1,
            fault1(lt(here(5), before(5)), note1("Chain result not sorted at index {}", ix())),
        ),
        scan(
            num(0),
            len(5),
            1,
            fault1(
                not(lt(here(5), num(500))),
                note1("Chain result contains value {} >= 500", here(5)),
            ),
        ),
    ]
}

/// Writes the chain of [`test_primary_device_operations`].
fn primary_device_operations_chain() -> (steps: Vec<Step>)
    ensures
        steps@ == primary_device_operations_chain_steps(),
{
    vec![
        fill(2, num(10000), modulo(ix(), num(1000))),
        upload(2, 2, note0("Chain buffer creation failed: {}")),
        sort(2, 3, note0("Chain step 1 failed: {}")),
        fetch(3, 3, note0("Chain step 1 download failed: {}")),
        fill(4, len(3), lt(here(3), num(500))),
        filter(3, 4, 4, note0("Chain step 2 failed: {}")),
        sort(4, 5, note0("Chain step 3 failed: {}")),
        fetch(5, 5, note0("Chain result download failed: {}")),
        scan(
            num(1),
            len(5),
            1,
            fault1(lt(here(5), before(5)), note1("Chain result not sorted at index {}", ix())),
        ),
        scan(
            num(0),
            len(5),
            1,
            fault1(
                not(lt(here(5), num(500))),
                note1("Chain result contains value {} >= 500", here(5)),
            ),
        ),
    ]
}

/// One round of the buffers of [`test_primary_device_operations`].
pub open spec fn primary_device_operations_buffers_round(i: u64) -> Seq<Step> {
    seq![
        fill(6, num(5000), modulo(plus(ix(), times(num(i), num(5000))), num(10000))),
        upload(20, 6, note1("Multi buffer {} creation failed: {}", num(i))),
        sort(20, after(10, i), note1("Multi buffer {} sort failed: {}", num(i))),
        release(20),
    ]
}

/// Writes one round of the buffers of [`test_primary_device_operations`].
fn primary_device_operations_buffers(i: u64) -> (steps: Vec<Step>)
    requires
        i < 5,
    ensures
        steps@ == primary_device_operations_buffers_round(i),
{
    vec![
        fill(6, num(5000), modulo(plus(ix(), times(num(i), num(5000))), num(10000))),
        upload(20, 6, note1("Multi buffer {} creation failed: {}", num(i))),
        sort(20, after(10, i), note1("Multi buffer {} sort failed: {}", num(i))),
        release(20),
    ]
}

/// One round of the results of [`test_primary_device_operations`].
pub open spec fn primary_device_operations_results_round(i: u64) -> Seq<Step> {
    seq![
        fetch(after(10, i), 7, note1("Multi buffer {} download failed: {}", num(i))),
        scan(
            num(1),
            len(7),
            1,
            fault1(
                lt(here(7), before(7)),
                note2("Multi buffer {} not sorted at index {}", num(i), ix()),
            ),
        ),
    ]
}

/// Writes one round of the results of [`test_primary_device_operations`].
fn primary_device_operations_results(i: u64) -> (steps: Vec<Step>)
    requires
        i < 5,
    ensures
        steps@ == primary_device_operations_results_round(i),
{
    vec![
        fetch(after(10, i), 7, note1("Multi buffer {} download failed: {}", num(i))),
        scan(
            num(1),
            len(7),
            1,
            fault1(
                lt(here(7), before(7)),
                note2("Multi buffer {} not sorted at index {}", num(i), ix()),
            ),
        ),
    ]
}

/// The end of [`test_primary_device_operations`].
pub open spec fn primary_device_operations_end_steps() -> Seq<Step> {
    seq![
        sync(note0("Sync failed: {}")),
    ]
}

/// Writes the end of [`test_primary_device_operations`].
fn primary_device_operations_end() -> (steps: Vec<Step>)
    ensures
        steps@ == primary_device_operations_end_steps(),
{
    vec![
        sync(note0("Sync failed: {}")),
    ]
}

/// The steps of [`test_primary_device_operations`].
pub open spec fn primary_device_operations_steps() -> Seq<Step> {
    primary_device_operations_large_steps()
        + primary_device_operations_chain_steps()
        + crate::script::rounds(5, |i: int| primary_device_operations_buffers_round(i as u64))
        + crate::script::rounds(5, |i: int| primary_device_operations_results_round(i as u64))
        + primary_device_operations_end_steps()
}

/// The primary device sorts a large column, runs a chain, and keeps several buffers.
pub fn test_primary_device_operations() -> (script: Script)
    ensures
        script@ == crate::script::plan(
            "test_primary_device_operations",
            primary_device_operations_steps(),
        ),
{
    let mut steps: Vec<Step> = primary_device_operations_large();
    let mut more = primary_device_operations_chain();
    steps.append(&mut more);
    let mut i: u64 = 0;
    let ghost before = steps@;
    while i < 5
        invariant
            i <= 5,
            steps@ == before + crate::script::rounds(
                i as int,
                |i: int| primary_device_operations_buffers_round(i as u64),
            ),
        decreases 5 - i,
    {
        let mut round = primary_device_operations_buffers(i);
        steps.append(&mut round);
        i = i + 1;
    }
    i = 0;
    let ghost before = steps@;
    while i < 5
        invariant
            i <= 5,
            steps@ == before + crate::script::rounds(
                i as int,
                |i: int| primary_device_operations_results_round(i as u64),
            ),
        decreases 5 - i,
    {
        let mut round = primary_device_operations_results(i);
        steps.append(&mut round);
        i = i + 1;
    }
    let mut more = primary_device_operations_end();
    steps.append(&mut more);
    Script::new("test_primary_device_operations", steps)
}

/// The steps of [`test_device_capability_query`].
pub open spec fn device_capability_query_steps() -> Seq<Step> {
    seq![
        capability(0, 1, note0("Failed to query compute capability: {}")),
        check(
            or(lt(reg(0), num(2)), lt(num(12), reg(0))),
            note1("Suspicious compute capability major version: {}", reg(0)),
        ),
        check(
            lt(num(9), reg(1)),
            note1("Suspicious compute capability minor version: {}", reg(1)),
        ),
        budget(2),
        used(3),
        check(
            lt(reg(2), times(num(1024), num(1024))),
            note1("Memory budget too small: {} bytes", reg(2)),
        ),
        check(
            and(lt(reg(2), reg(3)), lt(num(0), reg(2))),
            note2("Memory used ({}) exceeds budget ({})", reg(3), reg(2)),
        ),
        put(
            4,
            pick(
                not(lt(reg(0), num(7))),
                num(100000),
                pick(not(lt(reg(0), num(5))), num(50000), num(10000)),
            ),
        ),
        fill(0, reg(4), modulo(wrap_plus(wrap_times(ix(), num(1103515245)), num(12345)), reg(4))),
        upload(0, 0, note2("Buffer creation failed for capability {}.{}: {}", reg(0), reg(1))),
        sort(0, 1, note2("Sort failed for capability {}.{}: {}", reg(0), reg(1))),
        fetch(1, 1, note2("Download failed for capability {}.{}: {}", reg(0), reg(1))),
        scan(
            num(1),
            len(1),
            1,
            fault1(
                lt(here(1), before(1)),
                note3("Sort incorrect at index {} for capability {}.{}", ix(), reg(0), reg(1)),
            ),
        ),
        several(5),
        attempt(Request::Devices { into: 6 }, Otherwise::Zero),
        check(
            or(
                and(differs(reg(5), num(0)), not(lt(num(1), reg(6)))),
                and(same_as(reg(5), num(0)), lt(num(1), reg(6))),
            ),
            remark2(
                "Multi-GPU detection inconsistent: multi_gpu={}, count={}",
                flag(reg(5)),
                val(reg(6)),
            ),
        ),
        sync(note0("Sync failed: {}")),
    ]
}

/// What the device says of itself is plausible, and it sorts accordingly.
pub fn test_device_capability_query() -> (script: Script)
    ensures
        script@ == crate::script::plan(
            "test_device_capability_query",
            device_capability_query_steps(),
        ),
{
    let steps: Vec<Step> = vec![
        capability(0, 1, note0("Failed to query compute capability: {}")),
        check(
            or(lt(reg(0), num(2)), lt(num(12), reg(0))),
            note1("Suspicious compute capability major version: {}", reg(0)),
        ),
        check(
            lt(num(9), reg(1)),
            note1("Suspicious compute capability minor version: {}", reg(1)),
        ),
        budget(2),
        used(3),
        check(
            lt(reg(2), times(num(1024), num(1024))),
            note1("Memory budget too small: {} bytes", reg(2)),
        ),
        check(
            and(lt(reg(2), reg(3)), lt(num(0), reg(2))),
            note2("Memory used ({}) exceeds budget ({})", reg(3), reg(2)),
        ),
        put(
            4,
            pick(
                not(lt(reg(0), num(7))),
                num(100000),
                pick(not(lt(reg(0), num(5))), num(50000), num(10000)),
            ),
        ),
        fill(0, reg(4), modulo(wrap_plus(wrap_times(ix(), num(1103515245)), num(12345)), reg(4))),
        upload(0, 0, note2("Buffer creation failed for capability {}.{}: {}", reg(0), reg(1))),
        sort(0, 1, note2("Sort failed for capability {}.{}: {}", reg(0), reg(1))),
        fetch(1, 1, note2("Download failed for capability {}.{}: {}", reg(0), reg(1))),
        scan(
            num(1),
            len(1),
            1,
            fault1(
                lt(here(1), before(1)),
                note3("Sort incorrect at index {} for capability {}.{}", ix(), reg(0), reg(1)),
            ),
        ),
        several(5),
        attempt(Request::Devices { into: 6 }, Otherwise::Zero),
        check(
            or(
                and(differs(reg(5), num(0)), not(lt(num(1), reg(6)))),
                and(same_as(reg(5), num(0)), lt(num(1), reg(6))),
            ),
            remark2(
                "Multi-GPU detection inconsistent: multi_gpu={}, count={}",
                flag(reg(5)),
                val(reg(6)),
            ),
        ),
        sync(note0("Sync failed: {}")),
    ];
    Script::new("test_device_capability_query", steps)
}

/// The tests of the category.
pub open spec fn tests() -> Seq<Plan> {
    seq![
        crate::script::plan("test_single_gpu_baseline", single_gpu_baseline_steps()),
        crate::script::plan("test_multi_gpu_detection", multi_gpu_detection_steps()),
        crate::script::plan("test_device_enumeration", device_enumeration_steps()),
        crate::script::plan("test_primary_device_operations", primary_device_operations_steps()),
        crate::script::plan("test_device_capability_query", device_capability_query_steps()),
    ]
}

/// Lists the tests of the category, in the order in which they run.
pub fn run_all() -> (category: CategoryRun)
    ensures
        category.title() == "c20_multi_gpu",
        category.waiting() == tests(),
        category.test() is None,
        category.run() is None,
        category.done() == Seq::<Outcome>::empty(),
{
    let scripts: Vec<Script> = vec![
        test_single_gpu_baseline(),
        test_multi_gpu_detection(),
        test_device_enumeration(),
        test_primary_device_operations(),
        test_device_capability_query(),
    ];
    let category = CategoryRun::new("c20_multi_gpu", scripts);
    assert(category.waiting() =~= tests());
    category
}

} // verus!
