//! Local memory: deep sort keys, repeated operations and chains of filters.

use vstd::prelude::*;
use crate::expr::{
    alike, and, at, before, differs, distinct_in, here, ix, least, len, lt, minus, modulo, not, num,
    or, over, reg, same_as, times,
};
use crate::harness::{CategoryRun, Outcome};
use crate::message::{note0, note1, note2, note3, note5};
use crate::scalar::Scalar;
use crate::script::{
    check, download, fault1, fetch, fill, filter, Layout, only, Plan, release, rows_known, scan,
    Script, sort, sort_by, Step, sync, upload, upload_table,
};

verus! {

/// Sizes that jump up and down.
pub const WORKLOADS: [u64; 8] = [10, 100000, 100, 50000, 50, 200000, 1000, 10000];

/// Small sizes.
pub const SMALL_SIZES: [u64; 5] = [64, 128, 256, 512, 1024];

/// The steps of [`test_deep_sort_keys`].
pub open spec fn deep_sort_keys_steps() -> Seq<Step> {
    seq![
        fill(0, num(10000), over(minus(num(9999), ix()), num(1000))),
        fill(1, num(10000), over(modulo(minus(num(9999), ix()), num(1000)), num(100))),
        fill(2, num(10000), over(modulo(minus(num(9999), ix()), num(100)), num(10))),
        fill(3, num(10000), modulo(minus(num(9999), ix()), num(10))),
        fill(4, num(10000), minus(num(9999), ix())),
        upload_table(0, Layout::FourKeys, 0, note0("Failed to create buffer: {}")),
        sort_by(0, 4, 1, note0("Sort with 4 key columns failed: {}")),
        rows_known(1, 0),
        check(
            differs(reg(0), num(10000)),
            note2("Sort returned {} rows, expected {}", reg(0), num(10000)),
        ),
        fetch(1, 5, note0("Failed to download k1: {}")),
        download(1, 1, Scalar::U32, 6, note0("Failed to download k2: {}")),
        download(1, 4, Scalar::U32, 7, note0("Failed to download val: {}")),
        scan(
            num(1),
            num(10000),
            1,
            fault1(
                and(
                    not(lt(before(6), num(0))),
                    and(
                        not(lt(here(6), num(0))),
                        or(
                            lt(here(5), before(5)),
                            and(same_as(here(5), before(5)), lt(here(6), before(6))),
                        ),
                    ),
                ),
                note5(
                    "Sort order incorrect at {}: ({},{}) > ({},{})",
                    ix(),
                    before(5),
                    before(6),
                    here(5),
                    here(6),
                ),
            ),
        ),
        check(
            differs(distinct_in(7), num(10000)),
            note2(
                "Lost values during sort: {} unique values, expected {}",
                distinct_in(7),
                num(10000),
            ),
        ),
        sync(note0("Sync failed: {}")),
    ]
}

/// A sort by four keys keeps the rows in order and loses none.
pub fn test_deep_sort_keys() -> (script: Script)
    ensures
        script@ == crate::script::plan("test_deep_sort_keys", deep_sort_keys_steps()),
{
    let steps: Vec<Step> = vec![
        fill(0, num(10000), over(minus(num(9999), ix()), num(1000))),
        fill(1, num(10000), over(modulo(minus(num(9999), ix()), num(1000)), num(100))),
        fill(2, num(10000), over(modulo(minus(num(9999), ix()), num(100)), num(10))),
        fill(3, num(10000), modulo(minus(num(9999), ix()), num(10))),
        fill(4, num(10000), minus(num(9999), ix())),
        upload_table(0, Layout::FourKeys, 0, note0("Failed to create buffer: {}")),
        sort_by(0, 4, 1, note0("Sort with 4 key columns failed: {}")),
        rows_known(1, 0),
        check(
            differs(reg(0), num(10000)),
            note2("Sort returned {} rows, expected {}", reg(0), num(10000)),
        ),
        fetch(1, 5, note0("Failed to download k1: {}")),
        download(1, 1, Scalar::U32, 6, note0("Failed to download k2: {}")),
        download(1, 4, Scalar::U32, 7, note0("Failed to download val: {}")),
        scan(
            num(1),
            num(10000),
            1,
            fault1(
                and(
                    not(lt(before(6), num(0))),
                    and(
                        not(lt(here(6), num(0))),
                        or(
                            lt(here(5), before(5)),
                            and(same_as(here(5), before(5)), lt(here(6), before(6))),
                        ),
                    ),
                ),
                note5(
                    "Sort order incorrect at {}: ({},{}) > ({},{})",
                    ix(),
                    before(5),
                    before(6),
                    here(5),
                    here(6),
                ),
            ),
        ),
        check(
            differs(distinct_in(7), num(10000)),
            note2(
                "Lost values during sort: {} unique values, expected {}",
                distinct_in(7),
                num(10000),
            ),
        ),
        sync(note0("Sync failed: {}")),
    ];
    Script::new("test_deep_sort_keys", steps)
}

/// The start of [`test_repeated_operations`].
pub open spec fn repeated_operations_start_steps() -> Seq<Step> {
    seq![
        fill(0, num(5000), ix()),
        upload(0, 0, note0("Failed to create buffer: {}")),
    ]
}

/// Writes the start of [`test_repeated_operations`].
fn repeated_operations_start() -> (steps: Vec<Step>)
    ensures
        steps@ == repeated_operations_start_steps(),
{
    vec![
        fill(0, num(5000), ix()),
        upload(0, 0, note0("Failed to create buffer: {}")),
    ]
}

/// One round of the sorts of [`test_repeated_operations`].
pub open spec fn repeated_operations_sorts_round(i: u64) -> Seq<Step> {
    seq![
        sort(0, 1, note1("Sort failed at iteration {}: {}", num(i))),
        rows_known(1, 0),
        check(
            differs(reg(0), num(5000)),
            note3("Iteration {}: sort returned {} rows, expected {}", num(i), reg(0), num(5000)),
        ),
        only(
            same_as(modulo(num(i), num(5)), num(0)),
            fetch(1, 1, note1("Iteration {}: failed to download: {}", num(i))),
        ),
        only(
            same_as(modulo(num(i), num(5)), num(0)),
            check(not(alike(1, 0)), note1("Iteration {}: data corrupted", num(i))),
        ),
        release(1),
    ]
}

/// Writes one round of the sorts of [`test_repeated_operations`].
fn repeated_operations_sorts(i: u64) -> (steps: Vec<Step>)
    requires
        i < 20,
    ensures
        steps@ == repeated_operations_sorts_round(i),
{
    vec![
        sort(0, 1, note1("Sort failed at iteration {}: {}", num(i))),
        rows_known(1, 0),
        check(
            differs(reg(0), num(5000)),
            note3("Iteration {}: sort returned {} rows, expected {}", num(i), reg(0), num(5000)),
        ),
        only(
            same_as(modulo(num(i), num(5)), num(0)),
            fetch(1, 1, note1("Iteration {}: failed to download: {}", num(i))),
        ),
        only(
            same_as(modulo(num(i), num(5)), num(0)),
            check(not(alike(1, 0)), note1("Iteration {}: data corrupted", num(i))),
        ),
        release(1),
    ]
}

/// One round of the filters of [`test_repeated_operations`].
pub open spec fn repeated_operations_filters_round(i: u64) -> Seq<Step> {
    seq![
        fill(1, num(5000), same_as(modulo(ix(), num(2)), num(0))),
        filter(0, 1, 1, note1("Filter failed at iteration {}: {}", num(i))),
        rows_known(1, 0),
        check(
            differs(reg(0), num(2500)),
            note3(
                "Filter iteration {}: returned {} rows, expected {}",
                num(i),
                reg(0),
                num(2500),
            ),
        ),
        release(1),
    ]
}

/// Writes one round of the filters of [`test_repeated_operations`].
fn repeated_operations_filters(i: u64) -> (steps: Vec<Step>)
    requires
        i < 20,
    ensures
        steps@ == repeated_operations_filters_round(i),
{
    vec![
        fill(1, num(5000), same_as(modulo(ix(), num(2)), num(0))),
        filter(0, 1, 1, note1("Filter failed at iteration {}: {}", num(i))),
        rows_known(1, 0),
        check(
            differs(reg(0), num(2500)),
            note3(
                "Filter iteration {}: returned {} rows, expected {}",
                num(i),
                reg(0),
                num(2500),
            ),
        ),
        release(1),
    ]
}

/// The end of [`test_repeated_operations`].
pub open spec fn repeated_operations_end_steps() -> Seq<Step> {
    seq![
        sync(note0("Sync failed: {}")),
    ]
}

/// Writes the end of [`test_repeated_operations`].
fn repeated_operations_end() -> (steps: Vec<Step>)
    ensures
        steps@ == repeated_operations_end_steps(),
{
    vec![
        sync(note0("Sync failed: {}")),
    ]
}

/// The steps of [`test_repeated_operations`].
pub open spec fn repeated_operations_steps() -> Seq<Step> {
    repeated_operations_start_steps()
        + crate::script::rounds(20, |i: int| repeated_operations_sorts_round(i as u64))
        + crate::script::rounds(20, |i: int| repeated_operations_filters_round(i as u64))
        + repeated_operations_end_steps()
}

/// Twenty sorts and twenty filters of one buffer give the same results.
pub fn test_repeated_operations() -> (script: Script)
    ensures
        script@ == crate::script::plan("test_repeated_operations", repeated_operations_steps()),
{
    let mut steps: Vec<Step> = repeated_operations_start();
    let mut i: u64 = 0;
    let ghost before = steps@;
    while i < 20
        invariant
            i <= 20,
            steps@ == before + crate::script::rounds(
                i as int,
                |i: int| repeated_operations_sorts_round(i as u64),
            ),
        decreases 20 - i,
    {
        let mut round = repeated_operations_sorts(i);
        steps.append(&mut round);
        i = i + 1;
    }
    i = 0;
    let ghost before = steps@;
    while i < 20
        invariant
            i <= 20,
            steps@ == before + crate::script::rounds(
                i as int,
                |i: int| repeated_operations_filters_round(i as u64),
            ),
        decreases 20 - i,
    {
        let mut round = repeated_operations_filters(i);
        steps.append(&mut round);
        i = i + 1;
    }
    let mut more = repeated_operations_end();
    steps.append(&mut more);
    Script::new("test_repeated_operations", steps)
}

/// One round of the sizes of [`test_variable_workload`].
pub open spec fn variable_workload_sizes_round(i: u64) -> Seq<Step> {
    let n = WORKLOADS@[i as int];
    seq![
        fill(0, num(n), minus(minus(num(n), num(1)), ix())),
        upload(0, 0, note2("Test {}: failed to create buffer of size {}: {}", num(i), num(n))),
        sort(0, 1, note2("Test {}: sort of size {} failed: {}", num(i), num(n))),
        rows_known(1, 0),
        check(
            differs(reg(0), num(n)),
            note3("Test {}: size {} returned {} rows", num(i), num(n), reg(0)),
        ),
        fetch(1, 1, note1("Test {}: failed to download: {}", num(i))),
        check(
            differs(at(1, num(0)), num(0)),
            note2("Test {}: first element is {}, expected 0", num(i), at(1, num(0))),
        ),
        check(
            differs(at(1, minus(num(n), num(1))), minus(num(n), num(1))),
            note3(
                "Test {}: last element is {}, expected {}",
                num(i),
                at(1, minus(num(n), num(1))),
                minus(num(n), num(1)),
            ),
        ),
        release(0),
    ]
}

/// Writes one round of the sizes of [`test_variable_workload`].
fn variable_workload_sizes(i: u64) -> (steps: Vec<Step>)
    requires
        i < 8,
    ensures
        steps@ == variable_workload_sizes_round(i),
{
    let n: u64 = WORKLOADS[i as usize];
    vec![
        fill(0, num(n), minus(minus(num(n), num(1)), ix())),
        upload(0, 0, note2("Test {}: failed to create buffer of size {}: {}", num(i), num(n))),
        sort(0, 1, note2("Test {}: sort of size {} failed: {}", num(i), num(n))),
        rows_known(1, 0),
        check(
            differs(reg(0), num(n)),
            note3("Test {}: size {} returned {} rows", num(i), num(n), reg(0)),
        ),
        fetch(1, 1, note1("Test {}: failed to download: {}", num(i))),
        check(
            differs(at(1, num(0)), num(0)),
            note2("Test {}: first element is {}, expected 0", num(i), at(1, num(0))),
        ),
        check(
            differs(at(1, minus(num(n), num(1))), minus(num(n), num(1))),
            note3(
                "Test {}: last element is {}, expected {}",
                num(i),
                at(1, minus(num(n), num(1))),
                minus(num(n), num(1)),
            ),
        ),
        release(0),
    ]
}

/// The end of [`test_variable_workload`].
pub open spec fn variable_workload_end_steps() -> Seq<Step> {
    seq![
        sync(note0("Sync failed: {}")),
    ]
}

/// Writes the end of [`test_variable_workload`].
fn variable_workload_end() -> (steps: Vec<Step>)
    ensures
        steps@ == variable_workload_end_steps(),
{
    vec![
        sync(note0("Sync failed: {}")),
    ]
}

/// The steps of [`test_variable_workload`].
pub open spec fn variable_workload_steps() -> Seq<Step> {
    crate::script::rounds(8, |i: int| variable_workload_sizes_round(i as u64))
        + variable_workload_end_steps()
}

/// Sizes that jump up and down do not disturb each other.
pub fn test_variable_workload() -> (script: Script)
    ensures
        script@ == crate::script::plan("test_variable_workload", variable_workload_steps()),
{
    let mut steps: Vec<Step> = Vec::new();
    let mut i: u64 = 0;
    while i < 8
        invariant
            i <= 8,
            steps@ == crate::script::rounds(
                i as int,
                |i: int| variable_workload_sizes_round(i as u64),
            ),
        decreases 8 - i,
    {
        let mut round = variable_workload_sizes(i);
        steps.append(&mut round);
        i = i + 1;
    }
    let mut more = variable_workload_end();
    steps.append(&mut more);
    Script::new("test_variable_workload", steps)
}

/// The steps of [`test_complex_filter_chains`].
pub open spec fn complex_filter_chains_steps() -> Seq<Step> {
    seq![
        fill(0, num(100000), ix()),
        upload(0, 0, note0("Failed to create buffer: {}")),
        fill(1, num(100000), same_as(modulo(ix(), num(2)), num(0))),
        filter(0, 1, 1, note0("Filter 1 failed: {}")),
        rows_known(1, 0),
        check(
            differs(reg(0), num(50000)),
            note2("Filter 1: returned {} rows, expected {}", reg(0), num(50000)),
        ),
        fill(1, num(50000), same_as(modulo(ix(), num(4)), num(0))),
        filter(1, 1, 2, note0("Filter 2 failed: {}")),
        rows_known(2, 0),
        check(
            differs(reg(0), num(12500)),
            note2("Filter 2: returned {} rows, expected {}", reg(0), num(12500)),
        ),
        fill(1, num(12500), same_as(modulo(ix(), num(5)), num(0))),
        filter(2, 1, 3, note0("Filter 3 failed: {}")),
        rows_known(3, 0),
        check(
            differs(reg(0), num(2500)),
            note2("Filter 3: returned {} rows, expected {}", reg(0), num(2500)),
        ),
        fetch(3, 2, note0("Failed to download final result: {}")),
        scan(
            num(0),
            least(num(5), len(2)),
            1,
            fault1(
                differs(here(2), times(ix(), num(40))),
                note3("Final result[{}] = {}, expected {}", ix(), here(2), times(ix(), num(40))),
            ),
        ),
        sync(note0("Sync failed: {}")),
    ]
}

/// Three filters in a row keep every fortieth row.
pub fn test_complex_filter_chains() -> (script: Script)
    ensures
        script@ == crate::script::plan("test_complex_filter_chains", complex_filter_chains_steps()),
{
    let steps: Vec<Step> = vec![
        fill(0, num(100000), ix()),
        upload(0, 0, note0("Failed to create buffer: {}")),
        fill(1, num(100000), same_as(modulo(ix(), num(2)), num(0))),
        filter(0, 1, 1, note0("Filter 1 failed: {}")),
        rows_known(1, 0),
        check(
            differs(reg(0), num(50000)),
            note2("Filter 1: returned {} rows, expected {}", reg(0), num(50000)),
        ),
        fill(1, num(50000), same_as(modulo(ix(), num(4)), num(0))),
        filter(1, 1, 2, note0("Filter 2 failed: {}")),
        rows_known(2, 0),
        check(
            differs(reg(0), num(12500)),
            note2("Filter 2: returned {} rows, expected {}", reg(0), num(12500)),
        ),
        fill(1, num(12500), same_as(modulo(ix(), num(5)), num(0))),
        filter(2, 1, 3, note0("Filter 3 failed: {}")),
        rows_known(3, 0),
        check(
            differs(reg(0), num(2500)),
            note2("Filter 3: returned {} rows, expected {}", reg(0), num(2500)),
        ),
        fetch(3, 2, note0("Failed to download final result: {}")),
        scan(
            num(0),
            least(num(5), len(2)),
            1,
            fault1(
                differs(here(2), times(ix(), num(40))),
                note3("Final result[{}] = {}, expected {}", ix(), here(2), times(ix(), num(40))),
            ),
        ),
        sync(note0("Sync failed: {}")),
    ];
    Script::new("test_complex_filter_chains", steps)
}

/// One round of the rounds of [`test_local_memory_stress`].
pub open spec fn local_memory_stress_rounds_round(i: u64) -> Seq<Step> {
    let k = i / 5;
    let n = SMALL_SIZES@[(i % 5) as int];
    seq![
        fill(0, num(n), minus(minus(num(n), num(1)), ix())),
        upload(0, 0, note2("Iter {}, size {}: buffer creation failed: {}", num(k), num(n))),
        sort(0, 1, note2("Iter {}, size {}: sort failed: {}", num(k), num(n))),
        rows_known(1, 0),
        check(
            differs(reg(0), num(n)),
            note3("Iter {}, size {}: wrong row count {}", num(k), num(n), reg(0)),
        ),
        fill(1, num(n), lt(ix(), over(num(n), num(2)))),
        filter(1, 1, 2, note2("Iter {}, size {}: filter failed: {}", num(k), num(n))),
        rows_known(2, 0),
        check(
            differs(reg(0), over(num(n), num(2))),
            note3("Iter {}, size {}: filter returned {} rows", num(k), num(n), reg(0)),
        ),
        release(0),
        only(
            and(
                same_as(modulo(num(i), num(5)), num(4)),
                same_as(modulo(num(k), num(10)), num(9)),
            ),
            sync(note1("Sync failed at iteration {}: {}", num(k))),
        ),
    ]
}

/// Writes one round of the rounds of [`test_local_memory_stress`].
fn local_memory_stress_rounds(i: u64) -> (steps: Vec<Step>)
    requires
        i < 250,
    ensures
        steps@ == local_memory_stress_rounds_round(i),
{
    let k: u64 = i / 5;
    let n: u64 = SMALL_SIZES[(i % 5) as usize];
    vec![
        fill(0, num(n), minus(minus(num(n), num(1)), ix())),
        upload(0, 0, note2("Iter {}, size {}: buffer creation failed: {}", num(k), num(n))),
        sort(0, 1, note2("Iter {}, size {}: sort failed: {}", num(k), num(n))),
        rows_known(1, 0),
        check(
            differs(reg(0), num(n)),
            note3("Iter {}, size {}: wrong row count {}", num(k), num(n), reg(0)),
        ),
        fill(1, num(n), lt(ix(), over(num(n), num(2)))),
        filter(1, 1, 2, note2("Iter {}, size {}: filter failed: {}", num(k), num(n))),
        rows_known(2, 0),
        check(
            differs(reg(0), over(num(n), num(2))),
            note3("Iter {}, size {}: filter returned {} rows", num(k), num(n), reg(0)),
        ),
        release(0),
        only(
            and(
                same_as(modulo(num(i), num(5)), num(4)),
                same_as(modulo(num(k), num(10)), num(9)),
            ),
            sync(note1("Sync failed at iteration {}: {}", num(k))),
        ),
    ]
}

/// The end of [`test_local_memory_stress`].
pub open spec fn local_memory_stress_end_steps() -> Seq<Step> {
    seq![
        sync(note0("Final sync failed: {}")),
    ]
}

/// Writes the end of [`test_local_memory_stress`].
fn local_memory_stress_end() -> (steps: Vec<Step>)
    ensures
        steps@ == local_memory_stress_end_steps(),
{
    vec![
        sync(note0("Final sync failed: {}")),
    ]
}

/// The steps of [`test_local_memory_stress`].
pub open spec fn local_memory_stress_steps() -> Seq<Step> {
    crate::script::rounds(250, |i: int| local_memory_stress_rounds_round(i as u64))
        + local_memory_stress_end_steps()
}

/// Many small sorts and filters in a row.
pub fn test_local_memory_stress() -> (script: Script)
    ensures
        script@ == crate::script::plan("test_local_memory_stress", local_memory_stress_steps()),
{
    let mut steps: Vec<Step> = Vec::new();
    let mut i: u64 = 0;
    while i < 250
        invariant
            i <= 250,
            steps@ == crate::script::rounds(
                i as int,
                |i: int| local_memory_stress_rounds_round(i as u64),
            ),
        decreases 250 - i,
    {
        let mut round = local_memory_stress_rounds(i);
        steps.append(&mut round);
        i = i + 1;
    }
    let mut more = local_memory_stress_end();
    steps.append(&mut more);
    Script::new("test_local_memory_stress", steps)
}

/// The tests of the category.
pub open spec fn tests() -> Seq<Plan> {
    seq![
        crate::script::plan("test_deep_sort_keys", deep_sort_keys_steps()),
        crate::script::plan("test_repeated_operations", repeated_operations_steps()),
        crate::script::plan("test_variable_workload", variable_workload_steps()),
        crate::script::plan("test_complex_filter_chains", complex_filter_chains_steps()),
        crate::script::plan("test_local_memory_stress", local_memory_stress_steps()),
    ]
}

/// Lists the tests of the category, in the order in which they run.
pub fn run_all() -> (category: CategoryRun)
    ensures
        category.title() == "c07_local_memory",
        category.waiting() == tests(),
        category.test() is None,
        category.run() is None,
        category.done() == Seq::<Outcome>::empty(),
{
    let scripts: Vec<Script> = vec![
        test_deep_sort_keys(),
        test_repeated_operations(),
        test_variable_workload(),
        test_complex_filter_chains(),
        test_local_memory_stress(),
    ];
    let category = CategoryRun::new("c07_local_memory", scripts);
    assert(category.waiting() =~= tests());
    category
}

} // verus!
