//! Launch configurations: how kernels cope with empty, tiny, odd and very large grids.

use vstd::prelude::*;
use crate::expr::{and, at, differs, here, ix, len, lt, minus, modulo, num, or, reg, same_as, times};
use crate::harness::{CategoryRun, Outcome};
use crate::message::{list, note0, note1, note2, note3, note4, remark1};
use crate::scalar::Scalar;
use crate::script::{
    check, COUNT, create_empty, fault1, fetch, fill, filter, Layout, match_rows, only, Plan,
    release, sample, scan, Script, sort, Step, sync, upload, zeroed,
};

verus! {

/// Sizes around multiples of a warp.
pub const WARP_SIZES: [u64; 12] = [31, 32, 33, 63, 64, 65, 95, 96, 97, 127, 128, 129];

/// Sizes around multiples of a block.
pub const BLOCK_SIZES: [u64; 12] = [
    255, 256, 257, 511, 512, 513, 767, 768, 769, 1023, 1024, 1025,
];

/// Sizes that are no powers of two.
pub const PRIME_SIZES: [u64; 12] = [7, 11, 13, 17, 19, 23, 29, 31, 37, 41, 43, 47];

/// Places to look at in a large column.
pub const SAMPLE_PLACES: [u64; 10] = [
    0, 100, 1000, 10000, 100000, 250000, 500000, 750000, 900000, 999999,
];

/// Places of a sorted column, in rising order.
pub const RISING_PLACES: [u64; 7] = [0, 100000, 500000, 1000000, 5000000, 9000000, 9999999];

/// Numbers of variables, and of samples, around warps and blocks.
pub const SAMPLING_COUNTS: [u64; 8] = [0, 1, 31, 32, 33, 255, 256, 257];

/// A falling column of `n` rows comes back sorted.
pub open spec fn sorted_size_steps(n: u64) -> Seq<Step> {
    seq![
        fill(0, num(n), minus(minus(num(n), num(1)), ix())),
        upload(0, 0, note1("Failed to create buffer of size {}: {}", num(n))),
        sort(0, 1, note1("Sort failed for size {}: {}", num(n))),
        match_rows(
            1,
            num(n),
            note3("Size {}: sort returned {} rows, expected {}", num(n), reg(COUNT), num(n)),
        ),
        fetch(1, 1, note1("Size {}: failed to download sorted column: {}", num(n))),
        scan(
            num(0),
            len(1),
            1,
            fault1(
                differs(here(1), ix()),
                note4("Size {}: sorted[{}] = {}, expected {}", num(n), ix(), here(1), ix()),
            ),
        ),
        release(0),
    ]
}

/// Writes [`sorted_size_steps`].
pub fn sorted_size(n: u64) -> (steps: Vec<Step>)
    ensures
        steps@ == sorted_size_steps(n),
{
    vec![
        fill(0, num(n), minus(minus(num(n), num(1)), ix())),
        upload(0, 0, note1("Failed to create buffer of size {}: {}", num(n))),
        sort(0, 1, note1("Sort failed for size {}: {}", num(n))),
        match_rows(
            1,
            num(n),
            note3("Size {}: sort returned {} rows, expected {}", num(n), reg(COUNT), num(n)),
        ),
        fetch(1, 1, note1("Size {}: failed to download sorted column: {}", num(n))),
        scan(
            num(0),
            len(1),
            1,
            fault1(
                differs(here(1), ix()),
                note4("Size {}: sorted[{}] = {}, expected {}", num(n), ix(), here(1), ix()),
            ),
        ),
        release(0),
    ]
}

/// The steps of [`test_zero_elements_no_launch`].
pub open spec fn zero_elements_no_launch_steps() -> Seq<Step> {
    seq![
        create_empty(0, Layout::Val, Scalar::U32, note0("Failed to create empty buffer: {}")),
        match_rows(0, num(0), note1("Empty buffer has {} rows, expected 0", reg(COUNT))),
        sort(0, 1, note0("Sort of empty buffer failed: {}")),
        match_rows(
            1,
            num(0),
            note1("Sort of empty buffer returned {} rows, expected 0", reg(COUNT)),
        ),
        release(1),
        fill(0, num(0), num(1)),
        filter(0, 0, 1, note0("Filter of empty buffer failed: {}")),
        match_rows(
            1,
            num(0),
            note1("Filter of empty buffer returned {} rows, expected 0", reg(COUNT)),
        ),
        release(1),
        sync(note0("Sync failed: {}")),
    ]
}

/// Operations on a buffer without rows give buffers without rows.
pub fn test_zero_elements_no_launch() -> (script: Script)
    ensures
        script@ == crate::script::plan("zero_elements_no_launch", zero_elements_no_launch_steps()),
{
    let steps: Vec<Step> = vec![
        create_empty(0, Layout::Val, Scalar::U32, note0("Failed to create empty buffer: {}")),
        match_rows(0, num(0), note1("Empty buffer has {} rows, expected 0", reg(COUNT))),
        sort(0, 1, note0("Sort of empty buffer failed: {}")),
        match_rows(
            1,
            num(0),
            note1("Sort of empty buffer returned {} rows, expected 0", reg(COUNT)),
        ),
        release(1),
        fill(0, num(0), num(1)),
        filter(0, 0, 1, note0("Filter of empty buffer failed: {}")),
        match_rows(
            1,
            num(0),
            note1("Filter of empty buffer returned {} rows, expected 0", reg(COUNT)),
        ),
        release(1),
        sync(note0("Sync failed: {}")),
    ];
    Script::new("zero_elements_no_launch", steps)
}

/// The steps of [`test_single_element`].
pub open spec fn single_element_steps() -> Seq<Step> {
    seq![
        fill(0, num(1), num(42)),
        upload(0, 0, note0("Failed to create single element buffer: {}")),
        match_rows(0, num(1), note1("Single element buffer has {} rows, expected 1", reg(COUNT))),
        sort(0, 1, note0("Sort of single element failed: {}")),
        match_rows(
            1,
            num(1),
            note1("Sort of single element returned {} rows, expected 1", reg(COUNT)),
        ),
        fetch(1, 1, note0("Failed to download sorted column: {}")),
        check(
            or(differs(len(1), num(1)), differs(at(1, num(0)), num(42))),
            remark1("Sort of single element returned {}, expected [42]", list(1, Scalar::U32)),
        ),
        fill(2, num(1), num(1)),
        filter(0, 2, 2, note0("Filter with mask=[1] failed: {}")),
        match_rows(
            2,
            num(1),
            note1("Filter with mask=[1] returned {} rows, expected 1", reg(COUNT)),
        ),
        fetch(2, 3, note0("Failed to download filtered column: {}")),
        check(
            or(differs(len(3), num(1)), differs(at(3, num(0)), num(42))),
            remark1("Filter with mask=[1] returned {}, expected [42]", list(3, Scalar::U32)),
        ),
        fill(4, num(1), num(0)),
        filter(0, 4, 3, note0("Filter with mask=[0] failed: {}")),
        match_rows(
            3,
            num(0),
            note1("Filter with mask=[0] returned {} rows, expected 0", reg(COUNT)),
        ),
        sync(note0("Sync failed: {}")),
    ]
}

/// A buffer of one row is sorted, kept and dropped.
pub fn test_single_element() -> (script: Script)
    ensures
        script@ == crate::script::plan("single_element", single_element_steps()),
{
    let steps: Vec<Step> = vec![
        fill(0, num(1), num(42)),
        upload(0, 0, note0("Failed to create single element buffer: {}")),
        match_rows(0, num(1), note1("Single element buffer has {} rows, expected 1", reg(COUNT))),
        sort(0, 1, note0("Sort of single element failed: {}")),
        match_rows(
            1,
            num(1),
            note1("Sort of single element returned {} rows, expected 1", reg(COUNT)),
        ),
        fetch(1, 1, note0("Failed to download sorted column: {}")),
        check(
            or(differs(len(1), num(1)), differs(at(1, num(0)), num(42))),
            remark1("Sort of single element returned {}, expected [42]", list(1, Scalar::U32)),
        ),
        fill(2, num(1), num(1)),
        filter(0, 2, 2, note0("Filter with mask=[1] failed: {}")),
        match_rows(
            2,
            num(1),
            note1("Filter with mask=[1] returned {} rows, expected 1", reg(COUNT)),
        ),
        fetch(2, 3, note0("Failed to download filtered column: {}")),
        check(
            or(differs(len(3), num(1)), differs(at(3, num(0)), num(42))),
            remark1("Filter with mask=[1] returned {}, expected [42]", list(3, Scalar::U32)),
        ),
        fill(4, num(1), num(0)),
        filter(0, 4, 3, note0("Filter with mask=[0] failed: {}")),
        match_rows(
            3,
            num(0),
            note1("Filter with mask=[0] returned {} rows, expected 0", reg(COUNT)),
        ),
        sync(note0("Sync failed: {}")),
    ];
    Script::new("single_element", steps)
}

/// The end of [`test_warp_boundary_sizes`].
pub open spec fn warp_boundary_sizes_end_steps() -> Seq<Step> {
    seq![
        sync(note0("Sync failed: {}")),
    ]
}

/// Writes the end of [`test_warp_boundary_sizes`].
fn warp_boundary_sizes_end() -> (steps: Vec<Step>)
    ensures
        steps@ == warp_boundary_sizes_end_steps(),
{
    vec![
        sync(note0("Sync failed: {}")),
    ]
}

/// The steps of [`test_warp_boundary_sizes`].
pub open spec fn warp_boundary_sizes_steps() -> Seq<Step> {
    crate::script::rounds(12, |i: int| sorted_size_steps(WARP_SIZES@[i]))
        + warp_boundary_sizes_end_steps()
}

/// Falling columns of sizes around warps come back sorted.
pub fn test_warp_boundary_sizes() -> (script: Script)
    ensures
        script@ == crate::script::plan("warp_boundary_sizes", warp_boundary_sizes_steps()),
{
    let mut steps: Vec<Step> = Vec::new();
    let mut i: u64 = 0;
    while i < 12
        invariant
            i <= 12,
            steps@ == crate::script::rounds(
                i as int,
                |i: int| sorted_size_steps(WARP_SIZES@[i]),
            ),
        decreases 12 - i,
    {
        let mut round = sorted_size(WARP_SIZES[i as usize]);
        steps.append(&mut round);
        i = i + 1;
    }
    let mut more = warp_boundary_sizes_end();
    steps.append(&mut more);
    Script::new("warp_boundary_sizes", steps)
}

/// The end of [`test_block_boundary_sizes`].
pub open spec fn block_boundary_sizes_end_steps() -> Seq<Step> {
    seq![
        sync(note0("Sync failed: {}")),
    ]
}

/// Writes the end of [`test_block_boundary_sizes`].
fn block_boundary_sizes_end() -> (steps: Vec<Step>)
    ensures
        steps@ == block_boundary_sizes_end_steps(),
{
    vec![
        sync(note0("Sync failed: {}")),
    ]
}

/// The steps of [`test_block_boundary_sizes`].
pub open spec fn block_boundary_sizes_steps() -> Seq<Step> {
    crate::script::rounds(12, |i: int| sorted_size_steps(BLOCK_SIZES@[i]))
        + block_boundary_sizes_end_steps()
}

/// Falling columns of sizes around blocks come back sorted.
pub fn test_block_boundary_sizes() -> (script: Script)
    ensures
        script@ == crate::script::plan("block_boundary_sizes", block_boundary_sizes_steps()),
{
    let mut steps: Vec<Step> = Vec::new();
    let mut i: u64 = 0;
    while i < 12
        invariant
            i <= 12,
            steps@ == crate::script::rounds(
                i as int,
                |i: int| sorted_size_steps(BLOCK_SIZES@[i]),
            ),
        decreases 12 - i,
    {
        let mut round = sorted_size(BLOCK_SIZES[i as usize]);
        steps.append(&mut round);
        i = i + 1;
    }
    let mut more = block_boundary_sizes_end();
    steps.append(&mut more);
    Script::new("block_boundary_sizes", steps)
}

/// The end of [`test_non_power_of_two_sizes`].
pub open spec fn non_power_of_two_sizes_end_steps() -> Seq<Step> {
    seq![
        sync(note0("Sync failed: {}")),
    ]
}

/// Writes the end of [`test_non_power_of_two_sizes`].
fn non_power_of_two_sizes_end() -> (steps: Vec<Step>)
    ensures
        steps@ == non_power_of_two_sizes_end_steps(),
{
    vec![
        sync(note0("Sync failed: {}")),
    ]
}

/// The steps of [`test_non_power_of_two_sizes`].
pub open spec fn non_power_of_two_sizes_steps() -> Seq<Step> {
    crate::script::rounds(12, |i: int| sorted_size_steps(PRIME_SIZES@[i]))
        + non_power_of_two_sizes_end_steps()
}

/// Falling columns of odd sizes come back sorted.
pub fn test_non_power_of_two_sizes() -> (script: Script)
    ensures
        script@ == crate::script::plan("non_power_of_two_sizes", non_power_of_two_sizes_steps()),
{
    let mut steps: Vec<Step> = Vec::new();
    let mut i: u64 = 0;
    while i < 12
        invariant
            i <= 12,
            steps@ == crate::script::rounds(
                i as int,
                |i: int| sorted_size_steps(PRIME_SIZES@[i]),
            ),
        decreases 12 - i,
    {
        let mut round = sorted_size(PRIME_SIZES[i as usize]);
        steps.append(&mut round);
        i = i + 1;
    }
    let mut more = non_power_of_two_sizes_end();
    steps.append(&mut more);
    Script::new("non_power_of_two_sizes", steps)
}

/// The start of [`test_large_grid_sizes`].
pub open spec fn large_grid_sizes_start_steps() -> Seq<Step> {
    seq![
        fill(0, num(1000000), minus(minus(num(1000000), num(1)), ix())),
        upload(0, 0, note1("Failed to create buffer of size {}: {}", num(1000000))),
        sort(0, 1, note1("Sort failed for size {}: {}", num(1000000))),
        match_rows(
            1,
            num(1000000),
            note2("Sort returned {} rows, expected {}", reg(COUNT), num(1000000)),
        ),
        fetch(1, 1, note0("Failed to download sorted column: {}")),
        check(
            differs(at(1, num(0)), num(0)),
            note1("First element is {}, expected 0", at(1, num(0))),
        ),
        check(
            differs(at(1, num(999999)), num(999999)),
            note2("Last element is {}, expected {}", at(1, num(999999)), num(999999)),
        ),
        check(
            differs(at(1, num(500000)), num(500000)),
            note3(
                "Middle element at {} is {}, expected {}",
                num(500000),
                at(1, num(500000)),
                num(500000),
            ),
        ),
    ]
}

/// Writes the start of [`test_large_grid_sizes`].
fn large_grid_sizes_start() -> (steps: Vec<Step>)
    ensures
        steps@ == large_grid_sizes_start_steps(),
{
    vec![
        fill(0, num(1000000), minus(minus(num(1000000), num(1)), ix())),
        upload(0, 0, note1("Failed to create buffer of size {}: {}", num(1000000))),
        sort(0, 1, note1("Sort failed for size {}: {}", num(1000000))),
        match_rows(
            1,
            num(1000000),
            note2("Sort returned {} rows, expected {}", reg(COUNT), num(1000000)),
        ),
        fetch(1, 1, note0("Failed to download sorted column: {}")),
        check(
            differs(at(1, num(0)), num(0)),
            note1("First element is {}, expected 0", at(1, num(0))),
        ),
        check(
            differs(at(1, num(999999)), num(999999)),
            note2("Last element is {}, expected {}", at(1, num(999999)), num(999999)),
        ),
        check(
            differs(at(1, num(500000)), num(500000)),
            note3(
                "Middle element at {} is {}, expected {}",
                num(500000),
                at(1, num(500000)),
                num(500000),
            ),
        ),
    ]
}

/// One round of the samples of [`test_large_grid_sizes`].
pub open spec fn large_grid_sizes_samples_round(i: u64) -> Seq<Step> {
    let p = SAMPLE_PLACES@[i as int];
    seq![
        check(
            differs(at(1, num(p)), num(p)),
            note3("Sample at index {}: got {}, expected {}", num(p), at(1, num(p)), num(p)),
        ),
    ]
}

/// Writes one round of the samples of [`test_large_grid_sizes`].
fn large_grid_sizes_samples(i: u64) -> (steps: Vec<Step>)
    requires
        i < 10,
    ensures
        steps@ == large_grid_sizes_samples_round(i),
{
    let p: u64 = SAMPLE_PLACES[i as usize];
    vec![
        check(
            differs(at(1, num(p)), num(p)),
            note3("Sample at index {}: got {}, expected {}", num(p), at(1, num(p)), num(p)),
        ),
    ]
}

/// The end of [`test_large_grid_sizes`].
pub open spec fn large_grid_sizes_end_steps() -> Seq<Step> {
    seq![
        sync(note0("Sync failed: {}")),
    ]
}

/// Writes the end of [`test_large_grid_sizes`].
fn large_grid_sizes_end() -> (steps: Vec<Step>)
    ensures
        steps@ == large_grid_sizes_end_steps(),
{
    vec![
        sync(note0("Sync failed: {}")),
    ]
}

/// The steps of [`test_large_grid_sizes`].
pub open spec fn large_grid_sizes_steps() -> Seq<Step> {
    large_grid_sizes_start_steps()
        + crate::script::rounds(10, |i: int| large_grid_sizes_samples_round(i as u64))
        + large_grid_sizes_end_steps()
}

/// A falling column of a million rows comes back sorted, at the places looked at.
pub fn test_large_grid_sizes() -> (script: Script)
    ensures
        script@ == crate::script::plan("large_grid_sizes", large_grid_sizes_steps()),
{
    let mut steps: Vec<Step> = large_grid_sizes_start();
    let mut i: u64 = 0;
    let ghost before = steps@;
    while i < 10
        invariant
            i <= 10,
            steps@ == before + crate::script::rounds(
                i as int,
                |i: int| large_grid_sizes_samples_round(i as u64),
            ),
        decreases 10 - i,
    {
        let mut round = large_grid_sizes_samples(i);
        steps.append(&mut round);
        i = i + 1;
    }
    let mut more = large_grid_sizes_end();
    steps.append(&mut more);
    Script::new("large_grid_sizes", steps)
}

/// The start of [`test_max_practical_size`].
pub open spec fn max_practical_size_start_steps() -> Seq<Step> {
    seq![
        fill(0, num(10000000), modulo(ix(), num(1000))),
        upload(0, 0, note1("Failed to create buffer of size {}: {}", num(10000000))),
        sort(0, 1, note1("Sort failed for size {}: {}", num(10000000))),
        match_rows(
            1,
            num(10000000),
            note2("Sort returned {} rows, expected {}", reg(COUNT), num(10000000)),
        ),
        fetch(1, 1, note0("Failed to download sorted column: {}")),
        check(
            differs(at(1, num(0)), num(0)),
            note1("First element is {}, expected 0", at(1, num(0))),
        ),
        check(
            differs(at(1, num(9999999)), num(999)),
            note1("Last element is {}, expected 999", at(1, num(9999999))),
        ),
    ]
}

/// Writes the start of [`test_max_practical_size`].
fn max_practical_size_start() -> (steps: Vec<Step>)
    ensures
        steps@ == max_practical_size_start_steps(),
{
    vec![
        fill(0, num(10000000), modulo(ix(), num(1000))),
        upload(0, 0, note1("Failed to create buffer of size {}: {}", num(10000000))),
        sort(0, 1, note1("Sort failed for size {}: {}", num(10000000))),
        match_rows(
            1,
            num(10000000),
            note2("Sort returned {} rows, expected {}", reg(COUNT), num(10000000)),
        ),
        fetch(1, 1, note0("Failed to download sorted column: {}")),
        check(
            differs(at(1, num(0)), num(0)),
            note1("First element is {}, expected 0", at(1, num(0))),
        ),
        check(
            differs(at(1, num(9999999)), num(999)),
            note1("Last element is {}, expected 999", at(1, num(9999999))),
        ),
    ]
}

/// One round of the samples of [`test_max_practical_size`].
pub open spec fn max_practical_size_samples_round(i: u64) -> Seq<Step> {
    let q = RISING_PLACES@[i as int];
    let p = RISING_PLACES@[(i + 1) as int];
    seq![
        check(
            lt(at(1, num(p)), at(1, num(q))),
            note3(
                "Data not sorted: index {} has {}, but prev was {}",
                num(p),
                at(1, num(p)),
                at(1, num(q)),
            ),
        ),
    ]
}

/// Writes one round of the samples of [`test_max_practical_size`].
fn max_practical_size_samples(i: u64) -> (steps: Vec<Step>)
    requires
        i < 6,
    ensures
        steps@ == max_practical_size_samples_round(i),
{
    let q: u64 = RISING_PLACES[i as usize];
    let p: u64 = RISING_PLACES[(i + 1) as usize];
    vec![
        check(
            lt(at(1, num(p)), at(1, num(q))),
            note3(
                "Data not sorted: index {} has {}, but prev was {}",
                num(p),
                at(1, num(p)),
                at(1, num(q)),
            ),
        ),
    ]
}

/// The end of [`test_max_practical_size`].
pub open spec fn max_practical_size_end_steps() -> Seq<Step> {
    seq![
        check(
            and(differs(at(1, num(10000)), num(1)), differs(at(1, num(10000)), num(0))),
            note2("Expected value 0 or 1 at position {}, got {}", num(10000), at(1, num(10000))),
        ),
        sync(note0("Sync failed: {}")),
    ]
}

/// Writes the end of [`test_max_practical_size`].
fn max_practical_size_end() -> (steps: Vec<Step>)
    ensures
        steps@ == max_practical_size_end_steps(),
{
    vec![
        check(
            and(differs(at(1, num(10000)), num(1)), differs(at(1, num(10000)), num(0))),
            note2("Expected value 0 or 1 at position {}, got {}", num(10000), at(1, num(10000))),
        ),
        sync(note0("Sync failed: {}")),
    ]
}

/// The steps of [`test_max_practical_size`].
pub open spec fn max_practical_size_steps() -> Seq<Step> {
    max_practical_size_start_steps()
        + crate::script::rounds(6, |i: int| max_practical_size_samples_round(i as u64))
        + max_practical_size_end_steps()
}

/// Ten million rows of a thousand values come back sorted, at the places looked at.
pub fn test_max_practical_size() -> (script: Script)
    ensures
        script@ == crate::script::plan("max_practical_size", max_practical_size_steps()),
{
    let mut steps: Vec<Step> = max_practical_size_start();
    let mut i: u64 = 0;
    let ghost before = steps@;
    while i < 6
        invariant
            i <= 6,
            steps@ == before + crate::script::rounds(
                i as int,
                |i: int| max_practical_size_samples_round(i as u64),
            ),
        decreases 6 - i,
    {
        let mut round = max_practical_size_samples(i);
        steps.append(&mut round);
        i = i + 1;
    }
    let mut more = max_practical_size_end();
    steps.append(&mut more);
    Script::new("max_practical_size", steps)
}

/// One round of the sizes of [`test_mc_sample_edge_sizes`].
pub open spec fn mc_sample_edge_sizes_sizes_round(i: u64) -> Seq<Step> {
    let s = i % 8;
    let n = SAMPLING_COUNTS@[(i / 8) as int];
    let k = SAMPLING_COUNTS@[s as int];
    let m = if n == 0 { 1 } else { n };
    seq![
        only(same_as(num(s), num(0)), fill(0, num(n), num(1056964608))),
        only(same_as(num(s), num(0)), zeroed(m, 0)),
        only(same_as(num(s), num(0)), zeroed(m, 1)),
        sample(
            0,
            k,
            123,
            0,
            1,
            1,
            note2(
                "sample_bernoulli_matrix failed for num_vars={}, num_samples={}: {}",
                num(n),
                num(k),
            ),
        ),
        check(
            differs(len(1), times(num(n), num(k))),
            note4(
                "Unexpected output length for num_vars={}, num_samples={}: got {}, expected {}",
                num(n),
                num(k),
                len(1),
                times(num(n), num(k)),
            ),
        ),
        scan(
            num(0),
            len(1),
            1,
            fault1(
                lt(num(1), here(1)),
                note4(
                    "Invalid sample bit at idx {} for num_vars={}, num_samples={}: {}",
                    ix(),
                    num(n),
                    num(k),
                    here(1),
                ),
            ),
        ),
        only(same_as(num(s), num(7)), release(0)),
    ]
}

/// Writes one round of the sizes of [`test_mc_sample_edge_sizes`].
fn mc_sample_edge_sizes_sizes(i: u64) -> (steps: Vec<Step>)
    requires
        i < 64,
    ensures
        steps@ == mc_sample_edge_sizes_sizes_round(i),
{
    let s: u64 = i % 8;
    let n: u64 = SAMPLING_COUNTS[(i / 8) as usize];
    let k: u64 = SAMPLING_COUNTS[s as usize];
    let m: u64 = if n == 0 { 1 } else { n };
    vec![
        only(same_as(num(s), num(0)), fill(0, num(n), num(1056964608))),
        only(same_as(num(s), num(0)), zeroed(m, 0)),
        only(same_as(num(s), num(0)), zeroed(m, 1)),
        sample(
            0,
            k,
            123,
            0,
            1,
            1,
            note2(
                "sample_bernoulli_matrix failed for num_vars={}, num_samples={}: {}",
                num(n),
                num(k),
            ),
        ),
        check(
            differs(len(1), times(num(n), num(k))),
            note4(
                "Unexpected output length for num_vars={}, num_samples={}: got {}, expected {}",
                num(n),
                num(k),
                len(1),
                times(num(n), num(k)),
            ),
        ),
        scan(
            num(0),
            len(1),
            1,
            fault1(
                lt(num(1), here(1)),
                note4(
                    "Invalid sample bit at idx {} for num_vars={}, num_samples={}: {}",
                    ix(),
                    num(n),
                    num(k),
                    here(1),
                ),
            ),
        ),
        only(same_as(num(s), num(7)), release(0)),
    ]
}

/// The end of [`test_mc_sample_edge_sizes`].
pub open spec fn mc_sample_edge_sizes_end_steps() -> Seq<Step> {
    seq![
        sync(note0("Sync failed: {}")),
    ]
}

/// Writes the end of [`test_mc_sample_edge_sizes`].
fn mc_sample_edge_sizes_end() -> (steps: Vec<Step>)
    ensures
        steps@ == mc_sample_edge_sizes_end_steps(),
{
    vec![
        sync(note0("Sync failed: {}")),
    ]
}

/// The steps of [`test_mc_sample_edge_sizes`].
pub open spec fn mc_sample_edge_sizes_steps() -> Seq<Step> {
    crate::script::rounds(64, |i: int| mc_sample_edge_sizes_sizes_round(i as u64))
        + mc_sample_edge_sizes_end_steps()
}

/// Sample matrices of edge sizes have one bit for each variable and sample.
pub fn test_mc_sample_edge_sizes() -> (script: Script)
    ensures
        script@ == crate::script::plan("test_mc_sample_edge_sizes", mc_sample_edge_sizes_steps()),
{
    let mut steps: Vec<Step> = Vec::new();
    let mut i: u64 = 0;
    while i < 64
        invariant
            i <= 64,
            steps@ == crate::script::rounds(
                i as int,
                |i: int| mc_sample_edge_sizes_sizes_round(i as u64),
            ),
        decreases 64 - i,
    {
        let mut round = mc_sample_edge_sizes_sizes(i);
        steps.append(&mut round);
        i = i + 1;
    }
    let mut more = mc_sample_edge_sizes_end();
    steps.append(&mut more);
    Script::new("test_mc_sample_edge_sizes", steps)
}

/// The tests of the category.
pub open spec fn tests() -> Seq<Plan> {
    seq![
        crate::script::plan("zero_elements_no_launch", zero_elements_no_launch_steps()),
        crate::script::plan("single_element", single_element_steps()),
        crate::script::plan("warp_boundary_sizes", warp_boundary_sizes_steps()),
        crate::script::plan("block_boundary_sizes", block_boundary_sizes_steps()),
        crate::script::plan("non_power_of_two_sizes", non_power_of_two_sizes_steps()),
        crate::script::plan("large_grid_sizes", large_grid_sizes_steps()),
        crate::script::plan("max_practical_size", max_practical_size_steps()),
        crate::script::plan("test_mc_sample_edge_sizes", mc_sample_edge_sizes_steps()),
    ]
}

/// Lists the tests of the category, in the order in which they run.
pub fn run_all() -> (category: CategoryRun)
    ensures
        category.title() == "c02_launch_config",
        category.waiting() == tests(),
        category.test() is None,
        category.run() is None,
        category.done() == Seq::<Outcome>::empty(),
{
    let scripts: Vec<Script> = vec![
        test_zero_elements_no_launch(),
        test_single_element(),
        test_warp_boundary_sizes(),
        test_block_boundary_sizes(),
        test_non_power_of_two_sizes(),
        test_large_grid_sizes(),
        test_max_practical_size(),
        test_mc_sample_edge_sizes(),
    ];
    let category = CategoryRun::new("c02_launch_config", scripts);
    assert(category.waiting() =~= tests());
    category
}

} // verus!
