//! Host and device: transfers, life cycles of buffers, and the memory budget.

use vstd::prelude::*;
use crate::expr::{
    alike, at, before, differs, here, ix, least, len, lt, minus, modulo, not, num, or, over, pick,
    plus, reg, same_as, times,
};
use crate::harness::{CategoryRun, Outcome};
use crate::message::{
    note0, note1, note2, note3, note4, remark1, remark2, remark3, remark4, val, word,
};
use crate::scalar::Scalar;
use crate::script::{
    after, attempt, budget, check, COUNT, create, download, fault1, fetch, fill, filter, Layout,
    match_rows, only, Otherwise, Plan, put, release, Request, scan, Script, sort, sort_column, Step,
    sync, upload, used,
};
use crate::expr::Expr;

verus! {

/// Sizes that rise and fall.
pub const VARYING_SIZES: [u64; 7] = [1000, 10000, 50000, 100000, 50000, 10000, 1000];

/// Ten thousand values are uploaded, downloaded and sorted.
pub open spec fn transferred_pattern_steps(name: &'static str, value: Expr) -> Seq<Step> {
    seq![
        fill(0, num(10000), value),
        upload(0, 0, remark1("Pattern '{}': failed to create buffer: {}", word(name))),
        fetch(0, 1, remark1("Pattern '{}': failed to download: {}", word(name))),
        check(
            differs(len(1), len(0)),
            remark3(
                "Pattern '{}': size mismatch - uploaded {}, downloaded {}",
                word(name),
                val(len(0)),
                val(len(1)),
            ),
        ),
        scan(
            num(0),
            least(len(0), len(1)),
            1,
            fault1(
                differs(here(0), here(1)),
                remark4(
                    "Pattern '{}': mismatch at index {}: uploaded {}, downloaded {}",
                    word(name),
                    val(ix()),
                    val(here(0)),
                    val(here(1)),
                ),
            ),
        ),
        sort(0, 1, remark1("Pattern '{}': sort failed: {}", word(name))),
        fetch(1, 2, remark1("Pattern '{}': failed to download sorted: {}", word(name))),
        scan(
            num(1),
            len(2),
            1,
            fault1(
                lt(here(2), before(2)),
                remark2("Pattern '{}': sort incorrect at index {}", word(name), val(ix())),
            ),
        ),
        sort_column(3, 0, Scalar::U32),
        check(
            not(alike(2, 3)),
            remark1("Pattern '{}': sorted result doesn't match expected", word(name)),
        ),
        release(0),
    ]
}

/// Writes [`transferred_pattern_steps`].
pub fn transferred_pattern(name: &'static str, value: Expr) -> (steps: Vec<Step>)
    ensures
        steps@ == transferred_pattern_steps(name, value),
{
    vec![
        fill(0, num(10000), value),
        upload(0, 0, remark1("Pattern '{}': failed to create buffer: {}", word(name))),
        fetch(0, 1, remark1("Pattern '{}': failed to download: {}", word(name))),
        check(
            differs(len(1), len(0)),
            remark3(
                "Pattern '{}': size mismatch - uploaded {}, downloaded {}",
                word(name),
                val(len(0)),
                val(len(1)),
            ),
        ),
        scan(
            num(0),
            least(len(0), len(1)),
            1,
            fault1(
                differs(here(0), here(1)),
                remark4(
                    "Pattern '{}': mismatch at index {}: uploaded {}, downloaded {}",
                    word(name),
                    val(ix()),
                    val(here(0)),
                    val(here(1)),
                ),
            ),
        ),
        sort(0, 1, remark1("Pattern '{}': sort failed: {}", word(name))),
        fetch(1, 2, remark1("Pattern '{}': failed to download sorted: {}", word(name))),
        scan(
            num(1),
            len(2),
            1,
            fault1(
                lt(here(2), before(2)),
                remark2("Pattern '{}': sort incorrect at index {}", word(name), val(ix())),
            ),
        ),
        sort_column(3, 0, Scalar::U32),
        check(
            not(alike(2, 3)),
            remark1("Pattern '{}': sorted result doesn't match expected", word(name)),
        ),
        release(0),
    ]
}

/// The wide of [`test_upload_download_integrity`].
pub open spec fn upload_download_integrity_wide_steps() -> Seq<Step> {
    seq![
        fill(0, num(5000), times(ix(), num(1000000000))),
        create(0, Layout::Val, Scalar::U64, 0, note0("Failed to create u64 buffer: {}")),
        download(0, 0, Scalar::U64, 1, note0("Failed to download u64: {}")),
        scan(
            num(0),
            least(len(0), len(1)),
            1,
            fault1(
                differs(here(0), here(1)),
                note3(
                    "U64 mismatch at index {}: uploaded {}, downloaded {}",
                    ix(),
                    here(0),
                    here(1),
                ),
            ),
        ),
        sync(note0("Sync failed: {}")),
    ]
}

/// Writes the wide of [`test_upload_download_integrity`].
fn upload_download_integrity_wide() -> (steps: Vec<Step>)
    ensures
        steps@ == upload_download_integrity_wide_steps(),
{
    vec![
        fill(0, num(5000), times(ix(), num(1000000000))),
        create(0, Layout::Val, Scalar::U64, 0, note0("Failed to create u64 buffer: {}")),
        download(0, 0, Scalar::U64, 1, note0("Failed to download u64: {}")),
        scan(
            num(0),
            least(len(0), len(1)),
            1,
            fault1(
                differs(here(0), here(1)),
                note3(
                    "U64 mismatch at index {}: uploaded {}, downloaded {}",
                    ix(),
                    here(0),
                    here(1),
                ),
            ),
        ),
        sync(note0("Sync failed: {}")),
    ]
}

/// The steps of [`test_upload_download_integrity`].
pub open spec fn upload_download_integrity_steps() -> Seq<Step> {
    transferred_pattern_steps("zeros", num(0))
        + transferred_pattern_steps("ones", num(1))
        + transferred_pattern_steps("max_values", num(4294967295))
        + transferred_pattern_steps("sequential", ix())
        + transferred_pattern_steps("reverse", minus(minus(num(10000), num(1)), ix()))
        + transferred_pattern_steps(
            "alternating",
            pick(same_as(modulo(ix(), num(2)), num(0)), num(0), num(4294967295)),
        )
        + transferred_pattern_steps(
            "random_lcg",
            modulo(plus(times(ix(), num(1103515245)), num(12345)), num(4294967296)),
        )
        + upload_download_integrity_wide_steps()
}

/// What is uploaded is downloaded again, bit for bit.
pub fn test_upload_download_integrity() -> (script: Script)
    ensures
        script@ == crate::script::plan(
            "test_upload_download_integrity",
            upload_download_integrity_steps(),
        ),
{
    let mut steps: Vec<Step> = transferred_pattern("zeros", num(0));
    let mut more = transferred_pattern("ones", num(1));
    steps.append(&mut more);
    let mut more = transferred_pattern("max_values", num(4294967295));
    steps.append(&mut more);
    let mut more = transferred_pattern("sequential", ix());
    steps.append(&mut more);
    let mut more = transferred_pattern("reverse", minus(minus(num(10000), num(1)), ix()));
    steps.append(&mut more);
    let mut more = transferred_pattern(
        "alternating",
        pick(same_as(modulo(ix(), num(2)), num(0)), num(0), num(4294967295)),
    );
    steps.append(&mut more);
    let mut more = transferred_pattern(
        "random_lcg",
        modulo(plus(times(ix(), num(1103515245)), num(12345)), num(4294967296)),
    );
    steps.append(&mut more);
    let mut more = upload_download_integrity_wide();
    steps.append(&mut more);
    Script::new("test_upload_download_integrity", steps)
}

/// The steps of [`test_large_transfer`].
pub open spec fn large_transfer_steps() -> Seq<Step> {
    seq![
        fill(
            0,
            num(25000000),
            modulo(plus(times(ix(), num(1103515245)), num(12345)), num(25000000)),
        ),
        upload(0, 0, note0("Failed to create large buffer: {}")),
        match_rows(
            0,
            num(25000000),
            note2("Buffer has {} rows, expected {}", reg(COUNT), num(25000000)),
        ),
        fetch(0, 1, note0("Failed to download large buffer: {}")),
        check(
            differs(len(1), num(25000000)),
            note2("Downloaded {} values, expected {}", len(1), num(25000000)),
        ),
        scan(
            num(0),
            num(25000000),
            100000,
            fault1(
                differs(here(1), here(0)),
                note3("Mismatch at index {}: expected {}, got {}", ix(), here(0), here(1)),
            ),
        ),
        scan(
            num(0),
            num(1000),
            1,
            fault1(differs(here(1), here(0)), note1("Mismatch at start index {}", ix())),
        ),
        scan(
            minus(num(25000000), num(1000)),
            num(25000000),
            1,
            fault1(differs(here(1), here(0)), note1("Mismatch at end index {}", ix())),
        ),
        fill(2, num(25000000), same_as(modulo(ix(), num(10)), num(0))),
        filter(0, 2, 1, note0("Large filter failed: {}")),
        match_rows(
            1,
            num(2500000),
            note2("Filter returned {} rows, expected {}", reg(COUNT), num(2500000)),
        ),
        fetch(1, 3, note0("Failed to download filtered: {}")),
        scan(
            num(0),
            len(3),
            1,
            fault1(
                differs(here(3), at(0, times(ix(), num(10)))),
                note4(
                    "Filtered value {} at index {}: expected {} (from idx {})",
                    here(3),
                    ix(),
                    at(0, times(ix(), num(10))),
                    times(ix(), num(10)),
                ),
            ),
        ),
        sync(note0("Sync failed: {}")),
    ]
}

/// A hundred megabytes go to the device and back.
pub fn test_large_transfer() -> (script: Script)
    ensures
        script@ == crate::script::plan("test_large_transfer", large_transfer_steps()),
{
    let steps: Vec<Step> = vec![
        fill(
            0,
            num(25000000),
            modulo(plus(times(ix(), num(1103515245)), num(12345)), num(25000000)),
        ),
        upload(0, 0, note0("Failed to create large buffer: {}")),
        match_rows(
            0,
            num(25000000),
            note2("Buffer has {} rows, expected {}", reg(COUNT), num(25000000)),
        ),
        fetch(0, 1, note0("Failed to download large buffer: {}")),
        check(
            differs(len(1), num(25000000)),
            note2("Downloaded {} values, expected {}", len(1), num(25000000)),
        ),
        scan(
            num(0),
            num(25000000),
            100000,
            fault1(
                differs(here(1), here(0)),
                note3("Mismatch at index {}: expected {}, got {}", ix(), here(0), here(1)),
            ),
        ),
        scan(
            num(0),
            num(1000),
            1,
            fault1(differs(here(1), here(0)), note1("Mismatch at start index {}", ix())),
        ),
        scan(
            minus(num(25000000), num(1000)),
            num(25000000),
            1,
            fault1(differs(here(1), here(0)), note1("Mismatch at end index {}", ix())),
        ),
        fill(2, num(25000000), same_as(modulo(ix(), num(10)), num(0))),
        filter(0, 2, 1, note0("Large filter failed: {}")),
        match_rows(
            1,
            num(2500000),
            note2("Filter returned {} rows, expected {}", reg(COUNT), num(2500000)),
        ),
        fetch(1, 3, note0("Failed to download filtered: {}")),
        scan(
            num(0),
            len(3),
            1,
            fault1(
                differs(here(3), at(0, times(ix(), num(10)))),
                note4(
                    "Filtered value {} at index {}: expected {} (from idx {})",
                    here(3),
                    ix(),
                    at(0, times(ix(), num(10))),
                    times(ix(), num(10)),
                ),
            ),
        ),
        sync(note0("Sync failed: {}")),
    ];
    Script::new("test_large_transfer", steps)
}

/// One round of the transfers of [`test_repeated_transfer`].
pub open spec fn repeated_transfer_transfers_round(i: u64) -> Seq<Step> {
    seq![
        fill(0, num(1000), modulo(plus(ix(), times(num(i), num(1000))), num(1000000))),
        upload(0, 0, note1("Iteration {}: upload failed: {}", num(i))),
        fetch(0, 1, note1("Iteration {}: download failed: {}", num(i))),
        check(
            differs(len(1), len(0)),
            note3("Iteration {}: size mismatch - {} vs {}", num(i), len(0), len(1)),
        ),
        check(
            or(differs(at(1, num(0)), at(0, num(0))), differs(at(1, num(999)), at(0, num(999)))),
            note1("Iteration {}: data mismatch", num(i)),
        ),
        release(0),
    ]
}

/// Writes one round of the transfers of [`test_repeated_transfer`].
fn repeated_transfer_transfers(i: u64) -> (steps: Vec<Step>)
    requires
        i < 500,
    ensures
        steps@ == repeated_transfer_transfers_round(i),
{
    vec![
        fill(0, num(1000), modulo(plus(ix(), times(num(i), num(1000))), num(1000000))),
        upload(0, 0, note1("Iteration {}: upload failed: {}", num(i))),
        fetch(0, 1, note1("Iteration {}: download failed: {}", num(i))),
        check(
            differs(len(1), len(0)),
            note3("Iteration {}: size mismatch - {} vs {}", num(i), len(0), len(1)),
        ),
        check(
            or(differs(at(1, num(0)), at(0, num(0))), differs(at(1, num(999)), at(0, num(999)))),
            note1("Iteration {}: data mismatch", num(i)),
        ),
        release(0),
    ]
}

/// One round of the sorts of [`test_repeated_transfer`].
pub open spec fn repeated_transfer_sorts_round(i: u64) -> Seq<Step> {
    seq![
        fill(0, num(1000), ix()),
        upload(0, 0, note1("Operation {}: create failed: {}", num(i))),
        sort(0, 1, note1("Operation {}: sort failed: {}", num(i))),
        only(
            same_as(modulo(num(i), num(50)), num(0)),
            fetch(1, 1, note1("Operation {}: download failed: {}", num(i))),
        ),
        only(
            same_as(modulo(num(i), num(50)), num(0)),
            scan(
                num(0),
                len(1),
                1,
                fault1(
                    differs(here(1), ix()),
                    note4(
                        "Operation {}: incorrect at index {}: expected {}, got {}",
                        num(i),
                        ix(),
                        ix(),
                        here(1),
                    ),
                ),
            ),
        ),
        release(0),
    ]
}

/// Writes one round of the sorts of [`test_repeated_transfer`].
fn repeated_transfer_sorts(i: u64) -> (steps: Vec<Step>)
    requires
        i < 500,
    ensures
        steps@ == repeated_transfer_sorts_round(i),
{
    vec![
        fill(0, num(1000), ix()),
        upload(0, 0, note1("Operation {}: create failed: {}", num(i))),
        sort(0, 1, note1("Operation {}: sort failed: {}", num(i))),
        only(
            same_as(modulo(num(i), num(50)), num(0)),
            fetch(1, 1, note1("Operation {}: download failed: {}", num(i))),
        ),
        only(
            same_as(modulo(num(i), num(50)), num(0)),
            scan(
                num(0),
                len(1),
                1,
                fault1(
                    differs(here(1), ix()),
                    note4(
                        "Operation {}: incorrect at index {}: expected {}, got {}",
                        num(i),
                        ix(),
                        ix(),
                        here(1),
                    ),
                ),
            ),
        ),
        release(0),
    ]
}

/// One round of the filters of [`test_repeated_transfer`].
pub open spec fn repeated_transfer_filters_round(i: u64) -> Seq<Step> {
    seq![
        fill(0, num(1000), modulo(times(ix(), plus(num(i), num(1))), num(10000))),
        upload(0, 0, note1("Interleaved {}: create failed: {}", num(i))),
        fill(1, num(1000), same_as(modulo(ix(), num(2)), num(0))),
        filter(0, 1, 1, note1("Interleaved {}: filter failed: {}", num(i))),
        fetch(1, 2, note1("Interleaved {}: download failed: {}", num(i))),
        check(
            differs(len(2), num(500)),
            note3("Interleaved {}: expected {} rows, got {}", num(i), num(500), len(2)),
        ),
        release(0),
    ]
}

/// Writes one round of the filters of [`test_repeated_transfer`].
fn repeated_transfer_filters(i: u64) -> (steps: Vec<Step>)
    requires
        i < 100,
    ensures
        steps@ == repeated_transfer_filters_round(i),
{
    vec![
        fill(0, num(1000), modulo(times(ix(), plus(num(i), num(1))), num(10000))),
        upload(0, 0, note1("Interleaved {}: create failed: {}", num(i))),
        fill(1, num(1000), same_as(modulo(ix(), num(2)), num(0))),
        filter(0, 1, 1, note1("Interleaved {}: filter failed: {}", num(i))),
        fetch(1, 2, note1("Interleaved {}: download failed: {}", num(i))),
        check(
            differs(len(2), num(500)),
            note3("Interleaved {}: expected {} rows, got {}", num(i), num(500), len(2)),
        ),
        release(0),
    ]
}

/// The end of [`test_repeated_transfer`].
pub open spec fn repeated_transfer_end_steps() -> Seq<Step> {
    seq![
        sync(note0("Sync failed: {}")),
    ]
}

/// Writes the end of [`test_repeated_transfer`].
fn repeated_transfer_end() -> (steps: Vec<Step>)
    ensures
        steps@ == repeated_transfer_end_steps(),
{
    vec![
        sync(note0("Sync failed: {}")),
    ]
}

/// The steps of [`test_repeated_transfer`].
pub open spec fn repeated_transfer_steps() -> Seq<Step> {
    crate::script::rounds(500, |i: int| repeated_transfer_transfers_round(i as u64))
        + crate::script::rounds(500, |i: int| repeated_transfer_sorts_round(i as u64))
        + crate::script::rounds(100, |i: int| repeated_transfer_filters_round(i as u64))
        + repeated_transfer_end_steps()
}

/// Many small transfers in a row.
pub fn test_repeated_transfer() -> (script: Script)
    ensures
        script@ == crate::script::plan("test_repeated_transfer", repeated_transfer_steps()),
{
    let mut steps: Vec<Step> = Vec::new();
    let mut i: u64 = 0;
    while i < 500
        invariant
            i <= 500,
            steps@ == crate::script::rounds(
                i as int,
                |i: int| repeated_transfer_transfers_round(i as u64),
            ),
        decreases 500 - i,
    {
        let mut round = repeated_transfer_transfers(i);
        steps.append(&mut round);
        i = i + 1;
    }
    i = 0;
    let ghost before = steps@;
    while i < 500
        invariant
            i <= 500,
            steps@ == before + crate::script::rounds(
                i as int,
                |i: int| repeated_transfer_sorts_round(i as u64),
            ),
        decreases 500 - i,
    {
        let mut round = repeated_transfer_sorts(i);
        steps.append(&mut round);
        i = i + 1;
    }
    i = 0;
    let ghost before = steps@;
    while i < 100
        invariant
            i <= 100,
            steps@ == before + crate::script::rounds(
                i as int,
                |i: int| repeated_transfer_filters_round(i as u64),
            ),
        decreases 100 - i,
    {
        let mut round = repeated_transfer_filters(i);
        steps.append(&mut round);
        i = i + 1;
    }
    let mut more = repeated_transfer_end();
    steps.append(&mut more);
    Script::new("test_repeated_transfer", steps)
}

/// The start of [`test_memory_lifecycle`].
pub open spec fn memory_lifecycle_start_steps() -> Seq<Step> {
    seq![
        used(0),
    ]
}

/// Writes the start of [`test_memory_lifecycle`].
fn memory_lifecycle_start() -> (steps: Vec<Step>)
    ensures
        steps@ == memory_lifecycle_start_steps(),
{
    vec![
        used(0),
    ]
}

/// One round of the cycles of [`test_memory_lifecycle`].
pub open spec fn memory_lifecycle_cycles_round(i: u64) -> Seq<Step> {
    let k = i / 10;
    let s = i % 10;
    let b = i % 5;
    seq![
        only(
            lt(num(s), num(5)),
            fill(
                0,
                num(100000),
                modulo(
                    plus(
                        ix(),
                        plus(
                            times(num(b), num(100000)),
                            times(times(num(k), num(100000)), num(5)),
                        ),
                    ),
                    num(1000000),
                ),
            ),
        ),
        only(
            lt(num(s), num(5)),
            upload(b, 0, note2("Cycle {}, buffer {}: create failed: {}", num(k), num(b))),
        ),
        only(
            not(lt(num(s), num(5))),
            sort(b, 9, note2("Cycle {}, buffer {}: sort failed: {}", num(k), num(b))),
        ),
        only(
            not(lt(num(s), num(5))),
            fetch(9, 1, note2("Cycle {}, buffer {}: download failed: {}", num(k), num(b))),
        ),
        only(
            not(lt(num(s), num(5))),
            scan(
                num(1),
                len(1),
                1,
                fault1(
                    lt(here(1), before(1)),
                    note3(
                        "Cycle {}, buffer {}: sort incorrect at index {}",
                        num(k),
                        num(b),
                        ix(),
                    ),
                ),
            ),
        ),
        only(
            not(lt(num(s), num(5))),
            fill(
                0,
                num(100000),
                modulo(
                    plus(
                        ix(),
                        plus(
                            times(num(b), num(100000)),
                            times(times(num(k), num(100000)), num(5)),
                        ),
                    ),
                    num(1000000),
                ),
            ),
        ),
        only(not(lt(num(s), num(5))), sort_column(2, 0, Scalar::U32)),
        only(
            not(lt(num(s), num(5))),
            check(
                not(alike(1, 2)),
                note2("Cycle {}, buffer {}: sorted data doesn't match expected", num(k), num(b)),
            ),
        ),
        only(not(lt(num(s), num(5))), release(9)),
        only(same_as(num(s), num(9)), release(0)),
        only(same_as(num(s), num(9)), sync(note1("Cycle {}: sync failed: {}", num(k)))),
    ]
}

/// Writes one round of the cycles of [`test_memory_lifecycle`].
fn memory_lifecycle_cycles(i: u64) -> (steps: Vec<Step>)
    requires
        i < 100,
    ensures
        steps@ == memory_lifecycle_cycles_round(i),
{
    let k: u64 = i / 10;
    let s: u64 = i % 10;
    let b: u64 = i % 5;
    vec![
        only(
            lt(num(s), num(5)),
            fill(
                0,
                num(100000),
                modulo(
                    plus(
                        ix(),
                        plus(
                            times(num(b), num(100000)),
                            times(times(num(k), num(100000)), num(5)),
                        ),
                    ),
                    num(1000000),
                ),
            ),
        ),
        only(
            lt(num(s), num(5)),
            upload(b, 0, note2("Cycle {}, buffer {}: create failed: {}", num(k), num(b))),
        ),
        only(
            not(lt(num(s), num(5))),
            sort(b, 9, note2("Cycle {}, buffer {}: sort failed: {}", num(k), num(b))),
        ),
        only(
            not(lt(num(s), num(5))),
            fetch(9, 1, note2("Cycle {}, buffer {}: download failed: {}", num(k), num(b))),
        ),
        only(
            not(lt(num(s), num(5))),
            scan(
                num(1),
                len(1),
                1,
                fault1(
                    lt(here(1), before(1)),
                    note3(
                        "Cycle {}, buffer {}: sort incorrect at index {}",
                        num(k),
                        num(b),
                        ix(),
                    ),
                ),
            ),
        ),
        only(
            not(lt(num(s), num(5))),
            fill(
                0,
                num(100000),
                modulo(
                    plus(
                        ix(),
                        plus(
                            times(num(b), num(100000)),
                            times(times(num(k), num(100000)), num(5)),
                        ),
                    ),
                    num(1000000),
                ),
            ),
        ),
        only(not(lt(num(s), num(5))), sort_column(2, 0, Scalar::U32)),
        only(
            not(lt(num(s), num(5))),
            check(
                not(alike(1, 2)),
                note2("Cycle {}, buffer {}: sorted data doesn't match expected", num(k), num(b)),
            ),
        ),
        only(not(lt(num(s), num(5))), release(9)),
        only(same_as(num(s), num(9)), release(0)),
        only(same_as(num(s), num(9)), sync(note1("Cycle {}: sync failed: {}", num(k)))),
    ]
}

/// One round of the reallocations of [`test_memory_lifecycle`].
pub open spec fn memory_lifecycle_reallocations_round(i: u64) -> Seq<Step> {
    seq![
        fill(0, num(100000), ix()),
        upload(0, 0, note1("Realloc {}: create failed: {}", num(i))),
        sort(0, 1, note1("Realloc {}: sort failed: {}", num(i))),
        match_rows(1, num(100000), note2("Realloc {}: wrong row count: {}", num(i), reg(COUNT))),
        release(0),
    ]
}

/// Writes one round of the reallocations of [`test_memory_lifecycle`].
fn memory_lifecycle_reallocations(i: u64) -> (steps: Vec<Step>)
    requires
        i < 20,
    ensures
        steps@ == memory_lifecycle_reallocations_round(i),
{
    vec![
        fill(0, num(100000), ix()),
        upload(0, 0, note1("Realloc {}: create failed: {}", num(i))),
        sort(0, 1, note1("Realloc {}: sort failed: {}", num(i))),
        match_rows(1, num(100000), note2("Realloc {}: wrong row count: {}", num(i), reg(COUNT))),
        release(0),
    ]
}

/// One round of the varying sizes of [`test_memory_lifecycle`].
pub open spec fn memory_lifecycle_varying_sizes_round(i: u64) -> Seq<Step> {
    let n = VARYING_SIZES@[i as int];
    seq![
        fill(0, num(n), ix()),
        upload(0, 0, note2("Varying {}: create size {} failed: {}", num(i), num(n))),
        sort(0, 1, note1("Varying {}: sort failed: {}", num(i))),
        match_rows(
            1,
            num(n),
            note3("Varying {}: expected {} rows, got {}", num(i), num(n), reg(COUNT)),
        ),
        release(0),
    ]
}

/// Writes one round of the varying sizes of [`test_memory_lifecycle`].
fn memory_lifecycle_varying_sizes(i: u64) -> (steps: Vec<Step>)
    requires
        i < 7,
    ensures
        steps@ == memory_lifecycle_varying_sizes_round(i),
{
    let n: u64 = VARYING_SIZES[i as usize];
    vec![
        fill(0, num(n), ix()),
        upload(0, 0, note2("Varying {}: create size {} failed: {}", num(i), num(n))),
        sort(0, 1, note1("Varying {}: sort failed: {}", num(i))),
        match_rows(
            1,
            num(n),
            note3("Varying {}: expected {} rows, got {}", num(i), num(n), reg(COUNT)),
        ),
        release(0),
    ]
}

/// The end of [`test_memory_lifecycle`].
pub open spec fn memory_lifecycle_end_steps() -> Seq<Step> {
    seq![
        sync(note0("Final sync failed: {}")),
    ]
}

/// Writes the end of [`test_memory_lifecycle`].
fn memory_lifecycle_end() -> (steps: Vec<Step>)
    ensures
        steps@ == memory_lifecycle_end_steps(),
{
    vec![
        sync(note0("Final sync failed: {}")),
    ]
}

/// The steps of [`test_memory_lifecycle`].
pub open spec fn memory_lifecycle_steps() -> Seq<Step> {
    memory_lifecycle_start_steps()
        + crate::script::rounds(100, |i: int| memory_lifecycle_cycles_round(i as u64))
        + crate::script::rounds(20, |i: int| memory_lifecycle_reallocations_round(i as u64))
        + crate::script::rounds(7, |i: int| memory_lifecycle_varying_sizes_round(i as u64))
        + memory_lifecycle_end_steps()
}

/// Buffers are made, used and freed in cycles.
pub fn test_memory_lifecycle() -> (script: Script)
    ensures
        script@ == crate::script::plan("test_memory_lifecycle", memory_lifecycle_steps()),
{
    let mut steps: Vec<Step> = memory_lifecycle_start();
    let mut i: u64 = 0;
    let ghost before = steps@;
    while i < 100
        invariant
            i <= 100,
            steps@ == before + crate::script::rounds(
                i as int,
                |i: int| memory_lifecycle_cycles_round(i as u64),
            ),
        decreases 100 - i,
    {
        let mut round = memory_lifecycle_cycles(i);
        steps.append(&mut round);
        i = i + 1;
    }
    i = 0;
    let ghost before = steps@;
    while i < 20
        invariant
            i <= 20,
            steps@ == before + crate::script::rounds(
                i as int,
                |i: int| memory_lifecycle_reallocations_round(i as u64),
            ),
        decreases 20 - i,
    {
        let mut round = memory_lifecycle_reallocations(i);
        steps.append(&mut round);
        i = i + 1;
    }
    i = 0;
    let ghost before = steps@;
    while i < 7
        invariant
            i <= 7,
            steps@ == before + crate::script::rounds(
                i as int,
                |i: int| memory_lifecycle_varying_sizes_round(i as u64),
            ),
        decreases 7 - i,
    {
        let mut round = memory_lifecycle_varying_sizes(i);
        steps.append(&mut round);
        i = i + 1;
    }
    let mut more = memory_lifecycle_end();
    steps.append(&mut more);
    Script::new("test_memory_lifecycle", steps)
}

/// The start of [`test_memory_budget_limits`].
pub open spec fn memory_budget_limits_start_steps() -> Seq<Step> {
    seq![
        budget(0),
        used(1),
        put(2, over(reg(0), num(16))),
        put(3, least(reg(2), num(10000000))),
        fill(0, reg(3), modulo(plus(times(ix(), num(1103515245)), num(12345)), reg(3))),
        upload(0, 0, note0("Failed to create initial buffer: {}")),
        sort(0, 1, note0("Sort failed: {}")),
        fetch(1, 1, note0("Download failed: {}")),
        scan(
            num(1),
            len(1),
            10000,
            fault1(lt(here(1), before(1)), note1("Sort incorrect at index {}", ix())),
        ),
        put(4, least(reg(2), num(5000000))),
        put(5, num(0)),
    ]
}

/// Writes the start of [`test_memory_budget_limits`].
fn memory_budget_limits_start() -> (steps: Vec<Step>)
    ensures
        steps@ == memory_budget_limits_start_steps(),
{
    vec![
        budget(0),
        used(1),
        put(2, over(reg(0), num(16))),
        put(3, least(reg(2), num(10000000))),
        fill(0, reg(3), modulo(plus(times(ix(), num(1103515245)), num(12345)), reg(3))),
        upload(0, 0, note0("Failed to create initial buffer: {}")),
        sort(0, 1, note0("Sort failed: {}")),
        fetch(1, 1, note0("Download failed: {}")),
        scan(
            num(1),
            len(1),
            10000,
            fault1(lt(here(1), before(1)), note1("Sort incorrect at index {}", ix())),
        ),
        put(4, least(reg(2), num(5000000))),
        put(5, num(0)),
    ]
}

/// One round of the allocations of [`test_memory_budget_limits`].
pub open spec fn memory_budget_limits_allocations_round(i: u64) -> Seq<Step> {
    seq![
        fill(2, reg(4), modulo(plus(ix(), times(num(i), reg(4))), reg(4))),
        attempt(
            Request::Create {
                into: after(2, i),
                layout: Layout::Val,
                scalar: Scalar::U32,
                from: 2,
            },
            Otherwise::Leave { to: 20 },
        ),
        put(5, plus(reg(5), num(1))),
    ]
}

/// Writes one round of the allocations of [`test_memory_budget_limits`].
fn memory_budget_limits_allocations(i: u64) -> (steps: Vec<Step>)
    requires
        i < 3,
    ensures
        steps@ == memory_budget_limits_allocations_round(i),
{
    vec![
        fill(2, reg(4), modulo(plus(ix(), times(num(i), reg(4))), reg(4))),
        attempt(
            Request::Create {
                into: after(2, i),
                layout: Layout::Val,
                scalar: Scalar::U32,
                from: 2,
            },
            Otherwise::Leave { to: 20 },
        ),
        put(5, plus(reg(5), num(1))),
    ]
}

/// One round of the filters of [`test_memory_budget_limits`].
pub open spec fn memory_budget_limits_filters_round(i: u64) -> Seq<Step> {
    seq![
        only(lt(num(i), reg(5)), fill(3, reg(4), same_as(modulo(ix(), num(2)), num(0)))),
        only(
            lt(num(i), reg(5)),
            filter(after(2, i), 3, 9, note1("Buffer {}: filter failed: {}", num(i))),
        ),
        only(
            lt(num(i), reg(5)),
            match_rows(
                9,
                over(plus(reg(4), num(1)), num(2)),
                note3(
                    "Buffer {}: filter expected {} rows, got {}",
                    num(i),
                    over(plus(reg(4), num(1)), num(2)),
                    reg(COUNT),
                ),
            ),
        ),
        only(lt(num(i), reg(5)), release(9)),
    ]
}

/// Writes one round of the filters of [`test_memory_budget_limits`].
fn memory_budget_limits_filters(i: u64) -> (steps: Vec<Step>)
    requires
        i < 3,
    ensures
        steps@ == memory_budget_limits_filters_round(i),
{
    vec![
        only(lt(num(i), reg(5)), fill(3, reg(4), same_as(modulo(ix(), num(2)), num(0)))),
        only(
            lt(num(i), reg(5)),
            filter(after(2, i), 3, 9, note1("Buffer {}: filter failed: {}", num(i))),
        ),
        only(
            lt(num(i), reg(5)),
            match_rows(
                9,
                over(plus(reg(4), num(1)), num(2)),
                note3(
                    "Buffer {}: filter expected {} rows, got {}",
                    num(i),
                    over(plus(reg(4), num(1)), num(2)),
                    reg(COUNT),
                ),
            ),
        ),
        only(lt(num(i), reg(5)), release(9)),
    ]
}

/// The end of [`test_memory_budget_limits`].
pub open spec fn memory_budget_limits_end_steps() -> Seq<Step> {
    seq![
        release(2),
        sync(note0("Sync after release failed: {}")),
        fill(4, reg(4), ix()),
        upload(2, 4, note0("Failed to reallocate after release: {}")),
        sort(2, 3, note0("Sort after realloc failed: {}")),
        match_rows(
            3,
            reg(4),
            note2("Reallocated buffer: expected {} rows, got {}", reg(4), reg(COUNT)),
        ),
        sync(note0("Final sync failed: {}")),
    ]
}

/// Writes the end of [`test_memory_budget_limits`].
fn memory_budget_limits_end() -> (steps: Vec<Step>)
    ensures
        steps@ == memory_budget_limits_end_steps(),
{
    vec![
        release(2),
        sync(note0("Sync after release failed: {}")),
        fill(4, reg(4), ix()),
        upload(2, 4, note0("Failed to reallocate after release: {}")),
        sort(2, 3, note0("Sort after realloc failed: {}")),
        match_rows(
            3,
            reg(4),
            note2("Reallocated buffer: expected {} rows, got {}", reg(4), reg(COUNT)),
        ),
        sync(note0("Final sync failed: {}")),
    ]
}

/// The steps of [`test_memory_budget_limits`].
pub open spec fn memory_budget_limits_steps() -> Seq<Step> {
    memory_budget_limits_start_steps()
        + crate::script::rounds(3, |i: int| memory_budget_limits_allocations_round(i as u64))
        + crate::script::rounds(3, |i: int| memory_budget_limits_filters_round(i as u64))
        + memory_budget_limits_end_steps()
}

/// Buffers that fill the memory budget can be used, and their memory used again.
///
/// An allocation that is refused ends the round of allocations, and only that.
pub fn test_memory_budget_limits() -> (script: Script)
    ensures
        script@ == crate::script::plan("test_memory_budget_limits", memory_budget_limits_steps()),
{
    let mut steps: Vec<Step> = memory_budget_limits_start();
    let mut i: u64 = 0;
    let ghost before = steps@;
    while i < 3
        invariant
            i <= 3,
            steps@ == before + crate::script::rounds(
                i as int,
                |i: int| memory_budget_limits_allocations_round(i as u64),
            ),
        decreases 3 - i,
    {
        let mut round = memory_budget_limits_allocations(i);
        steps.append(&mut round);
        i = i + 1;
    }
    i = 0;
    let ghost before = steps@;
    while i < 3
        invariant
            i <= 3,
            steps@ == before + crate::script::rounds(
                i as int,
                |i: int| memory_budget_limits_filters_round(i as u64),
            ),
        decreases 3 - i,
    {
        let mut round = memory_budget_limits_filters(i);
        steps.append(&mut round);
        i = i + 1;
    }
    let mut more = memory_budget_limits_end();
    steps.append(&mut more);
    Script::new("test_memory_budget_limits", steps)
}

/// The tests of the category.
pub open spec fn tests() -> Seq<Plan> {
    seq![
        crate::script::plan("test_upload_download_integrity", upload_download_integrity_steps()),
        crate::script::plan("test_large_transfer", large_transfer_steps()),
        crate::script::plan("test_repeated_transfer", repeated_transfer_steps()),
        crate::script::plan("test_memory_lifecycle", memory_lifecycle_steps()),
        crate::script::plan("test_memory_budget_limits", memory_budget_limits_steps()),
    ]
}

/// Lists the tests of the category, in the order in which they run.
pub fn run_all() -> (category: CategoryRun)
    ensures
        category.title() == "c18_host_device",
        category.waiting() == tests(),
        category.test() is None,
        category.run() is None,
        category.done() == Seq::<Outcome>::empty(),
{
    let scripts: Vec<Script> = vec![
        test_upload_download_integrity(),
        test_large_transfer(),
        test_repeated_transfer(),
        test_memory_lifecycle(),
        test_memory_budget_limits(),
    ];
    let category = CategoryRun::new("c18_host_device", scripts);
    assert(category.waiting() =~= tests());
    category
}

} // verus!
