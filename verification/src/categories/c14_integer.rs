//! Integers: overflow, signs, the full range, and keys that wrap around.

use vstd::prelude::*;
use crate::expr::{
    alike, alike_sets, and, at, before, count_in, differs, entry, found_in, here, ix, len, lt,
    minus, modulo, not, num, over, pick, plus, ranked, reg, same_as, sum_of, times,
};
use crate::harness::{CategoryRun, Outcome};
use crate::message::{hex, list, note0, note1, note2, note3, note4, remark2, remark3, signed, val};
use crate::scalar::Scalar;
use crate::script::{
    check, COUNT, create, download, fault1, fault3, fetch, fill, filter, join, Layout, match_rows,
    Plan, put, rows, scan, Script, sort, sort_column, Step, sync, upload, upload_table,
};
use crate::tables::Table;

verus! {

/// The steps of [`test_i64_overflow_boundaries`].
pub open spec fn i64_overflow_boundaries_steps() -> Seq<Step> {
    seq![
        fill(0, num(16), entry(Table::SignedEdges, ix())),
        create(0, Layout::Val, Scalar::I64, 0, note0("Failed to create buffer: {}")),
        sort(0, 1, note0("Sort failed: {}")),
        download(1, 0, Scalar::I64, 1, note0("Failed to download sorted column: {}")),
        check(
            differs(len(1), num(16)),
            note2("Sort returned {} rows, expected {}", len(1), num(16)),
        ),
        scan(
            num(1),
            len(1),
            1,
            fault1(
                lt(ranked(Scalar::I64, here(1)), ranked(Scalar::I64, before(1))),
                remark3(
                    "Sort order incorrect at index {}: {} should be >= {}",
                    val(ix()),
                    signed(here(1)),
                    signed(before(1)),
                ),
            ),
        ),
        check(
            differs(at(1, num(0)), num(0x8000_0000_0000_0000)),
            remark2(
                "First element should be i64::MIN ({}), got {}",
                signed(num(0x8000_0000_0000_0000)),
                signed(at(1, num(0))),
            ),
        ),
        check(
            differs(at(1, minus(len(1), num(1))), num(0x7FFF_FFFF_FFFF_FFFF)),
            remark2(
                "Last element should be i64::MAX ({}), got {}",
                signed(num(0x7FFF_FFFF_FFFF_FFFF)),
                signed(at(1, minus(len(1), num(1)))),
            ),
        ),
        check(not(alike_sets(0, 1)), note0("Some values were lost or changed during sort")),
        fill(2, len(0), not(lt(here(0), num(0x8000_0000_0000_0000)))),
        filter(0, 2, 2, note0("Filter failed: {}")),
        download(2, 0, Scalar::I64, 3, note0("Failed to download filtered column: {}")),
        check(
            differs(len(3), sum_of(2)),
            note2("Filter returned {} rows, expected {}", len(3), sum_of(2)),
        ),
        check(
            same_as(count_in(3, num(0x8000_0000_0000_0000)), num(0)),
            note0("Filtered negative values should include i64::MIN"),
        ),
        sync(note0("Sync failed: {}")),
    ]
}

/// Signed values next to overflow are sorted by value, and filtered by sign.
pub fn test_i64_overflow_boundaries() -> (script: Script)
    ensures
        script@ == crate::script::plan(
            "test_i64_overflow_boundaries",
            i64_overflow_boundaries_steps(),
        ),
{
    let steps: Vec<Step> = vec![
        fill(0, num(16), entry(Table::SignedEdges, ix())),
        create(0, Layout::Val, Scalar::I64, 0, note0("Failed to create buffer: {}")),
        sort(0, 1, note0("Sort failed: {}")),
        download(1, 0, Scalar::I64, 1, note0("Failed to download sorted column: {}")),
        check(
            differs(len(1), num(16)),
            note2("Sort returned {} rows, expected {}", len(1), num(16)),
        ),
        scan(
            num(1),
            len(1),
            1,
            fault1(
                lt(ranked(Scalar::I64, here(1)), ranked(Scalar::I64, before(1))),
                remark3(
                    "Sort order incorrect at index {}: {} should be >= {}",
                    val(ix()),
                    signed(here(1)),
                    signed(before(1)),
                ),
            ),
        ),
        check(
            differs(at(1, num(0)), num(0x8000_0000_0000_0000)),
            remark2(
                "First element should be i64::MIN ({}), got {}",
                signed(num(0x8000_0000_0000_0000)),
                signed(at(1, num(0))),
            ),
        ),
        check(
            differs(at(1, minus(len(1), num(1))), num(0x7FFF_FFFF_FFFF_FFFF)),
            remark2(
                "Last element should be i64::MAX ({}), got {}",
                signed(num(0x7FFF_FFFF_FFFF_FFFF)),
                signed(at(1, minus(len(1), num(1)))),
            ),
        ),
        check(not(alike_sets(0, 1)), note0("Some values were lost or changed during sort")),
        fill(2, len(0), not(lt(here(0), num(0x8000_0000_0000_0000)))),
        filter(0, 2, 2, note0("Filter failed: {}")),
        download(2, 0, Scalar::I64, 3, note0("Failed to download filtered column: {}")),
        check(
            differs(len(3), sum_of(2)),
            note2("Filter returned {} rows, expected {}", len(3), sum_of(2)),
        ),
        check(
            same_as(count_in(3, num(0x8000_0000_0000_0000)), num(0)),
            note0("Filtered negative values should include i64::MIN"),
        ),
        sync(note0("Sync failed: {}")),
    ];
    Script::new("test_i64_overflow_boundaries", steps)
}

/// The steps of [`test_u64_overflow_boundaries`].
pub open spec fn u64_overflow_boundaries_steps() -> Seq<Step> {
    seq![
        fill(0, num(16), entry(Table::UnsignedEdges, ix())),
        create(0, Layout::Val, Scalar::U64, 0, note0("Failed to create buffer: {}")),
        sort(0, 1, note0("Sort failed: {}")),
        download(1, 0, Scalar::U64, 1, note0("Failed to download sorted column: {}")),
        check(
            differs(len(1), num(16)),
            note2("Sort returned {} rows, expected {}", len(1), num(16)),
        ),
        scan(
            num(1),
            len(1),
            1,
            fault1(
                lt(here(1), before(1)),
                note3(
                    "Sort order incorrect at index {}: {} should be >= {}",
                    ix(),
                    here(1),
                    before(1),
                ),
            ),
        ),
        check(
            differs(at(1, num(0)), num(0)),
            note1("First element should be 0, got {}", at(1, num(0))),
        ),
        check(
            differs(at(1, minus(len(1), num(1))), num(0xFFFF_FFFF_FFFF_FFFF)),
            note2(
                "Last element should be u64::MAX ({}), got {}",
                num(0xFFFF_FFFF_FFFF_FFFF),
                at(1, minus(len(1), num(1))),
            ),
        ),
        check(not(alike_sets(0, 1)), note0("Some values were lost or changed during sort")),
        fill(2, len(1), same_as(here(1), num(0x8000_0000_0000_0000))),
        put(0, found_in(2)),
        scan(
            num(0),
            pick(lt(reg(0), len(1)), reg(0), num(0)),
            1,
            fault1(
                not(lt(here(1), num(0x8000_0000_0000_0000))),
                note4(
                    "Value {} at position {} should be less than {} at position {}",
                    here(1),
                    ix(),
                    num(0x8000_0000_0000_0000),
                    reg(0),
                ),
            ),
        ),
        sync(note0("Sync failed: {}")),
    ]
}

/// Unsigned values next to overflow are sorted as unsigned.
pub fn test_u64_overflow_boundaries() -> (script: Script)
    ensures
        script@ == crate::script::plan(
            "test_u64_overflow_boundaries",
            u64_overflow_boundaries_steps(),
        ),
{
    let steps: Vec<Step> = vec![
        fill(0, num(16), entry(Table::UnsignedEdges, ix())),
        create(0, Layout::Val, Scalar::U64, 0, note0("Failed to create buffer: {}")),
        sort(0, 1, note0("Sort failed: {}")),
        download(1, 0, Scalar::U64, 1, note0("Failed to download sorted column: {}")),
        check(
            differs(len(1), num(16)),
            note2("Sort returned {} rows, expected {}", len(1), num(16)),
        ),
        scan(
            num(1),
            len(1),
            1,
            fault1(
                lt(here(1), before(1)),
                note3(
                    "Sort order incorrect at index {}: {} should be >= {}",
                    ix(),
                    here(1),
                    before(1),
                ),
            ),
        ),
        check(
            differs(at(1, num(0)), num(0)),
            note1("First element should be 0, got {}", at(1, num(0))),
        ),
        check(
            differs(at(1, minus(len(1), num(1))), num(0xFFFF_FFFF_FFFF_FFFF)),
            note2(
                "Last element should be u64::MAX ({}), got {}",
                num(0xFFFF_FFFF_FFFF_FFFF),
                at(1, minus(len(1), num(1))),
            ),
        ),
        check(not(alike_sets(0, 1)), note0("Some values were lost or changed during sort")),
        fill(2, len(1), same_as(here(1), num(0x8000_0000_0000_0000))),
        put(0, found_in(2)),
        scan(
            num(0),
            pick(lt(reg(0), len(1)), reg(0), num(0)),
            1,
            fault1(
                not(lt(here(1), num(0x8000_0000_0000_0000))),
                note4(
                    "Value {} at position {} should be less than {} at position {}",
                    here(1),
                    ix(),
                    num(0x8000_0000_0000_0000),
                    reg(0),
                ),
            ),
        ),
        sync(note0("Sync failed: {}")),
    ];
    Script::new("test_u64_overflow_boundaries", steps)
}

/// The steps of [`test_u32_full_range`].
pub open spec fn u32_full_range_steps() -> Seq<Step> {
    seq![
        fill(
            0,
            num(32),
            pick(
                lt(ix(), num(16)),
                entry(Table::NarrowEdges, ix()),
                over(times(num(4294967295), minus(ix(), num(16))), num(16)),
            ),
        ),
        upload(0, 0, note0("Failed to create buffer: {}")),
        sort(0, 1, note0("Sort failed: {}")),
        fetch(1, 1, note0("Failed to download sorted column: {}")),
        check(
            differs(len(1), num(32)),
            note2("Sort returned {} rows, expected {}", len(1), num(32)),
        ),
        scan(
            num(1),
            len(1),
            1,
            fault1(
                lt(here(1), before(1)),
                note3(
                    "Sort order incorrect at index {}: {} should be >= {}",
                    ix(),
                    here(1),
                    before(1),
                ),
            ),
        ),
        check(
            differs(at(1, num(0)), num(0)),
            note1("First element should be 0, got {}", at(1, num(0))),
        ),
        check(
            differs(at(1, minus(len(1), num(1))), num(4294967295)),
            note2(
                "Last element should be u32::MAX ({}), got {}",
                num(4294967295),
                at(1, minus(len(1), num(1))),
            ),
        ),
        fill(2, len(0), not(lt(here(0), num(2147483647)))),
        filter(0, 2, 2, note0("Filter failed: {}")),
        fetch(2, 3, note0("Failed to download filtered column: {}")),
        scan(
            num(0),
            len(3),
            1,
            fault1(
                lt(here(3), num(2147483647)),
                note2("Filtered value {} should be >= threshold {}", here(3), num(2147483647)),
            ),
        ),
        sync(note0("Sync failed: {}")),
    ]
}

/// 32-bit values over the whole range are sorted, and filtered by a threshold.
pub fn test_u32_full_range() -> (script: Script)
    ensures
        script@ == crate::script::plan("test_u32_full_range", u32_full_range_steps()),
{
    let steps: Vec<Step> = vec![
        fill(
            0,
            num(32),
            pick(
                lt(ix(), num(16)),
                entry(Table::NarrowEdges, ix()),
                over(times(num(4294967295), minus(ix(), num(16))), num(16)),
            ),
        ),
        upload(0, 0, note0("Failed to create buffer: {}")),
        sort(0, 1, note0("Sort failed: {}")),
        fetch(1, 1, note0("Failed to download sorted column: {}")),
        check(
            differs(len(1), num(32)),
            note2("Sort returned {} rows, expected {}", len(1), num(32)),
        ),
        scan(
            num(1),
            len(1),
            1,
            fault1(
                lt(here(1), before(1)),
                note3(
                    "Sort order incorrect at index {}: {} should be >= {}",
                    ix(),
                    here(1),
                    before(1),
                ),
            ),
        ),
        check(
            differs(at(1, num(0)), num(0)),
            note1("First element should be 0, got {}", at(1, num(0))),
        ),
        check(
            differs(at(1, minus(len(1), num(1))), num(4294967295)),
            note2(
                "Last element should be u32::MAX ({}), got {}",
                num(4294967295),
                at(1, minus(len(1), num(1))),
            ),
        ),
        fill(2, len(0), not(lt(here(0), num(2147483647)))),
        filter(0, 2, 2, note0("Filter failed: {}")),
        fetch(2, 3, note0("Failed to download filtered column: {}")),
        scan(
            num(0),
            len(3),
            1,
            fault1(
                lt(here(3), num(2147483647)),
                note2("Filtered value {} should be >= threshold {}", here(3), num(2147483647)),
            ),
        ),
        sync(note0("Sync failed: {}")),
    ];
    Script::new("test_u32_full_range", steps)
}

/// The steps of [`test_i64_signed_comparison`].
pub open spec fn i64_signed_comparison_steps() -> Seq<Step> {
    seq![
        fill(0, num(11), entry(Table::SignedMix, ix())),
        create(0, Layout::Val, Scalar::I64, 0, note0("Failed to create buffer: {}")),
        sort(0, 1, note0("Sort failed: {}")),
        download(1, 0, Scalar::I64, 1, note0("Failed to download sorted column: {}")),
        scan(
            num(1),
            len(1),
            1,
            fault1(
                lt(ranked(Scalar::I64, here(1)), ranked(Scalar::I64, before(1))),
                remark3(
                    "Signed sort order incorrect at index {}: {} should be >= {}",
                    val(ix()),
                    signed(here(1)),
                    signed(before(1)),
                ),
            ),
        ),
        sort_column(2, 0, Scalar::I64),
        check(
            not(alike(1, 2)),
            remark2(
                "Sort order doesn't match expected signed order.\nGot: {}\nExpected: {}",
                list(1, Scalar::I64),
                list(2, Scalar::I64),
            ),
        ),
        fill(3, len(1), lt(here(1), num(0x8000_0000_0000_0000))),
        put(0, found_in(3)),
        scan(
            num(0),
            pick(lt(reg(0), len(1)), reg(0), num(0)),
            1,
            fault1(
                lt(here(1), num(0x8000_0000_0000_0000)),
                remark2(
                    "Negative values should come before positive: found {} at index {}",
                    signed(here(1)),
                    val(ix()),
                ),
            ),
        ),
        check(
            differs(at(1, num(0)), num(0x8000_0000_0000_0000)),
            remark2(
                "First element should be i64::MIN ({}), got {} - may be treated as unsigned",
                signed(num(0x8000_0000_0000_0000)),
                signed(at(1, num(0))),
            ),
        ),
        check(
            differs(at(1, minus(len(1), num(1))), num(0x7FFF_FFFF_FFFF_FFFF)),
            remark2(
                "Last element should be i64::MAX ({}), got {}",
                signed(num(0x7FFF_FFFF_FFFF_FFFF)),
                signed(at(1, minus(len(1), num(1)))),
            ),
        ),
        sync(note0("Sync failed: {}")),
    ]
}

/// Negative values come before positive ones.
pub fn test_i64_signed_comparison() -> (script: Script)
    ensures
        script@ == crate::script::plan("test_i64_signed_comparison", i64_signed_comparison_steps()),
{
    let steps: Vec<Step> = vec![
        fill(0, num(11), entry(Table::SignedMix, ix())),
        create(0, Layout::Val, Scalar::I64, 0, note0("Failed to create buffer: {}")),
        sort(0, 1, note0("Sort failed: {}")),
        download(1, 0, Scalar::I64, 1, note0("Failed to download sorted column: {}")),
        scan(
            num(1),
            len(1),
            1,
            fault1(
                lt(ranked(Scalar::I64, here(1)), ranked(Scalar::I64, before(1))),
                remark3(
                    "Signed sort order incorrect at index {}: {} should be >= {}",
                    val(ix()),
                    signed(here(1)),
                    signed(before(1)),
                ),
            ),
        ),
        sort_column(2, 0, Scalar::I64),
        check(
            not(alike(1, 2)),
            remark2(
                "Sort order doesn't match expected signed order.\nGot: {}\nExpected: {}",
                list(1, Scalar::I64),
                list(2, Scalar::I64),
            ),
        ),
        fill(3, len(1), lt(here(1), num(0x8000_0000_0000_0000))),
        put(0, found_in(3)),
        scan(
            num(0),
            pick(lt(reg(0), len(1)), reg(0), num(0)),
            1,
            fault1(
                lt(here(1), num(0x8000_0000_0000_0000)),
                remark2(
                    "Negative values should come before positive: found {} at index {}",
                    signed(here(1)),
                    val(ix()),
                ),
            ),
        ),
        check(
            differs(at(1, num(0)), num(0x8000_0000_0000_0000)),
            remark2(
                "First element should be i64::MIN ({}), got {} - may be treated as unsigned",
                signed(num(0x8000_0000_0000_0000)),
                signed(at(1, num(0))),
            ),
        ),
        check(
            differs(at(1, minus(len(1), num(1))), num(0x7FFF_FFFF_FFFF_FFFF)),
            remark2(
                "Last element should be i64::MAX ({}), got {}",
                signed(num(0x7FFF_FFFF_FFFF_FFFF)),
                signed(at(1, minus(len(1), num(1)))),
            ),
        ),
        sync(note0("Sync failed: {}")),
    ];
    Script::new("test_i64_signed_comparison", steps)
}

/// The steps of [`test_integer_wraparound_keys`].
pub open spec fn integer_wraparound_keys_steps() -> Seq<Step> {
    seq![
        fill(0, num(12), entry(Table::LeftKeys, ix())),
        fill(1, num(12), modulo(plus(here(0), num(100)), num(4294967296))),
        fill(2, num(6), entry(Table::RightKeys, ix())),
        fill(3, num(6), modulo(times(here(2), num(10)), num(4294967296))),
        upload_table(0, Layout::KeyLval, 0, note0("Failed to create left buffer: {}")),
        upload_table(1, Layout::KeyRval, 2, note0("Failed to create right buffer: {}")),
        join(0, 1, 2, note0("Hash join failed: {}")),
        fill(7, len(0), lt(num(0), count_in(2, here(0)))),
        put(0, sum_of(7)),
        match_rows(2, reg(0), note2("Join returned {} rows, expected {}", reg(COUNT), reg(0))),
        fetch(2, 4, note0("Failed to download joined keys: {}")),
        download(2, 1, Scalar::U32, 5, note0("Failed to download joined lvals: {}")),
        download(2, 2, Scalar::U32, 6, note0("Failed to download joined rvals: {}")),
        rows(2, 1),
        scan(
            num(0),
            reg(1),
            1,
            fault3(
                and(
                    not(lt(here(6), num(0))),
                    differs(here(5), modulo(plus(here(4), num(100)), num(4294967296))),
                ),
                note4(
                    "Row {}: lval {} doesn't match expected {} for key {}",
                    ix(),
                    here(5),
                    modulo(plus(here(4), num(100)), num(4294967296)),
                    here(4),
                ),
                differs(here(6), modulo(times(here(4), num(10)), num(4294967296))),
                note4(
                    "Row {}: rval {} doesn't match expected {} for key {}",
                    ix(),
                    here(6),
                    modulo(times(here(4), num(10)), num(4294967296)),
                    here(4),
                ),
                same_as(count_in(2, here(4)), num(0)),
                note2("Row {}: key {} is not in right table", ix(), here(4)),
            ),
        ),
        scan(
            num(0),
            len(2),
            1,
            fault1(
                and(lt(num(0), count_in(0, here(2))), same_as(count_in(4, here(2)), num(0))),
                note1("Key {} should appear in join result but doesn't", here(2)),
            ),
        ),
        fill(8, num(3), entry(Table::CriticalKeys, ix())),
        scan(
            num(0),
            num(3),
            1,
            fault1(
                and(
                    lt(num(0), count_in(0, here(8))),
                    and(lt(num(0), count_in(2, here(8))), same_as(count_in(4, here(8)), num(0))),
                ),
                remark2(
                    "Critical key {} (0x{}) missing from join result",
                    val(here(8)),
                    hex(here(8), 8),
                ),
            ),
        ),
        sync(note0("Sync failed: {}")),
    ]
}

/// Join keys that wrap around 32 bits find their partners.
pub fn test_integer_wraparound_keys() -> (script: Script)
    ensures
        script@ == crate::script::plan(
            "test_integer_wraparound_keys",
            integer_wraparound_keys_steps(),
        ),
{
    let steps: Vec<Step> = vec![
        fill(0, num(12), entry(Table::LeftKeys, ix())),
        fill(1, num(12), modulo(plus(here(0), num(100)), num(4294967296))),
        fill(2, num(6), entry(Table::RightKeys, ix())),
        fill(3, num(6), modulo(times(here(2), num(10)), num(4294967296))),
        upload_table(0, Layout::KeyLval, 0, note0("Failed to create left buffer: {}")),
        upload_table(1, Layout::KeyRval, 2, note0("Failed to create right buffer: {}")),
        join(0, 1, 2, note0("Hash join failed: {}")),
        fill(7, len(0), lt(num(0), count_in(2, here(0)))),
        put(0, sum_of(7)),
        match_rows(2, reg(0), note2("Join returned {} rows, expected {}", reg(COUNT), reg(0))),
        fetch(2, 4, note0("Failed to download joined keys: {}")),
        download(2, 1, Scalar::U32, 5, note0("Failed to download joined lvals: {}")),
        download(2, 2, Scalar::U32, 6, note0("Failed to download joined rvals: {}")),
        rows(2, 1),
        scan(
            num(0),
            reg(1),
            1,
            fault3(
                and(
                    not(lt(here(6), num(0))),
                    differs(here(5), modulo(plus(here(4), num(100)), num(4294967296))),
                ),
                note4(
                    "Row {}: lval {} doesn't match expected {} for key {}",
                    ix(),
                    here(5),
                    modulo(plus(here(4), num(100)), num(4294967296)),
                    here(4),
                ),
                differs(here(6), modulo(times(here(4), num(10)), num(4294967296))),
                note4(
                    "Row {}: rval {} doesn't match expected {} for key {}",
                    ix(),
                    here(6),
                    modulo(times(here(4), num(10)), num(4294967296)),
                    here(4),
                ),
                same_as(count_in(2, here(4)), num(0)),
                note2("Row {}: key {} is not in right table", ix(), here(4)),
            ),
        ),
        scan(
            num(0),
            len(2),
            1,
            fault1(
                and(lt(num(0), count_in(0, here(2))), same_as(count_in(4, here(2)), num(0))),
                note1("Key {} should appear in join result but doesn't", here(2)),
            ),
        ),
        fill(8, num(3), entry(Table::CriticalKeys, ix())),
        scan(
            num(0),
            num(3),
            1,
            fault1(
                and(
                    lt(num(0), count_in(0, here(8))),
                    and(lt(num(0), count_in(2, here(8))), same_as(count_in(4, here(8)), num(0))),
                ),
                remark2(
                    "Critical key {} (0x{}) missing from join result",
                    val(here(8)),
                    hex(here(8), 8),
                ),
            ),
        ),
        sync(note0("Sync failed: {}")),
    ];
    Script::new("test_integer_wraparound_keys", steps)
}

/// The tests of the category.
pub open spec fn tests() -> Seq<Plan> {
    seq![
        crate::script::plan("test_i64_overflow_boundaries", i64_overflow_boundaries_steps()),
        crate::script::plan("test_u64_overflow_boundaries", u64_overflow_boundaries_steps()),
        crate::script::plan("test_u32_full_range", u32_full_range_steps()),
        crate::script::plan("test_i64_signed_comparison", i64_signed_comparison_steps()),
        crate::script::plan("test_integer_wraparound_keys", integer_wraparound_keys_steps()),
    ]
}

/// Lists the tests of the category, in the order in which they run.
pub fn run_all() -> (category: CategoryRun)
    ensures
        category.title() == "c14_integer",
        category.waiting() == tests(),
        category.test() is None,
        category.run() is None,
        category.done() == Seq::<Outcome>::empty(),
{
    let scripts: Vec<Script> = vec![
        test_i64_overflow_boundaries(),
        test_u64_overflow_boundaries(),
        test_u32_full_range(),
        test_i64_signed_comparison(),
        test_integer_wraparound_keys(),
    ];
    let category = CategoryRun::new("c14_integer", scripts);
    assert(category.waiting() =~= tests());
    category
}

} // verus!
