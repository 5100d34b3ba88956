//! Floating point: infinities, NaNs, zeros, subnormal numbers and the total order of doubles.

use vstd::prelude::*;
use crate::expr::{
    and, at, before, count_in, differs, entry, found_in, here, ix, least, len, less_or_zero, lt,
    minus, modulo, not, num, or, pick, plus, ranked, reg, same_as, sum_of,
};
use crate::harness::{CategoryRun, Outcome};
use crate::message::{double, double_exp, note0, note2, remark1, remark2, remark3, remark5, val};
use crate::scalar::Scalar;
use crate::script::{
    check, create, download, fault1, fill, filter, Layout, Plan, put, scan, Script, select,
    shuffle_column, sort, sort_column, Step, sync,
};
use crate::tables::Table;

verus! {

/// The steps of [`test_f64_infinity`].
pub open spec fn f64_infinity_steps() -> Seq<Step> {
    seq![
        fill(0, num(11), entry(Table::Infinities, ix())),
        create(0, Layout::Val, Scalar::F64, 0, note0("Failed to create buffer: {}")),
        sort(0, 1, note0("Sort failed: {}")),
        download(1, 0, Scalar::F64, 1, note0("Failed to download sorted column: {}")),
        check(
            differs(len(1), num(11)),
            note2("Sort returned {} rows, expected {}", len(1), num(11)),
        ),
        scan(
            num(1),
            len(1),
            1,
            fault1(
                lt(ranked(Scalar::F64, here(1)), ranked(Scalar::F64, before(1))),
                remark3(
                    "Sort order incorrect at index {}: {} should be >= {}",
                    val(ix()),
                    double(here(1)),
                    double(before(1)),
                ),
            ),
        ),
        check(
            or(
                not(
                    same_as(
                        modulo(at(1, num(0)), num(0x8000_0000_0000_0000)),
                        num(0x7FF0_0000_0000_0000),
                    ),
                ),
                and(
                    lt(num(0), at(1, num(0))),
                    not(lt(num(0x7FF0_0000_0000_0000), at(1, num(0)))),
                ),
            ),
            remark1("First element should be NEG_INFINITY, got {}", double(at(1, num(0)))),
        ),
        check(
            or(
                not(
                    same_as(
                        modulo(at(1, minus(len(1), num(1))), num(0x8000_0000_0000_0000)),
                        num(0x7FF0_0000_0000_0000),
                    ),
                ),
                lt(num(0x8000_0000_0000_0000), at(1, minus(len(1), num(1)))),
            ),
            remark1(
                "Last element should be INFINITY, got {}",
                double(at(1, minus(len(1), num(1)))),
            ),
        ),
        fill(2, len(0), and(lt(num(0), here(0)), not(lt(num(0x7FF0_0000_0000_0000), here(0))))),
        filter(0, 2, 2, note0("Filter failed: {}")),
        download(2, 0, Scalar::F64, 3, note0("Failed to download filtered column: {}")),
        select(
            4,
            len(0),
            and(lt(num(0), here(0)), not(lt(num(0x7FF0_0000_0000_0000), here(0)))),
            here(0),
        ),
        check(differs(len(3), len(4)), note2("Filtered {} rows, expected {}", len(3), len(4))),
        check(
            same_as(count_in(3, num(0x7FF0_0000_0000_0000)), num(0)),
            note0("Filtered positive values should include INFINITY"),
        ),
        sync(note0("Sync failed: {}")),
    ]
}

/// Infinities come first and last, and pass a filter of positive values.
pub fn test_f64_infinity() -> (script: Script)
    ensures
        script@ == crate::script::plan("test_f64_infinity", f64_infinity_steps()),
{
    let steps: Vec<Step> = vec![
        fill(0, num(11), entry(Table::Infinities, ix())),
        create(0, Layout::Val, Scalar::F64, 0, note0("Failed to create buffer: {}")),
        sort(0, 1, note0("Sort failed: {}")),
        download(1, 0, Scalar::F64, 1, note0("Failed to download sorted column: {}")),
        check(
            differs(len(1), num(11)),
            note2("Sort returned {} rows, expected {}", len(1), num(11)),
        ),
        scan(
            num(1),
            len(1),
            1,
            fault1(
                lt(ranked(Scalar::F64, here(1)), ranked(Scalar::F64, before(1))),
                remark3(
                    "Sort order incorrect at index {}: {} should be >= {}",
                    val(ix()),
                    double(here(1)),
                    double(before(1)),
                ),
            ),
        ),
        check(
            or(
                not(
                    same_as(
                        modulo(at(1, num(0)), num(0x8000_0000_0000_0000)),
                        num(0x7FF0_0000_0000_0000),
                    ),
                ),
                and(
                    lt(num(0), at(1, num(0))),
                    not(lt(num(0x7FF0_0000_0000_0000), at(1, num(0)))),
                ),
            ),
            remark1("First element should be NEG_INFINITY, got {}", double(at(1, num(0)))),
        ),
        check(
            or(
                not(
                    same_as(
                        modulo(at(1, minus(len(1), num(1))), num(0x8000_0000_0000_0000)),
                        num(0x7FF0_0000_0000_0000),
                    ),
                ),
                lt(num(0x8000_0000_0000_0000), at(1, minus(len(1), num(1)))),
            ),
            remark1(
                "Last element should be INFINITY, got {}",
                double(at(1, minus(len(1), num(1)))),
            ),
        ),
        fill(2, len(0), and(lt(num(0), here(0)), not(lt(num(0x7FF0_0000_0000_0000), here(0))))),
        filter(0, 2, 2, note0("Filter failed: {}")),
        download(2, 0, Scalar::F64, 3, note0("Failed to download filtered column: {}")),
        select(
            4,
            len(0),
            and(lt(num(0), here(0)), not(lt(num(0x7FF0_0000_0000_0000), here(0)))),
            here(0),
        ),
        check(differs(len(3), len(4)), note2("Filtered {} rows, expected {}", len(3), len(4))),
        check(
            same_as(count_in(3, num(0x7FF0_0000_0000_0000)), num(0)),
            note0("Filtered positive values should include INFINITY"),
        ),
        sync(note0("Sync failed: {}")),
    ];
    Script::new("test_f64_infinity", steps)
}

/// The steps of [`test_f64_nan_handling`].
pub open spec fn f64_nan_handling_steps() -> Seq<Step> {
    seq![
        fill(0, num(10), entry(Table::Nans, ix())),
        create(
            0,
            Layout::Val,
            Scalar::F64,
            0,
            note0("Failed to create buffer with NaN values: {}"),
        ),
        sort(0, 1, note0("Sort with NaN values failed: {}")),
        download(1, 0, Scalar::F64, 1, note0("Failed to download sorted column: {}")),
        check(
            differs(len(1), num(10)),
            note2("Sort returned {} rows, expected {}", len(1), num(10)),
        ),
        fill(
            2,
            len(1),
            lt(num(0x7FF0_0000_0000_0000), modulo(here(1), num(0x8000_0000_0000_0000))),
        ),
        fill(
            3,
            len(0),
            lt(num(0x7FF0_0000_0000_0000), modulo(here(0), num(0x8000_0000_0000_0000))),
        ),
        check(
            differs(sum_of(2), sum_of(3)),
            note2("NaN count changed: {} -> {}", sum_of(3), sum_of(2)),
        ),
        select(
            4,
            len(1),
            not(lt(num(0x7FF0_0000_0000_0000), modulo(here(1), num(0x8000_0000_0000_0000)))),
            here(1),
        ),
        scan(
            num(1),
            len(4),
            1,
            fault1(
                lt(ranked(Scalar::F64, here(4)), ranked(Scalar::F64, before(4))),
                remark3(
                    "Non-NaN sort order incorrect at index {}: {} should be >= {}",
                    val(ix()),
                    double(here(4)),
                    double(before(4)),
                ),
            ),
        ),
        scan(
            found_in(2),
            len(1),
            1,
            fault1(
                not(lt(num(0x7FF0_0000_0000_0000), modulo(here(1), num(0x8000_0000_0000_0000)))),
                remark2(
                    "NaN values should be grouped together, found {} at position {}",
                    double(here(1)),
                    val(ix()),
                ),
            ),
        ),
        sync(note0("Sync failed: {}")),
    ]
}

/// NaNs are kept, and stand together after the numbers.
pub fn test_f64_nan_handling() -> (script: Script)
    ensures
        script@ == crate::script::plan("test_f64_nan_handling", f64_nan_handling_steps()),
{
    let steps: Vec<Step> = vec![
        fill(0, num(10), entry(Table::Nans, ix())),
        create(
            0,
            Layout::Val,
            Scalar::F64,
            0,
            note0("Failed to create buffer with NaN values: {}"),
        ),
        sort(0, 1, note0("Sort with NaN values failed: {}")),
        download(1, 0, Scalar::F64, 1, note0("Failed to download sorted column: {}")),
        check(
            differs(len(1), num(10)),
            note2("Sort returned {} rows, expected {}", len(1), num(10)),
        ),
        fill(
            2,
            len(1),
            lt(num(0x7FF0_0000_0000_0000), modulo(here(1), num(0x8000_0000_0000_0000))),
        ),
        fill(
            3,
            len(0),
            lt(num(0x7FF0_0000_0000_0000), modulo(here(0), num(0x8000_0000_0000_0000))),
        ),
        check(
            differs(sum_of(2), sum_of(3)),
            note2("NaN count changed: {} -> {}", sum_of(3), sum_of(2)),
        ),
        select(
            4,
            len(1),
            not(lt(num(0x7FF0_0000_0000_0000), modulo(here(1), num(0x8000_0000_0000_0000)))),
            here(1),
        ),
        scan(
            num(1),
            len(4),
            1,
            fault1(
                lt(ranked(Scalar::F64, here(4)), ranked(Scalar::F64, before(4))),
                remark3(
                    "Non-NaN sort order incorrect at index {}: {} should be >= {}",
                    val(ix()),
                    double(here(4)),
                    double(before(4)),
                ),
            ),
        ),
        scan(
            found_in(2),
            len(1),
            1,
            fault1(
                not(lt(num(0x7FF0_0000_0000_0000), modulo(here(1), num(0x8000_0000_0000_0000)))),
                remark2(
                    "NaN values should be grouped together, found {} at position {}",
                    double(here(1)),
                    val(ix()),
                ),
            ),
        ),
        sync(note0("Sync failed: {}")),
    ];
    Script::new("test_f64_nan_handling", steps)
}

/// The steps of [`test_f64_zero_signs`].
pub open spec fn f64_zero_signs_steps() -> Seq<Step> {
    seq![
        fill(0, num(10), entry(Table::Zeros, ix())),
        create(0, Layout::Val, Scalar::F64, 0, note0("Failed to create buffer: {}")),
        sort(0, 1, note0("Sort failed: {}")),
        download(1, 0, Scalar::F64, 1, note0("Failed to download sorted column: {}")),
        check(
            differs(len(1), num(10)),
            note2("Sort returned {} rows, expected {}", len(1), num(10)),
        ),
        scan(
            num(1),
            len(1),
            1,
            fault1(
                lt(ranked(Scalar::F64, here(1)), ranked(Scalar::F64, before(1))),
                remark3(
                    "Sort order incorrect at index {}: {} should be >= {}",
                    val(ix()),
                    double(here(1)),
                    double(before(1)),
                ),
            ),
        ),
        fill(2, len(1), same_as(modulo(here(1), num(0x8000_0000_0000_0000)), num(0))),
        fill(3, len(0), same_as(modulo(here(0), num(0x8000_0000_0000_0000)), num(0))),
        put(0, sum_of(2)),
        check(
            differs(reg(0), sum_of(3)),
            note2("Zero count changed: {} -> {}", sum_of(3), reg(0)),
        ),
        put(1, found_in(2)),
        scan(
            reg(1),
            pick(lt(reg(1), len(1)), plus(reg(1), reg(0)), reg(1)),
            1,
            fault1(
                not(same_as(modulo(here(1), num(0x8000_0000_0000_0000)), num(0))),
                remark2(
                    "Zeros should be grouped together, found {} at index {}",
                    double(here(1)),
                    val(ix()),
                ),
            ),
        ),
        check(
            differs(
                count_in(1, num(0x8000_0000_0000_0000)),
                count_in(0, num(0x8000_0000_0000_0000)),
            ),
            note2(
                "Negative zero count changed: {} -> {}",
                count_in(0, num(0x8000_0000_0000_0000)),
                count_in(1, num(0x8000_0000_0000_0000)),
            ),
        ),
        sync(note0("Sync failed: {}")),
    ]
}

/// Zeros of both signs are kept apart, and stand together.
pub fn test_f64_zero_signs() -> (script: Script)
    ensures
        script@ == crate::script::plan("test_f64_zero_signs", f64_zero_signs_steps()),
{
    let steps: Vec<Step> = vec![
        fill(0, num(10), entry(Table::Zeros, ix())),
        create(0, Layout::Val, Scalar::F64, 0, note0("Failed to create buffer: {}")),
        sort(0, 1, note0("Sort failed: {}")),
        download(1, 0, Scalar::F64, 1, note0("Failed to download sorted column: {}")),
        check(
            differs(len(1), num(10)),
            note2("Sort returned {} rows, expected {}", len(1), num(10)),
        ),
        scan(
            num(1),
            len(1),
            1,
            fault1(
                lt(ranked(Scalar::F64, here(1)), ranked(Scalar::F64, before(1))),
                remark3(
                    "Sort order incorrect at index {}: {} should be >= {}",
                    val(ix()),
                    double(here(1)),
                    double(before(1)),
                ),
            ),
        ),
        fill(2, len(1), same_as(modulo(here(1), num(0x8000_0000_0000_0000)), num(0))),
        fill(3, len(0), same_as(modulo(here(0), num(0x8000_0000_0000_0000)), num(0))),
        put(0, sum_of(2)),
        check(
            differs(reg(0), sum_of(3)),
            note2("Zero count changed: {} -> {}", sum_of(3), reg(0)),
        ),
        put(1, found_in(2)),
        scan(
            reg(1),
            pick(lt(reg(1), len(1)), plus(reg(1), reg(0)), reg(1)),
            1,
            fault1(
                not(same_as(modulo(here(1), num(0x8000_0000_0000_0000)), num(0))),
                remark2(
                    "Zeros should be grouped together, found {} at index {}",
                    double(here(1)),
                    val(ix()),
                ),
            ),
        ),
        check(
            differs(
                count_in(1, num(0x8000_0000_0000_0000)),
                count_in(0, num(0x8000_0000_0000_0000)),
            ),
            note2(
                "Negative zero count changed: {} -> {}",
                count_in(0, num(0x8000_0000_0000_0000)),
                count_in(1, num(0x8000_0000_0000_0000)),
            ),
        ),
        sync(note0("Sync failed: {}")),
    ];
    Script::new("test_f64_zero_signs", steps)
}

/// The steps of [`test_f64_subnormal`].
pub open spec fn f64_subnormal_steps() -> Seq<Step> {
    seq![
        fill(0, num(12), entry(Table::Subnormals, ix())),
        create(
            0,
            Layout::Val,
            Scalar::F64,
            0,
            note0("Failed to create buffer with subnormal values: {}"),
        ),
        sort(0, 1, note0("Sort with subnormal values failed: {}")),
        download(1, 0, Scalar::F64, 1, note0("Failed to download sorted column: {}")),
        check(
            differs(len(1), num(12)),
            note2("Sort returned {} rows, expected {}", len(1), num(12)),
        ),
        scan(
            num(1),
            len(1),
            1,
            fault1(
                lt(ranked(Scalar::F64, here(1)), ranked(Scalar::F64, before(1))),
                remark3(
                    "Sort order incorrect at index {}: {} should be >= {}",
                    val(ix()),
                    double_exp(here(1)),
                    double_exp(before(1)),
                ),
            ),
        ),
        fill(
            2,
            len(1),
            and(
                lt(num(0), modulo(here(1), num(0x8000_0000_0000_0000))),
                lt(modulo(here(1), num(0x8000_0000_0000_0000)), num(0x0010_0000_0000_0000)),
            ),
        ),
        fill(
            3,
            len(0),
            and(
                lt(num(0), modulo(here(0), num(0x8000_0000_0000_0000))),
                lt(modulo(here(0), num(0x8000_0000_0000_0000)), num(0x0010_0000_0000_0000)),
            ),
        ),
        check(
            differs(sum_of(2), sum_of(3)),
            note2(
                "Subnormal values may have been flushed to zero: {} -> {}",
                sum_of(3),
                sum_of(2),
            ),
        ),
        check(
            same_as(count_in(1, num(1)), num(0)),
            remark1("Smallest subnormal {} not found in output", double_exp(num(1))),
        ),
        sync(note0("Sync failed: {}")),
    ]
}

/// Subnormal numbers are not flushed to zero.
pub fn test_f64_subnormal() -> (script: Script)
    ensures
        script@ == crate::script::plan("test_f64_subnormal", f64_subnormal_steps()),
{
    let steps: Vec<Step> = vec![
        fill(0, num(12), entry(Table::Subnormals, ix())),
        create(
            0,
            Layout::Val,
            Scalar::F64,
            0,
            note0("Failed to create buffer with subnormal values: {}"),
        ),
        sort(0, 1, note0("Sort with subnormal values failed: {}")),
        download(1, 0, Scalar::F64, 1, note0("Failed to download sorted column: {}")),
        check(
            differs(len(1), num(12)),
            note2("Sort returned {} rows, expected {}", len(1), num(12)),
        ),
        scan(
            num(1),
            len(1),
            1,
            fault1(
                lt(ranked(Scalar::F64, here(1)), ranked(Scalar::F64, before(1))),
                remark3(
                    "Sort order incorrect at index {}: {} should be >= {}",
                    val(ix()),
                    double_exp(here(1)),
                    double_exp(before(1)),
                ),
            ),
        ),
        fill(
            2,
            len(1),
            and(
                lt(num(0), modulo(here(1), num(0x8000_0000_0000_0000))),
                lt(modulo(here(1), num(0x8000_0000_0000_0000)), num(0x0010_0000_0000_0000)),
            ),
        ),
        fill(
            3,
            len(0),
            and(
                lt(num(0), modulo(here(0), num(0x8000_0000_0000_0000))),
                lt(modulo(here(0), num(0x8000_0000_0000_0000)), num(0x0010_0000_0000_0000)),
            ),
        ),
        check(
            differs(sum_of(2), sum_of(3)),
            note2(
                "Subnormal values may have been flushed to zero: {} -> {}",
                sum_of(3),
                sum_of(2),
            ),
        ),
        check(
            same_as(count_in(1, num(1)), num(0)),
            remark1("Smallest subnormal {} not found in output", double_exp(num(1))),
        ),
        sync(note0("Sync failed: {}")),
    ];
    Script::new("test_f64_subnormal", steps)
}

/// The steps of [`test_f64_precision_extremes`].
pub open spec fn f64_precision_extremes_steps() -> Seq<Step> {
    seq![
        fill(0, num(17), entry(Table::Extremes, ix())),
        create(0, Layout::Val, Scalar::F64, 0, note0("Failed to create buffer: {}")),
        sort(0, 1, note0("Sort failed: {}")),
        download(1, 0, Scalar::F64, 1, note0("Failed to download sorted column: {}")),
        check(
            differs(len(1), num(17)),
            note2("Sort returned {} rows, expected {}", len(1), num(17)),
        ),
        scan(
            num(1),
            len(1),
            1,
            fault1(
                lt(ranked(Scalar::F64, here(1)), ranked(Scalar::F64, before(1))),
                remark3(
                    "Sort order incorrect at index {}: {} should be >= {}",
                    val(ix()),
                    double_exp(here(1)),
                    double_exp(before(1)),
                ),
            ),
        ),
        check(
            differs(at(1, num(0)), num(0xFFEF_FFFF_FFFF_FFFF)),
            remark1("First element should be f64::MIN, got {}", double_exp(at(1, num(0)))),
        ),
        check(
            differs(at(1, minus(len(1), num(1))), num(0x7FEF_FFFF_FFFF_FFFF)),
            remark1(
                "Last element should be f64::MAX, got {}",
                double_exp(at(1, minus(len(1), num(1)))),
            ),
        ),
        scan(
            num(0),
            len(0),
            1,
            fault1(
                and(
                    same_as(count_in(1, here(0)), num(0)),
                    or(
                        differs(here(0), num(0)),
                        same_as(count_in(1, num(0x8000_0000_0000_0000)), num(0)),
                    ),
                ),
                remark1("Original value {} not found in sorted output", double_exp(here(0))),
            ),
        ),
        sync(note0("Sync failed: {}")),
    ]
}

/// The largest, smallest and most precise doubles survive a sort.
pub fn test_f64_precision_extremes() -> (script: Script)
    ensures
        script@ == crate::script::plan(
            "test_f64_precision_extremes",
            f64_precision_extremes_steps(),
        ),
{
    let steps: Vec<Step> = vec![
        fill(0, num(17), entry(Table::Extremes, ix())),
        create(0, Layout::Val, Scalar::F64, 0, note0("Failed to create buffer: {}")),
        sort(0, 1, note0("Sort failed: {}")),
        download(1, 0, Scalar::F64, 1, note0("Failed to download sorted column: {}")),
        check(
            differs(len(1), num(17)),
            note2("Sort returned {} rows, expected {}", len(1), num(17)),
        ),
        scan(
            num(1),
            len(1),
            1,
            fault1(
                lt(ranked(Scalar::F64, here(1)), ranked(Scalar::F64, before(1))),
                remark3(
                    "Sort order incorrect at index {}: {} should be >= {}",
                    val(ix()),
                    double_exp(here(1)),
                    double_exp(before(1)),
                ),
            ),
        ),
        check(
            differs(at(1, num(0)), num(0xFFEF_FFFF_FFFF_FFFF)),
            remark1("First element should be f64::MIN, got {}", double_exp(at(1, num(0)))),
        ),
        check(
            differs(at(1, minus(len(1), num(1))), num(0x7FEF_FFFF_FFFF_FFFF)),
            remark1(
                "Last element should be f64::MAX, got {}",
                double_exp(at(1, minus(len(1), num(1)))),
            ),
        ),
        scan(
            num(0),
            len(0),
            1,
            fault1(
                and(
                    same_as(count_in(1, here(0)), num(0)),
                    or(
                        differs(here(0), num(0)),
                        same_as(count_in(1, num(0x8000_0000_0000_0000)), num(0)),
                    ),
                ),
                remark1("Original value {} not found in sorted output", double_exp(here(0))),
            ),
        ),
        sync(note0("Sync failed: {}")),
    ];
    Script::new("test_f64_precision_extremes", steps)
}

/// The steps of [`test_f64_sort_ordering`].
pub open spec fn f64_sort_ordering_steps() -> Seq<Step> {
    seq![
        fill(2, num(36), entry(Table::Ladder, ix())),
        shuffle_column(0, 2),
        create(0, Layout::Val, Scalar::F64, 0, note0("Failed to create buffer: {}")),
        sort(0, 1, note0("Sort failed: {}")),
        download(1, 0, Scalar::F64, 1, note0("Failed to download sorted column: {}")),
        check(
            differs(len(1), len(2)),
            note2("Sort returned {} rows, expected {}", len(1), len(2)),
        ),
        scan(
            num(1),
            len(1),
            1,
            fault1(
                lt(ranked(Scalar::F64, here(1)), ranked(Scalar::F64, before(1))),
                remark3(
                    "Total ordering violated at index {}: {} < {}",
                    val(ix()),
                    double_exp(here(1)),
                    double_exp(before(1)),
                ),
            ),
        ),
        sort_column(3, 2, Scalar::F64),
        scan(
            num(0),
            least(len(1), len(3)),
            1,
            fault1(
                differs(here(1), here(3)),
                remark3(
                    "Mismatch at index {}: got {}, expected {}",
                    val(ix()),
                    double_exp(here(1)),
                    double_exp(here(3)),
                ),
            ),
        ),
        scan(
            num(0),
            less_or_zero(len(1), num(2)),
            1,
            fault1(
                lt(ranked(Scalar::F64, at(1, plus(ix(), num(2)))), ranked(Scalar::F64, here(1))),
                remark5(
                    "Transitivity violated: {} > {} but {} <= {} <= {}",
                    double_exp(here(1)),
                    double_exp(at(1, plus(ix(), num(2)))),
                    double_exp(here(1)),
                    double_exp(at(1, plus(ix(), num(1)))),
                    double_exp(at(1, plus(ix(), num(2)))),
                ),
            ),
        ),
        sync(note0("Sync failed: {}")),
    ]
}

/// A shuffled ladder of doubles is sorted by the total order.
pub fn test_f64_sort_ordering() -> (script: Script)
    ensures
        script@ == crate::script::plan("test_f64_sort_ordering", f64_sort_ordering_steps()),
{
    let steps: Vec<Step> = vec![
        fill(2, num(36), entry(Table::Ladder, ix())),
        shuffle_column(0, 2),
        create(0, Layout::Val, Scalar::F64, 0, note0("Failed to create buffer: {}")),
        sort(0, 1, note0("Sort failed: {}")),
        download(1, 0, Scalar::F64, 1, note0("Failed to download sorted column: {}")),
        check(
            differs(len(1), len(2)),
            note2("Sort returned {} rows, expected {}", len(1), len(2)),
        ),
        scan(
            num(1),
            len(1),
            1,
            fault1(
                lt(ranked(Scalar::F64, here(1)), ranked(Scalar::F64, before(1))),
                remark3(
                    "Total ordering violated at index {}: {} < {}",
                    val(ix()),
                    double_exp(here(1)),
                    double_exp(before(1)),
                ),
            ),
        ),
        sort_column(3, 2, Scalar::F64),
        scan(
            num(0),
            least(len(1), len(3)),
            1,
            fault1(
                differs(here(1), here(3)),
                remark3(
                    "Mismatch at index {}: got {}, expected {}",
                    val(ix()),
                    double_exp(here(1)),
                    double_exp(here(3)),
                ),
            ),
        ),
        scan(
            num(0),
            less_or_zero(len(1), num(2)),
            1,
            fault1(
                lt(ranked(Scalar::F64, at(1, plus(ix(), num(2)))), ranked(Scalar::F64, here(1))),
                remark5(
                    "Transitivity violated: {} > {} but {} <= {} <= {}",
                    double_exp(here(1)),
                    double_exp(at(1, plus(ix(), num(2)))),
                    double_exp(here(1)),
                    double_exp(at(1, plus(ix(), num(1)))),
                    double_exp(at(1, plus(ix(), num(2)))),
                ),
            ),
        ),
        sync(note0("Sync failed: {}")),
    ];
    Script::new("test_f64_sort_ordering", steps)
}

/// The tests of the category.
pub open spec fn tests() -> Seq<Plan> {
    seq![
        crate::script::plan("test_f64_infinity", f64_infinity_steps()),
        crate::script::plan("test_f64_nan_handling", f64_nan_handling_steps()),
        crate::script::plan("test_f64_zero_signs", f64_zero_signs_steps()),
        crate::script::plan("test_f64_subnormal", f64_subnormal_steps()),
        crate::script::plan("test_f64_precision_extremes", f64_precision_extremes_steps()),
        crate::script::plan("test_f64_sort_ordering", f64_sort_ordering_steps()),
    ]
}

/// Lists the tests of the category, in the order in which they run.
pub fn run_all() -> (category: CategoryRun)
    ensures
        category.title() == "c13_floating_point",
        category.waiting() == tests(),
        category.test() is None,
        category.run() is None,
        category.done() == Seq::<Outcome>::empty(),
{
    let scripts: Vec<Script> = vec![
        test_f64_infinity(),
        test_f64_nan_handling(),
        test_f64_zero_signs(),
        test_f64_subnormal(),
        test_f64_precision_extremes(),
        test_f64_sort_ordering(),
    ];
    let category = CategoryRun::new("c13_floating_point", scripts);
    assert(category.waiting() =~= tests());
    category
}

} // verus!
