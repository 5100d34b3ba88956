//! Expressions and messages.

use xlog_cuda_tests::expr::{
    alike, alike_sets, and, at, before, count_in, differs, distinct_in, entry, evaluate, found_in,
    gap, here, ix, least, len, less_or_zero, lt, minus, modulo, narrow, not, num, or, over, pick,
    plus, ranked, reg, repeat_in, same_as, sum_of, times, wrap_plus, wrap_times, Expr,
};
use xlog_cuda_tests::memory::Memory;
use xlog_cuda_tests::message::{
    double, double_exp, flag, given, hex, list, note0, note1, note2, place, remark1, remark2,
    remark3, remark4, signed, tell, val, word, Arg, Args, Note,
};
use xlog_cuda_tests::scalar::Scalar;
use xlog_cuda_tests::tables::Table;

fn memory() -> Memory {
    let mut memory = Memory::new(vec!["kernels".to_string()]);
    memory.put_column(0, vec![5, 6, 5]);
    memory.put_column(1, vec![5, 6, 7]);
    memory.put_column(2, vec![0, 0, 1]);
    memory.put_register(0, 12);
    memory.put_timing("1.5s".to_string());
    memory
}

fn value(expr: Expr) -> Option<u64> {
    evaluate(&expr, &memory(), 1)
}

#[test]
fn arithmetic_is_checked() {
    assert_eq!(value(plus(num(2), num(3))), Some(5));
    assert_eq!(value(plus(num(u64::MAX), num(1))), None);
    assert_eq!(value(minus(num(3), num(2))), Some(1));
    assert_eq!(value(minus(num(2), num(3))), None);
    assert_eq!(value(less_or_zero(num(2), num(3))), Some(0));
    assert_eq!(value(times(num(6), num(7))), Some(42));
    assert_eq!(value(times(num(1 << 32), num(1 << 32))), None);
    assert_eq!(value(over(num(7), num(2))), Some(3));
    assert_eq!(value(over(num(7), num(0))), None);
    assert_eq!(value(modulo(num(7), num(4))), Some(3));
    assert_eq!(value(modulo(num(7), num(0))), None);
    assert_eq!(value(least(num(7), num(4))), Some(4));
    assert_eq!(value(wrap_plus(num(u64::MAX), num(2))), Some(1));
    assert_eq!(value(wrap_times(num(1 << 63), num(2))), Some(0));
    assert_eq!(value(narrow(num(u32::MAX as u64))), Some(u32::MAX as u64));
    assert_eq!(value(narrow(num(1 << 32))), None);
}

#[test]
fn conditions_are_one_or_zero() {
    assert_eq!(value(lt(num(1), num(2))), Some(1));
    assert_eq!(value(same_as(num(1), num(2))), Some(0));
    assert_eq!(value(differs(num(1), num(2))), Some(1));
    assert_eq!(value(not(num(5))), Some(0));
    assert_eq!(value(and(num(0), over(num(1), num(0)))), Some(0));
    assert_eq!(value(and(num(1), over(num(1), num(0)))), None);
    assert_eq!(value(or(num(1), over(num(1), num(0)))), Some(1));
    assert_eq!(value(or(num(0), over(num(1), num(0)))), None);
    assert_eq!(value(pick(num(1), num(8), over(num(1), num(0)))), Some(8));
}

#[test]
fn memory_is_read() {
    assert_eq!(value(reg(0)), Some(12));
    assert_eq!(value(reg(16)), None);
    assert_eq!(value(ix()), Some(1));
    assert_eq!(value(len(0)), Some(3));
    assert_eq!(value(len(16)), None);
    assert_eq!(value(at(0, num(2))), Some(5));
    assert_eq!(value(at(0, num(3))), None);
    assert_eq!(value(here(1)), Some(6));
    assert_eq!(value(before(1)), Some(5));
    assert_eq!(value(entry(Table::Powers, num(10))), Some(1024));
    assert_eq!(value(sum_of(0)), Some(16));
    assert_eq!(value(distinct_in(0)), Some(2));
    assert_eq!(value(found_in(2)), Some(2));
    assert_eq!(value(repeat_in(0)), Some(2));
    assert_eq!(value(count_in(0, num(5))), Some(2));
    assert_eq!(value(alike(0, 1)), Some(0));
    assert_eq!(value(gap(0, 1)), Some(2));
    assert_eq!(value(alike_sets(0, 1)), Some(0));
    assert_eq!(value(ranked(Scalar::I64, num(0))), Some(1 << 63));
}

fn text(note: Note, reason: Option<&str>) -> String {
    let message = tell(&note, &memory(), 1, reason.map(|r| r.to_string())).unwrap();
    let doubles = message
        .doubles()
        .into_iter()
        .map(|(word, exponent)| {
            let number = f64::from_bits(word);
            if exponent {
                format!("{:e}", number)
            } else {
                format!("{}", number)
            }
        })
        .collect();
    message.render(&doubles)
}

#[test]
fn holes_are_filled_in_order() {
    assert_eq!(text(note0("plain"), None), "plain");
    assert_eq!(text(note1("Size {}", reg(0)), None), "Size 12");
    assert_eq!(text(note2("{}/{}", num(0), num(u64::MAX)), None), "0/18446744073709551615");
    assert_eq!(text(note1("Size {}: {}", num(31)), Some("out of memory")), "Size 31: out of memory");
    assert_eq!(text(note0("{ } {} {}"), Some("x")), "{ } x {}");
}

#[test]
fn data_are_shown_by_their_kind() {
    assert_eq!(text(remark1("{}", signed(num(u64::MAX))), None), "-1");
    assert_eq!(text(remark1("{}", signed(num(1 << 63))), None), "-9223372036854775808");
    assert_eq!(text(remark1("{}", signed(num(9))), None), "9");
    assert_eq!(text(remark2("0x{} 0x{}", hex(num(0xBEEF), 8), hex(num(0), 0)), None), "0x0000BEEF 0x0");
    assert_eq!(text(remark2("{} {}", flag(num(1)), flag(num(0))), None), "true false");
    assert_eq!(text(remark1("{}", list(0, Scalar::U32)), None), "[5, 6, 5]");
    assert_eq!(text(remark1("{}", list(9, Scalar::U32)), None), "[]");
    assert_eq!(
        text(remark2("{} {}", place(num(1), num(2)), place(num(2), num(2))), None),
        "Some(1) None"
    );
    assert_eq!(text(remark3("{} {} {}", word("w"), given(0), val(ix())), None), "w kernels 1");
    let doubles = remark4(
        "{} {} {} {}",
        double(num((-0.5f64).to_bits())),
        val(num(3)),
        double_exp(num(5e-324f64.to_bits())),
        double(num(f64::INFINITY.to_bits())),
    );
    assert_eq!(text(doubles, None), "-0.5 3 5e-324 inf");
    let timing = Note { text: "after {}", args: Args::More(Arg::Timing, Box::new(Args::End)) };
    assert_eq!(text(timing, None), "after 1.5s");
}

#[test]
fn signed_lists_show_signs() {
    let mut memory = memory();
    memory.put_column(3, vec![u64::MAX, 2]);
    let message = tell(&remark1("{}", list(3, Scalar::I64)), &memory, 0, None).unwrap();
    assert_eq!(message.render(&Vec::new()), "[-1, 2]");
}

#[test]
fn a_message_that_cannot_be_computed_is_none() {
    assert!(tell(&note1("{}", at(0, num(9))), &memory(), 0, None).is_none());
    assert!(tell(&remark1("{}", given(1)), &memory(), 0, None).is_none());
}
