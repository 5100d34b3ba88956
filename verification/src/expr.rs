//! The expressions of scripts: numbers computed from what a script has in hand.

use vstd::prelude::*;
use crate::columns;
use crate::memory::{Contents, Memory};
use crate::scalar::{rank, Scalar, INFINITY, SIGN};
use crate::tables::{lookup, Table};

verus! {

/// A binary operation on 64-bit numbers. Truth is 1, falsehood 0.
#[derive(Clone, Copy, PartialEq, Eq, Structural, Debug)]
pub enum Operator {
    /// The sum.
    Plus,
    /// The difference.
    Minus,
    /// The difference, or zero where it would be negative.
    Drop,
    /// The product.
    Times,
    /// The quotient, rounded down.
    Over,
    /// The remainder.
    Modulo,
    /// The smaller of the two.
    Least,
    /// The sum modulo 2^64.
    WrapPlus,
    /// The product modulo 2^64.
    WrapTimes,
    /// Whether the first is less than the second.
    Less,
    /// Whether the two are equal.
    Same,
}

/// An expression. It has no value where the computation cannot be carried out: where a place
/// lies past the end of a column, a difference is negative, a divisor is zero, or a result does
/// not fit its width.
pub enum Expr {
    /// A fixed number.
    Number(u64),
    /// The number in a slot.
    Register(u64),
    /// The place that is being filled or looked at.
    Index,
    /// The length of a column.
    Length(u64),
    /// The word at a place of a column.
    At(u64, Box<Expr>),
    /// The word at a place of a table.
    Entry(Table, Box<Expr>),
    /// The sum of a column.
    Sum(u64),
    /// How many distinct words a column holds.
    Distinct(u64),
    /// The first place of a column that is not zero, or its length.
    Found(u64),
    /// The first place of a column whose word occurs before it, or its length.
    Repeat(u64),
    /// How often a word occurs in a column.
    Count(u64, Box<Expr>),
    /// Whether two columns are equal.
    Alike(u64, u64),
    /// The first place where two columns differ, or the shorter length.
    Gap(u64, u64),
    /// Whether two columns hold the same set of words.
    AlikeSets(u64, u64),
    /// Whether the three columns from one slot on form the same set of rows as those from
    /// another.
    AlikeRows(u64, u64),
    /// How many distinct rows the three columns from a slot on form.
    DistinctRows(u64),
    /// A binary operation.
    Binary(Operator, Box<Expr>, Box<Expr>),
    /// The opposite of a condition.
    Not(Box<Expr>),
    /// Both conditions, the second only looked at where the first holds.
    And(Box<Expr>, Box<Expr>),
    /// Either condition, the second only looked at where the first fails.
    Or(Box<Expr>, Box<Expr>),
    /// One of two numbers, by a condition.
    Pick(Box<Expr>, Box<Expr>, Box<Expr>),
    /// A number that has to fit 32 bits.
    Narrow(Box<Expr>),
    /// The rank of a word among the words of its type.
    Ranked(Scalar, Box<Expr>),
}

/// A fixed number.
#[verifier::allow_in_spec]
pub fn num(value: u64) -> Expr
    returns
        Expr::Number(value),
{
    Expr::Number(value)
}

/// The number in a slot.
#[verifier::allow_in_spec]
pub fn reg(slot: u64) -> Expr
    returns
        Expr::Register(slot),
{
    Expr::Register(slot)
}

/// The place that is being filled or looked at.
#[verifier::allow_in_spec]
pub fn ix() -> Expr
    returns
        Expr::Index,
{
    Expr::Index
}

/// The length of a column.
#[verifier::allow_in_spec]
pub fn len(column: u64) -> Expr
    returns
        Expr::Length(column),
{
    Expr::Length(column)
}

/// The word at a place of a column.
#[verifier::allow_in_spec]
pub fn at(column: u64, place: Expr) -> Expr
    returns
        Expr::At(column, Box::new(place)),
{
    Expr::At(column, Box::new(place))
}

/// The word of a column at the current place.
#[verifier::allow_in_spec]
pub fn here(column: u64) -> Expr
    returns
        Expr::At(column, Box::new(Expr::Index)),
{
    Expr::At(column, Box::new(Expr::Index))
}

/// The word of a column one place before the current one.
#[verifier::allow_in_spec]
pub fn before(column: u64) -> Expr
    returns
        Expr::At(
            column,
            Box::new(
                Expr::Binary(Operator::Minus, Box::new(Expr::Index), Box::new(Expr::Number(1))),
            ),
        ),
{
    Expr::At(
            column,
            Box::new(
                Expr::Binary(Operator::Minus, Box::new(Expr::Index), Box::new(Expr::Number(1))),
            ),
        )
}

/// The word at a place of a table.
#[verifier::allow_in_spec]
pub fn entry(table: Table, place: Expr) -> Expr
    returns
        Expr::Entry(table, Box::new(place)),
{
    Expr::Entry(table, Box::new(place))
}

/// The sum of a column.
#[verifier::allow_in_spec]
pub fn sum_of(column: u64) -> Expr
    returns
        Expr::Sum(column),
{
    Expr::Sum(column)
}

/// How many distinct words a column holds.
#[verifier::allow_in_spec]
pub fn distinct_in(column: u64) -> Expr
    returns
        Expr::Distinct(column),
{
    Expr::Distinct(column)
}

/// The first place of a column that is not zero, or its length.
#[verifier::allow_in_spec]
pub fn found_in(column: u64) -> Expr
    returns
        Expr::Found(column),
{
    Expr::Found(column)
}

/// The first place of a column whose word occurs before it, or its length.
#[verifier::allow_in_spec]
pub fn repeat_in(column: u64) -> Expr
    returns
        Expr::Repeat(column),
{
    Expr::Repeat(column)
}

/// How often a word occurs in a column.
#[verifier::allow_in_spec]
pub fn count_in(column: u64, word: Expr) -> Expr
    returns
        Expr::Count(column, Box::new(word)),
{
    Expr::Count(column, Box::new(word))
}

/// Whether two columns are equal.
#[verifier::allow_in_spec]
pub fn alike(left: u64, right: u64) -> Expr
    returns
        Expr::Alike(left, right),
{
    Expr::Alike(left, right)
}

/// The first place where two columns differ, or the shorter length.
#[verifier::allow_in_spec]
pub fn gap(left: u64, right: u64) -> Expr
    returns
        Expr::Gap(left, right),
{
    Expr::Gap(left, right)
}

/// Whether two columns hold the same set of words.
#[verifier::allow_in_spec]
pub fn alike_sets(left: u64, right: u64) -> Expr
    returns
        Expr::AlikeSets(left, right),
{
    Expr::AlikeSets(left, right)
}

/// Whether the three columns from `left` on form the same set of rows as those from `right` on.
#[verifier::allow_in_spec]
pub fn alike_rows(left: u64, right: u64) -> Expr
    returns
        Expr::AlikeRows(left, right),
{
    Expr::AlikeRows(left, right)
}

/// How many distinct rows the three columns from `column` on form.
#[verifier::allow_in_spec]
pub fn distinct_rows_in(column: u64) -> Expr
    returns
        Expr::DistinctRows(column),
{
    Expr::DistinctRows(column)
}

/// The sum of two numbers.
#[verifier::allow_in_spec]
pub fn plus(left: Expr, right: Expr) -> Expr
    returns
        Expr::Binary(Operator::Plus, Box::new(left), Box::new(right)),
{
    Expr::Binary(Operator::Plus, Box::new(left), Box::new(right))
}

/// The difference of two numbers.
#[verifier::allow_in_spec]
pub fn minus(left: Expr, right: Expr) -> Expr
    returns
        Expr::Binary(Operator::Minus, Box::new(left), Box::new(right)),
{
    Expr::Binary(Operator::Minus, Box::new(left), Box::new(right))
}

/// The difference of two numbers, or zero where it would be negative.
#[verifier::allow_in_spec]
pub fn less_or_zero(left: Expr, right: Expr) -> Expr
    returns
        Expr::Binary(Operator::Drop, Box::new(left), Box::new(right)),
{
    Expr::Binary(Operator::Drop, Box::new(left), Box::new(right))
}

/// The product of two numbers.
#[verifier::allow_in_spec]
pub fn times(left: Expr, right: Expr) -> Expr
    returns
        Expr::Binary(Operator::Times, Box::new(left), Box::new(right)),
{
    Expr::Binary(Operator::Times, Box::new(left), Box::new(right))
}

/// The quotient of two numbers, rounded down.
#[verifier::allow_in_spec]
pub fn over(left: Expr, right: Expr) -> Expr
    returns
        Expr::Binary(Operator::Over, Box::new(left), Box::new(right)),
{
    Expr::Binary(Operator::Over, Box::new(left), Box::new(right))
}

/// The remainder of a division.
#[verifier::allow_in_spec]
pub fn modulo(left: Expr, right: Expr) -> Expr
    returns
        Expr::Binary(Operator::Modulo, Box::new(left), Box::new(right)),
{
    Expr::Binary(Operator::Modulo, Box::new(left), Box::new(right))
}

/// The smaller of two numbers.
#[verifier::allow_in_spec]
pub fn least(left: Expr, right: Expr) -> Expr
    returns
        Expr::Binary(Operator::Least, Box::new(left), Box::new(right)),
{
    Expr::Binary(Operator::Least, Box::new(left), Box::new(right))
}

/// The sum of two numbers, modulo 2^64.
#[verifier::allow_in_spec]
pub fn wrap_plus(left: Expr, right: Expr) -> Expr
    returns
        Expr::Binary(Operator::WrapPlus, Box::new(left), Box::new(right)),
{
    Expr::Binary(Operator::WrapPlus, Box::new(left), Box::new(right))
}

/// The product of two numbers, modulo 2^64.
#[verifier::allow_in_spec]
pub fn wrap_times(left: Expr, right: Expr) -> Expr
    returns
        Expr::Binary(Operator::WrapTimes, Box::new(left), Box::new(right)),
{
    Expr::Binary(Operator::WrapTimes, Box::new(left), Box::new(right))
}

/// Whether the first number is less than the second.
#[verifier::allow_in_spec]
pub fn lt(left: Expr, right: Expr) -> Expr
    returns
        Expr::Binary(Operator::Less, Box::new(left), Box::new(right)),
{
    Expr::Binary(Operator::Less, Box::new(left), Box::new(right))
}

/// Whether two numbers are equal.
#[verifier::allow_in_spec]
pub fn same_as(left: Expr, right: Expr) -> Expr
    returns
        Expr::Binary(Operator::Same, Box::new(left), Box::new(right)),
{
    Expr::Binary(Operator::Same, Box::new(left), Box::new(right))
}

/// The opposite of a condition.
#[verifier::allow_in_spec]
pub fn not(condition: Expr) -> Expr
    returns
        Expr::Not(Box::new(condition)),
{
    Expr::Not(Box::new(condition))
}

/// Whether two numbers differ.
#[verifier::allow_in_spec]
pub fn differs(left: Expr, right: Expr) -> Expr
    returns
        Expr::Not(Box::new(Expr::Binary(Operator::Same, Box::new(left), Box::new(right)))),
{
    Expr::Not(Box::new(Expr::Binary(Operator::Same, Box::new(left), Box::new(right))))
}

/// Whether both conditions hold; the second is looked at only where the first holds.
#[verifier::allow_in_spec]
pub fn and(left: Expr, right: Expr) -> Expr
    returns
        Expr::And(Box::new(left), Box::new(right)),
{
    Expr::And(Box::new(left), Box::new(right))
}

/// Whether one of the conditions holds; the second is looked at only where the first fails.
#[verifier::allow_in_spec]
pub fn or(left: Expr, right: Expr) -> Expr
    returns
        Expr::Or(Box::new(left), Box::new(right)),
{
    Expr::Or(Box::new(left), Box::new(right))
}

/// One of two numbers, by a condition.
#[verifier::allow_in_spec]
pub fn pick(condition: Expr, yes: Expr, no: Expr) -> Expr
    returns
        Expr::Pick(Box::new(condition), Box::new(yes), Box::new(no)),
{
    Expr::Pick(Box::new(condition), Box::new(yes), Box::new(no))
}

/// A number that has to fit 32 bits.
#[verifier::allow_in_spec]
pub fn narrow(number: Expr) -> Expr
    returns
        Expr::Narrow(Box::new(number)),
{
    Expr::Narrow(Box::new(number))
}

/// Whether the words of two columns at the current place differ as doubles: what is no number
/// differs from everything, and the two zeros do not differ.
#[verifier::allow_in_spec]
pub fn doubles_differ(left: u64, right: u64) -> Expr
    returns
        not(
            and(
                not(lt(num(INFINITY), modulo(here(left), num(SIGN)))),
                and(
                    not(lt(num(INFINITY), modulo(here(right), num(SIGN)))),
                    or(
                        same_as(here(left), here(right)),
                        and(
                            same_as(modulo(here(left), num(SIGN)), num(0)),
                            same_as(modulo(here(right), num(SIGN)), num(0)),
                        ),
                    ),
                ),
            ),
        ),
{
    not(
        and(
            not(lt(num(INFINITY), modulo(here(left), num(SIGN)))),
            and(
                not(lt(num(INFINITY), modulo(here(right), num(SIGN)))),
                or(
                    same_as(here(left), here(right)),
                    and(
                        same_as(modulo(here(left), num(SIGN)), num(0)),
                        same_as(modulo(here(right), num(SIGN)), num(0)),
                    ),
                ),
            ),
        ),
    )
}

/// The rank of a word among the words of its type.
#[verifier::allow_in_spec]
pub fn ranked(scalar: Scalar, word: Expr) -> Expr
    returns
        Expr::Ranked(scalar, Box::new(word)),
{
    Expr::Ranked(scalar, Box::new(word))
}

/// A number as far as it fits 64 bits.
pub open spec fn fitting(number: int) -> Option<u64> {
    if 0 <= number <= u64::MAX {
        Some(number as u64)
    } else {
        None
    }
}

/// Truth as a number.
pub open spec fn truth(condition: bool) -> u64 {
    if condition {
        1
    } else {
        0
    }
}

/// What a binary operation gives.
pub open spec fn applied(operator: Operator, left: u64, right: u64) -> Option<u64> {
    match operator {
        Operator::Plus => fitting(left + right),
        Operator::Minus => fitting(left - right),
        Operator::Drop => Some(
            if left >= right {
                (left - right) as u64
            } else {
                0
            },
        ),
        Operator::Times => fitting(left * right),
        Operator::Over => if right == 0 {
            None
        } else {
            Some(left / right)
        },
        Operator::Modulo => if right == 0 {
            None
        } else {
            Some(left % right)
        },
        Operator::Least => Some(
            if left <= right {
                left
            } else {
                right
            },
        ),
        Operator::WrapPlus => Some(((left + right) % 0x1_0000_0000_0000_0000) as u64),
        Operator::WrapTimes => Some(((left * right) % 0x1_0000_0000_0000_0000) as u64),
        Operator::Less => Some(truth(left < right)),
        Operator::Same => Some(truth(left == right)),
    }
}

/// The three columns from a slot on, as rows.
pub open spec fn rows_from(contents: Contents, slot: u64) -> Option<Seq<(u64, u64, u64)>> {
    if slot + 2 < contents.columns.len() {
        Some(
            columns::rows(
                contents.columns[slot as int],
                contents.columns[slot + 1],
                contents.columns[slot + 2],
            ),
        )
    } else {
        None
    }
}

/// The value of an expression at a place, over what a script has in hand.
pub open spec fn value_of(expr: Expr, contents: Contents, index: u64) -> Option<u64>
    decreases expr,
{
    let columns = contents.columns;
    match expr {
        Expr::Number(value) => Some(value),
        Expr::Register(slot) => if slot < contents.registers.len() {
            Some(contents.registers[slot as int])
        } else {
            None
        },
        Expr::Index => Some(index),
        Expr::Length(column) => if column < columns.len() {
            fitting(columns[column as int].len() as int)
        } else {
            None
        },
        Expr::At(column, place) => match value_of(*place, contents, index) {
            Some(place) => if column < columns.len() && place < columns[column as int].len() {
                Some(columns[column as int][place as int])
            } else {
                None
            },
            None => None,
        },
        Expr::Entry(table, place) => match value_of(*place, contents, index) {
            Some(place) => if place < crate::tables::words_of(table).len() {
                Some(crate::tables::words_of(table)[place as int])
            } else {
                None
            },
            None => None,
        },
        Expr::Sum(column) => if column < columns.len() {
            fitting(columns::total(columns[column as int]))
        } else {
            None
        },
        Expr::Distinct(column) => if column < columns.len() {
            fitting(columns[column as int].to_set().len() as int)
        } else {
            None
        },
        Expr::Found(column) => if column < columns.len() {
            fitting(columns::first_set(columns[column as int], 0))
        } else {
            None
        },
        Expr::Repeat(column) => if column < columns.len() {
            fitting(columns::first_repeat(columns[column as int], 0))
        } else {
            None
        },
        Expr::Count(column, word) => match value_of(*word, contents, index) {
            Some(word) => if column < columns.len() {
                fitting(columns::occurrences(columns[column as int], word))
            } else {
                None
            },
            None => None,
        },
        Expr::Alike(left, right) => if left < columns.len() && right < columns.len() {
            Some(truth(columns[left as int] == columns[right as int]))
        } else {
            None
        },
        Expr::Gap(left, right) => if left < columns.len() && right < columns.len() {
            fitting(columns::first_difference(columns[left as int], columns[right as int], 0))
        } else {
            None
        },
        Expr::AlikeSets(left, right) => if left < columns.len() && right < columns.len() {
            Some(truth(columns[left as int].to_set() == columns[right as int].to_set()))
        } else {
            None
        },
        Expr::AlikeRows(left, right) => match (
            rows_from(contents, left),
            rows_from(contents, right),
        ) {
            (Some(left), Some(right)) => Some(truth(left.to_set() == right.to_set())),
            _ => None,
        },
        Expr::DistinctRows(column) => match rows_from(contents, column) {
            Some(rows) => fitting(rows.to_set().len() as int),
            None => None,
        },
        Expr::Binary(operator, left, right) => match (
            value_of(*left, contents, index),
            value_of(*right, contents, index),
        ) {
            (Some(left), Some(right)) => applied(operator, left, right),
            _ => None,
        },
        Expr::Not(condition) => match value_of(*condition, contents, index) {
            Some(value) => Some(truth(value == 0)),
            None => None,
        },
        Expr::And(left, right) => match value_of(*left, contents, index) {
            Some(value) => if value == 0 {
                Some(0)
            } else {
                match value_of(*right, contents, index) {
                    Some(value) => Some(truth(value != 0)),
                    None => None,
                }
            },
            None => None,
        },
        Expr::Or(left, right) => match value_of(*left, contents, index) {
            Some(value) => if value != 0 {
                Some(1)
            } else {
                match value_of(*right, contents, index) {
                    Some(value) => Some(truth(value != 0)),
                    None => None,
                }
            },
            None => None,
        },
        Expr::Pick(condition, yes, no) => match value_of(*condition, contents, index) {
            Some(value) => if value != 0 {
                value_of(*yes, contents, index)
            } else {
                value_of(*no, contents, index)
            },
            None => None,
        },
        Expr::Narrow(number) => match value_of(*number, contents, index) {
            Some(value) => if value <= u32::MAX {
                Some(value)
            } else {
                None
            },
            None => None,
        },
        Expr::Ranked(scalar, word) => match value_of(*word, contents, index) {
            Some(word) => Some(crate::scalar::rank_of(scalar, word)),
            None => None,
        },
    }
}

/// Carries out a binary operation.
fn apply(operator: Operator, left: u64, right: u64) -> (result: Option<u64>)
    ensures
        result == applied(operator, left, right),
{
    match operator {
        Operator::Plus => left.checked_add(right),
        Operator::Minus => left.checked_sub(right),
        Operator::Drop => Some(
            if left >= right {
                left - right
            } else {
                0
            },
        ),
        Operator::Times => left.checked_mul(right),
        Operator::Over => if right == 0 {
            None
        } else {
            Some(left / right)
        },
        Operator::Modulo => if right == 0 {
            None
        } else {
            Some(left % right)
        },
        Operator::Least => Some(
            if left <= right {
                left
            } else {
                right
            },
        ),
        Operator::WrapPlus => Some(left.wrapping_add(right)),
        Operator::WrapTimes => Some(left.wrapping_mul(right)),
        Operator::Less => Some(number(left < right)),
        Operator::Same => Some(number(left == right)),
    }
}

/// Truth as a number.
fn number(condition: bool) -> (result: u64)
    ensures
        result == truth(condition),
{
    if condition {
        1
    } else {
        0
    }
}

/// Computes the value of an expression.
pub fn evaluate(expr: &Expr, memory: &Memory, index: u64) -> (result: Option<u64>)
    ensures
        result == value_of(*expr, memory@, index),
    decreases expr,
{
    match expr {
        Expr::Number(value) => Some(*value),
        Expr::Register(slot) => if *slot < memory.registers.len() as u64 {
            Some(memory.registers[*slot as usize])
        } else {
            None
        },
        Expr::Index => Some(index),
        Expr::Length(column) => if *column < memory.columns.len() as u64 {
            Some(memory.columns[*column as usize].len() as u64)
        } else {
            None
        },
        Expr::At(column, place) => match evaluate(place, memory, index) {
            Some(place) => if *column < memory.columns.len() as u64 && place
                < memory.columns[*column as usize].len() as u64 {
                Some(memory.columns[*column as usize][place as usize])
            } else {
                None
            },
            None => None,
        },
        Expr::Entry(table, place) => match evaluate(place, memory, index) {
            Some(place) => lookup(*table, place),
            None => None,
        },
        Expr::Sum(column) => if *column < memory.columns.len() as u64 {
            columns::sum(&memory.columns[*column as usize])
        } else {
            None
        },
        Expr::Distinct(column) => if *column < memory.columns.len() as u64 {
            Some(columns::distinct(&memory.columns[*column as usize]) as u64)
        } else {
            None
        },
        Expr::Found(column) => if *column < memory.columns.len() as u64 {
            Some(columns::find(&memory.columns[*column as usize]) as u64)
        } else {
            None
        },
        Expr::Repeat(column) => if *column < memory.columns.len() as u64 {
            Some(columns::repeat(&memory.columns[*column as usize]) as u64)
        } else {
            None
        },
        Expr::Count(column, word) => match evaluate(word, memory, index) {
            Some(word) => if *column < memory.columns.len() as u64 {
                Some(columns::count(&memory.columns[*column as usize], word) as u64)
            } else {
                None
            },
            None => None,
        },
        Expr::Alike(left, right) => if *left < memory.columns.len() as u64 && *right
            < memory.columns.len() as u64 {
            Some(
                number(
                    columns::same(
                        &memory.columns[*left as usize],
                        &memory.columns[*right as usize],
                    ),
                ),
            )
        } else {
            None
        },
        Expr::Gap(left, right) => if *left < memory.columns.len() as u64 && *right
            < memory.columns.len() as u64 {
            Some(
                columns::difference(
                    &memory.columns[*left as usize],
                    &memory.columns[*right as usize],
                ) as u64,
            )
        } else {
            None
        },
        Expr::AlikeSets(left, right) => if *left < memory.columns.len() as u64 && *right
            < memory.columns.len() as u64 {
            Some(
                number(
                    columns::same_set(
                        &memory.columns[*left as usize],
                        &memory.columns[*right as usize],
                    ),
                ),
            )
        } else {
            None
        },
        Expr::AlikeRows(left, right) => if three_from(memory, *left) && three_from(
            memory,
            *right,
        ) {
            let left: usize = *left as usize;
            let right: usize = *right as usize;
            Some(
                number(
                    columns::same_rows(
                        &memory.columns[left],
                        &memory.columns[left + 1],
                        &memory.columns[left + 2],
                        &memory.columns[right],
                        &memory.columns[right + 1],
                        &memory.columns[right + 2],
                    ),
                ),
            )
        } else {
            None
        },
        Expr::DistinctRows(column) => if three_from(memory, *column) {
            let column: usize = *column as usize;
            Some(
                columns::distinct_rows(
                    &memory.columns[column],
                    &memory.columns[column + 1],
                    &memory.columns[column + 2],
                ) as u64,
            )
        } else {
            None
        },
        Expr::Binary(operator, left, right) => match (
            evaluate(left, memory, index),
            evaluate(right, memory, index),
        ) {
            (Some(left), Some(right)) => apply(*operator, left, right),
            _ => None,
        },
        Expr::Not(condition) => match evaluate(condition, memory, index) {
            Some(value) => Some(number(value == 0)),
            None => None,
        },
        Expr::And(left, right) => match evaluate(left, memory, index) {
            Some(value) => if value == 0 {
                Some(0)
            } else {
                match evaluate(right, memory, index) {
                    Some(value) => Some(number(value != 0)),
                    None => None,
                }
            },
            None => None,
        },
        Expr::Or(left, right) => match evaluate(left, memory, index) {
            Some(value) => if value != 0 {
                Some(1)
            } else {
                match evaluate(right, memory, index) {
                    Some(value) => Some(number(value != 0)),
                    None => None,
                }
            },
            None => None,
        },
        Expr::Pick(condition, yes, no) => match evaluate(condition, memory, index) {
            Some(value) => if value != 0 {
                evaluate(yes, memory, index)
            } else {
                evaluate(no, memory, index)
            },
            None => None,
        },
        Expr::Narrow(number) => match evaluate(number, memory, index) {
            Some(value) => if value <= u32::MAX as u64 {
                Some(value)
            } else {
                None
            },
            None => None,
        },
        Expr::Ranked(scalar, word) => match evaluate(word, memory, index) {
            Some(word) => Some(rank(*scalar, word)),
            None => None,
        },
    }
}

/// Whether there are three columns from a slot on.
fn three_from(memory: &Memory, slot: u64) -> (result: bool)
    ensures
        result == (slot + 2 < memory@.columns.len()),
        result ==> slot + 2 < usize::MAX,
{
    memory.columns.len() >= 3 && slot < (memory.columns.len() - 2) as u64
}

} // verus!
