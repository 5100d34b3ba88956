//! The messages of verdicts: a text with holes, and the data that fill them.

use vstd::prelude::*;
use crate::expr::{evaluate, Expr};
use crate::memory::{Contents, Memory};
use crate::scalar::Scalar;

verus! {

/// What a note shows in one of its holes.
pub enum Arg {
    /// A number.
    Number(Expr),
    /// A word as a signed number.
    Signed(Expr),
    /// A word as a double, with an exponent or without.
    Double(Expr, bool),
    /// A word in at least so many hexadecimal digits.
    Hex(Expr, u64),
    /// A fixed text.
    Word(&'static str),
    /// Whether a condition holds.
    Flag(Expr),
    /// A column of a type.
    List(u64, Scalar),
    /// A place, if it lies below a limit.
    Place(Expr, Expr),
    /// The timing that was taken last.
    Timing,
    /// One of the texts that the script was given.
    Given(u64),
}

/// The arguments of a note.
pub enum Args {
    End,
    More(Arg, Box<Args>),
}

/// What a script says where a step of it fails: a text with a hole `{}` for each argument. A
/// failed request fills one hole more, the last one, with the reason that the device gave.
pub struct Note {
    pub text: &'static str,
    pub args: Args,
}

/// An argument that shows a number.
#[verifier::allow_in_spec]
pub fn val(expr: Expr) -> Arg
    returns
        Arg::Number(expr),
{
    Arg::Number(expr)
}

/// An argument that shows a signed number.
#[verifier::allow_in_spec]
pub fn signed(word: Expr) -> Arg
    returns
        Arg::Signed(word),
{
    Arg::Signed(word)
}

/// An argument that shows a double.
#[verifier::allow_in_spec]
pub fn double(word: Expr) -> Arg
    returns
        Arg::Double(word, false),
{
    Arg::Double(word, false)
}

/// An argument that shows a double with an exponent.
#[verifier::allow_in_spec]
pub fn double_exp(word: Expr) -> Arg
    returns
        Arg::Double(word, true),
{
    Arg::Double(word, true)
}

/// An argument that shows a word in hexadecimal digits.
#[verifier::allow_in_spec]
pub fn hex(word: Expr, digits: u64) -> Arg
    returns
        Arg::Hex(word, digits),
{
    Arg::Hex(word, digits)
}

/// An argument that is a fixed text.
#[verifier::allow_in_spec]
pub fn word(text: &'static str) -> Arg
    returns
        Arg::Word(text),
{
    Arg::Word(text)
}

/// An argument that shows whether a condition holds.
#[verifier::allow_in_spec]
pub fn flag(condition: Expr) -> Arg
    returns
        Arg::Flag(condition),
{
    Arg::Flag(condition)
}

/// An argument that shows a column.
#[verifier::allow_in_spec]
pub fn list(column: u64, scalar: Scalar) -> Arg
    returns
        Arg::List(column, scalar),
{
    Arg::List(column, scalar)
}

/// An argument that shows a place, if it lies below a limit.
#[verifier::allow_in_spec]
pub fn place(place: Expr, limit: Expr) -> Arg
    returns
        Arg::Place(place, limit),
{
    Arg::Place(place, limit)
}

/// An argument that shows one of the texts that the script was given.
#[verifier::allow_in_spec]
pub fn given(text: u64) -> Arg
    returns
        Arg::Given(text),
{
    Arg::Given(text)
}

/// Arguments with one more before them.
#[verifier::allow_in_spec]
pub fn more(arg: Arg, rest: Args) -> Args
    returns
        Args::More(arg, Box::new(rest)),
{
    Args::More(arg, Box::new(rest))
}

/// A note without arguments.
#[verifier::allow_in_spec]
pub fn note0(text: &'static str) -> Note
    returns
        (Note { text, args: Args::End }),
{
    Note { text, args: Args::End }
}

/// A note with one argument.
#[verifier::allow_in_spec]
pub fn remark1(text: &'static str, a: Arg) -> Note
    returns
        (Note { text, args: more(a, Args::End) }),
{
    Note { text, args: more(a, Args::End) }
}

/// A note with two arguments.
#[verifier::allow_in_spec]
pub fn remark2(text: &'static str, a: Arg, b: Arg) -> Note
    returns
        (Note { text, args: more(a, more(b, Args::End)) }),
{
    Note { text, args: more(a, more(b, Args::End)) }
}

/// A note with three arguments.
#[verifier::allow_in_spec]
pub fn remark3(text: &'static str, a: Arg, b: Arg, c: Arg) -> Note
    returns
        (Note { text, args: more(a, more(b, more(c, Args::End))) }),
{
    Note { text, args: more(a, more(b, more(c, Args::End))) }
}

/// A note with four arguments.
#[verifier::allow_in_spec]
pub fn remark4(text: &'static str, a: Arg, b: Arg, c: Arg, d: Arg) -> Note
    returns
        (Note { text, args: more(a, more(b, more(c, more(d, Args::End)))) }),
{
    Note { text, args: more(a, more(b, more(c, more(d, Args::End)))) }
}

/// A note with five arguments.
#[verifier::allow_in_spec]
pub fn remark5(text: &'static str, a: Arg, b: Arg, c: Arg, d: Arg, e: Arg) -> Note
    returns
        (Note { text, args: more(a, more(b, more(c, more(d, more(e, Args::End))))) }),
{
    Note { text, args: more(a, more(b, more(c, more(d, more(e, Args::End))))) }
}

/// A note with six arguments.
#[verifier::allow_in_spec]
pub fn remark6(text: &'static str, a: Arg, b: Arg, c: Arg, d: Arg, e: Arg, f: Arg) -> Note
    returns
        (Note { text, args: more(a, more(b, more(c, more(d, more(e, more(f, Args::End)))))) }),
{
    Note { text, args: more(a, more(b, more(c, more(d, more(e, more(f, Args::End)))))) }
}

/// A note that shows one number.
#[verifier::allow_in_spec]
pub fn note1(text: &'static str, a: Expr) -> Note
    returns
        remark1(text, Arg::Number(a)),
{
    remark1(text, Arg::Number(a))
}

/// A note that shows two numbers.
#[verifier::allow_in_spec]
pub fn note2(text: &'static str, a: Expr, b: Expr) -> Note
    returns
        remark2(text, Arg::Number(a), Arg::Number(b)),
{
    remark2(text, Arg::Number(a), Arg::Number(b))
}

/// A note that shows three numbers.
#[verifier::allow_in_spec]
pub fn note3(text: &'static str, a: Expr, b: Expr, c: Expr) -> Note
    returns
        remark3(text, Arg::Number(a), Arg::Number(b), Arg::Number(c)),
{
    remark3(text, Arg::Number(a), Arg::Number(b), Arg::Number(c))
}

/// A note that shows four numbers.
#[verifier::allow_in_spec]
pub fn note4(text: &'static str, a: Expr, b: Expr, c: Expr, d: Expr) -> Note
    returns
        remark4(text, Arg::Number(a), Arg::Number(b), Arg::Number(c), Arg::Number(d)),
{
    remark4(text, Arg::Number(a), Arg::Number(b), Arg::Number(c), Arg::Number(d))
}

/// A note that shows five numbers.
#[verifier::allow_in_spec]
pub fn note5(text: &'static str, a: Expr, b: Expr, c: Expr, d: Expr, e: Expr) -> Note
    returns
        remark5(
            text,
            Arg::Number(a),
            Arg::Number(b),
            Arg::Number(c),
            Arg::Number(d),
            Arg::Number(e),
        ),
{
    remark5(
        text,
        Arg::Number(a),
        Arg::Number(b),
        Arg::Number(c),
        Arg::Number(d),
        Arg::Number(e),
    )
}

/// A note that shows six numbers.
#[verifier::allow_in_spec]
pub fn note6(text: &'static str, a: Expr, b: Expr, c: Expr, d: Expr, e: Expr, f: Expr) -> Note
    returns
        remark6(
            text,
            Arg::Number(a),
            Arg::Number(b),
            Arg::Number(c),
            Arg::Number(d),
            Arg::Number(e),
            Arg::Number(f),
        ),
{
    remark6(
        text,
        Arg::Number(a),
        Arg::Number(b),
        Arg::Number(c),
        Arg::Number(d),
        Arg::Number(e),
        Arg::Number(f),
    )
}

/// A piece of data in a message.
#[derive(Debug, PartialEq, Eq)]
pub enum Datum {
    Number(u64),
    Signed(u64),
    Double(u64, bool),
    Hex(u64, u64),
    Word(&'static str),
    Flag(bool),
    List(Scalar, Vec<u64>),
    Place(Option<u64>),
    Text(String),
}

/// The contents of a [`Datum`].
pub enum Shown {
    Number(u64),
    Signed(u64),
    Double(u64, bool),
    Hex(u64, u64),
    Word(&'static str),
    Flag(bool),
    List(Scalar, Seq<u64>),
    Place(Option<u64>),
    Text(Seq<char>),
}

impl View for Datum {
    type V = Shown;

    open spec fn view(&self) -> Shown {
        match *self {
            Datum::Number(value) => Shown::Number(value),
            Datum::Signed(word) => Shown::Signed(word),
            Datum::Double(word, exponent) => Shown::Double(word, exponent),
            Datum::Hex(word, digits) => Shown::Hex(word, digits),
            Datum::Word(text) => Shown::Word(text),
            Datum::Flag(value) => Shown::Flag(value),
            Datum::List(scalar, words) => Shown::List(scalar, words@),
            Datum::Place(place) => Shown::Place(place),
            Datum::Text(text) => Shown::Text(text@),
        }
    }
}

/// A message: a text with holes and the data that fill them, in order.
#[derive(Debug, PartialEq, Eq)]
pub struct Message {
    pub text: &'static str,
    pub data: Vec<Datum>,
}

/// The contents of a [`Message`].
pub struct Said {
    pub text: &'static str,
    pub data: Seq<Shown>,
}

impl View for Message {
    type V = Said;

    open spec fn view(&self) -> Said {
        Said { text: self.text, data: Seq::new(self.data@.len(), |k: int| self.data@[k]@) }
    }
}

/// What an argument shows.
pub open spec fn shown(arg: Arg, contents: Contents, index: u64) -> Option<Shown> {
    match arg {
        Arg::Number(expr) => match crate::expr::value_of(expr, contents, index) {
            Some(value) => Some(Shown::Number(value)),
            None => None,
        },
        Arg::Signed(expr) => match crate::expr::value_of(expr, contents, index) {
            Some(value) => Some(Shown::Signed(value)),
            None => None,
        },
        Arg::Double(expr, exponent) => match crate::expr::value_of(expr, contents, index) {
            Some(value) => Some(Shown::Double(value, exponent)),
            None => None,
        },
        Arg::Hex(expr, digits) => match crate::expr::value_of(expr, contents, index) {
            Some(value) => Some(Shown::Hex(value, digits)),
            None => None,
        },
        Arg::Word(text) => Some(Shown::Word(text)),
        Arg::Flag(expr) => match crate::expr::value_of(expr, contents, index) {
            Some(value) => Some(Shown::Flag(value != 0)),
            None => None,
        },
        Arg::List(column, scalar) => if column < contents.columns.len() {
            Some(Shown::List(scalar, contents.columns[column as int]))
        } else {
            None
        },
        Arg::Place(place, limit) => match (
            crate::expr::value_of(place, contents, index),
            crate::expr::value_of(limit, contents, index),
        ) {
            (Some(place), Some(limit)) => Some(
                Shown::Place(
                    if place < limit {
                        Some(place)
                    } else {
                        None
                    },
                ),
            ),
            _ => None,
        },
        Arg::Timing => Some(Shown::Text(contents.timing)),
        Arg::Given(text) => if text < contents.texts.len() {
            Some(Shown::Text(contents.texts[text as int]))
        } else {
            None
        },
    }
}

/// What the arguments of a note show, in order.
pub open spec fn shown_all(args: Args, contents: Contents, index: u64) -> Option<Seq<Shown>>
    decreases args,
{
    match args {
        Args::End => Some(Seq::empty()),
        Args::More(first, rest) => match (
            shown(first, contents, index),
            shown_all(*rest, contents, index),
        ) {
            (Some(first), Some(rest)) => Some(seq![first] + rest),
            _ => None,
        },
    }
}

/// What a note says. A failed request adds the reason that the device gave.
pub open spec fn said(
    note: Note,
    contents: Contents,
    index: u64,
    reason: Option<Seq<char>>,
) -> Option<Said> {
    match shown_all(note.args, contents, index) {
        Some(data) => Some(
            Said {
                text: note.text,
                data: match reason {
                    Some(reason) => data.push(Shown::Text(reason)),
                    None => data,
                },
            },
        ),
        None => None,
    }
}

/// Computes what an argument shows.
fn show(arg: &Arg, memory: &Memory, index: u64) -> (result: Option<Datum>)
    ensures
        match result {
            Some(datum) => shown(*arg, memory@, index) == Some(datum@),
            None => shown(*arg, memory@, index) is None,
        },
{
    match arg {
        Arg::Number(expr) => match evaluate(expr, memory, index) {
            Some(value) => Some(Datum::Number(value)),
            None => None,
        },
        Arg::Signed(expr) => match evaluate(expr, memory, index) {
            Some(value) => Some(Datum::Signed(value)),
            None => None,
        },
        Arg::Double(expr, exponent) => match evaluate(expr, memory, index) {
            Some(value) => Some(Datum::Double(value, *exponent)),
            None => None,
        },
        Arg::Hex(expr, digits) => match evaluate(expr, memory, index) {
            Some(value) => Some(Datum::Hex(value, *digits)),
            None => None,
        },
        Arg::Word(text) => Some(Datum::Word(*text)),
        Arg::Flag(expr) => match evaluate(expr, memory, index) {
            Some(value) => Some(Datum::Flag(value != 0)),
            None => None,
        },
        Arg::List(column, scalar) => if *column < memory.columns.len() as u64 {
            let words = memory.columns[*column as usize].clone();
            assert(words@ =~= memory@.columns[*column as int]);
            Some(Datum::List(*scalar, words))
        } else {
            None
        },
        Arg::Place(place, limit) => match (
            evaluate(place, memory, index),
            evaluate(limit, memory, index),
        ) {
            (Some(place), Some(limit)) => Some(
                Datum::Place(
                    if place < limit {
                        Some(place)
                    } else {
                        None
                    },
                ),
            ),
            _ => None,
        },
        Arg::Timing => Some(Datum::Text(memory.timing.clone())),
        Arg::Given(text) => if *text < memory.texts.len() as u64 {
            Some(Datum::Text(memory.texts[*text as usize].clone()))
        } else {
            None
        },
    }
}

/// Writes a message down.
pub fn tell(note: &Note, memory: &Memory, index: u64, reason: Option<String>) -> (result: Option<
    Message,
>)
    ensures
        match result {
            Some(message) => said(
                *note,
                memory@,
                index,
                match reason {
                    Some(reason) => Some(reason@),
                    None => None,
                },
            ) == Some(message@),
            None => said(
                *note,
                memory@,
                index,
                match reason {
                    Some(reason) => Some(reason@),
                    None => None,
                },
            ) is None,
        },
{
    let mut data: Vec<Datum> = Vec::new();
    let mut rest: &Args = &note.args;
    let mut done = false;
    let ghost mut views: Seq<Shown> = Seq::empty();
    while !done
        invariant
            views.len() == data@.len(),
            forall|k: int| 0 <= k < data@.len() ==> views[k] == #[trigger] data@[k]@,
            match shown_all(*rest, memory@, index) {
                Some(more) => shown_all(note.args, memory@, index) == Some(views + more),
                None => shown_all(note.args, memory@, index) is None,
            },
            done ==> *rest is End,
        decreases
            *rest,
            if done {
                0int
            } else {
                1int
            },
    {
        match rest {
            Args::End => {
                done = true;
            },
            Args::More(first, more) => {
                match show(first, memory, index) {
                    Some(datum) => {
                        proof {
                            let all = shown_all(*rest, memory@, index);
                            match shown_all(**more, memory@, index) {
                                Some(tail) => {
                                    assert(views + (seq![datum@] + tail) =~= views.push(datum@)
                                        + tail);
                                },
                                None => {},
                            }
                            views = views.push(datum@);
                        }
                        data.push(datum);
                    },
                    None => {
                        return None;
                    },
                }
                rest = &**more;
            },
        }
    }
    assert(views + Seq::<Shown>::empty() =~= views);
    match reason {
        Some(reason) => {
            proof {
                views = views.push(Shown::Text(reason@));
            }
            data.push(Datum::Text(reason));
        },
        None => {},
    }
    let message = Message { text: note.text, data };
    assert(message@.data =~= views);
    Some(message)
}

} // verus!
