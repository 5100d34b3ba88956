//! Messages as text.

use vstd::prelude::*;
use vstd::string::*;
use crate::message::{Datum, Message, Said, Shown};
use crate::scalar::{Scalar, SIGN};

verus! {

/// The digits up to fifteen.
pub const DIGITS: [&'static str; 16] = [
    "0", "1", "2", "3", "4", "5", "6", "7", "8", "9", "A", "B", "C", "D", "E", "F",
];

/// A number in decimal digits.
pub open spec fn decimal(number: nat) -> Seq<char>
    decreases number,
{
    if number < 10 {
        DIGITS@[number as int]@
    } else {
        decimal(number / 10) + DIGITS@[(number % 10) as int]@
    }
}

/// A number in at least `least` hexadecimal digits.
pub open spec fn hexadecimal(number: nat, least: nat) -> Seq<char>
    decreases number, least,
{
    if number < 16 && least <= 1 {
        DIGITS@[number as int]@
    } else {
        hexadecimal(
            number / 16,
            if least == 0 {
                0
            } else {
                (least - 1) as nat
            },
        ) + DIGITS@[(number % 16) as int]@
    }
}

/// A word as a signed number in decimal digits.
pub open spec fn signed_decimal(word: u64) -> Seq<char> {
    if word < SIGN {
        decimal(word as nat)
    } else {
        "-"@ + decimal((0x1_0000_0000_0000_0000 - word) as nat)
    }
}

/// A word of a type.
pub open spec fn word_text(scalar: Scalar, word: u64) -> Seq<char> {
    match scalar {
        Scalar::I64 => signed_decimal(word),
        _ => decimal(word as nat),
    }
}

/// The first `count` words of a list, with commas between them.
pub open spec fn listed(scalar: Scalar, words: Seq<u64>, count: nat) -> Seq<char>
    decreases count,
{
    if count == 0 {
        Seq::empty()
    } else if count == 1 {
        word_text(scalar, words[0])
    } else {
        listed(scalar, words, (count - 1) as nat) + ", "@ + word_text(scalar, words[count - 1])
    }
}

/// The doubles among some data, in order, and whether they are shown with an exponent.
pub open spec fn doubles_in(data: Seq<Shown>) -> Seq<(u64, bool)>
    decreases data.len(),
{
    if data.len() == 0 {
        Seq::empty()
    } else {
        match data.last() {
            Shown::Double(word, exponent) => doubles_in(data.drop_last()).push((word, exponent)),
            _ => doubles_in(data.drop_last()),
        }
    }
}

/// A piece of data as text. The texts of doubles are given.
pub open spec fn shown_text(shown: Shown, double: Seq<char>) -> Seq<char> {
    match shown {
        Shown::Number(number) => decimal(number as nat),
        Shown::Signed(word) => signed_decimal(word),
        Shown::Double(_, _) => double,
        Shown::Hex(word, digits) => hexadecimal(word as nat, digits as nat),
        Shown::Word(text) => text@,
        Shown::Flag(value) => if value {
            "true"@
        } else {
            "false"@
        },
        Shown::List(scalar, words) => "["@ + listed(scalar, words, words.len()) + "]"@,
        Shown::Place(place) => match place {
            Some(place) => "Some("@ + decimal(place as nat) + ")"@,
            None => "None"@,
        },
        Shown::Text(text) => text,
    }
}

/// Some data as texts. The texts of the doubles among them are given, in order.
pub open spec fn texts_of(data: Seq<Shown>, doubles: Seq<Seq<char>>) -> Seq<Seq<char>> {
    Seq::new(
        data.len(),
        |k: int| shown_text(data[k], doubles[doubles_in(data.take(k)).len() as int]),
    )
}

/// A text from place `at` on, with its holes filled by the pieces from number `next` on.
pub open spec fn woven(text: Seq<char>, at: int, pieces: Seq<Seq<char>>, next: int) -> Seq<char>
    decreases text.len() - at,
{
    if at >= text.len() {
        Seq::empty()
    } else if at + 1 < text.len() && text[at] == '{' && text[at + 1] == '}' && next
        < pieces.len() {
        pieces[next] + woven(text, at + 2, pieces, next + 1)
    } else {
        seq![text[at]] + woven(text, at + 1, pieces, next)
    }
}

/// A message as text. The texts of the doubles in it are given, in order.
pub open spec fn rendered(said: Said, doubles: Seq<Seq<char>>) -> Seq<char> {
    woven(said.text@, 0, texts_of(said.data, doubles), 0)
}

/// Spells a text out.
pub fn spell(text: &str) -> (chars: Vec<char>)
    ensures
        chars@ == text@,
{
    let mut chars: Vec<char> = Vec::new();
    for c in iter: text.chars()
        invariant
            iter.seq() == text@,
            chars@ == iter.seq().take(iter.index() as int),
    {
        chars.push(c);
    }
    assert(chars@ =~= text@);
    chars
}

/// Writes a number in decimal digits.
fn write_decimal(number: u64) -> (text: String)
    ensures
        text@ == decimal(number as nat),
    decreases number,
{
    if number < 10 {
        DIGITS[number as usize].to_owned()
    } else {
        let mut text = write_decimal(number / 10);
        text.append(DIGITS[(number % 10) as usize]);
        text
    }
}

/// Writes a number in at least `least` hexadecimal digits.
fn write_hexadecimal(number: u64, least: u64) -> (text: String)
    ensures
        text@ == hexadecimal(number as nat, least as nat),
    decreases number, least,
{
    if number < 16 && least <= 1 {
        DIGITS[number as usize].to_owned()
    } else {
        let mut text = write_hexadecimal(
            number / 16,
            if least == 0 {
                0
            } else {
                least - 1
            },
        );
        text.append(DIGITS[(number % 16) as usize]);
        text
    }
}

/// Writes a word as a signed number.
fn write_signed(word: u64) -> (text: String)
    ensures
        text@ == signed_decimal(word),
{
    if word < SIGN {
        write_decimal(word)
    } else {
        let digits = write_decimal(u64::MAX - word + 1);
        String::from_str("-").concat(digits.as_str())
    }
}

/// Writes a word of a type.
fn write_word(scalar: Scalar, word: u64) -> (text: String)
    ensures
        text@ == word_text(scalar, word),
{
    match scalar {
        Scalar::I64 => write_signed(word),
        _ => write_decimal(word),
    }
}

/// Writes a list of words.
fn write_list(scalar: Scalar, words: &Vec<u64>) -> (text: String)
    ensures
        text@ == "["@ + listed(scalar, words@, words@.len()) + "]"@,
{
    let mut inner = String::new();
    let mut at: usize = 0;
    while at < words.len()
        invariant
            at <= words.len(),
            inner@ == listed(scalar, words@, at as nat),
        decreases words.len() - at,
    {
        let word = write_word(scalar, words[at]);
        if at > 0 {
            inner.append(", ");
        }
        let ghost before = inner@;
        inner.append(word.as_str());
        proof {
            if at == 0 {
                assert(before + word@ =~= word@);
            }
        }
        at = at + 1;
    }
    String::from_str("[").concat(inner.as_str()).concat("]")
}

/// Writes a piece of data. The text of a double is given.
fn write_datum(datum: &Datum, double: &String) -> (text: String)
    ensures
        text@ == shown_text(datum@, double@),
{
    match datum {
        Datum::Number(number) => write_decimal(*number),
        Datum::Signed(word) => write_signed(*word),
        Datum::Double(_, _) => double.clone(),
        Datum::Hex(word, digits) => write_hexadecimal(*word, *digits),
        Datum::Word(text) => (*text).to_owned(),
        Datum::Flag(value) => if *value {
            "true".to_owned()
        } else {
            "false".to_owned()
        },
        Datum::List(scalar, words) => write_list(*scalar, words),
        Datum::Place(place) => match place {
            Some(place) => {
                let number = write_decimal(*place);
                String::from_str("Some(").concat(number.as_str()).concat(")")
            },
            None => "None".to_owned(),
        },
        Datum::Text(text) => text.clone(),
    }
}

impl Message {
    /// Lists the doubles that the message shows, in order, and whether they are shown with an
    /// exponent.
    pub fn doubles(&self) -> (doubles: Vec<(u64, bool)>)
        ensures
            doubles@ == doubles_in(self@.data),
    {
        let mut doubles: Vec<(u64, bool)> = Vec::new();
        let mut at: usize = 0;
        let ghost data = self@.data;
        while at < self.data.len()
            invariant
                at <= self.data.len(),
                data == self@.data,
                doubles@ == doubles_in(data.take(at as int)),
            decreases self.data.len() - at,
        {
            assert(data.take(at + 1).drop_last() =~= data.take(at as int));
            assert(data.take(at + 1).last() == self.data@[at as int]@);
            match &self.data[at] {
                Datum::Double(word, exponent) => {
                    doubles.push((*word, *exponent));
                },
                _ => {},
            }
            at = at + 1;
        }
        assert(data.take(data.len() as int) =~= data);
        doubles
    }

    /// Writes the message as text. The texts of the doubles in it are given, in order.
    pub fn render(&self, doubles: &Vec<String>) -> (text: String)
        requires
            doubles@.len() == doubles_in(self@.data).len(),
        ensures
            text@ == rendered(self@, crate::memory::texts_in(doubles@)),
    {
        let pieces = self.pieces(doubles);
        let ghost views = crate::memory::texts_in(pieces@);
        let chars = spell(self.text);
        let mut text = String::new();
        let mut at: usize = 0;
        let mut next: usize = 0;
        assert(Seq::<char>::empty() + woven(chars@, 0, views, 0) =~= woven(chars@, 0, views, 0));
        while at < chars.len()
            invariant
                at <= chars.len(),
                next <= pieces.len(),
                chars@ == self.text@,
                views == crate::memory::texts_in(pieces@),
                woven(chars@, 0, views, 0) == text@ + woven(
                    chars@,
                    at as int,
                    views,
                    next as int,
                ),
            decreases chars.len() - at,
        {
            let ghost before = text@;
            if at + 1 < chars.len() && chars[at] == '{' && chars[at + 1] == '}' && next
                < pieces.len() {
                text.append(pieces[next].as_str());
                proof {
                    let rest = woven(chars@, at + 2, views, next + 1);
                    assert(before + (views[next as int] + rest) =~= before + views[next as int]
                        + rest);
                }
                at = at + 2;
                next = next + 1;
            } else {
                let piece = self.text.substring_char(at, at + 1);
                text.append(piece);
                proof {
                    let rest = woven(chars@, at + 1, views, next as int);
                    assert(piece@ =~= seq![chars@[at as int]]);
                    assert(before + (seq![chars@[at as int]] + rest) =~= before + piece@ + rest);
                }
                at = at + 1;
            }
        }
        assert(text@ + Seq::<char>::empty() =~= text@);
        text
    }

    /// Writes the data of the message as texts.
    fn pieces(&self, doubles: &Vec<String>) -> (pieces: Vec<String>)
        requires
            doubles@.len() == doubles_in(self@.data).len(),
        ensures
            crate::memory::texts_in(pieces@) == texts_of(
                self@.data,
                crate::memory::texts_in(doubles@),
            ),
    {
        let nothing = String::new();
        let mut pieces: Vec<String> = Vec::new();
        let mut at: usize = 0;
        let mut next: usize = 0;
        let ghost data = self@.data;
        let ghost given = crate::memory::texts_in(doubles@);
        let ghost all = texts_of(data, given);
        assert(crate::memory::texts_in(pieces@) =~= all.take(0));
        while at < self.data.len()
            invariant
                at <= self.data.len(),
                data == self@.data,
                given == crate::memory::texts_in(doubles@),
                all == texts_of(data, given),
                next == doubles_in(data.take(at as int)).len(),
                doubles@.len() == doubles_in(data).len(),
                crate::memory::texts_in(pieces@) == all.take(at as int),
            decreases self.data.len() - at,
        {
            proof {
                assert(data.take(at + 1).drop_last() =~= data.take(at as int));
                assert(data.take(at + 1).last() == self.data@[at as int]@);
                lemma_doubles_of_prefix(data, at + 1, data.len() as int);
                assert(data.take(data.len() as int) =~= data);
            }
            let ghost before = crate::memory::texts_in(pieces@);
            let piece = match &self.data[at] {
                Datum::Double(_, _) => {
                    let piece = write_datum(&self.data[at], &doubles[next]);
                    assert(next < doubles.len());
                    next = next + 1;
                    piece
                },
                other => write_datum(other, &nothing),
            };
            pieces.push(piece);
            proof {
                assert(piece@ == all[at as int]);
                assert(crate::memory::texts_in(pieces@) =~= before.push(piece@));
                assert(all.take(at + 1) =~= all.take(at as int).push(all[at as int]));
            }
            at = at + 1;
        }
        assert(all.take(data.len() as int) =~= all);
        pieces
    }
}

/// A longer prefix holds no fewer doubles.
proof fn lemma_doubles_of_prefix(data: Seq<Shown>, short: int, long: int)
    requires
        0 <= short <= long <= data.len(),
    ensures
        doubles_in(data.take(short)).len() <= doubles_in(data.take(long)).len(),
    decreases long - short,
{
    if short < long {
        lemma_doubles_of_prefix(data, short, long - 1);
        assert(data.take(long).drop_last() =~= data.take(long - 1));
    }
}

} // verus!
