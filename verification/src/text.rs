//! Text for people: decimal numbers and the messages made of them.

use crate::header::{HeaderDecodeError, StreamId};
use crate::stream::Stream;
use vstd::prelude::*;
use vstd::string::*;
use vstd::utf8::is_ascii_chars;

verus! {

/// The character for one decimal digit.
pub open spec fn digit_char(d: nat) -> char {
    if d == 0 {
        '0'
    } else if d == 1 {
        '1'
    } else if d == 2 {
        '2'
    } else if d == 3 {
        '3'
    } else if d == 4 {
        '4'
    } else if d == 5 {
        '5'
    } else if d == 6 {
        '6'
    } else if d == 7 {
        '7'
    } else if d == 8 {
        '8'
    } else {
        '9'
    }
}

/// The decimal digits of `n`, without leading zeros.
pub open spec fn decimal_chars(n: nat) -> Seq<char>
    decreases n,
{
    if n < 10 {
        seq![digit_char(n)]
    } else {
        decimal_chars(n / 10).push(digit_char(n % 10))
    }
}

/// The text of one decimal digit.
fn digit(d: u32) -> (s: &'static str)
    requires
        d < 10,
    ensures
        s@ == seq![digit_char(d as nat)],
{
    proof {
        reveal_strlit("0");
        reveal_strlit("1");
        reveal_strlit("2");
        reveal_strlit("3");
        reveal_strlit("4");
        reveal_strlit("5");
        reveal_strlit("6");
        reveal_strlit("7");
        reveal_strlit("8");
        reveal_strlit("9");
    }
    match d {
        0 => "0",
        1 => "1",
        2 => "2",
        3 => "3",
        4 => "4",
        5 => "5",
        6 => "6",
        7 => "7",
        8 => "8",
        _ => "9",
    }
}

/// Writes a number in decimal.
pub fn decimal(n: u32) -> (s: String)
    ensures
        s@ == decimal_chars(n as nat),
    decreases n,
{
    if n < 10 {
        String::from_str(digit(n))
    } else {
        let mut s = decimal(n / 10);
        s.append(digit(n % 10));
        s
    }
}

/// A prefix followed by a number in decimal.
pub fn labelled(label: &str, n: u32) -> (s: String)
    ensures
        s@ == label@ + decimal_chars(n as nat),
{
    let mut s = String::from_str(label);
    let d = decimal(n);
    s.append(d.as_str());
    s
}

impl StreamId {
    /// The ID as text: its value in decimal.
    pub fn to_text(&self) -> (s: String)
        ensures
            s@ == decimal_chars(self.0 as nat),
    {
        decimal(self.0)
    }
}

impl HeaderDecodeError {
    /// What went wrong, as text.
    pub open spec fn text(self) -> Seq<char> {
        match self {
            HeaderDecodeError::Version(v) => "unknown version: "@ + decimal_chars(v as nat),
            HeaderDecodeError::Type(t) => "unknown frame type: "@ + decimal_chars(t as nat),
            HeaderDecodeError::Flags(x) => "unknown flags type: "@ + decimal_chars(x as nat),
        }
    }

    /// What went wrong, as text.
    pub fn to_text(&self) -> (s: String)
        ensures
            s@ == self.text(),
    {
        match self {
            HeaderDecodeError::Version(v) => labelled("unknown version: ", *v as u32),
            HeaderDecodeError::Type(t) => labelled("unknown frame type: ", *t as u32),
            HeaderDecodeError::Flags(x) => labelled("unknown flags type: ", *x as u32),
        }
    }
}

impl Stream {
    /// The stream as text: the IDs of its session and of itself.
    pub fn to_text(&self) -> (s: String)
        ensures
            s@ == "(Stream "@ + decimal_chars(self.conn.0 as nat) + "/"@ + decimal_chars(
                self.id.0 as nat,
            ) + ")"@,
    {
        let mut s = labelled("(Stream ", self.conn.0);
        s.append("/");
        let id = decimal(self.id.val());
        s.append(id.as_str());
        s.append(")");
        s
    }

    /// The stream as text for debugging: both IDs, and whether something is
    /// pending.
    pub fn to_debug_text(&self) -> (s: String)
        ensures
            s@ == "Stream { id: "@ + decimal_chars(self.id.0 as nat) + ", connection: "@
                + decimal_chars(self.conn.0 as nat) + if self.pending is Some {
                ", pending: true }"@
            } else {
                ", pending: false }"@
            },
    {
        let mut s = labelled("Stream { id: ", self.id.val());
        s.append(", connection: ");
        let conn = decimal(self.conn.0);
        s.append(conn.as_str());
        if self.pending.is_some() {
            s.append(", pending: true }");
        } else {
            s.append(", pending: false }");
        }
        s
    }
}

/// Decimal digits are ASCII, and a number below a power of ten has no more
/// digits than that power has zeros.
pub(crate) proof fn lemma_decimal(n: nat, digits: nat, bound: nat)
    requires
        n < bound,
        digits >= 1,
        bound == vstd::arithmetic::power::pow(10, digits),
    ensures
        is_ascii_chars(decimal_chars(n)),
        1 <= decimal_chars(n).len() <= digits,
    decreases n,
{
    if n >= 10 {
        if digits == 1 {
            vstd::arithmetic::power::lemma_pow1(10);
        }
        reveal(vstd::arithmetic::power::pow);
        let less = (digits - 1) as nat;
        vstd::arithmetic::power::lemma_pow_positive(10, less);
        lemma_decimal(n / 10, less, vstd::arithmetic::power::pow(10, less) as nat);
    }
}

} // verus!
