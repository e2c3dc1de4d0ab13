//! The canonical text of a record: the form in which it is hashed.
//!
//! A record is rendered as compact JSON with its fields in declaration order.
//! That order is part of the hash-chain format: two ledgers agree on a block's
//! hash only if they render its header in the same way.

use crate::digest::hex_digit;
use vstd::prelude::*;

verus! {

/// How one character stands inside a JSON string literal: the double quote
/// and the backslash behind a backslash, the control characters below U+0020
/// as their short escape or as `\u00` and two hexadecimal digits, and every
/// other character as itself.
pub open spec fn escaped(c: char) -> Seq<char> {
    if c == '"' {
        seq!['\\', '"']
    } else if c == '\\' {
        seq!['\\', '\\']
    } else if c == '\u{8}' {
        seq!['\\', 'b']
    } else if c == '\t' {
        seq!['\\', 't']
    } else if c == '\n' {
        seq!['\\', 'n']
    } else if c == '\u{c}' {
        seq!['\\', 'f']
    } else if c == '\r' {
        seq!['\\', 'r']
    } else if (c as u32) < 0x20 {
        seq!['\\', 'u', '0', '0', hex_digit(c as u32 as int / 16), hex_digit(c as u32 as int % 16)]
    } else {
        seq![c]
    }
}

/// The characters of a text, each as it stands inside a JSON string literal.
pub open spec fn escaped_text(text: Seq<char>) -> Seq<char>
    decreases text.len(),
{
    if text.len() == 0 {
        Seq::empty()
    } else {
        escaped_text(text.drop_last()) + escaped(text.last())
    }
}

/// The JSON string literal for a text: the escaped text between double
/// quotes.
pub open spec fn json_string(text: Seq<char>) -> Seq<char> {
    seq!['"'] + escaped_text(text) + seq!['"']
}

/// The decimal digits of a natural number, most significant first, without
/// leading zeros.
pub open spec fn decimal_digits(n: nat) -> Seq<char>
    decreases n,
{
    if n < 10 {
        seq![hex_digit(n as int)]
    } else {
        decimal_digits(n / 10).push(hex_digit((n % 10) as int))
    }
}

/// The decimal rendering of an integer: a minus sign for a negative number,
/// then the digits of its magnitude.
pub open spec fn decimal_text(n: int) -> Seq<char> {
    if n < 0 {
        seq!['-'] + decimal_digits((-n) as nat)
    } else {
        decimal_digits(n as nat)
    }
}

/// Serialises a string slice with `serde_json::to_string`.
/// Trusted: the result is an opening quote, each character of `text` as
/// `escaped` gives it, and a closing quote. `to_string` fails only where a
/// `Serialize` impl fails or a map has a key that is no string; a string slice
/// gives it neither.
#[verifier::external_body]
pub(crate) fn quote(text: &str) -> (out: String)
    ensures
        out@ == json_string(text@),
{
    serde_json::to_string(text).unwrap_or_default()
}

/// Serialises a signed 64-bit integer with `serde_json::to_string`.
/// Trusted: the result is the integer in decimal, as JSON writes numbers
/// (`-123`, `0`, `42`). The call cannot fail on an integer.
#[verifier::external_body]
pub(crate) fn integer_text(n: i64) -> (out: String)
    ensures
        out@ == decimal_text(n as int),
{
    serde_json::to_string(&n).unwrap_or_default()
}

/// A record with a canonical text, by which it is hashed.
pub trait Canonical {
    /// The canonical text of the record.
    spec fn canonical_text(&self) -> Seq<char>;

    /// Renders the record in its canonical text.
    fn to_canonical(&self) -> (out: String)
        ensures
            out@ == self.canonical_text(),
    ;
}

/// A plain text is hashed as its JSON string literal.
impl Canonical for String {
    open spec fn canonical_text(&self) -> Seq<char> {
        json_string(self@)
    }

    fn to_canonical(&self) -> (out: String) {
        quote(self.as_str())
    }
}

} // verus!
