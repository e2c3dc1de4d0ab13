//! Digests and their hexadecimal rendering.

use crate::canonical::Canonical;
use crate::chain::Chain;
use sha2::{Digest, Sha256};
use vstd::prelude::*;
use vstd::string::*;

verus! {

/// The SHA-256 digest of a byte string.
pub uninterp spec fn sha256(data: Seq<u8>) -> [u8; 32];

/// Feeds `data` to a fresh `sha2::Sha256` hasher (`Digest::new`,
/// `Digest::update`, `Digest::finalize`) and returns the 32 bytes it yields.
/// Trusted: the result is the SHA-256 digest of `data`, a function of the
/// bytes alone.
#[verifier::external_body]
pub(crate) fn sha256_digest(data: &[u8]) -> (out: [u8; 32])
    ensures
        out == sha256(data@),
{
    let mut hasher = Sha256::new();
    hasher.update(data);
    hasher.finalize().into()
}

/// The lowercase hexadecimal digit for a value below sixteen.
pub open spec fn hex_digit(n: int) -> char {
    if n == 0 {
        '0'
    } else if n == 1 {
        '1'
    } else if n == 2 {
        '2'
    } else if n == 3 {
        '3'
    } else if n == 4 {
        '4'
    } else if n == 5 {
        '5'
    } else if n == 6 {
        '6'
    } else if n == 7 {
        '7'
    } else if n == 8 {
        '8'
    } else if n == 9 {
        '9'
    } else if n == 10 {
        'a'
    } else if n == 11 {
        'b'
    } else if n == 12 {
        'c'
    } else if n == 13 {
        'd'
    } else if n == 14 {
        'e'
    } else {
        'f'
    }
}

/// Two lowercase hexadecimal digits per byte, high nibble first.
pub open spec fn hex_text(bytes: Seq<u8>) -> Seq<char> {
    Seq::new(
        2 * bytes.len(),
        |i: int|
            if i % 2 == 0 {
                hex_digit(bytes[i / 2] as int / 16)
            } else {
                hex_digit(bytes[i / 2] as int % 16)
            },
    )
}

/// Whether `c` is one of `0`-`9`, `a`-`f`.
pub open spec fn is_lower_hex(c: char) -> bool {
    exists|n: int| 0 <= n < 16 && c == hex_digit(n)
}

/// The digest of a text, as the library renders it: SHA-256 over the text's
/// UTF-8 bytes, in lowercase hexadecimal.
pub open spec fn digest_text(text: Seq<char>) -> Seq<char> {
    hex_text(sha256(vstd::utf8::encode_utf8(text))@)
}

/// A digest text always has 64 characters, each a lowercase hexadecimal digit.
pub proof fn lemma_digest_text_shape(text: Seq<char>)
    ensures
        digest_text(text).len() == 64,
        forall|i: int| 0 <= i < 64 ==> is_lower_hex(#[trigger] digest_text(text)[i]),
{
    broadcast use vstd::array::group_array_axioms;

    let bytes = sha256(vstd::utf8::encode_utf8(text))@;
    assert(bytes.len() == 32);
    assert forall|i: int| 0 <= i < 64 implies is_lower_hex(#[trigger] digest_text(text)[i]) by {
        let b = bytes[i / 2] as int;
        if i % 2 == 0 {
            assert(digest_text(text)[i] == hex_digit(b / 16));
        } else {
            assert(digest_text(text)[i] == hex_digit(b % 16));
        }
    }
}

fn hex_digit_str(n: u8) -> (out: &'static str)
    requires
        n < 16,
    ensures
        out@ == seq![hex_digit(n as int)],
{
    proof {
        reveal_strlit("0");
        reveal_strlit("1");
        reveal_strlit("2");
        reveal_strlit("3");
        reveal_strlit("4");
        reveal_strlit("5");
        reveal_strlit("6");
        reveal_strlit("7");
        reveal_strlit("8");
        reveal_strlit("9");
        reveal_strlit("a");
        reveal_strlit("b");
        reveal_strlit("c");
        reveal_strlit("d");
        reveal_strlit("e");
        reveal_strlit("f");
    }
    let out = match n {
        0 => "0",
        1 => "1",
        2 => "2",
        3 => "3",
        4 => "4",
        5 => "5",
        6 => "6",
        7 => "7",
        8 => "8",
        9 => "9",
        10 => "a",
        11 => "b",
        12 => "c",
        13 => "d",
        14 => "e",
        _ => "f",
    };
    assert(out@ =~= seq![hex_digit(n as int)]);
    out
}

/// Digest of a text: SHA-256 over its UTF-8 bytes, rendered in hexadecimal.
pub fn digest_of(text: &str) -> (out: String)
    ensures
        out@ == digest_text(text@),
        out@.len() == 64,
{
    let digest = sha256_digest(text.as_bytes());
    proof {
        lemma_digest_text_shape(text@);
    }
    Chain::hex_to_string(digest.as_slice())
}

impl Chain {
    /// Renders bytes as lowercase hexadecimal text.
    pub fn hex_to_string(bytes: &[u8]) -> (out: String)
        ensures
            out@ == hex_text(bytes@),
    {
        let mut out = String::new();
        let mut i: usize = 0;
        while i < bytes.len()
            invariant
                0 <= i <= bytes@.len(),
                out@ == hex_text(bytes@.subrange(0, i as int)),
            decreases bytes@.len() - i,
        {
            let b: u8 = bytes[i];
            let ghost before = out@;
            out.append(hex_digit_str(b / 16));
            out.append(hex_digit_str(b % 16));
            proof {
                let shorter = bytes@.subrange(0, i as int);
                let longer = bytes@.subrange(0, i + 1);
                assert(out@ == before + seq![hex_digit(b as int / 16)] + seq![
                    hex_digit(b as int % 16),
                ]);
                assert forall|j: int| 0 <= j < 2 * (i + 1) implies out@[j] == hex_text(
                    longer,
                )[j] by {
                    if j < 2 * i {
                        assert(shorter[j / 2] == longer[j / 2]);
                        assert(out@[j] == hex_text(shorter)[j]);
                    } else {
                        assert(longer[j / 2] == b);
                    }
                }
                assert(out@ =~= hex_text(longer));
            }
            i += 1;
        }
        assert(bytes@.subrange(0, i as int) =~= bytes@);
        out
    }

    /// The hash of a record: the digest of its canonical text, 64 lowercase
    /// hexadecimal characters.
    pub fn hash<T: Canonical>(item: &T) -> (out: String)
        ensures
            out@ == digest_text(item.canonical_text()),
            out@.len() == 64,
    {
        let text = item.to_canonical();
        digest_of(text.as_str())
    }
}

} // verus!
