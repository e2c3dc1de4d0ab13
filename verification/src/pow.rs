//! The proof-of-work target and the search for a nonce that meets it.

use crate::chain::Chain;
use crate::digest::{digest_text, lemma_digest_text_shape};
use crate::record::{header_text, Blockheader, HeaderView};
use vstd::prelude::*;
use vstd::string::*;

verus! {

/// Whether a hash begins with `difficulty` characters `0`.
pub open spec fn meets_target(hash: Seq<char>, difficulty: u32) -> bool {
    &&& difficulty <= hash.len()
    &&& forall|i: int| 0 <= i < difficulty ==> hash[i] == '0'
}

/// The hash of a header: the digest of its canonical text.
pub open spec fn header_hash(h: HeaderView) -> Seq<char> {
    digest_text(header_text(h))
}

/// A header with its nonce replaced.
pub open spec fn with_nonce(h: HeaderView, nonce: u32) -> HeaderView {
    HeaderView { nonce, ..h }
}

/// Whether `nonce` solves the header's puzzle: with it, the header's hash
/// meets the header's difficulty.
pub open spec fn wins(h: HeaderView, nonce: u32) -> bool {
    meets_target(header_hash(with_nonce(h, nonce)), h.difficulty)
}

/// Whether `nonce` is the first solution at or after `from`.
pub open spec fn is_first_win(h: HeaderView, from: u32, nonce: u32) -> bool {
    &&& from <= nonce
    &&& wins(h, nonce)
    &&& forall|m: u32| from <= m < nonce ==> !wins(h, m)
}

/// The first solution at or after `from`, if any nonce from there on solves
/// the puzzle.
pub open spec fn first_win(h: HeaderView, from: u32) -> Option<u32> {
    if exists|n: u32| is_first_win(h, from, n) {
        Some(choose|n: u32| is_first_win(h, from, n))
    } else {
        None
    }
}

/// There is at most one first solution, and `first_win` names it.
pub proof fn lemma_first_win_unique(h: HeaderView, from: u32, nonce: u32)
    requires
        is_first_win(h, from, nonce),
    ensures
        first_win(h, from) == Some(nonce),
{
    let chosen = choose|n: u32| is_first_win(h, from, n);
    assert(is_first_win(h, from, chosen));
    if chosen < nonce {
        assert(!wins(h, chosen));
    } else if nonce < chosen {
        assert(!wins(h, nonce));
    }
}

/// Where some nonce at or after `from` solves the puzzle, there is a first
/// one.
pub proof fn lemma_first_win_exists(h: HeaderView, from: u32, nonce: u32)
    requires
        from <= nonce,
        wins(h, nonce),
    ensures
        first_win(h, from) is Some,
        first_win(h, from)->0 <= nonce,
    decreases nonce - from,
{
    if forall|m: u32| from <= m < nonce ==> !wins(h, m) {
        assert(is_first_win(h, from, nonce));
        lemma_first_win_unique(h, from, nonce);
    } else {
        let m = choose|m: u32| from <= m < nonce && wins(h, m);
        lemma_first_win_exists(h, from, m);
    }
}

/// No nonce solves a puzzle that asks for more zeros than a hash has
/// characters.
pub proof fn lemma_no_win_beyond_hash_length(h: HeaderView, from: u32)
    requires
        h.difficulty > 64,
    ensures
        first_win(h, from) is None,
{
    assert forall|n: u32| !wins(h, n) by {
        lemma_digest_text_shape(header_text(with_nonce(h, n)));
    }
}

/// With difficulty zero every nonce solves the puzzle, so the first one
/// tried is the answer.
pub proof fn lemma_zero_difficulty_first_win(h: HeaderView, from: u32)
    requires
        h.difficulty == 0,
    ensures
        first_win(h, from) == Some(from),
{
    assert(is_first_win(h, from, from));
    lemma_first_win_unique(h, from, from);
}

/// Tells whether a hash begins with `difficulty` characters `0`.
pub fn meets_difficulty(hash: &str, difficulty: u32) -> (ok: bool)
    ensures
        ok == meets_target(hash@, difficulty),
{
    let len = hash.unicode_len();
    let wanted = difficulty as usize;
    if wanted > len {
        return false;
    }
    let mut i: usize = 0;
    while i < wanted
        invariant
            i <= wanted <= len,
            len == hash@.len(),
            wanted == difficulty,
            forall|k: int| 0 <= k < i ==> hash@[k] == '0',
        decreases wanted - i,
    {
        if hash.get_char(i) != '0' {
            return false;
        }
        i += 1;
    }
    true
}

impl Chain {
    /// Searches for the first nonce, from the header's own upwards, with
    /// which the header's hash meets the header's difficulty.
    ///
    /// Returns `true` with that nonce in the header. Where no nonce up to
    /// `u32::MAX` solves the puzzle, returns `false` and leaves the header as
    /// it was.
    pub fn proof_of_work(header: &mut Blockheader) -> (found: bool)
        ensures
            match first_win(old(header)@, old(header).nonce) {
                Some(nonce) => found && final(header)@ == with_nonce(old(header)@, nonce),
                None => !found && final(header)@ == old(header)@,
            },
            found ==> meets_target(header_hash(final(header)@), final(header).difficulty),
            old(header).difficulty == 0 ==> found && final(header)@ == old(header)@,
    {
        let ghost template = header@;
        let start: u32 = header.nonce;
        proof {
            if template.difficulty == 0 {
                lemma_zero_difficulty_first_win(template, start);
            }
        }
        if header.difficulty > 64 {
            proof {
                lemma_no_win_beyond_hash_length(template, start);
            }
            return false;
        }
        loop
            invariant
                start <= header.nonce,
                template == old(header)@,
                start == template.nonce,
                template.difficulty == 0 ==> first_win(template, start) == Some(start),
                header@ == with_nonce(template, header.nonce),
                forall|m: u32| start <= m < header.nonce ==> !wins(template, m),
            decreases u32::MAX - header.nonce,
        {
            let hash = Self::hash(&*header);
            if meets_difficulty(hash.as_str(), header.difficulty) {
                proof {
                    assert(is_first_win(template, start, header.nonce));
                    lemma_first_win_unique(template, start, header.nonce);
                }
                return true;
            }
            if header.nonce == u32::MAX {
                header.nonce = start;
                proof {
                    assert(!wins(template, u32::MAX));
                    assert(forall|n: u32| !is_first_win(template, start, n));
                }
                return false;
            }
            header.nonce = header.nonce + 1;
        }
    }
}

} // verus!
