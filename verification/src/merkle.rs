//! The Merkle root of an ordered sequence of transfers.

use crate::canonical::json_string;
use crate::chain::Chain;
use crate::digest::digest_text;
use crate::record::{transaction_text, transfers_view, Transaction, TransactionView};
use vstd::prelude::*;
use vstd::string::*;

verus! {

/// The hash of each transfer, in the order of the transfers.
pub open spec fn leaf_hashes(transfers: Seq<TransactionView>) -> Seq<Seq<char>> {
    Seq::new(transfers.len(), |i: int| digest_text(transaction_text(transfers[i])))
}

/// A level with its last hash repeated where it has an odd number of hashes.
pub open spec fn pad_even(level: Seq<Seq<char>>) -> Seq<Seq<char>> {
    if level.len() % 2 == 1 {
        level.push(level.last())
    } else {
        level
    }
}

/// The hash that stands above two neighbours: the hash of the text made of
/// the left hash followed by the right one. Like every text, it is hashed as
/// its JSON string literal.
pub open spec fn pair_hash(left: Seq<char>, right: Seq<char>) -> Seq<char> {
    digest_text(json_string(left + right))
}

/// The level above a level: the hashes of its neighbouring pairs, from left
/// to right.
pub open spec fn pair_up(level: Seq<Seq<char>>) -> Seq<Seq<char>> {
    Seq::new(level.len() / 2, |i: int| pair_hash(level[2 * i], level[2 * i + 1]))
}

/// Pads and pairs a level until at most one hash is left.
pub open spec fn reduce(level: Seq<Seq<char>>) -> Seq<Seq<char>>
    decreases level.len(),
{
    if level.len() <= 1 {
        level
    } else {
        reduce(pair_up(pad_even(level)))
    }
}

/// The Merkle root of a sequence of transfers; the empty text for no
/// transfers. A single transfer is paired with itself.
pub open spec fn merkle_root(transfers: Seq<TransactionView>) -> Seq<char> {
    let top = reduce(pad_even(leaf_hashes(transfers)));
    if top.len() == 0 {
        Seq::empty()
    } else {
        top[0]
    }
}

/// The root of a single transfer is the hash of that transfer's hash paired
/// with itself, not the transfer's hash alone.
pub proof fn lemma_single_transfer_root(t: TransactionView)
    ensures
        merkle_root(seq![t]) == pair_hash(
            digest_text(transaction_text(t)),
            digest_text(transaction_text(t)),
        ),
{
    let leaf = digest_text(transaction_text(t));
    let leaves = leaf_hashes(seq![t]);
    assert(leaves =~= seq![leaf]);
    let padded = pad_even(leaves);
    assert(padded =~= seq![leaf, leaf]);
    let above = pair_up(pad_even(padded));
    assert(above =~= seq![pair_hash(leaf, leaf)]);
    assert(reduce(padded) == reduce(above)) by {
        reveal_with_fuel(reduce, 2);
    }
    assert(reduce(above) == above);
}

/// The root depends on what the transfers hold and on their order, and on
/// nothing else: two sequences that hold the same values in the same order
/// have the same root.
pub proof fn lemma_equal_transfers_equal_root(a: Seq<Transaction>, b: Seq<Transaction>)
    requires
        a.len() == b.len(),
        forall|i: int| 0 <= i < a.len() ==> a[i]@ == b[i]@,
    ensures
        merkle_root(transfers_view(a)) == merkle_root(transfers_view(b)),
{
    assert(transfers_view(a) =~= transfers_view(b));
}

/// No transfers have the empty text as their root.
pub proof fn lemma_empty_root()
    ensures
        merkle_root(Seq::<TransactionView>::empty()) == Seq::<char>::empty(),
{
    assert(leaf_hashes(Seq::<TransactionView>::empty()) =~= Seq::<Seq<char>>::empty());
}

/// Every root of at least one transfer has the length of a hash: 64
/// characters.
pub proof fn lemma_root_is_hash(transfers: Seq<TransactionView>)
    requires
        transfers.len() > 0,
    ensures
        merkle_root(transfers).len() == 64,
{
    let start = pad_even(leaf_hashes(transfers));
    assert forall|i: int| 0 <= i < start.len() implies (#[trigger] start[i]).len() == 64 by {
        let k = if i < transfers.len() { i } else { transfers.len() - 1 };
        crate::digest::lemma_digest_text_shape(transaction_text(transfers[k]));
    }
    lemma_reduce_keeps_hashes(start);
}

/// Reducing a level of hashes leaves one hash.
pub proof fn lemma_reduce_keeps_hashes(level: Seq<Seq<char>>)
    requires
        level.len() > 0,
        forall|i: int| 0 <= i < level.len() ==> (#[trigger] level[i]).len() == 64,
    ensures
        reduce(level).len() == 1,
        reduce(level)[0].len() == 64,
    decreases level.len(),
{
    if level.len() > 1 {
        let padded = pad_even(level);
        let above = pair_up(padded);
        assert forall|i: int| 0 <= i < above.len() implies (#[trigger] above[i]).len() == 64 by {
            crate::digest::lemma_digest_text_shape(json_string(padded[2 * i] + padded[2 * i + 1]));
        }
        lemma_reduce_keeps_hashes(above);
    }
}

/// The texts of a level of hashes.
pub open spec fn texts(level: Seq<String>) -> Seq<Seq<char>> {
    Seq::new(level.len(), |i: int| level[i]@)
}

/// Repeats the last hash of a level that has an odd number of hashes.
fn pad_level(level: &mut Vec<String>)
    ensures
        texts(final(level)@) == pad_even(texts(old(level)@)),
{
    let n = level.len();
    if n % 2 == 1 {
        let last = level[n - 1].clone();
        level.push(last);
        assert(texts(level@) =~= pad_even(texts(old(level)@)));
    }
}

/// Hashes the neighbouring pairs of a level.
fn pair_level(level: &Vec<String>) -> (above: Vec<String>)
    requires
        level@.len() % 2 == 0,
    ensures
        texts(above@) == pair_up(texts(level@)),
{
    let mut above: Vec<String> = Vec::new();
    let mut i: usize = 0;
    while i < level.len()
        invariant
            level@.len() % 2 == 0,
            i % 2 == 0,
            i <= level@.len(),
            above@.len() == i / 2,
            forall|k: int| 0 <= k < above@.len() ==> above@[k]@ == pair_hash(
                level@[2 * k]@,
                level@[2 * k + 1]@,
            ),
        decreases level@.len() - i,
    {
        let mut combined = level[i].clone();
        combined.append(level[i + 1].as_str());
        above.push(Chain::hash(&combined));
        i += 2;
    }
    assert(texts(above@) =~= pair_up(texts(level@)));
    above
}

impl Chain {
    /// The Merkle root of `transactions`: their hashes, padded and paired
    /// level by level until one hash is left.
    pub fn get_merkle(transactions: &[Transaction]) -> (root: String)
        ensures
            root@ == merkle_root(transfers_view(transactions@)),
    {
        let ghost leaves = leaf_hashes(transfers_view(transactions@));
        let mut level: Vec<String> = Vec::new();
        let mut i: usize = 0;
        while i < transactions.len()
            invariant
                i <= transactions@.len(),
                level@.len() == i,
                leaves == leaf_hashes(transfers_view(transactions@)),
                forall|k: int| 0 <= k < i ==> level@[k]@ == leaves[k],
            decreases transactions@.len() - i,
        {
            level.push(Self::hash(&transactions[i]));
            i += 1;
        }
        assert(texts(level@) =~= leaves);
        pad_level(&mut level);
        while level.len() > 1
            invariant
                reduce(texts(level@)) == reduce(pad_even(leaves)),
            decreases level@.len(),
        {
            let ghost below = texts(level@);
            pad_level(&mut level);
            level = pair_level(&level);
            assert(texts(level@).len() == level@.len());
            assert(pair_up(pad_even(below)).len() < below.len());
        }
        match level.pop() {
            Some(root) => root,
            None => String::new(),
        }
    }
}

} // verus!
