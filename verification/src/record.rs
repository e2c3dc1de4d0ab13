//! Transfers, block headers and blocks, with their mathematical views.

use crate::canonical::{decimal_text, integer_text, json_string, quote, Canonical};
use vstd::prelude::*;
use vstd::string::*;

verus! {

/// A transfer of an amount from a sender to a receiver.
///
/// The amount is held as its decimal text (`"10.0"`, `"-2.5"`, `"1e-7"`),
/// which enters the transfer's canonical text as it stands.
#[derive(Debug, PartialEq, Eq)]
pub struct Transaction {
    pub sender: String,
    pub receiver: String,
    pub amount: String,
}

/// What a transfer holds.
pub ghost struct TransactionView {
    pub sender: Seq<char>,
    pub receiver: Seq<char>,
    pub amount: Seq<char>,
}

impl View for Transaction {
    type V = TransactionView;

    open spec fn view(&self) -> TransactionView {
        TransactionView { sender: self.sender@, receiver: self.receiver@, amount: self.amount@ }
    }
}

/// The views of a sequence of transfers, in order.
pub open spec fn transfers_view(transfers: Seq<Transaction>) -> Seq<TransactionView> {
    Seq::new(transfers.len(), |i: int| transfers[i]@)
}

/// A transfer's canonical text, given its sender and receiver as JSON string
/// literals and its amount as decimal text.
pub open spec fn transaction_frame(
    sender: Seq<char>,
    receiver: Seq<char>,
    amount: Seq<char>,
) -> Seq<char> {
    "{\"sender\":"@ + sender + ",\"receiver\":"@ + receiver + ",\"amount\":"@ + amount + "}"@
}

/// The canonical text of a transfer: a JSON object with the fields `sender`,
/// `receiver` and `amount`, in this order.
pub open spec fn transaction_text(t: TransactionView) -> Seq<char> {
    transaction_frame(json_string(t.sender), json_string(t.receiver), t.amount)
}

impl Transaction {
    /// Puts a transfer's canonical text together from its rendered fields.
    pub fn assemble(sender: &str, receiver: &str, amount: &str) -> (out: String)
        ensures
            out@ == transaction_frame(sender@, receiver@, amount@),
    {
        let mut out = String::from_str("{\"sender\":");
        out.append(sender);
        out.append(",\"receiver\":");
        out.append(receiver);
        out.append(",\"amount\":");
        out.append(amount);
        out.append("}");
        out
    }
}

impl Clone for Transaction {
    fn clone(&self) -> (out: Self)
        ensures
            out@ == self@,
    {
        Transaction {
            sender: self.sender.clone(),
            receiver: self.receiver.clone(),
            amount: self.amount.clone(),
        }
    }
}

impl Canonical for Transaction {
    open spec fn canonical_text(&self) -> Seq<char> {
        transaction_text(self@)
    }

    fn to_canonical(&self) -> (out: String) {
        let sender = quote(self.sender.as_str());
        let receiver = quote(self.receiver.as_str());
        Self::assemble(sender.as_str(), receiver.as_str(), self.amount.as_str())
    }
}

/// The header of a block: what is hashed, linked and mined.
#[derive(Debug, PartialEq, Eq)]
pub struct Blockheader {
    /// Milliseconds since the Unix epoch at which the block was built.
    pub timestamp: i64,
    /// The counter that the proof-of-work search advances.
    pub nonce: u32,
    /// The hash of the previous block's header; 64 zeros in the first block.
    pub pre_hash: String,
    /// The Merkle root of the block's transfers.
    pub merkle: String,
    /// How many leading `0` characters the header's hash must have.
    pub difficulty: u32,
}

/// What a block header holds.
pub ghost struct HeaderView {
    pub timestamp: i64,
    pub nonce: u32,
    pub pre_hash: Seq<char>,
    pub merkle: Seq<char>,
    pub difficulty: u32,
}

impl View for Blockheader {
    type V = HeaderView;

    open spec fn view(&self) -> HeaderView {
        HeaderView {
            timestamp: self.timestamp,
            nonce: self.nonce,
            pre_hash: self.pre_hash@,
            merkle: self.merkle@,
            difficulty: self.difficulty,
        }
    }
}

/// A header's canonical text, given its numbers in decimal and its two hashes
/// as JSON string literals.
pub open spec fn header_frame(
    timestamp: Seq<char>,
    nonce: Seq<char>,
    pre_hash: Seq<char>,
    merkle: Seq<char>,
    difficulty: Seq<char>,
) -> Seq<char> {
    "{\"timestamp\":"@ + timestamp + ",\"nonce\":"@ + nonce + ",\"pre_hash\":"@ + pre_hash
        + ",\"merkle\":"@ + merkle + ",\"difficulty\":"@ + difficulty + "}"@
}

/// The canonical text of a header: a JSON object with the fields `timestamp`,
/// `nonce`, `pre_hash`, `merkle` and `difficulty`, in this order.
pub open spec fn header_text(h: HeaderView) -> Seq<char> {
    header_frame(
        decimal_text(h.timestamp as int),
        decimal_text(h.nonce as int),
        json_string(h.pre_hash),
        json_string(h.merkle),
        decimal_text(h.difficulty as int),
    )
}

impl Blockheader {
    /// Puts a header's canonical text together from its rendered fields.
    pub fn assemble(
        timestamp: &str,
        nonce: &str,
        pre_hash: &str,
        merkle: &str,
        difficulty: &str,
    ) -> (out: String)
        ensures
            out@ == header_frame(timestamp@, nonce@, pre_hash@, merkle@, difficulty@),
    {
        let mut out = String::from_str("{\"timestamp\":");
        out.append(timestamp);
        out.append(",\"nonce\":");
        out.append(nonce);
        out.append(",\"pre_hash\":");
        out.append(pre_hash);
        out.append(",\"merkle\":");
        out.append(merkle);
        out.append(",\"difficulty\":");
        out.append(difficulty);
        out.append("}");
        out
    }
}

impl Canonical for Blockheader {
    open spec fn canonical_text(&self) -> Seq<char> {
        header_text(self@)
    }

    fn to_canonical(&self) -> (out: String) {
        let timestamp = integer_text(self.timestamp);
        let nonce = integer_text(self.nonce as i64);
        let pre_hash = quote(self.pre_hash.as_str());
        let merkle = quote(self.merkle.as_str());
        let difficulty = integer_text(self.difficulty as i64);
        Self::assemble(
            timestamp.as_str(),
            nonce.as_str(),
            pre_hash.as_str(),
            merkle.as_str(),
            difficulty.as_str(),
        )
    }
}

/// A sealed batch of transfers under its header.
#[derive(Debug, PartialEq, Eq)]
pub struct Block {
    pub header: Blockheader,
    /// The number of transfers in the block.
    pub count: usize,
    /// The reward transfer, then the transfers that were pending, in the
    /// order in which they were submitted.
    pub transactions: Vec<Transaction>,
}

/// What a block holds.
pub ghost struct BlockView {
    pub header: HeaderView,
    pub count: nat,
    pub transactions: Seq<TransactionView>,
}

impl View for Block {
    type V = BlockView;

    open spec fn view(&self) -> BlockView {
        BlockView {
            header: self.header@,
            count: self.count as nat,
            transactions: transfers_view(self.transactions@),
        }
    }
}

/// The views of a sequence of blocks, in order.
pub open spec fn blocks_view(blocks: Seq<Block>) -> Seq<BlockView> {
    Seq::new(blocks.len(), |i: int| blocks[i]@)
}

} // verus!
