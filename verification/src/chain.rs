//! The chain engine: sealed blocks, the pool of pending transfers, and the
//! operations that change them.

use crate::merkle::merkle_root;
use crate::pow::{first_win, header_hash, is_first_win, meets_target, with_nonce};
use crate::record::{
    blocks_view, transfers_view, Block, BlockView, Blockheader, HeaderView, Transaction,
    TransactionView,
};
use vstd::prelude::*;
use vstd::string::*;

verus! {

/// A ledger: the blocks sealed so far and the transfers waiting for the next
/// block.
#[derive(Debug)]
pub struct Chain {
    pub(crate) chain: Vec<Block>,
    pub(crate) curr_trans: Vec<Transaction>,
    pub(crate) difficulty: u32,
    pub(crate) miner_addr: String,
    pub(crate) reward: String,
}

/// What a ledger holds.
pub ghost struct ChainView {
    /// The sealed blocks, oldest first.
    pub blocks: Seq<BlockView>,
    /// The pending transfers, in the order in which they were submitted.
    pub pending: Seq<TransactionView>,
    /// The difficulty that the next block will be mined at.
    pub difficulty: u32,
    /// The address that every block's reward goes to.
    pub miner_addr: Seq<char>,
    /// The amount of the next block's reward, as decimal text.
    pub reward: Seq<char>,
}

impl View for Chain {
    type V = ChainView;

    closed spec fn view(&self) -> ChainView {
        ChainView {
            blocks: blocks_view(self.chain@),
            pending: transfers_view(self.curr_trans@),
            difficulty: self.difficulty,
            miner_addr: self.miner_addr@,
            reward: self.reward@,
        }
    }
}

/// The link that the first block carries in place of a predecessor's hash:
/// 64 characters `0`.
pub open spec fn zero_hash() -> Seq<char> {
    Seq::new(64, |i: int| '0')
}

/// The hash that the next block links to: the hash of the last block's
/// header, or `zero_hash` where there is no block yet.
pub open spec fn last_hash_of(blocks: Seq<BlockView>) -> Seq<char> {
    if blocks.len() == 0 {
        zero_hash()
    } else {
        header_hash(blocks.last().header)
    }
}

/// The transfer that pays the miner for the next block.
pub open spec fn reward_transfer(c: ChainView) -> TransactionView {
    TransactionView { sender: "Root"@, receiver: c.miner_addr, amount: c.reward }
}

/// The transfers of the next block: the reward, then the pending transfers
/// in their order.
pub open spec fn next_transfers(c: ChainView) -> Seq<TransactionView> {
    seq![reward_transfer(c)] + c.pending
}

/// The header of the next block before it is mined.
pub open spec fn next_template(c: ChainView, timestamp: i64) -> HeaderView {
    HeaderView {
        timestamp,
        nonce: 0,
        pre_hash: last_hash_of(c.blocks),
        merkle: merkle_root(next_transfers(c)),
        difficulty: c.difficulty,
    }
}

/// The ledger after sealing its next block at `timestamp`; `None` where no
/// nonce solves that block's puzzle.
pub open spec fn sealed(c: ChainView, timestamp: i64) -> Option<ChainView> {
    let template = next_template(c, timestamp);
    match first_win(template, 0) {
        Some(nonce) => Some(
            ChainView {
                blocks: c.blocks.push(
                    BlockView {
                        header: with_nonce(template, nonce),
                        count: next_transfers(c).len(),
                        transactions: next_transfers(c),
                    },
                ),
                pending: Seq::empty(),
                ..c
            },
        ),
        None => None,
    }
}

/// How a call that seals at `timestamp` takes a ledger from `before` to
/// `after`: where the puzzle has a solution the block is appended and the
/// call reports `true`; else nothing changes and it reports `false`.
pub open spec fn seal_outcome(before: ChainView, timestamp: i64, after: ChainView, ok: bool) -> bool {
    match sealed(before, timestamp) {
        Some(next) => ok && after == next,
        None => !ok && after == before,
    }
}

/// The ledger after a transfer was submitted.
pub open spec fn submitted(c: ChainView, t: TransactionView) -> ChainView {
    ChainView { pending: c.pending.push(t), ..c }
}

/// The ledger with another difficulty for its next block.
pub open spec fn with_difficulty(c: ChainView, difficulty: u32) -> ChainView {
    ChainView { difficulty, ..c }
}

/// The ledger with another reward for its next block.
pub open spec fn with_reward(c: ChainView, reward: Seq<char>) -> ChainView {
    ChainView { reward, ..c }
}

/// A ledger without blocks or pending transfers, with the reward a new
/// ledger starts with.
pub open spec fn empty_chain(miner_addr: Seq<char>, difficulty: u32) -> ChainView {
    ChainView {
        blocks: Seq::empty(),
        pending: Seq::empty(),
        difficulty,
        miner_addr,
        reward: "100.0"@,
    }
}

/// The ledger that creation at `timestamp` gives: an empty one with its first
/// block sealed, or the empty one itself where that block's puzzle has no
/// solution.
pub open spec fn created(miner_addr: Seq<char>, difficulty: u32, timestamp: i64) -> ChainView {
    match sealed(empty_chain(miner_addr, difficulty), timestamp) {
        Some(c) => c,
        None => empty_chain(miner_addr, difficulty),
    }
}

/// What holds of every block once sealed: it starts with the miner's reward,
/// counts its transfers, commits to them by its Merkle root, and its header's
/// hash meets its difficulty.
pub open spec fn block_sealed(b: BlockView, miner_addr: Seq<char>) -> bool {
    &&& b.transactions.len() >= 1
    &&& b.count == b.transactions.len()
    &&& b.transactions[0].sender == "Root"@
    &&& b.transactions[0].receiver == miner_addr
    &&& b.header.merkle == merkle_root(b.transactions)
    &&& meets_target(header_hash(b.header), b.header.difficulty)
}

/// Whether block `i` links to the block before it, or carries `zero_hash`
/// where it is the first.
pub open spec fn linked(blocks: Seq<BlockView>, i: int) -> bool {
    blocks[i].header.pre_hash == last_hash_of(blocks.take(i))
}

/// Whether every block is sealed for `miner_addr` and linked.
pub open spec fn blocks_well_formed(blocks: Seq<BlockView>, miner_addr: Seq<char>) -> bool {
    forall|i: int|
        0 <= i < blocks.len() ==> block_sealed(#[trigger] blocks[i], miner_addr) && linked(
            blocks,
            i,
        )
}

/// The invariant of a ledger: every block is sealed for the ledger's miner
/// and linked.
pub open spec fn well_formed(c: ChainView) -> bool {
    blocks_well_formed(c.blocks, c.miner_addr)
}

/// Submitting a transfer keeps a ledger well formed.
pub proof fn lemma_submitted_well_formed(c: ChainView, t: TransactionView)
    requires
        well_formed(c),
    ensures
        well_formed(submitted(c, t)),
{
}

/// Changing the difficulty or the reward of the next block keeps a ledger
/// well formed: sealed blocks keep what they were sealed with.
pub proof fn lemma_reconfigured_well_formed(c: ChainView, difficulty: u32, reward: Seq<char>)
    requires
        well_formed(c),
    ensures
        well_formed(with_difficulty(c, difficulty)),
        well_formed(with_reward(c, reward)),
{
}

/// Sealing a block keeps a ledger well formed.
pub proof fn lemma_sealed_well_formed(c: ChainView, timestamp: i64)
    requires
        well_formed(c),
        sealed(c, timestamp) is Some,
    ensures
        well_formed(sealed(c, timestamp)->0),
{
    let template = next_template(c, timestamp);
    let nonce = first_win(template, 0)->0;
    assert(is_first_win(template, 0, nonce));
    let next = sealed(c, timestamp)->0;
    assert forall|i: int| 0 <= i < next.blocks.len() implies block_sealed(
        #[trigger] next.blocks[i],
        next.miner_addr,
    ) && linked(next.blocks, i) by {
        if i < c.blocks.len() {
            assert(next.blocks[i] == c.blocks[i]);
            assert(next.blocks.take(i) =~= c.blocks.take(i));
            assert(linked(c.blocks, i));
        } else {
            assert(next.blocks.take(i) =~= c.blocks);
        }
    }
}

/// A newly created ledger is well formed.
pub proof fn lemma_created_well_formed(miner_addr: Seq<char>, difficulty: u32, timestamp: i64)
    ensures
        well_formed(created(miner_addr, difficulty, timestamp)),
{
    let empty = empty_chain(miner_addr, difficulty);
    if sealed(empty, timestamp) is Some {
        lemma_sealed_well_formed(empty, timestamp);
    }
}

/// Every block but the first carries the hash of the header before it, and
/// the first carries `zero_hash`.
pub proof fn lemma_blocks_linked(c: ChainView, i: int)
    requires
        well_formed(c),
        0 <= i < c.blocks.len(),
    ensures
        i == 0 ==> c.blocks[i].header.pre_hash == zero_hash(),
        i > 0 ==> c.blocks[i].header.pre_hash == header_hash(c.blocks[i - 1].header),
{
    assert(linked(c.blocks, i));
    if i > 0 {
        assert(c.blocks.take(i).last() == c.blocks[i - 1]);
    }
}

/// The hash of every block's header, nonce included, begins with as many
/// characters `0` as the header's difficulty asks for.
pub proof fn lemma_blocks_mined(c: ChainView, i: int)
    requires
        well_formed(c),
        0 <= i < c.blocks.len(),
    ensures
        c.blocks[i].header.difficulty <= header_hash(c.blocks[i].header).len(),
        forall|k: int|
            0 <= k < c.blocks[i].header.difficulty ==> header_hash(c.blocks[i].header)[k] == '0',
{
    assert(block_sealed(c.blocks[i], c.miner_addr));
}

/// Every block commits to exactly its own transfers: its Merkle root is the
/// root of its transfer list, and its count is the length of that list.
pub proof fn lemma_blocks_commit(c: ChainView, i: int)
    requires
        well_formed(c),
        0 <= i < c.blocks.len(),
    ensures
        c.blocks[i].header.merkle == merkle_root(c.blocks[i].transactions),
        c.blocks[i].count == c.blocks[i].transactions.len(),
{
    assert(block_sealed(c.blocks[i], c.miner_addr));
}

/// At difficulty zero sealing always succeeds, and with the first nonce
/// tried: the block's nonce is zero.
pub proof fn lemma_zero_difficulty_seals(c: ChainView, timestamp: i64)
    requires
        c.difficulty == 0,
    ensures
        sealed(c, timestamp) is Some,
        sealed(c, timestamp)->0.blocks.last().header == next_template(c, timestamp),
{
    crate::pow::lemma_zero_difficulty_first_win(next_template(c, timestamp), 0);
}

/// Blocks are only ever appended: submitting a transfer or changing a
/// setting leaves the blocks as they are, and sealing adds one block behind
/// them and empties the pool.
pub proof fn lemma_blocks_append_only(
    c: ChainView,
    t: TransactionView,
    difficulty: u32,
    reward: Seq<char>,
    timestamp: i64,
)
    ensures
        submitted(c, t).blocks == c.blocks,
        with_difficulty(c, difficulty).blocks == c.blocks,
        with_reward(c, reward).blocks == c.blocks,
        sealed(c, timestamp) is Some ==> {
            &&& sealed(c, timestamp)->0.blocks.len() == c.blocks.len() + 1
            &&& sealed(c, timestamp)->0.blocks.take(c.blocks.len() as int) == c.blocks
            &&& sealed(c, timestamp)->0.pending.len() == 0
        },
{
    if sealed(c, timestamp) is Some {
        assert(sealed(c, timestamp)->0.blocks.take(c.blocks.len() as int) =~= c.blocks);
    }
}

/// In every block the link and the Merkle root are hashes: 64 characters
/// each.
pub proof fn lemma_blocks_hold_hashes(c: ChainView, i: int)
    requires
        well_formed(c),
        0 <= i < c.blocks.len(),
    ensures
        c.blocks[i].header.pre_hash.len() == 64,
        c.blocks[i].header.merkle.len() == 64,
{
    assert(block_sealed(c.blocks[i], c.miner_addr));
    assert(linked(c.blocks, i));
    if i > 0 {
        crate::digest::lemma_digest_text_shape(
            crate::record::header_text(c.blocks.take(i).last().header),
        );
    }
    crate::merkle::lemma_root_is_hash(c.blocks[i].transactions);
}

/// A transfer that is submitted and then sealed ends up last in the new
/// block, behind the reward and the transfers that were pending before it,
/// and the pool is empty afterwards.
pub proof fn lemma_submit_then_seal(c: ChainView, t: TransactionView, timestamp: i64)
    requires
        sealed(submitted(c, t), timestamp) is Some,
    ensures
        sealed(submitted(c, t), timestamp)->0.pending == Seq::<TransactionView>::empty(),
        sealed(submitted(c, t), timestamp)->0.blocks.len() == c.blocks.len() + 1,
        sealed(submitted(c, t), timestamp)->0.blocks.last().transactions == (seq![
            reward_transfer(c),
        ] + c.pending).push(t),
        sealed(submitted(c, t), timestamp)->0.blocks.last().count == c.pending.len() + 2,
{
    let next = sealed(submitted(c, t), timestamp)->0;
    assert(next.blocks.last().transactions =~= (seq![reward_transfer(c)] + c.pending).push(t));
}

/// Only sealing changes the hash that the next block links to: submitting a
/// transfer or changing the difficulty or the reward leaves it as it was.
pub proof fn lemma_last_hash_stable(
    c: ChainView,
    t: TransactionView,
    difficulty: u32,
    reward: Seq<char>,
)
    ensures
        last_hash_of(submitted(c, t).blocks) == last_hash_of(c.blocks),
        last_hash_of(with_difficulty(c, difficulty).blocks) == last_hash_of(c.blocks),
        last_hash_of(with_reward(c, reward).blocks) == last_hash_of(c.blocks),
{
}

/// After a block was sealed, the hash that the next block links to is the
/// hash of that block's header.
pub proof fn lemma_last_hash_after_seal(c: ChainView, timestamp: i64)
    requires
        sealed(c, timestamp) is Some,
    ensures
        last_hash_of(sealed(c, timestamp)->0.blocks) == header_hash(
            sealed(c, timestamp)->0.blocks.last().header,
        ),
{
}

/// Reads the clock through `chrono::Utc::now` and turns the instant into
/// milliseconds since the Unix epoch with `DateTime::timestamp_millis`.
/// Trusted: nothing is claimed of the value, which changes from call to call.
#[verifier::external_body]
fn now_millis() -> i64 {
    chrono::Utc::now().timestamp_millis()
}

impl Chain {
    /// The invariant of a ledger. It holds of every ledger at all times.
    pub open spec fn wf(&self) -> bool {
        well_formed(self@)
    }

    #[verifier::type_invariant]
    spec fn always_well_formed(self) -> bool {
        blocks_well_formed(blocks_view(self.chain@), self.miner_addr@)
    }


    /// Creates a ledger for `miner_addr` and seals its first block at
    /// `timestamp`.
    pub fn new_at(miner_addr: String, difficulty: u32, timestamp: i64) -> (out: Chain)
        ensures
            out@ == created(miner_addr@, difficulty, timestamp),
            out.wf(),
    {
        let mut out = Chain {
            chain: Vec::new(),
            curr_trans: Vec::new(),
            difficulty,
            miner_addr,
            reward: String::from_str("100.0"),
        };
        assert(out@ =~= empty_chain(miner_addr@, difficulty)) by {
            assert(out@.blocks =~= Seq::empty());
            assert(out@.pending =~= Seq::empty());
        }
        out.generate_new_block_at(timestamp);
        proof {
            use_type_invariant(&out);
        }
        out
    }

    /// Creates a ledger for `miner_addr` and seals its first block at the
    /// current time.
    pub fn new(miner_addr: String, difficulty: u32) -> (out: Chain)
        ensures
            exists|timestamp: i64| out@ == created(miner_addr@, difficulty, timestamp),
            out.wf(),
            difficulty == 0 ==> out@.blocks.len() == 1,
    {
        let timestamp = now_millis();
        proof {
            if difficulty == 0 {
                crate::pow::lemma_zero_difficulty_first_win(
                    next_template(empty_chain(miner_addr@, difficulty), timestamp),
                    0,
                );
            }
        }
        Self::new_at(miner_addr, difficulty, timestamp)
    }

    /// Adds a transfer to the pending pool. Always succeeds.
    pub fn new_transaction(&mut self, sender: String, receiver: String, amount: String) -> (ok:
        bool)
        ensures
            ok,
            final(self)@ == submitted(
                old(self)@,
                (TransactionView { sender: sender@, receiver: receiver@, amount: amount@ }),
            ),
            final(self).wf(),
    {
        proof {
            use_type_invariant(&*self);
        }
        let mut pending: Vec<Transaction> = Vec::new();
        std::mem::swap(&mut pending, &mut self.curr_trans);
        pending.push(Transaction { sender, receiver, amount });
        assert(transfers_view(pending@) =~= old(self)@.pending.push(
            (TransactionView { sender: sender@, receiver: receiver@, amount: amount@ }),
        ));
        self.curr_trans = pending;
        true
    }

    /// The hash that the next block will link to: the hash of the last
    /// block's header, or 64 zeros where the ledger has no block.
    pub fn last_hash(&self) -> (out: String)
        ensures
            out@ == last_hash_of(self@.blocks),
            out@.len() == 64,
            self.wf(),
    {
        proof {
            use_type_invariant(self);
        }
        let n = self.chain.len();
        if n == 0 {
            proof {
                reveal_strlit("0000000000000000000000000000000000000000000000000000000000000000");
            }
            let out = String::from_str(
                "0000000000000000000000000000000000000000000000000000000000000000",
            );
            assert(out@ =~= zero_hash());
            out
        } else {
            Self::hash(&self.chain[n - 1].header)
        }
    }

    /// Sets the difficulty that the next block will be mined at. Always
    /// succeeds; sealed blocks keep theirs.
    pub fn update_difficulty(&mut self, difficulty: u32) -> (ok: bool)
        ensures
            ok,
            final(self)@ == with_difficulty(old(self)@, difficulty),
            final(self).wf(),
    {
        proof {
            use_type_invariant(&*self);
        }
        self.difficulty = difficulty;
        true
    }

    /// Sets the amount of the next block's reward. Always succeeds; sealed
    /// blocks keep theirs.
    pub fn update_reward(&mut self, reward: String) -> (ok: bool)
        ensures
            ok,
            final(self)@ == with_reward(old(self)@, reward@),
            final(self).wf(),
    {
        proof {
            use_type_invariant(&*self);
        }
        self.reward = reward;
        true
    }

    /// Seals the next block at `timestamp`: the reward transfer and the
    /// pending transfers go into a block that links to the last one, the
    /// block is mined and appended, and the pool is left empty.
    ///
    /// Returns `false`, with the ledger as it was, where no nonce solves the
    /// block's puzzle.
    pub fn generate_new_block_at(&mut self, timestamp: i64) -> (ok: bool)
        ensures
            seal_outcome(old(self)@, timestamp, final(self)@, ok),
            final(self).wf(),
            old(self)@.difficulty == 0 ==> ok,
    {
        proof {
            use_type_invariant(&*self);
        }
        let ghost before = self@;
        let pre_hash = self.last_hash();
        let reward_trans = Transaction {
            sender: String::from_str("Root"),
            receiver: self.miner_addr.clone(),
            amount: self.reward.clone(),
        };
        let mut pending: Vec<Transaction> = Vec::new();
        std::mem::swap(&mut pending, &mut self.curr_trans);
        let mut transactions: Vec<Transaction> = Vec::new();
        transactions.push(reward_trans);
        transactions.append(&mut pending);
        assert(transfers_view(transactions@) =~= next_transfers(before));
        let merkle = Self::get_merkle(transactions.as_slice());
        let mut header = Blockheader {
            timestamp,
            nonce: 0,
            pre_hash,
            merkle,
            difficulty: self.difficulty,
        };
        assert(header@ == next_template(before, timestamp));
        let found = Self::proof_of_work(&mut header);
        if found {
            let count = transactions.len();
            let mut blocks: Vec<Block> = Vec::new();
            std::mem::swap(&mut blocks, &mut self.chain);
            blocks.push(Block { header, count, transactions });
            proof {
                let next = sealed(before, timestamp)->0;
                lemma_sealed_well_formed(before, timestamp);
                assert(blocks_view(blocks@) =~= next.blocks);
                assert(transfers_view(self.curr_trans@) =~= next.pending);
            }
            self.chain = blocks;
        } else {
            transactions.remove(0);
            assert(transfers_view(transactions@) =~= before.pending);
            self.curr_trans = transactions;
        }
        found
    }

    /// Seals the next block at the current time.
    pub fn generate_new_block(&mut self) -> (ok: bool)
        ensures
            exists|timestamp: i64| seal_outcome(old(self)@, timestamp, final(self)@, ok),
            final(self).wf(),
            old(self)@.difficulty == 0 ==> ok,
    {
        let timestamp = now_millis();
        self.generate_new_block_at(timestamp)
    }

    /// The sealed blocks, oldest first.
    pub fn blocks(&self) -> (out: &[Block])
        ensures
            blocks_view(out@) == self@.blocks,
            self.wf(),
    {
        proof {
            use_type_invariant(self);
        }
        self.chain.as_slice()
    }

    /// The pending transfers, in the order in which they were submitted.
    pub fn pending(&self) -> (out: &[Transaction])
        ensures
            transfers_view(out@) == self@.pending,
    {
        self.curr_trans.as_slice()
    }

    /// The difficulty that the next block will be mined at.
    pub fn difficulty(&self) -> (out: u32)
        ensures
            out == self@.difficulty,
    {
        self.difficulty
    }

    /// The address that every block's reward goes to.
    pub fn miner_addr(&self) -> (out: &str)
        ensures
            out@ == self@.miner_addr,
    {
        self.miner_addr.as_str()
    }

    /// The amount of the next block's reward, as decimal text.
    pub fn reward(&self) -> (out: &str)
        ensures
            out@ == self@.reward,
    {
        self.reward.as_str()
    }
}

} // verus!
