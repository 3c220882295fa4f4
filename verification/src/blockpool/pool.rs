//! The blockpool's bookkeeping, as a state machine: the queue of accepted
//! blocks, the votes seen for each block, and the blocks this node has voted
//! on.
//!
//! The pool answers commands one at a time. Validating a block, looking up
//! the node's wallet and voting power and comparing a quorum (a floating
//! point share of the network's power) happen outside; their outcomes are
//! handed to the transitions below, which say what the pool keeps and what
//! it answers.
use crate::api::{id_equal, BlockId, SignedBlock, SignedBlockView};
use crate::validation::block::{BlockValidationError, Node};
use vstd::prelude::*;

verus! {

/// What the pool answers a command with.
#[derive(Debug)]
pub enum PoolReply {
    /// the command succeeded
    Done,
    /// validating the block failed for a reason other than the block: the
    /// answer is "error {reason}"
    NodeError(Node),
    /// "block already processed": this node already voted on the block
    AlreadyProcessed,
    /// "not implemented": a voted-on block did not validate
    NotImplemented,
}

/// The blockpool's state.
pub struct Blockpool {
    block_queue: std::collections::VecDeque<SignedBlock>,
    block_votes: Vec<(BlockId, Vec<u64>)>,
    sent_votes: Vec<BlockId>,
}

/// The blockpool's state, as values: the queue of accepted blocks, the votes
/// seen per block, and the blocks this node voted on.
pub struct BlockpoolView {
    pub queue: Seq<SignedBlockView>,
    pub votes: Map<BlockId, Seq<u64>>,
    pub sent: Set<BlockId>,
}

/// Some entry has key `k`.
pub open spec fn has_votes_for(s: Seq<(BlockId, Vec<u64>)>, k: BlockId) -> bool {
    exists|i: int| 0 <= i < s.len() && #[trigger] s[i].0 == k
}

/// The votes per block that a list of entries with distinct keys stands for.
pub open spec fn votes_map(s: Seq<(BlockId, Vec<u64>)>) -> Map<BlockId, Seq<u64>> {
    Map::new(
        |k: BlockId| has_votes_for(s, k),
        |k: BlockId| s[choose|i: int| 0 <= i < s.len() && #[trigger] s[i].0 == k].1@,
    )
}

/// The values of a list of blocks.
pub open spec fn blocks_view(s: Seq<SignedBlock>) -> Seq<SignedBlockView> {
    s.map_values(|b: SignedBlock| b@)
}

impl View for Blockpool {
    type V = BlockpoolView;

    closed spec fn view(&self) -> BlockpoolView {
        BlockpoolView {
            queue: blocks_view(self.block_queue@),
            votes: votes_map(self.block_votes@),
            sent: self.sent_votes@.to_set(),
        }
    }
}

impl Blockpool {
    #[verifier::type_invariant]
    spec fn well_formed(&self) -> bool {
        &&& distinct_keys(self.block_votes@)
        &&& self.sent_votes@.no_duplicates()
    }
}

/// No two entries share a key.
pub open spec fn distinct_keys(s: Seq<(BlockId, Vec<u64>)>) -> bool {
    forall|i: int, j: int| 0 <= i < j < s.len() ==> #[trigger] s[i].0 != #[trigger] s[j].0
}

/// The votes an entry holds are the votes of its block.
proof fn lemma_votes_lookup(s: Seq<(BlockId, Vec<u64>)>, i: int)
    requires
        distinct_keys(s),
        0 <= i < s.len(),
    ensures
        votes_map(s).contains_key(s[i].0),
        votes_map(s)[s[i].0] == s[i].1@,
{
    assert(has_votes_for(s, s[i].0));
    let j = choose|j: int| 0 <= j < s.len() && #[trigger] s[j].0 == s[i].0;
    if j < i {
        assert(s[j].0 != s[i].0);
    } else if i < j {
        assert(s[i].0 != s[j].0);
    }
}

/// The sum of a list of votes.
pub open spec fn vote_sum(votes: Seq<u64>) -> int
    decreases votes.len(),
{
    if votes.len() == 0 {
        0
    } else {
        vote_sum(votes.drop_last()) + votes.last()
    }
}

/// A prefix of a list of votes sums to no more than the whole list.
proof fn lemma_vote_sum_prefix(votes: Seq<u64>, n: int)
    requires
        0 <= n <= votes.len(),
    ensures
        vote_sum(votes.subrange(0, n)) <= vote_sum(votes),
    decreases votes.len() - n,
{
    if n < votes.len() {
        lemma_vote_sum_prefix(votes, n + 1);
        assert(votes.subrange(0, n + 1).drop_last() =~= votes.subrange(0, n));
    } else {
        assert(votes.subrange(0, n) =~= votes);
    }
}

impl Blockpool {
    /// An empty pool.
    pub fn new() -> (r: Self)
        ensures
            r@.queue == Seq::<SignedBlockView>::empty(),
            r@.votes == Map::<BlockId, Seq<u64>>::empty(),
            r@.sent == Set::<BlockId>::empty(),
    {
        let r = Blockpool { block_queue: std::collections::VecDeque::with_capacity(10_000), block_votes: Vec::new(), sent_votes: Vec::new() };
        assert(r@.votes =~= Map::<BlockId, Seq<u64>>::empty());
        assert(r@.queue =~= Seq::<SignedBlockView>::empty());
        assert(r@.sent =~= Set::<BlockId>::empty());
        r
    }

    /// The number of blocks in the queue.
    pub fn get_queue_size(&self) -> (r: u64)
        ensures
            r == self@.queue.len(),
    {
        let n = self.block_queue.len();
        assert(self@.queue.len() == self.block_queue@.len());
        n as u64
    }

    /// Where the votes for `block_id` are kept, if any.
    fn votes_index(&self, block_id: &BlockId) -> (r: Option<usize>)
        ensures
            match r {
                Some(i) => i < self.block_votes@.len() && self.block_votes@[i as int].0 == *block_id,
                None => !has_votes_for(self.block_votes@, *block_id),
            },
    {
        let mut i: usize = 0;
        while i < self.block_votes.len()
            invariant
                i <= self.block_votes@.len(),
                forall|j: int| 0 <= j < i ==> (#[trigger] self.block_votes@[j]).0 != *block_id,
            decreases self.block_votes@.len() - i,
        {
            if id_equal(&self.block_votes[i].0, block_id) {
                return Some(i);
            }
            i = i + 1;
        }
        None
    }

    /// The sum of the votes seen for `block_id`, which must have some; the
    /// quorum is this sum's share of the network's power.
    pub fn vote_total(&self, block_id: &BlockId) -> (r: u64)
        requires
            self@.votes.contains_key(*block_id),
            vote_sum(self@.votes[*block_id]) <= u64::MAX,
        ensures
            r == vote_sum(self@.votes[*block_id]),
    {
        let i = match self.votes_index(block_id) {
            Some(i) => i,
            None => {
                assert(false);
                0
            },
        };
        proof {
            use_type_invariant(self);
            lemma_votes_lookup(self.block_votes@, i as int);
        }
        let votes = &self.block_votes[i].1;
        let ghost all = votes@;
        let mut total: u64 = 0;
        let mut k: usize = 0;
        while k < votes.len()
            invariant
                k <= all.len(),
                all == votes@,
                total == vote_sum(all.subrange(0, k as int)),
                vote_sum(all) <= u64::MAX,
            decreases all.len() - k,
        {
            proof {
                lemma_vote_sum_prefix(all, k as int + 1);
                assert(all.subrange(0, k as int + 1).drop_last() =~= all.subrange(0, k as int));
            }
            total = total + votes[k];
            k = k + 1;
        }
        assert(all.subrange(0, all.len() as int) =~= all);
        total
    }

    /// Whether this node voted on `block_id`.
    fn sent_index(&self, block_id: &BlockId) -> (r: Option<usize>)
        ensures
            match r {
                Some(i) => i < self.sent_votes@.len() && self.sent_votes@[i as int] == *block_id,
                None => !self.sent_votes@.contains(*block_id),
            },
    {
        let mut i: usize = 0;
        while i < self.sent_votes.len()
            invariant
                i <= self.sent_votes@.len(),
                forall|j: int| 0 <= j < i ==> self.sent_votes@[j] != *block_id,
            decreases self.sent_votes@.len() - i,
        {
            if id_equal(&self.sent_votes[i], block_id) {
                return Some(i);
            }
            i = i + 1;
        }
        None
    }

    /// Forgets that this node voted on `block_id`.
    fn forget_sent(&mut self, block_id: &BlockId)
        ensures
            final(self)@.sent == old(self)@.sent.remove(*block_id),
            final(self)@.queue == old(self)@.queue,
            final(self)@.votes == old(self)@.votes,
    {
        proof {
            use_type_invariant(&*self);
        }
        match self.sent_index(block_id) {
            None => {
                assert(self@.sent =~= old(self)@.sent.remove(*block_id));
            },
            Some(i) => {
                let ghost before = self.sent_votes@;
                let mut sent = Vec::new();
                std::mem::swap(&mut sent, &mut self.sent_votes);
                sent.remove(i);
                proof {
                    assert(sent@ =~= before.remove(i as int));
                    assert forall|a: int, b: int| 0 <= a < b < sent@.len() implies sent@[a] != sent@[b] by {
                        let a2 = if a < i { a } else { a + 1 };
                        let b2 = if b < i { b } else { b + 1 };
                        assert(sent@[a] == before[a2]);
                        assert(sent@[b] == before[b2]);
                    }
                    assert(sent@.no_duplicates());
                    assert forall|x: BlockId| sent@.contains(x) <==> before.to_set().remove(*block_id).contains(x) by {
                        if sent@.contains(x) {
                            let k = choose|k: int| 0 <= k < sent@.len() && sent@[k] == x;
                            let k2 = if k < i { k } else { k + 1 };
                            assert(before[k2] == x);
                            assert(k2 != i);
                        }
                        if before.to_set().remove(*block_id).contains(x) {
                            let k = choose|k: int| 0 <= k < before.len() && before[k] == x;
                            assert(k != i);
                            if k < i {
                                assert(sent@[k] == x);
                            } else {
                                assert(sent@[k - 1] == x);
                            }
                        }
                    }
                    assert(sent@.to_set() =~= before.to_set().remove(*block_id));
                }
                self.sent_votes = sent;
            },
        }
    }

    /// Handles a block proposed for the chain, given whether validating it
    /// succeeded and whether the votes for it reach the quorum. Below the
    /// quorum the pool keeps its state and gives no answer. At the quorum, a
    /// valid block joins the queue and this node's vote on it is forgotten;
    /// an invalid block is answered `Done` and changes nothing; a failure to
    /// validate is answered with its reason.
    pub fn process_block(
        &mut self,
        block: SignedBlock,
        block_id: &BlockId,
        validation: Result<(), BlockValidationError>,
        quorum_reached: bool,
    ) -> (r: Option<PoolReply>)
        ensures
            !quorum_reached ==> r is None && final(self)@ == old(self)@,
            quorum_reached ==> match validation {
                Ok(()) => {
                    &&& r matches Some(PoolReply::Done)
                    &&& final(self)@ == after_accept(old(self)@, block@, *block_id)
                },
                Err(BlockValidationError::Invalid(_)) => r matches Some(PoolReply::Done) && final(self)@
                    == old(self)@,
                Err(BlockValidationError::Error(e)) => r matches Some(PoolReply::NodeError(n)) && n == e
                    && final(self)@ == old(self)@,
            },
    {
        proof {
            use_type_invariant(&*self);
        }
        if !quorum_reached {
            return None;
        }
        match validation {
            Ok(()) => {
                let ghost bv = block@;
                let mut queue = std::collections::VecDeque::new();
                std::mem::swap(&mut queue, &mut self.block_queue);
                queue.push_back(block);
                self.block_queue = queue;
                assert(self@.queue =~= old(self)@.queue.push(bv));
                self.forget_sent(block_id);
                Some(PoolReply::Done)
            },
            Err(BlockValidationError::Invalid(_)) => Some(PoolReply::Done),
            Err(BlockValidationError::Error(e)) => Some(PoolReply::NodeError(e)),
        }
    }

    /// The first step of handling a vote on `block_id`: a block this node
    /// already voted on is refused; otherwise the pool records that it
    /// votes on it and goes on.
    pub fn begin_vote(&mut self, block_id: &BlockId) -> (r: bool)
        ensures
            r == vote_goes_on(old(self)@, *block_id),
            final(self)@ == after_begin_vote(old(self)@, *block_id),
    {
        proof {
            use_type_invariant(&*self);
        }
        match self.sent_index(block_id) {
            Some(_) => {
                assert(self@.sent =~= old(self)@.sent.insert(*block_id));
                false
            },
            None => {
                let ghost before = self.sent_votes@;
                let mut sent = Vec::new();
                std::mem::swap(&mut sent, &mut self.sent_votes);
                sent.push(*block_id);
                proof {
                    assert(sent@ =~= before.push(*block_id));
                    assert forall|a: int, b: int| 0 <= a < b < sent@.len() implies sent@[a] != sent@[b] by {
                        if b == before.len() {
                            assert(before[a] != *block_id);
                        }
                    }
                    assert(sent@.no_duplicates());
                    assert forall|x: BlockId| sent@.contains(x) <==> before.to_set().insert(*block_id).contains(x) by {
                        if x == *block_id {
                            assert(sent@[before.len() as int] == x);
                        }
                        if before.contains(x) {
                            let k = choose|k: int| 0 <= k < before.len() && before[k] == x;
                            assert(sent@[k] == x);
                        }
                        if sent@.contains(x) {
                            let k = choose|k: int| 0 <= k < sent@.len() && sent@[k] == x;
                            if k < before.len() {
                                assert(before[k] == x);
                            }
                        }
                    }
                    assert(sent@.to_set() =~= before.to_set().insert(*block_id));
                }
                self.sent_votes = sent;
                true
            },
        }
    }

    /// The first step of handling a vote on `block_id`, with its answer: a
    /// block this node already voted on is refused with "block already
    /// processed" (`Some(AlreadyProcessed)`); otherwise the pool records that
    /// it votes on it and the vote goes on (`None`).
    pub fn start_vote(&mut self, block_id: &BlockId) -> (r: Option<PoolReply>)
        ensures
            vote_goes_on(old(self)@, *block_id) ==> r is None,
            !vote_goes_on(old(self)@, *block_id) ==> r matches Some(PoolReply::AlreadyProcessed),
            final(self)@ == after_begin_vote(old(self)@, *block_id),
    {
        if self.begin_vote(block_id) {
            None
        } else {
            Some(PoolReply::AlreadyProcessed)
        }
    }

    /// Records the vote that came with a block and this node's own vote on
    /// it: both are appended, in that order, to the votes seen for the
    /// block, which start empty for a block not seen before.
    pub fn record_votes(&mut self, block_id: &BlockId, vote: u64, own_power: u64)
        ensures
            final(self)@ == after_record(old(self)@, *block_id, vote, own_power),
    {
        proof {
            use_type_invariant(&*self);
        }
        let idx = self.votes_index(block_id);
        let ghost before = self.block_votes@;
        let mut entries = Vec::new();
        std::mem::swap(&mut entries, &mut self.block_votes);
        match idx {
            Some(i) => {
                let mut list = Vec::new();
                std::mem::swap(&mut list, &mut entries[i].1);
                let ghost old_list = before[i as int].1@;
                list.push(vote);
                list.push(own_power);
                let ghost new_list = list@;
                entries[i] = (*block_id, list);
                proof {
                    assert(entries@ =~= before.update(i as int, (*block_id, entries@[i as int].1)));
                    lemma_votes_lookup(before, i as int);
                    lemma_votes_update(before, i as int, entries@[i as int].1);
                    assert(new_list =~= old_list.push(vote).push(own_power));
                }
                self.block_votes = entries;
            },
            None => {
                let mut list = Vec::new();
                list.push(vote);
                list.push(own_power);
                let ghost new_list = list@;
                entries.push((*block_id, list));
                proof {
                    lemma_votes_push(before, *block_id, entries@[before.len() as int].1);
                    assert(new_list =~= Seq::<u64>::empty().push(vote).push(own_power));
                }
                self.block_votes = entries;
            },
        }
        assert(self@.votes =~= votes_with(old(self)@.votes, *block_id, vote, own_power));
    }
}

/// Replacing the votes of one entry changes the votes of that block alone.
proof fn lemma_votes_update(s: Seq<(BlockId, Vec<u64>)>, i: int, v: Vec<u64>)
    requires
        distinct_keys(s),
        0 <= i < s.len(),
    ensures
        distinct_keys(s.update(i, (s[i].0, v))),
        votes_map(s.update(i, (s[i].0, v))) =~= votes_map(s).insert(s[i].0, v@),
{
    let t = s.update(i, (s[i].0, v));
    assert forall|a: int, b: int| 0 <= a < b < t.len() implies #[trigger] t[a].0 != #[trigger] t[b].0 by {
        assert(t[a].0 == s[a].0);
        assert(t[b].0 == s[b].0);
    }
    assert forall|k: BlockId| has_votes_for(t, k) <==> has_votes_for(s, k) || k == s[i].0 by {
        if has_votes_for(s, k) {
            let j = choose|j: int| 0 <= j < s.len() && #[trigger] s[j].0 == k;
            assert(t[j].0 == k);
        }
        if has_votes_for(t, k) {
            let j = choose|j: int| 0 <= j < t.len() && #[trigger] t[j].0 == k;
            assert(s[j].0 == k);
        }
        if k == s[i].0 {
            assert(t[i].0 == k);
        }
    }
    assert forall|k: BlockId| #[trigger] votes_map(t).contains_key(k) implies votes_map(t)[k]
        == votes_map(s).insert(s[i].0, v@)[k] by {
        let j = choose|j: int| 0 <= j < t.len() && #[trigger] t[j].0 == k;
        lemma_votes_lookup(t, j);
        if j != i {
            assert(s[j].0 == k);
            lemma_votes_lookup(s, j);
        }
    }
}

/// Appending an entry for a block with no votes adds that block alone.
proof fn lemma_votes_push(s: Seq<(BlockId, Vec<u64>)>, k: BlockId, v: Vec<u64>)
    requires
        distinct_keys(s),
        !has_votes_for(s, k),
    ensures
        distinct_keys(s.push((k, v))),
        votes_map(s.push((k, v))) =~= votes_map(s).insert(k, v@),
{
    let t = s.push((k, v));
    assert forall|a: int, b: int| 0 <= a < b < t.len() implies #[trigger] t[a].0 != #[trigger] t[b].0 by {
        assert(t[a].0 == s[a].0);
        if b < s.len() {
            assert(t[b].0 == s[b].0);
        } else {
            assert(s[a].0 != k);
        }
    }
    assert forall|x: BlockId| has_votes_for(t, x) <==> has_votes_for(s, x) || x == k by {
        if has_votes_for(s, x) {
            let j = choose|j: int| 0 <= j < s.len() && #[trigger] s[j].0 == x;
            assert(t[j].0 == x);
        }
        if has_votes_for(t, x) {
            let j = choose|j: int| 0 <= j < t.len() && #[trigger] t[j].0 == x;
            if j < s.len() {
                assert(s[j].0 == x);
            }
        }
        if x == k {
            assert(t[s.len() as int].0 == k);
        }
    }
    assert forall|x: BlockId| #[trigger] votes_map(t).contains_key(x) implies votes_map(t)[x]
        == votes_map(s).insert(k, v@)[x] by {
        let j = choose|j: int| 0 <= j < t.len() && #[trigger] t[j].0 == x;
        lemma_votes_lookup(t, j);
        if j < s.len() {
            assert(s[j].0 == x);
            lemma_votes_lookup(s, j);
        }
    }
}

/// The votes per block after `vote` and `own` are recorded for `id`.
pub open spec fn votes_with(votes: Map<BlockId, Seq<u64>>, id: BlockId, vote: u64, own: u64) -> Map<
    BlockId,
    Seq<u64>,
> {
    let seen = if votes.contains_key(id) {
        votes[id]
    } else {
        Seq::empty()
    };
    votes.insert(id, seen.push(vote).push(own))
}

/// What `begin_vote` answers on a pool: whether a vote on `id` goes on.
pub open spec fn vote_goes_on(p: BlockpoolView, id: BlockId) -> bool {
    !p.sent.contains(id)
}

/// The pool after `begin_vote` on `id`: this node now counts as voting on it.
pub open spec fn after_begin_vote(p: BlockpoolView, id: BlockId) -> BlockpoolView {
    BlockpoolView { queue: p.queue, votes: p.votes, sent: p.sent.insert(id) }
}

/// The pool after it accepts `block`, whose id is `id`, into its queue.
pub open spec fn after_accept(p: BlockpoolView, block: SignedBlockView, id: BlockId) -> BlockpoolView {
    BlockpoolView { queue: p.queue.push(block), votes: p.votes, sent: p.sent.remove(id) }
}

/// The pool after recording `vote` and `own` for `id`.
pub open spec fn after_record(p: BlockpoolView, id: BlockId, vote: u64, own: u64) -> BlockpoolView {
    BlockpoolView { queue: p.queue, votes: votes_with(p.votes, id, vote, own), sent: p.sent }
}

/// The answer to a vote once the block was validated: `Done` for a valid
/// block, "not implemented" otherwise.
pub fn vote_reply(validation: &Result<(), BlockValidationError>) -> (r: PoolReply)
    ensures
        validation is Ok ==> r is Done,
        validation is Err ==> r is NotImplemented,
{
    match validation {
        Ok(()) => PoolReply::Done,
        Err(_) => PoolReply::NotImplemented,
    }
}

/// This node votes on a block at most once until the block is accepted: a
/// second `begin_vote` on a block is refused, whatever the pool held, and
/// once `process_block` has accepted the block a new vote on it goes on.
pub proof fn law_second_vote_refused(p: BlockpoolView, id: BlockId, block: SignedBlockView)
    ensures
        !vote_goes_on(after_begin_vote(p, id), id),
        vote_goes_on(after_accept(after_begin_vote(p, id), block, id), id),
{
}

/// Recorded votes add up: after `record_votes`, the total for the block is
/// what it was (nothing for a block not seen before) plus the two votes, and
/// the votes of every other block stay as they were.
pub proof fn law_recorded_votes_add_up(p: BlockpoolView, id: BlockId, vote: u64, own: u64)
    ensures
        after_record(p, id, vote, own).votes.contains_key(id),
        vote_sum(after_record(p, id, vote, own).votes[id]) == (if p.votes.contains_key(id) {
            vote_sum(p.votes[id])
        } else {
            0
        }) + vote + own,
        forall|k: BlockId|
            k != id ==> #[trigger] after_record(p, id, vote, own).votes.contains_key(k)
                == p.votes.contains_key(k) && (p.votes.contains_key(k) ==> after_record(
                p,
                id,
                vote,
                own,
            ).votes[k] == p.votes[k]),
{
    let seen = if p.votes.contains_key(id) {
        p.votes[id]
    } else {
        Seq::<u64>::empty()
    };
    let two = seen.push(vote).push(own);
    assert(two.drop_last() =~= seen.push(vote));
    assert(seen.push(vote).drop_last() =~= seen);
    assert(vote_sum(seen.push(vote)) == vote_sum(seen) + vote);
    assert(vote_sum(two) == vote_sum(seen.push(vote)) + own);
    assert(after_record(p, id, vote, own).votes[id] == two);
}

} // verus!
