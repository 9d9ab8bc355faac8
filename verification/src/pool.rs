//! Pools of shared batches, one batch per group of agents.
//!
//! The agent pool and the message pool are parallel: group `i` of messages
//! belongs to group `i` of agents. After the state phase has grown or shrunk
//! the agent pool, the message pool is reset against it: surplus message
//! batches are dropped, the kept ones are emptied in place, and a fresh
//! empty batch is appended for every new agent group.

use vstd::prelude::*;

use crate::error::Error;
use crate::metaversion::{BufferChange, Metaversion};

verus! {

/// One group's worth of agents, as the pool bookkeeping sees it.
#[derive(Debug, PartialEq, Eq)]
pub struct AgentBatch {
    pub batch_id: String,
    pub num_agents: usize,
    pub metaversion: Metaversion,
}

/// One group's outboxes: per agent of the paired agent batch, how many
/// messages its list holds.
#[derive(Debug, PartialEq, Eq)]
pub struct MessageBatch {
    pub batch_id: String,
    pub metaversion: Metaversion,
    pub message_counts: Vec<usize>,
}

/// All message lists of the batch are empty and there is one per agent of
/// the paired agent batch.
pub open spec fn message_batch_empty_for(m: MessageBatch, agents: AgentBatch) -> bool {
    &&& m.message_counts@.len() == agents.num_agents
    &&& forall|r: int| 0 <= r < m.message_counts@.len() ==> #[trigger] m.message_counts@[r] == 0
}

impl MessageBatch {
    /// A fresh, empty message batch paired with an agent batch.
    pub fn empty_from_agent_batch(agents: &AgentBatch) -> (r: MessageBatch)
        ensures
            message_batch_empty_for(r, *agents),
            r.batch_id@ == agents.batch_id@,
            r.metaversion == (Metaversion { memory: 0u32, batch: 0u32 }),
    {
        let mut counts: Vec<usize> = Vec::new();
        let mut i: usize = 0;
        while i < agents.num_agents
            invariant
                0 <= i <= agents.num_agents,
                counts@.len() == i,
                forall|r: int| 0 <= r < i ==> #[trigger] counts@[r] == 0,
            decreases agents.num_agents - i,
        {
            counts.push(0);
            i = i + 1;
        }
        MessageBatch {
            batch_id: crate::field::clone_string(&agents.batch_id),
            metaversion: Metaversion::new(0, 0),
            message_counts: counts,
        }
    }

    /// Empty this batch in place against its paired agent batch: one empty
    /// message list per agent. The metaversion advances by the rules of the
    /// reload protocol: a change of row count is a resize (both counters),
    /// otherwise the rewrite is an in-place shift (batch counter only).
    pub fn reset(&mut self, agents: &AgentBatch)
        requires
            old(self).metaversion.memory < u32::MAX,
            old(self).metaversion.batch < u32::MAX,
        ensures
            message_batch_empty_for(*final(self), *agents),
            final(self).batch_id@ == old(self).batch_id@,
            old(self).message_counts@.len() != agents.num_agents ==> final(self).metaversion
                == old(self).metaversion.spec_incremented(),
            old(self).message_counts@.len() == agents.num_agents ==> final(self).metaversion
                == old(self).metaversion.spec_batch_incremented(),
    {
        let resized = self.message_counts.len() != agents.num_agents;
        let mut counts: Vec<usize> = Vec::new();
        let mut i: usize = 0;
        while i < agents.num_agents
            invariant
                0 <= i <= agents.num_agents,
                counts@.len() == i,
                forall|r: int| 0 <= r < i ==> #[trigger] counts@[r] == 0,
            decreases agents.num_agents - i,
        {
            counts.push(0);
            i = i + 1;
        }
        self.message_counts = counts;
        let change = BufferChange::new(resized, true);
        self.metaversion.increment_with(&change);
    }
}

/// The per-simulation agent pool: one batch per group.
#[derive(Debug, PartialEq, Eq)]
pub struct AgentPool {
    pub batches: Vec<AgentBatch>,
}

impl AgentPool {
    pub fn new(batches: Vec<AgentBatch>) -> (r: AgentPool)
        ensures
            r.batches == batches,
    {
        AgentPool { batches }
    }

    pub fn len(&self) -> (r: usize)
        ensures
            r == self.batches@.len(),
    {
        self.batches.len()
    }
}

/// The per-simulation message pool, parallel to the agent pool.
#[derive(Debug, PartialEq, Eq)]
pub struct MessagePool {
    pub batches: Vec<MessageBatch>,
}

impl MessagePool {
    pub fn new(batches: Vec<MessageBatch>) -> (r: MessagePool)
        ensures
            r.batches == batches,
    {
        MessagePool { batches }
    }

    /// A pool without any groups.
    pub fn empty() -> (r: MessagePool)
        ensures
            r.batches@ == Seq::<MessageBatch>::empty(),
    {
        let r = MessagePool { batches: Vec::new() };
        proof {
            assert(r.batches@ =~= Seq::<MessageBatch>::empty());
        }
        r
    }

    pub fn len(&self) -> (r: usize)
        ensures
            r == self.batches@.len(),
    {
        self.batches.len()
    }

    /// A copy of the whole batch list, batch by batch.
    pub fn cloned_batch_pool(&self) -> (r: Vec<MessageBatch>)
        ensures
            r@.len() == self.batches@.len(),
            forall|i: int|
                0 <= i < r@.len() ==> (#[trigger] r@[i]).batch_id@ == self.batches@[i].batch_id@
                    && r@[i].metaversion == self.batches@[i].metaversion
                    && r@[i].message_counts@ == self.batches@[i].message_counts@,
    {
        let mut out: Vec<MessageBatch> = Vec::new();
        let mut i: usize = 0;
        while i < self.batches.len()
            invariant
                0 <= i <= self.batches@.len(),
                out@.len() == i,
                forall|k: int|
                    0 <= k < i ==> (#[trigger] out@[k]).batch_id@
                        == self.batches@[k].batch_id@ && out@[k].metaversion
                        == self.batches@[k].metaversion && out@[k].message_counts@
                        == self.batches@[k].message_counts@,
            decreases self.batches@.len() - i,
        {
            let b = &self.batches[i];
            out.push(
                MessageBatch {
                    batch_id: crate::field::clone_string(&b.batch_id),
                    metaversion: b.metaversion,
                    message_counts: clone_counts(&b.message_counts),
                },
            );
            i = i + 1;
        }
        out
    }

    /// Reset the pool against the agent pool after a step: surplus message
    /// batches go away, each kept batch is emptied in place against its
    /// agent group, and a fresh empty batch is appended for every new agent
    /// group. Afterwards the pools have the same number of groups and every
    /// message list is empty.
    #[verifier::loop_isolation(false)]
    pub fn reset(&mut self, agent_pool: &AgentPool) -> (r: Result<(), Error>)
        requires
            forall|i: int|
                0 <= i < old(self).batches@.len() ==> (#[trigger] old(
                    self,
                ).batches@[i]).metaversion.memory < u32::MAX && old(
                    self,
                ).batches@[i].metaversion.batch < u32::MAX,
        ensures
            r is Ok,
            final(self).batches@.len() == agent_pool.batches@.len(),
            forall|i: int|
                0 <= i < final(self).batches@.len() ==> message_batch_empty_for(
                    #[trigger] final(self).batches@[i],
                    agent_pool.batches@[i],
                ),
            forall|i: int|
                0 <= i < final(self).batches@.len() && i < old(self).batches@.len()
                    ==> (#[trigger] final(self).batches@[i]).batch_id@
                    == old(self).batches@[i].batch_id@ && final(self).batches@[i].metaversion == (
                if old(self).batches@[i].message_counts@.len()
                    != agent_pool.batches@[i].num_agents {
                    old(self).batches@[i].metaversion.spec_incremented()
                } else {
                    old(self).batches@[i].metaversion.spec_batch_incremented()
                }),
            forall|i: int|
                old(self).batches@.len() <= i < final(self).batches@.len()
                    ==> (#[trigger] final(self).batches@[i]).metaversion == (Metaversion {
                    memory: 0u32,
                    batch: 0u32,
                }) && final(self).batches@[i].batch_id@ == agent_pool.batches@[i].batch_id@,
    {
        let target = agent_pool.batches.len();
        // Drop the groups the agent pool no longer has.
        while self.batches.len() > target
            invariant
                self.batches@.len() >= target || self.batches@.len() == old(
                    self,
                ).batches@.len(),
                self.batches@ =~= old(self).batches@.take(
                    if old(self).batches@.len() > self.batches@.len() {
                        self.batches@.len() as int
                    } else {
                        old(self).batches@.len() as int
                    },
                ),
            decreases self.batches@.len(),
        {
            let _ = self.batches.pop();
            proof {
                assert(self.batches@ =~= old(self).batches@.take(self.batches@.len() as int));
            }
        }
        proof {
            assert(forall|i: int|
                0 <= i < self.batches@.len() ==> #[trigger] self.batches@[i] == old(
                    self,
                ).batches@[i]);
        }
        // Empty the kept groups in place.
        let kept = self.batches.len();
        let mut i: usize = 0;
        while i < kept
            invariant
                0 <= i <= kept <= target,
                kept <= old(self).batches@.len(),
                self.batches@.len() == kept,
                forall|k: int|
                    i <= k < kept ==> #[trigger] self.batches@[k] == old(self).batches@[k],
                forall|k: int|
                    0 <= k < i ==> message_batch_empty_for(
                        #[trigger] self.batches@[k],
                        agent_pool.batches@[k],
                    ) && self.batches@[k].batch_id@ == old(self).batches@[k].batch_id@
                        && self.batches@[k].metaversion == (
                    if old(self).batches@[k].message_counts@.len()
                        != agent_pool.batches@[k].num_agents {
                        old(self).batches@[k].metaversion.spec_incremented()
                    } else {
                        old(self).batches@[k].metaversion.spec_batch_incremented()
                    }),
            decreases kept - i,
        {
            let inbox = &mut self.batches[i];
            inbox.reset(&agent_pool.batches[i]);
            i = i + 1;
        }
        // Append a fresh empty batch for every new agent group.
        while self.batches.len() < target
            invariant
                kept <= self.batches@.len() <= target,
                forall|k: int|
                    0 <= k < kept ==> message_batch_empty_for(
                        #[trigger] self.batches@[k],
                        agent_pool.batches@[k],
                    ) && self.batches@[k].batch_id@ == old(self).batches@[k].batch_id@
                        && self.batches@[k].metaversion == (
                    if old(self).batches@[k].message_counts@.len()
                        != agent_pool.batches@[k].num_agents {
                        old(self).batches@[k].metaversion.spec_incremented()
                    } else {
                        old(self).batches@[k].metaversion.spec_batch_incremented()
                    }),
                forall|k: int|
                    kept <= k < self.batches@.len() ==> message_batch_empty_for(
                        #[trigger] self.batches@[k],
                        agent_pool.batches@[k],
                    ) && self.batches@[k].metaversion == (Metaversion { memory: 0u32, batch: 0u32 })
                        && self.batches@[k].batch_id@ == agent_pool.batches@[k].batch_id@,
            decreases target - self.batches@.len(),
        {
            let next = self.batches.len();
            let inbox = MessageBatch::empty_from_agent_batch(&agent_pool.batches[next]);
            self.batches.push(inbox);
        }
        proof {
            assert(kept == if old(self).batches@.len() < target {
                old(self).batches@.len() as int
            } else {
                target as int
            });
        }
        Ok(())
    }
}

/// Copy a list of per-agent message counts.
fn clone_counts(counts: &Vec<usize>) -> (r: Vec<usize>)
    ensures
        r@ == counts@,
{
    let mut r: Vec<usize> = Vec::new();
    let mut i: usize = 0;
    while i < counts.len()
        invariant
            0 <= i <= counts@.len(),
            r@ =~= counts@.take(i as int),
        decreases counts@.len() - i,
    {
        r.push(counts[i]);
        i = i + 1;
        proof {
            assert(r@ =~= counts@.take(i as int));
        }
    }
    proof {
        assert(counts@.take(counts@.len() as int) =~= counts@);
    }
    r
}

/// Reads one group's messages; the detail of walking a batch's columns
/// lives with the batch, the reader only hands out the per-group loaders.
#[derive(Debug, PartialEq, Eq)]
pub struct MessageLoader {
    pub batch_index: usize,
}

/// A reader over the whole message pool: one loader per group.
#[derive(Debug, PartialEq, Eq)]
pub struct MessageReader {
    pub loaders: Vec<MessageLoader>,
}

impl MessageReader {
    /// The loader of one group. Exactly the indices of existing groups
    /// resolve.
    pub fn get_loader(&self, batch_index: usize) -> (r: Result<&MessageLoader, Error>)
        ensures
            r is Ok <==> batch_index < self.loaders@.len(),
            r matches Ok(l) ==> *l == self.loaders@[batch_index as int],
            r matches Err(e) ==> e is Unique,
    {
        if batch_index < self.loaders.len() {
            Ok(&self.loaders[batch_index])
        } else {
            Err(Error::Unique("invalid batch index for message reader".to_owned()))
        }
    }
}

} // verus!
