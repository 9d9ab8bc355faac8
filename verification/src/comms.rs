//! Message types shared between the engine, the workers and their
//! language runners, and the reload bookkeeping they carry.

use vstd::prelude::*;

use crate::metaversion::Metaversion;

verus! {

/// The guest languages a worker owns one runner of each.
#[derive(Debug, Clone, Copy, PartialEq, Eq, Structural)]
pub enum Language {
    Rust,
    Python,
    JavaScript,
}

/// Where a task message is directed: one of the runners, the host-side
/// dynamic handler, or the main loop (terminating the task).
#[derive(Debug, Clone, Copy, PartialEq, Eq, Structural)]
pub enum MessageTarget {
    Rust,
    Python,
    JavaScript,
    Dynamic,
    Main,
}

/// The target that names a language, as a spec-level function.
pub open spec fn target_of_language(l: Language) -> MessageTarget {
    match l {
        Language::Rust => MessageTarget::Rust,
        Language::Python => MessageTarget::Python,
        Language::JavaScript => MessageTarget::JavaScript,
    }
}

impl From<Language> for MessageTarget {
    fn from(l: Language) -> (r: MessageTarget) {
        match l {
            Language::Rust => MessageTarget::Rust,
            Language::Python => MessageTarget::Python,
            Language::JavaScript => MessageTarget::JavaScript,
        }
    }
}

impl vstd::std_specs::convert::FromSpecImpl<Language> for MessageTarget {
    open spec fn obeys_from_spec() -> bool {
        true
    }

    open spec fn from_spec(l: Language) -> MessageTarget {
        target_of_language(l)
    }
}

/// A task identifier, globally unique within a run.
pub type TaskId = u128;

/// A short simulation identifier; zero correlates to no simulation.
pub type SimulationShortId = u32;

/// A package identifier.
pub type PackageId = usize;

/// An opaque task payload, as its serialized form.
#[derive(Debug, PartialEq, Eq)]
pub struct TaskMessage {
    pub payload_json: String,
}

impl TaskMessage {
    pub fn new(payload_json: String) -> (r: TaskMessage)
        ensures
            r.payload_json@ == payload_json@,
    {
        TaskMessage { payload_json }
    }
}

/// A task payload together with where it should go next.
#[derive(Debug, PartialEq, Eq)]
pub struct TargetedTaskMessage {
    pub target: MessageTarget,
    pub payload: TaskMessage,
}

/// Which groups a task touched and the batch versions it saw, sent along
/// with every task message so the receiver can refresh its caches.
#[derive(Debug, PartialEq, Eq)]
pub struct StateInterimSync {
    pub group_indices: Vec<usize>,
    pub agent_pool_metaversions: Vec<Metaversion>,
    pub message_pool_metaversions: Vec<Metaversion>,
}

/// A task message on its way to or from a runner.
#[derive(Debug, PartialEq, Eq)]
pub struct RunnerTaskMsg {
    pub package_id: PackageId,
    pub task_id: TaskId,
    pub sync: StateInterimSync,
    pub payload: TaskMessage,
    pub group_index: Option<u32>,
}

/// A runner task message together with its target.
#[derive(Debug, PartialEq, Eq)]
pub struct TargetedRunnerTaskMsg {
    pub target: MessageTarget,
    pub msg: RunnerTaskMsg,
}

/// What an observer must do upon seeing a batch's current metaversion,
/// given the one it remembered.
#[derive(Debug, Clone, Copy, PartialEq, Eq, Structural)]
pub enum ReloadAction {
    /// The mapping is stale: map the shared region anew, then re-parse.
    Remap,
    /// The mapping is current but the parsed view is stale: re-parse.
    Reparse,
    /// Both the mapping and the parsed view are current.
    Current,
}

/// Decide how to catch up with a batch: a bumped `memory` counter demands a
/// fresh mapping, a bumped `batch` counter alone a re-parse, and matching
/// counters nothing.
pub fn reload_action(cached: Metaversion, incoming: Metaversion) -> (r: ReloadAction)
    ensures
        r is Remap <==> incoming.memory > cached.memory,
        r is Reparse <==> incoming.memory <= cached.memory && incoming.batch > cached.batch,
        r is Current <==> incoming.memory <= cached.memory && incoming.batch <= cached.batch,
{
    if incoming.memory() > cached.memory() {
        ReloadAction::Remap
    } else if incoming.batch() > cached.batch() {
        ReloadAction::Reparse
    } else {
        ReloadAction::Current
    }
}

/// The interim sync a task message carries when it touched every group:
/// the group indices in order and, per group, the agent and message batch
/// versions as the sender saw them.
#[verifier::loop_isolation(false)]
pub fn interim_sync_from_pools(
    agent_pool: &crate::pool::AgentPool,
    message_pool: &crate::pool::MessagePool,
) -> (r: StateInterimSync)
    requires
        agent_pool.batches@.len() == message_pool.batches@.len(),
    ensures
        r.group_indices@.len() == agent_pool.batches@.len(),
        forall|i: int| 0 <= i < r.group_indices@.len() ==> #[trigger] r.group_indices@[i] == i,
        r.agent_pool_metaversions@.len() == agent_pool.batches@.len(),
        forall|i: int|
            0 <= i < agent_pool.batches@.len() ==> #[trigger] r.agent_pool_metaversions@[i]
                == agent_pool.batches@[i].metaversion,
        r.message_pool_metaversions@.len() == message_pool.batches@.len(),
        forall|i: int|
            0 <= i < message_pool.batches@.len() ==> #[trigger] r.message_pool_metaversions@[i]
                == message_pool.batches@[i].metaversion,
{
    let n = agent_pool.batches.len();
    let mut group_indices: Vec<usize> = Vec::new();
    let mut agent_pool_metaversions: Vec<Metaversion> = Vec::new();
    let mut message_pool_metaversions: Vec<Metaversion> = Vec::new();
    let mut i: usize = 0;
    while i < n
        invariant
            0 <= i <= n,
            group_indices@.len() == i,
            forall|k: int| 0 <= k < i ==> #[trigger] group_indices@[k] == k,
            agent_pool_metaversions@.len() == i,
            forall|k: int|
                0 <= k < i ==> #[trigger] agent_pool_metaversions@[k]
                    == agent_pool.batches@[k].metaversion,
            message_pool_metaversions@.len() == i,
            forall|k: int|
                0 <= k < i ==> #[trigger] message_pool_metaversions@[k]
                    == message_pool.batches@[k].metaversion,
        decreases n - i,
    {
        group_indices.push(i);
        agent_pool_metaversions.push(agent_pool.batches[i].metaversion);
        message_pool_metaversions.push(message_pool.batches[i].metaversion);
        i = i + 1;
    }
    StateInterimSync { group_indices, agent_pool_metaversions, message_pool_metaversions }
}

/// One dataset reference of the shared context: the batch to map and the
/// version to expect.
#[derive(Debug, PartialEq, Eq)]
pub struct BatchRef {
    pub batch_id: String,
    pub metaversion: Metaversion,
}

/// The framed schema blobs and shared context a runner needs to set its
/// datastore up.
#[derive(Debug, PartialEq, Eq)]
pub struct DatastoreInit {
    pub agent_batch_schema: Vec<u8>,
    pub message_batch_schema: Vec<u8>,
    pub context_batch_schema: Vec<u8>,
    pub shared_context: Vec<BatchRef>,
}

/// What one package tells its worker-side counterpart at start-up.
#[derive(Debug, PartialEq, Eq)]
pub struct PackageInitMsgForWorker {
    pub name: String,
    pub package_type: crate::pipeline::PackageType,
    pub sid: PackageId,
    pub payload_json: String,
}

/// The start-up payloads of all packages, keyed by package id.
#[derive(Debug, PartialEq, Eq)]
pub struct PackageMsgs(pub Vec<PackageInitMsgForWorker>);

/// The datastore parts of one simulation run, as handed to a runner: the
/// materialized schemas of the three batch kinds and the shared store.
#[derive(Debug, PartialEq, Eq)]
pub struct DatastoreSimulationPayload {
    pub agent_batch_schema: crate::data_type::ArrowSchema,
    pub message_batch_schema: crate::data_type::ArrowSchema,
    pub context_batch_schema: crate::data_type::ArrowSchema,
    pub shared_store: crate::shared_store::SharedStore,
}

/// Everything a runner needs to join a new simulation run.
#[derive(Debug, PartialEq, Eq)]
pub struct NewSimulationRun {
    pub short_id: SimulationShortId,
    pub packages: PackageMsgs,
    pub datastore: DatastoreInit,
    pub globals_json: String,
}

/// The one-time handshake payload a runner receives on connection.
#[derive(Debug, PartialEq, Eq)]
pub struct ExperimentInitRunnerMsg {
    pub experiment_id: [u8; 16],
    pub worker_index: usize,
    pub shared_context: Vec<BatchRef>,
    pub package_config: PackageMsgs,
}

} // verus!
