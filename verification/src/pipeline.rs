//! The package pipeline.
//!
//! Four package categories compose the per-step execution: init runs once
//! and produces the initial agents; each step then runs the context
//! packages concurrently against a state snapshot, the state packages
//! sequentially, and the output packages concurrently. The spawning and
//! joining is the process loop's business; this module holds the package
//! bookkeeping and the pure parts: collecting init results and building the
//! empty context.

use vstd::prelude::*;

use crate::agent::Agent;
use crate::comms::{MessageTarget, TargetedTaskMessage, TaskMessage};
use crate::error::Error;
use crate::field::clone_string;

verus! {

/// The four package categories of the per-step pipeline.
#[derive(Debug, Clone, Copy, PartialEq, Eq, Structural)]
pub enum PackageType {
    Init,
    Context,
    State,
    Output,
}

impl PackageType {
    /// The category's name on the wire and in output part files.
    pub fn as_str(&self) -> (r: &'static str)
        ensures
            *self is Init ==> r@ == "init"@,
            *self is Context ==> r@ == "context"@,
            *self is State ==> r@ == "state"@,
            *self is Output ==> r@ == "output"@,
    {
        match *self {
            PackageType::Init => "init",
            PackageType::Context => "context",
            PackageType::State => "state",
            PackageType::Output => "output",
        }
    }
}

/// How a task turns into runner messages: the start message, the answer of
/// the host-side dynamic handler, and the terminal transformation.
pub trait WorkerHandler {
    fn start_message(&self) -> Result<TargetedTaskMessage, Error>;

    fn handle_worker_message(&mut self, msg: TaskMessage) -> Result<TargetedTaskMessage, Error>;

    fn into_result(&self, msg: TaskMessage) -> Result<TaskMessage, Error>;
}

/// The init task executed on the JavaScript runner.
#[derive(Debug, PartialEq, Eq)]
pub struct JsInitTask {
    pub initial_state_source: String,
}

/// The init task executed on the Python runner.
#[derive(Debug, PartialEq, Eq)]
pub struct PyInitTask {
    pub initial_state_source: String,
}

impl WorkerHandler for JsInitTask {
    /// The initial-state source, directed at the JavaScript runner.
    fn start_message(&self) -> (r: Result<TargetedTaskMessage, Error>)
        ensures
            r is Ok,
            r matches Ok(m) ==> m.target is JavaScript && m.payload.payload_json@
                == self.initial_state_source@,
    {
        Ok(
            TargetedTaskMessage {
                target: MessageTarget::JavaScript,
                payload: TaskMessage { payload_json: clone_string(&self.initial_state_source) },
            },
        )
    }

    /// A dynamic target is never used by init tasks.
    fn handle_worker_message(&mut self, msg: TaskMessage) -> (r: Result<TargetedTaskMessage, Error>)
        ensures
            r is Err,
    {
        let _ = msg;
        Err(Error::Unique("init task has no dynamic handler".to_owned()))
    }

    /// The terminal message is the result itself.
    fn into_result(&self, msg: TaskMessage) -> (r: Result<TaskMessage, Error>)
        ensures
            r == Ok::<TaskMessage, Error>(msg),
    {
        Ok(msg)
    }
}

impl WorkerHandler for PyInitTask {
    /// The initial-state source, directed at the Python runner.
    fn start_message(&self) -> (r: Result<TargetedTaskMessage, Error>)
        ensures
            r is Ok,
            r matches Ok(m) ==> m.target is Python && m.payload.payload_json@
                == self.initial_state_source@,
    {
        Ok(
            TargetedTaskMessage {
                target: MessageTarget::Python,
                payload: TaskMessage { payload_json: clone_string(&self.initial_state_source) },
            },
        )
    }

    /// A dynamic target is never used by init tasks.
    fn handle_worker_message(&mut self, msg: TaskMessage) -> (r: Result<TargetedTaskMessage, Error>)
        ensures
            r is Err,
    {
        let _ = msg;
        Err(Error::Unique("init task has no dynamic handler".to_owned()))
    }

    /// The terminal message is the result itself.
    fn into_result(&self, msg: TaskMessage) -> (r: Result<TaskMessage, Error>)
        ensures
            r == Ok::<TaskMessage, Error>(msg),
    {
        Ok(msg)
    }
}

/// One init package of the closed set.
#[derive(Debug, PartialEq, Eq)]
pub enum InitPackageSpec {
    /// Initial agents parsed straight from a project's JSON source.
    Json { initial_state_src: String },
    Js(JsInitTask),
    Py(PyInitTask),
}

/// The init phase: its packages, spawned concurrently once per simulation.
#[derive(Debug, PartialEq, Eq)]
pub struct InitPackages {
    pub inner: Vec<InitPackageSpec>,
}

impl InitPackages {
    pub fn new(inner: Vec<InitPackageSpec>) -> (r: InitPackages)
        ensures
            r.inner == inner,
    {
        InitPackages { inner }
    }
}

/// The agents of all init results concatenated, in collection order.
pub open spec fn concat_init_agents(rs: Seq<Result<Vec<Agent>, Error>>) -> Seq<Agent>
    decreases rs,
{
    if rs.len() == 0 {
        Seq::empty()
    } else {
        concat_init_agents(rs.drop_last()) + (match rs.last() {
            Ok(agents) => agents@,
            Err(_) => Seq::empty(),
        })
    }
}

/// Collect the init packages' results: any failed package aborts the run,
/// otherwise the initial state is every package's agents concatenated in
/// collection order.
#[verifier::loop_isolation(false)]
pub fn collect_init_agents(results: Vec<Result<Vec<Agent>, Error>>) -> (r: Result<Vec<Agent>, Error>)
    ensures
        r is Ok <==> (forall|i: int| 0 <= i < results@.len() ==> (#[trigger] results@[i]) is Ok),
        r matches Ok(agents) ==> agents@ == concat_init_agents(results@),
{
    let ghost rs = results@;
    let mut agents: Vec<Agent> = Vec::new();
    let mut rest = results;
    let ghost mut taken: int = 0;
    proof {
        assert(rs.take(0) =~= Seq::<Result<Vec<Agent>, Error>>::empty());
        assert(agents@ =~= concat_init_agents(rs.take(0)));
        assert(rest@ =~= rs.skip(0));
    }
    while rest.len() > 0
        invariant
            0 <= taken <= rs.len(),
            taken + rest@.len() == rs.len(),
            rest@ =~= rs.skip(taken),
            agents@ =~= concat_init_agents(rs.take(taken)),
            forall|i: int| 0 <= i < taken ==> (#[trigger] rs[i]) is Ok,
        decreases rest@.len(),
    {
        let result = rest.remove(0);
        proof {
            assert(result == rs[taken]);
        }
        let mut new_agents = match result {
            Ok(a) => a,
            Err(e) => {
                return Err(e);
            },
        };
        let ghost added = new_agents@;
        agents.append(&mut new_agents);
        proof {
            taken = taken + 1;
            assert(rest@ =~= rs.skip(taken));
            assert(rs.take(taken).drop_last() =~= rs.take(taken - 1));
            assert(rs.take(taken).last() == rs[taken - 1]);
            assert(agents@ =~= concat_init_agents(rs.take(taken)));
        }
    }
    proof {
        assert(rs.take(rs.len() as int) =~= rs);
    }
    Ok(agents)
}

/// The dynamic metadata of one context column: per node its row count, per
/// buffer its byte length.
#[derive(Debug, PartialEq, Eq)]
pub struct ColumnDynamicMetadata {
    pub node_lengths: Vec<usize>,
    pub buffer_byte_lengths: Vec<usize>,
}

/// What a context package's column knows how to do: describe its buffers
/// and write itself into a batch body.
pub trait ContextColumnWriter {
    fn get_dynamic_metadata(&self) -> Result<ColumnDynamicMetadata, Error>;

    fn write(&self, buffer: &mut Vec<u8>) -> Result<(), Error>;
}

/// A list column whose every list is empty: one outer node of `num_rows`
/// empty lists. Its buffers are the outer offsets (all zero) and no child
/// data.
#[derive(Debug, PartialEq, Eq)]
pub struct EmptyListColumn {
    pub num_rows: usize,
}

/// The encoded bytes of an all-zero 32-bit offsets buffer for `n` rows.
pub open spec fn zero_offsets_bytes(n: int) -> Seq<u8> {
    Seq::new(((n + 1) * 4) as nat, |i: int| 0u8)
}

impl ContextColumnWriter for EmptyListColumn {
    /// One outer node of `num_rows` rows with an offsets buffer, one inner
    /// node without rows or bytes.
    fn get_dynamic_metadata(&self) -> (r: Result<ColumnDynamicMetadata, Error>)
        ensures
            r is Ok <==> self.num_rows + 1 <= usize::MAX as int / 4,
            r matches Ok(m) ==> {
                &&& m.node_lengths@ =~= seq![self.num_rows, 0usize]
                &&& m.buffer_byte_lengths@ =~= seq![((self.num_rows + 1) * 4) as usize, 0usize]
            },
    {
        if self.num_rows > usize::MAX / 4 - 1 {
            return Err(Error::Unique("context column too large".to_owned()));
        }
        let node_lengths = crate::meta::vec2(self.num_rows, 0);
        let buffer_byte_lengths = crate::meta::vec2((self.num_rows + 1) * 4, 0);
        Ok(ColumnDynamicMetadata { node_lengths, buffer_byte_lengths })
    }

    /// Append the offsets buffer: `num_rows + 1` zero offsets, little
    /// endian — every list is empty.
    fn write(&self, buffer: &mut Vec<u8>) -> (r: Result<(), Error>)
        ensures
            r is Ok <==> self.num_rows + 1 <= usize::MAX as int / 4,
            r is Ok ==> final(buffer)@ == old(buffer)@ + zero_offsets_bytes(self.num_rows as int),
            r is Err ==> final(buffer)@ == old(buffer)@,
    {
        if self.num_rows > usize::MAX / 4 - 1 {
            return Err(Error::Unique("context column too large".to_owned()));
        }
        let ghost before = buffer@;
        let mut written: usize = 0;
        let total = (self.num_rows + 1) * 4;
        while written < total
            invariant
                0 <= written <= total,
                total == (self.num_rows + 1) * 4,
                buffer@ =~= before + Seq::new(written as nat, |i: int| 0u8),
            decreases total - written,
        {
            buffer.push(0);
            written = written + 1;
            proof {
                assert(buffer@ =~= before + Seq::new(written as nat, |i: int| 0u8));
            }
        }
        proof {
            assert(buffer@ =~= before + zero_offsets_bytes(self.num_rows as int));
        }
        Ok(())
    }
}

/// The kinds of context columns the built-in packages produce.
#[derive(Debug, PartialEq, Eq)]
pub enum ContextColumnKind {
    EmptyList(EmptyListColumn),
}

/// One context package's column for the step.
#[derive(Debug, PartialEq, Eq)]
pub struct ContextColumn {
    pub inner: ContextColumnKind,
}

impl ContextColumn {
    /// The rows the column holds.
    pub open spec fn spec_num_rows(&self) -> usize {
        match self.inner {
            ContextColumnKind::EmptyList(c) => c.num_rows,
        }
    }

    /// Describe the column's nodes and buffers.
    pub fn get_dynamic_metadata(&self) -> (r: Result<ColumnDynamicMetadata, Error>)
        ensures
            r is Ok <==> self.spec_num_rows() + 1 <= usize::MAX as int / 4,
    {
        match &self.inner {
            ContextColumnKind::EmptyList(c) => c.get_dynamic_metadata(),
        }
    }

    /// Write the column into a batch body.
    pub fn write(&self, buffer: &mut Vec<u8>) -> (r: Result<(), Error>)
        ensures
            r is Ok <==> self.spec_num_rows() + 1 <= usize::MAX as int / 4,
            r is Ok ==> final(buffer)@ == old(buffer)@ + zero_offsets_bytes(
                self.spec_num_rows() as int,
            ),
            r is Err ==> final(buffer)@ == old(buffer)@,
    {
        match &self.inner {
            ContextColumnKind::EmptyList(c) => c.write(buffer),
        }
    }
}

/// One package of the step phases, as the scheduler sees it.
#[derive(Debug, PartialEq, Eq)]
pub struct PackageSpec {
    pub package_type: PackageType,
    pub name: String,
    pub cpu_bound: bool,
}

/// The context of one step: one read-only derived column per context
/// package, every column with one row per agent.
#[derive(Debug, PartialEq, Eq)]
pub struct Context {
    pub num_agents: usize,
    pub columns: Vec<ContextColumn>,
}

/// A well-formed context: every column has exactly one row per agent.
pub open spec fn context_wf(c: Context) -> bool {
    forall|i: int|
        0 <= i < c.columns@.len() ==> (#[trigger] c.columns@[i]).spec_num_rows() == c.num_agents
}

/// The per-step packages: context, state and output phases.
#[derive(Debug, PartialEq, Eq)]
pub struct StepPackages {
    pub context: Vec<PackageSpec>,
    pub state: Vec<PackageSpec>,
    pub output: Vec<PackageSpec>,
}

/// What the controller reports to the experiment package after a step.
#[derive(Debug, Clone, Copy, PartialEq, Eq, Structural)]
pub struct StepUpdate {
    pub sim_id: crate::comms::SimulationShortId,
    pub was_error: bool,
    pub stop_signal: bool,
}

/// The whole package set of a simulation.
#[derive(Debug, PartialEq, Eq)]
pub struct Packages {
    pub init: InitPackages,
    pub step: StepPackages,
}

impl StepPackages {
    pub fn new(context: Vec<PackageSpec>, state: Vec<PackageSpec>, output: Vec<PackageSpec>) -> (r:
        StepPackages)
        ensures
            r.context == context,
            r.state == state,
            r.output == output,
    {
        StepPackages { context, state, output }
    }

    /// The context of a step before any context package ran: one empty
    /// column per context package, each with one row per agent. An empty
    /// agent pool yields a well-formed context of empty columns.
    pub fn empty_context(&self, num_agents: usize) -> (r: Result<Context, Error>)
        requires
            num_agents + 1 <= usize::MAX as int / 4,
        ensures
            r is Ok,
            r matches Ok(c) ==> {
                &&& context_wf(c)
                &&& c.num_agents == num_agents
                &&& c.columns@.len() == self.context@.len()
            },
    {
        let mut columns: Vec<ContextColumn> = Vec::new();
        let mut i: usize = 0;
        while i < self.context.len()
            invariant
                0 <= i <= self.context@.len(),
                columns@.len() == i,
                forall|k: int|
                    0 <= k < i ==> (#[trigger] columns@[k]).spec_num_rows() == num_agents,
            decreases self.context@.len() - i,
        {
            columns.push(
                ContextColumn {
                    inner: ContextColumnKind::EmptyList(EmptyListColumn { num_rows: num_agents }),
                },
            );
            i = i + 1;
        }
        Ok(Context { num_agents, columns })
    }
}

} // verus!
