//! The engine's side of the orchestrator exchange.
//!
//! The engine announces itself with `Started`; the orchestrator must answer
//! with an `Init` record within the deadline. Any other first message is a
//! protocol error, and silence past the deadline is a timeout. The socket
//! work lives outside the library; this module holds the decisions.

use vstd::prelude::*;

use crate::field::clone_string;

verus! {

/// Seconds the engine waits for the orchestrator's `Init`.
pub const INIT_MSG_RECV_TIMEOUT_SECS: u64 = 60;

/// Errors of the orchestrator exchange.
#[derive(Debug, PartialEq, Eq)]
pub enum Error {
    /// A catch-all carrying a human-readable message.
    Unique(String),
    /// The first message from the orchestrator was not `Init`.
    UnexpectedEngineMsgExpectedInit,
}

/// What the orchestrator's `Init` record carries: the experiment run, the
/// execution environment, and a JSON map of dynamic payloads.
#[derive(Debug, PartialEq, Eq)]
pub struct InitMessage {
    pub experiment_json: String,
    pub execution_env_json: String,
    pub dyn_payloads_json: String,
}

/// A message from the orchestrator to the engine.
#[derive(Debug, PartialEq, Eq)]
pub enum EngineMsg {
    Init(InitMessage),
    KillEngine,
}

/// A status update from the engine to the orchestrator.
#[derive(Debug, PartialEq, Eq)]
pub enum EngineStatus {
    Started,
    Errored(String),
}

/// Judge what the listener produced while waiting for the orchestrator's
/// first message: nothing within the deadline is a timeout, an `Init`
/// record starts the run, anything else is a protocol error.
pub fn recv_init_msg(received: Option<EngineMsg>) -> (r: Result<InitMessage, Error>)
    ensures
        r is Ok <==> received matches Some(EngineMsg::Init(_)),
        received matches Some(EngineMsg::Init(m)) ==> r == Ok::<InitMessage, Error>(m),
        received is None ==> (r matches Err(e) && e matches Error::Unique(s) && s@
            == "receive init message timeout"@),
        received matches Some(m) && !(m is Init) ==> r == Err::<InitMessage, Error>(
            Error::UnexpectedEngineMsgExpectedInit,
        ),
{
    match received {
        Some(EngineMsg::Init(init)) => Ok(init),
        Some(_) => Err(Error::UnexpectedEngineMsgExpectedInit),
        None => {
            let msg = "receive init message timeout".to_owned();
            Err(Error::Unique(msg))
        },
    }
}

/// The engine's handle on the orchestrator: where to reach it and which
/// experiment this engine serves. The transport itself lives outside the
/// library.
#[derive(Debug, PartialEq, Eq)]
pub struct OrchClient {
    pub url: String,
    pub experiment_id: String,
}

impl OrchClient {
    pub fn new(url: &str, experiment_id: &str) -> (r: Result<OrchClient, Error>)
        ensures
            r is Ok,
            r matches Ok(c) ==> c.url@ == url@ && c.experiment_id@ == experiment_id@,
    {
        Ok(OrchClient { url: url.to_owned(), experiment_id: experiment_id.to_owned() })
    }

    /// A second handle on the same orchestrator and experiment.
    pub fn try_clone(&self) -> (r: Result<OrchClient, Error>)
        ensures
            r is Ok,
            r matches Ok(c) ==> c.url@ == self.url@ && c.experiment_id@ == self.experiment_id@,
    {
        Ok(OrchClient { url: clone_string(&self.url), experiment_id: clone_string(&self.experiment_id) })
    }
}

} // verus!
