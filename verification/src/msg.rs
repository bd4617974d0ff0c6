//! The messages that drive the engine, and what it answers.

use crate::classification::{evaluations_view, Evaluation};
use crate::error::ManagerError;
use crate::registry::subjects_view;
use crate::state::{Config, ConfigView};
use vstd::prelude::*;

verus! {

/// The parameters a new instance is created with.
#[derive(Debug, PartialEq, Eq)]
pub struct InstantiateMsg {
    /// The line that separates the rich from the poor: whoever holds at least
    /// this much of the tracked asset is rich.
    pub rich_line: u128,
    /// The asset that is taken into account.
    pub asset_denom: String,
    /// How often, in blocks, a subject's balance is evaluated again.
    pub frequency: u64,
    /// The connection over which the remote balances are read and proved.
    pub connection_id: String,
}

impl Clone for InstantiateMsg {
    fn clone(&self) -> (copy: Self)
        ensures
            copy == *self,
    {
        InstantiateMsg {
            rich_line: self.rich_line,
            asset_denom: self.asset_denom.clone(),
            frequency: self.frequency,
            connection_id: self.connection_id.clone(),
        }
    }
}

/// The commands an operator may send.
#[derive(Debug, PartialEq, Eq)]
pub enum ExecuteMsg {
    /// Keep an eye on someone's pockets.
    KeepAnEyeOn { addr: String },
}

impl Clone for ExecuteMsg {
    fn clone(&self) -> (copy: Self)
        ensures
            copy == *self,
    {
        match self {
            ExecuteMsg::KeepAnEyeOn { addr } => ExecuteMsg::KeepAnEyeOn { addr: addr.clone() },
        }
    }
}

/// The read-only questions the engine answers.
#[derive(Clone, Copy, Debug, PartialEq, Eq)]
pub enum QueryMsg {
    /// The subjects the manager looks after.
    Objects {},
    /// The subjects last found rich, each with the height of that evaluation.
    Rich {},
    /// The subjects last found poor, each with the height of that evaluation.
    Poor {},
    /// The configuration in force.
    Config {},
}

/// The kinds of callback the chain makes. Only the delivery of a key-value
/// query result concerns this engine; the others are acknowledged and
/// change nothing.
#[derive(Clone, Copy, Debug, PartialEq, Eq)]
pub enum SudoMsg {
    Response,
    Error,
    Timeout,
    OpenAck,
    TxQueryResult,
    /// A fresh result is available for the registered query `query_id`.
    KVQueryResult { query_id: u64 },
}

/// One entry of a delivered balance snapshot.
#[derive(Debug, PartialEq, Eq)]
pub struct Coin {
    pub denom: String,
    pub amount: u128,
}

impl Clone for Coin {
    fn clone(&self) -> (copy: Self)
        ensures
            copy == *self,
    {
        Coin { denom: self.denom.clone(), amount: self.amount }
    }
}

/// How a submessage ended.
#[derive(Debug, PartialEq, Eq)]
pub enum ReplyOutcome {
    /// It was carried out; `data` is what the handler returned, if anything.
    Success { data: Option<Vec<u8>> },
    /// It failed, with this explanation.
    Failure { error: String },
}

/// The callback that follows a submessage.
#[derive(Debug, PartialEq, Eq)]
pub struct Reply {
    /// The identifier the submessage was sent under.
    pub id: u64,
    pub result: ReplyOutcome,
}

/// A request, to be sent to the query subsystem, to observe the balance of
/// `addr` in `asset_denom` every `update_period` blocks. Its confirmation
/// comes back as a [`Reply`] under `reply_id`.
#[derive(Debug, PartialEq, Eq)]
pub struct RegistrationRequest {
    pub reply_id: u64,
    pub connection_id: String,
    pub addr: String,
    pub asset_denom: String,
    pub update_period: u64,
}

/// What a [`RegistrationRequest`] says.
pub struct RequestView {
    pub reply_id: u64,
    pub connection_id: Seq<char>,
    pub addr: Seq<char>,
    pub asset_denom: Seq<char>,
    pub update_period: u64,
}

impl View for RegistrationRequest {
    type V = RequestView;

    open spec fn view(&self) -> RequestView {
        RequestView {
            reply_id: self.reply_id,
            connection_id: self.connection_id@,
            addr: self.addr@,
            asset_denom: self.asset_denom@,
            update_period: self.update_period,
        }
    }
}

/// What an entry point hands back on success: the request to send out, where
/// the call issues one.
#[derive(Debug, PartialEq, Eq)]
pub struct Response {
    pub registration: Option<RegistrationRequest>,
}

impl View for Response {
    type V = Option<RequestView>;

    open spec fn view(&self) -> Option<RequestView> {
        match self.registration {
            Some(request) => Some(request@),
            None => None,
        }
    }
}

impl Response {
    /// The response that sends nothing.
    pub fn new() -> (response: Self)
        ensures
            response@ is None,
    {
        Response { registration: None }
    }
}

/// What a call results in: the request to send out, if any, or the reason
/// the call was rejected.
pub open spec fn result_view(r: Result<Response, ManagerError>) -> Result<
    Option<RequestView>,
    ManagerError,
> {
    match r {
        Ok(response) => Ok(response@),
        Err(e) => Err(e),
    }
}

/// The answer to a [`QueryMsg`].
#[derive(Debug, PartialEq, Eq)]
pub enum QueryResponse {
    /// The watched subjects, ascending by request identifier.
    Objects(Vec<String>),
    /// The rich tier, ascending by subject.
    Rich(Vec<Evaluation>),
    /// The poor tier, ascending by subject.
    Poor(Vec<Evaluation>),
    /// The configuration in force.
    Config(Config),
}

/// What a [`QueryResponse`] says.
pub enum Answer {
    Objects(Seq<Seq<char>>),
    Rich(Seq<(Seq<char>, u64)>),
    Poor(Seq<(Seq<char>, u64)>),
    Config(ConfigView),
}

impl View for QueryResponse {
    type V = Answer;

    open spec fn view(&self) -> Answer {
        match self {
            QueryResponse::Objects(subjects) => Answer::Objects(subjects_view(subjects@)),
            QueryResponse::Rich(list) => Answer::Rich(evaluations_view(list@)),
            QueryResponse::Poor(list) => Answer::Poor(evaluations_view(list@)),
            QueryResponse::Config(config) => Answer::Config(config@),
        }
    }
}

} // verus!
