//! The entry points of the engine: bootstrap, the operator's command, the
//! read-only queries, and the two callbacks that bridge the asynchronous
//! boundaries, the confirmation of a registration and the delivery of a
//! measurement.
//!
//! Each entry point is stated against the transition of the same name on
//! [`StateView`]. A call that is rejected leaves the state as it was.

use crate::engine::evaluate;
use crate::error::ManagerError;
use crate::msg::{
    result_view, Answer, Coin, ExecuteMsg, InstantiateMsg, QueryMsg, QueryResponse,
    RegistrationRequest, Reply, ReplyOutcome, Response, SudoMsg,
};
use crate::state::{Config, State, StateView, Step, REGISTER_BALANCES_ICQ_REPLY_ID};
use crate::wire::{balance_query_accepted, build_balance_query_msg, decode_registered_query_id};
use neutron_sdk::bindings::msg::NeutronMsg;
use vstd::prelude::*;

verus! {

/// A call that left `state` and resulted in `r`.
pub open spec fn step_of(state: StateView, r: Result<Response, ManagerError>) -> Step {
    Step { state, result: result_view(r) }
}

/// Creates the instance: stores the configuration of `msg`, with `sender` as
/// its owner. The host calls this once; a further call replaces the
/// configuration and leaves the rest of the state alone.
pub fn instantiate(state: &mut State, sender: String, msg: InstantiateMsg) -> (r: Result<
    Response,
    ManagerError,
>)
    ensures
        step_of(final(state)@, r) == old(state)@.instantiate(sender@, msg),
{
    state.save_config(
        Config {
            owner: sender,
            rich_line: msg.rich_line,
            asset_denom: msg.asset_denom,
            frequency: msg.frequency,
            connection_id: msg.connection_id,
        },
    );
    Ok(Response::new())
}

/// Carries out a command of the operator. A command from anyone but the
/// owner is rejected before anything changes, and so is a registration
/// while another one is pending.
pub fn execute(state: &mut State, sender: String, msg: ExecuteMsg) -> (r: Result<
    Response,
    ManagerError,
>)
    ensures
        step_of(final(state)@, r) == old(state)@.execute(sender@, msg),
{
    let authorized = match state.config() {
        None => { return Err(ManagerError::NotFound); },
        Some(config) => config.owner == sender,
    };
    if !authorized {
        return Err(ManagerError::Unauthorized);
    }
    match msg {
        ExecuteMsg::KeepAnEyeOn { addr } => keep_an_eye_on(state, addr),
    }
}

/// Registers a watch for `addr`: remembers it as the subject of the
/// registration in flight and returns the one request to send to the query
/// subsystem. While an earlier registration still awaits its confirmation
/// the call is refused, so that no pending subject is ever overwritten and a
/// confirmation always binds the subject its request was issued for.
pub fn keep_an_eye_on(state: &mut State, addr: String) -> (r: Result<Response, ManagerError>)
    ensures
        step_of(final(state)@, r) == old(state)@.keep_an_eye_on(addr@),
{
    if state.pending().is_some() {
        return Err(ManagerError::ConcurrentRegistration);
    }
    let request = match state.config() {
        None => { return Err(ManagerError::NotFound); },
        Some(config) => RegistrationRequest {
            reply_id: REGISTER_BALANCES_ICQ_REPLY_ID,
            connection_id: config.connection_id.clone(),
            addr: addr.clone(),
            asset_denom: config.asset_denom.clone(),
            update_period: config.frequency,
        },
    };
    state.save_pending(addr);
    Ok(Response { registration: Some(request) })
}

/// Builds the message that puts `request` to the query subsystem.
pub fn registration_message(request: &RegistrationRequest) -> (r: Result<NeutronMsg, ManagerError>)
    ensures
        r is Ok <==> balance_query_accepted(
            request.connection_id@,
            request.addr@,
            request.asset_denom@,
            request.update_period,
        ),
        r matches Err(e) ==> e == ManagerError::InvalidAddress,
{
    match build_balance_query_msg(
        request.connection_id.clone(),
        request.addr.clone(),
        request.asset_denom.clone(),
        request.update_period,
    ) {
        Ok(message) => Ok(message),
        Err(_) => Err(ManagerError::InvalidAddress),
    }
}

/// Answers a query. A list in the answer holds every key of the map it
/// lists exactly once.
pub fn query(state: &State, msg: QueryMsg) -> (r: Result<QueryResponse, ManagerError>)
    ensures
        match r {
            Ok(response) => state@.query(msg) == Ok::<Answer, ManagerError>(response@),
            Err(e) => state@.query(msg) == Err::<Answer, ManagerError>(e),
        },
        state@.listed(),
{
    proof {
        state.lemma_listed();
    }
    match msg {
        QueryMsg::Objects {  } => query_objects(state),
        QueryMsg::Rich {  } => query_rich(state),
        QueryMsg::Poor {  } => query_poor(state),
        QueryMsg::Config {  } => query_config(state),
    }
}

/// The watched subjects, in ascending order of request identifier.
pub fn query_objects(state: &State) -> (r: Result<QueryResponse, ManagerError>)
    ensures
        r matches Ok(response) && state@.query(QueryMsg::Objects {  }) == Ok::<
            Answer,
            ManagerError,
        >(response@),
        state@.listed(),
{
    proof {
        state.lemma_listed();
    }
    Ok(QueryResponse::Objects(state.objects().list_all()))
}

/// The rich tier, in ascending order of subject.
pub fn query_rich(state: &State) -> (r: Result<QueryResponse, ManagerError>)
    ensures
        r matches Ok(response) && state@.query(QueryMsg::Rich {  }) == Ok::<
            Answer,
            ManagerError,
        >(response@),
        state@.listed(),
{
    proof {
        state.lemma_listed();
    }
    Ok(QueryResponse::Rich(state.tiers().list_rich()))
}

/// The poor tier, in ascending order of subject.
pub fn query_poor(state: &State) -> (r: Result<QueryResponse, ManagerError>)
    ensures
        r matches Ok(response) && state@.query(QueryMsg::Poor {  }) == Ok::<
            Answer,
            ManagerError,
        >(response@),
        state@.listed(),
{
    proof {
        state.lemma_listed();
    }
    Ok(QueryResponse::Poor(state.tiers().list_poor()))
}

/// The configuration in force.
pub fn query_config(state: &State) -> (r: Result<QueryResponse, ManagerError>)
    ensures
        match r {
            Ok(response) => state@.query(QueryMsg::Config {  }) == Ok::<
                Answer,
                ManagerError,
            >(response@),
            Err(e) => state@.query(QueryMsg::Config {  }) == Err::<
                Answer,
                ManagerError,
            >(e),
        },
{
    match state.config() {
        Some(config) => Ok(QueryResponse::Config(config.clone())),
        None => Err(ManagerError::NotFound),
    }
}

/// Handles a callback from the chain. `coins` is the balance snapshot that
/// was fetched for the query the callback names; it is looked at only for
/// the delivery of a key-value query result.
pub fn sudo(state: &mut State, height: u64, msg: SudoMsg, coins: &Vec<Coin>) -> (r: Result<
    Response,
    ManagerError,
>)
    ensures
        step_of(final(state)@, r) == old(state)@.sudo(height, msg, coins@),
{
    match msg {
        SudoMsg::KVQueryResult { query_id } => sudo_kv_query_result(state, height, query_id, coins),
        _ => Ok(Response::new()),
    }
}

/// Handles the delivery of a measurement for `query_id`: declares the subject
/// behind the query rich or poor, as of `height`, by what `coins` reports
/// for the tracked asset.
pub fn sudo_kv_query_result(
    state: &mut State,
    height: u64,
    query_id: u64,
    coins: &Vec<Coin>,
) -> (r: Result<Response, ManagerError>)
    ensures
        step_of(final(state)@, r) == old(state)@.sudo_kv_query_result(height, query_id, coins@),
{
    let subject = match state.objects().resolve(query_id) {
        Ok(subject) => subject,
        Err(e) => { return Err(e); },
    };
    let evaluation = match state.config() {
        None => { return Err(ManagerError::NotFound); },
        Some(config) => evaluate(coins, &config.asset_denom, config.rich_line),
    };
    if let Some(tier) = evaluation {
        state.tiers_mut().set_tier(subject, tier, height);
    }
    Ok(Response::new())
}

/// Reads out of a reply the request identifier that it confirms.
pub fn confirmed_request_id(msg: &Reply) -> (r: Result<u64, ManagerError>)
    ensures
        r == StateView::confirmed_id(*msg),
{
    if msg.id != REGISTER_BALANCES_ICQ_REPLY_ID {
        return Err(ManagerError::UnsupportedReply);
    }
    match &msg.result {
        ReplyOutcome::Success { data: Some(payload) } => match decode_registered_query_id(
            payload.as_slice(),
        ) {
            Ok(request_id) => Ok(request_id),
            Err(_) => Err(ManagerError::ProtocolDecode),
        },
        _ => Err(ManagerError::ProtocolDecode),
    }
}

/// Binds `request_id` to the subject of the registration in flight, and
/// empties the pending cell.
pub fn confirm_registration(state: &mut State, request_id: u64) -> (r: Result<
    Response,
    ManagerError,
>)
    ensures
        step_of(final(state)@, r) == old(state)@.confirm_registration(request_id),
{
    if state.objects().is_bound(request_id) {
        return match state.pending() {
            None => Err(ManagerError::State),
            Some(_) => Err(ManagerError::DuplicateBinding),
        };
    }
    match state.take_pending() {
        None => Err(ManagerError::State),
        Some(subject) => {
            let bound = state.objects_mut().bind(request_id, subject);
            match bound {
                Ok(()) => Ok(Response::new()),
                Err(e) => Err(e),
            }
        },
    }
}

/// Handles the callback that follows a registration request: binds the
/// request identifier that the query subsystem assigned to the subject the
/// request was issued for.
pub fn reply(state: &mut State, msg: Reply) -> (r: Result<Response, ManagerError>)
    ensures
        step_of(final(state)@, r) == old(state)@.reply(msg),
{
    match confirmed_request_id(&msg) {
        Ok(request_id) => confirm_registration(state, request_id),
        Err(e) => Err(e),
    }
}

} // verus!
