//! The calls into the crates that speak the chain's wire formats.
//!
//! Nothing in this module is proved: each contract records what the called
//! function is taken to do.

use neutron_sdk::bindings::msg::{MsgRegisterInterchainQueryResponse, NeutronMsg};
use neutron_sdk::interchain_queries::v045::new_register_balance_query_msg;
use neutron_sdk::NeutronError;
use vstd::prelude::*;

verus! {

/// The failure type of `serde_json_wasm`'s deserializer, carried through
/// unopened.
#[verifier::external_type_specification]
#[verifier::external_body]
pub struct ExDecodeError(serde_json_wasm::de::Error);

/// The request identifier that `serde_json_wasm::from_slice` reads out of a
/// registration confirmation payload, or `None` where it rejects the payload.
pub uninterp spec fn registered_query_id(payload: Seq<u8>) -> Option<u64>;

/// Calls `serde_json_wasm::from_slice` to decode `payload` as a
/// `MsgRegisterInterchainQueryResponse` and hands out its `id`.
///
/// Taken on trust: decoding is a function of the payload bytes alone, so the
/// outcome is the one named by [`registered_query_id`].
#[verifier::external_body]
pub(crate) fn decode_registered_query_id(payload: &[u8]) -> (r: Result<
    u64,
    serde_json_wasm::de::Error,
>)
    ensures
        match r {
            Ok(id) => registered_query_id(payload@) == Some(id),
            Err(_) => registered_query_id(payload@).is_none(),
        },
{
    serde_json_wasm::from_slice::<MsgRegisterInterchainQueryResponse>(payload).map(
        |response| response.id,
    )
}

/// A message for the chain's interchain-query module, carried through
/// unopened.
#[verifier::external_type_specification]
#[verifier::external_body]
pub struct ExNeutronMsg(neutron_sdk::bindings::msg::NeutronMsg);

/// The failure type of `neutron_sdk`, carried through unopened.
#[verifier::external_type_specification]
#[verifier::external_body]
pub struct ExNeutronError(neutron_sdk::NeutronError);

/// Whether `new_register_balance_query_msg` builds a message from these
/// arguments, rather than rejecting them.
pub uninterp spec fn balance_query_accepted(
    connection_id: Seq<char>,
    addr: Seq<char>,
    denom: Seq<char>,
    update_period: u64,
) -> bool;

/// Calls `neutron_sdk::interchain_queries::v045::new_register_balance_query_msg`,
/// which decodes `addr` as a bech32 address, derives the bank-module storage
/// key of its balance in `denom`, and wraps that key in a message that
/// registers a key-value query over `connection_id`, refreshed every
/// `update_period` blocks.
///
/// Taken on trust: whether a message comes back depends on the arguments
/// alone, as [`balance_query_accepted`] names it. Of the message itself
/// nothing is claimed.
#[verifier::external_body]
pub(crate) fn build_balance_query_msg(
    connection_id: String,
    addr: String,
    denom: String,
    update_period: u64,
) -> (r: Result<NeutronMsg, NeutronError>)
    ensures
        r is Ok <==> balance_query_accepted(connection_id@, addr@, denom@, update_period),
{
    new_register_balance_query_msg(connection_id, addr, denom, update_period)
}

} // verus!
