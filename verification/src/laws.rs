//! What holds of the engine across calls, proved from the transitions on
//! [`StateView`] that the entry points are stated against.

use crate::engine::tracked_amount;
use crate::error::ManagerError;
use crate::msg::{Coin, ExecuteMsg, InstantiateMsg, Reply, SudoMsg};
use crate::registry::{bind_spec, resolve_spec};
use crate::state::StateView;
use vstd::prelude::*;

verus! {

/// A watch that is registered and then confirmed resolves to its subject:
/// with a configuration stored and no registration pending, after
/// `keep_an_eye_on(subject)` and a reply that confirms it under a request
/// identifier not bound before, that identifier resolves to `subject`, and
/// no registration is pending any more.
pub proof fn law_confirmed_watch_resolves(
    pre: StateView,
    subject: Seq<char>,
    confirmation: Reply,
    request_id: u64,
)
    requires
        pre.config is Some,
        pre.pending is None,
        StateView::confirmed_id(confirmation) == Ok::<u64, ManagerError>(request_id),
        !pre.objects.contains_key(request_id),
    ensures
        ({
            let registered = pre.keep_an_eye_on(subject);
            let confirmed = registered.state.reply(confirmation);
            &&& registered.result is Ok
            &&& confirmed.result is Ok
            &&& resolve_spec(confirmed.state.objects, request_id) == Ok::<Seq<char>, ManagerError>(
                subject,
            )
            &&& confirmed.state.pending is None
        }),
{
}

/// Binding rejects a second use of a request identifier: whatever the
/// registry held, after one attempt to bind `request_id` a further attempt is
/// refused as a duplicate and changes nothing, so that a binding made by the
/// first attempt still stands.
pub proof fn law_rebinding_rejected(
    registry: Map<u64, Seq<char>>,
    request_id: u64,
    first: Seq<char>,
    second: Seq<char>,
)
    ensures
        ({
            let once = bind_spec(registry, request_id, first);
            let twice = bind_spec(once.0, request_id, second);
            &&& twice.1 == Err::<(), ManagerError>(ManagerError::DuplicateBinding)
            &&& twice.0 == once.0
            &&& once.1 is Ok ==> resolve_spec(twice.0, request_id) == Ok::<
                Seq<char>,
                ManagerError,
            >(first)
        }),
{
}

/// The same through the entry points: a confirmation that names a request
/// identifier already bound is refused as a duplicate, and the state,
/// the earlier binding included, stays as it was.
pub proof fn law_duplicate_confirmation_rejected(pre: StateView, request_id: u64)
    requires
        pre.pending is Some,
        pre.objects.contains_key(request_id),
    ensures
        pre.confirm_registration(request_id) == pre.rejected(ManagerError::DuplicateBinding),
{
}

/// A measurement classifies the subject it was taken for: with a
/// configuration stored and `request_id` bound, a snapshot whose amount of
/// the tracked asset reaches the threshold writes the subject into the rich
/// tier under the current marker and leaves the poor tier as it was; one
/// whose amount is below the threshold does the same with the tiers
/// exchanged; one that does not mention the tracked asset changes nothing.
pub proof fn law_measurement_classifies(
    pre: StateView,
    request_id: u64,
    coins: Seq<Coin>,
    marker: u64,
)
    requires
        pre.config is Some,
        pre.objects.contains_key(request_id),
    ensures
        ({
            let config = pre.config->0;
            let subject = pre.objects[request_id];
            let post = pre.sudo_kv_query_result(marker, request_id, coins);
            &&& post.result == Ok::<Option<crate::msg::RequestView>, ManagerError>(None)
            &&& post.state.config == pre.config
            &&& post.state.pending == pre.pending
            &&& post.state.objects == pre.objects
            &&& match tracked_amount(coins, config.asset_denom) {
                Some(amount) => if amount >= config.rich_line {
                    &&& post.state.tiers.rich == pre.tiers.rich.insert(subject, marker)
                    &&& post.state.tiers.poor == pre.tiers.poor
                } else {
                    &&& post.state.tiers.poor == pre.tiers.poor.insert(subject, marker)
                    &&& post.state.tiers.rich == pre.tiers.rich
                },
                None => post.state.tiers == pre.tiers,
            }
        }),
{
}

/// A later evaluation overwrites, and the other tier keeps what it had: when
/// a subject is measured below the threshold under `earlier` and then at or
/// above it under `later`, the rich tier holds the subject under `later`,
/// and holds nothing else it did not hold before; the poor tier still holds
/// the subject under `earlier`.
pub proof fn law_reevaluation_overwrites(
    pre: StateView,
    request_id: u64,
    below: Seq<Coin>,
    earlier: u64,
    above: Seq<Coin>,
    later: u64,
)
    requires
        pre.config is Some,
        pre.objects.contains_key(request_id),
        tracked_amount(below, pre.config->0.asset_denom) matches Some(amount) && amount
            < pre.config->0.rich_line,
        tracked_amount(above, pre.config->0.asset_denom) matches Some(amount) && amount
            >= pre.config->0.rich_line,
    ensures
        ({
            let subject = pre.objects[request_id];
            let first = pre.sudo_kv_query_result(earlier, request_id, below);
            let second = first.state.sudo_kv_query_result(later, request_id, above);
            &&& first.result is Ok
            &&& second.result is Ok
            &&& second.state.tiers.rich == pre.tiers.rich.insert(subject, later)
            &&& second.state.tiers.poor == pre.tiers.poor.insert(subject, earlier)
        }),
{
}

/// Two evaluations into the same tier leave one entry, under the later
/// marker.
pub proof fn law_same_tier_keeps_latest(
    pre: StateView,
    request_id: u64,
    first_coins: Seq<Coin>,
    earlier: u64,
    second_coins: Seq<Coin>,
    later: u64,
)
    requires
        pre.config is Some,
        pre.objects.contains_key(request_id),
        tracked_amount(first_coins, pre.config->0.asset_denom) matches Some(amount) && amount
            >= pre.config->0.rich_line,
        tracked_amount(second_coins, pre.config->0.asset_denom) matches Some(amount) && amount
            >= pre.config->0.rich_line,
    ensures
        ({
            let subject = pre.objects[request_id];
            let first = pre.sudo_kv_query_result(earlier, request_id, first_coins);
            let second = first.state.sudo_kv_query_result(later, request_id, second_coins);
            &&& second.state.tiers.rich == pre.tiers.rich.insert(subject, later)
            &&& second.state.tiers.poor == pre.tiers.poor
        }),
{
    let subject = pre.objects[request_id];
    assert(pre.tiers.rich.insert(subject, earlier).insert(subject, later)
        =~= pre.tiers.rich.insert(subject, later));
}

/// `earlier` is kept in `later`: every binding of the one stands unchanged
/// in the other.
pub open spec fn bindings_kept(earlier: StateView, later: StateView) -> bool {
    forall|request_id: u64| #[trigger]
        earlier.objects.contains_key(request_id) ==> later.objects.contains_key(request_id)
            && later.objects[request_id] == earlier.objects[request_id]
}

/// No entry point removes or changes a binding, and none stores anything
/// when it rejects the call.
pub proof fn law_bindings_persist(
    pre: StateView,
    sender: Seq<char>,
    instantiation: InstantiateMsg,
    command: ExecuteMsg,
    addr: Seq<char>,
    confirmation: Reply,
    height: u64,
    callback: SudoMsg,
    coins: Seq<Coin>,
)
    ensures
        bindings_kept(pre, pre.instantiate(sender, instantiation).state),
        bindings_kept(pre, pre.execute(sender, command).state),
        bindings_kept(pre, pre.keep_an_eye_on(addr).state),
        bindings_kept(pre, pre.reply(confirmation).state),
        bindings_kept(pre, pre.sudo(height, callback, coins).state),
        pre.execute(sender, command).result is Err ==> pre.execute(sender, command).state == pre,
        pre.keep_an_eye_on(addr).result is Err ==> pre.keep_an_eye_on(addr).state == pre,
        pre.reply(confirmation).result is Err ==> pre.reply(confirmation).state == pre,
        pre.sudo(height, callback, coins).result is Err ==> pre.sudo(height, callback, coins).state
            == pre,
{
}

/// A pending registration is never overwritten: while one awaits its
/// confirmation, a further registration is refused with
/// `ConcurrentRegistration`, sends nothing and leaves the state, the pending
/// subject included, as it was.
pub proof fn law_pending_registration_guarded(pre: StateView, addr: Seq<char>)
    requires
        pre.pending is Some,
    ensures
        pre.keep_an_eye_on(addr) == pre.rejected(ManagerError::ConcurrentRegistration),
{
}

/// The same through the command surface: the owner's second registration
/// before the confirmation of the first is refused, and the confirmation
/// that follows binds the first subject, never the second.
pub proof fn law_second_registration_refused(
    pre: StateView,
    owner: Seq<char>,
    first: ExecuteMsg,
    second: ExecuteMsg,
    request_id: u64,
)
    requires
        pre.config matches Some(config) && config.owner == owner,
        pre.pending is None,
        !pre.objects.contains_key(request_id),
    ensures
        ({
            let one = pre.execute(owner, first);
            let two = one.state.execute(owner, second);
            let confirmed = two.state.confirm_registration(request_id);
            &&& one.result is Ok
            &&& one.state.pending == Some(first->addr@)
            &&& two == one.state.rejected(ManagerError::ConcurrentRegistration)
            &&& confirmed.result is Ok
            &&& confirmed.state.objects[request_id] == first->addr@
        }),
{
}

} // verus!
