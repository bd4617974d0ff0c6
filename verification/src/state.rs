//! The persisted state: the configuration cell, the pending-registration
//! cell, the object registry and the classification store; and, over its
//! mathematical view, what each entry point of the engine does to it.

use crate::classification::{ClassificationStore, Tiers};
use crate::engine::evaluation_of;
use crate::error::ManagerError;
use crate::msg::{
    Answer, Coin, ExecuteMsg, InstantiateMsg, QueryMsg, Reply, ReplyOutcome, RequestView, SudoMsg,
};
use crate::order::{ascending_entries, ascending_values, id_order, listed, subject_order};
use crate::registry::{bind_spec, ObjectRegistry};
use crate::wire::registered_query_id;
use vstd::prelude::*;

verus! {

/// The identifier under which a registration request is sent, and under
/// which its confirmation comes back.
pub const REGISTER_BALANCES_ICQ_REPLY_ID: u64 = 1;

/// The parameters the engine runs under.
#[derive(Debug, PartialEq, Eq)]
pub struct Config {
    /// Who may declare new subjects to watch.
    pub owner: String,
    /// The line that separates the rich from the poor: whoever holds at least
    /// this much of the tracked asset is rich.
    pub rich_line: u128,
    /// The asset that is taken into account.
    pub asset_denom: String,
    /// How often, in blocks, a subject's balance is evaluated again.
    pub frequency: u64,
    /// The connection over which the remote balances are read and proved.
    pub connection_id: String,
}

/// What a [`Config`] says.
pub struct ConfigView {
    pub owner: Seq<char>,
    pub rich_line: u128,
    pub asset_denom: Seq<char>,
    pub frequency: u64,
    pub connection_id: Seq<char>,
}

impl View for Config {
    type V = ConfigView;

    open spec fn view(&self) -> ConfigView {
        ConfigView {
            owner: self.owner@,
            rich_line: self.rich_line,
            asset_denom: self.asset_denom@,
            frequency: self.frequency,
            connection_id: self.connection_id@,
        }
    }
}

impl Clone for Config {
    fn clone(&self) -> (copy: Self)
        ensures
            copy == *self,
    {
        Config {
            owner: self.owner.clone(),
            rich_line: self.rich_line,
            asset_denom: self.asset_denom.clone(),
            frequency: self.frequency,
            connection_id: self.connection_id.clone(),
        }
    }
}

/// What a stored configuration says, if one is stored.
pub open spec fn config_view(config: Option<Config>) -> Option<ConfigView> {
    match config {
        Some(config) => Some(config@),
        None => None,
    }
}

/// The text of a stored subject, if one is stored.
pub open spec fn subject_view(subject: Option<String>) -> Option<Seq<char>> {
    match subject {
        Some(subject) => Some(subject@),
        None => None,
    }
}

/// The state as mathematics: two cells and three maps.
#[verifier::ext_equal]
pub struct StateView {
    /// The configuration, once an instance has been created.
    pub config: Option<ConfigView>,
    /// The subject of the registration that was requested and is not
    /// confirmed yet.
    pub pending: Option<Seq<char>>,
    /// The subject behind each confirmed request identifier.
    pub objects: Map<u64, Seq<char>>,
    /// The last evaluation of each subject, by tier.
    pub tiers: Tiers,
}

/// A state after a call, with what the call resulted in.
#[verifier::ext_equal]
pub struct Step {
    pub state: StateView,
    pub result: Result<Option<RequestView>, ManagerError>,
}

impl StateView {
    /// The state before an instance is created.
    pub open spec fn empty() -> StateView {
        StateView {
            config: None,
            pending: None,
            objects: Map::empty(),
            tiers: Tiers::empty(),
        }
    }

    /// Each of the three maps has finitely many keys, and its ascending
    /// listing holds each of them exactly once and no other. This holds of
    /// the view of every [`State`].
    pub open spec fn listed(self) -> bool {
        &&& listed(self.objects, id_order())
        &&& listed(self.tiers.rich, subject_order())
        &&& listed(self.tiers.poor, subject_order())
    }

    /// The call was rejected with `e`: nothing changes.
    pub open spec fn rejected(self, e: ManagerError) -> Step {
        Step { state: self, result: Err(e) }
    }

    /// The call went through, leaving `state`, and sends nothing.
    pub open spec fn done(state: StateView) -> Step {
        Step { state, result: Ok(None) }
    }

    /// Bootstrap: the configuration is stored, with the sender as owner.
    pub open spec fn instantiate(self, sender: Seq<char>, msg: InstantiateMsg) -> Step {
        Self::done(
            StateView {
                config: Some(
                    ConfigView {
                        owner: sender,
                        rich_line: msg.rich_line,
                        asset_denom: msg.asset_denom@,
                        frequency: msg.frequency,
                        connection_id: msg.connection_id@,
                    },
                ),
                ..self
            },
        )
    }

    /// A watch is registered for `addr`, unless a registration is pending:
    /// at most one registration is in flight at a time, so a second one
    /// before the confirmation of the first is refused and changes nothing.
    /// Otherwise `addr` becomes the pending subject and one request goes out,
    /// carrying the connection, the asset and the frequency of the
    /// configuration.
    pub open spec fn keep_an_eye_on(self, addr: Seq<char>) -> Step {
        if self.pending is Some {
            self.rejected(ManagerError::ConcurrentRegistration)
        } else {
            match self.config {
                None => self.rejected(ManagerError::NotFound),
                Some(config) => Step {
                    state: StateView { pending: Some(addr), ..self },
                    result: Ok(
                        Some(
                            RequestView {
                                reply_id: REGISTER_BALANCES_ICQ_REPLY_ID,
                                connection_id: config.connection_id,
                                addr,
                                asset_denom: config.asset_denom,
                                update_period: config.frequency,
                            },
                        ),
                    ),
                },
            }
        }
    }

    /// A command from `sender`: only the owner's is carried out, and a
    /// registration only while none is pending.
    pub open spec fn execute(self, sender: Seq<char>, msg: ExecuteMsg) -> Step {
        match self.config {
            None => self.rejected(ManagerError::NotFound),
            Some(config) => if config.owner != sender {
                self.rejected(ManagerError::Unauthorized)
            } else {
                match msg {
                    ExecuteMsg::KeepAnEyeOn { addr } => self.keep_an_eye_on(addr@),
                }
            },
        }
    }

    /// The query subsystem confirmed a registration under `request_id`: the
    /// pending subject is bound to it and the pending cell is emptied.
    pub open spec fn confirm_registration(self, request_id: u64) -> Step {
        match self.pending {
            None => self.rejected(ManagerError::State),
            Some(subject) => match bind_spec(self.objects, request_id, subject).1 {
                Err(e) => self.rejected(e),
                Ok(_) => Self::done(
                    StateView {
                        pending: None,
                        objects: bind_spec(self.objects, request_id, subject).0,
                        ..self
                    },
                ),
            },
        }
    }

    /// The request identifier that a reply confirms, or why it confirms none.
    pub open spec fn confirmed_id(msg: Reply) -> Result<u64, ManagerError> {
        if msg.id != REGISTER_BALANCES_ICQ_REPLY_ID {
            Err(ManagerError::UnsupportedReply)
        } else {
            match msg.result {
                ReplyOutcome::Success { data: Some(payload) } => match registered_query_id(
                    payload@,
                ) {
                    Some(request_id) => Ok(request_id),
                    None => Err(ManagerError::ProtocolDecode),
                },
                _ => Err(ManagerError::ProtocolDecode),
            }
        }
    }

    /// A reply arrived: where it confirms a registration, the pending subject
    /// is bound.
    pub open spec fn reply(self, msg: Reply) -> Step {
        match Self::confirmed_id(msg) {
            Ok(request_id) => self.confirm_registration(request_id),
            Err(e) => self.rejected(e),
        }
    }

    /// A balance snapshot was delivered for `query_id` at `height`: the
    /// subject behind the query is written into the tier that the tracked
    /// amount puts it in. A snapshot that does not mention the tracked asset
    /// changes nothing.
    pub open spec fn sudo_kv_query_result(self, height: u64, query_id: u64, coins: Seq<Coin>) -> Step {
        if !self.objects.contains_key(query_id) {
            self.rejected(ManagerError::NotFound)
        } else {
            match self.config {
                None => self.rejected(ManagerError::NotFound),
                Some(config) => match evaluation_of(coins, config.asset_denom, config.rich_line) {
                    None => Self::done(self),
                    Some(tier) => Self::done(
                        StateView {
                            tiers: self.tiers.set_tier(self.objects[query_id], tier, height),
                            ..self
                        },
                    ),
                },
            }
        }
    }

    /// A callback from the chain: only the delivery of a key-value query
    /// result has an effect.
    pub open spec fn sudo(self, height: u64, msg: SudoMsg, coins: Seq<Coin>) -> Step {
        match msg {
            SudoMsg::KVQueryResult { query_id } => self.sudo_kv_query_result(height, query_id, coins),
            _ => Self::done(self),
        }
    }

    /// The answer to a query.
    pub open spec fn query(self, msg: QueryMsg) -> Result<Answer, ManagerError> {
        match msg {
            QueryMsg::Objects {  } => Ok(Answer::Objects(ascending_values(self.objects, id_order()))),
            QueryMsg::Rich {  } => Ok(
                Answer::Rich(ascending_entries(self.tiers.rich, subject_order())),
            ),
            QueryMsg::Poor {  } => Ok(
                Answer::Poor(ascending_entries(self.tiers.poor, subject_order())),
            ),
            QueryMsg::Config {  } => match self.config {
                Some(config) => Ok(Answer::Config(config)),
                None => Err(ManagerError::NotFound),
            },
        }
    }
}

/// The persisted state of one instance.
pub struct State {
    config: Option<Config>,
    pending: Option<String>,
    objects: ObjectRegistry,
    tiers: ClassificationStore,
}

impl View for State {
    type V = StateView;

    closed spec fn view(&self) -> StateView {
        StateView {
            config: config_view(self.config),
            pending: subject_view(self.pending),
            objects: self.objects@,
            tiers: self.tiers@,
        }
    }
}

impl State {
    /// The state before an instance is created: nothing is stored.
    pub fn new() -> (state: Self)
        ensures
            state@ == StateView::empty(),
    {
        State {
            config: None,
            pending: None,
            objects: ObjectRegistry::new(),
            tiers: ClassificationStore::new(),
        }
    }

    /// The state that holds the given cells and maps.
    pub fn from_parts(
        config: Option<Config>,
        pending: Option<String>,
        objects: ObjectRegistry,
        tiers: ClassificationStore,
    ) -> (state: Self)
        ensures
            state@ == (StateView {
                config: config_view(config),
                pending: subject_view(pending),
                objects: objects@,
                tiers: tiers@,
            }),
    {
        State { config, pending, objects, tiers }
    }

    /// The maps of a state are finite, and each has its ascending listing.
    pub proof fn lemma_listed(&self)
        ensures
            self@.listed(),
    {
        self.objects.lemma_listed();
        self.tiers.lemma_listed();
    }

    /// The stored configuration.
    pub fn config(&self) -> (config: Option<&Config>)
        ensures
            match config {
                Some(config) => self@.config == Some(config@),
                None => self@.config is None,
            },
    {
        self.config.as_ref()
    }

    /// The subject whose registration awaits confirmation.
    pub fn pending(&self) -> (subject: Option<&String>)
        ensures
            match subject {
                Some(subject) => self@.pending == Some(subject@),
                None => self@.pending is None,
            },
    {
        self.pending.as_ref()
    }

    /// The object registry.
    pub fn objects(&self) -> (objects: &ObjectRegistry)
        ensures
            objects@ == self@.objects,
    {
        &self.objects
    }

    /// The classification store.
    pub fn tiers(&self) -> (tiers: &ClassificationStore)
        ensures
            tiers@ == self@.tiers,
    {
        &self.tiers
    }

    pub(crate) fn save_config(&mut self, config: Config)
        ensures
            final(self)@ == (StateView { config: Some(config@), ..old(self)@ }),
    {
        self.config = Some(config);
    }

    pub(crate) fn save_pending(&mut self, subject: String)
        ensures
            final(self)@ == (StateView { pending: Some(subject@), ..old(self)@ }),
    {
        self.pending = Some(subject);
    }

    pub(crate) fn take_pending(&mut self) -> (subject: Option<String>)
        ensures
            subject_view(subject) == old(self)@.pending,
            final(self)@ == (StateView { pending: None, ..old(self)@ }),
    {
        self.pending.take()
    }

    pub(crate) fn objects_mut(&mut self) -> (objects: &mut ObjectRegistry)
        ensures
            objects@ == old(self)@.objects,
            final(self)@ == (StateView { objects: final(objects)@, ..old(self)@ }),
    {
        &mut self.objects
    }

    pub(crate) fn tiers_mut(&mut self) -> (tiers: &mut ClassificationStore)
        ensures
            tiers@ == old(self)@.tiers,
            final(self)@ == (StateView { tiers: final(tiers)@, ..old(self)@ }),
    {
        &mut self.tiers
    }
}

} // verus!
