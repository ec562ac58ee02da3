//! The cloud agent: a wallet-backed identity that provisions itself,
//! dispatches inbound envelopes, and provisions per-relationship
//! sub-identities.
//!
//! Every workflow that awaits the wallet provider is a sequential state
//! machine. A non-terminal state names the one provider operation to
//! perform next and carries its arguments; the driver performs it and hands
//! the outcome — the provider's result, or its failure cause — to the
//! matching transition function. The transitions, and everything they do to
//! the shared router, are verified; the provider calls themselves happen
//! outside the core.

use vstd::prelude::*;
use vstd::string::StringExecFns;
use vstd::pervasive::unreached;
use crate::a2a::{A2AMessage, A2AMessageView, CreateKey, KeyCreated, views_of};
use crate::agent_connection::{AgentConnection, AgentConnectionConfig};
use crate::codec;
use crate::config::{ForwardAgentDetail, WalletStorageConfig};
use crate::error::{AgentError, ErrorKind};
use crate::rand_util;
use crate::router::Router;

verus! {

/// Durable projection of a provisioned agent: enough to locate its wallet
/// and restore it.
pub struct AgentConfig {
    pub did: String,
    pub owner_did: String,
    pub owner_verkey: String,
    pub wallet_id: String,
    pub wallet_passphrase: String,
    pub forward_agent_detail: ForwardAgentDetail,
}

/// A provisioned cloud agent: one wallet identity, entry point for
/// envelopes addressed to its DID. The shared router is handed to the
/// transitions that touch it.
pub struct Agent {
    wallet_handle: i32,
    owner_did: String,
    owner_verkey: String,
    did: String,
    verkey: String,
    forward_agent_detail: ForwardAgentDetail,
}

/// Field-wise equality of forward agent descriptors, by string value.
pub open spec fn fad_like(a: ForwardAgentDetail, b: ForwardAgentDetail) -> bool {
    a.did@ == b.did@ && a.verkey@ == b.verkey@ && a.endpoint@ == b.endpoint@
}

fn clone_fad(f: &ForwardAgentDetail) -> (r: ForwardAgentDetail)
    ensures
        fad_like(r, *f),
{
    ForwardAgentDetail { did: f.did.clone(), verkey: f.verkey.clone(), endpoint: f.endpoint.clone() }
}

/// The provisioning workflow. Each non-terminal state is the next provider
/// operation with its arguments; `Done` and `Failed` are terminal.
pub enum CreateState {
    /// Create a wallet named `wallet_id`, keyed by `wallet_passphrase`,
    /// under the given storage backend.
    CreatingWallet {
        owner_did: String,
        owner_verkey: String,
        wallet_id: String,
        wallet_passphrase: String,
        wallet_storage_config: WalletStorageConfig,
        forward_agent_detail: ForwardAgentDetail,
    },
    /// Open that wallet; the outcome carries the wallet handle.
    OpeningWallet {
        owner_did: String,
        owner_verkey: String,
        wallet_id: String,
        wallet_passphrase: String,
        wallet_storage_config: WalletStorageConfig,
        forward_agent_detail: ForwardAgentDetail,
    },
    /// Create the agent's DID and verkey inside the opened wallet.
    CreatingDid {
        wallet_handle: i32,
        owner_did: String,
        owner_verkey: String,
        wallet_id: String,
        wallet_passphrase: String,
        forward_agent_detail: ForwardAgentDetail,
    },
    /// Provisioning succeeded: the running agent, its route registered, and
    /// its durable configuration.
    Done { agent: Agent, config: AgentConfig },
    /// Provisioning failed; no route was registered by this workflow.
    Failed { error: AgentError },
}

impl Agent {
    pub closed spec fn spec_wallet_handle(&self) -> i32 {
        self.wallet_handle
    }

    pub closed spec fn spec_owner_did(&self) -> Seq<char> {
        self.owner_did@
    }

    pub closed spec fn spec_owner_verkey(&self) -> Seq<char> {
        self.owner_verkey@
    }

    pub closed spec fn spec_did(&self) -> Seq<char> {
        self.did@
    }

    pub closed spec fn spec_verkey(&self) -> Seq<char> {
        self.verkey@
    }

    pub closed spec fn spec_forward_agent_detail(&self) -> ForwardAgentDetail {
        self.forward_agent_detail
    }

    /// The handle of the wallet this agent owns.
    pub fn wallet_handle(&self) -> (r: i32)
        ensures
            r == self.spec_wallet_handle(),
    {
        self.wallet_handle
    }

    /// The agent's DID.
    pub fn did(&self) -> (r: &String)
        ensures
            r@ == self.spec_did(),
    {
        &self.did
    }

    /// The agent's verification key.
    pub fn verkey(&self) -> (r: &String)
        ensures
            r@ == self.spec_verkey(),
    {
        &self.verkey
    }

    /// Begin provisioning: draw a fresh wallet id and passphrase and ask
    /// the provider to create the wallet.
    pub fn create(
        owner_did: &str,
        owner_verkey: &str,
        wallet_storage_config: WalletStorageConfig,
        forward_agent_detail: ForwardAgentDetail,
    ) -> (r: CreateState)
        ensures
            r matches CreateState::CreatingWallet {
                owner_did: od,
                owner_verkey: ov,
                wallet_id,
                wallet_passphrase,
                wallet_storage_config: wsc,
                forward_agent_detail: fad,
            } && od@ == owner_did@ && ov@ == owner_verkey@ && wallet_id@.len() == 10
                && wallet_passphrase@.len() == 10 && wsc == wallet_storage_config && fad
                == forward_agent_detail,
    {
        let wallet_id = rand_util::rand_string(10);
        let wallet_passphrase = rand_util::rand_string(10);
        CreateState::CreatingWallet {
            owner_did: String::from_str(owner_did),
            owner_verkey: String::from_str(owner_verkey),
            wallet_id,
            wallet_passphrase,
            wallet_storage_config,
            forward_agent_detail,
        }
    }
}

impl CreateState {
    /// Outcome of wallet creation: go on to open the wallet, or stop,
    /// wrapping the provider's cause.
    pub fn on_wallet_created(self, outcome: Result<(), String>) -> (r: CreateState)
        requires
            self is CreatingWallet,
        ensures
            match self {
                CreateState::CreatingWallet {
                    owner_did,
                    owner_verkey,
                    wallet_id,
                    wallet_passphrase,
                    wallet_storage_config,
                    forward_agent_detail,
                } => match outcome {
                    Ok(()) => r == CreateState::OpeningWallet {
                        owner_did,
                        owner_verkey,
                        wallet_id,
                        wallet_passphrase,
                        wallet_storage_config,
                        forward_agent_detail,
                    },
                    Err(cause) => r matches CreateState::Failed { error } && error.kind
                        == ErrorKind::ResourceProvision && error.cause == cause
                        && error.context@.len() == 1 && error.context@[0]@
                        == "Can't create Agent wallet."@,
                },
                _ => false,
            },
    {
        match self {
            CreateState::CreatingWallet {
                owner_did,
                owner_verkey,
                wallet_id,
                wallet_passphrase,
                wallet_storage_config,
                forward_agent_detail,
            } => match outcome {
                Ok(()) => CreateState::OpeningWallet {
                    owner_did,
                    owner_verkey,
                    wallet_id,
                    wallet_passphrase,
                    wallet_storage_config,
                    forward_agent_detail,
                },
                Err(cause) => CreateState::Failed {
                    error: AgentError::new(
                        ErrorKind::ResourceProvision,
                        "Can't create Agent wallet.",
                        cause,
                    ),
                },
            },
            _ => unreached(),
        }
    }

    /// Outcome of opening the wallet: go on to create the agent DID with
    /// the opened handle, or stop.
    pub fn on_wallet_opened(self, outcome: Result<i32, String>) -> (r: CreateState)
        requires
            self is OpeningWallet,
        ensures
            match self {
                CreateState::OpeningWallet {
                    owner_did,
                    owner_verkey,
                    wallet_id,
                    wallet_passphrase,
                    wallet_storage_config,
                    forward_agent_detail,
                } => match outcome {
                    Ok(wallet_handle) => r == CreateState::CreatingDid {
                        wallet_handle,
                        owner_did,
                        owner_verkey,
                        wallet_id,
                        wallet_passphrase,
                        forward_agent_detail,
                    },
                    Err(cause) => r matches CreateState::Failed { error } && error.kind
                        == ErrorKind::ResourceProvision && error.cause == cause
                        && error.context@.len() == 1 && error.context@[0]@
                        == "Can't open Cloud Agent wallet."@,
                },
                _ => false,
            },
    {
        match self {
            CreateState::OpeningWallet {
                owner_did,
                owner_verkey,
                wallet_id,
                wallet_passphrase,
                wallet_storage_config,
                forward_agent_detail,
            } => match outcome {
                Ok(wallet_handle) => CreateState::CreatingDid {
                    wallet_handle,
                    owner_did,
                    owner_verkey,
                    wallet_id,
                    wallet_passphrase,
                    forward_agent_detail,
                },
                Err(cause) => CreateState::Failed {
                    error: AgentError::new(
                        ErrorKind::ResourceProvision,
                        "Can't open Cloud Agent wallet.",
                        cause,
                    ),
                },
            },
            _ => unreached(),
        }
    }

    /// Outcome of DID creation, the last provider step: instantiate the
    /// agent and register its route. On any failure the router is exactly
    /// as it was — a failed provisioning leaves no route behind.
    pub fn on_did_created(
        self,
        outcome: Result<(String, String), String>,
        router: &mut Router,
        handler: u64,
    ) -> (r: CreateState)
        requires
            self is CreatingDid,
            old(router).wf(),
        ensures
            final(router).wf(),
            !(r is Done) ==> final(router)@ == old(router)@,
            match self {
                CreateState::CreatingDid {
                    wallet_handle,
                    owner_did,
                    owner_verkey,
                    wallet_id,
                    wallet_passphrase,
                    forward_agent_detail,
                } => match outcome {
                    Ok((did, verkey)) => if old(router)@.contains_key(did@) {
                        r matches CreateState::Failed { error } && error.kind
                            == ErrorKind::StateConflict && error.context@.len() >= 1
                            && error.context@.last()@ == "Can't add route for Forward Agent"@
                    } else {
                        r matches CreateState::Done { agent, config } && final(router)@
                            == old(router)@.insert(did@, handler) && agent.spec_wallet_handle()
                            == wallet_handle && agent.spec_did() == did@ && agent.spec_verkey()
                            == verkey@ && agent.spec_owner_did() == owner_did@
                            && agent.spec_owner_verkey() == owner_verkey@ && fad_like(
                            agent.spec_forward_agent_detail(),
                            forward_agent_detail,
                        ) && config.did@ == did@ && config.owner_did@ == owner_did@
                            && config.owner_verkey@ == owner_verkey@ && config.wallet_id@
                            == wallet_id@ && config.wallet_passphrase@ == wallet_passphrase@
                            && fad_like(config.forward_agent_detail, forward_agent_detail)
                    },
                    Err(cause) => r matches CreateState::Failed { error } && error.kind
                        == ErrorKind::ResourceProvision && error.cause == cause
                        && error.context@.len() == 1 && error.context@[0]@
                        == "Can't get Cloud Agent did key"@,
                },
                _ => false,
            },
    {
        match self {
            CreateState::CreatingDid {
                wallet_handle,
                owner_did,
                owner_verkey,
                wallet_id,
                wallet_passphrase,
                forward_agent_detail,
            } => match outcome {
                Ok((did, verkey)) => {
                    let config = AgentConfig {
                        did: did.clone(),
                        owner_did: owner_did.clone(),
                        owner_verkey: owner_verkey.clone(),
                        wallet_id,
                        wallet_passphrase,
                        forward_agent_detail: clone_fad(&forward_agent_detail),
                    };
                    let agent = Agent {
                        wallet_handle,
                        owner_did,
                        owner_verkey,
                        did: did.clone(),
                        verkey,
                        forward_agent_detail,
                    };
                    match router.add_a2a_route(did, handler) {
                        Ok(()) => CreateState::Done { agent, config },
                        Err(e) => CreateState::Failed {
                            error: e.wrap("Can't add route for Forward Agent"),
                        },
                    }
                },
                Err(cause) => CreateState::Failed {
                    error: AgentError::new(
                        ErrorKind::ResourceProvision,
                        "Can't get Cloud Agent did key",
                        cause,
                    ),
                },
            },
            _ => unreached(),
        }
    }
}

/// The restore workflow: reopen the wallet of a previously provisioned
/// agent and register its route again.
pub enum RestoreState {
    /// Open the wallet the config names.
    OpeningWallet { config: AgentConfig, wallet_storage_config: WalletStorageConfig },
    /// Look up the verkey of the agent's DID in the reopened wallet.
    FetchingVerkey { wallet_handle: i32, config: AgentConfig },
    /// The agent is running again and its route is registered.
    Done { agent: Agent },
    /// Restoring failed; no route was registered by this workflow.
    Failed { error: AgentError },
}

impl Agent {
    /// Begin restoring an agent from its durable configuration.
    pub fn restore(config: AgentConfig, wallet_storage_config: WalletStorageConfig) -> (r: RestoreState)
        ensures
            r == (RestoreState::OpeningWallet { config, wallet_storage_config }),
    {
        RestoreState::OpeningWallet { config, wallet_storage_config }
    }
}

impl RestoreState {
    /// Outcome of reopening the wallet.
    pub fn on_wallet_opened(self, outcome: Result<i32, String>) -> (r: RestoreState)
        requires
            self is OpeningWallet,
        ensures
            match self {
                RestoreState::OpeningWallet { config, wallet_storage_config } => match outcome {
                    Ok(wallet_handle) => r == RestoreState::FetchingVerkey {
                        wallet_handle,
                        config,
                    },
                    Err(cause) => r matches RestoreState::Failed { error } && error.kind
                        == ErrorKind::ResourceProvision && error.cause == cause
                        && error.context@.len() == 1 && error.context@[0]@
                        == "Can't open Cloud Agent wallet."@,
                },
                _ => false,
            },
    {
        match self {
            RestoreState::OpeningWallet { config, wallet_storage_config } => match outcome {
                Ok(wallet_handle) => RestoreState::FetchingVerkey { wallet_handle, config },
                Err(cause) => RestoreState::Failed {
                    error: AgentError::new(
                        ErrorKind::ResourceProvision,
                        "Can't open Cloud Agent wallet.",
                        cause,
                    ),
                },
            },
            _ => unreached(),
        }
    }

    /// Outcome of the verkey lookup: bring the agent back up and register
    /// its route; a DID that is already bound is a conflict, never a silent
    /// duplicate, and leaves the router untouched.
    pub fn on_verkey_fetched(
        self,
        outcome: Result<String, String>,
        router: &mut Router,
        handler: u64,
    ) -> (r: RestoreState)
        requires
            self is FetchingVerkey,
            old(router).wf(),
        ensures
            final(router).wf(),
            !(r is Done) ==> final(router)@ == old(router)@,
            match self {
                RestoreState::FetchingVerkey { wallet_handle, config } => match outcome {
                    Ok(verkey) => if old(router)@.contains_key(config.did@) {
                        r matches RestoreState::Failed { error } && error.kind
                            == ErrorKind::StateConflict && error.context@.len() >= 1
                            && error.context@.last()@ == "Can't add route for Forward Agent"@
                    } else {
                        r matches RestoreState::Done { agent } && final(router)@
                            == old(router)@.insert(config.did@, handler) && agent.spec_wallet_handle()
                            == wallet_handle && agent.spec_did() == config.did@
                            && agent.spec_verkey() == verkey@ && agent.spec_owner_did()
                            == config.owner_did@ && agent.spec_owner_verkey()
                            == config.owner_verkey@ && fad_like(
                            agent.spec_forward_agent_detail(),
                            config.forward_agent_detail,
                        )
                    },
                    Err(cause) => r matches RestoreState::Failed { error } && error.kind
                        == ErrorKind::ResourceProvision && error.cause == cause
                        && error.context@.len() == 1 && error.context@[0]@
                        == "Can't get Cloud Agent verkey."@,
                },
                _ => false,
            },
    {
        match self {
            RestoreState::FetchingVerkey { wallet_handle, config } => match outcome {
                Ok(verkey) => {
                    let agent = Agent {
                        wallet_handle,
                        owner_did: config.owner_did,
                        owner_verkey: config.owner_verkey,
                        did: config.did.clone(),
                        verkey,
                        forward_agent_detail: config.forward_agent_detail,
                    };
                    match router.add_a2a_route(config.did, handler) {
                        Ok(()) => RestoreState::Done { agent },
                        Err(e) => RestoreState::Failed {
                            error: e.wrap("Can't add route for Forward Agent"),
                        },
                    }
                },
                Err(cause) => RestoreState::Failed {
                    error: AgentError::new(
                        ErrorKind::ResourceProvision,
                        "Can't get Cloud Agent verkey.",
                        cause,
                    ),
                },
            },
            _ => unreached(),
        }
    }
}

/// The relationship-provisioning workflow run for a `CreateKey` request.
/// Each non-terminal state is the next provider operation with its
/// arguments; `Done` and `Failed` are terminal.
pub enum CreateKeyState {
    /// Ask the provider whether a pairwise record for `for_did` exists in
    /// the agent's wallet.
    CheckingPairwise { for_did: String, for_did_verkey: String },
    /// Store `for_did` and its verkey as a known counterpart.
    StoringTheirDid { for_did: String, for_did_verkey: String },
    /// Create a fresh local DID and verkey dedicated to this relationship.
    CreatingPairwiseDid { for_did: String, for_did_verkey: String },
    /// Link `for_did` to the fresh `pairwise_did` in the wallet.
    CreatingPairwise {
        for_did: String,
        for_did_verkey: String,
        pairwise_did: String,
        pairwise_did_verkey: String,
    },
    /// Provisioning succeeded: the reply messages and the running
    /// sub-identity, its route registered.
    Done { messages: Vec<A2AMessage>, connection: AgentConnection },
    /// Provisioning failed; no route was registered by this workflow.
    Failed { error: AgentError },
}

/// The pairwise-existence check: only a report that no record exists lets
/// the workflow go on; an existing record is a state conflict, before any
/// mutation.
pub fn check_no_pairwise_exists(outcome: Result<bool, String>) -> (r: Result<(), AgentError>)
    ensures
        match outcome {
            Ok(exists) => if exists {
                r matches Err(e) && e.kind == ErrorKind::StateConflict && e.context@.len() == 1
                    && e.context@[0]@ == "Agent pairwise connection already exists."@
            } else {
                r is Ok
            },
            Err(cause) => r matches Err(e) && e.kind == ErrorKind::ResourceProvision && e.cause
                == cause && e.context@.len() == 1 && e.context@[0]@
                == "Can't check if agent pairwise connection exists."@,
        },
{
    match outcome {
        Ok(true) => Err(
            AgentError::new(
                ErrorKind::StateConflict,
                "Agent pairwise connection already exists.",
                String::new(),
            ),
        ),
        Ok(false) => Ok(()),
        Err(cause) => Err(
            AgentError::new(
                ErrorKind::ResourceProvision,
                "Can't check if agent pairwise connection exists.",
                cause,
            ),
        ),
    }
}

impl Agent {
    /// Begin the relationship-provisioning workflow: first ask the provider
    /// whether a pairwise record already exists for the requested DID.
    pub fn handle_create_key(&self, msg: CreateKey) -> (r: CreateKeyState)
        ensures
            r == (CreateKeyState::CheckingPairwise {
                for_did: msg.for_did,
                for_did_verkey: msg.for_did_verkey,
            }),
    {
        let CreateKey { for_did, for_did_verkey } = msg;
        CreateKeyState::CheckingPairwise { for_did, for_did_verkey }
    }
}

impl CreateKeyState {
    /// Outcome of the pairwise-existence check: an existing record stops
    /// the workflow before any mutation; otherwise store the counterpart.
    pub fn on_pairwise_checked(self, outcome: Result<bool, String>) -> (r: CreateKeyState)
        requires
            self is CheckingPairwise,
        ensures
            match self {
                CreateKeyState::CheckingPairwise { for_did, for_did_verkey } => match outcome {
                    Ok(exists) => if exists {
                        r matches CreateKeyState::Failed { error } && error.kind
                            == ErrorKind::StateConflict && error.context@.len() == 1
                            && error.context@[0]@ == "Agent pairwise connection already exists."@
                    } else {
                        r == (CreateKeyState::StoringTheirDid { for_did, for_did_verkey })
                    },
                    Err(cause) => r matches CreateKeyState::Failed { error } && error.kind
                        == ErrorKind::ResourceProvision && error.cause == cause
                        && error.context@.len() == 1 && error.context@[0]@
                        == "Can't check if agent pairwise connection exists."@,
                },
                _ => false,
            },
    {
        match self {
            CreateKeyState::CheckingPairwise { for_did, for_did_verkey } => match
                check_no_pairwise_exists(outcome) {
                Ok(()) => CreateKeyState::StoringTheirDid { for_did, for_did_verkey },
                Err(error) => CreateKeyState::Failed { error },
            },
            _ => unreached(),
        }
    }

    /// Outcome of storing the counterpart record: go on to create the
    /// dedicated pairwise DID, or stop.
    pub fn on_their_did_stored(self, outcome: Result<(), String>) -> (r: CreateKeyState)
        requires
            self is StoringTheirDid,
        ensures
            match self {
                CreateKeyState::StoringTheirDid { for_did, for_did_verkey } => match outcome {
                    Ok(()) => r == (CreateKeyState::CreatingPairwiseDid {
                        for_did,
                        for_did_verkey,
                    }),
                    Err(cause) => r matches CreateKeyState::Failed { error } && error.kind
                        == ErrorKind::ResourceProvision && error.cause == cause
                        && error.context@.len() == 1 && error.context@[0]@
                        == "Can't store their DID for Forward Agent Connection pairwise."@,
                },
                _ => false,
            },
    {
        match self {
            CreateKeyState::StoringTheirDid { for_did, for_did_verkey } => match outcome {
                Ok(()) => CreateKeyState::CreatingPairwiseDid { for_did, for_did_verkey },
                Err(cause) => CreateKeyState::Failed {
                    error: AgentError::new(
                        ErrorKind::ResourceProvision,
                        "Can't store their DID for Forward Agent Connection pairwise.",
                        cause,
                    ),
                },
            },
            _ => unreached(),
        }
    }

    /// Outcome of creating the dedicated DID: go on to link the pairwise
    /// records, or stop.
    pub fn on_pairwise_did_created(self, outcome: Result<(String, String), String>) -> (r:
        CreateKeyState)
        requires
            self is CreatingPairwiseDid,
        ensures
            match self {
                CreateKeyState::CreatingPairwiseDid { for_did, for_did_verkey } => match outcome {
                    Ok((pairwise_did, pairwise_did_verkey)) => r == (
                    CreateKeyState::CreatingPairwise {
                        for_did,
                        for_did_verkey,
                        pairwise_did,
                        pairwise_did_verkey,
                    }),
                    Err(cause) => r matches CreateKeyState::Failed { error } && error.kind
                        == ErrorKind::ResourceProvision && error.cause == cause
                        && error.context@.len() == 1 && error.context@[0]@
                        == "Can't create DID for agent pairwise connection."@,
                },
                _ => false,
            },
    {
        match self {
            CreateKeyState::CreatingPairwiseDid { for_did, for_did_verkey } => match outcome {
                Ok((pairwise_did, pairwise_did_verkey)) => CreateKeyState::CreatingPairwise {
                    for_did,
                    for_did_verkey,
                    pairwise_did,
                    pairwise_did_verkey,
                },
                Err(cause) => CreateKeyState::Failed {
                    error: AgentError::new(
                        ErrorKind::ResourceProvision,
                        "Can't create DID for agent pairwise connection.",
                        cause,
                    ),
                },
            },
            _ => unreached(),
        }
    }
}

impl Agent {
    /// Outcome of linking the pairwise records, the last provider step:
    /// spawn the sub-identity, whose pairwise route is registered before
    /// success, and assemble the `KeyCreated` reply. On any failure the
    /// router is exactly as it was.
    pub fn on_pairwise_created(
        &self,
        st: CreateKeyState,
        outcome: Result<(), String>,
        router: &mut Router,
        handler: u64,
    ) -> (r: CreateKeyState)
        requires
            st is CreatingPairwise,
            old(router).wf(),
        ensures
            final(router).wf(),
            !(r is Done) ==> final(router)@ == old(router)@,
            match st {
                CreateKeyState::CreatingPairwise {
                    for_did,
                    for_did_verkey,
                    pairwise_did,
                    pairwise_did_verkey,
                } => match outcome {
                    Ok(()) => if old(router)@.contains_key(pairwise_did@) {
                        r matches CreateKeyState::Failed { error } && error.kind
                            == ErrorKind::StateConflict
                    } else {
                        r matches CreateKeyState::Done { messages, connection } && final(router)@
                            == old(router)@.insert(pairwise_did@, handler) && messages@.len() == 1
                            && messages@[0]@ == (A2AMessageView::KeyCreated {
                            with_pairwise_did: pairwise_did@,
                            with_pairwise_did_verkey: pairwise_did_verkey@,
                        }) && connection.spec_config().wallet_handle == self.spec_wallet_handle()
                            && connection.spec_config().owner_did@ == self.spec_owner_did()
                            && connection.spec_config().owner_verkey@ == self.spec_owner_verkey()
                            && connection.spec_config().agent_did@ == self.spec_did()
                            && connection.spec_config().user_pairwise_did@ == for_did@
                            && connection.spec_config().user_pairwise_verkey@ == for_did_verkey@
                            && connection.spec_config().agent_pairwise_did@ == pairwise_did@
                            && connection.spec_config().agent_pairwise_verkey@
                            == pairwise_did_verkey@ && fad_like(
                            connection.spec_config().forward_agent_detail,
                            self.spec_forward_agent_detail(),
                        )
                    },
                    Err(cause) => r matches CreateKeyState::Failed { error } && error.kind
                        == ErrorKind::ResourceProvision && error.cause == cause
                        && error.context@.len() == 1 && error.context@[0]@
                        == "Can't store agent pairwise connection."@,
                },
                _ => false,
            },
    {
        match st {
            CreateKeyState::CreatingPairwise {
                for_did,
                for_did_verkey,
                pairwise_did,
                pairwise_did_verkey,
            } => match outcome {
                Ok(()) => {
                    let config = AgentConnectionConfig {
                        wallet_handle: self.wallet_handle,
                        owner_did: self.owner_did.clone(),
                        owner_verkey: self.owner_verkey.clone(),
                        agent_did: self.did.clone(),
                        user_pairwise_did: for_did,
                        user_pairwise_verkey: for_did_verkey,
                        agent_pairwise_did: pairwise_did.clone(),
                        agent_pairwise_verkey: pairwise_did_verkey.clone(),
                        forward_agent_detail: clone_fad(&self.forward_agent_detail),
                    };
                    match AgentConnection::create(config, router, handler) {
                        Ok(connection) => {
                            let mut messages: Vec<A2AMessage> = Vec::new();
                            messages.push(
                                A2AMessage::KeyCreated(
                                    KeyCreated {
                                        with_pairwise_did: pairwise_did,
                                        with_pairwise_did_verkey: pairwise_did_verkey,
                                    },
                                ),
                            );
                            CreateKeyState::Done { messages, connection }
                        },
                        Err(error) => CreateKeyState::Failed { error },
                    }
                },
                Err(cause) => CreateKeyState::Failed {
                    error: AgentError::new(
                        ErrorKind::ResourceProvision,
                        "Can't store agent pairwise connection.",
                        cause,
                    ),
                },
            },
            _ => unreached(),
        }
    }
}

/// One envelope being handled, after decoding. `Routing` waits for the
/// routed handler's reply; `CreatingKey` waits for the provisioning
/// workflow, whose `Done` messages are then encoded with
/// [`Agent::reply_authenticated`]; `Replied` and `Failed` are terminal.
pub enum HandleState {
    /// Deliver `msg`, untouched, to the handler bound to `fwd`; the
    /// handler's reply is the envelope's reply, byte for byte.
    Routing { fwd: String, msg: Vec<u8> },
    /// Run the relationship-provisioning workflow, then reply to
    /// `sender_verkey`.
    CreatingKey { sender_verkey: String, flow: CreateKeyState },
    /// The reply bytes to hand back to the envelope's sender.
    Replied { reply: Vec<u8> },
    /// Handling failed.
    Failed { error: AgentError },
}

impl Agent {
    /// Entry point for one inbound envelope: decode it and dispatch the
    /// last message it carries. A `Forward` is passed on byte-transparently
    /// — no re-encoding at this hop; a `CreateKey` starts the provisioning
    /// workflow; anything else is unsupported.
    pub fn handle_a2a_msg(&self, msg: &Vec<u8>) -> (r: HandleState)
        ensures
            match codec::dec_bundle(msg@) {
                Option::Some((sender_vk, ms)) => if ms.len() == 0 {
                    r matches HandleState::Failed { error } && error.kind == ErrorKind::Protocol
                        && error.context@.len() == 1 && error.context@[0]@
                        == "Unsupported message"@
                } else {
                    match ms.last() {
                        A2AMessageView::Forward { fwd, msg: inner } => r matches
                            HandleState::Routing { fwd: f, msg: m } && f@ == fwd && m@ == inner,
                        A2AMessageView::CreateKey { for_did, for_did_verkey } => r matches
                            HandleState::CreatingKey { sender_verkey, flow } && sender_verkey@
                            == sender_vk && (flow matches CreateKeyState::CheckingPairwise {
                            for_did: fd,
                            for_did_verkey: fv,
                        } && fd@ == for_did && fv@ == for_did_verkey),
                        A2AMessageView::KeyCreated { .. } => r matches HandleState::Failed { error }
                            && error.kind == ErrorKind::Protocol && error.context@.len() == 1
                            && error.context@[0]@ == "Unsupported message"@,
                    }
                },
                Option::None => r matches HandleState::Failed { error } && error.kind
                    == ErrorKind::Crypto && error.context@.len() >= 1 && error.context@.last()@
                    == "Can't unbundle message."@,
            },
    {
        let (sender_vk, mut msgs) = match codec::unbundle_authenticated(msg) {
            Ok(v) => v,
            Err(e) => {
                return HandleState::Failed { error: e.wrap("Can't unbundle message.") };
            },
        };
        let ghost msgs0 = msgs@;
        proof {
            assert(views_of(msgs0).len() == msgs0.len());
        }
        match msgs.pop() {
            Some(A2AMessage::Forward(fwd_msg)) => {
                proof {
                    assert(views_of(msgs0).last() == msgs0.last()@);
                }
                HandleState::Routing { fwd: fwd_msg.fwd, msg: fwd_msg.msg }
            },
            Some(other) => {
                proof {
                    assert(views_of(msgs0).last() == msgs0.last()@);
                }
                self.handle_agent_msg(sender_vk, other)
            },
            None => HandleState::Failed {
                error: AgentError::new(ErrorKind::Protocol, "Unsupported message", String::new()),
            },
        }
    }

    /// Dispatch one non-`Forward` protocol message: only `CreateKey` has a
    /// handler in this core; any other tag is unsupported.
    pub fn handle_agent_msg(&self, sender_vk: String, msg: A2AMessage) -> (r: HandleState)
        ensures
            match msg {
                A2AMessage::CreateKey(c) => r matches HandleState::CreatingKey {
                    sender_verkey,
                    flow,
                } && sender_verkey == sender_vk && flow == (CreateKeyState::CheckingPairwise {
                    for_did: c.for_did,
                    for_did_verkey: c.for_did_verkey,
                }),
                _ => r matches HandleState::Failed { error } && error.kind == ErrorKind::Protocol
                    && error.context@.len() == 1 && error.context@[0]@ == "Unsupported message"@,
            },
    {
        match msg {
            A2AMessage::CreateKey(c) => HandleState::CreatingKey {
                sender_verkey: sender_vk,
                flow: self.handle_create_key(c),
            },
            _ => HandleState::Failed {
                error: AgentError::new(ErrorKind::Protocol, "Unsupported message", String::new()),
            },
        }
    }

    /// The routed handler's reply, or its failure, for an envelope in
    /// `Routing`: both are handed back to the envelope's sender verbatim —
    /// the reply byte for byte, the failure cause unwrapped.
    pub fn on_routed(&self, st: HandleState, outcome: Result<Vec<u8>, AgentError>) -> (r:
        HandleState)
        requires
            st is Routing,
        ensures
            match outcome {
                Ok(reply) => r == (HandleState::Replied { reply }),
                Err(error) => r == (HandleState::Failed { error }),
            },
    {
        match outcome {
            Ok(reply) => HandleState::Replied { reply },
            Err(error) => HandleState::Failed { error },
        }
    }

    /// Encode the handled messages as the envelope's reply, authenticated
    /// as this agent.
    pub fn reply_authenticated(&self, messages: &Vec<A2AMessage>) -> (r: Vec<u8>)
        requires
            codec::bundle_fits(self.spec_verkey(), views_of(messages@)),
        ensures
            r@ == codec::enc_bundle(self.spec_verkey(), views_of(messages@)),
    {
        codec::bundle_authenticated(&self.verkey, messages)
    }
}

} // verus!
