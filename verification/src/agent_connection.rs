//! Per-relationship sub-identity spawned by an agent.
//!
//! The sub-identity's own protocol is outside the core; what is verified
//! here is its creation contract: the route for its pairwise DID is
//! registered with the shared router before creation succeeds.

use vstd::prelude::*;
use crate::config::ForwardAgentDetail;
use crate::error::{AgentError, ErrorKind};
use crate::router::Router;

verus! {

/// Everything a freshly provisioned sub-identity needs to run.
pub struct AgentConnectionConfig {
    pub wallet_handle: i32,
    pub owner_did: String,
    pub owner_verkey: String,
    pub agent_did: String,
    pub user_pairwise_did: String,
    pub user_pairwise_verkey: String,
    pub agent_pairwise_did: String,
    pub agent_pairwise_verkey: String,
    pub forward_agent_detail: ForwardAgentDetail,
}

/// A running per-relationship sub-identity.
pub struct AgentConnection {
    config: AgentConnectionConfig,
}

impl AgentConnection {
    /// The configuration this connection was created with.
    pub closed spec fn spec_config(&self) -> AgentConnectionConfig {
        self.config
    }

    /// The configuration this connection was created with.
    pub fn config(&self) -> (r: &AgentConnectionConfig)
        ensures
            r == self.spec_config(),
    {
        &self.config
    }

    /// Create the sub-identity: its pairwise DID is bound to `handler` in
    /// the shared router before success is reported. Fails with a state
    /// conflict, leaving the table untouched, exactly when that DID is
    /// already bound.
    pub fn create(config: AgentConnectionConfig, router: &mut Router, handler: u64) -> (r: Result<
        AgentConnection,
        AgentError,
    >)
        requires
            old(router).wf(),
        ensures
            final(router).wf(),
            match r {
                Ok(conn) => conn.spec_config() == config && !old(router)@.contains_key(
                    config.agent_pairwise_did@,
                ) && final(router)@ == old(router)@.insert(config.agent_pairwise_did@, handler),
                Err(e) => old(router)@.contains_key(config.agent_pairwise_did@) && final(router)@
                    == old(router)@ && e.kind == ErrorKind::StateConflict,
            },
    {
        let did = config.agent_pairwise_did.clone();
        match router.add_a2a_route(did, handler) {
            Ok(()) => Ok(AgentConnection { config }),
            Err(e) => Err(e),
        }
    }
}

} // verus!
