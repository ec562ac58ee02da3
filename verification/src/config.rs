//! Plain configuration values handed to the agent workflows.

use vstd::prelude::*;

verus! {

/// Where the wallet provider keeps a wallet: a storage backend name plus its
/// backend-specific configuration and credentials, both carried as opaque
/// JSON text for the provider.
pub struct WalletStorageConfig {
    pub xtype: Option<String>,
    pub config: Option<String>,
    pub credentials: Option<String>,
}

/// Identity of the upstream forward agent that delegates envelopes down to
/// this agent; opaque to the core, threaded through to sub-identities.
pub struct ForwardAgentDetail {
    pub did: String,
    pub verkey: String,
    pub endpoint: String,
}

} // verus!
