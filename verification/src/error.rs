//! Error taxonomy of the agent core.
//!
//! A failure carries its classification, the root cause reported by whichever
//! collaborator failed, and an ordered list of context strings appended at
//! each propagation boundary (innermost first).

use vstd::prelude::*;
use vstd::string::StringExecFns;

verus! {

/// Classification of a failure of the agent core.
#[derive(Clone, Copy, Debug, PartialEq, Eq, Structural)]
pub enum ErrorKind {
    /// A wallet, DID or pairwise creation/storage operation failed.
    ResourceProvision,
    /// A uniqueness rule was violated: duplicate pairwise or duplicate route.
    StateConflict,
    /// A route lookup found no binding.
    NotFound,
    /// An unsupported or malformed protocol message was dispatched.
    Protocol,
    /// Envelope decryption/decoding or encoding failed.
    Crypto,
}

/// A failure of the agent core: a kind, a root cause, and the context
/// strings wrapped around the cause on its way out (innermost first).
#[derive(Debug)]
pub struct AgentError {
    pub kind: ErrorKind,
    pub cause: String,
    pub context: Vec<String>,
}

impl AgentError {
    /// A fresh error of the given kind with one context string.
    pub fn new(kind: ErrorKind, context: &str, cause: String) -> (r: AgentError)
        ensures
            r.kind == kind,
            r.cause == cause,
            r.context@.len() == 1,
            r.context@[0]@ == context@,
    {
        let mut ctx: Vec<String> = Vec::new();
        ctx.push(String::from_str(context));
        AgentError { kind, cause, context: ctx }
    }

    /// The same error with one more context string appended at a
    /// propagation boundary.
    pub fn wrap(self, context: &str) -> (r: AgentError)
        ensures
            r.kind == self.kind,
            r.cause == self.cause,
            r.context@.len() == self.context@.len() + 1,
            r.context@.last()@ == context@,
            forall|i: int| 0 <= i < self.context@.len() ==> r.context@[i] == self.context@[i],
    {
        let AgentError { kind, cause, context: mut trail } = self;
        trail.push(String::from_str(context));
        AgentError { kind, cause, context: trail }
    }
}

} // verus!
