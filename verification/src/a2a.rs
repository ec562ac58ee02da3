//! Agent-to-agent protocol messages: the closed set of wire messages the
//! agent core dispatches, together with their mathematical views.

use vstd::prelude::*;

verus! {

/// Proxy request: deliver `msg` untouched to the handler bound to `fwd`.
#[derive(Debug)]
pub struct Forward {
    pub fwd: String,
    pub msg: Vec<u8>,
}

/// Provisioning request: create a pairwise key for the counterpart `for_did`.
#[derive(Debug)]
pub struct CreateKey {
    pub for_did: String,
    pub for_did_verkey: String,
}

/// Provisioning reply: the freshly created pairwise identity.
#[derive(Debug)]
pub struct KeyCreated {
    pub with_pairwise_did: String,
    pub with_pairwise_did_verkey: String,
}

/// A protocol message; any tag outside this set is rejected at dispatch.
#[derive(Debug)]
pub enum A2AMessage {
    Forward(Forward),
    CreateKey(CreateKey),
    KeyCreated(KeyCreated),
}

/// Mathematical value of an [`A2AMessage`].
pub enum A2AMessageView {
    Forward { fwd: Seq<char>, msg: Seq<u8> },
    CreateKey { for_did: Seq<char>, for_did_verkey: Seq<char> },
    KeyCreated { with_pairwise_did: Seq<char>, with_pairwise_did_verkey: Seq<char> },
}

impl View for A2AMessage {
    type V = A2AMessageView;

    open spec fn view(&self) -> A2AMessageView {
        match self {
            A2AMessage::Forward(f) => A2AMessageView::Forward { fwd: f.fwd@, msg: f.msg@ },
            A2AMessage::CreateKey(c) => A2AMessageView::CreateKey {
                for_did: c.for_did@,
                for_did_verkey: c.for_did_verkey@,
            },
            A2AMessage::KeyCreated(k) => A2AMessageView::KeyCreated {
                with_pairwise_did: k.with_pairwise_did@,
                with_pairwise_did_verkey: k.with_pairwise_did_verkey@,
            },
        }
    }
}

/// The views of a sequence of messages, element-wise.
pub open spec fn views_of(msgs: Seq<A2AMessage>) -> Seq<A2AMessageView> {
    msgs.map_values(|m: A2AMessage| m@)
}

} // verus!
