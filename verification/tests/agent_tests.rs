use cloud_agent::a2a::{A2AMessage, CreateKey, Forward, KeyCreated};
use cloud_agent::agent::{Agent, AgentConfig, CreateKeyState, CreateState, HandleState, RestoreState};
use cloud_agent::codec::{bundle_authenticated, unbundle_authenticated};
use cloud_agent::config::{ForwardAgentDetail, WalletStorageConfig};
use cloud_agent::error::ErrorKind;
use cloud_agent::rand_util::rand_string;
use cloud_agent::router::Router;

fn fad() -> ForwardAgentDetail {
    ForwardAgentDetail {
        did: "did:fwd:agent".to_string(),
        verkey: "VkFwd".to_string(),
        endpoint: "http://localhost:8080".to_string(),
    }
}

fn storage() -> WalletStorageConfig {
    WalletStorageConfig {
        xtype: Some("default".to_string()),
        config: Some("{}".to_string()),
        credentials: Some("{}".to_string()),
    }
}

/// Drive the provisioning workflow to completion with successful provider
/// outcomes, binding the agent's DID to `handler`.
fn provision_agent(router: &mut Router, handler: u64, did: &str, verkey: &str) -> (Agent, AgentConfig) {
    let st = Agent::create("did:owner:1", "Vk1", storage(), fad());
    let st = st.on_wallet_created(Ok(()));
    let st = st.on_wallet_opened(Ok(7));
    let st = st.on_did_created(Ok((did.to_string(), verkey.to_string())), router, handler);
    match st {
        CreateState::Done { agent, config } => (agent, config),
        _ => panic!("provisioning should have succeeded"),
    }
}

#[test]
fn bundle_round_trip() {
    let msgs = vec![
        A2AMessage::Forward(Forward { fwd: "did:user:9".to_string(), msg: vec![0, 1, 2, 255] }),
        A2AMessage::CreateKey(CreateKey {
            for_did: "did:user:1".to_string(),
            for_did_verkey: "Vk2".to_string(),
        }),
        A2AMessage::KeyCreated(KeyCreated {
            with_pairwise_did: "P".to_string(),
            with_pairwise_did_verkey: "Vp".to_string(),
        }),
    ];
    let bytes = bundle_authenticated(&"SenderVk".to_string(), &msgs);
    let (sender, decoded) = unbundle_authenticated(&bytes).expect("round trip must succeed");
    assert_eq!(sender, "SenderVk");
    assert_eq!(decoded.len(), 3);
    match &decoded[0] {
        A2AMessage::Forward(f) => {
            assert_eq!(f.fwd, "did:user:9");
            assert_eq!(f.msg, vec![0, 1, 2, 255]);
        }
        _ => panic!("first message should be a Forward"),
    }
    match &decoded[1] {
        A2AMessage::CreateKey(c) => {
            assert_eq!(c.for_did, "did:user:1");
            assert_eq!(c.for_did_verkey, "Vk2");
        }
        _ => panic!("second message should be a CreateKey"),
    }
    match &decoded[2] {
        A2AMessage::KeyCreated(k) => {
            assert_eq!(k.with_pairwise_did, "P");
            assert_eq!(k.with_pairwise_did_verkey, "Vp");
        }
        _ => panic!("third message should be a KeyCreated"),
    }
}

#[test]
fn bundle_round_trip_unicode() {
    let msgs = vec![A2AMessage::CreateKey(CreateKey {
        for_did: "did:λ:🔑".to_string(),
        for_did_verkey: "Ключ".to_string(),
    })];
    let bytes = bundle_authenticated(&"é".to_string(), &msgs);
    let (sender, decoded) = unbundle_authenticated(&bytes).expect("round trip must succeed");
    assert_eq!(sender, "é");
    match &decoded[0] {
        A2AMessage::CreateKey(c) => {
            assert_eq!(c.for_did, "did:λ:🔑");
            assert_eq!(c.for_did_verkey, "Ключ");
        }
        _ => panic!("should be a CreateKey"),
    }
}

#[test]
fn bundle_exact_bytes_of_empty_bundle() {
    // "A" is one character, code point 65; zero messages follow.
    let bytes = bundle_authenticated(&"A".to_string(), &Vec::new());
    assert_eq!(bytes, vec![1, 0, 0, 0, 65, 0, 0, 0, 0, 0, 0, 0]);
}

#[test]
fn unbundle_rejects_garbage() {
    let e = unbundle_authenticated(&vec![9, 9, 9]).unwrap_err();
    assert_eq!(e.kind, ErrorKind::Crypto);
    // Trailing bytes after a well-formed bundle are rejected too.
    let mut bytes = bundle_authenticated(&"A".to_string(), &Vec::new());
    bytes.push(0);
    let e = unbundle_authenticated(&bytes).unwrap_err();
    assert_eq!(e.kind, ErrorKind::Crypto);
}

#[test]
fn router_route_on_unbound_did_fails_not_found() {
    let router = Router::new();
    let e = router.route_a2a_msg(&"did:nobody".to_string(), vec![1, 2, 3]).unwrap_err();
    assert_eq!(e.kind, ErrorKind::NotFound);
}

#[test]
fn router_routes_bytes_unchanged() {
    let mut router = Router::new();
    router.add_a2a_route("did:a".to_string(), 11).expect("first binding must succeed");
    let (handler, bytes) = router.route_a2a_msg(&"did:a".to_string(), vec![4, 5, 6]).unwrap();
    assert_eq!(handler, 11);
    assert_eq!(bytes, vec![4, 5, 6]);
}

#[test]
fn router_rejects_duplicate_binding() {
    let mut router = Router::new();
    router.add_a2a_route("did:a".to_string(), 11).expect("first binding must succeed");
    let e = router.add_a2a_route("did:a".to_string(), 12).unwrap_err();
    assert_eq!(e.kind, ErrorKind::StateConflict);
    // The earlier binding survives.
    let (handler, _) = router.route_a2a_msg(&"did:a".to_string(), Vec::new()).unwrap();
    assert_eq!(handler, 11);
}

#[test]
fn create_provisions_agent_and_route() {
    let mut router = Router::new();
    let (agent, config) = provision_agent(&mut router, 1, "D", "VkD");
    assert_eq!(config.did, "D");
    assert_eq!(config.owner_did, "did:owner:1");
    assert_eq!(config.owner_verkey, "Vk1");
    assert_eq!(config.wallet_id.len(), 10);
    assert_eq!(config.wallet_passphrase.len(), 10);
    assert_eq!(config.forward_agent_detail.did, "did:fwd:agent");
    assert_eq!(agent.did().as_str(), "D");
    assert_eq!(agent.verkey().as_str(), "VkD");
    let (handler, _) = router.route_a2a_msg(&"D".to_string(), Vec::new()).unwrap();
    assert_eq!(handler, 1);
}

#[test]
fn create_failure_leaves_no_route() {
    let mut router = Router::new();

    let st = Agent::create("did:owner:1", "Vk1", storage(), fad());
    match st.on_wallet_created(Err("disk full".to_string())) {
        CreateState::Failed { error } => {
            assert_eq!(error.kind, ErrorKind::ResourceProvision);
            assert_eq!(error.cause, "disk full");
            assert_eq!(error.context, vec!["Can't create Agent wallet.".to_string()]);
        }
        _ => panic!("wallet-create failure must stop provisioning"),
    }

    let st = Agent::create("did:owner:1", "Vk1", storage(), fad());
    match st.on_wallet_created(Ok(())).on_wallet_opened(Err("bad key".to_string())) {
        CreateState::Failed { error } => {
            assert_eq!(error.kind, ErrorKind::ResourceProvision);
            assert_eq!(error.context, vec!["Can't open Cloud Agent wallet.".to_string()]);
        }
        _ => panic!("wallet-open failure must stop provisioning"),
    }

    let st = Agent::create("did:owner:1", "Vk1", storage(), fad());
    let st = st.on_wallet_created(Ok(())).on_wallet_opened(Ok(7));
    match st.on_did_created(Err("no entropy".to_string()), &mut router, 1) {
        CreateState::Failed { error } => {
            assert_eq!(error.kind, ErrorKind::ResourceProvision);
            assert_eq!(error.context, vec!["Can't get Cloud Agent did key".to_string()]);
        }
        _ => panic!("did-create failure must stop provisioning"),
    }

    // No failure path registered a route for the candidate DID.
    let e = router.route_a2a_msg(&"D".to_string(), Vec::new()).unwrap_err();
    assert_eq!(e.kind, ErrorKind::NotFound);
}

#[test]
fn create_fails_on_route_conflict() {
    let mut router = Router::new();
    router.add_a2a_route("D".to_string(), 99).unwrap();
    let st = Agent::create("did:owner:1", "Vk1", storage(), fad());
    let st = st.on_wallet_created(Ok(())).on_wallet_opened(Ok(7));
    match st.on_did_created(Ok(("D".to_string(), "VkD".to_string())), &mut router, 1) {
        CreateState::Failed { error } => {
            assert_eq!(error.kind, ErrorKind::StateConflict);
            assert_eq!(
                error.context.last().unwrap().as_str(),
                "Can't add route for Forward Agent"
            );
        }
        _ => panic!("a bound DID must be a conflict"),
    }
    // The earlier binding is untouched.
    let (handler, _) = router.route_a2a_msg(&"D".to_string(), Vec::new()).unwrap();
    assert_eq!(handler, 99);
}

fn create_key_envelope() -> Vec<u8> {
    let msgs = vec![A2AMessage::CreateKey(CreateKey {
        for_did: "did:user:1".to_string(),
        for_did_verkey: "Vk2".to_string(),
    })];
    bundle_authenticated(&"Vk2".to_string(), &msgs)
}

/// Drive a `CreateKey` envelope through the agent with successful provider
/// outcomes; returns the reply bytes.
fn run_create_key(agent: &Agent, router: &mut Router, handler: u64, envelope: &Vec<u8>) -> Result<Vec<u8>, ErrorKind> {
    let flow = match agent.handle_a2a_msg(envelope) {
        HandleState::CreatingKey { sender_verkey, flow } => {
            assert_eq!(sender_verkey, "Vk2");
            flow
        }
        _ => panic!("a CreateKey envelope must start the provisioning flow"),
    };
    let flow = flow.on_pairwise_checked(Ok(false));
    let flow = flow.on_their_did_stored(Ok(()));
    let flow = flow.on_pairwise_did_created(Ok(("P".to_string(), "Vp".to_string())));
    match agent.on_pairwise_created(flow, Ok(()), router, handler) {
        CreateKeyState::Done { messages, connection } => {
            assert_eq!(connection.config().user_pairwise_did, "did:user:1");
            assert_eq!(connection.config().agent_pairwise_did, "P");
            Ok(agent.reply_authenticated(&messages))
        }
        CreateKeyState::Failed { error } => Err(error.kind),
        _ => panic!("the flow must be terminal after the last step"),
    }
}

#[test]
fn create_key_provisions_relationship() {
    let mut router = Router::new();
    let (agent, _) = provision_agent(&mut router, 1, "D", "VkD");
    let envelope = create_key_envelope();
    let reply = run_create_key(&agent, &mut router, 2, &envelope).expect("flow must succeed");

    // The reply is authenticated as the agent and carries the new identity.
    let (sender, msgs) = unbundle_authenticated(&reply).unwrap();
    assert_eq!(sender, "VkD");
    assert_eq!(msgs.len(), 1);
    match &msgs[0] {
        A2AMessage::KeyCreated(k) => {
            assert_eq!(k.with_pairwise_did, "P");
            assert_eq!(k.with_pairwise_did_verkey, "Vp");
        }
        _ => panic!("the reply must be a KeyCreated"),
    }

    // The router now also maps the pairwise DID to the new sub-identity.
    let (handler, _) = router.route_a2a_msg(&"P".to_string(), Vec::new()).unwrap();
    assert_eq!(handler, 2);
}

#[test]
fn create_key_repeat_conflicts_and_keeps_single_route() {
    let mut router = Router::new();
    let (agent, _) = provision_agent(&mut router, 1, "D", "VkD");
    let envelope = create_key_envelope();
    run_create_key(&agent, &mut router, 2, &envelope).expect("first flow must succeed");

    // The wallet now holds the pairwise record, so the existence check
    // reports it and the second flow stops before any mutation.
    let flow = match agent.handle_a2a_msg(&envelope) {
        HandleState::CreatingKey { flow, .. } => flow,
        _ => panic!("a CreateKey envelope must start the provisioning flow"),
    };
    match flow.on_pairwise_checked(Ok(true)) {
        CreateKeyState::Failed { error } => {
            assert_eq!(error.kind, ErrorKind::StateConflict);
            assert_eq!(
                error.context,
                vec!["Agent pairwise connection already exists.".to_string()]
            );
        }
        _ => panic!("a repeated CreateKey must be a conflict"),
    }

    // Exactly the first run's binding exists for the relationship.
    let (handler, _) = router.route_a2a_msg(&"P".to_string(), Vec::new()).unwrap();
    assert_eq!(handler, 2);
}

#[test]
fn create_key_provider_failures_stop_the_flow() {
    let mut router = Router::new();
    let (agent, _) = provision_agent(&mut router, 1, "D", "VkD");

    let flow = agent.handle_create_key(CreateKey {
        for_did: "did:user:1".to_string(),
        for_did_verkey: "Vk2".to_string(),
    });
    match flow.on_pairwise_checked(Err("wallet closed".to_string())) {
        CreateKeyState::Failed { error } => {
            assert_eq!(error.kind, ErrorKind::ResourceProvision);
            assert_eq!(
                error.context,
                vec!["Can't check if agent pairwise connection exists.".to_string()]
            );
        }
        _ => panic!("a failed check must stop the flow"),
    }

    let flow = agent.handle_create_key(CreateKey {
        for_did: "did:user:1".to_string(),
        for_did_verkey: "Vk2".to_string(),
    });
    let flow = flow.on_pairwise_checked(Ok(false));
    match flow.on_their_did_stored(Err("io".to_string())) {
        CreateKeyState::Failed { error } => {
            assert_eq!(error.kind, ErrorKind::ResourceProvision);
            assert_eq!(
                error.context,
                vec!["Can't store their DID for Forward Agent Connection pairwise.".to_string()]
            );
        }
        _ => panic!("a failed store must stop the flow"),
    }

    // No route appeared for the would-be pairwise DID.
    let e = router.route_a2a_msg(&"P".to_string(), Vec::new()).unwrap_err();
    assert_eq!(e.kind, ErrorKind::NotFound);
}

#[test]
fn forward_is_byte_transparent() {
    let mut router = Router::new();
    let (agent, _) = provision_agent(&mut router, 1, "D", "VkD");
    router.add_a2a_route("did:other".to_string(), 5).unwrap();

    let inner = vec![42, 0, 7, 255, 128];
    let msgs = vec![A2AMessage::Forward(Forward {
        fwd: "did:other".to_string(),
        msg: inner.clone(),
    })];
    let envelope = bundle_authenticated(&"VkSender".to_string(), &msgs);

    let (fwd, routed) = match agent.handle_a2a_msg(&envelope) {
        HandleState::Routing { fwd, msg } => (fwd, msg),
        _ => panic!("a Forward envelope must be routed"),
    };
    // The inner bytes went into routing unchanged.
    assert_eq!(routed, inner);
    let (handler, delivered) = router.route_a2a_msg(&fwd, routed).unwrap();
    assert_eq!(handler, 5);
    assert_eq!(delivered, inner);

    // The routed handler's reply comes back byte for byte: no re-encoding.
    let reply = vec![9, 9, 9];
    match agent.on_routed(HandleState::Routing { fwd, msg: delivered }, Ok(reply.clone())) {
        HandleState::Replied { reply: r } => assert_eq!(r, reply),
        _ => panic!("a routed reply must be returned verbatim"),
    }
}

#[test]
fn forward_to_unbound_did_fails_not_found() {
    let mut router = Router::new();
    let (agent, _) = provision_agent(&mut router, 1, "D", "VkD");
    let msgs = vec![A2AMessage::Forward(Forward {
        fwd: "did:nobody".to_string(),
        msg: vec![1],
    })];
    let envelope = bundle_authenticated(&"VkSender".to_string(), &msgs);
    let (fwd, routed) = match agent.handle_a2a_msg(&envelope) {
        HandleState::Routing { fwd, msg } => (fwd, msg),
        _ => panic!("a Forward envelope must be routed"),
    };
    let e = router.route_a2a_msg(&fwd, routed).unwrap_err();
    assert_eq!(e.kind, ErrorKind::NotFound);
    // The router's failure is handed back unwrapped.
    match agent.on_routed(
        HandleState::Routing { fwd: "did:nobody".to_string(), msg: vec![1] },
        Err(e),
    ) {
        HandleState::Failed { error } => assert_eq!(error.kind, ErrorKind::NotFound),
        _ => panic!("a routing failure must fail the envelope"),
    }
}

#[test]
fn only_last_message_is_dispatched() {
    let mut router = Router::new();
    let (agent, _) = provision_agent(&mut router, 1, "D", "VkD");
    // A CreateKey followed by a Forward: only the last one counts.
    let msgs = vec![
        A2AMessage::CreateKey(CreateKey {
            for_did: "did:user:1".to_string(),
            for_did_verkey: "Vk2".to_string(),
        }),
        A2AMessage::Forward(Forward { fwd: "did:other".to_string(), msg: vec![3] }),
    ];
    let envelope = bundle_authenticated(&"VkSender".to_string(), &msgs);
    match agent.handle_a2a_msg(&envelope) {
        HandleState::Routing { fwd, msg } => {
            assert_eq!(fwd, "did:other");
            assert_eq!(msg, vec![3]);
        }
        _ => panic!("only the last message is dispatched"),
    }
}

#[test]
fn unsupported_messages_fail_protocol() {
    let mut router = Router::new();
    let (agent, _) = provision_agent(&mut router, 1, "D", "VkD");

    // A KeyCreated has no handler here.
    let msgs = vec![A2AMessage::KeyCreated(KeyCreated {
        with_pairwise_did: "P".to_string(),
        with_pairwise_did_verkey: "Vp".to_string(),
    })];
    let envelope = bundle_authenticated(&"VkSender".to_string(), &msgs);
    match agent.handle_a2a_msg(&envelope) {
        HandleState::Failed { error } => {
            assert_eq!(error.kind, ErrorKind::Protocol);
            assert_eq!(error.context, vec!["Unsupported message".to_string()]);
        }
        _ => panic!("a KeyCreated request must be unsupported"),
    }

    // An empty envelope has nothing to dispatch.
    let envelope = bundle_authenticated(&"VkSender".to_string(), &Vec::new());
    match agent.handle_a2a_msg(&envelope) {
        HandleState::Failed { error } => assert_eq!(error.kind, ErrorKind::Protocol),
        _ => panic!("an empty envelope must be unsupported"),
    }
}

#[test]
fn undecodable_envelope_fails_crypto() {
    let mut router = Router::new();
    let (agent, _) = provision_agent(&mut router, 1, "D", "VkD");
    match agent.handle_a2a_msg(&vec![255, 255]) {
        HandleState::Failed { error } => {
            assert_eq!(error.kind, ErrorKind::Crypto);
            assert_eq!(error.context.last().unwrap().as_str(), "Can't unbundle message.");
        }
        _ => panic!("undecodable bytes must fail"),
    }
}

#[test]
fn restore_reopens_and_reregisters() {
    let mut router = Router::new();
    let (_, config) = provision_agent(&mut router, 1, "D", "VkD");

    // Restoring into a router that still holds the route is a conflict.
    let st = Agent::restore(config, storage());
    let st = st.on_wallet_opened(Ok(8));
    match st.on_verkey_fetched(Ok("VkD".to_string()), &mut router, 3) {
        RestoreState::Failed { error } => assert_eq!(error.kind, ErrorKind::StateConflict),
        _ => panic!("restoring over a live route must be a conflict"),
    }

    // Restoring into a fresh router brings the agent back.
    let mut fresh = Router::new();
    let mut other = Router::new();
    let (_, config) = provision_agent(&mut other, 9, "E", "VkE");
    let st = Agent::restore(config, storage());
    let st = st.on_wallet_opened(Ok(8));
    match st.on_verkey_fetched(Ok("VkE".to_string()), &mut fresh, 3) {
        RestoreState::Done { agent } => {
            assert_eq!(agent.did().as_str(), "E");
            assert_eq!(agent.verkey().as_str(), "VkE");
        }
        _ => panic!("restore must succeed on a fresh router"),
    }
    let (handler, _) = fresh.route_a2a_msg(&"E".to_string(), Vec::new()).unwrap();
    assert_eq!(handler, 3);
}

#[test]
fn rand_string_has_requested_length() {
    let s = rand_string(10);
    assert_eq!(s.chars().count(), 10);
    assert!(s.chars().all(|c| c.is_ascii_alphanumeric()));
    let t = rand_string(10);
    assert_eq!(t.chars().count(), 10);
}
