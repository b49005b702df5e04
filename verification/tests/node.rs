use bored_node::node::{starred_page_event, starred_text_event, unstar_event, Action, DbReply, NodeState, StoreOutcome};
use bored_node::protocol::{first_starred_page, ClipboardRequest, ClipboardResponse, NetworkCommand, NetworkEvent, StarredMetadata};

const VALID_PEER: &str = "QmYyQSo1c1Ym7orWxLYvCrM2EmxFTANf8wXmmE7DWjhx5N";

fn request(text: &str) -> ClipboardRequest {
    ClipboardRequest { text: text.to_string() }
}

fn pair(p: &str, a: &str) -> (String, String) {
    (p.to_string(), a.to_string())
}

fn pending_texts(state: &NodeState) -> Vec<String> {
    let actions = state.on_list_pending();
    match &actions[0] {
        Action::Emit(NetworkEvent::QueuePendingList { items }) => items.iter().map(|i| i.text.clone()).collect(),
        other => panic!("unexpected {other:?}"),
    }
}

fn status(state: &NodeState) -> (Vec<String>, Vec<(String, Vec<String>)>) {
    let actions = state.status(vec!["c".to_string()]);
    match &actions[0] {
        Action::Emit(NetworkEvent::List { listen_addresses, discovered_peers, connected_peers }) => {
            assert_eq!(connected_peers, &vec!["c".to_string()]);
            (listen_addresses.clone(), discovered_peers.clone())
        }
        other => panic!("unexpected {other:?}"),
    }
}

#[test]
fn listen_address_reported_once() {
    let mut state = NodeState::new();
    let first = state.on_new_listen_addr("/ip4/1.2.3.4/tcp/5".to_string());
    assert!(matches!(&first[..], [Action::Emit(NetworkEvent::ListeningOn(a))] if a == "/ip4/1.2.3.4/tcp/5"));
    let again = state.on_new_listen_addr("/ip4/1.2.3.4/tcp/5".to_string());
    assert!(again.is_empty());
    assert_eq!(status(&state).0, vec!["/ip4/1.2.3.4/tcp/5".to_string()]);
}

#[test]
fn discovery_reports_new_peers_once() {
    let mut state = NodeState::new();
    let actions = state.on_discovered(vec![pair("p1", "a1"), pair("p1", "a2"), pair("p2", "b1"), pair("p1", "a1")]);
    let discovered: Vec<&String> = actions
        .iter()
        .filter_map(|a| match a {
            Action::Emit(NetworkEvent::PeerDiscovered(p)) => Some(p),
            _ => None,
        })
        .collect();
    assert_eq!(discovered, vec!["p1", "p2"]);
    let added = actions.iter().filter(|a| matches!(a, Action::AddPeerAddress { .. })).count();
    assert_eq!(added, 4);
    assert!(matches!(&actions[0], Action::AddPeerAddress { peer, address } if peer == "p1" && address == "a1"));
    assert!(matches!(&actions[1], Action::Emit(NetworkEvent::PeerDiscovered(p)) if p == "p1"));
    let (_, peers) = status(&state);
    assert_eq!(peers, vec![
        ("p1".to_string(), vec!["a1".to_string(), "a2".to_string()]),
        ("p2".to_string(), vec!["b1".to_string()]),
    ]);
}

#[test]
fn expiry_reports_peer_when_last_address_goes() {
    let mut state = NodeState::new();
    state.on_discovered(vec![pair("p1", "a1"), pair("p1", "a2"), pair("p2", "b1")]);
    let first = state.on_expired(vec![pair("p1", "a1"), pair("p3", "z")]);
    assert!(first.is_empty());
    let second = state.on_expired(vec![pair("p1", "a2")]);
    assert!(matches!(&second[..], [Action::Emit(NetworkEvent::PeerExpired(p))] if p == "p1"));
    let (_, peers) = status(&state);
    assert_eq!(peers, vec![("p2".to_string(), vec!["b1".to_string()])]);
    let third = state.on_expired(vec![pair("p1", "a2")]);
    assert!(third.is_empty());
}

#[test]
fn broadcast_without_peers_is_an_error() {
    let state = NodeState::new();
    let actions = state.on_broadcast("hi".to_string());
    assert!(matches!(&actions[..], [Action::Emit(NetworkEvent::NetworkError { peer, error })]
        if peer == "broadcast" && error == "no peers discovered on the LAN"));
}

#[test]
fn broadcast_reaches_every_peer() {
    let mut state = NodeState::new();
    state.on_discovered(vec![pair("p1", "a1"), pair("p2", "b1")]);
    let actions = state.on_broadcast("hi".to_string());
    assert_eq!(actions.len(), 3);
    assert!(matches!(&actions[0], Action::Emit(NetworkEvent::MessageSent { text }) if text == "hi"));
    assert!(matches!(&actions[1], Action::SendRequest { peer, request } if peer == "p1" && request.text == "hi"));
    assert!(matches!(&actions[2], Action::SendRequest { peer, request } if peer == "p2" && request.text == "hi"));
}

#[test]
fn send_to_checks_the_peer_id() {
    let mut state = NodeState::new();
    let bad = state.on_command(NetworkCommand::SendTextTo { target_peer_id: "not-a-peer".to_string(), text: "t".to_string() });
    assert!(matches!(&bad[..], [Action::Emit(NetworkEvent::NetworkError { peer, error })]
        if peer == "not-a-peer" && error == "invalid peer id"));
    let good = state.on_command(NetworkCommand::SendTextTo { target_peer_id: VALID_PEER.to_string(), text: "t".to_string() });
    assert_eq!(good.len(), 2);
    assert!(matches!(&good[0], Action::Emit(NetworkEvent::MessageSent { text }) if text == "t"));
    assert!(matches!(&good[1], Action::SendRequest { peer, request } if peer == VALID_PEER && request.text == "t"));
    let direct = NodeState::send_to_actions("x".to_string(), "y".to_string(), true);
    assert!(matches!(&direct[1], Action::SendRequest { peer, .. } if peer == "x"));
}

#[test]
fn request_is_queued_and_acknowledged() {
    let mut state = NodeState::new();
    let actions = state.on_request("p1".to_string(), request("hello"));
    assert_eq!(actions.len(), 2);
    assert!(matches!(&actions[0], Action::Emit(NetworkEvent::MessageReceived { from, text, queue_was_empty: true, queue_len: 1, queue_bytes: 5 })
        if from == "p1" && text == "hello"));
    assert!(matches!(&actions[1], Action::Respond(ClipboardResponse { ack: true, reason: None })));
    let second = state.on_request("p2".to_string(), request("yo"));
    assert!(matches!(&second[0], Action::Emit(NetworkEvent::MessageReceived { queue_was_empty: false, queue_len: 2, queue_bytes: 7, .. })));
    assert_eq!(pending_texts(&state), vec!["hello", "yo"]);
}

#[test]
fn request_refused_when_queue_full() {
    let mut state = NodeState::new();
    for i in 0..20 {
        state.on_request("p".to_string(), request(&format!("m{i}")));
    }
    let actions = state.on_request("p".to_string(), request("one too many"));
    assert!(matches!(&actions[0], Action::Emit(NetworkEvent::QueueRejected { reason }) if reason == "queue full"));
    assert!(matches!(&actions[1], Action::Respond(ClipboardResponse { ack: false, reason: Some(r) }) if r == "queue full"));
    assert_eq!(pending_texts(&state).len(), 20);
}

#[test]
fn dismiss_reports_item_and_next() {
    let mut state = NodeState::new();
    let empty = state.on_dismiss();
    assert!(matches!(&empty[..], [Action::Emit(NetworkEvent::QueueEmpty)]));
    state.on_request("p".to_string(), request("a"));
    state.on_request("p".to_string(), request("b"));
    let actions = state.on_command(NetworkCommand::DismissCurrent);
    match &actions[..] {
        [Action::Emit(NetworkEvent::QueueItemDismissed { dismissed, next: Some(next) })] => {
            assert_eq!(dismissed.text, "a");
            assert_eq!(next.text, "b");
        }
        other => panic!("unexpected {other:?}"),
    }
    assert_eq!(pending_texts(&state), vec!["b"]);
}

#[test]
fn star_hands_front_to_store_then_removes_it() {
    let mut state = NodeState::new();
    assert!(matches!(&state.on_star()[..], [Action::Emit(NetworkEvent::QueueEmpty)]));
    state.on_request("p".to_string(), request("keep me"));
    let actions = state.on_command(NetworkCommand::StarCurrent);
    assert!(matches!(&actions[..], [Action::StoreStarred(item)] if item.text == "keep me"));
    assert_eq!(pending_texts(&state), vec!["keep me"]);
    let refused = state.on_store_outcome(StoreOutcome::Refused("full".to_string()));
    assert!(matches!(&refused[..], [Action::Emit(NetworkEvent::DatabaseError(e))] if e == "full"));
    let unsent = state.on_store_outcome(StoreOutcome::NotSent);
    assert!(matches!(&unsent[..], [Action::Emit(NetworkEvent::DatabaseError(e))] if e == "Failed to send insert command to DB"));
    let dropped = state.on_store_outcome(StoreOutcome::Dropped);
    assert!(matches!(&dropped[..], [Action::Emit(NetworkEvent::DatabaseError(e))] if e == "DB thread dropped request"));
    assert_eq!(pending_texts(&state), vec!["keep me"]);
    let stored = state.on_store_outcome(StoreOutcome::Stored);
    assert!(matches!(&stored[..], [Action::Emit(NetworkEvent::QueueItemStarred { starred, next: None })] if starred.text == "keep me"));
    assert!(pending_texts(&state).is_empty());
}

#[test]
fn database_commands_become_actions() {
    let mut state = NodeState::new();
    assert!(matches!(&state.on_command(NetworkCommand::Unstar(7))[..], [Action::DeleteStarred(7)]));
    assert!(matches!(&state.on_command(NetworkCommand::GetFullStarredText(8))[..], [Action::FetchStarredText(8)]));
    assert!(matches!(&state.on_command(first_starred_page())[..], [Action::QueryStarredPage { limit: 50, offset: 0 }]));
    assert!(matches!(&state.on_command(NetworkCommand::List)[..], [Action::ReportStatus]));
    assert!(matches!(&state.on_command(NetworkCommand::ListPending)[..], [Action::Emit(NetworkEvent::QueuePendingList { .. })]));
}

#[test]
fn database_replies_become_events() {
    let meta = StarredMetadata { id: 3, preview: "p".to_string(), size_bytes: 1, from: None };
    assert!(matches!(starred_page_event(10, DbReply::Done(vec![meta])), NetworkEvent::StarredPageLoaded { items, offset: 10 } if items.len() == 1));
    assert!(matches!(starred_page_event(0, DbReply::Failed("boom".to_string())), NetworkEvent::DatabaseError(e) if e == "boom"));
    assert!(matches!(unstar_event(4, DbReply::Done(())), NetworkEvent::QueueItemUnstarred { id: 4 }));
    assert!(matches!(unstar_event(4, DbReply::Dropped), NetworkEvent::DatabaseError(e) if e == "DB thread dropped request"));
    assert!(matches!(starred_text_event(5, DbReply::Done("full".to_string())), NetworkEvent::StarredTextLoaded { id: 5, text } if text == "full"));
}

#[test]
fn responses_and_failures() {
    let state = NodeState::new();
    assert!(state.on_response("p".to_string(), ClipboardResponse { ack: true, reason: None }).is_empty());
    let refused = state.on_response("p".to_string(), ClipboardResponse { ack: false, reason: Some("queue full".to_string()) });
    assert!(matches!(&refused[..], [Action::Emit(NetworkEvent::DeliveryFailed { peer, reason })] if peer == "p" && reason == "queue full"));
    let silent = state.on_response("p".to_string(), ClipboardResponse { ack: false, reason: None });
    assert!(matches!(&silent[..], [Action::Emit(NetworkEvent::DeliveryFailed { reason, .. })] if reason == "delivery failed"));
    assert!(matches!(&state.on_outbound_failure("q".to_string())[..], [Action::Emit(NetworkEvent::PeerUnreachable(p))] if p == "q"));
    let inbound = state.on_inbound_failure("q".to_string(), "timeout".to_string());
    assert!(matches!(&inbound[..], [Action::Emit(NetworkEvent::NetworkError { peer, error })] if peer == "q" && error == "Inbound error: timeout"));
}

#[test]
fn connections() {
    let state = NodeState::new();
    assert_eq!(state.on_connection_established("p".to_string(), true).len(), 1);
    assert!(state.on_connection_established("p".to_string(), false).is_empty());
    assert!(matches!(&state.on_connection_closed("p".to_string(), 0, false)[..], [Action::Emit(NetworkEvent::PeerDisconnected(p))] if p == "p"));
    assert!(state.on_connection_closed("p".to_string(), 1, false).is_empty());
    assert!(state.on_connection_closed("p".to_string(), 0, true).is_empty());
}

#[test]
fn discover_then_expire_restores_table() {
    let mut state = NodeState::new();
    state.on_discovered(vec![pair("p0", "x")]);
    let found = state.on_discovered(vec![pair("p9", "a9")]);
    assert_eq!(found.len(), 2);
    let gone = state.on_expired(vec![pair("p9", "a9")]);
    assert!(matches!(&gone[..], [Action::Emit(NetworkEvent::PeerExpired(p))] if p == "p9"));
    let (_, peers) = status(&state);
    assert_eq!(peers, vec![("p0".to_string(), vec!["x".to_string()])]);
}
