use ws_fanout::broadcast::{evict, recipients, BroadcastPass};
use ws_fanout::ingest::{ingest_step, IngestAction, IngestState, Inbound};
use ws_fanout::registry::Registry;
use ws_fanout::server::WebSocketServer;

/// A stand-in connection: the payloads it has been sent.
type Inbox = Vec<String>;

/// Drives one broadcast pass; sends to an identity in `broken` fail.
fn broadcast(
    server: &mut WebSocketServer<Inbox>,
    payload: &str,
    exclude: Option<u64>,
    broken: &[u64],
) -> Vec<u64> {
    let mut pass = server.begin_broadcast(exclude);
    let mut attempted = Vec::new();
    while let Some(id) = pass.next_recipient() {
        attempted.push(id);
        let ok = if broken.contains(&id) {
            false
        } else {
            match server.handle_of(id) {
                Some(inbox) => {
                    inbox.push(payload.to_string());
                    true
                }
                None => false,
            }
        };
        pass.record(ok);
    }
    assert!(pass.is_done());
    server.finish_broadcast(pass);
    attempted
}

fn inbox_of(server: &mut WebSocketServer<Inbox>, id: u64) -> Inbox {
    server.handle_of(id).map(|h| h.clone()).unwrap_or_default()
}

fn three_clients() -> (WebSocketServer<Inbox>, u64, u64, u64) {
    let mut server = WebSocketServer::new(8080);
    let a = server.connect(Vec::new()).unwrap();
    let b = server.connect(Vec::new()).unwrap();
    let c = server.connect(Vec::new()).unwrap();
    (server, a, b, c)
}

#[test]
fn new_server_keeps_port_and_starts_empty() {
    let server: WebSocketServer<Inbox> = WebSocketServer::new(9001);
    assert_eq!(server.get_port(), 9001);
    assert_eq!(server.client_count(), 0);
    assert!(server.client_ids().is_empty());
}

#[test]
fn connect_hands_out_distinct_identities() {
    let (server, a, b, c) = three_clients();
    assert_eq!((a, b, c), (0, 1, 2));
    assert_eq!(server.client_ids(), vec![0, 1, 2]);
    assert_eq!(server.client_count(), 3);
}

#[test]
fn fan_out_reaches_every_client_once() {
    let (mut server, a, b, c) = three_clients();
    let attempted = broadcast(&mut server, "news", None, &[]);
    assert_eq!(attempted, vec![a, b, c]);
    for id in [a, b, c] {
        assert_eq!(inbox_of(&mut server, id), vec!["news".to_string()]);
    }
    assert_eq!(server.client_count(), 3);
}

#[test]
fn exclusion_skips_only_the_excluded_client() {
    let (mut server, a, b, c) = three_clients();
    let attempted = broadcast(&mut server, "x", Some(b), &[]);
    assert_eq!(attempted, vec![a, c]);
    assert!(inbox_of(&mut server, b).is_empty());
}

#[test]
fn relay_from_a_reaches_b_and_c_but_not_a() {
    let (mut server, a, b, c) = three_clients();
    let (state, action) = ingest_step(IngestState::Reading, a, Inbound::Payload);
    assert_eq!(state, IngestState::Reading);
    let exclude = match action {
        IngestAction::Relay { exclude } => exclude,
        other => panic!("unexpected action {:?}", other),
    };
    broadcast(&mut server, "hello", Some(exclude), &[]);
    assert_eq!(inbox_of(&mut server, b), vec!["hello".to_string()]);
    assert_eq!(inbox_of(&mut server, c), vec!["hello".to_string()]);
    assert!(inbox_of(&mut server, a).is_empty());
}

#[test]
fn closed_client_is_evicted_and_skipped_afterwards() {
    let (mut server, a, b, c) = three_clients();
    let attempted = broadcast(&mut server, "first", None, &[b]);
    assert_eq!(attempted, vec![a, b, c]);
    assert_eq!(server.client_count(), 2);
    assert_eq!(server.client_ids(), vec![a, c]);
    let attempted = broadcast(&mut server, "second", None, &[]);
    assert_eq!(attempted, vec![a, c]);
    assert_eq!(inbox_of(&mut server, a), vec!["first".to_string(), "second".to_string()]);
    assert_eq!(inbox_of(&mut server, c), vec!["first".to_string(), "second".to_string()]);
    assert_eq!(server.client_count(), 2);
}

#[test]
fn every_failed_send_is_evicted_in_one_batch() {
    let (mut server, a, b, c) = three_clients();
    broadcast(&mut server, "p", None, &[a, c]);
    assert_eq!(server.client_ids(), vec![b]);
}

#[test]
fn removing_an_absent_identity_changes_nothing() {
    let (mut server, a, b, c) = three_clients();
    assert!(server.disconnect(b).is_some());
    assert_eq!(server.client_ids(), vec![a, c]);
    assert!(server.disconnect(b).is_none());
    assert!(server.disconnect(77).is_none());
    assert_eq!(server.client_ids(), vec![a, c]);
}

#[test]
fn payloads_arrive_in_broadcast_order() {
    let (mut server, a, b, c) = three_clients();
    broadcast(&mut server, "P1", None, &[]);
    broadcast(&mut server, "P2", Some(a), &[]);
    broadcast(&mut server, "P3", None, &[]);
    let all = vec!["P1".to_string(), "P2".to_string(), "P3".to_string()];
    assert_eq!(inbox_of(&mut server, b), all);
    assert_eq!(inbox_of(&mut server, c), all);
    assert_eq!(inbox_of(&mut server, a), vec!["P1".to_string(), "P3".to_string()]);
}

#[test]
fn sender_never_receives_its_own_payload() {
    let (mut server, a, b, _c) = three_clients();
    for sender in [a, b] {
        broadcast(&mut server, "echo?", Some(sender), &[]);
    }
    assert_eq!(inbox_of(&mut server, a), vec!["echo?".to_string()]);
    assert_eq!(inbox_of(&mut server, b), vec!["echo?".to_string()]);
}

#[test]
fn broadcast_to_empty_registry_attempts_nothing() {
    let mut server: WebSocketServer<Inbox> = WebSocketServer::new(1);
    assert!(broadcast(&mut server, "none", None, &[]).is_empty());
    assert_eq!(server.client_count(), 0);
}

#[test]
fn ingest_loop_ends_on_close_or_error() {
    assert_eq!(
        ingest_step(IngestState::Reading, 5, Inbound::Closed),
        (IngestState::Terminated, IngestAction::Deregister { id: 5 })
    );
    assert_eq!(
        ingest_step(IngestState::Reading, 6, Inbound::Failed),
        (IngestState::Terminated, IngestAction::Deregister { id: 6 })
    );
    assert_eq!(
        ingest_step(IngestState::Terminated, 5, Inbound::Payload),
        (IngestState::Terminated, IngestAction::Idle)
    );
}

#[test]
fn registry_tracks_positions_and_removal() {
    let mut reg: Registry<&str> = Registry::new();
    assert!(reg.is_empty());
    let x = reg.register("x");
    let y = reg.register("y");
    let z = reg.register("z");
    assert_eq!(reg.next_id(), 3);
    assert_eq!(reg.position(y), Some(1));
    assert!(reg.contains(z));
    *reg.handle_mut(0) = "x2";
    assert_eq!(reg.remove(x), Some("x2"));
    assert_eq!(reg.remove(x), None);
    assert_eq!(reg.identities(), vec![y, z]);
    assert_eq!(reg.position(x), None);
    assert_eq!(reg.len(), 2);
}

#[test]
fn recipients_and_evict_work_on_a_bare_registry() {
    let mut reg: Registry<u8> = Registry::new();
    let ids: Vec<u64> = (0..4u8).map(|h| reg.register(h)).collect();
    assert_eq!(recipients(&reg, Some(ids[2])), vec![0, 1, 3]);
    assert_eq!(recipients(&reg, Some(99)), vec![0, 1, 2, 3]);
    evict(&mut reg, &vec![ids[1], 42, ids[3], ids[1]]);
    assert_eq!(reg.identities(), vec![0, 2]);
    let pass = BroadcastPass::begin(&reg, None);
    assert_eq!(pass.next_recipient(), Some(0));
}
