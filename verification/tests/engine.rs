use maui::{
    interpret_response, Action, Connection, ErrorKind, Event, Packet, MAX_SIZE,
};
use tokio::sync::{broadcast, oneshot};

type Response = (String, Vec<String>);
type Slot = oneshot::Sender<Response>;

fn mk_words(words: &[&str]) -> Vec<String> {
    words.iter().map(|w| (*w).to_string()).collect()
}

fn deliver(engine: &mut Connection<Slot>, frame: Packet) {
    match engine.handle_frame(frame).unwrap() {
        Action::Deliver { slot, status, payload } => {
            let _ = slot.send((status, payload));
        },
        other => panic!("expected a delivery, got a different action: {:?}", action_name(&other)),
    }
}

fn action_name<T>(a: &Action<T>) -> &'static str {
    match a {
        Action::Deliver { .. } => "Deliver",
        Action::Ignore => "Ignore",
        Action::Broadcast(_) => "Broadcast",
    }
}

#[test]
fn requests_get_sequential_ids_and_their_own_replies() {
    let mut engine: Connection<Slot> = Connection::new();

    let (tx_a, mut rx_a) = oneshot::channel();
    let (tx_b, mut rx_b) = oneshot::channel();
    let (id_a, _) = engine.accept_request(mk_words(&["serverInfo"]), tx_a).unwrap();
    let (id_b, _) = engine.accept_request(mk_words(&["admin.listPlayers", "all"]), tx_b).unwrap();
    assert_eq!(id_a, 0);
    assert_eq!(id_b, 1);
    assert_eq!(engine.pending_len(), 2);

    // Replies arrive out of order; each caller still gets its own.
    deliver(&mut engine, Packet::new(id_b, true, false, mk_words(&["OK", "for-b"])));
    deliver(&mut engine, Packet::new(id_a, true, false, mk_words(&["OK", "for-a"])));
    assert_eq!(engine.pending_len(), 0);

    let (status_a, payload_a) = rx_a.try_recv().unwrap();
    assert_eq!(status_a, "OK");
    assert_eq!(payload_a, vec!["for-a".to_string()]);
    let (status_b, payload_b) = rx_b.try_recv().unwrap();
    assert_eq!(status_b, "OK");
    assert_eq!(payload_b, vec!["for-b".to_string()]);
}

#[test]
fn abandonment_resolves_every_pending_caller_exactly_once() {
    let mut engine: Connection<Slot> = Connection::new();
    let mut receivers = Vec::new();
    for _ in 0..5 {
        let (tx, rx) = oneshot::channel();
        engine.accept_request(mk_words(&["serverInfo"]), tx).unwrap();
        receivers.push(rx);
    }
    assert_eq!(engine.pending_len(), 5);

    // The actor's loop terminating drops the engine and with it every
    // still-pending completion slot.
    drop(engine);

    for mut rx in receivers {
        assert!(matches!(rx.try_recv(), Err(oneshot::error::TryRecvError::Closed)));
        let err = interpret_response(None).unwrap_err();
        assert_eq!(err.kind(), ErrorKind::ConnectionLost);
    }
}

#[test]
fn unknown_response_id_is_silently_ignored() {
    let mut engine: Connection<Slot> = Connection::new();
    let frame = Packet::new(99, true, false, mk_words(&["OK"]));
    match engine.handle_frame(frame).unwrap() {
        Action::Ignore => {},
        other => panic!("expected the frame to be ignored, got {}", action_name(&other)),
    }
}

#[test]
fn empty_response_payload_is_fatal() {
    let mut engine: Connection<Slot> = Connection::new();
    let (tx, mut rx) = oneshot::channel();
    let (id, _) = engine.accept_request(mk_words(&["serverInfo"]), tx).unwrap();
    let err = engine.handle_frame(Packet::new(id, true, false, Vec::new())).unwrap_err();
    assert_eq!(err.kind(), ErrorKind::Parse);
    // The entry was consumed before the fault was noticed.
    assert_eq!(engine.pending_len(), 0);
    drop(engine);
    assert!(rx.try_recv().is_err());
}

#[test]
fn invalid_flag_combination_is_fatal() {
    let mut engine: Connection<Slot> = Connection::new();
    let err = engine
        .handle_frame(Packet::new(1, true, true, mk_words(&["OK"])))
        .unwrap_err();
    assert_eq!(err.kind(), ErrorKind::Parse);
    let err = engine
        .handle_frame(Packet::new(1, false, false, mk_words(&["serverInfo"])))
        .unwrap_err();
    assert_eq!(err.kind(), ErrorKind::Parse);
}

#[test]
fn oversized_command_is_rejected_without_registering() {
    let mut engine: Connection<Slot> = Connection::new();
    let (tx, _rx) = oneshot::channel();
    let err = engine
        .accept_request(vec!["a".repeat(MAX_SIZE)], tx)
        .unwrap_err();
    assert_eq!(err.kind(), ErrorKind::Parse);
    assert_eq!(engine.pending_len(), 0);
}

#[test]
fn push_frames_fan_out_to_subscribers_registered_before() {
    let mut engine: Connection<Slot> = Connection::new();
    let (event_tx, mut rx1) = broadcast::channel::<Event>(1000);
    let mut rx2 = event_tx.subscribe();

    let frame = Packet::new(0, false, true, mk_words(&["player.onJoin", "Alice", "GUID123"]));
    match engine.handle_frame(frame).unwrap() {
        Action::Broadcast(e) => {
            event_tx.send(e).unwrap();
        },
        other => panic!("expected a broadcast, got {}", action_name(&other)),
    }

    for rx in [&mut rx1, &mut rx2] {
        match rx.try_recv().unwrap() {
            Event::PlayerOnJoin { name, guid } => {
                assert_eq!(name, "Alice");
                assert_eq!(guid, "GUID123");
            },
            other => panic!("expected a join event, got {:?}", other),
        }
    }

    // A subscriber registered after the push does not observe it.
    let mut rx3 = event_tx.subscribe();
    assert!(matches!(rx3.try_recv(), Err(broadcast::error::TryRecvError::Empty)));
}

#[test]
fn malformed_push_payload_is_fatal() {
    let mut engine: Connection<Slot> = Connection::new();
    let err = engine
        .handle_frame(Packet::new(0, false, true, mk_words(&["no.suchEvent"])))
        .unwrap_err();
    assert_eq!(err.kind(), ErrorKind::Parse);
}

#[test]
fn reply_interpretation_follows_the_status_word() {
    // The example scenario: an "OK" reply with no further words is an empty
    // payload; a non-OK status is a status error carrying that word.
    let r = interpret_response(Some(("OK".to_string(), Vec::new())));
    assert_eq!(r.unwrap(), Vec::<String>::new());

    let r = interpret_response(Some(("OK".to_string(), mk_words(&["a", "b"]))));
    assert_eq!(r.unwrap(), mk_words(&["a", "b"]));

    let err = interpret_response(Some(("error".to_string(), mk_words(&["reason"])))).unwrap_err();
    assert_eq!(err.kind(), ErrorKind::Status);
    assert_eq!(err.status(), Some("error"));

    let err = interpret_response(None).unwrap_err();
    assert_eq!(err.kind(), ErrorKind::ConnectionLost);
    assert_eq!(err.status(), None);
}

#[test]
fn accepted_request_bytes_decode_to_the_command_frame() {
    let mut engine: Connection<Slot> = Connection::new();
    let (tx, _rx) = oneshot::channel();
    let (id, bytes) = engine
        .accept_request(mk_words(&["admin.eventsEnabled", "true"]), tx)
        .unwrap();
    let (frame, consumed) = Packet::read_from(&bytes).unwrap().unwrap();
    assert_eq!(consumed, bytes.len());
    assert_eq!(frame.id, id);
    assert!(!frame.is_response);
    assert!(!frame.is_from_server);
    assert_eq!(frame.words, mk_words(&["admin.eventsEnabled", "true"]));
}
