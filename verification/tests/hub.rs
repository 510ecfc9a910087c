use kutter::bus::{Bus, RecvOutcome, Subscription, BUS_CAPACITY};
use kutter::chat::{ChatMessage, OutgoingMessage};
use kutter::session::{
    gate_upgrade, pump_step, session_transition, AuthError, Hub, Identity, PumpAction,
    UpgradeDecision,
};
use kutter::session::SessionEvent::{
    ClientClosed, CloseDone, CredentialBad, CredentialOk, InboundEnded, LaggedOut, SendFailed,
    UpgradeRequested,
};
use kutter::session::SessionPhase::{
    Active, Authenticating, Closing, Rejected, Terminated, Upgrading,
};
use kutter::store::{MessageStore, StoreError};

fn ident(email: &str, username: &str) -> Identity {
    Identity { email: email.to_string(), username: username.to_string(), expiry: i64::MAX }
}

fn new_message_frame(body: &str) -> String {
    format!("{{\"action\":\"new_message\",\"payload\":{{\"body\":\"{}\"}}}}", body)
}

fn delete_frame(id: i32) -> String {
    format!("{{\"action\":\"delete_message\",\"payload\":{{\"id\":{}}}}}", id)
}

#[test]
fn echo_single_client() {
    // One client connects, sends a message, and receives it back with the
    // server-assigned id and its own identity; the history then holds
    // exactly that message.
    let mut hub = Hub::new();
    let u1 = ident("u1", "u1name");
    let mut sub = hub.subscribe();

    let out = hub.handle_frame(&u1, &new_message_frame("hello"), 0);
    assert!(out.reply.is_none());
    match out.published {
        Some(OutgoingMessage::NewMessage(m)) => {
            assert_eq!(m.id, 1);
            assert_eq!(m.email, "u1");
            assert_eq!(m.username, "u1name");
            assert_eq!(m.message, "hello");
        }
        other => panic!("expected a new-message broadcast, got {:?}", other),
    }

    match sub.recv(&hub.bus) {
        RecvOutcome::Event(OutgoingMessage::NewMessage(m)) => {
            assert_eq!(m.id, 1);
            assert_eq!(m.message, "hello");
        }
        other => panic!("expected the broadcast event, got {:?}", other),
    }

    let history = hub.history();
    assert_eq!(history.len(), 1);
    assert_eq!(history[0].id, 1);
    assert_eq!(history[0].message, "hello");
}

#[test]
fn fan_out_two_clients_in_order() {
    // Two clients: both observe both messages in commit order with
    // consecutive ids.
    let mut hub = Hub::new();
    let u1 = ident("u1", "u1name");
    let u2 = ident("u2", "u2name");
    let mut sub1 = hub.subscribe();
    let mut sub2 = hub.subscribe();

    hub.handle_frame(&u1, &new_message_frame("a"), 10);
    hub.handle_frame(&u2, &new_message_frame("b"), 20);

    for sub in [&mut sub1, &mut sub2] {
        let (events, lagged) = sub.drain(&hub.bus);
        assert!(!lagged);
        assert_eq!(events.len(), 2);
        match (&events[0], &events[1]) {
            (OutgoingMessage::NewMessage(m1), OutgoingMessage::NewMessage(m2)) => {
                assert_eq!(m1.message, "a");
                assert_eq!(m2.message, "b");
                assert_eq!(m1.id, 1);
                assert_eq!(m2.id, 2);
            }
            other => panic!("expected two new-message events, got {:?}", other),
        }
    }
}

#[test]
fn forbidden_delete_leaves_store_unchanged() {
    // A session may only delete its own messages; the other author's row
    // stays, nothing is broadcast, and only the offender hears about it.
    let mut hub = Hub::new();
    let u1 = ident("u1", "u1name");
    let u2 = ident("u2", "u2name");
    hub.handle_frame(&u1, &new_message_frame("mine"), 0);
    let mut sub1 = hub.subscribe();

    let out = hub.handle_frame(&u2, &delete_frame(1), 0);
    assert!(out.published.is_none());
    assert_eq!(
        out.reply.as_deref(),
        Some("{\"status\":\"error\",\"message\":\"You can only delete your own messages\"}")
    );
    // u1 receives nothing new.
    let (events, _) = sub1.drain(&hub.bus);
    assert!(events.is_empty());
    // The message is still there.
    assert_eq!(hub.store.fetch_all().len(), 1);
}

#[test]
fn authorized_delete_broadcasts_and_removes() {
    let mut hub = Hub::new();
    let u1 = ident("u1", "u1name");
    hub.handle_frame(&u1, &new_message_frame("mine"), 0);
    let mut sub1 = hub.subscribe();
    let mut sub2 = hub.subscribe();

    let out = hub.handle_frame(&u1, &delete_frame(1), 0);
    assert!(out.reply.is_none());
    assert_eq!(out.published, Some(OutgoingMessage::Delete { message_id: 1 }));
    for sub in [&mut sub1, &mut sub2] {
        let (events, _) = sub.drain(&hub.bus);
        assert_eq!(events, vec![OutgoingMessage::Delete { message_id: 1 }]);
    }
    assert!(hub.store.fetch_all().is_empty());
}

#[test]
fn delete_of_missing_message_reports_not_found() {
    let mut hub = Hub::new();
    let u1 = ident("u1", "u1name");
    let out = hub.handle_frame(&u1, &delete_frame(7), 0);
    assert!(out.published.is_none());
    assert_eq!(
        out.reply.as_deref(),
        Some("{\"status\":\"error\",\"message\":\"Message not found\"}")
    );
}

#[test]
fn unauthenticated_upgrade_is_rejected() {
    // No token cookie: the upgrade is refused as missing, and no identity
    // is produced.
    let d = gate_upgrade(None, 0);
    assert_eq!(d, UpgradeDecision::Reject(AuthError::Missing));

    let d = gate_upgrade(Some(Err(AuthError::SignatureInvalid)), 0);
    assert_eq!(d, UpgradeDecision::Reject(AuthError::SignatureInvalid));

    let lapsed = Identity { email: "u".to_string(), username: "u".to_string(), expiry: 5 };
    let d = gate_upgrade(Some(Ok(lapsed)), 5);
    assert_eq!(d, UpgradeDecision::Reject(AuthError::Expired));

    let fresh = ident("u", "u");
    match gate_upgrade(Some(Ok(fresh)), 5) {
        UpgradeDecision::Accept(id) => assert_eq!(id.email, "u"),
        other => panic!("expected acceptance, got {:?}", other),
    }
}

#[test]
fn malformed_frame_is_ignored_and_session_continues() {
    let mut hub = Hub::new();
    let u1 = ident("u1", "u1name");
    let mut sub = hub.subscribe();

    let out = hub.handle_frame(&u1, "not json", 0);
    assert!(out.reply.is_none());
    assert!(out.published.is_none());
    let (events, _) = sub.drain(&hub.bus);
    assert!(events.is_empty());
    assert!(hub.store.fetch_all().is_empty());

    // The same session can then send a valid message.
    let out = hub.handle_frame(&u1, &new_message_frame("still here"), 0);
    assert!(out.published.is_some());
}

#[test]
fn empty_body_is_dropped() {
    let mut hub = Hub::new();
    let u1 = ident("u1", "u1name");
    let out = hub.handle_frame(&u1, &new_message_frame(""), 0);
    assert!(out.reply.is_none());
    assert!(out.published.is_none());
    assert!(hub.store.fetch_all().is_empty());
}

#[test]
fn unknown_action_is_ignored() {
    let mut hub = Hub::new();
    let u1 = ident("u1", "u1name");
    let out = hub.handle_frame(&u1, "{\"action\":\"typing\",\"payload\":{\"body\":\"x\"}}", 0);
    assert!(out.reply.is_none());
    assert!(out.published.is_none());
}

#[test]
fn slow_subscriber_lags_without_blocking_commits() {
    // A subscriber that stops reading while many events are committed is
    // told it lagged and resumes at the oldest retained event; the commits
    // themselves all went through.
    let mut hub = Hub::new();
    let u1 = ident("u1", "u1name");
    let mut slow = hub.subscribe();

    let total = BUS_CAPACITY + 5;
    for k in 0..total {
        let out = hub.handle_frame(&u1, &new_message_frame(&format!("m{}", k)), 0);
        assert!(out.published.is_some());
    }
    assert_eq!(hub.store.fetch_all().len(), total);

    match slow.recv(&hub.bus) {
        RecvOutcome::Lagged => {}
        other => panic!("expected the lag signal, got {:?}", other),
    }
    // After the lag signal, the subscription resumes at the oldest retained
    // event and sees the rest in order.
    let (events, lagged) = slow.drain(&hub.bus);
    assert!(!lagged);
    assert_eq!(events.len(), BUS_CAPACITY);
    match &events[0] {
        OutgoingMessage::NewMessage(m) => assert_eq!(m.message, format!("m{}", 5)),
        other => panic!("expected a new-message event, got {:?}", other),
    }
}

#[test]
fn pump_step_forwards_lags_waits_and_stops() {
    let mut hub = Hub::new();
    let u1 = ident("u1", "u1name");
    let mut sub = hub.subscribe();

    assert_eq!(pump_step(&mut sub, &hub), PumpAction::Wait);

    hub.handle_frame(&u1, &new_message_frame("hi"), 0);
    match pump_step(&mut sub, &hub) {
        PumpAction::Forward(f) => assert!(f.contains("\"body\":\"hi\"")),
        other => panic!("expected a forwarded frame, got {:?}", other),
    }

    let mut lagging = Subscription { cursor: 0 };
    for k in 0..(BUS_CAPACITY + 2) {
        hub.handle_frame(&u1, &new_message_frame(&format!("x{}", k)), 0);
    }
    match pump_step(&mut lagging, &hub) {
        PumpAction::CloseLagged(f) => {
            assert_eq!(f, "{\"status\":\"error\",\"message\":\"lagged\"}")
        }
        other => panic!("expected the lag close, got {:?}", other),
    }

    let mut done = hub.subscribe();
    hub.bus.close();
    assert_eq!(pump_step(&mut done, &hub), PumpAction::Stop);
}

#[test]
fn session_lifecycle_table() {
    assert_eq!(session_transition(Upgrading, UpgradeRequested), Authenticating);
    assert_eq!(session_transition(Authenticating, CredentialOk), Active);
    assert_eq!(session_transition(Authenticating, CredentialBad), Rejected);
    assert_eq!(session_transition(Active, ClientClosed), Closing);
    assert_eq!(session_transition(Active, SendFailed), Closing);
    assert_eq!(session_transition(Active, InboundEnded), Closing);
    assert_eq!(session_transition(Active, LaggedOut), Closing);
    assert_eq!(session_transition(Closing, CloseDone), Terminated);
    // A quiet session is not closed for being quiet.
    assert_eq!(session_transition(Active, UpgradeRequested), Active);
}

#[test]
fn store_assigns_increasing_ids_and_descending_history() {
    let mut store = MessageStore::new();
    let email = "a@b.c".to_string();
    let name = "ab".to_string();
    let m1 = store.append(&email, &name, &"one".to_string(), 100).unwrap();
    let m2 = store.append(&email, &name, &"two".to_string(), 50).unwrap();
    assert_eq!(m1.id, 1);
    assert_eq!(m2.id, 2);
    // The clock never runs backwards.
    assert_eq!(m1.time, 100);
    assert_eq!(m2.time, 100);

    let all = store.fetch_all();
    assert_eq!(all.len(), 2);
    assert_eq!(all[0].id, 2);
    assert_eq!(all[1].id, 1);
    assert!(all[0].time >= all[1].time);

    assert_eq!(store.fetch_by_id(1).unwrap().message, "one");
    assert!(store.fetch_by_id(3).is_none());

    assert!(store.delete_by_id(1));
    assert!(!store.delete_by_id(1));
    assert_eq!(store.fetch_all().len(), 1);
}

#[test]
fn store_rejects_empty_body() {
    let mut store = MessageStore::new();
    let r = store.append(&"a".to_string(), &"b".to_string(), &"".to_string(), 0);
    assert_eq!(r, Err(StoreError::InvalidArgument));
    assert!(store.fetch_all().is_empty());
}

#[test]
fn bus_delivers_in_publish_order() {
    let mut bus = Bus::new();
    let mut sub = bus.subscribe();
    bus.publish(OutgoingMessage::Delete { message_id: 1 });
    bus.publish(OutgoingMessage::Delete { message_id: 2 });
    let (events, lagged) = sub.drain(&bus);
    assert!(!lagged);
    assert_eq!(
        events,
        vec![
            OutgoingMessage::Delete { message_id: 1 },
            OutgoingMessage::Delete { message_id: 2 }
        ]
    );
    // A subscription only sees what is published after it subscribed.
    let mut late = bus.subscribe();
    assert_eq!(late.recv(&bus), RecvOutcome::Empty);
    bus.close();
    assert_eq!(late.recv(&bus), RecvOutcome::Closed);
}

#[test]
fn identity_fields_never_come_from_the_frame() {
    // The frame cannot smuggle an author: whatever the payload says, the
    // committed row carries the session identity.
    let mut hub = Hub::new();
    let u1 = ident("real@user", "realname");
    let sneaky =
        "{\"action\":\"new_message\",\"payload\":{\"body\":\"hi\"},\"authorId\":\"fake\"}";
    // Members beyond the frame grammar make the frame malformed: ignored.
    let out = hub.handle_frame(&u1, sneaky, 0);
    assert!(out.published.is_none());

    let out = hub.handle_frame(&u1, &new_message_frame("hi"), 0);
    match out.published {
        Some(OutgoingMessage::NewMessage(m)) => {
            assert_eq!(m.email, "real@user");
            assert_eq!(m.username, "realname");
        }
        other => panic!("expected a new-message broadcast, got {:?}", other),
    }
}

#[test]
fn chat_message_duplicate_is_equal() {
    let m = ChatMessage {
        id: 3,
        email: "e".to_string(),
        username: "u".to_string(),
        message: "m".to_string(),
        time: 9,
    };
    assert_eq!(m.duplicate(), m);
}
