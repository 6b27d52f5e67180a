use gchat::{
    gate_begin, gate_on_membership, gate_on_subject, handle_stored,
    ConnectionRegistry, DispatchOutcome, ExitAction, GateStep, Inbound, LoopSide, Message,
    Phase, ReadStep, Rejection, Session, StoreError, Timestamp,
};
use tokio::sync::mpsc::{unbounded_channel, UnboundedReceiver, UnboundedSender};

fn queue() -> (UnboundedSender<String>, UnboundedReceiver<String>) {
    unbounded_channel::<String>()
}

fn drain(rx: &mut UnboundedReceiver<String>) -> Vec<String> {
    let mut frames = Vec::new();
    while let Ok(frame) = rx.try_recv() {
        frames.push(frame);
    }
    frames
}

fn stored(id: i32, group_id: i32, user_id: i32, username: &str, content: &str, secs: i64) -> Message {
    Message {
        id,
        content: content.to_string(),
        user_id,
        username: username.to_string(),
        timestamp: Timestamp::from_unix(secs, 0).unwrap(),
        profile_picture: None,
        group_id,
    }
}

fn joined(registry: &mut ConnectionRegistry, id: u128, group_id: i32, user_id: i32) -> (Session, UnboundedReceiver<String>) {
    let (out, rx) = queue();
    let mut session = Session::connecting(id, group_id);
    session.join(user_id, registry, out);
    (session, rx)
}

fn send(registry: &mut ConnectionRegistry, session: &Session, body: &str, stored_as: Result<Message, StoreError>) -> Option<usize> {
    match session.on_inbound(Inbound::Text(body.to_string())) {
        ReadStep::Append(req) => {
            assert_eq!(req.user_id, session.user_id());
            assert_eq!(req.group_id, session.group_id());
            assert_eq!(req.content, body);
            match handle_stored(registry, req.group_id, stored_as) {
                DispatchOutcome::Broadcast(report) => Some(report.len()),
                DispatchOutcome::Dropped => None,
            }
        }
        _ => panic!("a registered session dispatches text frames"),
    }
}

#[test]
fn two_members_then_one_leaves() {
    let mut registry = ConnectionRegistry::new();
    let (a, mut rx_a) = joined(&mut registry, 1, 7, 100);
    let (mut b, mut rx_b) = joined(&mut registry, 2, 7, 200);
    assert_eq!(registry.snapshot(7), 2);

    let hi = stored(41, 7, 100, "alice", "hi", 1_700_000_000);
    assert_eq!(send(&mut registry, &a, "hi", Ok(hi)), Some(2));
    let got_a = drain(&mut rx_a);
    let got_b = drain(&mut rx_b);
    assert_eq!(got_a.len(), 1);
    assert_eq!(got_a, got_b);
    assert!(got_a[0].contains("\"group_id\":7"));
    assert!(got_a[0].contains("\"content\":\"hi\""));
    assert!(got_a[0].contains("\"id\":41"));
    assert!(got_a[0].contains("\"timestamp\":\"2023-11-14T22:13:20+00:00\""));

    assert_eq!(b.on_loop_exit(LoopSide::Read, &mut registry), ExitAction::StopOther(LoopSide::Write));
    assert_eq!(b.phase(), Phase::Draining);
    drop(rx_b);
    assert_eq!(b.on_loop_exit(LoopSide::Write, &mut registry), ExitAction::Finished);
    assert_eq!(b.phase(), Phase::Closed);

    let bye = stored(42, 7, 100, "alice", "bye", 1_700_000_001);
    assert_eq!(send(&mut registry, &a, "bye", Ok(bye)), Some(1));
    let got_a = drain(&mut rx_a);
    assert_eq!(got_a.len(), 1);
    assert!(got_a[0].contains("\"content\":\"bye\""));
    assert_eq!(registry.snapshot(7), 1);
}

#[test]
fn expired_token_is_refused_before_any_registration() {
    let mut registry = ConnectionRegistry::new();
    let (_member, _rx) = joined(&mut registry, 1, 7, 100);
    let before = registry.snapshot(7);

    let mut claims = serde_json::Map::new();
    claims.insert("sub".to_string(), serde_json::Value::from("200"));
    claims.insert("exp".to_string(), serde_json::Value::from(1_000_000u64));
    let key = b"secret-key";
    let token = jsonwebtoken::encode(
        &jsonwebtoken::Header::default(),
        &serde_json::Value::Object(claims),
        &jsonwebtoken::EncodingKey::from_secret(key),
    )
    .unwrap();

    let mut session = Session::connecting(2, 7);
    let token = match gate_begin(Some(token), 7) {
        GateStep::ResolveToken { token, group_id } => {
            assert_eq!(group_id, 7);
            token
        }
        _ => panic!("a token is presented"),
    };
    let decoded = jsonwebtoken::decode::<serde_json::Value>(
        &token,
        &jsonwebtoken::DecodingKey::from_secret(key),
        &jsonwebtoken::Validation::default(),
    );
    assert!(decoded.is_err());
    let subject: Option<&str> = None;
    match gate_on_subject(subject, 7) {
        GateStep::Reject(reason) => {
            assert_eq!(reason, Rejection::InvalidToken);
            session.refuse();
        }
        _ => panic!("an expired token is refused"),
    }
    assert_eq!(session.phase(), Phase::Closed);
    assert_eq!(registry.snapshot(7), before);
}

#[test]
fn store_failure_reaches_nobody_and_session_stays_open() {
    let mut registry = ConnectionRegistry::new();
    let (a, mut rx_a) = joined(&mut registry, 1, 7, 100);
    let (_b, mut rx_b) = joined(&mut registry, 2, 7, 200);

    assert_eq!(send(&mut registry, &a, "lost", Err(StoreError)), None);
    assert!(drain(&mut rx_a).is_empty());
    assert!(drain(&mut rx_b).is_empty());
    assert_eq!(a.phase(), Phase::Registered);

    let next = stored(5, 7, 100, "alice", "again", 10);
    assert_eq!(send(&mut registry, &a, "again", Ok(next)), Some(2));
    assert_eq!(drain(&mut rx_a).len(), 1);
    assert_eq!(drain(&mut rx_b).len(), 1);
}

#[test]
fn groups_vanish_when_their_last_connection_leaves() {
    let mut registry = ConnectionRegistry::new();
    let (out1, _rx1) = queue();
    let (out2, _rx2) = queue();
    let (out3, _rx3) = queue();
    registry.register(7, 1, out1);
    registry.register(7, 2, out2);
    registry.register(8, 3, out3);
    assert_eq!(registry.snapshot(7), 2);
    assert_eq!(registry.snapshot(8), 1);
    assert!(registry.deregister(7, 1));
    assert_eq!(registry.snapshot(7), 1);
    assert!(registry.deregister(7, 2));
    assert_eq!(registry.snapshot(7), 0);
    assert!(!registry.deregister(7, 2));
    assert!(!registry.deregister(9, 3));
    assert_eq!(registry.snapshot(8), 1);
    let frame = "x".to_string();
    assert!(registry.broadcast(7, &frame).is_empty());
}

#[test]
fn registering_again_moves_the_connection() {
    let mut registry = ConnectionRegistry::new();
    let (out1, mut rx1) = queue();
    let (out1b, mut rx1b) = queue();
    registry.register(7, 1, out1);
    registry.register(8, 1, out1b);
    assert_eq!(registry.snapshot(7), 0);
    assert_eq!(registry.snapshot(8), 1);
    let frame = "f".to_string();
    assert_eq!(registry.broadcast(7, &frame).len(), 0);
    let report = registry.broadcast(8, &frame);
    assert_eq!(report.len(), 1);
    assert_eq!(report[0].connection, 1);
    assert!(drain(&mut rx1).is_empty());
    assert_eq!(drain(&mut rx1b), vec!["f".to_string()]);
}

#[test]
fn broadcast_reaches_each_member_once() {
    let mut registry = ConnectionRegistry::new();
    let mut receivers = Vec::new();
    for id in 1..=3u128 {
        let (out, rx) = queue();
        registry.register(7, id, out);
        receivers.push(rx);
    }
    let (other, mut rx_other) = queue();
    registry.register(8, 9, other);
    let frame = "hello".to_string();
    let report = registry.broadcast(7, &frame);
    let mut ids: Vec<u128> = report.iter().map(|d| d.connection).collect();
    ids.sort();
    assert_eq!(ids, vec![1, 2, 3]);
    assert!(report.iter().all(|d| d.accepted));
    for rx in receivers.iter_mut() {
        assert_eq!(drain(rx), vec!["hello".to_string()]);
    }
    assert!(drain(&mut rx_other).is_empty());
}

#[test]
fn closed_queue_does_not_stop_the_others() {
    let mut registry = ConnectionRegistry::new();
    let (out1, rx1) = queue();
    let (out2, mut rx2) = queue();
    registry.register(7, 1, out1);
    registry.register(7, 2, out2);
    drop(rx1);
    let frame = "m".to_string();
    let report = registry.broadcast(7, &frame);
    assert_eq!(report.len(), 2);
    for d in report.iter() {
        assert_eq!(d.accepted, d.connection == 2);
    }
    assert_eq!(drain(&mut rx2), vec!["m".to_string()]);
}

#[test]
fn deregistered_connection_gets_nothing_more() {
    let mut registry = ConnectionRegistry::new();
    let (out1, mut rx1) = queue();
    let (out2, mut rx2) = queue();
    registry.register(7, 1, out1);
    registry.register(7, 2, out2);
    registry.deregister(7, 1);
    let frame = "later".to_string();
    let report = registry.broadcast(7, &frame);
    assert_eq!(report.len(), 1);
    assert_eq!(report[0].connection, 2);
    assert!(drain(&mut rx1).is_empty());
    assert_eq!(drain(&mut rx2), vec!["later".to_string()]);
}

#[test]
fn back_to_back_sends_keep_their_order() {
    let mut registry = ConnectionRegistry::new();
    let (a, mut rx_a) = joined(&mut registry, 1, 7, 100);
    let (_b, mut rx_b) = joined(&mut registry, 2, 7, 200);
    let first = stored(1, 7, 100, "alice", "first", 100);
    let second = stored(2, 7, 100, "alice", "second", 101);
    send(&mut registry, &a, "first", Ok(first));
    send(&mut registry, &a, "second", Ok(second));
    for rx in [&mut rx_a, &mut rx_b] {
        let got = drain(rx);
        assert_eq!(got.len(), 2);
        assert!(got[0].contains("\"content\":\"first\""));
        assert!(got[1].contains("\"content\":\"second\""));
    }
}

#[test]
fn session_lifecycle_write_side_first() {
    let mut registry = ConnectionRegistry::new();
    let mut session = Session::connecting(5, 3);
    assert_eq!(session.phase(), Phase::Connecting);
    let (out, _rx) = queue();
    session.join(77, &mut registry, out);
    assert_eq!(session.phase(), Phase::Registered);
    assert_eq!(session.user_id(), 77);
    assert_eq!(session.connection_id(), 5);
    assert_eq!(registry.snapshot(3), 1);
    assert_eq!(session.on_loop_exit(LoopSide::Write, &mut registry), ExitAction::StopOther(LoopSide::Read));
    assert_eq!(registry.snapshot(3), 0);
    assert!(matches!(session.on_inbound(Inbound::Text("late".to_string())), ReadStep::Stop));
    assert_eq!(session.on_loop_exit(LoopSide::Write, &mut registry), ExitAction::Nothing);
    assert_eq!(session.on_loop_exit(LoopSide::Read, &mut registry), ExitAction::Finished);
    assert_eq!(session.phase(), Phase::Closed);
}

#[test]
fn non_text_frames_are_ignored_and_close_ends_reading() {
    let mut registry = ConnectionRegistry::new();
    let (session, _rx) = joined(&mut registry, 1, 7, 100);
    assert!(matches!(session.on_inbound(Inbound::Binary), ReadStep::Continue));
    assert!(matches!(session.on_inbound(Inbound::Ping), ReadStep::Continue));
    assert!(matches!(session.on_inbound(Inbound::Pong), ReadStep::Continue));
    assert!(matches!(session.on_inbound(Inbound::Close), ReadStep::Stop));
    assert!(matches!(session.on_inbound(Inbound::Failed), ReadStep::Stop));
}

#[test]
fn gate_steps() {
    assert!(matches!(gate_begin(None, 7), GateStep::Reject(Rejection::MissingToken)));
    assert!(matches!(gate_on_subject(Some("12"), 7), GateStep::CheckMembership { user_id: 12, group_id: 7 }));
    assert!(matches!(gate_on_subject(Some("alice"), 7), GateStep::Reject(Rejection::InvalidToken)));
    assert!(matches!(gate_on_subject(None, 7), GateStep::Reject(Rejection::InvalidToken)));
    match gate_on_membership(12, 7, true) {
        GateStep::Admit(a) => {
            assert_eq!(a.user_id, 12);
            assert_eq!(a.group_id, 7);
        }
        _ => panic!("a member is let in"),
    }
    assert!(matches!(gate_on_membership(12, 7, false), GateStep::Reject(Rejection::NotMember)));
    assert_eq!(Rejection::MissingToken.reason(), "Missing authentication token");
    assert_eq!(Rejection::InvalidToken.reason(), "Invalid token");
    assert_eq!(Rejection::NotMember.reason(), "Not a member of this group");
}

#[test]
fn accepted_sessions_get_distinct_ids() {
    let a = Session::accept(7);
    let b = Session::accept(7);
    assert_ne!(a.connection_id(), b.connection_id());
    assert_eq!(a.group_id(), 7);
    assert_eq!(a.phase(), Phase::Connecting);
}
