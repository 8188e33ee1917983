use hcor::wormhole::connection::{
    Connection, ConnectionFailure, ContinueBehavior, FrameError, GreedyAction, Phase, ReceiveError,
    Step,
};
use hcor::wormhole::{Ask, EditNote, ItemAsk, Note, SERVER_TIMEOUT_SECS};
use hcor::hackstead::item;

fn json_note(text: &str) -> Note {
    Note::Edit(EditNote::Json(text.to_string()))
}

fn note_text(n: &Note) -> String {
    match n {
        Note::Edit(EditNote::Json(t)) => t.clone(),
        _ => panic!("not a json edit note"),
    }
}

fn connected_at(now: u128) -> Connection {
    let mut c = Connection::new();
    c.connected(now);
    c
}

#[test]
fn a_new_connection_is_empty_and_unconnected() {
    let c = Connection::new();
    assert_eq!(c.phase, Phase::NotConnected);
    assert_eq!(c.notes.len(), 0);
    assert_eq!(c.handlers.len(), 0);
    assert_eq!(c.asks_sent, 0);
    assert!(c.wants_connection());
}

#[test]
fn unclaimed_notes_queue_and_pop_in_order() {
    let mut c = connected_at(5);
    let step = c.route_step(&[]);
    assert_eq!(step, Step::Decided(None));
    c.deliver(json_note("first"), None);
    c.deliver(json_note("second"), None);
    assert_eq!(c.notes.len(), 2);
    let a = c.pop_note().ok().unwrap().unwrap();
    assert_eq!(note_text(&a), "first");
    let b = c.pop_note().ok().unwrap().unwrap();
    assert_eq!(note_text(&b), "second");
    assert!(matches!(c.pop_note(), Ok(None)));
}

#[test]
fn receiving_errors_queue_and_pop_as_errors() {
    let mut c = connected_at(0);
    c.on_frame_error(FrameError::Utf8("invalid utf-8".to_string()));
    c.deliver(json_note("after"), None);
    match c.pop_note() {
        Err(ReceiveError::Frame(FrameError::Utf8(m))) => assert_eq!(m, "invalid utf-8"),
        _ => panic!("expected the queued error"),
    }
    assert_eq!(note_text(&c.pop_note().ok().unwrap().unwrap()), "after");
}

#[test]
fn popping_outside_a_connection() {
    let mut c = Connection::new();
    c.on_frame_error(FrameError::WebSocket("reset".to_string()));
    assert!(matches!(c.pop_note(), Err(ReceiveError::Connection(ConnectionFailure::NeverConnected))));
    c.started();
    assert_eq!(c.phase, Phase::WebsocketsConnected);
    assert!(matches!(c.pop_note(), Ok(None)));
    c.finished();
    assert!(matches!(c.pop_note(), Err(ReceiveError::Connection(ConnectionFailure::ConnectionLost))));
    assert_eq!(c.notes.len(), 1);
}

#[test]
fn handlers_are_asked_in_order_until_one_claims() {
    let mut c = connected_at(0);
    assert_eq!(c.register_handler(), 0);
    assert_eq!(c.register_handler(), 1);
    assert_eq!(c.register_handler(), 2);
    assert_eq!(c.route_step(&[]), Step::AskHandler(0));
    let pass = Some(ContinueBehavior::Pass);
    assert_eq!(c.route_step(&[pass]), Step::AskHandler(1));
    assert_eq!(c.route_step(&[pass, None]), Step::Decided(Some(GreedyAction::Take(1))));
    assert_eq!(
        c.route_step(&[pass, Some(ContinueBehavior::Consume)]),
        Step::Decided(Some(GreedyAction::Consume))
    );
    assert_eq!(c.route_step(&[pass, pass, pass]), Step::Decided(None));
}

#[test]
fn a_taking_handler_leaves_and_a_consumed_note_is_dropped() {
    let mut c = connected_at(0);
    c.register_handler();
    c.register_handler();
    c.register_handler();
    assert_eq!(c.deliver(json_note("taken"), Some(GreedyAction::Take(1))), Some(1));
    assert_eq!(c.handlers, vec![0, 2]);
    assert_eq!(c.notes.len(), 0);
    assert_eq!(c.deliver(json_note("consumed"), Some(GreedyAction::Consume)), None);
    assert_eq!(c.handlers, vec![0, 2]);
    assert_eq!(c.deliver(json_note("queued"), None), None);
    assert_eq!(c.notes.len(), 1);
    assert_eq!(c.register_handler(), 3);
}

#[test]
fn asks_are_numbered_in_order_and_refusals_change_nothing() {
    let ask = || Ask::Item(ItemAsk::Spawn { item_conf: item::Conf(3), amount: 2 });
    let mut c = Connection::new();
    assert!(matches!(c.ask_message(ask()), Err(ConnectionFailure::NeverConnected)));
    assert_eq!(c.asks_sent, 0);
    c.connected(1);
    let m = c.ask_message(ask()).unwrap();
    assert_eq!(m.ask_id, 0);
    c.ask_written();
    let m = c.ask_message(ask()).unwrap();
    assert_eq!(m.ask_id, 1);
    c.ask_written();
    assert_eq!(c.asks_sent, 2);
    assert!(c.disconnect());
    assert!(matches!(c.ask_message(ask()), Err(ConnectionFailure::ConnectionLost)));
    assert_eq!(c.asks_sent, 2);
    assert!(!c.disconnect());
}

#[test]
fn a_pong_refreshes_the_heartbeat_clock() {
    let limit = (SERVER_TIMEOUT_SECS as u128) * 1_000_000_000;
    let mut c = connected_at(100);
    c.on_pong(200);
    assert_eq!(c.heartbeat_at, 200);
    assert!(c.heartbeat_tick(200 + limit));
    assert_eq!(c.phase, Phase::Connected);
    assert!(c.heartbeat_tick(201 + limit));
    assert_eq!(c.phase, Phase::ConnectionLost);
    c.on_pong(900);
    assert_eq!(c.heartbeat_at, 200);
    assert!(!c.heartbeat_tick(0));
}
