use hcor::wormhole::connection::{
    ask_sent, disconnect, handler_verdict, heartbeat, pop_note, route, send_ask, should_connect,
    stream_finished, stream_started, ConnectionFailure, ContinueBehavior, GreedyAction, Phase,
    PopOutcome,
};
use hcor::wormhole::connection::asked_note_for;
use hcor::wormhole::{Ask, AskedNote, ItemAsk, Note, SERVER_TIMEOUT_SECS};
use hcor::hackstead::item;

fn spawn_ask() -> Ask {
    Ask::Item(ItemAsk::Spawn { item_conf: item::Conf(3), amount: 2 })
}

#[test]
fn only_a_connected_connection_pops_notes() {
    assert_eq!(pop_note(Phase::Connected), PopOutcome::PopFront);
    assert_eq!(pop_note(Phase::WebsocketsConnected), PopOutcome::Nothing);
    assert_eq!(pop_note(Phase::ConnectionLost), PopOutcome::Fail(ConnectionFailure::ConnectionLost));
    assert_eq!(pop_note(Phase::NotConnected), PopOutcome::Fail(ConnectionFailure::NeverConnected));
}

#[test]
fn asks_are_numbered_by_how_many_went_before() {
    let m = send_ask(Phase::Connected, 7, spawn_ask()).unwrap();
    assert_eq!(m.ask_id, 7);
    assert!(matches!(m.ask, Ask::Item(ItemAsk::Spawn { amount: 2, .. })));
    assert_eq!(ask_sent(7), 8);
    assert!(matches!(send_ask(Phase::ConnectionLost, 7, spawn_ask()), Err(ConnectionFailure::ConnectionLost)));
    assert!(matches!(send_ask(Phase::NotConnected, 7, spawn_ask()), Err(ConnectionFailure::NeverConnected)));
    assert!(matches!(send_ask(Phase::WebsocketsConnected, 7, spawn_ask()), Err(ConnectionFailure::NeverConnected)));
}

#[test]
fn phases_follow_events() {
    assert_eq!(disconnect(Phase::Connected), (Phase::ConnectionLost, true));
    assert_eq!(disconnect(Phase::NotConnected), (Phase::NotConnected, false));
    let limit = SERVER_TIMEOUT_SECS as u128 * 1_000_000_000;
    assert_eq!(heartbeat(Phase::Connected, limit), (Phase::Connected, true));
    assert_eq!(heartbeat(Phase::Connected, limit + 1), (Phase::ConnectionLost, true));
    assert_eq!(heartbeat(Phase::WebsocketsConnected, limit + 1), (Phase::WebsocketsConnected, false));
    assert_eq!(stream_started(Phase::NotConnected), Phase::WebsocketsConnected);
    assert_eq!(stream_started(Phase::Connected), Phase::Connected);
    assert_eq!(stream_finished(Phase::Connected), Phase::ConnectionLost);
    assert!(should_connect(Phase::NotConnected));
    assert!(should_connect(Phase::ConnectionLost));
    assert!(!should_connect(Phase::Connected));
    assert!(!should_connect(Phase::WebsocketsConnected));
}

#[test]
fn notes_go_to_the_first_handler_that_claims_them() {
    assert_eq!(handler_verdict(Some(ContinueBehavior::Pass), 3), None);
    assert_eq!(handler_verdict(Some(ContinueBehavior::Consume), 3), Some(GreedyAction::Consume));
    assert_eq!(handler_verdict(None, 3), Some(GreedyAction::Take(3)));
    let pass = Some(ContinueBehavior::Pass);
    assert_eq!(route(&[]), None);
    assert_eq!(route(&[pass, pass]), None);
    assert_eq!(route(&[pass, None, Some(ContinueBehavior::Consume)]), Some(GreedyAction::Take(1)));
    assert_eq!(route(&[pass, Some(ContinueBehavior::Consume), None]), Some(GreedyAction::Consume));
}

#[test]
fn asked_notes_report_their_errors() {
    let failed = AskedNote::PlantNicknameResult(Err("no such plant".to_string()));
    assert_eq!(failed.err(), Some("no such plant"));
    let fine = AskedNote::KnowledgeSnortResult(Ok(40));
    assert_eq!(fine.err(), None);
}

#[test]
fn answers_are_matched_to_their_ask() {
    let note = Note::Asked { note: AskedNote::KnowledgeSnortResult(Ok(5)), ask_id: 4 };
    assert!(matches!(asked_note_for(&note, 4), Some(AskedNote::KnowledgeSnortResult(Ok(5)))));
    assert!(asked_note_for(&note, 3).is_none());
    let edit = Note::Edit(hcor::wormhole::EditNote::Json("{}".to_string()));
    assert!(asked_note_for(&edit, 4).is_none());
}
