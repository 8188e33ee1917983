use hcor::id::{SteaderId, UserId};
use hcor::user_id;

const USER_1: &'static str = "U1";

fn uuid() -> SteaderId {
    SteaderId(uuid::Uuid::new_v4().as_u128())
}

#[test]
fn id_slack_id_fetching() {
    let s = UserId::Slack(USER_1.to_string());
    assert_eq!(s.uuid(), None, "slack only id should not have uuid");
    assert_eq!(
        s.slack(),
        Some(USER_1),
        "slack only id doesn't store user properly"
    );
}

#[test]
fn id_uuid_id_fetching() {
    let id = uuid();
    let e = UserId::Uuid(id);
    assert_eq!(e.uuid(), Some(id), "uuid only id doesn't store uuid properly");
    assert_eq!(e.slack(), None, "uuid only id shouldn't have slack");
}

#[test]
fn id_both_id_fetching() {
    let id = uuid();
    let both = UserId::Both {
        slack: USER_1.to_string(),
        uuid: id,
    };
    assert_eq!(
        both.slack(),
        Some(USER_1),
        "both id doesn't store slack properly"
    );
    assert_eq!(both.uuid(), Some(id), "both id doesn't store uuid properly");
}

#[test]
fn user_id_slack_id_fetching() {
    let s = user_id::UserId::Slack(USER_1.to_string());
    assert_eq!(s.uuid(), None, "slack only id should not have uuid");
    assert_eq!(
        s.slack(),
        Some(USER_1),
        "slack only id doesn't store user properly"
    );
}

#[test]
fn user_id_uuid_id_fetching() {
    let id = uuid::Uuid::new_v4().as_u128();
    let e = user_id::UserId::Uuid(id);
    assert_eq!(e.uuid(), Some(id), "uuid only id doesn't store uuid properly");
    assert_eq!(e.slack(), None, "uuid only id shouldn't have slack");
}

#[test]
fn user_id_both_id_fetching() {
    let id = uuid::Uuid::new_v4().as_u128();
    let both = user_id::UserId::Both {
        slack: USER_1.to_string(),
        uuid: id,
    };
    assert_eq!(
        both.slack(),
        Some(USER_1),
        "both id doesn't store slack properly"
    );
    assert_eq!(both.uuid(), Some(id), "both id doesn't store uuid properly");
}

#[test]
fn uuid_or_else_prefers_the_coined_id() {
    let id = uuid();
    let both = UserId::Both { slack: USER_1.to_string(), uuid: id };
    assert_eq!(both.uuid_or_else(|_| SteaderId(7)), id);
    let slack = UserId::Slack(USER_1.to_string());
    assert_eq!(slack.uuid_or_else(|s| SteaderId(s.len() as u128)), SteaderId(2));
}
