//! A user identified by a raw UUID, a slack id, or both.

use vstd::prelude::*;

verus! {

/// Identifies a user. They can be identified by their Slack id, or by an id that we coined.
/// The coined id is held as the 128 bits of a UUID.
#[derive(Clone, Debug)]
pub enum UserId {
    /// A user known only by an id we coined for them.
    Uuid(u128),
    /// A user known only by their slack id.
    Slack(String),
    /// A user known by both their slack id and their uuid.
    Both { uuid: u128, slack: String },
}

impl UserId {
    /// The coined id of this user, if they have one.
    pub open spec fn uuid_spec(&self) -> Option<u128> {
        match self {
            UserId::Uuid(u) => Some(*u),
            UserId::Both { uuid, .. } => Some(*uuid),
            UserId::Slack(_) => None,
        }
    }

    /// The slack id of this user, if they have one.
    pub open spec fn slack_spec(&self) -> Option<Seq<char>> {
        match self {
            UserId::Slack(s) => Some(s@),
            UserId::Both { slack, .. } => Some(slack@),
            UserId::Uuid(_) => None,
        }
    }

    /// Returns an ID that we coined for a user, if available.
    pub fn uuid(&self) -> (r: Option<u128>)
        ensures
            r == self.uuid_spec(),
    {
        match self {
            UserId::Uuid(uuid) => Some(*uuid),
            UserId::Both { uuid, .. } => Some(*uuid),
            _ => None,
        }
    }

    /// Returns the coined id, or asks `f` to make one from the slack id.
    pub fn uuid_or_else<F: FnOnce(&str) -> u128>(&self, f: F) -> (r: u128)
        requires
            forall|s: &str| self is Slack && s@ == self->Slack_0@ ==> call_requires(f, (s,)),
        ensures
            self.uuid_spec() matches Some(u) ==> r == u,
            self is Slack ==> exists|s: &str| s@ == self->Slack_0@ && call_ensures(f, (s,), r),
    {
        match self {
            UserId::Uuid(uuid) => *uuid,
            UserId::Both { uuid, .. } => *uuid,
            UserId::Slack(slack) => f(slack.as_str()),
        }
    }

    /// Returns a slack id for a user, if available.
    pub fn slack(&self) -> (r: Option<&str>)
        ensures
            r matches Some(s) ==> self.slack_spec() == Some(s@),
            r is None ==> self.slack_spec() is None,
    {
        match self {
            UserId::Slack(slack) => Some(slack.as_str()),
            UserId::Both { slack, .. } => Some(slack.as_str()),
            _ => None,
        }
    }
}

} // verus!
