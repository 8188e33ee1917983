//! How to reach a user: by email, by slack, or both.

use vstd::prelude::*;

verus! {

#[derive(Clone, Debug)]
pub enum UserContact {
    /// A user known only by their email.
    Email(String),
    /// A user known only by their slack id.
    Slack(String),
    /// A user known by both their slack id and their email.
    Both { email: String, slack: String },
}

impl UserContact {
    /// The email of this contact, if it has one.
    pub open spec fn email_spec(&self) -> Option<Seq<char>> {
        match self {
            UserContact::Email(s) => Some(s@),
            UserContact::Both { email, .. } => Some(email@),
            UserContact::Slack(_) => None,
        }
    }

    /// The slack id of this contact, if it has one.
    pub open spec fn slack_spec(&self) -> Option<Seq<char>> {
        match self {
            UserContact::Slack(s) => Some(s@),
            UserContact::Both { slack, .. } => Some(slack@),
            UserContact::Email(_) => None,
        }
    }

    /// Returns an email for a user, if available.
    pub fn email(&self) -> (r: Option<&str>)
        ensures
            r matches Some(s) ==> self.email_spec() == Some(s@),
            r is None ==> self.email_spec() is None,
    {
        match self {
            UserContact::Email(s) => Some(s.as_str()),
            UserContact::Both { email, .. } => Some(email.as_str()),
            _ => None,
        }
    }

    /// Returns a slack id for a user, if available.
    pub fn slack(&self) -> (r: Option<&str>)
        ensures
            r matches Some(s) ==> self.slack_spec() == Some(s@),
            r is None ==> self.slack_spec() is None,
    {
        match self {
            UserContact::Slack(s) => Some(s.as_str()),
            UserContact::Both { slack, .. } => Some(slack.as_str()),
            _ => None,
        }
    }
}

} // verus!
