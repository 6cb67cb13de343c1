//! The command that puts a member on the exclusion list or takes the member
//! off it.
use crate::utils::storage::{listed_ids, toggle_store, toggled, toggled_store};
use crate::utils::words::{decimal_u64_word, parse_u64_word, split_whitespace, words};
use vstd::prelude::*;

verus! {

/// What the command answers.
#[derive(Clone, Copy, Debug, PartialEq, Eq)]
pub enum ToggleReply {
    /// The message names no user.
    MissingUser,
    /// The word after the command is no user identifier.
    InvalidUser,
    /// The user was on the exclusion list and has been taken off it.
    Removed,
    /// The user was not on the exclusion list and has been put on it.
    Added,
}

impl ToggleReply {
    /// The text of the answer.
    pub open spec fn text(self) -> Seq<char> {
        match self {
            ToggleReply::MissingUser => "Please specify a user to toggle exclusion"@,
            ToggleReply::InvalidUser => "Invalid user ID"@,
            ToggleReply::Removed => "User has been removed from the exclusion list"@,
            ToggleReply::Added => "User has been added to the exclusion list"@,
        }
    }

    /// The text of the answer.
    pub fn message(&self) -> (m: &'static str)
        ensures
            m@ == self.text(),
    {
        match self {
            ToggleReply::MissingUser => "Please specify a user to toggle exclusion",
            ToggleReply::InvalidUser => "Invalid user ID",
            ToggleReply::Removed => "User has been removed from the exclusion list",
            ToggleReply::Added => "User has been added to the exclusion list",
        }
    }
}

/// What the command leaves to be done: the answer to send and, where the
/// list changed, the text to store in place of the old one.
#[derive(Debug, PartialEq, Eq)]
pub struct ToggleOutcome {
    pub reply: ToggleReply,
    pub store: Option<Vec<u8>>,
}

/// The user that a message asks to toggle: the second word of the message,
/// read as a decimal number other than zero. Without a second word the
/// answer is `MissingUser`; with one that is no such number, `InvalidUser`.
pub open spec fn requested_user(content: Seq<char>) -> Result<u64, ToggleReply> {
    let args = words(content);
    if args.len() < 2 {
        Err(ToggleReply::MissingUser)
    } else {
        match decimal_u64_word(args[1]) {
            Some(id) => if id == 0 {
                Err(ToggleReply::InvalidUser)
            } else {
                Ok(id)
            },
            None => Err(ToggleReply::InvalidUser),
        }
    }
}

/// The answer after `id` was toggled in a list that held `before`.
pub open spec fn toggle_reply(before: Set<u64>, id: u64) -> ToggleReply {
    if before.contains(id) {
        ToggleReply::Removed
    } else {
        ToggleReply::Added
    }
}

/// Toggles whether a user is left out of the status-update report.
pub struct ToggleExclusionCommand;

impl ToggleExclusionCommand {
    /// The word that calls the command.
    pub fn name(&self) -> (r: &'static str)
        ensures
            r@ == "toggle_exclusion"@,
    {
        "toggle_exclusion"
    }

    /// What the command is for.
    pub fn description(&self) -> (r: &'static str)
        ensures
            r@ == "Toggles exclusion of a user from the status update report."@,
    {
        "Toggles exclusion of a user from the status update report."
    }

    /// Reads from a message which user it asks to toggle.
    pub fn target(&self, content: &str) -> (r: Result<u64, ToggleReply>)
        ensures
            r == requested_user(content@),
    {
        let args = split_whitespace(content);
        if args.len() < 2 {
            return Err(ToggleReply::MissingUser);
        }
        match parse_u64_word(&args[1]) {
            Some(id) => {
                if id == 0 {
                    Err(ToggleReply::InvalidUser)
                } else {
                    Ok(id)
                }
            },
            None => Err(ToggleReply::InvalidUser),
        }
    }

    /// Toggles `user_id` in the list that `store` holds.
    pub fn toggle(&self, store: &[u8], user_id: u64) -> (outcome: ToggleOutcome)
        ensures
            outcome.reply == toggle_reply(listed_ids(store@), user_id),
            outcome.store matches Some(text) && text@ == toggled_store(store@, user_id)
                && listed_ids(text@) == toggled(listed_ids(store@), user_id),
    {
        let (text, now_excluded) = toggle_store(store, user_id);
        let reply = if now_excluded {
            ToggleReply::Added
        } else {
            ToggleReply::Removed
        };
        ToggleOutcome { reply, store: Some(text) }
    }

    /// Carries out the command that a message holds, on the list that
    /// `store` holds. A message that names no valid user changes nothing.
    pub fn execute(&self, content: &str, store: &[u8]) -> (outcome: ToggleOutcome)
        ensures
            match requested_user(content@) {
                Ok(id) => {
                    &&& outcome.reply == toggle_reply(listed_ids(store@), id)
                    &&& outcome.store matches Some(text) && text@ == toggled_store(store@, id)
                },
                Err(reply) => outcome.reply == reply && outcome.store is None,
            },
    {
        match self.target(content) {
            Ok(id) => self.toggle(store, id),
            Err(reply) => ToggleOutcome { reply, store: None },
        }
    }
}

} // verus!
