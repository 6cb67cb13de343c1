//! What the daemon does when the messaging platform tells it of an event:
//! a reaction to the roles message gives or takes the role that the reaction
//! stands for.
use crate::context::{Data, ReactionKey, ReactionType};
use crate::ids::ROLES_MESSAGE_ID;
use vstd::prelude::*;

verus! {

/// A reaction that a member added to a message or took off it.
#[derive(Clone, Debug)]
pub struct Reaction {
    /// The message that was reacted to.
    pub message_id: u64,
    /// What the member reacted with.
    pub emoji: ReactionType,
    /// The guild of the message, if it was sent in one.
    pub guild_id: Option<u64>,
    /// The member who reacted, if the platform said who.
    pub user_id: Option<u64>,
}

/// An event of the messaging platform.
#[derive(Clone, Debug)]
pub enum FullEvent {
    ReactionAdd { add_reaction: Reaction },
    ReactionRemove { removed_reaction: Reaction },
    /// Any other event.
    Other,
}

/// A role to give to a member of a guild, or to take from the member.
#[derive(Clone, Copy, Debug, PartialEq, Eq, Structural)]
pub struct RoleChange {
    pub guild_id: u64,
    pub user_id: u64,
    pub role_id: u64,
    /// Whether the role is given; it is taken otherwise.
    pub add: bool,
}

/// A reaction counts if it was made to the roles message with an emoji
/// that stands for a role.
pub open spec fn relevant(message_id: u64, emoji: ReactionKey, roles: Map<ReactionKey, u64>) -> bool {
    message_id == ROLES_MESSAGE_ID && roles.contains_key(emoji)
}

/// What a reaction asks for: nothing unless the reaction counts and names
/// both guild and member; else the role that its emoji stands for, given
/// where the reaction was added and taken where it was removed.
pub open spec fn role_change(
    message_id: u64,
    emoji: ReactionKey,
    guild_id: Option<u64>,
    user_id: Option<u64>,
    roles: Map<ReactionKey, u64>,
    is_add: bool,
) -> Option<RoleChange> {
    if relevant(message_id, emoji, roles) && guild_id is Some && user_id is Some {
        Some(
            RoleChange {
                guild_id: guild_id->0,
                user_id: user_id->0,
                role_id: roles[emoji],
                add: is_add,
            },
        )
    } else {
        None
    }
}

/// Whether a reaction was made to the roles message with an emoji that
/// stands for a role.
pub fn is_relevant_reaction(message_id: u64, emoji: &ReactionType, data: &Data) -> (b: bool)
    ensures
        b == relevant(message_id, emoji@, data.reaction_roles@),
{
    message_id == ROLES_MESSAGE_ID && data.reaction_roles.contains_key(emoji)
}

/// Decides what a reaction asks for. The caller looks the member up and,
/// if the member is found, gives or takes the role.
pub fn handle_reaction(reaction: &Reaction, data: &Data, is_add: bool) -> (change: Option<
    RoleChange,
>)
    ensures
        change == role_change(
            reaction.message_id,
            reaction.emoji@,
            reaction.guild_id,
            reaction.user_id,
            data.reaction_roles@,
            is_add,
        ),
{
    if !is_relevant_reaction(reaction.message_id, &reaction.emoji, data) {
        return None;
    }
    let guild_id = match reaction.guild_id {
        Some(id) => id,
        None => {
            return None;
        },
    };
    let user_id = match reaction.user_id {
        Some(id) => id,
        None => {
            return None;
        },
    };
    let role_id = match data.reaction_roles.get(&reaction.emoji) {
        Some(id) => id,
        None => {
            return None;
        },
    };
    Some(RoleChange { guild_id, user_id, role_id, add: is_add })
}

/// What an event asks for.
pub open spec fn event_change(event: FullEvent, roles: Map<ReactionKey, u64>) -> Option<
    RoleChange,
> {
    match event {
        FullEvent::ReactionAdd { add_reaction } => role_change(
            add_reaction.message_id,
            add_reaction.emoji@,
            add_reaction.guild_id,
            add_reaction.user_id,
            roles,
            true,
        ),
        FullEvent::ReactionRemove { removed_reaction } => role_change(
            removed_reaction.message_id,
            removed_reaction.emoji@,
            removed_reaction.guild_id,
            removed_reaction.user_id,
            roles,
            false,
        ),
        FullEvent::Other => None,
    }
}

/// Decides what an event asks for: an added reaction may give a role, a
/// removed one may take it, and no other event asks for anything.
pub fn event_handler(event: &FullEvent, data: &Data) -> (change: Option<RoleChange>)
    ensures
        change == event_change(*event, data.reaction_roles@),
{
    match event {
        FullEvent::ReactionAdd { add_reaction } => handle_reaction(add_reaction, data, true),
        FullEvent::ReactionRemove { removed_reaction } => handle_reaction(
            removed_reaction,
            data,
            false,
        ),
        FullEvent::Other => None,
    }
}

} // verus!
