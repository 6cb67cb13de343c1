use amd::context::{ReactionRoles, ReactionType};
use amd::events::{FullEvent, Reaction, RoleChange};
use amd::ids::{DEVOPS_ROLE_ID, ROLES_MESSAGE_ID, WEB_ROLE_ID};
use amd::{event_handler, handle_reaction, is_relevant_reaction, populate_data_with_reaction_roles, Data};
use std::sync::Arc;
use tracing_subscriber::{reload, EnvFilter, Registry};

fn data() -> Data {
    let (_layer, handle): (reload::Layer<EnvFilter, Registry>, _) =
        reload::Layer::new(EnvFilter::new("info"));
    let mut data = Data {
        reaction_roles: ReactionRoles::new(),
        log_reload_handle: Arc::new(tokio::sync::RwLock::new(handle)),
    };
    populate_data_with_reaction_roles(&mut data);
    data
}

fn rocket() -> ReactionType {
    ReactionType::Unicode("\u{1F680}".to_string())
}

fn reaction(message_id: u64, emoji: ReactionType) -> Reaction {
    Reaction { message_id, emoji, guild_id: Some(11), user_id: Some(22) }
}

#[test]
fn reaction_to_the_roles_message_with_a_role_emoji_is_relevant() {
    assert!(is_relevant_reaction(ROLES_MESSAGE_ID, &rocket(), &data()));
}

#[test]
fn reaction_to_another_message_is_not_relevant() {
    assert!(!is_relevant_reaction(ROLES_MESSAGE_ID + 1, &rocket(), &data()));
    assert!(!is_relevant_reaction(0, &rocket(), &data()));
}

#[test]
fn reaction_with_another_emoji_is_not_relevant() {
    let heart = ReactionType::Unicode("\u{2764}".to_string());
    assert!(!is_relevant_reaction(ROLES_MESSAGE_ID, &heart, &data()));
    let custom = ReactionType::Custom { animated: false, id: 1, name: Some("\u{1F680}".to_string()) };
    assert!(!is_relevant_reaction(ROLES_MESSAGE_ID, &custom, &data()));
}

#[test]
fn added_reaction_gives_the_role() {
    assert_eq!(
        handle_reaction(&reaction(ROLES_MESSAGE_ID, rocket()), &data(), true),
        Some(RoleChange { guild_id: 11, user_id: 22, role_id: DEVOPS_ROLE_ID, add: true })
    );
}

#[test]
fn removed_reaction_takes_the_role() {
    assert_eq!(
        handle_reaction(&reaction(ROLES_MESSAGE_ID, rocket()), &data(), false),
        Some(RoleChange { guild_id: 11, user_id: 22, role_id: DEVOPS_ROLE_ID, add: false })
    );
}

#[test]
fn reaction_without_guild_or_user_asks_for_nothing() {
    let mut no_guild = reaction(ROLES_MESSAGE_ID, rocket());
    no_guild.guild_id = None;
    assert_eq!(handle_reaction(&no_guild, &data(), true), None);
    let mut no_user = reaction(ROLES_MESSAGE_ID, rocket());
    no_user.user_id = None;
    assert_eq!(handle_reaction(&no_user, &data(), true), None);
}

#[test]
fn irrelevant_reaction_asks_for_nothing() {
    assert_eq!(handle_reaction(&reaction(5, rocket()), &data(), true), None);
    let heart = ReactionType::Unicode("\u{2764}".to_string());
    assert_eq!(handle_reaction(&reaction(ROLES_MESSAGE_ID, heart), &data(), false), None);
}

#[test]
fn events_are_told_apart() {
    let globe = ReactionType::Unicode("\u{1F310}".to_string());
    let add = FullEvent::ReactionAdd { add_reaction: reaction(ROLES_MESSAGE_ID, globe.clone()) };
    let remove = FullEvent::ReactionRemove { removed_reaction: reaction(ROLES_MESSAGE_ID, globe) };
    assert_eq!(
        event_handler(&add, &data()),
        Some(RoleChange { guild_id: 11, user_id: 22, role_id: WEB_ROLE_ID, add: true })
    );
    assert_eq!(
        event_handler(&remove, &data()),
        Some(RoleChange { guild_id: 11, user_id: 22, role_id: WEB_ROLE_ID, add: false })
    );
    assert_eq!(event_handler(&FullEvent::Other, &data()), None);
}
