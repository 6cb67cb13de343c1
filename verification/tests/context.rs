use amd::context::{ReactionRoles, ReactionType};
use amd::ids::{
    AI_ROLE_ID, ARCHIVE_ROLE_ID, DEVOPS_ROLE_ID, MOBILE_ROLE_ID, RESEARCH_ROLE_ID, SYSTEMS_ROLE_ID,
    WEB_ROLE_ID,
};
use amd::{populate_data_with_reaction_roles, Data, ReloadHandle};
use std::sync::Arc;
use tracing_subscriber::{reload, EnvFilter, Registry};

fn handle() -> ReloadHandle {
    let (_layer, handle): (reload::Layer<EnvFilter, Registry>, _) =
        reload::Layer::new(EnvFilter::new("info"));
    Arc::new(tokio::sync::RwLock::new(handle))
}

fn unicode(text: &str) -> ReactionType {
    ReactionType::Unicode(text.to_string())
}

#[test]
fn populate_fills_the_seven_roles() {
    let mut data = Data { reaction_roles: ReactionRoles::new(), log_reload_handle: handle() };
    populate_data_with_reaction_roles(&mut data);
    assert_eq!(data.reaction_roles.len(), 7);
    assert_eq!(data.reaction_roles.get(&unicode("\u{1F4C1}")), Some(ARCHIVE_ROLE_ID));
    assert_eq!(data.reaction_roles.get(&unicode("\u{1F4F1}")), Some(MOBILE_ROLE_ID));
    assert_eq!(data.reaction_roles.get(&unicode("\u{2699}\u{FE0F}")), Some(SYSTEMS_ROLE_ID));
    assert_eq!(data.reaction_roles.get(&unicode("\u{1F916}")), Some(AI_ROLE_ID));
    assert_eq!(data.reaction_roles.get(&unicode("\u{1F4DC}")), Some(RESEARCH_ROLE_ID));
    assert_eq!(data.reaction_roles.get(&unicode("\u{1F680}")), Some(DEVOPS_ROLE_ID));
    assert_eq!(data.reaction_roles.get(&unicode("\u{1F310}")), Some(WEB_ROLE_ID));
}

#[test]
fn populate_keeps_other_entries_and_the_log_handle() {
    let log = handle();
    let mut roles = ReactionRoles::new();
    roles.insert(unicode("\u{2764}"), 99);
    roles.insert(unicode("\u{1F680}"), 5);
    let mut data = Data { reaction_roles: roles, log_reload_handle: log.clone() };
    populate_data_with_reaction_roles(&mut data);
    assert_eq!(data.reaction_roles.len(), 8);
    assert_eq!(data.reaction_roles.get(&unicode("\u{2764}")), Some(99));
    assert_eq!(data.reaction_roles.get(&unicode("\u{1F680}")), Some(DEVOPS_ROLE_ID));
    assert!(Arc::ptr_eq(&data.log_reload_handle, &log));
}

#[test]
fn populate_twice_changes_nothing_more() {
    let mut data = Data { reaction_roles: ReactionRoles::new(), log_reload_handle: handle() };
    populate_data_with_reaction_roles(&mut data);
    populate_data_with_reaction_roles(&mut data);
    assert_eq!(data.reaction_roles.len(), 7);
}

#[test]
fn gear_without_variation_selector_stands_for_no_role() {
    let mut data = Data { reaction_roles: ReactionRoles::new(), log_reload_handle: handle() };
    populate_data_with_reaction_roles(&mut data);
    assert_eq!(data.reaction_roles.get(&unicode("\u{2699}")), None);
    assert!(!data.reaction_roles.contains_key(&unicode("\u{2699}")));
    assert!(data.reaction_roles.contains_key(&unicode("\u{2699}\u{FE0F}")));
}

#[test]
fn insert_replaces_and_returns_the_old_role() {
    let mut roles = ReactionRoles::new();
    assert_eq!(roles.len(), 0);
    assert_eq!(roles.insert(unicode("a"), 1), None);
    assert_eq!(roles.insert(unicode("b"), 2), None);
    assert_eq!(roles.insert(unicode("a"), 3), Some(1));
    assert_eq!(roles.len(), 2);
    assert_eq!(roles.get(&unicode("a")), Some(3));
    assert_eq!(roles.get(&unicode("b")), Some(2));
    assert_eq!(roles.get(&unicode("c")), None);
}

#[test]
fn custom_and_unicode_reactions_differ() {
    let custom = ReactionType::Custom { animated: false, id: 5, name: Some("a".to_string()) };
    let mut roles = ReactionRoles::new();
    roles.insert(unicode("a"), 1);
    assert_eq!(roles.get(&custom), None);
    roles.insert(custom.clone(), 2);
    assert_eq!(roles.get(&custom), Some(2));
    assert_eq!(roles.get(&unicode("a")), Some(1));
}

#[test]
fn same_compares_every_part() {
    let base = ReactionType::Custom { animated: false, id: 5, name: Some("a".to_string()) };
    assert!(base.same(&base.clone()));
    assert!(!base.same(&ReactionType::Custom { animated: true, id: 5, name: Some("a".to_string()) }));
    assert!(!base.same(&ReactionType::Custom { animated: false, id: 6, name: Some("a".to_string()) }));
    assert!(!base.same(&ReactionType::Custom { animated: false, id: 5, name: Some("b".to_string()) }));
    assert!(!base.same(&ReactionType::Custom { animated: false, id: 5, name: None }));
    assert!(!base.same(&unicode("a")));
    assert!(unicode("a").same(&ReactionType::unicode("a")));
    assert!(!unicode("a").same(&unicode("A")));
    let nameless = ReactionType::Custom { animated: false, id: 5, name: None };
    assert!(nameless.same(&nameless.clone()));
}
