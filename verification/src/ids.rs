//! Identifiers on the messaging platform that the daemon is built with.
use vstd::prelude::*;

verus! {

/// The message in the roles channel whose reactions give and take roles.
pub const ROLES_MESSAGE_ID: u64 = 1298636092886749294;

pub const ARCHIVE_ROLE_ID: u64 = 1208457364274028574;

pub const MOBILE_ROLE_ID: u64 = 1298553701094395936;

pub const SYSTEMS_ROLE_ID: u64 = 1298553801191718944;

pub const AI_ROLE_ID: u64 = 1298553753523453952;

pub const RESEARCH_ROLE_ID: u64 = 1298553855474270219;

pub const DEVOPS_ROLE_ID: u64 = 1298553883169132554;

pub const WEB_ROLE_ID: u64 = 1298553910167994428;

pub const SYSTEMS_CHANNEL_ID: u64 = 1378426650152271902;

pub const MOBILE_CHANNEL_ID: u64 = 1378685538835365960;

pub const WEB_CHANNEL_ID: u64 = 1378685360133115944;

pub const AI_CHANNEL_ID: u64 = 1343489220068507649;

pub const STATUS_UPDATE_CHANNEL_ID: u64 = 764575524127244318;

pub const THE_LAB_CHANNEL_ID: u64 = 1208438766893670451;

} // verus!
