//! The settings that the daemon is started with.
use crate::tasks::JobError;
use vstd::prelude::*;

verus! {

/// Identifiers of messages on the messaging platform.
#[derive(Debug)]
pub struct Discord {
    pub roles_message_id: u64,
}

/// The identifier of each role that members can give themselves.
#[derive(Debug)]
pub struct Roles {
    pub archive: u64,
    pub mobile: u64,
    pub systems: u64,
    pub ai: u64,
    pub research: u64,
    pub devops: u64,
    pub web: u64,
}

/// The identifier of each channel that the daemon writes to.
#[derive(Debug)]
pub struct Channels {
    pub group_one: u64,
    pub group_two: u64,
    pub group_three: u64,
    pub group_four: u64,
    pub status_update: u64,
}

/// The links that the status-update report carries.
#[derive(Debug)]
pub struct StatusUpdate {
    pub title_url: String,
    pub image_url: String,
    pub author_url: String,
    pub icon_url: String,
}

/// All settings.
#[derive(Debug)]
pub struct Settings {
    pub discord: Discord,
    pub roles: Roles,
    pub channels: Channels,
    pub status_update: StatusUpdate,
}

impl Roles {
    /// No role has the identifier zero, which the messaging platform gives
    /// to nothing.
    pub open spec fn valid(&self) -> bool {
        &&& self.archive != 0
        &&& self.mobile != 0
        &&& self.systems != 0
        &&& self.ai != 0
        &&& self.research != 0
        &&& self.devops != 0
        &&& self.web != 0
    }
}

impl Channels {
    /// No channel has the identifier zero.
    pub open spec fn valid(&self) -> bool {
        &&& self.group_one != 0
        &&& self.group_two != 0
        &&& self.group_three != 0
        &&& self.group_four != 0
        &&& self.status_update != 0
    }
}

impl Settings {
    /// Every identifier in the settings can name something on the
    /// messaging platform: none is zero.
    pub open spec fn valid(&self) -> bool {
        &&& self.discord.roles_message_id != 0
        &&& self.roles.valid()
        &&& self.channels.valid()
    }

    /// Checks the settings at the start of the daemon. Settings with an
    /// identifier that is zero are a configuration error.
    pub fn check(&self) -> (r: Result<(), JobError>)
        ensures
            r is Ok <==> self.valid(),
            r is Err ==> r == Err::<(), JobError>(JobError::ConfigurationError),
    {
        let roles = &self.roles;
        let channels = &self.channels;
        if self.discord.roles_message_id != 0 && roles.archive != 0 && roles.mobile != 0
            && roles.systems != 0 && roles.ai != 0 && roles.research != 0 && roles.devops != 0
            && roles.web != 0 && channels.group_one != 0 && channels.group_two != 0
            && channels.group_three != 0 && channels.group_four != 0 && channels.status_update
            != 0 {
            Ok(())
        } else {
            Err(JobError::ConfigurationError)
        }
    }
}

} // verus!
