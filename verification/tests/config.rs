use amd::config::{Channels, Discord, Roles, Settings, StatusUpdate};
use amd::tasks::JobError;

fn settings() -> Settings {
    Settings {
        discord: Discord { roles_message_id: 1 },
        roles: Roles { archive: 2, mobile: 3, systems: 4, ai: 5, research: 6, devops: 7, web: 8 },
        channels: Channels {
            group_one: 9,
            group_two: 10,
            group_three: 11,
            group_four: 12,
            status_update: 13,
        },
        status_update: StatusUpdate {
            title_url: String::new(),
            image_url: String::new(),
            author_url: String::new(),
            icon_url: String::new(),
        },
    }
}

#[test]
fn settings_with_identifiers_pass() {
    assert_eq!(settings().check(), Ok(()));
}

#[test]
fn settings_with_a_zero_identifier_are_a_configuration_error() {
    let mut message = settings();
    message.discord.roles_message_id = 0;
    assert_eq!(message.check(), Err(JobError::ConfigurationError));
    let mut role = settings();
    role.roles.web = 0;
    assert_eq!(role.check(), Err(JobError::ConfigurationError));
    let mut other_role = settings();
    other_role.roles.archive = 0;
    assert_eq!(other_role.check(), Err(JobError::ConfigurationError));
    let mut channel = settings();
    channel.channels.group_three = 0;
    assert_eq!(channel.check(), Err(JobError::ConfigurationError));
    let mut last = settings();
    last.channels.status_update = 0;
    assert_eq!(last.check(), Err(JobError::ConfigurationError));
}
