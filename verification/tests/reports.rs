use voice_channel_manager::reports::{error_report, CommandError};

fn name() -> String {
    "list".to_string()
}

#[test]
fn reports_name_the_user_and_the_command() {
    let failed = CommandError::Command { command: name(), error: "no database".to_string() };
    assert_eq!(
        error_report("<@7>", &failed),
        "<@7> - Error: Running command list failed: no database"
    );
}

#[test]
fn reports_quote_what_is_there_and_say_what_is_missing() {
    let cases = vec![
        (
            CommandError::CommandPanic { command: name(), payload: Some("boom".to_string()) },
            "Running command list panicked: boom",
        ),
        (
            CommandError::CommandPanic { command: name(), payload: None },
            "Running command list panicked: <no-panic-text>",
        ),
        (
            CommandError::ArgumentParse {
                command: name(),
                error: "not a number".to_string(),
                input: Some("x".to_string()),
            },
            "Parsing arguments for command list failed: not a number for input: x",
        ),
        (
            CommandError::ArgumentParse {
                command: name(),
                error: "too few".to_string(),
                input: None,
            },
            "Parsing arguments for command list failed: too few for input: <no-argument-text>",
        ),
        (
            CommandError::MissingBotPermissions {
                command: name(),
                missing: "MANAGE_CHANNELS".to_string(),
            },
            "Bot is missing permissions to run command list: MANAGE_CHANNELS",
        ),
        (
            CommandError::MissingUserPermissions {
                command: name(),
                missing: Some("MANAGE_GUILD".to_string()),
            },
            "User is missing permissions to run command list: MANAGE_GUILD",
        ),
        (
            CommandError::MissingUserPermissions { command: name(), missing: None },
            "User is missing permissions to run command list: <unknown-permissions>",
        ),
        (
            CommandError::NotAnOwner { command: name() },
            "User is not an owner and tried to run command list",
        ),
        (CommandError::GuildOnly { command: name() }, "Command list can only be run in guilds"),
        (CommandError::DmOnly { command: name() }, "Command list can only be run in DMs"),
        (
            CommandError::NsfwOnly { command: name() },
            "Command list can only be run in NSFW channels",
        ),
        (
            CommandError::CommandCheckFailed { command: name(), error: Some("nope".to_string()) },
            "Check for running command list failed: nope",
        ),
        (
            CommandError::CommandCheckFailed { command: name(), error: None },
            "Check for running command list failed: Check function returned false!",
        ),
        (
            CommandError::UnknownInteraction { interaction: "mystery".to_string() },
            "Unknown interaction: mystery",
        ),
    ];
    for (error, reason) in cases {
        assert_eq!(error_report("@op", &error), format!("@op - Error: {}", reason));
    }
}
