//! What an operator is told when a command fails.

use vstd::prelude::*;
use crate::text::push_chars;

verus! {

/// Why a command did not run to its end, with the texts that the report
/// quotes.
#[derive(Debug)]
pub enum CommandError {
    /// The command returned an error.
    Command { command: String, error: String },
    /// The command panicked.
    CommandPanic { command: String, payload: Option<String> },
    /// An argument could not be read.
    ArgumentParse { command: String, error: String, input: Option<String> },
    /// The bot lacks permissions.
    MissingBotPermissions { command: String, missing: String },
    /// The user lacks permissions.
    MissingUserPermissions { command: String, missing: Option<String> },
    /// The command is for owners, and the user is none.
    NotAnOwner { command: String },
    /// The command is for groups only.
    GuildOnly { command: String },
    /// The command is for direct messages only.
    DmOnly { command: String },
    /// The command is for rooms with an age limit only.
    NsfwOnly { command: String },
    /// A check before the command failed.
    CommandCheckFailed { command: String, error: Option<String> },
    /// The platform sent an interaction that belongs to no command.
    UnknownInteraction { interaction: String },
}

/// `text`, or `fallback` where there is none.
pub open spec fn text_or(text: Option<String>, fallback: Seq<char>) -> Seq<char> {
    match text {
        Some(text) => text@,
        None => fallback,
    }
}

impl CommandError {
    /// What went wrong, in one sentence.
    pub open spec fn reason_text(&self) -> Seq<char> {
        match self {
            CommandError::Command { command, error } => "Running command "@ + command@
                + " failed: "@ + error@,
            CommandError::CommandPanic { command, payload } => "Running command "@ + command@
                + " panicked: "@ + text_or(*payload, "<no-panic-text>"@),
            CommandError::ArgumentParse { command, error, input } =>
                "Parsing arguments for command "@ + command@ + " failed: "@ + error@
                + " for input: "@ + text_or(*input, "<no-argument-text>"@),
            CommandError::MissingBotPermissions { command, missing } =>
                "Bot is missing permissions to run command "@ + command@ + ": "@ + missing@,
            CommandError::MissingUserPermissions { command, missing } =>
                "User is missing permissions to run command "@ + command@ + ": "@ + text_or(
                    *missing,
                    "<unknown-permissions>"@,
                ),
            CommandError::NotAnOwner { command } =>
                "User is not an owner and tried to run command "@ + command@,
            CommandError::GuildOnly { command } => "Command "@ + command@
                + " can only be run in guilds"@,
            CommandError::DmOnly { command } => "Command "@ + command@ + " can only be run in DMs"@,
            CommandError::NsfwOnly { command } => "Command "@ + command@
                + " can only be run in NSFW channels"@,
            CommandError::CommandCheckFailed { command, error } => "Check for running command "@
                + command@ + " failed: "@ + text_or(*error, "Check function returned false!"@),
            CommandError::UnknownInteraction { interaction } => "Unknown interaction: "@
                + interaction@,
        }
    }

    /// The report for the user that `mention` names.
    pub open spec fn report_text(&self, mention: Seq<char>) -> Seq<char> {
        mention + " - Error: "@ + self.reason_text()
    }
}

fn push_or(out: &mut String, text: &Option<String>, fallback: &str)
    ensures
        final(out)@ == old(out)@ + text_or(*text, fallback@),
{
    match text {
        Some(text) => push_chars(out, text.as_str()),
        None => push_chars(out, fallback),
    }
}

/// The report of `error` for the user that `mention` names.
pub fn error_report(mention: &str, error: &CommandError) -> (report: String)
    ensures
        report@ == error.report_text(mention@),
{
    let mut report = String::new();
    push_chars(&mut report, mention);
    push_chars(&mut report, " - Error: ");
    match error {
        CommandError::Command { command, error } => {
            push_chars(&mut report, "Running command ");
            push_chars(&mut report, command.as_str());
            push_chars(&mut report, " failed: ");
            push_chars(&mut report, error.as_str());
        },
        CommandError::CommandPanic { command, payload } => {
            push_chars(&mut report, "Running command ");
            push_chars(&mut report, command.as_str());
            push_chars(&mut report, " panicked: ");
            push_or(&mut report, payload, "<no-panic-text>");
        },
        CommandError::ArgumentParse { command, error, input } => {
            push_chars(&mut report, "Parsing arguments for command ");
            push_chars(&mut report, command.as_str());
            push_chars(&mut report, " failed: ");
            push_chars(&mut report, error.as_str());
            push_chars(&mut report, " for input: ");
            push_or(&mut report, input, "<no-argument-text>");
        },
        CommandError::MissingBotPermissions { command, missing } => {
            push_chars(&mut report, "Bot is missing permissions to run command ");
            push_chars(&mut report, command.as_str());
            push_chars(&mut report, ": ");
            push_chars(&mut report, missing.as_str());
        },
        CommandError::MissingUserPermissions { command, missing } => {
            push_chars(&mut report, "User is missing permissions to run command ");
            push_chars(&mut report, command.as_str());
            push_chars(&mut report, ": ");
            push_or(&mut report, missing, "<unknown-permissions>");
        },
        CommandError::NotAnOwner { command } => {
            push_chars(&mut report, "User is not an owner and tried to run command ");
            push_chars(&mut report, command.as_str());
        },
        CommandError::GuildOnly { command } => {
            push_chars(&mut report, "Command ");
            push_chars(&mut report, command.as_str());
            push_chars(&mut report, " can only be run in guilds");
        },
        CommandError::DmOnly { command } => {
            push_chars(&mut report, "Command ");
            push_chars(&mut report, command.as_str());
            push_chars(&mut report, " can only be run in DMs");
        },
        CommandError::NsfwOnly { command } => {
            push_chars(&mut report, "Command ");
            push_chars(&mut report, command.as_str());
            push_chars(&mut report, " can only be run in NSFW channels");
        },
        CommandError::CommandCheckFailed { command, error } => {
            push_chars(&mut report, "Check for running command ");
            push_chars(&mut report, command.as_str());
            push_chars(&mut report, " failed: ");
            push_or(&mut report, error, "Check function returned false!");
        },
        CommandError::UnknownInteraction { interaction } => {
            push_chars(&mut report, "Unknown interaction: ");
            push_chars(&mut report, interaction.as_str());
        },
    }
    report
}

} // verus!
