//! What the bot tells about each of its commands.

use crate::text::{lower_text, same_text};
use vstd::prelude::*;

verus! {

/// What there is to say about a command.
#[derive(Debug)]
pub struct CommandInfo {
    pub name: &'static str,
    pub description: &'static str,
    pub usage: &'static str,
    pub examples: Vec<&'static str>,
    pub parameters: Vec<&'static str>,
}

/// The entry of a command as contracts see it.
pub struct InfoView {
    pub name: Seq<char>,
    pub description: Seq<char>,
    pub usage: Seq<char>,
    pub examples: Seq<Seq<char>>,
    pub parameters: Seq<Seq<char>>,
}

pub open spec fn lines(list: Seq<&'static str>) -> Seq<Seq<char>> {
    Seq::new(list.len(), |i: int| list[i]@)
}

impl View for CommandInfo {
    type V = InfoView;

    open spec fn view(&self) -> InfoView {
        InfoView {
            name: self.name@,
            description: self.description@,
            usage: self.usage@,
            examples: lines(self.examples@),
            parameters: lines(self.parameters@),
        }
    }
}

/// The entry of the command `name`, where the bot has help for it.
pub open spec fn catalog(name: Seq<char>) -> Option<InfoView> {
    if name == "ping"@ {
        Some(
            InfoView {
                name: "ping"@,
                description: "Check bot latency and responsiveness"@,
                usage: "`-ping` or `/ping`"@,
                examples: seq!["-ping"@],
                parameters: Seq::empty(),
            },
        )
    } else if name == "hello"@ {
        Some(
            InfoView {
                name: "hello"@,
                description: "Get a friendly greeting from the bot"@,
                usage: "`-hello` or `/hello`"@,
                examples: seq!["-hello"@],
                parameters: Seq::empty(),
            },
        )
    } else if name == "coinflip"@ {
        Some(
            InfoView {
                name: "coinflip"@,
                description: "Flip a virtual coin and get heads or tails"@,
                usage: "`-coinflip` or `/coinflip`"@,
                examples: seq!["-coinflip"@],
                parameters: Seq::empty(),
            },
        )
    } else if name == "dice"@ {
        Some(
            InfoView {
                name: "dice"@,
                description: "Roll a dice with specified number of sides (defaults to 6)"@,
                usage: "`-dice [sides]` or `/dice [sides]`"@,
                examples: seq!["-dice"@, "-dice 20"@, "-dice 100"@, "-dice 1"@],
                parameters: seq!["sides (optional): Number of sides on the dice (1-1000, defaults to 6)"@],
            },
        )
    } else if name == "uwu"@ {
        Some(
            InfoView {
                name: "uwu"@,
                description: "Convert text to uwu speak (cute anime-style text)"@,
                usage: "`-uwu <text>` or `/uwu <text>`"@,
                examples: seq!["-uwu hello world"@, "-uwu this is so cool"@],
                parameters: seq!["text - The text to convert to uwu speak"@],
            },
        )
    } else if name == "yourmom"@ {
        Some(
            InfoView {
                name: "yourmom"@,
                description: "Get a random \"your mom\" joke"@,
                usage: "`-yourmom` or `/yourmom`"@,
                examples: seq!["-yourmom"@],
                parameters: Seq::empty(),
            },
        )
    } else if name == "spamping"@ {
        Some(
            InfoView {
                name: "spamping"@,
                description: "Send multiple ping messages (use responsibly!)"@,
                usage: "`-spamping <count>` or `/spamping <count>`"@,
                examples: seq!["-spamping 3"@, "-spamping 5"@],
                parameters: seq!["count - Number of ping messages to send (1-10)"@],
            },
        )
    } else if name == "pfp"@ {
        Some(
            InfoView {
                name: "pfp"@,
                description: "Get the profile picture of yourself or another user"@,
                usage: "`-pfp [user]` or `/pfp [user]`"@,
                examples: seq!["-pfp"@, "-pfp @username"@],
                parameters: seq!["user (optional) - The user whose profile picture to get"@],
            },
        )
    } else if name == "stats"@ {
        Some(
            InfoView {
                name: "stats"@,
                description: "Analyze message statistics in a channel"@,
                usage: "`-stats [count] [channel]` or `/stats [count] [channel]`"@,
                examples: seq!["-stats"@, "-stats 2000"@, "-stats 500 #general"@],
                parameters: seq!["count (optional) - Number of messages to analyze (default: 1000, max: 10000)"@, "channel (optional) - Channel to analyze (default: current channel)"@],
            },
        )
    } else if name == "poll"@ {
        Some(
            InfoView {
                name: "poll"@,
                description: "Create a poll with a question and multiple options"@,
                usage: "`-poll <question? option1 option2...>` or `/poll <question? option1 option2...>`"@,
                examples: seq!["-poll Is this cool? yes no maybe"@, "-poll Pizza or pasta? pizza pasta"@],
                parameters: seq!["question? options - Question followed by space-separated options (max 10)"@],
            },
        )
    } else if name == "cleanup"@ {
        Some(
            InfoView {
                name: "cleanup"@,
                description: "Delete messages in the current channel (admin only)"@,
                usage: "`-cleanup [count]` or `-cleanup after` (reply to message)"@,
                examples: seq!["-cleanup 10"@, "-cleanup 50"@, "-cleanup after"@],
                parameters: seq!["count (optional) - Number of messages to delete (default: 10, max: 1000)"@, "after - Delete all messages after the replied message"@],
            },
        )
    } else if name == "update"@ {
        Some(
            InfoView {
                name: "update"@,
                description: "Update bot by pulling latest changes from GitHub (owner only)"@,
                usage: "`-update` or `/update`"@,
                examples: seq!["-update"@],
                parameters: Seq::empty(),
            },
        )
    } else if name == "kys"@ {
        Some(
            InfoView {
                name: "kys"@,
                description: "Reboot the bot with a 1-hour cooldown"@,
                usage: "`-kys` or `/kys`"@,
                examples: seq!["-kys"@],
                parameters: Seq::empty(),
            },
        )
    } else if name == "invite"@ {
        Some(
            InfoView {
                name: "invite"@,
                description: "Generate and display the bot's invite link"@,
                usage: "`-invite` or `/invite`"@,
                examples: seq!["-invite"@],
                parameters: Seq::empty(),
            },
        )
    } else if name == "react"@ {
        Some(
            InfoView {
                name: "react"@,
                description: "Add emoji reactions to a message"@,
                usage: "`-react <text>` (reply to message) or `/react <message_id> <text>`"@,
                examples: seq!["-react thumbs up"@, "-react fire heart"@],
                parameters: seq!["text - The text to convert to emoji reactions"@, "message_id (slash only) - ID of message to react to"@],
            },
        )
    } else if name == "remind"@ {
        Some(
            InfoView {
                name: "remind"@,
                description: "Set a reminder for the future"@,
                usage: "`-remind <time> <message>` or `/remind <time> <message>`"@,
                examples: seq!["-remind 10m Take a break"@, "-remind 2h Meeting starts"@, "-remind 1d Pay bills"@],
                parameters: seq!["time - Time to wait (e.g., 10m, 2h, 1d)"@, "message - Reminder message"@],
            },
        )
    } else if name == "help"@ {
        Some(
            InfoView {
                name: "help"@,
                description: "Show help information for bot commands"@,
                usage: "`-help [command]` or `/help [command]`"@,
                examples: seq!["-help"@, "-help ping"@, "-help stats"@],
                parameters: seq!["command (optional) - Specific command to get detailed help for"@],
            },
        )
    } else {
        None
    }
}

/// The entry of the command `command_name`, whatever the case it is
/// written in: the name is looked up in lower case.
pub fn command_info(command_name: &str) -> (r: Option<CommandInfo>)
    ensures
        match catalog(lower_text(command_name@)) {
            Some(v) => r matches Some(info) && info@ == v,
            None => r is None,
        },
{
    let lower = command_name.to_lowercase();
    lookup_command(lower.as_str())
}

/// The entry of the command named `name`; see [`catalog`].
pub fn lookup_command(name: &str) -> (r: Option<CommandInfo>)
    ensures
        match catalog(name@) {
            Some(v) => r matches Some(info) && info@ == v,
            None => r is None,
        },
{
    if same_text(name, "ping") {
        let info = CommandInfo {
            name: "ping",
            description: "Check bot latency and responsiveness",
            usage: "`-ping` or `/ping`",
            examples: vec!["-ping"],
            parameters: Vec::new(),
        };
        assert(lines(info.examples@) =~= catalog(name@)->0.examples);
        assert(lines(info.parameters@) =~= catalog(name@)->0.parameters);
        Some(info)
    } else if same_text(name, "hello") {
        let info = CommandInfo {
            name: "hello",
            description: "Get a friendly greeting from the bot",
            usage: "`-hello` or `/hello`",
            examples: vec!["-hello"],
            parameters: Vec::new(),
        };
        assert(lines(info.examples@) =~= catalog(name@)->0.examples);
        assert(lines(info.parameters@) =~= catalog(name@)->0.parameters);
        Some(info)
    } else if same_text(name, "coinflip") {
        let info = CommandInfo {
            name: "coinflip",
            description: "Flip a virtual coin and get heads or tails",
            usage: "`-coinflip` or `/coinflip`",
            examples: vec!["-coinflip"],
            parameters: Vec::new(),
        };
        assert(lines(info.examples@) =~= catalog(name@)->0.examples);
        assert(lines(info.parameters@) =~= catalog(name@)->0.parameters);
        Some(info)
    } else if same_text(name, "dice") {
        let info = CommandInfo {
            name: "dice",
            description: "Roll a dice with specified number of sides (defaults to 6)",
            usage: "`-dice [sides]` or `/dice [sides]`",
            examples: vec!["-dice", "-dice 20", "-dice 100", "-dice 1"],
            parameters: vec!["sides (optional): Number of sides on the dice (1-1000, defaults to 6)"],
        };
        assert(lines(info.examples@) =~= catalog(name@)->0.examples);
        assert(lines(info.parameters@) =~= catalog(name@)->0.parameters);
        Some(info)
    } else if same_text(name, "uwu") {
        let info = CommandInfo {
            name: "uwu",
            description: "Convert text to uwu speak (cute anime-style text)",
            usage: "`-uwu <text>` or `/uwu <text>`",
            examples: vec!["-uwu hello world", "-uwu this is so cool"],
            parameters: vec!["text - The text to convert to uwu speak"],
        };
        assert(lines(info.examples@) =~= catalog(name@)->0.examples);
        assert(lines(info.parameters@) =~= catalog(name@)->0.parameters);
        Some(info)
    } else if same_text(name, "yourmom") {
        let info = CommandInfo {
            name: "yourmom",
            description: "Get a random \"your mom\" joke",
            usage: "`-yourmom` or `/yourmom`",
            examples: vec!["-yourmom"],
            parameters: Vec::new(),
        };
        assert(lines(info.examples@) =~= catalog(name@)->0.examples);
        assert(lines(info.parameters@) =~= catalog(name@)->0.parameters);
        Some(info)
    } else if same_text(name, "spamping") {
        let info = CommandInfo {
            name: "spamping",
            description: "Send multiple ping messages (use responsibly!)",
            usage: "`-spamping <count>` or `/spamping <count>`",
            examples: vec!["-spamping 3", "-spamping 5"],
            parameters: vec!["count - Number of ping messages to send (1-10)"],
        };
        assert(lines(info.examples@) =~= catalog(name@)->0.examples);
        assert(lines(info.parameters@) =~= catalog(name@)->0.parameters);
        Some(info)
    } else if same_text(name, "pfp") {
        let info = CommandInfo {
            name: "pfp",
            description: "Get the profile picture of yourself or another user",
            usage: "`-pfp [user]` or `/pfp [user]`",
            examples: vec!["-pfp", "-pfp @username"],
            parameters: vec!["user (optional) - The user whose profile picture to get"],
        };
        assert(lines(info.examples@) =~= catalog(name@)->0.examples);
        assert(lines(info.parameters@) =~= catalog(name@)->0.parameters);
        Some(info)
    } else if same_text(name, "stats") {
        let info = CommandInfo {
            name: "stats",
            description: "Analyze message statistics in a channel",
            usage: "`-stats [count] [channel]` or `/stats [count] [channel]`",
            examples: vec!["-stats", "-stats 2000", "-stats 500 #general"],
            parameters: vec!["count (optional) - Number of messages to analyze (default: 1000, max: 10000)", "channel (optional) - Channel to analyze (default: current channel)"],
        };
        assert(lines(info.examples@) =~= catalog(name@)->0.examples);
        assert(lines(info.parameters@) =~= catalog(name@)->0.parameters);
        Some(info)
    } else if same_text(name, "poll") {
        let info = CommandInfo {
            name: "poll",
            description: "Create a poll with a question and multiple options",
            usage: "`-poll <question? option1 option2...>` or `/poll <question? option1 option2...>`",
            examples: vec!["-poll Is this cool? yes no maybe", "-poll Pizza or pasta? pizza pasta"],
            parameters: vec!["question? options - Question followed by space-separated options (max 10)"],
        };
        assert(lines(info.examples@) =~= catalog(name@)->0.examples);
        assert(lines(info.parameters@) =~= catalog(name@)->0.parameters);
        Some(info)
    } else if same_text(name, "cleanup") {
        let info = CommandInfo {
            name: "cleanup",
            description: "Delete messages in the current channel (admin only)",
            usage: "`-cleanup [count]` or `-cleanup after` (reply to message)",
            examples: vec!["-cleanup 10", "-cleanup 50", "-cleanup after"],
            parameters: vec!["count (optional) - Number of messages to delete (default: 10, max: 1000)", "after - Delete all messages after the replied message"],
        };
        assert(lines(info.examples@) =~= catalog(name@)->0.examples);
        assert(lines(info.parameters@) =~= catalog(name@)->0.parameters);
        Some(info)
    } else if same_text(name, "update") {
        let info = CommandInfo {
            name: "update",
            description: "Update bot by pulling latest changes from GitHub (owner only)",
            usage: "`-update` or `/update`",
            examples: vec!["-update"],
            parameters: Vec::new(),
        };
        assert(lines(info.examples@) =~= catalog(name@)->0.examples);
        assert(lines(info.parameters@) =~= catalog(name@)->0.parameters);
        Some(info)
    } else if same_text(name, "kys") {
        let info = CommandInfo {
            name: "kys",
            description: "Reboot the bot with a 1-hour cooldown",
            usage: "`-kys` or `/kys`",
            examples: vec!["-kys"],
            parameters: Vec::new(),
        };
        assert(lines(info.examples@) =~= catalog(name@)->0.examples);
        assert(lines(info.parameters@) =~= catalog(name@)->0.parameters);
        Some(info)
    } else if same_text(name, "invite") {
        let info = CommandInfo {
            name: "invite",
            description: "Generate and display the bot's invite link",
            usage: "`-invite` or `/invite`",
            examples: vec!["-invite"],
            parameters: Vec::new(),
        };
        assert(lines(info.examples@) =~= catalog(name@)->0.examples);
        assert(lines(info.parameters@) =~= catalog(name@)->0.parameters);
        Some(info)
    } else if same_text(name, "react") {
        let info = CommandInfo {
            name: "react",
            description: "Add emoji reactions to a message",
            usage: "`-react <text>` (reply to message) or `/react <message_id> <text>`",
            examples: vec!["-react thumbs up", "-react fire heart"],
            parameters: vec!["text - The text to convert to emoji reactions", "message_id (slash only) - ID of message to react to"],
        };
        assert(lines(info.examples@) =~= catalog(name@)->0.examples);
        assert(lines(info.parameters@) =~= catalog(name@)->0.parameters);
        Some(info)
    } else if same_text(name, "remind") {
        let info = CommandInfo {
            name: "remind",
            description: "Set a reminder for the future",
            usage: "`-remind <time> <message>` or `/remind <time> <message>`",
            examples: vec!["-remind 10m Take a break", "-remind 2h Meeting starts", "-remind 1d Pay bills"],
            parameters: vec!["time - Time to wait (e.g., 10m, 2h, 1d)", "message - Reminder message"],
        };
        assert(lines(info.examples@) =~= catalog(name@)->0.examples);
        assert(lines(info.parameters@) =~= catalog(name@)->0.parameters);
        Some(info)
    } else if same_text(name, "help") {
        let info = CommandInfo {
            name: "help",
            description: "Show help information for bot commands",
            usage: "`-help [command]` or `/help [command]`",
            examples: vec!["-help", "-help ping", "-help stats"],
            parameters: vec!["command (optional) - Specific command to get detailed help for"],
        };
        assert(lines(info.examples@) =~= catalog(name@)->0.examples);
        assert(lines(info.parameters@) =~= catalog(name@)->0.parameters);
        Some(info)
    } else {
        None
    }
}

} // verus!
