//! The commands that the webview can give.

use vstd::prelude::*;

use crate::text;

verus! {

/// The commands of the webview.
#[derive(Clone, Copy, PartialEq, Eq, Debug)]
pub enum Command {
    Connect,
    Send,
    Disconnect,
    DisconnectAll,
    CurrentProjection,
}

/// The command of a name. There are no others.
pub open spec fn command_named(name: Seq<char>) -> Option<Command> {
    if name == "connect"@ {
        Some(Command::Connect)
    } else if name == "send"@ {
        Some(Command::Send)
    } else if name == "disconnect"@ {
        Some(Command::Disconnect)
    } else if name == "disconnect_all"@ {
        Some(Command::DisconnectAll)
    } else if name == "current_projection"@ {
        Some(Command::CurrentProjection)
    } else {
        None
    }
}

impl Command {
    /// The command of a name.
    pub fn from_name(name: &str) -> (command: Option<Self>)
        ensures
            command == command_named(name@),
    {
        if text::same_text(name, "connect") {
            Some(Command::Connect)
        } else if text::same_text(name, "send") {
            Some(Command::Send)
        } else if text::same_text(name, "disconnect") {
            Some(Command::Disconnect)
        } else if text::same_text(name, "disconnect_all") {
            Some(Command::DisconnectAll)
        } else if text::same_text(name, "current_projection") {
            Some(Command::CurrentProjection)
        } else {
            None
        }
    }
}

/// Each command has its name, and no other text is the name of one.
pub proof fn commands_are_known_by_their_names(name: Seq<char>)
    ensures
        command_named("connect"@) == Some(Command::Connect),
        command_named("send"@) == Some(Command::Send),
        command_named("disconnect"@) == Some(Command::Disconnect),
        command_named("disconnect_all"@) == Some(Command::DisconnectAll),
        command_named("current_projection"@) == Some(Command::CurrentProjection),
        command_named(name) is Some ==> name == "connect"@ || name == "send"@ || name
            == "disconnect"@ || name == "disconnect_all"@ || name == "current_projection"@,
{
    reveal_strlit("connect");
    reveal_strlit("send");
    reveal_strlit("disconnect");
    reveal_strlit("disconnect_all");
    reveal_strlit("current_projection");
    assert("send"@.len() == 4 && "connect"@.len() == 7 && "disconnect"@.len() == 10
        && "disconnect_all"@.len() == 14 && "current_projection"@.len() == 18);
}

} // verus!
