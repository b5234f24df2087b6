//! What a listener on a port has to be told: the type of the messages that it will get.

use std::str::FromStr;
use vstd::prelude::*;
use vstd::string::StringExecFns;

verus! {

/// The types of messages: by whom they are sent, or to whom.
#[derive(Debug, Clone, Copy, PartialEq, Eq)]
pub enum MessageType {
    Client,
    Server,
    Display,
    Input,
}

/// The type of messages that goes by the name `name`.
pub open spec fn message_type_named(name: Seq<char>) -> Option<MessageType> {
    if name == "client"@ {
        Some(MessageType::Client)
    } else if name == "server"@ {
        Some(MessageType::Server)
    } else if name == "display"@ {
        Some(MessageType::Display)
    } else if name == "input"@ {
        Some(MessageType::Input)
    } else {
        None
    }
}

fn same(s: &str, word: &str) -> (r: bool)
    ensures
        r == (s@ == word@),
{
    s.to_owned() == word.to_owned()
}

impl MessageType {
    /// The type of messages that goes by the name `s`, or a complaint about `s`.
    pub fn parse(s: &str) -> (r: Result<MessageType, String>)
        ensures
            match message_type_named(s@) {
                Some(message_type) => r == Ok::<MessageType, String>(message_type),
                None => r matches Err(complaint) && complaint@ == "Unknown message type: "@ + s@,
            },
    {
        if same(s, "client") {
            Ok(MessageType::Client)
        } else if same(s, "server") {
            Ok(MessageType::Server)
        } else if same(s, "display") {
            Ok(MessageType::Display)
        } else if same(s, "input") {
            Ok(MessageType::Input)
        } else {
            Err("Unknown message type: ".to_owned().concat(s))
        }
    }
}

impl FromStr for MessageType {
    type Err = String;

    fn from_str(s: &str) -> (r: Result<Self, Self::Err>)
        ensures
            match message_type_named(s@) {
                Some(message_type) => r == Ok::<MessageType, String>(message_type),
                None => r matches Err(complaint) && complaint@ == "Unknown message type: "@ + s@,
            },
    {
        MessageType::parse(s)
    }
}

} // verus!
