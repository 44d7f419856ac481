//! The shape of one inbound transport message, and the tag metadata the
//! engine reads from it.

use vstd::prelude::*;
use crate::text::str_eq;

verus! {

/// One transport tag: a name with an optional value.
pub struct Tag {
    pub name: String,
    pub value: Option<String>,
}

/// The command part of an inbound transport message.
pub enum ChatCommand {
    /// A chat message to a channel or user.
    Privmsg { target: String, text: String },
    /// The server acknowledged a capability.
    CapAck { what: Option<String> },
    /// Someone joined a channel.
    Join { channel: String },
    /// Keep-alive traffic.
    Ping,
    Pong,
    /// Anything else; the engine leaves it alone.
    Other,
}

/// One inbound transport message.
pub struct ChatMessage {
    /// Nickname of the sender, when the transport gives one.
    pub source_nickname: Option<String>,
    /// The command the message carries.
    pub command: ChatCommand,
    /// The tag metadata, in transport order.
    pub tags: Vec<Tag>,
}

/// Metadata extracted from one message: the identifier used for deletion.
pub struct Tags {
    pub message_id: Option<String>,
}

/// The value of the last tag named `id` among the first `i` tags, if any.
/// The scan keeps overwriting as it walks the tags, so a later `id` tag wins
/// over an earlier one.
pub open spec fn last_id_upto(tags: Seq<Tag>, i: int) -> Option<Seq<char>>
    decreases i,
{
    if i <= 0 || i > tags.len() {
        None
    } else {
        match tags[i - 1].value {
            Some(v) => {
                if tags[i - 1].name@ == "id"@ {
                    Some(v@)
                } else {
                    last_id_upto(tags, i - 1)
                }
            },
            None => last_id_upto(tags, i - 1),
        }
    }
}

/// The message identifier a message carries: its last `id` tag with a
/// value.
pub open spec fn message_id_of(m: ChatMessage) -> Option<Seq<char>> {
    last_id_upto(m.tags@, m.tags@.len() as int)
}

/// Extract the tag metadata from a message.
pub fn extract_tags(m: &ChatMessage) -> (r: Tags)
    ensures
        match r.message_id {
            Some(id) => message_id_of(*m) == Some(id@),
            None => message_id_of(*m) is None,
        },
{
    let n = m.tags.len();
    let mut found: Option<usize> = None;
    let mut i: usize = 0;
    while i < n
        invariant
            n == m.tags@.len(),
            i <= n,
            match found {
                Some(j) => j < i && m.tags@[j as int].value is Some && last_id_upto(
                    m.tags@,
                    i as int,
                ) == Some(m.tags@[j as int].value.unwrap()@),
                None => last_id_upto(m.tags@, i as int) is None,
            },
        decreases n - i,
    {
        match &m.tags[i].value {
            Some(_) => {
                if str_eq(m.tags[i].name.as_str(), "id") {
                    found = Some(i);
                }
            }
            None => {}
        }
        i = i + 1;
    }
    match found {
        Some(j) => {
            match &m.tags[j].value {
                Some(v) => Tags { message_id: Some(v.clone()) },
                None => Tags { message_id: None },
            }
        }
        None => Tags { message_id: None },
    }
}

/// The reply target of a message: the target of a chat message, nothing for
/// the rest.
pub open spec fn response_target_of(m: ChatMessage) -> Option<Seq<char>> {
    match m.command {
        ChatCommand::Privmsg { target, text } => Some(target@),
        _ => None,
    }
}

impl ChatMessage {
    /// The reply target, when there is one.
    pub fn response_target(&self) -> (r: Option<&String>)
        ensures
            match r {
                Some(t) => response_target_of(*self) == Some(t@),
                None => response_target_of(*self) is None,
            },
    {
        match &self.command {
            ChatCommand::Privmsg { target, text } => Some(target),
            _ => None,
        }
    }
}

} // verus!
