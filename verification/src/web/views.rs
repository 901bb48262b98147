//! The values that page templates are filled with.

use vstd::prelude::*;

use crate::strings::concat2;

verus! {

/// A chat message as stored: its key, when it was sent (microseconds since
/// the Unix epoch, in UTC), who sent it, and its text.
#[derive(Debug, Clone)]
pub struct Message {
    pub id: i32,
    pub timestamp_micros: i64,
    pub sender: String,
    pub message: String,
}

/// The main page.
pub struct Index {
    pub content: String,
}

impl Index {
    /// The main page showing `content`.
    pub fn new(content: String) -> (r: Self)
        ensures
            r.content == content,
    {
        Self { content }
    }
}

/// The click counter.
pub struct Counter {
    pub clicks: u64,
}

impl Counter {
    /// A counter showing `clicks`.
    pub fn new(clicks: u64) -> (r: Self)
        ensures
            r.clicks == clicks,
    {
        Counter { clicks }
    }
}

/// The message list.
pub struct Messages {}

impl Messages {
    /// The message list.
    pub fn new() -> (r: Self) {
        Self {  }
    }
}

/// One new message in the list.
pub struct NewMessage {
    pub content: String,
}

/// How a message is shown: the sender, a colon and a space, and the text.
pub open spec fn message_line(sender: Seq<char>, text: Seq<char>) -> Seq<char> {
    sender + ": "@ + text
}

impl NewMessage {
    /// The line showing `message`.
    pub fn new(message: Message) -> (r: Self)
        ensures
            r.content@ == message_line(message.sender@, message.message@),
    {
        let head = concat2(message.sender.as_str(), ": ");
        let content = concat2(head.as_str(), message.message.as_str());
        Self { content }
    }
}

} // verus!
