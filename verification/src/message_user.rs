//! Messages and their senders.
use vstd::prelude::*;

verus! {

pub struct Message {
    pub guild_id: i64,
    pub channel_id: i64,
    pub message_id: i64,
    pub message_timestamp: i64,
    pub sender_id: i64,
    pub message_content: Option<String>,
    pub stripped_content: Option<String>,
    pub delete_timestamp: Option<i64>,
}

pub struct User {
    pub user_id: i64,
    pub global_name: Option<String>,
    pub username: String,
}

pub struct MessageWithUser {
    pub message: Message,
    pub sender: User,
}

impl MessageWithUser {
    pub fn new(message: Message, sender: User) -> (r: MessageWithUser)
        ensures
            r.message == message,
            r.sender == sender,
    {
        MessageWithUser { message, sender }
    }

    /// The timestamp a message is counted at: its deletion time when it was
    /// deleted, else the time it was sent.
    pub open spec fn spec_event_timestamp(&self) -> i64 {
        match self.message.delete_timestamp {
            Some(t) => t,
            None => self.message.message_timestamp,
        }
    }

    pub fn event_timestamp(&self) -> (r: i64)
        ensures
            r == self.spec_event_timestamp(),
    {
        match self.message.delete_timestamp {
            Some(t) => t,
            None => self.message.message_timestamp,
        }
    }

    pub fn is_deleted(&self) -> (r: bool)
        ensures
            r == self.message.delete_timestamp.is_some(),
    {
        self.message.delete_timestamp.is_some()
    }
}

} // verus!

verus! {

fn copy_text(s: &Option<String>) -> (r: Option<String>)
    ensures
        r == *s,
{
    match s {
        Some(t) => Some(t.clone()),
        None => None,
    }
}

impl MessageWithUser {
    /// A field-by-field copy.
    pub fn duplicate(&self) -> (r: MessageWithUser)
        ensures
            r == *self,
    {
        MessageWithUser {
            message: Message {
                guild_id: self.message.guild_id,
                channel_id: self.message.channel_id,
                message_id: self.message.message_id,
                message_timestamp: self.message.message_timestamp,
                sender_id: self.message.sender_id,
                message_content: copy_text(&self.message.message_content),
                stripped_content: copy_text(&self.message.stripped_content),
                delete_timestamp: self.message.delete_timestamp,
            },
            sender: User {
                user_id: self.sender.user_id,
                global_name: copy_text(&self.sender.global_name),
                username: self.sender.username.clone(),
            },
        }
    }
}

} // verus!
