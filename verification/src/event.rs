//! A coarse reading of room events as chat events, and their IRC form.

use crate::irc::{message_from, Command, CommandView, Message, MessageView, Prefix, PrefixView};
use crate::schema::{RoomEvent, RoomEventView};
use crate::text::{channel, channel_of, same};
use vstd::prelude::*;
use vstd::string::*;

verus! {

/// What happened in a public channel or in a direct conversation.
#[derive(Clone, Debug, PartialEq, Eq)]
pub enum ChatEvent {
    PublicMessage { from: String, room_name: String, msg: String },
    PrivateMessage { user: String, msg: String },
    TopicChange { user: String, room_name: String, topic: String },
}

pub enum ChatEventView {
    PublicMessage { from: Seq<char>, room_name: Seq<char>, msg: Seq<char> },
    PrivateMessage { user: Seq<char>, msg: Seq<char> },
    TopicChange { user: Seq<char>, room_name: Seq<char>, topic: Seq<char> },
}

impl View for ChatEvent {
    type V = ChatEventView;

    open spec fn view(&self) -> ChatEventView {
        match self {
            ChatEvent::PublicMessage { from, room_name, msg } => ChatEventView::PublicMessage {
                from: from@,
                room_name: room_name@,
                msg: msg@,
            },
            ChatEvent::PrivateMessage { user, msg } => ChatEventView::PrivateMessage {
                user: user@,
                msg: msg@,
            },
            ChatEvent::TopicChange { user, room_name, topic } => ChatEventView::TopicChange {
                user: user@,
                room_name: room_name@,
                topic: topic@,
            },
        }
    }
}

/// The chat event that a room event stands for: in a public channel a topic
/// change where the event is tagged as one, and a message otherwise; in a
/// direct conversation, which has no room name, a private message; nothing
/// in any other room.
pub open spec fn chat_event_of(ev: RoomEventView) -> Option<ChatEventView> {
    if ev.extra.room_type == 'c' && ev.extra.room_name is Some {
        if ev.data.t == Some("room_changed_topic"@) {
            Some(
                ChatEventView::TopicChange {
                    user: ev.data.u.username,
                    room_name: ev.extra.room_name->0,
                    topic: ev.data.msg,
                },
            )
        } else {
            Some(
                ChatEventView::PublicMessage {
                    from: ev.data.u.username,
                    room_name: ev.extra.room_name->0,
                    msg: ev.data.msg,
                },
            )
        }
    } else if ev.extra.room_type == 'd' && ev.extra.room_name is None {
        Some(ChatEventView::PrivateMessage { user: ev.data.u.username, msg: ev.data.msg })
    } else {
        None
    }
}

/// The IRC message that tells a client of a chat event. It comes from the
/// user who caused the event, at the backend's host; a private message goes
/// to the client's own nick.
pub open spec fn irc_of(ev: ChatEventView, local_nick: Seq<char>, remote_host: Seq<char>)
    -> MessageView {
    match ev {
        ChatEventView::TopicChange { user, room_name, topic } => message_from(
            PrefixView::Nickname(user, user, remote_host),
            CommandView::Topic(channel_of(room_name), Some(topic)),
        ),
        ChatEventView::PublicMessage { from, room_name, msg } => message_from(
            PrefixView::Nickname(from, from, remote_host),
            CommandView::Privmsg(channel_of(room_name), msg),
        ),
        ChatEventView::PrivateMessage { user, msg } => message_from(
            PrefixView::Nickname(user, user, remote_host),
            CommandView::Privmsg(local_nick, msg),
        ),
    }
}

impl ChatEvent {
    /// Reads a room event as a chat event.
    pub fn from_room_event(value: RoomEvent) -> (r: Option<ChatEvent>)
        ensures
            match r {
                Some(ev) => chat_event_of(value@) == Some(ev@),
                None => chat_event_of(value@) is None,
            },
    {
        let RoomEvent { data, extra } = value;
        match extra.room_name {
            Some(room_name) => {
                if extra.room_type != 'c' {
                    return None;
                }
                let is_topic = match &data.t {
                    Some(t) => same(t.as_str(), "room_changed_topic"),
                    None => false,
                };
                if is_topic {
                    Some(
                        ChatEvent::TopicChange {
                            user: data.u.username,
                            room_name,
                            topic: data.msg,
                        },
                    )
                } else {
                    Some(
                        ChatEvent::PublicMessage {
                            from: data.u.username,
                            room_name,
                            msg: data.msg,
                        },
                    )
                }
            },
            None => {
                if extra.room_type == 'd' {
                    Some(ChatEvent::PrivateMessage { user: data.u.username, msg: data.msg })
                } else {
                    None
                }
            },
        }
    }

    /// The IRC message that tells the client `local_nick` of the event.
    pub fn into_irc(self, local_nick: &str, remote_host: String) -> (m: Message)
        ensures
            m@ == irc_of(self@, local_nick@, remote_host@),
    {
        match self {
            ChatEvent::TopicChange { user, room_name, topic } => {
                let chan = channel(room_name.as_str());
                Message::from_prefix(
                    Prefix::Nickname(user.clone(), user, remote_host),
                    Command::Topic(chan, Some(topic)),
                )
            },
            ChatEvent::PublicMessage { from, room_name, msg } => {
                let chan = channel(room_name.as_str());
                Message::from_prefix(
                    Prefix::Nickname(from.clone(), from, remote_host),
                    Command::Privmsg(chan, msg),
                )
            },
            ChatEvent::PrivateMessage { user, msg } => {
                Message::from_prefix(
                    Prefix::Nickname(user.clone(), user, remote_host),
                    Command::Privmsg(String::from_str(local_nick), msg),
                )
            },
        }
    }
}

} // verus!
