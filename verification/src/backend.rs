//! What passes between the bridge and the program around it: the frames
//! that the backend sends, and what the bridge wants done in return, which
//! is a reply to the client, a call to the backend or a line in the log.

use crate::irc::{Command, CommandView, Message, MessageView};
use crate::schema::{MessageId, RoomEvent};
use serde_json::Value;
use vstd::prelude::*;

verus! {

/// A frame from the backend, as far as the bridge looks into it.
#[derive(Clone, Debug, PartialEq, Eq)]
pub enum ServerMessage {
    /// A document was added to a collection.
    Added { collection: String, id: String, fields: Option<Value> },
    /// Something changed; `event` is the room event that the frame carries,
    /// absent where it carries none or one that could not be read.
    Changed { event: Option<RoomEvent> },
    /// A call of the bridge has completed.
    Updated,
    /// Any other frame.
    Other,
}

/// A call that the bridge asks the backend for.
#[derive(Clone, Debug, PartialEq, Eq)]
pub enum Request {
    /// Look up the room called `name` and join it with `key`. Accepted when
    /// the room exists and the backend lets the user in.
    Join { channel: String, name: String, key: Option<String> },
    /// Look up the room called `name` and leave it. Accepted when the room
    /// exists and the backend lets the user go.
    Leave { channel: String, name: String },
    /// Open the direct-message room with `nick`, making it if there is none
    /// yet; `text` waits to be sent there.
    OpenDirect { nick: String, text: String },
    /// Send `text` to the room `rid` as the message `id`.
    SendMessage { id: MessageId, rid: String, text: String },
    /// Set the topic of the room `rid`, which the client knows as `channel`.
    SetTopic { channel: String, rid: String, topic: Option<String> },
    /// Mark the user as away or as back.
    SetAway { away: bool },
}

pub enum RequestView {
    Join { channel: Seq<char>, name: Seq<char>, key: Option<Seq<char>> },
    Leave { channel: Seq<char>, name: Seq<char> },
    OpenDirect { nick: Seq<char>, text: Seq<char> },
    SendMessage { id: Seq<char>, rid: Seq<char>, text: Seq<char> },
    SetTopic { channel: Seq<char>, rid: Seq<char>, topic: Option<Seq<char>> },
    SetAway { away: bool },
}

impl View for Request {
    type V = RequestView;

    open spec fn view(&self) -> RequestView {
        match self {
            Request::Join { channel, name, key } => RequestView::Join {
                channel: channel@,
                name: name@,
                key: key.deep_view(),
            },
            Request::Leave { channel, name } => RequestView::Leave {
                channel: channel@,
                name: name@,
            },
            Request::OpenDirect { nick, text } => RequestView::OpenDirect {
                nick: nick@,
                text: text@,
            },
            Request::SendMessage { id, rid, text } => RequestView::SendMessage {
                id: id@,
                rid: rid@,
                text: text@,
            },
            Request::SetTopic { channel, rid, topic } => RequestView::SetTopic {
                channel: channel@,
                rid: rid@,
                topic: topic.deep_view(),
            },
            Request::SetAway { away } => RequestView::SetAway { away: *away },
        }
    }
}

/// Something that the bridge passes over and that is worth a line in the
/// log of the program.
#[derive(Clone, Debug, PartialEq, Eq)]
pub enum Warning {
    /// A target of a `JOIN` is no channel, and nothing else can be joined.
    NotAChannel(String),
    /// The client sent a command that the gateway does not serve.
    UnsupportedCommand(Command),
    /// An event does not say where on IRC it belongs.
    NoTarget,
    /// An event is no news in a room of the session: it changes an
    /// earlier message or reacts to one.
    NotNew,
    /// A frame of the backend that carries nothing for the client, or an
    /// event that could not be read.
    UnsupportedFrame,
}

pub enum WarningView {
    NotAChannel(Seq<char>),
    UnsupportedCommand(CommandView),
    NoTarget,
    NotNew,
    UnsupportedFrame,
}

impl View for Warning {
    type V = WarningView;

    open spec fn view(&self) -> WarningView {
        match self {
            Warning::NotAChannel(target) => WarningView::NotAChannel(target@),
            Warning::UnsupportedCommand(command) => WarningView::UnsupportedCommand(command@),
            Warning::NoTarget => WarningView::NoTarget,
            Warning::NotNew => WarningView::NotNew,
            Warning::UnsupportedFrame => WarningView::UnsupportedFrame,
        }
    }
}

/// What the bridge wants done after it has looked at a frame.
#[derive(Clone, Debug, PartialEq, Eq)]
pub enum Action {
    /// Send the message to the client.
    Reply(Message),
    /// Make the call to the backend.
    Call(Request),
    /// Write the warning to the log.
    Warn(Warning),
}

pub enum ActionView {
    Reply(MessageView),
    Call(RequestView),
    Warn(WarningView),
}

impl View for Action {
    type V = ActionView;

    open spec fn view(&self) -> ActionView {
        match self {
            Action::Reply(message) => ActionView::Reply(message@),
            Action::Call(request) => ActionView::Call(request@),
            Action::Warn(warning) => ActionView::Warn(warning@),
        }
    }
}

/// The views of a list of actions, one by one.
pub open spec fn action_views(actions: Seq<Action>) -> Seq<ActionView> {
    Seq::new(actions.len(), |i: int| actions[i]@)
}

} // verus!
