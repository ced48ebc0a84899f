//! The backend's side of the gateway, as plain values: users, rooms,
//! message identifiers and the events that the backend streams.

use vstd::prelude::*;
use vstd::std_specs::cmp::PartialEqSpecImpl;
use vstd::string::*;

verus! {

/// Identifier of a message. The gateway chooses it when it sends a message,
/// and the backend hands it back with the message's echo.
#[derive(Debug, Eq)]
pub struct MessageId {
    text: String,
}

impl View for MessageId {
    type V = Seq<char>;

    closed spec fn view(&self) -> Seq<char> {
        self.text@
    }
}

impl PartialEq for MessageId {
    fn eq(&self, other: &MessageId) -> (r: bool) {
        self.text == other.text
    }
}

impl PartialEqSpecImpl for MessageId {
    open spec fn obeys_eq_spec() -> bool {
        true
    }

    open spec fn eq_spec(&self, other: &MessageId) -> bool {
        self@ == other@
    }
}

impl Clone for MessageId {
    fn clone(&self) -> (r: MessageId)
        ensures
            r@ == self@,
    {
        MessageId { text: self.text.clone() }
    }
}

impl MessageId {
    /// The identifier that reads `text`.
    pub fn new(text: String) -> (id: MessageId)
        ensures
            id@ == text@,
    {
        MessageId { text }
    }

    /// How the identifier reads.
    pub fn as_str(&self) -> (text: &str)
        ensures
            text@ == self@,
    {
        self.text.as_str()
    }
}

/// A user as the backend names it in events and member lists.
#[derive(Clone, Debug, PartialEq, Eq)]
pub struct ShortUser {
    pub id: String,
    pub username: String,
}

pub struct ShortUserView {
    pub id: Seq<char>,
    pub username: Seq<char>,
}

impl View for ShortUser {
    type V = ShortUserView;

    open spec fn view(&self) -> ShortUserView {
        ShortUserView { id: self.id@, username: self.username@ }
    }
}

/// The user names of a member list, one by one.
pub open spec fn usernames(users: Seq<ShortUser>) -> Seq<Seq<char>> {
    Seq::new(users.len(), |i: int| users[i].username@)
}

/// A room of the backend that the user is in.
#[derive(Clone, Debug, PartialEq, Eq)]
pub enum Room {
    /// A public channel, type tag `c`.
    Chat { id: String, name: String, topic: Option<String>, last_seen: u64 },
    /// A private group, type tag `p`.
    Private { id: String, name: String, topic: Option<String>, last_seen: u64 },
    /// A conversation between two users, type tag `d`.
    Direct { id: String, last_seen: u64 },
    /// A room of any other type.
    Other { id: String, room_type: char, last_seen: u64 },
}

pub enum RoomView {
    Chat { id: Seq<char>, name: Seq<char>, topic: Option<Seq<char>>, last_seen: u64 },
    Private { id: Seq<char>, name: Seq<char>, topic: Option<Seq<char>>, last_seen: u64 },
    Direct { id: Seq<char>, last_seen: u64 },
    Other { id: Seq<char>, room_type: char, last_seen: u64 },
}

impl RoomView {
    pub open spec fn id(self) -> Seq<char> {
        match self {
            RoomView::Chat { id, .. } => id,
            RoomView::Private { id, .. } => id,
            RoomView::Direct { id, .. } => id,
            RoomView::Other { id, .. } => id,
        }
    }

    pub open spec fn name(self) -> Option<Seq<char>> {
        match self {
            RoomView::Chat { name, .. } => Some(name),
            RoomView::Private { name, .. } => Some(name),
            _ => None,
        }
    }

    pub open spec fn topic(self) -> Option<Seq<char>> {
        match self {
            RoomView::Chat { topic, .. } => topic,
            RoomView::Private { topic, .. } => topic,
            _ => None,
        }
    }

    pub open spec fn room_type(self) -> char {
        match self {
            RoomView::Chat { .. } => 'c',
            RoomView::Private { .. } => 'p',
            RoomView::Direct { .. } => 'd',
            RoomView::Other { room_type, .. } => room_type,
        }
    }

    pub open spec fn last_seen(self) -> u64 {
        match self {
            RoomView::Chat { last_seen, .. } => last_seen,
            RoomView::Private { last_seen, .. } => last_seen,
            RoomView::Direct { last_seen, .. } => last_seen,
            RoomView::Other { last_seen, .. } => last_seen,
        }
    }

    /// Whether something stamped `ts` is newer than what was last seen in the room.
    pub open spec fn is_fresh(self, ts: u64) -> bool {
        ts > self.last_seen()
    }
}

impl View for Room {
    type V = RoomView;

    open spec fn view(&self) -> RoomView {
        match self {
            Room::Chat { id, name, topic, last_seen } => RoomView::Chat {
                id: id@,
                name: name@,
                topic: topic.deep_view(),
                last_seen: *last_seen,
            },
            Room::Private { id, name, topic, last_seen } => RoomView::Private {
                id: id@,
                name: name@,
                topic: topic.deep_view(),
                last_seen: *last_seen,
            },
            Room::Direct { id, last_seen } => RoomView::Direct { id: id@, last_seen: *last_seen },
            Room::Other { id, room_type, last_seen } => RoomView::Other {
                id: id@,
                room_type: *room_type,
                last_seen: *last_seen,
            },
        }
    }
}

impl Room {
    /// The room's identifier, by which the backend knows it.
    pub fn id(&self) -> (id: &String)
        ensures
            id@ == self@.id(),
    {
        match self {
            Room::Chat { id, .. } => id,
            Room::Private { id, .. } => id,
            Room::Direct { id, .. } => id,
            Room::Other { id, .. } => id,
        }
    }

    /// The room's name; only public channels and private groups have one.
    pub fn name(&self) -> (name: Option<&String>)
        ensures
            name.deep_view() == self@.name(),
    {
        match self {
            Room::Chat { name, .. } => Some(name),
            Room::Private { name, .. } => Some(name),
            _ => None,
        }
    }

    /// The room's topic, if it has one.
    pub fn topic(&self) -> (topic: Option<&String>)
        ensures
            topic.deep_view() == self@.topic(),
    {
        match self {
            Room::Chat { topic, .. } => topic.as_ref(),
            Room::Private { topic, .. } => topic.as_ref(),
            _ => None,
        }
    }

    /// The backend's one-character tag of the room's type.
    pub fn room_type(&self) -> (tag: char)
        ensures
            tag == self@.room_type(),
    {
        match self {
            Room::Chat { .. } => 'c',
            Room::Private { .. } => 'p',
            Room::Direct { .. } => 'd',
            Room::Other { room_type, .. } => *room_type,
        }
    }

    /// When something was last seen in the room.
    pub fn last_seen(&self) -> (ts: u64)
        ensures
            ts == self@.last_seen(),
    {
        match self {
            Room::Chat { last_seen, .. } => *last_seen,
            Room::Private { last_seen, .. } => *last_seen,
            Room::Direct { last_seen, .. } => *last_seen,
            Room::Other { last_seen, .. } => *last_seen,
        }
    }

    /// Whether something stamped `ts` is newer than what was last seen in the room.
    pub fn is_timestamp_fresh(&self, ts: u64) -> (fresh: bool)
        ensures
            fresh == self@.is_fresh(ts),
    {
        ts > self.last_seen()
    }
}

/// A file or link that comes with a message.
#[derive(Clone, Debug, PartialEq, Eq)]
pub struct Attachment {
    pub title: Option<String>,
    pub image_url: Option<String>,
}

pub struct AttachmentView {
    pub title: Option<Seq<char>>,
    pub image_url: Option<Seq<char>>,
}

impl View for Attachment {
    type V = AttachmentView;

    open spec fn view(&self) -> AttachmentView {
        AttachmentView { title: self.title.deep_view(), image_url: self.image_url.deep_view() }
    }
}

/// What an event says of a message: its type tag `t` (absent for an ordinary
/// message), text, sender, room, time stamp, identifier and attachments.
#[derive(Clone, Debug, PartialEq, Eq)]
pub struct RoomEventData {
    pub t: Option<String>,
    pub msg: String,
    pub u: ShortUser,
    pub rid: String,
    pub ts: u64,
    pub id: MessageId,
    pub attachments: Vec<Attachment>,
}

pub struct RoomEventDataView {
    pub t: Option<Seq<char>>,
    pub msg: Seq<char>,
    pub u: ShortUserView,
    pub rid: Seq<char>,
    pub ts: u64,
    pub id: Seq<char>,
    pub attachments: Seq<AttachmentView>,
}

impl View for RoomEventData {
    type V = RoomEventDataView;

    open spec fn view(&self) -> RoomEventDataView {
        RoomEventDataView {
            t: self.t.deep_view(),
            msg: self.msg@,
            u: self.u@,
            rid: self.rid@,
            ts: self.ts,
            id: self.id@,
            attachments: Seq::new(self.attachments.len() as nat, |i: int| self.attachments[i]@),
        }
    }
}

/// What an event says of the room it happened in.
#[derive(Clone, Debug, PartialEq, Eq)]
pub struct RoomExtraInfo {
    pub room_name: Option<String>,
    pub room_type: char,
}

pub struct RoomExtraInfoView {
    pub room_name: Option<Seq<char>>,
    pub room_type: char,
}

impl View for RoomExtraInfo {
    type V = RoomExtraInfoView;

    open spec fn view(&self) -> RoomExtraInfoView {
        RoomExtraInfoView { room_name: self.room_name.deep_view(), room_type: self.room_type }
    }
}

/// An event that the backend streams for one of the user's rooms.
#[derive(Clone, Debug, PartialEq, Eq)]
pub struct RoomEvent {
    pub data: RoomEventData,
    pub extra: RoomExtraInfo,
}

pub struct RoomEventView {
    pub data: RoomEventDataView,
    pub extra: RoomExtraInfoView,
}

impl View for RoomEvent {
    type V = RoomEventView;

    open spec fn view(&self) -> RoomEventView {
        RoomEventView { data: self.data@, extra: self.extra@ }
    }
}

} // verus!
