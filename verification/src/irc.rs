//! The IRC side of the gateway: the messages that the bridge reads from and
//! writes to a client, as plain values. Encoding and decoding of the wire
//! format is left to the codec that the surrounding program uses.

use vstd::prelude::*;
use vstd::string::*;

verus! {

/// Numeric replies that the gateway sends.
#[derive(Clone, Copy, Debug, PartialEq, Eq, Structural)]
pub enum Response {
    /// 001
    Welcome,
    /// 002
    YourHost,
    /// 332
    Topic,
    /// 353
    NamReply,
    /// 366
    EndOfNames,
    /// 421
    UnknownCommand,
    /// 433
    NicknameInUse,
    /// 464
    PasswdMismatch,
}

impl Response {
    /// The three-digit number of the reply.
    pub open spec fn spec_code(self) -> u16 {
        match self {
            Response::Welcome => 1,
            Response::YourHost => 2,
            Response::Topic => 332,
            Response::NamReply => 353,
            Response::EndOfNames => 366,
            Response::UnknownCommand => 421,
            Response::NicknameInUse => 433,
            Response::PasswdMismatch => 464,
        }
    }

    #[verifier::when_used_as_spec(spec_code)]
    pub fn code(self) -> (n: u16)
        ensures
            n == self.spec_code(),
    {
        match self {
            Response::Welcome => 1,
            Response::YourHost => 2,
            Response::Topic => 332,
            Response::NamReply => 353,
            Response::EndOfNames => 366,
            Response::UnknownCommand => 421,
            Response::NicknameInUse => 433,
            Response::PasswdMismatch => 464,
        }
    }

    /// The reply with the given number, if the gateway knows it.
    pub fn from_code(n: u16) -> (r: Option<Response>)
        ensures
            match r {
                Some(code) => code.spec_code() == n,
                None => forall|c: Response| c.spec_code() != n,
            },
    {
        if n == 1 {
            Some(Response::Welcome)
        } else if n == 2 {
            Some(Response::YourHost)
        } else if n == 332 {
            Some(Response::Topic)
        } else if n == 353 {
            Some(Response::NamReply)
        } else if n == 366 {
            Some(Response::EndOfNames)
        } else if n == 421 {
            Some(Response::UnknownCommand)
        } else if n == 433 {
            Some(Response::NicknameInUse)
        } else if n == 464 {
            Some(Response::PasswdMismatch)
        } else {
            None
        }
    }
}

/// Where a message comes from.
#[derive(Clone, Debug, PartialEq, Eq)]
pub enum Prefix {
    ServerName(String),
    /// Nickname, user name and host.
    Nickname(String, String, String),
}

pub enum PrefixView {
    ServerName(Seq<char>),
    Nickname(Seq<char>, Seq<char>, Seq<char>),
}

impl View for Prefix {
    type V = PrefixView;

    open spec fn view(&self) -> PrefixView {
        match self {
            Prefix::ServerName(name) => PrefixView::ServerName(name@),
            Prefix::Nickname(nick, user, host) => PrefixView::Nickname(nick@, user@, host@),
        }
    }
}

/// The commands that the gateway reads or writes. Every other command of a
/// client is carried as `Raw`, with its name and arguments.
#[derive(Clone, Debug, PartialEq, Eq)]
pub enum Command {
    Pass(String),
    Nick(String),
    /// User name, mode and real name.
    User(String, String, String),
    /// Channel list, key list and real name.
    Join(String, Option<String>, Option<String>),
    /// Channel list and reason.
    Part(String, Option<String>),
    /// Channel and topic.
    Topic(String, Option<String>),
    /// Target and text.
    Privmsg(String, String),
    /// Target and text.
    Notice(String, String),
    Ping(String, Option<String>),
    Pong(String, Option<String>),
    /// Reason; absent when the user is back.
    Away(Option<String>),
    Response(Response, Vec<String>),
    Raw(String, Vec<String>),
}

pub enum CommandView {
    Pass(Seq<char>),
    Nick(Seq<char>),
    User(Seq<char>, Seq<char>, Seq<char>),
    Join(Seq<char>, Option<Seq<char>>, Option<Seq<char>>),
    Part(Seq<char>, Option<Seq<char>>),
    Topic(Seq<char>, Option<Seq<char>>),
    Privmsg(Seq<char>, Seq<char>),
    Notice(Seq<char>, Seq<char>),
    Ping(Seq<char>, Option<Seq<char>>),
    Pong(Seq<char>, Option<Seq<char>>),
    Away(Option<Seq<char>>),
    Response(Response, Seq<Seq<char>>),
    Raw(Seq<char>, Seq<Seq<char>>),
}

impl View for Command {
    type V = CommandView;

    open spec fn view(&self) -> CommandView {
        match self {
            Command::Pass(p) => CommandView::Pass(p@),
            Command::Nick(n) => CommandView::Nick(n@),
            Command::User(u, m, r) => CommandView::User(u@, m@, r@),
            Command::Join(c, k, r) => CommandView::Join(c@, k.deep_view(), r.deep_view()),
            Command::Part(c, r) => CommandView::Part(c@, r.deep_view()),
            Command::Topic(c, t) => CommandView::Topic(c@, t.deep_view()),
            Command::Privmsg(t, m) => CommandView::Privmsg(t@, m@),
            Command::Notice(t, m) => CommandView::Notice(t@, m@),
            Command::Ping(a, b) => CommandView::Ping(a@, b.deep_view()),
            Command::Pong(a, b) => CommandView::Pong(a@, b.deep_view()),
            Command::Away(r) => CommandView::Away(r.deep_view()),
            Command::Response(code, args) => CommandView::Response(*code, args.deep_view()),
            Command::Raw(name, args) => CommandView::Raw(name@, args.deep_view()),
        }
    }
}

/// A message tag: key and optional value.
#[derive(Clone, Debug, PartialEq, Eq)]
pub struct Tag(pub String, pub Option<String>);

impl View for Tag {
    type V = (Seq<char>, Option<Seq<char>>);

    open spec fn view(&self) -> (Seq<char>, Option<Seq<char>>) {
        (self.0@, self.1.deep_view())
    }
}

/// One IRC message.
#[derive(Clone, Debug, PartialEq, Eq)]
pub struct Message {
    pub tags: Option<Vec<Tag>>,
    pub prefix: Option<Prefix>,
    pub command: Command,
}

pub struct MessageView {
    pub tags: Option<Seq<(Seq<char>, Option<Seq<char>>)>>,
    pub prefix: Option<PrefixView>,
    pub command: CommandView,
}

impl View for Message {
    type V = MessageView;

    open spec fn view(&self) -> MessageView {
        MessageView {
            tags: match self.tags {
                Some(tags) => Some(Seq::new(tags.len() as nat, |i: int| tags[i]@)),
                None => None,
            },
            prefix: match self.prefix {
                Some(prefix) => Some(prefix@),
                None => None,
            },
            command: self.command@,
        }
    }
}

/// The views of a list of messages, one by one.
pub open spec fn message_views(messages: Seq<Message>) -> Seq<MessageView> {
    Seq::new(messages.len(), |i: int| messages[i]@)
}

/// An untagged message from `prefix`.
pub open spec fn message_from(prefix: PrefixView, command: CommandView) -> MessageView {
    MessageView { tags: None, prefix: Some(prefix), command }
}

impl Message {
    /// An untagged message from `prefix`.
    pub fn from_prefix(prefix: Prefix, command: Command) -> (m: Message)
        ensures
            m@ == message_from(prefix@, command@),
    {
        Message { tags: None, prefix: Some(prefix), command }
    }
}

/// A copy of an optional string.
pub(crate) fn clone_opt(o: &Option<String>) -> (r: Option<String>)
    ensures
        r.deep_view() == o.deep_view(),
{
    match o {
        Some(s) => Some(s.clone()),
        None => None,
    }
}

} // verus!
