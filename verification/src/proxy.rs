//! The bridge between one IRC client and the backend: who the client is,
//! the messages that the gateway sends on its own account, and the
//! translation of frames in both directions.

use crate::backend::{
    action_views, Action, ActionView, Request, RequestView, ServerMessage, Warning, WarningView,
};
use crate::irc::{
    clone_opt, message_from, message_views, Command, CommandView, Message, MessageView, Prefix,
    PrefixView, Response,
};
use crate::json::{name_view, username_in, username_of, UsernameError};
use crate::schema::{
    Attachment, AttachmentView, MessageId, Room, RoomEvent, RoomEventView, RoomExtraInfoView,
    RoomView,
};
use crate::session::{by_id, by_name, with_room, Session};
use crate::text::{
    blank, channel, channel_of, is_blank, is_channel, room_name_of, same, split, split_on,
    strip_channel,
};
use crate::util::{
    latest, lazy_pairs, lazy_zip, lemma_filter_map_push, lemma_ring_keeps_latest, remembers,
    ring_after, ring_push, Cache,
};
use vstd::prelude::*;
use vstd::std_specs::cmp::PartialEqSpec;
use vstd::string::*;

verus! {

/// Where the gateway listens and which backend it serves.
#[derive(Clone, Debug, PartialEq, Eq)]
pub struct ProxyListener {
    bind: String,
    backend: String,
}

impl ProxyListener {
    /// The address that clients connect to.
    pub closed spec fn spec_bind(&self) -> Seq<char> {
        self.bind@
    }

    /// The host of the backend.
    pub closed spec fn spec_backend(&self) -> Seq<char> {
        self.backend@
    }

    /// A listener on `bind` for the backend at `backend`.
    pub fn new(bind: String, backend: String) -> (listener: ProxyListener)
        ensures
            listener.spec_bind() == bind@,
            listener.spec_backend() == backend@,
    {
        ProxyListener { bind, backend }
    }

    /// The address that clients connect to.
    pub fn bind(&self) -> (bind: &str)
        ensures
            bind@ == self.spec_bind(),
    {
        self.bind.as_str()
    }

    /// The host of the backend.
    pub fn backend(&self) -> (backend: &str)
        ensures
            backend@ == self.spec_backend(),
    {
        self.backend.as_str()
    }
}

/// Who a client is: the names it registered with, the token it gave as its
/// password, and the host it connected from.
#[derive(Clone, Debug, PartialEq, Eq)]
pub struct ClientInfo {
    pub nick: String,
    pub user: String,
    pub pass: String,
    pub host: String,
}

pub struct ClientInfoView {
    pub nick: Seq<char>,
    pub user: Seq<char>,
    pub pass: Seq<char>,
    pub host: Seq<char>,
}

impl ClientInfoView {
    /// The prefix of the client's own messages.
    pub open spec fn prefix(self) -> PrefixView {
        PrefixView::Nickname(self.nick, self.user, self.host)
    }

    /// `nick!user@host`.
    pub open spec fn hostmask(self) -> Seq<char> {
        self.nick + "!"@ + self.user + "@"@ + self.host
    }

    /// `command` as if the client itself had said it.
    pub open spec fn echo(self, command: CommandView) -> MessageView {
        message_from(self.prefix(), command)
    }
}

impl View for ClientInfo {
    type V = ClientInfoView;

    open spec fn view(&self) -> ClientInfoView {
        ClientInfoView { nick: self.nick@, user: self.user@, pass: self.pass@, host: self.host@ }
    }
}

impl ClientInfo {
    /// The prefix of the client's own messages.
    pub fn prefix(&self) -> (p: Prefix)
        ensures
            p@ == self@.prefix(),
    {
        Prefix::Nickname(self.nick.clone(), self.user.clone(), self.host.clone())
    }

    /// The client as `nick!user@host`.
    pub fn hostmask(&self) -> (mask: String)
        ensures
            mask@ == self@.hostmask(),
    {
        let mut mask = self.nick.clone();
        mask.append("!");
        mask.append(self.user.as_str());
        mask.append("@");
        mask.append(self.host.as_str());
        mask
    }

    /// `command` as a message from the client itself, which is how the
    /// gateway confirms what the client asked for.
    pub fn echo_back(&self, command: Command) -> (m: Message)
        ensures
            m@ == self@.echo(command@),
    {
        Message::from_prefix(self.prefix(), command)
    }
}

/// The numeric reply `code` of the server `server_name` to `user`, with
/// `args` after the user's name.
pub open spec fn server_reply(
    server_name: Seq<char>,
    user: Seq<char>,
    code: Response,
    args: Seq<Seq<char>>,
) -> MessageView {
    message_from(
        PrefixView::ServerName(server_name),
        CommandView::Response(code, seq![user] + args),
    )
}

/// The numeric reply `code` of the server `server_name` to `user`.
pub fn server_response(server_name: &str, user: String, code: Response, args: Vec<String>) -> (m:
    Message)
    ensures
        m@ == server_reply(server_name@, user@, code, args.deep_view()),
{
    let mut args = args;
    let ghost rest = args.deep_view();
    let ghost name = user@;
    args.insert(0, user);
    assert(args.deep_view() =~= seq![name] + rest);
    Message::from_prefix(
        Prefix::ServerName(String::from_str(server_name)),
        Command::Response(code, args),
    )
}

/// A notice of the server `server_addr` to `nick`.
pub open spec fn notice(server_addr: Seq<char>, nick: Seq<char>, text: Seq<char>) -> MessageView {
    message_from(PrefixView::ServerName(server_addr), CommandView::Notice(nick, text))
}

/// A notice of the server `server_addr` to `nick`.
pub fn server_notice(server_addr: &str, nick: &str, text: String) -> (m: Message)
    ensures
        m@ == notice(server_addr@, nick@, text@),
{
    Message::from_prefix(
        Prefix::ServerName(String::from_str(server_addr)),
        Command::Notice(String::from_str(nick), text),
    )
}

/// Two strings as a list.
pub(crate) fn pair(a: String, b: String) -> (v: Vec<String>)
    ensures
        v.deep_view() == seq![a@, b@],
{
    let mut v: Vec<String> = Vec::new();
    let ghost av = a@;
    let ghost bv = b@;
    v.push(a);
    v.push(b);
    assert(v.deep_view() =~= seq![av, bv]);
    v
}

/// Three strings as a list.
pub(crate) fn triple(a: String, b: String, c: String) -> (v: Vec<String>)
    ensures
        v.deep_view() == seq![a@, b@, c@],
{
    let mut v: Vec<String> = Vec::new();
    let ghost av = a@;
    let ghost bv = b@;
    let ghost cv = c@;
    v.push(a);
    v.push(b);
    v.push(c);
    assert(v.deep_view() =~= seq![av, bv, cv]);
    v
}

/// One string as a list.
pub(crate) fn single(a: String) -> (v: Vec<String>)
    ensures
        v.deep_view() == seq![a@],
{
    let mut v: Vec<String> = Vec::new();
    let ghost av = a@;
    v.push(a);
    assert(v.deep_view() =~= seq![av]);
    v
}

/// What the server `server_addr` tells `nick` when the backend refuses the
/// client's token.
pub open spec fn token_rejected(server_addr: Seq<char>, nick: Seq<char>) -> MessageView {
    server_reply(
        server_addr,
        nick,
        Response::PasswdMismatch,
        seq!["Backend server rejected token"@],
    )
}

/// What `client` is told, in the name of the server `server_addr`, when the
/// backend refuses its token.
pub fn login_rejected(client: &ClientInfo, server_addr: &str) -> (m: Message)
    ensures
        m@ == token_rejected(server_addr@, client@.nick),
{
    server_response(
        server_addr,
        client.nick.clone(),
        Response::PasswdMismatch,
        single(String::from_str("Backend server rejected token")),
    )
}

/// The two replies by which the server `server_addr`, which runs in
/// version `version`, welcomes a client.
pub open spec fn greeting(
    client: ClientInfoView,
    server_addr: Seq<char>,
    version: Seq<char>,
) -> Seq<MessageView> {
    seq![
        server_reply(
            server_addr,
            client.nick,
            Response::Welcome,
            seq!["Welcome to IRC "@ + client.hostmask()],
        ),
        server_reply(
            server_addr,
            client.nick,
            Response::YourHost,
            seq!["Your host is "@ + server_addr + ", running croquette v"@ + version],
        ),
    ]
}

/// The change of nick that tells a client the name under which the backend
/// knows it, where that is not the nick it registered with.
pub open spec fn renaming(client: ClientInfoView, canonical: Seq<char>) -> Seq<MessageView> {
    if canonical != client.nick {
        seq![client.echo(CommandView::Nick(canonical))]
    } else {
        Seq::empty()
    }
}

/// Welcomes `client` once the backend has accepted it and its name there
/// is known to be `canonical`: the two welcoming replies, and the change of
/// nick where the names differ. From then on the client goes by `canonical`.
pub fn welcome(
    client: &mut ClientInfo,
    server_addr: &str,
    version: &str,
    canonical: String,
) -> (out: Vec<Message>)
    ensures
        message_views(out@) == greeting(old(client)@, server_addr@, version@) + renaming(
            old(client)@,
            canonical@,
        ),
        final(client)@ == (ClientInfoView { nick: canonical@, ..old(client)@ }),
{
    let mut out: Vec<Message> = Vec::new();
    let mut text = String::from_str("Welcome to IRC ");
    text.append(client.hostmask().as_str());
    let first = server_response(server_addr, client.nick.clone(), Response::Welcome, single(text));
    let mut host = String::from_str("Your host is ");
    host.append(server_addr);
    host.append(", running croquette v");
    host.append(version);
    let second = server_response(
        server_addr,
        client.nick.clone(),
        Response::YourHost,
        single(host),
    );
    let ghost a = first@;
    let ghost b = second@;
    out.push(first);
    out.push(second);
    if !same(canonical.as_str(), client.nick.as_str()) {
        let rename = client.echo_back(Command::Nick(canonical.clone()));
        let ghost c = rename@;
        out.push(rename);
        assert(message_views(out@) =~= seq![a, b] + seq![c]);
    } else {
        assert(message_views(out@) =~= seq![a, b] + Seq::<MessageView>::empty());
    }
    client.nick = canonical;
    out
}

/// What a client is told of a room that it is in when the session begins:
/// for a room with a name, that the client has joined the channel and, if
/// there is one, the channel's topic, which the server `server_addr`
/// reports; nothing for other rooms.
pub open spec fn room_joined(client: ClientInfoView, server_addr: Seq<char>, room: RoomView) -> Seq<
    MessageView,
> {
    match room.name() {
        Some(name) => {
            let chan = channel_of(name);
            let join = client.echo(CommandView::Join(chan, None, None));
            match room.topic() {
                Some(topic) => seq![
                    join,
                    server_reply(server_addr, client.nick, Response::Topic, seq![chan, topic]),
                ],
                None => seq![join],
            }
        },
        None => Seq::empty(),
    }
}

/// What `client` is told of `room` when the session begins, as far as the
/// server `server_addr` says it.
pub fn announce_room(client: &ClientInfo, server_addr: &str, room: &Room) -> (out: Vec<Message>)
    ensures
        message_views(out@) == room_joined(client@, server_addr@, room@),
{
    let mut out: Vec<Message> = Vec::new();
    match room.name() {
        Some(name) => {
            let chan = channel(name.as_str());
            let join = client.echo_back(Command::Join(chan.clone(), None, None));
            let ghost j = join@;
            out.push(join);
            match room.topic() {
                Some(topic) => {
                    let reply = server_response(
                        server_addr,
                        client.nick.clone(),
                        Response::Topic,
                        pair(chan, topic.clone()),
                    );
                    let ghost r = reply@;
                    out.push(reply);
                    assert(message_views(out@) =~= seq![j, r]);
                },
                None => {
                    assert(message_views(out@) =~= seq![j]);
                },
            }
        },
        None => {
            assert(message_views(out@) =~= Seq::<MessageView>::empty());
        },
    }
    out
}

/// Whether the frame says that the user `id` was added to the users.
pub open spec fn adds_user(msg: ServerMessage, id: Seq<char>) -> bool {
    msg matches ServerMessage::Added { collection, id: found, .. } && collection@ == "users"@
        && found@ == id
}

/// Looks at a frame for the name of the user `id`. The frame that adds this
/// user to the collection `users` decides: it gives the name, or what is
/// wrong with its fields. Every other frame gives `None`, and the bridge
/// waits for the next one.
pub fn recover_username(msg: &ServerMessage, id: &str) -> (r: Option<Result<String, UsernameError>>)
    ensures
        !adds_user(*msg, id@) ==> r is None,
        adds_user(*msg, id@) ==> r is Some && name_view(r->0) == username_in(msg->fields),
{
    match msg {
        ServerMessage::Added { collection, id: found, fields } => {
            if same(collection.as_str(), "users") && same(found.as_str(), id) {
                Some(username_of(fields.as_ref()))
            } else {
                None
            }
        },
        _ => None,
    }
}

/// How many messages of its own the bridge recognises when they come back.
pub const SENT_CACHE: usize = 256;

/// Whether the event says that the topic of a channel was changed.
pub open spec fn topic_changed(ev: RoomEventView) -> bool {
    ev.data.t == Some("room_changed_topic"@) && ev.extra.room_name is Some && (ev.extra.room_type
        == 'c' || ev.extra.room_type == 'p')
}

/// Whether the event says that a user left a channel.
pub open spec fn user_left(ev: RoomEventView) -> bool {
    ev.data.t == Some("ul"@) && ev.extra.room_name is Some && (ev.extra.room_type == 'c'
        || ev.extra.room_type == 'p')
}

/// Where on IRC a message of the room goes: to the channel of a named
/// public or private room, to the client's own nick for a direct
/// conversation, and nowhere for anything else.
pub open spec fn event_target(extra: RoomExtraInfoView, nick: Seq<char>) -> Option<Seq<char>> {
    if (extra.room_type == 'c' || extra.room_type == 'p') && extra.room_name is Some {
        Some(channel_of(extra.room_name->0))
    } else if extra.room_type == 'd' && extra.room_name is None {
        Some(nick)
    } else {
        None
    }
}

/// Whether an event stamped `ts` in the room `rid` is news: the session
/// holds the room, and the stamp is newer than what was last seen there.
pub open spec fn is_new(rooms: Seq<RoomView>, rid: Seq<char>, ts: u64) -> bool {
    match by_id(rooms, rid) {
        Some(room) => room.is_fresh(ts),
        None => false,
    }
}

/// Whether one of `ids` reads `id`.
pub open spec fn recalls(ids: Seq<MessageId>, id: Seq<char>) -> bool {
    exists|i: int| 0 <= i < ids.len() && (#[trigger] ids[i])@ == id
}

/// How an attachment is described: `[title](url)`, or as much of it as
/// there is.
pub open spec fn attachment_text(a: AttachmentView) -> Seq<char> {
    match (a.title, a.image_url) {
        (Some(title), Some(url)) => "["@ + title + "]("@ + url + ")"@,
        (Some(title), None) => "["@ + title + "]"@,
        (None, Some(url)) => url,
        (None, None) => "<UNKNOWN ATTACHMENT>"@,
    }
}

/// The text of a CTCP action that says `what`.
pub open spec fn action_text(what: Seq<char>) -> Seq<char> {
    "\x01ACTION "@ + what + "\x01"@
}

/// The prefix of what the user `username` says through the backend at `host`.
pub open spec fn speaker(username: Seq<char>, host: Seq<char>) -> PrefixView {
    PrefixView::Nickname(username, username, host)
}

/// The messages that tell of the attachments, one action for each.
pub open spec fn attachment_messages(
    from: PrefixView,
    target: Seq<char>,
    attachments: Seq<AttachmentView>,
) -> Seq<MessageView> {
    Seq::new(
        attachments.len(),
        |i: int|
            message_from(
                from,
                CommandView::Privmsg(target, action_text(attachment_text(attachments[i]))),
            ),
    )
}

/// The message that carries the text of an event, unless the text is blank.
pub open spec fn text_messages(from: PrefixView, target: Seq<char>, msg: Seq<char>) -> Seq<
    MessageView,
> {
    if is_blank(msg) {
        Seq::empty()
    } else {
        seq![message_from(from, CommandView::Privmsg(target, msg))]
    }
}

/// What the client `nick` is told of a room event, by a bridge that holds
/// `rooms`, remembers having sent `ids` and speaks for the backend at
/// `host`. A change of topic and a user's leaving are passed on as such.
/// Every other event is a message: it is passed on where it has a target,
/// is news and is not one that the bridge sent itself, as its text, if that
/// is not blank, followed by one action for each attachment.
pub open spec fn translate(
    rooms: Seq<RoomView>,
    ids: Seq<MessageId>,
    nick: Seq<char>,
    host: Seq<char>,
    ev: RoomEventView,
) -> Seq<MessageView> {
    let from = speaker(ev.data.u.username, host);
    if topic_changed(ev) {
        seq![
            message_from(
                from,
                CommandView::Topic(channel_of(ev.extra.room_name->0), Some(ev.data.msg)),
            ),
        ]
    } else if user_left(ev) {
        seq![message_from(from, CommandView::Part(channel_of(ev.extra.room_name->0), None))]
    } else {
        match event_target(ev.extra, nick) {
            None => Seq::empty(),
            Some(target) => if !is_new(rooms, ev.data.rid, ev.data.ts) || recalls(
                ids,
                ev.data.id,
            ) {
                Seq::empty()
            } else {
                text_messages(from, target, ev.data.msg) + attachment_messages(
                    from,
                    target,
                    ev.data.attachments,
                )
            },
        }
    }
}

/// Why a room event that is neither a change of topic nor a user's
/// leaving is passed over with a warning: it has no target, or it is no
/// news. An echo of the bridge's own message is passed over in silence.
pub open spec fn passed_over(rooms: Seq<RoomView>, nick: Seq<char>, ev: RoomEventView) -> Option<
    WarningView,
> {
    if topic_changed(ev) || user_left(ev) {
        None
    } else if event_target(ev.extra, nick) is None {
        Some(WarningView::NoTarget)
    } else if !is_new(rooms, ev.data.rid, ev.data.ts) {
        Some(WarningView::NotNew)
    } else {
        None
    }
}

/// The actions that send `messages` to the client, in order.
pub open spec fn replies(messages: Seq<MessageView>) -> Seq<ActionView> {
    Seq::new(messages.len(), |i: int| ActionView::Reply(messages[i]))
}

/// The action that logs a warning, if there is one.
pub open spec fn warned(warning: Option<WarningView>) -> Seq<ActionView> {
    match warning {
        Some(warning) => seq![ActionView::Warn(warning)],
        None => Seq::empty(),
    }
}

/// What follows from a frame of the backend. Of the room event that a
/// change carries the client is told what `translate` says, and a warning
/// is due where the event was passed over. The completion of a call is
/// ignored in silence, every other frame with a warning.
pub open spec fn told(
    rooms: Seq<RoomView>,
    ids: Seq<MessageId>,
    nick: Seq<char>,
    host: Seq<char>,
    msg: ServerMessage,
) -> Seq<ActionView> {
    match msg {
        ServerMessage::Changed { event: Some(ev) } => replies(
            translate(rooms, ids, nick, host, ev@),
        ) + warned(passed_over(rooms, nick, ev@)),
        ServerMessage::Updated => Seq::empty(),
        _ => seq![ActionView::Warn(WarningView::UnsupportedFrame)],
    }
}

/// A message-like event that carries the identifier of a message that the
/// bridge still remembers having sent is its own echo: nothing of it is
/// sent to the client.
pub proof fn lemma_echo_suppressed(
    rooms: Seq<RoomView>,
    ids: Seq<MessageId>,
    nick: Seq<char>,
    host: Seq<char>,
    ev: RoomEventView,
)
    requires
        recalls(ids, ev.data.id),
        !topic_changed(ev),
        !user_left(ev),
    ensures
        translate(rooms, ids, nick, host, ev) == Seq::<MessageView>::empty(),
        replies(translate(rooms, ids, nick, host, ev)) == Seq::<ActionView>::empty(),
{
}

/// Of the identifiers that a bridge has sent, in order, it still remembers
/// each of the latest `cap`.
pub proof fn lemma_recent_send_recalled(sent: Seq<MessageId>, cap: nat, k: int)
    requires
        0 <= k < sent.len(),
        sent.len() - k <= cap,
    ensures
        recalls(ring_after(sent, cap), sent[k]@),
{
    lemma_ring_keeps_latest(sent, cap);
    let kept = latest(sent, cap);
    if sent.len() <= cap {
        assert(kept[k] == sent[k]);
    } else {
        assert(kept[k - (sent.len() - cap)] == sent[k]);
    }
}

/// The description of an attachment.
pub fn describe(a: &Attachment) -> (text: String)
    ensures
        text@ == attachment_text(a@),
{
    match (&a.title, &a.image_url) {
        (Some(title), Some(url)) => {
            let mut text = String::from_str("[");
            text.append(title.as_str());
            text.append("](");
            text.append(url.as_str());
            text.append(")");
            text
        },
        (Some(title), None) => {
            let mut text = String::from_str("[");
            text.append(title.as_str());
            text.append("]");
            text
        },
        (None, Some(url)) => url.clone(),
        (None, None) => String::from_str("<UNKNOWN ATTACHMENT>"),
    }
}

/// What follows from one target of a `JOIN` and its key: the call that
/// joins the channel, or a warning where the target is no channel.
pub open spec fn join_action() -> spec_fn((Seq<char>, Option<Seq<char>>)) -> ActionView {
    |p: (Seq<char>, Option<Seq<char>>)|
        if is_channel(p.0) {
            ActionView::Call(RequestView::Join { channel: p.0, name: room_name_of(p.0), key: p.1 })
        } else {
            ActionView::Warn(WarningView::NotAChannel(p.0))
        }
}

/// The call that leaves one channel.
pub open spec fn leave_call() -> spec_fn(Seq<char>) -> ActionView {
    |c: Seq<char>| ActionView::Call(RequestView::Leave { channel: c, name: room_name_of(c) })
}

/// Whether a target names a channel.
pub open spec fn names_channel() -> spec_fn(Seq<char>) -> bool {
    |c: Seq<char>| is_channel(c)
}

/// One action for each target of a `JOIN`, in order: the call that joins a
/// channel, and a warning for every other target. The keys go to the
/// targets in the order of the lists, as far as there are keys.
pub open spec fn join_calls(chans: Seq<char>, keys: Option<Seq<char>>) -> Seq<ActionView> {
    let keys = match keys {
        Some(k) => Some(split_on(k, ',')),
        None => None,
    };
    lazy_pairs(split_on(chans, ','), keys).map_values(join_action())
}

/// One call for each target of a `PART` that names a channel.
pub open spec fn leave_calls(chans: Seq<char>) -> Seq<ActionView> {
    split_on(chans, ',').filter(names_channel()).map_values(leave_call())
}

/// What a message to `target` leads to: it is sent to the room behind a
/// channel that the session holds, as the message `id`; a message to a nick
/// waits for the direct-message room with that user to be opened.
pub open spec fn message_calls(
    rooms: Seq<RoomView>,
    target: Seq<char>,
    text: Seq<char>,
    id: Seq<char>,
) -> Seq<ActionView> {
    if is_channel(target) {
        match by_name(rooms, room_name_of(target)) {
            Some(room) => seq![
                ActionView::Call(RequestView::SendMessage { id, rid: room.id(), text }),
            ],
            None => Seq::empty(),
        }
    } else {
        seq![ActionView::Call(RequestView::OpenDirect { nick: target, text })]
    }
}

/// What a `TOPIC` for `target` leads to: the call that sets the topic of the
/// room behind a channel that the session holds, and nothing otherwise.
pub open spec fn topic_calls(rooms: Seq<RoomView>, target: Seq<char>, topic: Option<Seq<char>>)
    -> Seq<ActionView> {
    if is_channel(target) {
        match by_name(rooms, room_name_of(target)) {
            Some(room) => seq![
                ActionView::Call(
                    RequestView::SetTopic { channel: target, rid: room.id(), topic },
                ),
            ],
            None => Seq::empty(),
        }
    } else {
        Seq::empty()
    }
}

/// Whether the command makes the bridge send a message at once, for which
/// it takes a new identifier.
pub open spec fn sends(rooms: Seq<RoomView>, command: CommandView) -> bool {
    command matches CommandView::Privmsg(target, _) && is_channel(target) && by_name(
        rooms,
        room_name_of(target),
    ) is Some
}

/// What follows from a command of the client, for a bridge that speaks as
/// the server `server` and holds `rooms`; `id` is the identifier that a
/// message takes if one is sent.
pub open spec fn plan(
    client: ClientInfoView,
    server: Seq<char>,
    rooms: Seq<RoomView>,
    command: CommandView,
    id: Seq<char>,
) -> Seq<ActionView> {
    match command {
        CommandView::Join(chans, keys, _) => join_calls(chans, keys),
        CommandView::Nick(_) => seq![
            ActionView::Reply(
                server_reply(
                    server,
                    client.nick,
                    Response::NicknameInUse,
                    seq!["Can't change your nick in rocket, sorry :("@],
                ),
            ),
        ],
        CommandView::Part(chans, _) => leave_calls(chans),
        CommandView::Ping(a, b) => seq![
            ActionView::Reply(
                message_from(PrefixView::ServerName(server), CommandView::Pong(a, b)),
            ),
        ],
        CommandView::Privmsg(target, text) => message_calls(rooms, target, text, id),
        CommandView::Topic(target, topic) => topic_calls(rooms, target, topic),
        CommandView::Away(reason) => seq![
            ActionView::Call(RequestView::SetAway { away: reason is Some }),
        ],
        _ => seq![
            ActionView::Warn(WarningView::UnsupportedCommand(command)),
            ActionView::Reply(
                server_reply(
                    server,
                    client.nick,
                    Response::UnknownCommand,
                    seq!["Command unsupported by Croquette"@],
                ),
            ),
        ],
    }
}

/// What the client is told once the backend has answered a call: joining
/// and leaving a channel and setting a topic are confirmed in the client's
/// own name where the backend accepted them. Nothing is said of a call that
/// was refused, nor of any other call.
pub open spec fn confirmation(client: ClientInfoView, request: RequestView, accepted: bool)
    -> Option<MessageView> {
    if !accepted {
        None
    } else {
        match request {
            RequestView::Join { channel, .. } => Some(
                client.echo(CommandView::Join(channel, None, None)),
            ),
            RequestView::Leave { channel, .. } => Some(
                client.echo(CommandView::Part(channel, None)),
            ),
            RequestView::SetTopic { channel, topic, .. } => Some(
                client.echo(CommandView::Topic(channel, topic)),
            ),
            _ => None,
        }
    }
}

/// The channel of a room is a channel, and the room's name is found in it again.
pub proof fn lemma_channel_names_room(name: Seq<char>)
    ensures
        is_channel(channel_of(name)),
        room_name_of(channel_of(name)) == name,
{
    assert(channel_of(name).skip(1) =~= name);
}

/// A `TOPIC` for the channel of a room that the session holds leads to
/// exactly one call, and when the backend accepts that call the client gets
/// exactly the `TOPIC` it sent back, in its own name.
pub proof fn lemma_topic_round_trip(
    client: ClientInfoView,
    server: Seq<char>,
    rooms: Seq<RoomView>,
    name: Seq<char>,
    topic: Seq<char>,
    id: Seq<char>,
)
    requires
        by_name(rooms, name) is Some,
    ensures
        ({
            let target = channel_of(name);
            let request = RequestView::SetTopic {
                channel: target,
                rid: by_name(rooms, name)->0.id(),
                topic: Some(topic),
            };
            &&& plan(client, server, rooms, CommandView::Topic(target, Some(topic)), id)
                == seq![ActionView::Call(request)]
            &&& confirmation(client, request, true) == Some(
                client.echo(CommandView::Topic(target, Some(topic))),
            )
        }),
{
    lemma_channel_names_room(name);
}

/// The views of a list of targets with their keys, one by one.
spec fn pair_views(pairs: Seq<(String, Option<String>)>) -> Seq<
    (Seq<char>, Option<Seq<char>>),
> {
    Seq::new(pairs.len(), |i: int| (pairs[i].0@, pairs[i].1.deep_view()))
}

/// The prefix of what the user `username` says through the backend at `host`.
fn speaker_prefix(username: &str, host: &str) -> (p: Prefix)
    ensures
        p@ == speaker(username@, host@),
{
    Prefix::Nickname(
        String::from_str(username),
        String::from_str(username),
        String::from_str(host),
    )
}

/// The text of a CTCP action that says `what`.
fn action(what: &str) -> (text: String)
    ensures
        text@ == action_text(what@),
{
    let mut text = String::from_str("\x01ACTION ");
    text.append(what);
    text.append("\x01");
    text
}

/// The actions that send `messages` to the client, in order.
fn as_replies(messages: Vec<Message>) -> (out: Vec<Action>)
    ensures
        action_views(out@) == replies(message_views(messages@)),
{
    let mut messages = messages;
    let ghost all = message_views(messages@);
    let mut out: Vec<Action> = Vec::new();
    while messages.len() > 0
        invariant
            out@.len() + messages@.len() == all.len(),
            forall|k: int|
                0 <= k < out@.len() ==> (#[trigger] out@[k])@ == ActionView::Reply(all[k]),
            forall|k: int|
                0 <= k < messages@.len() ==> (#[trigger] messages@[k])@ == all[out@.len() + k],
        decreases messages@.len(),
    {
        let m = messages.remove(0);
        out.push(Action::Reply(m));
    }
    assert(action_views(out@) =~= replies(all));
    out
}

/// The state of the bridge for one client: who the client is, the rooms it
/// is in, the backend it is served from, and the identifiers of the
/// messages that the bridge sent last.
pub struct Proxy<F: Fn() -> MessageId> {
    clientinfo: ClientInfo,
    session: Session,
    server_addr: String,
    message_cache: Cache<MessageId, F>,
}

impl<F: Fn() -> MessageId> Proxy<F> {
    /// The session is in order, and the bridge remembers up to `SENT_CACHE`
    /// identifiers.
    pub closed spec fn wf(&self) -> bool {
        &&& self.session.wf()
        &&& self.message_cache.wf()
        &&& self.message_cache.capacity() == SENT_CACHE
    }

    /// Who the client is.
    pub closed spec fn client(&self) -> ClientInfoView {
        self.clientinfo@
    }

    /// The rooms that the client is in.
    pub closed spec fn rooms(&self) -> Seq<RoomView> {
        self.session@
    }

    /// The host of the backend, which is also the name that the bridge
    /// speaks under as a server.
    pub closed spec fn server(&self) -> Seq<char> {
        self.server_addr@
    }

    /// The identifiers that the bridge remembers having sent, oldest first.
    pub closed spec fn sent_ids(&self) -> Seq<MessageId> {
        self.message_cache@
    }

    /// Where new identifiers come from.
    pub closed spec fn generator(&self) -> F {
        self.message_cache.generator()
    }

    /// Since `before`, the bridge has taken one identifier from its
    /// generator, and it remembers it as the one sent last.
    pub open spec fn took_id(&self, before: &Self) -> bool {
        &&& self.sent_ids().len() > 0
        &&& self.sent_ids() == ring_push(
            before.sent_ids(),
            self.sent_ids().last(),
            SENT_CACHE as nat,
        )
        &&& exists|g: MessageId| #[trigger]
            call_ensures(before.generator(), (), g) && g@ == self.sent_ids().last()@
    }

    /// The bridge for `clientinfo`, which is in the rooms of `session` at
    /// the backend `server_addr`; identifiers for messages come from `init`.
    pub fn new(clientinfo: ClientInfo, session: Session, server_addr: String, init: F) -> (proxy:
        Self)
        requires
            session.wf(),
            call_requires(init, ()),
        ensures
            proxy.wf(),
            proxy.client() == clientinfo@,
            proxy.rooms() == session@,
            proxy.server() == server_addr@,
            proxy.sent_ids() == Seq::<MessageId>::empty(),
            proxy.generator() == init,
    {
        Proxy { clientinfo, session, server_addr, message_cache: Cache::new(init, SENT_CACHE) }
    }

    /// Who the client is.
    pub fn clientinfo(&self) -> (info: &ClientInfo)
        ensures
            info@ == self.client(),
    {
        &self.clientinfo
    }

    /// The rooms that the client is in.
    pub fn session(&self) -> (session: &Session)
        ensures
            session@ == self.rooms(),
            self.wf() ==> session.wf(),
    {
        &self.session
    }

    /// The host of the backend.
    pub fn server_addr(&self) -> (addr: &str)
        ensures
            addr@ == self.server(),
    {
        self.server_addr.as_str()
    }

    /// Takes note that the client is in `room` now.
    pub fn insert_room(&mut self, room: Room)
        requires
            old(self).wf(),
        ensures
            final(self).wf(),
            final(self).rooms() == with_room(old(self).rooms(), room@),
            final(self).client() == old(self).client(),
            final(self).server() == old(self).server(),
            final(self).sent_ids() == old(self).sent_ids(),
            final(self).generator() == old(self).generator(),
    {
        self.session.insert(room);
    }

    /// Takes note that the client is no longer in the room `id`, and says
    /// whether it was.
    pub fn remove_room(&mut self, id: &str) -> (found: bool)
        requires
            old(self).wf(),
        ensures
            final(self).wf(),
            found == by_id(old(self).rooms(), id@) is Some,
            final(self).rooms() == crate::session::without_id(old(self).rooms(), id@),
            final(self).client() == old(self).client(),
            final(self).server() == old(self).server(),
            final(self).sent_ids() == old(self).sent_ids(),
            final(self).generator() == old(self).generator(),
    {
        self.session.remove(id)
    }

    /// The numeric reply `code` of the bridge, as a server, to its client.
    pub fn respond(&self, code: Response, args: Vec<String>) -> (m: Message)
        ensures
            m@ == server_reply(self.server(), self.client().nick, code, args.deep_view()),
    {
        server_response(self.server_addr.as_str(), self.clientinfo.nick.clone(), code, args)
    }

    /// Takes a new identifier and asks for `text` to be sent to the room
    /// `rid` under it.
    fn send_to(&mut self, rid: String, text: String) -> (out: Vec<Action>)
        requires
            old(self).wf(),
        ensures
            final(self).wf(),
            final(self).client() == old(self).client(),
            final(self).server() == old(self).server(),
            final(self).rooms() == old(self).rooms(),
            final(self).generator() == old(self).generator(),
            final(self).took_id(old(self)),
            action_views(out@) == seq![
                ActionView::Call(
                    RequestView::SendMessage {
                        id: final(self).sent_ids().last()@,
                        rid: rid@,
                        text: text@,
                    },
                ),
            ],
    {
        let id = self.message_cache.send();
        assert(call_ensures(old(self).generator(), (), id));
        let mut out: Vec<Action> = Vec::new();
        let call = Action::Call(Request::SendMessage { id, rid, text });
        let ghost c = call@;
        out.push(call);
        assert(action_views(out@) =~= seq![c]);
        out
    }

    /// Decides what follows from a message of the client: replies to the
    /// client, calls to the backend and warnings for the log, in the order
    /// in which they are due.
    pub fn handle_client_message(&mut self, msg: Message) -> (out: Vec<Action>)
        requires
            old(self).wf(),
        ensures
            final(self).wf(),
            final(self).client() == old(self).client(),
            final(self).server() == old(self).server(),
            final(self).rooms() == old(self).rooms(),
            final(self).generator() == old(self).generator(),
            action_views(out@) == plan(
                old(self).client(),
                old(self).server(),
                old(self).rooms(),
                msg@.command,
                final(self).sent_ids().last()@,
            ),
            !sends(old(self).rooms(), msg@.command) ==> final(self).sent_ids() == old(self)
                .sent_ids(),
            sends(old(self).rooms(), msg@.command) ==> final(self).took_id(old(self)),
    {
        let mut out: Vec<Action> = Vec::new();
        match msg.command {
            Command::Join(chanlist, keys, _) => {
                let chans = split(chanlist.as_str(), ',');
                let keys = match &keys {
                    Some(k) => Some(split(k.as_str(), ',')),
                    None => None,
                };
                let pairs = lazy_zip(chans, keys).collect();
                let ghost all = pair_views(pairs@);
                proof {
                    let spec_keys = match msg@.command->Join_1 {
                        Some(k) => Some(split_on(k, ',')),
                        None => None,
                    };
                    assert(all =~= lazy_pairs(split_on(chanlist@, ','), spec_keys));
                    assert(action_views(out@) =~= all.take(0).map_values(join_action()));
                }
                let mut i: usize = 0;
                while i < pairs.len()
                    invariant
                        i <= pairs@.len(),
                        all == pair_views(pairs@),
                        action_views(out@) == all.take(i as int).map_values(join_action()),
                    decreases pairs@.len() - i,
                {
                    let chan = &pairs[i].0;
                    let key = &pairs[i].1;
                    let action = match strip_channel(chan.as_str()) {
                        Some(name) => Action::Call(
                            Request::Join { channel: chan.clone(), name, key: clone_opt(key) },
                        ),
                        None => Action::Warn(Warning::NotAChannel(chan.clone())),
                    };
                    let ghost a = action@;
                    let ghost before = out@;
                    out.push(action);
                    proof {
                        assert(a == join_action()(all[i as int]));
                        assert(action_views(out@) =~= action_views(before).push(a));
                        assert(all.take(i + 1).map_values(join_action()) =~= all.take(
                            i as int,
                        ).map_values(join_action()).push(a));
                    }
                    i += 1;
                }
                proof {
                    assert(all.take(i as int) =~= all);
                }
            },
            Command::Nick(_) => {
                let reply = Action::Reply(
                    self.respond(
                        Response::NicknameInUse,
                        single(String::from_str("Can't change your nick in rocket, sorry :(")),
                    ),
                );
                let ghost r = reply@;
                out.push(reply);
                assert(action_views(out@) =~= seq![r]);
            },
            Command::Part(channels, _) => {
                let chans = split(channels.as_str(), ',');
                let ghost all = chans.deep_view();
                proof {
                    assert(all.take(0) =~= Seq::empty());
                    reveal(Seq::filter);
                    assert(action_views(out@) =~= all.take(0).filter(names_channel()).map_values(
                        leave_call(),
                    ));
                }
                let mut i: usize = 0;
                while i < chans.len()
                    invariant
                        i <= chans@.len(),
                        all == chans.deep_view(),
                        action_views(out@) == all.take(i as int).filter(
                            names_channel(),
                        ).map_values(leave_call()),
                    decreases chans@.len() - i,
                {
                    let chan = &chans[i];
                    proof {
                        lemma_filter_map_push(
                            all.take(i as int),
                            all[i as int],
                            names_channel(),
                            leave_call(),
                        );
                        assert(all.take(i + 1) =~= all.take(i as int).push(all[i as int]));
                    }
                    match strip_channel(chan.as_str()) {
                        Some(name) => {
                            let call = Action::Call(Request::Leave { channel: chan.clone(), name });
                            let ghost c = call@;
                            let ghost before = out@;
                            out.push(call);
                            proof {
                                assert(c == leave_call()(all[i as int]));
                                assert(action_views(out@) =~= action_views(before).push(c));
                            }
                        },
                        None => {},
                    }
                    i += 1;
                }
                proof {
                    assert(all.take(i as int) =~= all);
                }
            },
            Command::Ping(a, b) => {
                let reply = Action::Reply(
                    Message::from_prefix(
                        Prefix::ServerName(self.server_addr.clone()),
                        Command::Pong(a, b),
                    ),
                );
                let ghost r = reply@;
                out.push(reply);
                assert(action_views(out@) =~= seq![r]);
            },
            Command::Privmsg(target, payload) => {
                match strip_channel(target.as_str()) {
                    Some(name) => {
                        let rid = match self.session.room_by_name(name.as_str()) {
                            Some(room) => Some(room.id().clone()),
                            None => None,
                        };
                        match rid {
                            Some(rid) => {
                                return self.send_to(rid, payload);
                            },
                            None => {
                                assert(action_views(out@) =~= Seq::<ActionView>::empty());
                            },
                        }
                    },
                    None => {
                        let call = Action::Call(
                            Request::OpenDirect { nick: target, text: payload },
                        );
                        let ghost c = call@;
                        out.push(call);
                        assert(action_views(out@) =~= seq![c]);
                    },
                }
            },
            Command::Topic(target, topic) => {
                let rid = match strip_channel(target.as_str()) {
                    Some(name) => match self.session.room_by_name(name.as_str()) {
                        Some(room) => Some(room.id().clone()),
                        None => None,
                    },
                    None => None,
                };
                match rid {
                    Some(rid) => {
                        let call = Action::Call(Request::SetTopic { channel: target, rid, topic });
                        let ghost c = call@;
                        out.push(call);
                        assert(action_views(out@) =~= seq![c]);
                    },
                    None => {
                        assert(action_views(out@) =~= Seq::<ActionView>::empty());
                    },
                }
            },
            Command::Away(reason) => {
                let call = Action::Call(Request::SetAway { away: reason.is_some() });
                let ghost c = call@;
                out.push(call);
                assert(action_views(out@) =~= seq![c]);
            },
            other => {
                let reply = Action::Reply(
                    self.respond(
                        Response::UnknownCommand,
                        single(String::from_str("Command unsupported by Croquette")),
                    ),
                );
                let warning = Action::Warn(Warning::UnsupportedCommand(other));
                let ghost w = warning@;
                let ghost r = reply@;
                out.push(warning);
                out.push(reply);
                assert(action_views(out@) =~= seq![w, r]);
            },
        }
        out
    }

    /// Decides what the client is told of a room event, and whether the
    /// event is passed over with a warning.
    fn translate_event(&self, event: RoomEvent) -> (r: (Vec<Message>, Option<Warning>))
        requires
            self.wf(),
        ensures
            message_views(r.0@) == translate(
                self.rooms(),
                self.sent_ids(),
                self.client().nick,
                self.server(),
                event@,
            ),
            match r.1 {
                Some(w) => passed_over(self.rooms(), self.client().nick, event@) == Some(w@),
                None => passed_over(self.rooms(), self.client().nick, event@) is None,
            },
    {
        let mut out: Vec<Message> = Vec::new();
        let ghost ev = event@;
        let RoomEvent { data, extra } = event;
        let host = self.server_addr.as_str();
        let user = data.u.username.as_str();
        let channel_like = extra.room_type == 'c' || extra.room_type == 'p';
        let topic = match &data.t {
            Some(t) => same(t.as_str(), "room_changed_topic"),
            None => false,
        };
        let left = match &data.t {
            Some(t) => same(t.as_str(), "ul"),
            None => false,
        };
        let target = match &extra.room_name {
            Some(name) => {
                if channel_like {
                    let chan = channel(name.as_str());
                    if topic {
                        let m = Message::from_prefix(
                            speaker_prefix(user, host),
                            Command::Topic(chan, Some(data.msg)),
                        );
                        let ghost v = m@;
                        out.push(m);
                        assert(message_views(out@) =~= seq![v]);
                        return (out, None);
                    }
                    if left {
                        let m = Message::from_prefix(
                            speaker_prefix(user, host),
                            Command::Part(chan, None),
                        );
                        let ghost v = m@;
                        out.push(m);
                        assert(message_views(out@) =~= seq![v]);
                        return (out, None);
                    }
                    Some(chan)
                } else {
                    None
                }
            },
            None => {
                if extra.room_type == 'd' {
                    Some(self.clientinfo.nick.clone())
                } else {
                    None
                }
            },
        };
        assert(!topic_changed(ev) && !user_left(ev));
        let target = match target {
            Some(target) => target,
            None => {
                assert(message_views(out@) =~= Seq::<MessageView>::empty());
                return (out, Some(Warning::NoTarget));
            },
        };
        assert(event_target(ev.extra, self.client().nick) == Some(target@));
        let fresh = match self.session.room_by_id(data.rid.as_str()) {
            Some(room) => room.is_timestamp_fresh(data.ts),
            None => false,
        };
        if !fresh {
            assert(message_views(out@) =~= Seq::<MessageView>::empty());
            return (out, Some(Warning::NotNew));
        }
        let ours = self.message_cache.sent(&data.id);
        proof {
            let ids = self.sent_ids();
            if remembers(ids, data.id) {
                let k = choose|k: int| 0 <= k < ids.len() && (#[trigger] ids[k]).eq_spec(&data.id);
                assert(ids[k]@ == ev.data.id);
            }
            if recalls(ids, ev.data.id) {
                let k = choose|k: int| 0 <= k < ids.len() && (#[trigger] ids[k])@ == ev.data.id;
                assert(ids[k].eq_spec(&data.id));
            }
            assert(ours == recalls(ids, ev.data.id));
        }
        if ours {
            assert(message_views(out@) =~= Seq::<MessageView>::empty());
            return (out, None);
        }
        let ghost from = speaker(ev.data.u.username, self.server());
        if !blank(data.msg.as_str()) {
            let m = Message::from_prefix(
                speaker_prefix(user, host),
                Command::Privmsg(target.clone(), data.msg.clone()),
            );
            let ghost v = m@;
            out.push(m);
            assert(message_views(out@) =~= seq![v]);
        } else {
            assert(message_views(out@) =~= Seq::<MessageView>::empty());
        }
        let ghost text = text_messages(from, target@, ev.data.msg);
        assert(message_views(out@) == text);
        let mut i: usize = 0;
        proof {
            assert(text + attachment_messages(from, target@, ev.data.attachments.take(0)) =~= text);
        }
        while i < data.attachments.len()
            invariant
                i <= data.attachments@.len(),
                ev.data.attachments == Seq::new(
                    data.attachments@.len(),
                    |k: int| data.attachments@[k]@,
                ),
                from == speaker(user@, host@),
                message_views(out@) == text + attachment_messages(
                    from,
                    target@,
                    ev.data.attachments.take(i as int),
                ),
            decreases data.attachments@.len() - i,
        {
            let what = describe(&data.attachments[i]);
            let m = Message::from_prefix(
                speaker_prefix(user, host),
                Command::Privmsg(target.clone(), action(what.as_str())),
            );
            let ghost v = m@;
            let ghost before = out@;
            out.push(m);
            proof {
                let atts = ev.data.attachments;
                assert(atts.take(i + 1) =~= atts.take(i as int).push(atts[i as int]));
                assert(attachment_messages(from, target@, atts.take(i + 1)) =~= attachment_messages(
                    from,
                    target@,
                    atts.take(i as int),
                ).push(v));
                assert(message_views(out@) =~= message_views(before).push(v));
            }
            i += 1;
        }
        proof {
            assert(ev.data.attachments.take(i as int) =~= ev.data.attachments);
        }
        (out, None)
    }

    /// Decides what follows from a frame of the backend: what the client
    /// is told, and what is worth a warning.
    pub fn handle_server_message(&self, msg: ServerMessage) -> (out: Vec<Action>)
        requires
            self.wf(),
        ensures
            action_views(out@) == told(
                self.rooms(),
                self.sent_ids(),
                self.client().nick,
                self.server(),
                msg,
            ),
    {
        match msg {
            ServerMessage::Changed { event: Some(event) } => {
                let (messages, warning) = self.translate_event(event);
                let mut out = as_replies(messages);
                let ghost sent = out@;
                match warning {
                    Some(w) => {
                        let ghost v = w@;
                        out.push(Action::Warn(w));
                        assert(action_views(out@) =~= action_views(sent) + seq![
                            ActionView::Warn(v),
                        ]);
                    },
                    None => {
                        assert(action_views(out@) =~= action_views(sent) + Seq::<
                            ActionView,
                        >::empty());
                    },
                }
                out
            },
            ServerMessage::Updated => {
                let out: Vec<Action> = Vec::new();
                assert(action_views(out@) =~= Seq::<ActionView>::empty());
                out
            },
            _ => {
                let mut out: Vec<Action> = Vec::new();
                out.push(Action::Warn(Warning::UnsupportedFrame));
                assert(action_views(out@) =~= seq![
                    ActionView::Warn(WarningView::UnsupportedFrame),
                ]);
                out
            },
        }
    }


    /// Decides what the client is told once the backend has answered the
    /// call `request`, and accepted it or not.
    pub fn completed(&self, request: &Request, accepted: bool) -> (m: Option<Message>)
        ensures
            match m {
                Some(m) => confirmation(self.client(), request@, accepted) == Some(m@),
                None => confirmation(self.client(), request@, accepted) is None,
            },
    {
        if !accepted {
            return None;
        }
        match request {
            Request::Join { channel, .. } => Some(
                self.clientinfo.echo_back(Command::Join(channel.clone(), None, None)),
            ),
            Request::Leave { channel, .. } => Some(
                self.clientinfo.echo_back(Command::Part(channel.clone(), None)),
            ),
            Request::SetTopic { channel, topic, .. } => Some(
                self.clientinfo.echo_back(Command::Topic(channel.clone(), clone_opt(topic))),
            ),
            _ => None,
        }
    }

    /// Goes on with a message to a nick once the backend has opened the
    /// direct-message room with that user, or has failed to. The room joins
    /// the session unless it is there already, and the text is sent to it
    /// under a new identifier. Without a room nothing happens.
    pub fn direct_opened(&mut self, room: Option<Room>, text: String) -> (out: Vec<Action>)
        requires
            old(self).wf(),
        ensures
            final(self).wf(),
            final(self).client() == old(self).client(),
            final(self).server() == old(self).server(),
            final(self).generator() == old(self).generator(),
            match room {
                None => {
                    &&& out@.len() == 0
                    &&& final(self).rooms() == old(self).rooms()
                    &&& final(self).sent_ids() == old(self).sent_ids()
                },
                Some(room) => {
                    &&& final(self).rooms() == if by_id(old(self).rooms(), room@.id()) is Some {
                        old(self).rooms()
                    } else {
                        with_room(old(self).rooms(), room@)
                    }
                    &&& final(self).took_id(old(self))
                    &&& action_views(out@) == seq![
                        ActionView::Call(
                            RequestView::SendMessage {
                                id: final(self).sent_ids().last()@,
                                rid: room@.id(),
                                text: text@,
                            },
                        ),
                    ]
                },
            },
    {
        let room = match room {
            None => {
                return Vec::new();
            },
            Some(room) => room,
        };
        let rid = room.id().clone();
        if self.session.room_by_id(rid.as_str()).is_none() {
            self.session.insert(room);
        }
        assert(self.sent_ids() == old(self).sent_ids());
        assert(self.generator() == old(self).generator());
        let out = self.send_to(rid, text);
        out
    }
}

} // verus!
