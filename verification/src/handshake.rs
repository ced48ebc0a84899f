//! Registration of a client: the gateway collects nick, user name and
//! password, in whatever order they come, and asks for the password as long
//! as only that is missing.

use crate::irc::{Command, CommandView, Message, MessageView, Response};
use crate::proxy::{server_reply, server_response, single, ClientInfo, ClientInfoView};
use vstd::prelude::*;
use vstd::string::*;

verus! {

/// What a client has registered so far.
#[derive(Clone, Debug, PartialEq, Eq)]
pub struct Handshake {
    nick: Option<String>,
    user: Option<String>,
    pass: Option<String>,
}

pub struct HandshakeView {
    pub nick: Option<Seq<char>>,
    pub user: Option<Seq<char>>,
    pub pass: Option<Seq<char>>,
}

/// What follows from a frame of a client that is registering.
#[derive(Clone, Debug, PartialEq, Eq)]
pub enum LoginStep {
    /// Nothing; the gateway waits for the next frame.
    Pending,
    /// The password is missing: the gateway sends this reply and waits on.
    Challenge(Message),
    /// The client is registered.
    Complete(ClientInfo),
}

pub enum LoginStepView {
    Pending,
    Challenge(MessageView),
    Complete(ClientInfoView),
}

impl View for LoginStep {
    type V = LoginStepView;

    open spec fn view(&self) -> LoginStepView {
        match self {
            LoginStep::Pending => LoginStepView::Pending,
            LoginStep::Challenge(m) => LoginStepView::Challenge(m@),
            LoginStep::Complete(info) => LoginStepView::Complete(info@),
        }
    }
}

impl HandshakeView {
    /// Nothing registered yet.
    pub open spec fn start() -> HandshakeView {
        HandshakeView { nick: None, user: None, pass: None }
    }

    /// What is registered after `command`: `NICK`, `USER` and `PASS` each
    /// replace what was given before, and every other command changes nothing.
    pub open spec fn observe(self, command: CommandView) -> HandshakeView {
        match command {
            CommandView::Nick(n) => HandshakeView { nick: Some(n), ..self },
            CommandView::Pass(p) => HandshakeView { pass: Some(p), ..self },
            CommandView::User(u, _, _) => HandshakeView { user: Some(u), ..self },
            _ => self,
        }
    }

    /// What is registered after the commands of `frames`, one after the other.
    pub open spec fn observe_all(self, frames: Seq<CommandView>) -> HandshakeView
        decreases frames.len(),
    {
        if frames.len() == 0 {
            self
        } else {
            self.observe_all(frames.drop_last()).observe(frames.last())
        }
    }

    /// Nick, user name and password are all there.
    pub open spec fn complete(self) -> bool {
        self.nick is Some && self.user is Some && self.pass is Some
    }

    /// Nick and user name are there, and the password is not.
    pub open spec fn lacks_password(self) -> bool {
        self.nick is Some && self.user is Some && self.pass is None
    }

    /// What the gateway, which speaks as the server `server`, does in this
    /// state for a client at `host`.
    pub open spec fn outcome(self, host: Seq<char>, server: Seq<char>) -> LoginStepView {
        if self.complete() {
            LoginStepView::Complete(
                ClientInfoView {
                    nick: self.nick->0,
                    user: self.user->0,
                    pass: self.pass->0,
                    host,
                },
            )
        } else if self.lacks_password() {
            LoginStepView::Challenge(password_wanted(server, self.nick->0))
        } else {
            LoginStepView::Pending
        }
    }
}

/// The reply by which the server `server` asks `nick` for the password.
pub open spec fn password_wanted(server: Seq<char>, nick: Seq<char>) -> MessageView {
    server_reply(
        server,
        nick,
        Response::PasswdMismatch,
        seq!["Please send your rocket authentication token"@],
    )
}

/// The commands that give a nick.
pub open spec fn gives_nick() -> spec_fn(CommandView) -> bool {
    |command: CommandView| command is Nick
}

/// The commands that give a user name.
pub open spec fn gives_user() -> spec_fn(CommandView) -> bool {
    |command: CommandView| command is User
}

/// The commands that give a password.
pub open spec fn gives_pass() -> spec_fn(CommandView) -> bool {
    |command: CommandView| command is Pass
}

/// Whether one of `frames` is among the commands `wanted`.
pub open spec fn seen(frames: Seq<CommandView>, wanted: spec_fn(CommandView) -> bool) -> bool {
    exists|i: int| 0 <= i < frames.len() && wanted(#[trigger] frames[i])
}

/// A command is among some frames if it is the last of them or among those
/// before it.
pub proof fn lemma_seen_last(frames: Seq<CommandView>, wanted: spec_fn(CommandView) -> bool)
    requires
        frames.len() > 0,
    ensures
        seen(frames, wanted) <==> seen(frames.drop_last(), wanted) || wanted(frames.last()),
{
    let before = frames.drop_last();
    if seen(before, wanted) {
        let i = choose|i: int| 0 <= i < before.len() && wanted(#[trigger] before[i]);
        assert(wanted(frames[i]));
    }
    if wanted(frames.last()) {
        assert(wanted(frames[frames.len() - 1]));
    }
    if seen(frames, wanted) {
        let i = choose|i: int| 0 <= i < frames.len() && wanted(#[trigger] frames[i]);
        if i < frames.len() - 1 {
            assert(wanted(before[i]));
        }
    }
}

/// What is among the first `j` frames is among the first `k`, for `j <= k`.
pub proof fn lemma_seen_later(
    frames: Seq<CommandView>,
    wanted: spec_fn(CommandView) -> bool,
    j: int,
    k: int,
)
    requires
        0 <= j <= k <= frames.len(),
        seen(frames.take(j), wanted),
    ensures
        seen(frames.take(k), wanted),
{
    let i = choose|i: int| 0 <= i < j && wanted(#[trigger] frames.take(j)[i]);
    assert(wanted(frames.take(k)[i]));
}

/// After any frames, a part of the registration is there if and only if it
/// was there before or one of the frames gave it.
pub proof fn lemma_observed(h: HandshakeView, frames: Seq<CommandView>)
    ensures
        h.observe_all(frames).nick is Some <==> h.nick is Some || seen(frames, gives_nick()),
        h.observe_all(frames).user is Some <==> h.user is Some || seen(frames, gives_user()),
        h.observe_all(frames).pass is Some <==> h.pass is Some || seen(frames, gives_pass()),
    decreases frames.len(),
{
    if frames.len() > 0 {
        lemma_observed(h, frames.drop_last());
        lemma_seen_last(frames, gives_nick());
        lemma_seen_last(frames, gives_user());
        lemma_seen_last(frames, gives_pass());
    }
}

/// A client that starts from nothing is registered after the frame at place
/// `k` if and only if a nick, a user name and a password are all among the
/// frames up to that place, in whatever order and with whatever else between
/// them. Once it is registered it stays so, so the gateway, which stops at
/// the first such frame, completes exactly once. Before that, the frame at
/// place `k` is answered with the request for the password if and only if
/// nick and user name have come by then and no password has; such a frame
/// is never the one that gives the password.
pub proof fn lemma_handshake_completes_once(
    frames: Seq<CommandView>,
    k: int,
    host: Seq<char>,
    server: Seq<char>,
)
    requires
        0 <= k < frames.len(),
    ensures
        ({
            let upto = frames.take(k + 1);
            let step = HandshakeView::start().observe_all(upto).outcome(host, server);
            let nick = seen(upto, gives_nick());
            let user = seen(upto, gives_user());
            let pass = seen(upto, gives_pass());
            &&& step is Complete <==> nick && user && pass
            &&& step is Challenge <==> nick && user && !pass
            &&& step is Challenge ==> !gives_pass()(frames[k])
            &&& step is Complete ==> forall|j: int|
                k <= j < frames.len() ==> HandshakeView::start().observe_all(
                    #[trigger] frames.take(j + 1),
                ).complete()
        }),
{
    let upto = frames.take(k + 1);
    let start = HandshakeView::start();
    lemma_observed(start, upto);
    lemma_seen_last(upto, gives_pass());
    assert(upto.last() == frames[k]);
    if start.observe_all(upto).complete() {
        assert forall|j: int| k <= j < frames.len() implies start.observe_all(
            #[trigger] frames.take(j + 1),
        ).complete() by {
            lemma_observed(start, frames.take(j + 1));
            lemma_seen_later(frames, gives_nick(), k + 1, j + 1);
            lemma_seen_later(frames, gives_user(), k + 1, j + 1);
            lemma_seen_later(frames, gives_pass(), k + 1, j + 1);
        }
    }
}

impl View for Handshake {
    type V = HandshakeView;

    closed spec fn view(&self) -> HandshakeView {
        HandshakeView {
            nick: self.nick.deep_view(),
            user: self.user.deep_view(),
            pass: self.pass.deep_view(),
        }
    }
}

impl Handshake {
    /// A registration that has seen nothing yet.
    pub fn new() -> (h: Handshake)
        ensures
            h@ == HandshakeView::start(),
    {
        Handshake { nick: None, user: None, pass: None }
    }

    /// Takes in one command of the client at `host` and says what follows
    /// from it; a reply to the client comes from the server `server`.
    pub fn step(&mut self, command: &Command, host: &str, server: &str) -> (r: LoginStep)
        ensures
            final(self)@ == old(self)@.observe(command@),
            r@ == final(self)@.outcome(host@, server@),
    {
        match command {
            Command::Nick(n) => {
                self.nick = Some(n.clone());
            },
            Command::Pass(p) => {
                self.pass = Some(p.clone());
            },
            Command::User(u, _, _) => {
                self.user = Some(u.clone());
            },
            _ => {},
        }
        match (&self.nick, &self.user, &self.pass) {
            (Some(nick), Some(user), Some(pass)) => LoginStep::Complete(
                ClientInfo {
                    nick: nick.clone(),
                    user: user.clone(),
                    pass: pass.clone(),
                    host: String::from_str(host),
                },
            ),
            (Some(nick), Some(_), None) => LoginStep::Challenge(
                server_response(
                    server,
                    nick.clone(),
                    Response::PasswdMismatch,
                    single(String::from_str("Please send your rocket authentication token")),
                ),
            ),
            _ => LoginStep::Pending,
        }
    }
}

} // verus!
