//! The member list of a channel as IRC `NAMES` replies: the user names go
//! out in batches of bounded size, and one closing reply ends the list.

use crate::irc::{message_views, Message, MessageView, Response};
use crate::proxy::{pair, server_reply, server_response, triple};
use crate::schema::{usernames, Room, RoomView, ShortUser};
use crate::text::{byte_len, byte_length, channel, channel_of, lemma_byte_len_concat};
use vstd::prelude::*;
use vstd::string::*;
use vstd::utf8::*;

verus! {

/// The most bytes that the user names of one reply may take, as long as no
/// single name is longer.
pub const BATCH_BYTES: usize = 512;

/// The batches that are full after `names`, and the batch that is still
/// open. A name joins the open batch after a space, unless the batch would
/// then take more than `BATCH_BYTES` bytes: in that case the batch is closed
/// and the name opens the next one.
pub open spec fn packed(names: Seq<Seq<char>>) -> (Seq<Seq<char>>, Seq<char>)
    decreases names.len(),
{
    if names.len() == 0 {
        (Seq::empty(), Seq::empty())
    } else {
        let (full, open) = packed(names.drop_last());
        let name = names.last();
        if open.len() == 0 {
            (full, name)
        } else if byte_len(open) + 1 + byte_len(name) > BATCH_BYTES {
            (full.push(open), name)
        } else {
            (full, open + " "@ + name)
        }
    }
}

/// The batches in which `names` go out.
pub open spec fn batches(names: Seq<Seq<char>>) -> Seq<Seq<char>> {
    let (full, open) = packed(names);
    if open.len() > 0 {
        full.push(open)
    } else {
        full
    }
}

/// The reply that carries one batch of the names of `channel`.
pub open spec fn names_reply(
    user: Seq<char>,
    server: Seq<char>,
    mode: Seq<char>,
    channel: Seq<char>,
    batch: Seq<char>,
) -> MessageView {
    server_reply(server, user, Response::NamReply, seq![mode, channel, batch])
}

/// The reply that ends the names of `channel`.
pub open spec fn names_end(user: Seq<char>, server: Seq<char>, channel: Seq<char>) -> MessageView {
    server_reply(server, user, Response::EndOfNames, seq![channel, "End of /NAMES list."@])
}

/// The replies that carry `batches`, in order.
pub open spec fn names_replies(
    user: Seq<char>,
    server: Seq<char>,
    mode: Seq<char>,
    channel: Seq<char>,
    batches: Seq<Seq<char>>,
) -> Seq<MessageView> {
    Seq::new(batches.len(), |i: int| names_reply(user, server, mode, channel, batches[i]))
}

/// The member list of a channel: one reply for each batch of names, and the
/// closing reply.
pub open spec fn channel_names(
    user: Seq<char>,
    server: Seq<char>,
    mode: Seq<char>,
    channel: Seq<char>,
    names: Seq<Seq<char>>,
) -> Seq<MessageView> {
    names_replies(user, server, mode, channel, batches(names)).push(
        names_end(user, server, channel),
    )
}

/// The member list of `room` for `user`: that of a public channel is marked
/// `=`, that of a private group `*`, and other rooms have none.
pub open spec fn userlist(user: Seq<char>, server: Seq<char>, room: RoomView, names: Seq<Seq<char>>)
    -> Seq<MessageView> {
    match room {
        RoomView::Chat { name, .. } => channel_names(user, server, "="@, channel_of(name), names),
        RoomView::Private { name, .. } => channel_names(
            user,
            server,
            "*"@,
            channel_of(name),
            names,
        ),
        _ => Seq::empty(),
    }
}

/// A space takes one byte.
pub proof fn lemma_space_is_one_byte()
    ensures
        byte_len(" "@) == 1,
{
    reveal_strlit(" ");
    let s = " "@;
    assert(s.len() == 1);
    assert(s[0] == ' ');
    assert(s.drop_first() =~= Seq::<char>::empty());
    reveal_with_fuel(encode_utf8, 2);
    assert(' ' as u32 == 0x20u32);
    assert(has_width_1_encoding(0x20u32));
    assert(encode_scalar(0x20u32).len() == 1);
    assert(encode_utf8(s) =~= encode_scalar(s[0] as u32) + encode_utf8(s.drop_first()));
}

/// As long as no name takes more than `BATCH_BYTES` bytes, neither a full
/// batch nor the open one does.
pub proof fn lemma_packed_bounded(names: Seq<Seq<char>>)
    requires
        forall|i: int| 0 <= i < names.len() ==> byte_len(#[trigger] names[i]) <= BATCH_BYTES,
    ensures
        byte_len(packed(names).1) <= BATCH_BYTES,
        forall|i: int|
            0 <= i < packed(names).0.len() ==> byte_len(#[trigger] packed(names).0[i])
                <= BATCH_BYTES,
    decreases names.len(),
{
    if names.len() == 0 {
        assert(encode_utf8(Seq::<char>::empty()).len() == 0);
    } else {
        let before = names.drop_last();
        assert forall|i: int| 0 <= i < before.len() implies byte_len(#[trigger] before[i])
            <= BATCH_BYTES by {
            assert(before[i] == names[i]);
        }
        lemma_packed_bounded(before);
        let (full, open) = packed(before);
        let name = names.last();
        assert(byte_len(name) <= BATCH_BYTES);
        if open.len() != 0 && byte_len(open) + 1 + byte_len(name) <= BATCH_BYTES {
            lemma_space_is_one_byte();
            lemma_byte_len_concat(open, " "@);
            lemma_byte_len_concat(open + " "@, name);
        }
    }
}

/// Every reply of a channel's member list but the last carries one batch of
/// names, and the last reply is the only one that ends the list. As long as
/// no single name takes more than `BATCH_BYTES` bytes, no batch does.
pub proof fn lemma_channel_names(
    user: Seq<char>,
    server: Seq<char>,
    mode: Seq<char>,
    channel: Seq<char>,
    names: Seq<Seq<char>>,
)
    ensures
        ({
            let out = channel_names(user, server, mode, channel, names);
            &&& out.len() == batches(names).len() + 1
            &&& out.last() == names_end(user, server, channel)
            &&& forall|i: int|
                0 <= i < out.len() - 1 ==> #[trigger] out[i] == names_reply(
                    user,
                    server,
                    mode,
                    channel,
                    batches(names)[i],
                )
            &&& (forall|i: int| 0 <= i < names.len() ==> byte_len(#[trigger] names[i])
                <= BATCH_BYTES) ==> forall|i: int|
                0 <= i < batches(names).len() ==> byte_len(#[trigger] batches(names)[i])
                    <= BATCH_BYTES
        }),
{
    if forall|i: int| 0 <= i < names.len() ==> byte_len(#[trigger] names[i]) <= BATCH_BYTES {
        lemma_packed_bounded(names);
    }
}

/// `texts` one after the other, with a space between each two of them.
pub open spec fn spaced(texts: Seq<Seq<char>>) -> Seq<char>
    decreases texts.len(),
{
    if texts.len() == 0 {
        Seq::empty()
    } else if texts.len() == 1 {
        texts[0]
    } else {
        spaced(texts.drop_last()) + " "@ + texts.last()
    }
}

/// After at least one name, none of them empty, a batch is open, and the
/// full batches and the open one read like the names.
proof fn lemma_packed_keeps_names(names: Seq<Seq<char>>)
    requires
        names.len() > 0,
        forall|i: int| 0 <= i < names.len() ==> (#[trigger] names[i]).len() > 0,
    ensures
        packed(names).1.len() > 0,
        spaced(packed(names).0.push(packed(names).1)) == spaced(names),
    decreases names.len(),
{
    let before = names.drop_last();
    let name = names.last();
    if before.len() == 0 {
        assert(packed(before).1.len() == 0);
        assert(packed(names).0.push(name) =~= seq![name]);
    } else {
        assert forall|i: int| 0 <= i < before.len() implies (#[trigger] before[i]).len() > 0 by {
            assert(before[i] == names[i]);
        }
        lemma_packed_keeps_names(before);
        let (full, open) = packed(before);
        let closed = full.push(open);
        if byte_len(open) + 1 + byte_len(name) > BATCH_BYTES {
            assert(closed.push(name).drop_last() =~= closed);
        } else {
            let grown = open + " "@ + name;
            assert(full.push(grown).drop_last() =~= full);
            assert(closed.drop_last() =~= full);
            if full.len() > 0 {
                assert(spaced(full) + " "@ + grown =~= spaced(full) + " "@ + open + " "@ + name);
            }
        }
    }
}

/// The batches hold every name once and in the order of the list: read one
/// after the other with a space between them, the batches are the names
/// with a space between them. This is so as long as no name is empty; an
/// empty name leaves no trace where it would open a batch.
pub proof fn lemma_batches_keep_names(names: Seq<Seq<char>>)
    requires
        forall|i: int| 0 <= i < names.len() ==> (#[trigger] names[i]).len() > 0,
    ensures
        spaced(batches(names)) == spaced(names),
{
    if names.len() > 0 {
        lemma_packed_keeps_names(names);
    }
}

/// Whether `name` still fits into a batch that takes `open` bytes.
fn fits(open: usize, name: usize) -> (r: bool)
    ensures
        r == (open + 1 + name <= BATCH_BYTES),
{
    open <= BATCH_BYTES && name <= BATCH_BYTES && open + 1 + name <= BATCH_BYTES
}

/// The member list of `room` for `user`, as the server `server` sends it.
pub fn build_userlist(user: &str, server: &str, room: &Room, users: &Vec<ShortUser>) -> (out: Vec<
    Message,
>)
    ensures
        message_views(out@) == userlist(user@, server@, room@, usernames(users@)),
{
    let (room_name, mode) = match room {
        Room::Chat { name, .. } => (name, "="),
        Room::Private { name, .. } => (name, "*"),
        _ => {
            let out: Vec<Message> = Vec::new();
            assert(message_views(out@) =~= Seq::<MessageView>::empty());
            return out;
        },
    };
    let chan = channel(room_name.as_str());
    let ghost names = usernames(users@);
    let mut out: Vec<Message> = Vec::new();
    let mut open = String::new();
    let mut i: usize = 0;
    proof {
        assert(names.take(0) =~= Seq::<Seq<char>>::empty());
        assert(message_views(out@) =~= names_replies(
            user@,
            server@,
            mode@,
            chan@,
            packed(names.take(0)).0,
        ));
    }
    while i < users.len()
        invariant
            i <= users@.len(),
            names == usernames(users@),
            message_views(out@) == names_replies(
                user@,
                server@,
                mode@,
                chan@,
                packed(names.take(i as int)).0,
            ),
            open@ == packed(names.take(i as int)).1,
        decreases users@.len() - i,
    {
        let name = users[i].username.as_str();
        proof {
            let seen = names.take(i + 1);
            assert(seen.drop_last() =~= names.take(i as int));
            assert(seen.last() == name@);
        }
        if open.as_str().is_empty() {
            open = String::from_str(name);
        } else if !fits(byte_length(open.as_str()), byte_length(name)) {
            let ghost full = packed(names.take(i as int)).0;
            let ghost before = out@;
            let reply = server_response(
                server,
                String::from_str(user),
                Response::NamReply,
                triple(String::from_str(mode), chan.clone(), open),
            );
            let ghost sent = reply@;
            out.push(reply);
            proof {
                let batch = packed(names.take(i as int)).1;
                assert(sent == names_reply(user@, server@, mode@, chan@, batch));
                assert(message_views(out@) =~= message_views(before).push(sent));
                assert(names_replies(user@, server@, mode@, chan@, full.push(batch))
                    =~= names_replies(user@, server@, mode@, chan@, full).push(sent));
            }
            open = String::from_str(name);
        } else {
            open.append(" ");
            open.append(name);
        }
        i += 1;
    }
    proof {
        assert(names.take(i as int) =~= names);
    }
    if !open.as_str().is_empty() {
        let ghost full = packed(names).0;
        let reply = server_response(
            server,
            String::from_str(user),
            Response::NamReply,
            triple(String::from_str(mode), chan.clone(), open),
        );
        let ghost before = out@;
        let ghost sent = reply@;
        out.push(reply);
        proof {
            let batch = packed(names).1;
            assert(sent == names_reply(user@, server@, mode@, chan@, batch));
            assert(message_views(out@) =~= message_views(before).push(sent));
            assert(names_replies(user@, server@, mode@, chan@, full.push(batch)) =~= names_replies(
                user@,
                server@,
                mode@,
                chan@,
                full,
            ).push(sent));
        }
    }
    let ghost carried = out@;
    let end = server_response(
        server,
        String::from_str(user),
        Response::EndOfNames,
        pair(chan, String::from_str("End of /NAMES list.")),
    );
    out.push(end);
    proof {
        assert(message_views(out@) =~= message_views(carried).push(
            names_end(user@, server@, channel_of(room_name@)),
        ));
    }
    out
}

} // verus!
