//! Decisions of the bot's message handler: when to answer without being
//! mentioned, how much history to read, and how to lay out a reply.

use vstd::prelude::*;

use crate::chunk::{split_message, split_text};
use crate::text::{join2, parse_u64, same_text, trim_text, trimmed, u64_of};

verus! {

/// The platform's per-message limit in bytes.
pub const DISCORD_MAX_LENGTH: usize = 2000;

/// The limit for one piece of a reply: the platform's limit less room for a mention.
pub const REPLY_PIECE_LIMIT: usize = 1950;

/// Whether `ids` holds `id`.
pub fn contains_id(ids: &Vec<u64>, id: u64) -> (r: bool)
    ensures
        r == ids@.contains(id),
{
    let mut i: usize = 0;
    while i < ids.len()
        invariant
            i <= ids@.len(),
            forall|j: int| 0 <= j < i ==> ids@[j] != id,
        decreases ids@.len() - i,
    {
        if ids[i] == id {
            return true;
        }
        i = i + 1;
    }
    false
}

/// Whether a message in the server `guild` may get an answer without a
/// mention, before its channel is looked at: both target lists are set, the
/// message comes from a server, and that server is a target.
pub fn may_auto_respond(server_ids: &Vec<u64>, forum_ids: &Vec<u64>, guild: Option<u64>) -> (r: bool)
    ensures
        r == (server_ids@.len() > 0 && forum_ids@.len() > 0 && guild is Some && server_ids@.contains(
            guild->0,
        )),
{
    if server_ids.len() == 0 || forum_ids.len() == 0 {
        return false;
    }
    match guild {
        Some(g) => contains_id(server_ids, g),
        None => false,
    }
}

/// Whether a channel is a thread whose parent is one of the target forums.
pub fn is_target_thread(forum_ids: &Vec<u64>, is_thread: bool, parent: Option<u64>) -> (r: bool)
    ensures
        r == (is_thread && parent is Some && forum_ids@.contains(parent->0)),
{
    if !is_thread {
        return false;
    }
    match parent {
        Some(p) => contains_id(forum_ids, p),
        None => false,
    }
}

/// How many recent messages to read as context: a whole thread, up to the
/// platform's maximum, or a few in an ordinary channel.
pub fn history_limit(is_thread: bool) -> (r: u8)
    ensures
        r == (if is_thread {
            100u8
        } else {
            5u8
        }),
{
    if is_thread {
        100
    } else {
        5
    }
}

/// The fixed answer to a fixed message, if it has one.
pub fn canned_reply(content: &String) -> (r: Option<String>)
    ensures
        r is Some <==> (content@ == "ぬるぽ"@ || content@ == "!hello"@),
        content@ == "ぬるぽ"@ ==> r->0@ == "ガッ"@,
        content@ == "!hello"@ ==> r->0@ == "world!"@,
{
    proof {
        reveal_strlit("ぬるぽ");
        reveal_strlit("!hello");
        assert("!hello"@.len() == 6);
        assert("ぬるぽ"@.len() == 3);
    }
    if same_text(content, "ぬるぽ") {
        Some(String::from_str("ガッ"))
    } else if same_text(content, "!hello") {
        Some(String::from_str("world!"))
    } else {
        None
    }
}

/// The messages that carry the answer `text`: its pieces under
/// `REPLY_PIECE_LIMIT`, the first one preceded by `mention` and a newline when
/// the bot was mentioned.
pub fn reply_messages(text: &str, mention: Option<String>) -> (r: Vec<String>)
    ensures
        r@.len() == split_text(text@, REPLY_PIECE_LIMIT as nat).len(),
        forall|i: int|
            0 <= i < r@.len() ==> #[trigger] r@[i]@ == (if i == 0 && mention is Some {
                mention->0@ + "\n"@ + split_text(text@, REPLY_PIECE_LIMIT as nat)[i]
            } else {
                split_text(text@, REPLY_PIECE_LIMIT as nat)[i]
            }),
{
    let mut pieces = split_message(text, REPLY_PIECE_LIMIT);
    proof {
        assert(pieces@[0]@ == pieces@.map_values(|s: String| s@)[0]);
        assert forall|i: int| 0 <= i < pieces@.len() implies #[trigger] pieces@[i]@ == split_text(
            text@,
            REPLY_PIECE_LIMIT as nat,
        )[i] by {
            assert(pieces@[i]@ == pieces@.map_values(|s: String| s@)[i]);
        }
    }
    match mention {
        Some(m) => {
            let head = join2(m.as_str(), "\n");
            let first = join2(head.as_str(), pieces[0].as_str());
            pieces.set(0, first);
        },
        None => {},
    }
    pieces
}

/// The fields of `s` between commas, in order; a text without commas is one field.
pub open spec fn comma_fields(s: Seq<char>) -> Seq<Seq<char>>
    decreases s.len(),
{
    if s.len() == 0 {
        seq![Seq::empty()]
    } else {
        let f = comma_fields(s.drop_last());
        if s.last() == ',' {
            f.push(Seq::empty())
        } else {
            f.update(f.len() - 1, f.last().push(s.last()))
        }
    }
}

/// The numbers that `fields` hold, in order, each field trimmed; fields that
/// hold no number are skipped.
pub open spec fn ids_of(fields: Seq<Seq<char>>) -> Seq<u64>
    decreases fields.len(),
{
    if fields.len() == 0 {
        Seq::empty()
    } else {
        let rest = ids_of(fields.drop_last());
        match u64_of(trimmed(fields.last())) {
            Some(v) => rest.push(v),
            None => rest,
        }
    }
}

/// Reads a comma-separated list of ids, such as `"1, 2,3"`; entries that are
/// not numbers are skipped.
pub fn parse_id_list(s: &str) -> (r: Vec<u64>)
    ensures
        r@ == ids_of(comma_fields(s@)),
{
    let n = s.unicode_len();
    let mut out: Vec<u64> = Vec::new();
    let ghost mut done: Seq<Seq<char>> = Seq::empty();
    let mut start: usize = 0;
    let mut i: usize = 0;
    proof {
        assert(s@.take(0) =~= Seq::<char>::empty());
        assert(s@.subrange(0, 0) =~= Seq::<char>::empty());
        assert(comma_fields(s@.take(0)) =~= done.push(s@.subrange(0, 0)));
    }
    while i < n
        invariant
            n == s@.len(),
            start <= i <= n,
            comma_fields(s@.take(i as int)) == done.push(s@.subrange(start as int, i as int)),
            out@ == ids_of(done),
        decreases n - i,
    {
        let c = s.get_char(i);
        proof {
            assert(s@.take(i + 1).drop_last() =~= s@.take(i as int));
            assert(s@.take(i + 1).last() == c);
        }
        if c == ',' {
            let field = s.substring_char(start, i);
            let t = trim_text(field);
            match parse_u64(t.as_str()) {
                Some(v) => out.push(v),
                None => {},
            }
            proof {
                let old_done = done;
                done = done.push(field@);
                assert(done.drop_last() =~= old_done);
                assert(s@.subrange(i + 1, i + 1) =~= Seq::<char>::empty());
            }
            start = i + 1;
        } else {
            proof {
                assert(s@.subrange(start as int, i as int).push(c) =~= s@.subrange(
                    start as int,
                    i + 1,
                ));
                assert(done.push(s@.subrange(start as int, i as int)).update(
                    done.len() as int,
                    s@.subrange(start as int, i + 1),
                ) =~= done.push(s@.subrange(start as int, i + 1)));
            }
        }
        i = i + 1;
    }
    let field = s.substring_char(start, n);
    let t = trim_text(field);
    match parse_u64(t.as_str()) {
        Some(v) => out.push(v),
        None => {},
    }
    proof {
        assert(s@.take(n as int) =~= s@);
        let all = done.push(field@);
        assert(all.drop_last() =~= done);
    }
    out
}

} // verus!
