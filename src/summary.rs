//! The texts of the summary command: how many messages to read and the
//! request that asks for their summary.

use vstd::prelude::*;

use crate::conversation::ChannelMessage;
use crate::text::{join2, join3};

verus! {

/// How many messages are summarised when no count is given.
pub const DEFAULT_SUMMARY_COUNT: u8 = 10;

/// The most messages that can be summarised at once.
pub const MAX_SUMMARY_COUNT: u8 = 50;

/// The number of messages to read: the count asked for, `DEFAULT_SUMMARY_COUNT`
/// when none was given, brought within 1 to `MAX_SUMMARY_COUNT`.
pub fn summary_count(count: Option<u8>) -> (r: u8)
    ensures
        r == ({
            let c = match count {
                Some(c) => c,
                None => DEFAULT_SUMMARY_COUNT,
            };
            if c < 1 {
                1
            } else if c > MAX_SUMMARY_COUNT {
                MAX_SUMMARY_COUNT
            } else {
                c
            }
        }),
{
    let c = match count {
        Some(c) => c,
        None => DEFAULT_SUMMARY_COUNT,
    };
    if c < 1 {
        1
    } else if c > MAX_SUMMARY_COUNT {
        MAX_SUMMARY_COUNT
    } else {
        c
    }
}

/// Whether a message takes part in a summary: people's messages with content.
pub open spec fn summarised(m: ChannelMessage) -> bool {
    !m.from_bot && m.content@.len() > 0
}

/// One line of a transcript: the author, a colon and the content.
pub open spec fn transcript_line(m: ChannelMessage) -> Seq<char> {
    m.author@ + ": "@ + m.content@
}

/// The transcript of `history`, which lists the newest message first: one line
/// per summarised message, oldest first, joined by newlines.
pub open spec fn transcript_of(history: Seq<ChannelMessage>) -> Seq<char>
    decreases history.len(),
{
    if history.len() == 0 {
        Seq::empty()
    } else {
        let rest = transcript_of(history.drop_first());
        if !summarised(history[0]) {
            rest
        } else if rest.len() == 0 {
            transcript_line(history[0])
        } else {
            rest + "\n"@ + transcript_line(history[0])
        }
    }
}

/// The transcript of a channel's history (newest message first): one
/// `author: content` line per message of a person with content, oldest first.
pub fn transcript(history: &Vec<ChannelMessage>) -> (r: String)
    ensures
        r@ == transcript_of(history@),
{
    let mut out = String::new();
    let mut i: usize = history.len();
    while i > 0
        invariant
            i <= history@.len(),
            out@ == transcript_of(history@.subrange(i as int, history@.len() as int)),
        decreases i,
    {
        i = i - 1;
        let m = &history[i];
        proof {
            let s = history@.subrange(i as int, history@.len() as int);
            assert(s.drop_first() =~= history@.subrange(i + 1, history@.len() as int));
            assert(s[0] == history@[i as int]);
        }
        if !m.from_bot && !m.content.as_str().is_empty() {
            let line = join3(m.author.as_str(), ": ", m.content.as_str());
            if out.as_str().is_empty() {
                out = line;
            } else {
                out.append("\n");
                out.append(line.as_str());
            }
        }
    }
    proof {
        assert(history@.subrange(0, history@.len() as int) =~= history@);
    }
    out
}

/// The request that asks the model for a short summary of `transcript`.
pub open spec fn summary_prompt_of(transcript: Seq<char>) -> Seq<char> {
    "以下の会話を簡潔に要約してください:\n\n"@ + transcript
}

/// The request that asks the model for a short summary of `transcript`.
pub fn summary_prompt(transcript: &str) -> (r: String)
    ensures
        r@ == summary_prompt_of(transcript@),
{
    join2("以下の会話を簡潔に要約してください:\n\n", transcript)
}

} // verus!
