//! Splitting a long text into pieces that fit a per-message byte limit,
//! cutting preferably right after the end of a sentence.

use vstd::prelude::*;
use vstd::string::StringSliceAdditionalSpecFns;
use vstd::utf8::*;

verus! {

broadcast use vstd::utf8::group_utf8_lib, vstd::slice::group_slice_axioms;

/// The single-byte sentence terminators: `.`, `!`, `?` and newline.
pub open spec fn is_ascii_terminator(x: u8) -> bool {
    x == 0x2e || x == 0x21 || x == 0x3f || x == 0x0a
}

/// True when `b[0..e]` ends with a sentence terminator: one of the
/// single-byte terminators, or the ideographic full stop `。` (E3 80 82).
pub open spec fn ends_with_terminator(b: Seq<u8>, e: int) -> bool {
    ||| (1 <= e <= b.len() && is_ascii_terminator(b[e - 1]))
    ||| (3 <= e <= b.len() && b[e - 3] == 0xe3 && b[e - 2] == 0x80 && b[e - 1] == 0x82)
}

/// The largest character boundary of `b` that is at most `k` (0 when there is none above 0).
pub open spec fn boundary_at_or_before(b: Seq<u8>, k: int) -> int
    decreases k,
{
    if k <= 0 {
        0
    } else if is_char_boundary(b, k) {
        k
    } else {
        boundary_at_or_before(b, k - 1)
    }
}

/// The end of the last sentence terminator lying wholly within `b[0..w]`, or 0 when there is none.
pub open spec fn last_terminator_end(b: Seq<u8>, w: int) -> int
    decreases w,
{
    if w <= 0 {
        0
    } else if ends_with_terminator(b, w) {
        w
    } else {
        last_terminator_end(b, w - 1)
    }
}

/// Length of the first piece cut from `b` under the limit `max_length`.
///
/// All of `b` when it fits. Otherwise the window is `b` up to the last character
/// boundary at or below the limit; the cut goes right after the last sentence
/// terminator in that window, or at the window's end when it holds none. When
/// not even one character fits the limit, the piece is that one character.
pub open spec fn first_cut(b: Seq<u8>, max_length: nat) -> int {
    if b.len() <= max_length {
        b.len() as int
    } else {
        let w = boundary_at_or_before(b, max_length as int);
        let t = last_terminator_end(b, w);
        if t > 0 {
            t
        } else if w > 0 {
            w
        } else {
            length_of_first_scalar(b)
        }
    }
}

/// The byte pieces that `b` is split into under the limit `max_length`.
pub open spec fn split_bytes(b: Seq<u8>, max_length: nat) -> Seq<Seq<u8>>
    decreases b.len(),
{
    if b.len() <= max_length {
        seq![b]
    } else {
        let c = first_cut(b, max_length);
        if 0 < c < b.len() {
            seq![b.subrange(0, c)] + split_bytes(b.subrange(c, b.len() as int), max_length)
        } else {
            seq![b]
        }
    }
}

/// The pieces that `text` is split into under the byte limit `max_length`.
pub open spec fn split_text(text: Seq<char>, max_length: nat) -> Seq<Seq<char>> {
    split_bytes(encode_utf8(text), max_length).map_values(|p: Seq<u8>| decode_utf8(p))
}

proof fn lemma_boundary_at_or_before(b: Seq<u8>, k: int)
    requires
        valid_utf8(b),
        k <= b.len(),
    ensures
        0 <= boundary_at_or_before(b, k),
        k >= 0 ==> boundary_at_or_before(b, k) <= k,
        is_char_boundary(b, boundary_at_or_before(b, k)),
    decreases k,
{
    if k > 0 && !is_char_boundary(b, k) {
        lemma_boundary_at_or_before(b, k - 1);
    }
}

proof fn lemma_last_terminator_end(b: Seq<u8>, w: int)
    ensures
        0 <= last_terminator_end(b, w),
        w >= 0 ==> last_terminator_end(b, w) <= w,
        last_terminator_end(b, w) > 0 ==> ends_with_terminator(b, last_terminator_end(b, w)),
    decreases w,
{
    if w > 0 && !ends_with_terminator(b, w) {
        lemma_last_terminator_end(b, w - 1);
    }
}

/// A leading byte at `p` of width `k` ends its character at `p + k`, which is a boundary.
proof fn lemma_boundary_after_char(b: Seq<u8>, p: int, k: int)
    requires
        valid_utf8(b),
        0 <= p,
        p + k <= b.len(),
        (k == 1 && is_leading_byte_width_1(b[p])) || (k == 3 && is_leading_byte_width_3(b[p])),
    ensures
        is_char_boundary(b, p + k),
{
    if p + k == b.len() {
    } else {
        assert(is_char_boundary(b, p));
        let s = b.subrange(p, b.len() as int);
        assert(valid_utf8(s));
        assert(length_of_first_scalar(s) == k);
        assert(pop_first_scalar(s) =~= b.subrange(p + k, b.len() as int));
        let q = pop_first_scalar(s);
        assert(valid_utf8(q));
        assert(q[0] == b[p + k]);
        assert(!is_continuation_byte(b[p + k]));
    }
}

proof fn lemma_terminator_is_boundary(b: Seq<u8>, e: int)
    requires
        valid_utf8(b),
        ends_with_terminator(b, e),
    ensures
        is_char_boundary(b, e),
{
    if 1 <= e <= b.len() && is_ascii_terminator(b[e - 1]) {
        lemma_boundary_after_char(b, e - 1, 1);
    } else {
        lemma_boundary_after_char(b, e - 3, 3);
    }
}

proof fn lemma_first_scalar_is_boundary(b: Seq<u8>)
    requires
        valid_utf8(b),
        b.len() > 0,
    ensures
        0 < length_of_first_scalar(b) <= b.len(),
        is_char_boundary(b, length_of_first_scalar(b)),
{
    reveal_with_fuel(is_char_boundary, 2);
}

/// The first cut of a text longer than the limit is a character boundary strictly inside it.
proof fn lemma_first_cut(b: Seq<u8>, max_length: nat)
    requires
        valid_utf8(b),
        b.len() > max_length,
    ensures
        0 < first_cut(b, max_length) < b.len() || (first_cut(b, max_length) == b.len()
            && boundary_at_or_before(b, max_length as int) == 0),
        is_char_boundary(b, first_cut(b, max_length)),
{
    let w = boundary_at_or_before(b, max_length as int);
    lemma_boundary_at_or_before(b, max_length as int);
    lemma_last_terminator_end(b, w);
    let t = last_terminator_end(b, w);
    if t > 0 {
        lemma_terminator_is_boundary(b, t);
    } else if w == 0 {
        lemma_first_scalar_is_boundary(b);
    }
}


/// Every character of `text` has a UTF-8 encoding of at most `max_length` bytes.
pub open spec fn chars_fit(text: Seq<char>, max_length: nat) -> bool {
    forall|i: int|
        0 <= i < text.len() ==> #[trigger] encode_scalar(text[i] as u32).len() <= max_length
}

proof fn lemma_boundary_at_or_before_at_least(b: Seq<u8>, k: int, m: int)
    requires
        valid_utf8(b),
        0 < m <= k <= b.len(),
        is_char_boundary(b, m),
    ensures
        boundary_at_or_before(b, k) >= m,
    decreases k,
{
    if !is_char_boundary(b, k) {
        lemma_boundary_at_or_before_at_least(b, k - 1, m);
    }
}

proof fn lemma_flatten_cons<A>(x: Seq<A>, rest: Seq<Seq<A>>)
    ensures
        (seq![x] + rest).flatten() == x + rest.flatten(),
{
    let s = seq![x] + rest;
    assert(s.first() == x);
    assert(s.drop_first() =~= rest);
}

/// When every character fits the limit, so does the first cut.
proof fn lemma_cut_within_limit(b: Seq<u8>, l: nat)
    requires
        valid_utf8(b),
        b.len() > l,
        chars_fit(decode_utf8(b), l),
    ensures
        first_cut(b, l) <= l,
{
    let d = decode_utf8(b);
    decode_utf8_first_scalar(b);
    let first_len = length_of_first_scalar(b);
    assert(d[0] == decode_first_scalar(b) as char);
    assert(encode_scalar(d[0] as u32).len() <= l);
    assert(first_len <= l);
    lemma_first_scalar_is_boundary(b);
    lemma_boundary_at_or_before_at_least(b, l as int, first_len);
    let w = boundary_at_or_before(b, l as int);
    lemma_boundary_at_or_before(b, l as int);
    lemma_last_terminator_end(b, w);
}

proof fn lemma_split_bytes(b: Seq<u8>, l: nat)
    requires
        valid_utf8(b),
    ensures
        split_bytes(b, l).len() >= 1,
        split_bytes(b, l).flatten() == b,
        split_bytes(b, l).map_values(|p: Seq<u8>| decode_utf8(p)).flatten() == decode_utf8(b),
        forall|i: int|
            0 <= i < split_bytes(b, l).len() ==> valid_utf8(#[trigger] split_bytes(b, l)[i]),
        b.len() > 0 ==> forall|i: int|
            0 <= i < split_bytes(b, l).len() ==> (#[trigger] split_bytes(b, l)[i]).len() > 0,
        b.len() <= l || chars_fit(decode_utf8(b), l) ==> forall|i: int|
            0 <= i < split_bytes(b, l).len() ==> (#[trigger] split_bytes(b, l)[i]).len() <= l,
    decreases b.len(),
{
    let f = |p: Seq<u8>| decode_utf8(p);
    let pieces = split_bytes(b, l);
    if b.len() > l {
        lemma_first_cut(b, l);
        if chars_fit(decode_utf8(b), l) {
            lemma_cut_within_limit(b, l);
        }
    }
    if b.len() <= l || first_cut(b, l) == b.len() {
        lemma_flatten_cons(b, Seq::empty());
        assert(seq![b] + Seq::<Seq<u8>>::empty() =~= seq![b]);
        assert(pieces.map_values(f) =~= seq![decode_utf8(b)] + Seq::<Seq<char>>::empty());
        lemma_flatten_cons(decode_utf8(b), Seq::empty());
        assert(decode_utf8(b) + Seq::<Seq<char>>::empty().flatten() =~= decode_utf8(b));
    } else {
        lemma_first_cut(b, l);
        let c = first_cut(b, l);
        let head = b.subrange(0, c);
        let rest = b.subrange(c, b.len() as int);
        let tail = split_bytes(rest, l);
        assert(pieces == seq![head] + tail);
        lemma_split_bytes(rest, l);
        lemma_flatten_cons(head, tail);
        assert(head + rest =~= b);
        assert(pieces.map_values(f) =~= seq![decode_utf8(head)] + tail.map_values(f));
        lemma_flatten_cons(decode_utf8(head), tail.map_values(f));
        assert(decode_utf8(b) =~= decode_utf8(head) + decode_utf8(rest));
        assert forall|i: int| 0 <= i < pieces.len() implies valid_utf8(#[trigger] pieces[i])
            && pieces[i].len() > 0 by {
            if i > 0 {
                assert(pieces[i] == tail[i - 1]);
            }
        }
        if chars_fit(decode_utf8(b), l) {
            let d = decode_utf8(b);
            let dh = decode_utf8(head);
            let dr = decode_utf8(rest);
            assert(chars_fit(dr, l)) by {
                assert forall|j: int| 0 <= j < dr.len() implies #[trigger] encode_scalar(
                    dr[j] as u32,
                ).len() <= l by {
                    assert(d[dh.len() + j] == dr[j]);
                }
            }
            lemma_cut_within_limit(b, l);
            assert forall|i: int| 0 <= i < pieces.len() implies (#[trigger] pieces[i]).len()
                <= l by {
                if i > 0 {
                    assert(pieces[i] == tail[i - 1]);
                }
            }
        }
    }
}

/// Joining the pieces of a text gives the text back exactly: no character is
/// lost or repeated.
pub proof fn lemma_split_joins_to_text(text: Seq<char>, max_length: nat)
    ensures
        split_text(text, max_length).flatten() == text,
{
    lemma_split_bytes(encode_utf8(text), max_length);
}

/// A text that fits within the limit is returned as its only piece.
pub proof fn lemma_split_short_text(text: Seq<char>, max_length: nat)
    requires
        encode_utf8(text).len() <= max_length,
    ensures
        split_text(text, max_length) == seq![text],
{
    let b = encode_utf8(text);
    assert(split_bytes(b, max_length) == seq![b]);
    assert(split_text(text, max_length) =~= seq![text]);
}

/// No cut falls inside a character: the pieces are cuts of the text's UTF-8
/// bytes, in order, and each cut is valid UTF-8 on its own and encodes its piece.
pub proof fn lemma_split_cuts_on_boundaries(text: Seq<char>, max_length: nat)
    ensures
        split_bytes(encode_utf8(text), max_length).flatten() == encode_utf8(text),
        split_text(text, max_length).len() == split_bytes(encode_utf8(text), max_length).len(),
        forall|i: int|
            0 <= i < split_bytes(encode_utf8(text), max_length).len() ==> valid_utf8(
                #[trigger] split_bytes(encode_utf8(text), max_length)[i],
            ),
        forall|i: int|
            0 <= i < split_text(text, max_length).len() ==> encode_utf8(
                #[trigger] split_text(text, max_length)[i],
            ) == split_bytes(encode_utf8(text), max_length)[i],
{
    let b = encode_utf8(text);
    lemma_split_bytes(b, max_length);
    let pieces = split_bytes(b, max_length);
    assert forall|i: int| 0 <= i < pieces.len() implies encode_utf8(
        #[trigger] split_text(text, max_length)[i],
    ) == pieces[i] by {
        assert(valid_utf8(pieces[i]));
    }
}

/// Every piece fits the limit in UTF-8 bytes.
///
/// The limit can only be kept when the text fits whole or each of its
/// characters fits on its own: a wider character is a piece by itself.
pub proof fn lemma_split_pieces_fit(text: Seq<char>, max_length: nat)
    requires
        encode_utf8(text).len() <= max_length || chars_fit(text, max_length),
    ensures
        forall|i: int|
            0 <= i < split_text(text, max_length).len() ==> encode_utf8(
                #[trigger] split_text(text, max_length)[i],
            ).len() <= max_length,
{
    let b = encode_utf8(text);
    lemma_split_cuts_on_boundaries(text, max_length);
    lemma_split_bytes(b, max_length);
    assert forall|i: int| 0 <= i < split_text(text, max_length).len() implies encode_utf8(
        #[trigger] split_text(text, max_length)[i],
    ).len() <= max_length by {
        assert(split_bytes(b, max_length)[i].len() <= max_length);
    }
}

fn ends_with_terminator_at(b: &[u8], e: usize) -> (r: bool)
    requires
        e <= b@.len(),
    ensures
        r == ends_with_terminator(b@, e as int),
{
    (e >= 1 && (b[e - 1] == 0x2e || b[e - 1] == 0x21 || b[e - 1] == 0x3f || b[e - 1] == 0x0a))
        || (e >= 3 && b[e - 3] == 0xe3 && b[e - 2] == 0x80 && b[e - 1] == 0x82)
}

/// Byte length of the first character of a non-empty valid UTF-8 sequence.
fn first_char_len(b: &[u8]) -> (r: usize)
    requires
        valid_utf8(b@),
        b@.len() > 0,
    ensures
        r == length_of_first_scalar(b@),
{
    let x = b[0];
    if x <= 0x7f {
        1
    } else if 0xc0 <= x && x <= 0xdf {
        2
    } else if 0xe0 <= x && x <= 0xef {
        3
    } else {
        4
    }
}

/// Where to cut the first piece off a text that is longer than the limit.
fn find_cut(text: &str, max_length: usize) -> (c: usize)
    requires
        text.spec_bytes().len() > max_length,
    ensures
        c == first_cut(text.spec_bytes(), max_length as nat),
{
    let ghost b = text.spec_bytes();
    let bytes = text.as_bytes();
    let mut w: usize = max_length;
    while w > 0 && !text.is_char_boundary(w)
        invariant
            w <= max_length < b.len(),
            b == text.spec_bytes(),
            boundary_at_or_before(b, w as int) == boundary_at_or_before(b, max_length as int),
        decreases w,
    {
        w = w - 1;
    }
    let mut t: usize = w;
    while t > 0 && !ends_with_terminator_at(bytes, t)
        invariant
            t <= w < b.len(),
            bytes@ == b,
            last_terminator_end(b, t as int) == last_terminator_end(b, w as int),
        decreases t,
    {
        t = t - 1;
    }
    if t > 0 {
        t
    } else if w > 0 {
        w
    } else {
        first_char_len(bytes)
    }
}

/// Splits `message` into pieces of at most `max_length` bytes each, cutting
/// preferably right after a sentence terminator (`。`, `.`, `!`, `?` or newline)
/// and never inside a character.
///
/// A message that fits is returned whole, the empty message included. A
/// character wider than the limit, which no cut can respect, becomes a piece
/// of its own.
pub fn split_message(message: &str, max_length: usize) -> (r: Vec<String>)
    ensures
        r@.map_values(|s: String| s@) == split_text(message@, max_length as nat),
        r@.len() >= 1,
        message@.len() > 0 ==> forall|i: int| 0 <= i < r@.len() ==> (#[trigger] r@[i])@.len() > 0,
{
    let ghost whole = message.spec_bytes();
    let ghost l = max_length as nat;
    let mut result: Vec<String> = Vec::new();
    let ghost mut pieces: Seq<Seq<u8>> = Seq::empty();
    let mut rest: &str = message;
    loop
        invariant_except_break
            pieces + split_bytes(rest.spec_bytes(), l) == split_bytes(whole, l),
        invariant
            l == max_length as nat,
            whole == message.spec_bytes(),
            valid_utf8(rest.spec_bytes()),
            result@.len() == pieces.len(),
            forall|i: int| 0 <= i < pieces.len() ==> #[trigger] result@[i]@ == decode_utf8(pieces[i]),
        ensures
            pieces == split_bytes(whole, l),
            result@.len() == pieces.len(),
            forall|i: int| 0 <= i < pieces.len() ==> #[trigger] result@[i]@ == decode_utf8(pieces[i]),
        decreases rest.spec_bytes().len(),
    {
        let ghost rb = rest.spec_bytes();
        let rest_bytes = rest.as_bytes();
        if rest_bytes.len() <= max_length {
            let piece = rest.to_owned();
            result.push(piece);
            proof {
                assert(split_bytes(rb, l) == seq![rb]);
                pieces = pieces.push(rb);
                assert(pieces =~= split_bytes(whole, l));
            }
            break;
        }
        let cut = find_cut(rest, max_length);
        proof {
            lemma_first_cut(rb, l);
        }
        if cut == rest_bytes.len() {
            result.push(rest.to_owned());
            proof {
                assert(split_bytes(rb, l) == seq![rb]);
                pieces = pieces.push(rb);
                assert(pieces =~= split_bytes(whole, l));
            }
            break;
        }
        let (head, tail) = rest.split_at(cut);
        proof {
            assert(head.spec_bytes() == rb.subrange(0, cut as int));
            assert(split_bytes(rb, l) == seq![rb.subrange(0, cut as int)] + split_bytes(
                tail.spec_bytes(),
                l,
            ));
            assert(head@ == decode_utf8(head.spec_bytes()));
            let old_pieces = pieces;
            pieces = pieces.push(head.spec_bytes());
            assert(old_pieces + split_bytes(rb, l) =~= pieces + split_bytes(tail.spec_bytes(), l));
        }
        result.push(head.to_owned());
        rest = tail;
    }
    proof {
        assert(result@.map_values(|s: String| s@) =~= split_text(message@, l));
        lemma_split_bytes(whole, l);
        if message@.len() > 0 {
            assert(whole.len() > 0);
            assert forall|i: int| 0 <= i < result@.len() implies (#[trigger] result@[i])@.len()
                > 0 by {
                assert(pieces[i].len() > 0);
                assert(valid_utf8(pieces[i]));
            }
        }
    }
    result
}

} // verus!
