//! The wire format, as mathematics: how an event is laid out in bytes, and
//! what the front of a byte stream means.
//!
//! A frame is one tag byte followed by the variant's text fields in
//! declaration order. A text field is an 8-byte big-endian length followed by
//! that many bytes of UTF-8. Frames follow one another with nothing between
//! them.

use crate::event::EventView;
use vstd::prelude::*;
use vstd::utf8::*;

verus! {

/// The eight bytes of `n`, most significant first: the last byte is the
/// remainder of `n` by 256, and each byte before it is that of the quotient
/// left by the one after.
#[verifier::opaque]
pub open spec fn be_bytes(n: u64) -> Seq<u8> {
    let q1 = n / 256;
    let q2 = q1 / 256;
    let q3 = q2 / 256;
    let q4 = q3 / 256;
    let q5 = q4 / 256;
    let q6 = q5 / 256;
    let q7 = q6 / 256;
    seq![
        (q7 % 256) as u8,
        (q6 % 256) as u8,
        (q5 % 256) as u8,
        (q4 % 256) as u8,
        (q3 % 256) as u8,
        (q2 % 256) as u8,
        (q1 % 256) as u8,
        (n % 256) as u8,
    ]
}

/// The number whose big-endian bytes are the first eight of `bytes`.
#[verifier::opaque]
pub open spec fn be_u64(bytes: Seq<u8>) -> u64
    recommends
        bytes.len() >= 8,
{
    (((((((bytes[0] * 256 + bytes[1]) * 256 + bytes[2]) * 256 + bytes[3]) * 256 + bytes[4]) * 256
        + bytes[5]) * 256 + bytes[6]) * 256 + bytes[7]) as u64
}

/// A number is written in eight bytes, and reading them back gives the
/// number.
pub proof fn lemma_be_u64_of_be_bytes(n: u64)
    ensures
        be_bytes(n).len() == 8,
        be_u64(be_bytes(n)) == n,
{
    reveal(be_bytes);
    reveal(be_u64);
    let q1 = n / 256;
    let q2 = q1 / 256;
    let q3 = q2 / 256;
    let q4 = q3 / 256;
    let q5 = q4 / 256;
    let q6 = q5 / 256;
    let q7 = q6 / 256;
    assert(q7 < 256);
    assert(q7 * 256 + q6 % 256 == q6);
    assert(q6 * 256 + q5 % 256 == q5);
    assert(q5 * 256 + q4 % 256 == q4);
    assert(q4 * 256 + q3 % 256 == q3);
    assert(q3 * 256 + q2 % 256 == q2);
    assert(q2 * 256 + q1 % 256 == q1);
    assert(q1 * 256 + n % 256 == n);
}

/// Writing out the number read from eight bytes gives those bytes.
pub proof fn lemma_be_bytes_of_be_u64(bytes: Seq<u8>)
    requires
        bytes.len() == 8,
    ensures
        be_bytes(be_u64(bytes)) == bytes,
{
    reveal(be_bytes);
    reveal(be_u64);
    let h0 = bytes[0] as int;
    let h1 = h0 * 256 + bytes[1];
    let h2 = h1 * 256 + bytes[2];
    let h3 = h2 * 256 + bytes[3];
    let h4 = h3 * 256 + bytes[4];
    let h5 = h4 * 256 + bytes[5];
    let h6 = h5 * 256 + bytes[6];
    let h7 = h6 * 256 + bytes[7];
    assert(h1 < 0x1_0000 && h1 / 256 == h0 && h1 % 256 == bytes[1]);
    assert(h2 < 0x100_0000 && h2 / 256 == h1 && h2 % 256 == bytes[2]);
    assert(h3 < 0x1_0000_0000 && h3 / 256 == h2 && h3 % 256 == bytes[3]);
    assert(h4 < 0x100_0000_0000 && h4 / 256 == h3 && h4 % 256 == bytes[4]);
    assert(h5 < 0x1_0000_0000_0000 && h5 / 256 == h4 && h5 % 256 == bytes[5]);
    assert(h6 < 0x100_0000_0000_0000 && h6 / 256 == h5 && h6 % 256 == bytes[6]);
    assert(h7 < 0x1_0000_0000_0000_0000 && h7 / 256 == h6 && h7 % 256 == bytes[7]);
    assert(be_u64(bytes) == h7);
    assert(be_bytes(be_u64(bytes)) =~= bytes);
}

/// A text field on the wire: the length of its UTF-8 encoding as eight
/// big-endian bytes, then the encoding itself.
pub open spec fn text_field(text: Seq<char>) -> Seq<u8> {
    be_bytes(encode_utf8(text).len() as u64) + encode_utf8(text)
}

/// What follows the tag byte in the frame of `event`.
pub open spec fn payload(event: EventView) -> Seq<u8> {
    match event {
        EventView::RequestJoin(name) => text_field(name),
        EventView::Joined(name) => text_field(name),
        EventView::Leave => Seq::empty(),
        EventView::Left(name) => text_field(name),
        EventView::MessageSend(body) => text_field(body),
        EventView::MessageReceived(sender, body) => text_field(sender) + text_field(body),
    }
}

/// The frame of `event`: its tag byte, then its payload.
pub open spec fn frame(event: EventView) -> Seq<u8> {
    seq![event.tag()] + payload(event)
}

/// Whether the length prefix can hold the length of `text`'s encoding.
pub open spec fn fits_prefix(text: Seq<char>) -> bool {
    encode_utf8(text).len() <= u64::MAX
}

/// Whether every text of `event` fits its length prefix. This holds of the
/// value of every `Event` in memory.
pub open spec fn framable(event: EventView) -> bool {
    match event {
        EventView::RequestJoin(name) => fits_prefix(name),
        EventView::Joined(name) => fits_prefix(name),
        EventView::Leave => true,
        EventView::Left(name) => fits_prefix(name),
        EventView::MessageSend(body) => fits_prefix(body),
        EventView::MessageReceived(sender, body) => fits_prefix(sender) && fits_prefix(body),
    }
}

/// What reading one text field at an offset of a byte sequence gives.
pub enum TextRead {
    /// The field is all there: its text, and the offset just past it.
    Text { text: Seq<char>, end: nat },
    /// The length prefix or the body is cut short by `missing` bytes.
    NeedMore { missing: nat },
    /// The body is all there and is not UTF-8.
    InvalidUtf8,
}

/// Reads the text field that starts at offset `at` of `bytes`.
pub open spec fn read_text(bytes: Seq<u8>, at: nat) -> TextRead
    recommends
        at <= bytes.len(),
{
    let start = at as int;
    if bytes.len() < start + 8 {
        TextRead::NeedMore { missing: (start + 8 - bytes.len()) as nat }
    } else {
        let declared = be_u64(bytes.subrange(start, start + 8));
        let end = start + 8 + declared;
        if bytes.len() < end {
            TextRead::NeedMore { missing: (end - bytes.len()) as nat }
        } else {
            let body = bytes.subrange(start + 8, end);
            if valid_utf8(body) {
                TextRead::Text { text: decode_utf8(body), end: end as nat }
            } else {
                TextRead::InvalidUtf8
            }
        }
    }
}

/// What the front of a byte sequence means.
pub enum Parsed {
    /// It starts with one whole frame: the event, and the frame's length.
    Frame { event: EventView, used: nat },
    /// It is a proper prefix of a frame as far as can be told: the field
    /// being read lacks `missing` bytes.
    NeedMore { missing: nat },
    /// Its first byte is no tag.
    UnknownTag { tag: u8 },
    /// A text field is all there and is not UTF-8.
    InvalidUtf8,
}

/// The event with tag `tag` and the single text `text`, for the four tags
/// that have one text field.
pub open spec fn single_text_event(tag: u8, text: Seq<char>) -> EventView
    recommends
        tag == 0 || tag == 1 || tag == 3 || tag == 4,
{
    if tag == 0 {
        EventView::RequestJoin(text)
    } else if tag == 1 {
        EventView::Joined(text)
    } else if tag == 3 {
        EventView::Left(text)
    } else {
        EventView::MessageSend(text)
    }
}

/// Reads one frame from the front of `bytes`, field by field.
pub open spec fn parse(bytes: Seq<u8>) -> Parsed {
    if bytes.len() == 0 {
        Parsed::NeedMore { missing: 1 }
    } else {
        let tag = bytes[0];
        if tag == 2 {
            Parsed::Frame { event: EventView::Leave, used: 1 }
        } else if tag == 0 || tag == 1 || tag == 3 || tag == 4 {
            match read_text(bytes, 1) {
                TextRead::Text { text, end } => Parsed::Frame {
                    event: single_text_event(tag, text),
                    used: end,
                },
                TextRead::NeedMore { missing } => Parsed::NeedMore { missing },
                TextRead::InvalidUtf8 => Parsed::InvalidUtf8,
            }
        } else if tag == 5 {
            match read_text(bytes, 1) {
                TextRead::Text { text: sender, end: middle } => match read_text(bytes, middle) {
                    TextRead::Text { text: body, end } => Parsed::Frame {
                        event: EventView::MessageReceived(sender, body),
                        used: end,
                    },
                    TextRead::NeedMore { missing } => Parsed::NeedMore { missing },
                    TextRead::InvalidUtf8 => Parsed::InvalidUtf8,
                },
                TextRead::NeedMore { missing } => Parsed::NeedMore { missing },
                TextRead::InvalidUtf8 => Parsed::InvalidUtf8,
            }
        } else {
            Parsed::UnknownTag { tag }
        }
    }
}

/// A text field takes eight bytes more than its text's encoding.
pub proof fn lemma_text_field_len(text: Seq<char>)
    ensures
        text_field(text).len() == 8 + encode_utf8(text).len(),
{
    lemma_be_u64_of_be_bytes(encode_utf8(text).len() as u64);
}

/// A text field that stands at the end of `before` and ahead of `after` reads
/// back as its text, and the reading ends where the field ends.
pub proof fn lemma_read_text_field(before: Seq<u8>, text: Seq<char>, after: Seq<u8>)
    requires
        fits_prefix(text),
    ensures
        read_text(before + text_field(text) + after, before.len()) == (TextRead::Text {
            text,
            end: before.len() + text_field(text).len(),
        }),
{
    let encoded = encode_utf8(text);
    let declared = encoded.len() as u64;
    let bytes = before + text_field(text) + after;
    let start = before.len() as int;
    lemma_be_u64_of_be_bytes(declared);
    assert(bytes.subrange(start, start + 8) =~= be_bytes(declared));
    assert(bytes.subrange(start + 8, start + 8 + declared) =~= encoded);
    encode_utf8_valid_utf8(text);
    encode_utf8_decode_utf8(text);
}

/// A reading never ends past the bytes it read, and never asks for nothing.
pub proof fn lemma_read_text_bounds(bytes: Seq<u8>, at: nat)
    requires
        at <= bytes.len(),
    ensures
        read_text(bytes, at) matches TextRead::Text { end, .. } ==> at + 8 <= end <= bytes.len(),
        read_text(bytes, at) matches TextRead::NeedMore { missing } ==> missing > 0,
{
}

/// Bytes that arrive later do not change a reading that was settled, and a
/// reading that lacked `missing` bytes lacks that many less for each byte
/// that arrives, as long as fewer than `missing` have.
pub proof fn lemma_read_text_extend(bytes: Seq<u8>, at: nat, more: Seq<u8>)
    requires
        at <= bytes.len(),
    ensures
        !(read_text(bytes, at) is NeedMore) ==> read_text(bytes + more, at) == read_text(bytes, at),
        read_text(bytes, at) matches TextRead::NeedMore { missing } ==> more.len() < missing
            ==> read_text(bytes + more, at) == (TextRead::NeedMore {
            missing: (missing - more.len()) as nat,
        }),
{
    let longer = bytes + more;
    let start = at as int;
    if bytes.len() >= start + 8 {
        assert(longer.subrange(start, start + 8) =~= bytes.subrange(start, start + 8));
        let end = start + 8 + be_u64(bytes.subrange(start, start + 8));
        if bytes.len() >= end {
            assert(longer.subrange(start + 8, end) =~= bytes.subrange(start + 8, end));
        }
    }
}

/// A tag with one text field behind it parses as that tag's event.
proof fn lemma_parse_single(tag: u8, text: Seq<char>, after: Seq<u8>)
    requires
        tag == 0 || tag == 1 || tag == 3 || tag == 4,
        fits_prefix(text),
    ensures
        parse(seq![tag] + text_field(text) + after) == (Parsed::Frame {
            event: single_text_event(tag, text),
            used: 1 + text_field(text).len(),
        }),
{
    let bytes = seq![tag] + text_field(text) + after;
    assert(bytes[0] == tag);
    lemma_read_text_field(seq![tag], text, after);
}

/// The last tag with two text fields behind it parses as a received message.
proof fn lemma_parse_pair(sender: Seq<char>, body: Seq<char>, after: Seq<u8>)
    requires
        fits_prefix(sender),
        fits_prefix(body),
    ensures
        parse(seq![5u8] + text_field(sender) + text_field(body) + after) == (Parsed::Frame {
            event: EventView::MessageReceived(sender, body),
            used: 1 + text_field(sender).len() + text_field(body).len(),
        }),
{
    let head = seq![5u8];
    let first = text_field(sender);
    let second = text_field(body);
    let bytes = head + first + second + after;
    assert(bytes[0] == 5);
    lemma_read_text_field(head, sender, second + after);
    assert(bytes =~= head + first + (second + after));
    lemma_read_text_field(head + first, body, after);
}

/// Round trip, with or without bytes behind the frame: the front of a frame
/// followed by anything parses as the framed event, and takes up exactly the
/// frame.
pub proof fn lemma_parse_frame(event: EventView, after: Seq<u8>)
    requires
        framable(event),
    ensures
        parse(frame(event) + after) == (Parsed::Frame { event, used: frame(event).len() }),
{
    let bytes = frame(event) + after;
    match event {
        EventView::Leave => {
            assert(bytes[0] == 2);
        },
        EventView::RequestJoin(text)
        | EventView::Joined(text)
        | EventView::Left(text)
        | EventView::MessageSend(text) => {
            lemma_parse_single(event.tag(), text, after);
        },
        EventView::MessageReceived(sender, body) => {
            lemma_parse_pair(sender, body, after);
            assert(bytes =~= seq![5u8] + text_field(sender) + text_field(body) + after);
        },
    }
}

/// Round trip: parsing the frame of an event gives the event back and uses
/// every byte of the frame.
pub proof fn lemma_round_trip(event: EventView)
    requires
        framable(event),
    ensures
        parse(frame(event)) == (Parsed::Frame { event, used: frame(event).len() }),
{
    lemma_parse_frame(event, Seq::empty());
    assert(frame(event) + Seq::<u8>::empty() =~= frame(event));
}

/// Different events have different frames.
pub proof fn lemma_frame_injective(first: EventView, second: EventView)
    requires
        framable(first),
        framable(second),
        frame(first) == frame(second),
    ensures
        first == second,
{
    lemma_round_trip(first);
    lemma_round_trip(second);
}

/// A text that was read stands in the bytes as its own text field: reading
/// and writing are each other's inverse.
pub proof fn lemma_text_field_of_read(bytes: Seq<u8>, at: nat)
    requires
        at <= bytes.len(),
        read_text(bytes, at) is Text,
    ensures
        read_text(bytes, at) matches TextRead::Text { text, end } && fits_prefix(text)
            && text_field(text) == bytes.subrange(at as int, end as int),
{
    let start = at as int;
    let prefix = bytes.subrange(start, start + 8);
    let declared = be_u64(prefix);
    let body = bytes.subrange(start + 8, start + 8 + declared);
    lemma_be_bytes_of_be_u64(prefix);
    decode_utf8_encode_utf8(body);
    assert(prefix + body =~= bytes.subrange(start, start + 8 + declared));
}

/// A frame with one text field that was parsed is the frame of its event.
proof fn lemma_frame_of_parse_single(bytes: Seq<u8>)
    requires
        bytes.len() > 0,
        bytes[0] == 0 || bytes[0] == 1 || bytes[0] == 3 || bytes[0] == 4,
        read_text(bytes, 1) is Text,
    ensures
        read_text(bytes, 1) matches TextRead::Text { text, end } && fits_prefix(text) && seq![
            bytes[0],
        ] + text_field(text) == bytes.take(end as int),
{
    lemma_text_field_of_read(bytes, 1);
    lemma_read_text_bounds(bytes, 1);
    if let TextRead::Text { text, end } = read_text(bytes, 1) {
        assert(seq![bytes[0]] + bytes.subrange(1, end as int) =~= bytes.take(end as int));
    }
}

/// A frame with two text fields that was parsed is the frame of its event.
proof fn lemma_frame_of_parse_pair(bytes: Seq<u8>, middle: nat)
    requires
        bytes.len() > 0,
        read_text(bytes, 1) matches TextRead::Text { end, .. } && end == middle,
        read_text(bytes, middle) is Text,
    ensures
        read_text(bytes, 1) matches TextRead::Text { text: sender, .. } && fits_prefix(sender) && (
        read_text(bytes, middle) matches TextRead::Text { text: body, end } && fits_prefix(body)
            && seq![bytes[0]] + text_field(sender) + text_field(body) == bytes.take(end as int)),
{
    lemma_text_field_of_read(bytes, 1);
    lemma_read_text_bounds(bytes, 1);
    lemma_text_field_of_read(bytes, middle);
    lemma_read_text_bounds(bytes, middle);
    if let TextRead::Text { end, .. } = read_text(bytes, middle) {
        assert(seq![bytes[0]] + bytes.subrange(1, middle as int) + bytes.subrange(
            middle as int,
            end as int,
        ) =~= bytes.take(end as int));
    }
}

/// A frame that was parsed is the frame of its event: there is one way only
/// to write an event.
pub proof fn lemma_frame_of_parse(bytes: Seq<u8>)
    requires
        parse(bytes) is Frame,
    ensures
        parse(bytes) matches Parsed::Frame { event, used } && framable(event) && frame(event)
            == bytes.take(used as int),
{
    let tag = bytes[0];
    if tag == 2 {
        assert(frame(EventView::Leave) =~= bytes.take(1));
    } else if tag == 5 {
        if let TextRead::Text { end, .. } = read_text(bytes, 1) {
            lemma_frame_of_parse_pair(bytes, end);
        }
    } else {
        lemma_frame_of_parse_single(bytes);
    }
}

/// Two frames back to back parse as the first event, then, once the first
/// frame has been taken off the front, as the second, and then nothing is
/// left.
pub proof fn lemma_two_frames(first: EventView, second: EventView)
    requires
        framable(first),
        framable(second),
    ensures
        parse(frame(first) + frame(second)) == (Parsed::Frame {
            event: first,
            used: frame(first).len(),
        }),
        parse((frame(first) + frame(second)).skip(frame(first).len() as int)) == (Parsed::Frame {
            event: second,
            used: frame(second).len(),
        }),
        (frame(first) + frame(second)).skip(frame(first).len() as int).skip(
            frame(second).len() as int,
        ) == Seq::<u8>::empty(),
{
    lemma_parse_frame(first, frame(second));
    lemma_round_trip(second);
    let rest = (frame(first) + frame(second)).skip(frame(first).len() as int);
    assert(rest =~= frame(second));
    assert(rest.skip(frame(second).len() as int) =~= Seq::<u8>::empty());
}

/// A first byte that is none of the six tags is an error, whatever follows.
pub proof fn lemma_unknown_tag(bytes: Seq<u8>)
    requires
        bytes.len() > 0,
        bytes[0] > 5,
    ensures
        parse(bytes) == (Parsed::UnknownTag { tag: bytes[0] }),
{
}

/// A parse never uses more bytes than it was given, and never asks for
/// nothing.
pub proof fn lemma_parse_bounds(bytes: Seq<u8>)
    ensures
        parse(bytes) matches Parsed::Frame { used, .. } ==> 0 < used <= bytes.len(),
        parse(bytes) matches Parsed::NeedMore { missing } ==> missing > 0,
{
    if bytes.len() > 0 {
        lemma_read_text_bounds(bytes, 1);
        if let TextRead::Text { end, .. } = read_text(bytes, 1) {
            lemma_read_text_bounds(bytes, end);
        }
    }
}

/// Resumability: a frame or an error that was found stays found when more
/// bytes arrive, and where `missing` bytes were lacking, nothing but a
/// smaller lack can be found until that many have arrived.
pub proof fn lemma_parse_extend(bytes: Seq<u8>, more: Seq<u8>)
    ensures
        !(parse(bytes) is NeedMore) ==> parse(bytes + more) == parse(bytes),
        parse(bytes) matches Parsed::NeedMore { missing } ==> more.len() < missing ==> parse(
            bytes + more,
        ) == (Parsed::NeedMore { missing: (missing - more.len()) as nat }),
{
    if bytes.len() == 0 {
        if more.len() < 1 {
            assert(bytes + more =~= bytes);
        }
    } else {
        assert((bytes + more)[0] == bytes[0]);
        lemma_read_text_extend(bytes, 1, more);
        lemma_read_text_bounds(bytes, 1);
        if let TextRead::Text { end, .. } = read_text(bytes, 1) {
            lemma_read_text_extend(bytes, end, more);
        }
    }
}

/// Partial delivery: every proper prefix of a frame parses as lacking bytes,
/// and lacks no more than the rest of the frame.
pub proof fn lemma_split_frame(event: EventView, cut: int)
    requires
        framable(event),
        0 <= cut < frame(event).len(),
    ensures
        parse(frame(event).take(cut)) matches Parsed::NeedMore { missing } && 0 < missing
            <= frame(event).len() - cut,
{
    let whole = frame(event);
    let front = whole.take(cut);
    let back = whole.skip(cut);
    assert(front + back =~= whole);
    lemma_round_trip(event);
    lemma_parse_extend(front, back);
    lemma_parse_bounds(front);
}

} // verus!
