//! The codec: events into a byte buffer, and whole events out of a buffer
//! that fills in pieces.

use crate::event::Event;
use crate::trusted::{
    buffer_advance, buffer_bytes, buffer_len, buffer_put_slice, buffer_put_u64, buffer_put_u8,
    buffered, slice_get_u64, string_from_utf8,
};
use crate::wire::{
    frame, framable, lemma_text_field_len, parse, read_text, text_field, Parsed, TextRead,
};
use bytes::BytesMut;
use vstd::prelude::*;
use vstd::slice::{slice_subrange, slice_to_vec};
use vstd::utf8::*;

verus! {

/// What one look at the front of a byte slice found.
#[derive(Debug, PartialEq, Eq)]
pub enum Scanned {
    /// One whole frame: its event, and how many bytes it takes.
    Frame(Event, usize),
    /// No whole frame yet: the field being read lacks this many bytes.
    NeedMore(u64),
    /// The first byte is no tag.
    UnknownTag(u8),
    /// A text field is not UTF-8.
    InvalidUtf8,
}

impl View for Scanned {
    type V = Parsed;

    open spec fn view(&self) -> Parsed {
        match *self {
            Scanned::Frame(event, used) => Parsed::Frame { event: event@, used: used as nat },
            Scanned::NeedMore(missing) => Parsed::NeedMore { missing: missing as nat },
            Scanned::UnknownTag(tag) => Parsed::UnknownTag { tag },
            Scanned::InvalidUtf8 => Parsed::InvalidUtf8,
        }
    }
}

/// What one look at a text field found.
enum ScannedText {
    Text(String, usize),
    NeedMore(u64),
    InvalidUtf8,
}

impl ScannedText {
    spec fn read(self) -> TextRead {
        match self {
            ScannedText::Text(text, end) => TextRead::Text { text: text@, end: end as nat },
            ScannedText::NeedMore(missing) => TextRead::NeedMore { missing: missing as nat },
            ScannedText::InvalidUtf8 => TextRead::InvalidUtf8,
        }
    }
}

/// Reads the text field that starts at offset `at` of `bytes`.
fn scan_text(bytes: &[u8], at: usize) -> (scanned: ScannedText)
    requires
        at <= bytes@.len(),
    ensures
        scanned.read() == read_text(bytes@, at as nat),
{
    let held = bytes.len() - at;
    if held < 8 {
        return ScannedText::NeedMore((8 - held) as u64);
    }
    let declared = slice_get_u64(slice_subrange(bytes, at, at + 8));
    let rest = held - 8;
    if declared > rest as u64 {
        return ScannedText::NeedMore(declared - rest as u64);
    }
    let start = at + 8;
    let end = start + declared as usize;
    let body = slice_to_vec(slice_subrange(bytes, start, end));
    match string_from_utf8(body) {
        Some(text) => {
            proof {
                encode_utf8_decode_utf8(text@);
            }
            ScannedText::Text(text, end)
        },
        None => ScannedText::InvalidUtf8,
    }
}

/// Reads one frame from the front of `bytes` and reports what is there,
/// whatever the bytes are.
pub fn scan_frame(bytes: &[u8]) -> (scanned: Scanned)
    ensures
        scanned@ == parse(bytes@),
{
    if bytes.len() == 0 {
        return Scanned::NeedMore(1);
    }
    let tag = bytes[0];
    if tag == 2 {
        Scanned::Frame(Event::Leave(), 1)
    } else if tag == 0 || tag == 1 || tag == 3 || tag == 4 {
        match scan_text(bytes, 1) {
            ScannedText::Text(text, end) => {
                let event = if tag == 0 {
                    Event::RequestJoin(text)
                } else if tag == 1 {
                    Event::Joined(text)
                } else if tag == 3 {
                    Event::Left(text)
                } else {
                    Event::MessageSend(text)
                };
                Scanned::Frame(event, end)
            },
            ScannedText::NeedMore(missing) => Scanned::NeedMore(missing),
            ScannedText::InvalidUtf8 => Scanned::InvalidUtf8,
        }
    } else if tag == 5 {
        match scan_text(bytes, 1) {
            ScannedText::Text(sender, middle) => match scan_text(bytes, middle) {
                ScannedText::Text(body, end) => Scanned::Frame(
                    Event::MessageReceived(sender, body),
                    end,
                ),
                ScannedText::NeedMore(missing) => Scanned::NeedMore(missing),
                ScannedText::InvalidUtf8 => Scanned::InvalidUtf8,
            },
            ScannedText::NeedMore(missing) => Scanned::NeedMore(missing),
            ScannedText::InvalidUtf8 => Scanned::InvalidUtf8,
        }
    } else {
        Scanned::UnknownTag(tag)
    }
}

/// What a successful call of [`EventCodec::decode`] gives.
#[derive(Debug, PartialEq, Eq)]
pub enum Decoded {
    /// One event, whose frame has been taken off the front of the buffer.
    Frame(Event),
    /// No whole frame is buffered yet. The buffer is as it was, and nothing
    /// else can come of it before at least this many more bytes arrive.
    NeedMore(u64),
}

/// Why a buffer can never be decoded, however many bytes follow.
#[derive(Debug, Clone, Copy, PartialEq, Eq)]
pub enum DecodeError {
    /// The first byte is none of the six tags.
    UnknownTag(u8),
    /// A text field is not UTF-8.
    InvalidUtf8,
}

/// Why an event was not written.
#[derive(Debug, Clone, Copy, PartialEq, Eq)]
pub enum EncodeError {
    /// With the frame the buffer would hold more than `isize::MAX` bytes.
    BufferFull,
}

/// The codec between [`Event`] values and their frames in a byte buffer.
#[derive(Debug, Clone, Copy, Default)]
pub struct EventCodec;

/// Appends the text field of `string` to `dst`.
fn put_string(dst: &mut BytesMut, string: &str)
    requires
        buffered(*old(dst)).len() + text_field(string@).len() <= isize::MAX,
    ensures
        buffered(*final(dst)) == buffered(*old(dst)) + text_field(string@),
{
    let buf = string.as_bytes();
    proof {
        lemma_text_field_len(string@);
    }
    buffer_put_u64(dst, buf.len() as u64);
    buffer_put_slice(dst, buf);
    assert(buffered(*dst) =~= buffered(*old(dst)) + text_field(string@));
}

/// The length of the text field of `string`, where a `usize` holds it.
fn text_field_len(string: &str) -> (len: Option<usize>)
    ensures
        len is Some <==> text_field(string@).len() <= usize::MAX,
        len matches Some(n) ==> n == text_field(string@).len(),
        encode_utf8(string@).len() <= usize::MAX,
{
    let held = string.as_bytes().len();
    proof {
        lemma_text_field_len(string@);
    }
    if held > usize::MAX - 8 {
        None
    } else {
        Some(held + 8)
    }
}

/// The length of the frame of `event`, where a `usize` holds it.
fn frame_len(event: &Event) -> (len: Option<usize>)
    ensures
        framable(event@),
        len is Some <==> frame(event@).len() <= usize::MAX,
        len matches Some(n) ==> n == frame(event@).len(),
{
    let fields = match event {
        Event::RequestJoin(text) | Event::Joined(text) | Event::Left(text) | Event::MessageSend(
            text,
        ) => text_field_len(text.as_str()),
        Event::Leave() => Some(0),
        Event::MessageReceived(sender, body) => match (
            text_field_len(sender.as_str()),
            text_field_len(body.as_str()),
        ) {
            (Some(first), Some(second)) => if first > usize::MAX - second {
                None
            } else {
                Some(first + second)
            },
            _ => None,
        },
    };
    match fields {
        Some(n) => if n > usize::MAX - 1 {
            None
        } else {
            Some(n + 1)
        },
        None => None,
    }
}

impl EventCodec {
    /// Appends the frame of `item` to `dst`, or leaves `dst` as it was where
    /// the frame would take it past `isize::MAX` bytes. Every event in memory
    /// can be framed, which the first clause records.
    pub fn encode(&mut self, item: Event, dst: &mut BytesMut) -> (result: Result<(), EncodeError>)
        ensures
            framable(item@),
            result is Ok <==> buffered(*old(dst)).len() + frame(item@).len() <= isize::MAX,
            result is Ok ==> buffered(*final(dst)) == buffered(*old(dst)) + frame(item@),
            result is Err ==> buffered(*final(dst)) == buffered(*old(dst)),
    {
        let held = buffer_len(dst);
        let limit = isize::MAX as usize;
        let fits = match frame_len(&item) {
            Some(needed) => held <= limit && needed <= limit - held,
            None => false,
        };
        if !fits {
            return Err(EncodeError::BufferFull);
        }
        buffer_put_u8(dst, item.discriminant());
        match &item {
            Event::RequestJoin(user) | Event::Joined(user) | Event::Left(user) => {
                put_string(dst, user.as_str());
            },
            Event::MessageSend(msg) => {
                put_string(dst, msg.as_str());
            },
            Event::Leave() => {},
            Event::MessageReceived(who, msg) => {
                put_string(dst, who.as_str());
                put_string(dst, msg.as_str());
            },
        }
        assert(buffered(*dst) =~= buffered(*old(dst)) + frame(item@));
        Ok(())
    }

    /// Takes one event off the front of `src` where a whole frame is there,
    /// and otherwise leaves `src` as it was and says why: more bytes are
    /// needed, or the bytes can never be a frame.
    pub fn decode(&mut self, src: &mut BytesMut) -> (result: Result<Decoded, DecodeError>)
        ensures
            parse(buffered(*old(src))) matches Parsed::Frame { event, used } ==> (result matches Ok(
                Decoded::Frame(decoded),
            ) && decoded@ == event && buffered(*final(src)) == buffered(*old(src)).skip(
                used as int,
            )),
            parse(buffered(*old(src))) matches Parsed::NeedMore { missing } ==> result == Ok::<
                Decoded,
                DecodeError,
            >(Decoded::NeedMore(missing as u64)),
            parse(buffered(*old(src))) matches Parsed::UnknownTag { tag } ==> result == Err::<
                Decoded,
                DecodeError,
            >(DecodeError::UnknownTag(tag)),
            parse(buffered(*old(src))) is InvalidUtf8 ==> result == Err::<Decoded, DecodeError>(
                DecodeError::InvalidUtf8,
            ),
            !(parse(buffered(*old(src))) is Frame) ==> buffered(*final(src)) == buffered(
                *old(src),
            ),
    {
        match scan_frame(buffer_bytes(src)) {
            Scanned::Frame(event, used) => {
                buffer_advance(src, used);
                Ok(Decoded::Frame(event))
            },
            Scanned::NeedMore(missing) => Ok(Decoded::NeedMore(missing)),
            Scanned::UnknownTag(tag) => Err(DecodeError::UnknownTag(tag)),
            Scanned::InvalidUtf8 => Err(DecodeError::InvalidUtf8),
        }
    }
}

} // verus!
