//! What this library takes on trust: the byte buffer of the `bytes` crate,
//! the bounded queue of `tokio`, and one conversion of the standard library.
//! Nothing here is proved; each contract restates what the called function
//! documents.

use crate::event::Event;
use crate::registry::Enqueued;
use crate::wire::{be_bytes, be_u64};
use bytes::{Buf, BufMut, BytesMut};
use tokio::sync::mpsc::error::TrySendError;
use tokio::sync::mpsc::{Receiver, Sender};
use vstd::prelude::*;
use vstd::utf8::*;

verus! {

/// `bytes::BytesMut`, a growable byte buffer. Nothing of its inside is
/// visible here; [`buffered`] stands for what it holds.
#[verifier::external_type_specification]
#[verifier::external_body]
pub struct ExBytesMut(BytesMut);

/// The bytes that a buffer holds, front first.
pub uninterp spec fn buffered(buffer: BytesMut) -> Seq<u8>;

/// `BytesMut::len`: the number of bytes held.
#[verifier::external_body]
pub(crate) fn buffer_len(buffer: &BytesMut) -> (len: usize)
    ensures
        len == buffered(*buffer).len(),
{
    buffer.len()
}

/// `AsRef<[u8]>` of `BytesMut`: the held bytes as one slice, the buffer
/// untouched.
#[verifier::external_body]
pub(crate) fn buffer_bytes(buffer: &BytesMut) -> (bytes: &[u8])
    ensures
        bytes@ == buffered(*buffer),
{
    buffer.as_ref()
}

/// `Buf::advance` of `BytesMut`: drops `count` bytes from the front and keeps
/// the rest. It panics when asked for more than is held, which `requires`
/// leaves out.
#[verifier::external_body]
pub(crate) fn buffer_advance(buffer: &mut BytesMut, count: usize)
    requires
        count <= buffered(*old(buffer)).len(),
    ensures
        buffered(*final(buffer)) == buffered(*old(buffer)).skip(count as int),
{
    buffer.advance(count)
}

/// `BufMut::put_u8` of `BytesMut`: appends the byte. A `BytesMut` grows as
/// needed and counts `isize::MAX` less its length as the room that is left.
#[verifier::external_body]
pub(crate) fn buffer_put_u8(buffer: &mut BytesMut, byte: u8)
    requires
        buffered(*old(buffer)).len() + 1 <= isize::MAX,
    ensures
        buffered(*final(buffer)) == buffered(*old(buffer)).push(byte),
{
    buffer.put_u8(byte)
}

/// `BufMut::put_u64` of `BytesMut`: appends the eight bytes of `n` in
/// big-endian order.
#[verifier::external_body]
pub(crate) fn buffer_put_u64(buffer: &mut BytesMut, n: u64)
    requires
        buffered(*old(buffer)).len() + 8 <= isize::MAX,
    ensures
        buffered(*final(buffer)) == buffered(*old(buffer)) + be_bytes(n),
{
    buffer.put_u64(n)
}

/// `BufMut::put_slice` of `BytesMut`: appends the bytes of the slice.
#[verifier::external_body]
pub(crate) fn buffer_put_slice(buffer: &mut BytesMut, bytes: &[u8])
    requires
        buffered(*old(buffer)).len() + bytes@.len() <= isize::MAX,
    ensures
        buffered(*final(buffer)) == buffered(*old(buffer)) + bytes@,
{
    buffer.put_slice(bytes)
}

/// `Buf::get_u64` of `&[u8]`: the big-endian number in the first eight bytes
/// of the slice. It panics on a shorter slice, which `requires` leaves out.
#[verifier::external_body]
pub(crate) fn slice_get_u64(bytes: &[u8]) -> (n: u64)
    requires
        bytes@.len() >= 8,
    ensures
        n == be_u64(bytes@),
{
    let mut cursor = bytes;
    cursor.get_u64()
}

/// `String::from_utf8`: succeeds exactly on valid UTF-8, and the string it
/// gives is made of the very bytes it was given.
#[verifier::external_body]
pub(crate) fn string_from_utf8(bytes: Vec<u8>) -> (text: Option<String>)
    ensures
        text is Some <==> valid_utf8(bytes@),
        text matches Some(s) ==> encode_utf8(s@) == bytes@,
{
    match String::from_utf8(bytes) {
        Ok(s) => Some(s),
        Err(_) => None,
    }
}

/// `tokio::sync::mpsc::Sender`, the sending end of a bounded queue. It is
/// carried and called, and nothing is known of what its queue holds.
#[verifier::external_type_specification]
#[verifier::external_body]
#[verifier::reject_recursive_types(T)]
pub struct ExSender<T>(Sender<T>);

/// `tokio::sync::mpsc::Receiver`, the receiving end of a bounded queue. It is
/// only handed on to the caller.
#[verifier::external_type_specification]
#[verifier::external_body]
#[verifier::reject_recursive_types(T)]
pub struct ExReceiver<T>(Receiver<T>);

/// `tokio::sync::mpsc::channel`: the two ends of a new queue that holds up to
/// `capacity` events. It panics on a capacity of zero or of more than an
/// eighth of `usize::MAX`, which `requires` leaves out.
#[verifier::external_body]
pub(crate) fn event_channel(capacity: usize) -> (ends: (Sender<Event>, Receiver<Event>))
    requires
        0 < capacity <= usize::MAX / 8,
{
    tokio::sync::mpsc::channel(capacity)
}

/// `Sender::try_send`: offers the event to the queue without waiting. What
/// comes back depends on what the queue holds and on its receiving end at
/// that moment, so nothing is promised of it.
#[verifier::external_body]
pub(crate) fn sender_try_send(sender: &Sender<Event>, event: Event) -> (outcome: Enqueued) {
    match sender.try_send(event) {
        Ok(()) => Enqueued::Queued,
        Err(TrySendError::Full(_)) => Enqueued::Full,
        Err(TrySendError::Closed(_)) => Enqueued::Closed,
    }
}

} // verus!
