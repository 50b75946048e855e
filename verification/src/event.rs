//! The events exchanged between chat clients and the server.

use vstd::prelude::*;

verus! {

/// A tagged message exchanged between a client and the server.
#[derive(Debug, PartialEq, Eq)]
pub enum Event {
    /// Client to server, once at connection start: the display name to join with.
    RequestJoin(String),
    /// Server to clients: a participant with this name has joined.
    Joined(String),
    /// Client to server: the sender departs.
    Leave(),
    /// Server to clients: the participant with this name has left.
    Left(String),
    /// Client to server: one line of chat.
    MessageSend(String),
    /// Server to clients: the sender's name, then the line.
    MessageReceived(String, String),
}

/// The mathematical value of an [`Event`]: its variant, with each string as
/// its sequence of characters.
pub enum EventView {
    RequestJoin(Seq<char>),
    Joined(Seq<char>),
    Leave,
    Left(Seq<char>),
    MessageSend(Seq<char>),
    MessageReceived(Seq<char>, Seq<char>),
}

impl EventView {
    /// The tag byte that identifies the variant on the wire.
    pub open spec fn tag(self) -> u8 {
        match self {
            EventView::RequestJoin(_) => 0,
            EventView::Joined(_) => 1,
            EventView::Leave => 2,
            EventView::Left(_) => 3,
            EventView::MessageSend(_) => 4,
            EventView::MessageReceived(_, _) => 5,
        }
    }
}

impl View for Event {
    type V = EventView;

    open spec fn view(&self) -> EventView {
        match *self {
            Event::RequestJoin(name) => EventView::RequestJoin(name@),
            Event::Joined(name) => EventView::Joined(name@),
            Event::Leave() => EventView::Leave,
            Event::Left(name) => EventView::Left(name@),
            Event::MessageSend(body) => EventView::MessageSend(body@),
            Event::MessageReceived(sender, body) => EventView::MessageReceived(sender@, body@),
        }
    }
}

impl Clone for Event {
    /// A copy of the event, equal to it.
    fn clone(&self) -> (copy: Self)
        ensures
            copy == *self,
    {
        match self {
            Event::RequestJoin(name) => Event::RequestJoin(name.clone()),
            Event::Joined(name) => Event::Joined(name.clone()),
            Event::Leave() => Event::Leave(),
            Event::Left(name) => Event::Left(name.clone()),
            Event::MessageSend(body) => Event::MessageSend(body.clone()),
            Event::MessageReceived(sender, body) => Event::MessageReceived(
                sender.clone(),
                body.clone(),
            ),
        }
    }
}

impl Event {
    /// The tag byte that identifies this event's variant on the wire.
    pub fn discriminant(&self) -> (tag: u8)
        ensures
            tag == self@.tag(),
    {
        match self {
            Event::RequestJoin(_) => 0,
            Event::Joined(_) => 1,
            Event::Leave() => 2,
            Event::Left(_) => 3,
            Event::MessageSend(_) => 4,
            Event::MessageReceived(_, _) => 5,
        }
    }
}

} // verus!
