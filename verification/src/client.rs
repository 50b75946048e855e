//! The client's side: what it sends for what its user does, and what it shows
//! for what the server announces.

use crate::event::{Event, EventView};
use vstd::prelude::*;
use vstd::string::StringExecFns;

verus! {

/// Something that happens at a client.
#[derive(Debug, PartialEq, Eq)]
pub enum Occurrence {
    /// The connection to the server stands; the user chose this name.
    Connected(String),
    /// The user typed a line.
    Typed(String),
    /// The user's input has ended.
    InputEnded,
    /// The server sent an event.
    Heard(Event),
    /// The connection is lost, or what came over it could not be decoded.
    Lost,
}

/// The value of an [`Occurrence`].
pub enum OccurrenceView {
    Connected(Seq<char>),
    Typed(Seq<char>),
    InputEnded,
    Heard(EventView),
    Lost,
}

impl View for Occurrence {
    type V = OccurrenceView;

    open spec fn view(&self) -> OccurrenceView {
        match *self {
            Occurrence::Connected(name) => OccurrenceView::Connected(name@),
            Occurrence::Typed(line) => OccurrenceView::Typed(line@),
            Occurrence::InputEnded => OccurrenceView::InputEnded,
            Occurrence::Heard(event) => OccurrenceView::Heard(event@),
            Occurrence::Lost => OccurrenceView::Lost,
        }
    }
}

/// Why a client gives up.
#[derive(Debug, Clone, Copy, PartialEq, Eq, Structural)]
pub enum Fault {
    /// The connection is lost.
    ConnectionLost,
    /// The server sent an event that only a client sends.
    UnexpectedEvent,
}

/// What a client does about an occurrence.
#[derive(Debug, PartialEq, Eq)]
pub enum Action {
    /// Send the event and go on.
    Send(Event),
    /// Send the event and end.
    SendAndQuit(Event),
    /// Show the line to the user and go on.
    Show(String),
    /// End with an error.
    Fail(Fault),
}

/// The value of an [`Action`].
pub enum ActionView {
    Send(EventView),
    SendAndQuit(EventView),
    Show(Seq<char>),
    Fail(Fault),
}

impl View for Action {
    type V = ActionView;

    open spec fn view(&self) -> ActionView {
        match *self {
            Action::Send(event) => ActionView::Send(event@),
            Action::SendAndQuit(event) => ActionView::SendAndQuit(event@),
            Action::Show(line) => ActionView::Show(line@),
            Action::Fail(fault) => ActionView::Fail(fault),
        }
    }
}

/// The line shown for an announcement, if `event` is one.
pub open spec fn shown(event: EventView) -> Option<Seq<char>> {
    match event {
        EventView::Joined(who) => Some("JOINED:> "@ + who),
        EventView::Left(who) => Some("LEFT:> "@ + who),
        EventView::MessageReceived(who, line) => Some(who + ":> "@ + line),
        _ => None,
    }
}

/// The client's rules. It asks to join as soon as it is connected, sends
/// each line typed, takes its leave when its user's input ends, shows what
/// the server announces, and gives up on anything else.
pub open spec fn response(occurrence: OccurrenceView) -> ActionView {
    match occurrence {
        OccurrenceView::Connected(name) => ActionView::Send(EventView::RequestJoin(name)),
        OccurrenceView::Typed(line) => ActionView::Send(EventView::MessageSend(line)),
        OccurrenceView::InputEnded => ActionView::SendAndQuit(EventView::Leave),
        OccurrenceView::Heard(event) => match shown(event) {
            Some(line) => ActionView::Show(line),
            None => ActionView::Fail(Fault::UnexpectedEvent),
        },
        OccurrenceView::Lost => ActionView::Fail(Fault::ConnectionLost),
    }
}

/// The line shown for an announcement, if `event` is one.
pub fn show(event: &Event) -> (line: Option<String>)
    ensures
        line matches Some(text) ==> shown(event@) == Some(text@),
        line is None ==> shown(event@) is None,
{
    match event {
        Event::Joined(who) => Some(String::from_str("JOINED:> ").concat(who.as_str())),
        Event::Left(who) => Some(String::from_str("LEFT:> ").concat(who.as_str())),
        Event::MessageReceived(who, line) => Some(
            who.clone().concat(":> ").concat(line.as_str()),
        ),
        _ => None,
    }
}

/// What the client does about `occurrence`.
pub fn respond(occurrence: Occurrence) -> (action: Action)
    ensures
        action@ == response(occurrence@),
{
    match occurrence {
        Occurrence::Connected(name) => Action::Send(Event::RequestJoin(name)),
        Occurrence::Typed(line) => Action::Send(Event::MessageSend(line)),
        Occurrence::InputEnded => Action::SendAndQuit(Event::Leave()),
        Occurrence::Heard(event) => match show(&event) {
            Some(line) => Action::Show(line),
            None => Action::Fail(Fault::UnexpectedEvent),
        },
        Occurrence::Lost => Action::Fail(Fault::ConnectionLost),
    }
}

} // verus!
