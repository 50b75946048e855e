//! What the server does with what arrives on one connection.
//!
//! Every arrival changes the registry in one step and makes one
//! announcement, which goes to every user connected after that step, the one
//! it came from included while that one stays.

use crate::event::{Event, EventView};
use crate::keys::lists_ascending;
use crate::registry::{Enqueued, Op, State, StateView};
use vstd::prelude::*;

verus! {

/// What arrived on a connection.
#[derive(Debug, PartialEq, Eq)]
pub enum Inbound {
    /// One decoded event.
    Event(Event),
    /// The end of the connection: the transport closed, its bytes could not
    /// be decoded, or a write to it failed.
    Closed,
}

/// The value of an [`Inbound`].
pub enum InboundView {
    Event(EventView),
    Closed,
}

impl View for Inbound {
    type V = InboundView;

    open spec fn view(&self) -> InboundView {
        match *self {
            Inbound::Event(event) => InboundView::Event(event@),
            Inbound::Closed => InboundView::Closed,
        }
    }
}

/// Whether a connection's handler goes on after an arrival.
#[derive(Debug, Clone, Copy, PartialEq, Eq, Structural)]
pub enum Flow {
    /// It goes on reading.
    Continue,
    /// It ends, and its connection is closed.
    Stop,
}

/// What an arrival leads to: the announcement to make, and whether the
/// handler goes on.
#[derive(Debug, PartialEq, Eq)]
pub struct Step {
    pub announce: Event,
    pub flow: Flow,
}

/// The value of a [`Step`].
pub struct StepView {
    pub announce: EventView,
    pub flow: Flow,
}

impl View for Step {
    type V = StepView;

    open spec fn view(&self) -> StepView {
        StepView { announce: self.announce@, flow: self.flow }
    }
}

/// The rules. From user `id`:
/// a join request sets the name and announces the one who joined;
/// a chat line is announced under the sender's name;
/// anything else is the end of that user: a leave, an event that only the
/// server may send, or the end of the connection. The user is taken out and
/// the leaving is announced.
pub open spec fn reaction(state: StateView, id: u64, input: InboundView) -> (StateView, StepView) {
    match input {
        InboundView::Event(EventView::RequestJoin(name)) => (
            state.rename(id, name),
            StepView { announce: EventView::Joined(name), flow: Flow::Continue },
        ),
        InboundView::Event(EventView::MessageSend(body)) => (
            state,
            StepView {
                announce: EventView::MessageReceived(state.name_of(id), body),
                flow: Flow::Continue,
            },
        ),
        _ => (
            state.remove(id),
            StepView { announce: EventView::Left(state.name_of(id)), flow: Flow::Stop },
        ),
    }
}

/// The change that an arrival from user `id` makes to the registry, if it
/// makes one.
pub open spec fn change(id: u64, input: InboundView) -> Option<Op> {
    match input {
        InboundView::Event(EventView::RequestJoin(name)) => Some(Op::Rename(id, name)),
        InboundView::Event(EventView::MessageSend(_)) => None,
        _ => Some(Op::Remove(id)),
    }
}

/// An arrival changes the registry by at most one of the registry's own
/// changes, so that what holds of every run of those holds of every run of
/// arrivals: ids are never given out twice, and a user who is out stays out.
pub proof fn lemma_reaction_is_a_change(state: StateView, id: u64, input: InboundView)
    requires
        state.names.contains_key(id),
    ensures
        reaction(state, id, input).0 == (match change(id, input) {
            Some(op) => state.apply(op),
            None => state,
        }),
{
}

/// What became of one announcement: for each user it was offered to, in
/// ascending order of id, what became of the offer.
pub open spec fn reports_on(report: Seq<(u64, Enqueued)>, state: StateView) -> bool {
    lists_ascending(report.map_values(|entry: (u64, Enqueued)| entry.0), state.names.dom())
}

/// What [`State::dispatch`] did: the step it took, and what became of the
/// step's announcement.
#[derive(Debug)]
pub struct Dispatched {
    pub step: Step,
    pub report: Vec<(u64, Enqueued)>,
}

impl State {
    /// Applies what arrived from user `id` to the registry and gives the
    /// announcement to make.
    pub fn react(&mut self, id: u64, input: Inbound) -> (step: Step)
        requires
            old(self)@.names.contains_key(id),
        ensures
            (final(self)@, step@) == reaction(old(self)@, id, input@),
            final(self)@.wf(),
    {
        match input {
            Inbound::Event(Event::RequestJoin(name)) => {
                let announce = Event::Joined(name.clone());
                self.update_user(id, name);
                Step { announce, flow: Flow::Continue }
            },
            Inbound::Event(Event::MessageSend(body)) => {
                let who = self.name_of(id);
                self.well_formed();
                Step { announce: Event::MessageReceived(who, body), flow: Flow::Continue }
            },
            _ => {
                let name = self.remove_user(id);
                Step { announce: Event::Left(name), flow: Flow::Stop }
            },
        }
    }

    /// Offers `event` to every connected user, in ascending order of id.
    pub fn broadcast(&self, event: &Event) -> (report: Vec<(u64, Enqueued)>)
        ensures
            reports_on(report@, self@),
    {
        let ids = self.user_ids();
        let mut report: Vec<(u64, Enqueued)> = Vec::new();
        let mut at: usize = 0;
        while at < ids.len()
            invariant
                at <= ids.len(),
                lists_ascending(ids@, self@.names.dom()),
                report@.len() == at,
                forall|k: int| 0 <= k < at ==> report@[k].0 == ids@[k],
            decreases ids.len() - at,
        {
            let id = ids[at];
            assert(ids@.contains(id));
            match self.send_event(id, event.clone()) {
                Some(outcome) => {
                    report.push((id, outcome));
                },
                None => {},
            }
            at += 1;
        }
        assert(report@.map_values(|entry: (u64, Enqueued)| entry.0) =~= ids@);
        report
    }

    /// Handles what arrived from user `id`: applies it to the registry, then
    /// offers the announcement to everyone connected.
    pub fn dispatch(&mut self, id: u64, input: Inbound) -> (done: Dispatched)
        requires
            old(self)@.names.contains_key(id),
        ensures
            (final(self)@, done.step@) == reaction(old(self)@, id, input@),
            reports_on(done.report@, final(self)@),
            final(self)@.wf(),
    {
        let step = self.react(id, input);
        let report = self.broadcast(&step.announce);
        Dispatched { step, report }
    }
}

/// A user who joins under a name and then sends a line has the line
/// announced under that name, whoever else came, went or spoke in between.
pub proof fn lemma_line_goes_out_under_joined_name(
    state: StateView,
    id: u64,
    name: Seq<char>,
    body: Seq<char>,
)
    ensures
        ({
            let joined = reaction(state, id, InboundView::Event(EventView::RequestJoin(name))).0;
            reaction(joined, id, InboundView::Event(EventView::MessageSend(body))).1.announce
                == EventView::MessageReceived(name, body)
        }),
{
}

/// A handler ends exactly when its user is taken out of the registry: from
/// then on no announcement is offered to that user, and while the handler
/// goes on its user stays in.
pub proof fn lemma_stop_removes_user(state: StateView, id: u64, input: InboundView)
    requires
        state.names.contains_key(id),
    ensures
        reaction(state, id, input).1.flow == Flow::Stop <==> !reaction(
            state,
            id,
            input,
        ).0.names.contains_key(id),
        reaction(state, id, input).1.flow == Flow::Stop ==> reaction(state, id, input).1.announce
            == EventView::Left(state.name_of(id)),
{
}

} // verus!
