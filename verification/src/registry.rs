//! The session registry: who is connected, under which id and name, and how
//! to reach them.
//!
//! Ids are given out in ascending order starting at 1 and never twice. Each
//! user's outbound path is a bounded queue: an event offered to a full queue
//! is dropped for that user alone, and the caller is told, so that it can
//! close a consumer that does not keep up.

use crate::event::Event;
use crate::keys::{ascending_keys, lists_ascending};
use crate::trusted::{event_channel, sender_try_send};
use std::collections::BTreeMap;
use tokio::sync::mpsc::{Receiver, Sender};
use vstd::prelude::*;

verus! {

/// How many events a user's outbound queue holds.
pub const OUTBOUND_CAPACITY: usize = 100;

/// The name shown for a user who has not joined under a name yet.
pub open spec fn unknown_name() -> Seq<char> {
    "unknown"@
}

/// The value of an optional name.
pub open spec fn name_view(name: Option<String>) -> Option<Seq<char>> {
    match name {
        Some(text) => Some(text@),
        None => None,
    }
}

/// What became of an event that was offered to a bounded queue.
#[derive(Debug, Clone, Copy, PartialEq, Eq)]
pub enum Enqueued {
    /// It is in the queue.
    Queued,
    /// The queue was full; the event is dropped.
    Full,
    /// The receiving end is gone; the event is dropped.
    Closed,
}

/// One connected user: the display name, once it is set, and the sending end
/// of the user's outbound queue.
pub struct User {
    name: Option<String>,
    sender: Sender<Event>,
}

impl View for User {
    type V = Option<Seq<char>>;

    /// The user's name, if it is set.
    closed spec fn view(&self) -> Option<Seq<char>> {
        name_view(self.name)
    }
}

/// The value of a [`State`]: the last id given out, and the name of each
/// connected user by id.
pub struct StateView {
    pub counter: nat,
    pub names: Map<u64, Option<Seq<char>>>,
}

impl StateView {
    /// No id beyond the last one given out is in use, nor is 0.
    pub open spec fn wf(self) -> bool {
        forall|id: u64| self.names.contains_key(id) ==> 1 <= id <= self.counter
    }

    /// The registry with nobody in it and no id given out.
    pub open spec fn empty() -> StateView {
        StateView { counter: 0, names: Map::empty() }
    }

    /// The id that the next user gets.
    pub open spec fn next_id(self) -> nat {
        self.counter + 1
    }

    /// The registry after one more user has connected, not yet named.
    pub open spec fn add(self) -> StateView {
        StateView { counter: self.next_id(), names: self.names.insert(self.next_id() as u64, None) }
    }

    /// The registry after user `id` has taken the name `name`.
    pub open spec fn rename(self, id: u64, name: Seq<char>) -> StateView {
        StateView { counter: self.counter, names: self.names.insert(id, Some(name)) }
    }

    /// The registry after user `id` has gone.
    pub open spec fn remove(self, id: u64) -> StateView {
        StateView { counter: self.counter, names: self.names.remove(id) }
    }

    /// The name to show for user `id`.
    pub open spec fn name_of(self, id: u64) -> Seq<char> {
        match self.names[id] {
            Some(name) => name,
            None => unknown_name(),
        }
    }
}

/// The registry of connected users.
pub struct State {
    counter: u64,
    users: BTreeMap<u64, User>,
}

impl View for State {
    type V = StateView;

    closed spec fn view(&self) -> StateView {
        StateView { counter: self.counter as nat, names: self.users@.map_values(|user: User| user@) }
    }
}

impl State {
    #[verifier::type_invariant]
    spec fn inv(&self) -> bool {
        forall|id: u64| self.users@.contains_key(id) ==> 1 <= id <= self.counter
    }

    /// Moves the users out, to be changed and put back, and leaves none.
    fn take_users(&mut self) -> (users: BTreeMap<u64, User>)
        ensures
            users == old(self).users,
            final(self).counter == old(self).counter,
            final(self).users@ == Map::<u64, User>::empty(),
    {
        let mut users = BTreeMap::new();
        core::mem::swap(&mut users, &mut self.users);
        users
    }

    /// The registry with nobody in it.
    pub fn new() -> (state: State)
        ensures
            state@ == StateView::empty(),
    {
        let state = State { counter: 0, users: BTreeMap::new() };
        assert(state@.names =~= Map::empty());
        state
    }

    /// The last id given out, 0 before the first.
    pub fn issued(&self) -> (counter: u64)
        ensures
            counter == self@.counter,
    {
        self.counter
    }

    /// Tells the caller's proof that the registry is well formed, as every
    /// registry is. It does nothing when run.
    pub fn well_formed(&self)
        ensures
            self@.wf(),
    {
        proof {
            use_type_invariant(self);
        }
    }

    /// Whether user `id` is connected.
    pub fn contains(&self, id: u64) -> (present: bool)
        ensures
            present == self@.names.contains_key(id),
    {
        self.users.contains_key(&id)
    }

    /// Registers one more user, unnamed, under the next id. Gives the id and
    /// the receiving end of the user's outbound queue.
    pub fn add_user(&mut self) -> (added: (u64, Receiver<Event>))
        requires
            old(self)@.counter < u64::MAX,
        ensures
            added.0 == old(self)@.next_id(),
            !old(self)@.names.contains_key(added.0),
            final(self)@ == old(self)@.add(),
            final(self)@.wf(),
    {
        proof {
            use_type_invariant(&*self);
        }
        let (sender, receiver) = event_channel(OUTBOUND_CAPACITY);
        let id = self.counter + 1;
        let mut users = self.take_users();
        users.insert(id, User { name: None, sender });
        self.counter = id;
        self.users = users;
        assert(self@.names =~= old(self)@.add().names);
        (id, receiver)
    }

    /// The name that user `id` has set, if any.
    pub fn get_name(&self, id: u64) -> (name: Option<String>)
        requires
            self@.names.contains_key(id),
        ensures
            name_view(name) == self@.names[id],
    {
        match self.users.get(&id) {
            Some(user) => match &user.name {
                Some(name) => Some(name.clone()),
                None => None,
            },
            None => None,
        }
    }

    /// The name to show for user `id`: the one set, or "unknown".
    pub fn name_of(&self, id: u64) -> (name: String)
        requires
            self@.names.contains_key(id),
        ensures
            name@ == self@.name_of(id),
    {
        match self.get_name(id) {
            Some(name) => name,
            None => "unknown".to_owned(),
        }
    }

    /// Sets the name of user `id`.
    pub fn update_user(&mut self, id: u64, name: String)
        requires
            old(self)@.names.contains_key(id),
        ensures
            final(self)@ == old(self)@.rename(id, name@),
            final(self)@.wf(),
    {
        proof {
            use_type_invariant(&*self);
        }
        let mut users = self.take_users();
        match users.remove(&id) {
            Some(user) => {
                users.insert(id, User { name: Some(name), sender: user.sender });
            },
            None => {},
        }
        self.users = users;
        assert(self@.names =~= old(self)@.rename(id, name@).names);
    }

    /// Takes user `id` out of the registry and gives the name to show for
    /// the one who left.
    pub fn remove_user(&mut self, id: u64) -> (name: String)
        requires
            old(self)@.names.contains_key(id),
        ensures
            name@ == old(self)@.name_of(id),
            final(self)@ == old(self)@.remove(id),
            final(self)@.wf(),
    {
        proof {
            use_type_invariant(&*self);
        }
        let name = self.name_of(id);
        let mut users = self.take_users();
        users.remove(&id);
        self.users = users;
        assert(self@.names =~= old(self)@.remove(id).names);
        name
    }

    /// The ids of the users connected now, in ascending order.
    pub fn user_ids(&self) -> (ids: Vec<u64>)
        ensures
            lists_ascending(ids@, self@.names.dom()),
    {
        let ids = ascending_keys(&self.users);
        assert(self@.names.dom() =~= self.users@.dom());
        ids
    }

    /// Offers `evt` to the outbound queue of user `id`. Where the user is
    /// gone nothing happens, and `None` says so.
    pub fn send_event(&self, id: u64, evt: Event) -> (outcome: Option<Enqueued>)
        ensures
            outcome is Some <==> self@.names.contains_key(id),
    {
        match self.users.get(&id) {
            Some(user) => Some(sender_try_send(&user.sender, evt)),
            None => None,
        }
    }
}

/// One change to the registry.
pub enum Op {
    /// A user connects.
    Add,
    /// User `id` takes a name.
    Rename(u64, Seq<char>),
    /// User `id` goes.
    Remove(u64),
}

impl StateView {
    /// Whether `op` can be applied: an id is left to give out, or the user
    /// it names is connected.
    pub open spec fn allows(self, op: Op) -> bool {
        match op {
            Op::Add => self.counter < u64::MAX,
            Op::Rename(id, _) => self.names.contains_key(id),
            Op::Remove(id) => self.names.contains_key(id),
        }
    }

    /// The registry after `op`, which leaves it as it is where it cannot be
    /// applied.
    pub open spec fn apply(self, op: Op) -> StateView {
        if !self.allows(op) {
            self
        } else {
            match op {
                Op::Add => self.add(),
                Op::Rename(id, name) => self.rename(id, name),
                Op::Remove(id) => self.remove(id),
            }
        }
    }

    /// The registry after the changes `ops`, first to last.
    pub open spec fn run(self, ops: Seq<Op>) -> StateView
        decreases ops.len(),
    {
        if ops.len() == 0 {
            self
        } else {
            self.run(ops.drop_last()).apply(ops.last())
        }
    }
}

/// Whatever changes are made, in whatever order, the registry stays well
/// formed and the last id given out never goes back.
pub proof fn lemma_run_keeps_wf(state: StateView, ops: Seq<Op>)
    requires
        state.wf(),
    ensures
        state.run(ops).wf(),
        state.run(ops).counter >= state.counter,
    decreases ops.len(),
{
    if ops.len() > 0 {
        lemma_run_keeps_wf(state, ops.drop_last());
    }
}

/// An id that has been given out and is no longer in use is never in use
/// again: a user who was removed stays out of every later listing.
pub proof fn lemma_id_never_reused(state: StateView, id: u64, ops: Seq<Op>)
    requires
        state.wf(),
        id <= state.counter,
        !state.names.contains_key(id),
    ensures
        !state.run(ops).names.contains_key(id),
    decreases ops.len(),
{
    if ops.len() > 0 {
        lemma_id_never_reused(state, id, ops.drop_last());
        lemma_run_keeps_wf(state, ops.drop_last());
    }
}

/// Two users who connect at different times get different ids: the later
/// one's is the greater, whatever happened in between.
pub proof fn lemma_ids_distinct(state: StateView, between: Seq<Op>)
    requires
        state.wf(),
        state.allows(Op::Add),
    ensures
        state.add().run(between).next_id() > state.next_id(),
{
    lemma_run_keeps_wf(state.add(), between);
}

} // verus!
