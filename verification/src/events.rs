//! Subscriptions of handlers to kinds of events, and the order in which an event reaches them.

use std::collections::HashMap;
use vstd::prelude::*;

verus! {

/// Something that happened. Events of one kind reach the same handlers.
///
/// An implementation outside this crate cannot say what its kind is in specifications, and
/// inherits `spec_kind` as it stands here: of such an implementation the clause of `kind` is
/// taken on trust.
pub trait Event {
    /// The kind of this event.
    open spec fn spec_kind(&self) -> u64 {
        arbitrary()
    }

    fn kind(&self) -> (k: u64)
        ensures
            k == self.spec_kind(),
    ;
}

/// The handlers subscribed to each kind of event, and those subscribed to every kind.
///
/// The manager decides which handlers an event reaches and in which order; running them is left
/// to the caller.
pub struct EventsManager<H> {
    per_type: HashMap<u64, Vec<H>>,
    catch_all: Vec<H>,
}

/// The list that `table` holds for `kind`, empty where it holds none.
pub open spec fn listed<H>(table: Map<u64, Vec<H>>, kind: u64) -> Seq<H> {
    if table.contains_key(kind) {
        table[kind]@
    } else {
        Seq::empty()
    }
}

impl<H> EventsManager<H> {
    /// The handlers subscribed to `kind`, in the order of subscription.
    pub closed spec fn subscribers(&self, kind: u64) -> Seq<H> {
        listed(self.per_type@, kind)
    }

    /// The handlers subscribed to every kind, in the order of subscription.
    pub closed spec fn catch_all(&self) -> Seq<H> {
        self.catch_all@
    }

    /// The handlers that an event of `kind` reaches: first those subscribed to the kind, then
    /// those subscribed to every kind.
    pub open spec fn dispatch(&self, kind: u64) -> Seq<H> {
        self.subscribers(kind) + self.catch_all()
    }

    pub fn new(per_type: HashMap<u64, Vec<H>>, catch_all: Vec<H>) -> (manager: Self)
        ensures
            forall|kind: u64| #[trigger] manager.subscribers(kind) == listed(per_type@, kind),
            manager.catch_all() == catch_all@,
    {
        Self { per_type, catch_all }
    }

    /// Subscribes `handler` to events of `kind`, behind the handlers already subscribed to it.
    pub fn on(&mut self, kind: u64, handler: H)
        ensures
            final(self).subscribers(kind) == old(self).subscribers(kind).push(handler),
            forall|other: u64|
                other != kind ==> #[trigger] final(self).subscribers(other) == old(
                    self,
                ).subscribers(other),
            final(self).catch_all() == old(self).catch_all(),
    {
        let mut list = match self.per_type.remove(&kind) {
            Some(list) => list,
            None => Vec::new(),
        };
        list.push(handler);
        self.per_type.insert(kind, list);
    }

    /// Subscribes `handler` to every event, behind the handlers already subscribed so.
    pub fn on_any(&mut self, handler: H)
        ensures
            final(self).catch_all() == old(self).catch_all().push(handler),
            forall|kind: u64| #[trigger] final(self).subscribers(kind) == old(self).subscribers(kind),
    {
        self.catch_all.push(handler);
    }

    /// The handlers that an event of `kind` reaches, in the order in which it reaches them.
    pub fn handlers_for(&self, kind: u64) -> (selected: Vec<&H>)
        ensures
            selected@.len() == self.dispatch(kind).len(),
            forall|i: int| 0 <= i < selected@.len() ==> *(#[trigger] selected@[i]) == self.dispatch(kind)[i],
    {
        let mut selected: Vec<&H> = Vec::new();
        match self.per_type.get(&kind) {
            Some(list) => {
                let mut i: usize = 0;
                while i < list.len()
                    invariant
                        i <= list@.len(),
                        list@ == self.subscribers(kind),
                        selected@.len() == i,
                        forall|k: int| 0 <= k < i ==> *(#[trigger] selected@[k]) == list@[k],
                    decreases list@.len() - i,
                {
                    selected.push(&list[i]);
                    i += 1;
                }
            },
            None => {},
        }
        let ghost first = self.subscribers(kind);
        let mut j: usize = 0;
        while j < self.catch_all.len()
            invariant
                j <= self.catch_all@.len(),
                first == self.subscribers(kind),
                selected@.len() == first.len() + j,
                forall|k: int| 0 <= k < first.len() ==> *(#[trigger] selected@[k]) == first[k],
                forall|k: int| 0 <= k < j ==> *(#[trigger] selected@[first.len() + k]) == self.catch_all@[k],
            decreases self.catch_all@.len() - j,
        {
            selected.push(&self.catch_all[j]);
            j += 1;
        }
        assert forall|i: int| 0 <= i < selected@.len() implies *(#[trigger] selected@[i])
            == self.dispatch(kind)[i] by {
            if i >= first.len() {
                assert(selected@[i] == selected@[first.len() + (i - first.len())]);
            }
        }
        selected
    }

    /// The handlers that `event` reaches, in the order in which it reaches them: first those
    /// subscribed to its kind, then those subscribed to every kind.
    pub fn emit<E: Event + ?Sized>(&self, event: &E) -> (selected: Vec<&H>)
        ensures
            selected@.len() == self.dispatch(event.spec_kind()).len(),
            forall|i: int|
                0 <= i < selected@.len() ==> *(#[trigger] selected@[i]) == self.dispatch(
                    event.spec_kind(),
                )[i],
    {
        self.handlers_for(event.kind())
    }
}

} // verus!
