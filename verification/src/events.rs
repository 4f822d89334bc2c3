use vstd::prelude::*;

use crate::ids::{AccountId, Commitment};

verus! {

/// A notification of a completed ledger operation, for external observers.
pub enum Event {
    /// Funds were locked: remitter, commitment, amount.
    Deposit(AccountId, Commitment, u128),
    /// An escrow was claimed: commitment, recipient, amount.
    Transfer(Commitment, AccountId, u128),
    /// An escrow was reclaimed by its remitter: remitter, amount.
    Withdraw(AccountId, u128),
}

/// The mathematical shape of an event: the same three cases over plain byte
/// strings and amounts.
pub enum EventModel {
    Deposit { remitter: Seq<u8>, commitment: Seq<u8>, value: u128 },
    Transfer { commitment: Seq<u8>, recipient: Seq<u8>, value: u128 },
    Withdraw { remitter: Seq<u8>, value: u128 },
}

impl Event {
    pub open spec fn model(self) -> EventModel {
        match self {
            Event::Deposit(remitter, commitment, value) => EventModel::Deposit {
                remitter: remitter@,
                commitment: commitment@,
                value,
            },
            Event::Transfer(commitment, recipient, value) => EventModel::Transfer {
                commitment: commitment@,
                recipient: recipient@,
                value,
            },
            Event::Withdraw(remitter, value) => EventModel::Withdraw { remitter: remitter@, value },
        }
    }
}

/// Receives notifications of completed operations. Emission is observational,
/// never transactional: it cannot fail and never rolls a ledger mutation back.
pub struct EventSink {
    events: Vec<Event>,
}

impl View for EventSink {
    type V = Seq<EventModel>;

    closed spec fn view(&self) -> Seq<EventModel> {
        self.events@.map_values(|e: Event| e.model())
    }
}

impl EventSink {
    pub fn new() -> (r: EventSink)
        ensures
            r@ == Seq::<EventModel>::empty(),
    {
        let sink = EventSink { events: Vec::new() };
        proof {
            assert(sink@ =~= Seq::<EventModel>::empty());
        }
        sink
    }

    /// Appends one notification to the log.
    pub fn emit(&mut self, event: Event)
        ensures
            final(self)@ == old(self)@.push(event.model()),
    {
        let ghost pre = self.events@;
        self.events.push(event);
        proof {
            crate::kvmap::lemma_map_values_push(pre, |e: Event| e.model(), event);
        }
    }

    /// How many notifications have been received.
    pub fn len(&self) -> (r: usize)
        ensures
            r == self@.len(),
    {
        self.events.len()
    }

    /// The notification received at position `i`.
    pub fn event_at(&self, i: usize) -> (r: &Event)
        requires
            i < self@.len(),
        ensures
            r.model() == self@[i as int],
    {
        &self.events[i]
    }
}

} // verus!
