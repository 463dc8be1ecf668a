//! One frontend connection of the daemon: send a state at once, then one after every
//! event, counting control-center toggles, until the event channel closes.
use vstd::prelude::*;
use crate::ipc::Event;

verus! {

/// What the connection loop has just obtained.
pub enum Input {
    /// The connection has just been accepted; no event is awaited yet.
    Start,
    /// An event arrived.
    Received(Event),
    /// The event channel closed.
    Closed,
}

/// The state of one connection.
pub struct Session {
    /// No state has been sent yet.
    pub first_run: bool,
    /// The control-center signal: the number of toggles so far, modulo 256.
    pub cc_counter: u8,
}

/// The counter after event `e`: one more, wrapping at 256, for a toggle; unchanged otherwise.
pub open spec fn counter_after_event(counter: u8, e: Event) -> u8 {
    match e {
        Event::ToggleControlCenter => ((counter as int + 1) % 256) as u8,
        Event::RefreshData => counter,
    }
}

/// The counter after the events `es`, in order.
pub open spec fn counter_after(counter: u8, es: Seq<Event>) -> u8
    decreases es.len(),
{
    if es.len() == 0 {
        counter
    } else {
        counter_after_event(counter_after(counter, es.drop_last()), es.last())
    }
}

/// The number of control-center toggles among `es`.
pub open spec fn toggles(es: Seq<Event>) -> nat
    decreases es.len(),
{
    if es.len() == 0 {
        0
    } else {
        toggles(es.drop_last()) + if es.last() == Event::ToggleControlCenter {
            1nat
        } else {
            0nat
        }
    }
}

impl Session {
    /// A freshly accepted connection: nothing sent, no toggle counted.
    pub fn new() -> (s: Self)
        ensures
            s.first_run,
            s.cc_counter == 0,
    {
        Session { first_run: true, cc_counter: 0 }
    }

    /// Whether the loop waits for an event before sending: after the first state.
    pub fn waits_for_event(&self) -> (r: bool)
        ensures
            r == !self.first_run,
    {
        !self.first_run
    }

    /// Takes in what the loop obtained; returns whether to send a state now (`false`:
    /// the connection is done).
    pub fn step(&mut self, input: Input) -> (send: bool)
        ensures
            send == !(input is Closed),
            match input {
                Input::Received(e) => final(self).cc_counter == counter_after_event(old(self).cc_counter, e),
                _ => final(self).cc_counter == old(self).cc_counter,
            },
            final(self).first_run == (old(self).first_run && input is Closed),
    {
        match input {
            Input::Start => {
                self.first_run = false;
                true
            },
            Input::Received(Event::ToggleControlCenter) => {
                self.cc_counter = self.cc_counter.wrapping_add(1);
                self.first_run = false;
                true
            },
            Input::Received(Event::RefreshData) => {
                self.first_run = false;
                true
            },
            Input::Closed => false,
        }
    }
}

/// The control-center signal counts toggles: after any events, starting from 0, it is
/// the number of toggles among them, modulo 256.
pub proof fn law_counter_counts_toggles(es: Seq<Event>)
    ensures
        counter_after(0, es) as int == toggles(es) as int % 256,
    decreases es.len(),
{
    if es.len() > 0 {
        law_counter_counts_toggles(es.drop_last());
    }
}

/// Refreshes leave the control-center signal alone: events that are all refreshes do
/// not change it.
pub proof fn law_refresh_keeps_counter(counter: u8, es: Seq<Event>)
    requires
        forall|i: int| 0 <= i < es.len() ==> es[i] == Event::RefreshData,
    ensures
        counter_after(counter, es) == counter,
    decreases es.len(),
{
    if es.len() > 0 {
        law_refresh_keeps_counter(counter, es.drop_last());
    }
}

} // verus!
