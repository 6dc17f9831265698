//! The signals that systems pass to one another, and the mailbox that carries them.

use crate::geometry::Vec2;
use vstd::prelude::*;

verus! {

/// The message for the menu to show.
pub struct MenuEvent(pub String);

impl View for MenuEvent {
    type V = Seq<char>;

    open spec fn view(&self) -> Seq<char> {
        self.0@
    }
}

/// A particle is to be ejected at `translation`, toward `target_position`.
#[derive(Clone, Copy, Debug, PartialEq, Eq, Structural)]
pub struct EjectEvent {
    pub translation: Vec2,
    pub target_position: Vec2,
}

/// An explosion is to appear at `translation`.
#[derive(Clone, Copy, Debug, PartialEq, Eq, Structural)]
pub struct ExplodeEvent {
    pub translation: Vec2,
}

/// A virus is to be dropped at `translation`.
#[derive(Clone, Copy, Debug, PartialEq, Eq, Structural)]
pub struct DropVirusEvent {
    pub translation: Vec2,
}

/// The player shoots at the point under the cursor.
#[derive(Clone, Copy, Debug, PartialEq, Eq, Structural)]
pub struct ShootEvent {
    pub cursor_position: Vec2,
}

/// A mailbox for one signal. While a signal waits in it, every further signal is
/// dropped: a consumer takes one signal per tick, and it is the first that was sent.
pub struct Mailbox<T> {
    pub slot: Option<T>,
}

impl<T> Mailbox<T> {
    /// What the mailbox holds after `event` is sent to one that holds `slot`.
    pub open spec fn after_send(slot: Option<T>, event: T) -> Option<T> {
        match slot {
            Some(first) => Some(first),
            None => Some(event),
        }
    }

    /// An empty mailbox.
    pub fn new() -> (mailbox: Mailbox<T>)
        ensures
            mailbox.slot is None,
    {
        Mailbox { slot: None }
    }

    /// Tells whether no signal waits.
    pub fn is_empty(&self) -> (empty: bool)
        ensures
            empty == (self.slot is None),
    {
        self.slot.is_none()
    }

    /// Sends `event`. It is dropped if a signal waits already.
    pub fn send(&mut self, event: T)
        ensures
            final(self).slot == Self::after_send(old(self).slot, event),
    {
        if self.slot.is_none() {
            self.slot = Some(event);
        }
    }

    /// Takes the waiting signal, if there is one, and leaves the mailbox empty.
    pub fn take(&mut self) -> (event: Option<T>)
        ensures
            event == old(self).slot,
            final(self).slot is None,
    {
        self.slot.take()
    }
}

} // verus!
