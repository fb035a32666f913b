//! Bounded boot fan-out: at most a fixed number of servers are being started
//! at once, and the others wait their turn in the order in which they asked.

use vstd::prelude::*;

verus! {

/// The mathematical content of a [`BootGate`].
pub ghost struct BootGateView {
    /// How many starts may be in flight at once.
    pub capacity: nat,
    /// How many starts are in flight.
    pub in_flight: nat,
    /// The servers that wait for a permit, first come first.
    pub waiting: Seq<u128>,
}

impl BootGateView {
    /// No more starts are in flight than the capacity allows, and nobody
    /// waits while a permit is free.
    pub open spec fn bounded(self) -> bool {
        &&& self.in_flight <= self.capacity
        &&& self.waiting.len() > 0 ==> self.in_flight == self.capacity
    }
}

/// A counting gate in front of `start`.
pub struct BootGate {
    capacity: u64,
    in_flight: u64,
    waiting: Vec<u128>,
}

impl View for BootGate {
    type V = BootGateView;

    closed spec fn view(&self) -> BootGateView {
        BootGateView {
            capacity: self.capacity as nat,
            in_flight: self.in_flight as nat,
            waiting: self.waiting@,
        }
    }
}

impl BootGate {
    /// The invariant of the type, which holds from [`BootGate::new`] on.
    pub open spec fn wf(&self) -> bool {
        self@.bounded()
    }

    /// A gate that lets `capacity` starts run at once.
    pub fn new(capacity: u64) -> (r: BootGate)
        ensures
            r.wf(),
            r@ == (BootGateView { capacity: capacity as nat, in_flight: 0, waiting: Seq::empty() }),
    {
        BootGate { capacity, in_flight: 0, waiting: Vec::new() }
    }

    /// The number of starts that may be in flight at once.
    pub fn capacity(&self) -> (r: u64)
        ensures
            r == self@.capacity,
    {
        self.capacity
    }

    /// The number of starts in flight.
    pub fn in_flight(&self) -> (r: u64)
        ensures
            r == self@.in_flight,
    {
        self.in_flight
    }

    /// The number of servers that wait for a permit.
    pub fn waiting(&self) -> (r: usize)
        ensures
            r == self@.waiting.len(),
    {
        self.waiting.len()
    }

    /// Asks for a permit for the server `uuid`. Returns `true` where the
    /// server may be started now; otherwise it has been put at the end of
    /// the queue and will be handed out by a later [`BootGate::release`].
    pub fn request(&mut self, uuid: u128) -> (granted: bool)
        requires
            old(self).wf(),
        ensures
            final(self).wf(),
            granted == (old(self)@.in_flight < old(self)@.capacity),
            granted ==> final(self)@ == (BootGateView {
                in_flight: old(self)@.in_flight + 1,
                ..old(self)@
            }),
            !granted ==> final(self)@ == (BootGateView {
                waiting: old(self)@.waiting.push(uuid),
                ..old(self)@
            }),
    {
        if self.in_flight < self.capacity {
            self.in_flight = self.in_flight + 1;
            true
        } else {
            self.waiting.push(uuid);
            false
        }
    }

    /// Gives back the permit of a start that has finished. Where a server
    /// waits, the permit passes to the first in the queue, which is returned
    /// and is to be started now. With nothing in flight, nothing changes.
    pub fn release(&mut self) -> (next: Option<u128>)
        requires
            old(self).wf(),
        ensures
            final(self).wf(),
            old(self)@.in_flight == 0 ==> next is None && final(self)@ == old(self)@,
            old(self)@.in_flight > 0 && old(self)@.waiting.len() > 0 ==> {
                &&& next == Some(old(self)@.waiting[0])
                &&& final(self)@ == (BootGateView {
                    waiting: old(self)@.waiting.drop_first(),
                    ..old(self)@
                })
            },
            old(self)@.in_flight > 0 && old(self)@.waiting.len() == 0 ==> {
                &&& next is None
                &&& final(self)@ == (BootGateView {
                    in_flight: (old(self)@.in_flight - 1) as nat,
                    ..old(self)@
                })
            },
    {
        if self.in_flight == 0 {
            None
        } else if self.waiting.len() > 0 {
            let first = self.waiting.remove(0);
            assert(self.waiting@ =~= old(self).waiting@.drop_first());
            Some(first)
        } else {
            self.in_flight = self.in_flight - 1;
            None
        }
    }
}

} // verus!
