//! State shared between an interrupt handler and the main flow.
//!
//! The state holds a slot for a peripheral's control handle, filled once
//! during setup and never refilled, and two event counters: every interrupt,
//! and the interrupts whose pending flag was drained. Every access takes the
//! state by `&mut` or `&`, so that in firmware it is reached only inside the
//! exclusive-access scope that suspends the interrupt while the main flow holds
//! it; the handler enters the same scope. Within that scope each access is
//! atomic, so any run is a sequence of whole accesses.
use vstd::prelude::*;

verus! {

/// One more than a 32-bit count, wrapping to zero.
pub open spec fn wrapping_succ(n: nat) -> nat {
    (n + 1) % 0x1_0000_0000
}

/// Count of events, incremented by one per event; it wraps to zero after
/// `u32::MAX`.
pub struct EdgeCounter {
    count: u32,
}

impl View for EdgeCounter {
    type V = nat;

    closed spec fn view(&self) -> nat {
        self.count as nat
    }
}

impl EdgeCounter {
    /// A counter at zero.
    pub fn new() -> (r: EdgeCounter)
        ensures
            r@ == 0,
    {
        EdgeCounter { count: 0 }
    }

    /// Counts one more event.
    pub fn increment(&mut self)
        ensures
            final(self)@ == wrapping_succ(old(self)@),
    {
        if self.count == u32::MAX {
            self.count = 0;
        } else {
            self.count = self.count + 1;
        }
    }

    /// The events counted so far, modulo 2^32.
    pub fn read(&self) -> (r: u32)
        ensures
            r == self@,
    {
        self.count
    }
}

/// Abstract shared state: the handle slot and the two counts.
pub struct SharedState<H> {
    /// The peripheral's control handle, once the slot is populated.
    pub handle: Option<H>,
    /// Interrupts taken.
    pub events: nat,
    /// Interrupts whose pending flag was drained.
    pub acknowledged: nat,
}

/// One whole access to the shared state.
pub enum Access<H> {
    /// Setup stores the handle.
    Populate(H),
    /// The interrupt fires and sees its pending flag set or not.
    Interrupt(bool),
    /// The main flow reads the interrupt count.
    Read,
}

impl<H> SharedState<H> {
    /// The state before setup: no handle, nothing counted.
    pub open spec fn initial() -> SharedState<H> {
        SharedState { handle: None, events: 0, acknowledged: 0 }
    }

    /// Whether the interrupt must drain its pending flag: it can only when the
    /// handle is there, and must whenever the flag is set.
    pub open spec fn drains(self, pending: bool) -> bool {
        self.handle is Some && pending
    }

    /// The state after an interrupt that saw its pending flag as `pending`.
    pub open spec fn after_interrupt(self, pending: bool) -> SharedState<H> {
        SharedState {
            events: wrapping_succ(self.events),
            acknowledged: if self.drains(pending) {
                wrapping_succ(self.acknowledged)
            } else {
                self.acknowledged
            },
            ..self
        }
    }

    /// The state after an attempt to store `handle`; a populated slot keeps
    /// its handle.
    pub open spec fn after_populate(self, handle: H) -> SharedState<H> {
        if self.handle is None {
            SharedState { handle: Some(handle), ..self }
        } else {
            self
        }
    }

    /// The state after one access.
    pub open spec fn apply(self, access: Access<H>) -> SharedState<H> {
        match access {
            Access::Populate(h) => self.after_populate(h),
            Access::Interrupt(pending) => self.after_interrupt(pending),
            Access::Read => self,
        }
    }

    /// The state after the accesses `trace`, in order.
    pub open spec fn replay(self, trace: Seq<Access<H>>) -> SharedState<H>
        decreases trace.len(),
    {
        if trace.len() == 0 {
            self
        } else {
            self.replay(trace.drop_last()).apply(trace.last())
        }
    }
}

/// Number of interrupts in `trace`.
pub open spec fn interrupts<H>(trace: Seq<Access<H>>) -> nat
    decreases trace.len(),
{
    if trace.len() == 0 {
        0
    } else {
        interrupts(trace.drop_last()) + if trace.last() is Interrupt {
            1nat
        } else {
            0nat
        }
    }
}

/// The handle of the first store in `trace`, if any.
pub open spec fn first_populate<H>(trace: Seq<Access<H>>) -> Option<H>
    decreases trace.len(),
{
    if trace.len() == 0 {
        None
    } else {
        match first_populate(trace.drop_last()) {
            Some(h) => Some(h),
            None => match trace.last() {
                Access::Populate(h) => Some(h),
                _ => None,
            },
        }
    }
}

/// The handle slot and event counters shared with an interrupt handler.
pub struct InterruptShared<H> {
    handle: Option<H>,
    events: EdgeCounter,
    acknowledged: EdgeCounter,
}

impl<H> View for InterruptShared<H> {
    type V = SharedState<H>;

    closed spec fn view(&self) -> SharedState<H> {
        SharedState {
            handle: self.handle,
            events: self.events@,
            acknowledged: self.acknowledged@,
        }
    }
}

impl<H> InterruptShared<H> {
    /// The state before setup: an empty slot and both counts at zero.
    pub fn new() -> (r: InterruptShared<H>)
        ensures
            r@ == SharedState::<H>::initial(),
    {
        InterruptShared { handle: None, events: EdgeCounter::new(), acknowledged: EdgeCounter::new() }
    }

    /// Stores the handle if the slot is empty; a populated slot is never
    /// refilled, and the refused handle is handed back.
    pub fn populate(&mut self, handle: H) -> (r: Result<(), H>)
        ensures
            old(self)@.handle is None ==> r is Ok,
            old(self)@.handle is Some ==> r == Err::<(), H>(handle),
            final(self)@ == old(self)@.after_populate(handle),
    {
        if self.handle.is_none() {
            self.handle = Some(handle);
            Ok(())
        } else {
            Err(handle)
        }
    }

    /// Whether setup has stored the handle.
    pub fn is_populated(&self) -> (r: bool)
        ensures
            r == self@.handle is Some,
    {
        self.handle.is_some()
    }

    /// The stored handle, if setup has stored it.
    pub fn handle(&self) -> (r: Option<&H>)
        ensures
            r is None <==> self@.handle is None,
            r matches Some(h) ==> self@.handle == Some(*h),
    {
        match &self.handle {
            Some(h) => Some(h),
            None => None,
        }
    }

    /// Records one interrupt that saw its pending flag as `pending`, and says
    /// whether the handler must drain that flag before it leaves the scope.
    pub fn on_interrupt(&mut self, pending: bool) -> (drain: bool)
        ensures
            drain == old(self)@.drains(pending),
            final(self)@ == old(self)@.after_interrupt(pending),
    {
        self.events.increment();
        let drain = self.handle.is_some() && pending;
        if drain {
            self.acknowledged.increment();
        }
        drain
    }

    /// Interrupts taken so far, modulo 2^32.
    pub fn events(&self) -> (r: u32)
        ensures
            r == self@.events,
    {
        self.events.read()
    }

    /// Interrupts whose pending flag was drained, modulo 2^32.
    pub fn acknowledged(&self) -> (r: u32)
        ensures
            r == self@.acknowledged,
    {
        self.acknowledged.read()
    }
}

/// No interrupt is lost: whatever reads of the count are interleaved with the
/// interrupts, the count after any run is the number of interrupts in it,
/// modulo 2^32; so a read after all `N` interrupts of a run observes exactly
/// `N` while `N` fits in 32 bits.
pub proof fn no_lost_interrupts<H>(trace: Seq<Access<H>>)
    ensures
        SharedState::<H>::initial().replay(trace).events == interrupts(trace) % 0x1_0000_0000,
        interrupts(trace) < 0x1_0000_0000 ==> SharedState::<H>::initial().replay(trace).events
            == interrupts(trace),
    decreases trace.len(),
{
    if trace.len() > 0 {
        no_lost_interrupts(trace.drop_last());
    }
}

/// The handle slot is never seen torn: after any run it is empty or holds
/// exactly the handle of the first store, whole, however interrupts and reads
/// were interleaved with the stores.
pub proof fn handle_slot_never_torn<H>(trace: Seq<Access<H>>)
    ensures
        SharedState::<H>::initial().replay(trace).handle == first_populate(trace),
    decreases trace.len(),
{
    if trace.len() > 0 {
        handle_slot_never_torn(trace.drop_last());
    }
}

} // verus!
