//! The channel primitive: a hub of broadcast slots, and the sender and
//! receiver handles that publish to and observe one slot.

use core::marker::PhantomData;
use vstd::prelude::*;
use vstd::std_specs::cmp::PartialEqSpec;

verus! {

/// The version a slot carries after one more publish. Versions wrap around.
pub open spec fn next_version(v: u64) -> u64 {
    if v == u64::MAX {
        0
    } else {
        (v + 1) as u64
    }
}

/// One broadcast slot: the current value, a counter that advances with every
/// publish, and whether its senders have been declared gone.
pub struct Slot<T> {
    pub value: T,
    pub version: u64,
    pub closed: bool,
}

/// One invocation of a slot's setter that a publish has scheduled: the host
/// is to be handed `value` for the channel `slot`.
#[derive(Clone, Copy, Debug, PartialEq, Eq)]
pub struct SetterCall<T> {
    pub slot: usize,
    pub value: T,
}

/// What a wait on a receiver has come to.
#[derive(Clone, Copy, Debug, PartialEq, Eq)]
pub enum Wait<T> {
    /// The wait is over and yields this value.
    Ready(T),
    /// Nothing to report yet: keep waiting.
    Pending,
    /// Nothing to report, and the slot's senders are gone: nothing will come.
    Disconnected,
}

/// The mathematical state of a [`Hub`]: its slots in creation order, and the
/// setter calls that were scheduled and not yet taken, oldest first.
pub struct HubView<T> {
    pub slots: Seq<Slot<T>>,
    pub calls: Seq<SetterCall<T>>,
}

impl<T> HubView<T> {
    /// Every scheduled setter call names a slot of this hub.
    pub open spec fn wf(self) -> bool {
        forall|i: int| 0 <= i < self.calls.len() ==> (#[trigger] self.calls[i]).slot < self.slots.len()
    }

    pub open spec fn has(self, slot: int) -> bool {
        0 <= slot < self.slots.len()
    }

    pub open spec fn value(self, slot: int) -> T {
        self.slots[slot].value
    }

    pub open spec fn version(self, slot: int) -> u64 {
        self.slots[slot].version
    }

    pub open spec fn closed(self, slot: int) -> bool {
        self.slots[slot].closed
    }

    /// The state after a new slot holding `value` was added: no setter call
    /// is scheduled for it.
    pub open spec fn open(self, value: T) -> Self {
        HubView { slots: self.slots.push(Slot { value, version: 0, closed: false }), calls: self.calls }
    }

    /// The state after `len` new slots that hold `value` were added, one
    /// after the other.
    pub open spec fn open_many(self, len: nat, value: T) -> Self {
        HubView {
            slots: self.slots + Seq::new(len, |i: int| Slot { value, version: 0, closed: false }),
            calls: self.calls,
        }
    }

    /// The state after one publish of `value` on `slot`: the setter call is
    /// scheduled, the slot holds `value`, and its version has advanced.
    pub open spec fn publish(self, slot: int, value: T) -> Self {
        HubView {
            slots: self.slots.update(
                slot,
                Slot { value, version: next_version(self.slots[slot].version), closed: self.slots[slot].closed },
            ),
            calls: self.calls.push(SetterCall { slot: slot as usize, value }),
        }
    }

    /// The state after the senders of `slot` were declared gone.
    pub open spec fn close(self, slot: int) -> Self {
        HubView {
            slots: self.slots.update(
                slot,
                Slot { value: self.slots[slot].value, version: self.slots[slot].version, closed: true },
            ),
            calls: self.calls,
        }
    }

    /// The state after the scheduled setter calls were taken.
    pub open spec fn drained(self) -> Self {
        HubView { slots: self.slots, calls: Seq::empty() }
    }

    /// What a wait for any publish comes to for a receiver that has seen
    /// version `seen` of `slot`.
    pub open spec fn notified_since(self, slot: int, seen: u64) -> Wait<T> {
        if self.version(slot) != seen {
            Wait::Ready(self.value(slot))
        } else if self.closed(slot) {
            Wait::Disconnected
        } else {
            Wait::Pending
        }
    }
}

impl<T: PartialEq> HubView<T> {
    /// The state after an idempotent send of `value` on `slot`: unchanged
    /// where `value` equals the current value, one publish otherwise.
    pub open spec fn send(self, slot: int, value: T) -> Self {
        if value.eq_spec(&self.value(slot)) {
            self
        } else {
            self.publish(slot, value)
        }
    }

    /// What a wait for a value other than `last` comes to on `slot`.
    pub open spec fn changed_from(self, slot: int, last: T) -> Wait<T> {
        if !self.value(slot).eq_spec(&last) {
            Wait::Ready(self.value(slot))
        } else if self.closed(slot) {
            Wait::Disconnected
        } else {
            Wait::Pending
        }
    }
}

/// The shared state behind every channel: the broadcast slots, and the
/// setter calls that publishes have scheduled toward the host.
pub struct Hub<T> {
    slots: Vec<Slot<T>>,
    outbox: Vec<SetterCall<T>>,
}

impl<T> View for Hub<T> {
    type V = HubView<T>;

    closed spec fn view(&self) -> HubView<T> {
        HubView { slots: self.slots@, calls: self.outbox@ }
    }
}

impl<T: Copy> Hub<T> {
    /// A hub without slots.
    pub fn new() -> (hub: Self)
        ensures
            hub@.slots.len() == 0,
            hub@.calls.len() == 0,
            hub@.wf(),
    {
        Hub { slots: Vec::new(), outbox: Vec::new() }
    }

    /// The number of slots.
    pub fn len(&self) -> (n: usize)
        ensures
            n == self@.slots.len(),
    {
        self.slots.len()
    }

    /// Adds a slot that holds `value`, and returns its index.
    fn open(&mut self, value: T) -> (slot: usize)
        requires
            old(self)@.wf(),
        ensures
            slot == old(self)@.slots.len(),
            final(self)@ == old(self)@.open(value),
            final(self)@.wf(),
    {
        let slot = self.slots.len();
        self.slots.push(Slot { value, version: 0, closed: false });
        assert(self@ =~= old(self)@.open(value));
        slot
    }

    /// Adds `len` slots that hold `value`, and returns the index of the
    /// first: they stand one after the other.
    pub(crate) fn open_many(&mut self, len: usize, value: T) -> (start: usize)
        requires
            old(self)@.wf(),
        ensures
            start == old(self)@.slots.len(),
            start + len <= usize::MAX,
            final(self)@ == old(self)@.open_many(len as nat, value),
            final(self)@.wf(),
    {
        let start = self.slots.len();
        let mut i: usize = 0;
        while i < len
            invariant
                i <= len,
                start == old(self)@.slots.len(),
                self.outbox@ == old(self).outbox@,
                self.slots@.len() == start + i,
                forall|k: int| 0 <= k < start ==> self.slots@[k] == old(self).slots@[k],
                forall|k: int|
                    start <= k < start + i ==> self.slots@[k] == (Slot {
                        value,
                        version: 0,
                        closed: false,
                    }),
            decreases len - i,
        {
            self.slots.push(Slot { value, version: 0, closed: false });
            i += 1;
        }
        let end = self.slots.len();
        assert(self@.slots =~= old(self)@.open_many(len as nat, value).slots);
        start
    }

    pub(crate) fn value(&self, slot: usize) -> (v: T)
        requires
            self@.has(slot as int),
        ensures
            v == self@.value(slot as int),
    {
        self.slots[slot].value
    }

    fn version(&self, slot: usize) -> (v: u64)
        requires
            self@.has(slot as int),
        ensures
            v == self@.version(slot as int),
    {
        self.slots[slot].version
    }

    fn closed(&self, slot: usize) -> (c: bool)
        requires
            self@.has(slot as int),
        ensures
            c == self@.closed(slot as int),
    {
        self.slots[slot].closed
    }

    /// Schedules the setter call, then stores `value` and advances the
    /// slot's version.
    fn publish(&mut self, slot: usize, value: T)
        requires
            old(self)@.wf(),
            old(self)@.has(slot as int),
        ensures
            final(self)@ == old(self)@.publish(slot as int, value),
            final(self)@.wf(),
    {
        self.outbox.push(SetterCall { slot, value });
        let version = self.slots[slot].version;
        let closed = self.slots[slot].closed;
        let next: u64 = if version == u64::MAX { 0 } else { version + 1 };
        self.slots.set(slot, Slot { value, version: next, closed });
        assert(self@ =~= old(self)@.publish(slot as int, value));
    }

    fn close(&mut self, slot: usize)
        requires
            old(self)@.wf(),
            old(self)@.has(slot as int),
        ensures
            final(self)@ == old(self)@.close(slot as int),
            final(self)@.wf(),
    {
        let value = self.slots[slot].value;
        let version = self.slots[slot].version;
        self.slots.set(slot, Slot { value, version, closed: true });
        assert(self@ =~= old(self)@.close(slot as int));
    }

    /// Takes the scheduled setter calls, oldest first, for the caller to
    /// carry out. Slots are left as they are.
    pub fn take_calls(&mut self) -> (calls: Vec<SetterCall<T>>)
        ensures
            calls@ == old(self)@.calls,
            final(self)@ == old(self)@.drained(),
            final(self)@.wf(),
    {
        let mut calls: Vec<SetterCall<T>> = Vec::new();
        core::mem::swap(&mut calls, &mut self.outbox);
        assert(self@ =~= old(self)@.drained());
        calls
    }
}


/// The publishing end of one channel.
pub struct Sender<T> {
    slot: usize,
    marker: PhantomData<T>,
}

/// The observing end of one channel. It remembers the version it has last
/// taken note of.
pub struct Receiver<T> {
    slot: usize,
    seen: u64,
    marker: PhantomData<T>,
}

/// A channel: a sender and a receiver on one slot.
pub struct Property<T> {
    sender: Sender<T>,
    receiver: Receiver<T>,
}

impl<T> Clone for Sender<T> {
    /// Another handle on the same slot.
    fn clone(&self) -> (s: Self)
        ensures
            s == *self,
    {
        Sender { slot: self.slot, marker: PhantomData }
    }
}

impl<T> Copy for Sender<T> {

}

impl<T> Clone for Receiver<T> {
    /// Another handle on the same slot, which has taken note of the same
    /// version.
    fn clone(&self) -> (r: Self)
        ensures
            r == *self,
    {
        Receiver { slot: self.slot, seen: self.seen, marker: PhantomData }
    }
}

impl<T> Copy for Receiver<T> {

}

impl<T> Clone for Property<T> {
    /// Handles on the same slot: the state behind them is shared, not
    /// duplicated.
    fn clone(&self) -> (p: Self)
        ensures
            p == *self,
    {
        proof {
            use_type_invariant(self);
        }
        Property { sender: self.sender, receiver: self.receiver }
    }
}

impl<T> Copy for Property<T> {

}

impl<T> Sender<T> {
    /// The slot this handle publishes to.
    pub closed spec fn slot(&self) -> int {
        self.slot as int
    }

    /// The handle that publishes to `slot`.
    pub(crate) fn at(slot: usize) -> (s: Self)
        ensures
            s.slot() == slot,
    {
        Sender { slot, marker: PhantomData }
    }

    /// The slot this handle publishes to. A handle belongs to a hub that
    /// has this slot.
    pub fn index(&self) -> (i: usize)
        ensures
            i == self.slot(),
    {
        self.slot
    }
}

impl<T> Receiver<T> {
    /// The slot this handle observes.
    pub closed spec fn slot(&self) -> int {
        self.slot as int
    }

    /// The version this handle has last taken note of.
    pub closed spec fn seen(&self) -> u64 {
        self.seen
    }

    /// The handle that observes `slot` and has taken note of the version
    /// the slot was made with.
    pub(crate) fn at(slot: usize) -> (r: Self)
        ensures
            r.slot() == slot,
            r.seen() == 0,
    {
        Receiver { slot, seen: 0, marker: PhantomData }
    }

    /// The slot this handle observes. A handle belongs to a hub that has
    /// this slot.
    pub fn index(&self) -> (i: usize)
        ensures
            i == self.slot(),
    {
        self.slot
    }
}

impl<T> Property<T> {
    /// Sender and receiver are on one slot.
    #[verifier::type_invariant]
    spec fn paired(&self) -> bool {
        self.sender.slot == self.receiver.slot
    }

    /// The slot of this channel.
    pub closed spec fn slot(&self) -> int {
        self.sender.slot as int
    }

    /// The version the receiver of this channel has last taken note of.
    pub closed spec fn seen(&self) -> u64 {
        self.receiver.seen
    }

    /// The channel on `slot`, with a receiver that has taken note of the
    /// version the slot was made with.
    pub(crate) fn at(slot: usize) -> (p: Self)
        ensures
            p.slot() == slot,
            p.seen() == 0,
    {
        Property { sender: Sender::at(slot), receiver: Receiver::at(slot) }
    }

    /// The slot of this channel. A handle belongs to a hub that has this
    /// slot.
    pub fn index(&self) -> (i: usize)
        ensures
            i == self.slot(),
    {
        self.sender.slot
    }

    /// The publishing end.
    pub closed spec fn sender_end(&self) -> Sender<T> {
        self.sender
    }

    /// The observing end.
    pub closed spec fn receiver_end(&self) -> Receiver<T> {
        self.receiver
    }

    /// The publishing end.
    pub fn sender(&self) -> (s: &Sender<T>)
        ensures
            *s == self.sender_end(),
            s.slot() == self.slot(),
    {
        &self.sender
    }

    /// The observing end.
    pub fn receiver(&self) -> (r: &Receiver<T>)
        ensures
            *r == self.receiver_end(),
            r.slot() == self.slot(),
            r.seen() == self.seen(),
    {
        proof {
            use_type_invariant(self);
        }
        &self.receiver
    }
}

impl<T: Copy> Property<T> {
    /// Makes a channel on a new slot of `hub` that holds `initial_value`.
    /// No setter call is scheduled.
    pub fn new(hub: &mut Hub<T>, initial_value: T) -> (property: Self)
        requires
            old(hub)@.wf(),
        ensures
            final(hub)@ == old(hub)@.open(initial_value),
            final(hub)@.wf(),
            property.slot() == old(hub)@.slots.len(),
            property.seen() == 0,
    {
        let slot = hub.open(initial_value);
        Property {
            sender: Sender { slot, marker: PhantomData },
            receiver: Receiver { slot, seen: 0, marker: PhantomData },
        }
    }
}

/// Observing one channel.
pub trait ReceiverExt<T: Copy + PartialEq> {
    /// The slot that is observed.
    spec fn slot_spec(&self) -> int;

    /// The version last taken note of.
    spec fn seen_spec(&self) -> u64;

    /// The current value of the slot. The handle is left as it is.
    fn value(&self, hub: &Hub<T>) -> (v: T)
        requires
            hub@.has(self.slot_spec()),
        ensures
            v == hub@.value(self.slot_spec()),
    ;

    /// One step of the wait for a value that differs from `last`, the value
    /// that was current when the wait began. It is ready only with a value
    /// that does not equal `last`, however often the slot was published to.
    fn changed(&mut self, hub: &Hub<T>, last: T) -> (w: Wait<T>)
        requires
            hub@.has(old(self).slot_spec()),
        ensures
            final(self).slot_spec() == old(self).slot_spec(),
            final(self).seen_spec() == hub@.version(old(self).slot_spec()),
            w is Ready ==> w == Wait::Ready(hub@.value(old(self).slot_spec())),
            w is Disconnected ==> hub@.closed(old(self).slot_spec()),
            w is Pending ==> !hub@.closed(old(self).slot_spec()),
            T::obeys_eq_spec() ==> w == hub@.changed_from(old(self).slot_spec(), last),
    ;

    /// One step of the wait for any publish, also one that repeats the
    /// value: ready when the slot's version is not the one last taken note
    /// of.
    fn notified(&mut self, hub: &Hub<T>) -> (w: Wait<T>)
        requires
            hub@.has(old(self).slot_spec()),
        ensures
            final(self).slot_spec() == old(self).slot_spec(),
            final(self).seen_spec() == hub@.version(old(self).slot_spec()),
            w == hub@.notified_since(old(self).slot_spec(), old(self).seen_spec()),
    ;
}

impl<T: Copy + PartialEq> ReceiverExt<T> for Receiver<T> {
    open spec fn slot_spec(&self) -> int {
        self.slot()
    }

    open spec fn seen_spec(&self) -> u64 {
        self.seen()
    }

    fn value(&self, hub: &Hub<T>) -> (v: T) {
        hub.value(self.slot)
    }

    fn changed(&mut self, hub: &Hub<T>, last: T) -> (w: Wait<T>) {
        self.seen = hub.version(self.slot);
        let current = hub.value(self.slot);
        if current != last {
            Wait::Ready(current)
        } else if hub.closed(self.slot) {
            Wait::Disconnected
        } else {
            Wait::Pending
        }
    }

    fn notified(&mut self, hub: &Hub<T>) -> (w: Wait<T>) {
        let version = hub.version(self.slot);
        if version != self.seen {
            self.seen = version;
            Wait::Ready(hub.value(self.slot))
        } else if hub.closed(self.slot) {
            Wait::Disconnected
        } else {
            Wait::Pending
        }
    }
}

impl<T: Copy + PartialEq> ReceiverExt<T> for Property<T> {
    open spec fn slot_spec(&self) -> int {
        self.slot()
    }

    open spec fn seen_spec(&self) -> u64 {
        self.seen()
    }

    fn value(&self, hub: &Hub<T>) -> (v: T) {
        hub.value(self.sender.slot)
    }

    fn changed(&mut self, hub: &Hub<T>, last: T) -> (w: Wait<T>) {
        proof {
            use_type_invariant(&*self);
        }
        let mut receiver = self.receiver;
        let w = receiver.changed(hub, last);
        self.receiver = receiver;
        w
    }

    fn notified(&mut self, hub: &Hub<T>) -> (w: Wait<T>) {
        proof {
            use_type_invariant(&*self);
        }
        let mut receiver = self.receiver;
        let w = receiver.notified(hub);
        self.receiver = receiver;
        w
    }
}

/// Publishing to one channel.
pub trait SenderExt<T: Copy + PartialEq> {
    /// The slot that is published to.
    spec fn slot_spec(&self) -> int;

    /// Publishes `value` unless it equals the current value: then nothing
    /// happens, and no setter call is scheduled either.
    fn send(&self, hub: &mut Hub<T>, value: T)
        requires
            old(hub)@.wf(),
            old(hub)@.has(self.slot_spec()),
        ensures
            final(hub)@.wf(),
            final(hub)@ == old(hub)@ || final(hub)@ == old(hub)@.publish(self.slot_spec(), value),
            T::obeys_eq_spec() ==> final(hub)@ == old(hub)@.send(self.slot_spec(), value),
    ;

    /// Publishes the current value again: the setter call is scheduled and
    /// the version advances although the value stays.
    fn notify(&self, hub: &mut Hub<T>)
        requires
            old(hub)@.wf(),
            old(hub)@.has(self.slot_spec()),
        ensures
            final(hub)@.wf(),
            final(hub)@ == old(hub)@.publish(self.slot_spec(), old(hub)@.value(self.slot_spec())),
    ;

    /// Publishes `value` whether or not it equals the current value.
    fn notify_with(&self, hub: &mut Hub<T>, value: T)
        requires
            old(hub)@.wf(),
            old(hub)@.has(self.slot_spec()),
        ensures
            final(hub)@.wf(),
            final(hub)@ == old(hub)@.publish(self.slot_spec(), value),
    ;
}

impl<T: Copy + PartialEq> SenderExt<T> for Sender<T> {
    open spec fn slot_spec(&self) -> int {
        self.slot()
    }

    fn send(&self, hub: &mut Hub<T>, value: T) {
        let current = hub.value(self.slot);
        if value == current {
            return ;
        }
        hub.publish(self.slot, value);
    }

    fn notify(&self, hub: &mut Hub<T>) {
        let value = hub.value(self.slot);
        hub.publish(self.slot, value);
    }

    fn notify_with(&self, hub: &mut Hub<T>, value: T) {
        hub.publish(self.slot, value);
    }
}

impl<T: Copy + PartialEq> SenderExt<T> for Property<T> {
    open spec fn slot_spec(&self) -> int {
        self.slot()
    }

    fn send(&self, hub: &mut Hub<T>, value: T) {
        self.sender.send(hub, value)
    }

    fn notify(&self, hub: &mut Hub<T>) {
        self.sender.notify(hub)
    }

    fn notify_with(&self, hub: &mut Hub<T>, value: T) {
        self.sender.notify_with(hub, value)
    }
}

impl<T: Copy> Sender<T> {
    /// Declares the senders of this channel gone: a wait that has nothing
    /// left to report ends as disconnected instead of staying pending. The
    /// value, the version and the scheduled setter calls are left as they
    /// are.
    pub fn close(self, hub: &mut Hub<T>)
        requires
            old(hub)@.wf(),
            old(hub)@.has(self.slot()),
        ensures
            final(hub)@ == old(hub)@.close(self.slot()),
            final(hub)@.wf(),
    {
        hub.close(self.slot);
    }
}


/// One way of publishing to a channel.
pub enum Publish<T> {
    /// `send` with this value.
    Send(T),
    /// `notify`.
    Notify,
    /// `notify_with` with this value.
    NotifyWith(T),
}

impl<T: PartialEq> HubView<T> {
    /// The state after one publishing call on `slot`.
    pub open spec fn apply(self, slot: int, call: Publish<T>) -> Self {
        match call {
            Publish::Send(value) => self.send(slot, value),
            Publish::Notify => self.publish(slot, self.value(slot)),
            Publish::NotifyWith(value) => self.publish(slot, value),
        }
    }

    /// The state after the publishing calls `calls` on `slot`, in order.
    pub open spec fn apply_all(self, slot: int, calls: Seq<Publish<T>>) -> Self
        decreases calls.len(),
    {
        if calls.len() == 0 {
            self
        } else {
            self.apply_all(slot, calls.drop_last()).apply(slot, calls.last())
        }
    }
}

/// Whether a publishing call hands the channel a value that equals `v`, or
/// none of its own.
pub open spec fn reasserts<T: PartialEq>(call: Publish<T>, v: T) -> bool {
    match call {
        Publish::Send(value) => value.eq_spec(&v),
        Publish::Notify => true,
        Publish::NotifyWith(value) => value.eq_spec(&v),
    }
}

/// Idempotence. A send of a value that equals the current one changes
/// nothing: no setter call is scheduled and no version advances. A send of
/// any other value schedules exactly one setter call, advances the version
/// of its slot by exactly one step, leaves every other slot as it is, and
/// the slot then holds the value sent.
pub proof fn law_send_idempotent<T: PartialEq>(hub: HubView<T>, slot: int, value: T)
    requires
        hub.has(slot),
    ensures
        value.eq_spec(&hub.value(slot)) ==> hub.send(slot, value) == hub,
        !value.eq_spec(&hub.value(slot)) ==> {
            let after = hub.send(slot, value);
            &&& after.calls == hub.calls.push(SetterCall { slot: slot as usize, value })
            &&& after.version(slot) == next_version(hub.version(slot))
            &&& after.version(slot) != hub.version(slot)
            &&& after.value(slot) == value
            &&& after.slots.len() == hub.slots.len()
            &&& forall|other: int|
                0 <= other < hub.slots.len() && other != slot ==> after.slots[other]
                    == hub.slots[other]
        },
{
}

/// Notify is unconditional. Publishing the current value again schedules
/// one setter call and advances the version, where a send of that value
/// does nothing at all.
pub proof fn law_notify_unconditional<T: PartialEq>(hub: HubView<T>, slot: int)
    requires
        hub.has(slot),
        hub.value(slot).eq_spec(&hub.value(slot)),
    ensures
        hub.send(slot, hub.value(slot)) == hub,
        ({
            let after = hub.apply(slot, Publish::Notify);
            &&& after == hub.apply(slot, Publish::NotifyWith(hub.value(slot)))
            &&& after.calls == hub.calls.push(
                SetterCall { slot: slot as usize, value: hub.value(slot) },
            )
            &&& after.version(slot) == next_version(hub.version(slot))
            &&& after.version(slot) != hub.version(slot)
            &&& after.value(slot) == hub.value(slot)
            &&& after.notified_since(slot, hub.version(slot)) == Wait::Ready(hub.value(slot))
        }),
{
}

/// Wait correctness. While every publishing call on a slot only reasserts
/// the value `v0` that the wait began with, however many there are and of
/// whichever kind, a wait for a changed value is not ready. Once the slot
/// holds a value that does not equal `v0`, the wait is ready with it.
pub proof fn law_changed_waits<T: PartialEq>(
    hub: HubView<T>,
    slot: int,
    v0: T,
    calls: Seq<Publish<T>>,
)
    requires
        hub.has(slot),
        hub.value(slot).eq_spec(&v0),
        forall|i: int| 0 <= i < calls.len() ==> reasserts(#[trigger] calls[i], v0),
    ensures
        hub.apply_all(slot, calls).has(slot),
        hub.apply_all(slot, calls).value(slot).eq_spec(&v0),
        !(hub.apply_all(slot, calls).changed_from(slot, v0) is Ready),
        forall|value: T|
            !value.eq_spec(&v0) ==> hub.apply_all(slot, calls).publish(slot, value).changed_from(
                slot,
                v0,
            ) == Wait::Ready(value),
    decreases calls.len(),
{
    if calls.len() > 0 {
        law_changed_waits(hub, slot, v0, calls.drop_last());
        assert(reasserts(calls[calls.len() - 1], v0));
    }
}

/// Handles on one slot see each other's publishes. After a send of `x`
/// through any sender on a slot, every receiver on that slot holds a value
/// that equals `x`; where equality on the values is identity, it holds `x`.
pub proof fn law_send_visible<T: PartialEq>(hub: HubView<T>, sender: Sender<T>, receiver: Receiver<T>, x: T)
    requires
        hub.has(sender.slot()),
        sender.slot() == receiver.slot(),
        forall|a: T, b: T| #[trigger] a.eq_spec(&b) ==> b.eq_spec(&a),
    ensures
        hub.send(sender.slot(), x).value(receiver.slot()).eq_spec(&x) || hub.send(
            sender.slot(),
            x,
        ).value(receiver.slot()) == x,
        (forall|a: T, b: T| #[trigger] a.eq_spec(&b) ==> a == b) ==> hub.send(sender.slot(), x).value(
            receiver.slot(),
        ) == x,
{
}

/// Publishing to one slot never changes what another slot holds.
pub proof fn law_slots_independent<T: PartialEq>(
    hub: HubView<T>,
    slot: int,
    other: int,
    call: Publish<T>,
)
    requires
        hub.has(slot),
        hub.has(other),
        slot != other,
    ensures
        hub.apply(slot, call).has(other),
        hub.apply(slot, call).slots[other] == hub.slots[other],
{
}

} // verus!
