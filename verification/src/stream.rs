//! Receivers as sequences of values, and bindings that forward what a
//! receiver reports to a sender.

use vstd::prelude::*;
use vstd::std_specs::cmp::PartialEqSpec;
use crate::property::{Hub, HubView, Receiver, ReceiverExt, Sender, SenderExt, Wait};

verus! {

/// A receiver as a sequence of values that never ends: first the value
/// that is current when the sequence is first asked, then a value for
/// every publish that the receiver has not yet taken note of.
pub struct PropertyStream<T> {
    receiver: Receiver<T>,
    started: bool,
}

impl<T: Copy + PartialEq> PropertyStream<T> {
    /// The slot whose values the sequence yields.
    pub closed spec fn slot(&self) -> int {
        self.receiver.slot()
    }

    /// The version last taken note of.
    pub closed spec fn seen(&self) -> u64 {
        self.receiver.seen()
    }

    /// Whether the sequence has yielded its first value.
    pub closed spec fn started(&self) -> bool {
        self.started
    }

    /// The slot whose values the sequence yields. A sequence belongs to a
    /// hub that has this slot.
    pub fn index(&self) -> (i: usize)
        ensures
            i == self.slot(),
    {
        self.receiver.index()
    }

    /// What the sequence yields next.
    pub open spec fn next_spec(&self, hub: HubView<T>) -> Wait<T> {
        if !self.started() {
            Wait::Ready(hub.value(self.slot()))
        } else {
            hub.notified_since(self.slot(), self.seen())
        }
    }

    /// The sequence of the values of the slot that `receiver` observes.
    pub fn new(receiver: &Receiver<T>) -> (stream: Self)
        ensures
            stream.slot() == receiver.slot(),
            stream.seen() == receiver.seen(),
            !stream.started(),
    {
        PropertyStream { receiver: *receiver, started: false }
    }

    /// Asks the sequence for its next value. The sequence takes note of
    /// the slot's version, so that the value is not yielded again.
    pub fn next(&mut self, hub: &Hub<T>) -> (w: Wait<T>)
        requires
            hub@.has(old(self).slot()),
        ensures
            w == old(self).next_spec(hub@),
            final(self).slot() == old(self).slot(),
            final(self).seen() == hub@.version(old(self).slot()),
            final(self).started(),
    {
        if !self.started {
            self.started = true;
            let _ = self.receiver.notified(hub);
            Wait::Ready(self.receiver.value(hub))
        } else {
            self.receiver.notified(hub)
        }
    }
}

/// Binding the values of a sequence to senders.
pub trait PropertyStreamExt<T: Copy + PartialEq>: Sized {
    /// The slot whose values are bound.
    spec fn source(&self) -> int;

    /// What the sequence yields next.
    spec fn yields(&self, hub: HubView<T>) -> Wait<T>;

    /// One step of the binding to a sender of the same hub: a value that
    /// the sequence yields is published on `sender`, whether or not it
    /// equals the sender's current value.
    fn bind(&mut self, hub: &mut Hub<T>, sender: &Sender<T>) -> (w: Wait<T>)
        requires
            old(hub)@.wf(),
            old(hub)@.has(old(self).source()),
            old(hub)@.has(sender.slot()),
        ensures
            w == old(self).yields(old(hub)@),
            final(self).source() == old(self).source(),
            final(hub)@.wf(),
            final(hub)@ == match w {
                Wait::Ready(value) => old(hub)@.publish(sender.slot(), value),
                _ => old(hub)@,
            },
    ;

    /// One step of the binding to a sender of another hub, by way of `f`:
    /// for a value that the sequence yields, what `f` makes of it is
    /// published on `sender`.
    fn bind_map<U: Copy + PartialEq, F: Fn(T) -> U>(
        &mut self,
        source: &Hub<T>,
        f: &F,
        sender: &Sender<U>,
        target: &mut Hub<U>,
    ) -> (w: Wait<T>)
        requires
            source@.has(old(self).source()),
            old(target)@.wf(),
            old(target)@.has(sender.slot()),
            forall|value: T| call_requires(f, (value,)),
        ensures
            w == old(self).yields(source@),
            final(self).source() == old(self).source(),
            final(target)@.wf(),
            match w {
                Wait::Ready(value) => exists|mapped: U|
                    call_ensures(f, (value,), mapped) && final(target)@ == old(target)@.publish(
                        sender.slot(),
                        mapped,
                    ),
                _ => final(target)@ == old(target)@,
            },
    ;
}

impl<T: Copy + PartialEq> PropertyStreamExt<T> for PropertyStream<T> {
    open spec fn source(&self) -> int {
        self.slot()
    }

    open spec fn yields(&self, hub: HubView<T>) -> Wait<T> {
        self.next_spec(hub)
    }

    fn bind(&mut self, hub: &mut Hub<T>, sender: &Sender<T>) -> (w: Wait<T>) {
        let w = self.next(hub);
        if let Wait::Ready(value) = w {
            sender.notify_with(hub, value);
        }
        w
    }

    fn bind_map<U: Copy + PartialEq, F: Fn(T) -> U>(
        &mut self,
        source: &Hub<T>,
        f: &F,
        sender: &Sender<U>,
        target: &mut Hub<U>,
    ) -> (w: Wait<T>) {
        let w = self.next(source);
        if let Wait::Ready(value) = w {
            let mapped = f(value);
            sender.notify_with(target, mapped);
        }
        w
    }
}


/// The hub after the first `upto` pairs of receivers and senders took one
/// step of their binding each, in order: where a receiver had a publish to
/// report, the slot's value was sent on the sender of its pair.
pub open spec fn pairs_forwarded<T: PartialEq>(
    hub: HubView<T>,
    receivers: Seq<Receiver<T>>,
    senders: Seq<Sender<T>>,
    upto: int,
) -> HubView<T>
    decreases upto,
{
    if upto <= 0 {
        hub
    } else {
        let before = pairs_forwarded(hub, receivers, senders, upto - 1);
        let i = upto - 1;
        match before.notified_since(receivers[i].slot(), receivers[i].seen()) {
            Wait::Ready(value) => before.send(senders[i].slot(), value),
            _ => before,
        }
    }
}

/// One step of the binding of one receiver to one sender of the same hub:
/// where the receiver has a publish to report, the slot's value is sent on
/// the sender. The receiver is handed back with what it has taken note of.
pub fn bind_pair<T: Copy + PartialEq>(receiver: Receiver<T>, sender: &Sender<T>, hub: &mut Hub<T>) -> (updated: Receiver<T>)
    requires
        old(hub)@.wf(),
        old(hub)@.has(receiver.slot()),
        old(hub)@.has(sender.slot()),
    ensures
        updated.slot() == receiver.slot(),
        updated.seen() == old(hub)@.version(receiver.slot()),
        final(hub)@.wf(),
        final(hub)@.slots.len() == old(hub)@.slots.len(),
        T::obeys_eq_spec() ==> final(hub)@ == match old(hub)@.notified_since(
            receiver.slot(),
            receiver.seen(),
        ) {
            Wait::Ready(value) => old(hub)@.send(sender.slot(), value),
            _ => old(hub)@,
        },
{
    let mut receiver = receiver;
    let w = receiver.notified(hub);
    if let Wait::Ready(value) = w {
        sender.send(hub, value);
    }
    receiver
}

/// The number of pairs that two lists make: the length of the shorter.
pub open spec fn pairs(receivers: int, senders: int) -> int {
    if receivers <= senders {
        receivers
    } else {
        senders
    }
}


/// One step of the binding of each receiver to the sender at the same
/// place of `senders`. What is left over on the longer side is bound to
/// nothing. The number of pairs is returned.
pub fn bind_each<T: Copy + PartialEq>(
    receivers: &mut Vec<Receiver<T>>,
    senders: &Vec<Sender<T>>,
    hub: &mut Hub<T>,
) -> (count: usize)
    requires
        old(hub)@.wf(),
        forall|i: int|
            0 <= i < pairs(old(receivers)@.len() as int, senders@.len() as int) ==> old(hub)@.has(
                (#[trigger] old(receivers)@[i]).slot(),
            ),
        forall|i: int|
            0 <= i < pairs(old(receivers)@.len() as int, senders@.len() as int) ==> old(hub)@.has(
                (#[trigger] senders@[i]).slot(),
            ),
    ensures
        count == pairs(old(receivers)@.len() as int, senders@.len() as int),
        final(hub)@.wf(),
        final(hub)@.slots.len() == old(hub)@.slots.len(),
        final(receivers)@.len() == old(receivers)@.len(),
        forall|i: int|
            0 <= i < final(receivers)@.len() ==> (#[trigger] final(receivers)@[i]).slot() == old(
                receivers,
            )@[i].slot(),
        forall|i: int|
            count <= i < final(receivers)@.len() ==> (#[trigger] final(receivers)@[i]).seen() == old(
                receivers,
            )@[i].seen(),
        T::obeys_eq_spec() ==> final(hub)@ == pairs_forwarded(
            old(hub)@,
            old(receivers)@,
            senders@,
            count as int,
        ),
        T::obeys_eq_spec() ==> forall|i: int|
            0 <= i < count ==> (#[trigger] final(receivers)@[i]).seen() == pairs_forwarded(
                old(hub)@,
                old(receivers)@,
                senders@,
                i,
            ).version(old(receivers)@[i].slot()),
{
    let count = if receivers.len() <= senders.len() {
        receivers.len()
    } else {
        senders.len()
    };
    let mut i: usize = 0;
    while i < count
        invariant
            i <= count,
            count == pairs(old(receivers)@.len() as int, senders@.len() as int),
            receivers@.len() == old(receivers)@.len(),
            hub@.wf(),
            hub@.slots.len() == old(hub)@.slots.len(),
            forall|k: int| 0 <= k < count ==> old(hub)@.has((#[trigger] old(receivers)@[k]).slot()),
            forall|k: int| 0 <= k < count ==> old(hub)@.has((#[trigger] senders@[k]).slot()),
            forall|k: int|
                0 <= k < receivers@.len() ==> (#[trigger] receivers@[k]).slot() == old(
                    receivers,
                )@[k].slot(),
            forall|k: int|
                i <= k < receivers@.len() ==> (#[trigger] receivers@[k]).seen() == old(
                    receivers,
                )@[k].seen(),
            T::obeys_eq_spec() ==> hub@ == pairs_forwarded(
                old(hub)@,
                old(receivers)@,
                senders@,
                i as int,
            ),
            T::obeys_eq_spec() ==> forall|k: int|
                0 <= k < i ==> (#[trigger] receivers@[k]).seen() == pairs_forwarded(
                    old(hub)@,
                    old(receivers)@,
                    senders@,
                    k,
                ).version(old(receivers)@[k].slot()),
        decreases count - i,
    {
        let updated = bind_pair(receivers[i], &senders[i], hub);
        receivers.set(i, updated);
        i += 1;
    }
    count
}

} // verus!
