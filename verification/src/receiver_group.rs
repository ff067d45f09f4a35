//! Groups of receivers: several receivers of one hub seen as one, whose
//! value is the tuple of the members' values and whose wait is over as
//! soon as any member has something to report.

use vstd::prelude::*;
use vstd::std_specs::cmp::PartialEqSpec;
use crate::property::{Hub, HubView, Receiver, ReceiverExt, Sender, SenderExt, Wait};

verus! {

/// What the waits of two members come to together: ready as soon as one
/// is, disconnected only when both are.
pub open spec fn either(first: Wait<()>, second: Wait<()>) -> Wait<()> {
    if first is Ready || second is Ready {
        Wait::Ready(())
    } else if first is Disconnected && second is Disconnected {
        Wait::Disconnected
    } else {
        Wait::Pending
    }
}

/// One or more receivers of one hub, seen as one.
pub trait ReceiverGroup<T: Copy + PartialEq>: Sized {
    type Item;

    /// Every member observes a slot of `hub`.
    spec fn within(&self, hub: HubView<T>) -> bool;

    /// The current values of the members.
    spec fn value_spec(&self, hub: HubView<T>) -> Self::Item;

    /// What a wait for any publish to any member comes to.
    spec fn notified_spec(&self, hub: HubView<T>) -> Wait<()>;

    /// Whether every member observes a slot of `hub`.
    fn fits(&self, hub: &Hub<T>) -> (r: bool)
        ensures
            r == self.within(hub@),
    ;

    /// The current values of the members. The group is left as it is.
    fn value(&self, hub: &Hub<T>) -> (v: Self::Item)
        requires
            self.within(hub@),
        ensures
            v == self.value_spec(hub@),
    ;

    /// One step of the wait for a publish to any member. The members are
    /// asked in order; the first that has something to report takes note
    /// of it and ends the wait, and the members after it are not asked.
    fn notified(&mut self, hub: &Hub<T>) -> (w: Wait<()>)
        requires
            old(self).within(hub@),
        ensures
            w == old(self).notified_spec(hub@),
            final(self).within(hub@),
            forall|other: HubView<T>| old(self).within(other) ==> final(self).within(other),
            forall|other: HubView<T>|
                old(self).within(other) ==> final(self).value_spec(other) == old(self).value_spec(
                    other,
                ),
    ;
}

impl<T: Copy + PartialEq> ReceiverGroup<T> for Receiver<T> {
    type Item = T;

    open spec fn within(&self, hub: HubView<T>) -> bool {
        hub.has(self.slot())
    }

    open spec fn value_spec(&self, hub: HubView<T>) -> T {
        hub.value(self.slot())
    }

    open spec fn notified_spec(&self, hub: HubView<T>) -> Wait<()> {
        match hub.notified_since(self.slot(), self.seen()) {
            Wait::Ready(_) => Wait::Ready(()),
            Wait::Pending => Wait::Pending,
            Wait::Disconnected => Wait::Disconnected,
        }
    }

    fn fits(&self, hub: &Hub<T>) -> (r: bool) {
        self.index() < hub.len()
    }

    fn value(&self, hub: &Hub<T>) -> (v: T) {
        ReceiverExt::value(self, hub)
    }

    fn notified(&mut self, hub: &Hub<T>) -> (w: Wait<()>) {
        match ReceiverExt::notified(self, hub) {
            Wait::Ready(_) => Wait::Ready(()),
            Wait::Pending => Wait::Pending,
            Wait::Disconnected => Wait::Disconnected,
        }
    }
}

impl<T: Copy + PartialEq, A: ReceiverGroup<T>, B: ReceiverGroup<T>> ReceiverGroup<T> for (A, B) {
    type Item = (A::Item, B::Item);

    open spec fn within(&self, hub: HubView<T>) -> bool {
        self.0.within(hub) && self.1.within(hub)
    }

    open spec fn value_spec(&self, hub: HubView<T>) -> (A::Item, B::Item) {
        (self.0.value_spec(hub), self.1.value_spec(hub))
    }

    open spec fn notified_spec(&self, hub: HubView<T>) -> Wait<()> {
        either(self.0.notified_spec(hub), self.1.notified_spec(hub))
    }

    fn fits(&self, hub: &Hub<T>) -> (r: bool) {
        self.0.fits(hub) && self.1.fits(hub)
    }

    fn value(&self, hub: &Hub<T>) -> (v: (A::Item, B::Item)) {
        (self.0.value(hub), self.1.value(hub))
    }

    fn notified(&mut self, hub: &Hub<T>) -> (w: Wait<()>) {
        let first = self.0.notified(hub);
        match first {
            Wait::Ready(_) => Wait::Ready(()),
            _ => {
                let second = self.1.notified(hub);
                match (first, second) {
                    (_, Wait::Ready(_)) => Wait::Ready(()),
                    (Wait::Disconnected, Wait::Disconnected) => Wait::Disconnected,
                    _ => Wait::Pending,
                }
            },
        }
    }
}

impl<
    T: Copy + PartialEq,
    A: ReceiverGroup<T>,
    B: ReceiverGroup<T>,
    C: ReceiverGroup<T>,
> ReceiverGroup<T> for (A, B, C) {
    type Item = (A::Item, B::Item, C::Item);

    open spec fn within(&self, hub: HubView<T>) -> bool {
        self.0.within(hub) && self.1.within(hub) && self.2.within(hub)
    }

    open spec fn value_spec(&self, hub: HubView<T>) -> (A::Item, B::Item, C::Item) {
        (self.0.value_spec(hub), self.1.value_spec(hub), self.2.value_spec(hub))
    }

    open spec fn notified_spec(&self, hub: HubView<T>) -> Wait<()> {
        either(
            either(self.0.notified_spec(hub), self.1.notified_spec(hub)),
            self.2.notified_spec(hub),
        )
    }

    fn fits(&self, hub: &Hub<T>) -> (r: bool) {
        self.0.fits(hub) && self.1.fits(hub) && self.2.fits(hub)
    }

    fn value(&self, hub: &Hub<T>) -> (v: (A::Item, B::Item, C::Item)) {
        (self.0.value(hub), self.1.value(hub), self.2.value(hub))
    }

    fn notified(&mut self, hub: &Hub<T>) -> (w: Wait<()>) {
        let first = self.0.notified(hub);
        if let Wait::Ready(_) = first {
            return Wait::Ready(());
        }
        let second = self.1.notified(hub);
        if let Wait::Ready(_) = second {
            return Wait::Ready(());
        }
        let third = self.2.notified(hub);
        match (first, second, third) {
            (_, _, Wait::Ready(_)) => Wait::Ready(()),
            (Wait::Disconnected, Wait::Disconnected, Wait::Disconnected) => Wait::Disconnected,
            _ => Wait::Pending,
        }
    }
}

/// The target hub after one step of a binding: where the wait of the
/// group was over, an idempotent send of the group's value.
pub open spec fn bound_step<U: PartialEq>(
    waited: Wait<()>,
    target: HubView<U>,
    slot: int,
    value: U,
) -> HubView<U> {
    if waited is Ready {
        target.send(slot, value)
    } else {
        target
    }
}

/// One step of the binding of a group to a sender: where a publish to any
/// member is there to report, the group's current value is sent on
/// `sender`; otherwise nothing is sent. The step tells what the wait came
/// to.
pub fn bind_group<T: Copy + PartialEq, U: Copy + PartialEq, G: ReceiverGroup<T, Item = U>>(
    group: &mut G,
    source: &Hub<T>,
    sender: &Sender<U>,
    target: &mut Hub<U>,
) -> (w: Wait<()>)
    requires
        old(group).within(source@),
        old(target)@.wf(),
        old(target)@.has(sender.slot()),
    ensures
        w == old(group).notified_spec(source@),
        final(group).within(source@),
        final(target)@.wf(),
        final(target)@.slots.len() == old(target)@.slots.len(),
        U::obeys_eq_spec() ==> final(target)@ == bound_step(
            w,
            old(target)@,
            sender.slot(),
            old(group).value_spec(source@),
        ),
        !(w is Ready) ==> final(target)@ == old(target)@,
{
    let w = group.notified(source);
    if let Wait::Ready(_) = w {
        let value = group.value(source);
        sender.send(target, value);
    }
    w
}

/// The group combinator. Two receivers that are up to date with their
/// slots have, as a group, the pair of the slots' values for their value,
/// and nothing to report. After any publish on the slot of the first, the
/// group's wait is over, and the group's value is the pair of the new
/// value of the first and the old value of the second.
pub proof fn law_group_of_two<T: Copy + PartialEq>(
    hub: HubView<T>,
    a: Receiver<T>,
    b: Receiver<T>,
    value: T,
)
    requires
        hub.has(a.slot()),
        hub.has(b.slot()),
        a.slot() != b.slot(),
        a.seen() == hub.version(a.slot()),
        b.seen() == hub.version(b.slot()),
    ensures
        (a, b).value_spec(hub) == (hub.value(a.slot()), hub.value(b.slot())),
        !((a, b).notified_spec(hub) is Ready),
        (a, b).notified_spec(hub.publish(a.slot(), value)) == Wait::Ready(()),
        (a, b).value_spec(hub.publish(a.slot(), value)) == (value, hub.value(b.slot())),
{
}

} // verus!
