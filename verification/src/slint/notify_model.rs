//! The bridge that reconciles rows the host owns with native channels: a
//! row the host writes is held against the last known one, field by field,
//! and only what differs is forwarded.

use vstd::prelude::*;
use vstd::std_specs::cmp::PartialEqSpec;
use crate::property::{Hub, HubView, Sender, SenderExt};

verus! {

/// A value as the host holds it, for a channel of values of type `T`.
pub trait HostValue<T>: Sized {
    /// The native value that stands for this host value, if there is one:
    /// a bounded native representation cannot hold every host value.
    spec fn to_native_spec(&self) -> Option<T>;

    /// The host value that stands for a native value.
    spec fn from_native_spec(value: T) -> Self;

    fn to_native(&self) -> (r: Option<T>)
        ensures
            r == self.to_native_spec(),
    ;

    fn from_native(value: T) -> (h: Self)
        ensures
            h == Self::from_native_spec(value),
    ;
}

/// Where host and native code hold a value in one and the same type, it
/// stands for itself on either side.
impl<T: Copy> HostValue<T> for T {
    open spec fn to_native_spec(&self) -> Option<T> {
        Some(*self)
    }

    open spec fn from_native_spec(value: T) -> T {
        value
    }

    fn to_native(&self) -> (r: Option<T>) {
        Some(*self)
    }

    fn from_native(value: T) -> (h: T) {
        value
    }
}

/// The mathematical state of a bridge.
pub struct BridgeView<H, T> {
    /// The last known rows.
    pub rows: Seq<Seq<H>>,
    /// For each row and column, the sender of the field that the host
    /// writes, if the column is one.
    pub wiring: Seq<Seq<Option<Sender<T>>>>,
    /// The rows of which the host is still to be told that they changed,
    /// oldest first.
    pub raised: Seq<usize>,
}

/// The hub after the columns below `upto` of a row the host wrote were
/// held against the last known row `old`: for each wired column whose
/// value differs and can be converted, one publish of the new value.
pub open spec fn forwarded<H: PartialEq + HostValue<T>, T>(
    hub: HubView<T>,
    old: Seq<H>,
    new: Seq<H>,
    wires: Seq<Option<Sender<T>>>,
    upto: int,
) -> HubView<T>
    decreases upto,
{
    if upto <= 0 {
        hub
    } else {
        let before = forwarded(hub, old, new, wires, upto - 1);
        let c = upto - 1;
        if forwards(old, new, wires, c) {
            before.publish(wires[c]->0.slot(), new[c].to_native_spec()->0)
        } else {
            before
        }
    }
}

/// Whether column `c` of a row the host wrote is forwarded: the column is
/// wired, its value differs from the last known one, and the native side
/// can hold it.
pub open spec fn forwards<H: PartialEq + HostValue<T>, T>(
    old: Seq<H>,
    new: Seq<H>,
    wires: Seq<Option<Sender<T>>>,
    c: int,
) -> bool {
    wires[c] is Some && !new[c].eq_spec(&old[c]) && new[c].to_native_spec() is Some
}

/// Whether two rows are equal, column for column.
pub open spec fn same_row<H: PartialEq>(a: Seq<H>, b: Seq<H>) -> bool {
    a.len() == b.len() && forall|c: int| 0 <= c < a.len() ==> (#[trigger] a[c]).eq_spec(&b[c])
}

impl<H: PartialEq + HostValue<T>, T> BridgeView<H, T> {
    /// Rows and wiring have one shape, and every wired sender belongs to
    /// `hub`.
    pub open spec fn wf(self, hub: HubView<T>) -> bool {
        &&& self.rows.len() == self.wiring.len()
        &&& forall|r: int|
            0 <= r < self.rows.len() ==> (#[trigger] self.rows[r]).len() == self.wiring[r].len()
        &&& forall|r: int, c: int|
            0 <= r < self.wiring.len() && 0 <= c < self.wiring[r].len() && (
            #[trigger] self.wiring[r][c]) is Some ==> hub.has(self.wiring[r][c]->0.slot())
    }

    /// The bridge after the host wrote `data` to row `row`.
    pub open spec fn host_write(self, row: int, data: Seq<H>) -> Self {
        if 0 <= row < self.rows.len() {
            if same_row(data, self.rows[row]) {
                self
            } else {
                BridgeView {
                    rows: self.rows.update(row, data),
                    wiring: self.wiring,
                    raised: self.raised.push(row as usize),
                }
            }
        } else {
            BridgeView { rows: self.rows, wiring: self.wiring, raised: self.raised.push(row as usize) }
        }
    }

    /// The hub after the host wrote `data` to row `row`.
    pub open spec fn host_forward(self, hub: HubView<T>, row: int, data: Seq<H>) -> HubView<T> {
        if 0 <= row < self.rows.len() && !same_row(data, self.rows[row]) {
            forwarded(hub, self.rows[row], data, self.wiring[row], data.len() as int)
        } else {
            hub
        }
    }

    /// The bridge after native code wrote `value` to one field of row
    /// `row`.
    pub open spec fn native_write(self, row: int, column: int, value: H) -> Self {
        if 0 <= row < self.rows.len() && 0 <= column < self.rows[row].len() {
            BridgeView {
                rows: self.rows.update(row, self.rows[row].update(column, value)),
                wiring: self.wiring,
                raised: self.raised.push(row as usize),
            }
        } else {
            self
        }
    }
}

/// The bridge of one list of rows.
pub struct SlintNotifyModel<H, T> {
    rows: Vec<Vec<H>>,
    wiring: Vec<Vec<Option<Sender<T>>>>,
    raised: Vec<usize>,
}

impl<H, T> View for SlintNotifyModel<H, T> {
    type V = BridgeView<H, T>;

    closed spec fn view(&self) -> BridgeView<H, T> {
        BridgeView {
            rows: Seq::new(self.rows@.len(), |r: int| self.rows@[r]@),
            wiring: Seq::new(self.wiring@.len(), |r: int| self.wiring@[r]@),
            raised: self.raised@,
        }
    }
}

impl<H: PartialEq + HostValue<T>, T: Copy + PartialEq> SlintNotifyModel<H, T> {
    /// A bridge whose last known rows are `inner`, with the senders of
    /// `wiring` behind their columns. Nothing is forwarded and no change
    /// is raised.
    pub fn new(inner: Vec<Vec<H>>, wiring: Vec<Vec<Option<Sender<T>>>>) -> (bridge: Self)
        ensures
            bridge@.rows == Seq::new(inner@.len(), |r: int| inner@[r]@),
            bridge@.wiring == Seq::new(wiring@.len(), |r: int| wiring@[r]@),
            bridge@.raised == Seq::<usize>::empty(),
    {
        SlintNotifyModel { rows: inner, wiring, raised: Vec::new() }
    }

    /// The number of rows.
    pub fn row_count(&self) -> (n: usize)
        ensures
            n == self@.rows.len(),
    {
        self.rows.len()
    }

    /// The last known row at `row`, if there is such a row.
    pub fn row_data(&self, row: usize) -> (data: Option<&Vec<H>>)
        ensures
            row < self@.rows.len() ==> data is Some && data->0@ == self@.rows[row as int],
            row >= self@.rows.len() ==> data is None,
    {
        if row < self.rows.len() {
            Some(&self.rows[row])
        } else {
            None
        }
    }
}


/// Whether two rows are equal, column for column.
fn rows_equal<H: PartialEq>(a: &Vec<H>, b: &Vec<H>) -> (r: bool)
    ensures
        H::obeys_eq_spec() ==> r == same_row(a@, b@),
{
    if a.len() != b.len() {
        return false;
    }
    let mut c: usize = 0;
    while c < a.len()
        invariant
            c <= a@.len(),
            a@.len() == b@.len(),
            H::obeys_eq_spec() ==> forall|k: int| 0 <= k < c ==> (#[trigger] a@[k]).eq_spec(&b@[k]),
        decreases a@.len() - c,
    {
        if a[c] != b[c] {
            return false;
        }
        c += 1;
    }
    true
}

impl<H: PartialEq + HostValue<T>, T: Copy + PartialEq> SlintNotifyModel<H, T> {
    /// The host writes `data` to row `row`: the one way in which the host
    /// changes a row.
    ///
    /// A row that equals the last known one is dropped: nothing is stored,
    /// forwarded or raised. Otherwise each wired column whose value differs
    /// from the last known one is published on its sender, unless the
    /// native side cannot hold the value, in which case that column is
    /// passed over; then `data` becomes the last known row and the change
    /// is raised toward the host. For a row that does not exist only the
    /// change is raised.
    pub fn set_row_data(&mut self, hub: &mut Hub<T>, row: usize, data: Vec<H>)
        requires
            old(hub)@.wf(),
            old(self)@.wf(old(hub)@),
            row < old(self)@.rows.len() ==> data@.len() == old(self)@.rows[row as int].len(),
        ensures
            final(hub)@.wf(),
            final(self)@.wf(final(hub)@),
            final(hub)@.slots.len() == old(hub)@.slots.len(),
            final(self)@.wiring == old(self)@.wiring,
            final(self)@.rows.len() == old(self)@.rows.len(),
            forall|r: int|
                0 <= r < final(self)@.rows.len() ==> (#[trigger] final(self)@.rows[r]).len() == old(
                    self,
                )@.rows[r].len(),
            H::obeys_eq_spec() ==> final(self)@ == old(self)@.host_write(row as int, data@),
            H::obeys_eq_spec() ==> final(hub)@ == old(self)@.host_forward(
                old(hub)@,
                row as int,
                data@,
            ),
    {
        if row >= self.rows.len() {
            self.raised.push(row);
            assert(self@ =~= old(self)@.host_write(row as int, data@));
            return ;
        }
        if rows_equal(&data, &self.rows[row]) {
            return ;
        }
        let mut c: usize = 0;
        while c < data.len()
            invariant
                c <= data@.len(),
                row < self.rows@.len(),
                *self == *old(self),
                self@.wf(old(hub)@),
                data@.len() == self@.rows[row as int].len(),
                hub@.wf(),
                hub@.slots.len() == old(hub)@.slots.len(),
                H::obeys_eq_spec() ==> hub@ == forwarded(
                    old(hub)@,
                    self@.rows[row as int],
                    data@,
                    self@.wiring[row as int],
                    c as int,
                ),
            decreases data@.len() - c,
        {
            assert(self@.rows[row as int].len() == self@.wiring[row as int].len());
            let wire = self.wiring[row][c];
            assert(wire == self@.wiring[row as int][c as int]);
            match wire {
                Some(sender) => {
                    if data[c] != self.rows[row][c] {
                        match data[c].to_native() {
                            Some(value) => {
                                sender.notify_with(hub, value);
                            },
                            None => {},
                        }
                    }
                },
                None => {},
            }
            c += 1;
        }
        self.rows.set(row, data);
        self.raised.push(row);
        assert(self@.rows =~= old(self)@.rows.update(row as int, data@));
        assert(self@ =~~= BridgeView {
            rows: old(self)@.rows.update(row as int, data@),
            wiring: old(self)@.wiring,
            raised: old(self)@.raised.push(row),
        });
    }

    /// Native code writes `value` to one field of row `row`: the value is
    /// written through to the last known row, so that the host's echo of
    /// the row is dropped by `set_row_data`, and the change is raised
    /// toward the host. Nothing is held against anything and nothing is
    /// forwarded. A field that does not exist is not written.
    pub fn apply_native_write(&mut self, row: usize, column: usize, value: H)
        ensures
            final(self)@ == old(self)@.native_write(row as int, column as int, value),
            forall|hub: HubView<T>| old(self)@.wf(hub) ==> final(self)@.wf(hub),
            final(self)@.rows.len() == old(self)@.rows.len(),
            forall|r: int|
                0 <= r < final(self)@.rows.len() ==> (#[trigger] final(self)@.rows[r]).len() == old(
                    self,
                )@.rows[r].len(),
    {
        if row < self.rows.len() {
            if column < self.rows[row].len() {
                self.rows[row].set(column, value);
                self.raised.push(row);
                assert(self@.rows =~~= old(self)@.rows.update(
                    row as int,
                    old(self)@.rows[row as int].update(column as int, value),
                ));
                assert(self@ =~~= old(self)@.native_write(row as int, column as int, value));
            }
        }
    }

    /// Takes the changes that were raised, oldest first, for the caller to
    /// tell the host of.
    pub fn take_raised(&mut self) -> (raised: Vec<usize>)
        ensures
            raised@ == old(self)@.raised,
            final(self)@.rows == old(self)@.rows,
            final(self)@.wiring == old(self)@.wiring,
            final(self)@.raised == Seq::<usize>::empty(),
    {
        let mut raised: Vec<usize> = Vec::new();
        core::mem::swap(&mut raised, &mut self.raised);
        assert(self@.rows =~= old(self)@.rows);
        assert(self@.wiring =~= old(self)@.wiring);
        raised
    }
}


/// Where no column below `upto` is forwarded, the hub stays as it is; where
/// `f` is the only one, the hub sees the one publish of column `f`.
proof fn lemma_forwarded_single<H: PartialEq + HostValue<T>, T>(
    hub: HubView<T>,
    old: Seq<H>,
    new: Seq<H>,
    wires: Seq<Option<Sender<T>>>,
    f: int,
    upto: int,
)
    requires
        0 <= upto,
        forall|c: int| 0 <= c < upto && c != f ==> !forwards(old, new, wires, c),
    ensures
        !(0 <= f < upto && forwards(old, new, wires, f)) ==> forwarded(hub, old, new, wires, upto)
            == hub,
        0 <= f < upto && forwards(old, new, wires, f) ==> forwarded(hub, old, new, wires, upto)
            == hub.publish(wires[f]->0.slot(), new[f].to_native_spec()->0),
    decreases upto,
{
    if upto > 0 {
        lemma_forwarded_single(hub, old, new, wires, f, upto - 1);
    }
}

/// Diff suppression. A row that the host writes and that is identical to
/// the last known row of its place changes nothing: no sender is called,
/// no change is raised, and the last known rows stay.
pub proof fn law_diff_suppression<H: PartialEq + HostValue<T>, T>(
    bridge: BridgeView<H, T>,
    hub: HubView<T>,
    row: int,
    data: Seq<H>,
)
    requires
        0 <= row < bridge.rows.len(),
        data == bridge.rows[row],
        forall|h: H| #[trigger] h.eq_spec(&h),
    ensures
        bridge.host_write(row, data) == bridge,
        bridge.host_forward(hub, row, data) == hub,
{
}

/// Diff correctness. Where the row that the host writes differs from the
/// last known one in the single column `f`, a column that is wired to a
/// sender, exactly one publish takes place: on that sender's slot, with
/// the new value of the column. Every other slot is left as it is. The
/// row written is then the last known row, and its change is raised once.
pub proof fn law_diff_forwards_one<H: PartialEq + HostValue<T>, T>(
    bridge: BridgeView<H, T>,
    hub: HubView<T>,
    row: int,
    data: Seq<H>,
    f: int,
)
    requires
        bridge.wf(hub),
        0 <= row < bridge.rows.len(),
        data.len() == bridge.rows[row].len(),
        0 <= f < data.len(),
        forall|c: int| 0 <= c < data.len() && c != f ==> (#[trigger] data[c]).eq_spec(&bridge.rows[row][c]),
        !data[f].eq_spec(&bridge.rows[row][f]),
        bridge.wiring[row][f] is Some,
        data[f].to_native_spec() is Some,
    ensures
        bridge.host_forward(hub, row, data) == hub.publish(
            bridge.wiring[row][f]->0.slot(),
            data[f].to_native_spec()->0,
        ),
        forall|other: int|
            hub.has(other) && other != bridge.wiring[row][f]->0.slot() ==> bridge.host_forward(
                hub,
                row,
                data,
            ).slots[other] == hub.slots[other],
        bridge.host_forward(hub, row, data).calls.len() == hub.calls.len() + 1,
        bridge.host_write(row, data).rows == bridge.rows.update(row, data),
        bridge.host_write(row, data).raised == bridge.raised.push(row as usize),
{
    assert(!same_row(data, bridge.rows[row]));
    lemma_forwarded_single(
        hub,
        bridge.rows[row],
        data,
        bridge.wiring[row],
        f,
        data.len() as int,
    );
    assert(bridge.rows[row].len() == bridge.wiring[row].len());
    assert(hub.has(bridge.wiring[row][f]->0.slot()));
}

/// A conversion that fails is passed over. Where the row that the host
/// writes differs from the last known one in the single column `f`, and
/// the native side cannot hold the new value, or no sender is wired to the
/// column, nothing is published; the row is stored and its change raised
/// all the same.
pub proof fn law_diff_drops_unconvertible<H: PartialEq + HostValue<T>, T>(
    bridge: BridgeView<H, T>,
    hub: HubView<T>,
    row: int,
    data: Seq<H>,
    f: int,
)
    requires
        0 <= row < bridge.rows.len(),
        data.len() == bridge.rows[row].len(),
        0 <= f < data.len(),
        forall|c: int| 0 <= c < data.len() && c != f ==> (#[trigger] data[c]).eq_spec(&bridge.rows[row][c]),
        !data[f].eq_spec(&bridge.rows[row][f]),
        bridge.wiring[row][f] is None || data[f].to_native_spec() is None,
    ensures
        bridge.host_forward(hub, row, data) == hub,
        bridge.host_write(row, data).rows == bridge.rows.update(row, data),
        bridge.host_write(row, data).raised == bridge.raised.push(row as usize),
{
    assert(!same_row(data, bridge.rows[row]));
    lemma_forwarded_single(
        hub,
        bridge.rows[row],
        data,
        bridge.wiring[row],
        f,
        data.len() as int,
    );
}

/// No echo. After native code wrote a value to a field of a row, the host
/// writing back that very row is dropped: nothing is forwarded and nothing
/// more is raised.
pub proof fn law_native_write_echo<H: PartialEq + HostValue<T>, T>(
    bridge: BridgeView<H, T>,
    hub: HubView<T>,
    row: int,
    column: int,
    value: H,
)
    requires
        0 <= row < bridge.rows.len(),
        0 <= column < bridge.rows[row].len(),
        forall|h: H| #[trigger] h.eq_spec(&h),
    ensures
        ({
            let written = bridge.native_write(row, column, value);
            let echo = bridge.rows[row].update(column, value);
            &&& written.rows[row] == echo
            &&& written.host_write(row, echo) == written
            &&& written.host_forward(hub, row, echo) == hub
        }),
{
}

} // verus!
