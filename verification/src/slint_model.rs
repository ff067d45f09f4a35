//! Host-bound models at run time: the instances of a model together with
//! the bridges that tie their channels to the rows of the host.

use std::sync::Arc;
use vstd::prelude::*;
use vstd::std_specs::cmp::PartialEqSpec;
use crate::model::{
    blocks_apart, field_offset, field_width, laid_out, law_instances_apart, lemma_blocks_in_range,
    Channels, Field, Instance,
};
use crate::parser::{Direction, FieldLen, Model, ModelError, ModelField, SlintModel, SlintModelField};
use crate::model::share;
use crate::property::{Hub, HubView, Receiver, Sender, SenderExt, SetterCall};
use crate::slint::singleton::{Key, Registry, SlintSingleton};
use crate::slint::notify_model::{BridgeView, HostValue, SlintNotifyModel};

verus! {

/// What a field of a host-bound model is at run time.
#[derive(Clone, Copy, Debug, PartialEq, Eq, Structural)]
pub enum FieldKind {
    /// A signal from the host: a channel without a value of its own.
    Signal,
    /// A value that the host writes.
    In,
    /// A value that native code writes.
    Out,
    /// A list of values that the host writes, element by element.
    InArray,
    /// A list of values that native code writes, element by element.
    OutArray,
    /// A nested model.
    Nested,
}

impl SlintModelField {
    /// What the field is at run time.
    pub open spec fn kind(&self) -> FieldKind {
        if self.is_signal() {
            FieldKind::Signal
        } else if self.direction == Direction::Model {
            FieldKind::Nested
        } else if self.len is Scalar {
            if self.direction == Direction::In {
                FieldKind::In
            } else {
                FieldKind::Out
            }
        } else if self.direction == Direction::In {
            FieldKind::InArray
        } else {
            FieldKind::OutArray
        }
    }

    /// The field as a field of a plain model: the same channels, with the
    /// direction left out.
    pub open spec fn as_plain(&self) -> ModelField {
        ModelField {
            is_model: self.kind() == FieldKind::Nested,
            name: self.name,
            ty: self.ty,
            len: self.len,
        }
    }

    /// What the field is at run time.
    pub fn run_kind(&self) -> (k: FieldKind)
        ensures
            k == self.kind(),
    {
        if self.signal() {
            FieldKind::Signal
        } else if self.direction == Direction::Model {
            FieldKind::Nested
        } else {
            match self.len {
                FieldLen::Scalar => {
                    if self.direction == Direction::In {
                        FieldKind::In
                    } else {
                        FieldKind::Out
                    }
                },
                _ => {
                    if self.direction == Direction::In {
                        FieldKind::InArray
                    } else {
                        FieldKind::OutArray
                    }
                },
            }
        }
    }

    /// The field as a field of a plain model.
    pub fn plain(&self) -> (field: ModelField)
        ensures
            field == self.as_plain(),
    {
        let is_model = self.run_kind() == FieldKind::Nested;
        ModelField { is_model, name: self.name.clone(), ty: self.ty.clone(), len: self.len }
    }
}

impl SlintModel {
    /// The fields as fields of a plain model.
    pub open spec fn plain_fields(&self) -> Seq<ModelField> {
        Seq::new(self.fields@.len(), |f: int| self.fields@[f].as_plain())
    }

    /// What the fields are at run time.
    pub open spec fn kinds(&self) -> Seq<FieldKind> {
        Seq::new(self.fields@.len(), |f: int| self.fields@[f].kind())
    }

    /// The number of instances: one, unless the model is an array.
    pub open spec fn count(&self) -> nat {
        match self.len {
            Some(n) => n as nat,
            None => 1,
        }
    }

    /// The number of channels of one instance.
    pub open spec fn width(&self) -> nat {
        field_offset(self.plain_fields(), self.fields@.len() as int)
    }

    /// The model as a plain model: the same instances and channels, with
    /// the binding to the host left out.
    pub fn plain(&self) -> (model: Model)
        ensures
            model.fields@ == self.plain_fields(),
            model.len == self.len,
            model.count() == self.count(),
            model.width() == self.width(),
    {
        let mut fields: Vec<ModelField> = Vec::new();
        let mut f: usize = 0;
        while f < self.fields.len()
            invariant
                f <= self.fields@.len(),
                fields@.len() == f,
                forall|k: int| 0 <= k < f ==> fields@[k] == self.fields@[k].as_plain(),
            decreases self.fields@.len() - f,
        {
            fields.push(self.fields[f].plain());
            f += 1;
        }
        assert(fields@ =~= self.plain_fields());
        Model { public: self.public, model_name: self.model_name.clone(), len: self.len, fields }
    }

    /// What the fields are at run time.
    pub fn run_kinds(&self) -> (kinds: Vec<FieldKind>)
        ensures
            kinds@ == self.kinds(),
    {
        let mut kinds: Vec<FieldKind> = Vec::new();
        let mut f: usize = 0;
        while f < self.fields.len()
            invariant
                f <= self.fields@.len(),
                kinds@.len() == f,
                forall|k: int| 0 <= k < f ==> kinds@[k] == self.fields@[k].kind(),
            decreases self.fields@.len() - f,
        {
            kinds.push(self.fields[f].run_kind());
            f += 1;
        }
        assert(kinds@ =~= self.kinds());
        kinds
    }
}


/// Whether the column of field `f` in the rows of `instance` is wired to a
/// sender: it is where the field is a value that the host writes.
pub open spec fn wired<T, N>(instance: Instance<T, N>, kinds: Seq<FieldKind>, f: int) -> bool {
    kinds[f] == FieldKind::In && instance.fields@[f] is Values && instance.fields@[f]->Values_0.count()
        >= 1
}

/// `wires` is the wiring of the row of `instance`: a column for each
/// field, with the sender of the field's channel behind the columns that
/// the host writes, and nothing behind any other.
pub open spec fn row_wired<T, N>(
    wires: Seq<Option<Sender<T>>>,
    instance: Instance<T, N>,
    kinds: Seq<FieldKind>,
) -> bool {
    &&& wires.len() == kinds.len()
    &&& forall|f: int|
        0 <= f < kinds.len() ==> if wired(instance, kinds, f) {
            (#[trigger] wires[f]) is Some && wires[f]->0.slot()
                == instance.fields@[f]->Values_0.start()
        } else {
            wires[f] is None
        }
}

/// `list` is the bridge of the elements of the channels `channels`: a row
/// of one column for each element, wired to the element's sender where
/// the host writes the elements.
pub open spec fn list_bound<H, T>(list: BridgeView<H, T>, channels: Channels<T>, host_writes: bool) -> bool {
    &&& list.rows.len() == channels.count()
    &&& list.wiring.len() == channels.count()
    &&& forall|e: int|
        0 <= e < channels.count() ==> {
            &&& (#[trigger] list.rows[e]).len() == 1
            &&& list.wiring[e].len() == 1
            &&& host_writes ==> list.wiring[e][0] is Some && list.wiring[e][0]->0.slot()
                == channels.start() + e
            &&& !host_writes ==> list.wiring[e][0] is None
        }
}

/// Every element of `list` is `value`, and no change has been raised.
pub open spec fn list_fresh<H, T>(list: BridgeView<H, T>, value: H) -> bool {
    &&& list.raised == Seq::<usize>::empty()
    &&& forall|e: int| 0 <= e < list.rows.len() ==> (#[trigger] list.rows[e])[0] == value
}

/// The wiring of the row of one instance.
fn wire_row<T, N>(instance: &Instance<T, N>, kinds: &Vec<FieldKind>) -> (wires: Vec<Option<Sender<T>>>)
    requires
        instance.fields@.len() == kinds@.len(),
    ensures
        row_wired(wires@, *instance, kinds@),
{
    let mut wires: Vec<Option<Sender<T>>> = Vec::new();
    let mut f: usize = 0;
    while f < kinds.len()
        invariant
            f <= kinds@.len(),
            instance.fields@.len() == kinds@.len(),
            wires@.len() == f,
            forall|k: int|
                0 <= k < f ==> if wired(*instance, kinds@, k) {
                    (#[trigger] wires@[k]) is Some && wires@[k]->0.slot()
                        == instance.fields@[k]->Values_0.start()
                } else {
                    wires@[k] is None
                },
        decreases kinds@.len() - f,
    {
        let wire = match (kinds[f], &instance.fields[f]) {
            (FieldKind::In, Field::Values(channels)) => {
                match channels.get(0) {
                    Some(property) => Some(*property.sender()),
                    None => None,
                }
            },
            _ => None,
        };
        wires.push(wire);
        f += 1;
    }
    wires
}

/// The bridge of the elements of one list field: every element begins as
/// the host's form of `initial`.
fn element_list<H: PartialEq + HostValue<T>, T: Copy + PartialEq>(
    channels: &Channels<T>,
    host_writes: bool,
    initial: T,
) -> (list: SlintNotifyModel<H, T>)
    ensures
        list_bound(list@, *channels, host_writes),
        list_fresh(list@, H::from_native_spec(initial)),
{
    let senders = crate::model::Model::clone_sender(channels);
    let mut rows: Vec<Vec<H>> = Vec::new();
    let mut wiring: Vec<Vec<Option<Sender<T>>>> = Vec::new();
    let n = channels.len();
    let mut e: usize = 0;
    while e < n
        invariant
            e <= n,
            n == channels.count(),
            senders.start() == channels.start(),
            senders.count() == channels.count(),
            rows@.len() == e,
            wiring@.len() == e,
            forall|k: int|
                0 <= k < e ==> (#[trigger] rows@[k])@.len() == 1 && rows@[k]@[0]
                    == H::from_native_spec(initial),
            forall|k: int|
                0 <= k < e ==> {
                    &&& (#[trigger] wiring@[k])@.len() == 1
                    &&& host_writes ==> wiring@[k]@[0] is Some && wiring@[k]@[0]->0.slot()
                        == channels.start() + k
                    &&& !host_writes ==> wiring@[k]@[0] is None
                },
        decreases n - e,
    {
        let mut row: Vec<H> = Vec::new();
        row.push(H::from_native(initial));
        rows.push(row);
        let mut wire: Vec<Option<Sender<T>>> = Vec::new();
        if host_writes {
            wire.push(senders.get(e));
        } else {
            wire.push(None);
        }
        wiring.push(wire);
        e += 1;
    }
    let list = SlintNotifyModel::new(rows, wiring);
    list
}


/// Whether a kind of field is a list of values.
pub open spec fn is_list(kind: FieldKind) -> bool {
    kind == FieldKind::InArray || kind == FieldKind::OutArray
}

/// `lists` holds the bridges of the list fields of `instance`, each at the
/// place of its field, and nothing at the place of any other field.
pub open spec fn lists_bound<H, T, N>(
    lists: Seq<Option<SlintNotifyModel<H, T>>>,
    instance: Instance<T, N>,
    kinds: Seq<FieldKind>,
) -> bool {
    &&& lists.len() == kinds.len()
    &&& forall|f: int|
        0 <= f < kinds.len() ==> if is_list(kinds[f]) && instance.fields@[f] is Values {
            (#[trigger] lists[f]) is Some && list_bound(
                lists[f]->0@,
                instance.fields@[f]->Values_0,
                kinds[f] == FieldKind::InArray,
            )
        } else {
            lists[f] is None
        }
}

/// The bridges of the list fields of one instance.
fn element_lists<H: PartialEq + HostValue<T>, T: Copy + PartialEq, N>(
    instance: &Instance<T, N>,
    kinds: &Vec<FieldKind>,
    initial: T,
) -> (lists: Vec<Option<SlintNotifyModel<H, T>>>)
    requires
        instance.fields@.len() == kinds@.len(),
    ensures
        lists_bound(lists@, *instance, kinds@),
        forall|f: int|
            0 <= f < lists@.len() && (#[trigger] lists@[f]) is Some ==> list_fresh(
                lists@[f]->0@,
                H::from_native_spec(initial),
            ),
{
    let mut lists: Vec<Option<SlintNotifyModel<H, T>>> = Vec::new();
    let mut f: usize = 0;
    while f < kinds.len()
        invariant
            f <= kinds@.len(),
            instance.fields@.len() == kinds@.len(),
            lists@.len() == f,
            forall|k: int|
                0 <= k < f ==> if is_list(kinds@[k]) && instance.fields@[k] is Values {
                    (#[trigger] lists@[k]) is Some && list_bound(
                        lists@[k]->0@,
                        instance.fields@[k]->Values_0,
                        kinds@[k] == FieldKind::InArray,
                    )
                } else {
                    lists@[k] is None
                },
            forall|k: int|
                0 <= k < f && (#[trigger] lists@[k]) is Some ==> list_fresh(
                    lists@[k]->0@,
                    H::from_native_spec(initial),
                ),
        decreases kinds@.len() - f,
    {
        let list = match (kinds[f], &instance.fields[f]) {
            (FieldKind::InArray, Field::Values(channels)) => Some(
                element_list(channels, true, initial),
            ),
            (FieldKind::OutArray, Field::Values(channels)) => Some(
                element_list(channels, false, initial),
            ),
            _ => None,
        };
        lists.push(list);
        f += 1;
    }
    lists
}

/// A host-bound model at run time.
pub struct Bound<H, T, N> {
    /// What the fields are.
    pub kinds: Vec<FieldKind>,
    /// The instances, in order, shared with everyone who fetched them.
    pub instances: Arc<Vec<Instance<T, N>>>,
    /// The bridge of the rows: a row for each instance, a column for each
    /// field.
    pub data: SlintNotifyModel<H, T>,
    /// For each instance and field, the bridge of the field's elements
    /// where the field is a list.
    pub lists: Vec<Vec<Option<SlintNotifyModel<H, T>>>>,
}

impl<H: PartialEq + HostValue<T>, T: Copy + PartialEq, N> Bound<H, T, N> {
    /// The parts fit each other and `hub`: there is a row and a set of
    /// list bridges for each instance, every row has a column for every
    /// field, the wiring leads to the channels of the instances, and every
    /// channel is on a slot of `hub`.
    pub open spec fn wf(&self, hub: HubView<T>) -> bool {
        &&& self.data@.wf(hub)
        &&& self.data@.rows.len() == self.instances@.len()
        &&& self.lists@.len() == self.instances@.len()
        &&& forall|i: int|
            0 <= i < self.instances@.len() ==> {
                &&& (#[trigger] self.instances@[i]).fields@.len() == self.kinds@.len()
                &&& row_wired(self.data@.wiring[i], self.instances@[i], self.kinds@)
                &&& lists_bound(self.lists@[i]@, self.instances@[i], self.kinds@)
            }
        &&& forall|i: int, f: int|
            0 <= i < self.instances@.len() && 0 <= f < self.kinds@.len() ==> match (
            #[trigger] self.instances@[i].fields@[f]) {
                Field::Values(channels) => {
                    &&& channels.start() >= 0
                    &&& channels.count() >= 0
                    &&& channels.start() + channels.count() <= hub.slots.len()
                    &&& self.kinds@[f] != FieldKind::Nested
                    &&& !is_list(self.kinds@[f]) ==> channels.count() == 1
                },
                Field::Nested(_) => self.kinds@[f] == FieldKind::Nested,
            }
        &&& blocks_apart(self.instances@)
    }
}


impl SlintModel {
    /// Makes the model ready to run: its instances on new slots of `hub`,
    /// each channel holding `initial`; the bridge of the rows, which begin
    /// as `rows`, one for each instance, with the senders of the values
    /// that the host writes behind their columns; and the bridges of the
    /// list fields. A description that is at fault is refused, and nothing
    /// is made.
    pub fn instantiate<H: PartialEq + HostValue<T>, T: Copy + PartialEq, N>(
        &self,
        hub: &mut Hub<T>,
        initial: T,
        nested: &Vec<Arc<Vec<N>>>,
        rows: Vec<Vec<H>>,
    ) -> (r: Result<Bound<H, T, N>, ModelError>)
        requires
            old(hub)@.wf(),
            nested@.len() == self.fields@.len(),
            rows@.len() == self.count(),
            forall|i: int| 0 <= i < rows@.len() ==> (#[trigger] rows@[i])@.len() == self.fields@.len(),
        ensures
            final(hub)@.wf(),
            match r {
                Ok(bound) => {
                    &&& self.valid()
                    &&& bound.wf(final(hub)@)
                    &&& bound.kinds@ == self.kinds()
                    &&& final(hub)@ == old(hub)@.open_many(self.count() * self.width(), initial)
                    &&& bound.instances@.len() == self.count()
                    &&& forall|i: int|
                        0 <= i < bound.instances@.len() ==> laid_out(
                            #[trigger] bound.instances@[i],
                            self.plain_fields(),
                            old(hub)@.slots.len() + i * self.width(),
                            nested@,
                        )
                    &&& bound.data@.rows == Seq::new(rows@.len(), |i: int| rows@[i]@)
                    &&& bound.data@.raised == Seq::<usize>::empty()
                    &&& forall|i: int, f: int|
                        0 <= i < bound.lists@.len() && 0 <= f < bound.lists@[i]@.len() && (
                        #[trigger] bound.lists@[i]@[f]) is Some ==> list_fresh(
                            bound.lists@[i]@[f]->0@,
                            H::from_native_spec(initial),
                        )
                },
                Err(e) => self.fault() == Some(e) && final(hub)@ == old(hub)@,
            },
    {
        match self.validate() {
            Err(e) => {
                return Err(e);
            },
            Ok(()) => {},
        }
        let plain = self.plain();
        let kinds = self.run_kinds();
        let instances: Vec<Instance<T, N>> = plain.build_all(hub, initial, nested);
        let ghost base = old(hub)@.slots.len() as int;
        let ghost fields = self.plain_fields();
        proof {
            assert forall|i: int, f: int|
                0 <= i < instances@.len() && 0 <= f < kinds@.len() implies match (
                #[trigger] instances@[i].fields@[f]) {
                Field::Values(channels) => {
                    &&& channels.start() >= 0
                    &&& channels.count() >= 0
                    &&& channels.start() + channels.count() <= hub@.slots.len()
                    &&& kinds@[f] != FieldKind::Nested
                    &&& !is_list(kinds@[f]) ==> channels.count() == 1
                },
                Field::Nested(_) => kinds@[f] == FieldKind::Nested,
            } by {
                assert(laid_out(instances@[i], fields, base + i * self.width(), nested@));
                lemma_blocks_in_range(fields, self.count() as int, i, f);
                assert(fields[f] == self.fields@[f].as_plain());
            }
        }
        let mut wiring: Vec<Vec<Option<Sender<T>>>> = Vec::new();
        let mut lists: Vec<Vec<Option<SlintNotifyModel<H, T>>>> = Vec::new();
        let mut i: usize = 0;
        while i < instances.len()
            invariant
                i <= instances@.len(),
                wiring@.len() == i,
                lists@.len() == i,
                forall|k: int|
                    0 <= k < instances@.len() ==> (#[trigger] instances@[k]).fields@.len()
                        == kinds@.len(),
                forall|k: int|
                    0 <= k < i ==> row_wired((#[trigger] wiring@[k])@, instances@[k], kinds@),
                forall|k: int|
                    0 <= k < i ==> lists_bound((#[trigger] lists@[k])@, instances@[k], kinds@),
                forall|k: int, f: int|
                    0 <= k < i && 0 <= f < lists@[k]@.len() && (#[trigger] lists@[k]@[f]) is Some
                        ==> list_fresh(lists@[k]@[f]->0@, H::from_native_spec(initial)),
            decreases instances@.len() - i,
        {
            wiring.push(wire_row(&instances[i], &kinds));
            lists.push(element_lists(&instances[i], &kinds, initial));
            i += 1;
        }
        let data = SlintNotifyModel::new(rows, wiring);
        let bound = Bound { kinds, instances: Arc::new(instances), data, lists };
        proof {
            law_instances_apart(bound.instances@, fields, base, nested@);
            assert forall|r: int, c: int|
                0 <= r < bound.data@.wiring.len() && 0 <= c < bound.data@.wiring[r].len() && (
                #[trigger] bound.data@.wiring[r][c]) is Some implies hub@.has(
                bound.data@.wiring[r][c]->0.slot(),
            ) by {
                assert(row_wired(bound.data@.wiring[r], bound.instances@[r], bound.kinds@));
                assert(wired(bound.instances@[r], bound.kinds@, c));
                assert(bound.instances@[r].fields@[c] is Values);
            }
            assert(bound.data@.wf(hub@));
        }
        Ok(bound)
    }
}


impl<H: PartialEq + HostValue<T>, T: Copy + PartialEq, N> Bound<H, T, N> {
    /// The slot of the channel of element `e` of field `f` of instance
    /// `i`.
    pub open spec fn slot(&self, i: int, f: int, e: int) -> int {
        self.instances@[i].fields@[f]->Values_0.start() + e
    }

    /// The host raises the signal `field` for the instance at `index`: the
    /// signal's channel is published to, with the value it holds. For a
    /// field that is no signal, or an instance that does not exist,
    /// nothing happens.
    pub fn host_signal(&self, hub: &mut Hub<T>, field: usize, index: usize)
        requires
            old(hub)@.wf(),
            self.wf(old(hub)@),
        ensures
            final(hub)@.wf(),
            self.wf(final(hub)@),
            final(hub)@ == if field < self.kinds@.len() && self.kinds@[field as int]
                == FieldKind::Signal && index < self.instances@.len() {
                old(hub)@.publish(
                    self.slot(index as int, field as int, 0),
                    old(hub)@.value(self.slot(index as int, field as int, 0)),
                )
            } else {
                old(hub)@
            },
    {
        if field < self.kinds.len() && index < self.instances.len() {
            assert(self.instances@[index as int].fields@.len() == self.kinds@.len());
            match (self.kinds[field], &self.instances[index].fields[field]) {
                (FieldKind::Signal, Field::Values(channels)) => {
                    match channels.get(0) {
                        Some(property) => {
                            property.sender().notify(hub);
                            proof {
                                self.lemma_wf_keeps(old(hub)@, hub@);
                            }
                        },
                        None => {
                            assert(false);
                        },
                    }
                },
                (FieldKind::Signal, Field::Nested(_)) => {
                    assert(false);
                },
                _ => {},
            }
        }
    }

    /// The parts fit any hub that has at least the slots of a hub they fit.
    pub proof fn lemma_wf_keeps(&self, before: HubView<T>, after: HubView<T>)
        requires
            self.wf(before),
            before.slots.len() <= after.slots.len(),
        ensures
            self.wf(after),
    {
        assert forall|i: int, f: int|
            0 <= i < self.instances@.len() && 0 <= f < self.kinds@.len() implies match (
            #[trigger] self.instances@[i].fields@[f]) {
            Field::Values(channels) => {
                &&& channels.start() >= 0
                &&& channels.count() >= 0
                &&& channels.start() + channels.count() <= after.slots.len()
                &&& self.kinds@[f] != FieldKind::Nested
                &&& !is_list(self.kinds@[f]) ==> channels.count() == 1
            },
            Field::Nested(_) => self.kinds@[f] == FieldKind::Nested,
        } by {
        }
    }

    /// Where the channel on `slot` belongs: the instance, the field and
    /// the element. A slot belongs to at most one channel of the model.
    pub fn locate(&self, hub: &Hub<T>, slot: usize) -> (r: Option<(usize, usize, usize)>)
        requires
            self.wf(hub@),
        ensures
            match r {
                Some((i, f, e)) => self.holds(i as int, f as int, e as int, slot as int),
                None => forall|i: int, f: int, e: int| !self.holds(i, f, e, slot as int),
            },
    {
        let mut i: usize = 0;
        while i < self.instances.len()
            invariant
                i <= self.instances@.len(),
                self.wf(hub@),
                forall|k: int, f: int, e: int| 0 <= k < i ==> !self.holds(k, f, e, slot as int),
            decreases self.instances@.len() - i,
        {
            let instance = &self.instances[i];
            let mut f: usize = 0;
            while f < instance.fields.len()
                invariant
                    f <= instance.fields@.len(),
                    i < self.instances@.len(),
                    *instance == self.instances@[i as int],
                    self.wf(hub@),
                    forall|k: int, g: int, e: int| 0 <= k < i ==> !self.holds(k, g, e, slot as int),
                    forall|g: int, e: int| 0 <= g < f ==> !self.holds(i as int, g, e, slot as int),
                decreases instance.fields@.len() - f,
            {
                match &instance.fields[f] {
                    Field::Values(channels) => {
                        let start = channels.first();
                        let len = channels.len();
                        if start <= slot && slot - start < len {
                            return Some((i, f, slot - start));
                        }
                    },
                    Field::Nested(_) => {},
                }
                f += 1;
            }
            i += 1;
        }
        None
    }

    /// The channel of element `e` of field `f` of instance `i` is on
    /// `slot`.
    pub open spec fn holds(&self, i: int, f: int, e: int, slot: int) -> bool {
        &&& 0 <= i < self.instances@.len()
        &&& 0 <= f < self.instances@[i].fields@.len()
        &&& self.instances@[i].fields@[f] is Values
        &&& 0 <= e < self.instances@[i].fields@[f]->Values_0.count()
        &&& self.slot(i, f, e) == slot
    }

    /// A slot belongs to at most one channel of the model.
    pub proof fn lemma_holds_once(&self, hub: HubView<T>, slot: int, i: int, f: int, e: int, j: int, g: int, d: int)
        requires
            self.wf(hub),
            self.holds(i, f, e, slot),
            self.holds(j, g, d, slot),
        ensures
            i == j,
            f == g,
            e == d,
    {
        if i != j || f != g {
            let a = self.instances@[i].fields@[f];
            let b = self.instances@[j].fields@[g];
            assert(a is Values && b is Values);
        }
    }
}


impl<H: PartialEq + HostValue<T>, T: Copy + PartialEq, N> Bound<H, T, N> {
    /// The host writes `row` to the row of the instance at `index`: see
    /// [`SlintNotifyModel::set_row_data`].
    pub fn set_row_data(&mut self, hub: &mut Hub<T>, index: usize, row: Vec<H>)
        requires
            old(hub)@.wf(),
            old(self).wf(old(hub)@),
            index < old(self).instances@.len() ==> row@.len() == old(self).kinds@.len(),
        ensures
            final(hub)@.wf(),
            final(self).wf(final(hub)@),
            final(self).kinds == old(self).kinds,
            final(self).instances == old(self).instances,
            final(self).lists == old(self).lists,
            H::obeys_eq_spec() ==> final(self).data@ == old(self).data@.host_write(
                index as int,
                row@,
            ),
            H::obeys_eq_spec() ==> final(hub)@ == old(self).data@.host_forward(
                old(hub)@,
                index as int,
                row@,
            ),
    {
        proof {
            if index < self.instances@.len() {
                assert(row_wired(
                    self.data@.wiring[index as int],
                    self.instances@[index as int],
                    self.kinds@,
                ));
                assert(self.data@.rows[index as int].len() == self.data@.wiring[index as int].len());
            }
        }
        self.data.set_row_data(hub, index, row);
        proof {
            old(self).lemma_wf_keeps(old(hub)@, hub@);
        }
    }
}


impl<H: PartialEq + HostValue<T>, T: Copy + PartialEq, N> Bound<H, T, N> {
    /// Whether the instance at `i` has a list field at `f`.
    pub open spec fn has_list(&self, i: int, f: int) -> bool {
        &&& 0 <= i < self.instances@.len()
        &&& 0 <= f < self.kinds@.len()
        &&& is_list(self.kinds@[f])
        &&& self.instances@[i].fields@[f] is Values
    }

    /// The bridge of the list field `f` of instance `i`.
    pub open spec fn list(&self, i: int, f: int) -> BridgeView<H, T> {
        self.lists@[i]@[f]->0@
    }

    /// All but the list bridge at field `f` of instance `i` is as it is in
    /// `before`.
    pub open spec fn same_but_list(&self, before: &Self, i: int, f: int) -> bool {
        &&& self.kinds == before.kinds
        &&& self.instances == before.instances
        &&& self.data == before.data
        &&& self.lists@.len() == before.lists@.len()
        &&& forall|j: int|
            0 <= j < self.lists@.len() ==> (#[trigger] self.lists@[j])@.len()
                == before.lists@[j]@.len()
        &&& forall|j: int, g: int|
            0 <= j < self.lists@.len() && 0 <= g < self.lists@[j]@.len() && (j != i || g != f)
                ==> (#[trigger] self.lists@[j]@[g]) == before.lists@[j]@[g]
    }

    /// The bridge of a list field fits `hub`.
    proof fn lemma_list_wf(&self, hub: HubView<T>, i: int, f: int)
        requires
            self.wf(hub),
            self.has_list(i, f),
        ensures
            self.lists@[i]@[f] is Some,
            self.list(i, f).wf(hub),
            list_bound(
                self.list(i, f),
                self.instances@[i].fields@[f]->Values_0,
                self.kinds@[f] == FieldKind::InArray,
            ),
    {
        assert(lists_bound(self.lists@[i]@, self.instances@[i], self.kinds@));
        let list = self.list(i, f);
        let channels = self.instances@[i].fields@[f]->Values_0;
        assert(self.instances@[i].fields@[f] == Field::<T, N>::Values(channels));
        assert forall|r: int, c: int|
            0 <= r < list.wiring.len() && 0 <= c < list.wiring[r].len() && (
            #[trigger] list.wiring[r][c]) is Some implies hub.has(list.wiring[r][c]->0.slot()) by {
            assert(list.rows[r].len() == 1);
        }
        assert forall|r: int| 0 <= r < list.rows.len() implies (#[trigger] list.rows[r]).len()
            == list.wiring[r].len() by {
        }
    }

    /// The host writes `value` to element `element` of the list field
    /// `field` of the instance at `index`. The element is held against the
    /// last known one as a row of one column is: see
    /// [`SlintNotifyModel::set_row_data`]. Where there is no such list,
    /// nothing happens.
    pub fn set_element(&mut self, hub: &mut Hub<T>, index: usize, field: usize, element: usize, value: H)
        requires
            old(hub)@.wf(),
            old(self).wf(old(hub)@),
        ensures
            final(hub)@.wf(),
            final(self).wf(final(hub)@),
            final(self).same_but_list(old(self), index as int, field as int),
            !old(self).has_list(index as int, field as int) ==> *final(self) == *old(self)
                && final(hub)@ == old(hub)@,
            old(self).has_list(index as int, field as int) ==> {
                &&& final(self).has_list(index as int, field as int)
                &&& final(self).lists@[index as int]@[field as int] is Some
                &&& H::obeys_eq_spec() ==> final(self).list(index as int, field as int) == old(
                    self,
                ).list(index as int, field as int).host_write(element as int, seq![value])
                &&& H::obeys_eq_spec() ==> final(hub)@ == old(self).list(
                    index as int,
                    field as int,
                ).host_forward(old(hub)@, element as int, seq![value])
            },
    {
        if index >= self.instances.len() || field >= self.kinds.len() {
            return ;
        }
        assert(lists_bound(self.lists@[index as int]@, self.instances@[index as int], self.kinds@));
        if self.lists[index][field].is_none() {
            return ;
        }
        let mut taken: Option<SlintNotifyModel<H, T>> = None;
        core::mem::swap(&mut taken, &mut self.lists[index][field]);
        match taken {
            Some(mut list) => {
                proof {
                    old(self).lemma_list_wf(old(hub)@, index as int, field as int);
                }
                let mut row: Vec<H> = Vec::new();
                row.push(value);
                assert(row@ =~= seq![value]);
                list.set_row_data(hub, element, row);
                self.lists[index].set(field, Some(list));
                proof {
                    assert(self.instances@[index as int] == old(self).instances@[index as int]);
                    assert forall|i: int| 0 <= i < self.instances@.len() implies lists_bound(
                        (#[trigger] self.lists@[i])@,
                        self.instances@[i],
                        self.kinds@,
                    ) by {
                        assert(lists_bound(
                            old(self).lists@[i]@,
                            old(self).instances@[i],
                            old(self).kinds@,
                        ));
                        if i == index {
                            let before = old(self).lists@[i]@;
                            let after = self.lists@[i]@;
                            assert(after.len() == before.len());
                            assert forall|f: int| 0 <= f < self.kinds@.len() implies if is_list(
                                self.kinds@[f],
                            ) && self.instances@[i].fields@[f] is Values {
                                (#[trigger] after[f]) is Some && list_bound(
                                    after[f]->0@,
                                    self.instances@[i].fields@[f]->Values_0,
                                    self.kinds@[f] == FieldKind::InArray,
                                )
                            } else {
                                after[f] is None
                            } by {
                                if f != field {
                                    assert(after[f] == before[f]);
                                } else {
                                    assert(after[f] == Some(list));
                                }
                            }
                        } else {
                            assert(self.lists@[i] == old(self).lists@[i]);
                        }
                    }
                    old(self).lemma_wf_keeps(old(hub)@, hub@);
                }
            },
            None => {
                assert(false);
            },
        }
    }
}


impl<H: PartialEq + HostValue<T>, T: Copy + PartialEq, N> Bound<H, T, N> {
    /// Carries out a setter call that a publish has scheduled. For the
    /// channel of a value that native code writes, the value is written
    /// through to the field's column of the instance's row; for an element
    /// of a list that native code writes, to that element of the list. The
    /// setter of any other channel does nothing.
    pub fn deliver(&mut self, hub: &Hub<T>, call: SetterCall<T>)
        requires
            old(self).wf(hub@),
        ensures
            final(self).wf(hub@),
            final(self).kinds == old(self).kinds,
            final(self).instances == old(self).instances,
            forall|i: int, f: int, e: int| #[trigger]
                old(self).holds(i, f, e, call.slot as int) ==> match old(self).kinds@[f] {
                    FieldKind::Out => {
                        &&& final(self).lists == old(self).lists
                        &&& final(self).data@ == old(self).data@.native_write(
                            i,
                            f,
                            H::from_native_spec(call.value),
                        )
                    },
                    FieldKind::OutArray => {
                        &&& final(self).same_but_list(old(self), i, f)
                        &&& final(self).lists@[i]@[f] is Some
                        &&& final(self).list(i, f) == old(self).list(i, f).native_write(
                            e,
                            0,
                            H::from_native_spec(call.value),
                        )
                    },
                    _ => *final(self) == *old(self),
                },
            (forall|i: int, f: int, e: int| !old(self).holds(i, f, e, call.slot as int))
                ==> *final(self) == *old(self),
    {
        let (i, f, e) = match self.locate(hub, call.slot) {
            Some(place) => place,
            None => {
                return ;
            },
        };
        proof {
            assert forall|j: int, g: int, d: int| #[trigger]
                old(self).holds(j, g, d, call.slot as int) implies j == i && g == f && d == e by {
                old(self).lemma_holds_once(hub@, call.slot as int, i as int, f as int, e as int, j, g, d);
            }
        }
        assert(self.instances@[i as int].fields@.len() == self.kinds@.len());
        match self.kinds[f] {
            FieldKind::Out => {
                self.data.apply_native_write(i, f, H::from_native(call.value));
            },
            FieldKind::OutArray => {
                assert(lists_bound(self.lists@[i as int]@, self.instances@[i as int], self.kinds@));
                let mut taken: Option<SlintNotifyModel<H, T>> = None;
                core::mem::swap(&mut taken, &mut self.lists[i][f]);
                match taken {
                    Some(mut list) => {
                        proof {
                            old(self).lemma_list_wf(hub@, i as int, f as int);
                        }
                        list.apply_native_write(e, 0, H::from_native(call.value));
                        self.lists[i].set(f, Some(list));
                        proof {
                            assert forall|k: int| 0 <= k < self.instances@.len() implies lists_bound(
                                (#[trigger] self.lists@[k])@,
                                self.instances@[k],
                                self.kinds@,
                            ) by {
                                assert(lists_bound(
                                    old(self).lists@[k]@,
                                    old(self).instances@[k],
                                    old(self).kinds@,
                                ));
                                if k == i {
                                    let before = old(self).lists@[k]@;
                                    let after = self.lists@[k]@;
                                    assert forall|g: int| 0 <= g < self.kinds@.len() implies if is_list(
                                        self.kinds@[g],
                                    ) && self.instances@[k].fields@[g] is Values {
                                        (#[trigger] after[g]) is Some && list_bound(
                                            after[g]->0@,
                                            self.instances@[k].fields@[g]->Values_0,
                                            self.kinds@[g] == FieldKind::InArray,
                                        )
                                    } else {
                                        after[g] is None
                                    } by {
                                        if g != f {
                                            assert(after[g] == before[g]);
                                        } else {
                                            assert(after[g] == Some(list));
                                        }
                                    }
                                } else {
                                    assert(self.lists@[k] == old(self).lists@[k]);
                                }
                            }
                        }
                    },
                    None => {
                        assert(false);
                    },
                }
            },
            _ => {},
        }
    }
}


/// Whether native code publishes to the channels of a field of this kind.
pub open spec fn native_writes(kind: FieldKind) -> bool {
    kind == FieldKind::Out || kind == FieldKind::OutArray
}

impl<H: PartialEq + HostValue<T>, T: Copy + PartialEq, N> Bound<H, T, N> {
    /// The publishing end of element `element` of field `field` of the
    /// instance at `index`. There is one for the values and lists that
    /// native code writes, and for no other field.
    pub fn sender(&self, hub: &Hub<T>, index: usize, field: usize, element: usize) -> (s: Option<Sender<T>>)
        requires
            self.wf(hub@),
        ensures
            match s {
                Some(sender) => {
                    &&& self.holds(index as int, field as int, element as int, sender.slot())
                    &&& native_writes(self.kinds@[field as int])
                    &&& hub@.has(sender.slot())
                },
                None => !(exists|slot: int| self.holds(index as int, field as int, element as int, slot))
                    || !native_writes(self.kinds@[field as int]),
            },
    {
        if index >= self.instances.len() || field >= self.kinds.len() {
            return None;
        }
        assert(self.instances@[index as int].fields@.len() == self.kinds@.len());
        match (self.kinds[field], &self.instances[index].fields[field]) {
            (FieldKind::Out, Field::Values(channels)) | (FieldKind::OutArray, Field::Values(channels)) => {
                match channels.get(element) {
                    Some(property) => Some(*property.sender()),
                    None => None,
                }
            },
            _ => None,
        }
    }

    /// The observing end of element `element` of field `field` of the
    /// instance at `index`. There is one for the signals, values and lists
    /// that the host writes, and for no other field.
    pub fn receiver(&self, hub: &Hub<T>, index: usize, field: usize, element: usize) -> (r: Option<Receiver<T>>)
        requires
            self.wf(hub@),
        ensures
            match r {
                Some(receiver) => {
                    &&& self.holds(index as int, field as int, element as int, receiver.slot())
                    &&& !native_writes(self.kinds@[field as int])
                    &&& receiver.seen() == 0
                    &&& hub@.has(receiver.slot())
                },
                None => !(exists|slot: int| self.holds(index as int, field as int, element as int, slot))
                    || native_writes(self.kinds@[field as int]),
            },
    {
        if index >= self.instances.len() || field >= self.kinds.len() {
            return None;
        }
        assert(self.instances@[index as int].fields@.len() == self.kinds@.len());
        match (self.kinds[field], &self.instances[index].fields[field]) {
            (FieldKind::In, Field::Values(channels))
            | (FieldKind::InArray, Field::Values(channels))
            | (FieldKind::Signal, Field::Values(channels)) => {
                match channels.get(element) {
                    Some(property) => Some(*property.receiver()),
                    None => None,
                }
            },
            _ => None,
        }
    }
}

/// What a fetch of a host-bound model hands out.
pub struct Fetched<H, T, N> {
    /// The shared instances.
    pub instances: Arc<Vec<Instance<T, N>>>,
    /// On the first fetch, the model ready to run, for the host to hold;
    /// on any later one, nothing.
    pub bound: Option<Bound<H, T, N>>,
}

impl SlintModel {
    /// The shared instances of the model for `key`. On the first access
    /// the model is made ready to run, as by [`SlintModel::instantiate`],
    /// and its instances are kept in `registry`; every later access is
    /// handed the same instances, and neither the hub nor the registry
    /// changes. The host of `key` has to be registered in `hosts` before a
    /// model bound to it is fetched.
    pub fn clone_singleton<C, H: PartialEq + HostValue<T>, T: Copy + PartialEq, N>(
        &self,
        registry: &mut Registry<Arc<Vec<Instance<T, N>>>>,
        hosts: &SlintSingleton<C>,
        key: Key,
        hub: &mut Hub<T>,
        initial: T,
        nested: &Vec<Arc<Vec<N>>>,
        rows: Vec<Vec<H>>,
    ) -> (r: Result<Fetched<H, T, N>, ModelError>)
        requires
            hosts@.contains_key(key.host),
            old(hub)@.wf(),
            nested@.len() == self.fields@.len(),
            !old(registry)@.contains_key(key) ==> {
                &&& rows@.len() == self.count()
                &&& forall|i: int|
                    0 <= i < rows@.len() ==> (#[trigger] rows@[i])@.len() == self.fields@.len()
            },
        ensures
            final(hub)@.wf(),
            match r {
                Ok(fetched) => {
                    &&& final(registry)@.contains_key(key)
                    &&& final(registry)@[key] == fetched.instances
                    &&& old(registry)@.contains_key(key) ==> {
                        &&& fetched.bound is None
                        &&& final(registry)@ == old(registry)@
                        &&& final(hub)@ == old(hub)@
                    }
                    &&& !old(registry)@.contains_key(key) ==> {
                        &&& self.valid()
                        &&& fetched.bound is Some
                        &&& fetched.bound->0.instances == fetched.instances
                        &&& fetched.bound->0.wf(final(hub)@)
                        &&& fetched.bound->0.kinds@ == self.kinds()
                        &&& fetched.bound->0.data@.rows == Seq::new(rows@.len(), |i: int| rows@[i]@)
                        &&& final(registry)@ == old(registry)@.insert(key, fetched.instances)
                        &&& final(hub)@ == old(hub)@.open_many(
                            self.count() * self.width(),
                            initial,
                        )
                        &&& fetched.instances@.len() == self.count()
                        &&& forall|i: int|
                            0 <= i < fetched.instances@.len() ==> laid_out(
                                #[trigger] fetched.instances@[i],
                                self.plain_fields(),
                                old(hub)@.slots.len() + i * self.width(),
                                nested@,
                            )
                    }
                },
                Err(e) => {
                    &&& !old(registry)@.contains_key(key)
                    &&& self.fault() == Some(e)
                    &&& final(registry)@ == old(registry)@
                    &&& final(hub)@ == old(hub)@
                },
            },
    {
        match registry.get(key) {
            Some(shared) => {
                return Ok(Fetched { instances: share(shared), bound: None });
            },
            None => {},
        }
        match self.instantiate(hub, initial, nested, rows) {
            Err(e) => Err(e),
            Ok(bound) => {
                let kept = registry.clone_singleton(key, share(&bound.instances));
                Ok(Fetched { instances: share(kept), bound: Some(bound) })
            },
        }
    }
}

} // verus!
