//! Models: named bundles of channels. A model hands out views of itself
//! that hold only the publishing or only the observing ends.

use core::marker::PhantomData;
use std::sync::Arc;
use vstd::prelude::*;
use crate::parser::{first_fault, FieldLen, ModelError, ModelField};
use crate::property::{Hub, HubView, Property, Receiver, Sender};
use crate::slint::singleton::{Key, Registry};

verus! {

/// A bundle of channels that can hand out its publishing ends and its
/// observing ends. The views share the state behind the model: nothing is
/// duplicated.
pub trait Model: Sized {
    type Sender;

    type Receiver;

    /// `view` holds the publishing ends of this model, in the model's
    /// shape, and nothing else.
    spec fn sends_through(&self, view: &Self::Sender) -> bool;

    /// `view` holds the observing ends of this model, in the model's
    /// shape, and nothing else.
    spec fn receives_through(&self, view: &Self::Receiver) -> bool;

    fn clone_sender(&self) -> (s: Self::Sender)
        ensures
            self.sends_through(&s),
    ;

    fn clone_receiver(&self) -> (r: Self::Receiver)
        ensures
            self.receives_through(&r),
    ;
}

/// A list of models, seen as one.
pub trait ModelList {
    type Model: Model;

    /// The models, in order.
    spec fn models(&self) -> Seq<Self::Model>;

    /// The sender views of the models, in order.
    fn clone_senders(&self) -> (s: Vec<<Self::Model as Model>::Sender>)
        ensures
            s@.len() == self.models().len(),
            forall|i: int| 0 <= i < s@.len() ==> (#[trigger] self.models()[i]).sends_through(&s@[i]),
    ;

    /// The receiver views of the models, in order.
    fn clone_receivers(&self) -> (r: Vec<<Self::Model as Model>::Receiver>)
        ensures
            r@.len() == self.models().len(),
            forall|i: int|
                0 <= i < r@.len() ==> (#[trigger] self.models()[i]).receives_through(&r@[i]),
    ;
}

impl<M: Model> ModelList for [M] {
    type Model = M;

    open spec fn models(&self) -> Seq<M> {
        self@
    }

    fn clone_senders(&self) -> (s: Vec<M::Sender>) {
        let mut out: Vec<M::Sender> = Vec::new();
        let mut i: usize = 0;
        while i < self.len()
            invariant
                i <= self@.len(),
                out@.len() == i,
                forall|k: int| 0 <= k < i ==> (#[trigger] self@[k]).sends_through(&out@[k]),
            decreases self@.len() - i,
        {
            out.push(self[i].clone_sender());
            i += 1;
        }
        out
    }

    fn clone_receivers(&self) -> (r: Vec<M::Receiver>) {
        let mut out: Vec<M::Receiver> = Vec::new();
        let mut i: usize = 0;
        while i < self.len()
            invariant
                i <= self@.len(),
                out@.len() == i,
                forall|k: int| 0 <= k < i ==> (#[trigger] self@[k]).receives_through(&out@[k]),
            decreases self@.len() - i,
        {
            out.push(self[i].clone_receiver());
            i += 1;
        }
        out
    }
}

impl<M: Model> Model for Arc<M> {
    type Sender = M::Sender;

    type Receiver = M::Receiver;

    open spec fn sends_through(&self, view: &M::Sender) -> bool {
        (**self).sends_through(view)
    }

    open spec fn receives_through(&self, view: &M::Receiver) -> bool {
        (**self).receives_through(view)
    }

    fn clone_sender(&self) -> (s: M::Sender) {
        (**self).clone_sender()
    }

    fn clone_receiver(&self) -> (r: M::Receiver) {
        (**self).clone_receiver()
    }
}

/// A single channel is the smallest model.
impl<T> Model for Property<T> {
    type Sender = Sender<T>;

    type Receiver = Receiver<T>;

    open spec fn sends_through(&self, view: &Sender<T>) -> bool {
        *view == self.sender_end()
    }

    open spec fn receives_through(&self, view: &Receiver<T>) -> bool {
        *view == self.receiver_end()
    }

    fn clone_sender(&self) -> (s: Sender<T>) {
        *self.sender()
    }

    fn clone_receiver(&self) -> (r: Receiver<T>) {
        *self.receiver()
    }
}

/// The channels of one field: one for each element, on slots that stand
/// one after the other.
pub struct Channels<T> {
    start: usize,
    len: usize,
    marker: PhantomData<T>,
}

/// The publishing ends of the channels of one field.
pub struct Senders<T> {
    start: usize,
    len: usize,
    marker: PhantomData<T>,
}

/// The observing ends of the channels of one field.
pub struct Receivers<T> {
    start: usize,
    len: usize,
    marker: PhantomData<T>,
}

impl<T> Clone for Channels<T> {
    fn clone(&self) -> (c: Self)
        ensures
            c == *self,
    {
        proof {
            use_type_invariant(self);
        }
        Channels { start: self.start, len: self.len, marker: PhantomData }
    }
}

impl<T> Copy for Channels<T> {

}

impl<T> Clone for Senders<T> {
    fn clone(&self) -> (c: Self)
        ensures
            c == *self,
    {
        proof {
            use_type_invariant(self);
        }
        Senders { start: self.start, len: self.len, marker: PhantomData }
    }
}

impl<T> Copy for Senders<T> {

}

impl<T> Clone for Receivers<T> {
    fn clone(&self) -> (c: Self)
        ensures
            c == *self,
    {
        proof {
            use_type_invariant(self);
        }
        Receivers { start: self.start, len: self.len, marker: PhantomData }
    }
}

impl<T> Copy for Receivers<T> {

}

impl<T> Channels<T> {
    #[verifier::type_invariant]
    spec fn bounded(&self) -> bool {
        self.start + self.len <= usize::MAX
    }

    /// The slot of the first element.
    pub closed spec fn start(&self) -> int {
        self.start as int
    }

    /// The number of elements.
    pub closed spec fn count(&self) -> int {
        self.len as int
    }

    /// The number of elements.
    pub fn len(&self) -> (n: usize)
        ensures
            n == self.count(),
    {
        self.len
    }

    /// The slot of the first element.
    pub fn first(&self) -> (slot: usize)
        ensures
            slot == self.start(),
            self.start() + self.count() <= usize::MAX,
    {
        proof {
            use_type_invariant(self);
        }
        self.start
    }

    /// The channel of element `i`, if there is such an element: it is on
    /// the slot `i` places after the first.
    pub fn get(&self, i: usize) -> (p: Option<Property<T>>)
        ensures
            i < self.count() ==> p is Some && p->0.slot() == self.start() + i && p->0.seen() == 0,
            i >= self.count() ==> p is None,
    {
        proof {
            use_type_invariant(self);
        }
        if i < self.len {
            Some(Property::at(self.start + i))
        } else {
            None
        }
    }
}

impl<T: Copy> Channels<T> {
    /// Makes `len` channels on new slots of `hub` that all hold `initial`.
    /// No setter call is scheduled.
    pub fn new(hub: &mut Hub<T>, len: usize, initial: T) -> (channels: Self)
        requires
            old(hub)@.wf(),
        ensures
            final(hub)@ == old(hub)@.open_many(len as nat, initial),
            final(hub)@.wf(),
            channels.start() == old(hub)@.slots.len(),
            channels.count() == len,
    {
        let start = hub.open_many(len, initial);
        Channels { start, len, marker: PhantomData }
    }
}

impl<T> Senders<T> {
    #[verifier::type_invariant]
    spec fn bounded(&self) -> bool {
        self.start + self.len <= usize::MAX
    }

    /// The slot of the first element.
    pub closed spec fn start(&self) -> int {
        self.start as int
    }

    /// The number of elements.
    pub closed spec fn count(&self) -> int {
        self.len as int
    }

    /// The number of elements.
    pub fn len(&self) -> (n: usize)
        ensures
            n == self.count(),
    {
        self.len
    }

    /// The publishing end of element `i`, if there is such an element.
    pub fn get(&self, i: usize) -> (s: Option<Sender<T>>)
        ensures
            i < self.count() ==> s is Some && s->0.slot() == self.start() + i,
            i >= self.count() ==> s is None,
    {
        proof {
            use_type_invariant(self);
        }
        if i < self.len {
            Some(Sender::at(self.start + i))
        } else {
            None
        }
    }
}

impl<T> Receivers<T> {
    #[verifier::type_invariant]
    spec fn bounded(&self) -> bool {
        self.start + self.len <= usize::MAX
    }

    /// The slot of the first element.
    pub closed spec fn start(&self) -> int {
        self.start as int
    }

    /// The number of elements.
    pub closed spec fn count(&self) -> int {
        self.len as int
    }

    /// The number of elements.
    pub fn len(&self) -> (n: usize)
        ensures
            n == self.count(),
    {
        self.len
    }

    /// The observing end of element `i`, if there is such an element. It
    /// has taken note of the version the slot was made with.
    pub fn get(&self, i: usize) -> (r: Option<Receiver<T>>)
        ensures
            i < self.count() ==> r is Some && r->0.slot() == self.start() + i && r->0.seen() == 0,
            i >= self.count() ==> r is None,
    {
        proof {
            use_type_invariant(self);
        }
        if i < self.len {
            Some(Receiver::at(self.start + i))
        } else {
            None
        }
    }
}

impl<T> Model for Channels<T> {
    type Sender = Senders<T>;

    type Receiver = Receivers<T>;

    open spec fn sends_through(&self, view: &Senders<T>) -> bool {
        view.start() == self.start() && view.count() == self.count()
    }

    open spec fn receives_through(&self, view: &Receivers<T>) -> bool {
        view.start() == self.start() && view.count() == self.count()
    }

    fn clone_sender(&self) -> (s: Senders<T>) {
        proof {
            use_type_invariant(self);
        }
        Senders { start: self.start, len: self.len, marker: PhantomData }
    }

    fn clone_receiver(&self) -> (r: Receivers<T>) {
        proof {
            use_type_invariant(self);
        }
        Receivers { start: self.start, len: self.len, marker: PhantomData }
    }
}


/// `Arc::clone` makes another pointer to the same allocation: the clone
/// points to the value that the first pointer points to.
#[verifier::external_body]
pub(crate) fn share<V>(shared: &Arc<V>) -> (r: Arc<V>)
    ensures
        r == *shared,
{
    shared.clone()
}

/// One field of one instance of a model.
pub enum Field<T, N> {
    /// A field of values: its channels, one for each element.
    Values(Channels<T>),
    /// A nested model: its instances, shared with every other holder.
    Nested(Arc<Vec<N>>),
}

/// The publishing ends of one field.
pub enum FieldSender<T, S> {
    Values(Senders<T>),
    Nested(Vec<S>),
}

/// The observing ends of one field.
pub enum FieldReceiver<T, R> {
    Values(Receivers<T>),
    Nested(Vec<R>),
}

/// One instance of a model: its fields in the order of the description.
pub struct Instance<T, N> {
    pub fields: Vec<Field<T, N>>,
}

/// The publishing ends of one instance, in the instance's shape.
pub struct InstanceSender<T, S> {
    pub fields: Vec<FieldSender<T, S>>,
}

/// The observing ends of one instance, in the instance's shape.
pub struct InstanceReceiver<T, R> {
    pub fields: Vec<FieldReceiver<T, R>>,
}

impl<T, N: Model> Field<T, N> {
    /// `view` holds the publishing ends of this field.
    pub open spec fn sends_through(&self, view: &FieldSender<T, N::Sender>) -> bool {
        match (*self, *view) {
            (Field::Values(c), FieldSender::Values(s)) => c.sends_through(&s),
            (Field::Nested(models), FieldSender::Nested(views)) => {
                &&& views@.len() == models@.len()
                &&& forall|i: int|
                    0 <= i < views@.len() ==> (#[trigger] models@[i]).sends_through(&views@[i])
            },
            _ => false,
        }
    }

    /// `view` holds the observing ends of this field.
    pub open spec fn receives_through(&self, view: &FieldReceiver<T, N::Receiver>) -> bool {
        match (*self, *view) {
            (Field::Values(c), FieldReceiver::Values(r)) => c.receives_through(&r),
            (Field::Nested(models), FieldReceiver::Nested(views)) => {
                &&& views@.len() == models@.len()
                &&& forall|i: int|
                    0 <= i < views@.len() ==> (#[trigger] models@[i]).receives_through(&views@[i])
            },
            _ => false,
        }
    }
}

impl<T, N: Model> Model for Instance<T, N> {
    type Sender = InstanceSender<T, N::Sender>;

    type Receiver = InstanceReceiver<T, N::Receiver>;

    open spec fn sends_through(&self, view: &InstanceSender<T, N::Sender>) -> bool {
        &&& view.fields@.len() == self.fields@.len()
        &&& forall|f: int|
            0 <= f < self.fields@.len() ==> (#[trigger] self.fields@[f]).sends_through(
                &view.fields@[f],
            )
    }

    open spec fn receives_through(&self, view: &InstanceReceiver<T, N::Receiver>) -> bool {
        &&& view.fields@.len() == self.fields@.len()
        &&& forall|f: int|
            0 <= f < self.fields@.len() ==> (#[trigger] self.fields@[f]).receives_through(
                &view.fields@[f],
            )
    }

    fn clone_sender(&self) -> (s: InstanceSender<T, N::Sender>) {
        let mut fields: Vec<FieldSender<T, N::Sender>> = Vec::new();
        let mut f: usize = 0;
        while f < self.fields.len()
            invariant
                f <= self.fields@.len(),
                fields@.len() == f,
                forall|k: int| 0 <= k < f ==> (#[trigger] self.fields@[k]).sends_through(&fields@[k]),
            decreases self.fields@.len() - f,
        {
            let view = match &self.fields[f] {
                Field::Values(channels) => FieldSender::Values(channels.clone_sender()),
                Field::Nested(models) => FieldSender::Nested(models.as_slice().clone_senders()),
            };
            fields.push(view);
            f += 1;
        }
        InstanceSender { fields }
    }

    fn clone_receiver(&self) -> (r: InstanceReceiver<T, N::Receiver>) {
        let mut fields: Vec<FieldReceiver<T, N::Receiver>> = Vec::new();
        let mut f: usize = 0;
        while f < self.fields.len()
            invariant
                f <= self.fields@.len(),
                fields@.len() == f,
                forall|k: int|
                    0 <= k < f ==> (#[trigger] self.fields@[k]).receives_through(&fields@[k]),
            decreases self.fields@.len() - f,
        {
            let view = match &self.fields[f] {
                Field::Values(channels) => FieldReceiver::Values(channels.clone_receiver()),
                Field::Nested(models) => FieldReceiver::Nested(models.as_slice().clone_receivers()),
            };
            fields.push(view);
            f += 1;
        }
        InstanceReceiver { fields }
    }
}


/// The number of channels that one instance has for a field.
pub open spec fn field_width(field: ModelField) -> nat {
    if field.is_model {
        0
    } else {
        match field.len {
            FieldLen::Scalar => 1,
            FieldLen::Fixed(n) => n as nat,
            FieldLen::Implicit => 0,
        }
    }
}

/// The number of channels that one instance has for the fields before
/// field `f`.
pub open spec fn field_offset(fields: Seq<ModelField>, f: int) -> nat
    decreases f,
{
    if f <= 0 {
        0
    } else {
        field_offset(fields, f - 1) + field_width(fields[f - 1])
    }
}

/// `instance` is an instance of the model with the fields `fields` whose
/// channels stand on the slots from `base` on, field after field and
/// element after element, and whose nested models are those of `nested`.
pub open spec fn laid_out<T, N>(
    instance: Instance<T, N>,
    fields: Seq<ModelField>,
    base: int,
    nested: Seq<Arc<Vec<N>>>,
) -> bool {
    &&& instance.fields@.len() == fields.len()
    &&& forall|f: int|
        0 <= f < fields.len() ==> match #[trigger] instance.fields@[f] {
            Field::Values(channels) => {
                &&& !fields[f].is_model
                &&& channels.start() == base + field_offset(fields, f)
                &&& channels.count() == field_width(fields[f])
            },
            Field::Nested(models) => fields[f].is_model && models == nested[f],
        }
}

/// Slots added in two steps are the slots added in one.
pub proof fn lemma_open_many_twice<T>(hub: HubView<T>, a: nat, b: nat, value: T)
    ensures
        hub.open_many(a, value).open_many(b, value) == hub.open_many(a + b, value),
{
    assert(hub.open_many(a, value).open_many(b, value).slots =~= hub.open_many(a + b, value).slots);
}

/// The offsets of the fields grow with the fields.
pub proof fn lemma_offsets_grow(fields: Seq<ModelField>, f: int, g: int)
    requires
        0 <= f < g,
    ensures
        field_offset(fields, f) + field_width(fields[f]) <= field_offset(fields, g),
    decreases g,
{
    if f < g - 1 {
        lemma_offsets_grow(fields, f, g - 1);
    }
}

impl crate::parser::Model {
    /// The number of channels of one instance.
    pub open spec fn width(&self) -> nat {
        field_offset(self.fields@, self.fields@.len() as int)
    }

    /// The number of instances: one, unless the model is an array.
    pub open spec fn count(&self) -> nat {
        match self.len {
            Some(n) => n as nat,
            None => 1,
        }
    }

    /// Makes one instance on new slots of `hub`: a channel for each
    /// element of each field of values, holding `initial`; for each nested
    /// model the shared instances of `nested` at the field's place.
    pub fn build<T: Copy, N>(
        &self,
        hub: &mut Hub<T>,
        initial: T,
        nested: &Vec<Arc<Vec<N>>>,
    ) -> (instance: Instance<T, N>)
        requires
            old(hub)@.wf(),
            nested@.len() == self.fields@.len(),
        ensures
            final(hub)@.wf(),
            final(hub)@ == old(hub)@.open_many(self.width(), initial),
            laid_out(instance, self.fields@, old(hub)@.slots.len() as int, nested@),
    {
        let ghost base = old(hub)@.slots.len() as int;
        let mut fields: Vec<Field<T, N>> = Vec::new();
        let mut f: usize = 0;
        proof {
            assert(hub@ =~= old(hub)@.open_many(0, initial)) by {
                assert(hub@.slots =~= old(hub)@.open_many(0, initial).slots);
            }
        }
        while f < self.fields.len()
            invariant
                f <= self.fields@.len(),
                nested@.len() == self.fields@.len(),
                fields@.len() == f,
                hub@.wf(),
                base == old(hub)@.slots.len(),
                hub@ == old(hub)@.open_many(field_offset(self.fields@, f as int), initial),
                forall|k: int|
                    0 <= k < f ==> match #[trigger] fields@[k] {
                        Field::Values(channels) => {
                            &&& !self.fields@[k].is_model
                            &&& channels.start() == base + field_offset(self.fields@, k)
                            &&& channels.count() == field_width(self.fields@[k])
                        },
                        Field::Nested(models) => self.fields@[k].is_model && models == nested@[k],
                    },
            decreases self.fields@.len() - f,
        {
            let field = &self.fields[f];
            let ghost before = hub@;
            let made = if field.is_model {
                Field::Nested(share(&nested[f]))
            } else {
                let len: usize = match field.len {
                    FieldLen::Scalar => 1,
                    FieldLen::Fixed(n) => n,
                    FieldLen::Implicit => 0,
                };
                Field::Values(Channels::new(hub, len, initial))
            };
            proof {
                lemma_open_many_twice(
                    old(hub)@,
                    field_offset(self.fields@, f as int),
                    field_width(self.fields@[f as int]),
                    initial,
                );
                if field.is_model {
                    assert(hub@ =~= before.open_many(0, initial)) by {
                        assert(hub@.slots =~= before.open_many(0, initial).slots);
                    }
                }
            }
            fields.push(made);
            f += 1;
        }
        Instance { fields }
    }
}


impl crate::parser::Model {
    /// Makes the instances of the model without looking for faults in the
    /// description first.
    pub(crate) fn build_all<T: Copy, N>(
        &self,
        hub: &mut Hub<T>,
        initial: T,
        nested: &Vec<Arc<Vec<N>>>,
    ) -> (instances: Vec<Instance<T, N>>)
        requires
            old(hub)@.wf(),
            nested@.len() == self.fields@.len(),
        ensures
            final(hub)@.wf(),
            instances@.len() == self.count(),
            final(hub)@ == old(hub)@.open_many(self.count() * self.width(), initial),
            forall|i: int|
                0 <= i < instances@.len() ==> laid_out(
                    #[trigger] instances@[i],
                    self.fields@,
                    old(hub)@.slots.len() + i * self.width(),
                    nested@,
                ),
    {
        let count: usize = match self.len {
            Some(n) => n,
            None => 1,
        };
        let ghost width = self.width();
        let mut instances: Vec<Instance<T, N>> = Vec::new();
        let mut i: usize = 0;
        proof {
            assert(0 * width == 0) by (nonlinear_arith);
            assert(hub@.slots =~= old(hub)@.open_many(0, initial).slots);
        }
        while i < count
            invariant
                i <= count,
                width == self.width(),
                nested@.len() == self.fields@.len(),
                instances@.len() == i,
                hub@.wf(),
                hub@ == old(hub)@.open_many((i * width) as nat, initial),
                forall|k: int|
                    0 <= k < i ==> laid_out(
                        #[trigger] instances@[k],
                        self.fields@,
                        old(hub)@.slots.len() + k * width,
                        nested@,
                    ),
            decreases count - i,
        {
            let instance = self.build(hub, initial, nested);
            proof {
                assert((i + 1) * width == i * width + width) by (nonlinear_arith);
                assert(i * width >= 0) by (nonlinear_arith)
                    requires
                        i >= 0,
                        width >= 0,
                ;
                lemma_open_many_twice(old(hub)@, (i * width) as nat, width, initial);
            }
            instances.push(instance);
            i += 1;
        }
        instances
    }

    /// Makes the instances of the model on new slots of `hub`: as many as
    /// the model's length says, one where it is no array, each with
    /// channels of its own. A description that is at fault is refused, and
    /// nothing is made.
    pub fn instantiate<T: Copy, N>(
        &self,
        hub: &mut Hub<T>,
        initial: T,
        nested: &Vec<Arc<Vec<N>>>,
    ) -> (r: Result<Vec<Instance<T, N>>, ModelError>)
        requires
            old(hub)@.wf(),
            nested@.len() == self.fields@.len(),
        ensures
            final(hub)@.wf(),
            match r {
                Ok(instances) => {
                    &&& self.valid()
                    &&& instances@.len() == self.count()
                    &&& final(hub)@ == old(hub)@.open_many(self.count() * self.width(), initial)
                    &&& forall|i: int|
                        0 <= i < instances@.len() ==> laid_out(
                            #[trigger] instances@[i],
                            self.fields@,
                            old(hub)@.slots.len() + i * self.width(),
                            nested@,
                        )
                },
                Err(e) => first_fault(self.findings()) == Some(e) && final(hub)@ == old(hub)@,
            },
    {
        match self.validate() {
            Err(e) => Err(e),
            Ok(()) => Ok(self.build_all(hub, initial, nested)),
        }
    }
}

impl crate::parser::Model {
    /// The shared instances of the model for `key`. On the first access
    /// they are made, on new slots of `hub`, and kept in `registry`; every
    /// later access is handed the same instances, and neither the hub nor
    /// the registry changes. A description that is at fault is refused on
    /// the first access, and nothing is made or kept.
    pub fn clone_singleton<T: Copy, N>(
        &self,
        registry: &mut Registry<Arc<Vec<Instance<T, N>>>>,
        key: Key,
        hub: &mut Hub<T>,
        initial: T,
        nested: &Vec<Arc<Vec<N>>>,
    ) -> (r: Result<Arc<Vec<Instance<T, N>>>, ModelError>)
        requires
            old(hub)@.wf(),
            nested@.len() == self.fields@.len(),
        ensures
            final(hub)@.wf(),
            match r {
                Ok(shared) => {
                    &&& final(registry)@.contains_key(key)
                    &&& final(registry)@[key] == shared
                    &&& old(registry)@.contains_key(key) ==> {
                        &&& final(registry)@ == old(registry)@
                        &&& final(hub)@ == old(hub)@
                    }
                    &&& !old(registry)@.contains_key(key) ==> {
                        &&& self.valid()
                        &&& final(registry)@ == old(registry)@.insert(key, shared)
                        &&& final(hub)@ == old(hub)@.open_many(
                            self.count() * self.width(),
                            initial,
                        )
                        &&& shared@.len() == self.count()
                        &&& forall|i: int|
                            0 <= i < shared@.len() ==> laid_out(
                                #[trigger] shared@[i],
                                self.fields@,
                                old(hub)@.slots.len() + i * self.width(),
                                nested@,
                            )
                    }
                },
                Err(e) => {
                    &&& !old(registry)@.contains_key(key)
                    &&& first_fault(self.findings()) == Some(e)
                    &&& final(registry)@ == old(registry)@
                    &&& final(hub)@ == old(hub)@
                },
            },
    {
        match registry.get(key) {
            Some(shared) => {
                return Ok(share(shared));
            },
            None => {},
        }
        match self.instantiate(hub, initial, nested) {
            Err(e) => Err(e),
            Ok(instances) => {
                let fresh = Arc::new(instances);
                let kept = registry.clone_singleton(key, fresh);
                Ok(share(kept))
            },
        }
    }
}

/// The channels of every field of every instance stand on slots that the
/// instances were given.
pub proof fn lemma_blocks_in_range(fields: Seq<ModelField>, count: int, i: int, f: int)
    requires
        0 <= i < count,
        0 <= f < fields.len(),
    ensures
        i * field_offset(fields, fields.len() as int) >= 0,
        i * field_offset(fields, fields.len() as int) + field_offset(fields, f) + field_width(
            fields[f],
        ) <= count * field_offset(fields, fields.len() as int),
{
    let width = field_offset(fields, fields.len() as int);
    if f + 1 < fields.len() {
        lemma_offsets_grow(fields, f, fields.len() as int);
    } else {
        lemma_offsets_grow(fields, f, f + 1);
    }
    assert(i * width >= 0 && i * width + width <= count * width) by (nonlinear_arith)
        requires
            0 <= i < count,
            width >= 0,
    ;
}

/// No two fields of the instances share a slot.
pub open spec fn blocks_apart<T, N>(instances: Seq<Instance<T, N>>) -> bool {
    forall|i: int, f: int, j: int, g: int|
        #![trigger instances[i].fields@[f], instances[j].fields@[g]]
        0 <= i < instances.len() && 0 <= j < instances.len() && 0 <= f < instances[i].fields@.len()
            && 0 <= g < instances[j].fields@.len() && (i != j || f != g)
            && instances[i].fields@[f] is Values && instances[j].fields@[g] is Values ==> {
            let a = instances[i].fields@[f]->Values_0;
            let b = instances[j].fields@[g]->Values_0;
            a.start() + a.count() <= b.start() || b.start() + b.count() <= a.start()
        }
}

/// Array independence, for instances. The channels of instances that are
/// laid out one after the other stand on slots of their own: no two fields
/// of the instances share a slot, so that no publish on one is seen on
/// another.
pub proof fn law_instances_apart<T, N>(
    instances: Seq<Instance<T, N>>,
    fields: Seq<ModelField>,
    base: int,
    nested: Seq<Arc<Vec<N>>>,
)
    requires
        forall|i: int|
            0 <= i < instances.len() ==> laid_out(
                #[trigger] instances[i],
                fields,
                base + i * field_offset(fields, fields.len() as int),
                nested,
            ),
    ensures
        blocks_apart(instances),
{
    let width = field_offset(fields, fields.len() as int);
    assert forall|i: int, f: int, j: int, g: int|
        #![trigger instances[i].fields@[f], instances[j].fields@[g]]
        0 <= i < instances.len() && 0 <= j < instances.len() && 0 <= f < instances[i].fields@.len()
            && 0 <= g < instances[j].fields@.len() && (i != j || f != g)
            && instances[i].fields@[f] is Values && instances[j].fields@[g] is Values implies {
        let a = instances[i].fields@[f]->Values_0;
        let b = instances[j].fields@[g]->Values_0;
        a.start() + a.count() <= b.start() || b.start() + b.count() <= a.start()
    } by {
        assert(laid_out(instances[i], fields, base + i * width, nested));
        assert(laid_out(instances[j], fields, base + j * width, nested));
        lemma_blocks_in_range(fields, instances.len() as int, i, f);
        lemma_blocks_in_range(fields, instances.len() as int, j, g);
        if f + 1 < fields.len() {
            lemma_offsets_grow(fields, f, fields.len() as int);
        } else {
            lemma_offsets_grow(fields, f, f + 1);
        }
        if g + 1 < fields.len() {
            lemma_offsets_grow(fields, g, fields.len() as int);
        } else {
            lemma_offsets_grow(fields, g, g + 1);
        }
        if i == j {
            if f < g {
                lemma_offsets_grow(fields, f, g);
            } else {
                lemma_offsets_grow(fields, g, f);
            }
        } else if i < j {
            assert(j * width >= i * width + width) by (nonlinear_arith)
                requires
                    i < j,
                    width >= 0,
            ;
        } else {
            assert(i * width >= j * width + width) by (nonlinear_arith)
                requires
                    j < i,
                    width >= 0,
            ;
        }
    }
}

impl crate::parser::Model {
    /// The instances of the model, in the way the description asks for: a
    /// public model is made anew, on new slots of `hub`, and the registry
    /// is left alone; any other model is the shared one of `key`, as
    /// [`clone_singleton`](crate::parser::Model::clone_singleton) hands it
    /// out.
    pub fn obtain<T: Copy, N>(
        &self,
        registry: &mut Registry<Arc<Vec<Instance<T, N>>>>,
        key: Key,
        hub: &mut Hub<T>,
        initial: T,
        nested: &Vec<Arc<Vec<N>>>,
    ) -> (r: Result<Arc<Vec<Instance<T, N>>>, ModelError>)
        requires
            old(hub)@.wf(),
            nested@.len() == self.fields@.len(),
        ensures
            final(hub)@.wf(),
            self.public ==> final(registry)@ == old(registry)@,
            match r {
                Ok(instances) => {
                    &&& !self.public ==> final(registry)@.contains_key(key) && final(registry)@[key]
                        == instances
                    &&& !self.public && old(registry)@.contains_key(key) ==> {
                        &&& final(registry)@ == old(registry)@
                        &&& final(hub)@ == old(hub)@
                    }
                    &&& self.public || !old(registry)@.contains_key(key) ==> {
                        &&& self.valid()
                        &&& !self.public ==> final(registry)@ == old(registry)@.insert(
                            key,
                            instances,
                        )
                        &&& final(hub)@ == old(hub)@.open_many(
                            self.count() * self.width(),
                            initial,
                        )
                        &&& instances@.len() == self.count()
                        &&& forall|i: int|
                            0 <= i < instances@.len() ==> laid_out(
                                #[trigger] instances@[i],
                                self.fields@,
                                old(hub)@.slots.len() + i * self.width(),
                                nested@,
                            )
                    }
                },
                Err(e) => {
                    &&& self.public || !old(registry)@.contains_key(key)
                    &&& first_fault(self.findings()) == Some(e)
                    &&& final(registry)@ == old(registry)@
                    &&& final(hub)@ == old(hub)@
                },
            },
    {
        if self.public {
            match self.instantiate(hub, initial, nested) {
                Ok(instances) => Ok(Arc::new(instances)),
                Err(e) => Err(e),
            }
        } else {
            self.clone_singleton(registry, key, hub, initial, nested)
        }
    }
}

/// Array independence. Two channels of the instances of one model, told
/// apart by the instance, the field or the element they belong to, never
/// share a slot: what is published on one is not seen on the other.
pub proof fn law_channels_independent(
    fields: Seq<ModelField>,
    base: int,
    i: int,
    f: int,
    e: int,
    j: int,
    g: int,
    d: int,
)
    requires
        0 <= i,
        0 <= j,
        0 <= f < fields.len(),
        0 <= g < fields.len(),
        0 <= e < field_width(fields[f]),
        0 <= d < field_width(fields[g]),
        (i, f, e) != (j, g, d),
    ensures
        base + i * field_offset(fields, fields.len() as int) + field_offset(fields, f) + e != base
            + j * field_offset(fields, fields.len() as int) + field_offset(fields, g) + d,
{
    let width = field_offset(fields, fields.len() as int);
    let a = field_offset(fields, f) + e;
    let b = field_offset(fields, g) + d;
    assert(a < width) by {
        if f + 1 < fields.len() {
            lemma_offsets_grow(fields, f, fields.len() as int);
        } else {
            lemma_offsets_grow(fields, f, f + 1);
        }
    }
    assert(b < width) by {
        if g + 1 < fields.len() {
            lemma_offsets_grow(fields, g, fields.len() as int);
        } else {
            lemma_offsets_grow(fields, g, g + 1);
        }
    }
    if i == j {
        if f < g {
            lemma_offsets_grow(fields, f, g);
        } else if g < f {
            lemma_offsets_grow(fields, g, f);
        }
    } else if i < j {
        assert(j * width >= i * width + width) by (nonlinear_arith)
            requires
                i < j,
                width >= 0,
        ;
    } else {
        assert(i * width >= j * width + width) by (nonlinear_arith)
            requires
                j < i,
                width >= 0,
        ;
    }
}

} // verus!
