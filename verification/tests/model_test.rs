use arraystring::{typenum::U20, ArrayString};
use frand_property::parser::Model as Description;
use frand_property::{
    bind_each, bind_group, Channels, Field, FieldLen, FieldReceiver, FieldSender, Hub, Instance,
    Key, Model, ModelField, ModelList, Property, Receiver, ReceiverExt, Registry,
    Sender, SenderExt, Wait,
};
use std::sync::{Arc, LazyLock};

type Leaf = Property<i32>;

#[derive(Clone, Copy, Debug, PartialEq)]
enum Value {
    Int(i32),
    Text(ArrayString<U20>),
}

fn field(name: &str, ty: &str, len: FieldLen) -> ModelField {
    ModelField { is_model: false, name: name.to_string(), ty: ty.to_string(), len }
}

fn describe(name: &str, len: Option<usize>, fields: Vec<ModelField>) -> Description {
    Description { public: false, model_name: name.to_string(), len, fields }
}

fn no_nested<N>(fields: usize) -> Vec<Arc<Vec<N>>> {
    (0..fields).map(|_| Arc::new(Vec::new())).collect()
}

fn channels<T: Copy, N>(instance: &Instance<T, N>, f: usize) -> Channels<T> {
    match &instance.fields[f] {
        Field::Values(channels) => *channels,
        Field::Nested(_) => panic!("field {f} is a nested model"),
    }
}

fn singleton<T: Copy>(
    description: &Description,
    registry: &mut Registry<Arc<Vec<Instance<T, Property<T>>>>>,
    key: Key,
    hub: &mut Hub<T>,
    initial: T,
) -> Arc<Vec<Instance<T, Property<T>>>> {
    let nested = no_nested(description.fields.len());
    description.clone_singleton(registry, key, hub, initial, &nested).unwrap()
}

fn basic_model() -> Description {
    describe(
        "BasicModel1",
        None,
        vec![
            field("count", "i32", FieldLen::Scalar),
            field("name", "ArrayString<U20>", FieldLen::Scalar),
        ],
    )
}

const BASIC: Key = Key { model: 1, host: 0 };

#[test]
fn test_basic_model() {
    let mut hub: Hub<Value> = Hub::new();
    let mut registry = Registry::new();
    let empty = Value::Text(ArrayString::<U20>::try_from_str("").unwrap());
    let model = singleton(&basic_model(), &mut registry, BASIC, &mut hub, Value::Int(0));
    let count = channels(&model[0], 0).get(0).unwrap();
    let name = channels(&model[0], 1).get(0).unwrap();
    name.sender().send(&mut hub, empty);

    assert_eq!(count.receiver().value(&hub), Value::Int(0));
    assert_eq!(name.receiver().value(&hub), empty);

    count.sender().send(&mut hub, Value::Int(42));
    assert_eq!(count.receiver().value(&hub), Value::Int(42));

    let hello = ArrayString::<U20>::try_from_str("Hello").unwrap();
    name.sender().send(&mut hub, Value::Text(hello));
    match name.receiver().value(&hub) {
        Value::Text(text) => assert_eq!(text.as_str(), "Hello"),
        other => panic!("unexpected value {other:?}"),
    }
}

#[test]
fn test_async_notification() {
    let mut hub: Hub<i32> = Hub::new();
    let mut registry = Registry::new();
    let description = describe("AsyncModel", None, vec![field("count", "i32", FieldLen::Scalar)]);
    let model = singleton(&description, &mut registry, Key { model: 2, host: 0 }, &mut hub, 0);
    let count = channels(&model[0], 0).get(0).unwrap();
    let mut receiver = *count.receiver();

    let start = receiver.value(&hub);
    assert_eq!(receiver.changed(&hub, start), Wait::Pending);

    count.sender().send(&mut hub, 100);

    let new_val = receiver.changed(&hub, start);
    assert_eq!(new_val, Wait::Ready(100));
}

fn array_field_model() -> Description {
    describe("ArrayFieldModel", None, vec![field("scores", "i32", FieldLen::Fixed(5))])
}

#[test]
fn test_array_field() {
    let mut hub: Hub<i32> = Hub::new();
    let mut registry = Registry::new();
    let model = singleton(&array_field_model(), &mut registry, Key { model: 3, host: 0 }, &mut hub, 0);
    let scores = channels(&model[0], 0);

    assert_eq!(scores.len(), 5);

    scores.get(0).unwrap().sender().send(&mut hub, 10);
    scores.get(4).unwrap().sender().send(&mut hub, 99);

    assert_eq!(scores.get(0).unwrap().receiver().value(&hub), 10);
    assert_eq!(scores.get(1).unwrap().receiver().value(&hub), 0);
    assert_eq!(scores.get(4).unwrap().receiver().value(&hub), 99);
}

const MODEL_COUNT: usize = 3;

#[test]
fn test_model_vec() {
    let mut hub: Hub<i32> = Hub::new();
    let mut registry = Registry::new();
    let description =
        describe("ItemModel", Some(MODEL_COUNT), vec![field("id", "i32", FieldLen::Scalar)]);
    let models = singleton(&description, &mut registry, Key { model: 4, host: 0 }, &mut hub, 0);

    assert_eq!(models.len(), 3);

    let id = |i: usize| channels(&models[i], 0).get(0).unwrap();
    id(0).sender().send(&mut hub, 1);
    id(1).sender().send(&mut hub, 2);

    assert_eq!(id(0).receiver().value(&hub), 1);
    assert_eq!(id(1).receiver().value(&hub), 2);
    assert_eq!(id(2).receiver().value(&hub), 0);
}

#[test]
fn test_visibility_compile() {
    let mut hub: Hub<i32> = Hub::new();
    let mut registry = Registry::new();
    let description = describe(
        "VisibilityTestModel",
        None,
        vec![
            field("public_val", "i32", FieldLen::Scalar),
            field("private_val", "i32", FieldLen::Scalar),
        ],
    );
    let model = singleton(&description, &mut registry, Key { model: 5, host: 0 }, &mut hub, 0);
    channels(&model[0], 0).get(0).unwrap().sender().send(&mut hub, 1);
    channels(&model[0], 1).get(0).unwrap().sender().send(&mut hub, 2);
}

fn sender_of<T, S>(view: &FieldSender<T, S>, e: usize) -> Sender<T> {
    match view {
        FieldSender::Values(senders) => senders.get(e).unwrap(),
        FieldSender::Nested(_) => panic!("a nested model"),
    }
}

fn receiver_of<T, R>(view: &FieldReceiver<T, R>, e: usize) -> Receiver<T> {
    match view {
        FieldReceiver::Values(receivers) => receivers.get(e).unwrap(),
        FieldReceiver::Nested(_) => panic!("a nested model"),
    }
}

#[test]
fn test_model_sender_receiver() {
    let mut hub: Hub<Value> = Hub::new();
    let mut registry = Registry::new();
    let model = singleton(&basic_model(), &mut registry, BASIC, &mut hub, Value::Int(0));

    let sender = model[0].clone_sender();
    let receiver = model[0].clone_receiver();

    sender_of(&sender.fields[0], 0).send(&mut hub, Value::Int(777));
    assert_eq!(receiver_of(&receiver.fields[0], 0).value(&hub), Value::Int(777));
    assert_eq!(channels(&model[0], 0).get(0).unwrap().receiver().value(&hub), Value::Int(777));

    let world = Value::Text(ArrayString::<U20>::try_from_str("World").unwrap());
    sender_of(&sender.fields[1], 0).send(&mut hub, world);
    assert_eq!(receiver_of(&receiver.fields[1], 0).value(&hub), world);
    assert_eq!(channels(&model[0], 1).get(0).unwrap().receiver().value(&hub), world);
}

#[test]
fn test_vec_model_sender_receiver() {
    let mut hub: Hub<i32> = Hub::new();
    let mut registry = Registry::new();
    let model = singleton(&array_field_model(), &mut registry, Key { model: 3, host: 0 }, &mut hub, 0);

    let sender = model[0].clone_sender();
    let receiver = model[0].clone_receiver();

    sender_of(&sender.fields[0], 2).send(&mut hub, 12345);
    assert_eq!(receiver_of(&receiver.fields[0], 2).value(&hub), 12345);
    assert_eq!(channels(&model[0], 0).get(2).unwrap().receiver().value(&hub), 12345);
}

#[test]
fn test_model_extension_methods() {
    let mut hub: Hub<i32> = Hub::new();
    let mut registry = Registry::new();
    let description =
        describe("ExtensionModel", None, vec![field("count", "i32", FieldLen::Scalar)]);
    let key = Key { model: 7, host: 0 };
    let models = {
        let mut v = Vec::with_capacity(5);
        for _ in 0..5 {
            v.push(singleton(&description, &mut registry, key, &mut hub, 0));
        }
        v
    };
    let firsts: Vec<Arc<Instance<i32, Leaf>>> = models
        .iter()
        .map(|m| Arc::new(Instance { fields: vec![Field::Values(channels(&m[0], 0))] }))
        .collect();

    let senders = firsts.clone_senders();
    let receivers = firsts.clone_receivers();

    assert_eq!(senders.len(), 5);
    assert_eq!(receivers.len(), 5);

    sender_of(&senders[0].fields[0], 0).send(&mut hub, 100);
    assert_eq!(receiver_of(&receivers[0].fields[0], 0).value(&hub), 100);
    assert_eq!(channels(&models[0][0], 0).get(0).unwrap().receiver().value(&hub), 100);
}

const BIND_COUNT: usize = 5;

#[test]
fn test_iterator_bind() {
    let mut hub: Hub<i32> = Hub::new();
    let mut registry = Registry::new();
    let source = describe(
        "BindSourceArrayModel",
        Some(BIND_COUNT),
        vec![field("count", "i32", FieldLen::Scalar)],
    );
    let target = describe(
        "BindTargetArrayModel",
        Some(BIND_COUNT),
        vec![field("count", "i32", FieldLen::Scalar)],
    );
    let source_models = singleton(&source, &mut registry, Key { model: 8, host: 0 }, &mut hub, 0);
    let target_models = singleton(&target, &mut registry, Key { model: 9, host: 0 }, &mut hub, 0);
    let target_senders = target_models.clone_senders();

    let mut receivers: Vec<Receiver<i32>> = source_models
        .iter()
        .map(|m| *channels(m, 0).get(0).unwrap().receiver())
        .collect();
    let senders: Vec<Sender<i32>> =
        target_senders.iter().map(|s| sender_of(&s.fields[0], 0)).collect();

    channels(&source_models[0], 0).get(0).unwrap().sender().send(&mut hub, 12345);
    channels(&source_models[4], 0).get(0).unwrap().sender().send(&mut hub, 98765);

    assert_eq!(bind_each(&mut receivers, &senders, &mut hub), 5);

    let target_value = |i: usize| channels(&target_models[i], 0).get(0).unwrap().receiver().value(&hub);
    assert_eq!(target_value(0), 12345);
    assert_eq!(target_value(1), 0);
    assert_eq!(target_value(4), 98765);
}

#[test]
fn model_test_test_tuple_spawn_bind() {
    let mut hub: Hub<i32> = Hub::new();
    let mut pairs: Hub<(i32, i32)> = Hub::new();
    let first = Property::new(&mut hub, 1);
    let second = Property::new(&mut hub, 2);

    let mut target = Property::new(&mut pairs, (0, 0));

    let mut tuple = (*first.receiver(), *second.receiver());

    first.sender().send(&mut hub, 10);
    let before = target.value(&pairs);
    assert_eq!(bind_group(&mut tuple, &hub, target.sender(), &mut pairs), Wait::Ready(()));
    assert_eq!(target.changed(&pairs, before), Wait::Ready((10, 2)));
    assert_eq!(target.receiver().value(&pairs), (10, 2));

    second.sender().send(&mut hub, 20);
    let before = target.value(&pairs);
    assert_eq!(bind_group(&mut tuple, &hub, target.sender(), &mut pairs), Wait::Ready(()));
    assert_eq!(target.changed(&pairs, before), Wait::Ready((10, 20)));
    assert_eq!(target.receiver().value(&pairs), (10, 20));
}

static LAZY_LEN: LazyLock<usize> = LazyLock::new(|| 4);

#[test]
fn test_lazy_lock_len() {
    let mut hub: Hub<i32> = Hub::new();
    let mut registry = Registry::new();
    let description =
        describe("LazyModel", Some(*LAZY_LEN), vec![field("value", "i32", FieldLen::Scalar)]);
    let models = singleton(&description, &mut registry, Key { model: 10, host: 0 }, &mut hub, 0);
    assert_eq!(models.len(), *LAZY_LEN);
    assert_eq!(models.len(), 4);
}
