use frand_property::parser::Model as Description;
use frand_property::{
    Field, FieldLen, Hub, Instance, Key, ModelField, Property, ReceiverExt, Registry, SenderExt,
};
use std::sync::Arc;

type Shared = Arc<Vec<Instance<i32, Property<i32>>>>;

struct World {
    hub: Hub<i32>,
    registry: Registry<Shared>,
}

fn describe(name: &str, len: Option<usize>) -> Description {
    Description {
        public: true,
        model_name: name.to_string(),
        len,
        fields: vec![ModelField {
            is_model: false,
            name: "val".to_string(),
            ty: "i32".to_string(),
            len: FieldLen::Scalar,
        }],
    }
}

fn val(shared: &Shared, index: usize) -> Property<i32> {
    match &shared[index].fields[0] {
        Field::Values(channels) => channels.get(0).unwrap(),
        Field::Nested(_) => panic!("a nested model"),
    }
}

fn init_singleton(
    w: &mut World,
    d: &Description,
    key: Key,
    index: usize,
    init: impl FnOnce(&mut Hub<i32>, Property<i32>),
) -> Property<i32> {
    let nested = vec![Arc::new(Vec::new())];
    let shared = d.clone_singleton(&mut w.registry, key, &mut w.hub, 0, &nested).unwrap();
    let model = val(&shared, index);
    init(&mut w.hub, model);
    model
}

#[test]
fn test_init_model() {
    let mut w = World { hub: Hub::new(), registry: Registry::new() };
    let d = describe("InitModel", None);
    let key = Key { model: 1, host: 0 };
    let m = init_singleton(&mut w, &d, key, 0, |hub, m| {
        m.sender().send(hub, 42);
    });

    assert_eq!(m.receiver().value(&w.hub), 42);

    let m2 = init_singleton(&mut w, &d, key, 0, |hub, m| {
        m.sender().send(hub, 100);
    });
    assert_eq!(m2.receiver().value(&w.hub), 100);

    assert_eq!(m.receiver().value(&w.hub), 100);
}

#[test]
fn test_init_array_model() {
    let mut w = World { hub: Hub::new(), registry: Registry::new() };
    let d = describe("InitArrayModel", Some(5));
    let key = Key { model: 2, host: 0 };
    let m0 = init_singleton(&mut w, &d, key, 0, |hub, m| {
        m.sender().send(hub, 10);
    });

    let m1 = init_singleton(&mut w, &d, key, 1, |hub, m| {
        m.sender().send(hub, 20);
    });

    assert_eq!(m0.receiver().value(&w.hub), 10);
    assert_eq!(m1.receiver().value(&w.hub), 20);

    let nested = vec![Arc::new(Vec::new())];
    let m0_again = d.clone_singleton(&mut w.registry, key, &mut w.hub, 0, &nested).unwrap();
    assert_eq!(val(&m0_again, 0).receiver().value(&w.hub), 10);
    assert_eq!(val(&m0_again, 1).receiver().value(&w.hub), 20);
}
