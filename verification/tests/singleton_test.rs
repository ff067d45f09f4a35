use frand_property::parser::Model as Description;
use frand_property::{
    Channels, Field, FieldLen, Hub, Instance, Key, ModelField, Property, ReceiverExt, Registry,
    SenderExt, SlintSingleton,
};
use std::sync::Arc;

type Shared = Arc<Vec<Instance<i32, Property<i32>>>>;

fn describe(name: &str, len: Option<usize>, field_name: &str) -> Description {
    Description {
        public: false,
        model_name: name.to_string(),
        len,
        fields: vec![ModelField {
            is_model: false,
            name: field_name.to_string(),
            ty: "i32".to_string(),
            len: FieldLen::Scalar,
        }],
    }
}

fn fetch(d: &Description, registry: &mut Registry<Shared>, key: Key, hub: &mut Hub<i32>) -> Shared {
    let nested = vec![Arc::new(Vec::new())];
    d.clone_singleton(registry, key, hub, 0, &nested).unwrap()
}

fn first(instance: &Instance<i32, Property<i32>>) -> Property<i32> {
    match &instance.fields[0] {
        Field::Values(channels) => {
            let channels: Channels<i32> = *channels;
            channels.get(0).unwrap()
        }
        Field::Nested(_) => panic!("a nested model"),
    }
}

#[test]
fn test_singleton() {
    let mut hub = Hub::new();
    let mut registry = Registry::new();
    let d = describe("SingletonModel", None, "count");
    let key = Key { model: 1, host: 0 };
    let instance1 = fetch(&d, &mut registry, key, &mut hub);
    let instance2 = fetch(&d, &mut registry, key, &mut hub);

    first(&instance1[0]).sender().send(&mut hub, 123);
    assert_eq!(first(&instance2[0]).receiver().value(&hub), 123);

    first(&instance2[0]).sender().send(&mut hub, 456);
    assert_eq!(first(&instance1[0]).receiver().value(&hub), 456);
}

#[test]
fn test_singleton_vec() {
    let mut hub = Hub::new();
    let mut registry = Registry::new();
    let d = describe("SingletonVecModel", Some(3), "val");
    let key = Key { model: 2, host: 0 };
    let instance1 = fetch(&d, &mut registry, key, &mut hub);
    let instance2 = fetch(&d, &mut registry, key, &mut hub);

    first(&instance1[0]).sender().send(&mut hub, 10);
    assert_eq!(first(&instance2[0]).receiver().value(&hub), 10);

    first(&instance2[2]).sender().send(&mut hub, 99);
    assert_eq!(first(&instance1[2]).receiver().value(&hub), 99);
}

#[test]
fn a_second_fetch_makes_no_channels() {
    let mut hub = Hub::new();
    let mut registry = Registry::new();
    let d = describe("SingletonVecModel", Some(3), "val");
    let key = Key { model: 2, host: 0 };
    assert!(!registry.contains(key));
    let one = fetch(&d, &mut registry, key, &mut hub);
    assert_eq!(hub.len(), 3);
    let two = fetch(&d, &mut registry, key, &mut hub);
    assert_eq!(hub.len(), 3);
    assert!(Arc::ptr_eq(&one, &two));
    assert!(registry.contains(key));
    assert!(registry.get(Key { model: 2, host: 1 }).is_none());
    let other = fetch(&d, &mut registry, Key { model: 2, host: 1 }, &mut hub);
    assert_eq!(hub.len(), 6);
    assert!(!Arc::ptr_eq(&one, &other));
}

#[test]
fn host_registry_keeps_the_last_handle() {
    let mut hosts: SlintSingleton<&str> = SlintSingleton::new();
    assert!(hosts.find(7).is_none());
    hosts.init_singleton(7, "first");
    hosts.init_singleton(8, "other");
    assert_eq!(*hosts.clone_singleton(7), "first");
    hosts.init_singleton(7, "second");
    assert_eq!(*hosts.clone_singleton(7), "second");
    assert_eq!(hosts.find(8), Some(&"other"));
    assert!(hosts.find(9).is_none());
}
