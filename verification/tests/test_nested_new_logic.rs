use frand_property::parser::Model as Description;
use frand_property::{
    Field, FieldLen, Hub, Instance, Key, ModelField, Property, ReceiverExt, Registry, SenderExt,
};
use std::sync::Arc;

type Inner = Instance<i32, Property<i32>>;
type Outer = Instance<i32, Inner>;

struct World {
    hub: Hub<i32>,
    inners: Registry<Arc<Vec<Inner>>>,
    outers: Registry<Arc<Vec<Outer>>>,
}

fn inner_description(name: &str, len: Option<usize>) -> Description {
    Description {
        public: true,
        model_name: name.to_string(),
        len,
        fields: vec![ModelField {
            is_model: false,
            name: "val".to_string(),
            ty: "i32".to_string(),
            len: FieldLen::Scalar,
        }],
    }
}

fn outer_singleton(w: &mut World, inner_len: Option<usize>, field_len: FieldLen, model: u64) -> Arc<Vec<Outer>> {
    let inner = inner_description("Inner", inner_len);
    let none = vec![Arc::new(Vec::new())];
    let inners = inner
        .clone_singleton(&mut w.inners, Key { model, host: 0 }, &mut w.hub, 0, &none)
        .unwrap();
    let outer = Description {
        public: true,
        model_name: "Outer".to_string(),
        len: None,
        fields: vec![ModelField {
            is_model: true,
            name: "inner".to_string(),
            ty: "Inner".to_string(),
            len: field_len,
        }],
    };
    outer
        .clone_singleton(&mut w.outers, Key { model: model + 1, host: 0 }, &mut w.hub, 0, &vec![inners])
        .unwrap()
}

fn val(outer: &Arc<Vec<Outer>>, index: usize) -> Property<i32> {
    match &outer[0].fields[0] {
        Field::Nested(models) => match &models[index].fields[0] {
            Field::Values(channels) => channels.get(0).unwrap(),
            Field::Nested(_) => panic!("a nested model"),
        },
        Field::Values(_) => panic!("a field of values"),
    }
}

#[test]
fn test_nested_independence() {
    let mut w = World { hub: Hub::new(), inners: Registry::new(), outers: Registry::new() };
    let outer1 = outer_singleton(&mut w, None, FieldLen::Scalar, 1);
    let outer2 = outer_singleton(&mut w, None, FieldLen::Scalar, 1);

    assert_eq!(val(&outer1, 0).receiver().value(&w.hub), 0);
    assert_eq!(val(&outer2, 0).receiver().value(&w.hub), 0);

    val(&outer1, 0).sender().send(&mut w.hub, 100);

    assert_eq!(val(&outer1, 0).receiver().value(&w.hub), 100);

    assert_eq!(val(&outer2, 0).receiver().value(&w.hub), 100);
}

#[test]
fn test_nested_list_independence() {
    let mut w = World { hub: Hub::new(), inners: Registry::new(), outers: Registry::new() };
    let outer1 = outer_singleton(&mut w, Some(2), FieldLen::Implicit, 3);
    let outer2 = outer_singleton(&mut w, Some(2), FieldLen::Implicit, 3);

    assert_eq!(val(&outer1, 0).receiver().value(&w.hub), 0);
    assert_eq!(val(&outer2, 0).receiver().value(&w.hub), 0);

    val(&outer1, 0).sender().send(&mut w.hub, 50);

    assert_eq!(val(&outer1, 0).receiver().value(&w.hub), 50);

    assert_eq!(val(&outer2, 0).receiver().value(&w.hub), 50);
}
