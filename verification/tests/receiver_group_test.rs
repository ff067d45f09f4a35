use frand_property::{bind_group, Hub, Property, ReceiverExt, ReceiverGroup, SenderExt, Wait};

#[test]
fn test_tuple_literal_usage() {
    let mut hub: Hub<i32> = Hub::new();
    let first = Property::new(&mut hub, 1);
    let second = Property::new(&mut hub, 2);
    let third = Property::new(&mut hub, 3);

    let tuple_literal = (*first.receiver(), *second.receiver(), *third.receiver());
    assert_eq!(ReceiverGroup::value(&tuple_literal, &hub), (1, 2, 3));
}

#[test]
fn receiver_group_test_test_tuple_spawn_bind() {
    let mut hub: Hub<i32> = Hub::new();
    let mut pairs: Hub<(i32, i32)> = Hub::new();
    let first = Property::new(&mut hub, 1);
    let second = Property::new(&mut hub, 2);

    let mut target = Property::new(&mut pairs, (0, 0));

    let mut tuple = (*first.receiver(), *second.receiver());

    first.sender().send(&mut hub, 10);
    let before = ReceiverExt::value(&target, &pairs);
    assert_eq!(bind_group(&mut tuple, &hub, target.sender(), &mut pairs), Wait::Ready(()));
    assert_eq!(target.changed(&pairs, before), Wait::Ready((10, 2)));
    assert_eq!(ReceiverExt::value(target.receiver(), &pairs), (10, 2));

    second.sender().send(&mut hub, 20);
    let before = ReceiverExt::value(&target, &pairs);
    assert_eq!(bind_group(&mut tuple, &hub, target.sender(), &mut pairs), Wait::Ready(()));
    assert_eq!(target.changed(&pairs, before), Wait::Ready((10, 20)));
    assert_eq!(ReceiverExt::value(target.receiver(), &pairs), (10, 20));
}

#[test]
fn group_of_two_reports_the_first_change() {
    let mut hub: Hub<i32> = Hub::new();
    let a = Property::new(&mut hub, 1);
    let b = Property::new(&mut hub, 2);
    let mut group = (*a.receiver(), *b.receiver());
    assert_eq!(ReceiverGroup::value(&group, &hub), (1, 2));
    assert_eq!(ReceiverGroup::notified(&mut group, &hub), Wait::Pending);
    a.sender().send(&mut hub, 9);
    assert_eq!(ReceiverGroup::notified(&mut group, &hub), Wait::Ready(()));
    assert_eq!(ReceiverGroup::value(&group, &hub), (9, 2));
    assert_eq!(ReceiverGroup::notified(&mut group, &hub), Wait::Pending);
}

#[test]
fn group_is_disconnected_when_all_members_are() {
    let mut hub: Hub<i32> = Hub::new();
    let a = Property::new(&mut hub, 1);
    let b = Property::new(&mut hub, 2);
    let mut group = (*a.receiver(), *b.receiver());
    a.sender().close(&mut hub);
    assert_eq!(ReceiverGroup::notified(&mut group, &hub), Wait::Pending);
    b.sender().close(&mut hub);
    assert_eq!(ReceiverGroup::notified(&mut group, &hub), Wait::Disconnected);
}

#[test]
fn binding_without_a_change_sends_nothing() {
    let mut hub: Hub<i32> = Hub::new();
    let mut pairs: Hub<(i32, i32)> = Hub::new();
    let a = Property::new(&mut hub, 1);
    let b = Property::new(&mut hub, 2);
    let target = Property::new(&mut pairs, (0, 0));
    let mut group = (*a.receiver(), *b.receiver());
    assert_eq!(bind_group(&mut group, &hub, target.sender(), &mut pairs), Wait::Pending);
    assert_eq!(ReceiverExt::value(target.receiver(), &pairs), (0, 0));
    assert!(pairs.take_calls().is_empty());
}
