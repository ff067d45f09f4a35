use frand_property::{
    Hub, Model, ModelList, Property, Publish, ReceiverExt, Sender, SenderExt, SetterCall, Wait,
};

#[test]
fn test_property_list_into_senders_receivers() {
    let mut hub: Hub<i32> = Hub::new();
    let first = Property::new(&mut hub, 10);
    let second = Property::new(&mut hub, 20);

    let props = vec![first, second];

    let senders = props.clone_senders();
    assert_eq!(senders.len(), 2);

    let receivers = props.clone_receivers();
    assert_eq!(receivers.len(), 2);

    assert_eq!(receivers[0].value(&hub), 10);
    assert_eq!(receivers[1].value(&hub), 20);
}

#[test]
fn test_property_list_from_slice() {
    let mut hub: Hub<i32> = Hub::new();
    let first = Property::new(&mut hub, 10);
    let props = [first];

    let senders = props.clone_senders();
    assert_eq!(senders.len(), 1);
}

#[test]
fn new_schedules_no_setter_call() {
    let mut hub: Hub<i32> = Hub::new();
    let p = Property::new(&mut hub, 7);
    assert_eq!(hub.len(), 1);
    assert_eq!(p.index(), 0);
    assert_eq!(p.receiver().value(&hub), 7);
    assert!(hub.take_calls().is_empty());
}

#[test]
fn send_of_the_current_value_does_nothing() {
    let mut hub: Hub<i32> = Hub::new();
    let p = Property::new(&mut hub, 5);
    let mut rx = *p.receiver();
    p.sender().send(&mut hub, 5);
    assert!(hub.take_calls().is_empty());
    assert_eq!(rx.notified(&hub), Wait::Pending);
    assert_eq!(p.receiver().value(&hub), 5);
}

#[test]
fn send_of_another_value_publishes_once() {
    let mut hub: Hub<i32> = Hub::new();
    let other = Property::new(&mut hub, 1);
    let p = Property::new(&mut hub, 5);
    let mut rx = *p.receiver();
    let mut other_rx = *other.receiver();
    p.sender().send(&mut hub, 6);
    assert_eq!(hub.take_calls(), vec![SetterCall { slot: 1, value: 6 }]);
    assert_eq!(rx.notified(&hub), Wait::Ready(6));
    assert_eq!(rx.notified(&hub), Wait::Pending);
    assert_eq!(other_rx.notified(&hub), Wait::Pending);
    assert_eq!(other.receiver().value(&hub), 1);
    assert_eq!(p.receiver().value(&hub), 6);
}

#[test]
fn notify_publishes_the_same_value() {
    let mut hub: Hub<i32> = Hub::new();
    let p = Property::new(&mut hub, 5);
    let mut rx = *p.receiver();
    p.sender().notify(&mut hub);
    assert_eq!(hub.take_calls(), vec![SetterCall { slot: 0, value: 5 }]);
    assert_eq!(rx.notified(&hub), Wait::Ready(5));
    p.notify_with(&mut hub, 5);
    assert_eq!(hub.take_calls(), vec![SetterCall { slot: 0, value: 5 }]);
    assert_eq!(rx.notified(&hub), Wait::Ready(5));
    assert_eq!(rx.notified(&hub), Wait::Pending);
}

#[test]
fn changed_waits_for_another_value() {
    let mut hub: Hub<i32> = Hub::new();
    let p = Property::new(&mut hub, 3);
    let mut rx = *p.receiver();
    let start = rx.value(&hub);
    p.sender().send(&mut hub, 3);
    p.sender().notify(&mut hub);
    p.sender().notify_with(&mut hub, 3);
    assert_eq!(rx.changed(&hub, start), Wait::Pending);
    p.sender().send(&mut hub, 4);
    assert_eq!(rx.changed(&hub, start), Wait::Ready(4));
}

#[test]
fn a_closed_slot_ends_waits() {
    let mut hub: Hub<i32> = Hub::new();
    let p = Property::new(&mut hub, 3);
    let mut rx = *p.receiver();
    let mut late = *p.receiver();
    p.sender().send(&mut hub, 4);
    p.sender().close(&mut hub);
    assert_eq!(late.notified(&hub), Wait::Ready(4));
    assert_eq!(late.notified(&hub), Wait::Disconnected);
    assert_eq!(rx.changed(&hub, 4), Wait::Disconnected);
    assert_eq!(rx.changed(&hub, 3), Wait::Ready(4));
}

#[test]
fn clones_share_the_slot() {
    let mut hub: Hub<i32> = Hub::new();
    let p = Property::new(&mut hub, 0);
    let q = p.clone();
    let s: Sender<i32> = p.clone_sender();
    s.send(&mut hub, 9);
    assert_eq!(q.clone_receiver().value(&hub), 9);
    assert_eq!(q.index(), p.index());
    let _ = Publish::Send(1);
}
