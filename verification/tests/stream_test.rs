use frand_property::{
    bind_pair, Hub, Property, PropertyStream, PropertyStreamExt, ReceiverExt, SenderExt,
    SetterCall, Wait,
};

#[test]
fn test_stream_bind() {
    let mut sources: Hub<i32> = Hub::new();
    let mut targets: Hub<i32> = Hub::new();
    let source = Property::new(&mut sources, 0);
    let target = Property::new(&mut targets, 0);

    let mut stream = PropertyStream::new(source.receiver());
    let double = |v: i32| v * 2;

    stream.bind_map(&sources, &double, target.sender(), &mut targets);
    assert_eq!(target.receiver().value(&targets), 0);

    source.sender().send(&mut sources, 10);
    stream.bind_map(&sources, &double, target.sender(), &mut targets);
    assert_eq!(target.receiver().value(&targets), 20);

    source.sender().send(&mut sources, 25);
    stream.bind_map(&sources, &double, target.sender(), &mut targets);
    assert_eq!(target.receiver().value(&targets), 50);
}

#[test]
fn test_spawn_drive() {
    let mut hub: Hub<i32> = Hub::new();
    let source = Property::new(&mut hub, 0);
    let mut stream = PropertyStream::new(source.receiver());
    let mut seen = Vec::new();

    if let Wait::Ready(v) = stream.next(&hub) {
        seen.push(v + 1);
    }
    assert_eq!(seen.pop(), Some(1));

    source.sender().send(&mut hub, 10);
    if let Wait::Ready(v) = stream.next(&hub) {
        seen.push(v + 1);
    }
    assert_eq!(seen.pop(), Some(11));
    assert_eq!(stream.next(&hub), Wait::Pending);
}

#[test]
fn bind_publishes_even_an_equal_value() {
    let mut hub: Hub<i32> = Hub::new();
    let source = Property::new(&mut hub, 4);
    let target = Property::new(&mut hub, 4);
    let mut stream = PropertyStream::new(source.receiver());
    assert_eq!(stream.bind(&mut hub, target.sender()), Wait::Ready(4));
    assert_eq!(hub.take_calls(), vec![SetterCall { slot: 1, value: 4 }]);
    assert_eq!(stream.bind(&mut hub, target.sender()), Wait::Pending);
    assert!(hub.take_calls().is_empty());
}

#[test]
fn bind_pair_forwards_a_publish() {
    let mut hub: Hub<i32> = Hub::new();
    let source = Property::new(&mut hub, 1);
    let target = Property::new(&mut hub, 0);
    let rx = bind_pair(*source.receiver(), target.sender(), &mut hub);
    assert_eq!(target.receiver().value(&hub), 0);
    source.sender().send(&mut hub, 8);
    let mut rx = bind_pair(rx, target.sender(), &mut hub);
    assert_eq!(target.receiver().value(&hub), 8);
    assert_eq!(rx.notified(&hub), Wait::Pending);
}
