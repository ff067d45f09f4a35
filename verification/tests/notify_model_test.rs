use arraystring::{typenum::U20, ArrayString};
use frand_property::{
    HostValue, Hub, Property, ReceiverExt, SenderExt, SetterCall, SlintNotifyModel, Wait,
};

#[derive(Clone, Copy, Debug, PartialEq)]
struct Short(ArrayString<U20>);

impl HostValue<Short> for String {
    fn to_native_spec(&self) -> Option<Short> {
        unreachable!("only read by the verifier")
    }

    fn from_native_spec(_value: Short) -> String {
        unreachable!("only read by the verifier")
    }

    fn to_native(&self) -> Option<Short> {
        ArrayString::try_from_str(self.as_str()).ok().map(Short)
    }

    fn from_native(value: Short) -> String {
        value.0.as_str().to_string()
    }
}

fn adder(hub: &mut Hub<i32>) -> (Property<i32>, Property<i32>, Property<i32>, SlintNotifyModel<i32, i32>) {
    let x = Property::new(hub, 0);
    let y = Property::new(hub, 0);
    let sum = Property::new(hub, 0);
    let bridge = SlintNotifyModel::new(
        vec![vec![0, 0, 0]],
        vec![vec![Some(*x.sender()), Some(*y.sender()), None]],
    );
    (x, y, sum, bridge)
}

#[test]
fn scalar_round_trip() {
    let mut hub: Hub<i32> = Hub::new();
    let x = Property::new(&mut hub, 0);
    let mut bridge = SlintNotifyModel::new(vec![vec![0]], vec![vec![Some(*x.sender())]]);
    let mut rx = *x.receiver();
    let start = rx.value(&hub);
    assert_eq!(rx.changed(&hub, start), Wait::Pending);

    bridge.set_row_data(&mut hub, 0, vec![5]);

    assert_eq!(rx.changed(&hub, start), Wait::Ready(5));
    assert_eq!(bridge.row_data(0), Some(&vec![5]));
    assert_eq!(bridge.take_raised(), vec![0]);
}

#[test]
fn an_identical_row_is_dropped() {
    let mut hub: Hub<i32> = Hub::new();
    let (x, y, _sum, mut bridge) = adder(&mut hub);
    bridge.set_row_data(&mut hub, 0, vec![1, 2, 3]);
    hub.take_calls();
    bridge.take_raised();
    let mut rx = *x.receiver();
    let mut ry = *y.receiver();
    rx.notified(&hub);
    ry.notified(&hub);

    bridge.set_row_data(&mut hub, 0, vec![1, 2, 3]);

    assert!(hub.take_calls().is_empty());
    assert!(bridge.take_raised().is_empty());
    assert_eq!(rx.notified(&hub), Wait::Pending);
    assert_eq!(ry.notified(&hub), Wait::Pending);
    assert_eq!(bridge.row_data(0), Some(&vec![1, 2, 3]));
}

#[test]
fn only_the_changed_field_is_forwarded() {
    let mut hub: Hub<i32> = Hub::new();
    let (x, y, sum, mut bridge) = adder(&mut hub);
    bridge.set_row_data(&mut hub, 0, vec![1, 2, 3]);
    hub.take_calls();
    let mut rx = *x.receiver();
    let mut ry = *y.receiver();
    let mut rsum = *sum.receiver();
    rx.notified(&hub);
    ry.notified(&hub);

    bridge.set_row_data(&mut hub, 0, vec![1, 7, 3]);

    assert_eq!(hub.take_calls(), vec![SetterCall { slot: y.index(), value: 7 }]);
    assert_eq!(ry.notified(&hub), Wait::Ready(7));
    assert_eq!(rx.notified(&hub), Wait::Pending);
    assert_eq!(rsum.notified(&hub), Wait::Pending);
    assert_eq!(x.receiver().value(&hub), 1);
    assert_eq!(bridge.row_data(0), Some(&vec![1, 7, 3]));
}

#[test]
fn a_field_that_native_code_writes_is_not_forwarded() {
    let mut hub: Hub<i32> = Hub::new();
    let (_x, _y, sum, mut bridge) = adder(&mut hub);
    bridge.set_row_data(&mut hub, 0, vec![0, 0, 9]);
    assert!(hub.take_calls().is_empty());
    assert_eq!(sum.receiver().value(&hub), 0);
    assert_eq!(bridge.take_raised(), vec![0]);
    assert_eq!(bridge.row_data(0), Some(&vec![0, 0, 9]));
}

#[test]
fn feedback_suppression() {
    let mut hub: Hub<i32> = Hub::new();
    let (_x, _y, sum, mut bridge) = adder(&mut hub);

    sum.sender().send(&mut hub, 10);
    let calls = hub.take_calls();
    assert_eq!(calls, vec![SetterCall { slot: sum.index(), value: 10 }]);
    bridge.apply_native_write(0, 2, 10);
    assert_eq!(bridge.row_data(0), Some(&vec![0, 0, 10]));
    assert_eq!(bridge.take_raised(), vec![0]);

    bridge.set_row_data(&mut hub, 0, vec![0, 0, 10]);

    assert!(hub.take_calls().is_empty());
    assert!(bridge.take_raised().is_empty());
}

#[test]
fn a_row_that_does_not_exist_only_raises_the_change() {
    let mut hub: Hub<i32> = Hub::new();
    let (_x, _y, _sum, mut bridge) = adder(&mut hub);
    assert_eq!(bridge.row_count(), 1);
    assert!(bridge.row_data(1).is_none());
    bridge.set_row_data(&mut hub, 3, vec![4, 4, 4]);
    assert!(hub.take_calls().is_empty());
    assert_eq!(bridge.take_raised(), vec![3]);
    assert_eq!(bridge.row_count(), 1);
    bridge.apply_native_write(3, 0, 1);
    bridge.apply_native_write(0, 9, 1);
    assert!(bridge.take_raised().is_empty());
    assert_eq!(bridge.row_data(0), Some(&vec![0, 0, 0]));
}

#[test]
fn a_text_that_does_not_fit_is_passed_over() {
    let mut hub: Hub<Short> = Hub::new();
    let empty = Short(ArrayString::try_from_str("").unwrap());
    let text = Property::new(&mut hub, empty);
    let mut bridge: SlintNotifyModel<String, Short> =
        SlintNotifyModel::new(vec![vec![String::new()]], vec![vec![Some(*text.sender())]]);

    bridge.set_row_data(&mut hub, 0, vec!["hello".to_string()]);
    assert_eq!(text.receiver().value(&hub).0.as_str(), "hello");
    assert_eq!(hub.take_calls().len(), 1);

    let long = "this text is longer than twenty bytes".to_string();
    bridge.set_row_data(&mut hub, 0, vec![long.clone()]);
    assert!(hub.take_calls().is_empty());
    assert_eq!(text.receiver().value(&hub).0.as_str(), "hello");
    assert_eq!(bridge.row_data(0), Some(&vec![long]));
    assert_eq!(bridge.take_raised(), vec![0, 0]);
    assert_eq!(String::from_native(text.receiver().value(&hub)), "hello");
}
