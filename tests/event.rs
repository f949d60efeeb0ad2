use wlral::event::{Event, EventOnce};
use wlral::events::{ButtonState, BUTTON_PRESSED, BUTTON_RELEASED};

#[test]
fn event_fires_listeners_in_subscription_order() {
    let mut e: Event<&str> = Event::new();
    let a = e.subscribe("a");
    let b = e.subscribe("b");
    let c = e.subscribe("c");
    assert_eq!((a, b, c), (0, 1, 2));
    assert_eq!(e.fire(), vec![0, 1, 2]);
    e.unsubscribe(b);
    assert_eq!(e.fire(), vec![0, 2]);
    let pos = e.position_of(c).unwrap();
    assert_eq!(*e.listener_at(pos), "c");
    assert_eq!(e.position_of(b), None);
    // ids are never reused
    assert_eq!(e.subscribe("d"), 3);
    assert_eq!(e.fire(), vec![0, 2, 3]);
}

#[test]
fn event_unsubscribe_of_unknown_id_changes_nothing() {
    let mut e: Event<u8> = Event::new();
    e.subscribe(7);
    e.unsubscribe(42);
    assert_eq!(e.fire(), vec![0]);
}

#[test]
fn event_once_hands_out_listeners_latest_first_and_once() {
    let mut e: EventOnce<u32> = EventOnce::new();
    e.then(1);
    e.then(2);
    e.then(3);
    assert_eq!(e.fire(), vec![3, 2, 1]);
    assert_eq!(e.fire(), Vec::<u32>::new());
}

#[test]
fn button_state_raw_values() {
    assert_eq!(ButtonState::from_raw(BUTTON_RELEASED), ButtonState::Released);
    assert_eq!(ButtonState::from_raw(BUTTON_PRESSED), ButtonState::Pressed);
    assert_eq!(ButtonState::from_raw(7), ButtonState::Pressed);
    assert_eq!(ButtonState::Released.as_raw(), BUTTON_RELEASED);
    assert_eq!(ButtonState::Pressed.as_raw(), BUTTON_PRESSED);
}
