use capsule_corp::events::EventKind;
use capsule_corp::events::{
    DeltaMode, Event, EventPhase, InputEvent, InputType, MouseButton, MouseButtons, PointerType,
};

#[test]
fn new_event_is_fresh() {
    let e = Event::new(1u32, 2u32, "payload");
    assert_eq!(e.target, 1);
    assert_eq!(e.current_target, 2);
    assert_eq!(e.phase, EventPhase::NoPhase);
    assert!(!e.is_propagation_stopped());
    assert!(!e.is_immediate_propagation_stopped());
    assert!(!e.default_prevented());
    assert_eq!(*e.inner(), "payload");
}

#[test]
fn stop_immediate_also_stops_propagation() {
    let mut e = Event::new(0u8, 0u8, ());
    e.stop_immediate_propagation();
    assert!(e.is_propagation_stopped());
    assert!(e.is_immediate_propagation_stopped());
    assert!(!e.default_prevented());
}

#[test]
fn stop_propagation_alone() {
    let mut e = Event::new(0u8, 0u8, ());
    e.stop_propagation();
    assert!(e.is_propagation_stopped());
    assert!(!e.is_immediate_propagation_stopped());
    e.prevent_default();
    assert!(e.default_prevented());
    assert!(e.is_propagation_stopped());
}

#[test]
fn defaults() {
    assert_eq!(EventPhase::default(), EventPhase::NoPhase);
    assert_eq!(PointerType::default(), PointerType::Mouse);
    assert_eq!(DeltaMode::default(), DeltaMode::Pixel);
    assert_eq!(MouseButtons::default(), MouseButtons::empty());
}

#[test]
fn mouse_buttons_set() {
    let mut b = MouseButtons::empty();
    b.insert(MouseButtons::from_button(MouseButton::Primary));
    b.insert(MouseButtons::from_button(MouseButton::Fifth));
    assert_eq!(b.bits, 17);
    assert!(b.contains(MouseButtons::from_button(MouseButton::Primary)));
    b.remove(MouseButtons::from_button(MouseButton::Primary));
    assert!(!b.contains(MouseButtons::from_button(MouseButton::Primary)));
    assert_eq!(MouseButtons::from_button(MouseButton::Auxiliary).bits, 4);
}

#[test]
fn input_event_fields() {
    let e = InputEvent { data: Some("a".to_string()), is_composing: false, input_type: InputType::InsertText };
    assert_eq!(e.input_type, InputType::InsertText);
    assert_eq!(e.data.as_deref(), Some("a"));
}

#[test]
fn event_kinds_have_their_names() {
    assert_eq!(EventKind::Click.name(), "click");
    assert_eq!(EventKind::DblClick.name(), "dblclick");
    assert_eq!(EventKind::GotPointerCapture.name(), "gotpointercapture");
    assert_eq!(EventKind::BeforeInput.name(), "beforeinput");
    assert_eq!(EventKind::CompositionEnd.name(), "compositionend");
}
