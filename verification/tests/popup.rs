use bevy_dev::ui::popup::{
    get_last_popup, render_step, write_storage, PopupEvent, PopupPosition, RenderData,
    DEFAULT_POPUP_DURATION_MS,
};
use bevy_dev::ui::popup;

#[test]
fn new_popup_event_carries_its_fields() {
    let e = PopupEvent::new(
        PopupPosition::BelowCenter,
        1_000,
        String::from("Switched to debug camera #1"),
    );
    assert_eq!(e.position, PopupPosition::BelowCenter);
    assert_eq!(e.duration_ms, 1_000);
    assert_eq!(e.message, "Switched to debug camera #1");
    assert!(!e.is_static);
}

#[test]
fn builders_reshape_without_publishing_plain_events() {
    let mut storage: Option<PopupEvent> = None;
    let e = PopupEvent::new(PopupPosition::Center, 1_000, String::from("hello"));
    let e = e.time(250, &mut storage);
    assert_eq!(e.duration_ms, 250);
    assert!(storage.is_none());
    let e = e.position(PopupPosition::BelowCenter, &mut storage);
    assert_eq!(e.position, PopupPosition::BelowCenter);
    assert!(storage.is_none());
}

#[test]
fn fetch_publishes_and_builders_republish_static_events() {
    let mut storage: Option<PopupEvent> = None;
    let e = PopupEvent::new(PopupPosition::Center, 1_000, String::from("pinned"));
    let e = e.fetch(&mut storage);
    assert!(e.is_static);
    assert_eq!(storage.as_ref().unwrap().message, "pinned");
    assert_eq!(storage.as_ref().unwrap().duration_ms, 1_000);

    let e = e.time(2_000, &mut storage);
    assert_eq!(e.duration_ms, 2_000);
    assert_eq!(storage.as_ref().unwrap().duration_ms, 2_000);
}

#[test]
fn popup_helper_publishes_centered_five_second_event() {
    let mut storage: Option<PopupEvent> = None;
    let e = popup(String::from("look here"), &mut storage);
    assert_eq!(e.position, PopupPosition::Center);
    assert_eq!(e.duration_ms, DEFAULT_POPUP_DURATION_MS);
    assert!(e.is_static);
    let drained = write_storage(&mut storage);
    assert_eq!(drained.unwrap().message, "look here");
    assert!(storage.is_none());
    assert!(write_storage(&mut storage).is_none());
}

#[test]
fn last_popup_of_the_queue_wins() {
    let events = vec![
        PopupEvent::new(PopupPosition::Center, 100, String::from("first")),
        PopupEvent::new(PopupPosition::Center, 100, String::from("second")),
    ];
    assert_eq!(get_last_popup(&events).unwrap().message, "second");
    let empty: Vec<PopupEvent> = Vec::new();
    assert!(get_last_popup(&empty).is_none());
}

#[test]
fn render_keeps_last_popup_until_duration_runs_out() {
    let mut state = RenderData::default();

    // Nothing to draw from a clean state.
    assert!(render_step(&mut state, None, 16).is_none());

    // A fresh popup is drawn and remembered at full duration.
    let e = PopupEvent::new(PopupPosition::BelowCenter, 40, String::from("speed"));
    let drawn = render_step(&mut state, Some(e), 16).unwrap();
    assert_eq!(drawn.message, "speed");
    assert_eq!(state.last.as_ref().unwrap().duration_ms, 40);

    // With no new event it is drawn again while the clock counts down.
    let drawn = render_step(&mut state, None, 16).unwrap();
    assert_eq!(drawn.message, "speed");
    assert_eq!(state.last.as_ref().unwrap().duration_ms, 24);

    let drawn = render_step(&mut state, None, 16).unwrap();
    assert_eq!(drawn.message, "speed");
    assert_eq!(state.last.as_ref().unwrap().duration_ms, 8);

    // The tick that exhausts the duration still draws, then lets go.
    let drawn = render_step(&mut state, None, 16).unwrap();
    assert_eq!(drawn.message, "speed");
    assert!(state.last.is_none());
    assert!(render_step(&mut state, None, 16).is_none());
}

#[test]
fn newer_event_replaces_remembered_popup() {
    let mut state = RenderData::default();
    let first = PopupEvent::new(PopupPosition::Center, 1_000, String::from("first"));
    render_step(&mut state, Some(first), 16);
    let second = PopupEvent::new(PopupPosition::Center, 500, String::from("second"));
    let drawn = render_step(&mut state, Some(second), 16).unwrap();
    assert_eq!(drawn.message, "second");
    assert_eq!(state.last.as_ref().unwrap().duration_ms, 500);
}
