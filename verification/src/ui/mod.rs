//! Helpers for the transient debug UI layer.
//!
//! The embedding application owns the GUI contexts and the event queue;
//! this module shapes the popup events they carry.

pub mod popup;

use vstd::prelude::*;

use popup::{PopupEvent, PopupPosition, DEFAULT_POPUP_DURATION_MS};

verus! {

/// Creates a popup without going through the event queue: published to the
/// storage slot, centered, shown for five seconds.
pub fn popup(message: String, storage: &mut Option<PopupEvent>) -> (e: PopupEvent)
    ensures
        e.position is Center,
        e.duration_ms == DEFAULT_POPUP_DURATION_MS,
        e.message == message,
        e.is_static,
        *final(storage) == Some(e),
{
    PopupEvent::new(PopupPosition::Center, DEFAULT_POPUP_DURATION_MS, message).fetch(storage)
}

} // verus!
