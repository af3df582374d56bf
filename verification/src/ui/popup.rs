//! Transient popups: events carrying a message, a display duration and a
//! screen position, and the little state machine that keeps the last popup
//! on screen until its time runs out.
//!
//! Times are carried in milliseconds. The rendering itself — drawing the
//! message through an immediate-mode GUI — belongs to the embedding
//! application; this module decides what to draw each tick.

use vstd::prelude::*;

verus! {

/// Display duration, in milliseconds, of a popup made by
/// [`crate::ui::popup`].
pub const DEFAULT_POPUP_DURATION_MS: u64 = 5_000;

/// Position of the popup.
#[derive(Clone, Copy, Debug, PartialEq, Eq)]
pub enum PopupPosition {
    /// The center of the screen.
    Center,
    /// Just below the center of the screen.
    BelowCenter,
}

impl Default for PopupPosition {
    fn default() -> (r: Self)
        ensures
            r is Center,
    {
        PopupPosition::Center
    }
}

/// Event for showing a popup.
#[derive(Debug)]
pub struct PopupEvent {
    /// Where on the screen the popup appears.
    pub position: PopupPosition,
    /// How long the popup stays, in milliseconds.
    pub duration_ms: u64,
    /// The message shown; the embedding application renders it.
    pub message: String,
    /// A static popup re-publishes itself to the storage slot whenever a
    /// builder method reshapes it.
    pub is_static: bool,
}

impl PopupEvent {
    /// Creates a new popup event with the given position, duration and
    /// message.
    ///
    /// The value should be handed to the embedding application's event
    /// queue to show it on the screen; [`crate::ui::popup`] shows one
    /// through the storage slot instead, without the queue.
    pub fn new(position: PopupPosition, duration_ms: u64, message: String) -> (e: Self)
        ensures
            e.position == position,
            e.duration_ms == duration_ms,
            e.message == message,
            !e.is_static,
    {
        PopupEvent { position, duration_ms, message, is_static: false }
    }

    /// An identical copy of the event.
    pub fn duplicate(&self) -> (e: Self)
        ensures
            e == *self,
    {
        PopupEvent {
            position: self.position,
            duration_ms: self.duration_ms,
            message: self.message.clone(),
            is_static: self.is_static,
        }
    }

    /// Changes the duration of display, re-publishing a static popup.
    pub fn time(self, duration_ms: u64, storage: &mut Option<PopupEvent>) -> (e: Self)
        ensures
            e.position == self.position,
            e.duration_ms == duration_ms,
            e.message == self.message,
            e.is_static == self.is_static,
            self.is_static ==> *final(storage) == Some(e),
            !self.is_static ==> *final(storage) == *old(storage),
    {
        let reshaped = PopupEvent {
            position: self.position,
            duration_ms,
            message: self.message,
            is_static: self.is_static,
        };
        reshaped.fetch_if_needed(storage)
    }

    /// Changes the position of the popup, re-publishing a static popup.
    pub fn position(self, position: PopupPosition, storage: &mut Option<PopupEvent>) -> (e: Self)
        ensures
            e.position == position,
            e.duration_ms == self.duration_ms,
            e.message == self.message,
            e.is_static == self.is_static,
            self.is_static ==> *final(storage) == Some(e),
            !self.is_static ==> *final(storage) == *old(storage),
    {
        let reshaped = PopupEvent {
            position,
            duration_ms: self.duration_ms,
            message: self.message,
            is_static: self.is_static,
        };
        reshaped.fetch_if_needed(storage)
    }

    /// Marks the popup static and publishes it to the storage slot, whence
    /// the next tick's queue pass picks it up.
    pub fn fetch(self, storage: &mut Option<PopupEvent>) -> (e: Self)
        ensures
            e.position == self.position,
            e.duration_ms == self.duration_ms,
            e.message == self.message,
            e.is_static,
            *final(storage) == Some(e),
    {
        let published = PopupEvent {
            position: self.position,
            duration_ms: self.duration_ms,
            message: self.message,
            is_static: true,
        };
        *storage = Some(published.duplicate());
        published
    }

    /// Re-publishes the popup when it is static; hands it back untouched
    /// otherwise.
    fn fetch_if_needed(self, storage: &mut Option<PopupEvent>) -> (e: Self)
        ensures
            e == self,
            self.is_static ==> *final(storage) == Some(self),
            !self.is_static ==> *final(storage) == *old(storage),
    {
        if self.is_static {
            self.fetch(storage)
        } else {
            self
        }
    }
}

/// Render-side memory: the popup still being shown after its event passed.
pub struct RenderData {
    /// The last popup drawn, with its remaining duration.
    pub last: Option<PopupEvent>,
}

impl Default for RenderData {
    fn default() -> (r: Self)
        ensures
            r.last is None,
    {
        RenderData { last: None }
    }
}

/// Drain the storage slot, handing its popup to the event queue.
pub fn write_storage(storage: &mut Option<PopupEvent>) -> (e: Option<PopupEvent>)
    ensures
        e == *old(storage),
        *final(storage) is None,
{
    storage.take()
}

/// The freshest popup of this tick's queue: the last event, if any.
pub fn get_last_popup(events: &Vec<PopupEvent>) -> (e: Option<PopupEvent>)
    ensures
        events@.len() == 0 ==> e is None,
        events@.len() > 0 ==> e == Some(events@.last()),
{
    let n = events.len();
    if n == 0 {
        None
    } else {
        Some(events[n - 1].duplicate())
    }
}

/// One render tick: a fresh popup is drawn and remembered; with none, the
/// remembered popup is drawn again while its duration lasts, counting the
/// elapsed time down and letting go once it runs out.
pub fn render_step(state: &mut RenderData, incoming: Option<PopupEvent>, delta_ms: u64) -> (draw:
    Option<PopupEvent>)
    ensures
        old(state).last is None && incoming is None ==> draw is None && final(state).last is None,
        incoming matches Some(e) ==> draw == Some(e) && final(state).last == Some(e),
        incoming is None ==> (old(state).last matches Some(l) ==> draw == Some(l)
            && final(state).last == (if l.duration_ms <= delta_ms {
            None
        } else {
            Some(
                PopupEvent {
                    position: l.position,
                    duration_ms: (l.duration_ms - delta_ms) as u64,
                    message: l.message,
                    is_static: l.is_static,
                },
            )
        })),
{
    match incoming {
        Some(event) => {
            let draw = event.duplicate();
            state.last = Some(event);
            Some(draw)
        },
        None => {
            let last = state.last.take();
            match last {
                Some(l) => {
                    let draw = l.duplicate();
                    if l.duration_ms > delta_ms {
                        state.last = Some(
                            PopupEvent {
                                position: l.position,
                                duration_ms: l.duration_ms - delta_ms,
                                message: l.message,
                                is_static: l.is_static,
                            },
                        );
                    }
                    Some(draw)
                },
                None => None,
            }
        },
    }
}

} // verus!
