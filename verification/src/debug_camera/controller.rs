//! Per-tick movement, orientation and speed control of the active debug
//! camera.

use vstd::prelude::*;

use super::{
    at_most_one_active, orientation_valid, world_wf, CameraRecord, CameraWorld, DebugCamera,
    DebugCameraData, Notification, Orientation, FULL_TURN_MDEG, MOUSE_LOOK_PITCH_LIMIT_MDEG,
};

verus! {

/// Idle time, in microseconds, after which the run-up speed falls back to the
/// base speed.
pub const RESET_SPEED_THRESHOLD_US: u64 = 200_000;

/// Generous machine bound on a single scaled mouse delta, far above any real
/// device: it keeps the orientation arithmetic inside `i64`.
pub const MAX_MOUSE_DELTA_MDEG: i64 = 0x4000_0000_0000_0000;

/// One scroll-wheel event: whole steps of the speed level, upward positive.
#[derive(Clone, Copy, Debug, PartialEq, Eq)]
pub struct ScrollEvent {
    /// Steps the wheel moved; positive is up.
    pub steps: i32,
}

/// One mouse-motion event, already scaled by the camera's sensitivity into
/// millidegrees by the embedding application.
#[derive(Clone, Copy, Debug, PartialEq, Eq)]
pub struct MouseMotionEvent {
    /// Yaw decrease in millidegrees (motion to the right turns clockwise).
    pub yaw_mdeg: i64,
    /// Pitch decrease in millidegrees (motion downward looks down).
    pub pitch_mdeg: i64,
}

/// Which movement keys are held this tick.
#[derive(Clone, Copy, Debug, PartialEq, Eq, Default)]
pub struct MovementKeys {
    pub forward: bool,
    pub backward: bool,
    pub left: bool,
    pub right: bool,
    pub up: bool,
    pub down: bool,
}

/// A movement direction in the camera's local axes, one unit per axis at
/// most. The embedding application normalizes and scales it.
#[derive(Clone, Copy, Debug, PartialEq, Eq)]
pub struct MoveDirection {
    /// Sideways: right minus left.
    pub x: i8,
    /// Vertical: up minus down.
    pub y: i8,
    /// Along the view axis: backward minus forward.
    pub z: i8,
}

/// The movement direction is the zero vector.
pub open spec fn direction_is_zero(d: MoveDirection) -> bool {
    d.x == 0 && d.y == 0 && d.z == 0
}

/// One axis of the movement direction: the held positive key minus the held
/// negative key.
pub open spec fn axis_of_keys(positive: bool, negative: bool) -> i8 {
    if positive == negative {
        0i8
    } else if positive {
        1i8
    } else {
        -1i8
    }
}

/// The direction the held keys stand for.
pub open spec fn direction_of_keys(k: MovementKeys) -> MoveDirection {
    MoveDirection {
        x: axis_of_keys(k.right, k.left),
        y: axis_of_keys(k.up, k.down),
        z: axis_of_keys(k.backward, k.forward),
    }
}

/// Accumulate the held movement keys into a direction in the camera's local
/// axes. Opposed keys cancel; the zero direction stands for "no movement".
pub fn move_direction(keys: MovementKeys) -> (d: MoveDirection)
    ensures
        d == direction_of_keys(keys),
        -1 <= d.x <= 1 && -1 <= d.y <= 1 && -1 <= d.z <= 1,
{
    let x: i8 = if keys.right == keys.left {
        0
    } else if keys.right {
        1
    } else {
        -1
    };
    let y: i8 = if keys.up == keys.down {
        0
    } else if keys.up {
        1
    } else {
        -1
    };
    let z: i8 = if keys.backward == keys.forward {
        0
    } else if keys.backward {
        1
    } else {
        -1
    };
    MoveDirection { x, y, z }
}

/// Clamp of a mathematical integer to a closed interval.
pub open spec fn clamped(v: int, lo: int, hi: int) -> int {
    if v < lo {
        lo
    } else if v > hi {
        hi
    } else {
        v
    }
}

/// The speed level after one scroll event: moved by the event's steps, then
/// clamped to the camera's level range.
pub open spec fn scrolled_level(level: i32, steps: i32, cam: DebugCamera) -> int {
    clamped(level + steps, cam.min_speed_level as int, cam.max_speed_level as int)
}

/// Apply one scroll event to a speed level.
///
/// The result never leaves the camera's level range, and while the moved
/// level stays inside the range it moves by exactly the event's steps.
pub fn scroll_step(level: i32, event: ScrollEvent, cam: &DebugCamera) -> (r: i32)
    requires
        cam.min_speed_level <= cam.max_speed_level,
    ensures
        r == scrolled_level(level, event.steps, *cam),
        cam.min_speed_level <= r <= cam.max_speed_level,
{
    let moved: i64 = level as i64 + event.steps as i64;
    if moved < cam.min_speed_level as i64 {
        cam.min_speed_level
    } else if moved > cam.max_speed_level as i64 {
        cam.max_speed_level
    } else {
        moved as i32
    }
}

/// The speed level after a whole sequence of scroll events.
pub open spec fn scrolled_level_seq(level: i32, events: Seq<ScrollEvent>, cam: DebugCamera) -> int
    decreases events.len(),
{
    if events.len() == 0 {
        level as int
    } else {
        clamped(
            scrolled_level_seq(level, events.drop_last(), cam) + events.last().steps,
            cam.min_speed_level as int,
            cam.max_speed_level as int,
        )
    }
}

/// Once any scroll event has been applied, the level is inside the camera's
/// range, whatever the events' magnitude or count.
pub proof fn lemma_scrolled_level_seq_in_range(
    level: i32,
    events: Seq<ScrollEvent>,
    cam: DebugCamera,
)
    requires
        cam.min_speed_level <= cam.max_speed_level,
        events.len() > 0,
    ensures
        cam.min_speed_level <= scrolled_level_seq(level, events, cam) <= cam.max_speed_level,
{
}

/// An upward scroll event raises the level strictly, as long as the level
/// sits below the top of the range and at or above its bottom.
pub proof fn lemma_scroll_up_strictly_increases(level: i32, steps: i32, cam: DebugCamera)
    requires
        cam.min_speed_level <= level < cam.max_speed_level,
        steps > 0,
    ensures
        scrolled_level(level, steps, cam) > level,
{
}

/// Yaw folded into `[0, 360_000)`: the same bearing, normalized.
pub open spec fn normalized_yaw(yaw: int) -> int {
    yaw % (FULL_TURN_MDEG as int)
}

/// The orientation after one mouse-motion event: pitch moves and is clamped
/// to the quarter-turn limit, yaw moves and is normalized below a full turn.
pub open spec fn rotated_orientation(o: Orientation, m: MouseMotionEvent) -> Orientation {
    Orientation {
        yaw_mdeg: normalized_yaw(o.yaw_mdeg - m.yaw_mdeg) as i64,
        pitch_mdeg: clamped(
            o.pitch_mdeg - m.pitch_mdeg,
            -MOUSE_LOOK_PITCH_LIMIT_MDEG as int,
            MOUSE_LOOK_PITCH_LIMIT_MDEG as int,
        ) as i64,
    }
}

/// Apply one mouse-motion event to an orientation.
///
/// Pitch never leaves the quarter-turn limit, whatever the delta's magnitude;
/// yaw stays a normalized bearing.
pub fn rotate_step(o: Orientation, motion: MouseMotionEvent) -> (r: Orientation)
    requires
        orientation_valid(o),
        -MAX_MOUSE_DELTA_MDEG <= motion.yaw_mdeg <= MAX_MOUSE_DELTA_MDEG,
        -MAX_MOUSE_DELTA_MDEG <= motion.pitch_mdeg <= MAX_MOUSE_DELTA_MDEG,
    ensures
        r == rotated_orientation(o, motion),
        orientation_valid(r),
{
    let turned: i64 = o.yaw_mdeg - motion.yaw_mdeg;
    let remainder: i64 = turned % FULL_TURN_MDEG;
    let yaw: i64 = if remainder < 0 {
        remainder + FULL_TURN_MDEG
    } else {
        remainder
    };
    let tilted: i64 = o.pitch_mdeg - motion.pitch_mdeg;
    let pitch: i64 = if tilted < -MOUSE_LOOK_PITCH_LIMIT_MDEG {
        -MOUSE_LOOK_PITCH_LIMIT_MDEG
    } else if tilted > MOUSE_LOOK_PITCH_LIMIT_MDEG {
        MOUSE_LOOK_PITCH_LIMIT_MDEG
    } else {
        tilted
    };
    Orientation { yaw_mdeg: yaw, pitch_mdeg: pitch }
}

/// The orientation after a whole sequence of mouse-motion events.
pub open spec fn rotated_orientation_seq(o: Orientation, ms: Seq<MouseMotionEvent>) -> Orientation
    decreases ms.len(),
{
    if ms.len() == 0 {
        o
    } else {
        rotated_orientation(rotated_orientation_seq(o, ms.drop_last()), ms.last())
    }
}

/// Pitch never exceeds the quarter-turn limit, whatever the accumulated
/// mouse-delta magnitude: every step clamps it back into the limit.
pub proof fn lemma_pitch_never_exceeds_limit(o: Orientation, ms: Seq<MouseMotionEvent>)
    requires
        -MOUSE_LOOK_PITCH_LIMIT_MDEG <= o.pitch_mdeg <= MOUSE_LOOK_PITCH_LIMIT_MDEG,
    ensures
        -MOUSE_LOOK_PITCH_LIMIT_MDEG <= rotated_orientation_seq(o, ms).pitch_mdeg
            <= MOUSE_LOOK_PITCH_LIMIT_MDEG,
{
}

/// Folding mouse motion into a valid orientation keeps it valid: yaw stays a
/// normalized bearing and pitch stays within the quarter-turn limit.
pub proof fn lemma_rotated_orientation_seq_valid(o: Orientation, ms: Seq<MouseMotionEvent>)
    requires
        orientation_valid(o),
    ensures
        orientation_valid(rotated_orientation_seq(o, ms)),
{
}

/// Every mouse event's scaled deltas sit within the generous machine bound.
pub open spec fn mouse_events_bounded(ms: Seq<MouseMotionEvent>) -> bool {
    forall|k: int|
        0 <= k < ms.len() ==> {
            &&& -MAX_MOUSE_DELTA_MDEG <= (#[trigger] ms[k]).yaw_mdeg <= MAX_MOUSE_DELTA_MDEG
            &&& -MAX_MOUSE_DELTA_MDEG <= ms[k].pitch_mdeg <= MAX_MOUSE_DELTA_MDEG
        }
}

/// A record holding the primary output as an initialized debug camera: the
/// one the controller flies.
pub open spec fn is_active_debug(c: CameraRecord) -> bool {
    c.is_active && c.debug_camera is Some && c.data is Some
}

/// Some initialized debug camera holds the primary output.
pub open spec fn some_active_debug(s: Seq<CameraRecord>) -> bool {
    exists|i: int| 0 <= i < s.len() && is_active_debug(#[trigger] s[i])
}

/// Index of the flown camera; meaningful when one is active.
pub open spec fn active_debug_index(s: Seq<CameraRecord>) -> int {
    choose|i: int| 0 <= i < s.len() && is_active_debug(#[trigger] s[i])
}

/// Per-tick input to the controller: held movement keys, drained scroll and
/// mouse-motion queues, and the tick time.
pub struct ControllerInput {
    /// Movement keys held this tick.
    pub movement: MovementKeys,
    /// Scroll-wheel events gathered this tick, in order.
    pub scroll: Vec<ScrollEvent>,
    /// Mouse-motion events gathered this tick, in order, already scaled by
    /// the camera's sensitivity.
    pub mouse: Vec<MouseMotionEvent>,
    /// Tick time in microseconds.
    pub now_us: u64,
}

/// What the controller decided, for the embedding application to carry out
/// with its floating-point movement state.
pub struct ControllerOutput {
    /// Movement direction in the camera's local axes; the application
    /// normalizes it (zero stays zero) and scales it by
    /// `current_speed * multiplier * elapsed_seconds`.
    pub direction: MoveDirection,
    /// Some translation occurred this tick: the application grows
    /// `current_speed` exponentially.
    pub moved: bool,
    /// The camera idled past the threshold: the application resets
    /// `current_speed` to the base speed.
    pub reset_speed: bool,
    /// Speed level after the scroll events; the multiplier it stands for is
    /// `2^(level / 4)` clamped to the camera's range.
    pub speed_level: i32,
    /// One speed notification per scroll event, carrying the level reached.
    pub notes: Vec<Notification>,
}

/// The flown record after the controller ran on it.
pub open spec fn controlled_record(c: CameraRecord, input: ControllerInput) -> CameraRecord {
    let cam = c.debug_camera->0;
    let d = c.data->0;
    let moved = !direction_is_zero(direction_of_keys(input.movement));
    CameraRecord {
        handle: c.handle,
        is_active: c.is_active,
        changed: c.changed,
        debug_camera: c.debug_camera,
        data: Some(
            DebugCameraData {
                id: d.id,
                last_change_position_time_us: if moved {
                    input.now_us
                } else {
                    d.last_change_position_time_us
                },
                speed_level: scrolled_level_seq(d.speed_level, input.scroll@, cam) as i32,
            },
        ),
        orientation: Some(rotated_orientation_seq(c.orientation->0, input.mouse@)),
    }
}

/// The initialized debug camera holding the primary output, if any.
fn find_active_debug(cameras: &Vec<CameraRecord>) -> (r: Option<usize>)
    ensures
        r matches Some(i) ==> i < cameras@.len() && is_active_debug(cameras@[i as int]),
        r is None ==> !some_active_debug(cameras@),
{
    let n = cameras.len();
    let mut i: usize = 0;
    while i < n
        invariant
            n == cameras@.len(),
            0 <= i <= n,
            forall|j: int| 0 <= j < i ==> !is_active_debug(#[trigger] cameras@[j]),
        decreases n - i,
    {
        let rec = cameras[i];
        if rec.is_active && rec.debug_camera.is_some() && rec.data.is_some() {
            return Some(i);
        }
        i = i + 1;
    }
    None
}

/// Fly the active debug camera for one tick: scroll events move its clamped
/// speed level, mouse motion turns it (pitch clamped to the quarter-turn
/// limit), held keys give a movement direction, and idling past the
/// threshold asks the application to reset its run-up speed. A no-op when no
/// initialized debug camera is active.
pub fn control_active_camera(world: &mut CameraWorld, input: &ControllerInput) -> (r: Option<
    ControllerOutput,
>)
    requires
        world_wf(*old(world)),
        mouse_events_bounded(input.mouse@),
    ensures
        r is Some <==> some_active_debug(old(world).cameras@),
        r is None ==> final(world).cameras@ == old(world).cameras@,
        r matches Some(out) ==> ({
            let s0 = old(world).cameras@;
            let a = active_debug_index(s0);
            let c = s0[a];
            let cam = c.debug_camera->0;
            let d = c.data->0;
            &&& 0 <= a < s0.len()
            &&& is_active_debug(c)
            &&& final(world).cameras@ == s0.update(a, controlled_record(c, *input))
            &&& out.direction == direction_of_keys(input.movement)
            &&& out.moved == !direction_is_zero(out.direction)
            &&& out.speed_level == scrolled_level_seq(d.speed_level, input.scroll@, cam)
            &&& out.reset_speed == (!out.moved && d.last_change_position_time_us
                + RESET_SPEED_THRESHOLD_US < input.now_us)
            &&& out.notes@.len() == input.scroll@.len()
            &&& forall|k: int|
                0 <= k < out.notes@.len() ==> out.notes@[k] == (Notification::SpeedMultiplierLevel {
                    level: scrolled_level_seq(
                        d.speed_level,
                        input.scroll@.subrange(0, k + 1),
                        cam,
                    ) as i32,
                })
        }),
        final(world).next_handle == old(world).next_handle,
        world_wf(*final(world)),
{
    let ghost s0 = world.cameras@;
    let found = find_active_debug(&world.cameras);
    let idx: usize = match found {
        Some(i) => i,
        None => {
            proof {
                assert(!some_active_debug(s0));
            }
            return None;
        },
    };
    proof {
        assert(is_active_debug(s0[idx as int]));
        assert(some_active_debug(s0));
        let c = active_debug_index(s0);
        assert(0 <= c < s0.len() && is_active_debug(s0[c]));
        if c < idx as int {
            assert(s0[c].is_active && s0[idx as int].is_active);
            assert(false);
        } else if c > idx as int {
            assert(s0[idx as int].is_active && s0[c].is_active);
            assert(false);
        }
    }
    let rec = world.cameras[idx];
    let cam = rec.debug_camera.unwrap();
    let data = rec.data.unwrap();
    let mut orient = rec.orientation.unwrap();

    // Speed: fold the scroll events into the clamped level.
    let mut level: i32 = data.speed_level;
    let mut notes: Vec<Notification> = Vec::new();
    let scroll_count = input.scroll.len();
    let mut k: usize = 0;
    while k < scroll_count
        invariant
            super::camera_params_valid(cam),
            scroll_count == input.scroll@.len(),
            0 <= k <= scroll_count,
            level == scrolled_level_seq(data.speed_level, input.scroll@.subrange(0, k as int), cam),
            notes@.len() == k,
            forall|j: int|
                0 <= j < k ==> notes@[j] == (Notification::SpeedMultiplierLevel {
                    level: scrolled_level_seq(
                        data.speed_level,
                        input.scroll@.subrange(0, j + 1),
                        cam,
                    ) as i32,
                }),
        decreases scroll_count - k,
    {
        level = scroll_step(level, input.scroll[k], &cam);
        notes.push(Notification::SpeedMultiplierLevel { level });
        proof {
            assert(input.scroll@.subrange(0, k + 1).drop_last() =~= input.scroll@.subrange(
                0,
                k as int,
            ));
            assert(input.scroll@.subrange(0, k + 1).last() == input.scroll@[k as int]);
        }
        k = k + 1;
    }
    proof {
        assert(input.scroll@.subrange(0, scroll_count as int) =~= input.scroll@);
    }

    // Position: accumulate the held keys into a direction.
    let dir = move_direction(input.movement);
    let moved = !(dir.x == 0 && dir.y == 0 && dir.z == 0);

    // Rotation: fold the mouse-motion events into the orientation.
    let mouse_count = input.mouse.len();
    let mut m: usize = 0;
    while m < mouse_count
        invariant
            mouse_events_bounded(input.mouse@),
            mouse_count == input.mouse@.len(),
            0 <= m <= mouse_count,
            orientation_valid(orient),
            orient == rotated_orientation_seq(
                rec.orientation->0,
                input.mouse@.subrange(0, m as int),
            ),
        decreases mouse_count - m,
    {
        orient = rotate_step(orient, input.mouse[m]);
        proof {
            assert(input.mouse@.subrange(0, m + 1).drop_last() =~= input.mouse@.subrange(
                0,
                m as int,
            ));
            assert(input.mouse@.subrange(0, m + 1).last() == input.mouse@[m as int]);
        }
        m = m + 1;
    }
    proof {
        assert(input.mouse@.subrange(0, mouse_count as int) =~= input.mouse@);
    }

    // Speed run-up: reset after idling past the threshold.
    let reset = !moved && input.now_us > RESET_SPEED_THRESHOLD_US
        && data.last_change_position_time_us < input.now_us - RESET_SPEED_THRESHOLD_US;
    let last_change = if moved {
        input.now_us
    } else {
        data.last_change_position_time_us
    };

    world.cameras.set(
        idx,
        CameraRecord {
            handle: rec.handle,
            is_active: rec.is_active,
            changed: rec.changed,
            debug_camera: rec.debug_camera,
            data: Some(
                DebugCameraData {
                    id: data.id,
                    last_change_position_time_us: last_change,
                    speed_level: level,
                },
            ),
            orientation: Some(orient),
        },
    );
    proof {
        let a = active_debug_index(s0);
        assert(world.cameras@ =~= s0.update(a, controlled_record(s0[a], *input)));
        assert forall|i: int| 0 <= i < world.cameras@.len() implies super::record_coherent(
            #[trigger] world.cameras@[i],
        ) by {
            assert(super::record_coherent(s0[i]));
        }
        assert(at_most_one_active(world.cameras@));
        assert(super::handles_unique(world.cameras@));
        assert(super::ids_unique(world.cameras@));
    }
    Some(ControllerOutput { direction: dir, moved, reset_speed: reset, speed_level: level, notes })
}

/// Law: flying the active camera preserves the protocol's combined
/// well-formedness with any global state — the controller touches only the
/// flown record's runtime counters and orientation, never handles, ids,
/// activation or the focus order.
pub proof fn lemma_controller_preserves_wf(
    w0: CameraWorld,
    g: super::DebugCameraGlobalData,
    w1: CameraWorld,
    input: ControllerInput,
)
    requires
        super::wf(w0, g),
        some_active_debug(w0.cameras@),
        w1.cameras@ == w0.cameras@.update(
            active_debug_index(w0.cameras@),
            controlled_record(w0.cameras@[active_debug_index(w0.cameras@)], input),
        ),
        w1.next_handle == w0.next_handle,
    ensures
        super::wf(w1, g),
{
    let s0 = w0.cameras@;
    let a = active_debug_index(s0);
    assert(0 <= a < s0.len() && is_active_debug(s0[a]));
    assert forall|i: int|
        0 <= i < s0.len() implies {
        &&& (#[trigger] w1.cameras@[i]).handle == s0[i].handle
        &&& w1.cameras@[i].is_active == s0[i].is_active
        &&& (w1.cameras@[i].data is Some) == (s0[i].data is Some)
        &&& (s0[i].data is Some ==> super::record_id(w1.cameras@[i]) == super::record_id(s0[i]))
        &&& super::is_debug(w1.cameras@[i]) == super::is_debug(s0[i])
        &&& super::record_coherent(w1.cameras@[i])
    } by {
        assert(super::record_coherent(s0[i]));
        if i == a {
            lemma_rotated_orientation_seq_valid(s0[a].orientation->0, input.mouse@);
        }
    }
    super::lemma_same_shape_preserves_wf(w0, g, w1, g);
}

} // verus!
