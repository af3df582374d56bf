//! Free-fly debug camera: data model and the switcher.
//!
//! A camera lives in a [`CameraWorld`], an arena of [`CameraRecord`]s keyed by
//! stable integer handles. A record carrying a [`DebugCamera`] component is a
//! debug camera; a record without one is a camera of the host application (a
//! "game camera"). Per tick the embedding application runs, in this order,
//! the switcher ([`switcher_step`]), initialization
//! ([`initialization::initialize_cameras`]), focus resolution
//! ([`focus::resolve_focus`]) and the controller
//! ([`controller::control_active_camera`]), handing each the events it has
//! gathered and carrying out the notifications and actions they return.
//!
//! Angles are carried in millidegrees and times in microseconds, so that the
//! protocol's state is made of plain integers. The scroll-controlled speed
//! multiplier is carried as a discrete level: a level `l` stands for the
//! multiplier `2^(l / 4)`, and the bounds of a [`DebugCamera`]'s multiplier
//! range are the levels `floor(log2(range.start) * 4)` and
//! `ceil(log2(range.end) * 4)`, computed once by the embedding application.

pub mod controller;
pub mod focus;
pub mod initialization;

use vstd::prelude::*;

verus! {

/// After a first cycle keypress, holding the key re-fires only once this
/// cooldown, in microseconds, has elapsed.
pub const SELECTOR_NEXT_ELEMENT_THRESHOLD_US: u64 = 250_000;

/// While the cycle key stays held past the cooldown, it re-fires at this
/// fixed interval in microseconds.
pub const SELECTOR_NEXT_ELEMENT_US: u64 = 100_000;

/// Pitch is clamped to a quarter turn either way: 90 degrees in millidegrees.
pub const MOUSE_LOOK_PITCH_LIMIT_MDEG: i64 = 90_000;

/// A full turn in millidegrees; yaw is kept normalized below it.
pub const FULL_TURN_MDEG: i64 = 360_000;

/// Speed level bound standing for `floor(log2(0.001) * 4)`, the lower end of
/// the default multiplier range.
pub const DEFAULT_MIN_SPEED_LEVEL: i32 = -40;

/// Speed level bound standing for `ceil(log2(10.0) * 4)`, the upper end of
/// the default multiplier range.
pub const DEFAULT_MAX_SPEED_LEVEL: i32 = 14;

/// Configuration of the debug camera tools, chosen once when the embedding
/// application installs them.
#[derive(Clone, Copy, Debug, PartialEq, Eq)]
pub struct DebugCameraPlugin {
    /// Allows switching between cameras and spawning new debug cameras.
    pub switcher: DebugCameraSwitcher,
    /// Spawn a debug camera at the end of the tick when no camera exists.
    pub spawn_debug_camera_if_any_camera_exist: bool,
}

impl Default for DebugCameraPlugin {
    fn default() -> (r: Self)
        ensures
            r.switcher is Default,
            r.spawn_debug_camera_if_any_camera_exist,
    {
        DebugCameraPlugin {
            switcher: DebugCameraSwitcher::Default,
            spawn_debug_camera_if_any_camera_exist: true,
        }
    }
}

/// Setting for the debug camera switcher.
#[derive(Clone, Copy, Debug, PartialEq, Eq)]
pub enum DebugCameraSwitcher {
    /// The same as [`DebugCameraSwitcher::Active`], but meant to warn when it
    /// is left enabled in a release build.
    Default,
    /// The switcher handles input every tick.
    Active,
    /// The switcher is off.
    Disabled,
}

impl Default for DebugCameraSwitcher {
    fn default() -> (r: Self)
        ensures
            r is Default,
    {
        DebugCameraSwitcher::Default
    }
}

/// Debug camera component: the user-tunable parameters the protocol reads.
///
/// The engine-facing parameters that only scale floating-point movement
/// (base speed, acceleration factor, mouse sensitivity) stay with the
/// embedding application; the protocol decides with the fields here.
#[derive(Clone, Copy, Debug, PartialEq, Eq)]
pub struct DebugCamera {
    /// Intent to become the active camera. Managing it drives activation.
    pub focus: bool,
    /// Lowest speed level: stands for the lower end of the multiplier range.
    pub min_speed_level: i32,
    /// Highest speed level: stands for the upper end of the multiplier range.
    pub max_speed_level: i32,
}

impl Default for DebugCamera {
    fn default() -> (r: Self)
        ensures
            r == (DebugCamera {
                focus: true,
                min_speed_level: DEFAULT_MIN_SPEED_LEVEL,
                max_speed_level: DEFAULT_MAX_SPEED_LEVEL,
            }),
    {
        DebugCamera {
            focus: true,
            min_speed_level: DEFAULT_MIN_SPEED_LEVEL,
            max_speed_level: DEFAULT_MAX_SPEED_LEVEL,
        }
    }
}

/// Per-camera runtime state, attached by initialization once a
/// [`DebugCamera`] is first observed.
#[derive(Clone, Copy, Debug, PartialEq, Eq)]
pub struct DebugCameraData {
    /// Identifier unique among initialized debug cameras, assigned
    /// sequentially at initialization.
    pub id: u64,
    /// Tick time, in microseconds, of the last nonzero translation.
    pub last_change_position_time_us: u64,
    /// Discrete scroll counter; the multiplier it stands for is `2^(l / 4)`.
    pub speed_level: i32,
}

/// Orientation of a camera as the controller reads and writes it: yaw then
/// pitch, in millidegrees, never combined with roll.
#[derive(Clone, Copy, Debug, PartialEq, Eq)]
pub struct Orientation {
    /// Rotation about the vertical axis, kept in `[0, 360_000)`.
    pub yaw_mdeg: i64,
    /// Rotation about the sideways axis, kept in `[-90_000, 90_000]`.
    pub pitch_mdeg: i64,
}

/// How the host window holds the cursor.
#[derive(Clone, Copy, Debug, PartialEq, Eq)]
pub enum CursorGrabMode {
    /// The cursor moves freely.
    Free,
    /// The cursor cannot leave the window.
    Confined,
    /// The cursor is locked in place.
    Locked,
}

/// Cursor configuration of the host window, read and written wholesale as an
/// opaque snapshot-and-restore record.
#[derive(Clone, Copy, Debug, PartialEq, Eq)]
pub struct CursorState {
    /// Whether the cursor is drawn.
    pub visible: bool,
    /// How the window holds the cursor.
    pub grab_mode: CursorGrabMode,
}

/// The saved handle and cursor snapshot of whichever non-debug camera a debug
/// camera displaced.
#[derive(Clone, Copy, Debug, PartialEq, Eq)]
pub struct DebugCameraLastUsedOriginCameraData {
    /// Handle of the displaced camera.
    pub camera: u64,
    /// Cursor configuration of the window before the switch.
    pub cursor: CursorState,
}

/// One camera-capable record of the arena.
#[derive(Clone, Copy, Debug, PartialEq, Eq)]
pub struct CameraRecord {
    /// Stable handle; unique within the arena, never reused.
    pub handle: u64,
    /// Whether this camera renders to the primary output.
    pub is_active: bool,
    /// Dirty flag: the [`DebugCamera`] component was added or written this
    /// tick. Computed by the caller's diff, consumed by focus resolution.
    pub changed: bool,
    /// The debug camera component, if this record is a debug camera.
    pub debug_camera: Option<DebugCamera>,
    /// Runtime state, present once initialization has processed the record.
    pub data: Option<DebugCameraData>,
    /// Orientation, if one has been given to the record. Initialization
    /// defaults a missing one from the active camera.
    pub orientation: Option<Orientation>,
}

/// The arena of camera records.
pub struct CameraWorld {
    /// The records, in spawn order.
    pub cameras: Vec<CameraRecord>,
    /// Next free handle; all handles in the arena are below it.
    pub next_handle: u64,
}

/// Process-wide state of the debug camera tools, owned by the embedding
/// application for the life of the frame loop.
pub struct DebugCameraGlobalData {
    /// Template for newly spawned debug cameras.
    pub default_value: DebugCamera,
    /// Handles of debug cameras in focus order, most recently focused last.
    pub last_used_debug_cameras: Vec<u64>,
    /// The displaced non-debug camera, present exactly while a debug camera
    /// holds the output.
    pub last_used_origin_camera: Option<DebugCameraLastUsedOriginCameraData>,
    /// Tentative index into `last_used_debug_cameras` while a switch gesture
    /// is in progress; committed when the modifier is released.
    pub selected_camera: Option<usize>,
    /// Tick time, in microseconds, the cycle key last fired.
    pub last_switch_time_us: u64,
    /// Next camera id to assign; ids of initialized cameras are below it.
    pub next_id: u64,
}

impl Default for DebugCameraGlobalData {
    fn default() -> (r: Self)
        ensures
            r.default_value == (DebugCamera {
                focus: true,
                min_speed_level: DEFAULT_MIN_SPEED_LEVEL,
                max_speed_level: DEFAULT_MAX_SPEED_LEVEL,
            }),
            r.last_used_debug_cameras@ == Seq::<u64>::empty(),
            r.last_used_origin_camera is None,
            r.selected_camera is None,
            r.last_switch_time_us == 0,
            r.next_id == 1,
    {
        DebugCameraGlobalData {
            default_value: DebugCamera::default(),
            last_used_debug_cameras: Vec::new(),
            last_used_origin_camera: None,
            selected_camera: None,
            last_switch_time_us: 0,
            next_id: 1,
        }
    }
}

/// What a step of the protocol asks the embedding application to surface:
/// log lines, popups, or both.
#[derive(Clone, Copy, Debug, PartialEq, Eq)]
pub enum Notification {
    /// A new debug camera was spawned and initialized.
    SpawnedDebugCamera { id: u64 },
    /// A debug camera took the primary output.
    SwitchedToDebugCamera { id: u64 },
    /// Control returned to the displaced non-debug camera.
    SwitchedToGameCamera,
    /// A return was requested but no non-debug camera exists.
    CannotSwitchToGameCamera,
    /// The scroll wheel moved the speed level; the multiplier it stands for
    /// is `2^(level / 4)` clamped to the camera's range.
    SpeedMultiplierLevel { level: i32 },
}

/// A record is a debug camera.
pub open spec fn is_debug(c: CameraRecord) -> bool {
    c.debug_camera is Some
}

/// A record is a debug camera that initialization has processed.
pub open spec fn is_initialized_debug(c: CameraRecord) -> bool {
    c.debug_camera is Some && c.data is Some
}

/// A record is a debug camera asking for focus.
pub open spec fn wants_focus(c: CameraRecord) -> bool {
    c.debug_camera matches Some(d) && d.focus
}

/// Id of an initialized debug camera record.
pub open spec fn record_id(c: CameraRecord) -> u64
    recommends
        c.data is Some,
{
    c.data->0.id
}

/// An orientation a camera may hold: yaw normalized below a full turn, pitch
/// within the quarter-turn limit.
pub open spec fn orientation_valid(o: Orientation) -> bool {
    &&& 0 <= o.yaw_mdeg < FULL_TURN_MDEG
    &&& -MOUSE_LOOK_PITCH_LIMIT_MDEG <= o.pitch_mdeg <= MOUSE_LOOK_PITCH_LIMIT_MDEG
}

/// A debug camera component whose level range is an interval.
pub open spec fn camera_params_valid(d: DebugCamera) -> bool {
    d.min_speed_level <= d.max_speed_level
}

/// Internal coherence of one record: runtime state and the dirty flag exist
/// only on debug cameras, an initialized record has an orientation, a held
/// orientation is within the angle bounds, and the component's level range
/// is an interval.
pub open spec fn record_coherent(c: CameraRecord) -> bool {
    &&& c.data is Some ==> c.debug_camera is Some
    &&& c.changed ==> c.debug_camera is Some
    &&& c.data is Some ==> c.orientation is Some
    &&& c.orientation matches Some(o) ==> orientation_valid(o)
    &&& c.debug_camera matches Some(d) ==> camera_params_valid(d)
}

/// Handles never repeat within the arena.
pub open spec fn handles_unique(s: Seq<CameraRecord>) -> bool {
    forall|i: int, j: int|
        0 <= i < j < s.len() ==> s[i].handle != s[j].handle
}

/// Ids of initialized debug cameras never repeat.
pub open spec fn ids_unique(s: Seq<CameraRecord>) -> bool {
    forall|i: int, j: int|
        0 <= i < j < s.len() && s[i].data is Some && s[j].data is Some
            ==> record_id(s[i]) != record_id(s[j])
}

/// At most one camera renders to the primary output.
pub open spec fn at_most_one_active(s: Seq<CameraRecord>) -> bool {
    forall|i: int, j: int|
        0 <= i < j < s.len() ==> !(s[i].is_active && s[j].is_active)
}

/// Well-formed arena: unique handles below the handle counter, unique ids,
/// coherent records, and a single active camera at most.
pub open spec fn world_wf(w: CameraWorld) -> bool {
    &&& handles_unique(w.cameras@)
    &&& ids_unique(w.cameras@)
    &&& at_most_one_active(w.cameras@)
    &&& forall|i: int| 0 <= i < w.cameras@.len() ==> record_coherent(#[trigger] w.cameras@[i])
    &&& forall|i: int| 0 <= i < w.cameras@.len() ==> (#[trigger] w.cameras@[i]).handle < w.next_handle
}

/// A sequence of handles with no duplicates.
pub open spec fn no_duplicate_handles(s: Seq<u64>) -> bool {
    forall|i: int, j: int| 0 <= i < j < s.len() ==> s[i] != s[j]
}

/// The identity orientation: looking straight ahead.
pub open spec fn identity_orientation() -> Orientation {
    Orientation { yaw_mdeg: 0, pitch_mdeg: 0 }
}

/// Well-formed global state: the focus-order list repeats no handle, a
/// pending selection indexes into it, and the spawn template's level range
/// is an interval.
pub open spec fn global_wf(g: DebugCameraGlobalData) -> bool {
    &&& no_duplicate_handles(g.last_used_debug_cameras@)
    &&& g.selected_camera matches Some(i) ==> i < g.last_used_debug_cameras@.len()
    &&& camera_params_valid(g.default_value)
}

/// Well-formedness tying the arena and the global state together.
///
/// Both sides are well-formed on their own; ids sit below the id counter;
/// every handle the global state remembers sits below the handle counter;
/// a remembered focus-order handle is either stale (its camera is gone from
/// the arena) or names an initialized debug camera; the saved origin camera
/// is never a debug camera; while an origin camera is saved, only debug
/// cameras are active; and an active debug camera is always initialized.
pub open spec fn wf(w: CameraWorld, g: DebugCameraGlobalData) -> bool {
    &&& world_wf(w)
    &&& global_wf(g)
    &&& forall|i: int|
        0 <= i < w.cameras@.len() && (#[trigger] w.cameras@[i]).data is Some
            ==> record_id(w.cameras@[i]) < g.next_id
    &&& forall|k: int|
        0 <= k < g.last_used_debug_cameras@.len()
            ==> #[trigger] g.last_used_debug_cameras@[k] < w.next_handle
    &&& forall|k: int, j: int|
        0 <= k < g.last_used_debug_cameras@.len() && 0 <= j < w.cameras@.len()
            && #[trigger] g.last_used_debug_cameras@[k] == (#[trigger] w.cameras@[j]).handle
            ==> w.cameras@[j].data is Some
    &&& g.last_used_origin_camera matches Some(o) ==> o.camera < w.next_handle
    &&& g.last_used_origin_camera matches Some(o) ==> forall|j: int|
        0 <= j < w.cameras@.len() && (#[trigger] w.cameras@[j]).handle == o.camera
            ==> !is_debug(w.cameras@[j])
    &&& g.last_used_origin_camera is Some ==> forall|i: int|
        0 <= i < w.cameras@.len() && (#[trigger] w.cameras@[i]).is_active
            ==> is_debug(w.cameras@[i])
    &&& forall|i: int|
        0 <= i < w.cameras@.len() && (#[trigger] w.cameras@[i]).is_active
            && is_debug(w.cameras@[i]) ==> w.cameras@[i].data is Some
}

/// Transformations that keep each record's handle, activation, kind, id and
/// initialization state in place — touching only focus flags, dirty flags,
/// speed levels and the like — preserve well-formedness, as long as each
/// record stays coherent and the untouched global fields carry over.
pub proof fn lemma_same_shape_preserves_wf(
    w0: CameraWorld,
    g0: DebugCameraGlobalData,
    w1: CameraWorld,
    g1: DebugCameraGlobalData,
)
    requires
        wf(w0, g0),
        w1.cameras@.len() == w0.cameras@.len(),
        forall|i: int|
            0 <= i < w0.cameras@.len() ==> {
                &&& (#[trigger] w1.cameras@[i]).handle == w0.cameras@[i].handle
                &&& w1.cameras@[i].is_active == w0.cameras@[i].is_active
                &&& (w1.cameras@[i].data is Some) == (w0.cameras@[i].data is Some)
                &&& (w0.cameras@[i].data is Some ==> record_id(w1.cameras@[i]) == record_id(
                    w0.cameras@[i],
                ))
                &&& is_debug(w1.cameras@[i]) == is_debug(w0.cameras@[i])
                &&& record_coherent(w1.cameras@[i])
            },
        w1.next_handle == w0.next_handle,
        g1.last_used_debug_cameras@ == g0.last_used_debug_cameras@,
        g1.last_used_origin_camera == g0.last_used_origin_camera,
        g1.next_id == g0.next_id,
        g1.default_value == g0.default_value,
        g1.selected_camera matches Some(i) ==> i < g1.last_used_debug_cameras@.len(),
    ensures
        wf(w1, g1),
{
}

/// Per-tick input to the switcher: the held modifier and the edge and hold
/// states of its gesture keys.
#[derive(Clone, Copy, Debug, PartialEq, Eq)]
pub struct SwitcherInput {
    /// The switch modifier is held; every gesture is gated behind it.
    pub modifier_held: bool,
    /// The spawn key was just pressed.
    pub spawn_just_pressed: bool,
    /// The return-to-game-camera key was just pressed.
    pub return_just_pressed: bool,
    /// The cycle key was just pressed.
    pub cycle_just_pressed: bool,
    /// The cycle key is held.
    pub cycle_held: bool,
    /// Tick time in microseconds.
    pub now_us: u64,
}

/// A freshly spawned debug camera record: inactive, marked changed for this
/// tick's passes, not yet initialized.
pub open spec fn spawned_record(d: DebugCamera, h: u64, orient: Option<Orientation>) -> CameraRecord {
    CameraRecord {
        handle: h,
        is_active: false,
        changed: true,
        debug_camera: Some(d),
        data: None,
        orientation: orient,
    }
}

/// The arena with every initialized debug camera's focus turned off and
/// marked changed: the request to return to the game camera.
pub open spec fn unfocused_all_debug(s: Seq<CameraRecord>) -> Seq<CameraRecord> {
    Seq::new(
        s.len(),
        |i: int|
            if s[i].debug_camera is Some && s[i].data is Some {
                CameraRecord {
                    handle: s[i].handle,
                    is_active: s[i].is_active,
                    changed: true,
                    debug_camera: Some(
                        DebugCamera {
                            focus: false,
                            min_speed_level: s[i].debug_camera->0.min_speed_level,
                            max_speed_level: s[i].debug_camera->0.max_speed_level,
                        },
                    ),
                    data: s[i].data,
                    orientation: s[i].orientation,
                }
            } else {
                s[i]
            },
    )
}

/// The arena with the focus of the initialized debug camera holding handle
/// `h` turned on and marked changed: the commit of a preview selection.
pub open spec fn committed_camera(s: Seq<CameraRecord>, h: u64) -> Seq<CameraRecord> {
    Seq::new(
        s.len(),
        |i: int|
            if s[i].handle == h && s[i].debug_camera is Some && s[i].data is Some {
                CameraRecord {
                    handle: s[i].handle,
                    is_active: s[i].is_active,
                    changed: true,
                    debug_camera: Some(
                        DebugCamera {
                            focus: true,
                            min_speed_level: s[i].debug_camera->0.min_speed_level,
                            max_speed_level: s[i].debug_camera->0.max_speed_level,
                        },
                    ),
                    data: s[i].data,
                    orientation: s[i].orientation,
                }
            } else {
                s[i]
            },
    )
}

/// Some non-debug camera record exists to return to.
pub open spec fn game_camera_exists(s: Seq<CameraRecord>) -> bool {
    exists|j: int| 0 <= j < s.len() && !is_debug(#[trigger] s[j])
}

/// The cycle gesture fires on the keypress edge, and again at the repeat
/// interval while the key stays held past the armed time.
pub open spec fn cycle_fired(input: SwitcherInput, last_switch_us: u64) -> bool {
    input.cycle_just_pressed || (input.cycle_held && last_switch_us + SELECTOR_NEXT_ELEMENT_US
        < input.now_us)
}

/// The armed time after the cycle gesture was handled: a fresh keypress arms
/// a cooldown window beyond now, a repeat fire re-arms at now.
pub open spec fn cycle_last_switch(input: SwitcherInput, last_switch_us: u64) -> u64 {
    if input.cycle_just_pressed {
        (input.now_us + SELECTOR_NEXT_ELEMENT_THRESHOLD_US) as u64
    } else if cycle_fired(input, last_switch_us) {
        input.now_us
    } else {
        last_switch_us
    }
}

/// The next preview index when the cycle gesture fires: from none, start at
/// the second-to-last slot (slot 0 if only one camera exists); otherwise
/// walk backward, wrapping from 0 to the end.
pub open spec fn next_selected_index(sel: Option<usize>, len: int) -> int
    recommends
        len >= 1,
        sel matches Some(i) ==> i < len,
{
    match sel {
        Some(i) => if i == 0 {
            len - 1
        } else {
            i - 1
        },
        None => if len == 1 {
            0
        } else {
            len - 2
        },
    }
}

/// Decide whether the cycle gesture fires this tick, and re-arm its timer.
///
/// The first press fires at once and arms a cooldown window; holding the key
/// re-fires at the repeat interval once the window has elapsed.
pub fn select_next_camera_key_event(
    global: &mut DebugCameraGlobalData,
    input: &SwitcherInput,
) -> (fired: bool)
    requires
        input.now_us <= u64::MAX - SELECTOR_NEXT_ELEMENT_THRESHOLD_US,
    ensures
        fired == cycle_fired(*input, old(global).last_switch_time_us),
        final(global).last_switch_time_us == cycle_last_switch(
            *input,
            old(global).last_switch_time_us,
        ),
        final(global).default_value == old(global).default_value,
        final(global).last_used_debug_cameras@ == old(global).last_used_debug_cameras@,
        final(global).last_used_origin_camera == old(global).last_used_origin_camera,
        final(global).selected_camera == old(global).selected_camera,
        final(global).next_id == old(global).next_id,
{
    if input.cycle_just_pressed {
        global.last_switch_time_us = input.now_us + SELECTOR_NEXT_ELEMENT_THRESHOLD_US;
        return true;
    }
    if input.cycle_held && input.now_us > SELECTOR_NEXT_ELEMENT_US
        && global.last_switch_time_us < input.now_us - SELECTOR_NEXT_ELEMENT_US {
        global.last_switch_time_us = input.now_us;
        true
    } else {
        false
    }
}

/// Spawn a debug camera record from the template, with an optional preset
/// orientation, and hand back its fresh handle.
fn spawn_with(
    world: &mut CameraWorld,
    global: &DebugCameraGlobalData,
    orient: Option<Orientation>,
) -> (h: u64)
    requires
        wf(*old(world), *global),
        old(world).next_handle < u64::MAX,
        orient matches Some(o) ==> orientation_valid(o),
    ensures
        h == old(world).next_handle,
        final(world).cameras@ == old(world).cameras@.push(
            spawned_record(global.default_value, old(world).next_handle, orient),
        ),
        final(world).next_handle == old(world).next_handle + 1,
        wf(*final(world), *global),
{
    let h = world.next_handle;
    world.next_handle = world.next_handle + 1;
    world.cameras.push(
        CameraRecord {
            handle: h,
            is_active: false,
            changed: true,
            debug_camera: Some(global.default_value),
            data: None,
            orientation: orient,
        },
    );
    proof {
        let s0 = old(world).cameras@;
        let s1 = world.cameras@;
        let n = s0.len() as int;
        assert(forall|i: int| 0 <= i < n ==> s1[i] == s0[i]);
        assert(s1[n] == spawned_record(global.default_value, h, orient));
        assert forall|k: int, j: int|
            0 <= k < global.last_used_debug_cameras@.len() && 0 <= j < s1.len()
                && #[trigger] global.last_used_debug_cameras@[k] == (#[trigger] s1[j]).handle
                implies s1[j].data is Some by {
            if j < n {
                assert(s0[j].data is Some);
            } else {
                assert(global.last_used_debug_cameras@[k] < h);
                assert(false);
            }
        }
        if global.last_used_origin_camera is Some {
            let o = global.last_used_origin_camera->0;
            assert forall|j: int|
                0 <= j < s1.len() && (#[trigger] s1[j]).handle == o.camera implies !is_debug(
                s1[j],
            ) by {
                if j == n {
                    assert(o.camera < h);
                    assert(false);
                }
            }
        }
    }
    h
}

/// Spawn a new debug camera from the template with the default orientation.
///
/// The newcomer is inactive and uninitialized until the next initialization
/// pass assigns its id and runtime state.
pub fn spawn_debug_camera(world: &mut CameraWorld, global: &DebugCameraGlobalData) -> (h: u64)
    requires
        wf(*old(world), *global),
        old(world).next_handle < u64::MAX,
    ensures
        h == old(world).next_handle,
        final(world).cameras@ == old(world).cameras@.push(
            spawned_record(global.default_value, old(world).next_handle, None),
        ),
        final(world).next_handle == old(world).next_handle + 1,
        wf(*final(world), *global),
{
    spawn_with(world, global, None)
}

/// Spawn a debug camera when the arena holds no camera at all, looking back
/// at the scene from behind the origin: half a turn of yaw.
pub fn spawn_debug_camera_if_no_camera_exists(
    world: &mut CameraWorld,
    global: &DebugCameraGlobalData,
) -> (spawned: bool)
    requires
        wf(*old(world), *global),
        old(world).next_handle < u64::MAX,
    ensures
        spawned == (old(world).cameras@.len() == 0),
        spawned ==> final(world).cameras@ == old(world).cameras@.push(
            spawned_record(
                global.default_value,
                old(world).next_handle,
                Some(Orientation { yaw_mdeg: 180_000, pitch_mdeg: 0 }),
            ),
        ) && final(world).next_handle == old(world).next_handle + 1,
        !spawned ==> *final(world) == *old(world),
        wf(*final(world), *global),
{
    if world.cameras.len() == 0 {
        spawn_with(world, global, Some(Orientation { yaw_mdeg: 180_000, pitch_mdeg: 0 }));
        true
    } else {
        false
    }
}

/// Some non-debug camera record exists to return to.
fn game_camera_exists_exec(world: &CameraWorld) -> (r: bool)
    ensures
        r == game_camera_exists(world.cameras@),
{
    let n = world.cameras.len();
    let mut i: usize = 0;
    while i < n
        invariant
            n == world.cameras@.len(),
            0 <= i <= n,
            forall|j: int| 0 <= j < i ==> is_debug(#[trigger] world.cameras@[j]),
        decreases n - i,
    {
        if world.cameras[i].debug_camera.is_none() {
            return true;
        }
        i = i + 1;
    }
    false
}

/// Turn every initialized debug camera's focus off, marking each changed:
/// the request that hands the output back to the game camera.
fn unfocus_all(world: &mut CameraWorld)
    ensures
        final(world).cameras@ == unfocused_all_debug(old(world).cameras@),
        final(world).next_handle == old(world).next_handle,
{
    let ghost s0 = world.cameras@;
    let n = world.cameras.len();
    let mut i: usize = 0;
    while i < n
        invariant
            n == world.cameras@.len(),
            n == s0.len(),
            0 <= i <= n,
            forall|j: int| i <= j < n ==> world.cameras@[j] == s0[j],
            forall|j: int| 0 <= j < i ==> world.cameras@[j] == unfocused_all_debug(s0)[j],
            world.next_handle == old(world).next_handle,
        decreases n - i,
    {
        let rec = world.cameras[i];
        if rec.debug_camera.is_some() && rec.data.is_some() {
            let d = rec.debug_camera.unwrap();
            world.cameras.set(
                i,
                CameraRecord {
                    handle: rec.handle,
                    is_active: rec.is_active,
                    changed: true,
                    debug_camera: Some(
                        DebugCamera {
                            focus: false,
                            min_speed_level: d.min_speed_level,
                            max_speed_level: d.max_speed_level,
                        },
                    ),
                    data: rec.data,
                    orientation: rec.orientation,
                },
            );
        }
        i = i + 1;
    }
    proof {
        assert(world.cameras@ =~= unfocused_all_debug(s0));
    }
}

/// Turn focus on for the initialized debug camera holding handle `h`,
/// marking it changed: the commit of a preview selection. A stale handle is
/// a no-op.
fn commit_focus(world: &mut CameraWorld, h: u64)
    ensures
        final(world).cameras@ == committed_camera(old(world).cameras@, h),
        final(world).next_handle == old(world).next_handle,
{
    let ghost s0 = world.cameras@;
    let n = world.cameras.len();
    let mut i: usize = 0;
    while i < n
        invariant
            n == world.cameras@.len(),
            n == s0.len(),
            0 <= i <= n,
            forall|j: int| i <= j < n ==> world.cameras@[j] == s0[j],
            forall|j: int| 0 <= j < i ==> world.cameras@[j] == committed_camera(s0, h)[j],
            world.next_handle == old(world).next_handle,
        decreases n - i,
    {
        let rec = world.cameras[i];
        if rec.handle == h && rec.debug_camera.is_some() && rec.data.is_some() {
            let d = rec.debug_camera.unwrap();
            world.cameras.set(
                i,
                CameraRecord {
                    handle: rec.handle,
                    is_active: rec.is_active,
                    changed: true,
                    debug_camera: Some(
                        DebugCamera {
                            focus: true,
                            min_speed_level: d.min_speed_level,
                            max_speed_level: d.max_speed_level,
                        },
                    ),
                    data: rec.data,
                    orientation: rec.orientation,
                },
            );
        }
        i = i + 1;
    }
    proof {
        assert(world.cameras@ =~= committed_camera(s0, h));
    }
}

/// Ids of the cameras the selector shows, in focus order (most recent
/// last), skipping stale handles whose camera has left the arena.
pub open spec fn selector_ids(s: Seq<CameraRecord>, lru: Seq<u64>, k: int) -> Seq<u64>
    decreases k,
{
    if k <= 0 {
        Seq::empty()
    } else {
        let front = selector_ids(s, lru, k - 1);
        if exists|j: int|
            0 <= j < s.len() && (#[trigger] s[j]).handle == lru[k - 1] && s[j].data is Some {
            let j = choose|j: int|
                0 <= j < s.len() && (#[trigger] s[j]).handle == lru[k - 1] && s[j].data is Some;
            front.push(s[j].data->0.id)
        } else {
            front
        }
    }
}

/// Gather what the selector UI highlights: the ids of the debug cameras in
/// the focus order, most recent last. A stale handle is skipped. The
/// pending selection index in `global.selected_camera` points into the
/// same order.
pub fn debug_camera_selector_ids(
    world: &CameraWorld,
    global: &DebugCameraGlobalData,
) -> (ids: Vec<u64>)
    requires
        handles_unique(world.cameras@),
    ensures
        ids@ == selector_ids(
            world.cameras@,
            global.last_used_debug_cameras@,
            global.last_used_debug_cameras@.len() as int,
        ),
{
    let ghost s = world.cameras@;
    let ghost lru = global.last_used_debug_cameras@;
    let mut ids: Vec<u64> = Vec::new();
    let count = global.last_used_debug_cameras.len();
    let n = world.cameras.len();
    let mut k: usize = 0;
    while k < count
        invariant
            handles_unique(s),
            s == world.cameras@,
            lru == global.last_used_debug_cameras@,
            count == lru.len(),
            n == s.len(),
            0 <= k <= count,
            ids@ == selector_ids(s, lru, k as int),
        decreases count - k,
    {
        let h = global.last_used_debug_cameras[k];
        let mut j: usize = 0;
        let mut pushed: bool = false;
        while j < n
            invariant
                handles_unique(s),
                s == world.cameras@,
                n == s.len(),
                0 <= j <= n,
                h == lru[k as int],
                !pushed ==> forall|m: int|
                    0 <= m < j ==> !((#[trigger] s[m]).handle == h && s[m].data is Some),
                !pushed ==> ids@ == selector_ids(s, lru, k as int),
                pushed ==> exists|m: int|
                    0 <= m < s.len() && (#[trigger] s[m]).handle == h && s[m].data is Some,
                pushed ==> ids@ == selector_ids(s, lru, k + 1),
            decreases n - j,
        {
            if !pushed {
                let rec = world.cameras[j];
                if rec.handle == h && rec.data.is_some() {
                    ids.push(rec.data.unwrap().id);
                    pushed = true;
                    proof {
                        let m = choose|m: int|
                            0 <= m < s.len() && (#[trigger] s[m]).handle == h && s[m].data is Some;
                        if m < j as int {
                            assert(s[m].handle != s[j as int].handle);
                            assert(false);
                        } else if m > j as int {
                            assert(s[j as int].handle != s[m].handle);
                            assert(false);
                        }
                    }
                }
            }
            j = j + 1;
        }
        proof {
            if !pushed {
                assert(!exists|m: int|
                    0 <= m < s.len() && (#[trigger] s[m]).handle == lru[k as int] && s[m].data
                        is Some);
                assert(ids@ == selector_ids(s, lru, k + 1));
            }
        }
        k = k + 1;
    }
    ids
}

/// One switcher step: keyboard-driven cycling and spawning, gated behind the
/// held modifier.
///
/// With the modifier released, a pending preview selection is taken and —
/// unless it points at the already-most-recent slot — committed by turning
/// that camera's focus on. While the modifier is held: the spawn key spawns
/// a new debug camera and yields; the return key either unfocuses every
/// initialized debug camera or, with no game camera to return to, surfaces a
/// notification; and each firing of the cycle gesture walks the preview
/// selection backward through the focus order, spawning instead when the
/// order is empty.
pub fn switcher_step(
    world: &mut CameraWorld,
    global: &mut DebugCameraGlobalData,
    input: &SwitcherInput,
) -> (notes: Vec<Notification>)
    requires
        wf(*old(world), *old(global)),
        old(world).next_handle < u64::MAX,
        input.now_us <= u64::MAX - SELECTOR_NEXT_ELEMENT_THRESHOLD_US,
    ensures
        !input.modifier_held ==> ({
            let s0 = old(world).cameras@;
            let lru = old(global).last_used_debug_cameras@;
            &&& final(global).selected_camera is None
            &&& final(world).cameras@ == (match old(global).selected_camera {
                Some(i) => if i + 1 != lru.len() {
                    committed_camera(s0, lru[i as int])
                } else {
                    s0
                },
                None => s0,
            })
            &&& final(world).next_handle == old(world).next_handle
            &&& final(global).last_used_debug_cameras@ == lru
            &&& final(global).last_used_origin_camera == old(global).last_used_origin_camera
            &&& final(global).next_id == old(global).next_id
            &&& final(global).default_value == old(global).default_value
            &&& final(global).last_switch_time_us == old(global).last_switch_time_us
            &&& notes@ == Seq::<Notification>::empty()
        }),
        input.modifier_held && input.spawn_just_pressed ==> ({
            &&& final(world).cameras@ == old(world).cameras@.push(
                spawned_record(old(global).default_value, old(world).next_handle, None),
            )
            &&& final(world).next_handle == old(world).next_handle + 1
            &&& *final(global) == *old(global)
            &&& notes@ == Seq::<Notification>::empty()
        }),
        input.modifier_held && !input.spawn_just_pressed ==> ({
            let s0 = old(world).cameras@;
            let lru = old(global).last_used_debug_cameras@;
            let sel0 = old(global).selected_camera;
            let fired = cycle_fired(*input, old(global).last_switch_time_us);
            let returning = input.return_just_pressed && game_camera_exists(s0);
            let s_r = if returning {
                unfocused_all_debug(s0)
            } else {
                s0
            };
            &&& final(global).last_switch_time_us == cycle_last_switch(
                *input,
                old(global).last_switch_time_us,
            )
            &&& (fired && sel0 is None && lru.len() == 0) ==> ({
                &&& final(world).cameras@ == s_r.push(
                    spawned_record(old(global).default_value, old(world).next_handle, None),
                )
                &&& final(world).next_handle == old(world).next_handle + 1
                &&& final(global).selected_camera == sel0
            })
            &&& !(fired && sel0 is None && lru.len() == 0) ==> ({
                &&& final(world).cameras@ == s_r
                &&& final(world).next_handle == old(world).next_handle
                &&& final(global).selected_camera == (
                if fired {
                    Some(next_selected_index(sel0, lru.len() as int) as usize)
                } else {
                    sel0
                })
            })
            &&& notes@ == (
            if input.return_just_pressed && !game_camera_exists(s0) {
                seq![Notification::CannotSwitchToGameCamera]
            } else {
                Seq::<Notification>::empty()
            })
            &&& final(global).last_used_debug_cameras@ == lru
            &&& final(global).last_used_origin_camera == old(global).last_used_origin_camera
            &&& final(global).next_id == old(global).next_id
            &&& final(global).default_value == old(global).default_value
        }),
        wf(*final(world), *final(global)),
{
    let ghost w0 = *old(world);
    let ghost g0 = *old(global);
    let mut notes: Vec<Notification> = Vec::new();

    if !input.modifier_held {
        let sel = global.selected_camera;
        global.selected_camera = None;
        match sel {
            Some(i) => {
                let len = global.last_used_debug_cameras.len();
                if i + 1 != len {
                    let h = global.last_used_debug_cameras[i];
                    commit_focus(world, h);
                }
            },
            None => {},
        }
        proof {
            assert forall|i: int|
                0 <= i < world.cameras@.len() implies {
                &&& (#[trigger] world.cameras@[i]).handle == w0.cameras@[i].handle
                &&& world.cameras@[i].is_active == w0.cameras@[i].is_active
                &&& (world.cameras@[i].data is Some) == (w0.cameras@[i].data is Some)
                &&& (w0.cameras@[i].data is Some ==> record_id(world.cameras@[i]) == record_id(
                    w0.cameras@[i],
                ))
                &&& is_debug(world.cameras@[i]) == is_debug(w0.cameras@[i])
                &&& record_coherent(world.cameras@[i])
            } by {
                assert(record_coherent(w0.cameras@[i]));
            }
            lemma_same_shape_preserves_wf(w0, g0, *world, *global);
        }
        return notes;
    }

    // Spawn new
    if input.spawn_just_pressed {
        spawn_with(world, global, None);
        return notes;
    }

    // Switch to game camera
    if input.return_just_pressed {
        if !game_camera_exists_exec(world) {
            notes.push(Notification::CannotSwitchToGameCamera);
        } else {
            unfocus_all(world);
        }
    }
    proof {
        assert forall|i: int|
            0 <= i < world.cameras@.len() implies {
            &&& (#[trigger] world.cameras@[i]).handle == w0.cameras@[i].handle
            &&& world.cameras@[i].is_active == w0.cameras@[i].is_active
            &&& (world.cameras@[i].data is Some) == (w0.cameras@[i].data is Some)
            &&& (w0.cameras@[i].data is Some ==> record_id(world.cameras@[i]) == record_id(
                w0.cameras@[i],
            ))
            &&& is_debug(world.cameras@[i]) == is_debug(w0.cameras@[i])
            &&& record_coherent(world.cameras@[i])
        } by {
            assert(record_coherent(w0.cameras@[i]));
        }
        lemma_same_shape_preserves_wf(w0, g0, *world, *global);
    }

    // Switch to selected debug camera
    let fired = select_next_camera_key_event(global, input);
    if fired {
        let len = global.last_used_debug_cameras.len();
        match global.selected_camera {
            Some(i) => {
                global.selected_camera = Some(
                    if i == 0 {
                        len - 1
                    } else {
                        i - 1
                    },
                );
            },
            None => {
                if len == 0 {
                    proof {
                        lemma_same_shape_preserves_wf(w0, g0, *world, *global);
                    }
                    spawn_with(world, global, None);
                    return notes;
                }
                global.selected_camera = Some(
                    if len == 1 {
                        0
                    } else {
                        len - 2
                    },
                );
            },
        }
    }
    proof {
        assert forall|i: int|
            0 <= i < world.cameras@.len() implies {
            &&& (#[trigger] world.cameras@[i]).handle == w0.cameras@[i].handle
            &&& world.cameras@[i].is_active == w0.cameras@[i].is_active
            &&& (world.cameras@[i].data is Some) == (w0.cameras@[i].data is Some)
            &&& (w0.cameras@[i].data is Some ==> record_id(world.cameras@[i]) == record_id(
                w0.cameras@[i],
            ))
            &&& is_debug(world.cameras@[i]) == is_debug(w0.cameras@[i])
            &&& record_coherent(world.cameras@[i])
        } by {
            assert(record_coherent(w0.cameras@[i]));
        }
        lemma_same_shape_preserves_wf(w0, g0, *world, *global);
    }
    notes
}

} // verus!
