use bevy_dev::debug_camera::controller::{
    control_active_camera, ControllerInput, MouseMotionEvent, MovementKeys, ScrollEvent,
};
use bevy_dev::debug_camera::focus::resolve_focus;
use bevy_dev::debug_camera::initialization::initialize_cameras;
use bevy_dev::debug_camera::{
    debug_camera_selector_ids, spawn_debug_camera, spawn_debug_camera_if_no_camera_exists,
    switcher_step, CameraRecord, CameraWorld, CursorGrabMode, CursorState, DebugCamera,
    DebugCameraGlobalData, DebugCameraPlugin, DebugCameraSwitcher, Notification, Orientation,
    SwitcherInput,
};

fn game_camera(handle: u64, active: bool) -> CameraRecord {
    CameraRecord {
        handle,
        is_active: active,
        changed: false,
        debug_camera: None,
        data: None,
        orientation: Some(Orientation {
            yaw_mdeg: 0,
            pitch_mdeg: 0,
        }),
    }
}

fn world_with_game_camera() -> CameraWorld {
    CameraWorld {
        cameras: vec![game_camera(1, true)],
        next_handle: 2,
    }
}

fn idle_switcher_input(now_us: u64) -> SwitcherInput {
    SwitcherInput {
        modifier_held: false,
        spawn_just_pressed: false,
        return_just_pressed: false,
        cycle_just_pressed: false,
        cycle_held: false,
        now_us,
    }
}

fn quiet_controller_input(now_us: u64) -> ControllerInput {
    ControllerInput {
        movement: MovementKeys::default(),
        scroll: Vec::new(),
        mouse: Vec::new(),
        now_us,
    }
}

fn find(world: &CameraWorld, handle: u64) -> &CameraRecord {
    world
        .cameras
        .iter()
        .find(|c| c.handle == handle)
        .expect("record should exist")
}

fn active_handles(world: &CameraWorld) -> Vec<u64> {
    world
        .cameras
        .iter()
        .filter(|c| c.is_active)
        .map(|c| c.handle)
        .collect()
}

/// Spawn a focused debug camera, run initialization and focus resolution,
/// and hand back its handle.
fn spawn_and_focus(world: &mut CameraWorld, global: &mut DebugCameraGlobalData, cursor: &mut CursorState) -> u64 {
    let h = spawn_debug_camera(world, global);
    initialize_cameras(world, global);
    resolve_focus(world, global, cursor);
    h
}

#[test]
fn spawning_focused_camera_displaces_game_camera() {
    // Scenario: spawn camera A with focus = true while game camera G is
    // active. G deactivates, the cursor locks and hides, A activates, and
    // the origin slot holds G with the saved cursor.
    let mut world = world_with_game_camera();
    let mut global = DebugCameraGlobalData::default();
    let mut cursor = CursorState {
        visible: true,
        grab_mode: CursorGrabMode::Free,
    };
    let saved_cursor = cursor;

    let a = spawn_debug_camera(&mut world, &global);
    assert_eq!(a, 2);
    let init_notes = initialize_cameras(&mut world, &mut global);
    assert_eq!(init_notes, vec![Notification::SpawnedDebugCamera { id: 1 }]);

    let notes = resolve_focus(&mut world, &mut global, &mut cursor);
    assert_eq!(notes, vec![Notification::SwitchedToDebugCamera { id: 1 }]);

    assert!(find(&world, a).is_active);
    assert!(!find(&world, 1).is_active);
    assert_eq!(active_handles(&world), vec![a]);
    assert!(!cursor.visible);
    assert_eq!(cursor.grab_mode, CursorGrabMode::Locked);

    let origin = global.last_used_origin_camera.expect("origin should be saved");
    assert_eq!(origin.camera, 1);
    assert_eq!(origin.cursor, saved_cursor);
    assert_eq!(global.last_used_debug_cameras, vec![a]);
}

#[test]
fn unfocusing_every_debug_camera_restores_game_camera() {
    // Scenario: with A active, set every debug camera's focus to false.
    // A deactivates, G reactivates, the cursor is restored, and the origin
    // slot is cleared.
    let mut world = world_with_game_camera();
    let mut global = DebugCameraGlobalData::default();
    let mut cursor = CursorState {
        visible: true,
        grab_mode: CursorGrabMode::Confined,
    };
    let saved_cursor = cursor;
    let a = spawn_and_focus(&mut world, &mut global, &mut cursor);
    assert!(find(&world, a).is_active);

    // Return gesture: modifier held, return key pressed.
    let input = SwitcherInput {
        modifier_held: true,
        return_just_pressed: true,
        ..idle_switcher_input(1_000_000)
    };
    let sw_notes = switcher_step(&mut world, &mut global, &input);
    assert!(sw_notes.is_empty());

    let notes = resolve_focus(&mut world, &mut global, &mut cursor);
    assert_eq!(notes, vec![Notification::SwitchedToGameCamera]);

    assert!(!find(&world, a).is_active);
    assert!(find(&world, 1).is_active);
    assert_eq!(cursor, saved_cursor);
    assert!(global.last_used_origin_camera.is_none());
}

#[test]
fn cursor_snapshot_round_trip_reproduces_pair() {
    // Round-trip: the restored cursor equals the exact visibility and
    // grab-mode pair that was saved.
    for (visible, grab) in [
        (true, CursorGrabMode::Free),
        (false, CursorGrabMode::Confined),
        (true, CursorGrabMode::Locked),
    ] {
        let mut world = world_with_game_camera();
        let mut global = DebugCameraGlobalData::default();
        let mut cursor = CursorState {
            visible,
            grab_mode: grab,
        };
        spawn_and_focus(&mut world, &mut global, &mut cursor);
        let input = SwitcherInput {
            modifier_held: true,
            return_just_pressed: true,
            ..idle_switcher_input(0)
        };
        switcher_step(&mut world, &mut global, &input);
        resolve_focus(&mut world, &mut global, &mut cursor);
        assert_eq!(
            cursor,
            CursorState {
                visible,
                grab_mode: grab
            }
        );
    }
}

#[test]
fn focus_resolution_is_idempotent_within_a_tick() {
    // Idempotence: resolving focus twice with no new changes leaves the
    // active-camera assignment, order, origin and cursor unchanged.
    let mut world = world_with_game_camera();
    let mut global = DebugCameraGlobalData::default();
    let mut cursor = CursorState {
        visible: true,
        grab_mode: CursorGrabMode::Free,
    };
    spawn_and_focus(&mut world, &mut global, &mut cursor);

    let actives = active_handles(&world);
    let order = global.last_used_debug_cameras.clone();
    let origin = global.last_used_origin_camera;
    let cursor_before = cursor;

    let notes = resolve_focus(&mut world, &mut global, &mut cursor);
    assert!(notes.is_empty());
    assert_eq!(active_handles(&world), actives);
    assert_eq!(global.last_used_debug_cameras, order);
    assert_eq!(global.last_used_origin_camera, origin);
    assert_eq!(cursor, cursor_before);
}

#[test]
fn focus_order_moves_winner_to_tail_without_duplicates() {
    // Each focus event moves its camera to the tail of the order; the
    // order never repeats a handle.
    let mut world = world_with_game_camera();
    let mut global = DebugCameraGlobalData::default();
    let mut cursor = CursorState {
        visible: true,
        grab_mode: CursorGrabMode::Free,
    };
    let a = spawn_and_focus(&mut world, &mut global, &mut cursor);
    let b = spawn_and_focus(&mut world, &mut global, &mut cursor);
    let c = spawn_and_focus(&mut world, &mut global, &mut cursor);
    assert_eq!(global.last_used_debug_cameras, vec![a, b, c]);

    // Focus B again through the commit path: select index 1, release.
    global.selected_camera = Some(1);
    switcher_step(&mut world, &mut global, &idle_switcher_input(0));
    resolve_focus(&mut world, &mut global, &mut cursor);

    assert_eq!(global.last_used_debug_cameras, vec![a, c, b]);
    assert_eq!(active_handles(&world), vec![b]);
    let mut sorted = global.last_used_debug_cameras.clone();
    sorted.sort_unstable();
    sorted.dedup();
    assert_eq!(sorted.len(), 3);
}

#[test]
fn highest_id_wins_focus_tie() {
    // Two debug cameras change to focus in the same tick: the documented
    // tie-break activates the one with the highest id.
    let mut world = world_with_game_camera();
    let mut global = DebugCameraGlobalData::default();
    let mut cursor = CursorState {
        visible: true,
        grab_mode: CursorGrabMode::Free,
    };
    let a = spawn_debug_camera(&mut world, &global);
    let b = spawn_debug_camera(&mut world, &global);
    initialize_cameras(&mut world, &mut global);
    let notes = resolve_focus(&mut world, &mut global, &mut cursor);

    // a got id 1, b got id 2; b wins.
    assert_eq!(active_handles(&world), vec![b]);
    assert_eq!(notes, vec![Notification::SwitchedToDebugCamera { id: 2 }]);
    // The loser's focus was forced off without re-marking it changed.
    assert!(!find(&world, a).debug_camera.unwrap().focus);
    assert!(!find(&world, a).changed);
}

#[test]
fn cycling_walks_backward_and_commits_only_on_release() {
    // Scenario: hold the modifier and press cycle three times with cameras
    // [A, B, C] (C most recent): the preview selection walks index(B),
    // index(A), then wraps to index(C); nothing commits until release.
    let mut world = world_with_game_camera();
    let mut global = DebugCameraGlobalData::default();
    let mut cursor = CursorState {
        visible: true,
        grab_mode: CursorGrabMode::Free,
    };
    let a = spawn_and_focus(&mut world, &mut global, &mut cursor);
    let b = spawn_and_focus(&mut world, &mut global, &mut cursor);
    let c = spawn_and_focus(&mut world, &mut global, &mut cursor);
    assert_eq!(global.last_used_debug_cameras, vec![a, b, c]);
    let focus_flags_before: Vec<bool> = world
        .cameras
        .iter()
        .filter_map(|r| r.debug_camera.map(|d| d.focus))
        .collect();

    let cycle = |now: u64| SwitcherInput {
        modifier_held: true,
        cycle_just_pressed: true,
        cycle_held: true,
        ..idle_switcher_input(now)
    };
    switcher_step(&mut world, &mut global, &cycle(1_000_000));
    assert_eq!(global.selected_camera, Some(1)); // index of B
    switcher_step(&mut world, &mut global, &cycle(2_000_000));
    assert_eq!(global.selected_camera, Some(0)); // index of A
    switcher_step(&mut world, &mut global, &cycle(3_000_000));
    assert_eq!(global.selected_camera, Some(2)); // wraps to index of C

    // Still nothing committed: focus flags unchanged.
    let focus_flags_now: Vec<bool> = world
        .cameras
        .iter()
        .filter_map(|r| r.debug_camera.map(|d| d.focus))
        .collect();
    assert_eq!(focus_flags_now, focus_flags_before);

    // Release at index(C): C already sits in the most-recent slot, so the
    // release is a no-op apart from clearing the selection.
    switcher_step(&mut world, &mut global, &idle_switcher_input(4_000_000));
    assert_eq!(global.selected_camera, None);
    let focus_flags_after: Vec<bool> = world
        .cameras
        .iter()
        .filter_map(|r| r.debug_camera.map(|d| d.focus))
        .collect();
    assert_eq!(focus_flags_after, focus_flags_before);
}

#[test]
fn cycle_repeat_fires_only_past_cooldown_and_interval() {
    let mut world = world_with_game_camera();
    let mut global = DebugCameraGlobalData::default();
    let mut cursor = CursorState {
        visible: true,
        grab_mode: CursorGrabMode::Free,
    };
    spawn_and_focus(&mut world, &mut global, &mut cursor);
    spawn_and_focus(&mut world, &mut global, &mut cursor);

    // First press at t=1s fires and arms the cooldown until t=1.25s.
    let press = SwitcherInput {
        modifier_held: true,
        cycle_just_pressed: true,
        cycle_held: true,
        ..idle_switcher_input(1_000_000)
    };
    switcher_step(&mut world, &mut global, &press);
    assert_eq!(global.selected_camera, Some(0));

    // Holding at t=1.3s: armed time 1.25s + 0.1s interval not yet elapsed.
    let hold_early = SwitcherInput {
        modifier_held: true,
        cycle_held: true,
        ..idle_switcher_input(1_300_000)
    };
    switcher_step(&mut world, &mut global, &hold_early);
    assert_eq!(global.selected_camera, Some(0));

    // Holding at t=1.4s: past the interval, re-fires and wraps.
    let hold_late = SwitcherInput {
        modifier_held: true,
        cycle_held: true,
        ..idle_switcher_input(1_400_000)
    };
    switcher_step(&mut world, &mut global, &hold_late);
    assert_eq!(global.selected_camera, Some(1));
}

#[test]
fn cycling_with_no_debug_camera_spawns_one() {
    let mut world = world_with_game_camera();
    let mut global = DebugCameraGlobalData::default();
    let input = SwitcherInput {
        modifier_held: true,
        cycle_just_pressed: true,
        cycle_held: true,
        ..idle_switcher_input(0)
    };
    assert_eq!(world.cameras.len(), 1);
    switcher_step(&mut world, &mut global, &input);
    assert_eq!(world.cameras.len(), 2);
    assert!(world.cameras[1].debug_camera.is_some());
    assert_eq!(global.selected_camera, None);
}

#[test]
fn returning_without_game_camera_surfaces_notification() {
    let mut world = CameraWorld {
        cameras: Vec::new(),
        next_handle: 1,
    };
    let mut global = DebugCameraGlobalData::default();
    let mut cursor = CursorState {
        visible: true,
        grab_mode: CursorGrabMode::Free,
    };
    spawn_and_focus(&mut world, &mut global, &mut cursor);

    let input = SwitcherInput {
        modifier_held: true,
        return_just_pressed: true,
        ..idle_switcher_input(0)
    };
    let notes = switcher_step(&mut world, &mut global, &input);
    assert_eq!(notes, vec![Notification::CannotSwitchToGameCamera]);
    // The debug camera keeps the output: an expected edge, not a failure.
    assert_eq!(active_handles(&world).len(), 1);
}

#[test]
fn unfocused_spawn_inserts_second_to_last() {
    let mut world = world_with_game_camera();
    let mut global = DebugCameraGlobalData::default();
    let mut cursor = CursorState {
        visible: true,
        grab_mode: CursorGrabMode::Free,
    };
    let a = spawn_and_focus(&mut world, &mut global, &mut cursor);
    let b = spawn_and_focus(&mut world, &mut global, &mut cursor);
    assert_eq!(global.last_used_debug_cameras, vec![a, b]);

    // A camera spawned without focus goes second to last: next in line
    // when cycling, without jumping ahead of the true most recent.
    global.default_value.focus = false;
    let c = spawn_debug_camera(&mut world, &global);
    initialize_cameras(&mut world, &mut global);
    assert_eq!(global.last_used_debug_cameras, vec![a, c, b]);
}

#[test]
fn unfocused_spawn_with_empty_order_starts_the_order() {
    let mut world = world_with_game_camera();
    let mut global = DebugCameraGlobalData::default();
    let mut cursor = CursorState {
        visible: true,
        grab_mode: CursorGrabMode::Free,
    };
    global.default_value.focus = false;
    let c = spawn_debug_camera(&mut world, &global);
    initialize_cameras(&mut world, &mut global);
    assert_eq!(global.last_used_debug_cameras, vec![c]);

    // Nothing asked for focus, so resolution leaves the game camera in
    // charge and the cursor untouched.
    resolve_focus(&mut world, &mut global, &mut cursor);
    assert_eq!(active_handles(&world), vec![1]);
    assert!(cursor.visible);
    assert_eq!(cursor.grab_mode, CursorGrabMode::Free);
}

#[test]
fn initialization_assigns_sequential_ids_and_copies_orientation() {
    let mut world = CameraWorld {
        cameras: vec![
            CameraRecord {
                orientation: Some(Orientation {
                    yaw_mdeg: 45_000,
                    pitch_mdeg: -10_000,
                }),
                ..game_camera(1, true)
            },
        ],
        next_handle: 2,
    };
    let mut global = DebugCameraGlobalData::default();
    let a = spawn_debug_camera(&mut world, &global);
    let b = spawn_debug_camera(&mut world, &global);
    let notes = initialize_cameras(&mut world, &mut global);
    assert_eq!(
        notes,
        vec![
            Notification::SpawnedDebugCamera { id: 1 },
            Notification::SpawnedDebugCamera { id: 2 },
        ]
    );
    assert_eq!(find(&world, a).data.unwrap().id, 1);
    assert_eq!(find(&world, b).data.unwrap().id, 2);
    assert_eq!(global.next_id, 3);
    // A missing orientation defaults to the active camera's.
    assert_eq!(
        find(&world, a).orientation,
        Some(Orientation {
            yaw_mdeg: 45_000,
            pitch_mdeg: -10_000,
        })
    );
    // Initialization runs at most once per record.
    let again = initialize_cameras(&mut world, &mut global);
    assert!(again.is_empty());
    assert_eq!(global.next_id, 3);
}

#[test]
fn spawn_if_no_camera_exists_spawns_turned_around() {
    let mut world = CameraWorld {
        cameras: Vec::new(),
        next_handle: 7,
    };
    let global = DebugCameraGlobalData::default();
    assert!(spawn_debug_camera_if_no_camera_exists(&mut world, &global));
    assert_eq!(world.cameras.len(), 1);
    assert_eq!(
        world.cameras[0].orientation,
        Some(Orientation {
            yaw_mdeg: 180_000,
            pitch_mdeg: 0,
        })
    );
    // With a camera present it spawns nothing.
    assert!(!spawn_debug_camera_if_no_camera_exists(&mut world, &global));
    assert_eq!(world.cameras.len(), 1);
}

#[test]
fn selector_lists_ids_in_focus_order_skipping_stale_handles() {
    let mut world = world_with_game_camera();
    let mut global = DebugCameraGlobalData::default();
    let mut cursor = CursorState {
        visible: true,
        grab_mode: CursorGrabMode::Free,
    };
    let a = spawn_and_focus(&mut world, &mut global, &mut cursor);
    let b = spawn_and_focus(&mut world, &mut global, &mut cursor);
    assert_eq!(global.last_used_debug_cameras, vec![a, b]);
    assert_eq!(debug_camera_selector_ids(&world, &global), vec![1, 2]);

    // Destroying A leaves a stale handle in the order; the selector skips it.
    world.cameras.retain(|c| c.handle != a);
    assert_eq!(debug_camera_selector_ids(&world, &global), vec![2]);
}

#[test]
fn speed_level_strictly_climbs_and_never_leaves_range() {
    // Scenario: ten scroll-up events from multiplier 1.0 (level 0) with the
    // default range [0.001, 10.0]: the multiplier strictly increases each
    // step and never exceeds 10.0.
    let mut world = world_with_game_camera();
    let mut global = DebugCameraGlobalData::default();
    let mut cursor = CursorState {
        visible: true,
        grab_mode: CursorGrabMode::Free,
    };
    let a = spawn_and_focus(&mut world, &mut global, &mut cursor);

    let input = ControllerInput {
        scroll: vec![ScrollEvent { steps: 1 }; 10],
        ..quiet_controller_input(0)
    };
    let out = control_active_camera(&mut world, &input).expect("a camera is active");

    let range = (0.001f32, 10.0f32);
    let mut previous = 1.0f32;
    for (step, note) in out.notes.iter().enumerate() {
        let level = match note {
            Notification::SpeedMultiplierLevel { level } => *level,
            other => panic!("unexpected notification {:?}", other),
        };
        assert_eq!(level as usize, step + 1);
        let multiplier = 2.0f32.powf(level as f32 * 0.25).clamp(range.0, range.1);
        assert!(multiplier > previous);
        assert!(multiplier <= range.1);
        previous = multiplier;
    }
    assert_eq!(out.speed_level, 10);
    assert_eq!(find(&world, a).data.unwrap().speed_level, 10);
}

#[test]
fn speed_level_clamps_at_both_ends_of_range() {
    // Boundary: however many scroll events arrive, the level — and with it
    // the multiplier — never leaves the range.
    let mut world = world_with_game_camera();
    let mut global = DebugCameraGlobalData::default();
    let mut cursor = CursorState {
        visible: true,
        grab_mode: CursorGrabMode::Free,
    };
    let a = spawn_and_focus(&mut world, &mut global, &mut cursor);

    let down = ControllerInput {
        scroll: vec![ScrollEvent { steps: -7 }; 100],
        ..quiet_controller_input(0)
    };
    control_active_camera(&mut world, &down).unwrap();
    // floor(log2(0.001) * 4) = -40 for the default range start.
    assert_eq!(find(&world, a).data.unwrap().speed_level, -40);

    let up = ControllerInput {
        scroll: vec![ScrollEvent { steps: 9 }; 100],
        ..quiet_controller_input(0)
    };
    control_active_camera(&mut world, &up).unwrap();
    // ceil(log2(10.0) * 4) = 14 for the default range end.
    assert_eq!(find(&world, a).data.unwrap().speed_level, 14);
    let multiplier = 2.0f32.powf(14.0 * 0.25).clamp(0.001, 10.0);
    assert_eq!(multiplier, 10.0);
}

#[test]
fn pitch_never_exceeds_quarter_turn() {
    // Boundary: pitch stays within plus or minus 90 degrees whatever the
    // accumulated mouse-delta magnitude.
    let mut world = world_with_game_camera();
    let mut global = DebugCameraGlobalData::default();
    let mut cursor = CursorState {
        visible: true,
        grab_mode: CursorGrabMode::Free,
    };
    let a = spawn_and_focus(&mut world, &mut global, &mut cursor);

    let input = ControllerInput {
        mouse: vec![
            MouseMotionEvent {
                yaw_mdeg: 123_456_789,
                pitch_mdeg: -1_000_000_000,
            };
            25
        ],
        ..quiet_controller_input(0)
    };
    control_active_camera(&mut world, &input).unwrap();
    let o = find(&world, a).orientation.unwrap();
    assert_eq!(o.pitch_mdeg, 90_000);
    assert!(o.yaw_mdeg >= 0 && o.yaw_mdeg < 360_000);

    let opposite = ControllerInput {
        mouse: vec![
            MouseMotionEvent {
                yaw_mdeg: -1,
                pitch_mdeg: 999_999_999,
            };
            25
        ],
        ..quiet_controller_input(0)
    };
    control_active_camera(&mut world, &opposite).unwrap();
    let o = find(&world, a).orientation.unwrap();
    assert_eq!(o.pitch_mdeg, -90_000);
    assert!(o.yaw_mdeg >= 0 && o.yaw_mdeg < 360_000);
}

#[test]
fn movement_keys_cancel_and_accumulate_per_axis() {
    let mut world = world_with_game_camera();
    let mut global = DebugCameraGlobalData::default();
    let mut cursor = CursorState {
        visible: true,
        grab_mode: CursorGrabMode::Free,
    };
    spawn_and_focus(&mut world, &mut global, &mut cursor);

    let input = ControllerInput {
        movement: MovementKeys {
            forward: true,
            backward: true,
            left: false,
            right: true,
            up: true,
            down: false,
        },
        ..quiet_controller_input(0)
    };
    let out = control_active_camera(&mut world, &input).unwrap();
    assert_eq!((out.direction.x, out.direction.y, out.direction.z), (1, 1, 0));
    assert!(out.moved);
    assert!(!out.reset_speed);
}

#[test]
fn idle_past_threshold_asks_for_speed_reset() {
    let mut world = world_with_game_camera();
    let mut global = DebugCameraGlobalData::default();
    let mut cursor = CursorState {
        visible: true,
        grab_mode: CursorGrabMode::Free,
    };
    let a = spawn_and_focus(&mut world, &mut global, &mut cursor);

    // Move at t=1s: the idle timer re-arms.
    let moving = ControllerInput {
        movement: MovementKeys {
            forward: true,
            ..MovementKeys::default()
        },
        ..quiet_controller_input(1_000_000)
    };
    let out = control_active_camera(&mut world, &moving).unwrap();
    assert!(out.moved && !out.reset_speed);
    assert_eq!(
        find(&world, a).data.unwrap().last_change_position_time_us,
        1_000_000
    );

    // Idle at t=1.15s: within the 0.2s threshold, no reset yet.
    let out = control_active_camera(&mut world, &quiet_controller_input(1_150_000)).unwrap();
    assert!(!out.moved && !out.reset_speed);

    // Idle at t=1.3s: past the threshold, the run-up speed resets.
    let out = control_active_camera(&mut world, &quiet_controller_input(1_300_000)).unwrap();
    assert!(!out.moved && out.reset_speed);
}

#[test]
fn controller_is_a_no_op_without_an_active_debug_camera() {
    let mut world = world_with_game_camera();
    let input = quiet_controller_input(0);
    assert!(control_active_camera(&mut world, &input).is_none());
    assert!(world.cameras[0].is_active);
}

#[test]
fn at_most_one_camera_is_active_through_arbitrary_focus_writes() {
    // Invariant: whatever focus flags are written, each resolution leaves
    // at most one active camera.
    let mut world = world_with_game_camera();
    let mut global = DebugCameraGlobalData::default();
    let mut cursor = CursorState {
        visible: true,
        grab_mode: CursorGrabMode::Free,
    };
    for _ in 0..3 {
        spawn_and_focus(&mut world, &mut global, &mut cursor);
        assert!(active_handles(&world).len() <= 1);
    }
    // Flip every debug camera's focus on in the same tick.
    for rec in world.cameras.iter_mut() {
        if let Some(d) = rec.debug_camera.as_mut() {
            d.focus = true;
            rec.changed = true;
        }
    }
    resolve_focus(&mut world, &mut global, &mut cursor);
    assert_eq!(active_handles(&world).len(), 1);
    // And off again.
    for rec in world.cameras.iter_mut() {
        if let Some(d) = rec.debug_camera.as_mut() {
            d.focus = false;
            rec.changed = true;
        }
    }
    resolve_focus(&mut world, &mut global, &mut cursor);
    assert!(active_handles(&world).len() <= 1);
}

#[test]
fn default_debug_camera_matches_documented_values() {
    let d = DebugCamera::default();
    assert!(d.focus);
    assert_eq!(d.min_speed_level, -40);
    assert_eq!(d.max_speed_level, 14);
    let g = DebugCameraGlobalData::default();
    assert_eq!(g.next_id, 1);
    assert!(g.last_used_debug_cameras.is_empty());
    assert!(g.last_used_origin_camera.is_none());
    assert!(g.selected_camera.is_none());
    let p = DebugCameraPlugin::default();
    assert_eq!(p.switcher, DebugCameraSwitcher::Default);
    assert!(p.spawn_debug_camera_if_any_camera_exist);
}
