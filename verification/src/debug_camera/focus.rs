//! Focus resolution: reconciling the single active render camera.
//!
//! Whenever a [`DebugCamera`] component was added or written this tick, the
//! pass picks the winning focus request, activates that camera, forces every
//! other debug camera's focus off without re-marking it changed, displaces an
//! active non-debug camera into the origin snapshot and locks the cursor; and
//! when no debug camera asks for focus any more, it restores the saved origin
//! camera and its cursor configuration. When several debug cameras change to
//! focus in the same tick, the one with the highest id wins: an explicit
//! tie-break in place of storage order.
//!
//! The whole transition is the spec function [`focus_next`]; the executable
//! pass [`resolve_focus`] is proved equal to it.

use vstd::prelude::*;

use super::{
    at_most_one_active, handles_unique, ids_unique, is_debug, no_duplicate_handles, record_id, wf,
    CameraRecord, CameraWorld, CursorGrabMode, CursorState, DebugCamera, DebugCameraGlobalData,
    DebugCameraLastUsedOriginCameraData, Notification,
};

verus! {

/// Some debug camera component was added or written this tick.
pub open spec fn any_changed(s: Seq<CameraRecord>) -> bool {
    exists|i: int| 0 <= i < s.len() && (#[trigger] s[i]).changed
}

/// A record competing for focus this tick: an initialized debug camera whose
/// component was written and asks for focus.
pub open spec fn is_focus_candidate(c: CameraRecord) -> bool {
    &&& c.changed
    &&& c.data is Some
    &&& c.debug_camera matches Some(d) && d.focus
}

/// Some record competes for focus this tick.
pub open spec fn has_focus_candidate(s: Seq<CameraRecord>) -> bool {
    exists|i: int| 0 <= i < s.len() && is_focus_candidate(#[trigger] s[i])
}

/// `w` is the winning candidate: the competing record with the highest id.
pub open spec fn is_winner(s: Seq<CameraRecord>, w: int) -> bool {
    &&& 0 <= w < s.len()
    &&& is_focus_candidate(s[w])
    &&& forall|j: int|
        0 <= j < s.len() && is_focus_candidate(#[trigger] s[j]) ==> record_id(s[j]) <= record_id(
            s[w],
        )
}

/// Index of the winning candidate; meaningful when one exists.
pub open spec fn winner_index(s: Seq<CameraRecord>) -> int {
    choose|w: int| is_winner(s, w)
}

/// Record `j` is a non-debug camera holding the primary output.
pub open spec fn game_camera_active(s: Seq<CameraRecord>, j: int) -> bool {
    0 <= j < s.len() && !is_debug(s[j]) && s[j].is_active
}

/// Some non-debug camera holds the primary output.
pub open spec fn some_game_camera_active(s: Seq<CameraRecord>) -> bool {
    exists|j: int| game_camera_active(s, j)
}

/// Index of the active non-debug camera; meaningful when one exists.
pub open spec fn active_game_camera_index(s: Seq<CameraRecord>) -> int {
    choose|j: int| game_camera_active(s, j)
}

/// The cursor configuration imposed while a debug camera renders: locked in
/// place and hidden.
pub open spec fn locked_cursor() -> CursorState {
    CursorState { visible: false, grab_mode: CursorGrabMode::Locked }
}

/// One record after a pass that crowned a winner: the winner activates; every
/// other initialized debug camera loses focus and deactivates; non-debug
/// cameras deactivate; every dirty flag is consumed.
pub open spec fn resolved_with_winner(c: CameraRecord, winner: bool) -> CameraRecord {
    if winner {
        CameraRecord {
            handle: c.handle,
            is_active: true,
            changed: false,
            debug_camera: c.debug_camera,
            data: c.data,
            orientation: c.orientation,
        }
    } else if c.debug_camera is Some && c.data is Some {
        CameraRecord {
            handle: c.handle,
            is_active: false,
            changed: false,
            debug_camera: Some(
                DebugCamera {
                    focus: false,
                    min_speed_level: c.debug_camera->0.min_speed_level,
                    max_speed_level: c.debug_camera->0.max_speed_level,
                },
            ),
            data: c.data,
            orientation: c.orientation,
        }
    } else if c.debug_camera is Some {
        CameraRecord {
            handle: c.handle,
            is_active: c.is_active,
            changed: false,
            debug_camera: c.debug_camera,
            data: c.data,
            orientation: c.orientation,
        }
    } else {
        CameraRecord {
            handle: c.handle,
            is_active: false,
            changed: false,
            debug_camera: c.debug_camera,
            data: c.data,
            orientation: c.orientation,
        }
    }
}

/// One record after a pass that found no candidate: every initialized debug
/// camera loses focus and deactivates, the restored origin camera (if any)
/// activates, and every dirty flag is consumed.
pub open spec fn resolved_no_winner(c: CameraRecord, restored: bool) -> CameraRecord {
    if c.debug_camera is Some && c.data is Some {
        CameraRecord {
            handle: c.handle,
            is_active: false,
            changed: false,
            debug_camera: Some(
                DebugCamera {
                    focus: false,
                    min_speed_level: c.debug_camera->0.min_speed_level,
                    max_speed_level: c.debug_camera->0.max_speed_level,
                },
            ),
            data: c.data,
            orientation: c.orientation,
        }
    } else if c.debug_camera is Some {
        CameraRecord {
            handle: c.handle,
            is_active: c.is_active,
            changed: false,
            debug_camera: c.debug_camera,
            data: c.data,
            orientation: c.orientation,
        }
    } else {
        CameraRecord {
            handle: c.handle,
            is_active: if restored {
                true
            } else {
                c.is_active
            },
            changed: false,
            debug_camera: c.debug_camera,
            data: c.data,
            orientation: c.orientation,
        }
    }
}

/// A handle moved to the tail of the focus order: its old occurrence (if
/// any) is removed, then it is appended as most recent.
pub open spec fn moved_to_tail(s: Seq<u64>, h: u64) -> Seq<u64> {
    if s.contains(h) {
        s.remove(s.index_of(h)).push(h)
    } else {
        s.push(h)
    }
}

/// The full focus-resolution transition on (cameras, focus order, origin
/// snapshot, cursor), also yielding the notifications to surface.
///
/// Nothing moves unless some debug camera changed this tick. With a winner,
/// the winner activates, moves to the tail of the focus order if it was not
/// already active, an active non-debug camera is snapshotted into the origin
/// slot, and the cursor locks. With no winner left, every debug camera
/// deactivates and the saved origin camera returns, taking its saved cursor
/// configuration back.
pub open spec fn focus_next(
    s: Seq<CameraRecord>,
    lru: Seq<u64>,
    origin: Option<DebugCameraLastUsedOriginCameraData>,
    cursor: CursorState,
) -> (Seq<CameraRecord>, Seq<u64>, Option<DebugCameraLastUsedOriginCameraData>, CursorState, Seq<
    Notification,
>) {
    if !any_changed(s) {
        (s, lru, origin, cursor, Seq::<Notification>::empty())
    } else if has_focus_candidate(s) {
        let w = winner_index(s);
        let cams = Seq::new(s.len(), |i: int| resolved_with_winner(s[i], i == w));
        let lru1 = if s[w].is_active {
            lru
        } else {
            moved_to_tail(lru, s[w].handle)
        };
        let origin1 = if some_game_camera_active(s) {
            Some(
                DebugCameraLastUsedOriginCameraData {
                    camera: s[active_game_camera_index(s)].handle,
                    cursor,
                },
            )
        } else {
            origin
        };
        let notes = if s[w].is_active {
            Seq::<Notification>::empty()
        } else {
            seq![Notification::SwitchedToDebugCamera { id: record_id(s[w]) }]
        };
        (cams, lru1, origin1, locked_cursor(), notes)
    } else {
        let cams = Seq::new(
            s.len(),
            |i: int|
                resolved_no_winner(
                    s[i],
                    origin matches Some(o) && s[i].handle == o.camera,
                ),
        );
        match origin {
            Some(o) => (
                cams,
                lru,
                None,
                o.cursor,
                seq![Notification::SwitchedToGameCamera],
            ),
            None => (cams, lru, None, cursor, Seq::<Notification>::empty()),
        }
    }
}

/// Under unique ids the winner is unique.
proof fn lemma_winner_unique(s: Seq<CameraRecord>, a: int, b: int)
    requires
        ids_unique(s),
        is_winner(s, a),
        is_winner(s, b),
    ensures
        a == b,
{
    if a != b {
        assert(record_id(s[a]) <= record_id(s[b]));
        assert(record_id(s[b]) <= record_id(s[a]));
    }
}

proof fn lemma_moved_to_tail_props(s: Seq<u64>, h: u64)
    requires
        no_duplicate_handles(s),
    ensures
        moved_to_tail(s, h).len() == if s.contains(h) {
            s.len() as int
        } else {
            s.len() as int + 1
        },
        moved_to_tail(s, h).last() == h,
        forall|x: u64| #[trigger] moved_to_tail(s, h).contains(x) <==> (s.contains(x) || x == h),
        no_duplicate_handles(moved_to_tail(s, h)),
{
    let r = moved_to_tail(s, h);
    if s.contains(h) {
        let i = s.index_of(h);
        assert(0 <= i < s.len() && s[i] == h);
        let rem = s.remove(i);
        s.remove_ensures(i);
        assert(r == rem.push(h));
        assert(r.last() == h);
        assert forall|x: u64| #[trigger] r.contains(x) implies (s.contains(x) || x == h) by {
            let k = choose|k: int| 0 <= k < r.len() && r[k] == x;
            if k < rem.len() {
                if k < i {
                    assert(s[k] == x);
                } else {
                    assert(s[k + 1] == x);
                }
            }
        }
        assert forall|x: u64| (s.contains(x) || x == h) implies #[trigger] r.contains(x) by {
            if x == h {
                assert(r[r.len() - 1] == h);
            } else {
                let k = choose|k: int| 0 <= k < s.len() && s[k] == x;
                if k < i {
                    assert(r[k] == x);
                } else if k > i {
                    assert(r[k - 1] == x);
                }
            }
        }
        assert forall|a: int, b: int| 0 <= a < b < r.len() implies r[a] != r[b] by {
            if b < rem.len() {
                let sa = if a < i {
                    a
                } else {
                    a + 1
                };
                let sb = if b < i {
                    b
                } else {
                    b + 1
                };
                assert(r[a] == s[sa] && r[b] == s[sb]);
            } else {
                // r[b] == h == s[i]; r[a] maps to an s index other than i.
                let sa = if a < i {
                    a
                } else {
                    a + 1
                };
                assert(r[a] == s[sa]);
                assert(s[sa] != s[i] || sa == i);
            }
        }
    } else {
        assert(r == s.push(h));
        assert(r.last() == h);
        assert forall|x: u64| #[trigger] r.contains(x) implies (s.contains(x) || x == h) by {
            let k = choose|k: int| 0 <= k < r.len() && r[k] == x;
            if k < s.len() {
                assert(s[k] == x);
            }
        }
        assert forall|x: u64| (s.contains(x) || x == h) implies #[trigger] r.contains(x) by {
            if x == h {
                assert(r[r.len() - 1] == h);
            } else {
                let k = choose|k: int| 0 <= k < s.len() && s[k] == x;
                assert(r[k] == x);
            }
        }
        assert forall|a: int, b: int| 0 <= a < b < r.len() implies r[a] != r[b] by {
            if b == s.len() {
                assert(r[a] == s[a]);
                assert(s.contains(s[a]));
            }
        }
    }
}

/// Focus resolution preserves well-formedness.
proof fn lemma_focus_preserves_wf(
    w0: CameraWorld,
    g0: DebugCameraGlobalData,
    cursor0: CursorState,
    w1: CameraWorld,
    g1: DebugCameraGlobalData,
)
    requires
        wf(w0, g0),
        w1.cameras@ == focus_next(
            w0.cameras@,
            g0.last_used_debug_cameras@,
            g0.last_used_origin_camera,
            cursor0,
        ).0,
        g1.last_used_debug_cameras@ == focus_next(
            w0.cameras@,
            g0.last_used_debug_cameras@,
            g0.last_used_origin_camera,
            cursor0,
        ).1,
        g1.last_used_origin_camera == focus_next(
            w0.cameras@,
            g0.last_used_debug_cameras@,
            g0.last_used_origin_camera,
            cursor0,
        ).2,
        w1.next_handle == w0.next_handle,
        g1.selected_camera == g0.selected_camera,
        g1.next_id == g0.next_id,
        g1.default_value == g0.default_value,
    ensures
        wf(w1, g1),
{
    let s0 = w0.cameras@;
    let n = s0.len() as int;
    let lru0 = g0.last_used_debug_cameras@;
    let origin0 = g0.last_used_origin_camera;
    if !any_changed(s0) {
        assert(w1.cameras@ == s0);
        assert(g1.last_used_debug_cameras@ == lru0);
    } else if has_focus_candidate(s0) {
        let w = winner_index(s0);
        let s1 = w1.cameras@;
        assert(is_winner(s0, w)) by {
            lemma_exists_winner(s0);
        }
        assert(forall|i: int|
            0 <= i < n ==> (#[trigger] s1[i]) == resolved_with_winner(s0[i], i == w));
        assert(forall|i: int| 0 <= i < n ==> (#[trigger] s1[i]).handle == s0[i].handle);
        assert(forall|i: int| 0 <= i < n ==> (#[trigger] s1[i]).data == s0[i].data);
        assert(forall|i: int| 0 <= i < n ==> (#[trigger] s1[i]).orientation == s0[i].orientation);
        assert(forall|i: int| 0 <= i < n ==> (is_debug(#[trigger] s1[i]) == is_debug(s0[i])));
        // Only the winner is active afterwards.
        assert forall|i: int| 0 <= i < n && (#[trigger] s1[i]).is_active implies i == w by {
            if i != w {
                if s0[i].debug_camera is Some && s0[i].data is None {
                    assert(!s0[i].is_active);
                }
            }
        }
        assert(at_most_one_active(s1));
        assert forall|i: int| 0 <= i < n implies super::record_coherent(#[trigger] s1[i]) by {
            assert(super::record_coherent(s0[i]));
        }
        assert(handles_unique(s1));
        assert(ids_unique(s1));
        // Focus order.
        let lru1 = g1.last_used_debug_cameras@;
        if s0[w].is_active {
            assert(lru1 == lru0);
        } else {
            lemma_moved_to_tail_props(lru0, s0[w].handle);
        }
        assert(no_duplicate_handles(lru1));
        assert(g1.selected_camera matches Some(i) ==> i < lru1.len());
        assert forall|k: int| 0 <= k < lru1.len() implies #[trigger] lru1[k] < w1.next_handle by {
            assert(lru1.contains(lru1[k]));
            if lru0.contains(lru1[k]) {
                let m = choose|m: int| 0 <= m < lru0.len() && lru0[m] == lru1[k];
            } else {
                assert(lru1[k] == s0[w].handle);
            }
        }
        assert forall|k: int, j: int|
            0 <= k < lru1.len() && 0 <= j < n && #[trigger] lru1[k] == (#[trigger] s1[j]).handle
                implies s1[j].data is Some by {
            assert(lru1.contains(lru1[k]));
            if lru0.contains(lru1[k]) {
                let m = choose|m: int| 0 <= m < lru0.len() && lru0[m] == lru1[k];
                assert(lru0[m] == s0[j].handle);
                assert(s0[j].data is Some);
            } else {
                assert(lru1[k] == s0[w].handle);
                if j != w {
                    assert(s0[j].handle != s0[w].handle);
                    assert(false);
                }
                assert(s0[w].data is Some);
            }
        }
        // Origin snapshot.
        let origin1 = g1.last_used_origin_camera;
        if some_game_camera_active(s0) {
            let gj = active_game_camera_index(s0);
            assert(game_camera_active(s0, gj));
            assert(origin1 == Some(
                DebugCameraLastUsedOriginCameraData { camera: s0[gj].handle, cursor: cursor0 },
            ));
            assert forall|j: int|
                0 <= j < n && (#[trigger] s1[j]).handle == s0[gj].handle implies !is_debug(
                s1[j],
            ) by {
                if j != gj {
                    assert(s0[j].handle != s0[gj].handle);
                    assert(false);
                }
            }
        } else {
            assert(origin1 == origin0);
        }
        assert(origin1 matches Some(o) ==> o.camera < w1.next_handle);
        assert(origin1 is Some ==> forall|i: int|
            0 <= i < n && (#[trigger] s1[i]).is_active ==> is_debug(s1[i]));
    } else {
        let s1 = w1.cameras@;
        assert(forall|i: int|
            0 <= i < n ==> (#[trigger] s1[i]) == resolved_no_winner(
                s0[i],
                origin0 matches Some(o) && s0[i].handle == o.camera,
            ));
        assert(forall|i: int| 0 <= i < n ==> (#[trigger] s1[i]).handle == s0[i].handle);
        assert(forall|i: int| 0 <= i < n ==> (#[trigger] s1[i]).data == s0[i].data);
        assert(forall|i: int| 0 <= i < n ==> (is_debug(#[trigger] s1[i]) == is_debug(s0[i])));
        assert forall|i: int, j: int| 0 <= i < j < n implies !((#[trigger] s1[i]).is_active && (
        #[trigger] s1[j]).is_active) by {
            if s1[i].is_active && s1[j].is_active {
                // Active records after the pass are non-debug, and each is
                // either restored or was active before.
                assert(!is_debug(s0[i]) || (s0[i].debug_camera is Some && s0[i].data is None));
                if s0[i].debug_camera is Some && s0[i].data is None {
                    assert(!s0[i].is_active);
                    assert(false);
                }
                if s0[j].debug_camera is Some && s0[j].data is None {
                    assert(!s0[j].is_active);
                    assert(false);
                }
                match origin0 {
                    Some(o) => {
                        if s0[i].handle == o.camera && s0[j].handle == o.camera {
                            assert(false);
                        } else if s0[i].handle == o.camera {
                            assert(s0[j].is_active);
                            assert(is_debug(s0[j]));
                            assert(false);
                        } else if s0[j].handle == o.camera {
                            assert(s0[i].is_active);
                            assert(is_debug(s0[i]));
                            assert(false);
                        } else {
                            assert(s0[i].is_active && s0[j].is_active);
                            assert(false);
                        }
                    },
                    None => {
                        assert(s0[i].is_active && s0[j].is_active);
                        assert(false);
                    },
                }
            }
        }
        assert forall|i: int| 0 <= i < n implies super::record_coherent(#[trigger] s1[i]) by {
            assert(super::record_coherent(s0[i]));
        }
        assert(g1.last_used_origin_camera is None);
        assert(g1.last_used_debug_cameras@ == lru0);
        assert forall|k: int, j: int|
            0 <= k < lru0.len() && 0 <= j < n && #[trigger] lru0[k] == (#[trigger] s1[j]).handle
                implies s1[j].data is Some by {
            assert(lru0[k] == s0[j].handle);
            assert(s0[j].data is Some);
        }
    }
}

/// A non-empty candidate set has a highest-id member.
proof fn lemma_exists_winner(s: Seq<CameraRecord>)
    requires
        has_focus_candidate(s),
    ensures
        exists|w: int| is_winner(s, w),
{
    lemma_exists_winner_upto(s, s.len() as int);
    let w = choose|w: int|
        #![trigger s[w]]
        {
            &&& 0 <= w < s.len()
            &&& is_focus_candidate(s[w])
            &&& forall|j: int|
                0 <= j < s.len() && is_focus_candidate(#[trigger] s[j]) ==> record_id(s[j])
                    <= record_id(s[w])
        };
    assert(is_winner(s, w));
}

/// Among the first `k` records, if any candidate exists there is one with
/// the highest id.
proof fn lemma_exists_winner_upto(s: Seq<CameraRecord>, k: int)
    requires
        0 <= k <= s.len(),
        exists|i: int| 0 <= i < k && is_focus_candidate(#[trigger] s[i]),
    ensures
        exists|w: int|
            #![trigger s[w]]
            {
                &&& 0 <= w < k
                &&& is_focus_candidate(s[w])
                &&& forall|j: int|
                    0 <= j < k && is_focus_candidate(#[trigger] s[j]) ==> record_id(s[j])
                        <= record_id(s[w])
            },
    decreases k,
{
    let i0 = choose|i: int| 0 <= i < k && is_focus_candidate(#[trigger] s[i]);
    if exists|i: int| 0 <= i < k - 1 && is_focus_candidate(#[trigger] s[i]) {
        lemma_exists_winner_upto(s, k - 1);
        let w0 = choose|w: int|
            #![trigger s[w]]
            {
                &&& 0 <= w < k - 1
                &&& is_focus_candidate(s[w])
                &&& forall|j: int|
                    0 <= j < k - 1 && is_focus_candidate(#[trigger] s[j]) ==> record_id(s[j])
                        <= record_id(s[w])
            };
        if is_focus_candidate(s[k - 1]) && record_id(s[k - 1]) > record_id(s[w0]) {
            assert(forall|j: int|
                0 <= j < k && is_focus_candidate(#[trigger] s[j]) ==> record_id(s[j]) <= record_id(
                    s[k - 1],
                ));
        } else {
            assert(forall|j: int|
                0 <= j < k && is_focus_candidate(#[trigger] s[j]) ==> record_id(s[j]) <= record_id(
                    s[w0],
                ));
        }
    } else {
        assert(i0 == k - 1);
        assert(forall|j: int|
            0 <= j < k && is_focus_candidate(#[trigger] s[j]) ==> record_id(s[j]) <= record_id(
                s[k - 1],
            ));
    }
}

/// Whether any debug camera component was added or written this tick.
///
/// Focus resolution is gated on this cheap pre-check, so the arena is not
/// scanned and rewritten every frame.
pub fn any_debug_camera_changed(world: &CameraWorld) -> (r: bool)
    ensures
        r == any_changed(world.cameras@),
{
    let n = world.cameras.len();
    let mut i: usize = 0;
    while i < n
        invariant
            n == world.cameras@.len(),
            0 <= i <= n,
            forall|j: int| 0 <= j < i ==> !(#[trigger] world.cameras@[j]).changed,
        decreases n - i,
    {
        if world.cameras[i].changed {
            return true;
        }
        i = i + 1;
    }
    false
}

/// The winning focus request: the changed, initialized, focus-asking debug
/// camera with the highest id, if any competes this tick.
fn find_winner(cameras: &Vec<CameraRecord>) -> (r: Option<usize>)
    ensures
        r matches Some(w) ==> is_winner(cameras@, w as int),
        r is None ==> !has_focus_candidate(cameras@),
{
    let n = cameras.len();
    let mut best: Option<usize> = None;
    let mut i: usize = 0;
    while i < n
        invariant
            n == cameras@.len(),
            0 <= i <= n,
            best matches Some(b) ==> b < i && is_focus_candidate(cameras@[b as int]) && forall|
                j: int,
            |
                0 <= j < i && is_focus_candidate(#[trigger] cameras@[j]) ==> record_id(cameras@[j])
                    <= record_id(cameras@[b as int]),
            best is None ==> forall|j: int| 0 <= j < i ==> !is_focus_candidate(
                #[trigger] cameras@[j],
            ),
        decreases n - i,
    {
        let rec = cameras[i];
        if rec.changed && rec.data.is_some() && rec.debug_camera.is_some()
            && rec.debug_camera.unwrap().focus {
            let id = rec.data.unwrap().id;
            let replace: bool = match best {
                Some(b) => id > cameras[b].data.unwrap().id,
                None => true,
            };
            if replace {
                best = Some(i);
            }
        }
        i = i + 1;
    }
    best
}

/// The active non-debug camera, if one holds the primary output.
fn find_active_game_camera(cameras: &Vec<CameraRecord>) -> (r: Option<usize>)
    ensures
        r matches Some(j) ==> game_camera_active(cameras@, j as int),
        r is None ==> !some_game_camera_active(cameras@),
{
    let n = cameras.len();
    let mut i: usize = 0;
    while i < n
        invariant
            n == cameras@.len(),
            0 <= i <= n,
            forall|j: int| 0 <= j < i ==> !game_camera_active(cameras@, j),
        decreases n - i,
    {
        let rec = cameras[i];
        if rec.debug_camera.is_none() && rec.is_active {
            return Some(i);
        }
        i = i + 1;
    }
    None
}

/// Move a handle to the tail of the focus order, making it most recent.
fn move_to_tail(list: &mut Vec<u64>, h: u64)
    requires
        no_duplicate_handles(old(list)@),
        old(list)@.len() < usize::MAX,
    ensures
        final(list)@ == moved_to_tail(old(list)@, h),
{
    let n = list.len();
    let mut i: usize = 0;
    while i < n
        invariant
            no_duplicate_handles(old(list)@),
            old(list)@.len() < usize::MAX,
            n == list@.len(),
            0 <= i <= n,
            list@ == old(list)@,
            forall|j: int| 0 <= j < i ==> list@[j] != h,
        decreases n - i,
    {
        if list[i] == h {
            proof {
                assert(old(list)@.contains(h));
                let k = old(list)@.index_of(h);
                assert(0 <= k < old(list)@.len() && old(list)@[k] == h);
                if k < i as int {
                    assert(old(list)@[k] != old(list)@[i as int]);
                    assert(false);
                } else if k > i as int {
                    assert(old(list)@[i as int] != old(list)@[k]);
                    assert(false);
                }
            }
            list.remove(i);
            list.push(h);
            return ;
        }
        i = i + 1;
    }
    proof {
        if old(list)@.contains(h) {
            let k = choose|k: int| 0 <= k < old(list)@.len() && old(list)@[k] == h;
            assert(false);
        }
    }
    list.push(h);
}

/// Reconcile the single active render camera after this tick's changes.
///
/// The returned notifications are what the embedding application should log
/// or surface. The full behaviour is [`focus_next`]; well-formedness — in
/// particular that at most one camera stays active — is preserved.
pub fn resolve_focus(
    world: &mut CameraWorld,
    global: &mut DebugCameraGlobalData,
    cursor: &mut CursorState,
) -> (notes: Vec<Notification>)
    requires
        wf(*old(world), *old(global)),
        old(global).last_used_debug_cameras@.len() < usize::MAX,
    ensures
        final(world).cameras@ == focus_next(
            old(world).cameras@,
            old(global).last_used_debug_cameras@,
            old(global).last_used_origin_camera,
            *old(cursor),
        ).0,
        final(global).last_used_debug_cameras@ == focus_next(
            old(world).cameras@,
            old(global).last_used_debug_cameras@,
            old(global).last_used_origin_camera,
            *old(cursor),
        ).1,
        final(global).last_used_origin_camera == focus_next(
            old(world).cameras@,
            old(global).last_used_debug_cameras@,
            old(global).last_used_origin_camera,
            *old(cursor),
        ).2,
        *final(cursor) == focus_next(
            old(world).cameras@,
            old(global).last_used_debug_cameras@,
            old(global).last_used_origin_camera,
            *old(cursor),
        ).3,
        notes@ == focus_next(
            old(world).cameras@,
            old(global).last_used_debug_cameras@,
            old(global).last_used_origin_camera,
            *old(cursor),
        ).4,
        final(world).next_handle == old(world).next_handle,
        final(global).selected_camera == old(global).selected_camera,
        final(global).next_id == old(global).next_id,
        final(global).default_value == old(global).default_value,
        final(global).last_switch_time_us == old(global).last_switch_time_us,
        wf(*final(world), *final(global)),
{
    let ghost s0 = world.cameras@;
    let ghost lru0 = global.last_used_debug_cameras@;
    let ghost origin0 = global.last_used_origin_camera;
    let ghost cursor0 = *cursor;
    let ghost w0 = *world;
    let ghost g0 = *global;

    let mut notes: Vec<Notification> = Vec::new();

    if !any_debug_camera_changed(world) {
        return notes;
    }
    let winner = find_winner(&world.cameras);
    let n = world.cameras.len();
    match winner {
        Some(w) => {
            proof {
                assert(has_focus_candidate(s0)) by {
                    assert(is_focus_candidate(s0[w as int]));
                }
                lemma_winner_unique(s0, w as int, winner_index(s0));
            }
            let winner_rec = world.cameras[w];
            let was_active = winner_rec.is_active;
            let winner_handle = winner_rec.handle;
            let winner_id = winner_rec.data.unwrap().id;
            let game_idx = find_active_game_camera(&world.cameras);

            let mut i: usize = 0;
            while i < n
                invariant
                    n == world.cameras@.len(),
                    0 <= i <= n,
                    n == s0.len(),
                    is_winner(s0, w as int),
                    w < n,
                    forall|j: int| i <= j < n ==> world.cameras@[j] == s0[j],
                    forall|j: int|
                        0 <= j < i ==> world.cameras@[j] == resolved_with_winner(
                            s0[j],
                            j == w as int,
                        ),
                    world.next_handle == w0.next_handle,
                decreases n - i,
            {
                let rec = world.cameras[i];
                let new_rec = if i == w {
                    CameraRecord {
                        handle: rec.handle,
                        is_active: true,
                        changed: false,
                        debug_camera: rec.debug_camera,
                        data: rec.data,
                        orientation: rec.orientation,
                    }
                } else if rec.debug_camera.is_some() && rec.data.is_some() {
                    let d = rec.debug_camera.unwrap();
                    CameraRecord {
                        handle: rec.handle,
                        is_active: false,
                        changed: false,
                        debug_camera: Some(
                            DebugCamera {
                                focus: false,
                                min_speed_level: d.min_speed_level,
                                max_speed_level: d.max_speed_level,
                            },
                        ),
                        data: rec.data,
                        orientation: rec.orientation,
                    }
                } else if rec.debug_camera.is_some() {
                    CameraRecord {
                        handle: rec.handle,
                        is_active: rec.is_active,
                        changed: false,
                        debug_camera: rec.debug_camera,
                        data: rec.data,
                        orientation: rec.orientation,
                    }
                } else {
                    CameraRecord {
                        handle: rec.handle,
                        is_active: false,
                        changed: false,
                        debug_camera: rec.debug_camera,
                        data: rec.data,
                        orientation: rec.orientation,
                    }
                };
                world.cameras.set(i, new_rec);
                i = i + 1;
            }
            if !was_active {
                move_to_tail(&mut global.last_used_debug_cameras, winner_handle);
                notes.push(Notification::SwitchedToDebugCamera { id: winner_id });
            }
            match game_idx {
                Some(gj) => {
                    proof {
                        assert(game_camera_active(s0, gj as int));
                        let c = active_game_camera_index(s0);
                        assert(game_camera_active(s0, c));
                        if c != gj as int {
                            assert(s0[c].is_active && s0[gj as int].is_active);
                            assert(false);
                        }
                    }
                    let game_handle = world.cameras[gj].handle;
                    global.last_used_origin_camera = Some(
                        DebugCameraLastUsedOriginCameraData { camera: game_handle, cursor: *cursor },
                    );
                },
                None => {},
            }
            *cursor = CursorState { visible: false, grab_mode: CursorGrabMode::Locked };
            proof {
                assert(world.cameras@ =~= focus_next(s0, lru0, origin0, cursor0).0);
                assert(notes@ =~= focus_next(s0, lru0, origin0, cursor0).4);
                lemma_focus_preserves_wf(w0, g0, cursor0, *world, *global);
            }
        },
        None => {
            let origin_taken = global.last_used_origin_camera;
            global.last_used_origin_camera = None;

            let mut i: usize = 0;
            while i < n
                invariant
                    n == world.cameras@.len(),
                    0 <= i <= n,
                    n == s0.len(),
                    forall|j: int| i <= j < n ==> world.cameras@[j] == s0[j],
                    forall|j: int|
                        0 <= j < i ==> world.cameras@[j] == resolved_no_winner(s0[j], false),
                    world.next_handle == w0.next_handle,
                decreases n - i,
            {
                let rec = world.cameras[i];
                let new_rec = if rec.debug_camera.is_some() && rec.data.is_some() {
                    let d = rec.debug_camera.unwrap();
                    CameraRecord {
                        handle: rec.handle,
                        is_active: false,
                        changed: false,
                        debug_camera: Some(
                            DebugCamera {
                                focus: false,
                                min_speed_level: d.min_speed_level,
                                max_speed_level: d.max_speed_level,
                            },
                        ),
                        data: rec.data,
                        orientation: rec.orientation,
                    }
                } else if rec.debug_camera.is_some() {
                    CameraRecord {
                        handle: rec.handle,
                        is_active: rec.is_active,
                        changed: false,
                        debug_camera: rec.debug_camera,
                        data: rec.data,
                        orientation: rec.orientation,
                    }
                } else {
                    CameraRecord {
                        handle: rec.handle,
                        is_active: rec.is_active,
                        changed: false,
                        debug_camera: rec.debug_camera,
                        data: rec.data,
                        orientation: rec.orientation,
                    }
                };
                world.cameras.set(i, new_rec);
                i = i + 1;
            }
            match origin_taken {
                Some(o) => {
                    let mut j: usize = 0;
                    let mut restored: bool = false;
                    while j < n
                        invariant
                            n == world.cameras@.len(),
                            0 <= j <= n,
                            n == s0.len(),
                            wf(w0, g0),
                            w0.cameras@ == s0,
                            g0.last_used_origin_camera == Some(o),
                            !restored ==> forall|k: int|
                                0 <= k < n ==> world.cameras@[k] == resolved_no_winner(
                                    s0[k],
                                    false,
                                ),
                            !restored ==> forall|k: int|
                                0 <= k < j ==> (#[trigger] s0[k]).handle != o.camera,
                            restored ==> forall|k: int|
                                0 <= k < n ==> world.cameras@[k] == resolved_no_winner(
                                    s0[k],
                                    s0[k].handle == o.camera,
                                ),
                            world.next_handle == w0.next_handle,
                        decreases n - j,
                    {
                        if !restored && world.cameras[j].handle == o.camera {
                            proof {
                                assert(s0[j as int].handle == o.camera);
                                assert(!is_debug(s0[j as int]));
                            }
                            let rec = world.cameras[j];
                            world.cameras.set(
                                j,
                                CameraRecord {
                                    handle: rec.handle,
                                    is_active: true,
                                    changed: false,
                                    debug_camera: rec.debug_camera,
                                    data: rec.data,
                                    orientation: rec.orientation,
                                },
                            );
                            restored = true;
                            proof {
                                assert forall|k: int|
                                    0 <= k < n implies world.cameras@[k] == resolved_no_winner(
                                    s0[k],
                                    s0[k].handle == o.camera,
                                ) by {
                                    if k != j as int && s0[k].handle == o.camera {
                                        assert(s0[k].handle != s0[j as int].handle);
                                        assert(false);
                                    }
                                }
                            }
                        }
                        j = j + 1;
                    }
                    proof {
                        if !restored {
                            assert forall|k: int| 0 <= k < n implies world.cameras@[k]
                                == resolved_no_winner(s0[k], s0[k].handle == o.camera) by {
                                assert(s0[k].handle != o.camera);
                            }
                        }
                    }
                    *cursor = o.cursor;
                    notes.push(Notification::SwitchedToGameCamera);
                },
                None => {},
            }
            proof {
                assert(world.cameras@ =~= focus_next(s0, lru0, origin0, cursor0).0);
                assert(notes@ =~= focus_next(s0, lru0, origin0, cursor0).4);
                lemma_focus_preserves_wf(w0, g0, cursor0, *world, *global);
            }
        },
    }
    notes
}

/// Law: focus resolution is idempotent. Resolving a second time in the same
/// tick, with no new changes, moves nothing and surfaces nothing: the first
/// pass consumed every dirty flag, so the second sees nothing changed and
/// leaves the state alone.
pub proof fn lemma_focus_resolution_idempotent(
    s: Seq<CameraRecord>,
    lru: Seq<u64>,
    origin: Option<DebugCameraLastUsedOriginCameraData>,
    cursor: CursorState,
)
    ensures
        ({
            let once = focus_next(s, lru, origin, cursor);
            let twice = focus_next(once.0, once.1, once.2, once.3);
            &&& twice.0 == once.0
            &&& twice.1 == once.1
            &&& twice.2 == once.2
            &&& twice.3 == once.3
            &&& twice.4 == Seq::<Notification>::empty()
        }),
{
    let once = focus_next(s, lru, origin, cursor);
    if !any_changed(s) {
        assert(once.0 == s);
        assert(!any_changed(once.0));
    } else if has_focus_candidate(s) {
        assert(forall|i: int| 0 <= i < once.0.len() ==> !(#[trigger] once.0[i]).changed);
        assert(!any_changed(once.0));
    } else {
        assert(forall|i: int| 0 <= i < once.0.len() ==> !(#[trigger] once.0[i]).changed);
        assert(!any_changed(once.0));
    }
}

/// Law: at most one camera holds the primary output after focus resolution,
/// whatever focus flags were written this tick; and when some changed debug
/// camera asks for focus, exactly the winner holds it.
pub proof fn lemma_focus_resolution_single_active(
    w: CameraWorld,
    g: DebugCameraGlobalData,
    cursor: CursorState,
)
    requires
        wf(w, g),
    ensures
        at_most_one_active(
            focus_next(
                w.cameras@,
                g.last_used_debug_cameras@,
                g.last_used_origin_camera,
                cursor,
            ).0,
        ),
        any_changed(w.cameras@) && has_focus_candidate(w.cameras@) ==> forall|i: int|
            0 <= i < w.cameras@.len() ==> ((#[trigger] focus_next(
                w.cameras@,
                g.last_used_debug_cameras@,
                g.last_used_origin_camera,
                cursor,
            ).0[i]).is_active <==> i == winner_index(w.cameras@)),
{
    let s0 = w.cameras@;
    let s1 = focus_next(s0, g.last_used_debug_cameras@, g.last_used_origin_camera, cursor).0;
    if !any_changed(s0) {
        assert(s1 == s0);
    } else if has_focus_candidate(s0) {
        let wi = winner_index(s0);
        lemma_exists_winner(s0);
        assert(is_winner(s0, wi));
        assert forall|i: int| 0 <= i < s1.len() && (#[trigger] s1[i]).is_active implies i == wi by {
            if i != wi {
                if s0[i].debug_camera is Some && s0[i].data is None {
                    assert(!s0[i].is_active);
                }
            }
        }
        assert(at_most_one_active(s1));
        assert(s1[wi].is_active);
    } else {
        let origin0 = g.last_used_origin_camera;
        assert forall|i: int, j: int| 0 <= i < j < s1.len() implies !((#[trigger] s1[i]).is_active
            && (#[trigger] s1[j]).is_active) by {
            if s1[i].is_active && s1[j].is_active {
                if s0[i].debug_camera is Some && s0[i].data is None {
                    assert(!s0[i].is_active);
                    assert(false);
                }
                if s0[j].debug_camera is Some && s0[j].data is None {
                    assert(!s0[j].is_active);
                    assert(false);
                }
                match origin0 {
                    Some(o) => {
                        if s0[i].handle == o.camera && s0[j].handle == o.camera {
                            assert(false);
                        } else if s0[i].handle == o.camera {
                            assert(s0[j].is_active);
                            assert(is_debug(s0[j]));
                            assert(false);
                        } else if s0[j].handle == o.camera {
                            assert(s0[i].is_active);
                            assert(is_debug(s0[i]));
                            assert(false);
                        } else {
                            assert(s0[i].is_active && s0[j].is_active);
                            assert(false);
                        }
                    },
                    None => {
                        assert(s0[i].is_active && s0[j].is_active);
                        assert(false);
                    },
                }
            }
        }
    }
}

/// Law: the origin camera's cursor snapshot survives a round trip. When a
/// focus pass displaces an active non-debug camera, it saves the cursor
/// configuration of that moment; whatever states the protocol passes through
/// in between — none of them touch a saved snapshot's contents — the pass
/// that later finds no focused debug camera restores exactly the saved
/// visibility and grab-mode pair.
pub proof fn lemma_cursor_snapshot_round_trip(
    s1: Seq<CameraRecord>,
    lru1: Seq<u64>,
    origin1: Option<DebugCameraLastUsedOriginCameraData>,
    cursor1: CursorState,
    s2: Seq<CameraRecord>,
    lru2: Seq<u64>,
    cursor2: CursorState,
)
    requires
        any_changed(s1),
        has_focus_candidate(s1),
        some_game_camera_active(s1),
        any_changed(s2),
        !has_focus_candidate(s2),
    ensures
        ({
            let saved = focus_next(s1, lru1, origin1, cursor1).2;
            &&& saved matches Some(o) && o.cursor == cursor1
            &&& focus_next(s2, lru2, saved, cursor2).3 == cursor1
        }),
{
}

/// Law: each committed focus switch moves the winner's handle to the tail of
/// the focus order, and the order never holds a handle twice.
pub proof fn lemma_focus_order_no_duplicates(
    w: CameraWorld,
    g: DebugCameraGlobalData,
    cursor: CursorState,
)
    requires
        wf(w, g),
    ensures
        no_duplicate_handles(
            focus_next(
                w.cameras@,
                g.last_used_debug_cameras@,
                g.last_used_origin_camera,
                cursor,
            ).1,
        ),
        (any_changed(w.cameras@) && has_focus_candidate(w.cameras@)
            && !w.cameras@[winner_index(w.cameras@)].is_active) ==> focus_next(
            w.cameras@,
            g.last_used_debug_cameras@,
            g.last_used_origin_camera,
            cursor,
        ).1.last() == w.cameras@[winner_index(w.cameras@)].handle,
{
    let s0 = w.cameras@;
    let lru0 = g.last_used_debug_cameras@;
    if any_changed(s0) && has_focus_candidate(s0) {
        lemma_exists_winner(s0);
        let wi = winner_index(s0);
        if !s0[wi].is_active {
            lemma_moved_to_tail_props(lru0, s0[wi].handle);
        }
    }
}

} // verus!
