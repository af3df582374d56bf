//! Initialization: attaching runtime state to newly observed debug cameras.
//!
//! For every record carrying a [`DebugCamera`] component but lacking
//! [`DebugCameraData`], initialization assigns the next sequential id,
//! defaults a missing orientation from the currently active camera (identity
//! if none is active), attaches runtime state, and — when the record does not
//! ask for focus — puts its handle at the second-to-last position of the
//! focus-order list, so the newcomer is next in line when cycling without
//! jumping ahead of the true most-recent entry. A record is processed at most
//! once, guarded by the absence of runtime state.

use vstd::prelude::*;

use super::{
    at_most_one_active, identity_orientation, orientation_valid, record_id, wf, CameraRecord,
    CameraWorld, DebugCameraData, DebugCameraGlobalData, Notification, Orientation,
};

verus! {

/// A record initialization must process: it carries the component but no
/// runtime state yet.
pub open spec fn needs_init(c: CameraRecord) -> bool {
    c.debug_camera is Some && c.data is None
}

/// How many records among the first `k` need processing.
pub open spec fn count_needs_init(s: Seq<CameraRecord>, k: int) -> int
    decreases k,
{
    if k <= 0 {
        0
    } else {
        count_needs_init(s, k - 1) + if needs_init(s[k - 1]) {
            1int
        } else {
            0int
        }
    }
}

proof fn lemma_count_needs_init_bounds(s: Seq<CameraRecord>, k: int)
    requires
        0 <= k,
    ensures
        0 <= count_needs_init(s, k) <= k,
    decreases k,
{
    if k > 0 {
        lemma_count_needs_init_bounds(s, k - 1);
    }
}

proof fn lemma_count_needs_init_monotone(s: Seq<CameraRecord>, k1: int, k2: int)
    requires
        0 <= k1 <= k2,
    ensures
        count_needs_init(s, k1) <= count_needs_init(s, k2),
    decreases k2,
{
    if k1 < k2 {
        lemma_count_needs_init_monotone(s, k1, k2 - 1);
    }
}

/// The orientation of the active camera, identity if no camera is active or
/// the active camera holds none.
pub open spec fn spec_active_orientation(s: Seq<CameraRecord>) -> Orientation {
    if exists|i: int| 0 <= i < s.len() && (#[trigger] s[i]).is_active {
        let i = choose|i: int| 0 <= i < s.len() && (#[trigger] s[i]).is_active;
        match s[i].orientation {
            Some(o) => o,
            None => identity_orientation(),
        }
    } else {
        identity_orientation()
    }
}

/// A processed record: runtime state attached with the given id, a missing
/// orientation defaulted, everything else kept.
pub open spec fn init_record(c: CameraRecord, id: u64, ao: Orientation) -> CameraRecord {
    CameraRecord {
        handle: c.handle,
        is_active: c.is_active,
        changed: c.changed,
        debug_camera: c.debug_camera,
        data: Some(DebugCameraData { id, last_change_position_time_us: 0, speed_level: 0 }),
        orientation: if c.orientation is Some {
            c.orientation
        } else {
            Some(ao)
        },
    }
}

/// The whole arena after one initialization pass: each record needing
/// processing is initialized with its sequential id, the rest are kept.
pub open spec fn initialized_cameras(s: Seq<CameraRecord>, nid0: int, ao: Orientation) -> Seq<
    CameraRecord,
> {
    Seq::new(
        s.len(),
        |i: int|
            if needs_init(s[i]) {
                init_record(s[i], (nid0 + count_needs_init(s, i)) as u64, ao)
            } else {
                s[i]
            },
    )
}

/// Handles of the records the pass initializes without focus, in index
/// order: these are the ones the focus-order list receives.
pub open spec fn unfocused_new_handles(s: Seq<CameraRecord>, k: int) -> Seq<u64>
    decreases k,
{
    if k <= 0 {
        Seq::empty()
    } else if needs_init(s[k - 1]) && !s[k - 1].debug_camera->0.focus {
        unfocused_new_handles(s, k - 1).push(s[k - 1].handle)
    } else {
        unfocused_new_handles(s, k - 1)
    }
}

/// A sequence with `h` put in at the second-to-last position; an empty
/// sequence just receives `h`.
pub open spec fn inserted_second_to_last(s: Seq<u64>, h: u64) -> Seq<u64> {
    if s.len() == 0 {
        seq![h]
    } else {
        s.subrange(0, s.len() - 1) + seq![h] + seq![s.last()]
    }
}

/// The focus-order list after receiving each handle in turn at the
/// second-to-last position.
pub open spec fn lru_after_inserts(lru: Seq<u64>, hs: Seq<u64>) -> Seq<u64>
    decreases hs.len(),
{
    if hs.len() == 0 {
        lru
    } else {
        inserted_second_to_last(lru_after_inserts(lru, hs.drop_last()), hs.last())
    }
}

proof fn lemma_inserted_second_to_last_props(s: Seq<u64>, h: u64)
    ensures
        inserted_second_to_last(s, h).len() == s.len() + 1,
        forall|x: u64|
            #[trigger] inserted_second_to_last(s, h).contains(x) <==> (s.contains(x) || x == h),
        (super::no_duplicate_handles(s) && !s.contains(h)) ==> super::no_duplicate_handles(
            inserted_second_to_last(s, h),
        ),
{
    let r = inserted_second_to_last(s, h);
    let n = s.len() as int;
    if n == 0 {
        assert forall|x: u64| #[trigger] r.contains(x) implies (s.contains(x) || x == h) by {
            let i = choose|i: int| 0 <= i < r.len() && r[i] == x;
            assert(r[0] == h);
        }
        assert forall|x: u64| (s.contains(x) || x == h) implies #[trigger] r.contains(x) by {
            assert(r[0] == h);
        }
    } else {
        assert(r.len() == n + 1);
        assert(forall|i: int| 0 <= i < n - 1 ==> r[i] == s[i]);
        assert(r[n - 1] == h);
        assert(r[n] == s[n - 1]);
        assert forall|x: u64| #[trigger] r.contains(x) implies (s.contains(x) || x == h) by {
            let i = choose|i: int| 0 <= i < r.len() && r[i] == x;
            if i < n - 1 {
                assert(s[i] == x);
            } else if i == n - 1 {
                assert(x == h);
            } else {
                assert(s[n - 1] == x);
            }
        }
        assert forall|x: u64| (s.contains(x) || x == h) implies #[trigger] r.contains(x) by {
            if x == h {
                assert(r[n - 1] == x);
            } else {
                let i = choose|i: int| 0 <= i < s.len() && s[i] == x;
                if i < n - 1 {
                    assert(r[i] == x);
                } else {
                    assert(r[n] == x);
                }
            }
        }
        if super::no_duplicate_handles(s) && !s.contains(h) {
            assert forall|i: int, j: int| 0 <= i < j < r.len() implies r[i] != r[j] by {
                if j < n - 1 {
                    assert(s[i] != s[j]);
                } else if j == n - 1 {
                    assert(s.contains(s[i]));
                } else {
                    if i < n - 1 {
                        assert(s[i] != s[n - 1]);
                    } else {
                        assert(s.contains(s[n - 1]));
                    }
                }
            }
        }
    }
}

proof fn lemma_lru_after_inserts_props(lru: Seq<u64>, hs: Seq<u64>)
    requires
        super::no_duplicate_handles(lru),
        super::no_duplicate_handles(hs),
        forall|k: int| 0 <= k < hs.len() ==> !lru.contains(#[trigger] hs[k]),
    ensures
        lru_after_inserts(lru, hs).len() == lru.len() + hs.len(),
        forall|x: u64|
            #[trigger] lru_after_inserts(lru, hs).contains(x) <==> (lru.contains(x)
                || hs.contains(x)),
        super::no_duplicate_handles(lru_after_inserts(lru, hs)),
    decreases hs.len(),
{
    if hs.len() == 0 {
        assert forall|x: u64| !(#[trigger] hs.contains(x)) by {
            if hs.contains(x) {
                let i = choose|i: int| 0 <= i < hs.len() && hs[i] == x;
            }
        }
    } else {
        let front = hs.drop_last();
        let h = hs.last();
        assert(forall|k: int| 0 <= k < front.len() ==> front[k] == hs[k]);
        lemma_lru_after_inserts_props(lru, front);
        let prev = lru_after_inserts(lru, front);
        assert(!front.contains(h)) by {
            if front.contains(h) {
                let i = choose|i: int| 0 <= i < front.len() && front[i] == h;
                assert(hs[i] == hs[hs.len() - 1]);
            }
        }
        assert(!lru.contains(h));
        assert(!prev.contains(h));
        lemma_inserted_second_to_last_props(prev, h);
        assert forall|x: u64|
            #[trigger] lru_after_inserts(lru, hs).contains(x) <==> (lru.contains(x)
                || hs.contains(x)) by {
            if lru_after_inserts(lru, hs).contains(x) {
                if prev.contains(x) {
                    if front.contains(x) {
                        let i = choose|i: int| 0 <= i < front.len() && front[i] == x;
                        assert(hs[i] == x);
                        assert(hs.contains(x));
                    }
                } else {
                    assert(x == h);
                    assert(hs[hs.len() - 1] == x);
                    assert(hs.contains(x));
                }
            }
            if lru.contains(x) {
                assert(prev.contains(x));
                assert(lru_after_inserts(lru, hs).contains(x));
            }
            if hs.contains(x) {
                let i = choose|i: int| 0 <= i < hs.len() && hs[i] == x;
                if i < hs.len() - 1 {
                    assert(front[i] == x);
                    assert(front.contains(x));
                    assert(prev.contains(x));
                } else {
                    assert(x == h);
                }
                assert(lru_after_inserts(lru, hs).contains(x));
            }
        }
    }
}

proof fn lemma_unfocused_new_handles_props(s: Seq<CameraRecord>, k: int)
    requires
        super::handles_unique(s),
        0 <= k <= s.len(),
    ensures
        unfocused_new_handles(s, k).len() <= count_needs_init(s, k),
        forall|x: u64|
            #[trigger] unfocused_new_handles(s, k).contains(x) ==> exists|j: int|
                0 <= j < k && needs_init(#[trigger] s[j]) && s[j].handle == x,
        super::no_duplicate_handles(unfocused_new_handles(s, k)),
    decreases k,
{
    if k > 0 {
        lemma_unfocused_new_handles_props(s, k - 1);
        let front = unfocused_new_handles(s, k - 1);
        let cur = unfocused_new_handles(s, k);
        if needs_init(s[k - 1]) && !s[k - 1].debug_camera->0.focus {
            let h = s[k - 1].handle;
            assert forall|x: u64| #[trigger] cur.contains(x) implies exists|j: int|
                0 <= j < k && needs_init(#[trigger] s[j]) && s[j].handle == x by {
                let i = choose|i: int| 0 <= i < cur.len() && cur[i] == x;
                if i < front.len() {
                    assert(front[i] == x);
                    assert(front.contains(x));
                    let j = choose|j: int|
                        0 <= j < k - 1 && needs_init(#[trigger] s[j]) && s[j].handle == x;
                    assert(needs_init(s[j]) && s[j].handle == x);
                } else {
                    assert(x == h);
                    assert(needs_init(s[k - 1]) && s[k - 1].handle == x);
                }
            }
            assert(super::no_duplicate_handles(cur)) by {
                assert forall|i: int, j: int| 0 <= i < j < cur.len() implies cur[i] != cur[j] by {
                    if j < front.len() {
                        assert(front[i] == cur[i] && front[j] == cur[j]);
                    } else {
                        assert(cur[j] == h);
                        assert(front[i] == cur[i]);
                        assert(front.contains(cur[i]));
                        let j0 = choose|j0: int|
                            0 <= j0 < k - 1 && needs_init(#[trigger] s[j0]) && s[j0].handle
                                == cur[i];
                        assert(s[j0].handle != s[k - 1].handle);
                    }
                }
            }
        } else {
            assert(cur =~= front);
        }
    }
}

/// Attach runtime state to every record that newly carries a [`DebugCamera`].
///
/// Ids are assigned sequentially from `global.next_id` in index order. A
/// record without an orientation receives the active camera's (identity if no
/// camera is active). Each record initialized with `focus == false` has its
/// handle put at the second-to-last position of the focus-order list. One
/// notification is returned per initialized camera, in order.
pub fn initialize_cameras(world: &mut CameraWorld, global: &mut DebugCameraGlobalData) -> (notes:
    Vec<Notification>)
    requires
        wf(*old(world), *old(global)),
        old(global).next_id + old(world).cameras@.len() <= u64::MAX,
        old(global).last_used_debug_cameras@.len() + old(world).cameras@.len() < usize::MAX,
    ensures
        final(world).cameras@ == initialized_cameras(
            old(world).cameras@,
            old(global).next_id as int,
            spec_active_orientation(old(world).cameras@),
        ),
        final(world).next_handle == old(world).next_handle,
        final(global).next_id == old(global).next_id + count_needs_init(
            old(world).cameras@,
            old(world).cameras@.len() as int,
        ),
        final(global).last_used_debug_cameras@ == lru_after_inserts(
            old(global).last_used_debug_cameras@,
            unfocused_new_handles(old(world).cameras@, old(world).cameras@.len() as int),
        ),
        final(global).last_used_origin_camera == old(global).last_used_origin_camera,
        final(global).selected_camera == old(global).selected_camera,
        final(global).last_switch_time_us == old(global).last_switch_time_us,
        final(global).default_value == old(global).default_value,
        notes@.len() == count_needs_init(old(world).cameras@, old(world).cameras@.len() as int),
        forall|k: int|
            0 <= k < notes@.len() ==> notes@[k] == (Notification::SpawnedDebugCamera {
                id: (old(global).next_id + k) as u64,
            }),
        wf(*final(world), *final(global)),
{
    let ghost s0 = world.cameras@;
    let ghost nid0 = global.next_id as int;
    let ghost lru0 = global.last_used_debug_cameras@;
    let ghost g0 = *global;
    let ghost w0 = *world;

    let ao = find_active_orientation(&world.cameras);
    let ghost ao_s = spec_active_orientation(s0);

    let mut notes: Vec<Notification> = Vec::new();
    let n = world.cameras.len();
    let mut i: usize = 0;
    while i < n
        invariant
            wf(w0, g0),
            w0.cameras@ == s0,
            g0.next_id == nid0,
            g0.last_used_debug_cameras@ == lru0,
            nid0 + s0.len() <= u64::MAX,
            lru0.len() + s0.len() < usize::MAX,
            n == s0.len(),
            0 <= i <= n,
            ao == ao_s,
            world.cameras@.len() == n,
            world.next_handle == w0.next_handle,
            forall|j: int| i <= j < n ==> world.cameras@[j] == s0[j],
            forall|j: int|
                0 <= j < i ==> world.cameras@[j] == initialized_cameras(s0, nid0, ao_s)[j],
            global.next_id == nid0 + count_needs_init(s0, i as int),
            0 <= count_needs_init(s0, i as int) <= i,
            global.last_used_debug_cameras@ == lru_after_inserts(
                lru0,
                unfocused_new_handles(s0, i as int),
            ),
            global.last_used_debug_cameras@.len() <= lru0.len() + count_needs_init(s0, i as int),
            unfocused_new_handles(s0, i as int).len() <= count_needs_init(s0, i as int),
            global.last_used_origin_camera == g0.last_used_origin_camera,
            global.selected_camera == g0.selected_camera,
            global.last_switch_time_us == g0.last_switch_time_us,
            global.default_value == g0.default_value,
            notes@.len() == count_needs_init(s0, i as int),
            forall|k: int|
                0 <= k < notes@.len() ==> notes@[k] == (Notification::SpawnedDebugCamera {
                    id: (nid0 + k) as u64,
                }),
        decreases n - i,
    {
        let rec = world.cameras[i];
        if rec.debug_camera.is_some() && rec.data.is_none() {
            let id = global.next_id;
            global.next_id = global.next_id + 1;
            let focus = rec.debug_camera.unwrap().focus;
            let orientation = if rec.orientation.is_some() {
                rec.orientation
            } else {
                Some(ao)
            };
            let new_rec = CameraRecord {
                handle: rec.handle,
                is_active: rec.is_active,
                changed: rec.changed,
                debug_camera: rec.debug_camera,
                data: Some(
                    DebugCameraData { id, last_change_position_time_us: 0, speed_level: 0 },
                ),
                orientation,
            };
            world.cameras.set(i, new_rec);
            if !focus {
                insert_second_to_last(&mut global.last_used_debug_cameras, rec.handle);
            }
            notes.push(Notification::SpawnedDebugCamera { id });
            proof {
                assert(needs_init(s0[i as int]));
                assert(count_needs_init(s0, i + 1) == count_needs_init(s0, i as int) + 1);
                assert(world.cameras@[i as int] == initialized_cameras(s0, nid0, ao_s)[i as int]);
                let hs_new = unfocused_new_handles(s0, i + 1);
                let hs_old = unfocused_new_handles(s0, i as int);
                if !s0[i as int].debug_camera->0.focus {
                    assert(hs_new == hs_old.push(s0[i as int].handle));
                    assert(hs_new.drop_last() =~= hs_old);
                    assert(hs_new.last() == s0[i as int].handle);
                    assert(lru_after_inserts(lru0, hs_new) == inserted_second_to_last(
                        lru_after_inserts(lru0, hs_old),
                        s0[i as int].handle,
                    ));
                    assert(global.last_used_debug_cameras@ == lru_after_inserts(lru0, hs_new));
                } else {
                    assert(hs_new == hs_old);
                }
            }
        } else {
            proof {
                assert(!needs_init(s0[i as int]));
                assert(count_needs_init(s0, i + 1) == count_needs_init(s0, i as int));
                assert(unfocused_new_handles(s0, i + 1) == unfocused_new_handles(s0, i as int));
                assert(world.cameras@[i as int] == s0[i as int]);
                assert(world.cameras@[i as int] == initialized_cameras(s0, nid0, ao_s)[i as int]);
            }
        }
        i = i + 1;
    }
    proof {
        assert(world.cameras@ =~= initialized_cameras(s0, nid0, ao_s));
        lemma_initialize_preserves_wf(w0, g0, *world, *global);
    }
    notes
}

/// The orientation the pass defaults a missing one from: the active camera's
/// own, or identity when no camera is active or it holds none.
fn find_active_orientation(cameras: &Vec<CameraRecord>) -> (ao: Orientation)
    requires
        at_most_one_active(cameras@),
    ensures
        ao == spec_active_orientation(cameras@),
{
    let n = cameras.len();
    let mut i: usize = 0;
    while i < n
        invariant
            at_most_one_active(cameras@),
            n == cameras@.len(),
            0 <= i <= n,
            forall|j: int| 0 <= j < i ==> !(#[trigger] cameras@[j]).is_active,
        decreases n - i,
    {
        if cameras[i].is_active {
            proof {
                assert(exists|k: int| 0 <= k < cameras@.len() && (#[trigger] cameras@[k]).is_active);
                let c = choose|k: int| 0 <= k < cameras@.len() && (#[trigger] cameras@[k]).is_active;
                if c != i as int {
                    assert(cameras@[c].is_active && cameras@[i as int].is_active);
                    assert(false);
                }
            }
            return match cameras[i].orientation {
                Some(o) => o,
                None => Orientation { yaw_mdeg: 0, pitch_mdeg: 0 },
            };
        }
        i = i + 1;
    }
    proof {
        assert(!exists|k: int| 0 <= k < cameras@.len() && (#[trigger] cameras@[k]).is_active);
    }
    Orientation { yaw_mdeg: 0, pitch_mdeg: 0 }
}

/// Insert a handle at the second-to-last position of the focus-order list,
/// so that it is next in line when cycling without jumping ahead of the true
/// most-recent entry.
pub fn insert_second_to_last(list: &mut Vec<u64>, h: u64)
    requires
        old(list)@.len() < usize::MAX,
    ensures
        final(list)@ == inserted_second_to_last(old(list)@, h),
{
    let n = list.len();
    if n == 0 {
        list.push(h);
        proof {
            assert(final(list)@ =~= inserted_second_to_last(old(list)@, h));
        }
    } else {
        list.insert(n - 1, h);
        proof {
            assert(final(list)@ =~= inserted_second_to_last(old(list)@, h));
        }
    }
}

proof fn lemma_initialize_preserves_wf(
    w0: CameraWorld,
    g0: DebugCameraGlobalData,
    w1: CameraWorld,
    g1: DebugCameraGlobalData,
)
    requires
        wf(w0, g0),
        g0.next_id + w0.cameras@.len() <= u64::MAX,
        w1.cameras@ == initialized_cameras(
            w0.cameras@,
            g0.next_id as int,
            spec_active_orientation(w0.cameras@),
        ),
        w1.next_handle == w0.next_handle,
        g1.next_id == g0.next_id + count_needs_init(w0.cameras@, w0.cameras@.len() as int),
        g1.last_used_debug_cameras@ == lru_after_inserts(
            g0.last_used_debug_cameras@,
            unfocused_new_handles(w0.cameras@, w0.cameras@.len() as int),
        ),
        g1.last_used_origin_camera == g0.last_used_origin_camera,
        g1.selected_camera == g0.selected_camera,
        g1.default_value == g0.default_value,
    ensures
        wf(w1, g1),
{
    let s0 = w0.cameras@;
    let n = s0.len() as int;
    let nid0 = g0.next_id as int;
    let ao = spec_active_orientation(s0);
    let inited = w1.cameras@;
    let lru0 = g0.last_used_debug_cameras@;
    let hs = unfocused_new_handles(s0, n);
    let lru1 = g1.last_used_debug_cameras@;

    assert(orientation_valid(ao)) by {
        if exists|i: int| 0 <= i < s0.len() && (#[trigger] s0[i]).is_active {
            let i = choose|i: int| 0 <= i < s0.len() && (#[trigger] s0[i]).is_active;
            assert(super::record_coherent(s0[i]));
        }
    }

    // Pointwise shape of the processed arena.
    assert forall|i: int| 0 <= i < n implies {
        &&& (#[trigger] inited[i]).handle == s0[i].handle
        &&& inited[i].is_active == s0[i].is_active
        &&& inited[i].changed == s0[i].changed
        &&& inited[i].debug_camera == s0[i].debug_camera
        &&& (s0[i].data is Some ==> inited[i].data == s0[i].data)
        &&& inited[i].data is Some == (s0[i].data is Some || needs_init(s0[i]))
    } by {
        lemma_count_needs_init_bounds(s0, i);
    }

    // Assigned ids: in range, and recoverable from the index.
    assert forall|i: int| 0 <= i < n && needs_init(#[trigger] s0[i]) implies record_id(inited[i])
        == nid0 + count_needs_init(s0, i) by {
        lemma_count_needs_init_bounds(s0, i);
        lemma_count_needs_init_monotone(s0, i, n);
    }

    assert(super::handles_unique(inited));
    assert(super::at_most_one_active(inited));

    assert forall|i: int| 0 <= i < n implies super::record_coherent(#[trigger] inited[i]) by {
        assert(super::record_coherent(s0[i]));
    }

    assert forall|i: int, j: int|
        0 <= i < j < n && (#[trigger] inited[i]).data is Some && (#[trigger] inited[j]).data
            is Some implies record_id(inited[i]) != record_id(inited[j]) by {
        lemma_count_needs_init_bounds(s0, i);
        lemma_count_needs_init_bounds(s0, j);
        lemma_count_needs_init_monotone(s0, i + 1, j);
        lemma_count_needs_init_monotone(s0, j, n);
        if needs_init(s0[i]) && needs_init(s0[j]) {
            assert(count_needs_init(s0, i + 1) == count_needs_init(s0, i) + 1);
        }
    }

    assert forall|i: int|
        0 <= i < n && (#[trigger] inited[i]).data is Some implies record_id(inited[i])
            < g1.next_id by {
        lemma_count_needs_init_bounds(s0, i);
        lemma_count_needs_init_monotone(s0, i + 1, n);
        lemma_count_needs_init_bounds(s0, n);
        if needs_init(s0[i]) {
            assert(count_needs_init(s0, i + 1) == count_needs_init(s0, i) + 1);
        }
    }

    lemma_unfocused_new_handles_props(s0, n);
    lemma_count_needs_init_bounds(s0, n);

    assert forall|k: int| 0 <= k < hs.len() implies !lru0.contains(#[trigger] hs[k]) by {
        assert(hs.contains(hs[k]));
        let j0 = choose|j: int| 0 <= j < n && needs_init(#[trigger] s0[j]) && s0[j].handle == hs[k];
        if lru0.contains(hs[k]) {
            let m = choose|m: int| 0 <= m < lru0.len() && lru0[m] == hs[k];
            assert(lru0[m] == s0[j0].handle);
            assert(s0[j0].data is Some);
        }
    }

    lemma_lru_after_inserts_props(lru0, hs);

    assert(super::no_duplicate_handles(lru1));
    assert(g1.selected_camera matches Some(i) ==> i < lru1.len());

    assert forall|k: int| 0 <= k < lru1.len() implies #[trigger] lru1[k] < w1.next_handle by {
        assert(lru1.contains(lru1[k]));
        if lru0.contains(lru1[k]) {
            let m = choose|m: int| 0 <= m < lru0.len() && lru0[m] == lru1[k];
        } else {
            assert(hs.contains(lru1[k]));
            let j0 = choose|j: int|
                0 <= j < n && needs_init(#[trigger] s0[j]) && s0[j].handle == lru1[k];
        }
    }

    assert forall|k: int, j: int|
        0 <= k < lru1.len() && 0 <= j < n && #[trigger] lru1[k] == (#[trigger] inited[j]).handle
            implies inited[j].data is Some by {
        assert(lru1.contains(lru1[k]));
        if lru0.contains(lru1[k]) {
            let m = choose|m: int| 0 <= m < lru0.len() && lru0[m] == lru1[k];
            assert(lru0[m] == s0[j].handle);
            assert(s0[j].data is Some);
        } else {
            assert(hs.contains(lru1[k]));
            let j0 = choose|j0: int|
                0 <= j0 < n && needs_init(#[trigger] s0[j0]) && s0[j0].handle == lru1[k];
            if j0 != j {
                assert(s0[j0].handle != s0[j].handle);
                assert(false);
            }
        }
    }
}

} // verus!
