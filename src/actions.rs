use crate::compare::brightness_or_full;
use crate::devices::{
    committed_device, is_change, lemma_commit_depends_on_kept_scene, record_of, scene_kept, Commit,
    Devices,
};
use crate::scenes::Scenes;
use crate::table::SameKey;
use crate::types::{
    same_scene, scene_view, ControllableState, Device, DeviceData, DeviceKey, KeyView, SceneId, UNIT,
};
use vstd::prelude::*;

verus! {

/// Brightness step of a dim without an explicit step (0.1).
pub const DEFAULT_DIM_STEP: i64 = 1000;

/// A scene to activate, optionally on a subset of its devices.
#[derive(Debug)]
pub struct SceneDescriptor {
    pub scene_id: SceneId,
    pub device_keys: Option<Vec<DeviceKey>>,
}

pub open spec fn key_listed(keys: Option<Vec<DeviceKey>>, k: KeyView) -> bool {
    match keys {
        Some(v) => seq_has_key(v@, k),
        None => true,
    }
}

pub open spec fn seq_has_key(s: Seq<DeviceKey>, k: KeyView) -> bool {
    exists|i: int| 0 <= i < s.len() && (#[trigger] s[i])@ == k
}

/// Whether activating the scene reaches the device with key `k`.
pub open spec fn targeted(
    scenes: Scenes,
    scene: Seq<char>,
    keys: Option<Vec<DeviceKey>>,
    k: KeyView,
) -> bool {
    scenes.configures(scene, k) && key_listed(keys, k)
}

/// The record of `k` after activating the scene.
pub open spec fn activated(
    store: Map<KeyView, Device>,
    scenes: Scenes,
    scene_id: SceneId,
    keys: Option<Vec<DeviceKey>>,
    k: KeyView,
) -> Device {
    if targeted(scenes, scene_id@, keys, k) {
        committed_device(store, scenes, Device { scene: Some(scene_id), ..store[k] }, true)
    } else {
        store[k]
    }
}

/// The keys that activating the scene reaches.
pub open spec fn scene_reach(scenes: Scenes, scene: Seq<char>, keys: Option<Vec<DeviceKey>>) -> Set<
    KeyView,
> {
    Set::new(|k: KeyView| targeted(scenes, scene, keys, k))
}

/// One commit of a run over known devices: it committed a known device,
/// which kept its record to the end; it notifies exactly when the record
/// changed, persists exactly then, and dispatches every controllable device.
pub open spec fn batch_commit(old: Map<KeyView, Device>, new: Map<KeyView, Device>, c: Commit) -> bool {
    let k = c.device.key();
    &&& old.contains_key(k)
    &&& new.contains_key(k)
    &&& new[k] == c.device
    &&& c.send == !(c.device.data is Sensor)
    &&& (c.update is Some) == is_change(old, c.device)
    &&& (c.update matches Some(u) ==> u.old == record_of(old, k) && u.new == c.device)
    &&& c.persist == (c.update is Some)
}

/// A run of commits, one for each known device in `reached` and no other.
pub open spec fn batch_commits(
    old: Map<KeyView, Device>,
    new: Map<KeyView, Device>,
    cs: Seq<Commit>,
    reached: Set<KeyView>,
) -> bool {
    &&& forall|i: int|
        0 <= i < cs.len() ==> batch_commit(old, new, #[trigger] cs[i]) && reached.contains(
            cs[i].device.key(),
        )
    &&& forall|i: int, j: int|
        0 <= i < j < cs.len() ==> (#[trigger] cs[i]).device.key() != (#[trigger] cs[j]).device.key()
    &&& forall|k: KeyView|
        old.contains_key(k) && #[trigger] reached.contains(k) ==> exists|i: int|
            0 <= i < cs.len() && (#[trigger] cs[i]).device.key() == k
}

/// Brightness moved down by `step` (up, for a negative step), kept within
/// off and full.
pub open spec fn dimmed_brightness(b: Option<u64>, step: i64) -> u64 {
    let v = brightness_or_full(b) - step;
    if v < 0 {
        0
    } else if v > UNIT {
        UNIT as u64
    } else {
        v as u64
    }
}

pub open spec fn dimmed_device(d: Device, step: i64) -> Device {
    match d.data {
        DeviceData::Controllable(c) => d.spec_set_controllable_state(
            ControllableState { brightness: Some(dimmed_brightness(c.state.brightness, step)), ..c.state },
        ),
        DeviceData::Sensor(_) => d,
    }
}

/// The record of `k` after dimming every device.
pub open spec fn dimmed(store: Map<KeyView, Device>, scenes: Scenes, step: i64, k: KeyView) -> Device {
    committed_device(store, scenes, dimmed_device(store[k], step), false)
}

/// A scene is active when every known device it reaches carries it.
pub open spec fn scene_active(store: Map<KeyView, Device>, scenes: Scenes, sd: SceneDescriptor) -> bool {
    forall|k: KeyView|
        store.contains_key(k) && #[trigger] targeted(scenes, sd.scene_id@, sd.device_keys, k)
            ==> scene_view(store[k].scene) == Some(sd.scene_id@)
}

/// The first active scene among the first `n` descriptors.
pub open spec fn first_active(
    store: Map<KeyView, Device>,
    scenes: Scenes,
    sds: Seq<SceneDescriptor>,
    n: int,
) -> Option<int>
    decreases n,
{
    if n <= 0 {
        None
    } else {
        match first_active(store, scenes, sds, n - 1) {
            Some(i) => Some(i),
            None => if scene_active(store, scenes, sds[n - 1]) {
                Some(n - 1)
            } else {
                None
            },
        }
    }
}

/// The scene that follows the first active one in the rotation; without an
/// active scene, the first. At the end the rotation wraps around, or, with
/// `nowrap`, stays on the last scene.
pub open spec fn next_scene_index(
    store: Map<KeyView, Device>,
    scenes: Scenes,
    sds: Seq<SceneDescriptor>,
    nowrap: bool,
) -> Option<int> {
    if sds.len() == 0 {
        None
    } else {
        match first_active(store, scenes, sds, sds.len() as int) {
            Some(i) => Some(
                if i + 1 < sds.len() {
                    i + 1
                } else if nowrap {
                    i
                } else {
                    0
                },
            ),
            None => Some(0),
        }
    }
}

proof fn lemma_first_active_stable(
    store: Map<KeyView, Device>,
    scenes: Scenes,
    sds: Seq<SceneDescriptor>,
    m: int,
    n: int,
)
    requires
        0 <= m <= n,
        first_active(store, scenes, sds, m) is Some,
    ensures
        first_active(store, scenes, sds, n) == first_active(store, scenes, sds, m),
    decreases n - m,
{
    if n > m {
        lemma_first_active_stable(store, scenes, sds, m, n - 1);
    }
}

fn listed(keys: &Option<Vec<DeviceKey>>, k: &DeviceKey) -> (r: bool)
    ensures
        r == key_listed(*keys, k@),
{
    match keys {
        None => true,
        Some(v) => {
            let mut i: usize = 0;
            while i < v.len()
                invariant
                    *keys == Some(*v),
                    i <= v@.len(),
                    forall|j: int| 0 <= j < i ==> (#[trigger] v@[j])@ != k@,
                decreases v@.len() - i,
            {
                if v[i].same_key(k) {
                    assert(0 <= i < v@.len() && (#[trigger] v@[i as int])@ == k@);
                    assert(seq_has_key(v@, k@));
                    return true;
                }
                i += 1;
            }
            false
        },
    }
}

fn dim_brightness(b: &Option<u64>, step: i64) -> (r: u64)
    ensures
        r == dimmed_brightness(*b, step),
{
    let cur: u64 = match b {
        Some(v) => *v,
        None => UNIT,
    };
    let v: i128 = cur as i128 - step as i128;
    if v < 0 {
        0
    } else if v > UNIT as i128 {
        UNIT
    } else {
        v as u64
    }
}

impl Device {
    /// This device with its brightness moved by `step`; sensors unchanged.
    pub fn dim_device(&self, step: i64) -> (r: Device)
        ensures
            r == dimmed_device(*self, step),
    {
        match &self.data {
            DeviceData::Controllable(c) => {
                let state = ControllableState {
                    brightness: Some(dim_brightness(&c.state.brightness, step)),
                    ..c.state
                };
                self.set_controllable_state(state)
            },
            DeviceData::Sensor(_) => self.clone(),
        }
    }
}

impl Devices {
    /// Activates a scene: every known device that the scene configures (and
    /// that `device_keys` lists, when given) gets the scene assigned and is
    /// committed with the scene set. Returns the commits, one per device.
    pub fn activate_scene(
        &mut self,
        scene_id: &SceneId,
        device_keys: &Option<Vec<DeviceKey>>,
        scenes: &Scenes,
    ) -> (r: Vec<Commit>)
        requires
            old(self).wf(),
            scenes.wf(),
        ensures
            final(self).wf(),
            final(self).names() == old(self).names(),
            final(self)@ == Map::new(
                |k: KeyView| old(self)@.contains_key(k),
                |k: KeyView| activated(old(self)@, *scenes, *scene_id, *device_keys, k),
            ),
            batch_commits(old(self)@, final(self)@, r@, scene_reach(*scenes, scene_id@, *device_keys)),
    {
        let ghost store0 = self@;
        let ghost names0 = self.names();
        let ghost reach = scene_reach(*scenes, scene_id@, *device_keys);
        let keys = self.device_keys();
        let mut commits: Vec<Commit> = Vec::new();
        let ghost mut done: Set<KeyView> = Set::empty();
        let mut j: usize = 0;
        while j < keys.len()
            invariant
                self.wf(),
                scenes.wf(),
                reach == scene_reach(*scenes, scene_id@, *device_keys),
                self.names() == names0,
                j <= keys@.len(),
                forall|a: int, b: int|
                    0 <= a < b < keys@.len() ==> (#[trigger] keys@[a])@ != (#[trigger] keys@[b])@,
                forall|a: int| 0 <= a < keys@.len() ==> store0.contains_key((#[trigger] keys@[a])@),
                forall|k: KeyView|
                    #[trigger] store0.contains_key(k) ==> exists|a: int|
                        0 <= a < keys@.len() && (#[trigger] keys@[a])@ == k,
                forall|a: int| 0 <= a < j ==> done.contains((#[trigger] keys@[a])@),
                forall|a: int| j <= a < keys@.len() ==> !done.contains((#[trigger] keys@[a])@),
                forall|k: KeyView| done.contains(k) ==> store0.contains_key(k),
                self@.dom() == store0.dom(),
                forall|k: KeyView|
                    #[trigger] self@.contains_key(k) ==> self@[k] == if done.contains(k) {
                        activated(store0, *scenes, *scene_id, *device_keys, k)
                    } else {
                        store0[k]
                    },
                forall|i: int|
                    0 <= i < commits@.len() ==> {
                        let k = (#[trigger] commits@[i]).device.key();
                        &&& done.contains(k)
                        &&& reach.contains(k)
                        &&& batch_commit(store0, self@, commits@[i])
                    },
                forall|a: int, b: int|
                    0 <= a < b < commits@.len() ==> (#[trigger] commits@[a]).device.key() != (
                    #[trigger] commits@[b]).device.key(),
                forall|k: KeyView|
                    done.contains(k) && #[trigger] reach.contains(k) ==> exists|i: int|
                        0 <= i < commits@.len() && (#[trigger] commits@[i]).device.key() == k,
            decreases keys@.len() - j,
        {
            let k = &keys[j];
            let ghost kv = k@;
            let ghost commits0 = commits@;
            let ghost done0 = done;
            assert(self@.contains_key(kv));
            if listed(device_keys, k) && scenes.scene_configures(scene_id, k) {
                let cur = self.get_device(k);
                if let Some(cur) = cur {
                    let d = cur.set_scene(Some(scene_id.clone()));
                    let ghost before = self@;
                    let c = self.set_device_state(&d, scenes, true, false, false);
                    proof {
                        assert(before[kv] == store0[kv]);
                        lemma_commit_depends_on_kept_scene(before, store0, *scenes, d, d, true);
                        assert(self@.dom() =~= store0.dom());
                    }
                    commits.push(c);
                    proof {
                        assert(!done0.contains(kv));
                        assert forall|i: int| 0 <= i < commits@.len() implies {
                            let k = (#[trigger] commits@[i]).device.key();
                            &&& done0.insert(kv).contains(k)
                            &&& reach.contains(k)
                            &&& batch_commit(store0, self@, commits@[i])
                        } by {
                            if i < commits0.len() {
                                assert(commits@[i] == commits0[i]);
                                assert(commits0[i].device.key() != kv);
                            }
                        }
                        assert forall|a: int, b: int|
                            0 <= a < b < commits@.len() implies (#[trigger] commits@[a]).device.key()
                            != (#[trigger] commits@[b]).device.key() by {
                            assert(commits@[a] == commits0[a]);
                            if b < commits0.len() {
                                assert(commits@[b] == commits0[b]);
                            }
                        }
                    }
                }
            }
            proof {
                done = done.insert(kv);
                assert forall|q: KeyView|
                    done.contains(q) && #[trigger] reach.contains(q)
                        implies exists|i: int|
                        0 <= i < commits@.len() && (#[trigger] commits@[i]).device.key() == q by {
                    if q == kv {
                        let i = commits@.len() - 1;
                        assert(commits@[i].device.key() == q);
                    } else {
                        assert(done0.contains(q));
                        let i = choose|i: int|
                            0 <= i < commits0.len() && (#[trigger] commits0[i]).device.key() == q;
                        assert(commits@[i] == commits0[i]);
                    }
                }
                assert forall|a: int| j + 1 <= a < keys@.len() implies !done.contains(
                    (#[trigger] keys@[a])@,
                ) by {
                    assert(keys@[j as int]@ != keys@[a]@);
                }
            }
            j += 1;
        }
        proof {
            assert forall|k: KeyView| #[trigger] store0.contains_key(k) implies done.contains(k) by {
                let a = choose|a: int| 0 <= a < keys@.len() && (#[trigger] keys@[a])@ == k;
            }
            assert(self@ =~= Map::new(
                |k: KeyView| store0.contains_key(k),
                |k: KeyView| activated(store0, *scenes, *scene_id, *device_keys, k),
            ));
        }
        commits
    }

    /// Dims every known device by `step` (by `DEFAULT_DIM_STEP` when none is
    /// given), tags it with the synthetic "dimmed" scene and commits it
    /// without setting the scene, so the recorded scene assignment stays.
    /// Returns the commits, one per device.
    pub fn dim(&mut self, step: Option<i64>, scenes: &Scenes) -> (r: Vec<Commit>)
        requires
            old(self).wf(),
            scenes.wf(),
        ensures
            final(self).wf(),
            final(self).names() == old(self).names(),
            final(self)@ == Map::new(
                |k: KeyView| old(self)@.contains_key(k),
                |k: KeyView|
                    dimmed(
                        old(self)@,
                        *scenes,
                        match step {
                            Some(s) => s,
                            None => DEFAULT_DIM_STEP,
                        },
                        k,
                    ),
            ),
            batch_commits(old(self)@, final(self)@, r@, old(self)@.dom()),
    {
        let step: i64 = match step {
            Some(s) => s,
            None => DEFAULT_DIM_STEP,
        };
        let ghost store0 = self@;
        let ghost names0 = self.names();
        let ghost reach = store0.dom();
        let keys = self.device_keys();
        let mut commits: Vec<Commit> = Vec::new();
        let ghost mut done: Set<KeyView> = Set::empty();
        let mut j: usize = 0;
        while j < keys.len()
            invariant
                self.wf(),
                scenes.wf(),
                reach == store0.dom(),
                self.names() == names0,
                j <= keys@.len(),
                forall|a: int, b: int|
                    0 <= a < b < keys@.len() ==> (#[trigger] keys@[a])@ != (#[trigger] keys@[b])@,
                forall|a: int| 0 <= a < keys@.len() ==> store0.contains_key((#[trigger] keys@[a])@),
                forall|k: KeyView|
                    #[trigger] store0.contains_key(k) ==> exists|a: int|
                        0 <= a < keys@.len() && (#[trigger] keys@[a])@ == k,
                forall|a: int| 0 <= a < j ==> done.contains((#[trigger] keys@[a])@),
                forall|a: int| j <= a < keys@.len() ==> !done.contains((#[trigger] keys@[a])@),
                forall|k: KeyView| done.contains(k) ==> store0.contains_key(k),
                self@.dom() == store0.dom(),
                forall|k: KeyView|
                    #[trigger] self@.contains_key(k) ==> self@[k] == if done.contains(k) {
                        dimmed(store0, *scenes, step, k)
                    } else {
                        store0[k]
                    },
                forall|i: int|
                    0 <= i < commits@.len() ==> {
                        let k = (#[trigger] commits@[i]).device.key();
                        &&& done.contains(k)
                        &&& reach.contains(k)
                        &&& batch_commit(store0, self@, commits@[i])
                    },
                forall|a: int, b: int|
                    0 <= a < b < commits@.len() ==> (#[trigger] commits@[a]).device.key() != (
                    #[trigger] commits@[b]).device.key(),
                forall|k: KeyView|
                    done.contains(k) && #[trigger] reach.contains(k) ==> exists|i: int|
                        0 <= i < commits@.len() && (#[trigger] commits@[i]).device.key() == k,
            decreases keys@.len() - j,
        {
            let k = &keys[j];
            let ghost kv = k@;
            let ghost commits0 = commits@;
            let ghost done0 = done;
            assert(self@.contains_key(kv));
            let cur = self.get_device(k);
            if let Some(cur) = cur {
                // The tag gives way to the recorded scene: the scene is not being set.
                let d = cur.dim_device(step).set_scene(
                    Some(SceneId("dimmed".to_owned())),
                );
                let ghost before = self@;
                let c = self.set_device_state(&d, scenes, false, false, false);
                proof {
                    assert(before[kv] == store0[kv]);
                    let plain = dimmed_device(store0[kv], step);
                    assert(scene_kept(before, d, false) == scene_kept(store0, plain, false));
                    lemma_commit_depends_on_kept_scene(before, store0, *scenes, d, plain, false);
                    assert(self@.dom() =~= store0.dom());
                }
                commits.push(c);
                proof {
                    assert(!done0.contains(kv));
                    assert forall|i: int| 0 <= i < commits@.len() implies {
                        let k = (#[trigger] commits@[i]).device.key();
                        &&& done0.insert(kv).contains(k)
                        &&& reach.contains(k)
                        &&& batch_commit(store0, self@, commits@[i])
                    } by {
                        if i < commits0.len() {
                            assert(commits@[i] == commits0[i]);
                            assert(commits0[i].device.key() != kv);
                        }
                    }
                    assert forall|a: int, b: int|
                        0 <= a < b < commits@.len() implies (#[trigger] commits@[a]).device.key()
                        != (#[trigger] commits@[b]).device.key() by {
                        assert(commits@[a] == commits0[a]);
                        if b < commits0.len() {
                            assert(commits@[b] == commits0[b]);
                        }
                    }
                }
            }
            proof {
                done = done.insert(kv);
                assert forall|q: KeyView|
                    done.contains(q) && #[trigger] reach.contains(q)
                        implies exists|i: int|
                    0 <= i < commits@.len() && (#[trigger] commits@[i]).device.key() == q by {
                    if q == kv {
                        let i = commits@.len() - 1;
                        assert(commits@[i].device.key() == q);
                    } else {
                        assert(done0.contains(q));
                        let i = choose|i: int|
                            0 <= i < commits0.len() && (#[trigger] commits0[i]).device.key() == q;
                        assert(commits@[i] == commits0[i]);
                    }
                }
                assert forall|a: int| j + 1 <= a < keys@.len() implies !done.contains(
                    (#[trigger] keys@[a])@,
                ) by {
                    assert(keys@[j as int]@ != keys@[a]@);
                }
            }
            j += 1;
        }
        proof {
            assert forall|k: KeyView| #[trigger] store0.contains_key(k) implies done.contains(k) by {
                let a = choose|a: int| 0 <= a < keys@.len() && (#[trigger] keys@[a])@ == k;
            }
            assert(self@ =~= Map::new(
                |k: KeyView| store0.contains_key(k),
                |k: KeyView| dimmed(store0, *scenes, step, k),
            ));
        }
        commits
    }

    fn is_scene_active(&self, sd: &SceneDescriptor, scenes: &Scenes) -> (r: bool)
        requires
            self.wf(),
            scenes.wf(),
        ensures
            r == scene_active(self@, *scenes, *sd),
    {
        let keys = self.device_keys();
        let wanted = Some(sd.scene_id.clone());
        let mut i: usize = 0;
        while i < keys.len()
            invariant
                self.wf(),
                scenes.wf(),
                wanted == Some(sd.scene_id),
                i <= keys@.len(),
                forall|a: int| 0 <= a < keys@.len() ==> self@.contains_key((#[trigger] keys@[a])@),
                forall|k: KeyView|
                    #[trigger] self@.contains_key(k) ==> exists|a: int|
                        0 <= a < keys@.len() && (#[trigger] keys@[a])@ == k,
                forall|a: int|
                    0 <= a < i && #[trigger] targeted(*scenes, sd.scene_id@, sd.device_keys, keys@[a]@)
                        ==> scene_view(self@[keys@[a]@].scene) == Some(sd.scene_id@),
            decreases keys@.len() - i,
        {
            let k = &keys[i];
            if listed(&sd.device_keys, k) && scenes.scene_configures(&sd.scene_id, k) {
                if let Some(d) = self.get_device(k) {
                    if !same_scene(&d.scene, &wanted) {
                        proof {
                            assert(targeted(*scenes, sd.scene_id@, sd.device_keys, k@));
                            assert(scene_view(self@[k@].scene) != Some(sd.scene_id@));
                        }
                        return false;
                    }
                }
            }
            i += 1;
        }
        proof {
            assert forall|k: KeyView|
                self@.contains_key(k) && #[trigger] targeted(*scenes, sd.scene_id@, sd.device_keys, k)
                    implies scene_view(self@[k].scene) == Some(sd.scene_id@) by {
                let a = choose|a: int| 0 <= a < keys@.len() && (#[trigger] keys@[a])@ == k;
                assert(targeted(*scenes, sd.scene_id@, sd.device_keys, keys@[a]@));
            }
        }
        true
    }

    /// Activates the scene that follows the first active one among
    /// `scene_descriptors` (see `next_scene_index`). Returns `None`, and
    /// changes nothing, when the list is empty.
    pub fn cycle_scenes(
        &mut self,
        scene_descriptors: &Vec<SceneDescriptor>,
        nowrap: bool,
        scenes: &Scenes,
    ) -> (r: Option<Vec<Commit>>)
        requires
            old(self).wf(),
            scenes.wf(),
        ensures
            final(self).wf(),
            match next_scene_index(old(self)@, *scenes, scene_descriptors@, nowrap) {
                None => r is None && *final(self) == *old(self),
                Some(n) => {
                    let sd = scene_descriptors@[n];
                    &&& r matches Some(commits)
                    &&& final(self).names() == old(self).names()
                    &&& final(self)@ == Map::new(
                        |k: KeyView| old(self)@.contains_key(k),
                        |k: KeyView| activated(old(self)@, *scenes, sd.scene_id, sd.device_keys, k),
                    )
                    &&& batch_commits(
                        old(self)@,
                        final(self)@,
                        commits@,
                        scene_reach(*scenes, sd.scene_id@, sd.device_keys),
                    )
                },
            },
    {
        let len: usize = scene_descriptors.len();
        if len == 0 {
            return None;
        }
        let mut i: usize = 0;
        let mut active: Option<usize> = None;
        while i < len
            invariant_except_break
                active is None,
                first_active(self@, *scenes, scene_descriptors@, i as int) is None,
            invariant
                self.wf(),
                scenes.wf(),
                len == scene_descriptors@.len(),
                i <= len,
            ensures
                active matches Some(a) ==> a < len && first_active(
                    self@,
                    *scenes,
                    scene_descriptors@,
                    len as int,
                ) == Some(a as int),
                active is None ==> first_active(self@, *scenes, scene_descriptors@, len as int)
                    is None,
            decreases len - i,
        {
            if self.is_scene_active(&scene_descriptors[i], scenes) {
                active = Some(i);
                proof {
                    lemma_first_active_stable(self@, *scenes, scene_descriptors@, i + 1, len as int);
                }
                break;
            }
            i += 1;
        }
        let next: usize = match active {
            Some(a) => if a + 1 < len {
                a + 1
            } else if nowrap {
                a
            } else {
                0
            },
            None => 0,
        };
        let sd = &scene_descriptors[next];
        Some(self.activate_scene(&sd.scene_id, &sd.device_keys, scenes))
    }
}

} // verus!
