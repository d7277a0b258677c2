use crate::actions::{
    activated, batch_commits, dimmed, next_scene_index, scene_reach, SceneDescriptor,
    DEFAULT_DIM_STEP,
};
use crate::devices::{commit_post, reconciled, Commit, DeviceError, Devices, Reaction, StateUpdate};
use crate::scenes::Scenes;
use crate::types::{Device, IntegrationId, KeyView};
use vstd::prelude::*;

verus! {

/// User-level actions.
#[derive(Debug)]
pub enum Action {
    ActivateScene(SceneDescriptor),
    CycleScenes { scenes: Vec<SceneDescriptor>, nowrap: Option<bool> },
    /// Brightness step in units of 1/`UNIT`.
    Dim { step: Option<i64> },
    /// An opaque payload for the named integration.
    Custom { integration_id: IntegrationId, payload: String },
    ForceTriggerRoutine { routine_id: String },
    SetDeviceState(Device),
    EvalExpr { expr: String },
}

/// Events of the system-wide queue.
#[derive(Debug)]
pub enum Message {
    /// An integration observed a device.
    RecvDeviceState { device: Device },
    /// The store changed.
    InternalStateUpdate(StateUpdate),
    /// Set a device's expected state.
    SetExpectedState { device: Device, set_scene: bool, skip_send: bool },
    /// Send a device's state to its integration.
    SendDeviceState { device: Device },
    /// Push a full state snapshot to live subscribers.
    WsBroadcastState,
    Action(Action),
}

/// Work that handling an event hands to the world outside the store.
#[derive(Debug)]
pub enum Effect {
    /// Put a message back on the event queue.
    Enqueue(Message),
    /// Upsert the device into persistent storage; failures are ignored.
    Persist(Device),
    /// Run the group, scene and rule invalidation hooks and refresh the
    /// expression context.
    Invalidate(StateUpdate),
    /// Send the device to the integration that owns it.
    Dispatch(Device),
    /// Push a full state snapshot to live subscribers.
    Broadcast,
    RunIntegrationAction { integration_id: IntegrationId, payload: String },
    ForceTriggerRoutine { routine_id: String },
    EvalExpr { expr: String },
}

/// The shared state that one event at a time is handled against.
pub struct AppState {
    pub devices: Devices,
    pub scenes: Scenes,
}

impl AppState {
    pub open spec fn wf(&self) -> bool {
        self.devices.wf() && self.scenes.wf()
    }
}

/// The effects a commit calls for, in order: change notification, dispatch,
/// persistence.
pub open spec fn commit_effects(c: Commit) -> Seq<Effect> {
    let notify = match c.update {
        Some(u) => seq![Effect::Enqueue(Message::InternalStateUpdate(u))],
        None => Seq::empty(),
    };
    let send = if c.send {
        seq![Effect::Enqueue(Message::SendDeviceState { device: c.device })]
    } else {
        Seq::empty()
    };
    let persist = if c.persist {
        seq![Effect::Persist(c.device)]
    } else {
        Seq::empty()
    };
    notify + send + persist
}

/// The effects of a run of commits, in order.
pub open spec fn commits_effects(cs: Seq<Commit>) -> Seq<Effect>
    decreases cs.len(),
{
    if cs.len() == 0 {
        Seq::empty()
    } else {
        commits_effects(cs.drop_last()) + commit_effects(cs.last())
    }
}

pub open spec fn reaction_effects(r: Reaction) -> Seq<Effect> {
    match r {
        Reaction::Discovered { commit, .. } => commit_effects(commit),
        Reaction::Committed(c) => commit_effects(c),
        Reaction::Unchanged => Seq::empty(),
        Reaction::Correct { device } => seq![Effect::Enqueue(Message::SendDeviceState { device })],
    }
}

/// The effects a commit calls for.
pub fn effects_of_commit(c: Commit) -> (r: Vec<Effect>)
    ensures
        r@ == commit_effects(c),
{
    let mut r: Vec<Effect> = Vec::new();
    let Commit { device, update, send, persist } = c;
    if let Some(u) = update {
        r.push(Effect::Enqueue(Message::InternalStateUpdate(u)));
    }
    if send {
        r.push(Effect::Enqueue(Message::SendDeviceState { device: device.clone() }));
    }
    if persist {
        r.push(Effect::Persist(device));
    }
    proof {
        assert(r@ =~= commit_effects(c));
    }
    r
}

/// The effects of a run of commits.
pub fn effects_of_commits(cs: Vec<Commit>) -> (r: Vec<Effect>)
    ensures
        r@ == commits_effects(cs@),
{
    let ghost all = cs@;
    let mut rest = cs;
    let mut r: Vec<Effect> = Vec::new();
    let ghost mut n: int = 0;
    assert(all.take(0) =~= Seq::<Commit>::empty());
    while rest.len() > 0
        invariant
            0 <= n <= all.len(),
            rest@ == all.skip(n),
            r@ == commits_effects(all.take(n)),
        decreases rest@.len(),
    {
        let c = rest.remove(0);
        proof {
            assert(c == all[n]);
            assert(all.take(n + 1).drop_last() =~= all.take(n));
            assert(all.take(n + 1).last() == c);
            assert(rest@ =~= all.skip(n + 1));
        }
        let mut es = effects_of_commit(c);
        r.append(&mut es);
        proof {
            n = n + 1;
        }
    }
    assert(all.take(all.len() as int) =~= all);
    r
}

/// What handling one event does to the state and which effects it hands out.
pub open spec fn handled(
    old: AppState,
    new: AppState,
    msg: Message,
    persisted: Option<Device>,
    r: Result<Vec<Effect>, DeviceError>,
) -> bool {
    &&& new.scenes == old.scenes
    &&& new.wf()
    &&& match msg {
        Message::RecvDeviceState { device } => match r {
            Ok(es) => exists|re: Reaction|
                #[trigger] reconciled(old.devices, new.devices, old.scenes, device, persisted, Ok(re))
                    && es@ == reaction_effects(re),
            Err(e) => reconciled(old.devices, new.devices, old.scenes, device, persisted, Err(e)),
        },
        Message::SetExpectedState { device, set_scene, skip_send } => r matches Ok(es) && exists|
            c: Commit,
        |
            #[trigger] commit_post(
                old.devices,
                new.devices,
                old.scenes,
                device,
                set_scene,
                false,
                skip_send,
                c,
            ) && es@ == commit_effects(c),
        Message::Action(Action::SetDeviceState(device)) => r matches Ok(es) && exists|c: Commit|
            #[trigger] commit_post(old.devices, new.devices, old.scenes, device, false, false, false, c)
                && es@ == commit_effects(c),
        Message::InternalStateUpdate(u) => r matches Ok(es) && new.devices == old.devices && es@
            == seq![Effect::Invalidate(u), Effect::Enqueue(Message::WsBroadcastState)],
        Message::SendDeviceState { device } => r matches Ok(es) && new.devices == old.devices
            && es@ == seq![Effect::Dispatch(device)],
        Message::WsBroadcastState => r matches Ok(es) && new.devices == old.devices && es@ == seq![
            Effect::Broadcast,
        ],
        Message::Action(Action::ActivateScene(sd)) => r matches Ok(es) && {
            &&& new.devices@ == Map::new(
                |k: KeyView| old.devices@.contains_key(k),
                |k: KeyView| activated(old.devices@, old.scenes, sd.scene_id, sd.device_keys, k),
            )
            &&& exists|cs: Seq<Commit>| es@ == #[trigger] commits_effects(cs) &&
                batch_commits(
                    old.devices@,
                    new.devices@,
                    cs,
                    scene_reach(old.scenes, sd.scene_id@, sd.device_keys),
                )
        },
        Message::Action(Action::CycleScenes { scenes: sds, nowrap }) => r matches Ok(es) && match
            next_scene_index(
                old.devices@,
                old.scenes,
                sds@,
                match nowrap {
                    Some(b) => b,
                    None => false,
                },
            ) {
            None => new.devices == old.devices && es@.len() == 0,
            Some(n) => {
                let sd = sds@[n];
                &&& new.devices@ == Map::new(
                    |k: KeyView| old.devices@.contains_key(k),
                    |k: KeyView|
                        activated(old.devices@, old.scenes, sd.scene_id, sd.device_keys, k),
                )
                &&& exists|cs: Seq<Commit>| es@ == #[trigger] commits_effects(cs) &&
                    batch_commits(
                        old.devices@,
                        new.devices@,
                        cs,
                        scene_reach(old.scenes, sd.scene_id@, sd.device_keys),
                    )
            },
        },
        Message::Action(Action::Dim { step }) => r matches Ok(es) && {
            &&& new.devices@ == Map::new(
                |k: KeyView| old.devices@.contains_key(k),
                |k: KeyView|
                    dimmed(
                        old.devices@,
                        old.scenes,
                        match step {
                            Some(s) => s,
                            None => DEFAULT_DIM_STEP,
                        },
                        k,
                    ),
            )
            &&& exists|cs: Seq<Commit>| es@ == #[trigger] commits_effects(cs) &&
                batch_commits(old.devices@, new.devices@, cs, old.devices@.dom())
        },
        Message::Action(Action::Custom { integration_id, payload }) => r matches Ok(es)
            && new.devices == old.devices && es@ == seq![
            Effect::RunIntegrationAction { integration_id, payload },
        ],
        Message::Action(Action::ForceTriggerRoutine { routine_id }) => r matches Ok(es)
            && new.devices == old.devices && es@ == seq![
            Effect::ForceTriggerRoutine { routine_id },
        ],
        Message::Action(Action::EvalExpr { expr }) => r matches Ok(es) && new.devices
            == old.devices && es@ == seq![Effect::EvalExpr { expr }],
    }
}

fn one(e: Effect) -> (r: Vec<Effect>)
    ensures
        r@ == seq![e],
{
    let mut r: Vec<Effect> = Vec::new();
    r.push(e);
    proof {
        assert(r@ =~= seq![e]);
    }
    r
}

/// Handles one event against the state, and returns the effects for the
/// outside world to carry out. `persisted` is the persisted record of an
/// observed device whose key the store does not know yet.
pub fn handle_message(state: &mut AppState, msg: Message, persisted: Option<Device>) -> (r: Result<
    Vec<Effect>,
    DeviceError,
>)
    requires
        old(state).wf(),
    ensures
        handled(*old(state), *final(state), msg, persisted, r),
{
    match msg {
        Message::RecvDeviceState { device } => {
            match state.devices.handle_recv_device_state(&device, &state.scenes, persisted) {
                Ok(re) => {
                    let es = match re {
                        Reaction::Discovered { commit, .. } => effects_of_commit(commit),
                        Reaction::Committed(c) => effects_of_commit(c),
                        Reaction::Unchanged => Vec::new(),
                        Reaction::Correct { device } => one(
                            Effect::Enqueue(Message::SendDeviceState { device }),
                        ),
                    };
                    proof {
                        assert(es@ =~= reaction_effects(re));
                    }
                    Ok(es)
                },
                Err(e) => Err(e),
            }
        },
        Message::InternalStateUpdate(u) => {
            let mut es = one(Effect::Invalidate(u));
            es.push(Effect::Enqueue(Message::WsBroadcastState));
            proof {
                assert(es@ =~= seq![Effect::Invalidate(u), Effect::Enqueue(Message::WsBroadcastState)]);
            }
            Ok(es)
        },
        Message::SetExpectedState { device, set_scene, skip_send } => {
            let c = state.devices.set_device_state(&device, &state.scenes, set_scene, false, skip_send);
            Ok(effects_of_commit(c))
        },
        Message::SendDeviceState { device } => Ok(one(Effect::Dispatch(device))),
        Message::WsBroadcastState => Ok(one(Effect::Broadcast)),
        Message::Action(action) => match action {
            Action::ActivateScene(sd) => {
                let cs = state.devices.activate_scene(&sd.scene_id, &sd.device_keys, &state.scenes);
                let ghost gcs = cs@;
                let es = effects_of_commits(cs);
                proof {
                    assert(es@ == commits_effects(gcs));
                    assert(batch_commits(
                        old(state).devices@,
                        state.devices@,
                        gcs,
                        scene_reach(state.scenes, sd.scene_id@, sd.device_keys),
                    ));
                }
                Ok(es)
            },
            Action::CycleScenes { scenes: sds, nowrap } => {
                let nowrap = match nowrap {
                    Some(b) => b,
                    None => false,
                };
                match state.devices.cycle_scenes(&sds, nowrap, &state.scenes) {
                    Some(cs) => {
                        let ghost gcs = cs@;
                        let es = effects_of_commits(cs);
                        proof {
                            let n = next_scene_index(old(state).devices@, state.scenes, sds@, nowrap)->0;
                            let sd = sds@[n];
                            assert(es@ == commits_effects(gcs));
                            assert(batch_commits(
                                old(state).devices@,
                                state.devices@,
                                gcs,
                                scene_reach(state.scenes, sd.scene_id@, sd.device_keys),
                            ));
                        }
                        Ok(es)
                    },
                    None => Ok(Vec::new()),
                }
            },
            Action::Dim { step } => {
                let cs = state.devices.dim(step, &state.scenes);
                let ghost gcs = cs@;
                let es = effects_of_commits(cs);
                proof {
                    assert(es@ == commits_effects(gcs));
                    assert(batch_commits(old(state).devices@, state.devices@, gcs, old(state).devices@.dom()));
                }
                Ok(es)
            },
            Action::Custom { integration_id, payload } => Ok(
                one(Effect::RunIntegrationAction { integration_id, payload }),
            ),
            Action::ForceTriggerRoutine { routine_id } => Ok(
                one(Effect::ForceTriggerRoutine { routine_id }),
            ),
            Action::SetDeviceState(device) => {
                let c = state.devices.set_device_state(&device, &state.scenes, false, false, false);
                Ok(effects_of_commit(c))
            },
            Action::EvalExpr { expr } => Ok(one(Effect::EvalExpr { expr })),
        },
    }
}

} // verus!
