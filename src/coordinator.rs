//! The coordinator: the serialized state machine that owns the device
//! dictionary, decides what each command asks of the native layer, records
//! the outcome, and builds the snapshots that are published.
use vstd::prelude::*;
use crate::dictionary::{DeviceDictionary, Endpoint, EndpointView, entries_map, sorted_by_id};
use crate::error::AudioError;
use crate::level::{level_is_valid, valid_level};
use crate::notification::Notification;

verus! {

/// A message to the coordinator, from the relay or from the UI boundary.
pub enum IPCHandlers {
    /// Rebuild the dictionary because the OS reported a change.
    AudioDictUpdate { notification: Notification },
    /// Rebuild the dictionary and publish a snapshot.
    AudioDict,
    /// Make the device the default output.
    DefaultAudioChange { id: String },
    /// Set the volume of the device, in millionths of full scale.
    VolumeChange { id: String, volume: i64 },
    /// Mute or unmute the device.
    MuteStateChange { id: String, muted: bool },
    /// Report the channel count of every device.
    Channels,
}

/// What the native layer is asked to do for a command.
pub enum Action {
    /// Enumerate the active outputs, read the default identifier, and hand
    /// both to [`Coordinator::rebuild`].
    Rebuild { notification: Option<Notification> },
    /// Make the device registered under `token` the default output.
    SetDefault { id: String, token: u64 },
    /// Set the level of the device registered under `token`.
    SetVolume { id: String, token: u64, level: u32 },
    /// Set the mute state of the device registered under `token`.
    SetMute { id: String, token: u64, muted: bool },
    /// Read the channel count of each device, in identifier order.
    ListChannels { tokens: Vec<u64> },
}

/// One device as published: identifier, name, volume level, muted.
pub struct AudioDeviceInfo {
    pub id: String,
    pub name: String,
    pub volume: u32,
    pub muted: bool,
}

impl View for AudioDeviceInfo {
    type V = (Seq<char>, Seq<char>, u32, bool);

    open spec fn view(&self) -> (Seq<char>, Seq<char>, u32, bool) {
        (self.id@, self.name@, self.volume, self.muted)
    }
}

/// What is published of an endpoint.
pub open spec fn info_of(e: EndpointView) -> (Seq<char>, Seq<char>, u32, bool) {
    (e.id, e.name, e.level, e.muted)
}

impl AudioDeviceInfo {
    /// What is published of `audio`.
    pub fn from_audio(audio: &Endpoint) -> (r: AudioDeviceInfo)
        ensures
            r@ == info_of(audio@),
    {
        AudioDeviceInfo {
            id: audio.id.clone(),
            name: audio.name.clone(),
            volume: audio.level,
            muted: audio.muted,
        }
    }
}

/// All devices, in identifier order, and the default identifier.
pub struct WindowsAudioState {
    pub audio_device_list: Vec<AudioDeviceInfo>,
    pub default: String,
}

impl WindowsAudioState {
    /// The published devices, in identifier order.
    pub open spec fn devices_view(&self) -> Seq<(Seq<char>, Seq<char>, u32, bool)> {
        self.audio_device_list@.map_values(|d: AudioDeviceInfo| d@)
    }

    /// The devices of `audio_dict`, in identifier order, with default
    /// identifier `default`.
    pub fn new(audio_dict: &DeviceDictionary, default: String) -> (r: WindowsAudioState)
        ensures
            r.devices_view() == audio_dict@.map_values(|e: EndpointView| info_of(e)),
            r.default@ == default@,
    {
        let mut audios: Vec<AudioDeviceInfo> = Vec::new();
        let mut i: usize = 0;
        while i < audio_dict.len()
            invariant
                0 <= i <= audio_dict@.len(),
                audios@.len() == i,
                forall|j: int| 0 <= j < i ==> #[trigger] audios@[j]@ == info_of(audio_dict@[j]),
            decreases audio_dict@.len() - i,
        {
            audios.push(AudioDeviceInfo::from_audio(audio_dict.get(i)));
            i = i + 1;
        }
        assert(audios@.map_values(|d: AudioDeviceInfo| d@) =~= audio_dict@.map_values(
            |e: EndpointView| info_of(e),
        ));
        WindowsAudioState { audio_device_list: audios, default }
    }
}

/// An immutable view of all devices and the default identifier, with the
/// notification that caused it, if any.
pub struct AudioStateChangePayload {
    pub windows_audio_state: WindowsAudioState,
    pub notification: Option<Notification>,
}

/// The outcome of a rebuild: the tokens of the endpoints that left the
/// dictionary, which must be unregistered, and the snapshot to publish.
pub struct Refresh {
    pub retired: Vec<u64>,
    pub published: Result<AudioStateChangePayload, AudioError>,
}

/// The dictionary that enumerating `s` in order gives: a later device
/// replaces an earlier one with the same identifier.
pub open spec fn model_of(s: Seq<EndpointView>) -> Map<Seq<char>, EndpointView>
    decreases s.len(),
{
    if s.len() == 0 {
        Map::empty()
    } else {
        model_of(s.drop_last()).insert(s.last().id, s.last())
    }
}

/// The tokens of the devices of `s` that a later device with the same
/// identifier replaced, in order of replacement.
pub open spec fn displaced(s: Seq<EndpointView>) -> Seq<u64>
    decreases s.len(),
{
    if s.len() == 0 {
        Seq::empty()
    } else {
        let m = model_of(s.drop_last());
        displaced(s.drop_last()) + if m.contains_key(s.last().id) {
            seq![m[s.last().id].token]
        } else {
            Seq::empty()
        }
    }
}

/// The dictionary after the native layer accepted level `level` for `id`.
pub open spec fn volume_recorded(m: Map<Seq<char>, EndpointView>, id: Seq<char>, level: u32) -> Map<
    Seq<char>,
    EndpointView,
> {
    if m.contains_key(id) {
        m.insert(id, EndpointView { level, ..m[id] })
    } else {
        m
    }
}

/// The dictionary after the native layer accepted mute state `muted` for `id`.
pub open spec fn mute_recorded(m: Map<Seq<char>, EndpointView>, id: Seq<char>, muted: bool) -> Map<
    Seq<char>,
    EndpointView,
> {
    if m.contains_key(id) {
        m.insert(id, EndpointView { muted, ..m[id] })
    } else {
        m
    }
}

/// The dictionary of the devices `devices`, enumerated in that order: a
/// later device replaces an earlier one with the same identifier. Also
/// returns the tokens of the devices replaced, in order of replacement.
pub fn get_audio_dictionary(devices: Vec<Endpoint>) -> (r: (DeviceDictionary, Vec<u64>))
    ensures
        r.0.wf(),
        r.0.map() == model_of(devices@.map_values(|x: Endpoint| x@)),
        r.1@ == displaced(devices@.map_values(|x: Endpoint| x@)),
{
    let mut rest = devices;
    let ghost all = rest@.map_values(|x: Endpoint| x@);
    let ghost n = all.len();
    let mut dict = DeviceDictionary::new();
    let mut gone: Vec<u64> = Vec::new();
    let ghost mut k: int = 0;
    assert(all.subrange(0, 0) =~= Seq::<EndpointView>::empty());
    assert(dict.map() =~= model_of(all.subrange(0, 0)));
    assert(rest@.map_values(|x: Endpoint| x@) =~= all.subrange(0, n as int));
    while rest.len() > 0
        invariant
            0 <= k <= n,
            n == all.len(),
            rest@.len() == n - k,
            rest@.map_values(|x: Endpoint| x@) == all.subrange(k, n as int),
            dict.wf(),
            dict.map() == model_of(all.subrange(0, k)),
            gone@ == displaced(all.subrange(0, k)),
        decreases n - k,
    {
        let ghost before = rest@;
        let e = rest.remove(0);
        proof {
            assert(before.map_values(|x: Endpoint| x@)[0] == all.subrange(k, n as int)[0]);
            assert(rest@ =~= before.subrange(1, before.len() as int));
            assert forall|j: int| 0 <= j < rest@.len() implies #[trigger] rest@[j]@ == all[k + 1 + j] by {
                assert(before.map_values(|x: Endpoint| x@)[j + 1] == all.subrange(k, n as int)[j + 1]);
            }
            assert(rest@.map_values(|x: Endpoint| x@) =~= all.subrange(k + 1, n as int));
            assert(e@ == all[k]);
            let pre = all.subrange(0, k + 1);
            assert(pre.drop_last() =~= all.subrange(0, k));
            assert(pre.last() == all[k]);
        }
        let replaced = dict.insert(e);
        if let Some(t) = replaced {
            gone.push(t);
        }
        proof {
            k = k + 1;
            let pre = all.subrange(0, k);
            assert(gone@ =~= displaced(pre));
        }
    }
    assert(all.subrange(0, k) =~= all);
    (dict, gone)
}

/// The single owner of the device dictionary.
pub struct Coordinator {
    dict: DeviceDictionary,
}

impl View for Coordinator {
    type V = Seq<EndpointView>;

    closed spec fn view(&self) -> Seq<EndpointView> {
        self.dict@
    }
}

impl Coordinator {
    /// The invariant: identifiers strictly increasing.
    pub open spec fn wf(&self) -> bool {
        sorted_by_id(self@)
    }

    /// The dictionary by identifier.
    pub open spec fn map(&self) -> Map<Seq<char>, EndpointView> {
        entries_map(self@)
    }

    /// A coordinator with an empty dictionary.
    pub fn new() -> (r: Coordinator)
        ensures
            r.wf(),
            r@ == Seq::<EndpointView>::empty(),
            r.map() == Map::<Seq<char>, EndpointView>::empty(),
    {
        Coordinator { dict: DeviceDictionary::new() }
    }

    /// The number of devices in the dictionary.
    pub fn device_count(&self) -> (r: usize)
        ensures
            r == self@.len(),
    {
        self.dict.len()
    }

    /// The recorded level of the device `id`, if it is in the dictionary.
    pub fn get_volume(&self, id: &String) -> (r: Option<u32>)
        requires
            self.wf(),
        ensures
            r == (if self.map().contains_key(id@) {
                Some(self.map()[id@].level)
            } else {
                None::<u32>
            }),
    {
        match self.dict.position(id) {
            Some(i) => Some(self.dict.get(i).level),
            None => None,
        }
    }

    /// The recorded mute state of the device `id`, if it is in the dictionary.
    pub fn get_mute(&self, id: &String) -> (r: Option<bool>)
        requires
            self.wf(),
        ensures
            r == (if self.map().contains_key(id@) {
                Some(self.map()[id@].muted)
            } else {
                None::<bool>
            }),
    {
        match self.dict.position(id) {
            Some(i) => Some(self.dict.get(i).muted),
            None => None,
        }
    }

    /// The registration tokens of all devices, in identifier order.
    pub fn endpoint_tokens(&self) -> (r: Vec<u64>)
        ensures
            r@ == self@.map_values(|e: EndpointView| e.token),
    {
        self.dict.tokens()
    }

    /// Decides what a command asks of the native layer. A device command
    /// naming an identifier that is not in the dictionary fails with
    /// `UnknownDevice`; a volume outside `0 ..= LEVEL_SCALE` for a known
    /// device fails with `InvalidLevel`. The dictionary is not changed.
    pub fn dispatch(&self, cmd: &IPCHandlers) -> (r: Result<Action, AudioError>)
        requires
            self.wf(),
        ensures
            match cmd {
                IPCHandlers::AudioDictUpdate { notification } => r == Ok::<Action, AudioError>(
                    Action::Rebuild { notification: Some(*notification) },
                ),
                IPCHandlers::AudioDict => r == Ok::<Action, AudioError>(
                    Action::Rebuild { notification: None },
                ),
                IPCHandlers::DefaultAudioChange { id } => if !self.map().contains_key(id@) {
                    r == Err::<Action, AudioError>(AudioError::UnknownDevice)
                } else {
                    r matches Ok(Action::SetDefault { id: rid, token }) && rid@ == id@ && token
                        == self.map()[id@].token
                },
                IPCHandlers::VolumeChange { id, volume } => if !self.map().contains_key(id@) {
                    r == Err::<Action, AudioError>(AudioError::UnknownDevice)
                } else if !valid_level(*volume) {
                    r == Err::<Action, AudioError>(AudioError::InvalidLevel)
                } else {
                    r matches Ok(Action::SetVolume { id: rid, token, level: l }) && rid@ == id@
                        && token == self.map()[id@].token && l == *volume
                },
                IPCHandlers::MuteStateChange { id, muted } => if !self.map().contains_key(id@) {
                    r == Err::<Action, AudioError>(AudioError::UnknownDevice)
                } else {
                    r matches Ok(Action::SetMute { id: rid, token, muted: m }) && rid@ == id@
                        && token == self.map()[id@].token && m == *muted
                },
                IPCHandlers::Channels => r matches Ok(Action::ListChannels { tokens }) && tokens@
                    == self@.map_values(|e: EndpointView| e.token),
            },
    {
        match cmd {
            IPCHandlers::AudioDictUpdate { notification } => Ok(
                Action::Rebuild { notification: Some(*notification) },
            ),
            IPCHandlers::AudioDict => Ok(Action::Rebuild { notification: None }),
            IPCHandlers::DefaultAudioChange { id } => match self.dict.position(id) {
                None => Err(AudioError::UnknownDevice),
                Some(i) => Ok(Action::SetDefault { id: id.clone(), token: self.dict.get(i).token }),
            },
            IPCHandlers::VolumeChange { id, volume } => match self.dict.position(id) {
                None => Err(AudioError::UnknownDevice),
                Some(i) => {
                    if !level_is_valid(*volume) {
                        Err(AudioError::InvalidLevel)
                    } else {
                        Ok(
                            Action::SetVolume {
                                id: id.clone(),
                                token: self.dict.get(i).token,
                                level: *volume as u32,
                            },
                        )
                    }
                },
            },
            IPCHandlers::MuteStateChange { id, muted } => match self.dict.position(id) {
                None => Err(AudioError::UnknownDevice),
                Some(i) => Ok(
                    Action::SetMute { id: id.clone(), token: self.dict.get(i).token, muted: *muted },
                ),
            },
            IPCHandlers::Channels => Ok(Action::ListChannels { tokens: self.dict.tokens() }),
        }
    }

    /// Records what the native layer reported for an action. A change of
    /// level or mute state that the native layer accepted is recorded for the
    /// device, if it is still in the dictionary; a failure changes nothing and
    /// is returned. A rejected default change is reported as `PolicyRejected`.
    pub fn settle(&mut self, action: &Action, outcome: Result<(), AudioError>) -> (r: Result<(), AudioError>)
        requires
            old(self).wf(),
        ensures
            final(self).wf(),
            match action {
                Action::SetDefault { .. } => {
                    &&& r == (if outcome is Ok {
                        Ok::<(), AudioError>(())
                    } else {
                        Err::<(), AudioError>(AudioError::PolicyRejected)
                    })
                    &&& final(self)@ == old(self)@
                },
                Action::SetVolume { id, level, .. } => {
                    &&& r == outcome
                    &&& outcome is Ok ==> final(self).map() == volume_recorded(old(self).map(), id@, *level)
                    &&& outcome is Err ==> final(self)@ == old(self)@
                },
                Action::SetMute { id, muted, .. } => {
                    &&& r == outcome
                    &&& outcome is Ok ==> final(self).map() == mute_recorded(old(self).map(), id@, *muted)
                    &&& outcome is Err ==> final(self)@ == old(self)@
                },
                _ => r == outcome && final(self)@ == old(self)@,
            },
    {
        match action {
            Action::SetDefault { .. } => match outcome {
                Ok(()) => Ok(()),
                Err(_) => Err(AudioError::PolicyRejected),
            },
            Action::SetVolume { id, level, .. } => {
                if outcome.is_ok() {
                    if let Some(i) = self.dict.position(id) {
                        self.dict.set_level(i, *level);
                    }
                }
                outcome
            },
            Action::SetMute { id, muted, .. } => {
                if outcome.is_ok() {
                    if let Some(i) = self.dict.position(id) {
                        self.dict.set_muted(i, *muted);
                    }
                }
                outcome
            },
            _ => outcome,
        }
    }

    /// Replaces the dictionary by the devices just enumerated, in their
    /// order, a later device replacing an earlier one with the same
    /// identifier. Every endpoint of the old dictionary, and every enumerated
    /// one that was replaced, is retired. The snapshot published carries the
    /// default identifier read for this refresh. Where enumeration failed the
    /// dictionary is kept and nothing is retired; where reading the default
    /// identifier failed the dictionary is still replaced but nothing is
    /// published.
    pub fn rebuild(
        &mut self,
        enumerated: Result<Vec<Endpoint>, AudioError>,
        default_id: Result<String, AudioError>,
        notification: Option<Notification>,
    ) -> (r: Refresh)
        requires
            old(self).wf(),
        ensures
            final(self).wf(),
            match enumerated {
                Err(e) => {
                    &&& final(self)@ == old(self)@
                    &&& r.retired@.len() == 0
                    &&& r.published == Err::<AudioStateChangePayload, AudioError>(e)
                },
                Ok(devs) => {
                    &&& final(self).map() == model_of(devs@.map_values(|x: Endpoint| x@))
                    &&& r.retired@ == old(self)@.map_values(|x: EndpointView| x.token) + displaced(
                        devs@.map_values(|x: Endpoint| x@),
                    )
                    &&& match default_id {
                        Ok(d) => r.published matches Ok(snap)
                            && snap.windows_audio_state.devices_view() == final(self)@.map_values(
                            |x: EndpointView| info_of(x),
                        ) && snap.windows_audio_state.default@ == d@ && snap.notification
                            == notification,
                        Err(e) => r.published == Err::<AudioStateChangePayload, AudioError>(e),
                    }
                },
            },
    {
        let devices = match enumerated {
            Err(e) => {
                return Refresh { retired: Vec::new(), published: Err(e) };
            },
            Ok(devs) => devs,
        };
        let (dict, mut gone) = get_audio_dictionary(devices);
        let mut retired = self.dict.tokens();
        retired.append(&mut gone);
        self.dict = dict;
        let published = match default_id {
            Ok(d) => Ok(self.snapshot(d, notification)),
            Err(e) => Err(e),
        };
        Refresh { retired, published }
    }

    /// A snapshot of the dictionary with default identifier `default_id`.
    pub fn snapshot(&self, default_id: String, notification: Option<Notification>) -> (r:
        AudioStateChangePayload)
        ensures
            r.windows_audio_state.devices_view() == self@.map_values(|e: EndpointView| info_of(e)),
            r.windows_audio_state.default@ == default_id@,
            r.notification == notification,
    {
        AudioStateChangePayload {
            windows_audio_state: WindowsAudioState::new(&self.dict, default_id),
            notification,
        }
    }
}

} // verus!

verus! {

/// The dictionary after the native layer accepted, in order, each volume
/// change of `ops` (an identifier and a level).
pub open spec fn volumes_recorded(m: Map<Seq<char>, EndpointView>, ops: Seq<(Seq<char>, i64)>) -> Map<
    Seq<char>,
    EndpointView,
>
    decreases ops.len(),
{
    if ops.len() == 0 {
        m
    } else {
        volume_recorded(volumes_recorded(m, ops.drop_last()), ops.last().0, ops.last().1 as u32)
    }
}

/// The level last set for `id` in `ops`, or `initial` if none was.
pub open spec fn last_level_set(ops: Seq<(Seq<char>, i64)>, id: Seq<char>, initial: u32) -> u32
    decreases ops.len(),
{
    if ops.len() == 0 {
        initial
    } else if ops.last().0 == id {
        ops.last().1 as u32
    } else {
        last_level_set(ops.drop_last(), id, initial)
    }
}

/// After any sequence of accepted volume changes with levels in
/// `0 ..= LEVEL_SCALE`, the dictionary holds the same devices, and the
/// recorded level of each device is the level last set for it.
pub proof fn lemma_last_volume_wins(m: Map<Seq<char>, EndpointView>, ops: Seq<(Seq<char>, i64)>, id: Seq<char>)
    requires
        forall|i: int| 0 <= i < ops.len() ==> valid_level(#[trigger] ops[i].1),
        m.contains_key(id),
    ensures
        volumes_recorded(m, ops).dom() == m.dom(),
        volumes_recorded(m, ops)[id].level == last_level_set(ops, id, m[id].level),
        last_level_set(ops, id, m[id].level) == m[id].level || exists|i: int|
            0 <= i < ops.len() && ops[i].0 == id && #[trigger] ops[i].1 == last_level_set(
                ops,
                id,
                m[id].level,
            ),
    decreases ops.len(),
{
    if ops.len() > 0 {
        let init = ops.drop_last();
        assert forall|i: int| 0 <= i < init.len() implies valid_level(#[trigger] init[i].1) by {
            assert(valid_level(ops[i].1));
        }
        lemma_last_volume_wins(m, init, id);
        let prev = volumes_recorded(m, init);
        let (k, v) = ops.last();
        assert(valid_level(ops[ops.len() - 1].1));
        if prev.contains_key(k) {
            assert(prev.insert(k, EndpointView { level: v as u32, ..prev[k] }).dom() =~= prev.dom());
        }
        if ops.last().0 != id && last_level_set(init, id, m[id].level) != m[id].level {
            let i = choose|i: int|
                0 <= i < init.len() && init[i].0 == id && #[trigger] init[i].1 == last_level_set(
                    init,
                    id,
                    m[id].level,
                );
            assert(ops[i] == init[i]);
        }
        if ops.last().0 == id {
            let i = ops.len() - 1;
            assert(ops[i].1 as u32 == last_level_set(ops, id, m[id].level));
            assert(0 <= ops[i].1 <= u32::MAX);
        }
    }
}

} // verus!

verus! {

/// The tokens held by the entries of `m`.
pub open spec fn map_tokens(m: Map<Seq<char>, EndpointView>) -> Set<u64> {
    Set::new(|t: u64| exists|k: Seq<char>| m.contains_key(k) && #[trigger] m[k].token == t)
}

/// Building a dictionary loses no registration: every token of the devices
/// enumerated is held by the dictionary or is among those displaced, and
/// these are all tokens of devices enumerated.
pub proof fn lemma_no_token_lost(devs: Seq<EndpointView>)
    ensures
        map_tokens(model_of(devs)) + displaced(devs).to_set() == devs.map_values(
            |e: EndpointView| e.token,
        ).to_set(),
    decreases devs.len(),
{
    let all = devs.map_values(|e: EndpointView| e.token).to_set();
    if devs.len() == 0 {
        assert(map_tokens(model_of(devs)) =~= Set::<u64>::empty());
        assert(displaced(devs).to_set() =~= Set::<u64>::empty());
        assert(all =~= Set::<u64>::empty());
    } else {
        let init = devs.drop_last();
        let e = devs.last();
        lemma_no_token_lost(init);
        let m = model_of(init);
        let m2 = model_of(devs);
        assert(m2 == m.insert(e.id, e));
        let extra: Seq<u64> = if m.contains_key(e.id) {
            seq![m[e.id].token]
        } else {
            Seq::empty()
        };
        assert(displaced(devs) == displaced(init) + extra);
        assert(displaced(devs).to_set() =~= displaced(init).to_set() + extra.to_set()) by {
            vstd::seq_lib::seq_to_set_distributes_over_add(displaced(init), extra);
        }
        assert(devs.map_values(|x: EndpointView| x.token) =~= init.map_values(
            |x: EndpointView| x.token,
        ).push(e.token));
        assert(all =~= init.map_values(|x: EndpointView| x.token).to_set().insert(e.token)) by {
            init.map_values(|x: EndpointView| x.token).lemma_push_to_set_commute(e.token);
        }
        if m.contains_key(e.id) {
            assert(extra.len() == 1 && extra[0] == m[e.id].token);
            assert forall|x: u64| extra.to_set().contains(x) <==> x == m[e.id].token by {
                if x == m[e.id].token {
                    assert(extra.contains(x));
                }
            }
            assert(extra.to_set() =~= set![m[e.id].token]);
        } else {
            assert(extra.to_set() =~= Set::<u64>::empty());
        }
        assert forall|t: u64| #[trigger] map_tokens(m2).contains(t) || extra.to_set().contains(t)
            <==> map_tokens(m).contains(t) || t == e.token by {
            if map_tokens(m2).contains(t) {
                let k = choose|k: Seq<char>| m2.contains_key(k) && #[trigger] m2[k].token == t;
                if k != e.id {
                    assert(m.contains_key(k) && m[k].token == t);
                }
            }
            if map_tokens(m).contains(t) {
                let k = choose|k: Seq<char>| m.contains_key(k) && #[trigger] m[k].token == t;
                if k != e.id {
                    assert(m2.contains_key(k) && m2[k].token == t);
                } else {
                    assert(extra.to_set().contains(t));
                }
            }
            if t == e.token {
                assert(m2.contains_key(e.id) && m2[e.id].token == t);
            }
        }
        assert(map_tokens(m2) + displaced(devs).to_set() =~= all);
    }
}

} // verus!
