use audio_sync::coordinator::{get_audio_dictionary, Action, AudioStateChangePayload, Coordinator, IPCHandlers};
use audio_sync::dictionary::Endpoint;
use audio_sync::error::AudioError;
use audio_sync::level::LEVEL_SCALE;
use audio_sync::notification::Notification;

fn ep(id: &str, name: &str, level: u32, muted: bool, token: u64) -> Endpoint {
    Endpoint::new(id.to_string(), name.to_string(), level, muted, token)
}

fn two_devices() -> Coordinator {
    let mut c = Coordinator::new();
    let r = c.rebuild(
        Ok(vec![ep("A", "Speakers", 500_000, false, 1), ep("B", "Headset", 200_000, true, 2)]),
        Ok("A".to_string()),
        None,
    );
    assert!(r.published.is_ok());
    c
}

fn devices(p: &AudioStateChangePayload) -> Vec<(String, String, u32, bool)> {
    p.windows_audio_state
        .audio_device_list
        .iter()
        .map(|d| (d.id.clone(), d.name.clone(), d.volume, d.muted))
        .collect()
}

/// Dispatches a command and settles it with `outcome`; returns the result.
fn run(c: &mut Coordinator, cmd: IPCHandlers, outcome: Result<(), AudioError>) -> Result<(), AudioError> {
    let action = c.dispatch(&cmd)?;
    c.settle(&action, outcome)
}

fn publish(c: &Coordinator) -> AudioStateChangePayload {
    c.snapshot("A".to_string(), None)
}

#[test]
fn scenario_set_volume_then_unknown_device() {
    let mut c = two_devices();
    let set = IPCHandlers::VolumeChange { id: "A".to_string(), volume: 900_000 };
    assert_eq!(run(&mut c, set, Ok(())), Ok(()));
    let first = publish(&c);
    assert_eq!(
        devices(&first),
        vec![
            ("A".to_string(), "Speakers".to_string(), 900_000, false),
            ("B".to_string(), "Headset".to_string(), 200_000, true),
        ]
    );
    let unknown = IPCHandlers::VolumeChange { id: "C".to_string(), volume: 100_000 };
    assert_eq!(run(&mut c, unknown, Ok(())), Err(AudioError::UnknownDevice));
    let second = publish(&c);
    assert_eq!(devices(&second), devices(&first));
}

#[test]
fn volume_reads_back_last_level_set() {
    let mut c = two_devices();
    for v in [0, 250_000, LEVEL_SCALE as i64, 730_000] {
        let cmd = IPCHandlers::VolumeChange { id: "B".to_string(), volume: v };
        assert_eq!(run(&mut c, cmd, Ok(())), Ok(()));
        assert_eq!(c.get_volume(&"B".to_string()), Some(v as u32));
    }
    assert_eq!(c.get_volume(&"A".to_string()), Some(500_000));
    assert_eq!(c.get_volume(&"Z".to_string()), None);
}

#[test]
fn invalid_level_is_rejected() {
    let mut c = two_devices();
    for v in [-1, LEVEL_SCALE as i64 + 1, i64::MIN, i64::MAX] {
        let cmd = IPCHandlers::VolumeChange { id: "A".to_string(), volume: v };
        assert!(matches!(c.dispatch(&cmd), Err(AudioError::InvalidLevel)));
    }
    assert_eq!(c.get_volume(&"A".to_string()), Some(500_000));
}

#[test]
fn unknown_device_is_rejected_for_every_device_command() {
    let c = two_devices();
    let cmds = vec![
        IPCHandlers::VolumeChange { id: "C".to_string(), volume: 100_000 },
        IPCHandlers::MuteStateChange { id: "C".to_string(), muted: true },
        IPCHandlers::DefaultAudioChange { id: "C".to_string() },
        IPCHandlers::VolumeChange { id: "C".to_string(), volume: -5 },
    ];
    for cmd in cmds {
        assert!(matches!(c.dispatch(&cmd), Err(AudioError::UnknownDevice)));
    }
    // the next command is still served
    let ok = IPCHandlers::MuteStateChange { id: "A".to_string(), muted: true };
    assert!(matches!(c.dispatch(&ok), Ok(Action::SetMute { token: 1, muted: true, .. })));
}

#[test]
fn dispatch_names_the_endpoint_token() {
    let c = two_devices();
    match c.dispatch(&IPCHandlers::VolumeChange { id: "B".to_string(), volume: 42 }) {
        Ok(Action::SetVolume { id, token, level }) => {
            assert_eq!(id, "B");
            assert_eq!(token, 2);
            assert_eq!(level, 42);
        }
        _ => panic!("expected a volume action"),
    }
    match c.dispatch(&IPCHandlers::DefaultAudioChange { id: "B".to_string() }) {
        Ok(Action::SetDefault { id, token }) => {
            assert_eq!(id, "B");
            assert_eq!(token, 2);
        }
        _ => panic!("expected a default action"),
    }
    match c.dispatch(&IPCHandlers::Channels) {
        Ok(Action::ListChannels { tokens }) => assert_eq!(tokens, vec![1, 2]),
        _ => panic!("expected a channel listing"),
    }
    assert!(matches!(
        c.dispatch(&IPCHandlers::AudioDictUpdate { notification: Notification::DeviceAdded }),
        Ok(Action::Rebuild { notification: Some(Notification::DeviceAdded) })
    ));
    assert!(matches!(c.dispatch(&IPCHandlers::AudioDict), Ok(Action::Rebuild { notification: None })));
}

#[test]
fn failed_native_change_keeps_dictionary() {
    let mut c = two_devices();
    let cmd = IPCHandlers::VolumeChange { id: "A".to_string(), volume: 10 };
    assert_eq!(run(&mut c, cmd, Err(AudioError::ActivationFailed)), Err(AudioError::ActivationFailed));
    assert_eq!(c.get_volume(&"A".to_string()), Some(500_000));
    let cmd = IPCHandlers::MuteStateChange { id: "B".to_string(), muted: false };
    assert_eq!(run(&mut c, cmd, Err(AudioError::ActivationFailed)), Err(AudioError::ActivationFailed));
    assert_eq!(c.get_mute(&"B".to_string()), Some(true));
}

#[test]
fn mute_change_is_recorded() {
    let mut c = two_devices();
    let cmd = IPCHandlers::MuteStateChange { id: "A".to_string(), muted: true };
    assert_eq!(run(&mut c, cmd, Ok(())), Ok(()));
    assert_eq!(c.get_mute(&"A".to_string()), Some(true));
    assert_eq!(c.get_mute(&"B".to_string()), Some(true));
}

#[test]
fn rejected_default_change_is_policy_rejected() {
    let mut c = two_devices();
    let cmd = IPCHandlers::DefaultAudioChange { id: "B".to_string() };
    assert_eq!(run(&mut c, cmd, Err(AudioError::ActivationFailed)), Err(AudioError::PolicyRejected));
    let cmd = IPCHandlers::DefaultAudioChange { id: "B".to_string() };
    assert_eq!(run(&mut c, cmd, Ok(())), Ok(()));
}

#[test]
fn snapshot_carries_default_read_at_processing() {
    let mut c = two_devices();
    let r = c.rebuild(
        Ok(vec![ep("A", "Speakers", 500_000, false, 3), ep("B", "Headset", 200_000, true, 4)]),
        Ok("B".to_string()),
        Some(Notification::DefaultDeviceChanged),
    );
    let p = r.published.unwrap();
    assert_eq!(p.windows_audio_state.default, "B");
    assert_eq!(p.notification, Some(Notification::DefaultDeviceChanged));
    assert_eq!(r.retired, vec![1, 2]);
}

#[test]
fn rebuild_orders_by_identifier_and_replaces_duplicates() {
    let mut c = Coordinator::new();
    let r = c.rebuild(
        Ok(vec![
            ep("{b}", "Two", 1, false, 10),
            ep("{a}", "One", 2, false, 11),
            ep("{b}", "Two again", 3, true, 12),
            ep("{aa}", "Three", 4, false, 13),
        ]),
        Ok("{a}".to_string()),
        None,
    );
    assert_eq!(r.retired, vec![10]);
    let p = r.published.unwrap();
    assert_eq!(
        devices(&p),
        vec![
            ("{aa}".to_string(), "Three".to_string(), 4, false),
            ("{a}".to_string(), "One".to_string(), 2, false),
            ("{b}".to_string(), "Two again".to_string(), 3, true),
        ]
    );
    assert_eq!(c.endpoint_tokens(), vec![13, 11, 12]);
}

#[test]
fn rebuild_with_failed_enumeration_keeps_dictionary() {
    let mut c = two_devices();
    let r = c.rebuild(Err(AudioError::EnumerationFailed), Ok("A".to_string()), None);
    assert!(r.retired.is_empty());
    assert!(matches!(r.published, Err(AudioError::EnumerationFailed)));
    assert_eq!(c.endpoint_tokens(), vec![1, 2]);
}

#[test]
fn rebuild_without_default_replaces_dictionary_and_publishes_nothing() {
    let mut c = two_devices();
    let r = c.rebuild(Ok(vec![ep("C", "Line out", 0, false, 7)]), Err(AudioError::NoDefaultDevice), None);
    assert_eq!(r.retired, vec![1, 2]);
    assert!(matches!(r.published, Err(AudioError::NoDefaultDevice)));
    assert_eq!(c.device_count(), 1);
    assert_eq!(c.get_volume(&"A".to_string()), None);
    assert_eq!(c.get_volume(&"C".to_string()), Some(0));
}

#[test]
fn audio_dictionary_of_nothing_is_empty() {
    let (dict, gone) = get_audio_dictionary(Vec::new());
    assert_eq!(dict.len(), 0);
    assert!(gone.is_empty());
}

#[test]
fn audio_dictionary_keeps_last_of_equal_identifiers() {
    let (dict, gone) = get_audio_dictionary(vec![ep("x", "1", 1, false, 1), ep("x", "2", 2, false, 2), ep("x", "3", 3, false, 3)]);
    assert_eq!(dict.len(), 1);
    assert_eq!(dict.get(0).name, "3");
    assert_eq!(gone, vec![1, 2]);
}

#[test]
fn rebuild_accounts_for_every_token() {
    let mut c = two_devices();
    let r = c.rebuild(
        Ok(vec![ep("B", "Headset", 0, false, 5), ep("C", "Line", 0, false, 6), ep("B", "Headset", 0, false, 7)]),
        Ok("B".to_string()),
        None,
    );
    let mut all: Vec<u64> = r.retired.clone();
    all.extend(c.endpoint_tokens());
    all.sort();
    assert_eq!(r.retired, vec![1, 2, 5]);
    assert_eq!(all, vec![1, 2, 5, 6, 7]);
}
