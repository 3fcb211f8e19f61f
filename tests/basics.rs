use audio_sync::bridge::TokenIssuer;
use audio_sync::error::AudioError;
use audio_sync::level::{level_is_valid, LEVEL_SCALE};
use audio_sync::notification::Notification;
use audio_sync::ordering::{bytes_precede, id_precedes};

#[test]
fn byte_order_is_lexicographic() {
    assert!(bytes_precede(b"", b"a"));
    assert!(!bytes_precede(b"", b""));
    assert!(bytes_precede(b"ab", b"abc"));
    assert!(!bytes_precede(b"abc", b"ab"));
    assert!(bytes_precede(b"abc", b"abd"));
    assert!(!bytes_precede(b"b", b"abc"));
    assert!(!bytes_precede(b"same", b"same"));
}

#[test]
fn identifiers_order_as_strings_do() {
    let ids = ["{0.0.0}.{x}", "{0.0.0}.{y}", "Z", "a", "é", "日本"];
    for a in ids.iter() {
        for b in ids.iter() {
            assert_eq!(id_precedes(&a.to_string(), &b.to_string()), a.to_string() < b.to_string());
        }
    }
}

#[test]
fn levels_within_scale_are_valid() {
    assert!(level_is_valid(0));
    assert!(level_is_valid(LEVEL_SCALE as i64));
    assert!(level_is_valid(500_000));
    assert!(!level_is_valid(-1));
    assert!(!level_is_valid(LEVEL_SCALE as i64 + 1));
}

#[test]
fn tokens_are_issued_in_increasing_order() {
    let mut issuer = TokenIssuer::new();
    assert_eq!(issuer.issue(), Some(0));
    assert_eq!(issuer.issue(), Some(1));
    assert_eq!(issuer.issue(), Some(2));
}

#[test]
fn structural_notifications_are_told_apart() {
    assert!(Notification::DeviceAdded.is_structural());
    assert!(Notification::DefaultDeviceChanged.is_structural());
    assert!(!Notification::VolumeChanged.is_structural());
    assert!(!Notification::MuteChanged.is_structural());
}

#[test]
fn errors_describe_themselves() {
    assert_eq!(AudioError::UnknownDevice.describe(), "unknown device");
    assert_eq!(AudioError::InvalidLevel.describe(), "volume level out of range");
}
