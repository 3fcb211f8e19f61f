//! What the OS reported as changed.
use vstd::prelude::*;

verus! {

/// The reason a device notification was raised.
#[derive(Clone, Copy, Debug, PartialEq, Eq, Structural)]
pub enum Notification {
    /// The default output device changed.
    DefaultDeviceChanged,
    /// A device was added.
    DeviceAdded,
    /// A device was removed.
    DeviceRemoved,
    /// A device changed state (became active, inactive, unplugged).
    DeviceStateChanged,
    /// A property of a device changed.
    PropertyChanged,
    /// The volume of a device changed.
    VolumeChanged,
    /// The mute state of a device changed.
    MuteChanged,
    /// The audio sessions of a device changed.
    SessionChanged,
}

impl Notification {
    /// Whether the notification reports a change of the set of devices or
    /// of the default device, as opposed to a per-device volume or mute change.
    pub open spec fn spec_is_structural(&self) -> bool {
        match self {
            Notification::VolumeChanged | Notification::MuteChanged => false,
            _ => true,
        }
    }

    /// Whether the notification reports a structural change.
    #[verifier::when_used_as_spec(spec_is_structural)]
    pub fn is_structural(&self) -> (r: bool)
        ensures
            r == self.spec_is_structural(),
    {
        match self {
            Notification::VolumeChanged | Notification::MuteChanged => false,
            _ => true,
        }
    }
}

} // verus!
