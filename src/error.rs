//! The error kinds of the engine.
use vstd::prelude::*;

verus! {

/// What went wrong in the engine or one of its native collaborators.
#[derive(Clone, Copy, Debug, PartialEq, Eq, Structural)]
pub enum AudioError {
    /// The OS audio service could not be reached.
    SubsystemUnavailable,
    /// Enumerating the active output devices failed.
    EnumerationFailed,
    /// The volume-control interface of a device could not be acquired.
    ActivationFailed,
    /// A volume level outside `0 ..= LEVEL_SCALE`.
    InvalidLevel,
    /// The OS declined to change the default device.
    PolicyRejected,
    /// No device in the dictionary has the given identifier.
    UnknownDevice,
    /// A channel between two tasks has been closed.
    ChannelClosed,
    /// No default output device is set.
    NoDefaultDevice,
}

impl AudioError {
    /// The description of each error kind.
    pub open spec fn spec_describe(self) -> Seq<char> {
        match self {
            AudioError::SubsystemUnavailable => "audio subsystem unavailable"@,
            AudioError::EnumerationFailed => "device enumeration failed"@,
            AudioError::ActivationFailed => "volume control activation failed"@,
            AudioError::InvalidLevel => "volume level out of range"@,
            AudioError::PolicyRejected => "default device change rejected"@,
            AudioError::UnknownDevice => "unknown device"@,
            AudioError::ChannelClosed => "channel closed"@,
            AudioError::NoDefaultDevice => "no default device"@,
        }
    }

    /// A short description of the error.
    pub fn describe(&self) -> (r: String)
        ensures
            r@ == self.spec_describe(),
    {
        let s: &str = match self {
            AudioError::SubsystemUnavailable => "audio subsystem unavailable",
            AudioError::EnumerationFailed => "device enumeration failed",
            AudioError::ActivationFailed => "volume control activation failed",
            AudioError::InvalidLevel => "volume level out of range",
            AudioError::PolicyRejected => "default device change rejected",
            AudioError::UnknownDevice => "unknown device",
            AudioError::ChannelClosed => "channel closed",
            AudioError::NoDefaultDevice => "no default device",
        };
        s.to_owned()
    }
}

} // verus!
