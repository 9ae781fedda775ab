//! The status of one relay connection and the steps it may take.

use vstd::prelude::*;

verus! {

/// Where a relay connection stands.
#[derive(Debug, Clone, Copy, PartialEq, Eq, Structural)]
pub enum RelayStatus {
    Disconnected,
    Connected,
    Connecting,
}

impl RelayStatus {
    /// The steps of the status machine: a connection attempt starts from
    /// `Disconnected`, a handshake ends `Connecting` either way, and a
    /// connected relay can only be lost.
    pub open spec fn steps_to(self, next: RelayStatus) -> bool {
        match (self, next) {
            (RelayStatus::Disconnected, RelayStatus::Connecting) => true,
            (RelayStatus::Connecting, RelayStatus::Connected) => true,
            (RelayStatus::Connecting, RelayStatus::Disconnected) => true,
            (RelayStatus::Connected, RelayStatus::Disconnected) => true,
            _ => false,
        }
    }

    /// A status may stay as it is or take one step.
    pub open spec fn may_become(self, next: RelayStatus) -> bool {
        self == next || self.steps_to(next)
    }

    /// Whether the machine allows `next` after `self`.
    pub fn can_become(self, next: RelayStatus) -> (allowed: bool)
        ensures
            allowed == self.may_become(next),
    {
        match (self, next) {
            (RelayStatus::Disconnected, RelayStatus::Disconnected) => true,
            (RelayStatus::Disconnected, RelayStatus::Connecting) => true,
            (RelayStatus::Connecting, RelayStatus::Connecting) => true,
            (RelayStatus::Connecting, RelayStatus::Connected) => true,
            (RelayStatus::Connecting, RelayStatus::Disconnected) => true,
            (RelayStatus::Connected, RelayStatus::Connected) => true,
            (RelayStatus::Connected, RelayStatus::Disconnected) => true,
            _ => false,
        }
    }
}

} // verus!
