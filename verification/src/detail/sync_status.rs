//! Tracks which copy of a resource is leading: the one on the host or the one
//! on the device.

use vstd::prelude::*;

verus! {

/// The state of synchronisation of a resource that lives on the host (CPU and
/// RAM), on the device (GPU and VRAM), or on both.
#[derive(Debug, Clone, Copy, PartialEq, Eq, Structural)]
pub enum SyncStatus {
    /// The copy on the host is leading. A copy on the device, if there is
    /// one, is stale.
    HOST,
    /// The copy on the device is leading. The copy on the host is stale.
    GPU,
    /// Both copies are up to date and identical.
    SYNCED,
}

impl SyncStatus {
    /// Whether the copy on the host may be read as it is.
    pub open spec fn host_is_current(self) -> bool {
        self != SyncStatus::GPU
    }

    /// Whether the copy on the device may be read as it is.
    pub open spec fn device_is_current(self) -> bool {
        self != SyncStatus::HOST
    }

    /// The state after the host has written to the resource: the host leads.
    pub fn after_host_write(self) -> (next: SyncStatus)
        ensures
            next == SyncStatus::HOST,
            next.host_is_current(),
            !next.device_is_current(),
    {
        SyncStatus::HOST
    }

    /// The state after the device has computed on the resource: the device
    /// leads.
    pub fn after_device_write(self) -> (next: SyncStatus)
        ensures
            next == SyncStatus::GPU,
            next.device_is_current(),
            !next.host_is_current(),
    {
        SyncStatus::GPU
    }

    /// The state after the leading copy has been copied over the other one:
    /// both copies are current.
    pub fn after_sync(self) -> (next: SyncStatus)
        ensures
            next == SyncStatus::SYNCED,
            next.host_is_current(),
            next.device_is_current(),
    {
        SyncStatus::SYNCED
    }

    /// Whether the host has to fetch the data from the device before it reads.
    pub fn needs_sync_to_host(self) -> (needed: bool)
        ensures
            needed == !self.host_is_current(),
    {
        match self {
            SyncStatus::GPU => true,
            SyncStatus::HOST => false,
            SyncStatus::SYNCED => false,
        }
    }
}

} // verus!
