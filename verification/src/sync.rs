//! Where in a timestep host and device state must agree, and how often that
//! agreement had to be bought with a transfer.
//!
//! The four sync sets are a contract about *state*: after `HostToDevice` the
//! device copy reflects every host write of the step; after `DeviceCompute`
//! the device copy is authoritative and the host copy stale; after
//! `DeviceToHost` the device results were pulled back; after `HostCoherent`
//! host and device agree and the device queue is drained. Variant order is
//! the schedule order.

use vstd::prelude::*;

verus! {

/// Named sync points for one timestep of a device-accelerated schedule.
#[derive(Clone, Copy, Debug, PartialEq, Eq, Hash, Structural)]
pub enum ComputeSyncSet {
    /// Host→device uploads.
    HostToDevice,
    /// Device-resident work: kernel launches.
    DeviceCompute,
    /// Device→host downloads.
    DeviceToHost,
    /// Coherence barrier: the device queue is drained and both copies agree.
    HostCoherent,
}

/// The schedule position of a sync set: its declaration order.
pub open spec fn sync_set_index(s: ComputeSyncSet) -> u32 {
    match s {
        ComputeSyncSet::HostToDevice => 0,
        ComputeSyncSet::DeviceCompute => 1,
        ComputeSyncSet::DeviceToHost => 2,
        ComputeSyncSet::HostCoherent => 3,
    }
}

/// The name of a sync set: its variant name.
pub open spec fn sync_set_name(s: ComputeSyncSet) -> Seq<char> {
    match s {
        ComputeSyncSet::HostToDevice => "HostToDevice"@,
        ComputeSyncSet::DeviceCompute => "DeviceCompute"@,
        ComputeSyncSet::DeviceToHost => "DeviceToHost"@,
        ComputeSyncSet::HostCoherent => "HostCoherent"@,
    }
}

impl ComputeSyncSet {
    /// Position of this set in the schedule (declaration order).
    pub fn to_index(&self) -> (i: u32)
        ensures
            i == sync_set_index(*self),
    {
        match self {
            ComputeSyncSet::HostToDevice => 0,
            ComputeSyncSet::DeviceCompute => 1,
            ComputeSyncSet::DeviceToHost => 2,
            ComputeSyncSet::HostCoherent => 3,
        }
    }

    /// Stable name of this set.
    pub fn name(&self) -> (s: &'static str)
        ensures
            s@ == sync_set_name(*self),
    {
        match self {
            ComputeSyncSet::HostToDevice => "HostToDevice",
            ComputeSyncSet::DeviceCompute => "DeviceCompute",
            ComputeSyncSet::DeviceToHost => "DeviceToHost",
            ComputeSyncSet::HostCoherent => "HostCoherent",
        }
    }
}

/// Distinct sync sets have distinct schedule positions, in declaration order.
pub proof fn law_sync_sets_are_ordered(a: ComputeSyncSet, b: ComputeSyncSet)
    ensures
        sync_set_index(a) == sync_set_index(b) <==> a == b,
        sync_set_index(a) < 4,
{
}

/// A plain, comparable copy of the transfer tallies taken at one instant.
#[derive(Clone, Copy, Debug, PartialEq, Eq, Structural)]
pub struct TransferSnapshot {
    /// Number of completed host→device transfers.
    pub host_to_device: u64,
    /// Bytes moved host→device.
    pub host_to_device_bytes: u64,
    /// Number of completed device→host transfers.
    pub device_to_host: u64,
    /// Bytes moved device→host.
    pub device_to_host_bytes: u64,
    /// Number of blocking device barriers (queue drains).
    pub barriers: u64,
}

/// The all-zero snapshot.
pub open spec fn zero_snapshot() -> TransferSnapshot {
    TransferSnapshot {
        host_to_device: 0,
        host_to_device_bytes: 0,
        device_to_host: 0,
        device_to_host_bytes: 0,
        barriers: 0,
    }
}

impl Default for TransferSnapshot {
    fn default() -> (s: Self)
        ensures
            s == zero_snapshot(),
    {
        TransferSnapshot {
            host_to_device: 0,
            host_to_device_bytes: 0,
            device_to_host: 0,
            device_to_host_bytes: 0,
            barriers: 0,
        }
    }
}

/// `a + b` modulo 2^64, as a counter that wraps on overflow.
pub open spec fn wrapped(a: u64, b: u64) -> u64 {
    if a + b > u64::MAX {
        (a + b - u64::MAX - 1) as u64
    } else {
        (a + b) as u64
    }
}

/// Running tally of host↔device traffic and device barriers: counts of events
/// and bytes, not time. Each counter wraps on overflow.
#[derive(Debug)]
pub struct TransferCounts {
    host_to_device: u64,
    host_to_device_bytes: u64,
    device_to_host: u64,
    device_to_host_bytes: u64,
    barriers: u64,
}

impl View for TransferCounts {
    type V = TransferSnapshot;

    closed spec fn view(&self) -> TransferSnapshot {
        TransferSnapshot {
            host_to_device: self.host_to_device,
            host_to_device_bytes: self.host_to_device_bytes,
            device_to_host: self.device_to_host,
            device_to_host_bytes: self.device_to_host_bytes,
            barriers: self.barriers,
        }
    }
}

impl Default for TransferCounts {
    fn default() -> (c: Self)
        ensures
            c@ == zero_snapshot(),
    {
        TransferCounts::new()
    }
}

impl TransferCounts {
    /// A fresh, all-zero tally.
    pub fn new() -> (c: Self)
        ensures
            c@ == zero_snapshot(),
    {
        TransferCounts {
            host_to_device: 0,
            host_to_device_bytes: 0,
            device_to_host: 0,
            device_to_host_bytes: 0,
            barriers: 0,
        }
    }

    /// Records one host→device transfer of `bytes` bytes.
    pub fn record_host_to_device(&mut self, bytes: u64)
        ensures
            final(self)@ == (TransferSnapshot {
                host_to_device: wrapped(old(self)@.host_to_device, 1),
                host_to_device_bytes: wrapped(old(self)@.host_to_device_bytes, bytes),
                ..old(self)@
            }),
    {
        self.host_to_device = self.host_to_device.wrapping_add(1);
        self.host_to_device_bytes = self.host_to_device_bytes.wrapping_add(bytes);
    }

    /// Records one device→host transfer of `bytes` bytes.
    pub fn record_device_to_host(&mut self, bytes: u64)
        ensures
            final(self)@ == (TransferSnapshot {
                device_to_host: wrapped(old(self)@.device_to_host, 1),
                device_to_host_bytes: wrapped(old(self)@.device_to_host_bytes, bytes),
                ..old(self)@
            }),
    {
        self.device_to_host = self.device_to_host.wrapping_add(1);
        self.device_to_host_bytes = self.device_to_host_bytes.wrapping_add(bytes);
    }

    /// Records one blocking device barrier.
    pub fn record_barrier(&mut self)
        ensures
            final(self)@ == (TransferSnapshot { barriers: wrapped(old(self)@.barriers, 1), ..old(self)@ }),
    {
        self.barriers = self.barriers.wrapping_add(1);
    }

    /// A comparable copy of the current tallies.
    pub fn snapshot(&self) -> (s: TransferSnapshot)
        ensures
            s == self@,
    {
        TransferSnapshot {
            host_to_device: self.host_to_device,
            host_to_device_bytes: self.host_to_device_bytes,
            device_to_host: self.device_to_host,
            device_to_host_bytes: self.device_to_host_bytes,
            barriers: self.barriers,
        }
    }

    /// Resets every tally to zero (e.g. at the start of a measured window).
    pub fn reset(&mut self)
        ensures
            final(self)@ == zero_snapshot(),
    {
        self.host_to_device = 0;
        self.host_to_device_bytes = 0;
        self.device_to_host = 0;
        self.device_to_host_bytes = 0;
        self.barriers = 0;
    }
}

} // verus!
