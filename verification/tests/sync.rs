use grass::setup::ScheduleSetupSet;
use grass::sync::{ComputeSyncSet, TransferCounts, TransferSnapshot};

#[test]
fn sync_set_indices_follow_declaration_order() {
    assert_eq!(ComputeSyncSet::HostToDevice.to_index(), 0);
    assert_eq!(ComputeSyncSet::DeviceCompute.to_index(), 1);
    assert_eq!(ComputeSyncSet::DeviceToHost.to_index(), 2);
    assert_eq!(ComputeSyncSet::HostCoherent.to_index(), 3);
}

#[test]
fn sync_set_names_are_stable() {
    assert_eq!(ComputeSyncSet::HostToDevice.name(), "HostToDevice");
    assert_eq!(ComputeSyncSet::HostCoherent.name(), "HostCoherent");
}

#[test]
fn counts_accumulate_and_reset() {
    let mut counts = TransferCounts::new();
    counts.record_host_to_device(16);
    counts.record_host_to_device(8);
    counts.record_device_to_host(4);
    counts.record_barrier();

    assert_eq!(
        counts.snapshot(),
        TransferSnapshot {
            host_to_device: 2,
            host_to_device_bytes: 24,
            device_to_host: 1,
            device_to_host_bytes: 4,
            barriers: 1,
        }
    );

    counts.reset();
    assert_eq!(counts.snapshot(), TransferSnapshot::default());
}

#[test]
fn counters_wrap_on_overflow() {
    let mut counts = TransferCounts::new();
    counts.record_host_to_device(u64::MAX);
    counts.record_host_to_device(2);
    let s = counts.snapshot();
    assert_eq!(s.host_to_device, 2);
    assert_eq!(s.host_to_device_bytes, 1);
}

#[test]
fn sync_set_names_cover_every_variant() {
    assert_eq!(ComputeSyncSet::DeviceCompute.name(), "DeviceCompute");
    assert_eq!(ComputeSyncSet::DeviceToHost.name(), "DeviceToHost");
}

#[test]
fn setup_phases_run_in_declaration_order() {
    assert_eq!(ScheduleSetupSet::PreSetup.to_index(), 0);
    assert_eq!(ScheduleSetupSet::Setup.to_index(), 1);
    assert_eq!(ScheduleSetupSet::PostSetup.to_index(), 2);
    assert_eq!(ScheduleSetupSet::PreSetup.name(), "PreSetup");
    assert_eq!(ScheduleSetupSet::Setup.name(), "Setup");
    assert_eq!(ScheduleSetupSet::PostSetup.name(), "PostSetup");
}
