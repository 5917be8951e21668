use grass::store::{WireKind, WireStore, WireValue};
use grass::remote::{
    PumpSlot, RemoteMirrorPhysics, RemotePumpDirection, RemotePumpError,
    RemotePumpPhase, RemoteTransportError, RemoteUnpackError,
};
use grass::transport::{LocalTransport, Transport, TransportError, TransportOperation};
use grass::wire::{Wire, WireUnpackError};

const COUNTER: u64 = 1;
const TEXT: u64 = 2;

fn counter_slot() -> PumpSlot {
    PumpSlot { key: COUNTER, kind: WireKind::U64, type_label: "Counter" }
}

fn text_slot() -> PumpSlot {
    PumpSlot { key: TEXT, kind: WireKind::Text, type_label: "alloc::string::String" }
}

#[test]
fn receive_resource_is_stale_until_explicit_pump_completes() {
    let (peer, mirror_transport) = LocalTransport::pair();
        let mut mirror = RemoteMirrorPhysics::new("peer", WireStore::new(), Box::new(mirror_transport));
    mirror.add_recv_each_iter(counter_slot());

    let state = mirror.resource_coherence(COUNTER).unwrap();
    assert!(state.receives);
    assert!(!state.fresh);

    peer.try_send(&42u64.pack()).unwrap();
    mirror.try_step().unwrap();
    assert!(mirror.resource_coherence(COUNTER).unwrap().fresh);
    assert!(mirror.validate_resource_read(COUNTER, "Counter").is_ok());
    assert_eq!(mirror.store().get(COUNTER), Some(&WireValue::U64(42)));
}

#[test]
fn local_write_marks_send_slot_dirty_and_successful_send_clears_it() {
    let (peer, mirror_transport) = LocalTransport::pair();
    let mut mirror =
        RemoteMirrorPhysics::new("peer", WireStore::new(), Box::new(mirror_transport));
    mirror.add_send_each_iter(counter_slot());

    mirror.mark_resource_written(COUNTER);
    assert!(mirror.resource_coherence(COUNTER).unwrap().dirty);
    mirror.try_step().unwrap();
    assert!(!mirror.resource_coherence(COUNTER).unwrap().dirty);
    assert_eq!(u64::try_unpack(&peer.try_recv().unwrap()).unwrap(), 0);
}

#[test]
fn remote_mirror_reports_truncated_string_payload_with_context() {
    let (peer_t, mirror_t) = LocalTransport::pair();
    let mut payload = 5u32.to_le_bytes().to_vec();
    payload.extend_from_slice(b"abc");
    peer_t.try_send(&payload).unwrap();

    let mut mirror = RemoteMirrorPhysics::new("peer", WireStore::new(), Box::new(mirror_t));
    mirror.add_recv_each_iter(text_slot());

    let pump_err = mirror.try_step().unwrap_err();
    let err = pump_err.unpack().unwrap();

    assert_eq!(err.mirror_name(), "peer");
    assert_eq!(err.phase(), RemotePumpPhase::EachIter);
    assert_eq!(err.recv_index(), 0);
    assert_eq!(err.resource_type(), "alloc::string::String");
    assert_eq!(err.payload_len(), 7);
    assert!(err.source().detail().contains("declares 5 UTF-8 bytes"));
    assert!(pump_err
        .message()
        .contains("RemoteMirrorPhysics `peer` failed to unpack each-iter recv slot #0"));
}

#[test]
fn remote_mirror_reports_non_utf8_string_payload_with_context() {
    let (peer_t, mirror_t) = LocalTransport::pair();
    let mut payload = 2u32.to_le_bytes().to_vec();
    payload.extend_from_slice(&[0xff, 0xff]);
    peer_t.try_send(&payload).unwrap();

    let mut mirror = RemoteMirrorPhysics::new("peer", WireStore::new(), Box::new(mirror_t));
    mirror.add_recv_each_iter(text_slot());

    let err = mirror.try_step().unwrap_err();
    let err = err.unpack().unwrap();

    assert_eq!(err.mirror_name(), "peer");
    assert_eq!(err.phase(), RemotePumpPhase::EachIter);
    assert_eq!(err.recv_index(), 0);
    assert_eq!(err.resource_type(), "alloc::string::String");
    assert_eq!(err.payload_len(), 6);
    assert!(err.source().detail().contains("not UTF-8"));
}

#[test]
fn a_failed_step_leaves_received_resources_stale() {
    let (peer, mirror_t) = LocalTransport::pair();
    let mut mirror = RemoteMirrorPhysics::new("peer", WireStore::new(), Box::new(mirror_t));
    mirror.add_recv_each_iter(counter_slot());
    peer.try_send(&7u64.pack()).unwrap();
    mirror.try_step().unwrap();
    assert!(mirror.validate_resource_read(COUNTER, "Counter").is_ok());

    drop(peer);
    let err = mirror.try_step().unwrap_err();
    let t = err.transport().unwrap();
    assert_eq!(t.direction(), RemotePumpDirection::Recv);
    assert_eq!(t.slot_index(), 0);
    assert_eq!(t.payload_len(), None);
    assert!(!mirror.resource_coherence(COUNTER).unwrap().fresh);
    assert_eq!(
        mirror.validate_resource_read(COUNTER, "Counter").unwrap_err(),
        "RemoteMirrorPhysics `peer`: stale read of `Counter`; its receive pump has not completed successfully"
    );
}

#[test]
fn setup_pump_sends_then_receives_and_marks_fresh() {
    let (peer, mirror_t) = LocalTransport::pair();
        let mut mirror = RemoteMirrorPhysics::new("dem", WireStore::new(), Box::new(mirror_t));
    mirror.add_send_at_setup(counter_slot());
    mirror.add_recv_at_setup(text_slot());
    assert_eq!(mirror.name(), "dem");
    peer.try_send(&"dt".to_string().pack()).unwrap();
    mirror.try_prepare().unwrap();
    assert_eq!(u64::try_unpack(&peer.try_recv().unwrap()).unwrap(), 0);
    assert_eq!(mirror.store().get(TEXT), Some(&WireValue::Text("dt".to_string())));
    let text = mirror.resource_coherence(TEXT).unwrap();
    assert!(text.receives && text.fresh && !text.dirty);
    assert!(!mirror.resource_coherence(COUNTER).unwrap().receives);
}

#[test]
fn a_failed_send_names_the_slot_and_the_payload_size() {
    let (peer, mirror_t) = LocalTransport::pair();
    let mut mirror = RemoteMirrorPhysics::new("cfd", WireStore::new(), Box::new(mirror_t));
    mirror.add_send_at_setup(counter_slot());
    drop(peer);
    match mirror.try_prepare().unwrap_err() {
        RemotePumpError::Transport(t) => {
            assert_eq!(t.mirror_name(), "cfd");
            assert_eq!(t.phase(), RemotePumpPhase::Setup);
            assert_eq!(t.direction(), RemotePumpDirection::Send);
            assert_eq!(t.slot_index(), 0);
            assert_eq!(t.payload_len(), Some(8));
            assert_eq!(t.source().operation(), TransportOperation::Send);
            assert_eq!(
                t.message(),
                "RemoteMirrorPhysics `cfd` failed to send setup send slot #0 (8 bytes): LocalTransport send failed: peer dropped before it could receive the payload"
            );
        }
        other => panic!("expected a transport failure, got {other:?}"),
    }
}

#[test]
fn untracked_resources_have_no_coherence_and_are_always_readable() {
    let (_peer, mirror_t) = LocalTransport::pair();
    let mut mirror = RemoteMirrorPhysics::new("m", WireStore::new(), Box::new(mirror_t));
    mirror.add_local_resource(COUNTER, WireKind::U64);
    assert_eq!(mirror.store().get(COUNTER), Some(&WireValue::U64(0)));
    assert_eq!(mirror.resource_coherence(COUNTER), None);
    assert!(mirror.validate_resource_read(COUNTER, "Counter").is_ok());
    mirror.mark_resource_written(COUNTER);
    assert_eq!(mirror.resource_coherence(COUNTER), None);
    assert!(!mirror.is_done());
    mirror.cleanup();
}

#[test]
fn pump_error_texts() {
    let e = RemoteUnpackError::new(
        "peer",
        RemotePumpPhase::Setup,
        2,
        "u64",
        3,
        WireUnpackError::new("u64", 3, "expected exactly 8 bytes"),
    );
    assert_eq!(
        e.message(),
        "RemoteMirrorPhysics `peer` failed to unpack setup recv slot #2 as `u64` from 3 bytes: expected exactly 8 bytes"
    );
    let t = RemoteTransportError::recv(
        "peer",
        RemotePumpPhase::EachIter,
        1,
        TransportError::new("Mpi", TransportOperation::Recv, "gone"),
    );
    assert_eq!(
        t.message(),
        "RemoteMirrorPhysics `peer` failed to recv each-iter recv slot #1: Mpi recv failed: gone"
    );
    assert_eq!(RemotePumpPhase::EachIter.label(), "each-iter");
    assert_eq!(RemotePumpDirection::Send.label(), "send");
    let p = RemotePumpError::Unpack(e.clone());
    assert!(p.transport().is_none());
    assert_eq!(p.unpack(), Some(&e));
    assert_eq!(p.message(), e.message());
}

#[test]
fn the_first_payload_that_does_not_decode_names_its_slot() {
    let (peer, tr) = LocalTransport::pair();
    let mut mirror = RemoteMirrorPhysics::new("peer", WireStore::new(), Box::new(tr));
    mirror.add_recv_each_iter(counter_slot());
    mirror.add_recv_each_iter(text_slot());
    peer.try_send(&7u64.pack()).unwrap();
    peer.try_send(&[5, 0, 0, 0, b'a', b'b', b'c']).unwrap();
    let err = mirror.try_step().unwrap_err();
    let e = err.unpack().unwrap();
    assert_eq!(e.recv_index(), 1);
    assert_eq!(e.phase(), RemotePumpPhase::EachIter);
    assert_eq!(e.resource_type(), "alloc::string::String");
    assert_eq!(e.payload_len(), 7);
    assert_eq!(e.source().payload_len(), 7);
    assert!(e.source().detail().contains("declares 5 UTF-8 bytes"));
    assert_eq!(mirror.store().get(COUNTER), Some(&WireValue::U64(7)));
    assert_eq!(mirror.store().get(TEXT), Some(&WireValue::Text(String::new())));
    assert!(!mirror.resource_coherence(COUNTER).unwrap().fresh);
}
