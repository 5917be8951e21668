use grass::remote::{PumpSlot, RemoteMirrorPhysics};
use grass::store::{WireKind, WireStore, WireValue};
use grass::transport::{LocalTransport, Transport};
use grass::wire::Wire;

#[test]
fn store_packs_and_decodes_by_declared_type() {
    let mut store = WireStore::new();
    store.declare(1, WireValue::U64(7));
    store.declare(2, WireValue::Text("hi".to_string()));
    store.declare(1, WireValue::Bool(true));
    assert_eq!(store.get(1), Some(&WireValue::U64(7)));
    assert_eq!(store.pack_resource(1), 7u64.pack());
    assert!(store.pack_resource(9).is_empty());
    store.unpack_into_resource(2, &"abc".to_string().pack()).unwrap();
    assert_eq!(store.get(2), Some(&WireValue::Text("abc".to_string())));
    let err = store.unpack_into_resource(1, &[1, 2, 3]).unwrap_err();
    assert_eq!(err.payload_len(), 3);
    assert_eq!(store.get(1), Some(&WireValue::U64(7)));
    assert!(store.unpack_into_resource(9, &[0]).is_err());
    store.ensure_resource(9, WireKind::Bool);
    assert_eq!(store.get(9), Some(&WireValue::Bool(false)));
    store.ensure_resource(1, WireKind::Bool);
    assert_eq!(store.get(1), Some(&WireValue::U64(7)));
}

#[test]
fn mirror_over_a_wire_store_pumps_both_ways() {
    let (peer, mirror_t) = LocalTransport::pair();
    let mut store = WireStore::new();
    store.declare(1, WireValue::I32(-4));
    store.declare(2, WireValue::F64Bits(vec![]));
    let mut mirror = RemoteMirrorPhysics::new("peer", store, Box::new(mirror_t));
    mirror.add_send_each_iter(PumpSlot { key: 1, kind: WireKind::I32, type_label: "i32" });
    mirror.add_recv_each_iter(PumpSlot { key: 2, kind: WireKind::F64Bits, type_label: "alloc::vec::Vec<f64>" });
    peer.try_send(&grass::wire::pack_f64_bits(&[1.5f64.to_bits()])).unwrap();
    mirror.try_step().unwrap();
    assert_eq!(i32::try_unpack(&peer.try_recv().unwrap()).unwrap(), -4);
    assert!(mirror.resource_coherence(2).unwrap().fresh);
    assert_eq!(mirror.store().get(2), Some(&WireValue::F64Bits(vec![1.5f64.to_bits()])));
}
