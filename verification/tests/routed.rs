use grass::role_exchange::{RoleExchange, RoleExchangeError};
use grass::routed::{
    decode_frame, deliver_frames, encode_frame, frames_by_destination, CouplingEpoch, EntityId,
    ReceivedPayload, RoutedExchangeError, RoutedPayload, RoutedRoleExchange,
};

struct FakeRoleExchange {
    local_rank: i32,
    local_size: i32,
    peer_frames: Vec<Vec<u8>>,
}

impl RoleExchange for FakeRoleExchange {
    fn role_position(&self) -> (i32, i32) {
        (self.local_rank, self.local_size)
    }

    fn peer_size(&self) -> i32 {
        self.peer_frames.len() as i32
    }

    fn exchange(&self, _local: &[u8]) -> Result<Vec<Vec<u8>>, RoleExchangeError> {
        Ok(self.peer_frames.clone())
    }
}

#[test]
fn filters_for_local_rank_in_deterministic_source_order() {
    let epoch = CouplingEpoch(17);
    let peer_frames = vec![
        encode_frame(
            epoch,
            &[
                RoutedPayload::new(1, EntityId(10), vec![1]),
                RoutedPayload::new(0, EntityId(11), vec![2]),
            ],
        ),
        encode_frame(
            epoch,
            &[
                RoutedPayload::new(2, EntityId(20), vec![3]),
                RoutedPayload::new(1, EntityId(21), vec![4]),
            ],
        ),
    ];
    let routed = RoutedRoleExchange::new(Box::new(FakeRoleExchange {
        local_rank: 1,
        local_size: 3,
        peer_frames,
    }));
    let received = routed.exchange(epoch, &[]).unwrap();
    assert_eq!(
        received,
        vec![
            ReceivedPayload { source: 0, entity_id: EntityId(10), payload: vec![1] },
            ReceivedPayload { source: 1, entity_id: EntityId(21), payload: vec![4] },
        ]
    );
}

#[test]
fn stale_epoch_fails_closed() {
    let frame = encode_frame(CouplingEpoch(4), &[]);
    let error = decode_frame(&frame, CouplingEpoch(5)).unwrap_err();
    assert_eq!(
        error,
        RoutedExchangeError::EpochMismatch { expected: CouplingEpoch(5), actual: CouplingEpoch(4) }
    );
}

#[test]
fn local_destination_is_checked_against_peer_role_size() {
    let epoch = CouplingEpoch(3);
    let routed = RoutedRoleExchange::new(Box::new(FakeRoleExchange {
        local_rank: 0,
        local_size: 1,
        peer_frames: vec![encode_frame(epoch, &[])],
    }));
    let error = routed.exchange(epoch, &[RoutedPayload::new(1, EntityId(9), vec![])]).unwrap_err();
    assert_eq!(
        error,
        RoutedExchangeError::DestinationOutOfRange { destination: 1, peer_size: 1 }
    );
}

#[test]
fn malformed_frame_fails_closed() {
    let mut frame = encode_frame(CouplingEpoch(1), &[RoutedPayload::new(0, EntityId(7), vec![1, 2, 3])]);
    frame.pop();
    assert_eq!(
        decode_frame(&frame, CouplingEpoch(1)).unwrap_err(),
        RoutedExchangeError::MalformedFrame
    );
}

#[test]
fn sparse_peer_frames_match_root_bridge_delivery_with_source_holes() {
    let epoch = CouplingEpoch(8);
    let root_frames = vec![
        encode_frame(epoch, &[]),
        encode_frame(epoch, &[RoutedPayload::new(0, EntityId(41), vec![4, 1])]),
        encode_frame(epoch, &[]),
        encode_frame(epoch, &[RoutedPayload::new(0, EntityId(43), vec![4, 3])]),
    ];
    let mut sparse_frames = (0..4).map(|_| encode_frame(epoch, &[])).collect::<Vec<_>>();
    sparse_frames[1] = root_frames[1].clone();
    sparse_frames[3] = root_frames[3].clone();
    assert_eq!(
        deliver_frames(sparse_frames, epoch, (0, 1)).unwrap(),
        deliver_frames(root_frames, epoch, (0, 1)).unwrap()
    );
}

#[test]
fn encoded_frames_decode_to_the_records_sent() {
    let epoch = CouplingEpoch(2);
    let records = vec![
        RoutedPayload::new(-1, EntityId(1), vec![]),
        RoutedPayload::new(3, EntityId(u64::MAX), vec![0xab; 300]),
    ];
    let decoded = decode_frame(&encode_frame(epoch, &records), epoch).unwrap();
    assert_eq!(decoded, records);
    assert_eq!(decode_frame(&encode_frame(epoch, &[]), epoch).unwrap(), vec![]);
}

#[test]
fn frames_are_grouped_by_destination_rank() {
    let epoch = CouplingEpoch(6);
    let outgoing = vec![
        RoutedPayload::new(1, EntityId(1), vec![1]),
        RoutedPayload::new(0, EntityId(2), vec![2]),
        RoutedPayload::new(1, EntityId(3), vec![3]),
    ];
    let frames = frames_by_destination(epoch, &outgoing, 2);
    assert_eq!(frames.len(), 2);
    assert_eq!(decode_frame(&frames[0], epoch).unwrap(), vec![outgoing[1].clone()]);
    assert_eq!(
        decode_frame(&frames[1], epoch).unwrap(),
        vec![outgoing[0].clone(), outgoing[2].clone()]
    );
    assert!(frames_by_destination(epoch, &outgoing, 0).is_empty());
}
