use grass::role_exchange::{
    decode_shards, encode_shards, RoleExchange, RoleExchangeError, SinglePeerTransport,
};
use grass::transport::{Transport, TransportOperation};

#[test]
fn variable_shards_round_trip_in_rank_order() {
    let shards = vec![vec![], vec![1], vec![2, 3, 4], vec![5; 1024]];
    assert_eq!(decode_shards(&encode_shards(&shards), 4).unwrap(), shards);
}

#[test]
fn shard_count_mismatch_fails_closed() {
    let error = decode_shards(&encode_shards(&[vec![1]]), 2).unwrap_err();
    assert_eq!(error, RoleExchangeError::ShardCount { expected: 2, actual: 1 });
}

#[test]
fn truncated_shard_frame_is_malformed() {
    let mut frame = encode_shards(&[vec![1, 2, 3]]);
    frame.pop();
    assert_eq!(decode_shards(&frame, 1).unwrap_err(), RoleExchangeError::MalformedFrame);
    assert_eq!(decode_shards(&[1, 2], 1).unwrap_err(), RoleExchangeError::MalformedFrame);
    let mut padded = encode_shards(&[vec![9]]);
    padded.push(0);
    assert_eq!(decode_shards(&padded, 1).unwrap_err(), RoleExchangeError::MalformedFrame);
}

#[test]
fn role_exchange_errors_explain_themselves() {
    assert_eq!(RoleExchangeError::MalformedFrame.message(), "malformed role-shard frame");
    assert_eq!(
        RoleExchangeError::ShardCount { expected: 2, actual: 1 }.message(),
        "expected 2 peer shards, received 1"
    );
}

struct EchoExchange {
    peers: usize,
}

impl RoleExchange for EchoExchange {
    fn role_position(&self) -> (i32, i32) {
        (0, 1)
    }
    fn peer_size(&self) -> i32 {
        self.peers as i32
    }
    fn exchange(&self, local: &[u8]) -> Result<Vec<Vec<u8>>, RoleExchangeError> {
        Ok(vec![local.to_vec(); self.peers])
    }
}

#[test]
fn single_peer_transport_hands_back_the_one_peer_shard() {
    let t = SinglePeerTransport::new(Box::new(EchoExchange { peers: 1 }));
    assert_eq!(t.transport_name(), "SinglePeerTransport");
    t.try_send(&[7, 8]).unwrap();
    assert_eq!(t.try_recv().unwrap(), vec![7, 8]);
}

#[test]
fn single_peer_transport_rejects_several_peer_shards() {
    let t = SinglePeerTransport::new(Box::new(EchoExchange { peers: 2 }));
    t.try_send(&[1]).unwrap();
    let err = t.try_recv().unwrap_err();
    assert_eq!(err.transport(), "SinglePeerTransport");
    assert_eq!(err.operation(), TransportOperation::Recv);
    assert!(err.detail().contains("requires one peer shard, received 2"));
}
