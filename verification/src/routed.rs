//! Geometry-agnostic routed exchange between solver roles.
//!
//! A coupling package decides each record's destination role-rank. The
//! library only frames, transports, validates, and deterministically delivers
//! those opaque records.
//!
//! A routed frame is `"GRRT" | version 1 | u64 epoch | u64 count | count ×
//! (i32 destination | u64 entity | u64 len | len bytes)`, all little-endian.

use crate::codec::{
    append_bytes, append_u32_le, append_u64_le, lemma_u32_at_encoding, lemma_u64_at_encoding,
    u32_at, u32_le_at, u64_at, u64_le_at,
};
use crate::role_exchange::{RoleExchange, RoleExchangeError, RoleExchangeFault};
use vstd::bytes::{spec_u32_to_le_bytes, spec_u64_to_le_bytes};
use vstd::prelude::*;

verus! {

/// Frame format version.
pub const ROUTED_FRAME_VERSION: u8 = 1;

/// Monotonic identifier for one coupling exchange.
#[derive(Debug, Clone, Copy, PartialEq, Eq, Structural, PartialOrd, Ord, Hash)]
pub struct CouplingEpoch(pub u64);

/// Stable identifier supplied by the coupling package for one exchanged item.
#[derive(Debug, Clone, Copy, PartialEq, Eq, Structural, PartialOrd, Ord, Hash)]
pub struct EntityId(pub u64);

/// One opaque record addressed to a rank in the peer solver role.
#[derive(Debug, Clone, PartialEq, Eq)]
pub struct RoutedPayload {
    /// Rank within the peer role communicator, not a raw-world rank.
    pub destination: i32,
    /// Stable scientific entity or contribution identifier.
    pub entity_id: EntityId,
    /// Coupling-package-owned bytes.
    pub payload: Vec<u8>,
}

/// Mathematical model of a routed record.
pub struct RecordView {
    pub destination: i32,
    pub entity_id: u64,
    pub payload: Seq<u8>,
}

impl View for RoutedPayload {
    type V = RecordView;

    open spec fn view(&self) -> RecordView {
        RecordView {
            destination: self.destination,
            entity_id: self.entity_id.0,
            payload: self.payload@,
        }
    }
}

impl RoutedPayload {
    /// Construct one routed opaque record.
    pub fn new(destination: i32, entity_id: EntityId, payload: Vec<u8>) -> (r: Self)
        ensures
            r.destination == destination,
            r.entity_id == entity_id,
            r.payload == payload,
    {
        RoutedPayload { destination, entity_id, payload }
    }
}

/// One record delivered to this role-rank.
#[derive(Debug, Clone, PartialEq, Eq)]
pub struct ReceivedPayload {
    /// Rank within the peer role that produced this record.
    pub source: i32,
    /// Stable identifier supplied by the peer coupling code.
    pub entity_id: EntityId,
    /// Coupling-package-owned bytes.
    pub payload: Vec<u8>,
}

/// Mathematical model of a delivered record.
pub struct ReceivedView {
    pub source: i32,
    pub entity_id: u64,
    pub payload: Seq<u8>,
}

impl View for ReceivedPayload {
    type V = ReceivedView;

    open spec fn view(&self) -> ReceivedView {
        ReceivedView { source: self.source, entity_id: self.entity_id.0, payload: self.payload@ }
    }
}

/// The models of a list of records.
pub open spec fn records_view(records: Seq<RoutedPayload>) -> Seq<RecordView> {
    records.map_values(|r: RoutedPayload| r@)
}

/// The models of a list of delivered records.
pub open spec fn received_view(records: Seq<ReceivedPayload>) -> Seq<ReceivedView> {
    records.map_values(|r: ReceivedPayload| r@)
}

// ─── Errors ─────────────────────────────────────────────────────────────────

/// Invalid routed exchange or underlying role transport.
#[derive(Debug, Clone, PartialEq, Eq)]
pub enum RoutedExchangeError {
    /// The opaque routed frame was truncated or had an unknown header.
    MalformedFrame,
    /// A peer participated in a different coupling exchange.
    EpochMismatch {
        /// Epoch requested by this rank.
        expected: CouplingEpoch,
        /// Epoch encoded by the peer.
        actual: CouplingEpoch,
    },
    /// A coupling package addressed a rank outside the destination role.
    DestinationOutOfRange {
        /// Supplied role-local destination rank.
        destination: i32,
        /// Number of ranks in the destination role.
        peer_size: i32,
    },
    /// The correctness-first role exchange failed.
    Role(RoleExchangeError),
}

/// Mathematical model of a [`RoutedExchangeError`].
pub enum RoutedFault {
    MalformedFrame,
    EpochMismatch { expected: u64, actual: u64 },
    DestinationOutOfRange { destination: i32, peer_size: i32 },
    Role(RoleExchangeFault),
}

impl View for RoutedExchangeError {
    type V = RoutedFault;

    open spec fn view(&self) -> RoutedFault {
        match self {
            RoutedExchangeError::MalformedFrame => RoutedFault::MalformedFrame,
            RoutedExchangeError::EpochMismatch { expected, actual } => RoutedFault::EpochMismatch {
                expected: expected.0,
                actual: actual.0,
            },
            RoutedExchangeError::DestinationOutOfRange { destination, peer_size } => {
                RoutedFault::DestinationOutOfRange {
                    destination: *destination,
                    peer_size: *peer_size,
                }
            },
            RoutedExchangeError::Role(e) => RoutedFault::Role(e@),
        }
    }
}

// ─── Frame format ───────────────────────────────────────────────────────────

/// The magic bytes `"GRRT"` that open every routed frame.
pub open spec fn frame_magic() -> Seq<u8> {
    seq![71u8, 82u8, 82u8, 84u8]
}

/// The bytes of one record.
pub open spec fn record_bytes(r: RecordView) -> Seq<u8> {
    spec_u32_to_le_bytes(r.destination as u32) + spec_u64_to_le_bytes(r.entity_id)
        + spec_u64_to_le_bytes(r.payload.len() as u64) + r.payload
}

/// The bytes of a list of records, back to back.
pub open spec fn records_body(records: Seq<RecordView>) -> Seq<u8>
    decreases records.len(),
{
    if records.len() == 0 {
        Seq::empty()
    } else {
        records_body(records.drop_last()) + record_bytes(records.last())
    }
}

/// The frame that carries `records` for coupling exchange `epoch`.
pub open spec fn routed_frame(epoch: u64, records: Seq<RecordView>) -> Seq<u8> {
    frame_magic() + seq![ROUTED_FRAME_VERSION] + spec_u64_to_le_bytes(epoch) + spec_u64_to_le_bytes(
        records.len() as u64,
    ) + records_body(records)
}

/// Parses `count` records starting at byte `at`; on success returns them and
/// the position just after the last one.
pub open spec fn parse_records(frame: Seq<u8>, at: int, count: nat) -> Option<(Seq<RecordView>, int)>
    decreases count,
{
    if count == 0 {
        Some((Seq::empty(), at))
    } else {
        match parse_records(frame, at, (count - 1) as nat) {
            None => None,
            Some((records, c)) => if c + 20 > frame.len() {
                None
            } else {
                let end = c + 20 + u64_at(frame, c + 12);
                if end > frame.len() {
                    None
                } else {
                    Some(
                        (
                            records.push(
                                RecordView {
                                    destination: u32_at(frame, c) as i32,
                                    entity_id: u64_at(frame, c + 4),
                                    payload: frame.subrange(c + 20, end),
                                },
                            ),
                            end,
                        ),
                    )
                }
            },
        }
    }
}

/// The result of decoding `frame` for coupling exchange `expected`: an
/// unknown header or any truncation is malformed; a different epoch is an
/// epoch mismatch; the records must fill the frame exactly.
pub open spec fn decode_frame_outcome(frame: Seq<u8>, expected: u64) -> Result<
    Seq<RecordView>,
    RoutedFault,
> {
    if frame.len() < 5 || frame.subrange(0, 4) != frame_magic() || frame[4]
        != ROUTED_FRAME_VERSION {
        Err(RoutedFault::MalformedFrame)
    } else if frame.len() < 13 {
        Err(RoutedFault::MalformedFrame)
    } else if u64_at(frame, 5) != expected {
        Err(RoutedFault::EpochMismatch { expected, actual: u64_at(frame, 5) })
    } else if frame.len() < 21 {
        Err(RoutedFault::MalformedFrame)
    } else {
        match parse_records(frame, 21, u64_at(frame, 13) as nat) {
            None => Err(RoutedFault::MalformedFrame),
            Some((records, end)) => if end != frame.len() {
                Err(RoutedFault::MalformedFrame)
            } else {
                Ok(records)
            },
        }
    }
}

// ─── Encoding and decoding ──────────────────────────────────────────────────

/// Frames `records` for coupling exchange `epoch`.
pub fn encode_frame(epoch: CouplingEpoch, records: &[RoutedPayload]) -> (frame: Vec<u8>)
    ensures
        frame@ == routed_frame(epoch.0, records_view(records@)),
{
    let ghost rv = records_view(records@);
    let mut frame: Vec<u8> = Vec::new();
    frame.push(71);
    frame.push(82);
    frame.push(82);
    frame.push(84);
    frame.push(ROUTED_FRAME_VERSION);
    append_u64_le(&mut frame, epoch.0);
    append_u64_le(&mut frame, records.len() as u64);
    let ghost head = frame@;
    assert(head =~= frame_magic() + seq![ROUTED_FRAME_VERSION] + spec_u64_to_le_bytes(epoch.0)
        + spec_u64_to_le_bytes(records@.len() as u64));
    let n = records.len();
    let mut i: usize = 0;
    assert(rv.take(0) =~= Seq::<RecordView>::empty());
    while i < n
        invariant
            0 <= i <= n,
            n == records@.len(),
            rv == records_view(records@),
            frame@ == head + records_body(rv.take(i as int)),
        decreases n - i,
    {
        let record = &records[i];
        append_u32_le(&mut frame, record.destination as u32);
        append_u64_le(&mut frame, record.entity_id.0);
        append_u64_le(&mut frame, record.payload.len() as u64);
        append_bytes(&mut frame, record.payload.as_slice());
        proof {
            let t = rv.take(i as int + 1);
            assert(t.drop_last() =~= rv.take(i as int));
            assert(t.last() == record@);
        }
        i += 1;
    }
    assert(rv.take(n as int) =~= rv);
    frame
}

fn read_u64(frame: &[u8], cursor: &mut usize) -> (r: Result<u64, RoutedExchangeError>)
    requires
        *old(cursor) <= frame@.len(),
    ensures
        match r {
            Ok(x) => *old(cursor) + 8 <= frame@.len() && x == u64_at(frame@, *old(cursor) as int)
                && *final(cursor) == *old(cursor) + 8,
            Err(e) => *old(cursor) + 8 > frame@.len() && e == RoutedExchangeError::MalformedFrame
                && *final(cursor) == *old(cursor),
        },
{
    let n = frame.len();
    let end = match cursor.checked_add(8) {
        Some(e) => e,
        None => return Err(RoutedExchangeError::MalformedFrame),
    };
    if end > n {
        return Err(RoutedExchangeError::MalformedFrame);
    }
    let x = u64_le_at(frame, *cursor);
    *cursor = end;
    Ok(x)
}

fn read_i32(frame: &[u8], cursor: &mut usize) -> (r: Result<i32, RoutedExchangeError>)
    requires
        *old(cursor) <= frame@.len(),
    ensures
        match r {
            Ok(x) => *old(cursor) + 4 <= frame@.len() && x == u32_at(frame@, *old(cursor) as int)
                as i32 && *final(cursor) == *old(cursor) + 4,
            Err(e) => *old(cursor) + 4 > frame@.len() && e == RoutedExchangeError::MalformedFrame
                && *final(cursor) == *old(cursor),
        },
{
    let n = frame.len();
    let end = match cursor.checked_add(4) {
        Some(e) => e,
        None => return Err(RoutedExchangeError::MalformedFrame),
    };
    if end > n {
        return Err(RoutedExchangeError::MalformedFrame);
    }
    let x = u32_le_at(frame, *cursor);
    *cursor = end;
    Ok(x as i32)
}

/// Once parsing fails at some record, parsing more records fails too.
proof fn lemma_parse_records_none_extends(frame: Seq<u8>, k: nat, count: nat)
    requires
        k <= count,
        parse_records(frame, 21, k) is None,
    ensures
        parse_records(frame, 21, count) is None,
    decreases count - k,
{
    if k < count {
        lemma_parse_records_none_extends(frame, k + 1, count);
    }
}

/// Decodes a routed frame for coupling exchange `expected_epoch`.
pub fn decode_frame(frame: &[u8], expected_epoch: CouplingEpoch) -> (r: Result<
    Vec<RoutedPayload>,
    RoutedExchangeError,
>)
    ensures
        match r {
            Ok(records) => decode_frame_outcome(frame@, expected_epoch.0) == Ok::<
                Seq<RecordView>,
                RoutedFault,
            >(records_view(records@)),
            Err(e) => decode_frame_outcome(frame@, expected_epoch.0) == Err::<
                Seq<RecordView>,
                RoutedFault,
            >(e@),
        },
{
    let flen = frame.len();
    if flen < 5 || frame[0] != 71 || frame[1] != 82 || frame[2] != 82 || frame[3] != 84 || frame[4]
        != ROUTED_FRAME_VERSION {
        proof {
            if flen >= 5 && frame@.subrange(0, 4) == frame_magic() {
                assert(frame@[0] == frame@.subrange(0, 4)[0]);
                assert(frame@[1] == frame@.subrange(0, 4)[1]);
                assert(frame@[2] == frame@.subrange(0, 4)[2]);
                assert(frame@[3] == frame@.subrange(0, 4)[3]);
            }
        }
        return Err(RoutedExchangeError::MalformedFrame);
    }
    assert(frame@.subrange(0, 4) =~= frame_magic());
    let mut cursor: usize = 5;
    let actual = match read_u64(frame, &mut cursor) {
        Ok(x) => CouplingEpoch(x),
        Err(e) => return Err(e),
    };
    if actual.0 != expected_epoch.0 {
        return Err(RoutedExchangeError::EpochMismatch { expected: expected_epoch, actual });
    }
    let count = match read_u64(frame, &mut cursor) {
        Ok(c) => c,
        Err(e) => return Err(e),
    };
    let mut records: Vec<RoutedPayload> = Vec::new();
    let mut k: u64 = 0;
    while k < count
        invariant
            0 <= k <= count,
            flen == frame@.len(),
            decode_frame_outcome(frame@, expected_epoch.0) == match parse_records(
                frame@,
                21,
                count as nat,
            ) {
                None => Err(RoutedFault::MalformedFrame),
                Some((rs, end)) => if end != frame@.len() {
                    Err(RoutedFault::MalformedFrame)
                } else {
                    Ok::<Seq<RecordView>, RoutedFault>(rs)
                },
            },
            cursor <= frame@.len(),
            parse_records(frame@, 21, k as nat) == Some((records_view(records@), cursor as int)),
        decreases count - k,
    {
        let ghost before = records_view(records@);
        let ghost c = cursor as int;
        let destination = match read_i32(frame, &mut cursor) {
            Ok(d) => d,
            Err(e) => {
                assert(parse_records(frame@, 21, (k + 1) as nat) is None);
                proof {
                    lemma_parse_records_none_extends(frame@, k as nat + 1, count as nat);
                }
                return Err(e);
            },
        };
        let entity = match read_u64(frame, &mut cursor) {
            Ok(x) => x,
            Err(e) => {
                assert(parse_records(frame@, 21, (k + 1) as nat) is None);
                proof {
                    lemma_parse_records_none_extends(frame@, k as nat + 1, count as nat);
                }
                return Err(e);
            },
        };
        let len = match read_u64(frame, &mut cursor) {
            Ok(x) => x,
            Err(e) => {
                assert(parse_records(frame@, 21, (k + 1) as nat) is None);
                proof {
                    lemma_parse_records_none_extends(frame@, k as nat + 1, count as nat);
                }
                return Err(e);
            },
        };
        let end = match (cursor as u64).checked_add(len) {
            Some(e) => e,
            None => {
                assert(parse_records(frame@, 21, (k + 1) as nat) is None);
                proof {
                    lemma_parse_records_none_extends(frame@, k as nat + 1, count as nat);
                }
                return Err(RoutedExchangeError::MalformedFrame);
            },
        };
        if end > flen as u64 {
            assert(parse_records(frame@, 21, (k + 1) as nat) is None);
            proof {
                lemma_parse_records_none_extends(frame@, k as nat + 1, count as nat);
            }
            return Err(RoutedExchangeError::MalformedFrame);
        }
        let end = end as usize;
        let payload = vstd::slice::slice_to_vec(vstd::slice::slice_subrange(frame, cursor, end));
        records.push(RoutedPayload::new(destination, EntityId(entity), payload));
        proof {
            assert(records_view(records@) =~= before.push(
                RecordView {
                    destination: u32_at(frame@, c) as i32,
                    entity_id: u64_at(frame@, c + 4),
                    payload: frame@.subrange(c + 20, end as int),
                },
            ));
        }
        cursor = end;
        k += 1;
    }
    if cursor != flen {
        return Err(RoutedExchangeError::MalformedFrame);
    }
    Ok(records)
}

} // verus!

verus! {

// ─── Delivery ───────────────────────────────────────────────────────────────

/// The records of one peer frame that are addressed to `rank`, in frame
/// order, tagged with their source; any destination outside `0..size` is an
/// error (the first one, in frame order).
pub open spec fn deliver_records(records: Seq<RecordView>, source: i32, rank: i32, size: i32) -> Result<
    Seq<ReceivedView>,
    RoutedFault,
>
    decreases records.len(),
{
    if records.len() == 0 {
        Ok(Seq::empty())
    } else {
        match deliver_records(records.drop_last(), source, rank, size) {
            Err(e) => Err(e),
            Ok(acc) => {
                let r = records.last();
                if r.destination < 0 || r.destination >= size {
                    Err(RoutedFault::DestinationOutOfRange { destination: r.destination, peer_size: size })
                } else if r.destination == rank {
                    Ok(acc.push(ReceivedView { source, entity_id: r.entity_id, payload: r.payload }))
                } else {
                    Ok(acc)
                }
            },
        }
    }
}

/// Delivery of a full set of peer frames to local rank `rank` of a role of
/// `size` ranks: peer source order, then each source's record order. The
/// first frame (in source order) that fails to decode or to deliver decides
/// the error.
pub open spec fn deliver_outcome(frames: Seq<Seq<u8>>, epoch: u64, rank: i32, size: i32) -> Result<
    Seq<ReceivedView>,
    RoutedFault,
>
    decreases frames.len(),
{
    if frames.len() == 0 {
        Ok(Seq::empty())
    } else {
        match deliver_outcome(frames.drop_last(), epoch, rank, size) {
            Err(e) => Err(e),
            Ok(acc) => match decode_frame_outcome(frames.last(), epoch) {
                Err(e) => Err(e),
                Ok(records) => match deliver_records(
                    records,
                    (frames.len() - 1) as i32,
                    rank,
                    size,
                ) {
                    Err(e) => Err(e),
                    Ok(got) => Ok(acc + got),
                },
            },
        }
    }
}

/// Whether a record is addressed to local rank `rank`.
pub open spec fn addressed_to(rank: i32) -> spec_fn(RecordView) -> bool {
    |r: RecordView| r.destination == rank
}

/// A record as delivered from peer rank `source`.
pub open spec fn tagged(source: i32) -> spec_fn(RecordView) -> ReceivedView {
    |r: RecordView| ReceivedView { source, entity_id: r.entity_id, payload: r.payload }
}

/// Whether every record of a frame names a rank of a role of `size` ranks.
pub open spec fn destinations_in_range(records: Seq<RecordView>, size: i32) -> bool {
    forall|k: int| 0 <= k < records.len() ==> 0 <= #[trigger] records[k].destination < size
}

/// When every destination is a rank of the local role, one peer frame
/// delivers exactly its records addressed to the local rank, in frame
/// order, each tagged with the peer's rank.
pub proof fn lemma_frame_delivers_its_records_in_order(
    records: Seq<RecordView>,
    source: i32,
    rank: i32,
    size: i32,
)
    requires
        destinations_in_range(records, size),
    ensures
        deliver_records(records, source, rank, size) == Ok::<Seq<ReceivedView>, RoutedFault>(
            records.filter(addressed_to(rank)).map_values(tagged(source)),
        ),
    decreases records.len(),
{
    if records.len() == 0 {
        reveal(Seq::filter);
        assert(records.filter(addressed_to(rank)).map_values(tagged(source)) =~= Seq::<ReceivedView>::empty());
    } else {
        let front = records.drop_last();
        let last = records.last();
        assert forall|k: int| 0 <= k < front.len() implies 0 <= #[trigger] front[k].destination < size by {
            assert(front[k] == records[k]);
        }
        lemma_frame_delivers_its_records_in_order(front, source, rank, size);
        assert(front.push(last) =~= records);
        front.lemma_filter_push(last, addressed_to(rank));
        assert(0 <= records[records.len() - 1].destination < size);
        let kept = front.filter(addressed_to(rank));
        assert(kept.push(last).map_values(tagged(source)) =~= kept.map_values(tagged(source)).push(
            tagged(source)(last),
        ));
    }
}

/// The first record, in frame order, whose destination is not a rank of the
/// local role is the error of the whole frame, whatever follows it.
pub proof fn lemma_frame_refuses_first_bad_destination(
    records: Seq<RecordView>,
    source: i32,
    rank: i32,
    size: i32,
    k: int,
)
    requires
        0 <= k < records.len(),
        !(0 <= records[k].destination < size),
        destinations_in_range(records.take(k), size),
    ensures
        deliver_records(records, source, rank, size) == Err::<Seq<ReceivedView>, RoutedFault>(
            RoutedFault::DestinationOutOfRange { destination: records[k].destination, peer_size: size },
        ),
    decreases records.len(),
{
    let front = records.drop_last();
    if k == records.len() - 1 {
        assert(front =~= records.take(k));
        lemma_frame_delivers_its_records_in_order(front, source, rank, size);
    } else {
        assert(front.take(k) =~= records.take(k));
        lemma_frame_refuses_first_bad_destination(front, source, rank, size, k);
    }
}

/// When every peer frame decodes and names only ranks of the local role,
/// delivery gives the records addressed to the local rank, peer source by
/// peer source in rank order, each in its frame's order.
pub proof fn lemma_frames_deliver_in_source_order(
    frames: Seq<Seq<u8>>,
    epoch: u64,
    rank: i32,
    size: i32,
    records: Seq<Seq<RecordView>>,
)
    requires
        records.len() == frames.len(),
        frames.len() <= i32::MAX,
        forall|s: int|
            0 <= s < frames.len() ==> #[trigger] decode_frame_outcome(frames[s], epoch) == Ok::<
                Seq<RecordView>,
                RoutedFault,
            >(records[s]),
        forall|s: int| 0 <= s < frames.len() ==> destinations_in_range(#[trigger] records[s], size),
    ensures
        deliver_outcome(frames, epoch, rank, size) == Ok::<Seq<ReceivedView>, RoutedFault>(
            Seq::new(
                frames.len(),
                |s: int| records[s].filter(addressed_to(rank)).map_values(tagged(s as i32)),
            ).flatten(),
        ),
    decreases frames.len(),
{
    let n = frames.len();
    let per = |s: int| records[s].filter(addressed_to(rank)).map_values(tagged(s as i32));
    if n == 0 {
        assert(Seq::new(0, per) =~= Seq::<Seq<ReceivedView>>::empty());
    } else {
        let front = frames.drop_last();
        let rfront = records.drop_last();
        assert forall|s: int| 0 <= s < front.len() implies #[trigger] decode_frame_outcome(front[s], epoch)
            == Ok::<Seq<RecordView>, RoutedFault>(rfront[s]) by {
            assert(front[s] == frames[s]);
            assert(rfront[s] == records[s]);
        }
        assert forall|s: int| 0 <= s < front.len() implies destinations_in_range(#[trigger] rfront[s], size) by {
            assert(rfront[s] == records[s]);
        }
        lemma_frames_deliver_in_source_order(front, epoch, rank, size, rfront);
        let per_front = |s: int| rfront[s].filter(addressed_to(rank)).map_values(tagged(s as i32));
        assert(Seq::new((n - 1) as nat, per_front) =~= Seq::new((n - 1) as nat, per));
        assert(Seq::new(n, per) =~= Seq::new((n - 1) as nat, per).push(per(n - 1)));
        Seq::new((n - 1) as nat, per).lemma_flatten_push(per(n - 1));
        assert(decode_frame_outcome(frames[n - 1], epoch) == Ok::<Seq<RecordView>, RoutedFault>(records[n - 1]));
        assert(destinations_in_range(records[n - 1], size));
        lemma_frame_delivers_its_records_in_order(records[n - 1], (n - 1) as i32, rank, size);
    }
}

/// A frame with a record whose destination is not a rank of the local
/// role is refused.
pub proof fn lemma_frame_with_bad_destination_is_refused(
    records: Seq<RecordView>,
    source: i32,
    rank: i32,
    size: i32,
)
    requires
        !destinations_in_range(records, size),
    ensures
        deliver_records(records, source, rank, size) is Err,
    decreases records.len(),
{
    let front = records.drop_last();
    if destinations_in_range(front, size) {
        lemma_frame_delivers_its_records_in_order(front, source, rank, size);
        let k = choose|k: int| 0 <= k < records.len() && !(0 <= #[trigger] records[k].destination < size);
        if k < front.len() {
            assert(front[k] == records[k]);
        }
    } else {
        let k = choose|k: int| 0 <= k < front.len() && !(0 <= #[trigger] front[k].destination < size);
        assert(front[k] == records[k]);
        lemma_frame_with_bad_destination_is_refused(front, source, rank, size);
    }
}

/// The first peer frame, in source order, that fails to decode or names a
/// rank outside the local role decides the error of the whole delivery,
/// whatever the frames after it hold.
pub proof fn lemma_first_failing_frame_decides(
    frames: Seq<Seq<u8>>,
    epoch: u64,
    rank: i32,
    size: i32,
    records: Seq<Seq<RecordView>>,
    s: int,
)
    requires
        0 <= s < frames.len(),
        frames.len() <= i32::MAX,
        records.len() == s,
        forall|t: int|
            0 <= t < s ==> #[trigger] decode_frame_outcome(frames[t], epoch) == Ok::<
                Seq<RecordView>,
                RoutedFault,
            >(records[t]),
        forall|t: int| 0 <= t < s ==> destinations_in_range(#[trigger] records[t], size),
        match decode_frame_outcome(frames[s], epoch) {
            Err(_) => true,
            Ok(rs) => !destinations_in_range(rs, size),
        },
    ensures
        deliver_outcome(frames, epoch, rank, size) is Err,
        deliver_outcome(frames, epoch, rank, size) == match decode_frame_outcome(frames[s], epoch) {
            Err(e) => Err(e),
            Ok(rs) => deliver_records(rs, s as i32, rank, size),
        },
    decreases frames.len(),
{
    let front = frames.drop_last();
    if frames.len() == s + 1 {
        assert forall|t: int| 0 <= t < front.len() implies #[trigger] decode_frame_outcome(front[t], epoch)
            == Ok::<Seq<RecordView>, RoutedFault>(records[t]) by {
            assert(front[t] == frames[t]);
        }
        lemma_frames_deliver_in_source_order(front, epoch, rank, size, records);
        match decode_frame_outcome(frames[s], epoch) {
            Err(_) => {},
            Ok(rs) => {
                lemma_frame_with_bad_destination_is_refused(rs, s as i32, rank, size);
            },
        }
    } else {
        assert forall|t: int| 0 <= t < s implies #[trigger] decode_frame_outcome(front[t], epoch)
            == Ok::<Seq<RecordView>, RoutedFault>(records[t]) by {
            assert(front[t] == frames[t]);
        }
        assert(front[s] == frames[s]);
        lemma_first_failing_frame_decides(front, epoch, rank, size, records, s);
    }
}

/// The byte contents of a list of frames.
pub open spec fn frames_view(frames: Seq<Vec<u8>>) -> Seq<Seq<u8>> {
    frames.map_values(|f: Vec<u8>| f@)
}

/// Keeps the records of every peer frame that are addressed to the local
/// rank, in peer source order and then record order.
pub fn deliver_frames(peer_frames: Vec<Vec<u8>>, epoch: CouplingEpoch, position: (i32, i32)) -> (r:
    Result<Vec<ReceivedPayload>, RoutedExchangeError>)
    ensures
        r matches Ok(received) ==> deliver_outcome(
            frames_view(peer_frames@),
            epoch.0,
            position.0,
            position.1,
        ) == Ok::<Seq<ReceivedView>, RoutedFault>(received_view(received@)),
        r matches Err(e) ==> deliver_outcome(
            frames_view(peer_frames@),
            epoch.0,
            position.0,
            position.1,
        ) == Err::<Seq<ReceivedView>, RoutedFault>(e@),
{
    let (local_rank, local_size) = position;
    let ghost fv = frames_view(peer_frames@);
    let mut received: Vec<ReceivedPayload> = Vec::new();
    let n = peer_frames.len();
    let mut s: usize = 0;
    assert(fv.take(0) =~= Seq::<Seq<u8>>::empty());
    assert(received_view(received@) =~= Seq::<ReceivedView>::empty());
    while s < n
        invariant
            0 <= s <= n,
            n == peer_frames@.len(),
            fv == frames_view(peer_frames@),
            local_rank == position.0,
            local_size == position.1,
            deliver_outcome(fv.take(s as int), epoch.0, local_rank, local_size) == Ok::<
                Seq<ReceivedView>,
                RoutedFault,
            >(received_view(received@)),
        decreases n - s,
    {
        let ghost acc = received_view(received@);
        proof {
            let t = fv.take(s as int + 1);
            assert(t.drop_last() =~= fv.take(s as int));
            assert(t.last() == peer_frames@[s as int]@);
        }
        let records = match decode_frame(peer_frames[s].as_slice(), epoch) {
            Ok(rs) => rs,
            Err(e) => {
                proof {
                    assert(deliver_outcome(fv.take(s as int + 1), epoch.0, local_rank, local_size)
                        == Err::<Seq<ReceivedView>, RoutedFault>(e@));
                    lemma_deliver_error_persists(fv, epoch.0, local_rank, local_size, s as int + 1);
                }
                return Err(e);
            },
        };
        let ghost rv = records_view(records@);
        let m = records.len();
        let mut j: usize = 0;
        assert(rv.take(0) =~= Seq::<RecordView>::empty());
        while j < m
            invariant
                0 <= j <= m,
                m == records@.len(),
                rv == records_view(records@),
                s < n,
                n == peer_frames@.len(),
                fv == frames_view(peer_frames@),
                local_rank == position.0,
                local_size == position.1,
                fv.take(s as int + 1).drop_last() == fv.take(s as int),
                fv.take(s as int + 1).last() == fv[s as int],
                deliver_outcome(fv.take(s as int), epoch.0, local_rank, local_size) == Ok::<
                    Seq<ReceivedView>,
                    RoutedFault,
                >(acc),
                decode_frame_outcome(fv[s as int], epoch.0) == Ok::<Seq<RecordView>, RoutedFault>(rv),
                deliver_records(rv.take(j as int), s as i32, local_rank, local_size) matches Ok(got)
                    && received_view(received@) == acc + got,
            decreases m - j,
        {
            let record = &records[j];
            proof {
                let t = rv.take(j as int + 1);
                assert(t.drop_last() =~= rv.take(j as int));
                assert(t.last() == record@);
            }
            if record.destination < 0 || record.destination >= local_size {
                proof {
                    lemma_deliver_records_error_persists(rv, s as i32, local_rank, local_size, j as int + 1);
                    assert(deliver_outcome(fv.take(s as int + 1), epoch.0, local_rank, local_size)
                        is Err);
                    assert(rv.take(m as int) =~= rv);
                    lemma_deliver_error_persists(fv, epoch.0, local_rank, local_size, s as int + 1);
                    assert(fv.take(n as int) =~= fv);
                }
                return Err(
                    RoutedExchangeError::DestinationOutOfRange {
                        destination: record.destination,
                        peer_size: local_size,
                    },
                );
            }
            if record.destination == local_rank {
                let ghost prev = received_view(received@);
                let payload = vstd::slice::slice_to_vec(record.payload.as_slice());
                let item = ReceivedPayload { source: s as i32, entity_id: record.entity_id, payload };
                received.push(item);
                assert(received_view(received@) =~= prev.push(item@));
            }
            j += 1;
        }
        assert(rv.take(m as int) =~= rv);
        s += 1;
    }
    assert(fv.take(n as int) =~= fv);
    Ok(received)
}

/// Once delivery of a prefix of the peer frames fails, delivery of every
/// longer prefix fails the same way.
proof fn lemma_deliver_error_persists(frames: Seq<Seq<u8>>, epoch: u64, rank: i32, size: i32, k: int)
    requires
        0 <= k <= frames.len(),
        deliver_outcome(frames.take(k), epoch, rank, size) is Err,
    ensures
        deliver_outcome(frames, epoch, rank, size) == deliver_outcome(frames.take(k), epoch, rank, size),
    decreases frames.len() - k,
{
    if k < frames.len() {
        let t = frames.take(k + 1);
        assert(t.drop_last() =~= frames.take(k));
        lemma_deliver_error_persists(frames, epoch, rank, size, k + 1);
    } else {
        assert(frames.take(k) =~= frames);
    }
}

/// Once delivery of a prefix of a frame's records fails, delivery of every
/// longer prefix fails the same way.
proof fn lemma_deliver_records_error_persists(
    records: Seq<RecordView>,
    source: i32,
    rank: i32,
    size: i32,
    k: int,
)
    requires
        0 <= k <= records.len(),
        deliver_records(records.take(k), source, rank, size) is Err,
    ensures
        deliver_records(records, source, rank, size) == deliver_records(records.take(k), source, rank, size),
    decreases records.len() - k,
{
    if k < records.len() {
        let t = records.take(k + 1);
        assert(t.drop_last() =~= records.take(k));
        lemma_deliver_records_error_persists(records, source, rank, size, k + 1);
    } else {
        assert(records.take(k) =~= records);
    }
}

} // verus!

verus! {

// ─── Routed exchange over a role exchange ───────────────────────────────────

/// The first record (in order) addressed outside a peer role of `peer_size`
/// ranks, as the error it causes.
pub open spec fn first_bad_destination(records: Seq<RecordView>, peer_size: i32) -> Option<RoutedFault>
    decreases records.len(),
{
    if records.len() == 0 {
        None
    } else if records[0].destination < 0 || records[0].destination >= peer_size {
        Some(
            RoutedFault::DestinationOutOfRange { destination: records[0].destination, peer_size },
        )
    } else {
        first_bad_destination(records.drop_first(), peer_size)
    }
}

fn find_bad_destination(records: &[RoutedPayload], peer_size: i32) -> (r: Option<RoutedExchangeError>)
    ensures
        match first_bad_destination(records_view(records@), peer_size) {
            None => r is None,
            Some(f) => r matches Some(e) && e@ == f,
        },
{
    let ghost rv = records_view(records@);
    let n = records.len();
    let mut i: usize = 0;
    assert(rv.skip(0) =~= rv);
    while i < n
        invariant
            0 <= i <= n,
            n == records@.len(),
            rv == records_view(records@),
            first_bad_destination(rv, peer_size) == first_bad_destination(rv.skip(i as int), peer_size),
        decreases n - i,
    {
        let d = records[i].destination;
        assert(rv.skip(i as int)[0] == records@[i as int]@);
        assert(rv.skip(i as int).drop_first() =~= rv.skip(i as int + 1));
        if d < 0 || d >= peer_size {
            return Some(RoutedExchangeError::DestinationOutOfRange { destination: d, peer_size });
        }
        i += 1;
    }
    assert(rv.skip(n as int) =~= Seq::<RecordView>::empty());
    None
}

/// Routed exchange over a collective role exchange (the root-bridge
/// backend).
pub struct RoutedRoleExchange {
    exchange: Box<dyn RoleExchange>,
}

/// The outcome of a routed exchange once the role exchange has answered:
/// a role-exchange failure is reported first, then a locally invalid route,
/// then delivery of the peer frames.
pub open spec fn routed_exchange_outcome(
    peer_size: i32,
    outgoing: Seq<RecordView>,
    epoch: u64,
    peer_frames: Result<Seq<Seq<u8>>, RoleExchangeFault>,
    position: (i32, i32),
) -> Result<Seq<ReceivedView>, RoutedFault> {
    match peer_frames {
        Err(e) => Err(RoutedFault::Role(e)),
        Ok(frames) => match first_bad_destination(outgoing, peer_size) {
            Some(f) => Err(f),
            None => deliver_outcome(frames, epoch, position.0, position.1),
        },
    }
}

/// The model of a role exchange's answer.
pub open spec fn answer_view(a: Result<Vec<Vec<u8>>, RoleExchangeError>) -> Result<
    Seq<Seq<u8>>,
    RoleExchangeFault,
> {
    match a {
        Ok(f) => Ok(frames_view(f@)),
        Err(e) => Err(e@),
    }
}

/// The model of a routed exchange's result.
pub open spec fn routed_result_view(r: Result<Vec<ReceivedPayload>, RoutedExchangeError>) -> Result<
    Seq<ReceivedView>,
    RoutedFault,
> {
    match r {
        Ok(received) => Ok(received_view(received@)),
        Err(e) => Err(e@),
    }
}

/// Combines the role exchange's answer with the local route check and
/// delivers the peer frames to this rank.
pub fn finish_routed_exchange(
    peer_size: i32,
    outgoing: &[RoutedPayload],
    epoch: CouplingEpoch,
    peer_frames: Result<Vec<Vec<u8>>, RoleExchangeError>,
    position: (i32, i32),
) -> (r: Result<Vec<ReceivedPayload>, RoutedExchangeError>)
    ensures
        ({
            let frames = match peer_frames {
                Ok(f) => Ok::<Seq<Seq<u8>>, RoleExchangeFault>(frames_view(f@)),
                Err(e) => Err::<Seq<Seq<u8>>, RoleExchangeFault>(e@),
            };
            let expected = routed_exchange_outcome(peer_size, records_view(outgoing@), epoch.0, frames, position);
            match r {
                Ok(received) => expected == Ok::<Seq<ReceivedView>, RoutedFault>(received_view(received@)),
                Err(e) => expected == Err::<Seq<ReceivedView>, RoutedFault>(e@),
            }
        }),
{
    let local_error = find_bad_destination(outgoing, peer_size);
    let frames = match peer_frames {
        Ok(f) => f,
        Err(e) => return Err(RoutedExchangeError::Role(e)),
    };
    if let Some(error) = local_error {
        return Err(error);
    }
    deliver_frames(frames, epoch, position)
}

impl RoutedRoleExchange {
    /// Wrap an existing collective role exchange.
    pub fn new(exchange: Box<dyn RoleExchange>) -> Self {
        RoutedRoleExchange { exchange }
    }

    /// Rank and size within the local solver role.
    pub fn role_position(&self) -> (i32, i32) {
        self.exchange.role_position()
    }

    /// Size of the peer solver role.
    pub fn peer_size(&self) -> i32 {
        self.exchange.peer_size()
    }

    /// Collectively exchange routed records and return only records addressed
    /// to this role-rank.
    ///
    /// Delivery order is deterministic: peer source role-rank order, followed
    /// by each source's original record order. A locally invalid route does
    /// not return before the collective, so peers are never stranded; it is
    /// reported once the collective has completed. Whatever the peers send,
    /// a record with a negative destination makes the exchange fail.
    pub fn exchange(&self, epoch: CouplingEpoch, outgoing: &[RoutedPayload]) -> (r: Result<
        Vec<ReceivedPayload>,
        RoutedExchangeError,
    >)
        ensures
            (exists|i: int| 0 <= i < outgoing@.len() && #[trigger] outgoing@[i].destination < 0)
                ==> r is Err,
            exists|peer_size: i32, frames: Result<Seq<Seq<u8>>, RoleExchangeFault>, position: (i32, i32)|
                #[trigger] routed_exchange_outcome(
                    peer_size,
                    records_view(outgoing@),
                    epoch.0,
                    frames,
                    position,
                ) == routed_result_view(r),
    {
        let peer_size = self.exchange.peer_size();
        let local_frame = encode_frame(epoch, outgoing);
        let peer_frames = self.exchange.exchange(local_frame.as_slice());
        let position = self.exchange.role_position();
        let ghost frames = answer_view(peer_frames);
        let r = finish_routed_exchange(peer_size, outgoing, epoch, peer_frames, position);
        proof {
            assert(routed_exchange_outcome(peer_size, records_view(outgoing@), epoch.0, frames, position)
                == routed_result_view(r));
            let rv = records_view(outgoing@);
            if exists|i: int| 0 <= i < outgoing@.len() && #[trigger] outgoing@[i].destination < 0 {
                let i = choose|i: int| 0 <= i < outgoing@.len() && #[trigger] outgoing@[i].destination < 0;
                lemma_negative_destination_is_bad(rv, peer_size, i);
            }
        }
        r
    }
}

/// A list with a negative destination always has a bad destination.
proof fn lemma_negative_destination_is_bad(records: Seq<RecordView>, peer_size: i32, i: int)
    requires
        0 <= i < records.len(),
        records[i].destination < 0,
    ensures
        first_bad_destination(records, peer_size) is Some,
    decreases i,
{
    if i > 0 && !(records[0].destination < 0 || records[0].destination >= peer_size) {
        lemma_negative_destination_is_bad(records.drop_first(), peer_size, i - 1);
    }
}

// ─── Sparse (owner-to-owner) framing ────────────────────────────────────────

/// The records addressed to destination rank `d`, in order.
pub open spec fn records_for(records: Seq<RecordView>, d: int) -> Seq<RecordView> {
    records.filter(|r: RecordView| r.destination == d)
}

/// One frame per destination rank of the peer role, each carrying the
/// records addressed to that rank in their original order. Records with a
/// destination outside `0..peer_size` are in no frame.
pub fn frames_by_destination(epoch: CouplingEpoch, outgoing: &[RoutedPayload], peer_size: i32) -> (r:
    Vec<Vec<u8>>)
    ensures
        r@.len() == if peer_size < 0 { 0 } else { peer_size as int },
        forall|d: int|
            0 <= d < r@.len() ==> #[trigger] r@[d]@ == routed_frame(
                epoch.0,
                records_for(records_view(outgoing@), d),
            ),
{
    let ghost rv = records_view(outgoing@);
    let mut frames: Vec<Vec<u8>> = Vec::new();
    let mut d: i32 = 0;
    while d < peer_size
        invariant
            0 <= d,
            d <= peer_size || peer_size < 0,
            peer_size < 0 ==> d == 0,
            rv == records_view(outgoing@),
            frames@.len() == d,
            forall|k: int|
                0 <= k < d ==> #[trigger] frames@[k]@ == routed_frame(epoch.0, records_for(rv, k)),
        decreases peer_size - d,
    {
        let mut mine: Vec<RoutedPayload> = Vec::new();
        let n = outgoing.len();
        let mut i: usize = 0;
        reveal(Seq::filter);
        assert(rv.take(0).filter(|r: RecordView| r.destination == d as int) =~= Seq::<RecordView>::empty());
        assert(records_view(mine@) =~= Seq::<RecordView>::empty());
        while i < n
            invariant
                0 <= i <= n,
                n == outgoing@.len(),
                rv == records_view(outgoing@),
                records_view(mine@) == rv.take(i as int).filter(|r: RecordView| r.destination == d as int),
            decreases n - i,
        {
            let record = &outgoing[i];
            let ghost prev = records_view(mine@);
            proof {
                let t = rv.take(i as int + 1);
                assert(t.drop_last() =~= rv.take(i as int));
                assert(t.last() == record@);
                reveal(Seq::filter);
            }
            if record.destination == d {
                let copy = RoutedPayload::new(
                    record.destination,
                    record.entity_id,
                    vstd::slice::slice_to_vec(record.payload.as_slice()),
                );
                mine.push(copy);
                assert(records_view(mine@) =~= prev.push(record@));
            }
            i += 1;
        }
        assert(rv.take(n as int) =~= rv);
        frames.push(encode_frame(epoch, mine.as_slice()));
        d += 1;
    }
    frames
}

/// The frame standing for peer source `source` in a sparse exchange: a
/// source that announced no bytes (`expected_len == 0`) stands for an empty
/// frame; otherwise the received frame must have exactly the announced
/// length.
pub fn sparse_source_frame(epoch: CouplingEpoch, expected_len: u64, received: Option<Vec<u8>>) -> (r:
    Result<Vec<u8>, RoutedExchangeError>)
    ensures
        expected_len == 0 ==> (r matches Ok(f) && f@ == routed_frame(epoch.0, Seq::empty())),
        expected_len != 0 ==> match received {
            Some(f) => if f@.len() == expected_len {
                r == Ok::<Vec<u8>, RoutedExchangeError>(f)
            } else {
                r == Err::<Vec<u8>, RoutedExchangeError>(RoutedExchangeError::MalformedFrame)
            },
            None => r == Err::<Vec<u8>, RoutedExchangeError>(RoutedExchangeError::MalformedFrame),
        },
{
    if expected_len == 0 {
        let none: Vec<RoutedPayload> = Vec::new();
        let f = encode_frame(epoch, none.as_slice());
        assert(records_view(none@) =~= Seq::<RecordView>::empty());
        return Ok(f);
    }
    match received {
        Some(frame) => {
            if frame.len() as u64 != expected_len {
                Err(RoutedExchangeError::MalformedFrame)
            } else {
                Ok(frame)
            }
        },
        None => Err(RoutedExchangeError::MalformedFrame),
    }
}

} // verus!

verus! {

// ─── Laws ───────────────────────────────────────────────────────────────────

spec fn routed_prefix(epoch: u64, records: Seq<RecordView>, k: int) -> Seq<u8> {
    frame_magic() + seq![ROUTED_FRAME_VERSION] + spec_u64_to_le_bytes(epoch) + spec_u64_to_le_bytes(
        records.len() as u64,
    ) + records_body(records.take(k))
}

proof fn lemma_routed_prefix(epoch: u64, records: Seq<RecordView>, k: int)
    requires
        0 <= k <= records.len(),
    ensures
        routed_prefix(epoch, records, k).len() <= routed_frame(epoch, records).len(),
        routed_frame(epoch, records).subrange(0, routed_prefix(epoch, records, k).len() as int)
            == routed_prefix(epoch, records, k),
    decreases records.len() - k,
{
    let f = routed_frame(epoch, records);
    if k == records.len() {
        assert(records.take(k) =~= records);
        assert(f.subrange(0, f.len() as int) =~= f);
    } else {
        lemma_routed_prefix(epoch, records, k + 1);
        let t = records.take(k + 1);
        assert(t.drop_last() =~= records.take(k));
        let p = routed_prefix(epoch, records, k);
        let q = routed_prefix(epoch, records, k + 1);
        assert(q =~= p + record_bytes(t.last()));
        assert(f.subrange(0, p.len() as int) =~= q.subrange(0, p.len() as int));
        assert(q.subrange(0, p.len() as int) =~= p);
    }
}

proof fn lemma_parse_routed_prefix(epoch: u64, records: Seq<RecordView>, k: int)
    requires
        0 <= k <= records.len(),
        forall|i: int| 0 <= i < records.len() ==> #[trigger] records[i].payload.len() <= u64::MAX,
    ensures
        parse_records(routed_frame(epoch, records), 21, k as nat) == Some(
            (records.take(k), routed_prefix(epoch, records, k).len() as int),
        ),
    decreases k,
{
    vstd::bytes::lemma_auto_spec_u64_to_from_le_bytes();
    vstd::bytes::lemma_auto_spec_u32_to_from_le_bytes();
    let f = routed_frame(epoch, records);
    if k == 0 {
        assert(records.take(0) =~= Seq::<RecordView>::empty());
        assert(routed_prefix(epoch, records, 0).len() == 21);
    } else {
        lemma_parse_routed_prefix(epoch, records, k - 1);
        lemma_routed_prefix(epoch, records, k);
        let t = records.take(k);
        assert(t.drop_last() =~= records.take(k - 1));
        let x = records[k - 1];
        let p = routed_prefix(epoch, records, k - 1);
        let q = routed_prefix(epoch, records, k);
        let c = p.len() as int;
        let d = spec_u32_to_le_bytes(x.destination as u32);
        let e = spec_u64_to_le_bytes(x.entity_id);
        let l = spec_u64_to_le_bytes(x.payload.len() as u64);
        assert(q =~= p + d + e + l + x.payload);
        assert(f.subrange(0, q.len() as int) == q);
        assert(f.subrange(c, c + 20) =~= q.subrange(c, c + 20));
        lemma_u32_at_encoding(p, x.destination as u32, e + l + x.payload);
        assert(p + d + (e + l + x.payload) =~= q);
        assert(f.subrange(c, c + 4) =~= q.subrange(c, c + 4));
        assert(u32_at(f, c) == x.destination as u32);
        let dest: i32 = x.destination;
        assert((dest as u32) as i32 == dest) by (bit_vector);
        lemma_u64_at_encoding(p + d, x.entity_id, l + x.payload);
        assert(p + d + e + (l + x.payload) =~= q);
        assert(f.subrange(c + 4, c + 12) =~= q.subrange(c + 4, c + 12));
        lemma_u64_at_encoding(p + d + e, x.payload.len() as u64, x.payload);
        assert(f.subrange(c + 12, c + 20) =~= q.subrange(c + 12, c + 20));
        assert(u64_at(f, c + 12) == x.payload.len());
        assert(f.subrange(c + 20, c + 20 + x.payload.len()) =~= q.subrange(c + 20, q.len() as int));
        assert(q.subrange(c + 20, q.len() as int) =~= x.payload);
        assert(records.take(k - 1).push(x) =~= t);
    }
}

/// Decoding the frame of a list of records for the same coupling epoch gives
/// back the same records in the same order.
pub proof fn law_routed_frame_round_trip(epoch: u64, records: Seq<RecordView>)
    requires
        forall|i: int| 0 <= i < records.len() ==> #[trigger] records[i].payload.len() <= u64::MAX,
        records.len() <= u64::MAX,
    ensures
        decode_frame_outcome(routed_frame(epoch, records), epoch) == Ok::<
            Seq<RecordView>,
            RoutedFault,
        >(records),
{
    vstd::bytes::lemma_auto_spec_u64_to_from_le_bytes();
    let f = routed_frame(epoch, records);
    let head = frame_magic() + seq![ROUTED_FRAME_VERSION];
    let ep = spec_u64_to_le_bytes(epoch);
    let cnt = spec_u64_to_le_bytes(records.len() as u64);
    let body = records_body(records);
    assert(f =~= head + ep + cnt + body);
    assert(f.subrange(0, 4) =~= frame_magic());
    lemma_u64_at_encoding(head, epoch, cnt + body);
    assert(head + ep + (cnt + body) =~= f);
    lemma_u64_at_encoding(head + ep, records.len() as u64, body);
    lemma_parse_routed_prefix(epoch, records, records.len() as int);
    assert(records.take(records.len() as int) =~= records);
    assert(routed_prefix(epoch, records, records.len() as int) =~= f);
}

/// An empty frame for an epoch decodes to no records.
pub proof fn law_empty_frame_is_empty(epoch: u64)
    ensures
        decode_frame_outcome(routed_frame(epoch, Seq::empty()), epoch) == Ok::<
            Seq<RecordView>,
            RoutedFault,
        >(Seq::empty()),
{
    law_routed_frame_round_trip(epoch, Seq::empty());
}

/// A peer frame that decodes and holds no record for this rank (and no
/// out-of-range destination) can be replaced by an empty frame without
/// changing what is delivered: the sparse owner-to-owner exchange, which
/// transmits no frame for such sources, delivers exactly what the root
/// bridge delivers.
pub proof fn law_sparse_frames_deliver_like_root_bridge(
    frames: Seq<Seq<u8>>,
    epoch: u64,
    rank: i32,
    size: i32,
    s: int,
)
    requires
        0 <= s < frames.len(),
        decode_frame_outcome(frames[s], epoch) matches Ok(records) && deliver_records(
            records,
            s as i32,
            rank,
            size,
        ) == Ok::<Seq<ReceivedView>, RoutedFault>(Seq::empty()),
    ensures
        deliver_outcome(frames.update(s, routed_frame(epoch, Seq::empty())), epoch, rank, size)
            == deliver_outcome(frames, epoch, rank, size),
    decreases frames.len(),
{
    law_empty_frame_is_empty(epoch);
    let g = frames.update(s, routed_frame(epoch, Seq::empty()));
    assert(deliver_records(Seq::<RecordView>::empty(), s as i32, rank, size) == Ok::<
        Seq<ReceivedView>,
        RoutedFault,
    >(Seq::empty()));
    if s == frames.len() - 1 {
        assert(g.drop_last() =~= frames.drop_last());
        match deliver_outcome(frames.drop_last(), epoch, rank, size) {
            Err(_) => {},
            Ok(acc) => {
                assert(acc + Seq::<ReceivedView>::empty() =~= acc);
            },
        }
    } else {
        law_sparse_frames_deliver_like_root_bridge(frames.drop_last(), epoch, rank, size, s);
        assert(g.drop_last() =~= frames.drop_last().update(s, routed_frame(epoch, Seq::empty())));
        assert(g.last() == frames.last());
    }
}

} // verus!
