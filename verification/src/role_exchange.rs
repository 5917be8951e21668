//! Correctness-first exchange of variable-sized interface shards between MPI
//! roles.
//!
//! A shard frame is `[u64 count LE | count × (u64 len LE | len bytes)]`: the
//! shards of every rank in a role, in role-rank order.

use crate::codec::{append_bytes, append_u64_le, lemma_u64_at_encoding, u64_at, u64_le_at};
use crate::text::{decimal, join, owned, render_i32, render_usize, signed_decimal};
use crate::transport::{Transport, TransportError, TransportErrorView, TransportOperation};
use std::sync::Mutex;
use vstd::bytes::spec_u64_to_le_bytes;
use vstd::prelude::*;

verus! {

// ─── Frame format ───────────────────────────────────────────────────────────

/// The length-prefixed shards, without the leading count.
pub open spec fn shard_body(shards: Seq<Seq<u8>>) -> Seq<u8>
    decreases shards.len(),
{
    if shards.len() == 0 {
        Seq::empty()
    } else {
        shard_body(shards.drop_last()) + spec_u64_to_le_bytes(shards.last().len() as u64)
            + shards.last()
    }
}

/// The frame that carries `shards` in order.
pub open spec fn shard_frame(shards: Seq<Seq<u8>>) -> Seq<u8> {
    spec_u64_to_le_bytes(shards.len() as u64) + shard_body(shards)
}

/// Parses `count` length-prefixed shards starting at byte `at`; on success
/// returns the shards and the position just after the last one.
pub open spec fn parse_shards(frame: Seq<u8>, at: int, count: nat) -> Option<(Seq<Seq<u8>>, int)>
    decreases count,
{
    if count == 0 {
        Some((Seq::empty(), at))
    } else {
        match parse_shards(frame, at, (count - 1) as nat) {
            None => None,
            Some((shards, c)) => if c + 8 > frame.len() {
                None
            } else {
                let end = c + 8 + u64_at(frame, c);
                if end > frame.len() {
                    None
                } else {
                    Some((shards.push(frame.subrange(c + 8, end)), end))
                }
            },
        }
    }
}

/// Mathematical model of a [`RoleExchangeError`].
pub enum RoleExchangeFault {
    MalformedFrame,
    ShardCount { expected: i32, actual: usize },
}

/// The result of decoding `frame` when the peer role has `expected` ranks:
/// a truncated count is malformed; a count other than `expected` is a shard
/// count mismatch; the shards must then fill the frame exactly.
pub open spec fn decode_shards_outcome(frame: Seq<u8>, expected: i32) -> Result<
    Seq<Seq<u8>>,
    RoleExchangeFault,
> {
    if frame.len() < 8 {
        Err(RoleExchangeFault::MalformedFrame)
    } else {
        let count = u64_at(frame, 0);
        if count as usize != expected as usize {
            Err(RoleExchangeFault::ShardCount { expected, actual: count as usize })
        } else {
            match parse_shards(frame, 8, count as nat) {
                None => Err(RoleExchangeFault::MalformedFrame),
                Some((shards, end)) => if end != frame.len() {
                    Err(RoleExchangeFault::MalformedFrame)
                } else {
                    Ok(shards)
                },
            }
        }
    }
}

/// The byte contents of a list of shards.
pub open spec fn shards_view(shards: Seq<Vec<u8>>) -> Seq<Seq<u8>> {
    shards.map_values(|s: Vec<u8>| s@)
}

// ─── Errors ─────────────────────────────────────────────────────────────────

/// Invalid framed role exchange.
#[derive(Debug, Clone, PartialEq, Eq)]
pub enum RoleExchangeError {
    /// Frame did not contain complete length-prefixed shards.
    MalformedFrame,
    /// Peer root sent a shard count inconsistent with topology.
    ShardCount {
        /// Peer-role size declared by the validated topology.
        expected: i32,
        /// Shards actually present in the received frame.
        actual: usize,
    },
}

impl View for RoleExchangeError {
    type V = RoleExchangeFault;

    open spec fn view(&self) -> RoleExchangeFault {
        match self {
            RoleExchangeError::MalformedFrame => RoleExchangeFault::MalformedFrame,
            RoleExchangeError::ShardCount { expected, actual } => RoleExchangeFault::ShardCount {
                expected: *expected,
                actual: *actual,
            },
        }
    }
}

// ─── The collective exchange contract ───────────────────────────────────────

/// Collective cross-role exchange. Every rank in a role contributes one shard
/// and receives every peer-role shard in deterministic role-rank order.
///
/// Implementations move bytes between processes; nothing is promised here
/// about what they return, which depends on the peer role.
pub trait RoleExchange: Send + Sync {
    /// Rank and size within the local solver role.
    fn role_position(&self) -> (i32, i32);
    /// Number of shards expected from the peer role.
    fn peer_size(&self) -> i32;
    /// Collectively exchange one local interface shard for all peer shards.
    fn exchange(&self, local: &[u8]) -> Result<Vec<Vec<u8>>, RoleExchangeError>;
}

// ─── Encoding and decoding ──────────────────────────────────────────────────

/// Frames the shards of every rank of a role, in role-rank order.
pub fn encode_shards(shards: &[Vec<u8>]) -> (frame: Vec<u8>)
    ensures
        frame@ == shard_frame(shards_view(shards@)),
{
    let ghost sv = shards_view(shards@);
    let mut frame: Vec<u8> = Vec::new();
    append_u64_le(&mut frame, shards.len() as u64);
    let n = shards.len();
    let mut i: usize = 0;
    assert(sv.take(0) =~= Seq::<Seq<u8>>::empty());
    assert(frame@ =~= spec_u64_to_le_bytes(n as u64) + shard_body(sv.take(0)));
    while i < n
        invariant
            0 <= i <= n,
            n == shards@.len(),
            sv == shards_view(shards@),
            frame@ == spec_u64_to_le_bytes(n as u64) + shard_body(sv.take(i as int)),
        decreases n - i,
    {
        let shard = &shards[i];
        append_u64_le(&mut frame, shard.len() as u64);
        append_bytes(&mut frame, shard.as_slice());
        proof {
            let t = sv.take(i as int + 1);
            assert(t.drop_last() =~= sv.take(i as int));
            assert(t.last() == shard@);
        }
        i += 1;
    }
    assert(sv.take(n as int) =~= sv);
    frame
}

/// Reads the little-endian `u64` at `*cursor` and advances the cursor past it.
fn read_u64(frame: &[u8], cursor: &mut usize) -> (r: Result<u64, RoleExchangeError>)
    requires
        *old(cursor) <= frame@.len(),
    ensures
        match r {
            Ok(x) => *old(cursor) + 8 <= frame@.len() && x == u64_at(frame@, *old(cursor) as int)
                && *final(cursor) == *old(cursor) + 8,
            Err(e) => *old(cursor) + 8 > frame@.len() && e == RoleExchangeError::MalformedFrame
                && *final(cursor) == *old(cursor),
        },
{
    let n = frame.len();
    let end = match cursor.checked_add(8) {
        Some(e) => e,
        None => return Err(RoleExchangeError::MalformedFrame),
    };
    if end > n {
        return Err(RoleExchangeError::MalformedFrame);
    }
    let x = u64_le_at(frame, *cursor);
    *cursor = end;
    Ok(x)
}

/// Decodes a shard frame sent by a peer role of `expected` ranks.
pub fn decode_shards(frame: &[u8], expected: i32) -> (r: Result<Vec<Vec<u8>>, RoleExchangeError>)
    ensures
        match r {
            Ok(shards) => decode_shards_outcome(frame@, expected) == Ok::<
                Seq<Seq<u8>>,
                RoleExchangeFault,
            >(shards_view(shards@)),
            Err(e) => decode_shards_outcome(frame@, expected) == Err::<
                Seq<Seq<u8>>,
                RoleExchangeFault,
            >(e@),
        },
{
    let mut cursor: usize = 0;
    let count = match read_u64(frame, &mut cursor) {
        Ok(c) => c,
        Err(e) => return Err(e),
    };
    if count as usize != expected as usize {
        return Err(RoleExchangeError::ShardCount { expected, actual: count as usize });
    }
    let flen = frame.len();
    let mut shards: Vec<Vec<u8>> = Vec::new();
    let mut k: u64 = 0;
    while k < count
        invariant
            0 <= k <= count,
            flen == frame@.len(),
            frame@.len() >= 8,
            count as usize == expected as usize,
            count == u64_at(frame@, 0),
            cursor <= frame@.len(),
            parse_shards(frame@, 8, k as nat) == Some((shards_view(shards@), cursor as int)),
        decreases count - k,
    {
        let ghost before = shards_view(shards@);
        let len = match read_u64(frame, &mut cursor) {
            Ok(l) => l,
            Err(e) => {
                assert(parse_shards(frame@, 8, (k + 1) as nat) is None);
                proof {
                    lemma_parse_shards_none_extends(frame@, k as nat + 1, count as nat);
                }
                return Err(e);
            },
        };
        let end = match (cursor as u64).checked_add(len) {
            Some(e) => e,
            None => {
                assert(parse_shards(frame@, 8, (k + 1) as nat) is None);
                proof {
                    lemma_parse_shards_none_extends(frame@, k as nat + 1, count as nat);
                }
                return Err(RoleExchangeError::MalformedFrame);
            },
        };
        if end > frame.len() as u64 {
            assert(parse_shards(frame@, 8, (k + 1) as nat) is None);
            proof {
                lemma_parse_shards_none_extends(frame@, k as nat + 1, count as nat);
            }
            return Err(RoleExchangeError::MalformedFrame);
        }
        let end = end as usize;
        let bytes = vstd::slice::slice_to_vec(vstd::slice::slice_subrange(frame, cursor, end));
        shards.push(bytes);
        proof {
            assert(shards_view(shards@) =~= before.push(frame@.subrange(cursor - 8 + 8, end as int)));
        }
        cursor = end;
        k += 1;
    }
    if cursor != frame.len() {
        return Err(RoleExchangeError::MalformedFrame);
    }
    Ok(shards)
}

/// Once parsing fails at some shard, parsing more shards fails too.
proof fn lemma_parse_shards_none_extends(frame: Seq<u8>, k: nat, count: nat)
    requires
        k <= count,
        parse_shards(frame, 8, k) is None,
    ensures
        parse_shards(frame, 8, count) is None,
    decreases count - k,
{
    if k < count {
        lemma_parse_shards_none_extends(frame, k + 1, count);
    }
}

} // verus!

verus! {

// ─── Round trip ─────────────────────────────────────────────────────────────

/// The frame of the first `k` shards, count header included.
spec fn frame_prefix(shards: Seq<Seq<u8>>, k: int) -> Seq<u8> {
    spec_u64_to_le_bytes(shards.len() as u64) + shard_body(shards.take(k))
}

proof fn lemma_frame_prefix(shards: Seq<Seq<u8>>, k: int)
    requires
        0 <= k <= shards.len(),
    ensures
        frame_prefix(shards, k).len() <= shard_frame(shards).len(),
        shard_frame(shards).subrange(0, frame_prefix(shards, k).len() as int) == frame_prefix(
            shards,
            k,
        ),
    decreases shards.len() - k,
{
    let f = shard_frame(shards);
    if k == shards.len() {
        assert(shards.take(k) =~= shards);
        assert(f.subrange(0, f.len() as int) =~= f);
    } else {
        lemma_frame_prefix(shards, k + 1);
        let t = shards.take(k + 1);
        assert(t.drop_last() =~= shards.take(k));
        let p = frame_prefix(shards, k);
        let q = frame_prefix(shards, k + 1);
        assert(q =~= p + spec_u64_to_le_bytes(t.last().len() as u64) + t.last());
        assert(f.subrange(0, p.len() as int) =~= q.subrange(0, p.len() as int));
        assert(q.subrange(0, p.len() as int) =~= p);
    }
}

proof fn lemma_parse_prefix(shards: Seq<Seq<u8>>, k: int)
    requires
        0 <= k <= shards.len(),
        forall|i: int| 0 <= i < shards.len() ==> #[trigger] shards[i].len() <= u64::MAX,
    ensures
        parse_shards(shard_frame(shards), 8, k as nat) == Some(
            (shards.take(k), frame_prefix(shards, k).len() as int),
        ),
    decreases k,
{
    vstd::bytes::lemma_auto_spec_u64_to_from_le_bytes();
    let f = shard_frame(shards);
    if k == 0 {
        assert(shards.take(0) =~= Seq::<Seq<u8>>::empty());
        assert(frame_prefix(shards, 0).len() == 8);
    } else {
        lemma_parse_prefix(shards, k - 1);
        lemma_frame_prefix(shards, k);
        let t = shards.take(k);
        assert(t.drop_last() =~= shards.take(k - 1));
        let x = shards[k - 1];
        let p = frame_prefix(shards, k - 1);
        let q = frame_prefix(shards, k);
        let c = p.len() as int;
        assert(q =~= p + spec_u64_to_le_bytes(x.len() as u64) + x);
        lemma_u64_at_encoding(p, x.len() as u64, x);
        assert(f.subrange(c, c + 8) =~= q.subrange(c, c + 8));
        assert(q.subrange(c, c + 8) =~= (p + spec_u64_to_le_bytes(x.len() as u64) + x).subrange(
            c,
            c + 8,
        ));
        assert(u64_at(f, c) == x.len());
        assert(f.subrange(c + 8, c + 8 + x.len()) =~= q.subrange(c + 8, q.len() as int));
        assert(q.subrange(c + 8, q.len() as int) =~= x);
        assert(shards.take(k - 1).push(x) =~= t);
    }
}

/// Decoding the frame of a list of shards, with the list's length as the
/// expected peer count, gives back the same shards in the same order.
pub proof fn law_shards_round_trip(shards: Seq<Seq<u8>>)
    requires
        shards.len() <= i32::MAX,
        forall|i: int| 0 <= i < shards.len() ==> #[trigger] shards[i].len() <= u64::MAX,
    ensures
        decode_shards_outcome(shard_frame(shards), shards.len() as i32) == Ok::<
            Seq<Seq<u8>>,
            RoleExchangeFault,
        >(shards),
{
    let f = shard_frame(shards);
    let n = shards.len();
    lemma_u64_at_encoding(Seq::empty(), n as u64, shard_body(shards));
    assert(Seq::<u8>::empty() + spec_u64_to_le_bytes(n as u64) + shard_body(shards) =~= f);
    lemma_parse_prefix(shards, n as int);
    assert(shards.take(n as int) =~= shards);
    assert(frame_prefix(shards, n as int) =~= f);
}

} // verus!

verus! {

// ─── Diagnostics ────────────────────────────────────────────────────────────

/// The text of a role-exchange error.
pub open spec fn role_exchange_error_text(e: RoleExchangeFault) -> Seq<char> {
    match e {
        RoleExchangeFault::MalformedFrame => "malformed role-shard frame"@,
        RoleExchangeFault::ShardCount { expected, actual } => "expected "@ + signed_decimal(
            expected as int,
        ) + " peer shards, received "@ + decimal(actual as nat),
    }
}

impl RoleExchangeError {
    /// The diagnostic text of this error.
    pub fn message(&self) -> (s: String)
        ensures
            s@ == role_exchange_error_text(self@),
    {
        match self {
            RoleExchangeError::MalformedFrame => owned("malformed role-shard frame"),
            RoleExchangeError::ShardCount { expected, actual } => {
                let s = join(owned("expected "), render_i32(*expected).as_str());
                let s = join(s, " peer shards, received ");
                join(s, render_usize(*actual).as_str())
            },
        }
    }
}

// ─── SinglePeerTransport ────────────────────────────────────────────────────

/// `Mutex::new(None)`: an empty pending-payload slot.
#[verifier::external_body]
fn empty_slot() -> Mutex<Option<Vec<u8>>> {
    Mutex::new(None)
}

/// Stores `payload` in the slot under its lock, replacing what was there.
/// The slot's contents are not visible to the verifier.
#[verifier::external_body]
fn store_slot(slot: &Mutex<Option<Vec<u8>>>, payload: Vec<u8>) {
    *slot.lock().unwrap() = Some(payload);
}

/// `Option::take` on the slot under its lock: what the last store left, if
/// anything. The slot's contents are not visible to the verifier.
#[verifier::external_body]
fn take_slot(slot: &Mutex<Option<Vec<u8>>>) -> Option<Vec<u8>> {
    slot.lock().unwrap().take()
}

/// Adapts a role exchange to the one-peer [`Transport`] contract. It is
/// intentionally valid only when the peer role has one rank: a send parks the
/// payload, and the following receive performs the collective exchange.
pub struct SinglePeerTransport {
    exchange: Box<dyn RoleExchange>,
    pending: Mutex<Option<Vec<u8>>>,
}

/// The name every [`SinglePeerTransport`] reports.
pub open spec fn single_peer_name() -> Seq<char> {
    "SinglePeerTransport"@
}

/// The detail reported when the peer role answered with `n != 1` shards.
pub open spec fn shard_count_detail(n: nat) -> Seq<char> {
    "legacy Transport requires one peer shard, received "@ + decimal(n)
        + "; use RoleExchange for multi-rank coupling"@
}

/// The result of a single-peer receive once the role exchange has answered:
/// its error becomes a `recv` error with the error's text; otherwise exactly
/// one peer shard is required.
pub fn single_peer_answer(answer: Result<Vec<Vec<u8>>, RoleExchangeError>) -> (r: Result<
    Vec<u8>,
    TransportError,
>)
    ensures
        match answer {
            Err(e) => r matches Err(t) && t@ == (TransportErrorView {
                transport: single_peer_name(),
                operation: TransportOperation::Recv,
                detail: role_exchange_error_text(e@),
            }),
            Ok(peers) => if peers@.len() == 1 {
                r matches Ok(b) && b@ == peers@[0]@
            } else {
                r matches Err(t) && t@ == (TransportErrorView {
                    transport: single_peer_name(),
                    operation: TransportOperation::Recv,
                    detail: shard_count_detail(peers@.len()),
                })
            },
        },
{
    let mut peers = match answer {
        Ok(p) => p,
        Err(error) => {
            let detail = error.message();
            return Err(
                TransportError::new("SinglePeerTransport", TransportOperation::Recv, detail.as_str()),
            );
        },
    };
    if peers.len() != 1 {
        let d = join(
            owned("legacy Transport requires one peer shard, received "),
            render_usize(peers.len()).as_str(),
        );
        let d = join(d, "; use RoleExchange for multi-rank coupling");
        return Err(TransportError::new("SinglePeerTransport", TransportOperation::Recv, d.as_str()));
    }
    Ok(peers.remove(0))
}

impl SinglePeerTransport {
    /// Wrap a collective role exchange for a one-rank peer.
    pub fn new(exchange: Box<dyn RoleExchange>) -> Self {
        SinglePeerTransport { exchange, pending: empty_slot() }
    }
}

impl Transport for SinglePeerTransport {
    fn transport_name(&self) -> (s: &str)
        ensures
            s@ == single_peer_name(),
    {
        "SinglePeerTransport"
    }

    /// Parks the payload for the next receive; never fails.
    fn try_send(&self, payload: &[u8]) -> (r: Result<(), TransportError>)
        ensures
            r is Ok,
    {
        store_slot(&self.pending, vstd::slice::slice_to_vec(payload));
        Ok(())
    }

    /// Exchanges the parked payload for the single peer shard; a receive with
    /// nothing parked fails with a `recv` error naming this transport.
    fn try_recv(&self) -> (r: Result<Vec<u8>, TransportError>)
        ensures
            r matches Err(e) ==> {
                &&& e@.transport == single_peer_name()
                &&& e@.operation == TransportOperation::Recv
                &&& {
                    ||| e@.detail == "recv called before send"@
                    ||| (exists|n: nat| n != 1 && e@.detail == shard_count_detail(n))
                    ||| (exists|f: RoleExchangeFault| e@.detail == role_exchange_error_text(f))
                }
            },
    {
        let local = match take_slot(&self.pending) {
            Some(l) => l,
            None => {
                return Err(
                    TransportError::new(
                        "SinglePeerTransport",
                        TransportOperation::Recv,
                        "recv called before send",
                    ),
                )
            },
        };
        single_peer_answer(self.exchange.exchange(local.as_slice()))
    }
}

} // verus!
