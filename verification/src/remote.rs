//! Remote mirrors: a sub-App whose resources are pumped over a
//! [`Transport`] to and from a peer process each iteration.
//!
//! Every `send` slot registered on a mirror fires before every `recv` slot,
//! both in the one-shot setup pump and in the per-iteration pump, and
//! registration order is preserved within each list. Each payload is exactly
//! the bytes the resource's wire packing produced: no framing, no type tag.
//!
//! The mirror tracks, per resource, whether a receive pump populates it,
//! whether the most recent required receive completed (`fresh`), and whether
//! local code wrote it since the last send (`dirty`). A receive-populated
//! resource is only readable while fresh, so a failed pump fails closed.

use crate::physics::StepResult;
use crate::text::{decimal, join, owned, render_usize};
use crate::transport::{transport_error_text, Transport, TransportError, TransportErrorView};
use crate::store::{decode_failure, decoded_into, decodes_into, ensured, packed, WireKind, WireStore, WireValueView};
use crate::wire::{WireUnpackError, WireUnpackFault};
use std::collections::HashMap;
use vstd::prelude::*;

verus! {

broadcast use {
    vstd::std_specs::hash::group_hash_axioms,
    vstd::seq_lib::lemma_seq_contains_after_push,
};

// ─── Phases, directions, coherence ──────────────────────────────────────────

/// Observable local coherence state for one resource on a remote mirror.
#[derive(Debug, Clone, Copy, PartialEq, Eq, Structural)]
pub struct RemoteResourceCoherence {
    /// Whether this resource is populated by a receive pump.
    pub receives: bool,
    /// Whether the most recent required receive completed successfully.
    pub fresh: bool,
    /// Whether local code has mutably borrowed it since the last send.
    pub dirty: bool,
}

/// Whether a failed remote decode happened during setup or an iteration.
#[derive(Debug, Clone, Copy, PartialEq, Eq, Structural)]
pub enum RemotePumpPhase {
    /// The one-shot setup pump.
    Setup,
    /// The per-iteration pump.
    EachIter,
}

/// The word for a pump phase.
pub open spec fn phase_label(p: RemotePumpPhase) -> Seq<char> {
    match p {
        RemotePumpPhase::Setup => "setup"@,
        RemotePumpPhase::EachIter => "each-iter"@,
    }
}

impl RemotePumpPhase {
    /// The word for the phase: `setup` or `each-iter`.
    pub fn label(&self) -> (s: &'static str)
        ensures
            s@ == phase_label(*self),
    {
        match self {
            RemotePumpPhase::Setup => "setup",
            RemotePumpPhase::EachIter => "each-iter",
        }
    }
}

/// Direction of a remote transport pump slot.
#[derive(Debug, Clone, Copy, PartialEq, Eq, Structural)]
pub enum RemotePumpDirection {
    /// Payload was being sent from this mirror to the peer.
    Send,
    /// Payload was being received from the peer into this mirror.
    Recv,
}

/// The word for a pump direction.
pub open spec fn direction_label(d: RemotePumpDirection) -> Seq<char> {
    match d {
        RemotePumpDirection::Send => "send"@,
        RemotePumpDirection::Recv => "recv"@,
    }
}

impl RemotePumpDirection {
    /// The word for the direction: `send` or `recv`.
    pub fn label(&self) -> (s: &'static str)
        ensures
            s@ == direction_label(*self),
    {
        match self {
            RemotePumpDirection::Send => "send",
            RemotePumpDirection::Recv => "recv",
        }
    }
}

// ─── RemoteUnpackError ──────────────────────────────────────────────────────

/// Contextual error returned when a remote payload cannot be decoded into the
/// resource registered for that receive slot.
#[derive(Debug, Clone, PartialEq, Eq)]
pub struct RemoteUnpackError {
    mirror_name: String,
    phase: RemotePumpPhase,
    recv_index: usize,
    resource_type: &'static str,
    payload_len: usize,
    source: WireUnpackError,
}

/// Mathematical model of a [`RemoteUnpackError`].
pub struct RemoteUnpackFault {
    pub mirror_name: Seq<char>,
    pub phase: RemotePumpPhase,
    pub recv_index: usize,
    pub resource_type: Seq<char>,
    pub payload_len: usize,
    pub source: WireUnpackFault,
}

impl View for RemoteUnpackError {
    type V = RemoteUnpackFault;

    closed spec fn view(&self) -> RemoteUnpackFault {
        RemoteUnpackFault {
            mirror_name: self.mirror_name@,
            phase: self.phase,
            recv_index: self.recv_index,
            resource_type: self.resource_type@,
            payload_len: self.payload_len,
            source: self.source@,
        }
    }
}

/// The text of a remote unpack error.
pub open spec fn remote_unpack_text(e: RemoteUnpackFault) -> Seq<char> {
    "RemoteMirrorPhysics `"@ + e.mirror_name + "` failed to unpack "@ + phase_label(e.phase)
        + " recv slot #"@ + decimal(e.recv_index as nat) + " as `"@ + e.resource_type
        + "` from "@ + decimal(e.payload_len as nat) + " bytes: "@ + e.source.detail
}

impl RemoteUnpackError {
    /// Build the error for receive slot `recv_index` of mirror `mirror_name`.
    pub fn new(
        mirror_name: &str,
        phase: RemotePumpPhase,
        recv_index: usize,
        resource_type: &'static str,
        payload_len: usize,
        source: WireUnpackError,
    ) -> (e: Self)
        ensures
            e@ == (RemoteUnpackFault {
                mirror_name: mirror_name@,
                phase,
                recv_index,
                resource_type: resource_type@,
                payload_len,
                source: source@,
            }),
    {
        RemoteUnpackError {
            mirror_name: owned(mirror_name),
            phase,
            recv_index,
            resource_type,
            payload_len,
            source,
        }
    }

    /// Name of the remote mirror sub-App that received the payload.
    pub fn mirror_name(&self) -> (s: &str)
        ensures
            s@ == self@.mirror_name,
    {
        self.mirror_name.as_str()
    }

    /// Pump phase where the decode failed.
    pub fn phase(&self) -> (p: RemotePumpPhase)
        ensures
            p == self@.phase,
    {
        self.phase
    }

    /// Zero-based index within the phase's registered receive list.
    pub fn recv_index(&self) -> (i: usize)
        ensures
            i == self@.recv_index,
    {
        self.recv_index
    }

    /// Rust resource type expected by this receive slot.
    pub fn resource_type(&self) -> (s: &'static str)
        ensures
            s@ == self@.resource_type,
    {
        self.resource_type
    }

    /// Number of bytes received from the transport.
    pub fn payload_len(&self) -> (n: usize)
        ensures
            n == self@.payload_len,
    {
        self.payload_len
    }

    /// Lower-level wire decode error.
    pub fn source(&self) -> (s: &WireUnpackError)
        ensures
            s@ == self@.source,
    {
        &self.source
    }

    /// The diagnostic text of this error.
    pub fn message(&self) -> (s: String)
        ensures
            s@ == remote_unpack_text(self@),
    {
        let s = join(owned("RemoteMirrorPhysics `"), self.mirror_name.as_str());
        let s = join(s, "` failed to unpack ");
        let s = join(s, self.phase.label());
        let s = join(s, " recv slot #");
        let s = join(s, render_usize(self.recv_index).as_str());
        let s = join(s, " as `");
        let s = join(s, self.resource_type);
        let s = join(s, "` from ");
        let s = join(s, render_usize(self.payload_len).as_str());
        let s = join(s, " bytes: ");
        join(s, self.source.detail())
    }
}

// ─── RemoteTransportError ───────────────────────────────────────────────────

/// Contextual error returned when a remote transport send or recv fails.
#[derive(Debug, Clone, PartialEq, Eq)]
pub struct RemoteTransportError {
    mirror_name: String,
    phase: RemotePumpPhase,
    direction: RemotePumpDirection,
    slot_index: usize,
    payload_len: Option<usize>,
    source: TransportError,
}

/// Mathematical model of a [`RemoteTransportError`].
pub struct RemoteTransportFault {
    pub mirror_name: Seq<char>,
    pub phase: RemotePumpPhase,
    pub direction: RemotePumpDirection,
    pub slot_index: usize,
    pub payload_len: Option<usize>,
    pub source: TransportErrorView,
}

impl View for RemoteTransportError {
    type V = RemoteTransportFault;

    closed spec fn view(&self) -> RemoteTransportFault {
        RemoteTransportFault {
            mirror_name: self.mirror_name@,
            phase: self.phase,
            direction: self.direction,
            slot_index: self.slot_index,
            payload_len: self.payload_len,
            source: self.source@,
        }
    }
}

/// The text of a remote transport error.
pub open spec fn remote_transport_text(e: RemoteTransportFault) -> Seq<char> {
    let head = "RemoteMirrorPhysics `"@ + e.mirror_name + "` failed to "@ + direction_label(
        e.direction,
    ) + " "@ + phase_label(e.phase) + " "@ + direction_label(e.direction) + " slot #"@
        + decimal(e.slot_index as nat);
    match e.payload_len {
        Some(n) => head + " ("@ + decimal(n as nat) + " bytes): "@ + transport_error_text(e.source),
        None => head + ": "@ + transport_error_text(e.source),
    }
}

impl RemoteTransportError {
    /// The error for a failed send of a `payload_len`-byte payload from slot
    /// `slot_index`.
    pub fn send(
        mirror_name: &str,
        phase: RemotePumpPhase,
        slot_index: usize,
        payload_len: usize,
        source: TransportError,
    ) -> (e: Self)
        ensures
            e@ == (RemoteTransportFault {
                mirror_name: mirror_name@,
                phase,
                direction: RemotePumpDirection::Send,
                slot_index,
                payload_len: Some(payload_len),
                source: source@,
            }),
    {
        RemoteTransportError {
            mirror_name: owned(mirror_name),
            phase,
            direction: RemotePumpDirection::Send,
            slot_index,
            payload_len: Some(payload_len),
            source,
        }
    }

    /// The error for a failed receive into slot `slot_index`.
    pub fn recv(mirror_name: &str, phase: RemotePumpPhase, slot_index: usize, source: TransportError) -> (e:
        Self)
        ensures
            e@ == (RemoteTransportFault {
                mirror_name: mirror_name@,
                phase,
                direction: RemotePumpDirection::Recv,
                slot_index,
                payload_len: None,
                source: source@,
            }),
    {
        RemoteTransportError {
            mirror_name: owned(mirror_name),
            phase,
            direction: RemotePumpDirection::Recv,
            slot_index,
            payload_len: None,
            source,
        }
    }

    /// Name of the remote mirror sub-App whose transport failed.
    pub fn mirror_name(&self) -> (s: &str)
        ensures
            s@ == self@.mirror_name,
    {
        self.mirror_name.as_str()
    }

    /// Pump phase where transport failed.
    pub fn phase(&self) -> (p: RemotePumpPhase)
        ensures
            p == self@.phase,
    {
        self.phase
    }

    /// Whether the failure happened while sending or receiving.
    pub fn direction(&self) -> (d: RemotePumpDirection)
        ensures
            d == self@.direction,
    {
        self.direction
    }

    /// Zero-based index within the phase's registered send or receive list.
    pub fn slot_index(&self) -> (i: usize)
        ensures
            i == self@.slot_index,
    {
        self.slot_index
    }

    /// Number of bytes in the outgoing payload, for send failures.
    pub fn payload_len(&self) -> (n: Option<usize>)
        ensures
            n == self@.payload_len,
    {
        self.payload_len
    }

    /// Lower-level transport error.
    pub fn source(&self) -> (s: &TransportError)
        ensures
            s@ == self@.source,
    {
        &self.source
    }

    /// The diagnostic text of this error.
    pub fn message(&self) -> (s: String)
        ensures
            s@ == remote_transport_text(self@),
    {
        let s = join(owned("RemoteMirrorPhysics `"), self.mirror_name.as_str());
        let s = join(s, "` failed to ");
        let s = join(s, self.direction.label());
        let s = join(s, " ");
        let s = join(s, self.phase.label());
        let s = join(s, " ");
        let s = join(s, self.direction.label());
        let s = join(s, " slot #");
        let s = join(s, render_usize(self.slot_index).as_str());
        match self.payload_len {
            Some(n) => {
                let s = join(s, " (");
                let s = join(s, render_usize(n).as_str());
                let s = join(s, " bytes): ");
                join(s, self.source.message().as_str())
            },
            None => {
                let s = join(s, ": ");
                join(s, self.source.message().as_str())
            },
        }
    }
}

// ─── RemotePumpError ────────────────────────────────────────────────────────

/// Contextual error returned by fallible remote pump entry points.
#[derive(Debug, Clone, PartialEq, Eq)]
pub enum RemotePumpError {
    /// A transport send or recv failed.
    Transport(RemoteTransportError),
    /// A received payload could not be decoded into the registered resource.
    Unpack(RemoteUnpackError),
}

impl RemotePumpError {
    /// Returns the transport diagnostic when this is a transport failure.
    pub fn transport(&self) -> (r: Option<&RemoteTransportError>)
        ensures
            match self {
                RemotePumpError::Transport(e) => r == Some(e),
                RemotePumpError::Unpack(_) => r is None,
            },
    {
        match self {
            RemotePumpError::Transport(err) => Some(err),
            RemotePumpError::Unpack(_) => None,
        }
    }

    /// Returns the unpack diagnostic when this is a decode failure.
    pub fn unpack(&self) -> (r: Option<&RemoteUnpackError>)
        ensures
            match self {
                RemotePumpError::Transport(_) => r is None,
                RemotePumpError::Unpack(e) => r == Some(e),
            },
    {
        match self {
            RemotePumpError::Transport(_) => None,
            RemotePumpError::Unpack(err) => Some(err),
        }
    }

    /// The diagnostic text of this error: that of the error it wraps.
    pub fn message(&self) -> (s: String)
        ensures
            match self {
                RemotePumpError::Transport(e) => s@ == remote_transport_text(e@),
                RemotePumpError::Unpack(e) => s@ == remote_unpack_text(e@),
            },
    {
        match self {
            RemotePumpError::Transport(err) => err.message(),
            RemotePumpError::Unpack(err) => err.message(),
        }
    }
}

// ─── The mirror ─────────────────────────────────────────────────────────────

/// One registered pump slot: the key of the resource, its wire type and the
/// name of its type.
#[derive(Debug, Clone, Copy, PartialEq, Eq)]
pub struct PumpSlot {
    /// Key of the resource in the mirror's store.
    pub key: u64,
    /// Wire type of the resource; its default fills a new slot's resource.
    pub kind: WireKind,
    /// Name of the resource's type, for diagnostics.
    pub type_label: &'static str,
}

/// The keys of a list of pump slots, in order.
pub open spec fn slot_keys(slots: Seq<PumpSlot>) -> Seq<u64> {
    slots.map_values(|s: PumpSlot| s.key)
}

/// `m` with the `fresh` flag of every resource listed in `keys` set to `fresh`.
pub open spec fn with_fresh(
    m: Map<u64, RemoteResourceCoherence>,
    keys: Seq<u64>,
    fresh: bool,
) -> Map<u64, RemoteResourceCoherence> {
    Map::new(
        |k: u64| m.dom().contains(k),
        |k: u64|
            if keys.contains(k) {
                RemoteResourceCoherence { receives: m[k].receives, fresh, dirty: m[k].dirty }
            } else {
                m[k]
            },
    )
}

/// `m` with the `dirty` flag of every resource listed in `keys` cleared.
pub open spec fn with_clean(
    m: Map<u64, RemoteResourceCoherence>,
    keys: Seq<u64>,
) -> Map<u64, RemoteResourceCoherence> {
    Map::new(
        |k: u64| m.dom().contains(k),
        |k: u64|
            if keys.contains(k) {
                RemoteResourceCoherence { receives: m[k].receives, fresh: m[k].fresh, dirty: false }
            } else {
                m[k]
            },
    )
}

/// Every slot's resource has coherence state in `m`; with `receiving`, each
/// is marked as populated by a receive pump.
pub open spec fn slots_tracked(
    m: Map<u64, RemoteResourceCoherence>,
    slots: Seq<PumpSlot>,
    receiving: bool,
) -> bool {
    forall|i: int|
        0 <= i < slots.len() ==> m.dom().contains(#[trigger] slots[i].key) && (receiving
            ==> m[slots[i].key].receives)
}

/// Set the `fresh` flag of every slot's resource to `fresh`.
fn mark_fresh(coherence: &mut HashMap<u64, RemoteResourceCoherence>, slots: &Vec<PumpSlot>, fresh: bool)
    ensures
        final(coherence)@ == with_fresh(old(coherence)@, slot_keys(slots@), fresh),
{
    let ghost start = coherence@;
    let mut i: usize = 0;
    while i < slots.len()
        invariant
            0 <= i <= slots.len(),
            coherence@ == with_fresh(start, slot_keys(slots@).take(i as int), fresh),
        decreases slots.len() - i,
    {
        let key = slots[i].key;
        match coherence.get(&key) {
            Some(cur) => {
                let next = RemoteResourceCoherence { receives: cur.receives, fresh, dirty: cur.dirty };
                coherence.insert(key, next);
            },
            None => {},
        }
        assert(slot_keys(slots@).take(i + 1) =~= slot_keys(slots@).take(i as int).push(key));
        assert(coherence@ =~= with_fresh(start, slot_keys(slots@).take(i + 1), fresh));
        i += 1;
    }
    assert(slot_keys(slots@).take(slots.len() as int) =~= slot_keys(slots@));
}

/// Clear the `dirty` flag of every slot's resource.
fn mark_clean(coherence: &mut HashMap<u64, RemoteResourceCoherence>, slots: &Vec<PumpSlot>)
    ensures
        final(coherence)@ == with_clean(old(coherence)@, slot_keys(slots@)),
{
    let ghost start = coherence@;
    let mut i: usize = 0;
    while i < slots.len()
        invariant
            0 <= i <= slots.len(),
            coherence@ == with_clean(start, slot_keys(slots@).take(i as int)),
        decreases slots.len() - i,
    {
        let key = slots[i].key;
        match coherence.get(&key) {
            Some(cur) => {
                let next = RemoteResourceCoherence { receives: cur.receives, fresh: cur.fresh, dirty: false };
                coherence.insert(key, next);
            },
            None => {},
        }
        assert(slot_keys(slots@).take(i + 1) =~= slot_keys(slots@).take(i as int).push(key));
        assert(coherence@ =~= with_clean(start, slot_keys(slots@).take(i + 1)));
        i += 1;
    }
    assert(slot_keys(slots@).take(slots.len() as int) =~= slot_keys(slots@));
}

/// Mathematical model of a [`RemoteMirrorPhysics`]: its name, its four pump
/// lists in registration order, the coherence state of each resource that
/// takes part in a pump, and the keys the mirror has asked its store to hold.
pub struct MirrorModel {
    pub name: Seq<char>,
    pub sends_at_setup: Seq<PumpSlot>,
    pub recvs_at_setup: Seq<PumpSlot>,
    pub sends_each_iter: Seq<PumpSlot>,
    pub recvs_each_iter: Seq<PumpSlot>,
    pub coherence: Map<u64, RemoteResourceCoherence>,
    pub store: Map<u64, WireValueView>,
    pub log: Seq<PumpEvent>,
}

/// One transport call of a pump: a payload handed to the transport for the
/// resource `key` (`sent`), or a payload received for the resource `key` and
/// handed to the store to decode into it.
pub struct PumpEvent {
    pub sent: bool,
    pub key: u64,
    pub bytes: Seq<u8>,
}

/// `v` with its pump log replaced by `log`.
pub open spec fn with_log(v: MirrorModel, log: Seq<PumpEvent>) -> MirrorModel {
    MirrorModel { log, ..v }
}

/// `v` with its resources replaced by `store`.
pub open spec fn with_store(v: MirrorModel, store: Map<u64, WireValueView>) -> MirrorModel {
    MirrorModel { store, ..v }
}

/// `after` is the log `before` followed by `n_sent` send events, one per
/// slot of `sends` in order, each carrying the bytes `store` packs for the
/// slot's resource, and then `n_recv` receive events, one per slot of
/// `recvs` in order.
pub open spec fn pump_logged(
    before: Seq<PumpEvent>,
    after: Seq<PumpEvent>,
    store: Map<u64, WireValueView>,
    sends: Seq<PumpSlot>,
    recvs: Seq<PumpSlot>,
    n_sent: int,
    n_recv: int,
) -> bool {
    &&& 0 <= n_sent <= sends.len()
    &&& 0 <= n_recv <= recvs.len()
    &&& after.len() == before.len() + n_sent + n_recv
    &&& after.subrange(0, before.len() as int) == before
    &&& forall|i: int|
        0 <= i < n_sent ==> (#[trigger] after[before.len() + i]).sent && after[before.len()
            + i].key == sends[i].key && after[before.len() + i].bytes == packed(store, sends[i].key)
    &&& forall|j: int|
        0 <= j < n_recv ==> !(#[trigger] after[before.len() + n_sent + j]).sent && after[before.len()
            + n_sent + j].key == recvs[j].key
}

/// `store` after each received payload of `events`, in order, was decoded
/// into its resource.
pub open spec fn received_into(store: Map<u64, WireValueView>, events: Seq<PumpEvent>) -> Map<
    u64,
    WireValueView,
>
    decreases events.len(),
{
    if events.len() == 0 {
        store
    } else {
        decoded_into(received_into(store, events.drop_last()), events.last().key, events.last().bytes)
    }
}

/// Every received payload of `events` decoded into its resource.
pub open spec fn all_decode(store: Map<u64, WireValueView>, events: Seq<PumpEvent>) -> bool
    decreases events.len(),
{
    events.len() == 0 || (all_decode(store, events.drop_last()) && decodes_into(
        received_into(store, events.drop_last()),
        events.last().key,
        events.last().bytes,
    ))
}

/// The transport calls a pump over `sends` then `recvs` made, and what it
/// did to the resources, by its outcome. On success: every send, carrying
/// its resource's packed bytes, then every receive, in registration order,
/// each received payload decoded into its resource. A failed send ends the
/// pump at that send, before any receive and with the resources untouched;
/// its error reports that payload's length. A failed receive ends it after
/// the receives before it. A payload that does not decode ends it after its
/// own receive, leaving its resource as it was; the error reports the
/// payload's length and wraps the decode error of those bytes as the
/// resource's type.
pub open spec fn pump_calls<T>(
    sends: Seq<PumpSlot>,
    recvs: Seq<PumpSlot>,
    store_before: Map<u64, WireValueView>,
    store_after: Map<u64, WireValueView>,
    before: Seq<PumpEvent>,
    after: Seq<PumpEvent>,
    r: Result<T, RemotePumpError>,
) -> bool {
    let received = after.subrange((before.len() + sends.len()) as int, after.len() as int);
    match r {
        Ok(_) => {
            &&& pump_logged(before, after, store_before, sends, recvs, sends.len() as int, recvs.len() as int)
            &&& all_decode(store_before, received)
            &&& store_after == received_into(store_before, received)
        },
        Err(RemotePumpError::Transport(e)) => match e@.direction {
            RemotePumpDirection::Send => {
                &&& pump_logged(before, after, store_before, sends, recvs, e@.slot_index + 1, 0)
                &&& e@.payload_len == Some(after.last().bytes.len() as usize)
                &&& store_after == store_before
            },
            RemotePumpDirection::Recv => {
                &&& pump_logged(
                    before,
                    after,
                    store_before,
                    sends,
                    recvs,
                    sends.len() as int,
                    e@.slot_index as int,
                )
                &&& all_decode(store_before, received)
                &&& store_after == received_into(store_before, received)
            },
        },
        Err(RemotePumpError::Unpack(e)) => {
            &&& pump_logged(before, after, store_before, sends, recvs, sends.len() as int, e@.recv_index + 1)
            &&& all_decode(store_before, received.drop_last())
            &&& !decodes_into(
                received_into(store_before, received.drop_last()),
                after.last().key,
                after.last().bytes,
            )
            &&& store_after == received_into(store_before, received.drop_last())
            &&& e@.payload_len == after.last().bytes.len()
            &&& decode_failure(
                received_into(store_before, received.drop_last()),
                after.last().key,
                after.last().bytes,
                e@.source,
            )
        },
    }
}

/// `v` with its coherence state replaced by `c`.
pub open spec fn with_coherence(v: MirrorModel, c: Map<u64, RemoteResourceCoherence>) -> MirrorModel {
    MirrorModel {
        name: v.name,
        sends_at_setup: v.sends_at_setup,
        recvs_at_setup: v.recvs_at_setup,
        sends_each_iter: v.sends_each_iter,
        recvs_each_iter: v.recvs_each_iter,
        coherence: c,
        store: v.store,
        log: v.log,
    }
}

/// Every pumped resource has coherence state, and every received one is
/// marked as populated by a receive pump.
pub open spec fn mirror_wf(v: MirrorModel) -> bool {
    &&& slots_tracked(v.coherence, v.sends_at_setup, false)
    &&& slots_tracked(v.coherence, v.sends_each_iter, false)
    &&& slots_tracked(v.coherence, v.recvs_at_setup, true)
    &&& slots_tracked(v.coherence, v.recvs_each_iter, true)
}

/// The state a resource starts in when a send pump registers it.
pub open spec fn tracking(m: Map<u64, RemoteResourceCoherence>, key: u64) -> Map<
    u64,
    RemoteResourceCoherence,
> {
    if m.dom().contains(key) {
        m
    } else {
        m.insert(key, RemoteResourceCoherence { receives: false, fresh: false, dirty: false })
    }
}

/// The state a resource is in once a receive pump registers it: received,
/// not fresh, its dirty flag kept.
pub open spec fn receiving(m: Map<u64, RemoteResourceCoherence>, key: u64) -> Map<
    u64,
    RemoteResourceCoherence,
> {
    m.insert(
        key,
        RemoteResourceCoherence {
            receives: true,
            fresh: false,
            dirty: m.dom().contains(key) && m[key].dirty,
        },
    )
}

/// Whether reading the resource under `key` is refused as stale: it is
/// populated by a receive pump whose most recent run did not complete.
pub open spec fn read_refused(m: Map<u64, RemoteResourceCoherence>, key: u64) -> bool {
    m.dom().contains(key) && m[key].receives && !m[key].fresh
}

/// The text of a stale-read refusal.
pub open spec fn stale_read_text(name: Seq<char>, type_label: Seq<char>) -> Seq<char> {
    "RemoteMirrorPhysics `"@ + name + "`: stale read of `"@ + type_label
        + "`; its receive pump has not completed successfully"@
}

/// Coherence once a per-iteration pump has begun: every resource it receives
/// is stale.
pub open spec fn iter_begun(v: MirrorModel) -> Map<u64, RemoteResourceCoherence> {
    with_fresh(v.coherence, slot_keys(v.recvs_each_iter), false)
}

/// Coherence once a per-iteration pump has sent every payload.
pub open spec fn iter_sent(v: MirrorModel) -> Map<u64, RemoteResourceCoherence> {
    with_clean(iter_begun(v), slot_keys(v.sends_each_iter))
}

/// Coherence once a per-iteration pump has completed.
pub open spec fn iter_done(v: MirrorModel) -> Map<u64, RemoteResourceCoherence> {
    with_fresh(iter_sent(v), slot_keys(v.recvs_each_iter), true)
}

/// Coherence once the setup pump has sent every payload: what it sent is
/// clean and what it receives is stale.
pub open spec fn setup_sent(v: MirrorModel) -> Map<u64, RemoteResourceCoherence> {
    with_fresh(with_clean(v.coherence, slot_keys(v.sends_at_setup)), slot_keys(v.recvs_at_setup), false)
}

/// Coherence once the setup pump has completed.
pub open spec fn setup_done(v: MirrorModel) -> Map<u64, RemoteResourceCoherence> {
    with_fresh(setup_sent(v), slot_keys(v.recvs_at_setup), true)
}

/// What a pump of `phase` over `sends` and `recvs` reports, and the coherence
/// it leaves: unchanged from `at_send` when a send fails, `at_recv` when a
/// receive or a decode fails, `done` on success.
pub open spec fn pump_outcome<T>(
    name: Seq<char>,
    phase: RemotePumpPhase,
    sends: Seq<PumpSlot>,
    recvs: Seq<PumpSlot>,
    at_send: Map<u64, RemoteResourceCoherence>,
    at_recv: Map<u64, RemoteResourceCoherence>,
    done: Map<u64, RemoteResourceCoherence>,
    after: Map<u64, RemoteResourceCoherence>,
    r: Result<T, RemotePumpError>,
) -> bool {
    match r {
        Ok(_) => after == done,
        Err(RemotePumpError::Transport(e)) => {
            &&& e@.mirror_name == name
            &&& e@.phase == phase
            &&& match e@.direction {
                RemotePumpDirection::Send => {
                    &&& e@.slot_index < sends.len()
                    &&& e@.payload_len is Some
                    &&& after == at_send
                },
                RemotePumpDirection::Recv => {
                    &&& e@.slot_index < recvs.len()
                    &&& e@.payload_len is None
                    &&& after == at_recv
                },
            }
        },
        Err(RemotePumpError::Unpack(e)) => {
            &&& e@.mirror_name == name
            &&& e@.phase == phase
            &&& e@.recv_index < recvs.len()
            &&& e@.resource_type == recvs[e@.recv_index as int].type_label@
            &&& after == at_recv
        },
    }
}

/// A sub-App backed by a [`Transport`] to a peer process: its resources, held
/// in a [`WireStore`], are pumped to and from the peer by the
/// one-shot setup pump ([`try_prepare`](Self::try_prepare)) and the
/// per-iteration pump ([`try_step`](Self::try_step)).
pub struct RemoteMirrorPhysics {
    name: String,
    store: WireStore,
    transport: Box<dyn Transport>,
    senders_at_setup: Vec<PumpSlot>,
    receivers_at_setup: Vec<PumpSlot>,
    senders_each_iter: Vec<PumpSlot>,
    receivers_each_iter: Vec<PumpSlot>,
    coherence: HashMap<u64, RemoteResourceCoherence>,
    log: Ghost<Seq<PumpEvent>>,
}

impl View for RemoteMirrorPhysics {
    type V = MirrorModel;

    closed spec fn view(&self) -> MirrorModel {
        MirrorModel {
            name: self.name@,
            sends_at_setup: self.senders_at_setup@,
            recvs_at_setup: self.receivers_at_setup@,
            sends_each_iter: self.senders_each_iter@,
            recvs_each_iter: self.receivers_each_iter@,
            coherence: self.coherence@,
            store: self.store@,
            log: self.log@,
        }
    }
}

impl RemoteMirrorPhysics {
    /// A mirror named `name` over the resources of `store` and `transport`,
    /// with no pumps.
    pub fn new(name: &str, store: WireStore, transport: Box<dyn Transport>) -> (m: Self)
        ensures
            m@.name == name@,
            m@.sends_at_setup.len() == 0,
            m@.recvs_at_setup.len() == 0,
            m@.sends_each_iter.len() == 0,
            m@.recvs_each_iter.len() == 0,
            m@.coherence == Map::<u64, RemoteResourceCoherence>::empty(),
            m@.store == store@,
            m@.log == Seq::<PumpEvent>::empty(),
            mirror_wf(m@),
    {
        RemoteMirrorPhysics {
            name: owned(name),
            store,
            transport,
            senders_at_setup: Vec::new(),
            receivers_at_setup: Vec::new(),
            senders_each_iter: Vec::new(),
            receivers_each_iter: Vec::new(),
            coherence: HashMap::new(),
            log: Ghost(Seq::empty()),
        }
    }

    /// Stable identifier of this mirror.
    pub fn name(&self) -> (s: &str)
        ensures
            s@ == self@.name,
    {
        self.name.as_str()
    }
    /// Put the resource under `key` into the coherence table, unless it is
    /// there already.
    fn track(&mut self, key: u64)
        ensures
            final(self)@ == with_coherence(old(self)@, tracking(old(self)@.coherence, key)),
    {
        if !self.coherence.contains_key(&key) {
            self.coherence.insert(key, RemoteResourceCoherence { receives: false, fresh: false, dirty: false });
        }
    }

    /// Mark the resource under `key` as populated by a receive pump, not yet
    /// fresh.
    fn register_receiver(&mut self, key: u64)
        ensures
            final(self)@ == with_coherence(old(self)@, receiving(old(self)@.coherence, key)),
    {
        let dirty = match self.coherence.get(&key) {
            Some(state) => state.dirty,
            None => false,
        };
        self.coherence.insert(key, RemoteResourceCoherence { receives: true, fresh: false, dirty });
    }

    /// Register the resource of `slot` as a setup-time send. Its default
    /// value is put into the store if none is there.
    pub fn add_send_at_setup(&mut self, slot: PumpSlot)
        ensures
            final(self)@ == (MirrorModel {
                sends_at_setup: old(self)@.sends_at_setup.push(slot),
                coherence: tracking(old(self)@.coherence, slot.key),
                store: ensured(old(self)@.store, slot.key, slot.kind),
                ..old(self)@
            }),
            mirror_wf(old(self)@) ==> mirror_wf(final(self)@),
    {
        self.store.ensure_resource(slot.key, slot.kind);
        self.track(slot.key);
        self.senders_at_setup.push(slot);
    }

    /// Register the resource of `slot` as a setup-time receive.
    pub fn add_recv_at_setup(&mut self, slot: PumpSlot)
        ensures
            final(self)@ == (MirrorModel {
                recvs_at_setup: old(self)@.recvs_at_setup.push(slot),
                coherence: receiving(old(self)@.coherence, slot.key),
                store: ensured(old(self)@.store, slot.key, slot.kind),
                ..old(self)@
            }),
            mirror_wf(old(self)@) ==> mirror_wf(final(self)@),
    {
        self.store.ensure_resource(slot.key, slot.kind);
        self.register_receiver(slot.key);
        self.receivers_at_setup.push(slot);
    }

    /// Register the resource of `slot` as a per-iteration send.
    pub fn add_send_each_iter(&mut self, slot: PumpSlot)
        ensures
            final(self)@ == (MirrorModel {
                sends_each_iter: old(self)@.sends_each_iter.push(slot),
                coherence: tracking(old(self)@.coherence, slot.key),
                store: ensured(old(self)@.store, slot.key, slot.kind),
                ..old(self)@
            }),
            mirror_wf(old(self)@) ==> mirror_wf(final(self)@),
    {
        self.store.ensure_resource(slot.key, slot.kind);
        self.track(slot.key);
        self.senders_each_iter.push(slot);
    }

    /// Register the resource of `slot` as a per-iteration receive.
    pub fn add_recv_each_iter(&mut self, slot: PumpSlot)
        ensures
            final(self)@ == (MirrorModel {
                recvs_each_iter: old(self)@.recvs_each_iter.push(slot),
                coherence: receiving(old(self)@.coherence, slot.key),
                store: ensured(old(self)@.store, slot.key, slot.kind),
                ..old(self)@
            }),
            mirror_wf(old(self)@) ==> mirror_wf(final(self)@),
    {
        self.store.ensure_resource(slot.key, slot.kind);
        self.register_receiver(slot.key);
        self.receivers_each_iter.push(slot);
    }

    /// Register the resource under `key`, of wire type `kind`, on the mirror
    /// without any pump: its default value is put into the store if none is
    /// there, and no pump or coherence state changes.
    pub fn add_local_resource(&mut self, key: u64, kind: WireKind)
        ensures
            final(self)@ == (MirrorModel { store: ensured(old(self)@.store, key, kind), ..old(self)@ }),
    {
        self.store.ensure_resource(key, kind);
    }

    /// The mirror's resources.
    pub fn store(&self) -> (s: &WireStore)
        ensures
            s@ == self@.store,
    {
        &self.store
    }

    /// The coherence state of the resource under `key`, if it takes part in
    /// a pump. Local: never touches the transport.
    pub fn resource_coherence(&self, key: u64) -> (r: Option<RemoteResourceCoherence>)
        ensures
            r == (if self@.coherence.dom().contains(key) {
                Some(self@.coherence[key])
            } else {
                None::<RemoteResourceCoherence>
            }),
    {
        match self.coherence.get(&key) {
            Some(state) => Some(*state),
            None => None,
        }
    }

    /// Note that local code has written the resource under `key`.
    pub fn mark_resource_written(&mut self, key: u64)
        ensures
            final(self)@ == with_coherence(
                old(self)@,
                if old(self)@.coherence.dom().contains(key) {
                    old(self)@.coherence.insert(
                        key,
                        RemoteResourceCoherence {
                            receives: old(self)@.coherence[key].receives,
                            fresh: old(self)@.coherence[key].fresh,
                            dirty: true,
                        },
                    )
                } else {
                    old(self)@.coherence
                },
            ),
            mirror_wf(old(self)@) ==> mirror_wf(final(self)@),
    {
        let cur = match self.coherence.get(&key) {
            Some(state) => Some(*state),
            None => None,
        };
        match cur {
            Some(state) => {
                self.coherence.insert(
                    key,
                    RemoteResourceCoherence { receives: state.receives, fresh: state.fresh, dirty: true },
                );
            },
            None => {},
        }
    }

    /// Refuse a read of the resource under `key` (whose type is named
    /// `type_label`) while its receive pump has not completed.
    pub fn validate_resource_read(&self, key: u64, type_label: &str) -> (r: Result<(), String>)
        ensures
            r is Err <==> read_refused(self@.coherence, key),
            r matches Err(s) ==> s@ == stale_read_text(self@.name, type_label@),
    {
        let refused = match self.coherence.get(&key) {
            Some(state) => state.receives && !state.fresh,
            None => false,
        };
        if refused {
            let s = join(owned("RemoteMirrorPhysics `"), self.name.as_str());
            let s = join(s, "`: stale read of `");
            let s = join(s, type_label);
            Err(join(s, "`; its receive pump has not completed successfully"))
        } else {
            Ok(())
        }
    }

    /// A mirror never reports done: the peer steps on its own.
    pub fn is_done(&self) -> (b: bool)
        ensures
            !b,
    {
        false
    }

    /// Cleanup is the peer's own business; the wire just stops.
    pub fn cleanup(&mut self)
        ensures
            final(self)@ == old(self)@,
    {
    }
    /// The one-shot setup pump: send every setup payload in registration
    /// order, then receive every setup payload and decode it into its
    /// resource. A transport failure or a payload that does not decode stops
    /// the pump with a diagnostic naming the slot.
    pub fn try_prepare(&mut self) -> (r: Result<(), RemotePumpError>)
        ensures
            pump_outcome(
                old(self)@.name,
                RemotePumpPhase::Setup,
                old(self)@.sends_at_setup,
                old(self)@.recvs_at_setup,
                old(self)@.coherence,
                setup_sent(old(self)@),
                setup_done(old(self)@),
                final(self)@.coherence,
                r,
            ),
            pump_calls(
                old(self)@.sends_at_setup,
                old(self)@.recvs_at_setup,
                old(self)@.store,
                final(self)@.store,
                old(self)@.log,
                final(self)@.log,
                r,
            ),
            final(self)@ == with_log(
                with_store(with_coherence(old(self)@, final(self)@.coherence), final(self)@.store),
                final(self)@.log,
            ),
            mirror_wf(old(self)@) ==> mirror_wf(final(self)@),
    {
        proof {
            lemma_setup_keeps_wf(self@);
        }
        let ghost start = self@;
        assert(start.log.subrange(0, start.log.len() as int) =~= start.log);
        let n = self.senders_at_setup.len();
        let m = self.receivers_at_setup.len();
        let mut slot_index: usize = 0;
        while slot_index < n
            invariant
                n == self.senders_at_setup.len(),
                m == self.receivers_at_setup.len(),
                start == old(self)@,
                self@ == with_log(start, self@.log),
                self@.store == start.store,
                pump_logged(start.log, self@.log, start.store, start.sends_at_setup, start.recvs_at_setup, slot_index as int, 0),
            decreases n - slot_index,
        {
            let key = self.senders_at_setup[slot_index].key;
            let payload = self.store.pack_resource(key);
            proof {
                let ghost before = self.log@;
                self.log@ = self.log@.push(PumpEvent { sent: true, key, bytes: payload@ });
                assert(self.log@.subrange(0, start.log.len() as int) =~= before.subrange(0, start.log.len() as int));
            }
            match self.transport.try_send(payload.as_slice()) {
                Ok(()) => {},
                Err(source) => {
                    let e = RemoteTransportError::send(
                        self.name.as_str(),
                        RemotePumpPhase::Setup,
                        slot_index,
                        payload.len(),
                        source,
                    );
                    return Err(RemotePumpError::Transport(e));
                },
            }
            slot_index += 1;
        }
        mark_clean(&mut self.coherence, &self.senders_at_setup);
        mark_fresh(&mut self.coherence, &self.receivers_at_setup, false);
        let mut recv_index: usize = 0;
        while recv_index < m
            invariant
                n == self.senders_at_setup.len(),
                m == self.receivers_at_setup.len(),
                start == old(self)@,
                self@ == with_log(with_store(with_coherence(start, setup_sent(start)), self@.store), self@.log),
                mirror_wf(start) ==> mirror_wf(with_coherence(start, setup_sent(start))),
                pump_logged(start.log, self@.log, start.store, start.sends_at_setup, start.recvs_at_setup, n as int, recv_index as int),
                all_decode(start.store, self@.log.subrange(start.log.len() + n, self@.log.len() as int)),
                self@.store == received_into(start.store, self@.log.subrange(start.log.len() + n, self@.log.len() as int)),
            decreases m - recv_index,
        {
            let slot = self.receivers_at_setup[recv_index];
            let body = match self.transport.try_recv() {
                Ok(body) => body,
                Err(source) => {
                    let e = RemoteTransportError::recv(
                        self.name.as_str(),
                        RemotePumpPhase::Setup,
                        recv_index,
                        source,
                    );
                    return Err(RemotePumpError::Transport(e));
                },
            };
            proof {
                let ghost before = self.log@;
                self.log@ = self.log@.push(PumpEvent { sent: false, key: slot.key, bytes: body@ });
                assert(self.log@.subrange(0, start.log.len() as int) =~= before.subrange(0, start.log.len() as int));
                let ghost rec_old = before.subrange(start.log.len() + n, before.len() as int);
                let ghost rec_new = self.log@.subrange(start.log.len() + n, self.log@.len() as int);
                assert(rec_new.drop_last() =~= rec_old);
                assert(rec_new.last() == PumpEvent { sent: false, key: slot.key, bytes: body@ });
            }
            match self.store.unpack_into_resource(slot.key, body.as_slice()) {
                Ok(()) => {},
                Err(source) => {
                    let e = RemoteUnpackError::new(
                        self.name.as_str(),
                        RemotePumpPhase::Setup,
                        recv_index,
                        slot.type_label,
                        body.len(),
                        source,
                    );
                    return Err(RemotePumpError::Unpack(e));
                },
            }
            recv_index += 1;
        }
        mark_fresh(&mut self.coherence, &self.receivers_at_setup, true);
        Ok(())
    }

    /// The per-iteration pump. Every resource it receives turns stale before
    /// anything can fail, so an early return fails closed on later reads;
    /// then every per-iteration payload is sent in registration order, and
    /// every per-iteration payload is received and decoded into its resource.
    pub fn try_step(&mut self) -> (r: Result<StepResult, RemotePumpError>)
        ensures
            pump_outcome(
                old(self)@.name,
                RemotePumpPhase::EachIter,
                old(self)@.sends_each_iter,
                old(self)@.recvs_each_iter,
                iter_begun(old(self)@),
                iter_sent(old(self)@),
                iter_done(old(self)@),
                final(self)@.coherence,
                r,
            ),
            pump_calls(
                old(self)@.sends_each_iter,
                old(self)@.recvs_each_iter,
                old(self)@.store,
                final(self)@.store,
                old(self)@.log,
                final(self)@.log,
                r,
            ),
            r matches Ok(s) ==> s.completed_full_step,
            final(self)@ == with_log(
                with_store(with_coherence(old(self)@, final(self)@.coherence), final(self)@.store),
                final(self)@.log,
            ),
            mirror_wf(old(self)@) ==> mirror_wf(final(self)@),
    {
        proof {
            lemma_iter_keeps_wf(self@);
        }
        let ghost start = self@;
        assert(start.log.subrange(0, start.log.len() as int) =~= start.log);
        mark_fresh(&mut self.coherence, &self.receivers_each_iter, false);
        let n = self.senders_each_iter.len();
        let m = self.receivers_each_iter.len();
        let mut slot_index: usize = 0;
        while slot_index < n
            invariant
                n == self.senders_each_iter.len(),
                m == self.receivers_each_iter.len(),
                start == old(self)@,
                self@ == with_log(with_coherence(start, iter_begun(start)), self@.log),
                mirror_wf(start) ==> mirror_wf(with_coherence(start, iter_begun(start))),
                self@.store == start.store,
                pump_logged(start.log, self@.log, start.store, start.sends_each_iter, start.recvs_each_iter, slot_index as int, 0),
            decreases n - slot_index,
        {
            let key = self.senders_each_iter[slot_index].key;
            let payload = self.store.pack_resource(key);
            proof {
                let ghost before = self.log@;
                self.log@ = self.log@.push(PumpEvent { sent: true, key, bytes: payload@ });
                assert(self.log@.subrange(0, start.log.len() as int) =~= before.subrange(0, start.log.len() as int));
            }
            match self.transport.try_send(payload.as_slice()) {
                Ok(()) => {},
                Err(source) => {
                    let e = RemoteTransportError::send(
                        self.name.as_str(),
                        RemotePumpPhase::EachIter,
                        slot_index,
                        payload.len(),
                        source,
                    );
                    return Err(RemotePumpError::Transport(e));
                },
            }
            slot_index += 1;
        }
        mark_clean(&mut self.coherence, &self.senders_each_iter);
        let mut recv_index: usize = 0;
        while recv_index < m
            invariant
                n == self.senders_each_iter.len(),
                m == self.receivers_each_iter.len(),
                start == old(self)@,
                self@ == with_log(with_store(with_coherence(start, iter_sent(start)), self@.store), self@.log),
                mirror_wf(start) ==> mirror_wf(with_coherence(start, iter_sent(start))),
                pump_logged(start.log, self@.log, start.store, start.sends_each_iter, start.recvs_each_iter, n as int, recv_index as int),
                all_decode(start.store, self@.log.subrange(start.log.len() + n, self@.log.len() as int)),
                self@.store == received_into(start.store, self@.log.subrange(start.log.len() + n, self@.log.len() as int)),
            decreases m - recv_index,
        {
            let slot = self.receivers_each_iter[recv_index];
            let body = match self.transport.try_recv() {
                Ok(body) => body,
                Err(source) => {
                    let e = RemoteTransportError::recv(
                        self.name.as_str(),
                        RemotePumpPhase::EachIter,
                        recv_index,
                        source,
                    );
                    return Err(RemotePumpError::Transport(e));
                },
            };
            proof {
                let ghost before = self.log@;
                self.log@ = self.log@.push(PumpEvent { sent: false, key: slot.key, bytes: body@ });
                assert(self.log@.subrange(0, start.log.len() as int) =~= before.subrange(0, start.log.len() as int));
                let ghost rec_old = before.subrange(start.log.len() + n, before.len() as int);
                let ghost rec_new = self.log@.subrange(start.log.len() + n, self.log@.len() as int);
                assert(rec_new.drop_last() =~= rec_old);
                assert(rec_new.last() == PumpEvent { sent: false, key: slot.key, bytes: body@ });
            }
            match self.store.unpack_into_resource(slot.key, body.as_slice()) {
                Ok(()) => {},
                Err(source) => {
                    let e = RemoteUnpackError::new(
                        self.name.as_str(),
                        RemotePumpPhase::EachIter,
                        recv_index,
                        slot.type_label,
                        body.len(),
                        source,
                    );
                    return Err(RemotePumpError::Unpack(e));
                },
            }
            recv_index += 1;
        }
        mark_fresh(&mut self.coherence, &self.receivers_each_iter, true);
        Ok(StepResult::default())
    }
}

/// Changing only the flags of a mirror's resources keeps it well formed.
proof fn lemma_flags_keep_wf(v: MirrorModel, keys: Seq<u64>, fresh: bool)
    requires
        mirror_wf(v),
    ensures
        mirror_wf(with_coherence(v, with_fresh(v.coherence, keys, fresh))),
        mirror_wf(with_coherence(v, with_clean(v.coherence, keys))),
{
}

/// Every state the setup pump can leave a well-formed mirror in is well formed.
proof fn lemma_setup_keeps_wf(v: MirrorModel)
    ensures
        mirror_wf(v) ==> mirror_wf(with_coherence(v, setup_sent(v))),
        mirror_wf(v) ==> mirror_wf(with_coherence(v, setup_done(v))),
{
    if mirror_wf(v) {
        let c1 = with_clean(v.coherence, slot_keys(v.sends_at_setup));
        lemma_flags_keep_wf(v, slot_keys(v.sends_at_setup), false);
        lemma_flags_keep_wf(with_coherence(v, c1), slot_keys(v.recvs_at_setup), false);
        let w = with_coherence(v, setup_sent(v));
        lemma_flags_keep_wf(w, slot_keys(v.recvs_at_setup), true);
    }
}

/// Every state the per-iteration pump can leave a well-formed mirror in is
/// well formed.
proof fn lemma_iter_keeps_wf(v: MirrorModel)
    ensures
        mirror_wf(v) ==> mirror_wf(with_coherence(v, iter_begun(v))),
        mirror_wf(v) ==> mirror_wf(with_coherence(v, iter_sent(v))),
        mirror_wf(v) ==> mirror_wf(with_coherence(v, iter_done(v))),
{
    if mirror_wf(v) {
        lemma_flags_keep_wf(v, slot_keys(v.recvs_each_iter), false);
        let w1 = with_coherence(v, iter_begun(v));
        lemma_flags_keep_wf(w1, slot_keys(v.sends_each_iter), false);
        let w2 = with_coherence(v, iter_sent(v));
        lemma_flags_keep_wf(w2, slot_keys(v.recvs_each_iter), true);
    }
}

/// A per-iteration pump that fails, at whatever slot and for whatever reason,
/// leaves every resource it receives stale: a later read of any of them is
/// refused.
pub proof fn law_failed_step_fails_closed(
    v: MirrorModel,
    after: Map<u64, RemoteResourceCoherence>,
    e: RemotePumpError,
    key: u64,
)
    requires
        mirror_wf(v),
        pump_outcome(
            v.name,
            RemotePumpPhase::EachIter,
            v.sends_each_iter,
            v.recvs_each_iter,
            iter_begun(v),
            iter_sent(v),
            iter_done(v),
            after,
            Err::<StepResult, RemotePumpError>(e),
        ),
        slot_keys(v.recvs_each_iter).contains(key),
    ensures
        read_refused(after, key),
{
    let i = choose|i: int| 0 <= i < slot_keys(v.recvs_each_iter).len() && slot_keys(v.recvs_each_iter)[i] == key;
    assert(v.recvs_each_iter[i].key == key);
}

/// A per-iteration pump that completes leaves every resource it received
/// fresh, so readable, and every resource it sent clean.
pub proof fn law_completed_step_is_coherent(
    v: MirrorModel,
    after: Map<u64, RemoteResourceCoherence>,
    s: StepResult,
    key: u64,
)
    requires
        mirror_wf(v),
        pump_outcome(
            v.name,
            RemotePumpPhase::EachIter,
            v.sends_each_iter,
            v.recvs_each_iter,
            iter_begun(v),
            iter_sent(v),
            iter_done(v),
            after,
            Ok::<StepResult, RemotePumpError>(s),
        ),
    ensures
        slot_keys(v.recvs_each_iter).contains(key) ==> after.dom().contains(key) && after[key].fresh
            && !read_refused(after, key),
        slot_keys(v.sends_each_iter).contains(key) ==> after.dom().contains(key) && !after[key].dirty,
{
    if slot_keys(v.recvs_each_iter).contains(key) {
        let i = choose|i: int| 0 <= i < slot_keys(v.recvs_each_iter).len() && slot_keys(v.recvs_each_iter)[i] == key;
        assert(v.recvs_each_iter[i].key == key);
    }
    if slot_keys(v.sends_each_iter).contains(key) {
        let i = choose|i: int| 0 <= i < slot_keys(v.sends_each_iter).len() && slot_keys(v.sends_each_iter)[i] == key;
        assert(v.sends_each_iter[i].key == key);
    }
}

/// A setup pump that completes leaves every resource it received fresh, so
/// readable, and every resource it sent clean.
pub proof fn law_completed_prepare_is_coherent(
    v: MirrorModel,
    after: Map<u64, RemoteResourceCoherence>,
    key: u64,
)
    requires
        mirror_wf(v),
        pump_outcome(
            v.name,
            RemotePumpPhase::Setup,
            v.sends_at_setup,
            v.recvs_at_setup,
            v.coherence,
            setup_sent(v),
            setup_done(v),
            after,
            Ok::<(), RemotePumpError>(()),
        ),
    ensures
        slot_keys(v.recvs_at_setup).contains(key) ==> after.dom().contains(key) && after[key].fresh
            && !read_refused(after, key),
        slot_keys(v.sends_at_setup).contains(key) && !slot_keys(v.recvs_at_setup).contains(key)
            ==> after.dom().contains(key) && !after[key].dirty,
{
    if slot_keys(v.recvs_at_setup).contains(key) {
        let i = choose|i: int| 0 <= i < slot_keys(v.recvs_at_setup).len() && slot_keys(v.recvs_at_setup)[i] == key;
        assert(v.recvs_at_setup[i].key == key);
    }
    if slot_keys(v.sends_at_setup).contains(key) {
        let i = choose|i: int| 0 <= i < slot_keys(v.sends_at_setup).len() && slot_keys(v.sends_at_setup)[i] == key;
        assert(v.sends_at_setup[i].key == key);
    }
}

/// A per-iteration pump, whatever its outcome, leaves the coherence state of
/// every resource outside its pump lists as it was.
pub proof fn law_step_touches_only_pumped(
    v: MirrorModel,
    after: Map<u64, RemoteResourceCoherence>,
    r: Result<StepResult, RemotePumpError>,
    key: u64,
)
    requires
        pump_outcome(
            v.name,
            RemotePumpPhase::EachIter,
            v.sends_each_iter,
            v.recvs_each_iter,
            iter_begun(v),
            iter_sent(v),
            iter_done(v),
            after,
            r,
        ),
        !slot_keys(v.sends_each_iter).contains(key),
        !slot_keys(v.recvs_each_iter).contains(key),
    ensures
        after.dom().contains(key) == v.coherence.dom().contains(key),
        v.coherence.dom().contains(key) ==> after[key] == v.coherence[key],
{
}

} // verus!
