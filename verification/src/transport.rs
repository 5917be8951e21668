//! Cross-process [`Transport`] — a byte channel between two coupled
//! binaries.
//!
//! `try_send(&[u8])` ships one opaque payload; `try_recv() -> Vec<u8>` blocks
//! until the peer ships one. Framing, ordering and serialization are the
//! caller's problem; a transport just shuffles bytes.

use crate::text::{join, owned};
use std::sync::mpsc::{Receiver, Sender};
use std::sync::Mutex;
use vstd::prelude::*;

verus! {

/// Transport operation that failed.
#[derive(Debug, Clone, Copy, PartialEq, Eq, Structural)]
pub enum TransportOperation {
    /// Sending one payload to the peer failed.
    Send,
    /// Receiving one payload from the peer failed.
    Recv,
}

impl TransportOperation {
    /// The word for the operation: `send` or `recv`.
    pub fn label(&self) -> (s: &'static str)
        ensures
            s@ == operation_label(*self),
    {
        proof {
            reveal_strlit("send");
            reveal_strlit("recv");
        }
        match self {
            TransportOperation::Send => "send",
            TransportOperation::Recv => "recv",
        }
    }
}

/// The word for a transport operation.
pub open spec fn operation_label(op: TransportOperation) -> Seq<char> {
    match op {
        TransportOperation::Send => seq!['s', 'e', 'n', 'd'],
        TransportOperation::Recv => seq!['r', 'e', 'c', 'v'],
    }
}

/// Actionable error from a byte transport.
#[derive(Debug, Clone, PartialEq, Eq)]
pub struct TransportError {
    transport: String,
    operation: TransportOperation,
    detail: String,
}

/// Mathematical model of a [`TransportError`].
pub struct TransportErrorView {
    pub transport: Seq<char>,
    pub operation: TransportOperation,
    pub detail: Seq<char>,
}

impl View for TransportError {
    type V = TransportErrorView;

    closed spec fn view(&self) -> TransportErrorView {
        TransportErrorView {
            transport: self.transport@,
            operation: self.operation,
            detail: self.detail@,
        }
    }
}

/// The text `"{transport} {operation} failed: {detail}"`.
pub open spec fn transport_error_text(e: TransportErrorView) -> Seq<char> {
    e.transport + seq![' '] + operation_label(e.operation) + seq![
        ' ',
        'f',
        'a',
        'i',
        'l',
        'e',
        'd',
        ':',
        ' ',
    ] + e.detail
}

impl TransportError {
    /// Construct a transport error from a named transport, failed operation,
    /// and implementation-specific detail.
    pub fn new(transport: &str, operation: TransportOperation, detail: &str) -> (e: Self)
        ensures
            e@ == (TransportErrorView { transport: transport@, operation, detail: detail@ }),
    {
        TransportError { transport: owned(transport), operation, detail: owned(detail) }
    }

    /// Human-readable transport name.
    pub fn transport(&self) -> (s: &str)
        ensures
            s@ == self@.transport,
    {
        self.transport.as_str()
    }

    /// Operation that failed.
    pub fn operation(&self) -> (op: TransportOperation)
        ensures
            op == self@.operation,
    {
        self.operation
    }

    /// Implementation-specific failure detail.
    pub fn detail(&self) -> (s: &str)
        ensures
            s@ == self@.detail,
    {
        self.detail.as_str()
    }

    /// The diagnostic text: `"{transport} {operation} failed: {detail}"`.
    pub fn message(&self) -> (s: String)
        ensures
            s@ == transport_error_text(self@),
    {
        proof {
            reveal_strlit(" ");
            reveal_strlit(" failed: ");
        }
        let s = join(owned(self.transport.as_str()), " ");
        let s = join(s, self.operation.label());
        let s = join(s, " failed: ");
        let s = join(s, self.detail.as_str());
        s
    }
}

/// A bidirectional byte channel between this process and a peer.
///
/// Implementations decide how bytes travel; nothing is promised about what a
/// receive returns, which depends on the peer.
pub trait Transport: Send + Sync {
    /// Human-readable transport name for diagnostics.
    fn transport_name(&self) -> &str;

    /// Send one payload to the peer.
    fn try_send(&self, payload: &[u8]) -> Result<(), TransportError>;

    /// Block until the peer sends a payload; return its bytes.
    fn try_recv(&self) -> Result<Vec<u8>, TransportError>;
}

// ─── LocalTransport: in-memory bidirectional channel ─────────────────────────

#[verifier::external_type_specification]
#[verifier::external_body]
#[verifier::reject_recursive_types(T)]
pub struct ExMutex<T: ?Sized>(Mutex<T>);

#[verifier::external_type_specification]
#[verifier::external_body]
#[verifier::reject_recursive_types(T)]
pub struct ExSender<T>(Sender<T>);

#[verifier::external_type_specification]
#[verifier::external_body]
#[verifier::reject_recursive_types(T)]
pub struct ExReceiver<T>(Receiver<T>);

/// `std::sync::mpsc::channel`: a fresh connected sender/receiver pair.
#[verifier::external_body]
fn byte_channel() -> (Sender<Vec<u8>>, Receiver<Vec<u8>>) {
    std::sync::mpsc::channel::<Vec<u8>>()
}

/// `Mutex::new`: a mutex guarding `value`.
#[verifier::external_body]
fn guarded<T>(value: T) -> Mutex<T> {
    Mutex::new(value)
}

/// `Sender::send` of a copy of `payload`, under the mutex (which is only ever
/// poisoned by a panic while it is held). Returns whether the receiving end
/// was still alive; that depends on the peer and is not stated.
#[verifier::external_body]
fn send_guarded(tx: &Mutex<Sender<Vec<u8>>>, payload: &[u8]) -> bool {
    tx.lock().unwrap().send(payload.to_vec()).is_ok()
}

/// `Receiver::recv` under the mutex: the next payload the peer sent, or
/// `None` once the sending end has been dropped. What arrives depends on the
/// peer and is not stated.
#[verifier::external_body]
fn recv_guarded(rx: &Mutex<Receiver<Vec<u8>>>) -> Option<Vec<u8>> {
    rx.lock().unwrap().recv().ok()
}

/// Two ends of an in-memory transport, for testing without a real network.
///
/// `LocalTransport::pair()` returns `(server_side, client_side)`; the two
/// behave like a paired socket: what one end sends, the other end receives.
pub struct LocalTransport {
    incoming: Mutex<Receiver<Vec<u8>>>,
    outgoing: Mutex<Sender<Vec<u8>>>,
}

impl LocalTransport {
    /// Returns a paired (server, client) transport.
    pub fn pair() -> (Self, Self) {
        let (s_to_c, c_from_s) = byte_channel();
        let (c_to_s, s_from_c) = byte_channel();
        let server = LocalTransport { incoming: guarded(s_from_c), outgoing: guarded(s_to_c) };
        let client = LocalTransport { incoming: guarded(c_from_s), outgoing: guarded(c_to_s) };
        (server, client)
    }
}

/// The name every [`LocalTransport`] reports.
pub open spec fn local_transport_name() -> Seq<char> {
    seq!['L', 'o', 'c', 'a', 'l', 'T', 'r', 'a', 'n', 's', 'p', 'o', 'r', 't']
}

impl Transport for LocalTransport {
    fn transport_name(&self) -> (s: &str)
        ensures
            s@ == local_transport_name(),
    {
        proof {
            reveal_strlit("LocalTransport");
        }
        "LocalTransport"
    }

    /// Fails only when the peer end has been dropped, with a `send` error
    /// naming this transport.
    fn try_send(&self, payload: &[u8]) -> (r: Result<(), TransportError>)
        ensures
            r matches Err(e) ==> e@ == (TransportErrorView {
                transport: local_transport_name(),
                operation: TransportOperation::Send,
                detail: "peer dropped before it could receive the payload"@,
            }),
    {
        proof {
            reveal_strlit("LocalTransport");
        }
        if send_guarded(&self.outgoing, payload) {
            Ok(())
        } else {
            Err(
                TransportError::new(
                    self.transport_name(),
                    TransportOperation::Send,
                    "peer dropped before it could receive the payload",
                ),
            )
        }
    }

    /// Fails only when the peer end has been dropped, with a `recv` error
    /// naming this transport.
    fn try_recv(&self) -> (r: Result<Vec<u8>, TransportError>)
        ensures
            r matches Err(e) ==> e@ == (TransportErrorView {
                transport: local_transport_name(),
                operation: TransportOperation::Recv,
                detail: "peer dropped before sending a payload"@,
            }),
    {
        match recv_guarded(&self.incoming) {
            Some(bytes) => Ok(bytes),
            None => Err(
                TransportError::new(
                    self.transport_name(),
                    TransportOperation::Recv,
                    "peer dropped before sending a payload",
                ),
            ),
        }
    }
}

} // verus!
