use grass::transport::{LocalTransport, Transport, TransportError, TransportOperation};

#[test]
fn local_transport_pair_delivers_in_both_directions_in_order() {
    let (server, client) = LocalTransport::pair();
    server.try_send(&[1, 2]).unwrap();
    server.try_send(&[3]).unwrap();
    client.try_send(&[9]).unwrap();
    assert_eq!(client.try_recv().unwrap(), vec![1, 2]);
    assert_eq!(client.try_recv().unwrap(), vec![3]);
    assert_eq!(server.try_recv().unwrap(), vec![9]);
    assert_eq!(server.transport_name(), "LocalTransport");
}

#[test]
fn local_transport_reports_a_dropped_peer() {
    let (server, client) = LocalTransport::pair();
    drop(client);
    let err = server.try_send(&[1]).unwrap_err();
    assert_eq!(err.transport(), "LocalTransport");
    assert_eq!(err.operation(), TransportOperation::Send);
    assert_eq!(err.detail(), "peer dropped before it could receive the payload");
    let err = server.try_recv().unwrap_err();
    assert_eq!(err.operation(), TransportOperation::Recv);
    assert_eq!(
        err.message(),
        "LocalTransport recv failed: peer dropped before sending a payload"
    );
}

#[test]
fn transport_error_text_names_transport_operation_and_detail() {
    let err = TransportError::new("Mpi", TransportOperation::Send, "boom");
    assert_eq!(err.transport(), "Mpi");
    assert_eq!(err.detail(), "boom");
    assert_eq!(err.message(), "Mpi send failed: boom");
    assert_eq!(TransportOperation::Send.label(), "send");
    assert_eq!(TransportOperation::Recv.label(), "recv");
}
