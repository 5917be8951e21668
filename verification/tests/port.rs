use grass::port::Port;

#[test]
fn port_is_empty_until_published() {
    let port: Port<u32> = Port::new();
    assert!(!port.is_published());
    assert_eq!(port.get(), None);
    let d: Port<u32> = Port::default();
    assert!(!d.is_published());
}

#[test]
fn last_writer_wins() {
    let mut port = Port::new();
    port.set(1.5f64);
    port.set(2.5f64);
    assert!(port.is_published());
    assert_eq!(port.get(), Some(&2.5));
}
