use f58mqtt::adapter::{BlockingSocketStack, ErrorKind, NbError, SocketError, SocketId};
use f58mqtt::config::Endpoint;

fn broker() -> Endpoint {
    Endpoint { a: 192, b: 168, c: 1, d: 10, port: 1883 }
}

#[test]
fn second_open_fails() {
    let mut s = BlockingSocketStack::new(broker());
    let id = s.socket().unwrap();
    assert_eq!(id, SocketId(1));
    assert_eq!(
        s.socket(),
        Err(SocketError::UnexpectedSocketId { expected: Some(SocketId(1)), got: None })
    );
    assert_eq!(s.current_socket_id(), Some(SocketId(1)));
    assert_eq!(s.close(id), Ok(()));
    assert_eq!(s.socket(), Ok(SocketId(2)));
    assert_eq!(s.last_socket_id(), 2);
}

#[test]
fn stale_id_fails_everywhere() {
    let mut s = BlockingSocketStack::new(broker());
    let old = s.socket().unwrap();
    s.close(old).unwrap();
    let live = s.socket().unwrap();
    let e = SocketError::UnexpectedSocketId { expected: Some(live), got: Some(old) };
    assert_eq!(s.send(old, 10, 100, 0), Err(NbError::Other(e)));
    assert_eq!(s.receive(old, true, true), Err(NbError::Other(e)));
    assert_eq!(s.connect(old, broker(), true), Err(NbError::Other(e)));
    assert_eq!(s.close(old), Err(e));
    assert_eq!(s.current_socket_id(), Some(live));
}

#[test]
fn connect_checks_endpoint_and_state() {
    let mut s = BlockingSocketStack::new(broker());
    let id = s.socket().unwrap();
    let other = Endpoint { a: 10, b: 0, c: 0, d: 1, port: 1883 };
    assert_eq!(
        s.connect(id, other, true),
        Err(NbError::Other(SocketError::UnexpectedAddr { expected: broker(), got: other }))
    );
    assert_eq!(s.connect(id, broker(), false), Err(NbError::WouldBlock));
    assert_eq!(s.connect(id, broker(), true), Ok(()));
}

#[test]
fn send_is_limited_by_headroom() {
    let mut s = BlockingSocketStack::new(broker());
    let id = s.socket().unwrap();
    assert_eq!(s.send(id, 10, 100, 100), Err(NbError::WouldBlock));
    assert_eq!(s.send(id, 10, 100, 95), Ok(5));
    assert_eq!(s.send(id, 10, 100, 50), Ok(10));
    assert_eq!(s.send(id, 0, 100, 50), Ok(0));
}

#[test]
fn receive_reports_reset_first() {
    let mut s = BlockingSocketStack::new(broker());
    let id = s.socket().unwrap();
    assert_eq!(s.receive(id, false, true), Err(NbError::Other(SocketError::ConnectionReset)));
    assert_eq!(s.receive(id, true, false), Err(NbError::WouldBlock));
    assert_eq!(s.receive(id, true, true), Ok(()));
}

#[test]
fn error_kinds() {
    assert_eq!(SocketError::ConnectionReset.kind(), ErrorKind::PipeClosed);
    assert_eq!(
        SocketError::UnexpectedSocketId { expected: None, got: Some(SocketId(3)) }.kind(),
        ErrorKind::Other
    );
}
