use ustream::client::{Client, LinkError, LinkEvent, LinkPhase, ReadOutcome, ReadStep};
use ustream::codec::{encode_payload, Encoding};
use ustream::receiver::Receiver;
use ustream::screen::Frame;
use ustream::server::Server;

fn frame(width: u32, height: u32, value: u8) -> Frame {
    Frame { data: vec![value; (width * height * 4) as usize], width, height }
}

fn connected(encoding: Encoding) -> Client {
    let mut c = Client::new(encoding);
    assert_eq!(c.next_read(), ReadStep::Done);
    c.start();
    c
}

/// Feeds one wire message to the link the way the read loop does.
fn deliver(c: &mut Client, message: &[u8]) -> Option<LinkEvent> {
    assert_eq!(c.next_read(), ReadStep::Header);
    let first = c.on_read(ReadOutcome::Bytes(message[..4].to_vec()));
    if message.len() == 4 {
        return first;
    }
    assert!(first.is_none());
    assert_eq!(c.next_read(), ReadStep::Payload((message.len() - 4) as u32));
    c.on_read(ReadOutcome::Bytes(message[4..].to_vec()))
}

#[test]
fn zero_length_is_no_update_not_disconnect() {
    let mut c = connected(Encoding::Structured);
    let ev = c.on_read(ReadOutcome::Bytes(vec![0, 0, 0, 0]));
    assert!(matches!(ev, Some(LinkEvent::NoUpdate)));
    assert_eq!(c.phase, LinkPhase::AwaitHeader);
    assert_eq!(c.next_read(), ReadStep::Header);
}

#[test]
fn header_then_payload_gives_frame() {
    let mut c = connected(Encoding::Structured);
    let f = frame(2, 3, 77);
    let payload = encode_payload(&f, Encoding::Structured).unwrap();
    let mut message = (payload.len() as u32).to_be_bytes().to_vec();
    message.extend_from_slice(&payload);
    match deliver(&mut c, &message) {
        Some(LinkEvent::Frame(g)) => {
            assert_eq!((g.width, g.height), (2, 3));
            assert_eq!(g.data, f.data);
        }
        _ => panic!("expected a frame"),
    }
    assert_eq!(c.phase, LinkPhase::AwaitHeader);
}

#[test]
fn end_of_stream_is_closed_by_peer() {
    let mut c = connected(Encoding::Structured);
    let ev = c.on_read(ReadOutcome::EndOfStream);
    assert!(matches!(ev, Some(LinkEvent::Disconnected(LinkError::ClosedByPeer))));
    assert_eq!(c.next_read(), ReadStep::Done);
}

#[test]
fn end_of_stream_mid_payload_is_closed_by_peer() {
    let mut c = connected(Encoding::Structured);
    assert!(c.on_read(ReadOutcome::Bytes(vec![0, 0, 0, 9])).is_none());
    let ev = c.on_read(ReadOutcome::EndOfStream);
    assert!(matches!(ev, Some(LinkEvent::Disconnected(LinkError::ClosedByPeer))));
}

#[test]
fn read_failure_ends_link() {
    let mut c = connected(Encoding::Image);
    let ev = c.on_read(ReadOutcome::Failed);
    assert!(matches!(ev, Some(LinkEvent::Disconnected(LinkError::ReadFailed))));
    assert_eq!(c.phase, LinkPhase::Closed);
    assert!(c.on_read(ReadOutcome::Bytes(vec![0, 0, 0, 0])).is_none());
}

#[test]
fn wrong_byte_count_ends_link() {
    let mut c = connected(Encoding::Structured);
    let ev = c.on_read(ReadOutcome::Bytes(vec![0, 0, 0]));
    assert!(matches!(ev, Some(LinkEvent::Disconnected(LinkError::ReadFailed))));
    let mut d = connected(Encoding::Structured);
    assert!(d.on_read(ReadOutcome::Bytes(vec![0, 0, 0, 5])).is_none());
    let ev = d.on_read(ReadOutcome::Bytes(vec![1, 2]));
    assert!(matches!(ev, Some(LinkEvent::Disconnected(LinkError::ReadFailed))));
}

#[test]
fn undecodable_payload_is_malformed() {
    let mut c = connected(Encoding::Structured);
    let ev = deliver(&mut c, &[0, 0, 0, 3, 1, 2, 3]);
    assert!(matches!(ev, Some(LinkEvent::Disconnected(LinkError::Malformed))));
    assert_eq!(c.phase, LinkPhase::Closed);
}

#[test]
fn stop_twice_is_harmless() {
    let mut c = connected(Encoding::Structured);
    c.stop();
    c.stop();
    assert!(c.shutdown_requested);
    assert_eq!(c.next_read(), ReadStep::Done);
    let mut closed = connected(Encoding::Structured);
    closed.on_read(ReadOutcome::EndOfStream);
    closed.stop();
    closed.stop();
    assert_eq!(closed.next_read(), ReadStep::Done);
}

#[test]
fn restart_clears_stop_request() {
    let mut c = connected(Encoding::Structured);
    c.stop();
    c.start();
    assert!(!c.shutdown_requested);
    assert_eq!(c.next_read(), ReadStep::Header);
}

#[test]
fn receiver_connect_and_disconnect() {
    let mut r = Receiver::new();
    assert!(!r.can_connect());
    r.ip_address = String::from("127.0.0.1");
    assert!(r.can_connect());
    r.handle_connect(Err(LinkError::Timeout));
    assert!(!r.connected);
    assert_eq!(r.error_message, Some(LinkError::Timeout));
    r.handle_connect(Ok(()));
    assert!(r.connected);
    assert_eq!(r.error_message, None);
    assert!(!r.can_connect());
    r.handle_event(LinkEvent::Frame(frame(1, 1, 5)));
    r.handle_disconnect();
    assert!(!r.connected);
    assert!(r.current_frame.is_none());
}

#[test]
fn receiver_keeps_frame_on_heartbeat() {
    let mut r = Receiver::new();
    r.handle_connect(Ok(()));
    r.handle_event(LinkEvent::Frame(frame(2, 2, 8)));
    r.handle_event(LinkEvent::NoUpdate);
    assert!(r.connected);
    assert_eq!(r.current_frame.as_ref().unwrap().data, vec![8; 16]);
}

#[test]
fn receiver_clears_on_peer_close() {
    let mut r = Receiver::new();
    r.handle_connect(Ok(()));
    r.handle_event(LinkEvent::Frame(frame(1, 1, 1)));
    r.handle_event(LinkEvent::Disconnected(LinkError::ClosedByPeer));
    assert!(!r.connected);
    assert!(r.current_frame.is_none());
    assert_eq!(r.error_message, Some(LinkError::ClosedByPeer));
}

#[test]
fn publish_heartbeat_and_disconnect_all_reach_one_client() {
    let mut hub = Server::new(Encoding::Structured, 0);
    assert!(hub.register_client(1));
    let mut link = connected(Encoding::Structured);
    let mut view = Receiver::new();
    view.handle_connect(Ok(()));

    let frame_a = frame(640, 480, 33);
    let m = hub.broadcast_frame(&frame_a, true, 60).unwrap();
    let ev = deliver(&mut link, &m).unwrap();
    match &ev {
        LinkEvent::Frame(g) => assert_eq!((g.width, g.height), (640, 480)),
        _ => panic!("expected a frame"),
    }
    view.handle_event(ev);

    let hb = hub.broadcast_frame(&frame(1, 1, 0), false, 120).unwrap();
    assert_eq!(hb.len(), 4);
    let ev = deliver(&mut link, &hb).unwrap();
    assert!(matches!(ev, LinkEvent::NoUpdate));
    view.handle_event(ev);
    let shown = view.current_frame.as_ref().unwrap();
    assert_eq!((shown.width, shown.height), (640, 480));
    assert_eq!(shown.data, frame_a.data);

    assert_eq!(hub.begin_disconnect(), vec![1]);
    hub.disconnect();
    assert_eq!(hub.get_client_count(), 0);
    let ev = link.on_read(ReadOutcome::EndOfStream).unwrap();
    assert!(matches!(ev, LinkEvent::Disconnected(LinkError::ClosedByPeer)));
    view.handle_event(ev);
    assert!(!view.connected);
}
