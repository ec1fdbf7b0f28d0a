use ustream::caster::Caster;
use ustream::codec::{decode_payload, Encoding};
use ustream::screen::{CropValues, Frame};
use ustream::server::{construct_message, HubState, Server, PORT, PUBLISH_INTERVAL_MS};

fn frame(width: u32, height: u32, value: u8) -> Frame {
    Frame { data: vec![value; (width * height * 4) as usize], width, height }
}

#[test]
fn hub_constants() {
    assert_eq!(PORT, 9041);
    assert_eq!(PUBLISH_INTERVAL_MS, 60);
}

#[test]
fn registry_counts_clients() {
    let mut s = Server::new(Encoding::Structured, 0);
    assert_eq!(s.get_client_count(), 0);
    assert!(s.register_client(7));
    assert!(s.register_client(9));
    assert!(!s.register_client(7));
    assert_eq!(s.get_client_count(), 2);
    assert_eq!(s.client_ids(), vec![7, 9]);
    assert!(s.is_registered(9));
    assert!(s.remove_client(7));
    assert!(!s.remove_client(7));
    assert_eq!(s.get_client_count(), 1);
    assert_eq!(s.client_ids(), vec![9]);
}

#[test]
fn publish_gate_opens_every_interval() {
    let mut s = Server::new(Encoding::Structured, 0);
    let f = frame(1, 1, 0);
    assert!(s.broadcast_frame(&f, false, 30).is_none());
    assert_eq!(s.broadcast_frame(&f, false, 60), Some(vec![0, 0, 0, 0]));
    assert!(s.broadcast_frame(&f, false, 100).is_none());
    assert!(s.broadcast_frame(&f, false, 119).is_none());
    assert!(s.broadcast_frame(&f, false, 120).is_some());
}

#[test]
fn rapid_publishes_give_one_message_per_window() {
    let mut s = Server::new(Encoding::Structured, 0);
    let f = frame(1, 1, 0);
    let mut sent = Vec::new();
    let mut t: u64 = 0;
    while t <= 600 {
        if s.broadcast_frame(&f, false, t).is_some() {
            sent.push(t);
        }
        t += 7;
    }
    for pair in sent.windows(2) {
        assert!(pair[1] - pair[0] >= 60);
        assert!(pair[1] - pair[0] < 67);
    }
    assert_eq!(sent.len(), 9);
    assert_eq!(sent[0], 63);
}

#[test]
fn clock_going_back_publishes_nothing() {
    let mut s = Server::new(Encoding::Structured, 500);
    assert!(s.broadcast_frame(&frame(1, 1, 0), false, 100).is_none());
}

#[test]
fn streaming_publish_carries_encoded_frame() {
    let mut s = Server::new(Encoding::Structured, 0);
    let f = frame(2, 1, 3);
    let m = s.broadcast_frame(&f, true, 60).unwrap();
    assert_eq!(&m[..4], &[0, 0, 0, 24]);
    let g = decode_payload(&m[4..], Encoding::Structured).ok().unwrap();
    assert_eq!((g.width, g.height), (2, 1));
    assert_eq!(g.data, f.data);
}

#[test]
fn streaming_publish_of_inconsistent_frame_is_skipped() {
    let mut s = Server::new(Encoding::Structured, 0);
    let bad = Frame { data: vec![1, 2, 3], width: 1, height: 1 };
    assert!(s.broadcast_frame(&bad, true, 60).is_none());
    assert!(s.broadcast_frame(&bad, false, 61).is_some());
}

#[test]
fn message_per_streaming_choice() {
    let f = frame(1, 1, 9);
    assert_eq!(construct_message(&f, false, Encoding::Image), Some(vec![0, 0, 0, 0]));
    let m = construct_message(&f, true, Encoding::Structured).unwrap();
    assert_eq!(m, vec![0, 0, 0, 20, 4, 0, 0, 0, 0, 0, 0, 0, 9, 9, 9, 9, 1, 0, 0, 0, 1, 0, 0, 0]);
    let j = construct_message(&frame(8, 8, 40), true, Encoding::Image).unwrap();
    let len = u32::from_be_bytes([j[0], j[1], j[2], j[3]]) as usize;
    assert_eq!(len, j.len() - 4);
    assert_eq!(&j[4..6], &[0xff, 0xd8]);
}

#[test]
fn every_client_gets_the_same_message() {
    let mut s = Server::new(Encoding::Structured, 0);
    for id in 1..=3 {
        assert!(s.register_client(id));
    }
    let m1 = s.broadcast_frame(&frame(1, 1, 1), true, 60).unwrap();
    let m2 = s.broadcast_frame(&frame(1, 1, 2), true, 120).unwrap();
    assert_ne!(m1, m2);
    assert_eq!(s.client_ids(), vec![1, 2, 3]);
}

#[test]
fn draining_suspends_publishing_and_disconnect_empties_registry() {
    let mut s = Server::new(Encoding::Structured, 0);
    s.register_client(1);
    s.register_client(2);
    let closing = s.begin_disconnect();
    assert_eq!(closing, vec![1, 2]);
    assert_eq!(s.state_now(), HubState::Draining);
    assert!(s.broadcast_frame(&frame(1, 1, 0), false, 1000).is_none());
    s.disconnect();
    assert_eq!(s.get_client_count(), 0);
    assert_eq!(s.state_now(), HubState::Running);
    assert!(s.broadcast_frame(&frame(1, 1, 0), false, 1000).is_some());
}

#[test]
fn disconnect_with_no_clients_is_harmless() {
    let mut s = Server::new(Encoding::Image, 0);
    assert!(s.begin_disconnect().is_empty());
    s.disconnect();
    s.disconnect();
    assert_eq!(s.get_client_count(), 0);
    assert_eq!(s.state_now(), HubState::Running);
}

#[test]
fn caster_blanks_outgoing_frame_but_shows_capture() {
    let mut c = Caster::new(Encoding::Structured, 0);
    c.toggle_streaming();
    c.toggle_blank();
    let f = frame(2, 2, 10);
    let m = c.on_frame(f.clone(), 60).unwrap();
    let sent = decode_payload(&m[4..], Encoding::Structured).ok().unwrap();
    assert!(sent.data.iter().all(|&b| b == 255));
    assert_eq!(c.current_frame.as_ref().unwrap().data, f.data);
}

#[test]
fn caster_crops_outgoing_frame() {
    let mut c = Caster::new(Encoding::Structured, 0);
    c.toggle_streaming();
    c.crop = CropValues::new(50, 0, 0, 0);
    let m = c.on_frame(frame(2, 1, 10), 60).unwrap();
    let sent = decode_payload(&m[4..], Encoding::Structured).ok().unwrap();
    assert_eq!(sent.data, vec![255, 255, 255, 255, 10, 10, 10, 10]);
}

#[test]
fn caster_not_streaming_sends_heartbeat() {
    let mut c = Caster::new(Encoding::Image, 0);
    assert_eq!(c.on_frame(frame(2, 2, 1), 60), Some(vec![0, 0, 0, 0]));
    assert!(c.on_frame(frame(2, 2, 1), 70).is_none());
}

#[test]
fn caster_disconnect_stops_streaming() {
    let mut c = Caster::new(Encoding::Structured, 0);
    c.toggle_streaming();
    c.server.register_client(4);
    assert_eq!(c.begin_disconnect(), vec![4]);
    assert!(!c.is_streaming);
    c.disconnect();
    assert_eq!(c.server.get_client_count(), 0);
}

#[test]
fn caster_skips_inconsistent_frame() {
    let mut c = Caster::new(Encoding::Structured, 0);
    let bad = Frame { data: vec![1, 2, 3], width: 1, height: 1 };
    assert!(c.on_frame(bad, 60).is_none());
    assert!(c.current_frame.is_none());
    assert!(c.on_frame(frame(1, 1, 0), 61).is_some());
}

#[test]
fn streaming_frame_too_wide_for_jpeg_is_not_published() {
    let mut s = Server::new(Encoding::Image, 0);
    let wide = frame(70000, 1, 0);
    assert!(s.broadcast_frame(&wide, true, 60).is_none());
    assert!(s.broadcast_frame(&frame(8, 8, 0), true, 61).is_some());
}
