use bytes::BytesMut;
use futures::Stream;
use share_relay::codec::RelayMessage;
use share_relay::relay::{RelayHandler, RelaySubmitterState, RETRY_QUEUE_CAPACITY};
use share_relay::settings::{init_submitter_settings, parse_submitter_parameter};

fn router(hosts: &[&str], password: &str) -> RelaySubmitterState {
    let mut settings = init_submitter_settings();
    for h in hosts {
        assert!(parse_submitter_parameter(&mut settings, &format!("--receiver_address={}", h)));
    }
    assert!(parse_submitter_parameter(&mut settings, &format!("--receiver_password={}", password)));
    RelaySubmitterState::setup_submitter(settings)
}

fn share(s: &str) -> RelayMessage {
    RelayMessage::ShareMessage { data: s.to_string() }
}

fn auth(s: &str) -> RelayMessage {
    RelayMessage::AuthMessage { password: s.to_string() }
}

#[test]
fn setup_makes_one_disconnected_proxy_per_host() {
    let state = router(&["a:1", "b:2", "c:3"], "pw");
    assert_eq!(state.receiver_count(), 3);
    for i in 0..3 {
        assert!(!state.is_connected(i));
    }
    assert_eq!(state.queued_count(), 0);
    assert_eq!(state.settings().receiver_hosts(), &vec!["a:1".to_string(), "b:2".to_string(), "c:3".to_string()]);
}

#[test]
fn failover_reaches_only_the_connected_second_proxy() {
    let mut state = router(&["a:1", "b:2", "c:3"], "pw");
    let (_framer, rx) = state.new_connection(1);
    assert!(!state.is_connected(0));
    assert!(state.is_connected(1));
    assert!(!state.is_connected(2));
    assert_eq!(state.send(share("m1")), Some(1));
    assert_eq!(state.queued_count(), 0);
    drop(state);
    let got: Vec<RelayMessage> = rx.wait().map(|r| r.unwrap()).collect();
    assert_eq!(got, vec![auth("pw"), share("m1")]);
}

#[test]
fn first_connected_proxy_wins() {
    let mut state = router(&["a:1", "b:2", "c:3"], "pw");
    let (_f1, rx1) = state.new_connection(1);
    let (_f2, rx2) = state.new_connection(2);
    assert_eq!(state.send(share("m")), Some(1));
    drop(state);
    assert_eq!(rx1.wait().count(), 2);
    assert_eq!(rx2.wait().count(), 1);
}

#[test]
fn message_is_queued_and_retried_after_connect() {
    let mut state = router(&["a:1", "b:2"], "pw");
    assert_eq!(state.send(share("late")), None);
    assert_eq!(state.queued_count(), 1);
    let (_framer, rx) = state.new_connection(0);
    assert_eq!(state.retry_next(), Some(Some(0)));
    assert_eq!(state.queued_count(), 0);
    assert_eq!(state.retry_next(), None);
    drop(state);
    let got: Vec<RelayMessage> = rx.wait().map(|r| r.unwrap()).collect();
    assert_eq!(got, vec![auth("pw"), share("late")]);
}

#[test]
fn retry_without_receivers_requeues() {
    let mut state = router(&["a:1"], "");
    assert_eq!(state.send(share("one")), None);
    assert_eq!(state.send(share("two")), None);
    assert_eq!(state.retry_next(), Some(None));
    assert_eq!(state.queued_count(), 2);
    let (_framer, rx) = state.new_connection(0);
    assert_eq!(state.retry_next(), Some(Some(0)));
    assert_eq!(state.retry_next(), Some(Some(0)));
    drop(state);
    let got: Vec<RelayMessage> = rx.wait().map(|r| r.unwrap()).collect();
    assert_eq!(got, vec![auth(""), share("two"), share("one")]);
}

#[test]
fn share_frame_on_the_second_receiver() {
    let mut state = router(&["a:1", "b:2"], "pw");
    let (framer, rx) = state.new_connection(1);
    assert_eq!(state.send_share("{\"x\":1}".to_string()), Some(1));
    drop(state);
    let got: Vec<RelayMessage> = rx.wait().map(|r| r.unwrap()).collect();
    assert_eq!(got.len(), 2);
    assert_eq!(got[1], share("{\"x\":1}"));
    let mut buf = BytesMut::new();
    framer.encode(got[1].clone(), &mut buf);
    assert_eq!(buf.len(), 17);
    assert_eq!(&buf[0..2], &[0xfe, 0x01]);
    assert_eq!(&buf[2..6], &[17, 0, 0, 0]);
    assert_eq!(&buf[10..], b"{\"x\":1}");
}

#[test]
fn closed_connection_sends_to_queue() {
    let mut state = router(&["a:1"], "pw");
    let (_framer, _rx) = state.new_connection(0);
    state.connection_closed(0);
    assert!(!state.is_connected(0));
    assert_eq!(state.send(share("x")), None);
    assert_eq!(state.queued_count(), 1);
}

#[test]
fn refused_channel_falls_over_to_next_proxy() {
    let mut state = router(&["a:1", "b:2"], "pw");
    let (_f0, rx0) = state.new_connection(0);
    let (_f1, rx1) = state.new_connection(1);
    drop(rx0);
    assert_eq!(state.send(share("x")), Some(1));
    drop(state);
    assert_eq!(rx1.wait().count(), 2);
}

#[test]
fn refused_everywhere_is_queued() {
    let mut state = router(&["a:1"], "pw");
    let (_f0, rx0) = state.new_connection(0);
    drop(rx0);
    assert!(state.is_connected(0));
    assert_eq!(state.send(share("x")), None);
    assert_eq!(state.queued_count(), 1);
}

#[test]
fn send_message_only_queues() {
    let mut state = router(&["a:1"], "pw");
    let (_f0, rx0) = state.new_connection(0);
    state.send_message(share("q"));
    assert_eq!(state.queued_count(), 1);
    drop(state);
    assert_eq!(rx0.wait().count(), 1);
}

#[test]
fn retry_queue_is_bounded_dropping_oldest() {
    let mut state = router(&["a:1"], "pw");
    for i in 0..(RETRY_QUEUE_CAPACITY + 2) {
        state.send_message(share(&i.to_string()));
    }
    assert_eq!(state.queued_count(), RETRY_QUEUE_CAPACITY);
    let (_framer, rx) = state.new_connection(0);
    assert_eq!(state.retry_next(), Some(Some(0)));
    drop(state);
    let got: Vec<RelayMessage> = rx.wait().map(|r| r.unwrap()).collect();
    assert_eq!(got, vec![auth("pw"), share("2")]);
}

#[test]
fn handler_reconnects_with_fresh_auth() {
    let mut h = RelayHandler::new("sec".to_string());
    assert!(!h.send(share("no")));
    let (_f, rx) = h.new_connection();
    assert!(h.is_connected());
    assert!(h.send(share("yes")));
    h.connection_closed();
    assert!(!h.is_connected());
    assert!(!h.send(share("no")));
    let (_f2, rx2) = h.new_connection();
    drop(h);
    let a: Vec<RelayMessage> = rx.wait().map(|r| r.unwrap()).collect();
    let b: Vec<RelayMessage> = rx2.wait().map(|r| r.unwrap()).collect();
    assert_eq!(a, vec![auth("sec"), share("yes")]);
    assert_eq!(b, vec![auth("sec")]);
}
