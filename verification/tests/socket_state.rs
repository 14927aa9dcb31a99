use lapin::error::{Error, ErrorKind, IoErrorKind};
use lapin::socket_state::{Poll, SocketEvent, SocketState};

fn idle() -> SocketState {
    let mut state = SocketState::default();
    assert_eq!(state.handle_read_poll(Poll::Pending), None);
    assert_eq!(state.handle_write_poll(Poll::<u8>::Pending), None);
    assert!(!state.readable() && !state.writable());
    state
}

#[test]
fn wake_storm_is_bounded_and_preserves_both_readiness_flags() {
    let mut state = idle();
    for _ in 0..10000 {
        for event in [SocketEvent::Readable, SocketEvent::Writable, SocketEvent::Wake] {
            state.handle().send(event);
        }
    }
    assert_eq!(state.notification_count(), 1);
    state.wait();
    assert!(state.readable() && state.writable());
    assert_eq!(state.notification_count(), 0);
    assert_eq!(state.handle_read_poll(Poll::Pending), None);
    state.handle().send(SocketEvent::Readable);
    state.poll_events();
    assert!(state.readable());
}

#[test]
fn new_transport_is_worth_trying() {
    let state = SocketState::new();
    assert!(state.readable() && state.writable());
    assert!(!state.has_event());
    assert_eq!(state.notification_count(), 0);
}

#[test]
fn each_kind_of_event_changes_its_own_flag() {
    let mut state = idle();
    state.handle().send(SocketEvent::Writable);
    state.wait();
    assert!(!state.readable() && state.writable());
    let mut state = idle();
    state.handle().wake();
    assert!(state.has_event());
    state.poll_events();
    assert!(!state.has_event());
    assert!(!state.readable() && !state.writable());
}

#[test]
fn polling_without_events_changes_nothing() {
    let mut state = idle();
    state.poll_events();
    assert!(!state.readable() && !state.writable());
    assert_eq!(state.notification_count(), 0);
}

#[test]
fn wakers_send_their_event() {
    let mut state = idle();
    let (reader, writer) = (state.readable_waker(), state.writable_waker());
    reader.wake(state.handle());
    state.wait();
    assert!(state.readable() && !state.writable());
    writer.wake(state.handle());
    state.wait();
    assert!(state.readable() && state.writable());
}

#[test]
fn ready_polls_hand_out_what_they_got() {
    let mut state = SocketState::default();
    assert_eq!(state.handle_read_poll(Poll::Ready(7)), Some(7));
    assert_eq!(state.handle_write_poll(Poll::Ready("sent")), Some("sent"));
    assert!(state.readable() && state.writable());
}

#[test]
fn reset_makes_the_transport_worth_trying() {
    let mut state = idle();
    state.reset();
    assert!(state.readable() && state.writable());
}

#[test]
fn io_results_are_sorted_out() {
    let mut state = SocketState::default();
    assert!(state.handle_io_result(Ok(())).is_ok());
    assert!(!state.has_event());

    assert!(state.handle_io_result(Err(Error::io(IoErrorKind::WouldBlock))).is_ok());
    assert!(!state.has_event());

    assert!(state.handle_io_result(Err(Error::io(IoErrorKind::Interrupted))).is_ok());
    assert!(state.has_event());

    let failed = state.handle_io_result(Err(Error::new(ErrorKind::MissingHeartbeatError)));
    assert_eq!(*failed.unwrap_err().kind(), ErrorKind::MissingHeartbeatError);
    assert!(state.readable() && state.writable());

    let failed = state.handle_io_result(Err(Error::io(IoErrorKind::Other)));
    assert_eq!(*failed.unwrap_err().kind(), ErrorKind::IOError(IoErrorKind::Other, None));
    assert!(!state.readable() && !state.writable());
}
