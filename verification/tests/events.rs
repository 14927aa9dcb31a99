use lapin::error::{Error, ErrorKind, IoErrorKind};
use lapin::events::{Event, Events, EVENT_CAPACITY};

#[test]
fn nobody_listens() {
    let mut events = Events::new();
    for _ in 0..1000 {
        assert!(events.sender().connected().is_none());
    }
    assert!(!events.overflowed());
}

#[test]
fn listeners_get_the_events_in_order() {
    let mut events = Events::new();
    let stream = events.listener();
    assert!(events.sender().connected().is_none());
    assert!(events.sender().connection_blocked("low on memory".to_owned()).is_none());
    assert!(events.sender().connection_unblocked().is_none());
    assert!(events.sender().send_flow(false).is_none());
    assert!(events.sender().error(Error::io(IoErrorKind::Other)).is_none());
    assert!(matches!(stream.receiver.try_recv(), Ok(Event::Connected)));
    match stream.receiver.try_recv() {
        Ok(Event::ConnectionBlocked(reason)) => assert_eq!(reason, "low on memory"),
        other => panic!("unexpected: {other:?}"),
    }
    assert!(matches!(stream.receiver.try_recv(), Ok(Event::ConnectionUnblocked)));
    assert!(matches!(stream.receiver.try_recv(), Ok(Event::SendFlow(false))));
    match stream.receiver.try_recv() {
        Ok(Event::Error(error)) => {
            assert_eq!(*error.kind(), ErrorKind::IOError(IoErrorKind::Other, None));
        }
        other => panic!("unexpected: {other:?}"),
    }
    assert!(stream.receiver.try_recv().is_err());
    assert!(!events.overflowed());
}

#[test]
fn overflow_is_reported_once_to_the_connection_and_to_each_listener() {
    let mut events = Events::new();
    let mut first = events.listener();
    let mut second = events.listener();
    for _ in 0..EVENT_CAPACITY {
        assert!(events.sender().send(Event::SendFlow(true)).is_none());
    }
    assert_eq!(first.receiver.len(), 64);
    assert_eq!(second.receiver.len(), 64);
    assert!(!events.overflowed());
    assert!(first.notice.poll(events.overflowed()).is_none());
    let report = events.sender().send(Event::SendFlow(true));
    assert_eq!(*report.unwrap().kind(), ErrorKind::ResourceLimitExceeded);
    assert!(events.sender().send(Event::SendFlow(true)).is_none());
    assert!(events.overflowed());
    for stream in [&mut first, &mut second] {
        match stream.notice.poll(events.overflowed()) {
            Some(Event::Error(error)) => {
                assert_eq!(*error.kind(), ErrorKind::ResourceLimitExceeded);
            }
            other => panic!("unexpected: {other:?}"),
        }
        assert!(stream.notice.poll(events.overflowed()).is_none());
    }
    // The overflow stays, whatever is handed out later.
    assert!(first.receiver.try_recv().is_ok());
    assert!(events.sender().connected().is_none());
    assert!(events.overflowed());
}

#[test]
fn dropped_listeners_do_not_count() {
    let mut events = Events::new();
    let stream = events.listener();
    drop(stream);
    for _ in 0..100 {
        assert!(events.sender().connected().is_none());
    }
    assert!(!events.overflowed());
    assert_eq!(events.listener().receiver.len(), 0);
}

#[test]
fn every_listener_gets_every_event() {
    let mut events = Events::new();
    let first = events.listener();
    assert!(events.sender().connected().is_none());
    let second = events.listener();
    assert!(events.sender().send_flow(true).is_none());
    assert!(matches!(first.receiver.try_recv(), Ok(Event::Connected)));
    assert!(matches!(first.receiver.try_recv(), Ok(Event::SendFlow(true))));
    assert!(first.receiver.try_recv().is_err());
    // A listener gets what happens once it listens.
    assert!(matches!(second.receiver.try_recv(), Ok(Event::SendFlow(true))));
    assert!(second.receiver.try_recv().is_err());
}

#[test]
fn listeners_come_and_go() {
    let mut events = Events::new();
    let first = events.listener();
    let second = events.listener();
    drop(first);
    assert!(events.sender().connected().is_none());
    let third = events.listener();
    assert!(events.sender().connection_unblocked().is_none());
    assert!(matches!(second.receiver.try_recv(), Ok(Event::Connected)));
    assert!(matches!(second.receiver.try_recv(), Ok(Event::ConnectionUnblocked)));
    assert!(matches!(third.receiver.try_recv(), Ok(Event::ConnectionUnblocked)));
    assert!(third.receiver.try_recv().is_err());
    assert!(!events.overflowed());
}

#[test]
fn unread_listener_keeps_the_first_events() {
    let mut events = Events::new();
    let stream = events.listener();
    for i in 0..64 {
        assert!(events.sender().connection_blocked(format!("{i}")).is_none());
    }
    assert!(events.sender().connection_blocked("64".to_owned()).is_some());
    for i in 65..100 {
        assert!(events.sender().connection_blocked(format!("{i}")).is_none());
    }
    for i in 0..64 {
        match stream.receiver.try_recv() {
            Ok(Event::ConnectionBlocked(reason)) => assert_eq!(reason, format!("{i}")),
            other => panic!("unexpected: {other:?}"),
        }
    }
    assert!(stream.receiver.try_recv().is_err());
}

#[test]
fn slow_listener_does_not_hold_up_the_others() {
    let mut events = Events::new();
    let slow = events.listener();
    let quick = events.listener();
    for _ in 0..200 {
        let _ = events.sender().connected();
        assert!(matches!(quick.receiver.try_recv(), Ok(Event::Connected)));
    }
    assert!(events.overflowed());
    assert_eq!(slow.receiver.len(), 64);
}

#[test]
fn outcomes_are_recorded() {
    let mut events = Events::new();
    assert!(events.sender().record(false).is_none());
    assert!(!events.overflowed());
    assert!(events.sender().record(true).is_some());
    assert!(events.overflowed());
    assert!(events.sender().record(true).is_none());
    assert!(events.sender().record(false).is_none());
    assert!(events.overflowed());
}
