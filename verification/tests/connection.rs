use std::sync::atomic::{AtomicBool, AtomicUsize, Ordering};
use std::sync::Arc;

use backon::BackoffBuilder;
use lapin::configuration::{accept_uri, parse_uri, Authentication, ConnectionProperties};
use lapin::connection::{
    Command, Configuration, Connection, ConnectionDriver, ConnectionStatus, ConnectorControl, Joined,
    KillSwitch, Parts, ProtocolVersion, StopStep, SuppliedStream,
};
use lapin::error::{ConnectionState, Error, ErrorKind, IoErrorKind};
use lapin::events::{Event, Events};
use lapin::task_scope::TaskScope;

const EXTERNAL: Authentication = Authentication { valid_for: None };

struct Probe {
    dropped: Arc<AtomicBool>,
    writes: Arc<AtomicUsize>,
}

impl Probe {
    fn write(&self) {
        self.writes.fetch_add(1, Ordering::SeqCst);
    }
}

impl Drop for Probe {
    fn drop(&mut self) {
        self.dropped.store(true, Ordering::SeqCst);
    }
}

fn probe() -> (Probe, Arc<AtomicBool>, Arc<AtomicUsize>) {
    let dropped = Arc::new(AtomicBool::new(false));
    let writes = Arc::new(AtomicUsize::new(0));
    (Probe { dropped: dropped.clone(), writes: writes.clone() }, dropped, writes)
}

fn message(error: &Error) -> (IoErrorKind, String) {
    match error.kind() {
        ErrorKind::IOError(kind, Some(text)) => (*kind, text.clone()),
        other => panic!("unexpected: {other:?}"),
    }
}

fn connected(state: ConnectionState) -> Connection {
    let mut status = ConnectionStatus::new();
    status.set_state(state);
    let configuration = Configuration::new(ConnectionProperties::default());
    Connection::new(configuration, status, &Events::new())
}

#[test]
fn rejects_implicit_authentication_and_recovery_before_io() {
    for options in [
        ConnectionProperties::default(),
        ConnectionProperties::default().with_auth_provider(EXTERNAL).enable_auto_recover(),
    ] {
        let (stream, dropped, writes) = probe();
        assert!(Connection::from_stream(
            parse_uri("amqp://invalid.invalid/%2f").unwrap(),
            stream,
            options
        )
        .is_err());
        assert!(dropped.load(Ordering::SeqCst));
        assert_eq!(writes.load(Ordering::SeqCst), 0);
    }
}

#[test]
fn refusals_say_what_is_required() {
    let refreshed = Authentication { valid_for: Some(60_000) };
    let uri = parse_uri("amqp://invalid.invalid/%2f").unwrap();
    let options = ConnectionProperties::default().with_auth_provider(refreshed);
    match Connection::from_stream(uri.clone(), (), options) {
        Err(error) => assert_eq!(
            message(&error),
            (
                IoErrorKind::InvalidInput,
                "supplied AMQP transport requires explicit authentication without automatic recovery or refresh"
                    .to_owned()
            )
        ),
        Ok(_) => panic!("refresh is not allowed"),
    }
    for options in [options, ConnectionProperties::default()] {
        match Connection::from_connector(uri.clone(), options) {
            Err(error) => assert_eq!(
                message(&error),
                (
                    IoErrorKind::Other,
                    "supplied connector requires explicit authentication without token refresh"
                        .to_owned()
                )
            ),
            Ok(_) => panic!("explicit authentication is required"),
        }
    }
}

#[test]
fn supplied_stream_is_used_once_and_never_tried_again() {
    let (stream, dropped, writes) = probe();
    let uri = parse_uri("amqp://invalid.invalid/%2f").unwrap();
    let options = ConnectionProperties::default().with_auth_provider(EXTERNAL);
    let (parts, mut supplied) = match Connection::from_stream(uri.clone(), stream, options) {
        Ok(supplied) => supplied,
        Err(error) => panic!("unexpected: {error:?}"),
    };
    assert_eq!(parts.uri, uri);
    assert!(!parts.connection.closes_on_drop() && parts.connection.explicit_close());
    assert!(parts.backoff.build().next().is_none());
    assert!(parts.connection.configuration().backoff.build().next().is_none());
    assert!(!dropped.load(Ordering::SeqCst));
    match supplied.connect() {
        Ok(stream) => stream.write(),
        Err(error) => panic!("unexpected: {error:?}"),
    }
    assert_eq!(writes.load(Ordering::SeqCst), 1);
    assert!(dropped.load(Ordering::SeqCst));
    match supplied.connect() {
        Err(error) => assert_eq!(
            message(&error),
            (
                IoErrorKind::NotConnected,
                "supplied AMQP transport was already consumed".to_owned()
            )
        ),
        Ok(_) => panic!("there is one transport only"),
    }
}

#[test]
fn supplied_connector_keeps_the_declared_policy() {
    let uri = parse_uri("amqp://invalid.invalid/%2f").unwrap();
    let options = ConnectionProperties::default().with_auth_provider(EXTERNAL).enable_auto_recover();
    let parts: Parts = match Connection::from_connector(uri, options) {
        Ok(parts) => parts,
        Err(error) => panic!("unexpected: {error:?}"),
    };
    assert!(parts.connection.configuration().auto_recover);
    assert!(!parts.connection.closes_on_drop() && parts.connection.explicit_close());
    assert_eq!(parts.backoff.build().count(), 3);
    assert!(parts.tasks.is_finished());
    assert!(parts.socket.readable() && parts.socket.writable());
    assert!(!parts.control.is_stopped());
    assert_eq!(parts.connection.status().state(), ConnectionState::Initial);
}

#[test]
fn connector_takes_any_options() {
    let uri = parse_uri("amqp://localhost").unwrap();
    let mut parts = Connection::connector(uri.clone(), ConnectionProperties::default());
    assert_eq!(parts.uri, uri);
    assert!(parts.connection.configuration().auth_provider.is_none());
    assert!(parts.connection.closes_on_drop() && !parts.connection.explicit_close());
    let first = parts.connection.events_listener(&mut parts.events);
    let second = parts.connection.events_listener(&mut parts.events);
    assert!(parts.events.sender().connected().is_none());
    assert!(matches!(first.receiver.try_recv(), Ok(Event::Connected)));
    assert!(matches!(second.receiver.try_recv(), Ok(Event::Connected)));
}

#[test]
fn requests_need_an_established_connection() {
    for state in [
        ConnectionState::Initial,
        ConnectionState::Connecting,
        ConnectionState::Reconnecting,
        ConnectionState::Closing,
        ConnectionState::Closed,
        ConnectionState::Error,
    ] {
        let connection = connected(state);
        for request in [
            connection.create_channel(),
            connection.close(200, "OK".to_owned()),
            connection.update_secret(b"secret".to_vec(), "rotation".to_owned()),
        ] {
            assert_eq!(
                *request.unwrap_err().kind(),
                ErrorKind::InvalidConnectionState(state)
            );
        }
    }
    let connection = connected(ConnectionState::Connected);
    assert_eq!(connection.create_channel().unwrap(), Command::CreateChannel);
    assert_eq!(
        connection.close(200, "OK".to_owned()).unwrap(),
        Command::CloseConnection {
            reply_code: 200,
            reply_text: "OK".to_owned(),
            class_id: 0,
            method_id: 0
        }
    );
    assert_eq!(
        connection.update_secret(b"secret".to_vec(), "rotation".to_owned()).unwrap(),
        Command::UpdateSecret { new_secret: b"secret".to_vec(), reason: "rotation".to_owned() }
    );
}

#[test]
fn status_and_configuration_can_be_changed() {
    let mut connection = connected(ConnectionState::Connected);
    connection.status_mut().set_state(ConnectionState::Closing);
    assert_eq!(connection.status().state(), ConnectionState::Closing);
    connection.configuration_mut().auto_recover = true;
    assert!(connection.configuration().auto_recover);
}

#[test]
fn handshake_starts_with_the_protocol_header() {
    let connection = connected(ConnectionState::Initial);
    match connection.start(Ok(())) {
        Ok(handshake) => {
            assert_eq!(handshake.channel, 0);
            assert_eq!(
                handshake.header,
                ProtocolVersion { major: 0, minor: 9, revision: 1 }
            );
            assert_eq!(handshake.connection.status().state(), ConnectionState::Connecting);
        }
        Err(error) => panic!("unexpected: {error:?}"),
    }
    let connection = connected(ConnectionState::Closed);
    match connection.start(Err(Error::new(ErrorKind::MissingHeartbeatError))) {
        Err(error) => assert_eq!(*error.kind(), ErrorKind::MissingHeartbeatError),
        Ok(_) => panic!("the connection could not start"),
    }
}

#[test]
fn connection_stops_once() {
    let mut driver = ConnectionDriver::new(ConnectorControl::new(&TaskScope::new()));
    let steps = driver.stop();
    match &steps[..] {
        [StopStep::FailChannels(error), StopStep::StopTasks, StopStep::StopRequests, StopStep::WakeTransport] => {
            assert_eq!(
                *error.kind(),
                ErrorKind::IOError(IoErrorKind::ConnectionAborted, None)
            );
        }
        other => panic!("unexpected: {other:?}"),
    }
    assert!(driver.stop().is_empty());
    let mut switch = KillSwitch::default();
    assert!(!switch.killed());
    assert!(switch.kill());
    assert!(!switch.kill());
    assert!(switch.killed());
}

#[test]
fn stop_handles_share_the_switch_of_the_owner() {
    let mut tasks = TaskScope::new();
    let mut driver = ConnectionDriver::new(ConnectorControl::new(&tasks));
    let handle = driver.stop_handle();
    assert!(!handle.is_stopped());
    assert_eq!(handle.stop().len(), 4);
    assert!(driver.stop().is_empty());
    match driver.join(Ok(()), &mut tasks) {
        Joined::Done { result, steps } => assert!(result.is_ok() && steps.is_empty()),
        other => panic!("unexpected: {other:?}"),
    }
    // A handle can still be called when the driver has been joined.
    assert!(driver.stop_handle().is_stopped());
    assert!(driver.stop_handle().stop().is_empty());
}

#[test]
fn driver_is_finished_when_transport_and_tasks_are() {
    let mut tasks = TaskScope::new();
    let mut driver = ConnectionDriver::new(ConnectorControl::new(&tasks));
    assert!(driver.is_finished(true, &tasks));
    assert!(!driver.is_finished(false, &tasks));
    let mut task = tasks.wrap(());
    assert!(!driver.is_finished(true, &tasks));
    let result = match driver.join(Err(Error::io(IoErrorKind::Other)), &mut tasks) {
        Joined::Waiting(result) => result,
        other => panic!("unexpected: {other:?}"),
    };
    // Waiting is no stop, but no task comes in any longer.
    assert!(!driver.stop_handle().is_stopped());
    assert!(tasks.wrap(()).finish().is_none());
    if let Some(guard) = task.finish() {
        assert!(tasks.release(guard));
    }
    match driver.join(result, &mut tasks) {
        Joined::Done { result, steps } => {
            assert_eq!(
                *result.unwrap_err().kind(),
                ErrorKind::IOError(IoErrorKind::Other, None)
            );
            assert_eq!(steps.len(), 4);
        }
        other => panic!("unexpected: {other:?}"),
    }
    assert!(driver.is_finished(true, &tasks));
    assert!(driver.stop().is_empty());
}

#[test]
fn reconnecting_connection_keeps_what_it_was_given() {
    let options = ConnectionProperties::default().with_auth_provider(EXTERNAL);
    let connection =
        Connection::for_reconnect(Configuration::new(options), ConnectionStatus::new(), &Events::new());
    assert_eq!(connection.configuration().auth_provider, Some(EXTERNAL));
    assert!(!connection.closes_on_drop() && connection.explicit_close());
    assert_eq!(connection.status().state(), ConnectionState::Initial);
}

#[test]
fn uris_name_the_virtual_host() {
    assert_eq!(parse_uri("amqp://127.0.0.1:5672").unwrap().vhost, "/");
    assert_eq!(parse_uri("amqp://127.0.0.1:5672/").unwrap().vhost, "");
    assert_eq!(parse_uri("amqp://127.0.0.1:5672/%2f").unwrap().vhost, "/");
}

#[test]
fn unreadable_uris_are_refused() {
    match parse_uri("http://localhost").unwrap_err().kind() {
        ErrorKind::Other(text) => assert_eq!(text, "Invalid AMQP scheme: http"),
        other => panic!("unexpected: {other:?}"),
    }
    match accept_uri(Err("no such URI".to_owned())).unwrap_err().kind() {
        ErrorKind::Other(text) => assert_eq!(text, "no such URI"),
        other => panic!("unexpected: {other:?}"),
    }
}

#[test]
fn supplied_stream_is_handed_out() {
    let mut supplied = SuppliedStream::new(5u8);
    assert_eq!(supplied.connect().unwrap(), 5);
    assert!(supplied.connect().is_err());
}
