//! A connection: how it is put together, what it can be asked for, and how it ends.
use amq_protocol::uri::AMQPUri;
use backon::ExponentialBuilder;
use vstd::prelude::*;

use crate::configuration::{Authentication, ConnectionProperties};
use crate::error::{ConnectionState, Error, ErrorKind, IoErrorKind};
use crate::events::{EventStream, Events};
use crate::socket_state::{Poll, SocketState};
use crate::task_scope::TaskScope;

verus! {

/// The protocol version that the connection speaks.
#[derive(Clone, Copy, Debug, PartialEq, Eq, Structural)]
pub struct ProtocolVersion {
    /// Major version.
    pub major: u8,
    /// Minor version.
    pub minor: u8,
    /// Revision.
    pub revision: u8,
}

/// `amq_protocol::frame::ProtocolVersion::amqp_0_9_1`: version 0.9.1.
#[verifier::external_body]
fn amqp_0_9_1() -> (version: ProtocolVersion)
    ensures
        version == (ProtocolVersion { major: 0, minor: 9, revision: 1 }),
{
    let version = amq_protocol::frame::ProtocolVersion::amqp_0_9_1();
    ProtocolVersion { major: version.major, minor: version.minor, revision: version.revision }
}

/// A switch that can be thrown once.
#[derive(Debug)]
pub struct KillSwitch {
    killed: bool,
}

impl KillSwitch {
    /// Has the switch been thrown?
    pub closed spec fn spec_killed(self) -> bool {
        self.killed
    }

    /// Throw the switch. Says whether this was the first time.
    pub fn kill(&mut self) -> (first: bool)
        ensures
            final(self).spec_killed(),
            first == !old(self).spec_killed(),
    {
        let first: bool = !self.killed;
        self.killed = true;
        first
    }

    /// Has the switch been thrown?
    pub fn killed(&self) -> (yes: bool)
        ensures
            yes == self.spec_killed(),
    {
        self.killed
    }
}

impl Default for KillSwitch {
    fn default() -> (switch: KillSwitch)
        ensures
            !switch.spec_killed(),
    {
        KillSwitch { killed: false }
    }
}

/// A step on the way to an immediate end of the connection.
#[derive(Debug)]
pub enum StopStep {
    /// Fail every channel, and everyone who waits for a reply on it, with this error.
    FailChannels(Error),
    /// Tell the tasks of the connection to stop.
    StopTasks,
    /// Stop taking requests.
    StopRequests,
    /// Wake up the owner of the transport.
    WakeTransport,
}

/// What ends a connection. Nothing of it sends anything to the broker.
pub struct ConnectorControl {
    force_stop: KillSwitch,
    tasks: Ghost<int>,
}

/// These are the steps to an immediate end: those who wait learn why before their tasks are told to
/// stop, and the owner of the transport wakes up when everything else is done.
pub open spec fn stop_steps(steps: Seq<StopStep>) -> bool {
    &&& steps.len() == 4
    &&& steps[0] matches StopStep::FailChannels(error) && error.spec_kind() == ErrorKind::IOError(
        IoErrorKind::ConnectionAborted,
        None,
    )
    &&& steps[1] is StopTasks
    &&& steps[2] is StopRequests
    &&& steps[3] is WakeTransport
}

impl ConnectorControl {
    /// Has the connection been stopped?
    pub closed spec fn stopped(self) -> bool {
        self.force_stop.spec_killed()
    }

    /// The event that tells the tasks of the connection to stop.
    pub closed spec fn signal(self) -> int {
        self.tasks@
    }

    /// The connection was stopped: the first time these are the steps to take, afterwards there are
    /// none.
    pub open spec fn halted(self, after: ConnectorControl, steps: Seq<StopStep>) -> bool {
        &&& after.stopped()
        &&& after.signal() == self.signal()
        &&& if self.stopped() {
            steps.len() == 0
        } else {
            stop_steps(steps)
        }
    }

    /// The control of a new connection with these tasks.
    pub fn new(tasks: &TaskScope) -> (control: ConnectorControl)
        ensures
            !control.stopped(),
            control.signal() == tasks.signal(),
    {
        ConnectorControl { force_stop: KillSwitch::default(), tasks: Ghost(tasks.signal()) }
    }

    /// Stop the connection. The first time these are the steps to take, afterwards there are none.
    pub fn stop(&mut self) -> (steps: Vec<StopStep>)
        ensures
            old(self).halted(*final(self), steps@),
            final(self).stopped(),
            old(self).stopped() ==> steps@.len() == 0,
            !old(self).stopped() ==> {
                &&& steps@.len() == 4
                &&& steps@[0] matches StopStep::FailChannels(error) && error.spec_kind()
                    == ErrorKind::IOError(IoErrorKind::ConnectionAborted, None)
                &&& steps@[1] is StopTasks
                &&& steps@[2] is StopRequests
                &&& steps@[3] is WakeTransport
            },
    {
        let mut steps: Vec<StopStep> = Vec::new();
        if self.force_stop.kill() {
            steps.push(StopStep::FailChannels(Error::io(IoErrorKind::ConnectionAborted)));
            steps.push(StopStep::StopTasks);
            steps.push(StopStep::StopRequests);
            steps.push(StopStep::WakeTransport);
        }
        steps
    }

    /// Has the connection been stopped?
    pub fn is_stopped(&self) -> (yes: bool)
        ensures
            yes == self.stopped(),
    {
        self.force_stop.killed()
    }
}

/// How far the owner of a driver has come with joining it.
#[derive(Debug)]
pub enum Joined {
    /// There are tasks left: try again with the same result when one of them is gone.
    Waiting(Result<(), Error>),
    /// Everything is gone.
    Done {
        /// What physical I/O said.
        result: Result<(), Error>,
        /// The steps that are left to take.
        steps: Vec<StopStep>,
    },
}

/// Owner of the physical driver of a connection whose transport was supplied.
pub struct ConnectionDriver(ConnectorControl);

impl ConnectionDriver {
    /// What ends the connection.
    pub closed spec fn control(self) -> ConnectorControl {
        self.0
    }

    /// Own the driver that this control belongs to.
    pub fn new(control: ConnectorControl) -> (driver: ConnectionDriver)
        ensures
            driver.control() == control,
    {
        ConnectionDriver(control)
    }

    /// Stop physical I/O immediately without sending protocol cleanup. The first time these are the
    /// steps to take, afterwards there are none.
    pub fn stop(&mut self) -> (steps: Vec<StopStep>)
        ensures
            old(self).control().halted(final(self).control(), steps@),
            final(self).control().stopped(),
            old(self).control().stopped() ==> steps@.len() == 0,
            !old(self).control().stopped() ==> {
                &&& steps@.len() == 4
                &&& steps@[0] matches StopStep::FailChannels(error) && error.spec_kind()
                    == ErrorKind::IOError(IoErrorKind::ConnectionAborted, None)
                &&& steps@[1] is StopTasks
                &&& steps@[2] is StopRequests
                &&& steps@[3] is WakeTransport
            },
    {
        self.0.stop()
    }

    /// Whether physical I/O and all tasks of the connection have exited.
    #[must_use]
    pub fn is_finished(&self, io_finished: bool, tasks: &TaskScope) -> (finished: bool)
        requires
            tasks.signal() == self.control().signal(),
        ensures
            finished == (io_finished && tasks@.active == 0),
    {
        io_finished && tasks.is_finished()
    }

    /// Physical I/O has exited with this result: tell the tasks of the connection to stop. Only when no
    /// task is left is the result handed out, and the owner has done its part: it ends as if it were
    /// dropped, so the connection is stopped unless it has been already. Its stop handles stay what
    /// they are.
    pub fn join(&mut self, result: Result<(), Error>, tasks: &mut TaskScope) -> (joined: Joined)
        requires
            old(tasks).signal() == old(self).control().signal(),
        ensures
            final(tasks)@ == old(tasks)@.halted(),
            final(tasks).signal() == old(tasks).signal(),
            final(tasks).untold() == 0,
            match joined {
                Joined::Done { result: outcome, steps } => {
                    &&& final(tasks)@.active == 0
                    &&& outcome == result
                    &&& old(self).control().halted(final(self).control(), steps@)
                },
                Joined::Waiting(outcome) => {
                    &&& final(tasks)@.active > 0
                    &&& outcome == result
                    &&& final(self).control() == old(self).control()
                },
            },
            joined is Done <==> old(tasks)@.active == 0,
            final(tasks)@.stopped,
            final(tasks)@.active == old(tasks)@.active,
            joined matches Joined::Done { steps, .. } ==> {
                &&& final(self).control().stopped()
                &&& steps@.len() == if old(self).control().stopped() {
                    0nat
                } else {
                    4nat
                }
            },
    {
        tasks.stop();
        match tasks.wait() {
            Poll::Ready(()) => Joined::Done { result, steps: self.0.stop() },
            Poll::Pending => Joined::Waiting(result),
        }
    }

    /// What stops the connection without being its owner. It goes by the same switch as the owner.
    pub fn stop_handle(&mut self) -> (handle: &mut ConnectorControl)
        ensures
            *handle == old(self).control(),
            final(self).control() == *final(handle),
    {
        &mut self.0
    }
}

/// The lifecycle stage of a connection, and what it permits.
#[derive(Clone, Copy, Debug, PartialEq, Eq, Structural)]
pub struct ConnectionStatus {
    state: ConnectionState,
}

impl ConnectionStatus {
    /// The stage, in contracts.
    pub closed spec fn spec_state(self) -> ConnectionState {
        self.state
    }

    /// The status of a new connection.
    pub fn new() -> (status: ConnectionStatus)
        ensures
            status.spec_state() == ConnectionState::Initial,
    {
        ConnectionStatus { state: ConnectionState::Initial }
    }

    /// The stage.
    pub fn state(&self) -> (state: ConnectionState)
        ensures
            state == self.spec_state(),
    {
        self.state
    }

    /// Move on to another stage.
    pub fn set_state(&mut self, state: ConnectionState)
        ensures
            final(self).spec_state() == state,
    {
        self.state = state;
    }

    /// Refuse what only an established connection can do.
    pub fn ensure_connected(&self) -> (checked: Result<(), Error>)
        ensures
            match checked {
                Ok(()) => self.spec_state() == ConnectionState::Connected,
                Err(error) => self.spec_state() != ConnectionState::Connected && error.spec_kind()
                    == ErrorKind::InvalidConnectionState(self.spec_state()),
            },
    {
        if self.state == ConnectionState::Connected {
            Ok(())
        } else {
            Err(Error::new(ErrorKind::InvalidConnectionState(self.state)))
        }
    }
}

/// What a connection goes by.
#[derive(Clone, Copy, Debug)]
pub struct Configuration {
    /// Recover the connection when it is lost?
    pub auto_recover: bool,
    /// How to authenticate, if not with what the URI says.
    pub auth_provider: Option<Authentication>,
    /// When to try again if connecting fails.
    pub backoff: ExponentialBuilder,
}

impl Configuration {
    /// Take over what the caller wants.
    pub fn new(options: ConnectionProperties) -> (configuration: Configuration)
        ensures
            configuration.follows(options),
            configuration.auto_recover == options.auto_recover,
            configuration.auth_provider == options.auth_provider,
            configuration.backoff == options.backoff,
    {
        Configuration {
            auto_recover: options.auto_recover,
            auth_provider: options.auth_provider,
            backoff: options.backoff,
        }
    }

    /// Is this what the caller wants?
    pub open spec fn follows(self, options: ConnectionProperties) -> bool {
        &&& self.auto_recover == options.auto_recover
        &&& self.auth_provider == options.auth_provider
        &&& self.backoff == options.backoff
    }
}

/// A request to the broker.
#[derive(Clone, Debug, PartialEq, Eq)]
pub enum Command {
    /// Open one more channel.
    CreateChannel,
    /// Close the connection and wait for the reply.
    CloseConnection {
        /// Why, as a number.
        reply_code: u16,
        /// Why, in words.
        reply_text: String,
        /// The class of the method that is to blame, or zero.
        class_id: u16,
        /// The method that is to blame, or zero.
        method_id: u16,
    },
    /// Replace the secret that the connection authenticated with.
    UpdateSecret {
        /// The replacement.
        new_secret: Vec<u8>,
        /// Why, in words.
        reason: String,
    },
}

/// A connection to the broker.
pub struct Connection {
    configuration: Configuration,
    status: ConnectionStatus,
    closes_on_drop: bool,
    explicit_close: bool,
    events: Ghost<int>,
}

/// A connection, in contracts.
pub struct ConnectionView {
    /// What the connection goes by.
    pub configuration: Configuration,
    /// Its lifecycle stage.
    pub state: ConnectionState,
    /// Does the broker get a close when the last handle is dropped?
    pub closes_on_drop: bool,
    /// Does the connection end on explicit request only?
    pub explicit_close: bool,
    /// Which events it tells its listeners.
    pub events: int,
}

impl ConnectionView {
    /// A connection that sends nothing when it is dropped.
    pub open spec fn silent(self) -> ConnectionView {
        ConnectionView { closes_on_drop: false, explicit_close: true, ..self }
    }
}

/// The first step of the handshake: a header that goes out on a channel, and the connection that
/// waits for the reply to it.
pub struct Handshake {
    /// The channel that the header goes out on.
    pub channel: u16,
    /// The header.
    pub header: ProtocolVersion,
    /// The connection that the reply is for.
    pub connection: Connection,
}

/// The parts of a connection that has not started yet.
pub struct Parts {
    /// The connection.
    pub connection: Connection,
    /// What ends it.
    pub control: ConnectorControl,
    /// What the owner of the transport waits for.
    pub socket: SocketState,
    /// The tasks of the connection.
    pub tasks: TaskScope,
    /// What the connection tells its listeners.
    pub events: Events,
    /// Where to connect to.
    pub uri: AMQPUri,
    /// When to try again if connecting fails.
    pub backoff: ExponentialBuilder,
}

impl Parts {
    /// Are these the parts of a new connection to this URI with these options?
    pub open spec fn fresh(self, uri: AMQPUri, options: ConnectionProperties) -> bool {
        &&& self.uri == uri
        &&& self.backoff == options.backoff
        &&& self.connection@.configuration.follows(options)
        &&& self.connection@.state == ConnectionState::Initial
        &&& self.connection@.events == self.events.identity()
        &&& !self.control.stopped()
        &&& self.control.signal() == self.tasks.signal()
        &&& self.socket.well_formed()
        &&& self.socket@ == crate::socket_state::SocketView::fresh()
        &&& self.tasks@ == crate::task_scope::ScopeView::fresh()
        &&& self.tasks.untold() == 0
        &&& self.events.well_formed()
        &&& self.events.spec_sender().listeners() == Seq::<crate::events::ListenerView>::empty()
        &&& !self.events.spec_sender().overflowed()
    }
}

/// The one transport that a connection was given.
pub struct SuppliedStream<S> {
    stream: Option<S>,
}

/// The text of the error for a supplied transport with options that it does not go with.
pub open spec fn stream_refusal() -> Seq<char> {
    "supplied AMQP transport requires explicit authentication without automatic recovery or refresh"@
}

/// The text of the error for a supplied transport that is asked for once more.
pub open spec fn stream_consumed() -> Seq<char> {
    "supplied AMQP transport was already consumed"@
}

/// The text of the error for a supplied connector with options that it does not go with.
pub open spec fn connector_refusal() -> Seq<char> {
    "supplied connector requires explicit authentication without token refresh"@
}

impl<S> SuppliedStream<S> {
    /// The transport, if it has not been handed out yet.
    pub closed spec fn available(self) -> Option<S> {
        self.stream
    }

    /// Keep a transport until it is asked for.
    pub fn new(stream: S) -> (supplied: SuppliedStream<S>)
        ensures
            supplied.available() == Some(stream),
    {
        SuppliedStream { stream: Some(stream) }
    }

    /// Hand out the transport. There is none to hand out a second time.
    pub fn connect(&mut self) -> (connected: Result<S, Error>)
        ensures
            final(self).available() is None,
            match old(self).available() {
                Some(stream) => connected == Ok::<S, Error>(stream),
                None => connected matches Err(error) && error.is_io_message(
                    IoErrorKind::NotConnected,
                    stream_consumed(),
                ),
            },
            old(self).available() is None ==> (connected matches Err(error) && error.spec_kind()
                matches ErrorKind::IOError(IoErrorKind::NotConnected, Some(text)) && text@
                == "supplied AMQP transport was already consumed"@),
    {
        match self.stream.take() {
            Some(stream) => Ok(stream),
            None => Err(
                Error::io_message(
                    IoErrorKind::NotConnected,
                    "supplied AMQP transport was already consumed",
                ),
            ),
        }
    }
}

impl Connection {
    /// The connection, in contracts.
    pub closed spec fn view(&self) -> ConnectionView {
        ConnectionView {
            configuration: self.configuration,
            state: self.status.spec_state(),
            closes_on_drop: self.closes_on_drop,
            explicit_close: self.explicit_close,
            events: self.events@,
        }
    }

    /// A connection that has not started yet, with these events.
    pub fn new(configuration: Configuration, status: ConnectionStatus, events: &Events) -> (connection:
        Connection)
        ensures
            connection@ == (ConnectionView {
                configuration,
                state: status.spec_state(),
                closes_on_drop: true,
                explicit_close: false,
                events: events.identity(),
            }),
    {
        Connection {
            configuration,
            status,
            closes_on_drop: true,
            explicit_close: false,
            events: Ghost(events.identity()),
        }
    }

    /// A connection that stands in for a lost one while it is recovered.
    pub fn for_reconnect(
        configuration: Configuration,
        status: ConnectionStatus,
        events: &Events,
    ) -> (connection: Connection)
        ensures
            connection@ == (ConnectionView {
                configuration,
                state: status.spec_state(),
                closes_on_drop: false,
                explicit_close: true,
                events: events.identity(),
            }),
    {
        let mut connection = Connection::new(configuration, status, events);
        connection.silence();
        connection
    }

    /// Send nothing to the broker when the connection is dropped.
    fn silence(&mut self)
        ensures
            final(self)@ == old(self)@.silent(),
    {
        self.closes_on_drop = false;
        self.explicit_close = true;
    }

    /// Open one more channel, if the connection is established.
    pub fn create_channel(&self) -> (request: Result<Command, Error>)
        ensures
            match request {
                Ok(command) => self@.state == ConnectionState::Connected && command
                    == Command::CreateChannel,
                Err(error) => self@.state != ConnectionState::Connected && error.spec_kind()
                    == ErrorKind::InvalidConnectionState(self@.state),
            },
    {
        match self.status.ensure_connected() {
            Ok(()) => Ok(Command::CreateChannel),
            Err(error) => Err(error),
        }
    }

    /// Listen to what happens to the connection. Every listener gets every event.
    pub fn events_listener(&self, events: &mut Events) -> (stream: EventStream)
        requires
            old(events).well_formed(),
            old(events).identity() == self@.events,
        ensures
            final(events).well_formed(),
            final(events).identity() == old(events).identity(),
            final(events).spec_sender().listeners() == crate::events::remaining(
                old(events).spec_sender().listeners(),
            ).push(
                crate::events::ListenerView::fresh(
                    crate::channel::listened_channel(stream.receiver),
                ),
            ),
            final(events).spec_sender().overflowed() == old(events).spec_sender().overflowed(),
            !stream.notice.given(),
            forall|i: int|
                0 <= i < old(events).spec_sender().listeners().len() && !(old(events).spec_sender().listeners()[i].tried.len() > 0
                    && old(events).spec_sender().listeners()[i].tried.last().1 is Gone) ==> final(events).spec_sender().listeners().contains(
                    #[trigger] old(events).spec_sender().listeners()[i],
                ),
            final(events).spec_sender().listeners().drop_last() == old(events).spec_sender().listeners().filter(
                |listener: crate::events::ListenerView|
                    listener.tried.len() == 0 || listener.tried.last().1 !is Gone,
            ),
            final(events).spec_sender().listeners().len() > 0,
            final(events).spec_sender().listeners().last().channel == crate::channel::listened_channel(stream.receiver),
            final(events).spec_sender().listeners().last().capacity == 64,
            final(events).spec_sender().listeners().last().tried.len() == 0,
            forall|i: int, j: int|
                0 <= i < j < final(events).spec_sender().listeners().len() ==> (#[trigger] final(events).spec_sender().listeners()[i]).channel != (
                #[trigger] final(events).spec_sender().listeners()[j]).channel,
    {
        events.listener()
    }

    /// What the connection goes by.
    #[must_use]
    pub fn configuration(&self) -> (configuration: &Configuration)
        ensures
            *configuration == self@.configuration,
    {
        &self.configuration
    }

    /// What the connection goes by, to be changed.
    pub fn configuration_mut(&mut self) -> (configuration: &mut Configuration)
        ensures
            *configuration == old(self)@.configuration,
            final(self)@ == (ConnectionView { configuration: *final(configuration), ..old(self)@ }),
    {
        &mut self.configuration
    }

    /// The lifecycle stage of the connection.
    #[must_use]
    pub fn status(&self) -> (status: &ConnectionStatus)
        ensures
            status.spec_state() == self@.state,
    {
        &self.status
    }

    /// The lifecycle stage of the connection, to be changed.
    pub fn status_mut(&mut self) -> (status: &mut ConnectionStatus)
        ensures
            status.spec_state() == old(self)@.state,
            final(self)@ == (ConnectionView { state: final(status).spec_state(), ..old(self)@ }),
    {
        &mut self.status
    }

    /// Does the broker get a close when the connection is dropped?
    pub fn closes_on_drop(&self) -> (yes: bool)
        ensures
            yes == self@.closes_on_drop,
    {
        self.closes_on_drop
    }

    /// Does the connection end on explicit request only?
    pub fn explicit_close(&self) -> (yes: bool)
        ensures
            yes == self@.explicit_close,
    {
        self.explicit_close
    }

    /// Close the connection gracefully, if it is established.
    pub fn close(&self, reply_code: u16, reply_text: String) -> (request: Result<Command, Error>)
        ensures
            match request {
                Ok(command) => self@.state == ConnectionState::Connected && command == (
                Command::CloseConnection { reply_code, reply_text, class_id: 0, method_id: 0 }),
                Err(error) => self@.state != ConnectionState::Connected && error.spec_kind()
                    == ErrorKind::InvalidConnectionState(self@.state),
            },
    {
        match self.status.ensure_connected() {
            Ok(()) => Ok(
                Command::CloseConnection { reply_code, reply_text, class_id: 0, method_id: 0 },
            ),
            Err(error) => Err(error),
        }
    }

    /// Replace the secret that the connection authenticated with, if it is established.
    pub fn update_secret(&self, new_secret: Vec<u8>, reason: String) -> (request: Result<
        Command,
        Error,
    >)
        ensures
            match request {
                Ok(command) => self@.state == ConnectionState::Connected && command == (
                Command::UpdateSecret { new_secret, reason }),
                Err(error) => self@.state != ConnectionState::Connected && error.spec_kind()
                    == ErrorKind::InvalidConnectionState(self@.state),
            },
    {
        match self.status.ensure_connected() {
            Ok(()) => Ok(Command::UpdateSecret { new_secret, reason }),
            Err(error) => Err(error),
        }
    }

    /// The parts of a connection over transports that a connector of the caller opens.
    pub fn connector(uri: AMQPUri, options: ConnectionProperties) -> (parts: Parts)
        ensures
            parts.fresh(uri, options),
            parts.uri == uri,
            parts.backoff == options.backoff,
            parts.connection@.configuration.auto_recover == options.auto_recover,
            parts.connection@.configuration.auth_provider == options.auth_provider,
            parts.connection@.configuration.backoff == options.backoff,
            parts.connection@.state == ConnectionState::Initial,
            parts.connection@.closes_on_drop,
            !parts.connection@.explicit_close,
    {
        Connection::connector_parts(uri, options)
    }

    /// Put the parts of a connection together.
    fn connector_parts(uri: AMQPUri, options: ConnectionProperties) -> (parts: Parts)
        ensures
            parts.fresh(uri, options),
            parts.connection@.closes_on_drop,
            !parts.connection@.explicit_close,
    {
        let tasks = TaskScope::new();
        let events = Events::new();
        let configuration = Configuration::new(options);
        let connection = Connection::new(configuration, ConnectionStatus::new(), &events);
        let backoff = connection.configuration().backoff;
        Parts {
            connection,
            control: ConnectorControl::new(&tasks),
            socket: SocketState::new(),
            tasks,
            events,
            uri,
            backoff,
        }
    }

    /// Use exactly one transport of the caller and an explicit authentication provider. The
    /// connection is never recovered or tried again, its credentials are never renewed, and it sends
    /// nothing when it is dropped.
    pub fn from_stream<S>(uri: AMQPUri, stream: S, options: ConnectionProperties) -> (supplied:
        Result<(Parts, SuppliedStream<S>), Error>)
        ensures
            match supplied {
                Ok((parts, transport)) => {
                    &&& !options.auto_recover
                    &&& options.explicit_authentication()
                    &&& crate::configuration::max_retries(parts.backoff) == Some(0usize)
                    &&& exists|base: ExponentialBuilder|
                        crate::configuration::max_retries(base) == Some(3usize) && parts.backoff
                            == #[trigger] crate::configuration::retrying_at_most(base, 0)
                    &&& parts.fresh(
                        uri,
                        ConnectionProperties { backoff: parts.backoff, ..options },
                    )
                    &&& !parts.connection@.closes_on_drop
                    &&& parts.connection@.explicit_close
                    &&& transport.available() == Some(stream)
                },
                Err(error) => {
                    &&& options.auto_recover || !options.explicit_authentication()
                    &&& error.is_io_message(IoErrorKind::InvalidInput, stream_refusal())
                },
            },
            supplied is Ok <==> !options.auto_recover && options.auth_provider is Some
                && options.auth_provider->0.valid_for is None,
            supplied matches Ok((parts, _)) ==> {
                &&& parts.uri == uri
                &&& !parts.connection@.configuration.auto_recover
                &&& parts.connection@.configuration.auth_provider == options.auth_provider
                &&& parts.connection@.configuration.backoff == parts.backoff
                &&& parts.connection@.state == ConnectionState::Initial
            },
            supplied matches Err(error) ==> (error.spec_kind() matches ErrorKind::IOError(
                IoErrorKind::InvalidInput,
                Some(text),
            ) && text@
                == "supplied AMQP transport requires explicit authentication without automatic recovery or refresh"@),
    {
        if options.auto_recover || !options.has_explicit_authentication() {
            return Err(
                Error::io_message(
                    IoErrorKind::InvalidInput,
                    "supplied AMQP transport requires explicit authentication without automatic recovery or refresh",
                ),
            );
        }
        let mut parts = Connection::connector_parts(uri, options.without_retry());
        parts.connection.silence();
        Ok((parts, SuppliedStream::new(stream)))
    }

    /// Use a connector of the caller for every attempt, under the retry and recovery policy that the
    /// caller declares, with an explicit authentication provider. The credentials are never renewed,
    /// and the connection sends nothing when it is dropped.
    pub fn from_connector(uri: AMQPUri, options: ConnectionProperties) -> (supplied: Result<
        Parts,
        Error,
    >)
        ensures
            match supplied {
                Ok(parts) => {
                    &&& options.explicit_authentication()
                    &&& parts.fresh(uri, options)
                    &&& !parts.connection@.closes_on_drop
                    &&& parts.connection@.explicit_close
                },
                Err(error) => {
                    &&& !options.explicit_authentication()
                    &&& error.is_io_message(IoErrorKind::Other, connector_refusal())
                },
            },
            supplied is Ok <==> options.auth_provider is Some
                && options.auth_provider->0.valid_for is None,
            supplied matches Ok(parts) ==> {
                &&& parts.uri == uri
                &&& parts.backoff == options.backoff
                &&& parts.connection@.configuration.auto_recover == options.auto_recover
                &&& parts.connection@.configuration.auth_provider == options.auth_provider
                &&& parts.connection@.configuration.backoff == options.backoff
                &&& parts.connection@.state == ConnectionState::Initial
            },
            supplied matches Err(error) ==> (error.spec_kind() matches ErrorKind::IOError(
                IoErrorKind::Other,
                Some(text),
            ) && text@
                == "supplied connector requires explicit authentication without token refresh"@),
    {
        if !options.has_explicit_authentication() {
            return Err(
                Error::io_message(
                    IoErrorKind::Other,
                    "supplied connector requires explicit authentication without token refresh",
                ),
            );
        }
        let mut parts = Connection::connector_parts(uri, options);
        parts.connection.silence();
        Ok(parts)
    }

    /// Start the handshake, if the connection may be marked as connecting: it is, and the protocol
    /// header goes out on channel zero.
    pub fn start(self, connecting: Result<(), Error>) -> (started: Result<Handshake, Error>)
        ensures
            match (connecting, started) {
                (Ok(()), Ok(handshake)) => {
                    &&& handshake.channel == 0
                    &&& handshake.header == (ProtocolVersion { major: 0, minor: 9, revision: 1 })
                    &&& handshake.connection@ == (ConnectionView {
                        state: ConnectionState::Connecting,
                        ..self@
                    })
                },
                (Err(error), Err(returned)) => returned == error,
                _ => false,
            },
    {
        match connecting {
            Ok(()) => {
                let mut connection = self;
                connection.status.set_state(ConnectionState::Connecting);
                Ok(Handshake { channel: 0, header: amqp_0_9_1(), connection })
            },
            Err(error) => Err(error),
        }
    }
}

} // verus!
