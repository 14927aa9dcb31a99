//! What a connection is told before it starts: where to, as whom, and what to do when it is lost.
use amq_protocol::uri::AMQPUri;
use backon::ExponentialBuilder;
use vstd::prelude::*;

use crate::error::{Error, ErrorKind};

verus! {

/// A parsed URI of the amq-protocol crate.
#[verifier::external_type_specification]
#[verifier::external_body]
pub struct ExAMQPUri(amq_protocol::uri::AMQPUri);

/// A retry policy of the backon crate.
#[verifier::external_type_specification]
#[verifier::external_body]
pub struct ExExponentialBuilder(backon::ExponentialBuilder);

/// What a text is as a URI, or what is wrong with it.
pub uninterp spec fn parsed_uri(text: Seq<char>) -> Result<AMQPUri, Seq<char>>;

/// The number of times that a retry policy tries again at most, if it has such a bound.
pub uninterp spec fn max_retries(backoff: ExponentialBuilder) -> Option<usize>;

/// A retry policy that differs from another one in its bound alone.
pub uninterp spec fn retrying_at_most(
    backoff: ExponentialBuilder,
    times: usize,
) -> ExponentialBuilder;

/// `str::parse` to an `amq_protocol::uri::AMQPUri`: the URI, or the message that says why there is
/// none. Both depend on the text alone.
#[verifier::external_body]
fn parse(text: &str) -> (parsed: Result<AMQPUri, String>)
    ensures
        match parsed {
            Ok(uri) => parsed_uri(text@) == Ok::<AMQPUri, Seq<char>>(uri),
            Err(message) => parsed_uri(text@) == Err::<AMQPUri, Seq<char>>(message@),
        },
{
    text.parse::<AMQPUri>()
}

/// `backon::ExponentialBuilder::default`: tries again three times.
#[verifier::external_body]
fn default_backoff() -> (backoff: ExponentialBuilder)
    ensures
        max_retries(backoff) == Some(3usize),
{
    ExponentialBuilder::default()
}

/// `backon::ExponentialBuilder::with_max_times`: the same policy with this bound.
#[verifier::external_body]
fn with_max_times(backoff: ExponentialBuilder, times: usize) -> (bounded: ExponentialBuilder)
    ensures
        bounded == retrying_at_most(backoff, times),
        max_retries(bounded) == Some(times),
{
    backoff.with_max_times(times)
}

/// How a connection authenticates itself.
#[derive(Clone, Copy, Debug, PartialEq, Eq, Structural)]
pub struct Authentication {
    /// For how many milliseconds the credentials hold, if they have to be renewed at all.
    pub valid_for: Option<u64>,
}

/// What the caller wants of a connection.
#[derive(Clone, Copy, Debug)]
pub struct ConnectionProperties {
    /// Recover the connection when it is lost?
    pub auto_recover: bool,
    /// How to authenticate, if not with what the URI says.
    pub auth_provider: Option<Authentication>,
    /// When to try again if connecting fails.
    pub backoff: ExponentialBuilder,
}

impl Default for ConnectionProperties {
    fn default() -> (options: ConnectionProperties)
        ensures
            !options.auto_recover,
            options.auth_provider is None,
            max_retries(options.backoff) == Some(3usize),
    {
        ConnectionProperties { auto_recover: false, auth_provider: None, backoff: default_backoff() }
    }
}

impl ConnectionProperties {
    /// Do the credentials come from an explicit provider, and never have to be renewed?
    pub open spec fn explicit_authentication(self) -> bool {
        self.auth_provider matches Some(provider) && provider.valid_for is None
    }

    /// Authenticate this way.
    pub fn with_auth_provider(self, provider: Authentication) -> (options: ConnectionProperties)
        ensures
            options == (ConnectionProperties { auth_provider: Some(provider), ..self }),
    {
        ConnectionProperties { auth_provider: Some(provider), ..self }
    }

    /// Recover the connection when it is lost.
    pub fn enable_auto_recover(self) -> (options: ConnectionProperties)
        ensures
            options == (ConnectionProperties { auto_recover: true, ..self }),
    {
        ConnectionProperties { auto_recover: true, ..self }
    }

    /// Do the credentials come from an explicit provider, and never have to be renewed?
    pub fn has_explicit_authentication(&self) -> (yes: bool)
        ensures
            yes == self.explicit_authentication(),
            yes <==> self.auth_provider is Some && self.auth_provider->0.valid_for is None,
    {
        match self.auth_provider {
            None => false,
            Some(provider) => provider.valid_for.is_none(),
        }
    }

    /// The same options with the default policy, but without any retry.
    pub fn without_retry(self) -> (options: ConnectionProperties)
        ensures
            options == (ConnectionProperties { backoff: options.backoff, ..self }),
            max_retries(options.backoff) == Some(0usize),
            exists|base: ExponentialBuilder|
                max_retries(base) == Some(3usize) && options.backoff
                    == #[trigger] retrying_at_most(base, 0),
    {
        ConnectionProperties { backoff: with_max_times(default_backoff(), 0), ..self }
    }
}

/// Read a URI.
pub fn parse_uri(text: &str) -> (parsed: Result<AMQPUri, Error>)
    ensures
        match parsed_uri(text@) {
            Ok(uri) => parsed == Ok::<AMQPUri, Error>(uri),
            Err(message) => parsed matches Err(error) && error.is_other_message(message),
        },
        parsed_uri(text@) matches Err(message) ==> (parsed matches Err(error)
            && error.spec_kind() matches ErrorKind::Other(said) && said@ == message),
{
    accept_uri(parse(text))
}

/// What becomes of a URI that has been read, or of the message that says why there is none.
pub fn accept_uri(parsed: Result<AMQPUri, String>) -> (accepted: Result<AMQPUri, Error>)
    ensures
        match parsed {
            Ok(uri) => accepted == Ok::<AMQPUri, Error>(uri),
            Err(message) => accepted matches Err(error) && error.is_other_message(message@),
        },
        parsed matches Err(message) ==> (accepted matches Err(error) && error.spec_kind()
            == ErrorKind::Other(message)),
{
    match parsed {
        Ok(uri) => Ok(uri),
        Err(message) => Err(Error::other(message)),
    }
}

} // verus!
