//! The connection core of an AMQP 0.9.1 client.
pub mod channel;
pub mod configuration;
pub mod connection;
pub mod definitions;
pub mod effects;
pub mod error;
pub mod events;
pub mod laws;
pub mod limits;
pub mod registry;
pub mod socket_state;
pub mod task_scope;
pub mod topology;
pub mod types;
