//! Request gateway core of a local administration service: the credential
//! check, the route dispatcher, the command-line builders used by the handlers
//! and the line relay behind the device-discovery stream.
pub mod auth;
pub mod command;
pub mod dispatch;
pub mod firewall;
pub mod gateway;
pub mod relay;
pub mod text;
