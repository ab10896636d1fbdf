//! NodeMesh: nodes that exchange messages and media.
//!
//! Nodes speak AMP, a text format of headers and a body ([`message`], [`address`], [`validate`]).
//! A daemon on each node keeps connections to its peers ([`connection`], [`peer`], [`link`]), hands
//! messages between them and the local application ([`bridge`]), and runs a selective forwarding
//! unit for WebRTC media ([`sfu`], [`session`], [`room`], [`relay`], [`fanout`], [`unit`],
//! [`events`]). Beside it stand a test harness for browsers ([`harness`]) and a tool that extracts
//! text from documents ([`document`], [`prose`]).
//!
//! What every operation does is stated over mathematical views of its arguments. Laws that relate
//! several operations are public proof functions whose names start with `law_`.
pub mod address;
pub mod bridge;
pub mod config;
pub mod connection;
pub mod document;
pub mod engine;
pub mod events;
pub mod fanout;
pub mod harness;
pub mod json;
pub mod link;
pub mod media;
pub mod message;
pub mod metrics;
pub mod number;
pub mod peer;
pub mod prose;
pub mod relay;
pub mod room;
pub mod roundtrip;
pub mod session;
pub mod sfu;
pub mod strmap;
pub mod text;
pub mod unit;
pub mod validate;
