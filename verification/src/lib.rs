//! A minimal webhook receiver library for live-stream start notifications.
//!
//! The library holds the request-processing pipeline of the receiver: routing
//! of the HTTP method and path, decoding of the JSON event payload, the
//! optional room allow-list filter, and the mapping of every outcome to an
//! HTTP response. The surrounding process (the HTTP transport, the desktop
//! notification facility, argument parsing and signal handling) lives outside
//! the library and only performs the actions this library decides on.

pub mod decode;
pub mod dispatch;
pub mod encode;
pub mod event;
pub mod filter;
pub mod handler;
pub mod http;
pub mod num;
pub mod roundtrip;
pub mod text;
