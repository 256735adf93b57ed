//! A test double for an HTTP client transport.
//!
//! A [`Connector`] holds an ordered list of expected cases. Each case pairs a
//! matcher with a responder and an optional number of calls. A [`MockStream`]
//! takes the bytes that a client writes, parses them as an HTTP/1.1 request,
//! has the connector pick the first case that matches, and hands the
//! serialised response back to the reader.
//!
//! Everything here is sequential: the connector owns its cases and counts the
//! calls through `&mut self`.

pub mod bindings;
pub mod builder;
pub mod case;
pub mod chunked;
pub mod connector;
pub mod diagnostics;
pub mod error;
pub mod handler;
pub mod level;
pub mod message;
pub mod response;
pub mod stream;
pub mod text;

pub use builder::{Builder, CaseBuilder};
pub use case::{Case, Checkpoint};
pub use connector::{Connector, InnerConnector};
pub use error::Error;
pub use handler::with::json::{Json, Number};
pub use handler::{
    DefaultWith, Function, IntoReturning, IntoWith, Predicate, Reason, Report, Returning, With,
    WithHandler, WithPrint,
};
pub use level::Level;
pub use message::{Header, Request, Response};
pub use response::IntoResponse;
pub use stream::MockStream;
