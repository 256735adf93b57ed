//! The calls that this library makes into other crates. Each function here
//! has a contract that is assumed, not proved.

pub mod http;
pub mod httparse;
pub mod itertools;
pub mod json;
pub mod utf8;
