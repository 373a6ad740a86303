//! Request composition and dispatch core of a small REST client: query
//! parameters kept in step with the URL, the plan of one outbound request,
//! and the decoding of whatever came back into displayable text.

pub mod decode;
pub mod dispatch;
pub mod headers;
pub mod params;
pub mod query;
pub mod session;
