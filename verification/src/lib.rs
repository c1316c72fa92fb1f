//! Request/response pairing for an HTTP server core.
//!
//! A handler's response is tied to the request it answers, and the request to
//! the long-lived server state it was built from. [`req_res_pair::ReqResPair`]
//! keeps the three together, moves them through a fixed sequence of phases and
//! finally turns them into a transport-facing value whose body is pulled chunk
//! by chunk through [`stream::IntoBytesStream`].
//!
//! Around that core stand the response model ([`response`]), the rules of the
//! transport for a response head ([`transport`]), the responders that set a
//! status ([`status`]) and the identifier type of the code generator
//! ([`ident`]).

pub mod decimal;
mod hash;
pub mod ident;
pub mod req_res_pair;
pub mod response;
pub mod status;
pub mod stream;
pub mod transport;
