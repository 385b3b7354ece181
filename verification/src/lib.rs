//! A JSON-RPC-over-HTTP transport adapter.
//!
//! The library holds the verified half of the adapter: endpoint parsing and
//! rendering, authorization-header construction, request/response envelope
//! encoding and decoding, and the immutable transport configuration. The
//! network exchange itself (one HTTP POST per call, bounded by a deadline)
//! is performed by the surrounding application code on top of these pieces.

use vstd::prelude::*;

pub mod auth;
pub mod codec;
pub mod endpoint;
pub mod hyper_http;

verus! {

/// The fault that ended an HTTP exchange.
#[derive(Clone, Copy, Debug, PartialEq, Eq, Structural)]
pub enum TransportFault {
    /// The configured deadline expired before the exchange completed.
    Timeout,
    /// The connection could not be established or broke mid-exchange.
    Connection,
    /// The server answered with a status outside the 2xx range.
    Status,
}

/// Every failure the transport surfaces, one inspectable value per kind.
#[derive(Clone, Copy, Debug, PartialEq, Eq, Structural)]
pub enum Error {
    /// The endpoint string handed to the builder did not parse.
    InvalidEndpoint,
    /// The request envelope could not be encoded as JSON.
    Serialization,
    /// The HTTP exchange failed, timed out, or never completed.
    Transport(TransportFault),
    /// The response body was not valid JSON or did not match the
    /// expected single-versus-batch shape.
    Deserialization,
}

} // verus!
