//! A tiny library for an HTTP service that reports the caller's network
//! address. The core is the client-address resolution logic: given the
//! transport-level peer address and the request's headers, decide which IP
//! address to report, and encode it as a plain-text or a JSON response with
//! the right status code. Listening, configuration and logging live outside
//! the library.

pub mod addr;
pub mod resolver;
pub mod encoder;
pub mod router;
pub mod text;

pub use addr::{IpAddress, PeerAddress};
pub use encoder::{decode_json_ip, encode_json, encode_text, HttpResponse};
pub use resolver::{resolve, Policy, RequestHeaders};
pub use router::handle_request;
pub use text::ip_text;
