//! A JSON-to-query-string HTTP gateway library.
//!
//! The library holds the verified core of a small gateway: it decodes a JSON
//! request body, flattens it into a URL query string with bracket notation,
//! composes the destination URL, and decides the response that is relayed to
//! the caller. The surrounding server (sockets, HTTP framing, task spawning)
//! lives outside the library and hands it plain values.

pub mod bytes;
pub mod decode;
pub mod encode;
pub mod gateway;
pub mod json;
pub mod url;
pub mod percent;

pub use gateway::Config;
pub use gateway::FetchEvent;
pub use gateway::Method;
pub use gateway::Plan;
pub use gateway::Reply;
pub use gateway::handle_request;
pub use gateway::relay;
pub use json::Json;
pub use percent::pct_encode;
pub use url::Target;
