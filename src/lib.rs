//! Host-based HTTP reverse proxy: the request-dispatch and forwarding logic.
//!
//! Header sets are ordered lists of name/value pairs whose names compare
//! ASCII case-insensitively. The modules build on each other leaf-first:
//! text comparison, header filtering, forwarded-for bookkeeping, the site
//! router, response building and the forwarding decisions.
pub mod text;
pub mod headers;
pub mod forwarded;
pub mod router;
pub mod response;
pub mod forward;
pub mod dispatch;
