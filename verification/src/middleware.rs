//! Request-side policies: the per-request CSP nonce, the rate-limit
//! buckets of the HTTP routes, and the security headers.

pub mod nonce;
pub mod rate_limit;
pub mod security_headers;
