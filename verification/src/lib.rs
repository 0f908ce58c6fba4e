//! A CORS-unlocking relay library for HTTP Live Streaming content.
//!
//! The heart of the library is the manifest rewriter: it walks an HLS
//! playlist line by line, classifies each line, resolves segment and key
//! references against the manifest's own URL, and re-emits self-referential
//! proxied URLs that carry the caller's `Referer`/`Origin` overrides forward.
//! Around it stand the request validator and the response assembler.

pub mod encode;
pub mod handler;
pub mod resolve;
pub mod rewrite;
pub mod text;
