//! Wire codec for SCTP chunks: the uniform four-byte chunk header, the
//! CookieEcho and ShutdownComplete chunk kinds, and the sequencing of
//! chunks into a padded byte stream.

pub mod buffer;
pub mod chunk;
pub mod error;
pub mod packet;
