use vstd::prelude::*;

verus! {

/// Type tag of a CookieEcho chunk.
pub const CT_COOKIE_ECHO: u8 = 10;

/// Type tag of a ShutdownComplete chunk.
pub const CT_SHUTDOWN_COMPLETE: u8 = 14;

} // verus!
