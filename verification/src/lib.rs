//! Decoding of the kernel's TCP socket-diagnostics structure, and the
//! success/failure contract around the query that fills it.
//!
//! The layout of the structure is declared as an ordered list of bit widths
//! (`layout`); raw bytes are interpreted by position alone, least-significant
//! bit first within each byte (`bits`); `tcp_info` ties the two together and
//! maps a failed query to a typed error.

pub mod bits;
pub mod layout;
pub mod tcp_info;

use vstd::prelude::*;

verus! {

/// Number of bytes of the declared diagnostics layout.
pub const TCP_INFO_LEN: usize = 224;

} // verus!
