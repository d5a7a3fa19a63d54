//! Printing to screen with BIOS interrupts.

use vstd::prelude::*;
use crate::teletype::{teletype, teletype_bytes};

verus! {

/// A writer to the framebuffer through the BIOS teletype interrupt.
pub struct BiosWriter;

impl BiosWriter {
    /// The bytes that writing `s` hands to the teletype interrupt, one call each, in order.
    pub fn write_str(&self, s: &[u8]) -> (r: Vec<u8>)
        ensures
            r@ == teletype(s@),
    {
        teletype_bytes(s)
    }
}

} // verus!
