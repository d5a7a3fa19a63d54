//! BIOS interrupts, reachable while the processor runs in real or unreal mode.

use vstd::prelude::*;
use crate::teletype::{teletype, teletype_bytes};

verus! {

struct Zst;

/// A witness that BIOS interrupts may be called: only the mode tokens that allow it hand one
/// out.
pub struct BiosCaller {
    _z: Zst,
}

impl BiosCaller {
    pub(crate) fn new() -> (r: BiosCaller) {
        BiosCaller { _z: Zst }
    }

    /// Obtain a `BiosWriter` for writing to the frame buffer.
    pub fn writer(&self) -> (r: BiosWriter<'_>)
        ensures
            r.caller() == self,
    {
        BiosWriter { b: self }
    }
}

/// A writer to the framebuffer through the BIOS teletype interrupt.
pub struct BiosWriter<'a> {
    b: &'a BiosCaller,
}

impl<'a> BiosWriter<'a> {
    /// The BIOS caller that this writer prints through.
    pub closed spec fn caller(&self) -> &'a BiosCaller {
        self.b
    }

    /// The bytes that writing `s` hands to the teletype interrupt, one call each, in order.
    pub fn write_str(&self, s: &[u8]) -> (r: Vec<u8>)
        ensures
            r@ == teletype(s@),
    {
        teletype_bytes(s)
    }
}

} // verus!
