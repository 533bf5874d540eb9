use vstd::prelude::*;

verus! {

/// A CRC engine, provided by the platform.
///
/// `spec_crc` is the checksum that the engine computes over a byte string.
pub trait Crc {
    spec fn spec_crc(data: Seq<u8>) -> u32;

    fn calculate(&mut self, data: &[u8]) -> (r: u32)
        ensures
            r == Self::spec_crc(data@),
    ;
}

} // verus!
