//! What can go wrong while reading the shared region.

use vstd::prelude::*;

verus! {

/// The shared region could not be opened: the monitor is not running, or its
/// shared memory export is switched off.
#[derive(Debug, Clone, Copy, PartialEq, Eq, Structural)]
pub struct SVMOpenError;

impl SVMOpenError {
    /// The message shown to a user.
    pub fn message(&self) -> (r: &'static str)
        ensures
            r@ == "Can't read shared memory. Is HWiNFO running and shared memory support is enabled?"@,
    {
        "Can't read shared memory. Is HWiNFO running and shared memory support is enabled?"
    }
}

/// Why an operation of the reader failed.
#[derive(Debug, Clone, Copy, PartialEq, Eq, Structural)]
pub enum ReaderError {
    /// The region does not exist; worth retrying later.
    NotAvailable,
    /// The header's extents do not fit in the region, or a record is malformed.
    CorruptLayout,
    /// The producer's timestamp has not advanced by a polling period.
    StaleUpdate,
    /// A reinitialization could not open or decode a fresh region; the reader
    /// keeps its last good state.
    ReinitFailed,
}

} // verus!
