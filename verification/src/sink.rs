//! The serial-bus sink: the external collaborator that performs one
//! physical transfer per flushed frame.
//!
//! The panel controller is written against the [`BusSink`] capability so the
//! encoding core can be exercised without hardware; [`RecordingSink`] keeps
//! every transferred payload, and [`RejectingSink`] refuses every transfer.

use vstd::prelude::*;
use crate::LedError;

verus! {

/// A sink that accepts one byte sequence per call and performs a single
/// physical transfer. Its ghost `log` is the sequence of payloads
/// successfully transferred so far; a failed transfer leaves it unchanged
/// and is reported as `LedError::BusTransferError`.
pub trait BusSink {
    /// The payloads transferred so far, oldest first. A sink that lives
    /// outside the verifier may keep this default; a verified sink gives its
    /// own log.
    open spec fn log(&self) -> Seq<Seq<u8>> {
        Seq::empty()
    }

    /// Transfer `data` in one call; on success the payload is appended to
    /// the transfer log.
    fn transfer(&mut self, data: &[u8]) -> (r: Result<(), LedError>)
        ensures
            r is Ok ==> final(self).log() == old(self).log().push(data@),
            r is Err ==> final(self).log() == old(self).log() && r == Err::<(), LedError>(
                LedError::BusTransferError,
            ),
    ;
}

/// A sink that records every payload instead of driving hardware; every
/// transfer succeeds.
pub struct RecordingSink {
    /// The payloads handed to this sink, oldest first.
    pub transfers: Vec<Vec<u8>>,
}

impl RecordingSink {
    /// A recording sink with an empty transfer log.
    pub fn new() -> (sink: RecordingSink)
        ensures
            sink.log() == Seq::<Seq<u8>>::empty(),
    {
        let sink = RecordingSink { transfers: Vec::new() };
        proof {
            assert(sink.log() =~= Seq::<Seq<u8>>::empty());
        }
        sink
    }
}

impl BusSink for RecordingSink {
    open spec fn log(&self) -> Seq<Seq<u8>> {
        self.transfers@.map_values(|v: Vec<u8>| v@)
    }

    fn transfer(&mut self, data: &[u8]) -> (r: Result<(), LedError>)
        ensures
            r is Ok,
    {
        let payload: Vec<u8> = vstd::slice::slice_to_vec(data);
        self.transfers.push(payload);
        proof {
            assert(self.log() =~= old(self).log().push(data@));
        }
        Ok(())
    }
}

/// A sink whose every transfer fails, as a bus whose device rejects the
/// write would; it never records anything.
pub struct RejectingSink {
}

impl RejectingSink {
    /// A sink that will refuse every transfer.
    pub fn new() -> (sink: RejectingSink)
        ensures
            sink.log() == Seq::<Seq<u8>>::empty(),
    {
        RejectingSink {  }
    }
}

impl BusSink for RejectingSink {
    open spec fn log(&self) -> Seq<Seq<u8>> {
        Seq::empty()
    }

    fn transfer(&mut self, data: &[u8]) -> (r: Result<(), LedError>)
        ensures
            r is Err,
    {
        Err(LedError::BusTransferError)
    }
}

} // verus!
