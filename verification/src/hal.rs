//! Models of the host resources a display is wired to: output pins, a serial
//! bus and a delay provider.
//!
//! Each trait carries an observable history as ghost state, so that the
//! transports built on top of them can state exactly which transitions they
//! drive onto the wires. Implementations decide what the history means
//! physically; the mock implementations in [`crate::mock`] record it as data.

use vstd::prelude::*;

verus! {

/// A single output line.
///
/// `ops()` is the history of write attempts, oldest first: `Some(level)` for
/// an acknowledged write, `None` for a failed attempt, after which the
/// physical level of the line is unknown.
pub trait OutputPin: Sized {
    /// Error reported by a failed write.
    type Error;

    /// History of write attempts on this line.
    spec fn ops(&self) -> Seq<Option<bool>>;

    /// Drives the line low.
    fn set_low(&mut self) -> (r: Result<(), Self::Error>)
        ensures
            r is Ok ==> final(self).ops() == old(self).ops().push(Some(false)),
            r is Err ==> final(self).ops() == old(self).ops().push(None),
    ;

    /// Drives the line high.
    fn set_high(&mut self) -> (r: Result<(), Self::Error>)
        ensures
            r is Ok ==> final(self).ops() == old(self).ops().push(Some(true)),
            r is Err ==> final(self).ops() == old(self).ops().push(None),
    ;
}

/// A serial (clocked) byte bus.
///
/// `writes()` is the history of bursts the bus acknowledged, oldest first.
/// After a failed burst the history is unspecified: the transport built on
/// top must not draw conclusions about the wire state after an error.
pub trait SpiDevice: Sized {
    /// Error reported by a failed transfer.
    type Error;

    /// History of acknowledged bursts.
    spec fn writes(&self) -> Seq<Seq<u8>>;

    /// Sends one burst of bytes.
    fn write(&mut self, words: &[u8]) -> (r: Result<(), Self::Error>)
        ensures
            r is Ok ==> final(self).writes() == old(self).writes().push(words@),
    ;
}

/// A provider of settle-time waits.
///
/// `waits()` is the history of waits performed, in microseconds.
pub trait Delay: Sized {
    /// History of waits performed, in microseconds.
    spec fn waits(&self) -> Seq<u32>;

    /// Waits for at least `us` microseconds.
    fn delay_us(&mut self, us: u32)
        ensures
            final(self).waits() == old(self).waits().push(us),
    ;
}

} // verus!
