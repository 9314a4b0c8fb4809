//! The asynchronous I/O abstraction: operations hand back a resumable unit
//! that a cooperative scheduler drives, by repeated calls of `resume`, until
//! it reports completion.

use vstd::prelude::*;

verus! {

/// What one resumption of a unit reports.
#[derive(Debug)]
pub enum Poll<T> {
    /// The operation is complete, with this result.
    Ready(T),
    /// The operation is suspended and asks to be resumed again.
    Pending,
}

/// What a resumption reports for one non-blocking attempt: success and a
/// peripheral error complete the operation, "would block" suspends it.
pub open spec fn settled<T, E>(attempt: Result<T, nb::Error<E>>) -> Poll<Result<T, E>> {
    match attempt {
        Ok(value) => Poll::Ready(Ok(value)),
        Err(nb::Error::WouldBlock) => Poll::Pending,
        Err(nb::Error::Other(e)) => Poll::Ready(Err(e)),
    }
}

/// Turns the outcome of one non-blocking attempt into what the resumption
/// reports.
pub fn settle<T, E>(attempt: nb::Result<T, E>) -> (r: Poll<Result<T, E>>)
    ensures
        r == settled(attempt),
{
    match attempt {
        Ok(value) => Poll::Ready(Ok(value)),
        Err(nb::Error::WouldBlock) => Poll::Pending,
        Err(nb::Error::Other(e)) => Poll::Ready(Err(e)),
    }
}

/// An operation in progress. Each call of `resume` performs one bounded piece
/// of work and says whether the operation is complete.
pub trait Resume {
    /// The result that the operation completes with.
    type Output;

    /// The unit's own invariant, and that of the peripheral it holds.
    spec fn wf(&self) -> bool;

    fn resume(&mut self) -> (r: Poll<Self::Output>)
        requires
            old(self).wf(),
        ensures
            final(self).wf(),
    ;
}

/// Read half of a serial interface.
pub trait AsyncRead {
    /// Read error
    type Error;

    /// Unit that reads a single byte
    type ReadByteFuture<'t>: Resume<Output = Result<u8, Self::Error>> where Self: 't;

    /// Unit that fills a buffer
    type ReadFuture<'t>: Resume<Output = Result<(), Self::Error>> where Self: 't;

    /// The states of the peripheral in which a read may be started.
    spec fn read_inv(&self) -> bool;

    /// Reads a single byte from the serial interface
    fn async_read_byte(&mut self) -> (unit: Self::ReadByteFuture<'_>)
        requires
            old(self).read_inv(),
        ensures
            unit.wf(),
    ;

    /// Reads an array of bytes from the serial interface
    fn async_read<'a>(&'a mut self, data: &'a mut [u8]) -> (unit: Self::ReadFuture<'a>)
        requires
            old(self).read_inv(),
        ensures
            unit.wf(),
    ;
}

/// Write half of a serial interface.
pub trait AsyncWrite {
    /// Write error
    type Error;

    /// Unit that writes a single byte
    type WriteByteFuture<'t>: Resume<Output = Result<(), Self::Error>> where Self: 't;

    /// Unit that writes a buffer and then flushes
    type WriteFuture<'t>: Resume<Output = Result<(), Self::Error>> where Self: 't;

    /// Unit that waits until nothing is buffered any more
    type FlushFuture<'t>: Resume<Output = Result<(), Self::Error>> where Self: 't;

    /// The states of the peripheral in which a write may be started.
    spec fn write_inv(&self) -> bool;

    /// Writes a single byte to the serial interface. The unit completes when
    /// the peripheral has accepted the byte.
    fn async_write_byte(&mut self, byte: u8) -> (unit: Self::WriteByteFuture<'_>)
        requires
            old(self).write_inv(),
        ensures
            unit.wf(),
    ;

    /// Writes an array of bytes to the serial interface, then waits until
    /// none of them is buffered any more.
    fn async_write<'a>(&'a mut self, data: &'a [u8]) -> (unit: Self::WriteFuture<'a>)
        requires
            old(self).write_inv(),
        ensures
            unit.wf(),
    ;

    /// Ensures that none of the previously written words are still buffered
    fn async_flush(&mut self) -> (unit: Self::FlushFuture<'_>)
        requires
            old(self).write_inv(),
        ensures
            unit.wf(),
    ;
}

} // verus!
