//! A UART with a transmit queue, its non-blocking driver, and the resumable
//! units that bridge the driver to the asynchronous write interface.

use crate::asynch::{settle, settled, AsyncWrite, Poll, Resume};
use crate::fifo::{Fifo, FIFO_DEPTH};
use vstd::prelude::*;

verus! {

/// Ticks that the byte at the head of the queue takes to leave the line.
pub const TICKS_PER_BYTE: usize = 3;

/// The byte value that the line cannot carry.
pub const INVALID_BYTE: u8 = 0xff;

#[derive(Clone, Copy, Debug)]
pub enum UartError {
    InvalidData,
}

/// The UART as a value: the queued bytes (oldest first), the ticks left until
/// the head byte has been transmitted, the latched error, and every byte
/// transmitted so far, in order.
pub struct UartModel {
    pub fifo: Seq<u8>,
    pub ticks: nat,
    pub error: bool,
    pub sent: Seq<u8>,
}

impl UartModel {
    /// An idle UART that has transmitted `sent`.
    pub open spec fn idle(sent: Seq<u8>) -> UartModel {
        UartModel { fifo: Seq::empty(), ticks: 0, error: false, sent }
    }

    /// The queue holds at most `FIFO_DEPTH` bytes, and the timer is armed
    /// exactly while the queue holds a byte.
    pub open spec fn wf(self) -> bool {
        &&& self.fifo.len() <= FIFO_DEPTH
        &&& self.ticks <= TICKS_PER_BYTE
        &&& (self.ticks > 0 <==> self.fifo.len() > 0)
    }

    pub open spec fn is_idle(self) -> bool {
        self.fifo.len() == 0
    }

    pub open spec fn has_space(self) -> bool {
        self.fifo.len() < FIFO_DEPTH
    }

    /// Queues `byte` if a slot is free, arming the timer if the queue was
    /// empty; a full queue is left as it is.
    pub open spec fn accept(self, byte: u8) -> UartModel {
        if self.has_space() {
            UartModel {
                fifo: self.fifo.push(byte),
                ticks: if self.is_idle() {
                    TICKS_PER_BYTE as nat
                } else {
                    self.ticks
                },
                ..self
            }
        } else {
            self
        }
    }

    /// One tick of the clock. The timer counts down; when it reaches zero the
    /// head byte is transmitted and the timer is armed again for the next
    /// byte, if there is one. Transmitting `INVALID_BYTE` latches the error.
    pub open spec fn tick(self) -> UartModel {
        if self.is_idle() {
            self
        } else if self.ticks > 1 {
            UartModel { ticks: (self.ticks - 1) as nat, ..self }
        } else {
            let byte = self.fifo[0];
            let rest = self.fifo.drop_first();
            UartModel {
                fifo: rest,
                ticks: if rest.len() > 0 {
                    TICKS_PER_BYTE as nat
                } else {
                    0
                },
                error: self.error || byte == INVALID_BYTE,
                sent: self.sent.push(byte),
            }
        }
    }

    pub open spec fn clear_error(self) -> UartModel {
        UartModel { error: false, ..self }
    }

    /// The driver's attempt to write `byte`: a tick, then a latched error is
    /// reported and cleared, else the byte is queued if a slot is free.
    pub open spec fn write(self, byte: u8) -> (UartModel, Result<(), nb::Error<UartError>>) {
        let ticked = self.tick();
        if ticked.error {
            (ticked.clear_error(), Err(nb::Error::Other(UartError::InvalidData)))
        } else if ticked.has_space() {
            (ticked.accept(byte), Ok(()))
        } else {
            (ticked, Err(nb::Error::WouldBlock))
        }
    }

    /// The driver's attempt to flush: a tick, then a latched error is
    /// reported and cleared, else success once the queue is empty.
    pub open spec fn flush(self) -> (UartModel, Result<(), nb::Error<UartError>>) {
        let ticked = self.tick();
        if ticked.error {
            (ticked.clear_error(), Err(nb::Error::Other(UartError::InvalidData)))
        } else if ticked.is_idle() {
            (ticked, Ok(()))
        } else {
            (ticked, Err(nb::Error::WouldBlock))
        }
    }
}

pub struct Uart {
    fifo: Fifo,
    error: bool,
    ticks_to_send: usize,
    sent: Ghost<Seq<u8>>,
}

impl View for Uart {
    type V = UartModel;

    closed spec fn view(&self) -> UartModel {
        UartModel {
            fifo: self.fifo@,
            ticks: self.ticks_to_send as nat,
            error: self.error,
            sent: self.sent@,
        }
    }
}

impl Uart {
    pub closed spec fn wf(&self) -> bool {
        self.fifo.wf() && self@.wf()
    }

    /// A well-formed UART has a well-formed model.
    pub proof fn lemma_wf_model(&self)
        requires
            self.wf(),
        ensures
            self@.wf(),
    {
    }

    pub fn new() -> (uart: Uart)
        ensures
            uart.wf(),
            uart@ == UartModel::idle(Seq::empty()),
    {
        Uart { fifo: Fifo::new(), error: false, ticks_to_send: 0, sent: Ghost(Seq::empty()) }
    }

    pub fn is_idle(&self) -> (idle: bool)
        requires
            self.wf(),
        ensures
            idle == self@.is_idle(),
    {
        self.fifo.is_empty()
    }

    pub fn has_space(&self) -> (space: bool)
        requires
            self.wf(),
        ensures
            space == self@.has_space(),
    {
        !self.fifo.is_full()
    }

    /// Queues `byte` if a slot is free. Time does not advance.
    pub fn write_byte(&mut self, byte: u8)
        requires
            old(self).wf(),
        ensures
            final(self).wf(),
            final(self)@ == old(self)@.accept(byte),
    {
        if !self.fifo.is_full() {
            if self.fifo.is_empty() {
                // start sending
                self.ticks_to_send = TICKS_PER_BYTE;
            }
            self.fifo.push(byte);
        }
    }

    /// Advances the clock by one tick.
    pub fn make_progress(&mut self)
        requires
            old(self).wf(),
        ensures
            final(self).wf(),
            final(self)@ == old(self)@.tick(),
    {
        if !self.fifo.is_empty() {
            if self.ticks_to_send > 1 {
                self.ticks_to_send = self.ticks_to_send - 1;
            } else {
                let byte = self.fifo.pop();
                proof {
                    self.sent@ = self.sent@.push(byte);
                }
                if byte == INVALID_BYTE {
                    self.error = true;
                }
                if self.fifo.is_empty() {
                    self.ticks_to_send = 0;
                } else {
                    // start sending next byte
                    self.ticks_to_send = TICKS_PER_BYTE;
                }
            }
        }
    }

    /// Returns the latched error and clears it.
    pub fn observe_and_clear_error(&mut self) -> (error: bool)
        requires
            old(self).wf(),
        ensures
            final(self).wf(),
            error == old(self)@.error,
            final(self)@ == old(self)@.clear_error(),
    {
        let error = self.error;
        self.error = false;
        error
    }
}

pub struct Serial {
    uart: Uart,
}

impl View for Serial {
    type V = UartModel;

    closed spec fn view(&self) -> UartModel {
        self.uart@
    }
}

impl Serial {
    pub closed spec fn wf(&self) -> bool {
        self.uart.wf()
    }

    /// A well-formed driver has a well-formed model.
    pub proof fn lemma_wf_model(&self)
        requires
            self.wf(),
        ensures
            self@.wf(),
    {
    }

    pub fn new(uart: Uart) -> (serial: Serial)
        ensures
            serial@ == uart@,
            serial.wf() == uart.wf(),
    {
        Self { uart }
    }

    /// One non-blocking attempt to hand `byte` to the UART.
    pub fn write(&mut self, byte: u8) -> (r: nb::Result<(), UartError>)
        requires
            old(self).wf(),
        ensures
            final(self).wf(),
            final(self)@ == old(self)@.write(byte).0,
            r == old(self)@.write(byte).1,
    {
        self.uart.make_progress();

        if self.uart.observe_and_clear_error() {
            return Err(nb::Error::Other(UartError::InvalidData));
        }
        if self.uart.has_space() {
            self.uart.write_byte(byte);
            Ok(())
        } else {
            Err(nb::Error::WouldBlock)
        }
    }

    /// One non-blocking attempt to see the queue drained.
    pub fn flush(&mut self) -> (r: nb::Result<(), UartError>)
        requires
            old(self).wf(),
        ensures
            final(self).wf(),
            final(self)@ == old(self)@.flush().0,
            r == old(self)@.flush().1,
    {
        self.uart.make_progress();

        if self.uart.observe_and_clear_error() {
            return Err(nb::Error::Other(UartError::InvalidData));
        }
        if self.uart.is_idle() {
            Ok(())
        } else {
            Err(nb::Error::WouldBlock)
        }
    }
}

/// A buffer write in progress, as a value: the UART, the bytes to write and
/// how many of them the UART has accepted.
pub struct WriteModel {
    pub uart: UartModel,
    pub data: Seq<u8>,
    pub cursor: nat,
}

impl WriteModel {
    /// The write of `data` before its first resumption.
    pub open spec fn begin(uart: UartModel, data: Seq<u8>) -> WriteModel {
        WriteModel { uart, data, cursor: 0 }
    }

    pub open spec fn wf(self) -> bool {
        self.uart.wf() && self.cursor <= self.data.len()
    }

    /// One resumption. While bytes are left, the next one is offered to the
    /// UART: accepted, it advances the cursor and the unit asks to be resumed;
    /// refused for want of space, the unit asks to be resumed; a reported
    /// error ends the write. With no byte left the unit flushes.
    pub open spec fn step(self) -> (WriteModel, Poll<Result<(), UartError>>) {
        if self.cursor < self.data.len() {
            let (uart, attempt) = self.uart.write(self.data[self.cursor as int]);
            match attempt {
                Ok(()) => (WriteModel { uart, cursor: self.cursor + 1, ..self }, Poll::Pending),
                Err(nb::Error::WouldBlock) => (WriteModel { uart, ..self }, Poll::Pending),
                Err(nb::Error::Other(e)) => (WriteModel { uart, ..self }, Poll::Ready(Err(e))),
            }
        } else {
            let (uart, attempt) = self.uart.flush();
            (WriteModel { uart, ..self }, settled(attempt))
        }
    }

    /// The write after `n` resumptions.
    pub open spec fn after(self, n: nat) -> WriteModel
        decreases n,
    {
        if n == 0 {
            self
        } else {
            self.after((n - 1) as nat).step().0
        }
    }

    /// What resumption number `n` reports, counting from 1.
    pub open spec fn outcome(self, n: nat) -> Poll<Result<(), UartError>>
        recommends
            n >= 1,
    {
        self.after((n - 1) as nat).step().1
    }
}

/// Unit that offers one byte to the UART until it is accepted.
pub struct SerialWriteByteFuture<'a> {
    pub serial: &'a mut Serial,
    pub byte: u8,
}

/// Unit that writes a buffer byte by byte and then flushes.
pub struct SerialWriteFuture<'a> {
    pub serial: &'a mut Serial,
    pub data: &'a [u8],
    pub cursor: usize,
}

/// Unit that waits for the UART to drain its queue.
pub struct SerialFlushFuture<'a> {
    pub serial: &'a mut Serial,
}

impl<'a> View for SerialWriteFuture<'a> {
    type V = WriteModel;

    open spec fn view(&self) -> WriteModel {
        WriteModel { uart: self.serial@, data: self.data@, cursor: self.cursor as nat }
    }
}

impl<'a> Resume for SerialWriteByteFuture<'a> {
    type Output = Result<(), UartError>;

    open spec fn wf(&self) -> bool {
        self.serial.wf()
    }

    fn resume(&mut self) -> (r: Poll<Result<(), UartError>>)
        ensures
            final(self).serial@ == old(self).serial@.write(old(self).byte).0,
            r == settled(old(self).serial@.write(old(self).byte).1),
            final(self).byte == old(self).byte,
            *final(final(self).serial) == *final(old(self).serial),
    {
        settle(self.serial.write(self.byte))
    }
}

impl<'a> Resume for SerialWriteFuture<'a> {
    type Output = Result<(), UartError>;

    open spec fn wf(&self) -> bool {
        self.serial.wf() && self.cursor <= self.data@.len()
    }

    fn resume(&mut self) -> (r: Poll<Result<(), UartError>>)
        ensures
            final(self)@ == old(self)@.step().0,
            r == old(self)@.step().1,
            *final(final(self).serial) == *final(old(self).serial),
    {
        if self.cursor < self.data.len() {
            let byte = self.data[self.cursor];
            match self.serial.write(byte) {
                Ok(()) => {
                    self.cursor = self.cursor + 1;
                    Poll::Pending
                },
                Err(nb::Error::WouldBlock) => Poll::Pending,
                Err(nb::Error::Other(e)) => Poll::Ready(Err(e)),
            }
        } else {
            settle(self.serial.flush())
        }
    }
}

impl<'a> Resume for SerialFlushFuture<'a> {
    type Output = Result<(), UartError>;

    open spec fn wf(&self) -> bool {
        self.serial.wf()
    }

    fn resume(&mut self) -> (r: Poll<Result<(), UartError>>)
        ensures
            final(self).serial@ == old(self).serial@.flush().0,
            r == settled(old(self).serial@.flush().1),
            *final(final(self).serial) == *final(old(self).serial),
    {
        settle(self.serial.flush())
    }
}

impl AsyncWrite for Serial {
    type Error = UartError;

    type WriteByteFuture<'t> = SerialWriteByteFuture<'t>;

    type WriteFuture<'t> = SerialWriteFuture<'t>;

    type FlushFuture<'t> = SerialFlushFuture<'t>;

    open spec fn write_inv(&self) -> bool {
        self.wf()
    }

    fn async_write_byte(&mut self, byte: u8) -> (unit: SerialWriteByteFuture<'_>)
        ensures
            *unit.serial == *old(self),
            unit.byte == byte,
            *final(unit.serial) == *final(self),
    {
        SerialWriteByteFuture { serial: self, byte }
    }

    fn async_write<'a>(&'a mut self, data: &'a [u8]) -> (unit: SerialWriteFuture<'a>)
        ensures
            *unit.serial == *old(self),
            unit@ == WriteModel::begin(old(self)@, data@),
            *final(unit.serial) == *final(self),
    {
        SerialWriteFuture { serial: self, data, cursor: 0 }
    }

    fn async_flush(&mut self) -> (unit: SerialFlushFuture<'_>)
        ensures
            *unit.serial == *old(self),
            *final(unit.serial) == *final(self),
    {
        SerialFlushFuture { serial: self }
    }
}

} // verus!
