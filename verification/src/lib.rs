//! Bridges non-blocking peripheral drivers, which try once and may report
//! "would block", onto resumable units for a cooperative scheduler.
//!
//! The crate root holds the simplest peripheral, a UART with a single
//! transmit register; `serial` holds a UART with a transmit queue and `spi`
//! a full-duplex SPI peripheral.

use vstd::prelude::*;

pub mod asynch;
pub mod fifo;
pub mod register_proofs;
pub mod serial;
pub mod serial_proofs;
pub mod spi;
pub mod spi_proofs;

use crate::asynch::{settle, settled, Poll, Resume};

verus! {

/// `nb::Error`, the error half of a non-blocking result: `Other` carries the
/// peripheral's own error, `WouldBlock` asks the caller to try again later.
#[verifier::external_type_specification]
#[verifier::reject_recursive_types(E)]
pub struct ExNbError<E>(nb::Error<E>);

/// Value of the countdown when a byte enters the transmit register.
pub const SEND_TICKS: usize = 5;

/// The byte value that the line cannot carry.
pub const INVALID_BYTE: u8 = 0xff;

#[derive(Copy, Clone, Debug)]
pub enum UartError {
    InvalidData,
}

/// The transmit register: empty, or holding a byte and the countdown until
/// the byte has left the line.
#[derive(Copy, Clone)]
pub enum UartState {
    Idle,
    Sending(u8, usize),
}

impl UartState {
    /// One step of a busy register. The countdown goes down by one; at zero
    /// the register falls idle, and an invalid byte is reported then and
    /// there. A busy register never reports success.
    pub open spec fn progress(self) -> (UartState, Result<(), nb::Error<UartError>>) {
        match self {
            UartState::Idle => (self, Ok(())),
            UartState::Sending(byte, counter) => {
                if counter > 0 {
                    (UartState::Sending(byte, (counter - 1) as usize), Err(nb::Error::WouldBlock))
                } else if byte == INVALID_BYTE {
                    (UartState::Idle, Err(nb::Error::Other(UartError::InvalidData)))
                } else {
                    (UartState::Idle, Err(nb::Error::WouldBlock))
                }
            },
        }
    }

    /// An attempt to write: an idle register takes the byte, a busy one makes
    /// a step instead.
    pub open spec fn write_byte(self, byte: u8) -> (UartState, Result<(), nb::Error<UartError>>) {
        match self {
            UartState::Idle => (UartState::Sending(byte, SEND_TICKS), Ok(())),
            UartState::Sending(_, _) => self.progress(),
        }
    }

    /// An attempt to flush: success on an idle register, a step on a busy
    /// one.
    pub open spec fn flush(self) -> (UartState, Result<(), nb::Error<UartError>>) {
        self.progress()
    }
}

pub struct Uart {
    state: UartState,
}

impl View for Uart {
    type V = UartState;

    closed spec fn view(&self) -> UartState {
        self.state
    }
}

impl Uart {
    pub fn new() -> (uart: Uart)
        ensures
            uart@ == UartState::Idle,
    {
        Self { state: UartState::Idle }
    }

    fn progress(&mut self) -> (r: nb::Result<(), UartError>)
        ensures
            final(self)@ == old(self)@.progress().0,
            r == old(self)@.progress().1,
    {
        match self.state {
            UartState::Idle => Ok(()),
            UartState::Sending(byte, counter) => {
                if counter > 0 {
                    self.state = UartState::Sending(byte, counter - 1);
                } else {
                    self.state = UartState::Idle;
                    if byte == INVALID_BYTE {
                        return Err(nb::Error::Other(UartError::InvalidData));
                    }
                }
                Err(nb::Error::WouldBlock)
            },
        }
    }

    pub fn write_byte(&mut self, byte: u8) -> (r: nb::Result<(), UartError>)
        ensures
            final(self)@ == old(self)@.write_byte(byte).0,
            r == old(self)@.write_byte(byte).1,
    {
        match self.state {
            UartState::Idle => {
                self.state = UartState::Sending(byte, SEND_TICKS);
                Ok(())
            },
            UartState::Sending(_, _) => self.progress(),
        }
    }

    pub fn flush(&mut self) -> (r: nb::Result<(), UartError>)
        ensures
            final(self)@ == old(self)@.flush().0,
            r == old(self)@.flush().1,
    {
        match self.state {
            UartState::Idle => Ok(()),
            UartState::Sending(_, _) => self.progress(),
        }
    }
}

pub struct Serial {
    uart: Uart,
}

impl View for Serial {
    type V = UartState;

    closed spec fn view(&self) -> UartState {
        self.uart@
    }
}

/// Unit that offers one byte to the UART until the register takes it.
pub struct Write<'a> {
    pub serial: &'a mut Serial,
    pub byte: u8,
}

/// Unit that waits for the transmit register to fall idle.
pub struct WaitIdle<'a> {
    pub serial: &'a mut Serial,
}

impl Serial {
    pub fn new(uart: Uart) -> (serial: Serial)
        ensures
            serial@ == uart@,
    {
        Self { uart }
    }

    /// Starts the write of one byte.
    pub fn write_byte_async(&mut self, byte: u8) -> (unit: Write<'_>)
        ensures
            *unit.serial == *old(self),
            unit.byte == byte,
            *final(unit.serial) == *final(self),
    {
        Write { serial: self, byte }
    }

    /// Starts a flush.
    pub fn flush_async(&mut self) -> (unit: WaitIdle<'_>)
        ensures
            *unit.serial == *old(self),
            *final(unit.serial) == *final(self),
    {
        WaitIdle { serial: self }
    }
}

impl<'a> Resume for Write<'a> {
    type Output = Result<(), UartError>;

    open spec fn wf(&self) -> bool {
        true
    }

    fn resume(&mut self) -> (r: Poll<Result<(), UartError>>)
        ensures
            final(self).serial@ == old(self).serial@.write_byte(old(self).byte).0,
            r == settled(old(self).serial@.write_byte(old(self).byte).1),
            final(self).byte == old(self).byte,
            *final(final(self).serial) == *final(old(self).serial),
    {
        settle(self.serial.uart.write_byte(self.byte))
    }
}

impl<'a> Resume for WaitIdle<'a> {
    type Output = Result<(), UartError>;

    open spec fn wf(&self) -> bool {
        true
    }

    fn resume(&mut self) -> (r: Poll<Result<(), UartError>>)
        ensures
            final(self).serial@ == old(self).serial@.flush().0,
            r == settled(old(self).serial@.flush().1),
            *final(final(self).serial) == *final(old(self).serial),
    {
        settle(self.serial.uart.flush())
    }
}

pub trait AsyncWrite<'a> {
    /// Transmit error
    type Error;

    /// Transmit unit to resume until completion
    type WriteFuture: Resume<Output = Result<(), Self::Error>>;

    /// Transmit the provided data on the specified channel
    fn try_write(&'a mut self, data: &'a [u8]) -> (unit: Self::WriteFuture)
        ensures
            unit.wf(),
    ;
}

/// A buffer write in progress, as a value: the transmit register, the bytes
/// to write and how many of them the register has taken.
pub struct WriteModel {
    pub uart: UartState,
    pub data: Seq<u8>,
    pub cursor: nat,
}

impl WriteModel {
    /// The write of `data` before its first resumption.
    pub open spec fn begin(uart: UartState, data: Seq<u8>) -> WriteModel {
        WriteModel { uart, data, cursor: 0 }
    }

    /// One resumption. While bytes are left, the next one is offered to the
    /// register: taken, it advances the cursor and the unit asks to be
    /// resumed; not taken, the unit asks to be resumed; a reported error ends
    /// the write. With no byte left the unit flushes.
    pub open spec fn step(self) -> (WriteModel, Poll<Result<(), UartError>>) {
        if self.cursor < self.data.len() {
            let (uart, attempt) = self.uart.write_byte(self.data[self.cursor as int]);
            match attempt {
                Ok(()) => (WriteModel { uart, cursor: self.cursor + 1, ..self }, Poll::Pending),
                Err(nb::Error::WouldBlock) => (WriteModel { uart, ..self }, Poll::Pending),
                Err(nb::Error::Other(e)) => (WriteModel { uart, ..self }, Poll::Ready(Err(e))),
            }
        } else {
            let (uart, attempt) = self.uart.flush();
            (WriteModel { uart, ..self }, settled(attempt))
        }
    }

    /// The write after `n` resumptions.
    pub open spec fn after(self, n: nat) -> WriteModel
        decreases n,
    {
        if n == 0 {
            self
        } else {
            self.after((n - 1) as nat).step().0
        }
    }

    /// What resumption number `n` reports, counting from 1.
    pub open spec fn outcome(self, n: nat) -> Poll<Result<(), UartError>>
        recommends
            n >= 1,
    {
        self.after((n - 1) as nat).step().1
    }
}

/// Unit that writes a buffer byte by byte and then flushes.
pub struct SerialWriteFuture<'a> {
    pub serial: &'a mut Serial,
    pub data: &'a [u8],
    pub offset: usize,
}

impl<'a> View for SerialWriteFuture<'a> {
    type V = WriteModel;

    open spec fn view(&self) -> WriteModel {
        WriteModel { uart: self.serial@, data: self.data@, cursor: self.offset as nat }
    }
}

impl<'a> AsyncWrite<'a> for Serial {
    type Error = UartError;

    type WriteFuture = SerialWriteFuture<'a>;

    fn try_write(&'a mut self, data: &'a [u8]) -> (unit: SerialWriteFuture<'a>)
        ensures
            *unit.serial == *old(self),
            unit@ == WriteModel::begin(old(self)@, data@),
            *final(unit.serial) == *final(self),
    {
        SerialWriteFuture { serial: self, data, offset: 0 }
    }
}

impl<'a> Resume for SerialWriteFuture<'a> {
    type Output = Result<(), UartError>;

    open spec fn wf(&self) -> bool {
        self.offset <= self.data@.len()
    }

    fn resume(&mut self) -> (r: Poll<Result<(), UartError>>)
        ensures
            final(self)@ == old(self)@.step().0,
            r == old(self)@.step().1,
            *final(final(self).serial) == *final(old(self).serial),
    {
        if self.offset < self.data.len() {
            let byte = self.data[self.offset];
            match self.serial.uart.write_byte(byte) {
                Ok(()) => {
                    self.offset = self.offset + 1;
                    Poll::Pending
                },
                Err(nb::Error::WouldBlock) => Poll::Pending,
                Err(nb::Error::Other(e)) => Poll::Ready(Err(e)),
            }
        } else {
            settle(self.serial.uart.flush())
        }
    }
}

} // verus!
