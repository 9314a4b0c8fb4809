//! A full-duplex SPI peripheral in loop-back: every byte that leaves the
//! transmit queue comes back, bit-inverted, in the receive queue.

use crate::asynch::{settle, settled, AsyncRead, Poll, Resume};
use crate::fifo::{Fifo, FIFO_DEPTH};
use vstd::prelude::*;

verus! {

/// Ticks that the byte at the head of the transmit queue takes to be shifted
/// out.
pub const TICKS_PER_BYTE: usize = 3;

/// The received byte value that the peripheral flags as invalid.
pub const INVALID_BYTE: u8 = 0x42;

#[derive(Clone, Copy, Debug)]
pub enum SpiError {
    InvalidData,
    RxFifoOverflow,
}

/// The peripheral as a value: both queues (oldest byte first), the ticks left
/// until the head of the transmit queue has been shifted out, and the latched
/// receive overflow.
pub struct SpiModel {
    pub tx: Seq<u8>,
    pub rx: Seq<u8>,
    pub ticks: nat,
    pub overflow: bool,
}

/// What a read hands out for a byte taken from the receive queue.
pub open spec fn deliver(byte: u8) -> Result<u8, nb::Error<SpiError>> {
    if byte == INVALID_BYTE {
        Err(nb::Error::Other(SpiError::InvalidData))
    } else {
        Ok(byte)
    }
}

impl SpiModel {
    pub open spec fn idle() -> SpiModel {
        SpiModel { tx: Seq::empty(), rx: Seq::empty(), ticks: 0, overflow: false }
    }

    /// Each queue holds at most `FIFO_DEPTH` bytes, and the timer is armed
    /// exactly while the transmit queue holds a byte.
    pub open spec fn wf(self) -> bool {
        &&& self.tx.len() <= FIFO_DEPTH
        &&& self.rx.len() <= FIFO_DEPTH
        &&& self.ticks <= TICKS_PER_BYTE
        &&& (self.ticks > 0 <==> self.tx.len() > 0)
    }

    /// One tick of the clock. The timer counts down; when it reaches zero the
    /// head of the transmit queue is shifted out and its complement enters
    /// the receive queue, or, if that queue is full, is dropped and latches
    /// the overflow. The bytes already received are never touched.
    pub open spec fn tick(self) -> SpiModel {
        if self.tx.len() == 0 {
            self
        } else if self.ticks > 1 {
            SpiModel { ticks: (self.ticks - 1) as nat, ..self }
        } else {
            let byte = !self.tx[0];
            let rest = self.tx.drop_first();
            SpiModel {
                tx: rest,
                rx: if self.rx.len() < FIFO_DEPTH {
                    self.rx.push(byte)
                } else {
                    self.rx
                },
                ticks: if rest.len() > 0 {
                    TICKS_PER_BYTE as nat
                } else {
                    0
                },
                overflow: self.overflow || self.rx.len() >= FIFO_DEPTH,
            }
        }
    }

    pub open spec fn clear_overflow(self) -> SpiModel {
        SpiModel { overflow: false, ..self }
    }

    /// An attempt to send `byte`: it is queued if the transmit queue has a
    /// free slot, arming the timer if the queue was empty. Time does not
    /// advance.
    pub open spec fn send(self, byte: u8) -> (SpiModel, Result<(), nb::Error<SpiError>>) {
        if self.tx.len() < FIFO_DEPTH {
            (
                SpiModel {
                    tx: self.tx.push(byte),
                    ticks: if self.tx.len() == 0 {
                        TICKS_PER_BYTE as nat
                    } else {
                        self.ticks
                    },
                    ..self
                },
                Ok(()),
            )
        } else {
            (self, Err(nb::Error::WouldBlock))
        }
    }

    /// An attempt to read: a tick, then a latched overflow is reported and
    /// cleared, else the oldest received byte, if there is one, is taken
    /// out of the queue and delivered.
    pub open spec fn read(self) -> (SpiModel, Result<u8, nb::Error<SpiError>>) {
        let ticked = self.tick();
        if ticked.overflow {
            (ticked.clear_overflow(), Err(nb::Error::Other(SpiError::RxFifoOverflow)))
        } else if ticked.rx.len() > 0 {
            (SpiModel { rx: ticked.rx.drop_first(), ..ticked }, deliver(ticked.rx[0]))
        } else {
            (ticked, Err(nb::Error::WouldBlock))
        }
    }

    /// The peripheral after the bytes of `data` were sent one after the
    /// other, with no time passing.
    pub open spec fn send_all(self, data: Seq<u8>) -> SpiModel
        decreases data.len(),
    {
        if data.len() == 0 {
            self
        } else {
            self.send_all(data.drop_last()).send(data.last()).0
        }
    }

    /// The peripheral after `n` ticks.
    pub open spec fn after_ticks(self, n: nat) -> SpiModel
        decreases n,
    {
        if n == 0 {
            self
        } else {
            self.after_ticks((n - 1) as nat).tick()
        }
    }

    /// The peripheral after `n` attempts to read.
    pub open spec fn after_reads(self, n: nat) -> SpiModel
        decreases n,
    {
        if n == 0 {
            self
        } else {
            self.after_reads((n - 1) as nat).read().0
        }
    }

    /// What attempt number `n` to read returns, counting from 1.
    pub open spec fn read_outcome(self, n: nat) -> Result<u8, nb::Error<SpiError>>
        recommends
            n >= 1,
    {
        self.after_reads((n - 1) as nat).read().1
    }
}

pub struct DummySpi {
    tx_fifo: Fifo,
    rx_fifo: Fifo,
    error_fifo: bool,
    ticks_to_send: usize,
}

impl View for DummySpi {
    type V = SpiModel;

    closed spec fn view(&self) -> SpiModel {
        SpiModel {
            tx: self.tx_fifo@,
            rx: self.rx_fifo@,
            ticks: self.ticks_to_send as nat,
            overflow: self.error_fifo,
        }
    }
}

impl DummySpi {
    pub closed spec fn wf(&self) -> bool {
        self.tx_fifo.wf() && self.rx_fifo.wf() && self@.wf()
    }

    /// A well-formed peripheral has a well-formed model.
    pub proof fn lemma_wf_model(&self)
        requires
            self.wf(),
        ensures
            self@.wf(),
    {
    }

    pub fn new() -> (spi: DummySpi)
        ensures
            spi.wf(),
            spi@ == SpiModel::idle(),
    {
        Self { tx_fifo: Fifo::new(), rx_fifo: Fifo::new(), error_fifo: false, ticks_to_send: 0 }
    }

    /// Advances the clock by one tick.
    pub fn make_progress(&mut self)
        requires
            old(self).wf(),
        ensures
            final(self).wf(),
            final(self)@ == old(self)@.tick(),
    {
        if !self.tx_fifo.is_empty() {
            if self.ticks_to_send > 1 {
                self.ticks_to_send = self.ticks_to_send - 1;
            } else {
                let byte = self.tx_fifo.pop();
                let byte = !byte;

                if !self.rx_fifo.is_full() {
                    self.rx_fifo.push(byte);
                } else {
                    self.error_fifo = true;
                }
                if self.tx_fifo.is_empty() {
                    self.ticks_to_send = 0;
                } else {
                    // start sending next byte
                    self.ticks_to_send = TICKS_PER_BYTE;
                }
            }
        }
    }

    /// One non-blocking attempt to take a received byte.
    pub fn read(&mut self) -> (r: nb::Result<u8, SpiError>)
        requires
            old(self).wf(),
        ensures
            final(self).wf(),
            final(self)@ == old(self)@.read().0,
            r == old(self)@.read().1,
    {
        self.make_progress();

        if self.error_fifo {
            self.error_fifo = false;
            return Err(nb::Error::Other(SpiError::RxFifoOverflow));
        }
        if !self.rx_fifo.is_empty() {
            let byte = self.rx_fifo.pop();

            if byte == INVALID_BYTE {
                return Err(nb::Error::Other(SpiError::InvalidData));
            }
            Ok(byte)
        } else {
            Err(nb::Error::WouldBlock)
        }
    }

    /// One non-blocking attempt to queue `byte` for transmission.
    pub fn send(&mut self, byte: u8) -> (r: nb::Result<(), SpiError>)
        requires
            old(self).wf(),
        ensures
            final(self).wf(),
            final(self)@ == old(self)@.send(byte).0,
            r == old(self)@.send(byte).1,
    {
        if !self.tx_fifo.is_full() {
            if self.tx_fifo.is_empty() {
                // start sending
                self.ticks_to_send = TICKS_PER_BYTE;
            }
            self.tx_fifo.push(byte);
            Ok(())
        } else {
            Err(nb::Error::WouldBlock)
        }
    }
}

/// A buffer read in progress, as a value: the peripheral, the buffer and how
/// many of its bytes have been filled in.
pub struct ReadModel {
    pub spi: SpiModel,
    pub data: Seq<u8>,
    pub cursor: nat,
}

impl ReadModel {
    pub open spec fn wf(self) -> bool {
        self.spi.wf() && self.cursor <= self.data.len()
    }

    /// One resumption. While the buffer has room, a byte is asked of the
    /// peripheral: delivered, it is stored at the cursor, and the read is
    /// complete if that filled the buffer; "would block" suspends the read;
    /// an error ends it. A full buffer completes at once, and the
    /// peripheral is left alone.
    pub open spec fn step(self) -> (ReadModel, Poll<Result<(), SpiError>>) {
        if self.cursor < self.data.len() {
            let (spi, attempt) = self.spi.read();
            match attempt {
                Ok(byte) => (
                    ReadModel {
                        spi,
                        data: self.data.update(self.cursor as int, byte),
                        cursor: self.cursor + 1,
                    },
                    if self.cursor + 1 == self.data.len() {
                        Poll::Ready(Ok(()))
                    } else {
                        Poll::Pending
                    },
                ),
                Err(nb::Error::WouldBlock) => (ReadModel { spi, ..self }, Poll::Pending),
                Err(nb::Error::Other(e)) => (ReadModel { spi, ..self }, Poll::Ready(Err(e))),
            }
        } else {
            (self, Poll::Ready(Ok(())))
        }
    }
}

/// Unit that asks the peripheral for one byte until one is delivered.
pub struct SpiReadByteFuture<'a> {
    pub spi: &'a mut DummySpi,
}

/// Unit that fills a buffer with received bytes.
pub struct SpiReadFuture<'a> {
    pub spi: &'a mut DummySpi,
    pub data: &'a mut [u8],
    pub cursor: usize,
}

impl<'a> View for SpiReadFuture<'a> {
    type V = ReadModel;

    open spec fn view(&self) -> ReadModel {
        ReadModel { spi: self.spi@, data: self.data@, cursor: self.cursor as nat }
    }
}

impl<'a> Resume for SpiReadByteFuture<'a> {
    type Output = Result<u8, SpiError>;

    open spec fn wf(&self) -> bool {
        self.spi.wf()
    }

    fn resume(&mut self) -> (r: Poll<Result<u8, SpiError>>)
        ensures
            final(self).spi@ == old(self).spi@.read().0,
            r == settled(old(self).spi@.read().1),
            *final(final(self).spi) == *final(old(self).spi),
    {
        settle(self.spi.read())
    }
}

impl<'a> Resume for SpiReadFuture<'a> {
    type Output = Result<(), SpiError>;

    open spec fn wf(&self) -> bool {
        self.spi.wf() && self.cursor <= self.data@.len()
    }

    fn resume(&mut self) -> (r: Poll<Result<(), SpiError>>)
        ensures
            final(self)@ == old(self)@.step().0,
            r == old(self)@.step().1,
            *final(final(self).spi) == *final(old(self).spi),
            final(final(self).data)@ == final(old(self).data)@,
    {
        if self.cursor < self.data.len() {
            match self.spi.read() {
                Ok(byte) => {
                    self.data[self.cursor] = byte;
                    self.cursor = self.cursor + 1;
                    if self.cursor == self.data.len() {
                        Poll::Ready(Ok(()))
                    } else {
                        Poll::Pending
                    }
                },
                Err(nb::Error::WouldBlock) => Poll::Pending,
                Err(nb::Error::Other(e)) => Poll::Ready(Err(e)),
            }
        } else {
            Poll::Ready(Ok(()))
        }
    }
}

impl AsyncRead for DummySpi {
    type Error = SpiError;

    type ReadByteFuture<'t> = SpiReadByteFuture<'t>;

    type ReadFuture<'t> = SpiReadFuture<'t>;

    open spec fn read_inv(&self) -> bool {
        self.wf()
    }

    fn async_read_byte(&mut self) -> (unit: SpiReadByteFuture<'_>)
        ensures
            *unit.spi == *old(self),
            *final(unit.spi) == *final(self),
    {
        SpiReadByteFuture { spi: self }
    }

    fn async_read<'a>(&'a mut self, data: &'a mut [u8]) -> (unit: SpiReadFuture<'a>)
        ensures
            *unit.spi == *old(self),
            unit@ == (ReadModel { spi: old(self)@, data: old(data)@, cursor: 0 }),
            *final(unit.spi) == *final(self),
            final(unit.data)@ == final(data)@,
    {
        SpiReadFuture { spi: self, data, cursor: 0 }
    }
}

} // verus!
