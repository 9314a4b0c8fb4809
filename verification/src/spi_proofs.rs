//! What holds of the SPI peripheral in loop-back: bytes come back inverted
//! and in order, its queues stay within their bounds, and a receive overflow
//! is reported once and harms no byte already received.

use crate::fifo::FIFO_DEPTH;
use crate::spi::{deliver, SpiError, SpiModel, TICKS_PER_BYTE};
use vstd::prelude::*;

verus! {

/// The bytes of `data`, each bit-inverted.
pub open spec fn complement(data: Seq<u8>) -> Seq<u8> {
    Seq::new(data.len(), |i: int| !data[i])
}

/// The peripheral after `byte` was sent and the time that shifts it out has
/// passed, with no read in between.
pub open spec fn shift_out(spi: SpiModel, byte: u8) -> SpiModel {
    spi.send(byte).0.after_ticks(TICKS_PER_BYTE as nat)
}

/// The peripheral after each byte of `data` in turn was sent and shifted
/// out, with no read in between.
pub open spec fn feed(spi: SpiModel, data: Seq<u8>) -> SpiModel
    decreases data.len(),
{
    if data.len() == 0 {
        spi
    } else {
        shift_out(feed(spi, data.drop_last()), data.last())
    }
}

/// Every operation keeps both queues within their bounds.
pub proof fn lemma_operations_preserve_wf(spi: SpiModel, byte: u8)
    requires
        spi.wf(),
    ensures
        spi.tick().wf(),
        spi.send(byte).0.wf(),
        spi.read().0.wf(),
{
}

/// A send to a full transmit queue reports "would block" and changes
/// nothing.
pub proof fn lemma_full_queue_would_block(spi: SpiModel, byte: u8)
    requires
        spi.wf(),
        spi.tx.len() == FIFO_DEPTH,
    ensures
        spi.send(byte) == (spi, Err::<(), nb::Error<SpiError>>(nb::Error::WouldBlock)),
{
}

proof fn lemma_send_all(data: Seq<u8>)
    requires
        data.len() <= FIFO_DEPTH,
    ensures
        SpiModel::idle().send_all(data) == (SpiModel {
            tx: data,
            rx: Seq::empty(),
            ticks: if data.len() > 0 {
                TICKS_PER_BYTE as nat
            } else {
                0
            },
            overflow: false,
        }),
    decreases data.len(),
{
    if data.len() > 0 {
        lemma_send_all(data.drop_last());
        assert(data.drop_last().push(data.last()) =~= data);
    } else {
        assert(data =~= Seq::<u8>::empty());
    }
}

/// The burst `data` when `j` attempts to read are done.
spec fn burst_after(data: Seq<u8>, j: nat) -> SpiModel {
    let back = j as int / (TICKS_PER_BYTE as int);
    SpiModel {
        tx: data.subrange(back, data.len() as int),
        rx: Seq::empty(),
        ticks: if back == data.len() {
            0
        } else {
            (TICKS_PER_BYTE - j as int % (TICKS_PER_BYTE as int)) as nat
        },
        overflow: false,
    }
}

/// What attempt number `j` to read returns for the burst `data`.
pub open spec fn burst_outcome(data: Seq<u8>, j: nat) -> Result<u8, nb::Error<SpiError>> {
    if j % (TICKS_PER_BYTE as nat) == 0 {
        deliver(!data[j as int / (TICKS_PER_BYTE as int) - 1])
    } else {
        Err(nb::Error::WouldBlock)
    }
}

proof fn lemma_burst(data: Seq<u8>, j: nat)
    requires
        data.len() <= FIFO_DEPTH,
        j <= TICKS_PER_BYTE * data.len(),
    ensures
        SpiModel::idle().send_all(data).after_reads(j) == burst_after(data, j),
        j >= 1 ==> SpiModel::idle().send_all(data).read_outcome(j) == burst_outcome(data, j),
    decreases j,
{
    lemma_send_all(data);
    if j == 0 {
        assert(burst_after(data, 0).tx =~= data);
    } else {
        lemma_burst(data, (j - 1) as nat);
        let prev = burst_after(data, (j - 1) as nat);
        let back0 = (j - 1) / 3;
        assert(back0 < data.len());
        assert(prev.tx[0] == data[back0]);
        let ticked = prev.tick();
        if prev.ticks > 1 {
            assert(j as int / 3 == back0);
        } else {
            assert(j as int / 3 == back0 + 1);
            assert(ticked.tx =~= data.subrange(back0 + 1, data.len() as int));
            assert(ticked.rx =~= seq![!data[back0]]);
            assert(ticked.rx.drop_first() =~= Seq::<u8>::empty());
        }
        assert(prev.read().0.tx =~= burst_after(data, j).tx);
        assert(prev.read().0.rx =~= burst_after(data, j).rx);
    }
}

/// Round trip. After a burst of at most `FIFO_DEPTH` bytes was sent to an
/// idle peripheral, every `TICKS_PER_BYTE`-th attempt to read delivers the
/// complement of the next byte of the burst, in the order of sending, and
/// the attempts between report "would block". A byte is delivered as `Ok`
/// unless its complement is the invalid byte. When the last byte is back
/// the peripheral is idle again.
pub proof fn lemma_burst_round_trip(data: Seq<u8>)
    requires
        data.len() <= FIFO_DEPTH,
    ensures
        forall|j: nat|
            1 <= j <= TICKS_PER_BYTE * data.len() ==> (#[trigger] SpiModel::idle().send_all(
                data,
            ).read_outcome(j)) == burst_outcome(data, j),
        SpiModel::idle().send_all(data).after_reads((TICKS_PER_BYTE * data.len()) as nat)
            == SpiModel::idle(),
{
    let start = SpiModel::idle().send_all(data);
    assert forall|j: nat| 1 <= j <= TICKS_PER_BYTE * data.len() implies (#[trigger] start.read_outcome(
        j,
    )) == burst_outcome(data, j) by {
        lemma_burst(data, j);
    }
    let last = (TICKS_PER_BYTE * data.len()) as nat;
    lemma_burst(data, last);
    assert(burst_after(data, last).tx =~= Seq::<u8>::empty());
}

/// A byte that has been shifted out while the receive queue was full is
/// dropped: the overflow is latched and the received bytes stay as they are.
/// With room in the receive queue the byte's complement joins the queue
/// behind the bytes already received, and no overflow is latched.
pub proof fn lemma_shift_out(spi: SpiModel, byte: u8)
    requires
        spi.wf(),
        spi.tx.len() == 0,
    ensures
        shift_out(spi, byte).tx == spi.tx,
        shift_out(spi, byte).ticks == 0,
        spi.rx.len() == FIFO_DEPTH ==> shift_out(spi, byte).rx == spi.rx && shift_out(
            spi,
            byte,
        ).overflow,
        spi.rx.len() < FIFO_DEPTH ==> shift_out(spi, byte).rx == spi.rx.push(!byte) && shift_out(
            spi,
            byte,
        ).overflow == spi.overflow,
{
    let s0 = spi.send(byte).0;
    assert(s0.tx =~= seq![byte]);
    let s1 = s0.tick();
    let s2 = s1.tick();
    let s3 = s2.tick();
    assert(s0.after_ticks(0) == s0);
    assert(s0.after_ticks(1) == s1);
    assert(s0.after_ticks(2) == s2);
    assert(s0.after_ticks(3) == s3);
    assert(s3.tx =~= spi.tx);
}

/// When the bytes of `data` were sent and shifted out with no read in
/// between, the receive queue holds the complements of the first
/// `FIFO_DEPTH` of them, in the order of sending; the overflow is latched
/// exactly if there were more.
pub proof fn lemma_feed(data: Seq<u8>)
    ensures
        feed(SpiModel::idle(), data) == (SpiModel {
            tx: Seq::empty(),
            rx: if data.len() <= FIFO_DEPTH {
                complement(data)
            } else {
                complement(data.subrange(0, FIFO_DEPTH as int))
            },
            ticks: 0,
            overflow: data.len() > FIFO_DEPTH,
        }),
    decreases data.len(),
{
    if data.len() == 0 {
        assert(complement(data) =~= Seq::<u8>::empty());
    } else {
        let front = data.drop_last();
        lemma_feed(front);
        let before = feed(SpiModel::idle(), front);
        lemma_shift_out(before, data.last());
        let got = feed(SpiModel::idle(), data);
        if data.len() <= FIFO_DEPTH {
            assert(got.rx =~= complement(data));
        } else if front.len() == FIFO_DEPTH {
            assert(front.subrange(0, FIFO_DEPTH as int) =~= front);
            assert(data.subrange(0, FIFO_DEPTH as int) =~= front);
        } else {
            assert(data.subrange(0, FIFO_DEPTH as int) =~= front.subrange(0, FIFO_DEPTH as int));
        }
    }
}

/// Receive overflow. When more bytes than the receive queue holds were sent
/// and shifted out with no read in between, the next attempt to read
/// reports the overflow, and no later one does: the attempts that follow
/// deliver the complements of the first `FIFO_DEPTH` bytes, unharmed and in
/// the order of sending, and then the queue is empty.
pub proof fn lemma_overflow_reported_once(data: Seq<u8>)
    requires
        data.len() > FIFO_DEPTH,
    ensures
        feed(SpiModel::idle(), data).read_outcome(1) == Err::<u8, nb::Error<SpiError>>(
            nb::Error::Other(SpiError::RxFifoOverflow),
        ),
        forall|i: nat|
            i < FIFO_DEPTH ==> (#[trigger] feed(SpiModel::idle(), data).read_outcome(i + 2))
                == deliver(!data[i as int]),
        feed(SpiModel::idle(), data).read_outcome((FIFO_DEPTH + 2) as nat) == Err::<
            u8,
            nb::Error<SpiError>,
        >(nb::Error::WouldBlock),
        feed(SpiModel::idle(), data).after_reads((FIFO_DEPTH + 1) as nat) == SpiModel::idle(),
{
    lemma_feed(data);
    let s0 = feed(SpiModel::idle(), data);
    let kept = complement(data.subrange(0, FIFO_DEPTH as int));
    assert(s0.rx == kept);
    assert(s0.after_reads(0) == s0);
    let s1 = s0.read().0;
    assert(s0.after_reads(1) == s1);
    assert(s1.rx == kept);
    let s2 = s1.read().0;
    assert(s0.after_reads(2) == s2);
    let s3 = s2.read().0;
    assert(s0.after_reads(3) == s3);
    let s4 = s3.read().0;
    assert(s0.after_reads(4) == s4);
    let s5 = s4.read().0;
    assert(s0.after_reads(5) == s5);
    assert(s5.rx =~= Seq::<u8>::empty());
    assert(s0.read_outcome(2) == deliver(!data[0]));
    assert(s0.read_outcome(3) == deliver(!data[1]));
    assert(s0.read_outcome(4) == deliver(!data[2]));
    assert(s0.read_outcome(5) == deliver(!data[3]));
    assert forall|i: nat| i < FIFO_DEPTH implies (#[trigger] s0.read_outcome(i + 2)) == deliver(
        !data[i as int],
    ) by {
        if i == 0 {
        } else if i == 1 {
        } else if i == 2 {
        } else {
        }
    }
}

/// A latched overflow is never dropped: ticks and sends leave it latched,
/// and the next attempt to read reports it, clears it and takes no byte out
/// of the receive queue.
pub proof fn lemma_latched_overflow_is_reported(spi: SpiModel, byte: u8)
    requires
        spi.wf(),
        spi.overflow,
    ensures
        spi.tick().overflow,
        spi.send(byte).0.overflow,
        spi.read() == (
            spi.tick().clear_overflow(),
            Err::<u8, nb::Error<SpiError>>(nb::Error::Other(SpiError::RxFifoOverflow)),
        ),
{
}

} // verus!
