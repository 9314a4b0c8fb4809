//! What holds of every buffer write to the UART: how many resumptions it
//! takes, when an invalid byte is reported, and that the queue stays within
//! its bounds.

use crate::asynch::Poll;
use crate::fifo::FIFO_DEPTH;
use crate::serial::{UartError, UartModel, WriteModel, INVALID_BYTE, TICKS_PER_BYTE};
use vstd::prelude::*;

verus! {

/// None of the first `n` bytes of `data` is the invalid byte.
pub open spec fn clean_prefix(data: Seq<u8>, n: nat) -> bool {
    n <= data.len() && forall|i: int| 0 <= i < n ==> data[i] != INVALID_BYTE
}

/// How many bytes have been transmitted when `k` resumptions are done, while
/// the write is under way.
pub open spec fn sent_after(k: nat) -> nat {
    if k == 0 {
        0
    } else {
        ((k - 1) / (TICKS_PER_BYTE as int)) as nat
    }
}

/// How many bytes the UART has accepted when `k` resumptions are done: one
/// per resumption, as far as the queue has room and bytes are left.
pub open spec fn accepted_after(len: nat, k: nat) -> nat {
    let room = (sent_after(k) + FIFO_DEPTH) as nat;
    let offered = if k <= room {
        k
    } else {
        room
    };
    if len <= offered {
        len
    } else {
        offered
    }
}

/// The write of `data` to a UART that was idle and had transmitted `before`,
/// when `k` resumptions are done and the write is still under way.
pub open spec fn under_way(before: Seq<u8>, data: Seq<u8>, k: nat) -> WriteModel {
    if k == 0 {
        WriteModel::begin(UartModel::idle(before), data)
    } else {
        let sent = sent_after(k) as int;
        let accepted = accepted_after(data.len(), k);
        WriteModel {
            uart: UartModel {
                fifo: data.subrange(sent, accepted as int),
                ticks: (TICKS_PER_BYTE - (k - 1) % (TICKS_PER_BYTE as int)) as nat,
                error: false,
                sent: before + data.subrange(0, sent),
            },
            data,
            cursor: accepted,
        }
    }
}

proof fn lemma_under_way_step(before: Seq<u8>, data: Seq<u8>, n: nat, k: nat)
    requires
        clean_prefix(data, n),
        1 <= k <= TICKS_PER_BYTE * data.len(),
        sent_after(k) <= n,
    ensures
        under_way(before, data, (k - 1) as nat).step() == (
            under_way(before, data, k),
            Poll::<Result<(), UartError>>::Pending,
        ),
{
    let prev = under_way(before, data, (k - 1) as nat);
    let next = under_way(before, data, k);
    let got = prev.step().0;
    if k == 1 {
        assert(got.uart.fifo =~= next.uart.fifo);
        assert(got.uart.sent =~= next.uart.sent);
    } else {
        let sent0 = sent_after((k - 1) as nat) as int;
        let acc0 = accepted_after(data.len(), (k - 1) as nat) as int;
        let sent1 = sent_after(k) as int;
        assert(0 <= sent0 < acc0 <= data.len());
        assert(prev.uart.fifo.len() == acc0 - sent0);
        assert(prev.uart.fifo[0] == data[sent0]);
        let ticked = prev.uart.tick();
        if prev.uart.ticks > 1 {
            assert(sent1 == sent0);
            assert(ticked.fifo =~= data.subrange(sent1, acc0));
        } else {
            assert(sent1 == sent0 + 1);
            assert(data[sent0] != INVALID_BYTE);
            assert(ticked.fifo =~= data.subrange(sent1, acc0));
            assert(ticked.sent =~= before + data.subrange(0, sent1));
        }
        assert(!ticked.error);
        assert(ticked.fifo.len() == acc0 - sent1);
        if acc0 < data.len() && ticked.has_space() {
            assert(ticked.accept(data[acc0]).fifo =~= data.subrange(sent1, acc0 + 1));
        }
        assert(got.uart.fifo =~= next.uart.fifo);
        assert(got.uart.sent =~= next.uart.sent);
    }
}

proof fn lemma_under_way(before: Seq<u8>, data: Seq<u8>, n: nat, k: nat)
    requires
        clean_prefix(data, n),
        k <= TICKS_PER_BYTE * data.len(),
        sent_after(k) <= n,
    ensures
        WriteModel::begin(UartModel::idle(before), data).after(k) == under_way(before, data, k),
        k >= 1 ==> WriteModel::begin(UartModel::idle(before), data).outcome(k) is Pending,
    decreases k,
{
    if k > 0 {
        lemma_under_way(before, data, n, (k - 1) as nat);
        lemma_under_way_step(before, data, n, k);
    }
}

/// A write of `data`, none of whose bytes is invalid, to an idle UART is
/// suspended at each of its first `TICKS_PER_BYTE * data.len()` resumptions,
/// and succeeds at the next one. The UART is then idle again and has
/// transmitted the bytes of `data`, in their order, after those it had
/// transmitted before.
pub proof fn lemma_clean_write_completes(before: Seq<u8>, data: Seq<u8>)
    requires
        clean_prefix(data, data.len()),
    ensures
        forall|k: nat|
            1 <= k <= TICKS_PER_BYTE * data.len() ==> (#[trigger] WriteModel::begin(
                UartModel::idle(before),
                data,
            ).outcome(k)) is Pending,
        WriteModel::begin(UartModel::idle(before), data).outcome(
            (TICKS_PER_BYTE * data.len() + 1) as nat,
        ) == Poll::Ready(Ok::<(), UartError>(())),
        WriteModel::begin(UartModel::idle(before), data).after(
            (TICKS_PER_BYTE * data.len() + 1) as nat,
        ).uart == UartModel::idle(before + data),
{
    let start = WriteModel::begin(UartModel::idle(before), data);
    let len = data.len();
    assert forall|k: nat| 1 <= k <= TICKS_PER_BYTE * len implies (#[trigger] start.outcome(
        k,
    )) is Pending by {
        lemma_under_way(before, data, len, k);
    }
    let last = (TICKS_PER_BYTE * len) as nat;
    lemma_under_way(before, data, len, last);
    let prev = under_way(before, data, last);
    assert(start.after(last) == prev);
    assert(start.after((last + 1) as nat) == prev.step().0);
    if len == 0 {
        assert(prev.step().0.uart.sent =~= before + data);
    } else {
        assert(sent_after(last) == len - 1);
        assert(prev.cursor == len);
        assert(prev.uart.fifo.len() == 1);
        assert(prev.uart.fifo[0] == data[len - 1]);
        assert(prev.uart.ticks == 1);
        let ticked = prev.uart.tick();
        assert(ticked.fifo =~= Seq::<u8>::empty());
        assert(ticked.sent =~= before + data);
    }
}

/// A write of `data`, whose first invalid byte stands at index `at`, to an
/// idle UART is suspended at each of its first `TICKS_PER_BYTE * (at + 1)`
/// resumptions, and fails with `InvalidData` at the next one, the very
/// resumption at which that byte leaves the queue. By then the UART has
/// transmitted the bytes up to and including the invalid one and no other;
/// the bytes behind it that it had accepted are still queued, and the error
/// is no longer latched.
pub proof fn lemma_invalid_byte_fails_write(before: Seq<u8>, data: Seq<u8>, at: nat)
    requires
        at < data.len(),
        clean_prefix(data, at),
        data[at as int] == INVALID_BYTE,
    ensures
        forall|k: nat|
            1 <= k <= TICKS_PER_BYTE * (at + 1) ==> (#[trigger] WriteModel::begin(
                UartModel::idle(before),
                data,
            ).outcome(k)) is Pending,
        WriteModel::begin(UartModel::idle(before), data).outcome(
            (TICKS_PER_BYTE * (at + 1) + 1) as nat,
        ) == Poll::Ready(Err::<(), UartError>(UartError::InvalidData)),
        ({
            let end = WriteModel::begin(UartModel::idle(before), data).after(
                (TICKS_PER_BYTE * (at + 1) + 1) as nat,
            );
            &&& end.uart.sent == before + data.subrange(0, at + 1 as int)
            &&& end.uart.fifo == data.subrange(at + 1 as int, end.cursor as int)
            &&& end.cursor == accepted_after(data.len(), (TICKS_PER_BYTE * (at + 1)) as nat)
            &&& !end.uart.error
        }),
{
    let start = WriteModel::begin(UartModel::idle(before), data);
    assert forall|k: nat| 1 <= k <= TICKS_PER_BYTE * (at + 1) implies (#[trigger] start.outcome(
        k,
    )) is Pending by {
        lemma_under_way(before, data, at, k);
    }
    let last = (TICKS_PER_BYTE * (at + 1)) as nat;
    lemma_under_way(before, data, at, last);
    let prev = under_way(before, data, last);
    assert(start.after(last) == prev);
    assert(start.after((last + 1) as nat) == prev.step().0);
    assert(sent_after(last) == at);
    assert(prev.cursor > at);
    assert(prev.uart.fifo[0] == data[at as int]);
    assert(prev.uart.ticks == 1);
    let ticked = prev.uart.tick();
    assert(ticked.error);
    assert(ticked.fifo =~= data.subrange(at + 1 as int, prev.cursor as int));
    assert(ticked.sent =~= before + data.subrange(0, at + 1 as int));
}

/// Every resumption of a write keeps the UART's queue within its bounds and
/// the cursor within the buffer.
pub proof fn lemma_step_preserves_wf(write: WriteModel)
    requires
        write.wf(),
    ensures
        write.step().0.wf(),
        write.step().0.data == write.data,
        write.step().0.cursor >= write.cursor,
{
}

/// At every resumption of a write the queue holds between zero and
/// `FIFO_DEPTH` bytes.
pub proof fn lemma_occupancy_bounded(write: WriteModel, n: nat)
    requires
        write.wf(),
    ensures
        write.after(n).wf(),
        0 <= write.after(n).uart.fifo.len() <= FIFO_DEPTH,
    decreases n,
{
    if n > 0 {
        lemma_occupancy_bounded(write, (n - 1) as nat);
        lemma_step_preserves_wf(write.after((n - 1) as nat));
    }
}

/// An attempt to write when the queue is still full after the tick reports
/// "would block" and leaves the queued bytes as they are.
pub proof fn lemma_full_queue_would_block(uart: UartModel, byte: u8)
    requires
        uart.wf(),
        uart.tick().fifo.len() == FIFO_DEPTH,
        !uart.tick().error,
    ensures
        uart.write(byte).1 == Err::<(), nb::Error<UartError>>(nb::Error::WouldBlock),
        uart.write(byte).0 == uart.tick(),
        uart.tick().accept(byte) == uart.tick(),
{
}

/// A latched error is never dropped: ticks and accepted bytes leave it
/// latched, and the next attempt to write or to flush reports it, clears it
/// and queues nothing.
pub proof fn lemma_latched_error_is_reported(uart: UartModel, byte: u8)
    requires
        uart.wf(),
        uart.error,
    ensures
        uart.tick().error,
        uart.accept(byte).error,
        uart.write(byte) == (
            uart.tick().clear_error(),
            Err::<(), nb::Error<UartError>>(nb::Error::Other(UartError::InvalidData)),
        ),
        uart.flush() == (
            uart.tick().clear_error(),
            Err::<(), nb::Error<UartError>>(nb::Error::Other(UartError::InvalidData)),
        ),
{
}

/// The bytes leave the UART in the order in which they were accepted: what
/// a tick transmits is the head of the queue, and what is accepted joins the
/// queue at its end.
pub proof fn lemma_order_is_kept(uart: UartModel, byte: u8)
    requires
        uart.wf(),
    ensures
        uart.tick().sent + uart.tick().fifo == uart.sent + uart.fifo,
        uart.has_space() ==> uart.accept(byte).sent + uart.accept(byte).fifo == (uart.sent
            + uart.fifo).push(byte),
{
    assert(uart.tick().sent + uart.tick().fifo =~= uart.sent + uart.fifo);
    if uart.has_space() {
        assert(uart.accept(byte).sent + uart.accept(byte).fifo =~= (uart.sent + uart.fifo).push(
            byte,
        ));
    }
}

} // verus!
