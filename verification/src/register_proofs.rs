//! What holds of every buffer write to the UART with a single transmit
//! register: how many resumptions it takes and when an invalid byte is
//! reported.

use crate::asynch::Poll;
use crate::{UartError, UartState, WriteModel, INVALID_BYTE, SEND_TICKS};
use vstd::prelude::*;

verus! {

/// Resumptions that one byte takes: one to enter the register, `SEND_TICKS`
/// to count down, and one for the register to fall idle.
pub const RESUMPTIONS_PER_BYTE: usize = SEND_TICKS + 2;

/// None of the first `n` bytes of `data` is the invalid byte.
pub open spec fn clean_prefix(data: Seq<u8>, n: nat) -> bool {
    n <= data.len() && forall|i: int| 0 <= i < n ==> data[i] != INVALID_BYTE
}

/// The write of `data` to an idle register when `k` resumptions are done and
/// the write is still under way.
pub open spec fn under_way(data: Seq<u8>, k: nat) -> WriteModel {
    if k == 0 {
        WriteModel::begin(UartState::Idle, data)
    } else {
        let byte = (k - 1) / (RESUMPTIONS_PER_BYTE as int);
        let phase = (k - 1) % (RESUMPTIONS_PER_BYTE as int);
        WriteModel {
            uart: if phase <= SEND_TICKS {
                UartState::Sending(data[byte], (SEND_TICKS - phase) as usize)
            } else {
                UartState::Idle
            },
            data,
            cursor: (byte + 1) as nat,
        }
    }
}

proof fn lemma_under_way_step(data: Seq<u8>, n: nat, k: nat)
    requires
        clean_prefix(data, n),
        1 <= k <= RESUMPTIONS_PER_BYTE * data.len(),
        k < RESUMPTIONS_PER_BYTE * (n + 1),
    ensures
        under_way(data, (k - 1) as nat).step() == (
            under_way(data, k),
            Poll::<Result<(), UartError>>::Pending,
        ),
{
    let prev = under_way(data, (k - 1) as nat);
    assert(RESUMPTIONS_PER_BYTE == 7);
    if k >= 2 {
        let byte0 = (k - 2) / 7;
        let phase0 = (k - 2) % 7;
        let byte1 = (k - 1) / 7;
        let phase1 = (k - 1) % 7;
        assert(prev.cursor == byte0 + 1);
        assert(byte0 < data.len());
        if phase0 < 6 {
            assert(byte1 == byte0 && phase1 == phase0 + 1);
            assert(prev.uart == UartState::Sending(data[byte0], (5 - phase0) as usize));
            if phase0 == 5 {
                assert(byte0 < n);
                assert(data[byte0] != INVALID_BYTE);
            }
        } else {
            assert(byte1 == byte0 + 1 && phase1 == 0);
            assert(prev.uart == UartState::Idle);
            assert(prev.cursor < data.len());
        }
    }
}

proof fn lemma_under_way(data: Seq<u8>, n: nat, k: nat)
    requires
        clean_prefix(data, n),
        k <= RESUMPTIONS_PER_BYTE * data.len(),
        k < RESUMPTIONS_PER_BYTE * (n + 1),
    ensures
        WriteModel::begin(UartState::Idle, data).after(k) == under_way(data, k),
        k >= 1 ==> WriteModel::begin(UartState::Idle, data).outcome(k) is Pending,
    decreases k,
{
    if k > 0 {
        lemma_under_way(data, n, (k - 1) as nat);
        lemma_under_way_step(data, n, k);
    }
}

/// A write of `data`, none of whose bytes is invalid, to an idle register is
/// suspended at each of its first `RESUMPTIONS_PER_BYTE * data.len()`
/// resumptions, and succeeds at the next one, leaving the register idle.
pub proof fn lemma_clean_write_completes(data: Seq<u8>)
    requires
        clean_prefix(data, data.len()),
    ensures
        forall|k: nat|
            1 <= k <= RESUMPTIONS_PER_BYTE * data.len() ==> (#[trigger] WriteModel::begin(
                UartState::Idle,
                data,
            ).outcome(k)) is Pending,
        WriteModel::begin(UartState::Idle, data).outcome(
            (RESUMPTIONS_PER_BYTE * data.len() + 1) as nat,
        ) == Poll::Ready(Ok::<(), UartError>(())),
        WriteModel::begin(UartState::Idle, data).after(
            (RESUMPTIONS_PER_BYTE * data.len() + 1) as nat,
        ).uart == UartState::Idle,
{
    let start = WriteModel::begin(UartState::Idle, data);
    let len = data.len();
    assert forall|k: nat| 1 <= k <= RESUMPTIONS_PER_BYTE * len implies (#[trigger] start.outcome(
        k,
    )) is Pending by {
        lemma_under_way(data, len, k);
    }
    let last = (RESUMPTIONS_PER_BYTE * len) as nat;
    lemma_under_way(data, len, last);
    assert(start.after((last + 1) as nat) == under_way(data, last).step().0);
}

/// A write of `data`, whose first invalid byte stands at index `at`, to an
/// idle register is suspended at each of its first
/// `RESUMPTIONS_PER_BYTE * (at + 1) - 1` resumptions, and fails with
/// `InvalidData` at the next one, when the invalid byte leaves the register.
/// No byte behind the invalid one has entered the register by then.
pub proof fn lemma_invalid_byte_fails_write(data: Seq<u8>, at: nat)
    requires
        at < data.len(),
        clean_prefix(data, at),
        data[at as int] == INVALID_BYTE,
    ensures
        forall|k: nat|
            1 <= k < RESUMPTIONS_PER_BYTE * (at + 1) ==> (#[trigger] WriteModel::begin(
                UartState::Idle,
                data,
            ).outcome(k)) is Pending,
        WriteModel::begin(UartState::Idle, data).outcome(
            (RESUMPTIONS_PER_BYTE * (at + 1)) as nat,
        ) == Poll::Ready(Err::<(), UartError>(UartError::InvalidData)),
        WriteModel::begin(UartState::Idle, data).after(
            (RESUMPTIONS_PER_BYTE * (at + 1)) as nat,
        ) == (WriteModel { uart: UartState::Idle, data, cursor: at + 1 }),
{
    let start = WriteModel::begin(UartState::Idle, data);
    assert forall|k: nat| 1 <= k < RESUMPTIONS_PER_BYTE * (at + 1) implies (
    #[trigger] start.outcome(k)) is Pending by {
        lemma_under_way(data, at, k);
    }
    let last = (RESUMPTIONS_PER_BYTE * (at + 1) - 1) as nat;
    lemma_under_way(data, at, last);
    assert(start.after((last + 1) as nat) == under_way(data, last).step().0);
}

} // verus!
