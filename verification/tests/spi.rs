use async_trait_poc::asynch::{AsyncRead, Poll, Resume};
use async_trait_poc::spi::{DummySpi, SpiError, INVALID_BYTE, TICKS_PER_BYTE};

fn would_block<T>(r: &nb::Result<T, SpiError>) -> bool {
    matches!(r, Err(nb::Error::WouldBlock))
}

#[test]
fn constants_of_the_spi() {
    assert_eq!(TICKS_PER_BYTE, 3);
    assert_eq!(INVALID_BYTE, 0x42);
}

#[test]
fn read_on_idle_spi_would_block() {
    let mut spi = DummySpi::new();
    for _ in 0..5 {
        assert!(would_block(&spi.read()));
    }
}

#[test]
fn sent_byte_comes_back_inverted_at_the_third_read() {
    let mut spi = DummySpi::new();
    assert!(spi.send(0x0f).is_ok());
    assert!(would_block(&spi.read()));
    assert!(would_block(&spi.read()));
    assert!(matches!(spi.read(), Ok(0xf0)));
    assert!(would_block(&spi.read()));
}

#[test]
fn send_does_not_advance_time() {
    let mut spi = DummySpi::new();
    assert!(spi.send(0x01).is_ok());
    assert!(spi.send(0x02).is_ok());
    assert!(spi.send(0x03).is_ok());
    assert!(would_block(&spi.read()));
    assert!(would_block(&spi.read()));
    assert!(matches!(spi.read(), Ok(0xfe)));
}

#[test]
fn every_byte_value_makes_the_round_trip() {
    for b in 0..=255u8 {
        let mut spi = DummySpi::new();
        assert!(spi.send(b).is_ok());
        assert!(would_block(&spi.read()));
        assert!(would_block(&spi.read()));
        let r = spi.read();
        if !b == 0x42 {
            assert_eq!(b, 0xbd);
            assert!(matches!(r, Err(nb::Error::Other(SpiError::InvalidData))));
        } else {
            assert!(matches!(r, Ok(x) if x == !b));
        }
        assert!(would_block(&spi.read()));
    }
}

#[test]
fn burst_comes_back_in_the_order_of_sending() {
    let mut spi = DummySpi::new();
    let data = [0x01u8, 0x02, 0x03, 0x04];
    for b in data {
        assert!(spi.send(b).is_ok());
    }
    for b in data {
        assert!(would_block(&spi.read()));
        assert!(would_block(&spi.read()));
        assert!(matches!(spi.read(), Ok(x) if x == !b));
    }
    assert!(would_block(&spi.read()));
}

#[test]
fn full_transmit_queue_would_block() {
    let mut spi = DummySpi::new();
    for b in 0..4u8 {
        assert!(spi.send(b).is_ok());
    }
    assert!(would_block(&spi.send(4)));
    assert!(would_block(&spi.send(5)));
    // The refused bytes left no trace: 0, 1, 2, 3 come back and no more.
    for b in 0..4u8 {
        assert!(would_block(&spi.read()));
        assert!(would_block(&spi.read()));
        assert!(matches!(spi.read(), Ok(x) if x == !b));
    }
    assert!(would_block(&spi.read()));
}

#[test]
fn slot_is_free_again_once_a_byte_is_shifted_out() {
    let mut spi = DummySpi::new();
    for b in 0..4u8 {
        assert!(spi.send(b).is_ok());
    }
    spi.make_progress();
    spi.make_progress();
    assert!(would_block(&spi.send(4)));
    spi.make_progress();
    assert!(spi.send(4).is_ok());
    assert!(would_block(&spi.send(5)));
}

#[test]
fn received_invalid_byte_is_reported_and_consumed() {
    let mut spi = DummySpi::new();
    assert!(spi.send(0xbd).is_ok());
    assert!(spi.send(0x01).is_ok());
    assert!(would_block(&spi.read()));
    assert!(would_block(&spi.read()));
    assert!(matches!(spi.read(), Err(nb::Error::Other(SpiError::InvalidData))));
    assert!(would_block(&spi.read()));
    assert!(would_block(&spi.read()));
    assert!(matches!(spi.read(), Ok(0xfe)));
}

#[test]
fn sending_the_invalid_value_is_fine() {
    let mut spi = DummySpi::new();
    assert!(spi.send(0x42).is_ok());
    assert!(would_block(&spi.read()));
    assert!(would_block(&spi.read()));
    assert!(matches!(spi.read(), Ok(0xbd)));
}

#[test]
fn overflow_is_reported_once_and_harms_no_received_byte() {
    let mut spi = DummySpi::new();
    let data = [0x10u8, 0x20, 0x30, 0x40, 0x50];
    for b in data {
        assert!(spi.send(b).is_ok());
        for _ in 0..3 {
            spi.make_progress();
        }
    }
    assert!(matches!(spi.read(), Err(nb::Error::Other(SpiError::RxFifoOverflow))));
    for b in &data[..4] {
        assert!(matches!(spi.read(), Ok(x) if x == !*b));
    }
    assert!(would_block(&spi.read()));
}

#[test]
fn four_unread_bytes_do_not_overflow() {
    let mut spi = DummySpi::new();
    for b in 1..=4u8 {
        assert!(spi.send(b).is_ok());
    }
    for _ in 0..12 {
        spi.make_progress();
    }
    for b in 1..=4u8 {
        assert!(matches!(spi.read(), Ok(x) if x == !b));
    }
    assert!(would_block(&spi.read()));
}

#[test]
fn several_dropped_bytes_are_one_overflow() {
    let mut spi = DummySpi::new();
    for b in 1..=7u8 {
        assert!(spi.send(b).is_ok());
        for _ in 0..3 {
            spi.make_progress();
        }
    }
    assert!(matches!(spi.read(), Err(nb::Error::Other(SpiError::RxFifoOverflow))));
    for b in 1..=4u8 {
        assert!(matches!(spi.read(), Ok(x) if x == !b));
    }
    assert!(would_block(&spi.read()));
}

#[test]
fn overflow_during_a_read_is_reported_by_that_read() {
    let mut spi = DummySpi::new();
    for b in 1..=4u8 {
        assert!(spi.send(b).is_ok());
    }
    for _ in 0..12 {
        spi.make_progress();
    }
    assert!(spi.send(5).is_ok());
    spi.make_progress();
    spi.make_progress();
    // The tick of this read shifts the fifth byte out onto a full queue.
    assert!(matches!(spi.read(), Err(nb::Error::Other(SpiError::RxFifoOverflow))));
    assert!(matches!(spi.read(), Ok(0xfe)));
}

#[test]
fn ticks_on_idle_spi_change_nothing() {
    let mut spi = DummySpi::new();
    for _ in 0..7 {
        spi.make_progress();
    }
    assert!(spi.send(0x00).is_ok());
    assert!(would_block(&spi.read()));
    assert!(would_block(&spi.read()));
    assert!(matches!(spi.read(), Ok(0xff)));
}

#[test]
fn read_byte_unit_completes_with_the_byte() {
    let mut spi = DummySpi::new();
    assert!(spi.send(0x0f).is_ok());
    let mut unit = spi.async_read_byte();
    assert!(matches!(unit.resume(), Poll::Pending));
    assert!(matches!(unit.resume(), Poll::Pending));
    assert!(matches!(unit.resume(), Poll::Ready(Ok(0xf0))));
}

#[test]
fn read_byte_unit_reports_invalid_data() {
    let mut spi = DummySpi::new();
    assert!(spi.send(0xbd).is_ok());
    let mut unit = spi.async_read_byte();
    assert!(matches!(unit.resume(), Poll::Pending));
    assert!(matches!(unit.resume(), Poll::Pending));
    assert!(matches!(unit.resume(), Poll::Ready(Err(SpiError::InvalidData))));
}

#[test]
fn read_unit_fills_the_buffer_in_order() {
    let mut spi = DummySpi::new();
    for b in [0x01u8, 0x02, 0x03] {
        assert!(spi.send(b).is_ok());
    }
    let mut buf = [0u8; 3];
    {
        let mut unit = spi.async_read(&mut buf);
        for _ in 0..8 {
            assert!(matches!(unit.resume(), Poll::Pending));
        }
        assert!(matches!(unit.resume(), Poll::Ready(Ok(()))));
        assert_eq!(unit.cursor, 3);
    }
    assert_eq!(buf, [0xfe, 0xfd, 0xfc]);
}

#[test]
fn read_unit_with_empty_buffer_completes_at_once() {
    let mut spi = DummySpi::new();
    assert!(spi.send(0x01).is_ok());
    let mut buf = [0u8; 0];
    {
        let mut unit = spi.async_read(&mut buf);
        assert!(matches!(unit.resume(), Poll::Ready(Ok(()))));
    }
    // The peripheral was left alone: the byte still takes its three reads.
    assert!(would_block(&spi.read()));
    assert!(would_block(&spi.read()));
    assert!(matches!(spi.read(), Ok(0xfe)));
}

#[test]
fn read_unit_stops_at_an_error_and_keeps_what_it_has() {
    let mut spi = DummySpi::new();
    for b in [0x01u8, 0xbd, 0x03] {
        assert!(spi.send(b).is_ok());
    }
    let mut buf = [0u8; 3];
    {
        let mut unit = spi.async_read(&mut buf);
        for _ in 0..5 {
            assert!(matches!(unit.resume(), Poll::Pending));
        }
        assert!(matches!(unit.resume(), Poll::Ready(Err(SpiError::InvalidData))));
        assert_eq!(unit.cursor, 1);
    }
    assert_eq!(buf, [0xfe, 0x00, 0x00]);
}

#[test]
fn read_unit_reports_an_overflow() {
    let mut spi = DummySpi::new();
    for b in 1..=5u8 {
        assert!(spi.send(b).is_ok());
        for _ in 0..3 {
            spi.make_progress();
        }
    }
    let mut buf = [0u8; 4];
    {
        let mut unit = spi.async_read(&mut buf);
        assert!(matches!(unit.resume(), Poll::Ready(Err(SpiError::RxFifoOverflow))));
    }
    assert_eq!(buf, [0, 0, 0, 0]);
    {
        let mut unit = spi.async_read(&mut buf);
        for _ in 0..3 {
            assert!(matches!(unit.resume(), Poll::Pending));
        }
        assert!(matches!(unit.resume(), Poll::Ready(Ok(()))));
    }
    assert_eq!(buf, [0xfe, 0xfd, 0xfc, 0xfb]);
}
