use async_trait_poc::asynch::{Poll, Resume};
use async_trait_poc::{AsyncWrite, Serial, Uart, UartError};

fn would_block(r: &nb::Result<(), UartError>) -> bool {
    matches!(r, Err(nb::Error::WouldBlock))
}

fn invalid_data(r: &nb::Result<(), UartError>) -> bool {
    matches!(r, Err(nb::Error::Other(UartError::InvalidData)))
}

/// Resumes a write of `data` to a fresh UART until it completes and returns
/// the number of resumptions and the result.
fn run_write(data: &[u8]) -> (usize, Result<(), UartError>) {
    let mut serial = Serial::new(Uart::new());
    let mut unit = serial.try_write(data);
    let mut count = 0;
    loop {
        count += 1;
        assert!(count < 10_000);
        if let Poll::Ready(r) = unit.resume() {
            return (count, r);
        }
    }
}

#[test]
fn idle_register_takes_a_byte() {
    let mut uart = Uart::new();
    assert!(uart.write_byte(0x01).is_ok());
}

#[test]
fn flush_of_idle_register_succeeds() {
    let mut uart = Uart::new();
    assert!(uart.flush().is_ok());
    assert!(uart.flush().is_ok());
}

#[test]
fn busy_register_counts_down_then_falls_idle() {
    let mut uart = Uart::new();
    assert!(uart.write_byte(0x01).is_ok());
    for _ in 0..6 {
        assert!(would_block(&uart.flush()));
    }
    assert!(uart.flush().is_ok());
}

#[test]
fn busy_register_refuses_a_second_byte() {
    let mut uart = Uart::new();
    assert!(uart.write_byte(0x01).is_ok());
    // The second byte is invalid; had it replaced the first, the register
    // would report it when it falls idle.
    for _ in 0..6 {
        assert!(would_block(&uart.write_byte(0xff)));
    }
    assert!(uart.write_byte(0x02).is_ok());
}

#[test]
fn invalid_byte_is_reported_when_it_leaves_the_register() {
    let mut uart = Uart::new();
    assert!(uart.write_byte(0xff).is_ok());
    for _ in 0..5 {
        assert!(would_block(&uart.flush()));
    }
    assert!(invalid_data(&uart.flush()));
    // Reported once: the register is idle afterwards.
    assert!(uart.flush().is_ok());
}

#[test]
fn register_write_of_nothing_completes_at_once() {
    let (count, r) = run_write(&[]);
    assert_eq!(count, 1);
    assert!(r.is_ok());
}

#[test]
fn register_write_takes_seven_resumptions_per_byte_and_one() {
    for len in 1..=9usize {
        let data: Vec<u8> = (0..len).map(|i| i as u8).collect();
        let (count, r) = run_write(&data);
        assert_eq!(count, 7 * len + 1);
        assert!(r.is_ok());
    }
}

#[test]
fn register_write_of_hello_succeeds() {
    let (count, r) = run_write(b"Hello!");
    assert_eq!(count, 43);
    assert!(r.is_ok());
}

#[test]
fn register_write_fails_when_the_invalid_byte_leaves() {
    for at in 0..5usize {
        let mut data = vec![0x10u8; 6];
        data[at] = 0xff;
        let (count, r) = run_write(&data);
        assert_eq!(count, 7 * (at + 1));
        assert!(matches!(r, Err(UartError::InvalidData)));
    }
}

#[test]
fn register_write_stops_at_the_first_invalid_byte() {
    let (count, r) = run_write(&[0x01, 0xff, 0xff, 0x02]);
    assert_eq!(count, 14);
    assert!(matches!(r, Err(UartError::InvalidData)));
}

#[test]
fn register_write_leaves_the_register_idle_after_an_error() {
    let mut serial = Serial::new(Uart::new());
    let data = [0x01u8, 0xff, 0x02];
    let mut unit = serial.try_write(&data);
    let mut result = None;
    while result.is_none() {
        if let Poll::Ready(r) = unit.resume() {
            result = Some(r);
        }
    }
    assert!(matches!(result, Some(Err(UartError::InvalidData))));
    assert_eq!(unit.offset, 2);
    // The byte behind the invalid one never entered the register.
    let mut flush = serial.flush_async();
    assert!(matches!(flush.resume(), Poll::Ready(Ok(()))));
}

#[test]
fn byte_write_on_idle_register_completes_at_once() {
    let mut serial = Serial::new(Uart::new());
    let mut unit = serial.write_byte_async(0x41);
    assert!(matches!(unit.resume(), Poll::Ready(Ok(()))));
}

#[test]
fn byte_write_waits_for_the_register() {
    let mut serial = Serial::new(Uart::new());
    assert!(matches!(serial.write_byte_async(0x41).resume(), Poll::Ready(Ok(()))));
    let mut unit = serial.write_byte_async(0x42);
    for _ in 0..6 {
        assert!(matches!(unit.resume(), Poll::Pending));
    }
    assert!(matches!(unit.resume(), Poll::Ready(Ok(()))));
}

#[test]
fn byte_write_reports_the_error_of_the_byte_before() {
    let mut serial = Serial::new(Uart::new());
    assert!(matches!(serial.write_byte_async(0xff).resume(), Poll::Ready(Ok(()))));
    let mut unit = serial.write_byte_async(0x42);
    for _ in 0..5 {
        assert!(matches!(unit.resume(), Poll::Pending));
    }
    assert!(matches!(unit.resume(), Poll::Ready(Err(UartError::InvalidData))));
}

#[test]
fn wait_idle_completes_once_the_byte_has_left() {
    let mut serial = Serial::new(Uart::new());
    assert!(matches!(serial.write_byte_async(0x41).resume(), Poll::Ready(Ok(()))));
    let mut unit = serial.flush_async();
    for _ in 0..6 {
        assert!(matches!(unit.resume(), Poll::Pending));
    }
    assert!(matches!(unit.resume(), Poll::Ready(Ok(()))));
}

#[test]
fn wait_idle_reports_an_invalid_byte() {
    let mut serial = Serial::new(Uart::new());
    assert!(matches!(serial.write_byte_async(0xff).resume(), Poll::Ready(Ok(()))));
    let mut unit = serial.flush_async();
    for _ in 0..5 {
        assert!(matches!(unit.resume(), Poll::Pending));
    }
    assert!(matches!(unit.resume(), Poll::Ready(Err(UartError::InvalidData))));
}
