use cpu_sim::bus_device::{BusDevice, BusDeviceError, SystemContext};
use cpu_sim::fifo::{push_string_to_fifo_rx, Fifo, FifoDataSource};
use cpu_sim::memory::Memory;

#[test]
fn test_reset_clears_host_to_cpu_queue() {
    let source = FifoDataSource::new();
    let mut fifo = Fifo::new_with_callback(source);
    let mut memory = Memory::new();
    let mut ctx = SystemContext::new(&mut memory);
    fifo.write_byte(&mut ctx, 0x00, 0x11).unwrap();
    fifo.rx.push_back(0x22);

    fifo.reset(&mut ctx);

    assert!(fifo.rx.is_empty());
}

#[test]
fn test_access_size_rules() {
    let source = FifoDataSource::new();
    let mut fifo = Fifo::new_with_callback(source);
    let mut memory = Memory::new();
    let mut ctx = SystemContext::new(&mut memory);

    assert_eq!(fifo.read_word(&mut ctx, 0x04).unwrap(), 0b10);

    assert!(matches!(
        fifo.read_word(&mut ctx, 0x00),
        Err(BusDeviceError::UnsupportedSize { size: 4, .. })
    ));
    assert!(matches!(
        fifo.write_word(&mut ctx, 0x00, 0x1234_5678),
        Err(BusDeviceError::UnsupportedSize { size: 4, .. })
    ));
    assert!(matches!(
        fifo.write_word(&mut ctx, 0x04, 0x1234_5678),
        Err(BusDeviceError::WriteToReadOnly { .. })
    ));
    assert!(matches!(
        fifo.read_halfword(&mut ctx, 0x00),
        Err(BusDeviceError::UnsupportedSize { size: 2, .. })
    ));
    assert!(matches!(
        fifo.read_halfword(&mut ctx, 0x04),
        Err(BusDeviceError::UnsupportedSize { size: 2, .. })
    ));
    assert!(matches!(
        fifo.write_halfword(&mut ctx, 0x00, 0x1234),
        Err(BusDeviceError::UnsupportedSize { size: 2, .. })
    ));
    assert!(matches!(
        fifo.read_byte(&mut ctx, 0x04),
        Err(BusDeviceError::UnsupportedSize { size: 1, .. })
    ));
    assert!(matches!(
        fifo.write_byte(&mut ctx, 0x04, 0x12),
        Err(BusDeviceError::UnsupportedSize { size: 1, .. })
    ));
}

// Further scenarios of the library's own contracts.

#[test]
fn test_fifo_bytes_reach_cpu_in_order() {
    let mut source = FifoDataSource::new();
    source.write_byte(1);
    source.write_byte(2);
    assert_eq!(source.len(), 2);
    let mut fifo = Fifo::new_with_callback(source);
    let mut memory = Memory::new();
    let mut ctx = SystemContext::new(&mut memory);
    assert_eq!(fifo.read_word(&mut ctx, 0x04).unwrap(), 0b11);
    assert_eq!(fifo.read_byte(&mut ctx, 0x00).unwrap(), 1);
    assert_eq!(fifo.read_byte(&mut ctx, 0x00).unwrap(), 2);
    // Reading an empty queue yields zero.
    assert_eq!(fifo.read_byte(&mut ctx, 0x00).unwrap(), 0);
    assert_eq!(fifo.read_word(&mut ctx, 0x04).unwrap(), 0b10);
}

#[test]
fn test_fifo_cpu_bytes_reach_host() {
    let mut fifo = Fifo::new();
    let mut memory = Memory::new();
    let mut ctx = SystemContext::new(&mut memory);
    fifo.write_byte(&mut ctx, 0x00, b'a').unwrap();
    fifo.write_data(0x162); // only the low byte is sent
    assert_eq!(fifo.tx.pop_front(), Some(b'a'));
    assert_eq!(fifo.tx.pop_front(), Some(0x62));
    assert_eq!(fifo.tx.pop_front(), None);
}

#[test]
fn test_fifo_word_data_access() {
    let mut fifo = Fifo::default();
    fifo.rx.push_back(0x7f);
    assert_eq!(fifo.read_status(), 0b11);
    assert_eq!(fifo.read_data(), 0x7f);
    assert_eq!(fifo.read_data(), 0);
    assert_eq!(fifo.read_status(), 0b10);
}

#[test]
fn test_fifo_invalid_offset() {
    let mut fifo = Fifo::new();
    let mut memory = Memory::new();
    let mut ctx = SystemContext::new(&mut memory);
    assert!(matches!(
        fifo.read_word(&mut ctx, 0x08),
        Err(BusDeviceError::InvalidAddress { offset: 0x08 })
    ));
    assert!(matches!(
        fifo.write_byte(&mut ctx, 0x01, 0),
        Err(BusDeviceError::InvalidAddress { offset: 0x01 })
    ));
    assert_eq!(fifo.size(), 8);
    assert_eq!(fifo.name(), "FIFO");
}

#[test]
fn test_push_string_to_fifo_rx_adds_terminator() {
    let mut source = FifoDataSource::new();
    push_string_to_fifo_rx(&mut source, "abcd");
    let mut got = Vec::new();
    while let Some(b) = source.read_byte() {
        got.push(b);
    }
    assert_eq!(got, vec![b'a', b'b', b'c', b'd', 0]);
}

#[test]
fn test_push_string_to_fifo_rx_without_terminator() {
    let mut source = FifoDataSource::new();
    push_string_to_fifo_rx(&mut source, "abc");
    assert_eq!(source.len(), 3);
    push_string_to_fifo_rx(&mut source, "");
    assert_eq!(source.len(), 4);
    source.clear();
    assert!(source.is_empty());
}
