use serial_pump::state::{Inner, PortError};

#[test]
fn it_works() {
    assert_eq!(2 + 2, 4);
}

#[test]
fn read_on_empty_inbound_would_blocks() {
    let mut port = Inner::new();
    let mut buf = [0u8; 4];
    assert_eq!(port.read(&mut buf), Err(PortError::WouldBlock));
    // never a zero-length success, and the buffer is untouched
    assert_eq!(buf, [0u8; 4]);
}

#[test]
fn scenario_read_drains_fifo_across_calls() {
    let mut port = Inner::new();
    port.absorb_inbound(&[0x41, 0x42, 0x43]);

    let mut small = [0u8; 2];
    assert_eq!(port.read(&mut small), Ok(2));
    assert_eq!(small, [0x41, 0x42]);

    let mut large = [0u8; 4];
    assert_eq!(port.read(&mut large), Ok(1));
    assert_eq!(large[0], 0x43);

    assert_eq!(port.read(&mut large), Err(PortError::WouldBlock));
}

#[test]
fn write_to_free_slot_accepts_whole_payload() {
    let mut port = Inner::new();
    assert_eq!(port.write(&[9, 8, 7]), Ok(3));
    assert_eq!(port.take_outbound(), Some(vec![9, 8, 7]));
}

#[test]
fn write_while_slot_occupied_would_blocks() {
    let mut port = Inner::new();
    assert_eq!(port.write(&[1]), Ok(1));
    assert_eq!(port.write(&[2]), Err(PortError::WouldBlock));
    // the refused write left the pending payload untouched
    assert_eq!(port.take_outbound(), Some(vec![1]));
}

#[test]
fn scenario_write_retry_after_worker_flush() {
    let mut port = Inner::new();
    assert_eq!(port.write(&[0x01, 0x02]), Ok(2));
    assert_eq!(port.write(&[0x03]), Err(PortError::WouldBlock));
    // the worker's flush cycle frees the slot
    assert_eq!(port.take_outbound(), Some(vec![0x01, 0x02]));
    assert_eq!(port.write(&[0x03]), Ok(1));
    assert_eq!(port.take_outbound(), Some(vec![0x03]));
}

#[test]
fn disciplined_writes_reach_transport_concatenated() {
    let mut port = Inner::new();
    let inputs: [&[u8]; 3] = [&[1, 2], &[3], &[4, 5, 6]];
    let mut arrived: Vec<u8> = Vec::new();
    for input in inputs {
        assert_eq!(port.write(input), Ok(input.len()));
        let flushed = port.take_outbound().unwrap();
        arrived.extend_from_slice(&flushed);
    }
    assert_eq!(arrived, vec![1, 2, 3, 4, 5, 6]);
}

#[test]
fn reads_return_prefixes_in_order_without_duplication() {
    let mut port = Inner::new();
    port.absorb_inbound(&[10, 11]);
    port.absorb_inbound(&[12, 13, 14]);
    let mut seen: Vec<u8> = Vec::new();
    loop {
        let mut buf = [0u8; 2];
        match port.read(&mut buf) {
            Ok(n) => seen.extend_from_slice(&buf[..n]),
            Err(PortError::WouldBlock) => break,
        }
    }
    assert_eq!(seen, vec![10, 11, 12, 13, 14]);
}

#[test]
fn take_outbound_on_free_slot_is_none() {
    let mut port = Inner::new();
    assert_eq!(port.take_outbound(), None);
}

#[test]
fn flush_always_succeeds_and_changes_nothing() {
    let mut port = Inner::new();
    port.absorb_inbound(&[5]);
    assert_eq!(port.write(&[6]), Ok(1));
    assert_eq!(port.flush(), Ok(()));
    let mut buf = [0u8; 1];
    assert_eq!(port.read(&mut buf), Ok(1));
    assert_eq!(buf[0], 5);
    assert_eq!(port.take_outbound(), Some(vec![6]));
}

#[test]
fn worker_cycle_interleaved_with_caller_keeps_both_buffers_intact() {
    let mut port = Inner::new();
    assert_eq!(port.write(&[0x20, 0x21]), Ok(2));
    // a worker drain step between caller operations
    port.absorb_inbound(&[0x30]);
    let mut buf = [0u8; 8];
    assert_eq!(port.read(&mut buf), Ok(1));
    assert_eq!(buf[0], 0x30);
    // the pending write was not disturbed by the inbound traffic
    assert_eq!(port.take_outbound(), Some(vec![0x20, 0x21]));
    assert_eq!(port.take_outbound(), None);
}
