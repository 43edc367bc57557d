use spmc_buffer::index::{decode_index, decode_readcount, encode_fresh, has_overflowed};
use spmc_buffer::{SPMCBuffer, SPMCBufferOutput, MAX_BUFFERS, MAX_CONCURRENT_READERS};

#[test]
fn limits() {
    assert_eq!(MAX_BUFFERS, 64);
    assert_eq!(MAX_CONCURRENT_READERS, 31);
    assert_eq!(SPMCBuffer::new(31, 0u8).shared.buffers.len(), 64);
}

#[test]
fn fresh_index_designates_its_buffer() {
    for idx in 0..MAX_BUFFERS {
        let info = encode_fresh(idx);
        assert_eq!(decode_index(info), idx);
        assert_eq!(decode_readcount(info), 0);
        assert!(!has_overflowed(info));
    }
    assert_eq!(encode_fresh(63), 0xfc00);
}

#[test]
fn packed_fields_are_independent() {
    let info = 0b1010_1001_0000_1111;
    assert_eq!(decode_index(info), 0b10_1010);
    assert_eq!(decode_readcount(info), 0b1_0000_1111);
    assert!(!has_overflowed(info));
    assert_eq!(decode_index(info | 0x200), 0b10_1010);
    assert_eq!(decode_readcount(info | 0x200), 0b1_0000_1111);
    assert!(has_overflowed(info | 0x200));
    assert_eq!(decode_index(info + 0x1_0000), 0b10_1010);
}

#[test]
fn update_is_available_when_the_buffers_differ() {
    let output = SPMCBufferOutput::attach(3 * 1024 + 17);
    assert_eq!(output.read_idx, 3);
    assert!(!output.update_available(3 * 1024));
    assert!(!output.update_available(3 * 1024 + 511));
    assert!(output.update_available(4 * 1024 + 17));
    assert!(output.update_available(17));
}

/// 511 acquisitions of one publication fit, one more sets the overflow bit.
#[test]
fn overflow_is_detected() {
    let buf = SPMCBuffer::new(0, 0u8);
    let (mut shared, _input, output) = buf.split();
    for _ in 0..510 {
        assert_eq!(output.clone(&mut shared).read_idx, 0);
    }
    assert_eq!(decode_readcount(shared.latest_info), 511);
    assert!(!has_overflowed(shared.latest_info));
    assert_eq!(output.clone(&mut shared).read_idx, 0);
    assert!(has_overflowed(shared.latest_info));
    assert_eq!(decode_index(shared.latest_info), 0);
}

/// Counters wrap around like atomic ones do.
#[test]
fn counters_wrap_around() {
    let mut shared = SPMCBuffer::new(0, 0u8).shared;
    shared.latest_info = usize::MAX;
    assert_eq!(shared.acquire_latest(), usize::MAX);
    assert_eq!(shared.latest_info, 0);
    shared.buffers[1].done_readers = usize::MAX;
    shared.count_departure(1);
    assert_eq!(shared.buffers[1].done_readers, 0);
    assert_eq!(shared.buffers[0].done_readers, 0);
}
