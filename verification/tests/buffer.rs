use spmc_buffer::index::{
    INFINITE_REFCOUNT, SHARED_INDEX_MASK, SHARED_INDEX_MULTIPLIER, SHARED_OVERFLOW_BIT,
    SHARED_READCOUNT_MASK,
};
use spmc_buffer::input::WriteProgress;
use spmc_buffer::{Buffer, SPMCBuffer, MAX_CONCURRENT_READERS};

/// Try initializing a buffer for some maximal wait-free readout concurrency
fn test_initialization(wf_conc_readers: usize) {
    // Create a buffer with the requested wait-free read concurrency
    let buf = SPMCBuffer::new(wf_conc_readers, 42);

    // Access the shared state
    let buf_shared = &buf.shared;

    // Check that we have an appropriate amount of buffers
    let num_buffers = buf_shared.buffers.len();
    assert_eq!(num_buffers, 2 * (1 + wf_conc_readers));

    // Decode and check the latest buffer metadata: we should have one
    // reader, no refcount overflow, and a valid latest buffer index
    let latest_info = buf_shared.latest_info;
    let reader_count = latest_info & SHARED_READCOUNT_MASK;
    assert_eq!(reader_count, 1);
    let overflow = (latest_info & SHARED_OVERFLOW_BIT) != 0;
    assert!(!overflow);
    let latest_idx = (latest_info & SHARED_INDEX_MASK) / SHARED_INDEX_MULTIPLIER;
    assert!(latest_idx < num_buffers);

    // The reader must initially use the latest buffer as a read buffer
    assert_eq!(buf.output.read_idx, latest_idx);

    // The read buffer must be properly initialized
    let buffers = &buf_shared.buffers;
    assert_eq!(buffers[latest_idx].data, 42);

    // The outgoing reader count of each buffer must be 0 initially.
    for buffer in buffers {
        assert_eq!(buffer.done_readers, 0);
    }

    // Every buffer except for the read buffer should be considered free
    // in the writer's internal reference counting records. The read buffer
    // should use a special infinite refcount to completely forbid writing.
    for (index, refcount) in buf.input.reader_counts.iter().enumerate() {
        if index != latest_idx {
            assert_eq!(*refcount, 0);
        } else {
            assert_eq!(*refcount, INFINITE_REFCOUNT);
        }
    }
}

/// Check that SPMC buffers are properly initialized as long as the
/// requested amount of concurrent readers stays in implementation limits.
#[test]
fn initial_state() {
    // Test for 0 readers (writer-blocking double-buffering limit)
    test_initialization(0);

    // Test for 1 concurrent reader (quadruple buffering)
    test_initialization(1);

    // Test for maximal amount of concurrent readers
    test_initialization(MAX_CONCURRENT_READERS);
}

/// Check that writing to an SPMC buffer works, but can be blocking
#[test]
fn write_write_sequence() {
    // Let's create a double buffer
    let mut buf = SPMCBuffer::new(0, 1.0);

    // Backup the initial buffer state
    let old_buf = buf.clone();

    // Perform a write
    buf.input.write(&mut buf.shared, 4.2);

    // Analyze the new buffer state
    {
        // Starting from the old buffer state...
        let mut expected_buf = old_buf.clone();

        // We expect the buffer which is NOT accessed by the current reader
        // to have received the new value from the writer.
        let old_read_idx = old_buf.output.read_idx;
        let write_idx = 1 - old_read_idx;
        expected_buf.shared.buffers[write_idx].data = 4.2;

        // We expect the latest buffer information to now point towards
        // this write buffer
        expected_buf.shared.latest_info = write_idx * SHARED_INDEX_MULTIPLIER;

        // We expect the writer to have marked this write index as
        // unreachable, since it is now reader-visible, and to have fetched
        // the reference count of the former read buffer
        expected_buf.input.reader_counts[write_idx] = INFINITE_REFCOUNT;
        expected_buf.input.reader_counts[old_read_idx] = 1;

        // Nothing else should have changed
        assert_eq!(buf, expected_buf);
    }

    // At this point, all buffers are busy: the reader holds one buffer, and
    // the other is publicly visible. So trying to commit another write
    // should lead the writer into a waiting loop, from which it can only
    // exit if the reader drops its current buffer. Let's check that.
    {
        let (mut shared, mut buf_input, mut buf_output) = buf.split();
        let mut value = Some(2.4);
        let mut progress = WriteProgress::start();

        // Wait a bit to make sure that the writer cannot proceed
        for _ in 0..100 {
            progress = buf_input.step(&mut shared, progress, &mut value);
            assert!(matches!(progress, WriteProgress::Scanning { .. }));
        }
        assert_eq!(value, Some(2.4));

        // Make the reader check out the new buffer state, freeing the
        // buffer that it was previously holding
        assert_eq!(*buf_output.read(&mut shared), 4.2);

        // Check that the writer can now proceed
        let mut steps = 0;
        while progress != WriteProgress::Finished {
            progress = buf_input.step(&mut shared, progress, &mut value);
            steps += 1;
        }
        assert!(steps <= shared.buffers.len() + 3);
        assert_eq!(value, None);
        assert_eq!(*buf_output.read(&mut shared), 2.4);
    }
}

/// A write that finds no free buffer hands its value back and changes nothing.
#[test]
fn blocked_write_hands_the_value_back() {
    let mut buf = SPMCBuffer::new(0, 1);
    assert_eq!(buf.input.try_write(&mut buf.shared, 2), Ok(()));
    let before = buf.clone();
    assert_eq!(buf.input.try_write(&mut buf.shared, 3), Err(3));
    assert_eq!(buf, before);
    assert_eq!(*buf.output.read(&mut buf.shared), 2);
    assert_eq!(buf.input.try_write(&mut buf.shared, 3), Ok(()));
    assert_eq!(*buf.output.read(&mut buf.shared), 3);
}

/// A producer, and as many consumers as needed, all of whom get the update.
#[test]
fn every_consumer_reads_the_update() {
    let buf = SPMCBuffer::new(2, 1.0);
    let (mut shared, mut buf_input, mut buf_output) = buf.split();
    let mut buf_output2 = buf_output.clone(&mut shared);
    assert_eq!(*buf_output2.read(&mut shared), 1.0);

    buf_input.write(&mut shared, 4.2);

    assert_eq!(*buf_output.read(&mut shared), 4.2);
    assert_eq!(*buf_output2.read(&mut shared), 4.2);
    assert_eq!(shared.latest_info, SHARED_INDEX_MULTIPLIER + 2);
    assert_eq!(shared.buffers[0].done_readers, 2);
}

/// Reading again without an update in between changes nothing.
#[test]
fn clean_read_changes_nothing() {
    let mut buf = SPMCBuffer::new(1, 10);
    buf.input.write(&mut buf.shared, 11);
    assert_eq!(*buf.output.read(&mut buf.shared), 11);
    let before = buf.clone();
    assert_eq!(*buf.output.read(&mut buf.shared), 11);
    assert_eq!(buf, before);
}

/// A consumer gets the latest of several updates.
#[test]
fn intermediate_updates_are_skipped() {
    let mut buf = SPMCBuffer::new(1, 0);
    for value in 1..20 {
        buf.input.write(&mut buf.shared, value);
    }
    assert_eq!(*buf.output.read(&mut buf.shared), 19);
}

/// A write goes to the first free buffer and leaves all others alone.
#[test]
fn write_goes_to_first_free_buffer() {
    let mut buf = SPMCBuffer::new(1, 0);
    buf.input.write(&mut buf.shared, 7);
    let data: Vec<i32> = buf.shared.buffers.iter().map(|b| b.data).collect();
    assert_eq!(data, vec![0, 7, 0, 0]);
    assert_eq!(buf.input.reader_counts, vec![1, INFINITE_REFCOUNT, 0, 0]);
    buf.input.write(&mut buf.shared, 8);
    let data: Vec<i32> = buf.shared.buffers.iter().map(|b| b.data).collect();
    assert_eq!(data, vec![0, 7, 8, 0]);
    assert_eq!(buf.input.reader_counts, vec![1, 0, INFINITE_REFCOUNT, 0]);
    buf.input.write(&mut buf.shared, 9);
    let data: Vec<i32> = buf.shared.buffers.iter().map(|b| b.data).collect();
    assert_eq!(data, vec![0, 9, 8, 0]);
    assert_eq!(buf.input.reader_counts, vec![1, INFINITE_REFCOUNT, 0, 0]);
}

/// A consumer who leaves frees its buffer.
#[test]
fn leaving_consumer_frees_its_buffer() {
    let buf = SPMCBuffer::new(0, 1);
    let (mut shared, mut input, output) = buf.split();
    input.write(&mut shared, 2);
    assert_eq!(input.try_write(&mut shared, 3), Err(3));
    output.drop(&mut shared);
    assert_eq!(shared.buffers[0].done_readers, 1);
    assert_eq!(input.try_write(&mut shared, 3), Ok(()));
    assert_eq!(input.try_write(&mut shared, 4), Ok(()));
}

/// A new consumer starts with the latest update.
#[test]
fn new_consumer_starts_with_latest_update() {
    let buf = SPMCBuffer::new(1, 1);
    let (mut shared, mut input, output) = buf.split();
    input.write(&mut shared, 2);
    let mut other = output.clone(&mut shared);
    assert_eq!(output.read_idx, 0);
    assert_eq!(other.read_idx, 1);
    assert_eq!(shared.latest_info, SHARED_INDEX_MULTIPLIER + 1);
    assert_eq!(*other.read(&mut shared), 2);
    assert_eq!(shared.latest_info, SHARED_INDEX_MULTIPLIER + 1);
}

/// Copies are equal until one of them changes, and do not affect each other.
#[test]
fn copies_are_equal_and_independent() {
    let mut buf = SPMCBuffer::new(1, 5);
    let copy = buf.clone();
    assert_eq!(buf, copy);
    buf.input.write(&mut buf.shared, 6);
    assert_ne!(buf, copy);
    assert_eq!(copy, SPMCBuffer::new(1, 5));
    assert_eq!(copy.shared.buffers[1].data, 5);
}

/// Every part of the state matters to equality.
#[test]
fn equality_compares_every_part() {
    let buf = SPMCBuffer::new(1, 5);
    let mut other = buf.clone();
    other.shared.buffers[2].data = 6;
    assert_ne!(buf, other);
    assert!(!buf.shared.eq(&other.shared));
    let mut other = buf.clone();
    other.shared.buffers[2].done_readers = 1;
    assert_ne!(buf, other);
    let mut other = buf.clone();
    other.shared.latest_info = 2;
    assert_ne!(buf, other);
    let mut other = buf.clone();
    other.input.reader_counts[3] = 1;
    assert_ne!(buf, other);
    let mut other = buf.clone();
    other.output.read_idx = 1;
    assert_ne!(buf, other);
    assert_ne!(buf, SPMCBuffer::new(2, 5));
    assert!(buf.shared.eq(&SPMCBuffer::new(2, 5).shared));
    assert_ne!(SPMCBuffer::new(1, f64::NAN), SPMCBuffer::new(1, f64::NAN));
}

/// Values that are not plain numbers are cloned into every buffer.
#[test]
fn owned_values_are_shared() {
    let mut buf = SPMCBuffer::new(1, String::from("first"));
    assert!(buf.shared.buffers.iter().all(|b| b.data == "first"));
    buf.input.write(&mut buf.shared, String::from("second"));
    assert_eq!(buf.output.read(&mut buf.shared).as_str(), "second");
    assert_eq!(buf.shared.clone().buffers[0].data, "first");
}

/// A value whose clones can be told from it.
#[derive(Debug, PartialEq)]
struct Generation(u32);

impl Clone for Generation {
    fn clone(&self) -> Self {
        Generation(self.0 + 1)
    }
}

/// A copy holds what cloning each value gave, once, and the same counters.
#[test]
fn copies_hold_cloned_values() {
    let buffer = Buffer { data: Generation(4), done_readers: 3 };
    let copy = buffer.clone();
    assert_eq!(copy.data, Generation(5));
    assert_eq!(copy.done_readers, 3);

    let mut buf = SPMCBuffer::new(0, Generation(0));
    buf.input.write(&mut buf.shared, Generation(10));
    let shared = buf.shared.clone();
    assert_eq!(shared.buffers[1].data, Generation(11));
    assert_eq!(shared.latest_info, buf.shared.latest_info);
    let copy = buf.clone();
    assert_eq!(copy.shared.buffers[1].data, Generation(11));
    assert_eq!(copy.shared.buffers[0].data, Generation(buf.shared.buffers[0].data.0 + 1));
    assert_eq!(copy.input.reader_counts, buf.input.reader_counts);
    assert_eq!(buf.shared.buffers[1].data, Generation(10));
}

/// The producer goes on when all consumers have left.
#[test]
fn producer_outlives_its_consumers() {
    let (mut shared, mut input, output) = SPMCBuffer::new(0, 0).split();
    output.drop(&mut shared);
    for value in 1..10 {
        assert_eq!(input.try_write(&mut shared, value), Ok(()));
    }
}

/// Consumers who come and go fill up the reader count of one publication, and the
/// next write starts a new count.
#[test]
fn departed_consumers_count() {
    let (mut shared, mut input, output) = SPMCBuffer::new(1, 7).split();
    for _ in 0..510 {
        output.clone(&mut shared).drop(&mut shared);
    }
    assert_eq!(shared.latest_info, 511);
    assert_eq!(shared.buffers[0].done_readers, 510);
    input.write(&mut shared, 8);
    assert_eq!(input.reader_counts[0], 511);
    assert_eq!(shared.latest_info, SHARED_INDEX_MULTIPLIER);
    output.drop(&mut shared);
    input.write(&mut shared, 9);
    assert_eq!(shared.buffers[0].data, 9);
}
