use spmc_buffer::input::{WriteAction, WriteProgress};
use spmc_buffer::output::{ReadAction, ReadProgress};
use spmc_buffer::{Buffer, SPMCBuffer, SPMCBufferInput, SPMCBufferOutput, SPMCBufferSharedState};

/// Bring a read to the point where the new buffer is acquired and the old one is
/// not discarded yet.
fn stall(output: &mut SPMCBufferOutput, shared: &mut SPMCBufferSharedState<i32>) -> ReadProgress {
    let checked = output.step(shared, ReadProgress::start());
    assert_eq!(checked, ReadProgress::Acquiring);
    let acquired = output.step(shared, checked);
    assert!(matches!(acquired, ReadProgress::Discarding { .. }));
    acquired
}

/// A write looks for a free buffer, fills it, forgets its former readers, and
/// publishes it, in this order.
#[test]
fn actions_of_a_write() {
    let mut input = SPMCBuffer::new(1, 0).input;
    let progress = WriteProgress::start();
    assert_eq!(progress.action(), WriteAction::LoadDone { idx: 0 });
    let progress = input.advance(progress, 0);
    assert_eq!(progress.action(), WriteAction::LoadDone { idx: 1 });
    let progress = input.advance(progress, 1);
    assert_eq!(progress.action(), WriteAction::LoadDone { idx: 2 });
    let progress = input.advance(progress, 1);
    let progress = input.advance(progress, 1);
    assert_eq!(progress.action(), WriteAction::LoadDone { idx: 0 });
    let progress = input.advance(progress, 0);
    let progress = input.advance(progress, 0);
    assert_eq!(progress.action(), WriteAction::StoreValue { idx: 1 });
    let progress = input.advance(progress, 0);
    assert_eq!(progress.action(), WriteAction::ResetDone { idx: 1 });
    let progress = input.advance(progress, 0);
    assert_eq!(progress.action(), WriteAction::SwapLatest { info: 1024 });
    let progress = input.advance(progress, 3);
    assert_eq!(progress, WriteProgress::Finished);
    assert_eq!(progress.action(), WriteAction::Nothing);
    assert_eq!(input.advance(progress, 9), WriteProgress::Finished);
    assert_eq!(input.reader_counts, vec![3, 0xffff, 0, 0]);
}

/// A read checks for an update, and then acquires the latest buffer before it
/// discards its own.
#[test]
fn actions_of_a_read() {
    let mut output = SPMCBuffer::new(1, 0).output;
    let progress = ReadProgress::start();
    assert_eq!(output.action(progress), ReadAction::LoadLatest);
    assert_eq!(output.advance(progress, 1), ReadProgress::Ready);
    let progress = output.advance(progress, 2048);
    assert_eq!(output.action(progress), ReadAction::AcquireLatest);
    let progress = output.advance(progress, 3072);
    assert_eq!(output.action(progress), ReadAction::CountDeparture { idx: 0 });
    assert_eq!(output.read_idx, 0);
    let progress = output.advance(progress, 0);
    assert_eq!(progress, ReadProgress::Ready);
    assert_eq!(output.read_idx, 3);
    assert_eq!(output.action(progress), ReadAction::Nothing);
    assert_eq!(output.advance(progress, 7), ReadProgress::Ready);
}

/// A consumer who is stalled at the worst moment does not block the producer when
/// there are enough buffers, and reads what it acquired.
#[test]
fn stalled_consumer_does_not_block_the_producer() {
    let (mut shared, mut input, mut output) = SPMCBuffer::new(1, 0).split();
    input.write(&mut shared, 1);
    let progress = stall(&mut output, &mut shared);
    for value in 2..50 {
        assert_eq!(input.try_write(&mut shared, value), Ok(()));
        assert_eq!(shared.buffers[0].data, 0);
        assert_eq!(shared.buffers[1].data, 1);
    }
    assert_eq!(output.step(&mut shared, progress), ReadProgress::Ready);
    assert_eq!(shared.buffers[output.read_idx].data, 1);
    assert_eq!(*output.read(&mut shared), 49);
}

/// With two consumers, six buffers are enough, five are not.
#[test]
fn two_consumers_need_six_buffers() {
    for len in 5..7 {
        let mut reader_counts = vec![0; len];
        reader_counts[0] = 0xffff;
        let mut input = SPMCBufferInput { reader_counts };
        let mut shared = SPMCBufferSharedState {
            buffers: vec![Buffer { data: 0, done_readers: 0 }; len],
            latest_info: 1,
        };
        let mut first = SPMCBufferOutput { read_idx: 0 };
        let mut second = first.clone(&mut shared);
        assert_eq!(input.try_write(&mut shared, 1), Ok(()));
        let _ = stall(&mut first, &mut shared);
        assert_eq!(input.try_write(&mut shared, 2), Ok(()));
        assert_eq!(*second.read(&mut shared), 2);
        assert_eq!(input.try_write(&mut shared, 3), Ok(()));
        let _ = stall(&mut second, &mut shared);
        assert_eq!(input.try_write(&mut shared, 4), Ok(()));
        let outcome = input.try_write(&mut shared, 5);
        assert_eq!(outcome, if len == 5 { Err(5) } else { Ok(()) });
        assert_eq!(shared.buffers[0].data, 0);
        assert_eq!(shared.buffers[1].data, 1);
        assert_eq!(shared.buffers[2].data, 2);
        assert_eq!(shared.buffers[3].data, 3);
    }
}

/// An update that is published between the check and the acquisition is the one
/// that gets read, and the consumer never goes back to older data.
#[test]
fn late_update_is_read() {
    let (mut shared, mut input, mut output) = SPMCBuffer::new(1, 0).split();
    input.write(&mut shared, 1);
    let checked = output.step(&mut shared, ReadProgress::start());
    assert_eq!(checked, ReadProgress::Acquiring);
    input.write(&mut shared, 2);
    let acquired = output.step(&mut shared, checked);
    input.write(&mut shared, 3);
    assert_eq!(output.step(&mut shared, acquired), ReadProgress::Ready);
    assert_eq!(shared.buffers[output.read_idx].data, 2);
    assert_eq!(*output.read(&mut shared), 3);
}

/// While a write is under way, consumers keep reading the former value.
#[test]
fn unpublished_value_is_not_read() {
    let (mut shared, mut input, mut output) = SPMCBuffer::new(1, 1).split();
    let mut value = Some(2);
    let mut progress = WriteProgress::start();
    while !matches!(progress, WriteProgress::Publishing { .. }) {
        progress = input.step(&mut shared, progress, &mut value);
        assert_eq!(*output.read(&mut shared), 1);
    }
    assert_eq!(input.step(&mut shared, progress, &mut value), WriteProgress::Finished);
    assert_eq!(*output.read(&mut shared), 2);
}

/// Any amount of consumers can share a few versions without blocking the producer.
#[test]
fn consumers_who_share_a_version_hold_one_buffer() {
    let (mut shared, mut input, output) = SPMCBuffer::new(1, 0).split();
    let mut others: Vec<SPMCBufferOutput> = (0..100).map(|_| output.clone(&mut shared)).collect();
    for value in 1..20 {
        assert_eq!(input.try_write(&mut shared, value), Ok(()));
    }
    for other in &mut others {
        assert_eq!(*other.read(&mut shared), 19);
    }
    assert_eq!(shared.buffers[0].done_readers, 100);
    for value in 20..40 {
        assert_eq!(input.try_write(&mut shared, value), Ok(()));
    }
    assert_eq!(shared.buffers[0].data, 0);
}

/// A waiting producer also finds a buffer that becomes free behind its search.
#[test]
fn buffer_freed_behind_the_search_is_found() {
    let (mut shared, mut input, mut output) = SPMCBuffer::new(0, 0).split();
    input.write(&mut shared, 1);
    let mut value = Some(2);
    let mut progress = WriteProgress::start();
    for _ in 0..7 {
        progress = input.step(&mut shared, progress, &mut value);
    }
    assert_eq!(progress, WriteProgress::Scanning { idx: 1 });
    assert_eq!(*output.read(&mut shared), 1);
    let mut steps = 0;
    while progress != WriteProgress::Finished {
        progress = input.step(&mut shared, progress, &mut value);
        steps += 1;
    }
    assert_eq!(steps, 5);
    assert_eq!(shared.buffers[0].data, 2);
    assert_eq!(*output.read(&mut shared), 2);
}

/// A leaving consumer releases a waiting producer.
#[test]
fn leaving_consumer_releases_waiting_write() {
    let (mut shared, mut input, output) = SPMCBuffer::new(0, 0).split();
    input.write(&mut shared, 1);
    let mut value = Some(2);
    let mut progress = WriteProgress::start();
    for _ in 0..4 {
        progress = input.step(&mut shared, progress, &mut value);
    }
    assert_eq!(progress, WriteProgress::Scanning { idx: 0 });
    output.drop(&mut shared);
    for _ in 0..4 {
        progress = input.step(&mut shared, progress, &mut value);
    }
    assert_eq!(progress, WriteProgress::Finished);
}
