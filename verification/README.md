# SPMC buffer

Triple buffering for several consumers: one producer updates a value
periodically, and any amount of consumers access the latest update at any time.
Buffers are reference-counted, so that the producer never writes into a buffer
that a consumer may be reading from.

```rust
let buf = SPMCBuffer::new(2, 1.0);
let (mut shared, mut input, mut output) = buf.split();
let mut output2 = output.clone(&mut shared);

input.write(&mut shared, 4.2);

assert_eq!(*output.read(&mut shared), 4.2);
assert_eq!(*output2.read(&mut shared), 4.2);
```

A write and a read are sequences of atomic actions on the shared state. The
library decides, in verified code, which action comes next; whoever holds the
shared state performs it. `src/` performs the actions on a shared state that is
passed by `&mut`. `app/` performs them on atomics and shared cells, and is what
threads use.

- `src/index.rs`: latest buffer and reader count, packed in one integer
- `src/shared.rs`: the state that producer and consumers share
- `src/input.rs`, `src/output.rs`: the producer's and the consumers' decisions
- `src/buffer.rs`: construction, copies and comparison of whole buffers
- `src/model.rs`: one producer and any amount of consumers, interleaved
- `src/safety.rs`: no data race, and what a consumer sees
- `src/progress.rs`: when writes and reads are wait-free
- `src/operations.rs`: laws of whole writes and reads
- `src/counting.rs`: lemmas about who holds which buffer

The model interleaves atomic actions one at a time. That the atomics of `app/`
behave so with the memory orderings it chooses, some of which are relaxed, is
assumed and not proved.

The reader count of a publication counts acquisitions, also by consumers who have
departed since: it is full after 511 of them, however few are concurrent. The next
write starts a new count.
