# smmu

Verified building blocks of an ARM SMMU v3 model, written in Verus.

- `src/types.rs`: addresses, identifiers, permissions, translation results and fault records.
- `src/address_space.rs`: a sparse page table per address space (map, unmap, translate, ranges,
  batches, invalidation tracking), with laws relating translation to mapping and unmapping.
- `src/cache.rs`: the TLB, a `dashmap::DashMap` behind a small set of trusted wrappers, with LRU
  and FIFO replacement, statistics and every invalidation scope; its laws cover the capacity
  bound, reading back an insertion, and exact invalidation.
- `src/fault/`: fault detection, validation, a bounded FIFO fault queue, fault processing in
  terminate and stall mode, recovery bookkeeping, and the byte format of fault event lists
  (`codec.rs`, with a round-trip law).
- `src/smmu.rs`: the controller `SMMU`. Its abstract state (`SmmuState`) holds the
  configuration and registers, the stream table (a `dashmap::DashMap` behind trusted wrappers),
  the fault log and its clock, the event, command and page request queues with their indices,
  and the counters; every operation is stated as a step function on that state. It covers
  stream configuration with the illegal-entry checks, shutdown, the CR0/CR2/GBPA registers, the
  event queue with overflow flagging and held-back stall events, the recording of translation
  and stream faults, command processing (TLB invalidation scopes, completion events, page
  request responses, RESUME and STALL_TERM, the CMDQ_ERR stop), page requests, and what
  happens around a page table walk: ATS refusals, disabled-SMMU bypass or abort, the stream
  table bound, TLB hits, output address size checks, TLB fill, stall tags for stall-mode
  streams and fault recording. Laws cover queue bounds, configure-then-remove, shutdown,
  overflow, the draining of both queues, TLB hits, fresh stall tags and bypass identity. The queue index arithmetic and
  the global error protocol are here too.
- `app/lib.rs`: what the verified library does not hold: `thiserror` error types and
  floating-point hit rates.

What is not here: the per-stream context (PASID tables, context descriptors, the stage 1 and
stage 2 walk itself) that the controller consults before it completes a translation. `SMMU::finish_translation` takes the walk's result as an argument and
does everything the controller does around it.

Run the proofs with Verus on `src/lib.rs`; `tests/` holds ordinary Rust tests of the library.
