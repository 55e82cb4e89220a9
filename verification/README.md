# lib

Verified bookkeeping for a small kernel, written in Verus.

- `src/page_array.rs`: a sparse, lazily backed array of `u32` slots.
- `src/phys.rs`: per-frame reference counts and the frame allocation bitmap,
  with laws on how marking, freeing, referencing and dereferencing compose.
- `src/heap.rs`: what the heap front end asks of the heap, and array
  allocations tracked by base address and element count.
- `src/panic_rt.rs`: the report a panic writes and the code it exits with.
- `src/numfmt.rs`: numbers written in radix two to sixteen.
- `app/`: global tables behind locks, calls into the heap, logging and exit.
