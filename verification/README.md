# rcore_os

The verified core of a small RISC-V teaching kernel and its file system.

- `src/block_dev.rs`, `src/block_cache.rs`: the block device interface, the
  cache of one block, and the manager that keeps at most sixteen cached
  blocks, one per block. `evict_first_unshared` drops the oldest cache whose
  strong count is one; the counts themselves depend on the other holders.
- `src/console.rs`: log levels and filters, the coloured log line, and the
  character codes handed to the console.
- `src/text.rs`: hexadecimal and decimal digits.
- `src/boot.rs`: the boot sequence on a memory image: `.bss` zeroed, the
  section ranges reported, then the shutdown message.
- `src/trap.rs`: the trap context, the decoding of `scause`, what the
  kernel does about each trap and what it prints.
- `src/timer.rs`, `src/syscall.rs`, `src/task.rs`: tick conversions, the
  next timer deadline and the sleep test's deadline; the `write` system
  call over UTF-8 buffers; thread status.
- `src/panic_trace.rs`: the chain of `slip`/`slap` calls that ends in a panic.

`app/` runs these pieces on a host: it owns the global cache manager, the
`log` logger, the clock reads, the printing and the panics. `tests/` exercises the
library with a RAM disk.
