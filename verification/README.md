# my_kernel

A small x86_64 kernel whose decision-making is a verified Verus library.

- `src/` — the library, verified with Verus:
  - `vga_buffer`: colours, attribute bytes, the code page 866 table and a
    writer that keeps the 80×25 text screen (scrolling, line wrap, colour).
  - `terminal`: the command line editor and the command names.
  - `keyboard`: the scan codes the kernel names.
  - `pic`: the PIC programming sequence and interrupt-mask arithmetic.
  - `memory`: the frame allocator over the boot loader's memory map.
  - `page_table`: mapping a page as a step-by-step request against the page
    table, with a model of a page table and the proof of what a request does.
  - `lib.rs`: the QEMU exit codes and the test runner.
- `app/` — the kernel binary: boot entry, interrupt and descriptor tables,
  port I/O, the VGA hardware buffer, the serial port and the kernel heap
  (the library keeps its data in `Vec`s). It drives the
  library and carries out what it asks for.
- `tests/` — tests of the library on concrete values.

The interrupt handlers use the `x86-interrupt` calling convention, so the
kernel binary needs a nightly compiler; the library does not.
