# Rood

Rood is a small x86-64 hobby kernel: a framebuffer text console, a PS/2
keyboard line editor, an ATA PIO disk driver, a flat on-disk filesystem and
a shell with a handful of commands.

This repository holds it in two parts.

* `src/` is the kernel's logic as a Verus library, `rood`, with every
  function proved against its contract:
  * `fs` — the node table (files and directories, each naming its parent),
    the shell's filesystem operations, and the 512-byte sector format with
    its header; proofs that a saved table loads back unchanged.
  * `drivers::ata` — ATA register values, status decisions, and the mapping
    between the 256 data words of a transfer and a sector's bytes.
  * `drivers::ata_protocol` — IDENTIFY, sector reads and sector writes as
    step machines: state and the last value read in, next state and next
    port access (or the result) out.
  * `drivers::ps2`, `keyboard` — the scancode table and the line editors.
  * `drivers::port` — I/O port handles.
  * `framebuffer` — the console's cursor, wrapping and scrolling, as a list
    of drawing steps.
  * `shell` — command-line splitting and the text every command prints.
  * `interrupts` — the PIC programming sequence, the tick count and the
    exception reports.
* `app/` is the kernel binary around it: boot, heap, port I/O, video memory,
  the interrupt table and handlers, and the main loop. It needs a nightly
  toolchain (`abi_x86_interrupt`) and a bare-metal target.

The tests under `tests/` run the library on concrete values.
