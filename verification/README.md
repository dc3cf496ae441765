# rcore_kernel

The decision logic of a small teaching kernel, written in Verus with its
contracts proved:

- `batch`: user-stack layout of the multiprogrammed batch loader and its
  round-robin loop over unfinished applications.
- `dispatch`: what happens to a task after it traps (exit, suspend, block,
  rotate) and which value goes back to it.
- `ready_queue`: the ready queue of the round-robin kernel.
- `tables`: descriptor tables, slot lists of synchronisation objects, and
  where reads and writes go.
- `signal`: `kill` and the steps of `sigaction`.
- `calls`: replies of `exec` (with the ELF header check), `fork`,
  `wait`, `waittid` and the blocking synchronisation calls.
- `clock`, `ramdisk`, `stack`, `linker`, `hexdump`: clock values, ramdisk
  block addresses, kernel and thread stacks, per-architecture link settings,
  and the text of a hexadecimal dump.

`app/` holds the bare-metal glue (boot, traps, page tables, devices) that
carries out these decisions on the hardware layer.
