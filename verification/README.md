# rvkernel

The logic of a small RISC-V (32-bit) teaching kernel, written in Verus with its
behaviour proved against contracts.

Library (`src/`, verified):

- `types` — addresses, page size, table size, `SbiRet`, `TrapFrame`, `State`.
- `console` — the SBI "Console Putchar" call for a character (`putchar`) and
  the calls that write a string (`Writer::write_str`).
- `mem` — `memset` over 32-bit words, `memcpy` over bytes, `is_aligned`.
- `cstr` — `strcpy` and `strcmp` on NUL-terminated byte strings, with the laws
  that relate them.
- `process` — the process table: idle process, process creation with an
  initial saved context, round-robin `yield_proc`.
- `page_alloc` — a bump allocator of zeroed pages over the free RAM.
- `panic_msg` — decimal digits of a line number and the panic report text.

Program (`app/`, not verified): SBI calls, CSR access and the context switch
in RISC-V assembly, the kernel's main routine and its two demonstration
processes, and the panic report hook. Off a RISC-V target the console writes
to standard output and switching stacks stops the program.
