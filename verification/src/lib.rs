//! The logic of a small RISC-V teaching kernel: console requests to the SBI
//! firmware, word and byte-string primitives, a bump page allocator, and a
//! round-robin process table.
pub mod types;
pub mod console;
pub mod mem;
pub mod cstr;
pub mod process;
pub mod page_alloc;
pub mod panic_msg;
