//! Core of a minimal x86_64 kernel, as verified data and decisions:
//! the heap allocation strategies, the interrupt dispatch and
//! acknowledgement rules, the paging arithmetic, the scancode queue
//! with its wake-up bridge, and the cooperative task executors. The
//! hardware acts themselves — port reads and writes, table loads,
//! halts — are left to the boot code around this crate; everything
//! the kernel decides or computes on plain values is specified and
//! proved here.

pub mod align;
pub mod allocator;
pub mod bump;
pub mod executor;
pub mod fixed_size_block;
pub mod interrupts;
pub mod keyboard;
pub mod layout;
pub mod linked_list;
pub mod memory;
pub mod qemu;
pub mod queue;
pub mod scancode;
pub mod simple_executor;
pub mod task;
pub mod vga_buffer;
