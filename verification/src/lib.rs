//! Frame bookkeeping, heap array allocations and panic reporting for a small kernel.

pub mod heap;
pub mod numfmt;
pub mod page_array;
pub mod panic_rt;
pub mod phys;
