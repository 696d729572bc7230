//! xHCI data structures this kernel builds in memory: transfer-ring
//! bookkeeping, event classification, and host-controller register
//! images.

pub mod descriptor;
pub mod event;
pub mod registers;
pub mod transfer;
