pub mod base;
pub mod frame;
pub mod libxdp;
pub mod mmap;
pub mod shared;
