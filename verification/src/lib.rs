pub mod hart;
pub mod memory;
pub mod bus;
