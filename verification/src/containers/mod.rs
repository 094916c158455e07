pub mod beef;
pub mod buffer;
pub mod iterators;
pub mod singleton;
pub mod stacktools;
