//! What the broker does with the frames it receives, and when.

pub mod handledata;
pub mod mainloop;
