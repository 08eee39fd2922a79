//! Verified core of the DeepSeek terminal client's tool-output spillover,
//! header bar layout and fill-in-the-middle tool.

pub mod fim;
pub mod header;
pub mod spillover;
pub mod text;
