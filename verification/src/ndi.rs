//! Settings of the video transport.

pub mod recv;
