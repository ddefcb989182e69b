//! What is said to a tracker and what it answers.

pub mod peers;
pub mod request;
pub mod response;
pub mod udp;
