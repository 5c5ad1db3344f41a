//! Where connections and datagrams come from.
pub mod loop_detection;
pub mod original_dst;
pub mod transparent_tcp;
pub mod udp;
pub mod windows;
