//! Core of a TCP/UDP network measurement engine: the wire codec, the
//! metrics aggregator, and the decisions that drive the send and receive
//! loops. Sockets, timers and task spawning stay with the caller.

pub mod anomalies;
pub mod clock;
pub mod config;
pub mod metrics;
pub mod network;
pub mod packet;
pub mod reporter;
pub mod text;
