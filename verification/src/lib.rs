pub mod body;
pub mod ids;
pub mod message;
pub mod node;
pub mod transport;
pub mod workload;
