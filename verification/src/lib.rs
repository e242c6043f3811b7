//! Message passing and remote procedure calls between the cores of an
//! asymmetric multiprocessing system.

pub mod bytes;
pub mod varint;
pub mod text;
pub mod wire;
pub mod message;
pub mod ring;
pub mod stream;
pub mod channel;
pub mod shm;
pub mod layout;
pub mod region;
pub mod notifier;
pub mod descriptor;
pub mod rpc;
pub mod server;
pub mod client;
pub mod service;
pub mod exchange;
pub mod apps;
pub mod chip;
pub mod laws;
