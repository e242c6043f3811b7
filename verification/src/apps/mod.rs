//! The programs that run on the real-time core.

pub mod stats;
pub mod console;
pub mod elastic;
pub mod intercom;
pub mod intercom_app;
pub mod waking;
pub mod membench;
pub mod timed;
pub mod litmus;
pub mod pbmt_probe;
pub mod robot;
pub mod rtbench;
pub mod sched_demo;
pub mod watchdog;
pub mod ipc_wait;
pub mod uart_wait;
