//! What the operations are for, stated of the operations themselves: of the values
//! that calls take and give, with numbers written out.
//!
//! `call_ensures(f, args, r)` says that a call of `f` with `args` gave `r`. Where
//! `f` changes an argument, `old` and `final` are its values before and after.

pub mod messages;
pub mod channels;
pub mod calls;
pub mod chassis;
pub mod arm;
pub mod service;
pub mod texts;
pub mod tasks;
pub mod tables;
pub mod client;
pub mod devices;
pub mod lines;
pub mod boards;
pub mod experiments;
pub mod timings;
pub mod serving;
pub mod ends;
pub mod starts;
