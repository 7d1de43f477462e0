//! What the operations of the library are for, said of their calls.
//!
//! Each law speaks of calls: `call_ensures(f, arguments, result)` says that a call
//! of `f` with these arguments came to this result. What follows from that is said
//! in terms of what went in and what came out.

pub mod article;
pub mod device;
pub mod discovery;
pub mod download;
pub mod lookup;
pub mod report;
pub mod settings;
pub mod site;
pub mod text;
