//! Notification bot core: a durable subscriber/progress store, a tiered
//! threshold scheduler deciding who is due for a launch notification, and the
//! decision logic of the polling worker that drives fetch/notify cycles.

use vstd::prelude::*;

pub mod codec;
pub mod config;
pub mod db;
pub mod kv;
pub mod notify;
pub mod sched;
pub mod types;
pub mod worker;

verus! {

} // verus!
