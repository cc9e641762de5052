//! Bookkeeping for a swarm of identical asynchronous calls: the log line that
//! records each outcome, the sink ledger that admits one line per task, and the
//! collector that gathers every outcome in the order it arrives.
pub mod entry;
pub mod error;
pub mod roster;
pub mod ledger;
pub mod collector;
pub mod openai;
