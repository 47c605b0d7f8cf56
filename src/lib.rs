//! Market-data ingestion: decoding of upstream observations, rendering of
//! sink insert commands, the plan of one ingestion cycle, and the scheduler
//! that drives cycles forever.
pub mod clock;
pub mod sink;
pub mod client;
pub mod cycle;
pub mod scheduler;
