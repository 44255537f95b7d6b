//! Deadlock-aware bookkeeping for mutually-exclusive resources.
//!
//! A process records, per task and per resource, what is free, what is held
//! and what is asked for, and can refuse a grant that would leave its tasks
//! unable to finish in any order.
pub mod model;
pub mod matrix;
pub mod protocol;
pub mod registry;
pub mod syscall;
pub mod process;
pub mod conservation;
pub mod completion;
pub mod safety;
