use vstd::prelude::*;

pub mod checker;
pub mod config;
pub mod error;
pub mod executor;
pub mod flow;
pub mod init;
pub mod metric_ext;
pub mod metrics;
pub mod pkg;
pub mod task;
pub mod text;

verus! {

} // verus!
