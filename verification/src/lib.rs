//! The job pipeline of a regression-bisection service: admission of jobs into a
//! bounded queue, the worker's decisions for each job, the classification of the
//! bisection tool's output, and the persisted job records.

pub mod bisect;
pub mod db;
pub mod options;
pub mod queue;
pub mod text;
pub mod toolchain;

pub use crate::options::Date;
pub use crate::options::Options;
