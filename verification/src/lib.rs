//! A performance monitoring library for Linux.
//!
//! This library knows how to operate the counters that the kernel keeps for things
//! like instruction completions, cache references and misses, branch predictions,
//! context switches and page faults, and what the words mean that are read from
//! them.
//!
//! There are two main types for measurement:
//!
//! -   A [`Counter`] is an individual counter. Use [`Builder`] to construct one.
//!
//! -   A [`Group`] is a collection of counters that can be enabled and disabled
//!     atomically, so that they cover exactly the same period of execution,
//!     allowing meaningful comparisons of the individual values.
//!
//! The library makes no system calls itself. An operation that needs one is handed
//! a function that makes it, or, where a call may have to be repeated, the outcome
//! of the call: see [`reading`].

pub mod builder;
pub mod counter;
pub mod counts;
pub mod error;
pub mod flags;
pub mod group;
pub mod laws;
pub mod read;
pub mod reading;
pub mod sys;
pub mod text;
pub mod time;

pub use crate::builder::{Builder, Event, OpenRequest};
pub use crate::counter::{CountAndTime, Counter, CounterValue, GroupEntry, GroupIter, GroupValue};
pub use crate::counts::{Counts, CountsIter};
pub use crate::error::{Error, ErrorKind};
pub use crate::flags::ReadFormat;
pub use crate::group::Group;
pub use crate::reading::{Fault, ReadBuffer, Step};
pub use crate::sys::{check_errno_syscall, errno_result, Ioctl};
pub use crate::text::Field;
