//! Scheduled jobs.

use vstd::prelude::*;

verus! {

/// The default cron task: it logs each firing.
#[derive(Debug, Clone, Copy)]
pub struct LoggingCronTask;

} // verus!
