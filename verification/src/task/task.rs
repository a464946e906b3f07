use vstd::prelude::*;

use crate::task::task_schedule::TaskSchedule;

verus! {

/// One independently scheduled workflow, as its loop identifies it.
pub struct Task {
    pub name: String,
    pub max_retries: u32,
    pub schedule: TaskSchedule,
}

} // verus!
