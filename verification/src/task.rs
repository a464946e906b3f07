pub mod task;
pub mod task_pipeline;
pub mod task_schedule;
