//! Feed-watching task automation. On each task's schedule the pipeline
//! runs the task's exec actions and captures their output as named
//! variables, fetches the task's feed, filters the items by glob patterns
//! and size bounds, and submits every match to a download backend under a
//! variable-templated destination path. Every decision along the way is
//! made and verified here; the host program around the library only
//! performs the I/O those decisions call for.

pub mod actions;
pub mod clients;
pub mod digits;
pub mod feeds;
pub mod filters;
pub mod hconf_parser;
pub mod task;
pub mod vars;
