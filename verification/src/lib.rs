//! Core engine of a visual command runner: a configuration tree of sections,
//! options and actions; resolution of a selected action into a concrete
//! command line and rendered execution string; and the state machine that
//! turns an external process run into an ordered stream of progress events.

pub mod command_actions;
pub mod task_subscription;
pub mod template;
