//! Orchestration core for triggering remote automation jobs, waiting for
//! their executions to finish, and flattening their log bundles.
//!
//! - `grouping`: clusters near-duplicate job names by edit distance.
//! - `selector`: resolves the operator's choice of job and execution.
//! - `inputs`: parses the `k=v&...` parameters of a dispatch.
//! - `poll`: the dispatch-then-wait state machine.
//! - `archive`: flattens a zipped log bundle into one text.
//! - `github`, `commands`, `git`: endpoints, command settings and views.

mod archive;
mod commands;
mod error;
mod git;
mod github;
mod grouping;
mod inputs;
mod poll;
mod selector;
mod text;

pub use archive::{merge_entries, unzip_and_concatenate};
pub use commands::{
    AutocompleteCommand, Command, DetailsCommand, DispatchPlan, HistoryCommand,
    RunWorkflowCommand, HISTORY_LIMIT,
};
pub use error::GarError;
pub use git::Git;
pub use github::{GitHub, Workflow, WorkflowRun};
pub use grouping::{edit_distance_of, group_names, names_alike};
pub use inputs::{parse_inputs, InputMap};
pub use poll::{
    is_terminal, on_dispatched, poll_step, replay_wait, PollAction, PollEvent, PollPhase,
    RunStatus, POLL_MILLIS, SETTLE_MILLIS, TICK_MILLIS,
};
pub use selector::{
    chosen_index, contains_infix, find_workflow_by_name, group_labels, name_style,
    resolve_group, run_label, run_labels, status_bucket, style_of_lowered, styled_label,
    GroupChoice, NameStyle, StatusBucket,
};
