//! Workspace bookkeeping and experiment-output analysis for an agent CLI:
//! session todos, the last-session marker, metric extraction from training
//! logs, and the decisions taken around an experiment run.

pub mod experiment;
pub mod last_session;
pub mod metric_parser;
pub mod named;
pub mod numbers;
pub mod paths;
pub mod text;
pub mod todos;
