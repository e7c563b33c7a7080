//! A review-only bot that runs a disposable Codex worker on GitHub events.
pub mod text;
pub mod numeral;
pub mod path;
pub mod domain;
pub mod string_set;
pub mod handled_marker;
pub mod observed_notification;
pub mod task_limit;
pub mod mention_thread;
pub mod maid;
pub mod auto_review;
pub mod effect;
pub mod task_run;
pub mod assessment;
pub mod poll;
pub mod workload;
pub mod comment;
pub mod codex;
pub mod github;
pub mod github_api;
pub mod config;
pub mod git;
pub mod worktree;
pub mod repo_cache;
pub mod daemon_lock;
pub mod polling_metrics;
