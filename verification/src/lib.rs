//! A dashboard for a local git repository and its GitHub remote.

pub mod byte_positions;
pub mod clock;
pub mod commands;
pub mod file_diff;
pub mod graph;
pub mod hunks;
pub mod job_laws;
pub mod jobs;
pub mod labels;
pub mod local_refresh;
pub mod model;
pub mod numbers;
pub mod path_map;
pub mod patterns;
pub mod process;
pub mod remote_refresh;
pub mod selection;
pub mod strings;
pub mod text;
pub mod working_tree;
