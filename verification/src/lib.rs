pub mod parse;
pub mod process;
pub mod text;
pub mod types;
pub mod refs;
pub mod roundtrip;
pub mod summary;
pub mod file_diff;
pub mod repo;
pub mod branches;
pub mod recent;
pub mod settings;
pub mod session;
pub mod summary_job;
pub mod summary_fallback;
pub mod summary_diffs;
pub mod file_job;
pub mod file_runs;
pub mod repo_job;
