//! Builds and repairs RPM packaging of Python projects: the decisions, the text
//! transformations and the state of a build, as verified functions.
pub mod analyzer;
pub mod argument_laws;
pub mod batch_laws;
pub mod cli;
pub mod command;
pub mod config;
pub mod cure_laws;
pub mod debug;
pub mod describe;
pub mod describe_laws;
pub mod edit_laws;
pub mod engine;
pub mod evidence;
pub mod extract;
pub mod file_laws;
pub mod fixer;
pub mod git;
pub mod graph;
pub mod install_laws;
pub mod issue;
pub mod keep_laws;
pub mod line_laws;
pub mod llm;
pub mod log_laws;
pub mod log_message_laws;
pub mod module_laws;
pub mod name_laws;
pub mod obs_api;
pub mod obs_local;
pub mod ops_log;
pub mod outside;
pub mod paths;
pub mod patterns;
pub mod pieces;
pub mod pipeline;
pub mod progress_laws;
pub mod refresh_laws;
pub mod remote_fix;
pub mod remote_laws;
pub mod report;
pub mod requirement_laws;
pub mod resources;
pub mod run_laws;
pub mod scheduler;
pub mod section_laws;
pub mod service_laws;
pub mod set_laws;
pub mod shown_laws;
pub mod source_laws;
pub mod spec_laws;
pub mod specfile;
pub mod target_laws;
pub mod text;
pub mod text_laws;
pub mod trace_laws;
pub mod update_laws;
pub mod upstream;
pub mod version_laws;
pub mod versions;
pub mod workflow;
pub mod workflow_laws;
