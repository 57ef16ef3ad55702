//! Path conventions for Kubernetes pod log files.
//!
//! The kubelet and the container runtimes write each container's logs under a
//! fixed directory layout:
//!
//! ```text
//! <root>/<namespace>_<name>_<uid>/<container_name>/<log_file_name>
//! ```
//!
//! This crate builds the directory of a pod from its identity and reads the
//! identity back from the path of a log file. Both directions are pure
//! functions of their arguments, and both are stated over sequences of
//! characters: see [`directory::pod_logs_directory`] and
//! [`parse::parsed_log_file_path`].

pub mod directory;
pub mod laws;
pub mod parse;
pub mod platform;
pub mod segments;
pub mod split;

pub use directory::build_pod_logs_directory;
pub use parse::{parse_log_file_path, LogFileInfo};
pub use platform::{get_k8s_logs_dir, Platform};
