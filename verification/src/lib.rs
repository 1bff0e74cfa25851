//! Keeps inline `// TODO` markers in source files synchronized with issues in
//! an external tracker (GitHub or GitLab): scans files for TODO comments,
//! decides which need a new tracker issue and which point at a closed issue,
//! and rewrites the affected source line.

pub mod strings;
pub mod annotate;
pub mod config;
pub mod github;
pub mod gitlab;
pub mod iniparser;
pub mod issueapi;
pub mod jsonval;
pub mod reconcile;
pub mod remote;
pub mod todo;
