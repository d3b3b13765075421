//! The service: jobs, conflicts that wait for a decision, and pushes.
pub mod apply;
pub mod confirm;
pub mod conflicts;
pub mod dashboard;
pub mod db;
pub mod handlers;
pub mod jobs;
pub mod protection;
pub mod security;
pub mod types;
pub mod util;
pub mod work;
