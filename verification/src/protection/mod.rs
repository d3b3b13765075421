//! Security checks: what is scanned, how findings are judged and what is prepared for delivery.
pub mod candidate;
pub mod catalog;
pub mod closure;
pub mod guard;
pub mod inquiry;
pub mod investigate;
pub mod issue;
pub mod model;
pub mod osv;
pub mod review;
pub mod review_run;
pub mod runner;
pub mod store;
pub mod supply_chain;
pub mod verify;
pub mod verify_run;
