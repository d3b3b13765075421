//! What holds of the library as a whole.
pub mod advising;
pub mod apply;
pub mod applying;
pub mod asking;
pub mod blocks;
pub mod bookkeeping;
pub mod candidates;
pub mod choices;
pub mod commands;
pub mod conflict;
pub mod doctor;
pub mod drafts;
pub mod git;
pub mod github;
pub mod judgement;
pub mod keeping;
pub mod limits;
pub mod osv;
pub mod permissions;
pub mod records;
pub mod release;
pub mod reviews;
pub mod scan;
pub mod service;
pub mod serving;
pub mod supply_chain;
pub mod sync;
pub mod syncing;
pub mod tasks;
pub mod telling;
pub mod watching;
pub mod working;
