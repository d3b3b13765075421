//! The commands of the program.
use crate::config::Config;
use crate::protection::model::SecurityDisposition;
use crate::service::types::CleanupReport;
use crate::strings::{owned, usize_to_string};
use vstd::prelude::*;

verus! {

/// The command line. Without a command the assistant is started.
#[derive(Debug)]
pub struct Cli {
    pub command: Option<Commands>,
}

#[derive(Debug)]
pub enum Commands {
    Assistant { config: String },
    Daemon { config: String, once: bool },
    Sync { config: String, branch: Option<String>, dry_run: bool },
    Cleanup { config: String, days: u32 },
    Protect { action: ProtectionCommands },
    Status { config: String },
    Doctor { config: String },
    ExampleConfig,
    NotifyTest { config: String, subject: String, body: String },
    Serve { config: String },
}

#[derive(Debug)]
pub enum ProtectionCommands {
    Scan { config: String, path: Option<String>, issue_repository: Option<String> },
    Review {
        config: String,
        path: Option<String>,
        from: String,
        to: String,
        data_dir: Option<String>,
        project_description: Option<String>,
    },
    Investigate {
        config: String,
        summary: String,
        reference: Option<String>,
        content_file: String,
        branch: Option<String>,
        data_dir: Option<String>,
    },
    IssuePublish { config: String, draft_id: String, token_env: String, approve: bool },
    Advisories { config: String, path: Option<String>, data_dir: Option<String> },
}

impl Cli {
    /// The command that is run.
    pub fn selected(self) -> (r: Commands)
        ensures
            match self.command {
                Some(command) => r == command,
                None => r matches Commands::Assistant { config } && config@ == "termite.yml"@,
            },
    {
        match self.command {
            Some(command) => command,
            None => Commands::Assistant { config: owned("termite.yml") },
        }
    }
}

/// What is given on the command line in place of what is configured.
#[derive(Debug)]
pub struct Overrides {
    pub path: Option<String>,
    pub data_dir: Option<String>,
    pub project_description: Option<String>,
}

/// The configured value, or the one that was given in its place.
pub open spec fn or_given(configured: String, given: Option<String>) -> String {
    match given {
        Some(value) => value,
        None => configured,
    }
}

/// Puts what was given in the place of what is configured, and touches nothing else.
pub fn apply_overrides(config: &mut Config, given: Overrides)
    ensures
        *final(config) == (Config {
            repo: crate::config::RepoConfig {
                path: or_given(old(config).repo.path, given.path),
                ..old(config).repo
            },
            service: crate::config::ServiceConfig {
                data_dir: or_given(old(config).service.data_dir, given.data_dir),
                ..old(config).service
            },
            protection: crate::config::ProtectionConfig {
                project: crate::config::ProtectedProject {
                    description: or_given(
                        old(config).protection.project.description,
                        given.project_description,
                    ),
                    ..old(config).protection.project
                },
                ..old(config).protection
            },
            ..*old(config)
        }),
{
    if let Some(path) = given.path {
        config.repo.path = path;
    }
    if let Some(data_dir) = given.data_dir {
        config.service.data_dir = data_dir;
    }
    if let Some(description) = given.project_description {
        config.protection.project.description = description;
    }
}

/// Readies the configuration for a look at commits, which is on whatever is configured; nothing else
/// is touched but for what was given.
pub fn ready_for_commits(config: &mut Config, given: Overrides)
    ensures
        *final(config) == (Config {
            repo: crate::config::RepoConfig {
                path: or_given(old(config).repo.path, given.path),
                ..old(config).repo
            },
            service: crate::config::ServiceConfig {
                data_dir: or_given(old(config).service.data_dir, given.data_dir),
                ..old(config).service
            },
            protection: crate::config::ProtectionConfig {
                enabled: true,
                project: crate::config::ProtectedProject {
                    description: or_given(
                        old(config).protection.project.description,
                        given.project_description,
                    ),
                    ..old(config).protection.project
                },
                ..old(config).protection
            },
            ..*old(config)
        }),
{
    config.protection.enabled = true;
    apply_overrides(config, given);
}

/// The status with which the program ends when something may or may not be built.
pub fn build_status(build_allowed: bool) -> (r: i32)
    ensures
        r == (if build_allowed {
            0i32
        } else {
            2
        }),
{
    if build_allowed {
        0
    } else {
        2
    }
}

/// The status with which the program ends when commits were looked at.
pub fn review_status(disposition: Option<SecurityDisposition>) -> (r: i32)
    ensures
        r == (match disposition {
            None => 0i32,
            Some(disposition) => if disposition is Allow {
                0
            } else {
                2
            },
        }),
{
    match disposition {
        None => 0,
        Some(disposition) => build_status(disposition == SecurityDisposition::Allow),
    }
}

/// The line on what was cleaned up.
pub fn cleanup_line(report: &CleanupReport) -> (r: String)
    ensures
        r@ == "cleaned cutoff="@ + report.cutoff@ + ", jobs="@ + crate::strings::decimal(
            report.jobs as nat,
        ) + ", messages="@ + crate::strings::decimal(report.messages as nat) + ", events="@
            + crate::strings::decimal(report.events as nat) + ", challenges="@
            + crate::strings::decimal(report.challenges as nat) + ", notifications="@
            + crate::strings::decimal(report.notifications as nat) + ", worktrees="@
            + crate::strings::decimal(report.worktrees as nat),
{
    owned("cleaned cutoff=").concat(report.cutoff.as_str()).concat(", jobs=").concat(
        usize_to_string(report.jobs).as_str(),
    ).concat(", messages=").concat(usize_to_string(report.messages).as_str()).concat(
        ", events=",
    ).concat(usize_to_string(report.events).as_str()).concat(", challenges=").concat(
        usize_to_string(report.challenges).as_str(),
    ).concat(", notifications=").concat(usize_to_string(report.notifications).as_str()).concat(
        ", worktrees=",
    ).concat(usize_to_string(report.worktrees).as_str())
}

} // verus!
