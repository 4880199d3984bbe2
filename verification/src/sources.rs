//! The sources of tasks: one adapter for each kind of remote system.

pub mod caldav;
pub mod github;
pub mod gitlab;
pub mod openproject;

pub use caldav::CalDavSource;
pub use github::GitHubSource;
pub use gitlab::GitLabSource;
pub use openproject::OpenProjectSource;

use vstd::prelude::*;

verus! {

/// The marker in front of the project of a calendar's tasks.
pub const CALDAV_ICON: &'static str = "\u{E9E3}";

/// The marker in front of the project of a GitHub issue.
pub const GITHUB_ICON: &'static str = "\u{EB53}";

/// The marker in front of the project of a GitLab item.
pub const GITLAB_ICON: &'static str = "\u{EB54}";

/// The marker in front of the project of an OpenProject work package.
pub const OPENPROJECT_ICON: &'static str = "\u{EBA6}";

/// A project's name behind the marker of its kind of source.
pub open spec fn labelled(icon: Seq<char>, project: Seq<char>) -> Seq<char> {
    icon + " "@ + project
}

/// Puts the marker of a kind of source in front of a project's name.
pub fn label(icon: &str, project: &str) -> (r: String)
    ensures
        r@ == labelled(icon@, project@),
{
    let mut r = icon.to_owned();
    r.append(" ");
    r.append(project);
    r
}

/// The secret that goes with a request, if any.
pub open spec fn secret_text(secret: Option<&str>) -> Option<Seq<char>> {
    match secret {
        Some(s) => Some(s@),
        None => None,
    }
}

/// A source of tasks of one of the kinds that the library knows.
#[non_exhaustive]
#[derive(Debug)]
pub enum TaskSource {
    CalDav(CalDavSource),
    GitHub(GitHubSource),
    GitLab(GitLabSource),
    OpenProject(OpenProjectSource),
}

impl Clone for TaskSource {
    fn clone(&self) -> (r: TaskSource)
        ensures
            r == *self,
    {
        match self {
            TaskSource::CalDav(s) => TaskSource::CalDav(s.clone()),
            TaskSource::GitHub(s) => TaskSource::GitHub(s.clone()),
            TaskSource::GitLab(s) => TaskSource::GitLab(s.clone()),
            TaskSource::OpenProject(s) => TaskSource::OpenProject(s.clone()),
        }
    }
}

impl TaskSource {
    /// The name under which the source is shown and found: for a
    /// calendar the name of the calendar.
    pub open spec fn name_text(&self) -> Seq<char> {
        match self {
            TaskSource::CalDav(s) => s.calendar_name@,
            TaskSource::GitHub(s) => s.name@,
            TaskSource::GitLab(s) => s.name@,
            TaskSource::OpenProject(s) => s.name@,
        }
    }

    /// The secret that the configuration carries.
    pub open spec fn secret_text(&self) -> Seq<char> {
        match self {
            TaskSource::CalDav(s) => s.password@,
            TaskSource::GitHub(s) => s.token@,
            TaskSource::GitLab(s) => s.token@,
            TaskSource::OpenProject(s) => s.token@,
        }
    }

    /// The name under which the source is shown and found.
    pub fn name(&self) -> (r: &str)
        ensures
            r@ == self.name_text(),
    {
        match self {
            TaskSource::CalDav(s) => s.calendar_name.as_str(),
            TaskSource::GitHub(s) => s.name.as_str(),
            TaskSource::GitLab(s) => s.name.as_str(),
            TaskSource::OpenProject(s) => s.name.as_str(),
        }
    }

    /// The name of the kind of source.
    pub fn kind_name(&self) -> (r: &str)
        ensures
            r@ == match self {
                TaskSource::CalDav(_) => "CalDAV"@,
                TaskSource::GitHub(_) => "GitHub"@,
                TaskSource::GitLab(_) => "GitLab"@,
                TaskSource::OpenProject(_) => "OpenProject"@,
            },
    {
        match self {
            TaskSource::CalDav(_) => "CalDAV",
            TaskSource::GitHub(_) => "GitHub",
            TaskSource::GitLab(_) => "GitLab",
            TaskSource::OpenProject(_) => "OpenProject",
        }
    }

    /// The marker of the kind of source.
    pub fn icon(&self) -> (r: &str)
        ensures
            r@ == match self {
                TaskSource::CalDav(_) => CALDAV_ICON@,
                TaskSource::GitHub(_) => GITHUB_ICON@,
                TaskSource::GitLab(_) => GITLAB_ICON@,
                TaskSource::OpenProject(_) => OPENPROJECT_ICON@,
            },
    {
        match self {
            TaskSource::CalDav(_) => CALDAV_ICON,
            TaskSource::GitHub(_) => GITHUB_ICON,
            TaskSource::GitLab(_) => GITLAB_ICON,
            TaskSource::OpenProject(_) => OPENPROJECT_ICON,
        }
    }

    /// The secret that the configuration carries: a password or a token.
    pub fn secret(&self) -> (r: Option<&str>)
        ensures
            r matches Some(secret) && secret@ == self.secret_text(),
    {
        match self {
            TaskSource::CalDav(s) => Some(s.password.as_str()),
            TaskSource::GitHub(s) => Some(s.token.as_str()),
            TaskSource::GitLab(s) => Some(s.token.as_str()),
            TaskSource::OpenProject(s) => Some(s.token.as_str()),
        }
    }
}

} // verus!
