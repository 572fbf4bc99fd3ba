//! The data that the hosting API returns, and the paths under which it is asked
//! for.

use crate::github::{slug, GitHubRepoId};
use crate::iso8601date::ISO8601Date;
use vstd::prelude::*;
use vstd::string::StringExecFns;

verus! {

/// The granularity of a time series: one data point a day, or one a week.
#[derive(Debug, Clone, Copy, PartialEq, Eq, Structural)]
pub enum Frequency {
    Day,
    Week,
}

/// One data point of a time series.
#[derive(Debug)]
pub struct GitHubTrafficStat {
    pub timestamp: ISO8601Date,
    pub count: u32,
    pub uniques: u32,
}

/// The page views of a repository: the totals, and one data point per period.
#[derive(Debug)]
pub struct GitHubTraffic {
    pub count: u32,
    pub uniques: u32,
    pub views: Vec<GitHubTrafficStat>,
}

/// The clones of a repository: the totals, and one data point per period.
#[derive(Debug)]
pub struct GitHubClones {
    pub count: u32,
    pub uniques: u32,
    pub clones: Vec<GitHubTrafficStat>,
}

#[derive(Debug)]
pub struct GitHubRepoLicense {
    pub key: String,
    pub name: String,
}

/// What the API tells of a repository itself.
#[derive(Debug)]
pub struct GitHubRepo {
    pub full_name: String,
    pub forks_count: u32,
    pub stargazers_count: u32,
    pub watchers_count: u32,
    pub open_issues_count: u32,
    pub subscribers_count: u32,
    pub has_wiki: bool,
    pub archived: bool,
    pub has_projects: bool,
    pub size: u32,
    pub topics: Vec<String>,
    pub license: Option<GitHubRepoLicense>,
}

/// The clones of one repository at one granularity.
#[derive(Debug)]
pub struct GitHubClonesContainer {
    pub repo: GitHubRepoId,
    pub frequency: Frequency,
    pub payload: GitHubClones,
}

/// The page views of one repository at one granularity.
#[derive(Debug)]
pub struct GitHubTrafficContainer {
    pub repo: GitHubRepoId,
    pub frequency: Frequency,
    pub payload: GitHubTraffic,
}

/// The description of one repository.
#[derive(Debug)]
pub struct GitHubRepoContainer {
    pub repo: GitHubRepoId,
    pub payload: GitHubRepo,
}

/// A call of the API client that ended with a failure status.
#[derive(Debug)]
pub struct ApiFailure {
    /// The path that was asked for.
    pub path: String,
    /// What the client printed, where that is valid text.
    pub output: Option<String>,
}

impl Frequency {
    /// The name of the granularity: `day` or `week`. It is the value of the
    /// query parameter `per`, and the name of the directory of the files.
    pub open spec fn name(self) -> Seq<char> {
        match self {
            Frequency::Day => seq!['d', 'a', 'y'],
            Frequency::Week => seq!['w', 'e', 'e', 'k'],
        }
    }

    /// The name of the granularity.
    pub fn as_str(&self) -> (r: &'static str)
        ensures
            r@ == self.name(),
    {
        proof {
            reveal_strlit("day");
            reveal_strlit("week");
            assert("day"@ =~= seq!['d', 'a', 'y']);
            assert("week"@ =~= seq!['w', 'e', 'e', 'k']);
        }
        match self {
            Frequency::Day => "day",
            Frequency::Week => "week",
        }
    }

    /// The name of the granularity, as an owned string.
    pub fn to_string(&self) -> (r: String)
        ensures
            r@ == self.name(),
    {
        String::from_str(self.as_str())
    }
}

/// The path of the page views of a repository.
pub open spec fn traffic_path_spec(owner: Seq<char>, repo: Seq<char>, frequency: Frequency) -> Seq<
    char,
> {
    "repos/"@ + slug(owner, repo) + "/traffic/views?per="@ + frequency.name()
}

/// The path of the clones of a repository.
pub open spec fn clones_path_spec(owner: Seq<char>, repo: Seq<char>, frequency: Frequency) -> Seq<
    char,
> {
    "repos/"@ + slug(owner, repo) + "/traffic/clones?per="@ + frequency.name()
}

/// The path of the description of a repository.
pub open spec fn repo_path_spec(owner: Seq<char>, repo: Seq<char>) -> Seq<char> {
    "repos/"@ + slug(owner, repo)
}

/// The path under which the API gives the page views of `repo`, one data point
/// per `frequency`.
pub fn traffic_path(repo: &GitHubRepoId, frequency: Frequency) -> (path: String)
    ensures
        path@ == traffic_path_spec(repo.owner@, repo.repo@, frequency),
{
    let mut path = String::from_str("repos/");
    path.append(repo.to_slug().as_str());
    path.append("/traffic/views?per=");
    path.append(frequency.as_str());
    path
}

/// The path under which the API gives the clones of `repo`, one data point per
/// `frequency`.
pub fn clones_path(repo: &GitHubRepoId, frequency: Frequency) -> (path: String)
    ensures
        path@ == clones_path_spec(repo.owner@, repo.repo@, frequency),
{
    let mut path = String::from_str("repos/");
    path.append(repo.to_slug().as_str());
    path.append("/traffic/clones?per=");
    path.append(frequency.as_str());
    path
}

/// The path under which the API describes `repo`.
pub fn repo_path(repo: &GitHubRepoId) -> (path: String)
    ensures
        path@ == repo_path_spec(repo.owner@, repo.repo@),
{
    let mut path = String::from_str("repos/");
    path.append(repo.to_slug().as_str());
    path
}

impl ApiFailure {
    /// The sentence with which the failure is reported: the path, then what the
    /// client printed, or a notice that it could not be read.
    pub open spec fn message_spec(path: Seq<char>, output: Option<Seq<char>>) -> Seq<char> {
        "Failed to execute GitHub API call to "@ + path + ":\n"@ + match output {
            Some(text) => text,
            None => "Unable to read `gh` error."@,
        }
    }

    /// The sentence with which the failure is reported.
    pub fn message(&self) -> (m: String)
        ensures
            m@ == Self::message_spec(
                self.path@,
                match self.output {
                    Some(text) => Some(text@),
                    None => None,
                },
            ),
    {
        let mut m = String::from_str("Failed to execute GitHub API call to ");
        m.append(self.path.as_str());
        m.append(":\n");
        match &self.output {
            Some(text) => m.append(text.as_str()),
            None => m.append("Unable to read `gh` error."),
        }
        m
    }
}

/// Judges a call of the API client that has ended. With a success status its
/// output is to be decoded; with any other the call has failed, and the failure
/// keeps the path and the output.
pub fn check_response(path: &str, success: bool, output: Option<&str>) -> (r: Result<
    (),
    ApiFailure,
>)
    ensures
        r is Ok <==> success,
        r matches Err(failure) ==> {
            &&& failure.path@ == path@
            &&& match (failure.output, output) {
                (Some(kept), Some(given)) => kept@ == given@,
                (None, None) => true,
                _ => false,
            }
        },
{
    if success {
        Ok(())
    } else {
        let kept = match output {
            Some(text) => Some(String::from_str(text)),
            None => None,
        };
        Err(ApiFailure { path: String::from_str(path), output: kept })
    }
}

impl GitHubTrafficContainer {
    /// The page views `payload` fetched for `repo` at `frequency`.
    pub fn new(repo: &GitHubRepoId, frequency: Frequency, payload: GitHubTraffic) -> (c: Self)
        ensures
            c.repo == *repo,
            c.frequency == frequency,
            c.payload == payload,
    {
        GitHubTrafficContainer { repo: repo.clone(), frequency, payload }
    }
}

impl GitHubClonesContainer {
    /// The clones `payload` fetched for `repo` at `frequency`.
    pub fn new(repo: &GitHubRepoId, frequency: Frequency, payload: GitHubClones) -> (c: Self)
        ensures
            c.repo == *repo,
            c.frequency == frequency,
            c.payload == payload,
    {
        GitHubClonesContainer { repo: repo.clone(), frequency, payload }
    }
}

impl GitHubRepoContainer {
    /// The description `payload` fetched for `repo`.
    pub fn new(repo: &GitHubRepoId, payload: GitHubRepo) -> (c: Self)
        ensures
            c.repo == *repo,
            c.payload == payload,
    {
        GitHubRepoContainer { repo: repo.clone(), payload }
    }
}

} // verus!
