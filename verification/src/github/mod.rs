//! Repository identifiers, and the one interface through which the two kinds
//! of time series are read.

pub mod api;

use crate::github::api::{Frequency, GitHubClonesContainer, GitHubTrafficContainer, GitHubTrafficStat};
use crate::text::{lemma_split_joined, split_once, split_once_spec};
use vstd::prelude::*;
use vstd::string::StringExecFns;

verus! {

/// A repository: its owner and its name.
#[derive(Debug)]
pub struct GitHubRepoId {
    pub owner: String,
    pub repo: String,
}

/// A string that names no repository: it holds no `/`.
#[derive(Debug)]
pub struct RepoIdError {
    pub input: String,
}

/// What every time series offers: the granularity it was fetched at, and its
/// data points in the order in which the source gave them.
pub trait GitHubStats {
    /// The data points, in order.
    spec fn stats(&self) -> Seq<GitHubTrafficStat>;

    /// The granularity.
    spec fn frequency(&self) -> Frequency;

    fn get_stats(&self) -> (r: &Vec<GitHubTrafficStat>)
        ensures
            r@ == self.stats(),
    ;

    fn get_frequency(&self) -> (r: &Frequency)
        ensures
            *r == self.frequency(),
    ;
}

impl GitHubStats for GitHubTrafficContainer {
    open spec fn stats(&self) -> Seq<GitHubTrafficStat> {
        self.payload.views@
    }

    open spec fn frequency(&self) -> Frequency {
        self.frequency
    }

    fn get_stats(&self) -> (r: &Vec<GitHubTrafficStat>) {
        &self.payload.views
    }

    fn get_frequency(&self) -> (r: &Frequency) {
        &self.frequency
    }
}

impl GitHubStats for GitHubClonesContainer {
    open spec fn stats(&self) -> Seq<GitHubTrafficStat> {
        self.payload.clones@
    }

    open spec fn frequency(&self) -> Frequency {
        self.frequency
    }

    fn get_stats(&self) -> (r: &Vec<GitHubTrafficStat>) {
        &self.payload.clones
    }

    fn get_frequency(&self) -> (r: &Frequency) {
        &self.frequency
    }
}

/// The canonical text of a repository: owner, `/`, name.
pub open spec fn slug(owner: Seq<char>, repo: Seq<char>) -> Seq<char> {
    owner + seq!['/'] + repo
}

impl Clone for GitHubRepoId {
    fn clone(&self) -> (r: Self)
        ensures
            r == *self,
    {
        GitHubRepoId { owner: self.owner.clone(), repo: self.repo.clone() }
    }
}

impl GitHubRepoId {
    /// The canonical text of the repository.
    pub fn to_slug(&self) -> (r: String)
        ensures
            r@ == slug(self.owner@, self.repo@),
    {
        let mut r = self.owner.clone();
        r.append("/");
        r.append(self.repo.as_str());
        proof {
            reveal_strlit("/");
            assert("/"@ =~= seq!['/']);
        }
        r
    }

    /// The repository as text: its slug.
    pub fn to_string(&self) -> (r: String)
        ensures
            r@ == slug(self.owner@, self.repo@),
    {
        self.to_slug()
    }

    /// Reads `owner/name`. The owner is what stands before the first `/`, the
    /// name all that follows it; a string without `/` is refused.
    pub fn from_str(s: &str) -> (r: Result<GitHubRepoId, RepoIdError>)
        ensures
            match r {
                Ok(id) => split_once_spec(s@, '/') == Some((id.owner@, id.repo@)),
                Err(e) => split_once_spec(s@, '/') is None && e.input@ == s@,
            },
    {
        match split_once(s, '/') {
            Some((owner, repo)) => Ok(
                GitHubRepoId { owner: String::from_str(owner), repo: String::from_str(repo) },
            ),
            None => Err(RepoIdError { input: String::from_str(s) }),
        }
    }
}

impl RepoIdError {
    /// The sentence with which the refusal is reported; it quotes the input.
    pub open spec fn message_spec(input: Seq<char>) -> Seq<char> {
        "Failed to parse GitHub repository \""@ + input + "\"."@
    }

    /// The sentence with which the refusal is reported.
    pub fn message(&self) -> (m: String)
        ensures
            m@ == Self::message_spec(self.input@),
    {
        let mut m = String::from_str("Failed to parse GitHub repository \"");
        m.append(self.input.as_str());
        m.append("\".");
        m
    }
}

/// A slug read back gives the owner and the name it was made of, provided the
/// owner holds no `/`.
pub proof fn lemma_slug_round_trip(owner: Seq<char>, repo: Seq<char>)
    requires
        !owner.contains('/'),
    ensures
        split_once_spec(slug(owner, repo), '/') == Some((owner, repo)),
{
    assert forall|j: int| 0 <= j < owner.len() implies owner[j] != '/' by {
        assert(owner.contains(owner[j]));
    }
    lemma_split_joined(owner, '/', repo);
}

} // verus!
