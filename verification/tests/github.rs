use gh_traffic::github::api::{
    check_response, clones_path, repo_path, traffic_path, ApiFailure, Frequency, GitHubClones,
    GitHubClonesContainer, GitHubRepo, GitHubRepoContainer, GitHubTraffic, GitHubTrafficContainer,
    GitHubTrafficStat,
};
use gh_traffic::github::{GitHubRepoId, GitHubStats};
use gh_traffic::iso8601date::ISO8601Date;

fn stat(text: &str, count: u32, uniques: u32) -> GitHubTrafficStat {
    GitHubTrafficStat { timestamp: ISO8601Date::from_str(text).unwrap(), count, uniques }
}

#[test]
fn repository_is_owner_and_name() {
    let id = GitHubRepoId::from_str("octocat/Hello-World").unwrap();
    assert_eq!(id.owner, "octocat");
    assert_eq!(id.repo, "Hello-World");
    assert_eq!(id.to_slug(), "octocat/Hello-World");
    assert_eq!(id.to_string(), "octocat/Hello-World");
}

#[test]
fn repository_without_slash_is_refused() {
    let error = GitHubRepoId::from_str("octocat").unwrap_err();
    assert_eq!(error.input, "octocat");
    assert_eq!(error.message(), "Failed to parse GitHub repository \"octocat\".");
    assert!(GitHubRepoId::from_str("").is_err());
}

#[test]
fn repository_is_cut_at_the_first_slash() {
    let id = GitHubRepoId::from_str("a/b/c").unwrap();
    assert_eq!(id.owner, "a");
    assert_eq!(id.repo, "b/c");
    let id = GitHubRepoId::from_str("/").unwrap();
    assert_eq!(id.owner, "");
    assert_eq!(id.repo, "");
    assert_eq!(id.to_slug(), "/");
}

#[test]
fn slug_reads_back() {
    let id = GitHubRepoId { owner: "rust-lang".to_string(), repo: "rust".to_string() };
    let again = GitHubRepoId::from_str(&id.to_slug()).unwrap();
    assert_eq!(again.owner, id.owner);
    assert_eq!(again.repo, id.repo);
    let copy = id.clone();
    assert_eq!(copy.owner, "rust-lang");
    assert_eq!(copy.repo, "rust");
}

#[test]
fn frequencies_have_names() {
    assert_eq!(Frequency::Day.as_str(), "day");
    assert_eq!(Frequency::Week.as_str(), "week");
    assert_eq!(Frequency::Day.to_string(), "day");
    assert_eq!(Frequency::Week.to_string(), "week");
}

#[test]
fn api_paths() {
    let id = GitHubRepoId::from_str("octocat/Hello-World").unwrap();
    assert_eq!(
        traffic_path(&id, Frequency::Day),
        "repos/octocat/Hello-World/traffic/views?per=day"
    );
    assert_eq!(
        traffic_path(&id, Frequency::Week),
        "repos/octocat/Hello-World/traffic/views?per=week"
    );
    assert_eq!(
        clones_path(&id, Frequency::Day),
        "repos/octocat/Hello-World/traffic/clones?per=day"
    );
    assert_eq!(
        clones_path(&id, Frequency::Week),
        "repos/octocat/Hello-World/traffic/clones?per=week"
    );
    assert_eq!(repo_path(&id), "repos/octocat/Hello-World");
}

#[test]
fn successful_response_is_accepted() {
    assert!(check_response("repos/a/b", true, Some("{}")).is_ok());
    assert!(check_response("repos/a/b", true, None).is_ok());
}

#[test]
fn failed_response_keeps_path_and_output() {
    let failure = check_response("repos/a/b", false, Some("gh: Not Found")).unwrap_err();
    assert_eq!(failure.path, "repos/a/b");
    assert_eq!(failure.output, Some("gh: Not Found".to_string()));
    assert_eq!(
        failure.message(),
        "Failed to execute GitHub API call to repos/a/b:\ngh: Not Found"
    );
    let failure = check_response("repos/a/b", false, None).unwrap_err();
    assert_eq!(failure.output, None);
    assert_eq!(
        failure.message(),
        "Failed to execute GitHub API call to repos/a/b:\nUnable to read `gh` error."
    );
    let made = ApiFailure { path: String::new(), output: Some(String::new()) };
    assert_eq!(made.message(), "Failed to execute GitHub API call to :\n");
}

#[test]
fn traffic_offers_its_views() {
    let id = GitHubRepoId::from_str("octocat/Hello-World").unwrap();
    let payload = GitHubTraffic {
        count: 3,
        uniques: 2,
        views: vec![stat("2024-01-01T00:00:00Z", 1, 1), stat("2024-01-02T00:00:00Z", 2, 1)],
    };
    let container = GitHubTrafficContainer::new(&id, Frequency::Day, payload);
    assert_eq!(container.repo.to_slug(), "octocat/Hello-World");
    assert_eq!(*container.get_frequency(), Frequency::Day);
    let stats = container.get_stats();
    assert_eq!(stats.len(), 2);
    assert_eq!(stats[0].timestamp.to_string(), "2024-01-01T00:00:00Z");
    assert_eq!((stats[0].count, stats[0].uniques), (1, 1));
    assert_eq!(stats[1].timestamp.to_string(), "2024-01-02T00:00:00Z");
    assert_eq!((stats[1].count, stats[1].uniques), (2, 1));
}

#[test]
fn clones_offer_their_clones() {
    let id = GitHubRepoId::from_str("octocat/Hello-World").unwrap();
    let payload =
        GitHubClones { count: 5, uniques: 4, clones: vec![stat("2024-01-08T00:00:00Z", 5, 4)] };
    let container = GitHubClonesContainer::new(&id, Frequency::Week, payload);
    assert_eq!(*container.get_frequency(), Frequency::Week);
    assert_eq!(container.get_stats().len(), 1);
    assert_eq!(container.get_stats()[0].count, 5);
    assert_eq!(container.payload.count, 5);
    assert_eq!(container.payload.uniques, 4);
}

#[test]
fn description_is_kept_with_its_repository() {
    let id = GitHubRepoId::from_str("octocat/Hello-World").unwrap();
    let payload = GitHubRepo {
        full_name: "octocat/Hello-World".to_string(),
        forks_count: 1,
        stargazers_count: 2,
        watchers_count: 3,
        open_issues_count: 4,
        subscribers_count: 5,
        has_wiki: true,
        archived: false,
        has_projects: true,
        size: 6,
        topics: vec!["demo".to_string()],
        license: None,
    };
    let container = GitHubRepoContainer::new(&id, payload);
    assert_eq!(container.repo.owner, "octocat");
    assert_eq!(container.payload.full_name, "octocat/Hello-World");
    assert_eq!(container.payload.size, 6);
    assert!(container.payload.license.is_none());
}
