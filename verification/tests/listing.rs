use grgry::lister::{merge_pages, plan_page_requests};
use grgry::provider::{Github, Gitlab, ProviderKind};
use grgry::repo::{filter_repos, GithubRepo, GitlabRepo, RemoteRepository};

fn repo(n: &str) -> RemoteRepository {
    RemoteRepository {
        ssh_url: format!("git@host:{}.git", n),
        http_url: format!("https://host/{}.git", n),
        full_path: n.to_string(),
    }
}

#[test]
fn provider_kind_from_name() {
    assert!(matches!(ProviderKind::from_name("github"), Some(ProviderKind::Github)));
    assert!(matches!(ProviderKind::from_name("gitlab"), Some(ProviderKind::Gitlab)));
    assert!(ProviderKind::from_name("sourceforge").is_none());
    assert!(ProviderKind::from_name("").is_none());
}

#[test]
fn github_endpoint_for_org_and_user() {
    let gh = Github;
    assert_eq!(
        gh.get_repos_endpoint("https://api.github.com", "acme", false, "me", "tok"),
        "https://api.github.com/orgs/acme/repos"
    );
    assert_eq!(
        gh.get_repos_endpoint("https://api.github.com", "other", true, "me", "tok"),
        "https://api.github.com/users/other/repos"
    );
    // The authenticated user's own collection uses the bare `user` segment.
    assert_eq!(
        gh.get_repos_endpoint("https://api.github.com", "me", true, "me", "tok"),
        "https://api.github.com/user/repos"
    );
    // Without a token the bare segment is not available.
    assert_eq!(
        gh.get_repos_endpoint("https://api.github.com", "me", true, "me", ""),
        "https://api.github.com/users/me/repos"
    );
}

#[test]
fn gitlab_endpoint_escapes_path_segments() {
    let gl = Gitlab;
    assert_eq!(
        gl.get_repos_endpoint("https://gitlab.example.com", "group/sub", false),
        "https://gitlab.example.com/api/v4/groups/group%2Fsub/projects"
    );
    assert_eq!(
        gl.get_repos_endpoint("https://gitlab.example.com", "me", true),
        "https://gitlab.example.com/api/v4/users/me/projects"
    );
}

#[test]
fn auth_headers_present_only_with_token() {
    let gh = ProviderKind::Github.auth_headers(Some("tok"));
    assert_eq!(gh.len(), 2);
    assert_eq!(gh[0].0, "Authorization");
    assert_eq!(gh[0].1, "tok");
    assert_eq!(gh[1].0, "User-Agent");
    assert_eq!(gh[1].1, "grgry");
    let gl = ProviderKind::Gitlab.auth_headers(Some("tok"));
    assert_eq!(gl[0].0, "Private-Token");
    assert!(ProviderKind::Github.auth_headers(None).is_empty());
}

#[test]
fn base_query_per_kind() {
    assert_eq!(grgry::provider::PER_PAGE, 100);
    let gh = ProviderKind::Github.base_query();
    assert_eq!(gh, vec![("per_page".to_string(), "100".to_string())]);
    let gl = ProviderKind::Gitlab.base_query();
    assert_eq!(
        gl,
        vec![
            ("include_subgroups".to_string(), "true".to_string()),
            ("simple".to_string(), "true".to_string()),
            ("per_page".to_string(), "100".to_string()),
        ]
    );
}

#[test]
fn github_page_count_from_link_header() {
    let gh = Github;
    assert_eq!(gh.get_page_number(None), 1);
    let link = "<https://api.github.com/organizations/1/repos?page=2&per_page=100>; \
                rel=\"next\", <https://api.github.com/organizations/1/repos?page=3&per_page=100>; \
                rel=\"last\"";
    assert_eq!(gh.get_page_number(Some(link)), 3);
    assert_eq!(gh.get_page_number(Some("no references here")), 1);
    assert_eq!(gh.get_page_number(Some("page=12, page=4")), 12);
    // The page size parameter is not a page reference.
    assert_eq!(gh.get_page_number(Some("?per_page=100&page=5")), 5);
}

#[test]
fn gitlab_page_count_needs_the_header() {
    let gl = Gitlab;
    assert_eq!(gl.get_page_number(Some("7")), Some(7));
    assert_eq!(gl.get_page_number(None), None);
    assert_eq!(gl.get_page_number(Some("")), None);
    assert_eq!(gl.get_page_number(Some("7 pages")), None);
    assert_eq!(gl.get_page_number(Some("99999999999999999999")), None);
}

#[test]
fn planned_requests_cover_every_page_once() {
    let params = vec![("per_page".to_string(), "100".to_string())];
    let headers = vec![("User-Agent".to_string(), "grgry".to_string())];
    let reqs = plan_page_requests(3, "https://host/repos", &params, &headers);
    assert_eq!(reqs.len(), 3);
    for (k, req) in reqs.iter().enumerate() {
        assert_eq!(req.endpoint, "https://host/repos");
        assert_eq!(req.parameters, params);
        assert_eq!(req.headers, headers);
        assert_eq!(req.page_number as usize, k + 1);
    }
}

#[test]
fn merged_listing_of_three_pages_has_exactly_the_pages_entries() {
    // A collection of 250 repositories at page size 100: pages of 100, 100
    // and 50, and a link header announcing three pages.
    let gh = Github;
    let pages_announced = gh.get_page_number(Some("<https://h/r?page=3>; rel=\"last\""));
    assert_eq!(pages_announced, 3);
    let mut pages: Vec<Vec<RemoteRepository>> = Vec::new();
    let mut next = 0;
    for size in [100, 100, 50] {
        let mut page = Vec::new();
        for _ in 0..size {
            page.push(repo(&format!("org/repo{}", next)));
            next += 1;
        }
        pages.push(page);
    }
    let merged = merge_pages(pages);
    assert_eq!(merged.len(), 250);
    let mut paths: Vec<&str> = merged.iter().map(|r| r.full_path.as_str()).collect();
    paths.sort();
    paths.dedup();
    assert_eq!(paths.len(), 250);
}

#[test]
fn merge_keeps_page_order_within_and_across_pages() {
    let pages = vec![vec![repo("a"), repo("b")], vec![], vec![repo("c")]];
    let merged = merge_pages(pages);
    let paths: Vec<&str> = merged.iter().map(|r| r.full_path.as_str()).collect();
    assert_eq!(paths, vec!["a", "b", "c"]);
}

#[test]
fn filter_selects_on_either_url_xor_reverse() {
    let repos = vec![repo("org/alpha"), repo("org/beta"), repo("other/alpha")];
    let kept = filter_repos("alpha", false, repos.clone().into_iter().collect()).unwrap();
    let paths: Vec<&str> = kept.iter().map(|r| r.full_path.as_str()).collect();
    assert_eq!(paths, vec!["org/alpha", "other/alpha"]);

    let reversed = filter_repos("alpha", true, repos.clone()).unwrap();
    let paths: Vec<&str> = reversed.iter().map(|r| r.full_path.as_str()).collect();
    assert_eq!(paths, vec!["org/beta"]);

    // The ssh URL alone may match.
    let by_ssh = filter_repos("^git@host:org", false, repos.clone()).unwrap();
    let paths: Vec<&str> = by_ssh.iter().map(|r| r.full_path.as_str()).collect();
    assert_eq!(paths, vec!["org/alpha", "org/beta"]);

    // An invalid pattern is reported, not swallowed.
    assert!(filter_repos("foo(bar", false, repos).is_none());
}

#[test]
fn provider_records_normalize_to_the_common_shape() {
    let gh = GithubRepo {
        ssh_url: "git@github.com:o/r.git".to_string(),
        clone_url: "https://github.com/o/r.git".to_string(),
        full_name: "o/r".to_string(),
    };
    assert_eq!(gh.ssh_url(), "git@github.com:o/r.git");
    assert_eq!(gh.http_url(), "https://github.com/o/r.git");
    assert_eq!(gh.full_path(), "o/r");
    let n = gh.into_remote();
    assert_eq!(n.full_path, "o/r");

    let gl = GitlabRepo {
        ssh_url_to_repo: "git@gitlab.com:g/s/p.git".to_string(),
        http_url_to_repo: "https://gitlab.com/g/s/p.git".to_string(),
        path_with_namespace: "g/s/p".to_string(),
    };
    assert_eq!(gl.full_path(), "g/s/p");
    let n = gl.into_remote();
    assert_eq!(n.ssh_url, "git@gitlab.com:g/s/p.git");
    assert_eq!(n.http_url, "https://gitlab.com/g/s/p.git");
}
