use dependency_sync::github::{
    alternate_locator_of, archive_file_name, branch_candidates, discovery_policy, find_branch,
    judge_response, lists_tags, release_candidates, split_repository, tag_candidates,
    unpacked_dir_name, verdict_for_keys, version_from_label, BranchEntry, BranchSearch,
    BranchStep, FetchVerdict, ReleaseEntry, TagEntry, BRANCH_PAGE_SIZE,
};

fn release(name: &str, tag: &str, url: &str) -> ReleaseEntry {
    ReleaseEntry { name: name.to_string(), tag_name: tag.to_string(), zipball_url: url.to_string() }
}

fn branch(name: &str, sha: &str) -> BranchEntry {
    BranchEntry { name: name.to_string(), commit_sha: sha.to_string() }
}

#[test]
fn releases_yield_oldest_first_with_tag_fallback() {
    // listed newest first, as the upstream API does
    let releases = vec![
        release("v1.0.0", "v1.0.0", "https://api.github.com/repos/acme/lib/zipball/v1.0.0"),
        release("", "v0.9.0-beta", "https://api.github.com/repos/acme/lib/zipball/v0.9.0-beta"),
    ];
    let c = release_candidates(&releases);
    assert_eq!(c.len(), 2);
    assert_eq!(c[0].name, "0.9.0-beta");
    assert_eq!(c[0].url, "https://api.github.com/repos/acme/lib/zipball/v0.9.0-beta");
    assert_eq!(c[1].name, "1.0.0");
    assert_eq!(c[1].url, "https://api.github.com/repos/acme/lib/zipball/v1.0.0");
}

#[test]
fn release_titles_without_v_keep_their_last_token() {
    let releases = vec![release("Release 2.1", "r2.1", "u2"), release("1.0", "t1", "u1")];
    let c = release_candidates(&releases);
    assert_eq!(c[0].name, "1.0");
    assert_eq!(c[1].name, "2.1");
}

#[test]
fn no_releases_no_candidates() {
    assert!(release_candidates(&vec![]).is_empty());
    assert!(tag_candidates(&vec![]).is_empty());
}

#[test]
fn tags_fall_back_to_commit_hash() {
    let tags = vec![
        TagEntry { name: "v2.0".to_string(), commit_sha: "bbb".to_string(), zipball_url: "u2".to_string() },
        TagEntry { name: "".to_string(), commit_sha: "abc123".to_string(), zipball_url: "u1".to_string() },
    ];
    let c = tag_candidates(&tags);
    assert_eq!(c.len(), 2);
    assert_eq!(c[0].name, "abc123");
    assert_eq!(c[0].url, "u1");
    assert_eq!(c[1].name, "2.0");
}

#[test]
fn label_extraction() {
    assert_eq!(version_from_label("v1.2.3"), "1.2.3");
    assert_eq!(version_from_label("Solmate 7"), "7");
    assert_eq!(version_from_label("2.0"), "2.0");
    assert_eq!(version_from_label(""), "");
    assert_eq!(version_from_label("trailing "), "");
    assert_eq!(version_from_label("a\tb"), "b");
    assert_eq!(version_from_label("dev 3"), "3");
}

#[test]
fn policy_table_lookups() {
    let p = discovery_policy("morpho-org/morpho-blue");
    assert!(!p.list_releases);
    assert!(p.always_list_tags);
    assert!(!p.track_branch);
    let q = discovery_policy("Uniswap/permit2");
    assert!(q.list_releases);
    assert!(!q.tags_when_no_releases);
    let b = discovery_policy("transmissions11/solmate");
    assert!(b.track_branch);
    let d = discovery_policy("acme/lib");
    assert!(d.list_releases && d.tags_when_no_releases && !d.always_list_tags && !d.track_branch);
}

#[test]
fn tags_are_listed_when_releases_give_nothing() {
    let d = discovery_policy("acme/lib");
    assert!(lists_tags(d, 0));
    assert!(!lists_tags(d, 3));
    assert!(!lists_tags(discovery_policy("Uniswap/permit2"), 0));
    assert!(lists_tags(discovery_policy("Recon-Fuzz/chimera"), 5));
}

#[test]
fn repository_identifier_split() {
    assert_eq!(split_repository("acme/lib"), Some(("acme".to_string(), "lib".to_string())));
    assert_eq!(split_repository("a/b/c"), Some(("a".to_string(), "b".to_string())));
    assert_eq!(split_repository("/x"), Some(("".to_string(), "x".to_string())));
    assert_eq!(split_repository("noslash"), None);
}

#[test]
fn find_branch_takes_first_match() {
    let page = vec![branch("dev", "1"), branch("main", "2"), branch("main", "3")];
    assert_eq!(find_branch(&page, "main"), Some("2".to_string()));
    assert_eq!(find_branch(&page, "master"), None);
}

#[test]
fn branch_search_prefers_main_on_first_page() {
    let mut s = BranchSearch::new();
    assert_eq!(s.page, 1);
    let page = vec![branch("master", "m1"), branch("main", "a1")];
    match s.step(&page) {
        BranchStep::Found(sha) => assert_eq!(sha, "a1"),
        other => panic!("unexpected {:?}", other),
    }
}

#[test]
fn branch_search_scans_all_pages_before_settling_on_master() {
    let mut s = BranchSearch::new();
    let mut full: Vec<BranchEntry> = Vec::new();
    full.push(branch("master", "ms"));
    for i in 1..BRANCH_PAGE_SIZE {
        full.push(branch(&format!("feature-{}", i), "x"));
    }
    match s.step(&full) {
        BranchStep::Fetch(p) => assert_eq!(p, 2),
        other => panic!("unexpected {:?}", other),
    }
    assert_eq!(s.page, 2);
    assert_eq!(s.master_sha, Some("ms".to_string()));
    match s.step(&vec![branch("release", "r")]) {
        BranchStep::Found(sha) => assert_eq!(sha, "ms"),
        other => panic!("unexpected {:?}", other),
    }
}

#[test]
fn branch_search_finds_main_on_a_later_page() {
    let mut s = BranchSearch::new();
    let mut full: Vec<BranchEntry> = Vec::new();
    full.push(branch("master", "ms"));
    for i in 1..BRANCH_PAGE_SIZE {
        full.push(branch(&format!("b{}", i), "x"));
    }
    assert!(matches!(s.step(&full), BranchStep::Fetch(2)));
    match s.step(&vec![branch("main", "mn")]) {
        BranchStep::Found(sha) => assert_eq!(sha, "mn"),
        other => panic!("unexpected {:?}", other),
    }
}

#[test]
fn branch_search_without_default_branch_is_missing() {
    let mut s = BranchSearch::new();
    assert!(matches!(s.step(&vec![branch("dev", "d")]), BranchStep::Missing));
    let mut t = BranchSearch::new();
    assert!(matches!(t.step(&vec![]), BranchStep::Missing));
}

#[test]
fn branch_tracking_gives_one_candidate_named_after_commit() {
    let c = branch_candidates("transmissions11", "solmate", "deadbeef");
    assert_eq!(c.len(), 1);
    assert_eq!(c[0].name, "deadbeef");
    assert_eq!(c[0].url, "https://api.github.com/repos/transmissions11/solmate/zipball/deadbeef");
}

#[test]
fn alternate_locator_shape() {
    assert_eq!(
        alternate_locator_of("https://api.github.com/repos/acme/lib/zipball/v1.0.0"),
        "https://api.github.com/repos/acme/lib/zipball/refs/tags/v1.0.0"
    );
    assert_eq!(alternate_locator_of("https://example.com/a.zip"), "https://example.com/a.zip");
}

#[test]
fn disguised_error_reply_is_retried_exactly_once() {
    let url = "https://api.github.com/repos/acme/lib/zipball/v1.0.0";
    let body = br#"{"message":"Not Found","status":"404"}"#;
    let alt = match judge_response(url, false, body) {
        FetchVerdict::RetryAt(u) => u,
        other => panic!("unexpected {:?}", other),
    };
    assert_eq!(alt, "https://api.github.com/repos/acme/lib/zipball/refs/tags/v1.0.0");
    assert!(matches!(judge_response(&alt, true, body), FetchVerdict::GiveUp));
}

#[test]
fn archive_bytes_are_accepted() {
    let zip = [0x50u8, 0x4b, 0x03, 0x04, 0x14, 0x00, 0x00, 0x00];
    assert!(matches!(judge_response("u", false, &zip), FetchVerdict::Accept));
    assert!(matches!(judge_response("u", false, br#"{"message":"hi"}"#), FetchVerdict::Accept));
    assert!(matches!(judge_response("u", false, br#"["message","status"]"#), FetchVerdict::Accept));
    assert!(matches!(judge_response("u", true, b""), FetchVerdict::Accept));
}

#[test]
fn verdict_from_known_keys() {
    let keys = Some(vec!["documentation_url".to_string(), "message".to_string(), "status".to_string()]);
    match verdict_for_keys("x/zipball/y", false, &keys) {
        FetchVerdict::RetryAt(u) => assert_eq!(u, "x/zipball/refs/tags/y"),
        other => panic!("unexpected {:?}", other),
    }
    assert!(matches!(verdict_for_keys("x", true, &keys), FetchVerdict::GiveUp));
    assert!(matches!(verdict_for_keys("x", false, &None), FetchVerdict::Accept));
}

#[test]
fn archive_and_directory_names() {
    assert_eq!(archive_file_name("uniswap-permit2", "v1.0"), "uniswap-permit2-v1.0.zip");
    assert_eq!(unpacked_dir_name("uniswap-permit2", "1.0"), "uniswap-permit2-1.0");
}

use dependency_sync::github::{Discovery, DiscoveryRequest, DiscoveryStage};

#[test]
fn release_tiered_discovery_runs_to_completion() {
    let mut d = Discovery::start("acme/lib").unwrap();
    assert_eq!(d.owner, "acme");
    assert_eq!(d.project, "lib");
    assert_eq!(d.request(), DiscoveryRequest::ListReleases);
    d.on_releases(&vec![
        release("v1.0.0", "v1.0.0", "https://api.github.com/repos/acme/lib/zipball/v1.0.0"),
        release("", "v0.9.0-beta", "https://api.github.com/repos/acme/lib/zipball/v0.9.0-beta"),
    ]);
    assert_eq!(d.request(), DiscoveryRequest::Finished);
    let names: Vec<&str> = d.candidates.iter().map(|c| c.name.as_str()).collect();
    assert_eq!(names, vec!["0.9.0-beta", "1.0.0"]);
}

#[test]
fn discovery_falls_back_to_tags() {
    let mut d = Discovery::start("acme/lib").unwrap();
    d.on_releases(&vec![]);
    assert_eq!(d.request(), DiscoveryRequest::ListTags);
    d.on_tags(&vec![TagEntry { name: "v3".to_string(), commit_sha: "c3".to_string(), zipball_url: "z3".to_string() }]);
    assert_eq!(d.stage, DiscoveryStage::Finished);
    assert_eq!(d.candidates.len(), 1);
    assert_eq!(d.candidates[0].name, "3");
    assert_eq!(d.candidates[0].url, "z3");
}

#[test]
fn out_of_turn_listings_change_nothing() {
    let mut d = Discovery::start("acme/lib").unwrap();
    d.on_tags(&vec![TagEntry { name: "v3".to_string(), commit_sha: "c".to_string(), zipball_url: "z".to_string() }]);
    d.on_branches(&vec![branch("main", "m")]);
    assert_eq!(d.stage, DiscoveryStage::Releases);
    assert!(d.candidates.is_empty());
}

#[test]
fn branch_tracking_discovery_yields_only_the_branch_head() {
    let mut d = Discovery::start("transmissions11/solmate").unwrap();
    assert_eq!(d.request(), DiscoveryRequest::ListBranches(1));
    d.on_releases(&vec![release("v7", "v7", "u7")]);
    assert!(d.candidates.is_empty());
    d.on_branches(&vec![branch("dev", "d1"), branch("main", "abc")]);
    assert_eq!(d.request(), DiscoveryRequest::Finished);
    assert_eq!(d.candidates.len(), 1);
    assert_eq!(d.candidates[0].name, "abc");
    assert_eq!(d.candidates[0].url, "https://api.github.com/repos/transmissions11/solmate/zipball/abc");
}

#[test]
fn branch_tracking_over_several_pages() {
    let mut d = Discovery::start("Uniswap/v4-periphery").unwrap();
    let mut full: Vec<BranchEntry> = Vec::new();
    for i in 0..BRANCH_PAGE_SIZE {
        full.push(branch(&format!("b{}", i), "x"));
    }
    d.on_branches(&full);
    assert_eq!(d.request(), DiscoveryRequest::ListBranches(2));
    d.on_branches(&vec![branch("master", "m2")]);
    assert_eq!(d.candidates.len(), 1);
    assert_eq!(d.candidates[0].name, "m2");
}

#[test]
fn branch_tracking_without_default_branch_fails() {
    let mut d = Discovery::start("transmissions11/solmate").unwrap();
    d.on_branches(&vec![branch("dev", "d1")]);
    assert_eq!(d.request(), DiscoveryRequest::Failed);
    assert!(d.candidates.is_empty());
}

#[test]
fn tag_only_repositories_skip_releases() {
    let d = Discovery::start("morpho-org/morpho-blue").unwrap();
    assert_eq!(d.request(), DiscoveryRequest::ListTags);
    assert!(Discovery::start("not-a-repository").is_err());
}
