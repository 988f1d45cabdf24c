use dependency_sync::manager::{classify_push, push_identifier_of, PushError, PushOutcome};
use dependency_sync::utils::{format_dependency_name, format_version, normalize_version};

#[test]
fn repository_names_follow_the_mechanical_rule() {
    assert_eq!(format_dependency_name(&"Cyfrin/foundry-devops".to_string()), "cyfrin-foundry-devops");
    assert_eq!(format_dependency_name(&"Uniswap/permit2".to_string()), "uniswap-permit2");
    assert_eq!(format_dependency_name(&"acme/lib".to_string()), "acme-lib");
    assert_eq!(format_dependency_name(&"".to_string()), "");
}

#[test]
fn repository_name_override_and_rule() {
    assert_eq!(format_dependency_name(&"transmissions11/solmate".to_string()), "solmate");
    assert_eq!(
        format_dependency_name(&"huff-language/foundry-huff".to_string()),
        "huff-language-foundry-huff"
    );
}

#[test]
fn strict_versions_lose_their_v() {
    let dep = "uniswap-permit2".to_string();
    assert_eq!(format_version(&dep, &"v1.2.3".to_string()), "1.2.3");
    assert_eq!(format_version(&dep, &"v4".to_string()), "4");
    assert_eq!(format_version(&dep, &"v1.2.3-beta".to_string()), "v1.2.3-beta");
    assert_eq!(format_version(&dep, &"release candidate 1".to_string()), "release-candidate-1");
    assert_eq!(format_version(&dep, &"".to_string()), "");
}

#[test]
fn other_versions_keep_their_last_token() {
    let dep = "acme-lib".to_string();
    assert_eq!(format_version(&dep, &"v1.2.3".to_string()), "v1.2.3");
    assert_eq!(format_version(&dep, &"Version 2.0".to_string()), "2.0");
    assert_eq!(format_version(&dep, &"1.0.1".to_string()), "1.0.1");
}

#[test]
fn normalization_is_the_same_when_repeated() {
    let dep = "solmate".to_string();
    let raw = "v6.2".to_string();
    let at_filtering = format_version(&dep, &raw);
    let at_publishing = format_version(&dep, &raw);
    assert_eq!(at_filtering, at_publishing);
    assert_eq!(at_filtering, "6.2");
}

#[test]
fn normalize_with_known_pattern_outcome() {
    assert_eq!(normalize_version(true, true, "v1.0"), "1.0");
    assert_eq!(normalize_version(true, false, "a b c"), "a-b-c");
    assert_eq!(normalize_version(false, true, "a b c"), "c");
    assert_eq!(normalize_version(true, true, ""), "");
}

#[test]
fn push_identifiers() {
    assert_eq!(push_identifier_of("morpho-org-metamorpho-v1.1", "1.0"), "morpho-org-metamorpho-v1-1~1.0");
    assert_eq!(push_identifier_of("@openzeppelin/contracts", "5.0.0"), "@openzeppelin-contracts~5.0.0");
}

#[test]
fn push_answers_are_classified() {
    assert_eq!(classify_push(&Ok(())), PushOutcome::Pushed);
    let exists = Err(PushError { cause: "Dependency already exists".to_string() });
    assert_eq!(classify_push(&exists), PushOutcome::AlreadyExists);
    let other = Err(PushError { cause: "Unauthorized. Please login".to_string() });
    assert_eq!(classify_push(&other), PushOutcome::Failed);
}

#[test]
fn versions_are_cut_at_any_whitespace() {
    let loose = "acme-lib".to_string();
    assert_eq!(format_version(&loose, &"a\tb".to_string()), "b");
    assert_eq!(format_version(&loose, &"Release\n2.0".to_string()), "2.0");
    assert_eq!(format_version(&loose, &"x\u{a0}y".to_string()), "y");
    let strict = "uniswap-permit2".to_string();
    assert_eq!(format_version(&strict, &"a\tb".to_string()), "b");
    assert_eq!(format_version(&strict, &"rc 1\tfinal".to_string()), "final");
    assert_eq!(format_version(&"huff-language-foundry-huff".to_string(), &"v0.3.2".to_string()), "0.3.2");
}
