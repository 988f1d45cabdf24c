use dependency_sync::manager::PushOutcome;
use dependency_sync::sync::{advance, start_stage, Event, KnownVersions, Lifecycle, Outcome, SourceKind, Stage};
use dependency_sync::VersionStruct;

fn cand(name: &str) -> VersionStruct {
    VersionStruct { name: name.to_string(), url: String::new() }
}

fn drive(kind: SourceKind, events: &[Event]) -> Stage {
    let mut s = start_stage(kind);
    for e in events {
        s = advance(s, *e);
    }
    s
}

#[test]
fn registry_version_already_published_is_filtered() {
    let known = KnownVersions::from_store(vec!["1.0.0".to_string()], vec![]);
    let dep = "left-pad".to_string();
    let upstream = vec![cand("1.0.0"), cand("1.0.1")];
    let todo: Vec<String> = upstream.iter().filter_map(|c| known.triage(&dep, c)).collect();
    assert_eq!(todo, vec!["1.0.1".to_string()]);
}

#[test]
fn registry_version_goes_install_then_publish() {
    let mut known = KnownVersions::from_store(vec!["1.0.0".to_string()], vec![]);
    let dep = "left-pad".to_string();
    let v = known.triage(&dep, &cand("1.0.1")).unwrap();
    assert_eq!(start_stage(SourceKind::Registry), Stage::Installing);
    let end = drive(SourceKind::Registry, &[Event::Installed, Event::Pushed(PushOutcome::Pushed)]);
    assert_eq!(end, Stage::Done(Outcome::Published));
    let w = known.record(&dep, &v, Outcome::Published, 42).unwrap();
    assert_eq!(w.lifecycle, Lifecycle::Published);
    assert_eq!(w.record.repository, "left-pad");
    assert_eq!(w.record.version, "1.0.1");
    assert_eq!(w.record.last_updated, 42);
    assert!(known.triage(&dep, &cand("1.0.1")).is_none());
}

#[test]
fn already_existing_push_is_recorded_as_published() {
    let end = drive(
        SourceKind::SourceControl,
        &[Event::Fetched, Event::Extracted, Event::Pushed(PushOutcome::AlreadyExists)],
    );
    assert_eq!(end, Stage::Done(Outcome::Published));
    let mut known = KnownVersions::from_store(vec![], vec![]);
    let repo = "acme/lib".to_string();
    let w = known.record(&repo, &"2.3.0".to_string(), Outcome::Published, 7).unwrap();
    assert_eq!(w.lifecycle, Lifecycle::Published);
    assert_eq!(w.record.version, "2.3.0");
    assert!(!known.is_new("2.3.0"));
}

#[test]
fn failed_install_is_rejected_for_good() {
    let end = drive(SourceKind::Registry, &[Event::InstallFailed]);
    assert_eq!(end, Stage::Done(Outcome::Rejected));
    let mut known = KnownVersions::from_store(vec![], vec![]);
    let dep = "left-pad".to_string();
    let w = known.record(&dep, &"0.0.1".to_string(), Outcome::Rejected, 1).unwrap();
    assert_eq!(w.lifecycle, Lifecycle::Rejected);
    assert!(known.triage(&dep, &cand("0.0.1")).is_none());
    // a later success does not promote a rejected version
    assert!(known.record(&dep, &"0.0.1".to_string(), Outcome::Published, 2).is_none());
}

#[test]
fn failed_push_is_deferred_without_a_record() {
    let end = drive(SourceKind::Registry, &[Event::Installed, Event::Pushed(PushOutcome::Failed)]);
    assert_eq!(end, Stage::Done(Outcome::Deferred));
    let mut known = KnownVersions::from_store(vec![], vec![]);
    let dep = "left-pad".to_string();
    assert!(known.record(&dep, &"3.0.0".to_string(), Outcome::Deferred, 1).is_none());
    assert_eq!(known.triage(&dep, &cand("3.0.0")), Some("3.0.0".to_string()));
}

#[test]
fn fetch_and_extraction_failures_skip_the_version() {
    assert_eq!(drive(SourceKind::SourceControl, &[Event::FetchFailed]), Stage::Done(Outcome::Skipped));
    assert_eq!(
        drive(SourceKind::SourceControl, &[Event::Fetched, Event::ExtractFailed]),
        Stage::Done(Outcome::Skipped)
    );
    let mut known = KnownVersions::from_store(vec![], vec![]);
    assert!(known.record(&"a/b".to_string(), &"1".to_string(), Outcome::Skipped, 1).is_none());
    assert!(known.is_new("1"));
}

#[test]
fn installer_that_cannot_run_defers_the_version() {
    assert_eq!(drive(SourceKind::Registry, &[Event::InstallUnavailable]), Stage::Done(Outcome::Skipped));
}

#[test]
fn repeated_pass_with_a_deferred_push_writes_only_once() {
    let mut known = KnownVersions::from_store(vec![], vec![]);
    let dep = "left-pad".to_string();
    let upstream = vec![(cand("1.0.0"), Outcome::Published), (cand("1.0.1"), Outcome::Deferred)];
    let mut writes = Vec::new();
    for _pass in 0..2 {
        let mut n = 0;
        for (c, outcome) in upstream.iter() {
            if let Some(v) = known.triage(&dep, c) {
                if known.record(&dep, &v, *outcome, 1).is_some() {
                    n += 1;
                }
            }
        }
        writes.push(n);
    }
    assert_eq!(writes, vec![1, 0]);
}

#[test]
fn stray_events_change_nothing() {
    assert_eq!(advance(Stage::Fetching, Event::Installed), Stage::Fetching);
    assert_eq!(advance(Stage::Publishing, Event::Fetched), Stage::Publishing);
    let done = Stage::Done(Outcome::Published);
    assert_eq!(advance(done, Event::Pushed(PushOutcome::Failed)), done);
}

#[test]
fn second_pass_writes_nothing() {
    let mut known = KnownVersions::from_store(vec![], vec![]);
    let dep = "uniswap-permit2".to_string();
    let upstream = vec![cand("v1.0.0"), cand("v1.1.0"), cand("v1.1.0-bad")];
    let mut writes = 0;
    for (i, c) in upstream.iter().enumerate() {
        if let Some(v) = known.triage(&dep, c) {
            let outcome = if i == 2 { Outcome::Rejected } else { Outcome::Published };
            if known.record(&dep, &v, outcome, 1).is_some() {
                writes += 1;
            }
        }
    }
    assert_eq!(writes, 3);
    for c in upstream.iter() {
        assert!(known.triage(&dep, c).is_none());
    }
}

#[test]
fn snapshot_never_counts_a_name_twice() {
    let known = KnownVersions::from_store(vec!["1.0".to_string()], vec!["1.0".to_string(), "0.9".to_string()]);
    assert!(!known.is_new("1.0"));
    assert!(!known.is_new("0.9"));
    assert!(known.is_new("1.1"));
}
