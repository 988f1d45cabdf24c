//! The synchronisation pass: which discovered versions still need work, the
//! per-version state machine from fetch to publication, and what is written
//! back to the version store.
use vstd::prelude::*;

use crate::db::Version;
use crate::manager::PushOutcome;
use crate::text::{in_strings, string_views};
use crate::utils::{canonical_version_name, format_version};
use crate::VersionStruct;

verus! {

/// Where a repository's versions come from.
#[derive(Debug, Clone, Copy, PartialEq, Eq, Structural)]
pub enum SourceKind {
    /// A package registry: versions are validated by a trial installation.
    Registry,
    /// A source-control host: versions are fetched as archives and unpacked.
    SourceControl,
}

/// The two record lifecycles of the version store.
#[derive(Debug, Clone, Copy, PartialEq, Eq, Structural)]
pub enum Lifecycle {
    Published,
    Rejected,
}

/// How the work on one version ended.
#[derive(Debug, Clone, Copy, PartialEq, Eq, Structural)]
pub enum Outcome {
    /// Pushed, or found in the registry already: recorded as published.
    Published,
    /// Proven unusable: recorded as rejected, never tried again.
    Rejected,
    /// The push failed: nothing is recorded, the next pass tries again.
    Deferred,
    /// Fetching or unpacking failed, or the installer could not be run:
    /// nothing is recorded, the next pass tries again.
    Skipped,
}

/// What the store knows of one repository, over views.
pub struct KnownView {
    pub published: Set<Seq<char>>,
    pub rejected: Set<Seq<char>>,
}

/// The set of the views of `v`.
pub open spec fn name_set(v: Seq<String>) -> Set<Seq<char>> {
    Set::new(|s: Seq<char>| string_views(v).contains(s))
}

/// A version name is known when it is published or rejected.
pub open spec fn is_known(k: KnownView, version: Seq<char>) -> bool {
    k.published.contains(version) || k.rejected.contains(version)
}

/// The lifecycle an outcome is recorded under, if any.
pub open spec fn recorded_as(outcome: Outcome) -> Option<Lifecycle> {
    match outcome {
        Outcome::Published => Some(Lifecycle::Published),
        Outcome::Rejected => Some(Lifecycle::Rejected),
        _ => None,
    }
}

/// What the store knows after `outcome` is reported for `version`: a known
/// version is left as it is, whatever is reported.
pub open spec fn step_store(k: KnownView, version: Seq<char>, outcome: Outcome) -> KnownView {
    if is_known(k, version) {
        k
    } else {
        match recorded_as(outcome) {
            Some(Lifecycle::Published) => KnownView { published: k.published.insert(version), rejected: k.rejected },
            Some(Lifecycle::Rejected) => KnownView { published: k.published, rejected: k.rejected.insert(version) },
            None => k,
        }
    }
}

/// The record written when `outcome` is reported for `version`, if any.
pub open spec fn step_write(k: KnownView, version: Seq<char>, outcome: Outcome) -> Option<Lifecycle> {
    if is_known(k, version) {
        None
    } else {
        recorded_as(outcome)
    }
}

proof fn lemma_name_set_push(v: Seq<String>, x: String)
    ensures
        name_set(v.push(x)) == name_set(v).insert(x@),
{
    let w = string_views(v);
    assert(string_views(v.push(x)) =~= w.push(x@));
    assert forall|s: Seq<char>| name_set(v.push(x)).contains(s) <==> name_set(v).insert(x@).contains(s) by {
        if w.push(x@).contains(s) {
            let i = choose|i: int| 0 <= i < w.len() + 1 && w.push(x@)[i] == s;
            if i < w.len() {
                assert(w[i] == s);
            }
        }
        if w.contains(s) {
            let i = choose|i: int| 0 <= i < w.len() && w[i] == s;
            assert(w.push(x@)[i] == s);
        }
        if s == x@ {
            assert(w.push(x@)[w.len() as int] == s);
        }
    }
    assert(name_set(v.push(x)) =~= name_set(v).insert(x@));
}

/// A snapshot of the version store for one repository, kept up to date as
/// records are written during a pass.
pub struct KnownVersions {
    published: Vec<String>,
    rejected: Vec<String>,
}

/// A record to write to the version store.
#[derive(Debug, Clone)]
pub struct StoreWrite {
    pub lifecycle: Lifecycle,
    pub record: Version,
}

impl View for KnownVersions {
    type V = KnownView;

    closed spec fn view(&self) -> KnownView {
        KnownView {
            published: name_set(self.published@),
            rejected: name_set(self.rejected@).difference(name_set(self.published@)),
        }
    }
}

impl KnownVersions {
    /// The snapshot of what the store holds. A name found among both the
    /// published and the rejected versions counts as published.
    pub fn from_store(published: Vec<String>, rejected: Vec<String>) -> (r: KnownVersions)
        ensures
            r@.published == name_set(published@),
            r@.rejected == name_set(rejected@).difference(name_set(published@)),
            r@.published.disjoint(r@.rejected),
    {
        KnownVersions { published, rejected }
    }

    /// Whether `version` is neither published nor rejected.
    pub fn is_new(&self, version: &str) -> (r: bool)
        ensures
            r == !is_known(self@, version@),
    {
        !in_strings(&self.published, version) && !in_strings(&self.rejected, version)
    }

    /// The canonical name of `candidate` of dependency `dependency_name` when
    /// it still needs work; `None` when it is published or rejected already.
    pub fn triage(&self, dependency_name: &String, candidate: &VersionStruct) -> (r: Option<String>)
        ensures
            r is Some <==> !is_known(self@, canonical_version_name(dependency_name@, candidate.name@)),
            r matches Some(v) ==> v@ == canonical_version_name(dependency_name@, candidate.name@),
    {
        let version = format_version(dependency_name, &candidate.name);
        if self.is_new(version.as_str()) {
            Some(version)
        } else {
            None
        }
    }

    /// Takes in the outcome of the work on `version` of `repository` at time
    /// `now`, and hands back the record to write, if any.
    pub fn record(&mut self, repository: &String, version: &String, outcome: Outcome, now: i64) -> (r:
        Option<StoreWrite>)
        ensures
            final(self)@ == step_store(old(self)@, version@, outcome),
            match r {
                Some(w) => step_write(old(self)@, version@, outcome) == Some(w.lifecycle)
                    && w.record.repository@ == repository@ && w.record.version@ == version@
                    && w.record.last_updated == now,
                None => step_write(old(self)@, version@, outcome) is None,
            },
    {
        if !self.is_new(version.as_str()) {
            return None;
        }
        let lifecycle = match outcome {
            Outcome::Published => Lifecycle::Published,
            Outcome::Rejected => Lifecycle::Rejected,
            _ => {
                return None;
            },
        };
        let ghost before = self@;
        match lifecycle {
            Lifecycle::Published => {
                let ghost p0 = self.published@;
                let v = version.clone();
                assert(v@ == version@);
                self.published.push(v);
                assert(self.published@ == p0.push(v));
                proof {
                    lemma_name_set_push(p0, v);
                }
                assert(name_set(self.published@) =~= before.published.insert(version@));
                assert(self@.rejected =~= before.rejected);
            },
            Lifecycle::Rejected => {
                let ghost r0 = self.rejected@;
                let v = version.clone();
                self.rejected.push(v);
                assert(self.rejected@ == r0.push(v));
                proof {
                    lemma_name_set_push(r0, v);
                }
                assert(self@.rejected =~= before.rejected.insert(version@));
            },
        }
        Some(
            StoreWrite {
                lifecycle,
                record: Version { repository: repository.clone(), version: version.clone(), last_updated: now },
            },
        )
    }
}

/// Where the work on one version stands.
#[derive(Debug, Clone, Copy, PartialEq, Eq, Structural)]
pub enum Stage {
    Fetching,
    Extracting,
    Installing,
    Publishing,
    Done(Outcome),
}

/// What the outside world reports back for the step a version is at.
#[derive(Debug, Clone, Copy, PartialEq, Eq, Structural)]
pub enum Event {
    Fetched,
    FetchFailed,
    Extracted,
    ExtractFailed,
    Installed,
    InstallFailed,
    /// The trial installation could not be run at all: no evidence on the version.
    InstallUnavailable,
    Pushed(PushOutcome),
}

/// The first step for a version that needs work: source archives are
/// fetched, registry packages installed on trial.
pub open spec fn first_stage(kind: SourceKind) -> Stage {
    match kind {
        SourceKind::Registry => Stage::Installing,
        SourceKind::SourceControl => Stage::Fetching,
    }
}

/// The transitions of the per-version state machine. An event that does not
/// belong to the current stage changes nothing.
pub open spec fn next_stage(stage: Stage, event: Event) -> Stage {
    match (stage, event) {
        (Stage::Fetching, Event::Fetched) => Stage::Extracting,
        (Stage::Fetching, Event::FetchFailed) => Stage::Done(Outcome::Skipped),
        (Stage::Extracting, Event::Extracted) => Stage::Publishing,
        (Stage::Extracting, Event::ExtractFailed) => Stage::Done(Outcome::Skipped),
        (Stage::Installing, Event::Installed) => Stage::Publishing,
        (Stage::Installing, Event::InstallFailed) => Stage::Done(Outcome::Rejected),
        (Stage::Installing, Event::InstallUnavailable) => Stage::Done(Outcome::Skipped),
        (Stage::Publishing, Event::Pushed(PushOutcome::Pushed)) => Stage::Done(Outcome::Published),
        (Stage::Publishing, Event::Pushed(PushOutcome::AlreadyExists)) => Stage::Done(Outcome::Published),
        (Stage::Publishing, Event::Pushed(PushOutcome::Failed)) => Stage::Done(Outcome::Deferred),
        _ => stage,
    }
}

/// See `first_stage`.
pub fn start_stage(kind: SourceKind) -> (r: Stage)
    ensures
        r == first_stage(kind),
{
    match kind {
        SourceKind::Registry => Stage::Installing,
        SourceKind::SourceControl => Stage::Fetching,
    }
}

/// See `next_stage`.
pub fn advance(stage: Stage, event: Event) -> (r: Stage)
    ensures
        r == next_stage(stage, event),
{
    match (stage, event) {
        (Stage::Fetching, Event::Fetched) => Stage::Extracting,
        (Stage::Fetching, Event::FetchFailed) => Stage::Done(Outcome::Skipped),
        (Stage::Extracting, Event::Extracted) => Stage::Publishing,
        (Stage::Extracting, Event::ExtractFailed) => Stage::Done(Outcome::Skipped),
        (Stage::Installing, Event::Installed) => Stage::Publishing,
        (Stage::Installing, Event::InstallFailed) => Stage::Done(Outcome::Rejected),
        (Stage::Installing, Event::InstallUnavailable) => Stage::Done(Outcome::Skipped),
        (Stage::Publishing, Event::Pushed(PushOutcome::Pushed)) => Stage::Done(Outcome::Published),
        (Stage::Publishing, Event::Pushed(PushOutcome::AlreadyExists)) => Stage::Done(Outcome::Published),
        (Stage::Publishing, Event::Pushed(PushOutcome::Failed)) => Stage::Done(Outcome::Deferred),
        _ => stage,
    }
}

} // verus!

verus! {

/// What the store knows after a pass that reported, in order, the outcome of
/// each discovered version name of `steps`.
pub open spec fn run_store(k: KnownView, steps: Seq<(Seq<char>, Outcome)>) -> KnownView
    decreases steps.len(),
{
    if steps.len() == 0 {
        k
    } else {
        step_store(run_store(k, steps.drop_last()), steps.last().0, steps.last().1)
    }
}

/// The records written during the pass over `steps`, in order.
pub open spec fn run_writes(k: KnownView, steps: Seq<(Seq<char>, Outcome)>) -> Seq<(Lifecycle, Seq<char>)>
    decreases steps.len(),
{
    if steps.len() == 0 {
        Seq::empty()
    } else {
        let rest = run_writes(k, steps.drop_last());
        match step_write(run_store(k, steps.drop_last()), steps.last().0, steps.last().1) {
            Some(l) => rest.push((l, steps.last().0)),
            None => rest,
        }
    }
}

/// A pass in which every version either was known when its turn came or
/// ended published or rejected: none was deferred or skipped.
pub open spec fn settled_pass(k: KnownView, steps: Seq<(Seq<char>, Outcome)>) -> bool
    decreases steps.len(),
{
    steps.len() == 0 || (settled_pass(k, steps.drop_last()) && (is_known(
        run_store(k, steps.drop_last()),
        steps.last().0,
    ) || recorded_as(steps.last().1) is Some))
}

proof fn lemma_pass_keeps_known(k: KnownView, steps: Seq<(Seq<char>, Outcome)>, v: Seq<char>)
    ensures
        k.published.subset_of(run_store(k, steps).published),
        k.rejected.subset_of(run_store(k, steps).rejected),
        is_known(k, v) ==> is_known(run_store(k, steps), v),
    decreases steps.len(),
{
    if steps.len() > 0 {
        lemma_pass_keeps_known(k, steps.drop_last(), v);
    }
}

proof fn lemma_settled_pass_knows_all(k: KnownView, steps: Seq<(Seq<char>, Outcome)>)
    requires
        settled_pass(k, steps),
    ensures
        forall|i: int| 0 <= i < steps.len() ==> is_known(run_store(k, steps), #[trigger] steps[i].0),
    decreases steps.len(),
{
    if steps.len() > 0 {
        let front = steps.drop_last();
        lemma_settled_pass_knows_all(k, front);
        let before = run_store(k, front);
        assert forall|i: int| 0 <= i < steps.len() implies is_known(run_store(k, steps), #[trigger] steps[i].0) by {
            if i < steps.len() - 1 {
                assert(front[i] == steps[i]);
                assert(is_known(before, steps[i].0));
            }
        }
    }
}

proof fn lemma_known_pass_is_idle(k: KnownView, steps: Seq<(Seq<char>, Outcome)>)
    requires
        forall|i: int| 0 <= i < steps.len() ==> is_known(k, #[trigger] steps[i].0),
    ensures
        run_writes(k, steps).len() == 0,
        run_store(k, steps) == k,
    decreases steps.len(),
{
    if steps.len() > 0 {
        let front = steps.drop_last();
        assert forall|i: int| 0 <= i < front.len() implies is_known(k, #[trigger] front[i].0) by {
            assert(front[i] == steps[i]);
        }
        lemma_known_pass_is_idle(k, front);
        assert(is_known(k, steps[steps.len() - 1].0));
    }
}

/// Idempotence: after a pass in which no version was deferred or skipped, a
/// second pass over the same discovered names writes nothing and leaves the
/// store as it was, whatever outcomes it would report.
pub proof fn lemma_second_pass_writes_nothing(
    k: KnownView,
    first: Seq<(Seq<char>, Outcome)>,
    second: Seq<(Seq<char>, Outcome)>,
)
    requires
        settled_pass(k, first),
        forall|j: int|
            0 <= j < second.len() ==> exists|i: int| 0 <= i < first.len() && first[i].0 == #[trigger] second[j].0,
    ensures
        run_writes(run_store(k, first), second).len() == 0,
        run_store(run_store(k, first), second) == run_store(k, first),
{
    let after = run_store(k, first);
    lemma_settled_pass_knows_all(k, first);
    assert forall|j: int| 0 <= j < second.len() implies is_known(after, #[trigger] second[j].0) by {
        let i = choose|i: int| 0 <= i < first.len() && first[i].0 == second[j].0;
        assert(is_known(after, first[i].0));
    }
    lemma_known_pass_is_idle(after, second);
}

proof fn lemma_recorded_are_known(k: KnownView, steps: Seq<(Seq<char>, Outcome)>)
    ensures
        forall|i: int|
            0 <= i < steps.len() && recorded_as(#[trigger] steps[i].1) is Some ==> is_known(
                run_store(k, steps),
                steps[i].0,
            ),
    decreases steps.len(),
{
    if steps.len() > 0 {
        let front = steps.drop_last();
        lemma_recorded_are_known(k, front);
        let before = run_store(k, front);
        assert forall|i: int|
            0 <= i < steps.len() && recorded_as(#[trigger] steps[i].1) is Some implies is_known(
                run_store(k, steps),
                steps[i].0,
            ) by {
            if i < steps.len() - 1 {
                assert(front[i] == steps[i]);
                assert(is_known(before, steps[i].0));
            }
        }
    }
}

proof fn lemma_nothing_new_to_record(k: KnownView, steps: Seq<(Seq<char>, Outcome)>)
    requires
        forall|i: int|
            0 <= i < steps.len() && recorded_as(#[trigger] steps[i].1) is Some ==> is_known(k, steps[i].0),
    ensures
        run_writes(k, steps).len() == 0,
        run_store(k, steps) == k,
    decreases steps.len(),
{
    if steps.len() > 0 {
        let front = steps.drop_last();
        assert forall|i: int|
            0 <= i < front.len() && recorded_as(#[trigger] front[i].1) is Some implies is_known(k, front[i].0) by {
            assert(front[i] == steps[i]);
        }
        lemma_nothing_new_to_record(k, front);
        let last = steps[steps.len() - 1];
        assert(recorded_as(last.1) is Some ==> is_known(k, last.0));
    }
}

/// Idempotence: running the same pass again (the same discovered names, with
/// the same outcomes) writes nothing and leaves the store as the first pass
/// left it.
pub proof fn lemma_repeated_pass_writes_nothing(k: KnownView, steps: Seq<(Seq<char>, Outcome)>)
    ensures
        run_writes(run_store(k, steps), steps).len() == 0,
        run_store(run_store(k, steps), steps) == run_store(k, steps),
{
    lemma_recorded_are_known(k, steps);
    lemma_nothing_new_to_record(run_store(k, steps), steps);
}

proof fn lemma_writes_are_new(k: KnownView, steps: Seq<(Seq<char>, Outcome)>)
    ensures
        forall|i: int| 0 <= i < run_writes(k, steps).len() ==> !is_known(k, #[trigger] run_writes(k, steps)[i].1),
    decreases steps.len(),
{
    if steps.len() > 0 {
        let front = steps.drop_last();
        lemma_writes_are_new(k, front);
        lemma_pass_keeps_known(k, front, steps.last().0);
        let w = run_writes(k, steps);
        let rest = run_writes(k, front);
        assert forall|i: int| 0 <= i < w.len() implies !is_known(k, #[trigger] w[i].1) by {
            if i < rest.len() {
                assert(w[i] == rest[i]);
            }
        }
    }
}

proof fn lemma_pass_keeps_disjoint(k: KnownView, steps: Seq<(Seq<char>, Outcome)>)
    requires
        k.published.disjoint(k.rejected),
    ensures
        run_store(k, steps).published.disjoint(run_store(k, steps).rejected),
    decreases steps.len(),
{
    if steps.len() > 0 {
        lemma_pass_keeps_disjoint(k, steps.drop_last());
    }
}

/// A version published before a pass stays published, is written nowhere
/// during the pass (it is not processed again, whatever discovery lists), and
/// no name is ever both published and rejected.
pub proof fn lemma_published_never_reprocessed(k: KnownView, steps: Seq<(Seq<char>, Outcome)>)
    requires
        k.published.disjoint(k.rejected),
    ensures
        k.published.subset_of(run_store(k, steps).published),
        run_store(k, steps).published.disjoint(run_store(k, steps).rejected),
        forall|i: int|
            0 <= i < run_writes(k, steps).len() ==> !k.published.contains(
                #[trigger] run_writes(k, steps)[i].1,
            ),
{
    lemma_pass_keeps_known(k, steps, Seq::empty());
    lemma_pass_keeps_disjoint(k, steps);
    lemma_writes_are_new(k, steps);
}

} // verus!

verus! {

/// How many times a failing upstream call is made in all.
pub const MAX_ATTEMPTS: u32 = 4;

/// The pause before the first retry, in milliseconds.
pub const BASE_DELAY_MS: u64 = 1000;

/// The pause after `failures` failed calls: it doubles with each failure.
pub open spec fn backoff_ms(failures: nat) -> nat
    decreases failures,
{
    if failures <= 1 {
        BASE_DELAY_MS as nat
    } else {
        2 * backoff_ms((failures - 1) as nat)
    }
}

/// How long to wait before calling again after `failures` failed calls, or
/// `None` when no call failed or the attempts are spent.
pub fn retry_delay_ms(failures: u32) -> (r: Option<u64>)
    ensures
        failures == 0 || failures >= MAX_ATTEMPTS ==> r is None,
        0 < failures < MAX_ATTEMPTS ==> r == Some(backoff_ms(failures as nat) as u64),
{
    if failures == 0 || failures >= MAX_ATTEMPTS {
        return None;
    }
    let mut delay: u64 = BASE_DELAY_MS;
    let mut i: u32 = 1;
    while i < failures
        invariant
            1 <= i <= failures < MAX_ATTEMPTS,
            delay == backoff_ms(i as nat),
            (i == 1 && delay == 1000) || (i == 2 && delay == 2000) || (i == 3 && delay == 4000),
        decreases failures - i,
    {
        assert(backoff_ms((i + 1) as nat) == 2 * backoff_ms(i as nat));
        delay = delay * 2;
        i = i + 1;
    }
    Some(delay)
}

} // verus!
