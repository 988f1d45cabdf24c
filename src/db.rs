//! Records kept by the version store, and the decision whether a repository
//! is due for a discovery pass.
use vstd::prelude::*;

use crate::text::{has_suffix, opt_text, strip_suffix_of};

verus! {

/// One version record: a repository, a canonical version name, and when the
/// record was written, in microseconds since the Unix epoch (UTC).
#[derive(Debug, Clone)]
pub struct Version {
    pub repository: String,
    pub version: String,
    pub last_updated: i64,
}

/// A record that was looked for is not in the store.
#[derive(Debug, Clone)]
pub struct NotFound;

/// How long after its last recorded activity a repository is left alone, in
/// microseconds (one hour).
pub const FRESHNESS_WINDOW_MICROS: i64 = 3_600_000_000;

/// The time that `text` denotes under the `strftime`-style `format`, read as
/// UTC and counted in microseconds since the Unix epoch; `None` when `text`
/// does not parse.
pub uninterp spec fn parsed_utc_micros(text: Seq<char>, format: Seq<char>) -> Option<i64>;

/// Relies on chrono's NaiveDateTime::parse_from_str, whose result is taken as
/// a UTC time (NaiveDateTime::and_utc) and counted in microseconds since the
/// epoch (DateTime::timestamp_micros).
#[verifier::external_body]
fn parse_utc_micros(text: &str, format: &str) -> (r: Option<i64>)
    ensures
        r == parsed_utc_micros(text@, format@),
{
    match chrono::NaiveDateTime::parse_from_str(text, format) {
        Ok(t) => Some(t.and_utc().timestamp_micros()),
        Err(_) => None,
    }
}

/// The first of three parse attempts that succeeds.
pub open spec fn first_parsed(a: Option<i64>, b: Option<i64>, c: Option<i64>) -> Option<i64> {
    if a is Some {
        a
    } else if b is Some {
        b
    } else {
        c
    }
}

/// The time a stored timestamp denotes. Stored timestamps end in ` UTC`; what
/// precedes it is read with six fraction digits, with any fraction, or
/// without one, in that order of preference.
pub open spec fn stored_time(text: Seq<char>) -> Option<i64> {
    if has_suffix(text, " UTC"@) {
        let t = text.subrange(0, text.len() - " UTC"@.len());
        first_parsed(
            parsed_utc_micros(t, "%Y-%m-%d %H:%M:%S.%6f"@),
            parsed_utc_micros(t, "%Y-%m-%d %H:%M:%S%.f"@),
            parsed_utc_micros(t, "%Y-%m-%d %H:%M:%S"@),
        )
    } else {
        None
    }
}

/// A repository needs a discovery pass unless its latest record is readable
/// and no older than the freshness window before `now`.
pub open spec fn needs_sync(last_activity: Option<Seq<char>>, now: i64) -> bool {
    match last_activity {
        None => true,
        Some(text) => match stored_time(text) {
            None => true,
            Some(t) => t < now - FRESHNESS_WINDOW_MICROS,
        },
    }
}

/// The time a stored timestamp denotes (see `stored_time`).
pub fn parse_stored_time(text: &str) -> (r: Option<i64>)
    ensures
        r == stored_time(text@),
{
    let stripped = strip_suffix_of(text, " UTC");
    match stripped {
        None => None,
        Some(t) => {
            assert(t@ =~= text@.subrange(0, text@.len() - " UTC"@.len()));
            let a = parse_utc_micros(t.as_str(), "%Y-%m-%d %H:%M:%S.%6f");
            if a.is_some() {
                return a;
            }
            let b = parse_utc_micros(t.as_str(), "%Y-%m-%d %H:%M:%S%.f");
            if b.is_some() {
                return b;
            }
            parse_utc_micros(t.as_str(), "%Y-%m-%d %H:%M:%S")
        },
    }
}

/// Whether a repository whose latest record was written at `last_activity`
/// (`None`: it has no record) needs a discovery pass at time `now`.
pub fn repository_needs_sync(last_activity: &Option<String>, now: i64) -> (r: bool)
    ensures
        r == needs_sync(opt_text(*last_activity), now),
{
    match last_activity {
        None => true,
        Some(text) => match parse_stored_time(text.as_str()) {
            None => true,
            Some(t) => (t as i128) < (now as i128) - (FRESHNESS_WINDOW_MICROS as i128),
        },
    }
}

/// The repositories of `activity` that need a discovery pass at `now`, in
/// their order; each comes with the time of its latest record, if any.
pub open spec fn due_repositories(activity: Seq<(Seq<char>, Option<Seq<char>>)>, now: i64) -> Seq<
    Seq<char>,
>
    decreases activity.len(),
{
    if activity.len() == 0 {
        Seq::empty()
    } else {
        let rest = due_repositories(activity.drop_last(), now);
        if needs_sync(activity.last().1, now) {
            rest.push(activity.last().0)
        } else {
            rest
        }
    }
}

/// The views of a list of repositories with their latest activity.
pub open spec fn activity_view(activity: Seq<(String, Option<String>)>) -> Seq<(Seq<char>, Option<Seq<char>>)> {
    activity.map_values(|e: (String, Option<String>)| (e.0@, opt_text(e.1)))
}

/// The repositories that need a discovery pass at `now` (see
/// `due_repositories`).
pub fn repositories_needing_sync(activity: &Vec<(String, Option<String>)>, now: i64) -> (r: Vec<String>)
    ensures
        r@.map_values(|s: String| s@) == due_repositories(activity_view(activity@), now),
{
    let mut out: Vec<String> = Vec::new();
    let mut i: usize = 0;
    while i < activity.len()
        invariant
            i <= activity@.len(),
            out@.map_values(|s: String| s@) == due_repositories(
                activity_view(activity@).subrange(0, i as int),
                now,
            ),
        decreases activity@.len() - i,
    {
        let ghost all = activity_view(activity@);
        assert(all.subrange(0, i + 1).drop_last() =~= all.subrange(0, i as int));
        assert(all.subrange(0, i + 1).last() == (activity@[i as int].0@, opt_text(activity@[i as int].1)));
        let ghost before = out@;
        if repository_needs_sync(&activity[i].1, now) {
            out.push(activity[i].0.clone());
            assert(out@.map_values(|s: String| s@) =~= before.map_values(|s: String| s@).push(
                activity@[i as int].0@,
            ));
        }
        i = i + 1;
    }
    assert(activity_view(activity@).subrange(0, i as int) =~= activity_view(activity@));
    out
}

} // verus!
