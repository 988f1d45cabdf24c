//! Version discovery for registry packages, and the health check that sorts
//! listed versions into installable and broken ones.
use vstd::prelude::*;

use crate::text::{string_views, swap_char, swap_char_of};
use crate::VersionStruct;

verus! {

/// The package could not be listed, or its listing could not be read.
#[derive(Debug, Clone)]
pub struct LoadError;

/// A version failed its trial installation.
#[derive(Debug, Clone)]
pub struct HealthCheckError;

/// The strings of the JSON array of strings that `text` holds, if it holds one.
pub uninterp spec fn json_string_list(text: Seq<char>) -> Option<Seq<Seq<char>>>;

/// Relies on serde_json::from_str: `text` is parsed as a JSON array whose
/// items are all strings.
#[verifier::external_body]
fn parse_string_list(text: &str) -> (r: Option<Vec<String>>)
    ensures
        match r {
            Some(v) => json_string_list(text@) == Some(string_views(v@)),
            None => json_string_list(text@) is None,
        },
{
    match serde_json::from_str::<Vec<String>>(text) {
        Ok(v) => Some(v),
        Err(_) => None,
    }
}

/// The package manager prints version lists with single quotes; as JSON they
/// read with double quotes.
pub open spec fn listing_as_json(listing: Seq<char>) -> Seq<char> {
    swap_char(listing, '\'', '"')
}

/// One candidate per listed version, in the listed order (oldest first), with
/// an empty locator.
pub fn candidates_from_names(names: &Vec<String>) -> (r: Vec<VersionStruct>)
    ensures
        r@.len() == names@.len(),
        forall|i: int|
            0 <= i < r@.len() ==> #[trigger] r@[i].name@ == names@[i]@ && r@[i].url@.len() == 0,
{
    let mut out: Vec<VersionStruct> = Vec::new();
    let mut i: usize = 0;
    while i < names.len()
        invariant
            i <= names@.len(),
            out@.len() == i,
            forall|j: int| 0 <= j < i ==> #[trigger] out@[j].name@ == names@[j]@ && out@[j].url@.len() == 0,
        decreases names@.len() - i,
    {
        out.push(VersionStruct { name: names[i].clone(), url: String::new() });
        i = i + 1;
    }
    out
}

/// The candidates of a registry package, read from the package manager's
/// listing of its versions; `LoadError` when the listing is not a list of
/// strings.
pub fn registry_candidates(listing: &str) -> (r: Result<Vec<VersionStruct>, LoadError>)
    ensures
        r is Ok <==> json_string_list(listing_as_json(listing@)) is Some,
        r matches Ok(v) ==> {
            let names = json_string_list(listing_as_json(listing@))->0;
            &&& v@.len() == names.len()
            &&& forall|i: int|
                0 <= i < v@.len() ==> #[trigger] v@[i].name@ == names[i] && v@[i].url@.len() == 0
        },
{
    let json = swap_char_of(listing, '\'', '"');
    match parse_string_list(json.as_str()) {
        Some(names) => {
            let v = candidates_from_names(&names);
            assert forall|i: int| 0 <= i < v@.len() implies #[trigger] v@[i].name@ == string_views(
                names@,
            )[i] by {
                assert(v@[i].name@ == names@[i]@);
            }
            Ok(v)
        },
        None => Err(LoadError),
    }
}

/// The views of versions paired with the outcome of their trial installation.
pub open spec fn checked_view(checked: Seq<(String, bool)>) -> Seq<(Seq<char>, bool)> {
    checked.map_values(|e: (String, bool)| (e.0@, e.1))
}

/// The versions whose trial installation ended as `healthy`, in order.
pub open spec fn with_health(checked: Seq<(Seq<char>, bool)>, healthy: bool) -> Seq<Seq<char>> {
    checked.filter_map(|e: (Seq<char>, bool)| if e.1 == healthy { Some(e.0) } else { None })
}

/// Splits versions by the outcome of their trial installation: the installable
/// ones, then the broken ones, each in the order given.
pub fn partition_by_health(checked: &Vec<(String, bool)>) -> (r: (Vec<String>, Vec<String>))
    ensures
        string_views(r.0@) == with_health(checked_view(checked@), true),
        string_views(r.1@) == with_health(checked_view(checked@), false),
{
    let mut valid: Vec<String> = Vec::new();
    let mut invalid: Vec<String> = Vec::new();
    let mut i: usize = 0;
    while i < checked.len()
        invariant
            i <= checked@.len(),
            string_views(valid@) == with_health(checked_view(checked@).take(i as int), true),
            string_views(invalid@) == with_health(checked_view(checked@).take(i as int), false),
        decreases checked@.len() - i,
    {
        let ghost all = checked_view(checked@);
        assert(all.take(i + 1).drop_last() =~= all.take(i as int));
        assert(all.take(i + 1).last() == (checked@[i as int].0@, checked@[i as int].1));
        let ghost v0 = valid@;
        let ghost i0 = invalid@;
        if checked[i].1 {
            valid.push(checked[i].0.clone());
            assert(string_views(valid@) =~= string_views(v0) + seq![checked@[i as int].0@]);
        } else {
            invalid.push(checked[i].0.clone());
            assert(string_views(invalid@) =~= string_views(i0) + seq![checked@[i as int].0@]);
        }
        i = i + 1;
    }
    assert(checked_view(checked@).take(i as int) =~= checked_view(checked@));
    (valid, invalid)
}

} // verus!
