//! Version discovery for source-control repositories: formal releases, raw
//! tags and a tracked default branch, each turned into candidates ordered
//! from oldest to newest.
use vstd::prelude::*;

use crate::text::{
    chars_of, in_strings, in_table, last_token, last_token_of, opt_text, push_all, replace_text,
    replaced, same_text, str_views, string_of_range, string_views,
};
use crate::VersionStruct;

verus! {

/// The repository list could not be loaded, or a repository could not be listed.
#[derive(Debug, Clone)]
pub struct LoadError;

/// An artifact could not be retrieved.
#[derive(Debug, Clone)]
pub struct DownloadError;

/// An archive could not be unpacked.
#[derive(Debug, Clone)]
pub struct UnzippingError {
    pub name: String,
    pub version: String,
}

/// A formal release as listed upstream: its title (empty when it has none),
/// its tag, and the locator of its source archive.
#[derive(Debug, Clone)]
pub struct ReleaseEntry {
    pub name: String,
    pub tag_name: String,
    pub zipball_url: String,
}

/// A raw tag as listed upstream: its name (possibly empty), the hash of the
/// commit it points at, and the locator of its source archive.
#[derive(Debug, Clone)]
pub struct TagEntry {
    pub name: String,
    pub commit_sha: String,
    pub zipball_url: String,
}

/// A branch as listed upstream, with the hash of its latest commit.
#[derive(Debug, Clone)]
pub struct BranchEntry {
    pub name: String,
    pub commit_sha: String,
}

/// The version named by an upstream label: without its leading `v` when it
/// has one, otherwise its last whitespace-separated token.
pub open spec fn label_version(label: Seq<char>) -> Seq<char> {
    if label.len() > 0 && label[0] == 'v' {
        label.drop_first()
    } else {
        last_token(label)
    }
}

/// The label of a release: its title, or its tag when the title is empty.
pub open spec fn release_label(e: ReleaseEntry) -> Seq<char> {
    if e.name@.len() == 0 {
        e.tag_name@
    } else {
        e.name@
    }
}

/// The label of a tag: its name, or its commit hash when the name is empty.
pub open spec fn tag_label(e: TagEntry) -> Seq<char> {
    if e.name@.len() == 0 {
        e.commit_sha@
    } else {
        e.name@
    }
}

/// The version named by `label` (see `label_version`).
pub fn version_from_label(label: &str) -> (r: String)
    ensures
        r@ == label_version(label@),
{
    let cs = chars_of(label);
    if cs.len() > 0 && cs[0] == 'v' {
        let r = string_of_range(cs.as_slice(), 1, cs.len());
        assert(r@ =~= label@.drop_first());
        r
    } else {
        last_token_of(label)
    }
}

/// A candidate over views: its name and its locator.
pub open spec fn candidates_view(v: Seq<VersionStruct>) -> Seq<(Seq<char>, Seq<char>)> {
    v.map_values(|c: VersionStruct| (c.name@, c.url@))
}

/// The candidates of releases listed newest first, oldest first.
pub open spec fn release_part(rs: Seq<ReleaseEntry>) -> Seq<(Seq<char>, Seq<char>)> {
    Seq::new(
        rs.len(),
        |i: int| (label_version(release_label(rs[rs.len() - 1 - i])), rs[rs.len() - 1 - i].zipball_url@),
    )
}

/// The candidates of tags listed newest first, oldest first.
pub open spec fn tag_part(ts: Seq<TagEntry>) -> Seq<(Seq<char>, Seq<char>)> {
    Seq::new(
        ts.len(),
        |i: int| (label_version(tag_label(ts[ts.len() - 1 - i])), ts[ts.len() - 1 - i].zipball_url@),
    )
}

/// Candidates for a page of releases listed newest first: one per release,
/// oldest first.
pub fn release_candidates(releases: &Vec<ReleaseEntry>) -> (r: Vec<VersionStruct>)
    ensures
        candidates_view(r@) == release_part(releases@),
        r@.len() == releases@.len(),
        forall|i: int|
            0 <= i < r@.len() ==> {
                let e = #[trigger] releases@[releases@.len() - 1 - i];
                &&& r@[i].name@ == label_version(release_label(e))
                &&& r@[i].url@ == e.zipball_url@
            },
{
    let mut out: Vec<VersionStruct> = Vec::new();
    let mut k: usize = releases.len();
    while k > 0
        invariant
            k <= releases@.len(),
            out@.len() == releases@.len() - k,
            forall|i: int|
                0 <= i < out@.len() ==> {
                    let e = #[trigger] releases@[releases@.len() - 1 - i];
                    &&& out@[i].name@ == label_version(release_label(e))
                    &&& out@[i].url@ == e.zipball_url@
                },
        decreases k,
    {
        k = k - 1;
        let e = &releases[k];
        let name = if e.name.as_str().unicode_len() == 0 {
            version_from_label(e.tag_name.as_str())
        } else {
            version_from_label(e.name.as_str())
        };
        out.push(VersionStruct { name, url: e.zipball_url.clone() });
        assert(releases@[releases@.len() - 1 - (out@.len() - 1)] == releases@[k as int]);
    }
    assert(candidates_view(out@) =~= release_part(releases@));
    out
}

/// Candidates for a page of tags listed newest first: one per tag, oldest
/// first.
pub fn tag_candidates(tags: &Vec<TagEntry>) -> (r: Vec<VersionStruct>)
    ensures
        candidates_view(r@) == tag_part(tags@),
        r@.len() == tags@.len(),
        forall|i: int|
            0 <= i < r@.len() ==> {
                let e = #[trigger] tags@[tags@.len() - 1 - i];
                &&& r@[i].name@ == label_version(tag_label(e))
                &&& r@[i].url@ == e.zipball_url@
            },
{
    let mut out: Vec<VersionStruct> = Vec::new();
    let mut k: usize = tags.len();
    while k > 0
        invariant
            k <= tags@.len(),
            out@.len() == tags@.len() - k,
            forall|i: int|
                0 <= i < out@.len() ==> {
                    let e = #[trigger] tags@[tags@.len() - 1 - i];
                    &&& out@[i].name@ == label_version(tag_label(e))
                    &&& out@[i].url@ == e.zipball_url@
                },
        decreases k,
    {
        k = k - 1;
        let e = &tags[k];
        let name = if e.name.as_str().unicode_len() == 0 {
            version_from_label(e.commit_sha.as_str())
        } else {
            version_from_label(e.name.as_str())
        };
        out.push(VersionStruct { name, url: e.zipball_url.clone() });
        assert(tags@[tags@.len() - 1 - (out@.len() - 1)] == tags@[k as int]);
    }
    assert(candidates_view(out@) =~= tag_part(tags@));
    out
}

} // verus!

verus! {

/// Repositories whose formal releases are not used.
pub open spec fn releases_ignored_table() -> Seq<Seq<char>> {
    seq![
        "morpho-org/morpho-blue"@,
        "morpho-org/public-allocator"@,
        "gnsps/solidity-bytes-utils"@,
    ]
}

/// The entries of `releases_ignored_table`.
pub fn releases_ignored() -> (r: Vec<&'static str>)
    ensures
        str_views(r@) == releases_ignored_table(),
{
    let r = vec![
        "morpho-org/morpho-blue",
        "morpho-org/public-allocator",
        "gnsps/solidity-bytes-utils",
    ];
    assert(str_views(r@) =~= releases_ignored_table());
    r
}

/// Repositories whose raw tags are listed even when releases were found.
pub open spec fn tags_always_table() -> Seq<Seq<char>> {
    seq![
        "morpho-org/morpho-blue"@,
        "gnsps/solidity-bytes-utils"@,
        "smartcontractkit/chainlink-evm"@,
        "manifoldxyz/creator-core-solidity"@,
        "Balmy-protocol/uniswap-v3-oracle"@,
        "Recon-Fuzz/chimera"@,
    ]
}

/// The entries of `tags_always_table`.
pub fn tags_always() -> (r: Vec<&'static str>)
    ensures
        str_views(r@) == tags_always_table(),
{
    let r = vec![
        "morpho-org/morpho-blue",
        "gnsps/solidity-bytes-utils",
        "smartcontractkit/chainlink-evm",
        "manifoldxyz/creator-core-solidity",
        "Balmy-protocol/uniswap-v3-oracle",
        "Recon-Fuzz/chimera",
    ];
    assert(str_views(r@) =~= tags_always_table());
    r
}

/// Repositories whose raw tags are not listed when no release was found.
pub open spec fn tags_never_table() -> Seq<Seq<char>> {
    seq![
        "Uniswap/permit2"@,
    ]
}

/// The entries of `tags_never_table`.
pub fn tags_never() -> (r: Vec<&'static str>)
    ensures
        str_views(r@) == tags_never_table(),
{
    let r = vec![
        "Uniswap/permit2",
    ];
    assert(str_views(r@) =~= tags_never_table());
    r
}

/// Repositories that also follow their default branch.
pub open spec fn branch_tracking_table() -> Seq<Seq<char>> {
    seq![
        "morpho-org/metamorpho-v1.1"@,
        "zeframlou/create3-factory"@,
        "0xsequence/sstore2"@,
        "huff-language/foundry-huff"@,
        "a16z/halmos-cheatcodes"@,
        "Uniswap/v4-periphery"@,
        "transmissions11/solmate"@,
        "boringcrypto/BoringSolidity"@,
        "euler-xyz/euler-interfaces"@,
        "pendle-finance/pendle-core-v2-public"@,
        "Recon-Fuzz/setup-helpers"@,
        "morpho-org/morpho-blue-oracles"@,
    ]
}

/// The entries of `branch_tracking_table`.
pub fn branch_tracking() -> (r: Vec<&'static str>)
    ensures
        str_views(r@) == branch_tracking_table(),
{
    let r = vec![
        "morpho-org/metamorpho-v1.1",
        "zeframlou/create3-factory",
        "0xsequence/sstore2",
        "huff-language/foundry-huff",
        "a16z/halmos-cheatcodes",
        "Uniswap/v4-periphery",
        "transmissions11/solmate",
        "boringcrypto/BoringSolidity",
        "euler-xyz/euler-interfaces",
        "pendle-finance/pendle-core-v2-public",
        "Recon-Fuzz/setup-helpers",
        "morpho-org/morpho-blue-oracles",
    ];
    assert(str_views(r@) =~= branch_tracking_table());
    r
}

/// Which tiers of discovery apply to one repository. A branch-tracking
/// repository is discovered through its default branch alone.
#[derive(Debug, Clone, Copy, PartialEq, Eq, Structural)]
pub struct DiscoveryPolicy {
    pub list_releases: bool,
    pub tags_when_no_releases: bool,
    pub always_list_tags: bool,
    pub track_branch: bool,
}

/// The discovery tiers of `repository`, as the tables give them.
pub open spec fn policy_of(repository: Seq<char>) -> DiscoveryPolicy {
    DiscoveryPolicy {
        list_releases: !releases_ignored_table().contains(repository),
        tags_when_no_releases: !tags_never_table().contains(repository),
        always_list_tags: tags_always_table().contains(repository),
        track_branch: branch_tracking_table().contains(repository),
    }
}

/// The discovery tiers that apply to `repository`, looked up in the tables.
pub fn discovery_policy(repository: &str) -> (r: DiscoveryPolicy)
    ensures
        r == policy_of(repository@),
{
    DiscoveryPolicy {
        list_releases: !in_table(&releases_ignored(), repository),
        tags_when_no_releases: !in_table(&tags_never(), repository),
        always_list_tags: in_table(&tags_always(), repository),
        track_branch: in_table(&branch_tracking(), repository),
    }
}

/// Whether raw tags are listed, given how many candidates the releases gave.
pub fn lists_tags(policy: DiscoveryPolicy, release_candidates: usize) -> (r: bool)
    ensures
        r == (policy.always_list_tags || (policy.tags_when_no_releases && release_candidates == 0)),
{
    policy.always_list_tags || (policy.tags_when_no_releases && release_candidates == 0)
}

} // verus!

verus! {

/// `s` splits into `owner` and `project`: the owner ends at the first `/`,
/// the project at the next `/` or at the end.
pub open spec fn splits_into(s: Seq<char>, owner: Seq<char>, project: Seq<char>) -> bool {
    let k = owner.len() as int;
    let e = k + 1 + project.len();
    &&& !owner.contains('/')
    &&& !project.contains('/')
    &&& e <= s.len()
    &&& s.subrange(0, k) == owner
    &&& s[k] == '/'
    &&& s.subrange(k + 1, e) == project
    &&& (e == s.len() || s[e] == '/')
}

/// `repository` (`owner/project`) split into owner and project (see
/// `splits_into`).
pub fn split_repository(repository: &str) -> (r: Option<(String, String)>)
    ensures
        r is Some <==> repository@.contains('/'),
        r matches Some((o, p)) ==> splits_into(repository@, o@, p@),
{
    let cs = chars_of(repository);
    let n = cs.len();
    let mut k: usize = 0;
    while k < n && cs[k] != '/'
        invariant
            cs@ == repository@,
            n == cs@.len(),
            k <= n,
            forall|j: int| 0 <= j < k ==> cs@[j] != '/',
        decreases n - k,
    {
        k = k + 1;
    }
    if k == n {
        assert(!repository@.contains('/')) by {
            if repository@.contains('/') {
                let j = choose|j: int| 0 <= j < repository@.len() && repository@[j] == '/';
                assert(cs@[j] != '/');
            }
        }
        return None;
    }
    let mut e: usize = k + 1;
    while e < n && cs[e] != '/'
        invariant
            cs@ == repository@,
            n == cs@.len(),
            k < e <= n,
            forall|j: int| k < j < e ==> cs@[j] != '/',
        decreases n - e,
    {
        e = e + 1;
    }
    let o = string_of_range(cs.as_slice(), 0, k);
    let p = string_of_range(cs.as_slice(), k + 1, e);
    assert(!o@.contains('/')) by {
        if o@.contains('/') {
            let j = choose|j: int| 0 <= j < o@.len() && o@[j] == '/';
            assert(cs@[j] != '/');
        }
    }
    assert(!p@.contains('/')) by {
        if p@.contains('/') {
            let j = choose|j: int| 0 <= j < p@.len() && p@[j] == '/';
            assert(cs@[k + 1 + j] != '/');
        }
    }
    assert(repository@.contains('/')) by {
        assert(repository@[k as int] == '/');
    }
    Some((o, p))
}

/// How many branches one page of the branch listing holds at most.
pub const BRANCH_PAGE_SIZE: usize = 100;

/// The latest commit of the first branch of `listing` named `name`.
pub open spec fn branch_sha(listing: Seq<BranchEntry>, name: Seq<char>) -> Option<Seq<char>>
    decreases listing.len(),
{
    if listing.len() == 0 {
        None
    } else if listing[0].name@ == name {
        Some(listing[0].commit_sha@)
    } else {
        branch_sha(listing.drop_first(), name)
    }
}

/// The latest commit of the first branch of `listing` named `name`.
pub fn find_branch(listing: &Vec<BranchEntry>, name: &str) -> (r: Option<String>)
    ensures
        opt_text(r) == branch_sha(listing@, name@),
{
    let n = listing.len();
    let mut k: usize = n;
    let mut found: Option<String> = None;
    assert(listing@.subrange(n as int, n as int).len() == 0);
    while k > 0
        invariant
            n == listing@.len(),
            k <= n,
            opt_text(found) == branch_sha(listing@.subrange(k as int, n as int), name@),
        decreases k,
    {
        let ghost rest = listing@.subrange(k as int, n as int);
        k = k - 1;
        let ghost sub = listing@.subrange(k as int, n as int);
        assert(sub.drop_first() =~= rest);
        assert(sub[0] == listing@[k as int]);
        if same_text(listing[k].name.as_str(), name) {
            found = Some(listing[k].commit_sha.clone());
        }
    }
    assert(listing@.subrange(0, n as int) =~= listing@);
    found
}

/// Progress of the search for a repository's default branch through the
/// pages of its branch listing: the page to ask for, and the `master` branch
/// seen so far, kept in case no `main` branch turns up.
#[derive(Debug, Clone)]
pub struct BranchSearch {
    pub page: u32,
    pub master_sha: Option<String>,
}

/// What to do after one page of the branch listing.
#[derive(Debug, Clone)]
pub enum BranchStep {
    /// The default branch was resolved; its latest commit.
    Found(String),
    /// Ask for this page next.
    Fetch(u32),
    /// Neither `main` nor `master` exists.
    Missing,
}

/// A branch step over views.
pub enum BranchStepView {
    Found(Seq<char>),
    Fetch(u32),
    Missing,
}

impl View for BranchStep {
    type V = BranchStepView;

    open spec fn view(&self) -> BranchStepView {
        match self {
            BranchStep::Found(s) => BranchStepView::Found(s@),
            BranchStep::Fetch(p) => BranchStepView::Fetch(*p),
            BranchStep::Missing => BranchStepView::Missing,
        }
    }
}

/// The `master` branch known after `listing`: the one seen on an earlier page,
/// else the first one on this page.
pub open spec fn kept_master(search: BranchSearch, listing: Seq<BranchEntry>) -> Option<Seq<char>> {
    if search.master_sha is Some {
        opt_text(search.master_sha)
    } else {
        branch_sha(listing, "master"@)
    }
}

/// What one page of the listing yields: `main` as soon as it appears; past
/// the last page, the `master` kept, if any; otherwise the next page.
pub open spec fn branch_step(search: BranchSearch, listing: Seq<BranchEntry>) -> BranchStepView {
    match branch_sha(listing, "main"@) {
        Some(m) => BranchStepView::Found(m),
        None => if listing.len() < BRANCH_PAGE_SIZE || search.page == u32::MAX {
            match kept_master(search, listing) {
                Some(m) => BranchStepView::Found(m),
                None => BranchStepView::Missing,
            }
        } else {
            BranchStepView::Fetch((search.page + 1) as u32)
        },
    }
}

impl BranchSearch {
    /// A search that starts at the first page.
    pub fn new() -> (r: BranchSearch)
        ensures
            r.page == 1,
            r.master_sha is None,
    {
        BranchSearch { page: 1, master_sha: None }
    }

    /// Takes in one page of the listing: `main` wins as soon as it appears;
    /// `master` is kept and answered once the last page has gone by without
    /// a `main`. A page shorter than `BRANCH_PAGE_SIZE` is the last one.
    pub fn step(&mut self, listing: &Vec<BranchEntry>) -> (r: BranchStep)
        ensures
            r@ == branch_step(*old(self), listing@),
            opt_text(final(self).master_sha) == kept_master(*old(self), listing@),
            final(self).page == (if r is Fetch {
                old(self).page + 1
            } else {
                old(self).page as int
            }),
    {
        let main = find_branch(listing, "main");
        if self.master_sha.is_none() {
            self.master_sha = find_branch(listing, "master");
        }
        match main {
            Some(sha) => BranchStep::Found(sha),
            None => {
                if listing.len() < BRANCH_PAGE_SIZE || self.page == u32::MAX {
                    match &self.master_sha {
                        Some(sha) => BranchStep::Found(sha.clone()),
                        None => BranchStep::Missing,
                    }
                } else {
                    self.page = self.page + 1;
                    BranchStep::Fetch(self.page)
                }
            },
        }
    }
}

/// The archive locator of commit `sha` of `owner/project`.
pub open spec fn branch_locator(owner: Seq<char>, project: Seq<char>, sha: Seq<char>) -> Seq<char> {
    "https://api.github.com/repos/"@ + owner + "/"@ + project + "/zipball/"@ + sha
}

/// What the branch tier contributes once the default branch is resolved:
/// exactly one candidate, named after the branch's latest commit.
pub fn branch_candidates(owner: &str, project: &str, sha: &str) -> (r: Vec<VersionStruct>)
    ensures
        r@.len() == 1,
        r@[0].name@ == sha@,
        r@[0].url@ == branch_locator(owner@, project@, sha@),
{
    let mut url = String::new();
    push_all(&mut url, "https://api.github.com/repos/");
    push_all(&mut url, owner);
    push_all(&mut url, "/");
    push_all(&mut url, project);
    push_all(&mut url, "/zipball/");
    push_all(&mut url, sha);
    assert(url@ =~= branch_locator(owner@, project@, sha@));
    let mut name = String::new();
    push_all(&mut name, sha);
    assert(name@ =~= sha@);
    let mut r: Vec<VersionStruct> = Vec::new();
    r.push(VersionStruct { name, url });
    r
}

/// The keys of the JSON object that `body` holds, if it holds one.
pub uninterp spec fn json_object_keys(body: Seq<u8>) -> Option<Seq<Seq<char>>>;

/// The views of an optional list of keys.
pub open spec fn keys_view(keys: Option<Vec<String>>) -> Option<Seq<Seq<char>>> {
    match keys {
        Some(k) => Some(string_views(k@)),
        None => None,
    }
}

/// Relies on serde_json::from_slice: `body` is parsed as one JSON value and,
/// when that value is an object, its keys are handed back.
#[verifier::external_body]
fn object_keys(body: &[u8]) -> (r: Option<Vec<String>>)
    ensures
        keys_view(r) == json_object_keys(body@),
{
    match serde_json::from_slice::<serde_json::Value>(body) {
        Ok(serde_json::Value::Object(map)) => Some(map.keys().cloned().collect()),
        _ => None,
    }
}

/// A reply is an upstream error in disguise when it is a JSON object with
/// both a `message` and a `status` key.
pub open spec fn is_error_reply(keys: Option<Seq<Seq<char>>>) -> bool {
    keys matches Some(k) && k.contains("message"@) && k.contains("status"@)
}

/// The second locator shape: the archive addressed through its tag reference.
pub open spec fn alternate_locator(url: Seq<char>) -> Seq<char> {
    replaced(url, "/zipball/"@, "/zipball/refs/tags/"@)
}

/// The alternate locator of `url` (see `alternate_locator`).
pub fn alternate_locator_of(url: &str) -> (r: String)
    ensures
        r@ == alternate_locator(url@),
{
    proof {
        reveal_strlit("/zipball/");
    }
    replace_text(url, "/zipball/", "/zipball/refs/tags/")
}

/// What to do with a fetched reply.
#[derive(Debug, Clone)]
pub enum FetchVerdict {
    /// The reply is the artifact.
    Accept,
    /// The reply is an error; ask once more at this locator.
    RetryAt(String),
    /// The reply is an error and the retry is spent.
    GiveUp,
}

/// A fetch verdict over views.
pub enum FetchStep {
    Accept,
    RetryAt(Seq<char>),
    GiveUp,
}

impl View for FetchVerdict {
    type V = FetchStep;

    open spec fn view(&self) -> FetchStep {
        match self {
            FetchVerdict::Accept => FetchStep::Accept,
            FetchVerdict::RetryAt(u) => FetchStep::RetryAt(u@),
            FetchVerdict::GiveUp => FetchStep::GiveUp,
        }
    }
}

/// The verdict on a reply fetched from `url`, whose JSON keys are `keys`,
/// when `retried` tells whether `url` is already the alternate locator.
pub open spec fn fetch_step(url: Seq<char>, retried: bool, keys: Option<Seq<Seq<char>>>) -> FetchStep {
    if !is_error_reply(keys) {
        FetchStep::Accept
    } else if retried {
        FetchStep::GiveUp
    } else {
        FetchStep::RetryAt(alternate_locator(url))
    }
}

/// The verdict on a reply whose JSON keys are already known.
pub fn verdict_for_keys(url: &str, retried: bool, keys: &Option<Vec<String>>) -> (r: FetchVerdict)
    ensures
        r@ == fetch_step(url@, retried, keys_view(*keys)),
{
    let error_reply = match keys {
        Some(k) => in_strings(k, "message") && in_strings(k, "status"),
        None => false,
    };
    if !error_reply {
        FetchVerdict::Accept
    } else if retried {
        FetchVerdict::GiveUp
    } else {
        FetchVerdict::RetryAt(alternate_locator_of(url))
    }
}

/// The verdict on the reply `body` fetched from `url`.
pub fn judge_response(url: &str, retried: bool, body: &[u8]) -> (r: FetchVerdict)
    ensures
        r@ == fetch_step(url@, retried, json_object_keys(body@)),
{
    let keys = object_keys(body);
    verdict_for_keys(url, retried, &keys)
}

/// An error reply disguised as an artifact leads to exactly one more request,
/// at the alternate locator; an error reply to that request ends the fetch
/// instead of asking again.
pub proof fn lemma_fetch_retries_once(url: Seq<char>, first: Seq<u8>, second: Seq<u8>)
    requires
        is_error_reply(json_object_keys(first)),
        is_error_reply(json_object_keys(second)),
    ensures
        fetch_step(url, false, json_object_keys(first)) == FetchStep::RetryAt(alternate_locator(url)),
        fetch_step(alternate_locator(url), true, json_object_keys(second)) == FetchStep::GiveUp,
{
}

/// The name under which the archive of `version` of `dependency` is stored.
pub open spec fn archive_name(dependency: Seq<char>, version: Seq<char>) -> Seq<char> {
    dependency + "-"@ + version + ".zip"@
}

/// The directory into which `version` of `dependency` is unpacked.
pub open spec fn unpacked_dir(dependency: Seq<char>, version: Seq<char>) -> Seq<char> {
    dependency + "-"@ + version
}

/// See `archive_name`.
pub fn archive_file_name(dependency: &str, version: &str) -> (r: String)
    ensures
        r@ == archive_name(dependency@, version@),
{
    let mut r = String::new();
    push_all(&mut r, dependency);
    push_all(&mut r, "-");
    push_all(&mut r, version);
    push_all(&mut r, ".zip");
    assert(r@ =~= archive_name(dependency@, version@));
    r
}

/// See `unpacked_dir`.
pub fn unpacked_dir_name(dependency: &str, version: &str) -> (r: String)
    ensures
        r@ == unpacked_dir(dependency@, version@),
{
    let mut r = String::new();
    push_all(&mut r, dependency);
    push_all(&mut r, "-");
    push_all(&mut r, version);
    assert(r@ =~= unpacked_dir(dependency@, version@));
    r
}

} // verus!

verus! {

/// Where the discovery of one repository stands.
#[derive(Debug, Clone, Copy, PartialEq, Eq, Structural)]
pub enum DiscoveryStage {
    Releases,
    Tags,
    Branches,
    Finished,
    Failed,
}

/// What the discovery of one repository asks the upstream source for next.
#[derive(Debug, Clone, Copy, PartialEq, Eq, Structural)]
pub enum DiscoveryRequest {
    ListReleases,
    ListTags,
    /// One page of the branch listing.
    ListBranches(u32),
    /// The candidates are complete.
    Finished,
    /// The repository cannot be discovered: it has no default branch.
    Failed,
}

/// The stage once releases gave `found` candidates.
pub open spec fn stage_after_releases(policy: DiscoveryPolicy, found: nat) -> DiscoveryStage {
    if policy.always_list_tags || (policy.tags_when_no_releases && found == 0) {
        DiscoveryStage::Tags
    } else {
        DiscoveryStage::Finished
    }
}

/// The first stage of a discovery under `policy`: a branch-tracking
/// repository is discovered through its default branch alone.
pub open spec fn first_discovery_stage(policy: DiscoveryPolicy) -> DiscoveryStage {
    if policy.track_branch {
        DiscoveryStage::Branches
    } else if policy.list_releases {
        DiscoveryStage::Releases
    } else {
        stage_after_releases(policy, 0)
    }
}

/// The discovery of one source-control repository: the tiers its policy
/// names, run in order, with the candidates found so far (oldest first).
#[derive(Debug)]
pub struct Discovery {
    pub policy: DiscoveryPolicy,
    pub owner: String,
    pub project: String,
    pub stage: DiscoveryStage,
    pub search: BranchSearch,
    pub candidates: Vec<VersionStruct>,
}

fn after_releases(policy: DiscoveryPolicy, found: usize) -> (r: DiscoveryStage)
    ensures
        r == stage_after_releases(policy, found as nat),
{
    if lists_tags(policy, found) {
        DiscoveryStage::Tags
    } else {
        DiscoveryStage::Finished
    }
}

impl Discovery {
    /// A discovery of `repository`; `LoadError` when it is not of the form
    /// `owner/project`.
    pub fn start(repository: &str) -> (r: Result<Discovery, LoadError>)
        ensures
            r is Ok <==> repository@.contains('/'),
            r matches Ok(d) ==> {
                &&& splits_into(repository@, d.owner@, d.project@)
                &&& d.policy == policy_of(repository@)
                &&& d.stage == first_discovery_stage(d.policy)
                &&& (d.policy.track_branch ==> d.stage == DiscoveryStage::Branches)
                &&& d.search.page == 1
                &&& d.search.master_sha is None
                &&& d.candidates@.len() == 0
            },
    {
        match split_repository(repository) {
            None => Err(LoadError),
            Some((owner, project)) => {
                let policy = discovery_policy(repository);
                let stage = if policy.track_branch {
                    DiscoveryStage::Branches
                } else if policy.list_releases {
                    DiscoveryStage::Releases
                } else {
                    after_releases(policy, 0)
                };
                Ok(Discovery { policy, owner, project, stage, search: BranchSearch::new(), candidates: Vec::new() })
            },
        }
    }

    /// What to ask the upstream source for next.
    pub fn request(&self) -> (r: DiscoveryRequest)
        ensures
            r == match self.stage {
                DiscoveryStage::Releases => DiscoveryRequest::ListReleases,
                DiscoveryStage::Tags => DiscoveryRequest::ListTags,
                DiscoveryStage::Branches => DiscoveryRequest::ListBranches(self.search.page),
                DiscoveryStage::Finished => DiscoveryRequest::Finished,
                DiscoveryStage::Failed => DiscoveryRequest::Failed,
            },
    {
        match self.stage {
            DiscoveryStage::Releases => DiscoveryRequest::ListReleases,
            DiscoveryStage::Tags => DiscoveryRequest::ListTags,
            DiscoveryStage::Branches => DiscoveryRequest::ListBranches(self.search.page),
            DiscoveryStage::Finished => DiscoveryRequest::Finished,
            DiscoveryStage::Failed => DiscoveryRequest::Failed,
        }
    }

    /// Takes in the releases listed (newest first); outside the release stage
    /// nothing changes.
    pub fn on_releases(&mut self, releases: &Vec<ReleaseEntry>)
        ensures
            old(self).stage != DiscoveryStage::Releases ==> *final(self) == *old(self),
            old(self).stage == DiscoveryStage::Releases ==> {
                &&& final(self).stage == stage_after_releases(old(self).policy, releases@.len())
                &&& candidates_view(final(self).candidates@) == candidates_view(old(self).candidates@)
                    + release_part(releases@)
                &&& final(self).policy == old(self).policy
                &&& final(self).owner == old(self).owner
                &&& final(self).project == old(self).project
                &&& final(self).search == old(self).search
            },
    {
        if self.stage != DiscoveryStage::Releases {
            return;
        }
        let found = release_candidates(releases);
        let n = found.len();
        let ghost before = self.candidates@;
        let mut i: usize = 0;
        while i < n
            invariant
                found@.len() == n,
                candidates_view(found@) == release_part(releases@),
                i <= n,
                candidates_view(self.candidates@) == candidates_view(before) + candidates_view(found@).take(i as int),
                self.policy == old(self).policy,
                self.owner == old(self).owner,
                self.project == old(self).project,
                self.search == old(self).search,
                before == old(self).candidates@,
            decreases n - i,
        {
            let c = VersionStruct { name: found[i].name.clone(), url: found[i].url.clone() };
            let ghost prev = self.candidates@;
            self.candidates.push(c);
            assert(candidates_view(self.candidates@) =~= candidates_view(prev).push((found@[i as int].name@, found@[i as int].url@)));
            assert(candidates_view(found@).take(i + 1) =~= candidates_view(found@).take(i as int).push(
                (found@[i as int].name@, found@[i as int].url@),
            ));
            i = i + 1;
        }
        assert(candidates_view(found@).take(n as int) =~= candidates_view(found@));
        self.stage = after_releases(self.policy, n);
    }

    /// Takes in the tags listed (newest first); outside the tag stage nothing
    /// changes.
    pub fn on_tags(&mut self, tags: &Vec<TagEntry>)
        ensures
            old(self).stage != DiscoveryStage::Tags ==> *final(self) == *old(self),
            old(self).stage == DiscoveryStage::Tags ==> {
                &&& final(self).stage == DiscoveryStage::Finished
                &&& candidates_view(final(self).candidates@) == candidates_view(old(self).candidates@)
                    + tag_part(tags@)
                &&& final(self).policy == old(self).policy
                &&& final(self).owner == old(self).owner
                &&& final(self).project == old(self).project
                &&& final(self).search == old(self).search
            },
    {
        if self.stage != DiscoveryStage::Tags {
            return;
        }
        let found = tag_candidates(tags);
        let n = found.len();
        let ghost before = self.candidates@;
        let mut i: usize = 0;
        while i < n
            invariant
                found@.len() == n,
                candidates_view(found@) == tag_part(tags@),
                i <= n,
                candidates_view(self.candidates@) == candidates_view(before) + candidates_view(found@).take(i as int),
                self.policy == old(self).policy,
                self.owner == old(self).owner,
                self.project == old(self).project,
                self.search == old(self).search,
                before == old(self).candidates@,
            decreases n - i,
        {
            let c = VersionStruct { name: found[i].name.clone(), url: found[i].url.clone() };
            let ghost prev = self.candidates@;
            self.candidates.push(c);
            assert(candidates_view(self.candidates@) =~= candidates_view(prev).push((found@[i as int].name@, found@[i as int].url@)));
            assert(candidates_view(found@).take(i + 1) =~= candidates_view(found@).take(i as int).push(
                (found@[i as int].name@, found@[i as int].url@),
            ));
            i = i + 1;
        }
        assert(candidates_view(found@).take(n as int) =~= candidates_view(found@));
        self.stage = DiscoveryStage::Finished;
    }

    /// Takes in one page of the branch listing; outside the branch stage
    /// nothing changes. Once the default branch is resolved, exactly one
    /// candidate is added, named after its latest commit: a discovery that
    /// entered the branch stage without candidates, as a branch-tracking one
    /// does, finishes with that candidate alone.
    pub fn on_branches(&mut self, listing: &Vec<BranchEntry>)
        ensures
            old(self).stage != DiscoveryStage::Branches ==> *final(self) == *old(self),
            old(self).stage == DiscoveryStage::Branches ==> {
                &&& final(self).policy == old(self).policy
                &&& final(self).owner == old(self).owner
                &&& final(self).project == old(self).project
                &&& match branch_step(old(self).search, listing@) {
                    BranchStepView::Found(sha) => {
                        &&& final(self).stage == DiscoveryStage::Finished
                        &&& candidates_view(final(self).candidates@) == candidates_view(
                            old(self).candidates@,
                        ).push((sha, branch_locator(old(self).owner@, old(self).project@, sha)))
                        &&& (old(self).candidates@.len() == 0 ==> candidates_view(
                            final(self).candidates@,
                        ) == seq![(sha, branch_locator(old(self).owner@, old(self).project@, sha))])
                    },
                    BranchStepView::Fetch(p) => {
                        &&& final(self).stage == DiscoveryStage::Branches
                        &&& final(self).search.page == p
                        &&& final(self).candidates == old(self).candidates
                    },
                    BranchStepView::Missing => {
                        &&& final(self).stage == DiscoveryStage::Failed
                        &&& final(self).candidates == old(self).candidates
                    },
                }
            },
    {
        if self.stage != DiscoveryStage::Branches {
            return;
        }
        match self.search.step(listing) {
            BranchStep::Found(sha) => {
                let found = branch_candidates(self.owner.as_str(), self.project.as_str(), sha.as_str());
                let c = VersionStruct { name: found[0].name.clone(), url: found[0].url.clone() };
                let ghost prev = self.candidates@;
                self.candidates.push(c);
                assert(candidates_view(self.candidates@) =~= candidates_view(prev).push(
                    (sha@, branch_locator(self.owner@, self.project@, sha@)),
                ));
                self.stage = DiscoveryStage::Finished;
            },
            BranchStep::Fetch(_) => {
                self.stage = DiscoveryStage::Branches;
            },
            BranchStep::Missing => {
                self.stage = DiscoveryStage::Failed;
            },
        }
    }
}

} // verus!
