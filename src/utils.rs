//! Canonical names: how a repository and a version are named in the internal
//! registry.
use vstd::prelude::*;

use crate::text::{
    chars_of, in_table, last_token, last_token_of, same_text, str_views, string_of_range,
    swap_char, swap_char_of,
};

verus! {

/// A file that was asked for could not be read.
#[derive(Debug, Clone)]
pub struct FileNotFound;

/// `c` in lower case when it is an ASCII capital letter.
pub open spec fn lower_ascii(c: char) -> char {
    if 'A' <= c && c <= 'Z' {
        ((c as u32) + 32) as char
    } else {
        c
    }
}

/// The mechanical naming rule: lower case, with the `/` between owner and
/// project turned into a hyphen.
pub open spec fn mechanical_name(repository: Seq<char>) -> Seq<char> {
    repository.map_values(|c: char| if c == '/' { '-' } else { lower_ascii(c) })
}

/// Repositories whose registry name does not follow the mechanical rule, with
/// that name.
pub open spec fn name_overrides_table() -> Seq<(Seq<char>, Seq<char>)> {
    seq![("transmissions11/solmate"@, "solmate"@)]
}

/// The entries of `name_overrides_table`.
pub fn name_overrides() -> (r: Vec<(&'static str, &'static str)>)
    ensures
        r@.map_values(|e: (&str, &str)| (e.0@, e.1@)) == name_overrides_table(),
{
    let r = vec![("transmissions11/solmate", "solmate")];
    assert(r@.map_values(|e: (&str, &str)| (e.0@, e.1@)) =~= name_overrides_table());
    r
}

/// The name given to `key` by the first entry of `table` that mentions it.
pub open spec fn table_lookup(table: Seq<(Seq<char>, Seq<char>)>, key: Seq<char>) -> Option<Seq<char>>
    decreases table.len(),
{
    if table.len() == 0 {
        None
    } else if table[0].0 == key {
        Some(table[0].1)
    } else {
        table_lookup(table.drop_first(), key)
    }
}

/// The registry name of a repository: its override when it has one, the
/// mechanical rule otherwise.
pub open spec fn canonical_repository_name(repository: Seq<char>) -> Seq<char> {
    match table_lookup(name_overrides_table(), repository) {
        Some(n) => n,
        None => mechanical_name(repository),
    }
}

/// Dependencies whose versions are checked against the tag-shaped pattern.
pub open spec fn strict_versions_table() -> Seq<Seq<char>> {
    seq![
        "openzeppelin-foundry-upgrades"@,
        "eth-infinitism-account-abstraction"@,
        "colinnielsen-safe-tools"@,
        "worldcoin-world-id-contracts"@,
        "cyfrin-foundry-era-contracts"@,
        "euler-xyz-ethereum-vault-connector"@,
        "cyfrin-foundry-devops"@,
        "alchemyplatform-modular-account"@,
        "erc6551-reference"@,
        "layr-labs-eigenlayer-contracts"@,
        "smartcontractkit-ccip"@,
        "perimetersec-fuzzlib"@,
        "crytic-properties"@,
        "ava-labs-avalanche-interchain-token-transfer"@,
        "uniswap-permit2"@,
        "gnosisguild-zodiac"@,
        "huff-language-huffmate"@,
        "smartcontractkit-chainlink-brownie-contracts"@,
        "projectopensea-operator-filter-registry"@,
        "latticexyz-store"@,
        "succinctlabs-sp1-contracts"@,
        "uniswap-v4-core"@,
        "uniswap-v4-periphery"@,
        "smartcontractkit-chainlink"@,
        "limitbreakinc-creator-token-standards"@,
        "morpho-org-morpho-blue"@,
        "hashgraph-hedera-forking"@,
        "gnsps-solidity-bytes-utils"@,
        "uniswap-smart-order-router"@,
        "zeframlou-create3-factory"@,
        "morpho-org-metamorpho-v1.1"@,
        "morpho-org-public-allocator"@,
        "openzeppelin-uniswap-hooks"@,
        "0xsequence-sstore2"@,
        "huff-language-foundry-huff"@,
        "a16z-halmos-cheatcodes"@,
        "manifoldxyz-libraries-solidity"@,
        "solv-finance-erc-3525"@,
        "smartcontractkit-chainlink-evm"@,
        "estarriolvetch-erc721psi"@,
        "circlefin-evm-cctp-contracts"@,
        "manifoldxyz-creator-core-solidity"@,
        "solmate"@,
        "boringcrypto-boringsolidity"@,
        "euler-xyz-euler-interfaces"@,
        "pendle-finance-pendle-core-v2-public"@,
        "balmy-protocol-uniswap-v3-oracle"@,
        "recon-fuzz-chimera"@,
        "recon-fuzz-setup-helpers"@,
        "morpho-org-morpho-blue-oracles"@,
        "risc0-risc0-ethereum"@,
    ]
}

/// The entries of `strict_versions_table`.
pub fn strict_versions() -> (r: Vec<&'static str>)
    ensures
        str_views(r@) == strict_versions_table(),
{
    let r = vec![
        "openzeppelin-foundry-upgrades",
        "eth-infinitism-account-abstraction",
        "colinnielsen-safe-tools",
        "worldcoin-world-id-contracts",
        "cyfrin-foundry-era-contracts",
        "euler-xyz-ethereum-vault-connector",
        "cyfrin-foundry-devops",
        "alchemyplatform-modular-account",
        "erc6551-reference",
        "layr-labs-eigenlayer-contracts",
        "smartcontractkit-ccip",
        "perimetersec-fuzzlib",
        "crytic-properties",
        "ava-labs-avalanche-interchain-token-transfer",
        "uniswap-permit2",
        "gnosisguild-zodiac",
        "huff-language-huffmate",
        "smartcontractkit-chainlink-brownie-contracts",
        "projectopensea-operator-filter-registry",
        "latticexyz-store",
        "succinctlabs-sp1-contracts",
        "uniswap-v4-core",
        "uniswap-v4-periphery",
        "smartcontractkit-chainlink",
        "limitbreakinc-creator-token-standards",
        "morpho-org-morpho-blue",
        "hashgraph-hedera-forking",
        "gnsps-solidity-bytes-utils",
        "uniswap-smart-order-router",
        "zeframlou-create3-factory",
        "morpho-org-metamorpho-v1.1",
        "morpho-org-public-allocator",
        "openzeppelin-uniswap-hooks",
        "0xsequence-sstore2",
        "huff-language-foundry-huff",
        "a16z-halmos-cheatcodes",
        "manifoldxyz-libraries-solidity",
        "solv-finance-erc-3525",
        "smartcontractkit-chainlink-evm",
        "estarriolvetch-erc721psi",
        "circlefin-evm-cctp-contracts",
        "manifoldxyz-creator-core-solidity",
        "solmate",
        "boringcrypto-boringsolidity",
        "euler-xyz-euler-interfaces",
        "pendle-finance-pendle-core-v2-public",
        "balmy-protocol-uniswap-v3-oracle",
        "recon-fuzz-chimera",
        "recon-fuzz-setup-helpers",
        "morpho-org-morpho-blue-oracles",
        "risc0-risc0-ethereum",
    ];
    assert(str_views(r@) =~= strict_versions_table());
    r
}

/// The tag-shaped version pattern: `v` and dot-separated groups of digits.
pub open spec fn tag_version_pattern() -> Seq<char> {
    "^v(\\d+\\.)*\\d+$"@
}

/// The outcome of compiling `pattern` as a regular expression and testing
/// whether it matches in `text`; `None` when `pattern` does not compile.
pub uninterp spec fn regex_outcome(pattern: Seq<char>, text: Seq<char>) -> Option<bool>;

/// Relies on regex::Regex::new, which compiles `pattern` or fails, and on
/// Regex::is_match, which tells whether the compiled pattern matches in `text`.
#[verifier::external_body]
fn regex_match(pattern: &str, text: &str) -> (r: Option<bool>)
    ensures
        r == regex_outcome(pattern@, text@),
{
    match regex::Regex::new(pattern) {
        Ok(re) => Some(re.is_match(text)),
        Err(_) => None,
    }
}

/// The canonical form of version label `raw`. For a strict dependency a
/// tag-shaped label loses its `v`, and any other label has its spaces turned
/// into hyphens; then whatever still holds whitespace is cut to its last
/// token.
pub open spec fn canonical_version(strict: bool, tag_shaped: bool, raw: Seq<char>) -> Seq<char> {
    let v = if strict && tag_shaped && raw.len() > 0 {
        raw.drop_first()
    } else if strict {
        swap_char(raw, ' ', '-')
    } else {
        raw
    };
    last_token(v)
}

/// Whether `raw` matches the tag-shaped version pattern.
pub open spec fn is_tag_shaped(raw: Seq<char>) -> bool {
    regex_outcome(tag_version_pattern(), raw) == Some(true)
}

/// The canonical version name of `raw` for dependency `dependency_name`.
pub open spec fn canonical_version_name(dependency_name: Seq<char>, raw: Seq<char>) -> Seq<char> {
    canonical_version(strict_versions_table().contains(dependency_name), is_tag_shaped(raw), raw)
}

/// `canonical_version`, once it is known whether the dependency is strict and
/// whether `raw` is tag-shaped.
pub fn normalize_version(strict: bool, tag_shaped: bool, raw: &str) -> (r: String)
    ensures
        r@ == canonical_version(strict, tag_shaped, raw@),
{
    let cs = chars_of(raw);
    if strict && tag_shaped && cs.len() > 0 {
        let rest = string_of_range(cs.as_slice(), 1, cs.len());
        assert(rest@ =~= raw@.drop_first());
        last_token_of(rest.as_str())
    } else if strict {
        let hyphenated = swap_char_of(raw, ' ', '-');
        last_token_of(hyphenated.as_str())
    } else {
        last_token_of(raw)
    }
}

/// The registry name of `repository` (see `canonical_repository_name`).
pub fn format_dependency_name(repository: &String) -> (r: String)
    ensures
        r@ == canonical_repository_name(repository@),
{
    let table = name_overrides();
    let ghost t = table@.map_values(|e: (&str, &str)| (e.0@, e.1@));
    let mut i: usize = 0;
    assert(t.subrange(0, t.len() as int) =~= t);
    while i < table.len()
        invariant
            t == table@.map_values(|e: (&str, &str)| (e.0@, e.1@)),
            t == name_overrides_table(),
            i <= table@.len(),
            table_lookup(t, repository@) == table_lookup(t.subrange(i as int, t.len() as int), repository@),
        decreases table@.len() - i,
    {
        let ghost rest = t.subrange(i as int, t.len() as int);
        assert(rest.drop_first() =~= t.subrange(i + 1, t.len() as int));
        assert(rest[0] == (table@[i as int].0@, table@[i as int].1@));
        let (key, name) = table[i];
        if same_text(key, repository.as_str()) {
            let mut r = String::new();
            crate::text::push_all(&mut r, name);
            assert(r@ =~= name@);
            return r;
        }
        i = i + 1;
    }
    assert(t.subrange(i as int, t.len() as int).len() == 0);
    let cs = chars_of(repository.as_str());
    let mut out: Vec<char> = Vec::new();
    let mut j: usize = 0;
    while j < cs.len()
        invariant
            cs@ == repository@,
            j <= cs@.len(),
            out@ == mechanical_name(repository@.subrange(0, j as int)),
        decreases cs@.len() - j,
    {
        let c = cs[j];
        let d = if c == '/' {
            '-'
        } else if 'A' <= c && c <= 'Z' {
            ((c as u8) + 32) as char
        } else {
            c
        };
        out.push(d);
        assert(mechanical_name(repository@.subrange(0, j + 1)) =~= mechanical_name(
            repository@.subrange(0, j as int),
        ).push(d));
        j = j + 1;
    }
    assert(repository@.subrange(0, cs@.len() as int) =~= repository@);
    crate::text::string_of(out.as_slice())
}

/// The canonical version name of `version` for `dependency_name` (see
/// `canonical_version_name`).
pub fn format_version(dependency_name: &String, version: &String) -> (r: String)
    ensures
        r@ == canonical_version_name(dependency_name@, version@),
{
    let strict = in_table(&strict_versions(), dependency_name.as_str());
    if !strict {
        return normalize_version(false, false, version.as_str());
    }
    let outcome = regex_match("^v(\\d+\\.)*\\d+$", version.as_str());
    let tag_shaped = match outcome {
        Some(b) => b,
        None => false,
    };
    normalize_version(strict, tag_shaped, version.as_str())
}

/// The canonical version name depends on the dependency's name and the raw
/// label alone: computed when versions are filtered and again when one is
/// published, it is the same name.
pub proof fn lemma_version_name_stable(
    dependency_a: Seq<char>,
    raw_a: Seq<char>,
    dependency_b: Seq<char>,
    raw_b: Seq<char>,
)
    requires
        dependency_a == dependency_b,
        raw_a == raw_b,
    ensures
        canonical_version_name(dependency_a, raw_a) == canonical_version_name(dependency_b, raw_b),
{
}

} // verus!
