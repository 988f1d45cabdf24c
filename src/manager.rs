//! Publication into the internal registry: the identifier a version is pushed
//! under, and how the registry's answer is read.
use vstd::prelude::*;

use crate::text::{contains_text, has_infix, push_all};

verus! {

/// The registry refused a push; `cause` is its message.
#[derive(Debug, Clone)]
pub struct PushError {
    pub cause: String,
}

/// A dependency name as the registry accepts it: `/` and `.` become hyphens.
pub open spec fn registry_package_name(name: Seq<char>) -> Seq<char> {
    name.map_values(|c: char| if c == '/' || c == '.' { '-' } else { c })
}

/// The identifier a version is pushed under: `{name}~{version}`.
pub open spec fn push_identifier(name: Seq<char>, version: Seq<char>) -> Seq<char> {
    registry_package_name(name) + "~"@ + version
}

/// See `push_identifier`.
pub fn push_identifier_of(name: &str, version: &str) -> (r: String)
    ensures
        r@ == push_identifier(name@, version@),
{
    let cs = crate::text::chars_of(name);
    let mut out = String::new();
    let mut i: usize = 0;
    while i < cs.len()
        invariant
            cs@ == name@,
            i <= cs@.len(),
            out@ == registry_package_name(name@.subrange(0, i as int)),
        decreases cs@.len() - i,
    {
        let c = cs[i];
        let d = if c == '/' || c == '.' {
            '-'
        } else {
            c
        };
        out.push(d);
        assert(registry_package_name(name@.subrange(0, i + 1)) =~= registry_package_name(
            name@.subrange(0, i as int),
        ).push(d));
        i = i + 1;
    }
    assert(name@.subrange(0, cs@.len() as int) =~= name@);
    push_all(&mut out, "~");
    push_all(&mut out, version);
    assert(out@ =~= push_identifier(name@, version@));
    out
}

/// How a push ended.
#[derive(Debug, Clone, Copy, PartialEq, Eq, Structural)]
pub enum PushOutcome {
    /// The registry took the version.
    Pushed,
    /// The registry holds this name and version already.
    AlreadyExists,
    /// Any other refusal.
    Failed,
}

/// The registry's message for a version it holds already.
pub open spec fn already_exists_message() -> Seq<char> {
    "Dependency already exists"@
}

/// How a push whose answer was `result` ended: a refusal whose message tells
/// that the version exists already is told apart from every other refusal.
pub fn classify_push(result: &Result<(), PushError>) -> (r: PushOutcome)
    ensures
        result is Ok ==> r == PushOutcome::Pushed,
        result matches Err(e) ==> (r == PushOutcome::AlreadyExists <==> has_infix(
            e.cause@,
            already_exists_message(),
        )),
        result matches Err(e) ==> (r == PushOutcome::Failed <==> !has_infix(
            e.cause@,
            already_exists_message(),
        )),
{
    match result {
        Ok(()) => PushOutcome::Pushed,
        Err(e) => {
            if contains_text(e.cause.as_str(), "Dependency already exists") {
                PushOutcome::AlreadyExists
            } else {
                PushOutcome::Failed
            }
        },
    }
}

} // verus!
