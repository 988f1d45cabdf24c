//! Character-level helpers on strings, each stated over `Seq<char>`.
use vstd::prelude::*;

verus! {

/// Appending one character to a `String` (std's `String::push`).
pub assume_specification[ String::push ](string: &mut String, ch: char)
    ensures
        final(string)@ == old(string)@.push(ch),
;

/// Whether `c` is a whitespace character: one with the Unicode `White_Space`
/// property.
pub open spec fn is_white(c: char) -> bool {
    ('\t' <= c && c <= '\r') || c == ' ' || c == '\u{85}' || c == '\u{a0}' || c == '\u{1680}' || (
    '\u{2000}' <= c && c <= '\u{200a}') || c == '\u{2028}' || c == '\u{2029}' || c == '\u{202f}' || c
        == '\u{205f}' || c == '\u{3000}'
}

/// See `is_white`.
pub fn is_white_char(c: char) -> (r: bool)
    ensures
        r == is_white(c),
{
    ('\t' <= c && c <= '\r') || c == ' ' || c == '\u{85}' || c == '\u{a0}' || c == '\u{1680}' || (
    '\u{2000}' <= c && c <= '\u{200a}') || c == '\u{2028}' || c == '\u{2029}' || c == '\u{202f}' || c
        == '\u{205f}' || c == '\u{3000}'
}

/// What follows the last whitespace character of `s`; all of `s` when it
/// holds none.
pub open spec fn last_token(s: Seq<char>) -> Seq<char>
    decreases s.len(),
{
    if s.len() == 0 {
        s
    } else if is_white(s.last()) {
        Seq::empty()
    } else {
        last_token(s.drop_last()).push(s.last())
    }
}

/// `s` with every occurrence of `from` turned into `to`.
pub open spec fn swap_char(s: Seq<char>, from: char, to: char) -> Seq<char> {
    s.map_values(|c: char| if c == from { to } else { c })
}

/// `pat` occurs in `s` starting at position `i`.
pub open spec fn occurs_at(s: Seq<char>, pat: Seq<char>, i: int) -> bool {
    0 <= i && i + pat.len() <= s.len() && s.subrange(i, i + pat.len()) == pat
}

/// `pat` occurs somewhere in `s`.
pub open spec fn has_infix(s: Seq<char>, pat: Seq<char>) -> bool {
    exists|i: int| occurs_at(s, pat, i)
}

/// `s` ends with `suffix`.
pub open spec fn has_suffix(s: Seq<char>, suffix: Seq<char>) -> bool {
    occurs_at(s, suffix, s.len() - suffix.len())
}

/// `s` with every non-overlapping occurrence of `pat`, scanned from the left,
/// replaced by `rep`.
pub open spec fn replaced(s: Seq<char>, pat: Seq<char>, rep: Seq<char>) -> Seq<char>
    recommends
        pat.len() > 0,
    decreases s.len(),
{
    if s.len() == 0 || pat.len() == 0 {
        s
    } else if occurs_at(s, pat, 0) {
        rep + replaced(s.subrange(pat.len() as int, s.len() as int), pat, rep)
    } else {
        seq![s[0]] + replaced(s.subrange(1, s.len() as int), pat, rep)
    }
}

/// The characters of `s`, in order.
pub fn chars_of(s: &str) -> (r: Vec<char>)
    ensures
        r@ == s@,
{
    let mut out: Vec<char> = Vec::new();
    let n: usize = s.unicode_len();
    let mut i: usize = 0;
    while i < n
        invariant
            n == s@.len(),
            i <= n,
            out@ == s@.subrange(0, i as int),
        decreases n - i,
    {
        out.push(s.get_char(i));
        i = i + 1;
    }
    out
}

/// A `String` holding exactly the characters of `cs`.
pub fn string_of(cs: &[char]) -> (r: String)
    ensures
        r@ == cs@,
{
    let mut out = String::new();
    let mut i: usize = 0;
    while i < cs.len()
        invariant
            i <= cs@.len(),
            out@ == cs@.subrange(0, i as int),
        decreases cs@.len() - i,
    {
        out.push(cs[i]);
        i = i + 1;
    }
    out
}

/// The characters of `cs` from `start` up to `end`, as a `String`.
pub fn string_of_range(cs: &[char], start: usize, end: usize) -> (r: String)
    requires
        start <= end <= cs@.len(),
    ensures
        r@ == cs@.subrange(start as int, end as int),
{
    let mut out = String::new();
    let mut i: usize = start;
    while i < end
        invariant
            start <= i <= end <= cs@.len(),
            out@ == cs@.subrange(start as int, i as int),
        decreases end - i,
    {
        out.push(cs[i]);
        i = i + 1;
    }
    out
}

/// Appends the characters of `s` to `out`.
pub fn push_all(out: &mut String, s: &str)
    ensures
        final(out)@ == old(out)@ + s@,
{
    let cs = chars_of(s);
    let mut i: usize = 0;
    while i < cs.len()
        invariant
            i <= cs@.len(),
            cs@ == s@,
            out@ == old(out)@ + cs@.subrange(0, i as int),
        decreases cs@.len() - i,
    {
        out.push(cs[i]);
        i = i + 1;
    }
}

/// Equality of two strings, character by character.
pub fn same_text(a: &str, b: &str) -> (r: bool)
    ensures
        r == (a@ == b@),
{
    let x = chars_of(a);
    let y = chars_of(b);
    if x.len() != y.len() {
        return false;
    }
    let mut i: usize = 0;
    while i < x.len()
        invariant
            x@ == a@,
            y@ == b@,
            x@.len() == y@.len(),
            i <= x@.len(),
            forall|j: int| 0 <= j < i ==> x@[j] == y@[j],
        decreases x@.len() - i,
    {
        if x[i] != y[i] {
            return false;
        }
        i = i + 1;
    }
    assert(x@ =~= y@);
    true
}

proof fn lemma_last_token_split(s: Seq<char>, i: int)
    requires
        0 <= i <= s.len(),
        forall|j: int| i <= j < s.len() ==> !is_white(s[j]),
    ensures
        last_token(s) == last_token(s.subrange(0, i)) + s.subrange(i, s.len() as int),
    decreases s.len() - i,
{
    if i < s.len() {
        lemma_last_token_split(s, i + 1);
        let p = s.subrange(0, i + 1);
        assert(p.drop_last() =~= s.subrange(0, i));
        assert(last_token(p) == last_token(s.subrange(0, i)).push(s[i]));
        assert(s.subrange(i, s.len() as int) =~= seq![s[i]] + s.subrange(i + 1, s.len() as int));
        assert(last_token(s.subrange(0, i)).push(s[i]) + s.subrange(i + 1, s.len() as int)
            =~= last_token(s.subrange(0, i)) + s.subrange(i, s.len() as int));
    } else {
        assert(s.subrange(0, i) =~= s);
        assert(s.subrange(i, s.len() as int) =~= Seq::<char>::empty());
        assert(last_token(s) + Seq::<char>::empty() =~= last_token(s));
    }
}

/// What follows the last whitespace character of `s` (all of `s` when it has
/// none).
pub fn last_token_of(s: &str) -> (r: String)
    ensures
        r@ == last_token(s@),
{
    let cs = chars_of(s);
    let n = cs.len();
    let mut i: usize = n;
    while i > 0 && !is_white_char(cs[i - 1])
        invariant
            cs@ == s@,
            n == cs@.len(),
            i <= n,
            forall|j: int| i <= j < n ==> !is_white(cs@[j]),
        decreases i,
    {
        i = i - 1;
    }
    proof {
        lemma_last_token_split(cs@, i as int);
        let p = cs@.subrange(0, i as int);
        if i > 0 {
            assert(is_white(p.last()));
        }
        assert(last_token(p) =~= Seq::<char>::empty());
        assert(Seq::<char>::empty() + cs@.subrange(i as int, n as int) =~= cs@.subrange(i as int, n as int));
    }
    string_of_range(cs.as_slice(), i, n)
}

/// `s` with every `from` character turned into `to`.
pub fn swap_char_of(s: &str, from: char, to: char) -> (r: String)
    ensures
        r@ == swap_char(s@, from, to),
{
    let cs = chars_of(s);
    let mut out = String::new();
    let mut i: usize = 0;
    while i < cs.len()
        invariant
            cs@ == s@,
            i <= cs@.len(),
            out@ == swap_char(s@.subrange(0, i as int), from, to),
        decreases cs@.len() - i,
    {
        let c = cs[i];
        if c == from {
            out.push(to);
        } else {
            out.push(c);
        }
        proof {
            assert(swap_char(s@.subrange(0, i + 1), from, to) =~= swap_char(s@.subrange(0, i as int), from, to).push(
                if c == from { to } else { c },
            ));
        }
        i = i + 1;
    }
    assert(s@.subrange(0, cs@.len() as int) =~= s@);
    out
}

/// Whether `pat` occurs in `cs` at position `i`.
fn occurs_at_exec(cs: &Vec<char>, pat: &Vec<char>, i: usize) -> (r: bool)
    ensures
        r == occurs_at(cs@, pat@, i as int),
{
    if i > cs.len() || pat.len() > cs.len() - i {
        return false;
    }
    let mut j: usize = 0;
    while j < pat.len()
        invariant
            i + pat@.len() <= cs.len(),
            j <= pat@.len(),
            forall|k: int| 0 <= k < j ==> cs@[i + k] == pat@[k],
        decreases pat@.len() - j,
    {
        if cs[i + j] != pat[j] {
            assert(cs@.subrange(i as int, i + pat@.len())[j as int] != pat@[j as int]);
            return false;
        }
        j = j + 1;
    }
    assert(cs@.subrange(i as int, i + pat@.len()) =~= pat@);
    true
}

/// Whether `pat` occurs anywhere in `s`.
pub fn contains_text(s: &str, pat: &str) -> (r: bool)
    ensures
        r == has_infix(s@, pat@),
{
    let cs = chars_of(s);
    let ps = chars_of(pat);
    let mut i: usize = 0;
    while i < cs.len()
        invariant
            cs@ == s@,
            ps@ == pat@,
            i <= cs@.len(),
            forall|k: int| 0 <= k < i ==> !occurs_at(s@, pat@, k),
        decreases cs@.len() - i,
    {
        if occurs_at_exec(&cs, &ps, i) {
            return true;
        }
        i = i + 1;
    }
    occurs_at_exec(&cs, &ps, i)
}

/// `s` without its trailing `suffix`, or `None` when `s` does not end with it.
pub fn strip_suffix_of(s: &str, suffix: &str) -> (r: Option<String>)
    ensures
        r is Some <==> has_suffix(s@, suffix@),
        r matches Some(t) ==> t@ + suffix@ == s@,
{
    let cs = chars_of(s);
    let ps = chars_of(suffix);
    if ps.len() > cs.len() {
        return None;
    }
    let start = cs.len() - ps.len();
    if occurs_at_exec(&cs, &ps, start) {
        let t = string_of_range(cs.as_slice(), 0, start);
        assert(t@ + suffix@ =~= s@);
        Some(t)
    } else {
        None
    }
}

proof fn lemma_replaced_step(s: Seq<char>, pat: Seq<char>, rep: Seq<char>, i: int)
    requires
        pat.len() > 0,
        0 <= i < s.len(),
    ensures
        occurs_at(s, pat, i) ==> replaced(s.subrange(i, s.len() as int), pat, rep) == rep + replaced(
            s.subrange(i + pat.len(), s.len() as int),
            pat,
            rep,
        ),
        !occurs_at(s, pat, i) ==> replaced(s.subrange(i, s.len() as int), pat, rep) == seq![s[i]]
            + replaced(s.subrange(i + 1, s.len() as int), pat, rep),
{
    let t = s.subrange(i, s.len() as int);
    if occurs_at(s, pat, i) {
        assert(t.subrange(0, pat.len() as int) =~= s.subrange(i, i + pat.len()));
        assert(t.subrange(pat.len() as int, t.len() as int) =~= s.subrange(i + pat.len(), s.len() as int));
    } else {
        if i + pat.len() <= s.len() {
            assert(t.subrange(0, pat.len() as int) =~= s.subrange(i, i + pat.len()));
        }
        assert(t.subrange(1, t.len() as int) =~= s.subrange(i + 1, s.len() as int));
    }
}

/// `s` with every non-overlapping occurrence of `pat` replaced by `rep`.
pub fn replace_text(s: &str, pat: &str, rep: &str) -> (r: String)
    requires
        pat@.len() > 0,
    ensures
        r@ == replaced(s@, pat@, rep@),
{
    let cs = chars_of(s);
    let ps = chars_of(pat);
    let mut out = String::new();
    let mut i: usize = 0;
    assert(s@.subrange(0, s@.len() as int) =~= s@);
    assert(out@ + s@ =~= s@);
    while i < cs.len()
        invariant
            cs@ == s@,
            ps@ == pat@,
            pat@.len() > 0,
            i <= cs@.len(),
            out@ + replaced(s@.subrange(i as int, s@.len() as int), pat@, rep@) == replaced(s@, pat@, rep@),
        decreases cs@.len() - i,
    {
        proof {
            lemma_replaced_step(s@, pat@, rep@, i as int);
        }
        if occurs_at_exec(&cs, &ps, i) {
            let ghost before = out@;
            push_all(&mut out, rep);
            assert(out@ + replaced(s@.subrange(i + ps@.len(), s@.len() as int), pat@, rep@) =~= before
                + (rep@ + replaced(s@.subrange(i + ps@.len(), s@.len() as int), pat@, rep@)));
            i = i + ps.len();
        } else {
            let ghost before = out@;
            out.push(cs[i]);
            assert(out@ + replaced(s@.subrange(i + 1, s@.len() as int), pat@, rep@) =~= before + (seq![cs@[i as int]]
                + replaced(s@.subrange(i + 1, s@.len() as int), pat@, rep@)));
            i = i + 1;
        }
    }
    assert(s@.subrange(i as int, s@.len() as int) =~= Seq::<char>::empty());
    assert(replaced(Seq::<char>::empty(), pat@, rep@) == Seq::<char>::empty());
    assert(out@ + Seq::<char>::empty() =~= out@);
    assert(s@.subrange(0, s@.len() as int) =~= s@);
    out
}

} // verus!

verus! {

/// The views of a list of string slices.
pub open spec fn str_views(v: Seq<&str>) -> Seq<Seq<char>> {
    v.map_values(|t: &str| t@)
}

/// The views of a list of strings.
pub open spec fn string_views(v: Seq<String>) -> Seq<Seq<char>> {
    v.map_values(|t: String| t@)
}

/// Whether `name` is one of the entries of `table`.
pub fn in_table(table: &Vec<&str>, name: &str) -> (r: bool)
    ensures
        r == str_views(table@).contains(name@),
{
    let mut i: usize = 0;
    while i < table.len()
        invariant
            i <= table@.len(),
            forall|j: int| 0 <= j < i ==> table@[j]@ != name@,
        decreases table@.len() - i,
    {
        if same_text(table[i], name) {
            assert(str_views(table@)[i as int] == name@);
            return true;
        }
        i = i + 1;
    }
    assert forall|j: int| 0 <= j < str_views(table@).len() implies str_views(table@)[j] != name@ by {
        assert(table@[j]@ != name@);
    }
    false
}

/// Whether `name` is one of the entries of `list`.
pub fn in_strings(list: &Vec<String>, name: &str) -> (r: bool)
    ensures
        r == string_views(list@).contains(name@),
{
    let mut i: usize = 0;
    while i < list.len()
        invariant
            i <= list@.len(),
            forall|j: int| 0 <= j < i ==> list@[j]@ != name@,
        decreases list@.len() - i,
    {
        if same_text(list[i].as_str(), name) {
            assert(string_views(list@)[i as int] == name@);
            return true;
        }
        i = i + 1;
    }
    assert forall|j: int| 0 <= j < string_views(list@).len() implies string_views(list@)[j] != name@ by {
        assert(list@[j]@ != name@);
    }
    false
}

} // verus!

verus! {

/// The view of an optional string.
pub open spec fn opt_text(o: Option<String>) -> Option<Seq<char>> {
    match o {
        Some(s) => Some(s@),
        None => None,
    }
}

} // verus!
