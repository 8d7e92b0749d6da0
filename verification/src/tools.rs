//! The decisions inside the file tools: regex escaping, AST pattern
//! suggestions, the text edit of `sed`, the numbered view of `read`, the
//! arguments and outcome of `grep`, `ast-grep` output lines, and the
//! dependency check.

use vstd::prelude::*;
use crate::fmt::{decimal, decimal_chars};
use crate::text::{
    chars_eq, chars_of, contains, copy_range, extend_from, find, find_exec, join_lines, lemma_find_from_spec, lines,
    occurs_at, push_str_chars, replace_all, split_lines, starts_with, starts_with_exec, string_of, trim, trimmed,
    views,
};

verus! {

broadcast use vstd::string::group_string_axioms;

// ---------------------------------------------------------------------------
// Regex escaping
// ---------------------------------------------------------------------------

/// The characters that regex syntax gives a meaning.
pub open spec fn regex_special(c: char) -> bool {
    c == '\\' || c == '.' || c == '+' || c == '*' || c == '?' || c == '(' || c == ')' || c == '|' || c == '['
        || c == ']' || c == '{' || c == '}' || c == '^' || c == '$'
}

/// Each special character preceded by a backslash.
pub open spec fn escaped(s: Seq<char>) -> Seq<char>
    decreases s.len(),
{
    if s.len() == 0 {
        Seq::empty()
    } else if regex_special(s.last()) {
        escaped(s.drop_last()) + seq!['\\', s.last()]
    } else {
        escaped(s.drop_last()).push(s.last())
    }
}

/// `s` with every regex metacharacter escaped, so that it matches itself.
pub fn escape_regex(s: &str) -> (r: String)
    ensures
        r@ == escaped(s@),
{
    let c = chars_of(s);
    let mut v: Vec<char> = Vec::new();
    let mut i: usize = 0;
    while i < c.len()
        invariant
            i <= c@.len(),
            c@ == s@,
            v@ == escaped(c@.take(i as int)),
        decreases c.len() - i,
    {
        proof {
            assert(c@.take(i + 1).drop_last() =~= c@.take(i as int));
        }
        let ch = c[i];
        if ch == '\\' || ch == '.' || ch == '+' || ch == '*' || ch == '?' || ch == '(' || ch == ')' || ch == '|'
            || ch == '[' || ch == ']' || ch == '{' || ch == '}' || ch == '^' || ch == '$' {
            v.push('\\');
        }
        v.push(ch);
        i += 1;
        assert(v@ =~= escaped(c@.take(i as int)));
    }
    assert(c@.take(c.len() as int) =~= c@);
    string_of(v.as_slice())
}

// ---------------------------------------------------------------------------
// AST pattern suggestions
// ---------------------------------------------------------------------------

/// Whether `char::is_alphanumeric` holds.
pub uninterp spec fn spec_is_alphanumeric(c: char) -> bool;

/// `char::is_alphanumeric`. The result is named only; Unicode's
/// categories are left to std.
#[verifier::external_body]
pub(crate) fn is_alphanumeric(c: char) -> (r: bool)
    ensures
        r == spec_is_alphanumeric(c),
{
    c.is_alphanumeric()
}

/// A plain name: letters, digits and underscores only.
pub open spec fn plain_name(s: Seq<char>) -> bool {
    forall|i: int| 0 <= i < s.len() ==> spec_is_alphanumeric(#[trigger] s[i]) || s[i] == '_'
}

/// The receiver as a pattern: `$VAL` for a plain name, else as written.
pub open spec fn receiver_pattern(obj: Seq<char>) -> Seq<char> {
    if plain_name(obj) {
        "$VAL"@
    } else {
        obj
    }
}

/// The call-shaped suggestions of `suggest_pattern_from_snippet`: a macro
/// call, a method call, a function call, or any node.
pub open spec fn call_pattern(t: Seq<char>) -> Seq<char> {
    match find(t, seq!['!', '(']) {
        Some(i) => t.take(i) + "!($$$ARGS)"@,
        None => {
            let method = match find(t, seq!['.']) {
                Some(d) => match find(t.skip(d), seq!['(']) {
                    Some(p) => Some(receiver_pattern(t.take(d)) + "."@ + t.subrange(d + 1, d + p) + "($$$ARGS)"@),
                    None => None,
                },
                None => None,
            };
            match method {
                Some(m) => m,
                None => match find(t, seq!['(']) {
                    Some(i) => t.take(i) + "($$$ARGS)"@,
                    None => "$NODE"@,
                },
            }
        },
    }
}

/// The ast-grep pattern suggested for a code snippet: by its leading
/// keyword, else by the shape of the call it makes.
pub open spec fn snippet_pattern(snippet: Seq<char>) -> Seq<char> {
    let t = trim(snippet);
    if starts_with(t, "let "@) {
        "let $VAR = $EXPR"@
    } else if starts_with(t, "if "@) {
        "if $COND { $$$BODY }"@
    } else if starts_with(t, "match "@) {
        "match $VAL { $$$ARMS }"@
    } else if starts_with(t, "for "@) {
        "for $VAR in $ITER { $$$BODY }"@
    } else if starts_with(t, "while "@) {
        "while $COND { $$$BODY }"@
    } else {
        call_pattern(t)
    }
}

fn plain_name_exec(s: &[char]) -> (r: bool)
    ensures
        r == plain_name(s@),
{
    let mut i: usize = 0;
    while i < s.len()
        invariant
            i <= s@.len(),
            forall|k: int| 0 <= k < i ==> spec_is_alphanumeric(#[trigger] s@[k]) || s@[k] == '_',
        decreases s.len() - i,
    {
        if !(is_alphanumeric(s[i]) || s[i] == '_') {
            return false;
        }
        i += 1;
    }
    true
}

fn receiver_pattern_exec(obj: &[char]) -> (r: Vec<char>)
    ensures
        r@ == receiver_pattern(obj@),
{
    if plain_name_exec(obj) {
        chars_of("$VAL")
    } else {
        copy_range(obj, 0, obj.len())
    }
}

fn find_chars(s: &[char], p: &[char]) -> (r: Option<usize>)
    ensures
        r matches Some(i) ==> find(s@, p@) == Some(i as int) && i + p@.len() <= s@.len(),
        r is None ==> find(s@, p@) is None,
{
    let r = find_exec(s, p);
    proof {
        lemma_find_from_spec(s@, p@, 0);
    }
    r
}

fn find_char(s: &[char], c: char) -> (r: Option<usize>)
    ensures
        r matches Some(i) ==> find(s@, seq![c]) == Some(i as int) && i < s@.len() && s@[i as int] == c,
        r is None ==> find(s@, seq![c]) is None,
{
    let p = vec![c];
    assert(p@ =~= seq![c]);
    let r = find_chars(s, p.as_slice());
    proof {
        lemma_find_from_spec(s@, seq![c], 0);
        if let Some(i) = r {
            assert(s@.subrange(i as int, i + 1) == seq![c]);
            assert(s@[i as int] == s@.subrange(i as int, i + 1)[0]);
        }
    }
    r
}

fn call_pattern_exec(t: &[char]) -> (r: Vec<char>)
    ensures
        r@ == call_pattern(t@),
{
    let mut v: Vec<char> = Vec::new();
    match {
        let bang = vec!['!', '('];
        assert(bang@ =~= seq!['!', '(']);
        find_chars(t, bang.as_slice())
    } {
        Some(i) => {
            let name = copy_range(t, 0, i);
            extend_from(&mut v, name.as_slice());
            push_str_chars(&mut v, "!($$$ARGS)");
            return v;
        },
        None => {},
    }
    match find_char(t, '.') {
        Some(d) => {
            let rest = copy_range(t, d, t.len());
            assert(rest@ =~= t@.skip(d as int));
            match find_char(rest.as_slice(), '(') {
                Some(p) => {
                    assert(rest@[0] == '.');
                    assert(p > 0);
                    let obj = copy_range(t, 0, d);
                    let o = receiver_pattern_exec(obj.as_slice());
                    extend_from(&mut v, o.as_slice());
                    push_str_chars(&mut v, ".");
                    let method = copy_range(t, d + 1, d + p);
                    extend_from(&mut v, method.as_slice());
                    push_str_chars(&mut v, "($$$ARGS)");
                    return v;
                },
                None => {},
            }
        },
        None => {},
    }
    match find_char(t, '(') {
        Some(i) => {
            let name = copy_range(t, 0, i);
            extend_from(&mut v, name.as_slice());
            push_str_chars(&mut v, "($$$ARGS)");
        },
        None => {
            push_str_chars(&mut v, "$NODE");
        },
    }
    v
}

fn starts_with_str(s: &[char], p: &str) -> (r: bool)
    ensures
        r == starts_with(s@, p@),
{
    let pc = chars_of(p);
    starts_with_exec(s, pc.as_slice())
}

/// The ast-grep pattern suggested for a code snippet.
pub fn suggest_pattern_from_snippet(snippet: &str) -> (r: String)
    ensures
        r@ == snippet_pattern(snippet@),
{
    let c = chars_of(snippet);
    let t = trimmed(c.as_slice());
    let s = t.as_slice();
    if starts_with_str(s, "let ") {
        return string_of(chars_of("let $VAR = $EXPR").as_slice());
    }
    if starts_with_str(s, "if ") {
        return string_of(chars_of("if $COND { $$$BODY }").as_slice());
    }
    if starts_with_str(s, "match ") {
        return string_of(chars_of("match $VAL { $$$ARMS }").as_slice());
    }
    if starts_with_str(s, "for ") {
        return string_of(chars_of("for $VAR in $ITER { $$$BODY }").as_slice());
    }
    if starts_with_str(s, "while ") {
        return string_of(chars_of("while $COND { $$$BODY }").as_slice());
    }
    let p = call_pattern_exec(s);
    string_of(p.as_slice())
}

/// The last index of `c` in `s`.
pub open spec fn last_index_of(s: Seq<char>, c: char) -> Option<int>
    decreases s.len(),
{
    if s.len() == 0 {
        None
    } else if s.last() == c {
        Some(s.len() - 1)
    } else {
        last_index_of(s.drop_last(), c)
    }
}

/// A simpler form of an ast-grep pattern that found nothing: a call with
/// its arguments generalised, or a member access with its receiver
/// generalised; `None` when there is no call or member access, or the
/// simpler form is the pattern itself.
pub open spec fn simpler_pattern(p: Seq<char>) -> Option<Seq<char>> {
    let s = if contains(p, seq!['(']) {
        Some(call_simplification(p.take(find(p, seq!['('])->0)))
    } else if contains(p, seq!['.']) {
        let idx = find(p, seq!['.'])->0;
        Some(member_simplification(p.take(idx), trim(p.skip(idx + 1))))
    } else {
        None
    };
    match s {
        Some(x) => if x == p {
            None
        } else {
            Some(x)
        },
        None => None,
    }
}

/// A call `name(...)` generalised: a method call keeps its method and
/// generalises a plain receiver; a function call keeps its trimmed name.
pub open spec fn call_simplification(name: Seq<char>) -> Seq<char> {
    match last_index_of(name, '.') {
        Some(d) => receiver_pattern(name.take(d)) + "."@ + name.skip(d + 1) + "($$$ARGS)"@,
        None => trim(name) + "($$$ARGS)"@,
    }
}

/// A member access `obj.rest` generalised: a plain receiver becomes `$VAL`,
/// and a call after the dot gets generalised arguments.
pub open spec fn member_simplification(obj: Seq<char>, rest: Seq<char>) -> Seq<char> {
    if contains(rest, seq!['(']) {
        receiver_pattern(obj) + "."@ + rest.take(find(rest, seq!['('])->0) + "($$$ARGS)"@
    } else {
        receiver_pattern(obj) + "."@ + rest
    }
}

fn last_index_exec(s: &[char], c: char) -> (r: Option<usize>)
    ensures
        r matches Some(i) ==> last_index_of(s@, c) == Some(i as int) && i < s@.len(),
        r is None ==> last_index_of(s@, c) is None,
{
    let mut n = s.len();
    assert(s@.take(n as int) =~= s@);
    while n > 0
        invariant
            n <= s@.len(),
            last_index_of(s@, c) == last_index_of(s@.take(n as int), c),
        decreases n,
    {
        assert(s@.take(n as int).last() == s@[n - 1]);
        if s[n - 1] == c {
            return Some(n - 1);
        }
        assert(s@.take(n as int).drop_last() =~= s@.take(n - 1));
        n -= 1;
    }
    None
}

fn call_simplification_exec(name: &[char]) -> (r: Vec<char>)
    ensures
        r@ == call_simplification(name@),
{
    let mut v: Vec<char> = Vec::new();
    match last_index_exec(name, '.') {
        Some(d) => {
            let obj = copy_range(name, 0, d);
            let o = receiver_pattern_exec(obj.as_slice());
            extend_from(&mut v, o.as_slice());
            push_str_chars(&mut v, ".");
            let nl = name.len();
            assert(d < nl);
            let m = copy_range(name, d + 1, nl);
            assert(m@ =~= name@.skip(d + 1));
            extend_from(&mut v, m.as_slice());
            push_str_chars(&mut v, "($$$ARGS)");
        },
        None => {
            let t = trimmed(name);
            extend_from(&mut v, t.as_slice());
            push_str_chars(&mut v, "($$$ARGS)");
        },
    }
    v
}

fn member_simplification_exec(obj: &[char], rest: &[char]) -> (r: Vec<char>)
    ensures
        r@ == member_simplification(obj@, rest@),
{
    let mut v: Vec<char> = Vec::new();
    let o = receiver_pattern_exec(obj);
    extend_from(&mut v, o.as_slice());
    push_str_chars(&mut v, ".");
    let f = find_char(rest, '(');
    match f {
        Some(k) => {
            let m = copy_range(rest, 0, k);
            extend_from(&mut v, m.as_slice());
            push_str_chars(&mut v, "($$$ARGS)");
        },
        None => {
            extend_from(&mut v, rest);
        },
    }
    v
}

/// A simpler form of an ast-grep pattern, where one exists.
pub fn simplify_pattern(pattern: &str) -> (r: Option<String>)
    ensures
        r matches Some(s) ==> simpler_pattern(pattern@) == Some(s@),
        r is None ==> simpler_pattern(pattern@) is None,
{
    let p = chars_of(pattern);
    let v = match find_char(p.as_slice(), '(') {
        Some(idx) => {
            let name = copy_range(p.as_slice(), 0, idx);
            call_simplification_exec(name.as_slice())
        },
        None => match find_char(p.as_slice(), '.') {
            Some(idx) => {
                let obj = copy_range(p.as_slice(), 0, idx);
                let pl = p.len();
                assert(idx < pl);
                let after = copy_range(p.as_slice(), idx + 1, pl);
                assert(after@ =~= p@.skip(idx + 1));
                let rest = trimmed(after.as_slice());
                member_simplification_exec(obj.as_slice(), rest.as_slice())
            },
            None => {
                return None;
            },
        },
    };
    if chars_eq(v.as_slice(), p.as_slice()) {
        None
    } else {
        Some(string_of(v.as_slice()))
    }
}

/// What is reported when the simpler pattern found matches.
pub open spec fn simpler_found_text(simplified: Seq<char>, count: nat, preview: Seq<char>) -> Seq<char> {
    "Simplified pattern '"@ + simplified + "' found "@ + decimal(count) + " match(es). First match:\n"@ + preview
}

/// The note that the simpler pattern found `count` matches, the first of
/// which reads `preview`.
pub fn simpler_found_message(simplified: &str, count: usize, preview: &str) -> (r: String)
    ensures
        r@ == simpler_found_text(simplified@, count as nat, preview@),
{
    let mut v: Vec<char> = Vec::new();
    push_str_chars(&mut v, "Simplified pattern '");
    push_str_chars(&mut v, simplified);
    push_str_chars(&mut v, "' found ");
    let d = decimal_chars(count as u128);
    extend_from(&mut v, d.as_slice());
    push_str_chars(&mut v, " match(es). First match:\n");
    push_str_chars(&mut v, preview);
    string_of(v.as_slice())
}

// ---------------------------------------------------------------------------
// Dependencies
// ---------------------------------------------------------------------------

/// The outside programs the tools use, each with the binaries that provide
/// it: `rg`, `fd`, `sg` (as `sg` or `ast-grep`), `cargo` and `git`.
pub open spec fn dependency_binaries() -> Seq<(&'static str, Seq<&'static str>)> {
    seq![("rg", seq!["rg"]), ("fd", seq!["fd"]), ("sg", seq!["sg", "ast-grep"]), ("cargo", seq!["cargo"]), ("git", seq!["git"])]
}

/// The binaries to probe, each once.
pub fn dependency_probes() -> (r: Vec<&'static str>)
    ensures
        r@ == seq!["rg", "fd", "sg", "ast-grep", "cargo", "git"],
{
    vec!["rg", "fd", "sg", "ast-grep", "cargo", "git"]
}

pub open spec fn available(found: Seq<Seq<char>>, bins: Seq<&'static str>) -> bool {
    exists|i: int| 0 <= i < bins.len() && found.contains(#[trigger] bins[i]@)
}

fn is_found(found: &Vec<String>, bin: &str) -> (r: bool)
    ensures
        r == views(found@).contains(bin@),
{
    let b = chars_of(bin);
    let mut i: usize = 0;
    while i < found.len()
        invariant
            i <= found@.len(),
            b@ == bin@,
            forall|k: int| 0 <= k < i ==> views(found@)[k] != bin@,
        decreases found.len() - i,
    {
        let c = chars_of(found[i].as_str());
        if chars_eq(c.as_slice(), b.as_slice()) {
            assert(views(found@)[i as int] == bin@);
            return true;
        }
        i += 1;
    }
    false
}

/// Which of the outside programs are available, given the binaries that
/// answered a probe.
pub fn check_tool_dependencies(found: &Vec<String>) -> (r: Vec<(&'static str, bool)>)
    ensures
        r@.len() == dependency_binaries().len(),
        forall|i: int|
            0 <= i < r@.len() ==> r@[i].0 == dependency_binaries()[i].0 && r@[i].1 == available(
                views(found@),
                dependency_binaries()[i].1,
            ),
{
    let rg = is_found(found, "rg");
    let fd = is_found(found, "fd");
    let sg = is_found(found, "sg") || is_found(found, "ast-grep");
    let cargo = is_found(found, "cargo");
    let git = is_found(found, "git");
    let r = vec![("rg", rg), ("fd", fd), ("sg", sg), ("cargo", cargo), ("git", git)];
    proof {
        let d = dependency_binaries();
        assert(d[0].1[0] == "rg");
        assert(rg == available(views(found@), d[0].1));
        assert(d[1].1[0] == "fd");
        assert(fd == available(views(found@), d[1].1));
        assert(d[2].1[0] == "sg" && d[2].1[1] == "ast-grep");
        assert(sg == available(views(found@), d[2].1));
        assert(d[3].1[0] == "cargo");
        assert(cargo == available(views(found@), d[3].1));
        assert(d[4].1[0] == "git");
        assert(git == available(views(found@), d[4].1));
    }
    r
}

// ---------------------------------------------------------------------------
// sed
// ---------------------------------------------------------------------------

/// How many times `f` occurs in `s`, left to right without overlap.
pub open spec fn count_occurrences(s: Seq<char>, f: Seq<char>) -> nat
    decreases s.len(),
{
    if f.len() == 0 || s.len() < f.len() {
        0
    } else if s.take(f.len() as int) == f {
        1 + count_occurrences(s.skip(f.len() as int), f)
    } else {
        count_occurrences(s.drop_first(), f)
    }
}

/// `s` with the first occurrence of `f` replaced by `r`.
pub open spec fn replace_first(s: Seq<char>, f: Seq<char>, r: Seq<char>) -> Seq<char> {
    match find(s, f) {
        Some(i) => s.take(i) + r + s.skip(i + f.len()),
        None => s,
    }
}

/// The edit that `sed` makes: every occurrence replaced (with their count)
/// or only the first; `None` when `find` does not occur.
pub fn sed_edit(content: &str, find_text: &str, replace: &str, all: bool) -> (r: Option<(String, usize)>)
    requires
        find_text@.len() > 0,
    ensures
        r is None <==> find(content@, find_text@) is None,
        r matches Some((s, n)) ==> if all {
            s@ == replace_all(content@, find_text@, replace@) && n == count_occurrences(content@, find_text@)
        } else {
            s@ == replace_first(content@, find_text@, replace@) && n == 1
        },
{
    let c = chars_of(content);
    let f = chars_of(find_text);
    let rp = chars_of(replace);
    let first = find_exec(c.as_slice(), f.as_slice());
    proof {
        lemma_find_from_spec(c@, f@, 0);
    }
    let i0 = match first {
        None => {
            return None;
        },
        Some(i) => i,
    };
    assert(occurs_at(c@, f@, i0 as int));
    let clen = c.len();
    assert(i0 + f.len() <= clen);
    if !all {
        let mut v = copy_range(c.as_slice(), 0, i0);
        extend_from(&mut v, rp.as_slice());
        let tail = copy_range(c.as_slice(), i0 + f.len(), c.len());
        extend_from(&mut v, tail.as_slice());
        assert(v@ =~= replace_first(content@, find_text@, replace@));
        return Some((string_of(v.as_slice()), 1));
    }
    let mut out: Vec<char> = Vec::new();
    let mut n: usize = 0;
    let mut i: usize = 0;
    assert(c@.skip(0) =~= c@);
    while i < c.len()
        invariant
            i <= c@.len(),
            f@.len() > 0,
            c@ == content@,
            f@ == find_text@,
            rp@ == replace@,
            out@ + replace_all(c@.skip(i as int), f@, rp@) == replace_all(c@, f@, rp@),
            n + count_occurrences(c@.skip(i as int), f@) == count_occurrences(c@, f@),
            n <= i,
        decreases c.len() - i,
    {
        let ghost rest = c@.skip(i as int);
        if c.len() - i < f.len() {
            let tail = copy_range(c.as_slice(), i, c.len());
            extend_from(&mut out, tail.as_slice());
            proof {
                assert(tail@ =~= rest);
                assert(c@.skip(c.len() as int) =~= Seq::<char>::empty());
                assert(out@ + replace_all(c@.skip(c.len() as int), f@, rp@) =~= replace_all(c@, f@, rp@));
            }
            i = c.len();
        } else if crate::text::occurs_at_exec(c.as_slice(), f.as_slice(), i) {
            proof {
                assert(rest.take(f@.len() as int) =~= c@.subrange(i as int, i + f@.len()));
                assert(rest.skip(f@.len() as int) =~= c@.skip(i + f@.len()));
            }
            extend_from(&mut out, rp.as_slice());
            i += f.len();
            n += 1;
            proof {
                assert(out@ + replace_all(c@.skip(i as int), f@, rp@) =~= replace_all(c@, f@, rp@));
            }
        } else {
            proof {
                assert(rest.take(f@.len() as int) =~= c@.subrange(i as int, i + f@.len()));
                assert(rest.drop_first() =~= c@.skip(i + 1));
                assert(rest[0] == c@[i as int]);
            }
            out.push(c[i]);
            i += 1;
            proof {
                assert(out@ + replace_all(c@.skip(i as int), f@, rp@) =~= replace_all(c@, f@, rp@));
            }
        }
    }
    assert(c@.skip(i as int) =~= Seq::<char>::empty());
    Some((string_of(out.as_slice()), n))
}

/// What `sed` reports after replacing.
pub open spec fn sed_report_text(count: nat, find_text: Seq<char>, path: Seq<char>) -> Seq<char> {
    "Replaced "@ + decimal(count) + " occurrence(s) of '"@ + find_text + "' in "@ + path
}

/// The report of a `sed` edit.
pub fn sed_report(count: usize, find_text: &str, path: &str) -> (r: String)
    ensures
        r@ == sed_report_text(count as nat, find_text@, path@),
{
    let mut v: Vec<char> = Vec::new();
    push_str_chars(&mut v, "Replaced ");
    let d = decimal_chars(count as u128);
    extend_from(&mut v, d.as_slice());
    push_str_chars(&mut v, " occurrence(s) of '");
    push_str_chars(&mut v, find_text);
    push_str_chars(&mut v, "' in ");
    push_str_chars(&mut v, path);
    string_of(v.as_slice())
}

// ---------------------------------------------------------------------------
// read
// ---------------------------------------------------------------------------

/// `n` spaces.
pub open spec fn spaces(n: nat) -> Seq<char> {
    Seq::new(n, |i: int| ' ')
}

/// `s` right-aligned in `w` columns (`{:>w}`), never cut.
pub open spec fn pad_left(s: Seq<char>, w: nat) -> Seq<char> {
    if s.len() >= w {
        s
    } else {
        spaces((w - s.len()) as nat) + s
    }
}

/// The first line shown: the requested one, at least 1 and at most one
/// past the last line.
pub open spec fn read_start(start_line: nat, total: nat) -> nat {
    let s = if start_line < 1 {
        1
    } else {
        start_line
    };
    if s > total + 1 {
        total + 1
    } else {
        s
    }
}

/// The last line shown: all when the request is 0, else the requested one
/// kept between the start and the last line.
pub open spec fn read_end(end_line: nat, start: nat, total: nat) -> nat {
    if end_line == 0 {
        total
    } else {
        let e = if end_line < start {
            start
        } else {
            end_line
        };
        if e > total {
            total
        } else {
            e
        }
    }
}

/// The numbered lines `first..` of `ls`, each as `{:>6} | line`.
pub open spec fn numbered(ls: Seq<Seq<char>>, first: nat) -> Seq<Seq<char>> {
    Seq::new(ls.len(), |i: int| pad_left(decimal((first + i) as nat), 6) + " | "@ + ls[i])
}

/// The text that `read` shows: a header, then the numbered lines.
pub open spec fn read_text(path: Seq<char>, content: Seq<char>, start_line: nat, end_line: nat) -> Seq<char> {
    let ls = lines(content);
    let total = ls.len();
    let start = read_start(start_line, total);
    let end = read_end(end_line, start, total);
    "File: "@ + path + " ("@ + decimal(total) + " lines total, showing "@ + decimal(start) + "-"@ + decimal(end) + ")"@
        + "\n"@ + join_lines(numbered(ls.subrange(start - 1, end as int), start))
}

/// What `read` shows of a file, with the first line number and the count
/// of lines.
pub struct ReadView {
    pub output: String,
    pub line_number: usize,
    pub total_lines: usize,
}

fn pad_left_exec(s: &[char], w: usize) -> (r: Vec<char>)
    ensures
        r@ == pad_left(s@, w as nat),
{
    let mut v: Vec<char> = Vec::new();
    if s.len() < w {
        let mut k: usize = 0;
        while k < w - s.len()
            invariant
                k <= w - s@.len(),
                s@.len() < w,
                v@ == spaces(k as nat),
            decreases w - s.len() - k,
        {
            v.push(' ');
            k += 1;
            assert(v@ =~= spaces(k as nat));
        }
    }
    extend_from(&mut v, s);
    assert(v@ =~= pad_left(s@, w as nat));
    v
}

/// The numbered view of lines `start_line..=end_line` of a file (`0` for
/// the end means all), as `read` shows it.
pub fn read_view(path: &str, content: &str, start_line: usize, end_line: usize) -> (r: ReadView)
    ensures
        r.output@ == read_text(path@, content@, start_line as nat, end_line as nat),
        r.total_lines == lines(content@).len(),
        r.line_number == read_start(start_line as nat, lines(content@).len()),
{
    let c = chars_of(content);
    let ls = split_lines(c.as_slice());
    let ghost lv = ls@.map_values(|l: Vec<char>| l@);
    let total = ls.len();
    let s1 = if start_line < 1 {
        1
    } else {
        start_line
    };
    let start = if s1 - 1 > total {
        total + 1
    } else {
        s1
    };
    let end = if end_line == 0 {
        total
    } else {
        let e = if end_line < start {
            start
        } else {
            end_line
        };
        if e > total {
            total
        } else {
            e
        }
    };
    let mut v: Vec<char> = Vec::new();
    push_str_chars(&mut v, "File: ");
    push_str_chars(&mut v, path);
    push_str_chars(&mut v, " (");
    extend_from(&mut v, decimal_chars(total as u128).as_slice());
    push_str_chars(&mut v, " lines total, showing ");
    extend_from(&mut v, decimal_chars(start as u128).as_slice());
    push_str_chars(&mut v, "-");
    extend_from(&mut v, decimal_chars(end as u128).as_slice());
    push_str_chars(&mut v, ")");
    push_str_chars(&mut v, "\n");
    let ghost head = v@;
    let ghost shown = numbered(lv.subrange(start - 1, end as int), start as nat);
    let mut i = start - 1;
    while i < end
        invariant
            start >= 1,
            start - 1 <= i <= end <= total,
            total == lv.len(),
            lv == ls@.map_values(|l: Vec<char>| l@),
            shown == numbered(lv.subrange(start - 1, end as int), start as nat),
            v@ == head + join_lines(shown.take(i - (start - 1))),
        decreases end - i,
    {
        let k = i - (start - 1);
        proof {
            assert(shown.take(k + 1).drop_last() =~= shown.take(k as int));
        }
        if i > start - 1 {
            v.push('\n');
        }
        let num = decimal_chars((i + 1) as u128);
        let p = pad_left_exec(num.as_slice(), 6);
        extend_from(&mut v, p.as_slice());
        push_str_chars(&mut v, " | ");
        extend_from(&mut v, ls[i].as_slice());
        proof {
            assert(shown[k as int] == pad_left(decimal((start + k) as nat), 6) + " | "@ + lv[i as int]);
            assert(start + k == i + 1);
            if k == 0 {
                assert(v@ =~= head + shown.take(1)[0]);
                assert(join_lines(shown.take(1)) == shown.take(1)[0]);
            } else {
                assert(v@ =~= head + (join_lines(shown.take(k as int)) + seq!['\n'] + shown.take(k + 1).last()));
            }
        }
        i += 1;
    }
    assert(shown.take(end - (start - 1)) =~= shown);
    ReadView { output: string_of(v.as_slice()), line_number: start, total_lines: total }
}

// ---------------------------------------------------------------------------
// grep
// ---------------------------------------------------------------------------

/// The arguments given to `rg`, before the pattern and the path.
pub open spec fn grep_flags(case_insensitive: bool, file_pattern: Seq<char>, max_results: nat) -> Seq<Seq<char>> {
    let base = seq!["--color"@, "never"@, "--heading"@, "-n"@, "-H"@, "-m"@, decimal(max_results)];
    let ci = if case_insensitive {
        base.push("-i"@)
    } else {
        base
    };
    if file_pattern.len() > 0 {
        ci.push("-g"@).push(file_pattern)
    } else {
        ci
    }
}

/// The arguments of `rg` for a search, ending with the pattern and the
/// path searched.
pub fn grep_args(pattern: &str, case_insensitive: bool, file_pattern: &str, max_results: u64, path: &str) -> (r: Vec<String>)
    ensures
        views(r@) == grep_flags(case_insensitive, file_pattern@, max_results as nat).push(pattern@).push(path@),
{
    let mut r: Vec<String> = Vec::new();
    r.push(string_of(chars_of("--color").as_slice()));
    r.push(string_of(chars_of("never").as_slice()));
    r.push(string_of(chars_of("--heading").as_slice()));
    r.push(string_of(chars_of("-n").as_slice()));
    r.push(string_of(chars_of("-H").as_slice()));
    r.push(string_of(chars_of("-m").as_slice()));
    r.push(string_of(decimal_chars(max_results as u128).as_slice()));
    if case_insensitive {
        r.push(string_of(chars_of("-i").as_slice()));
    }
    let fp = chars_of(file_pattern);
    if fp.len() > 0 {
        r.push(string_of(chars_of("-g").as_slice()));
        r.push(string_of(fp.as_slice()));
    }
    r.push(string_of(chars_of(pattern).as_slice()));
    r.push(string_of(chars_of(path).as_slice()));
    assert(views(r@) =~= grep_flags(case_insensitive, file_pattern@, max_results as nat).push(pattern@).push(path@));
    r
}

/// How a finished `rg` run is reported.
#[derive(Debug, Clone)]
pub enum GrepOutcome {
    /// The output as found.
    Output(String),
    /// A note that nothing matched.
    NoMatches(String),
    /// The failure, with `rg`'s error text.
    Failed(String),
}

pub open spec fn grep_outcome_spec(
    success: bool,
    code: Option<i32>,
    stdout: Seq<char>,
    stderr: Seq<char>,
    pattern: Seq<char>,
    path: Seq<char>,
) -> (int, Seq<char>) {
    if success || trim(stdout).len() > 0 {
        (0, stdout)
    } else if code == Some(1i32) && trim(stderr).len() == 0 {
        (1, "No matches found for '"@ + pattern + "' in "@ + path)
    } else {
        (2, "rg failed: "@ + trim(stderr))
    }
}

pub open spec fn outcome_view(o: GrepOutcome) -> (int, Seq<char>) {
    match o {
        GrepOutcome::Output(s) => (0, s@),
        GrepOutcome::NoMatches(s) => (1, s@),
        GrepOutcome::Failed(s) => (2, s@),
    }
}

/// Reads a finished `rg` run: its output when it succeeded or printed
/// anything; a note when it found nothing (exit code 1, no error text);
/// else a failure with its error text.
pub fn grep_outcome(success: bool, code: Option<i32>, stdout: &str, stderr: &str, pattern: &str, path: &str) -> (r: GrepOutcome)
    ensures
        outcome_view(r) == grep_outcome_spec(success, code, stdout@, stderr@, pattern@, path@),
{
    let out = chars_of(stdout);
    let err = chars_of(stderr);
    let to = trimmed(out.as_slice());
    let te = trimmed(err.as_slice());
    if success || to.len() > 0 {
        return GrepOutcome::Output(string_of(out.as_slice()));
    }
    let one = match code {
        Some(c) => c == 1,
        None => false,
    };
    if one && te.len() == 0 {
        let mut v: Vec<char> = Vec::new();
        push_str_chars(&mut v, "No matches found for '");
        push_str_chars(&mut v, pattern);
        push_str_chars(&mut v, "' in ");
        push_str_chars(&mut v, path);
        return GrepOutcome::NoMatches(string_of(v.as_slice()));
    }
    let mut v: Vec<char> = Vec::new();
    push_str_chars(&mut v, "rg failed: ");
    extend_from(&mut v, te.as_slice());
    GrepOutcome::Failed(string_of(v.as_slice()))
}

// ---------------------------------------------------------------------------
// ast-grep output
// ---------------------------------------------------------------------------

/// `str::splitn(n, ':')`: at most `n` pieces, the last one holding the rest.
pub open spec fn split_colon(s: Seq<char>, n: nat) -> Seq<Seq<char>>
    decreases n,
{
    if n <= 1 {
        seq![s]
    } else {
        match find(s, seq![':']) {
            Some(i) => seq![s.take(i)] + split_colon(s.skip(i + 1), (n - 1) as nat),
            None => seq![s],
        }
    }
}

/// One line of `ast-grep` output: a located match (`file:line:col:text`)
/// or plain text.
#[derive(Debug, Clone)]
pub enum AstGrepMatch {
    Located { file: String, line: String, col: String, text: String },
    Text(String),
}

pub open spec fn match_view(m: AstGrepMatch) -> Seq<Seq<char>> {
    match m {
        AstGrepMatch::Located { file, line, col, text } => seq![file@, line@, col@, text@],
        AstGrepMatch::Text(t) => seq![t@],
    }
}

/// The matches read from `ast-grep` output lines: a line that splits into
/// four pieces at its first three colons is located, any other non-empty
/// line is text.
pub open spec fn grep_matches(ls: Seq<Seq<char>>) -> Seq<Seq<Seq<char>>>
    decreases ls.len(),
{
    if ls.len() == 0 {
        Seq::empty()
    } else {
        let rest = grep_matches(ls.drop_last());
        let parts = split_colon(ls.last(), 4);
        if parts.len() >= 4 {
            rest.push(parts)
        } else if ls.last().len() > 0 {
            rest.push(seq![ls.last()])
        } else {
            rest
        }
    }
}

fn split_colon_exec(s: &[char], n: usize) -> (r: Vec<Vec<char>>)
    ensures
        r@.map_values(|p: Vec<char>| p@) == split_colon(s@, n as nat),
    decreases n,
{
    if n <= 1 {
        let v = vec![copy_range(s, 0, s.len())];
        assert(s@.subrange(0, s@.len() as int) =~= s@);
        assert(v@.map_values(|p: Vec<char>| p@) =~= seq![s@]);
        return v;
    }
    let f = find_char(s, ':');
    match f {
        Some(i) => {
            let sl = s.len();
            assert(i < sl);
            let head = copy_range(s, 0, i);
            let tail = copy_range(s, i + 1, sl);
            let rest = split_colon_exec(tail.as_slice(), n - 1);
            let mut v: Vec<Vec<char>> = Vec::new();
            v.push(head);
            let mut k: usize = 0;
            let ghost rv = rest@.map_values(|p: Vec<char>| p@);
            assert(head@ =~= s@.take(i as int));
            assert(v@.map_values(|p: Vec<char>| p@) =~= seq![s@.take(i as int)] + rv.take(0));
            while k < rest.len()
                invariant
                    k <= rest@.len(),
                    rv == rest@.map_values(|p: Vec<char>| p@),
                    v@.map_values(|p: Vec<char>| p@) == seq![s@.take(i as int)] + rv.take(k as int),
                decreases rest.len() - k,
            {
                let ghost before = v@.map_values(|p: Vec<char>| p@);
                let piece = crate::text::clone_chars(&rest[k]);
                assert(piece@ == rv[k as int]);
                v.push(piece);
                assert(v@.map_values(|p: Vec<char>| p@) =~= before.push(rv[k as int]));
                k += 1;
                assert(v@.map_values(|p: Vec<char>| p@) =~= seq![s@.take(i as int)] + rv.take(k as int));
            }
            assert(rv.take(rest.len() as int) =~= rv);
            assert(tail@ =~= s@.skip(i + 1));
            v
        },
        None => {
            let v = vec![copy_range(s, 0, s.len())];
            assert(s@.subrange(0, s@.len() as int) =~= s@);
            assert(v@.map_values(|p: Vec<char>| p@) =~= seq![s@]);
            v
        },
    }
}

/// The matches in the output of an `ast-grep` search.
pub fn parse_ast_grep_output(stdout: &str) -> (r: Vec<AstGrepMatch>)
    ensures
        r@.map_values(|m: AstGrepMatch| match_view(m)) == grep_matches(lines(stdout@)),
{
    let c = chars_of(stdout);
    let ls = split_lines(c.as_slice());
    let ghost lv = ls@.map_values(|l: Vec<char>| l@);
    let mut r: Vec<AstGrepMatch> = Vec::new();
    let mut i: usize = 0;
    while i < ls.len()
        invariant
            i <= ls@.len(),
            lv == ls@.map_values(|l: Vec<char>| l@),
            r@.map_values(|m: AstGrepMatch| match_view(m)) == grep_matches(lv.take(i as int)),
        decreases ls.len() - i,
    {
        proof {
            assert(lv.take(i + 1).drop_last() =~= lv.take(i as int));
            assert(lv.take(i + 1).last() == ls@[i as int]@);
        }
        let parts = split_colon_exec(ls[i].as_slice(), 4);
        let ghost pv = parts@.map_values(|p: Vec<char>| p@);
        let ghost before = r@.map_values(|m: AstGrepMatch| match_view(m));
        if parts.len() >= 4 {
            proof {
                assert(parts@.len() <= 4) by {
                    lemma_split_colon_len(ls@[i as int]@, 4);
                }
            }
            let m = AstGrepMatch::Located {
                file: string_of(parts[0].as_slice()),
                line: string_of(parts[1].as_slice()),
                col: string_of(parts[2].as_slice()),
                text: string_of(parts[3].as_slice()),
            };
            assert(match_view(m) =~= pv);
            r.push(m);
            assert(r@.map_values(|m: AstGrepMatch| match_view(m)) =~= before.push(pv));
        } else if ls[i].len() > 0 {
            let m = AstGrepMatch::Text(string_of(ls[i].as_slice()));
            r.push(m);
            assert(r@.map_values(|m: AstGrepMatch| match_view(m)) =~= before.push(seq![lv[i as int]]));
        }
        i += 1;
    }
    assert(lv.take(ls.len() as int) =~= lv);
    r
}

proof fn lemma_split_colon_len(s: Seq<char>, n: nat)
    ensures
        split_colon(s, n).len() <= if n == 0 {
            1
        } else {
            n
        },
        split_colon(s, n).len() >= 1,
    decreases n,
{
    if n > 1 {
        match find(s, seq![':']) {
            Some(i) => lemma_split_colon_len(s.skip(i + 1), (n - 1) as nat),
            None => {},
        }
    }
}

} // verus!
