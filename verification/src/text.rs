//! Character-level text model: strings are handled as sequences of `char`,
//! with the line splitting, trimming and searching that the rest of the
//! library relies on.

use vstd::prelude::*;

verus! {

broadcast use vstd::string::group_string_axioms;

// ---------------------------------------------------------------------------
// Specifications
// ---------------------------------------------------------------------------

/// The Unicode `White_Space` property, which is what `char::is_whitespace`
/// tests.
pub open spec fn is_ws(c: char) -> bool {
    let u = c as u32;
    ||| 0x09 <= u <= 0x0D
    ||| u == 0x20
    ||| u == 0x85
    ||| u == 0xA0
    ||| u == 0x1680
    ||| 0x2000 <= u <= 0x200A
    ||| u == 0x2028
    ||| u == 0x2029
    ||| u == 0x202F
    ||| u == 0x205F
    ||| u == 0x3000
}

/// `s` without its leading whitespace.
pub open spec fn trim_start(s: Seq<char>) -> Seq<char>
    decreases s.len(),
{
    if s.len() > 0 && is_ws(s[0]) {
        trim_start(s.drop_first())
    } else {
        s
    }
}

/// `s` without its trailing whitespace.
pub open spec fn trim_end(s: Seq<char>) -> Seq<char>
    decreases s.len(),
{
    if s.len() > 0 && is_ws(s.last()) {
        trim_end(s.drop_last())
    } else {
        s
    }
}

/// `s` without leading and trailing whitespace.
pub open spec fn trim(s: Seq<char>) -> Seq<char> {
    trim_end(trim_start(s))
}

pub open spec fn starts_with(s: Seq<char>, p: Seq<char>) -> bool {
    p.len() <= s.len() && s.take(p.len() as int) == p
}

pub open spec fn ends_with(s: Seq<char>, p: Seq<char>) -> bool {
    p.len() <= s.len() && s.skip(s.len() - p.len()) == p
}

/// `p` occurs in `s` starting at index `i`.
pub open spec fn occurs_at(s: Seq<char>, p: Seq<char>, i: int) -> bool {
    0 <= i && i + p.len() <= s.len() && s.subrange(i, i + p.len()) == p
}

/// The first index at or after `start` where `p` occurs in `s`.
pub open spec fn find_from(s: Seq<char>, p: Seq<char>, start: int) -> Option<int>
    decreases s.len() + 1 - start,
{
    if start < 0 || start + p.len() > s.len() {
        None
    } else if occurs_at(s, p, start) {
        Some(start)
    } else {
        find_from(s, p, start + 1)
    }
}

/// The first index where `p` occurs in `s`, as `str::find` reports it
/// (counted in characters).
pub open spec fn find(s: Seq<char>, p: Seq<char>) -> Option<int> {
    find_from(s, p, 0)
}

pub open spec fn contains(s: Seq<char>, p: Seq<char>) -> bool {
    find(s, p) is Some
}

/// `str::replace`: every occurrence of `from`, left to right and without
/// overlap, replaced by `to` (an empty `from` puts `to` around every
/// character).
pub open spec fn replace_all(s: Seq<char>, from: Seq<char>, to: Seq<char>) -> Seq<char>
    decreases s.len(),
{
    if from.len() == 0 {
        if s.len() == 0 {
            to
        } else {
            to + seq![s[0]] + replace_all(s.drop_first(), from, to)
        }
    } else if s.len() < from.len() {
        s
    } else if s.take(from.len() as int) == from {
        to + replace_all(s.skip(from.len() as int), from, to)
    } else {
        seq![s[0]] + replace_all(s.drop_first(), from, to)
    }
}

/// Drops one `'\r'` at the end of a line that was ended by `'\n'`.
pub open spec fn strip_cr(line: Seq<char>) -> Seq<char> {
    if line.len() > 0 && line.last() == '\r' {
        line.drop_last()
    } else {
        line
    }
}

/// The complete lines of `s` so far, and the text after the last `'\n'`.
pub open spec fn lines_acc(s: Seq<char>) -> (Seq<Seq<char>>, Seq<char>)
    decreases s.len(),
{
    if s.len() == 0 {
        (Seq::empty(), Seq::empty())
    } else {
        let (done, cur) = lines_acc(s.drop_last());
        if s.last() == '\n' {
            (done.push(strip_cr(cur)), Seq::empty())
        } else {
            (done, cur.push(s.last()))
        }
    }
}

/// The lines of `s`, as `str::lines` yields them: split at `'\n'`, a `'\r'`
/// before the `'\n'` dropped, and no empty line after a final `'\n'`.
pub open spec fn lines(s: Seq<char>) -> Seq<Seq<char>> {
    let (done, cur) = lines_acc(s);
    if cur.len() == 0 {
        done
    } else {
        done.push(cur)
    }
}

/// The lines joined with `'\n'` between them (`[&str]::join("\n")`).
pub open spec fn join_lines(ls: Seq<Seq<char>>) -> Seq<char>
    decreases ls.len(),
{
    if ls.len() == 0 {
        Seq::empty()
    } else if ls.len() == 1 {
        ls[0]
    } else {
        join_lines(ls.drop_last()) + seq!['\n'] + ls.last()
    }
}

/// The views of a sequence of strings.
pub open spec fn views(v: Seq<String>) -> Seq<Seq<char>> {
    v.map_values(|s: String| s@)
}


/// `s` without leading copies of `c`.
pub open spec fn strip_start_char(s: Seq<char>, c: char) -> Seq<char>
    decreases s.len(),
{
    if s.len() > 0 && s[0] == c {
        strip_start_char(s.drop_first(), c)
    } else {
        s
    }
}

/// `s` without trailing copies of `c`.
pub open spec fn strip_end_char(s: Seq<char>, c: char) -> Seq<char>
    decreases s.len(),
{
    if s.len() > 0 && s.last() == c {
        strip_end_char(s.drop_last(), c)
    } else {
        s
    }
}

/// `str::trim_matches(c)`.
pub open spec fn trim_matches(s: Seq<char>, c: char) -> Seq<char> {
    strip_end_char(strip_start_char(s, c), c)
}

/// The views of a sequence of character vectors.
pub open spec fn lviews(v: Seq<Vec<char>>) -> Seq<Seq<char>> {
    v.map_values(|l: Vec<char>| l@)
}

/// The lines without the empty lines at their end.
pub open spec fn drop_trailing_empty(ls: Seq<Seq<char>>) -> Seq<Seq<char>>
    decreases ls.len(),
{
    if ls.len() > 0 && ls.last().len() == 0 {
        drop_trailing_empty(ls.drop_last())
    } else {
        ls
    }
}

// ---------------------------------------------------------------------------
// Lemmas
// ---------------------------------------------------------------------------

pub proof fn lemma_trim_start_skip(s: Seq<char>, a: int)
    requires
        0 <= a <= s.len(),
        forall|j: int| 0 <= j < a ==> is_ws(#[trigger] s[j]),
        a == s.len() || !is_ws(s[a]),
    ensures
        trim_start(s) == s.skip(a),
    decreases a,
{
    if a == 0 {
        assert(s.skip(0) =~= s);
    } else {
        let t = s.drop_first();
        assert forall|j: int| 0 <= j < a - 1 implies is_ws(#[trigger] t[j]) by {
            assert(t[j] == s[j + 1]);
        }
        if a - 1 < t.len() {
            assert(t[a - 1] == s[a]);
        }
        lemma_trim_start_skip(t, a - 1);
        assert(t.skip(a - 1) =~= s.skip(a));
    }
}

pub proof fn lemma_trim_end_take(s: Seq<char>, b: int)
    requires
        0 <= b <= s.len(),
        forall|j: int| b <= j < s.len() ==> is_ws(#[trigger] s[j]),
        b == 0 || !is_ws(s[b - 1]),
    ensures
        trim_end(s) == s.take(b),
    decreases s.len() - b,
{
    if b == s.len() {
        assert(s.take(b) =~= s);
    } else {
        let t = s.drop_last();
        assert forall|j: int| b <= j < t.len() implies is_ws(#[trigger] t[j]) by {
            assert(t[j] == s[j]);
        }
        if b > 0 {
            assert(t[b - 1] == s[b - 1]);
        }
        lemma_trim_end_take(t, b);
        assert(t.take(b) =~= s.take(b));
    }
}

pub proof fn lemma_find_from_skip(s: Seq<char>, p: Seq<char>, start: int)
    requires
        0 <= start,
        start + p.len() <= s.len(),
        !occurs_at(s, p, start),
    ensures
        find_from(s, p, start) == find_from(s, p, start + 1),
{
}

/// What `find_from` returns is an occurrence, and none comes before it.
pub proof fn lemma_find_from_spec(s: Seq<char>, p: Seq<char>, start: int)
    requires
        0 <= start,
    ensures
        find_from(s, p, start) matches Some(i) ==> {
            &&& start <= i
            &&& occurs_at(s, p, i)
            &&& forall|j: int| start <= j < i ==> !occurs_at(s, p, j)
        },
        find_from(s, p, start) is None ==> forall|j: int| start <= j ==> !occurs_at(s, p, j),
    decreases s.len() + 1 - start,
{
    if start + p.len() > s.len() {
    } else if occurs_at(s, p, start) {
    } else {
        lemma_find_from_spec(s, p, start + 1);
        if let Some(i) = find_from(s, p, start) {
            assert forall|j: int| start <= j < i implies !occurs_at(s, p, j) by {
                if j > start {
                }
            }
        } else {
            assert forall|j: int| start <= j implies !occurs_at(s, p, j) by {
                if j > start {
                }
            }
        }
    }
}

pub proof fn lemma_join_lines_push(ls: Seq<Seq<char>>, l: Seq<char>)
    requires
        ls.len() > 0,
    ensures
        join_lines(ls.push(l)) == join_lines(ls) + seq!['\n'] + l,
{
    assert(ls.push(l).drop_last() =~= ls);
}

// ---------------------------------------------------------------------------
// Conversions
// ---------------------------------------------------------------------------

/// Collects the characters of `s`.
pub fn chars_of(s: &str) -> (r: Vec<char>)
    ensures
        r@ == s@,
{
    let mut r: Vec<char> = Vec::new();
    for c in it: s.chars()
        invariant
            r@ == it.seq().take(it.index() as int),
            it.seq() == s@,
    {
        r.push(c);
    }
    r
}

/// `String::push`: appends one character.
#[verifier::external_body]
pub(crate) fn push_char(s: &mut String, c: char)
    ensures
        final(s)@ == old(s)@.push(c),
{
    s.push(c);
}

/// Builds a `String` from characters.
pub fn string_of(v: &[char]) -> (r: String)
    ensures
        r@ == v@,
{
    let mut r = String::new();
    let mut i: usize = 0;
    while i < v.len()
        invariant
            i <= v.len(),
            r@ == v@.take(i as int),
        decreases v.len() - i,
    {
        push_char(&mut r, v[i]);
        i += 1;
        assert(v@.take(i as int) =~= v@.take(i - 1).push(v@[i - 1]));
    }
    assert(v@.take(v.len() as int) =~= v@);
    r
}

/// Appends the characters of `other` to `s`.
pub fn append_chars(s: &mut String, other: &[char])
    ensures
        final(s)@ == old(s)@ + other@,
{
    let mut i: usize = 0;
    while i < other.len()
        invariant
            i <= other.len(),
            s@ == old(s)@ + other@.take(i as int),
        decreases other.len() - i,
    {
        push_char(s, other[i]);
        i += 1;
        assert(other@.take(i as int) =~= other@.take(i - 1).push(other@[i - 1]));
    }
    assert(other@.take(other.len() as int) =~= other@);
}

/// Copies `v[a..b]`.
pub fn copy_range<T: Copy>(v: &[T], a: usize, b: usize) -> (r: Vec<T>)
    requires
        a <= b <= v.len(),
    ensures
        r@ == v@.subrange(a as int, b as int),
{
    let mut r: Vec<T> = Vec::new();
    let mut i = a;
    while i < b
        invariant
            a <= i <= b <= v.len(),
            r@ == v@.subrange(a as int, i as int),
        decreases b - i,
    {
        r.push(v[i]);
        i += 1;
        assert(v@.subrange(a as int, i as int) =~= v@.subrange(a as int, i - 1).push(v@[i - 1]));
    }
    r
}

/// A copy of `v`.
pub fn clone_chars(v: &Vec<char>) -> (r: Vec<char>)
    ensures
        r@ == v@,
{
    let r = copy_range(v.as_slice(), 0, v.len());
    assert(v@.subrange(0, v@.len() as int) =~= v@);
    r
}

/// Appends `w` to `v`.
pub fn extend_from<T: Copy>(v: &mut Vec<T>, w: &[T])
    ensures
        final(v)@ == old(v)@ + w@,
{
    let mut i: usize = 0;
    while i < w.len()
        invariant
            i <= w.len(),
            v@ == old(v)@ + w@.take(i as int),
        decreases w.len() - i,
    {
        v.push(w[i]);
        i += 1;
        assert(w@.take(i as int) =~= w@.take(i - 1).push(w@[i - 1]));
    }
    assert(w@.take(w.len() as int) =~= w@);
}

/// `str::replace` on characters.
pub fn replace_all_exec(s: &[char], from: &[char], to: &[char]) -> (r: Vec<char>)
    ensures
        r@ == replace_all(s@, from@, to@),
{
    let mut out: Vec<char> = Vec::new();
    let mut i: usize = 0;
    assert(s@.skip(0) =~= s@);
    assert(out@ + replace_all(s@, from@, to@) =~= replace_all(s@, from@, to@));
    if from.len() == 0 {
        while i < s.len()
            invariant
                i <= s.len(),
                from@.len() == 0,
                out@ + replace_all(s@.skip(i as int), from@, to@) == replace_all(s@, from@, to@),
            decreases s.len() - i,
        {
            proof {
                assert(s@.skip(i as int).drop_first() =~= s@.skip(i + 1));
                assert(s@.skip(i as int)[0] == s@[i as int]);
            }
            extend_from(&mut out, to);
            out.push(s[i]);
            i += 1;
            proof {
                assert(out@ + replace_all(s@.skip(i as int), from@, to@) =~= replace_all(s@, from@, to@));
            }
        }
        extend_from(&mut out, to);
        assert(s@.skip(i as int) =~= Seq::<char>::empty());
        return out;
    }
    while i < s.len()
        invariant
            i <= s.len(),
            from@.len() > 0,
            out@ + replace_all(s@.skip(i as int), from@, to@) == replace_all(s@, from@, to@),
        decreases s.len() - i,
    {
        let ghost rest = s@.skip(i as int);
        if s.len() - i < from.len() {
            let tail = copy_range(s, i, s.len());
            extend_from(&mut out, tail.as_slice());
            proof {
                assert(tail@ =~= rest);
                assert(s@.skip(s.len() as int) =~= Seq::<char>::empty());
                assert(out@ + replace_all(s@.skip(s.len() as int), from@, to@) =~= replace_all(s@, from@, to@));
            }
            i = s.len();
        } else if occurs_at_exec(s, from, i) {
            proof {
                assert(rest.take(from@.len() as int) =~= s@.subrange(i as int, i + from@.len()));
                assert(rest.skip(from@.len() as int) =~= s@.skip(i + from@.len()));
            }
            extend_from(&mut out, to);
            i += from.len();
            proof {
                assert(out@ + replace_all(s@.skip(i as int), from@, to@) =~= replace_all(s@, from@, to@));
            }
        } else {
            proof {
                assert(rest.take(from@.len() as int) =~= s@.subrange(i as int, i + from@.len()));
                assert(rest.drop_first() =~= s@.skip(i + 1));
                assert(rest[0] == s@[i as int]);
            }
            out.push(s[i]);
            i += 1;
            proof {
                assert(out@ + replace_all(s@.skip(i as int), from@, to@) =~= replace_all(s@, from@, to@));
            }
        }
    }
    assert(s@.skip(i as int) =~= Seq::<char>::empty());
    out
}

/// Appends the characters of `s` to `v`.
pub fn push_str_chars(v: &mut Vec<char>, s: &str)
    ensures
        final(v)@ == old(v)@ + s@,
{
    let c = chars_of(s);
    extend_from(v, c.as_slice());
}

// ---------------------------------------------------------------------------
// Character tests and searches
// ---------------------------------------------------------------------------

/// `char::is_whitespace`.
pub fn is_whitespace(c: char) -> (r: bool)
    ensures
        r == is_ws(c),
{
    let u = c as u32;
    (0x09 <= u && u <= 0x0D) || u == 0x20 || u == 0x85 || u == 0xA0 || u == 0x1680 || (0x2000
        <= u && u <= 0x200A) || u == 0x2028 || u == 0x2029 || u == 0x202F || u == 0x205F || u
        == 0x3000
}

/// The bounds `(a, b)` with `s[a..b]` equal to `trim(s)`.
pub fn trim_bounds(s: &[char]) -> (r: (usize, usize))
    ensures
        r.0 <= r.1 <= s.len(),
        s@.subrange(r.0 as int, r.1 as int) == trim(s@),
        trim_start(s@) == s@.skip(r.0 as int),
{
    let mut a: usize = 0;
    while a < s.len() && is_whitespace(s[a])
        invariant
            a <= s.len(),
            forall|j: int| 0 <= j < a ==> is_ws(#[trigger] s@[j]),
        decreases s.len() - a,
    {
        a += 1;
    }
    proof {
        lemma_trim_start_skip(s@, a as int);
    }
    let mut b: usize = s.len();
    while b > a && is_whitespace(s[b - 1])
        invariant
            a <= b <= s.len(),
            forall|j: int| b <= j < s.len() ==> is_ws(#[trigger] s@[j]),
        decreases b,
    {
        b -= 1;
    }
    proof {
        let t = s@.skip(a as int);
        assert forall|j: int| b - a <= j < t.len() implies is_ws(#[trigger] t[j]) by {
            assert(t[j] == s@[a + j]);
        }
        if b > a {
            assert(t[b - a - 1] == s@[b - 1]);
        }
        lemma_trim_end_take(t, b - a);
        assert(t.take(b - a) =~= s@.subrange(a as int, b as int));
    }
    (a, b)
}

/// `trim(s)`.
pub fn trimmed(s: &[char]) -> (r: Vec<char>)
    ensures
        r@ == trim(s@),
{
    let (a, b) = trim_bounds(s);
    copy_range(s, a, b)
}

/// `trim_start(s)`.
pub fn trimmed_start(s: &[char]) -> (r: Vec<char>)
    ensures
        r@ == trim_start(s@),
{
    let (a, _b) = trim_bounds(s);
    copy_range(s, a, s.len())
}

/// `trim_end(s)`.
pub fn trimmed_end(s: &[char]) -> (r: Vec<char>)
    ensures
        r@ == trim_end(s@),
{
    let mut b: usize = s.len();
    while b > 0 && is_whitespace(s[b - 1])
        invariant
            b <= s.len(),
            forall|j: int| b <= j < s.len() ==> is_ws(#[trigger] s@[j]),
        decreases b,
    {
        b -= 1;
    }
    proof {
        lemma_trim_end_take(s@, b as int);
    }
    copy_range(s, 0, b)
}

/// `p` occurs in `s` at `i`.
pub fn occurs_at_exec(s: &[char], p: &[char], i: usize) -> (r: bool)
    ensures
        r == occurs_at(s@, p@, i as int),
{
    if i > s.len() || p.len() > s.len() - i {
        return false;
    }
    let mut k: usize = 0;
    while k < p.len()
        invariant
            k <= p.len(),
            i + p.len() <= s.len(),
            forall|j: int| 0 <= j < k ==> s@[i + j] == p@[j],
        decreases p.len() - k,
    {
        if s[i + k] != p[k] {
            assert(s@.subrange(i as int, i + p.len())[k as int] != p@[k as int]);
            return false;
        }
        k += 1;
    }
    assert(s@.subrange(i as int, i + p.len()) =~= p@);
    true
}

pub fn starts_with_exec(s: &[char], p: &[char]) -> (r: bool)
    ensures
        r == starts_with(s@, p@),
{
    let r = occurs_at_exec(s, p, 0);
    proof {
        if p@.len() <= s@.len() {
            assert(s@.subrange(0, p@.len() as int) =~= s@.take(p@.len() as int));
        }
    }
    r
}

pub fn ends_with_exec(s: &[char], p: &[char]) -> (r: bool)
    ensures
        r == ends_with(s@, p@),
{
    if p.len() > s.len() {
        return false;
    }
    let r = occurs_at_exec(s, p, s.len() - p.len());
    proof {
        assert(s@.subrange(s@.len() - p@.len(), s@.len() as int) =~= s@.skip(
            s@.len() - p@.len(),
        ));
    }
    r
}

/// The first occurrence of `p` in `s` at or after `start`.
pub fn find_from_exec(s: &[char], p: &[char], start: usize) -> (r: Option<usize>)
    ensures
        r matches Some(i) ==> find_from(s@, p@, start as int) == Some(i as int),
        r is None ==> find_from(s@, p@, start as int) is None,
{
    if p.len() == 0 {
        if start <= s.len() {
            assert(s@.subrange(start as int, start as int) =~= p@);
            return Some(start);
        }
        return None;
    }
    let mut i = start;
    while i < s.len() && p.len() <= s.len() - i
        invariant
            start <= i,
            p.len() > 0,
            find_from(s@, p@, start as int) == find_from(s@, p@, i as int),
        decreases s.len() + 1 - i,
    {
        if occurs_at_exec(s, p, i) {
            return Some(i);
        }
        proof {
            lemma_find_from_skip(s@, p@, i as int);
        }
        i += 1;
    }
    None
}

pub fn find_exec(s: &[char], p: &[char]) -> (r: Option<usize>)
    ensures
        r matches Some(i) ==> find(s@, p@) == Some(i as int),
        r is None ==> find(s@, p@) is None,
{
    find_from_exec(s, p, 0)
}

pub fn contains_exec(s: &[char], p: &[char]) -> (r: bool)
    ensures
        r == contains(s@, p@),
{
    find_exec(s, p).is_some()
}

pub fn contains_char(s: &[char], c: char) -> (r: bool)
    ensures
        r == s@.contains(c),
{
    let mut i: usize = 0;
    while i < s.len()
        invariant
            i <= s.len(),
            forall|j: int| 0 <= j < i ==> s@[j] != c,
        decreases s.len() - i,
    {
        if s[i] == c {
            return true;
        }
        i += 1;
    }
    false
}


/// `trim_matches(s, c)`.
pub fn trim_matches_exec(s: &[char], c: char) -> (r: Vec<char>)
    ensures
        r@ == trim_matches(s@, c),
{
    let mut a: usize = 0;
    assert(s@.skip(0) =~= s@);
    while a < s.len() && s[a] == c
        invariant
            a <= s.len(),
            strip_start_char(s@, c) == strip_start_char(s@.skip(a as int), c),
        decreases s.len() - a,
    {
        assert(s@.skip(a as int).drop_first() =~= s@.skip(a + 1));
        a += 1;
    }
    assert(s@.subrange(a as int, s.len() as int) =~= s@.skip(a as int));
    let mut b: usize = s.len();
    while b > a && s[b - 1] == c
        invariant
            a <= b <= s.len(),
            strip_start_char(s@, c) == s@.skip(a as int),
            trim_matches(s@, c) == strip_end_char(s@.subrange(a as int, b as int), c),
        decreases b,
    {
        assert(s@.subrange(a as int, b as int).drop_last() =~= s@.subrange(a as int, b - 1));
        b -= 1;
    }
    copy_range(s, a, b)
}

/// Drops the empty lines at the end of `v`.
pub fn drop_trailing_empty_exec(v: &mut Vec<Vec<char>>)
    ensures
        lviews(final(v)@) == drop_trailing_empty(lviews(old(v)@)),
{
    while v.len() > 0 && v[v.len() - 1].len() == 0
        invariant
            drop_trailing_empty(lviews(old(v)@)) == drop_trailing_empty(lviews(v@)),
        decreases v.len(),
    {
        let ghost before = v@;
        v.pop();
        assert(lviews(before).drop_last() =~= lviews(v@));
    }
}


/// Character-wise equality.
pub fn chars_eq(a: &[char], b: &[char]) -> (r: bool)
    ensures
        r == (a@ == b@),
{
    if a.len() != b.len() {
        return false;
    }
    let mut i: usize = 0;
    while i < a.len()
        invariant
            i <= a.len(),
            a.len() == b.len(),
            forall|j: int| 0 <= j < i ==> a@[j] == b@[j],
        decreases a.len() - i,
    {
        if a[i] != b[i] {
            return false;
        }
        i += 1;
    }
    assert(a@ =~= b@);
    true
}

// ---------------------------------------------------------------------------
// Lines
// ---------------------------------------------------------------------------

/// Splits `s` into lines as `str::lines` does.
pub fn split_lines(s: &[char]) -> (r: Vec<Vec<char>>)
    ensures
        r@.map_values(|l: Vec<char>| l@) == lines(s@),
{
    let mut done: Vec<Vec<char>> = Vec::new();
    let mut cur: Vec<char> = Vec::new();
    let mut i: usize = 0;
    while i < s.len()
        invariant
            i <= s.len(),
            (done@.map_values(|l: Vec<char>| l@), cur@) == lines_acc(s@.take(i as int)),
        decreases s.len() - i,
    {
        let c = s[i];
        proof {
            assert(s@.take(i + 1).drop_last() =~= s@.take(i as int));
        }
        if c == '\n' {
            let n = cur.len();
            let line = if n > 0 && cur[n - 1] == '\r' {
                copy_range(&cur, 0, n - 1)
            } else {
                copy_range(&cur, 0, n)
            };
            proof {
                assert(cur@.subrange(0, n as int) =~= cur@);
                if n > 0 {
                    assert(cur@.subrange(0, n - 1) =~= cur@.drop_last());
                }
            }
            let ghost old_done = done@;
            done.push(line);
            assert(done@.map_values(|l: Vec<char>| l@) =~= old_done.map_values(
                |l: Vec<char>| l@,
            ).push(strip_cr(cur@)));
            cur = Vec::new();
        } else {
            cur.push(c);
        }
        i += 1;
    }
    assert(s@.take(s.len() as int) =~= s@);
    if cur.len() > 0 {
        let ghost old_done = done@;
        let ghost old_cur = cur@;
        done.push(cur);
        assert(done@.map_values(|l: Vec<char>| l@) =~= old_done.map_values(|l: Vec<char>| l@).push(
            old_cur,
        ));
    }
    done
}

/// Joins lines with `'\n'`.
pub fn join_with_newlines(ls: &Vec<Vec<char>>) -> (r: Vec<char>)
    ensures
        r@ == join_lines(ls@.map_values(|l: Vec<char>| l@)),
{
    let ghost vs = ls@.map_values(|l: Vec<char>| l@);
    let mut r: Vec<char> = Vec::new();
    let mut i: usize = 0;
    while i < ls.len()
        invariant
            i <= ls.len(),
            vs == ls@.map_values(|l: Vec<char>| l@),
            r@ == join_lines(vs.take(i as int)),
        decreases ls.len() - i,
    {
        proof {
            assert(vs.take(i + 1).drop_last() =~= vs.take(i as int));
        }
        if i > 0 {
            r.push('\n');
        } else {
            assert(join_lines(vs.take(0)) =~= Seq::<char>::empty());
        }
        extend_from(&mut r, ls[i].as_slice());
        proof {
            if i == 0 {
                assert(r@ =~= vs.take(1)[0]);
            }
        }
        i += 1;
    }
    assert(vs.take(ls.len() as int) =~= vs);
    r
}

/// The characters of each string.
pub fn chars_of_each(v: &Vec<String>) -> (r: Vec<Vec<char>>)
    ensures
        r@.map_values(|l: Vec<char>| l@) == views(v@),
{
    let mut r: Vec<Vec<char>> = Vec::new();
    let mut i: usize = 0;
    while i < v.len()
        invariant
            i <= v.len(),
            r@.map_values(|l: Vec<char>| l@) == views(v@).take(i as int),
        decreases v.len() - i,
    {
        let c = chars_of(v[i].as_str());
        let ghost old_r = r@;
        r.push(c);
        assert(r@.map_values(|l: Vec<char>| l@) =~= old_r.map_values(|l: Vec<char>| l@).push(
            v@[i as int]@,
        ));
        assert(views(v@).take(i + 1) =~= views(v@).take(i as int).push(v@[i as int]@));
        i += 1;
    }
    assert(views(v@).take(v.len() as int) =~= views(v@));
    r
}

/// Builds a string from each character vector.
pub fn strings_of_each(v: &Vec<Vec<char>>) -> (r: Vec<String>)
    ensures
        views(r@) == v@.map_values(|l: Vec<char>| l@),
{
    let mut r: Vec<String> = Vec::new();
    let mut i: usize = 0;
    while i < v.len()
        invariant
            i <= v.len(),
            views(r@) == v@.map_values(|l: Vec<char>| l@).take(i as int),
        decreases v.len() - i,
    {
        let s = string_of(v[i].as_slice());
        let ghost old_r = r@;
        r.push(s);
        assert(views(r@) =~= views(old_r).push(v@[i as int]@));
        assert(v@.map_values(|l: Vec<char>| l@).take(i + 1) =~= v@.map_values(
            |l: Vec<char>| l@,
        ).take(i as int).push(v@[i as int]@));
        i += 1;
    }
    assert(v@.map_values(|l: Vec<char>| l@).take(v.len() as int) =~= v@.map_values(
        |l: Vec<char>| l@,
    ));
    r
}

} // verus!
