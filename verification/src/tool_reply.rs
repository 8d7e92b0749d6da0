//! The replies that tools hand back to the model: a JSON object that says
//! whether the call succeeded, with an output or an error and the fields a
//! tool adds; and the replies of the ast-grep tools, built from what the
//! `ast-grep` runs printed.

use vstd::prelude::*;
use crate::fmt::{decimal, decimal_chars};
use crate::json::{as_str, fields_get, get, get_exec, get_str, JsonValue};
use crate::text::{
    chars_eq, chars_of, ends_with, ends_with_exec, extend_from, lines, push_str_chars, split_lines, string_of,
    trim, trim_end, trimmed, trimmed_end,
};

verus! {

broadcast use vstd::string::group_string_axioms;

/// The names of an object's fields, in order.
pub open spec fn keys(v: JsonValue) -> Seq<Seq<char>> {
    match v {
        JsonValue::Object(fs) => Seq::new(fs@.len(), |i: int| fs@[i].0@),
        _ => Seq::empty(),
    }
}

pub open spec fn is_object(v: JsonValue) -> bool {
    v is Object
}

/// `v` is the string `s`.
pub open spec fn is_str(v: Option<JsonValue>, s: Seq<char>) -> bool {
    match v {
        Some(JsonValue::Str(t)) => t@ == s,
        _ => false,
    }
}

pub open spec fn is_uint(v: Option<JsonValue>, n: nat) -> bool {
    match v {
        Some(JsonValue::UInt(m)) => m == n,
        _ => false,
    }
}

/// A successful reply with `msg` as its output.
pub open spec fn ok_reply(r: JsonValue, msg: Seq<char>) -> bool {
    &&& keys(r) == seq!["success"@, "output"@]
    &&& get(r, "success"@) == Some(JsonValue::Bool(true))
    &&& is_str(get(r, "output"@), msg)
}

/// A failed reply with `msg` as its error.
pub open spec fn err_reply(r: JsonValue, msg: Seq<char>) -> bool {
    &&& keys(r) == seq!["success"@, "error"@]
    &&& get(r, "success"@) == Some(JsonValue::Bool(false))
    &&& is_str(get(r, "error"@), msg)
}

pub fn str_value(s: &str) -> (r: JsonValue)
    ensures
        r matches JsonValue::Str(t) && t@ == s@,
{
    JsonValue::Str(string_of(chars_of(s).as_slice()))
}

fn field(k: &str, v: JsonValue) -> (r: (String, JsonValue))
    ensures
        r.0@ == k@,
        r.1 == v,
{
    (string_of(chars_of(k).as_slice()), v)
}

/// A reply that reports success with `msg`.
pub fn ok_result(msg: &str) -> (r: JsonValue)
    ensures
        ok_reply(r, msg@),
{
    let mut fs: Vec<(String, JsonValue)> = Vec::new();
    fs.push(field("success", JsonValue::Bool(true)));
    fs.push(field("output", str_value(msg)));
    let r = JsonValue::Object(fs);
    proof {
        reveal_strlit("success");
        reveal_strlit("output");
        assert("success"@[0] != "output"@[0]);
        assert(keys(r) =~= seq!["success"@, "output"@]);
        assert(fields_get(fs@.drop_first(), "output"@) == Some(fs@[1].1));
    }
    r
}

/// A reply that reports failure with `msg`.
pub fn err_result(msg: &str) -> (r: JsonValue)
    ensures
        err_reply(r, msg@),
{
    let mut fs: Vec<(String, JsonValue)> = Vec::new();
    fs.push(field("success", JsonValue::Bool(false)));
    fs.push(field("error", str_value(msg)));
    let r = JsonValue::Object(fs);
    proof {
        reveal_strlit("success");
        reveal_strlit("error");
        assert("success"@[0] != "error"@[0]);
        assert(keys(r) =~= seq!["success"@, "error"@]);
        assert(fields_get(fs@.drop_first(), "error"@) == Some(fs@[1].1));
    }
    r
}

pub open spec fn key_list(fs: Seq<(String, JsonValue)>) -> Seq<Seq<char>> {
    Seq::new(fs.len(), |i: int| fs[i].0@)
}

proof fn lemma_fields_get(fs: Seq<(String, JsonValue)>, k: Seq<char>)
    ensures
        match fields_get(fs, k) {
            Some(v) => exists|i: int|
                0 <= i < fs.len() && fs[i].0@ == k && fs[i].1 == v && forall|j: int| 0 <= j < i ==> fs[j].0@ != k,
            None => forall|j: int| 0 <= j < fs.len() ==> fs[j].0@ != k,
        },
    decreases fs.len(),
{
    if fs.len() > 0 && fs[0].0@ != k {
        lemma_fields_get(fs.drop_first(), k);
        match fields_get(fs.drop_first(), k) {
            Some(v) => {
                let i = choose|i: int|
                    0 <= i < fs.drop_first().len() && fs.drop_first()[i].0@ == k && fs.drop_first()[i].1 == v
                        && forall|j: int| 0 <= j < i ==> fs.drop_first()[j].0@ != k;
                assert(fs[i + 1] == fs.drop_first()[i]);
                assert forall|j: int| 0 <= j < i + 1 implies fs[j].0@ != k by {
                    if j > 0 {
                        assert(fs[j] == fs.drop_first()[j - 1]);
                    }
                }
            },
            None => {
                assert forall|j: int| 0 <= j < fs.len() implies fs[j].0@ != k by {
                    if j > 0 {
                        assert(fs[j] == fs.drop_first()[j - 1]);
                    }
                }
            },
        }
    } else if fs.len() > 0 {
        assert(fs[0].0@ == k);
    }
}

/// A first match with key `k` at `i` is what a lookup finds.
proof fn lemma_fields_get_at(fs: Seq<(String, JsonValue)>, k: Seq<char>, i: int)
    requires
        0 <= i < fs.len(),
        fs[i].0@ == k,
        forall|j: int| 0 <= j < i ==> fs[j].0@ != k,
    ensures
        fields_get(fs, k) == Some(fs[i].1),
    decreases i,
{
    if i > 0 {
        assert forall|j: int| 0 <= j < i - 1 implies fs.drop_first()[j].0@ != k by {
            assert(fs.drop_first()[j] == fs[j + 1]);
        }
        lemma_fields_get_at(fs.drop_first(), k, i - 1);
    }
}

/// No field named `k`: a lookup finds nothing.
proof fn lemma_fields_get_none(fs: Seq<(String, JsonValue)>, k: Seq<char>)
    requires
        forall|j: int| 0 <= j < fs.len() ==> fs[j].0@ != k,
    ensures
        fields_get(fs, k) is None,
    decreases fs.len(),
{
    if fs.len() > 0 {
        assert forall|j: int| 0 <= j < fs.drop_first().len() implies fs.drop_first()[j].0@ != k by {
            assert(fs.drop_first()[j] == fs[j + 1]);
        }
        lemma_fields_get_none(fs.drop_first(), k);
    }
}

/// Two field lists with the same names where the name `k2` is found agree
/// on `k2` when their values there agree.
proof fn lemma_fields_get_same(a: Seq<(String, JsonValue)>, b: Seq<(String, JsonValue)>, k2: Seq<char>)
    requires
        a.len() <= b.len(),
        forall|j: int| 0 <= j < a.len() ==> b[j].0@ == a[j].0@,
        forall|j: int| 0 <= j < a.len() && a[j].0@ == k2 ==> b[j].1 == a[j].1,
        forall|j: int| a.len() <= j < b.len() ==> b[j].0@ != k2,
    ensures
        fields_get(b, k2) == fields_get(a, k2),
{
    lemma_fields_get(a, k2);
    match fields_get(a, k2) {
        Some(v) => {
            let i = choose|i: int|
                0 <= i < a.len() && a[i].0@ == k2 && a[i].1 == v && forall|j: int| 0 <= j < i ==> a[j].0@ != k2;
            lemma_fields_get_at(b, k2, i);
        },
        None => {
            lemma_fields_get_none(b, k2);
        },
    }
}

/// `map.insert(k, v)` on a reply: the field `k` holds `v` afterwards
/// (in its old place, or added at the end), and no other field changes.
#[verifier::loop_isolation(false)]
pub fn with_field(r: JsonValue, k: &str, v: JsonValue) -> (o: JsonValue)
    requires
        is_object(r),
    ensures
        is_object(o),
        keys(o) == if keys(r).contains(k@) {
            keys(r)
        } else {
            keys(r).push(k@)
        },
        get(o, k@) == Some(v),
        forall|k2: Seq<char>| k2 != k@ ==> get(o, k2) == get(r, k2),
{
    let ghost rv = r;
    let mut fs = match r {
        JsonValue::Object(fs) => fs,
        _ => Vec::new(),
    };
    let ghost old_fs = fs@;
    assert(keys(rv) =~= key_list(old_fs));
    assert(forall|k2: Seq<char>| get(rv, k2) == fields_get(old_fs, k2));
    let kc = chars_of(k);
    let mut i: usize = 0;
    while i < fs.len()
        invariant
            i <= fs.len(),
            fs@ == old_fs,
            keys(rv) == key_list(old_fs),
            forall|k2: Seq<char>| get(rv, k2) == fields_get(old_fs, k2),
            kc@ == k@,
            forall|j: int| 0 <= j < i ==> fs@[j].0@ != k@,
        decreases fs.len() - i,
    {
        if chars_eq(chars_of(fs[i].0.as_str()).as_slice(), kc.as_slice()) {
            fs.set(i, field(k, v));
            let o = JsonValue::Object(fs);
            proof {
                assert(keys(o) =~= keys(rv));
                assert(keys(rv)[i as int] == k@);
                assert(keys(rv).contains(k@));
                lemma_fields_get_at(fs@, k@, i as int);
                assert forall|k2: Seq<char>| k2 != k@ implies get(o, k2) == get(rv, k2) by {
                    lemma_fields_get_same(old_fs, fs@, k2);
                }
            }
            return o;
        }
        i += 1;
    }
    fs.push(field(k, v));
    let o = JsonValue::Object(fs);
    proof {
        assert(keys(o) =~= keys(rv).push(k@));
        assert(!keys(rv).contains(k@)) by {
            if keys(rv).contains(k@) {
                let j = choose|j: int| 0 <= j < keys(rv).len() && keys(rv)[j] == k@;
                assert(old_fs[j].0@ == k@);
            }
        }
        lemma_fields_get_at(fs@, k@, old_fs.len() as int);
        assert forall|k2: Seq<char>| k2 != k@ implies get(o, k2) == get(rv, k2) by {
            lemma_fields_get_same(old_fs, fs@, k2);
        }
    }
    o
}


/// What a field of a reply holds.
pub enum FieldVal {
    Str(Seq<char>),
    UInt(nat),
    Bool(bool),
    Value(JsonValue),
    Array(Seq<JsonValue>),
    /// A signed integer, written as JSON writes it.
    Int(int),
}

pub open spec fn field_is(v: Option<JsonValue>, f: FieldVal) -> bool {
    match f {
        FieldVal::Str(s) => is_str(v, s),
        FieldVal::UInt(n) => is_uint(v, n),
        FieldVal::Bool(b) => v == Some(JsonValue::Bool(b)),
        FieldVal::Value(x) => v == Some(x),
        FieldVal::Array(a) => v matches Some(JsonValue::Array(b)) && b@ == a,
        FieldVal::Int(n) => if n >= 0 {
            v == Some(JsonValue::UInt(n as u64))
        } else {
            v == Some(JsonValue::NegInt(n as i64))
        },
    }
}

/// `r` is an object with exactly these fields, in this order.
pub open spec fn reply_is(r: JsonValue, fields: Seq<(Seq<char>, FieldVal)>) -> bool {
    &&& is_object(r)
    &&& keys(r) == Seq::new(fields.len(), |i: int| fields[i].0)
    &&& forall|i: int| 0 <= i < fields.len() ==> field_is(get(r, #[trigger] fields[i].0), fields[i].1)
}

/// Adds a field that the reply does not have yet.
pub(crate) fn push_field(r: JsonValue, k: &str, v: JsonValue) -> (o: JsonValue)
    requires
        is_object(r),
        !keys(r).contains(k@),
    ensures
        is_object(o),
        keys(o) == keys(r).push(k@),
        get(o, k@) == Some(v),
        forall|k2: Seq<char>| k2 != k@ ==> get(o, k2) == get(r, k2),
{
    with_field(r, k, v)
}

pub(crate) fn uint_value(n: usize) -> (r: JsonValue)
    ensures
        r == JsonValue::UInt(n as u64),
        n as nat == n as u64,
{
    JsonValue::UInt(n as u64)
}

/// The lines of `lines` that are not blank and parsed as JSON, parsed.
pub open spec fn line_values(ls: Seq<Seq<char>>, ps: Seq<Option<JsonValue>>) -> Seq<JsonValue>
    decreases ls.len(),
{
    if ls.len() == 0 || ps.len() < ls.len() {
        Seq::empty()
    } else {
        let before = line_values(ls.drop_last(), ps.take(ls.len() - 1));
        match ps[ls.len() - 1] {
            Some(v) => if trim(ls.last()).len() > 0 {
                before.push(v)
            } else {
                before
            },
            None => before,
        }
    }
}

/// How many matches a parsed `ast-grep --json` output holds.
pub open spec fn match_count(v: JsonValue) -> nat {
    match v {
        JsonValue::Array(a) => a@.len(),
        JsonValue::Object(_) => 1,
        _ => 0,
    }
}

/// The reply to an `ast-grep --json` run: nothing printed is no match; the
/// whole output parsed as JSON is the matches; else the lines that parse;
/// else the raw output. Error text, when there is any, goes with it as
/// warnings.
pub open spec fn sg_json_spec(
    stdout: Seq<char>,
    stderr: Seq<char>,
    default_msg: Seq<char>,
    parsed: Option<JsonValue>,
    line_parses: Seq<Option<JsonValue>>,
) -> Seq<(Seq<char>, FieldVal)> {
    let t = trim(stdout);
    let warn = trim(stderr);
    let warnings = if warn.len() > 0 {
        seq![("warnings"@, FieldVal::Str(warn))]
    } else {
        Seq::empty()
    };
    if t.len() == 0 {
        seq![
            ("success"@, FieldVal::Bool(true)),
            ("output"@, FieldVal::Str("no matches"@)),
            ("matches"@, FieldVal::Array(Seq::empty())),
            ("count"@, FieldVal::UInt(0)),
        ]
    } else {
        match parsed {
            Some(v) => seq![
                ("success"@, FieldVal::Bool(true)),
                ("output"@, FieldVal::Str(default_msg)),
                ("matches"@, FieldVal::Value(v)),
                ("count"@, FieldVal::UInt(match_count(v))),
            ] + warnings,
            None => {
                let ls = line_values(lines(t), line_parses);
                if ls.len() > 0 {
                    seq![
                        ("success"@, FieldVal::Bool(true)),
                        ("output"@, FieldVal::Str(default_msg)),
                        ("matches"@, FieldVal::Array(ls)),
                        ("count"@, FieldVal::UInt(ls.len())),
                    ] + warnings
                } else {
                    seq![("success"@, FieldVal::Bool(true)), ("output"@, FieldVal::Str(t)), ("count"@, FieldVal::UInt(0))]
                }
            },
        }
    }
}

/// The reply to an `ast-grep --json` run that printed `stdout` and
/// `stderr`. `parsed` is the whole output (trimmed) read as JSON, and
/// `line_parses[i]` the `i`-th line of it read as JSON, where they parse.
pub fn sg_json_result(
    stdout: &str,
    stderr: &str,
    default_msg: &str,
    parsed: Option<JsonValue>,
    line_parses: Vec<Option<JsonValue>>,
) -> (r: JsonValue)
    requires
        line_parses@.len() == lines(trim(stdout@)).len(),
    ensures
        reply_is(r, sg_json_spec(stdout@, stderr@, default_msg@, parsed, line_parses@)),
{
    proof {
        lemma_key_names();
    }
    let t = trimmed(chars_of(stdout).as_slice());
    let w = trimmed(chars_of(stderr).as_slice());
    let ghost spec = sg_json_spec(stdout@, stderr@, default_msg@, parsed, line_parses@);
    if t.len() == 0 {
        let r0 = ok_result("no matches");
        let r1 = push_field(r0, "matches", JsonValue::Array(Vec::new()));
        let r2 = push_field(r1, "count", uint_value(0));
        proof {
            assert(keys(r2) =~= Seq::new(spec.len(), |i: int| spec[i].0));
            assert(forall|i: int| 0 <= i < spec.len() ==> field_is(get(r2, #[trigger] spec[i].0), spec[i].1)) by {
                assert(field_is(get(r2, spec[0].0), spec[0].1));
                assert(field_is(get(r2, spec[1].0), spec[1].1));
                assert(field_is(get(r2, spec[2].0), spec[2].1));
                assert(field_is(get(r2, spec[3].0), spec[3].1));
            }
        }
        return r2;
    }
    let ts = string_of(t.as_slice());
    let r2 = match parsed {
        Some(v) => {
            let n: usize = match &v {
                JsonValue::Array(a) => a.len(),
                JsonValue::Object(_) => 1,
                _ => 0,
            };
            let r0 = ok_result(default_msg);
            let r1 = push_field(r0, "matches", v);
            let r2 = push_field(r1, "count", uint_value(n));
            r2
        },
        None => {
            let ls = split_lines(t.as_slice());
            let mut vals: Vec<JsonValue> = Vec::new();
            let mut ps = line_parses;
            let ghost lv = ls@.map_values(|l: Vec<char>| l@);
            let ghost pv = ps@;
            assert(lv == lines(trim(stdout@)));
            let mut i: usize = 0;
            while i < ls.len()
                invariant
                    i <= ls.len(),
                    lv == ls@.map_values(|l: Vec<char>| l@),
                    pv.len() == lv.len(),
                    ps@.len() == pv.len(),
                    forall|j: int| i <= j < ps@.len() ==> ps@[j] == pv[j],
                    vals@ == line_values(lv.take(i as int), pv.take(i as int)),
                decreases ls.len() - i,
            {
                assert(lv.take(i + 1).drop_last() =~= lv.take(i as int));
                assert(pv.take(i + 1).take(i as int) =~= pv.take(i as int));
                let blank = trimmed(ls[i].as_slice()).len() == 0;
                let mut p: Option<JsonValue> = None;
                std::mem::swap(&mut p, &mut ps[i]);
                proof {
                    assert(ps@[i as int] is None);
                }
                match p {
                    Some(v) => {
                        if !blank {
                            vals.push(v);
                        }
                    },
                    None => {},
                }
                i += 1;
            }
            assert(lv.take(ls.len() as int) =~= lv);
            assert(pv.take(ls.len() as int) =~= pv);
            if vals.len() > 0 {
                let n = vals.len();
                let r0 = ok_result(default_msg);
                let r1 = push_field(r0, "matches", JsonValue::Array(vals));
                let r2 = push_field(r1, "count", uint_value(n));
                r2
            } else {
                let r0 = ok_result(default_msg);
                let r1 = with_field(r0, "output", JsonValue::Str(ts));
                let r2 = push_field(r1, "count", uint_value(0));
                proof {
                    assert(keys(r2) =~= Seq::new(spec.len(), |i: int| spec[i].0));
                    assert(field_is(get(r2, spec[0].0), spec[0].1));
                    assert(field_is(get(r2, spec[1].0), spec[1].1));
                    assert(field_is(get(r2, spec[2].0), spec[2].1));
                }
                return r2;
            }
        },
    };
    if w.len() > 0 {
        let r3 = push_field(r2, "warnings", JsonValue::Str(string_of(w.as_slice())));
        proof {
            assert(keys(r3) =~= Seq::new(spec.len(), |i: int| spec[i].0));
            assert(field_is(get(r3, spec[0].0), spec[0].1));
            assert(field_is(get(r3, spec[1].0), spec[1].1));
            assert(field_is(get(r3, spec[2].0), spec[2].1));
            assert(field_is(get(r3, spec[3].0), spec[3].1));
            assert(field_is(get(r3, spec[4].0), spec[4].1));
        }
        r3
    } else {
        proof {
            assert(keys(r2) =~= Seq::new(spec.len(), |i: int| spec[i].0));
            assert(field_is(get(r2, spec[0].0), spec[0].1));
            assert(field_is(get(r2, spec[1].0), spec[1].1));
            assert(field_is(get(r2, spec[2].0), spec[2].1));
            assert(field_is(get(r2, spec[3].0), spec[3].1));
        }
        r2
    }
}


/// The reply to `ast-grep -U`: success or the error text, the number of
/// lines it printed, and its output. The success message is replaced by
/// the output.
pub open spec fn ast_replace_spec(success: bool, stdout: Seq<char>, stderr: Seq<char>) -> Seq<
    (Seq<char>, FieldVal),
> {
    let n = lines(stdout).len();
    if success {
        seq![
            ("success"@, FieldVal::Bool(true)),
            ("output"@, FieldVal::Str(stdout)),
            ("replacements"@, FieldVal::UInt(n)),
        ]
    } else {
        seq![
            ("success"@, FieldVal::Bool(false)),
            ("error"@, FieldVal::Str(stderr)),
            ("replacements"@, FieldVal::UInt(n)),
            ("output"@, FieldVal::Str(stdout)),
        ]
    }
}

pub fn ast_replace_result(success: bool, stdout: &str, stderr: &str) -> (r: JsonValue)
    ensures
        reply_is(r, ast_replace_spec(success, stdout@, stderr@)),
{
    proof {
        lemma_key_names();
    }
    let ghost spec = ast_replace_spec(success, stdout@, stderr@);
    let n = split_lines(chars_of(stdout).as_slice()).len();
    if success {
        let r0 = ok_result("replacement applied");
        let r1 = push_field(r0, "replacements", uint_value(n));
        let r2 = with_field(r1, "output", str_value(stdout));
        proof {
            assert(keys(r1).contains("output"@)) by {
                assert(keys(r1)[1] == "output"@);
            }
            assert(keys(r2) =~= Seq::new(spec.len(), |i: int| spec[i].0));
            assert(field_is(get(r2, spec[0].0), spec[0].1));
            assert(field_is(get(r2, spec[1].0), spec[1].1));
            assert(field_is(get(r2, spec[2].0), spec[2].1));
        }
        r2
    } else {
        let r0 = err_result(stderr);
        let r1 = push_field(r0, "replacements", uint_value(n));
        let r2 = push_field(r1, "output", str_value(stdout));
        proof {
            assert(keys(r2) =~= Seq::new(spec.len(), |i: int| spec[i].0));
            assert(field_is(get(r2, spec[0].0), spec[0].1));
            assert(field_is(get(r2, spec[1].0), spec[1].1));
            assert(field_is(get(r2, spec[2].0), spec[2].1));
            assert(field_is(get(r2, spec[3].0), spec[3].1));
        }
        r2
    }
}

/// The text shown for a match: its `text`, else its `matched`, else the
/// `text` of its `node`; `None` when it has none of them (the match is
/// then shown as JSON).
pub open spec fn preview_spec(m: JsonValue) -> Option<Seq<char>> {
    match as_str(get(m, "text"@)) {
        Some(t) => Some(t),
        None => match as_str(get(m, "matched"@)) {
            Some(t) => Some(t),
            None => match get(m, "node"@) {
                Some(n) => as_str(get(n, "text"@)),
                None => None,
            },
        },
    }
}

pub fn match_preview(m: &JsonValue) -> (r: Option<String>)
    ensures
        match r {
            Some(t) => preview_spec(*m) == Some(t@),
            None => preview_spec(*m) is None,
        },
{
    if let Some(t) = get_str(m, "text") {
        return Some(string_of(chars_of(t.as_str()).as_slice()));
    }
    if let Some(t) = get_str(m, "matched") {
        return Some(string_of(chars_of(t.as_str()).as_slice()));
    }
    match get_exec(m, "node") {
        Some(n) => match get_str(n, "text") {
            Some(t) => Some(string_of(chars_of(t.as_str()).as_slice())),
            None => None,
        },
        None => None,
    }
}

/// A number with its sign.
pub open spec fn signed_decimal(n: int) -> Seq<char> {
    if n < 0 {
        seq!['-'] + decimal((-n) as nat)
    } else {
        decimal(n as nat)
    }
}

pub(crate) fn signed_decimal_exec(n: i32) -> (r: Vec<char>)
    ensures
        r@ == signed_decimal(n as int),
{
    if n < 0 {
        let m: i64 = -(n as i64);
        let mut v: Vec<char> = Vec::new();
        v.push('-');
        let d = decimal_chars(m as u128);
        extend_from(&mut v, d.as_slice());
        v
    } else {
        decimal_chars(n as u128)
    }
}

/// The exit code a failed run reports: its code, or -1 when it has none.
pub open spec fn exit_code(code: Option<i32>) -> int {
    match code {
        Some(c) => c as int,
        None => -1,
    }
}

/// The error text of a failed `ast-grep` run.
pub open spec fn failed_text(what: Seq<char>, code: Option<i32>, stderr: Seq<char>) -> Seq<char> {
    what + " (exit "@ + signed_decimal(exit_code(code)) + "): "@ + trim(stderr)
}

pub(crate) fn failed_message(what: &str, code: Option<i32>, stderr: &str) -> (r: String)
    ensures
        r@ == failed_text(what@, code, stderr@),
{
    let c: i32 = match code {
        Some(c) => c,
        None => -1,
    };
    let mut v: Vec<char> = Vec::new();
    push_str_chars(&mut v, what);
    push_str_chars(&mut v, " (exit ");
    let d = signed_decimal_exec(c);
    extend_from(&mut v, d.as_slice());
    push_str_chars(&mut v, "): ");
    let t = trimmed(chars_of(stderr).as_slice());
    extend_from(&mut v, t.as_slice());
    proof {
        reveal_strlit(" (exit ");
        reveal_strlit("): ");
        assert(v@ =~= failed_text(what@, code, stderr@));
    }
    string_of(v.as_slice())
}

/// The reply to an `ast-grep run --json` search: a failure when it failed
/// and printed nothing, else its output read as in `sg_json_spec`.
pub open spec fn ast_search_spec(
    success: bool,
    code: Option<i32>,
    stdout: Seq<char>,
    stderr: Seq<char>,
    parsed: Option<JsonValue>,
    line_parses: Seq<Option<JsonValue>>,
) -> Seq<(Seq<char>, FieldVal)> {
    if !success && trim(stdout).len() == 0 {
        seq![
            ("success"@, FieldVal::Bool(false)),
            ("error"@, FieldVal::Str(failed_text("ast-grep failed"@, code, stderr))),
        ]
    } else {
        sg_json_spec(stdout, stderr, "search complete"@, parsed, line_parses)
    }
}

pub fn ast_search_result(
    success: bool,
    code: Option<i32>,
    stdout: &str,
    stderr: &str,
    parsed: Option<JsonValue>,
    line_parses: Vec<Option<JsonValue>>,
) -> (r: JsonValue)
    requires
        line_parses@.len() == lines(trim(stdout@)).len(),
    ensures
        reply_is(r, ast_search_spec(success, code, stdout@, stderr@, parsed, line_parses@)),
{
    let blank = trimmed(chars_of(stdout).as_slice()).len() == 0;
    if !success && blank {
        let msg = failed_message("ast-grep failed", code, stderr);
        let r = err_result(msg.as_str());
        proof {
            let spec = ast_search_spec(success, code, stdout@, stderr@, parsed, line_parses@);
            assert(keys(r) =~= Seq::new(spec.len(), |i: int| spec[i].0));
            assert(field_is(get(r, spec[0].0), spec[0].1));
            assert(field_is(get(r, spec[1].0), spec[1].1));
        }
        return r;
    }
    sg_json_result(stdout, stderr, "search complete", parsed, line_parses)
}

/// The message of a replacement that matched nothing.
pub open spec fn zero_matches_text() -> Seq<char> {
    "Zero matches — pattern does not match any code. Common causes: wrong indentation, extra/missing whitespace, or AST structure differs from text. Try a simpler pattern or use codex_eyes_sed for text replacement."@
}

/// The reply when the dry run of a replacement matched nothing: the error,
/// ast-grep's warning and a simpler pattern's result where there are any,
/// and that nothing was replaced.
pub open spec fn zero_matches_spec(stderr: Seq<char>, suggestion: Option<Seq<char>>) -> Seq<(Seq<char>, FieldVal)> {
    let warn = trim(stderr);
    seq![("success"@, FieldVal::Bool(false)), ("error"@, FieldVal::Str(zero_matches_text()))] + (if warn.len() > 0 {
        seq![("sg_warning"@, FieldVal::Str(warn))]
    } else {
        Seq::empty()
    }) + (match suggestion {
        Some(t) => seq![("suggestion"@, FieldVal::Str(t))],
        None => Seq::empty(),
    }) + seq![("replacements"@, FieldVal::UInt(0)), ("dry_run"@, FieldVal::Bool(true))]
}

pub open spec fn opt_view(o: Option<String>) -> Option<Seq<char>> {
    match o {
        Some(t) => Some(t@),
        None => None,
    }
}

pub fn zero_matches_result(stderr: &str, suggestion: Option<String>) -> (r: JsonValue)
    ensures
        reply_is(r, zero_matches_spec(stderr@, opt_view(suggestion))),
{
    proof {
        lemma_key_names();
    }
    let ghost sug = opt_view(suggestion);
    let ghost spec = zero_matches_spec(stderr@, sug);
    let w = trimmed(chars_of(stderr).as_slice());
    let mut r = err_result(
        "Zero matches — pattern does not match any code. Common causes: wrong indentation, extra/missing whitespace, or AST structure differs from text. Try a simpler pattern or use codex_eyes_sed for text replacement.",
    );
    let ghost mut fields = seq![("success"@, FieldVal::Bool(false)), ("error"@, FieldVal::Str(zero_matches_text()))];
    proof {
        assert(keys(r) =~= Seq::new(fields.len(), |i: int| fields[i].0));
        assert(field_is(get(r, fields[1].0), fields[1].1));
    }
    if w.len() > 0 {
        r = push_field(r, "sg_warning", JsonValue::Str(string_of(w.as_slice())));
        proof {
            fields = fields.push(("sg_warning"@, FieldVal::Str(w@)));
            assert(keys(r) =~= Seq::new(fields.len(), |i: int| fields[i].0));
            assert(field_is(get(r, fields[0].0), fields[0].1));
            assert(field_is(get(r, fields[1].0), fields[1].1));
            assert(field_is(get(r, fields[2].0), fields[2].1));
        }
    }
    assert(reply_is(r, fields));
    match suggestion {
        Some(t) => {
            let ghost tv = t@;
            let ghost before = fields;
            proof {
                assert(!keys(r).contains("suggestion"@));
            }
            r = push_field(r, "suggestion", JsonValue::Str(t));
            proof {
                fields = fields.push(("suggestion"@, FieldVal::Str(tv)));
                assert(keys(r) =~= Seq::new(fields.len(), |i: int| fields[i].0));
                assert forall|i: int| 0 <= i < fields.len() implies field_is(get(r, #[trigger] fields[i].0), fields[i].1) by {
                    if i < before.len() {
                        assert(field_is(get(r, before[i].0), before[i].1));
                    }
                }
            }
        },
        None => {},
    }
    assert(reply_is(r, fields));
    let ghost before = fields;
    r = push_field(r, "replacements", uint_value(0));
    r = push_field(r, "dry_run", JsonValue::Bool(true));
    proof {
        fields = fields.push(("replacements"@, FieldVal::UInt(0))).push(("dry_run"@, FieldVal::Bool(true)));
        assert(fields =~= spec);
        assert(keys(r) =~= Seq::new(fields.len(), |i: int| fields[i].0));
        assert forall|i: int| 0 <= i < fields.len() implies field_is(get(r, #[trigger] fields[i].0), fields[i].1) by {
            if i < before.len() {
                assert(field_is(get(r, before[i].0), before[i].1));
            }
        }
    }
    r
}

/// The number of lines of `s` that are not blank.
pub open spec fn nonblank_count(ls: Seq<Seq<char>>) -> nat
    decreases ls.len(),
{
    if ls.len() == 0 {
        0
    } else {
        nonblank_count(ls.drop_last()) + if trim(ls.last()).len() > 0 {
            1nat
        } else {
            0nat
        }
    }
}

/// The reply after a replacement was applied: how many matches the dry run
/// found, how many files `ast-grep -U` listed as changed, the first
/// match, and ast-grep's warnings where there are any.
pub open spec fn applied_spec(count: nat, stdout: Seq<char>, preview: Seq<char>, stderr: Seq<char>) -> Seq<
    (Seq<char>, FieldVal),
> {
    let files = nonblank_count(lines(stdout));
    let warn = trim(stderr);
    seq![
        ("success"@, FieldVal::Bool(true)),
        (
            "output"@,
            FieldVal::Str(
                decimal(count) + " replacement(s) applied across "@ + decimal(files) + " file(s)"@,
            ),
        ),
        ("pre_check_matches"@, FieldVal::UInt(count)),
        ("replacements"@, FieldVal::UInt(count)),
        ("files_changed"@, FieldVal::UInt(files)),
        ("matched_preview"@, FieldVal::Str(preview)),
        ("dry_run"@, FieldVal::Bool(false)),
    ] + if warn.len() > 0 {
        seq![("warnings"@, FieldVal::Str(warn))]
    } else {
        Seq::empty()
    }
}

pub fn applied_result(count: usize, stdout: &str, preview: &str, stderr: &str) -> (r: JsonValue)
    ensures
        reply_is(r, applied_spec(count as nat, stdout@, preview@, stderr@)),
{
    proof {
        lemma_key_names();
    }
    let ghost spec = applied_spec(count as nat, stdout@, preview@, stderr@);
    let ls = split_lines(chars_of(stdout).as_slice());
    let ghost lv = ls@.map_values(|l: Vec<char>| l@);
    let mut files: usize = 0;
    let mut i: usize = 0;
    while i < ls.len()
        invariant
            i <= ls.len(),
            lv == ls@.map_values(|l: Vec<char>| l@),
            files == nonblank_count(lv.take(i as int)),
            files <= i,
        decreases ls.len() - i,
    {
        assert(lv.take(i + 1).drop_last() =~= lv.take(i as int));
        if trimmed(ls[i].as_slice()).len() > 0 {
            files += 1;
        }
        i += 1;
    }
    assert(lv.take(ls.len() as int) =~= lv);
    let mut msg: Vec<char> = Vec::new();
    extend_from(&mut msg, decimal_chars(count as u128).as_slice());
    push_str_chars(&mut msg, " replacement(s) applied across ");
    extend_from(&mut msg, decimal_chars(files as u128).as_slice());
    push_str_chars(&mut msg, " file(s)");
    proof {
        reveal_strlit(" replacement(s) applied across ");
        reveal_strlit(" file(s)");
    }
    let r0 = ok_result(string_of(msg.as_slice()).as_str());
    let r1 = push_field(r0, "pre_check_matches", uint_value(count));
    let r2 = push_field(r1, "replacements", uint_value(count));
    let r3 = push_field(r2, "files_changed", uint_value(files));
    let r4 = push_field(r3, "matched_preview", str_value(preview));
    let r5 = push_field(r4, "dry_run", JsonValue::Bool(false));
    let ghost base = spec.take(7);
    proof {
        assert(keys(r5) =~= Seq::new(base.len(), |i: int| base[i].0));
        assert forall|i: int| 0 <= i < base.len() implies field_is(get(r5, #[trigger] base[i].0), base[i].1) by {
            assert(msg@ =~= decimal(count as nat) + " replacement(s) applied across "@ + decimal(files as nat)
                + " file(s)"@);
        }
    }
    let w = trimmed(chars_of(stderr).as_slice());
    if w.len() > 0 {
        let r6 = push_field(r5, "warnings", JsonValue::Str(string_of(w.as_slice())));
        proof {
            assert(keys(r6) =~= Seq::new(spec.len(), |i: int| spec[i].0));
            assert forall|i: int| 0 <= i < spec.len() implies field_is(get(r6, #[trigger] spec[i].0), spec[i].1) by {
                if i < 7 {
                    assert(spec[i] == base[i]);
                }
            }
        }
        r6
    } else {
        assert(spec =~= base);
        r5
    }
}

/// The "replacement failed" reply.
pub fn replace_failed_result(code: Option<i32>, stderr: &str) -> (r: JsonValue)
    ensures
        err_reply(r, failed_text("ast-grep replace failed"@, code, stderr@)),
{
    let msg = failed_message("ast-grep replace failed", code, stderr);
    err_result(msg.as_str())
}

// ------------------------------------------------------- ast_explain input

/// How often `c` occurs in `s`.
pub open spec fn char_count(s: Seq<char>, c: char) -> nat
    decreases s.len(),
{
    if s.len() == 0 {
        0
    } else {
        char_count(s.drop_last(), c) + if s.last() == c {
            1nat
        } else {
            0nat
        }
    }
}

/// How much a line opens a bracket pair: openings less closings.
pub open spec fn depth_delta(l: Seq<char>, open: char, close: char) -> int {
    char_count(l, open) - char_count(l, close)
}

/// The snippet goes on while a parenthesis or brace is open, or its last
/// line ends in `,` or `&&`.
pub open spec fn wants_more(snippet: Seq<char>, paren: int, brace: int) -> bool {
    paren > 0 || brace > 0 || ends_with(trim_end(snippet), seq![',']) || ends_with(trim_end(snippet), "&&"@)
}

/// The snippet with the lines from `end` on added while it wants more.
pub open spec fn capture(ls: Seq<Seq<char>>, snippet: Seq<char>, paren: int, brace: int, end: int) -> Seq<char>
    decreases ls.len() - end,
{
    if end < 0 || end >= ls.len() || !wants_more(snippet, paren, brace) {
        snippet
    } else {
        let next = ls[end];
        capture(
            ls,
            snippet + seq!['\n'] + next,
            paren + depth_delta(next, '(', ')'),
            brace + depth_delta(next, '{', '}'),
            end + 1,
        )
    }
}

/// The code that `ast_explain` explains for line `line` (1-based) of
/// `content`: that line and the lines that complete it.
pub open spec fn explain_spec(content: Seq<char>, line: nat) -> Result<Seq<char>, Seq<char>> {
    let ls = lines(content);
    if line == 0 {
        Err("Line must be 1-based and > 0"@)
    } else if line > ls.len() {
        Err("Line "@ + decimal(line) + " out of bounds (file has "@ + decimal(ls.len()) + " lines)"@)
    } else {
        let first = ls[line - 1];
        Ok(capture(ls, first, depth_delta(first, '(', ')'), depth_delta(first, '{', '}'), line as int))
    }
}

/// The characters of all the lines together.
pub open spec fn total_len(ls: Seq<Seq<char>>) -> nat
    decreases ls.len(),
{
    if ls.len() == 0 {
        0
    } else {
        total_len(ls.drop_last()) + ls.last().len()
    }
}

proof fn lemma_total_len_take(ls: Seq<Seq<char>>, i: int)
    requires
        0 <= i < ls.len(),
    ensures
        total_len(ls.take(i + 1)) == total_len(ls.take(i)) + ls[i].len(),
        total_len(ls.take(i + 1)) <= total_len(ls),
    decreases ls.len() - i,
{
    assert(ls.take(i + 1).drop_last() =~= ls.take(i));
    if i + 1 < ls.len() {
        lemma_total_len_take(ls, i + 1);
    } else {
        assert(ls.take(i + 1) =~= ls);
    }
}

proof fn lemma_char_count_le(s: Seq<char>, c: char)
    ensures
        char_count(s, c) <= s.len(),
    decreases s.len(),
{
    if s.len() > 0 {
        lemma_char_count_le(s.drop_last(), c);
    }
}

fn count_exec(s: &[char], c: char) -> (n: usize)
    ensures
        n == char_count(s@, c),
{
    let mut n: usize = 0;
    let mut i: usize = 0;
    while i < s.len()
        invariant
            i <= s.len(),
            n == char_count(s@.take(i as int), c),
            n <= i,
        decreases s.len() - i,
    {
        assert(s@.take(i + 1).drop_last() =~= s@.take(i as int));
        if s[i] == c {
            n += 1;
        }
        i += 1;
    }
    assert(s@.take(s.len() as int) =~= s@);
    n
}

fn delta_exec(s: &[char], open: char, close: char) -> (d: i64)
    requires
        s@.len() < 0x1_0000_0000,
    ensures
        d == depth_delta(s@, open, close),
{
    let a = count_exec(s, open);
    let b = count_exec(s, close);
    proof {
        lemma_char_count_le(s@, open);
        lemma_char_count_le(s@, close);
    }
    (a as i64) - (b as i64)
}

/// The snippet that `ast_explain` explains for line `line` of `content`,
/// or the error it reports. The lines together hold fewer than 2^31
/// characters, the range its bracket counts are kept in.
pub fn explain_snippet(content: &str, line: u64) -> (r: Result<String, String>)
    requires
        total_len(lines(content@)) < 0x8000_0000,
    ensures
        match r {
            Ok(s) => explain_spec(content@, line as nat) == Ok::<Seq<char>, Seq<char>>(s@),
            Err(e) => explain_spec(content@, line as nat) == Err::<Seq<char>, Seq<char>>(e@),
        },
{
    let ls = split_lines(chars_of(content).as_slice());
    let ghost lv = ls@.map_values(|l: Vec<char>| l@);
    assert(lv == lines(content@));
    if line == 0 {
        return Err("Line must be 1-based and > 0".to_string());
    }
    if line > ls.len() as u64 {
        let mut v: Vec<char> = Vec::new();
        push_str_chars(&mut v, "Line ");
        extend_from(&mut v, decimal_chars(line as u128).as_slice());
        push_str_chars(&mut v, " out of bounds (file has ");
        extend_from(&mut v, decimal_chars(ls.len() as u128).as_slice());
        push_str_chars(&mut v, " lines)");
        proof {
            reveal_strlit("Line ");
            reveal_strlit(" out of bounds (file has ");
            reveal_strlit(" lines)");
            assert(v@ =~= "Line "@ + decimal(line as nat) + " out of bounds (file has "@ + decimal(lv.len())
                + " lines)"@);
        }
        return Err(string_of(v.as_slice()));
    }
    let target = line as usize;
    let mut snippet: Vec<char> = crate::text::clone_chars(&ls[target - 1]);
    proof {
        lemma_total_len_take(lv, target - 1);
        lemma_char_count_le(lv[target - 1], '(');
        lemma_char_count_le(lv[target - 1], ')');
        lemma_char_count_le(lv[target - 1], '{');
        lemma_char_count_le(lv[target - 1], '}');
    }
    let mut paren: i64 = delta_exec(ls[target - 1].as_slice(), '(', ')');
    let mut brace: i64 = delta_exec(ls[target - 1].as_slice(), '{', '}');
    let mut end: usize = target;
    let ghost first = lv[target - 1];
    loop
        invariant
            1 <= target <= end <= ls.len(),
            lv == ls@.map_values(|l: Vec<char>| l@),
            lv == lines(content@),
            total_len(lv) < 0x8000_0000,
            -(total_len(lv.take(end as int)) as int) <= paren <= total_len(lv.take(end as int)),
            -(total_len(lv.take(end as int)) as int) <= brace <= total_len(lv.take(end as int)),
            capture(lv, first, depth_delta(first, '(', ')'), depth_delta(first, '{', '}'), target as int)
                == capture(lv, snippet@, paren as int, brace as int, end as int),
        ensures
            capture(lv, first, depth_delta(first, '(', ')'), depth_delta(first, '{', '}'), target as int)
                == snippet@,
        decreases ls.len() - end,
    {
        let te = trimmed_end(snippet.as_slice());
        let comma_v: Vec<char> = vec![','];
        let and_v: Vec<char> = vec!['&', '&'];
        let comma = ends_with_exec(te.as_slice(), comma_v.as_slice());
        let and = ends_with_exec(te.as_slice(), and_v.as_slice());
        proof {
            reveal_strlit("&&");
            assert(and_v@ =~= "&&"@);
            assert(comma_v@ =~= seq![',']);
        }
        if !((paren > 0 || brace > 0 || comma || and) && end < ls.len()) {
            break;
        }
        let ghost old_snip = snippet@;
        let ghost old_paren = paren as int;
        let ghost old_brace = brace as int;
        let ghost old_end = end as int;
        assert(wants_more(old_snip, old_paren, old_brace));
        proof {
            lemma_total_len_take(lv, end as int);
            lemma_char_count_le(lv[end as int], '(');
            lemma_char_count_le(lv[end as int], ')');
            lemma_char_count_le(lv[end as int], '{');
            lemma_char_count_le(lv[end as int], '}');
        }
        let dp = delta_exec(ls[end].as_slice(), '(', ')');
        let db = delta_exec(ls[end].as_slice(), '{', '}');
        snippet.push('\n');
        extend_from(&mut snippet, ls[end].as_slice());
        paren = paren + dp;
        brace = brace + db;
        end += 1;
        proof {
            assert(lv[old_end] == ls@[old_end]@);
            assert(snippet@ =~= old_snip + seq!['\n'] + lv[old_end]);
        }
    }
    Ok(string_of(snippet.as_slice()))
}

/// The field names of the replies differ from one another.
pub(crate) proof fn lemma_key_names()
    ensures
        "success"@ != "output"@,
        "success"@ != "matches"@,
        "success"@ != "count"@,
        "success"@ != "warnings"@,
        "success"@ != "error"@,
        "success"@ != "replacements"@,
        "success"@ != "sg_warning"@,
        "success"@ != "suggestion"@,
        "success"@ != "dry_run"@,
        "success"@ != "pre_check_matches"@,
        "success"@ != "files_changed"@,
        "success"@ != "matched_preview"@,
        "output"@ != "matches"@,
        "output"@ != "count"@,
        "output"@ != "warnings"@,
        "output"@ != "error"@,
        "output"@ != "replacements"@,
        "output"@ != "sg_warning"@,
        "output"@ != "suggestion"@,
        "output"@ != "dry_run"@,
        "output"@ != "pre_check_matches"@,
        "output"@ != "files_changed"@,
        "output"@ != "matched_preview"@,
        "matches"@ != "count"@,
        "matches"@ != "warnings"@,
        "matches"@ != "error"@,
        "matches"@ != "replacements"@,
        "matches"@ != "sg_warning"@,
        "matches"@ != "suggestion"@,
        "matches"@ != "dry_run"@,
        "matches"@ != "pre_check_matches"@,
        "matches"@ != "files_changed"@,
        "matches"@ != "matched_preview"@,
        "count"@ != "warnings"@,
        "count"@ != "error"@,
        "count"@ != "replacements"@,
        "count"@ != "sg_warning"@,
        "count"@ != "suggestion"@,
        "count"@ != "dry_run"@,
        "count"@ != "pre_check_matches"@,
        "count"@ != "files_changed"@,
        "count"@ != "matched_preview"@,
        "warnings"@ != "error"@,
        "warnings"@ != "replacements"@,
        "warnings"@ != "sg_warning"@,
        "warnings"@ != "suggestion"@,
        "warnings"@ != "dry_run"@,
        "warnings"@ != "pre_check_matches"@,
        "warnings"@ != "files_changed"@,
        "warnings"@ != "matched_preview"@,
        "error"@ != "replacements"@,
        "error"@ != "sg_warning"@,
        "error"@ != "suggestion"@,
        "error"@ != "dry_run"@,
        "error"@ != "pre_check_matches"@,
        "error"@ != "files_changed"@,
        "error"@ != "matched_preview"@,
        "replacements"@ != "sg_warning"@,
        "replacements"@ != "suggestion"@,
        "replacements"@ != "dry_run"@,
        "replacements"@ != "pre_check_matches"@,
        "replacements"@ != "files_changed"@,
        "replacements"@ != "matched_preview"@,
        "sg_warning"@ != "suggestion"@,
        "sg_warning"@ != "dry_run"@,
        "sg_warning"@ != "pre_check_matches"@,
        "sg_warning"@ != "files_changed"@,
        "sg_warning"@ != "matched_preview"@,
        "suggestion"@ != "dry_run"@,
        "suggestion"@ != "pre_check_matches"@,
        "suggestion"@ != "files_changed"@,
        "suggestion"@ != "matched_preview"@,
        "dry_run"@ != "pre_check_matches"@,
        "dry_run"@ != "files_changed"@,
        "dry_run"@ != "matched_preview"@,
        "pre_check_matches"@ != "files_changed"@,
        "pre_check_matches"@ != "matched_preview"@,
        "files_changed"@ != "matched_preview"@,
{
        reveal_strlit("success");
        reveal_strlit("output");
        reveal_strlit("matches");
        reveal_strlit("count");
        reveal_strlit("warnings");
        reveal_strlit("error");
        reveal_strlit("replacements");
        reveal_strlit("sg_warning");
        reveal_strlit("suggestion");
        reveal_strlit("dry_run");
        reveal_strlit("pre_check_matches");
        reveal_strlit("files_changed");
        reveal_strlit("matched_preview");
        assert("success"@[0] != "output"@[0]);
        assert("success"@[0] != "matches"@[0]);
        assert("success"@[0] != "count"@[0]);
        assert("success"@[0] != "warnings"@[0]);
        assert("success"@[0] != "error"@[0]);
        assert("success"@[0] != "replacements"@[0]);
        assert("success"@[1] != "sg_warning"@[1]);
        assert("success"@[2] != "suggestion"@[2]);
        assert("success"@[0] != "dry_run"@[0]);
        assert("success"@[0] != "pre_check_matches"@[0]);
        assert("success"@[0] != "files_changed"@[0]);
        assert("success"@[0] != "matched_preview"@[0]);
        assert("output"@[0] != "matches"@[0]);
        assert("output"@[0] != "count"@[0]);
        assert("output"@[0] != "warnings"@[0]);
        assert("output"@[0] != "error"@[0]);
        assert("output"@[0] != "replacements"@[0]);
        assert("output"@[0] != "sg_warning"@[0]);
        assert("output"@[0] != "suggestion"@[0]);
        assert("output"@[0] != "dry_run"@[0]);
        assert("output"@[0] != "pre_check_matches"@[0]);
        assert("output"@[0] != "files_changed"@[0]);
        assert("output"@[0] != "matched_preview"@[0]);
        assert("matches"@[0] != "count"@[0]);
        assert("matches"@[0] != "warnings"@[0]);
        assert("matches"@[0] != "error"@[0]);
        assert("matches"@[0] != "replacements"@[0]);
        assert("matches"@[0] != "sg_warning"@[0]);
        assert("matches"@[0] != "suggestion"@[0]);
        assert("matches"@[0] != "dry_run"@[0]);
        assert("matches"@[0] != "pre_check_matches"@[0]);
        assert("matches"@[0] != "files_changed"@[0]);
        assert("matches"@[6] != "matched_preview"@[6]);
        assert("count"@[0] != "warnings"@[0]);
        assert("count"@[0] != "error"@[0]);
        assert("count"@[0] != "replacements"@[0]);
        assert("count"@[0] != "sg_warning"@[0]);
        assert("count"@[0] != "suggestion"@[0]);
        assert("count"@[0] != "dry_run"@[0]);
        assert("count"@[0] != "pre_check_matches"@[0]);
        assert("count"@[0] != "files_changed"@[0]);
        assert("count"@[0] != "matched_preview"@[0]);
        assert("warnings"@[0] != "error"@[0]);
        assert("warnings"@[0] != "replacements"@[0]);
        assert("warnings"@[0] != "sg_warning"@[0]);
        assert("warnings"@[0] != "suggestion"@[0]);
        assert("warnings"@[0] != "dry_run"@[0]);
        assert("warnings"@[0] != "pre_check_matches"@[0]);
        assert("warnings"@[0] != "files_changed"@[0]);
        assert("warnings"@[0] != "matched_preview"@[0]);
        assert("error"@[0] != "replacements"@[0]);
        assert("error"@[0] != "sg_warning"@[0]);
        assert("error"@[0] != "suggestion"@[0]);
        assert("error"@[0] != "dry_run"@[0]);
        assert("error"@[0] != "pre_check_matches"@[0]);
        assert("error"@[0] != "files_changed"@[0]);
        assert("error"@[0] != "matched_preview"@[0]);
        assert("replacements"@[0] != "sg_warning"@[0]);
        assert("replacements"@[0] != "suggestion"@[0]);
        assert("replacements"@[0] != "dry_run"@[0]);
        assert("replacements"@[0] != "pre_check_matches"@[0]);
        assert("replacements"@[0] != "files_changed"@[0]);
        assert("replacements"@[0] != "matched_preview"@[0]);
        assert("sg_warning"@[1] != "suggestion"@[1]);
        assert("sg_warning"@[0] != "dry_run"@[0]);
        assert("sg_warning"@[0] != "pre_check_matches"@[0]);
        assert("sg_warning"@[0] != "files_changed"@[0]);
        assert("sg_warning"@[0] != "matched_preview"@[0]);
        assert("suggestion"@[0] != "dry_run"@[0]);
        assert("suggestion"@[0] != "pre_check_matches"@[0]);
        assert("suggestion"@[0] != "files_changed"@[0]);
        assert("suggestion"@[0] != "matched_preview"@[0]);
        assert("dry_run"@[0] != "pre_check_matches"@[0]);
        assert("dry_run"@[0] != "files_changed"@[0]);
        assert("dry_run"@[0] != "matched_preview"@[0]);
        assert("pre_check_matches"@[0] != "files_changed"@[0]);
        assert("pre_check_matches"@[0] != "matched_preview"@[0]);
        assert("files_changed"@[0] != "matched_preview"@[0]);
}

} // verus!
