//! Which paths the tools may touch: the blocked-directory rules and the
//! decision that is made once the project root, the target and the extra
//! allowed roots have been made canonical.

use vstd::prelude::*;
use std::path::{Component, Path};
use crate::text::{chars_eq, chars_of, push_str_chars, string_of};

verus! {

broadcast use vstd::string::group_string_axioms;

/// The kind of one component of a path.
#[derive(Clone, Copy, Debug, PartialEq, Eq, Structural)]
pub enum PartKind {
    Prefix,
    Root,
    Cur,
    Parent,
    Normal,
}

/// One component of a path: its kind and its text.
#[derive(Clone, Debug)]
pub struct PathPart {
    pub kind: PartKind,
    pub text: String,
}

impl View for PathPart {
    type V = (PartKind, Seq<char>);

    open spec fn view(&self) -> (PartKind, Seq<char>) {
        (self.kind, self.text@)
    }
}

pub open spec fn parts_view(v: Seq<PathPart>) -> Seq<(PartKind, Seq<char>)> {
    Seq::new(v.len(), |i: int| v[i]@)
}

/// The components that `Path::components` yields for a path.
pub uninterp spec fn spec_components(s: Seq<char>) -> Seq<(PartKind, Seq<char>)>;

/// The path that `Path::join` builds.
pub uninterp spec fn spec_join(base: Seq<char>, p: Seq<char>) -> Seq<char>;

/// Whether `Path::is_absolute` holds of a path.
pub uninterp spec fn spec_is_absolute(s: Seq<char>) -> bool;

/// `Path::components` of `s`, each component taken as its kind and its text
/// (`Component::as_os_str`). The contract names the result and says nothing
/// of how the platform splits a path.
#[verifier::external_body]
fn components(s: &str) -> (r: Vec<PathPart>)
    ensures
        parts_view(r@) == spec_components(s@),
{
    let mut v = Vec::new();
    for c in Path::new(s).components() {
        let kind = match c {
            Component::Prefix(_) => PartKind::Prefix,
            Component::RootDir => PartKind::Root,
            Component::CurDir => PartKind::Cur,
            Component::ParentDir => PartKind::Parent,
            Component::Normal(_) => PartKind::Normal,
        };
        v.push(PathPart { kind, text: c.as_os_str().to_string_lossy().into_owned() });
    }
    v
}

/// `Path::join` of `base` and `p`, as text. The result is named only.
#[verifier::external_body]
fn join(base: &str, p: &str) -> (r: String)
    ensures
        r@ == spec_join(base@, p@),
{
    Path::new(base).join(p).to_string_lossy().into_owned()
}

/// `Path::is_absolute` of `s`. The result is named only.
#[verifier::external_body]
fn is_absolute(s: &str) -> (r: bool)
    ensures
        r == spec_is_absolute(s@),
{
    Path::new(s).is_absolute()
}

/// The directories that the tools never enter.
pub open spec fn tool_blocked_dirs() -> Seq<Seq<char>> {
    seq![
        ".git"@,
        "target"@,
        "node_modules"@,
        "__pycache__"@,
        ".next"@,
        ".venv"@,
        "venv"@,
        "env"@,
        ".env"@,
        "dist"@,
        "build"@,
        "out"@,
        ".cargo"@,
        "vendor"@,
        ".idea"@,
        ".vscode"@,
        ".cache"@,
    ]
}

pub open spec fn hidden(n: Seq<char>) -> bool {
    n.len() > 0 && n[0] == '.'
}

/// The tools' rule: a hidden name, or one of `tool_blocked_dirs`.
pub open spec fn tool_blocked_name(n: Seq<char>) -> bool {
    hidden(n) || tool_blocked_dirs().contains(n)
}

/// The patcher's rule: a hidden name, or `target`, `node_modules`,
/// `__pycache__`, `vendor`, `.cargo`.
pub open spec fn patch_blocked_name(n: Seq<char>) -> bool {
    hidden(n) || n == "target"@ || n == "node_modules"@ || n == "__pycache__"@ || n == "vendor"@
        || n == ".cargo"@
}

/// Whose rule applies.
#[derive(Clone, Copy, Debug, PartialEq, Eq, Structural)]
pub enum Guard {
    Tools,
    Patch,
}

pub open spec fn blocked_name(g: Guard, n: Seq<char>) -> bool {
    match g {
        Guard::Tools => tool_blocked_name(n),
        Guard::Patch => patch_blocked_name(n),
    }
}

/// Some normal component of the path is blocked.
pub open spec fn parts_blocked(g: Guard, parts: Seq<(PartKind, Seq<char>)>) -> bool {
    exists|i: int|
        #![trigger parts[i]]
        0 <= i < parts.len() && parts[i].0 == PartKind::Normal && blocked_name(g, parts[i].1)
}

pub open spec fn path_blocked(g: Guard, s: Seq<char>) -> bool {
    parts_blocked(g, spec_components(s))
}

pub open spec fn is_prefix<A>(a: Seq<A>, b: Seq<A>) -> bool {
    a.len() <= b.len() && b.take(a.len() as int) == a
}

/// `Path::starts_with`: `base` is a prefix of `s`, component by component.
pub open spec fn path_starts_with(s: Seq<char>, base: Seq<char>) -> bool {
    is_prefix(spec_components(base), spec_components(s))
}

fn tool_blocked_list() -> (r: Vec<&'static str>)
    ensures
        r@.len() == tool_blocked_dirs().len(),
        forall|i: int| 0 <= i < r@.len() ==> (#[trigger] r@[i])@ == tool_blocked_dirs()[i],
{
    let r = vec![
        ".git",
        "target",
        "node_modules",
        "__pycache__",
        ".next",
        ".venv",
        "venv",
        "env",
        ".env",
        "dist",
        "build",
        "out",
        ".cargo",
        "vendor",
        ".idea",
        ".vscode",
        ".cache",
    ];
    r
}

fn is_str(name: &[char], s: &str) -> (r: bool)
    ensures
        r == (name@ == s@),
{
    let c = chars_of(s);
    chars_eq(name, c.as_slice())
}

fn tool_blocked_chars(name: &[char]) -> (r: bool)
    ensures
        r == tool_blocked_name(name@),
{
    if name.len() > 0 && name[0] == '.' {
        return true;
    }
    let list = tool_blocked_list();
    let mut i: usize = 0;
    while i < list.len()
        invariant
            i <= list@.len(),
            list@.len() == tool_blocked_dirs().len(),
            forall|k: int| 0 <= k < list@.len() ==> (#[trigger] list@[k])@ == tool_blocked_dirs()[k],
            forall|k: int| 0 <= k < i ==> tool_blocked_dirs()[k] != name@,
        decreases list.len() - i,
    {
        if is_str(name, list[i]) {
            assert(tool_blocked_dirs()[i as int] == name@);
            return true;
        }
        i += 1;
    }
    false
}

fn patch_blocked_chars(name: &[char]) -> (r: bool)
    ensures
        r == patch_blocked_name(name@),
{
    (name.len() > 0 && name[0] == '.') || is_str(name, "target") || is_str(name, "node_modules")
        || is_str(name, "__pycache__") || is_str(name, "vendor") || is_str(name, ".cargo")
}

/// A single path component that the tools never enter: a hidden name or
/// one of the build, cache and editor directories.
pub fn is_blocked_component(name: &str) -> (r: bool)
    ensures
        r == tool_blocked_name(name@),
{
    let c = chars_of(name);
    tool_blocked_chars(c.as_slice())
}

fn blocked_chars(g: Guard, name: &[char]) -> (r: bool)
    ensures
        r == blocked_name(g, name@),
{
    match g {
        Guard::Tools => tool_blocked_chars(name),
        Guard::Patch => patch_blocked_chars(name),
    }
}

fn parts_blocked_exec(g: Guard, parts: &Vec<PathPart>) -> (r: bool)
    ensures
        r == parts_blocked(g, parts_view(parts@)),
{
    let ghost pv = parts_view(parts@);
    let mut i: usize = 0;
    while i < parts.len()
        invariant
            i <= parts.len(),
            pv == parts_view(parts@),
            forall|k: int|
                #![trigger pv[k]]
                0 <= k < i ==> !(pv[k].0 == PartKind::Normal && blocked_name(g, pv[k].1)),
        decreases parts.len() - i,
    {
        let p = &parts[i];
        if p.kind == PartKind::Normal {
            let t = chars_of(p.text.as_str());
            if blocked_chars(g, t.as_slice()) {
                assert(pv[i as int].0 == PartKind::Normal && blocked_name(g, pv[i as int].1));
                return true;
            }
        }
        i += 1;
    }
    false
}

/// Whether some normal component of `path` is blocked under `g`'s rule.
pub fn path_has_blocked_part(g: Guard, path: &str) -> (r: bool)
    ensures
        r == path_blocked(g, path@),
{
    let parts = components(path);
    parts_blocked_exec(g, &parts)
}

/// Whether some normal component of `path` is one that the tools never
/// enter.
pub fn path_contains_blocked_dir(path: &str) -> (r: bool)
    ensures
        r == path_blocked(Guard::Tools, path@),
{
    path_has_blocked_part(Guard::Tools, path)
}

fn parts_prefix(base: &Vec<PathPart>, s: &Vec<PathPart>) -> (r: bool)
    ensures
        r == is_prefix(parts_view(base@), parts_view(s@)),
{
    let ghost bv = parts_view(base@);
    let ghost sv = parts_view(s@);
    if base.len() > s.len() {
        return false;
    }
    let mut i: usize = 0;
    while i < base.len()
        invariant
            i <= base.len() <= s.len(),
            bv == parts_view(base@),
            sv == parts_view(s@),
            sv.take(i as int) == bv.take(i as int),
        decreases base.len() - i,
    {
        let a = &base[i];
        let b = &s[i];
        let at = chars_of(a.text.as_str());
        let bt = chars_of(b.text.as_str());
        if !(a.kind == b.kind && chars_eq(at.as_slice(), bt.as_slice())) {
            assert(sv.take(bv.len() as int)[i as int] == sv[i as int]);
            assert(sv.take(bv.len() as int) != bv);
            return false;
        }
        proof {
            assert(sv[i as int] == bv[i as int]);
            assert(sv.take(i + 1) =~= sv.take(i as int).push(sv[i as int]));
            assert(bv.take(i + 1) =~= bv.take(i as int).push(bv[i as int]));
        }
        i += 1;
    }
    assert(bv.take(bv.len() as int) =~= bv);
    true
}

pub open spec fn opt_views(v: Seq<Option<String>>) -> Seq<Option<Seq<char>>> {
    Seq::new(
        v.len(),
        |i: int|
            match v[i] {
                Some(s) => Some(s@),
                None => None,
            },
    )
}

pub open spec fn res_view(r: Result<String, String>) -> Result<Seq<char>, Seq<char>> {
    match r {
        Ok(s) => Ok(s@),
        Err(e) => Err(e@),
    }
}

/// The target as first written: `path` itself when absolute, else `path`
/// under the root.
pub open spec fn raw_target(path: Seq<char>, root: Seq<char>) -> Seq<char> {
    if spec_is_absolute(path) {
        path
    } else {
        spec_join(root, path)
    }
}

/// The target lies under the root or under one of the allowed roots that
/// could be made canonical.
pub open spec fn under_allowed(t: Seq<char>, root: Seq<char>, allowed: Seq<Option<Seq<char>>>) -> bool {
    path_starts_with(t, root) || exists|i: int|
        #![trigger allowed[i]]
        0 <= i < allowed.len() && allowed[i] is Some && path_starts_with(t, allowed[i]->0)
}

pub open spec fn denied_blocked(path: Seq<char>) -> Seq<char> {
    "🚫 Access denied: '"@ + path + "' is inside a blocked directory"@
}

pub open spec fn denied_blocked_first(g: Guard, path: Seq<char>) -> Seq<char> {
    match g {
        Guard::Tools => "🚫 Access denied: '"@ + path
            + "' is inside a blocked directory (target, .git, node_modules, etc.)"@,
        Guard::Patch => denied_blocked(path),
    }
}

pub open spec fn denied_outside(path: Seq<char>, root: Seq<char>) -> Seq<char> {
    "🚫 Access denied: '"@ + path + "' is outside the project root ("@ + root
        + ") and not in allow_paths"@
}

/// What the access check answers: the canonical target, or the message
/// that refuses it.
pub open spec fn access(
    g: Guard,
    path: Seq<char>,
    root: Seq<char>,
    target: Result<Seq<char>, Seq<char>>,
    allowed: Seq<Option<Seq<char>>>,
) -> Result<Seq<char>, Seq<char>> {
    if path_blocked(g, raw_target(path, root)) {
        Err(denied_blocked_first(g, path))
    } else {
        match target {
            Err(e) => Err(e),
            Ok(t) => if !under_allowed(t, root, allowed) {
                Err(denied_outside(path, root))
            } else if path_blocked(g, t) {
                Err(denied_blocked(path))
            } else {
                Ok(t)
            },
        }
    }
}

fn cat3(a: &str, b: &str, c: &str) -> (r: String)
    ensures
        r@ == a@ + b@ + c@,
{
    let mut v: Vec<char> = Vec::new();
    push_str_chars(&mut v, a);
    push_str_chars(&mut v, b);
    push_str_chars(&mut v, c);
    string_of(v.as_slice())
}

/// Decides whether the tools may touch `path`, given the canonical project
/// root, the canonical target (or the message of the failure to make it
/// canonical) and each extra allowed root made canonical (`None` where that
/// failed, which skips it).
pub fn decide_access(
    g: Guard,
    path: &str,
    root: &str,
    target: Result<String, String>,
    allowed: &Vec<Option<String>>,
) -> (r: Result<String, String>)
    ensures
        res_view(r) == access(g, path@, root@, res_view(target), opt_views(allowed@)),
{
    let raw = if is_absolute(path) {
        string_of(chars_of(path).as_slice())
    } else {
        join(root, path)
    };
    if path_has_blocked_part(g, raw.as_str()) {
        let msg = match g {
            Guard::Tools => cat3(
                "🚫 Access denied: '",
                path,
                "' is inside a blocked directory (target, .git, node_modules, etc.)",
            ),
            Guard::Patch => cat3("🚫 Access denied: '", path, "' is inside a blocked directory"),
        };
        return Err(msg);
    }
    let t = match target {
        Err(e) => {
            return Err(e);
        },
        Ok(t) => t,
    };
    let tp = components(t.as_str());
    let rp = components(root);
    let ghost av = opt_views(allowed@);
    let mut ok = parts_prefix(&rp, &tp);
    let mut i: usize = 0;
    while i < allowed.len()
        invariant
            i <= allowed.len(),
            av == opt_views(allowed@),
            parts_view(tp@) == spec_components(t@),
            ok == (path_starts_with(t@, root@) || exists|k: int|
                #![trigger av[k]]
                0 <= k < i && av[k] is Some && path_starts_with(t@, av[k]->0)),
        decreases allowed.len() - i,
    {
        match &allowed[i] {
            Some(a) => {
                let ap = components(a.as_str());
                if parts_prefix(&ap, &tp) {
                    assert(av[i as int] is Some && path_starts_with(t@, av[i as int]->0));
                    ok = true;
                }
            },
            None => {},
        }
        i += 1;
    }
    if !ok {
        let mut v: Vec<char> = Vec::new();
        push_str_chars(&mut v, "🚫 Access denied: '");
        push_str_chars(&mut v, path);
        push_str_chars(&mut v, "' is outside the project root (");
        push_str_chars(&mut v, root);
        push_str_chars(&mut v, ") and not in allow_paths");
        return Err(string_of(v.as_slice()));
    }
    if parts_blocked_exec(g, &tp) {
        return Err(cat3("🚫 Access denied: '", path, "' is inside a blocked directory"));
    }
    Ok(t)
}

/// The tools' access check: `decide_access` under the tools' rule.
pub fn resolve_path(
    path: &str,
    root: &str,
    target: Result<String, String>,
    allowed: &Vec<Option<String>>,
) -> (r: Result<String, String>)
    ensures
        res_view(r) == access(Guard::Tools, path@, root@, res_view(target), opt_views(allowed@)),
{
    decide_access(Guard::Tools, path, root, target, allowed)
}

} // verus!
