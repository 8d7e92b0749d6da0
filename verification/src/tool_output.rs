//! Which tool a call names, and the replies of the file and process tools
//! built from what the file system and the commands gave back.

use vstd::prelude::*;
use crate::fmt::{decimal, decimal_chars};
use crate::insert_mode::{lemma_lex_total, lemma_lex_trans, lex_le, sorted_lex};
use crate::json::{as_str, get, get_str, JsonValue};
use crate::text::{
    chars_eq, chars_of, contains, contains_exec, extend_from, find, join_lines, join_with_newlines, lines,
    push_str_chars, replace_all, replace_all_exec, split_lines, string_of, trim, trimmed, views,
};
use crate::tool_reply::{
    err_reply, err_result, field_is, is_object, is_str, keys, ok_reply, ok_result, push_field, reply_is, signed_decimal, with_field,
    FieldVal,
};
use crate::tools::{escape_regex, escaped};

verus! {

broadcast use vstd::string::group_string_axioms;

// ------------------------------------------------------------- routing

/// The tools built into the agent.
#[derive(Debug, Clone, Copy, PartialEq, Eq, Structural)]
pub enum BuiltinTool {
    DaemonSkeleton,
    DaemonGetHash,
    DaemonFileInfo,
    DaemonCatalog,
    DaemonLocInfo,
    Ls,
    Grep,
    Sed,
    CreateFile,
    GitDiff,
    Search,
    Find,
    FindFuzzy,
    Read,
    CargoCheck,
    Undo,
    AstGrepSearch,
    AstGrepReplace,
    TaskCreate,
    TaskStep,
    TaskComplete,
    TaskList,
    AstExplain,
    TaskAbort,
    /// Apply SEARCH/REPLACE blocks to a file.
    ApplyPatch,
}

/// Where a tool call goes.
#[derive(Debug, Clone, Copy, PartialEq, Eq, Structural)]
pub enum ToolRoute {
    /// The tool is switched off in the configuration.
    Disabled,
    Builtin(BuiltinTool),
    /// The configured custom tool at this index.
    Custom(usize),
    Unknown,
}

/// The built-in tool called `name`, if any.
pub open spec fn builtin_named(name: Seq<char>) -> Option<BuiltinTool> {
    if name == "daemon_skeleton"@ {
        Some(BuiltinTool::DaemonSkeleton)
    } else if name == "daemon_get_hash"@ {
        Some(BuiltinTool::DaemonGetHash)
    } else if name == "daemon_file_info"@ {
        Some(BuiltinTool::DaemonFileInfo)
    } else if name == "daemon_catalog"@ {
        Some(BuiltinTool::DaemonCatalog)
    } else if name == "daemon_loc_info"@ {
        Some(BuiltinTool::DaemonLocInfo)
    } else if name == "codex_eyes_ls"@ {
        Some(BuiltinTool::Ls)
    } else if name == "codex_eyes_grep"@ {
        Some(BuiltinTool::Grep)
    } else if name == "codex_eyes_sed"@ {
        Some(BuiltinTool::Sed)
    } else if name == "codex_eyes_createFile"@ {
        Some(BuiltinTool::CreateFile)
    } else if name == "codex_eyes_gitdiff"@ {
        Some(BuiltinTool::GitDiff)
    } else if name == "codex_eyes_search"@ {
        Some(BuiltinTool::Search)
    } else if name == "codex_eyes_find"@ {
        Some(BuiltinTool::Find)
    } else if name == "codex_eyes_find_fuzzy"@ {
        Some(BuiltinTool::FindFuzzy)
    } else if name == "codex_eyes_read"@ {
        Some(BuiltinTool::Read)
    } else if name == "codex_eyes_cargo_check"@ {
        Some(BuiltinTool::CargoCheck)
    } else if name == "codex_eyes_undo"@ {
        Some(BuiltinTool::Undo)
    } else if name == "ast_grep_search"@ {
        Some(BuiltinTool::AstGrepSearch)
    } else if name == "ast_grep_replace"@ {
        Some(BuiltinTool::AstGrepReplace)
    } else if name == "task_create"@ {
        Some(BuiltinTool::TaskCreate)
    } else if name == "task_step"@ {
        Some(BuiltinTool::TaskStep)
    } else if name == "task_complete"@ {
        Some(BuiltinTool::TaskComplete)
    } else if name == "task_list"@ {
        Some(BuiltinTool::TaskList)
    } else if name == "ast_explain"@ {
        Some(BuiltinTool::AstExplain)
    } else if name == "task_abort"@ {
        Some(BuiltinTool::TaskAbort)
    } else if name == "apply_patch"@ {
        Some(BuiltinTool::ApplyPatch)
    } else {
        None
    }
}

/// The name under which the model calls each built-in tool.
pub open spec fn builtin_tool_name(t: BuiltinTool) -> Seq<char> {
    match t {
        BuiltinTool::DaemonSkeleton => "daemon_skeleton"@,
        BuiltinTool::DaemonGetHash => "daemon_get_hash"@,
        BuiltinTool::DaemonFileInfo => "daemon_file_info"@,
        BuiltinTool::DaemonCatalog => "daemon_catalog"@,
        BuiltinTool::DaemonLocInfo => "daemon_loc_info"@,
        BuiltinTool::Ls => "codex_eyes_ls"@,
        BuiltinTool::Grep => "codex_eyes_grep"@,
        BuiltinTool::Sed => "codex_eyes_sed"@,
        BuiltinTool::CreateFile => "codex_eyes_createFile"@,
        BuiltinTool::GitDiff => "codex_eyes_gitdiff"@,
        BuiltinTool::Search => "codex_eyes_search"@,
        BuiltinTool::Find => "codex_eyes_find"@,
        BuiltinTool::FindFuzzy => "codex_eyes_find_fuzzy"@,
        BuiltinTool::Read => "codex_eyes_read"@,
        BuiltinTool::CargoCheck => "codex_eyes_cargo_check"@,
        BuiltinTool::Undo => "codex_eyes_undo"@,
        BuiltinTool::AstGrepSearch => "ast_grep_search"@,
        BuiltinTool::AstGrepReplace => "ast_grep_replace"@,
        BuiltinTool::TaskCreate => "task_create"@,
        BuiltinTool::TaskStep => "task_step"@,
        BuiltinTool::TaskComplete => "task_complete"@,
        BuiltinTool::TaskList => "task_list"@,
        BuiltinTool::AstExplain => "ast_explain"@,
        BuiltinTool::TaskAbort => "task_abort"@,
        BuiltinTool::ApplyPatch => "apply_patch"@,
    }
}

/// Each built-in tool's name routes to that tool and no other, whatever
/// the custom tools are called, and a name routes to a built-in tool only
/// when it is that tool's name.
pub proof fn law_builtin_names_route_to_their_tool(t: BuiltinTool, name: Seq<char>, custom: Seq<Seq<char>>)
    ensures
        route_spec(builtin_tool_name(t), false, custom) == ToolRoute::Builtin(t),
        route_spec(name, false, custom) == ToolRoute::Builtin(t) ==> name == builtin_tool_name(t),
{
    reveal_strlit("daemon_skeleton");
    reveal_strlit("daemon_get_hash");
    reveal_strlit("daemon_file_info");
    reveal_strlit("daemon_catalog");
    reveal_strlit("daemon_loc_info");
    reveal_strlit("codex_eyes_ls");
    reveal_strlit("codex_eyes_grep");
    reveal_strlit("codex_eyes_sed");
    reveal_strlit("codex_eyes_createFile");
    reveal_strlit("codex_eyes_gitdiff");
    reveal_strlit("codex_eyes_search");
    reveal_strlit("codex_eyes_find");
    reveal_strlit("codex_eyes_find_fuzzy");
    reveal_strlit("codex_eyes_read");
    reveal_strlit("codex_eyes_cargo_check");
    reveal_strlit("codex_eyes_undo");
    reveal_strlit("ast_grep_search");
    reveal_strlit("ast_grep_replace");
    reveal_strlit("task_create");
    reveal_strlit("task_step");
    reveal_strlit("task_complete");
    reveal_strlit("task_list");
    reveal_strlit("ast_explain");
    reveal_strlit("task_abort");
    reveal_strlit("apply_patch");
    assert("daemon_skeleton"@.len() == 15);
    assert("daemon_get_hash"@.len() == 15);
    assert("daemon_file_info"@.len() == 16);
    assert("daemon_catalog"@.len() == 14);
    assert("daemon_loc_info"@.len() == 15);
    assert("codex_eyes_ls"@.len() == 13);
    assert("codex_eyes_grep"@.len() == 15);
    assert("codex_eyes_sed"@.len() == 14);
    assert("codex_eyes_createFile"@.len() == 21);
    assert("codex_eyes_gitdiff"@.len() == 18);
    assert("codex_eyes_search"@.len() == 17);
    assert("codex_eyes_find"@.len() == 15);
    assert("codex_eyes_find_fuzzy"@.len() == 21);
    assert("codex_eyes_read"@.len() == 15);
    assert("codex_eyes_cargo_check"@.len() == 22);
    assert("codex_eyes_undo"@.len() == 15);
    assert("ast_grep_search"@.len() == 15);
    assert("ast_grep_replace"@.len() == 16);
    assert("task_create"@.len() == 11);
    assert("task_step"@.len() == 9);
    assert("task_complete"@.len() == 13);
    assert("task_list"@.len() == 9);
    assert("ast_explain"@.len() == 11);
    assert("task_abort"@.len() == 10);
    assert("apply_patch"@.len() == 11);
    assert("daemon_skeleton"@[7] != "daemon_get_hash"@[7]);
    assert("daemon_skeleton"@[7] != "daemon_loc_info"@[7]);
    assert("daemon_skeleton"@[0] != "codex_eyes_grep"@[0]);
    assert("daemon_skeleton"@[0] != "codex_eyes_find"@[0]);
    assert("daemon_skeleton"@[0] != "codex_eyes_read"@[0]);
    assert("daemon_skeleton"@[0] != "codex_eyes_undo"@[0]);
    assert("daemon_skeleton"@[0] != "ast_grep_search"@[0]);
    assert("daemon_get_hash"@[7] != "daemon_loc_info"@[7]);
    assert("daemon_get_hash"@[0] != "codex_eyes_grep"@[0]);
    assert("daemon_get_hash"@[0] != "codex_eyes_find"@[0]);
    assert("daemon_get_hash"@[0] != "codex_eyes_read"@[0]);
    assert("daemon_get_hash"@[0] != "codex_eyes_undo"@[0]);
    assert("daemon_get_hash"@[0] != "ast_grep_search"@[0]);
    assert("daemon_file_info"@[0] != "ast_grep_replace"@[0]);
    assert("daemon_catalog"@[0] != "codex_eyes_sed"@[0]);
    assert("daemon_loc_info"@[0] != "codex_eyes_grep"@[0]);
    assert("daemon_loc_info"@[0] != "codex_eyes_find"@[0]);
    assert("daemon_loc_info"@[0] != "codex_eyes_read"@[0]);
    assert("daemon_loc_info"@[0] != "codex_eyes_undo"@[0]);
    assert("daemon_loc_info"@[0] != "ast_grep_search"@[0]);
    assert("codex_eyes_ls"@[0] != "task_complete"@[0]);
    assert("codex_eyes_grep"@[11] != "codex_eyes_find"@[11]);
    assert("codex_eyes_grep"@[11] != "codex_eyes_read"@[11]);
    assert("codex_eyes_grep"@[11] != "codex_eyes_undo"@[11]);
    assert("codex_eyes_grep"@[0] != "ast_grep_search"@[0]);
    assert("codex_eyes_createFile"@[11] != "codex_eyes_find_fuzzy"@[11]);
    assert("codex_eyes_find"@[11] != "codex_eyes_read"@[11]);
    assert("codex_eyes_find"@[11] != "codex_eyes_undo"@[11]);
    assert("codex_eyes_find"@[0] != "ast_grep_search"@[0]);
    assert("codex_eyes_read"@[11] != "codex_eyes_undo"@[11]);
    assert("codex_eyes_read"@[0] != "ast_grep_search"@[0]);
    assert("codex_eyes_undo"@[0] != "ast_grep_search"@[0]);
    assert("task_create"@[0] != "ast_explain"@[0]);
    assert("task_create"@[0] != "apply_patch"@[0]);
    assert("task_step"@[5] != "task_list"@[5]);
    assert("ast_explain"@[1] != "apply_patch"@[1]);
}

fn same(a: &[char], lit: &str) -> (r: bool)
    ensures
        r == (a@ == lit@),
{
    chars_eq(a, chars_of(lit).as_slice())
}

fn builtin_named_exec(n: &[char]) -> (r: Option<BuiltinTool>)
    ensures
        r == builtin_named(n@),
{
    if same(n, "daemon_skeleton") {
        Some(BuiltinTool::DaemonSkeleton)
    } else if same(n, "daemon_get_hash") {
        Some(BuiltinTool::DaemonGetHash)
    } else if same(n, "daemon_file_info") {
        Some(BuiltinTool::DaemonFileInfo)
    } else if same(n, "daemon_catalog") {
        Some(BuiltinTool::DaemonCatalog)
    } else if same(n, "daemon_loc_info") {
        Some(BuiltinTool::DaemonLocInfo)
    } else if same(n, "codex_eyes_ls") {
        Some(BuiltinTool::Ls)
    } else if same(n, "codex_eyes_grep") {
        Some(BuiltinTool::Grep)
    } else if same(n, "codex_eyes_sed") {
        Some(BuiltinTool::Sed)
    } else if same(n, "codex_eyes_createFile") {
        Some(BuiltinTool::CreateFile)
    } else if same(n, "codex_eyes_gitdiff") {
        Some(BuiltinTool::GitDiff)
    } else if same(n, "codex_eyes_search") {
        Some(BuiltinTool::Search)
    } else if same(n, "codex_eyes_find") {
        Some(BuiltinTool::Find)
    } else if same(n, "codex_eyes_find_fuzzy") {
        Some(BuiltinTool::FindFuzzy)
    } else if same(n, "codex_eyes_read") {
        Some(BuiltinTool::Read)
    } else if same(n, "codex_eyes_cargo_check") {
        Some(BuiltinTool::CargoCheck)
    } else if same(n, "codex_eyes_undo") {
        Some(BuiltinTool::Undo)
    } else if same(n, "ast_grep_search") {
        Some(BuiltinTool::AstGrepSearch)
    } else if same(n, "ast_grep_replace") {
        Some(BuiltinTool::AstGrepReplace)
    } else if same(n, "task_create") {
        Some(BuiltinTool::TaskCreate)
    } else if same(n, "task_step") {
        Some(BuiltinTool::TaskStep)
    } else if same(n, "task_complete") {
        Some(BuiltinTool::TaskComplete)
    } else if same(n, "task_list") {
        Some(BuiltinTool::TaskList)
    } else if same(n, "ast_explain") {
        Some(BuiltinTool::AstExplain)
    } else if same(n, "task_abort") {
        Some(BuiltinTool::TaskAbort)
    } else if same(n, "apply_patch") {
        Some(BuiltinTool::ApplyPatch)
    } else {
        None
    }
}

/// The first custom tool with this name.
pub open spec fn first_custom(names: Seq<Seq<char>>, name: Seq<char>) -> Option<int>
    decreases names.len(),
{
    if names.len() == 0 {
        None
    } else {
        match first_custom(names.drop_last(), name) {
            Some(i) => Some(i),
            None => if names.last() == name {
                Some(names.len() - 1)
            } else {
                None
            },
        }
    }
}

pub open spec fn route_spec(name: Seq<char>, disabled: bool, custom: Seq<Seq<char>>) -> ToolRoute {
    if disabled {
        ToolRoute::Disabled
    } else {
        match builtin_named(name) {
            Some(t) => ToolRoute::Builtin(t),
            None => match first_custom(custom, name) {
                Some(i) => ToolRoute::Custom(i as usize),
                None => ToolRoute::Unknown,
            },
        }
    }
}

/// Where the call of tool `name` goes: nowhere when it is disabled, to the
/// built-in tool of that name, else to the first custom tool of that name.
pub fn route_tool(name: &str, disabled: bool, custom_names: &Vec<String>) -> (r: ToolRoute)
    ensures
        r == route_spec(name@, disabled, views(custom_names@)),
{
    if disabled {
        return ToolRoute::Disabled;
    }
    let n = chars_of(name);
    match builtin_named_exec(n.as_slice()) {
        Some(t) => {
            return ToolRoute::Builtin(t);
        },
        None => {},
    }
    let ghost cv = views(custom_names@);
    let mut j: usize = 0;
    while j < custom_names.len()
        invariant
            j <= custom_names@.len(),
            n@ == name@,
            !disabled,
            builtin_named(name@) is None,
            cv == views(custom_names@),
            first_custom(cv.take(j as int), name@) is None,
        decreases custom_names.len() - j,
    {
        assert(cv.take(j + 1).drop_last() =~= cv.take(j as int));
        if chars_eq(chars_of(custom_names[j].as_str()).as_slice(), n.as_slice()) {
            proof {
                lemma_first_custom_prefix(cv, name@, j + 1);
            }
            return ToolRoute::Custom(j);
        }
        j += 1;
    }
    assert(cv.take(custom_names.len() as int) =~= cv);
    ToolRoute::Unknown
}

proof fn lemma_first_custom_prefix(names: Seq<Seq<char>>, name: Seq<char>, n: int)
    requires
        0 < n <= names.len(),
        first_custom(names.take(n), name) is Some,
    ensures
        first_custom(names, name) == first_custom(names.take(n), name),
    decreases names.len() - n,
{
    if n < names.len() {
        assert(names.take(n + 1).drop_last() =~= names.take(n));
        lemma_first_custom_prefix(names, name, n + 1);
    } else {
        assert(names.take(n) =~= names);
    }
}

/// The reply to a call of a tool that is switched off.
pub fn disabled_result(name: &str) -> (r: JsonValue)
    ensures
        err_reply(r, "Tool '"@ + name@ + "' is disabled in config"@),
{
    let mut v: Vec<char> = Vec::new();
    push_str_chars(&mut v, "Tool '");
    push_str_chars(&mut v, name);
    push_str_chars(&mut v, "' is disabled in config");
    proof {
        reveal_strlit("Tool '");
        reveal_strlit("' is disabled in config");
        assert(v@ =~= "Tool '"@ + name@ + "' is disabled in config"@);
    }
    err_result(string_of(v.as_slice()).as_str())
}

/// The reply to a call of a tool nobody knows.
pub fn unknown_result(name: &str) -> (r: JsonValue)
    ensures
        err_reply(r, "Unknown tool: "@ + name@),
{
    let mut v: Vec<char> = Vec::new();
    push_str_chars(&mut v, "Unknown tool: ");
    push_str_chars(&mut v, name);
    proof {
        reveal_strlit("Unknown tool: ");
        assert(v@ =~= "Unknown tool: "@ + name@);
    }
    err_result(string_of(v.as_slice()).as_str())
}

/// The reply to a call that lacks a required argument.
pub fn missing_arg_result(arg: &str) -> (r: JsonValue)
    ensures
        err_reply(r, "Missing required argument: "@ + arg@),
{
    let mut v: Vec<char> = Vec::new();
    push_str_chars(&mut v, "Missing required argument: ");
    push_str_chars(&mut v, arg);
    proof {
        reveal_strlit("Missing required argument: ");
        assert(v@ =~= "Missing required argument: "@ + arg@);
    }
    err_result(string_of(v.as_slice()).as_str())
}


// ------------------------------------------------------------ file tools

/// The lines of `ls` below `n` that contain `pattern`, each numbered.
pub open spec fn numbered_hits(ls: Seq<Seq<char>>, pattern: Seq<char>, n: int) -> Seq<Seq<char>>
    decreases n,
{
    if n <= 0 {
        Seq::empty()
    } else {
        let before = numbered_hits(ls, pattern, n - 1);
        if contains(ls[n - 1], pattern) {
            before.push(decimal(n as nat) + ": "@ + ls[n - 1])
        } else {
            before
        }
    }
}

/// The output of `codex_eyes_search`: the numbered lines of a file that
/// contain the pattern.
pub open spec fn search_text(content: Seq<char>, pattern: Seq<char>, path: Seq<char>) -> Seq<char> {
    let ls = lines(content);
    let hits = numbered_hits(ls, pattern, ls.len() as int);
    if hits.len() == 0 {
        "No matches found for '"@ + pattern + "' in "@ + path
    } else {
        "Found "@ + decimal(hits.len()) + " match(es) for '"@ + pattern + "' in "@ + path + ":\n"@ + join_lines(hits)
    }
}

pub fn search_report(content: &str, pattern: &str, path: &str) -> (r: JsonValue)
    ensures
        ok_reply(r, search_text(content@, pattern@, path@)),
{
    let ls = split_lines(chars_of(content).as_slice());
    let ghost lv = ls@.map_values(|l: Vec<char>| l@);
    let p = chars_of(pattern);
    let mut hits: Vec<Vec<char>> = Vec::new();
    let mut i: usize = 0;
    while i < ls.len()
        invariant
            i <= ls.len(),
            lv == ls@.map_values(|l: Vec<char>| l@),
            lv == lines(content@),
            p@ == pattern@,
            hits@.map_values(|l: Vec<char>| l@) == numbered_hits(lv, pattern@, i as int),
        decreases ls.len() - i,
    {
        assert(lv[i as int] == ls@[i as int]@);
        if contains_exec(ls[i].as_slice(), p.as_slice()) {
            let mut h = decimal_chars((i + 1) as u128);
            push_str_chars(&mut h, ": ");
            extend_from(&mut h, ls[i].as_slice());
            proof {
                reveal_strlit(": ");
            }
            let ghost before = hits@.map_values(|l: Vec<char>| l@);
            hits.push(h);
            assert(hits@.map_values(|l: Vec<char>| l@) =~= before.push(
                decimal((i + 1) as nat) + ": "@ + lv[i as int],
            ));
        }
        i += 1;
    }
    let mut v: Vec<char> = Vec::new();
    if hits.len() == 0 {
        push_str_chars(&mut v, "No matches found for '");
        push_str_chars(&mut v, pattern);
        push_str_chars(&mut v, "' in ");
        push_str_chars(&mut v, path);
        proof {
            reveal_strlit("No matches found for '");
            reveal_strlit("' in ");
            assert(v@ =~= search_text(content@, pattern@, path@));
        }
    } else {
        push_str_chars(&mut v, "Found ");
        extend_from(&mut v, decimal_chars(hits.len() as u128).as_slice());
        push_str_chars(&mut v, " match(es) for '");
        push_str_chars(&mut v, pattern);
        push_str_chars(&mut v, "' in ");
        push_str_chars(&mut v, path);
        push_str_chars(&mut v, ":\n");
        let j = join_with_newlines(&hits);
        extend_from(&mut v, j.as_slice());
        proof {
            reveal_strlit("Found ");
            reveal_strlit(" match(es) for '");
            reveal_strlit("' in ");
            reveal_strlit(":\n");
            assert(v@ =~= search_text(content@, pattern@, path@));
        }
    }
    ok_result(string_of(v.as_slice()).as_str())
}

/// The number of lines that are not empty.
pub open spec fn nonempty_count(ls: Seq<Seq<char>>) -> nat
    decreases ls.len(),
{
    if ls.len() == 0 {
        0
    } else {
        nonempty_count(ls.drop_last()) + if ls.last().len() > 0 {
            1nat
        } else {
            0nat
        }
    }
}

/// The output of `codex_eyes_find` (and, with `fuzzy`, of
/// `codex_eyes_find_fuzzy`) from what `fd` printed.
pub open spec fn find_text(success: bool, stdout: Seq<char>, pattern: Seq<char>, path: Seq<char>, fuzzy: bool) -> Seq<
    char,
> {
    let how = if fuzzy {
        "fuzzy-matching '"@
    } else {
        "matching '"@
    };
    if success || trim(stdout).len() > 0 {
        "Found "@ + decimal(nonempty_count(lines(stdout))) + " file(s) "@ + how + pattern + "':\n"@ + trim(stdout)
    } else {
        "No files "@ + how + pattern + "' found in "@ + path
    }
}

pub fn find_report(success: bool, stdout: &str, pattern: &str, path: &str, fuzzy: bool) -> (r: JsonValue)
    ensures
        ok_reply(r, find_text(success, stdout@, pattern@, path@, fuzzy)),
{
    let out = chars_of(stdout);
    let t = trimmed(out.as_slice());
    let mut v: Vec<char> = Vec::new();
    let how = if fuzzy {
        "fuzzy-matching '"
    } else {
        "matching '"
    };
    if success || t.len() > 0 {
        let ls = split_lines(out.as_slice());
        let ghost lv = ls@.map_values(|l: Vec<char>| l@);
        let mut count: usize = 0;
        let mut i: usize = 0;
        while i < ls.len()
            invariant
                i <= ls.len(),
                lv == ls@.map_values(|l: Vec<char>| l@),
                count == nonempty_count(lv.take(i as int)),
                count <= i,
            decreases ls.len() - i,
        {
            assert(lv.take(i + 1).drop_last() =~= lv.take(i as int));
            if ls[i].len() > 0 {
                count += 1;
            }
            i += 1;
        }
        assert(lv.take(ls.len() as int) =~= lv);
        push_str_chars(&mut v, "Found ");
        extend_from(&mut v, decimal_chars(count as u128).as_slice());
        push_str_chars(&mut v, " file(s) ");
        push_str_chars(&mut v, how);
        push_str_chars(&mut v, pattern);
        push_str_chars(&mut v, "':\n");
        extend_from(&mut v, t.as_slice());
        proof {
            reveal_strlit("Found ");
            reveal_strlit(" file(s) ");
            reveal_strlit("':\n");
            assert(v@ =~= find_text(success, stdout@, pattern@, path@, fuzzy));
        }
    } else {
        push_str_chars(&mut v, "No files ");
        push_str_chars(&mut v, how);
        push_str_chars(&mut v, pattern);
        push_str_chars(&mut v, "' found in ");
        push_str_chars(&mut v, path);
        proof {
            reveal_strlit("No files ");
            reveal_strlit("' found in ");
            assert(v@ =~= find_text(success, stdout@, pattern@, path@, fuzzy));
        }
    }
    ok_result(string_of(v.as_slice()).as_str())
}

/// The `fd` pattern for a fuzzy search: each character, escaped, followed
/// by `.*`.
pub open spec fn fuzzy(s: Seq<char>) -> Seq<char>
    decreases s.len(),
{
    if s.len() == 0 {
        Seq::empty()
    } else {
        fuzzy(s.drop_last()) + escaped(seq![s.last()]) + ".*"@
    }
}

pub fn fuzzy_pattern(pattern: &str) -> (r: String)
    ensures
        r@ == fuzzy(pattern@),
{
    let c = chars_of(pattern);
    let mut v: Vec<char> = Vec::new();
    let mut i: usize = 0;
    while i < c.len()
        invariant
            i <= c.len(),
            c@ == pattern@,
            v@ == fuzzy(c@.take(i as int)),
        decreases c.len() - i,
    {
        assert(c@.take(i + 1).drop_last() =~= c@.take(i as int));
        let one = string_of(&[c[i]]);
        let e = escape_regex(one.as_str());
        push_str_chars(&mut v, e.as_str());
        push_str_chars(&mut v, ".*");
        proof {
            reveal_strlit(".*");
            assert(one@ =~= seq![c@[i as int]]);
            assert(v@ =~= fuzzy(c@.take(i + 1)));
        }
        i += 1;
    }
    assert(c@.take(c.len() as int) =~= c@);
    string_of(v.as_slice())
}

// ------------------------------------------------------------- processes

/// The fields of a finished command's reply.
pub open spec fn command_fields(exit_code: i32, stdout: Seq<char>, stderr: Seq<char>) -> Seq<(Seq<char>, FieldVal)> {
    seq![
        ("success"@, FieldVal::Bool(exit_code == 0)),
        ("exit_code"@, FieldVal::Int(exit_code as int)),
        ("stdout"@, FieldVal::Str(stdout)),
        ("stderr"@, FieldVal::Str(stderr)),
    ]
}

fn int_value(n: i32) -> (r: JsonValue)
    ensures
        field_is(Some(r), FieldVal::Int(n as int)),
{
    if n >= 0 {
        JsonValue::UInt(n as u64)
    } else {
        JsonValue::NegInt(n as i64)
    }
}

proof fn lemma_command_keys()
    ensures
        "success"@ != "exit_code"@,
        "success"@ != "stdout"@,
        "success"@ != "stderr"@,
        "success"@ != "output"@,
        "exit_code"@ != "stdout"@,
        "exit_code"@ != "stderr"@,
        "exit_code"@ != "output"@,
        "stdout"@ != "stderr"@,
        "stdout"@ != "output"@,
        "stderr"@ != "output"@,
{
    reveal_strlit("success");
    reveal_strlit("exit_code");
    reveal_strlit("stdout");
    reveal_strlit("stderr");
    reveal_strlit("output");
    assert("success"@[0] != "exit_code"@[0]);
    assert("success"@[1] != "stdout"@[1]);
    assert("success"@[1] != "stderr"@[1]);
    assert("success"@[0] != "output"@[0]);
    assert("exit_code"@[0] != "stdout"@[0]);
    assert("exit_code"@[0] != "stderr"@[0]);
    assert("exit_code"@[0] != "output"@[0]);
    assert("stdout"@[3] != "stderr"@[3]);
    assert("stdout"@[0] != "output"@[0]);
    assert("stderr"@[0] != "output"@[0]);
}

fn command_object(exit_code: i32, stdout: &str, stderr: &str) -> (r: JsonValue)
    ensures
        reply_is(r, command_fields(exit_code, stdout@, stderr@)),
{
    proof {
        lemma_command_keys();
    }
    let ghost spec = command_fields(exit_code, stdout@, stderr@);
    let r0 = JsonValue::Object(Vec::new());
    assert(keys(r0) =~= Seq::<Seq<char>>::empty());
    let r1 = push_field(r0, "success", JsonValue::Bool(exit_code == 0));
    let r2 = push_field(r1, "exit_code", int_value(exit_code));
    let r3 = push_field(r2, "stdout", JsonValue::Str(string_of(chars_of(stdout).as_slice())));
    let r4 = push_field(r3, "stderr", JsonValue::Str(string_of(chars_of(stderr).as_slice())));
    proof {
        assert(keys(r4) =~= Seq::new(spec.len(), |i: int| spec[i].0));
        assert(field_is(get(r4, spec[0].0), spec[0].1));
        assert(field_is(get(r4, spec[1].0), spec[1].1));
        assert(field_is(get(r4, spec[2].0), spec[2].1));
        assert(field_is(get(r4, spec[3].0), spec[3].1));
    }
    r4
}

/// The reply of a custom shell tool whose command finished.
pub fn command_result(exit_code: i32, stdout: &str, stderr: &str) -> (r: JsonValue)
    ensures
        reply_is(r, command_fields(exit_code, stdout@, stderr@)),
{
    command_object(exit_code, stdout, stderr)
}

/// What `cargo check` reports in its reply.
pub open spec fn cargo_text(exit_code: i32) -> Seq<char> {
    if exit_code == 0 {
        "cargo check passed — no compilation errors"@
    } else {
        "cargo check failed with exit code "@ + signed_decimal(exit_code as int)
    }
}

/// The reply of `codex_eyes_cargo_check` once `cargo check` finished.
pub fn cargo_check_result(exit_code: i32, stdout: &str, stderr: &str) -> (r: JsonValue)
    ensures
        reply_is(r, command_fields(exit_code, stdout@, stderr@).push(("output"@, FieldVal::Str(cargo_text(exit_code))))),
{
    proof {
        lemma_command_keys();
    }
    let ghost spec = command_fields(exit_code, stdout@, stderr@).push(("output"@, FieldVal::Str(cargo_text(exit_code))));
    let r4 = command_object(exit_code, stdout, stderr);
    let mut v: Vec<char> = Vec::new();
    if exit_code == 0 {
        push_str_chars(&mut v, "cargo check passed — no compilation errors");
    } else {
        push_str_chars(&mut v, "cargo check failed with exit code ");
        let d = crate::tool_reply::signed_decimal_exec(exit_code);
        extend_from(&mut v, d.as_slice());
        proof {
            reveal_strlit("cargo check failed with exit code ");
        }
    }
    assert(v@ =~= cargo_text(exit_code));
    let r5 = push_field(r4, "output", JsonValue::Str(string_of(v.as_slice())));
    proof {
        let base = command_fields(exit_code, stdout@, stderr@);
        assert(keys(r5) =~= Seq::new(spec.len(), |i: int| spec[i].0));
        assert forall|i: int| 0 <= i < spec.len() implies field_is(get(r5, #[trigger] spec[i].0), spec[i].1) by {
            if i < 4 {
                assert(spec[i] == base[i]);
                assert(field_is(get(r4, base[i].0), base[i].1));
            }
        }
    }
    r5
}

/// How long to wait before `cargo check` may run again: what is left of
/// the cooldown since the last run.
pub fn cooldown_wait(now: u64, last: u64, cooldown: u64) -> (w: u64)
    ensures
        w == if now >= last && now - last < cooldown {
            cooldown - (now - last)
        } else if now < last && cooldown > 0 {
            cooldown as int
        } else {
            0
        },
{
    let elapsed = now.saturating_sub(last);
    if elapsed < cooldown {
        cooldown - elapsed
    } else {
        0
    }
}

/// The reply of `codex_eyes_undo` once `git checkout` finished.
pub open spec fn undo_text(success: bool, path: Seq<char>, stdout: Seq<char>, stderr: Seq<char>) -> Seq<char> {
    if success {
        "Reverted "@ + path + " to git state. "@ + trim(stdout)
    } else {
        "git checkout failed: "@ + trim(stderr)
    }
}

pub fn undo_result(success: bool, path: &str, stdout: &str, stderr: &str) -> (r: JsonValue)
    ensures
        success ==> ok_reply(r, undo_text(success, path@, stdout@, stderr@)),
        !success ==> err_reply(r, undo_text(success, path@, stdout@, stderr@)),
{
    let mut v: Vec<char> = Vec::new();
    if success {
        push_str_chars(&mut v, "Reverted ");
        push_str_chars(&mut v, path);
        push_str_chars(&mut v, " to git state. ");
        extend_from(&mut v, trimmed(chars_of(stdout).as_slice()).as_slice());
        proof {
            reveal_strlit("Reverted ");
            reveal_strlit(" to git state. ");
            assert(v@ =~= undo_text(success, path@, stdout@, stderr@));
        }
        ok_result(string_of(v.as_slice()).as_str())
    } else {
        push_str_chars(&mut v, "git checkout failed: ");
        extend_from(&mut v, trimmed(chars_of(stderr).as_slice()).as_slice());
        proof {
            reveal_strlit("git checkout failed: ");
            assert(v@ =~= undo_text(success, path@, stdout@, stderr@));
        }
        err_result(string_of(v.as_slice()).as_str())
    }
}

/// The command of a custom tool: its template with each `{{key}}` replaced
/// by the argument's text, the arguments taken in order.
pub open spec fn filled(template: Seq<char>, args: Seq<(Seq<char>, Seq<char>)>) -> Seq<char>
    decreases args.len(),
{
    if args.len() == 0 {
        template
    } else {
        let (k, v) = args.last();
        replace_all(filled(template, args.drop_last()), "{{"@ + k + "}}"@, v)
    }
}

pub open spec fn pair_views(v: Seq<(String, String)>) -> Seq<(Seq<char>, Seq<char>)> {
    Seq::new(v.len(), |i: int| (v[i].0@, v[i].1@))
}

/// What running a custom tool comes to: the shell command to run, or the
/// error reply when its template is blank or its kind is not `shell`.
pub open spec fn custom_plan(
    name: Seq<char>,
    exec_type: Seq<char>,
    template: Seq<char>,
    args: Seq<(Seq<char>, Seq<char>)>,
) -> Result<Seq<char>, Seq<char>> {
    if trim(template).len() == 0 {
        Err("Custom tool '"@ + name + "' has no command_template"@)
    } else if exec_type != "shell"@ {
        Err("Unsupported exec_type '"@ + exec_type + "' for custom tool '"@ + name + "'"@)
    } else {
        Ok(filled(template, args))
    }
}

/// The shell command of a custom tool, or its error reply. `args` holds
/// each argument's name and text (a string as it is, anything else as
/// JSON).
pub fn custom_command(name: &str, exec_type: &str, template: &str, args: &Vec<(String, String)>) -> (r: Result<
    String,
    JsonValue,
>)
    ensures
        match r {
            Ok(c) => custom_plan(name@, exec_type@, template@, pair_views(args@)) == Ok::<Seq<char>, Seq<char>>(c@),
            Err(e) => exists|m: Seq<char>|
                custom_plan(name@, exec_type@, template@, pair_views(args@)) == Err::<Seq<char>, Seq<char>>(m)
                    && err_reply(e, m),
        },
{
    let t = chars_of(template);
    if trimmed(t.as_slice()).len() == 0 {
        let mut v: Vec<char> = Vec::new();
        push_str_chars(&mut v, "Custom tool '");
        push_str_chars(&mut v, name);
        push_str_chars(&mut v, "' has no command_template");
        proof {
            reveal_strlit("Custom tool '");
            reveal_strlit("' has no command_template");
            assert(v@ =~= "Custom tool '"@ + name@ + "' has no command_template"@);
        }
        return Err(err_result(string_of(v.as_slice()).as_str()));
    }
    let mut cmd = t;
    let ghost av = pair_views(args@);
    let mut i: usize = 0;
    while i < args.len()
        invariant
            i <= args.len(),
            av == pair_views(args@),
            cmd@ == filled(template@, av.take(i as int)),
        decreases args.len() - i,
    {
        assert(av.take(i + 1).drop_last() =~= av.take(i as int));
        let mut ph: Vec<char> = Vec::new();
        push_str_chars(&mut ph, "{{");
        push_str_chars(&mut ph, args[i].0.as_str());
        push_str_chars(&mut ph, "}}");
        proof {
            reveal_strlit("{{");
            reveal_strlit("}}");
            assert(ph@ =~= "{{"@ + av[i as int].0 + "}}"@);
        }
        let val = chars_of(args[i].1.as_str());
        cmd = replace_all_exec(cmd.as_slice(), ph.as_slice(), val.as_slice());
        i += 1;
    }
    assert(av.take(args.len() as int) =~= av);
    let et = chars_of(exec_type);
    if !chars_eq(et.as_slice(), chars_of("shell").as_slice()) {
        let mut v: Vec<char> = Vec::new();
        push_str_chars(&mut v, "Unsupported exec_type '");
        push_str_chars(&mut v, exec_type);
        push_str_chars(&mut v, "' for custom tool '");
        push_str_chars(&mut v, name);
        push_str_chars(&mut v, "'");
        proof {
            reveal_strlit("Unsupported exec_type '");
            reveal_strlit("' for custom tool '");
            reveal_strlit("'");
            assert(v@ =~= "Unsupported exec_type '"@ + exec_type@ + "' for custom tool '"@ + name@ + "'"@);
        }
        return Err(err_result(string_of(v.as_slice()).as_str()));
    }
    Ok(string_of(cmd.as_slice()))
}

/// The reply of a codex-eyes binary run: its own reply when it succeeded
/// and printed one (`parsed`, its output read as a JSON object), its output
/// when it succeeded otherwise, else its error text and output.
pub open spec fn binary_fields(success: bool, stdout: Seq<char>, stderr: Seq<char>) -> Seq<(Seq<char>, FieldVal)> {
    if success {
        seq![("success"@, FieldVal::Bool(true)), ("output"@, FieldVal::Str(stdout))]
    } else {
        seq![
            ("success"@, FieldVal::Bool(false)),
            ("error"@, FieldVal::Str(trim(stderr))),
            ("output"@, FieldVal::Str(stdout)),
        ]
    }
}

pub fn binary_result(success: bool, stdout: &str, stderr: &str, parsed: Option<JsonValue>) -> (r: JsonValue)
    ensures
        (success && parsed is Some && is_object(parsed->0)) ==> r == parsed->0,
        !(success && parsed is Some && is_object(parsed->0)) ==> reply_is(r, binary_fields(success, stdout@, stderr@)),
{
    proof {
        crate::tool_reply::lemma_key_names();
    }
    if success {
        match parsed {
            Some(JsonValue::Object(fs)) => {
                return JsonValue::Object(fs);
            },
            _ => {},
        }
        let r = ok_result(stdout);
        proof {
            let spec = binary_fields(success, stdout@, stderr@);
            assert(keys(r) =~= Seq::new(spec.len(), |i: int| spec[i].0));
            assert(field_is(get(r, spec[0].0), spec[0].1));
            assert(field_is(get(r, spec[1].0), spec[1].1));
        }
        return r;
    }
    let r0 = err_result(string_of(trimmed(chars_of(stderr).as_slice()).as_slice()).as_str());
    let r1 = push_field(r0, "output", JsonValue::Str(string_of(chars_of(stdout).as_slice())));
    proof {
        let spec = binary_fields(success, stdout@, stderr@);
        reveal_strlit("error");
        reveal_strlit("output");
        assert("error"@[0] != "output"@[0]);
        assert(keys(r1) =~= Seq::new(spec.len(), |i: int| spec[i].0));
        assert(field_is(get(r1, spec[0].0), spec[0].1));
        assert(field_is(get(r1, spec[1].0), spec[1].1));
        assert(field_is(get(r1, spec[2].0), spec[2].1));
    }
    r1
}


// ------------------------------------------------------------ apply_patch

/// The arguments of an `apply_patch` call: the path and the patch text, or
/// the error for a missing argument or a blank patch.
pub open spec fn patch_args_spec(args: JsonValue) -> Result<(Seq<char>, Seq<char>), Seq<char>> {
    match as_str(get(args, "path"@)) {
        None => Err("Missing required argument: path"@),
        Some(p) => match as_str(get(args, "patch"@)) {
            None => Err("Missing required argument: patch"@),
            Some(t) => if trim(t).len() == 0 {
                Err("Empty patch text"@)
            } else {
                Ok((p, t))
            },
        },
    }
}

/// Reads the arguments of an `apply_patch` call; the error reply where one
/// is missing or the patch is blank.
pub fn patch_args(args: &JsonValue) -> (r: Result<(String, String), JsonValue>)
    ensures
        match r {
            Ok((p, t)) => patch_args_spec(*args) == Ok::<(Seq<char>, Seq<char>), Seq<char>>((p@, t@)),
            Err(e) => exists|m: Seq<char>|
                patch_args_spec(*args) == Err::<(Seq<char>, Seq<char>), Seq<char>>(m) && err_reply(e, m),
        },
{
    let p = match get_str(args, "path") {
        Some(p) => string_of(chars_of(p.as_str()).as_slice()),
        None => {
            let e = missing_arg_result("path");
            proof {
                reveal_strlit("Missing required argument: ");
                reveal_strlit("path");
                reveal_strlit("Missing required argument: path");
                assert("Missing required argument: "@ + "path"@ =~= "Missing required argument: path"@);
            }
            return Err(e);
        },
    };
    let t = match get_str(args, "patch") {
        Some(t) => string_of(chars_of(t.as_str()).as_slice()),
        None => {
            let e = missing_arg_result("patch");
            proof {
                reveal_strlit("Missing required argument: ");
                reveal_strlit("patch");
                reveal_strlit("Missing required argument: patch");
                assert("Missing required argument: "@ + "patch"@ =~= "Missing required argument: patch"@);
            }
            return Err(e);
        },
    };
    if trimmed(chars_of(t.as_str()).as_slice()).len() == 0 {
        return Err(err_result("Empty patch text"));
    }
    Ok((p, t))
}

/// What the program found of the file a patch names.
pub enum PatchTarget {
    /// The access check refused the path, with this message.
    Refused(String),
    Missing,
    Directory,
    /// Reading it failed with this error.
    Unreadable(String),
    /// Its text.
    Text(String),
}

pub enum TargetView {
    Refused(Seq<char>),
    Missing,
    Directory,
    Unreadable(Seq<char>),
    Text(Seq<char>),
}

impl View for PatchTarget {
    type V = TargetView;

    open spec fn view(&self) -> TargetView {
        match self {
            PatchTarget::Refused(m) => TargetView::Refused(m@),
            PatchTarget::Missing => TargetView::Missing,
            PatchTarget::Directory => TargetView::Directory,
            PatchTarget::Unreadable(e) => TargetView::Unreadable(e@),
            PatchTarget::Text(t) => TargetView::Text(t@),
        }
    }
}

/// What applying `patch` to the file `path` comes to: the new text to
/// write and the success message, or the error message.
pub open spec fn patch_file_spec(path: Seq<char>, patch: Seq<char>, target: TargetView) -> Result<
    (Seq<char>, Seq<char>),
    Seq<char>,
> {
    match target {
        TargetView::Refused(m) => Err(m),
        TargetView::Missing => Err("File does not exist: "@ + path),
        TargetView::Directory => Err("Path is a directory, not a file: "@ + path),
        TargetView::Unreadable(e) => Err("Failed to read "@ + path + ": "@ + e),
        TargetView::Text(content) => match crate::apply::apply_blocks(content, patch) {
            Ok((text, n)) => Ok((text, crate::apply::success_text(path, n))),
            Err(f) => Err(crate::apply::failure_text(f, path)),
        },
    }
}

fn cat(a: &str, b: &str) -> (r: String)
    ensures
        r@ == a@ + b@,
{
    let mut v: Vec<char> = Vec::new();
    push_str_chars(&mut v, a);
    push_str_chars(&mut v, b);
    string_of(v.as_slice())
}

/// Applies `patch` to the file `path` as the program found it.
pub fn patch_file(path: &str, patch: &str, target: PatchTarget) -> (r: Result<(String, String), String>)
    ensures
        match r {
            Ok((t, m)) => patch_file_spec(path@, patch@, target@) == Ok::<(Seq<char>, Seq<char>), Seq<char>>(
                (t@, m@),
            ),
            Err(e) => patch_file_spec(path@, patch@, target@) == Err::<(Seq<char>, Seq<char>), Seq<char>>(e@),
        },
{
    match target {
        PatchTarget::Refused(m) => Err(m),
        PatchTarget::Missing => Err(cat("File does not exist: ", path)),
        PatchTarget::Directory => Err(cat("Path is a directory, not a file: ", path)),
        PatchTarget::Unreadable(e) => {
            let a = cat("Failed to read ", path);
            let b = cat(a.as_str(), ": ");
            Err(cat(b.as_str(), e.as_str()))
        },
        PatchTarget::Text(content) => match crate::apply::apply_patch_text(content.as_str(), patch) {
            Ok((text, n)) => Ok((text, crate::apply::success_message(path, n))),
            Err(f) => Err(f.message(path)),
        },
    }
}

/// The reply of `apply_patch`: its message on success, else its error.
pub fn patch_reply(outcome: Result<String, String>) -> (r: JsonValue)
    ensures
        match outcome {
            Ok(m) => ok_reply(r, m@),
            Err(e) => err_reply(r, e@),
        },
{
    match outcome {
        Ok(m) => ok_result(m.as_str()),
        Err(e) => err_result(e.as_str()),
    }
}

// ------------------------------------------------------------ sed

/// The arguments of a `codex_eyes_sed` call: the path, the text to find,
/// its replacement and whether every occurrence is replaced (the default);
/// or the error message.
pub open spec fn sed_args_spec(args: JsonValue) -> Result<(Seq<char>, Seq<char>, Seq<char>, bool), Seq<char>> {
    match as_str(get(args, "path"@)) {
        None => Err("Missing required argument: "@ + "path"@),
        Some(p) => match as_str(get(args, "find"@)) {
            None => Err("Missing required argument: "@ + "find"@),
            Some(f) => match as_str(get(args, "replace"@)) {
                None => Err("Missing required argument: "@ + "replace"@),
                Some(r) => if f.len() == 0 {
                    Err("Find pattern cannot be empty"@)
                } else {
                    Ok(
                        (
                            p,
                            f,
                            r,
                            match crate::json::as_bool(get(args, "replace_all"@)) {
                                Some(b) => b,
                                None => true,
                            },
                        ),
                    )
                },
            },
        },
    }
}

/// Reads the arguments of a `codex_eyes_sed` call; the error reply where
/// one is missing or the text to find is empty.
pub fn sed_args(args: &JsonValue) -> (r: Result<(String, String, String, bool), JsonValue>)
    ensures
        match r {
            Ok((p, f, x, all)) => sed_args_spec(*args) == Ok::<
                (Seq<char>, Seq<char>, Seq<char>, bool),
                Seq<char>,
            >((p@, f@, x@, all)),
            Err(e) => exists|m: Seq<char>|
                sed_args_spec(*args) == Err::<(Seq<char>, Seq<char>, Seq<char>, bool), Seq<char>>(m) && err_reply(
                    e,
                    m,
                ),
        },
{
    let p = match get_str(args, "path") {
        Some(p) => string_of(chars_of(p.as_str()).as_slice()),
        None => {
            return Err(missing_arg_result("path"));
        },
    };
    let f = match get_str(args, "find") {
        Some(f) => string_of(chars_of(f.as_str()).as_slice()),
        None => {
            return Err(missing_arg_result("find"));
        },
    };
    let x = match get_str(args, "replace") {
        Some(x) => string_of(chars_of(x.as_str()).as_slice()),
        None => {
            return Err(missing_arg_result("replace"));
        },
    };
    let all = match crate::json::get_bool(args, "replace_all") {
        Some(b) => b,
        None => true,
    };
    if chars_of(f.as_str()).len() == 0 {
        return Err(err_result("Find pattern cannot be empty"));
    }
    Ok((p, f, x, all))
}

/// What the edit of `sed` comes to on the file `path`: the new text, the
/// number of replacements and the report; or the error message.
pub open spec fn sed_file_spec(path: Seq<char>, f: Seq<char>, x: Seq<char>, all: bool, target: TargetView) -> Result<
    (Seq<char>, nat, Seq<char>),
    Seq<char>,
> {
    match target {
        TargetView::Refused(m) => Err(m),
        TargetView::Missing => Err("File does not exist: "@ + path),
        TargetView::Directory => Err("Path is a directory, not a file: "@ + path),
        TargetView::Unreadable(e) => Err("Failed to read file: "@ + e),
        TargetView::Text(c) => if find(c, f) is None {
            Err("Find pattern '"@ + f + "' not found in "@ + path)
        } else if all {
            let n = crate::tools::count_occurrences(c, f);
            Ok((replace_all(c, f, x), n, crate::tools::sed_report_text(n, f, path)))
        } else {
            Ok((crate::tools::replace_first(c, f, x), 1, crate::tools::sed_report_text(1, f, path)))
        },
    }
}

/// The edit of `sed` on the file `path` as the program found it.
pub fn sed_file(path: &str, f: &str, x: &str, all: bool, target: PatchTarget) -> (r: Result<(String, usize, String), String>)
    requires
        f@.len() > 0,
    ensures
        match r {
            Ok((t, n, m)) => sed_file_spec(path@, f@, x@, all, target@) == Ok::<(Seq<char>, nat, Seq<char>), Seq<char>>(
                (t@, n as nat, m@),
            ),
            Err(e) => sed_file_spec(path@, f@, x@, all, target@) == Err::<(Seq<char>, nat, Seq<char>), Seq<char>>(e@),
        },
{
    match target {
        PatchTarget::Refused(m) => Err(m),
        PatchTarget::Missing => Err(cat("File does not exist: ", path)),
        PatchTarget::Directory => Err(cat("Path is a directory, not a file: ", path)),
        PatchTarget::Unreadable(e) => Err(cat("Failed to read file: ", e.as_str())),
        PatchTarget::Text(c) => match crate::tools::sed_edit(c.as_str(), f, x, all) {
            None => {
                let a = cat("Find pattern '", f);
                let b = cat(a.as_str(), "' not found in ");
                Err(cat(b.as_str(), path))
            },
            Some((t, n)) => {
                let m = crate::tools::sed_report(n, f, path);
                Ok((t, n, m))
            },
        },
    }
}

/// The reply of `codex_eyes_sed`: on success the report and the number of
/// replacements, else the error.
pub fn sed_reply(outcome: Result<(usize, String), String>) -> (r: JsonValue)
    ensures
        match outcome {
            Ok((n, m)) => {
                &&& keys(r) == seq!["success"@, "output"@, "replacements"@]
                &&& get(r, "success"@) == Some(JsonValue::Bool(true))
                &&& is_str(get(r, "output"@), m@)
                &&& get(r, "replacements"@) == Some(JsonValue::UInt(n as u64))
            },
            Err(e) => err_reply(r, e@),
        },
{
    match outcome {
        Ok((n, m)) => {
            let r0 = ok_result(m.as_str());
            proof {
                reveal_strlit("replacements");
                reveal_strlit("success");
                reveal_strlit("output");
                assert("replacements"@.len() == 12);
                assert("success"@ != "replacements"@);
                assert("output"@ != "replacements"@);
                assert(!keys(r0).contains("replacements"@)) by {
                    if keys(r0).contains("replacements"@) {
                        let j = choose|j: int| 0 <= j < keys(r0).len() && keys(r0)[j] == "replacements"@;
                        assert(j == 0 || j == 1);
                    }
                }
            }
            let r = with_field(r0, "replacements", JsonValue::UInt(n as u64));
            assert(keys(r) =~= seq!["success"@, "output"@, "replacements"@]);
            r
        },
        Err(e) => err_result(e.as_str()),
    }
}

// ------------------------------------------------------------ listings

pub open spec fn cviews(v: Seq<Vec<char>>) -> Seq<Seq<char>> {
    v.map_values(|x: Vec<char>| x@)
}

fn lex_le_exec(a: &[char], b: &[char]) -> (r: bool)
    ensures
        r == lex_le(a@, b@),
{
    let mut i: usize = 0;
    assert(a@.skip(0) =~= a@);
    assert(b@.skip(0) =~= b@);
    while i < a.len() && i < b.len() && a[i] == b[i]
        invariant
            i <= a.len(),
            i <= b.len(),
            lex_le(a@, b@) == lex_le(a@.skip(i as int), b@.skip(i as int)),
        decreases a.len() - i,
    {
        assert(a@.skip(i as int).drop_first() =~= a@.skip(i + 1));
        assert(b@.skip(i as int).drop_first() =~= b@.skip(i + 1));
        i += 1;
    }
    if i == a.len() {
        true
    } else if i == b.len() {
        false
    } else {
        assert(a@.skip(i as int)[0] == a@[i as int]);
        assert(b@.skip(i as int)[0] == b@[i as int]);
        a[i] < b[i]
    }
}

/// The texts in order (the order of `String`), by insertion.
pub fn sort_lex(items: &Vec<Vec<char>>) -> (r: Vec<Vec<char>>)
    ensures
        sorted_lex(cviews(r@)),
        cviews(r@).to_multiset() == cviews(items@).to_multiset(),
{
    let ghost iv = cviews(items@);
    let mut sorted: Vec<Vec<char>> = Vec::new();
    assert(cviews(sorted@) =~= iv.take(0));
    let mut i: usize = 0;
    while i < items.len()
        invariant
            i <= items.len(),
            iv == cviews(items@),
            sorted_lex(cviews(sorted@)),
            cviews(sorted@).to_multiset() == iv.take(i as int).to_multiset(),
        decreases items.len() - i,
    {
        let n = crate::text::clone_chars(&items[i]);
        proof {
            assert(iv.take(i + 1) =~= iv.take(i as int).push(n@));
            vstd::seq_lib::to_multiset_build(iv.take(i as int), n@);
        }
        let ghost sv = cviews(sorted@);
        let mut k: usize = 0;
        while k < sorted.len() && lex_le_exec(sorted[k].as_slice(), n.as_slice())
            invariant
                k <= sorted@.len(),
                sv == cviews(sorted@),
                forall|j: int| 0 <= j < k ==> lex_le(sv[j], n@),
            decreases sorted.len() - k,
        {
            k += 1;
        }
        let ghost nv = n@;
        sorted.insert(k, n);
        proof {
            let after = cviews(sorted@);
            assert(after =~= sv.insert(k as int, nv));
            if k < sv.len() {
                assert(!lex_le(sv[k as int], nv));
                lemma_lex_total(sv[k as int], nv);
            }
            assert forall|a: int, b: int| 0 <= a < b < after.len() implies lex_le(after[a], after[b]) by {
                if a < k && b == k {
                } else if a == k && b > k {
                    assert(after[b] == sv[b - 1]);
                    if b - 1 > k {
                        lemma_lex_trans(nv, sv[k as int], sv[b - 1]);
                    }
                } else if a < k && b > k {
                    assert(after[b] == sv[b - 1]);
                } else if a > k {
                    assert(after[a] == sv[a - 1]);
                    assert(after[b] == sv[b - 1]);
                }
            }
            vstd::seq_lib::to_multiset_insert(sv, k as int, nv);
        }
        i += 1;
    }
    assert(iv.take(items.len() as int) =~= iv);
    sorted
}

/// One line of a directory listing: the name with a slash, whether it is a
/// directory or a file, and its size in bytes.
pub open spec fn ls_line(name: Seq<char>, is_dir: bool, size: u64) -> Seq<char> {
    name + "/\t"@ + (if is_dir {
        "dir"@
    } else {
        "file"@
    }) + "\t"@ + decimal(size as nat) + "B"@
}

pub fn ls_entry(name: &str, is_dir: bool, size: u64) -> (r: String)
    ensures
        r@ == ls_line(name@, is_dir, size),
{
    let mut v: Vec<char> = Vec::new();
    push_str_chars(&mut v, name);
    push_str_chars(&mut v, "/\t");
    push_str_chars(&mut v, if is_dir { "dir" } else { "file" });
    push_str_chars(&mut v, "\t");
    extend_from(&mut v, decimal_chars(size as u128).as_slice());
    push_str_chars(&mut v, "B");
    proof {
        reveal_strlit("/\t");
        reveal_strlit("\t");
        reveal_strlit("B");
        assert(v@ =~= ls_line(name@, is_dir, size));
    }
    string_of(v.as_slice())
}

/// The reply of `codex_eyes_ls`: the entries sorted, one per line, or a
/// note that the directory is empty.
pub fn ls_result(entries: &Vec<String>) -> (r: JsonValue)
    ensures
        entries@.len() == 0 ==> ok_reply(r, "(empty directory)"@),
        entries@.len() > 0 ==> exists|names: Seq<Seq<char>>|
            {
                &&& sorted_lex(names)
                &&& names.to_multiset() == views(entries@).to_multiset()
                &&& ok_reply(r, join_lines(names))
            },
{
    if entries.len() == 0 {
        return ok_result("(empty directory)");
    }
    let mut items: Vec<Vec<char>> = Vec::new();
    let mut i: usize = 0;
    while i < entries.len()
        invariant
            i <= entries.len(),
            cviews(items@) == views(entries@).take(i as int),
        decreases entries.len() - i,
    {
        let ghost before = cviews(items@);
        items.push(chars_of(entries[i].as_str()));
        assert(cviews(items@) =~= before.push(entries@[i as int]@));
        assert(views(entries@).take(i + 1) =~= views(entries@).take(i as int).push(entries@[i as int]@));
        i += 1;
    }
    assert(views(entries@).take(entries.len() as int) =~= views(entries@));
    let sorted = sort_lex(&items);
    let j = join_with_newlines(&sorted);
    let r = ok_result(string_of(j.as_slice()).as_str());
    assert(cviews(sorted@) == sorted@.map_values(|l: Vec<char>| l@));
    r
}

} // verus!
