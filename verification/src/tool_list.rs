//! Which tools the model is offered: the built-in ones in their fixed
//! order, less those the configuration switches off, then the custom tools
//! that are neither switched off, nor named like a built-in one, nor
//! without a command.

use vstd::prelude::*;
use crate::config::{disabled_view, is_disabled, table_lookup, AppConfig, CustomTool, ParameterDef};
use crate::json::JsonValue;
use crate::tool_output::{builtin_tool_name, law_builtin_names_route_to_their_tool, route_spec, BuiltinTool, ToolRoute};
use crate::text::{string_of, views};
use crate::text::{chars_eq, chars_of, trim, trimmed};

verus! {

broadcast use vstd::string::group_string_axioms;

/// The built-in tools in the order they are offered, each with whether
/// the configuration may switch it off.
pub open spec fn builtin_tools() -> Seq<(Seq<char>, bool)> {
    seq![
        ("daemon_skeleton"@, true),
        ("daemon_get_hash"@, true),
        ("daemon_file_info"@, true),
        ("daemon_catalog"@, true),
        ("daemon_loc_info"@, true),
        ("apply_patch"@, true),
        ("codex_eyes_ls"@, true),
        ("codex_eyes_grep"@, true),
        ("codex_eyes_createFile"@, true),
        ("codex_eyes_gitdiff"@, true),
        ("codex_eyes_search"@, true),
        ("codex_eyes_find"@, true),
        ("codex_eyes_find_fuzzy"@, true),
        ("codex_eyes_read"@, true),
        ("codex_eyes_cargo_check"@, true),
        ("codex_eyes_sed"@, true),
        ("codex_eyes_undo"@, true),
        ("ast_grep_search"@, false),
        ("task_create"@, false),
        ("task_step"@, false),
        ("task_complete"@, false),
        ("task_list"@, false),
        ("task_abort"@, false),
        ("ast_explain"@, false),
    ]
}

/// The built-in names a custom tool may not take.
pub open spec fn reserved_names() -> Seq<Seq<char>> {
    seq![
        "codex_eyes_ls"@,
        "codex_eyes_grep"@,
        "codex_eyes_sed"@,
        "apply_patch"@,
        "codex_eyes_createFile"@,
        "codex_eyes_gitdiff"@,
        "codex_eyes_search"@,
        "codex_eyes_find"@,
        "codex_eyes_find_fuzzy"@,
        "codex_eyes_read"@,
        "codex_eyes_cargo_check"@,
        "ast_explain"@,
        "codex_eyes_undo"@,
    ]
}

pub fn builtin_tool_list() -> (r: Vec<(&'static str, bool)>)
    ensures
        r@.map_values(|t: (&'static str, bool)| (t.0@, t.1)) == builtin_tools(),
{
    let r = vec![
        ("daemon_skeleton", true),
        ("daemon_get_hash", true),
        ("daemon_file_info", true),
        ("daemon_catalog", true),
        ("daemon_loc_info", true),
        ("apply_patch", true),
        ("codex_eyes_ls", true),
        ("codex_eyes_grep", true),
        ("codex_eyes_createFile", true),
        ("codex_eyes_gitdiff", true),
        ("codex_eyes_search", true),
        ("codex_eyes_find", true),
        ("codex_eyes_find_fuzzy", true),
        ("codex_eyes_read", true),
        ("codex_eyes_cargo_check", true),
        ("codex_eyes_sed", true),
        ("codex_eyes_undo", true),
        ("ast_grep_search", false),
        ("task_create", false),
        ("task_step", false),
        ("task_complete", false),
        ("task_list", false),
        ("task_abort", false),
        ("ast_explain", false),
    ];
    assert(r@.map_values(|t: (&'static str, bool)| (t.0@, t.1)) =~= builtin_tools());
    r
}

fn reserved_list() -> (r: Vec<&'static str>)
    ensures
        r@.map_values(|t: &'static str| t@) == reserved_names(),
{
    let r = vec![
        "codex_eyes_ls",
        "codex_eyes_grep",
        "codex_eyes_sed",
        "apply_patch",
        "codex_eyes_createFile",
        "codex_eyes_gitdiff",
        "codex_eyes_search",
        "codex_eyes_find",
        "codex_eyes_find_fuzzy",
        "codex_eyes_read",
        "codex_eyes_cargo_check",
        "ast_explain",
        "codex_eyes_undo",
    ];
    assert(r@.map_values(|t: &'static str| t@) =~= reserved_names());
    r
}

/// The configuration switches the tool named `name` off.
pub open spec fn switched_off(config: AppConfig, name: Seq<char>) -> bool {
    table_lookup(disabled_view(config.tools.disabled@), name) == Some(true)
}

/// A tool offered to the model: a built-in one (by its place in the
/// built-in order) or a custom one (by its place in the configuration).
#[derive(Debug, Clone, Copy, PartialEq, Eq, Structural)]
pub enum ToolChoice {
    Builtin(usize),
    Custom(usize),
}

/// A custom tool passed over with a warning: it takes a built-in name, or
/// it has no command to run.
#[derive(Debug, Clone, Copy, PartialEq, Eq, Structural)]
pub enum ToolWarning {
    Shadows(usize),
    NoCommand(usize),
}

/// What becomes of a custom tool.
pub enum CustomKind {
    SwitchedOff,
    Shadows,
    NoCommand,
    Offered,
}

pub open spec fn custom_kind(config: AppConfig, c: CustomTool) -> CustomKind {
    if switched_off(config, c.name@) {
        CustomKind::SwitchedOff
    } else if reserved_names().contains(c.name@) {
        CustomKind::Shadows
    } else if trim(c.execute.command_template@).len() == 0 {
        CustomKind::NoCommand
    } else {
        CustomKind::Offered
    }
}

/// The first `n` built-in tools that are offered.
pub open spec fn builtins_offered(config: AppConfig, n: int) -> Seq<ToolChoice>
    decreases n,
{
    if n <= 0 {
        Seq::empty()
    } else {
        let t = builtin_tools()[n - 1];
        builtins_offered(config, n - 1) + if t.1 && switched_off(config, t.0) {
            Seq::empty()
        } else {
            seq![ToolChoice::Builtin((n - 1) as usize)]
        }
    }
}

/// The first `n` custom tools that are offered.
pub open spec fn customs_offered(config: AppConfig, n: int) -> Seq<ToolChoice>
    decreases n,
{
    if n <= 0 {
        Seq::empty()
    } else {
        customs_offered(config, n - 1) + match custom_kind(config, config.tools.custom@[n - 1]) {
            CustomKind::Offered => seq![ToolChoice::Custom((n - 1) as usize)],
            _ => Seq::empty(),
        }
    }
}

/// The warnings for the first `n` custom tools.
pub open spec fn custom_warnings(config: AppConfig, n: int) -> Seq<ToolWarning>
    decreases n,
{
    if n <= 0 {
        Seq::empty()
    } else {
        custom_warnings(config, n - 1) + match custom_kind(config, config.tools.custom@[n - 1]) {
            CustomKind::Shadows => seq![ToolWarning::Shadows((n - 1) as usize)],
            CustomKind::NoCommand => seq![ToolWarning::NoCommand((n - 1) as usize)],
            _ => Seq::empty(),
        }
    }
}

fn is_reserved(name: &str) -> (r: bool)
    ensures
        r == reserved_names().contains(name@),
{
    let rs = reserved_list();
    let ghost rv = rs@.map_values(|t: &'static str| t@);
    let n = chars_of(name);
    let mut i: usize = 0;
    while i < rs.len()
        invariant
            i <= rs.len(),
            rv == rs@.map_values(|t: &'static str| t@),
            rv == reserved_names(),
            n@ == name@,
            forall|k: int| 0 <= k < i ==> rv[k] != name@,
        decreases rs.len() - i,
    {
        if chars_eq(chars_of(rs[i]).as_slice(), n.as_slice()) {
            assert(rv[i as int] == name@);
            return true;
        }
        i += 1;
    }
    false
}

/// The tools offered to the model, in order: the built-in ones the
/// configuration does not switch off, then the custom ones that are not
/// switched off, do not take a built-in name and have a command; and a
/// warning for each custom tool passed over for its name or for lacking a
/// command.
pub fn select_tools(config: &AppConfig) -> (r: (Vec<ToolChoice>, Vec<ToolWarning>))
    ensures
        r.0@ == builtins_offered(*config, 24) + customs_offered(*config, config.tools.custom@.len() as int),
        r.1@ == custom_warnings(*config, config.tools.custom@.len() as int),
{
    let bs = builtin_tool_list();
    let ghost bv = bs@.map_values(|t: (&'static str, bool)| (t.0@, t.1));
    let mut choices: Vec<ToolChoice> = Vec::new();
    let mut i: usize = 0;
    while i < bs.len()
        invariant
            i <= bs.len(),
            bv == bs@.map_values(|t: (&'static str, bool)| (t.0@, t.1)),
            bv == builtin_tools(),
            choices@ == builtins_offered(*config, i as int),
        decreases bs.len() - i,
    {
        let (name, switchable) = bs[i];
        assert(bv[i as int] == (name@, switchable));
        if !(switchable && is_disabled(config, name)) {
            choices.push(ToolChoice::Builtin(i));
        }
        i += 1;
    }
    assert(builtin_tools().len() == 24);
    assert(bs@.len() == 24);
    let ghost head = choices@;
    let mut warnings: Vec<ToolWarning> = Vec::new();
    let mut j: usize = 0;
    while j < config.tools.custom.len()
        invariant
            j <= config.tools.custom@.len(),
            head == builtins_offered(*config, 24),
            choices@ == head + customs_offered(*config, j as int),
            warnings@ == custom_warnings(*config, j as int),
        decreases config.tools.custom.len() - j,
    {
        let c = &config.tools.custom[j];
        assert(c == config.tools.custom@[j as int]);
        if is_disabled(config, c.name.as_str()) {
        } else if is_reserved(c.name.as_str()) {
            warnings.push(ToolWarning::Shadows(j));
        } else if trimmed(chars_of(c.execute.command_template.as_str()).as_slice()).len() == 0 {
            warnings.push(ToolWarning::NoCommand(j));
        } else {
            choices.push(ToolChoice::Custom(j));
        }
        assert(choices@ =~= head + customs_offered(*config, j + 1));
        j += 1;
    }
    (choices, warnings)
}


/// A parameter of a tool as the model is told of it.
#[verifier::ext_equal]
pub struct ParamSpec {
    pub name: Seq<char>,
    pub kind: Seq<char>,
    pub description: Seq<char>,
    pub default: Option<Seq<char>>,
}

/// A tool as the model is told of it: its name, what it does, its
/// parameters and which of them it needs (when it says).
#[verifier::ext_equal]
pub struct ToolSpec {
    pub name: Seq<char>,
    pub description: Seq<char>,
    pub params: Seq<ParamSpec>,
    pub required: Option<Seq<Seq<char>>>,
}

pub struct ParamDef {
    pub name: &'static str,
    pub kind: &'static str,
    pub description: &'static str,
    pub default: Option<&'static str>,
}

pub struct ToolDef {
    pub name: &'static str,
    pub description: &'static str,
    pub params: Vec<ParamDef>,
    pub required: Option<Vec<&'static str>>,
}

impl View for ParamDef {
    type V = ParamSpec;

    open spec fn view(&self) -> ParamSpec {
        ParamSpec {
            name: self.name@,
            kind: self.kind@,
            description: self.description@,
            default: match self.default {
                Some(d) => Some(d@),
                None => None,
            },
        }
    }
}

impl View for ToolDef {
    type V = ToolSpec;

    open spec fn view(&self) -> ToolSpec {
        ToolSpec {
            name: self.name@,
            description: self.description@,
            params: self.params@.map_values(|p: ParamDef| p@),
            required: match self.required {
                Some(r) => Some(r@.map_values(|s: &'static str| s@)),
                None => None,
            },
        }
    }
}

/// The built-in tools, in the order of `builtin_tools`, as the model is
/// told of them.
pub open spec fn builtin_specs() -> Seq<ToolSpec> {
    seq![
        ToolSpec {
            name: "daemon_skeleton"@,
            description: "Fetch the compressed code skeleton for the active repo from the daemon. Resets LOC counters. Use this to get the big picture overview and find code block hashes. NOTE: This is a pre-indexed snapshot. Do not use to verify recent local edits."@,
            params: seq![],
            required: None,
        },
        ToolSpec {
            name: "daemon_get_hash"@,
            description: "Fetch the full implementation of a specific code block (struct, impl, function) by its hash from the daemon. Use this to limit context cache usage by only loading necessary code. NOTE: This is a pre-indexed snapshot. Do not use to verify recent local edits."@,
            params: seq![
                ParamSpec { name: "hash"@, kind: "string"@, description: "The hash of the code block (e.g., '56532741a4a7')"@, default: None },
            ],
            required: Some(seq!["hash"@]),
        },
        ToolSpec {
            name: "daemon_file_info"@,
            description: "Get metadata and extracted AST body hashes for a specific file from the daemon."@,
            params: seq![
                ParamSpec { name: "path"@, kind: "string"@, description: "The file path"@, default: None },
            ],
            required: Some(seq!["path"@]),
        },
        ToolSpec {
            name: "daemon_catalog"@,
            description: "List all indexed files in the daemon cache."@,
            params: seq![],
            required: None,
        },
        ToolSpec {
            name: "daemon_loc_info"@,
            description: "Get the running total of Lines of Code (LOC) fetched in the current daemon session."@,
            params: seq![],
            required: None,
        },
        ToolSpec {
            name: "apply_patch"@,
            description: "Apply a SEARCH/REPLACE block to a file. Use this for multi-line edits, refactoring, and structural changes. For simple single-line replacements use codex_eyes_sed.\nFormat:\n<<<<<<< SEARCH\n[exact lines of code to find]\n=======\n[lines of code to replace with]\n>>>>>>> REPLACE"@,
            params: seq![
                ParamSpec { name: "path"@, kind: "string"@, description: "File path to edit (relative to project root)."@, default: None },
                ParamSpec { name: "patch"@, kind: "string"@, description: "The SEARCH/REPLACE block"@, default: None },
            ],
            required: Some(seq!["path"@, "patch"@]),
        },
        ToolSpec {
            name: "codex_eyes_ls"@,
            description: "List files and directories within the project. Returns the directory listing with file names, sizes, and types. All paths are sandboxed to the project root."@,
            params: seq![
                ParamSpec { name: "path"@, kind: "string"@, description: "Directory path to list (relative to project root). Defaults to project root."@, default: None },
                ParamSpec { name: "recursive"@, kind: "boolean"@, description: "Whether to list recursively. Defaults to false."@, default: None },
            ],
            required: Some(Seq::empty()),
        },
        ToolSpec {
            name: "codex_eyes_grep"@,
            description: "Recursively search for a text pattern across ALL files under a directory using ripgrep. Returns matching lines with file paths and line numbers. Use this to find where a function, struct, variable, or string is used across the project. For single-file search use codex_eyes_search instead."@,
            params: seq![
                ParamSpec { name: "path"@, kind: "string"@, description: "Directory to search recursively (relative to project root). Defaults to project root."@, default: None },
                ParamSpec { name: "pattern"@, kind: "string"@, description: "Text pattern to search for (substring match)."@, default: None },
                ParamSpec { name: "case_insensitive"@, kind: "boolean"@, description: "Case-insensitive matching. Defaults to false."@, default: None },
                ParamSpec { name: "file_pattern"@, kind: "string"@, description: "Only search files matching this glob pattern (e.g. '*.rs', '*.toml'). Defaults to all files."@, default: None },
                ParamSpec { name: "max_results"@, kind: "integer"@, description: "Maximum number of matching lines to return. Defaults to 50."@, default: None },
            ],
            required: Some(seq!["pattern"@]),
        },
        ToolSpec {
            name: "codex_eyes_createFile"@,
            description: "Create a new file, overwrite an existing file, or create a directory. If the path ends with a forward slash (e.g. 'src/new_dir/'), it creates a directory (like mkdir -p). Otherwise, it writes the full content to the file."@,
            params: seq![
                ParamSpec { name: "path"@, kind: "string"@, description: "Path for the file or directory (relative to project root). End with '/' to create a directory."@, default: None },
                ParamSpec { name: "content"@, kind: "string"@, description: "Full content of the file (ignored if creating a directory)."@, default: None },
            ],
            required: Some(seq!["path"@]),
        },
        ToolSpec {
            name: "codex_eyes_gitdiff"@,
            description: "Show git diff for a file or the entire project. Path must be within the project sandbox. Useful for verifying changes after patching or creating files."@,
            params: seq![
                ParamSpec { name: "path"@, kind: "string"@, description: "File or directory path to diff (relative to project root). Defaults to all files."@, default: None },
                ParamSpec { name: "cached"@, kind: "boolean"@, description: "Show staged changes only. Defaults to false."@, default: None },
                ParamSpec { name: "head"@, kind: "boolean"@, description: "Show changes compared to HEAD. Defaults to false."@, default: None },
                ParamSpec { name: "stat"@, kind: "boolean"@, description: "Show stat summary only. Defaults to false."@, default: None },
            ],
            required: Some(Seq::empty()),
        },
        ToolSpec {
            name: "codex_eyes_search"@,
            description: "Search for a text pattern in a single file, returning matching lines with line numbers. Use this to find exact line numbers before patching. Works on project files and allowed external paths. Useful for searching ./debug.log for error messages or impl.md for requirements."@,
            params: seq![
                ParamSpec { name: "path"@, kind: "string"@, description: "File path to search in. Use './debug.log' for crash/compiler errors, 'impl.md' or '/tmp/impl.md' for spec requirements, or any project file."@, default: None },
                ParamSpec { name: "pattern"@, kind: "string"@, description: "Text pattern to search for (case-sensitive substring match)."@, default: None },
            ],
            required: Some(seq!["path"@, "pattern"@]),
        },
        ToolSpec {
            name: "codex_eyes_find"@,
            description: "Find files by name pattern within the project directory tree using fd. Returns matching file paths. Search is sandboxed to the project root."@,
            params: seq![
                ParamSpec { name: "path"@, kind: "string"@, description: "Directory to search in (relative to project root). Defaults to project root."@, default: None },
                ParamSpec { name: "pattern"@, kind: "string"@, description: "File name pattern to match (case-insensitive substring match)."@, default: None },
            ],
            required: Some(seq!["pattern"@]),
        },
        ToolSpec {
            name: "codex_eyes_find_fuzzy"@,
            description: "Fuzzy find files by name pattern within the project using fd. More tolerant matching than codex_eyes_find. Search is sandboxed to the project root."@,
            params: seq![
                ParamSpec { name: "path"@, kind: "string"@, description: "Directory to search in (relative to project root). Defaults to project root."@, default: None },
                ParamSpec { name: "pattern"@, kind: "string"@, description: "Fuzzy pattern to match against file names."@, default: None },
            ],
            required: Some(seq!["pattern"@]),
        },
        ToolSpec {
            name: "codex_eyes_read"@,
            description: "Read the contents of a file. Returns the file content with line numbers. IMPORTANT paths: (1) 'impl.md' or '/tmp/impl.md' — read the implementation spec before coding; (2) './debug.log' — read compiler errors and crash logs when bugfixing; (3) any project file. Paths outside the project root must be in allow_paths."@,
            params: seq![
                ParamSpec { name: "path"@, kind: "string"@, description: "File path to read. Key files: 'impl.md' or '/tmp/impl.md' (implementation spec), './debug.log' (compiler errors/crash logs), or any project source file."@, default: None },
                ParamSpec { name: "start_line"@, kind: "integer"@, description: "Starting line number (1-based, inclusive). Defaults to 1."@, default: None },
                ParamSpec { name: "end_line"@, kind: "integer"@, description: "Ending line number (inclusive). Defaults to end of file."@, default: None },
            ],
            required: Some(seq!["path"@]),
        },
        ToolSpec {
            name: "codex_eyes_cargo_check"@,
            description: "Run `cargo check` on a Rust project to verify that code changes compile correctly. This is a safe, read-only verification step — it does NOT execute any project code or run arbitrary commands. If this fails, read ./debug.log for detailed compiler errors. Path must be within the project sandbox."@,
            params: seq![
                ParamSpec { name: "path"@, kind: "string"@, description: "Path to the Rust project root directory (relative to project root). Defaults to project root."@, default: None },
            ],
            required: Some(Seq::empty()),
        },
        ToolSpec {
            name: "codex_eyes_sed"@,
            description: "Simple find-and-replace in a file. Much easier and less error-prone than apply_patch for small changes like renaming a variable, fixing a typo, or updating a string. For complex multi-line edits, use apply_patch instead."@,
            params: seq![
                ParamSpec { name: "path"@, kind: "string"@, description: "File path to edit (relative to project root)."@, default: None },
                ParamSpec { name: "find"@, kind: "string"@, description: "The exact text to find. Must match exactly (including whitespace and indentation)."@, default: None },
                ParamSpec { name: "replace"@, kind: "string"@, description: "The text to replace it with."@, default: None },
                ParamSpec { name: "replace_all"@, kind: "boolean"@, description: "Replace ALL occurrences (true) or only the FIRST occurrence (false). Defaults to true."@, default: None },
            ],
            required: Some(seq!["path"@, "find"@, "replace"@]),
        },
        ToolSpec {
            name: "codex_eyes_undo"@,
            description: "Revert a file to its last git-committed state using git checkout. Path must be within the project sandbox. Useful for undoing a failed patch."@,
            params: seq![
                ParamSpec { name: "path"@, kind: "string"@, description: "File path to revert (relative to project root). Must be within the project sandbox."@, default: None },
            ],
            required: Some(seq!["path"@]),
        },
        ToolSpec {
            name: "ast_grep_search"@,
            description: "Search code using AST patterns. Returns matching nodes with file paths and line numbers. Use $NAME for single nodes, $$$ARGS for multiple. Always search before replacing."@,
            params: seq![
                ParamSpec { name: "pattern"@, kind: "string"@, description: "AST pattern to search for, e.g. 'unwrap()' or '$FN($$$ARGS)'"@, default: None },
                ParamSpec { name: "lang"@, kind: "string"@, description: "Language: rust, python, javascript, typescript, go, java, c, cpp, etc."@, default: Some("rust"@) },
                ParamSpec { name: "path"@, kind: "string"@, description: "File or directory to search"@, default: Some("."@) },
            ],
            required: Some(seq!["pattern"@]),
        },
        ToolSpec {
            name: "task_create"@,
            description: "Create a new implementation task with a plan. Creates .impl/task_HHMMSS_NNNN/ directory with plan.md and task.json."@,
            params: seq![
                ParamSpec { name: "title"@, kind: "string"@, description: "Short task title"@, default: None },
                ParamSpec { name: "description"@, kind: "string"@, description: "What the task accomplishes"@, default: None },
                ParamSpec { name: "plan"@, kind: "string"@, description: "Step-by-step implementation plan in markdown"@, default: None },
            ],
            required: Some(seq!["title"@, "plan"@]),
        },
        ToolSpec {
            name: "task_step"@,
            description: "Record a step in the current active task. Call after each code modification."@,
            params: seq![
                ParamSpec { name: "action"@, kind: "string"@, description: "Tool used: sed, ast-grep, create, search, verify"@, default: None },
                ParamSpec { name: "target"@, kind: "string"@, description: "File path or pattern targeted"@, default: None },
                ParamSpec { name: "description"@, kind: "string"@, description: "What was done and why"@, default: None },
                ParamSpec { name: "success"@, kind: "boolean"@, description: "Whether the step succeeded"@, default: None },
            ],
            required: Some(seq!["action"@, "target"@, "description"@, "success"@]),
        },
        ToolSpec {
            name: "task_complete"@,
            description: "Mark the current active task as completed. Writes final changes.log."@,
            params: seq![],
            required: None,
        },
        ToolSpec {
            name: "task_list"@,
            description: "List all tasks and their status."@,
            params: seq![],
            required: None,
        },
        ToolSpec {
            name: "task_abort"@,
            description: "Abort the current active task."@,
            params: seq![],
            required: None,
        },
        ToolSpec {
            name: "ast_explain"@,
            description: "Show the AST structure at a line or matching a text snippet. Returns node types, byte ranges, and SUGGESTED ast-grep patterns. USE THIS when ast_grep_search returns 0 matches to understand the actual code structure before retrying."@,
            params: seq![
                ParamSpec { name: "path"@, kind: "string"@, description: "Source file to analyze"@, default: None },
                ParamSpec { name: "line"@, kind: "integer"@, description: "Line number (1-based). Either this or text is required."@, default: None },
                ParamSpec { name: "text"@, kind: "string"@, description: "Text snippet to find AST nodes for. Either this or line is required."@, default: None },
                ParamSpec { name: "lang"@, kind: "string"@, description: "Language: rust, python, javascript, typescript, go, java, c, cpp, etc."@, default: Some("rust"@) },
            ],
            required: Some(seq!["path"@]),
        },
    ]
}

/// The built-in tools' definitions.
pub fn builtin_defs() -> (r: Vec<ToolDef>)
    ensures
        r@.map_values(|t: ToolDef| t@) == builtin_specs(),
{
    let r = vec![
        ToolDef {
            name: "daemon_skeleton",
            description: "Fetch the compressed code skeleton for the active repo from the daemon. Resets LOC counters. Use this to get the big picture overview and find code block hashes. NOTE: This is a pre-indexed snapshot. Do not use to verify recent local edits.",
            params: vec![],
            required: None,
        },
        ToolDef {
            name: "daemon_get_hash",
            description: "Fetch the full implementation of a specific code block (struct, impl, function) by its hash from the daemon. Use this to limit context cache usage by only loading necessary code. NOTE: This is a pre-indexed snapshot. Do not use to verify recent local edits.",
            params: vec![
                ParamDef { name: "hash", kind: "string", description: "The hash of the code block (e.g., '56532741a4a7')", default: None },
            ],
            required: Some(vec!["hash"]),
        },
        ToolDef {
            name: "daemon_file_info",
            description: "Get metadata and extracted AST body hashes for a specific file from the daemon.",
            params: vec![
                ParamDef { name: "path", kind: "string", description: "The file path", default: None },
            ],
            required: Some(vec!["path"]),
        },
        ToolDef {
            name: "daemon_catalog",
            description: "List all indexed files in the daemon cache.",
            params: vec![],
            required: None,
        },
        ToolDef {
            name: "daemon_loc_info",
            description: "Get the running total of Lines of Code (LOC) fetched in the current daemon session.",
            params: vec![],
            required: None,
        },
        ToolDef {
            name: "apply_patch",
            description: "Apply a SEARCH/REPLACE block to a file. Use this for multi-line edits, refactoring, and structural changes. For simple single-line replacements use codex_eyes_sed.\nFormat:\n<<<<<<< SEARCH\n[exact lines of code to find]\n=======\n[lines of code to replace with]\n>>>>>>> REPLACE",
            params: vec![
                ParamDef { name: "path", kind: "string", description: "File path to edit (relative to project root).", default: None },
                ParamDef { name: "patch", kind: "string", description: "The SEARCH/REPLACE block", default: None },
            ],
            required: Some(vec!["path", "patch"]),
        },
        ToolDef {
            name: "codex_eyes_ls",
            description: "List files and directories within the project. Returns the directory listing with file names, sizes, and types. All paths are sandboxed to the project root.",
            params: vec![
                ParamDef { name: "path", kind: "string", description: "Directory path to list (relative to project root). Defaults to project root.", default: None },
                ParamDef { name: "recursive", kind: "boolean", description: "Whether to list recursively. Defaults to false.", default: None },
            ],
            required: Some(vec![]),
        },
        ToolDef {
            name: "codex_eyes_grep",
            description: "Recursively search for a text pattern across ALL files under a directory using ripgrep. Returns matching lines with file paths and line numbers. Use this to find where a function, struct, variable, or string is used across the project. For single-file search use codex_eyes_search instead.",
            params: vec![
                ParamDef { name: "path", kind: "string", description: "Directory to search recursively (relative to project root). Defaults to project root.", default: None },
                ParamDef { name: "pattern", kind: "string", description: "Text pattern to search for (substring match).", default: None },
                ParamDef { name: "case_insensitive", kind: "boolean", description: "Case-insensitive matching. Defaults to false.", default: None },
                ParamDef { name: "file_pattern", kind: "string", description: "Only search files matching this glob pattern (e.g. '*.rs', '*.toml'). Defaults to all files.", default: None },
                ParamDef { name: "max_results", kind: "integer", description: "Maximum number of matching lines to return. Defaults to 50.", default: None },
            ],
            required: Some(vec!["pattern"]),
        },
        ToolDef {
            name: "codex_eyes_createFile",
            description: "Create a new file, overwrite an existing file, or create a directory. If the path ends with a forward slash (e.g. 'src/new_dir/'), it creates a directory (like mkdir -p). Otherwise, it writes the full content to the file.",
            params: vec![
                ParamDef { name: "path", kind: "string", description: "Path for the file or directory (relative to project root). End with '/' to create a directory.", default: None },
                ParamDef { name: "content", kind: "string", description: "Full content of the file (ignored if creating a directory).", default: None },
            ],
            required: Some(vec!["path"]),
        },
        ToolDef {
            name: "codex_eyes_gitdiff",
            description: "Show git diff for a file or the entire project. Path must be within the project sandbox. Useful for verifying changes after patching or creating files.",
            params: vec![
                ParamDef { name: "path", kind: "string", description: "File or directory path to diff (relative to project root). Defaults to all files.", default: None },
                ParamDef { name: "cached", kind: "boolean", description: "Show staged changes only. Defaults to false.", default: None },
                ParamDef { name: "head", kind: "boolean", description: "Show changes compared to HEAD. Defaults to false.", default: None },
                ParamDef { name: "stat", kind: "boolean", description: "Show stat summary only. Defaults to false.", default: None },
            ],
            required: Some(vec![]),
        },
        ToolDef {
            name: "codex_eyes_search",
            description: "Search for a text pattern in a single file, returning matching lines with line numbers. Use this to find exact line numbers before patching. Works on project files and allowed external paths. Useful for searching ./debug.log for error messages or impl.md for requirements.",
            params: vec![
                ParamDef { name: "path", kind: "string", description: "File path to search in. Use './debug.log' for crash/compiler errors, 'impl.md' or '/tmp/impl.md' for spec requirements, or any project file.", default: None },
                ParamDef { name: "pattern", kind: "string", description: "Text pattern to search for (case-sensitive substring match).", default: None },
            ],
            required: Some(vec!["path", "pattern"]),
        },
        ToolDef {
            name: "codex_eyes_find",
            description: "Find files by name pattern within the project directory tree using fd. Returns matching file paths. Search is sandboxed to the project root.",
            params: vec![
                ParamDef { name: "path", kind: "string", description: "Directory to search in (relative to project root). Defaults to project root.", default: None },
                ParamDef { name: "pattern", kind: "string", description: "File name pattern to match (case-insensitive substring match).", default: None },
            ],
            required: Some(vec!["pattern"]),
        },
        ToolDef {
            name: "codex_eyes_find_fuzzy",
            description: "Fuzzy find files by name pattern within the project using fd. More tolerant matching than codex_eyes_find. Search is sandboxed to the project root.",
            params: vec![
                ParamDef { name: "path", kind: "string", description: "Directory to search in (relative to project root). Defaults to project root.", default: None },
                ParamDef { name: "pattern", kind: "string", description: "Fuzzy pattern to match against file names.", default: None },
            ],
            required: Some(vec!["pattern"]),
        },
        ToolDef {
            name: "codex_eyes_read",
            description: "Read the contents of a file. Returns the file content with line numbers. IMPORTANT paths: (1) 'impl.md' or '/tmp/impl.md' — read the implementation spec before coding; (2) './debug.log' — read compiler errors and crash logs when bugfixing; (3) any project file. Paths outside the project root must be in allow_paths.",
            params: vec![
                ParamDef { name: "path", kind: "string", description: "File path to read. Key files: 'impl.md' or '/tmp/impl.md' (implementation spec), './debug.log' (compiler errors/crash logs), or any project source file.", default: None },
                ParamDef { name: "start_line", kind: "integer", description: "Starting line number (1-based, inclusive). Defaults to 1.", default: None },
                ParamDef { name: "end_line", kind: "integer", description: "Ending line number (inclusive). Defaults to end of file.", default: None },
            ],
            required: Some(vec!["path"]),
        },
        ToolDef {
            name: "codex_eyes_cargo_check",
            description: "Run `cargo check` on a Rust project to verify that code changes compile correctly. This is a safe, read-only verification step — it does NOT execute any project code or run arbitrary commands. If this fails, read ./debug.log for detailed compiler errors. Path must be within the project sandbox.",
            params: vec![
                ParamDef { name: "path", kind: "string", description: "Path to the Rust project root directory (relative to project root). Defaults to project root.", default: None },
            ],
            required: Some(vec![]),
        },
        ToolDef {
            name: "codex_eyes_sed",
            description: "Simple find-and-replace in a file. Much easier and less error-prone than apply_patch for small changes like renaming a variable, fixing a typo, or updating a string. For complex multi-line edits, use apply_patch instead.",
            params: vec![
                ParamDef { name: "path", kind: "string", description: "File path to edit (relative to project root).", default: None },
                ParamDef { name: "find", kind: "string", description: "The exact text to find. Must match exactly (including whitespace and indentation).", default: None },
                ParamDef { name: "replace", kind: "string", description: "The text to replace it with.", default: None },
                ParamDef { name: "replace_all", kind: "boolean", description: "Replace ALL occurrences (true) or only the FIRST occurrence (false). Defaults to true.", default: None },
            ],
            required: Some(vec!["path", "find", "replace"]),
        },
        ToolDef {
            name: "codex_eyes_undo",
            description: "Revert a file to its last git-committed state using git checkout. Path must be within the project sandbox. Useful for undoing a failed patch.",
            params: vec![
                ParamDef { name: "path", kind: "string", description: "File path to revert (relative to project root). Must be within the project sandbox.", default: None },
            ],
            required: Some(vec!["path"]),
        },
        ToolDef {
            name: "ast_grep_search",
            description: "Search code using AST patterns. Returns matching nodes with file paths and line numbers. Use $NAME for single nodes, $$$ARGS for multiple. Always search before replacing.",
            params: vec![
                ParamDef { name: "pattern", kind: "string", description: "AST pattern to search for, e.g. 'unwrap()' or '$FN($$$ARGS)'", default: None },
                ParamDef { name: "lang", kind: "string", description: "Language: rust, python, javascript, typescript, go, java, c, cpp, etc.", default: Some("rust") },
                ParamDef { name: "path", kind: "string", description: "File or directory to search", default: Some(".") },
            ],
            required: Some(vec!["pattern"]),
        },
        ToolDef {
            name: "task_create",
            description: "Create a new implementation task with a plan. Creates .impl/task_HHMMSS_NNNN/ directory with plan.md and task.json.",
            params: vec![
                ParamDef { name: "title", kind: "string", description: "Short task title", default: None },
                ParamDef { name: "description", kind: "string", description: "What the task accomplishes", default: None },
                ParamDef { name: "plan", kind: "string", description: "Step-by-step implementation plan in markdown", default: None },
            ],
            required: Some(vec!["title", "plan"]),
        },
        ToolDef {
            name: "task_step",
            description: "Record a step in the current active task. Call after each code modification.",
            params: vec![
                ParamDef { name: "action", kind: "string", description: "Tool used: sed, ast-grep, create, search, verify", default: None },
                ParamDef { name: "target", kind: "string", description: "File path or pattern targeted", default: None },
                ParamDef { name: "description", kind: "string", description: "What was done and why", default: None },
                ParamDef { name: "success", kind: "boolean", description: "Whether the step succeeded", default: None },
            ],
            required: Some(vec!["action", "target", "description", "success"]),
        },
        ToolDef {
            name: "task_complete",
            description: "Mark the current active task as completed. Writes final changes.log.",
            params: vec![],
            required: None,
        },
        ToolDef {
            name: "task_list",
            description: "List all tasks and their status.",
            params: vec![],
            required: None,
        },
        ToolDef {
            name: "task_abort",
            description: "Abort the current active task.",
            params: vec![],
            required: None,
        },
        ToolDef {
            name: "ast_explain",
            description: "Show the AST structure at a line or matching a text snippet. Returns node types, byte ranges, and SUGGESTED ast-grep patterns. USE THIS when ast_grep_search returns 0 matches to understand the actual code structure before retrying.",
            params: vec![
                ParamDef { name: "path", kind: "string", description: "Source file to analyze", default: None },
                ParamDef { name: "line", kind: "integer", description: "Line number (1-based). Either this or text is required.", default: None },
                ParamDef { name: "text", kind: "string", description: "Text snippet to find AST nodes for. Either this or line is required.", default: None },
                ParamDef { name: "lang", kind: "string", description: "Language: rust, python, javascript, typescript, go, java, c, cpp, etc.", default: Some("rust") },
            ],
            required: Some(vec!["path"]),
        },
    ];
    assert(r@.map_values(|t: ToolDef| t@) =~~= builtin_specs());
    r
}

/// `v` is the string `s`.
pub open spec fn str_is(v: JsonValue, s: Seq<char>) -> bool {
    v matches JsonValue::Str(t) && t@ == s
}

/// The JSON of a parameter: its type, its description and its default
/// when it has one.
pub open spec fn param_json(v: JsonValue, p: ParamSpec) -> bool {
    match v {
        JsonValue::Object(fs) => {
            &&& fs@.len() == if p.default is Some {
                3int
            } else {
                2int
            }
            &&& fs@[0].0@ == "type"@ && str_is(fs@[0].1, p.kind)
            &&& fs@[1].0@ == "description"@ && str_is(fs@[1].1, p.description)
            &&& (p.default matches Some(d) ==> fs@[2].0@ == "default"@ && str_is(fs@[2].1, d))
        },
        _ => false,
    }
}

/// The JSON of the parameters, keyed by name in their order.
pub open spec fn props_json(v: JsonValue, ps: Seq<ParamSpec>) -> bool {
    match v {
        JsonValue::Object(fs) => fs@.len() == ps.len() && forall|i: int|
            0 <= i < ps.len() ==> fs@[i].0@ == (#[trigger] ps[i]).name && param_json(fs@[i].1, ps[i]),
        _ => false,
    }
}

/// A JSON array of the strings `ss`.
pub open spec fn strs_json(v: JsonValue, ss: Seq<Seq<char>>) -> bool {
    match v {
        JsonValue::Array(a) => a@.len() == ss.len() && forall|i: int| 0 <= i < ss.len() ==> str_is(a@[i], #[trigger] ss[i]),
        _ => false,
    }
}

/// The JSON schema of a tool's parameters.
pub open spec fn params_json(v: JsonValue, t: ToolSpec) -> bool {
    match v {
        JsonValue::Object(fs) => {
            &&& fs@.len() == if t.required is Some {
                3int
            } else {
                2int
            }
            &&& fs@[0].0@ == "type"@ && str_is(fs@[0].1, "object"@)
            &&& fs@[1].0@ == "properties"@ && props_json(fs@[1].1, t.params)
            &&& (t.required matches Some(r) ==> fs@[2].0@ == "required"@ && strs_json(fs@[2].1, r))
        },
        _ => false,
    }
}

/// The JSON that tells the model of a tool: a function with its name,
/// description and parameters.
pub open spec fn tool_json(v: JsonValue, t: ToolSpec) -> bool {
    match v {
        JsonValue::Object(fs) => {
            &&& fs@.len() == 2
            &&& fs@[0].0@ == "type"@ && str_is(fs@[0].1, "function"@)
            &&& fs@[1].0@ == "function"@
            &&& match fs@[1].1 {
                JsonValue::Object(gs) => {
                    &&& gs@.len() == 3
                    &&& gs@[0].0@ == "name"@ && str_is(gs@[0].1, t.name)
                    &&& gs@[1].0@ == "description"@ && str_is(gs@[1].1, t.description)
                    &&& gs@[2].0@ == "parameters"@ && params_json(gs@[2].1, t)
                },
                _ => false,
            }
        },
        _ => false,
    }
}

fn own(s: &str) -> (r: String)
    ensures
        r@ == s@,
{
    string_of(chars_of(s).as_slice())
}

fn str_json(s: &str) -> (r: JsonValue)
    ensures
        str_is(r, s@),
{
    JsonValue::Str(own(s))
}

fn param_value(kind: &str, description: &str, default: Option<&str>) -> (r: JsonValue)
    ensures
        param_json(r, ParamSpec { name: Seq::empty(), kind: kind@, description: description@, default: match default {
            Some(d) => Some(d@),
            None => None,
        } }),
{
    let mut fs: Vec<(String, JsonValue)> = Vec::new();
    fs.push((own("type"), str_json(kind)));
    fs.push((own("description"), str_json(description)));
    if let Some(d) = default {
        fs.push((own("default"), str_json(d)));
    }
    JsonValue::Object(fs)
}

/// The JSON of a tool from its parts: `params` and `required` are already
/// in their JSON form.
fn tool_value(name: &str, description: &str, props: JsonValue, required: Option<JsonValue>) -> (r: JsonValue)
    ensures
        forall|t: ToolSpec|
            t.name == name@ && t.description == description@ && props_json(props, t.params) && (match t.required {
                Some(rq) => required matches Some(j) && strs_json(j, rq),
                None => required is None,
            }) ==> #[trigger] tool_json(r, t),
{
    let mut ps: Vec<(String, JsonValue)> = Vec::new();
    ps.push((own("type"), str_json("object")));
    ps.push((own("properties"), props));
    if let Some(j) = required {
        ps.push((own("required"), j));
    }
    let mut gs: Vec<(String, JsonValue)> = Vec::new();
    gs.push((own("name"), str_json(name)));
    gs.push((own("description"), str_json(description)));
    gs.push((own("parameters"), JsonValue::Object(ps)));
    let mut fs: Vec<(String, JsonValue)> = Vec::new();
    fs.push((own("type"), str_json("function")));
    fs.push((own("function"), JsonValue::Object(gs)));
    JsonValue::Object(fs)
}

fn static_strs_json(ss: &Vec<&'static str>) -> (r: JsonValue)
    ensures
        strs_json(r, ss@.map_values(|s: &'static str| s@)),
{
    let mut a: Vec<JsonValue> = Vec::new();
    let mut i: usize = 0;
    while i < ss.len()
        invariant
            i <= ss.len(),
            a@.len() == i,
            forall|k: int| 0 <= k < i ==> str_is(a@[k], ss@[k]@),
        decreases ss.len() - i,
    {
        a.push(str_json(ss[i]));
        i += 1;
    }
    JsonValue::Array(a)
}

/// The JSON that tells the model of a built-in tool.
pub fn builtin_tool_json(d: &ToolDef) -> (r: JsonValue)
    ensures
        tool_json(r, d@),
{
    let mut fs: Vec<(String, JsonValue)> = Vec::new();
    let mut i: usize = 0;
    while i < d.params.len()
        invariant
            i <= d.params@.len(),
            fs@.len() == i,
            forall|k: int|
                0 <= k < i ==> fs@[k].0@ == d.params@[k].name@ && param_json(fs@[k].1, #[trigger] d.params@[k]@),
        decreases d.params.len() - i,
    {
        let p = &d.params[i];
        let v = param_value(p.kind, p.description, p.default);
        assert(param_json(v, p@));
        let ghost before = fs@;
        let nm = own(p.name);
        assert(nm@ == d.params@[i as int].name@);
        fs.push((nm, v));
        assert forall|k: int| 0 <= k < i + 1 implies #[trigger] param_json(fs@[k].1, d.params@[k]@) by {
            if k < i {
                assert(fs@[k] == before[k]);
                assert(param_json(before[k].1, d.params@[k]@));
            } else {
                assert(fs@[k].1 == v);
                assert(d.params@[k] == *p);
            }
        }
        assert forall|k: int| 0 <= k < i + 1 implies #[trigger] fs@[k].0@ == d.params@[k].name@ by {
            if k < i {
                assert(fs@[k] == before[k]);
                assert(param_json(before[k].1, d.params@[k]@));
            } else {
                assert(fs@[k].0 == nm);
            }
        }
        i += 1;
    }
    let props = JsonValue::Object(fs);
    assert(props_json(props, d@.params));
    let required = match &d.required {
        Some(r) => Some(static_strs_json(r)),
        None => None,
    };
    tool_value(d.name, d.description, props, required)
}

/// A custom tool as the model is told of it: every parameter with its type
/// and description, and the required ones as configured.
pub open spec fn custom_tool_spec(c: CustomTool) -> ToolSpec {
    ToolSpec {
        name: c.name@,
        description: c.description@,
        params: c.parameters@.map_values(
            |pd: (String, ParameterDef)|
                ParamSpec { name: pd.0@, kind: pd.1.param_type@, description: pd.1.description@, default: None },
        ),
        required: Some(views(c.required@)),
    }
}

fn strings_json(ss: &Vec<String>) -> (r: JsonValue)
    ensures
        strs_json(r, views(ss@)),
{
    let mut a: Vec<JsonValue> = Vec::new();
    let mut i: usize = 0;
    while i < ss.len()
        invariant
            i <= ss.len(),
            a@.len() == i,
            forall|k: int| 0 <= k < i ==> str_is(a@[k], ss@[k]@),
        decreases ss.len() - i,
    {
        a.push(str_json(ss[i].as_str()));
        i += 1;
    }
    JsonValue::Array(a)
}

/// The JSON that tells the model of a custom tool.
pub fn custom_tool_json(c: &CustomTool) -> (r: JsonValue)
    ensures
        tool_json(r, custom_tool_spec(*c)),
{
    let ghost ps = custom_tool_spec(*c).params;
    let mut fs: Vec<(String, JsonValue)> = Vec::new();
    let mut i: usize = 0;
    while i < c.parameters.len()
        invariant
            i <= c.parameters@.len(),
            ps == custom_tool_spec(*c).params,
            fs@.len() == i,
            forall|k: int| 0 <= k < i ==> fs@[k].0@ == (#[trigger] ps[k]).name && param_json(fs@[k].1, ps[k]),
        decreases c.parameters.len() - i,
    {
        let (name, def) = (&c.parameters[i].0, &c.parameters[i].1);
        let v = param_value(def.param_type.as_str(), def.description.as_str(), None);
        let nm = own(name.as_str());
        assert(param_json(v, ps[i as int]));
        let ghost before = fs@;
        fs.push((nm, v));
        assert forall|k: int| 0 <= k < i + 1 implies fs@[k].0@ == (#[trigger] ps[k]).name && param_json(fs@[k].1, ps[k]) by {
            if k < i {
                assert(fs@[k] == before[k]);
            }
        }
        i += 1;
    }
    let props = JsonValue::Object(fs);
    assert(props_json(props, ps));
    tool_value(c.name.as_str(), c.description.as_str(), props, Some(strings_json(&c.required)))
}

/// What a chosen tool is, as the model is told of it.
pub open spec fn choice_spec(config: AppConfig, ch: ToolChoice) -> ToolSpec {
    match ch {
        ToolChoice::Builtin(i) => builtin_specs()[i as int],
        ToolChoice::Custom(j) => custom_tool_spec(config.tools.custom@[j as int]),
    }
}

/// The tools offered to the model, as JSON, in the order `select_tools`
/// chooses them; with the warnings for the custom tools passed over.
pub fn build_tools(config: &AppConfig) -> (r: (Vec<JsonValue>, Vec<ToolWarning>))
    ensures
        ({
            let chosen = builtins_offered(*config, 24) + customs_offered(*config, config.tools.custom@.len() as int);
            &&& r.0@.len() == chosen.len()
            &&& forall|k: int| 0 <= k < chosen.len() ==> tool_json(r.0@[k], choice_spec(*config, #[trigger] chosen[k]))
        }),
        r.1@ == custom_warnings(*config, config.tools.custom@.len() as int),
{
    let (choices, warnings) = select_tools(config);
    let defs = builtin_defs();
    let ghost dv = defs@.map_values(|t: ToolDef| t@);
    assert(dv =~~= builtin_specs());
    assert(builtin_specs().len() == 24);
    assert(defs@.len() == dv.len());
    proof {
        lemma_choices_in_range(*config, 24, config.tools.custom@.len() as int);
    }
    let mut out: Vec<JsonValue> = Vec::new();
    let mut k: usize = 0;
    while k < choices.len()
        invariant
            k <= choices@.len(),
            dv == defs@.map_values(|t: ToolDef| t@),
            dv == builtin_specs(),
            defs@.len() == 24,
            forall|m: int| 0 <= m < choices@.len() ==> match #[trigger] choices@[m] {
                ToolChoice::Builtin(i) => i < 24,
                ToolChoice::Custom(j) => j < config.tools.custom@.len(),
            },
            out@.len() == k,
            forall|m: int| 0 <= m < k ==> tool_json(out@[m], choice_spec(*config, #[trigger] choices@[m])),
        decreases choices.len() - k,
    {
        let v = match choices[k] {
            ToolChoice::Builtin(i) => {
                assert(dv[i as int] == defs@[i as int]@);
                builtin_tool_json(&defs[i])
            },
            ToolChoice::Custom(j) => custom_tool_json(&config.tools.custom[j]),
        };
        out.push(v);
        k += 1;
    }
    (out, warnings)
}

/// Every chosen tool names one that exists.
proof fn lemma_choices_in_range(config: AppConfig, n: int, m: int)
    requires
        0 <= n <= 24,
        0 <= m <= config.tools.custom@.len(),
    ensures
        forall|k: int| 0 <= k < (builtins_offered(config, n) + customs_offered(config, m)).len() ==> match #[trigger] (
        builtins_offered(config, n) + customs_offered(config, m))[k] {
            ToolChoice::Builtin(i) => i < n,
            ToolChoice::Custom(j) => j < m,
        },
    decreases n + m,
{
    if m > 0 {
        lemma_choices_in_range(config, n, m - 1);
        let a = builtins_offered(config, n) + customs_offered(config, m - 1);
        let b = builtins_offered(config, n) + customs_offered(config, m);
        assert forall|k: int| 0 <= k < b.len() implies match #[trigger] b[k] {
            ToolChoice::Builtin(i) => i < n,
            ToolChoice::Custom(j) => j < m,
        } by {
            if k < a.len() {
                assert(b[k] == a[k]);
            }
        }
    } else if n > 0 {
        lemma_choices_in_range(config, n - 1, 0);
        let a = builtins_offered(config, n - 1) + customs_offered(config, 0);
        let b = builtins_offered(config, n) + customs_offered(config, 0);
        assert(customs_offered(config, 0) =~= Seq::<ToolChoice>::empty());
        assert forall|k: int| 0 <= k < b.len() implies match #[trigger] b[k] {
            ToolChoice::Builtin(i) => i < n,
            ToolChoice::Custom(j) => j < m,
        } by {
            if k < a.len() {
                assert(b[k] == a[k]);
            }
        }
    } else {
        assert(builtins_offered(config, 0) + customs_offered(config, 0) =~= Seq::<ToolChoice>::empty());
    }
}


/// The built-in tool offered at place `i`.
pub open spec fn offered_tool(i: int) -> BuiltinTool {
    if i == 0 {
        BuiltinTool::DaemonSkeleton
    } else if i == 1 {
        BuiltinTool::DaemonGetHash
    } else if i == 2 {
        BuiltinTool::DaemonFileInfo
    } else if i == 3 {
        BuiltinTool::DaemonCatalog
    } else if i == 4 {
        BuiltinTool::DaemonLocInfo
    } else if i == 5 {
        BuiltinTool::ApplyPatch
    } else if i == 6 {
        BuiltinTool::Ls
    } else if i == 7 {
        BuiltinTool::Grep
    } else if i == 8 {
        BuiltinTool::CreateFile
    } else if i == 9 {
        BuiltinTool::GitDiff
    } else if i == 10 {
        BuiltinTool::Search
    } else if i == 11 {
        BuiltinTool::Find
    } else if i == 12 {
        BuiltinTool::FindFuzzy
    } else if i == 13 {
        BuiltinTool::Read
    } else if i == 14 {
        BuiltinTool::CargoCheck
    } else if i == 15 {
        BuiltinTool::Sed
    } else if i == 16 {
        BuiltinTool::Undo
    } else if i == 17 {
        BuiltinTool::AstGrepSearch
    } else if i == 18 {
        BuiltinTool::TaskCreate
    } else if i == 19 {
        BuiltinTool::TaskStep
    } else if i == 20 {
        BuiltinTool::TaskComplete
    } else if i == 21 {
        BuiltinTool::TaskList
    } else if i == 22 {
        BuiltinTool::TaskAbort
    } else if i == 23 {
        BuiltinTool::AstExplain
    } else {
        BuiltinTool::AstExplain
    }
}

/// Every built-in tool offered to the model routes to the tool of that
/// name: a call the model makes by an offered name reaches that tool.
pub proof fn law_offered_tools_route(i: int, custom: Seq<Seq<char>>)
    requires
        0 <= i < builtin_tools().len(),
    ensures
        builtin_tool_name(offered_tool(i)) == builtin_tools()[i].0,
        route_spec(builtin_tools()[i].0, false, custom) == ToolRoute::Builtin(offered_tool(i)),
{
    law_builtin_names_route_to_their_tool(offered_tool(i), builtin_tools()[i].0, custom);
}

} // verus!
