//! The agent's skill groups, its events, and how it picks the group, the
//! system prompt and the tools offered to the model.

use vstd::prelude::*;
use crate::fmt::{decimal, decimal_chars};
use crate::tool_reply::{is_object, is_str, keys, str_value, with_field};
use crate::json::{as_array, as_bool, as_i64, as_str, as_u64, get, get_array, get_bool, get_i64, get_str, get_u64, str_or, JsonValue};
use crate::text::{chars_eq, chars_of, clone_chars, copy_range, extend_from, lines, push_str_chars, split_lines, string_of, views};

verus! {

broadcast use vstd::string::group_string_axioms;

pub const CHAT_PROMPT: &'static str =
    "You are a helpful conversational assistant. Respond naturally and concisely.";

pub const SYSTEM_PROMPT: &'static str = r#"You are an expert code editing assistant with surgical AST-level tools.
## WORKFLOW
### 1. DISCOVER — Understand the codebase efficiently (Pre-edit)
- Use `daemon_skeleton` to fetch the compressed code skeleton. This provides the big picture overview and shows file structures with AST body hashes.
- Use `daemon_get_hash` to fetch the full implementation of specific code blocks (structs, functions) by their hash. This limits context window cache usage by only loading necessary code.
- Use `daemon_file_info` to list all AST body hashes within a specific file.
- ALTERNATIVELY, you can use local tools like `codex_eyes_ls`, `codex_eyes_grep`, or `ast_grep_search` if you need to search the live filesystem directly.
### 2. EDIT — Make surgical changes locally
Choose the RIGHT tool for the job:
**Simple text replacement** → Use `codex_eyes_sed`
- Renaming a variable, fixing a typo, updating a string literal
- Example: `find="old_name"` `replace="new_name"` `path="src/main.rs"`
**Structural/Surgical code edit** → Use `apply_patch`
- Changing function signatures, wrapping expressions, refactoring patterns
- Format:
  filename src/foo.rs
  <<<<<<< SEARCH
  [exact lines of code to find]
  =======
  [lines of code to replace with]
  >>>>>>> REPLACE
- The SEARCH block must match the exact text in the file (including whitespace).
- You can include multiple SEARCH/REPLACE blocks in a single patch.
**Create or overwrite file / Create directory** → Use `codex_eyes_createFile`
- For new files that don't exist yet, OR for completely overwriting an existing file with new content
- To create a directory, end the path with a slash (e.g. `path="src/new_folder/"`)
- Pass the full file content in the `content` field (omit if just creating a directory)
### 2b. PATCH FAILURE RECOVERY — CRITICAL
If `apply_patch` fails, it means the SEARCH block didn't match the file exactly.
- Read the file again using `codex_eyes_read` to see the exact current content.
- Copy the exact text (including whitespace) into the SEARCH block.
- Retry `apply_patch`.
**WHEN TO USE sed INSTEAD OF apply_patch:**
- Renaming a variable, function, or type → sed
- Fixing a typo, string, or comment → sed
- Any change where you can see the exact text in the source → sed
- `apply_patch` is for multi-line edits, refactoring, or structural changes.
### 3. VERIFY — Check your work (Post-edit)
- **CRITICAL**: After modifying files, the daemon's skeleton and hash caches are STALE.
- Do NOT use `daemon_get_hash` or `daemon_skeleton` to verify edited files.
- Instead, use local read tools: `codex_eyes_read`, `codex_eyes_grep`, or `ast_grep_search`.
- Use `codex_eyes_gitdiff` to see what changed.
- Use `codex_eyes_cargo_check` to verify compilation.
- Use `task_step` to record each step with success/failure.
### 4. CLOSE — Complete the task
- Use `task_complete` when done.
- All steps are recorded in `.impl/task_HHMMSS_NNNN/changes.log`.
## CRITICAL RULES
1. **Always create a task first** before making changes.
2. **Use `apply_patch` for structural changes** — it's exact and won't break code structure.
3. **Use `codex_eyes_sed` for simple changes** — it's easier and more reliable for single lines.
4. **If `apply_patch` fails, read the file again** to get the exact text.
5. **Record every step** with `task_step` so there's a full audit trail.
6. **After code changes**, run `codex_eyes_cargo_check` to verify compilation.
7. **Use `codex_eyes_undo`** to revert a file if changes break it.
"#;
pub const AST_SYSTEM_PROMPT: &'static str = r#"You are an expert code editing assistant specializing in structural changes.
## WORKFLOW
### 1. DISCOVER — Understand the codebase efficiently (Pre-edit)
- Use `daemon_skeleton` to fetch the compressed code skeleton. This provides the big picture overview and shows file structures with AST body hashes.
- Use `daemon_get_hash` to fetch the full implementation of specific code blocks (structs, functions) by their hash. This limits context window cache usage by only loading necessary code.
- Use `daemon_file_info` to list all AST body hashes within a specific file.
- ALTERNATIVELY, you can use local tools like `codex_eyes_ls`, `codex_eyes_grep`, or `ast_grep_search` if you need to search the live filesystem directly.
### 1b. TODO.md WORKFLOW — Parse and execute user-defined tasks
- If the user asks to "do the todo" or similar, use `codex_eyes_read` to read `todo.md` (or `TODO.md`).
- The file may contain a list of tasks. Some tasks might specify patches directly, e.g.:
  `- [ ] Refactor: apply_patch path="src/main.rs" patch="<<<<<<< SEARCH\n...\n=======\n...\n>>>>>>> REPLACE"`
- **CRITICAL**: Before executing these patches, you MUST verify them.
- Extract the `path` and `patch` from the todo item.
- Read the file using `codex_eyes_read` to see the actual code structure.
- Compare the `patch` with the actual file content.
- If the patch looks incorrect (e.g., wrong whitespace), correct it.
- Execute `apply_patch`.
- Mark the task as complete in `todo.md` using `codex_eyes_sed` (change `- [ ]` to `- [x]`).
- Record the step using `task_step`.
### 2. EDIT — Make surgical changes locally
**Structural/Surgical code edit** → Use `apply_patch`
- Changing function signatures, wrapping expressions, refactoring patterns
- Format:
  <<<<<<< SEARCH
  [exact lines of code to find]
  =======
  [lines of code to replace with]
  >>>>>>> REPLACE
- The SEARCH block must match the exact text in the file (including whitespace).
- You can include multiple SEARCH/REPLACE blocks in a single patch.
### 2b. PATCH FAILURE RECOVERY — CRITICAL
If `apply_patch` fails, it means the SEARCH block didn't match the file exactly.
- Read the file again using `codex_eyes_read` to see the exact current content.
- Copy the exact text (including whitespace) into the SEARCH block.
- Retry `apply_patch`.
**WHEN TO USE sed INSTEAD OF apply_patch:**
- Renaming a variable, function, or type → sed
- Fixing a typo, string, or comment → sed
- Any change where you can see the exact text in the source → sed
- `apply_patch` is for multi-line edits, refactoring, or structural changes.
### 3. VERIFY — Check your work (Post-edit)
- **CRITICAL**: After modifying files, the daemon's skeleton and hash caches are STALE.
- Do NOT use `daemon_get_hash` or `daemon_skeleton` to verify edited files.
- Instead, use local read tools: `codex_eyes_read`, `codex_eyes_grep`, or `ast_grep_search`.
- Use `codex_eyes_gitdiff` to see what changed.
- Use `codex_eyes_cargo_check` to verify compilation.
- Use `task_step` to record each step with success/failure.
### 4. CLOSE — Complete the task
- Use `task_complete` when done.
- All steps are recorded in `.impl/task_HHMMSS_NNNN/changes.log`.
## CRITICAL RULES
1. **Always create a task first** before making changes.
2. **Use `apply_patch` for structural changes** — it's exact and won't break code structure.
3. **Use `codex_eyes_sed` for simple changes** — it's easier and more reliable for single lines.
4. **If `apply_patch` fails, read the file again** to get the exact text.
5. **Record every step** with `task_step` so there's a full audit trail.
6. **After code changes**, run `codex_eyes_cargo_check` to verify compilation.
7. **Use `codex_eyes_undo`** to revert a file if changes break it.
"#;

/// What the agent reports while it works.
#[derive(Debug, Clone)]
pub enum AgentEvent {
    Thinking { round: u32, max_rounds: u32 },
    Reasoning { preview: String },
    RunningTool { name: String },
    Verifying,
    ToolCall { name: String, summary: String },
    ToolResult { name: String, success: bool, summary: String },
    DiffLine { line: String },
    Done,
}

/// A named set of tools with its system prompt.
#[derive(Debug, Clone)]
pub struct SkillGroup {
    pub name: String,
    pub description: String,
    pub emoji: String,
    pub tools: Vec<String>,
    pub prompt: String,
    pub aliases: Vec<String>,
}

/// The model of a skill group.
#[verifier::ext_equal]
pub struct GroupView {
    pub name: Seq<char>,
    pub description: Seq<char>,
    pub emoji: Seq<char>,
    pub tools: Seq<Seq<char>>,
    pub prompt: Seq<char>,
    pub aliases: Seq<Seq<char>>,
}

impl View for SkillGroup {
    type V = GroupView;

    open spec fn view(&self) -> GroupView {
        GroupView {
            name: self.name@,
            description: self.description@,
            emoji: self.emoji@,
            tools: views(self.tools@),
            prompt: self.prompt@,
            aliases: views(self.aliases@),
        }
    }
}

pub open spec fn groups_view(v: Seq<SkillGroup>) -> Seq<GroupView> {
    Seq::new(v.len(), |i: int| v[i]@)
}

pub open spec fn strs_view(v: Seq<&str>) -> Seq<Seq<char>> {
    v.map_values(|s: &str| s@)
}

pub open spec fn group_spec(
    name: &str,
    description: &str,
    emoji: &str,
    tools: Seq<&str>,
    prompt: &str,
    aliases: Seq<&str>,
) -> GroupView {
    GroupView {
        name: name@,
        description: description@,
        emoji: emoji@,
        tools: strs_view(tools),
        prompt: prompt@,
        aliases: strs_view(aliases),
    }
}

/// The tools that the program itself provides; a custom tool is any other.
pub open spec fn built_in_tool_names() -> Seq<Seq<char>> {
    strs_view(seq!["daemon_skeleton", "daemon_get_hash", "daemon_file_info", "daemon_catalog", "daemon_loc_info", "codex_eyes_ls", "codex_eyes_grep", "codex_eyes_sed", "apply_patch", "ast_grep_search", "codex_eyes_createFile", "codex_eyes_gitdiff", "codex_eyes_search", "codex_eyes_find", "codex_eyes_find_fuzzy", "codex_eyes_read", "codex_eyes_cargo_check", "codex_eyes_undo", "task_create", "task_step", "task_complete", "task_list", "task_abort", "ast_explain"])
}

/// The skill groups used when the configuration defines none: Chat (no
/// tools), Daemon, Discover, AST, Edit, Verify, Code and Full (all tools).
pub open spec fn default_groups() -> Seq<GroupView> {
    seq![
        group_spec("Chat", "Conversational mode, no tools", "💬", seq![], CHAT_PROMPT, seq![]),
        group_spec("Daemon", "Context daemon: skeleton, hash, catalog", "🌐", seq!["daemon_skeleton", "daemon_get_hash", "daemon_file_info", "daemon_catalog", "daemon_loc_info"], SYSTEM_PROMPT, seq!["net"]),
        group_spec("Discover", "Browse, search, AST patterns", "🔍", seq!["codex_eyes_ls", "codex_eyes_grep", "codex_eyes_search", "codex_eyes_find", "codex_eyes_find_fuzzy", "codex_eyes_read", "ast_explain", "ast_grep_search"], SYSTEM_PROMPT, seq!["eyes"]),
        group_spec("AST", "AST-driven edits: explain, search, patch", "🌲", seq!["ast_explain", "ast_grep_search", "apply_patch", "codex_eyes_read", "codex_eyes_search", "codex_eyes_sed", "task_create", "task_step", "task_complete"], AST_SYSTEM_PROMPT, seq!["ast"]),
        group_spec("Edit", "Surgical edits: sed + patch + create", "✏️", seq!["codex_eyes_sed", "apply_patch", "codex_eyes_createFile", "codex_eyes_undo", "codex_eyes_read", "codex_eyes_search", "ast_grep_search", "task_create", "task_step", "task_complete"], SYSTEM_PROMPT, seq!["hand"]),
        group_spec("Verify", "Check diffs, compilation, tasks", "✅", seq!["codex_eyes_gitdiff", "codex_eyes_cargo_check", "codex_eyes_read", "codex_eyes_search", "task_list"], SYSTEM_PROMPT, seq![]),
        group_spec("Code", "Discover + Edit (no verify)", "🛠️", seq!["codex_eyes_ls", "codex_eyes_grep", "codex_eyes_search", "codex_eyes_find", "codex_eyes_find_fuzzy", "codex_eyes_read", "codex_eyes_sed", "ast_grep_search", "apply_patch", "codex_eyes_createFile", "codex_eyes_undo", "task_create", "task_step", "task_complete"], SYSTEM_PROMPT, seq![]),
        group_spec("Full", "All tools (default)", "🚀", seq!["daemon_skeleton", "daemon_get_hash", "daemon_file_info", "daemon_catalog", "daemon_loc_info", "codex_eyes_ls", "codex_eyes_grep", "codex_eyes_sed", "ast_grep_search", "apply_patch", "codex_eyes_createFile", "codex_eyes_gitdiff", "codex_eyes_search", "codex_eyes_find", "codex_eyes_find_fuzzy", "codex_eyes_read", "codex_eyes_cargo_check", "codex_eyes_undo", "ast_explain", "task_create", "task_step", "task_complete", "task_list", "task_abort"], SYSTEM_PROMPT, seq!["all"]),
    ]
}

fn owned(s: &str) -> (r: String)
    ensures
        r@ == s@,
{
    string_of(chars_of(s).as_slice())
}

fn strings(v: Vec<&str>) -> (r: Vec<String>)
    ensures
        views(r@) == strs_view(v@),
{
    let mut r: Vec<String> = Vec::new();
    let mut i: usize = 0;
    while i < v.len()
        invariant
            i <= v.len(),
            views(r@) == strs_view(v@.take(i as int)),
        decreases v.len() - i,
    {
        let ghost before = views(r@);
        r.push(owned(v[i]));
        proof {
            assert(views(r@) =~= before.push(v@[i as int]@));
            assert(strs_view(v@.take(i + 1)) =~= strs_view(v@.take(i as int)).push(v@[i as int]@));
        }
        i += 1;
    }
    assert(v@.take(v.len() as int) =~= v@);
    r
}

fn group(name: &str, description: &str, emoji: &str, tools: Vec<&str>, prompt: &str, aliases: Vec<&str>) -> (r: SkillGroup)
    ensures
        r@ == group_spec(name, description, emoji, tools@, prompt, aliases@),
{
    SkillGroup {
        name: owned(name),
        description: owned(description),
        emoji: owned(emoji),
        tools: strings(tools),
        prompt: owned(prompt),
        aliases: strings(aliases),
    }
}

/// The built-in skill groups.
pub fn default_skill_groups() -> (r: Vec<SkillGroup>)
    ensures
        groups_view(r@) == default_groups(),
{
    let mut v: Vec<SkillGroup> = Vec::new();
    v.push(group("Chat", "Conversational mode, no tools", "💬", vec![], CHAT_PROMPT, vec![]));
    assert(v@[0]@ == default_groups()[0]);
    v.push(group("Daemon", "Context daemon: skeleton, hash, catalog", "🌐", vec!["daemon_skeleton", "daemon_get_hash", "daemon_file_info", "daemon_catalog", "daemon_loc_info"], SYSTEM_PROMPT, vec!["net"]));
    assert(v@[1]@ == default_groups()[1]);
    v.push(group("Discover", "Browse, search, AST patterns", "🔍", vec!["codex_eyes_ls", "codex_eyes_grep", "codex_eyes_search", "codex_eyes_find", "codex_eyes_find_fuzzy", "codex_eyes_read", "ast_explain", "ast_grep_search"], SYSTEM_PROMPT, vec!["eyes"]));
    assert(v@[2]@ == default_groups()[2]);
    v.push(group("AST", "AST-driven edits: explain, search, patch", "🌲", vec!["ast_explain", "ast_grep_search", "apply_patch", "codex_eyes_read", "codex_eyes_search", "codex_eyes_sed", "task_create", "task_step", "task_complete"], AST_SYSTEM_PROMPT, vec!["ast"]));
    assert(v@[3]@ == default_groups()[3]);
    v.push(group("Edit", "Surgical edits: sed + patch + create", "✏️", vec!["codex_eyes_sed", "apply_patch", "codex_eyes_createFile", "codex_eyes_undo", "codex_eyes_read", "codex_eyes_search", "ast_grep_search", "task_create", "task_step", "task_complete"], SYSTEM_PROMPT, vec!["hand"]));
    assert(v@[4]@ == default_groups()[4]);
    v.push(group("Verify", "Check diffs, compilation, tasks", "✅", vec!["codex_eyes_gitdiff", "codex_eyes_cargo_check", "codex_eyes_read", "codex_eyes_search", "task_list"], SYSTEM_PROMPT, vec![]));
    assert(v@[5]@ == default_groups()[5]);
    v.push(group("Code", "Discover + Edit (no verify)", "🛠️", vec!["codex_eyes_ls", "codex_eyes_grep", "codex_eyes_search", "codex_eyes_find", "codex_eyes_find_fuzzy", "codex_eyes_read", "codex_eyes_sed", "ast_grep_search", "apply_patch", "codex_eyes_createFile", "codex_eyes_undo", "task_create", "task_step", "task_complete"], SYSTEM_PROMPT, vec![]));
    assert(v@[6]@ == default_groups()[6]);
    v.push(group("Full", "All tools (default)", "🚀", vec!["daemon_skeleton", "daemon_get_hash", "daemon_file_info", "daemon_catalog", "daemon_loc_info", "codex_eyes_ls", "codex_eyes_grep", "codex_eyes_sed", "ast_grep_search", "apply_patch", "codex_eyes_createFile", "codex_eyes_gitdiff", "codex_eyes_search", "codex_eyes_find", "codex_eyes_find_fuzzy", "codex_eyes_read", "codex_eyes_cargo_check", "codex_eyes_undo", "ast_explain", "task_create", "task_step", "task_complete", "task_list", "task_abort"], SYSTEM_PROMPT, vec!["all"]));
    assert(v@[7]@ == default_groups()[7]);
    assert(groups_view(v@) =~= default_groups());
    v
}


// ---------------------------------------------------------------------------
// Choosing the skill group
// ---------------------------------------------------------------------------

/// What `str::to_lowercase` gives for a string.
pub uninterp spec fn spec_lowercase(s: Seq<char>) -> Seq<char>;

/// `str::to_lowercase`. The result is named only; Unicode's case mapping
/// is left to std.
#[verifier::external_body]
pub(crate) fn lowercase(s: &str) -> (r: String)
    ensures
        r@ == spec_lowercase(s@),
{
    s.to_lowercase()
}

/// What the session must do after the group changed: its first (system)
/// message takes `prompt`, and when `clear_history` is set only that first
/// message is kept.
#[derive(Debug, Clone)]
pub struct PromptChange {
    pub prompt: String,
    pub clear_history: bool,
}

/// The skill groups and which one is active.
#[derive(Debug, Clone)]
pub struct SkillSelection {
    pub active_skill_group: usize,
    pub skill_groups: Vec<SkillGroup>,
}

/// The group index that a request for `index` gives: `index`, kept below
/// the number of groups.
pub open spec fn clamp_index(index: int, n: int) -> int {
    if index < n - 1 {
        index
    } else {
        n - 1
    }
}

/// The group after `a` in a cycle of `n`.
pub open spec fn next_group(a: int, n: int) -> int {
    (a + 1) % n
}

/// Where `k` steps of the cycle lead from `a`.
pub open spec fn cycled(a: int, n: int, k: nat) -> int
    decreases k,
{
    if k == 0 {
        a
    } else {
        next_group(cycled(a, n, (k - 1) as nat), n)
    }
}

/// The group the toggle goes to from `a`: from Chat (group 0) to the last
/// group, from any other back to Chat.
pub open spec fn toggled(a: int, n: int) -> int {
    if a == 0 {
        n - 1
    } else {
        0
    }
}

/// A group answers to `lname` when its lowercased name or one of its
/// lowercased aliases equals it.
pub open spec fn answers_to(g: GroupView, lname: Seq<char>) -> bool {
    spec_lowercase(g.name) == lname || exists|j: int|
        0 <= j < g.aliases.len() && spec_lowercase(#[trigger] g.aliases[j]) == lname
}

/// Whether the tool named `t` is offered while group `a` is active.
pub open spec fn offered(gs: Seq<GroupView>, a: int, t: Seq<char>) -> bool {
    gs.len() > 0 && gs[a].tools.len() > 0 && (gs[a].tools.contains(t) || !built_in_tool_names().contains(t))
}

/// The first message that `prompt` makes of `m0`: the object with its
/// "content" field set to the prompt (added last when it was missing), every
/// other field kept; a null message becomes such an object.
pub open spec fn prompted(m0: JsonValue, m: JsonValue, prompt: Seq<char>) -> bool {
    &&& is_object(m)
    &&& is_str(get(m, "content"@), prompt)
    &&& forall|k: Seq<char>| k != "content"@ ==> get(m, k) == get(m0, k)
    &&& keys(m) == if keys(m0).contains("content"@) {
        keys(m0)
    } else {
        keys(m0).push("content"@)
    }
}

/// A session's messages after a change of prompt: an empty session stays
/// empty; else the first message takes the prompt, and the rest is dropped
/// when the history is cleared, kept as it was otherwise.
pub open spec fn prompt_applied(old: Seq<JsonValue>, new: Seq<JsonValue>, prompt: Seq<char>, clear: bool) -> bool {
    if old.len() == 0 {
        new.len() == 0
    } else {
        &&& prompted(old[0], new[0], prompt)
        &&& new.len() == if clear {
            1
        } else {
            old.len()
        }
        &&& !clear ==> new.subrange(1, new.len() as int) == old.subrange(1, old.len() as int)
    }
}

/// A first message that can take a prompt: an object, or null.
pub open spec fn takes_prompt(messages: Seq<JsonValue>) -> bool {
    messages.len() > 0 ==> (is_object(messages[0]) || messages[0] is Null)
}

/// Carries a change of prompt out on the session's messages: the first
/// (system) message gets the prompt as its "content"; when the history is
/// cleared only that message stays.
pub fn apply_prompt_change(messages: &mut Vec<JsonValue>, change: &PromptChange)
    requires
        takes_prompt(old(messages)@),
    ensures
        prompt_applied(old(messages)@, final(messages)@, change.prompt@, change.clear_history),
{
    if messages.len() == 0 {
        return;
    }
    let m0 = messages.remove(0);
    let base = match m0 {
        JsonValue::Null => JsonValue::Object(Vec::new()),
        other => other,
    };
    proof {
        assert(keys(base) =~= keys(old(messages)@[0]));
        assert(forall|k: Seq<char>| get(base, k) == get(old(messages)@[0], k));
    }
    let m = with_field(base, "content", str_value(change.prompt.as_str()));
    messages.insert(0, m);
    if change.clear_history {
        messages.truncate(1);
    }
    proof {
        if !change.clear_history {
            assert(messages@.subrange(1, messages@.len() as int) =~= old(messages)@.subrange(
                1,
                old(messages)@.len() as int,
            ));
        }
    }
}

impl SkillSelection {
    /// The active index points at a group, when there are groups.
    pub open spec fn valid(&self) -> bool {
        self.skill_groups@.len() > 0 ==> self.active_skill_group < self.skill_groups@.len()
    }

    /// The change of prompt that selecting group `i` asks of the session.
    pub open spec fn change_for(&self, i: int, c: PromptChange) -> bool {
        &&& c.prompt@ == self.skill_groups@[i].prompt@
        &&& c.clear_history == (i == 0)
    }

    /// The first group active.
    pub fn new(skill_groups: Vec<SkillGroup>) -> (r: SkillSelection)
        ensures
            r.active_skill_group == 0,
            r.skill_groups@ == skill_groups@,
            r.valid(),
    {
        SkillSelection { active_skill_group: 0, skill_groups }
    }

    /// Makes group `index` active (the last one if `index` is past it) and
    /// says what the session must change; with no groups, nothing changes
    /// and 0 is returned.
    pub fn set_skill_group(&mut self, index: usize) -> (r: (usize, Option<PromptChange>))
        ensures
            final(self).skill_groups@ == old(self).skill_groups@,
            old(self).skill_groups@.len() == 0 ==> r.0 == 0 && r.1 is None && final(self).active_skill_group
                == old(self).active_skill_group,
            old(self).skill_groups@.len() > 0 ==> {
                &&& r.0 == clamp_index(index as int, old(self).skill_groups@.len() as int)
                &&& final(self).active_skill_group == r.0
                &&& r.1 matches Some(c) && final(self).change_for(r.0 as int, c)
            },
            old(self).valid() ==> final(self).valid(),
            old(self).skill_groups@.len() > 0 ==> final(self).valid(),
    {
        let n = self.skill_groups.len();
        if n == 0 {
            return (0, None);
        }
        let idx = if index < n - 1 {
            index
        } else {
            n - 1
        };
        self.active_skill_group = idx;
        let prompt = owned(self.skill_groups[idx].prompt.as_str());
        (idx, Some(PromptChange { prompt, clear_history: idx == 0 }))
    }

    /// Makes active the first group that answers to `name`, compared in
    /// lower case with its name and its aliases; `None` when no group does.
    pub fn set_skill_group_by_name(&mut self, name: &str) -> (r: Option<(usize, PromptChange)>)
        requires
            old(self).valid(),
        ensures
            final(self).skill_groups@ == old(self).skill_groups@,
            final(self).valid(),
            ({
                let gs = groups_view(old(self).skill_groups@);
                let lname = spec_lowercase(name@);
                match r {
                    Some((i, c)) => {
                        &&& i < gs.len()
                        &&& answers_to(gs[i as int], lname)
                        &&& forall|j: int| 0 <= j < i ==> !answers_to(#[trigger] gs[j], lname)
                        &&& final(self).active_skill_group == i
                        &&& final(self).change_for(i as int, c)
                    },
                    None => {
                        &&& forall|j: int| 0 <= j < gs.len() ==> !answers_to(#[trigger] gs[j], lname)
                        &&& final(self).active_skill_group == old(self).active_skill_group
                    },
                }
            }),
    {
        let ghost gs = groups_view(self.skill_groups@);
        let lname = chars_of(lowercase(name).as_str());
        let mut i: usize = 0;
        while i < self.skill_groups.len()
            invariant
                i <= self.skill_groups@.len(),
                gs == groups_view(self.skill_groups@),
                self.skill_groups@ == old(self).skill_groups@,
                self.active_skill_group == old(self).active_skill_group,
                old(self).valid(),
                lname@ == spec_lowercase(name@),
                forall|j: int| 0 <= j < i ==> !answers_to(#[trigger] gs[j], lname@),
            decreases self.skill_groups.len() - i,
        {
            let hit = group_answers(&self.skill_groups[i], lname.as_slice());
            assert(gs[i as int] == self.skill_groups@[i as int]@);
            if hit {
                let (k, c) = self.set_skill_group(i);
                match c {
                    Some(c) => {
                        return Some((k, c));
                    },
                    None => {
                        return None;
                    },
                }
            }
            i += 1;
        }
        None
    }

    /// Moves to the next group, after the last back to the first.
    pub fn cycle_skill_group(&mut self) -> (r: (usize, Option<PromptChange>))
        requires
            old(self).valid(),
        ensures
            final(self).skill_groups@ == old(self).skill_groups@,
            final(self).valid(),
            old(self).skill_groups@.len() == 0 ==> r.0 == 0 && r.1 is None,
            old(self).skill_groups@.len() > 0 ==> {
                &&& r.0 == next_group(old(self).active_skill_group as int, old(self).skill_groups@.len() as int)
                &&& final(self).active_skill_group == r.0
                &&& r.1 matches Some(c) && final(self).change_for(r.0 as int, c)
            },
    {
        let n = self.skill_groups.len();
        if n == 0 {
            return (0, None);
        }
        let next = (self.active_skill_group + 1) % n;
        self.set_skill_group(next)
    }

    /// Switches between Chat (group 0) and the last group (usually Full);
    /// true when a group other than Chat is now active.
    pub fn toggle_skills(&mut self) -> (r: (bool, Option<PromptChange>))
        requires
            old(self).valid(),
        ensures
            final(self).skill_groups@ == old(self).skill_groups@,
            final(self).valid(),
            old(self).skill_groups@.len() == 0 ==> !r.0 && r.1 is None,
            old(self).skill_groups@.len() > 0 ==> {
                &&& final(self).active_skill_group == toggled(
                    old(self).active_skill_group as int,
                    old(self).skill_groups@.len() as int,
                )
                &&& r.0 == (final(self).active_skill_group != 0)
                &&& r.1 matches Some(c) && final(self).change_for(final(self).active_skill_group as int, c)
            },
    {
        let n = self.skill_groups.len();
        if n == 0 {
            return (false, None);
        }
        let (_, c) = if self.active_skill_group == 0 {
            self.set_skill_group(n - 1)
        } else {
            self.set_skill_group(0)
        };
        (self.active_skill_group != 0, c)
    }

    /// `set_skill_group` carried out on the session's messages: the first
    /// message takes the group's prompt, and choosing Chat (group 0) keeps
    /// only that message.
    pub fn set_skill_group_in(&mut self, index: usize, messages: &mut Vec<JsonValue>) -> (r: usize)
        requires
            old(self).skill_groups@.len() > 0 ==> takes_prompt(old(messages)@),
        ensures
            final(self).skill_groups@ == old(self).skill_groups@,
            old(self).skill_groups@.len() == 0 ==> r == 0 && final(self).active_skill_group
                == old(self).active_skill_group && final(messages)@ == old(messages)@,
            old(self).skill_groups@.len() > 0 ==> {
                &&& r == clamp_index(index as int, old(self).skill_groups@.len() as int)
                &&& final(self).active_skill_group == r
                &&& prompt_applied(old(messages)@, final(messages)@, old(self).skill_groups@[r as int].prompt@, r == 0)
            },
            old(self).valid() ==> final(self).valid(),
            old(self).skill_groups@.len() > 0 ==> final(self).valid(),
    {
        let (r, c) = self.set_skill_group(index);
        if let Some(c) = c {
            apply_prompt_change(messages, &c);
        }
        r
    }

    /// `cycle_skill_group` carried out on the session's messages.
    pub fn cycle_skill_group_in(&mut self, messages: &mut Vec<JsonValue>) -> (r: usize)
        requires
            old(self).valid(),
            old(self).skill_groups@.len() > 0 ==> takes_prompt(old(messages)@),
        ensures
            final(self).skill_groups@ == old(self).skill_groups@,
            final(self).valid(),
            old(self).skill_groups@.len() == 0 ==> r == 0 && final(messages)@ == old(messages)@,
            old(self).skill_groups@.len() > 0 ==> {
                &&& r == next_group(old(self).active_skill_group as int, old(self).skill_groups@.len() as int)
                &&& final(self).active_skill_group == r
                &&& prompt_applied(old(messages)@, final(messages)@, old(self).skill_groups@[r as int].prompt@, r == 0)
            },
    {
        let (r, c) = self.cycle_skill_group();
        if let Some(c) = c {
            apply_prompt_change(messages, &c);
        }
        r
    }

    /// `toggle_skills` carried out on the session's messages: going to Chat
    /// keeps only the first message, which takes Chat's prompt.
    pub fn toggle_skills_in(&mut self, messages: &mut Vec<JsonValue>) -> (r: bool)
        requires
            old(self).valid(),
            old(self).skill_groups@.len() > 0 ==> takes_prompt(old(messages)@),
        ensures
            final(self).skill_groups@ == old(self).skill_groups@,
            final(self).valid(),
            old(self).skill_groups@.len() == 0 ==> !r && final(messages)@ == old(messages)@,
            old(self).skill_groups@.len() > 0 ==> {
                let a = final(self).active_skill_group;
                &&& a == toggled(old(self).active_skill_group as int, old(self).skill_groups@.len() as int)
                &&& r == (a != 0)
                &&& prompt_applied(old(messages)@, final(messages)@, old(self).skill_groups@[a as int].prompt@, a == 0)
            },
    {
        let (r, c) = self.toggle_skills();
        if let Some(c) = c {
            apply_prompt_change(messages, &c);
        }
        r
    }

    /// `set_skill_group_by_name` carried out on the session's messages;
    /// `None` (and nothing changed) when no group answers to `name`.
    pub fn set_skill_group_by_name_in(&mut self, name: &str, messages: &mut Vec<JsonValue>) -> (r: Option<usize>)
        requires
            old(self).valid(),
            (exists|j: int|
                0 <= j < old(self).skill_groups@.len() && answers_to(
                    #[trigger] groups_view(old(self).skill_groups@)[j],
                    spec_lowercase(name@),
                )) ==> takes_prompt(old(messages)@),
        ensures
            final(self).skill_groups@ == old(self).skill_groups@,
            final(self).valid(),
            ({
                let gs = groups_view(old(self).skill_groups@);
                let lname = spec_lowercase(name@);
                match r {
                    Some(i) => {
                        &&& i < gs.len()
                        &&& answers_to(gs[i as int], lname)
                        &&& forall|j: int| 0 <= j < i ==> !answers_to(#[trigger] gs[j], lname)
                        &&& final(self).active_skill_group == i
                        &&& prompt_applied(old(messages)@, final(messages)@, old(self).skill_groups@[i as int].prompt@, i == 0)
                    },
                    None => {
                        &&& forall|j: int| 0 <= j < gs.len() ==> !answers_to(#[trigger] gs[j], lname)
                        &&& final(self).active_skill_group == old(self).active_skill_group
                        &&& final(messages)@ == old(messages)@
                    },
                }
            }),
    {
        match self.set_skill_group_by_name(name) {
            Some((i, c)) => {
                apply_prompt_change(messages, &c);
                Some(i)
            },
            None => None,
        }
    }

    /// The first group that answers to `name`, compared in lower case with
    /// its name and its aliases.
    pub fn find_skill_group(&self, name: &str) -> (r: Option<usize>)
        ensures
            ({
                let gs = groups_view(self.skill_groups@);
                let lname = spec_lowercase(name@);
                match r {
                    Some(i) => {
                        &&& i < gs.len()
                        &&& answers_to(gs[i as int], lname)
                        &&& forall|j: int| 0 <= j < i ==> !answers_to(#[trigger] gs[j], lname)
                    },
                    None => forall|j: int| 0 <= j < gs.len() ==> !answers_to(#[trigger] gs[j], lname),
                }
            }),
    {
        let ghost gs = groups_view(self.skill_groups@);
        let lname = chars_of(lowercase(name).as_str());
        let mut i: usize = 0;
        while i < self.skill_groups.len()
            invariant
                i <= self.skill_groups@.len(),
                gs == groups_view(self.skill_groups@),
                lname@ == spec_lowercase(name@),
                forall|j: int| 0 <= j < i ==> !answers_to(#[trigger] gs[j], lname@),
            decreases self.skill_groups.len() - i,
        {
            assert(gs[i as int] == self.skill_groups@[i as int]@);
            if group_answers(&self.skill_groups[i], lname.as_slice()) {
                return Some(i);
            }
            i += 1;
        }
        None
    }

    /// `set_skill_group_by_name_in` for any session: `None`, with nothing
    /// changed, where a group answers but the first message can take no
    /// prompt (neither an object nor null); otherwise what that gives.
    pub fn try_set_skill_group_by_name_in(&mut self, name: &str, messages: &mut Vec<JsonValue>) -> (r: Option<Option<usize>>)
        requires
            old(self).valid(),
        ensures
            final(self).skill_groups@ == old(self).skill_groups@,
            final(self).valid(),
            ({
                let gs = groups_view(old(self).skill_groups@);
                let lname = spec_lowercase(name@);
                match r {
                    Some(Some(i)) => {
                        &&& i < gs.len()
                        &&& answers_to(gs[i as int], lname)
                        &&& forall|j: int| 0 <= j < i ==> !answers_to(#[trigger] gs[j], lname)
                        &&& final(self).active_skill_group == i
                        &&& prompt_applied(old(messages)@, final(messages)@, old(self).skill_groups@[i as int].prompt@, i == 0)
                    },
                    Some(None) => {
                        &&& forall|j: int| 0 <= j < gs.len() ==> !answers_to(#[trigger] gs[j], lname)
                        &&& final(self).active_skill_group == old(self).active_skill_group
                        &&& final(messages)@ == old(messages)@
                    },
                    None => {
                        &&& exists|j: int| 0 <= j < gs.len() && answers_to(#[trigger] gs[j], lname)
                        &&& !takes_prompt(old(messages)@)
                        &&& final(self).active_skill_group == old(self).active_skill_group
                        &&& final(messages)@ == old(messages)@
                    },
                }
            }),
    {
        let ok = messages.len() == 0 || match &messages[0] {
            JsonValue::Object(_) => true,
            JsonValue::Null => true,
            _ => false,
        };
        if ok {
            return Some(self.set_skill_group_by_name_in(name, messages));
        }
        match self.find_skill_group(name) {
            Some(i) => {
                assert(answers_to(groups_view(self.skill_groups@)[i as int], spec_lowercase(name@)));
                None
            },
            None => Some(None),
        }
    }

    /// Which of the tools (by name) the model is offered: none with no
    /// groups or a group without tools; else those the active group lists
    /// and every custom (not built-in) tool.
    pub fn offered_tools(&self, tool_names: &Vec<String>) -> (r: Vec<bool>)
        requires
            self.valid(),
        ensures
            r@.len() == tool_names@.len(),
            forall|i: int|
                0 <= i < r@.len() ==> r@[i] == offered(
                    groups_view(self.skill_groups@),
                    self.active_skill_group as int,
                    tool_names@[i]@,
                ),
    {
        let mut r: Vec<bool> = Vec::new();
        let mut i: usize = 0;
        let builtin = built_in_list();
        while i < tool_names.len()
            invariant
                i <= tool_names@.len(),
                r@.len() == i,
                self.valid(),
                strs_view(builtin@) == built_in_tool_names(),
                forall|k: int|
                    0 <= k < i ==> r@[k] == offered(
                        groups_view(self.skill_groups@),
                        self.active_skill_group as int,
                        tool_names@[k]@,
                    ),
            decreases tool_names.len() - i,
        {
            let name = chars_of(tool_names[i].as_str());
            let keep = if self.skill_groups.len() == 0 {
                false
            } else {
                let g = &self.skill_groups[self.active_skill_group];
                assert(groups_view(self.skill_groups@)[self.active_skill_group as int] == g@);
                if g.tools.len() == 0 {
                    false
                } else {
                    listed(&g.tools, name.as_slice()) || !listed_str(&builtin, name.as_slice())
                }
            };
            r.push(keep);
            i += 1;
        }
        r
    }
}

fn group_answers(g: &SkillGroup, lname: &[char]) -> (r: bool)
    ensures
        r == answers_to(g@, lname@),
{
    let gn = chars_of(lowercase(g.name.as_str()).as_str());
    if chars_eq(gn.as_slice(), lname) {
        return true;
    }
    let mut j: usize = 0;
    while j < g.aliases.len()
        invariant
            j <= g.aliases@.len(),
            spec_lowercase(g@.name) != lname@,
            forall|k: int| 0 <= k < j ==> spec_lowercase(#[trigger] g@.aliases[k]) != lname@,
        decreases g.aliases.len() - j,
    {
        let a = chars_of(lowercase(g.aliases[j].as_str()).as_str());
        assert(g@.aliases[j as int] == g.aliases@[j as int]@);
        if chars_eq(a.as_slice(), lname) {
            return true;
        }
        j += 1;
    }
    false
}

fn built_in_list() -> (r: Vec<&'static str>)
    ensures
        strs_view(r@) == built_in_tool_names(),
{
    let r = vec!["daemon_skeleton", "daemon_get_hash", "daemon_file_info", "daemon_catalog", "daemon_loc_info", "codex_eyes_ls", "codex_eyes_grep", "codex_eyes_sed", "apply_patch", "ast_grep_search", "codex_eyes_createFile", "codex_eyes_gitdiff", "codex_eyes_search", "codex_eyes_find", "codex_eyes_find_fuzzy", "codex_eyes_read", "codex_eyes_cargo_check", "codex_eyes_undo", "task_create", "task_step", "task_complete", "task_list", "task_abort", "ast_explain"];
    assert(strs_view(r@) =~= built_in_tool_names());
    r
}

fn listed(v: &Vec<String>, name: &[char]) -> (r: bool)
    ensures
        r == views(v@).contains(name@),
{
    let mut i: usize = 0;
    while i < v.len()
        invariant
            i <= v@.len(),
            forall|k: int| 0 <= k < i ==> views(v@)[k] != name@,
        decreases v.len() - i,
    {
        let c = chars_of(v[i].as_str());
        if chars_eq(c.as_slice(), name) {
            assert(views(v@)[i as int] == name@);
            return true;
        }
        i += 1;
    }
    false
}

fn listed_str(v: &Vec<&str>, name: &[char]) -> (r: bool)
    ensures
        r == strs_view(v@).contains(name@),
{
    let mut i: usize = 0;
    while i < v.len()
        invariant
            i <= v@.len(),
            forall|k: int| 0 <= k < i ==> strs_view(v@)[k] != name@,
        decreases v.len() - i,
    {
        let c = chars_of(v[i]);
        if chars_eq(c.as_slice(), name) {
            assert(strs_view(v@)[i as int] == name@);
            return true;
        }
        i += 1;
    }
    false
}

/// Cycling through the groups as many times as there are groups comes back
/// to the group it started from.
pub proof fn lemma_cycle_returns(a: int, n: int)
    requires
        0 <= a < n,
    ensures
        cycled(a, n, n as nat) == a,
{
    lemma_cycled(a, n, n as nat);
    assert((a + n) % n == a) by (nonlinear_arith)
        requires
            0 <= a < n,
    ;
}

proof fn lemma_cycled(a: int, n: int, k: nat)
    requires
        0 <= a < n,
    ensures
        cycled(a, n, k) == (a + k) % n,
    decreases k,
{
    if k > 0 {
        lemma_cycled(a, n, (k - 1) as nat);
        let b = (a + k - 1) % n;
        assert(cycled(a, n, (k - 1) as nat) == b);
        assert(cycled(a, n, k) == next_group(b, n));
        assert((b + 1) % n == (a + k) % n) by (nonlinear_arith)
            requires
                b == (a + k - 1) % n,
                n > 0,
        ;
    } else {
        assert((a + k) % n == a) by (nonlinear_arith)
            requires
                0 <= a < n,
                k == 0,
        ;
    }
}

/// The toggle goes from Chat to the last group and from any other group to
/// Chat, so two toggles from a group other than Chat end on the last group.
pub proof fn lemma_toggle_twice(a: int, n: int)
    requires
        0 <= a < n,
    ensures
        a == 0 ==> toggled(a, n) == n - 1,
        a != 0 ==> toggled(a, n) == 0 && toggled(toggled(a, n), n) == n - 1,
{
}


// ---------------------------------------------------------------------------
// What the agent reports of tool calls
// ---------------------------------------------------------------------------

/// The short names shown while a tool runs.
pub open spec fn short_names() -> Seq<(&'static str, &'static str)> {
    seq![
        ("daemon_skeleton", "skel"),
        ("daemon_get_hash", "hash"),
        ("daemon_file_info", "finfo"),
        ("daemon_catalog", "cat"),
        ("daemon_loc_info", "loc"),
        ("codex_eyes_ls", "ls"),
        ("codex_eyes_grep", "grep"),
        ("codex_eyes_sed", "sed"),
        ("ast_grep_search", "ast-search"),
        ("apply_patch", "patch"),
        ("codex_eyes_createFile", "create"),
        ("codex_eyes_gitdiff", "diff"),
        ("codex_eyes_search", "search"),
        ("codex_eyes_find", "find"),
        ("codex_eyes_find_fuzzy", "find~"),
        ("codex_eyes_read", "read"),
        ("codex_eyes_cargo_check", "cargo"),
        ("codex_eyes_undo", "undo"),
        ("task_create", "task+"),
        ("task_step", "task.step"),
        ("task_complete", "task✓"),
        ("task_list", "tasks"),
        ("task_abort", "task✗"),
        ("ast_explain", "ast-explain"),
    ]
}

/// The short name of a tool: from `short_names`, `tool` for any other.
pub open spec fn short_name_of(t: Seq<(&'static str, &'static str)>, name: Seq<char>) -> Seq<char>
    decreases t.len(),
{
    if t.len() == 0 {
        "tool"@
    } else if t[0].0@ == name {
        t[0].1@
    } else {
        short_name_of(t.drop_first(), name)
    }
}

fn short_names_table() -> (r: Vec<(&'static str, &'static str)>)
    ensures
        r@ == short_names(),
{
    let r = vec![
        ("daemon_skeleton", "skel"),
        ("daemon_get_hash", "hash"),
        ("daemon_file_info", "finfo"),
        ("daemon_catalog", "cat"),
        ("daemon_loc_info", "loc"),
        ("codex_eyes_ls", "ls"),
        ("codex_eyes_grep", "grep"),
        ("codex_eyes_sed", "sed"),
        ("ast_grep_search", "ast-search"),
        ("apply_patch", "patch"),
        ("codex_eyes_createFile", "create"),
        ("codex_eyes_gitdiff", "diff"),
        ("codex_eyes_search", "search"),
        ("codex_eyes_find", "find"),
        ("codex_eyes_find_fuzzy", "find~"),
        ("codex_eyes_read", "read"),
        ("codex_eyes_cargo_check", "cargo"),
        ("codex_eyes_undo", "undo"),
        ("task_create", "task+"),
        ("task_step", "task.step"),
        ("task_complete", "task✓"),
        ("task_list", "tasks"),
        ("task_abort", "task✗"),
        ("ast_explain", "ast-explain"),
    ];
    assert(r@ =~= short_names());
    r
}

/// The short name shown while a tool runs.
pub fn short_tool_name(name: &str) -> (r: &'static str)
    ensures
        r@ == short_name_of(short_names(), name@),
{
    let t = short_names_table();
    let n = chars_of(name);
    let mut i: usize = 0;
    assert(t@.skip(0) =~= t@);
    while i < t.len()
        invariant
            i <= t@.len(),
            t@ == short_names(),
            n@ == name@,
            short_name_of(short_names(), name@) == short_name_of(t@.skip(i as int), name@),
        decreases t.len() - i,
    {
        proof {
            assert(t@.skip(i as int)[0] == t@[i as int]);
            assert(t@.skip(i as int).drop_first() =~= t@.skip(i + 1));
        }
        let k = chars_of(t[i].0);
        if chars_eq(k.as_slice(), n.as_slice()) {
            return t[i].1;
        }
        i += 1;
    }
    assert(t@.skip(i as int) =~= Seq::<(&'static str, &'static str)>::empty());
    "tool"
}

/// At most the first `n` characters of `s`.
pub open spec fn first_chars(s: Seq<char>, n: nat) -> Seq<char> {
    if s.len() <= n {
        s
    } else {
        s.take(n as int)
    }
}

/// The first line of `s`, `?` when it has none.
pub open spec fn first_line_or_mark(s: Seq<char>) -> Seq<char> {
    if lines(s).len() > 0 {
        lines(s)[0]
    } else {
        "?"@
    }
}

/// The summary of a call of a tool that has no summary of its own.
pub open spec fn default_call_summary(name: Seq<char>, args: JsonValue) -> Seq<char> {
    if name == "codex_eyes_ls"@ {
        "📂 Ls: "@ + str_or(args, "path"@, "."@)
    } else if name == "codex_eyes_gitdiff"@ {
        "🔍 Diff: "@ + str_or(args, "path"@, "all"@)
    } else if name == "codex_eyes_cargo_check"@ {
        "🦀 Cargo: "@ + str_or(args, "path"@, "."@)
    } else if name == "codex_eyes_read"@ {
        "📖 Read: "@ + str_or(args, "path"@, "?"@)
    } else if name == "codex_eyes_undo"@ {
        "↩️  Undo: "@ + str_or(args, "path"@, "?"@)
    } else {
        "⚙️  "@ + name
    }
}

/// The summary of a tool call, from the tool's name and its arguments.
pub open spec fn call_summary_text(name: Seq<char>, args: JsonValue) -> Seq<char> {
    let p = str_or(args, "path"@, "?"@);
    if name == "ast_grep_search"@ {
        "🌲 ast-search ["@ + str_or(args, "lang"@, "rust"@) + "]: "@ + first_chars(
            str_or(args, "pattern"@, "?"@),
            50,
        )
    } else if name == "ast_explain"@ {
        match as_u64(get(args, "line"@)) {
            Some(l) => "🔬 AST explain: "@ + p + " @L"@ + decimal(l as nat),
            None => match as_str(get(args, "text"@)) {
                Some(t) => "🔬 AST explain: "@ + p + " \""@ + first_chars(t, 30) + "\""@,
                None => "🔬 AST explain: "@ + p,
            },
        }
    } else if name == "apply_patch"@ {
        "📝 Patch: "@ + p + " "@ + first_chars(first_line_or_mark(str_or(args, "patch"@, "?"@)), 40)
    } else if name == "task_create"@ {
        "📋 Create task: "@ + str_or(args, "title"@, "?"@) + "\n📄 Plan:\n"@ + str_or(args, "plan"@, ""@)
    } else if name == "task_step"@ {
        "📋 Step: "@ + str_or(args, "action"@, "?"@) + " — "@ + str_or(args, "description"@, ""@)
    } else if name == "task_complete"@ {
        "📋 Task complete ✓"@
    } else if name == "task_list"@ {
        "📋 List tasks"@
    } else if name == "task_abort"@ {
        "📋 Task aborted ✗"@
    } else if name == "codex_eyes_sed"@ {
        "✏️  Sed: "@ + p + " s/"@ + first_chars(str_or(args, "find"@, "?"@), 40) + "/…/"@
    } else if name == "codex_eyes_createFile"@ {
        "📝 Create: "@ + p
    } else {
        default_call_summary(name, args)
    }
}

fn is_name(name: &[char], s: &str) -> (r: bool)
    ensures
        r == (name@ == s@),
{
    let c = chars_of(s);
    chars_eq(name, c.as_slice())
}

fn push_str_or(v: &mut Vec<char>, args: &JsonValue, key: &str, default: &str)
    ensures
        final(v)@ == old(v)@ + str_or(*args, key@, default@),
{
    match get_str(args, key) {
        Some(s) => push_str_chars(v, s.as_str()),
        None => push_str_chars(v, default),
    }
}

fn push_first_chars(v: &mut Vec<char>, s: &[char], n: usize)
    ensures
        final(v)@ == old(v)@ + first_chars(s@, n as nat),
{
    let m = if s.len() <= n {
        s.len()
    } else {
        n
    };
    let p = copy_range(s, 0, m);
    extend_from(v, p.as_slice());
    assert(p@ =~= first_chars(s@, n as nat));
}

fn str_or_chars(args: &JsonValue, key: &str, default: &str) -> (r: Vec<char>)
    ensures
        r@ == str_or(*args, key@, default@),
{
    match get_str(args, key) {
        Some(s) => chars_of(s.as_str()),
        None => chars_of(default),
    }
}

/// The summary shown when a tool is called.
pub fn call_summary(func_name: &str, args: &JsonValue) -> (r: String)
    ensures
        r@ == call_summary_text(func_name@, *args),
{
    let name = chars_of(func_name);
    let mut v: Vec<char> = Vec::new();
    if is_name(name.as_slice(), "ast_grep_search") {
        push_str_chars(&mut v, "🌲 ast-search [");
        push_str_or(&mut v, args, "lang", "rust");
        push_str_chars(&mut v, "]: ");
        let pat = str_or_chars(args, "pattern", "?");
        push_first_chars(&mut v, pat.as_slice(), 50);
    } else if is_name(name.as_slice(), "ast_explain") {
        push_str_chars(&mut v, "🔬 AST explain: ");
        push_str_or(&mut v, args, "path", "?");
        match get_u64(args, "line") {
            Some(l) => {
                push_str_chars(&mut v, " @L");
                let d = decimal_chars(l as u128);
                extend_from(&mut v, d.as_slice());
            },
            None => match get_str(args, "text") {
                Some(t) => {
                    push_str_chars(&mut v, " \"");
                    let tc = chars_of(t.as_str());
                    push_first_chars(&mut v, tc.as_slice(), 30);
                    push_str_chars(&mut v, "\"");
                },
                None => {},
            },
        }
    } else if is_name(name.as_slice(), "apply_patch") {
        push_str_chars(&mut v, "📝 Patch: ");
        push_str_or(&mut v, args, "path", "?");
        push_str_chars(&mut v, " ");
        let patch = str_or_chars(args, "patch", "?");
        let ls = split_lines(patch.as_slice());
        let first = if ls.len() > 0 {
            clone_chars(&ls[0])
        } else {
            chars_of("?")
        };
        proof {
            if ls@.len() > 0 {
                assert(ls@.map_values(|l: Vec<char>| l@)[0] == ls@[0]@);
            }
        }
        push_first_chars(&mut v, first.as_slice(), 40);
    } else if is_name(name.as_slice(), "task_create") {
        push_str_chars(&mut v, "📋 Create task: ");
        push_str_or(&mut v, args, "title", "?");
        push_str_chars(&mut v, "\n📄 Plan:\n");
        push_str_or(&mut v, args, "plan", "");
    } else if is_name(name.as_slice(), "task_step") {
        push_str_chars(&mut v, "📋 Step: ");
        push_str_or(&mut v, args, "action", "?");
        push_str_chars(&mut v, " — ");
        push_str_or(&mut v, args, "description", "");
    } else if is_name(name.as_slice(), "task_complete") {
        push_str_chars(&mut v, "📋 Task complete ✓");
    } else if is_name(name.as_slice(), "task_list") {
        push_str_chars(&mut v, "📋 List tasks");
    } else if is_name(name.as_slice(), "task_abort") {
        push_str_chars(&mut v, "📋 Task aborted ✗");
    } else if is_name(name.as_slice(), "codex_eyes_sed") {
        push_str_chars(&mut v, "✏️  Sed: ");
        push_str_or(&mut v, args, "path", "?");
        push_str_chars(&mut v, " s/");
        let f = str_or_chars(args, "find", "?");
        push_first_chars(&mut v, f.as_slice(), 40);
        push_str_chars(&mut v, "/…/");
    } else if is_name(name.as_slice(), "codex_eyes_createFile") {
        push_str_chars(&mut v, "📝 Create: ");
        push_str_or(&mut v, args, "path", "?");
    } else if is_name(name.as_slice(), "codex_eyes_ls") {
        push_str_chars(&mut v, "📂 Ls: ");
        push_str_or(&mut v, args, "path", ".");
    } else if is_name(name.as_slice(), "codex_eyes_gitdiff") {
        push_str_chars(&mut v, "🔍 Diff: ");
        push_str_or(&mut v, args, "path", "all");
    } else if is_name(name.as_slice(), "codex_eyes_cargo_check") {
        push_str_chars(&mut v, "🦀 Cargo: ");
        push_str_or(&mut v, args, "path", ".");
    } else if is_name(name.as_slice(), "codex_eyes_read") {
        push_str_chars(&mut v, "📖 Read: ");
        push_str_or(&mut v, args, "path", "?");
    } else if is_name(name.as_slice(), "codex_eyes_undo") {
        push_str_chars(&mut v, "↩️  Undo: ");
        push_str_or(&mut v, args, "path", "?");
    } else {
        push_str_chars(&mut v, "⚙️  ");
        push_str_chars(&mut v, func_name);
    }
    string_of(v.as_slice())
}


// ---------------------------------------------------------------------------
// What the agent reports of tool results
// ---------------------------------------------------------------------------

/// The model of an event.
pub enum EventView {
    Thinking { round: u32, max_rounds: u32 },
    Reasoning { preview: Seq<char> },
    RunningTool { name: Seq<char> },
    Verifying,
    ToolCall { name: Seq<char>, summary: Seq<char> },
    ToolResult { name: Seq<char>, success: bool, summary: Seq<char> },
    DiffLine { line: Seq<char> },
    Done,
}

impl View for AgentEvent {
    type V = EventView;

    open spec fn view(&self) -> EventView {
        match self {
            AgentEvent::Thinking { round, max_rounds } => EventView::Thinking { round: *round, max_rounds: *max_rounds },
            AgentEvent::Reasoning { preview } => EventView::Reasoning { preview: preview@ },
            AgentEvent::RunningTool { name } => EventView::RunningTool { name: name@ },
            AgentEvent::Verifying => EventView::Verifying,
            AgentEvent::ToolCall { name, summary } => EventView::ToolCall { name: name@, summary: summary@ },
            AgentEvent::ToolResult { name, success, summary } => EventView::ToolResult {
                name: name@,
                success: *success,
                summary: summary@,
            },
            AgentEvent::DiffLine { line } => EventView::DiffLine { line: line@ },
            AgentEvent::Done => EventView::Done,
        }
    }
}

pub open spec fn events_view(v: Seq<AgentEvent>) -> Seq<EventView> {
    Seq::new(v.len(), |i: int| v[i]@)
}

/// The lines of a diff as events: at most `max` of them, then a note of
/// how many more there were.
pub open spec fn diff_line_events(diff: Seq<char>, max: nat) -> Seq<EventView> {
    let ls = lines(diff);
    let shown = if ls.len() <= max {
        ls.len()
    } else {
        max
    };
    let head = Seq::new(shown, |i: int| EventView::DiffLine { line: ls[i] });
    if ls.len() > max {
        head.push(EventView::DiffLine { line: "... ("@ + decimal((ls.len() - max) as nat) + " more)"@ })
    } else {
        head
    }
}

/// The patterns that the nodes of an AST explanation suggest.
pub open spec fn suggested_patterns(nodes: Seq<JsonValue>) -> Seq<Seq<char>>
    decreases nodes.len(),
{
    if nodes.len() == 0 {
        Seq::empty()
    } else {
        let rest = suggested_patterns(nodes.drop_last());
        match as_str(get(nodes.last(), "suggested_pattern"@)) {
            Some(p) => rest.push(p),
            None => rest,
        }
    }
}

/// The texts joined with `sep` between them.
pub open spec fn joined(ls: Seq<Seq<char>>, sep: Seq<char>) -> Seq<char>
    decreases ls.len(),
{
    if ls.len() == 0 {
        Seq::empty()
    } else if ls.len() == 1 {
        ls[0]
    } else {
        joined(ls.drop_last(), sep) + sep + ls.last()
    }
}

/// An integer in decimal, with a minus sign when negative.
pub open spec fn signed_decimal(n: int) -> Seq<char> {
    if n < 0 {
        seq!['-'] + decimal((-n) as nat)
    } else {
        decimal(n as nat)
    }
}

pub open spec fn array_len_or_zero(v: JsonValue, key: Seq<char>) -> nat {
    match as_array(get(v, key)) {
        Some(a) => a.len(),
        None => 0,
    }
}

/// Whether the result reports success (false when it does not say).
pub open spec fn result_success(result: JsonValue) -> bool {
    match as_bool(get(result, "success"@)) {
        Some(b) => b,
        None => false,
    }
}

/// The summary of a tool result.
pub open spec fn result_summary_text(name: Seq<char>, result: JsonValue) -> Seq<char> {
    let success = result_success(result);
    if name == "ast_grep_search"@ {
        decimal(array_len_or_zero(result, "matches"@)) + " matches"@
    } else if name == "ast_explain"@ {
        match as_array(get(result, "nodes"@)) {
            Some(nodes) => {
                let pats = suggested_patterns(nodes);
                if pats.len() == 0 {
                    decimal(nodes.len()) + " node(s)"@
                } else {
                    decimal(nodes.len()) + " node(s), suggestions: "@ + joined(pats, " | "@)
                }
            },
            None => Seq::empty(),
        }
    } else if name == "apply_patch"@ {
        if success {
            "patched"@
        } else {
            "failed"@
        }
    } else if name == "task_create"@ {
        str_or(result, "task_id"@, "created"@)
    } else if name == "task_step"@ {
        "recorded"@
    } else if name == "task_complete"@ {
        "closed"@
    } else if name == "task_list"@ {
        decimal(array_len_or_zero(result, "tasks"@)) + " tasks"@
    } else if name == "codex_eyes_sed"@ {
        if success {
            decimal(
                match as_u64(get(result, "replacements"@)) {
                    Some(n) => n as nat,
                    None => 0,
                },
            ) + " replacement(s)"@
        } else {
            str_or(result, "error"@, "failed"@)
        }
    } else if name == "codex_eyes_createFile"@ {
        if success {
            "created"@
        } else {
            "failed"@
        }
    } else if name == "codex_eyes_cargo_check"@ {
        let exit = match as_i64(get(result, "exit_code"@)) {
            Some(n) => n,
            None => -1,
        };
        if exit == 0 {
            "passed ✅"@
        } else {
            "exit "@ + signed_decimal(exit)
        }
    } else if name == "codex_eyes_gitdiff"@ {
        if as_bool(get(result, "has_changes"@)) == Some(true) {
            "changes found"@
        } else {
            "no changes"@
        }
    } else {
        Seq::empty()
    }
}

/// The lines shown before the result: a changed diff's first twenty lines,
/// or the first twenty lines read, indented.
pub open spec fn result_lines(name: Seq<char>, result: JsonValue) -> Seq<EventView> {
    if name == "codex_eyes_gitdiff"@ && as_bool(get(result, "has_changes"@)) == Some(true) {
        match as_str(get(result, "output"@)) {
            Some(d) => diff_line_events(d, 20),
            None => Seq::empty(),
        }
    } else if name == "codex_eyes_read"@ {
        match as_str(get(result, "output"@)) {
            Some(out) => {
                let ls = lines(out);
                let n = if ls.len() <= 20 {
                    ls.len()
                } else {
                    20
                };
                Seq::new(n, |i: int| EventView::DiffLine { line: "  "@ + ls[i] })
            },
            None => Seq::empty(),
        }
    } else {
        Seq::empty()
    }
}

/// The events for a tool result: the lines it shows, then the result.
pub open spec fn result_events_of(name: Seq<char>, result: JsonValue) -> Seq<EventView> {
    result_lines(name, result).push(
        EventView::ToolResult {
            name: name,
            success: result_success(result),
            summary: result_summary_text(name, result),
        },
    )
}

/// The events for the lines of a diff, at most `max_lines` of them and a
/// note of how many more.
pub fn diff_events(diff: &str, max_lines: usize) -> (r: Vec<AgentEvent>)
    ensures
        events_view(r@) == diff_line_events(diff@, max_lines as nat),
{
    let c = chars_of(diff);
    let ls = split_lines(c.as_slice());
    let ghost lv = ls@.map_values(|l: Vec<char>| l@);
    let n = if ls.len() <= max_lines {
        ls.len()
    } else {
        max_lines
    };
    let mut r: Vec<AgentEvent> = Vec::new();
    let mut i: usize = 0;
    while i < n
        invariant
            i <= n <= ls@.len(),
            lv == ls@.map_values(|l: Vec<char>| l@),
            events_view(r@) == Seq::new(i as nat, |k: int| EventView::DiffLine { line: lv[k] }),
        decreases n - i,
    {
        let ghost before = events_view(r@);
        let line = string_of(ls[i].as_slice());
        assert(line@ == lv[i as int]);
        r.push(AgentEvent::DiffLine { line });
        assert(events_view(r@) =~= before.push(EventView::DiffLine { line: lv[i as int] }));
        assert(events_view(r@) =~= Seq::new((i + 1) as nat, |k: int| EventView::DiffLine { line: lv[k] }));
        i += 1;
    }
    if ls.len() > max_lines {
        let mut v: Vec<char> = Vec::new();
        push_str_chars(&mut v, "... (");
        let d = decimal_chars((ls.len() - max_lines) as u128);
        extend_from(&mut v, d.as_slice());
        push_str_chars(&mut v, " more)");
        let ghost before = events_view(r@);
        r.push(AgentEvent::DiffLine { line: string_of(v.as_slice()) });
        assert(events_view(r@) =~= before.push(EventView::DiffLine { line: v@ }));
    }
    r
}

fn patterns_of(nodes: &Vec<JsonValue>) -> (r: Vec<String>)
    ensures
        views(r@) == suggested_patterns(nodes@),
{
    let mut r: Vec<String> = Vec::new();
    let mut i: usize = 0;
    while i < nodes.len()
        invariant
            i <= nodes@.len(),
            views(r@) == suggested_patterns(nodes@.take(i as int)),
        decreases nodes.len() - i,
    {
        proof {
            assert(nodes@.take(i + 1).drop_last() =~= nodes@.take(i as int));
            assert(nodes@.take(i + 1).last() == nodes@[i as int]);
        }
        match get_str(&nodes[i], "suggested_pattern") {
            Some(p) => {
                let ghost before = views(r@);
                r.push(string_of(chars_of(p.as_str()).as_slice()));
                assert(views(r@) =~= before.push(p@));
            },
            None => {},
        }
        i += 1;
    }
    assert(nodes@.take(nodes.len() as int) =~= nodes@);
    r
}

fn push_joined(v: &mut Vec<char>, ls: &Vec<String>, sep: &str)
    ensures
        final(v)@ == old(v)@ + joined(views(ls@), sep@),
{
    let ghost vs = views(ls@);
    let mut i: usize = 0;
    while i < ls.len()
        invariant
            i <= ls.len(),
            vs == views(ls@),
            v@ == old(v)@ + joined(vs.take(i as int), sep@),
        decreases ls.len() - i,
    {
        proof {
            assert(vs.take(i + 1).drop_last() =~= vs.take(i as int));
        }
        if i > 0 {
            push_str_chars(v, sep);
        }
        push_str_chars(v, ls[i].as_str());
        proof {
            if i == 0 {
                assert(joined(vs.take(1), sep@) == vs[0]);
            }
        }
        i += 1;
    }
    assert(vs.take(ls.len() as int) =~= vs);
}

fn push_decimal(v: &mut Vec<char>, n: u64)
    ensures
        final(v)@ == old(v)@ + decimal(n as nat),
{
    let d = decimal_chars(n as u128);
    extend_from(v, d.as_slice());
}

fn result_summary(name: &[char], result: &JsonValue) -> (r: Vec<char>)
    ensures
        r@ == result_summary_text(name@, *result),
{
    let success = match get_bool(result, "success") {
        Some(b) => b,
        None => false,
    };
    let mut v: Vec<char> = Vec::new();
    if is_name(name, "ast_grep_search") {
        let n = match get_array(result, "matches") {
            Some(a) => a.len(),
            None => 0,
        };
        push_decimal(&mut v, n as u64);
        push_str_chars(&mut v, " matches");
    } else if is_name(name, "ast_explain") {
        match get_array(result, "nodes") {
            Some(nodes) => {
                let pats = patterns_of(nodes);
                push_decimal(&mut v, nodes.len() as u64);
                if pats.len() == 0 {
                    push_str_chars(&mut v, " node(s)");
                } else {
                    push_str_chars(&mut v, " node(s), suggestions: ");
                    push_joined(&mut v, &pats, " | ");
                }
            },
            None => {},
        }
    } else if is_name(name, "apply_patch") {
        push_str_chars(&mut v, if success { "patched" } else { "failed" });
    } else if is_name(name, "task_create") {
        let t = str_or_chars(result, "task_id", "created");
        extend_from(&mut v, t.as_slice());
    } else if is_name(name, "task_step") {
        push_str_chars(&mut v, "recorded");
    } else if is_name(name, "task_complete") {
        push_str_chars(&mut v, "closed");
    } else if is_name(name, "task_list") {
        let n = match get_array(result, "tasks") {
            Some(a) => a.len(),
            None => 0,
        };
        push_decimal(&mut v, n as u64);
        push_str_chars(&mut v, " tasks");
    } else if is_name(name, "codex_eyes_sed") {
        if success {
            let n = match get_u64(result, "replacements") {
                Some(n) => n,
                None => 0,
            };
            push_decimal(&mut v, n);
            push_str_chars(&mut v, " replacement(s)");
        } else {
            let e = str_or_chars(result, "error", "failed");
            extend_from(&mut v, e.as_slice());
        }
    } else if is_name(name, "codex_eyes_createFile") {
        push_str_chars(&mut v, if success { "created" } else { "failed" });
    } else if is_name(name, "codex_eyes_cargo_check") {
        let exit: i64 = match get_i64(result, "exit_code") {
            Some(n) => n,
            None => -1,
        };
        if exit == 0 {
            push_str_chars(&mut v, "passed ✅");
        } else {
            push_str_chars(&mut v, "exit ");
            if exit < 0 {
                v.push('-');
                let m: u128 = (0i128 - exit as i128) as u128;
                let d = decimal_chars(m);
                extend_from(&mut v, d.as_slice());
            } else {
                push_decimal(&mut v, exit as u64);
            }
        }
    } else if is_name(name, "codex_eyes_gitdiff") {
        match get_bool(result, "has_changes") {
            Some(true) => push_str_chars(&mut v, "changes found"),
            _ => push_str_chars(&mut v, "no changes"),
        }
    }
    v
}

/// The events for the result of a tool: the lines it shows (a changed
/// diff, or what was read) and then the result with its summary. A diff
/// reported as changed carries its `output` text.
pub fn tool_result_events(func_name: &str, result: &JsonValue) -> (r: Vec<AgentEvent>)
    requires
        func_name@ == "codex_eyes_gitdiff"@ && as_bool(get(*result, "has_changes"@)) == Some(true) ==> get(
            *result,
            "output"@,
        ) is Some,
    ensures
        events_view(r@) == result_events_of(func_name@, *result),
{
    let name = chars_of(func_name);
    let mut r: Vec<AgentEvent> = Vec::new();
    let gitdiff = is_name(name.as_slice(), "codex_eyes_gitdiff");
    let changed = match get_bool(result, "has_changes") {
        Some(true) => true,
        _ => false,
    };
    if gitdiff && changed {
        match get_str(result, "output") {
            Some(d) => {
                r = diff_events(d.as_str(), 20);
            },
            None => {},
        }
    } else if is_name(name.as_slice(), "codex_eyes_read") {
        match get_str(result, "output") {
            Some(out) => {
                let c = chars_of(out.as_str());
                let ls = split_lines(c.as_slice());
                let ghost lv = ls@.map_values(|l: Vec<char>| l@);
                let n = if ls.len() <= 20 {
                    ls.len()
                } else {
                    20
                };
                let mut i: usize = 0;
                while i < n
                    invariant
                        i <= n <= ls@.len(),
                        lv == ls@.map_values(|l: Vec<char>| l@),
                        events_view(r@) == Seq::new(i as nat, |k: int| EventView::DiffLine { line: "  "@ + lv[k] }),
                    decreases n - i,
                {
                    let mut v: Vec<char> = Vec::new();
                    push_str_chars(&mut v, "  ");
                    extend_from(&mut v, ls[i].as_slice());
                    let ghost before = events_view(r@);
                    let line = string_of(v.as_slice());
                    assert(line@ == "  "@ + lv[i as int]);
                    r.push(AgentEvent::DiffLine { line });
                    assert(events_view(r@) =~= before.push(EventView::DiffLine { line: "  "@ + lv[i as int] }));
                    assert(events_view(r@) =~= Seq::new(
                        (i + 1) as nat,
                        |k: int| EventView::DiffLine { line: "  "@ + lv[k] },
                    ));
                    i += 1;
                }
            },
            None => {},
        }
    }
    let success = match get_bool(result, "success") {
        Some(b) => b,
        None => false,
    };
    let summary = result_summary(name.as_slice(), result);
    let ghost before = events_view(r@);
    r.push(AgentEvent::ToolResult { name: string_of(name.as_slice()), success, summary: string_of(summary.as_slice()) });
    assert(events_view(r@) =~= before.push(
        EventView::ToolResult {
            name: func_name@,
            success: result_success(*result),
            summary: result_summary_text(func_name@, *result),
        },
    ));
    r
}

/// The event that shows the model's reasoning: its first two hundred
/// characters after a thought mark; none for empty reasoning.
pub fn reasoning_event(reasoning: &str) -> (r: Option<AgentEvent>)
    ensures
        reasoning@.len() == 0 ==> r is None,
        reasoning@.len() > 0 ==> (r matches Some(e) && e@ == (EventView::Reasoning {
            preview: "💭 "@ + first_chars(reasoning@, 200),
        })),
{
    let c = chars_of(reasoning);
    if c.len() == 0 {
        return None;
    }
    let mut v: Vec<char> = Vec::new();
    push_str_chars(&mut v, "💭 ");
    push_first_chars(&mut v, c.as_slice(), 200);
    Some(AgentEvent::Reasoning { preview: string_of(v.as_slice()) })
}

} // verus!
