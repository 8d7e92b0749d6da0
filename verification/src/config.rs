//! Configuration: the settings of the server, daemon, tools, debugging and
//! the REPL, with their defaults.

use vstd::prelude::*;
use crate::text::{chars_of, chars_eq, ends_with, ends_with_exec, extend_from, string_of};

verus! {

broadcast use vstd::string::group_string_axioms;

fn owned(s: &str) -> (r: String)
    ensures
        r@ == s@,
{
    string_of(chars_of(s).as_slice())
}

/// A skill group as the configuration file describes it.
#[derive(Debug, Clone)]
pub struct SkillGroupConfig {
    pub name: String,
    pub description: String,
    pub emoji: String,
    pub tools: Vec<String>,
    pub prompt: String,
    pub aliases: Vec<String>,
}

/// All settings.
#[derive(Debug, Clone)]
pub struct AppConfig {
    pub server: ServerConfig,
    pub daemon: DaemonConfig,
    pub tools: ToolsConfig,
    pub debug: DebugConfig,
    pub repl: ReplConfig,
}

/// The context daemon.
#[derive(Debug, Clone)]
pub struct DaemonConfig {
    pub base_url: String,
    pub active_repo: Option<String>,
}

/// The LLM server.
#[derive(Debug, Clone)]
pub struct ServerConfig {
    pub base_url: String,
    pub model: String,
    pub timeout: u64,
    pub api_key: Option<String>,
    pub num_ctx: u64,
    pub api_type: String,
}

/// The tools offered to the model.  `disabled` maps tool names to whether
/// they are switched off (a table in the configuration file, so no name
/// occurs twice).
#[derive(Debug, Clone)]
pub struct ToolsConfig {
    pub codex_eyes_binary: Option<String>,
    pub auto_verify: bool,
    pub disabled: Vec<(String, bool)>,
    pub custom: Vec<CustomTool>,
    pub project_root: String,
    pub allow_paths: Vec<String>,
    pub cargo_check_cooldown_secs: u64,
}

/// A tool defined in the configuration: a command template run by a shell.
#[derive(Debug, Clone)]
pub struct CustomTool {
    pub name: String,
    pub description: String,
    pub parameters: Vec<(String, ParameterDef)>,
    pub required: Vec<String>,
    pub execute: ExecuteConfig,
}

/// A parameter of a custom tool.
#[derive(Debug, Clone)]
pub struct ParameterDef {
    pub param_type: String,
    pub description: String,
    pub required: bool,
}

/// How a custom tool runs.
#[derive(Debug, Clone)]
pub struct ExecuteConfig {
    pub exec_type: String,
    pub command_template: String,
    pub timeout_secs: u64,
}

/// Debug logging.
#[derive(Debug, Clone)]
pub struct DebugConfig {
    pub enabled: bool,
}

/// The REPL.
#[derive(Debug, Clone)]
pub struct ReplConfig {
    pub history_file: String,
    pub command_history_file: String,
    pub sessions_dir: String,
    pub max_rounds: u32,
    pub auto_enable_tools_on_code_request: bool,
    pub skills: Vec<SkillGroupConfig>,
}

pub fn default_daemon_url() -> (r: String)
    ensures
        r@ == "http://127.0.0.1:7890"@,
{
    owned("http://127.0.0.1:7890")
}

pub fn default_base_url() -> (r: String)
    ensures
        r@ == "http://localhost:11434"@,
{
    owned("http://localhost:11434")
}

pub fn default_model() -> (r: String)
    ensures
        r@ == "qwen3:32b"@,
{
    owned("qwen3:32b")
}

pub fn default_api_type() -> (r: String)
    ensures
        r@ == "openai"@,
{
    owned("openai")
}

pub fn default_timeout() -> (r: u64)
    ensures
        r == 120,
{
    120
}

pub fn default_cargo_check_cooldown() -> (r: u64)
    ensures
        r == 10,
{
    10
}

pub fn default_true() -> (r: bool)
    ensures
        r,
{
    true
}

pub fn default_param_type() -> (r: String)
    ensures
        r@ == "string"@,
{
    owned("string")
}

pub fn default_exec_type() -> (r: String)
    ensures
        r@ == "shell"@,
{
    owned("shell")
}

pub fn default_exec_timeout() -> (r: u64)
    ensures
        r == 30,
{
    30
}

pub fn default_max_rounds() -> (r: u32)
    ensures
        r == 15,
{
    15
}

pub fn default_num_ctx() -> (r: u64)
    ensures
        r == 65536,
{
    65536
}

/// `dir` joined with the relative path `name`, as `Path::join` does.
pub open spec fn join_path(dir: Seq<char>, name: Seq<char>) -> Seq<char> {
    if dir.len() == 0 {
        name
    } else if ends_with(dir, seq!['/']) {
        dir + name
    } else {
        dir + seq!['/'] + name
    }
}

/// Joins `dir` and the relative path `name`.
pub fn join_path_exec(dir: &str, name: &str) -> (r: String)
    ensures
        r@ == join_path(dir@, name@),
{
    let d = chars_of(dir);
    let n = chars_of(name);
    let slash = vec!['/'];
    assert(slash@ =~= seq!['/']);
    let mut v = chars_of(dir);
    if d.len() == 0 {
        return string_of(n.as_slice());
    }
    if !ends_with_exec(d.as_slice(), slash.as_slice()) {
        v.push('/');
    }
    extend_from(&mut v, n.as_slice());
    string_of(v.as_slice())
}

impl DaemonConfig {
    pub fn default() -> (r: DaemonConfig)
        ensures
            r.base_url@ == "http://127.0.0.1:7890"@,
            r.active_repo is None,
    {
        DaemonConfig { base_url: default_daemon_url(), active_repo: None }
    }
}

impl ServerConfig {
    pub fn default() -> (r: ServerConfig)
        ensures
            r.base_url@ == "http://localhost:11434"@,
            r.model@ == "qwen3:32b"@,
            r.timeout == 120,
            r.api_key is None,
            r.num_ctx == 65536,
            r.api_type@ == "openai"@,
    {
        ServerConfig {
            base_url: default_base_url(),
            model: default_model(),
            timeout: default_timeout(),
            api_key: None,
            num_ctx: default_num_ctx(),
            api_type: default_api_type(),
        }
    }
}

impl ToolsConfig {
    /// Defaults: auto-verify on, the `codex_eyes_shell` tool disabled, no
    /// custom tools, no project root, `/tmp` allowed.
    pub fn default() -> (r: ToolsConfig)
        ensures
            r.codex_eyes_binary is None,
            r.auto_verify,
            r.disabled@.len() == 1,
            r.disabled@[0].0@ == "codex_eyes_shell"@,
            r.disabled@[0].1,
            r.custom@.len() == 0,
            r.project_root@.len() == 0,
            r.allow_paths@.len() == 1,
            r.allow_paths@[0]@ == "/tmp"@,
            r.cargo_check_cooldown_secs == 10,
    {
        let mut disabled: Vec<(String, bool)> = Vec::new();
        disabled.push((owned("codex_eyes_shell"), true));
        let mut allow_paths: Vec<String> = Vec::new();
        allow_paths.push(owned("/tmp"));
        ToolsConfig {
            codex_eyes_binary: None,
            auto_verify: true,
            disabled,
            custom: Vec::new(),
            project_root: String::new(),
            allow_paths,
            cargo_check_cooldown_secs: default_cargo_check_cooldown(),
        }
    }
}

/// The value recorded for `name` in a name/value table (the first entry
/// with that name).
pub open spec fn table_lookup(t: Seq<(Seq<char>, bool)>, name: Seq<char>) -> Option<bool>
    decreases t.len(),
{
    if t.len() == 0 {
        None
    } else if t[0].0 == name {
        Some(t[0].1)
    } else {
        table_lookup(t.drop_first(), name)
    }
}

pub open spec fn disabled_view(t: Seq<(String, bool)>) -> Seq<(Seq<char>, bool)> {
    Seq::new(t.len(), |i: int| (t[i].0@, t[i].1))
}

/// Whether the configuration switches the tool `name` off.
pub fn is_disabled(config: &AppConfig, name: &str) -> (r: bool)
    ensures
        r == (table_lookup(disabled_view(config.tools.disabled@), name@) == Some(true)),
{
    let n = chars_of(name);
    let ghost t = disabled_view(config.tools.disabled@);
    let mut i: usize = 0;
    assert(t.skip(0) =~= t);
    while i < config.tools.disabled.len()
        invariant
            i <= config.tools.disabled.len(),
            t == disabled_view(config.tools.disabled@),
            n@ == name@,
            table_lookup(t, name@) == table_lookup(t.skip(i as int), name@),
        decreases config.tools.disabled.len() - i,
    {
        let k = chars_of(config.tools.disabled[i].0.as_str());
        assert(t.skip(i as int)[0] == (config.tools.disabled@[i as int].0@, config.tools.disabled@[i as int].1));
        if chars_eq(k.as_slice(), n.as_slice()) {
            return config.tools.disabled[i].1;
        }
        assert(t.skip(i as int).drop_first() =~= t.skip(i + 1));
        i += 1;
    }
    false
}

impl ParameterDef {
    pub fn default() -> (r: ParameterDef)
        ensures
            r.param_type@ == "string"@,
            r.description@.len() == 0,
            !r.required,
    {
        ParameterDef { param_type: default_param_type(), description: String::new(), required: false }
    }
}

impl ExecuteConfig {
    pub fn default() -> (r: ExecuteConfig)
        ensures
            r.exec_type@ == "shell"@,
            r.command_template@.len() == 0,
            r.timeout_secs == 30,
    {
        ExecuteConfig {
            exec_type: default_exec_type(),
            command_template: String::new(),
            timeout_secs: default_exec_timeout(),
        }
    }
}

impl DebugConfig {
    pub fn default() -> (r: DebugConfig)
        ensures
            !r.enabled,
    {
        DebugConfig { enabled: false }
    }
}

/// The directory that holds pcode's files inside the user's configuration
/// directory.
pub open spec fn pcode_dir_in(config_dir: Seq<char>) -> Seq<char> {
    join_path(config_dir, "pcode"@)
}

impl ReplConfig {
    /// Defaults with the history and session files under `config_dir`
    /// (the user's configuration directory).
    pub fn default_in(config_dir: &str) -> (r: ReplConfig)
        ensures
            r.history_file@ == join_path(pcode_dir_in(config_dir@), "history.txt"@),
            r.command_history_file@ == join_path(pcode_dir_in(config_dir@), "cmd_history.txt"@),
            r.sessions_dir@ == join_path(pcode_dir_in(config_dir@), "sessions"@),
            r.max_rounds == 15,
            r.auto_enable_tools_on_code_request,
            r.skills@.len() == 0,
    {
        let dir = join_path_exec(config_dir, "pcode");
        ReplConfig {
            history_file: join_path_exec(dir.as_str(), "history.txt"),
            command_history_file: join_path_exec(dir.as_str(), "cmd_history.txt"),
            sessions_dir: join_path_exec(dir.as_str(), "sessions"),
            max_rounds: default_max_rounds(),
            auto_enable_tools_on_code_request: true,
            skills: Vec::new(),
        }
    }
}

impl AppConfig {
    /// The default configuration, with the REPL files under `config_dir`.
    pub fn default_in(config_dir: &str) -> (r: AppConfig)
        ensures
            r.server.base_url@ == "http://localhost:11434"@,
            r.server.model@ == "qwen3:32b"@,
            r.server.timeout == 120,
            r.server.num_ctx == 65536,
            r.daemon.base_url@ == "http://127.0.0.1:7890"@,
            r.tools.auto_verify,
            r.tools.project_root@.len() == 0,
            !r.debug.enabled,
            r.repl.history_file@ == join_path(pcode_dir_in(config_dir@), "history.txt"@),
            r.repl.max_rounds == 15,
    {
        AppConfig {
            server: ServerConfig::default(),
            daemon: DaemonConfig::default(),
            tools: ToolsConfig::default(),
            debug: DebugConfig::default(),
            repl: ReplConfig::default_in(config_dir),
        }
    }
}

} // verus!
