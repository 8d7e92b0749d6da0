//! The command line: what each argument asks for, in order, and the texts
//! the program prints for help and for the patch format.

use vstd::prelude::*;
use crate::text::{
    chars_eq, chars_of, ends_with, ends_with_exec, lines, push_str_chars, split_lines, starts_with,
    starts_with_exec, string_of, views,
};

verus! {

broadcast use vstd::string::group_string_axioms;

/// What `Path::extension` gives for a path.
pub uninterp spec fn spec_extension(s: Seq<char>) -> Option<Seq<char>>;

/// `Path::extension` of `s`, as text. The result is named only.
#[verifier::external_body]
fn extension(s: &str) -> (r: Option<String>)
    ensures
        match r {
            Some(e) => spec_extension(s@) == Some(e@),
            None => spec_extension(s@) is None,
        },
{
    std::path::Path::new(s).extension().map(|e| e.to_string_lossy().into_owned())
}

/// One thing the command line asks for.
#[derive(Debug, Clone, PartialEq, Eq)]
pub enum CliStep {
    /// Hand the remaining arguments to the quick-switch program.
    QuickSwitch(Vec<String>),
    /// Sync a repository with the context daemon.
    Sync(Vec<String>),
    /// Print the help text.
    Help,
    /// Read the configuration from this file.
    SetConfig(String),
    /// Apply the patches in this file.
    SetTarget(String),
    /// Let the user pick the patch file.
    PickTarget,
    /// Apply the patches on the clipboard.
    UseClipboard,
    /// Print the patch format and copy it to the clipboard.
    PatchTemplate,
    /// Format the changed Rust files with this edition.
    Format(String),
    /// Start with this prompt.
    SetPrompt(String),
    /// Stop with this error.
    Fail(String),
    /// Start the REPL.
    Run,
}

/// The model of a step.
pub enum StepView {
    QuickSwitch(Seq<Seq<char>>),
    Sync(Seq<Seq<char>>),
    Help,
    SetConfig(Seq<char>),
    SetTarget(Seq<char>),
    PickTarget,
    UseClipboard,
    PatchTemplate,
    Format(Seq<char>),
    SetPrompt(Seq<char>),
    Fail(Seq<char>),
    Run,
}

pub open spec fn step_view(s: CliStep) -> StepView {
    match s {
        CliStep::QuickSwitch(v) => StepView::QuickSwitch(views(v@)),
        CliStep::Sync(v) => StepView::Sync(views(v@)),
        CliStep::Help => StepView::Help,
        CliStep::SetConfig(p) => StepView::SetConfig(p@),
        CliStep::SetTarget(p) => StepView::SetTarget(p@),
        CliStep::PickTarget => StepView::PickTarget,
        CliStep::UseClipboard => StepView::UseClipboard,
        CliStep::PatchTemplate => StepView::PatchTemplate,
        CliStep::Format(e) => StepView::Format(e@),
        CliStep::SetPrompt(p) => StepView::SetPrompt(p@),
        CliStep::Fail(m) => StepView::Fail(m@),
        CliStep::Run => StepView::Run,
    }
}

pub open spec fn steps_view(v: Seq<CliStep>) -> Seq<StepView> {
    Seq::new(v.len(), |i: int| step_view(v[i]))
}

pub open spec fn is_edition(a: Seq<char>) -> bool {
    a == "2015"@ || a == "2018"@ || a == "2021"@ || a == "2024"@
}

/// The steps that the arguments from `i` on ask for. The program acts on
/// them in order; the quick switch, sync, help, patch format, format and
/// failure steps end it, so nothing after them is read.
pub open spec fn cli_steps(args: Seq<Seq<char>>, i: int) -> Seq<StepView>
    decreases args.len() - i,
{
    if i < 0 || i >= args.len() {
        seq![StepView::Run]
    } else {
        let a = args[i];
        if a == "-q"@ || a == "--quickswitch"@ {
            seq![StepView::QuickSwitch(args.skip(i + 1))]
        } else if a == "-s"@ || a == "--sync"@ {
            seq![StepView::Sync(args.skip(i + 1))]
        } else if a == "--help"@ || a == "-h"@ || a == "help"@ {
            seq![StepView::Help]
        } else if a == "-c"@ || a == "--config"@ {
            if i + 1 < args.len() {
                seq![StepView::SetConfig(args[i + 1])] + cli_steps(args, i + 2)
            } else {
                seq![StepView::Fail("Error: Missing argument for -c"@)]
            }
        } else if a == "--fastpatch"@ {
            if i + 1 < args.len() {
                seq![StepView::SetTarget(args[i + 1])] + cli_steps(args, i + 2)
            } else {
                seq![StepView::SetTarget("todo.md"@)] + cli_steps(args, i + 1)
            }
        } else if a == "--pb"@ {
            seq![StepView::UseClipboard] + cli_steps(args, i + 1)
        } else if a == "--patch"@ || a == "-p"@ {
            seq![StepView::PatchTemplate]
        } else if a == "--fzf"@ {
            seq![StepView::PickTarget] + cli_steps(args, i + 1)
        } else if a == "--fmt"@ {
            if i + 1 < args.len() && is_edition(args[i + 1]) {
                seq![StepView::Format(args[i + 1])]
            } else {
                seq![StepView::Format("2021"@)]
            }
        } else if a == "--todo"@ {
            if i + 1 < args.len() {
                seq![StepView::SetPrompt("Do the todo: "@ + args[i + 1])] + cli_steps(args, i + 2)
            } else {
                seq![StepView::Fail("Error: Missing argument for --todo"@)]
            }
        } else if spec_extension(a) == Some("toml"@) {
            seq![StepView::SetConfig(a)] + cli_steps(args, i + 1)
        } else {
            seq![StepView::SetPrompt(":open "@ + a)] + cli_steps(args, i + 1)
        }
    }
}

fn is_arg(a: &[char], s: &str) -> (r: bool)
    ensures
        r == (a@ == s@),
{
    let c = chars_of(s);
    chars_eq(a, c.as_slice())
}

fn owned_chars(a: &[char]) -> (r: String)
    ensures
        r@ == a@,
{
    string_of(a)
}

fn rest_of(args: &Vec<String>, from: usize) -> (r: Vec<String>)
    requires
        from <= args@.len(),
    ensures
        views(r@) == views(args@).skip(from as int),
{
    let mut r: Vec<String> = Vec::new();
    let mut k = from;
    while k < args.len()
        invariant
            from <= k <= args@.len(),
            views(r@) == views(args@).subrange(from as int, k as int),
        decreases args.len() - k,
    {
        let ghost before = views(r@);
        r.push(string_of(chars_of(args[k].as_str()).as_slice()));
        assert(views(r@) =~= before.push(args@[k as int]@));
        assert(views(args@).subrange(from as int, k + 1) =~= views(args@).subrange(from as int, k as int).push(
            args@[k as int]@,
        ));
        k += 1;
    }
    assert(views(args@).subrange(from as int, args@.len() as int) =~= views(args@).skip(from as int));
    r
}

/// The steps that the command-line arguments (without the program name)
/// ask for, in order.
pub fn parse_args(args: &Vec<String>) -> (r: Vec<CliStep>)
    ensures
        steps_view(r@) == cli_steps(views(args@), 0),
{
    let ghost av = views(args@);
    let mut out: Vec<CliStep> = Vec::new();
    let mut i: usize = 0;
    loop
        invariant
            i <= args@.len(),
            av == views(args@),
            steps_view(out@) + cli_steps(av, i as int) == cli_steps(av, 0),
        decreases args.len() - i,
    {
        let ghost before = steps_view(out@);
        if i >= args.len() {
            out.push(CliStep::Run);
            assert(steps_view(out@) =~= before.push(StepView::Run));
            return out;
        }
        let a = chars_of(args[i].as_str());
        assert(a@ == av[i as int]);
        let has_next = i + 1 < args.len();
        if is_arg(a.as_slice(), "-q") || is_arg(a.as_slice(), "--quickswitch") {
            out.push(CliStep::QuickSwitch(rest_of(args, i + 1)));
            assert(steps_view(out@) =~= before.push(StepView::QuickSwitch(av.skip(i + 1))));
            return out;
        } else if is_arg(a.as_slice(), "-s") || is_arg(a.as_slice(), "--sync") {
            out.push(CliStep::Sync(rest_of(args, i + 1)));
            assert(steps_view(out@) =~= before.push(StepView::Sync(av.skip(i + 1))));
            return out;
        } else if is_arg(a.as_slice(), "--help") || is_arg(a.as_slice(), "-h") || is_arg(a.as_slice(), "help") {
            out.push(CliStep::Help);
            assert(steps_view(out@) =~= before.push(StepView::Help));
            return out;
        } else if is_arg(a.as_slice(), "-c") || is_arg(a.as_slice(), "--config") {
            if has_next {
                let p = owned_chars(chars_of(args[i + 1].as_str()).as_slice());
                out.push(CliStep::SetConfig(p));
                assert(steps_view(out@) =~= before.push(StepView::SetConfig(av[i + 1])));
                i += 2;
            } else {
                out.push(CliStep::Fail(string_of(chars_of("Error: Missing argument for -c").as_slice())));
                assert(steps_view(out@) =~= before.push(StepView::Fail("Error: Missing argument for -c"@)));
                return out;
            }
        } else if is_arg(a.as_slice(), "--fastpatch") {
            if has_next {
                let p = owned_chars(chars_of(args[i + 1].as_str()).as_slice());
                out.push(CliStep::SetTarget(p));
                assert(steps_view(out@) =~= before.push(StepView::SetTarget(av[i + 1])));
                i += 2;
            } else {
                out.push(CliStep::SetTarget(string_of(chars_of("todo.md").as_slice())));
                assert(steps_view(out@) =~= before.push(StepView::SetTarget("todo.md"@)));
                i += 1;
            }
        } else if is_arg(a.as_slice(), "--pb") {
            out.push(CliStep::UseClipboard);
            assert(steps_view(out@) =~= before.push(StepView::UseClipboard));
            i += 1;
        } else if is_arg(a.as_slice(), "--patch") || is_arg(a.as_slice(), "-p") {
            out.push(CliStep::PatchTemplate);
            assert(steps_view(out@) =~= before.push(StepView::PatchTemplate));
            return out;
        } else if is_arg(a.as_slice(), "--fzf") {
            out.push(CliStep::PickTarget);
            assert(steps_view(out@) =~= before.push(StepView::PickTarget));
            i += 1;
        } else if is_arg(a.as_slice(), "--fmt") {
            let mut ed = chars_of("2021");
            if has_next {
                let n = chars_of(args[i + 1].as_str());
                assert(n@ == av[i + 1]);
                if is_arg(n.as_slice(), "2015") || is_arg(n.as_slice(), "2018") || is_arg(n.as_slice(), "2021")
                    || is_arg(n.as_slice(), "2024") {
                    ed = n;
                }
            }
            let e = string_of(ed.as_slice());
            let ghost ev = e@;
            out.push(CliStep::Format(e));
            assert(steps_view(out@) =~= before.push(StepView::Format(ev)));
            return out;
        } else if is_arg(a.as_slice(), "--todo") {
            if has_next {
                let mut v = chars_of("Do the todo: ");
                push_str_chars(&mut v, args[i + 1].as_str());
                out.push(CliStep::SetPrompt(string_of(v.as_slice())));
                assert(steps_view(out@) =~= before.push(StepView::SetPrompt("Do the todo: "@ + av[i + 1])));
                i += 2;
            } else {
                out.push(CliStep::Fail(string_of(chars_of("Error: Missing argument for --todo").as_slice())));
                assert(steps_view(out@) =~= before.push(StepView::Fail("Error: Missing argument for --todo"@)));
                return out;
            }
        } else {
            let toml = match extension(args[i].as_str()) {
                Some(e) => is_arg(chars_of(e.as_str()).as_slice(), "toml"),
                None => false,
            };
            if toml {
                out.push(CliStep::SetConfig(owned_chars(a.as_slice())));
                assert(steps_view(out@) =~= before.push(StepView::SetConfig(av[i as int])));
            } else {
                let mut v = chars_of(":open ");
                push_str_chars(&mut v, args[i].as_str());
                out.push(CliStep::SetPrompt(string_of(v.as_slice())));
                assert(steps_view(out@) =~= before.push(StepView::SetPrompt(":open "@ + av[i as int])));
            }
            i += 1;
        }
    }
}

/// The Rust files among the lines that `git diff --name-only` prints.
pub open spec fn rust_files(ls: Seq<Seq<char>>) -> Seq<Seq<char>>
    decreases ls.len(),
{
    if ls.len() == 0 {
        Seq::empty()
    } else if ends_with(ls.last(), ".rs"@) {
        rust_files(ls.drop_last()).push(ls.last())
    } else {
        rust_files(ls.drop_last())
    }
}

/// The changed Rust files, from the output of `git diff --name-only`.
pub fn changed_rust_files(git_output: &str) -> (r: Vec<String>)
    ensures
        views(r@) == rust_files(lines(git_output@)),
{
    let c = chars_of(git_output);
    let ls = split_lines(c.as_slice());
    let ghost lv = ls@.map_values(|l: Vec<char>| l@);
    let rs = chars_of(".rs");
    let mut r: Vec<String> = Vec::new();
    let mut i: usize = 0;
    while i < ls.len()
        invariant
            i <= ls@.len(),
            lv == ls@.map_values(|l: Vec<char>| l@),
            rs@ == ".rs"@,
            views(r@) == rust_files(lv.take(i as int)),
        decreases ls.len() - i,
    {
        proof {
            assert(lv.take(i + 1).drop_last() =~= lv.take(i as int));
            assert(lv.take(i + 1).last() == ls@[i as int]@);
        }
        if ends_with_exec(ls[i].as_slice(), rs.as_slice()) {
            let ghost before = views(r@);
            r.push(string_of(ls[i].as_slice()));
            assert(views(r@) =~= before.push(lv[i as int]));
        }
        i += 1;
    }
    assert(lv.take(ls.len() as int) =~= lv);
    r
}

/// A `bugNN.md` file that the patch-file picker offers.
pub open spec fn is_bug_file(name: Seq<char>) -> bool {
    &&& starts_with(name, "bug"@)
    &&& ends_with(name, ".md"@)
    &&& vstd::utf8::encode_utf8(name).len() >= 7
}

/// The bug files among `names`, each on a line of its own, in order.
pub open spec fn bug_lines(names: Seq<Seq<char>>) -> Seq<char>
    decreases names.len(),
{
    if names.len() == 0 {
        Seq::empty()
    } else if is_bug_file(names.last()) {
        bug_lines(names.drop_last()) + names.last() + "\n"@
    } else {
        bug_lines(names.drop_last())
    }
}

/// The choices handed to the picker: the bug files of the directory, then
/// the three usual patch files.
pub fn fzf_choices(names: &Vec<String>) -> (r: String)
    ensures
        r@ == bug_lines(views(names@)) + "todo.md\ntemp.md\nimpl.md"@,
{
    let ghost nv = views(names@);
    let bug = chars_of("bug");
    let md = chars_of(".md");
    let mut out: Vec<char> = Vec::new();
    let mut i: usize = 0;
    while i < names.len()
        invariant
            i <= names@.len(),
            nv == views(names@),
            bug@ == "bug"@,
            md@ == ".md"@,
            out@ == bug_lines(nv.take(i as int)),
        decreases names.len() - i,
    {
        proof {
            assert(nv.take(i + 1).drop_last() =~= nv.take(i as int));
            assert(nv.take(i + 1).last() == names@[i as int]@);
        }
        let name = names[i].as_str();
        let n = chars_of(name);
        let nbytes = name.as_bytes().len();
        assert(name@ == nv[i as int]);
        assert(nbytes == vstd::utf8::encode_utf8(nv[i as int]).len());
        if starts_with_exec(n.as_slice(), bug.as_slice()) && ends_with_exec(n.as_slice(), md.as_slice())
            && nbytes >= 7 {
            let ghost before = out@;
            push_str_chars(&mut out, name);
            push_str_chars(&mut out, "\n");
            assert(out@ =~= before + nv[i as int] + "\n"@);
        }
        i += 1;
    }
    assert(nv.take(names@.len() as int) =~= nv);
    push_str_chars(&mut out, "todo.md\ntemp.md\nimpl.md");
    string_of(out.as_slice())
}

/// The usage text.
pub fn help_text() -> (r: &'static str)
    ensures
        r@ == HELP@,
{
    HELP
}

/// The patch format that the model is asked to answer in.
pub fn patch_template() -> (r: &'static str)
    ensures
        r@ == PATCH_TEMPLATE@,
{
    PATCH_TEMPLATE
}

pub const HELP: &'static str = "pcode — vim-modal patch REPL

Usage:
  pl                       Start REPL with default config
  pl --todo <todo.md>      Start REPL and auto-submit todo task
  pl --fastpatch [file]    Apply patches from file locally using fuzzy match
  pl --pb                  Apply patches from clipboard locally using fuzzy match
  pl --fzf                 Select patch file (todo.md/temp.md/impl.md) via fzf
  pl --patch               Print and copy the aider patch format to clipboard
  pl <file>                open file for view
  pl -q                    Quick switch via mswitch binary
  pl -s [repo]             Sync repo (uses active, cwd resolve, or prompt)
  pl --fmt [edition]       Format modified Rust files in git repo (default: 2021)
  pl --help                Show this help message";

pub const PATCH_TEMPLATE: &'static str = r#"Please apply changes using this aider style format all changed in single code block
```
// src/filename1.rs
<<<<<<< SEARCH
[exact original lines (include enough context to be unique, avoid too thin blocks)]
=======
[modified lines]
>>>>>>> REPLACE
 // src/filename2.rs
<<<<<<< SEARCH
[exact original lines (include enough context to be unique, avoid too thin blocks)]
=======
[modified lines]
>>>>>>> REPLACE
```"#;

} // verus!
