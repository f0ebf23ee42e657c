//! The commands that build a classified project and open it in the editor.
//! Each command names the directory it runs in, so that nothing depends on
//! the process's own working directory.
use vstd::prelude::*;

use crate::detect::Languages;

verus! {

/// One external command: the program, its arguments and the directory it
/// runs in.
#[derive(Debug, PartialEq, Eq)]
pub struct Invocation {
    pub program: String,
    pub args: Vec<String>,
    pub dir: String,
}

/// The mathematical value of an `Invocation`.
pub struct InvocationView {
    pub program: Seq<char>,
    pub args: Seq<Seq<char>>,
    pub dir: Seq<char>,
}

/// The views of a sequence of strings.
pub open spec fn string_views(v: Seq<String>) -> Seq<Seq<char>> {
    v.map_values(|s: String| s@)
}

impl View for Invocation {
    type V = InvocationView;

    open spec fn view(&self) -> InvocationView {
        InvocationView { program: self.program@, args: string_views(self.args@), dir: self.dir@ }
    }
}

/// One thing to do after a selection: run a command, or tell the user something.
#[derive(Debug, PartialEq, Eq)]
pub enum Step {
    Run(Invocation),
    Report(String),
}

/// The mathematical value of a `Step`.
pub enum StepView {
    Run(InvocationView),
    Report(Seq<char>),
}

impl View for Step {
    type V = StepView;

    open spec fn view(&self) -> StepView {
        match self {
            Step::Run(c) => StepView::Run(c@),
            Step::Report(m) => StepView::Report(m@),
        }
    }
}

/// The views of a sequence of steps.
pub open spec fn step_views(v: Seq<Step>) -> Seq<StepView> {
    v.map_values(|s: Step| s@)
}

/// The editor's executable: `code.cmd` on Windows, `code` elsewhere.
pub open spec fn editor_name(windows: bool) -> Seq<char> {
    if windows {
        "code.cmd"@
    } else {
        "code"@
    }
}

/// The build command of each kind of project, as program and arguments; none
/// for an unknown kind.
pub open spec fn build_command(l: Languages) -> Option<(Seq<char>, Seq<Seq<char>>)> {
    match l {
        Languages::Rust => Some(("cargo"@, seq!["build"@, "--release"@])),
        Languages::Python => Some(("python"@, seq!["main.py"@])),
        Languages::Cpp => Some(("g++"@, seq!["main.cpp"@])),
        Languages::C => Some(("gcc"@, seq!["main.c"@])),
        Languages::JavaScript => Some(("node"@, seq!["main.js"@])),
        Languages::Go => Some(("go"@, seq!["build"@])),
        Languages::Unknown => None,
    }
}

/// The editor opening `target` in its current window, run in `dir`.
pub open spec fn editor_call(editor: Seq<char>, target: Seq<char>, dir: Seq<char>) -> InvocationView {
    InvocationView { program: editor, args: seq!["--reuse-window"@, target], dir }
}

/// What building a project means: its build command in the project
/// directory, then the editor on the entry file; for an unknown kind, only a
/// message.
pub open spec fn build_plan(l: Languages, dir: Seq<char>, entry: Seq<char>, editor: Seq<char>) -> Seq<
    StepView,
> {
    match build_command(l) {
        Some(c) => seq![
            StepView::Run(InvocationView { program: c.0, args: c.1, dir }),
            StepView::Run(editor_call(editor, entry, dir)),
        ],
        None => seq![StepView::Report("Unknown language"@)],
    }
}

/// The editor's executable on this kind of system.
pub fn editor_program(windows: bool) -> (r: String)
    ensures
        r@ == editor_name(windows),
{
    if windows {
        String::from_str("code.cmd")
    } else {
        String::from_str("code")
    }
}

fn words(first: &str, second: Option<&str>) -> (r: Vec<String>)
    ensures
        string_views(r@) == match second {
            Some(s) => seq![first@, s@],
            None => seq![first@],
        },
{
    let mut r: Vec<String> = Vec::new();
    r.push(String::from_str(first));
    match second {
        Some(s) => {
            r.push(String::from_str(s));
            assert(string_views(r@) =~= seq![first@, s@]);
        },
        None => {
            assert(string_views(r@) =~= seq![first@]);
        },
    }
    r
}

/// The command that opens the directory `dir` in the editor.
pub fn open_project(editor: &str, dir: &str) -> (r: Invocation)
    ensures
        r@ == editor_call(editor@, "."@, dir@),
{
    Invocation {
        program: String::from_str(editor),
        args: words("--reuse-window", Some(".")),
        dir: String::from_str(dir),
    }
}

/// The steps that build a project of kind `language` in `path` and then open
/// its entry file `file_path` with `editor`.
pub fn compile(language: Languages, path: &str, file_path: &str, editor: &str) -> (r: Vec<Step>)
    ensures
        step_views(r@) == build_plan(language, path@, file_path@, editor@),
{
    let (program, first, second): (&str, &str, Option<&str>) = match language {
        Languages::Rust => ("cargo", "build", Some("--release")),
        Languages::Python => ("python", "main.py", None),
        Languages::Cpp => ("g++", "main.cpp", None),
        Languages::C => ("gcc", "main.c", None),
        Languages::JavaScript => ("node", "main.js", None),
        Languages::Go => ("go", "build", None),
        Languages::Unknown => {
            let mut r: Vec<Step> = Vec::new();
            r.push(Step::Report(String::from_str("Unknown language")));
            assert(step_views(r@) =~= build_plan(language, path@, file_path@, editor@));
            return r;
        },
    };
    let build = Invocation {
        program: String::from_str(program),
        args: words(first, second),
        dir: String::from_str(path),
    };
    let open = Invocation {
        program: String::from_str(editor),
        args: words("--reuse-window", Some(file_path)),
        dir: String::from_str(path),
    };
    let mut r: Vec<Step> = Vec::new();
    r.push(Step::Run(build));
    r.push(Step::Run(open));
    assert(step_views(r@) =~= build_plan(language, path@, file_path@, editor@));
    r
}

} // verus!
