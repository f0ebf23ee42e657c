use switcher::detect::{
    entry_candidates, join_path, resolve_dir, type_project, Languages, MARKER_COUNT,
};
use switcher::dispatch::{compile, editor_program, open_project, Invocation, Step};

fn run(program: &str, args: &[&str], dir: &str) -> Step {
    Step::Run(Invocation {
        program: program.to_string(),
        args: args.iter().map(|a| a.to_string()).collect(),
        dir: dir.to_string(),
    })
}

#[test]
fn only_main_go_is_go() {
    let present = vec![false, true, false, false, false, false];
    assert_eq!(type_project("/cwd", "/p", &present), (Languages::Go, "/p/main.go".to_string()));
}

#[test]
fn rust_wins_over_go() {
    let present = vec![true, true, false, false, false, false];
    assert_eq!(type_project("/cwd", "/p", &present), (Languages::Rust, "/p/src/main.rs".to_string()));
}

#[test]
fn empty_directory_is_unknown() {
    let present = vec![false; MARKER_COUNT];
    assert_eq!(type_project("/cwd", "/p/empty", &present), (Languages::Unknown, "/p/empty".to_string()));
}

#[test]
fn missing_entries_count_as_absent() {
    assert_eq!(type_project("/cwd", "/q", &Vec::new()), (Languages::Unknown, "/q".to_string()));
}

#[test]
fn priority_order_of_markers() {
    let expected = [
        (Languages::Rust, "/d/src/main.rs"),
        (Languages::Go, "/d/main.go"),
        (Languages::Python, "/d/main.py"),
        (Languages::Cpp, "/d/main.cpp"),
        (Languages::C, "/d/main.c"),
        (Languages::JavaScript, "/d/main.js"),
    ];
    for (i, (lang, path)) in expected.iter().enumerate() {
        let mut present = vec![false; MARKER_COUNT];
        for j in i..MARKER_COUNT {
            present[j] = true;
        }
        assert_eq!(type_project("/cwd", "/d", &present), (*lang, path.to_string()));
    }
}

#[test]
fn candidates_in_order() {
    assert_eq!(
        entry_candidates("/cwd", "/d/"),
        vec!["/d/src/main.rs", "/d/main.go", "/d/main.py", "/d/main.cpp", "/d/main.c", "/d/main.js"]
    );
}

#[test]
fn join_path_separators() {
    assert_eq!(join_path("/a", "b"), "/a/b");
    assert_eq!(join_path("/a/", "b"), "/a/b");
    assert_eq!(join_path("", "b"), "b");
}

#[test]
fn python_build_dispatch() {
    let present = vec![false, false, true, false, false, false];
    let (lang, entry) = type_project("/cwd", "/proj", &present);
    assert_eq!(lang, Languages::Python);
    let steps = compile(lang, "/proj", &entry, "code");
    assert_eq!(
        steps,
        vec![
            run("python", &["main.py"], "/proj"),
            run("code", &["--reuse-window", "/proj/main.py"], "/proj"),
        ]
    );
}

#[test]
fn build_commands_of_each_kind() {
    let cases = [
        (Languages::Rust, "cargo", vec!["build", "--release"]),
        (Languages::Cpp, "g++", vec!["main.cpp"]),
        (Languages::C, "gcc", vec!["main.c"]),
        (Languages::JavaScript, "node", vec!["main.js"]),
        (Languages::Go, "go", vec!["build"]),
    ];
    for (lang, program, args) in cases.iter() {
        let steps = compile(*lang, "/w", "/w/entry", "ed");
        assert_eq!(
            steps,
            vec![run(program, args, "/w"), run("ed", &["--reuse-window", "/w/entry"], "/w")]
        );
    }
}

#[test]
fn unknown_only_reports() {
    assert_eq!(
        compile(Languages::Unknown, "/w", "/w", "code"),
        vec![Step::Report("Unknown language".to_string())]
    );
}

#[test]
fn open_project_reuses_window() {
    assert_eq!(open_project("code", "/w"), Invocation {
        program: "code".to_string(),
        args: vec!["--reuse-window".to_string(), ".".to_string()],
        dir: "/w".to_string(),
    });
}

#[test]
fn editor_per_platform() {
    assert_eq!(editor_program(true), "code.cmd");
    assert_eq!(editor_program(false), "code");
}

#[test]
fn relative_directory_is_resolved() {
    let present = vec![false, false, true, false, false, false];
    assert_eq!(
        type_project("/home/me", "proj", &present),
        (Languages::Python, "/home/me/proj/main.py".to_string())
    );
    assert_eq!(
        type_project("/home/me/", "proj", &vec![false; MARKER_COUNT]),
        (Languages::Unknown, "/home/me/proj".to_string())
    );
}

#[test]
fn candidates_of_relative_directory() {
    let c = entry_candidates("/w", "sub/p");
    assert_eq!(c[0], "/w/sub/p/src/main.rs");
    assert_eq!(c[5], "/w/sub/p/main.js");
}

#[test]
fn resolve_keeps_absolute_directories() {
    assert_eq!(resolve_dir("/w", "/abs/p"), "/abs/p");
    assert_eq!(resolve_dir("/w", "rel"), "/w/rel");
    assert_eq!(resolve_dir("/", "rel"), "/rel");
}

#[test]
fn relative_python_build_targets_absolute_entry() {
    let present = vec![false, false, true, false, false, false];
    let dir = resolve_dir("/home/me", "proj");
    let (lang, entry) = type_project("/home/me", "proj", &present);
    assert_eq!(
        compile(lang, &dir, &entry, "code"),
        vec![
            run("python", &["main.py"], "/home/me/proj"),
            run("code", &["--reuse-window", "/home/me/proj/main.py"], "/home/me/proj"),
        ]
    );
}
