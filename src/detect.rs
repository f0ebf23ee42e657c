//! Deciding what kind of project a directory holds, and which commands build
//! it and open it in the editor.
use vstd::prelude::*;

verus! {

/// The kinds of project that can be recognised and built.
#[derive(Clone, Copy, Debug, PartialEq, Eq, Structural)]
pub enum Languages {
    Rust,
    Python,
    Cpp,
    C,
    JavaScript,
    Go,
    Unknown,
}

/// How many marker files are looked for.
pub const MARKER_COUNT: usize = 6;

/// The marker files, relative to the project directory, in the order in which
/// they are looked for.
pub open spec fn marker(i: int) -> Seq<char> {
    if i == 0 {
        "src/main.rs"@
    } else if i == 1 {
        "main.go"@
    } else if i == 2 {
        "main.py"@
    } else if i == 3 {
        "main.cpp"@
    } else if i == 4 {
        "main.c"@
    } else {
        "main.js"@
    }
}

/// The kind of project that the `i`-th marker file shows.
pub open spec fn marker_kind(i: int) -> Languages {
    if i == 0 {
        Languages::Rust
    } else if i == 1 {
        Languages::Go
    } else if i == 2 {
        Languages::Python
    } else if i == 3 {
        Languages::Cpp
    } else if i == 4 {
        Languages::C
    } else {
        Languages::JavaScript
    }
}

/// A relative path appended to a directory, with one separator between them.
pub open spec fn joined(dir: Seq<char>, rel: Seq<char>) -> Seq<char> {
    if dir.len() == 0 || dir.last() == '/' {
        dir + rel
    } else {
        dir + seq!['/'] + rel
    }
}

/// The first marker at or after `i` that is present; `MARKER_COUNT` if none is.
/// A marker without an entry in `present` counts as absent.
pub open spec fn first_present(present: Seq<bool>, i: nat) -> nat
    decreases MARKER_COUNT - i,
{
    if i >= MARKER_COUNT {
        MARKER_COUNT as nat
    } else if i < present.len() && present[i as int] {
        i
    } else {
        first_present(present, i + 1)
    }
}

/// The kind of a directory and its entry file, given which marker files exist
/// in it: the first present marker in the fixed order wins; with none, the
/// kind is unknown and the entry is the directory itself.
pub open spec fn classify(dir: Seq<char>, present: Seq<bool>) -> (Languages, Seq<char>) {
    let f = first_present(present, 0);
    if f < MARKER_COUNT {
        (marker_kind(f as int), joined(dir, marker(f as int)))
    } else {
        (Languages::Unknown, dir)
    }
}

fn marker_name(i: usize) -> (r: &'static str)
    requires
        i < MARKER_COUNT,
    ensures
        r@ == marker(i as int),
{
    if i == 0 {
        "src/main.rs"
    } else if i == 1 {
        "main.go"
    } else if i == 2 {
        "main.py"
    } else if i == 3 {
        "main.cpp"
    } else if i == 4 {
        "main.c"
    } else {
        "main.js"
    }
}

fn marker_language(i: usize) -> (r: Languages)
    requires
        i < MARKER_COUNT,
    ensures
        r == marker_kind(i as int),
{
    if i == 0 {
        Languages::Rust
    } else if i == 1 {
        Languages::Go
    } else if i == 2 {
        Languages::Python
    } else if i == 3 {
        Languages::Cpp
    } else if i == 4 {
        Languages::C
    } else {
        Languages::JavaScript
    }
}

/// Appends `rel` to `dir`, putting a `/` between them unless `dir` is empty
/// or already ends with one.
pub fn join_path(dir: &str, rel: &str) -> (r: String)
    ensures
        r@ == joined(dir@, rel@),
{
    let n = dir.unicode_len();
    let mut r = String::from_str(dir);
    if n > 0 && dir.get_char(n - 1) == '/' {
        r.append(rel);
    } else if n == 0 {
        r.append(rel);
    } else {
        proof {
            reveal_strlit("/");
        }
        r.append("/");
        r.append(rel);
    }
    r
}

/// Whether a path is absolute: it starts with `/`.
pub open spec fn is_absolute(p: Seq<char>) -> bool {
    p.len() > 0 && p[0] == '/'
}

/// A directory as seen from the working directory `cwd`: an absolute one as
/// it is, a relative one appended to `cwd`.
pub open spec fn resolved(cwd: Seq<char>, dir: Seq<char>) -> Seq<char> {
    if is_absolute(dir) {
        dir
    } else {
        joined(cwd, dir)
    }
}

/// Resolves `dir` against the working directory `cwd`.
pub fn resolve_dir(cwd: &str, dir: &str) -> (r: String)
    ensures
        r@ == resolved(cwd@, dir@),
{
    if dir.unicode_len() > 0 && dir.get_char(0) == '/' {
        String::from_str(dir)
    } else {
        join_path(cwd, dir)
    }
}

/// The paths of the marker files under `dir`, resolved against `cwd`, in the
/// order in which they are looked for.
pub fn entry_candidates(cwd: &str, dir: &str) -> (r: Vec<String>)
    ensures
        r@.len() == MARKER_COUNT,
        forall|i: int|
            0 <= i < MARKER_COUNT ==> #[trigger] r@[i]@ == joined(resolved(cwd@, dir@), marker(i)),
{
    let base = resolve_dir(cwd, dir);
    let mut r: Vec<String> = Vec::new();
    let mut i: usize = 0;
    while i < MARKER_COUNT
        invariant
            base@ == resolved(cwd@, dir@),
            i <= MARKER_COUNT,
            r@.len() == i,
            forall|j: int| 0 <= j < i ==> #[trigger] r@[j]@ == joined(base@, marker(j)),
        decreases MARKER_COUNT - i,
    {
        r.push(join_path(base.as_str(), marker_name(i)));
        i = i + 1;
    }
    r
}

/// Classifies the directory `dir`, resolved against the working directory
/// `cwd`, from which of its marker files exist (`present[i]` for the `i`-th
/// of `entry_candidates`). Returns the kind together with the entry file, or
/// the resolved directory itself when no marker is present.
pub fn type_project(cwd: &str, dir: &str, present: &Vec<bool>) -> (r: (Languages, String))
    ensures
        (r.0, r.1@) == classify(resolved(cwd@, dir@), present@),
{
    let base = resolve_dir(cwd, dir);
    let mut i: usize = 0;
    while i < MARKER_COUNT
        invariant
            base@ == resolved(cwd@, dir@),
            i <= MARKER_COUNT,
            first_present(present@, i as nat) == first_present(present@, 0),
        decreases MARKER_COUNT - i,
    {
        if i < present.len() && present[i] {
            return (marker_language(i), join_path(base.as_str(), marker_name(i)));
        }
        i = i + 1;
    }
    (Languages::Unknown, base)
}

/// With an absolute working directory, the entry file that classification
/// gives is an absolute path, whether the project directory was given
/// absolute or relative.
pub proof fn lemma_entry_is_absolute(cwd: Seq<char>, dir: Seq<char>, present: Seq<bool>)
    requires
        is_absolute(cwd),
    ensures
        is_absolute(resolved(cwd, dir)),
        is_absolute(classify(resolved(cwd, dir), present).1),
{
    let base = resolved(cwd, dir);
    assert(is_absolute(base)) by {
        if !is_absolute(dir) {
            if cwd.last() == '/' {
                assert((cwd + dir)[0] == cwd[0]);
            } else {
                assert((cwd + seq!['/'] + dir)[0] == cwd[0]);
            }
        }
    }
    let f = first_present(present, 0);
    if f < MARKER_COUNT {
        let m = marker(f as int);
        if base.last() == '/' {
            assert((base + m)[0] == base[0]);
        } else {
            assert((base + seq!['/'] + m)[0] == base[0]);
        }
    }
}

} // verus!
