//! The persisted form of the project list: one project per line, the name and
//! the path joined by the two characters `{}`.
use vstd::prelude::*;

use crate::project::{views, Project, ProjectView};

verus! {

/// Whether the delimiter `{}` starts at position `i` of `t`.
pub open spec fn delim_at(t: Seq<char>, i: int) -> bool {
    0 <= i && i + 1 < t.len() && t[i] == '{' && t[i + 1] == '}'
}

/// The first position at or after `i` where the delimiter starts, or `t.len()`
/// when there is none.
pub open spec fn find_delim(t: Seq<char>, i: nat) -> nat
    decreases t.len() - i,
{
    if i + 1 >= t.len() {
        t.len()
    } else if delim_at(t, i as int) {
        i
    } else {
        find_delim(t, i + 1)
    }
}

/// The first position at or after `i` that holds `c`, or `t.len()` when there is none.
pub open spec fn find_char(t: Seq<char>, c: char, i: nat) -> nat
    decreases t.len() - i,
{
    if i >= t.len() {
        t.len()
    } else if t[i as int] == c {
        i
    } else {
        find_char(t, c, i + 1)
    }
}

/// A line split at the first delimiter: the part before is the name, the rest
/// the path. A line without a delimiter holds no project.
pub open spec fn line_project(l: Seq<char>) -> Option<ProjectView> {
    let k = find_delim(l, 0);
    if k < l.len() {
        Some(ProjectView { name: l.subrange(0, k as int), path: l.subrange((k + 2) as int, l.len() as int) })
    } else {
        None
    }
}

/// A line that ended in a line feed loses one carriage return before it.
pub open spec fn strip_cr(l: Seq<char>) -> Seq<char> {
    if l.len() > 0 && l.last() == '\r' {
        l.drop_last()
    } else {
        l
    }
}

/// The projects of the lines of `t` from position `i` on, malformed lines skipped.
pub open spec fn parse_from(t: Seq<char>, i: nat) -> Seq<ProjectView>
    decreases t.len() - i,
{
    if i > t.len() {
        Seq::empty()
    } else {
        let k = find_char(t, '\n', i);
        let line = if k < t.len() {
            strip_cr(t.subrange(i as int, k as int))
        } else {
            t.subrange(i as int, k as int)
        };
        let head = match line_project(line) {
            Some(p) => seq![p],
            None => Seq::empty(),
        };
        if i <= k < t.len() {
            head + parse_from(t, k + 1)
        } else {
            head
        }
    }
}

/// The projects that a persisted text holds, in order.
pub open spec fn parse_text(t: Seq<char>) -> Seq<ProjectView> {
    parse_from(t, 0)
}

/// The line that stores one project.
pub open spec fn record(p: ProjectView) -> Seq<char> {
    p.name + seq!['{', '}'] + p.path + seq!['\n']
}

/// The persisted text of a list: its records one after another.
pub open spec fn format_text(ps: Seq<ProjectView>) -> Seq<char>
    decreases ps.len(),
{
    if ps.len() == 0 {
        Seq::empty()
    } else {
        record(ps[0]) + format_text(ps.drop_first())
    }
}

/// A project that survives being written and read back: no line break in
/// either field, no delimiter in the name, and no path that ends in a carriage
/// return.
pub open spec fn storable(p: ProjectView) -> bool {
    &&& forall|m: int| 0 <= m < p.name.len() ==> p.name[m] != '\n'
    &&& forall|m: int| 0 <= m < p.path.len() ==> p.path[m] != '\n'
    &&& forall|m: int| #![trigger delim_at(p.name, m)] !delim_at(p.name, m)
    &&& !(p.path.len() > 0 && p.path.last() == '\r')
}

proof fn lemma_find_char_at(t: Seq<char>, c: char, i: nat, j: nat)
    requires
        i <= j <= t.len(),
        forall|m: int| i <= m < j ==> t[m] != c,
        j < t.len() ==> t[j as int] == c,
    ensures
        find_char(t, c, i) == j,
    decreases j - i,
{
    if i < j {
        lemma_find_char_at(t, c, i + 1, j);
    }
}

proof fn lemma_find_delim_at(t: Seq<char>, i: nat, j: nat)
    requires
        i <= j,
        forall|m: int| i <= m < j ==> !delim_at(t, m),
        delim_at(t, j as int),
    ensures
        find_delim(t, i) == j,
    decreases j - i,
{
    if i < j {
        lemma_find_delim_at(t, i + 1, j);
    }
}

proof fn lemma_format_push(ps: Seq<ProjectView>, p: ProjectView)
    ensures
        format_text(ps.push(p)) == format_text(ps) + record(p),
    decreases ps.len(),
{
    if ps.len() == 0 {
        assert(ps.push(p).drop_first() =~= Seq::<ProjectView>::empty());
        assert(format_text(ps.push(p).drop_first()) == Seq::<char>::empty());
        assert(ps.push(p)[0] == p);
        assert(format_text(ps.push(p)) =~= format_text(ps) + record(p));
    } else {
        assert(ps.push(p).drop_first() =~= ps.drop_first().push(p));
        lemma_format_push(ps.drop_first(), p);
        assert(format_text(ps.push(p)) =~= format_text(ps) + record(p));
    }
}

proof fn lemma_parse_records(t: Seq<char>, i: nat, ps: Seq<ProjectView>)
    requires
        i <= t.len(),
        t.subrange(i as int, t.len() as int) == format_text(ps),
        forall|n: int| 0 <= n < ps.len() ==> storable(#[trigger] ps[n]),
    ensures
        parse_from(t, i) == ps,
    decreases ps.len(),
{
    if ps.len() == 0 {
        assert(t.subrange(i as int, t.len() as int).len() == 0);
        assert(find_char(t, '\n', i) == t.len());
        assert(find_delim(Seq::<char>::empty(), 0) == 0);
        assert(t.subrange(i as int, t.len() as int) =~= Seq::<char>::empty());
    } else {
        let p = ps[0];
        let r = record(p);
        let rest = format_text(ps.drop_first());
        assert(storable(p));
        let nl = p.name.len();
        let pl = p.path.len();
        let k = i + r.len() - 1;
        assert(t.subrange(i as int, t.len() as int) == r + rest);
        assert forall|m: int| 0 <= m < r.len() implies t[i + m] == r[m] by {
            assert(t.subrange(i as int, t.len() as int)[m] == (r + rest)[m]);
        }
        assert forall|m: int| i <= m < k implies t[m] != '\n' by {
            assert(t[i + (m - i)] == r[m - i]);
            if m - i >= nl + 2 {
                assert(r[m - i] == p.path[m - i - nl - 2]);
            } else if m - i < nl {
                assert(r[m - i] == p.name[m - i]);
            }
        }
        assert(t[k as int] == r[r.len() - 1]);
        lemma_find_char_at(t, '\n', i, k as nat);
        let line = t.subrange(i as int, k as int);
        assert(line =~= p.name + seq!['{', '}'] + p.path) by {
            assert forall|m: int| 0 <= m < line.len() implies line[m] == r[m] by {
                assert(t[i + m] == r[m]);
            }
        }
        assert(strip_cr(line) == line) by {
            if pl > 0 {
                assert(line.last() == p.path.last());
            } else {
                assert(line.last() == '}');
            }
        }
        assert forall|m: int| 0 <= m < nl implies !delim_at(line, m) by {
            if m + 1 < nl {
                assert(!delim_at(p.name, m));
                assert(line[m] == p.name[m] && line[m + 1] == p.name[m + 1]);
            } else {
                assert(line[m + 1] == '{');
            }
        }
        assert(delim_at(line, nl as int));
        lemma_find_delim_at(line, 0, nl as nat);
        assert(line.subrange(0, nl as int) =~= p.name);
        assert(line.subrange((nl + 2) as int, line.len() as int) =~= p.path);
        let rest_ps = ps.drop_first();
        assert forall|n: int| 0 <= n < rest_ps.len() implies storable(#[trigger] rest_ps[n]) by {
            assert(rest_ps[n] == ps[n + 1]);
        }
        assert(t.subrange(k + 1, t.len() as int) =~= rest) by {
            assert forall|m: int| 0 <= m < rest.len() implies t[k + 1 + m] == rest[m] by {
                assert(t.subrange(i as int, t.len() as int)[r.len() + m] == (r + rest)[r.len()
                    + m]);
            }
        }
        lemma_parse_records(t, (k + 1) as nat, rest_ps);
        assert(ps =~= seq![p] + rest_ps);
    }
}

/// Writing a list of storable projects and reading the text back gives the
/// same projects in the same order.
pub proof fn lemma_round_trip(ps: Seq<ProjectView>)
    requires
        forall|n: int| 0 <= n < ps.len() ==> storable(#[trigger] ps[n]),
    ensures
        parse_text(format_text(ps)) == ps,
{
    let t = format_text(ps);
    assert(t.subrange(0, t.len() as int) =~= t);
    lemma_parse_records(t, 0, ps);
}

/// Position of the first delimiter at or after `from` in `t`, or the length of `t`.
fn delim_position(t: &str, n: usize, from: usize) -> (r: usize)
    requires
        n == t@.len(),
        from <= n,
    ensures
        r == find_delim(t@, from as nat),
        r == n || r + 1 < n,
{
    let mut i: usize = from;
    while i < n
        invariant
            n == t@.len(),
            from <= i <= n,
            find_delim(t@, i as nat) == find_delim(t@, from as nat),
        decreases n - i,
    {
        if i + 1 < n && t.get_char(i) == '{' && t.get_char(i + 1) == '}' {
            return i;
        }
        i = i + 1;
    }
    n
}

/// Position of the first `c` at or after `from` in `t`, or the length of `t`.
fn char_position(t: &str, n: usize, c: char, from: usize) -> (r: usize)
    requires
        n == t@.len(),
        from <= n,
    ensures
        r == find_char(t@, c, from as nat),
        from <= r <= n,
{
    let mut i: usize = from;
    while i < n
        invariant
            n == t@.len(),
            from <= i <= n,
            find_char(t@, c, i as nat) == find_char(t@, c, from as nat),
        decreases n - i,
    {
        if t.get_char(i) == c {
            return i;
        }
        i = i + 1;
    }
    n
}

/// Reads one stored line: the name is what stands before the first `{}`, the
/// path all that follows it. A line without the delimiter gives `None`.
pub fn parse_line(line: &str) -> (r: Option<Project>)
    ensures
        r matches Some(p) ==> line_project(line@) == Some(p@),
        r is None <==> line_project(line@) is None,
{
    let n = line.unicode_len();
    let k = delim_position(line, n, 0);
    if k < n {
        let name = String::from_str(line.substring_char(0, k));
        let path = String::from_str(line.substring_char(k + 2, n));
        Some(Project::new(name, path))
    } else {
        None
    }
}

/// Reads a whole stored text line by line, keeping the lines that hold a
/// project and skipping the malformed ones.
pub fn parse_projects(text: &str) -> (r: Vec<Project>)
    ensures
        views(r@) == parse_text(text@),
{
    let n = text.unicode_len();
    let mut out: Vec<Project> = Vec::new();
    let mut i: usize = 0;
    loop
        invariant
            n == text@.len(),
            i <= n,
            views(out@) + parse_from(text@, i as nat) == parse_text(text@),
        decreases n - i,
    {
        let k = char_position(text, n, '\n', i);
        let raw = text.substring_char(i, k);
        let line = if k < n {
            let m = raw.unicode_len();
            if m > 0 && raw.get_char(m - 1) == '\r' {
                raw.substring_char(0, m - 1)
            } else {
                raw
            }
        } else {
            raw
        };
        proof {
            if k < n {
                assert(line@ == strip_cr(text@.subrange(i as int, k as int)));
            }
        }
        let parsed = parse_line(line);
        let ghost before = out@;
        match parsed {
            Some(p) => {
                out.push(p);
            },
            None => {},
        }
        proof {
            let head = match line_project(line@) {
                Some(p) => seq![p],
                None => Seq::<ProjectView>::empty(),
            };
            assert(views(out@) =~= views(before) + head);
            if k < n {
                assert(parse_from(text@, i as nat) == head + parse_from(text@, (k + 1) as nat));
            } else {
                assert(parse_from(text@, i as nat) == head);
                assert(parse_from(text@, i as nat) =~= head + Seq::<ProjectView>::empty());
            }
        }
        if k < n {
            assert(views(out@) + parse_from(text@, (k + 1) as nat) =~= views(before) + parse_from(
                text@,
                i as nat,
            ));
            i = k + 1;
        } else {
            assert(views(out@) =~= parse_text(text@));
            return out;
        }
    }
}

/// The stored text of a list: for each project, its name, `{}`, its path and a
/// line feed, in list order.
pub fn format_projects(projects: &Vec<Project>) -> (r: String)
    ensures
        r@ == format_text(views(projects@)),
{
    let mut s = String::new();
    let mut i: usize = 0;
    proof {
        reveal_strlit("{}");
        reveal_strlit("\n");
    }
    while i < projects.len()
        invariant
            i <= projects@.len(),
            s@ == format_text(views(projects@).take(i as int)),
            "{}"@ == seq!['{', '}'],
            "\n"@ == seq!['\n'],
        decreases projects@.len() - i,
    {
        let p = &projects[i];
        s.append(p.name.as_str());
        s.append("{}");
        s.append(p.path.as_str());
        s.append("\n");
        proof {
            let vs = views(projects@);
            assert(vs.take(i + 1) =~= vs.take(i as int).push(vs[i as int]));
            lemma_format_push(vs.take(i as int), vs[i as int]);
        }
        i = i + 1;
    }
    assert(views(projects@).take(i as int) =~= views(projects@));
    s
}

} // verus!
