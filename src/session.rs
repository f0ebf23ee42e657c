//! The interactive session: a cursor over the project list, a toggle between
//! the list view and a placeholder full-screen view, and the effect of each
//! key press on them.
use vstd::prelude::*;

use crate::project::{views, Project, ProjectView};

verus! {

/// A key press without modifiers, as far as the session tells keys apart.
#[derive(Clone, Copy, Debug, PartialEq, Eq, Structural)]
pub enum Key {
    Char(char),
    Tab,
    Enter,
    Other,
}

/// What the surroundings of the session are asked to do after a key press.
#[derive(Clone, Copy, Debug, PartialEq, Eq, Structural)]
pub enum Action {
    /// Nothing beyond repainting.
    Stay,
    /// The session is over; the list is to be saved.
    Quit,
    /// Switch the terminal to its full-screen buffer.
    EnterAlternate,
    /// Switch the terminal back to its normal buffer.
    LeaveAlternate,
    /// Ask for a name and a path, then hand them to `Session::insert`.
    PromptInsert,
    /// Open, classify and build the project at this index; the session is over.
    Open(usize),
}

/// The list of projects together with the cursor and the view mode.
pub struct Session {
    projects: Vec<Project>,
    cursor: usize,
    alternate: bool,
    running: bool,
}

/// The mathematical value of a `Session`.
pub struct SessionView {
    pub projects: Seq<ProjectView>,
    pub cursor: nat,
    pub alternate: bool,
    pub running: bool,
}

impl View for Session {
    type V = SessionView;

    closed spec fn view(&self) -> SessionView {
        SessionView {
            projects: views(self.projects@),
            cursor: self.cursor as nat,
            alternate: self.alternate,
            running: self.running,
        }
    }
}

/// The cursor indexes an entry of a non-empty list, and is zero on an empty one.
pub open spec fn cursor_ok(s: SessionView) -> bool {
    if s.projects.len() == 0 {
        s.cursor == 0
    } else {
        s.cursor < s.projects.len()
    }
}

/// The session with another cursor.
pub open spec fn with_cursor(s: SessionView, c: nat) -> SessionView {
    SessionView { projects: s.projects, cursor: c, alternate: s.alternate, running: s.running }
}

/// The session after the entry under the cursor is removed: the cursor stays
/// where it was, or moves up one when it was on the last entry.
pub open spec fn deleted(s: SessionView) -> SessionView {
    let ps = s.projects.remove(s.cursor as int);
    let c = if s.cursor >= ps.len() && s.cursor > 0 {
        (s.cursor - 1) as nat
    } else {
        s.cursor
    };
    SessionView { projects: ps, cursor: c, alternate: s.alternate, running: s.running }
}

/// The session once it has ended.
pub open spec fn stopped(s: SessionView) -> SessionView {
    SessionView { projects: s.projects, cursor: s.cursor, alternate: s.alternate, running: false }
}

/// The effect of one key press: the next session and the action asked for.
/// Keys whose condition fails, other keys, and any key after the end change
/// nothing.
pub open spec fn next(s: SessionView, key: Key) -> (SessionView, Action) {
    if !s.running {
        (s, Action::Stay)
    } else {
        match key {
            Key::Char(c) => {
                if c == 'q' {
                    (stopped(s), Action::Quit)
                } else if c == 'k' {
                    if s.cursor > 0 {
                        (with_cursor(s, (s.cursor - 1) as nat), Action::Stay)
                    } else {
                        (s, Action::Stay)
                    }
                } else if c == 'j' {
                    if s.cursor + 1 < s.projects.len() {
                        (with_cursor(s, s.cursor + 1), Action::Stay)
                    } else {
                        (s, Action::Stay)
                    }
                } else if c == 'i' {
                    (s, Action::PromptInsert)
                } else if c == 'd' {
                    if s.projects.len() > 0 {
                        (deleted(s), Action::Stay)
                    } else {
                        (s, Action::Stay)
                    }
                } else {
                    (s, Action::Stay)
                }
            },
            Key::Tab => {
                let t = SessionView {
                    projects: s.projects,
                    cursor: s.cursor,
                    alternate: !s.alternate,
                    running: s.running,
                };
                if s.alternate {
                    (t, Action::LeaveAlternate)
                } else {
                    (t, Action::EnterAlternate)
                }
            },
            Key::Enter => {
                if s.projects.len() > 0 {
                    (stopped(s), Action::Open(s.cursor as usize))
                } else {
                    (s, Action::Stay)
                }
            },
            Key::Other => (s, Action::Stay),
        }
    }
}

/// The session after a sequence of key presses.
pub open spec fn run_keys(s: SessionView, keys: Seq<Key>) -> SessionView
    decreases keys.len(),
{
    if keys.len() == 0 {
        s
    } else {
        run_keys(next(s, keys[0]).0, keys.drop_first())
    }
}

/// A prompt's answer with every line feed taken out.
pub open spec fn without_newlines(s: Seq<char>) -> Seq<char>
    decreases s.len(),
{
    if s.len() == 0 {
        Seq::empty()
    } else if s.last() == '\n' {
        without_newlines(s.drop_last())
    } else {
        without_newlines(s.drop_last()).push(s.last())
    }
}

/// The characters with the Unicode property `White_Space`.
pub open spec fn is_white_space(c: char) -> bool {
    let u = c as u32;
    ||| 0x9 <= u <= 0xd
    ||| u == 0x20
    ||| u == 0x85
    ||| u == 0xa0
    ||| u == 0x1680
    ||| 0x2000 <= u <= 0x200a
    ||| u == 0x2028
    ||| u == 0x2029
    ||| u == 0x202f
    ||| u == 0x205f
    ||| u == 0x3000
}

/// A text without the whitespace at its start.
pub open spec fn trim_start(s: Seq<char>) -> Seq<char>
    decreases s.len(),
{
    if s.len() > 0 && is_white_space(s[0]) {
        trim_start(s.drop_first())
    } else {
        s
    }
}

/// A text without the whitespace at its end.
pub open spec fn trim_end(s: Seq<char>) -> Seq<char>
    decreases s.len(),
{
    if s.len() > 0 && is_white_space(s.last()) {
        trim_end(s.drop_last())
    } else {
        s
    }
}

/// A text without the whitespace at its two ends.
pub open spec fn trimmed(s: Seq<char>) -> Seq<char> {
    trim_end(trim_start(s))
}

/// The value kept from a prompt's answer: its line feeds removed, then trimmed.
pub open spec fn cleaned(s: Seq<char>) -> Seq<char> {
    trimmed(without_newlines(s))
}

/// The session with one more project at the end of the list.
pub open spec fn appended(s: SessionView, p: ProjectView) -> SessionView {
    SessionView {
        projects: s.projects.push(p),
        cursor: s.cursor,
        alternate: s.alternate,
        running: s.running,
    }
}

/// One painted line of the screen, and whether it is highlighted.
#[derive(Debug, PartialEq, Eq)]
pub struct Row {
    pub text: String,
    pub highlighted: bool,
}

/// The mathematical value of a `Row`.
pub struct RowView {
    pub text: Seq<char>,
    pub highlighted: bool,
}

impl View for Row {
    type V = RowView;

    open spec fn view(&self) -> RowView {
        RowView { text: self.text@, highlighted: self.highlighted }
    }
}

/// The views of a sequence of rows.
pub open spec fn row_views(v: Seq<Row>) -> Seq<RowView> {
    v.map_values(|r: Row| r@)
}

/// How one project is shown: its name, ` : `, its path.
pub open spec fn project_line(p: ProjectView) -> Seq<char> {
    p.name + " : "@ + p.path
}

/// The whole screen of a session, top to bottom: in the full-screen view one
/// placeholder label; otherwise every project, the one under the cursor
/// highlighted.
pub open spec fn screen(s: SessionView) -> Seq<RowView> {
    if s.alternate {
        seq![RowView { text: "Alternate Screen"@, highlighted: false }]
    } else {
        Seq::new(
            s.projects.len(),
            |i: int| RowView { text: project_line(s.projects[i]), highlighted: i == s.cursor },
        )
    }
}

/// Relies on `str::trim`: the result is the text without leading and
/// trailing characters of the Unicode property `White_Space`.
#[verifier::external_body]
fn trim(s: &str) -> (r: String)
    ensures
        r@ == trimmed(s@),
{
    s.trim().to_string()
}

/// Removes every line feed from `s`.
pub fn strip_newlines(s: &str) -> (r: String)
    ensures
        r@ == without_newlines(s@),
{
    let n = s.unicode_len();
    let mut r = String::new();
    let mut i: usize = 0;
    while i < n
        invariant
            n == s@.len(),
            i <= n,
            r@ == without_newlines(s@.take(i as int)),
        decreases n - i,
    {
        let c = s.get_char(i);
        proof {
            assert(s@.take(i + 1).drop_last() =~= s@.take(i as int));
        }
        if c != '\n' {
            r.append(s.substring_char(i, i + 1));
            assert(r@ =~= without_newlines(s@.take(i as int)).push(c));
        }
        i = i + 1;
    }
    assert(s@.take(n as int) =~= s@);
    r
}

/// The value kept from a prompt's answer: line feeds removed, then trimmed.
pub fn clean_input(line: &str) -> (r: String)
    ensures
        r@ == cleaned(line@),
{
    let s = strip_newlines(line);
    trim(s.as_str())
}

impl Session {
    /// The cursor is within the list, and zero on an empty one.
    pub open spec fn wf(&self) -> bool {
        cursor_ok(self@)
    }

    /// A running session in the list view with the cursor on the first entry.
    pub fn new(projects: Vec<Project>) -> (r: Session)
        ensures
            r@ == (SessionView { projects: views(projects@), cursor: 0, alternate: false, running: true }),
            r.wf(),
    {
        Session { projects, cursor: 0, alternate: false, running: true }
    }

    /// The list as it stands.
    pub fn projects(&self) -> (r: &Vec<Project>)
        ensures
            views(r@) == self@.projects,
    {
        &self.projects
    }

    /// The index of the highlighted entry.
    pub fn cursor(&self) -> (r: usize)
        ensures
            r == self@.cursor,
    {
        self.cursor
    }

    /// Whether the placeholder full-screen view is shown.
    pub fn is_alternate(&self) -> (r: bool)
        ensures
            r == self@.alternate,
    {
        self.alternate
    }

    /// Whether the session still takes keys.
    pub fn is_running(&self) -> (r: bool)
        ensures
            r == self@.running,
    {
        self.running
    }

    /// Ends the session and hands back the list.
    pub fn into_projects(self) -> (r: Vec<Project>)
        ensures
            views(r@) == self@.projects,
    {
        self.projects
    }

    /// The rows to paint for the current state, top to bottom.
    pub fn frame(&self) -> (r: Vec<Row>)
        ensures
            row_views(r@) == screen(self@),
    {
        let mut r: Vec<Row> = Vec::new();
        if self.alternate {
            r.push(Row { text: String::from_str("Alternate Screen"), highlighted: false });
            assert(row_views(r@) =~= screen(self@));
            return r;
        }
        let mut i: usize = 0;
        while i < self.projects.len()
            invariant
                !self.alternate,
                i <= self.projects@.len(),
                r@.len() == i,
                row_views(r@) =~= screen(self@).take(i as int),
            decreases self.projects@.len() - i,
        {
            let p = &self.projects[i];
            let text = p.name.clone().concat(" : ").concat(p.path.as_str());
            r.push(Row { text, highlighted: i == self.cursor });
            assert(views(self.projects@)[i as int] == p@);
            assert(row_views(r@)[i as int] == screen(self@)[i as int]);
            assert(row_views(r@) =~= screen(self@).take(i + 1));
            i = i + 1;
        }
        r
    }

    /// Applies one key press and says what the surroundings are to do.
    pub fn handle(&mut self, key: Key) -> (a: Action)
        requires
            old(self).wf(),
        ensures
            (final(self)@, a) == next(old(self)@, key),
            final(self).wf(),
    {
        if !self.running {
            return Action::Stay;
        }
        match key {
            Key::Char(c) => {
                if c == 'q' {
                    self.running = false;
                    Action::Quit
                } else if c == 'k' {
                    if self.cursor > 0 {
                        self.cursor = self.cursor - 1;
                    }
                    Action::Stay
                } else if c == 'j' {
                    if self.projects.len() > 0 && self.cursor < self.projects.len() - 1 {
                        self.cursor = self.cursor + 1;
                    }
                    Action::Stay
                } else if c == 'i' {
                    Action::PromptInsert
                } else if c == 'd' {
                    if self.projects.len() > 0 {
                        let ghost before = self.projects@;
                        self.projects.remove(self.cursor);
                        assert(views(self.projects@) =~= views(before).remove(self.cursor as int));
                        if self.cursor >= self.projects.len() && self.cursor > 0 {
                            self.cursor = self.cursor - 1;
                        }
                    }
                    Action::Stay
                } else {
                    Action::Stay
                }
            },
            Key::Tab => {
                self.alternate = !self.alternate;
                if self.alternate {
                    Action::EnterAlternate
                } else {
                    Action::LeaveAlternate
                }
            },
            Key::Enter => {
                if self.projects.len() > 0 {
                    self.running = false;
                    Action::Open(self.cursor)
                } else {
                    Action::Stay
                }
            },
            Key::Other => Action::Stay,
        }
    }

    /// Appends a project with exactly this name and path; the cursor and the
    /// view stay as they were.
    pub fn insert_project(&mut self, name: String, path: String)
        requires
            old(self).wf(),
        ensures
            final(self)@ == appended(old(self)@, ProjectView { name: name@, path: path@ }),
            final(self).wf(),
    {
        let ghost before = self.projects@;
        self.projects.push(Project::new(name, path));
        assert(views(self.projects@) =~= views(before).push(ProjectView { name: name@, path: path@ }));
    }

    /// Appends the project answered to the two prompts: each answer has its
    /// line feeds removed and is trimmed.
    pub fn insert(&mut self, name_line: &str, path_line: &str)
        requires
            old(self).wf(),
        ensures
            final(self)@ == appended(
                old(self)@,
                ProjectView { name: cleaned(name_line@), path: cleaned(path_line@) },
            ),
            final(self).wf(),
    {
        let name = clean_input(name_line);
        let path = clean_input(path_line);
        self.insert_project(name, path);
    }
}

/// Whatever key is pressed, the cursor stays within the list.
pub proof fn lemma_next_keeps_cursor_ok(s: SessionView, key: Key)
    requires
        cursor_ok(s),
    ensures
        cursor_ok(next(s, key).0),
{
}

/// After any sequence of key presses the cursor is still within the list.
pub proof fn lemma_keys_keep_cursor_ok(s: SessionView, keys: Seq<Key>)
    requires
        cursor_ok(s),
    ensures
        cursor_ok(run_keys(s, keys)),
    decreases keys.len(),
{
    if keys.len() > 0 {
        lemma_next_keeps_cursor_ok(s, keys[0]);
        lemma_keys_keep_cursor_ok(next(s, keys[0]).0, keys.drop_first());
    }
}

/// On a non-empty list, any sequence of `j` and `k` presses leaves the list as
/// it was and the cursor between the first and the last entry.
pub proof fn lemma_moves_stay_in_range(s: SessionView, keys: Seq<Key>)
    requires
        cursor_ok(s),
        s.projects.len() > 0,
        forall|i: int| 0 <= i < keys.len() ==> #[trigger] keys[i] == Key::Char('j') || keys[i] == Key::Char('k'),
    ensures
        run_keys(s, keys).projects == s.projects,
        run_keys(s, keys).cursor < s.projects.len(),
    decreases keys.len(),
{
    if keys.len() > 0 {
        let rest = keys.drop_first();
        assert(keys[0] == Key::Char('j') || keys[0] == Key::Char('k'));
        assert forall|i: int| 0 <= i < rest.len() implies #[trigger] rest[i] == Key::Char('j') || rest[i]
            == Key::Char('k') by {
            assert(rest[i] == keys[i + 1]);
        }
        lemma_moves_stay_in_range(next(s, keys[0]).0, rest);
    }
}

/// `k` on the first entry and `j` on the last one (or on an empty list)
/// change nothing.
pub proof fn lemma_moves_stop_at_ends(s: SessionView)
    requires
        cursor_ok(s),
    ensures
        s.cursor == 0 ==> next(s, Key::Char('k')) == (s, Action::Stay),
        s.cursor + 1 >= s.projects.len() ==> next(s, Key::Char('j')) == (s, Action::Stay),
{
}

/// Deleting from a list of `n` entries removes exactly the one under the
/// cursor and leaves `n - 1`; deleting the only entry leaves an empty list with
/// the cursor at zero.
pub proof fn lemma_delete_one(s: SessionView)
    requires
        cursor_ok(s),
        s.running,
        s.projects.len() > 0,
    ensures
        next(s, Key::Char('d')).0.projects == s.projects.remove(s.cursor as int),
        next(s, Key::Char('d')).0.projects.len() == s.projects.len() - 1,
        s.projects.len() == 1 ==> next(s, Key::Char('d')).0.projects.len() == 0 && next(
            s,
            Key::Char('d'),
        ).0.cursor == 0,
        cursor_ok(next(s, Key::Char('d')).0),
{
}

proof fn lemma_no_newlines_kept(w: Seq<char>)
    requires
        forall|m: int| 0 <= m < w.len() ==> w[m] != '\n',
    ensures
        without_newlines(w) == w,
    decreases w.len(),
{
    if w.len() > 0 {
        lemma_no_newlines_kept(w.drop_last());
        assert(w.drop_last().push(w.last()) =~= w);
    }
}

proof fn lemma_trim_start_push_white(w: Seq<char>, c: char)
    requires
        is_white_space(c),
    ensures
        trim_start(w).len() == 0 ==> trim_start(w.push(c)).len() == 0,
        trim_start(w).len() > 0 ==> trim_start(w.push(c)) == trim_start(w).push(c),
    decreases w.len(),
{
    if w.len() == 0 {
        assert(w.push(c).drop_first() =~= Seq::<char>::empty());
        assert(trim_start(Seq::<char>::empty()) == Seq::<char>::empty());
    } else if is_white_space(w[0]) {
        assert(w.push(c).drop_first() =~= w.drop_first().push(c));
        lemma_trim_start_push_white(w.drop_first(), c);
    }
}

proof fn lemma_trim_ignores_final_white(w: Seq<char>, c: char)
    requires
        is_white_space(c),
    ensures
        trimmed(w.push(c)) == trimmed(w),
{
    lemma_trim_start_push_white(w, c);
    let t = trim_start(w);
    if t.len() == 0 {
        assert(trim_start(w.push(c)) =~= Seq::<char>::empty());
        assert(t =~= Seq::<char>::empty());
    } else {
        assert(t.push(c).drop_last() =~= t);
    }
}

/// A line as a prompt reads it, a line feed at most at its end, is kept as
/// exactly its trimmed text.
pub proof fn lemma_cleaned_line(l: Seq<char>)
    requires
        forall|m: int| 0 <= m < l.len() - 1 ==> l[m] != '\n',
    ensures
        cleaned(l) == trimmed(l),
{
    if l.len() > 0 && l.last() == '\n' {
        let w = l.drop_last();
        lemma_no_newlines_kept(w);
        assert(is_white_space('\n'));
        lemma_trim_ignores_final_white(w, '\n');
        assert(w.push('\n') =~= l);
    } else {
        lemma_no_newlines_kept(l);
    }
}

/// Pressing `i` changes nothing but asks for the two answers; inserting two
/// lines read from the prompts then appends exactly one project, whose name
/// and path are those lines trimmed, after all the others, wherever the
/// cursor is.
pub proof fn lemma_insert_flow(s: SessionView, name_line: Seq<char>, path_line: Seq<char>)
    requires
        cursor_ok(s),
        s.running,
        forall|m: int| 0 <= m < name_line.len() - 1 ==> name_line[m] != '\n',
        forall|m: int| 0 <= m < path_line.len() - 1 ==> path_line[m] != '\n',
    ensures
        next(s, Key::Char('i')) == (s, Action::PromptInsert),
        ({
            let t = appended(s, ProjectView { name: cleaned(name_line), path: cleaned(path_line) });
            &&& t.projects == s.projects.push(
                ProjectView { name: trimmed(name_line), path: trimmed(path_line) },
            )
            &&& t.cursor == s.cursor
            &&& t.alternate == s.alternate
            &&& cursor_ok(t)
        }),
{
    lemma_cleaned_line(name_line);
    lemma_cleaned_line(path_line);
}

/// Two presses of `Tab` bring back the session and its screen as they were;
/// in a running session, from the list view the first enters the full-screen
/// buffer and the second leaves it.
pub proof fn lemma_tab_twice(s: SessionView)
    ensures
        next(next(s, Key::Tab).0, Key::Tab).0 == s,
        screen(next(next(s, Key::Tab).0, Key::Tab).0) == screen(s),
        s.running && !s.alternate ==> next(s, Key::Tab).1 == Action::EnterAlternate && next(
            next(s, Key::Tab).0,
            Key::Tab,
        ).1 == Action::LeaveAlternate,
{
}

} // verus!
