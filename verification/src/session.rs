//! The sessions and projects of a database.

use crate::time::Timestamp;
use crate::{order, paths, text, time};
use std::path::Path;
use vstd::prelude::*;

verus! {

/// The row of one session.
pub const SESSION_SQL: &'static str = "SELECT id, project_id, title, directory, time_created, time_updated FROM session WHERE id = ?1";

/// The rows of the sessions that have a directory, the latest updated first.
pub const SESSIONS_SQL: &'static str = "SELECT id, project_id, title, directory, time_created, time_updated FROM session WHERE directory IS NOT NULL AND directory != '' ORDER BY time_updated DESC";

/// The row of one project.
pub const PROJECT_SQL: &'static str = "SELECT name, worktree FROM project WHERE id = ?1";

/// The worktree of one project.
pub const WORKTREE_SQL: &'static str = "SELECT worktree FROM project WHERE id = ?1";

/// A row of the `session` table.
#[derive(Debug, Clone, PartialEq, Eq)]
pub struct SessionRow {
    pub id: String,
    pub project_id: String,
    pub title: String,
    pub directory: Option<String>,
    pub time_created: i64,
    pub time_updated: i64,
}

/// A row of the `project` table. A column that was not asked for, or that holds no text, stands
/// as `None`.
#[derive(Debug, Clone, PartialEq, Eq)]
pub struct ProjectRow {
    pub name: Option<String>,
    pub worktree: Option<String>,
}

/// Metadata for a single Opencode session as stored in the `session` table.
#[derive(Debug, Clone, PartialEq, Eq)]
pub struct OpencodeSession {
    pub id: String,
    pub project_id: String,
    pub title: String,
    pub directory: Option<String>,
    pub created_at: Timestamp,
    pub updated_at: Timestamp,
    /// The path that this session is known by outside this library.
    pub session_file: String,
}

/// What a `SessionRow` stands for.
pub struct SessionRowView {
    pub id: Seq<char>,
    pub project_id: Seq<char>,
    pub title: Seq<char>,
    pub directory: Option<Seq<char>>,
    pub time_created: i64,
    pub time_updated: i64,
}

/// What an `OpencodeSession` stands for.
pub struct SessionView {
    pub id: Seq<char>,
    pub project_id: Seq<char>,
    pub title: Seq<char>,
    pub directory: Option<Seq<char>>,
    pub created_at: Timestamp,
    pub updated_at: Timestamp,
    pub session_file: Seq<char>,
}

impl DeepView for SessionRow {
    type V = SessionRowView;

    open spec fn deep_view(&self) -> SessionRowView {
        SessionRowView {
            id: self.id@,
            project_id: self.project_id@,
            title: self.title@,
            directory: self.directory.deep_view(),
            time_created: self.time_created,
            time_updated: self.time_updated,
        }
    }
}

impl DeepView for OpencodeSession {
    type V = SessionView;

    open spec fn deep_view(&self) -> SessionView {
        SessionView {
            id: self.id@,
            project_id: self.project_id@,
            title: self.title@,
            directory: self.directory.deep_view(),
            created_at: self.created_at,
            updated_at: self.updated_at,
            session_file: self.session_file@,
        }
    }
}

/// A text, unless it is empty.
pub open spec fn unless_empty(text: Option<Seq<char>>) -> Option<Seq<char>> {
    if text is Some && text->0.len() > 0 {
        text
    } else {
        None
    }
}

/// The session that a row of the database `db_path` describes, created and updated at the
/// given instants.
pub open spec fn session_at(
    row: SessionRowView,
    db_path: Seq<char>,
    created_at: Timestamp,
    updated_at: Timestamp,
) -> SessionView {
    SessionView {
        id: row.id,
        project_id: row.project_id,
        title: row.title,
        directory: unless_empty(row.directory),
        created_at,
        updated_at,
        session_file: paths::session_path(db_path, row.id),
    }
}

/// `session` is the one that a row of the database `db_path` describes. An instant that the
/// row does not fix is one of the clock's.
pub open spec fn describes(session: SessionView, row: SessionRowView, db_path: Seq<char>) -> bool {
    &&& session == session_at(row, db_path, session.created_at, session.updated_at)
    &&& time::settles(session.created_at, time::instant_of_millis(row.time_created as int))
    &&& time::settles(
        session.updated_at,
        time::fixed_instant(Some(row.time_updated), row.time_created),
    )
}

impl OpencodeSession {
    /// The session that a row of the database `db_path` describes. `now` stands in for an
    /// instant that the row does not fix.
    pub fn from_row_at(row: SessionRow, db_path: &str, now: Timestamp) -> (session: Self)
        ensures
            session.deep_view() == session_at(
                row.deep_view(),
                db_path@,
                time::instant_or(time::instant_of_millis(row.time_created as int), now),
                time::instant_or(time::fixed_instant(Some(row.time_updated), row.time_created), now),
            ),
    {
        let created_at = match time::millis_to_datetime(row.time_created) {
            Some(instant) => instant,
            None => now,
        };
        let updated_at = match time::recorded_instant(Some(row.time_updated), row.time_created) {
            Some(instant) => instant,
            None => now,
        };
        let session_file = paths::synthetic_session_path(db_path, row.id.as_str());
        let directory = match row.directory {
            Some(directory) if !directory.as_str().is_empty() => Some(directory),
            _ => None,
        };
        OpencodeSession {
            id: row.id,
            project_id: row.project_id,
            title: row.title,
            directory,
            created_at,
            updated_at,
            session_file,
        }
    }

    /// The session that a row of the database `db_path` describes.
    pub fn from_row(row: SessionRow, db_path: &str) -> (session: Self)
        ensures
            describes(session.deep_view(), row.deep_view(), db_path@),
    {
        let now = time::instant_or_now(time::millis_to_datetime(row.time_created));
        Self::from_row_at(row, db_path, now)
    }

    /// The session of the database `db_path` whose row a lookup by `SESSION_SQL` has found.
    pub fn from_db(db_path: &str, row: Option<SessionRow>) -> (session: Option<Self>)
        ensures
            match session {
                Some(session) => row is Some && describes(
                    session.deep_view(),
                    row->0.deep_view(),
                    db_path@,
                ),
                None => row is None,
            },
    {
        match row {
            Some(row) => Some(Self::from_row(row, db_path)),
            None => None,
        }
    }

    /// Resolves a session from its path and the row that a lookup of the path's session in the
    /// path's database has found.
    pub fn from_file(path: &str, row: Option<SessionRow>) -> (session: Option<Self>)
        ensures
            match session {
                Some(session) => {
                    &&& row is Some
                    &&& exists|db_path: Seq<char>, session_id: Seq<char>|
                        {
                            &&& #[trigger] paths::is_path_of(path@, db_path, session_id)
                            &&& describes(session.deep_view(), row->0.deep_view(), db_path)
                        }
                },
                None => row is None || forall|db_path: Seq<char>, session_id: Seq<char>|
                    !paths::is_path_of(path@, db_path, session_id),
            },
    {
        match paths::parse_session_path(path) {
            Some(parsed) => Self::from_db(parsed.0.as_str(), row),
            None => None,
        }
    }
}

/// The row is that of a session with a directory.
pub open spec fn has_directory(row: Option<SessionRowView>) -> bool {
    row is Some && unless_empty(row->0.directory) is Some
}

/// The sessions of the database `db_path` that the rows of `SESSIONS_SQL` describe, in the
/// order of the rows. A row that could not be read stands as `None` and is left out.
///
/// Sessions whose directory is empty are skipped: they hold state that Opencode keeps for
/// itself.
pub fn list_sessions(rows: Vec<Option<SessionRow>>, db_path: &str) -> (sessions: Vec<
    OpencodeSession,
>)
    ensures
        sessions.len() == listed(rows.deep_view()).len(),
        forall|i: int|
            0 <= i < sessions.len() ==> describes(
                #[trigger] sessions.deep_view()[i],
                listed(rows.deep_view())[i],
                db_path@,
            ),
{
    let mut sessions: Vec<OpencodeSession> = Vec::new();
    let ghost all = rows.deep_view();
    for row in it: rows
        invariant
            all == rows.deep_view(),
            it.seq() == rows@,
            sessions.len() == listed(all.take(it.index() as int)).len(),
            forall|i: int|
                0 <= i < sessions.len() ==> describes(
                    #[trigger] sessions.deep_view()[i],
                    listed(all.take(it.index() as int))[i],
                    db_path@,
                ),
    {
        let ghost before = sessions.deep_view();
        proof {
            assert(all[it.index() as int] == row.deep_view());
            all.lemma_filter_map_take_succ(
                |row: Option<SessionRowView>|
                    if has_directory(row) {
                        row
                    } else {
                        None
                    },
                it.index() as int,
            );
        }
        if let Some(row) = row {
            let skipped = match &row.directory {
                Some(directory) => directory.as_str().is_empty(),
                None => true,
            };
            if !skipped {
                let session = OpencodeSession::from_row(row, db_path);
                sessions.push(session);
                assert(sessions.deep_view() =~= before.push(session.deep_view()));
            }
        }
    }
    assert(all.take(all.len() as int) == all);
    sessions
}

/// The rows of the sessions with a directory, in their order.
pub open spec fn listed(rows: Seq<Option<SessionRowView>>) -> Seq<SessionRowView> {
    rows.filter_map(
        |row: Option<SessionRowView>|
            if has_directory(row) {
                row
            } else {
                None
            },
    )
}

/// Without the slashes at its end and the components `.` there, which name nothing of their
/// own.
pub open spec fn without_idle_end(path: Seq<char>) -> Seq<char>
    decreases path.len(),
{
    if path.len() > 0 && path.last() == '/' {
        without_idle_end(path.drop_last())
    } else if path.len() > 1 && path.last() == '.' && path[path.len() - 2] == '/' {
        without_idle_end(path.drop_last())
    } else {
        path
    }
}

/// Nothing but slashes.
pub open spec fn all_slashes(path: Seq<char>) -> bool {
    forall|i: int| 0 <= i < path.len() ==> #[trigger] path[i] == '/'
}

/// What stands behind the last slash, or all of it if there is none.
pub open spec fn after_last_slash(path: Seq<char>) -> Seq<char>
    decreases path.len(),
{
    if path.len() == 0 || path.last() == '/' {
        Seq::empty()
    } else {
        after_last_slash(path.drop_last()).push(path.last())
    }
}

/// A name that no system takes apart, unless it begins a path.
pub open spec fn is_plain_name(name: Seq<char>) -> bool {
    &&& name.len() > 0
    &&& name != "."@
    &&& name != ".."@
    &&& !name.contains('/')
    &&& !name.contains('\\')
}

/// A path that begins with two separators. Some systems read such a path by other rules.
pub open spec fn has_double_start(path: Seq<char>) -> bool {
    &&& path.len() > 1
    &&& path[0] == '/' || path[0] == '\\'
    &&& path[1] == '/' || path[1] == '\\'
}

/// A letter and a colon begin the text, as in `C:`. At the start of a path some systems take
/// them for the name of a drive.
pub open spec fn has_drive_start(text: Seq<char>) -> bool {
    &&& text.len() > 1
    &&& 'a' <= text[0] <= 'z' || 'A' <= text[0] <= 'Z'
    &&& text[1] == ':'
}

/// The last component of `path` is `end` on every system: a plain name that is not also the
/// first component with a drive in it.
pub open spec fn ends_plainly(path: Seq<char>, end: Seq<char>) -> bool {
    let named = without_idle_end(path);
    &&& end == after_last_slash(named)
    &&& is_plain_name(end)
    &&& end == named ==> !has_drive_start(named)
}

/// `name` can be the last component of `path`, the directory's or file's own name: a non-empty
/// piece of the path. A path that is all slashes has none.
///
/// Unless the path begins with two separators, the name holds no slash. Slashes and components
/// `.` at the end of the path do not count: if a plain name stands before them, it is the last
/// component, save where a drive begins it and the path, and if `..` or nothing does, there is
/// none.
pub open spec fn can_end(path: Seq<char>, name: Option<Seq<char>>) -> bool {
    let end = after_last_slash(without_idle_end(path));
    &&& name is Some ==> name->0.len() > 0 && text::is_infix(name->0, path)
    &&& all_slashes(path) ==> name is None
    &&& !has_double_start(path) ==> {
        &&& name is Some ==> !name->0.contains('/')
        &&& ends_plainly(path, end) ==> name == Some(end)
        &&& end.len() == 0 || end == "."@ || end == ".."@ ==> name is None
    }
}

/// Calls `std::path::Path::file_name` and turns the name into a string.
///
/// What is claimed of it is `can_end`. Which name it is of a path that begins with two
/// separators, or whose end holds a backslash, or whose end is all of it and begins with a
/// drive, rests on the system that the path is for.
#[verifier::external_body]
fn file_name(path: &str) -> (name: Option<String>)
    ensures
        can_end(path@, name.deep_view()),
{
    let name = Path::new(path).file_name();
    name.and_then(|n| n.to_str()).map(|n| n.to_string())
}

/// The label of a project: its name if it has one, else the last component of its worktree,
/// else the worktree itself.
pub open spec fn label_of(
    name: Option<Seq<char>>,
    worktree: Option<Seq<char>>,
    base: Option<Seq<char>>,
) -> Option<Seq<char>> {
    if unless_empty(name) is Some {
        name
    } else if worktree is Some && unless_empty(base) is Some {
        base
    } else {
        worktree
    }
}

/// The label of a project whose worktree has `base` as its last component.
pub fn project_label(row: ProjectRow, base: Option<String>) -> (label: Option<String>)
    ensures
        label.deep_view() == label_of(
            row.name.deep_view(),
            row.worktree.deep_view(),
            base.deep_view(),
        ),
{
    if let Some(name) = row.name {
        if !name.as_str().is_empty() {
            return Some(name);
        }
    }
    let worktree = row.worktree?;
    if let Some(base) = base {
        if !base.as_str().is_empty() {
            return Some(base);
        }
    }
    Some(worktree)
}

/// Looks up a project's display label.
///
/// Returns the project's name when set, otherwise the basename of the worktree path,
/// otherwise the raw worktree.
pub fn read_project_label(row: ProjectRow) -> (label: Option<String>)
    ensures
        unless_empty(row.name.deep_view()) is Some ==> label.deep_view() == row.name.deep_view(),
        unless_empty(row.name.deep_view()) is None && row.worktree is None ==> label is None,
        unless_empty(row.name.deep_view()) is None && row.worktree is Some ==> exists|
            base: Option<Seq<char>>,
        |
            {
                &&& #[trigger] can_end(row.worktree.deep_view()->0, base)
                &&& label.deep_view() == label_of(None, row.worktree.deep_view(), base)
            },
{
    let base = match &row.worktree {
        Some(worktree) => file_name(worktree.as_str()),
        None => None,
    };
    assert(row.worktree is Some ==> can_end(row.worktree.deep_view()->0, base.deep_view()));
    project_label(row, base)
}

/// Reads the worktree path of a project, the directory to resume its sessions in.
pub fn read_project_worktree(row: ProjectRow) -> (worktree: Option<String>)
    ensures
        worktree == row.worktree,
{
    row.worktree
}

/// A project without a name whose worktree ends in a plain name is labelled with that name.
pub proof fn law_label_is_basename(worktree: Seq<char>, end: Seq<char>, base: Option<Seq<char>>)
    requires
        can_end(worktree, base),
        !has_double_start(worktree),
        ends_plainly(worktree, end),
    ensures
        label_of(None, Some(worktree), base) == Some(end),
{
}

/// The path of a session gives back the database and the id that it was read from, if the
/// database's file is named as Opencode's and the id holds no separator.
pub proof fn law_session_file_names_session(
    session: SessionView,
    row: SessionRowView,
    db_path: Seq<char>,
)
    requires
        describes(session, row, db_path),
        paths::is_database(db_path),
        !row.id.contains(paths::PATH_FRAGMENT_SEP),
    ensures
        paths::is_path_of(session.session_file, db_path, row.id),
{
    paths::law_session_path_round_trip(db_path, row.id);
}

/// A session that is resolved from a path is known by that path.
pub proof fn law_resolved_session_keeps_its_path(
    path: Seq<char>,
    db_path: Seq<char>,
    session: SessionView,
    row: SessionRowView,
)
    requires
        paths::is_path_of(path, db_path, row.id),
        describes(session, row, db_path),
    ensures
        session.session_file == path,
{
}

/// Every listed session has a directory and is described by one of the rows.
pub proof fn law_listed_sessions_have_directories(rows: Seq<Option<SessionRowView>>, i: int)
    requires
        0 <= i < listed(rows).len(),
    ensures
        listed(rows)[i].directory is Some,
        listed(rows)[i].directory->0.len() > 0,
        rows.contains(Some(listed(rows)[i])),
{
    let f = |row: Option<SessionRowView>|
        if has_directory(row) {
            row
        } else {
            None
        };
    assert(listed(rows).contains(listed(rows)[i]));
    rows.lemma_filter_map_contains(f, listed(rows)[i]);
}

/// Every row of a session with a directory is listed.
pub proof fn law_sessions_with_directories_are_listed(
    rows: Seq<Option<SessionRowView>>,
    row: SessionRowView,
)
    requires
        rows.contains(Some(row)),
        has_directory(Some(row)),
    ensures
        listed(rows).contains(row),
    decreases rows.len(),
{
    let init = rows.drop_last();
    let at = choose|at: int| 0 <= at < rows.len() && rows[at] == Some(row);
    if at == rows.len() - 1 {
        assert(listed(rows).last() == row);
    } else {
        assert(init[at] == Some(row));
        law_sessions_with_directories_are_listed(init, row);
        let k = choose|k: int| 0 <= k < listed(init).len() && listed(init)[k] == row;
        assert(listed(rows)[k] == row);
    }
}

/// A session and its row stand for all that they hold.
pub proof fn law_sessions_stand_for_all_they_hold(row: SessionRow, session: OpencodeSession)
    ensures
        row.deep_view().id == row.id@,
        row.deep_view().project_id == row.project_id@,
        row.deep_view().title == row.title@,
        row.deep_view().directory == row.directory.deep_view(),
        row.deep_view().time_created == row.time_created,
        row.deep_view().time_updated == row.time_updated,
        session.deep_view().id == session.id@,
        session.deep_view().project_id == session.project_id@,
        session.deep_view().title == session.title@,
        session.deep_view().directory == session.directory.deep_view(),
        session.deep_view().created_at == session.created_at,
        session.deep_view().updated_at == session.updated_at,
        session.deep_view().session_file == session.session_file@,
{
}

/// A session has the columns of its row and the given instants. A directory counts unless it is
/// empty, and the session's path is that of its id in the database.
pub proof fn law_sessions_have_the_columns_of_their_rows(
    row: SessionRowView,
    db_path: Seq<char>,
    created_at: Timestamp,
    updated_at: Timestamp,
)
    ensures
        session_at(row, db_path, created_at, updated_at).id == row.id,
        session_at(row, db_path, created_at, updated_at).project_id == row.project_id,
        session_at(row, db_path, created_at, updated_at).title == row.title,
        row.directory != Some(Seq::<char>::empty()) ==> session_at(
            row,
            db_path,
            created_at,
            updated_at,
        ).directory == row.directory,
        row.directory == Some(Seq::<char>::empty()) ==> session_at(
            row,
            db_path,
            created_at,
            updated_at,
        ).directory is None,
        session_at(row, db_path, created_at, updated_at).created_at == created_at,
        session_at(row, db_path, created_at, updated_at).updated_at == updated_at,
        session_at(row, db_path, created_at, updated_at).session_file == db_path + "#"@ + row.id,
{
    paths::law_session_path_is_joined(db_path, row.id);
    if row.directory is Some && row.directory->0.len() == 0 {
        assert(row.directory->0 =~= Seq::<char>::empty());
    }
}

/// A session that a row describes has the row's columns. It was created when the row says, if
/// that is an instant, and updated when the row says or, if that is none, when it was created.
pub proof fn law_described_sessions_say_what_their_rows_say(
    session: SessionView,
    row: SessionRowView,
    db_path: Seq<char>,
)
    requires
        describes(session, row, db_path),
    ensures
        session.id == row.id,
        session.project_id == row.project_id,
        session.title == row.title,
        row.directory != Some(Seq::<char>::empty()) ==> session.directory == row.directory,
        row.directory == Some(Seq::<char>::empty()) ==> session.directory is None,
        session.session_file == db_path + "#"@ + row.id,
        time::instant_of_millis(row.time_created as int) matches Some(t) ==> session.created_at
            == t,
        time::instant_of_millis(row.time_updated as int) matches Some(t) ==> session.updated_at
            == t,
        time::instant_of_millis(row.time_updated as int) is None ==> (time::instant_of_millis(
            row.time_created as int,
        ) matches Some(t) ==> session.updated_at == t),
        session.created_at.valid(),
        session.updated_at.valid(),
{
    law_sessions_have_the_columns_of_their_rows(
        row,
        db_path,
        session.created_at,
        session.updated_at,
    );
}

/// The list keeps the order and the count of the rows: the positions of the listed rows rise,
/// and they are exactly those of the rows with a directory that is not empty.
pub proof fn law_list_keeps_the_order_of_the_rows(rows: Seq<Option<SessionRowView>>) -> (at: Seq<
    int,
>)
    ensures
        at.len() == listed(rows).len(),
        forall|i: int|
            0 <= i < at.len() ==> 0 <= #[trigger] at[i] < rows.len() && rows[at[i]] == Some(
                listed(rows)[i],
            ),
        forall|i: int, j: int| 0 <= i < j < at.len() ==> #[trigger] at[i] < #[trigger] at[j],
        forall|k: int|
            0 <= k < rows.len() ==> (at.contains(k) <==> (#[trigger] rows[k] is Some
                && rows[k]->0.directory is Some && rows[k]->0.directory->0.len() > 0)),
{
    let f = |row: Option<SessionRowView>|
        if has_directory(row) {
            row
        } else {
            None
        };
    let at = order::lemma_selected_positions(rows, f);
    assert forall|k: int| 0 <= k < rows.len() implies (at.contains(k) <==> (#[trigger] rows[k]
        is Some && rows[k]->0.directory is Some && rows[k]->0.directory->0.len() > 0)) by {
        if at.contains(k) {
            let i = choose|i: int| 0 <= i < at.len() && at[i] == k;
            assert(f(rows[at[i]]) is Some);
        }
        if has_directory(rows[k]) {
            assert(f(rows[k]) is Some);
        }
    }
    at
}

/// From rows of which none was updated after the ones before it, the sessions come the latest
/// updated first, as far as the rows fix when they were updated.
pub proof fn law_latest_updated_sessions_come_first(
    rows: Seq<Option<SessionRowView>>,
    sessions: Seq<SessionView>,
    db_path: Seq<char>,
    i: int,
    j: int,
)
    requires
        sessions.len() == listed(rows).len(),
        forall|k: int|
            0 <= k < sessions.len() ==> describes(#[trigger] sessions[k], listed(rows)[k], db_path),
        forall|a: int, b: int|
            0 <= a < b < rows.len() && #[trigger] rows[a] is Some && #[trigger] rows[b] is Some
                ==> rows[a]->0.time_updated >= rows[b]->0.time_updated,
        0 <= i < j < sessions.len(),
        time::instant_of_millis(listed(rows)[i].time_updated as int) is Some,
        time::instant_of_millis(listed(rows)[j].time_updated as int) is Some,
    ensures
        sessions[i].updated_at.total_nanos() >= sessions[j].updated_at.total_nanos(),
{
    let at = law_list_keeps_the_order_of_the_rows(rows);
    let a = listed(rows)[i];
    let b = listed(rows)[j];
    assert(rows[at[i]] == Some(a) && rows[at[j]] == Some(b));
    assert(at[i] < at[j]);
    law_described_sessions_say_what_their_rows_say(sessions[i], a, db_path);
    law_described_sessions_say_what_their_rows_say(sessions[j], b, db_path);
    time::law_millis_order(a.time_updated, b.time_updated);
}

/// The label of a project is its name unless that is missing or empty, else the last component
/// of its worktree unless that is missing or empty, else the worktree.
pub proof fn law_labels_prefer_the_name(
    name: Option<Seq<char>>,
    worktree: Option<Seq<char>>,
    base: Option<Seq<char>>,
)
    ensures
        name is Some && name->0.len() > 0 ==> label_of(name, worktree, base) == name,
        name is None || name->0.len() == 0 ==> {
            &&& worktree is None ==> label_of(name, worktree, base) is None
            &&& worktree is Some && base is Some && base->0.len() > 0 ==> label_of(
                name,
                worktree,
                base,
            ) == base
            &&& worktree is Some && (base is None || base->0.len() == 0) ==> label_of(
                name,
                worktree,
                base,
            ) == worktree
        },
{
}

proof fn lemma_idle_end(path: Seq<char>, tail: Seq<char>)
    requires
        forall|i: int|
            0 <= i < tail.len() ==> #[trigger] tail[i] == '/' || (tail[i] == '.' && i > 0 && tail[i
                - 1] == '/'),
    ensures
        without_idle_end(path + tail) == without_idle_end(path),
    decreases tail.len(),
{
    if tail.len() == 0 {
        assert(path + tail =~= path);
    } else {
        let whole = path + tail;
        let fewer = tail.drop_last();
        assert forall|i: int| 0 <= i < fewer.len() implies #[trigger] fewer[i] == '/' || (fewer[i]
            == '.' && i > 0 && fewer[i - 1] == '/') by {
            assert(fewer[i] == tail[i]);
        }
        assert(whole.drop_last() =~= path + fewer);
        assert(whole.last() == tail[tail.len() - 1]);
        if tail.last() == '.' {
            assert(whole[whole.len() - 2] == tail[tail.len() - 2]);
        }
        lemma_idle_end(path, fewer);
    }
}

proof fn lemma_behind_slash(before: Seq<char>, name: Seq<char>)
    requires
        before.len() == 0 || before.last() == '/',
        !name.contains('/'),
    ensures
        after_last_slash(before + name) == name,
    decreases name.len(),
{
    if name.len() == 0 {
        assert(before + name =~= before);
        assert(name =~= Seq::<char>::empty());
    } else {
        let whole = before + name;
        let fewer = name.drop_last();
        assert(name[name.len() - 1] != '/');
        assert forall|i: int| 0 <= i < fewer.len() implies fewer[i] != '/' by {
            assert(name[i] == fewer[i]);
        }
        lemma_behind_slash(before, fewer);
        assert(whole.drop_last() =~= before + fewer);
        assert(fewer.push(name.last()) =~= name);
    }
}

/// The last component of a path is what stands behind its last slash, in any directory and
/// whatever slashes and components `.` follow. Behind `..` there is none.
pub proof fn law_last_components_are_names(
    directory: Seq<char>,
    name: Seq<char>,
    tail: Seq<char>,
    base: Option<Seq<char>>,
)
    requires
        directory.len() > 0,
        directory.last() == '/',
        name.len() > 0,
        !name.contains('/'),
        !name.contains('\\'),
        name != "."@,
        forall|i: int|
            0 <= i < tail.len() ==> #[trigger] tail[i] == '/' || (tail[i] == '.' && i > 0 && tail[i
                - 1] == '/'),
        !((directory[0] == '/' || directory[0] == '\\') && (directory + name)[1] == '/'),
        !((directory[0] == '/' || directory[0] == '\\') && (directory + name)[1] == '\\'),
        can_end(directory + name + tail, base),
    ensures
        name != ".."@ ==> base == Some(name),
        name == ".."@ ==> base is None,
        base is Some ==> label_of(None, Some(directory + name + tail), base) == Some(name),
{
    reveal_strlit(".");
    reveal_strlit("..");
    let path = directory + name;
    let whole = path + tail;
    lemma_idle_end(path, tail);
    lemma_behind_slash(directory, name);
    assert(path.last() == name[name.len() - 1]);
    if name.last() == '.' && path[path.len() - 2] == '/' {
        if name.len() > 1 {
            assert(path[path.len() - 2] == name[name.len() - 2]);
        }
        assert(name =~= "."@);
    }
    assert(without_idle_end(path) == path);
    assert(whole[0] == directory[0]);
    assert(whole[1] == path[1]);
    assert(path.len() > name.len());
    if name != ".."@ {
        assert(ends_plainly(whole, name));
    }
}

/// A path of slashes alone, or of nothing, has no last component, and its project is labelled
/// with the path itself.
pub proof fn law_roots_have_no_names(path: Seq<char>, base: Option<Seq<char>>)
    requires
        forall|i: int| 0 <= i < path.len() ==> #[trigger] path[i] == '/',
        can_end(path, base),
    ensures
        base is None,
        label_of(None, Some(path), base) == Some(path),
{
}

/// One session or project is asked for by its id. All sessions are asked for if they have a
/// directory, the latest updated first.
pub proof fn law_sessions_are_asked_for_by_time()
    ensures
        text::ends_with(
            SESSION_SQL@,
            " FROM session WHERE id = ?1"@,
        ),
        text::ends_with(
            SESSIONS_SQL@,
            " FROM session WHERE directory IS NOT NULL AND directory != '' ORDER BY time_updated DESC"@,
        ),
        text::ends_with(
            PROJECT_SQL@,
            "SELECT name, worktree FROM project WHERE id = ?1"@,
        ),
        text::ends_with(
            WORKTREE_SQL@,
            "SELECT worktree FROM project WHERE id = ?1"@,
        ),
{
    reveal_strlit(
        "SELECT id, project_id, title, directory, time_created, time_updated FROM session WHERE id = ?1",
    );
    reveal_strlit(" FROM session WHERE id = ?1");
    assert(SESSION_SQL@.len() == 94 && " FROM session WHERE id = ?1"@.len() == 27);
    assert(SESSION_SQL@.subrange(67, 94) =~= " FROM session WHERE id = ?1"@);
    reveal_strlit(
        "SELECT id, project_id, title, directory, time_created, time_updated FROM session WHERE directory IS NOT NULL AND directory != '' ORDER BY time_updated DESC",
    );
    reveal_strlit(" FROM session WHERE directory IS NOT NULL AND directory != '' ORDER BY time_updated DESC");
    assert(SESSIONS_SQL@.len() == 155 && " FROM session WHERE directory IS NOT NULL AND directory != '' ORDER BY time_updated DESC"@.len() == 88);
    assert(SESSIONS_SQL@.subrange(67, 155) =~= " FROM session WHERE directory IS NOT NULL AND directory != '' ORDER BY time_updated DESC"@);
    reveal_strlit(
        "SELECT name, worktree FROM project WHERE id = ?1",
    );
    reveal_strlit("SELECT name, worktree FROM project WHERE id = ?1");
    assert(PROJECT_SQL@.len() == 48 && "SELECT name, worktree FROM project WHERE id = ?1"@.len() == 48);
    assert(PROJECT_SQL@.subrange(0, 48) =~= "SELECT name, worktree FROM project WHERE id = ?1"@);
    reveal_strlit(
        "SELECT worktree FROM project WHERE id = ?1",
    );
    reveal_strlit("SELECT worktree FROM project WHERE id = ?1");
    assert(WORKTREE_SQL@.len() == 42 && "SELECT worktree FROM project WHERE id = ?1"@.len() == 42);
    assert(WORKTREE_SQL@.subrange(0, 42) =~= "SELECT worktree FROM project WHERE id = ?1"@);
}

/// A path without a slash before its end is its own last component, whatever slashes and
/// components `.` follow, unless it begins with a drive or is `.` or `..`, which name nothing.
pub proof fn law_bare_names_are_last_components(
    name: Seq<char>,
    tail: Seq<char>,
    base: Option<Seq<char>>,
)
    requires
        name.len() > 0,
        !name.contains('/'),
        !name.contains('\\'),
        !(name.len() > 1 && name[1] == ':' && ('a' <= name[0] <= 'z' || 'A' <= name[0] <= 'Z')),
        forall|i: int|
            0 <= i < tail.len() ==> #[trigger] tail[i] == '/' || (tail[i] == '.' && i > 0 && tail[i
                - 1] == '/'),
        can_end(name + tail, base),
    ensures
        name != "."@ && name != ".."@ ==> base == Some(name),
        name == "."@ || name == ".."@ ==> base is None,
{
    let nothing = Seq::<char>::empty();
    let whole = name + tail;
    lemma_idle_end(name, tail);
    lemma_behind_slash(nothing, name);
    assert(nothing + name =~= name);
    assert(name[name.len() - 1] != '/');
    if name.len() > 1 {
        assert(name[name.len() - 2] != '/');
    }
    assert(without_idle_end(name) == name);
    assert(whole[0] == name[0]);
    assert(name[0] != '/' && name[0] != '\\');
    if name != "."@ && name != ".."@ {
        assert(ends_plainly(whole, name));
    }
}

} // verus!
