//! Where Opencode keeps its database, and the paths that name its sessions.
//!
//! Outside this library a session is known by `<opencode_home>/opencode.db#<session_id>`.

use crate::text;
use vstd::prelude::*;

verus! {

/// The name of the database file.
pub const DB_FILENAME: &'static str = "opencode.db";

/// What stands between the database and the session in the path of a session.
pub const PATH_FRAGMENT_SEP: char = '#';

/// Where Opencode keeps its data below the home directory on Linux.
pub const XDG_DATA_DIR: &'static str = ".local/share/opencode";

/// Where Opencode keeps its data below the home directory on macOS.
pub const MACOS_SUPPORT_DIR: &'static str = "Library/Application Support/opencode";

/// The environment variable that names another place for the data.
pub const DATA_DIR_VARIABLE: &'static str = "OPENCODE_DATA";

/// A path, and whether anything exists there.
#[derive(Debug, Clone, PartialEq, Eq)]
pub struct Candidate<P> {
    pub path: P,
    pub exists: bool,
}

/// Something is there.
pub open spec fn found<P>(candidate: Option<Candidate<P>>) -> bool {
    candidate is Some && candidate->0.exists
}

/// Resolves the Opencode "home" directory, the parent of the database.
///
/// The place that `DATA_DIR_VARIABLE` names comes first, if it exists. Then comes
/// `XDG_DATA_DIR` and last `MACOS_SUPPORT_DIR`, which are `None` if there is no home directory.
pub fn opencode_storage_root<P>(
    custom: Option<Candidate<P>>,
    xdg: Option<Candidate<P>>,
    macos: Option<Candidate<P>>,
) -> (root: Option<P>)
    ensures
        root == if found(custom) {
            Some(custom->0.path)
        } else if found(xdg) {
            Some(xdg->0.path)
        } else if found(macos) {
            Some(macos->0.path)
        } else {
            None
        },
{
    if let Some(custom) = custom {
        if custom.exists {
            return Some(custom.path);
        }
    }
    if let Some(xdg) = xdg {
        if xdg.exists {
            return Some(xdg.path);
        }
    }
    if let Some(macos) = macos {
        if macos.exists {
            return Some(macos.path);
        }
    }
    None
}

/// The path of the database: `DB_FILENAME` in the home directory, if there is such a directory
/// and the file exists.
pub fn opencode_database_path<P>(database: Option<Candidate<P>>) -> (path: Option<P>)
    ensures
        path == if found(database) {
            Some(database->0.path)
        } else {
            None
        },
{
    match database {
        Some(database) if database.exists => Some(database.path),
        _ => None,
    }
}

/// A path with `/` for each `\`.
pub open spec fn normalized(path: Seq<char>) -> Seq<char> {
    path.map_values(
        |ch: char|
            if ch == '\\' {
                '/'
            } else {
                ch
            },
    )
}

/// The path names the Opencode database or one of its sessions.
pub open spec fn names_database(path: Seq<char>) -> bool {
    text::is_infix("/opencode.db"@, normalized(path))
}

/// True when `path` looks like the path of a session
/// (`<root>/opencode.db#<session_id>` or just `<root>/opencode.db`).
pub fn is_opencode_session_path(path: &str) -> (yes: bool)
    ensures
        yes == names_database(path@),
{
    let mut chars: Vec<char> = Vec::new();
    for ch in it: path.chars()
        invariant
            it.seq() == path@,
            chars@ == normalized(path@.take(it.index() as int)),
    {
        assert(normalized(path@.take(it.index() + 1)) =~= normalized(
            path@.take(it.index() as int),
        ).push(if ch == '\\' { '/' } else { ch }));
        chars.push(
            if ch == '\\' {
                '/'
            } else {
                ch
            },
        );
    }
    assert(path@.take(path@.len() as int) == path@);
    text::contains(&chars, &text::chars_of("/opencode.db"))
}

/// The path of a session.
pub open spec fn session_path(db_path: Seq<char>, session_id: Seq<char>) -> Seq<char> {
    db_path.push(PATH_FRAGMENT_SEP) + session_id
}

/// Builds the path that a session is known by.
pub fn synthetic_session_path(db_path: &str, session_id: &str) -> (path: String)
    ensures
        path@ == session_path(db_path@, session_id@),
{
    let mut path = db_path.to_owned();
    path.push(PATH_FRAGMENT_SEP);
    path.append(session_id);
    path
}

/// A separator of the components of a path.
pub open spec fn is_separator(ch: char) -> bool {
    ch == '/' || ch == '\\'
}

/// The file that `db_path` names is `DB_FILENAME`, in any directory.
pub open spec fn is_database(db_path: Seq<char>) -> bool {
    ||| db_path == DB_FILENAME@
    ||| {
        &&& text::ends_with(db_path, DB_FILENAME@)
        &&& db_path.len() > DB_FILENAME@.len()
        &&& is_separator(db_path[db_path.len() - DB_FILENAME@.len() - 1])
    }
}

/// Whether the file that `db_path` names is `DB_FILENAME`.
fn names_db_file(db_path: &str) -> (yes: bool)
    ensures
        yes == is_database(db_path@),
{
    let path = text::chars_of(db_path);
    let file_name = text::chars_of(DB_FILENAME);
    if file_name.len() > path.len() {
        return false;
    }
    let start = path.len() - file_name.len();
    assert(path@.subrange(0, path@.len() as int) =~= path@);
    if !text::matches_at(&path, &file_name, start) {
        return false;
    }
    start == 0 || path[start - 1] == '/' || path[start - 1] == '\\'
}

/// `path` is the path of the session `session_id` in the database `db_path`.
pub open spec fn is_path_of(path: Seq<char>, db_path: Seq<char>, session_id: Seq<char>) -> bool {
    &&& path == session_path(db_path, session_id)
    &&& !session_id.contains(PATH_FRAGMENT_SEP)
    &&& is_database(db_path)
}

/// Extracts the database and the session from a path that `synthetic_session_path` built.
/// Returns `None` if the path is not that of a session.
pub fn parse_session_path(path: &str) -> (parsed: Option<(String, String)>)
    ensures
        match parsed {
            Some(parsed) => {
                &&& is_path_of(path@, parsed.0@, parsed.1@)
                &&& forall|db_path: Seq<char>, session_id: Seq<char>| #[trigger]
                    is_path_of(path@, db_path, session_id) ==> db_path == parsed.0@
                        && session_id == parsed.1@
            },
            None => forall|db_path: Seq<char>, session_id: Seq<char>|
                !is_path_of(path@, db_path, session_id),
        },
{
    let chars = text::chars_of(path);
    let at = match text::last_position(&chars, PATH_FRAGMENT_SEP) {
        Some(at) => at,
        None => {
            proof {
                assert forall|db_path: Seq<char>, session_id: Seq<char>|
                    !is_path_of(path@, db_path, session_id) by {
                    assert(session_path(db_path, session_id)[db_path.len() as int]
                        == PATH_FRAGMENT_SEP);
                }
            }
            return None;
        },
    };
    let db_path = text::string_of(&chars, 0, at);
    let session_id = text::string_of(&chars, at + 1, chars.len());
    proof {
        assert(path@ =~= session_path(db_path@, session_id@));
        assert(session_id@ =~= path@.skip(at + 1));
        assert forall|db: Seq<char>, id: Seq<char>| is_path_of(path@, db, id) implies db
            == db_path@ && id == session_id@ by {
            lemma_split_unique(db, id, db_path@, session_id@);
        }
    }
    if names_db_file(db_path.as_str()) {
        Some((db_path, session_id))
    } else {
        None
    }
}

proof fn lemma_split_unique(
    db_a: Seq<char>,
    id_a: Seq<char>,
    db_b: Seq<char>,
    id_b: Seq<char>,
)
    requires
        session_path(db_a, id_a) == session_path(db_b, id_b),
        !id_a.contains(PATH_FRAGMENT_SEP),
        !id_b.contains(PATH_FRAGMENT_SEP),
    ensures
        db_a == db_b,
        id_a == id_b,
{
    let path = session_path(db_a, id_a);
    let n = db_a.len() as int;
    let m = db_b.len() as int;
    assert(path[n] == PATH_FRAGMENT_SEP);
    assert(session_path(db_b, id_b)[m] == PATH_FRAGMENT_SEP);
    assert(path.len() == n + 1 + id_a.len());
    assert(session_path(db_b, id_b).len() == m + 1 + id_b.len());
    if n < m {
        assert(id_a[m - n - 1] == path[m]);
    }
    if m < n {
        assert(id_b[n - m - 1] == session_path(db_b, id_b)[n]);
    }
    assert(db_a =~= path.take(n));
    assert(db_b =~= path.take(n));
    assert(id_a =~= path.skip(n + 1));
    assert(id_b =~= path.skip(n + 1));
}

/// The address under which a database is opened for reading only.
pub open spec fn read_only_uri(db_path: Seq<char>) -> Seq<char> {
    "file:"@ + db_path + "?mode=ro"@
}

/// The URI under which a database is opened. It asks for reading only, so that nothing is
/// ever written to the user's database.
pub fn database_uri(db_path: &str) -> (uri: String)
    ensures
        uri@ == read_only_uri(db_path@),
{
    let mut uri = "file:".to_owned();
    uri.append(db_path);
    uri.append("?mode=ro");
    uri
}

/// The path that was built of a database and a session gives both back, if the database's
/// file is named as Opencode's and the session's id holds no separator.
pub proof fn law_session_path_round_trip(db_path: Seq<char>, session_id: Seq<char>)
    requires
        is_database(db_path),
        !session_id.contains(PATH_FRAGMENT_SEP),
    ensures
        is_path_of(session_path(db_path, session_id), db_path, session_id),
        forall|db: Seq<char>, id: Seq<char>| #[trigger]
            is_path_of(session_path(db_path, session_id), db, id) ==> db == db_path && id
                == session_id,
{
    assert forall|db: Seq<char>, id: Seq<char>| #[trigger]
        is_path_of(session_path(db_path, session_id), db, id) implies db == db_path && id
        == session_id by {
        lemma_split_unique(db, id, db_path, session_id);
    }
}

/// A path names at most one session of one database.
pub proof fn law_session_path_is_unambiguous(
    path: Seq<char>,
    db_a: Seq<char>,
    id_a: Seq<char>,
    db_b: Seq<char>,
    id_b: Seq<char>,
)
    requires
        is_path_of(path, db_a, id_a),
        is_path_of(path, db_b, id_b),
    ensures
        db_a == db_b,
        id_a == id_b,
{
    lemma_split_unique(db_a, id_a, db_b, id_b);
}

/// The database in any directory, and each of its sessions, are recognised as Opencode's.
pub proof fn law_database_and_sessions_are_recognised(root: Seq<char>, session_id: Seq<char>)
    ensures
        names_database(root + "/opencode.db"@),
        names_database(session_path(root + "/opencode.db"@, session_id)),
{
    let name = "/opencode.db"@;
    let n = root.len() as int;
    reveal_strlit("/opencode.db");
    assert(name.len() == 12);
    let database = root + name;
    assert(forall|i: int| 0 <= i < 12 ==> name[i] != '\\');
    assert(normalized(database).subrange(n, n + 12) =~= name);
    assert(text::occurs_at(normalized(database), name, n));
    let path = session_path(database, session_id);
    assert(normalized(path).subrange(n, n + 12) =~= name);
    assert(text::occurs_at(normalized(path), name, n));
}

/// A session of a database in a directory is recognised as Opencode's.
pub proof fn law_sessions_in_directories_are_recognised(
    path: Seq<char>,
    db_path: Seq<char>,
    session_id: Seq<char>,
)
    requires
        is_path_of(path, db_path, session_id),
        db_path != DB_FILENAME@,
    ensures
        names_database(path),
{
    let name = DB_FILENAME@;
    let whole = "/opencode.db"@;
    reveal_strlit("/opencode.db");
    reveal_strlit("opencode.db");
    assert(whole.len() == 12 && name.len() == 11);
    let start = db_path.len() - 12;
    assert forall|i: int| 0 <= i < 12 implies normalized(path).subrange(start, start + 12)[i]
        == whole[i] by {
        if i > 0 {
            assert(db_path.subrange(start + 1, start + 12)[i - 1] == name[i - 1]);
            assert(path[start + i] == name[i - 1]);
            assert(name[i - 1] == whole[i]);
            assert(whole[i] != '\\');
        }
    }
    assert(normalized(path).subrange(start, start + 12) =~= whole);
    assert(text::occurs_at(normalized(path), whole, start));
}

/// It does not matter whether a path is written with `/` or with `\`.
pub proof fn law_separators_are_alike(path: Seq<char>)
    ensures
        names_database(path) == names_database(normalized(path)),
{
    assert(normalized(normalized(path)) =~= normalized(path));
}

/// A candidate is found if it exists, wherever it is, and none is found where there is none.
pub proof fn law_candidates_are_found_by_existence<P>(candidate: Candidate<P>)
    ensures
        found(Some(candidate)) <==> candidate.exists,
        !found(None::<Candidate<P>>),
{
}

/// The session `session_id` of the database in any directory has a path that names both, and
/// that path names no other session. The directory can be any text, and so can the id, except
/// that it holds no `#`.
pub proof fn law_sessions_of_any_directory_are_resolved(
    root: Seq<char>,
    session_id: Seq<char>,
    db: Seq<char>,
    id: Seq<char>,
)
    requires
        !session_id.contains('#'),
    ensures
        is_path_of(root + "/opencode.db"@ + "#"@ + session_id, root + "/opencode.db"@, session_id),
        is_path_of(
            root + "\\opencode.db"@ + "#"@ + session_id,
            root + "\\opencode.db"@,
            session_id,
        ),
        is_path_of("opencode.db#"@ + session_id, "opencode.db"@, session_id),
        is_path_of(root + "/opencode.db"@ + "#"@ + session_id, db, id) ==> db == root
            + "/opencode.db"@ && id == session_id,
{
    reveal_strlit("opencode.db");
    reveal_strlit("opencode.db#");
    reveal_strlit("/opencode.db");
    reveal_strlit("\\opencode.db");
    reveal_strlit("#");
    let name = "opencode.db"@;
    assert("/opencode.db"@ =~= seq!['/'] + name);
    assert("\\opencode.db"@ =~= seq!['\\'] + name);
    lemma_in_directory_is_database(root, '/');
    lemma_in_directory_is_database(root, '\\');
    assert(root + "/opencode.db"@ =~= root.push('/') + name);
    assert(root + "\\opencode.db"@ =~= root.push('\\') + name);
    assert(root + "/opencode.db"@ + "#"@ + session_id =~= session_path(
        root + "/opencode.db"@,
        session_id,
    ));
    assert(root + "\\opencode.db"@ + "#"@ + session_id =~= session_path(
        root + "\\opencode.db"@,
        session_id,
    ));
    assert("opencode.db#"@ + session_id =~= session_path(name, session_id));
    law_session_path_round_trip(root + "/opencode.db"@, session_id);
}

proof fn lemma_in_directory_is_database(root: Seq<char>, separator: char)
    requires
        is_separator(separator),
    ensures
        is_database(root.push(separator) + DB_FILENAME@),
{
    let path = root.push(separator) + DB_FILENAME@;
    let at = root.len() as int + 1;
    assert(path.subrange(at, path.len() as int) =~= DB_FILENAME@);
}

/// What is resolved is a session's path: it is the database, a `#` and the id, the id holds no
/// `#`, and the database's file is named `opencode.db`.
pub proof fn law_resolved_paths_are_those_of_sessions(
    path: Seq<char>,
    db_path: Seq<char>,
    session_id: Seq<char>,
)
    requires
        is_path_of(path, db_path, session_id),
    ensures
        path == db_path + "#"@ + session_id,
        !session_id.contains('#'),
        db_path == "opencode.db"@ || exists|root: Seq<char>|
            #![trigger root + "/opencode.db"@]
            db_path == root + "/opencode.db"@ || db_path == root + "\\opencode.db"@,
{
    reveal_strlit("opencode.db");
    reveal_strlit("/opencode.db");
    reveal_strlit("\\opencode.db");
    reveal_strlit("#");
    assert(path =~= db_path + "#"@ + session_id);
    if db_path != "opencode.db"@ {
        let n = db_path.len() - 12;
        let root = db_path.take(n);
        let name = "opencode.db"@;
        assert(name.len() == 11);
        assert(db_path.subrange(n + 1, n + 12) == name);
        assert(db_path =~= root + seq![db_path[n]] + db_path.subrange(n + 1, n + 12));
        assert("/opencode.db"@ =~= seq!['/'] + name);
        assert("\\opencode.db"@ =~= seq!['\\'] + name);
        if db_path[n] == '/' {
            assert(db_path =~= root + "/opencode.db"@);
        } else {
            assert(db_path =~= root + "\\opencode.db"@);
        }
    }
}

/// The path of a session is the database, a `#` and the id, whatever these are.
pub proof fn law_session_path_is_joined(db_path: Seq<char>, session_id: Seq<char>)
    ensures
        session_path(db_path, session_id) == db_path + "#"@ + session_id,
{
    reveal_strlit("#");
    assert(session_path(db_path, session_id) =~= db_path + "#"@ + session_id);
}

/// A path is recognised if `opencode.db` follows a separator somewhere in it, whatever stands
/// around it.
pub proof fn law_paths_with_the_database_in_them_are_recognised(
    before: Seq<char>,
    after: Seq<char>,
)
    ensures
        names_database(before + "/opencode.db"@ + after),
        names_database(before + "\\opencode.db"@ + after),
{
    reveal_strlit("/opencode.db");
    reveal_strlit("\\opencode.db");
    let name = "/opencode.db"@;
    let n = before.len() as int;
    let slash = before + name + after;
    let backslash = before + "\\opencode.db"@ + after;
    assert(name.len() == 12 && "\\opencode.db"@.len() == 12);
    assert forall|i: int| 0 <= i < 12 implies normalized(slash).subrange(n, n + 12)[i] == name[i]
        && normalized(backslash).subrange(n, n + 12)[i] == name[i] by {
        assert(slash[n + i] == name[i]);
        assert(backslash[n + i] == "\\opencode.db"@[i]);
    }
    assert(normalized(slash).subrange(n, n + 12) =~= name);
    assert(normalized(backslash).subrange(n, n + 12) =~= name);
    assert(text::occurs_at(normalized(slash), name, n));
    assert(text::occurs_at(normalized(backslash), name, n));
}

/// In a path that is recognised, `opencode.db` follows a separator somewhere.
pub proof fn law_recognised_paths_have_the_database_in_them(path: Seq<char>)
    requires
        names_database(path),
    ensures
        (exists|before: Seq<char>, after: Seq<char>|
            path == #[trigger] (before + "/opencode.db"@ + after)) || (exists|
            before: Seq<char>,
            after: Seq<char>,
        |
            path == #[trigger] (before + "\\opencode.db"@ + after)),
{
    reveal_strlit("/opencode.db");
    reveal_strlit("\\opencode.db");
    let name = "/opencode.db"@;
    assert(name.len() == 12);
    let n = choose|n: int| text::occurs_at(normalized(path), name, n);
    let before = path.take(n);
    let after = path.skip(n + 12);
    let piece = path.subrange(n, n + 12);
    assert forall|i: int| 0 <= i < 12 implies normalized(path)[n + i] == name[i] by {
        assert(normalized(path).subrange(n, n + 12)[i] == name[i]);
    }
    assert forall|i: int| 1 <= i < 12 implies piece[i] == name[i] by {
        assert(normalized(path)[n + i] == name[i]);
        assert(name[i] != '/');
    }
    assert(normalized(path).subrange(n, n + 12)[0] == name[0]);
    assert(normalized(path)[n] == '/');
    assert(path =~= before + piece + after);
    if piece[0] == '/' {
        assert(piece =~= name);
        assert(path == before + name + after);
    } else {
        assert(piece =~= "\\opencode.db"@);
        assert(path == before + "\\opencode.db"@ + after);
    }
}

/// The address of a database names its path and asks for reading only.
pub proof fn law_databases_are_opened_for_reading_only(db_path: Seq<char>)
    ensures
        read_only_uri(db_path) == "file:"@ + db_path + "?mode=ro"@,
{
}

/// The data is looked for where the variable `OPENCODE_DATA` points, and below the home
/// directory where Linux and macOS keep the data of programs, always in `opencode`.
pub proof fn law_places_of_the_data()
    ensures
        DATA_DIR_VARIABLE@ == "OPENCODE_DATA"@,
        text::ends_with(XDG_DATA_DIR@, "/opencode"@),
        text::ends_with(MACOS_SUPPORT_DIR@, "/opencode"@),
        XDG_DATA_DIR@.take(12) == ".local/share"@,
        XDG_DATA_DIR@.len() == 21,
        MACOS_SUPPORT_DIR@.take(27) == "Library/Application Support"@,
        MACOS_SUPPORT_DIR@.len() == 36,
{
    reveal_strlit(".local/share/opencode");
    reveal_strlit(".local/share");
    reveal_strlit("Library/Application Support/opencode");
    reveal_strlit("Library/Application Support");
    reveal_strlit("/opencode");
    assert("/opencode"@.len() == 9);
    assert(XDG_DATA_DIR@.subrange(12, 21) =~= "/opencode"@);
    assert(MACOS_SUPPORT_DIR@.subrange(27, 36) =~= "/opencode"@);
    assert(XDG_DATA_DIR@.take(12) =~= ".local/share"@);
    assert(MACOS_SUPPORT_DIR@.take(27) =~= "Library/Application Support"@);
}

} // verus!
