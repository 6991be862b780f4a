//! Searching the parts of all sessions.

use crate::seen::Seen;
use crate::{json, order, part, text};
use vstd::prelude::*;

verus! {

/// The type of compiled regular expressions, `regex::Regex`.
#[verifier::external_type_specification]
#[verifier::external_body]
pub struct ExRegex(regex::Regex);

/// The texts that a regular expression finds a match in.
pub uninterp spec fn matched_by(re: regex::Regex) -> Set<Seq<char>>;

/// Calls `regex::Regex::is_match`.
///
/// What is claimed of it: whether there is a match anywhere in the text rests on the compiled
/// expression and the text alone.
#[verifier::external_body]
fn is_match(re: &regex::Regex, text: &str) -> (found: bool)
    ensures
        found == matched_by(*re).contains(text@),
{
    re.is_match(text)
}

/// The parts that a search for a fixed string looks at, the newest first: those whose JSON text
/// matches the pattern, and those whose JSON text can hide what a reader sees from the pattern.
/// These have a backslash in it, which may escape a character, or a character beyond printable
/// ASCII, whose case `LOWER` does not fold, or they may be of a tool, whose input and output
/// are written anew.
pub const FIXED_SEARCH_SQL: &'static str = "SELECT session_id, message_id, data FROM part WHERE LOWER(data) LIKE ?1 ESCAPE '\\' OR INSTR(data, '\\') > 0 OR data GLOB '*[^ -~]*' OR INSTR(data, 'tool') > 0 ORDER BY time_created DESC";

/// All parts, the newest first.
pub const SCAN_SQL: &'static str = "SELECT session_id, message_id, data FROM part ORDER BY time_created DESC";

/// The number of characters up to which a `LIKE` pattern is used. SQLite takes no pattern of
/// more than 50 000 bytes, and a character has at most four.
pub const LONGEST_PATTERN: usize = 12_500;

/// What kind of search the caller wants to run.
///
/// A search for a fixed string lets SQLite narrow the candidates with `LIKE`. A regular
/// expression cannot be put as one `LIKE` pattern, so that search looks at all parts.
#[derive(Debug, Clone, Copy)]
pub enum SearchMode<'a> {
    /// Case-insensitive substring match.
    Fixed,
    /// The compiled expression that the text has to match.
    Regex(&'a regex::Regex),
}

/// A row that a search statement gives.
#[derive(Debug, Clone, PartialEq, Eq)]
pub struct SearchRow {
    pub session_id: String,
    pub message_id: String,
    pub data: String,
}

/// A message that a search has found, with the text of the part that matched.
#[derive(Debug, Clone, PartialEq, Eq)]
pub struct OpencodeSearchHit {
    pub session_id: String,
    pub message_id: String,
    pub text: String,
}

/// A statement and the values of its parameters.
#[derive(Debug, Clone, PartialEq, Eq)]
pub struct SearchStatement {
    pub sql: &'static str,
    pub params: Vec<String>,
}

/// What a `SearchRow` stands for.
pub struct SearchRowView {
    pub session_id: Seq<char>,
    pub message_id: Seq<char>,
    pub data: Seq<char>,
}

/// What an `OpencodeSearchHit` stands for.
pub struct HitView {
    pub session_id: Seq<char>,
    pub message_id: Seq<char>,
    pub text: Seq<char>,
}

impl DeepView for SearchRow {
    type V = SearchRowView;

    open spec fn deep_view(&self) -> SearchRowView {
        SearchRowView {
            session_id: self.session_id@,
            message_id: self.message_id@,
            data: self.data@,
        }
    }
}

impl DeepView for OpencodeSearchHit {
    type V = HitView;

    open spec fn deep_view(&self) -> HitView {
        HitView {
            session_id: self.session_id@,
            message_id: self.message_id@,
            text: self.text@,
        }
    }
}

/// A character as a `LIKE` pattern spells it that has `\` as its escape character.
pub open spec fn escaped_char(ch: char) -> Seq<char> {
    if ch == '\\' || ch == '%' || ch == '_' {
        seq!['\\', ch]
    } else {
        seq![ch]
    }
}

/// A text as a `LIKE` pattern spells it that has `\` as its escape character.
pub open spec fn escaped(text: Seq<char>) -> Seq<char> {
    text.flat_map(|ch: char| escaped_char(ch))
}

/// Escapes the characters that have a meaning in a `LIKE` pattern.
pub fn escape_like(input: &str) -> (out: String)
    ensures
        out@ == escaped(input@),
{
    let mut out = String::new();
    for ch in it: input.chars()
        invariant
            it.seq() == input@,
            out@ == escaped(input@.take(it.index() as int)),
    {
        proof {
            input@.lemma_flat_map_take_append(|ch: char| escaped_char(ch), it.index() as int);
        }
        if ch == '\\' || ch == '%' || ch == '_' {
            out.push('\\');
        }
        out.push(ch);
    }
    assert(input@.take(input@.len() as int) == input@);
    out
}

/// The pattern that finds the texts with `literal` in them.
pub open spec fn pattern_of(literal: Seq<char>) -> Seq<char> {
    seq!['%'] + escaped(literal) + seq!['%']
}

/// Builds the `LIKE` pattern that finds the texts with `literal` in them.
pub fn like_pattern(literal: &str) -> (pattern: String)
    ensures
        pattern@ == pattern_of(literal@),
{
    let mut pattern = String::new();
    pattern.push('%');
    pattern.append(escape_like(literal).as_str());
    pattern.push('%');
    assert(pattern@ =~= pattern_of(literal@));
    pattern
}

/// The statement that gives the rows a search looks at, and its parameters.
pub open spec fn statement_of(query: Seq<char>, mode: SearchMode<'_>) -> (
    Seq<char>,
    Seq<Seq<char>>,
) {
    let pattern = pattern_of(text::lowercase(query));
    if mode is Fixed && pattern.len() <= LONGEST_PATTERN {
        (FIXED_SEARCH_SQL@, seq![pattern])
    } else {
        (SCAN_SQL@, Seq::empty())
    }
}

/// The statement that gives the rows a search looks at. A search for a regular expression, or
/// for a string too long for a `LIKE` pattern, looks at all rows.
pub fn search_statement(query: &str, mode: SearchMode<'_>) -> (statement: SearchStatement)
    ensures
        (statement.sql@, statement.params.deep_view()) == statement_of(query@, mode),
{
    let mut params: Vec<String> = Vec::new();
    if let SearchMode::Fixed = mode {
        let pattern = like_pattern(query.to_lowercase().as_str());
        if text::chars_of(pattern.as_str()).len() <= LONGEST_PATTERN {
            params.push(pattern);
            assert(params.deep_view() =~= seq![pattern@]);
            return SearchStatement { sql: FIXED_SEARCH_SQL, params };
        }
    }
    assert(params.deep_view() =~= Seq::<Seq<char>>::empty());
    SearchStatement { sql: SCAN_SQL, params }
}

/// A search statement gives the rows with this JSON text: `SCAN_SQL` gives all rows, and
/// `FIXED_SEARCH_SQL` those that its condition holds of.
///
/// This is what SQLite finds in a text without a NUL character, which no JSON document holds.
pub open spec fn selects(sql: Seq<char>, params: Seq<Seq<char>>, data: Seq<char>) -> bool {
    ||| sql == SCAN_SQL@
    ||| {
        &&& sql == FIXED_SEARCH_SQL@
        &&& {
            ||| like(params[0], text::ascii_lowered(data))
            ||| data.contains('\\')
            ||| !text::is_printable_ascii(data)
            ||| text::is_infix("tool"@, data)
        }
    }
}

/// A text is one that the search looks for.
pub open spec fn sought(text: Seq<char>, query: Seq<char>, mode: SearchMode<'_>) -> bool {
    match mode {
        SearchMode::Fixed => text::is_infix(text::lowercase(query), text::lowercase(text)),
        SearchMode::Regex(re) => matched_by(*re).contains(text),
    }
}

/// The hit of a part, if its text is one that the search looks for.
pub open spec fn hit_in(
    session_id: Seq<char>,
    message_id: Seq<char>,
    part: part::PartView,
    query: Seq<char>,
    mode: SearchMode<'_>,
) -> Option<HitView> {
    match part::searched_text(part) {
        Some(text) if sought(text, query, mode) => Some(HitView { session_id, message_id, text }),
        _ => None,
    }
}

/// The hit of a row. A row that could not be read, or whose text is no JSON document, has
/// none.
pub open spec fn hit_of(
    row: Option<SearchRowView>,
    query: Seq<char>,
    mode: SearchMode<'_>,
) -> Option<HitView> {
    if row is Some && part::part_written(row->0.data) is Some {
        hit_in(
            row->0.session_id,
            row->0.message_id,
            part::part_written(row->0.data)->0,
            query,
            mode,
        )
    } else {
        None
    }
}

/// The hits of the rows, in their order.
pub open spec fn hits_of(
    rows: Seq<Option<SearchRowView>>,
    query: Seq<char>,
    mode: SearchMode<'_>,
) -> Seq<HitView> {
    rows.filter_map(|row: Option<SearchRowView>| hit_of(row, query, mode))
}

/// Every row that has a hit is one that the search's statement gives.
pub open spec fn asks_for_hits(
    rows: Seq<Option<SearchRowView>>,
    query: Seq<char>,
    mode: SearchMode<'_>,
) -> bool {
    forall|i: int|
        0 <= i < rows.len() && #[trigger] hit_of(rows[i], query, mode) is Some ==> selects(
            statement_of(query, mode).0,
            statement_of(query, mode).1,
            rows[i]->0.data,
        )
}

/// Two hits are of one message of one session.
pub open spec fn same_message(a: HitView, b: HitView) -> bool {
    a.session_id == b.session_id && a.message_id == b.message_id
}

/// One of the hits is of the message that `hit` is of.
pub open spec fn hits_message(hits: Seq<HitView>, hit: HitView) -> bool {
    exists|i: int| 0 <= i < hits.len() && same_message(#[trigger] hits[i], hit)
}

/// The first hit of each message, in the order of the hits.
pub open spec fn collapsed(hits: Seq<HitView>) -> Seq<HitView>
    decreases hits.len(),
{
    if hits.len() == 0 {
        hits
    } else if hits_message(hits.drop_last(), hits.last()) {
        collapsed(hits.drop_last())
    } else {
        collapsed(hits.drop_last()).push(hits.last())
    }
}

/// Whether `part` stands somewhere in `whole`.
pub fn contains_text(whole: &str, part: &str) -> (yes: bool)
    ensures
        yes == text::is_infix(part@, whole@),
{
    text::contains(&text::chars_of(whole), &text::chars_of(part))
}

/// Whether a text is one that the search looks for. `lower_query` is the lowercase form of
/// what a search for a fixed string looks for.
fn is_sought(text: &str, lower_query: &str, mode: SearchMode<'_>) -> (yes: bool)
    ensures
        yes == match mode {
            SearchMode::Fixed => text::is_infix(lower_query@, text::lowercase(text@)),
            SearchMode::Regex(re) => matched_by(*re).contains(text@),
        },
{
    match mode {
        SearchMode::Fixed => contains_text(text.to_lowercase().as_str(), lower_query),
        SearchMode::Regex(re) => is_match(re, text),
    }
}

/// Keeps the first hit of each message.
pub fn collapse_hits(hits: Vec<OpencodeSearchHit>) -> (kept: Vec<OpencodeSearchHit>)
    ensures
        kept.deep_view() == collapsed(hits.deep_view()),
{
    let mut kept: Vec<OpencodeSearchHit> = Vec::new();
    let mut seen = Seen::new();
    let ghost all = hits.deep_view();
    for hit in it: hits
        invariant
            all == hits.deep_view(),
            it.seq() == hits@,
            kept.deep_view() == collapsed(all.take(it.index() as int)),
            seen.valid(),
            forall|other: HitView|
                seen.contains(other.session_id, other.message_id) == #[trigger] hits_message(
                    all.take(it.index() as int),
                    other,
                ),
    {
        let ghost k = it.index() as int;
        let ghost before = kept.deep_view();
        proof {
            assert(all[k] == hit.deep_view());
            assert(all.take(k + 1).drop_last() =~= all.take(k));
            assert(all.take(k + 1) =~= all.take(k).push(all[k]));
            lemma_hits_message_push(all.take(k), all[k]);
            assert(seen.contains(hit.session_id@, hit.message_id@) == hits_message(
                all.take(k),
                all[k],
            ));
        }
        if seen.insert(hit.session_id.clone(), hit.message_id.clone()) {
            kept.push(hit);
            assert(kept.deep_view() =~= before.push(hit.deep_view()));
        }
    }
    assert(all.take(all.len() as int) == all);
    kept
}

proof fn lemma_hits_message_push(hits: Seq<HitView>, hit: HitView)
    ensures
        forall|other: HitView| #[trigger]
            hits_message(hits.push(hit), other) == (hits_message(hits, other) || same_message(
                hit,
                other,
            )),
{
    let more = hits.push(hit);
    assert forall|other: HitView| #[trigger]
        hits_message(more, other) == (hits_message(hits, other) || same_message(hit, other)) by {
        if hits_message(hits, other) {
            let i = choose|i: int| 0 <= i < hits.len() && same_message(#[trigger] hits[i], other);
            assert(same_message(more[i], other));
        }
        if same_message(hit, other) {
            assert(same_message(more[hits.len() as int], other));
        }
        if hits_message(more, other) {
            let i = choose|i: int| 0 <= i < more.len() && same_message(#[trigger] more[i], other);
            if i < hits.len() {
                assert(same_message(hits[i], other));
            }
        }
    }
}

/// The hits among the rows, before the hits of one message are collapsed.
pub fn find_hits(rows: Vec<Option<SearchRow>>, query: &str, mode: SearchMode<'_>) -> (hits: Vec<
    OpencodeSearchHit,
>)
    ensures
        hits.deep_view() == hits_of(rows.deep_view(), query@, mode),
        asks_for_hits(rows.deep_view(), query@, mode),
{
    let lower_query = query.to_lowercase();
    let mut hits: Vec<OpencodeSearchHit> = Vec::new();
    let ghost all = rows.deep_view();
    for row in it: rows
        invariant
            all == rows.deep_view(),
            it.seq() == rows@,
            lower_query@ == text::lowercase(query@),
            hits.deep_view() == hits_of(all.take(it.index() as int), query@, mode),
            asks_for_hits(all.take(it.index() as int), query@, mode),
    {
        let ghost k = it.index() as int;
        let ghost before = hits.deep_view();
        proof {
            assert(all[k] == row.deep_view());
            assert(forall|i: int| 0 <= i < k ==> all.take(k + 1)[i] == all.take(k)[i]);
            all.lemma_filter_map_take_succ(
                |row: Option<SearchRowView>| hit_of(row, query@, mode),
                k,
            );
        }
        if let Some(row) = row {
            if let Some(part) = part::parse_part(row.data.as_str()) {
                if let Some(text) = part::render_part_text(&part) {
                    if is_sought(text.as_str(), lower_query.as_str(), mode) {
                        proof {
                            law_statement_gives_every_hit(all[k]->0, query@, mode);
                        }
                        let hit = OpencodeSearchHit {
                            session_id: row.session_id,
                            message_id: row.message_id,
                            text,
                        };
                        hits.push(hit);
                        assert(hits.deep_view() =~= before + seq![hit.deep_view()]);
                    }
                }
            }
        }
    }
    assert(all.take(all.len() as int) == all);
    hits
}

/// Searches the rows that `search_statement` asks for. A row that could not be read stands as
/// `None` and is left out.
///
/// The statement looks at the JSON text of a part, so it also gives rows for the sake of keys
/// and structural parts. What counts here is the text that a reader sees, and the statement
/// gives every row in which that is found. Several parts of one message make one hit.
pub fn search_parts(rows: Vec<Option<SearchRow>>, query: &str, mode: SearchMode<'_>) -> (hits: Vec<
    OpencodeSearchHit,
>)
    ensures
        hits.deep_view() == collapsed(hits_of(rows.deep_view(), query@, mode)),
        asks_for_hits(rows.deep_view(), query@, mode),
{
    let hits = find_hits(rows, query, mode);
    collapse_hits(hits)
}

/// What `LIKE` with the escape character `\` finds: `%` stands for any text, `_` for any one
/// character, and each other character, or one behind the escape character, for itself.
pub open spec fn like(pattern: Seq<char>, text: Seq<char>) -> bool
    decreases pattern.len(), text.len(),
{
    if pattern.len() == 0 {
        text.len() == 0
    } else if pattern[0] == '%' {
        like(pattern.skip(1), text) || (text.len() > 0 && like(pattern, text.skip(1)))
    } else if pattern[0] == '_' {
        text.len() > 0 && like(pattern.skip(1), text.skip(1))
    } else if pattern[0] == '\\' {
        pattern.len() > 1 && text.len() > 0 && text[0] == pattern[1] && like(
            pattern.skip(2),
            text.skip(1),
        )
    } else {
        text.len() > 0 && text[0] == pattern[0] && like(pattern.skip(1), text.skip(1))
    }
}

proof fn lemma_escaped_first(text: Seq<char>)
    requires
        text.len() > 0,
    ensures
        escaped(text) == escaped_char(text[0]) + escaped(text.skip(1)),
{
    let f = |ch: char| escaped_char(ch);
    assert(text.map_values(f).drop_first() =~= text.skip(1).map_values(f));
}

proof fn lemma_like_escaped(literal: Seq<char>, rest: Seq<char>, text: Seq<char>)
    ensures
        like(escaped(literal) + rest, text) == (text::occurs_at(text, literal, 0) && like(
            rest,
            text.skip(literal.len() as int),
        )),
    decreases literal.len(),
{
    let n = literal.len() as int;
    if n == 0 {
        assert(escaped(literal) + rest =~= rest);
        assert(text.skip(0) =~= text);
        assert(text.subrange(0, 0) =~= literal);
    } else {
        let pattern = escaped(literal) + rest;
        let first = escaped_char(literal[0]);
        let tail = literal.skip(1);
        lemma_escaped_first(literal);
        assert(pattern.skip(first.len() as int) =~= escaped(tail) + rest);
        if text.len() > 0 {
            lemma_like_escaped(tail, rest, text.skip(1));
            assert(like(pattern, text) == (text[0] == literal[0] && like(
                escaped(tail) + rest,
                text.skip(1),
            )));
            if n <= text.len() {
                assert(text.skip(1).skip(n - 1) =~= text.skip(n));
                if text::occurs_at(text, literal, 0) {
                    assert(text[0] == text.subrange(0, n)[0]);
                    assert(text.skip(1).subrange(0, n - 1) =~= text.subrange(0, n).skip(1));
                }
                if text[0] == literal[0] && text::occurs_at(text.skip(1), tail, 0) {
                    assert forall|k: int| 0 <= k < n implies text.subrange(0, n)[k]
                        == literal[k] by {
                        if k > 0 {
                            assert(text.skip(1).subrange(0, n - 1)[k - 1] == tail[k - 1]);
                        }
                    }
                    assert(text.subrange(0, n) =~= literal);
                }
            }
        }
    }
}

proof fn lemma_like_any(text: Seq<char>)
    ensures
        like(seq!['%'], text),
    decreases text.len(),
{
    if text.len() > 0 {
        lemma_like_any(text.skip(1));
    } else {
        assert(seq!['%'].skip(1) =~= Seq::<char>::empty());
        assert(like(Seq::<char>::empty(), text));
    }
}

proof fn lemma_like_anywhere(pattern: Seq<char>, text: Seq<char>)
    ensures
        like(seq!['%'] + pattern, text) <==> exists|i: int|
            0 <= i <= text.len() && like(pattern, #[trigger] text.skip(i)),
    decreases text.len(),
{
    let whole = seq!['%'] + pattern;
    assert(whole.skip(1) =~= pattern);
    assert(text.skip(0) =~= text);
    if text.len() > 0 {
        let tail = text.skip(1);
        lemma_like_anywhere(pattern, tail);
        if like(whole, tail) {
            let i = choose|i: int| 0 <= i <= tail.len() && like(pattern, #[trigger] tail.skip(i));
            assert(tail.skip(i) =~= text.skip(i + 1));
        }
        if exists|i: int| 0 <= i <= text.len() && like(pattern, #[trigger] text.skip(i)) {
            let i = choose|i: int| 0 <= i <= text.len() && like(pattern, #[trigger] text.skip(i));
            if i > 0 {
                assert(tail.skip(i - 1) =~= text.skip(i));
            }
        }
    }
}

/// An escaped text is a pattern for that text and for no other.
pub proof fn law_escaped_is_literal(literal: Seq<char>, text: Seq<char>)
    ensures
        like(escaped(literal), text) <==> text == literal,
{
    let nothing = Seq::<char>::empty();
    lemma_like_escaped(literal, nothing, text);
    assert(escaped(literal) + nothing =~= escaped(literal));
    if text == literal {
        assert(text.subrange(0, literal.len() as int) =~= literal);
    }
    if literal.len() <= text.len() && text.skip(literal.len() as int).len() == 0 {
        assert(text.subrange(0, literal.len() as int) =~= text);
    }
}

/// The pattern of a literal finds exactly the texts that contain it, whatever characters it
/// holds.
pub proof fn law_like_pattern_finds_substrings(literal: Seq<char>, text: Seq<char>)
    ensures
        like(pattern_of(literal), text) <==> text::is_infix(literal, text),
{
    let n = literal.len() as int;
    let rest = escaped(literal) + seq!['%'];
    assert(pattern_of(literal) =~= seq!['%'] + rest);
    lemma_like_anywhere(rest, text);
    assert forall|i: int| 0 <= i <= text.len() implies (like(rest, #[trigger] text.skip(i))
        <==> text::occurs_at(text, literal, i)) by {
        lemma_like_escaped(literal, seq!['%'], text.skip(i));
        lemma_like_any(text.skip(i).skip(n));
        if i + n <= text.len() {
            assert(text.skip(i).subrange(0, n) =~= text.subrange(i, i + n));
        }
    }
    if text::is_infix(literal, text) {
        let i = choose|i: int| text::occurs_at(text, literal, i);
        assert(like(rest, text.skip(i)));
    }
}

/// The statement of a search leaves out no row in which the search finds anything: each row
/// that has a hit is among those that the statement gives.
///
/// `json::keeps_strings` holds of every text that `parse_part` reads, and `search_parts` states
/// the conclusion for its rows without it.
pub proof fn law_statement_gives_every_hit(
    row: SearchRowView,
    query: Seq<char>,
    mode: SearchMode<'_>,
)
    requires
        json::keeps_strings(row.data),
        hit_of(Some(row), query, mode) is Some,
    ensures
        selects(statement_of(query, mode).0, statement_of(query, mode).1, row.data),
{
    let data = row.data;
    let held = json::parsed(data)->0;
    let part = part::part_in(held);
    let lower = text::lowercase(query);
    if mode is Fixed && !data.contains('\\') && text::is_printable_ascii(data) {
        assert(json::strings_stand_in(held, data));
        if part.part_type == Some("tool"@) {
            assert(json::string_at(held, seq!["type"@]) == Some("tool"@));
        } else {
            let text = json::string_at(held, seq!["text"@])->0;
            assert(text::is_infix(text, data));
            text::lemma_lowered_infix(text, data);
            text::lemma_infix_of_infix(lower, text::lowercase(text), text::ascii_lowered(data));
            law_like_pattern_finds_substrings(lower, text::ascii_lowered(data));
        }
    }
}

/// Every row is given to a search for a regular expression.
pub proof fn law_regex_search_looks_at_all_rows(
    query: Seq<char>,
    re: &regex::Regex,
    data: Seq<char>,
)
    ensures
        selects(
            statement_of(query, SearchMode::Regex(re)).0,
            statement_of(query, SearchMode::Regex(re)).1,
            data,
        ),
{
}

/// In ASCII text, a search for a fixed ASCII string finds the texts that hold the string when
/// upper and lower case letters count as the same.
pub proof fn law_fixed_search_folds_ascii_case(text: Seq<char>, query: Seq<char>)
    requires
        text::is_ascii(text),
        text::is_ascii(query),
    ensures
        sought(text, query, SearchMode::Fixed) <==> text::is_infix(
            text::ascii_lowered(query),
            text::ascii_lowered(text),
        ),
{
}

/// A search for a fixed string does not tell upper from lower case: queries of one lowercase
/// form ask for the same rows and find the same hits.
pub proof fn law_fixed_search_ignores_case(
    rows: Seq<Option<SearchRowView>>,
    a: Seq<char>,
    b: Seq<char>,
)
    requires
        text::lowercase(a) == text::lowercase(b),
    ensures
        statement_of(a, SearchMode::Fixed) == statement_of(b, SearchMode::Fixed),
        hits_of(rows, a, SearchMode::Fixed) == hits_of(rows, b, SearchMode::Fixed),
{
    let f = |row: Option<SearchRowView>| hit_of(row, a, SearchMode::Fixed);
    let g = |row: Option<SearchRowView>| hit_of(row, b, SearchMode::Fixed);
    assert(f =~= g);
}

/// A search for a regular expression looks at the expression alone, not at the query.
pub proof fn law_regex_search_ignores_query(
    rows: Seq<Option<SearchRowView>>,
    re: &regex::Regex,
    a: Seq<char>,
    b: Seq<char>,
)
    ensures
        hits_of(rows, a, SearchMode::Regex(re)) == hits_of(rows, b, SearchMode::Regex(re)),
{
    let f = |row: Option<SearchRowView>| hit_of(row, a, SearchMode::Regex(re));
    let g = |row: Option<SearchRowView>| hit_of(row, b, SearchMode::Regex(re));
    assert(f =~= g);
}

/// A structural part is no hit, even if its JSON text holds what the search looks for.
pub proof fn law_structural_parts_are_no_hits(
    row: SearchRowView,
    query: Seq<char>,
    mode: SearchMode<'_>,
)
    requires
        part::part_written(row.data) matches Some(part) ==> part::is_structural(part),
    ensures
        hit_of(Some(row), query, mode) is None,
{
}

/// `hit` stands at `k` and is the first one of its message.
pub open spec fn first_at(hits: Seq<HitView>, hit: HitView, k: int) -> bool {
    &&& 0 <= k < hits.len()
    &&& hits[k] == hit
    &&& !hits_message(hits.take(k), hit)
}

/// `hit` is one of the hits, and the first one of its message.
pub open spec fn is_first(hits: Seq<HitView>, hit: HitView) -> bool {
    exists|k: int| first_at(hits, hit, k)
}

/// Collapsing keeps one hit of each message: the first one, and no message is lost.
pub proof fn law_collapsed_keeps_first_of_each_message(hits: Seq<HitView>)
    ensures
        forall|hit: HitView| #[trigger]
            hits_message(collapsed(hits), hit) == hits_message(hits, hit),
        forall|i: int, j: int|
            0 <= i < j < collapsed(hits).len() ==> !same_message(
                #[trigger] collapsed(hits)[i],
                #[trigger] collapsed(hits)[j],
            ),
        forall|i: int|
            0 <= i < collapsed(hits).len() ==> is_first(hits, #[trigger] collapsed(hits)[i]),
    decreases hits.len(),
{
    if hits.len() > 0 {
        let init = hits.drop_last();
        let last = hits.last();
        let kept = collapsed(init);
        law_collapsed_keeps_first_of_each_message(init);
        assert(init.push(last) =~= hits);
        lemma_hits_message_push(init, last);
        assert forall|i: int| 0 <= i < kept.len() implies is_first(
            hits,
            #[trigger] kept[i],
        ) by {
            let k = choose|k: int| #[trigger] first_at(init, kept[i], k);
            assert(hits.take(k) =~= init.take(k));
            assert(first_at(hits, kept[i], k));
        }
        if hits_message(init, last) {
            assert forall|hit: HitView| same_message(last, hit) implies #[trigger] hits_message(
                init,
                hit,
            ) by {
                let i = choose|i: int| 0 <= i < init.len() && same_message(#[trigger] init[i], last);
                assert(same_message(init[i], hit));
            }
        } else {
            lemma_hits_message_push(kept, last);
            assert(hits.take(hits.len() - 1) =~= init);
            assert(first_at(hits, last, hits.len() - 1));
            assert forall|i: int| 0 <= i < kept.len() implies !same_message(
                #[trigger] kept[i],
                last,
            ) by {
                assert(hits_message(kept, last) == hits_message(init, last));
            }
        }
    }
}

/// No message is hit twice.
pub proof fn law_no_message_is_hit_twice(
    rows: Seq<Option<SearchRowView>>,
    query: Seq<char>,
    mode: SearchMode<'_>,
    i: int,
    j: int,
)
    requires
        0 <= i < j < collapsed(hits_of(rows, query, mode)).len(),
    ensures
        !same_message(
            collapsed(hits_of(rows, query, mode))[i],
            collapsed(hits_of(rows, query, mode))[j],
        ),
{
    law_collapsed_keeps_first_of_each_message(hits_of(rows, query, mode));
}

/// Each message that one of the rows is a hit of is among the hits.
pub proof fn law_every_message_is_hit(
    rows: Seq<Option<SearchRowView>>,
    query: Seq<char>,
    mode: SearchMode<'_>,
    i: int,
)
    requires
        0 <= i < hits_of(rows, query, mode).len(),
    ensures
        hits_message(collapsed(hits_of(rows, query, mode)), hits_of(rows, query, mode)[i]),
{
    let hits = hits_of(rows, query, mode);
    law_collapsed_keeps_first_of_each_message(hits);
    assert(same_message(hits[i], hits[i]));
}

/// Each hit comes from a row, and its text is what a reader sees of that row's part and one
/// that the search looks for.
pub proof fn law_hits_are_sought(
    rows: Seq<Option<SearchRowView>>,
    query: Seq<char>,
    mode: SearchMode<'_>,
    i: int,
)
    requires
        0 <= i < collapsed(hits_of(rows, query, mode)).len(),
    ensures
        sought(collapsed(hits_of(rows, query, mode))[i].text, query, mode),
        exists|row: SearchRowView|
            rows.contains(Some(row)) && #[trigger] hit_of(Some(row), query, mode) == Some(
                collapsed(hits_of(rows, query, mode))[i],
            ),
{
    let hits = hits_of(rows, query, mode);
    let hit = collapsed(hits)[i];
    law_collapsed_keeps_first_of_each_message(hits);
    let k = choose|k: int| first_at(hits, hit, k);
    assert(hits.contains(hit));
    let f = |row: Option<SearchRowView>| hit_of(row, query, mode);
    rows.lemma_filter_map_contains(f, hit);
    let row = choose|row: Option<SearchRowView>| #[trigger]
        rows.contains(row) && f(row) == Some(hit);
    assert(hit_of(Some(row->0), query, mode) == Some(hit));
}

/// A row and a hit stand for all that they hold.
pub proof fn law_hits_stand_for_all_they_hold(row: SearchRow, hit: OpencodeSearchHit)
    ensures
        row.deep_view().session_id == row.session_id@,
        row.deep_view().message_id == row.message_id@,
        row.deep_view().data == row.data@,
        hit.deep_view().session_id == hit.session_id@,
        hit.deep_view().message_id == hit.message_id@,
        hit.deep_view().text == hit.text@,
{
}

/// A fixed string is found in a text whose lowercase form has that of the string as a piece of
/// it. A regular expression is found in a text that it matches.
pub proof fn law_what_is_sought(
    text: Seq<char>,
    query: Seq<char>,
    before: Seq<char>,
    after: Seq<char>,
    re: &regex::Regex,
)
    ensures
        text::lowercase(text) == before + text::lowercase(query) + after ==> sought(
            text,
            query,
            SearchMode::Fixed,
        ),
        sought(text, query, SearchMode::Fixed) ==> exists|b: Seq<char>, a: Seq<char>|
            text::lowercase(text) == #[trigger] (b + text::lowercase(query) + a),
        sought(text, query, SearchMode::Regex(re)) <==> matched_by(*re).contains(text),
{
    text::law_pieces_are_infixes(before, text::lowercase(query), after);
    text::law_infixes_are_pieces(text::lowercase(text), text::lowercase(query), 0);
}

/// A row is a hit exactly if its text is a document, the part has a text to search, and that
/// text is sought. The kind of the part and of the search make no other difference. The hit is of
/// the row's session and message and has that text.
pub proof fn law_hits_are_the_sought_texts(
    row: SearchRowView,
    query: Seq<char>,
    mode: SearchMode<'_>,
    hit: HitView,
)
    ensures
        hit_of(Some(row), query, mode) == Some(hit) <==> {
            &&& part::part_written(row.data) is Some
            &&& part::searched_text(part::part_written(row.data)->0) == Some(hit.text)
            &&& sought(hit.text, query, mode)
            &&& hit.session_id == row.session_id
            &&& hit.message_id == row.message_id
        },
        hit_of(None, query, mode) is None,
{
}

/// Every row whose part has a text that is sought has its hit among the hits, whatever the kind
/// of the part and of the search.
pub proof fn law_every_sought_text_is_a_hit(
    rows: Seq<Option<SearchRowView>>,
    row: SearchRowView,
    text: Seq<char>,
    query: Seq<char>,
    mode: SearchMode<'_>,
)
    requires
        rows.contains(Some(row)),
        part::part_written(row.data) is Some,
        part::searched_text(part::part_written(row.data)->0) == Some(text),
        sought(text, query, mode),
    ensures
        hits_of(rows, query, mode).contains(
            (HitView { session_id: row.session_id, message_id: row.message_id, text }),
        ),
{
    let hit = HitView { session_id: row.session_id, message_id: row.message_id, text };
    let at = law_hits_keep_the_order_of_the_rows(rows, query, mode);
    let k = choose|k: int| 0 <= k < rows.len() && rows[k] == Some(row);
    law_hits_are_the_sought_texts(row, query, mode, hit);
    assert(hit_of(rows[k], query, mode) == Some(hit));
    let i = choose|i: int| 0 <= i < at.len() && at[i] == k;
    assert(hits_of(rows, query, mode)[i] == hit);
}

/// The hits keep the order of the rows, and each row that is a hit gives its own: the positions
/// of their rows rise, and no row that is a hit is passed over.
pub proof fn law_hits_keep_the_order_of_the_rows(
    rows: Seq<Option<SearchRowView>>,
    query: Seq<char>,
    mode: SearchMode<'_>,
) -> (at: Seq<int>)
    ensures
        at.len() == hits_of(rows, query, mode).len(),
        forall|i: int|
            0 <= i < at.len() ==> 0 <= #[trigger] at[i] < rows.len() && hit_of(
                rows[at[i]],
                query,
                mode,
            ) == Some(hits_of(rows, query, mode)[i]),
        forall|i: int, j: int| 0 <= i < j < at.len() ==> #[trigger] at[i] < #[trigger] at[j],
        forall|k: int|
            0 <= k < rows.len() && hit_of(#[trigger] rows[k], query, mode) is Some ==> at.contains(
                k,
            ),
{
    let f = |row: Option<SearchRowView>| hit_of(row, query, mode);
    let at = order::lemma_selected_positions(rows, f);
    assert(forall|k: int|
        0 <= k < rows.len() ==> f(#[trigger] rows[k]) == hit_of(rows[k], query, mode));
    at
}

/// Collapsing keeps the order of the hits: the positions of the kept ones rise, and they are
/// exactly those before which no hit has both the session's and the message's id.
pub proof fn law_collapsed_keeps_the_order_of_the_hits(hits: Seq<HitView>) -> (at: Seq<int>)
    ensures
        at.len() == collapsed(hits).len(),
        forall|i: int|
            0 <= i < at.len() ==> 0 <= #[trigger] at[i] < hits.len() && collapsed(hits)[i]
                == hits[at[i]],
        forall|i: int, j: int| 0 <= i < j < at.len() ==> #[trigger] at[i] < #[trigger] at[j],
        forall|k: int|
            0 <= k < hits.len() ==> (#[trigger] at.contains(k) <==> !exists|b: int|
                0 <= b < k && (#[trigger] hits[b]).session_id == hits[k].session_id
                    && hits[b].message_id == hits[k].message_id),
    decreases hits.len(),
{
    if hits.len() == 0 {
        Seq::empty()
    } else {
        let n = hits.len() - 1;
        let init = hits.drop_last();
        let before = law_collapsed_keeps_the_order_of_the_hits(init);
        assert(forall|k: int| 0 <= k < n ==> init[k] == hits[k]);
        let known = exists|b: int|
            0 <= b < n && (#[trigger] hits[b]).session_id == hits[n].session_id
                && hits[b].message_id == hits[n].message_id;
        if known {
            let b = choose|b: int|
                0 <= b < n && (#[trigger] hits[b]).session_id == hits[n].session_id
                    && hits[b].message_id == hits[n].message_id;
            assert(same_message(init[b], hits[n]));
        }
        assert(hits_message(init, hits[n]) == known);
        let at = if known {
            before
        } else {
            before.push(n)
        };
        assert forall|k: int| 0 <= k < hits.len() implies (#[trigger] at.contains(k)
            <==> !exists|b: int|
            0 <= b < k && (#[trigger] hits[b]).session_id == hits[k].session_id
                && hits[b].message_id == hits[k].message_id) by {
            if k < n {
                assert(at.contains(k) == before.contains(k)) by {
                    if before.contains(k) {
                        let i = choose|i: int| 0 <= i < before.len() && before[i] == k;
                        assert(at[i] == k);
                    }
                    if at.contains(k) {
                        let i = choose|i: int| 0 <= i < at.len() && at[i] == k;
                        assert(before[i] == k);
                    }
                }
                assert forall|b: int| 0 <= b < k implies #[trigger] init[b] == hits[b] by {}
                if !before.contains(k) {
                    let b = choose|b: int|
                        0 <= b < k && (#[trigger] init[b]).session_id == init[k].session_id
                            && init[b].message_id == init[k].message_id;
                    assert(hits[b].session_id == hits[k].session_id);
                }
            } else if known {
                if at.contains(k) {
                    let i = choose|i: int| 0 <= i < at.len() && at[i] == k;
                    assert(before[i] < n);
                }
            } else {
                assert(at[before.len() as int] == k);
            }
        }
        at
    }
}

/// Each message that a row hits comes up once, with the text of the first row that hits it.
pub proof fn law_first_hits_are_kept(
    rows: Seq<Option<SearchRowView>>,
    query: Seq<char>,
    mode: SearchMode<'_>,
    k: int,
)
    requires
        0 <= k < hits_of(rows, query, mode).len(),
        forall|b: int|
            0 <= b < k ==> !((#[trigger] hits_of(rows, query, mode)[b]).session_id == hits_of(
                rows,
                query,
                mode,
            )[k].session_id && hits_of(rows, query, mode)[b].message_id == hits_of(
                rows,
                query,
                mode,
            )[k].message_id),
    ensures
        collapsed(hits_of(rows, query, mode)).contains(hits_of(rows, query, mode)[k]),
{
    let hits = hits_of(rows, query, mode);
    let at = law_collapsed_keeps_the_order_of_the_hits(hits);
    assert(at.contains(k));
    let i = choose|i: int| 0 <= i < at.len() && at[i] == k;
    assert(collapsed(hits)[i] == hits[k]);
}

/// A pattern spells a text character by character, with a backslash before each backslash, `%`
/// and `_`, and stands between two `%`.
pub proof fn law_patterns_spell_their_text(literal: Seq<char>, ch: char)
    ensures
        escaped(Seq::<char>::empty()) == Seq::<char>::empty(),
        ch == '\\' || ch == '%' || ch == '_' ==> escaped(literal.push(ch)) == escaped(
            literal,
        ).push('\\').push(ch),
        ch != '\\' && ch != '%' && ch != '_' ==> escaped(literal.push(ch)) == escaped(literal).push(
            ch,
        ),
        pattern_of(literal) == "%"@ + escaped(literal) + "%"@,
{
    reveal_strlit("%");
    let f = |ch: char| escaped_char(ch);
    literal.lemma_flat_map_push(f, ch);
    assert(escaped(literal.push(ch)) == escaped(literal) + escaped_char(ch));
    assert(escaped(literal) + seq!['\\', ch] =~= escaped(literal).push('\\').push(ch));
    assert(escaped(literal) + seq![ch] =~= escaped(literal).push(ch));
    assert(Seq::<char>::empty().map_values(f) =~= Seq::<Seq<char>>::empty());
    assert("%"@ =~= seq!['%']);
}

/// What a pattern finds, by its first character: `%` any text, `_` any one character, a
/// backslash the character behind it, and any other character itself.
pub proof fn law_patterns_find_by_their_characters(
    pattern: Seq<char>,
    text: Seq<char>,
    ch: char,
    first: char,
)
    ensures
        like(Seq::<char>::empty(), text) <==> text.len() == 0,
        like(seq!['%'] + pattern, text) <==> exists|i: int|
            0 <= i <= text.len() && like(pattern, #[trigger] text.skip(i)),
        like(seq!['_'] + pattern, seq![first] + text) <==> like(pattern, text),
        !like(seq!['_'] + pattern, Seq::<char>::empty()),
        like(seq!['\\', ch] + pattern, seq![first] + text) <==> ch == first && like(pattern, text),
        ch != '%' && ch != '_' && ch != '\\' ==> (like(seq![ch] + pattern, seq![first] + text)
            <==> ch == first && like(pattern, text)),
        ch != '%' ==> !like(seq![ch] + pattern, Seq::<char>::empty()),
{
    lemma_like_anywhere(pattern, text);
    let whole = seq![first] + text;
    assert(whole.skip(1) =~= text);
    assert((seq!['_'] + pattern).skip(1) =~= pattern);
    assert((seq!['\\', ch] + pattern).skip(2) =~= pattern);
    assert((seq![ch] + pattern).skip(1) =~= pattern);
}

/// A search for a fixed string asks with the pattern of its lowercase form if that is short
/// enough, and else, or for a regular expression, asks for all rows.
pub proof fn law_statements_of_searches(query: Seq<char>, re: &regex::Regex)
    ensures
        statement_of(query, SearchMode::Regex(re)) == (SCAN_SQL@, Seq::<Seq<char>>::empty()),
        pattern_of(text::lowercase(query)).len() <= 12_500 ==> statement_of(
            query,
            SearchMode::Fixed,
        ) == (FIXED_SEARCH_SQL@, seq![pattern_of(text::lowercase(query))]),
        pattern_of(text::lowercase(query)).len() > 12_500 ==> statement_of(query, SearchMode::Fixed)
            == (SCAN_SQL@, Seq::<Seq<char>>::empty()),
{
}

/// All rows are given by the scan, and by the other statement those whose JSON text, lowered,
/// matches the pattern, or which hold a backslash, a character beyond printable ASCII, or the
/// word `tool`.
pub proof fn law_statements_select_rows(params: Seq<Seq<char>>, data: Seq<char>)
    ensures
        selects(SCAN_SQL@, params, data),
        selects(FIXED_SEARCH_SQL@, params, data) <==> {
            ||| like(params[0], text::ascii_lowered(data))
            ||| exists|i: int|
                0 <= i < data.len() && (#[trigger] data[i] == '\\' || data[i] < 32 || data[i] > 126)
            ||| text::is_infix("tool"@, data)
        },
{
    lemma_statements_differ();
}

proof fn lemma_statements_differ()
    ensures
        SCAN_SQL@ != FIXED_SEARCH_SQL@,
{
    reveal_strlit("SELECT session_id, message_id, data FROM part ORDER BY time_created DESC");
    reveal_strlit(
        "SELECT session_id, message_id, data FROM part WHERE LOWER(data) LIKE ?1 ESCAPE '\\' OR INSTR(data, '\\') > 0 OR data GLOB '*[^ -~]*' OR INSTR(data, 'tool') > 0 ORDER BY time_created DESC",
    );
    assert(SCAN_SQL@[46] != FIXED_SEARCH_SQL@[46]);
}

/// Where every row that has a hit is one that the statement gives, each such row is given.
pub proof fn law_rows_with_hits_are_asked_for(
    rows: Seq<Option<SearchRowView>>,
    query: Seq<char>,
    mode: SearchMode<'_>,
    row: SearchRowView,
)
    requires
        asks_for_hits(rows, query, mode),
        rows.contains(Some(row)),
        hit_of(Some(row), query, mode) is Some,
    ensures
        selects(statement_of(query, mode).0, statement_of(query, mode).1, row.data),
{
    let i = choose|i: int| 0 <= i < rows.len() && rows[i] == Some(row);
    assert(hit_of(rows[i], query, mode) is Some);
}

/// Both statements of a search ask for the newest parts first.
pub proof fn law_newest_parts_are_asked_for_first()
    ensures
        text::ends_with(
            SCAN_SQL@,
            " FROM part ORDER BY time_created DESC"@,
        ),
        text::ends_with(
            FIXED_SEARCH_SQL@,
            " ORDER BY time_created DESC"@,
        ),
{
    reveal_strlit(
        "SELECT session_id, message_id, data FROM part ORDER BY time_created DESC",
    );
    reveal_strlit(" FROM part ORDER BY time_created DESC");
    assert(SCAN_SQL@.len() == 72 && " FROM part ORDER BY time_created DESC"@.len() == 37);
    assert(SCAN_SQL@.subrange(35, 72) =~= " FROM part ORDER BY time_created DESC"@);
    reveal_strlit(
        "SELECT session_id, message_id, data FROM part WHERE LOWER(data) LIKE ?1 ESCAPE '\\' OR INSTR(data, '\\') > 0 OR data GLOB '*[^ -~]*' OR INSTR(data, 'tool') > 0 ORDER BY time_created DESC",
    );
    reveal_strlit(" ORDER BY time_created DESC");
    assert(FIXED_SEARCH_SQL@.len() == 184 && " ORDER BY time_created DESC"@.len() == 27);
    assert(FIXED_SEARCH_SQL@.subrange(157, 184) =~= " ORDER BY time_created DESC"@);
}

} // verus!
