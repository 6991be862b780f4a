//! Strings as sequences of characters.

use vstd::prelude::*;

verus! {

/// `String::push` appends the given character to the end of the string.
pub assume_specification[ String::push ](s: &mut String, ch: char)
    ensures
        final(s)@ == old(s)@.push(ch),
;

/// White space: the characters with the Unicode property `White_Space`.
pub open spec fn white_space(ch: char) -> bool {
    ||| '\t' <= ch <= '\r'
    ||| ch == ' ' || ch == '\u{85}' || ch == '\u{a0}' || ch == '\u{1680}'
    ||| '\u{2000}' <= ch <= '\u{200a}'
    ||| ch == '\u{2028}' || ch == '\u{2029}' || ch == '\u{202f}'
    ||| ch == '\u{205f}' || ch == '\u{3000}'
}

/// Nothing but ASCII characters.
pub open spec fn is_ascii(s: Seq<char>) -> bool {
    forall|i: int| 0 <= i < s.len() ==> #[trigger] s[i] <= '\u{7f}'
}

/// A text with the ASCII letters `A` to `Z` replaced by `a` to `z`.
pub open spec fn ascii_lowered(s: Seq<char>) -> Seq<char> {
    s.map_values(
        |ch: char|
            if 'A' <= ch <= 'Z' {
                (ch as u32 + 32) as char
            } else {
                ch
            },
    )
}

/// What `str::to_lowercase` makes of a text, by the rules of Unicode.
pub uninterp spec fn unicode_lowered(text: Seq<char>) -> Seq<char>;

/// The lowercase form of a text. Beyond ASCII it goes by the rules of Unicode.
pub open spec fn lowercase(s: Seq<char>) -> Seq<char> {
    if is_ascii(s) {
        ascii_lowered(s)
    } else {
        unicode_lowered(s)
    }
}

/// What is claimed of `str::to_lowercase`: the lowercase form rests on the text alone, and in
/// a text of ASCII characters it differs in the letters `A` to `Z`, which become `a` to `z`.
pub assume_specification[ str::to_lowercase ](s: &str) -> (lower: String)
    ensures
        lower@ == unicode_lowered(s@),
        is_ascii(s@) ==> lower@ == ascii_lowered(s@),
;

/// Nothing but white space.
pub open spec fn blank(s: Seq<char>) -> bool {
    forall|i: int| 0 <= i < s.len() ==> white_space(#[trigger] s[i])
}

/// `needle` stands in `hay` from position `at` on.
pub open spec fn occurs_at(hay: Seq<char>, needle: Seq<char>, at: int) -> bool {
    &&& 0 <= at
    &&& at + needle.len() <= hay.len()
    &&& hay.subrange(at, at + needle.len()) == needle
}

/// `needle` stands somewhere in `hay`.
pub open spec fn is_infix(needle: Seq<char>, hay: Seq<char>) -> bool {
    exists|at: int| occurs_at(hay, needle, at)
}

/// Nothing but ASCII characters that are neither control characters nor beyond `~`.
pub open spec fn is_printable_ascii(s: Seq<char>) -> bool {
    forall|i: int| 0 <= i < s.len() ==> ' ' <= #[trigger] s[i] <= '~'
}

/// `s` ends with `suffix`.
pub open spec fn ends_with(s: Seq<char>, suffix: Seq<char>) -> bool {
    occurs_at(s, suffix, s.len() - suffix.len())
}

/// The characters of a string.
pub(crate) fn chars_of(s: &str) -> (chars: Vec<char>)
    ensures
        chars@ == s@,
{
    let mut chars: Vec<char> = Vec::new();
    for ch in it: s.chars()
        invariant
            it.seq() == s@,
            chars@ == s@.take(it.index() as int),
    {
        chars.push(ch);
    }
    chars
}

/// Whether two strings are the same.
pub(crate) fn same(a: &str, b: &str) -> (yes: bool)
    ensures
        yes == (a@ == b@),
{
    let left = chars_of(a);
    let right = chars_of(b);
    if left.len() != right.len() {
        return false;
    }
    assert(left@.subrange(0, left@.len() as int) =~= left@);
    matches_at(&left, &right, 0)
}

/// Whether a character is white space.
pub(crate) fn is_white_space(ch: char) -> (yes: bool)
    ensures
        yes == white_space(ch),
{
    match ch {
        '\t'..='\r' | ' ' | '\u{85}' | '\u{a0}' | '\u{1680}' => true,
        '\u{2000}'..='\u{200a}' | '\u{2028}' | '\u{2029}' | '\u{202f}' => true,
        '\u{205f}' | '\u{3000}' => true,
        _ => false,
    }
}

/// Whether a string holds nothing but white space.
pub(crate) fn is_blank(s: &str) -> (yes: bool)
    ensures
        yes == blank(s@),
{
    for ch in it: s.chars()
        invariant
            it.seq() == s@,
            blank(s@.take(it.index() as int)),
    {
        if !is_white_space(ch) {
            assert(s@[it.index() as int] == ch);
            return false;
        }
    }
    assert(s@.take(s@.len() as int) == s@);
    true
}

/// The string of the characters from `from` up to `to`.
pub(crate) fn string_of(chars: &Vec<char>, from: usize, to: usize) -> (s: String)
    requires
        from <= to <= chars.len(),
    ensures
        s@ == chars@.subrange(from as int, to as int),
{
    let mut s = String::new();
    for i in from..to
        invariant
            from <= to <= chars.len(),
            s@ == chars@.subrange(from as int, i as int),
    {
        s.push(chars[i]);
    }
    s
}

/// Whether `needle` stands somewhere in `hay`.
pub(crate) fn contains(hay: &Vec<char>, needle: &Vec<char>) -> (found: bool)
    ensures
        found == is_infix(needle@, hay@),
{
    if needle.len() > hay.len() {
        return false;
    }
    let last = hay.len() - needle.len();
    for at in 0..last
        invariant
            last == hay.len() - needle.len(),
            forall|j: int| 0 <= j < at ==> !occurs_at(hay@, needle@, j),
    {
        if matches_at(hay, needle, at) {
            return true;
        }
    }
    matches_at(hay, needle, last)
}

/// Whether `needle` stands in `hay` from position `at` on.
pub(crate) fn matches_at(hay: &Vec<char>, needle: &Vec<char>, at: usize) -> (found: bool)
    requires
        at + needle.len() <= hay.len(),
    ensures
        found == occurs_at(hay@, needle@, at as int),
{
    for k in 0..needle.len()
        invariant
            at + needle.len() <= hay.len(),
            forall|j: int| 0 <= j < k ==> hay@[at + j] == needle@[j],
    {
        if hay[at + k] != needle[k] {
            assert(hay@.subrange(at as int, at + needle.len())[k as int] != needle@[k as int]);
            return false;
        }
    }
    assert(hay@.subrange(at as int, at + needle.len()) =~= needle@);
    true
}

/// The position of the last `ch` in `chars`, if there is one.
pub(crate) fn last_position(chars: &Vec<char>, ch: char) -> (at: Option<usize>)
    ensures
        match at {
            Some(i) => i < chars.len() && chars@[i as int] == ch && !chars@.skip(i + 1).contains(
                ch,
            ),
            None => !chars@.contains(ch),
        },
{
    let mut i = chars.len();
    while i > 0
        invariant
            i <= chars.len(),
            forall|j: int| i <= j < chars.len() ==> chars@[j] != ch,
        decreases i,
    {
        i = i - 1;
        if chars[i] == ch {
            return Some(i);
        }
    }
    None
}

/// What stands in a piece of a text stands in the text.
pub(crate) proof fn lemma_infix_of_infix(a: Seq<char>, b: Seq<char>, c: Seq<char>)
    requires
        is_infix(a, b),
        is_infix(b, c),
    ensures
        is_infix(a, c),
{
    let i = choose|i: int| occurs_at(b, a, i);
    let j = choose|j: int| occurs_at(c, b, j);
    assert forall|k: int| 0 <= k < a.len() implies c.subrange(i + j, i + j + a.len())[k]
        == a[k] by {
        assert(c.subrange(j, j + b.len())[i + k] == b[i + k]);
        assert(b.subrange(i, i + a.len())[k] == a[k]);
    }
    assert(c.subrange(i + j, i + j + a.len()) =~= a);
    assert(occurs_at(c, a, i + j));
}

/// A piece of printable ASCII text is ASCII, and its lowercase form stands in that of the
/// text.
pub(crate) proof fn lemma_lowered_infix(piece: Seq<char>, whole: Seq<char>)
    requires
        is_infix(piece, whole),
        is_printable_ascii(whole),
    ensures
        is_ascii(piece),
        is_infix(lowercase(piece), ascii_lowered(whole)),
{
    let at = choose|at: int| occurs_at(whole, piece, at);
    let n = piece.len() as int;
    assert forall|i: int| 0 <= i < n implies #[trigger] piece[i] <= '\u{7f}' by {
        assert(whole.subrange(at, at + n)[i] == whole[at + i]);
    }
    assert(ascii_lowered(whole).subrange(at, at + n) =~= ascii_lowered(
        whole.subrange(at, at + n),
    ));
    assert(occurs_at(ascii_lowered(whole), ascii_lowered(piece), at));
}

/// Which characters are white space, by their numbers. Of the ASCII characters they are the
/// space and the five from the tab on.
pub proof fn law_white_space_characters(ch: char)
    ensures
        ch < 128 ==> (white_space(ch) <==> ch == 32 || 9 <= ch <= 13),
        ch >= 128 ==> (white_space(ch) <==> ch == 0x85 || ch == 0xa0 || ch == 0x1680 || 0x2000 <= ch
            <= 0x200a || ch == 0x2028 || ch == 0x2029 || ch == 0x202f || ch == 0x205f || ch
            == 0x3000),
{
}

/// One character that is not white space, at any position, makes a text that is not blank. A
/// text without one is blank.
pub proof fn law_blank_texts_are_all_white_space(s: Seq<char>)
    ensures
        forall|i: int| 0 <= i < s.len() && !white_space(#[trigger] s[i]) ==> !blank(s),
        !blank(s) ==> exists|i: int| 0 <= i < s.len() && !white_space(#[trigger] s[i]),
{
}

/// Two texts make a blank one exactly if both are blank, and white space makes one by itself.
pub proof fn law_blank_texts_join(a: Seq<char>, b: Seq<char>, ch: char)
    ensures
        blank(a + b) <==> blank(a) && blank(b),
        blank(seq![ch]) <==> white_space(ch),
        blank(Seq::<char>::empty()),
{
    let both = a + b;
    if blank(both) {
        assert forall|i: int| 0 <= i < a.len() implies white_space(#[trigger] a[i]) by {
            assert(both[i] == a[i]);
        }
        assert forall|i: int| 0 <= i < b.len() implies white_space(#[trigger] b[i]) by {
            assert(both[a.len() + i] == b[i]);
        }
    }
    if blank(seq![ch]) {
        assert(white_space(seq![ch][0]));
    }
}

/// A text stands in each text that it is a piece of, where it begins there.
pub proof fn law_pieces_are_infixes(before: Seq<char>, piece: Seq<char>, after: Seq<char>)
    ensures
        occurs_at(before + piece + after, piece, before.len() as int),
        is_infix(piece, before + piece + after),
        ends_with(before + piece, piece),
{
    let whole = before + piece + after;
    let n = before.len() as int;
    assert(whole.subrange(n, n + piece.len()) =~= piece);
    assert(occurs_at(whole, piece, n));
    assert((before + piece).subrange(n, n + piece.len()) =~= piece);
}

/// A text is a piece of each text that it stands in.
pub proof fn law_infixes_are_pieces(hay: Seq<char>, needle: Seq<char>, at: int)
    ensures
        occurs_at(hay, needle, at) ==> 0 <= at <= hay.len() && hay == hay.take(at) + needle
            + hay.skip(at + needle.len()),
        is_infix(needle, hay) ==> exists|before: Seq<char>, after: Seq<char>|
            hay == #[trigger] (before + needle + after),
        ends_with(hay, needle) ==> exists|before: Seq<char>| hay == #[trigger] (before + needle),
{
    if occurs_at(hay, needle, at) {
        lemma_split_around(hay, needle, at);
    }
    if is_infix(needle, hay) {
        let k = choose|k: int| occurs_at(hay, needle, k);
        lemma_split_around(hay, needle, k);
        assert(hay == hay.take(k) + needle + hay.skip(k + needle.len()));
    }
    if ends_with(hay, needle) {
        let k = hay.len() - needle.len();
        lemma_split_around(hay, needle, k);
        assert(hay =~= hay.take(k) + needle);
    }
}

proof fn lemma_split_around(hay: Seq<char>, needle: Seq<char>, at: int)
    requires
        occurs_at(hay, needle, at),
    ensures
        hay == hay.take(at) + needle + hay.skip(at + needle.len()),
{
    assert(hay =~= hay.take(at) + hay.subrange(at, at + needle.len()) + hay.skip(
        at + needle.len(),
    ));
}

/// Lowering the ASCII letters changes the capitals, by 32, and nothing else.
pub proof fn law_ascii_lowered_letters(s: Seq<char>, i: int)
    requires
        0 <= i < s.len(),
    ensures
        ascii_lowered(s).len() == s.len(),
        65 <= s[i] <= 90 ==> ascii_lowered(s)[i] as int == s[i] as int + 32,
        !(65 <= s[i] <= 90) ==> ascii_lowered(s)[i] == s[i],
{
}

/// The lowercase form of ASCII text has its capitals lowered, and any other text's is that of
/// Unicode.
pub proof fn law_lowercase_forms(s: Seq<char>)
    ensures
        (forall|i: int| 0 <= i < s.len() ==> #[trigger] s[i] < 128) ==> lowercase(s)
            == ascii_lowered(s),
        (exists|i: int| 0 <= i < s.len() && #[trigger] s[i] >= 128) ==> lowercase(s)
            == unicode_lowered(s),
{
}

/// One character decides that a text is not printable ASCII, and no text without one is left
/// out.
pub proof fn law_printable_characters(s: Seq<char>)
    ensures
        is_printable_ascii(s) <==> !exists|i: int|
            0 <= i < s.len() && (#[trigger] s[i] < 32 || s[i] > 126),
        is_ascii(s) <==> !exists|i: int| 0 <= i < s.len() && #[trigger] s[i] > 127,
{
}

} // verus!
