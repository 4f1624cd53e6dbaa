//! The statements that plugins can run: a single selection each.

use crate::text::chars_of;
use crate::text::index_from;
use crate::text::index_from_is_first;
use crate::text::index_of;
use crate::text::is_white_space;
use crate::text::trim_bounds;
use crate::text::trimmed;
use crate::text::trimmed_within;
use crate::text::text_of;
use crate::text::white_space;
use vstd::prelude::*;

verus! {

/// What a place in a statement stands in.
pub enum Reading {
    /// Code. `carried` tells that only white space and comments followed a literal with
    /// escapes: a literal that comes next is a part of it.
    Code { carried: bool },
    /// A comment from two dashes to the end of the line.
    Comment { carried: bool },
    /// A literal in single quotes, where `escapes` tells that a backslash escapes.
    Literal { escapes: bool },
    /// A name in double quotes.
    Name,
    /// A literal between two marks such as `$$` or `$tag$`.
    Marked { mark: Seq<char> },
    /// Block comments, one in the other.
    Block { depth: nat },
}

/// What is read at once: some characters, whether they are kept, and what stands behind them.
pub struct Token {
    pub len: int,
    pub kept: bool,
    pub next: Reading,
}

/// Whether a character can stand in a word: an ASCII letter or digit, an underscore or anything
/// outside of ASCII.
pub open spec fn word_char(c: char) -> bool {
    ||| 'a' <= c && c <= 'z'
    ||| 'A' <= c && c <= 'Z'
    ||| '0' <= c && c <= '9'
    ||| c == '_'
    ||| c as int >= 0x80
}

/// Whether a word goes on at `i`, from the character before it.
pub open spec fn in_word(s: Seq<char>, i: int) -> bool {
    0 < i <= s.len() && (word_char(s[i - 1]) || s[i - 1] == '$')
}

/// Where the word characters from `i` on end.
pub open spec fn word_end(s: Seq<char>, i: int) -> int
    decreases s.len() - i,
{
    if 0 <= i < s.len() && word_char(s[i]) {
        word_end(s, i + 1)
    } else {
        i
    }
}

/// Whether a mark begins at `i`: a dollar sign that is no part of a word, a tag that does not
/// begin with a digit, or none, and a dollar sign.
pub open spec fn mark_at(s: Seq<char>, i: int) -> bool {
    &&& 0 <= i < s.len()
    &&& s[i] == '$'
    &&& !in_word(s, i)
    &&& word_end(s, i + 1) < s.len()
    &&& s[word_end(s, i + 1)] == '$'
    &&& !('0' <= s[i + 1] && s[i + 1] <= '9')
}

/// The mark that begins at `i`.
pub open spec fn mark_from(s: Seq<char>, i: int) -> Seq<char> {
    s.subrange(i, word_end(s, i + 1) + 1)
}

/// Whether two characters stand at `i`.
pub open spec fn pair_at(s: Seq<char>, i: int, a: char, b: char) -> bool {
    0 <= i && i + 1 < s.len() && s[i] == a && s[i + 1] == b
}

/// Whether the quote at `i` opens a literal with escapes: the letter `E` alone stands before it.
pub open spec fn escape_at(s: Seq<char>, i: int) -> bool {
    0 < i <= s.len() && (s[i - 1] == 'e' || s[i - 1] == 'E') && !in_word(s, i - 1)
}

/// What is read at `i`.
pub open spec fn token(s: Seq<char>, i: int, reading: Reading) -> Token {
    match reading {
        Reading::Code { carried } => if pair_at(s, i, '-', '-') {
            Token { len: 2, kept: false, next: Reading::Comment { carried } }
        } else if pair_at(s, i, '/', '*') {
            Token { len: 2, kept: true, next: Reading::Block { depth: 1 } }
        } else if s[i] == '\'' {
            let escapes = carried || escape_at(s, i);
            Token { len: 1, kept: true, next: Reading::Literal { escapes } }
        } else if s[i] == '"' {
            Token { len: 1, kept: true, next: Reading::Name }
        } else if mark_at(s, i) {
            let mark = mark_from(s, i);
            Token { len: mark.len() as int, kept: true, next: Reading::Marked { mark } }
        } else {
            let carried = carried && white_space(s[i]);
            Token { len: 1, kept: true, next: Reading::Code { carried } }
        },
        Reading::Comment { carried } => if s[i] == '\n' {
            Token { len: 1, kept: true, next: Reading::Code { carried } }
        } else {
            Token { len: 1, kept: false, next: reading }
        },
        Reading::Literal { escapes } => if pair_at(s, i, '\'', '\'') || (escapes && s[i] == '\\'
            && i + 1 < s.len()) {
            Token { len: 2, kept: true, next: reading }
        } else if s[i] == '\'' {
            Token { len: 1, kept: true, next: Reading::Code { carried: escapes } }
        } else {
            Token { len: 1, kept: true, next: reading }
        },
        Reading::Name => if s[i] == '"' {
            Token { len: 1, kept: true, next: Reading::Code { carried: false } }
        } else {
            Token { len: 1, kept: true, next: reading }
        },
        Reading::Marked { mark } => if mark.len() > 0 && mark.len() <= s.len() - i && s.subrange(
            i,
            i + mark.len(),
        ) == mark {
            Token { len: mark.len() as int, kept: true, next: Reading::Code { carried: false } }
        } else {
            Token { len: 1, kept: true, next: reading }
        },
        Reading::Block { depth } => if pair_at(s, i, '/', '*') {
            Token { len: 2, kept: true, next: Reading::Block { depth: depth + 1 } }
        } else if pair_at(s, i, '*', '/') {
            let next = if depth <= 1 {
                Reading::Code { carried: false }
            } else {
                Reading::Block { depth: (depth - 1) as nat }
            };
            Token { len: 2, kept: true, next }
        } else {
            Token { len: 1, kept: true, next: reading }
        },
    }
}

proof fn word_end_is_later(s: Seq<char>, i: int)
    requires
        0 <= i,
    ensures
        i <= word_end(s, i),
        i <= s.len() ==> word_end(s, i) <= s.len(),
        forall|k: int| i <= k < word_end(s, i) ==> word_char(#[trigger] s[k]),
        word_end(s, i) < s.len() ==> !word_char(s[word_end(s, i)]),
    decreases s.len() - i,
{
    if i < s.len() && word_char(s[i]) {
        word_end_is_later(s, i + 1);
    }
}

/// What is read at a place of a text is at least one of its characters.
pub proof fn tokens_advance(s: Seq<char>, i: int, reading: Reading)
    requires
        0 <= i < s.len(),
    ensures
        1 <= token(s, i, reading).len <= s.len() - i,
{
    if mark_at(s, i) {
        word_end_is_later(s, i + 1);
    }
}

/// What stands in a text from `i` on without its comments to the end of a line. What is quoted,
/// and block comments, are kept as they are: dashes in them begin no comment.
pub open spec fn code(s: Seq<char>, i: int, reading: Reading) -> Seq<char>
    decreases s.len() - i,
{
    if i < 0 || i >= s.len() {
        Seq::empty()
    } else {
        proof {
            tokens_advance(s, i, reading);
        }
        let token = token(s, i, reading);
        let rest = code(s, i + token.len, token.next);
        if token.kept {
            s.subrange(i, i + token.len) + rest
        } else {
            rest
        }
    }
}

/// Whether the place `k` of a text, read from `i` on, stands outside of the comments to the end
/// of a line.
pub open spec fn stands(s: Seq<char>, i: int, reading: Reading, k: int) -> bool
    decreases s.len() - i,
{
    if i < 0 || i >= s.len() || k < i {
        false
    } else {
        proof {
            tokens_advance(s, i, reading);
        }
        let token = token(s, i, reading);
        if k < i + token.len {
            token.kept
        } else {
            stands(s, i + token.len, token.next, k)
        }
    }
}

/// What a text that is read from `i` on ends in.
pub open spec fn ending(s: Seq<char>, i: int, reading: Reading) -> Reading
    decreases s.len() - i,
{
    if i < 0 || i >= s.len() {
        reading
    } else {
        proof {
            tokens_advance(s, i, reading);
        }
        let token = token(s, i, reading);
        ending(s, i + token.len, token.next)
    }
}

/// What a statement begins in.
pub open spec fn beginning() -> Reading {
    Reading::Code { carried: false }
}

/// A statement without its comments and without the white space around it.
pub open spec fn bare(sql: Seq<char>) -> Seq<char> {
    trimmed(code(sql, 0, beginning()))
}

/// The upper case of an ASCII letter; any other character as it is.
pub open spec fn upper(c: char) -> char {
    if 'a' <= c && c <= 'z' {
        (c as int - 32) as char
    } else {
        c
    }
}

/// Whether a text begins with a word, whatever the case of its ASCII letters.
pub open spec fn begins_with(s: Seq<char>, word: Seq<char>) -> bool {
    word.len() <= s.len() && forall|i: int|
        0 <= i < word.len() ==> upper(#[trigger] s[i]) == word[i]
}

/// Whether a statement is a single selection: without comments it begins as one, and a
/// semicolon, quoted or not, stands nowhere but at its end.
pub open spec fn selects(sql: Seq<char>) -> bool {
    let statement = bare(sql);
    &&& index_from(statement, ';', 0) >= statement.len() - 1
    &&& begins_with(statement, "SELECT"@) || begins_with(statement, "WITH"@)
}

/// A `Reading` with its mark as a stretch of the text.
#[derive(Clone, Copy)]
enum Place {
    Code { carried: bool },
    Comment { carried: bool },
    Literal { escapes: bool },
    Name,
    Marked { from: usize, to: usize },
    Block { depth: usize },
}

impl Place {
    spec fn reading(self, s: Seq<char>) -> Reading {
        match self {
            Place::Code { carried } => Reading::Code { carried },
            Place::Comment { carried } => Reading::Comment { carried },
            Place::Literal { escapes } => Reading::Literal { escapes },
            Place::Name => Reading::Name,
            Place::Marked { from, to } => Reading::Marked {
                mark: s.subrange(from as int, to as int),
            },
            Place::Block { depth } => Reading::Block { depth: depth as nat },
        }
    }

    /// Whether a place before `i` can be this.
    spec fn fits(self, s: Seq<char>, i: int) -> bool {
        match self {
            Place::Marked { from, to } => from < to <= i <= s.len(),
            Place::Block { depth } => depth <= i,
            _ => true,
        }
    }
}

fn is_word_char(c: char) -> (r: bool)
    ensures
        r == word_char(c),
{
    ('a' <= c && c <= 'z') || ('A' <= c && c <= 'Z') || ('0' <= c && c <= '9') || c == '_'
        || c as u32 >= 0x80
}

fn is_in_word(chars: &Vec<char>, i: usize) -> (r: bool)
    requires
        i <= chars.len(),
    ensures
        r == in_word(chars@, i as int),
{
    i > 0 && (is_word_char(chars[i - 1]) || chars[i - 1] == '$')
}

fn is_pair(chars: &Vec<char>, i: usize, a: char, b: char) -> (r: bool)
    requires
        i < chars.len(),
    ensures
        r == pair_at(chars@, i as int, a, b),
{
    chars.len() - i >= 2 && chars[i] == a && chars[i + 1] == b
}

/// The end of the mark that begins at `i`, if one does.
fn find_mark(chars: &Vec<char>, i: usize) -> (end: Option<usize>)
    requires
        i < chars.len(),
    ensures
        match end {
            Some(end) => mark_at(chars@, i as int) && i < end <= chars.len() && mark_from(
                chars@,
                i as int,
            ) == chars@.subrange(i as int, end as int),
            None => !mark_at(chars@, i as int),
        },
{
    if chars[i] != '$' || is_in_word(chars, i) {
        return None;
    }
    let mut end: usize = i + 1;
    while end < chars.len() && is_word_char(chars[end])
        invariant
            i < end <= chars.len(),
            word_end(chars@, end as int) == word_end(chars@, i + 1),
        decreases chars.len() - end,
    {
        end += 1;
    }
    proof {
        word_end_is_later(chars@, i + 1);
    }
    if end < chars.len() && chars[end] == '$' && !('0' <= chars[i + 1] && chars[i + 1] <= '9') {
        Some(end + 1)
    } else {
        None
    }
}

/// Whether the characters from `from` to `to` stand again at `i`.
fn stands_again(chars: &Vec<char>, from: usize, to: usize, i: usize) -> (r: bool)
    requires
        from < to <= i < chars.len(),
    ensures
        r == (to - from <= chars.len() - i && chars@.subrange(i as int, i + (to - from))
            == chars@.subrange(from as int, to as int)),
{
    if to - from > chars.len() - i {
        return false;
    }
    let ghost mark = chars@.subrange(from as int, to as int);
    let ghost here = chars@.subrange(i as int, i + (to - from));
    let mut k: usize = 0;
    while k < to - from
        invariant
            k <= to - from <= chars.len() - i,
            from < to <= i < chars.len(),
            mark == chars@.subrange(from as int, to as int),
            here == chars@.subrange(i as int, i + (to - from)),
            forall|j: int| 0 <= j < k ==> here[j] == mark[j],
        decreases to - from - k,
    {
        proof {
            assert(here[k as int] == chars@[i + k]);
            assert(mark[k as int] == chars@[from + k]);
        }
        if chars[i + k] != chars[from + k] {
            return false;
        }
        k += 1;
    }
    proof {
        assert(here =~= mark);
    }
    true
}

/// What is read at `i`: how many characters, whether they are kept, and what stands behind them.
fn read_token(chars: &Vec<char>, i: usize, place: Place) -> (r: (usize, bool, Place))
    requires
        i < chars.len(),
        place.fits(chars@, i as int),
    ensures
        token(chars@, i as int, place.reading(chars@)) == (Token {
            len: r.0 as int,
            kept: r.1,
            next: r.2.reading(chars@),
        }),
        1 <= r.0 <= chars.len() - i,
        r.2.fits(chars@, i + r.0),
{
    let c = chars[i];
    match place {
        Place::Code { carried } => if is_pair(chars, i, '-', '-') {
            (2, false, Place::Comment { carried })
        } else if is_pair(chars, i, '/', '*') {
            (2, true, Place::Block { depth: 1 })
        } else if c == '\'' {
            let escape = i > 0 && (chars[i - 1] == 'e' || chars[i - 1] == 'E') && !is_in_word(
                chars,
                i - 1,
            );
            (1, true, Place::Literal { escapes: carried || escape })
        } else if c == '"' {
            (1, true, Place::Name)
        } else {
            match find_mark(chars, i) {
                Some(end) => (end - i, true, Place::Marked { from: i, to: end }),
                None => (1, true, Place::Code { carried: carried && is_white_space(c) }),
            }
        },
        Place::Comment { carried } => if c == '\n' {
            (1, true, Place::Code { carried })
        } else {
            (1, false, place)
        },
        Place::Literal { escapes } => if is_pair(chars, i, '\'', '\'') || (escapes && c == '\\'
            && chars.len() - i >= 2) {
            (2, true, place)
        } else if c == '\'' {
            (1, true, Place::Code { carried: escapes })
        } else {
            (1, true, place)
        },
        Place::Name => if c == '"' {
            (1, true, Place::Code { carried: false })
        } else {
            (1, true, place)
        },
        Place::Marked { from, to } => if stands_again(chars, from, to, i) {
            (to - from, true, Place::Code { carried: false })
        } else {
            (1, true, place)
        },
        Place::Block { depth } => if is_pair(chars, i, '/', '*') {
            (2, true, Place::Block { depth: depth + 1 })
        } else if is_pair(chars, i, '*', '/') {
            if depth <= 1 {
                (2, true, Place::Code { carried: false })
            } else {
                (2, true, Place::Block { depth: depth - 1 })
            }
        } else {
            (1, true, place)
        },
    }
}

fn uncommented(chars: &Vec<char>) -> (kept: Vec<char>)
    ensures
        kept@ == code(chars@, 0, beginning()),
{
    let mut kept: Vec<char> = Vec::new();
    let mut place = Place::Code { carried: false };
    let mut i: usize = 0;
    proof {
        assert(kept@ + code(chars@, 0, beginning()) =~= code(chars@, 0, beginning()));
    }
    while i < chars.len()
        invariant
            i <= chars.len(),
            place.fits(chars@, i as int),
            kept@ + code(chars@, i as int, place.reading(chars@)) == code(chars@, 0, beginning()),
        decreases chars.len() - i,
    {
        let (len, keep, next) = read_token(chars, i, place);
        let ghost before = kept@;
        let ghost read = chars@.subrange(i as int, i + len);
        if keep {
            let mut k: usize = 0;
            while k < len
                invariant
                    k <= len <= chars.len() - i,
                    i < chars.len(),
                    kept@ == before + chars@.subrange(i as int, i + k),
                decreases len - k,
            {
                kept.push(chars[i + k]);
                proof {
                    assert(chars@.subrange(i as int, i + k + 1) =~= chars@.subrange(
                        i as int,
                        i + k,
                    ).push(chars@[i + k]));
                }
                k += 1;
            }
        }
        proof {
            let rest = code(chars@, i + len, next.reading(chars@));
            assert((before + read) + rest =~= before + (read + rest));
        }
        place = next;
        i += len;
    }
    proof {
        assert(kept@ + code(chars@, chars.len() as int, place.reading(chars@)) =~= kept@);
    }
    kept
}

fn upper_char(c: char) -> (r: char)
    ensures
        r == upper(c),
{
    match c {
        'a' => 'A',
        'b' => 'B',
        'c' => 'C',
        'd' => 'D',
        'e' => 'E',
        'f' => 'F',
        'g' => 'G',
        'h' => 'H',
        'i' => 'I',
        'j' => 'J',
        'k' => 'K',
        'l' => 'L',
        'm' => 'M',
        'n' => 'N',
        'o' => 'O',
        'p' => 'P',
        'q' => 'Q',
        'r' => 'R',
        's' => 'S',
        't' => 'T',
        'u' => 'U',
        'v' => 'V',
        'w' => 'W',
        'x' => 'X',
        'y' => 'Y',
        'z' => 'Z',
        _ => c,
    }
}

fn has_prefix(chars: &Vec<char>, from: usize, to: usize, word: &str) -> (r: bool)
    requires
        from <= to <= chars.len(),
    ensures
        r == begins_with(chars@.subrange(from as int, to as int), word@),
{
    let letters = chars_of(word);
    let ghost s = chars@.subrange(from as int, to as int);
    if letters.len() > to - from {
        return false;
    }
    let mut i: usize = 0;
    while i < letters.len()
        invariant
            i <= letters.len() <= to - from,
            from <= to <= chars.len(),
            letters@ == word@,
            s == chars@.subrange(from as int, to as int),
            forall|k: int| 0 <= k < i ==> upper(#[trigger] s[k]) == word@[k],
        decreases letters.len() - i,
    {
        proof {
            assert(s[i as int] == chars@[from + i]);
        }
        if upper_char(chars[from + i]) != letters[i] {
            return false;
        }
        i += 1;
    }
    true
}

/// Whether a statement is a single selection.
pub fn statement_is_read_only(sql: &str) -> (allowed: bool)
    ensures
        allowed == selects(sql@),
{
    let kept = uncommented(&chars_of(sql));
    let (from, to) = trim_bounds(&kept);
    let statement = chars_of(text_of(&kept, from, to).as_str());
    proof {
        assert(statement@ == bare(sql@));
        index_from_is_first(statement@, ';', 0);
    }
    let semicolon: usize = index_of(&statement, ';');
    if semicolon < statement.len() && semicolon != statement.len() - 1 {
        return false;
    }
    proof {
        assert(statement@.subrange(0, statement.len() as int) =~= statement@);
    }
    has_prefix(&statement, 0, statement.len(), "SELECT") || has_prefix(
        &statement,
        0,
        statement.len(),
        "WITH",
    )
}

/// White space around a text is trimmed with the white space at its ends.
proof fn trimmed_of_surrounded(before: Seq<char>, s: Seq<char>, after: Seq<char>)
    requires
        forall|k: int| 0 <= k < before.len() ==> white_space(#[trigger] before[k]),
        forall|k: int| 0 <= k < after.len() ==> white_space(#[trigger] after[k]),
    ensures
        trimmed(before + s + after) == trimmed(s),
{
    let all = before + s + after;
    let n = before.len() as int;
    let (from, to) = trimmed_within(s);
    let (first, last) = trimmed_within(all);
    assert forall|k: int| 0 <= k < s.len() implies all[n + k] == #[trigger] s[k] by {}
    assert forall|k: int|
        0 <= k < all.len() && !(n + from <= k < n + to) implies white_space(#[trigger] all[k]) by {
        if k < n {
            assert(all[k] == before[k]);
        } else if k < n + s.len() {
            assert(all[k] == s[k - n]);
        } else {
            assert(all[k] == after[k - n - s.len()]);
        }
    }
    if from < to {
        assert(all[n + from] == s[from]);
        assert(all[n + to - 1] == s[to - 1]);
        assert(first <= n + from && n + to <= last);
        assert(first == n + from);
        assert(last == n + to);
        assert(all.subrange(first, last) =~= s.subrange(from, to));
    } else {
        assert(first == last);
        assert(all.subrange(first, last) =~= s.subrange(from, to));
    }
}

/// The place in the code of a place that stands.
proof fn standing_place(s: Seq<char>, i: int, reading: Reading, k: int) -> (at: int)
    requires
        0 <= i,
        stands(s, i, reading, k),
    ensures
        i <= k < s.len(),
        0 <= at < code(s, i, reading).len(),
        code(s, i, reading)[at] == s[k],
    decreases s.len() - i,
{
    tokens_advance(s, i, reading);
    let token = token(s, i, reading);
    let read = s.subrange(i, i + token.len);
    if k < i + token.len {
        assert(read[k - i] == s[k]);
        k - i
    } else {
        let at = standing_place(s, i + token.len, token.next, k);
        if token.kept {
            token.len + at
        } else {
            at
        }
    }
}

/// Places that stand keep their order in the code.
proof fn standing_places(s: Seq<char>, i: int, reading: Reading, k: int, m: int) -> (at: (int, int))
    requires
        0 <= i,
        k < m,
        stands(s, i, reading, k),
        stands(s, i, reading, m),
    ensures
        k < m < s.len(),
        0 <= at.0 < at.1 < code(s, i, reading).len(),
        code(s, i, reading)[at.0] == s[k],
        code(s, i, reading)[at.1] == s[m],
    decreases s.len() - i,
{
    tokens_advance(s, i, reading);
    let token = token(s, i, reading);
    let read = s.subrange(i, i + token.len);
    if m < i + token.len {
        assert(read[k - i] == s[k]);
        assert(read[m - i] == s[m]);
        (k - i, m - i)
    } else if k < i + token.len {
        assert(read[k - i] == s[k]);
        (k - i, token.len + standing_place(s, i + token.len, token.next, m))
    } else {
        let at = standing_places(s, i + token.len, token.next, k, m);
        if token.kept {
            (token.len + at.0, token.len + at.1)
        } else {
            at
        }
    }
}

/// A statement that is taken is one only: behind a semicolon that stands outside of the comments
/// nothing stands but white space and comments, whatever is quoted.
pub proof fn accepted_statements_are_single(sql: Seq<char>, k: int, m: int)
    requires
        selects(sql),
        k < m,
        stands(sql, 0, beginning(), k),
        stands(sql, 0, beginning(), m),
        sql[k] == ';',
    ensures
        white_space(sql[m]),
{
    if !white_space(sql[m]) {
        let all = code(sql, 0, beginning());
        let (a, b) = standing_places(sql, 0, beginning(), k, m);
        let (from, to) = trimmed_within(all);
        let statement = bare(sql);
        assert(from <= a && b < to);
        assert(statement[a - from] == all[a]);
        index_from_is_first(statement, ';', 0);
    }
}

proof fn word_end_behind(p: Seq<char>, s: Seq<char>, i: int)
    requires
        0 <= i,
    ensures
        word_end(p + s, p.len() + i) == p.len() + word_end(s, i),
    decreases s.len() - i,
{
    if i < s.len() {
        assert((p + s)[p.len() + i] == s[i]);
        if word_char(s[i]) {
            word_end_behind(p, s, i + 1);
        }
    }
}

/// Whether what stands before a text changes nothing of how it is read.
spec fn parted(p: Seq<char>, s: Seq<char>) -> bool {
    ||| !in_word(p, p.len() as int)
    ||| p.len() > 0 && white_space(p.last()) && s.len() > 0 && s[0] != '$' && s[0] != 'e' && s[0]
        != 'E'
}

proof fn token_behind(p: Seq<char>, s: Seq<char>, i: int, reading: Reading)
    requires
        0 <= i < s.len(),
        parted(p, s),
    ensures
        token(p + s, p.len() + i, reading) == token(s, i, reading),
{
    let all = p + s;
    let n = p.len() as int;
    assert forall|k: int| 0 <= k < s.len() implies all[n + k] == #[trigger] s[k] by {}
    assert(n > 0 ==> all[n - 1] == p[n - 1]);
    assert(i > 0 ==> all[n + i - 1] == s[i - 1]);
    assert(i > 1 ==> all[n + i - 2] == s[i - 2]);
    word_end_behind(p, s, i + 1);
    word_end_is_later(s, i + 1);
    match reading {
        Reading::Code { .. } => {
            assert(pair_at(all, n + i, '-', '-') == pair_at(s, i, '-', '-')) by {
                assert(i + 1 < s.len() ==> all[n + (i + 1)] == s[i + 1]);
            }
            assert(pair_at(all, n + i, '/', '*') == pair_at(s, i, '/', '*')) by {
                assert(i + 1 < s.len() ==> all[n + (i + 1)] == s[i + 1]);
            }
            if s[i] == '\'' {
                assert(escape_at(all, n + i) == escape_at(s, i));
            }
            if s[i] == '$' {
                assert(in_word(all, n + i) == in_word(s, i));
                let end = word_end(s, i + 1);
                assert(end < s.len() ==> all[n + end] == s[end]);
                assert(i + 1 < s.len() ==> all[n + (i + 1)] == s[i + 1]);
                assert(mark_at(all, n + i) == mark_at(s, i));
                if mark_at(s, i) {
                    assert(mark_from(all, n + i) =~= mark_from(s, i));
                }
            }
        },
        Reading::Marked { mark } => {
            if mark.len() <= s.len() - i {
                assert(all.subrange(n + i, n + i + mark.len()) =~= s.subrange(i, i + mark.len()));
            }
        },
        _ => {
            assert(i + 1 < s.len() ==> all[n + (i + 1)] == s[i + 1]);
        },
    }
}

proof fn code_behind(p: Seq<char>, s: Seq<char>, i: int, reading: Reading)
    requires
        0 <= i <= s.len(),
        parted(p, s),
    ensures
        code(p + s, p.len() + i, reading) == code(s, i, reading),
    decreases s.len() - i,
{
    if i < s.len() {
        let all = p + s;
        let n = p.len() as int;
        token_behind(p, s, i, reading);
        tokens_advance(s, i, reading);
        let token = token(s, i, reading);
        code_behind(p, s, i + token.len, token.next);
        assert(all.subrange(n + i, n + i + token.len) =~= s.subrange(i, i + token.len));
    }
}

/// Whether a reading that has a mark has one that can be written.
spec fn well_marked(reading: Reading) -> bool {
    match reading {
        Reading::Marked { mark } => {
            &&& mark.len() >= 2
            &&& mark[0] == '$'
            &&& mark.last() == '$'
            &&& forall|k: int| 0 < k < mark.len() - 1 ==> word_char(#[trigger] mark[k])
        },
        _ => true,
    }
}

proof fn tokens_mark_well(s: Seq<char>, i: int, reading: Reading)
    requires
        0 <= i < s.len(),
        well_marked(reading),
    ensures
        well_marked(token(s, i, reading).next),
{
    if mark_at(s, i) {
        word_end_is_later(s, i + 1);
        let mark = mark_from(s, i);
        assert forall|k: int| 0 < k < mark.len() - 1 implies word_char(#[trigger] mark[k]) by {
            assert(mark[k] == s[i + k]);
        }
    }
}

proof fn word_end_before(s: Seq<char>, t: Seq<char>, i: int)
    requires
        0 <= i <= s.len(),
        t.len() > 0,
        t[0] != '$',
        !word_char(t[0]) || !t.contains('$'),
    ensures
        word_end(s, i) < s.len() ==> word_end(s + t, i) == word_end(s, i),
        word_end(s, i) == s.len() ==> {
            let end = word_end(s + t, i);
            end >= s.len() && (end < s.len() + t.len() ==> (s + t)[end] != '$')
        },
    decreases s.len() - i,
{
    if i < s.len() {
        assert((s + t)[i] == s[i]);
        if word_char(s[i]) {
            word_end_before(s, t, i + 1);
        }
    } else {
        word_end_is_later(s + t, i);
        let end = word_end(s + t, i);
        assert((s + t)[i] == t[0]);
        if end < s.len() + t.len() {
            assert((s + t)[end] == t[end - s.len()]);
        }
    }
}

/// What is read of a text does not change with what stands behind it, but for an escape that
/// the text ends in.
proof fn token_before(s: Seq<char>, t: Seq<char>, i: int, reading: Reading)
    requires
        0 <= i < s.len(),
        t.len() > 0,
        white_space(t[0]),
        !word_char(t[0]) || !t.contains('$'),
        well_marked(reading),
        reading is Literal ==> !(reading->escapes && i + 1 == s.len() && s[i] == '\\'),
    ensures
        token(s + t, i, reading) == token(s, i, reading),
{
    let all = s + t;
    assert forall|k: int| 0 <= k < s.len() implies all[k] == #[trigger] s[k] by {}
    assert(all[s.len() as int] == t[0]);
    assert(i + 1 < s.len() ==> all[i + 1] == s[i + 1]);
    match reading {
        Reading::Code { .. } => {
            if s[i] == '$' {
                word_end_before(s, t, i + 1);
                word_end_is_later(s, i + 1);
                assert(in_word(all, i) == in_word(s, i));
                assert(mark_at(all, i) == mark_at(s, i));
                if mark_at(s, i) {
                    assert(mark_from(all, i) =~= mark_from(s, i));
                }
            }
        },
        Reading::Marked { mark } => {
            if mark.len() <= s.len() - i {
                assert(all.subrange(i, i + mark.len()) =~= s.subrange(i, i + mark.len()));
            } else if mark.len() <= all.len() - i {
                let here = all.subrange(i, i + mark.len());
                let at = s.len() - i;
                assert(here[at] == t[0]);
                assert(here.last() == t[i + mark.len() - 1 - s.len()]);
                if here == mark {
                    assert(at < mark.len() - 1 ==> word_char(mark[at]));
                    assert(t.contains('$'));
                }
            }
        },
        _ => {},
    }
}

proof fn code_before_comment(a: Seq<char>, comment: Seq<char>, i: int, reading: Reading)
    requires
        !comment.contains('\n'),
        0 <= i <= a.len(),
        well_marked(reading),
        ending(a, i, reading) is Code || ending(a, i, reading) is Comment,
    ensures
        code(a + (seq!['\n', '-', '-'] + comment), i, reading) == code(a, i, reading) + seq!['\n'],
    decreases a.len() - i,
{
    let t = seq!['\n', '-', '-'] + comment;
    let s = a + t;
    if i < a.len() {
        tokens_advance(a, i, reading);
        tokens_mark_well(a, i, reading);
        let token = token(a, i, reading);
        if reading is Literal && i + 1 == a.len() && a[i] == '\\' {
            assert(token.len == 1);
            assert(ending(a, i + 1, reading) == reading);
        }
        assert(t[0] == '\n');
        token_before(a, t, i, reading);
        code_before_comment(a, comment, i + token.len, token.next);
        let rest = code(a, i + token.len, token.next);
        let read = a.subrange(i, i + token.len);
        assert(s.subrange(i, i + token.len) =~= read);
        assert(read + (rest + seq!['\n']) =~= (read + rest) + seq!['\n']);
    } else {
        let n = a.len() as int;
        assert(s[n] == '\n');
        assert(s[n + 1] == '-');
        assert(s[n + 2] == '-');
        assert forall|k: int| n + 3 <= k < s.len() implies s[k] != '\n' by {
            assert(s[k] == comment[k - n - 3]);
        }
        let next = token(s, n, reading).next;
        assert(token(s, n, reading).len == 1);
        assert(next is Code);
        let within = token(s, n + 1, next).next;
        assert(within is Comment);
        comment_is_dropped(s, n + 3, within);
        assert(code(s, n + 1, next) == code(s, n + 3, within));
        assert(s.subrange(n, n + 1) =~= seq!['\n']);
        assert(code(a, i, reading) + seq!['\n'] =~= seq!['\n']);
        assert(seq!['\n'] + Seq::<char>::empty() =~= seq!['\n']);
    }
}

proof fn comment_is_dropped(s: Seq<char>, i: int, reading: Reading)
    requires
        0 <= i,
        reading is Comment,
        forall|k: int| i <= k < s.len() ==> s[k] != '\n',
    ensures
        code(s, i, reading) == Seq::<char>::empty(),
    decreases s.len() - i,
{
    if i < s.len() {
        comment_is_dropped(s, i + 1, reading);
    }
}

/// What a comment holds does not decide: with a comment below it a statement is taken or
/// refused as it is without, whatever the comment says. The statement is complete: nothing that
/// is quoted in it is left open, and no block comment.
pub proof fn comments_do_not_decide(sql: Seq<char>, comment: Seq<char>)
    requires
        !comment.contains('\n'),
        ending(sql, 0, beginning()) is Code || ending(sql, 0, beginning()) is Comment,
    ensures
        selects(sql + (seq!['\n', '-', '-'] + comment)) == selects(sql),
{
    let all = code(sql, 0, beginning());
    code_before_comment(sql, comment, 0, beginning());
    trimmed_of_surrounded(Seq::empty(), all, seq!['\n']);
    assert(Seq::<char>::empty() + all + seq!['\n'] =~= all + seq!['\n']);
}

proof fn comment_before_line(s: Seq<char>, i: int, end: int, reading: Reading)
    requires
        0 <= i <= end < s.len(),
        reading is Comment,
        s[end] == '\n',
        forall|k: int| i <= k < end ==> s[k] != '\n',
    ensures
        code(s, i, reading) == seq!['\n'] + code(
            s,
            end + 1,
            Reading::Code { carried: reading->Comment_carried },
        ),
    decreases end - i,
{
    if i < end {
        comment_before_line(s, i + 1, end, reading);
    } else {
        assert(s.subrange(i, i + 1) =~= seq!['\n']);
    }
}

/// A comment above a statement does not decide, whatever it says.
pub proof fn comments_above_do_not_decide(comment: Seq<char>, sql: Seq<char>)
    requires
        !comment.contains('\n'),
    ensures
        selects(seq!['-', '-'] + comment + seq!['\n'] + sql) == selects(sql),
{
    let p = seq!['-', '-'] + comment + seq!['\n'];
    let s = p + sql;
    let n = p.len() as int;
    assert(s[0] == '-' && s[1] == '-' && s[n - 1] == '\n' && p[n - 1] == '\n');
    assert forall|k: int| 2 <= k < n - 1 implies s[k] != '\n' by {
        assert(s[k] == comment[k - 2]);
    }
    comment_before_line(s, 2, n - 1, Reading::Comment { carried: false });
    code_behind(p, sql, 0, beginning());
    let rest = code(sql, 0, beginning());
    assert(code(s, 0, beginning()) == code(s, 2, Reading::Comment { carried: false }));
    trimmed_of_surrounded(seq!['\n'], rest, Seq::empty());
    assert(seq!['\n'] + rest + Seq::<char>::empty() =~= seq!['\n'] + rest);
}

proof fn code_behind_space(p: Seq<char>, s: Seq<char>, i: int)
    requires
        0 <= i <= p.len(),
        forall|k: int| 0 <= k < p.len() ==> white_space(#[trigger] p[k]),
    ensures
        code(p + s, i, beginning()) == p.skip(i) + code(p + s, p.len() as int, beginning()),
    decreases p.len() - i,
{
    let all = p + s;
    let rest = code(all, p.len() as int, beginning());
    if i < p.len() {
        assert(all[i] == p[i]);
        assert(white_space(all[i]));
        code_behind_space(p, s, i + 1);
        assert(all.subrange(i, i + 1) + (p.skip(i + 1) + rest) =~= p.skip(i) + rest);
    } else {
        assert(p.skip(i) + rest =~= rest);
    }
}

/// White space behind a text adds nothing but white space to what is kept of it.
proof fn code_before_space(s: Seq<char>, t: Seq<char>, i: int, reading: Reading) -> (more: Seq<
    char,
>)
    requires
        0 <= i <= s.len(),
        forall|k: int| 0 <= k < t.len() ==> white_space(#[trigger] t[k]),
        well_marked(reading),
    ensures
        code(s + t, i, reading) == code(s, i, reading) + more,
        forall|k: int| 0 <= k < more.len() ==> white_space(#[trigger] more[k]),
    decreases s.len() - i,
{
    let all = s + t;
    if t.len() == 0 {
        assert(all =~= s);
        assert(code(s, i, reading) + Seq::<char>::empty() =~= code(s, i, reading));
        Seq::empty()
    } else if i < s.len() {
        assert(white_space(t[0]));
        tokens_advance(s, i, reading);
        tokens_mark_well(s, i, reading);
        if reading is Literal && reading->escapes && i + 1 == s.len() && s[i] == '\\' {
            assert(all[i] == s[i]);
            assert(all[i + 1] == t[0]);
            assert(token(all, i, reading).len == 2);
            let more = code_of_space(all, i + 2, reading);
            assert(s.subrange(i, i + 1) =~= seq![s[i]]);
            assert(code(s, i + 1, reading) =~= Seq::<char>::empty());
            assert(all.subrange(i, i + 2) =~= seq![s[i], t[0]]);
            assert(seq![s[i], t[0]] + more =~= seq![s[i]] + (seq![t[0]] + more));
            assert(seq![s[i]] + Seq::<char>::empty() =~= seq![s[i]]);
            seq![t[0]] + more
        } else {
            assert(!t.contains('$')) by {
                if t.contains('$') {
                    let k = choose|k: int| 0 <= k < t.len() && t[k] == '$';
                    assert(white_space(t[k]));
                }
            }
            token_before(s, t, i, reading);
            let token = token(s, i, reading);
            let more = code_before_space(s, t, i + token.len, token.next);
            let rest = code(s, i + token.len, token.next);
            let read = s.subrange(i, i + token.len);
            assert(all.subrange(i, i + token.len) =~= read);
            assert(read + (rest + more) =~= (read + rest) + more);
            more
        }
    } else {
        assert forall|k: int| i <= k < all.len() implies white_space(#[trigger] all[k]) by {
            assert(all[k] == t[k - s.len()]);
        }
        let more = code_of_space(all, i, reading);
        assert(code(s, i, reading) + more =~= more);
        more
    }
}

proof fn code_of_space(s: Seq<char>, i: int, reading: Reading) -> (kept: Seq<char>)
    requires
        0 <= i,
        forall|k: int| i <= k < s.len() ==> white_space(#[trigger] s[k]),
    ensures
        kept == code(s, i, reading),
        forall|k: int| 0 <= k < kept.len() ==> white_space(#[trigger] kept[k]),
    decreases s.len() - i,
{
    let kept = code(s, i, reading);
    if i < s.len() {
        tokens_advance(s, i, reading);
        let token = token(s, i, reading);
        let rest = code_of_space(s, i + token.len, token.next);
        assert forall|k: int| 0 <= k < kept.len() implies white_space(#[trigger] kept[k]) by {
            if token.kept {
                if k < token.len {
                    assert(kept[k] == s[i + k]);
                } else {
                    assert(kept[k] == rest[k - token.len]);
                }
            } else {
                assert(kept[k] == rest[k]);
            }
        }
    }
    kept
}

/// A text whose code begins with another letter than a selection does is none.
proof fn other_letters_select_nothing(before: Seq<char>, sql: Seq<char>)
    requires
        sql.len() > 0,
        sql[0] == '$' || sql[0] == 'e' || sql[0] == 'E',
        forall|k: int| 0 <= k < before.len() ==> white_space(#[trigger] before[k]),
    ensures
        !selects(before + sql),
{
    let s = before + sql;
    let n = before.len() as int;
    assert(s[n] == sql[0]);
    code_behind_space(before, sql, 0);
    assert(before.skip(0) =~= before);
    tokens_advance(s, n, beginning());
    let rest = code(s, n, beginning());
    assert(rest[0] == sql[0]);
    let all = code(s, 0, beginning());
    assert(all =~= before + rest);
    assert(all[n] == sql[0]);
    let (from, to) = trimmed_within(all);
    assert(from == n) by {
        assert(!white_space(all[n]));
        assert(from < n ==> all[from] == before[from]);
    }
    assert(bare(s)[0] == sql[0]);
    reveal_strlit("SELECT");
    reveal_strlit("WITH");
    assert(begins_with(bare(s), "SELECT"@) ==> upper(bare(s)[0]) == 'S');
    assert(begins_with(bare(s), "WITH"@) ==> upper(bare(s)[0]) == 'W');
}

/// White space around a statement does not decide.
pub proof fn white_space_does_not_decide(before: Seq<char>, sql: Seq<char>, after: Seq<char>)
    requires
        forall|k: int| 0 <= k < before.len() ==> white_space(#[trigger] before[k]),
        forall|k: int| 0 <= k < after.len() ==> white_space(#[trigger] after[k]),
    ensures
        selects(before + (sql + after)) == selects(sql),
{
    let inner = sql + after;
    let all = code(sql, 0, beginning());
    if sql.len() > 0 && (sql[0] == '$' || sql[0] == 'e' || sql[0] == 'E') {
        assert(inner[0] == sql[0]);
        other_letters_select_nothing(before, inner);
        other_letters_select_nothing(Seq::empty(), sql);
        assert(Seq::<char>::empty() + sql =~= sql);
    } else {
        let more = code_before_space(sql, after, 0, beginning());
        if inner.len() > 0 && sql.len() == 0 {
            assert(inner[0] == after[0]);
        } else if sql.len() > 0 {
            assert(inner[0] == sql[0]);
        }
        code_behind_space(before, inner, 0);
        assert(before.skip(0) =~= before);
        if inner.len() > 0 {
            code_behind(before, inner, 0, beginning());
        }
        trimmed_of_surrounded(before, all, more);
        assert(before + (all + more) =~= before + all + more);
    }
}

/// Whether two texts differ in nothing but the case of their ASCII letters.
pub open spec fn same_letters(a: Seq<char>, b: Seq<char>) -> bool {
    a.len() == b.len() && forall|k: int|
        0 <= k < a.len() ==> upper(#[trigger] a[k]) == upper(b[k])
}

/// Where, from `i` on, a mark stands again; the end of the text where it does not.
pub open spec fn again(s: Seq<char>, mark: Seq<char>, i: int) -> int
    decreases s.len() - i,
{
    if i < 0 || i >= s.len() {
        s.len() as int
    } else if 0 < mark.len() <= s.len() - i && s.subrange(i, i + mark.len()) == mark {
        i
    } else {
        again(s, mark, i + 1)
    }
}

/// Whether a literal between two marks begins at `m` in a text that is read from `i` on.
pub open spec fn opens(s: Seq<char>, i: int, reading: Reading, m: int) -> bool
    decreases s.len() - i,
{
    if i < 0 || i >= s.len() {
        false
    } else {
        proof {
            tokens_advance(s, i, reading);
        }
        let token = token(s, i, reading);
        (m == i && reading is Code && token.next is Marked) || opens(
            s,
            i + token.len,
            token.next,
            m,
        )
    }
}

/// Where the literal that begins at `m` between two marks ends, before its second mark.
pub open spec fn closing(s: Seq<char>, m: int) -> int {
    let mark = mark_from(s, m);
    again(s, mark, m + mark.len())
}

/// Whether two texts differ in the case of letters alone, and every literal between two marks of
/// the one ends at the same place in the other. A mark such as `$tag$` counts with its case.
pub open spec fn recased(a: Seq<char>, b: Seq<char>) -> bool {
    same_letters(a, b) && forall|m: int| #[trigger]
        opens(a, 0, beginning(), m) ==> closing(a, m) == closing(b, m)
}

proof fn same_letter(c: char, d: char)
    requires
        upper(c) == upper(d),
    ensures
        word_char(c) == word_char(d),
        white_space(c) == white_space(d),
        !word_char(c) ==> c == d,
        '0' <= c <= '9' ==> c == d,
        (c == 'e' || c == 'E') == (d == 'e' || d == 'E'),
{
}

proof fn same_word_end(a: Seq<char>, b: Seq<char>, i: int)
    requires
        same_letters(a, b),
    ensures
        word_end(a, i) == word_end(b, i),
    decreases a.len() - i,
{
    if 0 <= i < a.len() {
        same_letter(a[i], b[i]);
        same_word_end(a, b, i + 1);
    }
}

/// A mark begins where it does in a text with the same letters, and is as long.
proof fn same_mark_at(a: Seq<char>, b: Seq<char>, i: int)
    requires
        same_letters(a, b),
        0 <= i < a.len(),
    ensures
        mark_at(a, i) == mark_at(b, i),
        mark_at(a, i) ==> mark_from(a, i).len() == mark_from(b, i).len(),
{
    same_letter(a[i], b[i]);
    same_word_end(a, b, i + 1);
    word_end_is_later(a, i + 1);
    let end = word_end(a, i + 1);
    if end < a.len() {
        same_letter(a[end], b[end]);
        same_letter(a[i + 1], b[i + 1]);
    }
    if i > 0 {
        same_letter(a[i - 1], b[i - 1]);
    }
}

/// Whether two texts are read alike at `i`: they stand in the same, and a literal between marks
/// ends at the same place in both.
spec fn alike(a: Seq<char>, b: Seq<char>, i: int, x: Reading, y: Reading) -> bool {
    match x {
        Reading::Marked { mark } => {
            &&& y is Marked
            &&& mark.len() == y->mark.len()
            &&& mark.len() > 0
            &&& again(a, mark, i) == again(b, y->mark, i)
        },
        _ => x == y,
    }
}

proof fn again_is_later(s: Seq<char>, mark: Seq<char>, i: int)
    requires
        0 <= i <= s.len(),
    ensures
        i <= again(s, mark, i) <= s.len(),
    decreases s.len() - i,
{
    if i < s.len() {
        again_is_later(s, mark, i + 1);
    }
}

proof fn alike_tokens(a: Seq<char>, b: Seq<char>, i: int, x: Reading, y: Reading)
    requires
        same_letters(a, b),
        0 <= i < a.len(),
        alike(a, b, i, x, y),
        opens(a, i, x, i) ==> closing(a, i) == closing(b, i),
    ensures
        token(a, i, x).len == token(b, i, y).len,
        token(a, i, x).kept == token(b, i, y).kept,
        alike(a, b, i + token(a, i, x).len, token(a, i, x).next, token(b, i, y).next),
{
    same_letter(a[i], b[i]);
    if i + 1 < a.len() {
        same_letter(a[i + 1], b[i + 1]);
    }
    if i > 0 {
        same_letter(a[i - 1], b[i - 1]);
    }
    if i > 1 {
        same_letter(a[i - 2], b[i - 2]);
    }
    match x {
        Reading::Code { .. } => {
            same_mark_at(a, b, i);
            if mark_at(a, i) {
                word_end_is_later(a, i + 1);
                if token(a, i, x).next is Marked {
                    assert(opens(a, i, x, i));
                }
            }
        },
        Reading::Marked { mark } => {
            again_is_later(a, mark, i + 1);
            again_is_later(b, y->mark, i + 1);
        },
        _ => {},
    }
}

proof fn alike_code(a: Seq<char>, b: Seq<char>, i: int, x: Reading, y: Reading)
    requires
        same_letters(a, b),
        0 <= i,
        alike(a, b, i, x, y),
        forall|m: int| #[trigger] opens(a, i, x, m) ==> closing(a, m) == closing(b, m),
    ensures
        same_letters(code(a, i, x), code(b, i, y)),
    decreases a.len() - i,
{
    if i < a.len() {
        alike_tokens(a, b, i, x, y);
        tokens_advance(a, i, x);
        let other = token(b, i, y).next;
        let token = token(a, i, x);
        assert forall|m: int| #[trigger] opens(a, i + token.len, token.next, m) implies closing(
            a,
            m,
        ) == closing(b, m) by {
            assert(opens(a, i, x, m));
        }
        alike_code(a, b, i + token.len, token.next, other);
        if token.kept {
            let left = code(a, i, x);
            let right = code(b, i, y);
            let v = code(a, i + token.len, token.next);
            let w = code(b, i + token.len, other);
            assert forall|k: int| 0 <= k < left.len() implies upper(#[trigger] left[k]) == upper(
                right[k],
            ) by {
                if k < token.len {
                    assert(left[k] == a[i + k]);
                    assert(right[k] == b[i + k]);
                } else {
                    assert(left[k] == v[k - token.len]);
                    assert(right[k] == w[k - token.len]);
                }
            }
        }
    }
}

proof fn same_letters_trimmed(a: Seq<char>, b: Seq<char>)
    requires
        same_letters(a, b),
    ensures
        same_letters(trimmed(a), trimmed(b)),
{
    let (f, t) = trimmed_within(a);
    let (g, u) = trimmed_within(b);
    assert forall|k: int| 0 <= k < a.len() implies white_space(#[trigger] a[k]) == white_space(
        b[k],
    ) by {
        same_letter(a[k], b[k]);
    }
    if f < t {
        assert(!white_space(b[f]) && !white_space(b[t - 1]));
        assert(g <= f && t <= u);
        assert(!white_space(a[g]) && !white_space(a[u - 1]));
        assert(f == g && t == u);
    } else if g < u {
        assert(!white_space(a[g]));
    }
    assert forall|k: int| 0 <= k < trimmed(a).len() implies upper(#[trigger] trimmed(a)[k])
        == upper(trimmed(b)[k]) by {
        assert(trimmed(a)[k] == a[f + k]);
        assert(trimmed(b)[k] == b[f + k]);
    }
}

proof fn same_semicolons(a: Seq<char>, b: Seq<char>, i: int)
    requires
        same_letters(a, b),
        0 <= i,
    ensures
        index_from(a, ';', i) == index_from(b, ';', i),
    decreases a.len() - i,
{
    if i < a.len() {
        same_letter(a[i], b[i]);
        same_semicolons(a, b, i + 1);
    }
}

/// The case of ASCII letters does not decide, but where it makes a literal between marks such as
/// `$tag$` end at another place.
pub proof fn case_does_not_decide(a: Seq<char>, b: Seq<char>)
    requires
        recased(a, b),
    ensures
        selects(a) == selects(b),
{
    alike_code(a, b, 0, beginning(), beginning());
    same_letters_trimmed(code(a, 0, beginning()), code(b, 0, beginning()));
    let x = bare(a);
    let y = bare(b);
    same_semicolons(x, y, 0);
    assert forall|word: Seq<char>| begins_with(x, word) == #[trigger] begins_with(y, word) by {
        if word.len() <= x.len() {
            assert forall|k: int| 0 <= k < word.len() implies upper(#[trigger] x[k]) == upper(
                y[k],
            ) by {}
            if begins_with(x, word) {
                assert forall|k: int| 0 <= k < word.len() implies upper(#[trigger] y[k])
                    == word[k] by {
                    assert(upper(x[k]) == word[k]);
                }
            }
        }
    }
}

/// Whether the characters from `i` to `j` can be a mark: word characters, the first of which is
/// no digit, between dollar signs.
pub open spec fn marks(s: Seq<char>, i: int, j: int) -> bool {
    &&& 0 <= i < j - 1
    &&& j <= s.len()
    &&& s[i] == '$'
    &&& s[j - 1] == '$'
    &&& !('0' <= s[i + 1] && s[i + 1] <= '9')
    &&& forall|m: int| i < m < j - 1 ==> word_char(#[trigger] s[m])
}

/// Whether any two stretches that can be marks are equal in the one text exactly when they are in
/// the other.
pub open spec fn marks_agree(a: Seq<char>, b: Seq<char>) -> bool {
    forall|i: int, j: int, k: int, l: int| #[trigger]
        marks(a, i, j) && #[trigger] marks(a, k, l) ==> (a.subrange(i, j) == a.subrange(k, l)) == (
        b.subrange(i, j) == b.subrange(k, l))
}

proof fn same_marks(a: Seq<char>, b: Seq<char>, i: int, j: int)
    requires
        same_letters(a, b),
        marks(a, i, j),
    ensures
        marks(b, i, j),
{
    assert forall|m: int| i <= m < j implies word_char(#[trigger] a[m]) == word_char(b[m]) && (
    !word_char(a[m]) ==> a[m] == b[m]) && ('0' <= b[m] <= '9' ==> a[m] == b[m]) by {
        same_letter(a[m], b[m]);
        same_letter(b[m], a[m]);
    }
    assert(b[i] == a[i]);
    assert(b[j - 1] == a[j - 1]);
    assert('0' <= b[i + 1] <= '9' ==> a[i + 1] == b[i + 1]);
    assert forall|m: int| i < m < j - 1 implies word_char(#[trigger] b[m]) by {
        assert(word_char(a[m]));
    }
}

/// A stretch that is the same as one that can be a mark can be one.
proof fn copies_mark(s: Seq<char>, i: int, j: int, k: int)
    requires
        marks(s, i, j),
        0 <= k,
        k + (j - i) <= s.len(),
        s.subrange(k, k + (j - i)) == s.subrange(i, j),
    ensures
        marks(s, k, k + (j - i)),
{
    let here = s.subrange(k, k + (j - i));
    let mark = s.subrange(i, j);
    let last = j - i - 1;
    assert(here[0] == s[k] && mark[0] == s[i]);
    assert(here[1] == s[k + 1] && mark[1] == s[i + 1]);
    assert(here[last] == s[k + last] && mark[last] == s[i + last]);
    assert forall|m: int| k < m < k + last implies word_char(#[trigger] s[m]) by {
        assert(here[m - k] == s[m]);
        assert(mark[m - k] == s[i + (m - k)]);
    }
}

proof fn agreeing_marks_stand_again(a: Seq<char>, b: Seq<char>, i: int, j: int, k: int)
    requires
        same_letters(a, b),
        marks_agree(a, b),
        marks(a, i, j),
        0 <= k,
    ensures
        again(a, a.subrange(i, j), k) == again(b, b.subrange(i, j), k),
    decreases a.len() - k,
{
    if k < a.len() {
        let n = j - i;
        if n <= a.len() - k {
            same_marks(a, b, i, j);
            if a.subrange(k, k + n) == a.subrange(i, j) {
                copies_mark(a, i, j, k);
            }
            if b.subrange(k, k + n) == b.subrange(i, j) {
                copies_mark(b, i, j, k);
                letters_are_symmetric(a, b);
                same_marks(b, a, k, k + n);
            }
        }
        agreeing_marks_stand_again(a, b, i, j, k + 1);
    }
}

proof fn letters_are_symmetric(a: Seq<char>, b: Seq<char>)
    requires
        same_letters(a, b),
    ensures
        same_letters(b, a),
{
    assert forall|k: int| 0 <= k < b.len() implies upper(#[trigger] b[k]) == upper(a[k]) by {
        assert(upper(a[k]) == upper(b[k]));
    }
}

/// A literal between marks begins where the text can have a mark.
proof fn opened_marks(s: Seq<char>, i: int, reading: Reading, m: int)
    requires
        0 <= i,
        opens(s, i, reading, m),
    ensures
        0 <= m < s.len(),
        mark_at(s, m),
        marks(s, m, word_end(s, m + 1) + 1),
    decreases s.len() - i,
{
    tokens_advance(s, i, reading);
    let token = token(s, i, reading);
    if m == i && reading is Code && token.next is Marked {
        word_end_is_later(s, m + 1);
    } else {
        opened_marks(s, i + token.len, token.next, m);
    }
}

/// Literals end alike in texts with the same letters whose marks agree: the case of letters does
/// not decide there either.
pub proof fn agreeing_marks_do_not_decide(a: Seq<char>, b: Seq<char>)
    requires
        same_letters(a, b),
        marks_agree(a, b),
    ensures
        recased(a, b),
        selects(a) == selects(b),
{
    assert forall|m: int| #[trigger] opens(a, 0, beginning(), m) implies closing(a, m) == closing(
        b,
        m,
    ) by {
        opened_marks(a, 0, beginning(), m);
        same_mark_at(a, b, m);
        same_word_end(a, b, m + 1);
        let end = word_end(a, m + 1) + 1;
        agreeing_marks_stand_again(a, b, m, end, end);
    }
    case_does_not_decide(a, b);
}

/// A text with its ASCII letters in upper case.
pub open spec fn uppered(s: Seq<char>) -> Seq<char> {
    s.map_values(|c: char| upper(c))
}

/// In upper case a statement is taken or refused as it is, where no two stretches that can be
/// marks differ in their case alone.
pub proof fn upper_case_does_not_decide(sql: Seq<char>)
    requires
        forall|i: int, j: int, k: int, l: int| #[trigger]
            marks(sql, i, j) && #[trigger] marks(sql, k, l) && uppered(sql).subrange(i, j)
                == uppered(sql).subrange(k, l) ==> sql.subrange(i, j) == sql.subrange(k, l),
    ensures
        selects(uppered(sql)) == selects(sql),
{
    let all = uppered(sql);
    assert forall|k: int| 0 <= k < sql.len() implies upper(#[trigger] sql[k]) == upper(all[k]) by {
        upper_stays(sql[k]);
    }
    assert forall|i: int, j: int, k: int, l: int| #[trigger]
        marks(sql, i, j) && #[trigger] marks(sql, k, l) implies (sql.subrange(i, j)
        == sql.subrange(k, l)) == (all.subrange(i, j) == all.subrange(k, l)) by {
        let x = sql.subrange(i, j);
        let y = sql.subrange(k, l);
        if x == y {
            assert(all.subrange(i, j) =~= uppered(x));
            assert(all.subrange(k, l) =~= uppered(y));
        }
    }
    agreeing_marks_do_not_decide(sql, all);
}

proof fn upper_stays(c: char)
    ensures
        upper(upper(c)) == upper(c),
{
}

/// A text without the semicolons at its end.
pub open spec fn without_semicolons(s: Seq<char>) -> Seq<char>
    decreases s.len(),
{
    if s.len() > 0 && s.last() == ';' {
        without_semicolons(s.drop_last())
    } else {
        s
    }
}

/// The query that hands out the rows of a statement: each as a text of at most a mebibyte or
/// as none, and one row more than are handed on, so that more are noticed.
pub fn wrap_select(sql: &str) -> (query: String)
    ensures
        query@
            == "SELECT CASE WHEN octet_length(row_to_json(_t)::text) <= 1048576 THEN row_to_json(_t)::text END FROM ("@
            + without_semicolons(trimmed(sql@)) + ") AS _t LIMIT 1001"@,
{
    let chars = chars_of(sql);
    let (from, to) = trim_bounds(&chars);
    let mut end: usize = to;
    while end > from && chars[end - 1] == ';'
        invariant
            from <= end <= to <= chars.len(),
            without_semicolons(chars@.subrange(from as int, end as int)) == without_semicolons(
                chars@.subrange(from as int, to as int),
            ),
        decreases end,
    {
        proof {
            let s = chars@.subrange(from as int, end as int);
            assert(s.drop_last() =~= chars@.subrange(from as int, end - 1));
        }
        end -= 1;
    }
    proof {
        let s = chars@.subrange(from as int, end as int);
        assert(s.len() > 0 ==> s.last() == chars@[end - 1]);
    }
    let mut query =
        "SELECT CASE WHEN octet_length(row_to_json(_t)::text) <= 1048576 THEN row_to_json(_t)::text END FROM (".to_owned();
    query.append(text_of(&chars, from, end).as_str());
    query.append(") AS _t LIMIT 1001");
    query
}

/// What is read one character at a time, and kept, stands in the code as it is.
proof fn kept_run(s: Seq<char>, i: int, end: int, reading: Reading)
    requires
        0 <= i <= end <= s.len(),
        forall|k: int|
            i <= k < end ==> #[trigger] token(s, k, reading) == (Token {
                len: 1,
                kept: true,
                next: reading,
            }),
    ensures
        code(s, i, reading) == s.subrange(i, end) + code(s, end, reading),
    decreases end - i,
{
    if i < end {
        kept_run(s, i + 1, end, reading);
        assert(token(s, i, reading).len == 1);
        assert(s.subrange(i, i + 1) + (s.subrange(i + 1, end) + code(s, end, reading)) =~= s.subrange(
            i,
            end,
        ) + code(s, end, reading));
    } else {
        assert(s.subrange(i, end) + code(s, end, reading) =~= code(s, end, reading));
    }
}

/// One step of reading what is kept.
proof fn kept_step(s: Seq<char>, i: int, reading: Reading)
    requires
        0 <= i < s.len(),
        token(s, i, reading).kept,
    ensures
        1 <= token(s, i, reading).len <= s.len() - i,
        code(s, i, reading) == s.subrange(i, i + token(s, i, reading).len) + code(
            s,
            i + token(s, i, reading).len,
            token(s, i, reading).next,
        ),
{
    tokens_advance(s, i, reading);
}

/// A literal is kept whole, dashes, semicolons and all, and ends at the quote that closes it;
/// what stands behind it is read as if it stood alone. A backslash escapes nothing in it.
pub proof fn literals_are_kept_whole(q: Seq<char>, b: Seq<char>)
    requires
        !q.contains('\''),
        b.len() > 0 ==> b[0] != '\'',
    ensures
        code(seq!['\''] + q + seq!['\''] + b, 0, beginning()) == seq!['\''] + q + seq!['\''] + code(
            b,
            0,
            beginning(),
        ),
{
    let p = seq!['\''] + q + seq!['\''];
    let s = p + b;
    let n = p.len() as int;
    let inside = Reading::Literal { escapes: false };
    assert(s[0] == '\'' && s[n - 1] == '\'' && p.last() == '\'');
    kept_step(s, 0, beginning());
    assert(token(s, 0, beginning()) == (Token { len: 1, kept: true, next: inside }));
    assert forall|k: int| 1 <= k < n - 1 implies #[trigger] token(s, k, inside) == (Token {
        len: 1,
        kept: true,
        next: inside,
    }) by {
        assert(s[k] == q[k - 1]);
        assert(q.contains(q[k - 1]));
    }
    kept_run(s, 1, n - 1, inside);
    if b.len() > 0 {
        assert(s[n] == b[0]);
    }
    kept_step(s, n - 1, inside);
    assert(!pair_at(s, n - 1, '\'', '\''));
    code_behind(p, b, 0, beginning());
    let rest = code(b, 0, beginning());
    assert(s.subrange(0, 1) + (s.subrange(1, n - 1) + (s.subrange(n - 1, n) + rest)) =~= p + rest);
}

/// A quote that is doubled in a literal does not end it.
pub proof fn doubled_quotes_do_not_end_literals(q: Seq<char>, r: Seq<char>, b: Seq<char>)
    requires
        !q.contains('\''),
        !r.contains('\''),
        b.len() > 0 ==> b[0] != '\'',
    ensures
        code(seq!['\''] + q + seq!['\'', '\''] + r + seq!['\''] + b, 0, beginning()) == seq!['\'']
            + q + seq!['\'', '\''] + r + seq!['\''] + code(b, 0, beginning()),
{
    let p = seq!['\''] + q + seq!['\'', '\''] + r + seq!['\''];
    let s = p + b;
    let n = p.len() as int;
    let m = 1 + q.len() as int;
    let inside = Reading::Literal { escapes: false };
    assert(s[0] == '\'' && s[m] == '\'' && s[m + 1] == '\'' && s[n - 1] == '\'' && p.last() == '\'');
    kept_step(s, 0, beginning());
    assert(token(s, 0, beginning()) == (Token { len: 1, kept: true, next: inside }));
    assert forall|k: int| 1 <= k < m implies #[trigger] token(s, k, inside) == (Token {
        len: 1,
        kept: true,
        next: inside,
    }) by {
        assert(s[k] == q[k - 1]);
        assert(q.contains(q[k - 1]));
    }
    kept_run(s, 1, m, inside);
    kept_step(s, m, inside);
    assert(pair_at(s, m, '\'', '\''));
    assert forall|k: int| m + 2 <= k < n - 1 implies #[trigger] token(s, k, inside) == (Token {
        len: 1,
        kept: true,
        next: inside,
    }) by {
        assert(s[k] == r[k - m - 2]);
        assert(r.contains(r[k - m - 2]));
    }
    kept_run(s, m + 2, n - 1, inside);
    if b.len() > 0 {
        assert(s[n] == b[0]);
    }
    kept_step(s, n - 1, inside);
    assert(!pair_at(s, n - 1, '\'', '\''));
    code_behind(p, b, 0, beginning());
    let rest = code(b, 0, beginning());
    assert(s.subrange(0, 1) + (s.subrange(1, m) + (s.subrange(m, m + 2) + (s.subrange(m + 2, n - 1)
        + (s.subrange(n - 1, n) + rest)))) =~= p + rest);
}

/// A name in double quotes is kept whole, and ends at the quote that closes it.
pub proof fn names_are_kept_whole(q: Seq<char>, b: Seq<char>)
    requires
        !q.contains('"'),
    ensures
        code(seq!['"'] + q + seq!['"'] + b, 0, beginning()) == seq!['"'] + q + seq!['"'] + code(
            b,
            0,
            beginning(),
        ),
{
    let p = seq!['"'] + q + seq!['"'];
    let s = p + b;
    let n = p.len() as int;
    assert(s[0] == '"' && s[n - 1] == '"' && p.last() == '"');
    kept_step(s, 0, beginning());
    assert forall|k: int| 1 <= k < n - 1 implies #[trigger] token(s, k, Reading::Name) == (Token {
        len: 1,
        kept: true,
        next: Reading::Name,
    }) by {
        assert(s[k] == q[k - 1]);
        assert(q.contains(q[k - 1]));
    }
    kept_run(s, 1, n - 1, Reading::Name);
    kept_step(s, n - 1, Reading::Name);
    code_behind(p, b, 0, beginning());
    let rest = code(b, 0, beginning());
    assert(s.subrange(0, 1) + (s.subrange(1, n - 1) + (s.subrange(n - 1, n) + rest)) =~= p + rest);
}

/// A literal with escapes goes on behind a quote that a backslash escapes. What is quoted next
/// can be a part of it.
pub proof fn escaped_quotes_do_not_end_literals(e: char, q: Seq<char>, r: Seq<char>, b: Seq<char>)
    requires
        e == 'e' || e == 'E',
        !q.contains('\'') && !q.contains('\\'),
        !r.contains('\'') && !r.contains('\\'),
        b.len() > 0 ==> b[0] != '\'',
    ensures
        code(seq![e, '\''] + q + seq!['\\', '\''] + r + seq!['\''] + b, 0, beginning()) == seq![
            e,
            '\'',
        ] + q + seq!['\\', '\''] + r + seq!['\''] + code(b, 0, Reading::Code { carried: true }),
{
    let p = seq![e, '\''] + q + seq!['\\', '\''] + r + seq!['\''];
    let s = p + b;
    let n = p.len() as int;
    let m = 2 + q.len() as int;
    let inside = Reading::Literal { escapes: true };
    assert(s[0] == e && s[1] == '\'' && s[m] == '\\' && s[m + 1] == '\'' && s[n - 1] == '\''
        && p.last() == '\'');
    kept_step(s, 0, beginning());
    assert(token(s, 0, beginning()) == (Token { len: 1, kept: true, next: beginning() }));
    kept_step(s, 1, beginning());
    assert(escape_at(s, 1));
    assert(token(s, 1, beginning()) == (Token { len: 1, kept: true, next: inside }));
    assert forall|k: int| 2 <= k < m implies #[trigger] token(s, k, inside) == (Token {
        len: 1,
        kept: true,
        next: inside,
    }) by {
        assert(s[k] == q[k - 2]);
        assert(q.contains(q[k - 2]));
    }
    kept_run(s, 2, m, inside);
    kept_step(s, m, inside);
    assert(token(s, m, inside) == (Token { len: 2, kept: true, next: inside }));
    assert forall|k: int| m + 2 <= k < n - 1 implies #[trigger] token(s, k, inside) == (Token {
        len: 1,
        kept: true,
        next: inside,
    }) by {
        assert(s[k] == r[k - m - 2]);
        assert(r.contains(r[k - m - 2]));
    }
    kept_run(s, m + 2, n - 1, inside);
    if b.len() > 0 {
        assert(s[n] == b[0]);
    }
    kept_step(s, n - 1, inside);
    assert(!pair_at(s, n - 1, '\'', '\''));
    code_behind(p, b, 0, Reading::Code { carried: true });
    let rest = code(b, 0, Reading::Code { carried: true });
    assert(s.subrange(0, 1) + (s.subrange(1, 2) + (s.subrange(2, m) + (s.subrange(m, m + 2) + (
    s.subrange(m + 2, n - 1) + (s.subrange(n - 1, n) + rest))))) =~= p + rest);
}

/// A literal that follows one with escapes after white space alone has escapes too.
pub proof fn escapes_carry_over_white_space(c: char, q: Seq<char>, r: Seq<char>, b: Seq<char>)
    requires
        white_space(c),
        !q.contains('\'') && !q.contains('\\'),
        !r.contains('\'') && !r.contains('\\'),
        b.len() > 0 ==> b[0] != '\'',
    ensures
        code(
            seq![c, '\''] + q + seq!['\\', '\''] + r + seq!['\''] + b,
            0,
            Reading::Code { carried: true },
        ) == seq![c, '\''] + q + seq!['\\', '\''] + r + seq!['\''] + code(
            b,
            0,
            Reading::Code { carried: true },
        ),
{
    let p = seq![c, '\''] + q + seq!['\\', '\''] + r + seq!['\''];
    let s = p + b;
    let n = p.len() as int;
    let m = 2 + q.len() as int;
    let from = Reading::Code { carried: true };
    let inside = Reading::Literal { escapes: true };
    assert(s[0] == c && s[1] == '\'' && s[m] == '\\' && s[m + 1] == '\'' && s[n - 1] == '\''
        && p.last() == '\'');
    kept_step(s, 0, from);
    assert(token(s, 0, from) == (Token { len: 1, kept: true, next: from }));
    kept_step(s, 1, from);
    assert(token(s, 1, from) == (Token { len: 1, kept: true, next: inside }));
    assert forall|k: int| 2 <= k < m implies #[trigger] token(s, k, inside) == (Token {
        len: 1,
        kept: true,
        next: inside,
    }) by {
        assert(s[k] == q[k - 2]);
        assert(q.contains(q[k - 2]));
    }
    kept_run(s, 2, m, inside);
    kept_step(s, m, inside);
    assert(token(s, m, inside) == (Token { len: 2, kept: true, next: inside }));
    assert forall|k: int| m + 2 <= k < n - 1 implies #[trigger] token(s, k, inside) == (Token {
        len: 1,
        kept: true,
        next: inside,
    }) by {
        assert(s[k] == r[k - m - 2]);
        assert(r.contains(r[k - m - 2]));
    }
    kept_run(s, m + 2, n - 1, inside);
    if b.len() > 0 {
        assert(s[n] == b[0]);
    }
    kept_step(s, n - 1, inside);
    assert(!pair_at(s, n - 1, '\'', '\''));
    code_behind(p, b, 0, from);
    let rest = code(b, 0, from);
    assert(s.subrange(0, 1) + (s.subrange(1, 2) + (s.subrange(2, m) + (s.subrange(m, m + 2) + (
    s.subrange(m + 2, n - 1) + (s.subrange(n - 1, n) + rest))))) =~= p + rest);
}

/// A comment to the end of a line is dropped, whatever stands in it, and no more than it.
pub proof fn line_comments_are_dropped(comment: Seq<char>, b: Seq<char>)
    requires
        !comment.contains('\n'),
    ensures
        code(seq!['-', '-'] + comment + seq!['\n'] + b, 0, beginning()) == seq!['\n'] + code(
            b,
            0,
            beginning(),
        ),
        code(seq!['-', '-'] + comment, 0, beginning()) == Seq::<char>::empty(),
{
    let p = seq!['-', '-'] + comment + seq!['\n'];
    let s = p + b;
    let n = p.len() as int;
    assert(s[0] == '-' && s[1] == '-' && s[n - 1] == '\n' && p[n - 1] == '\n');
    assert forall|k: int| 2 <= k < n - 1 implies s[k] != '\n' by {
        assert(s[k] == comment[k - 2]);
    }
    comment_before_line(s, 2, n - 1, Reading::Comment { carried: false });
    code_behind(p, b, 0, beginning());
    assert(code(s, 0, beginning()) == code(s, 2, Reading::Comment { carried: false }));
    let alone = seq!['-', '-'] + comment;
    assert(alone[0] == '-' && alone[1] == '-');
    assert forall|k: int| 2 <= k < alone.len() implies alone[k] != '\n' by {
        assert(alone[k] == comment[k - 2]);
    }
    comment_is_dropped(alone, 2, Reading::Comment { carried: false });
    assert(code(alone, 0, beginning()) == code(alone, 2, Reading::Comment { carried: false }));
}

/// A block comment is kept whole, and ends where it is closed.
pub proof fn block_comments_are_kept_whole(q: Seq<char>, b: Seq<char>)
    requires
        !q.contains('/') && !q.contains('*'),
    ensures
        code(seq!['/', '*'] + q + seq!['*', '/'] + b, 0, beginning()) == seq!['/', '*'] + q + seq![
            '*',
            '/',
        ] + code(b, 0, beginning()),
{
    let rest = code(b, 0, beginning());
    let one = Reading::Block { depth: 1 };
    let p = seq!['/', '*'] + q + seq!['*', '/'];
    let s = p + b;
    let n = p.len() as int;
    assert(s[0] == '/' && s[1] == '*' && s[n - 2] == '*' && s[n - 1] == '/' && p.last() == '/');
    kept_step(s, 0, beginning());
    assert(token(s, 0, beginning()) == (Token { len: 2, kept: true, next: one }));
    assert forall|k: int| 2 <= k < n - 2 implies #[trigger] s[k] != '/' && s[k] != '*' by {
        assert(s[k] == q[k - 2]);
        assert(q.contains(q[k - 2]));
    }
    block_goes_on(s, 2, n - 2, one);
    kept_step(s, n - 2, one);
    assert(token(s, n - 2, one) == (Token { len: 2, kept: true, next: beginning() }));
    code_behind(p, b, 0, beginning());
    stretches_join(s, 2, n - 2, n, rest);
    stretches_join(s, 0, 2, n, rest);
    assert(s.subrange(0, n) =~= p);
}

/// What opens and closes no comment stands in a block comment.
proof fn block_goes_on(s: Seq<char>, i: int, end: int, reading: Reading)
    requires
        0 <= i <= end <= s.len(),
        forall|k: int| i <= k < end ==> #[trigger] s[k] != '/' && s[k] != '*',
        reading is Block,
    ensures
        code(s, i, reading) == s.subrange(i, end) + code(s, end, reading),
{
    assert forall|k: int| i <= k < end implies #[trigger] token(s, k, reading) == (Token {
        len: 1,
        kept: true,
        next: reading,
    }) by {
        assert(s[k] != '/' && s[k] != '*');
    }
    kept_run(s, i, end, reading);
}

/// A stretch and the one behind it make one stretch.
proof fn stretches_join(s: Seq<char>, i: int, j: int, k: int, rest: Seq<char>)
    requires
        0 <= i <= j <= k <= s.len(),
    ensures
        s.subrange(i, j) + (s.subrange(j, k) + rest) == s.subrange(i, k) + rest,
{
    assert(s.subrange(i, j) + (s.subrange(j, k) + rest) =~= s.subrange(i, k) + rest);
}

/// A block comment that stands in another one does not end it.
pub proof fn block_comments_nest(q: Seq<char>, r: Seq<char>, t: Seq<char>, b: Seq<char>)
    requires
        !q.contains('/') && !q.contains('*'),
        !r.contains('/') && !r.contains('*'),
        !t.contains('/') && !t.contains('*'),
    ensures
        ({
            let p = seq!['/', '*'] + q + seq!['/', '*'] + r + seq!['*', '/'] + t + seq!['*', '/'];
            code(p + b, 0, beginning()) == p + code(b, 0, beginning())
        }),
{
    let p = seq!['/', '*'] + q + seq!['/', '*'] + r + seq!['*', '/'] + t + seq!['*', '/'];
    let n = p.len() as int;
    let m = 2 + q.len() as int;
    let e = m + 2 + r.len() as int;
    let s = p + b;
    assert(p[0] == '/' && p[1] == '*' && p[m] == '/' && p[m + 1] == '*');
    assert(p[e] == '*' && p[e + 1] == '/' && p[n - 2] == '*' && p[n - 1] == '/');
    assert forall|k: int| 2 <= k < m implies #[trigger] p[k] != '/' && p[k] != '*' by {
        assert(p[k] == q[k - 2]);
        assert(q.contains(q[k - 2]));
    }
    assert forall|k: int| m + 2 <= k < e implies #[trigger] p[k] != '/' && p[k] != '*' by {
        assert(p[k] == r[k - m - 2]);
        assert(r.contains(r[k - m - 2]));
    }
    assert forall|k: int| e + 2 <= k < n - 2 implies #[trigger] p[k] != '/' && p[k] != '*' by {
        assert(p[k] == t[k - e - 2]);
        assert(t.contains(t[k - e - 2]));
    }
    nested_blocks(p, b, m, e);
}

proof fn nested_blocks(p: Seq<char>, b: Seq<char>, m: int, e: int)
    requires
        2 <= m,
        m + 2 <= e,
        e + 4 <= p.len(),
        p[0] == '/' && p[1] == '*' && p[m] == '/' && p[m + 1] == '*',
        p[e] == '*' && p[e + 1] == '/' && p[p.len() - 2] == '*' && p[p.len() - 1] == '/',
        forall|k: int| 2 <= k < m ==> #[trigger] p[k] != '/' && p[k] != '*',
        forall|k: int| m + 2 <= k < e ==> #[trigger] p[k] != '/' && p[k] != '*',
        forall|k: int| e + 2 <= k < p.len() - 2 ==> #[trigger] p[k] != '/' && p[k] != '*',
    ensures
        code(p + b, 0, beginning()) == p + code(b, 0, beginning()),
{
    let s = p + b;
    let n = p.len() as int;
    let rest = code(b, 0, beginning());
    let one = Reading::Block { depth: 1 };
    let two = Reading::Block { depth: 2 };
    assert forall|k: int| 0 <= k < n implies #[trigger] s[k] == p[k] by {}
    kept_step(s, 0, beginning());
    assert(token(s, 0, beginning()) == (Token { len: 2, kept: true, next: one }));
    block_goes_on(s, 2, m, one);
    kept_step(s, m, one);
    assert(token(s, m, one) == (Token { len: 2, kept: true, next: two }));
    block_goes_on(s, m + 2, e, two);
    kept_step(s, e, two);
    assert(token(s, e, two) == (Token { len: 2, kept: true, next: one }));
    block_goes_on(s, e + 2, n - 2, one);
    kept_step(s, n - 2, one);
    assert(token(s, n - 2, one) == (Token { len: 2, kept: true, next: beginning() }));
    code_behind(p, b, 0, beginning());
    stretches_join(s, e + 2, n - 2, n, rest);
    stretches_join(s, e, e + 2, n, rest);
    stretches_join(s, m + 2, e, n, rest);
    stretches_join(s, m, m + 2, n, rest);
    stretches_join(s, 2, m, n, rest);
    stretches_join(s, 0, 2, n, rest);
    assert(s.subrange(0, n) =~= p);
}

/// A literal between two marks such as `$tag$` is kept whole, whatever stands in it.
#[verifier::rlimit(40)]
#[verifier::spinoff_prover]
pub proof fn marked_literals_are_kept_whole(tag: Seq<char>, q: Seq<char>, b: Seq<char>)
    requires
        forall|k: int| 0 <= k < tag.len() ==> word_char(#[trigger] tag[k]),
        tag.len() > 0 ==> !('0' <= tag[0] && tag[0] <= '9'),
        !q.contains('$'),
    ensures
        ({
            let p = seq!['$'] + tag + seq!['$'] + q + seq!['$'] + tag + seq!['$'];
            code(p + b, 0, beginning()) == p + code(p + b, p.len() as int, beginning())
        }),
{
    let mark = seq!['$'] + tag + seq!['$'];
    let p = seq!['$'] + tag + seq!['$'] + q + seq!['$'] + tag + seq!['$'];
    let s = p + b;
    let n = p.len() as int;
    let m = mark.len() as int;
    assert(s[0] == '$' && s[m - 1] == '$' && s[n - m] == '$' && s[n - 1] == '$');
    assert forall|k: int| 1 <= k < m - 1 implies word_char(#[trigger] s[k]) by {
        assert(s[k] == tag[k - 1]);
    }
    tag_ends(s, 1, m - 1);
    if tag.len() > 0 {
        assert(s[1] == tag[0]);
    }
    assert(s.subrange(0, m) =~= mark);
    kept_step(s, 0, beginning());
    let inside = Reading::Marked { mark };
    assert(mark_at(s, 0));
    assert(token(s, 0, beginning()) == (Token { len: m, kept: true, next: inside }));
    assert forall|k: int| m <= k < n - m implies #[trigger] token(s, k, inside) == (Token {
        len: 1,
        kept: true,
        next: inside,
    }) by {
        assert(s[k] == q[k - m]);
        assert(q.contains(q[k - m]));
        if mark.len() <= s.len() - k {
            assert(s.subrange(k, k + m)[0] == s[k]);
            assert(mark[0] == '$');
        }
    }
    kept_run(s, m, n - m, inside);
    assert(s.subrange(n - m, n) =~= mark);
    kept_step(s, n - m, inside);
    assert(token(s, n - m, inside) == (Token { len: m, kept: true, next: beginning() }));
    let rest = code(s, n, beginning());
    stretches_join(s, m, n - m, n, rest);
    stretches_join(s, 0, m, n, rest);
    assert(s.subrange(0, n) =~= p);
}

proof fn tag_ends(s: Seq<char>, i: int, end: int)
    requires
        0 <= i <= end < s.len(),
        forall|k: int| i <= k < end ==> word_char(#[trigger] s[k]),
        !word_char(s[end]),
    ensures
        word_end(s, i) == end,
    decreases end - i,
{
    if i < end {
        tag_ends(s, i + 1, end);
    }
}

/// A statement in which nothing is quoted and nothing is commented is taken exactly where its
/// first word is `SELECT` or `WITH`, whatever the case, and a semicolon stands at its end alone.
pub proof fn plain_selections_are_taken(sql: Seq<char>)
    requires
        !sql.contains('-') && !sql.contains('/') && !sql.contains('\'') && !sql.contains('"')
            && !sql.contains('$'),
    ensures
        selects(sql) <==> ({
            let t = trimmed(sql);
            &&& forall|k: int| 0 <= k < t.len() - 1 ==> #[trigger] t[k] != ';'
            &&& {
                ||| t.len() >= 6 && (t[0] == 'S' || t[0] == 's') && (t[1] == 'E' || t[1] == 'e') && (
                t[2] == 'L' || t[2] == 'l') && (t[3] == 'E' || t[3] == 'e') && (t[4] == 'C' || t[4]
                    == 'c') && (t[5] == 'T' || t[5] == 't')
                ||| t.len() >= 4 && (t[0] == 'W' || t[0] == 'w') && (t[1] == 'I' || t[1] == 'i') && (
                t[2] == 'T' || t[2] == 't') && (t[3] == 'H' || t[3] == 'h')
            }
        }),
{
    let n = sql.len() as int;
    assert forall|k: int| 0 <= k < n implies #[trigger] token(sql, k, beginning()) == (Token {
        len: 1,
        kept: true,
        next: beginning(),
    }) by {
        assert(sql.contains(sql[k]));
    }
    kept_run(sql, 0, n, beginning());
    assert(code(sql, 0, beginning()) =~= sql);
    let t = trimmed(sql);
    crate::text::index_from_is_first(t, ';', 0);
    reveal_strlit("SELECT");
    reveal_strlit("WITH");
    let (a, b) = ("SELECT"@, "WITH"@);
    assert(a.len() == 6 && a[0] == 'S' && a[1] == 'E' && a[2] == 'L' && a[3] == 'E' && a[4] == 'C'
        && a[5] == 'T');
    assert(b.len() == 4 && b[0] == 'W' && b[1] == 'I' && b[2] == 'T' && b[3] == 'H');
    if begins_with(t, a) {
        assert(upper(t[0]) == a[0] && upper(t[1]) == a[1] && upper(t[2]) == a[2] && upper(t[3])
            == a[3] && upper(t[4]) == a[4] && upper(t[5]) == a[5]);
    }
    if begins_with(t, b) {
        assert(upper(t[0]) == b[0] && upper(t[1]) == b[1] && upper(t[2]) == b[2] && upper(t[3])
            == b[3]);
    }
    if forall|k: int| 0 <= k < t.len() - 1 ==> #[trigger] t[k] != ';' {
        let at = index_from(t, ';', 0);
        if at < t.len() - 1 {
            assert(t[at] == ';');
        }
    }
}

} // verus!
