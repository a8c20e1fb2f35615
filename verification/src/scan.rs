//! Character classes and position scans of the lexer: words, string
//! literals, and matching closers of bracket groups.
use vstd::prelude::*;

verus! {

/// A pending signal: a character that ends a word and starts a token of
/// its own.
#[derive(Clone, Copy, Debug, PartialEq, Eq, Structural)]
pub enum Signal {
    Eq,
    Plus,
    Minus,
    Gt,
    Lt,
    Dot,
    Colon,
    StrStart,
    ParensStart,
    CurlyStart,
    BracketStart,
}

/// The signal a character carries, if any.
pub open spec fn sp_token_letters(c: char) -> Option<Signal> {
    if c == '=' {
        Option::Some(Signal::Eq)
    } else if c == '+' {
        Option::Some(Signal::Plus)
    } else if c == '-' {
        Option::Some(Signal::Minus)
    } else if c == '>' {
        Option::Some(Signal::Gt)
    } else if c == '<' {
        Option::Some(Signal::Lt)
    } else if c == '.' {
        Option::Some(Signal::Dot)
    } else if c == ':' {
        Option::Some(Signal::Colon)
    } else if c == '"' {
        Option::Some(Signal::StrStart)
    } else if c == '(' {
        Option::Some(Signal::ParensStart)
    } else if c == '{' {
        Option::Some(Signal::CurlyStart)
    } else if c == '[' {
        Option::Some(Signal::BracketStart)
    } else {
        Option::None
    }
}

/// Classifies a character as a signal.
pub fn token_letters(c: char) -> (r: Option<Signal>)
    ensures
        r == sp_token_letters(c),
{
    match c {
        '=' => Option::Some(Signal::Eq),
        '+' => Option::Some(Signal::Plus),
        '-' => Option::Some(Signal::Minus),
        '>' => Option::Some(Signal::Gt),
        '<' => Option::Some(Signal::Lt),
        '.' => Option::Some(Signal::Dot),
        ':' => Option::Some(Signal::Colon),
        '"' => Option::Some(Signal::StrStart),
        '(' => Option::Some(Signal::ParensStart),
        '{' => Option::Some(Signal::CurlyStart),
        '[' => Option::Some(Signal::BracketStart),
        _ => Option::None,
    }
}

/// ASCII whitespace, the word separator.
pub open spec fn sp_is_space(c: char) -> bool {
    c == ' ' || c == '\t' || c == '\n' || c == '\u{c}' || c == '\r'
}

pub fn is_space(c: char) -> (r: bool)
    ensures
        r == sp_is_space(c),
{
    c == ' ' || c == '\t' || c == '\n' || c == '\u{c}' || c == '\r'
}

/// The position where the word starting at `i` ends: the first position at
/// or after `i` holding whitespace or a signal character.
pub open spec fn sp_word_end(s: Seq<char>, i: int) -> int
    decreases s.len() - i,
{
    if i < 0 || i >= s.len() {
        i
    } else if sp_is_space(s[i]) || sp_token_letters(s[i]) is Some {
        i
    } else {
        sp_word_end(s, i + 1)
    }
}

/// The first position at or after `i` holding the character `c`.
pub open spec fn sp_find_char(s: Seq<char>, i: int, c: char) -> Option<int>
    decreases s.len() - i,
{
    if i < 0 || i >= s.len() {
        Option::None
    } else if s[i] == c {
        Option::Some(i)
    } else {
        sp_find_char(s, i + 1, c)
    }
}

/// The position of the closer matching an already-open group: openers of
/// the same kind deepen the count, closers shallow it; the closer that
/// takes the count to zero matches.
pub open spec fn sp_group_end(s: Seq<char>, i: int, op: char, cl: char, depth: int) -> Option<int>
    decreases s.len() - i,
{
    if i < 0 || i >= s.len() {
        Option::None
    } else if s[i] == op {
        sp_group_end(s, i + 1, op, cl, depth + 1)
    } else if s[i] == cl {
        if depth <= 1 {
            Option::Some(i)
        } else {
            sp_group_end(s, i + 1, op, cl, depth - 1)
        }
    } else {
        sp_group_end(s, i + 1, op, cl, depth)
    }
}

/// Bounds of the word scan, available wherever the scanner is unfolded.
pub broadcast proof fn lemma_word_end_bounds(s: Seq<char>, i: int)
    requires
        0 <= i,
    ensures
        i <= #[trigger] sp_word_end(s, i),
        i <= s.len() ==> sp_word_end(s, i) <= s.len(),
        (i < s.len() && !sp_is_space(s[i]) && sp_token_letters(s[i]) is None) ==> sp_word_end(
            s,
            i,
        ) > i,
    decreases s.len() - i,
{
    if 0 <= i < s.len() && !(sp_is_space(s[i]) || sp_token_letters(s[i]) is Some) {
        lemma_word_end_bounds(s, i + 1);
    }
}

/// Bounds of the character search.
pub broadcast proof fn lemma_find_char_bounds(s: Seq<char>, i: int, c: char)
    ensures
        (0 <= i && #[trigger] sp_find_char(s, i, c) is Some) ==> {
            let j = sp_find_char(s, i, c)->Some_0;
            i <= j < s.len() && s[j] == c
        },
    decreases s.len() - i,
{
    if 0 <= i < s.len() && s[i] != c {
        lemma_find_char_bounds(s, i + 1, c);
    }
}

/// Bounds of the matching-closer search.
pub broadcast proof fn lemma_group_end_bounds(s: Seq<char>, i: int, op: char, cl: char, depth: int)
    ensures
        (0 <= i && #[trigger] sp_group_end(s, i, op, cl, depth) is Some) ==> {
            let j = sp_group_end(s, i, op, cl, depth)->Some_0;
            i <= j < s.len() && s[j] == cl
        },
    decreases s.len() - i,
{
    if 0 <= i < s.len() {
        if s[i] == op {
            lemma_group_end_bounds(s, i + 1, op, cl, depth + 1);
        } else if s[i] == cl {
            if depth > 1 {
                lemma_group_end_bounds(s, i + 1, op, cl, depth - 1);
            }
        } else {
            lemma_group_end_bounds(s, i + 1, op, cl, depth);
        }
    }
}


} // verus!
