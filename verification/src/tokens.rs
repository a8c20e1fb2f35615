//! Lexical analysis: a scanner from source text to tokens, with balanced
//! bracket groups tokenized recursively into nested token lists.
use vstd::prelude::*;

use crate::num::{sp_is_digit, str_eq};
use crate::scan::{Signal, is_space, sp_find_char, sp_group_end, sp_is_space, sp_token_letters, sp_word_end, token_letters};

verus! {

broadcast use vstd::seq::axiom_seq_index_decreases, vstd::std_specs::vec::axiom_vec_decreases_to_view, vstd::seq::axiom_seq_subrange_decreases, crate::scan::lemma_word_end_bounds, crate::scan::lemma_find_char_bounds, crate::scan::lemma_group_end_bounds;

/// A token of the language.
#[derive(Debug)]
pub enum Token {
    /// `let`
    Let,
    /// `fn`
    Fn,
    /// `if`
    If,
    /// `else`
    Else,
    /// `loop`
    Loop,
    /// `break`
    Break,
    /// `for`
    For,
    /// `in`
    In,
    /// `||`
    Or,
    /// `&&`
    And,
    /// `.`
    Dot,
    /// `:`
    Colon,
    /// `=`
    Eq,
    /// `+`
    Plus,
    /// `-`
    Minus,
    /// `>`
    Gt,
    /// `<`
    Lt,
    Ident(String),
    /// A number literal, not yet parsed.
    NumLit(String),
    /// A string literal.
    StrLit(String),
    /// Everything between `(` and `)`, tokenized.
    Parens(Vec<Token>),
    /// Everything between `{` and `}`, tokenized.
    Curly(Vec<Token>),
    /// Everything between `[` and `]`, tokenized.
    Brackets(Vec<Token>),
}

/// Model of [`Token`].
pub enum TokenM {
    Let,
    Fn,
    If,
    Else,
    Loop,
    Break,
    For,
    In,
    Or,
    And,
    Dot,
    Colon,
    Eq,
    Plus,
    Minus,
    Gt,
    Lt,
    Ident(Seq<char>),
    NumLit(Seq<char>),
    StrLit(Seq<char>),
    Parens(Seq<TokenM>),
    Curly(Seq<TokenM>),
    Brackets(Seq<TokenM>),
}

pub open spec fn view_token(t: Token) -> TokenM
    decreases t,
{
    match t {
        Token::Let => TokenM::Let,
        Token::Fn => TokenM::Fn,
        Token::If => TokenM::If,
        Token::Else => TokenM::Else,
        Token::Loop => TokenM::Loop,
        Token::Break => TokenM::Break,
        Token::For => TokenM::For,
        Token::In => TokenM::In,
        Token::Or => TokenM::Or,
        Token::And => TokenM::And,
        Token::Dot => TokenM::Dot,
        Token::Colon => TokenM::Colon,
        Token::Eq => TokenM::Eq,
        Token::Plus => TokenM::Plus,
        Token::Minus => TokenM::Minus,
        Token::Gt => TokenM::Gt,
        Token::Lt => TokenM::Lt,
        Token::Ident(s) => TokenM::Ident(s@),
        Token::NumLit(s) => TokenM::NumLit(s@),
        Token::StrLit(s) => TokenM::StrLit(s@),
        Token::Parens(v) => TokenM::Parens(view_tokens(v@)),
        Token::Curly(v) => TokenM::Curly(view_tokens(v@)),
        Token::Brackets(v) => TokenM::Brackets(view_tokens(v@)),
    }
}

pub open spec fn view_tokens(s: Seq<Token>) -> Seq<TokenM>
    decreases s,
{
    if s.len() == 0 {
        Seq::empty()
    } else {
        seq![view_token(s[0])] + view_tokens(s.drop_first())
    }
}

impl View for Token {
    type V = TokenM;

    open spec fn view(&self) -> TokenM {
        view_token(*self)
    }
}

pub broadcast proof fn lemma_view_tokens_len(s: Seq<Token>)
    ensures
        #[trigger] view_tokens(s).len() == s.len(),
    decreases s.len(),
{
    if s.len() > 0 {
        lemma_view_tokens_len(s.drop_first());
    }
}

pub broadcast proof fn lemma_view_tokens_index(s: Seq<Token>, i: int)
    requires
        0 <= i < s.len(),
    ensures
        #[trigger] view_tokens(s)[i] == view_token(s[i]),
    decreases s.len(),
{
    lemma_view_tokens_len(s);
    if i > 0 {
        lemma_view_tokens_index(s.drop_first(), i - 1);
    }
}

/// One group naming the token view lemmas, for `broadcast use`.
pub broadcast group group_token_view_lemmas {
    lemma_view_tokens_len,
    lemma_view_tokens_index,
}

/// A tokenize-time error.
#[derive(Debug)]
pub enum TokenizeError {
    /// A string literal was opened and never closed.
    UnclosedString,
    /// A bracket group was opened and never closed; carries the opener.
    UnclosedGroup(char),
}

/// Model of [`TokenizeError`].
pub enum TokenizeErrorM {
    UnclosedString,
    UnclosedGroup(char),
}

pub open spec fn view_tokenize_error(e: TokenizeError) -> TokenizeErrorM {
    match e {
        TokenizeError::UnclosedString => TokenizeErrorM::UnclosedString,
        TokenizeError::UnclosedGroup(c) => TokenizeErrorM::UnclosedGroup(c),
    }
}

impl View for TokenizeError {
    type V = TokenizeErrorM;

    open spec fn view(&self) -> TokenizeErrorM {
        view_tokenize_error(*self)
    }
}

// ---------------------------------------------------------------------------
// The scanner, as a specification
// ---------------------------------------------------------------------------

/// How many `.` characters a word holds.
pub open spec fn sp_dot_count(w: Seq<char>) -> int
    decreases w.len(),
{
    if w.len() == 0 {
        0
    } else {
        sp_dot_count(w.drop_last()) + if w.last() == '.' {
            1int
        } else {
            0int
        }
    }
}

/// Is the word made of digits and dots only?
pub open spec fn sp_numlike(w: Seq<char>) -> bool {
    forall|i: int| 0 <= i < w.len() ==> sp_is_digit(#[trigger] w[i]) || w[i] == '.'
}

/// Classifies a scanned word: keyword, logical word, number literal (all
/// digits and dots with at most one dot), or identifier.
pub open spec fn sp_classify(w: Seq<char>) -> TokenM {
    if w == "let"@ {
        TokenM::Let
    } else if w == "fn"@ {
        TokenM::Fn
    } else if w == "if"@ {
        TokenM::If
    } else if w == "else"@ {
        TokenM::Else
    } else if w == "loop"@ {
        TokenM::Loop
    } else if w == "break"@ {
        TokenM::Break
    } else if w == "for"@ {
        TokenM::For
    } else if w == "in"@ {
        TokenM::In
    } else if w == "||"@ {
        TokenM::Or
    } else if w == "&&"@ {
        TokenM::And
    } else if sp_numlike(w) && sp_dot_count(w) <= 1 {
        TokenM::NumLit(w)
    } else {
        TokenM::Ident(w)
    }
}

/// Scans the source from position `i` into tokens.
pub open spec fn sp_tokenize(s: Seq<char>, i: int) -> Result<Seq<TokenM>, TokenizeErrorM>
    decreases s.len() - i, 1int,
{
    if i < 0 || i >= s.len() {
        Result::Ok(Seq::empty())
    } else {
        let c = s[i];
        if sp_is_space(c) {
            sp_tokenize(s, i + 1)
        } else {
            match sp_token_letters(c) {
                Option::Some(Signal::Eq) => sp_tokenize_cons(TokenM::Eq, s, i + 1),
                Option::Some(Signal::Plus) => sp_tokenize_cons(TokenM::Plus, s, i + 1),
                Option::Some(Signal::Minus) => sp_tokenize_cons(TokenM::Minus, s, i + 1),
                Option::Some(Signal::Gt) => sp_tokenize_cons(TokenM::Gt, s, i + 1),
                Option::Some(Signal::Lt) => sp_tokenize_cons(TokenM::Lt, s, i + 1),
                Option::Some(Signal::Dot) => sp_tokenize_cons(TokenM::Dot, s, i + 1),
                Option::Some(Signal::Colon) => sp_tokenize_cons(TokenM::Colon, s, i + 1),
                Option::Some(Signal::StrStart) => match sp_find_char(s, i + 1, '"') {
                    Option::Some(j) => sp_tokenize_cons(
                        TokenM::StrLit(s.subrange(i + 1, j)),
                        s,
                        j + 1,
                    ),
                    Option::None => Result::Err(TokenizeErrorM::UnclosedString),
                },
                Option::Some(Signal::ParensStart) => sp_tokenize_group(s, i, '(', ')'),
                Option::Some(Signal::CurlyStart) => sp_tokenize_group(s, i, '{', '}'),
                Option::Some(Signal::BracketStart) => sp_tokenize_group(s, i, '[', ']'),
                Option::None => {
                    let j = sp_word_end(s, i);
                    sp_tokenize_cons(sp_classify(s.subrange(i, j)), s, j)
                },
            }
        }
    }
}

/// Scans a bracket group opened at position `i` and the rest of the
/// source after it.
pub open spec fn sp_tokenize_group(s: Seq<char>, i: int, op: char, cl: char) -> Result<
    Seq<TokenM>,
    TokenizeErrorM,
>
    decreases s.len() - i, 0int,
{
    match sp_group_end(s, i + 1, op, cl, 1) {
        Option::Some(j) => match sp_tokenize(s.subrange(i + 1, j), 0) {
            Result::Ok(inner) => {
                let tok = if op == '(' {
                    TokenM::Parens(inner)
                } else if op == '{' {
                    TokenM::Curly(inner)
                } else {
                    TokenM::Brackets(inner)
                };
                sp_tokenize_cons(tok, s, j + 1)
            },
            Result::Err(e) => Result::Err(e),
        },
        Option::None => Result::Err(TokenizeErrorM::UnclosedGroup(op)),
    }
}

/// One scanned token followed by the tokens of the rest of the source.
pub open spec fn sp_tokenize_cons(t: TokenM, s: Seq<char>, i: int) -> Result<
    Seq<TokenM>,
    TokenizeErrorM,
>
    decreases s.len() - i, 2int,
{
    match sp_tokenize(s, i) {
        Result::Ok(rest) => Result::Ok(seq![t] + rest),
        Result::Err(e) => Result::Err(e),
    }
}

// ---------------------------------------------------------------------------
// The scanner, executable
// ---------------------------------------------------------------------------

/// Finds the end of the word starting at `i`.
fn word_end(s: &str, i: usize) -> (r: usize)
    requires
        i <= s@.len(),
    ensures
        r == sp_word_end(s@, i as int),
        i <= r <= s@.len(),
{
    let n = s.unicode_len();
    let mut j = i;
    while j < n
        invariant
            i <= j <= n,
            n == s@.len(),
            sp_word_end(s@, i as int) == sp_word_end(s@, j as int),
        decreases n - j,
    {
        let c = s.get_char(j);
        if is_space(c) {
            return j;
        }
        if token_letters(c).is_some() {
            return j;
        }
        j = j + 1;
    }
    j
}

/// Finds the first position at or after `i` holding `c`.
fn find_char(s: &str, i: usize, c: char) -> (r: Option<usize>)
    requires
        i <= s@.len(),
    ensures
        match r {
            Option::Some(j) => sp_find_char(s@, i as int, c) == Option::Some(j as int) && i <= j
                < s@.len(),
            Option::None => sp_find_char(s@, i as int, c) is None,
        },
{
    let n = s.unicode_len();
    let mut j = i;
    while j < n
        invariant
            i <= j <= n,
            n == s@.len(),
            sp_find_char(s@, i as int, c) == sp_find_char(s@, j as int, c),
        decreases n - j,
    {
        if s.get_char(j) == c {
            return Option::Some(j);
        }
        j = j + 1;
    }
    Option::None
}

/// Finds the closer matching a group already opened before `i`.
fn group_end(s: &str, i: usize, op: char, cl: char) -> (r: Option<usize>)
    requires
        i <= s@.len(),
    ensures
        match r {
            Option::Some(j) => sp_group_end(s@, i as int, op, cl, 1) == Option::Some(j as int)
                && i <= j < s@.len(),
            Option::None => sp_group_end(s@, i as int, op, cl, 1) is None,
        },
{
    let n = s.unicode_len();
    let mut j = i;
    let mut depth: u128 = 1;
    while j < n
        invariant
            i <= j <= n,
            n == s@.len(),
            1 <= depth <= j - i + 1,
            sp_group_end(s@, i as int, op, cl, 1) == sp_group_end(s@, j as int, op, cl, depth as int),
        decreases n - j,
    {
        let c = s.get_char(j);
        if c == op {
            depth = depth + 1;
        } else if c == cl {
            if depth <= 1 {
                return Option::Some(j);
            }
            depth = depth - 1;
        }
        j = j + 1;
    }
    Option::None
}

/// Classifies a scanned word.
fn classify(w: String) -> (r: Token)
    ensures
        r@ == sp_classify(w@),
{
    if str_eq(w.as_str(), "let") {
        return Token::Let;
    }
    if str_eq(w.as_str(), "fn") {
        return Token::Fn;
    }
    if str_eq(w.as_str(), "if") {
        return Token::If;
    }
    if str_eq(w.as_str(), "else") {
        return Token::Else;
    }
    if str_eq(w.as_str(), "loop") {
        return Token::Loop;
    }
    if str_eq(w.as_str(), "break") {
        return Token::Break;
    }
    if str_eq(w.as_str(), "for") {
        return Token::For;
    }
    if str_eq(w.as_str(), "in") {
        return Token::In;
    }
    if str_eq(w.as_str(), "||") {
        return Token::Or;
    }
    if str_eq(w.as_str(), "&&") {
        return Token::And;
    }
    let n = w.as_str().unicode_len();
    let mut numlike = true;
    let mut dots: usize = 0;
    let mut j: usize = 0;
    while j < n
        invariant
            0 <= j <= n,
            n == w@.len(),
            numlike == sp_numlike(w@.take(j as int)),
            dots == sp_dot_count(w@.take(j as int)),
            dots <= j,
        decreases n - j,
    {
        let c = w.as_str().get_char(j);
        proof {
            assert(w@.take(j + 1).drop_last() =~= w@.take(j as int));
            assert(w@.take(j + 1).last() == w@[j as int]);
        }
        if !((c >= '0' && c <= '9') || c == '.') {
            proof {
                assert(!(sp_is_digit(w@[j as int]) || w@[j as int] == '.'));
                assert(!sp_numlike(w@.take(j + 1)));
            }
            numlike = false;
        } else {
            proof {
                if numlike {
                    assert(sp_numlike(w@.take(j + 1))) by {
                        assert(forall|k: int|
                            0 <= k < j + 1 ==> #[trigger] w@.take(j + 1)[k] == w@.take(
                                j as int,
                            ).push(w@[j as int])[k]);
                    }
                }
            }
        }
        if c == '.' {
            dots = dots + 1;
        }
        j = j + 1;
    }
    proof {
        assert(w@.take(n as int) =~= w@);
    }
    if numlike && dots <= 1 {
        Token::NumLit(w)
    } else {
        Token::Ident(w)
    }
}

/// Scans the source from position `i` into tokens.
fn tokenize_at(s: &str, i: usize) -> (r: Result<Vec<Token>, TokenizeError>)
    requires
        i <= s@.len(),
    ensures
        match r {
            Result::Ok(toks) => sp_tokenize(s@, i as int) == Result::<
                Seq<TokenM>,
                TokenizeErrorM,
            >::Ok(view_tokens(toks@)),
            Result::Err(e) => sp_tokenize(s@, i as int) == Result::<
                Seq<TokenM>,
                TokenizeErrorM,
            >::Err(e@),
        },
    decreases s@.len() - i, 1int,
{
    let n = s.unicode_len();
    if i >= n {
        let r: Vec<Token> = Vec::new();
        assert(view_tokens(r@) =~= Seq::<TokenM>::empty());
        return Result::Ok(r);
    }
    let c = s.get_char(i);
    if is_space(c) {
        return tokenize_at(s, i + 1);
    }
    match token_letters(c) {
        Option::Some(Signal::Eq) => tokenize_cons(Token::Eq, s, i + 1),
        Option::Some(Signal::Plus) => tokenize_cons(Token::Plus, s, i + 1),
        Option::Some(Signal::Minus) => tokenize_cons(Token::Minus, s, i + 1),
        Option::Some(Signal::Gt) => tokenize_cons(Token::Gt, s, i + 1),
        Option::Some(Signal::Lt) => tokenize_cons(Token::Lt, s, i + 1),
        Option::Some(Signal::Dot) => tokenize_cons(Token::Dot, s, i + 1),
        Option::Some(Signal::Colon) => tokenize_cons(Token::Colon, s, i + 1),
        Option::Some(Signal::StrStart) => {
            match find_char(s, i + 1, '"') {
                Option::Some(j) => {
                    let lit = s.substring_char(i + 1, j).to_owned();
                    tokenize_cons(Token::StrLit(lit), s, j + 1)
                },
                Option::None => Result::Err(TokenizeError::UnclosedString),
            }
        },
        Option::Some(Signal::ParensStart) => {
            proof {
                assert(sp_tokenize(s@, i as int) == sp_tokenize_group(s@, i as int, '(', ')'));
            }
            match group_end(s, i + 1, '(', ')') {
                Option::Some(j) => {
                    let inner = s.substring_char(i + 1, j);
                    proof {
                        assert(inner@ == s@.subrange(i + 1, j as int));
                        assert(sp_group_end(s@, i + 1, '(', ')', 1) == Option::Some(j as int));
                    }
                    match tokenize_at(inner, 0) {
                        Result::Ok(toks) => {
                            proof {
                                assert(sp_tokenize(s@.subrange(i + 1, j as int), 0)
                                    == Result::<Seq<TokenM>, TokenizeErrorM>::Ok(view_tokens(toks@)));
                                assert(sp_tokenize_group(s@, i as int, '(', ')')
                                    == sp_tokenize_cons(TokenM::Parens(view_tokens(toks@)), s@, j + 1));
                            }
                            tokenize_cons(Token::Parens(toks), s, j + 1)
                        },
                        Result::Err(e) => Result::Err(e),
                    }
                },
                Option::None => Result::Err(TokenizeError::UnclosedGroup('(')),
            }
        },
        Option::Some(Signal::CurlyStart) => {
            proof {
                assert(sp_tokenize(s@, i as int) == sp_tokenize_group(s@, i as int, '{', '}'));
            }
            match group_end(s, i + 1, '{', '}') {
                Option::Some(j) => {
                    let inner = s.substring_char(i + 1, j);
                    proof {
                        assert(inner@ == s@.subrange(i + 1, j as int));
                    }
                    match tokenize_at(inner, 0) {
                        Result::Ok(toks) => {
                            proof {
                                assert(sp_tokenize_group(s@, i as int, '{', '}')
                                    == sp_tokenize_cons(TokenM::Curly(view_tokens(toks@)), s@, j + 1));
                            }
                            tokenize_cons(Token::Curly(toks), s, j + 1)
                        },
                        Result::Err(e) => Result::Err(e),
                    }
                },
                Option::None => Result::Err(TokenizeError::UnclosedGroup('{')),
            }
        },
        Option::Some(Signal::BracketStart) => {
            proof {
                assert(sp_tokenize(s@, i as int) == sp_tokenize_group(s@, i as int, '[', ']'));
            }
            match group_end(s, i + 1, '[', ']') {
                Option::Some(j) => {
                    let inner = s.substring_char(i + 1, j);
                    proof {
                        assert(inner@ == s@.subrange(i + 1, j as int));
                    }
                    match tokenize_at(inner, 0) {
                        Result::Ok(toks) => {
                            proof {
                                assert(sp_tokenize_group(s@, i as int, '[', ']')
                                    == sp_tokenize_cons(TokenM::Brackets(view_tokens(toks@)), s@, j + 1));
                            }
                            tokenize_cons(Token::Brackets(toks), s, j + 1)
                        },
                        Result::Err(e) => Result::Err(e),
                    }
                },
                Option::None => Result::Err(TokenizeError::UnclosedGroup('[')),
            }
        },
        Option::None => {
            let j = word_end(s, i);
            let word = s.substring_char(i, j).to_owned();
            tokenize_cons(classify(word), s, j)
        },
    }
}

/// One scanned token followed by the tokens of the rest of the source.
fn tokenize_cons(t: Token, s: &str, i: usize) -> (r: Result<Vec<Token>, TokenizeError>)
    requires
        i <= s@.len(),
    ensures
        match r {
            Result::Ok(toks) => sp_tokenize_cons(t@, s@, i as int) == Result::<
                Seq<TokenM>,
                TokenizeErrorM,
            >::Ok(view_tokens(toks@)),
            Result::Err(e) => sp_tokenize_cons(t@, s@, i as int) == Result::<
                Seq<TokenM>,
                TokenizeErrorM,
            >::Err(e@),
        },
    decreases s@.len() - i, 2int,
{
    let ghost tm = t@;
    match tokenize_at(s, i) {
        Result::Ok(rest) => {
            let ghost rest0 = rest@;
            let mut out: Vec<Token> = Vec::new();
            out.push(t);
            let mut rest = rest;
            out.append(&mut rest);
            proof {
                assert(out@ == seq![out@[0]] + rest0);
                assert(out@.drop_first() =~= rest0);
                assert(out@[0]@ == tm);
                assert(view_tokens(out@) == seq![tm] + view_tokens(rest0));
            }
            Result::Ok(out)
        },
        Result::Err(e) => Result::Err(e),
    }
}

/// Tokenizes a whole source string.
pub fn tokenize(s: &str) -> (r: Result<Vec<Token>, TokenizeError>)
    ensures
        match r {
            Result::Ok(toks) => sp_tokenize(s@, 0) == Result::<
                Seq<TokenM>,
                TokenizeErrorM,
            >::Ok(view_tokens(toks@)),
            Result::Err(e) => sp_tokenize(s@, 0) == Result::<
                Seq<TokenM>,
                TokenizeErrorM,
            >::Err(e@),
        },
{
    tokenize_at(s, 0)
}

/// Deep-copies a token.
#[verifier::loop_isolation(false)]
pub fn token_clone(t: &Token) -> (r: Token)
    ensures
        r@ == t@,
    decreases t,
{
    match t {
        Token::Let => Token::Let,
        Token::Fn => Token::Fn,
        Token::If => Token::If,
        Token::Else => Token::Else,
        Token::Loop => Token::Loop,
        Token::Break => Token::Break,
        Token::For => Token::For,
        Token::In => Token::In,
        Token::Or => Token::Or,
        Token::And => Token::And,
        Token::Dot => Token::Dot,
        Token::Colon => Token::Colon,
        Token::Eq => Token::Eq,
        Token::Plus => Token::Plus,
        Token::Minus => Token::Minus,
        Token::Gt => Token::Gt,
        Token::Lt => Token::Lt,
        Token::Ident(s) => Token::Ident(s.clone()),
        Token::NumLit(s) => Token::NumLit(s.clone()),
        Token::StrLit(s) => Token::StrLit(s.clone()),
        Token::Parens(v) => Token::Parens(tokens_clone(v)),
        Token::Curly(v) => Token::Curly(tokens_clone(v)),
        Token::Brackets(v) => Token::Brackets(tokens_clone(v)),
    }
}

/// Deep-copies a token list.
#[verifier::loop_isolation(false)]
pub fn tokens_clone(v: &Vec<Token>) -> (r: Vec<Token>)
    ensures
        view_tokens(r@) == view_tokens(v@),
    decreases v,
{
    let mut out: Vec<Token> = Vec::new();
    let mut k: usize = 0;
    while k < v.len()
        invariant
            0 <= k <= v.len(),
            out@.len() == k,
            forall|j: int| 0 <= j < k ==> view_token(out@[j]) == view_token(v@[j]),
        decreases v.len() - k,
    {
        out.push(token_clone(&v[k]));
        k = k + 1;
    }
    proof {
        lemma_view_tokens_len(out@);
        lemma_view_tokens_len(v@);
        assert(view_tokens(out@) =~= view_tokens(v@)) by {
            assert forall|j: int| 0 <= j < v@.len() implies view_tokens(out@)[j] == view_tokens(
                v@,
            )[j] by {
                lemma_view_tokens_index(out@, j);
                lemma_view_tokens_index(v@, j);
            }
        }
    }
    out
}

} // verus!


