//! The lexer: it cuts the text of a query into words, numbers, strings and
//! punctuation.

use vstd::prelude::*;

verus! {

/// The kinds of lexemes.
#[derive(Debug, PartialEq, Eq, Copy, Clone, Structural)]
pub enum LexKind {
    /// A name or a keyword: a letter or `_`, then letters, digits and `_`.
    Word,
    /// Decimal digits.
    Int,
    /// Decimal digits, a point, decimal digits.
    Float,
    /// Text between two `'` or two `"`.
    Str,
    LParen,
    RParen,
    LBracket,
    RBracket,
    LBrace,
    RBrace,
    Comma,
    Colon,
    Dot,
    Dash,
    Plus,
    Star,
    Slash,
    Percent,
    Lt,
    Gt,
    LtEq,
    GtEq,
    Eq,
    NotEq,
    PlusEq,
}

/// A lexeme: its kind, and the characters `start..end` of the text that it
/// spans.
#[derive(Debug, Copy, Clone)]
pub struct Lexeme {
    pub kind: LexKind,
    pub start: usize,
    pub end: usize,
}

/// Whether the character separates lexemes.
pub open spec fn is_space(c: char) -> bool {
    c == ' ' || c == '\t' || c == '\n' || c == '\r'
}

/// Whether the character is a decimal digit.
pub open spec fn is_digit(c: char) -> bool {
    '0' <= c <= '9'
}

/// Whether a word can start with the character.
pub open spec fn is_word_start(c: char) -> bool {
    ('a' <= c <= 'z') || ('A' <= c <= 'Z') || c == '_'
}

/// Whether a word can go on with the character.
pub open spec fn is_word_char(c: char) -> bool {
    is_word_start(c) || is_digit(c)
}

/// Where the word characters from `pos` on end.
pub open spec fn word_end(src: Seq<char>, pos: int) -> int
    decreases src.len() - pos,
{
    if 0 <= pos < src.len() && is_word_char(src[pos]) {
        word_end(src, pos + 1)
    } else {
        pos
    }
}

/// Where the digits from `pos` on end.
pub open spec fn digits_end(src: Seq<char>, pos: int) -> int
    decreases src.len() - pos,
{
    if 0 <= pos < src.len() && is_digit(src[pos]) {
        digits_end(src, pos + 1)
    } else {
        pos
    }
}

/// The place of the first `quote` from `pos` on, or the length of the text if
/// there is none.
pub open spec fn quote_at(src: Seq<char>, pos: int, quote: char) -> int
    decreases src.len() - pos,
{
    if 0 <= pos < src.len() && src[pos] != quote {
        quote_at(src, pos + 1, quote)
    } else {
        pos
    }
}

/// The kind of the punctuation of two characters, if `a` and `b` make one.
pub open spec fn punct2(a: char, b: char) -> Option<LexKind> {
    if a == '<' && b == '=' {
        Some(LexKind::LtEq)
    } else if a == '>' && b == '=' {
        Some(LexKind::GtEq)
    } else if a == '<' && b == '>' {
        Some(LexKind::NotEq)
    } else if a == '+' && b == '=' {
        Some(LexKind::PlusEq)
    } else {
        None
    }
}

/// The kind of the punctuation that the character is, if it is one.
pub open spec fn punct1(c: char) -> Option<LexKind> {
    if c == '(' {
        Some(LexKind::LParen)
    } else if c == ')' {
        Some(LexKind::RParen)
    } else if c == '[' {
        Some(LexKind::LBracket)
    } else if c == ']' {
        Some(LexKind::RBracket)
    } else if c == '{' {
        Some(LexKind::LBrace)
    } else if c == '}' {
        Some(LexKind::RBrace)
    } else if c == ',' {
        Some(LexKind::Comma)
    } else if c == ':' {
        Some(LexKind::Colon)
    } else if c == '.' {
        Some(LexKind::Dot)
    } else if c == '-' {
        Some(LexKind::Dash)
    } else if c == '+' {
        Some(LexKind::Plus)
    } else if c == '*' {
        Some(LexKind::Star)
    } else if c == '/' {
        Some(LexKind::Slash)
    } else if c == '%' {
        Some(LexKind::Percent)
    } else if c == '<' {
        Some(LexKind::Lt)
    } else if c == '>' {
        Some(LexKind::Gt)
    } else if c == '=' {
        Some(LexKind::Eq)
    } else {
        None
    }
}

/// The lexeme that starts at `pos`, where a character that is no space
/// stands. A string must be closed; a character that starts no lexeme gives
/// none.
pub open spec fn lexeme_at(src: Seq<char>, pos: int) -> Option<Lexeme>
    recommends
        0 <= pos < src.len(),
{
    let c = src[pos];
    if is_word_start(c) {
        Some(Lexeme { kind: LexKind::Word, start: pos as usize, end: word_end(src, pos + 1) as usize })
    } else if is_digit(c) {
        let int_end = digits_end(src, pos + 1);
        if int_end + 1 < src.len() && src[int_end] == '.' && is_digit(src[int_end + 1]) {
            Some(
                Lexeme {
                    kind: LexKind::Float,
                    start: pos as usize,
                    end: digits_end(src, int_end + 2) as usize,
                },
            )
        } else {
            Some(Lexeme { kind: LexKind::Int, start: pos as usize, end: int_end as usize })
        }
    } else if c == '\'' || c == '"' {
        let close = quote_at(src, pos + 1, c);
        if close < src.len() {
            Some(Lexeme { kind: LexKind::Str, start: pos as usize, end: (close + 1) as usize })
        } else {
            None
        }
    } else if pos + 1 < src.len() && punct2(c, src[pos + 1]) is Some {
        Some(Lexeme { kind: punct2(c, src[pos + 1])->0, start: pos as usize, end: (pos + 2) as usize })
    } else if punct1(c) is Some {
        Some(Lexeme { kind: punct1(c)->0, start: pos as usize, end: (pos + 1) as usize })
    } else {
        None
    }
}

/// The lexemes of the text from `pos` on, added to `acc`; none if a character
/// starts no lexeme.
pub open spec fn lex_from(src: Seq<char>, pos: int, acc: Seq<Lexeme>) -> Option<Seq<Lexeme>>
    decreases src.len() - pos,
{
    if 0 <= pos < src.len() {
        if is_space(src[pos]) {
            lex_from(src, pos + 1, acc)
        } else {
            match lexeme_at(src, pos) {
                Some(lexeme) => if pos < lexeme.end <= src.len() {
                    lex_from(src, lexeme.end as int, acc.push(lexeme))
                } else {
                    None
                },
                None => None,
            }
        }
    } else {
        Some(acc)
    }
}

/// The lexemes of a text.
pub open spec fn lex_spec(src: Seq<char>) -> Option<Seq<Lexeme>> {
    lex_from(src, 0, Seq::empty())
}

/// Each lexeme spans at least one character of the text, and the lexemes
/// follow each other.
#[verifier::opaque]
pub open spec fn lexemes_wf(src: Seq<char>, lexemes: Seq<Lexeme>) -> bool {
    &&& forall|i: int|
        0 <= i < lexemes.len() ==> (#[trigger] lexemes[i]).start < lexemes[i].end <= src.len()
    &&& forall|i: int, j: int|
        0 <= i < j < lexemes.len() ==> (#[trigger] lexemes[i]).end <= (#[trigger] lexemes[j]).start
}

/// Where the word characters from `pos` on end.
fn scan_word(src: &Vec<char>, pos: usize) -> (end: usize)
    requires
        pos <= src.len(),
    ensures
        end == word_end(src@, pos as int),
        pos <= end <= src.len(),
{
    let mut i: usize = pos;
    while i < src.len() && (('a' <= src[i] && src[i] <= 'z') || ('A' <= src[i] && src[i] <= 'Z')
        || src[i] == '_' || ('0' <= src[i] && src[i] <= '9'))
        invariant
            pos <= i <= src.len(),
            word_end(src@, i as int) == word_end(src@, pos as int),
        decreases src.len() - i,
    {
        i += 1;
    }
    i
}

/// Where the digits from `pos` on end.
fn scan_digits(src: &Vec<char>, pos: usize) -> (end: usize)
    requires
        pos <= src.len(),
    ensures
        end == digits_end(src@, pos as int),
        pos <= end <= src.len(),
{
    let mut i: usize = pos;
    while i < src.len() && '0' <= src[i] && src[i] <= '9'
        invariant
            pos <= i <= src.len(),
            digits_end(src@, i as int) == digits_end(src@, pos as int),
        decreases src.len() - i,
    {
        i += 1;
    }
    i
}

/// The place of the first `quote` from `pos` on.
fn scan_quote(src: &Vec<char>, pos: usize, quote: char) -> (end: usize)
    requires
        pos <= src.len(),
    ensures
        end == quote_at(src@, pos as int, quote),
        pos <= end <= src.len(),
{
    let mut i: usize = pos;
    while i < src.len() && src[i] != quote
        invariant
            pos <= i <= src.len(),
            quote_at(src@, i as int, quote) == quote_at(src@, pos as int, quote),
        decreases src.len() - i,
    {
        i += 1;
    }
    i
}

/// The kind of the punctuation of two characters.
fn two_char_punct(a: char, b: char) -> (k: Option<LexKind>)
    ensures
        k == punct2(a, b),
{
    if a == '<' && b == '=' {
        Some(LexKind::LtEq)
    } else if a == '>' && b == '=' {
        Some(LexKind::GtEq)
    } else if a == '<' && b == '>' {
        Some(LexKind::NotEq)
    } else if a == '+' && b == '=' {
        Some(LexKind::PlusEq)
    } else {
        None
    }
}

/// The kind of the punctuation that the character is.
fn one_char_punct(c: char) -> (k: Option<LexKind>)
    ensures
        k == punct1(c),
{
    if c == '(' {
        Some(LexKind::LParen)
    } else if c == ')' {
        Some(LexKind::RParen)
    } else if c == '[' {
        Some(LexKind::LBracket)
    } else if c == ']' {
        Some(LexKind::RBracket)
    } else if c == '{' {
        Some(LexKind::LBrace)
    } else if c == '}' {
        Some(LexKind::RBrace)
    } else if c == ',' {
        Some(LexKind::Comma)
    } else if c == ':' {
        Some(LexKind::Colon)
    } else if c == '.' {
        Some(LexKind::Dot)
    } else if c == '-' {
        Some(LexKind::Dash)
    } else if c == '+' {
        Some(LexKind::Plus)
    } else if c == '*' {
        Some(LexKind::Star)
    } else if c == '/' {
        Some(LexKind::Slash)
    } else if c == '%' {
        Some(LexKind::Percent)
    } else if c == '<' {
        Some(LexKind::Lt)
    } else if c == '>' {
        Some(LexKind::Gt)
    } else if c == '=' {
        Some(LexKind::Eq)
    } else {
        None
    }
}

/// The lexeme that starts at `pos`.
fn next_lexeme(src: &Vec<char>, pos: usize) -> (r: Option<Lexeme>)
    requires
        pos < src.len(),
    ensures
        r == lexeme_at(src@, pos as int),
        r matches Some(lexeme) ==> lexeme.start == pos && pos < lexeme.end <= src.len(),
{
    let c = src[pos];
    if ('a' <= c && c <= 'z') || ('A' <= c && c <= 'Z') || c == '_' {
        Some(Lexeme { kind: LexKind::Word, start: pos, end: scan_word(src, pos + 1) })
    } else if '0' <= c && c <= '9' {
        let int_end = scan_digits(src, pos + 1);
        if int_end < src.len() && int_end + 1 < src.len() && src[int_end] == '.' && '0'
            <= src[int_end + 1] && src[int_end + 1] <= '9' {
            Some(Lexeme { kind: LexKind::Float, start: pos, end: scan_digits(src, int_end + 2) })
        } else {
            Some(Lexeme { kind: LexKind::Int, start: pos, end: int_end })
        }
    } else if c == '\'' || c == '"' {
        let close = scan_quote(src, pos + 1, c);
        if close < src.len() {
            Some(Lexeme { kind: LexKind::Str, start: pos, end: close + 1 })
        } else {
            None
        }
    } else {
        if pos + 1 < src.len() {
            match two_char_punct(c, src[pos + 1]) {
                Some(kind) => {
                    return Some(Lexeme { kind, start: pos, end: pos + 2 });
                },
                None => {},
            }
        }
        match one_char_punct(c) {
            Some(kind) => Some(Lexeme { kind, start: pos, end: pos + 1 }),
            None => None,
        }
    }
}

/// Cuts a text into lexemes; none if a character starts no lexeme or a string
/// is not closed.
pub fn lex(src: &Vec<char>) -> (r: Option<Vec<Lexeme>>)
    ensures
        match r {
            Some(lexemes) => lex_spec(src@) == Some(lexemes@) && lexemes_wf(src@, lexemes@),
            None => lex_spec(src@) is None,
        },
{
    let mut lexemes: Vec<Lexeme> = Vec::new();
    let mut pos: usize = 0;
    proof {
        reveal(lexemes_wf);
    }
    while pos < src.len()
        invariant
            pos <= src.len(),
            lex_from(src@, pos as int, lexemes@) == lex_spec(src@),
            lexemes_wf(src@, lexemes@),
            forall|i: int| 0 <= i < lexemes.len() ==> (#[trigger] lexemes@[i]).end <= pos,
        decreases src.len() - pos,
    {
        let c = src[pos];
        if c == ' ' || c == '\t' || c == '\n' || c == '\r' {
            pos += 1;
        } else {
            match next_lexeme(src, pos) {
                Some(lexeme) => {
                    proof {
                        reveal(lexemes_wf);
                    }
                    lexemes.push(lexeme);
                    pos = lexeme.end;
                },
                None => {
                    return None;
                },
            }
        }
    }
    Some(lexemes)
}

} // verus!
