//! Tokens, and how a text divides into them.

use vstd::prelude::*;
use vstd::string::StrSliceExecFns;

verus! {

/// A token of the concrete syntax. A name is given by the span of the text
/// that it covers.
#[derive(Debug, Clone, Copy, PartialEq, Eq, Structural)]
pub enum Token {
    Int(isize),
    Ident { start: usize, end: usize },
    Let,
    Mut,
    If,
    Else,
    While,
    True,
    False,
    Free,
    Plus,
    Minus,
    Star,
    Slash,
    Percent,
    Leq,
    Geq,
    Lt,
    Gt,
    EqEq,
    Neq,
    AndAnd,
    OrOr,
    Amp,
    Assign,
    Question,
    Colon,
    ColonColon,
    LParen,
    RParen,
    LBrace,
    RBrace,
    Semi,
}

/// Whether `c` separates tokens without being one.
pub open spec fn is_space(c: char) -> bool {
    c == ' ' || c == '\t' || c == '\n' || c == '\r'
}

/// Whether `c` is a decimal digit.
pub open spec fn is_digit(c: char) -> bool {
    '0' <= c <= '9'
}

/// Whether a word can start with `c`.
pub open spec fn is_word_start(c: char) -> bool {
    'a' <= c <= 'z' || 'A' <= c <= 'Z' || c == '_'
}

/// Whether a word can go on with `c`.
pub open spec fn is_word_char(c: char) -> bool {
    is_word_start(c) || is_digit(c)
}

/// The value of a decimal digit.
pub open spec fn digit_value(c: char) -> int
    recommends
        is_digit(c),
{
    c as int - '0' as int
}

/// Where the word that starts at `pos` ends: behind the last of the word
/// characters that follow one another from `pos` on.
pub open spec fn word_end(s: Seq<char>, pos: int) -> int
    decreases s.len() - pos,
{
    if 0 <= pos < s.len() && is_word_char(s[pos]) {
        word_end(s, pos + 1)
    } else {
        pos
    }
}

/// The integer literal whose digits start at `pos`, after digits worth
/// `acc`, and where it ends; `None` when its value does not fit.
pub open spec fn number_at(s: Seq<char>, pos: int, acc: int) -> Option<(isize, int)>
    decreases s.len() - pos,
{
    if 0 <= pos < s.len() && is_digit(s[pos]) {
        let value = acc * 10 + digit_value(s[pos]);
        if value > isize::MAX {
            None
        } else {
            number_at(s, pos + 1, value)
        }
    } else {
        Some((acc as isize, pos))
    }
}

/// The token that the word `w` is: a keyword, or the name that covers
/// `start..end`.
pub open spec fn word_token(w: Seq<char>, start: int, end: int) -> Token {
    if w == "let"@ {
        Token::Let
    } else if w == "mut"@ {
        Token::Mut
    } else if w == "if"@ {
        Token::If
    } else if w == "else"@ {
        Token::Else
    } else if w == "while"@ {
        Token::While
    } else if w == "true"@ {
        Token::True
    } else if w == "false"@ {
        Token::False
    } else if w == "free"@ {
        Token::Free
    } else {
        Token::Ident { start: start as usize, end: end as usize }
    }
}

/// Whether the character behind `pos` is `c`.
pub open spec fn next_is(s: Seq<char>, pos: int, c: char) -> bool {
    pos + 1 < s.len() && s[pos + 1] == c
}

/// The token made of punctuation that starts at `pos`, and where it ends.
/// Of two symbols that start alike the longer one is taken.
pub open spec fn symbol_at(s: Seq<char>, pos: int) -> Option<(Token, int)>
    recommends
        0 <= pos < s.len(),
{
    let c = s[pos];
    if c == '+' {
        Some((Token::Plus, pos + 1))
    } else if c == '-' {
        Some((Token::Minus, pos + 1))
    } else if c == '*' {
        Some((Token::Star, pos + 1))
    } else if c == '/' {
        Some((Token::Slash, pos + 1))
    } else if c == '%' {
        Some((Token::Percent, pos + 1))
    } else if c == '<' {
        if next_is(s, pos, '=') {
            Some((Token::Leq, pos + 2))
        } else {
            Some((Token::Lt, pos + 1))
        }
    } else if c == '>' {
        if next_is(s, pos, '=') {
            Some((Token::Geq, pos + 2))
        } else {
            Some((Token::Gt, pos + 1))
        }
    } else if c == '=' {
        if next_is(s, pos, '=') {
            Some((Token::EqEq, pos + 2))
        } else {
            Some((Token::Assign, pos + 1))
        }
    } else if c == '!' {
        if next_is(s, pos, '=') {
            Some((Token::Neq, pos + 2))
        } else {
            None
        }
    } else if c == '&' {
        if next_is(s, pos, '&') {
            Some((Token::AndAnd, pos + 2))
        } else {
            Some((Token::Amp, pos + 1))
        }
    } else if c == '|' {
        if next_is(s, pos, '|') {
            Some((Token::OrOr, pos + 2))
        } else {
            None
        }
    } else if c == '?' {
        Some((Token::Question, pos + 1))
    } else if c == ':' {
        if next_is(s, pos, ':') {
            Some((Token::ColonColon, pos + 2))
        } else {
            Some((Token::Colon, pos + 1))
        }
    } else if c == '(' {
        Some((Token::LParen, pos + 1))
    } else if c == ')' {
        Some((Token::RParen, pos + 1))
    } else if c == '{' {
        Some((Token::LBrace, pos + 1))
    } else if c == '}' {
        Some((Token::RBrace, pos + 1))
    } else if c == ';' {
        Some((Token::Semi, pos + 1))
    } else {
        None
    }
}

/// The token that starts at `pos`, where no space is, and where it ends.
pub open spec fn token_at(s: Seq<char>, pos: int) -> Option<(Token, int)>
    recommends
        0 <= pos < s.len(),
{
    if is_digit(s[pos]) {
        match number_at(s, pos, 0) {
            Some((n, end)) => Some((Token::Int(n), end)),
            None => None,
        }
    } else if is_word_start(s[pos]) {
        let end = word_end(s, pos);
        Some((word_token(s.subrange(pos, end), pos, end), end))
    } else {
        symbol_at(s, pos)
    }
}

/// The tokens of the text from `pos` on; `None` where some character
/// starts no token, or an integer literal does not fit.
pub open spec fn tokens_from(s: Seq<char>, pos: int) -> Option<Seq<Token>>
    decreases s.len() - pos,
{
    if pos < 0 || pos >= s.len() {
        Some(Seq::empty())
    } else if is_space(s[pos]) {
        tokens_from(s, pos + 1)
    } else {
        match token_at(s, pos) {
            Some((token, end)) => if pos < end <= s.len() {
                match tokens_from(s, end) {
                    Some(rest) => Some(seq![token] + rest),
                    None => None,
                }
            } else {
                None
            },
            None => None,
        }
    }
}

/// The tokens of a text.
pub open spec fn tokens_of(s: Seq<char>) -> Option<Seq<Token>> {
    tokens_from(s, 0)
}

/// Whether every name among the tokens covers a span of a text of `len`
/// characters.
pub open spec fn spans_within(tokens: Seq<Token>, len: int) -> bool {
    forall|i: int|
        0 <= i < tokens.len() ==> (#[trigger] tokens[i] matches Token::Ident { start, end }
            ==> start <= end <= len)
}

/// A word extends from its start to its end, within the text.
proof fn lemma_word_end(s: Seq<char>, pos: int)
    requires
        0 <= pos <= s.len(),
    ensures
        pos <= word_end(s, pos) <= s.len(),
        forall|i: int| pos <= i < word_end(s, pos) ==> is_word_char(#[trigger] s[i]),
        word_end(s, pos) < s.len() ==> !is_word_char(s[word_end(s, pos)]),
    decreases s.len() - pos,
{
    if pos < s.len() && is_word_char(s[pos]) {
        lemma_word_end(s, pos + 1);
    }
}

/// An integer literal ends within the text, and behind its start when a
/// digit stands there.
proof fn lemma_number_at(s: Seq<char>, pos: int, acc: int)
    requires
        0 <= pos <= s.len(),
        0 <= acc <= isize::MAX,
    ensures
        number_at(s, pos, acc) matches Some((_, end)) ==> pos <= end <= s.len() && (pos < s.len()
            && is_digit(s[pos]) ==> pos < end),
    decreases s.len() - pos,
{
    if pos < s.len() && is_digit(s[pos]) {
        let value = acc * 10 + digit_value(s[pos]);
        if value <= isize::MAX {
            lemma_number_at(s, pos + 1, value);
        }
    }
}

/// A token is not empty and ends within the text.
proof fn lemma_token_at(s: Seq<char>, pos: int)
    requires
        0 <= pos < s.len() <= usize::MAX,
    ensures
        token_at(s, pos) matches Some((token, end)) ==> pos < end <= s.len() && (
        token matches Token::Ident { start, end: stop } ==> start == pos && stop == end),
{
    if is_digit(s[pos]) {
        lemma_number_at(s, pos, 0);
    } else if is_word_start(s[pos]) {
        lemma_word_end(s, pos + 1);
    }
}

fn space_char(c: char) -> (b: bool)
    ensures
        b == is_space(c),
{
    c == ' ' || c == '\t' || c == '\n' || c == '\r'
}

fn digit_char(c: char) -> (b: bool)
    ensures
        b == is_digit(c),
{
    '0' <= c && c <= '9'
}

fn word_start_char(c: char) -> (b: bool)
    ensures
        b == is_word_start(c),
{
    ('a' <= c && c <= 'z') || ('A' <= c && c <= 'Z') || c == '_'
}

fn word_char(c: char) -> (b: bool)
    ensures
        b == is_word_char(c),
{
    word_start_char(c) || digit_char(c)
}

/// The characters of a text.
pub fn chars_of(text: &str) -> (chars: Vec<char>)
    ensures
        chars@ == text@,
{
    let mut chars: Vec<char> = Vec::new();
    for c in it: text.chars()
        invariant
            chars@ == it.seq().take(it.index() as int),
            it.seq() == text@,
    {
        chars.push(c);
    }
    chars
}

/// Where the word that starts at `pos` ends.
fn scan_word(chars: &Vec<char>, pos: usize) -> (end: usize)
    requires
        pos <= chars@.len(),
    ensures
        end == word_end(chars@, pos as int),
        pos <= end <= chars@.len(),
{
    let mut end: usize = pos;
    while end < chars.len() && word_char(chars[end])
        invariant
            pos <= end <= chars@.len(),
            word_end(chars@, end as int) == word_end(chars@, pos as int),
        decreases chars@.len() - end,
    {
        end = end + 1;
    }
    end
}

/// The integer literal that starts at `pos`, and where it ends.
fn scan_number(chars: &Vec<char>, pos: usize) -> (r: Option<(isize, usize)>)
    requires
        pos <= chars@.len(),
    ensures
        r == (match number_at(chars@, pos as int, 0) {
            Some((n, end)) => Some((n, end as usize)),
            None => None,
        }),
        r matches Some((n, end)) ==> pos <= end <= chars@.len() && number_at(chars@, pos as int, 0)
            == Some((n, end as int)),
{
    let mut end: usize = pos;
    let mut value: isize = 0;
    while end < chars.len() && digit_char(chars[end])
        invariant
            pos <= end <= chars@.len(),
            0 <= value,
            number_at(chars@, end as int, value as int) == number_at(chars@, pos as int, 0),
        decreases chars@.len() - end,
    {
        let digit: isize = (chars[end] as u32 - '0' as u32) as isize;
        if value > (isize::MAX - digit) / 10 {
            return None;
        }
        value = value * 10 + digit;
        end = end + 1;
    }
    proof {
        lemma_number_at(chars@, end as int, value as int);
    }
    Some((value, end))
}

/// Whether the characters of `start..end` are those of `word`.
pub(crate) fn span_is(chars: &Vec<char>, start: usize, end: usize, word: &str) -> (b: bool)
    requires
        start <= end <= chars@.len(),
    ensures
        b == (chars@.subrange(start as int, end as int) == word@),
{
    let n = word.unicode_len();
    if end - start != n {
        return false;
    }
    let mut i: usize = 0;
    while i < n
        invariant
            i <= n,
            n == word@.len(),
            n == end - start,
            start <= end <= chars@.len(),
            forall|j: int| 0 <= j < i ==> chars@[start + j] == word@[j],
        decreases n - i,
    {
        if chars[start + i] != word.get_char(i) {
            assert(chars@.subrange(start as int, end as int)[i as int] != word@[i as int]);
            return false;
        }
        i = i + 1;
    }
    assert(chars@.subrange(start as int, end as int) =~= word@);
    true
}

/// The token that the word in `start..end` is.
fn classify_word(chars: &Vec<char>, start: usize, end: usize) -> (token: Token)
    requires
        start <= end <= chars@.len(),
    ensures
        token == word_token(chars@.subrange(start as int, end as int), start as int, end as int),
{
    if span_is(chars, start, end, "let") {
        Token::Let
    } else if span_is(chars, start, end, "mut") {
        Token::Mut
    } else if span_is(chars, start, end, "if") {
        Token::If
    } else if span_is(chars, start, end, "else") {
        Token::Else
    } else if span_is(chars, start, end, "while") {
        Token::While
    } else if span_is(chars, start, end, "true") {
        Token::True
    } else if span_is(chars, start, end, "false") {
        Token::False
    } else if span_is(chars, start, end, "free") {
        Token::Free
    } else {
        Token::Ident { start, end }
    }
}

/// Whether the character behind `pos` is `c`.
fn next_char_is(chars: &Vec<char>, pos: usize, c: char) -> (b: bool)
    requires
        pos < chars@.len() <= usize::MAX,
    ensures
        b == next_is(chars@, pos as int, c),
{
    pos + 1 < chars.len() && chars[pos + 1] == c
}

/// One of two tokens that start alike: `long` where `second` follows the
/// first character, else `short`, if there is such a token.
fn one_or_two(chars: &Vec<char>, pos: usize, second: char, long: Token, short: Option<Token>) -> (r:
    Option<(Token, usize)>)
    requires
        pos < chars@.len() <= usize::MAX,
    ensures
        r == (if next_is(chars@, pos as int, second) {
            Some((long, (pos + 2) as usize))
        } else {
            match short {
                Some(token) => Some((token, (pos + 1) as usize)),
                None => None,
            }
        }),
{
    if next_char_is(chars, pos, second) {
        Some((long, pos + 2))
    } else {
        match short {
            Some(token) => Some((token, pos + 1)),
            None => None,
        }
    }
}

/// The token made of punctuation that starts at `pos`, and where it ends.
fn scan_symbol(chars: &Vec<char>, pos: usize) -> (r: Option<(Token, usize)>)
    requires
        pos < chars@.len() <= usize::MAX,
    ensures
        r == (match symbol_at(chars@, pos as int) {
            Some((token, end)) => Some((token, end as usize)),
            None => None,
        }),
{
    let c = chars[pos];
    if c == '+' {
        Some((Token::Plus, pos + 1))
    } else if c == '-' {
        Some((Token::Minus, pos + 1))
    } else if c == '*' {
        Some((Token::Star, pos + 1))
    } else if c == '/' {
        Some((Token::Slash, pos + 1))
    } else if c == '%' {
        Some((Token::Percent, pos + 1))
    } else if c == '<' {
        one_or_two(chars, pos, '=', Token::Leq, Some(Token::Lt))
    } else if c == '>' {
        one_or_two(chars, pos, '=', Token::Geq, Some(Token::Gt))
    } else if c == '=' {
        one_or_two(chars, pos, '=', Token::EqEq, Some(Token::Assign))
    } else if c == '!' {
        one_or_two(chars, pos, '=', Token::Neq, None)
    } else if c == '&' {
        one_or_two(chars, pos, '&', Token::AndAnd, Some(Token::Amp))
    } else if c == '|' {
        one_or_two(chars, pos, '|', Token::OrOr, None)
    } else if c == '?' {
        Some((Token::Question, pos + 1))
    } else if c == ':' {
        one_or_two(chars, pos, ':', Token::ColonColon, Some(Token::Colon))
    } else if c == '(' {
        Some((Token::LParen, pos + 1))
    } else if c == ')' {
        Some((Token::RParen, pos + 1))
    } else if c == '{' {
        Some((Token::LBrace, pos + 1))
    } else if c == '}' {
        Some((Token::RBrace, pos + 1))
    } else if c == ';' {
        Some((Token::Semi, pos + 1))
    } else {
        None
    }
}

/// The token that starts at `pos`, and where it ends.
fn scan_token(chars: &Vec<char>, pos: usize) -> (r: Option<(Token, usize)>)
    requires
        pos < chars@.len() <= usize::MAX,
    ensures
        r == (match token_at(chars@, pos as int) {
            Some((token, end)) => Some((token, end as usize)),
            None => None,
        }),
        r matches Some((token, end)) ==> pos < end <= chars@.len() && token_at(chars@, pos as int)
            == Some((token, end as int)),
{
    proof {
        lemma_token_at(chars@, pos as int);
    }
    let c = chars[pos];
    if digit_char(c) {
        match scan_number(chars, pos) {
            Some((n, end)) => Some((Token::Int(n), end)),
            None => None,
        }
    } else if word_start_char(c) {
        let end = scan_word(chars, pos);
        Some((classify_word(chars, pos, end), end))
    } else {
        scan_symbol(chars, pos)
    }
}

/// Divides a text into its tokens; `None` where some character starts no
/// token, or an integer literal does not fit.
pub fn tokenize(chars: &Vec<char>) -> (r: Option<Vec<Token>>)
    ensures
        match r {
            Some(tokens) => tokens_of(chars@) == Some(tokens@) && spans_within(
                tokens@,
                chars@.len() as int,
            ),
            None => tokens_of(chars@) is None,
        },
{
    let mut tokens: Vec<Token> = Vec::new();
    let mut pos: usize = 0;
    let len = chars.len();
    while pos < len
        invariant
            len == chars@.len(),
            pos <= chars@.len() <= usize::MAX,
            spans_within(tokens@, chars@.len() as int),
            tokens_of(chars@) == (match tokens_from(chars@, pos as int) {
                Some(rest) => Some(tokens@ + rest),
                None => None,
            }),
        decreases chars@.len() - pos,
    {
        if space_char(chars[pos]) {
            pos = pos + 1;
        } else {
            proof {
                lemma_token_at(chars@, pos as int);
            }
            match scan_token(chars, pos) {
                Some((token, end)) => {
                    proof {
                        let rest = tokens_from(chars@, end as int);
                        if rest is Some {
                            assert(tokens@.push(token) + rest->0 =~= tokens@ + (seq![token]
                                + rest->0));
                        }
                    }
                    tokens.push(token);
                    pos = end;
                },
                None => {
                    return None;
                },
            }
        }
    }
    assert(tokens@ + Seq::<Token>::empty() =~= tokens@);
    Some(tokens)
}

} // verus!
