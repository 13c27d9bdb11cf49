//! The lexer: one left-to-right scan over the source characters with one
//! character of lookahead. Its behaviour is defined by the spec-level scan
//! `lex_spec`, and the executable `Lexer::lex` is proved to produce exactly
//! that token or error sequence. Lexing is total: every unrecognized
//! character is reported and the scan continues.
//!
//! Comments run from `//` to the end of the line and are skipped like
//! whitespace.

use vstd::prelude::*;
use crate::token::{Token, TokenV, tokens_view};
use crate::error::{ErrorType, ErrorV, errors_view};
use crate::chars::{chars_of, word_is, char_to_string};

verus! {

// ---------------------------------------------------------------------
// Character classes
// ---------------------------------------------------------------------
pub open spec fn is_whitespace(c: char) -> bool {
    c == ' ' || c == '\t' || c == '\n' || c == '\r'
}

pub open spec fn is_digit(c: char) -> bool {
    48 <= (c as u32) <= 57
}

pub open spec fn is_alpha(c: char) -> bool {
    (97 <= (c as u32) <= 122) || (65 <= (c as u32) <= 90) || c == '_'
}

pub open spec fn is_ident_char(c: char) -> bool {
    is_alpha(c) || is_digit(c)
}

fn is_whitespace_e(c: char) -> (r: bool)
    ensures
        r == is_whitespace(c),
{
    c == ' ' || c == '\t' || c == '\n' || c == '\r'
}

fn is_digit_e(c: char) -> (r: bool)
    ensures
        r == is_digit(c),
{
    let u = c as u32;
    48 <= u && u <= 57
}

fn is_alpha_e(c: char) -> (r: bool)
    ensures
        r == is_alpha(c),
{
    let u = c as u32;
    (97 <= u && u <= 122) || (65 <= u && u <= 90) || c == '_'
}

fn is_ident_char_e(c: char) -> (r: bool)
    ensures
        r == is_ident_char(c),
{
    is_alpha_e(c) || is_digit_e(c)
}

/// The character an escape sequence `\c` denotes.
pub open spec fn esc(c: char) -> char {
    match c {
        'n' => '\n',
        't' => '\t',
        'r' => '\r',
        '0' => '\0',
        _ => c,
    }
}

fn esc_e(c: char) -> (r: char)
    ensures
        r == esc(c),
{
    match c {
        'n' => '\n',
        't' => '\t',
        'r' => '\r',
        '0' => '\0',
        _ => c,
    }
}

// ---------------------------------------------------------------------
// Runs of characters
// ---------------------------------------------------------------------
/// First position at or after `i` that does not continue an identifier.
pub open spec fn ident_end(s: Seq<char>, i: int) -> int
    decreases s.len() - i when 0 <= i <= s.len()
{
    if i < s.len() && is_ident_char(s[i]) {
        ident_end(s, i + 1)
    } else {
        i
    }
}

/// First position at or after `i` that does not hold a digit.
pub open spec fn digits_end(s: Seq<char>, i: int) -> int
    decreases s.len() - i when 0 <= i <= s.len()
{
    if i < s.len() && is_digit(s[i]) {
        digits_end(s, i + 1)
    } else {
        i
    }
}

/// First position at or after `i` holding a line break, or the end.
pub open spec fn line_end(s: Seq<char>, i: int) -> int
    decreases s.len() - i when 0 <= i <= s.len()
{
    if i < s.len() && s[i] != '\n' {
        line_end(s, i + 1)
    } else {
        i
    }
}

proof fn lemma_ident_end(s: Seq<char>, i: int)
    requires
        0 <= i <= s.len(),
    ensures
        i <= ident_end(s, i) <= s.len(),
    decreases s.len() - i,
{
    if i < s.len() && is_ident_char(s[i]) {
        lemma_ident_end(s, i + 1);
    }
}

proof fn lemma_digits_end(s: Seq<char>, i: int)
    requires
        0 <= i <= s.len(),
    ensures
        i <= digits_end(s, i) <= s.len(),
    decreases s.len() - i,
{
    if i < s.len() && is_digit(s[i]) {
        lemma_digits_end(s, i + 1);
    }
}

proof fn lemma_line_end(s: Seq<char>, i: int)
    requires
        0 <= i <= s.len(),
    ensures
        i <= line_end(s, i) <= s.len(),
    decreases s.len() - i,
{
    if i < s.len() && s[i] != '\n' {
        lemma_line_end(s, i + 1);
    }
}

/// Scans a string literal's body from just after the opening quote,
/// carrying the content collected so far. Yields the content and the
/// position after the closing quote, or `None` when the literal never
/// closes.
pub open spec fn string_scan(s: Seq<char>, i: int, acc: Seq<char>) -> Option<(Seq<char>, int)>
    decreases s.len() - i when 0 <= i <= s.len()
{
    if i >= s.len() {
        None
    } else if s[i] == '"' {
        Some((acc, i + 1))
    } else if s[i] == '\\' {
        if i + 1 < s.len() {
            string_scan(s, i + 2, acc.push(esc(s[i + 1])))
        } else {
            None
        }
    } else {
        string_scan(s, i + 1, acc.push(s[i]))
    }
}

proof fn lemma_string_scan(s: Seq<char>, i: int, acc: Seq<char>)
    requires
        0 <= i <= s.len(),
    ensures
        string_scan(s, i, acc) matches Some(p) ==> i < p.1 <= s.len(),
    decreases s.len() - i,
{
    if i < s.len() {
        if s[i] == '"' {
        } else if s[i] == '\\' {
            if i + 1 < s.len() {
                lemma_string_scan(s, i + 2, acc.push(esc(s[i + 1])));
            }
        } else {
            lemma_string_scan(s, i + 1, acc.push(s[i]));
        }
    }
}

// ---------------------------------------------------------------------
// Words: keywords, type names, identifiers
// ---------------------------------------------------------------------
/// What a scanned word means: an exact keyword, an exact type name, or
/// otherwise an identifier carrying its characters.
pub open spec fn classify_word(w: Seq<char>) -> TokenV {
    if w == "let"@ {
        TokenV::LET
    } else if w == "true"@ {
        TokenV::TRUE
    } else if w == "false"@ {
        TokenV::FALSE
    } else if w == "if"@ {
        TokenV::IF
    } else if w == "elif"@ {
        TokenV::ELIF
    } else if w == "else"@ {
        TokenV::ELSE
    } else if w == "for"@ {
        TokenV::FOR
    } else if w == "while"@ {
        TokenV::WHILE
    } else if w == "do"@ {
        TokenV::DO
    } else if w == "break"@ {
        TokenV::BREAK
    } else if w == "continue"@ {
        TokenV::CONTINUE
    } else if w == "return"@ {
        TokenV::RETURN
    } else if w == "fn"@ {
        TokenV::FUNCTION
    } else if w == "match"@ {
        TokenV::MATCH
    } else if w == "struct"@ {
        TokenV::STRUCT
    } else if w == "enum"@ {
        TokenV::ENUM
    } else if w == "Integer"@ {
        TokenV::TINTEGER
    } else if w == "Float"@ {
        TokenV::TFLOAT
    } else if w == "Boolean"@ {
        TokenV::TBOOLEAN
    } else if w == "String"@ {
        TokenV::TSTRING
    } else if w == "Char"@ {
        TokenV::TCHAR
    } else if w == "Void"@ {
        TokenV::TVOID
    } else {
        TokenV::IDENTIFIER(w)
    }
}

/// Turns a scanned word into its token.
fn word_token(w: Vec<char>) -> (t: Token)
    ensures
        t@ == classify_word(w@),
{
    if word_is(&w, "let") {
        Token::LET
    } else if word_is(&w, "true") {
        Token::TRUE
    } else if word_is(&w, "false") {
        Token::FALSE
    } else if word_is(&w, "if") {
        Token::IF
    } else if word_is(&w, "elif") {
        Token::ELIF
    } else if word_is(&w, "else") {
        Token::ELSE
    } else if word_is(&w, "for") {
        Token::FOR
    } else if word_is(&w, "while") {
        Token::WHILE
    } else if word_is(&w, "do") {
        Token::DO
    } else if word_is(&w, "break") {
        Token::BREAK
    } else if word_is(&w, "continue") {
        Token::CONTINUE
    } else if word_is(&w, "return") {
        Token::RETURN
    } else if word_is(&w, "fn") {
        Token::FUNCTION
    } else if word_is(&w, "match") {
        Token::MATCH
    } else if word_is(&w, "struct") {
        Token::STRUCT
    } else if word_is(&w, "enum") {
        Token::ENUM
    } else if word_is(&w, "Integer") {
        Token::TINTEGER
    } else if word_is(&w, "Float") {
        Token::TFLOAT
    } else if word_is(&w, "Boolean") {
        Token::TBOOLEAN
    } else if word_is(&w, "String") {
        Token::TSTRING
    } else if word_is(&w, "Char") {
        Token::TCHAR
    } else if word_is(&w, "Void") {
        Token::TVOID
    } else {
        Token::IDENTIFIER(w)
    }
}

// ---------------------------------------------------------------------
// One scan step
// ---------------------------------------------------------------------
/// What one scan step found: trivia, a token, or an unrecognized character.
pub enum Scanned {
    Ws,
    Tok(TokenV),
    Bad(char),
}

/// One step of the scan at position `i`: what was found and the position
/// the scan continues from. Two-character operators are matched before the
/// single-character ones they start with.
pub open spec fn scan_at(s: Seq<char>, i: int) -> (Scanned, int)
    recommends 0 <= i < s.len(),
{
    let c = s[i];
    if is_whitespace(c) {
        (Scanned::Ws, i + 1)
    } else if is_alpha(c) {
        let j = ident_end(s, i + 1);
        (Scanned::Tok(classify_word(s.subrange(i, j))), j)
    } else if is_digit(c) {
        let d = digits_end(s, i + 1);
        if d < s.len() && s[d] == '.' && d + 1 < s.len() && is_digit(s[d + 1]) {
            let e = digits_end(s, d + 1);
            (Scanned::Tok(TokenV::FLOAT(s.subrange(i, e))), e)
        } else {
            (Scanned::Tok(TokenV::INT(s.subrange(i, d))), d)
        }
    } else if c == '"' {
        match string_scan(s, i + 1, Seq::empty()) {
            Some(p) => (Scanned::Tok(TokenV::STRING(p.0)), p.1),
            None => (Scanned::Bad('"'), s.len() as int),
        }
    } else if c == '\'' {
        if i + 1 < s.len() && s[i + 1] == '\\' {
            if i + 3 < s.len() && s[i + 3] == '\'' {
                (Scanned::Tok(TokenV::CHAR(esc(s[i + 2]))), i + 4)
            } else {
                (Scanned::Bad('\''), i + 1)
            }
        } else if i + 2 < s.len() && s[i + 1] != '\'' && s[i + 2] == '\'' {
            (Scanned::Tok(TokenV::CHAR(s[i + 1])), i + 3)
        } else {
            (Scanned::Bad('\''), i + 1)
        }
    } else if c == '/' && i + 1 < s.len() && s[i + 1] == '/' {
        (Scanned::Ws, line_end(s, i + 2))
    } else if c == '=' && i + 1 < s.len() && s[i + 1] == '=' {
        (Scanned::Tok(TokenV::EQUALEQUAL), i + 2)
    } else if c == '!' && i + 1 < s.len() && s[i + 1] == '=' {
        (Scanned::Tok(TokenV::NOTEQUAL), i + 2)
    } else if c == '<' && i + 1 < s.len() && s[i + 1] == '=' {
        (Scanned::Tok(TokenV::LESSTHANEQUAL), i + 2)
    } else if c == '>' && i + 1 < s.len() && s[i + 1] == '=' {
        (Scanned::Tok(TokenV::GREATERTHANEQUAL), i + 2)
    } else if c == '&' && i + 1 < s.len() && s[i + 1] == '&' {
        (Scanned::Tok(TokenV::LOGICALAND), i + 2)
    } else if c == '|' && i + 1 < s.len() && s[i + 1] == '|' {
        (Scanned::Tok(TokenV::LOGICALOR), i + 2)
    } else if c == '<' && i + 1 < s.len() && s[i + 1] == '<' {
        (Scanned::Tok(TokenV::SHL), i + 2)
    } else if c == '>' && i + 1 < s.len() && s[i + 1] == '>' {
        (Scanned::Tok(TokenV::SHR), i + 2)
    } else if c == ':' && i + 1 < s.len() && s[i + 1] == ':' {
        (Scanned::Tok(TokenV::COLONCOLON), i + 2)
    } else if c == '+' {
        (Scanned::Tok(TokenV::PLUS), i + 1)
    } else if c == '-' {
        (Scanned::Tok(TokenV::MINUS), i + 1)
    } else if c == '*' {
        (Scanned::Tok(TokenV::MULTIPLY), i + 1)
    } else if c == '/' {
        (Scanned::Tok(TokenV::DIVIDE), i + 1)
    } else if c == '%' {
        (Scanned::Tok(TokenV::MOD), i + 1)
    } else if c == '^' {
        (Scanned::Tok(TokenV::EXPONENT), i + 1)
    } else if c == '=' {
        (Scanned::Tok(TokenV::EQUAL), i + 1)
    } else if c == '<' {
        (Scanned::Tok(TokenV::LESSTHAN), i + 1)
    } else if c == '>' {
        (Scanned::Tok(TokenV::GREATERTHAN), i + 1)
    } else if c == '!' {
        (Scanned::Tok(TokenV::LOGICALNOT), i + 1)
    } else if c == '&' {
        (Scanned::Tok(TokenV::BITAND), i + 1)
    } else if c == '|' {
        (Scanned::Tok(TokenV::BITOR), i + 1)
    } else if c == '~' {
        (Scanned::Tok(TokenV::BITNOT), i + 1)
    } else if c == ';' {
        (Scanned::Tok(TokenV::SEMICOLON), i + 1)
    } else if c == ',' {
        (Scanned::Tok(TokenV::COMMA), i + 1)
    } else if c == ':' {
        (Scanned::Tok(TokenV::COLON), i + 1)
    } else if c == '.' {
        (Scanned::Tok(TokenV::DOT), i + 1)
    } else if c == '(' {
        (Scanned::Tok(TokenV::LPAREN), i + 1)
    } else if c == ')' {
        (Scanned::Tok(TokenV::RPAREN), i + 1)
    } else if c == '{' {
        (Scanned::Tok(TokenV::LBRACKET), i + 1)
    } else if c == '}' {
        (Scanned::Tok(TokenV::RBRACKET), i + 1)
    } else if c == '[' {
        (Scanned::Tok(TokenV::LBRACE), i + 1)
    } else if c == ']' {
        (Scanned::Tok(TokenV::RBRACE), i + 1)
    } else {
        (Scanned::Bad(c), i + 1)
    }
}

/// Every scan step moves forward and stays inside the input.
pub proof fn lemma_scan_at_bounds(s: Seq<char>, i: int)
    requires
        0 <= i < s.len(),
    ensures
        i < scan_at(s, i).1 <= s.len(),
{
    lemma_ident_end(s, i + 1);
    lemma_digits_end(s, i + 1);
    let d = digits_end(s, i + 1);
    if i + 1 <= d && d + 1 <= s.len() {
        lemma_digits_end(s, d + 1);
    }
    lemma_string_scan(s, i + 1, Seq::empty());
    if i + 2 <= s.len() {
        lemma_line_end(s, i + 2);
    }
}

// ---------------------------------------------------------------------
// The whole scan
// ---------------------------------------------------------------------
/// The tokens and the errors the scan yields from position `i` to the end.
/// The token sequence always ends in `EOF`; each unrecognized character
/// contributes exactly one error, and the scan continues past it.
pub open spec fn lex_spec(s: Seq<char>, i: int) -> (Seq<TokenV>, Seq<ErrorV>)
    decreases s.len() - i when 0 <= i <= s.len() via lex_spec_decreases
{
    if i >= s.len() {
        (seq![TokenV::EOF], Seq::empty())
    } else {
        let (found, j) = scan_at(s, i);
        let rest = lex_spec(s, j);
        match found {
            Scanned::Ws => rest,
            Scanned::Tok(t) => (seq![t] + rest.0, rest.1),
            Scanned::Bad(c) => (rest.0, seq![ErrorV::UnrecognizedToken { token: seq![c] }] + rest.1),
        }
    }
}

#[via_fn]
proof fn lex_spec_decreases(s: Seq<char>, i: int) {
    if i < s.len() {
        lemma_scan_at_bounds(s, i);
    }
}

/// The scan's error list holds exactly one unrecognized-character error
/// per unrecognized character: every entry names a single character.
pub proof fn lemma_lex_errors_shape(s: Seq<char>, i: int)
    requires
        0 <= i <= s.len(),
    ensures
        forall|j: int|
            0 <= j < lex_spec(s, i).1.len() ==> (match #[trigger] lex_spec(s, i).1[j] {
                ErrorV::UnrecognizedToken { token } => token.len() == 1,
                _ => false,
            }),
    decreases s.len() - i,
{
    if i < s.len() {
        lemma_scan_at_bounds(s, i);
        let (found, j) = scan_at(s, i);
        lemma_lex_errors_shape(s, j);
    }
}

/// The scan's token sequence ends in `EOF`, whatever the input.
pub proof fn lemma_lex_ends_in_eof(s: Seq<char>, i: int)
    requires
        0 <= i <= s.len(),
    ensures
        lex_spec(s, i).0.len() >= 1,
        lex_spec(s, i).0.last() == TokenV::EOF,
    decreases s.len() - i,
{
    if i < s.len() {
        lemma_scan_at_bounds(s, i);
        let (found, j) = scan_at(s, i);
        lemma_lex_ends_in_eof(s, j);
    }
}

// ---------------------------------------------------------------------
// Executable scan
// ---------------------------------------------------------------------
enum ScanKind {
    Ws,
    Tok(Token),
    Bad(char),
}

spec fn scan_kind_view(k: ScanKind) -> Scanned {
    match k {
        ScanKind::Ws => Scanned::Ws,
        ScanKind::Tok(t) => Scanned::Tok(t@),
        ScanKind::Bad(c) => Scanned::Bad(c),
    }
}

fn ident_end_e(cs: &Vec<char>, i: usize) -> (r: usize)
    requires
        i <= cs@.len(),
    ensures
        r == ident_end(cs@, i as int),
        i <= r <= cs@.len(),
{
    let n = cs.len();
    let mut j = i;
    while j < n && is_ident_char_e(cs[j])
        invariant
            i <= j <= n,
            n == cs@.len(),
            ident_end(cs@, i as int) == ident_end(cs@, j as int),
        decreases n - j,
    {
        j = j + 1;
    }
    j
}

fn digits_end_e(cs: &Vec<char>, i: usize) -> (r: usize)
    requires
        i <= cs@.len(),
    ensures
        r == digits_end(cs@, i as int),
        i <= r <= cs@.len(),
{
    let n = cs.len();
    let mut j = i;
    while j < n && is_digit_e(cs[j])
        invariant
            i <= j <= n,
            n == cs@.len(),
            digits_end(cs@, i as int) == digits_end(cs@, j as int),
        decreases n - j,
    {
        j = j + 1;
    }
    j
}

fn line_end_e(cs: &Vec<char>, i: usize) -> (r: usize)
    requires
        i <= cs@.len(),
    ensures
        r == line_end(cs@, i as int),
        i <= r <= cs@.len(),
{
    let n = cs.len();
    let mut j = i;
    while j < n && cs[j] != '\n'
        invariant
            i <= j <= n,
            n == cs@.len(),
            line_end(cs@, i as int) == line_end(cs@, j as int),
        decreases n - j,
    {
        j = j + 1;
    }
    j
}

fn copy_range(cs: &Vec<char>, a: usize, b: usize) -> (v: Vec<char>)
    requires
        a <= b <= cs@.len(),
    ensures
        v@ == cs@.subrange(a as int, b as int),
{
    let mut v: Vec<char> = Vec::new();
    let mut i = a;
    while i < b
        invariant
            a <= i <= b <= cs@.len(),
            v@ == cs@.subrange(a as int, i as int),
        decreases b - i,
    {
        v.push(cs[i]);
        proof {
            assert(cs@.subrange(a as int, i + 1 as int) =~= cs@.subrange(a as int, i as int).push(
                cs@[i as int],
            ));
        }
        i = i + 1;
    }
    v
}

fn scan_string_e(cs: &Vec<char>, i: usize) -> (r: Option<(Vec<char>, usize)>)
    requires
        i <= cs@.len(),
    ensures
        match r {
            Some(p) => string_scan(cs@, i as int, Seq::empty()) == Some((p.0@, p.1 as int)) && i
                < p.1 <= cs@.len(),
            None => string_scan(cs@, i as int, Seq::empty()) is None,
        },
{
    let n = cs.len();
    let mut acc: Vec<char> = Vec::new();
    let mut j = i;
    loop
        invariant
            i <= j <= n,
            n == cs@.len(),
            string_scan(cs@, i as int, Seq::empty()) == string_scan(cs@, j as int, acc@),
        decreases n - j,
    {
        if j >= n {
            return None;
        }
        let c = cs[j];
        if c == '"' {
            proof {
                lemma_string_scan(cs@, i as int, Seq::empty());
            }
            return Some((acc, j + 1));
        } else if c == '\\' {
            if j + 1 >= n {
                return None;
            }
            acc.push(esc_e(cs[j + 1]));
            j = j + 2;
        } else {
            acc.push(c);
            j = j + 1;
        }
    }
}

/// One executable scan step, mirroring `scan_at`.
fn scan_token(cs: &Vec<char>, i: usize) -> (r: (ScanKind, usize))
    requires
        i < cs@.len(),
    ensures
        scan_at(cs@, i as int) == (scan_kind_view(r.0), r.1 as int),
        i < r.1 <= cs@.len(),
{
    proof {
        lemma_scan_at_bounds(cs@, i as int);
    }
    let n = cs.len();
    let c = cs[i];
    if is_whitespace_e(c) {
        (ScanKind::Ws, i + 1)
    } else if is_alpha_e(c) {
        let j = ident_end_e(cs, i + 1);
        let w = copy_range(cs, i, j);
        (ScanKind::Tok(word_token(w)), j)
    } else if is_digit_e(c) {
        let d = digits_end_e(cs, i + 1);
        if d < n && cs[d] == '.' && d + 1 < n && is_digit_e(cs[d + 1]) {
            let e = digits_end_e(cs, d + 1);
            (ScanKind::Tok(Token::FLOAT(copy_range(cs, i, e))), e)
        } else {
            (ScanKind::Tok(Token::INT(copy_range(cs, i, d))), d)
        }
    } else if c == '"' {
        match scan_string_e(cs, i + 1) {
            Some(p) => (ScanKind::Tok(Token::STRING(p.0)), p.1),
            None => (ScanKind::Bad('"'), n),
        }
    } else if c == '\'' {
        if i + 1 < n && cs[i + 1] == '\\' {
            if n - i > 3 && cs[i + 3] == '\'' {
                (ScanKind::Tok(Token::CHAR(esc_e(cs[i + 2]))), i + 4)
            } else {
                (ScanKind::Bad('\''), i + 1)
            }
        } else if n - i > 2 && cs[i + 1] != '\'' && cs[i + 2] == '\'' {
            (ScanKind::Tok(Token::CHAR(cs[i + 1])), i + 3)
        } else {
            (ScanKind::Bad('\''), i + 1)
        }
    } else if c == '/' && i + 1 < n && cs[i + 1] == '/' {
        (ScanKind::Ws, line_end_e(cs, i + 2))
    } else if c == '=' && i + 1 < n && cs[i + 1] == '=' {
        (ScanKind::Tok(Token::EQUALEQUAL), i + 2)
    } else if c == '!' && i + 1 < n && cs[i + 1] == '=' {
        (ScanKind::Tok(Token::NOTEQUAL), i + 2)
    } else if c == '<' && i + 1 < n && cs[i + 1] == '=' {
        (ScanKind::Tok(Token::LESSTHANEQUAL), i + 2)
    } else if c == '>' && i + 1 < n && cs[i + 1] == '=' {
        (ScanKind::Tok(Token::GREATERTHANEQUAL), i + 2)
    } else if c == '&' && i + 1 < n && cs[i + 1] == '&' {
        (ScanKind::Tok(Token::LOGICALAND), i + 2)
    } else if c == '|' && i + 1 < n && cs[i + 1] == '|' {
        (ScanKind::Tok(Token::LOGICALOR), i + 2)
    } else if c == '<' && i + 1 < n && cs[i + 1] == '<' {
        (ScanKind::Tok(Token::SHL), i + 2)
    } else if c == '>' && i + 1 < n && cs[i + 1] == '>' {
        (ScanKind::Tok(Token::SHR), i + 2)
    } else if c == ':' && i + 1 < n && cs[i + 1] == ':' {
        (ScanKind::Tok(Token::COLONCOLON), i + 2)
    } else if c == '+' {
        (ScanKind::Tok(Token::PLUS), i + 1)
    } else if c == '-' {
        (ScanKind::Tok(Token::MINUS), i + 1)
    } else if c == '*' {
        (ScanKind::Tok(Token::MULTIPLY), i + 1)
    } else if c == '/' {
        (ScanKind::Tok(Token::DIVIDE), i + 1)
    } else if c == '%' {
        (ScanKind::Tok(Token::MOD), i + 1)
    } else if c == '^' {
        (ScanKind::Tok(Token::EXPONENT), i + 1)
    } else if c == '=' {
        (ScanKind::Tok(Token::EQUAL), i + 1)
    } else if c == '<' {
        (ScanKind::Tok(Token::LESSTHAN), i + 1)
    } else if c == '>' {
        (ScanKind::Tok(Token::GREATERTHAN), i + 1)
    } else if c == '!' {
        (ScanKind::Tok(Token::LOGICALNOT), i + 1)
    } else if c == '&' {
        (ScanKind::Tok(Token::BITAND), i + 1)
    } else if c == '|' {
        (ScanKind::Tok(Token::BITOR), i + 1)
    } else if c == '~' {
        (ScanKind::Tok(Token::BITNOT), i + 1)
    } else if c == ';' {
        (ScanKind::Tok(Token::SEMICOLON), i + 1)
    } else if c == ',' {
        (ScanKind::Tok(Token::COMMA), i + 1)
    } else if c == ':' {
        (ScanKind::Tok(Token::COLON), i + 1)
    } else if c == '.' {
        (ScanKind::Tok(Token::DOT), i + 1)
    } else if c == '(' {
        (ScanKind::Tok(Token::LPAREN), i + 1)
    } else if c == ')' {
        (ScanKind::Tok(Token::RPAREN), i + 1)
    } else if c == '{' {
        (ScanKind::Tok(Token::LBRACKET), i + 1)
    } else if c == '}' {
        (ScanKind::Tok(Token::RBRACKET), i + 1)
    } else if c == '[' {
        (ScanKind::Tok(Token::LBRACE), i + 1)
    } else if c == ']' {
        (ScanKind::Tok(Token::RBRACE), i + 1)
    } else {
        (ScanKind::Bad(c), i + 1)
    }
}

// ---------------------------------------------------------------------
// The lexer
// ---------------------------------------------------------------------
/// The lexer. It has no state of its own; `lex` is the whole interface.
pub struct Lexer {}

impl Lexer {
    /// Scans the whole input. Returns the token sequence, ending in `EOF`,
    /// when every character was recognized; otherwise the full list of
    /// unrecognized-character errors, in source order.
    pub fn lex(input: &str) -> (r: Result<Vec<Token>, Vec<ErrorType>>)
        ensures
            ({
                let spec = lex_spec(input@, 0);
                match r {
                    Ok(ts) => spec.1.len() == 0 && tokens_view(ts@) == spec.0,
                    Err(es) => spec.1.len() > 0 && errors_view(es@) == spec.1,
                }
            }),
    {
        let cs = chars_of(input);
        let n = cs.len();
        let mut toks: Vec<Token> = Vec::new();
        let mut errs: Vec<ErrorType> = Vec::new();
        let mut i: usize = 0;
        proof {
            assert(tokens_view(toks@) =~= Seq::<TokenV>::empty());
            assert(errors_view(errs@) =~= Seq::<ErrorV>::empty());
            assert(lex_spec(cs@, 0).0 =~= tokens_view(toks@) + lex_spec(cs@, 0 as int).0);
            assert(lex_spec(cs@, 0).1 =~= errors_view(errs@) + lex_spec(cs@, 0 as int).1);
        }
        while i < n
            invariant
                i <= n,
                n == cs@.len(),
                cs@ == input@,
                lex_spec(cs@, 0).0 == tokens_view(toks@) + lex_spec(cs@, i as int).0,
                lex_spec(cs@, 0).1 == errors_view(errs@) + lex_spec(cs@, i as int).1,
            decreases n - i,
        {
            let (kind, j) = scan_token(&cs, i);
            proof {
                lemma_scan_at_bounds(cs@, i as int);
            }
            match kind {
                ScanKind::Ws => {},
                ScanKind::Tok(t) => {
                    let ghost before = toks@;
                    toks.push(t);
                    proof {
                        assert(tokens_view(toks@) =~= tokens_view(before).push(t@));
                        assert(tokens_view(before) + lex_spec(cs@, i as int).0 =~= tokens_view(
                            toks@,
                        ) + lex_spec(cs@, j as int).0);
                    }
                },
                ScanKind::Bad(c) => {
                    let ghost before = errs@;
                    let e = ErrorType::UnrecognizedToken { token: char_to_string(c) };
                    errs.push(e);
                    proof {
                        assert(e@ == (ErrorV::UnrecognizedToken { token: seq![c] }));
                        assert(errors_view(errs@) =~= errors_view(before).push(e@));
                        assert(errors_view(before) + lex_spec(cs@, i as int).1 =~= errors_view(
                            errs@,
                        ) + lex_spec(cs@, j as int).1);
                    }
                },
            }
            i = j;
        }
        let ghost before = toks@;
        toks.push(Token::EOF);
        proof {
            assert(tokens_view(toks@) =~= tokens_view(before).push(TokenV::EOF));
            assert(lex_spec(cs@, n as int).0 =~= seq![TokenV::EOF]);
            assert(lex_spec(cs@, n as int).1 =~= Seq::<ErrorV>::empty());
            assert(tokens_view(toks@) =~= lex_spec(cs@, 0).0);
            assert(errors_view(errs@) =~= lex_spec(cs@, 0).1);
        }
        if errs.len() == 0 {
            Ok(toks)
        } else {
            Err(errs)
        }
    }
}

} // verus!
