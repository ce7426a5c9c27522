//! The lexical grammar: which token starts at a place in the source, where it
//! ends and on which line. These are the definitions that the scanner is
//! proved against.

use crate::compiler::token::{TokenKind, TokenView};
use crate::compiler::ScanError;
use crate::value::Value;
use vstd::prelude::*;

verus! {

/// What `char::is_alphabetic` answers for a character.
pub uninterp spec fn alphabetic(c: char) -> bool;

/// What `char::is_numeric` answers for a character.
pub uninterp spec fn numeric(c: char) -> bool;

/// Whether a character is alphabetic.
///
/// Trusted: `char::is_alphabetic` is a fixed table of Unicode, so its answer
/// depends on the character alone.
#[verifier::external_body]
pub(crate) fn is_alphabetic(c: char) -> (answer: bool)
    ensures
        answer == alphabetic(c),
{
    c.is_alphabetic()
}

/// Whether a character is numeric.
///
/// Trusted: `char::is_numeric` is a fixed table of Unicode, so its answer
/// depends on the character alone.
#[verifier::external_body]
pub(crate) fn is_numeric(c: char) -> (answer: bool)
    ensures
        answer == numeric(c),
{
    c.is_numeric()
}

/// The digits `0` to `9`.
pub open spec fn ascii_digit(c: char) -> bool {
    '0' <= c <= '9'
}

/// Space, tab and carriage return: skipped between tokens, as a newline is.
pub open spec fn blank(c: char) -> bool {
    c == ' ' || c == '\t' || c == '\r'
}

/// A character that may begin an identifier.
pub open spec fn starts_word(c: char) -> bool {
    alphabetic(c) || c == '_'
}

/// A character that may continue an identifier.
pub open spec fn continues_word(c: char) -> bool {
    alphabetic(c) || numeric(c) || c == '_'
}

/// Whether the source holds the character `c` at `pos`.
pub open spec fn stands_at(s: Seq<char>, pos: int, c: char) -> bool {
    0 <= pos < s.len() && s[pos] == c
}

/// The number of newlines in `s` from `from` up to, not including, `to`.
pub open spec fn newlines(s: Seq<char>, from: int, to: int) -> int
    decreases to - from,
{
    if from >= to {
        0
    } else {
        newlines(s, from, to - 1) + if stands_at(s, to - 1, '\n') {
            1int
        } else {
            0int
        }
    }
}

/// The line on which the place `pos` lies: lines count from 1, and every
/// newline before `pos` starts another, wherever it stands.
pub open spec fn line_at(s: Seq<char>, pos: int) -> int {
    1 + newlines(s, 0, pos)
}

/// A source whose last line has a number that fits the line counter.
pub open spec fn lines_fit(s: Seq<char>) -> bool {
    line_at(s, s.len() as int) <= u32::MAX
}

/// Where the longest run of characters that satisfy `keep` ends, for the run
/// that starts at `pos`.
pub open spec fn run_end(s: Seq<char>, pos: int, keep: spec_fn(char) -> bool) -> int
    decreases s.len() - pos,
{
    if 0 <= pos < s.len() && keep(s[pos]) {
        run_end(s, pos + 1, keep)
    } else {
        pos
    }
}

/// Where a block comment ends that is read from `pos` on with `depth`
/// comments open: behind the `*/` that closes the last of them. Each `/*` on
/// the way opens one more. `None` when the source ends first.
pub open spec fn block_end(s: Seq<char>, pos: int, depth: nat) -> Option<int>
    decreases s.len() - pos,
{
    if depth == 0 {
        Some(pos)
    } else if pos < 0 || pos >= s.len() {
        None
    } else if s[pos] == '/' && stands_at(s, pos + 1, '*') {
        block_end(s, pos + 2, depth + 1)
    } else if s[pos] == '*' && stands_at(s, pos + 1, '/') {
        block_end(s, pos + 2, (depth - 1) as nat)
    } else {
        block_end(s, pos + 1, depth)
    }
}

/// Where the line ends that `pos` lies on: at its newline, or at the end of
/// the source.
pub open spec fn line_end(s: Seq<char>, pos: int) -> int {
    run_end(s, pos, |c: char| c != '\n')
}

/// Where the next token starts, seen from `pos`: behind all blanks, newlines,
/// line comments (`//` to the end of the line) and block comments (`/*` to the
/// matching `*/`, nested to any depth). At the end of the source that place is
/// its length. `None` when a block comment is left open.
pub open spec fn token_start(s: Seq<char>, pos: int) -> Option<int>
    decreases s.len() - pos,
    via token_start_decreases
{
    if pos < 0 || pos >= s.len() {
        Some(pos)
    } else if blank(s[pos]) || s[pos] == '\n' {
        token_start(s, pos + 1)
    } else if s[pos] == '/' && stands_at(s, pos + 1, '/') {
        token_start(s, line_end(s, pos + 2))
    } else if s[pos] == '/' && stands_at(s, pos + 1, '*') {
        match block_end(s, pos + 2, 1) {
            Some(end) => token_start(s, end),
            None => None,
        }
    } else {
        Some(pos)
    }
}

#[via_fn]
proof fn token_start_decreases(s: Seq<char>, pos: int) {
    if 0 <= pos < s.len() {
        if s[pos] == '/' && stands_at(s, pos + 1, '/') {
            run_end_bounds(s, pos + 2, |c: char| c != '\n');
        }
        if s[pos] == '/' && stands_at(s, pos + 1, '*') {
            block_end_bounds(s, pos + 2, 1);
        }
    }
}

/// The keywords, each with its kind.
pub open spec fn keyword_table() -> Seq<(Seq<char>, TokenKind)> {
    seq![
        ("and"@, TokenKind::And),
        ("class"@, TokenKind::Class),
        ("else"@, TokenKind::Else),
        ("false"@, TokenKind::False),
        ("for"@, TokenKind::For),
        ("fn"@, TokenKind::Function),
        ("if"@, TokenKind::If),
        ("nil"@, TokenKind::Nil),
        ("or"@, TokenKind::Or),
        ("print"@, TokenKind::Print),
        ("return"@, TokenKind::Return),
        ("super"@, TokenKind::Super),
        ("self"@, TokenKind::This),
        ("true"@, TokenKind::True),
        ("let"@, TokenKind::Let),
        ("mut"@, TokenKind::Mutable),
        ("while"@, TokenKind::While),
    ]
}

/// The kind that a table gives to a word, looking from the entry `from` on.
pub open spec fn lookup(table: Seq<(Seq<char>, TokenKind)>, word: Seq<char>, from: int) -> Option<
    TokenKind,
>
    decreases table.len() - from,
{
    if from < 0 || from >= table.len() {
        None
    } else if table[from].0 == word {
        Some(table[from].1)
    } else {
        lookup(table, word, from + 1)
    }
}

/// The kind of a word: that of the keyword it is, or else an identifier.
pub open spec fn word_kind(word: Seq<char>) -> TokenKind {
    match lookup(keyword_table(), word, 0) {
        Some(kind) => kind,
        None => TokenKind::Literal(word),
    }
}

/// Where the number ends whose first character stands at `pos`: behind the
/// digits that follow it and, if a `.` comes next, behind the `.` and the
/// digits after it.
pub open spec fn number_end(s: Seq<char>, pos: int) -> int {
    let whole = run_end(s, pos + 1, |c: char| ascii_digit(c));
    if stands_at(s, whole, '.') {
        run_end(s, whole + 1, |c: char| ascii_digit(c))
    } else {
        whole
    }
}

/// What one call of the scanner finds: a token or an error, and the place
/// where the scanner then stands.
pub struct Scan {
    pub result: Result<TokenView, ScanError>,
    pub end: int,
}

/// A token of the given kind that ends at `end`.
pub open spec fn found(s: Seq<char>, kind: TokenKind, end: int) -> Scan {
    Scan { result: Ok(TokenView { kind, line: line_at(s, end) }), end }
}

/// The token that starts with the character at `pos`: `long` if `=` follows
/// at once, which then belongs to it, else `short`.
pub open spec fn one_or_two(s: Seq<char>, pos: int, long: TokenKind, short: TokenKind) -> Scan {
    if stands_at(s, pos + 1, '=') {
        found(s, long, pos + 2)
    } else {
        found(s, short, pos + 1)
    }
}

/// The token that starts at `pos`, a place inside the source where no blank,
/// newline or comment starts. `decode` gives the value of a number's text.
pub open spec fn token_at(s: Seq<char>, pos: int, decode: spec_fn(Seq<char>) -> Value) -> Scan {
    let c = s[pos];
    if c == '(' {
        found(s, TokenKind::LeftParen, pos + 1)
    } else if c == ')' {
        found(s, TokenKind::RightParen, pos + 1)
    } else if c == '{' {
        found(s, TokenKind::LeftBrace, pos + 1)
    } else if c == '}' {
        found(s, TokenKind::RightBrace, pos + 1)
    } else if c == ',' {
        found(s, TokenKind::Comma, pos + 1)
    } else if c == '.' {
        found(s, TokenKind::Dot, pos + 1)
    } else if c == '-' {
        found(s, TokenKind::Minus, pos + 1)
    } else if c == '+' {
        found(s, TokenKind::Plus, pos + 1)
    } else if c == ';' {
        found(s, TokenKind::Semicolon, pos + 1)
    } else if c == '*' {
        found(s, TokenKind::Star, pos + 1)
    } else if c == '!' {
        one_or_two(s, pos, TokenKind::BangEqual, TokenKind::Bang)
    } else if c == '=' {
        one_or_two(s, pos, TokenKind::EqualEqual, TokenKind::Equal)
    } else if c == '<' {
        one_or_two(s, pos, TokenKind::LessEqual, TokenKind::Less)
    } else if c == '>' {
        one_or_two(s, pos, TokenKind::GreaterEqual, TokenKind::Greater)
    } else if c == '/' {
        found(s, TokenKind::Slash, pos + 1)
    } else if c == '"' {
        let close = run_end(s, pos + 1, |c: char| c != '"');
        if close >= s.len() {
            Scan {
                result: Err(ScanError::UnterminatedString(line_at(s, s.len() as int) as u32)),
                end: s.len() as int,
            }
        } else {
            found(s, TokenKind::String(s.subrange(pos + 1, close)), close + 1)
        }
    } else if numeric(c) {
        let end = number_end(s, pos);
        found(s, TokenKind::Number(decode(s.subrange(pos, end))), end)
    } else if starts_word(c) {
        let end = run_end(s, pos + 1, |c: char| continues_word(c));
        found(s, word_kind(s.subrange(pos, end)), end)
    } else {
        Scan { result: Err(ScanError::InvalidToken(c)), end: pos + 1 }
    }
}

/// What the scanner finds when it stands at `pos`: the next token behind
/// blanks and comments, the end-of-input token if none is left, or the error
/// that stops it.
pub open spec fn scan(s: Seq<char>, pos: int, decode: spec_fn(Seq<char>) -> Value) -> Scan {
    match token_start(s, pos) {
        None => Scan {
            result: Err(ScanError::UnterminatedComment(line_at(s, s.len() as int) as u32)),
            end: s.len() as int,
        },
        Some(start) => if 0 <= start < s.len() {
            token_at(s, start, decode)
        } else {
            found(s, TokenKind::Eof, start)
        },
    }
}

/// All tokens from `pos` to the end of the source, without the end-of-input
/// token, or the first error.
pub open spec fn scan_all(s: Seq<char>, pos: int, decode: spec_fn(Seq<char>) -> Value) -> Result<
    Seq<TokenView>,
    ScanError,
>
    decreases s.len() - pos,
    via scan_all_decreases
{
    let first = scan(s, pos, decode);
    match first.result {
        Err(error) => Err(error),
        Ok(token) => if token.kind is Eof {
            Ok(Seq::empty())
        } else {
            match scan_all(s, first.end, decode) {
                Ok(rest) => Ok(seq![token] + rest),
                Err(error) => Err(error),
            }
        },
    }
}

#[via_fn]
proof fn scan_all_decreases(s: Seq<char>, pos: int, decode: spec_fn(Seq<char>) -> Value) {
    if 0 <= pos {
        scan_bounds(s, pos, decode);
    }
}

/// A result with more tokens in front of those it holds.
pub open spec fn after(tokens: Seq<TokenView>, rest: Result<Seq<TokenView>, ScanError>) -> Result<
    Seq<TokenView>,
    ScanError,
> {
    match rest {
        Ok(more) => Ok(tokens + more),
        Err(error) => Err(error),
    }
}

/// The tokens of a whole source.
pub open spec fn tokens_of(s: Seq<char>, decode: spec_fn(Seq<char>) -> Value) -> Result<
    Seq<TokenView>,
    ScanError,
> {
    scan_all(s, 0, decode)
}

/// A run ends inside the source, at or behind its start.
pub proof fn run_end_bounds(s: Seq<char>, pos: int, keep: spec_fn(char) -> bool)
    requires
        0 <= pos <= s.len(),
    ensures
        pos <= run_end(s, pos, keep) <= s.len(),
        forall|i: int| pos <= i < run_end(s, pos, keep) ==> keep(#[trigger] s[i]),
        run_end(s, pos, keep) < s.len() ==> !keep(s[run_end(s, pos, keep)]),
    decreases s.len() - pos,
{
    if pos < s.len() && keep(s[pos]) {
        run_end_bounds(s, pos + 1, keep);
    }
}

/// A place is the end of the run from `pos` if all characters up to it are
/// kept and the one at it, if any, is not.
pub proof fn run_end_is(s: Seq<char>, pos: int, end: int, keep: spec_fn(char) -> bool)
    requires
        0 <= pos <= end <= s.len(),
        forall|i: int| pos <= i < end ==> keep(#[trigger] s[i]),
        end < s.len() ==> !keep(s[end]),
    ensures
        run_end(s, pos, keep) == end,
    decreases end - pos,
{
    if pos < end {
        run_end_is(s, pos + 1, end, keep);
    }
}

/// A block comment ends inside the source, at or behind the place it is read
/// from.
pub proof fn block_end_bounds(s: Seq<char>, pos: int, depth: nat)
    requires
        0 <= pos,
    ensures
        block_end(s, pos, depth) matches Some(end) ==> pos <= end <= s.len() || (depth == 0 && end
            == pos),
    decreases s.len() - pos,
{
    if depth == 0 || pos >= s.len() {
    } else if s[pos] == '/' && stands_at(s, pos + 1, '*') {
        block_end_bounds(s, pos + 2, depth + 1);
    } else if s[pos] == '*' && stands_at(s, pos + 1, '/') {
        block_end_bounds(s, pos + 2, (depth - 1) as nat);
    } else {
        block_end_bounds(s, pos + 1, depth);
    }
}

/// A stretch has no fewer than zero newlines.
pub proof fn newlines_counts(s: Seq<char>, from: int, to: int)
    ensures
        newlines(s, from, to) >= 0,
    decreases to - from,
{
    if from < to {
        newlines_counts(s, from, to - 1);
    }
}

/// The newlines of a stretch are those of its two parts.
pub proof fn newlines_split(s: Seq<char>, from: int, mid: int, to: int)
    requires
        from <= mid <= to,
    ensures
        newlines(s, from, to) == newlines(s, from, mid) + newlines(s, mid, to),
    decreases to - mid,
{
    if mid < to {
        newlines_split(s, from, mid, to - 1);
    }
}

/// Lines only grow along the source.
pub proof fn line_at_grows(s: Seq<char>, from: int, to: int)
    requires
        0 <= from <= to,
    ensures
        line_at(s, from) <= line_at(s, to),
        line_at(s, from) >= 1,
{
    newlines_split(s, 0, from, to);
    newlines_counts(s, from, to);
    newlines_counts(s, 0, from);
}

/// The next token starts inside the source or at its end, at or behind the
/// place it is looked for from, and no blank, newline or comment starts
/// there.
pub proof fn token_start_bounds(s: Seq<char>, pos: int)
    requires
        0 <= pos <= s.len(),
    ensures
        token_start(s, pos) matches Some(start) ==> {
            &&& pos <= start <= s.len()
            &&& token_start(s, start) == Some(start)
            &&& start < s.len() ==> !blank(s[start]) && s[start] != '\n' && !(s[start] == '/' && (
            stands_at(s, start + 1, '/') || stands_at(s, start + 1, '*')))
        },
    decreases s.len() - pos,
{
    if pos >= s.len() {
    } else if blank(s[pos]) || s[pos] == '\n' {
        token_start_bounds(s, pos + 1);
    } else if s[pos] == '/' && stands_at(s, pos + 1, '/') {
        run_end_bounds(s, pos + 2, |c: char| c != '\n');
        token_start_bounds(s, line_end(s, pos + 2));
    } else if s[pos] == '/' && stands_at(s, pos + 1, '*') {
        block_end_bounds(s, pos + 2, 1);
        match block_end(s, pos + 2, 1) {
            Some(end) => {
                token_start_bounds(s, end);
            },
            None => {},
        }
    }
}

/// The token at a place ends behind that place and inside the source.
pub proof fn token_at_bounds(s: Seq<char>, pos: int, decode: spec_fn(Seq<char>) -> Value)
    requires
        0 <= pos < s.len(),
    ensures
        pos < token_at(s, pos, decode).end <= s.len(),
{
    run_end_bounds(s, pos + 1, |c: char| c != '"');
    run_end_bounds(s, pos + 1, |c: char| ascii_digit(c));
    let whole = run_end(s, pos + 1, |c: char| ascii_digit(c));
    if stands_at(s, whole, '.') {
        run_end_bounds(s, whole + 1, |c: char| ascii_digit(c));
    }
    run_end_bounds(s, pos + 1, |c: char| continues_word(c));
}

/// A scan ends inside the source, and behind its start unless it finds the
/// end of the input.
pub proof fn scan_bounds(s: Seq<char>, pos: int, decode: spec_fn(Seq<char>) -> Value)
    requires
        0 <= pos,
    ensures
        pos <= scan(s, pos, decode).end || scan(s, pos, decode).end == s.len(),
        pos <= s.len() ==> scan(s, pos, decode).end <= s.len(),
        scan(s, pos, decode).result matches Ok(token) && !(token.kind is Eof) ==> pos < scan(
            s,
            pos,
            decode,
        ).end <= s.len(),
{
    if pos <= s.len() {
        token_start_bounds(s, pos);
        match token_start(s, pos) {
            Some(start) => {
                if start < s.len() {
                    token_at_bounds(s, start, decode);
                }
            },
            None => {},
        }
    }
}

/// Every open comment needs a close of its own. Reading on with `inner +
/// outer` comments open is reading until `inner` of them are closed and from
/// there until the other `outer` are: a `/*` inside a comment opens one more,
/// which has to be closed before the comment around it can be. If the source
/// ends before that, the comment around it is left open too.
pub proof fn nested_comments_close_one_by_one(s: Seq<char>, pos: int, inner: nat, outer: nat)
    requires
        0 <= pos,
    ensures
        block_end(s, pos, inner + outer) == match block_end(s, pos, inner) {
            Some(mid) => block_end(s, mid, outer),
            None => None,
        },
        stands_at(s, pos, '/') && stands_at(s, pos + 1, '*') && outer >= 1 ==> block_end(
            s,
            pos,
            outer,
        ) == match block_end(s, pos + 2, 1) {
            Some(mid) => block_end(s, mid, outer),
            None => None,
        },
    decreases s.len() - pos,
{
    if inner == 0 || pos >= s.len() {
    } else if s[pos] == '/' && stands_at(s, pos + 1, '*') {
        nested_comments_close_one_by_one(s, pos + 2, inner + 1, outer);
    } else if s[pos] == '*' && stands_at(s, pos + 1, '/') {
        nested_comments_close_one_by_one(s, pos + 2, (inner - 1) as nat, outer);
    } else {
        nested_comments_close_one_by_one(s, pos + 1, inner, outer);
    }
    if stands_at(s, pos, '/') && stands_at(s, pos + 1, '*') && outer >= 1 {
        nested_comments_close_one_by_one(s, pos + 2, 1, outer);
    }
}

/// A comment that is still open where the source ends stops the scanner: the
/// error is `UnterminatedComment` with the line of the end of the source, and
/// no token is handed out from there on.
pub proof fn open_comment_stops_the_scanner(
    s: Seq<char>,
    pos: int,
    decode: spec_fn(Seq<char>) -> Value,
)
    requires
        0 <= pos < s.len(),
        stands_at(s, pos, '/'),
        stands_at(s, pos + 1, '*'),
        block_end(s, pos + 2, 1) is None,
    ensures
        scan(s, pos, decode) == (Scan {
            result: Err(ScanError::UnterminatedComment(line_at(s, s.len() as int) as u32)),
            end: s.len() as int,
        }),
        scan_all(s, pos, decode) == Err::<Seq<TokenView>, ScanError>(
            ScanError::UnterminatedComment(line_at(s, s.len() as int) as u32),
        ),
{
}

/// The end-of-input token is not among the tokens of a source.
pub proof fn scan_all_leaves_the_end_out(s: Seq<char>, pos: int, decode: spec_fn(Seq<char>) -> Value)
    requires
        0 <= pos,
    ensures
        scan_all(s, pos, decode) matches Ok(tokens) ==> forall|i: int|
            0 <= i < tokens.len() ==> !(#[trigger] tokens[i].kind is Eof),
    decreases s.len() - pos,
{
    let first = scan(s, pos, decode);
    scan_bounds(s, pos, decode);
    match first.result {
        Ok(token) => {
            if !(token.kind is Eof) {
                scan_all_leaves_the_end_out(s, first.end, decode);
            }
        },
        Err(_) => {},
    }
}

} // verus!
