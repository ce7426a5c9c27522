//! Blanks and comments are transparent: what stands between tokens changes
//! neither the tokens nor the code compiled from them, only their lines.

use crate::chunk::ChunkView;
use crate::compiler::grammar::{lines_do_not_matter};
use crate::compiler::lexical::{
    ascii_digit, block_end, block_end_bounds, continues_word, line_at, line_at_grows, line_end,
    lines_fit, newlines, newlines_counts, newlines_split, number_end, numeric, run_end, run_end_bounds, scan,
    scan_all, scan_bounds, stands_at, starts_word, token_at, token_at_bounds, token_start, token_start_bounds,
    tokens_of, Scan,
};
use crate::compiler::token::{kinds, TokenView};
use crate::compiler::{compile_spec, ScanError};
use crate::value::Value;
use vstd::prelude::*;

verus! {

/// A place, moved back by the length of a text put in front.
pub open spec fn moved_place(place: Option<int>, by: int) -> Option<int> {
    match place {
        Some(place) => Some(place + by),
        None => None,
    }
}

/// A token, moved down by a number of lines.
pub open spec fn moved_token(token: TokenView, lines: int) -> TokenView {
    TokenView { kind: token.kind, line: token.line + lines }
}

/// An error, moved down by a number of lines.
pub open spec fn moved_error(error: ScanError, lines: int) -> ScanError {
    match error {
        ScanError::InvalidToken(c) => ScanError::InvalidToken(c),
        ScanError::UnterminatedComment(line) => ScanError::UnterminatedComment(
            (line + lines) as u32,
        ),
        ScanError::UnterminatedString(line) => ScanError::UnterminatedString((line + lines) as u32),
    }
}

/// What a scan finds, moved back by the length of a text put in front and
/// down by the number of its newlines.
pub open spec fn moved_scan(found: Scan, by: int, lines: int) -> Scan {
    Scan {
        result: match found.result {
            Ok(token) => Ok(moved_token(token, lines)),
            Err(error) => Err(moved_error(error, lines)),
        },
        end: found.end + by,
    }
}

/// Tokens or an error, moved down by a number of lines.
pub open spec fn moved_tokens(found: Result<Seq<TokenView>, ScanError>, lines: int) -> Result<
    Seq<TokenView>,
    ScanError,
> {
    match found {
        Ok(tokens) => Ok(tokens.map_values(|token: TokenView| moved_token(token, lines))),
        Err(error) => Err(moved_error(error, lines)),
    }
}

/// A run behind a text put in front ends where it ended, moved back.
pub proof fn run_end_behind(front: Seq<char>, rest: Seq<char>, pos: int, keep: spec_fn(char) -> bool)
    requires
        0 <= pos <= rest.len(),
    ensures
        run_end(front + rest, front.len() + pos, keep) == front.len() + run_end(rest, pos, keep),
    decreases rest.len() - pos,
{
    if pos < rest.len() {
        assert((front + rest)[front.len() + pos] == rest[pos]);
        if keep(rest[pos]) {
            run_end_behind(front, rest, pos + 1, keep);
        }
    }
}

/// The characters behind a text put in front are those of the rest.
proof fn stands_behind(front: Seq<char>, rest: Seq<char>, pos: int, c: char)
    requires
        0 <= pos,
    ensures
        stands_at(front + rest, front.len() + pos, c) == stands_at(rest, pos, c),
{
    if pos < rest.len() {
        assert((front + rest)[front.len() + pos] == rest[pos]);
    }
}

/// A block comment behind a text put in front ends where it ended, moved back.
pub proof fn block_end_behind(front: Seq<char>, rest: Seq<char>, pos: int, depth: nat)
    requires
        0 <= pos,
    ensures
        block_end(front + rest, front.len() + pos, depth) == moved_place(
            block_end(rest, pos, depth),
            front.len() as int,
        ),
    decreases rest.len() - pos,
{
    if depth > 0 && pos < rest.len() {
        assert((front + rest)[front.len() + pos] == rest[pos]);
        stands_behind(front, rest, pos + 1, '*');
        stands_behind(front, rest, pos + 1, '/');
        if rest[pos] == '/' && stands_at(rest, pos + 1, '*') {
            block_end_behind(front, rest, pos + 2, depth + 1);
        } else if rest[pos] == '*' && stands_at(rest, pos + 1, '/') {
            block_end_behind(front, rest, pos + 2, (depth - 1) as nat);
        } else {
            block_end_behind(front, rest, pos + 1, depth);
        }
    }
}

/// The next token behind a text put in front starts where it started, moved
/// back.
pub proof fn token_start_behind(front: Seq<char>, rest: Seq<char>, pos: int)
    requires
        0 <= pos <= rest.len(),
    ensures
        token_start(front + rest, front.len() + pos) == moved_place(
            token_start(rest, pos),
            front.len() as int,
        ),
    decreases rest.len() - pos,
{
    if pos < rest.len() {
        assert((front + rest)[front.len() + pos] == rest[pos]);
        stands_behind(front, rest, pos + 1, '*');
        stands_behind(front, rest, pos + 1, '/');
        let c = rest[pos];
        if c == ' ' || c == '\t' || c == '\r' || c == '\n' {
            token_start_behind(front, rest, pos + 1);
        } else if c == '/' && stands_at(rest, pos + 1, '/') {
            run_end_behind(front, rest, pos + 2, |c: char| c != '\n');
            run_end_bounds(rest, pos + 2, |c: char| c != '\n');
            token_start_behind(front, rest, line_end(rest, pos + 2));
        } else if c == '/' && stands_at(rest, pos + 1, '*') {
            block_end_behind(front, rest, pos + 2, 1);
            block_end_bounds(rest, pos + 2, 1);
            match block_end(rest, pos + 2, 1) {
                Some(end) => {
                    token_start_behind(front, rest, end);
                },
                None => {},
            }
        }
    }
}

/// The newlines of a stretch behind a text put in front are those of the
/// stretch.
proof fn newlines_behind(front: Seq<char>, rest: Seq<char>, from: int, to: int)
    requires
        0 <= from <= to,
    ensures
        newlines(front + rest, front.len() + from, front.len() + to) == newlines(rest, from, to),
    decreases to - from,
{
    if from < to {
        newlines_behind(front, rest, from, to - 1);
        stands_behind(front, rest, to - 1, '\n');
    }
}

/// The newlines of a stretch of a text are not changed by what is put behind
/// the text.
proof fn newlines_before(front: Seq<char>, rest: Seq<char>, to: int)
    requires
        0 <= to <= front.len(),
    ensures
        newlines(front + rest, 0, to) == newlines(front, 0, to),
    decreases to,
{
    if 0 < to {
        newlines_before(front, rest, to - 1);
        assert((front + rest)[to - 1] == front[to - 1]);
    }
}

/// Behind a text put in front, lines count on from the newlines of that text.
pub proof fn line_at_behind(front: Seq<char>, rest: Seq<char>, pos: int)
    requires
        0 <= pos,
    ensures
        line_at(front + rest, front.len() + pos) == line_at(rest, pos) + newlines(
            front,
            0,
            front.len() as int,
        ),
        newlines(front, 0, front.len() as int) >= 0,
{
    let length = front.len() as int;
    newlines_split(front + rest, 0, length, length + pos);
    newlines_before(front, rest, length);
    newlines_behind(front, rest, 0, pos);
    newlines_counts(front, 0, length);
}

/// A line of the rest, moved down, is no more than the last line of the whole.
proof fn moved_line_fits(front: Seq<char>, rest: Seq<char>, pos: int)
    requires
        0 <= pos <= rest.len(),
        lines_fit(front + rest),
    ensures
        1 <= line_at(rest, pos) <= line_at(rest, pos) + newlines(front, 0, front.len() as int)
            <= u32::MAX,
{
    line_at_behind(front, rest, pos);
    line_at_grows(front + rest, front.len() + pos, (front + rest).len() as int);
    line_at_grows(rest, 0, pos);
}

/// The token behind a text put in front is the token of the rest, moved.
pub proof fn token_at_behind(
    front: Seq<char>,
    rest: Seq<char>,
    pos: int,
    decode: spec_fn(Seq<char>) -> Value,
)
    requires
        0 <= pos < rest.len(),
        lines_fit(front + rest),
    ensures
        token_at(front + rest, front.len() + pos, decode) == moved_scan(
            token_at(rest, pos, decode),
            front.len() as int,
            newlines(front, 0, front.len() as int),
        ),
{
    let s = front + rest;
    let length = front.len() as int;
    let c = rest[pos];
    assert(s[length + pos] == c);
    stands_behind(front, rest, pos + 1, '=');
    token_at_bounds(rest, pos, decode);
    line_at_behind(front, rest, pos + 1);
    line_at_behind(front, rest, pos + 2);
    if c == '"' {
        let keep = |c: char| c != '"';
        run_end_behind(front, rest, pos + 1, keep);
        run_end_bounds(rest, pos + 1, keep);
        let close = run_end(rest, pos + 1, keep);
        if close >= rest.len() {
            line_at_behind(front, rest, rest.len() as int);
            moved_line_fits(front, rest, rest.len() as int);
        } else {
            line_at_behind(front, rest, close + 1);
            assert(s.subrange(length + pos + 1, length + close) == rest.subrange(pos + 1, close));
        }
    } else if numeric(c) {
        let keep = |c: char| ascii_digit(c);
        run_end_behind(front, rest, pos + 1, keep);
        run_end_bounds(rest, pos + 1, keep);
        let whole = run_end(rest, pos + 1, keep);
        stands_behind(front, rest, whole, '.');
        if stands_at(rest, whole, '.') {
            run_end_behind(front, rest, whole + 1, keep);
            run_end_bounds(rest, whole + 1, keep);
        }
        let end = number_end(rest, pos);
        line_at_behind(front, rest, end);
        assert(s.subrange(length + pos, length + end) == rest.subrange(pos, end));
    } else if starts_word(c) {
        let keep = |c: char| continues_word(c);
        run_end_behind(front, rest, pos + 1, keep);
        run_end_bounds(rest, pos + 1, keep);
        let end = run_end(rest, pos + 1, keep);
        line_at_behind(front, rest, end);
        assert(s.subrange(length + pos, length + end) == rest.subrange(pos, end));
    }
}

/// What the scanner finds behind a text put in front is what it finds in the
/// rest, moved.
pub proof fn scan_behind(
    front: Seq<char>,
    rest: Seq<char>,
    pos: int,
    decode: spec_fn(Seq<char>) -> Value,
)
    requires
        0 <= pos <= rest.len(),
        lines_fit(front + rest),
    ensures
        scan(front + rest, front.len() + pos, decode) == moved_scan(
            scan(rest, pos, decode),
            front.len() as int,
            newlines(front, 0, front.len() as int),
        ),
{
    token_start_behind(front, rest, pos);
    token_start_bounds(rest, pos);
    match token_start(rest, pos) {
        Some(start) => {
            if start < rest.len() {
                token_at_behind(front, rest, start, decode);
            } else {
                line_at_behind(front, rest, start);
            }
        },
        None => {
            line_at_behind(front, rest, rest.len() as int);
            moved_line_fits(front, rest, rest.len() as int);
        },
    }
}

/// The tokens behind a text put in front are the tokens of the rest, moved
/// down by the newlines of that text.
pub proof fn scan_all_behind(
    front: Seq<char>,
    rest: Seq<char>,
    pos: int,
    decode: spec_fn(Seq<char>) -> Value,
)
    requires
        0 <= pos <= rest.len(),
        lines_fit(front + rest),
    ensures
        scan_all(front + rest, front.len() + pos, decode) == moved_tokens(
            scan_all(rest, pos, decode),
            newlines(front, 0, front.len() as int),
        ),
    decreases rest.len() - pos,
{
    let lines = newlines(front, 0, front.len() as int);
    scan_behind(front, rest, pos, decode);
    scan_bounds(rest, pos, decode);
    let first = scan(rest, pos, decode);
    match first.result {
        Ok(token) => {
            if !(token.kind is Eof) {
                scan_all_behind(front, rest, first.end, decode);
                match scan_all(rest, first.end, decode) {
                    Ok(more) => {
                        let shift = |token: TokenView| moved_token(token, lines);
                        assert((seq![token] + more).map_values(shift) == seq![
                            moved_token(token, lines),
                        ] + more.map_values(shift));
                    },
                    Err(_) => {},
                }
            } else {
                assert(Seq::<TokenView>::empty().map_values(
                    |token: TokenView| moved_token(token, lines),
                ) == Seq::<TokenView>::empty());
            }
        },
        Err(_) => {},
    }
}

/// Between tokens, blanks and comments do not count: from the place where
/// they begin the scanner finds what it finds from the place where they end.
pub proof fn blanks_and_comments_are_skipped(
    s: Seq<char>,
    pos: int,
    decode: spec_fn(Seq<char>) -> Value,
)
    requires
        0 <= pos <= s.len(),
    ensures
        token_start(s, pos) matches Some(start) ==> scan(s, pos, decode) == scan(s, start, decode)
            && scan_all(s, pos, decode) == scan_all(s, start, decode),
{
    token_start_bounds(s, pos);
}

/// Blanks and comments in front of a source change the lines of its tokens
/// and nothing else: the tokens of the whole are those of the rest, each
/// moved down by the newlines in front.
pub proof fn tokens_behind_blanks_and_comments(
    front: Seq<char>,
    rest: Seq<char>,
    decode: spec_fn(Seq<char>) -> Value,
)
    requires
        lines_fit(front + rest),
        token_start(front + rest, 0) == Some(front.len() as int),
    ensures
        tokens_of(front + rest, decode) == moved_tokens(
            tokens_of(rest, decode),
            newlines(front, 0, front.len() as int),
        ),
{
    blanks_and_comments_are_skipped(front + rest, 0, decode);
    scan_all_behind(front, rest, 0, decode);
}

/// Blanks and comments are transparent to compiling. Two sources whose tokens
/// are of the same kinds, whatever stands between them, compile into the same
/// opcodes and the same constants, and both compile or both fail; and
/// blanks and comments in front of a source change the kind of none of its
/// tokens.
pub proof fn blanks_and_comments_are_transparent(
    source: Seq<char>,
    other: Seq<char>,
    front: Seq<char>,
    chunk: ChunkView,
    decode: spec_fn(Seq<char>) -> Value,
)
    ensures
        tokens_of(source, decode) matches Ok(tokens) && tokens_of(other, decode) matches Ok(others)
            && kinds(tokens) == kinds(others) ==> {
            &&& compile_spec(source, chunk, decode).error is Some <==> compile_spec(
                other,
                chunk,
                decode,
            ).error is Some
            &&& compile_spec(source, chunk, decode).chunk.opcodes() == compile_spec(
                other,
                chunk,
                decode,
            ).chunk.opcodes()
            &&& compile_spec(source, chunk, decode).chunk.constants == compile_spec(
                other,
                chunk,
                decode,
            ).chunk.constants
        },
        lines_fit(front + source) && token_start(front + source, 0) == Some(front.len() as int)
            ==> {
            &&& compile_spec(front + source, chunk, decode).error is Some <==> compile_spec(
                source,
                chunk,
                decode,
            ).error is Some
            &&& compile_spec(front + source, chunk, decode).chunk.opcodes() == compile_spec(
                source,
                chunk,
                decode,
            ).chunk.opcodes()
            &&& compile_spec(front + source, chunk, decode).chunk.constants == compile_spec(
                source,
                chunk,
                decode,
            ).chunk.constants
        },
{
    match (tokens_of(source, decode), tokens_of(other, decode)) {
        (Ok(tokens), Ok(others)) => {
            if kinds(tokens) == kinds(others) {
                lines_do_not_matter(tokens, others, chunk);
            }
        },
        _ => {},
    }
    if lines_fit(front + source) && token_start(front + source, 0) == Some(front.len() as int) {
        let lines = newlines(front, 0, front.len() as int);
        tokens_behind_blanks_and_comments(front, source, decode);
        match tokens_of(source, decode) {
            Ok(tokens) => {
                let moved = tokens.map_values(|token: TokenView| moved_token(token, lines));
                assert(kinds(moved) == kinds(tokens));
                lines_do_not_matter(moved, tokens, chunk);
            },
            Err(_) => {},
        }
    }
}

} // verus!
