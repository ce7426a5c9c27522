//! The scanner: from source text to tokens, one at a time.

use crate::compiler::lexical::{
    after, alphabetic, ascii_digit, block_end, block_end_bounds, continues_word, is_alphabetic,
    is_numeric, keyword_table, line_at, line_at_grows, lines_fit, lookup, newlines, newlines_counts,
    number_end, numeric, run_end, run_end_is, scan, scan_all, stands_at, token_at, token_start,
    word_kind, Scan,
};
use crate::compiler::token::{views, Token, TokenKind, TokenType, TokenView};
use crate::compiler::ScanError;
use crate::text::{push_char, string_of};
use crate::value::Value;
use vstd::prelude::*;
use vstd::string::*;

verus! {

/// Whether `model` says for every text what `decode` returns for it.
pub open spec fn decodes<F: Fn(&str) -> Value>(decode: F, model: spec_fn(Seq<char>) -> Value) -> bool {
    forall|text: &str, value: Value| #[trigger]
        call_ensures(decode, (text,), value) ==> value == model(text@)
}

/// Whether `model` says for every character what `predicate` answers for it.
pub open spec fn decides<P: Fn(&char) -> bool>(predicate: P, model: spec_fn(char) -> bool) -> bool {
    forall|c: &char, answer: bool| #[trigger]
        call_ensures(predicate, (c,), answer) ==> answer == model(*c)
}

/// A keyword table as a mathematical value.
pub open spec fn table_view(table: Seq<(String, TokenType)>) -> Seq<(Seq<char>, TokenKind)> {
    table.map_values(|entry: (String, TokenType)| (entry.0@, entry.1@))
}

/// Whether a result and the place where the scanner stands are those of `scan`.
pub open spec fn agrees(result: Result<Token, ScanError>, position: int, scan: Scan) -> bool {
    &&& position == scan.end
    &&& match result {
        Ok(token) => scan.result == Ok::<TokenView, ScanError>(token@),
        Err(error) => scan.result == Err::<TokenView, ScanError>(error),
    }
}

/// Whether the lines of a source can be counted: the scanner counts them in
/// 32 bits.
pub fn lines_can_be_counted(source: &String) -> (answer: bool)
    ensures
        answer == lines_fit(source@),
{
    // The newlines found so far, counted up to the limit and no further.
    let mut count: u32 = 0;
    for c in it: source.as_str().chars()
        invariant
            it.seq() == source@,
            count as int == if newlines(source@, 0, it.index() as int) < u32::MAX {
                newlines(source@, 0, it.index() as int)
            } else {
                u32::MAX as int
            },
    {
        proof {
            assert(stands_at(source@, it.index() as int, '\n') == (c == '\n'));
            newlines_counts(source@, 0, it.index() as int);
        }
        if c == '\n' && count < u32::MAX {
            count = count + 1;
        }
    }
    count < u32::MAX
}

/// The keyword table: each keyword with its kind.
fn init_keywords() -> (keywords: Vec<(String, TokenType)>)
    ensures
        table_view(keywords@) == keyword_table(),
{
    let mut keywords: Vec<(String, TokenType)> = Vec::new();
    keywords.push((String::from_str("and"), TokenType::And));
    keywords.push((String::from_str("class"), TokenType::Class));
    keywords.push((String::from_str("else"), TokenType::Else));
    keywords.push((String::from_str("false"), TokenType::False));
    keywords.push((String::from_str("for"), TokenType::For));
    keywords.push((String::from_str("fn"), TokenType::Function));
    keywords.push((String::from_str("if"), TokenType::If));
    keywords.push((String::from_str("nil"), TokenType::Nil));
    keywords.push((String::from_str("or"), TokenType::Or));
    keywords.push((String::from_str("print"), TokenType::Print));
    keywords.push((String::from_str("return"), TokenType::Return));
    keywords.push((String::from_str("super"), TokenType::Super));
    keywords.push((String::from_str("self"), TokenType::This));
    keywords.push((String::from_str("true"), TokenType::True));
    keywords.push((String::from_str("let"), TokenType::Let));
    keywords.push((String::from_str("mut"), TokenType::Mutable));
    keywords.push((String::from_str("while"), TokenType::While));
    assert(table_view(keywords@) =~= keyword_table());
    keywords
}

/// Reads a source from front to back and hands out its tokens. `decode` turns
/// the text of a number into its value.
pub struct Scanner<F> {
    source: Vec<char>,
    position: usize,
    line: u32,
    keywords: Vec<(String, TokenType)>,
    decode: F,
}

impl<F: Fn(&str) -> Value> Scanner<F> {
    /// The source that is scanned.
    pub closed spec fn source(&self) -> Seq<char> {
        self.source@
    }

    /// The place in the source where the scanner stands.
    pub closed spec fn position(&self) -> int {
        self.position as int
    }

    /// The function that decodes numbers.
    pub closed spec fn decoder(&self) -> F {
        self.decode
    }

    /// The scanner stands inside its source or at its end, its line counter
    /// is the line of that place, and its keyword table is the table.
    pub closed spec fn wf(&self) -> bool {
        &&& self.position <= self.source@.len()
        &&& self.line == line_at(self.source@, self.position as int)
        &&& lines_fit(self.source@)
        &&& table_view(self.keywords@) == keyword_table()
    }

    /// The scanner is in order and still reads the source of `before`, with
    /// the same decoder, at or behind the place of `before`.
    pub open spec fn continues(&self, before: &Self) -> bool {
        &&& self.wf()
        &&& self.source() == before.source()
        &&& self.decoder() == before.decoder()
        &&& before.position() <= self.position() <= self.source().len()
    }

    /// A scanner at the start of `source`, on line 1.
    pub fn new(source: &String, decode: F) -> (scanner: Self)
        requires
            lines_fit(source@),
        ensures
            scanner.wf(),
            scanner.source() == source@,
            scanner.position() == 0,
            scanner.decoder() == decode,
    {
        let mut chars: Vec<char> = Vec::new();
        for c in it: source.as_str().chars()
            invariant
                chars@ == it.seq().take(it.index() as int),
                it.seq() == source@,
        {
            chars.push(c);
        }
        assert(chars@ == source@);
        Scanner { source: chars, position: 0, line: 1, keywords: init_keywords(), decode }
    }

    /// The character at which the scanner stands, if there is one.
    fn peek(&self) -> (c: Option<char>)
        requires
            self.wf(),
        ensures
            match c {
                Some(c) => stands_at(self.source(), self.position(), c),
                None => self.position() == self.source().len(),
            },
    {
        if self.position < self.source.len() {
            Some(self.source[self.position])
        } else {
            None
        }
    }

    /// Whether the scanner stands at the character `c`.
    fn peek_is(&self, c: char) -> (answer: bool)
        requires
            self.wf(),
        ensures
            answer == stands_at(self.source(), self.position(), c),
    {
        self.position < self.source.len() && self.source[self.position] == c
    }

    /// Whether the character behind the one at which the scanner stands is `c`.
    fn peek_second_is(&self, c: char) -> (answer: bool)
        requires
            self.wf(),
        ensures
            answer == stands_at(self.source(), self.position() + 1, c),
    {
        self.position < self.source.len() && self.position + 1 < self.source.len()
            && self.source[self.position + 1] == c
    }

    /// Steps over one character and returns it; a newline starts the next line.
    fn next(&mut self) -> (c: Option<char>)
        requires
            old(self).wf(),
        ensures
            final(self).continues(old(self)),
            match c {
                Some(c) => stands_at(old(self).source(), old(self).position(), c) && final(self).position() == old(self).position() + 1,
                None => old(self).position() == old(self).source().len() && final(self).position()
                    == old(self).position(),
            },
    {
        if self.position < self.source.len() {
            let c = self.source[self.position];
            proof {
                line_at_grows(self.source@, self.position + 1, self.source@.len() as int);
            }
            self.position = self.position + 1;
            if c == '\n' {
                self.line = self.line + 1;
            }
            Some(c)
        } else {
            None
        }
    }

    /// A token of the given kind on the line where the scanner stands.
    pub fn make_token(&self, tok: TokenType) -> (token: Token)
        requires
            self.wf(),
        ensures
            token@ == (TokenView { kind: tok@, line: line_at(self.source(), self.position()) }),
    {
        Token { token_type: tok, line: self.line }
    }

    /// Steps over a block comment whose opening `/*` has been read, nested
    /// comments included. If the source ends inside it, the scanner stops at
    /// the end and the error carries the line of the end.
    pub fn consume_multi_line_comment(&mut self) -> (result: Result<(), ScanError>)
        requires
            old(self).wf(),
        ensures
            final(self).continues(old(self)),
            match block_end(old(self).source(), old(self).position(), 1) {
                Some(end) => result is Ok && final(self).position() == end,
                None => result == Err::<(), ScanError>(
                    ScanError::UnterminatedComment(
                        line_at(old(self).source(), old(self).source().len() as int) as u32,
                    ),
                ) && final(self).position() == old(self).source().len(),
            },
    {
        let mut depth: usize = 1;
        while depth > 0
            invariant
                self.continues(old(self)),
                self.source().len() == self.source.len(),
                depth <= 1 + self.position() - old(self).position(),
                block_end(self.source(), self.position(), depth as nat) == block_end(
                    old(self).source(),
                    old(self).position(),
                    1,
                ),
            decreases self.source().len() - self.position(),
        {
            let c = match self.next() {
                None => {
                    return Err(ScanError::UnterminatedComment(self.line));
                },
                Some(c) => c,
            };
            if c == '/' {
                if self.peek_is('*') {
                    depth = depth + 1;
                    self.next();
                }
            } else if c == '*' {
                if self.peek_is('/') {
                    depth = depth - 1;
                    self.next();
                }
            }
        }
        Ok(())
    }

    /// Steps over the characters for which `predicate` answers yes, up to the
    /// first for which it does not or to the end of the source, and returns
    /// them.
    pub fn consume_while<P: Fn(&char) -> bool>(&mut self, predicate: P) -> (chars: Vec<char>)
        requires
            old(self).wf(),
            forall|c: &char| call_requires(predicate, (c,)),
        ensures
            final(self).continues(old(self)),
            chars@ == old(self).source().subrange(old(self).position(), final(self).position()),
            forall|model: spec_fn(char) -> bool| #[trigger]
                decides(predicate, model) ==> final(self).position() == run_end(
                    old(self).source(),
                    old(self).position(),
                    model,
                ),
    {
        let mut chars: Vec<char> = Vec::new();
        let ghost mut stopped = false;
        loop
            invariant
                self.continues(old(self)),
                forall|c: &char| call_requires(predicate, (c,)),
                chars@ == old(self).source().subrange(old(self).position(), self.position()),
                forall|i: int|
                    old(self).position() <= i < self.position() ==> call_ensures(
                        predicate,
                        (&#[trigger] self.source()[i],),
                        true,
                    ),
            ensures
                self.continues(old(self)),
                chars@ == old(self).source().subrange(old(self).position(), self.position()),
                forall|i: int|
                    old(self).position() <= i < self.position() ==> call_ensures(
                        predicate,
                        (&#[trigger] self.source()[i],),
                        true,
                    ),
                self.position() < self.source().len() ==> call_ensures(
                    predicate,
                    (&self.source()[self.position()],),
                    false,
                ),
            decreases self.source().len() - self.position(),
        {
            let c = match self.peek() {
                None => {
                    break ;
                },
                Some(c) => c,
            };
            if !predicate(&c) {
                break ;
            }
            chars.push(c);
            self.next();
        }
        proof {
            let s = self.source();
            let start = old(self).position();
            let end = self.position();
            assert forall|model: spec_fn(char) -> bool| #[trigger]
                decides(predicate, model) implies end == run_end(s, start, model) by {
                assert forall|i: int| start <= i < end implies model(#[trigger] s[i]) by {
                    assert(call_ensures(predicate, (&s[i],), true));
                }
                run_end_is(s, start, end, model);
            }
        }
        chars
    }

    /// Reads a string whose opening quote has been read: all characters up to
    /// the next quote are its text, as they stand.
    pub fn scan_string(&mut self) -> (result: Result<Token, ScanError>)
        requires
            old(self).wf(),
            old(self).position() >= 1,
            old(self).source()[old(self).position() - 1] == '"',
        ensures
            final(self).continues(old(self)),
            forall|model: spec_fn(Seq<char>) -> Value|
                agrees(
                    result,
                    final(self).position(),
                    #[trigger] token_at(old(self).source(), old(self).position() - 1, model),
                ),
    {
        let not_quote = |c: &char| -> (keep: bool)
            ensures
                keep == (*c != '"'),
            { *c != '"' };
        let chars: Vec<char> = self.consume_while(not_quote);
        assert(decides(not_quote, |c: char| c != '"'));
        if self.next().is_none() {
            return Err(ScanError::UnterminatedString(self.line));
        }
        Ok(self.make_token(TokenType::String(string_of(&chars))))
    }

    /// Reads a number whose first character `c` has been read: the digits
    /// that follow and at most one `.` with the digits behind it. Its value is
    /// what the decoder makes of that text.
    pub fn scan_number(&mut self, c: char) -> (result: Result<Token, ScanError>)
        requires
            old(self).wf(),
            old(self).position() >= 1,
            old(self).source()[old(self).position() - 1] == c,
            forall|text: &str| call_requires(old(self).decoder(), (text,)),
        ensures
            final(self).continues(old(self)),
            final(self).position() == number_end(old(self).source(), old(self).position() - 1),
            result matches Ok(token) && token@.kind is Number && token@.line == line_at(
                final(self).source(),
                final(self).position(),
            ),
            forall|model: spec_fn(Seq<char>) -> Value| #[trigger]
                decodes(old(self).decoder(), model) ==> (result matches Ok(token) && token@.kind
                    == TokenKind::Number(
                    model(
                        old(self).source().subrange(
                            old(self).position() - 1,
                            final(self).position(),
                        ),
                    ),
                )),
    {
        let ghost s = self.source();
        let ghost first = self.position() - 1;
        let mut number = String::new();
        push_char(&mut number, c);
        let is_digit = |c: &char| -> (keep: bool)
            ensures
                keep == ascii_digit(*c),
            { *c >= '0' && *c <= '9' };
        let whole: Vec<char> = self.consume_while(is_digit);
        assert(decides(is_digit, |c: char| ascii_digit(c)));
        number.append(string_of(&whole).as_str());
        assert(number@ == s.subrange(first, self.position()));
        if self.peek_is('.') {
            self.next();
            push_char(&mut number, '.');
            let is_digit = |c: &char| -> (keep: bool)
                ensures
                    keep == ascii_digit(*c),
                { *c >= '0' && *c <= '9' };
            let ghost dot = self.position();
            let fraction: Vec<char> = self.consume_while(is_digit);
            assert(decides(is_digit, |c: char| ascii_digit(c)));
            number.append(string_of(&fraction).as_str());
            assert(number@ == s.subrange(first, self.position()));
        }
        let value = (self.decode)(number.as_str());
        Ok(self.make_token(TokenType::Number(value)))
    }

    /// The kind that the keyword table gives to a word, if it is a keyword.
    fn find_keyword(&self, word: &String) -> (kind: Option<TokenType>)
        requires
            self.wf(),
        ensures
            match kind {
                Some(kind) => lookup(keyword_table(), word@, 0) == Some(kind@),
                None => lookup(keyword_table(), word@, 0) is None,
            },
    {
        let mut index: usize = 0;
        while index < self.keywords.len()
            invariant
                index <= self.keywords.len(),
                table_view(self.keywords@) == keyword_table(),
                lookup(keyword_table(), word@, 0) == lookup(keyword_table(), word@, index as int),
            decreases self.keywords.len() - index,
        {
            assert(table_view(self.keywords@)[index as int] == (
                self.keywords@[index as int].0@,
                self.keywords@[index as int].1@,
            ));
            if self.keywords[index].0 == *word {
                return Some(self.keywords[index].1.clone());
            }
            index = index + 1;
        }
        None
    }

    /// Reads a word whose first character `c` has been read: a keyword if the
    /// table holds it, else an identifier.
    pub fn scan_identifier(&mut self, c: char) -> (result: Result<Token, ScanError>)
        requires
            old(self).wf(),
            old(self).position() >= 1,
            old(self).source()[old(self).position() - 1] == c,
        ensures
            final(self).continues(old(self)),
            final(self).position() == run_end(
                old(self).source(),
                old(self).position(),
                |c: char| continues_word(c),
            ),
            result matches Ok(token) && token@ == (TokenView {
                kind: word_kind(
                    old(self).source().subrange(old(self).position() - 1, final(self).position()),
                ),
                line: line_at(final(self).source(), final(self).position()),
            }),
    {
        let ghost s = self.source();
        let ghost first = self.position() - 1;
        let mut ident = String::new();
        push_char(&mut ident, c);
        // A character is alphanumeric when it is alphabetic or numeric.
        let in_word = |c: &char| -> (keep: bool)
            ensures
                keep == continues_word(*c),
            { is_alphabetic(*c) || is_numeric(*c) || *c == '_' };
        let rest: Vec<char> = self.consume_while(in_word);
        assert(decides(in_word, |c: char| continues_word(c)));
        ident.append(string_of(&rest).as_str());
        assert(ident@ == s.subrange(first, self.position()));
        match self.find_keyword(&ident) {
            Some(keyword) => Ok(self.make_token(keyword)),
            None => Ok(self.make_token(TokenType::Literal(ident))),
        }
    }

    /// The token that starts with the character just read: `if_true` if
    /// `expected` follows at once, which is then read too, else `if_false`,
    /// and nothing more is read.
    pub fn choose_next(&mut self, expected: char, if_true: TokenType, if_false: TokenType) -> (token:
        Token)
        requires
            old(self).wf(),
        ensures
            final(self).continues(old(self)),
            stands_at(old(self).source(), old(self).position(), expected) ==> final(self).position()
                == old(self).position() + 1 && token@.kind == if_true@,
            !stands_at(old(self).source(), old(self).position(), expected) ==> final(self).position()
                == old(self).position() && token@.kind == if_false@,
            token@.line == line_at(final(self).source(), final(self).position()),
    {
        if self.peek_is(expected) {
            self.next();
            return self.make_token(if_true);
        }
        self.make_token(if_false)
    }

    /// Steps over blanks, newlines and comments up to the start of the next
    /// token or the end of the source.
    fn skip_trivia(&mut self) -> (result: Result<(), ScanError>)
        requires
            old(self).wf(),
        ensures
            final(self).continues(old(self)),
            match token_start(old(self).source(), old(self).position()) {
                Some(start) => result is Ok && final(self).position() == start,
                None => result == Err::<(), ScanError>(
                    ScanError::UnterminatedComment(
                        line_at(old(self).source(), old(self).source().len() as int) as u32,
                    ),
                ) && final(self).position() == old(self).source().len(),
            },
    {
        loop
            invariant
                self.continues(old(self)),
                token_start(self.source(), self.position()) == token_start(
                    old(self).source(),
                    old(self).position(),
                ),
            decreases self.source().len() - self.position(),
        {
            let c = match self.peek() {
                None => {
                    return Ok(());
                },
                Some(c) => c,
            };
            if c == ' ' || c == '\t' || c == '\r' || c == '\n' {
                self.next();
            } else if c == '/' && self.peek_second_is('/') {
                self.next();
                self.next();
                let in_line = |c: &char| -> (keep: bool)
                    ensures
                        keep == (*c != '\n'),
                    { *c != '\n' };
                self.consume_while(in_line);
                assert(decides(in_line, |c: char| c != '\n'));
            } else if c == '/' && self.peek_second_is('*') {
                self.next();
                self.next();
                let ghost inside = self.position();
                proof {
                    block_end_bounds(self.source(), inside, 1);
                }
                self.consume_multi_line_comment()?;
            } else {
                return Ok(());
            }
        }
    }

    /// The next token, or the error that stops the scanner. At the end of the
    /// source every call gives the end-of-input token.
    pub fn scan_token(&mut self) -> (result: Result<Token, ScanError>)
        requires
            old(self).wf(),
            forall|text: &str| call_requires(old(self).decoder(), (text,)),
        ensures
            final(self).continues(old(self)),
            result matches Ok(token) && !(token@.kind is Eof) ==> final(self).position() > old(
                self,
            ).position(),
            forall|model: spec_fn(Seq<char>) -> Value| #[trigger]
                decodes(old(self).decoder(), model) ==> agrees(
                    result,
                    final(self).position(),
                    scan(old(self).source(), old(self).position(), model),
                ),
    {
        self.skip_trivia()?;
        let ghost s = self.source();
        let ghost start = self.position();
        let c = match self.next() {
            None => {
                return Ok(self.make_token(TokenType::Eof));
            },
            Some(c) => c,
        };
        if c == '(' {
            Ok(self.make_token(TokenType::LeftParen))
        } else if c == ')' {
            Ok(self.make_token(TokenType::RightParen))
        } else if c == '{' {
            Ok(self.make_token(TokenType::LeftBrace))
        } else if c == '}' {
            Ok(self.make_token(TokenType::RightBrace))
        } else if c == ',' {
            Ok(self.make_token(TokenType::Comma))
        } else if c == '.' {
            Ok(self.make_token(TokenType::Dot))
        } else if c == '-' {
            Ok(self.make_token(TokenType::Minus))
        } else if c == '+' {
            Ok(self.make_token(TokenType::Plus))
        } else if c == ';' {
            Ok(self.make_token(TokenType::Semicolon))
        } else if c == '*' {
            Ok(self.make_token(TokenType::Star))
        } else if c == '!' {
            Ok(self.choose_next('=', TokenType::BangEqual, TokenType::Bang))
        } else if c == '=' {
            Ok(self.choose_next('=', TokenType::EqualEqual, TokenType::Equal))
        } else if c == '<' {
            Ok(self.choose_next('=', TokenType::LessEqual, TokenType::Less))
        } else if c == '>' {
            Ok(self.choose_next('=', TokenType::GreaterEqual, TokenType::Greater))
        } else if c == '/' {
            Ok(self.make_token(TokenType::Slash))
        } else if c == '"' {
            self.scan_string()
        } else if is_numeric(c) {
            self.scan_number(c)
        } else if is_alphabetic(c) || c == '_' {
            self.scan_identifier(c)
        } else {
            Err(ScanError::InvalidToken(c))
        }
    }

    /// All tokens from where the scanner stands to the end of the source,
    /// without the end-of-input token, or the first error.
    pub fn scan_up_to_eof(self) -> (result: Result<Vec<Token>, ScanError>)
        requires
            self.wf(),
            forall|text: &str| call_requires(self.decoder(), (text,)),
        ensures
            forall|model: spec_fn(Seq<char>) -> Value| #[trigger]
                decodes(self.decoder(), model) ==> match result {
                    Ok(tokens) => scan_all(self.source(), self.position(), model) == Ok::<
                        Seq<TokenView>,
                        ScanError,
                    >(views(tokens@)),
                    Err(error) => scan_all(self.source(), self.position(), model) == Err::<
                        Seq<TokenView>,
                        ScanError,
                    >(error),
                },
    {
        let ghost s = self.source();
        let ghost start = self.position();
        let ghost decoder = self.decoder();
        let mut scanner = self;
        let mut tokens: Vec<Token> = Vec::new();
        loop
            invariant_except_break
                forall|model: spec_fn(Seq<char>) -> Value| #[trigger]
                    decodes(decoder, model) ==> scan_all(s, start, model) == after(
                        views(tokens@),
                        scan_all(s, scanner.position(), model),
                    ),
            invariant
                s == self.source(),
                start == self.position(),
                decoder == self.decoder(),
                scanner.wf(),
                scanner.source() == s,
                scanner.decoder() == decoder,
                start <= scanner.position() <= s.len(),
                forall|text: &str| call_requires(decoder, (text,)),
            ensures
                forall|model: spec_fn(Seq<char>) -> Value| #[trigger]
                    decodes(decoder, model) ==> scan_all(s, start, model) == Ok::<
                        Seq<TokenView>,
                        ScanError,
                    >(views(tokens@)),
            decreases s.len() - scanner.position(),
        {
            let ghost before = scanner.position();
            let ghost found = views(tokens@);
            let token = match scanner.scan_token() {
                Ok(token) => token,
                Err(error) => {
                    proof {
                        assert forall|model: spec_fn(Seq<char>) -> Value| #[trigger]
                            decodes(decoder, model) implies scan_all(s, start, model) == Err::<
                            Seq<TokenView>,
                            ScanError,
                        >(error) by {
                            assert(scan(s, before, model).result == Err::<TokenView, ScanError>(
                                error,
                            ));
                        }
                    }
                    return Err(error);
                },
            };
            if token.token_type == TokenType::Eof {
                proof {
                    assert forall|model: spec_fn(Seq<char>) -> Value| #[trigger]
                        decodes(decoder, model) implies scan_all(s, start, model) == Ok::<
                        Seq<TokenView>,
                        ScanError,
                    >(found) by {
                        assert(scan(s, before, model).result == Ok::<TokenView, ScanError>(token@));
                        assert(found + Seq::<TokenView>::empty() == found);
                    }
                }
                break ;
            }
            tokens.push(token);
            proof {
                assert(views(tokens@) == found + seq![token@]);
                assert forall|model: spec_fn(Seq<char>) -> Value| #[trigger]
                    decodes(decoder, model) implies scan_all(s, start, model) == after(
                    views(tokens@),
                    scan_all(s, scanner.position(), model),
                ) by {
                    assert(scan(s, before, model).result == Ok::<TokenView, ScanError>(token@));
                    let rest = scan_all(s, scanner.position(), model);
                    match rest {
                        Ok(more) => {
                            assert(found + (seq![token@] + more) == (found + seq![token@]) + more);
                        },
                        Err(_) => {},
                    }
                }
            }
        }
        Ok(tokens)
    }
}

} // verus!
