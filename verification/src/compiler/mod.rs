//! From source text to a chunk: the scanner, the parser, and their errors.

pub mod token;
pub mod lexical;
pub mod scanner;
pub mod grammar;
pub mod parser;
pub mod expression;
pub mod transparency;

use crate::chunk::{Chunk, ChunkView};
use crate::compiler::grammar::compile_tokens;
use crate::compiler::lexical::{lines_fit, tokens_of};
use crate::compiler::parser::Parser;
use crate::compiler::scanner::{decodes, Scanner};
use crate::compiler::token::TokenType;
use crate::op_codes::ByteOp::OP_RETURN;
use crate::text::{decimal, push_char, push_decimal};
use crate::value::Value;
use vstd::prelude::*;
use vstd::std_specs::convert::FromSpecImpl;
use vstd::string::*;

verus! {

/// Why scanning stopped.
#[derive(Debug, Clone, Copy, PartialEq, Eq, Structural)]
pub enum ScanError {
    /// A character that starts no token.
    InvalidToken(char),
    /// The input ended inside a block comment; the line is that of the end.
    UnterminatedComment(u32),
    /// The input ended inside a string; the line is that of the end.
    UnterminatedString(u32),
}

impl ScanError {
    /// The message of the error.
    pub open spec fn message(self) -> Seq<char> {
        match self {
            ScanError::InvalidToken(c) => "Invalid token: "@.push(c),
            ScanError::UnterminatedComment(line) => "Unterminated multi-line comment on line "@
                + decimal(line as nat),
            ScanError::UnterminatedString(line) => "Unterminated string on line "@ + decimal(
                line as nat,
            ),
        }
    }

    /// The message of the error.
    pub fn to_string(&self) -> (text: String)
        ensures
            text@ == self.message(),
    {
        match self {
            ScanError::InvalidToken(c) => {
                let mut text = String::from_str("Invalid token: ");
                push_char(&mut text, *c);
                text
            },
            ScanError::UnterminatedComment(line) => {
                let mut text = String::from_str("Unterminated multi-line comment on line ");
                push_decimal(&mut text, *line as u64);
                text
            },
            ScanError::UnterminatedString(line) => {
                let mut text = String::from_str("Unterminated string on line ");
                push_decimal(&mut text, *line as u64);
                text
            },
        }
    }
}

/// Why compiling stopped: a message that names what was expected and the line.
#[derive(Debug, Clone)]
pub enum CompileError {
    CompileError(String),
}

impl View for CompileError {
    type V = Seq<char>;

    /// The message that the error carries.
    open spec fn view(&self) -> Seq<char> {
        match self {
            CompileError::CompileError(message) => message@,
        }
    }
}

impl CompileError {
    /// The message with the heading of its kind in front.
    pub fn to_string(&self) -> (text: String)
        ensures
            text@ == "Compile error: "@ + self@,
    {
        match self {
            CompileError::CompileError(message) => {
                let mut text = String::from_str("Compile error: ");
                text.append(message.as_str());
                text
            },
        }
    }
}

impl From<ScanError> for CompileError {
    /// A scan error becomes a compile error with the same message.
    fn from(error: ScanError) -> (result: CompileError)
        ensures
            result@ == error.message(),
    {
        CompileError::CompileError(error.to_string())
    }
}

impl FromSpecImpl<ScanError> for CompileError {
    open spec fn obeys_from_spec() -> bool {
        false
    }

    open spec fn from_spec(error: ScanError) -> CompileError {
        arbitrary()
    }
}

/// What compiling leaves: the chunk, and the message of the error if it failed.
pub struct Compiled {
    pub chunk: ChunkView,
    pub error: Option<Seq<char>>,
}

/// What compiling a source into a chunk leaves. The source is scanned to its
/// end first: a scan error leaves the chunk as it was. Then the tokens are
/// compiled as one expression, and a `Return` is written behind its code; an
/// error on the way leaves what was written up to it.
pub open spec fn compile_spec(
    source: Seq<char>,
    chunk: ChunkView,
    decode: spec_fn(Seq<char>) -> Value,
) -> Compiled {
    match tokens_of(source, decode) {
        Err(error) => Compiled { chunk, error: Some(error.message()) },
        Ok(tokens) => Compiled {
            chunk: compile_tokens(tokens, chunk).state.chunk,
            error: compile_tokens(tokens, chunk).error,
        },
    }
}

/// Compiles a source, which is one expression, into a chunk. `decode` turns
/// the text of a number into its value.
pub fn compile<F: Fn(&str) -> Value>(code: String, chunk: &mut Chunk, decode: F) -> (result: Result<
    (),
    CompileError,
>)
    requires
        lines_fit(code@),
        forall|text: &str| call_requires(decode, (text,)),
    ensures
        forall|model: spec_fn(Seq<char>) -> Value| #[trigger]
            decodes(decode, model) ==> final(chunk)@ == compile_spec(
                code@,
                old(chunk)@,
                model,
            ).chunk && match result {
                Ok(_) => compile_spec(code@, old(chunk)@, model).error is None,
                Err(error) => compile_spec(code@, old(chunk)@, model).error == Some(error@),
            },
{
    let scanner = Scanner::new(&code, decode);
    let tokens = match scanner.scan_up_to_eof() {
        Ok(tokens) => tokens,
        Err(error) => {
            return Err(CompileError::from(error));
        },
    };
    let mut parser = Parser::new(tokens, chunk);
    parser.advance();
    parser.expression()?;
    parser.consume(TokenType::Eof, "Expect end of expression")?;
    parser.emit_u8(OP_RETURN);
    Ok(())
}

} // verus!
