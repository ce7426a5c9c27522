use rlox::chunk::{Chunk, Instruction};
use rlox::compiler::compile;
use rlox::compiler::grammar::Precedence;
use rlox::compiler::parser::Parser;
use rlox::compiler::scanner::Scanner;
use rlox::compiler::token::{Token, TokenType};
use rlox::compiler::{CompileError, ScanError};
use rlox::op_codes::ByteOp::{OP_ADD, OP_CONSTANT, OP_INVALID, OP_NEGATE, OP_RETURN};
use rlox::op_codes::OpCode;
use rlox::value::Value;

fn decode(text: &str) -> Value {
    Value::from_bits(text.parse::<f64>().expect("Invalid number").to_bits())
}

fn number(value: f64) -> Value {
    Value::from_bits(value.to_bits())
}

fn tokens_of(text: &str) -> Vec<Token> {
    let text = text.to_string();
    Scanner::new(&text, decode).scan_up_to_eof().unwrap()
}

fn compiled(text: &str) -> Chunk {
    let mut chunk = Chunk::new();
    compile(text.to_string(), &mut chunk, decode).unwrap();
    chunk
}

fn failure(text: &str) -> String {
    let mut chunk = Chunk::new();
    compile(text.to_string(), &mut chunk, decode)
        .unwrap_err()
        .to_string()
}

fn opcodes(chunk: &Chunk) -> Vec<OpCode> {
    chunk
        .bytecode
        .iter()
        .map(|instruction| instruction.opcode)
        .collect()
}

fn constants(chunk: &Chunk) -> Vec<f64> {
    chunk
        .constants
        .iter()
        .map(|value| f64::from_bits(value.to_bits()))
        .collect()
}

#[test]
fn a_number_compiles_to_a_constant_and_a_return() {
    let chunk = compiled("42");
    assert_eq!(
        chunk.bytecode,
        vec![
            Instruction { opcode: OpCode::Constant(0), line: 1 },
            Instruction { opcode: OpCode::Return, line: 1 },
        ]
    );
    assert_eq!(constants(&chunk), vec![42.0]);
}

#[test]
fn multiplication_binds_tighter_than_addition() {
    let chunk = compiled("1 + 2 * 3");
    assert_eq!(
        opcodes(&chunk),
        vec![
            OpCode::Constant(0),
            OpCode::Constant(1),
            OpCode::Constant(2),
            OpCode::Multiplication,
            OpCode::Addition,
            OpCode::Return,
        ]
    );
    assert_eq!(constants(&chunk), vec![1.0, 2.0, 3.0]);

    let chunk = compiled("1 * 2 + 3");
    assert_eq!(
        opcodes(&chunk),
        vec![
            OpCode::Constant(0),
            OpCode::Constant(1),
            OpCode::Multiplication,
            OpCode::Constant(2),
            OpCode::Addition,
            OpCode::Return,
        ]
    );
}

#[test]
fn operators_of_one_precedence_group_to_the_left() {
    let chunk = compiled("8 - 4 - 2");
    assert_eq!(
        opcodes(&chunk),
        vec![
            OpCode::Constant(0),
            OpCode::Constant(1),
            OpCode::Subtraction,
            OpCode::Constant(2),
            OpCode::Subtraction,
            OpCode::Return,
        ]
    );
    let chunk = compiled("8 / 4 * 2");
    assert_eq!(
        opcodes(&chunk),
        vec![
            OpCode::Constant(0),
            OpCode::Constant(1),
            OpCode::Division,
            OpCode::Constant(2),
            OpCode::Multiplication,
            OpCode::Return,
        ]
    );
}

#[test]
fn unary_minus_binds_tighter_than_any_binary_operator() {
    let chunk = compiled("-2 + 3");
    assert_eq!(
        opcodes(&chunk),
        vec![
            OpCode::Constant(0),
            OpCode::Negate,
            OpCode::Constant(1),
            OpCode::Addition,
            OpCode::Return,
        ]
    );
    let chunk = compiled("-2 * 3");
    assert_eq!(
        opcodes(&chunk),
        vec![
            OpCode::Constant(0),
            OpCode::Negate,
            OpCode::Constant(1),
            OpCode::Multiplication,
            OpCode::Return,
        ]
    );
    let chunk = compiled("1 - -2");
    assert_eq!(
        opcodes(&chunk),
        vec![
            OpCode::Constant(0),
            OpCode::Constant(1),
            OpCode::Negate,
            OpCode::Subtraction,
            OpCode::Return,
        ]
    );
    let chunk = compiled("--1");
    assert_eq!(
        opcodes(&chunk),
        vec![OpCode::Constant(0), OpCode::Negate, OpCode::Negate, OpCode::Return]
    );
}

#[test]
fn grouping_overrides_precedence_and_leaves_no_instruction() {
    let chunk = compiled("(1 + 2) * 3");
    assert_eq!(
        opcodes(&chunk),
        vec![
            OpCode::Constant(0),
            OpCode::Constant(1),
            OpCode::Addition,
            OpCode::Constant(2),
            OpCode::Multiplication,
            OpCode::Return,
        ]
    );
    assert_eq!(opcodes(&compiled("((7))")), opcodes(&compiled("7")));
    let chunk = compiled("-(1 + 2)");
    assert_eq!(
        opcodes(&chunk),
        vec![
            OpCode::Constant(0),
            OpCode::Constant(1),
            OpCode::Addition,
            OpCode::Negate,
            OpCode::Return,
        ]
    );
}

#[test]
fn whitespace_and_comments_do_not_change_the_code() {
    let plain = compiled("1+2*(3-4)/-5");
    let spread = compiled(
        "  1 // one\n +\t2 /* two /* nested */ */ * (\r\n 3 - /**/ 4 ) / - 5 // end",
    );
    assert_eq!(opcodes(&plain), opcodes(&spread));
    assert_eq!(constants(&plain), constants(&spread));
    assert_eq!(constants(&plain), vec![1.0, 2.0, 3.0, 4.0, 5.0]);
}

#[test]
fn scan_up_to_eof_and_the_parser_by_hand_do_what_compile_does() {
    let source = "1 + /* two */ 2 * 3 // done";
    let mut by_hand = Chunk::new();
    {
        let mut parser = Parser::new(tokens_of(source), &mut by_hand);
        parser.advance();
        parser.parse_precedence(Precedence::Assignment).unwrap();
        parser.consume(TokenType::Eof, "Expect end of expression").unwrap();
        parser.emit_u8(OP_RETURN);
    }
    let chunk = compiled(source);
    assert_eq!(by_hand.bytecode, chunk.bytecode);
    assert_eq!(constants(&by_hand), constants(&chunk));
}

#[test]
fn instructions_carry_the_line_of_the_token_read_last() {
    let chunk = compiled("1 +\n2\n*\n\n3");
    assert_eq!(
        chunk.bytecode,
        vec![
            Instruction { opcode: OpCode::Constant(0), line: 1 },
            Instruction { opcode: OpCode::Constant(1), line: 2 },
            Instruction { opcode: OpCode::Constant(2), line: 5 },
            Instruction { opcode: OpCode::Multiplication, line: 5 },
            Instruction { opcode: OpCode::Addition, line: 5 },
            Instruction { opcode: OpCode::Return, line: 5 },
        ]
    );
}

#[test]
fn compile_appends_to_what_the_chunk_holds() {
    let mut chunk = Chunk::new();
    compile("1".to_string(), &mut chunk, decode).unwrap();
    compile("2 + 3".to_string(), &mut chunk, decode).unwrap();
    assert_eq!(
        opcodes(&chunk),
        vec![
            OpCode::Constant(0),
            OpCode::Return,
            OpCode::Constant(1),
            OpCode::Constant(2),
            OpCode::Addition,
            OpCode::Return,
        ]
    );
    assert_eq!(constants(&chunk), vec![1.0, 2.0, 3.0]);
}

#[test]
fn parse_errors_name_what_was_expected_and_the_line() {
    assert_eq!(failure(""), "Compile error: Expect expression on line 0");
    assert_eq!(failure("1 +"), "Compile error: Expect expression on line 0");
    assert_eq!(failure("\n\n)"), "Compile error: Expect expression on line 3");
    assert_eq!(failure("1 + *"), "Compile error: Expect expression on line 1");
    assert_eq!(failure("-"), "Compile error: Expect expression on line 0");
    assert_eq!(failure("("), "Compile error: Expect expression on line 0");
    assert_eq!(
        failure("(1"),
        "Compile error: Expect ')' after expression on line 0"
    );
    assert_eq!(
        failure("(1 2"),
        "Compile error: Expect ')' after expression on line 1"
    );
    assert_eq!(
        failure("1\n2"),
        "Compile error: Expect end of expression on line 2"
    );
    assert_eq!(
        failure("1 )"),
        "Compile error: Expect end of expression on line 1"
    );
    assert_eq!(
        failure("a"),
        "Compile error: Expect expression on line 1"
    );
}

#[test]
fn a_failed_compile_leaves_what_was_written_before_the_error() {
    let mut chunk = Chunk::new();
    assert!(compile("1 + 2 )".to_string(), &mut chunk, decode).is_err());
    assert_eq!(
        opcodes(&chunk),
        vec![OpCode::Constant(0), OpCode::Constant(1), OpCode::Addition]
    );
}

#[test]
fn scan_errors_become_compile_errors_with_the_same_message() {
    assert_eq!(failure("1 + @"), "Compile error: Invalid token: @");
    assert_eq!(
        failure("1 +\n\"abc"),
        "Compile error: Unterminated string on line 2"
    );
    assert_eq!(
        failure("1 /* \n\n"),
        "Compile error: Unterminated multi-line comment on line 3"
    );
    let error = CompileError::from(ScanError::InvalidToken('$'));
    assert_eq!(error.to_string(), "Compile error: Invalid token: $");
    let mut chunk = Chunk::new();
    assert!(compile("1 + @".to_string(), &mut chunk, decode).is_err());
    assert!(chunk.bytecode.is_empty());
    assert!(chunk.constants.is_empty());
}

fn sum_of(count: usize) -> String {
    let mut text = String::from("0");
    for index in 1..count {
        text.push_str(" + ");
        text.push_str(&index.to_string());
    }
    text
}

#[test]
fn the_pool_takes_256_constants_and_no_more() {
    let chunk = compiled(&sum_of(256));
    assert_eq!(chunk.constants.len(), 256);
    assert_eq!(chunk.bytecode[509].opcode, OpCode::Constant(255));
    assert_eq!(chunk.bytecode.len(), 512);
    assert_eq!(f64::from_bits(chunk.constants[255].to_bits()), 255.0);

    assert_eq!(
        failure(&sum_of(257)),
        "Compile error: Too many constants in one chunk"
    );
    let mut chunk = Chunk::new();
    assert!(compile(sum_of(257), &mut chunk, decode).is_err());
    assert_eq!(chunk.constants.len(), 256);
}

#[test]
fn add_constant_returns_the_place_of_the_value() {
    let mut chunk = Chunk::new();
    for index in 0..256 {
        let place = chunk.add_constant(number(index as f64)).unwrap();
        assert_eq!(place as usize, index);
    }
    let error = chunk.add_constant(number(256.0)).unwrap_err();
    assert_eq!(
        error.to_string(),
        "Compile error: Too many constants in one chunk"
    );
    assert_eq!(chunk.constants.len(), 256);
    assert_eq!(chunk.constants[7], number(7.0));
    assert!(chunk.bytecode.is_empty());
}

#[test]
fn a_new_chunk_is_empty() {
    let chunk = Chunk::new();
    assert!(chunk.bytecode.is_empty());
    assert!(chunk.constants.is_empty());
}

#[test]
fn write_op_appends_without_checking() {
    let mut chunk = Chunk::new();
    chunk.write_op(OpCode::Constant(9), 3);
    chunk.write_op(OpCode::Return, 4);
    assert_eq!(
        chunk.bytecode,
        vec![
            Instruction { opcode: OpCode::Constant(9), line: 3 },
            Instruction { opcode: OpCode::Return, line: 4 },
        ]
    );
    assert!(chunk.constants.is_empty());
}

fn token(token_type: TokenType, line: u32) -> Token {
    Token { token_type, line }
}

#[test]
fn advance_hands_out_the_tokens_and_then_the_end_of_input() {
    let mut chunk = Chunk::new();
    let mut parser = Parser::new(
        vec![token(TokenType::Plus, 3), token(TokenType::Minus, 4)],
        &mut chunk,
    );
    let first = parser.advance();
    assert_eq!(first.token_type, TokenType::Plus);
    assert_eq!(first.line, 3);
    assert_eq!(parser.previous_token().token_type, TokenType::Plus);
    let second = parser.advance();
    assert_eq!(second.token_type, TokenType::Minus);
    assert_eq!(parser.previous_token().line, 4);
    for _ in 0..2 {
        let end = parser.advance();
        assert_eq!(end.token_type, TokenType::Eof);
        assert_eq!(end.line, 0);
        assert_eq!(parser.current, 2);
        assert_eq!(parser.previous_token().token_type, TokenType::Minus);
    }
}

#[test]
fn consume_reads_the_token_whether_it_matches_or_not() {
    let mut chunk = Chunk::new();
    let mut parser = Parser::new(
        vec![token(TokenType::RightParen, 1), token(TokenType::Comma, 7)],
        &mut chunk,
    );
    let found = parser.consume(TokenType::RightParen, "Expect ')'").unwrap();
    assert_eq!(found.token_type, TokenType::RightParen);
    let error = parser.consume(TokenType::RightParen, "Expect ')'").unwrap_err();
    assert_eq!(error.to_string(), "Compile error: Expect ')' on line 7");
    assert_eq!(parser.current, 2);
    assert!(parser.consume(TokenType::Eof, "Expect end").is_ok());
    let error = parser.consume(TokenType::Comma, "Expect ','").unwrap_err();
    assert_eq!(error.to_string(), "Compile error: Expect ',' on line 0");
}

#[test]
fn number_wants_a_number() {
    let mut chunk = Chunk::new();
    {
        let mut parser = Parser::new(
            vec![
                token(TokenType::Number(number(1.5)), 2),
                token(TokenType::Plus, 9),
            ],
            &mut chunk,
        );
        parser.advance();
        parser.number().unwrap();
        parser.advance();
        let error = parser.number().unwrap_err();
        assert_eq!(error.to_string(), "Compile error: Expected number on line 9");
    }
    assert_eq!(
        chunk.bytecode,
        vec![Instruction { opcode: OpCode::Constant(0), line: 2 }]
    );
    assert_eq!(constants(&chunk), vec![1.5]);
}

#[test]
fn unary_wants_a_minus() {
    let mut chunk = Chunk::new();
    {
        let mut parser = Parser::new(tokens_of("- 1"), &mut chunk);
        parser.advance();
        parser.unary().unwrap();
    }
    assert_eq!(opcodes(&chunk), vec![OpCode::Constant(0), OpCode::Negate]);

    let mut chunk = Chunk::new();
    let mut parser = Parser::new(tokens_of("\n+ 1"), &mut chunk);
    parser.advance();
    let error = parser.unary().unwrap_err();
    assert_eq!(
        error.to_string(),
        "Compile error: Expected unary operator on line 2"
    );
}

#[test]
fn binary_wants_an_operator() {
    let mut chunk = Chunk::new();
    {
        let mut parser = Parser::new(tokens_of("* 2 * 3 + 4"), &mut chunk);
        parser.advance();
        parser.binary().unwrap();
        assert_eq!(parser.current, 2);
    }
    assert_eq!(opcodes(&chunk), vec![OpCode::Constant(0), OpCode::Multiplication]);

    let mut chunk = Chunk::new();
    {
        let mut parser = Parser::new(tokens_of("+ 2 * 3 + 4"), &mut chunk);
        parser.advance();
        parser.binary().unwrap();
        assert_eq!(parser.current, 4);
    }
    assert_eq!(
        opcodes(&chunk),
        vec![
            OpCode::Constant(0),
            OpCode::Constant(1),
            OpCode::Multiplication,
            OpCode::Addition,
        ]
    );

    let mut chunk = Chunk::new();
    let mut parser = Parser::new(tokens_of("( 1"), &mut chunk);
    parser.advance();
    let error = parser.binary().unwrap_err();
    assert_eq!(
        error.to_string(),
        "Compile error: Expected binary operator on line 1"
    );
}

#[test]
fn grouping_wants_an_expression_and_a_closing_parenthesis() {
    let mut chunk = Chunk::new();
    {
        let mut parser = Parser::new(tokens_of("( 1 + 2 ) 3"), &mut chunk);
        parser.advance();
        parser.grouping().unwrap();
        assert_eq!(parser.current, 5);
    }
    assert_eq!(
        opcodes(&chunk),
        vec![OpCode::Constant(0), OpCode::Constant(1), OpCode::Addition]
    );
}

#[test]
fn parse_precedence_stops_at_operators_that_bind_less() {
    let mut chunk = Chunk::new();
    {
        let mut parser = Parser::new(tokens_of("1 * 2 + 3"), &mut chunk);
        parser.advance();
        parser.parse_precedence(Precedence::Factor).unwrap();
        assert_eq!(parser.current, 3);
    }
    assert_eq!(
        opcodes(&chunk),
        vec![OpCode::Constant(0), OpCode::Constant(1), OpCode::Multiplication]
    );

    let mut chunk = Chunk::new();
    {
        let mut parser = Parser::new(tokens_of("1 * 2 + 3"), &mut chunk);
        parser.advance();
        parser.parse_precedence(Precedence::Unary).unwrap();
        assert_eq!(parser.current, 1);
    }
    assert_eq!(opcodes(&chunk), vec![OpCode::Constant(0)]);

    let mut chunk = Chunk::new();
    {
        let mut parser = Parser::new(tokens_of("1 * 2 + 3"), &mut chunk);
        parser.advance();
        parser.expression().unwrap();
        assert_eq!(parser.current, 5);
    }
}

#[test]
fn emitting_bytes_writes_the_instructions_they_stand_for() {
    let mut chunk = Chunk::new();
    {
        let mut parser = Parser::new(vec![token(TokenType::Plus, 6)], &mut chunk);
        parser.emit_u8(OP_RETURN);
        parser.advance();
        parser.emit_u8(OP_NEGATE);
        parser.emit_u8(OP_CONSTANT);
        parser.emit_u8(77);
        parser.emit_two_u8(OP_CONSTANT, 5);
        parser.emit_two_u8(OP_ADD, OP_INVALID);
        parser.emit_constant(number(2.5)).unwrap();
    }
    assert_eq!(
        chunk.bytecode,
        vec![
            Instruction { opcode: OpCode::Return, line: 0 },
            Instruction { opcode: OpCode::Negate, line: 6 },
            Instruction { opcode: OpCode::Invalid, line: 6 },
            Instruction { opcode: OpCode::Invalid, line: 6 },
            Instruction { opcode: OpCode::Constant(5), line: 6 },
            Instruction { opcode: OpCode::Addition, line: 6 },
            Instruction { opcode: OpCode::Invalid, line: 6 },
            Instruction { opcode: OpCode::Constant(0), line: 6 },
        ]
    );
    assert_eq!(constants(&chunk), vec![2.5]);
}

#[test]
fn opcodes_have_their_bytes_and_names() {
    let table: Vec<(OpCode, u8, &str)> = vec![
        (OpCode::Return, 0, "OP_RETURN"),
        (OpCode::Constant(3), 1, "OP_CONSTANT"),
        (OpCode::Addition, 2, "OP_ADD"),
        (OpCode::Subtraction, 3, "OP_SUBTRACT"),
        (OpCode::Multiplication, 4, "OP_MULTIPLY"),
        (OpCode::Division, 5, "OP_DIVIDE"),
        (OpCode::Negate, 6, "OP_NEGATE"),
        (OpCode::Invalid, 255, "OP_INVALID"),
    ];
    for (op, byte, name) in table {
        let encoded: u8 = op.into();
        assert_eq!(encoded, byte);
        assert_eq!(u8::from(op), byte);
        assert_eq!(op.to_string(), name);
        assert_eq!(op.mnemonic(), name);
        if byte != 1 {
            assert_eq!(OpCode::from_byte(byte), op);
        }
    }
    assert_eq!(OpCode::from_byte(1), OpCode::Invalid);
    assert_eq!(OpCode::from_byte(7), OpCode::Invalid);
    assert_eq!(OpCode::from_byte(200), OpCode::Invalid);
}

#[test]
fn precedences_are_ordered_from_loosest_to_tightest() {
    let order = vec![
        Precedence::Lowest,
        Precedence::Assignment,
        Precedence::Or,
        Precedence::And,
        Precedence::Equality,
        Precedence::Comparison,
        Precedence::Term,
        Precedence::Factor,
        Precedence::Unary,
        Precedence::Call,
        Precedence::Primary,
    ];
    for (index, precedence) in order.iter().enumerate() {
        assert_eq!(precedence.rank() as usize, index);
        if index + 1 < order.len() {
            assert_eq!(precedence.next(), order[index + 1]);
        }
    }
    assert_eq!(Precedence::Primary.next(), Precedence::Primary);
}
