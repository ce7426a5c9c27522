use rlox::chunk::Chunk;
use rlox::compiler::compile;
use rlox::disassembler::{disassemble_chunk, disassemble_instruction};
use rlox::op_codes::OpCode;
use rlox::value::Value;

fn decode(text: &str) -> Value {
    Value::from_bits(text.parse::<f64>().expect("Invalid number").to_bits())
}

fn number(value: f64) -> Value {
    Value::from_bits(value.to_bits())
}

fn render(value: Value) -> String {
    format!("{}", f64::from_bits(value.to_bits()))
}

fn listing(text: &str) -> String {
    let mut chunk = Chunk::new();
    compile(text.to_string(), &mut chunk, decode).unwrap();
    disassemble_chunk(&chunk, "Test Chunk", render)
}

#[test]
fn the_listing_has_the_documented_form() {
    let mut chunk = Chunk::new();
    chunk.add_constant(number(3.4)).unwrap();
    chunk.add_constant(number(1.2)).unwrap();
    chunk.write_op(OpCode::Constant(0), 1);
    chunk.write_op(OpCode::Constant(1), 1);
    chunk.write_op(OpCode::Addition, 1);
    chunk.write_op(OpCode::Return, 3);
    assert_eq!(
        disassemble_chunk(&chunk, "Test Chunk", render),
        "== Test Chunk ==\n\
         0000 0001 OP_CONSTANT      '3.4'\n\
         0001    | OP_CONSTANT      '1.2'\n\
         0002    | OP_ADD\n\
         0003 0003 OP_RETURN\n"
    );
}

#[test]
fn an_empty_chunk_lists_as_its_heading() {
    assert_eq!(disassemble_chunk(&Chunk::new(), "", render), "==  ==\n");
    assert_eq!(disassemble_chunk(&Chunk::new(), "a b", render), "== a b ==\n");
}

#[test]
fn a_repeated_line_shows_a_stroke_and_a_new_line_its_number() {
    let mut chunk = Chunk::new();
    for line in [7, 7, 8, 8, 8, 7, 12345, 12345, 0, 0] {
        chunk.write_op(OpCode::Negate, line);
    }
    assert_eq!(
        disassemble_chunk(&chunk, "lines", render),
        "== lines ==\n\
         0000 0007 OP_NEGATE\n\
         0001    | OP_NEGATE\n\
         0002 0008 OP_NEGATE\n\
         0003    | OP_NEGATE\n\
         0004    | OP_NEGATE\n\
         0005 0007 OP_NEGATE\n\
         0006 12345 OP_NEGATE\n\
         0007    | OP_NEGATE\n\
         0008 0000 OP_NEGATE\n\
         0009    | OP_NEGATE\n"
    );
}

#[test]
fn a_freshly_compiled_chunk_lists_its_operations_in_program_order() {
    let text = listing("3.4 + 1.2 - 0.0");
    let lines: Vec<&str> = text.lines().collect();
    assert_eq!(
        lines,
        vec![
            "== Test Chunk ==",
            "0000 0001 OP_CONSTANT      '3.4'",
            "0001    | OP_CONSTANT      '1.2'",
            "0002    | OP_ADD",
            "0003    | OP_CONSTANT      '0'",
            "0004    | OP_SUBTRACT",
            "0005    | OP_RETURN",
        ]
    );
    assert_eq!(text.matches("OP_ADD").count(), 1);
    assert_eq!(text.matches("OP_SUBTRACT").count(), 1);
    assert_eq!(text.matches("OP_CONSTANT").count(), 3);
}

#[test]
fn every_opcode_is_listed_by_its_name() {
    let mut chunk = Chunk::new();
    chunk.add_constant(number(-2.5)).unwrap();
    for op in [
        OpCode::Return,
        OpCode::Constant(0),
        OpCode::Addition,
        OpCode::Subtraction,
        OpCode::Multiplication,
        OpCode::Division,
        OpCode::Negate,
        OpCode::Invalid,
        OpCode::Constant(1),
    ] {
        chunk.write_op(op, 1);
    }
    assert_eq!(
        disassemble_chunk(&chunk, "all", render),
        "== all ==\n\
         0000 0001 OP_RETURN\n\
         0001    | OP_CONSTANT      '-2.5'\n\
         0002    | OP_ADD\n\
         0003    | OP_SUBTRACT\n\
         0004    | OP_MULTIPLY\n\
         0005    | OP_DIVIDE\n\
         0006    | OP_NEGATE\n\
         0007    | OP_INVALID\n\
         0008    | OP_CONSTANT\n"
    );
}

#[test]
fn disassemble_instruction_appends_one_line_and_returns_the_next_offset() {
    let mut chunk = Chunk::new();
    chunk.add_constant(number(1.0)).unwrap();
    chunk.write_op(OpCode::Constant(0), 4);
    chunk.write_op(OpCode::Return, 4);
    let mut text = String::from("> ");
    assert_eq!(disassemble_instruction(&chunk, 0, &mut text, &render), 1);
    assert_eq!(text, "> 0000 0004 OP_CONSTANT      '1'");
    let mut text = String::new();
    assert_eq!(disassemble_instruction(&chunk, 1, &mut text, &render), 2);
    assert_eq!(text, "0001    | OP_RETURN");
}

#[test]
fn offsets_beyond_four_digits_are_written_in_full() {
    let mut chunk = Chunk::new();
    for _ in 0..10001 {
        chunk.write_op(OpCode::Negate, 1);
    }
    let text = disassemble_chunk(&chunk, "long", render);
    let lines: Vec<&str> = text.lines().collect();
    assert_eq!(lines[10000], "9999    | OP_NEGATE");
    assert_eq!(lines[10001], "10000    | OP_NEGATE");
}

#[test]
fn the_caller_decides_how_a_value_is_written() {
    let mut chunk = Chunk::new();
    chunk.add_constant(Value::from_bits(7)).unwrap();
    chunk.write_op(OpCode::Constant(0), 1);
    let text = disassemble_chunk(&chunk, "bits", |value: Value| {
        format!("#{}", value.to_bits())
    });
    assert_eq!(text, "== bits ==\n0000 0001 OP_CONSTANT      '#7'\n");
}
