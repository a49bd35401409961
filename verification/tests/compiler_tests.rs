use clox::chunk::{Chunk, Opcode};
use clox::compiler::compile;
use clox::compiler::parser::{Diagnostic, Place};
use clox::scanner::number_literals;

fn literals_of(source: &str) -> Vec<u64> {
    number_literals(source).iter().map(|text| text.parse::<f64>().unwrap().to_bits()).collect()
}

fn code_of(source: &str) -> Vec<u8> {
    let mut chunk = Chunk::default();
    let literals = literals_of(source);
    assert!(compile(source, &literals, &mut chunk).is_ok());
    chunk.code().to_vec()
}

fn errors_of(source: &str) -> Vec<Diagnostic> {
    let mut chunk = Chunk::default();
    let literals = literals_of(source);
    match compile(source, &literals, &mut chunk) {
        Ok(()) => panic!("compiled"),
        Err(error) => error.diagnostics,
    }
}

fn op(opcode: Opcode) -> u8 {
    opcode.as_u8()
}

#[test]
fn print_statement_compiles_to_constant_and_print() {
    assert_eq!(code_of("print 1;"), vec![op(Opcode::Constant), 0, op(Opcode::Print), op(Opcode::Return)]);
}

#[test]
fn binary_operators_come_after_their_operands() {
    assert_eq!(
        code_of("1 + 2 * 3;"),
        vec![
            op(Opcode::Constant), 0,
            op(Opcode::Constant), 1,
            op(Opcode::Constant), 2,
            op(Opcode::Multiply),
            op(Opcode::Add),
            op(Opcode::Pop),
            op(Opcode::Return),
        ]
    );
}

#[test]
fn composite_comparisons_use_not() {
    assert_eq!(
        code_of("1 <= 2;"),
        vec![op(Opcode::Constant), 0, op(Opcode::Constant), 1, op(Opcode::Greater), op(Opcode::Not), op(Opcode::Pop), op(Opcode::Return)]
    );
    assert_eq!(
        code_of("1 != 2;"),
        vec![op(Opcode::Constant), 0, op(Opcode::Constant), 1, op(Opcode::Equal), op(Opcode::Not), op(Opcode::Pop), op(Opcode::Return)]
    );
}

#[test]
fn equal_constants_share_an_id() {
    assert_eq!(
        code_of("print 1; print 1.0; print \"a\"; print \"a\";"),
        vec![
            op(Opcode::Constant), 0, op(Opcode::Print),
            op(Opcode::Constant), 0, op(Opcode::Print),
            op(Opcode::Constant), 1, op(Opcode::Print),
            op(Opcode::Constant), 1, op(Opcode::Print),
            op(Opcode::Return),
        ]
    );
}

#[test]
fn forward_jumps_are_patched_with_the_distance() {
    // JumpIfFalse at 2 with operand at 3..5, target 13: 13 - 3 - 2 = 8.
    let code = code_of("if (true) print 1; else print 2;");
    assert_eq!(
        code,
        vec![
            op(Opcode::True),
            op(Opcode::JumpIfFalse), 7, 0,
            op(Opcode::Pop),
            op(Opcode::Constant), 0,
            op(Opcode::Print),
            op(Opcode::Jump), 4, 0,
            op(Opcode::Pop),
            op(Opcode::Constant), 1,
            op(Opcode::Print),
            op(Opcode::Return),
        ]
    );
    let operand_at = 2;
    let target = 11;
    assert_eq!(code[operand_at] as usize + 256 * code[operand_at + 1] as usize, target - operand_at - 2);
}

#[test]
fn while_loops_jump_back_to_the_condition() {
    assert_eq!(
        code_of("while (false) print 1;"),
        vec![
            op(Opcode::False),
            op(Opcode::JumpIfFalse), 7, 0,
            op(Opcode::Pop),
            op(Opcode::Constant), 0,
            op(Opcode::Print),
            op(Opcode::Loop), 11, 0,
            op(Opcode::Pop),
            op(Opcode::Return),
        ]
    );
}

#[test]
fn locals_are_addressed_by_slot_and_popped_at_the_end_of_the_block() {
    assert_eq!(
        code_of("{ var a = 1; var b = a; b = 2; }"),
        vec![
            op(Opcode::Constant), 0,
            op(Opcode::GetLocal), 0,
            op(Opcode::Constant), 1,
            op(Opcode::SetLocal), 1,
            op(Opcode::Pop),
            op(Opcode::Pop),
            op(Opcode::Pop),
            op(Opcode::Return),
        ]
    );
}

#[test]
fn globals_are_named_by_constants() {
    assert_eq!(
        code_of("var a; a = a;"),
        vec![
            op(Opcode::Nil),
            op(Opcode::DefineGlobal), 0,
            op(Opcode::GetGlobal), 0,
            op(Opcode::SetGlobal), 0,
            op(Opcode::Pop),
            op(Opcode::Return),
        ]
    );
}

#[test]
fn every_byte_carries_the_line_of_its_instruction() {
    let source = "print\n1\n;\nprint 2;";
    let mut chunk = Chunk::default();
    assert!(compile(source, &literals_of(source), &mut chunk).is_ok());
    let lines: Vec<u32> = (0..chunk.len()).map(|offset| chunk.get_line(offset)).collect();
    assert_eq!(lines, vec![2, 2, 3, 4, 4, 4, 4]);
    assert_eq!(chunk.get_line_if_first(0), Some(2));
    assert_eq!(chunk.get_line_if_first(1), None);
    assert_eq!(chunk.get_line_if_first(2), Some(3));
}

#[test]
fn missing_expression_is_reported_at_the_token() {
    let errors = errors_of("print ;");
    assert_eq!(errors.len(), 1);
    assert_eq!(errors[0].line, 1);
    assert!(matches!(&errors[0].place, Place::Lexeme(text) if text == ";"));
    assert_eq!(errors[0].message, "Expect expression.");
}

#[test]
fn missing_semicolon_is_reported_at_the_end() {
    let errors = errors_of("print 1");
    assert_eq!(errors.len(), 1);
    assert!(matches!(errors[0].place, Place::End));
    assert_eq!(errors[0].message, "Expect ';' after value.");
}

#[test]
fn scanner_errors_carry_their_own_message() {
    let errors = errors_of("print @;");
    assert_eq!(errors.len(), 1);
    assert!(matches!(errors[0].place, Place::Nowhere));
    assert_eq!(errors[0].message, "Unexpected character.");
    let errors = errors_of("print \"abc");
    assert_eq!(errors[0].message, "Unterminated string.");
}

#[test]
fn invalid_assignment_target_is_an_error() {
    let errors = errors_of("var a; var b; var c; a + b = c;");
    assert_eq!(errors.len(), 1);
    assert_eq!(errors[0].message, "Invalid assignment target");
}

#[test]
fn panic_mode_reports_one_error_per_statement() {
    let errors = errors_of("print 1 2 3 4;\nprint +;\nprint 1;");
    assert_eq!(errors.len(), 2);
    assert_eq!(errors[0].line, 1);
    assert!(matches!(&errors[0].place, Place::Lexeme(text) if text == "2"));
    assert_eq!(errors[0].message, "Expect ';' after value.");
    assert_eq!(errors[1].line, 2);
    assert_eq!(errors[1].message, "Expect expression.");
}

#[test]
fn synchronizing_stops_before_a_statement_keyword() {
    let errors = errors_of("var 1 print 2 +;");
    assert_eq!(errors.len(), 2);
    assert_eq!(errors[0].message, "Expect variable name.");
    assert_eq!(errors[1].message, "Expect expression.");
}

#[test]
fn reading_a_local_in_its_own_initializer_is_an_error() {
    let errors = errors_of("{ var a = a; }");
    assert_eq!(errors[0].message, "Can't read local variable in its own initializer.");
}

#[test]
fn declaring_a_local_twice_in_one_scope_is_an_error() {
    let errors = errors_of("{ var a = 1; var a = 2; }");
    assert_eq!(errors[0].message, "Already a variable with this name in this scope.");
    assert!(code_of("{ var a = 1; { var a = 2; } }").len() > 0);
}

#[test]
fn more_than_256_locals_are_an_error() {
    let mut source = String::from("{");
    for i in 0..257 {
        source.push_str(&format!(" var v{};", i));
    }
    source.push_str(" }");
    let errors = errors_of(&source);
    assert_eq!(errors[0].message, "Too many local variables in function.");
}

#[test]
fn more_than_256_constants_are_an_error() {
    let mut source = String::new();
    for i in 0..256 {
        source.push_str(&format!("print {};", i));
    }
    assert!(code_of(&source).len() > 0);
    source.push_str("print 256;");
    let errors = errors_of(&source);
    assert_eq!(errors[0].message, "Too many constants in one chunk.");
}

#[test]
fn a_jump_over_more_than_65535_bytes_is_an_error() {
    let mut source = String::from("if (true) {");
    for _ in 0..22_000 {
        source.push_str("print 1;");
    }
    source.push_str("}");
    let errors = errors_of(&source);
    assert_eq!(errors[0].message, "Too much code to jump over.");
}

#[test]
fn a_loop_body_of_more_than_65535_bytes_is_an_error() {
    let mut source = String::from("while (true) {");
    for _ in 0..22_000 {
        source.push_str("print 1;");
    }
    source.push_str("}");
    let errors = errors_of(&source);
    assert_eq!(errors[0].message, "Loop body too large.");
}

#[test]
fn code_is_appended_to_what_the_chunk_holds() {
    let mut chunk = Chunk::default();
    chunk.write_byte(op(Opcode::Nil), 7);
    assert!(compile("print 1;", &literals_of("print 1;"), &mut chunk).is_ok());
    assert_eq!(chunk.code().to_vec(), vec![op(Opcode::Nil), op(Opcode::Constant), 0, op(Opcode::Print), op(Opcode::Return)]);
    assert_eq!(chunk.get_line(0), 7);
}

#[test]
fn a_block_pops_each_of_its_locals_once() {
    let pop = op(Opcode::Pop);
    let code = code_of("{ var a; var b; { var c; } var d; }");
    // a, b, c are nil; c is popped at the end of the inner block, then d is
    // declared, and the outer block pops d, b and a.
    assert_eq!(
        code,
        vec![op(Opcode::Nil), op(Opcode::Nil), op(Opcode::Nil), pop, op(Opcode::Nil), pop, pop, pop, op(Opcode::Return)]
    );
    let code = code_of("for (var i; false;) { var j; }");
    assert_eq!(code.iter().filter(|byte| **byte == op(Opcode::Nil)).count(), 2);
    assert_eq!(code[code.len() - 2], pop);
}
