use clox::scanner::number_literals;
use clox::value::Value;
use clox::vm::{Arith, Effect, Error, Vm};

struct Run {
    output: Vec<String>,
    diagnostics: Vec<String>,
    result: Result<(), Error>,
}

fn show(value: &Value) -> String {
    match value {
        Value::Nil => String::from("nil"),
        Value::Bool(b) => format!("{}", b),
        Value::Number(bits) => format!("{}", f64::from_bits(*bits)),
        Value::String(s) => String::from(s.as_str()),
    }
}

fn literals_of(source: &str) -> Vec<u64> {
    number_literals(source).iter().map(|text| text.parse::<f64>().unwrap().to_bits()).collect()
}

fn apply(op: Arith, a: u64, b: u64) -> u64 {
    let (a, b) = (f64::from_bits(a), f64::from_bits(b));
    let r = match op {
        Arith::Add => a + b,
        Arith::Subtract => a - b,
        Arith::Multiply => a * b,
        Arith::Divide => a / b,
    };
    r.to_bits()
}

fn interpret(vm: &mut Vm, source: &str) -> Run {
    let mut run = Run { output: Vec::new(), diagnostics: Vec::new(), result: Ok(()) };
    let literals = literals_of(source);
    if let Err(error) = vm.interpret(source, &literals) {
        run.result = Err(error);
        return run;
    }
    for _ in 0..100_000 {
        match vm.step() {
            Effect::Continue => {}
            Effect::Print(value) => run.output.push(show(&value)),
            Effect::Arithmetic(op, a, b) => {
                assert!(vm.resume(apply(op, a, b)));
            }
            Effect::Halt => return run,
            Effect::RuntimeError { message, line } => {
                run.diagnostics.push(message);
                run.diagnostics.push(format!("[line {}] in script", line));
                run.result = Err(Error::Runtime);
                return run;
            }
            Effect::UnknownInstruction(byte) => panic!("unknown instruction: {}", byte),
            Effect::Fault(fault) => panic!("malformed chunk: {:?}", fault),
        }
    }
    panic!("the program did not end");
}

fn run(source: &str) -> Run {
    let mut vm = Vm::default();
    interpret(&mut vm, source)
}

fn prints(source: &str) -> Vec<String> {
    let run = run(source);
    assert!(run.result.is_ok(), "{:?}", run.diagnostics);
    run.output
}

#[test]
fn arithmetic_follows_precedence() {
    assert_eq!(prints("print 1 + 2 * 3;"), vec!["7"]);
}

#[test]
fn strings_concatenate() {
    assert_eq!(prints("var a = \"hi\"; var b = \"!\"; print a + b;"), vec!["hi!"]);
}

#[test]
fn for_loop_sums() {
    assert_eq!(
        prints("var x = 0; for (var i = 0; i < 3; i = i + 1) { x = x + i; } print x;"),
        vec!["3"]
    );
}

#[test]
fn inner_scope_shadows() {
    assert_eq!(prints("var a = 1; { var a = 2; print a; } print a;"), vec!["2", "1"]);
}

#[test]
fn equality_is_by_kind_and_content() {
    assert_eq!(
        prints("print 1 == 1; print 1 == \"1\"; print nil == false;"),
        vec!["true", "false", "false"]
    );
}

#[test]
fn undefined_variable_is_a_runtime_error() {
    let run = run("print undefined_var;");
    assert!(matches!(run.result, Err(Error::Runtime)));
    assert!(run.output.is_empty());
    assert_eq!(run.diagnostics[0], "Undefined variable 'undefined_var'");
    assert_eq!(run.diagnostics[1], "[line 1] in script");
}

#[test]
fn and_skips_its_right_operand_after_false() {
    assert_eq!(prints("var a = 1; false and (a = 2); print a;"), vec!["1"]);
    assert_eq!(prints("var a = 1; print false and (a = 2);"), vec!["false"]);
    assert_eq!(prints("var a = 1; print true and (a = 2); print a;"), vec!["2", "2"]);
}

#[test]
fn or_skips_its_right_operand_after_true() {
    assert_eq!(prints("var a = 1; true or (a = 2); print a;"), vec!["1"]);
    assert_eq!(prints("var a = 1; print nil or (a = 2); print a;"), vec!["2", "2"]);
}

#[test]
fn blocks_leave_the_stack_as_they_found_it() {
    assert_eq!(
        prints("{ var a = 1; { var b = 2; var c = 3; print a + b + c; } var d = 4; print a + d; } print 0;"),
        vec!["6", "5", "0"]
    );
}

#[test]
fn statements_leave_the_stack_empty_at_top_level() {
    let source = "var a = 1; { var b = a + 1; { var c = b; print c; } if (b > a) { var d = 4; } } for (var i = 0; i < 2; i = i + 1) { var e = i; } print a;";
    let mut vm = Vm::default();
    let run = interpret(&mut vm, source);
    assert!(run.result.is_ok());
    assert_eq!(run.output, vec!["2", "1"]);
    assert!(vm.stack().is_empty());
}

#[test]
fn zero_and_the_empty_string_are_truthy() {
    assert_eq!(
        prints("if (0) print \"zero\"; if (\"\") print \"empty\"; if (nil) print \"nil\"; if (false) print \"false\"; print !0; print !\"\";"),
        vec!["zero", "empty", "false", "false"]
    );
}

#[test]
fn assignment_is_an_expression_and_binds_to_the_right() {
    assert_eq!(prints("var a; var b; a = b = 3; print a; print b; print a = 4;"), vec!["3", "3", "4"]);
}

#[test]
fn operators_of_one_level_group_to_the_left() {
    assert_eq!(prints("print 10 - 4 - 3; print 24 / 4 / 2; print 1 - 2 * 3 + 4;"), vec!["3", "3", "-1"]);
}

#[test]
fn while_loop_counts() {
    assert_eq!(prints("var i = 0; while (i < 3) { print i; i = i + 1; }"), vec!["0", "1", "2"]);
}

#[test]
fn if_takes_one_branch() {
    assert_eq!(prints("if (1 < 2) print \"yes\"; else print \"no\";"), vec!["yes"]);
    assert_eq!(prints("if (2 < 1) print \"yes\"; else print \"no\";"), vec!["no"]);
    assert_eq!(prints("if (nil) print \"yes\"; print \"after\";"), vec!["after"]);
}

#[test]
fn for_loop_without_clauses_needs_none() {
    assert_eq!(
        prints("var i = 0; for (; i < 2;) { print i; i = i + 1; }"),
        vec!["0", "1"]
    );
}

#[test]
fn comparisons_and_negation() {
    assert_eq!(
        prints("print 1 < 2; print 2 <= 2; print 3 > 4; print 4 >= 5; print 1 != 2; print !nil; print -(1 - 3);"),
        vec!["true", "true", "false", "false", "true", "true", "2"]
    );
}

#[test]
fn numbers_print_in_shortest_form() {
    assert_eq!(prints("print 3 / 2; print 10 / 5; print 0.1 + 0.2;"), vec!["1.5", "2", "0.30000000000000004"]);
}

#[test]
fn globals_outlive_a_run() {
    let mut vm = Vm::default();
    assert!(interpret(&mut vm, "var a = 41;").result.is_ok());
    let second = interpret(&mut vm, "a = a + 1; print a;");
    assert!(second.result.is_ok());
    assert_eq!(second.output, vec!["42"]);
}

#[test]
fn redeclaring_a_global_without_initializer_resets_it() {
    assert_eq!(prints("var a = 1; var a; print a;"), vec!["nil"]);
}

#[test]
fn assigning_an_undefined_global_is_a_runtime_error() {
    let run = run("a = 1;");
    assert!(matches!(run.result, Err(Error::Runtime)));
    assert_eq!(run.diagnostics[0], "Undefined variable 'a'");
}

#[test]
fn adding_a_number_to_a_string_is_a_runtime_error() {
    let run = run("print 1;\nprint 1 + \"a\";");
    assert!(matches!(run.result, Err(Error::Runtime)));
    assert_eq!(run.output, vec!["1"]);
    assert_eq!(run.diagnostics[0], "Operands must be numbers.");
    assert_eq!(run.diagnostics[1], "[line 2] in script");
}

#[test]
fn comparing_strings_is_a_runtime_error() {
    let run = run("print \"a\" < \"b\";");
    assert!(matches!(run.result, Err(Error::Runtime)));
    assert_eq!(run.diagnostics[0], "Operands must be numbers.");
}

#[test]
fn negating_a_string_is_a_runtime_error() {
    let run = run("print -\"a\";");
    assert!(matches!(run.result, Err(Error::Runtime)));
    assert_eq!(run.diagnostics[0], "Operand must be a number.");
}

#[test]
fn nan_is_not_equal_to_itself() {
    assert_eq!(prints("var n = 0 / 0; print n == n; print n < 1; print n > 1;"), vec!["false", "false", "false"]);
}
