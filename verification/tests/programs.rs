use dr_script::io::IoBuffer;
use dr_script::program::execute_dr_code;

fn run_with(code: &str, inputs: Vec<&str>) -> String {
    let io = IoBuffer::new(inputs.into_iter().map(|s| s.to_string()).collect());
    let out = execute_dr_code(code, io);
    out.io.output().clone()
}

fn run(code: &str) -> String {
    run_with(code, vec![])
}

#[test]
fn print_arithmetic_with_precedence() {
    assert_eq!(run("print(1 + 2 * 3);"), "7\n");
    assert_eq!(run("print((1 + 2) * 3);"), "9\n");
    assert_eq!(run("print(7 / 2, 0 - 7 / 2);"), "3-3\n");
}

#[test]
fn print_writes_each_argument_then_newline() {
    assert_eq!(run("print(1, \"a\", 2);"), "1a2\n");
    assert_eq!(run("print();"), "\n");
}

#[test]
fn string_concatenation_and_mixed_plus() {
    assert_eq!(run("print(\"ab\" + \"cd\");"), "abcd\n");
    assert_eq!(run("print(\"n=\" + 5);"), "n=5\n");
    assert_eq!(run("print(5 + \"!\");"), "5!\n");
}

#[test]
fn string_repetition() {
    assert_eq!(run("print(\"ab\" * 3);"), "ababab\n");
    assert_eq!(run("print(2 * \"x\");"), "xx\n");
}

#[test]
fn len_counts_bytes() {
    assert_eq!(run("var text = \"Hello\";\nprint(len(text));"), "5\n");
    assert_eq!(run("ver text2 = \"Привет\";\nprint(len(text2));"), "12\n");
}

#[test]
fn chars_counts_characters() {
    assert_eq!(run("var text = \"Hello\";\nprint(chars(text));"), "5\n");
    assert_eq!(run("ver text2 = \"Привет\";\nprint(chars(text2));"), "6\n");
}

#[test]
fn int_converts_string() {
    assert_eq!(run("var text = \"123\";\nver num = int(text);\nprint(num + 10);"), "133\n");
    assert_eq!(run("print(int(\"-42\"));"), "-42\n");
}

#[test]
fn int_of_str_gives_the_number_back() {
    assert_eq!(run("print(int(str(0 - 9876)));"), "-9876\n");
    assert_eq!(run("print(int(str(42)) == 42);"), "1\n");
}

#[test]
fn str_converts_number() {
    assert_eq!(run("var num = 42;\nver text = str(num);\nprint(\"Число: \" + text);"), "Число: 42\n");
}

#[test]
fn type_names_kinds() {
    assert_eq!(run("print(type(42));"), "int\n");
    assert_eq!(run("print(type(\"hello\"));"), "string\n");
}

#[test]
fn random_stays_in_range() {
    let out = run("ver i = 0;\nwhile i < 50 {\nver d = random(1, 7);\nif d < 1 { print(\"low\"); }\nif d >= 7 { print(\"high\"); }\ni = i + 1;\n}\nprint(\"done\");");
    assert_eq!(out, "done\n");
}

#[test]
fn random_with_empty_range_fails() {
    let out = run("print(random(5, 5));");
    assert_eq!(out, "Runtime Error: Fault { message: \"cannot sample empty range\" }");
}

#[test]
fn input_reads_line_after_prompt() {
    let io = IoBuffer::new(vec!["Ann".to_string()]);
    let out = execute_dr_code("ver name = input(\"Name: \");\nprint(\"Hi, \" + name);", io);
    assert_eq!(out.io.output(), "Hi, Ann\n");
}

#[test]
fn input_without_prompt() {
    assert_eq!(run_with("ver age = input();\nprint(age);", vec!["33"]), "33\n");
}

#[test]
fn inputint_reads_number() {
    assert_eq!(run_with("ver num = inputint();\nprint(num + 10);", vec!["5"]), "15\n");
}

#[test]
fn inputint_rejects_text() {
    let out = run_with("ver num = inputint(\"n: \");", vec!["abc"]);
    assert!(out.starts_with("Runtime Error: IoErrorMassage { name: \"inputint\""));
    assert!(out.contains("Invalid input, to convert a string to a number, turn what you type"));
}

#[test]
fn input_without_line_is_io_error() {
    let out = run("ver x = input();");
    assert!(out.starts_with("Runtime Error: IoError { name: \"input\""));
}

#[test]
fn time_gives_milliseconds() {
    let out = run("ver t = time();\nprint(t > 1600000000000);");
    assert_eq!(out, "1\n");
}

#[test]
fn var_cannot_be_reassigned() {
    let out = run("var x = 1;\nx = 2;");
    assert!(out.starts_with("Runtime Error: ImmutableAssignment { name: \"x\""), "{}", out);
}

#[test]
fn ver_can_be_reassigned_and_read_back() {
    assert_eq!(run("ver x = 1;\nx = 2;\nprint(x);"), "2\n");
}

#[test]
fn increments_and_decrements() {
    assert_eq!(run("ver x = 1;\nprint(x++);\nprint(x);\nprint(++x);\nprint(x--);\nprint(--x);"), "1\n2\n3\n3\n1\n");
}

#[test]
fn functions_return_values() {
    assert_eq!(run("fun add(a, b) { return a + b; }\nprint(add(2, 3));"), "5\n");
    assert_eq!(run("fun nothing() { }\nprint(nothing());"), "0\n");
}

#[test]
fn recursive_function() {
    assert_eq!(run("fun fact(n) { if n <= 1 { return 1; } return n * fact(n - 1); }\nprint(fact(10));"), "3628800\n");
}

#[test]
fn while_and_for_loops() {
    assert_eq!(run("ver i = 0;\nwhile i < 3 { print(i); i = i + 1; }"), "0\n1\n2\n");
    assert_eq!(run("for (i = 0; i < 3; i++) { print(i); }"), "0\n1\n2\n");
}

#[test]
fn if_else_branches() {
    assert_eq!(run("if 1 < 2 { print(\"yes\"); } else { print(\"no\"); }"), "yes\n");
    assert_eq!(run("if 2 < 1 { print(\"yes\"); } else { print(\"no\"); }"), "no\n");
}

#[test]
fn comparisons_give_zero_or_one() {
    assert_eq!(run("print(1 < 2, 2 > 1, 2 <= 2, 3 >= 4, 1 == 1, 1 != 1);"), "111010\n");
    assert_eq!(run("print(\"a\" < \"b\", \"b\" > \"a\", \"a\" == \"a\");"), "111\n");
}

#[test]
fn int_and_string_are_unordered() {
    assert_eq!(run("print(1 < \"1\", 1 > \"1\", 1 == \"1\", 1 != \"1\");"), "0001\n");
}

#[test]
fn return_at_top_level_ends_program() {
    assert_eq!(run("print(1);\nreturn 0;\nprint(2);"), "1\n");
}

#[test]
fn division_by_zero_is_reported() {
    assert_eq!(run("print(1 / 0);"), "Runtime Error: DivisionByZero");
}

#[test]
fn overflow_is_reported() {
    let out = run("print(9223372036854775807 + 1);");
    assert_eq!(out, "Runtime Error: Fault { message: \"attempt to add with overflow\" }");
}

#[test]
fn undefined_variable_is_reported() {
    let out = run("print(y);");
    assert!(out.starts_with("Runtime Error: UndefinedVariable { name: \"y\""), "{}", out);
}

#[test]
fn undefined_function_is_reported() {
    let out = run("nope(1);");
    assert!(out.starts_with("Runtime Error: UndefinedFunction { name: \"nope\""), "{}", out);
}

#[test]
fn argument_count_is_checked() {
    assert_eq!(run("print(len(\"a\", \"b\"));"), "Runtime Error: ArgumentMismatch { expected: 1, got: 2 }");
    assert_eq!(run("fun f(a) { return a; }\nprint(f());"), "Runtime Error: ArgumentMismatch { expected: 1, got: 0 }");
}

#[test]
fn output_before_error_is_kept() {
    assert_eq!(run("print(\"a\");\nprint(1 / 0);"), "a\nRuntime Error: DivisionByZero");
}

#[test]
fn parse_error_is_reported() {
    let out = run("var x = ;");
    assert!(out.starts_with("Parse Error: REPORT_START:\nERROR: "), "{}", out);
}

#[test]
fn use_runs_module_once() {
    let mut io = IoBuffer::new(vec![]);
    io.add_module("lib.dr".to_string(), "ver x = 5;\nprint(\"loaded\");".to_string());
    let out = execute_dr_code("use lib.dr;\nuse lib.dr;\nprint(x);", io);
    assert_eq!(out.io.output(), "loaded\n5\n");
}

#[test]
fn use_of_missing_module_is_reported() {
    let out = run("use nowhere.dr;");
    assert!(out.starts_with("Runtime Error: ImportNotFount { name: \"nowhere.dr\""), "{}", out);
}

#[test]
fn module_functions_are_available() {
    let mut io = IoBuffer::new(vec![]);
    io.add_module("math.dr".to_string(), "fun sq(n) { return n * n; }".to_string());
    let out = execute_dr_code("use math.dr;\nprint(sq(7));", io);
    assert_eq!(out.io.output(), "49\n");
}

#[test]
fn minus_undoes_plus() {
    assert_eq!(run("print((5 + 3) - 3, \" \", (0 - 7 + 2) - 2);"), "5 -7\n");
}

#[test]
fn function_locals_do_not_leak() {
    let out = run("fun f(a) { ver inner = a; return inner; }\nprint(f(3));\nprint(inner);");
    assert!(out.starts_with("3\nRuntime Error: UndefinedVariable { name: \"inner\""), "{}", out);
}

#[test]
fn random_draws_differ() {
    let out = run("ver a = random(0, 1000000);\nver same = 1;\nver i = 0;\nwhile i < 20 { if random(0, 1000000) != a { same = 0; } i = i + 1; }\nprint(same);");
    assert_eq!(out, "0\n");
}

#[test]
fn if_counts_any_string_as_true() {
    assert_eq!(run("if \"\" { print(1); } else { print(2); }"), "1\n");
    assert_eq!(run("if 0 { print(1); } else { print(2); }"), "2\n");
    assert_eq!(run("if 0 { print(1); }\nprint(3);"), "3\n");
}

#[test]
fn while_ends_when_condition_is_zero() {
    assert_eq!(run("ver i = 3;\nwhile i { i--; }\nprint(i);"), "0\n");
}

#[test]
fn function_definition_replaces_earlier_one() {
    assert_eq!(run("fun f() { return 1; }\nfun f() { return 2; }\nprint(f());"), "2\n");
}

#[test]
fn builtin_name_is_checked_before_functions() {
    assert_eq!(run("fun len(a, b) { return 0; }\nprint(len(\"ab\"));"), "2\n");
    assert_eq!(run("fun len(a) { return 0; }\nprint(len(\"a\", \"b\"));"), "Runtime Error: ArgumentMismatch { expected: 1, got: 2 }");
}

#[test]
fn steps_give_value_before_or_after() {
    assert_eq!(run("ver n = 5;\nprint(n++, n, ++n, n--, --n);"), "56775\n");
}

#[test]
fn step_of_unbound_name_is_reported() {
    let out = run("q++;");
    assert!(out.starts_with("Runtime Error: UndefinedVariable { name: \"q\""), "{}", out);
}

#[test]
fn assignment_to_new_name_binds_it_immutably() {
    assert_eq!(run("z = 4;\nprint(z);"), "4\n");
    let out = run("z = 4;\nz = 5;");
    assert!(out.starts_with("Runtime Error: ImmutableAssignment { name: \"z\""), "{}", out);
}
