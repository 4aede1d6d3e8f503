//! End-to-end tests of the tokenize / parse / generate pipeline, and
//! concrete checks of the properties proved in the library.

use jcc::generator::generate;
use jcc::generator::generate_expression;
use jcc::generator::get_symbol_table;
use jcc::generator::FunctionContext;
use jcc::parser::parse;
use jcc::symbols::ClassSymbolTable;
use jcc::symbols::VarKind;
use jcc::tokenizer::tokenize;
use jcc::tokenizer::Line;
use jcc::tokenizer::Token;
use jcc::tokenizer::Tokens;
use jcc::vm::render_instruction;
use jcc::vm::render_program;
use jcc::vm::Segment;
use jcc::vm::VmInstruction;

fn compile(src: &str) -> Result<Vec<VmInstruction>, String> {
    let chars: Vec<char> = src.chars().collect();
    let tokens = tokenize(&chars).map_err(|e| e.describe())?;
    let tree = parse(tokens).map_err(|e| e.describe())?;
    generate(&tree).map_err(|e| e.describe())
}

fn lines(code: &[VmInstruction]) -> Vec<String> {
    code.iter().map(render_instruction).collect()
}

#[test]
fn constructor_and_method_use_the_receiver_conventions() {
    let code = compile(
        "class Point {
           field int x;
           constructor Point new(int ax) { let x = ax; return this; }
           method int getx() { return x; }
         }",
    )
    .unwrap();
    assert_eq!(
        lines(&code),
        vec![
            "function Point.new 0",
            "push constant 1",
            "call Memory.alloc 1",
            "pop pointer 0",
            "push argument 0",
            "pop this 0",
            "push pointer 0",
            "return",
            "function Point.getx 0",
            "push argument 0",
            "pop pointer 0",
            "push this 0",
            "return",
        ]
    );
}

#[test]
fn if_else_uses_two_fresh_labels_lt_and_not() {
    let code = compile(
        "class Main {
           function void test() {
             var int a, b, c;
             if (a < b) { let c = a; } else { let c = b; }
             return;
           }
         }",
    )
    .unwrap();
    assert_eq!(
        lines(&code),
        vec![
            "function Main.test 3",
            "push local 0",
            "push local 1",
            "lt",
            "not",
            "if-goto Main.test$else0",
            "push local 0",
            "pop local 2",
            "goto Main.test$end1",
            "label Main.test$else0",
            "push local 1",
            "pop local 2",
            "label Main.test$end1",
            "push constant 0",
            "return",
        ]
    );
}

#[test]
fn direct_call_passes_the_receiver_first() {
    let code = compile(
        "class Main {
           method void bar() { do foo(1, 2); return; }
         }",
    )
    .unwrap();
    assert_eq!(
        lines(&code),
        vec![
            "function Main.bar 0",
            "push argument 0",
            "pop pointer 0",
            "push pointer 0",
            "push constant 1",
            "push constant 2",
            "call Main.foo 3",
            "pop temp 0",
            "push constant 0",
            "return",
        ]
    );
}

#[test]
fn string_literal_is_built_character_by_character() {
    let code = compile(
        "class Main {
           function void s() { do Output.printString(\"ab\"); return; }
         }",
    )
    .unwrap();
    assert_eq!(
        lines(&code),
        vec![
            "function Main.s 0",
            "push constant 2",
            "call String.new 1",
            "push constant 97",
            "call String.appendChar 2",
            "push constant 98",
            "call String.appendChar 2",
            "call Output.printString 1",
            "pop temp 0",
            "push constant 0",
            "return",
        ]
    );
}

#[test]
fn compiling_twice_yields_byte_identical_output() {
    let src = "class Main {
           static int s;
           function int inc(int v) { let s = s + v; return s; }
           method void run() { while (s < 10) { do inc(1); } return; }
         }";
    let a = compile(src).unwrap();
    let b = compile(src).unwrap();
    assert_eq!(render_program(&a), render_program(&b));
    assert_eq!(a, b);
}

#[test]
fn labels_are_unique_and_every_branch_target_is_defined() {
    let code = compile(
        "class Main {
           function void test(int a) {
             var int i;
             while (i < a) {
               if (i < 2) { let i = i + 1; } else { let i = i + 2; }
               if (a > 10) { let a = a - 1; }
             }
             while (a > 0) { let a = a - 1; }
             return;
           }
         }",
    )
    .unwrap();
    let mut labels: Vec<String> = Vec::new();
    let mut targets: Vec<String> = Vec::new();
    for ins in &code {
        match ins {
            VmInstruction::Label(l) => labels.push(l.clone()),
            VmInstruction::Goto(l) => targets.push(l.clone()),
            VmInstruction::IfGoto(l) => targets.push(l.clone()),
            _ => {}
        }
    }
    assert!(!labels.is_empty());
    for i in 0..labels.len() {
        for j in (i + 1)..labels.len() {
            assert_ne!(labels[i], labels[j]);
        }
    }
    for t in &targets {
        assert!(labels.contains(t), "undefined branch target {t}");
    }
}

#[test]
fn expression_code_leaves_one_net_value_on_the_stack() {
    let src = "(a + b) * 3 - foo(x)";
    let chars: Vec<char> = src.chars().collect();
    let tokens = tokenize(&chars).unwrap();
    let (expr, _) = jcc::parser::parse_expression(&tokens.tokens, 0).unwrap();
    let class_vars = Vec::new();
    let class_table = ClassSymbolTable::new(&class_vars);
    let params = vec![
        jcc::ast::VarDeclaration {
            var_type: jcc::ast::Type::Int,
            var_name: "a".to_string(),
        },
        jcc::ast::VarDeclaration {
            var_type: jcc::ast::Type::Int,
            var_name: "b".to_string(),
        },
        jcc::ast::VarDeclaration {
            var_type: jcc::ast::Type::Int,
            var_name: "x".to_string(),
        },
    ];
    let locals = Vec::new();
    let symbols = get_symbol_table(&class_table, &params, &locals, None, false);
    let class_name = "Main".to_string();
    let ctx = FunctionContext::new(&class_name, "Main.test".to_string(), symbols);
    let code = generate_expression(&ctx, &expr).unwrap();
    let mut depth: i64 = 0;
    for ins in &code {
        depth += match ins {
            VmInstruction::Push(_, _) => 1,
            VmInstruction::Pop(_, _) => -1,
            VmInstruction::Add
            | VmInstruction::Sub
            | VmInstruction::Eq
            | VmInstruction::Gt
            | VmInstruction::Lt
            | VmInstruction::And
            | VmInstruction::Or => -1,
            VmInstruction::Neg | VmInstruction::Not => 0,
            VmInstruction::Call(_, n) => 1 - (*n as i64),
            VmInstruction::Label(_) | VmInstruction::Goto(_) | VmInstruction::IfGoto(_) => 0,
            VmInstruction::Function(_, _) => 0,
            VmInstruction::Return => -1,
        };
    }
    assert_eq!(depth, 1);
}

#[test]
fn field_reference_inside_function_fails_resolution() {
    let err = compile(
        "class Main {
           field int x;
           function int bad() { return x; }
         }",
    )
    .unwrap_err();
    assert!(err.contains("failed to find variable"), "got: {err}");
}

#[test]
fn static_reference_inside_function_is_visible() {
    let code = compile(
        "class Main {
           static int x;
           function int good() { return x; }
         }",
    )
    .unwrap();
    assert_eq!(
        lines(&code),
        vec!["function Main.good 0", "push static 0", "return"]
    );
}

#[test]
fn parameter_shadows_field_of_the_same_name() {
    let code = compile(
        "class Main {
           field int x;
           method int foo(int x) { return x; }
         }",
    )
    .unwrap();
    // the receiver is argument 0, so the parameter is argument 1; the
    // emitted push targets the argument segment, not `this`
    assert_eq!(
        lines(&code),
        vec![
            "function Main.foo 0",
            "push argument 0",
            "pop pointer 0",
            "push argument 1",
            "return",
        ]
    );
}

#[test]
fn method_call_on_variable_uses_its_declared_class() {
    let code = compile(
        "class Main {
           method void go(Point p) { do p.move(3); return; }
         }",
    )
    .unwrap();
    assert_eq!(
        lines(&code),
        vec![
            "function Main.go 0",
            "push argument 0",
            "pop pointer 0",
            "push argument 1",
            "push constant 3",
            "call Point.move 2",
            "pop temp 0",
            "push constant 0",
            "return",
        ]
    );
}

#[test]
fn method_call_on_primitive_typed_variable_is_an_error() {
    let err = compile(
        "class Main {
           method void go(int p) { do p.move(3); return; }
         }",
    )
    .unwrap_err();
    assert!(err.contains("`int` type has no method"), "got: {err}");
}

#[test]
fn array_read_and_write_use_the_indirection_register() {
    let code = compile(
        "class Main {
           function void copy(Array a, Array b) { let a[1] = b[2]; return; }
         }",
    )
    .unwrap();
    assert_eq!(
        lines(&code),
        vec![
            "function Main.copy 0",
            "push argument 0",
            "push constant 1",
            "add",
            "push argument 1",
            "push constant 2",
            "add",
            "pop pointer 1",
            "push that 0",
            "pop temp 0",
            "pop pointer 1",
            "push temp 0",
            "pop that 0",
            "push constant 0",
            "return",
        ]
    );
}

#[test]
fn expressions_chain_left_to_right_without_precedence() {
    let code = compile(
        "class Main {
           function int f() { return 1 + 2 * 3; }
         }",
    )
    .unwrap();
    // (1 + 2) * 3, strictly left to right
    assert_eq!(
        lines(&code),
        vec![
            "function Main.f 0",
            "push constant 1",
            "push constant 2",
            "add",
            "push constant 3",
            "call Math.multiply 2",
            "return",
        ]
    );
}

#[test]
fn boolean_and_null_literals() {
    let code = compile(
        "class Main {
           function void f() { var boolean b; let b = true; let b = false; let b = null; return; }
         }",
    )
    .unwrap();
    assert_eq!(
        lines(&code),
        vec![
            "function Main.f 1",
            "push constant 1",
            "neg",
            "pop local 0",
            "push constant 0",
            "pop local 0",
            "push constant 0",
            "pop local 0",
            "push constant 0",
            "return",
        ]
    );
}

#[test]
fn unary_operators_follow_their_operand() {
    let code = compile(
        "class Main {
           function int f(int a) { return -a + ~a; }
         }",
    )
    .unwrap();
    assert_eq!(
        lines(&code),
        vec![
            "function Main.f 0",
            "push argument 0",
            "neg",
            "push argument 0",
            "not",
            "add",
            "return",
        ]
    );
}

#[test]
fn empty_class_generates_no_instructions() {
    let code = compile("class Main { }").unwrap();
    assert!(code.is_empty());
}

#[test]
fn largest_integer_literal_is_accepted() {
    let code = compile(
        "class Main { function int f() { return 32767; } }",
    )
    .unwrap();
    assert_eq!(
        lines(&code),
        vec!["function Main.f 0", "push constant 32767", "return"]
    );
}

#[test]
fn oversized_integer_literal_is_a_lexing_error() {
    let err = compile("class Main { function int f() { return 32768; } }").unwrap_err();
    assert!(err.contains("number too large"), "got: {err}");
}

#[test]
fn unterminated_string_is_a_lexing_error() {
    let err = compile("class Main { function void f() { do p(\"oops); } }").unwrap_err();
    assert!(err.contains("string does not end"), "got: {err}");
}

#[test]
fn unterminated_comment_is_a_lexing_error() {
    let err = compile("class Main { /* no end").unwrap_err();
    assert!(err.contains("unterminated comment"), "got: {err}");
}

#[test]
fn missing_semicolon_is_a_parse_error_with_its_line() {
    let err = compile("class Main {\n function void f() {\n  let a = 1\n }\n}").unwrap_err();
    assert!(err.contains("Line 4"), "got: {err}");
    assert!(err.contains("Expect `;`"), "got: {err}");
}

#[test]
fn comments_and_blank_lines_are_skipped_and_lines_counted() {
    let err = compile("class Main {\n// nothing here\n/* two\nlines */\nfunction oops\n}")
        .unwrap_err();
    assert!(err.contains("Line 6"), "got: {err}");
}

#[test]
fn class_symbol_table_indexes_statics_and_fields_independently() {
    let chars: Vec<char> =
        "class C { static int a; field int b; field int c; }".chars().collect();
    let tree = parse(tokenize(&chars).unwrap()).unwrap();
    let table = ClassSymbolTable::new(&tree.var_declarations);
    assert_eq!(table.len(), 3);
    assert_eq!(table.field_count(), 2);
    let locals = Vec::new();
    let params = Vec::new();
    let st = get_symbol_table(&table, &params, &locals, None, false);
    let a = st.get("a").unwrap();
    assert!(matches!(a.kind, VarKind::Static(_)));
    assert_eq!(a.index, 0);
    let b = st.get("b").unwrap();
    assert!(matches!(b.kind, VarKind::Field(_)));
    assert_eq!(b.index, 0);
    let c = st.get("c").unwrap();
    assert_eq!(c.index, 1);
    assert!(st.get("d").is_none());
}

#[test]
fn renderer_prints_the_exact_mnemonics() {
    assert_eq!(render_instruction(&VmInstruction::Push(Segment::Constant, 2)), "push constant 2");
    assert_eq!(render_instruction(&VmInstruction::Pop(Segment::That, 0)), "pop that 0");
    assert_eq!(render_instruction(&VmInstruction::IfGoto("L$end12".to_string())), "if-goto L$end12");
    assert_eq!(
        render_instruction(&VmInstruction::Function("A.b 1".to_string(), 10)),
        "function A.b 1 10"
    );
    assert_eq!(render_instruction(&VmInstruction::Return), "return");
}

#[test]
fn tokenizer_tags_tokens_with_their_source_line() {
    let chars: Vec<char> = "let x = 5;\nlet y = \"hi\";".chars().collect();
    let t = tokenize(&chars).unwrap();
    assert_eq!(t.tokens.len(), 10);
    assert_eq!(t.tokens[0].line, 1);
    assert_eq!(t.tokens[5].line, 2);
    assert!(matches!(&t.tokens[2].inner, Token::Symbols(_)));
    assert!(matches!(&t.tokens[3].inner, Token::Integer(5)));
    match &t.tokens[8].inner {
        Token::StringLit(s) => assert_eq!(s, "hi"),
        other => panic!("expected string literal, got {other:?}"),
    }
}

#[test]
fn token_stream_pops_in_order_and_peeks_ahead() {
    let toks = Tokens::new(vec![
        Line::new(Token::Integer(1), 1),
        Line::new(Token::Integer(2), 1),
    ]);
    let mut toks = toks;
    assert!(matches!(toks.peek(1).unwrap().inner, Token::Integer(2)));
    assert!(matches!(toks.pop().unwrap().inner, Token::Integer(1)));
    assert!(matches!(toks.pop().unwrap().inner, Token::Integer(2)));
    assert!(toks.pop().is_none());
}

#[test]
fn while_loops_mint_start_and_end_labels() {
    let code = compile(
        "class Main {
           function void w(int a) { while (a > 0) { let a = a - 1; } return; }
         }",
    )
    .unwrap();
    assert_eq!(
        lines(&code),
        vec![
            "function Main.w 0",
            "label Main.w$start0",
            "push argument 0",
            "push constant 0",
            "gt",
            "not",
            "if-goto Main.w$end1",
            "push argument 0",
            "push constant 1",
            "sub",
            "pop argument 0",
            "goto Main.w$start0",
            "label Main.w$end1",
            "push constant 0",
            "return",
        ]
    );
}

#[test]
fn render_program_joins_lines_with_newlines() {
    let code = compile("class Main { function void f() { return; } }").unwrap();
    assert_eq!(
        render_program(&code),
        "function Main.f 0\npush constant 0\nreturn"
    );
}

#[test]
fn generation_errors_name_the_enclosing_subroutine() {
    let err = compile(
        "class Main {
           field int x;
           function int bad() { return x; }
         }",
    )
    .unwrap_err();
    assert!(err.contains("Failed to generate code for function Main.bad"), "got: {err}");
}

#[test]
fn syntax_error_contexts_render_outermost_first() {
    let e = jcc::errors::SyntaxError::new(3, "Expect `;`")
        .with_context("Failed to parse `let` statement")
        .with_context("Failed to parse subroutine body");
    assert_eq!(
        e.describe(),
        "Failed to parse subroutine body: Failed to parse `let` statement: Line 3: Expect `;`"
    );
}

#[test]
fn codegen_error_contexts_render_outermost_first() {
    let e = jcc::errors::CodegenError::new("failed to find variable")
        .with_context("Failed to generate code for method Main.go");
    assert_eq!(e.describe(), "Failed to generate code for method Main.go: failed to find variable");
}

#[test]
fn parse_errors_name_the_enclosing_construct() {
    let err = compile("class Main { function void f() { let 5 = 1; } }").unwrap_err();
    assert!(err.contains("Failed to parse `let` statement"), "got: {err}");
}

#[test]
fn subroutine_locals_count_covers_every_var_declaration() {
    let code = compile(
        "class Main {
           function void f() { var int a, b; var boolean c; return; }
         }",
    )
    .unwrap();
    assert_eq!(lines(&code)[0], "function Main.f 3");
}
