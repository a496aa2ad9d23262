use mmc::emitter::{CEmitter, Indent};
use mmc::lexer::{Lexer, Token};
use mmc::parser::Parser;

fn compile(source: &str) -> String {
    let mut lexer = Lexer::from(source);
    let mut tokens: Vec<Token> = Vec::new();
    while let Some(token) = lexer.next() {
        tokens.push(token);
    }
    let statements = Parser::new(&tokens).parse().expect("source must parse");
    CEmitter::new(statements).emit()
}

fn header() -> String {
    String::from("#inclu") + "de <stdio.h>\nint main(void){\n"
}

fn footer() -> String {
    String::from("\treturn 0;\n}\n")
}

#[test]
fn indent_counter_tracks_depth() {
    let mut indent = Indent::new();
    assert_eq!(indent.current_indent(), "");
    indent.increase();
    indent.increase();
    assert_eq!(indent.current_indent(), "\t\t");
    indent.decrease();
    assert_eq!(indent.current_indent(), "\t");
    indent.decrease();
    indent.decrease();
    assert_eq!(indent.current_indent(), "");
}

#[test]
fn empty_program_emits_only_the_boilerplate() {
    assert_eq!(compile(""), header() + &footer());
}

#[test]
fn let_reproduces_the_expression_exactly() {
    let expected = header() + "\tfloat x = 1 + 2 * 3;\n" + &footer();
    assert_eq!(compile("let x = 1 + 2 * 3;"), expected);
}

#[test]
fn chained_subtraction_keeps_source_order() {
    let expected = header() + "\tfloat x = 1 - 2 - 3;\n" + &footer();
    assert_eq!(compile("let x = 1 - 2 - 3;"), expected);
}

#[test]
fn if_emits_a_conditional_one_level_deeper() {
    let expected = header() + "\tif (3 > 4) {\n\t\tprintf(\"hi\");\n\t}\n" + &footer();
    assert_eq!(compile("if 3 > 4 { print \"hi\"; }"), expected);
}

#[test]
fn while_emits_a_loop_one_level_deeper() {
    let expected = header()
        + "\tfloat x = 0;\n\twhile (x < 9) {\n\t\tx = x + 1;\n\t}\n"
        + &footer();
    assert_eq!(compile("let x = 0; while x < 9 { x = x + 1; }"), expected);
}

#[test]
fn nested_blocks_indent_twice() {
    let expected = header()
        + "\tif (1 < 2) {\n\t\tif (3 < 4) {\n\t\t\tprintf(\"deep\");\n\t\t}\n\t}\n"
        + &footer();
    assert_eq!(
        compile("if 1 < 2 { if 3 < 4 { print \"deep\"; } }"),
        expected
    );
}

#[test]
fn print_expression_coerces_to_float_with_two_digits() {
    let expected = header() + "\tprintf(\"%.2f\\n\", (float)(1 + 2));\n" + &footer();
    assert_eq!(compile("print 1 + 2;"), expected);
}

#[test]
fn print_literal_drops_the_quotes() {
    let expected = header() + "\tprintf(\"Hello World\");\n" + &footer();
    assert_eq!(compile("print \"Hello World\";"), expected);
}

#[test]
fn input_emits_the_read_failure_recovery() {
    let expected = header()
        + "\tfloat n;\n\tif(0==scanf(\"%f\", &n)) {\n\t\tn = 0;\n\t\tscanf(\"%*s\");\n\t}\n"
        + &footer();
    assert_eq!(compile("input n;"), expected);
}

#[test]
fn unary_signs_are_direct_prefixes() {
    let expected = header() + "\tfloat x = -5 + +7;\n" + &footer();
    assert_eq!(compile("let x = -5 + +7;"), expected);
}

#[test]
fn zero_emits_as_zero() {
    let expected = header() + "\tfloat x = 0;\n" + &footer();
    assert_eq!(compile("let x = 0;"), expected);
}

#[test]
fn all_comparison_operators_emit_their_c_form() {
    let source = "let a = 1; if a > 1 { } if a >= 1 { } if a < 1 { } if a <= 1 { } \
                  if a == 1 { } if a != 1 { }";
    let expected = header()
        + "\tfloat a = 1;\n\tif (a > 1) {\n\t}\n\tif (a >= 1) {\n\t}\n\tif (a < 1) {\n\t}\n\tif (a <= 1) {\n\t}\n\tif (a == 1) {\n\t}\n\tif (a != 1) {\n\t}\n"
        + &footer();
    assert_eq!(compile(source), expected);
}

#[test]
fn division_and_assignment_emit_in_order() {
    let expected = header() + "\tfloat x = 8 / 2 / 2;\n\tx = x * 3;\n" + &footer();
    assert_eq!(compile("let x = 8 / 2 / 2; x = x * 3;"), expected);
}

#[test]
fn parsing_twice_yields_identical_trees() {
    let source = "let x = 1 + 2 * 3; if x > 4 { print \"hi\"; } while x < 9 { x = x + 1; }";
    let mut lexer = Lexer::from(source);
    let mut tokens: Vec<Token> = Vec::new();
    while let Some(token) = lexer.next() {
        tokens.push(token);
    }
    let first = Parser::new(&tokens).parse().expect("source must parse");
    let second = Parser::new(&tokens).parse().expect("source must parse");
    assert_eq!(format!("{:?}", first), format!("{:?}", second));
    assert_eq!(
        CEmitter::new(first).emit(),
        CEmitter::new(second).emit()
    );
}
