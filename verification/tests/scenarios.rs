use mpc::ast::Ast;
use mpc::chars::CharClass;
use mpc::eval::{eval, mpc_parse, Ev};
use mpc::grammar::{mpca_lang, LangFlags};
use mpc::input::Input;
use mpc::parser::{
    mpc_and, mpc_apply, mpc_char, mpc_define, mpc_many, mpc_many1, mpc_new, mpc_not, mpc_or,
    mpc_satisfy, mpc_string, DefTable,
};
use mpc::val::{ApplyKind, Fold, Val};

const FUEL: u64 = 100_000;

fn abc_parser() -> mpc::parser::Parser {
    mpc_and(
        Fold::StrFold,
        vec![mpc_char('a'), mpc_char('b'), mpc_char('c')],
    )
}

#[test]
fn sequence_abc_consumes_three() {
    let d = DefTable::new();
    let p = abc_parser();
    let mut inp = Input::new_string("test", "abc");
    inp.backtrack_enable();
    match eval(&d, &p, &mut inp, FUEL) {
        Ev::Match(Val::Str(s)) => assert_eq!(s, "abc"),
        _ => panic!("expected a string match"),
    }
    assert_eq!(inp.state.pos, 3);
    assert!(inp.terminated());
}

#[test]
fn sequence_abd_fails_at_col_two() {
    let d = DefTable::new();
    let p = abc_parser();
    match mpc_parse("test", "abd", &p, &d) {
        Err(e) => {
            assert_eq!(e.state.row, 0);
            assert_eq!(e.state.col, 2);
            assert_eq!(e.state.pos, 2);
            assert_eq!(e.expected_num, 1);
            assert_eq!(e.expected[0], "'c'");
            assert_eq!(e.received, 'd');
            assert_eq!(
                mpc::err::mpc_err_string(&e),
                "test:1:3: error: expected 'c' at 'd'"
            );
        }
        Ok(_) => panic!("parse should fail"),
    }
}

#[test]
fn many1_digits_stops_before_letter() {
    let d = DefTable::new();
    let p = mpc_many1(Fold::StrFold, mpc_satisfy(CharClass::Digit));
    let mut inp = Input::new_string("test", "123a");
    inp.backtrack_enable();
    match eval(&d, &p, &mut inp, FUEL) {
        Ev::Match(Val::Str(s)) => assert_eq!(s, "123"),
        _ => panic!("expected a string match"),
    }
    assert_eq!(inp.state.pos, 3);
    assert_eq!(inp.peekc(), 'a');
}

#[test]
fn not_x_on_y_consumes_nothing() {
    let d = DefTable::new();
    let p = mpc_not(mpc_char('x'));
    let mut inp = Input::new_string("test", "y");
    inp.backtrack_enable();
    match eval(&d, &p, &mut inp, FUEL) {
        Ev::Match(Val::Null) => {}
        _ => panic!("negative lookahead should succeed with nothing"),
    }
    assert_eq!(inp.state.pos, 0);
    assert_eq!(inp.peekc(), 'y');
}

#[test]
fn pipe_rewind_replays_and_flushes_once() {
    let mut inp = Input::new_pipe("pipe", "abcdef");
    inp.backtrack_enable();
    inp.mark();
    let mut first = String::new();
    for _ in 0..3 {
        let c = inp.peekc();
        first.push(c);
        inp.success(c);
    }
    inp.rewind();
    let mut second = String::new();
    for _ in 0..3 {
        let c = inp.peekc();
        second.push(c);
        inp.success(c);
    }
    assert_eq!(first, "abc");
    assert_eq!(second, "abc");
    assert_eq!(inp.sink.len(), 0);
    inp.unmark();
    // The three characters are flushed exactly once, newest first, as
    // a push-back onto the head of the stream would emit them.
    assert_eq!(inp.sink, vec!['c', 'b', 'a']);
}

#[test]
fn or_failure_restores_position() {
    let d = DefTable::new();
    let ab = mpc_and(Fold::StrFold, vec![mpc_char('a'), mpc_char('b')]);
    let p = mpc_or(vec![ab, mpc_char('c')]);
    let mut inp = Input::new_string("test", "ax");
    inp.backtrack_enable();
    match eval(&d, &p, &mut inp, FUEL) {
        Ev::Fail(e) => {
            // the deepest failure is reported ...
            assert_eq!(e.state.pos, 1);
            assert_eq!(e.received, 'x');
        }
        _ => panic!("both alternatives should fail"),
    }
    // ... but no partial consumption leaks out of the alternation.
    assert_eq!(inp.state.pos, 0);
}

#[test]
fn or_merges_expectations_at_one_offset() {
    let d = DefTable::new();
    let p = mpc_or(vec![mpc_char('a'), mpc_char('b')]);
    match mpc_parse("test", "z", &p, &d) {
        Err(e) => {
            assert_eq!(e.expected, vec!["'a'".to_string(), "'b'".to_string()]);
            assert_eq!(e.received, 'z');
            assert_eq!(
                mpc::err::mpc_err_string(&e),
                "test:1:1: error: expected 'a' or 'b' at 'z'"
            );
        }
        Ok(_) => panic!("parse should fail"),
    }
}

#[test]
fn many_on_failing_parser_yields_empty() {
    let d = DefTable::new();
    let p = mpc_many(Fold::StrFold, mpc_char('x'));
    let mut inp = Input::new_string("test", "yyy");
    inp.backtrack_enable();
    match eval(&d, &p, &mut inp, FUEL) {
        Ev::Match(Val::Str(s)) => assert_eq!(s, ""),
        _ => panic!("many should succeed with the empty fold"),
    }
    assert_eq!(inp.state.pos, 0);
}

#[test]
fn many1_on_failing_parser_fails() {
    let d = DefTable::new();
    let p = mpc_many1(Fold::StrFold, mpc_char('x'));
    let mut inp = Input::new_string("test", "yyy");
    inp.backtrack_enable();
    match eval(&d, &p, &mut inp, FUEL) {
        Ev::Fail(e) => assert_eq!(e.received, 'y'),
        _ => panic!("many1 needs at least one match"),
    }
}

fn eval_arith(a: &Ast) -> i64 {
    if a.children.is_empty() {
        return a.contents.trim().parse().unwrap();
    }
    if a.children.len() == 1 {
        return eval_arith(&a.children[0]);
    }
    assert_eq!(a.children.len(), 3);
    let lhs = eval_arith(&a.children[0]);
    let rhs = eval_arith(&a.children[2]);
    match a.children[1].contents.as_str() {
        "+" => lhs + rhs,
        "*" => lhs * rhs,
        op => panic!("unexpected operator {op}"),
    }
}

#[test]
fn arithmetic_round_trip_respects_precedence() {
    let mut d = DefTable::new();
    let number = mpc_apply(
        mpc_many1(Fold::StrFold, mpc_satisfy(CharClass::Digit)),
        ApplyKind::StrAst,
    );
    mpc_define(&mut d, "number", number);
    let grammar = "\
        expr : <product> '+' <expr> | <product> ; \
        product : <value> '*' <product> | <value> ; \
        value : <number> ; ";
    mpca_lang(LangFlags::default(), grammar, &mut d).unwrap();
    let p = mpc_new("expr");
    match mpc_parse("test", "2+3*4", &p, &d) {
        Ok(Val::Ast(tree)) => assert_eq!(eval_arith(&tree), 14),
        Ok(_) => panic!("expected a tree"),
        Err(e) => panic!("{}", mpc::err::mpc_err_string(&e)),
    }
}

#[test]
fn grammar_with_undefined_reference_is_rejected() {
    let mut d = DefTable::new();
    let r = mpca_lang(LangFlags::default(), "a : <missing> ;", &mut d);
    match r {
        Err(e) => assert!(e.message.contains("missing")),
        Ok(_) => panic!("an unresolved reference must fail at compile time"),
    }
    // the broken grammar installed nothing
    assert!(!d.contains("a"));
}

#[test]
fn self_recursive_rule_reports_depth_not_livelock() {
    let mut d = DefTable::new();
    mpca_lang(LangFlags::default(), "x : <x> ;", &mut d).unwrap();
    let p = mpc_new("x");
    match mpc_parse("test", "", &p, &d) {
        Err(e) => assert_eq!(e.failure.as_deref(), Some("parse depth limit exceeded")),
        Ok(_) => panic!("a left-recursive rule cannot succeed"),
    }
}

#[test]
fn grammar_expression_compiles_and_parses() {
    let d = DefTable::new();
    let p = mpc::grammar::mpca_grammer(LangFlags::default(), "'a' 'b'+", &d).unwrap();
    match mpc_parse("test", "abb", &p, &d) {
        Ok(Val::Ast(tree)) => {
            assert_eq!(tree.tag, ">");
            assert_eq!(tree.children[0].contents, "a");
        }
        Ok(_) => panic!("expected a tree"),
        Err(e) => panic!("{}", mpc::err::mpc_err_string(&e)),
    }
}

#[test]
fn string_literal_matches_whole_or_nothing() {
    let d = DefTable::new();
    let p = mpc_string("hello");
    let mut inp = Input::new_string("test", "help");
    inp.backtrack_enable();
    match eval(&d, &p, &mut inp, FUEL) {
        Ev::Fail(e) => {
            assert_eq!(e.expected[0], "\"hello\"");
        }
        _ => panic!("literal should fail"),
    }
    // the partial match was rolled back
    assert_eq!(inp.state.pos, 0);
}

#[test]
fn or_retries_siblings_from_the_mark() {
    // The first alternative consumes the 'a' and only then is
    // rejected by its check; the second must still be attempted from
    // the alternation's start.
    let d = DefTable::new();
    let rejected = mpc::parser::mpc_check(
        mpc_char('a'),
        mpc::val::CheckKind::IntNonNegative,
        "a number",
    );
    let p = mpc_or(vec![rejected, mpc_char('a')]);
    match mpc_parse("test", "a", &p, &d) {
        Ok(Val::Str(s)) => assert_eq!(s, "a"),
        _ => panic!("the second alternative matches from the start"),
    }
}

#[test]
fn lang_installs_every_rule_of_the_text() {
    let mut d = DefTable::new();
    mpca_lang(
        LangFlags::default(),
        "greeting : 'h' 'i' ; pair : <greeting> <greeting> ;",
        &mut d,
    )
    .unwrap();
    assert!(d.contains("greeting"));
    assert!(d.contains("pair"));
    match mpc_parse("test", "hihi", &mpc_new("pair"), &d) {
        Ok(Val::Ast(tree)) => assert_eq!(tree.tag, "pair|>"),
        _ => panic!("the installed rules should parse"),
    }
}

#[test]
fn grammar_expression_with_unknown_reference_is_rejected() {
    let d = DefTable::new();
    match mpc::grammar::mpca_grammer(LangFlags::default(), "<nowhere>", &d) {
        Err(e) => assert!(e.message.contains("nowhere")),
        Ok(_) => panic!("an unresolved reference must fail at compile time"),
    }
}
