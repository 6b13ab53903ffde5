use mpc::ast::{
    mpc_ast_add_child, mpc_ast_add_root, mpc_ast_add_tag, mpc_ast_build, mpc_ast_eq,
    mpc_ast_get_child, mpc_ast_get_index, mpc_ast_new, mpc_ast_state, mpc_ast_tag,
    mpc_ast_traverse_free, mpc_ast_traverse_next, mpc_ast_traverse_start, AstTravOrder,
};
use mpc::err::{mpc_err_merge, mpc_err_string, ParseErr};
use mpc::eval::{mpc_nparse, mpc_parse};
use mpc::parser::{mpc_copy, mpc_define, mpc_new, mpc_undefine, DefTable};
use mpc::state::State;
use mpc::val::{
    mpcf_escape, mpcf_hex, mpcf_int, mpcf_oct, mpcf_strfold, mpcf_strtrim, mpcf_strtriml,
    mpcf_strtrimr, mpcf_unescape, mpcf_unescape_char_raw, Val,
};

fn err_at(pos: i64, col: i64, expected: &[&str]) -> ParseErr {
    ParseErr {
        state: State {
            pos,
            row: 0,
            col,
            term: 0,
        },
        expected_num: expected.len(),
        filename: "test".to_string(),
        failure: None,
        expected: expected.iter().map(|s| s.to_string()).collect(),
        received: 'z',
    }
}

#[test]
fn merge_deeper_error_wins_either_way() {
    let a = err_at(1, 1, &["'a'"]);
    let b = err_at(3, 3, &["'b'"]);
    let m1 = mpc_err_merge(a, b);
    assert_eq!(m1.state.pos, 3);
    assert_eq!(m1.expected, vec!["'b'".to_string()]);
    let a = err_at(1, 1, &["'a'"]);
    let b = err_at(3, 3, &["'b'"]);
    let m2 = mpc_err_merge(b, a);
    assert_eq!(m2.state.pos, 3);
    assert_eq!(m2.expected, vec!["'b'".to_string()]);
}

#[test]
fn merge_same_offset_unions_without_duplicates() {
    let a = err_at(2, 2, &["'a'", "'b'"]);
    let b = err_at(2, 2, &["'b'", "'c'"]);
    let m = mpc_err_merge(a, b);
    assert_eq!(
        m.expected,
        vec!["'a'".to_string(), "'b'".to_string(), "'c'".to_string()]
    );
    assert_eq!(m.expected_num, 3);
}

#[test]
fn merge_keeps_custom_failure_message() {
    let mut a = err_at(2, 2, &[]);
    a.failure = Some("balanced tags required".to_string());
    let b = err_at(2, 2, &["'x'"]);
    let m = mpc_err_merge(a, b);
    assert_eq!(m.failure.as_deref(), Some("balanced tags required"));
}

#[test]
fn error_report_renders_failure_message() {
    let mut e = err_at(4, 4, &[]);
    e.failure = Some("boom".to_string());
    assert_eq!(mpc_err_string(&e), "test:1:5: error: boom");
}

#[test]
fn error_report_joins_three_expectations() {
    let e = err_at(0, 0, &["'a'", "'b'", "'c'"]);
    assert_eq!(
        mpc_err_string(&e),
        "test:1:1: error: expected 'a', 'b' or 'c' at 'z'"
    );
}

#[test]
fn integers_read_in_three_bases() {
    match mpcf_int(Val::Str("123".to_string())) {
        Val::Int(n) => assert_eq!(n, 123),
        _ => panic!("expected an integer"),
    }
    match mpcf_int(Val::Str("-42xyz".to_string())) {
        Val::Int(n) => assert_eq!(n, -42),
        _ => panic!("expected an integer"),
    }
    match mpcf_hex(Val::Str("0x1A".to_string())) {
        Val::Int(n) => assert_eq!(n, 26),
        _ => panic!("expected an integer"),
    }
    match mpcf_oct(Val::Str("17".to_string())) {
        Val::Int(n) => assert_eq!(n, 15),
        _ => panic!("expected an integer"),
    }
}

#[test]
fn integer_magnitude_saturates() {
    match mpcf_int(Val::Str("99999999999999999999999".to_string())) {
        Val::Int(n) => assert_eq!(n, i64::MAX),
        _ => panic!("expected an integer"),
    }
    match mpcf_int(Val::Str("-99999999999999999999999".to_string())) {
        Val::Int(n) => assert_eq!(n, -i64::MAX),
        _ => panic!("expected an integer"),
    }
}

#[test]
fn escape_and_unescape_round_trip() {
    match mpcf_escape(Val::Str("a\nb\\".to_string())) {
        Val::Str(s) => assert_eq!(s, "a\\nb\\\\"),
        _ => panic!("expected a string"),
    }
    match mpcf_unescape(Val::Str("a\\nb\\\\".to_string())) {
        Val::Str(s) => assert_eq!(s, "a\nb\\"),
        _ => panic!("expected a string"),
    }
    match mpcf_unescape_char_raw(Val::Str("\\'".to_string())) {
        Val::Str(s) => assert_eq!(s, "'"),
        _ => panic!("expected a string"),
    }
}

#[test]
fn unknown_escape_is_kept() {
    match mpcf_unescape(Val::Str("a\\qb".to_string())) {
        Val::Str(s) => assert_eq!(s, "a\\qb"),
        _ => panic!("expected a string"),
    }
}

#[test]
fn trimming_strips_whitespace() {
    match mpcf_strtriml(Val::Str("  x ".to_string())) {
        Val::Str(s) => assert_eq!(s, "x "),
        _ => panic!("expected a string"),
    }
    match mpcf_strtrimr(Val::Str("  x ".to_string())) {
        Val::Str(s) => assert_eq!(s, "  x"),
        _ => panic!("expected a string"),
    }
    match mpcf_strtrim(Val::Str("\t x \n".to_string())) {
        Val::Str(s) => assert_eq!(s, "x"),
        _ => panic!("expected a string"),
    }
}

#[test]
fn strfold_concatenates_strings() {
    let vs = vec![
        Val::Str("ab".to_string()),
        Val::Null,
        Val::Str("cd".to_string()),
    ];
    match mpcf_strfold(vs) {
        Val::Str(s) => assert_eq!(s, "abcd"),
        _ => panic!("expected a string"),
    }
}

#[test]
fn tree_equality_ignores_positions() {
    let a = mpc_ast_new("num", "42");
    let moved = State {
        pos: 7,
        row: 1,
        col: 3,
        term: 0,
    };
    let b = mpc_ast_state(mpc_ast_new("num", "42"), moved);
    assert!(mpc_ast_eq(&a, &b));
    let c = mpc_ast_new("num", "43");
    assert!(!mpc_ast_eq(&a, &c));
}

#[test]
fn tree_children_are_found_by_tag() {
    let kid1 = mpc_ast_new("lhs", "1");
    let kid2 = mpc_ast_new("rhs", "2");
    let root = mpc_ast_build("sum", vec![kid1, kid2]);
    assert_eq!(mpc_ast_get_index(&root, "rhs"), 1);
    assert_eq!(mpc_ast_get_index(&root, "nope"), -1);
    match mpc_ast_get_child(&root, "lhs") {
        Some(c) => assert_eq!(c.contents, "1"),
        None => panic!("child should be found"),
    }
}

#[test]
fn tree_tagging_and_rooting() {
    let a = mpc_ast_tag(mpc_ast_new("x", ""), "y");
    assert_eq!(a.tag, "y");
    let a = mpc_ast_add_tag(a, "outer");
    assert_eq!(a.tag, "outer|y");
    let parent = mpc_ast_add_child(mpc_ast_new("p", ""), mpc_ast_new("c", ""));
    let rooted = mpc_ast_add_root(parent);
    assert_eq!(rooted.tag, ">");
    assert_eq!(rooted.children.len(), 1);
}

#[test]
fn registry_defines_shadows_and_undefines() {
    let mut d = DefTable::new();
    mpc_define(&mut d, "p", mpc::parser::mpc_char('a'));
    assert!(d.contains("p"));
    let q = mpc_copy(d.get("p").unwrap());
    mpc_define(&mut d, "q", q);
    assert!(d.contains("q"));
    mpc_undefine(&mut d, "p");
    assert!(!d.contains("p"));
    assert!(d.contains("q"));
}

#[test]
fn nparse_reads_only_the_prefix() {
    let d = DefTable::new();
    let p = mpc::combinators::mpc_digits();
    match mpc_nparse("test", "12x", 2, &p, &d) {
        Ok(Val::Str(s)) => assert_eq!(s, "12"),
        _ => panic!("prefix parse should succeed"),
    }
}

#[test]
fn int_parser_reads_signed_numbers() {
    let d = DefTable::new();
    let p = mpc::combinators::mpc_int();
    match mpc_parse("test", "-42", &p, &d) {
        Ok(Val::Int(n)) => assert_eq!(n, -42),
        _ => panic!("expected an integer"),
    }
}

#[test]
fn number_parser_prefers_hexadecimal() {
    let d = DefTable::new();
    let p = mpc::combinators::mpc_number();
    match mpc_parse("test", "0x10", &p, &d) {
        Ok(Val::Int(n)) => assert_eq!(n, 16),
        _ => panic!("expected an integer"),
    }
}

#[test]
fn string_literal_parser_unescapes() {
    let d = DefTable::new();
    let p = mpc::combinators::mpc_string_lit();
    match mpc_parse("test", "\"a\\nb\"", &p, &d) {
        Ok(Val::Str(s)) => assert_eq!(s, "a\nb"),
        _ => panic!("expected a string"),
    }
}

#[test]
fn symbol_swallows_trailing_whitespace() {
    let d = DefTable::new();
    let p = mpc::combinators::mpc_sym("let");
    let mut inp = mpc::input::Input::new_string("test", "let   x");
    inp.backtrack_enable();
    match mpc::eval::eval(&d, &p, &mut inp, 1000) {
        mpc::eval::Ev::Match(Val::Str(s)) => assert_eq!(s, "let"),
        _ => panic!("symbol should match"),
    }
    assert_eq!(inp.peekc(), 'x');
}

#[test]
fn file_input_parses_like_text() {
    let d = DefTable::new();
    let p = mpc::combinators::mpc_digits();
    match mpc::eval::mpc_parse_file_contents("f.txt", "99", &p, &d) {
        Ok(Val::Str(s)) => assert_eq!(s, "99"),
        _ => panic!("file contents should parse"),
    }
}

#[test]
fn pipe_input_parses_like_text() {
    let d = DefTable::new();
    let p = mpc::combinators::mpc_digits();
    match mpc::eval::mpc_parse_pipe_chars("pipe", "1234", &p, &d) {
        Ok(Val::Str(s)) => assert_eq!(s, "1234"),
        _ => panic!("pipe contents should parse"),
    }
}

#[test]
fn check_rejects_with_label() {
    let d = DefTable::new();
    let p = mpc::parser::mpc_check(
        mpc::combinators::mpc_whitespaces(),
        mpc::val::CheckKind::StrNonEmpty,
        "leading whitespace",
    );
    match mpc_parse("test", "x", &p, &d) {
        Err(e) => assert_eq!(e.expected[0], "leading whitespace"),
        Ok(_) => panic!("check should reject the empty match"),
    }
}

#[test]
fn fail_parser_reports_custom_message() {
    let d = DefTable::new();
    let p = mpc::parser::mpc_fail("always wrong");
    match mpc_parse("test", "x", &p, &d) {
        Err(e) => assert_eq!(e.failure.as_deref(), Some("always wrong")),
        Ok(_) => panic!("fail parser must fail"),
    }
}

#[test]
fn traversal_orders_visit_every_node() {
    let root = mpc_ast_build(
        "root",
        vec![mpc_ast_new("a", ""), mpc_ast_build("b", vec![mpc_ast_new("c", "")])],
    );
    let mut t = mpc_ast_traverse_start(&root, AstTravOrder::Pre);
    let mut pre_tags = Vec::new();
    while let Some(n) = mpc_ast_traverse_next(&mut t) {
        pre_tags.push(n.tag);
    }
    assert_eq!(pre_tags, vec!["root", "a", "b", "c"]);
    mpc_ast_traverse_free(t);
    let mut t = mpc_ast_traverse_start(&root, AstTravOrder::Post);
    let mut post_tags = Vec::new();
    while let Some(n) = mpc_ast_traverse_next(&mut t) {
        post_tags.push(n.tag);
    }
    assert_eq!(post_tags, vec!["a", "c", "b", "root"]);
    mpc_ast_traverse_free(t);
}
