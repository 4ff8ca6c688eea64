use jailconf::grammar::Boundary;
use jailconf::parse::{
    parse_block, parse_bool_param_no_value, parse_comment_c_style, parse_comment_cpp_style,
    parse_comment_shell_style, parse_input, parse_param_with_value,
};
use jailconf::scan::{
    is_at, scan_bool_param, scan_comment_c, scan_comment_close, scan_comment_cpp,
    scan_comment_shell, scan_run, scan_value_param,
};
use jailconf::text::{chars_of, string_of};
use jailconf::{
    CommentStyle, JailComment, JailConf, JailParamBool, JailParamValue, ParseError, ScanError,
};

#[test]
fn chars_of_splits_by_character() {
    assert_eq!(chars_of("a😊ü"), vec!['a', '😊', 'ü']);
    assert_eq!(chars_of(""), Vec::<char>::new());
}

#[test]
fn string_of_copies_the_range() {
    let chars = chars_of("héllo wörld");
    assert_eq!(string_of(&chars, 1, 5), "éllo");
    assert_eq!(string_of(&chars, 3, 3), "");
    assert_eq!(string_of(&chars, 0, 11), "héllo wörld");
}

#[test]
fn boundary_classes() {
    for c in [' ', '+', '=', ';', '\n'] {
        assert!(Boundary::Name.test(c));
    }
    for c in ['a', '\t', '\r', '{', '}', '"', '/', '#'] {
        assert!(!Boundary::Name.test(c));
    }
    for c in [' ', '{', ';', '\n'] {
        assert!(Boundary::BlockName.test(c));
    }
    for c in ['a', '\t', '+', '=', '}'] {
        assert!(!Boundary::BlockName.test(c));
    }
    for c in ['"', ';', '\n'] {
        assert!(Boundary::Bare.test(c));
        assert_eq!(Boundary::Quote.test(c), c == '"');
        assert_eq!(Boundary::LineEnd.test(c), c == '\n');
    }
    assert!(!Boundary::Bare.test(' '));
    for c in [' ', '\t'] {
        assert!(!Boundary::Blank.test(c));
        assert!(!Boundary::Space.test(c));
    }
    for c in ['\r', '\n'] {
        assert!(Boundary::Blank.test(c));
        assert!(!Boundary::Space.test(c));
    }
    assert!(Boundary::Blank.test('a'));
    assert!(Boundary::Space.test('a'));
}

#[test]
fn scan_run_finds_first_boundary() {
    let chars = chars_of("ab c\n  \t\r\nx");
    assert_eq!(scan_run(&chars, 0, Boundary::Name), 2);
    assert_eq!(scan_run(&chars, 2, Boundary::Name), 2);
    assert_eq!(scan_run(&chars, 0, Boundary::LineEnd), 4);
    assert_eq!(scan_run(&chars, 4, Boundary::Space), 10);
    assert_eq!(scan_run(&chars, 5, Boundary::Blank), 8);
    assert_eq!(scan_run(&chars, 9, Boundary::Quote), 11);
    assert_eq!(scan_run(&chars, 11, Boundary::Quote), 11);
}

#[test]
fn is_at_checks_position_and_character() {
    let chars = chars_of("a;");
    assert!(is_at(&chars, 1, ';'));
    assert!(!is_at(&chars, 0, ';'));
    assert!(!is_at(&chars, 2, ';'));
}

#[test]
fn scan_comment_close_finds_first_close() {
    let chars = chars_of("/* a */ b */");
    assert_eq!(scan_comment_close(&chars, 2), 5);
    assert_eq!(scan_comment_close(&chars, 6), 10);
    assert_eq!(scan_comment_close(&chars, 11), 12);
    let open = chars_of("/* a *");
    assert_eq!(scan_comment_close(&open, 2), 6);
    let star = chars_of("/***/");
    assert_eq!(scan_comment_close(&star, 2), 3);
}

#[test]
fn scan_comment_c_keeps_interior() {
    let chars = chars_of("x /* a\n b */y");
    assert_eq!(
        scan_comment_c(&chars, 2),
        Ok((JailComment { comment: " a\n b ".into(), style: CommentStyle::C }, 12))
    );
    assert_eq!(scan_comment_c(&chars, 0), Err(ScanError::NoMatch));
    assert_eq!(scan_comment_c(&chars, 3), Err(ScanError::NoMatch));
    assert_eq!(scan_comment_c(&chars, 13), Err(ScanError::NoMatch));
}

#[test]
fn scan_comment_c_unterminated() {
    for text in ["/* a", "/*", "/*/", "/* a *", "/* a * /"] {
        let chars = chars_of(text);
        assert_eq!(scan_comment_c(&chars, 0), Err(ScanError::UnterminatedComment));
    }
}

#[test]
fn scan_line_comments_leave_newline() {
    let chars = chars_of("// a\n# b");
    assert_eq!(
        scan_comment_cpp(&chars, 0),
        Ok((JailComment { comment: " a".into(), style: CommentStyle::CPP }, 4))
    );
    assert_eq!(
        scan_comment_shell(&chars, 5),
        Ok((JailComment { comment: " b".into(), style: CommentStyle::Shell }, 8))
    );
    assert_eq!(scan_comment_cpp(&chars, 5), Err(ScanError::NoMatch));
    assert_eq!(scan_comment_shell(&chars, 0), Err(ScanError::NoMatch));
    assert_eq!(scan_comment_cpp(&chars, 1), Err(ScanError::NoMatch));
    assert_eq!(scan_comment_cpp(&chars, 8), Err(ScanError::NoMatch));
}

#[test]
fn scan_bool_param_needs_semicolon_directly() {
    let chars = chars_of("a; b ; c=1; d\n; e");
    assert_eq!(scan_bool_param(&chars, 0), Ok((JailParamBool { name: "a".into() }, 2)));
    for pos in [1, 3, 7, 12, 16, 17] {
        assert_eq!(scan_bool_param(&chars, pos), Err(ScanError::NotABooleanParam));
    }
}

#[test]
fn scan_value_param_forms() {
    let chars = chars_of("a = 1; b+=\"x y\"; c \t=\t \"\"; d=e\";");
    assert_eq!(
        scan_value_param(&chars, 0),
        Ok((JailParamValue { name: "a".into(), value: "1".into(), append: false }, 6))
    );
    assert_eq!(
        scan_value_param(&chars, 7),
        Ok((JailParamValue { name: "b".into(), value: "x y".into(), append: true }, 16))
    );
    assert_eq!(
        scan_value_param(&chars, 17),
        Ok((JailParamValue { name: "c".into(), value: "".into(), append: false }, 26))
    );
    assert_eq!(
        scan_value_param(&chars, 27),
        Ok((JailParamValue { name: "d".into(), value: "e".into(), append: false }, 32))
    );
    assert_eq!(scan_value_param(&chars, 1), Err(ScanError::NoMatch));
}

#[test]
fn scan_value_param_no_match() {
    for text in ["", "a", "a;", "a = b", "a + = b;", "= b;", "a = \"b", "a ++= b;", "a {", "a = b\"\";"] {
        let chars = chars_of(text);
        assert_eq!(scan_value_param(&chars, 0), Err(ScanError::NoMatch));
    }
}

#[test]
fn scan_value_param_unterminated() {
    for text in ["a = b\n;", "a\n= b;", "a \n", "a +\n= b;", "a =+ b\n;", "a = \"b\"\n;", "a =\n"] {
        let chars = chars_of(text);
        assert_eq!(scan_value_param(&chars, 0), Err(ScanError::UnterminatedStatement));
    }
}

#[test]
fn statement_parsers_skip_white_space_around() {
    assert_eq!(
        parse_bool_param_no_value(" \n persist; \n next;"),
        Ok(("next;", JailParamBool { name: "persist".into() }))
    );
    assert_eq!(
        parse_param_with_value("\ta += \"ü\";\r\n😊"),
        Ok(("😊", JailParamValue { name: "a".into(), value: "ü".into(), append: true }))
    );
    assert_eq!(
        parse_comment_c_style(" /*c*/ x"),
        Ok(("x", JailComment { comment: "c".into(), style: CommentStyle::C }))
    );
    assert_eq!(
        parse_comment_cpp_style("//c"),
        Ok(("", JailComment { comment: "c".into(), style: CommentStyle::CPP }))
    );
    assert_eq!(
        parse_comment_shell_style("#c\n\n#d"),
        Ok(("#d", JailComment { comment: "c".into(), style: CommentStyle::Shell }))
    );
}

#[test]
fn statement_parsers_fail_on_other_statements() {
    assert_eq!(parse_bool_param_no_value("a = 1;"), Err(ParseError));
    assert_eq!(parse_param_with_value("a;"), Err(ParseError));
    assert_eq!(parse_comment_c_style("// c"), Err(ParseError));
    assert_eq!(parse_comment_c_style("/* c"), Err(ParseError));
    assert_eq!(parse_comment_cpp_style("# c"), Err(ParseError));
    assert_eq!(parse_comment_shell_style("/* c */"), Err(ParseError));
    assert_eq!(parse_block("a;"), Err(ParseError));
    assert_eq!(parse_block("a {"), Err(ParseError));
    assert_eq!(parse_block(""), Err(ParseError));
}

#[test]
fn parse_input_returns_what_is_left() {
    assert_eq!(
        parse_input(" a; } b;"),
        Ok(("} b;", vec![JailConf::ParamBool(JailParamBool { name: "a".into() })]))
    );
    assert_eq!(parse_input("= 1;"), Ok(("= 1;", vec![])));
    assert_eq!(parse_input(""), Ok(("", vec![])));
}

#[test]
fn scanners_find_nothing_past_the_end() {
    let chars = chars_of("a;");
    assert_eq!(scan_run(&chars, 7, Boundary::Name), 7);
    assert_eq!(scan_comment_close(&chars, 7), 2);
    assert_eq!(scan_comment_c(&chars, 7), Err(ScanError::NoMatch));
    assert_eq!(scan_comment_cpp(&chars, 7), Err(ScanError::NoMatch));
    assert_eq!(scan_comment_shell(&chars, 7), Err(ScanError::NoMatch));
    assert_eq!(scan_bool_param(&chars, 7), Err(ScanError::NotABooleanParam));
    assert_eq!(scan_value_param(&chars, 7), Err(ScanError::NoMatch));
    assert_eq!(scan_bool_param(&chars, 2), Err(ScanError::NotABooleanParam));
    assert_eq!(scan_value_param(&chars, 2), Err(ScanError::NoMatch));
}
