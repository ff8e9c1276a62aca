use runtime_fmt::grammar::{Alignment, Count, Piece, Position, Span, SyntaxError};
use runtime_fmt::plan::{ResolvedCount, Role};
use runtime_fmt::tokenizer::{tokenize_text, Parser};
use runtime_fmt::{Error, FormatBuf, FormatTrait, Param, Value};

fn parse_error(spec: &str, params: &[Param]) -> Error {
    match FormatBuf::new(spec, params) {
        Ok(_) => panic!("{:?} was accepted", spec),
        Err(e) => e,
    }
}

#[test]
fn escaped_braces_round_trip() {
    for x in ["", "abc", "a b\tc", "héllo wörld", ":?", "0"] {
        let spec = format!("{{{{{}}}}}", x);
        let buf = FormatBuf::new(&spec, &[]).unwrap();
        assert_eq!(buf.format(), format!("{{{}}}", x));
        assert!(buf.parsed().fmt.is_none());
        assert_eq!(buf.parsed().pieces, vec![format!("{{{}}}", x)]);
    }
}

#[test]
fn unknown_name() {
    let e = parse_error("{nope}", &[Param::named("yes", Value::I32(1))]);
    assert_eq!(format!("{:?}", e), "BadName(\"nope\")");
    let e = parse_error("{:nope$}", &[Param::named("yes", Value::I32(1))]);
    assert_eq!(format!("{:?}", e), "BadName(\"nope\")");
}

#[test]
fn first_parameter_of_a_name_is_taken() {
    let p = [
        Param::named("a", Value::I32(1)),
        Param::named("a", Value::I32(2)),
    ];
    assert_eq!(FormatBuf::new("{a}", &p).unwrap().format(), "1");
}

#[test]
fn names_beyond_ascii() {
    let p = [Param::named("größe", Value::U8(7)), Param::named("x_1", Value::U8(8))];
    assert_eq!(FormatBuf::new("{größe}/{x_1}", &p).unwrap().format(), "7/8");
    assert_eq!(FormatBuf::new("{:größe$}|", &p).unwrap().format(), "      7|");
}

#[test]
fn two_broken_references_give_two_diagnostics() {
    match parse_error("{0 {1", &[]) {
        Error::BadSyntax(v) => {
            assert_eq!(v.len(), 2);
            assert_eq!(v[0], ("expected `'}'`, found `' '`".to_string(), None));
            assert_eq!(v[1].0, "expected `'}'` but string was terminated");
            assert_eq!(
                v[1].1.as_deref(),
                Some("if you intended to print `{`, you can escape it using `{{`")
            );
        }
        other => panic!("{:?}", other),
    }
}

#[test]
fn scanning_goes_on_after_a_stray_brace() {
    match parse_error("a } b } c {", &[]) {
        Error::BadSyntax(v) => {
            assert_eq!(v.len(), 3);
            assert_eq!(v[0].0, "unmatched `}` found");
            assert_eq!(
                v[0].1.as_deref(),
                Some("if you intended to print `}`, you can escape it using `}}`")
            );
            assert_eq!(v[1].0, "unmatched `}` found");
            assert_eq!(v[2].0, "expected `'}'` but string was terminated");
        }
        other => panic!("{:?}", other),
    }
}

#[test]
fn syntax_comes_before_resolution() {
    let e = parse_error("{nope} {", &[]);
    assert!(matches!(e, Error::BadSyntax(_)));
    let e = parse_error("{7} }", &[]);
    assert!(matches!(e, Error::BadSyntax(_)));
}

#[test]
fn white_space_is_no_part_of_a_reference() {
    assert!(matches!(parse_error("{ }", &[Param::normal(Value::I32(1))]), Error::BadSyntax(_)));
    assert!(matches!(parse_error("{0 }", &[Param::normal(Value::I32(1))]), Error::BadSyntax(_)));
    assert!(matches!(parse_error("{:-}", &[Param::normal(Value::I32(1))]), Error::BadSyntax(_)));
}

#[test]
fn numbers_too_large_are_faults() {
    match parse_error("{99999999999999999999999999999999999999999}", &[]) {
        Error::BadSyntax(v) => {
            assert_eq!(v, vec![("integer does not fit in `usize`".to_string(), None)]);
        }
        other => panic!("{:?}", other),
    }
    assert!(matches!(
        parse_error("{:99999999999999999999999999999999999999999}", &[Param::normal(Value::I32(1))]),
        Error::BadSyntax(_)
    ));
}

#[test]
fn plans_without_explicit_specifiers() {
    let p = [
        Param::normal(Value::Str("a")),
        Param::normal(Value::Str("b")),
        Param::named("c", Value::Str("c")),
    ];
    let buf = FormatBuf::new("{} {} {}", &p).unwrap();
    assert!(buf.parsed().fmt.is_none());
    assert_eq!(buf.parsed().args.len(), 3);
    assert_eq!(buf.parsed().pieces, vec!["", " ", " "]);
    assert_eq!(buf.format(), "a b c");

    let buf = FormatBuf::new("{1}{0}{c}{1}!", &p).unwrap();
    assert!(buf.parsed().fmt.is_none());
    assert_eq!(buf.parsed().args.len(), 4);
    assert_eq!(buf.parsed().pieces, vec!["", "", "", "", "!"]);
    assert_eq!(buf.format(), "bacb!");

    let buf = FormatBuf::new("no references", &p).unwrap();
    assert!(buf.parsed().fmt.is_none());
    assert_eq!(buf.parsed().pieces, vec!["no references"]);

    let buf = FormatBuf::new("", &p).unwrap();
    assert!(buf.parsed().fmt.is_none());
    assert!(buf.parsed().pieces.is_empty());
    assert_eq!(buf.format(), "");
}

#[test]
fn plans_with_explicit_specifiers() {
    let p = [
        Param::normal(Value::Str("a")),
        Param::normal(Value::Usize(3)),
    ];
    let buf = FormatBuf::new("{}-{0:>1$}", &p).unwrap();
    let plan = buf.parsed();
    let fmt = plan.fmt.as_ref().unwrap();
    assert_eq!(fmt.len(), 2);
    assert_eq!(fmt[0].position, 0);
    assert_eq!(fmt[0].format.fill, ' ');
    assert_eq!(fmt[0].format.align, Alignment::Unknown);
    assert_eq!(fmt[0].format.width, ResolvedCount::Implied);
    assert_eq!(fmt[1].position, 1);
    assert_eq!(fmt[1].format.align, Alignment::Right);
    assert_eq!(fmt[1].format.width, ResolvedCount::Param(2));
    assert_eq!(fmt[1].format.precision, ResolvedCount::Implied);
    assert_eq!(plan.args.len(), 3);
    assert_eq!(plan.args[0].role, Role::Format(FormatTrait::Display));
    assert_eq!(plan.args[1].index, 0);
    assert_eq!(plan.args[2].index, 1);
    assert_eq!(plan.args[2].role, Role::Count);
    assert_eq!(buf.format(), "a-  a");
}

#[test]
fn repeated_references_are_not_merged() {
    let p = [Param::normal(Value::I32(5))];
    let buf = FormatBuf::new("{0}{0}{0:x}", &p).unwrap();
    assert_eq!(buf.parsed().args.len(), 3);
    assert_eq!(buf.format(), "555");
}

#[test]
fn pieces_and_spans() {
    let (pieces, errors) = tokenize_text("a{{b{0:*>5.2x}c{name}}}");
    assert!(errors.is_empty());
    assert_eq!(pieces.len(), 6);
    assert_eq!(pieces[0], Piece::String(Span { start: 0, end: 1 }));
    assert_eq!(pieces[1], Piece::String(Span { start: 2, end: 4 }));
    match pieces[2] {
        Piece::NextArgument(a) => {
            assert_eq!(a.position, Position::Positional(0));
            assert_eq!(a.format.fill, Some('*'));
            assert_eq!(a.format.align, Alignment::Right);
            assert_eq!(a.format.width, Count::Literal(5));
            assert_eq!(a.format.precision, Count::Literal(2));
            assert_eq!(a.format.ty, Span { start: 12, end: 13 });
            assert!(!a.format.flags.sign_plus && !a.format.flags.alternate && !a.format.flags.zero_pad);
        }
        other => panic!("{:?}", other),
    }
    assert_eq!(pieces[3], Piece::String(Span { start: 14, end: 15 }));
    match pieces[4] {
        Piece::NextArgument(a) => {
            assert_eq!(a.position, Position::Named(Span { start: 16, end: 20 }));
            assert_eq!(a.format.ty, Span { start: 20, end: 20 });
        }
        other => panic!("{:?}", other),
    }
    assert_eq!(pieces[5], Piece::String(Span { start: 22, end: 23 }));
}

#[test]
fn flags_and_counts_as_written() {
    let (pieces, errors) = tokenize_text("{:+#0w$.*?}{:0$}{:<}{:1$.a$e}");
    assert!(errors.is_empty());
    match pieces[0] {
        Piece::NextArgument(a) => {
            assert_eq!(a.position, Position::Implicit);
            assert!(a.format.flags.sign_plus && a.format.flags.alternate && a.format.flags.zero_pad);
            assert_eq!(a.format.width, Count::FromArgument(Position::Named(Span { start: 5, end: 6 })));
            assert_eq!(a.format.precision, Count::FromArgument(Position::Implicit));
            assert_eq!(a.format.ty, Span { start: 9, end: 10 });
        }
        other => panic!("{:?}", other),
    }
    match pieces[1] {
        Piece::NextArgument(a) => {
            assert!(!a.format.flags.zero_pad);
            assert_eq!(a.format.width, Count::FromArgument(Position::Positional(0)));
        }
        other => panic!("{:?}", other),
    }
    match pieces[2] {
        Piece::NextArgument(a) => {
            assert_eq!(a.format.fill, None);
            assert_eq!(a.format.align, Alignment::Left);
        }
        other => panic!("{:?}", other),
    }
    match pieces[3] {
        Piece::NextArgument(a) => {
            assert_eq!(a.format.width, Count::FromArgument(Position::Positional(1)));
            assert!(matches!(a.format.precision, Count::FromArgument(Position::Named(_))));
        }
        other => panic!("{:?}", other),
    }
}

#[test]
fn pieces_come_one_by_one() {
    let mut parser = Parser::new("x{}}y");
    assert_eq!(parser.next(), Some(Piece::String(Span { start: 0, end: 1 })));
    assert!(parser.errors().is_empty());
    assert!(matches!(parser.next(), Some(Piece::NextArgument(_))));
    assert_eq!(parser.next(), Some(Piece::String(Span { start: 4, end: 5 })));
    assert_eq!(parser.errors(), &vec![SyntaxError::UnmatchedClose]);
    assert_eq!(parser.next(), None);
    assert_eq!(parser.next(), None);
    let mut again = Parser::new("x{}}y");
    assert_eq!(again.collect().len(), 3);
    assert_eq!(again.errors().len(), 1);
}

#[test]
fn a_digit_starts_no_name() {
    let (pieces, errors) = tokenize_text("{1a}");
    assert_eq!(errors, vec![SyntaxError::Expected { found: 'a' }, SyntaxError::UnmatchedClose]);
    assert_eq!(pieces.len(), 2);
    let (_, errors) = tokenize_text("{a1_b}");
    assert!(errors.is_empty());
    let (_, errors) = tokenize_text("{_a}");
    assert_eq!(errors.len(), 2);
    let (_, errors) = tokenize_text("{a-b}");
    assert_eq!(errors.len(), 2);
}

#[test]
fn implicit_references_have_a_cursor_of_their_own() {
    let p = [
        Param::normal(Value::Str("a")),
        Param::normal(Value::Str("b")),
        Param::named("n", Value::Str("c")),
    ];
    assert_eq!(FormatBuf::new("{} {2} {} {n} {0}", &p).unwrap().format(), "a c b c a");
    let e = parse_error("{} {} {} {}", &p);
    assert_eq!(format!("{:?}", e), "BadIndex(3)");
    let q = [
        Param::normal(Value::Usize(1)),
        Param::normal(Value::Str("xyz")),
        Param::normal(Value::Usize(2)),
        Param::normal(Value::Str("uvw")),
    ];
    assert_eq!(
        format!("{:.*}{:.*}", 1, "xyz", 2, "uvw"),
        FormatBuf::new("{:.*}{:.*}", &q).unwrap().format()
    );
    let e = parse_error("{:.*}", &[Param::normal(Value::Usize(1))]);
    assert_eq!(format!("{:?}", e), "BadIndex(1)");
}

#[test]
fn counts_must_be_integers_that_fit() {
    let e = parse_error("{:1$}", &[Param::normal(Value::Str("a")), Param::normal(Value::I32(-1))]);
    assert_eq!(format!("{:?}", e), "BadCount(1)");
    let e = parse_error("{:1$}", &[Param::normal(Value::Str("a")), Param::normal(Value::Bool(true))]);
    assert_eq!(format!("{:?}", e), "BadCount(1)");
    let e = parse_error("{:1$}", &[Param::normal(Value::Str("a")), Param::normal(Value::U128(u128::MAX))]);
    assert_eq!(format!("{:?}", e), "BadCount(1)");
    let e = parse_error("{:.9$}", &[Param::normal(Value::Str("a"))]);
    assert_eq!(format!("{:?}", e), "BadIndex(9)");
    let ok = [Param::normal(Value::Str("a")), Param::normal(Value::I64(3))];
    assert_eq!(FormatBuf::new("{:1$}|", &ok).unwrap().format(), "a  |");
}

#[test]
fn kinds_and_what_supports_them() {
    let values = [
        Param::normal(Value::Str("s")),
        Param::normal(Value::Char('c')),
        Param::normal(Value::Bool(true)),
        Param::normal(Value::I32(1)),
        Param::normal(Value::Opaque),
    ];
    let codes = ["", "?", "e", "E", "o", "p", "b", "x", "X"];
    let names = [
        "Display", "Debug", "LowerExp", "UpperExp", "Octal", "Pointer", "Binary", "LowerHex",
        "UpperHex",
    ];
    let supported = [
        [true, true, false, false, false, true, false, false, false],
        [true, true, false, false, false, false, false, false, false],
        [true, true, false, false, false, false, false, false, false],
        [true, true, true, true, true, false, true, true, true],
        [false; 9],
    ];
    for (v, row) in supported.iter().enumerate() {
        for (k, ok) in row.iter().enumerate() {
            let spec = format!("{{{}:{}}}", v, codes[k]);
            match FormatBuf::new(&spec, &values) {
                Ok(_) => assert!(*ok, "{}", spec),
                Err(e) => {
                    assert!(!*ok, "{}", spec);
                    assert_eq!(
                        format!("{:?}", e),
                        format!("UnsatisfiedFormat {{ idx: {}, must_implement: {:?} }}", v, names[k])
                    );
                }
            }
        }
    }
    for bad in ["q", "xx", "ä", "display", "P"] {
        let spec = format!("{{:{}}}", bad);
        let e = parse_error(&spec, &values);
        assert_eq!(format!("{:?}", e), format!("NoSuchFormat({:?})", bad));
    }
}
