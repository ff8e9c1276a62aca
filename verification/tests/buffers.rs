use runtime_fmt::{
    Body, Container, DeriveInput, Error, FieldAttribute, FieldDecl, FormatArgs, FormatBuf, Param,
    PreparedFormat, Value, ValueType,
};

fn record(fields: Vec<(&str, ValueType)>) -> Container {
    Container::from_ast(&DeriveInput {
        ident: "Record".to_string(),
        body: Body::Struct(
            fields
                .into_iter()
                .map(|(name, ty)| FieldDecl {
                    ident: Some(name.to_string()),
                    attrs: vec![],
                    ty,
                })
                .collect(),
        ),
    })
    .unwrap()
}

#[test]
fn a_prepared_format_is_used_again_and_again() {
    let schema = record(vec![("name", ValueType::Str), ("age", ValueType::U8)]);
    let prepared = PreparedFormat::prepare("{name}", &schema).unwrap();
    for n in 0..50 {
        let name = format!("name {}", n);
        let value = [Param::normal(Value::Str(&name)), Param::normal(Value::U8(n))];
        assert_eq!(prepared.format(&value).unwrap(), name);
    }
    let both = PreparedFormat::prepare("{name:>8}: {age:#04x}", &schema).unwrap();
    for n in 0..50u8 {
        let name = format!("n{}", n);
        let value = [Param::normal(Value::Str(&name)), Param::normal(Value::U8(n))];
        assert_eq!(both.format(&value).unwrap(), format!("{:>8}: {:#04x}", name, n));
    }
}

#[test]
fn preparing_fails_as_parsing_does() {
    let schema = record(vec![("name", ValueType::Str), ("age", ValueType::U8)]);
    let shown = |spec: &str| format!("{:?}", PreparedFormat::prepare(spec, &schema).err().unwrap());
    assert_eq!(shown("{2}"), "BadIndex(2)");
    assert_eq!(shown("{} {} {}"), "BadIndex(2)");
    assert_eq!(shown("{nope}"), "BadName(\"nope\")");
    assert_eq!(shown("{name:z}"), "NoSuchFormat(\"z\")");
    assert_eq!(
        shown("{name:x}"),
        "UnsatisfiedFormat { idx: 0, must_implement: \"LowerHex\" }"
    );
    assert_eq!(shown("{name:age$}"), "BadCount(1)");
    assert!(shown("{name").starts_with("BadSyntax("));
    let values = [Param::normal(Value::Str("x")), Param::normal(Value::U8(1))];
    for spec in ["{2}", "{nope}", "{name:z}", "{name:x}"] {
        assert_eq!(
            format!("{:?}", PreparedFormat::prepare(spec, &schema).err().unwrap()),
            format!("{:?}", FormatBuf::new(spec, &[
                Param::named("name", Value::Str("x")),
                Param::named("age", Value::U8(1)),
            ]).err().unwrap())
        );
    }
    assert!(PreparedFormat::prepare("{name} {age}", &schema).unwrap().format(&values).is_ok());
}

#[test]
fn counts_come_from_fields() {
    let schema = record(vec![("text", ValueType::Str), ("width", ValueType::Usize)]);
    let prepared = PreparedFormat::prepare("({text:^width$})", &schema).unwrap();
    let a = [Param::normal(Value::Str("Wow, aligned!")), Param::normal(Value::Usize(15))];
    let b = [Param::normal(Value::Str("Wow, aligned!")), Param::normal(Value::Usize(20))];
    assert_eq!(prepared.format(&a).unwrap(), format!("({:^15})", "Wow, aligned!"));
    assert_eq!(prepared.format(&b).unwrap(), format!("({:^20})", "Wow, aligned!"));
}

#[test]
fn values_that_do_not_fit_the_record() {
    let schema = record(vec![("text", ValueType::Str), ("width", ValueType::Usize)]);
    let prepared = PreparedFormat::prepare("{text:width$}", &schema).unwrap();
    let short = [Param::normal(Value::Str("a"))];
    assert_eq!(format!("{:?}", prepared.format(&short)), "Err(BadIndex(1))");
    assert_eq!(format!("{:?}", prepared.format(&[])), "Err(BadIndex(0))");
    let negative = [Param::normal(Value::Str("a")), Param::normal(Value::Isize(-1))];
    assert_eq!(format!("{:?}", prepared.format(&negative)), "Err(BadCount(1))");
    let hex = PreparedFormat::prepare("{width:x}", &schema).unwrap();
    let swapped = [Param::normal(Value::Usize(1)), Param::normal(Value::Str("a"))];
    assert_eq!(
        format!("{:?}", hex.format(&swapped)),
        "Err(UnsatisfiedFormat { idx: 1, must_implement: \"LowerHex\" })"
    );
    let mut dest = String::from("kept");
    assert!(prepared.write_fmt(&negative, &mut dest).is_err());
    assert_eq!(dest, "kept");
}

#[test]
fn a_line_feed_at_the_end() {
    let p = [Param::normal(Value::Str("x"))];
    let mut buf = FormatBuf::new("{}", &p).unwrap();
    assert_eq!(buf.parsed().pieces.len(), 1);
    buf.newln();
    assert_eq!(buf.parsed().pieces, vec!["", "\n"]);
    assert_eq!(buf.format(), "x\n");
    buf.newln();
    assert_eq!(buf.parsed().pieces, vec!["", "\n\n"]);
    assert_eq!(buf.format(), "x\n\n");

    let mut buf = FormatBuf::new("{}!", &p).unwrap();
    buf.newln();
    assert_eq!(buf.parsed().pieces, vec!["", "!\n"]);
    assert_eq!(buf.format(), "x!\n");

    let mut buf = FormatBuf::new("{:>3}", &p).unwrap();
    buf.newln();
    assert_eq!(buf.format(), "  x\n");

    let mut buf = FormatBuf::new("", &p).unwrap();
    buf.newln();
    assert_eq!(buf.format(), "\n");

    let two = [Param::normal(Value::Str("x")), Param::normal(Value::Usize(2))];
    let mut buf = FormatBuf::new("{:1$}{}", &two).unwrap();
    buf.newln();
    assert_eq!(buf.format(), "x 2\n");

    let schema = record(vec![("left", ValueType::I32), ("right", ValueType::Str)]);
    let mut prepared = PreparedFormat::prepare("{left}: {right}", &schema).unwrap();
    prepared.newln();
    let value = [Param::normal(Value::I32(42)), Param::normal(Value::Str("Hello, world!"))];
    assert_eq!(prepared.format(&value).unwrap(), "42: Hello, world!\n");
}

#[test]
fn text_handed_on() {
    let p = [Param::normal(Value::I32(7)), Param::named("n", Value::Str("seven"))];
    let buf = FormatBuf::new("{} is {n}", &p).unwrap();
    assert_eq!(buf.with(|s| s.len()), 10);
    let mut dest = String::from("> ");
    buf.write_fmt(&mut dest);
    buf.write_fmt(&mut dest);
    assert_eq!(dest, "> 7 is seven7 is seven");
    let schema = record(vec![("a", ValueType::I32)]);
    let prepared = PreparedFormat::prepare("<{a}>", &schema).unwrap();
    let value = [Param::normal(Value::I32(-1))];
    assert_eq!(prepared.with(&value, |s| s.to_uppercase()).unwrap(), "<-1>");
    let mut dest = String::new();
    prepared.write_fmt(&value, &mut dest).unwrap();
    assert_eq!(dest, "<-1>");
}

#[test]
fn errors_as_text() {
    let cases: Vec<(Error, &str, &str)> = vec![
        (Error::BadIndex(12), "index 12 out of range", "out-of-range index"),
        (Error::BadName("a\"b".to_string()), "unknown name \"a\\\"b\"", "unknown name"),
        (
            Error::NoSuchFormat("q".to_string()),
            "bad formatting specifier \"q\"",
            "bad formatting specifier",
        ),
        (
            Error::UnsatisfiedFormat { idx: 3, must_implement: "Octal" },
            "argument 3 does not implement Octal",
            "formatting trait not satisfied",
        ),
        (
            Error::BadCount(0),
            "argument 0 cannot be used as a count",
            "non-integer used as count",
        ),
        (
            Error::BadSyntax(vec![
                ("first".to_string(), None),
                ("second".to_string(), Some("more".to_string())),
                ("third".to_string(), None),
            ]),
            "first; second (more); third",
            "bad syntax",
        ),
        (Error::BadSyntax(vec![]), "", "bad syntax"),
    ];
    for (e, text, description) in cases {
        assert_eq!(e.to_text(), text);
        assert_eq!(e.description(), description);
    }
    let e = FormatBuf::new("{\n", &[]).err().unwrap();
    assert_eq!(e.to_text(), "expected `'}'`, found `'\\n'`");
    let e = FormatBuf::new("}", &[]).err().unwrap();
    assert_eq!(
        e.to_text(),
        "unmatched `}` found (if you intended to print `}`, you can escape it using `}}`)"
    );
}

#[test]
fn parameters() {
    let p = Param::named("n", Value::U16(9));
    assert_eq!(p.name().as_deref(), Some("n"));
    assert_eq!(p.value().as_usize(), Some(9));
    assert!(p.address().is_empty());
    let q = Param::normal(Value::Str("text"));
    assert!(q.name().is_none());
    assert_eq!(q.value().as_usize(), None);
    assert_eq!(q.address(), &format!("{:p}", "text".as_ptr()));
    assert_eq!(Value::I8(-1).as_usize(), None);
    assert_eq!(Value::Isize(5).as_usize(), Some(5));
    assert_eq!(Value::Char('5').as_usize(), None);
    assert_eq!(Value::Usize(usize::MAX).as_usize(), Some(usize::MAX));
    assert_eq!(Value::I64(-7).ty(), ValueType::I64);
    let parts = Value::I8(-128).parts().unwrap();
    assert!(parts.negative);
    assert_eq!(parts.magnitude, 128);
    assert_eq!(parts.bits, 128);
    let parts = Value::I16(-2).parts().unwrap();
    assert_eq!((parts.magnitude, parts.bits), (2, 0xfffe));
    assert!(Value::Bool(true).parts().is_none());
}

#[test]
fn fields_by_index_and_name() {
    let schema = Container::from_ast(&DeriveInput {
        ident: "T".to_string(),
        body: Body::Struct(vec![
            FieldDecl { ident: Some("skipped".to_string()), attrs: vec![FieldAttribute::Ignore], ty: ValueType::Str },
            FieldDecl { ident: Some("a".to_string()), attrs: vec![], ty: ValueType::Usize },
            FieldDecl { ident: None, attrs: vec![FieldAttribute::Aliases("x,y".to_string())], ty: ValueType::I8 },
        ]),
    })
    .unwrap();
    assert_eq!(schema.ident(), "T");
    assert_eq!(schema.fields().len(), 2);
    assert_eq!(schema.fields()[0].index(), 0);
    assert_eq!(schema.fields()[0].ident(), "a");
    assert_eq!(schema.fields()[0].aliases(), &vec!["a".to_string()]);
    assert_eq!(schema.fields()[0].ty(), ValueType::Usize);
    assert_eq!(schema.fields()[1].index(), 1);
    assert_eq!(schema.fields()[1].ident(), "2");
    assert_eq!(schema.fields()[1].aliases(), &vec!["x".to_string(), "y".to_string()]);
    assert_eq!(schema.validate_name("a"), Some(0));
    assert_eq!(schema.validate_name("y"), Some(1));
    assert_eq!(schema.validate_name("skipped"), None);
    assert_eq!(schema.validate_name("2"), None);
    assert!(schema.get_child(runtime_fmt::FormatTrait::Binary, 1).is_some());
    assert!(schema.get_child(runtime_fmt::FormatTrait::Pointer, 1).is_none());
    assert!(schema.as_usize(0).is_some());
    assert!(schema.as_usize(1).is_none());
}

#[test]
fn copies_render_alike() {
    let p = [Param::normal(Value::I32(7)), Param::named("n", Value::Str("seven"))];
    let buf = FormatBuf::new("{:>4} is {n}", &p).unwrap();
    let mut copy = buf.clone();
    assert_eq!(copy.format(), buf.format());
    copy.newln();
    assert_eq!(buf.format(), "   7 is seven");
    assert_eq!(copy.format(), "   7 is seven\n");
    let schema = record(vec![("a", ValueType::I32)]);
    let prepared = PreparedFormat::prepare("<{a}>", &schema).unwrap();
    let copy = prepared.clone();
    let value = [Param::normal(Value::I32(-1))];
    assert_eq!(copy.format(&value).unwrap(), prepared.format(&value).unwrap());
}
