use runtime_fmt::{FormatBuf, Param, Value};

fn t(be: &str, spec: &str, params: &[Param]) {
    assert_eq!(be, FormatBuf::new(spec, params).unwrap().format());
}

#[test]
fn non_usize_pad() {
    t(
        "aaaa",
        "{:.*}",
        &[Param::normal(Value::U8(4)), Param::normal(Value::Str("aaaaaaaa"))],
    );
    t(
        "aaaa",
        "{:.*}",
        &[Param::normal(Value::U16(4)), Param::normal(Value::Str("aaaaaaaa"))],
    );
    t(
        "aaaa",
        "{:.*}",
        &[Param::normal(Value::U32(4)), Param::normal(Value::Str("aaaaaaaa"))],
    );
    t(
        "aaaa",
        "{:.*}",
        &[Param::normal(Value::U64(4)), Param::normal(Value::Str("aaaaaaaa"))],
    );
}

#[test]
fn formatted_format_str() {
    let format = format!("{}{}{}", "Hello, ", "{}", "!");
    t(
        "Hello, world!",
        &format,
        &[Param::normal(Value::Str("world"))],
    );
    drop(format);
}

#[test]
fn unused_is_fine() {
    let ab = |spec: &str| {
        FormatBuf::new(
            spec,
            &[
                Param::named("a", Value::I32(1)),
                Param::named("b", Value::I32(2)),
            ],
        )
        .unwrap()
        .format()
    };
    t("1", &ab("{a}"), &[]);
    t("2", &ab("{b}"), &[]);
    let third = FormatBuf::new(
        "{} {a}",
        &[
            Param::normal(Value::I32(3)),
            Param::normal(Value::I32(4)),
            Param::named("a", Value::I32(1)),
            Param::named("b", Value::I32(2)),
        ],
    )
    .unwrap()
    .format();
    t("3 1", &third, &[]);
}
