use runtime_fmt::{Error, FormatBuf, Param, Value};

fn rt_format_bad(spec: &str, params: &[Param]) -> Result<String, Error> {
    FormatBuf::new(spec, params).map(|buf| buf.format())
}

fn err_with(err: Error, spec: &str, params: &[Param]) {
    assert_eq!(
        format!("Err({:?})", err),
        format!("{:?}", rt_format_bad(spec, params))
    );
}

#[test]
fn bad_index() {
    err_with(Error::BadIndex(0), "{}", &[]);
    err_with(Error::BadIndex(7), "{7}", &[]);
    err_with(
        Error::BadIndex(2),
        "{} {} {}",
        &[Param::normal(Value::Str("")), Param::normal(Value::Str(""))],
    );
}

#[test]
fn bad_usize() {
    err_with(
        Error::BadCount(0),
        "{:.*}",
        &[
            Param::normal(Value::Str("Not A Usize")),
            Param::normal(Value::Str("aaaa")),
        ],
    );
}

#[test]
fn bad_syntax() {
    assert!(rt_format_bad("{-1}", &[]).is_err());
}

#[test]
fn bad_format() {
    err_with(
        Error::NoSuchFormat("q".to_string()),
        "{:q}",
        &[Param::normal(Value::Str(""))],
    );
    err_with(
        Error::UnsatisfiedFormat {
            idx: 0,
            must_implement: "Debug",
        },
        "{:?}",
        &[Param::normal(Value::Opaque)],
    );
}
