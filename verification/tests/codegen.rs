use runtime_fmt::{
    Body, Container, DeriveInput, FieldAttribute, FieldDecl, FormatArgs, Param, PreparedFormat,
    Value, ValueType,
};

fn field(ident: Option<&str>, attrs: Vec<FieldAttribute>, ty: ValueType) -> FieldDecl {
    FieldDecl {
        ident: ident.map(|i| i.to_string()),
        attrs,
        ty,
    }
}

fn container(ident: &str, fields: Vec<FieldDecl>) -> Container {
    Container::from_ast(&DeriveInput {
        ident: ident.to_string(),
        body: Body::Struct(fields),
    })
    .unwrap()
}

#[test]
fn test_struct() {
    let schema = container(
        "Struct",
        vec![
            field(
                Some("field1"),
                vec![FieldAttribute::Aliases("alias1,alias2".to_string())],
                ValueType::Str,
            ),
            field(Some("field2"), vec![], ValueType::Str),
            field(Some("field3"), vec![], ValueType::Usize),
            field(
                Some("field4"),
                vec![FieldAttribute::Rename("renamed".to_string())],
                ValueType::Str,
            ),
            field(Some("ignored"), vec![FieldAttribute::Ignore], ValueType::Str),
        ],
    );

    assert_eq!(schema.validate_name("field1").is_some(), true);
    assert_eq!(schema.validate_name("field1"), schema.validate_name("alias1"));
    assert_eq!(schema.validate_name("field1"), schema.validate_name("alias2"));

    assert_eq!(schema.validate_name("field2").is_some(), true);
    assert_eq!(schema.validate_name("field3").is_some(), true);

    assert_eq!(schema.validate_name("field4").is_some(), false);
    assert_eq!(schema.validate_name("renamed").is_some(), true);

    assert_eq!(schema.validate_name("ignored").is_some(), false);

    assert_eq!(schema.validate_index(0), true);
    assert_eq!(schema.validate_index(1), true);
    assert_eq!(schema.validate_index(2), true);
    assert_eq!(schema.validate_index(3), true);
    assert_eq!(schema.validate_index(4), false);

    assert_eq!(schema.as_usize(0).is_some(), false);
    assert_eq!(schema.as_usize(1).is_some(), false);
    assert_eq!(schema.as_usize(2).is_some(), true);
    assert_eq!(schema.as_usize(3).is_some(), false);

    let value = [
        Param::normal(Value::Str("value1")),
        Param::normal(Value::Str("value2")),
        Param::normal(Value::Usize(123456)),
        Param::normal(Value::Str("value4")),
    ];

    let fmt = PreparedFormat::prepare(
        "{field1} {alias1} {alias2} {field2} {field3} {renamed}",
        &schema,
    )
    .unwrap()
    .format(&value)
    .unwrap();
    assert_eq!(fmt, "value1 value1 value1 value2 123456 value4");

    let fmt = PreparedFormat::prepare("{0} {1} {2} {3}", &schema)
        .unwrap()
        .format(&value)
        .unwrap();
    assert_eq!(fmt, "value1 value2 123456 value4");
}

#[test]
fn test_tuple() {
    let schema = container(
        "Tuple",
        vec![
            field(
                None,
                vec![FieldAttribute::Aliases("alias1,alias2".to_string())],
                ValueType::Str,
            ),
            field(None, vec![], ValueType::Str),
            field(None, vec![], ValueType::Usize),
            field(
                None,
                vec![FieldAttribute::Rename("renamed".to_string())],
                ValueType::Str,
            ),
            field(None, vec![FieldAttribute::Ignore], ValueType::Str),
        ],
    );

    assert_eq!(schema.validate_name("alias1").is_some(), true);
    assert_eq!(schema.validate_name("alias1"), schema.validate_name("alias2"));
    assert_eq!(schema.validate_name("renamed").is_some(), true);

    assert_eq!(schema.validate_index(0), true);
    assert_eq!(schema.validate_index(1), true);
    assert_eq!(schema.validate_index(2), true);
    assert_eq!(schema.validate_index(3), true);
    assert_eq!(schema.validate_index(4), false);

    assert_eq!(schema.as_usize(0).is_some(), false);
    assert_eq!(schema.as_usize(1).is_some(), false);
    assert_eq!(schema.as_usize(2).is_some(), true);
    assert_eq!(schema.as_usize(3).is_some(), false);

    let value = [
        Param::normal(Value::Str("value1")),
        Param::normal(Value::Str("value2")),
        Param::normal(Value::Usize(123456)),
        Param::normal(Value::Str("value3")),
    ];

    let fmt = PreparedFormat::prepare("{alias1} {alias2} {renamed}", &schema)
        .unwrap()
        .format(&value)
        .unwrap();
    assert_eq!(fmt, "value1 value1 value3");

    let fmt = PreparedFormat::prepare("{0} {1} {2} {3}", &schema)
        .unwrap()
        .format(&value)
        .unwrap();
    assert_eq!(fmt, "value1 value2 123456 value3");
}

#[test]
fn test_unit() {
    let schema = container("Unit", vec![]);

    assert_eq!(schema.validate_index(0), false);

    let fmt = PreparedFormat::prepare("", &schema)
        .unwrap()
        .format(&[])
        .unwrap();
    assert_eq!(fmt, "");
}
