use runtime_fmt::schema::split_text;
use runtime_fmt::{
    combine, Attribute, Body, BoolAttribute, Container, Context, DeriveInput, Field,
    FieldAttribute, FieldDecl, FormatTrait, ValueType,
};

fn faults(fields: Vec<FieldDecl>) -> String {
    Container::from_ast(&DeriveInput {
        ident: "T".to_string(),
        body: Body::Struct(fields),
    })
    .err()
    .unwrap()
}

fn decl(ident: &str, attrs: Vec<FieldAttribute>) -> FieldDecl {
    FieldDecl {
        ident: Some(ident.to_string()),
        attrs,
        ty: ValueType::Str,
    }
}

#[test]
fn messages_are_collected() {
    let mut ctx = Context::new();
    assert_eq!(ctx.check(), Ok(()));
    assert_eq!(ctx.check(), Ok(()));
    let mut ctx = Context::new();
    ctx.error("first");
    ctx.error("second");
    assert_eq!(ctx.check(), Err("first\nsecond".to_string()));
    assert_eq!(ctx.check(), Ok(()));
    ctx.error("third");
    assert_eq!(ctx.check(), Err("third".to_string()));
    let mut ctx = Context::new();
    ctx.error("");
    assert_eq!(ctx.check(), Ok(()));
}

#[test]
fn an_attribute_is_given_once() {
    let mut ctx = Context::new();
    let mut a: Attribute<u8> = Attribute::new("rename");
    a.set(1, &mut ctx);
    a.set(2, &mut ctx);
    assert_eq!(a.into(), Some(1));
    let mut b = BoolAttribute::new("ignore");
    b.set(&mut ctx);
    b.set(&mut ctx);
    assert!(b.into());
    assert!(!BoolAttribute::new("ignore").into());
    let none: Attribute<u8> = Attribute::new("aliases");
    assert_eq!(none.into(), None);
    assert_eq!(
        ctx.check(),
        Err("Duplicate attribute provided: rename\nDuplicate attribute provided: ignore".to_string())
    );
}

#[test]
fn faults_of_a_declaration() {
    assert_eq!(
        faults(vec![
            decl("a", vec![FieldAttribute::Aliases("x,y".to_string())]),
            decl("b", vec![FieldAttribute::Aliases("y,b".to_string())]),
        ]),
        "Duplicate field alias: y\nDuplicate field alias: b"
    );
    assert_eq!(
        faults(vec![decl(
            "a",
            vec![
                FieldAttribute::Rename("x".to_string()),
                FieldAttribute::Unrecognized("Word(Ident(\"other\"))".to_string()),
                FieldAttribute::Rename("y".to_string()),
                FieldAttribute::Aliases("p".to_string()),
                FieldAttribute::Aliases("q".to_string()),
                FieldAttribute::Ignore,
                FieldAttribute::Ignore,
            ]
        )]),
        "Unrecognized attribute: Word(Ident(\"other\"))\n\
         Duplicate attribute provided: rename\n\
         Duplicate attribute provided: aliases\n\
         Duplicate attribute provided: ignore"
    );
    assert_eq!(
        faults(vec![decl("a", vec![]), decl("a", vec![])]),
        "Duplicate field alias: a"
    );
    assert_eq!(
        Container::from_ast(&DeriveInput {
            ident: "E".to_string(),
            body: Body::Enum
        })
        .err()
        .unwrap(),
        "#[derive(FormatArgs)] is not implemented for enums"
    );
    let ignored_twice = Container::from_ast(&DeriveInput {
        ident: "T".to_string(),
        body: Body::Struct(vec![
            decl("a", vec![FieldAttribute::Ignore]),
            decl("a", vec![]),
        ]),
    });
    assert!(ignored_twice.is_ok());
}

#[test]
fn a_field_from_its_declaration() {
    let mut ctx = Context::new();
    let f = Field::from_ast(
        &mut ctx,
        &FieldDecl {
            ident: Some("own".to_string()),
            attrs: vec![
                FieldAttribute::Aliases("a,,b".to_string()),
                FieldAttribute::Rename("new".to_string()),
            ],
            ty: ValueType::U32,
        },
        4,
        9,
    )
    .unwrap();
    assert_eq!(f.index(), 4);
    assert_eq!(f.ident(), "own");
    assert_eq!(f.aliases(), &vec!["a".to_string(), "".to_string(), "b".to_string(), "new".to_string()]);
    assert_eq!(f.ty(), ValueType::U32);
    let g = Field::from_ast(
        &mut ctx,
        &FieldDecl { ident: None, attrs: vec![], ty: ValueType::Bool },
        0,
        12,
    )
    .unwrap();
    assert_eq!(g.ident(), "12");
    assert!(g.aliases().is_empty());
    assert!(Field::from_ast(
        &mut ctx,
        &FieldDecl { ident: None, attrs: vec![FieldAttribute::Ignore], ty: ValueType::Bool },
        0,
        0,
    )
    .is_none());
    assert_eq!(ctx.check(), Ok(()));
}

#[test]
fn splitting_at_commas() {
    assert_eq!(split_text("a,b", ','), vec!["a", "b"]);
    assert_eq!(split_text("", ','), vec![""]);
    assert_eq!(split_text(",", ','), vec!["", ""]);
    assert_eq!(split_text("a,,é,", ','), vec!["a", "", "é", ""]);
    assert_eq!(split_text("abc", ','), vec!["abc"]);
    for s in ["", "a", ",a", "a,b,c", ",,", "x, y"] {
        let expected: Vec<&str> = s.split(",").collect();
        assert_eq!(split_text(s, ','), expected);
    }
}

#[test]
fn a_field_and_a_kind_combined() {
    let a = combine(FormatTrait::LowerHex, 3, ValueType::U8).unwrap();
    assert_eq!(a.index, 3);
    assert_eq!(a.role, runtime_fmt::plan::Role::Format(FormatTrait::LowerHex));
    assert!(combine(FormatTrait::LowerHex, 3, ValueType::Str).is_none());
    assert!(combine(FormatTrait::Display, 0, ValueType::Opaque).is_none());
    assert!(combine(FormatTrait::Pointer, 0, ValueType::Str).is_some());
    assert!(FormatTrait::Debug.allowed(ValueType::Bool));
    assert!(!FormatTrait::Octal.allowed(ValueType::Char));
    assert_eq!(FormatTrait::UpperExp.name(), "UpperExp");
}
