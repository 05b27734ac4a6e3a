use typestate_builder::api::builder;
use typestate_builder::builder::{BuildError, Record, RecordBuilder, StateError};
use typestate_builder::schema::{FieldDecl, RecordSchema, SchemaError, TypeRef, Value};

fn text(s: &str) -> Value {
    Value::Text(s.to_string())
}

fn kids() -> Value {
    Value::List(vec![text("Bob"), text("Carol")])
}

fn person_fields(kids_rename: Option<&str>) -> Vec<FieldDecl> {
    let kids_decl = match kids_rename {
        Some(r) => FieldDecl::renamed(
            "kids".to_string(),
            TypeRef::ListOf(Box::new(TypeRef::Text)),
            r.to_string(),
        ),
        None => FieldDecl::new("kids".to_string(), TypeRef::ListOf(Box::new(TypeRef::Text))),
    };
    vec![
        FieldDecl::new("name".to_string(), TypeRef::Text),
        FieldDecl::new("age".to_string(), TypeRef::U32),
        kids_decl,
    ]
}

fn name_age(use_defaults: bool) -> RecordSchema {
    RecordSchema::new(
        vec![
            FieldDecl::new("name".to_string(), TypeRef::Text),
            FieldDecl::new("age".to_string(), TypeRef::U32),
        ],
        use_defaults,
    )
    .unwrap()
}

#[test]
fn test_base_builder_simple() {
    let schema = RecordSchema::new(vec![FieldDecl::new("name".to_string(), TypeRef::Text)], false).unwrap();
    let builder = RecordBuilder::new(&schema);
    let person = builder.with("with_name", text("Alice")).unwrap().build();
    assert_eq!(person, Ok(Record { values: vec![text("Alice")] }));
}

#[test]
fn test_base_builder() {
    let schema = RecordSchema::new(person_fields(None), false).unwrap();
    let builder = RecordBuilder::new(&schema);
    let person = builder
        .with("with_name", text("Alice"))
        .unwrap()
        .with("with_age", Value::U32(30))
        .unwrap()
        .with("with_kids", kids())
        .unwrap()
        .build();
    assert_eq!(person, Ok(Record { values: vec![text("Alice"), Value::U32(30), kids()] }));
}

#[test]
fn test_rename_builder_function_attribute() {
    let schema = RecordSchema::new(person_fields(Some("descendents")), false).unwrap();
    let builder = RecordBuilder::new(&schema);
    let person = builder
        .with("with_name", text("Alice"))
        .unwrap()
        .with("with_age", Value::U32(30))
        .unwrap()
        .with("with_descendents", kids())
        .unwrap()
        .build();
    assert_eq!(person, Ok(Record { values: vec![text("Alice"), Value::U32(30), kids()] }));
}

#[test]
fn in_order_setters_yield_supplied_values() {
    let schema = name_age(false);
    let b = RecordBuilder::new(&schema);
    assert_eq!(b.state(), 0);
    let b = b.set_at(0, text("Ann")).unwrap();
    assert_eq!(b.state(), 1);
    let b = b.set_at(1, Value::U32(7)).unwrap();
    assert_eq!(b.state(), b.final_state());
    assert_eq!(b.build(), Ok(Record { values: vec![text("Ann"), Value::U32(7)] }));
}

#[test]
fn skipping_ahead_is_out_of_order() {
    let schema = RecordSchema::new(person_fields(None), false).unwrap();
    let b = RecordBuilder::new(&schema);
    assert!(matches!(b.set_at(2, kids()), Err(StateError::OutOfOrder(2, 0))));
}

#[test]
fn setting_twice_is_out_of_order() {
    let schema = name_age(false);
    let b = RecordBuilder::new(&schema).with("with_name", text("Alice")).unwrap();
    assert!(matches!(b.with("with_name", text("Bob")), Err(StateError::OutOfOrder(0, 1))));
}

#[test]
fn setting_in_final_state_is_out_of_order() {
    let schema = name_age(false);
    let b = RecordBuilder::new(&schema).set_at(0, text("A")).unwrap().set_at(1, Value::U32(1)).unwrap();
    assert!(matches!(b.set_at(0, text("B")), Err(StateError::OutOfOrder(0, 2))));
}

#[test]
fn position_past_the_fields_has_no_setter() {
    let schema = name_age(false);
    let b = RecordBuilder::new(&schema);
    assert!(matches!(b.set_at(2, Value::U32(1)), Err(StateError::UnknownSetter)));
}

#[test]
fn rename_exposes_only_the_new_setter() {
    let schema = RecordSchema::new(
        vec![
            FieldDecl::new("name".to_string(), TypeRef::Text),
            FieldDecl::renamed("age".to_string(), TypeRef::U32, "years".to_string()),
        ],
        false,
    )
    .unwrap();
    assert_eq!(schema.setter_position("with_years"), Some(1));
    assert_eq!(schema.setter_position("with_age"), None);
    assert_eq!(schema.setter_name(1), "with_years");
    let b = RecordBuilder::new(&schema).with("with_name", text("Alice")).unwrap();
    assert!(matches!(b.with("with_age", Value::U32(3)), Err(StateError::UnknownSetter)));
    let b = RecordBuilder::new(&schema).with("with_name", text("Alice")).unwrap();
    let r = b.with("with_years", Value::U32(3)).unwrap().build();
    assert_eq!(r, Ok(Record { values: vec![text("Alice"), Value::U32(3)] }));
}

#[test]
fn duplicate_external_name_is_refused() {
    let r = RecordSchema::new(
        vec![
            FieldDecl::new("name".to_string(), TypeRef::Text),
            FieldDecl::renamed("age".to_string(), TypeRef::U32, "name".to_string()),
        ],
        false,
    );
    assert!(matches!(r, Err(SchemaError::DuplicateExternalName(ref n)) if n == "name"));
}

#[test]
fn duplicate_declared_names_are_refused() {
    let r = RecordSchema::new(
        vec![
            FieldDecl::new("a".to_string(), TypeRef::Bool),
            FieldDecl::new("b".to_string(), TypeRef::Bool),
            FieldDecl::new("a".to_string(), TypeRef::U64),
        ],
        true,
    );
    assert!(matches!(r, Err(SchemaError::DuplicateExternalName(ref n)) if n == "a"));
}

#[test]
fn rename_can_resolve_a_clash() {
    let decls = vec![
        FieldDecl::new("a".to_string(), TypeRef::Bool),
        FieldDecl::renamed("a".to_string(), TypeRef::Bool, "b".to_string()),
        FieldDecl::new("c".to_string(), TypeRef::Bool),
    ];
    let (_, api) = builder("P", decls, false).unwrap();
    assert_eq!(api.state_types, vec!["Init", "PBuilderOfa", "PBuilderOfb", "Final"]);
    let names: Vec<&str> = api.setters.iter().map(|s| s.name.as_str()).collect();
    assert_eq!(names, vec!["with_a", "with_b", "with_c"]);
}

#[test]
fn other_types_default_to_their_own_default() {
    let schema = RecordSchema::new(
        vec![
            FieldDecl::new("id".to_string(), TypeRef::Text),
            FieldDecl::new("extra".to_string(), TypeRef::Other("Option<u8>".to_string())),
        ],
        true,
    )
    .unwrap();
    let r = RecordBuilder::new(&schema).with("with_id", text("x")).unwrap().build();
    assert_eq!(
        r,
        Ok(Record { values: vec![text("x"), Value::DefaultOf("Option<u8>".to_string())] })
    );
}

#[test]
fn empty_record_is_refused() {
    let r = RecordSchema::new(vec![], false);
    assert!(matches!(r, Err(SchemaError::EmptyRecord)));
}

#[test]
fn defaults_fill_unset_fields() {
    let schema = name_age(true);
    let b = RecordBuilder::new(&schema).with("with_name", text("Alice")).unwrap();
    assert_eq!(b.build(), Ok(Record { values: vec![text("Alice"), Value::U32(0)] }));
}

#[test]
fn defaults_for_every_type() {
    let schema = RecordSchema::new(
        vec![
            FieldDecl::new("t".to_string(), TypeRef::Text),
            FieldDecl::new("b".to_string(), TypeRef::Bool),
            FieldDecl::new("u".to_string(), TypeRef::U32),
            FieldDecl::new("w".to_string(), TypeRef::U64),
            FieldDecl::new("i".to_string(), TypeRef::I64),
            FieldDecl::new("l".to_string(), TypeRef::ListOf(Box::new(TypeRef::U32))),
        ],
        true,
    )
    .unwrap();
    let r = RecordBuilder::new(&schema).build();
    assert_eq!(
        r,
        Ok(Record {
            values: vec![
                text(""),
                Value::Bool(false),
                Value::U32(0),
                Value::U64(0),
                Value::I64(0),
                Value::List(vec![]),
            ]
        })
    );
}

#[test]
fn strict_build_before_final_state_reports_missing_field() {
    let schema = name_age(false);
    let b = RecordBuilder::new(&schema).with("with_name", text("Alice")).unwrap();
    assert_eq!(b.build(), Err(BuildError::MissingField(1)));
    let b = RecordBuilder::new(&schema);
    assert_eq!(b.build(), Err(BuildError::MissingField(0)));
}

#[test]
fn end_to_end_person() {
    let (schema, api) = builder("Person", person_fields(None), false).unwrap();
    let names: Vec<&str> = api.setters.iter().map(|s| s.name.as_str()).collect();
    assert_eq!(names, vec!["with_name", "with_age", "with_kids"]);
    let mut b = RecordBuilder::new(&schema);
    for (sig, v) in api.setters.iter().zip(vec![text("Alice"), Value::U32(30), kids()]) {
        b = b.with(&sig.name, v).unwrap();
    }
    assert_eq!(b.build(), Ok(Record { values: vec![text("Alice"), Value::U32(30), kids()] }));
}

#[test]
fn end_to_end_person_with_renamed_kids() {
    let (schema, api) = builder("Person", person_fields(Some("descendents")), false).unwrap();
    let names: Vec<&str> = api.setters.iter().map(|s| s.name.as_str()).collect();
    assert_eq!(names, vec!["with_name", "with_age", "with_descendents"]);
    let b = RecordBuilder::new(&schema)
        .with("with_name", text("Alice"))
        .unwrap()
        .with("with_age", Value::U32(30))
        .unwrap();
    let b2 = RecordBuilder::new(&schema).with("with_name", text("Alice")).unwrap();
    assert!(matches!(
        b2.with("with_age", Value::U32(30)).unwrap().with("with_kids", kids()),
        Err(StateError::UnknownSetter)
    ));
    let r = b.with("with_descendents", kids()).unwrap().build();
    assert_eq!(r, Ok(Record { values: vec![text("Alice"), Value::U32(30), kids()] }));
}
