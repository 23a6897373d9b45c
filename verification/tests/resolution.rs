use graphql_to_avro::avro::{
    ArrayType, FieldDefinition, LogicalType, PrimitiveType, RecordDefinition, Schema, UnionType,
};
use graphql_to_avro::convert::{
    array, choose_nullability, field, named_type, record, type_reference, Error,
};
use graphql_to_avro::graphql::{
    Definition, Directive, Document, Field, ObjectType, Type, Value,
};
use graphql_to_avro::json::JsonValue;

fn named(name: &str) -> Type {
    Type::NamedType(name.to_string())
}

fn list(inner: Type) -> Type {
    Type::ListType(Box::new(inner))
}

fn non_null(inner: Type) -> Type {
    Type::NonNullType(Box::new(inner))
}

fn plain_field(name: &str, field_type: Type) -> Field {
    Field { name: name.to_string(), field_type, directives: vec![] }
}

fn object(name: &str, fields: Vec<Field>) -> ObjectType {
    ObjectType { name: name.to_string(), directives: vec![], fields }
}

fn directive(name: &str, arguments: Vec<(&str, Value)>) -> Directive {
    Directive {
        name: name.to_string(),
        arguments: arguments
            .into_iter()
            .map(|(name, value)| (name.to_string(), value))
            .collect(),
    }
}

fn text(value: &str) -> Value {
    Value::String(value.to_string())
}

fn document(objects: Vec<ObjectType>) -> Document {
    Document { definitions: objects.into_iter().map(Definition::Object).collect() }
}

fn empty() -> Document {
    Document { definitions: vec![] }
}

fn primitive(primitive: PrimitiveType) -> Schema {
    Schema::Primitive(primitive)
}

fn nullable(schema: Schema) -> Schema {
    Schema::Union(UnionType { variants: vec![Schema::Primitive(PrimitiveType::Null), schema] })
}

fn uuid() -> Schema {
    Schema::Logical(LogicalType {
        base_type: "string".to_string(),
        logical_type: "uuid".to_string(),
        scale: None,
        precision: None,
    })
}

fn point() -> ObjectType {
    object(
        "Point",
        vec![plain_field("x", non_null(named("Long"))), plain_field("y", non_null(named("Long")))],
    )
}

fn point_record() -> RecordDefinition {
    RecordDefinition {
        name: "Point".to_string(),
        namespace: None,
        fields: vec![
            FieldDefinition {
                name: "x".to_string(),
                field_type: primitive(PrimitiveType::Long),
                default: None,
            },
            FieldDefinition {
                name: "y".to_string(),
                field_type: primitive(PrimitiveType::Long),
                default: None,
            },
        ],
    }
}

#[test]
fn boolean_is_the_boolean_primitive() {
    assert_eq!(named_type("Boolean", &empty()), Ok(primitive(PrimitiveType::Boolean)));
}

#[test]
fn int_is_the_boolean_primitive() {
    assert_eq!(named_type("Int", &empty()), Ok(primitive(PrimitiveType::Boolean)));
}

#[test]
fn float_is_the_boolean_primitive() {
    assert_eq!(named_type("Float", &empty()), Ok(primitive(PrimitiveType::Boolean)));
}

#[test]
fn string_is_the_string_primitive() {
    assert_eq!(named_type("String", &empty()), Ok(primitive(PrimitiveType::String)));
}

#[test]
fn long_is_the_long_primitive() {
    assert_eq!(named_type("Long", &empty()), Ok(primitive(PrimitiveType::Long)));
}

#[test]
fn double_is_the_double_primitive() {
    assert_eq!(named_type("Double", &empty()), Ok(primitive(PrimitiveType::Double)));
}

#[test]
fn bytes_is_the_bytes_primitive() {
    assert_eq!(named_type("Bytes", &empty()), Ok(primitive(PrimitiveType::Bytes)));
}

#[test]
fn uuid_is_a_logical_string() {
    assert_eq!(named_type("UUID", &empty()), Ok(uuid()));
}

#[test]
fn built_in_names_are_case_sensitive() {
    assert_eq!(named_type("boolean", &empty()), Err(Error::UnknownType("boolean".to_string())));
    assert_eq!(named_type("uuid", &empty()), Err(Error::UnknownType("uuid".to_string())));
    assert_eq!(named_type("", &empty()), Err(Error::UnknownType("".to_string())));
}

#[test]
fn built_in_name_wins_over_an_object_type_of_that_name() {
    let shadowed = document(vec![object("String", vec![plain_field("x", named("Long"))])]);
    assert_eq!(named_type("String", &shadowed), Ok(primitive(PrimitiveType::String)));
}

#[test]
fn unknown_name_is_an_error() {
    assert_eq!(named_type("Ghost", &empty()), Err(Error::UnknownType("Ghost".to_string())));
    let other = document(vec![point()]);
    assert_eq!(named_type("Ghost", &other), Err(Error::UnknownType("Ghost".to_string())));
}

#[test]
fn definitions_that_are_no_object_types_are_unknown() {
    let scalars = Document { definitions: vec![Definition::Other, Definition::Other] };
    assert_eq!(named_type("Date", &scalars), Err(Error::UnknownType("Date".to_string())));
}

#[test]
fn object_type_name_expands_to_its_record() {
    let source = document(vec![point()]);
    assert_eq!(named_type("Point", &source), Ok(Schema::Record(point_record())));
}

#[test]
fn first_object_type_of_a_name_is_the_one_expanded() {
    let source = document(vec![
        object("Twin", vec![plain_field("first", non_null(named("String")))]),
        object("Twin", vec![plain_field("second", non_null(named("Long")))]),
    ]);
    let expected = RecordDefinition {
        name: "Twin".to_string(),
        namespace: None,
        fields: vec![FieldDefinition {
            name: "first".to_string(),
            field_type: primitive(PrimitiveType::String),
            default: None,
        }],
    };
    assert_eq!(named_type("Twin", &source), Ok(Schema::Record(expected)));
}

#[test]
fn choose_nullability_false_keeps_the_schema() {
    assert_eq!(
        choose_nullability(primitive(PrimitiveType::Long), false),
        primitive(PrimitiveType::Long)
    );
}

#[test]
fn choose_nullability_true_puts_null_first() {
    assert_eq!(
        choose_nullability(primitive(PrimitiveType::Long), true),
        Schema::Union(UnionType {
            variants: vec![primitive(PrimitiveType::Null), primitive(PrimitiveType::Long)],
        })
    );
}

#[test]
fn non_null_reference_ignores_the_nullable_flag() {
    let reference = non_null(named("String"));
    let asked_nullable = type_reference(&reference, &empty(), None, true);
    let asked_plain = type_reference(&reference, &empty(), None, false);
    assert_eq!(asked_nullable, Ok(primitive(PrimitiveType::String)));
    assert_eq!(asked_nullable, asked_plain);
}

#[test]
fn non_null_list_ignores_the_nullable_flag() {
    let reference = non_null(list(named("Long")));
    let expected = Schema::Array(ArrayType {
        items: Box::new(nullable(primitive(PrimitiveType::Long))),
        name: None,
    });
    assert_eq!(type_reference(&reference, &empty(), None, true), Ok(expected));
    assert_eq!(
        type_reference(&reference, &empty(), None, true),
        type_reference(&reference, &empty(), None, false)
    );
}

#[test]
fn nullable_name_is_a_union_with_null_first() {
    assert_eq!(
        type_reference(&named("String"), &empty(), None, true),
        Ok(Schema::Union(UnionType {
            variants: vec![primitive(PrimitiveType::Null), primitive(PrimitiveType::String)],
        }))
    );
}

#[test]
fn nullable_record_is_a_union_with_null_first() {
    let source = document(vec![point()]);
    assert_eq!(
        type_reference(&named("Point"), &source, None, true),
        Ok(Schema::Union(UnionType {
            variants: vec![primitive(PrimitiveType::Null), Schema::Record(point_record())],
        }))
    );
}

#[test]
fn plain_name_is_not_wrapped() {
    assert_eq!(type_reference(&named("UUID"), &empty(), None, false), Ok(uuid()));
}

#[test]
fn list_that_is_not_nullable_is_a_bare_array() {
    assert_eq!(
        type_reference(&list(named("String")), &empty(), None, false),
        Ok(Schema::Array(ArrayType {
            items: Box::new(nullable(primitive(PrimitiveType::String))),
            name: None,
        }))
    );
}

#[test]
fn nullable_list_is_a_union_of_null_and_the_array() {
    assert_eq!(
        type_reference(&list(named("String")), &empty(), None, true),
        Ok(nullable(Schema::Array(ArrayType {
            items: Box::new(nullable(primitive(PrimitiveType::String))),
            name: None,
        })))
    );
}

#[test]
fn list_of_non_null_items_has_bare_items() {
    assert_eq!(
        type_reference(&list(non_null(named("Double"))), &empty(), None, false),
        Ok(Schema::Array(ArrayType {
            items: Box::new(primitive(PrimitiveType::Double)),
            name: None,
        }))
    );
}

#[test]
fn item_name_goes_to_the_outer_array_only() {
    let reference = list(list(named("Bytes")));
    let inner = Schema::Array(ArrayType {
        items: Box::new(nullable(primitive(PrimitiveType::Bytes))),
        name: None,
    });
    assert_eq!(
        type_reference(&reference, &empty(), Some("row".to_string()), false),
        Ok(Schema::Array(ArrayType {
            items: Box::new(nullable(inner)),
            name: Some("row".to_string()),
        }))
    );
}

#[test]
fn item_name_passes_through_a_non_null_wrapper() {
    assert_eq!(
        type_reference(&non_null(list(named("Long"))), &empty(), Some("n".to_string()), true),
        Ok(Schema::Array(ArrayType {
            items: Box::new(nullable(primitive(PrimitiveType::Long))),
            name: Some("n".to_string()),
        }))
    );
}

#[test]
fn item_name_is_dropped_for_a_name() {
    assert_eq!(
        type_reference(&named("Long"), &empty(), Some("unused".to_string()), false),
        Ok(primitive(PrimitiveType::Long))
    );
}

#[test]
fn unknown_name_inside_wrappers_is_an_error() {
    let reference = non_null(list(non_null(named("Ghost"))));
    assert_eq!(
        type_reference(&reference, &empty(), None, true),
        Err(Error::UnknownType("Ghost".to_string()))
    );
}

#[test]
fn array_has_nullable_items_and_the_given_name() {
    assert_eq!(
        array(&named("String"), &empty(), Some("entry".to_string())),
        Ok(ArrayType {
            items: Box::new(nullable(primitive(PrimitiveType::String))),
            name: Some("entry".to_string()),
        })
    );
}

#[test]
fn array_without_a_name() {
    assert_eq!(
        array(&non_null(named("Long")), &empty(), None),
        Ok(ArrayType { items: Box::new(primitive(PrimitiveType::Long)), name: None })
    );
}

#[test]
fn array_of_unknown_items_is_an_error() {
    assert_eq!(
        array(&named("Ghost"), &empty(), None),
        Err(Error::UnknownType("Ghost".to_string()))
    );
}

#[test]
fn field_is_nullable_by_default() {
    assert_eq!(
        field(&plain_field("age", named("Int")), &empty()),
        Ok(FieldDefinition {
            name: "age".to_string(),
            field_type: nullable(primitive(PrimitiveType::Boolean)),
            default: None,
        })
    );
}

#[test]
fn field_of_non_null_type_is_bare() {
    assert_eq!(
        field(&plain_field("id", non_null(named("UUID"))), &empty()),
        Ok(FieldDefinition { name: "id".to_string(), field_type: uuid(), default: None })
    );
}

#[test]
fn field_with_default_directive_has_a_null_default() {
    let source = Field {
        name: "nick".to_string(),
        field_type: named("String"),
        directives: vec![directive("default", vec![])],
    };
    assert_eq!(
        field(&source, &empty()),
        Ok(FieldDefinition {
            name: "nick".to_string(),
            field_type: nullable(primitive(PrimitiveType::String)),
            default: Some(JsonValue::Null),
        })
    );
}

#[test]
fn default_directive_arguments_are_not_read() {
    let source = Field {
        name: "count".to_string(),
        field_type: non_null(named("Long")),
        directives: vec![directive("default", vec![("value", text("7"))])],
    };
    assert_eq!(
        field(&source, &empty()),
        Ok(FieldDefinition {
            name: "count".to_string(),
            field_type: primitive(PrimitiveType::Long),
            default: Some(JsonValue::Null),
        })
    );
}

#[test]
fn item_directive_names_the_array() {
    let source = Field {
        name: "tags".to_string(),
        field_type: non_null(list(non_null(named("String")))),
        directives: vec![directive("item", vec![("name", text("tag"))])],
    };
    assert_eq!(
        field(&source, &empty()),
        Ok(FieldDefinition {
            name: "tags".to_string(),
            field_type: Schema::Array(ArrayType {
                items: Box::new(primitive(PrimitiveType::String)),
                name: Some("tag".to_string()),
            }),
            default: None,
        })
    );
}

#[test]
fn item_directive_with_a_name_that_is_no_string_gives_an_empty_name() {
    let source = Field {
        name: "tags".to_string(),
        field_type: non_null(list(named("String"))),
        directives: vec![directive("item", vec![("name", Value::Other)])],
    };
    assert_eq!(
        field(&source, &empty()),
        Ok(FieldDefinition {
            name: "tags".to_string(),
            field_type: Schema::Array(ArrayType {
                items: Box::new(nullable(primitive(PrimitiveType::String))),
                name: Some("".to_string()),
            }),
            default: None,
        })
    );
}

#[test]
fn item_directive_without_a_name_gives_an_empty_name() {
    let source = Field {
        name: "tags".to_string(),
        field_type: non_null(list(named("String"))),
        directives: vec![directive("item", vec![("label", text("tag"))])],
    };
    assert_eq!(
        field(&source, &empty()),
        Ok(FieldDefinition {
            name: "tags".to_string(),
            field_type: Schema::Array(ArrayType {
                items: Box::new(nullable(primitive(PrimitiveType::String))),
                name: Some("".to_string()),
            }),
            default: None,
        })
    );
}

#[test]
fn field_without_item_directive_has_no_array_name() {
    let source = plain_field("tags", non_null(list(named("String"))));
    assert_eq!(
        field(&source, &empty()),
        Ok(FieldDefinition {
            name: "tags".to_string(),
            field_type: Schema::Array(ArrayType {
                items: Box::new(nullable(primitive(PrimitiveType::String))),
                name: None,
            }),
            default: None,
        })
    );
}

#[test]
fn first_item_directive_is_the_one_read() {
    let source = Field {
        name: "tags".to_string(),
        field_type: non_null(list(named("String"))),
        directives: vec![
            directive("other", vec![("name", text("no"))]),
            directive("item", vec![("skip", text("no")), ("name", text("one")), ("name", text("two"))]),
            directive("item", vec![("name", text("three"))]),
        ],
    };
    let converted = field(&source, &empty()).unwrap();
    assert_eq!(
        converted.field_type,
        Schema::Array(ArrayType {
            items: Box::new(nullable(primitive(PrimitiveType::String))),
            name: Some("one".to_string()),
        })
    );
}

#[test]
fn field_of_unknown_type_is_an_error() {
    assert_eq!(
        field(&plain_field("pet", named("Ghost")), &empty()),
        Err(Error::UnknownType("Ghost".to_string()))
    );
}

#[test]
fn record_keeps_name_and_field_order() {
    let source = object(
        "Person",
        vec![
            plain_field("name", non_null(named("String"))),
            plain_field("age", named("Int")),
            plain_field("id", non_null(named("UUID"))),
        ],
    );
    let expected = RecordDefinition {
        name: "Person".to_string(),
        namespace: None,
        fields: vec![
            FieldDefinition {
                name: "name".to_string(),
                field_type: primitive(PrimitiveType::String),
                default: None,
            },
            FieldDefinition {
                name: "age".to_string(),
                field_type: nullable(primitive(PrimitiveType::Boolean)),
                default: None,
            },
            FieldDefinition { name: "id".to_string(), field_type: uuid(), default: None },
        ],
    };
    assert_eq!(record(&source, &empty()), Ok(expected));
}

#[test]
fn record_without_fields() {
    assert_eq!(
        record(&object("Empty", vec![]), &empty()),
        Ok(RecordDefinition { name: "Empty".to_string(), namespace: None, fields: vec![] })
    );
}

#[test]
fn record_takes_its_namespace_from_the_qualifier() {
    let source = ObjectType {
        name: "Person".to_string(),
        directives: vec![directive("namespace", vec![("qualifier", text("com.example"))])],
        fields: vec![],
    };
    assert_eq!(
        record(&source, &empty()),
        Ok(RecordDefinition {
            name: "Person".to_string(),
            namespace: Some("com.example".to_string()),
            fields: vec![],
        })
    );
}

#[test]
fn namespace_directive_without_qualifier_gives_an_empty_namespace() {
    let source = ObjectType {
        name: "Person".to_string(),
        directives: vec![directive("namespace", vec![])],
        fields: vec![],
    };
    assert_eq!(record(&source, &empty()).unwrap().namespace, Some("".to_string()));
}

#[test]
fn namespace_qualifier_that_is_no_string_gives_an_empty_namespace() {
    let source = ObjectType {
        name: "Person".to_string(),
        directives: vec![directive("namespace", vec![("qualifier", Value::Other)])],
        fields: vec![],
    };
    assert_eq!(record(&source, &empty()).unwrap().namespace, Some("".to_string()));
}

#[test]
fn record_without_namespace_directive_has_no_namespace() {
    let source = ObjectType {
        name: "Person".to_string(),
        directives: vec![directive("deprecated", vec![("qualifier", text("com.example"))])],
        fields: vec![],
    };
    assert_eq!(record(&source, &empty()).unwrap().namespace, None);
}

#[test]
fn record_fails_with_the_error_of_its_first_failing_field() {
    let source = object(
        "Broken",
        vec![
            plain_field("fine", named("String")),
            plain_field("first", named("Ghost")),
            plain_field("second", named("Phantom")),
        ],
    );
    assert_eq!(record(&source, &empty()), Err(Error::UnknownType("Ghost".to_string())));
}

#[test]
fn nested_object_types_are_expanded_in_full() {
    let source = document(vec![
        object("Line", vec![plain_field("from", non_null(named("Point"))), plain_field("to", named("Point"))]),
        point(),
    ]);
    let expected = RecordDefinition {
        name: "Line".to_string(),
        namespace: None,
        fields: vec![
            FieldDefinition {
                name: "from".to_string(),
                field_type: Schema::Record(point_record()),
                default: None,
            },
            FieldDefinition {
                name: "to".to_string(),
                field_type: nullable(Schema::Record(point_record())),
                default: None,
            },
        ],
    };
    let root = match &source.definitions[0] {
        Definition::Object(root) => root,
        Definition::Other => unreachable!(),
    };
    assert_eq!(record(root, &source), Ok(expected));
}

#[test]
fn error_in_a_nested_object_type_comes_up() {
    let source = document(vec![
        object("Outer", vec![plain_field("inner", named("Inner"))]),
        object("Inner", vec![plain_field("pet", list(named("Ghost")))]),
    ]);
    assert_eq!(named_type("Outer", &source), Err(Error::UnknownType("Ghost".to_string())));
}

#[test]
fn record_of_an_object_type_that_the_document_lacks() {
    let source = document(vec![point()]);
    let loose = object("Loose", vec![plain_field("at", non_null(named("Point")))]);
    assert_eq!(
        record(&loose, &source),
        Ok(RecordDefinition {
            name: "Loose".to_string(),
            namespace: None,
            fields: vec![FieldDefinition {
                name: "at".to_string(),
                field_type: Schema::Record(point_record()),
                default: None,
            }],
        })
    );
}
