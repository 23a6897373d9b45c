use graphql_to_avro::avro::{
    FieldDefinition, PrimitiveType, RecordDefinition, Schema, UnionType,
};
use graphql_to_avro::convert::{array, field, named_type, record, type_reference, Error};
use graphql_to_avro::graphql::{Definition, Document, Field, ObjectType, Type};

fn named(name: &str) -> Type {
    Type::NamedType(name.to_string())
}

fn list(inner: Type) -> Type {
    Type::ListType(Box::new(inner))
}

fn non_null(inner: Type) -> Type {
    Type::NonNullType(Box::new(inner))
}

fn plain_field(name: &str, field_type: Type) -> Field {
    Field { name: name.to_string(), field_type, directives: vec![] }
}

fn object(name: &str, fields: Vec<Field>) -> ObjectType {
    ObjectType { name: name.to_string(), directives: vec![], fields }
}

fn document(objects: Vec<ObjectType>) -> Document {
    Document { definitions: objects.into_iter().map(Definition::Object).collect() }
}

fn object_at(document: &Document, at: usize) -> &ObjectType {
    match &document.definitions[at] {
        Definition::Object(object) => object,
        Definition::Other => unreachable!(),
    }
}

fn cyclic(name: &str) -> Error {
    Error::CyclicType(name.to_string())
}

fn leaf_record() -> Schema {
    Schema::Record(RecordDefinition {
        name: "Leaf".to_string(),
        namespace: None,
        fields: vec![FieldDefinition {
            name: "weight".to_string(),
            field_type: Schema::Primitive(PrimitiveType::Double),
            default: None,
        }],
    })
}

fn leaf() -> ObjectType {
    object("Leaf", vec![plain_field("weight", non_null(named("Double")))])
}

#[test]
fn object_type_that_refers_to_itself_is_cyclic() {
    let source = document(vec![object("Node", vec![plain_field("next", named("Node"))])]);
    assert_eq!(record(object_at(&source, 0), &source), Err(cyclic("Node")));
    assert_eq!(named_type("Node", &source), Err(cyclic("Node")));
}

#[test]
fn self_reference_inside_wrappers_is_cyclic() {
    let source = document(vec![object(
        "Tree",
        vec![
            plain_field("label", named("String")),
            plain_field("children", non_null(list(non_null(named("Tree"))))),
        ],
    )]);
    assert_eq!(record(object_at(&source, 0), &source), Err(cyclic("Tree")));
    assert_eq!(
        type_reference(&list(named("Tree")), &source, None, true),
        Err(cyclic("Tree"))
    );
    assert_eq!(array(&named("Tree"), &source, None), Err(cyclic("Tree")));
    assert_eq!(field(&plain_field("root", named("Tree")), &source), Err(cyclic("Tree")));
}

#[test]
fn two_object_types_that_refer_to_each_other_are_cyclic() {
    let source = document(vec![
        object("Hen", vec![plain_field("egg", named("Egg"))]),
        object("Egg", vec![plain_field("hen", named("Hen"))]),
    ]);
    assert_eq!(record(object_at(&source, 0), &source), Err(cyclic("Egg")));
    assert_eq!(record(object_at(&source, 1), &source), Err(cyclic("Hen")));
    assert_eq!(named_type("Hen", &source), Err(cyclic("Hen")));
    assert_eq!(named_type("Egg", &source), Err(cyclic("Egg")));
}

#[test]
fn cycle_of_three_is_cyclic() {
    let source = document(vec![
        object("Rock", vec![plain_field("beats", non_null(named("Scissors")))]),
        object("Scissors", vec![plain_field("beats", non_null(named("Paper")))]),
        object("Paper", vec![plain_field("beats", non_null(named("Rock")))]),
    ]);
    assert_eq!(record(object_at(&source, 0), &source), Err(cyclic("Scissors")));
    assert_eq!(named_type("Rock", &source), Err(cyclic("Rock")));
    assert_eq!(named_type("Paper", &source), Err(cyclic("Paper")));
}

#[test]
fn cycle_that_the_root_only_leads_to_names_the_type_met_again() {
    let source = document(vec![
        object("Farm", vec![plain_field("name", named("String")), plain_field("hen", named("Hen"))]),
        object("Hen", vec![plain_field("egg", named("Egg"))]),
        object("Egg", vec![plain_field("hen", named("Hen"))]),
    ]);
    assert_eq!(record(object_at(&source, 0), &source), Err(cyclic("Hen")));
}

#[test]
fn object_type_used_twice_side_by_side_is_no_cycle() {
    let source = document(vec![
        object("Pair", vec![plain_field("left", non_null(named("Leaf"))), plain_field("right", non_null(named("Leaf")))]),
        leaf(),
    ]);
    let expected = RecordDefinition {
        name: "Pair".to_string(),
        namespace: None,
        fields: vec![
            FieldDefinition { name: "left".to_string(), field_type: leaf_record(), default: None },
            FieldDefinition { name: "right".to_string(), field_type: leaf_record(), default: None },
        ],
    };
    assert_eq!(record(object_at(&source, 0), &source), Ok(expected));
}

#[test]
fn object_type_reached_along_two_paths_is_no_cycle() {
    let source = document(vec![
        object("Top", vec![plain_field("a", non_null(named("Left"))), plain_field("b", non_null(named("Right")))]),
        object("Left", vec![plain_field("leaf", non_null(named("Leaf")))]),
        object("Right", vec![plain_field("leaf", named("Leaf"))]),
        leaf(),
    ]);
    let converted = record(object_at(&source, 0), &source).unwrap();
    let left = RecordDefinition {
        name: "Left".to_string(),
        namespace: None,
        fields: vec![FieldDefinition {
            name: "leaf".to_string(),
            field_type: leaf_record(),
            default: None,
        }],
    };
    let right = RecordDefinition {
        name: "Right".to_string(),
        namespace: None,
        fields: vec![FieldDefinition {
            name: "leaf".to_string(),
            field_type: Schema::Union(UnionType {
                variants: vec![Schema::Primitive(PrimitiveType::Null), leaf_record()],
            }),
            default: None,
        }],
    };
    assert_eq!(converted.fields[0].field_type, Schema::Record(left));
    assert_eq!(converted.fields[1].field_type, Schema::Record(right));
}

#[test]
fn the_first_error_wins_between_unknown_and_cyclic() {
    let unknown_first = document(vec![object(
        "Knot",
        vec![plain_field("pet", named("Ghost")), plain_field("me", named("Knot"))],
    )]);
    assert_eq!(
        record(object_at(&unknown_first, 0), &unknown_first),
        Err(Error::UnknownType("Ghost".to_string()))
    );
    let cyclic_first = document(vec![object(
        "Knot",
        vec![plain_field("me", named("Knot")), plain_field("pet", named("Ghost"))],
    )]);
    assert_eq!(record(object_at(&cyclic_first, 0), &cyclic_first), Err(cyclic("Knot")));
}

#[test]
fn long_chain_of_different_object_types_expands_to_its_end() {
    let depth = 40;
    let mut objects = Vec::new();
    for level in 0..depth {
        let next = if level + 1 < depth { format!("Level{}", level + 1) } else { "Long".to_string() };
        objects.push(object(&format!("Level{}", level), vec![plain_field("next", non_null(named(&next)))]));
    }
    let source = document(objects);
    let mut schema = Schema::Record(record(object_at(&source, 0), &source).unwrap());
    for level in 0..depth {
        let inner = match schema {
            Schema::Record(mut found) => {
                assert_eq!(found.name, format!("Level{}", level));
                assert_eq!(found.fields.len(), 1);
                found.fields.remove(0).field_type
            }
            other => panic!("a record at level {}, not {:?}", level, other),
        };
        schema = inner;
    }
    assert_eq!(schema, Schema::Primitive(PrimitiveType::Long));
}

#[test]
fn long_chain_that_closes_on_itself_is_cyclic() {
    let depth = 40;
    let mut objects = Vec::new();
    for level in 0..depth {
        let next = format!("Level{}", (level + 1) % depth);
        objects.push(object(&format!("Level{}", level), vec![plain_field("next", named(&next))]));
    }
    let source = document(objects);
    assert_eq!(record(object_at(&source, 0), &source), Err(cyclic("Level1")));
    assert_eq!(named_type("Level0", &source), Err(cyclic("Level0")));
    assert_eq!(named_type("Level7", &source), Err(cyclic("Level7")));
}

#[test]
fn object_type_given_apart_from_the_document_is_not_under_expansion() {
    let source = document(vec![leaf()]);
    let other_leaf = object("Leaf", vec![plain_field("twin", named("Leaf"))]);
    let expected = RecordDefinition {
        name: "Leaf".to_string(),
        namespace: None,
        fields: vec![FieldDefinition {
            name: "twin".to_string(),
            field_type: Schema::Union(UnionType {
                variants: vec![Schema::Primitive(PrimitiveType::Null), leaf_record()],
            }),
            default: None,
        }],
    };
    assert_eq!(record(&other_leaf, &source), Ok(expected));
}

#[test]
fn self_reference_of_an_object_type_that_the_document_lacks_is_unknown() {
    let source = document(vec![leaf()]);
    let loose = object("Loose", vec![plain_field("me", named("Loose"))]);
    assert_eq!(record(&loose, &source), Err(Error::UnknownType("Loose".to_string())));
}
