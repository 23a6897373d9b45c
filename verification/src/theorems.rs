//! What holds of every conversion, proved from the definitions in
//! [`convert`](crate::convert).

use crate::avro::{
    ArrayTypeView, FieldDefinitionView, LogicalTypeView, PrimitiveType, RecordDefinitionView,
    SchemaView, UnionTypeView,
};
use crate::convert::{
    builtin_schema, lemma_expansion_decreases, lemma_first_error_stays, lemma_push_contains,
    resolve_array, resolve_field, resolve_fields, resolve_named, resolve_record, resolve_type,
    unexpanded, with_nullability, ErrorView,
};
use crate::graphql::{DocumentView, FieldView, ObjectTypeView, TypeView};
use crate::json::JsonView;
use crate::serialize::record_json;
use vstd::prelude::*;

verus! {

/// The lengths and letters by which the built-in names differ.
proof fn lemma_builtin_names_differ()
    ensures
        "Boolean"@.len() == 7,
        "Int"@.len() == 3,
        "Float"@.len() == 5,
        "String"@.len() == 6,
        "Long"@[0] == 'L',
        "Double"@[0] == 'D',
        "Bytes"@[1] == 'y',
        "UUID"@[0] == 'U',
        "Long"@.len() == 4,
        "Double"@.len() == 6,
        "Bytes"@.len() == 5,
        "UUID"@.len() == 4,
        "String"@[0] == 'S',
        "Float"@[1] == 'l',
{
    reveal_strlit("Boolean");
    reveal_strlit("Int");
    reveal_strlit("Float");
    reveal_strlit("String");
    reveal_strlit("Long");
    reveal_strlit("Double");
    reveal_strlit("Bytes");
    reveal_strlit("UUID");
}

/// Each built-in name resolves to its schema, whatever the document holds:
/// `Boolean`, `Int` and `Float` to the boolean primitive, `String`, `Long`,
/// `Double` and `Bytes` to the primitive of the same name, and `UUID` to the
/// logical type `uuid` over `string`, without scale or precision.
pub proof fn lemma_builtin_names(document: DocumentView, expanding: Seq<Seq<char>>)
    ensures
        resolve_named("Boolean"@, document, expanding) == Ok::<SchemaView, ErrorView>(
            SchemaView::Primitive(PrimitiveType::Boolean),
        ),
        resolve_named("Int"@, document, expanding) == Ok::<SchemaView, ErrorView>(
            SchemaView::Primitive(PrimitiveType::Boolean),
        ),
        resolve_named("Float"@, document, expanding) == Ok::<SchemaView, ErrorView>(
            SchemaView::Primitive(PrimitiveType::Boolean),
        ),
        resolve_named("String"@, document, expanding) == Ok::<SchemaView, ErrorView>(
            SchemaView::Primitive(PrimitiveType::String),
        ),
        resolve_named("Long"@, document, expanding) == Ok::<SchemaView, ErrorView>(
            SchemaView::Primitive(PrimitiveType::Long),
        ),
        resolve_named("Double"@, document, expanding) == Ok::<SchemaView, ErrorView>(
            SchemaView::Primitive(PrimitiveType::Double),
        ),
        resolve_named("Bytes"@, document, expanding) == Ok::<SchemaView, ErrorView>(
            SchemaView::Primitive(PrimitiveType::Bytes),
        ),
        resolve_named("UUID"@, document, expanding) == Ok::<SchemaView, ErrorView>(
            SchemaView::Logical(
                LogicalTypeView {
                    base_type: "string"@,
                    logical_type: "uuid"@,
                    scale: None,
                    precision: None,
                },
            ),
        ),
{
    lemma_builtin_names_differ();
}

/// A reference wrapped as non-null resolves to the same result whether the
/// caller asks for a nullable schema or not.
pub proof fn lemma_non_null_ignores_nullable(
    reference: TypeView,
    document: DocumentView,
    item_name: Option<Seq<char>>,
    expanding: Seq<Seq<char>>,
)
    requires
        reference is NonNullType,
    ensures
        resolve_type(reference, document, item_name, true, expanding) == resolve_type(
            reference,
            document,
            item_name,
            false,
            expanding,
        ),
{
}

/// A name resolved as nullable is the union of the null primitive and what
/// the name resolves to, in that order.
pub proof fn lemma_nullable_name_is_union(
    name: Seq<char>,
    document: DocumentView,
    item_name: Option<Seq<char>>,
    expanding: Seq<Seq<char>>,
)
    ensures
        resolve_type(TypeView::NamedType(name), document, item_name, true, expanding) == match resolve_named(
            name,
            document,
            expanding,
        ) {
            Ok(schema) => Ok::<SchemaView, ErrorView>(
                SchemaView::Union(
                    UnionTypeView {
                        variants: seq![SchemaView::Primitive(PrimitiveType::Null), schema],
                    },
                ),
            ),
            Err(error) => Err(error),
        },
{
}

/// A list resolved as not nullable is an array, in no union, whose items are
/// the inner reference resolved as nullable and without an item name.
pub proof fn lemma_list_is_array(
    inner: TypeView,
    document: DocumentView,
    item_name: Option<Seq<char>>,
    expanding: Seq<Seq<char>>,
)
    ensures
        resolve_type(TypeView::ListType(Box::new(inner)), document, item_name, false, expanding)
            == match resolve_type(inner, document, None, true, expanding) {
            Ok(items) => Ok::<SchemaView, ErrorView>(
                SchemaView::Array(ArrayTypeView { items: Box::new(items), name: item_name }),
            ),
            Err(error) => Err(error),
        },
{
    assert(resolve_array(inner, document, item_name, expanding) == match resolve_type(
        inner,
        document,
        None,
        true,
        expanding,
    ) {
        Ok(items) => Ok::<ArrayTypeView, ErrorView>(
            ArrayTypeView { items: Box::new(items), name: item_name },
        ),
        Err(error) => Err(error),
    });
}

/// A name that is neither built in nor that of an object type of the document
/// resolves to no schema: the result is the error that names it unknown.
pub proof fn lemma_unknown_name(name: Seq<char>, document: DocumentView, expanding: Seq<Seq<char>>)
    requires
        builtin_schema(name) is None,
        document.object_type(name) is None,
    ensures
        resolve_named(name, document, expanding) == Err::<SchemaView, ErrorView>(
            ErrorView::UnknownType(name),
        ),
{
}

/// A reference has an error exactly where the name it comes down to has one,
/// and then it has that error.
pub proof fn lemma_reference_error(
    reference: TypeView,
    document: DocumentView,
    item_name: Option<Seq<char>>,
    nullable: bool,
    expanding: Seq<Seq<char>>,
)
    ensures
        match resolve_named(reference.named(), document, expanding) {
            Ok(_) => resolve_type(reference, document, item_name, nullable, expanding) is Ok,
            Err(error) => resolve_type(reference, document, item_name, nullable, expanding) == Err::<
                SchemaView,
                ErrorView,
            >(error),
        },
    decreases reference,
{
    match reference {
        TypeView::NamedType(_) => {},
        TypeView::ListType(inner) => {
            lemma_reference_error(*inner, document, None, true, expanding);
            assert(resolve_array(*inner, document, item_name, expanding) is Err <==> resolve_named(
                reference.named(),
                document,
                expanding,
            ) is Err);
        },
        TypeView::NonNullType(inner) => {
            lemma_reference_error(*inner, document, item_name, false, expanding);
        },
    }
}

/// An object type with a field whose type comes down to a name that has an
/// error has no record.
pub proof fn lemma_field_error(
    object: ObjectTypeView,
    document: DocumentView,
    expanding: Seq<Seq<char>>,
    at: int,
)
    requires
        0 <= at < object.fields.len(),
        resolve_named(object.fields[at].field_type.named(), document, expanding) is Err,
    ensures
        resolve_record(object, document, expanding) is Err,
{
    let field = object.fields[at];
    lemma_reference_error(
        field.field_type,
        document,
        crate::convert::item_name(field),
        true,
        expanding,
    );
    assert(resolve_field(field, document, expanding) is Err);
    let upto = object.fields.take(at + 1);
    assert(upto.last() == field);
    assert(resolve_fields(upto, document, expanding) is Err);
    lemma_first_error_stays(
        object.fields,
        document,
        expanding,
        at + 1,
        resolve_fields(upto, document, expanding)->Err_0,
    );
}

/// Whether some field of the object type has a type that comes down to
/// `name`.
pub open spec fn refers_to(object: ObjectTypeView, name: Seq<char>) -> bool {
    exists|i: int|
        0 <= i < object.fields.len() && (#[trigger] object.fields[i]).field_type.named() == name
}

/// Whether `chain` is a chain of references among object types: each name is
/// that of an object type of the document and not built in, and each object
/// type but the last has a field that refers to the next name.
pub open spec fn is_reference_chain(document: DocumentView, chain: Seq<Seq<char>>) -> bool {
    &&& chain.len() > 0
    &&& forall|i: int|
        0 <= i < chain.len() ==> builtin_schema(#[trigger] chain[i]) is None
            && document.object_type(chain[i]) is Some
    &&& forall|i: int|
        0 <= i < chain.len() - 1 ==> refers_to(
            document.object_type(#[trigger] chain[i])->Some_0,
            chain[i + 1],
        )
}

/// Whether the chain comes back to a name whose expansion is under way: its
/// last name is in `expanding`, or stands earlier in the chain.
pub open spec fn closes_cycle(chain: Seq<Seq<char>>, expanding: Seq<Seq<char>>) -> bool {
    expanding.contains(chain.last()) || exists|j: int|
        0 <= j < chain.len() - 1 && #[trigger] chain[j] == chain.last()
}

/// The chain that starts with `name` and goes on with `rest`.
proof fn lemma_longer_chain(
    document: DocumentView,
    name: Seq<char>,
    rest: Seq<Seq<char>>,
    expanding: Seq<Seq<char>>,
)
    requires
        builtin_schema(name) is None,
        document.object_type(name) matches Some(object) && refers_to(object, rest[0]),
        is_reference_chain(document, rest),
        closes_cycle(rest, expanding.push(name)),
    ensures
        is_reference_chain(document, seq![name] + rest),
        closes_cycle(seq![name] + rest, expanding),
{
    let chain = seq![name] + rest;
    assert(chain[0] == name);
    assert forall|i: int| 0 <= i < chain.len() implies builtin_schema(#[trigger] chain[i]) is None
        && document.object_type(chain[i]) is Some by {
        if i > 0 {
            assert(chain[i] == rest[i - 1]);
        }
    }
    assert forall|i: int| 0 <= i < chain.len() - 1 implies refers_to(
        document.object_type(#[trigger] chain[i])->Some_0,
        chain[i + 1],
    ) by {
        assert(chain[i + 1] == rest[i]);
        if i > 0 {
            assert(chain[i] == rest[i - 1]);
        }
    }
    assert(chain.last() == rest.last());
    lemma_push_contains(expanding, name, rest.last());
    if !expanding.contains(chain.last()) {
        if rest.last() == name {
            assert(chain[0] == chain.last());
        } else {
            let j = choose|j: int| 0 <= j < rest.len() - 1 && #[trigger] rest[j] == rest.last();
            assert(chain[j + 1] == chain.last());
        }
    }
}

/// A chain of references that comes back to a name whose expansion is under
/// way never resolves: a cycle among object types gives an error, and no
/// schema.
pub proof fn lemma_reference_cycle_fails(
    document: DocumentView,
    chain: Seq<Seq<char>>,
    expanding: Seq<Seq<char>>,
)
    requires
        is_reference_chain(document, chain),
        closes_cycle(chain, expanding),
    ensures
        resolve_named(chain[0], document, expanding) is Err,
    decreases chain.len(),
{
    let name = chain[0];
    assert(builtin_schema(name) is None && document.object_type(name) is Some);
    if !expanding.contains(name) && chain.len() > 1 {
        let object = document.object_type(name)->Some_0;
        let rest = chain.drop_first();
        let deeper = expanding.push(name);
        assert(refers_to(object, chain[1]));
        let at = choose|i: int|
            0 <= i < object.fields.len() && (#[trigger] object.fields[i]).field_type.named()
                == chain[1];
        assert(is_reference_chain(document, rest)) by {
            assert forall|i: int| 0 <= i < rest.len() implies builtin_schema(#[trigger] rest[i])
                is None && document.object_type(rest[i]) is Some by {
                assert(rest[i] == chain[i + 1]);
            }
            assert forall|i: int| 0 <= i < rest.len() - 1 implies refers_to(
                document.object_type(#[trigger] rest[i])->Some_0,
                rest[i + 1],
            ) by {
                assert(rest[i] == chain[i + 1]);
                assert(rest[i + 1] == chain[i + 2]);
            }
        }
        assert(rest.last() == chain.last());
        lemma_push_contains(expanding, name, chain.last());
        if !deeper.contains(rest.last()) {
            let j = choose|j: int| 0 <= j < chain.len() - 1 && #[trigger] chain[j] == chain.last();
            assert(j > 0);
            assert(rest[j - 1] == rest.last());
        }
        lemma_reference_cycle_fails(document, rest, deeper);
        assert(rest[0] == chain[1]);
        lemma_field_error(object, document, deeper, at);
    }
}

/// A name is refused as cyclic only where there is a cycle: a chain of
/// references leads from the name to the name that the error holds, and
/// there comes back to a name whose expansion is under way. The chain is
/// what the proof gives back.
pub proof fn lemma_cyclic_error_has_cycle(
    name: Seq<char>,
    document: DocumentView,
    expanding: Seq<Seq<char>>,
    refused: Seq<char>,
) -> (chain: Seq<Seq<char>>)
    requires
        resolve_named(name, document, expanding) == Err::<SchemaView, ErrorView>(
            ErrorView::CyclicType(refused),
        ),
    ensures
        is_reference_chain(document, chain),
        chain[0] == name,
        chain.last() == refused,
        closes_cycle(chain, expanding),
    decreases unexpanded(document.definitions, expanding),
{
    let object = document.object_type(name)->Some_0;
    if expanding.contains(name) {
        seq![name]
    } else {
        let deeper = expanding.push(name);
        lemma_expansion_decreases(document, name, expanding);
        lemma_fields_in_order(object.fields, document, deeper);
        let error = ErrorView::CyclicType(refused);
        let at = choose|i: int|
            0 <= i < object.fields.len() && resolve_field(
                #[trigger] object.fields[i],
                document,
                deeper,
            ) == Err::<FieldDefinitionView, ErrorView>(error);
        let field = object.fields[at];
        lemma_reference_error(
            field.field_type,
            document,
            crate::convert::item_name(field),
            true,
            deeper,
        );
        let rest = lemma_cyclic_error_has_cycle(
            field.field_type.named(),
            document,
            deeper,
            refused,
        );
        lemma_longer_chain(document, name, rest, expanding);
        seq![name] + rest
    }
}

/// A schema whose unions all stand for nullable schemas has no union with a
/// union among its variants.
pub proof fn lemma_nullable_unions_are_flat(schema: SchemaView)
    requires
        schema.unions_are_nullable(),
    ensures
        schema.unions_are_flat(),
    decreases schema,
{
    match schema {
        SchemaView::Primitive(_) => {},
        SchemaView::Logical(_) => {},
        SchemaView::Record(record) => {
            assert forall|i: int| 0 <= i < record.fields.len() implies (#[trigger] record.fields[i])
                .field_type.unions_are_flat() by {
                lemma_nullable_unions_are_flat(record.fields[i].field_type);
            }
        },
        SchemaView::Array(array) => {
            lemma_nullable_unions_are_flat(*array.items);
        },
        SchemaView::Union(union) => {
            lemma_nullable_unions_are_flat(union.variants[1]);
            assert forall|i: int| 0 <= i < union.variants.len() implies !(#[trigger] union.variants[i]
                is Union) && union.variants[i].unions_are_flat() by {
                if i == 0 {
                    assert(union.variants[0].unions_are_flat());
                }
            }
        },
    }
}

/// What a name resolves to is no union, and each of its unions stands for a
/// nullable schema.
pub proof fn lemma_named_unions(name: Seq<char>, document: DocumentView, expanding: Seq<Seq<char>>)
    ensures
        resolve_named(name, document, expanding) matches Ok(schema) ==> !(schema is Union)
            && schema.unions_are_nullable(),
    decreases unexpanded(document.definitions, expanding), 0nat, 0nat, 0nat,
{
    if builtin_schema(name) is None {
        if let Some(object) = document.object_type(name) {
            if !expanding.contains(name) {
                lemma_expansion_decreases(document, name, expanding);
                lemma_record_unions(object, document, expanding.push(name));
            }
        }
    }
}

/// Each union of what a type reference resolves to stands for a nullable
/// schema, the null primitive first: a schema is made nullable once, where
/// its reference is resolved, and never again. So no union has a union among
/// its variants.
pub proof fn lemma_type_unions(
    reference: TypeView,
    document: DocumentView,
    item_name: Option<Seq<char>>,
    nullable: bool,
    expanding: Seq<Seq<char>>,
)
    ensures
        resolve_type(reference, document, item_name, nullable, expanding) matches Ok(schema)
            ==> schema.unions_are_nullable() && schema.unions_are_flat() && (!nullable
            ==> !(schema is Union)),
    decreases unexpanded(document.definitions, expanding), 1nat, reference.wrappers(), 0nat,
{
    match reference {
        TypeView::NonNullType(inner) => {
            lemma_type_unions(*inner, document, item_name, false, expanding);
        },
        TypeView::NamedType(name) => {
            lemma_named_unions(name, document, expanding);
            if let Ok(schema) = resolve_named(name, document, expanding) {
                lemma_nullable_keeps_unions(schema, nullable);
            }
        },
        TypeView::ListType(inner) => {
            lemma_type_unions(*inner, document, None, true, expanding);
            if let Ok(items) = resolve_type(*inner, document, None, true, expanding) {
                let array = SchemaView::Array(
                    ArrayTypeView { items: Box::new(items), name: item_name },
                );
                assert(resolve_array(*inner, document, item_name, expanding) == Ok::<
                    ArrayTypeView,
                    ErrorView,
                >(ArrayTypeView { items: Box::new(items), name: item_name }));
                assert(array.unions_are_nullable());
                lemma_nullable_keeps_unions(array, nullable);
            }
        },
    }
    if let Ok(schema) = resolve_type(reference, document, item_name, nullable, expanding) {
        lemma_nullable_unions_are_flat(schema);
    }
}

/// Making a schema nullable, where the schema is no union itself, keeps
/// every union one that stands for a nullable schema.
proof fn lemma_nullable_keeps_unions(schema: SchemaView, nullable: bool)
    requires
        !(schema is Union),
        schema.unions_are_nullable(),
    ensures
        with_nullability(schema, nullable).unions_are_nullable(),
        !nullable ==> !(with_nullability(schema, nullable) is Union),
{
    if nullable {
        let variants = seq![SchemaView::Primitive(PrimitiveType::Null), schema];
        assert(variants[0] == SchemaView::Primitive(PrimitiveType::Null));
        assert(variants[1] == schema);
    }
}

/// Each union in the record fields of the source fields stands for a
/// nullable schema.
pub proof fn lemma_fields_unions(
    fields: Seq<FieldView>,
    document: DocumentView,
    expanding: Seq<Seq<char>>,
)
    ensures
        resolve_fields(fields, document, expanding) matches Ok(resolved) ==> forall|i: int|
            0 <= i < resolved.len() ==> (#[trigger] resolved[i]).field_type.unions_are_nullable(),
    decreases unexpanded(document.definitions, expanding), 3nat, fields.len(), 0nat,
{
    if fields.len() > 0 {
        lemma_fields_unions(fields.drop_last(), document, expanding);
        let field = fields.last();
        lemma_type_unions(
            field.field_type,
            document,
            crate::convert::item_name(field),
            true,
            expanding,
        );
        if let Ok(resolved) = resolve_fields(fields, document, expanding) {
            let earlier = resolve_fields(fields.drop_last(), document, expanding)->Ok_0;
            let last = resolve_field(field, document, expanding)->Ok_0;
            assert(resolved == earlier.push(last));
            assert forall|i: int| 0 <= i < resolved.len() implies (#[trigger] resolved[i])
                .field_type.unions_are_nullable() by {
                if i < earlier.len() {
                    assert(resolved[i] == earlier[i]);
                } else {
                    assert(resolved[i] == last);
                }
            }
        }
    }
}

/// Each union in the record of an object type stands for a nullable schema,
/// and none has a union among its variants.
pub proof fn lemma_record_unions(
    object: ObjectTypeView,
    document: DocumentView,
    expanding: Seq<Seq<char>>,
)
    ensures
        resolve_record(object, document, expanding) matches Ok(record) ==> SchemaView::Record(
            record,
        ).unions_are_nullable() && SchemaView::Record(record).unions_are_flat(),
    decreases unexpanded(document.definitions, expanding), 4nat, 0nat, 0nat,
{
    lemma_fields_unions(object.fields, document, expanding);
    if let Ok(record) = resolve_record(object, document, expanding) {
        lemma_nullable_unions_are_flat(SchemaView::Record(record));
    }
}

/// The record fields are those of the source fields one by one, in order,
/// where every source field has one. Otherwise the error is that of the
/// first source field that has an error.
pub proof fn lemma_fields_in_order(
    fields: Seq<FieldView>,
    document: DocumentView,
    expanding: Seq<Seq<char>>,
)
    ensures
        match resolve_fields(fields, document, expanding) {
            Ok(resolved) => resolved.len() == fields.len() && forall|i: int|
                0 <= i < fields.len() ==> resolve_field(#[trigger] fields[i], document, expanding)
                    == Ok::<FieldDefinitionView, ErrorView>(resolved[i]),
            Err(error) => exists|i: int|
                0 <= i < fields.len() && resolve_field(#[trigger] fields[i], document, expanding)
                    == Err::<FieldDefinitionView, ErrorView>(error) && forall|j: int|
                    0 <= j < i ==> resolve_field(#[trigger] fields[j], document, expanding) is Ok,
        },
    decreases fields.len(),
{
    if fields.len() > 0 {
        let front = fields.drop_last();
        lemma_fields_in_order(front, document, expanding);
        match resolve_fields(front, document, expanding) {
            Ok(earlier) => {
                assert forall|j: int| 0 <= j < front.len() implies resolve_field(
                    #[trigger] fields[j],
                    document,
                    expanding,
                ) == Ok::<FieldDefinitionView, ErrorView>(earlier[j]) by {
                    assert(fields[j] == front[j]);
                }
                match resolve_field(fields.last(), document, expanding) {
                    Ok(last) => {
                        let resolved = earlier.push(last);
                        assert forall|i: int| 0 <= i < fields.len() implies resolve_field(
                            #[trigger] fields[i],
                            document,
                            expanding,
                        ) == Ok::<FieldDefinitionView, ErrorView>(resolved[i]) by {
                            if i < front.len() {
                                assert(resolved[i] == earlier[i]);
                            }
                        }
                    },
                    Err(error) => {
                        let at = fields.len() - 1;
                        assert(fields[at] == fields.last());
                    },
                }
            },
            Err(error) => {
                let at = choose|i: int|
                    0 <= i < front.len() && resolve_field(#[trigger] front[i], document, expanding)
                        == Err::<FieldDefinitionView, ErrorView>(error) && forall|j: int|
                        0 <= j < i ==> resolve_field(#[trigger] front[j], document, expanding) is Ok;
                assert(fields[at] == front[at]);
                assert forall|j: int| 0 <= j < at implies resolve_field(
                    #[trigger] fields[j],
                    document,
                    expanding,
                ) is Ok by {
                    assert(fields[j] == front[j]);
                }
            },
        }
    }
}

/// A record is written with the member `namespace`, right after its name,
/// where it has a namespace, and with no member of that key where it has
/// none.
pub proof fn lemma_namespace_member(record: RecordDefinitionView)
    ensures
        record_json(record) matches JsonView::Object(members) && match record.namespace {
            Some(namespace) => members[2] == ("namespace"@, JsonView::String(namespace)),
            None => forall|i: int| 0 <= i < members.len() ==> (#[trigger] members[i]).0 != "namespace"@,
        },
{
    reveal_strlit("type");
    reveal_strlit("name");
    reveal_strlit("namespace");
    reveal_strlit("fields");
    assert("type"@.len() == 4);
    assert("name"@.len() == 4);
    assert("namespace"@.len() == 9);
    assert("fields"@.len() == 6);
}

/// Whether every name of `fewer` is a name of `expanding`.
pub open spec fn all_within(fewer: Seq<Seq<char>>, expanding: Seq<Seq<char>>) -> bool {
    forall|name: Seq<char>| #[trigger] fewer.contains(name) ==> expanding.contains(name)
}

proof fn lemma_push_within(fewer: Seq<Seq<char>>, expanding: Seq<Seq<char>>, name: Seq<char>)
    requires
        all_within(fewer, expanding),
    ensures
        all_within(fewer.push(name), expanding.push(name)),
{
    assert forall|other: Seq<char>| #[trigger]
        fewer.push(name).contains(other) implies expanding.push(name).contains(other) by {
        lemma_push_contains(fewer, name, other);
        lemma_push_contains(expanding, name, other);
    }
}

/// The schema that a name resolves to does not depend on the names under
/// expansion: with fewer of them the name resolves to the same schema.
pub proof fn lemma_named_with_fewer(
    name: Seq<char>,
    document: DocumentView,
    expanding: Seq<Seq<char>>,
    fewer: Seq<Seq<char>>,
)
    requires
        all_within(fewer, expanding),
    ensures
        resolve_named(name, document, expanding) matches Ok(schema) ==> resolve_named(
            name,
            document,
            fewer,
        ) == Ok::<SchemaView, ErrorView>(schema),
    decreases unexpanded(document.definitions, expanding), 0nat, 0nat, 0nat,
{
    if builtin_schema(name) is None {
        if let Some(object) = document.object_type(name) {
            if !expanding.contains(name) {
                lemma_expansion_decreases(document, name, expanding);
                lemma_push_within(fewer, expanding, name);
                lemma_record_with_fewer(object, document, expanding.push(name), fewer.push(name));
            }
        }
    }
}

/// The schema that a type reference resolves to does not depend on the names
/// under expansion.
pub proof fn lemma_type_with_fewer(
    reference: TypeView,
    document: DocumentView,
    item_name: Option<Seq<char>>,
    nullable: bool,
    expanding: Seq<Seq<char>>,
    fewer: Seq<Seq<char>>,
)
    requires
        all_within(fewer, expanding),
    ensures
        resolve_type(reference, document, item_name, nullable, expanding) matches Ok(schema)
            ==> resolve_type(reference, document, item_name, nullable, fewer) == Ok::<
            SchemaView,
            ErrorView,
        >(schema),
    decreases unexpanded(document.definitions, expanding), 1nat, reference.wrappers(), 0nat,
{
    match reference {
        TypeView::NonNullType(inner) => {
            lemma_type_with_fewer(*inner, document, item_name, false, expanding, fewer);
        },
        TypeView::NamedType(name) => {
            lemma_named_with_fewer(name, document, expanding, fewer);
        },
        TypeView::ListType(inner) => {
            lemma_type_with_fewer(*inner, document, None, true, expanding, fewer);
            assert(resolve_array(*inner, document, item_name, expanding) matches Ok(array)
                ==> resolve_array(*inner, document, item_name, fewer) == Ok::<
                ArrayTypeView,
                ErrorView,
            >(array));
        },
    }
}

/// The record fields of source fields do not depend on the names under
/// expansion.
pub proof fn lemma_fields_with_fewer(
    fields: Seq<FieldView>,
    document: DocumentView,
    expanding: Seq<Seq<char>>,
    fewer: Seq<Seq<char>>,
)
    requires
        all_within(fewer, expanding),
    ensures
        resolve_fields(fields, document, expanding) matches Ok(resolved) ==> resolve_fields(
            fields,
            document,
            fewer,
        ) == Ok::<Seq<FieldDefinitionView>, ErrorView>(resolved),
    decreases unexpanded(document.definitions, expanding), 3nat, fields.len(), 0nat,
{
    if fields.len() > 0 {
        lemma_fields_with_fewer(fields.drop_last(), document, expanding, fewer);
        let field = fields.last();
        lemma_type_with_fewer(
            field.field_type,
            document,
            crate::convert::item_name(field),
            true,
            expanding,
            fewer,
        );
        assert(resolve_field(field, document, expanding) matches Ok(resolved) ==> resolve_field(
            field,
            document,
            fewer,
        ) == Ok::<FieldDefinitionView, ErrorView>(resolved));
    }
}

/// The record of an object type does not depend on the names under
/// expansion.
pub proof fn lemma_record_with_fewer(
    object: ObjectTypeView,
    document: DocumentView,
    expanding: Seq<Seq<char>>,
    fewer: Seq<Seq<char>>,
)
    requires
        all_within(fewer, expanding),
    ensures
        resolve_record(object, document, expanding) matches Ok(record) ==> resolve_record(
            object,
            document,
            fewer,
        ) == Ok::<RecordDefinitionView, ErrorView>(record),
    decreases unexpanded(document.definitions, expanding), 4nat, 0nat, 0nat,
{
    lemma_fields_with_fewer(object.fields, document, expanding, fewer);
}

/// Wherever a name resolves, it resolves to the same schema: each use of an
/// object type is expanded in full, to the same record.
pub proof fn lemma_expansion_is_unique(
    name: Seq<char>,
    document: DocumentView,
    first: Seq<Seq<char>>,
    second: Seq<Seq<char>>,
)
    requires
        resolve_named(name, document, first) is Ok,
        resolve_named(name, document, second) is Ok,
    ensures
        resolve_named(name, document, first) == resolve_named(name, document, second),
{
    assert(all_within(Seq::empty(), first));
    assert(all_within(Seq::empty(), second));
    lemma_named_with_fewer(name, document, first, Seq::empty());
    lemma_named_with_fewer(name, document, second, Seq::empty());
}

} // verus!
