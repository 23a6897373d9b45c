//! Resolution of source type references into target schemas.
//!
//! The `resolve_*` spec functions say what each conversion yields. They take
//! the names whose expansion is under way, outermost first: a reference to
//! one of those names would expand without end, and is refused with
//! [`Error::CyclicType`]. A conversion starts with no name under expansion.

use crate::avro::{
    ArrayType, ArrayTypeView, FieldDefinition, FieldDefinitionView, LogicalType, LogicalTypeView,
    PrimitiveType, RecordDefinition, RecordDefinitionView, Schema, SchemaView, UnionType,
    UnionTypeView, text_view,
};
use crate::graphql::{
    DefinitionView, Directive, DirectiveExt, DirectiveView, Document, DocumentExt, DocumentView,
    Field, FieldExt, FieldView, ObjectType, ObjectTypeExt, ObjectTypeView, Type, TypeView, Value,
    ValueView, object_named,
};
use crate::json::{JsonValue, JsonView};
use crate::lookup::{first_where, lemma_first_where, same_text};
use vstd::prelude::*;

verus! {

/// Why a conversion failed.
#[derive(Debug, PartialEq, Eq)]
pub enum Error {
    /// The name is neither built in nor that of an object type of the
    /// document.
    UnknownType(String),
    /// The name is that of an object type whose expansion was under way when
    /// a reference to it was met.
    CyclicType(String),
}

/// The view of an [`Error`].
pub enum ErrorView {
    UnknownType(Seq<char>),
    CyclicType(Seq<char>),
}

impl View for Error {
    type V = ErrorView;

    open spec fn view(&self) -> ErrorView {
        match self {
            Error::UnknownType(name) => ErrorView::UnknownType(name@),
            Error::CyclicType(name) => ErrorView::CyclicType(name@),
        }
    }
}

/// Why a document has no schema.
#[derive(Debug, PartialEq, Eq)]
pub enum RootError {
    /// The document has no object type.
    NoTypesFound,
    /// The conversion of the first object type failed.
    Conversion(Error),
}

/// The view of a [`RootError`].
pub enum RootErrorView {
    NoTypesFound,
    Conversion(ErrorView),
}

impl View for RootError {
    type V = RootErrorView;

    open spec fn view(&self) -> RootErrorView {
        match self {
            RootError::NoTypesFound => RootErrorView::NoTypesFound,
            RootError::Conversion(error) => RootErrorView::Conversion(error@),
        }
    }
}

/// The view of a conversion's result.
pub open spec fn outcome<T: View>(result: Result<T, Error>) -> Result<T::V, ErrorView> {
    match result {
        Ok(value) => Ok(value@),
        Err(error) => Err(error@),
    }
}

/// The schema of a built-in name.
///
/// `Int` and `Float` stand for the boolean primitive, as `Boolean` does.
pub open spec fn builtin_schema(name: Seq<char>) -> Option<SchemaView> {
    if name == "Boolean"@ {
        Some(SchemaView::Primitive(PrimitiveType::Boolean))
    } else if name == "Int"@ {
        Some(SchemaView::Primitive(PrimitiveType::Boolean))
    } else if name == "Float"@ {
        Some(SchemaView::Primitive(PrimitiveType::Boolean))
    } else if name == "String"@ {
        Some(SchemaView::Primitive(PrimitiveType::String))
    } else if name == "Long"@ {
        Some(SchemaView::Primitive(PrimitiveType::Long))
    } else if name == "Double"@ {
        Some(SchemaView::Primitive(PrimitiveType::Double))
    } else if name == "Bytes"@ {
        Some(SchemaView::Primitive(PrimitiveType::Bytes))
    } else if name == "UUID"@ {
        Some(SchemaView::Logical(LogicalTypeView::uuid()))
    } else {
        None
    }
}

/// A schema as it is, or in a union after the null primitive.
pub open spec fn with_nullability(schema: SchemaView, nullable: bool) -> SchemaView {
    if nullable {
        SchemaView::Union(
            UnionTypeView { variants: seq![SchemaView::Primitive(PrimitiveType::Null), schema] },
        )
    } else {
        schema
    }
}

/// The string that the directive gives for the argument `name`, empty where
/// it gives none or one that is not a string.
pub open spec fn text_argument(directive: DirectiveView, name: Seq<char>) -> Seq<char> {
    match directive.argument(name) {
        Some(ValueView::String(text)) => text,
        _ => Seq::empty(),
    }
}

/// The name that the field's `item` directive gives to the items of a list.
pub open spec fn item_name(field: FieldView) -> Option<Seq<char>> {
    match field.directive("item"@) {
        Some(directive) => Some(text_argument(directive, "name"@)),
        None => None,
    }
}

/// The default of a field: null where it has a `default` directive.
pub open spec fn default_marker(field: FieldView) -> Option<JsonView> {
    match field.directive("default"@) {
        Some(_) => Some(JsonView::Null),
        None => None,
    }
}

/// The namespace that the object type's `namespace` directive gives.
pub open spec fn namespace(object: ObjectTypeView) -> Option<Seq<char>> {
    match object.directive("namespace"@) {
        Some(directive) => Some(text_argument(directive, "qualifier"@)),
        None => None,
    }
}

/// Whether the definition is an object type whose expansion is not under way.
pub open spec fn awaits_expansion(definition: DefinitionView, expanding: Seq<Seq<char>>) -> bool {
    definition matches DefinitionView::Object(object) && !expanding.contains(object.name)
}

/// The number of object type definitions whose expansion is not under way.
/// Each expansion of a named type makes it smaller, which bounds the depth of
/// the resolution.
pub open spec fn unexpanded(definitions: Seq<DefinitionView>, expanding: Seq<Seq<char>>) -> nat
    decreases definitions.len(),
{
    if definitions.len() == 0 {
        0
    } else {
        unexpanded(definitions.drop_last(), expanding) + if awaits_expansion(
            definitions.last(),
            expanding,
        ) {
            1nat
        } else {
            0nat
        }
    }
}

/// After a name is pushed, the names under expansion are the earlier ones
/// and that name.
pub proof fn lemma_push_contains(expanding: Seq<Seq<char>>, name: Seq<char>, other: Seq<char>)
    ensures
        expanding.push(name).contains(other) <==> expanding.contains(other) || other == name,
{
    let pushed = expanding.push(name);
    if expanding.contains(other) {
        let i = choose|i: int| 0 <= i < expanding.len() && expanding[i] == other;
        assert(pushed[i] == other);
    }
    if other == name {
        assert(pushed[expanding.len() as int] == other);
    }
}

proof fn lemma_unexpanded_monotone(
    definitions: Seq<DefinitionView>,
    expanding: Seq<Seq<char>>,
    name: Seq<char>,
)
    ensures
        unexpanded(definitions, expanding.push(name)) <= unexpanded(definitions, expanding),
    decreases definitions.len(),
{
    if definitions.len() > 0 {
        lemma_unexpanded_monotone(definitions.drop_last(), expanding, name);
        if let DefinitionView::Object(object) = definitions.last() {
            lemma_push_contains(expanding, name, object.name);
        }
    }
}

proof fn lemma_unexpanded_strict(
    definitions: Seq<DefinitionView>,
    expanding: Seq<Seq<char>>,
    name: Seq<char>,
    at: int,
)
    requires
        0 <= at < definitions.len(),
        object_named(name)(definitions[at]),
        !expanding.contains(name),
    ensures
        unexpanded(definitions, expanding.push(name)) < unexpanded(definitions, expanding),
    decreases definitions.len(),
{
    let rest = definitions.drop_last();
    if let DefinitionView::Object(object) = definitions.last() {
        lemma_push_contains(expanding, name, object.name);
    }
    if at == definitions.len() - 1 {
        lemma_unexpanded_monotone(rest, expanding, name);
    } else {
        lemma_unexpanded_strict(rest, expanding, name, at);
    }
}

/// Starting to expand an object type of the document, whose expansion was not
/// under way, leaves fewer definitions to expand.
pub proof fn lemma_expansion_decreases(
    document: DocumentView,
    name: Seq<char>,
    expanding: Seq<Seq<char>>,
)
    requires
        document.object_type(name) is Some,
        !expanding.contains(name),
    ensures
        unexpanded(document.definitions, expanding.push(name)) < unexpanded(
            document.definitions,
            expanding,
        ),
{
    lemma_first_where(document.definitions, object_named(name));
    let found = first_where(document.definitions, object_named(name))->Some_0;
    let at = choose|at: int|
        0 <= at < document.definitions.len() && #[trigger] document.definitions[at] == found
            && object_named(name)(found);
    lemma_unexpanded_strict(document.definitions, expanding, name, at);
}

/// What a name resolves to: the schema of a built-in name, or the full
/// expansion of the first object type of that name in the document.
pub open spec fn resolve_named(
    name: Seq<char>,
    document: DocumentView,
    expanding: Seq<Seq<char>>,
) -> Result<SchemaView, ErrorView>
    decreases unexpanded(document.definitions, expanding), 0nat, 0nat, 0nat,
{
    match builtin_schema(name) {
        Some(schema) => Ok(schema),
        None => match document.object_type(name) {
            None => Err(ErrorView::UnknownType(name)),
            Some(object) => {
                if expanding.contains(name) {
                    Err(ErrorView::CyclicType(name))
                } else {
                    proof {
                        lemma_expansion_decreases(document, name, expanding);
                    }
                    match resolve_record(object, document, expanding.push(name)) {
                        Ok(record) => Ok(SchemaView::Record(record)),
                        Err(error) => Err(error),
                    }
                }
            },
        },
    }
}

/// What a type reference resolves to. A non-null wrapper resolves its inner
/// reference as not nullable, whatever `nullable` says; a name or a list is
/// put in a union with null where `nullable` holds.
pub open spec fn resolve_type(
    reference: TypeView,
    document: DocumentView,
    item_name: Option<Seq<char>>,
    nullable: bool,
    expanding: Seq<Seq<char>>,
) -> Result<SchemaView, ErrorView>
    decreases unexpanded(document.definitions, expanding), 1nat, reference.wrappers(), 0nat,
{
    match reference {
        TypeView::NonNullType(inner) => resolve_type(*inner, document, item_name, false, expanding),
        TypeView::NamedType(name) => match resolve_named(name, document, expanding) {
            Ok(schema) => Ok(with_nullability(schema, nullable)),
            Err(error) => Err(error),
        },
        TypeView::ListType(inner) => match resolve_array(*inner, document, item_name, expanding) {
            Ok(array) => Ok(with_nullability(SchemaView::Array(array), nullable)),
            Err(error) => Err(error),
        },
    }
}

/// The array of a list whose items have the type `inner`: the items are
/// nullable and get no name of their own.
pub open spec fn resolve_array(
    inner: TypeView,
    document: DocumentView,
    item_name: Option<Seq<char>>,
    expanding: Seq<Seq<char>>,
) -> Result<ArrayTypeView, ErrorView>
    decreases unexpanded(document.definitions, expanding), 1nat, inner.wrappers(), 1nat,
{
    match resolve_type(inner, document, None, true, expanding) {
        Ok(items) => Ok(ArrayTypeView { items: Box::new(items), name: item_name }),
        Err(error) => Err(error),
    }
}

/// The record field of a source field: its type resolved as nullable, with
/// the item name and the default that its directives give.
pub open spec fn resolve_field(
    field: FieldView,
    document: DocumentView,
    expanding: Seq<Seq<char>>,
) -> Result<FieldDefinitionView, ErrorView>
    decreases unexpanded(document.definitions, expanding), 2nat, 0nat, 0nat,
{
    match resolve_type(field.field_type, document, item_name(field), true, expanding) {
        Ok(schema) => Ok(
            FieldDefinitionView {
                name: field.name,
                field_type: schema,
                default: default_marker(field),
            },
        ),
        Err(error) => Err(error),
    }
}

/// The record fields of the source fields, in order, or the error of the
/// first field that has one.
pub open spec fn resolve_fields(
    fields: Seq<FieldView>,
    document: DocumentView,
    expanding: Seq<Seq<char>>,
) -> Result<Seq<FieldDefinitionView>, ErrorView>
    decreases unexpanded(document.definitions, expanding), 3nat, fields.len(), 0nat,
{
    if fields.len() == 0 {
        Ok(Seq::empty())
    } else {
        match resolve_fields(fields.drop_last(), document, expanding) {
            Ok(earlier) => match resolve_field(fields.last(), document, expanding) {
                Ok(field) => Ok(earlier.push(field)),
                Err(error) => Err(error),
            },
            Err(error) => Err(error),
        }
    }
}

/// The record of an object type: its name, the namespace that its directives
/// give, and its fields resolved in order.
pub open spec fn resolve_record(
    object: ObjectTypeView,
    document: DocumentView,
    expanding: Seq<Seq<char>>,
) -> Result<RecordDefinitionView, ErrorView>
    decreases unexpanded(document.definitions, expanding), 4nat, 0nat, 0nat,
{
    match resolve_fields(object.fields, document, expanding) {
        Ok(fields) => Ok(
            RecordDefinitionView { name: object.name, namespace: namespace(object), fields },
        ),
        Err(error) => Err(error),
    }
}

/// The names of the object types whose expansion is under way. Each frame
/// borrows the one outside it and the name that the caller is expanding.
enum Expanding<'a> {
    Nothing,
    Within(&'a Expanding<'a>, &'a str),
}

impl<'a> Expanding<'a> {
    /// The names, outermost first.
    spec fn view(&self) -> Seq<Seq<char>>
        decreases self,
    {
        match self {
            Expanding::Nothing => Seq::empty(),
            Expanding::Within(outer, name) => outer.view().push(name@),
        }
    }

    fn contains(&self, name: &str) -> (found: bool)
        ensures
            found == self@.contains(name@),
        decreases self,
    {
        match self {
            Expanding::Nothing => false,
            Expanding::Within(outer, inner) => {
                proof {
                    lemma_push_contains(outer@, inner@, name@);
                }
                same_text(inner, name) || outer.contains(name)
            },
        }
    }
}

/// The schema of a built-in name.
fn builtin(name: &str) -> (schema: Option<Schema>)
    ensures
        match schema {
            Some(schema) => builtin_schema(name@) == Some(schema@),
            None => builtin_schema(name@) is None,
        },
{
    if same_text(name, "Boolean") {
        Some(PrimitiveType::Boolean.schema())
    } else if same_text(name, "Int") {
        Some(PrimitiveType::Boolean.schema())
    } else if same_text(name, "Float") {
        Some(PrimitiveType::Boolean.schema())
    } else if same_text(name, "String") {
        Some(PrimitiveType::String.schema())
    } else if same_text(name, "Long") {
        Some(PrimitiveType::Long.schema())
    } else if same_text(name, "Double") {
        Some(PrimitiveType::Double.schema())
    } else if same_text(name, "Bytes") {
        Some(PrimitiveType::Bytes.schema())
    } else if same_text(name, "UUID") {
        Some(LogicalType::uuid().schema())
    } else {
        None
    }
}

/// The string that the directive gives for the argument `name`.
fn argument_text(directive: &Directive, name: &str) -> (text: String)
    ensures
        text@ == text_argument(directive@, name@),
{
    match directive.argument(name) {
        Some(Value::String(text)) => text.clone(),
        _ => String::new(),
    }
}

fn named_type_within(name: &str, document: &Document, expanding: &Expanding) -> (result: Result<
    Schema,
    Error,
>)
    ensures
        outcome(result) == resolve_named(name@, document@, expanding@),
    decreases unexpanded(document@.definitions, expanding@), 0nat, 0nat, 0nat,
{
    match builtin(name) {
        Some(schema) => Ok(schema),
        None => match document.object_type(name) {
            None => Err(Error::UnknownType(name.to_owned())),
            Some(object) => {
                if expanding.contains(name) {
                    Err(Error::CyclicType(name.to_owned()))
                } else {
                    let deeper = Expanding::Within(expanding, name);
                    proof {
                        lemma_expansion_decreases(document@, name@, expanding@);
                    }
                    let record = record_within(object, document, &deeper)?;
                    Ok(record.schema())
                }
            },
        },
    }
}

fn type_reference_within(
    reference: &Type,
    document: &Document,
    item_name: Option<String>,
    nullable: bool,
    expanding: &Expanding,
) -> (result: Result<Schema, Error>)
    ensures
        outcome(result) == resolve_type(
            reference@,
            document@,
            text_view(item_name),
            nullable,
            expanding@,
        ),
    decreases unexpanded(document@.definitions, expanding@), 1nat, reference@.wrappers(), 0nat,
{
    match reference {
        Type::NonNullType(inner) => type_reference_within(
            inner,
            document,
            item_name,
            false,
            expanding,
        ),
        Type::NamedType(name) => {
            let schema = named_type_within(name.as_str(), document, expanding)?;
            Ok(choose_nullability(schema, nullable))
        },
        Type::ListType(inner) => {
            let array = array_within(inner, document, item_name, expanding)?;
            Ok(choose_nullability(array.schema(), nullable))
        },
    }
}

fn array_within(
    inner: &Type,
    document: &Document,
    item_name: Option<String>,
    expanding: &Expanding,
) -> (result: Result<ArrayType, Error>)
    ensures
        outcome(result) == resolve_array(inner@, document@, text_view(item_name), expanding@),
    decreases unexpanded(document@.definitions, expanding@), 1nat, inner@.wrappers(), 1nat,
{
    let items = type_reference_within(inner, document, None, true, expanding)?;
    Ok(ArrayType::new(Box::new(items), item_name))
}

fn field_within(field: &Field, document: &Document, expanding: &Expanding) -> (result: Result<
    FieldDefinition,
    Error,
>)
    ensures
        outcome(result) == resolve_field(field@, document@, expanding@),
    decreases unexpanded(document@.definitions, expanding@), 2nat, 0nat, 0nat,
{
    let item_name = match field.directive("item") {
        Some(item) => Some(argument_text(item, "name")),
        None => None,
    };
    let schema = type_reference_within(&field.field_type, document, item_name, true, expanding)?;
    let default = match field.directive("default") {
        Some(_) => Some(JsonValue::Null),
        None => None,
    };
    Ok(FieldDefinition::new(field.name.clone(), schema, default))
}

/// Once the fields up to one of them have an error, all the fields have it.
pub proof fn lemma_first_error_stays(
    fields: Seq<FieldView>,
    document: DocumentView,
    expanding: Seq<Seq<char>>,
    upto: int,
    error: ErrorView,
)
    requires
        0 <= upto <= fields.len(),
        resolve_fields(fields.take(upto), document, expanding) == Err::<
            Seq<FieldDefinitionView>,
            ErrorView,
        >(error),
    ensures
        resolve_fields(fields, document, expanding) == Err::<Seq<FieldDefinitionView>, ErrorView>(
            error,
        ),
    decreases fields.len() - upto,
{
    if upto == fields.len() {
        assert(fields.take(upto) =~= fields);
    } else {
        assert(fields.take(upto + 1).drop_last() =~= fields.take(upto));
        lemma_first_error_stays(fields, document, expanding, upto + 1, error);
    }
}

fn record_within(object: &ObjectType, document: &Document, expanding: &Expanding) -> (result:
    Result<RecordDefinition, Error>)
    ensures
        outcome(result) == resolve_record(object@, document@, expanding@),
    decreases unexpanded(document@.definitions, expanding@), 4nat, 0nat, 0nat,
{
    let mut fields: Vec<FieldDefinition> = Vec::new();
    let mut i: usize = 0;
    proof {
        assert(fields@.map_values(|field: FieldDefinition| field@) =~= Seq::empty());
    }
    while i < object.fields.len()
        invariant
            i <= object.fields.len(),
            resolve_fields(object@.fields.take(i as int), document@, expanding@) == Ok::<
                Seq<FieldDefinitionView>,
                ErrorView,
            >(fields@.map_values(|field: FieldDefinition| field@)),
        decreases object.fields.len() - i,
    {
        proof {
            assert(object@.fields.take(i + 1).drop_last() =~= object@.fields.take(i as int));
        }
        match field_within(&object.fields[i], document, expanding) {
            Ok(field) => {
                proof {
                    assert(fields@.push(field).map_values(|field: FieldDefinition| field@)
                        =~= fields@.map_values(|field: FieldDefinition| field@).push(field@));
                }
                fields.push(field);
            },
            Err(error) => {
                proof {
                    lemma_first_error_stays(object@.fields, document@, expanding@, i + 1, error@);
                }
                return Err(error);
            },
        }
        i += 1;
    }
    proof {
        assert(object@.fields.take(i as int) =~= object@.fields);
    }
    let namespace = match object.directive("namespace") {
        Some(directive) => Some(argument_text(directive, "qualifier")),
        None => None,
    };
    Ok(RecordDefinition::new(object.name.clone(), namespace, fields))
}

/// Converts a named type reference.
///
/// A built-in name gives its schema. Any other name gives the record of the
/// first object type of that name, expanded in full, or
/// [`Error::UnknownType`] where the document has none.
pub fn named_type(name: &str, document: &Document) -> (result: Result<Schema, Error>)
    ensures
        outcome(result) == resolve_named(name@, document@, Seq::empty()),
{
    named_type_within(name, document, &Expanding::Nothing)
}

/// Makes a schema a union with null, where `nullable` holds.
pub fn choose_nullability(schema: Schema, nullable: bool) -> (chosen: Schema)
    ensures
        chosen@ == with_nullability(schema@, nullable),
        !nullable ==> chosen == schema,
{
    if nullable {
        let mut variants: Vec<Schema> = Vec::new();
        variants.push(PrimitiveType::Null.schema());
        variants.push(schema);
        let union = UnionType::new(variants);
        proof {
            assert(union@.variants =~= seq![SchemaView::Primitive(PrimitiveType::Null), schema@]);
        }
        union.schema()
    } else {
        schema
    }
}

/// Converts a type reference.
pub fn type_reference(
    reference: &Type,
    document: &Document,
    item_name: Option<String>,
    nullable: bool,
) -> (result: Result<Schema, Error>)
    ensures
        outcome(result) == resolve_type(
            reference@,
            document@,
            text_view(item_name),
            nullable,
            Seq::empty(),
        ),
{
    type_reference_within(reference, document, item_name, nullable, &Expanding::Nothing)
}

/// Converts a field of an object type to a field of a record.
pub fn field(source: &Field, document: &Document) -> (result: Result<FieldDefinition, Error>)
    ensures
        outcome(result) == resolve_field(source@, document@, Seq::empty()),
{
    field_within(source, document, &Expanding::Nothing)
}

/// Converts an object type to a record.
pub fn record(object: &ObjectType, document: &Document) -> (result: Result<RecordDefinition, Error>)
    ensures
        outcome(result) == resolve_record(object@, document@, Seq::empty()),
{
    record_within(object, document, &Expanding::Nothing)
}

/// Converts a list whose items have the type `inner` to an array.
pub fn array(inner: &Type, document: &Document, item_name: Option<String>) -> (result: Result<
    ArrayType,
    Error,
>)
    ensures
        outcome(result) == resolve_array(inner@, document@, text_view(item_name), Seq::empty()),
{
    array_within(inner, document, item_name, &Expanding::Nothing)
}

/// The schema of a document: the record of its first object type.
pub open spec fn resolve_root(document: DocumentView) -> Result<
    RecordDefinitionView,
    RootErrorView,
> {
    match document.first_object_type() {
        None => Err(RootErrorView::NoTypesFound),
        Some(object) => match resolve_record(object, document, Seq::empty()) {
            Ok(record) => Ok(record),
            Err(error) => Err(RootErrorView::Conversion(error)),
        },
    }
}

/// Converts the first object type of the document to a record.
pub fn root_record(document: &Document) -> (result: Result<RecordDefinition, RootError>)
    ensures
        match result {
            Ok(record) => resolve_root(document@) == Ok::<RecordDefinitionView, RootErrorView>(
                record@,
            ),
            Err(error) => resolve_root(document@) == Err::<RecordDefinitionView, RootErrorView>(
                error@,
            ),
        },
{
    match document.first_object_type() {
        None => Err(RootError::NoTypesFound),
        Some(object) => match record(object, document) {
            Ok(converted) => Ok(converted),
            Err(error) => Err(RootError::Conversion(error)),
        },
    }
}

} // verus!
