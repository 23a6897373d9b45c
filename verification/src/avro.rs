//! The target schema tree: primitives, records, arrays, unions and logical
//! types, each with a view over `Seq`.

use crate::json::{JsonValue, JsonView};
use vstd::prelude::*;

verus! {

/// The primitive types of the schema language.
#[derive(Clone, Copy, Debug, PartialEq, Eq, Structural)]
pub enum PrimitiveType {
    Null,
    Boolean,
    Int,
    Long,
    Float,
    Double,
    Bytes,
    String,
}

/// A schema node.
#[derive(Debug, PartialEq, Eq)]
pub enum Schema {
    Primitive(PrimitiveType),
    Record(RecordDefinition),
    Array(ArrayType),
    Union(UnionType),
    Logical(LogicalType),
}

/// A record: a name, a namespace if one was given, and fields in order.
#[derive(Debug, PartialEq, Eq)]
pub struct RecordDefinition {
    pub name: String,
    pub namespace: Option<String>,
    pub fields: Vec<FieldDefinition>,
}

/// A field of a record.
#[derive(Debug, PartialEq, Eq)]
pub struct FieldDefinition {
    pub name: String,
    pub field_type: Schema,
    /// The default value, where the field has one.
    pub default: Option<JsonValue>,
}

/// An array of items of one schema. The name is an extension that readers of
/// the schema may ignore.
#[derive(Debug, PartialEq, Eq)]
pub struct ArrayType {
    pub items: Box<Schema>,
    pub name: Option<String>,
}

/// A union: its variants in order.
#[derive(Debug, PartialEq, Eq)]
pub struct UnionType {
    pub variants: Vec<Schema>,
}

/// A primitive type, named by `base_type`, that carries a logical meaning.
#[derive(Debug, PartialEq, Eq)]
pub struct LogicalType {
    pub base_type: String,
    pub logical_type: String,
    pub scale: Option<u8>,
    pub precision: Option<u8>,
}

/// The view of a [`Schema`].
pub enum SchemaView {
    Primitive(PrimitiveType),
    Record(RecordDefinitionView),
    Array(ArrayTypeView),
    Union(UnionTypeView),
    Logical(LogicalTypeView),
}

/// The view of a [`RecordDefinition`].
pub struct RecordDefinitionView {
    pub name: Seq<char>,
    pub namespace: Option<Seq<char>>,
    pub fields: Seq<FieldDefinitionView>,
}

/// The view of a [`FieldDefinition`].
pub struct FieldDefinitionView {
    pub name: Seq<char>,
    pub field_type: SchemaView,
    pub default: Option<JsonView>,
}

/// The view of an [`ArrayType`].
pub struct ArrayTypeView {
    pub items: Box<SchemaView>,
    pub name: Option<Seq<char>>,
}

/// The view of a [`UnionType`].
pub struct UnionTypeView {
    pub variants: Seq<SchemaView>,
}

/// The view of a [`LogicalType`].
pub struct LogicalTypeView {
    pub base_type: Seq<char>,
    pub logical_type: Seq<char>,
    pub scale: Option<u8>,
    pub precision: Option<u8>,
}

impl SchemaView {
    /// Whether no union of the schema has a union among its variants.
    pub open spec fn unions_are_flat(self) -> bool
        decreases self,
    {
        match self {
            SchemaView::Primitive(_) => true,
            SchemaView::Logical(_) => true,
            SchemaView::Record(record) => forall|i: int|
                0 <= i < record.fields.len() ==> (#[trigger] record.fields[i]).field_type.unions_are_flat(),
            SchemaView::Array(array) => array.items.unions_are_flat(),
            SchemaView::Union(union) => forall|i: int|
                0 <= i < union.variants.len() ==> !(#[trigger] union.variants[i] is Union)
                    && union.variants[i].unions_are_flat(),
        }
    }

    /// Whether every union of the schema stands for a nullable schema: the
    /// null primitive first, then one schema that is no union.
    pub open spec fn unions_are_nullable(self) -> bool
        decreases self,
    {
        match self {
            SchemaView::Primitive(_) => true,
            SchemaView::Logical(_) => true,
            SchemaView::Record(record) => forall|i: int|
                0 <= i < record.fields.len() ==> (#[trigger] record.fields[i]).field_type.unions_are_nullable(),
            SchemaView::Array(array) => array.items.unions_are_nullable(),
            SchemaView::Union(union) => {
                &&& union.variants.len() == 2
                &&& union.variants[0] == SchemaView::Primitive(PrimitiveType::Null)
                &&& !(union.variants[1] is Union)
                &&& union.variants[1].unions_are_nullable()
            },
        }
    }
}

impl LogicalTypeView {
    /// The logical type of a UUID: a string, without scale or precision.
    pub open spec fn uuid() -> LogicalTypeView {
        LogicalTypeView {
            base_type: "string"@,
            logical_type: "uuid"@,
            scale: None,
            precision: None,
        }
    }
}

/// The view of an optional string.
pub open spec fn text_view(text: Option<String>) -> Option<Seq<char>> {
    match text {
        Some(text) => Some(text@),
        None => None,
    }
}

/// The view of an optional JSON value.
pub open spec fn default_view(default: Option<JsonValue>) -> Option<JsonView> {
    match default {
        Some(value) => Some(value@),
        None => None,
    }
}

/// The view of a schema node, by recursion on its structure.
pub open spec fn schema_view(schema: &Schema) -> SchemaView
    decreases schema,
{
    match schema {
        Schema::Primitive(primitive) => SchemaView::Primitive(*primitive),
        Schema::Record(record) => SchemaView::Record(
            RecordDefinitionView {
                name: record.name@,
                namespace: text_view(record.namespace),
                fields: Seq::new(
                    record.fields@.len(),
                    |i: int|
                        FieldDefinitionView {
                            name: record.fields@[i].name@,
                            field_type: if 0 <= i < record.fields@.len() {
                                schema_view(&record.fields@[i].field_type)
                            } else {
                                SchemaView::Primitive(PrimitiveType::Null)
                            },
                            default: default_view(record.fields@[i].default),
                        },
                ),
            },
        ),
        Schema::Array(array) => SchemaView::Array(
            ArrayTypeView { items: Box::new(schema_view(&array.items)), name: text_view(array.name) },
        ),
        Schema::Union(union) => SchemaView::Union(
            UnionTypeView {
                variants: Seq::new(
                    union.variants@.len(),
                    |i: int|
                        if 0 <= i < union.variants@.len() {
                            schema_view(&union.variants@[i])
                        } else {
                            SchemaView::Primitive(PrimitiveType::Null)
                        },
                ),
            },
        ),
        Schema::Logical(logical) => SchemaView::Logical(logical@),
    }
}

impl View for Schema {
    type V = SchemaView;

    open spec fn view(&self) -> SchemaView {
        schema_view(self)
    }
}

impl View for FieldDefinition {
    type V = FieldDefinitionView;

    open spec fn view(&self) -> FieldDefinitionView {
        FieldDefinitionView {
            name: self.name@,
            field_type: self.field_type@,
            default: default_view(self.default),
        }
    }
}

impl View for RecordDefinition {
    type V = RecordDefinitionView;

    open spec fn view(&self) -> RecordDefinitionView {
        RecordDefinitionView {
            name: self.name@,
            namespace: text_view(self.namespace),
            fields: self.fields@.map_values(|field: FieldDefinition| field@),
        }
    }
}

impl View for ArrayType {
    type V = ArrayTypeView;

    open spec fn view(&self) -> ArrayTypeView {
        ArrayTypeView { items: Box::new((*self.items)@), name: text_view(self.name) }
    }
}

impl View for UnionType {
    type V = UnionTypeView;

    open spec fn view(&self) -> UnionTypeView {
        UnionTypeView { variants: self.variants@.map_values(|variant: Schema| variant@) }
    }
}

impl View for LogicalType {
    type V = LogicalTypeView;

    open spec fn view(&self) -> LogicalTypeView {
        LogicalTypeView {
            base_type: self.base_type@,
            logical_type: self.logical_type@,
            scale: self.scale,
            precision: self.precision,
        }
    }
}

impl PrimitiveType {
    /// The schema of the primitive type.
    pub fn schema(self) -> (schema: Schema)
        ensures
            schema == Schema::Primitive(self),
            schema@ == SchemaView::Primitive(self),
    {
        Schema::Primitive(self)
    }
}

impl RecordDefinition {
    /// A record of the given name, namespace and fields.
    pub fn new(name: String, namespace: Option<String>, fields: Vec<FieldDefinition>) -> (record:
        RecordDefinition)
        ensures
            record.name == name,
            record.namespace == namespace,
            record.fields == fields,
    {
        RecordDefinition { name, namespace, fields }
    }

    /// The schema of the record.
    pub fn schema(self) -> (schema: Schema)
        ensures
            schema == Schema::Record(self),
            schema@ == SchemaView::Record(self@),
    {
        let schema = Schema::Record(self);
        proof {
            lemma_schema_view(&schema);
        }
        schema
    }
}

impl FieldDefinition {
    /// A field of the given name, schema and default.
    pub fn new(name: String, field_type: Schema, default: Option<JsonValue>) -> (field:
        FieldDefinition)
        ensures
            field.name == name,
            field.field_type == field_type,
            field.default == default,
    {
        FieldDefinition { name, field_type, default }
    }
}

impl ArrayType {
    /// An array of the given items, with the given name.
    pub fn new(items: Box<Schema>, name: Option<String>) -> (array: ArrayType)
        ensures
            array.items == items,
            array.name == name,
    {
        ArrayType { items, name }
    }

    /// The schema of the array.
    pub fn schema(self) -> (schema: Schema)
        ensures
            schema == Schema::Array(self),
            schema@ == SchemaView::Array(self@),
    {
        Schema::Array(self)
    }
}

impl UnionType {
    /// A union of the given variants, in their order.
    pub fn new(variants: Vec<Schema>) -> (union: UnionType)
        ensures
            union.variants == variants,
    {
        UnionType { variants }
    }

    /// The schema of the union.
    pub fn schema(self) -> (schema: Schema)
        ensures
            schema == Schema::Union(self),
            schema@ == SchemaView::Union(self@),
    {
        let schema = Schema::Union(self);
        proof {
            lemma_schema_view(&schema);
        }
        schema
    }
}

impl LogicalType {
    /// A logical type over the primitive type named `base_type`.
    pub fn new(base_type: &str, logical_type: &str, scale: Option<u8>, precision: Option<u8>) -> (logical:
        LogicalType)
        ensures
            logical@ == (LogicalTypeView {
                base_type: base_type@,
                logical_type: logical_type@,
                scale,
                precision,
            }),
    {
        LogicalType {
            base_type: base_type.to_owned(),
            logical_type: logical_type.to_owned(),
            scale,
            precision,
        }
    }

    /// The logical type of a UUID: a string, without scale or precision.
    pub fn uuid() -> (logical: LogicalType)
        ensures
            logical@ == LogicalTypeView::uuid(),
    {
        LogicalType::new("string", "uuid", None, None)
    }

    /// The schema of the logical type.
    pub fn schema(self) -> (schema: Schema)
        ensures
            schema == Schema::Logical(self),
            schema@ == SchemaView::Logical(self@),
    {
        Schema::Logical(self)
    }
}

/// The view of a schema is made of the views of its parts.
pub proof fn lemma_schema_view(schema: &Schema)
    ensures
        schema@ == match schema {
            Schema::Primitive(primitive) => SchemaView::Primitive(*primitive),
            Schema::Record(record) => SchemaView::Record(record@),
            Schema::Array(array) => SchemaView::Array(array@),
            Schema::Union(union) => SchemaView::Union(union@),
            Schema::Logical(logical) => SchemaView::Logical(logical@),
        },
{
    match schema {
        Schema::Record(record) => {
            assert(schema@->Record_0.fields =~= record@.fields);
        },
        Schema::Union(union) => {
            assert(schema@->Union_0.variants =~= union@.variants);
        },
        _ => {},
    }
}

} // verus!
