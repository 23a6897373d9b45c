//! The JSON form of a schema.
//!
//! A primitive is written as its keyword, a union as the array of its
//! variants, and a record, an array or a logical type as an object. A part
//! that is absent has no member: it is never written as null.

use crate::avro::{
    lemma_schema_view, ArrayType, ArrayTypeView, FieldDefinition, FieldDefinitionView,
    LogicalType, LogicalTypeView, PrimitiveType, RecordDefinition, RecordDefinitionView, Schema,
    SchemaView, UnionType, UnionTypeView,
};
use crate::json::{items_view, members_view, put, JsonValue, JsonView};
use vstd::prelude::*;

verus! {

/// The keyword of a primitive type.
pub open spec fn keyword(primitive: PrimitiveType) -> Seq<char> {
    match primitive {
        PrimitiveType::Null => "null"@,
        PrimitiveType::Boolean => "boolean"@,
        PrimitiveType::Int => "int"@,
        PrimitiveType::Long => "long"@,
        PrimitiveType::Float => "float"@,
        PrimitiveType::Double => "double"@,
        PrimitiveType::Bytes => "bytes"@,
        PrimitiveType::String => "string"@,
    }
}

/// The member `key` with the string `text`, or no member where there is no
/// text.
pub open spec fn text_member(key: Seq<char>, text: Option<Seq<char>>) -> Seq<
    (Seq<char>, JsonView),
> {
    match text {
        Some(text) => seq![(key, JsonView::String(text))],
        None => Seq::empty(),
    }
}

/// The member `key` with the number `number`, or no member where there is
/// no number.
pub open spec fn number_member(key: Seq<char>, number: Option<u8>) -> Seq<(Seq<char>, JsonView)> {
    match number {
        Some(number) => seq![(key, JsonView::Number(number as nat))],
        None => Seq::empty(),
    }
}

/// The member `key` with `value`, or no member where there is no value.
pub open spec fn value_member(key: Seq<char>, value: Option<JsonView>) -> Seq<
    (Seq<char>, JsonView),
> {
    match value {
        Some(value) => seq![(key, value)],
        None => Seq::empty(),
    }
}

/// The JSON form of a schema.
pub open spec fn schema_json(schema: SchemaView) -> JsonView
    decreases schema,
{
    match schema {
        SchemaView::Primitive(primitive) => JsonView::String(keyword(primitive)),
        SchemaView::Record(record) => record_json(record),
        SchemaView::Array(array) => array_json(array),
        SchemaView::Union(union) => union_json(union),
        SchemaView::Logical(logical) => logical_json(logical),
    }
}

/// The JSON form of a record: its type, its name, its namespace where it has
/// one, and its fields.
pub open spec fn record_json(record: RecordDefinitionView) -> JsonView
    decreases record,
{
    JsonView::Object(
        seq![("type"@, JsonView::String("record"@)), ("name"@, JsonView::String(record.name))]
            + text_member("namespace"@, record.namespace) + seq![
            (
                "fields"@,
                JsonView::Array(
                    Seq::new(
                        record.fields.len(),
                        |i: int|
                            if 0 <= i < record.fields.len() {
                                field_json(record.fields[i])
                            } else {
                                JsonView::Null
                            },
                    ),
                ),
            ),
        ],
    )
}

/// The JSON form of a field: its name, its type, and its default where it
/// has one.
pub open spec fn field_json(field: FieldDefinitionView) -> JsonView
    decreases field,
{
    JsonView::Object(
        seq![("name"@, JsonView::String(field.name)), ("type"@, schema_json(field.field_type))]
            + value_member("default"@, field.default),
    )
}

/// The JSON form of an array: its type, the schema of its items, and its
/// name where it has one.
pub open spec fn array_json(array: ArrayTypeView) -> JsonView
    decreases array,
{
    JsonView::Object(
        seq![("type"@, JsonView::String("array"@)), ("items"@, schema_json(*array.items))]
            + text_member("name"@, array.name),
    )
}

/// The JSON form of a union: the array of its variants, in order.
pub open spec fn union_json(union: UnionTypeView) -> JsonView
    decreases union,
{
    JsonView::Array(
        Seq::new(
            union.variants.len(),
            |i: int|
                if 0 <= i < union.variants.len() {
                    schema_json(union.variants[i])
                } else {
                    JsonView::Null
                },
        ),
    )
}

/// The JSON form of a logical type: its underlying type, its logical type,
/// and its scale and precision where it has them.
pub open spec fn logical_json(logical: LogicalTypeView) -> JsonView {
    JsonView::Object(
        seq![
            ("type"@, JsonView::String(logical.base_type)),
            ("logicalType"@, JsonView::String(logical.logical_type)),
        ] + number_member("scale"@, logical.scale) + number_member("precision"@, logical.precision),
    )
}

impl PrimitiveType {
    /// The JSON form of the primitive type: its keyword.
    pub fn to_json(&self) -> (json: JsonValue)
        ensures
            json@ == JsonView::String(keyword(*self)),
    {
        match self {
            PrimitiveType::Null => JsonValue::text("null"),
            PrimitiveType::Boolean => JsonValue::text("boolean"),
            PrimitiveType::Int => JsonValue::text("int"),
            PrimitiveType::Long => JsonValue::text("long"),
            PrimitiveType::Float => JsonValue::text("float"),
            PrimitiveType::Double => JsonValue::text("double"),
            PrimitiveType::Bytes => JsonValue::text("bytes"),
            PrimitiveType::String => JsonValue::text("string"),
        }
    }
}

impl LogicalType {
    /// The JSON form of the logical type.
    pub fn to_json(&self) -> (json: JsonValue)
        ensures
            json@ == logical_json(self@),
    {
        let mut members: Vec<(String, JsonValue)> = Vec::new();
        put(&mut members, "type", JsonValue::String(self.base_type.clone()));
        put(&mut members, "logicalType", JsonValue::String(self.logical_type.clone()));
        if let Some(scale) = self.scale {
            put(&mut members, "scale", JsonValue::Number(scale as u64));
        }
        if let Some(precision) = self.precision {
            put(&mut members, "precision", JsonValue::Number(precision as u64));
        }
        proof {
            assert(members_view(members@) =~= logical_json(self@)->Object_0);
        }
        JsonValue::object(members)
    }
}

impl Schema {
    /// The JSON form of the schema.
    pub fn to_json(&self) -> (json: JsonValue)
        ensures
            json@ == schema_json(self@),
        decreases self,
    {
        proof {
            lemma_schema_view(self);
        }
        match self {
            Schema::Primitive(primitive) => primitive.to_json(),
            Schema::Record(record) => record.to_json(),
            Schema::Array(array) => array.to_json(),
            Schema::Union(union) => union.to_json(),
            Schema::Logical(logical) => logical.to_json(),
        }
    }
}

impl RecordDefinition {
    /// The JSON form of the record.
    pub fn to_json(&self) -> (json: JsonValue)
        ensures
            json@ == record_json(self@),
        decreases self,
    {
        let mut fields: Vec<JsonValue> = Vec::new();
        let mut i: usize = 0;
        while i < self.fields.len()
            invariant
                i <= self.fields.len(),
                fields.len() == i,
                forall|j: int| 0 <= j < i ==> (#[trigger] fields[j])@ == field_json(self.fields[j]@),
            decreases self.fields.len() - i,
        {
            fields.push(self.fields[i].to_json());
            i += 1;
        }
        let mut members: Vec<(String, JsonValue)> = Vec::new();
        put(&mut members, "type", JsonValue::text("record"));
        put(&mut members, "name", JsonValue::String(self.name.clone()));
        if let Some(namespace) = &self.namespace {
            put(&mut members, "namespace", JsonValue::String(namespace.clone()));
        }
        put(&mut members, "fields", JsonValue::array(fields));
        proof {
            assert(items_view(fields@) =~= record_json(self@)->Object_0.last().1->Array_0);
            assert(members_view(members@) =~= record_json(self@)->Object_0);
        }
        JsonValue::object(members)
    }
}

impl FieldDefinition {
    /// The JSON form of the field.
    pub fn to_json(&self) -> (json: JsonValue)
        ensures
            json@ == field_json(self@),
        decreases self,
    {
        let mut members: Vec<(String, JsonValue)> = Vec::new();
        put(&mut members, "name", JsonValue::String(self.name.clone()));
        put(&mut members, "type", self.field_type.to_json());
        if let Some(default) = &self.default {
            put(&mut members, "default", default.duplicate());
        }
        proof {
            assert(members_view(members@) =~= field_json(self@)->Object_0);
        }
        JsonValue::object(members)
    }
}

impl ArrayType {
    /// The JSON form of the array.
    pub fn to_json(&self) -> (json: JsonValue)
        ensures
            json@ == array_json(self@),
        decreases self,
    {
        let mut members: Vec<(String, JsonValue)> = Vec::new();
        put(&mut members, "type", JsonValue::text("array"));
        put(&mut members, "items", self.items.to_json());
        if let Some(name) = &self.name {
            put(&mut members, "name", JsonValue::String(name.clone()));
        }
        proof {
            assert(members_view(members@) =~= array_json(self@)->Object_0);
        }
        JsonValue::object(members)
    }
}

impl UnionType {
    /// The JSON form of the union.
    pub fn to_json(&self) -> (json: JsonValue)
        ensures
            json@ == union_json(self@),
        decreases self,
    {
        let mut variants: Vec<JsonValue> = Vec::new();
        let mut i: usize = 0;
        while i < self.variants.len()
            invariant
                i <= self.variants.len(),
                variants.len() == i,
                forall|j: int|
                    0 <= j < i ==> (#[trigger] variants[j])@ == schema_json(self.variants[j]@),
            decreases self.variants.len() - i,
        {
            variants.push(self.variants[i].to_json());
            i += 1;
        }
        proof {
            assert(items_view(variants@) =~= union_json(self@)->Array_0);
        }
        JsonValue::array(variants)
    }
}

} // verus!
