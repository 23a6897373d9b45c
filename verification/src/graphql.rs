//! The parsed source document: object types, their fields, type references
//! and directives, with the lookups the conversion needs.
//!
//! Every type has a view over `Seq`, and every lookup is specified as the
//! first match in declaration order.

use crate::lookup::{first_where, lemma_first_where_skip, same_text};
use vstd::prelude::*;

verus! {

/// A reference to a type, as written on a field.
#[derive(Debug, PartialEq, Eq)]
pub enum Type {
    /// A type referred to by its name.
    NamedType(String),
    /// A list of the inner type.
    ListType(Box<Type>),
    /// The inner type, with null excluded.
    NonNullType(Box<Type>),
}

/// The view of a [`Type`].
pub enum TypeView {
    NamedType(Seq<char>),
    ListType(Box<TypeView>),
    NonNullType(Box<TypeView>),
}

impl TypeView {
    /// The name that the reference comes down to, inside its wrappers.
    pub open spec fn named(self) -> Seq<char>
        decreases self,
    {
        match self {
            TypeView::NamedType(name) => name,
            TypeView::ListType(inner) => inner.named(),
            TypeView::NonNullType(inner) => inner.named(),
        }
    }

    /// The number of list and non-null wrappers around the name.
    pub open spec fn wrappers(self) -> nat
        decreases self,
    {
        match self {
            TypeView::NamedType(_) => 0,
            TypeView::ListType(inner) => 1 + inner.wrappers(),
            TypeView::NonNullType(inner) => 1 + inner.wrappers(),
        }
    }
}

/// The view of a type reference, by recursion on its structure.
pub open spec fn type_view(reference: &Type) -> TypeView
    decreases reference,
{
    match reference {
        Type::NamedType(name) => TypeView::NamedType(name@),
        Type::ListType(inner) => TypeView::ListType(Box::new(type_view(inner))),
        Type::NonNullType(inner) => TypeView::NonNullType(Box::new(type_view(inner))),
    }
}

impl View for Type {
    type V = TypeView;

    open spec fn view(&self) -> TypeView {
        type_view(self)
    }
}

/// The value of a directive argument. Only strings are told apart.
#[derive(Debug, PartialEq, Eq)]
pub enum Value {
    /// A string value.
    String(String),
    /// A value of any other kind.
    Other,
}

/// The view of a [`Value`].
pub enum ValueView {
    String(Seq<char>),
    Other,
}

impl View for Value {
    type V = ValueView;

    open spec fn view(&self) -> ValueView {
        match self {
            Value::String(text) => ValueView::String(text@),
            Value::Other => ValueView::Other,
        }
    }
}

/// A directive attached to an object type or to a field.
#[derive(Debug, PartialEq, Eq)]
pub struct Directive {
    pub name: String,
    /// The arguments, each a name and a value, in the order written.
    pub arguments: Vec<(String, Value)>,
}

/// The view of a [`Directive`].
pub struct DirectiveView {
    pub name: Seq<char>,
    pub arguments: Seq<(Seq<char>, ValueView)>,
}

impl View for Directive {
    type V = DirectiveView;

    open spec fn view(&self) -> DirectiveView {
        DirectiveView {
            name: self.name@,
            arguments: self.arguments@.map_values(|argument: (String, Value)| (argument.0@, argument.1@)),
        }
    }
}

/// The views of directives, in their order.
pub open spec fn directive_views(directives: Seq<Directive>) -> Seq<DirectiveView> {
    directives.map_values(|directive: Directive| directive@)
}

/// A field of an object type.
#[derive(Debug, PartialEq, Eq)]
pub struct Field {
    pub name: String,
    pub field_type: Type,
    pub directives: Vec<Directive>,
}

/// The view of a [`Field`].
pub struct FieldView {
    pub name: Seq<char>,
    pub field_type: TypeView,
    pub directives: Seq<DirectiveView>,
}

impl View for Field {
    type V = FieldView;

    open spec fn view(&self) -> FieldView {
        FieldView {
            name: self.name@,
            field_type: self.field_type@,
            directives: directive_views(self.directives@),
        }
    }
}

/// An object type: a name, directives and fields in declaration order.
#[derive(Debug, PartialEq, Eq)]
pub struct ObjectType {
    pub name: String,
    pub directives: Vec<Directive>,
    pub fields: Vec<Field>,
}

/// The view of an [`ObjectType`].
pub struct ObjectTypeView {
    pub name: Seq<char>,
    pub directives: Seq<DirectiveView>,
    pub fields: Seq<FieldView>,
}

impl View for ObjectType {
    type V = ObjectTypeView;

    open spec fn view(&self) -> ObjectTypeView {
        ObjectTypeView {
            name: self.name@,
            directives: directive_views(self.directives@),
            fields: self.fields@.map_values(|field: Field| field@),
        }
    }
}

/// A definition of the document. Only object types are told apart.
#[derive(Debug, PartialEq, Eq)]
pub enum Definition {
    /// The definition of an object type.
    Object(ObjectType),
    /// A definition of any other kind: a scalar, an interface, a union, an
    /// enum, an input object, a schema, an extension or a directive.
    Other,
}

/// The view of a [`Definition`].
pub enum DefinitionView {
    Object(ObjectTypeView),
    Other,
}

impl View for Definition {
    type V = DefinitionView;

    open spec fn view(&self) -> DefinitionView {
        match self {
            Definition::Object(object) => DefinitionView::Object(object@),
            Definition::Other => DefinitionView::Other,
        }
    }
}

/// A parsed document: its definitions in the order written.
#[derive(Debug, PartialEq, Eq)]
pub struct Document {
    pub definitions: Vec<Definition>,
}

/// The view of a [`Document`].
pub struct DocumentView {
    pub definitions: Seq<DefinitionView>,
}

impl View for Document {
    type V = DocumentView;

    open spec fn view(&self) -> DocumentView {
        DocumentView { definitions: self.definitions@.map_values(|definition: Definition| definition@) }
    }
}

/// Holds of the definitions of an object type named `name`.
pub open spec fn object_named(name: Seq<char>) -> spec_fn(DefinitionView) -> bool {
    |definition: DefinitionView|
        definition matches DefinitionView::Object(object) && object.name == name
}

/// Holds of the definitions of an object type.
pub open spec fn any_object() -> spec_fn(DefinitionView) -> bool {
    |definition: DefinitionView| definition is Object
}

/// Holds of the directives named `name`.
pub open spec fn directive_named(name: Seq<char>) -> spec_fn(DirectiveView) -> bool {
    |directive: DirectiveView| directive.name == name
}

/// Holds of the arguments named `name`.
pub open spec fn argument_named(name: Seq<char>) -> spec_fn((Seq<char>, ValueView)) -> bool {
    |argument: (Seq<char>, ValueView)| argument.0 == name
}

impl DocumentView {
    /// The first object type named `name`, in document order.
    pub open spec fn object_type(self, name: Seq<char>) -> Option<ObjectTypeView> {
        match first_where(self.definitions, object_named(name)) {
            Some(DefinitionView::Object(object)) => Some(object),
            _ => None,
        }
    }

    /// The first object type of the document.
    pub open spec fn first_object_type(self) -> Option<ObjectTypeView> {
        match first_where(self.definitions, any_object()) {
            Some(DefinitionView::Object(object)) => Some(object),
            _ => None,
        }
    }
}

impl ObjectTypeView {
    /// The first directive named `name` on the object type.
    pub open spec fn directive(self, name: Seq<char>) -> Option<DirectiveView> {
        first_where(self.directives, directive_named(name))
    }
}

impl FieldView {
    /// The first directive named `name` on the field.
    pub open spec fn directive(self, name: Seq<char>) -> Option<DirectiveView> {
        first_where(self.directives, directive_named(name))
    }
}

impl DirectiveView {
    /// The value of the first argument named `name`.
    pub open spec fn argument(self, name: Seq<char>) -> Option<ValueView> {
        match first_where(self.arguments, argument_named(name)) {
            Some(argument) => Some(argument.1),
            None => None,
        }
    }
}

/// The first directive of `directives` named `name`.
fn find_directive<'a>(directives: &'a Vec<Directive>, name: &str) -> (found: Option<&'a Directive>)
    ensures
        match found {
            Some(directive) => first_where(directive_views(directives@), directive_named(name@))
                == Some(directive@) && directives@.contains(*directive),
            None => first_where(directive_views(directives@), directive_named(name@)) is None,
        },
{
    let ghost views = directive_views(directives@);
    let mut i: usize = 0;
    while i < directives.len()
        invariant
            i <= directives.len(),
            views == directive_views(directives@),
            forall|j: int| 0 <= j < i ==> !directive_named(name@)(#[trigger] views[j]),
        decreases directives.len() - i,
    {
        if same_text(directives[i].name.as_str(), name) {
            proof {
                lemma_first_where_skip(views, directive_named(name@), i as int);
            }
            return Some(&directives[i]);
        }
        i += 1;
    }
    proof {
        lemma_first_where_skip(views, directive_named(name@), i as int);
    }
    None
}

/// Lookups on a document.
pub trait DocumentExt {
    /// The first object type named `name`, in document order.
    fn object_type(&self, name: &str) -> Option<&ObjectType>;

    /// The first object type of the document.
    fn first_object_type(&self) -> Option<&ObjectType>;
}

impl DocumentExt for Document {
    fn object_type(&self, name: &str) -> (found: Option<&ObjectType>)
        ensures
            match found {
                Some(object) => self@.object_type(name@) == Some(object@)
                    && self.definitions@.contains(Definition::Object(*object)),
                None => self@.object_type(name@) is None,
            },
    {
        let mut i: usize = 0;
        while i < self.definitions.len()
            invariant
                i <= self.definitions.len(),
                forall|j: int| 0 <= j < i ==> !object_named(name@)(#[trigger] self@.definitions[j]),
            decreases self.definitions.len() - i,
        {
            match &self.definitions[i] {
                Definition::Object(object) => {
                    if same_text(object.name.as_str(), name) {
                        proof {
                            lemma_first_where_skip(self@.definitions, object_named(name@), i as int);
                            assert(self@.definitions.skip(i as int).first()
                                == DefinitionView::Object(object@));
                        }
                        return Some(object);
                    }
                },
                Definition::Other => {},
            }
            i += 1;
        }
        proof {
            lemma_first_where_skip(self@.definitions, object_named(name@), i as int);
        }
        None
    }

    fn first_object_type(&self) -> (found: Option<&ObjectType>)
        ensures
            match found {
                Some(object) => self@.first_object_type() == Some(object@)
                    && self.definitions@.contains(Definition::Object(*object)),
                None => self@.first_object_type() is None,
            },
    {
        let mut i: usize = 0;
        while i < self.definitions.len()
            invariant
                i <= self.definitions.len(),
                forall|j: int| 0 <= j < i ==> !any_object()(#[trigger] self@.definitions[j]),
            decreases self.definitions.len() - i,
        {
            match &self.definitions[i] {
                Definition::Object(object) => {
                    proof {
                        lemma_first_where_skip(self@.definitions, any_object(), i as int);
                        assert(self@.definitions.skip(i as int).first()
                            == DefinitionView::Object(object@));
                    }
                    return Some(object);
                },
                Definition::Other => {},
            }
            i += 1;
        }
        proof {
            lemma_first_where_skip(self@.definitions, any_object(), i as int);
        }
        None
    }
}

/// Lookups on an object type.
pub trait ObjectTypeExt {
    /// The first directive named `name` on the object type.
    fn directive(&self, name: &str) -> Option<&Directive>;
}

impl ObjectTypeExt for ObjectType {
    fn directive(&self, name: &str) -> (found: Option<&Directive>)
        ensures
            match found {
                Some(directive) => self@.directive(name@) == Some(directive@)
                    && self.directives@.contains(*directive),
                None => self@.directive(name@) is None,
            },
    {
        find_directive(&self.directives, name)
    }
}

/// Lookups on a field.
pub trait FieldExt {
    /// The first directive named `name` on the field.
    fn directive(&self, name: &str) -> Option<&Directive>;
}

impl FieldExt for Field {
    fn directive(&self, name: &str) -> (found: Option<&Directive>)
        ensures
            match found {
                Some(directive) => self@.directive(name@) == Some(directive@)
                    && self.directives@.contains(*directive),
                None => self@.directive(name@) is None,
            },
    {
        find_directive(&self.directives, name)
    }
}

/// Lookups on a directive.
pub trait DirectiveExt {
    /// The value of the first argument named `name`.
    fn argument(&self, name: &str) -> Option<&Value>;
}

impl DirectiveExt for Directive {
    fn argument(&self, name: &str) -> (found: Option<&Value>)
        ensures
            match found {
                Some(value) => self@.argument(name@) == Some(value@) && exists|i: int|
                    0 <= i < self.arguments@.len() && (#[trigger] self.arguments@[i]).1 == *value,
                None => self@.argument(name@) is None,
            },
    {
        let mut i: usize = 0;
        while i < self.arguments.len()
            invariant
                i <= self.arguments.len(),
                forall|j: int| 0 <= j < i ==> !argument_named(name@)(#[trigger] self@.arguments[j]),
            decreases self.arguments.len() - i,
        {
            if same_text(self.arguments[i].0.as_str(), name) {
                proof {
                    lemma_first_where_skip(self@.arguments, argument_named(name@), i as int);
                    assert(self@.arguments.skip(i as int).first() == (
                        self.arguments[i as int].0@,
                        self.arguments[i as int].1@,
                    ));
                }
                return Some(&self.arguments[i].1);
            }
            i += 1;
        }
        proof {
            lemma_first_where_skip(self@.arguments, argument_named(name@), i as int);
        }
        None
    }
}

} // verus!
