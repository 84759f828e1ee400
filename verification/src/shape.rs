//! Shape descriptors: the explicit description of a data type that the
//! generator consumes.
//!
//! A reflection or build-step facility is expected to produce, for every
//! composite type, its declared name, its documentation lines, and either
//! its ordered field list or its ordered variant list.  The generator reads
//! nothing else about a type.

use vstd::prelude::*;

verus! {

/// The declared type of a struct field: one of the fixed built-in value
/// types, one of the two built-in containers, or a reference to a named
/// composite type declared elsewhere in the same type universe.
pub enum FieldTy {
    /// Plain text.
    Text,
    /// A boolean value.
    Boolean,
    /// A signed 32-bit integer.
    Int32,
    /// An unsigned 32-bit integer.
    UInt32,
    /// A signed 64-bit integer.
    Int64,
    /// An unsigned 64-bit integer.
    UInt64,
    /// The optional-value wrapper.  It is transparent in the schema: the
    /// contained type's schema is used unchanged, and the containing
    /// composite records the field as not required.
    Optional(Box<FieldTy>),
    /// The ordered-sequence wrapper, mapped to an array schema.
    Sequence(Box<FieldTy>),
    /// A reference to a named composite type.
    Named(String),
}

/// The mathematical model of a [`FieldTy`]: the same tree with type names
/// as character sequences.
pub enum FieldTyV {
    Text,
    Boolean,
    Int32,
    UInt32,
    Int64,
    UInt64,
    Optional(Box<FieldTyV>),
    Sequence(Box<FieldTyV>),
    Named(Seq<char>),
}

/// The model of a declared field type.
pub open spec fn fieldty_view(t: FieldTy) -> FieldTyV
    decreases t,
{
    match t {
        FieldTy::Text => FieldTyV::Text,
        FieldTy::Boolean => FieldTyV::Boolean,
        FieldTy::Int32 => FieldTyV::Int32,
        FieldTy::UInt32 => FieldTyV::UInt32,
        FieldTy::Int64 => FieldTyV::Int64,
        FieldTy::UInt64 => FieldTyV::UInt64,
        FieldTy::Optional(t) => FieldTyV::Optional(Box::new(fieldty_view(*t))),
        FieldTy::Sequence(t) => FieldTyV::Sequence(Box::new(fieldty_view(*t))),
        FieldTy::Named(n) => FieldTyV::Named(n@),
    }
}

impl View for FieldTy {
    type V = FieldTyV;

    open spec fn view(&self) -> FieldTyV {
        fieldty_view(*self)
    }
}

/// Whether a declared field type is the optional-value wrapper.  The
/// containing composite derives the field's optionality from this alone.
pub open spec fn is_optional_ty(t: FieldTyV) -> bool {
    t is Optional
}

/// One field of a struct shape: its declared name and type.
pub struct FieldDesc {
    pub name: String,
    pub ty: FieldTy,
}

/// The mathematical model of a [`FieldDesc`].
pub struct FieldDescV {
    pub name: Seq<char>,
    pub ty: FieldTyV,
}

impl View for FieldDesc {
    type V = FieldDescV;

    open spec fn view(&self) -> FieldDescV {
        FieldDescV { name: self.name@, ty: self.ty@ }
    }
}

/// One variant of an enum shape.  Only plain unit variants can be given a
/// schema; a variant that carries a payload or any attribute makes the
/// whole generation pass fail.
pub struct VariantDesc {
    pub name: String,
    /// True when the variant is a bare unit variant with no payload and no
    /// attributes.
    pub plain: bool,
}

/// The mathematical model of a [`VariantDesc`].
pub struct VariantDescV {
    pub name: Seq<char>,
    pub plain: bool,
}

impl View for VariantDesc {
    type V = VariantDescV;

    open spec fn view(&self) -> VariantDescV {
        VariantDescV { name: self.name@, plain: self.plain }
    }
}

/// The kind of a declared composite type.
pub enum ShapeKind {
    /// A struct with named fields, in declared order.
    Struct(Vec<FieldDesc>),
    /// An enum, with its variants in declared order.
    Enum(Vec<VariantDesc>),
    /// A union or other tagged-variant-with-data kind that this model
    /// cannot represent; generation fails on it.
    Union,
}

/// The mathematical model of a [`ShapeKind`].
pub enum ShapeKindV {
    Struct(Seq<FieldDescV>),
    Enum(Seq<VariantDescV>),
    Union,
}

impl View for ShapeKind {
    type V = ShapeKindV;

    open spec fn view(&self) -> ShapeKindV {
        match self {
            ShapeKind::Struct(fs) => ShapeKindV::Struct(fs@.map(|i: int, f: FieldDesc| f@)),
            ShapeKind::Enum(vs) => ShapeKindV::Enum(vs@.map(|i: int, v: VariantDesc| v@)),
            ShapeKind::Union => ShapeKindV::Union,
        }
    }
}

/// One declared composite type: its canonical name, its documentation as
/// ordered plain text lines, and its kind.
pub struct TypeShape {
    pub name: String,
    pub doc_lines: Vec<String>,
    pub kind: ShapeKind,
}

/// The mathematical model of a [`TypeShape`].
pub struct TypeShapeV {
    pub name: Seq<char>,
    pub doc_lines: Seq<Seq<char>>,
    pub kind: ShapeKindV,
}

impl View for TypeShape {
    type V = TypeShapeV;

    open spec fn view(&self) -> TypeShapeV {
        TypeShapeV {
            name: self.name@,
            doc_lines: self.doc_lines@.map(|i: int, l: String| l@),
            kind: self.kind@,
        }
    }
}

/// The type universe: every composite type that schemas may be generated
/// for, each described once.  Canonical names must be unique across the
/// whole universe; two distinct types sharing a name would collide in the
/// registry.
pub struct Universe {
    pub types: Vec<TypeShape>,
}

impl View for Universe {
    type V = Seq<TypeShapeV>;

    open spec fn view(&self) -> Seq<TypeShapeV> {
        self.types@.map(|i: int, t: TypeShape| t@)
    }
}

/// Whether the universe declares a type under the given name.
pub open spec fn has_shape(u: Seq<TypeShapeV>, name: Seq<char>) -> bool {
    exists|i: int| 0 <= i < u.len() && u[i].name == name
}

/// The shape declared under the given name, where one exists.
pub open spec fn shape_of(u: Seq<TypeShapeV>, name: Seq<char>) -> TypeShapeV {
    u[choose|i: int| 0 <= i < u.len() && u[i].name == name]
}

impl Universe {
    /// Canonical names are unique across the universe.
    pub open spec fn wf(&self) -> bool {
        forall|i: int, j: int|
            0 <= i < j < self@.len() ==> self@[i].name != self@[j].name
    }

    /// An empty universe.
    pub fn new() -> (r: Universe)
        ensures
            r@ =~= Seq::<TypeShapeV>::empty(),
            r.wf(),
    {
        Universe { types: Vec::new() }
    }

    /// Declares one more type.
    pub fn push(&mut self, shape: TypeShape)
        ensures
            final(self)@ =~= old(self)@.push(shape@),
    {
        self.types.push(shape);
    }

    /// Looks a declared name up.
    pub fn find(&self, name: &str) -> (r: Option<&TypeShape>)
        requires
            self.wf(),
        ensures
            match r {
                Some(shape) => has_shape(self@, name@) && shape@ == shape_of(self@, name@),
                None => !has_shape(self@, name@),
            },
    {
        let mut i: usize = 0;
        while i < self.types.len()
            invariant
                self.wf(),
                i <= self.types@.len(),
                forall|j: int| 0 <= j < i ==> self@[j].name != name@,
            decreases self.types@.len() - i,
        {
            if crate::text::str_eq(self.types[i].name.as_str(), name) {
                proof {
                    assert(0 <= i < self@.len() && self@[i as int].name == name@);
                    let j = choose|j: int| 0 <= j < self@.len() && self@[j].name == name@;
                    assert(self@[j].name == self@[i as int].name);
                    assert(j == i as int);
                }
                return Some(&self.types[i]);
            }
            i += 1;
        }
        None
    }
}

} // verus!
