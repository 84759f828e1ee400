//! The schema generator: translates declared type shapes into schema
//! objects, registering each composite once and returning references.
//!
//! Generation is leaf-first: a field's schema is resolved (registering any
//! named types it mentions) before its containing composite is assembled,
//! and a composite's body is inserted into the registry only after every
//! field is resolved.  A name already registered, or currently being
//! assembled further up the call chain, is answered with a reference at
//! once, so generating a type twice never duplicates an entry, and
//! mutually-referential types terminate.

use crate::docs::doc_description;
use crate::docs::doc_title;
use crate::docs::split_doc;
use crate::registry::Registry;
use crate::schema::Schema;
use crate::schema::SchemaV;
use crate::schema::empty_schema_v;
use crate::schema::props_view;
use crate::shape::FieldDescV;
use crate::shape::FieldTy;
use crate::shape::FieldTyV;
use crate::shape::ShapeKind;
use crate::shape::ShapeKindV;
use crate::shape::TypeShapeV;
use crate::shape::Universe;
use crate::shape::has_shape;
use crate::shape::is_optional_ty;
use crate::shape::shape_of;
use vstd::prelude::*;
use vstd::set_lib::lemma_len_subset;

verus! {

/// The reference path under which a named type's schema is registered.
pub open spec fn ref_path_of(name: Seq<char>) -> Seq<char> {
    "#/components/schemas/"@ + name
}

/// The schema fragment a field type denotes, as embedded in a containing
/// schema.  It is a pure function of the type: a named type contributes a
/// reference, never an inline copy of its definition.
pub open spec fn fragment_of(t: FieldTyV) -> SchemaV
    decreases t,
{
    match t {
        FieldTyV::Text => SchemaV { schema_type: Some("string"@), ..empty_schema_v() },
        FieldTyV::Boolean => SchemaV { schema_type: Some("boolean"@), ..empty_schema_v() },
        FieldTyV::Int32 => SchemaV {
            schema_type: Some("number"@),
            format: Some("int32"@),
            ..empty_schema_v()
        },
        FieldTyV::UInt32 => SchemaV {
            schema_type: Some("number"@),
            format: Some("int32"@),
            minimum: Some(0u64),
            ..empty_schema_v()
        },
        FieldTyV::Int64 => SchemaV {
            schema_type: Some("number"@),
            format: Some("int64"@),
            ..empty_schema_v()
        },
        FieldTyV::UInt64 => SchemaV {
            schema_type: Some("number"@),
            format: Some("int64"@),
            minimum: Some(0u64),
            ..empty_schema_v()
        },
        FieldTyV::Optional(t) => fragment_of(*t),
        FieldTyV::Sequence(t) => SchemaV {
            schema_type: Some("array"@),
            items: Some(Box::new(fragment_of(*t))),
            ..empty_schema_v()
        },
        FieldTyV::Named(n) => SchemaV { ref_path: Some(ref_path_of(n)), ..empty_schema_v() },
    }
}

/// The property list of a struct schema: each field's name with its
/// fragment, in declared order.
pub open spec fn props_of(fields: Seq<FieldDescV>) -> Seq<(Seq<char>, SchemaV)>
    decreases fields.len(),
{
    if fields.len() == 0 {
        Seq::empty()
    } else {
        props_of(fields.drop_last()).push(
            (fields.last().name, fragment_of(fields.last().ty)),
        )
    }
}

/// The required list of a struct schema: the names of the fields whose
/// declared type is not the optional-value wrapper, in declared order.
pub open spec fn required_of(fields: Seq<FieldDescV>) -> Seq<Seq<char>>
    decreases fields.len(),
{
    if fields.len() == 0 {
        Seq::empty()
    } else {
        let front = required_of(fields.drop_last());
        if is_optional_ty(fields.last().ty) {
            front
        } else {
            front.push(fields.last().name)
        }
    }
}

/// The schema object registered for a shape.  For a struct: title and
/// description from its documentation, the property map, and the required
/// list, each absent when empty.  For an enum: a string schema listing the
/// variant names as its permitted values.
pub open spec fn schema_of_shape(shape: TypeShapeV) -> SchemaV {
    match shape.kind {
        ShapeKindV::Struct(fs) => SchemaV {
            title: doc_title(shape.doc_lines),
            description: doc_description(shape.doc_lines),
            properties: if fs.len() > 0 {
                Some(props_of(fs))
            } else {
                None
            },
            required: if required_of(fs).len() > 0 {
                Some(required_of(fs))
            } else {
                None
            },
            ..empty_schema_v()
        },
        ShapeKindV::Enum(vs) => SchemaV {
            title: doc_title(shape.doc_lines),
            description: doc_description(shape.doc_lines),
            schema_type: Some("string"@),
            enum_values: Some(vs.map(|i: int, v: crate::shape::VariantDescV| v.name)),
            ..empty_schema_v()
        },
        ShapeKindV::Union => empty_schema_v(),
    }
}

/// Whether a shape can be given a schema at all: structs always, enums
/// only when every variant is plain, unions never.
pub open spec fn shape_ok(shape: TypeShapeV) -> bool {
    match shape.kind {
        ShapeKindV::Struct(_) => true,
        ShapeKindV::Enum(vs) => forall|i: int| 0 <= i < vs.len() ==> vs[i].plain,
        ShapeKindV::Union => false,
    }
}

/// The set of names the universe declares.
pub open spec fn names_of(u: Seq<TypeShapeV>) -> Set<Seq<char>> {
    u.map(|i: int, s: TypeShapeV| s.name).to_set()
}

/// How many declared names are not yet settled (registered or being
/// assembled); the generator's termination measure.
pub open spec fn free_count(u: Seq<TypeShapeV>, done: Set<Seq<char>>) -> nat {
    names_of(u).difference(done).len()
}

/// The set of declared names is finite.
pub proof fn lemma_names_finite(u: Seq<TypeShapeV>)
    ensures
        names_of(u).finite(),
{
    broadcast use vstd::seq_lib::seq_to_set_is_finite;

    assert(names_of(u).finite());
}

/// A declared name is in the name set.
pub proof fn lemma_names_contains(u: Seq<TypeShapeV>, name: Seq<char>)
    requires
        has_shape(u, name),
    ensures
        names_of(u).contains(name),
{
    let i = choose|i: int| 0 <= i < u.len() && u[i].name == name;
    let m = u.map(|i: int, s: TypeShapeV| s.name);
    assert(m[i] == name);
    assert(m.contains(name));
}

/// Settling more names never raises the measure.
pub proof fn lemma_free_mono(u: Seq<TypeShapeV>, done: Set<Seq<char>>, done2: Set<Seq<char>>)
    requires
        done.subset_of(done2),
    ensures
        free_count(u, done2) <= free_count(u, done),
{
    lemma_names_finite(u);
    lemma_len_subset(names_of(u).difference(done), names_of(u));
    lemma_len_subset(names_of(u).difference(done2), names_of(u).difference(done));
}

/// Settling a declared, unsettled name strictly lowers the measure.
pub proof fn lemma_free_dec(u: Seq<TypeShapeV>, done: Set<Seq<char>>, name: Seq<char>)
    requires
        has_shape(u, name),
        !done.contains(name),
    ensures
        free_count(u, done.insert(name)) < free_count(u, done),
{
    lemma_names_finite(u);
    lemma_names_contains(u, name);
    lemma_len_subset(names_of(u).difference(done), names_of(u));
    assert(names_of(u).difference(done.insert(name)) =~= names_of(u).difference(done).remove(
        name,
    ));
    vstd::set::axiom_set_remove_len(names_of(u).difference(done), name);
    assert(names_of(u).difference(done).contains(name));
}

/// The structural size of a field type.
pub open spec fn ty_size(t: FieldTyV) -> nat
    decreases t,
{
    match t {
        FieldTyV::Optional(t) => 1 + ty_size(*t),
        FieldTyV::Sequence(t) => 1 + ty_size(*t),
        _ => 1,
    }
}

/// Whether generation for a named type succeeds, given the set of names
/// already settled: the name must be declared with a workable shape, and,
/// for a struct, every named type reached through its fields must be
/// generable in turn, the name itself now counting as settled.
pub open spec fn generable(u: Seq<TypeShapeV>, done: Set<Seq<char>>, name: Seq<char>) -> bool
    decreases free_count(u, done), 0nat, 0nat, 0nat,
    via generable_decreases
{
    if done.contains(name) {
        true
    } else if !has_shape(u, name) {
        false
    } else {
        match shape_of(u, name).kind {
            ShapeKindV::Struct(fs) => fields_generable(u, done.insert(name), fs),
            ShapeKindV::Enum(vs) => forall|i: int| 0 <= i < vs.len() ==> vs[i].plain,
            ShapeKindV::Union => false,
        }
    }
}

/// Whether every field of the list is generable.
pub open spec fn fields_generable(
    u: Seq<TypeShapeV>,
    done: Set<Seq<char>>,
    fields: Seq<FieldDescV>,
) -> bool
    decreases free_count(u, done), 1nat, fields.len(), 0nat,
{
    if fields.len() == 0 {
        true
    } else {
        ty_generable(u, done, fields[0].ty) && fields_generable(u, done, fields.drop_first())
    }
}

/// Whether a field type is generable: every named type it mentions is.
pub open spec fn ty_generable(u: Seq<TypeShapeV>, done: Set<Seq<char>>, t: FieldTyV) -> bool
    decreases free_count(u, done), 1nat, 0nat, ty_size(t),
{
    match t {
        FieldTyV::Optional(t) => ty_generable(u, done, *t),
        FieldTyV::Sequence(t) => ty_generable(u, done, *t),
        FieldTyV::Named(n) => generable(u, done, n),
        _ => true,
    }
}

#[via_fn]
proof fn generable_decreases(u: Seq<TypeShapeV>, done: Set<Seq<char>>, name: Seq<char>) {
    if !done.contains(name) && has_shape(u, name) {
        lemma_free_dec(u, done, name);
    }
}

/// A name generable under a settled set stays generable when more names
/// are settled.
pub proof fn lemma_generable_mono(
    u: Seq<TypeShapeV>,
    done: Set<Seq<char>>,
    done2: Set<Seq<char>>,
    name: Seq<char>,
)
    requires
        done.subset_of(done2),
        generable(u, done, name),
    ensures
        generable(u, done2, name),
    decreases free_count(u, done), 0nat, 0nat, 0nat,
{
    if done2.contains(name) {
    } else if done.contains(name) {
        assert(false);
    } else {
        match shape_of(u, name).kind {
            ShapeKindV::Struct(fs) => {
                lemma_free_dec(u, done, name);
                lemma_free_mono(u, done, done.insert(name));
                lemma_fields_generable_mono(u, done.insert(name), done2.insert(name), fs);
            },
            ShapeKindV::Enum(_) => {},
            ShapeKindV::Union => {},
        }
    }
}

/// As [`lemma_generable_mono`], for a field list.
pub proof fn lemma_fields_generable_mono(
    u: Seq<TypeShapeV>,
    done: Set<Seq<char>>,
    done2: Set<Seq<char>>,
    fields: Seq<FieldDescV>,
)
    requires
        done.subset_of(done2),
        fields_generable(u, done, fields),
    ensures
        fields_generable(u, done2, fields),
    decreases free_count(u, done), 1nat, fields.len(), 0nat,
{
    if fields.len() > 0 {
        lemma_ty_generable_mono(u, done, done2, fields[0].ty);
        lemma_fields_generable_mono(u, done, done2, fields.drop_first());
    }
}

/// As [`lemma_generable_mono`], for one field type.
pub proof fn lemma_ty_generable_mono(
    u: Seq<TypeShapeV>,
    done: Set<Seq<char>>,
    done2: Set<Seq<char>>,
    t: FieldTyV,
)
    requires
        done.subset_of(done2),
        ty_generable(u, done, t),
    ensures
        ty_generable(u, done2, t),
    decreases free_count(u, done), 1nat, 0nat, ty_size(t),
{
    match t {
        FieldTyV::Optional(t) => lemma_ty_generable_mono(u, done, done2, *t),
        FieldTyV::Sequence(t) => lemma_ty_generable_mono(u, done, done2, *t),
        FieldTyV::Named(n) => lemma_generable_mono(u, done, done2, n),
        _ => {},
    }
}

} // verus!

verus! {

/// A generated schema handed back to a caller: an inline schema object
/// for built-in types, or a reference for named composite types.
#[derive(Debug)]
pub enum SchemaOrRef {
    Object(Schema),
    Ref { ref_path: String },
}

/// The mathematical model of a [`SchemaOrRef`].
pub enum SchemaOrRefV {
    Object(SchemaV),
    Ref { ref_path: Seq<char> },
}

impl View for SchemaOrRef {
    type V = SchemaOrRefV;

    open spec fn view(&self) -> SchemaOrRefV {
        match self {
            SchemaOrRef::Object(s) => SchemaOrRefV::Object(s@),
            SchemaOrRef::Ref { ref_path } => SchemaOrRefV::Ref { ref_path: ref_path@ },
        }
    }
}

/// Why a generation pass failed.  These are authoring-time contract
/// violations, surfaced to the type's author; nothing is retried.
#[derive(Debug)]
pub enum GenError {
    /// The named type is a union or other shape this model cannot
    /// represent.
    UnsupportedShape(String),
    /// The named enum type has a variant that carries a payload or an
    /// attribute.
    NonTrivialVariant(String),
    /// A field refers to a type name the universe does not declare.
    UnknownType(String),
}

/// The mathematical model of a [`GenError`].
pub enum GenErrorV {
    UnsupportedShape(Seq<char>),
    NonTrivialVariant(Seq<char>),
    UnknownType(Seq<char>),
}

impl View for GenError {
    type V = GenErrorV;

    open spec fn view(&self) -> GenErrorV {
        match self {
            GenError::UnsupportedShape(n) => GenErrorV::UnsupportedShape(n@),
            GenError::NonTrivialVariant(n) => GenErrorV::NonTrivialVariant(n@),
            GenError::UnknownType(n) => GenErrorV::UnknownType(n@),
        }
    }
}

/// What each error reports of the universe.
pub open spec fn err_explains(u: Seq<TypeShapeV>, e: GenErrorV) -> bool {
    match e {
        GenErrorV::UnknownType(n) => !has_shape(u, n),
        GenErrorV::UnsupportedShape(n) => has_shape(u, n) && shape_of(u, n).kind is Union,
        GenErrorV::NonTrivialVariant(n) => has_shape(u, n) && match shape_of(u, n).kind {
            ShapeKindV::Enum(vs) => exists|i: int| 0 <= i < vs.len() && !vs[i].plain,
            _ => false,
        },
    }
}

/// What a field type hands its containing schema: named types a
/// reference, everything else an inline object.
pub open spec fn obj_or_ref_of(t: FieldTyV) -> SchemaOrRefV
    decreases t,
{
    match t {
        FieldTyV::Named(n) => SchemaOrRefV::Ref { ref_path: ref_path_of(n) },
        FieldTyV::Optional(t) => obj_or_ref_of(*t),
        _ => SchemaOrRefV::Object(fragment_of(t)),
    }
}

/// How a generated schema-or-reference embeds into a containing schema:
/// an object as itself, a reference as a schema with only the reference
/// path set.
pub open spec fn embed_v(v: SchemaOrRefV) -> SchemaV {
    match v {
        SchemaOrRefV::Object(s) => s,
        SchemaOrRefV::Ref { ref_path } => SchemaV { ref_path: Some(ref_path), ..empty_schema_v() },
    }
}

/// Embedding what a field type hands back yields exactly its fragment.
pub proof fn lemma_embed_fragment(t: FieldTyV)
    ensures
        embed_v(obj_or_ref_of(t)) == fragment_of(t),
    decreases t,
{
    if let FieldTyV::Optional(inner) = t {
        lemma_embed_fragment(*inner);
    }
}

/// The optional-value wrapper is transparent: it never introduces a
/// schema node of its own.
pub proof fn lemma_optional_transparent(t: FieldTyV)
    ensures
        fragment_of(FieldTyV::Optional(Box::new(t))) == fragment_of(t),
{
}

/// The sequence wrapper yields an array schema whose items are the
/// element type's fragment, and nothing else.
pub proof fn lemma_sequence_wraps(t: FieldTyV)
    ensures
        fragment_of(FieldTyV::Sequence(Box::new(t))) == (SchemaV {
            schema_type: Some("array"@),
            items: Some(Box::new(fragment_of(t))),
            ..empty_schema_v()
        }),
{
}

/// The unsigned integers carry an inclusive lower bound of zero; the
/// signed ones carry none.
pub proof fn lemma_unsigned_lower_bound()
    ensures
        fragment_of(FieldTyV::UInt32) == (SchemaV {
            schema_type: Some("number"@),
            format: Some("int32"@),
            minimum: Some(0u64),
            ..empty_schema_v()
        }),
        fragment_of(FieldTyV::Int32) == (SchemaV {
            schema_type: Some("number"@),
            format: Some("int32"@),
            ..empty_schema_v()
        }),
        fragment_of(FieldTyV::UInt64).minimum == Some(0u64),
        (fragment_of(FieldTyV::Int64).minimum is None),
{
}

/// The named types a field type refers to.
pub open spec fn ty_refs(t: FieldTyV) -> Set<Seq<char>>
    decreases t,
{
    match t {
        FieldTyV::Optional(t) => ty_refs(*t),
        FieldTyV::Sequence(t) => ty_refs(*t),
        FieldTyV::Named(n) => Set::empty().insert(n),
        _ => Set::empty(),
    }
}

/// The named types any field of the list refers to.
pub open spec fn fields_refs(fields: Seq<FieldDescV>) -> Set<Seq<char>>
    decreases fields.len(),
{
    if fields.len() == 0 {
        Set::empty()
    } else {
        fields_refs(fields.drop_last()).union(ty_refs(fields.last().ty))
    }
}

/// The named types a shape's fields refer to.
pub open spec fn shape_refs(shape: TypeShapeV) -> Set<Seq<char>> {
    match shape.kind {
        ShapeKindV::Struct(fs) => fields_refs(fs),
        _ => Set::empty(),
    }
}

/// The names currently being assembled further up the call chain.
pub open spec fn pend_names(p: Seq<String>) -> Set<Seq<char>> {
    p.map(|i: int, s: String| s@).to_set()
}

/// The settled names: registered, or being assembled.
pub open spec fn settled(reg: Registry, p: Seq<String>) -> Set<Seq<char>> {
    reg@.dom().union(pend_names(p))
}

/// Pushing a pending name settles exactly that name.
proof fn lemma_pend_push(p: Seq<String>, s: String)
    ensures
        pend_names(p.push(s)) =~= pend_names(p).insert(s@),
{
    let m0 = p.map(|i: int, x: String| x@);
    let m1 = p.push(s).map(|i: int, x: String| x@);
    assert(m1 =~= m0.push(s@));
    assert forall|a: Seq<char>| m1.contains(a) implies m0.contains(a) || a == s@ by {
        let i = choose|i: int| 0 <= i < m1.len() && m1[i] == a;
        if i < m0.len() {
            assert(m0[i] == a);
        }
    }
    assert forall|a: Seq<char>| m0.contains(a) implies m1.contains(a) by {
        let i = choose|i: int| 0 <= i < m0.len() && m0[i] == a;
        assert(m1[i] == a);
    }
    assert(m1.contains(s@)) by {
        assert(m1[m1.len() - 1] == s@);
    }
}

/// How a call of the generator may change the registry: it keeps every
/// entry it found, stays well formed, and any entry it adds is the
/// correct schema of a declared, workable shape whose name was not being
/// assembled further up.
pub open spec fn grows_correctly(
    u: Seq<TypeShapeV>,
    pre: Registry,
    post: Registry,
    pend: Seq<String>,
) -> bool {
    &&& post.wf()
    &&& forall|k: Seq<char>|
        #[trigger] pre@.contains_key(k) ==> post@.contains_key(k) && post@[k] == pre@[k]
    &&& forall|k: Seq<char>|
        #[trigger] post@.contains_key(k) && !pre@.contains_key(k) ==> has_shape(u, k)
            && shape_ok(shape_of(u, k)) && post@[k] == schema_of_shape(shape_of(u, k))
            && !pend_names(pend).contains(k)
}

/// Every field of a generable field list is generable.
pub proof fn lemma_fields_generable_index(
    u: Seq<TypeShapeV>,
    done: Set<Seq<char>>,
    fields: Seq<FieldDescV>,
    i: int,
)
    requires
        fields_generable(u, done, fields),
        0 <= i < fields.len(),
    ensures
        ty_generable(u, done, fields[i].ty),
    decreases i,
{
    if i > 0 {
        lemma_fields_generable_index(u, done, fields.drop_first(), i - 1);
        assert(fields.drop_first()[i - 1] == fields[i]);
    }
}

/// Whether a name is currently being assembled.
fn pending_contains(p: &Vec<String>, name: &str) -> (r: bool)
    ensures
        r == pend_names(p@).contains(name@),
{
    let ghost m = p@.map(|i: int, x: String| x@);
    let mut i: usize = 0;
    while i < p.len()
        invariant
            m == p@.map(|i: int, x: String| x@),
            m.len() == p@.len(),
            forall|j: int| 0 <= j < p@.len() ==> m[j] == p@[j]@,
            i <= p@.len(),
            forall|j: int| 0 <= j < i ==> m[j] != name@,
        decreases p@.len() - i,
    {
        if crate::text::str_eq(p[i].as_str(), name) {
            proof {
                assert(m[i as int] == name@);
            }
            return true;
        }
        i += 1;
    }
    proof {
        assert(!m.contains(name@));
    }
    false
}

/// Whether a declared field type is the optional-value wrapper.
fn ty_is_optional(t: &FieldTy) -> (r: bool)
    ensures
        r == is_optional_ty(t@),
{
    match t {
        FieldTy::Optional(_) => true,
        _ => false,
    }
}

/// The reference path for a registered name.
fn ref_path_for(name: &str) -> (r: String)
    ensures
        r@ == ref_path_of(name@),
{
    let mut s = String::from_str("#/components/schemas/");
    s.append(name);
    s
}

/// Embeds a generated schema-or-reference into a containing schema.
fn embed(v: SchemaOrRef) -> (s: Schema)
    ensures
        s@ == embed_v(v@),
{
    match v {
        SchemaOrRef::Object(s) => s,
        SchemaOrRef::Ref { ref_path } => Schema { ref_path: Some(ref_path), ..Schema::empty() },
    }
}

} // verus!

verus! {

/// Resolves the schema a field type hands its containing composite,
/// registering any named types it mentions that are not settled yet.
fn gen_field(u: &Universe, reg: &mut Registry, pending: &mut Vec<String>, ty: &FieldTy) -> (r:
    Result<SchemaOrRef, GenError>)
    requires
        u.wf(),
        old(reg).wf(),
    ensures
        final(pending)@ == old(pending)@,
        grows_correctly(u@, *old(reg), *final(reg), old(pending)@),
        (r matches Ok(v) ==> v@ == obj_or_ref_of(ty@)),
        (r is Ok ==> ty_generable(u@, settled(*old(reg), old(pending)@), ty@)),
        (r is Err ==> !ty_generable(u@, settled(*old(reg), old(pending)@), ty@)),
        (r is Ok ==> forall|k: Seq<char>|
            #[trigger] final(reg)@.contains_key(k) && !old(reg)@.contains_key(k) ==> generable(
                u@,
                settled(*old(reg), old(pending)@),
                k,
            )),
        (r is Ok ==> forall|n: Seq<char>|
            #[trigger] ty_refs(ty@).contains(n) ==> final(reg)@.contains_key(n) || pend_names(
                old(pending)@,
            ).contains(n)),
        (r matches Err(e) ==> err_explains(u@, e@)),
    decreases free_count(u@, settled(*old(reg), old(pending)@)), 1nat, 0nat, ty_size(ty@),
{
    match ty {
        FieldTy::Text => Ok(
            SchemaOrRef::Object(
                Schema { schema_type: Some(String::from_str("string")), ..Schema::empty() },
            ),
        ),
        FieldTy::Boolean => Ok(
            SchemaOrRef::Object(
                Schema { schema_type: Some(String::from_str("boolean")), ..Schema::empty() },
            ),
        ),
        FieldTy::Int32 => Ok(
            SchemaOrRef::Object(
                Schema {
                    schema_type: Some(String::from_str("number")),
                    format: Some(String::from_str("int32")),
                    ..Schema::empty()
                },
            ),
        ),
        FieldTy::UInt32 => Ok(
            SchemaOrRef::Object(
                Schema {
                    schema_type: Some(String::from_str("number")),
                    format: Some(String::from_str("int32")),
                    minimum: Some(0u64),
                    ..Schema::empty()
                },
            ),
        ),
        FieldTy::Int64 => Ok(
            SchemaOrRef::Object(
                Schema {
                    schema_type: Some(String::from_str("number")),
                    format: Some(String::from_str("int64")),
                    ..Schema::empty()
                },
            ),
        ),
        FieldTy::UInt64 => Ok(
            SchemaOrRef::Object(
                Schema {
                    schema_type: Some(String::from_str("number")),
                    format: Some(String::from_str("int64")),
                    minimum: Some(0u64),
                    ..Schema::empty()
                },
            ),
        ),
        FieldTy::Optional(inner) => {
            let r = gen_field(u, reg, pending, inner);
            proof {
                assert(ty_refs(ty@) == ty_refs(inner@));
            }
            r
        },
        FieldTy::Sequence(inner) => match gen_field(u, reg, pending, inner) {
            Err(e) => Err(e),
            Ok(v) => {
                proof {
                    lemma_embed_fragment(inner@);
                    assert(ty_refs(ty@) == ty_refs(inner@));
                }
                let items = embed(v);
                Ok(
                    SchemaOrRef::Object(
                        Schema {
                            schema_type: Some(String::from_str("array")),
                            items: Some(Box::new(items)),
                            ..Schema::empty()
                        },
                    ),
                )
            },
        },
        FieldTy::Named(n) => match gen_named(u, reg, pending, n.as_str()) {
            Err(e) => Err(e),
            Ok(_) => {
                proof {
                    assert(ty_refs(ty@) =~= Set::<Seq<char>>::empty().insert(n@));
                }
                Ok(SchemaOrRef::Ref { ref_path: ref_path_for(n.as_str()) })
            },
        },
    }
}

/// Generates (or reuses) the registry entry for a named type.  A name
/// already registered, or currently being assembled further up the call
/// chain, is left untouched; otherwise the shape's fields are resolved
/// leaf-first and the finished schema object is inserted.
fn gen_named(u: &Universe, reg: &mut Registry, pending: &mut Vec<String>, name: &str) -> (r:
    Result<(), GenError>)
    requires
        u.wf(),
        old(reg).wf(),
    ensures
        final(pending)@ == old(pending)@,
        grows_correctly(u@, *old(reg), *final(reg), old(pending)@),
        (r is Ok ==> pend_names(old(pending)@).contains(name@) || final(reg)@.contains_key(
            name@,
        )),
        (old(reg)@.contains_key(name@) || pend_names(old(pending)@).contains(name@)) ==> (r is Ok
            && final(reg)@ == old(reg)@ && final(reg).seq_view() == old(reg).seq_view()),
        (r is Ok ==> generable(u@, settled(*old(reg), old(pending)@), name@)),
        (r is Err ==> !generable(u@, settled(*old(reg), old(pending)@), name@)),
        (r is Ok ==> forall|k: Seq<char>|
            #[trigger] final(reg)@.contains_key(k) && !old(reg)@.contains_key(k) ==> generable(
                u@,
                settled(*old(reg), old(pending)@),
                k,
            )),
        (r is Ok && !settled(*old(reg), old(pending)@).contains(name@)) ==> (forall|n: Seq<char>|
            #[trigger] shape_refs(shape_of(u@, name@)).contains(n)
                ==> final(reg)@.contains_key(n) || pend_names(old(pending)@).contains(n)
                || n == name@),
        (r matches Err(e) ==> err_explains(u@, e@)),
    decreases free_count(u@, settled(*old(reg), old(pending)@)), 0nat, 0nat, 0nat,
{
    let ghost done0 = settled(*reg, pending@);
    if reg.contains(name) {
        proof {
            assert(done0.contains(name@));
            assert(generable(u@, done0, name@));
        }
        return Ok(());
    }
    if pending_contains(pending, name) {
        proof {
            assert(done0.contains(name@));
            assert(generable(u@, done0, name@));
        }
        return Ok(());
    }
    proof {
        assert(!done0.contains(name@));
    }
    let shape = match u.find(name) {
        None => {
            proof {
                assert(!generable(u@, done0, name@));
            }
            return Err(GenError::UnknownType(String::from_str(name)));
        },
        Some(shape) => shape,
    };
    match &shape.kind {
        ShapeKind::Union => {
            proof {
                assert(!generable(u@, done0, name@));
            }
            Err(GenError::UnsupportedShape(String::from_str(name)))
        },
        ShapeKind::Enum(vs) => {
            let ghost vsv = vs@.map(|k: int, v: crate::shape::VariantDesc| v@);
            proof {
                assert(shape@.kind == ShapeKindV::Enum(vsv));
            }
            let mut values: Vec<String> = Vec::new();
            let mut i: usize = 0;
            while i < vs.len()
                invariant
                    u.wf(),
                    reg.wf(),
                    *reg == *old(reg),
                    pending@ == old(pending)@,
                    done0 == settled(*old(reg), old(pending)@),
                    !done0.contains(name@),
                    !reg@.contains_key(name@),
                    has_shape(u@, name@),
                    shape_of(u@, name@) == shape@,
                    shape@.kind == ShapeKindV::Enum(vsv),
                    vsv == vs@.map(|k: int, v: crate::shape::VariantDesc| v@),
                    vsv.len() == vs@.len(),
                    forall|j: int| 0 <= j < vs@.len() ==> vsv[j] == vs@[j]@,
                    i <= vs@.len(),
                    values@.len() == i,
                    forall|j: int| 0 <= j < i ==> values@[j]@ == vsv[j].name,
                    forall|j: int| 0 <= j < i ==> vsv[j].plain,
                decreases vs@.len() - i,
            {
                if !vs[i].plain {
                    proof {
                        let j = i as int;
                        assert(shape_of(u@, name@).kind == ShapeKindV::Enum(vsv));
                        assert(shape_of(u@, name@).kind->Enum_0 == vsv);
                        assert(!(shape_of(u@, name@).kind->Enum_0[j].plain));
                        assert(!shape_ok(shape_of(u@, name@)));
                        assert(!generable(u@, done0, name@));
                    }
                    return Err(GenError::NonTrivialVariant(String::from_str(name)));
                }
                values.push(vs[i].name.clone());
                i += 1;
            }
            let pair = split_doc(&shape.doc_lines);
            let schema = Schema {
                title: pair.0,
                description: pair.1,
                schema_type: Some(String::from_str("string")),
                enum_values: Some(values),
                ..Schema::empty()
            };
            proof {
                assert(schema@.enum_values == Some(
                    vsv.map(|k: int, v: crate::shape::VariantDescV| v.name),
                )) by {
                    let lhs = schema.enum_values->0@.map(|k: int, v: String| v@);
                    let rhs = vsv.map(|k: int, v: crate::shape::VariantDescV| v.name);
                    assert(lhs =~= rhs);
                }
                assert(schema@ == schema_of_shape(shape_of(u@, name@)));
                assert(shape_of(u@, name@).kind->Enum_0 == vsv);
                assert forall|k: int|
                    0 <= k < shape_of(u@, name@).kind->Enum_0.len() implies shape_of(
                    u@,
                    name@,
                ).kind->Enum_0[k].plain by {
                    assert(vsv[k].plain);
                }
                assert(generable(u@, done0, name@));
            }
            reg.insert(String::from_str(name), schema);
            Ok(())
        },
        ShapeKind::Struct(fs) => {
            let ghost fsv = fs@.map(|k: int, f: crate::shape::FieldDesc| f@);
            proof {
                assert(shape@.kind == ShapeKindV::Struct(fsv));
            }
            pending.push(String::from_str(name));
            let ghost p0 = old(pending)@;
            let ghost p1 = pending@;
            let ghost reg0 = *reg;
            proof {
                lemma_pend_push(p0, p1.last());
                assert(pend_names(p1) =~= pend_names(p0).insert(name@));
                assert(settled(reg0, p1) =~= done0.insert(name@));
            }
            let mut props: Vec<(String, Schema)> = Vec::new();
            let mut required: Vec<String> = Vec::new();
            let mut idx: usize = 0;
            while idx < fs.len()
                invariant
                    u.wf(),
                    reg.wf(),
                    fsv == fs@.map(|k: int, f: crate::shape::FieldDesc| f@),
                    fsv.len() == fs@.len(),
                    forall|j: int| 0 <= j < fs@.len() ==> fsv[j] == fs@[j]@,
                    idx <= fs@.len(),
                    pending@ == p1,
                    p1 == p0.push(p1.last()),
                    p1.last()@ == name@,
                    pend_names(p1) == pend_names(p0).insert(name@),
                    has_shape(u@, name@),
                    shape_of(u@, name@) == shape@,
                    shape@.kind == ShapeKindV::Struct(fsv),
                    !pend_names(p0).contains(name@),
                    !done0.contains(name@),
                    done0 == settled(reg0, p0),
                    done0 == settled(*old(reg), old(pending)@),
                    reg0 == *old(reg),
                    p0 == old(pending)@,
                    !reg@.contains_key(name@),
                    grows_correctly(u@, reg0, *reg, p1),
                    grows_correctly(u@, reg0, *reg, p0),
                    props@.len() == idx,
                    forall|j: int|
                        0 <= j < idx ==> ty_generable(
                            u@,
                            done0.insert(name@),
                            #[trigger] fsv[j].ty,
                        ),
                    forall|k: Seq<char>|
                        #[trigger] reg@.contains_key(k) && !reg0@.contains_key(k) ==> generable(
                            u@,
                            done0.insert(name@),
                            k,
                        ),
                    forall|n: Seq<char>|
                        #[trigger] fields_refs(fsv.subrange(0, idx as int)).contains(n)
                            ==> reg@.contains_key(n) || pend_names(p1).contains(n),
                    props_view(props@) == props_of(fsv.subrange(0, idx as int)),
                    required@.map(|k: int, s: String| s@) == required_of(
                        fsv.subrange(0, idx as int),
                    ),
                decreases fs@.len() - idx,
            {
                let ghost reg_i = *reg;
                proof {
                    lemma_names_contains(u@, name@);
                    lemma_free_dec(u@, done0, name@);
                    assert(settled(reg_i, p1).contains(name@));
                    assert forall|k: Seq<char>| done0.insert(name@).contains(k) implies settled(
                        reg_i,
                        p1,
                    ).contains(k) by {
                        if k != name@ {
                            if reg0@.dom().contains(k) {
                                assert(reg0@.contains_key(k));
                                assert(reg_i@.contains_key(k));
                            } else {
                                assert(pend_names(p0).contains(k));
                                assert(pend_names(p1).contains(k));
                            }
                        }
                    }
                    assert(done0.insert(name@).subset_of(settled(reg_i, p1)));
                    lemma_free_mono(u@, done0.insert(name@), settled(reg_i, p1));
                }
                let res = gen_field(u, reg, pending, &fs[idx].ty);
                match res {
                    Err(e) => {
                        proof {
                            if generable(u@, done0, name@) {
                                lemma_fields_generable_index(
                                    u@,
                                    done0.insert(name@),
                                    fsv,
                                    idx as int,
                                );
                                lemma_ty_generable_mono(
                                    u@,
                                    done0.insert(name@),
                                    settled(reg_i, p1),
                                    fsv[idx as int].ty,
                                );
                                assert(false);
                            }
                        }
                        pending.pop();
                        proof {
                            assert(pending@ =~= p0);
                        }
                        return Err(e);
                    },
                    Ok(v) => {
                        proof {
                            let done_push = done0.insert(name@);
                            let extra = reg_i@.dom().difference(reg0@.dom());
                            assert(settled(reg_i, p1) =~= done_push.union(extra)) by {
                                assert forall|k: Seq<char>|
                                    settled(reg_i, p1).contains(k)
                                        == done_push.union(extra).contains(k) by {
                                    if reg0@.contains_key(k) {
                                        assert(reg_i@.contains_key(k));
                                    }
                                }
                            }
                            crate::registry::lemma_entries_map(reg_i.seq_view());
                            lemma_len_subset(extra, reg_i@.dom());
                            lemma_ty_generable_cut_many(
                                u@,
                                done_push,
                                extra,
                                fsv[idx as int].ty,
                            );
                            assert forall|k: Seq<char>|
                                #[trigger] reg@.contains_key(k) && !reg0@.contains_key(k) implies
                                generable(u@, done_push, k) by {
                                if !reg_i@.contains_key(k) {
                                    lemma_generable_cut_many(u@, done_push, extra, k);
                                }
                            }
                        }
                        let frag = embed(v);
                        let ghost props_pre = props@;
                        let ghost req_pre = required@;
                        props.push((fs[idx].name.clone(), frag));
                        if !ty_is_optional(&fs[idx].ty) {
                            required.push(fs[idx].name.clone());
                        }
                        proof {
                            let j = idx as int;
                            let sub1 = fsv.subrange(0, j + 1);
                            assert(sub1.drop_last() =~= fsv.subrange(0, j));
                            assert(sub1.last() == fsv[j]);
                            lemma_embed_fragment(fsv[j].ty);
                            assert(frag@ == fragment_of(fsv[j].ty));
                            let ps1 = props@;
                            assert(ps1 =~= props_pre.push((fs@[j].name, frag)));
                            assert(ps1.subrange(0, ps1.len() - 1) =~= props_pre);
                            assert(ps1.last() == (fs@[j].name, frag));
                            assert(props_view(ps1) == props_view(props_pre).push(
                                (fs@[j].name@, frag@),
                            ));
                            assert(props_view(props@) =~= props_of(sub1));
                            assert(required@.map(|k: int, s: String| s@) =~= required_of(sub1));
                            assert(fields_refs(sub1) =~= fields_refs(fsv.subrange(0, j)).union(
                                ty_refs(fsv[j].ty),
                            ));
                            assert forall|n: Seq<char>|
                                #[trigger] fields_refs(sub1).contains(n) implies reg@
                                .contains_key(n) || pend_names(p1).contains(n) by {
                                if fields_refs(fsv.subrange(0, j)).contains(n) {
                                    if reg_i@.contains_key(n) {
                                        assert(reg@.contains_key(n));
                                    }
                                }
                            }
                        }
                        idx += 1;
                    },
                }
            }
            pending.pop();
            proof {
                assert(pending@ =~= p0);
                assert(fsv.subrange(0, fsv.len() as int) =~= fsv);
            }
            let pair = split_doc(&shape.doc_lines);
            let schema = Schema {
                title: pair.0,
                description: pair.1,
                properties: if props.len() > 0 {
                    Some(props)
                } else {
                    None
                },
                required: if required.len() > 0 {
                    Some(required)
                } else {
                    None
                },
                ..Schema::empty()
            };
            proof {
                assert(schema@ == schema_of_shape(shape_of(u@, name@)));
                let done_push = done0.insert(name@);
                lemma_fields_generable_build(u@, done_push, fsv);
                assert(shape_of(u@, name@).kind->Struct_0 == fsv);
                assert(generable(u@, done0, name@));
                assert(shape_refs(shape_of(u@, name@)) == fields_refs(fsv));
                assert forall|k: Seq<char>|
                    #[trigger] reg@.contains_key(k) && !reg0@.contains_key(k) implies generable(
                    u@,
                    done0,
                    k,
                ) by {
                    lemma_generable_cut(u@, done0, name@, k);
                }
            }
            reg.insert(String::from_str(name), schema);
            Ok(())
        },
    }
}

} // verus!

verus! {

/// Generates (or reuses) the registry entry for the named type and
/// returns a reference to it.
///
/// Calling this twice for one name — from anywhere, including nested
/// generation for another type's field — leaves exactly one registry
/// entry for that name and returns the same reference both times: a name
/// already registered short-circuits with the registry untouched.
/// Success is owed exactly when the name and every type reachable from it
/// through fields that is not yet registered are declared with workable
/// shapes; an error registers nothing half-built, though sibling types
/// completed before the failure stay registered.
pub fn generate_schema(u: &Universe, reg: &mut Registry, name: &str) -> (r: Result<
    SchemaOrRef,
    GenError,
>)
    requires
        u.wf(),
        old(reg).wf(),
    ensures
        grows_correctly(u@, *old(reg), *final(reg), Seq::<String>::empty()),
        (r matches Ok(v) ==> v@ == (SchemaOrRefV::Ref { ref_path: ref_path_of(name@) })),
        (r is Ok ==> final(reg)@.contains_key(name@)),
        (r is Ok && !old(reg)@.contains_key(name@) ==> final(reg)@[name@] == schema_of_shape(
            shape_of(u@, name@),
        )),
        old(reg)@.contains_key(name@) ==> (r is Ok && final(reg)@ == old(reg)@
            && final(reg).seq_view() == old(reg).seq_view()),
        (r is Ok <==> generable(u@, old(reg)@.dom(), name@)),
        (r is Ok && !old(reg)@.contains_key(name@)) ==> (forall|n: Seq<char>|
            #[trigger] shape_refs(shape_of(u@, name@)).contains(n)
                ==> final(reg)@.contains_key(n) || n == name@),
        (r matches Err(e) ==> err_explains(u@, e@)),
{
    let mut pending: Vec<String> = Vec::new();
    proof {
        assert(pend_names(pending@) =~= Set::<Seq<char>>::empty());
        assert(settled(*reg, pending@) =~= reg@.dom());
    }
    match gen_named(u, reg, &mut pending, name) {
        Ok(_) => Ok(SchemaOrRef::Ref { ref_path: ref_path_for(name) }),
        Err(e) => Err(e),
    }
}

/// Resolves the schema for any declared field type: built-in value types
/// and containers yield an inline schema object, a named composite type
/// is registered (once) and yields a reference.
pub fn generate_field_schema(u: &Universe, reg: &mut Registry, ty: &FieldTy) -> (r: Result<
    SchemaOrRef,
    GenError,
>)
    requires
        u.wf(),
        old(reg).wf(),
    ensures
        grows_correctly(u@, *old(reg), *final(reg), Seq::<String>::empty()),
        (r matches Ok(v) ==> v@ == obj_or_ref_of(ty@)),
        (r is Ok <==> ty_generable(u@, old(reg)@.dom(), ty@)),
        (r matches Err(e) ==> err_explains(u@, e@)),
{
    let mut pending: Vec<String> = Vec::new();
    proof {
        assert(pend_names(pending@) =~= Set::<Seq<char>>::empty());
        assert(settled(*reg, pending@) =~= reg@.dom());
    }
    gen_field(u, reg, &mut pending, ty)
}

} // verus!

verus! {

/// A settled name that is itself generable can be taken out of the
/// settled set: whatever was generable behind it stays generable.
pub proof fn lemma_generable_cut(
    u: Seq<TypeShapeV>,
    done: Set<Seq<char>>,
    m: Seq<char>,
    name: Seq<char>,
)
    requires
        generable(u, done, m),
        generable(u, done.insert(m), name),
    ensures
        generable(u, done, name),
    decreases free_count(u, done), 0nat, 0nat, 0nat,
{
    if done.contains(m) {
        assert(done.insert(m) =~= done);
    } else if done.contains(name) {
    } else if name == m {
    } else {
        match shape_of(u, name).kind {
            ShapeKindV::Struct(fs) => {
                lemma_free_dec(u, done, name);
                lemma_generable_mono(u, done, done.insert(name), m);
                assert(done.insert(m).insert(name) =~= done.insert(name).insert(m));
                lemma_fields_generable_cut(u, done.insert(name), m, fs);
            },
            ShapeKindV::Enum(_) => {},
            ShapeKindV::Union => {},
        }
    }
}

/// As [`lemma_generable_cut`], for a field list.
pub proof fn lemma_fields_generable_cut(
    u: Seq<TypeShapeV>,
    done: Set<Seq<char>>,
    m: Seq<char>,
    fields: Seq<FieldDescV>,
)
    requires
        generable(u, done, m),
        fields_generable(u, done.insert(m), fields),
    ensures
        fields_generable(u, done, fields),
    decreases free_count(u, done), 1nat, fields.len(), 0nat,
{
    if fields.len() > 0 {
        lemma_ty_generable_cut(u, done, m, fields[0].ty);
        lemma_fields_generable_cut(u, done, m, fields.drop_first());
    }
}

/// As [`lemma_generable_cut`], for one field type.
pub proof fn lemma_ty_generable_cut(
    u: Seq<TypeShapeV>,
    done: Set<Seq<char>>,
    m: Seq<char>,
    t: FieldTyV,
)
    requires
        generable(u, done, m),
        ty_generable(u, done.insert(m), t),
    ensures
        ty_generable(u, done, t),
    decreases free_count(u, done), 1nat, 0nat, ty_size(t),
{
    match t {
        FieldTyV::Optional(t) => lemma_ty_generable_cut(u, done, m, *t),
        FieldTyV::Sequence(t) => lemma_ty_generable_cut(u, done, m, *t),
        FieldTyV::Named(n) => lemma_generable_cut(u, done, m, n),
        _ => {},
    }
}

/// A whole set of settled names, each generable on its own, can be taken
/// out of the settled set at once.
pub proof fn lemma_ty_generable_cut_many(
    u: Seq<TypeShapeV>,
    done: Set<Seq<char>>,
    extra: Set<Seq<char>>,
    t: FieldTyV,
)
    requires
        extra.finite(),
        forall|k: Seq<char>| extra.contains(k) ==> generable(u, done, k),
        ty_generable(u, done.union(extra), t),
    ensures
        ty_generable(u, done, t),
    decreases extra.len(),
{
    if extra.len() == 0 {
        extra.lemma_len0_is_empty();
        assert(done.union(extra) =~= done);
    } else {
        vstd::set::axiom_set_choose_len(extra);
        let k = extra.choose();
        let rest = extra.remove(k);
        vstd::set::axiom_set_remove_len(extra, k);
        assert(done.union(extra) =~= done.union(rest).insert(k));
        lemma_generable_mono(u, done, done.union(rest), k);
        lemma_ty_generable_cut(u, done.union(rest), k, t);
        lemma_ty_generable_cut_many(u, done, rest, t);
    }
}

/// As [`lemma_ty_generable_cut_many`], for one named type.
pub proof fn lemma_generable_cut_many(
    u: Seq<TypeShapeV>,
    done: Set<Seq<char>>,
    extra: Set<Seq<char>>,
    name: Seq<char>,
)
    requires
        extra.finite(),
        forall|k: Seq<char>| extra.contains(k) ==> generable(u, done, k),
        generable(u, done.union(extra), name),
    ensures
        generable(u, done, name),
    decreases extra.len(),
{
    if extra.len() == 0 {
        extra.lemma_len0_is_empty();
        assert(done.union(extra) =~= done);
    } else {
        vstd::set::axiom_set_choose_len(extra);
        let k = extra.choose();
        let rest = extra.remove(k);
        vstd::set::axiom_set_remove_len(extra, k);
        assert(done.union(extra) =~= done.union(rest).insert(k));
        lemma_generable_mono(u, done, done.union(rest), k);
        lemma_generable_cut(u, done.union(rest), k, name);
        lemma_generable_cut_many(u, done, rest, name);
    }
}

/// A field list each of whose types is generable is generable as a list.
pub proof fn lemma_fields_generable_build(
    u: Seq<TypeShapeV>,
    done: Set<Seq<char>>,
    fields: Seq<FieldDescV>,
)
    requires
        forall|j: int| 0 <= j < fields.len() ==> ty_generable(u, done, #[trigger] fields[j].ty),
    ensures
        fields_generable(u, done, fields),
    decreases fields.len(),
{
    if fields.len() > 0 {
        assert forall|j: int| 0 <= j < fields.drop_first().len() implies ty_generable(
            u,
            done,
            #[trigger] fields.drop_first()[j].ty,
        ) by {
            assert(fields.drop_first()[j] == fields[j + 1]);
        }
        lemma_fields_generable_build(u, done, fields.drop_first());
    }
}

} // verus!
