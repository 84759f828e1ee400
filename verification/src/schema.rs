//! The schema object: one OpenAPI v3 schema, either a full definition or a
//! reference to a registry entry.
//!
//! A value is a reference when only `ref_path` is populated; a full
//! definition leaves `ref_path` empty, though its properties and items may
//! themselves be reference-valued schema objects.  A definition is created
//! exactly once per distinct type name and never mutated afterwards.

use vstd::prelude::*;

verus! {

/// One OpenAPI schema object.  Every part is optional; absent parts are
/// left out of the serialized document entirely.
#[derive(Debug)]
pub struct Schema {
    /// Short summary, from the first documentation paragraph.
    pub title: Option<String>,
    /// Longer text, from the remaining documentation.
    pub description: Option<String>,
    /// The schema type tag: string, number, boolean or array; absent for
    /// composite object schemas and for references.
    pub schema_type: Option<String>,
    /// The numeric format: int32 or int64.
    pub format: Option<String>,
    /// An inclusive numeric lower bound; used for the unsigned integers.
    pub minimum: Option<u64>,
    /// Property name to property schema, in declared field order.
    pub properties: Option<Vec<(String, Schema)>>,
    /// The names of the properties that are required, in declared order.
    pub required: Option<Vec<String>>,
    /// The permitted string values of an enum schema, in declared order.
    pub enum_values: Option<Vec<String>>,
    /// A reference path to a registry entry, instead of an inline
    /// definition.
    pub ref_path: Option<String>,
    /// The element schema of an array schema.
    pub items: Option<Box<Schema>>,
}

/// The mathematical model of a [`Schema`]: the same tree over character
/// sequences.
pub struct SchemaV {
    pub title: Option<Seq<char>>,
    pub description: Option<Seq<char>>,
    pub schema_type: Option<Seq<char>>,
    pub format: Option<Seq<char>>,
    pub minimum: Option<u64>,
    pub properties: Option<Seq<(Seq<char>, SchemaV)>>,
    pub required: Option<Seq<Seq<char>>>,
    pub enum_values: Option<Seq<Seq<char>>>,
    pub ref_path: Option<Seq<char>>,
    pub items: Option<Box<SchemaV>>,
}

/// The model of a property list, pair by pair.
pub open spec fn props_view(ps: Seq<(String, Schema)>) -> Seq<(Seq<char>, SchemaV)>
    decreases ps,
{
    if ps.len() == 0 {
        Seq::empty()
    } else {
        props_view(ps.subrange(0, ps.len() - 1)).push(
            (ps[ps.len() - 1].0@, schema_view(ps[ps.len() - 1].1)),
        )
    }
}

/// The model of a schema object.
pub open spec fn schema_view(s: Schema) -> SchemaV
    decreases s,
    via schema_view_decreases
{
    SchemaV {
        title: match s.title {
            Some(t) => Some(t@),
            None => None,
        },
        description: match s.description {
            Some(d) => Some(d@),
            None => None,
        },
        schema_type: match s.schema_type {
            Some(t) => Some(t@),
            None => None,
        },
        format: match s.format {
            Some(f) => Some(f@),
            None => None,
        },
        minimum: s.minimum,
        properties: match s.properties {
            Some(ps) => Some(props_view(ps@)),
            None => None,
        },
        required: match s.required {
            Some(rs) => Some(rs@.map(|i: int, r: String| r@)),
            None => None,
        },
        enum_values: match s.enum_values {
            Some(vs) => Some(vs@.map(|i: int, v: String| v@)),
            None => None,
        },
        ref_path: match s.ref_path {
            Some(p) => Some(p@),
            None => None,
        },
        items: match s.items {
            Some(it) => Some(Box::new(schema_view(*it))),
            None => None,
        },
    }
}

#[via_fn]
proof fn schema_view_decreases(s: Schema) {
    if let Some(ps) = s.properties {
        assert(decreases_to!(s => ps));
        assert(decreases_to!(ps => ps@));
    }
    if let Some(it) = s.items {
        assert(decreases_to!(s => it));
    }
}

/// What the model of a property list holds at each position.
pub proof fn lemma_props_view(ps: Seq<(String, Schema)>)
    ensures
        props_view(ps).len() == ps.len(),
        forall|i: int|
            0 <= i < ps.len() ==> #[trigger] props_view(ps)[i] == (
                ps[i].0@,
                schema_view(ps[i].1),
            ),
    decreases ps.len(),
{
    if ps.len() > 0 {
        lemma_props_view(ps.subrange(0, ps.len() - 1));
    }
}

impl View for Schema {
    type V = SchemaV;

    open spec fn view(&self) -> SchemaV {
        schema_view(*self)
    }
}

/// A schema with every part absent.
pub open spec fn empty_schema_v() -> SchemaV {
    SchemaV {
        title: None,
        description: None,
        schema_type: None,
        format: None,
        minimum: None,
        properties: None,
        required: None,
        enum_values: None,
        ref_path: None,
        items: None,
    }
}

impl Schema {
    /// A schema with every part absent, for building definitions from.
    pub fn empty() -> (r: Schema)
        ensures
            r@ == empty_schema_v(),
    {
        Schema {
            title: None,
            description: None,
            schema_type: None,
            format: None,
            minimum: None,
            properties: None,
            required: None,
            enum_values: None,
            ref_path: None,
            items: None,
        }
    }

    /// Looks a property schema up by name, where this schema has
    /// properties.  Names are unique because source field names are.
    pub fn property(&self, name: &str) -> (r: Option<&Schema>)
        ensures
            match r {
                Some(p) => {
                    &&& self@.properties is Some
                    &&& exists|i: int|
                        0 <= i < self@.properties->0.len()
                            && self@.properties->0[i].0 == name@
                            && p@ == self@.properties->0[i].1
                },
                None => self@.properties matches Some(ps)
                    ==> forall|i: int| 0 <= i < ps.len() ==> ps[i].0 != name@,
            },
    {
        match &self.properties {
            None => None,
            Some(ps) => {
                proof {
                    lemma_props_view(ps@);
                }
                let mut i: usize = 0;
                while i < ps.len()
                    invariant
                        self@.properties == Some(props_view(ps@)),
                        props_view(ps@).len() == ps@.len(),
                        forall|j: int|
                            0 <= j < ps@.len() ==> #[trigger] props_view(ps@)[j] == (
                                ps@[j].0@,
                                schema_view(ps@[j].1),
                            ),
                        i <= ps@.len(),
                        forall|j: int| 0 <= j < i ==> props_view(ps@)[j].0 != name@,
                    decreases ps@.len() - i,
                {
                    if crate::text::str_eq(ps[i].0.as_str(), name) {
                        let out = &ps[i].1;
                        proof {
                            let j = i as int;
                            assert(out@ == schema_view(ps@[j].1));
                            assert(0 <= j < self@.properties->0.len()
                                && self@.properties->0[j].0 == name@
                                && out@ == self@.properties->0[j].1);
                        }
                        return Some(out);
                    }
                    i += 1;
                }
                None
            },
        }
    }
}

} // verus!
