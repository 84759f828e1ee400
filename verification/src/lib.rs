//! Generation of OpenAPI v3 schema objects from declared type shapes.
//!
//! A caller describes its data types as explicit shape descriptors (structs
//! with named, typed fields and enums with unit variants), and the generator
//! translates each shape into a schema object, registers it once under the
//! type's canonical name, and hands back a lightweight reference that any
//! containing schema can embed.

pub mod docs;
pub mod generate;
pub mod registry;
pub mod schema;
pub mod shape;
pub mod text;

pub use generate::GenError;
pub use generate::SchemaOrRef;
pub use generate::generate_field_schema;
pub use generate::generate_schema;
pub use registry::Registry;
pub use schema::Schema;
pub use shape::FieldDesc;
pub use shape::FieldTy;
pub use shape::ShapeKind;
pub use shape::TypeShape;
pub use shape::Universe;
pub use shape::VariantDesc;
