use openapi_schema::FieldDesc;
use openapi_schema::FieldTy;
use openapi_schema::GenError;
use openapi_schema::Registry;
use openapi_schema::SchemaOrRef;
use openapi_schema::ShapeKind;
use openapi_schema::TypeShape;
use openapi_schema::Universe;
use openapi_schema::VariantDesc;

fn struct_shape(name: &str, docs: &[&str], fields: Vec<FieldDesc>) -> TypeShape {
    TypeShape {
        name: name.to_string(),
        doc_lines: docs.iter().map(|l| l.to_string()).collect(),
        kind: ShapeKind::Struct(fields),
    }
}

fn field(name: &str, ty: FieldTy) -> FieldDesc {
    FieldDesc {
        name: name.to_string(),
        ty,
    }
}

fn ref_path_of(r: &SchemaOrRef) -> String {
    match r {
        SchemaOrRef::Ref { ref_path } => ref_path.clone(),
        SchemaOrRef::Object(_) => panic!("expected a reference"),
    }
}

#[test]
fn idempotent_registration() {
    let mut u = Universe::new();
    u.push(struct_shape("Point", &[], vec![field("x", FieldTy::Int32)]));
    let mut reg = Registry::new();

    let first = openapi_schema::generate_schema(&u, &mut reg, "Point").unwrap();
    assert_eq!(reg.len(), 1);
    let second = openapi_schema::generate_schema(&u, &mut reg, "Point").unwrap();
    assert_eq!(reg.len(), 1);
    assert_eq!(ref_path_of(&first), "#/components/schemas/Point");
    assert_eq!(ref_path_of(&first), ref_path_of(&second));
}

#[test]
fn dedup_under_mutual_reference() {
    let mut u = Universe::new();
    u.push(struct_shape(
        "Author",
        &[],
        vec![field("works", FieldTy::Sequence(Box::new(FieldTy::Named("Book".to_string()))))],
    ));
    u.push(struct_shape(
        "Book",
        &[],
        vec![field("author", FieldTy::Named("Author".to_string()))],
    ));
    let mut reg = Registry::new();

    openapi_schema::generate_schema(&u, &mut reg, "Author").unwrap();
    assert_eq!(reg.len(), 2);
    assert!(reg.contains("Author"));
    assert!(reg.contains("Book"));

    openapi_schema::generate_schema(&u, &mut reg, "Book").unwrap();
    assert_eq!(reg.len(), 2);

    let book = reg.get("Book").unwrap();
    let author_ref = book.property("author").unwrap();
    assert_eq!(
        author_ref.ref_path,
        Some("#/components/schemas/Author".to_string())
    );
}

#[test]
fn required_field_correctness() {
    let mut u = Universe::new();
    u.push(struct_shape(
        "Item",
        &[],
        vec![
            field("id", FieldTy::Int64),
            field("name", FieldTy::Optional(Box::new(FieldTy::Text))),
        ],
    ));
    let mut reg = Registry::new();
    openapi_schema::generate_schema(&u, &mut reg, "Item").unwrap();

    let item = reg.get("Item").unwrap();
    assert_eq!(item.required, Some(vec!["id".to_string()]));
    let id = item.property("id").unwrap();
    assert_eq!(id.schema_type, Some("number".to_string()));
    assert_eq!(id.format, Some("int64".to_string()));
    assert_eq!(id.minimum, None);
    let name = item.property("name").unwrap();
    assert_eq!(name.schema_type, Some("string".to_string()));
    assert_eq!(name.minimum, None);
}

#[test]
fn unsigned_lower_bound() {
    let mut u = Universe::new();
    u.push(struct_shape(
        "Counts",
        &[],
        vec![
            field("small", FieldTy::UInt32),
            field("signed", FieldTy::Int32),
            field("large", FieldTy::UInt64),
            field("signed_large", FieldTy::Int64),
        ],
    ));
    let mut reg = Registry::new();
    openapi_schema::generate_schema(&u, &mut reg, "Counts").unwrap();

    let counts = reg.get("Counts").unwrap();
    let small = counts.property("small").unwrap();
    assert_eq!(small.schema_type, Some("number".to_string()));
    assert_eq!(small.format, Some("int32".to_string()));
    assert_eq!(small.minimum, Some(0));
    let signed = counts.property("signed").unwrap();
    assert_eq!(signed.schema_type, Some("number".to_string()));
    assert_eq!(signed.format, Some("int32".to_string()));
    assert_eq!(signed.minimum, None);
    let large = counts.property("large").unwrap();
    assert_eq!(large.format, Some("int64".to_string()));
    assert_eq!(large.minimum, Some(0));
    let signed_large = counts.property("signed_large").unwrap();
    assert_eq!(signed_large.format, Some("int64".to_string()));
    assert_eq!(signed_large.minimum, None);
}

#[test]
fn doc_split_title_and_description() {
    let lines = vec!["Pet Tag".to_string(), "".to_string(), "A tag for a pet".to_string()];
    let (title, desc) = openapi_schema::docs::split_doc(&lines);
    assert_eq!(title, Some("Pet Tag".to_string()));
    assert_eq!(desc, Some("A tag for a pet".to_string()));
}

#[test]
fn doc_split_description_only() {
    let lines = vec!["A category for a pet".to_string()];
    let (title, desc) = openapi_schema::docs::split_doc(&lines);
    assert_eq!(title, None);
    assert_eq!(desc, Some("A category for a pet".to_string()));
}

#[test]
fn doc_split_empty() {
    let lines: Vec<String> = Vec::new();
    let (title, desc) = openapi_schema::docs::split_doc(&lines);
    assert_eq!(title, None);
    assert_eq!(desc, None);
}

#[test]
fn array_wrapping_primitive() {
    let mut u = Universe::new();
    u.push(struct_shape(
        "Pet",
        &[],
        vec![field("photo_urls", FieldTy::Sequence(Box::new(FieldTy::Text)))],
    ));
    let mut reg = Registry::new();
    openapi_schema::generate_schema(&u, &mut reg, "Pet").unwrap();

    let pet = reg.get("Pet").unwrap();
    let urls = pet.property("photo_urls").unwrap();
    assert_eq!(urls.schema_type, Some("array".to_string()));
    let items = urls.items.as_ref().unwrap();
    assert_eq!(items.schema_type, Some("string".to_string()));
    assert_eq!(items.ref_path, None);
}

#[test]
fn array_wrapping_named() {
    let mut u = Universe::new();
    u.push(struct_shape(
        "Pet",
        &[],
        vec![field("tags", FieldTy::Sequence(Box::new(FieldTy::Named("Tag".to_string()))))],
    ));
    u.push(struct_shape("Tag", &[], vec![field("id", FieldTy::Int64)]));
    let mut reg = Registry::new();
    openapi_schema::generate_schema(&u, &mut reg, "Pet").unwrap();

    let pet = reg.get("Pet").unwrap();
    let tags = pet.property("tags").unwrap();
    assert_eq!(tags.schema_type, Some("array".to_string()));
    let items = tags.items.as_ref().unwrap();
    assert_eq!(items.ref_path, Some("#/components/schemas/Tag".to_string()));
    assert_eq!(items.schema_type, None);
    assert!(reg.contains("Tag"));
    assert_eq!(reg.len(), 2);
}

#[test]
fn enum_unit_variants() {
    let mut u = Universe::new();
    u.push(TypeShape {
        name: "Status".to_string(),
        doc_lines: vec!["Pet status in the store".to_string()],
        kind: ShapeKind::Enum(vec![
            VariantDesc {
                name: "Available".to_string(),
                plain: true,
            },
            VariantDesc {
                name: "Pending".to_string(),
                plain: true,
            },
            VariantDesc {
                name: "Sold".to_string(),
                plain: true,
            },
        ]),
    });
    let mut reg = Registry::new();
    openapi_schema::generate_schema(&u, &mut reg, "Status").unwrap();

    let status = reg.get("Status").unwrap();
    assert_eq!(status.schema_type, Some("string".to_string()));
    assert_eq!(
        status.enum_values,
        Some(vec![
            "Available".to_string(),
            "Pending".to_string(),
            "Sold".to_string(),
        ])
    );
    assert_eq!(status.title, None);
    assert_eq!(status.description, Some("Pet status in the store".to_string()));
}

#[test]
fn non_trivial_enum_variant_fails() {
    let mut u = Universe::new();
    u.push(TypeShape {
        name: "Shape".to_string(),
        doc_lines: Vec::new(),
        kind: ShapeKind::Enum(vec![
            VariantDesc {
                name: "Circle".to_string(),
                plain: true,
            },
            VariantDesc {
                name: "Polygon".to_string(),
                plain: false,
            },
        ]),
    });
    let mut reg = Registry::new();
    let err = openapi_schema::generate_schema(&u, &mut reg, "Shape").unwrap_err();
    assert!(matches!(err, GenError::NonTrivialVariant(_)));
    assert_eq!(reg.len(), 0);
}

#[test]
fn union_shape_fails() {
    let mut u = Universe::new();
    u.push(TypeShape {
        name: "Raw".to_string(),
        doc_lines: Vec::new(),
        kind: ShapeKind::Union,
    });
    let mut reg = Registry::new();
    let err = openapi_schema::generate_schema(&u, &mut reg, "Raw").unwrap_err();
    assert!(matches!(err, GenError::UnsupportedShape(_)));
    assert_eq!(reg.len(), 0);
}

#[test]
fn unknown_type_fails() {
    let mut u = Universe::new();
    u.push(struct_shape(
        "Holder",
        &[],
        vec![field("inner", FieldTy::Named("Missing".to_string()))],
    ));
    let mut reg = Registry::new();
    let err = openapi_schema::generate_schema(&u, &mut reg, "Holder").unwrap_err();
    assert!(matches!(err, GenError::UnknownType(n) if n == "Missing"));
    assert_eq!(reg.len(), 0);
}

#[test]
fn field_schema_primitive_is_inline() {
    let u = Universe::new();
    let mut reg = Registry::new();
    let got = openapi_schema::generate_field_schema(&u, &mut reg, &FieldTy::Boolean).unwrap();
    match got {
        SchemaOrRef::Object(s) => {
            assert_eq!(s.schema_type, Some("boolean".to_string()));
            assert_eq!(s.format, None);
        }
        SchemaOrRef::Ref { .. } => panic!("expected an inline schema"),
    }
    assert_eq!(reg.len(), 0);
}

#[test]
fn optional_wrapper_is_transparent() {
    let u = Universe::new();
    let mut reg = Registry::new();
    let got = openapi_schema::generate_field_schema(
        &u,
        &mut reg,
        &FieldTy::Optional(Box::new(FieldTy::UInt32)),
    )
    .unwrap();
    match got {
        SchemaOrRef::Object(s) => {
            assert_eq!(s.schema_type, Some("number".to_string()));
            assert_eq!(s.format, Some("int32".to_string()));
            assert_eq!(s.minimum, Some(0));
        }
        SchemaOrRef::Ref { .. } => panic!("expected an inline schema"),
    }
}

#[test]
fn empty_struct_has_no_properties() {
    let mut u = Universe::new();
    u.push(struct_shape("Unit", &[], Vec::new()));
    let mut reg = Registry::new();
    openapi_schema::generate_schema(&u, &mut reg, "Unit").unwrap();
    let unit = reg.get("Unit").unwrap();
    assert!(unit.properties.is_none());
    assert_eq!(unit.required, None);
    assert_eq!(unit.title, None);
    assert_eq!(unit.description, None);
}

#[test]
fn doc_split_keeps_later_blank_lines() {
    let lines = vec![
        "Summary".to_string(),
        "".to_string(),
        "".to_string(),
        "Body".to_string(),
    ];
    let (title, desc) = openapi_schema::docs::split_doc(&lines);
    assert_eq!(title, Some("Summary".to_string()));
    assert_eq!(desc, Some("\nBody".to_string()));
}

#[test]
fn nested_sequences() {
    let mut u = Universe::new();
    u.push(struct_shape(
        "Grid",
        &[],
        vec![field(
            "rows",
            FieldTy::Sequence(Box::new(FieldTy::Sequence(Box::new(FieldTy::Boolean)))),
        )],
    ));
    let mut reg = Registry::new();
    openapi_schema::generate_schema(&u, &mut reg, "Grid").unwrap();

    let grid = reg.get("Grid").unwrap();
    let rows = grid.property("rows").unwrap();
    assert_eq!(rows.schema_type, Some("array".to_string()));
    let inner = rows.items.as_ref().unwrap();
    assert_eq!(inner.schema_type, Some("array".to_string()));
    let leaf = inner.items.as_ref().unwrap();
    assert_eq!(leaf.schema_type, Some("boolean".to_string()));
}
