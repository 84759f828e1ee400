use openapi_schema::FieldDesc;
use openapi_schema::FieldTy;
use openapi_schema::Registry;
use openapi_schema::ShapeKind;
use openapi_schema::TypeShape;
use openapi_schema::Universe;

fn pet_universe() -> Universe {
    let mut u = Universe::new();
    u.push(TypeShape {
        name: "Tag".to_string(),
        doc_lines: vec![
            "Pet Tag".to_string(),
            "".to_string(),
            "A tag for a pet".to_string(),
        ],
        kind: ShapeKind::Struct(vec![
            FieldDesc {
                name: "id".to_string(),
                ty: FieldTy::Int64,
            },
            FieldDesc {
                name: "name".to_string(),
                ty: FieldTy::Optional(Box::new(FieldTy::Text)),
            },
        ]),
    });
    u.push(TypeShape {
        name: "Category".to_string(),
        doc_lines: vec!["A category for a pet".to_string()],
        kind: ShapeKind::Struct(vec![
            FieldDesc {
                name: "id".to_string(),
                ty: FieldTy::Optional(Box::new(FieldTy::Int64)),
            },
            FieldDesc {
                name: "name".to_string(),
                ty: FieldTy::Optional(Box::new(FieldTy::Text)),
            },
        ]),
    });
    u
}

#[test]
fn test_simple_derive() {
    let u = pet_universe();
    let mut spec = Registry::new();
    openapi_schema::generate_schema(&u, &mut spec, "Tag").unwrap();

    let tag = match spec.get("Tag") {
        Some(tag) => tag,
        _ => panic!("unexpected reference"),
    };

    assert_eq!(tag.title, Some("Pet Tag".into()));
    assert_eq!(tag.description, Some("A tag for a pet".into()));

    assert!(tag.property("id").is_some());
    let id = tag.property("id").unwrap();
    assert_eq!(id.schema_type, Some("number".into()));
    assert_eq!(id.format, Some("int64".into()));

    assert!(tag.property("name").is_some());
    let name = tag.property("name").unwrap();
    assert_eq!(name.schema_type, Some("string".into()));

    assert_eq!(tag.required, Some(vec![String::from("id")]));

    openapi_schema::generate_schema(&u, &mut spec, "Category").unwrap();

    let cat = match spec.get("Category") {
        Some(cat) => cat,
        _ => panic!("missing Category in schemas"),
    };

    assert_eq!(cat.title, None);
    assert_eq!(cat.description, Some("A category for a pet".into()));

    assert!(cat.property("id").is_some());
    let id = cat.property("id").unwrap();
    assert_eq!(id.schema_type, Some("number".into()));
    assert_eq!(id.format, Some("int64".into()));

    assert!(cat.property("name").is_some());
    let name = cat.property("name").unwrap();
    assert_eq!(name.schema_type, Some("string".into()));

    assert_eq!(cat.required, None);
}
