use crudx::{
    classify, derive_table, it_works as sample_table, new_table, Annotation, ClassifyError, Field,
    PrimaryKey, Projection, TableData, TableDecl,
};

fn field(name: &str, ty: &'static str, markers: &[&str]) -> Field<&'static str> {
    Field {
        name: Some(name.to_string()),
        annotations: markers.iter().map(|m| Annotation::marker(m)).collect(),
        decl: ty,
    }
}

fn unnamed(ty: &'static str) -> Field<&'static str> {
    Field { name: None, annotations: Vec::new(), decl: ty }
}

fn table(fields: Vec<Field<&'static str>>) -> TableDecl<&'static str, &'static str> {
    TableDecl { visibility: "pub", name: "Item".to_string(), fields }
}

fn names<T>(fields: &[Field<T>]) -> Vec<String> {
    fields.iter().map(|f| f.name.clone().unwrap_or_default()).collect()
}

fn key_name<T>(pk: &PrimaryKey<T>) -> Option<(&'static str, String)> {
    match pk {
        PrimaryKey::Unset => None,
        PrimaryKey::FromName(f) => Some(("name", f.name.clone().unwrap())),
        PrimaryKey::FromAttribute(f) => Some(("attribute", f.name.clone().unwrap())),
    }
}

fn projected(fields: Vec<Field<&'static str>>) -> Projection<&'static str, &'static str> {
    match derive_table(table(fields)) {
        Ok(p) => p,
        Err(e) => panic!("unexpected error {:?}", e),
    }
}

#[test]
fn it_works() {
    let p = sample_table();
    assert_eq!(p.name, "NewTestTable");
    assert_eq!(names(&p.fields), vec!["field"]);
    assert_eq!(p.fields[0].decl, "pub field: i32");

    let decl = TableDecl {
        visibility: "",
        name: "TestTable".to_string(),
        fields: vec![field("field", "i32", &[])],
    };
    let p = derive_table(decl).unwrap();
    assert_eq!(p.name, "NewTestTable");
    assert_eq!(names(&p.fields), vec!["field"]);
    assert_eq!(p.fields[0].decl, "i32");
}

#[test]
fn no_primary_key_by_default() {
    let fields = vec![field("name", "string", &[]), field("age", "int", &[])];
    let data = classify(table(fields)).unwrap();
    assert!(data.primary_key.is_none());
    assert_eq!(names(&data.rw_fields), vec!["name", "age"]);
    assert!(data.ro_fields.is_empty());
    let p = new_table(data);
    assert_eq!(names(&p.fields), vec!["name", "age"]);
}

#[test]
fn implicit_primary_key_by_name() {
    let fields = vec![field("id", "int", &[]), field("name", "string", &[])];
    let data = classify(table(fields)).unwrap();
    assert_eq!(key_name(&data.primary_key), Some(("name", "id".to_string())));
    let p = new_table(data);
    assert_eq!(names(&p.fields), vec!["name"]);
    assert_eq!(p.fields[0].decl, "string");
}

#[test]
fn second_id_field_is_ordinary() {
    let fields = vec![field("id", "int", &[]), field("id", "string", &[])];
    let data = classify(table(fields)).unwrap();
    assert_eq!(key_name(&data.primary_key), Some(("name", "id".to_string())));
    assert_eq!(data.rw_fields.len(), 1);
    assert_eq!(data.rw_fields[0].decl, "string");
}

#[test]
fn suppressed_implicit_primary_key() {
    let fields = vec![field("id", "int", &["not_defaulted"]), field("name", "string", &[])];
    let data = classify(table(fields)).unwrap();
    assert!(data.primary_key.is_none());
    assert_eq!(names(&data.rw_fields), vec!["id", "name"]);

    let fields = vec![field("id", "int", &["not_defaulted", "read_only"]), field("name", "string", &[])];
    let data = classify(table(fields)).unwrap();
    assert!(data.primary_key.is_none());
    assert_eq!(names(&data.rw_fields), vec!["name"]);
    assert_eq!(names(&data.ro_fields), vec!["id"]);
}

#[test]
fn explicit_primary_key_overrides_implicit() {
    let fields = vec![field("id", "int", &[]), field("code", "string", &["primary_key"])];
    let data = classify(table(fields)).unwrap();
    assert_eq!(key_name(&data.primary_key), Some(("attribute", "code".to_string())));
    let p = new_table(data);
    assert_eq!(names(&p.fields), vec!["id"]);
    assert_eq!(p.fields[0].decl, "int");
}

#[test]
fn demoted_id_lands_at_point_of_demotion() {
    let fields = vec![
        field("id", "int", &[]),
        field("name", "string", &[]),
        field("code", "string", &["primary_key"]),
        field("age", "int", &[]),
    ];
    let p = projected(fields);
    assert_eq!(names(&p.fields), vec!["name", "id", "age"]);
}

#[test]
fn demoted_read_only_id_stays_read_only() {
    let fields = vec![field("id", "int", &["read_only"]), field("code", "string", &["primary_key"])];
    let data = classify(table(fields)).unwrap();
    assert_eq!(key_name(&data.primary_key), Some(("attribute", "code".to_string())));
    assert!(data.rw_fields.is_empty());
    assert_eq!(names(&data.ro_fields), vec!["id"]);
}

#[test]
fn duplicate_explicit_primary_key_fails() {
    let fields = vec![field("a", "int", &["primary_key"]), field("b", "int", &["primary_key"])];
    assert_eq!(derive_table(table(fields)).err(), Some(ClassifyError::AmbiguousPrimaryKey));

    let fields = vec![
        field("id", "int", &[]),
        field("a", "int", &["primary_key"]),
        field("name", "string", &[]),
        field("b", "int", &["primary_key"]),
    ];
    assert!(matches!(classify(table(fields)), Err(ClassifyError::AmbiguousPrimaryKey)));
}

#[test]
fn id_with_primary_key_is_taken_by_name_first() {
    let fields = vec![field("id", "int", &["primary_key"]), field("b", "int", &["primary_key"])];
    let data = classify(table(fields)).unwrap();
    assert_eq!(key_name(&data.primary_key), Some(("attribute", "b".to_string())));
    assert_eq!(names(&data.rw_fields), vec!["id"]);
}

#[test]
fn read_only_exclusion() {
    let fields = vec![
        field("id", "int", &[]),
        field("created_at", "string", &["read_only"]),
        field("name", "string", &[]),
    ];
    let data = classify(table(fields)).unwrap();
    assert_eq!(names(&data.ro_fields), vec!["created_at"]);
    let p = new_table(data);
    assert_eq!(names(&p.fields), vec!["name"]);
}

#[test]
fn every_field_read_only() {
    let fields = vec![field("a", "int", &["read_only"]), field("b", "int", &["read_only"])];
    let data = classify(table(fields)).unwrap();
    assert!(data.rw_fields.is_empty());
    assert_eq!(names(&data.ro_fields), vec!["a", "b"]);
}

#[test]
fn classification_is_deterministic() {
    let make = || {
        vec![
            field("id", "int", &[]),
            field("b", "int", &["read_only"]),
            field("c", "int", &[]),
            field("code", "int", &["primary_key"]),
        ]
    };
    let first = projected(make());
    let second = projected(make());
    assert_eq!(names(&first.fields), names(&second.fields));
    assert_eq!(first.name, second.name);
    assert_eq!(names(&first.fields), vec!["c", "id"]);
}

#[test]
fn anonymous_fields_dropped() {
    let fields = vec![unnamed("int"), field("name", "string", &[]), unnamed("bool")];
    let data = classify(table(fields)).unwrap();
    assert!(data.primary_key.is_none());
    assert_eq!(names(&data.rw_fields), vec!["name"]);
    assert!(data.ro_fields.is_empty());

    let fields = vec![unnamed("int"), unnamed("bool")];
    let p = projected(fields);
    assert!(p.fields.is_empty());
}

#[test]
fn empty_table() {
    let p = projected(Vec::new());
    assert_eq!(p.name, "NewItem");
    assert_eq!(p.visibility, "pub");
    assert!(p.fields.is_empty());
}

#[test]
fn projection_name_and_visibility() {
    let decl = TableDecl { visibility: "pub(crate)", name: "User".to_string(), fields: vec![field("x", "int", &[])] };
    let p = derive_table(decl).unwrap();
    assert_eq!(p.name, "NewUser");
    assert_eq!(p.visibility, "pub(crate)");
}

#[test]
fn annotations_are_carried_verbatim() {
    let mut f = field("name", "string", &["unique"]);
    f.annotations.push(Annotation { ident: None, has_tokens: true });
    let p = projected(vec![f]);
    assert_eq!(p.fields[0].annotations.len(), 2);
    assert_eq!(p.fields[0].annotations[0].ident.as_deref(), Some("unique"));
    assert!(p.fields[0].annotations[1].has_tokens);
}

#[test]
fn annotation_with_tokens_is_not_a_marker() {
    let f = Field {
        name: Some("code".to_string()),
        annotations: vec![Annotation { ident: Some("primary_key".to_string()), has_tokens: true }],
        decl: "int",
    };
    assert!(!f.is_primary_key());
    assert!(!f.has_attribute("primary_key"));
    let data = classify(table(vec![f])).unwrap();
    assert!(data.primary_key.is_none());
    assert_eq!(names(&data.rw_fields), vec!["code"]);
}

#[test]
fn annotation_path_not_an_identifier_is_ignored() {
    let f = Field { name: Some("code".to_string()), annotations: vec![Annotation { ident: None, has_tokens: false }], decl: "int" };
    assert!(!f.is_primary_key());
    assert!(!f.is_read_only());
}

#[test]
fn field_inspector_queries() {
    let f = field("a", "int", &["read_only", "not_defaulted"]);
    assert!(f.is_read_only());
    assert!(f.is_not_defaulted());
    assert!(!f.is_primary_key());
    assert!(f.has_attribute("read_only"));
    assert!(!f.has_attribute("read"));
    assert!(!f.has_attribute("read_only_x"));
    let g = field("b", "int", &["primary_key"]);
    assert!(g.is_primary_key());
    assert!(!g.is_read_only());
}

#[test]
fn annotation_marker() {
    let a = Annotation::marker("read_only");
    assert_eq!(a.ident.as_deref(), Some("read_only"));
    assert!(!a.has_tokens);
    assert!(a.marks(&"read_only".to_string()));
    assert!(!a.marks(&"primary_key".to_string()));
}

#[test]
fn visit_field_step_by_step() {
    let mut data: TableData<&str, &str> = TableData::new("pub", "Item".to_string());
    assert!(data.visit_field(field("a", "int", &["primary_key"])).is_ok());
    assert!(data.visit_field(unnamed("int")).is_ok());
    assert!(data.visit_field(field("id", "int", &[])).is_ok());
    assert_eq!(names(&data.rw_fields), vec!["id"]);
    assert_eq!(data.visit_field(field("b", "int", &["primary_key"])), Err(ClassifyError::AmbiguousPrimaryKey));
    assert_eq!(key_name(&data.primary_key), Some(("attribute", "a".to_string())));
    assert_eq!(names(&data.rw_fields), vec!["id"]);
}

#[test]
fn add_field_places_by_read_only() {
    let mut data: TableData<&str, &str> = TableData::new("", "T".to_string());
    data.add_field(field("a", "int", &["read_only"]));
    data.add_field(field("b", "int", &[]));
    assert_eq!(names(&data.ro_fields), vec!["a"]);
    assert_eq!(names(&data.rw_fields), vec!["b"]);
    assert_eq!(data.name, "T");
}
