use dboom::attrs::{EntityAttr, IndexAttr, RelationAttr};
use dboom::descriptor::{snake_case, ConfigError, Field, SemType};
use dboom::entity::{DbError, Entity, EntityBuilder, SaveStatement};
use dboom::value::{Cell, Record, Row, Value};

fn field(name: &str, ty: SemType, primary_key: bool, ignored: bool) -> Field {
    Field { name: name.to_string(), ty, custom_type: None, primary_key, ignored }
}

fn user_fields() -> Vec<Field> {
    vec![
        field("id", SemType::Int, true, false),
        field("name", SemType::Text, false, false),
        field("active", SemType::Bool, false, false),
        field("cache", SemType::Text, false, true),
    ]
}

fn users() -> Entity {
    let attr = EntityAttr { table_name: Some("users".to_string()) };
    match EntityBuilder::new().build("User", attr, user_fields(), vec![], vec![], vec![]) {
        Ok(e) => e,
        Err(_) => panic!("valid description refused"),
    }
}

fn text(s: &str) -> Value {
    Value::Text(s.to_string())
}

fn record(id: i64, name: &str, active: bool) -> Record {
    Record { values: vec![Value::Int(id), text(name), Value::Bool(active), text("scratch")] }
}

fn cell(column: &str, value: Value) -> Cell {
    Cell { column: column.to_string(), value }
}

fn as_int(v: &Value) -> i64 {
    match v {
        Value::Int(i) => *i,
        _ => panic!("not an integer"),
    }
}

fn as_text(v: &Value) -> String {
    match v {
        Value::Text(s) => s.clone(),
        _ => panic!("not a text"),
    }
}

#[test]
fn table_name_derived_from_type_name() {
    assert_eq!(snake_case("UserAccount"), "user_account");
    assert_eq!(snake_case("Post"), "post");
    assert_eq!(snake_case(""), "");
    let e = EntityBuilder::new()
        .build("BlogPost", EntityAttr { table_name: None }, user_fields(), vec![], vec![], vec![])
        .ok()
        .unwrap();
    assert_eq!(e.descriptor.table_name, "blog_post");
}

#[test]
fn generated_statements() {
    let e = users();
    assert_eq!(e.insert_sql, "INSERT INTO users (name, active) VALUES ($1, $2) RETURNING id;");
    assert_eq!(e.update_sql, "UPDATE users SET name = $1, active = $2 WHERE id = $3");
    assert_eq!(e.delete_sql, "DELETE FROM users WHERE id = $1");
    assert_eq!(e.find_sql("name = $1"), "SELECT * FROM users WHERE name = $1");
    assert_eq!(e.first_sql("name = $1"), "SELECT * FROM users WHERE name = $1 LIMIT 1");
}

#[test]
fn many_fields_number_past_nine() {
    let mut fs = vec![field("id", SemType::Int, true, false)];
    for i in 0..10 {
        fs.push(field(&format!("f{}", i), SemType::Int, false, false));
    }
    let attr = EntityAttr { table_name: Some("wide".to_string()) };
    let e = EntityBuilder::new().build("Wide", attr, fs, vec![], vec![], vec![]).ok().unwrap();
    assert!(e.update_sql.ends_with("f9 = $10 WHERE id = $11"));
    assert!(e.insert_sql.contains("$9, $10) RETURNING id;"));
}

#[test]
fn missing_primary_key_is_reported() {
    let fs = vec![field("name", SemType::Text, false, false)];
    let r = EntityBuilder::new().build("T", EntityAttr { table_name: None }, fs, vec![], vec![], vec![]);
    assert_eq!(r.err().unwrap(), vec![ConfigError::NoPrimaryKey]);
}

#[test]
fn two_keys_and_duplicate_names_are_reported() {
    let fs = vec![
        field("id", SemType::Int, true, false),
        field("id", SemType::Int, true, false),
    ];
    let r = EntityBuilder::new().build("T", EntityAttr { table_name: None }, fs, vec![], vec![], vec![]);
    assert_eq!(r.err().unwrap(), vec![ConfigError::MultiplePrimaryKeys, ConfigError::DuplicateField]);
}

#[test]
fn first_save_inserts_then_updates() {
    let e = users();
    let mut rec = record(0, "ann", true);
    match e.save_statement(&rec) {
        SaveStatement::Insert(st) => {
            assert_eq!(st.sql, e.insert_sql);
            assert_eq!(st.params.len(), 2);
            assert_eq!(as_text(&st.params[0]), "ann");
        }
        SaveStatement::Update(_) => panic!("new record must be inserted"),
    }
    assert!(matches!(e.finish_insert(&mut rec, Some(Value::Int(7))), Ok(true)));
    assert_eq!(as_int(&rec.values[0]), 7);
    match e.save_statement(&rec) {
        SaveStatement::Update(st) => {
            assert_eq!(st.sql, e.update_sql);
            assert_eq!(st.params.len(), 3);
            assert_eq!(as_int(&st.params[2]), 7);
        }
        SaveStatement::Insert(_) => panic!("stored record must be updated"),
    }
    assert!(matches!(e.finish_update(Ok(1)), Ok(false)));
    assert!(matches!(e.finish_update(Ok(0)), Ok(false)));
}

#[test]
fn insert_without_returned_row_is_an_integrity_error() {
    let e = users();
    let mut rec = record(0, "ann", true);
    assert!(matches!(e.finish_insert(&mut rec, None), Err(DbError::DataIntegrity)));
    assert_eq!(as_int(&rec.values[0]), 0);
}

#[test]
fn default_or_mistyped_returned_key_is_an_integrity_error() {
    let e = users();
    let mut rec = record(0, "ann", true);
    assert!(matches!(e.finish_insert(&mut rec, Some(Value::Int(0))), Err(DbError::DataIntegrity)));
    assert!(matches!(e.finish_insert(&mut rec, Some(text("7"))), Err(DbError::DataIntegrity)));
    assert_eq!(as_int(&rec.values[0]), 0);
}

#[test]
fn returned_key_reads_the_key_column_of_the_first_row() {
    let e = users();
    let rows = vec![Row { cells: vec![cell("name", text("x")), cell("id", Value::Int(41))] }, user_row(2, "b")];
    assert_eq!(as_int(&e.returned_key(&rows).unwrap()), 41);
    assert!(e.returned_key(&vec![]).is_none());
    let no_key = vec![Row { cells: vec![cell("name", text("x"))] }];
    assert!(e.returned_key(&no_key).is_none());
}

#[test]
fn update_failure_propagates() {
    let e = users();
    let r = e.finish_update(Err(DbError::Query("boom".to_string())));
    match r {
        Err(DbError::Query(m)) => assert_eq!(m, "boom"),
        _ => panic!("error must pass through"),
    }
}

#[test]
fn delete_of_new_record_runs_nothing() {
    let e = users();
    assert!(e.delete_statement(&record(0, "ann", true)).is_none());
}

#[test]
fn delete_once_then_reset() {
    let e = users();
    let mut rec = record(5, "ann", true);
    let st = e.delete_statement(&rec).unwrap();
    assert_eq!(st.sql, "DELETE FROM users WHERE id = $1");
    assert_eq!(as_int(&st.params[0]), 5);
    assert!(!e.finish_delete(&mut rec, 0));
    assert_eq!(as_int(&rec.values[0]), 5);
    assert!(e.finish_delete(&mut rec, 1));
    assert_eq!(as_int(&rec.values[0]), 0);
    assert!(e.delete_statement(&rec).is_none());
}

#[test]
fn text_key_default_is_empty() {
    let fs = vec![field("code", SemType::Text, true, false), field("n", SemType::Int, false, false)];
    let attr = EntityAttr { table_name: Some("codes".to_string()) };
    let e = EntityBuilder::new().build("Code", attr, fs, vec![], vec![], vec![]).ok().unwrap();
    let rec = Record { values: vec![text(""), Value::Int(1)] };
    assert!(matches!(e.save_statement(&rec), SaveStatement::Insert(_)));
    let rec = Record { values: vec![text("a"), Value::Int(1)] };
    assert!(matches!(e.save_statement(&rec), SaveStatement::Update(_)));
}

fn user_row(id: i64, name: &str) -> Row {
    Row {
        cells: vec![
            cell("active", Value::Bool(true)),
            cell("id", Value::Int(id)),
            cell("name", text(name)),
        ],
    }
}

#[test]
fn from_row_decodes_by_column_name() {
    let e = users();
    let rec = e.from_row(&user_row(3, "bo")).unwrap();
    assert_eq!(rec.values.len(), 4);
    assert_eq!(as_int(&rec.values[0]), 3);
    assert_eq!(as_text(&rec.values[1]), "bo");
    assert!(matches!(rec.values[2], Value::Bool(true)));
    assert_eq!(as_text(&rec.values[3]), "");
}

#[test]
fn from_row_rejects_missing_or_mistyped_columns() {
    let e = users();
    let missing = Row { cells: vec![cell("id", Value::Int(1)), cell("name", text("x"))] };
    assert!(e.from_row(&missing).is_none());
    let mistyped = Row {
        cells: vec![cell("id", text("1")), cell("name", text("x")), cell("active", Value::Bool(false))],
    };
    assert!(e.from_row(&mistyped).is_none());
}

#[test]
fn find_keeps_row_order_and_first_takes_the_match() {
    let e = users();
    let rows = vec![user_row(2, "b"), user_row(1, "a"), user_row(3, "c")];
    let recs = e.find_rows(&rows).unwrap();
    assert_eq!(recs.len(), 3);
    let ids: Vec<i64> = recs.iter().map(|r| as_int(&r.values[0])).collect();
    assert_eq!(ids, vec![2, 1, 3]);
    assert_eq!(e.find_rows(&vec![]).unwrap().len(), 0);
    let one = vec![user_row(9, "z")];
    let first = e.first_row(&one).unwrap().unwrap();
    let found = e.find_rows(&one).unwrap();
    assert_eq!(as_int(&first.values[0]), as_int(&found[0].values[0]));
    assert_eq!(as_text(&first.values[1]), "z");
    assert!(e.first_row(&vec![]).unwrap().is_none());
}

fn index(columns: &str) -> IndexAttr {
    IndexAttr { name: "ix".to_string(), columns: columns.to_string(), unique: false }
}

fn build_with_index(columns: &str) -> Result<Entity, Vec<ConfigError>> {
    let attr = EntityAttr { table_name: None };
    EntityBuilder::new().build("User", attr, user_fields(), vec![index(columns)], vec![], vec![])
}

#[test]
fn index_columns_must_name_stored_fields() {
    assert!(build_with_index("name").is_ok());
    assert!(build_with_index(" name ,  active").is_ok());
    assert_eq!(build_with_index("name,,id").err().unwrap(), vec![ConfigError::MalformedIndex]);
    assert_eq!(build_with_index("nosuch").err().unwrap(), vec![ConfigError::MalformedIndex]);
    assert_eq!(build_with_index("cache").err().unwrap(), vec![ConfigError::MalformedIndex]);
    assert_eq!(build_with_index("").err().unwrap(), vec![ConfigError::MalformedIndex]);
}

#[test]
fn description_lists_are_kept() {
    let rel = RelationAttr { model: "Team".to_string(), key: "team_id".to_string() };
    let attr = EntityAttr { table_name: None };
    let e = EntityBuilder::new()
        .build("User", attr, user_fields(), vec![index("id, name")], vec![rel], vec![])
        .ok()
        .unwrap();
    assert_eq!(e.descriptor.indexes.len(), 1);
    assert_eq!(e.descriptor.relations[0].model, "Team");
    assert_eq!(e.descriptor.primary_key, 0);
    assert_eq!(e.descriptor.table_name, "user");
}
