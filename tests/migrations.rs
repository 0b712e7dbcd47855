use dboom::attrs::EntityAttr;
use dboom::descriptor::{DbType, Field, SemType};
use dboom::entity::EntityBuilder;
use dboom::migration::{Column, Migration};
use dboom::runner::{plan, record_applied, to_units, HistoryEntry, MigrationUnit, Outcome};

fn field(name: &str, ty: SemType, primary_key: bool, ignored: bool) -> Field {
    Field { name: name.to_string(), ty, custom_type: None, primary_key, ignored }
}

fn table(name: &str) -> Migration {
    Migration {
        table: name.to_string(),
        columns: vec![
            Column { name: "id".to_string(), db_type: DbType::Integer },
            Column { name: "title".to_string(), db_type: DbType::Text },
        ],
    }
}

#[test]
fn create_migration_maps_fields_in_order() {
    let fs = vec![
        field("id", SemType::Int, true, false),
        field("name", SemType::Text, false, false),
        field("scratch", SemType::Bool, false, true),
    ];
    let attr = EntityAttr { table_name: Some("people".to_string()) };
    let e = EntityBuilder::new().build("Person", attr, fs, vec![], vec![], vec![]).ok().unwrap();
    let m = e.create_migration();
    assert_eq!(m.table, "people");
    assert_eq!(m.columns.len(), 2);
    assert_eq!(m.columns[0].name, "id");
    assert!(matches!(m.columns[0].db_type, DbType::Integer));
    assert_eq!(m.columns[1].name, "name");
    assert!(matches!(m.columns[1].db_type, DbType::Text));
}

#[test]
fn custom_type_overrides() {
    let mut f = field("born", SemType::Text, false, false);
    f.custom_type = Some("DATE".to_string());
    let fs = vec![field("id", SemType::Int, true, false), f];
    let attr = EntityAttr { table_name: None };
    let e = EntityBuilder::new().build("Person", attr, fs, vec![], vec![], vec![]).ok().unwrap();
    let m = e.create_migration();
    match &m.columns[1].db_type {
        DbType::Custom(t) => assert_eq!(t, "DATE"),
        _ => panic!("override lost"),
    }
    assert_eq!(m.to_sql(), "CREATE TABLE \"person\" (\"id\" INTEGER NOT NULL, \"born\" DATE NOT NULL);");
}

#[test]
fn migration_sql_from_barrel() {
    assert_eq!(
        table("posts").to_sql(),
        "CREATE TABLE \"posts\" (\"id\" INTEGER NOT NULL, \"title\" TEXT NOT NULL);"
    );
}

#[test]
fn units_are_versioned_by_position() {
    let ms = vec![table("posts"), table("tags")];
    let us = to_units(&ms).ok().unwrap();
    assert_eq!(us.len(), 2);
    assert_eq!(us[0].version, 0);
    assert_eq!(us[1].version, 1);
    assert_eq!(us[0].name, "posts");
    assert_eq!(us[1].file_name, "V1__tags.rs");
    let expected = refinery::Migration::unapplied("V1__tags.rs", &us[1].sql).unwrap().checksum();
    assert_eq!(us[1].checksum, expected);
    assert_ne!(us[0].checksum, us[1].checksum);
}

#[test]
fn invalid_name_is_refused() {
    let ms = vec![table("")];
    assert!(to_units(&ms).is_err());
}

fn run(history: &mut Vec<HistoryEntry>, us: &Vec<MigrationUnit>) -> Vec<Outcome> {
    let outcomes = plan(history, us);
    for (u, o) in us.iter().zip(outcomes.iter()) {
        if *o == Outcome::Apply {
            record_applied(history, u);
        }
    }
    outcomes
}

#[test]
fn second_run_skips_everything() {
    let us = to_units(&vec![table("posts"), table("tags")]).ok().unwrap();
    let mut history = Vec::new();
    assert_eq!(run(&mut history, &us), vec![Outcome::Apply, Outcome::Apply]);
    assert_eq!(history.len(), 2);
    assert_eq!(run(&mut history, &us), vec![Outcome::Skip, Outcome::Skip]);
    assert_eq!(history.len(), 2);
}

#[test]
fn changed_checksum_diverges_others_apply() {
    let mut history = vec![HistoryEntry { version: 0, name: "posts".to_string(), checksum: 1 }];
    let us = to_units(&vec![table("posts"), table("tags")]).ok().unwrap();
    assert_eq!(run(&mut history, &us), vec![Outcome::Diverged, Outcome::Apply]);
    assert_eq!(history.len(), 2);
    assert_eq!(history[1].name, "tags");
}

#[test]
fn word_table_names_are_accepted() {
    let us = to_units(&vec![table("_tmp"), table("9lives")]).ok().unwrap();
    assert_eq!(us[0].file_name, "V0___tmp.rs");
    assert_eq!(us[1].file_name, "V1__9lives.rs");
    assert!(to_units(&vec![table("-x")]).is_err());
}
