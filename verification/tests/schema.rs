use typed_fdb::queries::TypedDatabase;
use typed_fdb::store::{Bucket, Store, Table};
use typed_fdb::typed::SchemaError;

fn plain_table(name: &str, columns: Vec<&str>) -> Table {
    Table {
        name: name.to_string(),
        columns: columns.into_iter().map(|c| c.to_string()).collect(),
        buckets: vec![Bucket { rows: vec![] }],
    }
}

fn store_with(names: &[&str]) -> Store {
    let mut tables: Vec<Table> = Vec::new();
    for n in names.iter() {
        match *n {
            "Missions" => tables.push(plain_table(n, vec!["id", "isMission", "missionIconID"])),
            "MissionTasks" => tables.push(plain_table(
                n,
                vec!["id", "locStatus", "taskType", "IconID", "uid", "localize"],
            )),
            _ => tables.push(plain_table(n, vec![])),
        }
    }
    Store { tables }
}

const ALL: [&str; 15] = [
    "BehaviorParameter",
    "BehaviorTemplate",
    "ComponentsRegistry",
    "DestructibleComponent",
    "Icons",
    "ItemSets",
    "ItemSetSkills",
    "LootTable",
    "Missions",
    "MissionTasks",
    "Objects",
    "ObjectSkills",
    "RebuildComponent",
    "RenderComponent",
    "SkillBehavior",
];

#[test]
fn construction_succeeds_on_complete_store() {
    let store = store_with(&ALL);
    assert!(TypedDatabase::new(&store).is_ok());
}

#[test]
fn missing_table_fails_and_names_it() {
    let names: Vec<&str> = ALL.iter().copied().filter(|n| *n != "Missions").collect();
    let store = store_with(&names);
    let err = match TypedDatabase::new(&store) {
        Err(e) => e,
        Ok(_) => panic!("expected a schema error"),
    };
    assert_eq!(
        err,
        SchemaError::MissingTable { table: "Missions".to_string() }
    );
}

#[test]
fn first_missing_table_is_reported() {
    // two tables absent: the error names the one construction meets first
    let names: Vec<&str> = ALL
        .iter()
        .copied()
        .filter(|n| *n != "Icons" && *n != "SkillBehavior")
        .collect();
    let store = store_with(&names);
    let err = match TypedDatabase::new(&store) {
        Err(e) => e,
        Ok(_) => panic!("expected a schema error"),
    };
    assert_eq!(err, SchemaError::MissingTable { table: "Icons".to_string() });
}

#[test]
fn missing_required_column_fails_and_names_it() {
    let mut store = store_with(&ALL);
    // strip the isMission column from the Missions table
    for t in store.tables.iter_mut() {
        if t.name == "Missions" {
            t.columns = vec!["id".to_string(), "missionIconID".to_string()];
        }
    }
    let err = match TypedDatabase::new(&store) {
        Err(e) => e,
        Ok(_) => panic!("expected a schema error"),
    };
    assert_eq!(
        err,
        SchemaError::MissingColumn {
            table: "Missions".to_string(),
            column: "isMission".to_string(),
        }
    );
}

#[test]
fn optional_column_may_be_absent() {
    // Icons has no required column at all; an empty schema passes
    let store = store_with(&ALL);
    assert!(TypedDatabase::new(&store).is_ok());
}

#[test]
fn extra_tables_are_tolerated() {
    let mut names: Vec<&str> = vec!["SomethingElse"];
    names.extend(ALL.iter().copied());
    let store = store_with(&names);
    assert!(TypedDatabase::new(&store).is_ok());
}
