use typed_fdb::queries::TypedDatabase;
use typed_fdb::store::{bucket_index, key_hash, Bucket, Field, Row, Store, Table};

fn row(fields: Vec<Field>) -> Row {
    Row { fields }
}

fn table1(name: &str, columns: Vec<&str>, rows: Vec<Row>) -> Table {
    Table {
        name: name.to_string(),
        columns: columns.into_iter().map(|c| c.to_string()).collect(),
        buckets: vec![Bucket { rows }],
    }
}

fn default_table(name: &str) -> Table {
    match name {
        "Missions" => table1(name, vec!["id", "isMission", "missionIconID"], vec![]),
        "MissionTasks" => table1(
            name,
            vec!["id", "locStatus", "taskType", "IconID", "uid", "localize"],
            vec![],
        ),
        _ => table1(name, vec![], vec![]),
    }
}

fn full_store(mut special: Vec<Table>) -> Store {
    let names = [
        "BehaviorParameter",
        "BehaviorTemplate",
        "ComponentsRegistry",
        "DestructibleComponent",
        "Icons",
        "ItemSets",
        "ItemSetSkills",
        "LootTable",
        "Missions",
        "MissionTasks",
        "Objects",
        "ObjectSkills",
        "RebuildComponent",
        "RenderComponent",
        "SkillBehavior",
    ];
    let mut tables: Vec<Table> = Vec::new();
    for n in names.iter() {
        if let Some(pos) = special.iter().position(|t| t.name == *n) {
            tables.push(special.remove(pos));
        } else {
            tables.push(default_table(n));
        }
    }
    Store { tables }
}

#[test]
fn bucket_choice_deterministic() {
    assert_eq!(key_hash(-1), u32::MAX);
    assert_eq!(key_hash(7), 7);
    assert_eq!(bucket_index(5, 7), 5);
    // congruent bit patterns modulo the bucket count land together
    assert_eq!(bucket_index(5, 7), bucket_index(12, 7));
    assert_eq!(bucket_index(-1, 10), (u32::MAX % 10) as usize);
}

#[test]
fn mission_default_true_when_absent() {
    let missions = table1(
        "Missions",
        vec!["id", "isMission", "missionIconID"],
        vec![
            row(vec![Field::Integer(5), Field::Nothing, Field::Integer(42)]),
            row(vec![Field::Integer(6), Field::Boolean(false), Field::Nothing]),
        ],
    );
    let store = full_store(vec![missions]);
    let db = TypedDatabase::new(&store).unwrap();
    let m = db.get_mission_data(5).unwrap();
    assert_eq!(m.mission_icon_id, Some(42));
    assert!(m.is_mission);
    let m6 = db.get_mission_data(6).unwrap();
    assert_eq!(m6.mission_icon_id, None);
    assert!(!m6.is_mission);
    assert!(db.get_mission_data(7).is_none());
}

#[test]
fn mission_resolver_tolerates_reordered_columns() {
    // same columns, different physical order and one extra column
    let missions = table1(
        "Missions",
        vec!["missionIconID", "extra", "id", "isMission"],
        vec![row(vec![
            Field::Integer(77),
            Field::Nothing,
            Field::Integer(5),
            Field::Boolean(true),
        ])],
    );
    let store = full_store(vec![missions]);
    let db = TypedDatabase::new(&store).unwrap();
    // the primary key is still physical column 0, so id 77 matches
    let m = db.get_mission_data(77).unwrap();
    assert_eq!(m.mission_icon_id, Some(77));
    assert!(m.is_mission);
}

#[test]
fn mission_tasks_all_matches_in_order() {
    let tasks = table1(
        "MissionTasks",
        vec!["id", "locStatus", "taskType", "IconID", "uid", "localize"],
        vec![
            row(vec![
                Field::Integer(7),
                Field::Integer(0),
                Field::Integer(1),
                Field::Integer(1),
                Field::Integer(100),
                Field::Boolean(true),
            ]),
            row(vec![
                Field::Integer(8),
                Field::Integer(0),
                Field::Integer(1),
                Field::Integer(9),
                Field::Integer(999),
                Field::Boolean(true),
            ]),
            row(vec![
                Field::Integer(7),
                Field::Integer(0),
                Field::Integer(2),
                Field::Nothing,
                Field::Integer(101),
                Field::Boolean(true),
            ]),
            row(vec![
                Field::Integer(7),
                Field::Integer(0),
                Field::Integer(3),
                Field::Integer(1),
                Field::Integer(100),
                Field::Boolean(true),
            ]),
        ],
    );
    let store = full_store(vec![tasks]);
    let db = TypedDatabase::new(&store).unwrap();
    let ts = db.get_mission_tasks(7);
    assert_eq!(ts.len(), 3);
    assert_eq!(ts[0].uid, 100);
    assert_eq!(ts[0].icon_id, Some(1));
    assert_eq!(ts[1].uid, 101);
    assert_eq!(ts[1].icon_id, None);
    // duplicates preserved, stored order kept
    assert_eq!(ts[2].uid, 100);
    assert!(db.get_mission_tasks(42).is_empty());
}

#[test]
fn components_last_match_wins() {
    let comp = table1(
        "ComponentsRegistry",
        vec![],
        vec![
            row(vec![Field::Integer(9), Field::Integer(2), Field::Integer(10)]),
            row(vec![Field::Integer(9), Field::Integer(5), Field::Integer(11)]),
            row(vec![Field::Integer(9), Field::Integer(2), Field::Integer(12)]),
        ],
    );
    let store = full_store(vec![comp]);
    let db = TypedDatabase::new(&store).unwrap();
    assert_eq!(db.get_components(9).render, Some(12));
    assert_eq!(db.get_components(1).render, None);
}

#[test]
fn components_last_row_overwrites_with_absent() {
    let comp = table1(
        "ComponentsRegistry",
        vec![],
        vec![
            row(vec![Field::Integer(13), Field::Integer(2), Field::Integer(99)]),
            row(vec![Field::Integer(13), Field::Integer(2), Field::Nothing]),
        ],
    );
    let store = full_store(vec![comp]);
    let db = TypedDatabase::new(&store).unwrap();
    assert_eq!(db.get_components(13).render, None);
}

#[test]
fn icon_path_first_match() {
    let icons = table1(
        "Icons",
        vec!["id", "IconPath"],
        vec![
            row(vec![Field::Integer(3), Field::Text("textures/a.dds".to_string())]),
            row(vec![Field::Integer(3), Field::Text("textures/b.dds".to_string())]),
            row(vec![Field::Integer(4), Field::Nothing]),
        ],
    );
    let store = full_store(vec![icons]);
    let db = TypedDatabase::new(&store).unwrap();
    assert_eq!(db.get_icon_path(3), Some("textures/a.dds".to_string()));
    assert_eq!(db.get_icon_path(4), None);
    assert_eq!(db.get_icon_path(99), None);
}

#[test]
fn icon_path_column_absent_yields_nothing() {
    let icons = table1(
        "Icons",
        vec!["id"],
        vec![row(vec![Field::Integer(3), Field::Text("x".to_string())])],
    );
    let store = full_store(vec![icons]);
    // IconPath is optional: construction succeeds without it
    let db = TypedDatabase::new(&store).unwrap();
    assert_eq!(db.get_icon_path(3), None);
}

#[test]
fn render_image_skips_non_text() {
    let rc = table1(
        "RenderComponent",
        vec![],
        vec![
            row(vec![Field::Integer(11), Field::Nothing, Field::Integer(5)]),
            row(vec![
                Field::Integer(11),
                Field::Nothing,
                Field::Text("icon.png".to_string()),
            ]),
        ],
    );
    let store = full_store(vec![rc]);
    let db = TypedDatabase::new(&store).unwrap();
    assert_eq!(db.get_render_image(11), Some("icon.png".to_string()));
    assert_eq!(db.get_render_image(12), None);
}

#[test]
fn object_name_desc_formats() {
    let mut fields = vec![Field::Nothing; 11];
    fields[0] = Field::Integer(5);
    fields[1] = Field::Text("Widget".to_string());
    fields[4] = Field::Text("A box.".to_string());
    fields[7] = Field::Text("Big Widget".to_string());
    fields[10] = Field::Text("debug only".to_string());
    let objects = table1("Objects", vec![], vec![row(fields)]);
    let store = full_store(vec![objects]);
    let db = TypedDatabase::new(&store).unwrap();
    let (title, desc) = db.get_object_name_desc(5).unwrap();
    assert_eq!(title, "Big Widget (Widget) | Object #5");
    assert_eq!(desc, "A box. (debug only)");
    assert!(db.get_object_name_desc(6).is_none());
}

#[test]
fn object_name_desc_bare_row() {
    // a short row: every named field is absent
    let objects = table1("Objects", vec![], vec![row(vec![Field::Integer(9)])]);
    let store = full_store(vec![objects]);
    let db = TypedDatabase::new(&store).unwrap();
    let (title, desc) = db.get_object_name_desc(9).unwrap();
    assert_eq!(title, "Object #9");
    assert_eq!(desc, "");
}

#[test]
fn negative_key_lookup_uses_bit_pattern() {
    // the signed key -1 reinterprets to u32::MAX; with ten buckets its
    // row belongs in bucket u32::MAX % 10
    let mut buckets: Vec<Bucket> = (0..10).map(|_| Bucket { rows: vec![] }).collect();
    let idx = (u32::MAX % 10) as usize;
    buckets[idx].rows.push(row(vec![
        Field::Integer(-1),
        Field::Boolean(true),
        Field::Integer(3),
    ]));
    let missions = Table {
        name: "Missions".to_string(),
        columns: vec!["id".to_string(), "isMission".to_string(), "missionIconID".to_string()],
        buckets,
    };
    let store = full_store(vec![missions]);
    let db = TypedDatabase::new(&store).unwrap();
    let m = db.get_mission_data(-1).unwrap();
    assert_eq!(m.mission_icon_id, Some(3));
}

#[test]
fn lookup_is_bucket_scoped() {
    // seven buckets: the row for id 9 lives in bucket 9 % 7 == 2; a row
    // misfiled in another bucket is invisible to the point lookup
    let mut buckets: Vec<Bucket> = (0..7).map(|_| Bucket { rows: vec![] }).collect();
    buckets[2].rows.push(row(vec![
        Field::Integer(9),
        Field::Boolean(true),
        Field::Integer(1),
    ]));
    buckets[3].rows.push(row(vec![
        Field::Integer(16),
        Field::Boolean(true),
        Field::Integer(2),
    ]));
    let missions = Table {
        name: "Missions".to_string(),
        columns: vec!["id".to_string(), "isMission".to_string(), "missionIconID".to_string()],
        buckets,
    };
    let store = full_store(vec![missions]);
    let db = TypedDatabase::new(&store).unwrap();
    assert!(db.get_mission_data(9).is_some());
    // 16 % 7 == 2, but its row sits in bucket 3
    assert!(db.get_mission_data(16).is_none());
}
