//! The typed database and its derived domain queries: each one is the
//! hashed bucket lookup plus an explicit, separately named match policy
//! (first match, last match wins, or all matches) and per-field
//! formatting or aggregation rules.

use vstd::prelude::*;
use vstd::pervasive::unreached;
use crate::store::{
    field_or_nothing, first_match, first_where, lemma_first_where_prefix, match_pred, opt_boolean,
    opt_integer, opt_text, row_matches, rows_for_key, table_with_name, FieldV, Store, TableV,
};
use crate::text::{
    description_spec, format_description, format_title, opt_string_view, title_spec,
};
use crate::typed::{
    find_col, first_missing, opt_col, SchemaError, SchemaErrorV, TypedTable,
};

verus! {

/// The well-known columns of the icons table kind, in declaration order.
pub open spec fn icons_col_names() -> Seq<Seq<char>> {
    seq!["IconPath"@]
}

/// Required flags of the icons kind: the path column may be absent.
pub open spec fn icons_col_required() -> Seq<bool> {
    seq![false]
}

/// Position of the icon-path column among the icons kind's declared columns.
pub const ICONS_COL_ICON_PATH: usize = 0;

/// The well-known columns of the missions table kind, in declaration order.
pub open spec fn missions_col_names() -> Seq<Seq<char>> {
    seq!["id"@, "defined_type"@, "defined_subtype"@, "isMission"@, "UISortOrder"@, "missionIconID"@]
}

/// Required flags of the missions kind.
pub open spec fn missions_col_required() -> Seq<bool> {
    seq![true, false, false, true, false, true]
}

/// Position of the is-mission column among the missions kind's declared columns.
pub const MISSIONS_COL_IS_MISSION: usize = 3;

/// Position of the mission-icon-id column among the missions kind's declared columns.
pub const MISSIONS_COL_MISSION_ICON_ID: usize = 5;

/// The well-known columns of the mission-tasks table kind, in declaration order.
pub open spec fn mission_tasks_col_names() -> Seq<Seq<char>> {
    seq![
        "id"@,
        "locStatus"@,
        "taskType"@,
        "target"@,
        "targetGroup"@,
        "targetValue"@,
        "taskParam1"@,
        "largeTaskIcon"@,
        "IconID"@,
        "uid"@,
        "largeTaskIconID"@,
        "localize"@,
        "gate_version"@,
    ]
}

/// Required flags of the mission-tasks kind.
pub open spec fn mission_tasks_col_required() -> Seq<bool> {
    seq![true, true, true, false, false, false, false, false, true, true, false, true, false]
}

/// Position of the icon-id column among the mission-tasks kind's declared columns.
pub const MISSION_TASKS_COL_ICON_ID: usize = 8;

/// Position of the uid column among the mission-tasks kind's declared columns.
pub const MISSION_TASKS_COL_UID: usize = 9;

/// A table kind with no well-known columns: presence of the table is all
/// that construction checks for it.
pub open spec fn no_col_names() -> Seq<Seq<char>> {
    Seq::empty()
}

/// Required flags of the empty kind.
pub open spec fn no_col_required() -> Seq<bool> {
    Seq::empty()
}

/// Build the declared names and required flags of the icons kind.
pub fn icons_kind() -> (k: (Vec<String>, Vec<bool>))
    ensures
        k.0@.map_values(|s: String| s@) == icons_col_names(),
        k.1@ == icons_col_required(),
{
    let names: Vec<String> = vec!["IconPath".to_owned()];
    let required: Vec<bool> = vec![false];
    proof {
        assert(names@.map_values(|s: String| s@) =~= icons_col_names());
        assert(required@ =~= icons_col_required());
    }
    (names, required)
}

/// Build the declared names and required flags of the missions kind.
pub fn missions_kind() -> (k: (Vec<String>, Vec<bool>))
    ensures
        k.0@.map_values(|s: String| s@) == missions_col_names(),
        k.1@ == missions_col_required(),
{
    let names: Vec<String> = vec![
        "id".to_owned(),
        "defined_type".to_owned(),
        "defined_subtype".to_owned(),
        "isMission".to_owned(),
        "UISortOrder".to_owned(),
        "missionIconID".to_owned(),
    ];
    let required: Vec<bool> = vec![true, false, false, true, false, true];
    proof {
        assert(names@.map_values(|s: String| s@) =~= missions_col_names());
        assert(required@ =~= missions_col_required());
    }
    (names, required)
}

/// Build the declared names and required flags of the mission-tasks kind.
pub fn mission_tasks_kind() -> (k: (Vec<String>, Vec<bool>))
    ensures
        k.0@.map_values(|s: String| s@) == mission_tasks_col_names(),
        k.1@ == mission_tasks_col_required(),
{
    let names: Vec<String> = vec![
        "id".to_owned(),
        "locStatus".to_owned(),
        "taskType".to_owned(),
        "target".to_owned(),
        "targetGroup".to_owned(),
        "targetValue".to_owned(),
        "taskParam1".to_owned(),
        "largeTaskIcon".to_owned(),
        "IconID".to_owned(),
        "uid".to_owned(),
        "largeTaskIconID".to_owned(),
        "localize".to_owned(),
        "gate_version".to_owned(),
    ];
    let required: Vec<bool> = vec![
        true, true, true, false, false, false, false, false, true, true, false, true, false,
    ];
    proof {
        assert(names@.map_values(|s: String| s@) =~= mission_tasks_col_names());
        assert(required@ =~= mission_tasks_col_required());
    }
    (names, required)
}

/// Build the empty kind.
pub fn plain_kind() -> (k: (Vec<String>, Vec<bool>))
    ensures
        k.0@.map_values(|s: String| s@) == no_col_names(),
        k.1@ == no_col_required(),
{
    let names: Vec<String> = Vec::new();
    let required: Vec<bool> = Vec::new();
    proof {
        assert(names@.map_values(|s: String| s@) =~= no_col_names());
        assert(required@ =~= no_col_required());
    }
    (names, required)
}

/// Why binding the table named `name` with the given kind fails on this
/// store, if it does: the table is missing, or else its first required
/// column is missing from the table that was found.
pub open spec fn bind_failure(
    store: Seq<TableV>,
    name: Seq<char>,
    names: Seq<Seq<char>>,
    required: Seq<bool>,
) -> Option<SchemaErrorV> {
    match table_with_name(store, name) {
        None => Some(SchemaErrorV::MissingTable { table: name }),
        Some(t) => match first_missing(store[t].columns, names, required) {
            None => None,
            Some(j) => Some(SchemaErrorV::MissingColumn { table: name, column: names[j] }),
        },
    }
}

/// One bound table: it is the first table of the store so named, and its
/// kind's columns resolve against it.
pub open spec fn table_bound<'a>(
    store: Seq<TableV>,
    name: Seq<char>,
    names: Seq<Seq<char>>,
    required: Seq<bool>,
    tt: TypedTable<'a>,
) -> bool {
    &&& table_with_name(store, name) is Some
    &&& tt.table@ == store[table_with_name(store, name).unwrap()]
    &&& tt.resolves(names, required)
}

/// Look one required table up and bind its kind; the error identifies
/// the missing table, or the table and its first missing required column.
fn bind_table<'a>(
    store: &'a Store,
    name: &str,
    names: &Vec<String>,
    required: &Vec<bool>,
) -> (r: Result<TypedTable<'a>, SchemaError>)
    requires
        names@.len() == required@.len(),
    ensures
        ({
            let nv = names@.map_values(|s: String| s@);
            match r {
                Ok(tt) => {
                    &&& bind_failure(store@, name@, nv, required@) is None
                    &&& table_bound(store@, name@, nv, required@, tt)
                },
                Err(e) => Some(e@) == bind_failure(store@, name@, nv, required@),
            }
        }),
{
    let table = match store.by_name(name) {
        Some(t) => t,
        None => {
            return Err(SchemaError::MissingTable { table: name.to_owned() });
        },
    };
    match TypedTable::new(table, names, required) {
        Ok(tt) => Ok(tt),
        Err(e) => Err(e),
    }
}

/// The first schema failure a typed database construction meets on this
/// store, scanning the required tables in construction order.
pub open spec fn db_failure(store: Seq<TableV>) -> Option<SchemaErrorV> {
    if bind_failure(store, "BehaviorParameter"@, no_col_names(), no_col_required()) is Some {
        bind_failure(store, "BehaviorParameter"@, no_col_names(), no_col_required())
    } else if bind_failure(store, "BehaviorTemplate"@, no_col_names(), no_col_required()) is Some {
        bind_failure(store, "BehaviorTemplate"@, no_col_names(), no_col_required())
    } else if bind_failure(store, "ComponentsRegistry"@, no_col_names(), no_col_required()) is Some {
        bind_failure(store, "ComponentsRegistry"@, no_col_names(), no_col_required())
    } else if bind_failure(store, "DestructibleComponent"@, no_col_names(), no_col_required()) is Some {
        bind_failure(store, "DestructibleComponent"@, no_col_names(), no_col_required())
    } else if bind_failure(store, "Icons"@, icons_col_names(), icons_col_required()) is Some {
        bind_failure(store, "Icons"@, icons_col_names(), icons_col_required())
    } else if bind_failure(store, "ItemSets"@, no_col_names(), no_col_required()) is Some {
        bind_failure(store, "ItemSets"@, no_col_names(), no_col_required())
    } else if bind_failure(store, "ItemSetSkills"@, no_col_names(), no_col_required()) is Some {
        bind_failure(store, "ItemSetSkills"@, no_col_names(), no_col_required())
    } else if bind_failure(store, "LootTable"@, no_col_names(), no_col_required()) is Some {
        bind_failure(store, "LootTable"@, no_col_names(), no_col_required())
    } else if bind_failure(store, "Missions"@, missions_col_names(), missions_col_required()) is Some {
        bind_failure(store, "Missions"@, missions_col_names(), missions_col_required())
    } else if bind_failure(
        store,
        "MissionTasks"@,
        mission_tasks_col_names(),
        mission_tasks_col_required(),
    ) is Some {
        bind_failure(store, "MissionTasks"@, mission_tasks_col_names(), mission_tasks_col_required())
    } else if bind_failure(store, "Objects"@, no_col_names(), no_col_required()) is Some {
        bind_failure(store, "Objects"@, no_col_names(), no_col_required())
    } else if bind_failure(store, "ObjectSkills"@, no_col_names(), no_col_required()) is Some {
        bind_failure(store, "ObjectSkills"@, no_col_names(), no_col_required())
    } else if bind_failure(store, "RebuildComponent"@, no_col_names(), no_col_required()) is Some {
        bind_failure(store, "RebuildComponent"@, no_col_names(), no_col_required())
    } else if bind_failure(store, "RenderComponent"@, no_col_names(), no_col_required()) is Some {
        bind_failure(store, "RenderComponent"@, no_col_names(), no_col_required())
    } else if bind_failure(store, "SkillBehavior"@, no_col_names(), no_col_required()) is Some {
        bind_failure(store, "SkillBehavior"@, no_col_names(), no_col_required())
    } else {
        None
    }
}

/// A selection of relevant database tables, constructed once from an
/// opened store and read-only thereafter.
pub struct TypedDatabase<'db> {
    /// BehaviorParameter
    pub behavior_parameters: TypedTable<'db>,
    /// BehaviorTemplate
    pub behavior_templates: TypedTable<'db>,
    /// ComponentsRegistry
    pub comp_reg: TypedTable<'db>,
    /// DestructibleComponent
    pub destructible_component: TypedTable<'db>,
    /// Icons
    pub icons: TypedTable<'db>,
    /// ItemSets
    pub item_sets: TypedTable<'db>,
    /// ItemSetSkills
    pub item_set_skills: TypedTable<'db>,
    /// LootTable
    pub loot_table: TypedTable<'db>,
    /// Missions
    pub missions: TypedTable<'db>,
    /// MissionTasks
    pub mission_tasks: TypedTable<'db>,
    /// Objects
    pub objects: TypedTable<'db>,
    /// ObjectSkills
    pub object_skills: TypedTable<'db>,
    /// RebuildComponent
    pub rebuild_component: TypedTable<'db>,
    /// RenderComponent
    pub render_comp: TypedTable<'db>,
    /// SkillBehavior
    pub skills: TypedTable<'db>,
}

/// Data for one mission: the mission summary a point query yields.
#[derive(Debug, Clone, PartialEq, Eq)]
pub struct Mission {
    /// The mission's icon id, when one is stored.
    pub mission_icon_id: Option<i32>,
    /// Whether this is a mission (true) or an achievement (false);
    /// defaults to true when no value is stored.
    pub is_mission: bool,
}

/// One task of a mission.
#[derive(Debug, Clone, PartialEq, Eq)]
pub struct MissionTask {
    /// The task's icon id, when one is stored.
    pub icon_id: Option<i32>,
    /// The task's unique id.
    pub uid: i32,
}

/// The components found for one object template.
#[derive(Debug, Clone, PartialEq, Eq)]
pub struct Components {
    /// The render component id, when a component-type-2 row is stored.
    pub render: Option<i32>,
}

/// What the icon-path query yields: from the first row of the key's
/// bucket that matches `id`, the text of the resolved icon-path column;
/// nothing when the id is not found, the column is absent, or the value
/// is not textual.
pub open spec fn icon_path_q(t: TableV, id: i32) -> Option<Seq<char>> {
    match first_match(rows_for_key(t, id), id) {
        None => None,
        Some(row) => match find_col(t.columns, "IconPath"@) {
            None => None,
            Some(c) => opt_text(field_or_nothing(row, c)),
        },
    }
}

/// What the mission-summary query yields; `is_mission` defaults to true
/// when the matched row stores no boolean there.
pub open spec fn mission_data_q(t: TableV, id: i32) -> Option<Mission> {
    match first_match(rows_for_key(t, id), id) {
        None => None,
        Some(row) => Some(
            Mission {
                mission_icon_id: opt_integer(
                    field_or_nothing(row, find_col(t.columns, "missionIconID"@).unwrap()),
                ),
                is_mission: match opt_boolean(
                    field_or_nothing(row, find_col(t.columns, "isMission"@).unwrap()),
                ) {
                    Some(b) => b,
                    None => true,
                },
            },
        ),
    }
}

/// Default-true law: when the matched row stores no boolean in the
/// is-mission column, the mission summary reports `is_mission = true`.
pub proof fn lemma_mission_default_true(t: TableV, id: i32)
    requires
        first_match(rows_for_key(t, id), id) is Some,
        opt_boolean(
            field_or_nothing(
                first_match(rows_for_key(t, id), id).unwrap(),
                find_col(t.columns, "isMission"@).unwrap(),
            ),
        ) is None,
    ensures
        mission_data_q(t, id) is Some,
        mission_data_q(t, id).unwrap().is_mission,
{
}

/// What the mission-tasks query yields: one entry per matching row of
/// the bucket that stores an integer uid, in stored order, duplicates
/// included.
pub open spec fn mission_tasks_q(rows: Seq<Seq<FieldV>>, ci: int, cu: int, id: i32) -> Seq<
    MissionTask,
>
    decreases rows.len(),
{
    if rows.len() == 0 {
        Seq::empty()
    } else {
        let prefix = mission_tasks_q(rows.drop_last(), ci, cu, id);
        let row = rows.last();
        if row_matches(row, id) && opt_integer(field_or_nothing(row, cu)) is Some {
            prefix.push(
                MissionTask {
                    icon_id: opt_integer(field_or_nothing(row, ci)),
                    uid: opt_integer(field_or_nothing(row, cu)).unwrap(),
                },
            )
        } else {
            prefix
        }
    }
}

/// Order-preservation law: one further matching row with an integer uid
/// appends exactly one further task, after every earlier one; a row for
/// another key appends nothing. Duplicate ids are kept, one entry each.
pub proof fn lemma_mission_tasks_ordered(
    rows: Seq<Seq<FieldV>>,
    ci: int,
    cu: int,
    id: i32,
    row: Seq<FieldV>,
)
    ensures
        row_matches(row, id) && opt_integer(field_or_nothing(row, cu)) is Some
            ==> mission_tasks_q(rows.push(row), ci, cu, id) == mission_tasks_q(
            rows,
            ci,
            cu,
            id,
        ).push(
            MissionTask {
                icon_id: opt_integer(field_or_nothing(row, ci)),
                uid: opt_integer(field_or_nothing(row, cu)).unwrap(),
            },
        ),
        !(row_matches(row, id) && opt_integer(field_or_nothing(row, cu)) is Some)
            ==> mission_tasks_q(rows.push(row), ci, cu, id) == mission_tasks_q(rows, ci, cu, id),
{
    assert(rows.push(row).drop_last() =~= rows);
    assert(rows.push(row).last() == row);
}

/// What the object name/description query yields: from the first
/// matching row, the formatted title and description, read at fixed
/// relative positions (1: name, 4: description, 7: display name,
/// 10: internal notes) rather than through the column resolver. This is
/// a deliberately narrower contract than the rest of the system: it
/// assumes this one table's physical column layout.
pub open spec fn object_name_desc_q(t: TableV, id: i32) -> Option<(Seq<char>, Seq<char>)> {
    match first_match(rows_for_key(t, id), id) {
        None => None,
        Some(row) => Some(
            (
                title_spec(
                    opt_text(field_or_nothing(row, 1)),
                    opt_text(field_or_nothing(row, 7)),
                    id,
                ),
                description_spec(
                    opt_text(field_or_nothing(row, 4)),
                    opt_text(field_or_nothing(row, 10)),
                ),
            ),
        ),
    }
}

/// The predicate the render-image query scans with: the row matches the
/// id and its icon-asset field (fixed position 2) is textual.
pub open spec fn render_pred(id: i32) -> spec_fn(Seq<FieldV>) -> bool {
    |r: Seq<FieldV>| row_matches(r, id) && field_or_nothing(r, 2) is Text
}

/// What the render-image query yields: the icon asset of the first
/// matching row whose value decodes as text; a matching row with a
/// non-text value there is passed over, not an error.
pub open spec fn render_image_q(t: TableV, id: i32) -> Option<Seq<char>> {
    match first_where(rows_for_key(t, id), render_pred(id)) {
        None => None,
        Some(row) => opt_text(field_or_nothing(row, 2)),
    }
}

/// What the components query yields for the render component: the
/// component id (fixed position 2) of the last matching row whose
/// component type (fixed position 1) is the integer 2; each later such
/// row overwrites the earlier ones.
pub open spec fn render_component_q(rows: Seq<Seq<FieldV>>, id: i32) -> Option<i32>
    decreases rows.len(),
{
    if rows.len() == 0 {
        None
    } else if row_matches(rows.last(), id) && field_or_nothing(rows.last(), 1) == FieldV::Integer(2)
     {
        opt_integer(field_or_nothing(rows.last(), 2))
    } else {
        render_component_q(rows.drop_last(), id)
    }
}

/// Last-match-wins law: a further matching component-type-2 row
/// overwrites whatever any earlier rows yielded, whole bucket scanned.
pub proof fn lemma_components_last_wins(rows: Seq<Seq<FieldV>>, id: i32, row: Seq<FieldV>)
    requires
        row_matches(row, id),
        field_or_nothing(row, 1) == FieldV::Integer(2),
    ensures
        render_component_q(rows.push(row), id) == opt_integer(field_or_nothing(row, 2)),
{
    assert(rows.push(row).last() == row);
}

impl<'db> TypedDatabase<'db> {
    /// The schema knowledge construction established for the tables the
    /// derived queries read.
    pub open spec fn wf(self) -> bool {
        &&& self.icons.resolves(icons_col_names(), icons_col_required())
        &&& self.missions.resolves(missions_col_names(), missions_col_required())
        &&& self.mission_tasks.resolves(mission_tasks_col_names(), mission_tasks_col_required())
    }

    /// Every table field holds the store's table of its name, with its
    /// kind's columns resolved.
    pub open spec fn bound(self, store: Seq<TableV>) -> bool {
        &&& table_bound(store, "BehaviorParameter"@, no_col_names(), no_col_required(), self.behavior_parameters)
        &&& table_bound(store, "BehaviorTemplate"@, no_col_names(), no_col_required(), self.behavior_templates)
        &&& table_bound(store, "ComponentsRegistry"@, no_col_names(), no_col_required(), self.comp_reg)
        &&& table_bound(store, "DestructibleComponent"@, no_col_names(), no_col_required(), self.destructible_component)
        &&& table_bound(store, "Icons"@, icons_col_names(), icons_col_required(), self.icons)
        &&& table_bound(store, "ItemSets"@, no_col_names(), no_col_required(), self.item_sets)
        &&& table_bound(store, "ItemSetSkills"@, no_col_names(), no_col_required(), self.item_set_skills)
        &&& table_bound(store, "LootTable"@, no_col_names(), no_col_required(), self.loot_table)
        &&& table_bound(store, "Missions"@, missions_col_names(), missions_col_required(), self.missions)
        &&& table_bound(store, "MissionTasks"@, mission_tasks_col_names(), mission_tasks_col_required(), self.mission_tasks)
        &&& table_bound(store, "Objects"@, no_col_names(), no_col_required(), self.objects)
        &&& table_bound(store, "ObjectSkills"@, no_col_names(), no_col_required(), self.object_skills)
        &&& table_bound(store, "RebuildComponent"@, no_col_names(), no_col_required(), self.rebuild_component)
        &&& table_bound(store, "RenderComponent"@, no_col_names(), no_col_required(), self.render_comp)
        &&& table_bound(store, "SkillBehavior"@, no_col_names(), no_col_required(), self.skills)
    }

    /// Construct a typed database from an opened store: look every
    /// required table up and resolve each kind's well-known columns. On
    /// the first missing required table or column, construction aborts
    /// with the schema error naming it; no partially usable database is
    /// returned.
    pub fn new(store: &'db Store) -> (r: Result<TypedDatabase<'db>, SchemaError>)
        ensures
            match r {
                Ok(db) => {
                    &&& db_failure(store@) is None
                    &&& db.bound(store@)
                    &&& db.wf()
                },
                Err(e) => Some(e@) == db_failure(store@),
            },
    {
        let (pn, pr) = plain_kind();
        let behavior_parameters = match bind_table(store, "BehaviorParameter", &pn, &pr) {
            Ok(t) => t,
            Err(e) => {
                return Err(e);
            },
        };
        let behavior_templates = match bind_table(store, "BehaviorTemplate", &pn, &pr) {
            Ok(t) => t,
            Err(e) => {
                return Err(e);
            },
        };
        let comp_reg = match bind_table(store, "ComponentsRegistry", &pn, &pr) {
            Ok(t) => t,
            Err(e) => {
                return Err(e);
            },
        };
        let destructible_component = match bind_table(store, "DestructibleComponent", &pn, &pr) {
            Ok(t) => t,
            Err(e) => {
                return Err(e);
            },
        };
        let (inames, ireq) = icons_kind();
        let icons = match bind_table(store, "Icons", &inames, &ireq) {
            Ok(t) => t,
            Err(e) => {
                return Err(e);
            },
        };
        let item_sets = match bind_table(store, "ItemSets", &pn, &pr) {
            Ok(t) => t,
            Err(e) => {
                return Err(e);
            },
        };
        let item_set_skills = match bind_table(store, "ItemSetSkills", &pn, &pr) {
            Ok(t) => t,
            Err(e) => {
                return Err(e);
            },
        };
        let loot_table = match bind_table(store, "LootTable", &pn, &pr) {
            Ok(t) => t,
            Err(e) => {
                return Err(e);
            },
        };
        let (mnames, mreq) = missions_kind();
        let missions = match bind_table(store, "Missions", &mnames, &mreq) {
            Ok(t) => t,
            Err(e) => {
                return Err(e);
            },
        };
        let (tnames, treq) = mission_tasks_kind();
        let mission_tasks = match bind_table(store, "MissionTasks", &tnames, &treq) {
            Ok(t) => t,
            Err(e) => {
                return Err(e);
            },
        };
        let objects = match bind_table(store, "Objects", &pn, &pr) {
            Ok(t) => t,
            Err(e) => {
                return Err(e);
            },
        };
        let object_skills = match bind_table(store, "ObjectSkills", &pn, &pr) {
            Ok(t) => t,
            Err(e) => {
                return Err(e);
            },
        };
        let rebuild_component = match bind_table(store, "RebuildComponent", &pn, &pr) {
            Ok(t) => t,
            Err(e) => {
                return Err(e);
            },
        };
        let render_comp = match bind_table(store, "RenderComponent", &pn, &pr) {
            Ok(t) => t,
            Err(e) => {
                return Err(e);
            },
        };
        let skills = match bind_table(store, "SkillBehavior", &pn, &pr) {
            Ok(t) => t,
            Err(e) => {
                return Err(e);
            },
        };
        Ok(
            TypedDatabase {
                behavior_parameters,
                behavior_templates,
                comp_reg,
                destructible_component,
                icons,
                item_sets,
                item_set_skills,
                loot_table,
                missions,
                mission_tasks,
                objects,
                object_skills,
                rebuild_component,
                render_comp,
                skills,
            },
        )
    }

    /// Get the icon path stored for an icon id: first match wins.
    pub fn get_icon_path(&self, id: i32) -> (r: Option<String>)
        requires
            self.wf(),
        ensures
            match r {
                Some(s) => icon_path_q(self.icons.table@, id) == Some(s@),
                None => icon_path_q(self.icons.table@, id) is None,
            },
    {
        let ghost tv = self.icons.table@;
        let col = self.icons.get_col(ICONS_COL_ICON_PATH);
        proof {
            assert(icons_col_names()[ICONS_COL_ICON_PATH as int] == "IconPath"@);
            assert(opt_col(col) == find_col(tv.columns, "IconPath"@));
        }
        let bucket = match self.icons.table.bucket_for_key(id) {
            Some(b) => b,
            None => {
                return None;
            },
        };
        let ghost bv = bucket@;
        let n = bucket.rows.len();
        for i in 0..n
            invariant
                n == bucket.rows.len(),
                bv == bucket@,
                bv == rows_for_key(tv, id),
                tv == self.icons.table@,
                opt_col(col) == find_col(tv.columns, "IconPath"@),
                first_match(bv.take(i as int), id) is None,
        {
            let row = &bucket.rows[i];
            proof {
                assert(bv.take(i + 1).drop_last() =~= bv.take(i as int));
                assert(bv.take(i + 1).last() == bv[i as int]);
                assert(row@ == bv[i as int]);
            }
            if row.key_matches(id) {
                proof {
                    assert(match_pred(id)(bv[i as int]));
                    assert(first_match(bv.take(i + 1), id) == Some(bv[i as int]));
                    lemma_first_where_prefix(bv, match_pred(id), i + 1);
                }
                return match col {
                    Some(c) => match row.text_at(c) {
                        Some(s) => Some(s.clone()),
                        None => None,
                    },
                    None => None,
                };
            }
            proof {
                assert(!match_pred(id)(bv[i as int]));
            }
        }
        proof {
            assert(bv.take(n as int) =~= bv);
        }
        None
    }

    /// Get the mission summary for a mission id: first match wins, and
    /// `is_mission` defaults to true when no boolean is stored.
    pub fn get_mission_data(&self, id: i32) -> (r: Option<Mission>)
        requires
            self.wf(),
        ensures
            r == mission_data_q(self.missions.table@, id),
    {
        let ghost tv = self.missions.table@;
        let col_icon = match self.missions.get_col(MISSIONS_COL_MISSION_ICON_ID) {
            Some(c) => c,
            None => unreached(),
        };
        let col_is = match self.missions.get_col(MISSIONS_COL_IS_MISSION) {
            Some(c) => c,
            None => unreached(),
        };
        proof {
            assert(missions_col_names()[MISSIONS_COL_MISSION_ICON_ID as int] == "missionIconID"@);
            assert(missions_col_names()[MISSIONS_COL_IS_MISSION as int] == "isMission"@);
            assert(Some(col_icon as int) == find_col(tv.columns, "missionIconID"@));
            assert(Some(col_is as int) == find_col(tv.columns, "isMission"@));
        }
        let bucket = match self.missions.table.bucket_for_key(id) {
            Some(b) => b,
            None => {
                return None;
            },
        };
        let ghost bv = bucket@;
        let n = bucket.rows.len();
        for i in 0..n
            invariant
                n == bucket.rows.len(),
                bv == bucket@,
                bv == rows_for_key(tv, id),
                tv == self.missions.table@,
                Some(col_icon as int) == find_col(tv.columns, "missionIconID"@),
                Some(col_is as int) == find_col(tv.columns, "isMission"@),
                first_match(bv.take(i as int), id) is None,
        {
            let row = &bucket.rows[i];
            proof {
                assert(bv.take(i + 1).drop_last() =~= bv.take(i as int));
                assert(bv.take(i + 1).last() == bv[i as int]);
                assert(row@ == bv[i as int]);
            }
            if row.key_matches(id) {
                proof {
                    assert(match_pred(id)(bv[i as int]));
                    assert(first_match(bv.take(i + 1), id) == Some(bv[i as int]));
                    lemma_first_where_prefix(bv, match_pred(id), i + 1);
                }
                let mission_icon_id = row.integer_at(col_icon);
                let is_mission = match row.boolean_at(col_is) {
                    Some(b) => b,
                    None => true,
                };
                return Some(Mission { mission_icon_id, is_mission });
            }
            proof {
                assert(!match_pred(id)(bv[i as int]));
            }
        }
        proof {
            assert(bv.take(n as int) =~= bv);
        }
        None
    }

    /// Get the tasks of a mission id: all matches, in bucket scan order,
    /// duplicates included.
    pub fn get_mission_tasks(&self, id: i32) -> (r: Vec<MissionTask>)
        requires
            self.wf(),
        ensures
            ({
                let ci = find_col(self.mission_tasks.table@.columns, "IconID"@).unwrap();
                let cu = find_col(self.mission_tasks.table@.columns, "uid"@).unwrap();
                r@ == mission_tasks_q(rows_for_key(self.mission_tasks.table@, id), ci, cu, id)
            }),
    {
        let ghost tv = self.mission_tasks.table@;
        let col_icon = match self.mission_tasks.get_col(MISSION_TASKS_COL_ICON_ID) {
            Some(c) => c,
            None => unreached(),
        };
        let col_uid = match self.mission_tasks.get_col(MISSION_TASKS_COL_UID) {
            Some(c) => c,
            None => unreached(),
        };
        proof {
            assert(mission_tasks_col_names()[MISSION_TASKS_COL_ICON_ID as int] == "IconID"@);
            assert(mission_tasks_col_names()[MISSION_TASKS_COL_UID as int] == "uid"@);
            assert(Some(col_icon as int) == find_col(tv.columns, "IconID"@));
            assert(Some(col_uid as int) == find_col(tv.columns, "uid"@));
        }
        let mut tasks: Vec<MissionTask> = Vec::new();
        let bucket = match self.mission_tasks.table.bucket_for_key(id) {
            Some(b) => b,
            None => {
                return tasks;
            },
        };
        let ghost bv = bucket@;
        let n = bucket.rows.len();
        for i in 0..n
            invariant
                n == bucket.rows.len(),
                bv == bucket@,
                bv == rows_for_key(tv, id),
                tv == self.mission_tasks.table@,
                tasks@ == mission_tasks_q(bv.take(i as int), col_icon as int, col_uid as int, id),
        {
            let row = &bucket.rows[i];
            proof {
                assert(bv.take(i + 1).drop_last() =~= bv.take(i as int));
                assert(bv.take(i + 1).last() == bv[i as int]);
                assert(row@ == bv[i as int]);
            }
            if row.key_matches(id) {
                let icon_id = row.integer_at(col_icon);
                match row.integer_at(col_uid) {
                    Some(uid) => {
                        tasks.push(MissionTask { icon_id, uid });
                    },
                    None => {},
                }
            }
        }
        proof {
            assert(bv.take(n as int) =~= bv);
        }
        tasks
    }

    /// Get the formatted title and description of an object id: first
    /// match wins; fields are read at fixed relative positions.
    pub fn get_object_name_desc(&self, id: i32) -> (r: Option<(String, String)>)
        ensures
            match r {
                Some(p) => object_name_desc_q(self.objects.table@, id) == Some((p.0@, p.1@)),
                None => object_name_desc_q(self.objects.table@, id) is None,
            },
    {
        let ghost tv = self.objects.table@;
        let bucket = match self.objects.table.bucket_for_key(id) {
            Some(b) => b,
            None => {
                return None;
            },
        };
        let ghost bv = bucket@;
        let n = bucket.rows.len();
        for i in 0..n
            invariant
                n == bucket.rows.len(),
                bv == bucket@,
                bv == rows_for_key(tv, id),
                tv == self.objects.table@,
                first_match(bv.take(i as int), id) is None,
        {
            let row = &bucket.rows[i];
            proof {
                assert(bv.take(i + 1).drop_last() =~= bv.take(i as int));
                assert(bv.take(i + 1).last() == bv[i as int]);
                assert(row@ == bv[i as int]);
            }
            if row.key_matches(id) {
                proof {
                    assert(match_pred(id)(bv[i as int]));
                    assert(first_match(bv.take(i + 1), id) == Some(bv[i as int]));
                    lemma_first_where_prefix(bv, match_pred(id), i + 1);
                }
                let name = row.text_at(1);
                let display_name = row.text_at(7);
                let description = row.text_at(4);
                let internal_notes = row.text_at(10);
                let title = format_title(name, display_name, id);
                let desc = format_description(description, internal_notes);
                proof {
                    assert(opt_string_view(name) == opt_text(field_or_nothing(bv[i as int], 1)));
                    assert(opt_string_view(display_name) == opt_text(
                        field_or_nothing(bv[i as int], 7),
                    ));
                    assert(opt_string_view(description) == opt_text(
                        field_or_nothing(bv[i as int], 4),
                    ));
                    assert(opt_string_view(internal_notes) == opt_text(
                        field_or_nothing(bv[i as int], 10),
                    ));
                }
                return Some((title, desc));
            }
            proof {
                assert(!match_pred(id)(bv[i as int]));
            }
        }
        proof {
            assert(bv.take(n as int) =~= bv);
        }
        None
    }

    /// Get the icon asset of a render component id: first match whose
    /// value decodes as text; a non-text value there is passed over.
    pub fn get_render_image(&self, id: i32) -> (r: Option<String>)
        ensures
            match r {
                Some(s) => render_image_q(self.render_comp.table@, id) == Some(s@),
                None => render_image_q(self.render_comp.table@, id) is None,
            },
    {
        let ghost tv = self.render_comp.table@;
        let ghost pred = render_pred(id);
        let bucket = match self.render_comp.table.bucket_for_key(id) {
            Some(b) => b,
            None => {
                return None;
            },
        };
        let ghost bv = bucket@;
        let n = bucket.rows.len();
        for i in 0..n
            invariant
                n == bucket.rows.len(),
                bv == bucket@,
                bv == rows_for_key(tv, id),
                tv == self.render_comp.table@,
                pred == render_pred(id),
                first_where(bv.take(i as int), pred) is None,
        {
            let row = &bucket.rows[i];
            proof {
                assert(bv.take(i + 1).drop_last() =~= bv.take(i as int));
                assert(bv.take(i + 1).last() == bv[i as int]);
                assert(row@ == bv[i as int]);
            }
            if row.key_matches(id) {
                match row.text_at(2) {
                    Some(url) => {
                        proof {
                            assert(pred(bv[i as int]));
                            assert(first_where(bv.take(i + 1), pred) == Some(bv[i as int]));
                            lemma_first_where_prefix(bv, pred, i + 1);
                        }
                        return Some(url.clone());
                    },
                    None => {
                        proof {
                            assert(!pred(bv[i as int]));
                        }
                    },
                }
            } else {
                proof {
                    assert(!pred(bv[i as int]));
                }
            }
        }
        proof {
            assert(bv.take(n as int) =~= bv);
        }
        None
    }

    /// Get the components registered for an object template id: the last
    /// matching component-type-2 row wins, whole bucket scanned.
    pub fn get_components(&self, id: i32) -> (r: Components)
        ensures
            r == (Components {
                render: render_component_q(rows_for_key(self.comp_reg.table@, id), id),
            }),
    {
        let ghost tv = self.comp_reg.table@;
        let mut comp = Components { render: None };
        let bucket = match self.comp_reg.table.bucket_for_key(id) {
            Some(b) => b,
            None => {
                return comp;
            },
        };
        let ghost bv = bucket@;
        let n = bucket.rows.len();
        for i in 0..n
            invariant
                n == bucket.rows.len(),
                bv == bucket@,
                bv == rows_for_key(tv, id),
                tv == self.comp_reg.table@,
                comp.render == render_component_q(bv.take(i as int), id),
        {
            let row = &bucket.rows[i];
            proof {
                assert(bv.take(i + 1).drop_last() =~= bv.take(i as int));
                assert(bv.take(i + 1).last() == bv[i as int]);
                assert(row@ == bv[i as int]);
            }
            if row.key_matches(id) {
                let is_type_2 = match row.integer_at(1) {
                    Some(v) => v == 2,
                    None => false,
                };
                if is_type_2 {
                    proof {
                        assert(field_or_nothing(bv[i as int], 1) == FieldV::Integer(2));
                    }
                    comp = Components { render: row.integer_at(2) };
                }
            }
        }
        proof {
            assert(bv.take(n as int) =~= bv);
        }
        comp
    }
}

} // verus!
