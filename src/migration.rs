//! The migration record and the registry of all migrations known to this
//! build.
use vstd::prelude::*;

verus! {

/// Logical name of the local SQL store that the migrations are applied to.
pub const DATABASE_URL: &'static str = "sqlite:mydatabase.db";

/// Schema statement of the first migration: the `structure` table.
pub const CREATE_TABLE_STRUCTURE: &'static str = "CREATE TABLE IF NOT EXISTS structure (id INTEGER PRIMARY KEY AUTOINCREMENT, name TEXT NOT NULL);";

/// Schema statement of the second migration: the `territory` table.
pub const CREATE_TABLE_TERRITORY: &'static str = "CREATE TABLE IF NOT EXISTS territory (id INTEGER PRIMARY KEY AUTOINCREMENT, name TEXT NOT NULL);";

/// Direction of a migration. Only upgrades exist: there is no downgrade path.
#[derive(Clone, Copy, Debug, PartialEq, Eq, Structural)]
pub enum MigrationKind {
    Up,
}

/// One versioned, one-way schema change.
#[derive(Clone, Debug)]
pub struct Migration {
    /// Position in the application order; positive and unique in a registry.
    pub version: i64,
    /// Short label for people; no logic reads it.
    pub description: String,
    /// The schema statement executed against the store.
    pub sql: String,
    pub kind: MigrationKind,
}

/// Versions are positive and strictly increasing along the sequence, so they
/// are unique and give the order of application.
pub open spec fn well_ordered(ms: Seq<Migration>) -> bool {
    &&& forall|i: int| 0 <= i < ms.len() ==> #[trigger] ms[i].version > 0
    &&& forall|i: int, j: int| 0 <= i < j < ms.len() ==> ms[i].version < ms[j].version
}

/// The versions of a sequence of migrations, in the same order.
pub open spec fn versions(ms: Seq<Migration>) -> Seq<i64> {
    ms.map_values(|m: Migration| m.version)
}

/// The registry of this build: the `structure` table at version 1, then the
/// `territory` table at version 2, both upgrades.
pub open spec fn is_registry(ms: Seq<Migration>) -> bool {
    &&& ms.len() == 2
    &&& ms[0].version == 1
    &&& ms[0].description@ == "create_table_structure"@
    &&& ms[0].sql@ == CREATE_TABLE_STRUCTURE@
    &&& ms[0].kind == MigrationKind::Up
    &&& ms[1].version == 2
    &&& ms[1].description@ == "create_table_territory"@
    &&& ms[1].sql@ == CREATE_TABLE_TERRITORY@
    &&& ms[1].kind == MigrationKind::Up
}

/// The registry is well ordered, and its versions are 1 then 2.
pub proof fn lemma_registry_well_ordered(ms: Seq<Migration>)
    requires
        is_registry(ms),
    ensures
        well_ordered(ms),
        versions(ms) == seq![1i64, 2i64],
{
    assert(versions(ms) =~= seq![1i64, 2i64]);
}

/// Builds the ordered sequence of every migration that this build knows.
/// The same build always yields the same sequence.
pub fn load_migrations() -> (r: Vec<Migration>)
    ensures
        is_registry(r@),
        well_ordered(r@),
{
    let r = vec![
        Migration {
            version: 1,
            description: String::from_str("create_table_structure"),
            sql: String::from_str(CREATE_TABLE_STRUCTURE),
            kind: MigrationKind::Up,
        },
        Migration {
            version: 2,
            description: String::from_str("create_table_territory"),
            sql: String::from_str(CREATE_TABLE_TERRITORY),
            kind: MigrationKind::Up,
        },
    ];
    proof {
        lemma_registry_well_ordered(r@);
    }
    r
}

} // verus!
