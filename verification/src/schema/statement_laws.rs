//! The statements that the schema is made of, as the database is told them.
use crate::error::Error;
use crate::schema::columns::{base_path_statement, fill_parent_statement};
use crate::schema::ddl::create_all;
use crate::schema::integrity::{
    CountCheck, OverlayTables, namespace_checks, origin_checks, override_checks, plan,
    storage_checks, symlink_checks,
};
use crate::schema::{Migration, MigrationPlan, SchemaVersion, migration_plan};
use crate::sql::{SqlModel, SqlStatement, models};
use crate::text::texts;
use vstd::prelude::*;

verus! {

/// Whatever version is asked for, the same tables and indexes are made, each unless it is
/// there. A name is unique in its directory, a chunk in its file, and every inode has the
/// columns that the migrations add.
pub proof fn the_tables_are_made_unless_they_are_there(
    version: SchemaVersion,
    statements: Vec<&'static str>,
)
    requires
        call_ensures(create_all, (version,), statements),
    ensures
        statements@.len() == 17,
        statements@[0]@
            == "CREATE TABLE IF NOT EXISTS fs_config (key TEXT PRIMARY KEY, value TEXT NOT NULL)"@,
        statements@[1]@
            == "CREATE TABLE IF NOT EXISTS fs_inode (ino INTEGER PRIMARY KEY AUTOINCREMENT, mode INTEGER NOT NULL, nlink INTEGER NOT NULL DEFAULT 0, uid INTEGER NOT NULL DEFAULT 0, gid INTEGER NOT NULL DEFAULT 0, size INTEGER NOT NULL DEFAULT 0, atime INTEGER NOT NULL, mtime INTEGER NOT NULL, ctime INTEGER NOT NULL, rdev INTEGER NOT NULL DEFAULT 0, atime_nsec INTEGER NOT NULL DEFAULT 0, mtime_nsec INTEGER NOT NULL DEFAULT 0, ctime_nsec INTEGER NOT NULL DEFAULT 0, data_inline BLOB, storage_kind INTEGER NOT NULL DEFAULT 0)"@,
        statements@[2]@
            == "CREATE TABLE IF NOT EXISTS fs_dentry (id INTEGER PRIMARY KEY AUTOINCREMENT, name TEXT NOT NULL, parent_ino INTEGER NOT NULL, ino INTEGER NOT NULL, UNIQUE(parent_ino, name))"@,
        statements@[3]@
            == "CREATE INDEX IF NOT EXISTS idx_fs_dentry_parent ON fs_dentry(parent_ino, name)"@,
        statements@[4]@
            == "CREATE TABLE IF NOT EXISTS fs_data (ino INTEGER NOT NULL, chunk_index INTEGER NOT NULL, data BLOB NOT NULL, PRIMARY KEY (ino, chunk_index))"@,
        statements@[5]@
            == "CREATE TABLE IF NOT EXISTS fs_symlink (ino INTEGER PRIMARY KEY, target TEXT NOT NULL)"@,
        statements@[6]@
            == "CREATE TABLE IF NOT EXISTS fs_whiteout (path TEXT PRIMARY KEY, parent_path TEXT NOT NULL, created_at INTEGER NOT NULL)"@,
        statements@[7]@
            == "CREATE INDEX IF NOT EXISTS idx_fs_whiteout_parent ON fs_whiteout(parent_path)"@,
        statements@[8]@
            == "CREATE TABLE IF NOT EXISTS fs_overlay_config (key TEXT PRIMARY KEY, value TEXT NOT NULL)"@,
        statements@[9]@
            == "CREATE TABLE IF NOT EXISTS fs_origin (delta_ino INTEGER PRIMARY KEY, base_ino INTEGER NOT NULL)"@,
        statements@[10]@
            == "CREATE TABLE IF NOT EXISTS fs_partial_origin (delta_ino INTEGER PRIMARY KEY, base_ino INTEGER NOT NULL, base_path TEXT NOT NULL, base_size INTEGER NOT NULL, base_fingerprint_size INTEGER NOT NULL DEFAULT -1, base_mtime INTEGER NOT NULL DEFAULT 0, base_mtime_nsec INTEGER NOT NULL DEFAULT 0, base_ctime INTEGER NOT NULL DEFAULT 0, base_ctime_nsec INTEGER NOT NULL DEFAULT 0, created_at INTEGER NOT NULL)"@,
        statements@[11]@
            == "CREATE TABLE IF NOT EXISTS fs_chunk_override (delta_ino INTEGER NOT NULL, chunk_index INTEGER NOT NULL, PRIMARY KEY (delta_ino, chunk_index))"@,
        statements@[12]@
            == "CREATE TABLE IF NOT EXISTS kv_store (key TEXT PRIMARY KEY, value TEXT NOT NULL, created_at INTEGER DEFAULT (unixepoch()), updated_at INTEGER DEFAULT (unixepoch()))"@,
        statements@[13]@
            == "CREATE INDEX IF NOT EXISTS idx_kv_store_created_at ON kv_store(created_at)"@,
        statements@[14]@
            == "CREATE TABLE IF NOT EXISTS tool_calls (id INTEGER PRIMARY KEY AUTOINCREMENT, name TEXT NOT NULL, parameters TEXT, result TEXT, error TEXT, status TEXT NOT NULL DEFAULT 'pending', started_at INTEGER NOT NULL, completed_at INTEGER, duration_ms INTEGER)"@,
        statements@[15]@
            == "CREATE INDEX IF NOT EXISTS idx_tool_calls_name ON tool_calls(name)"@,
        statements@[16]@
            == "CREATE INDEX IF NOT EXISTS idx_tool_calls_started_at ON tool_calls(started_at)"@,
{
    assert(texts(statements@).len() == statements@.len());
    assert(texts(statements@)[0] == statements@[0]@);
    assert(texts(statements@)[1] == statements@[1]@);
    assert(texts(statements@)[2] == statements@[2]@);
    assert(texts(statements@)[3] == statements@[3]@);
    assert(texts(statements@)[4] == statements@[4]@);
    assert(texts(statements@)[5] == statements@[5]@);
    assert(texts(statements@)[6] == statements@[6]@);
    assert(texts(statements@)[7] == statements@[7]@);
    assert(texts(statements@)[8] == statements@[8]@);
    assert(texts(statements@)[9] == statements@[9]@);
    assert(texts(statements@)[10] == statements@[10]@);
    assert(texts(statements@)[11] == statements@[11]@);
    assert(texts(statements@)[12] == statements@[12]@);
    assert(texts(statements@)[13] == statements@[13]@);
    assert(texts(statements@)[14] == statements@[14]@);
    assert(texts(statements@)[15] == statements@[15]@);
    assert(texts(statements@)[16] == statements@[16]@);
}

/// Contents are stored in one way: in the row or in chunks, only of regular files, and with
/// the size that the row tells.
pub proof fn contents_are_checked_by_how_they_are_stored(
    chunk_size: Option<i64>,
    checks: Vec<CountCheck>,
)
    requires
        call_ensures(storage_checks, (chunk_size,), checks),
    ensures
        checks@[0].sql@
            == "SELECT COUNT(*) FROM fs_inode WHERE storage_kind NOT IN (0, 1)"@,
        checks@[1].sql@
            == "SELECT COUNT(*) FROM fs_inode i WHERE i.storage_kind = 1 AND EXISTS (SELECT 1 FROM fs_data d WHERE d.ino = i.ino)"@,
        checks@[2].sql@
            == "SELECT COUNT(*) FROM fs_inode WHERE storage_kind = 0 AND data_inline IS NOT NULL"@,
        checks@[3].sql@
            == "SELECT COUNT(*) FROM fs_inode WHERE storage_kind = 1 AND (data_inline IS NULL OR COALESCE(length(data_inline), 0) != size)"@,
        checks@[4].sql@
            == "SELECT COUNT(*) FROM fs_inode WHERE storage_kind = 1 AND (mode & 61440) != 32768"@,
        checks@[5].sql@
            == "SELECT COUNT(*) FROM fs_inode WHERE (mode & 61440) != 32768 AND data_inline IS NOT NULL"@,
        checks@[6].sql@
            == "SELECT COUNT(*) FROM fs_data d LEFT JOIN fs_inode i ON i.ino = d.ino WHERE i.ino IS NULL"@,
        checks@[7].sql@
            == "SELECT COUNT(*) FROM fs_data WHERE chunk_index < 0"@,
        checks@.last().sql@
            == "SELECT COUNT(*) FROM fs_data d JOIN fs_inode i ON i.ino = d.ino WHERE (i.mode & 61440) != 32768"@,
{
    assert(plan(checks@).len() == checks@.len());
    assert(plan(checks@)[0] == checks@[0]@);
    assert(plan(checks@)[1] == checks@[1]@);
    assert(plan(checks@)[2] == checks@[2]@);
    assert(plan(checks@)[3] == checks@[3]@);
    assert(plan(checks@)[4] == checks@[4]@);
    assert(plan(checks@)[5] == checks@[5]@);
    assert(plan(checks@)[6] == checks@[6]@);
    assert(plan(checks@)[7] == checks@[7]@);
    assert(plan(checks@)[checks@.len() - 1] == checks@.last()@);
}

/// Every name is in a directory and leads to an inode, every inode but the root has a name,
/// and counts of links are counts of names. Symbolic links have targets, and nothing else has.
pub proof fn the_tree_is_checked_name_by_name(tree: Vec<CountCheck>, links: Vec<CountCheck>)
    requires
        call_ensures(namespace_checks, (), tree),
        call_ensures(symlink_checks, (), links),
    ensures
        tree@[0].sql@
            == "SELECT COUNT(*) FROM fs_inode WHERE ino = 1 AND (mode & 61440) = 16384"@,
        tree@[1].sql@
            == "SELECT COUNT(*) FROM fs_dentry d LEFT JOIN fs_inode p ON p.ino = d.parent_ino WHERE p.ino IS NULL"@,
        tree@[2].sql@
            == "SELECT COUNT(*) FROM fs_dentry d JOIN fs_inode p ON p.ino = d.parent_ino WHERE (p.mode & 61440) != 16384"@,
        tree@[3].sql@
            == "SELECT COUNT(*) FROM fs_dentry d LEFT JOIN fs_inode i ON i.ino = d.ino WHERE i.ino IS NULL"@,
        tree@[4].sql@
            == "SELECT COUNT(*) FROM fs_inode i WHERE i.ino != 1 AND i.nlink != 0 AND NOT EXISTS (SELECT 1 FROM fs_dentry d WHERE d.ino = i.ino)"@,
        tree@[5].sql@
            == "SELECT COUNT(*) FROM fs_dentry WHERE name = '' OR name = '.' OR name = '..' OR instr(name, '/') > 0"@,
        tree@[6].sql@
            == "SELECT COUNT(*) FROM fs_inode i WHERE (i.mode & 61440) != 16384 AND i.nlink != (SELECT COUNT(*) FROM fs_dentry d WHERE d.ino = i.ino)"@,
        tree@[7].sql@
            == "SELECT COUNT(*) FROM fs_inode WHERE (mode & 61440) = 16384 AND nlink < 1"@,
        links@[0].sql@
            == "SELECT COUNT(*) FROM fs_symlink s LEFT JOIN fs_inode i ON i.ino = s.ino WHERE i.ino IS NULL OR (i.mode & 61440) != 40960"@,
        links@[1].sql@
            == "SELECT COUNT(*) FROM fs_inode i WHERE (i.mode & 61440) = 40960 AND NOT EXISTS (SELECT 1 FROM fs_symlink s WHERE s.ino = i.ino)"@,
{
    assert(plan(tree@).len() == tree@.len());
    assert(plan(links@).len() == links@.len());
    assert(plan(tree@)[0] == tree@[0]@);
    assert(plan(tree@)[1] == tree@[1]@);
    assert(plan(tree@)[2] == tree@[2]@);
    assert(plan(tree@)[3] == tree@[3]@);
    assert(plan(tree@)[4] == tree@[4]@);
    assert(plan(tree@)[5] == tree@[5]@);
    assert(plan(tree@)[6] == tree@[6]@);
    assert(plan(tree@)[7] == tree@[7]@);
    assert(plan(links@)[0] == links@[0]@);
    assert(plan(links@)[1] == links@[1]@);
}

/// What the overlay keeps of a delta inode is of one that is there, and chunks are overridden
/// only of files that show a base file. Paths of the overlay are absolute.
pub proof fn the_overlay_is_checked_table_by_table(
    tables: OverlayTables,
    bare: OverlayTables,
    chunk_size: Option<i64>,
    origins: Vec<CountCheck>,
    overrides: Vec<CountCheck>,
    alone: Vec<CountCheck>,
)
    requires
        tables.origin && tables.partial_origin && tables.chunk_override && tables.whiteout,
        bare.chunk_override && !bare.partial_origin,
        call_ensures(origin_checks, (tables,), origins),
        call_ensures(override_checks, (tables, chunk_size), overrides),
        call_ensures(override_checks, (bare, chunk_size), alone),
    ensures
        origins@[0].sql@
            == "SELECT COUNT(*) FROM fs_origin o LEFT JOIN fs_inode i ON i.ino = o.delta_ino WHERE i.ino IS NULL"@,
        origins@[1].sql@
            == "SELECT COUNT(*) FROM fs_partial_origin p LEFT JOIN fs_inode i ON i.ino = p.delta_ino WHERE i.ino IS NULL"@,
        origins@[2].sql@
            == "SELECT COUNT(*) FROM fs_partial_origin p LEFT JOIN fs_inode i ON i.ino = p.delta_ino WHERE i.ino IS NULL OR (i.mode & 61440) != 32768"@,
        origins@[3].sql@
            == "SELECT COUNT(*) FROM fs_partial_origin WHERE base_size < 0 OR base_fingerprint_size < -1"@,
        origins@[4].sql@
            == "SELECT COUNT(*) FROM fs_partial_origin WHERE base_path = '' OR base_path NOT LIKE '/%' OR instr(base_path, '/../') > 0 OR base_path LIKE '%/..'"@,
        overrides@[0].sql@
            == "SELECT COUNT(*) FROM fs_chunk_override c LEFT JOIN fs_inode i ON i.ino = c.delta_ino WHERE i.ino IS NULL"@,
        overrides@[1].sql@
            == "SELECT COUNT(*) FROM fs_chunk_override WHERE chunk_index < 0"@,
        overrides@[2].sql@
            == "SELECT COUNT(*) FROM fs_chunk_override c LEFT JOIN fs_partial_origin p ON p.delta_ino = c.delta_ino WHERE p.delta_ino IS NULL"@,
        overrides@[3].sql@
            == "SELECT COUNT(*) FROM (SELECT delta_ino, chunk_index, COUNT(*) AS n FROM fs_chunk_override GROUP BY delta_ino, chunk_index HAVING n > 1)"@,
        overrides@.last().sql@
            == "SELECT COUNT(*) FROM fs_whiteout WHERE path NOT LIKE '/%' OR parent_path NOT LIKE '/%'"@,
        alone@[2].sql@
            == "SELECT COUNT(*) FROM fs_chunk_override"@,
{
    assert(plan(origins@).len() == origins@.len());
    assert(plan(overrides@).len() == overrides@.len());
    assert(plan(alone@).len() == alone@.len());
    assert(plan(origins@)[0] == origins@[0]@);
    assert(plan(origins@)[1] == origins@[1]@);
    assert(plan(origins@)[2] == origins@[2]@);
    assert(plan(origins@)[3] == origins@[3]@);
    assert(plan(origins@)[4] == origins@[4]@);
    assert(plan(overrides@)[0] == overrides@[0]@);
    assert(plan(overrides@)[1] == overrides@[1]@);
    assert(plan(overrides@)[2] == overrides@[2]@);
    assert(plan(overrides@)[3] == overrides@[3]@);
    assert(plan(overrides@)[overrides@.len() - 1] == overrides@.last()@);
    assert(plan(alone@)[2] == alone@[2]@);
}

/// The first migration counts links: two for the root, at least one for any other directory,
/// and one for each name of anything else.
pub proof fn the_first_migration_counts_links(migration: Migration, plan: MigrationPlan)
    requires
        migration.from == SchemaVersion::V0_0 && migration.to == SchemaVersion::V0_2,
        call_ensures(migration_plan, (&migration,), Ok::<MigrationPlan, Error>(plan)),
    ensures
        plan.fill is Some,
        plan.fill->0@
            == "UPDATE fs_inode SET nlink = CASE WHEN ino = 1 THEN 2 WHEN (mode & 61440) = 16384 THEN MAX(1, (SELECT COUNT(*) FROM fs_dentry d WHERE d.ino = fs_inode.ino)) ELSE (SELECT COUNT(*) FROM fs_dentry d WHERE d.ino = fs_inode.ino) END"@,
{
}

/// The directory of a hidden path is filled in by that path, and the base of an overlay is
/// recorded under its name.
pub proof fn hidden_paths_and_the_base_are_recorded(
    path: &str,
    fill: SqlStatement,
    base: &str,
    recorded: SqlStatement,
)
    requires
        call_ensures(fill_parent_statement, (path,), fill),
        call_ensures(base_path_statement, (base,), recorded),
    ensures
        fill.sql@ == "UPDATE fs_whiteout SET parent_path = ? WHERE path = ?"@,
        models(fill.values@).len() == 2,
        models(fill.values@)[1] == SqlModel::Text(path@),
        models(fill.values@)[0] is Text,
        recorded.sql@
            == "INSERT OR REPLACE INTO fs_overlay_config (key, value) VALUES ('base_path', ?1)"@,
        models(recorded.values@) == seq![SqlModel::Text(base@)],
{
}

} // verus!
