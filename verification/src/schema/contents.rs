//! Upgrades leave the contents of a database alone.
//!
//! Whatever an upgrade runs either creates what is missing, stamps the database, or changes one
//! of the tables that old versions lack something of. Rows of the key-value store, of the tool
//! calls and of the file contents are neither deleted nor rewritten.
use crate::schema::columns::{FILL_PARENT_SQL, INSERT_CONFIG_SQL, SET_CONFIG_SQL};
use crate::schema::columns::{origin_repairs, whiteout_repairs};
use crate::schema::ddl::current_ddl;
use crate::schema::{
    ColumnInfo, FILL_NLINK_SQL, Migration, SchemaStep, add_column_sql, added_columns, next_version,
    upgrade,
};
use crate::text::signed_decimal;
use vstd::prelude::*;

verus! {

/// The texts of the statements that a step may run, with whatever values they are given.
pub open spec fn step_runs(step: SchemaStep, sql: Seq<char>) -> bool {
    match step {
        SchemaStep::RepairOverlay => {
            ||| exists|columns: Seq<ColumnInfo>| #[trigger] origin_repairs(columns).contains(sql)
            ||| exists|columns: Seq<ColumnInfo>| #[trigger] whiteout_repairs(columns).contains(sql)
            ||| sql == FILL_PARENT_SQL@
        },
        SchemaStep::CreateTables => current_ddl().contains(sql),
        SchemaStep::Apply(migration) => next_version(migration.from) == Some(migration.to) && {
            ||| exists|i: int|
                0 <= i < added_columns(migration.from).len() && sql == add_column_sql(
                    #[trigger] added_columns(migration.from)[i],
                )
            ||| sql == FILL_NLINK_SQL@
        },
        SchemaStep::Stamp(version) => sql == "PRAGMA user_version = "@ + signed_decimal(
            version.number() as int,
        ),
        SchemaStep::ConfigDefaults => sql == SET_CONFIG_SQL@ || sql == INSERT_CONFIG_SQL@,
    }
}

/// Whether a statement creates a table or an index where there is none, and nothing else.
pub open spec fn only_creates(sql: Seq<char>) -> bool {
    ||| "CREATE TABLE IF NOT EXISTS "@.is_prefix_of(sql)
    ||| "CREATE INDEX IF NOT EXISTS "@.is_prefix_of(sql)
}

/// Whether a statement adds a column to a table, or writes rows of it.
pub open spec fn changes(sql: Seq<char>, table: Seq<char>) -> bool {
    ||| ("ALTER TABLE "@ + table + " ADD COLUMN "@).is_prefix_of(sql)
    ||| ("UPDATE "@ + table + " SET "@).is_prefix_of(sql)
    ||| ("INSERT OR REPLACE INTO "@ + table + " "@).is_prefix_of(sql)
    ||| ("INSERT OR IGNORE INTO "@ + table + " "@).is_prefix_of(sql)
}

/// The tables that upgrades change.
pub open spec fn upgraded_tables() -> Seq<Seq<char>> {
    seq!["fs_inode"@, "fs_partial_origin"@, "fs_whiteout"@, "fs_config"@]
}

/// Whether a statement neither deletes nor rewrites rows of a table: it creates what is missing,
/// stamps the database, or changes another table.
pub open spec fn spares(sql: Seq<char>, table: Seq<char>) -> bool {
    ||| only_creates(sql)
    ||| "PRAGMA user_version = "@.is_prefix_of(sql)
    ||| exists|i: int|
        0 <= i < upgraded_tables().len() && upgraded_tables()[i] != table && #[trigger] changes(
            sql,
            upgraded_tables()[i],
        )
}

/// No statement of an upgrade deletes or rewrites rows of the key-value store, of the tool calls
/// or of the contents of files, whatever version the database had.
pub proof fn upgrades_keep_the_contents(
    pending: Seq<Migration>,
    at: int,
    sql: Seq<char>,
    table: Seq<char>,
)
    requires
        0 <= at < upgrade(pending).len(),
        step_runs(upgrade(pending)[at], sql),
        table == "kv_store"@ || table == "tool_calls"@ || table == "fs_data"@,
    ensures
        spares(sql, table),
{
    lemma_other_tables(table);
    match upgrade(pending)[at] {
        SchemaStep::RepairOverlay => lemma_repairs(sql, table),
        SchemaStep::CreateTables => lemma_ddl_creates(sql),
        SchemaStep::Apply(migration) => lemma_migrations(migration, sql, table),
        SchemaStep::Stamp(version) => {},
        SchemaStep::ConfigDefaults => lemma_config(sql, table),
    }
}

proof fn lemma_other_tables(table: Seq<char>)
    requires
        table == "kv_store"@ || table == "tool_calls"@ || table == "fs_data"@,
    ensures
        forall|i: int|
            0 <= i < upgraded_tables().len() ==> #[trigger] upgraded_tables()[i] != table,
{
    reveal_strlit("kv_store");
    reveal_strlit("tool_calls");
    reveal_strlit("fs_data");
    reveal_strlit("fs_inode");
    reveal_strlit("fs_partial_origin");
    reveal_strlit("fs_whiteout");
    reveal_strlit("fs_config");
    assert forall|i: int| 0 <= i < upgraded_tables().len() implies #[trigger]
        upgraded_tables()[i] != table by {
        let other = upgraded_tables()[i];
        if other.len() == table.len() {
            assert(other[3] != table[3] || other[0] != table[0]);
        }
    }
}

/// A statement that changes one of the upgraded tables spares the others.
proof fn lemma_spares(sql: Seq<char>, at: int, table: Seq<char>)
    requires
        0 <= at < upgraded_tables().len(),
        upgraded_tables()[at] != table,
        changes(sql, upgraded_tables()[at]),
    ensures
        spares(sql, table),
{
}

proof fn lemma_repairs(sql: Seq<char>, table: Seq<char>)
    requires
        step_runs(SchemaStep::RepairOverlay, sql),
        forall|i: int|
            0 <= i < upgraded_tables().len() ==> #[trigger] upgraded_tables()[i] != table,
    ensures
        spares(sql, table),
{
    reveal_strlit("ALTER TABLE ");
    reveal_strlit(" ADD COLUMN ");
    reveal_strlit("UPDATE ");
    reveal_strlit(" SET ");
    reveal_strlit("fs_partial_origin");
    reveal_strlit("fs_whiteout");
    reveal_strlit("UPDATE fs_whiteout SET parent_path = ? WHERE path = ?");
    let origin_head = "ALTER TABLE "@ + "fs_partial_origin"@ + " ADD COLUMN "@;
    let whiteout_head = "ALTER TABLE "@ + "fs_whiteout"@ + " ADD COLUMN "@;
    reveal_strlit(
        "ALTER TABLE fs_partial_origin ADD COLUMN base_fingerprint_size INTEGER NOT NULL DEFAULT -1",
    );
    assert(origin_head.is_prefix_of(
        "ALTER TABLE fs_partial_origin ADD COLUMN base_fingerprint_size INTEGER NOT NULL DEFAULT -1"@,
    ));
    reveal_strlit(
        "ALTER TABLE fs_partial_origin ADD COLUMN base_mtime INTEGER NOT NULL DEFAULT 0",
    );
    assert(origin_head.is_prefix_of(
        "ALTER TABLE fs_partial_origin ADD COLUMN base_mtime INTEGER NOT NULL DEFAULT 0"@,
    ));
    reveal_strlit(
        "ALTER TABLE fs_partial_origin ADD COLUMN base_mtime_nsec INTEGER NOT NULL DEFAULT 0",
    );
    assert(origin_head.is_prefix_of(
        "ALTER TABLE fs_partial_origin ADD COLUMN base_mtime_nsec INTEGER NOT NULL DEFAULT 0"@,
    ));
    reveal_strlit(
        "ALTER TABLE fs_partial_origin ADD COLUMN base_ctime INTEGER NOT NULL DEFAULT 0",
    );
    assert(origin_head.is_prefix_of(
        "ALTER TABLE fs_partial_origin ADD COLUMN base_ctime INTEGER NOT NULL DEFAULT 0"@,
    ));
    reveal_strlit(
        "ALTER TABLE fs_partial_origin ADD COLUMN base_ctime_nsec INTEGER NOT NULL DEFAULT 0",
    );
    assert(origin_head.is_prefix_of(
        "ALTER TABLE fs_partial_origin ADD COLUMN base_ctime_nsec INTEGER NOT NULL DEFAULT 0"@,
    ));
    reveal_strlit(
        "ALTER TABLE fs_whiteout ADD COLUMN parent_path TEXT NOT NULL DEFAULT '/'",
    );
    assert(whiteout_head.is_prefix_of(
        "ALTER TABLE fs_whiteout ADD COLUMN parent_path TEXT NOT NULL DEFAULT '/'"@,
    ));
    assert(("UPDATE "@ + "fs_whiteout"@ + " SET "@).is_prefix_of(FILL_PARENT_SQL@));
    if sql == FILL_PARENT_SQL@ {
        lemma_spares(sql, 2, table);
    } else if exists|columns: Seq<ColumnInfo>| #[trigger] origin_repairs(columns).contains(sql) {
        let columns = choose|columns: Seq<ColumnInfo>| #[trigger]
            origin_repairs(columns).contains(sql);
        assert(origin_head.is_prefix_of(sql));
        lemma_spares(sql, 1, table);
    } else {
        let columns = choose|columns: Seq<ColumnInfo>| #[trigger]
            whiteout_repairs(columns).contains(sql);
        assert(whiteout_head.is_prefix_of(sql));
        lemma_spares(sql, 2, table);
    }
}

proof fn lemma_migrations(migration: Migration, sql: Seq<char>, table: Seq<char>)
    requires
        step_runs(SchemaStep::Apply(migration), sql),
        forall|i: int|
            0 <= i < upgraded_tables().len() ==> #[trigger] upgraded_tables()[i] != table,
    ensures
        spares(sql, table),
{
    reveal_strlit("ALTER TABLE ");
    reveal_strlit(" ADD COLUMN ");
    reveal_strlit("UPDATE ");
    reveal_strlit(" SET ");
    reveal_strlit("fs_inode");
    reveal_strlit("ALTER TABLE fs_inode ADD COLUMN ");
    let head = "ALTER TABLE "@ + "fs_inode"@ + " ADD COLUMN "@;
    assert(head =~= "ALTER TABLE fs_inode ADD COLUMN "@);
    if sql == FILL_NLINK_SQL@ {
        assert(("UPDATE "@ + "fs_inode"@ + " SET "@).is_prefix_of(FILL_NLINK_SQL@)) by {
            reveal_strlit(
                "UPDATE fs_inode SET nlink = CASE WHEN ino = 1 THEN 2 WHEN (mode & 61440) = 16384 THEN MAX(1, (SELECT COUNT(*) FROM fs_dentry d WHERE d.ino = fs_inode.ino)) ELSE (SELECT COUNT(*) FROM fs_dentry d WHERE d.ino = fs_inode.ino) END",
            );
        }
    } else {
        assert(head.is_prefix_of(sql));
    }
    lemma_spares(sql, 0, table);
}

proof fn lemma_config(sql: Seq<char>, table: Seq<char>)
    requires
        step_runs(SchemaStep::ConfigDefaults, sql),
        forall|i: int|
            0 <= i < upgraded_tables().len() ==> #[trigger] upgraded_tables()[i] != table,
    ensures
        spares(sql, table),
{
    reveal_strlit("INSERT OR REPLACE INTO ");
    reveal_strlit("INSERT OR IGNORE INTO ");
    reveal_strlit("fs_config");
    reveal_strlit(" ");
    reveal_strlit("INSERT OR REPLACE INTO fs_config (key, value) VALUES (?, ?)");
    reveal_strlit("INSERT OR IGNORE INTO fs_config (key, value) VALUES (?, ?)");
    assert(("INSERT OR REPLACE INTO "@ + "fs_config"@ + " "@).is_prefix_of(SET_CONFIG_SQL@));
    assert(("INSERT OR IGNORE INTO "@ + "fs_config"@ + " "@).is_prefix_of(INSERT_CONFIG_SQL@));
    lemma_spares(sql, 3, table);
}

/// Every statement of the schema creates what is missing.
proof fn lemma_ddl_creates(sql: Seq<char>)
    requires
        current_ddl().contains(sql),
    ensures
        only_creates(sql),
{
    reveal_strlit("CREATE TABLE IF NOT EXISTS ");
    reveal_strlit("CREATE INDEX IF NOT EXISTS ");
    assert("CREATE TABLE IF NOT EXISTS "@.is_prefix_of(crate::schema::ddl::CREATE_FS_CONFIG@)) by {
        reveal_strlit(
            "CREATE TABLE IF NOT EXISTS fs_config (key TEXT PRIMARY KEY, value TEXT NOT NULL)",
        );
    }
    assert("CREATE TABLE IF NOT EXISTS "@.is_prefix_of(crate::schema::ddl::CREATE_FS_INODE@)) by {
        reveal_strlit(
            "CREATE TABLE IF NOT EXISTS fs_inode (ino INTEGER PRIMARY KEY AUTOINCREMENT, mode INTEGER NOT NULL, nlink INTEGER NOT NULL DEFAULT 0, uid INTEGER NOT NULL DEFAULT 0, gid INTEGER NOT NULL DEFAULT 0, size INTEGER NOT NULL DEFAULT 0, atime INTEGER NOT NULL, mtime INTEGER NOT NULL, ctime INTEGER NOT NULL, rdev INTEGER NOT NULL DEFAULT 0, atime_nsec INTEGER NOT NULL DEFAULT 0, mtime_nsec INTEGER NOT NULL DEFAULT 0, ctime_nsec INTEGER NOT NULL DEFAULT 0, data_inline BLOB, storage_kind INTEGER NOT NULL DEFAULT 0)",
        );
    }
    assert("CREATE TABLE IF NOT EXISTS "@.is_prefix_of(crate::schema::ddl::CREATE_FS_DENTRY@)) by {
        reveal_strlit(
            "CREATE TABLE IF NOT EXISTS fs_dentry (id INTEGER PRIMARY KEY AUTOINCREMENT, name TEXT NOT NULL, parent_ino INTEGER NOT NULL, ino INTEGER NOT NULL, UNIQUE(parent_ino, name))",
        );
    }
    assert("CREATE INDEX IF NOT EXISTS "@.is_prefix_of(crate::schema::ddl::CREATE_IDX_FS_DENTRY_PARENT@)) by {
        reveal_strlit(
            "CREATE INDEX IF NOT EXISTS idx_fs_dentry_parent ON fs_dentry(parent_ino, name)",
        );
    }
    assert("CREATE TABLE IF NOT EXISTS "@.is_prefix_of(crate::schema::ddl::CREATE_FS_DATA@)) by {
        reveal_strlit(
            "CREATE TABLE IF NOT EXISTS fs_data (ino INTEGER NOT NULL, chunk_index INTEGER NOT NULL, data BLOB NOT NULL, PRIMARY KEY (ino, chunk_index))",
        );
    }
    assert("CREATE TABLE IF NOT EXISTS "@.is_prefix_of(crate::schema::ddl::CREATE_FS_SYMLINK@)) by {
        reveal_strlit(
            "CREATE TABLE IF NOT EXISTS fs_symlink (ino INTEGER PRIMARY KEY, target TEXT NOT NULL)",
        );
    }
    assert("CREATE TABLE IF NOT EXISTS "@.is_prefix_of(crate::schema::ddl::CREATE_FS_WHITEOUT@)) by {
        reveal_strlit(
            "CREATE TABLE IF NOT EXISTS fs_whiteout (path TEXT PRIMARY KEY, parent_path TEXT NOT NULL, created_at INTEGER NOT NULL)",
        );
    }
    assert("CREATE INDEX IF NOT EXISTS "@.is_prefix_of(crate::schema::ddl::CREATE_IDX_FS_WHITEOUT_PARENT@)) by {
        reveal_strlit(
            "CREATE INDEX IF NOT EXISTS idx_fs_whiteout_parent ON fs_whiteout(parent_path)",
        );
    }
    assert("CREATE TABLE IF NOT EXISTS "@.is_prefix_of(crate::schema::ddl::CREATE_FS_OVERLAY_CONFIG@)) by {
        reveal_strlit(
            "CREATE TABLE IF NOT EXISTS fs_overlay_config (key TEXT PRIMARY KEY, value TEXT NOT NULL)",
        );
    }
    assert("CREATE TABLE IF NOT EXISTS "@.is_prefix_of(crate::schema::ddl::CREATE_FS_ORIGIN@)) by {
        reveal_strlit(
            "CREATE TABLE IF NOT EXISTS fs_origin (delta_ino INTEGER PRIMARY KEY, base_ino INTEGER NOT NULL)",
        );
    }
    assert("CREATE TABLE IF NOT EXISTS "@.is_prefix_of(crate::schema::ddl::CREATE_FS_PARTIAL_ORIGIN@)) by {
        reveal_strlit(
            "CREATE TABLE IF NOT EXISTS fs_partial_origin (delta_ino INTEGER PRIMARY KEY, base_ino INTEGER NOT NULL, base_path TEXT NOT NULL, base_size INTEGER NOT NULL, base_fingerprint_size INTEGER NOT NULL DEFAULT -1, base_mtime INTEGER NOT NULL DEFAULT 0, base_mtime_nsec INTEGER NOT NULL DEFAULT 0, base_ctime INTEGER NOT NULL DEFAULT 0, base_ctime_nsec INTEGER NOT NULL DEFAULT 0, created_at INTEGER NOT NULL)",
        );
    }
    assert("CREATE TABLE IF NOT EXISTS "@.is_prefix_of(crate::schema::ddl::CREATE_FS_CHUNK_OVERRIDE@)) by {
        reveal_strlit(
            "CREATE TABLE IF NOT EXISTS fs_chunk_override (delta_ino INTEGER NOT NULL, chunk_index INTEGER NOT NULL, PRIMARY KEY (delta_ino, chunk_index))",
        );
    }
    assert("CREATE TABLE IF NOT EXISTS "@.is_prefix_of(crate::schema::ddl::CREATE_KV_STORE@)) by {
        reveal_strlit(
            "CREATE TABLE IF NOT EXISTS kv_store (key TEXT PRIMARY KEY, value TEXT NOT NULL, created_at INTEGER DEFAULT (unixepoch()), updated_at INTEGER DEFAULT (unixepoch()))",
        );
    }
    assert("CREATE INDEX IF NOT EXISTS "@.is_prefix_of(crate::schema::ddl::CREATE_IDX_KV_STORE_CREATED_AT@)) by {
        reveal_strlit(
            "CREATE INDEX IF NOT EXISTS idx_kv_store_created_at ON kv_store(created_at)",
        );
    }
    assert("CREATE TABLE IF NOT EXISTS "@.is_prefix_of(crate::schema::ddl::CREATE_TOOL_CALLS@)) by {
        reveal_strlit(
            "CREATE TABLE IF NOT EXISTS tool_calls (id INTEGER PRIMARY KEY AUTOINCREMENT, name TEXT NOT NULL, parameters TEXT, result TEXT, error TEXT, status TEXT NOT NULL DEFAULT 'pending', started_at INTEGER NOT NULL, completed_at INTEGER, duration_ms INTEGER)",
        );
    }
    assert("CREATE INDEX IF NOT EXISTS "@.is_prefix_of(crate::schema::ddl::CREATE_IDX_TOOL_CALLS_NAME@)) by {
        reveal_strlit(
            "CREATE INDEX IF NOT EXISTS idx_tool_calls_name ON tool_calls(name)",
        );
    }
    assert("CREATE INDEX IF NOT EXISTS "@.is_prefix_of(crate::schema::ddl::CREATE_IDX_TOOL_CALLS_STARTED_AT@)) by {
        reveal_strlit(
            "CREATE INDEX IF NOT EXISTS idx_tool_calls_started_at ON tool_calls(started_at)",
        );
    }
    let at = choose|i: int| 0 <= i < current_ddl().len() && current_ddl()[i] == sql;
    assert(current_ddl()[at] == sql);
}

} // verus!
