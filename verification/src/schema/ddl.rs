//! The statements that create the tables and indexes.
use crate::schema::SchemaVersion;
use crate::text::texts;
use vstd::prelude::*;

verus! {

/// Creates the table `fs_config`.
pub const CREATE_FS_CONFIG: &'static str =
    "CREATE TABLE IF NOT EXISTS fs_config (key TEXT PRIMARY KEY, value TEXT NOT NULL)";

/// Creates the table `fs_inode`.
pub const CREATE_FS_INODE: &'static str =
    "CREATE TABLE IF NOT EXISTS fs_inode (ino INTEGER PRIMARY KEY AUTOINCREMENT, mode INTEGER NOT NULL, nlink INTEGER NOT NULL DEFAULT 0, uid INTEGER NOT NULL DEFAULT 0, gid INTEGER NOT NULL DEFAULT 0, size INTEGER NOT NULL DEFAULT 0, atime INTEGER NOT NULL, mtime INTEGER NOT NULL, ctime INTEGER NOT NULL, rdev INTEGER NOT NULL DEFAULT 0, atime_nsec INTEGER NOT NULL DEFAULT 0, mtime_nsec INTEGER NOT NULL DEFAULT 0, ctime_nsec INTEGER NOT NULL DEFAULT 0, data_inline BLOB, storage_kind INTEGER NOT NULL DEFAULT 0)";

/// Creates the table `fs_dentry`.
pub const CREATE_FS_DENTRY: &'static str =
    "CREATE TABLE IF NOT EXISTS fs_dentry (id INTEGER PRIMARY KEY AUTOINCREMENT, name TEXT NOT NULL, parent_ino INTEGER NOT NULL, ino INTEGER NOT NULL, UNIQUE(parent_ino, name))";

/// Creates the index `idx_fs_dentry_parent`.
pub const CREATE_IDX_FS_DENTRY_PARENT: &'static str =
    "CREATE INDEX IF NOT EXISTS idx_fs_dentry_parent ON fs_dentry(parent_ino, name)";

/// Creates the table `fs_data`.
pub const CREATE_FS_DATA: &'static str =
    "CREATE TABLE IF NOT EXISTS fs_data (ino INTEGER NOT NULL, chunk_index INTEGER NOT NULL, data BLOB NOT NULL, PRIMARY KEY (ino, chunk_index))";

/// Creates the table `fs_symlink`.
pub const CREATE_FS_SYMLINK: &'static str =
    "CREATE TABLE IF NOT EXISTS fs_symlink (ino INTEGER PRIMARY KEY, target TEXT NOT NULL)";

/// Creates the table `fs_whiteout`.
pub const CREATE_FS_WHITEOUT: &'static str =
    "CREATE TABLE IF NOT EXISTS fs_whiteout (path TEXT PRIMARY KEY, parent_path TEXT NOT NULL, created_at INTEGER NOT NULL)";

/// Creates the index `idx_fs_whiteout_parent`.
pub const CREATE_IDX_FS_WHITEOUT_PARENT: &'static str =
    "CREATE INDEX IF NOT EXISTS idx_fs_whiteout_parent ON fs_whiteout(parent_path)";

/// Creates the table `fs_overlay_config`.
pub const CREATE_FS_OVERLAY_CONFIG: &'static str =
    "CREATE TABLE IF NOT EXISTS fs_overlay_config (key TEXT PRIMARY KEY, value TEXT NOT NULL)";

/// Creates the table `fs_origin`.
pub const CREATE_FS_ORIGIN: &'static str =
    "CREATE TABLE IF NOT EXISTS fs_origin (delta_ino INTEGER PRIMARY KEY, base_ino INTEGER NOT NULL)";

/// Creates the table `fs_partial_origin`.
pub const CREATE_FS_PARTIAL_ORIGIN: &'static str =
    "CREATE TABLE IF NOT EXISTS fs_partial_origin (delta_ino INTEGER PRIMARY KEY, base_ino INTEGER NOT NULL, base_path TEXT NOT NULL, base_size INTEGER NOT NULL, base_fingerprint_size INTEGER NOT NULL DEFAULT -1, base_mtime INTEGER NOT NULL DEFAULT 0, base_mtime_nsec INTEGER NOT NULL DEFAULT 0, base_ctime INTEGER NOT NULL DEFAULT 0, base_ctime_nsec INTEGER NOT NULL DEFAULT 0, created_at INTEGER NOT NULL)";

/// Creates the table `fs_chunk_override`.
pub const CREATE_FS_CHUNK_OVERRIDE: &'static str =
    "CREATE TABLE IF NOT EXISTS fs_chunk_override (delta_ino INTEGER NOT NULL, chunk_index INTEGER NOT NULL, PRIMARY KEY (delta_ino, chunk_index))";

/// Creates the table `kv_store`.
pub const CREATE_KV_STORE: &'static str =
    "CREATE TABLE IF NOT EXISTS kv_store (key TEXT PRIMARY KEY, value TEXT NOT NULL, created_at INTEGER DEFAULT (unixepoch()), updated_at INTEGER DEFAULT (unixepoch()))";

/// Creates the index `idx_kv_store_created_at`.
pub const CREATE_IDX_KV_STORE_CREATED_AT: &'static str =
    "CREATE INDEX IF NOT EXISTS idx_kv_store_created_at ON kv_store(created_at)";

/// Creates the table `tool_calls`.
pub const CREATE_TOOL_CALLS: &'static str =
    "CREATE TABLE IF NOT EXISTS tool_calls (id INTEGER PRIMARY KEY AUTOINCREMENT, name TEXT NOT NULL, parameters TEXT, result TEXT, error TEXT, status TEXT NOT NULL DEFAULT 'pending', started_at INTEGER NOT NULL, completed_at INTEGER, duration_ms INTEGER)";

/// Creates the index `idx_tool_calls_name`.
pub const CREATE_IDX_TOOL_CALLS_NAME: &'static str =
    "CREATE INDEX IF NOT EXISTS idx_tool_calls_name ON tool_calls(name)";

/// Creates the index `idx_tool_calls_started_at`.
pub const CREATE_IDX_TOOL_CALLS_STARTED_AT: &'static str =
    "CREATE INDEX IF NOT EXISTS idx_tool_calls_started_at ON tool_calls(started_at)";

/// The statements that create the current schema, in order. Each leaves alone what is
/// already there.
pub open spec fn current_ddl() -> Seq<Seq<char>> {
    seq![
        CREATE_FS_CONFIG@,
        CREATE_FS_INODE@,
        CREATE_FS_DENTRY@,
        CREATE_IDX_FS_DENTRY_PARENT@,
        CREATE_FS_DATA@,
        CREATE_FS_SYMLINK@,
        CREATE_FS_WHITEOUT@,
        CREATE_IDX_FS_WHITEOUT_PARENT@,
        CREATE_FS_OVERLAY_CONFIG@,
        CREATE_FS_ORIGIN@,
        CREATE_FS_PARTIAL_ORIGIN@,
        CREATE_FS_CHUNK_OVERRIDE@,
        CREATE_KV_STORE@,
        CREATE_IDX_KV_STORE_CREATED_AT@,
        CREATE_TOOL_CALLS@,
        CREATE_IDX_TOOL_CALLS_NAME@,
        CREATE_IDX_TOOL_CALLS_STARTED_AT@,
    ]
}

/// The statements that create the schema, in order. Every version is brought to the
/// current one.
pub fn create_all(_version: SchemaVersion) -> (statements: Vec<&'static str>)
    ensures
        texts(statements@) == current_ddl(),
{
    let mut statements: Vec<&'static str> = Vec::new();
    statements.push(CREATE_FS_CONFIG);
    statements.push(CREATE_FS_INODE);
    statements.push(CREATE_FS_DENTRY);
    statements.push(CREATE_IDX_FS_DENTRY_PARENT);
    statements.push(CREATE_FS_DATA);
    statements.push(CREATE_FS_SYMLINK);
    statements.push(CREATE_FS_WHITEOUT);
    statements.push(CREATE_IDX_FS_WHITEOUT_PARENT);
    statements.push(CREATE_FS_OVERLAY_CONFIG);
    statements.push(CREATE_FS_ORIGIN);
    statements.push(CREATE_FS_PARTIAL_ORIGIN);
    statements.push(CREATE_FS_CHUNK_OVERRIDE);
    statements.push(CREATE_KV_STORE);
    statements.push(CREATE_IDX_KV_STORE_CREATED_AT);
    statements.push(CREATE_TOOL_CALLS);
    statements.push(CREATE_IDX_TOOL_CALLS_NAME);
    statements.push(CREATE_IDX_TOOL_CALLS_STARTED_AT);
    assert(texts(statements@) =~= current_ddl());
    statements
}

} // verus!
