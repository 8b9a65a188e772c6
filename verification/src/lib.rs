//! Core of an agent filesystem stored in one SQLite database.
pub mod attr_laws;
pub mod attrs;
pub mod batcher;
pub mod batcher_laws;
pub mod batcher_state;
pub mod caches;
pub mod config;
pub mod copy_laws;
pub mod copy_steps;
pub mod copy_up;
pub mod default_laws;
pub mod drain;
pub mod drain_laws;
pub mod drain_steps;
pub mod entry_laws;
pub mod error;
pub mod file;
pub mod flags;
pub mod lookup;
pub mod lookup_laws;
pub mod maps_laws;
pub mod mounts;
pub mod namespace;
pub mod namespace_laws;
pub mod numbers;
pub mod operation_laws;
pub mod options;
pub mod overlay;
pub mod overlay_change_laws;
pub mod overlay_create;
pub mod overlay_laws;
pub mod overlay_list;
pub mod overlay_lookup;
pub mod overlay_maps;
pub mod overlay_remove;
pub mod overlay_rename;
pub mod partial;
pub mod path;
pub mod path_laws;
pub mod pending;
pub mod pool;
pub mod ranges;
pub mod reading_laws;
pub mod removal;
pub mod rename;
pub mod rename_laws;
pub mod row_laws;
pub mod schema;
pub mod semantics;
pub mod service_laws;
pub mod sql;
pub mod sql_laws;
pub mod stats;
pub mod tables;
pub mod telemetry;
pub mod text;
pub mod text_map;
pub mod text_order;
pub mod toolcalls;
pub mod unlink;
pub mod waiting_laws;
pub mod whiteouts;
pub mod write_laws;
