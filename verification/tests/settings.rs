use agentfs_core::config::{BatcherConfig, CoreConfig, EnvReader, Geometry};
use agentfs_core::error::Error;
use agentfs_core::mounts::get_mounts;
use agentfs_core::options::{
    agentfs_dir, AgentFSOptions, BootstrapStrategy, DbPath, EncryptionConfig, PartialSync,
    SyncOptions,
};
use agentfs_core::overlay::PartialOriginPolicy;
use agentfs_core::pool::{
    file_backed_connection_pool_options, memory_connection_pool_options, removable_sidecars,
    sqlite_sidecar_path, ConnectionPool, Lease, PoolOptions, Return,
};

#[test]
fn runtime_env_bool_grammar_is_shared() {
    for value in ["1", "true", "TRUE", "True", "yes", "YES", "on", "ON"] {
        assert_eq!(
            EnvReader::parse_bool(value),
            Some(true),
            "{value} should parse as true"
        );
    }

    for value in ["0", "false", "FALSE", "False", "no", "NO", "off", "OFF"] {
        assert_eq!(
            EnvReader::parse_bool(value),
            Some(false),
            "{value} should parse as false"
        );
    }

    for value in ["", "maybe", "truthy", "2", "enable"] {
        assert_eq!(
            EnvReader::parse_bool(value),
            None,
            "{value:?} should fall back to the caller default"
        );
    }

    assert!(
        EnvReader::bool_or(Some("garbage"), true),
        "invalid true-default case should keep the default"
    );
    assert!(
        !EnvReader::bool_or(Some("garbage"), false),
        "invalid false-default case should keep the default"
    );
    assert!(EnvReader::bool_or(None, true));
    assert!(!EnvReader::bool_or(Some("off"), true));
}

#[test]
fn agent_names_are_plain() {
    for id in ["agent", "my-agent_2", "A", "\u{e4}gent"] {
        assert!(AgentFSOptions::validate_agent_id(id), "{id}");
    }
    for id in ["", "a/b", "..", "a.b", "a b", "a\u{0}"] {
        assert!(!AgentFSOptions::validate_agent_id(id), "{id:?}");
    }
}

#[test]
fn the_path_prevails_over_the_agent() {
    let path = |options: &AgentFSOptions| options.db_path();
    assert!(matches!(path(&AgentFSOptions::ephemeral()), Ok(DbPath::Memory)));
    assert!(matches!(path(&AgentFSOptions::with_path(":memory:")), Ok(DbPath::Memory)));
    assert!(matches!(
        path(&AgentFSOptions::with_path("/tmp/x.db")),
        Ok(DbPath::Given(found)) if found == "/tmp/x.db"
    ));
    assert!(matches!(
        path(&AgentFSOptions::with_id("agent")),
        Ok(DbPath::Agent(found)) if found == ".agentfs/agent.db"
    ));
    assert!(matches!(
        path(&AgentFSOptions::with_id("../x")),
        Err(Error::InvalidAgentId(found)) if found == "../x"
    ));
    let mut both = AgentFSOptions::with_id("agent");
    both.path = Some("given.db".to_string());
    assert!(matches!(path(&both), Ok(DbPath::Given(_))));
    assert_eq!(agentfs_dir(), ".agentfs");
}

#[test]
fn options_can_be_set_one_by_one() {
    let options = AgentFSOptions::with_id("a").with_base("/base").with_encryption_key("00ff", "aegis256");
    assert_eq!(options.base.as_deref(), Some("/base"));
    let encryption = options.encryption.unwrap();
    assert_eq!((encryption.hex_key.as_str(), encryption.cipher.as_str()), ("00ff", "aegis256"));
    let config = EncryptionConfig { hex_key: "k".to_string(), cipher: "c".to_string() };
    assert_eq!(AgentFSOptions::ephemeral().with_encryption(config).encryption.unwrap().cipher, "c");
}

#[test]
fn an_agent_or_a_path_is_resolved() {
    let resolve = AgentFSOptions::resolve;
    assert!(resolve(":memory:", false, false).unwrap().path.is_none());
    assert_eq!(resolve("agent", true, true).unwrap().path.unwrap(), ".agentfs/agent.db");
    assert_eq!(resolve("agent", false, true).unwrap().path.unwrap(), "agent");
    assert_eq!(resolve("dir/x.db", true, true).unwrap().path.unwrap(), "dir/x.db");
    assert!(matches!(
        resolve("agent", false, false),
        Err(Error::AgentNotFound { id, path }) if id == "agent" && path == ".agentfs/agent.db"
    ));
    for path in ["dir/x", "x.db", "x.", "...", ".a.b"] {
        assert!(
            matches!(resolve(path, false, false), Err(Error::DatabaseNotFound(found)) if found == path),
            "{path}"
        );
    }
    for id in ["", "..", ".", ".hidden", "a b"] {
        assert!(
            matches!(resolve(id, false, false), Err(Error::InvalidAgentId(found)) if found == id),
            "{id:?}"
        );
    }
}

#[test]
fn mounts_of_agents_are_listed() {
    let table = "proc /proc proc rw 0 0\n\
        agentfs:one /mnt/one fuse rw 0 0\n\
        agentfs:fuse /mnt/daemon fuse rw 0 0\n\
        \n\
        agentfs:two\t/mnt/two fuse\n\
        agentfs:alone\n\
        agentfs: /mnt/empty fuse";
    let mounts = get_mounts(table);
    let found: Vec<(&str, &str)> =
        mounts.iter().map(|mount| (mount.id.as_str(), mount.mountpoint.as_str())).collect();
    assert_eq!(found, vec![("one", "/mnt/one"), ("two", "/mnt/two"), ("", "/mnt/empty")]);
    assert!(get_mounts("").is_empty());
}

#[test]
fn pool_options_are_built() {
    let default = PoolOptions::default();
    assert_eq!((default.max_connections, default.timeout_millis), (8, 30_000));
    assert!(default.setup_sql.is_empty());
    let options = PoolOptions::single_connection()
        .with_timeout(50)
        .with_setup_sql(vec!["PRAGMA busy_timeout = 1234".to_string()]);
    assert_eq!((options.max_connections, options.timeout_millis), (1, 50));
    assert_eq!(options.setup_sql, vec!["PRAGMA busy_timeout = 1234"]);
    assert_eq!(
        file_backed_connection_pool_options().setup_sql,
        vec![
            "PRAGMA temp_store = MEMORY",
            "PRAGMA busy_timeout = 5000",
            "PRAGMA journal_mode = WAL",
            "PRAGMA synchronous = NORMAL",
        ]
    );
    assert_eq!(memory_connection_pool_options().setup_sql, vec!["PRAGMA temp_store = MEMORY"]);
    assert_eq!(memory_connection_pool_options().max_connections, 1);
}

#[test]
fn a_pool_reuses_what_was_given_back() {
    let mut pool = ConnectionPool::with_options(&PoolOptions::single_connection());
    assert_eq!(pool.try_lend(), Some(Lease::Create));
    assert_eq!(pool.try_lend(), None);
    assert!(matches!(ConnectionPool::timed_out(), Error::ConnectionPoolTimeout));
    assert_eq!(pool.give_back(7, true, false), Return::Kept);
    assert_eq!(pool.try_lend(), Some(Lease::Reuse(7)));
    assert_eq!(pool.give_back(7, false, false), Return::Evicted);
    assert_eq!(pool.idle.len(), 0);
    assert_eq!(pool.try_lend(), Some(Lease::Create));
    assert_eq!(pool.give_back(8, true, true), Return::Discarded);
    assert_eq!(pool.try_lend(), Some(Lease::Create));
    pool.not_created();
    assert_eq!(pool.lent, 0);
}

#[test]
fn a_pool_without_connections_has_one() {
    let mut options = PoolOptions::default();
    options.max_connections = 0;
    assert_eq!(ConnectionPool::with_options(&options).limit, 1);
}

#[test]
fn only_an_empty_log_may_go() {
    assert_eq!(sqlite_sidecar_path("a.db", "-wal"), "a.db-wal");
    assert_eq!(removable_sidecars("a.db", Some(0), true), vec!["a.db-wal", "a.db-shm"]);
    assert_eq!(removable_sidecars("a.db", Some(10), true), vec!["a.db-shm"]);
    assert!(removable_sidecars("a.db", None, false).is_empty());
}

#[test]
fn synchronisation_and_behaviour_are_options() {
    let sync = SyncOptions {
        remote_url: Some("libsql://remote".to_string()),
        auth_token: None,
        partial_sync: Some(PartialSync {
            bootstrap_strategy: Some(BootstrapStrategy::Prefix { length: 4096 }),
            segment_size: 0,
            prefetch: true,
        }),
    };
    let config = CoreConfig {
        geometry: Geometry { chunk_size: 4096, inline_threshold: 512 },
        batcher: BatcherConfig {
            enabled: true,
            window_millis: 5,
            inode_bytes: 1,
            global_bytes: 2,
            txn_max_inodes: 3,
            txn_max_bytes: 4,
        },
        overlay_reads: true,
        drain_on_setattr: false,
        keepcache_delta: true,
        partial_origin: PartialOriginPolicy::default(),
    };
    let plain = AgentFSOptions::default();
    assert!(plain.sync.remote_url.is_none() && plain.core_config.is_none());
    let options = AgentFSOptions::with_path("x.db").with_sync(sync).with_core_config(config);
    let copy = options.clone();
    assert_eq!(copy.path.as_deref(), Some("x.db"));
    assert_eq!(copy.sync.remote_url.as_deref(), Some("libsql://remote"));
    assert!(matches!(
        copy.sync.partial_sync.unwrap().bootstrap_strategy,
        Some(BootstrapStrategy::Prefix { length: 4096 })
    ));
    assert_eq!(options.core_config.unwrap().geometry.chunk_size, 4096);
}

#[test]
fn the_fate_of_a_connection_is_decided_without_the_pool() {
    assert_eq!(Return::of(true, false), Return::Kept);
    assert_eq!(Return::of(true, true), Return::Discarded);
    assert_eq!(Return::of(false, true), Return::Evicted);
}
