//! A bounded pool of database connections: its options and its bookkeeping.
use crate::error::Error;
use crate::file::BASELINE_SYNCHRONOUS_SQL;
use crate::text::strings;
use vstd::prelude::*;

verus! {

/// How many connections a pool lends at once by default.
pub const DEFAULT_MAX_CONNECTIONS: usize = 8;

/// How long a borrower waits by default, in milliseconds.
pub const DEFAULT_TIMEOUT_MILLIS: u64 = 30_000;

/// How many connections to a database file are lent at once.
pub const FILE_BACKED_MAX_CONNECTIONS: usize = 8;

pub const TEMP_STORE_MEMORY_SQL: &'static str = "PRAGMA temp_store = MEMORY";

pub const BUSY_TIMEOUT_SQL: &'static str = "PRAGMA busy_timeout = 5000";

pub const WAL_MODE_SQL: &'static str = "PRAGMA journal_mode = WAL";

/// Options of a pool.
#[derive(Debug, Clone)]
pub struct PoolOptions {
    /// How many connections are lent at once.
    pub max_connections: usize,
    /// How long a borrower waits, in milliseconds.
    pub timeout_millis: u64,
    /// Statements run once on every new connection.
    pub setup_sql: Vec<String>,
}

impl Default for PoolOptions {
    fn default() -> (options: PoolOptions)
        ensures
            options.max_connections == DEFAULT_MAX_CONNECTIONS,
            options.timeout_millis == DEFAULT_TIMEOUT_MILLIS,
            options.setup_sql@ == Seq::<String>::empty(),
    {
        PoolOptions {
            max_connections: DEFAULT_MAX_CONNECTIONS,
            timeout_millis: DEFAULT_TIMEOUT_MILLIS,
            setup_sql: Vec::new(),
        }
    }
}

impl PoolOptions {
    /// Options of a pool that lends one connection at a time.
    pub fn single_connection() -> (options: PoolOptions)
        ensures
            options.max_connections == 1,
            options.timeout_millis == DEFAULT_TIMEOUT_MILLIS,
            options.setup_sql@ == Seq::<String>::empty(),
    {
        let mut options: PoolOptions = PoolOptions::default();
        options.max_connections = 1;
        options
    }

    /// Sets how long a borrower waits, in milliseconds.
    pub fn with_timeout(self, timeout_millis: u64) -> (options: PoolOptions)
        ensures
            options.timeout_millis == timeout_millis,
            options.max_connections == self.max_connections,
            options.setup_sql == self.setup_sql,
    {
        let mut options = self;
        options.timeout_millis = timeout_millis;
        options
    }

    /// Sets the statements run once on every new connection.
    pub fn with_setup_sql(self, setup_sql: Vec<String>) -> (options: PoolOptions)
        ensures
            options.setup_sql == setup_sql,
            options.max_connections == self.max_connections,
            options.timeout_millis == self.timeout_millis,
    {
        let mut options = self;
        options.setup_sql = setup_sql;
        options
    }
}

/// Options for a database file: temporary tables in memory, patience with locks, a
/// write-ahead log and its usual durability.
pub fn file_backed_connection_pool_options() -> (options: PoolOptions)
    ensures
        options.max_connections == FILE_BACKED_MAX_CONNECTIONS,
        options.timeout_millis == DEFAULT_TIMEOUT_MILLIS,
        strings(options.setup_sql@) == seq![
            TEMP_STORE_MEMORY_SQL@,
            BUSY_TIMEOUT_SQL@,
            WAL_MODE_SQL@,
            BASELINE_SYNCHRONOUS_SQL@,
        ],
{
    let mut setup: Vec<String> = Vec::new();
    setup.push(TEMP_STORE_MEMORY_SQL.to_owned());
    setup.push(BUSY_TIMEOUT_SQL.to_owned());
    setup.push(WAL_MODE_SQL.to_owned());
    setup.push(BASELINE_SYNCHRONOUS_SQL.to_owned());
    assert(strings(setup@) =~= seq![
        TEMP_STORE_MEMORY_SQL@,
        BUSY_TIMEOUT_SQL@,
        WAL_MODE_SQL@,
        BASELINE_SYNCHRONOUS_SQL@,
    ]);
    let mut options: PoolOptions = PoolOptions::default().with_setup_sql(setup);
    options.max_connections = FILE_BACKED_MAX_CONNECTIONS;
    options
}

/// Options for a database in memory, which has one connection.
pub fn memory_connection_pool_options() -> (options: PoolOptions)
    ensures
        options.max_connections == 1,
        options.timeout_millis == DEFAULT_TIMEOUT_MILLIS,
        strings(options.setup_sql@) == seq![TEMP_STORE_MEMORY_SQL@],
{
    let mut setup: Vec<String> = Vec::new();
    setup.push(TEMP_STORE_MEMORY_SQL.to_owned());
    assert(strings(setup@) =~= seq![TEMP_STORE_MEMORY_SQL@]);
    PoolOptions::single_connection().with_setup_sql(setup)
}

/// How a borrower gets its connection.
#[derive(Debug, Clone, Copy, PartialEq, Eq, Structural)]
pub enum Lease {
    /// An idle connection, by its number.
    Reuse(u64),
    /// A new connection, to be set up.
    Create,
}

/// What becomes of a connection that is given back.
#[derive(Debug, Clone, Copy, PartialEq, Eq, Structural)]
pub enum Return {
    /// It waits for the next borrower.
    Kept,
    /// It failed and is closed.
    Evicted,
    /// The pool was busy, so it is closed.
    Discarded,
}

/// What becomes of a connection: one that failed is not lent again, nor is one given back while
/// the pool is busy.
pub open spec fn fate_of(healthy: bool, busy: bool) -> Return {
    if !healthy {
        Return::Evicted
    } else if busy {
        Return::Discarded
    } else {
        Return::Kept
    }
}

impl Return {
    /// What becomes of a connection.
    pub fn of(healthy: bool, busy: bool) -> (fate: Return)
        ensures
            fate == fate_of(healthy, busy),
    {
        if !healthy {
            Return::Evicted
        } else if busy {
            Return::Discarded
        } else {
            Return::Kept
        }
    }
}

/// Which connections are lent and which are idle.
#[derive(Debug)]
pub struct ConnectionPool {
    pub limit: usize,
    pub lent: usize,
    /// Idle connections by number. The one given back last is lent first.
    pub idle: Vec<u64>,
}

impl ConnectionPool {
    /// Never more connections than the limit, lent and idle together.
    pub open spec fn wf(self) -> bool {
        &&& 0 < self.limit
        &&& self.lent + self.idle@.len() <= self.limit
    }

    /// An empty pool. A limit of zero counts as one.
    pub fn with_options(options: &PoolOptions) -> (pool: ConnectionPool)
        ensures
            pool.wf(),
            pool.limit == if options.max_connections == 0 {
                1
            } else {
                options.max_connections
            },
            pool.lent == 0,
            pool.idle@.len() == 0,
    {
        let limit: usize = if options.max_connections == 0 {
            1
        } else {
            options.max_connections
        };
        ConnectionPool { limit, lent: 0, idle: Vec::new() }
    }

    /// Lends a connection, if fewer than the limit are lent. Otherwise the borrower waits.
    pub fn try_lend(&mut self) -> (lease: Option<Lease>)
        requires
            old(self).wf(),
        ensures
            final(self).wf(),
            final(self).limit == old(self).limit,
            lease is None <==> old(self).lent == old(self).limit,
            lease is None ==> *final(self) == *old(self),
            lease is Some ==> final(self).lent == old(self).lent + 1,
            lease matches Some(Lease::Create) ==> old(self).idle@.len() == 0
                && final(self).idle@ == old(self).idle@,
            lease matches Some(Lease::Reuse(number)) ==> old(self).idle@.len() > 0 && number
                == old(self).idle@.last() && final(self).idle@ == old(self).idle@.drop_last(),
    {
        if self.lent == self.limit {
            return None;
        }
        self.lent = self.lent + 1;
        match self.idle.pop() {
            Some(number) => Some(Lease::Reuse(number)),
            None => Some(Lease::Create),
        }
    }

    /// What a borrower is told that waited too long.
    pub fn timed_out() -> (error: Error)
        ensures
            error == Error::ConnectionPoolTimeout,
    {
        Error::ConnectionPoolTimeout
    }

    /// Takes note that a new connection could not be made.
    pub fn not_created(&mut self)
        requires
            old(self).wf(),
            old(self).lent > 0,
        ensures
            final(self).wf(),
            final(self).limit == old(self).limit,
            final(self).lent == old(self).lent - 1,
            final(self).idle@ == old(self).idle@,
    {
        self.lent = self.lent - 1;
    }

    /// Takes a connection back. One that failed is not lent again, nor is one given back
    /// while the pool is busy.
    pub fn give_back(&mut self, number: u64, healthy: bool, busy: bool) -> (fate: Return)
        requires
            old(self).wf(),
            old(self).lent > 0,
        ensures
            final(self).wf(),
            final(self).limit == old(self).limit,
            final(self).lent == old(self).lent - 1,
            fate == fate_of(healthy, busy),
            final(self).idle@ == if fate is Kept {
                old(self).idle@.push(number)
            } else {
                old(self).idle@
            },
    {
        self.lent = self.lent - 1;
        let fate: Return = Return::of(healthy, busy);
        if fate == Return::Kept {
            self.idle.push(number);
        }
        fate
    }
}

/// The path of a file that the database keeps beside its own.
pub fn sqlite_sidecar_path(path: &str, suffix: &str) -> (sidecar: String)
    ensures
        sidecar@ == path@ + suffix@,
{
    let mut sidecar: String = path.to_owned();
    sidecar.append(suffix);
    sidecar
}

/// The files beside a database that may go once its log is checkpointed: an empty log and
/// the shared memory, as far as they are there.
pub fn removable_sidecars(path: &str, wal_size: Option<u64>, shm_present: bool) -> (files: Vec<
    String,
>)
    ensures
        strings(files@) == (if wal_size == Some(0u64) {
            seq![path@ + "-wal"@]
        } else {
            Seq::<Seq<char>>::empty()
        }) + (if shm_present {
            seq![path@ + "-shm"@]
        } else {
            Seq::<Seq<char>>::empty()
        }),
{
    let mut files: Vec<String> = Vec::new();
    if let Some(size) = wal_size {
        if size == 0 {
            files.push(sqlite_sidecar_path(path, "-wal"));
        }
    }
    if shm_present {
        files.push(sqlite_sidecar_path(path, "-shm"));
    }
    assert(strings(files@) =~= (if wal_size == Some(0u64) {
        seq![path@ + "-wal"@]
    } else {
        Seq::<Seq<char>>::empty()
    }) + (if shm_present {
        seq![path@ + "-shm"@]
    } else {
        Seq::<Seq<char>>::empty()
    }));
    files
}

} // verus!
