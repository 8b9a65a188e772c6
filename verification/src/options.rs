//! Options for opening a filesystem, and how a database is found.
use crate::config::CoreConfig;
use crate::error::Error;
use crate::path::{components, scan};
use crate::text::{chars_of, contains_char, same_text};
use vstd::prelude::*;

verus! {

/// Directory of the databases of agents.
pub fn agentfs_dir() -> (dir: &'static str)
    ensures
        dir@ == ".agentfs"@,
{
    ".agentfs"
}

/// Letters and digits of all scripts.
pub uninterp spec fn alphanumeric(c: char) -> bool;

/// `char::is_alphanumeric`: whether a character is alphabetic or numeric in the sense of
/// Unicode. Of the ASCII characters, these are the letters and the digits.
#[verifier::external_body]
fn is_alphanumeric(c: char) -> (yes: bool)
    ensures
        yes == alphanumeric(c),
        c < '\u{80}' ==> yes == ('0' <= c <= '9' || 'A' <= c <= 'Z' || 'a' <= c <= 'z'),
{
    c.is_alphanumeric()
}

/// Whether a character may stand in the name of an agent.
pub open spec fn id_char(c: char) -> bool {
    alphanumeric(c) || c == '-' || c == '_'
}

/// Whether a text names an agent.
pub open spec fn valid_id(id: Seq<char>) -> bool {
    id.len() > 0 && forall|i: int| 0 <= i < id.len() ==> id_char(#[trigger] id[i])
}

/// Which part of a remote database is fetched first.
#[derive(Debug, Clone)]
pub enum BootstrapStrategy {
    /// So many bytes of it, from the start.
    Prefix { length: usize },
    /// The pages that a query reads.
    Query { query: String },
}

/// How a remote database is fetched in parts.
#[derive(Debug, Clone)]
pub struct PartialSync {
    pub bootstrap_strategy: Option<BootstrapStrategy>,
    /// The size of a part. Zero stands for the usual one.
    pub segment_size: usize,
    /// Whether parts are fetched that will soon be needed.
    pub prefetch: bool,
}

/// Synchronisation with a remote database.
#[derive(Debug, Clone, Default)]
pub struct SyncOptions {
    /// Where the remote database is.
    pub remote_url: Option<String>,
    /// The token that gives access to it.
    pub auth_token: Option<String>,
    pub partial_sync: Option<PartialSync>,
}

/// Encryption of a database at rest.
#[derive(Debug, Clone)]
pub struct EncryptionConfig {
    /// The key, in hexadecimal.
    pub hex_key: String,
    /// The cipher.
    pub cipher: String,
}

/// Where the database of a filesystem is.
#[derive(Debug)]
pub enum DbPath {
    /// In memory.
    Memory,
    /// At a path that the caller gave.
    Given(String),
    /// At a path in the directory of agents, which is made if it is missing.
    Agent(String),
}

/// Options for opening a filesystem.
#[derive(Debug, Clone, Default)]
pub struct AgentFSOptions {
    /// The agent, whose database is kept.
    pub id: Option<String>,
    /// The path of the database, which prevails over the agent.
    pub path: Option<String>,
    /// The directory that the filesystem lies over.
    pub base: Option<String>,
    pub sync: SyncOptions,
    pub encryption: Option<EncryptionConfig>,
    /// How the filesystem behaves. Without it the environment decides.
    pub core_config: Option<CoreConfig>,
}

/// Nothing is synchronised.
pub open spec fn no_sync() -> SyncOptions {
    SyncOptions { remote_url: None, auth_token: None, partial_sync: None }
}

/// The path of the database of an agent.
pub open spec fn agent_db(id: Seq<char>) -> Seq<char> {
    ".agentfs"@ + "/"@ + id + ".db"@
}

/// The path of the database of an agent.
pub fn agent_db_path(id: &str) -> (path: String)
    ensures
        path@ == agent_db(id@),
{
    let mut path: String = agentfs_dir().to_owned();
    path.append("/");
    path.append(id);
    path.append(".db");
    path
}

/// Whether a text has the form of a path: with a separator, or with an extension, which is
/// what follows a dot that is not the first character.
pub open spec fn path_shaped(text: Seq<char>) -> bool {
    ||| text.contains('/')
    ||| text != ".."@ && exists|i: int| 0 < i < text.len() && text[i] == '.'
}

fn has_path_shape(text: &str) -> (yes: bool)
    ensures
        yes == path_shaped(text@),
{
    if contains_char(text, '/') {
        return true;
    }
    if same_text(text, "..") {
        return false;
    }
    let chars: Vec<char> = chars_of(text);
    let len: usize = chars.len();
    let mut i: usize = 1;
    while i < len
        invariant
            len == chars@.len(),
            1 <= i,
            chars@ == text@,
            text@ != ".."@,
            forall|k: int| 0 < k < i && k < len ==> text@[k] != '.',
        decreases len - i,
    {
        if chars[i] == '.' {
            assert(text@[i as int] == '.');
            return true;
        }
        i += 1;
    }
    false
}

impl AgentFSOptions {
    /// No option but those given.
    pub open spec fn plain(self, id: Option<Seq<char>>, path: Option<Seq<char>>) -> bool {
        &&& match (self.id, id) {
            (Some(found), Some(wanted)) => found@ == wanted,
            (None, None) => true,
            _ => false,
        }
        &&& match (self.path, path) {
            (Some(found), Some(wanted)) => found@ == wanted,
            (None, None) => true,
            _ => false,
        }
        &&& self.base is None
        &&& self.sync == no_sync()
        &&& self.encryption is None
        &&& self.core_config is None
    }

    /// Whether a text names an agent: letters, digits, hyphens and underscores, and at least
    /// one of them.
    pub fn validate_agent_id(id: &str) -> (valid: bool)
        ensures
            valid == valid_id(id@),
            valid ==> !id@.contains('/') && !id@.contains('.'),
    {
        let chars: Vec<char> = chars_of(id);
        if chars.len() == 0 {
            return false;
        }
        let mut i: usize = 0;
        while i < chars.len()
            invariant
                i <= chars@.len(),
                chars@ == id@,
                forall|k: int|
                    0 <= k < i ==> id_char(#[trigger] id@[k]) && id@[k] != '/' && id@[k] != '.',
            decreases chars@.len() - i,
        {
            let c: char = chars[i];
            if !(is_alphanumeric(c) || c == '-' || c == '_') {
                assert(!id_char(id@[i as int]));
                return false;
            }
            i += 1;
        }
        true
    }

    /// Where the database is: at the path if one is given, else under the name of the agent
    /// if there is one, else in memory.
    pub fn db_path(&self) -> (result: Result<DbPath, Error>)
        ensures
            match (self.path, self.id) {
                (Some(path), _) => if path@ == ":memory:"@ {
                    result matches Ok(DbPath::Memory)
                } else {
                    result matches Ok(DbPath::Given(found)) && found@ == path@
                },
                (None, Some(id)) => if valid_id(id@) {
                    result matches Ok(DbPath::Agent(found)) && found@ == agent_db(id@)
                } else {
                    result matches Err(Error::InvalidAgentId(found)) && found@ == id@
                },
                (None, None) => result matches Ok(DbPath::Memory),
            },
    {
        if let Some(path) = &self.path {
            if same_text(path.as_str(), ":memory:") {
                return Ok(DbPath::Memory);
            }
            return Ok(DbPath::Given(path.clone()));
        }
        if let Some(id) = &self.id {
            if !AgentFSOptions::validate_agent_id(id.as_str()) {
                return Err(Error::InvalidAgentId(id.clone()));
            }
            return Ok(DbPath::Agent(agent_db_path(id.as_str())));
        }
        Ok(DbPath::Memory)
    }

    /// Options for an agent whose database is kept.
    pub fn with_id(id: &str) -> (options: AgentFSOptions)
        ensures
            options.plain(Some(id@), None),
    {
        AgentFSOptions { id: Some(id.to_owned()), ..AgentFSOptions::ephemeral() }
    }

    /// Options for a database in memory.
    pub fn ephemeral() -> (options: AgentFSOptions)
        ensures
            options.plain(None, None),
    {
        AgentFSOptions {
            id: None,
            path: None,
            base: None,
            sync: SyncOptions { remote_url: None, auth_token: None, partial_sync: None },
            encryption: None,
            core_config: None,
        }
    }

    /// Options for a database at a path.
    pub fn with_path(path: &str) -> (options: AgentFSOptions)
        ensures
            options.plain(None, Some(path@)),
    {
        AgentFSOptions { path: Some(path.to_owned()), ..AgentFSOptions::ephemeral() }
    }

    /// Sets the synchronisation with a remote database.
    pub fn with_sync(self, sync: SyncOptions) -> (options: AgentFSOptions)
        ensures
            options == (AgentFSOptions { sync, ..self }),
    {
        let mut options = self;
        options.sync = sync;
        options
    }

    /// Sets how the filesystem behaves.
    pub fn with_core_config(self, core_config: CoreConfig) -> (options: AgentFSOptions)
        ensures
            options == (AgentFSOptions { core_config: Some(core_config), ..self }),
    {
        let mut options = self;
        options.core_config = Some(core_config);
        options
    }

    /// Sets the directory that the filesystem lies over.
    pub fn with_base(self, base: &str) -> (options: AgentFSOptions)
        ensures
            options.base matches Some(found) && found@ == base@,
            options == (AgentFSOptions { base: options.base, ..self }),
    {
        let mut options = self;
        options.base = Some(base.to_owned());
        options
    }

    /// Sets the key and the cipher of the database.
    pub fn with_encryption_key(self, hex_key: &str, cipher: &str) -> (options: AgentFSOptions)
        ensures
            options.encryption matches Some(found) && found.hex_key@ == hex_key@ && found.cipher@
                == cipher@,
            options == (AgentFSOptions { encryption: options.encryption, ..self }),
    {
        let mut options = self;
        options.encryption =
        Some(EncryptionConfig { hex_key: hex_key.to_owned(), cipher: cipher.to_owned() });
        options
    }

    /// Sets the encryption of the database.
    pub fn with_encryption(self, encryption: EncryptionConfig) -> (options: AgentFSOptions)
        ensures
            options == (AgentFSOptions { encryption: Some(encryption), ..self }),
    {
        let mut options = self;
        options.encryption = Some(encryption);
        options
    }

    /// Options for an agent or a path. `agent_exists` says whether the database of an agent
    /// of this name is there, `file_exists` whether there is a file at this path. An agent
    /// prevails over a file.
    pub fn resolve(id_or_path: &str, agent_exists: bool, file_exists: bool) -> (result: Result<
        AgentFSOptions,
        Error,
    >)
        ensures
            if id_or_path@ == ":memory:"@ {
                result matches Ok(options) && options.plain(None, None)
            } else if valid_id(id_or_path@) && agent_exists {
                result matches Ok(options) && options.plain(None, Some(agent_db(id_or_path@)))
            } else if file_exists {
                result matches Ok(options) && options.plain(None, Some(id_or_path@))
            } else if valid_id(id_or_path@) {
                result matches Err(Error::AgentNotFound { id, path }) && id@ == id_or_path@
                    && path@ == agent_db(id_or_path@)
            } else if path_shaped(id_or_path@) {
                result matches Err(Error::DatabaseNotFound(path)) && path@ == id_or_path@
            } else {
                result matches Err(Error::InvalidAgentId(id)) && id@ == id_or_path@
            },
    {
        if same_text(id_or_path, ":memory:") {
            return Ok(AgentFSOptions::ephemeral());
        }
        let valid: bool = AgentFSOptions::validate_agent_id(id_or_path);
        if valid && agent_exists {
            let path: String = agent_db_path(id_or_path);
            return Ok(AgentFSOptions::with_path(path.as_str()));
        }
        if file_exists {
            Ok(AgentFSOptions::with_path(id_or_path))
        } else if valid {
            Err(
                Error::AgentNotFound {
                    id: id_or_path.to_owned(),
                    path: agent_db_path(id_or_path),
                },
            )
        } else if has_path_shape(id_or_path) {
            Err(Error::DatabaseNotFound(id_or_path.to_owned()))
        } else {
            Err(Error::InvalidAgentId(id_or_path.to_owned()))
        }
    }
}

proof fn lemma_scan_extends(before: Seq<char>, part: Seq<char>)
    requires
        !part.contains('/'),
    ensures
        scan(before + part) == (scan(before).0, scan(before).1 + part),
    decreases part.len(),
{
    if part.len() == 0 {
        assert(before + part =~= before);
        assert(scan(before).1 + part =~= scan(before).1);
    } else {
        let rest = part.drop_last();
        assert(!rest.contains('/')) by {
            if rest.contains('/') {
                let i = rest.index_of('/');
                assert(part[i] == '/');
            }
        }
        lemma_scan_extends(before, rest);
        let whole = before + part;
        assert(whole.drop_last() =~= before + rest);
        assert(whole.last() == part.last());
        assert(part[part.len() - 1] != '/');
        assert(scan(before).1 + rest.push(part.last()) =~= scan(before).1 + part);
        assert((scan(before).1 + rest).push(part.last()) =~= scan(before).1 + part);
    }
}

/// The database of an agent lies in the directory of agents, whatever the agent is called.
pub proof fn agent_databases_lie_in_their_directory(id: Seq<char>)
    requires
        !id.contains('/'),
    ensures
        components(agent_db(id)) == seq![".agentfs"@, id + ".db"@],
{
    reveal_strlit(".agentfs");
    reveal_strlit("/");
    reveal_strlit(".db");
    let dir = ".agentfs"@;
    let name = id + ".db"@;
    assert(!dir.contains('/'));
    assert(!name.contains('/')) by {
        if name.contains('/') {
            let i = name.index_of('/');
            assert(name[i] == '/');
            if i < id.len() {
                assert(id[i] == '/');
            }
        }
    }
    let none = Seq::<char>::empty();
    lemma_scan_extends(none, dir);
    assert(none + dir =~= dir);
    assert(scan(none).1 + dir =~= dir);
    let slash = dir + "/"@;
    assert(slash.drop_last() =~= dir);
    assert(scan(slash).0 =~= seq![dir]);
    lemma_scan_extends(slash, name);
    assert(scan(slash).1 + name =~= name);
    assert(slash + name =~= agent_db(id));
    assert(components(agent_db(id)) =~= seq![dir, name]);
}

} // verus!
