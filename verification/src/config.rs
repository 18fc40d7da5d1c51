//! Configuration: the sections of the configuration file, how environment
//! overrides, file values and defaults combine into the running
//! configuration, and how a new embedding section is merged into a file.

use vstd::prelude::*;
use crate::paths::{join_path, spec_join};
use crate::text::{chars_of, decimal, push_decimal, push_str, string_of, parse_bounded, parse_u16, parse_usize, trim, trim_chars};

verus! {

/// Embedding API used when none is configured.
pub const DEFAULT_EMBEDDING_BASE_URL: &'static str = "https://api.deepinfra.com/v1/openai";

/// Embedding model used when none is configured.
pub const DEFAULT_EMBEDDING_MODEL: &'static str = "Qwen/Qwen3-Embedding-0.6B";

/// Vector dimension used when none is configured.
pub const DEFAULT_EMBEDDING_DIMENSION: usize = 1024;

/// Address the server listens on when none is configured.
pub const DEFAULT_SERVER_HOST: &'static str = "127.0.0.1";

/// Port the server listens on when none is configured.
pub const DEFAULT_SERVER_PORT: u16 = 7878;

/// Where the database lives.
#[derive(Debug, Clone)]
pub struct DatabaseConfig {
    pub path: String,
}

/// How embeddings are computed.
#[derive(Debug, Clone)]
pub struct EmbeddingConfig {
    pub api_key: String,
    pub base_url: String,
    pub model: String,
    pub dimension: usize,
}

/// Where the HTTP server listens.
#[derive(Debug, Clone)]
pub struct ServerConfig {
    pub host: String,
    pub port: u16,
}

/// The embedding settings already on file, blank values left out.
#[derive(Debug, Clone)]
pub struct EmbeddingDraft {
    pub api_key: Option<String>,
    pub base_url: Option<String>,
    pub model: Option<String>,
    pub dimension: Option<usize>,
}

/// The `[database]` section of the configuration file.
#[derive(Debug, Clone)]
pub struct DbFileConfig {
    pub path: Option<String>,
}

/// The `[embedding]` section of the configuration file.
#[derive(Debug, Clone)]
pub struct EmbeddingFileConfig {
    pub api_key: Option<String>,
    pub base_url: Option<String>,
    pub model: Option<String>,
    pub dimension: Option<usize>,
}

/// The `[server]` section of the configuration file.
#[derive(Debug, Clone)]
pub struct ServerFileConfig {
    pub host: Option<String>,
    pub port: Option<u16>,
}

/// The configuration file; every section is optional. The `[search]`
/// section is carried as `S`, untouched by the rules here.
#[derive(Debug, Clone)]
pub struct ConfigFile<S> {
    pub database: Option<DbFileConfig>,
    pub embedding: Option<EmbeddingFileConfig>,
    pub server: Option<ServerFileConfig>,
    pub search: Option<S>,
}

/// The values of the environment variables that override the file:
/// `EMBEDDING_API_KEY`, `DATABASE_PATH`, `EMBEDDING_BASE_URL`,
/// `EMBEDDING_MODEL`, `EMBEDDING_DIMENSION`, `SERVER_HOST`, `SERVER_PORT`.
#[derive(Debug, Clone)]
pub struct EnvOverrides {
    pub embedding_api_key: Option<String>,
    pub database_path: Option<String>,
    pub embedding_base_url: Option<String>,
    pub embedding_model: Option<String>,
    pub embedding_dimension: Option<String>,
    pub server_host: Option<String>,
    pub server_port: Option<String>,
}

/// The database, embedding and server settings in force.
#[derive(Debug, Clone)]
pub struct ResolvedConfig {
    pub database: DatabaseConfig,
    pub embedding: EmbeddingConfig,
    pub server: ServerConfig,
}

/// Why the configuration cannot be resolved.
#[derive(Debug, Clone, Copy, PartialEq, Eq, Structural)]
pub enum ConfigError {
    /// No non-blank API key in the environment or the file.
    MissingApiKey,
    /// `EMBEDDING_DIMENSION` is not a valid `usize`.
    InvalidEmbeddingDimension,
    /// `SERVER_PORT` is not a valid `u16`.
    InvalidServerPort,
}

/// Whether `s` holds something besides white space.
pub open spec fn non_blank(s: Seq<char>) -> bool {
    trim(s).len() > 0
}

/// The view of an optional string.
pub open spec fn opt_str(o: Option<String>) -> Option<Seq<char>> {
    match o {
        None => None,
        Some(s) => Some(s@),
    }
}

/// The environment value if set, otherwise the file value if set,
/// otherwise `default`.
pub open spec fn spec_env_or(
    env_val: Option<String>,
    file_val: Option<String>,
    default: Seq<char>,
) -> Seq<char> {
    match env_val {
        Some(e) => e@,
        None => match file_val {
            Some(f) => f@,
            None => default,
        },
    }
}

/// The API key: the environment value if set, otherwise the file value; it
/// must not be blank.
pub open spec fn spec_api_key(env_val: Option<String>, file_val: Option<String>) -> Option<
    Seq<char>,
> {
    let chosen = match env_val {
        Some(e) => Some(e),
        None => file_val,
    };
    match chosen {
        Some(k) => if non_blank(k@) {
            Some(k@)
        } else {
            None
        },
        None => None,
    }
}

/// Whether `s` holds something besides white space.
pub fn is_non_blank(s: &str) -> (r: bool)
    ensures
        r == non_blank(s@),
{
    let cs = chars_of(s);
    let t = trim_chars(&cs);
    t.len() > 0
}

/// The environment value if set, otherwise the file value if set,
/// otherwise `default`.
pub fn env_or(env_val: Option<String>, file_val: Option<String>, default: &str) -> (r: String)
    ensures
        r@ == spec_env_or(env_val, file_val, default@),
{
    match env_val {
        Some(e) => e,
        None => match file_val {
            Some(f) => f,
            None => default.to_owned(),
        },
    }
}

/// A count from the environment when set (it must then parse), otherwise
/// from the file, otherwise `default`.
pub fn env_or_usize(env_val: Option<String>, file_val: Option<usize>, default: usize) -> (r:
    Option<usize>)
    ensures
        match env_val {
            Some(e) => match r {
                Some(x) => parse_bounded(e@, usize::MAX as nat) == Some(x as nat),
                None => parse_bounded(e@, usize::MAX as nat) is None,
            },
            None => r == Some(
                match file_val {
                    Some(f) => f,
                    None => default,
                },
            ),
        },
{
    match env_val {
        Some(e) => parse_usize(e.as_str()),
        None => Some(
            match file_val {
                Some(f) => f,
                None => default,
            },
        ),
    }
}

/// A port from the environment when set (it must then parse), otherwise
/// from the file, otherwise `default`.
pub fn env_or_u16(env_val: Option<String>, file_val: Option<u16>, default: u16) -> (r: Option<
    u16,
>)
    ensures
        match env_val {
            Some(e) => match r {
                Some(x) => parse_bounded(e@, u16::MAX as nat) == Some(x as nat),
                None => parse_bounded(e@, u16::MAX as nat) is None,
            },
            None => r == Some(
                match file_val {
                    Some(f) => f,
                    None => default,
                },
            ),
        },
{
    match env_val {
        Some(e) => parse_u16(e.as_str()),
        None => Some(
            match file_val {
                Some(f) => f,
                None => default,
            },
        ),
    }
}

/// The `[embedding]` section, empty when absent.
pub open spec fn embedding_section<S>(file: ConfigFile<S>) -> EmbeddingFileConfig {
    match file.embedding {
        Some(e) => e,
        None => EmbeddingFileConfig { api_key: None, base_url: None, model: None, dimension: None },
    }
}

/// The `[server]` section, empty when absent.
pub open spec fn server_section<S>(file: ConfigFile<S>) -> ServerFileConfig {
    match file.server {
        Some(s) => s,
        None => ServerFileConfig { host: None, port: None },
    }
}

/// The database path in the file, if any.
pub open spec fn file_db_path<S>(file: ConfigFile<S>) -> Option<String> {
    match file.database {
        Some(d) => d.path,
        None => None,
    }
}

/// Combines the environment, the file and the defaults into the settings in
/// force. The API key must come, non-blank, from `EMBEDDING_API_KEY` or the
/// file; a set `EMBEDDING_DIMENSION` or `SERVER_PORT` must parse. Every other
/// value is the environment's, else the file's, else the default; the
/// database defaults to `memory.db` under `memx_dir`.
pub fn resolve_config<S>(file: ConfigFile<S>, env: EnvOverrides, memx_dir: &str, windows: bool) -> (r: Result<
    ResolvedConfig,
    ConfigError,
>)
    ensures
        spec_api_key(env.embedding_api_key, embedding_section(file).api_key) is None ==> r
            == Err::<ResolvedConfig, ConfigError>(ConfigError::MissingApiKey),
        spec_api_key(env.embedding_api_key, embedding_section(file).api_key) is Some && (
        env.embedding_dimension matches Some(d) && parse_bounded(d@, usize::MAX as nat) is None)
            ==> r == Err::<ResolvedConfig, ConfigError>(ConfigError::InvalidEmbeddingDimension),
        spec_api_key(env.embedding_api_key, embedding_section(file).api_key) is Some && !(
        env.embedding_dimension matches Some(d) && parse_bounded(d@, usize::MAX as nat) is None)
            && (env.server_port matches Some(p) && parse_bounded(p@, u16::MAX as nat) is None)
            ==> r == Err::<ResolvedConfig, ConfigError>(ConfigError::InvalidServerPort),
        r matches Ok(c) ==> {
            &&& spec_api_key(env.embedding_api_key, embedding_section(file).api_key) == Some(
                c.embedding.api_key@,
            )
            &&& c.database.path@ == spec_env_or(
                env.database_path,
                file_db_path(file),
                spec_join(memx_dir@, "memory.db"@, windows),
            )
            &&& c.embedding.base_url@ == spec_env_or(
                env.embedding_base_url,
                embedding_section(file).base_url,
                DEFAULT_EMBEDDING_BASE_URL@,
            )
            &&& c.embedding.model@ == spec_env_or(
                env.embedding_model,
                embedding_section(file).model,
                DEFAULT_EMBEDDING_MODEL@,
            )
            &&& c.embedding.dimension as nat == match env.embedding_dimension {
                Some(d) => parse_bounded(d@, usize::MAX as nat)->0,
                None => match embedding_section(file).dimension {
                    Some(f) => f as nat,
                    None => DEFAULT_EMBEDDING_DIMENSION as nat,
                },
            }
            &&& c.server.host@ == spec_env_or(
                env.server_host,
                server_section(file).host,
                DEFAULT_SERVER_HOST@,
            )
            &&& c.server.port as nat == match env.server_port {
                Some(p) => parse_bounded(p@, u16::MAX as nat)->0,
                None => match server_section(file).port {
                    Some(f) => f as nat,
                    None => DEFAULT_SERVER_PORT as nat,
                },
            }
        },
        r is Ok <==> (spec_api_key(env.embedding_api_key, embedding_section(file).api_key) is Some
            && !(env.embedding_dimension matches Some(d) && parse_bounded(d@, usize::MAX as nat)
            is None) && !(env.server_port matches Some(p) && parse_bounded(p@, u16::MAX as nat)
            is None)),
{
    let ghost gfile = file;
    let (db_file, embed_file, server_file) = (file.database, file.embedding, file.server);
    let embed_file = match embed_file {
        Some(e) => e,
        None => EmbeddingFileConfig { api_key: None, base_url: None, model: None, dimension: None },
    };
    let server_file = match server_file {
        Some(s) => s,
        None => ServerFileConfig { host: None, port: None },
    };
    let db_path = match db_file {
        Some(d) => d.path,
        None => None,
    };
    assert(embed_file == embedding_section(gfile));
    assert(server_file == server_section(gfile));
    assert(db_path == file_db_path(gfile));
    let default_db = join_path(memx_dir, "memory.db", windows);
    let chosen_key = match env.embedding_api_key {
        Some(k) => Some(k),
        None => embed_file.api_key,
    };
    let api_key = match chosen_key {
        Some(k) => if is_non_blank(k.as_str()) {
            k
        } else {
            return Err(ConfigError::MissingApiKey);
        },
        None => {
            return Err(ConfigError::MissingApiKey);
        },
    };
    let database = DatabaseConfig { path: env_or(env.database_path, db_path, default_db.as_str()) };
    let base_url = env_or(env.embedding_base_url, embed_file.base_url, DEFAULT_EMBEDDING_BASE_URL);
    let model = env_or(env.embedding_model, embed_file.model, DEFAULT_EMBEDDING_MODEL);
    let dimension = match env_or_usize(
        env.embedding_dimension,
        embed_file.dimension,
        DEFAULT_EMBEDDING_DIMENSION,
    ) {
        Some(d) => d,
        None => {
            return Err(ConfigError::InvalidEmbeddingDimension);
        },
    };
    let host = env_or(env.server_host, server_file.host, DEFAULT_SERVER_HOST);
    let port = match env_or_u16(env.server_port, server_file.port, DEFAULT_SERVER_PORT) {
        Some(p) => p,
        None => {
            return Err(ConfigError::InvalidServerPort);
        },
    };
    Ok(
        ResolvedConfig {
            database,
            embedding: EmbeddingConfig { api_key, base_url, model, dimension },
            server: ServerConfig { host, port },
        },
    )
}


/// A host value after merging: the file's host if set, otherwise the
/// default host.
pub open spec fn merged_host(h: Option<String>) -> Seq<char> {
    match h {
        Some(x) => x@,
        None => DEFAULT_SERVER_HOST@,
    }
}

/// Replaces the file's `[embedding]` section with `embedding`, and fills the
/// `[server]` host and port with their defaults where the file has none
/// (creating the section when absent). The database and search sections are
/// kept as they are.
pub fn merge_embedding_config<S>(file: ConfigFile<S>, embedding: &EmbeddingConfig) -> (r:
    ConfigFile<S>)
    ensures
        r.database == file.database,
        r.search == file.search,
        r.embedding == Some(
            EmbeddingFileConfig {
                api_key: Some(embedding.api_key),
                base_url: Some(embedding.base_url),
                model: Some(embedding.model),
                dimension: Some(embedding.dimension),
            },
        ),
        r.server matches Some(sv) && sv.host matches Some(h) && h@ == merged_host(
            server_section(file).host,
        ) && sv.port == Some(
            match server_section(file).port {
                Some(p) => p,
                None => DEFAULT_SERVER_PORT,
            },
        ),
        server_section(file).host matches Some(h0) ==> r.server->0.host == Some(h0),
{
    let ConfigFile { database, embedding: _, server, search } = file;
    let new_embedding = EmbeddingFileConfig {
        api_key: Some(embedding.api_key.clone()),
        base_url: Some(embedding.base_url.clone()),
        model: Some(embedding.model.clone()),
        dimension: Some(embedding.dimension),
    };
    let new_server = match server {
        Some(sv) => {
            let host = match sv.host {
                Some(h) => Some(h),
                None => Some(DEFAULT_SERVER_HOST.to_owned()),
            };
            let port = match sv.port {
                Some(p) => Some(p),
                None => Some(DEFAULT_SERVER_PORT),
            };
            ServerFileConfig { host, port }
        },
        None => ServerFileConfig {
            host: Some(DEFAULT_SERVER_HOST.to_owned()),
            port: Some(DEFAULT_SERVER_PORT),
        },
    };
    ConfigFile { database, embedding: Some(new_embedding), server: Some(new_server), search }
}

/// A file value with blank text left out.
pub open spec fn non_blank_opt(o: Option<String>) -> Option<String> {
    match o {
        Some(s) => if non_blank(s@) {
            Some(s)
        } else {
            None
        },
        None => None,
    }
}

fn keep_non_blank(o: Option<String>) -> (r: Option<String>)
    ensures
        r == non_blank_opt(o),
{
    match o {
        Some(s) => if is_non_blank(s.as_str()) {
            Some(s)
        } else {
            None
        },
        None => None,
    }
}

/// The embedding settings on file, with blank API key, base URL and model
/// left out.
pub fn embedding_draft<S>(file: &ConfigFile<S>) -> (r: EmbeddingDraft)
    ensures
        r.api_key == non_blank_opt(embedding_section(*file).api_key),
        r.base_url == non_blank_opt(embedding_section(*file).base_url),
        r.model == non_blank_opt(embedding_section(*file).model),
        r.dimension == embedding_section(*file).dimension,
{
    match &file.embedding {
        Some(e) => EmbeddingDraft {
            api_key: keep_non_blank(e.api_key.clone()),
            base_url: keep_non_blank(e.base_url.clone()),
            model: keep_non_blank(e.model.clone()),
            dimension: e.dimension,
        },
        None => EmbeddingDraft { api_key: None, base_url: None, model: None, dimension: None },
    }
}

/// Law: after an embedding section is merged into the file, both reading
/// the draft back and resolving the configuration (with no embedding
/// overrides in the environment) give exactly the merged values, provided
/// the API key, base URL and model are not blank.
pub proof fn law_merged_embedding_reads_back<S>(
    merged: ConfigFile<S>,
    embedding: EmbeddingConfig,
    env: EnvOverrides,
)
    requires
        merged.embedding == Some(
            EmbeddingFileConfig {
                api_key: Some(embedding.api_key),
                base_url: Some(embedding.base_url),
                model: Some(embedding.model),
                dimension: Some(embedding.dimension),
            },
        ),
        non_blank(embedding.api_key@),
        non_blank(embedding.base_url@),
        non_blank(embedding.model@),
        env.embedding_api_key is None,
        env.embedding_base_url is None,
        env.embedding_model is None,
        env.embedding_dimension is None,
    ensures
        non_blank_opt(embedding_section(merged).api_key) == Some(embedding.api_key),
        non_blank_opt(embedding_section(merged).base_url) == Some(embedding.base_url),
        non_blank_opt(embedding_section(merged).model) == Some(embedding.model),
        embedding_section(merged).dimension == Some(embedding.dimension),
        spec_api_key(env.embedding_api_key, embedding_section(merged).api_key) == Some(
            embedding.api_key@,
        ),
        spec_env_or(env.embedding_base_url, embedding_section(merged).base_url, DEFAULT_EMBEDDING_BASE_URL@)
            == embedding.base_url@,
        spec_env_or(env.embedding_model, embedding_section(merged).model, DEFAULT_EMBEDDING_MODEL@)
            == embedding.model@,
{
}


// ── Where the configuration file is written ────────────────────────────────

/// Where a new configuration was written, and where the one it replaced
/// was kept, if there was one.
#[derive(Debug, Clone, PartialEq, Eq)]
pub struct WriteConfigResult {
    pub path: String,
    pub backup_path: Option<String>,
}

/// The configuration file inside the MemX home directory.
pub fn config_file_path(memx_dir: &str, windows: bool) -> (r: String)
    ensures
        r@ == spec_join(memx_dir@, "config.toml"@, windows),
{
    join_path(memx_dir, "config.toml", windows)
}

/// Where writing a new embedding section leaves things: the file is
/// `config.toml` in the MemX home directory and, when a file was already
/// there, it is first copied to `config.toml.bak` beside it.
pub fn config_write_result(memx_dir: &str, config_exists: bool, windows: bool) -> (r: WriteConfigResult)
    ensures
        r.path@ == spec_join(memx_dir@, "config.toml"@, windows),
        config_exists ==> (r.backup_path matches Some(b) && b@ == spec_join(memx_dir@, "config.toml.bak"@, windows)),
        !config_exists ==> r.backup_path is None,
{
    let path = config_file_path(memx_dir, windows);
    let backup_path = if config_exists {
        Some(join_path(memx_dir, "config.toml.bak", windows))
    } else {
        None
    };
    WriteConfigResult { path, backup_path }
}


/// The address the server binds: the host, a colon, and the port in
/// decimal.
pub fn listen_address(server: &ServerConfig) -> (r: String)
    ensures
        r@ == server.host@ + seq![':'] + decimal(server.port as nat),
{
    let mut out: Vec<char> = Vec::new();
    push_str(&mut out, server.host.as_str());
    out.push(':');
    push_decimal(&mut out, server.port as u64);
    string_of(&out)
}


/// The MemX home directory: `MEMX_HOME` (trimmed) when it is set and not
/// blank, otherwise `.memx` in the user's home directory; `None` when
/// neither is known.
pub open spec fn spec_memx_home(env_home: Option<Seq<char>>, home_dir: Option<Seq<char>>, windows: bool) -> Option<Seq<char>> {
    if env_home matches Some(h) && non_blank(h) {
        Some(trim(env_home.unwrap()))
    } else {
        match home_dir {
            Some(d) => Some(spec_join(d, ".memx"@, windows)),
            None => None,
        }
    }
}

/// Picks the MemX home directory.
pub fn memx_home_path(env_home: Option<&str>, home_dir: Option<&str>, windows: bool) -> (r: Option<String>)
    ensures
        opt_str(r) == spec_memx_home(
            match env_home {
                Some(h) => Some(h@),
                None => None,
            },
            match home_dir {
                Some(d) => Some(d@),
                None => None,
            },
            windows,
        ),
{
    if let Some(h) = env_home {
        let v = chars_of(h);
        let t = trim_chars(&v);
        if t.len() > 0 {
            return Some(string_of(&t));
        }
    }
    match home_dir {
        Some(d) => Some(join_path(d, ".memx", windows)),
        None => None,
    }
}


/// Where the configuration is read from.
#[derive(Debug, Clone, Copy, PartialEq, Eq, Structural)]
pub enum ConfigSource {
    /// The configuration file.
    File,
    /// No file, but `EMBEDDING_API_KEY` is set: defaults and the
    /// environment alone (a development setup).
    Environment,
}

/// There is neither a configuration file nor an API key in the
/// environment; `memx setup` creates the file.
#[derive(Debug, Clone, Copy, PartialEq, Eq, Structural)]
pub struct ConfigMissing;

/// Decides where the configuration comes from: the file when it exists,
/// else the environment when it holds an API key, else nowhere.
pub fn config_source(file_exists: bool, env_api_key_set: bool) -> (r: Result<ConfigSource, ConfigMissing>)
    ensures
        file_exists ==> r == Ok::<ConfigSource, ConfigMissing>(ConfigSource::File),
        !file_exists && env_api_key_set ==> r == Ok::<ConfigSource, ConfigMissing>(ConfigSource::Environment),
        !file_exists && !env_api_key_set ==> r is Err,
{
    if file_exists {
        Ok(ConfigSource::File)
    } else if env_api_key_set {
        Ok(ConfigSource::Environment)
    } else {
        Err(ConfigMissing)
    }
}

} // verus!
