use memx::config::{
    config_source, config_write_result, embedding_draft, memx_home_path, ConfigMissing, ConfigSource, env_or, env_or_u16, env_or_usize, listen_address,
    merge_embedding_config, resolve_config, ConfigError, ConfigFile, DbFileConfig,
    EmbeddingConfig, EmbeddingFileConfig, EnvOverrides, ServerConfig, ServerFileConfig,
    DEFAULT_EMBEDDING_BASE_URL, DEFAULT_EMBEDDING_DIMENSION, DEFAULT_EMBEDDING_MODEL,
};

#[derive(Debug, Clone, Default, PartialEq)]
struct TestSearch {
    semantic_weight: Option<f64>,
    recency_weight: Option<f64>,
}

fn no_env() -> EnvOverrides {
    EnvOverrides {
        embedding_api_key: None,
        database_path: None,
        embedding_base_url: None,
        embedding_model: None,
        embedding_dimension: None,
        server_host: None,
        server_port: None,
    }
}

fn empty_embedding() -> EmbeddingFileConfig {
    EmbeddingFileConfig { api_key: None, base_url: None, model: None, dimension: None }
}

#[test]
fn merge_embedding_config_preserves_other_sections() {
    let file = ConfigFile {
        database: None,
        embedding: Some(EmbeddingFileConfig {
            api_key: Some("old-key".to_string()),
            base_url: Some("https://old.example/v1".to_string()),
            model: Some("old-model".to_string()),
            dimension: Some(768),
        }),
        server: Some(ServerFileConfig { host: Some("0.0.0.0".to_string()), port: Some(9000) }),
        search: Some(TestSearch { semantic_weight: Some(0.7), ..Default::default() }),
    };

    let merged = merge_embedding_config(
        file,
        &EmbeddingConfig {
            api_key: "new-key".to_string(),
            base_url: "https://new.example/v1".to_string(),
            model: "new-model".to_string(),
            dimension: 1024,
        },
    );

    let embedding = merged.embedding.unwrap();
    assert_eq!(embedding.api_key.as_deref(), Some("new-key"));
    assert_eq!(embedding.base_url.as_deref(), Some("https://new.example/v1"));
    assert_eq!(embedding.model.as_deref(), Some("new-model"));
    assert_eq!(embedding.dimension, Some(1024));

    let server = merged.server.unwrap();
    assert_eq!(server.host.as_deref(), Some("0.0.0.0"));
    assert_eq!(server.port, Some(9000));
    assert_eq!(merged.search.unwrap().semantic_weight, Some(0.7));
}

#[test]
fn resolve_config_uses_defaults_for_missing_optional_fields() {
    let config = resolve_config::<TestSearch>(
        ConfigFile {
            database: None,
            embedding: Some(EmbeddingFileConfig { api_key: Some("local".to_string()), ..empty_embedding() }),
            server: None,
            search: None,
        },
        no_env(),
        "/tmp/memx-config-tests",
        false,
    )
    .unwrap();

    assert_eq!(config.embedding.api_key, "local");
    assert_eq!(config.embedding.base_url, DEFAULT_EMBEDDING_BASE_URL);
    assert_eq!(config.embedding.model, DEFAULT_EMBEDDING_MODEL);
    assert_eq!(config.embedding.dimension, DEFAULT_EMBEDDING_DIMENSION);
    assert_eq!(config.server.host, "127.0.0.1");
    assert_eq!(config.server.port, 7878);
    assert_eq!(config.database.path, "/tmp/memx-config-tests/memory.db");
}

#[test]
fn resolve_config_prefers_environment_over_file() {
    let env = EnvOverrides {
        embedding_api_key: Some("env-key".to_string()),
        database_path: Some("/data/env.db".to_string()),
        embedding_base_url: Some("https://env.example/v1".to_string()),
        embedding_model: Some("env-model".to_string()),
        embedding_dimension: Some("384".to_string()),
        server_host: Some("0.0.0.0".to_string()),
        server_port: Some("9100".to_string()),
    };
    let file = ConfigFile::<TestSearch> {
        database: Some(DbFileConfig { path: Some("/data/file.db".to_string()) }),
        embedding: Some(EmbeddingFileConfig {
            api_key: Some("file-key".to_string()),
            base_url: Some("https://file.example/v1".to_string()),
            model: Some("file-model".to_string()),
            dimension: Some(768),
        }),
        server: Some(ServerFileConfig { host: Some("10.0.0.1".to_string()), port: Some(9000) }),
        search: None,
    };
    let config = resolve_config(file, env, "/tmp/memx", false).unwrap();
    assert_eq!(config.embedding.api_key, "env-key");
    assert_eq!(config.embedding.base_url, "https://env.example/v1");
    assert_eq!(config.embedding.model, "env-model");
    assert_eq!(config.embedding.dimension, 384);
    assert_eq!(config.server.host, "0.0.0.0");
    assert_eq!(config.server.port, 9100);
    assert_eq!(config.database.path, "/data/env.db");
}

#[test]
fn resolve_config_reads_file_values() {
    let file = ConfigFile::<TestSearch> {
        database: Some(DbFileConfig { path: Some("/data/file.db".to_string()) }),
        embedding: Some(EmbeddingFileConfig {
            api_key: Some("file-key".to_string()),
            base_url: None,
            model: Some("file-model".to_string()),
            dimension: Some(768),
        }),
        server: Some(ServerFileConfig { host: None, port: Some(9000) }),
        search: None,
    };
    let config = resolve_config(file, no_env(), "/tmp/memx", false).unwrap();
    assert_eq!(config.embedding.api_key, "file-key");
    assert_eq!(config.embedding.base_url, DEFAULT_EMBEDDING_BASE_URL);
    assert_eq!(config.embedding.model, "file-model");
    assert_eq!(config.embedding.dimension, 768);
    assert_eq!(config.server.host, "127.0.0.1");
    assert_eq!(config.server.port, 9000);
    assert_eq!(config.database.path, "/data/file.db");
}

#[test]
fn resolve_config_requires_an_api_key() {
    let file = ConfigFile::<TestSearch> { database: None, embedding: None, server: None, search: None };
    assert_eq!(resolve_config(file, no_env(), "/tmp/memx", false).err(), Some(ConfigError::MissingApiKey));

    let blank = ConfigFile::<TestSearch> {
        database: None,
        embedding: Some(EmbeddingFileConfig { api_key: Some("   ".to_string()), ..empty_embedding() }),
        server: None,
        search: None,
    };
    assert_eq!(resolve_config(blank, no_env(), "/tmp/memx", false).err(), Some(ConfigError::MissingApiKey));
}

#[test]
fn resolve_config_rejects_malformed_numbers_from_environment() {
    let file = || ConfigFile::<TestSearch> {
        database: None,
        embedding: Some(EmbeddingFileConfig { api_key: Some("k".to_string()), ..empty_embedding() }),
        server: None,
        search: None,
    };
    let bad_dim = EnvOverrides { embedding_dimension: Some("abc".to_string()), ..no_env() };
    assert_eq!(resolve_config(file(), bad_dim, "/tmp/memx", false).err(), Some(ConfigError::InvalidEmbeddingDimension));
    let bad_port = EnvOverrides { server_port: Some("70000".to_string()), ..no_env() };
    assert_eq!(resolve_config(file(), bad_port, "/tmp/memx", false).err(), Some(ConfigError::InvalidServerPort));
}

#[test]
fn env_or_picks_environment_then_file_then_default() {
    assert_eq!(env_or(Some("a".to_string()), Some("b".to_string()), "c"), "a");
    assert_eq!(env_or(None, Some("b".to_string()), "c"), "b");
    assert_eq!(env_or(None, None, "c"), "c");
    assert_eq!(env_or_usize(Some("12".to_string()), Some(3), 4), Some(12));
    assert_eq!(env_or_usize(Some("x".to_string()), Some(3), 4), None);
    assert_eq!(env_or_usize(None, None, 4), Some(4));
    assert_eq!(env_or_u16(Some("80".to_string()), None, 7878), Some(80));
    assert_eq!(env_or_u16(None, Some(81), 7878), Some(81));
}

#[test]
fn embedding_draft_drops_blank_values() {
    let file = ConfigFile::<TestSearch> {
        database: None,
        embedding: Some(EmbeddingFileConfig {
            api_key: Some("  ".to_string()),
            base_url: Some("https://x.example/v1".to_string()),
            model: None,
            dimension: Some(8),
        }),
        server: None,
        search: None,
    };
    let draft = embedding_draft(&file);
    assert_eq!(draft.api_key, None);
    assert_eq!(draft.base_url.as_deref(), Some("https://x.example/v1"));
    assert_eq!(draft.model, None);
    assert_eq!(draft.dimension, Some(8));
}

#[test]
fn merged_embedding_reads_back_as_draft() {
    let file = ConfigFile::<TestSearch> { database: None, embedding: None, server: None, search: None };
    let merged = merge_embedding_config(
        file,
        &EmbeddingConfig {
            api_key: "k".to_string(),
            base_url: "https://b.example".to_string(),
            model: "m".to_string(),
            dimension: 3,
        },
    );
    let draft = embedding_draft(&merged);
    assert_eq!(draft.api_key.as_deref(), Some("k"));
    assert_eq!(draft.base_url.as_deref(), Some("https://b.example"));
    assert_eq!(draft.model.as_deref(), Some("m"));
    assert_eq!(draft.dimension, Some(3));
}

#[test]
fn config_write_keeps_a_backup_only_of_an_existing_file() {
    let fresh = config_write_result("/Users/demo/.memx", false, false);
    assert_eq!(fresh.path, "/Users/demo/.memx/config.toml");
    assert_eq!(fresh.backup_path, None);
    let again = config_write_result("/Users/demo/.memx", true, false);
    assert_eq!(again.backup_path.as_deref(), Some("/Users/demo/.memx/config.toml.bak"));
    let windows = config_write_result(r"C:\Users\demo\.memx", true, true);
    assert_eq!(windows.path, r"C:\Users\demo\.memx\config.toml");
    assert_eq!(windows.backup_path.as_deref(), Some(r"C:\Users\demo\.memx\config.toml.bak"));
}

#[test]
fn listen_address_joins_host_and_port() {
    let server = ServerConfig { host: "127.0.0.1".to_string(), port: 7878 };
    assert_eq!(listen_address(&server), "127.0.0.1:7878");
    let zero = ServerConfig { host: "0.0.0.0".to_string(), port: 0 };
    assert_eq!(listen_address(&zero), "0.0.0.0:0");
}

#[test]
fn memx_home_prefers_environment_then_home_directory() {
    assert_eq!(memx_home_path(Some(" /tmp/memx-home "), Some("/Users/demo"), false).as_deref(), Some("/tmp/memx-home"));
    assert_eq!(memx_home_path(Some("  "), Some("/Users/demo"), false).as_deref(), Some("/Users/demo/.memx"));
    assert_eq!(memx_home_path(None, Some("/Users/demo"), false).as_deref(), Some("/Users/demo/.memx"));
    assert_eq!(memx_home_path(None, None, false), None);
    assert_eq!(memx_home_path(None, Some(r"C:\Users\demo"), true).as_deref(), Some(r"C:\Users\demo\.memx"));
}

#[test]
fn configuration_comes_from_file_then_environment() {
    assert_eq!(config_source(true, false), Ok(ConfigSource::File));
    assert_eq!(config_source(true, true), Ok(ConfigSource::File));
    assert_eq!(config_source(false, true), Ok(ConfigSource::Environment));
    assert_eq!(config_source(false, false), Err(ConfigMissing));
}
