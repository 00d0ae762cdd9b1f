use tn_file_upload::config::{Config, ConfigError};

fn vars(pairs: &[(&str, &str)]) -> Vec<(String, String)> {
    pairs.iter().map(|(k, v)| (k.to_string(), v.to_string())).collect()
}

#[test]
fn missing_auth_token_returns_error() {
    let result = Config::from_env_vars(&vars(&[]));
    assert!(result.is_err());
    assert!(result.unwrap_err().to_string().contains("AUTH_TOKEN"));
}

#[test]
fn valid_config_with_defaults() {
    let result = Config::from_env_vars(&vars(&[("AUTH_TOKEN", "test-token")]));
    let config = result.unwrap();
    assert_eq!(config.listen_addr, "[::]:50051");
    assert_eq!(config.chunk_size, 65536);
    assert_eq!(config.max_file_size, 104_857_600);
}

#[test]
fn invalid_max_file_size_returns_error() {
    let result = Config::from_env_vars(&vars(&[("AUTH_TOKEN", "tok"), ("MAX_FILE_SIZE", "not_a_number")]));
    assert!(result.is_err());
}

#[test]
fn defaults_cover_every_optional_setting() {
    let config = Config::from_env_vars(&vars(&[("AUTH_TOKEN", "tok")])).unwrap();
    assert_eq!(config.auth_token, "tok");
    assert_eq!(config.storage_path, "./uploads");
    assert_eq!(config.rest_addr, None);
}

#[test]
fn set_values_override_defaults() {
    let config = Config::from_env_vars(&vars(&[
        ("AUTH_TOKEN", "secret"),
        ("LISTEN_ADDR", "127.0.0.1:9000"),
        ("REST_ADDR", "127.0.0.1:9001"),
        ("STORAGE_PATH", "/srv/files"),
        ("MAX_FILE_SIZE", "+2048"),
        ("CHUNK_SIZE", "512"),
    ]))
    .unwrap();
    assert_eq!(config.listen_addr, "127.0.0.1:9000");
    assert_eq!(config.rest_addr.as_deref(), Some("127.0.0.1:9001"));
    assert_eq!(config.storage_path, "/srv/files");
    assert_eq!(config.max_file_size, 2048);
    assert_eq!(config.chunk_size, 512);
}

#[test]
fn first_binding_of_a_name_wins() {
    let config = Config::from_env_vars(&vars(&[("AUTH_TOKEN", "first"), ("AUTH_TOKEN", "second")])).unwrap();
    assert_eq!(config.auth_token, "first");
}

#[test]
fn invalid_numbers_name_the_variable_and_the_reason() {
    let err = Config::from_env_vars(&vars(&[("AUTH_TOKEN", "tok"), ("MAX_FILE_SIZE", "not_a_number")])).unwrap_err();
    assert_eq!(err.to_string(), "invalid MAX_FILE_SIZE: invalid digit found in string");
    let err = Config::from_env_vars(&vars(&[("AUTH_TOKEN", "tok"), ("CHUNK_SIZE", "")])).unwrap_err();
    assert_eq!(err.to_string(), "invalid CHUNK_SIZE: cannot parse integer from empty string");
    let err = Config::from_env_vars(&vars(&[("AUTH_TOKEN", "tok"), ("MAX_FILE_SIZE", "18446744073709551616")]))
        .unwrap_err();
    assert_eq!(err.to_string(), "invalid MAX_FILE_SIZE: number too large to fit in target type");
}

#[test]
fn numbers_are_checked_before_the_token() {
    let err = Config::from_env_vars(&vars(&[("CHUNK_SIZE", "-1")])).unwrap_err();
    match err {
        ConfigError::Invalid(name, reason) => {
            assert_eq!(name, "CHUNK_SIZE");
            assert_eq!(reason, "invalid digit found in string");
        }
        other => panic!("unexpected {other:?}"),
    }
    let err = Config::from_env_vars(&vars(&[("MAX_FILE_SIZE", "x"), ("CHUNK_SIZE", "y")])).unwrap_err();
    assert_eq!(err.to_string(), "invalid MAX_FILE_SIZE: invalid digit found in string");
}

#[test]
fn missing_token_message() {
    let err = Config::from_env_vars(&vars(&[("LISTEN_ADDR", "x")])).unwrap_err();
    assert_eq!(err.to_string(), "missing AUTH_TOKEN");
}
