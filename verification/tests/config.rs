use rustcloud::config::{
    default_host, default_max_file_size, default_port, default_storage_path, Config,
};

#[test]
fn defaults() {
    assert_eq!(default_host(), "127.0.0.1");
    assert_eq!(default_port(), 3000);
    assert_eq!(default_storage_path(), "./storage");
    assert_eq!(default_max_file_size(), 104857600);
    let config = Config::from_settings(None, None, None, None);
    assert_eq!(
        config,
        Config {
            host: "127.0.0.1".to_string(),
            port: 3000,
            storage_path: "./storage".to_string(),
            max_file_size: 100 * 1024 * 1024,
        }
    );
}

#[test]
fn settings_that_are_given_replace_the_defaults() {
    let config = Config::from_settings(
        Some("0.0.0.0".to_string()),
        Some(8080),
        Some("/var/lib/cloud".to_string()),
        Some(10),
    );
    assert_eq!(config.host, "0.0.0.0");
    assert_eq!(config.port, 8080);
    assert_eq!(config.storage_path, "/var/lib/cloud");
    assert_eq!(config.max_file_size, 10);
    assert_eq!(config.clone(), config);
}

#[test]
fn numbers_are_read_from_text_and_bad_ones_give_way() {
    let config = Config::from_texts(
        Some("example.org".to_string()),
        Some("8080".to_string()),
        None,
        Some("1048576".to_string()),
    );
    assert_eq!(config.host, "example.org");
    assert_eq!(config.port, 8080);
    assert_eq!(config.storage_path, "./storage");
    assert_eq!(config.max_file_size, 1048576);

    let bad = Config::from_texts(
        None,
        Some("65536".to_string()),
        Some("d".to_string()),
        Some("ten".to_string()),
    );
    assert_eq!(bad.port, 3000);
    assert_eq!(bad.max_file_size, 104857600);
    assert_eq!(bad.storage_path, "d");
    let empty = Config::from_texts(None, Some("".to_string()), None, Some("-1".to_string()));
    assert_eq!(empty.port, 3000);
    assert_eq!(empty.max_file_size, 104857600);
}

#[test]
fn address_is_host_colon_port() {
    let mut config = Config::from_settings(None, None, None, None);
    assert_eq!(config.addr(), "127.0.0.1:3000");
    config.port = 0;
    assert_eq!(config.addr(), "127.0.0.1:0");
    config.port = 65535;
    config.host = "localhost".to_string();
    assert_eq!(config.addr(), "localhost:65535");
    config.port = 7;
    assert_eq!(config.addr(), "localhost:7");
    config.port = 1009;
    assert_eq!(config.addr(), "localhost:1009");
}

#[test]
fn uploads_are_limited() {
    let mut config = Config::from_settings(None, None, None, None);
    config.max_file_size = 10;
    assert!(!config.accepts("this is more than 10 bytes".len() as u64));
    assert!(config.accepts(10));
    assert!(config.accepts(0));
    assert!(!config.accepts(11));
    config.max_file_size = 100;
    assert!(config.accepts("hello".len() as u64));
}
