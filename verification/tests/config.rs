use blutgang::config::cli_args::{Blutgang, Db, RpcList};
use blutgang::config::types::{
    db_from_name, into_compression_type, resolve_settings, settings_from_text, CompressionType, SettingsError,
};
use blutgang::json::JsonValue;

fn no_args() -> Blutgang {
    Blutgang {
        rpc_list: RpcList { url: vec![], ws_url: vec![], max_consecutive: vec![], max_per_second: vec![] },
        address: None,
        port: None,
        ttl: None,
        max_retries: None,
        expected_block_time: None,
        health_check_ttl: None,
        clear_cache: false,
        no_clear_cache: false,
        sort_on_startup: false,
        no_sort_on_startup: false,
        health_check: false,
        no_health_check: false,
        header_check: false,
        no_header_check: false,
        supress_rpc_check: false,
        no_supress_rpc_check: false,
        db: None,
        admin: false,
        no_admin: false,
        admin_address: None,
        admin_port: None,
        admin_readonly: false,
        no_admin_readonly: false,
        admin_jwt: false,
        no_admin_jwt: false,
        admin_key: None,
    }
}

fn s(t: &str) -> JsonValue {
    JsonValue::Str(t.to_string())
}

fn n(t: &str) -> JsonValue {
    JsonValue::Number(t.to_string())
}

fn table(members: Vec<(&str, JsonValue)>) -> JsonValue {
    JsonValue::Object(members.into_iter().map(|(k, v)| (k.to_string(), v)).collect())
}

/// A config file in the shape of the project's example config.
fn example_config() -> JsonValue {
    table(vec![
        (
            "blutgang",
            table(vec![
                ("do_clear", JsonValue::Bool(false)),
                ("address", s("127.0.0.1")),
                ("port", n("3000")),
                ("sort_on_startup", JsonValue::Bool(true)),
                ("ma_length", n("100.0")),
                ("health_check", JsonValue::Bool(true)),
                ("header_check", JsonValue::Bool(true)),
                ("ttl", n("300")),
                ("max_retries", n("32")),
                ("expected_block_time", n("20000")),
                ("health_check_ttl", n("400")),
                ("supress_rpc_check", JsonValue::Bool(false)),
                ("db", s("sled")),
                (
                    "admin",
                    table(vec![
                        ("enable", JsonValue::Bool(true)),
                        ("address", s("127.0.0.1")),
                        ("port", n("5715")),
                        ("readonly", JsonValue::Bool(true)),
                        ("jwt", JsonValue::Bool(false)),
                        ("key", s("")),
                    ]),
                ),
            ]),
        ),
        (
            "rpc",
            JsonValue::Array(vec![
                table(vec![
                    ("url", s("https://eth.merkle.io")),
                    ("ws_url", s("wss://eth.merkle.io")),
                    ("max_consecutive", n("150")),
                    ("max_per_second", n("200")),
                ]),
                table(vec![
                    ("url", s("https://eth.llamarpc.com/sk_llama_252714c1e64c9873e3b21ff94d7f1a3f")),
                    ("max_consecutive", n("150")),
                    ("max_per_second", n("0")),
                ]),
            ]),
        ),
    ])
}

#[test]
fn test_example_config() {
    let config = example_config();
    let plan = resolve_settings(no_args(), Some(&config));
    assert!(plan.is_ok(), "failed to parse example_config.toml");
}

#[test]
fn test_default_config() {
    let plan = resolve_settings(no_args(), None);
    assert!(plan.is_ok(), "failed to parse default config");
    let s = plan.unwrap();
    assert!(s.rpc_list.is_empty());
    assert_eq!(s.ttl, 1000);
    assert_eq!(s.expected_block_time, 12500);
    assert!(!s.expected_block_time_given);
    assert_eq!(s.health_check_ttl, 1000);
    assert_eq!(s.max_retries, 32);
    assert!(!s.do_clear);
    assert!(!s.sort_on_startup);
    assert!(!s.health_check);
    assert!(s.header_check);
    assert!(s.supress_rpc_check);
    assert!(s.is_ws);
    assert!(!s.admin.enabled);
    assert_eq!(s.listen, "127.0.0.1:3000");
}

#[test]
fn negative_flags_override_the_config() {
    let config = table(vec![(
        "blutgang",
        table(vec![
            ("clear_cache", JsonValue::Bool(true)),
            ("health_check", JsonValue::Bool(true)),
            ("header_check", JsonValue::Bool(true)),
        ]),
    )]);
    let mut args = no_args();
    args.no_clear_cache = true;
    args.no_health_check = true;
    args.no_header_check = true;
    let plan = resolve_settings(args, Some(&config)).unwrap();
    assert!(!plan.do_clear);
    assert!(!plan.health_check);
    assert!(!plan.header_check);
    let plan = resolve_settings(no_args(), Some(&config)).unwrap();
    assert!(plan.do_clear);
    assert!(plan.health_check);
}

#[test]
fn test_cli_overrides() {
    let rpc_url = "https://example.com/";
    let mut args = no_args();
    args.rpc_list.url.push(rpc_url.to_string());
    let config = example_config();
    let settings = resolve_settings(args, Some(&config));
    assert!(settings.is_ok(), "failed to apply overrides to example_config.toml");
    let settings = settings.unwrap();
    assert_eq!(settings.rpc_list.first().unwrap().get_url().as_str(), rpc_url);
}

#[test]
fn example_config_values() {
    let config = example_config();
    let plan = resolve_settings(no_args(), Some(&config)).unwrap();
    assert_eq!(plan.db, Db::Sled);
    assert_eq!(plan.listen, "127.0.0.1:3000");
    assert_eq!(plan.ttl, 300);
    assert_eq!(plan.max_retries, 32);
    assert_eq!(plan.expected_block_time, 20000);
    assert!(plan.expected_block_time_given);
    assert_eq!(plan.health_check_ttl, 400);
    assert!(plan.sort_on_startup);
    assert!(!plan.supress_rpc_check);
    // `do_clear` is not the config's key: the default stands.
    assert!(!plan.do_clear);
    let admin = plan.admin;
    assert!(admin.enabled);
    assert_eq!(admin.listen, "127.0.0.1:5715");
    assert!(admin.readonly);
    assert!(!admin.jwt);
    assert_eq!(admin.key, None);
    let rpcs = plan.rpc_list;
    assert_eq!(rpcs.len(), 2);
    assert_eq!(rpcs[0].url, "https://eth.merkle.io");
    assert_eq!(rpcs[0].ws_url.as_deref(), Some("wss://eth.merkle.io"));
    assert_eq!(rpcs[0].max_consecutive, 150);
    assert_eq!(rpcs[0].min_time_delta, 5000);
    // The node's name hides the path, where the API key is.
    assert_eq!(rpcs[1].name, "https://eth.llamarpc.com/");
    assert_eq!(rpcs[1].min_time_delta, 0);
    // The second node has no WebSocket URL.
    assert!(!plan.is_ws);
}

#[test]
fn cli_rpc_defaults() {
    let mut args = no_args();
    args.rpc_list.url = vec!["http://a".to_string(), "http://b".to_string()];
    args.rpc_list.ws_url = vec!["ws://a".to_string()];
    args.rpc_list.max_consecutive = vec![7];
    args.rpc_list.max_per_second = vec![0, 400];
    let plan = resolve_settings(args, None).unwrap();
    let rpcs = plan.rpc_list;
    assert_eq!(rpcs.len(), 2);
    assert_eq!(rpcs[0].ws_url.as_deref(), Some("ws://a"));
    assert_eq!(rpcs[0].max_consecutive, 7);
    assert_eq!(rpcs[0].min_time_delta, 0);
    assert_eq!(rpcs[1].ws_url, None);
    assert_eq!(rpcs[1].max_consecutive, 150);
    assert_eq!(rpcs[1].min_time_delta, 2500);
    assert!(plan.is_ws);
    assert!(!plan.admin.enabled);
    assert_eq!(plan.admin.listen, "127.0.0.1:3001");
    assert_eq!(plan.listen, "127.0.0.1:3000");
}

#[test]
fn cli_wins_over_config() {
    let mut args = no_args();
    args.port = Some(4000);
    args.ttl = Some(9);
    args.db = Some(Db::RocksDb);
    args.no_sort_on_startup = true;
    let config = example_config();
    let plan = resolve_settings(args, Some(&config)).unwrap();
    assert_eq!(plan.listen, "127.0.0.1:4000");
    assert_eq!(plan.ttl, 9);
    assert_eq!(plan.db, Db::RocksDb);
    // The negative option overrides the config file.
    assert!(!plan.sort_on_startup);
}

#[test]
fn zero_block_time_turns_off_ws() {
    let mut args = no_args();
    args.expected_block_time = Some(0);
    let plan = resolve_settings(args, None).unwrap();
    assert!(!plan.is_ws);
    assert_eq!(plan.expected_block_time, 0);
}

#[test]
fn bad_port_is_an_error() {
    let config = table(vec![("blutgang", table(vec![("port", n("70000"))]))]);
    let r = resolve_settings(no_args(), Some(&config));
    assert_eq!(r.unwrap_err(), SettingsError::Port);
    // Even with a port on the command line, the config's port is read.
    let mut args = no_args();
    args.port = Some(1);
    let r = resolve_settings(args, Some(&config));
    assert_eq!(r.unwrap_err().message(), "failed to convert `port` into `u16`");
}

#[test]
fn negative_ttl_is_an_error() {
    let config = table(vec![("blutgang", table(vec![("ttl", n("-5"))]))]);
    assert_eq!(resolve_settings(no_args(), Some(&config)).unwrap_err(), SettingsError::Ttl);
}

#[test]
fn jwt_without_key_is_an_error() {
    let config = table(vec![(
        "blutgang",
        table(vec![("admin", table(vec![("enable", JsonValue::Bool(true)), ("jwt", JsonValue::Bool(true))]))]),
    )]);
    let r = resolve_settings(no_args(), Some(&config));
    assert_eq!(r.unwrap_err(), SettingsError::MissingJwtKey);
    let mut args = no_args();
    args.admin_key = Some("SECRET-REDACTED".to_string());
    let plan = resolve_settings(args, Some(&config)).unwrap();
    assert_eq!(plan.admin.key.as_deref(), Some("SECRET-REDACTED"));
}

#[test]
fn config_rpc_errors() {
    let missing_url = table(vec![("rpc", JsonValue::Array(vec![table(vec![("max_consecutive", n("1"))])]))]);
    assert_eq!(resolve_settings(no_args(), Some(&missing_url)).unwrap_err(), SettingsError::RpcMissingUrl);
    let missing_mc = table(vec![("rpc", JsonValue::Array(vec![table(vec![("url", s("http://a"))])]))]);
    assert_eq!(
        resolve_settings(no_args(), Some(&missing_mc)).unwrap_err(),
        SettingsError::RpcMissingMaxConsecutive
    );
    let bad_mc = table(vec![(
        "rpc",
        JsonValue::Array(vec![table(vec![("url", s("http://a")), ("max_consecutive", n("4294967296"))])]),
    )]);
    assert_eq!(resolve_settings(no_args(), Some(&bad_mc)).unwrap_err(), SettingsError::RpcMaxConsecutive);
    let missing_mps = table(vec![(
        "rpc",
        JsonValue::Array(vec![table(vec![("url", s("http://a")), ("max_consecutive", n("3"))])]),
    )]);
    assert_eq!(
        resolve_settings(no_args(), Some(&missing_mps)).unwrap_err(),
        SettingsError::RpcMissingMaxPerSecond
    );
    let bad_mps = table(vec![(
        "rpc",
        JsonValue::Array(vec![table(vec![
            ("url", s("http://a")),
            ("max_consecutive", n("3")),
            ("max_per_second", n("-1")),
        ])]),
    )]);
    assert_eq!(resolve_settings(no_args(), Some(&bad_mps)).unwrap_err(), SettingsError::RpcMaxPerSecond);
}

#[test]
fn db_names() {
    assert_eq!(db_from_name("sled"), Some(Db::Sled));
    assert_eq!(db_from_name("RocksDB"), Some(Db::RocksDb));
    assert_eq!(db_from_name("postgres"), None);
}

#[test]
fn compression_names() {
    assert_eq!(into_compression_type("zstd"), CompressionType::Zstd);
    assert_eq!(into_compression_type("none"), CompressionType::Uncompressed);
    assert_eq!(into_compression_type("lz4hc"), CompressionType::Lz4hc);
    assert_eq!(into_compression_type("snappy"), CompressionType::Snappy);
}

const EXAMPLE_CONFIG_TEXT: &str = r#"
[blutgang]
do_clear = false
address = "127.0.0.1"
port = 3000
sort_on_startup = true
ma_length = 100.0
health_check = true
header_check = true
ttl = 300
max_retries = 32
expected_block_time = 20000
health_check_ttl = 400
supress_rpc_check = false
db = "sled"

[blutgang.admin]
enable = true
address = "127.0.0.1"
port = 5715
readonly = true
jwt = false
key = ""

[[rpc]]
url = "https://eth.merkle.io"
ws_url = "wss://eth.merkle.io"
max_consecutive = 150
max_per_second = 200

[[rpc]]
url = "https://eth.llamarpc.com/sk_llama_252714c1e64c9873e3b21ff94d7f1a3f"
max_consecutive = 150
max_per_second = 0
"#;

#[test]
fn config_text_reads_like_its_tree() {
    let from_text = settings_from_text(no_args(), Some(EXAMPLE_CONFIG_TEXT)).unwrap();
    let from_tree = resolve_settings(no_args(), Some(&example_config())).unwrap();
    assert_eq!(from_text.ttl, 300);
    assert_eq!(from_text.ttl, from_tree.ttl);
    assert_eq!(from_text.listen, "127.0.0.1:3000");
    assert_eq!(from_text.health_check_ttl, 400);
    assert_eq!(from_text.expected_block_time, 20000);
    assert!(from_text.sort_on_startup);
    assert!(!from_text.supress_rpc_check);
    assert!(from_text.admin.enabled && from_text.admin.readonly);
    assert_eq!(from_text.admin.listen, from_tree.admin.listen);
    assert_eq!(from_text.rpc_list.len(), 2);
    assert_eq!(from_text.rpc_list[0].url, "https://eth.merkle.io");
    assert_eq!(from_text.rpc_list[0].ws_url, Some("wss://eth.merkle.io".to_string()));
    assert_eq!(from_text.rpc_list[1].max_consecutive, from_tree.rpc_list[1].max_consecutive);
    assert_eq!(from_text.rpc_list[1].min_time_delta, from_tree.rpc_list[1].min_time_delta);
}

#[test]
fn no_config_text_gives_the_defaults() {
    let plan = settings_from_text(no_args(), None).unwrap();
    assert_eq!(plan.ttl, 1000);
    assert_eq!(plan.max_retries, 32);
    assert_eq!(plan.listen, "127.0.0.1:3000");
}

#[test]
fn config_text_that_is_not_toml_is_an_error() {
    let r = settings_from_text(no_args(), Some("[blutgang\nttl = = 3"));
    assert_eq!(r.unwrap_err(), SettingsError::FailedDeserialization);
    assert_eq!(SettingsError::FailedDeserialization.message(), "failed to deserialize config file");
}

#[test]
fn config_text_errors_come_from_the_settings() {
    let r = settings_from_text(no_args(), Some("[blutgang]\nttl = -5\n"));
    assert_eq!(r.unwrap_err(), SettingsError::Ttl);
    let r = settings_from_text(no_args(), Some("[blutgang]\nport = 70000\n"));
    assert_eq!(r.unwrap_err(), SettingsError::Port);
}
