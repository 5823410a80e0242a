//! The settings the balancer runs with: a command line option wins over the
//! config file's `blutgang` table, which wins over the default; the nodes
//! come from the command line, else from the config's `rpc` list.

use vstd::prelude::*;
use crate::config::cli_args::{is_fresh_rpc, min_delta, Blutgang, Db};
use crate::config::table::{
    as_table, bool_entry, flag, flag_setting, get_member, get_table, int_entry, int_setting, opt_value,
    str_entry, table_get, toml_bool, toml_str,
};
use crate::json::{array_items, JsonValue};
use crate::rpc::types::{opt_chars, Rpc};
use crate::text::{chars_of, dec_text, to_decimal_string};

verus! {

/// A database directory and its target size.
#[derive(Debug)]
pub struct DBPathRepr {
    pub path: String,
    pub target_size: u64,
}

/// Options for the sled database; a `None` keeps sled's default.
#[derive(Debug, Default)]
pub struct SledConfigRepr {
    pub enable: Option<bool>,
    /// The base directory of the database.
    pub path: Option<String>,
    /// Cache size in bytes.
    pub cache_capacity_bytes: Option<usize>,
    /// The share of the cache for the scan-resistant entry cache, in percent.
    pub entry_cache_percent: Option<u8>,
    /// How often a background thread flushes to disk, in milliseconds.
    pub flush_every_ms: Option<usize>,
    /// The zstd compression level of data written to disk.
    pub zstd_compression_level: Option<i32>,
}

/// A compression of the RocksDB database.
#[derive(Debug, Clone, Copy, PartialEq, Eq, Structural)]
pub enum CompressionType {
    Uncompressed,
    Snappy,
    Zlib,
    Bz2,
    Lz4,
    Lz4hc,
    Zstd,
}

/// The compression a config name chooses.
pub open spec fn compression_named(s: Seq<char>) -> Option<CompressionType> {
    if s == "none"@ {
        Some(CompressionType::Uncompressed)
    } else if s == "snappy"@ {
        Some(CompressionType::Snappy)
    } else if s == "zlib"@ {
        Some(CompressionType::Zlib)
    } else if s == "bz2"@ {
        Some(CompressionType::Bz2)
    } else if s == "lz4"@ {
        Some(CompressionType::Lz4)
    } else if s == "lz4hc"@ {
        Some(CompressionType::Lz4hc)
    } else if s == "zstd"@ {
        Some(CompressionType::Zstd)
    } else {
        None
    }
}

/// The compression named `s` (a name that is none of them is not accepted).
pub fn into_compression_type(s: &str) -> (r: CompressionType)
    requires
        compression_named(s@) is Some,
    ensures
        Some(r) == compression_named(s@),
{
    if crate::text::str_eq(s, "none") {
        CompressionType::Uncompressed
    } else if crate::text::str_eq(s, "snappy") {
        CompressionType::Snappy
    } else if crate::text::str_eq(s, "zlib") {
        CompressionType::Zlib
    } else if crate::text::str_eq(s, "bz2") {
        CompressionType::Bz2
    } else if crate::text::str_eq(s, "lz4") {
        CompressionType::Lz4
    } else if crate::text::str_eq(s, "lz4hc") {
        CompressionType::Lz4hc
    } else {
        CompressionType::Zstd
    }
}

/// The admin namespace settings; a `None` keeps the default.
#[derive(Debug)]
pub struct AdminSettings {
    pub enabled: bool,
    /// `address:port` to listen to (`127.0.0.1:3001` unless both are given).
    pub listen: String,
    pub readonly: bool,
    pub jwt: bool,
    /// The JWT key, when JWT is on.
    pub key: Option<String>,
}

/// A setting that is present but unusable.
#[derive(Debug, Clone, Copy, PartialEq, Eq, Structural)]
pub enum SettingsError {
    Port,
    Ttl,
    MaxRetries,
    ExpectedBlockTime,
    HealthCheckTtl,
    AdminPort,
    MissingJwtKey,
    RpcMissingUrl,
    RpcMissingMaxConsecutive,
    RpcMaxConsecutive,
    RpcMissingMaxPerSecond,
    RpcMaxPerSecond,
    /// The config file is not TOML.
    FailedDeserialization,
}

impl SettingsError {
    /// The message the balancer stops with.
    pub fn message(&self) -> (r: &'static str)
        ensures
            match self {
                SettingsError::Port => r@ == "failed to convert `port` into `u16`"@,
                SettingsError::Ttl => r@ == "failed to convert `ttl` into `u128`"@,
                SettingsError::MaxRetries => r@ == "failed to convert `max_retries` into `u32`"@,
                SettingsError::ExpectedBlockTime => r@ == "failed to convert `expected_block_time` into `u64`"@,
                SettingsError::HealthCheckTtl => r@ == "failed to convert `health_check_ttl` into `u64`"@,
                SettingsError::AdminPort => r@ == "failed to parse admin port into `u16`"@,
                SettingsError::MissingJwtKey => r@ == "jwt is set but no key was found"@,
                SettingsError::RpcMissingUrl => r@ == "rpc is missing a url"@,
                SettingsError::RpcMissingMaxConsecutive => r@ == "rpc is missing field `max_consecutive`"@,
                SettingsError::RpcMaxConsecutive => r@ == "failed to parse `max_consecutive` into `u32`"@,
                SettingsError::RpcMissingMaxPerSecond => r@ == "rpc is missing field `max_per_second`"@,
                SettingsError::RpcMaxPerSecond => r@ == "failed to convert `max_per_second` into `u64`"@,
                SettingsError::FailedDeserialization => r@ == "failed to deserialize config file"@,
            },
    {
        match self {
            SettingsError::Port => "failed to convert `port` into `u16`",
            SettingsError::Ttl => "failed to convert `ttl` into `u128`",
            SettingsError::MaxRetries => "failed to convert `max_retries` into `u32`",
            SettingsError::ExpectedBlockTime => "failed to convert `expected_block_time` into `u64`",
            SettingsError::HealthCheckTtl => "failed to convert `health_check_ttl` into `u64`",
            SettingsError::AdminPort => "failed to parse admin port into `u16`",
            SettingsError::MissingJwtKey => "jwt is set but no key was found",
            SettingsError::RpcMissingUrl => "rpc is missing a url",
            SettingsError::RpcMissingMaxConsecutive => "rpc is missing field `max_consecutive`",
            SettingsError::RpcMaxConsecutive => "failed to parse `max_consecutive` into `u32`",
            SettingsError::RpcMissingMaxPerSecond => "rpc is missing field `max_per_second`",
            SettingsError::RpcMaxPerSecond => "failed to convert `max_per_second` into `u64`",
            SettingsError::FailedDeserialization => "failed to deserialize config file",
        }
    }
}

/// The settings, resolved from the options and the config file; a `None`
/// keeps the default.
#[derive(Debug)]
pub struct SettingsPlan {
    pub db: Db,
    /// `address:port` to listen to (`127.0.0.1:3000` unless both are given).
    pub listen: String,
    /// How long to wait for a node, in milliseconds (1000 by default).
    pub ttl: u128,
    /// Attempts of a request (32 by default).
    pub max_retries: u32,
    /// The expected block time in milliseconds (12500 by default).
    pub expected_block_time: u64,
    /// Whether the expected block time was given (the caller adds its
    /// margin to a given one).
    pub expected_block_time_given: bool,
    /// How often the health check runs, in milliseconds (1000 by default).
    pub health_check_ttl: u64,
    pub do_clear: bool,
    pub sort_on_startup: bool,
    pub health_check: bool,
    pub header_check: bool,
    pub supress_rpc_check: bool,
    pub admin: AdminSettings,
    pub rpc_list: Vec<Rpc>,
    /// Whether blocks are expected at all and every node of the config file
    /// has a WebSocket URL.
    pub is_ws: bool,
}

// ---------------------------------------------------------------------------
// What the settings are
// ---------------------------------------------------------------------------

/// The lower-case form of an ASCII letter.
pub open spec fn ascii_lower(c: char) -> char {
    if 'A' <= c && c <= 'Z' {
        ((c as int) + 32) as char
    } else {
        c
    }
}

/// Two texts are equal up to the case of ASCII letters.
pub open spec fn eq_ignore_ascii_case(a: Seq<char>, b: Seq<char>) -> bool {
    a.len() == b.len() && forall|i: int| 0 <= i < a.len() ==> ascii_lower(a[i]) == ascii_lower(b[i])
}

/// The database a name chooses (`sled` or `rocksdb`, in any case).
pub open spec fn db_named(s: Seq<char>) -> Option<Db> {
    if eq_ignore_ascii_case(s, "sled"@) {
        Some(Db::Sled)
    } else if eq_ignore_ascii_case(s, "rocksdb"@) {
        Some(Db::RocksDb)
    } else {
        None
    }
}

/// The config file's `blutgang` table.
pub open spec fn blutgang_table(config: Option<JsonValue>) -> Option<JsonValue> {
    as_table(table_get(config, "blutgang"@))
}

/// The config file's `blutgang.admin` table.
pub open spec fn admin_table(config: Option<JsonValue>) -> Option<JsonValue> {
    as_table(table_get(blutgang_table(config), "admin"@))
}

/// The nodes of the config file's `rpc` list, when it is a list.
pub open spec fn config_rpc_items(config: Option<JsonValue>) -> Option<Seq<JsonValue>> {
    match table_get(config, "rpc"@) {
        Some(v) => array_items(v),
        None => None,
    }
}

/// A text option, else the table's text.
pub open spec fn text_option(arg: Option<String>, t: Option<JsonValue>, key: Seq<char>) -> Option<Seq<char>> {
    match arg {
        Some(a) => Some(a@),
        None => toml_str(table_get(t, key)),
    }
}

/// A port option, else the table's port (when it is a port number).
pub open spec fn port_option(arg: Option<u16>, t: Option<JsonValue>, key: Seq<char>) -> Option<int> {
    match arg {
        Some(p) => Some(p as int),
        None => match int_setting(t, key, 0xffff) {
            Ok(Some(n)) => Some(n),
            _ => None,
        },
    }
}

/// `address:port`, when both are given.
pub open spec fn listen_text(address: Option<Seq<char>>, port: Option<int>) -> Option<Seq<char>> {
    match (address, port) {
        (Some(a), Some(p)) => Some(a + ":"@ + dec_text(p as nat)),
        _ => None,
    }
}

/// The value of an integer setting that is present and usable.
pub open spec fn setting_value(s: Result<Option<int>, ()>) -> int {
    match s {
        Ok(Some(n)) => n,
        _ => 0,
    }
}

/// Whether the admin namespace is on.
pub open spec fn admin_enabled(args: Blutgang, config: Option<JsonValue>) -> bool {
    flag_setting(args.admin, args.no_admin, toml_bool(table_get(admin_table(config), "enable"@))) == Some(true)
}

/// Whether the admin namespace asks for a JWT.
pub open spec fn jwt_on(args: Blutgang, config: Option<JsonValue>) -> bool {
    flag_setting(args.admin_jwt, args.no_admin_jwt, toml_bool(table_get(admin_table(config), "jwt"@))) == Some(true)
}

/// Why a node of the config file's list is unusable.
pub open spec fn rpc_error(v: JsonValue) -> Option<SettingsError> {
    if toml_str(table_get(Some(v), "url"@)) is None {
        Some(SettingsError::RpcMissingUrl)
    } else {
        match int_setting(Some(v), "max_consecutive"@, u32::MAX as int) {
            Err(_) => Some(SettingsError::RpcMaxConsecutive),
            Ok(None) => Some(SettingsError::RpcMissingMaxConsecutive),
            Ok(Some(_)) => match int_setting(Some(v), "max_per_second"@, u64::MAX as int) {
                Err(_) => Some(SettingsError::RpcMaxPerSecond),
                Ok(None) => Some(SettingsError::RpcMissingMaxPerSecond),
                Ok(Some(_)) => None,
            },
        }
    }
}

/// The error of the first unusable node among the first `n`.
pub open spec fn rpcs_error(items: Seq<JsonValue>, n: int) -> Option<SettingsError>
    decreases n,
{
    if n <= 0 {
        None
    } else {
        match rpcs_error(items, n - 1) {
            Some(e) => Some(e),
            None => rpc_error(items[n - 1]),
        }
    }
}

/// Whether a node of the config file's list has a WebSocket URL.
pub open spec fn has_ws(v: JsonValue) -> bool {
    toml_str(table_get(Some(v), "ws_url"@)) is Some
}

/// `r` is the node that `v` describes.
pub open spec fn is_config_rpc(r: Rpc, v: JsonValue) -> bool {
    is_fresh_rpc(
        r,
        toml_str(table_get(Some(v), "url"@)).unwrap(),
        toml_str(table_get(Some(v), "ws_url"@)),
        setting_value(int_setting(Some(v), "max_consecutive"@, u32::MAX as int)),
        min_delta(setting_value(int_setting(Some(v), "max_per_second"@, u64::MAX as int))),
    )
}

/// The first unusable setting, in the order in which they are read.
#[verifier::opaque]
pub open spec fn settings_error(args: Blutgang, config: Option<JsonValue>) -> Option<SettingsError> {
    let b = blutgang_table(config);
    let a = admin_table(config);
    if int_setting(b, "port"@, 0xffff) is Err {
        Some(SettingsError::Port)
    } else if int_setting(b, "ttl"@, u64::MAX as int) is Err {
        Some(SettingsError::Ttl)
    } else if int_setting(b, "max_retries"@, u32::MAX as int) is Err {
        Some(SettingsError::MaxRetries)
    } else if int_setting(b, "expected_block_time"@, u64::MAX as int) is Err {
        Some(SettingsError::ExpectedBlockTime)
    } else if int_setting(b, "health_check_ttl"@, u64::MAX as int) is Err {
        Some(SettingsError::HealthCheckTtl)
    } else if admin_enabled(args, config) && int_setting(a, "port"@, 0xffff) is Err {
        Some(SettingsError::AdminPort)
    } else if admin_enabled(args, config) && jwt_on(args, config) && text_option(
        args.admin_key,
        a,
        "key"@,
    ) is None {
        Some(SettingsError::MissingJwtKey)
    } else {
        match config_rpc_items(config) {
            Some(items) => rpcs_error(items, items.len() as int),
            None => None,
        }
    }
}

/// The database the settings choose.
pub open spec fn chosen_db(args: Blutgang, config: Option<JsonValue>) -> Db {
    match args.db {
        Some(d) => d,
        None => match toml_str(table_get(blutgang_table(config), "db"@)) {
            Some(s) => match db_named(s) {
                Some(d) => d,
                None => Db::Sled,
            },
            None => Db::Sled,
        },
    }
}

/// The expected block time the settings give.
pub open spec fn chosen_block_time(args: Blutgang, config: Option<JsonValue>) -> Option<int> {
    match args.expected_block_time {
        Some(t) => Some(t as int),
        None => match int_setting(blutgang_table(config), "expected_block_time"@, u64::MAX as int) {
            Ok(Some(n)) => Some(n),
            _ => None,
        },
    }
}

/// Whether every node of the config file's list has a WebSocket URL.
pub open spec fn config_all_ws(config: Option<JsonValue>) -> bool {
    match config_rpc_items(config) {
        Some(items) => forall|i: int| 0 <= i < items.len() ==> has_ws(#[trigger] items[i]),
        None => true,
    }
}

/// A flag's value, `default` when nothing sets it.
pub open spec fn flag_or(f: Option<bool>, default: bool) -> bool {
    match f {
        Some(b) => b,
        None => default,
    }
}

/// A text, `default` when there is none.
pub open spec fn text_or(t: Option<Seq<char>>, default: Seq<char>) -> Seq<char> {
    match t {
        Some(x) => x,
        None => default,
    }
}

/// The admin settings of an enabled admin namespace resolve the options
/// and the `blutgang.admin` table.
pub open spec fn resolves_enabled_admin(adm: AdminSettings, args: Blutgang, config: Option<JsonValue>) -> bool {
    let a = admin_table(config);
    &&& adm.enabled
    &&& adm.listen@ == text_or(
        listen_text(text_option(args.admin_address, a, "address"@), port_option(args.admin_port, a, "port"@)),
        "127.0.0.1:3001"@,
    )
    &&& adm.readonly == flag_or(
        flag_setting(args.admin_readonly, args.no_admin_readonly, toml_bool(table_get(a, "readonly"@))),
        false,
    )
    &&& adm.jwt == flag_or(flag_setting(args.admin_jwt, args.no_admin_jwt, toml_bool(table_get(a, "jwt"@))), false)
    &&& opt_chars(adm.key) == if jwt_on(args, config) {
        text_option(args.admin_key, a, "key"@)
    } else {
        None
    }
}

/// The admin settings: resolved when the admin namespace is on, the
/// defaults (off, `127.0.0.1:3001`, writable, no JWT) otherwise.
pub open spec fn resolves_admin(adm: AdminSettings, args: Blutgang, config: Option<JsonValue>) -> bool {
    if admin_enabled(args, config) {
        resolves_enabled_admin(adm, args, config)
    } else {
        !adm.enabled && adm.listen@ == "127.0.0.1:3001"@ && !adm.readonly && !adm.jwt && adm.key is None
    }
}

/// The nodes resolve the command line's list, else the config file's list.
pub open spec fn resolves_rpcs(v: Vec<Rpc>, args: Blutgang, config: Option<JsonValue>) -> bool {
    let cli = args.rpc_list;
    if cli.url@.len() > 0 {
        v@.len() == cli.url@.len() && forall|i: int|
            #![trigger v@[i]]
            0 <= i < v@.len() ==> is_fresh_rpc(
                v@[i],
                cli.url@[i]@,
                cli.ws_url_at(i),
                cli.max_consecutive_at(i),
                min_delta(cli.max_per_second_at(i)),
            )
    } else {
        match config_rpc_items(config) {
            Some(items) => v@.len() == items.len() && forall|i: int|
                #![trigger v@[i]]
                0 <= i < v@.len() ==> is_config_rpc(v@[i], items[i]),
            None => v@.len() == 0,
        }
    }
}

/// `plan` holds the settings that the options and the config file give.
#[verifier::opaque]
pub open spec fn resolves(plan: SettingsPlan, args: Blutgang, config: Option<JsonValue>) -> bool {
    let b = blutgang_table(config);
    &&& plan.db == chosen_db(args, config)
    &&& plan.listen@ == text_or(
        listen_text(text_option(args.address, b, "address"@), port_option(args.port, b, "port"@)),
        "127.0.0.1:3000"@,
    )
    &&& plan.ttl == match args.ttl {
        Some(t) => t,
        None => match int_setting(b, "ttl"@, u64::MAX as int) {
            Ok(Some(n)) => n as u128,
            _ => 1000u128,
        },
    }
    &&& plan.max_retries == match args.max_retries {
        Some(t) => t,
        None => match int_setting(b, "max_retries"@, u32::MAX as int) {
            Ok(Some(n)) => n as u32,
            _ => 32u32,
        },
    }
    &&& plan.expected_block_time == match chosen_block_time(args, config) {
        Some(t) => t as u64,
        None => 12500u64,
    }
    &&& plan.expected_block_time_given == chosen_block_time(args, config) is Some
    &&& plan.health_check_ttl == match args.health_check_ttl {
        Some(t) => t,
        None => match int_setting(b, "health_check_ttl"@, u64::MAX as int) {
            Ok(Some(n)) => n as u64,
            _ => 1000u64,
        },
    }
    &&& plan.do_clear == flag_or(
        flag_setting(args.clear_cache, args.no_clear_cache, toml_bool(table_get(b, "clear_cache"@))),
        false,
    )
    &&& plan.sort_on_startup == flag_or(
        flag_setting(args.sort_on_startup, args.no_sort_on_startup, toml_bool(table_get(b, "sort_on_startup"@))),
        false,
    )
    &&& plan.health_check == flag_or(
        flag_setting(args.health_check, args.no_health_check, toml_bool(table_get(b, "health_check"@))),
        false,
    )
    &&& plan.header_check == flag_or(
        flag_setting(args.header_check, args.no_header_check, toml_bool(table_get(b, "header_check"@))),
        true,
    )
    &&& plan.supress_rpc_check == flag_or(
        flag_setting(args.supress_rpc_check, args.no_supress_rpc_check, toml_bool(table_get(b, "supress_rpc_check"@))),
        true,
    )
    &&& resolves_admin(plan.admin, args, config)
    &&& resolves_rpcs(plan.rpc_list, args, config)
    &&& plan.is_ws == (chosen_block_time(args, config) != Some(0int) && config_all_ws(config))
}

// ---------------------------------------------------------------------------
// Resolving the settings
// ---------------------------------------------------------------------------

fn lower(c: char) -> (r: char)
    ensures
        r == ascii_lower(c),
{
    if 'A' <= c && c <= 'Z' {
        (((c as u32) + 32) as u8) as char
    } else {
        c
    }
}

/// Whether two texts are equal up to the case of ASCII letters.
fn same_ignoring_case(a: &str, b: &str) -> (r: bool)
    ensures
        r == eq_ignore_ascii_case(a@, b@),
{
    let ca = chars_of(a);
    let cb = chars_of(b);
    if ca.len() != cb.len() {
        return false;
    }
    let mut i: usize = 0;
    while i < ca.len()
        invariant
            ca@ == a@,
            cb@ == b@,
            ca@.len() == cb@.len(),
            i <= ca@.len(),
            forall|k: int| 0 <= k < i ==> ascii_lower(a@[k]) == ascii_lower(b@[k]),
        decreases ca@.len() - i,
    {
        if lower(ca[i]) != lower(cb[i]) {
            return false;
        }
        i = i + 1;
    }
    true
}

/// The database a name chooses.
pub fn db_from_name(s: &str) -> (r: Option<Db>)
    ensures
        r == db_named(s@),
{
    if same_ignoring_case(s, "sled") {
        Some(Db::Sled)
    } else if same_ignoring_case(s, "rocksdb") {
        Some(Db::RocksDb)
    } else {
        None
    }
}

/// The port of an option, else of a table.
fn port_of(arg: Option<u16>, t: Option<&JsonValue>, key: &str) -> (r: Result<Option<u16>, ()>)
    ensures
        match r {
            Ok(p) => int_setting(opt_value(t), key@, 0xffff) is Ok && match p {
                Some(n) => port_option(arg, opt_value(t), key@) == Some(n as int),
                None => port_option(arg, opt_value(t), key@) is None,
            },
            Err(()) => int_setting(opt_value(t), key@, 0xffff) is Err,
        },
{
    let config_port = match int_entry(t, key, 0xffff) {
        Ok(p) => p,
        Err(()) => {
            return Err(());
        },
    };
    match arg {
        Some(p) => Ok(Some(p)),
        None => match config_port {
            Some(p) => Ok(Some(p as u16)),
            None => Ok(None),
        },
    }
}

/// A text option, else the table's text.
fn text_of(arg: &Option<String>, t: Option<&JsonValue>, key: &str) -> (r: Option<String>)
    ensures
        opt_chars(r) == text_option(*arg, opt_value(t), key@),
{
    match arg {
        Some(a) => Some(a.clone()),
        None => str_entry(t, key),
    }
}

/// `address:port`, when both are given.
fn listen_of(address: Option<String>, port: Option<u16>) -> (r: Option<String>)
    ensures
        opt_chars(r) == listen_text(
            opt_chars(address),
            match port {
                Some(p) => Some(p as int),
                None => None,
            },
        ),
{
    match (address, port) {
        (Some(a), Some(p)) => {
            let mut text = a;
            text.append(":");
            let digits = to_decimal_string(p as u128);
            text.append(digits.as_str());
            Some(text)
        },
        _ => None,
    }
}

/// A node of the config file's list.
fn config_rpc(v: &JsonValue) -> (r: Result<Rpc, SettingsError>)
    ensures
        match r {
            Ok(rpc) => rpc_error(*v) is None && is_config_rpc(rpc, *v),
            Err(e) => rpc_error(*v) == Some(e),
        },
{
    let t = Some(v);
    let url = match str_entry(t, "url") {
        Some(u) => u,
        None => {
            return Err(SettingsError::RpcMissingUrl);
        },
    };
    let ws_url = str_entry(t, "ws_url");
    let max_consecutive = match int_entry(t, "max_consecutive", 0xffff_ffff) {
        Ok(Some(n)) => n as u32,
        Ok(None) => {
            return Err(SettingsError::RpcMissingMaxConsecutive);
        },
        Err(()) => {
            return Err(SettingsError::RpcMaxConsecutive);
        },
    };
    let mut delta = match int_entry(t, "max_per_second", u64::MAX) {
        Ok(Some(n)) => n,
        Ok(None) => {
            return Err(SettingsError::RpcMissingMaxPerSecond);
        },
        Err(()) => {
            return Err(SettingsError::RpcMaxPerSecond);
        },
    };
    if delta != 0 {
        delta = 1_000_000 / delta;
    }
    Ok(Rpc::new(url, ws_url, max_consecutive, delta as u128))
}

/// Once a node among the first `n` is unusable, the first error among more
/// nodes is still its error.
proof fn lemma_rpcs_error_stays(items: Seq<JsonValue>, n: int, m: int)
    requires
        n <= m,
        rpcs_error(items, n) is Some,
    ensures
        rpcs_error(items, m) == rpcs_error(items, n),
    decreases m - n,
{
    if n < m {
        lemma_rpcs_error_stays(items, n, m - 1);
    }
}

/// The nodes of the config file's list, and whether each has a WebSocket
/// URL.
fn config_rpcs(config: Option<&JsonValue>) -> (r: Result<(Option<Vec<Rpc>>, bool), SettingsError>)
    ensures
        match r {
            Ok((list, all_ws)) => {
                &&& all_ws == config_all_ws(opt_value(config))
                &&& match config_rpc_items(opt_value(config)) {
                    Some(items) => {
                        &&& rpcs_error(items, items.len() as int) is None
                        &&& list matches Some(v) && v@.len() == items.len() && forall|i: int|
                            #![trigger v@[i]]
                            0 <= i < v@.len() ==> is_config_rpc(v@[i], items[i])
                    },
                    None => list is None,
                }
            },
            Err(e) => config_rpc_items(opt_value(config)) matches Some(items) && rpcs_error(
                items,
                items.len() as int,
            ) == Some(e),
        },
{
    let items = match get_member(config, "rpc") {
        Some(v) => match v.as_array() {
            Some(items) => items,
            None => {
                return Ok((None, true));
            },
        },
        None => {
            return Ok((None, true));
        },
    };
    let mut out: Vec<Rpc> = Vec::new();
    let mut all_ws = true;
    let mut i: usize = 0;
    while i < items.len()
        invariant
            config_rpc_items(opt_value(config)) == Some(items@),
            i <= items@.len(),
            out@.len() == i,
            rpcs_error(items@, i as int) is None,
            all_ws == (forall|k: int| 0 <= k < i ==> has_ws(#[trigger] items@[k])),
            forall|k: int| #![trigger out@[k]] 0 <= k < i ==> is_config_rpc(out@[k], items@[k]),
        decreases items@.len() - i,
    {
        let rpc = match config_rpc(&items[i]) {
            Ok(rpc) => rpc,
            Err(e) => {
                proof {
                    assert(rpcs_error(items@, i + 1) == Some(e));
                    lemma_rpcs_error_stays(items@, i + 1, items@.len() as int);
                }
                return Err(e);
            },
        };
        if rpc.ws_url.is_none() {
            all_ws = false;
        }
        let ghost before = out@;
        out.push(rpc);
        proof {
            assert(rpcs_error(items@, i + 1) is None);
            assert forall|k: int| 0 <= k < i implies #[trigger] out@[k] == before[k] by {}
            assert(all_ws == (forall|k: int| 0 <= k < i + 1 ==> has_ws(#[trigger] items@[k])));
        }
        i = i + 1;
    }
    Ok((Some(out), all_ws))
}

/// The admin settings, when the admin namespace is on.
fn resolve_admin(args: &Blutgang, admin_table: Option<&JsonValue>) -> (r: Result<AdminSettings, SettingsError>)
    ensures
        match r {
            Ok(adm) => {
                &&& int_setting(opt_value(admin_table), "port"@, 0xffff) is Ok
                &&& (flag_setting(args.admin_jwt, args.no_admin_jwt, toml_bool(table_get(opt_value(admin_table), "jwt"@)))
                    == Some(true) ==> text_option(args.admin_key, opt_value(admin_table), "key"@) is Some)
                &&& adm.enabled
                &&& adm.listen@ == text_or(
                    listen_text(
                        text_option(args.admin_address, opt_value(admin_table), "address"@),
                        port_option(args.admin_port, opt_value(admin_table), "port"@),
                    ),
                    "127.0.0.1:3001"@,
                )
                &&& adm.readonly == flag_or(
                    flag_setting(
                        args.admin_readonly,
                        args.no_admin_readonly,
                        toml_bool(table_get(opt_value(admin_table), "readonly"@)),
                    ),
                    false,
                )
                &&& adm.jwt == flag_or(
                    flag_setting(args.admin_jwt, args.no_admin_jwt, toml_bool(table_get(opt_value(admin_table), "jwt"@))),
                    false,
                )
                &&& opt_chars(adm.key) == if flag_setting(
                    args.admin_jwt,
                    args.no_admin_jwt,
                    toml_bool(table_get(opt_value(admin_table), "jwt"@)),
                ) == Some(true) {
                    text_option(args.admin_key, opt_value(admin_table), "key"@)
                } else {
                    None
                }
            },
            Err(e) => {
                ||| e == SettingsError::AdminPort && int_setting(opt_value(admin_table), "port"@, 0xffff) is Err
                ||| e == SettingsError::MissingJwtKey && int_setting(opt_value(admin_table), "port"@, 0xffff) is Ok
                    && flag_setting(args.admin_jwt, args.no_admin_jwt, toml_bool(table_get(opt_value(admin_table), "jwt"@)))
                    == Some(true) && text_option(args.admin_key, opt_value(admin_table), "key"@) is None
            },
        },
{
    let address = text_of(&args.admin_address, admin_table, "address");
    let port = match port_of(args.admin_port, admin_table, "port") {
        Ok(p) => p,
        Err(()) => {
            return Err(SettingsError::AdminPort);
        },
    };
    let listen = text_or_default(listen_of(address, port), "127.0.0.1:3001");
    let readonly = flag_or_default(flag(args.admin_readonly, args.no_admin_readonly, bool_entry(admin_table, "readonly")), false);
    let jwt_flag = flag(args.admin_jwt, args.no_admin_jwt, bool_entry(admin_table, "jwt"));
    let jwt = flag_or_default(jwt_flag, false);
    let key = if jwt_flag == Some(true) {
        match text_of(&args.admin_key, admin_table, "key") {
            Some(k) => Some(k),
            None => {
                return Err(SettingsError::MissingJwtKey);
            },
        }
    } else {
        None
    };
    Ok(AdminSettings { enabled: true, listen, readonly, jwt, key })
}

/// A flag's value, `default` when nothing sets it.
fn flag_or_default(f: Option<bool>, default: bool) -> (r: bool)
    ensures
        r == flag_or(f, default),
{
    match f {
        Some(b) => b,
        None => default,
    }
}

/// A text, `default` when there is none.
fn text_or_default(t: Option<String>, default: &str) -> (r: String)
    ensures
        r@ == text_or(opt_chars(t), default@),
{
    match t {
        Some(x) => x,
        None => default.to_string(),
    }
}

/// An integer setting of the `blutgang` table that must fit `0..=max`,
/// overridden by an option.
fn int_of(arg: Option<u64>, t: Option<&JsonValue>, key: &str, max: u64) -> (r: Result<Option<u64>, ()>)
    ensures
        match r {
            Ok(p) => int_setting(opt_value(t), key@, max as int) is Ok && p == match arg {
                Some(n) => Some(n),
                None => match int_setting(opt_value(t), key@, max as int) {
                    Ok(Some(n)) => Some(n as u64),
                    _ => None::<u64>,
                },
            },
            Err(()) => int_setting(opt_value(t), key@, max as int) is Err,
        },
{
    let config_value = match int_entry(t, key, max) {
        Ok(v) => v,
        Err(()) => {
            return Err(());
        },
    };
    match arg {
        Some(n) => Ok(Some(n)),
        None => Ok(config_value),
    }
}

/// Resolves the settings from the command line options and the config file
/// (as a tree of values). Fails with the first setting, in the order they
/// are read, that is present but unusable.
#[verifier::rlimit(40)]
#[verifier::spinoff_prover]
pub fn resolve_settings(args: Blutgang, config: Option<&JsonValue>) -> (r: Result<SettingsPlan, SettingsError>)
    ensures
        match r {
            Ok(plan) => settings_error(args, opt_value(config)) is None && resolves(plan, args, opt_value(config)),
            Err(e) => settings_error(args, opt_value(config)) == Some(e),
        },
{
    let ghost cfg = opt_value(config);
    let blutgang = get_table(get_member(config, "blutgang"));
    assert(opt_value(blutgang) == blutgang_table(cfg));
    let db = match args.db {
        Some(d) => d,
        None => match str_entry(blutgang, "db") {
            Some(s) => match db_from_name(s.as_str()) {
                Some(d) => d,
                None => Db::Sled,
            },
            None => Db::Sled,
        },
    };
    let address = text_of(&args.address, blutgang, "address");
    let port = match port_of(args.port, blutgang, "port") {
        Ok(p) => p,
        Err(()) => {
            proof {
                reveal(settings_error);
            }
            return Err(SettingsError::Port);
        },
    };
    let listen = text_or_default(listen_of(address, port), "127.0.0.1:3000");
    let config_ttl = match int_entry(blutgang, "ttl", u64::MAX) {
        Ok(t) => t,
        Err(()) => {
            proof {
                reveal(settings_error);
            }
            return Err(SettingsError::Ttl);
        },
    };
    let ttl: u128 = match args.ttl {
        Some(t) => t,
        None => match config_ttl {
            Some(t) => t as u128,
            None => 1000,
        },
    };
    let arg_retries: Option<u64> = match args.max_retries {
        Some(n) => Some(n as u64),
        None => None,
    };
    let max_retries: u32 = match int_of(arg_retries, blutgang, "max_retries", 0xffff_ffff) {
        Ok(Some(n)) => n as u32,
        Ok(None) => 32,
        Err(()) => {
            proof {
                reveal(settings_error);
            }
            return Err(SettingsError::MaxRetries);
        },
    };
    let expected_block_time = match int_of(args.expected_block_time, blutgang, "expected_block_time", u64::MAX) {
        Ok(t) => t,
        Err(()) => {
            proof {
                reveal(settings_error);
            }
            return Err(SettingsError::ExpectedBlockTime);
        },
    };
    let health_check_ttl: u64 = match int_of(args.health_check_ttl, blutgang, "health_check_ttl", u64::MAX) {
        Ok(Some(t)) => t,
        Ok(None) => 1000,
        Err(()) => {
            proof {
                reveal(settings_error);
            }
            return Err(SettingsError::HealthCheckTtl);
        },
    };
    let do_clear = flag_or_default(flag(args.clear_cache, args.no_clear_cache, bool_entry(blutgang, "clear_cache")), false);
    let sort_on_startup = flag_or_default(
        flag(args.sort_on_startup, args.no_sort_on_startup, bool_entry(blutgang, "sort_on_startup")),
        false,
    );
    let health_check = flag_or_default(
        flag(args.health_check, args.no_health_check, bool_entry(blutgang, "health_check")),
        false,
    );
    let header_check = flag_or_default(
        flag(args.header_check, args.no_header_check, bool_entry(blutgang, "header_check")),
        true,
    );
    let supress_rpc_check = flag_or_default(
        flag(args.supress_rpc_check, args.no_supress_rpc_check, bool_entry(blutgang, "supress_rpc_check")),
        true,
    );
    let admin = get_table(get_member(blutgang, "admin"));
    assert(opt_value(admin) == admin_table(cfg));
    let enabled = flag(args.admin, args.no_admin, bool_entry(admin, "enable"));
    let admin = if enabled == Some(true) {
        match resolve_admin(&args, admin) {
            Ok(adm) => adm,
            Err(e) => {
                proof {
                    reveal(settings_error);
                }
                return Err(e);
            },
        }
    } else {
        AdminSettings { enabled: false, listen: "127.0.0.1:3001".to_string(), readonly: false, jwt: false, key: None }
    };
    let (config_list, all_ws) = match config_rpcs(config) {
        Ok(found) => found,
        Err(e) => {
            proof {
                reveal(settings_error);
            }
            return Err(e);
        },
    };
    let is_ws = all_ws && expected_block_time != Some(0u64);
    let expected_block_time_given = expected_block_time.is_some();
    let expected_block_time: u64 = match expected_block_time {
        Some(t) => t,
        None => 12500,
    };
    let rpc_list = if !args.rpc_list.is_empty() {
        args.rpc_list.into_rpcs()
    } else {
        match config_list {
            Some(v) => v,
            None => Vec::new(),
        }
    };
    let plan = SettingsPlan {
        db,
        listen,
        ttl,
        max_retries,
        expected_block_time,
        expected_block_time_given,
        health_check_ttl,
        do_clear,
        sort_on_startup,
        health_check,
        header_check,
        supress_rpc_check,
        admin,
        rpc_list,
        is_ws,
    };
    proof {
        reveal(settings_error);
        reveal(resolves);
    }
    Ok(plan)
}

/// `toml::Value`, a parsed TOML document or a value in it.
#[verifier::external_type_specification]
#[verifier::external_body]
pub struct ExTomlValue(toml::Value);

/// The tree that the TOML text `text` parses to, as the settings read it;
/// `None` when the text is not TOML.
pub uninterp spec fn config_tree(text: Seq<char>) -> Option<JsonValue>;

/// Parses the config text with `toml`'s `FromStr` for `toml::Value`
/// (`text.parse::<toml::Value>()`) and converts the result one value for
/// one: strings, integers (as their decimal text), booleans, arrays and
/// tables (members in the map's order) keep their kind; a float becomes a
/// number written with its `Debug` form; a date becomes `null`. The contract
/// names the result: the same text gives the same tree.
#[verifier::external_body]
fn parse_config(text: &str) -> (r: Option<JsonValue>)
    ensures
        r == config_tree(text@),
{
    match text.parse::<toml::Value>() {
        Ok(v) => Some(toml_tree(&v)),
        Err(_) => None,
    }
}

/// Converts a `toml::Value` into the library's value, one variant for one
/// (the conversion `parse_config` makes).
#[verifier::external_body]
fn toml_tree(v: &toml::Value) -> JsonValue {
    match v {
        toml::Value::String(s) => JsonValue::Str(s.clone()),
        toml::Value::Integer(i) => JsonValue::Number(i.to_string()),
        toml::Value::Float(f) => JsonValue::Number(format!("{:?}", f)),
        toml::Value::Boolean(b) => JsonValue::Bool(*b),
        toml::Value::Datetime(_) => JsonValue::Null,
        toml::Value::Array(items) => JsonValue::Array(items.iter().map(toml_tree).collect()),
        toml::Value::Table(members) => JsonValue::Object(members.iter().map(|(k, x)| (k.clone(), toml_tree(x))).collect()),
    }
}

/// What resolving the settings from the command line `args` and the config
/// tree `cfg` gives: the plan, or the first unusable setting.
pub open spec fn settings_outcome(args: Blutgang, cfg: Option<JsonValue>, r: Result<SettingsPlan, SettingsError>) -> bool {
    match r {
        Ok(plan) => settings_error(args, cfg) is None && resolves(plan, args, cfg),
        Err(e) => settings_error(args, cfg) == Some(e),
    }
}

/// Resolves the settings from the command line options and the text of the
/// config file, if there is one: an error when the text is not TOML, else
/// what `resolve_settings` gives for the tree it parses to.
pub fn settings_from_text(args: Blutgang, text: Option<&str>) -> (r: Result<SettingsPlan, SettingsError>)
    ensures
        match text {
            None => settings_outcome(args, None, r),
            Some(t) => match config_tree(t@) {
                None => r matches Err(SettingsError::FailedDeserialization),
                Some(tree) => settings_outcome(args, Some(tree), r),
            },
        },
{
    match text {
        None => resolve_settings(args, None),
        Some(t) => match parse_config(t) {
            None => Err(SettingsError::FailedDeserialization),
            Some(tree) => resolve_settings(args, Some(&tree)),
        },
    }
}

} // verus!
