//! Command line options of the balancer, as plain values.
//!
//! They take precedence over the config file, which takes precedence over
//! the defaults.

use vstd::prelude::*;
use crate::rpc::types::{node_name, opt_chars, Rpc, Status};

verus! {

/// The database the cache lives in.
#[derive(Debug, Clone, Copy, PartialEq, Eq, Structural)]
pub enum Db {
    Sled,
    RocksDb,
}

/// The nodes given on the command line: the `i`th URL goes with the `i`th
/// WebSocket URL, request limit and requests-per-second limit, where given.
#[derive(Debug)]
pub struct RpcList {
    pub url: Vec<String>,
    pub ws_url: Vec<String>,
    pub max_consecutive: Vec<u32>,
    pub max_per_second: Vec<u64>,
}

/// The command line options (but for the config file's path and the
/// latency moving-average length, which the caller reads itself).
#[derive(Debug)]
pub struct Blutgang {
    pub rpc_list: RpcList,
    pub address: Option<String>,
    pub port: Option<u16>,
    pub ttl: Option<u128>,
    pub max_retries: Option<u32>,
    pub expected_block_time: Option<u64>,
    pub health_check_ttl: Option<u64>,
    pub clear_cache: bool,
    pub no_clear_cache: bool,
    pub sort_on_startup: bool,
    pub no_sort_on_startup: bool,
    pub health_check: bool,
    pub no_health_check: bool,
    pub header_check: bool,
    pub no_header_check: bool,
    pub supress_rpc_check: bool,
    pub no_supress_rpc_check: bool,
    pub db: Option<Db>,
    pub admin: bool,
    pub no_admin: bool,
    pub admin_address: Option<String>,
    pub admin_port: Option<u16>,
    pub admin_readonly: bool,
    pub no_admin_readonly: bool,
    pub admin_jwt: bool,
    pub no_admin_jwt: bool,
    pub admin_key: Option<String>,
}

/// The least time between two requests, in microseconds, for a limit of
/// `mps` requests per second (`0` for no limit).
pub open spec fn min_delta(mps: int) -> int {
    if mps != 0 {
        1_000_000int / mps
    } else {
        0
    }
}

/// `r` is a node not yet used, with these settings.
pub open spec fn is_fresh_rpc(
    r: Rpc,
    url: Seq<char>,
    ws_url: Option<Seq<char>>,
    max_consecutive: int,
    min_time_delta: int,
) -> bool {
    &&& r.url@ == url
    &&& r.name@ == node_name(url)
    &&& opt_chars(r.ws_url) == ws_url
    &&& r.max_consecutive == max_consecutive
    &&& r.min_time_delta == min_time_delta
    &&& r.status == (Status { is_erroring: false, last_error: 0, latency: 0 })
    &&& r.consecutive == 0
    &&& r.last_used == 0
}

impl RpcList {
    /// The WebSocket URL given for node `i`.
    pub open spec fn ws_url_at(&self, i: int) -> Option<Seq<char>> {
        if i < self.ws_url@.len() {
            Some(self.ws_url@[i]@)
        } else {
            None
        }
    }

    /// The most requests in a row given for node `i` (150 when not given).
    pub open spec fn max_consecutive_at(&self, i: int) -> int {
        if i < self.max_consecutive@.len() {
            self.max_consecutive@[i] as int
        } else {
            150
        }
    }

    /// The requests-per-second limit given for node `i` (200 when not
    /// given).
    pub open spec fn max_per_second_at(&self, i: int) -> int {
        if i < self.max_per_second@.len() {
            self.max_per_second@[i] as int
        } else {
            200
        }
    }

    /// No node is given.
    pub fn is_empty(&self) -> (r: bool)
        ensures
            r == (self.url@.len() == 0),
    {
        self.url.len() == 0
    }

    /// The nodes, in the order of their URLs.
    pub fn into_rpcs(self) -> (r: Vec<Rpc>)
        ensures
            r@.len() == self.url@.len(),
            forall|i: int|
                #![trigger r@[i]]
                0 <= i < r@.len() ==> is_fresh_rpc(
                    r@[i],
                    self.url@[i]@,
                    self.ws_url_at(i),
                    self.max_consecutive_at(i),
                    min_delta(self.max_per_second_at(i)),
                ),
    {
        let mut out: Vec<Rpc> = Vec::new();
        let mut i: usize = 0;
        while i < self.url.len()
            invariant
                i <= self.url@.len(),
                out@.len() == i,
                forall|k: int|
                    #![trigger out@[k]]
                    0 <= k < i ==> is_fresh_rpc(
                        out@[k],
                        self.url@[k]@,
                        self.ws_url_at(k),
                        self.max_consecutive_at(k),
                        min_delta(self.max_per_second_at(k)),
                    ),
            decreases self.url@.len() - i,
        {
            let mut delta: u64 = if i < self.max_per_second.len() {
                self.max_per_second[i]
            } else {
                200
            };
            if delta != 0 {
                delta = 1_000_000 / delta;
            }
            let ws_url = if i < self.ws_url.len() {
                Some(self.ws_url[i].clone())
            } else {
                None
            };
            let max_consecutive: u32 = if i < self.max_consecutive.len() {
                self.max_consecutive[i]
            } else {
                150
            };
            let rpc = Rpc::new(self.url[i].clone(), ws_url, max_consecutive, delta as u128);
            let ghost before = out@;
            out.push(rpc);
            proof {
                assert forall|k: int| 0 <= k < i implies #[trigger] out@[k] == before[k] by {}
            }
            i = i + 1;
        }
        out
    }
}

} // verus!
