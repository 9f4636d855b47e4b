//! The outcome of one curl transfer, and the configuration it runs with.
use vstd::prelude::*;

use crate::status::{classify, classify_spec, status_is_success, Status};

verus! {

/// Everything a curl invocation needs.  The SLOW, CRAWL and STALL thresholds
/// are durations in nanoseconds.
pub struct CurlConfig {
    pub endpoint: String,
    pub bucket: String,
    pub region: String,
    pub access_key: String,
    pub secret_key: String,
    pub timeout: u32,
    pub user_agent: String,
    pub resolve: Option<String>,
    pub slow_nanos: u64,
    pub crawl_nanos: u64,
    pub stall_nanos: u64,
}

/// What one transfer gave.  `elapsed_nanos` is the wall-clock duration;
/// `speed` is the payload rate in bytes per second, present for a successful
/// HTTP 200 transfer that took a non-zero time.
pub struct TransferResult {
    pub status: Status,
    pub http_code: u16,
    pub curl_exit: i32,
    pub remote_ip: Option<String>,
    pub elapsed_nanos: u64,
    pub speed: Option<u64>,
    pub cm_ref_id: Option<String>,
}

/// Bytes per second for `size_bytes` moved in `elapsed_nanos` nanoseconds,
/// rounded down and capped at `u64::MAX`.
pub open spec fn speed_spec(size_bytes: u64, elapsed_nanos: u64) -> int {
    let r = (size_bytes * 1_000_000_000) / (elapsed_nanos as int);
    if r > u64::MAX {
        u64::MAX as int
    } else {
        r
    }
}

/// The payload rate of a transfer, in bytes per second (rounded down, capped
/// at `u64::MAX`).
pub fn transfer_speed(size_bytes: u64, elapsed_nanos: u64) -> (r: u64)
    requires
        elapsed_nanos > 0,
    ensures
        r == speed_spec(size_bytes, elapsed_nanos),
{
    let num: u128 = size_bytes as u128 * 1_000_000_000u128;
    let q = num / elapsed_nanos as u128;
    if q > u64::MAX as u128 {
        u64::MAX
    } else {
        q as u64
    }
}

/// Builds the result of a finished curl run: the status is classified from
/// the exit code, HTTP code and elapsed time; a successful HTTP 200 transfer
/// that took some time gets its speed.
pub fn finish_transfer(
    curl_exit: i32,
    http_code: u16,
    remote_ip: Option<String>,
    cm_ref_id: Option<String>,
    elapsed_nanos: u64,
    size_bytes: u64,
    cfg: &CurlConfig,
) -> (r: TransferResult)
    ensures
        r.status == classify_spec(
            curl_exit,
            http_code,
            elapsed_nanos,
            cfg.slow_nanos,
            cfg.crawl_nanos,
            cfg.stall_nanos,
        ),
        r.http_code == http_code,
        r.curl_exit == curl_exit,
        r.remote_ip == remote_ip,
        r.cm_ref_id == cm_ref_id,
        r.elapsed_nanos == elapsed_nanos,
        r.speed == if status_is_success(r.status) && http_code == 200 && elapsed_nanos > 0 {
            Some(speed_spec(size_bytes, elapsed_nanos) as u64)
        } else {
            None
        },
{
    let status = classify(curl_exit, http_code, elapsed_nanos, cfg);
    let speed = if status.is_success() && http_code == 200 {
        if elapsed_nanos > 0 {
            Some(transfer_speed(size_bytes, elapsed_nanos))
        } else {
            None
        }
    } else {
        None
    };
    TransferResult {
        status,
        http_code,
        curl_exit,
        remote_ip,
        elapsed_nanos,
        speed,
        cm_ref_id,
    }
}

/// The result of a curl run that could not be started or waited for: exit
/// code -1, no HTTP code, no output.
pub fn failed_transfer(elapsed_nanos: u64, cfg: &CurlConfig) -> (r: TransferResult)
    ensures
        r.status == Status::CurlErr(-1i32),
        r.http_code == 0,
        r.curl_exit == -1,
        r.remote_ip is None,
        r.cm_ref_id is None,
        r.elapsed_nanos == elapsed_nanos,
        r.speed is None,
{
    finish_transfer(-1, 0, None, None, elapsed_nanos, 0, cfg)
}

} // verus!
