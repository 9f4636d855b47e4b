//! The curl command lines the tool runs, and how their replies are read.
//!
//! Every request is signed with `--aws-sigv4` and may be pinned to one IP with
//! `--resolve`.  Bucket checks and seed uploads only read the HTTP code that
//! `--write-out %{http_code}` prints.
use vstd::prelude::*;

use crate::status::Direction;
use crate::text::{chars_of, decimal, push_decimal, push_str, string_from, trim, trim_range, push_chars};
use crate::transfer::CurlConfig;
use crate::writeout::{join_lines, write_out_format, write_out_vars};

verus! {

/// The texts of a list of arguments.
pub open spec fn texts(v: Seq<String>) -> Seq<Seq<char>> {
    v.map_values(|a: String| a@)
}

/// `{endpoint}/{bucket}`
pub open spec fn bucket_url_spec(cfg: &CurlConfig) -> Seq<char> {
    cfg.endpoint@ + "/"@ + cfg.bucket@
}

/// `{endpoint}/{bucket}/{key}`
pub open spec fn object_url_spec(cfg: &CurlConfig, key: Seq<char>) -> Seq<char> {
    cfg.endpoint@ + "/"@ + cfg.bucket@ + "/"@ + key
}

/// The `--aws-sigv4` provider string: `aws:amz:{region}:s3`.
pub open spec fn sigv4_spec(cfg: &CurlConfig) -> Seq<char> {
    "aws:amz:"@ + cfg.region@ + ":s3"@
}

/// The `--user` credentials: `{access_key}:{secret_key}`.
pub open spec fn user_spec(cfg: &CurlConfig) -> Seq<char> {
    cfg.access_key@ + ":"@ + cfg.secret_key@
}

/// `--resolve {pin}` when the requests are pinned, else nothing.
pub open spec fn resolve_spec(cfg: &CurlConfig) -> Seq<Seq<char>> {
    match cfg.resolve {
        Some(r) => seq!["--resolve"@, r@],
        None => seq![],
    }
}

/// The arguments common to the bucket requests, up to the method.
pub open spec fn status_only_prefix(cfg: &CurlConfig) -> Seq<Seq<char>> {
    seq!["-s"@, "-o"@, "/dev/null"@, "-w"@, "%{http_code}"@, "-A"@, cfg.user_agent@]
}

/// `curl` arguments of the bucket-existence check (a signed HEAD request).
pub open spec fn head_bucket_args_spec(cfg: &CurlConfig) -> Seq<Seq<char>> {
    status_only_prefix(cfg) + seq!["-I"@, "--aws-sigv4"@, sigv4_spec(cfg), "--user"@, user_spec(cfg)]
        + resolve_spec(cfg) + seq![bucket_url_spec(cfg)]
}

/// `curl` arguments of the bucket creation (a signed PUT of the bucket).
pub open spec fn create_bucket_args_spec(cfg: &CurlConfig) -> Seq<Seq<char>> {
    status_only_prefix(cfg) + seq![
        "-X"@,
        "PUT"@,
        "--aws-sigv4"@,
        sigv4_spec(cfg),
        "--user"@,
        user_spec(cfg),
    ] + resolve_spec(cfg) + seq![bucket_url_spec(cfg)]
}

/// `curl` arguments of the seed upload (a signed PUT of the object from
/// standard input, limited to the timeout).
pub open spec fn seed_upload_args_spec(cfg: &CurlConfig, key: Seq<char>) -> Seq<Seq<char>> {
    status_only_prefix(cfg) + seq![
        "--aws-sigv4"@,
        sigv4_spec(cfg),
        "--user"@,
        user_spec(cfg),
        "--max-time"@,
        decimal(cfg.timeout as nat),
        "-X"@,
        "PUT"@,
        "-T"@,
        "-"@,
    ] + resolve_spec(cfg) + seq![object_url_spec(cfg, key)]
}

/// `curl` arguments of a measured transfer: the `--write-out` report goes to
/// standard output and the response headers to standard error; an upload
/// PUTs standard input.
pub open spec fn transfer_args_spec(cfg: &CurlConfig, direction: Direction, key: Seq<char>) -> Seq<
    Seq<char>,
> {
    seq![
        "-s"@,
        "-o"@,
        "/dev/null"@,
        "-w"@,
        join_lines(write_out_vars()),
        "-D"@,
        "/dev/stderr"@,
        "-A"@,
        cfg.user_agent@,
        "--aws-sigv4"@,
        sigv4_spec(cfg),
        "--user"@,
        user_spec(cfg),
        "--max-time"@,
        decimal(cfg.timeout as nat),
    ] + (if direction == Direction::Up {
        seq!["-X"@, "PUT"@, "-T"@, "-"@]
    } else {
        seq![]
    }) + resolve_spec(cfg) + seq![object_url_spec(cfg, key)]
}

fn push_arg(v: &mut Vec<String>, s: &str)
    ensures
        texts(final(v)@) == texts(old(v)@).push(s@),
{
    v.push(string_from(s));
    assert(texts(final(v)@) =~= texts(old(v)@).push(s@));
}

fn push_owned(v: &mut Vec<String>, s: String)
    ensures
        texts(final(v)@) == texts(old(v)@).push(s@),
{
    v.push(s);
    assert(texts(final(v)@) =~= texts(old(v)@).push(s@));
}

fn sigv4_arg(cfg: &CurlConfig) -> (s: String)
    ensures
        s@ == sigv4_spec(cfg),
{
    let mut s = string_from("aws:amz:");
    push_str(&mut s, cfg.region.as_str());
    push_str(&mut s, ":s3");
    s
}

fn user_arg(cfg: &CurlConfig) -> (s: String)
    ensures
        s@ == user_spec(cfg),
{
    let mut s = cfg.access_key.clone();
    push_str(&mut s, ":");
    push_str(&mut s, cfg.secret_key.as_str());
    s
}

/// The bucket's URL.
pub fn bucket_url(cfg: &CurlConfig) -> (s: String)
    ensures
        s@ == bucket_url_spec(cfg),
{
    let mut s = cfg.endpoint.clone();
    push_str(&mut s, "/");
    push_str(&mut s, cfg.bucket.as_str());
    s
}

/// The URL of object `key` in the bucket.
pub fn object_url(cfg: &CurlConfig, key: &str) -> (s: String)
    ensures
        s@ == object_url_spec(cfg, key@),
{
    let mut s = bucket_url(cfg);
    push_str(&mut s, "/");
    push_str(&mut s, key);
    s
}

fn push_resolve(v: &mut Vec<String>, cfg: &CurlConfig)
    ensures
        texts(final(v)@) == texts(old(v)@) + resolve_spec(cfg),
{
    match &cfg.resolve {
        Some(r) => {
            push_arg(v, "--resolve");
            push_owned(v, r.clone());
            assert(texts(final(v)@) =~= texts(old(v)@) + resolve_spec(cfg));
        },
        None => {
            assert(texts(final(v)@) =~= texts(old(v)@) + resolve_spec(cfg));
        },
    }
}

fn status_only_start(cfg: &CurlConfig) -> (v: Vec<String>)
    ensures
        texts(v@) == status_only_prefix(cfg),
{
    let mut v: Vec<String> = Vec::new();
    push_arg(&mut v, "-s");
    push_arg(&mut v, "-o");
    push_arg(&mut v, "/dev/null");
    push_arg(&mut v, "-w");
    push_arg(&mut v, "%{http_code}");
    push_arg(&mut v, "-A");
    push_owned(&mut v, cfg.user_agent.clone());
    assert(texts(v@) =~= status_only_prefix(cfg));
    v
}

/// The arguments of the bucket-existence check.
pub fn head_bucket_args(cfg: &CurlConfig) -> (v: Vec<String>)
    ensures
        texts(v@) == head_bucket_args_spec(cfg),
{
    let mut v = status_only_start(cfg);
    push_arg(&mut v, "-I");
    push_arg(&mut v, "--aws-sigv4");
    push_owned(&mut v, sigv4_arg(cfg));
    push_arg(&mut v, "--user");
    push_owned(&mut v, user_arg(cfg));
    push_resolve(&mut v, cfg);
    push_owned(&mut v, bucket_url(cfg));
    assert(texts(v@) =~= head_bucket_args_spec(cfg));
    v
}

/// The arguments of the bucket creation.
pub fn create_bucket_args(cfg: &CurlConfig) -> (v: Vec<String>)
    ensures
        texts(v@) == create_bucket_args_spec(cfg),
{
    let mut v = status_only_start(cfg);
    push_arg(&mut v, "-X");
    push_arg(&mut v, "PUT");
    push_arg(&mut v, "--aws-sigv4");
    push_owned(&mut v, sigv4_arg(cfg));
    push_arg(&mut v, "--user");
    push_owned(&mut v, user_arg(cfg));
    push_resolve(&mut v, cfg);
    push_owned(&mut v, bucket_url(cfg));
    assert(texts(v@) =~= create_bucket_args_spec(cfg));
    v
}

fn timeout_arg(cfg: &CurlConfig) -> (s: String)
    ensures
        s@ == decimal(cfg.timeout as nat),
{
    let mut s = String::new();
    push_decimal(&mut s, cfg.timeout as u64);
    assert(Seq::<char>::empty() + decimal(cfg.timeout as nat) =~= decimal(cfg.timeout as nat));
    s
}

/// The arguments of the seed upload of object `key`.
pub fn seed_upload_args(cfg: &CurlConfig, key: &str) -> (v: Vec<String>)
    ensures
        texts(v@) == seed_upload_args_spec(cfg, key@),
{
    let mut v = status_only_start(cfg);
    push_arg(&mut v, "--aws-sigv4");
    push_owned(&mut v, sigv4_arg(cfg));
    push_arg(&mut v, "--user");
    push_owned(&mut v, user_arg(cfg));
    push_arg(&mut v, "--max-time");
    push_owned(&mut v, timeout_arg(cfg));
    push_arg(&mut v, "-X");
    push_arg(&mut v, "PUT");
    push_arg(&mut v, "-T");
    push_arg(&mut v, "-");
    push_resolve(&mut v, cfg);
    push_owned(&mut v, object_url(cfg, key));
    assert(texts(v@) =~= seed_upload_args_spec(cfg, key@));
    v
}

/// The arguments of a measured transfer of object `key`.
pub fn transfer_args(cfg: &CurlConfig, direction: Direction, key: &str) -> (v: Vec<String>)
    ensures
        texts(v@) == transfer_args_spec(cfg, direction, key@),
{
    let mut v: Vec<String> = Vec::new();
    push_arg(&mut v, "-s");
    push_arg(&mut v, "-o");
    push_arg(&mut v, "/dev/null");
    push_arg(&mut v, "-w");
    push_owned(&mut v, write_out_format());
    push_arg(&mut v, "-D");
    push_arg(&mut v, "/dev/stderr");
    push_arg(&mut v, "-A");
    push_owned(&mut v, cfg.user_agent.clone());
    push_arg(&mut v, "--aws-sigv4");
    push_owned(&mut v, sigv4_arg(cfg));
    push_arg(&mut v, "--user");
    push_owned(&mut v, user_arg(cfg));
    push_arg(&mut v, "--max-time");
    push_owned(&mut v, timeout_arg(cfg));
    if direction == Direction::Up {
        push_arg(&mut v, "-X");
        push_arg(&mut v, "PUT");
        push_arg(&mut v, "-T");
        push_arg(&mut v, "-");
    }
    push_resolve(&mut v, cfg);
    push_owned(&mut v, object_url(cfg, key));
    assert(texts(v@) =~= transfer_args_spec(cfg, direction, key@));
    v
}

/// Whether the HTTP code that curl printed, trimmed, is `200`.
pub open spec fn replied_200(stdout: Seq<char>) -> bool {
    trim(stdout) == "200"@
}

/// Whether curl printed HTTP code 200.
pub fn reply_is_200(stdout: &str) -> (b: bool)
    ensures
        b == replied_200(stdout@),
{
    let v = chars_of(stdout);
    let t = trim_range(v.as_slice(), 0, v.len());
    assert(v@.subrange(0, v@.len() as int) =~= v@);
    let ok = chars_of("200");
    if t.len() != ok.len() {
        assert(t@ != ok@);
        return false;
    }
    let mut i: usize = 0;
    while i < t.len()
        invariant
            i <= t@.len() == ok@.len(),
            t@ == trim(stdout@),
            ok@ == "200"@,
            forall|j: int| 0 <= j < i ==> t@[j] == ok@[j],
        decreases t@.len() - i,
    {
        if t[i] != ok[i] {
            assert(t@[i as int] != ok@[i as int]);
            return false;
        }
        i = i + 1;
    }
    assert(t@ =~= ok@);
    true
}

/// The reply to a request whose only success is HTTP 200: `Ok` on 200, else
/// an error `"{what} returned HTTP {code}"` with the trimmed code.
pub open spec fn status_reply_spec(what: Seq<char>, stdout: Seq<char>) -> Result<(), Seq<char>> {
    if replied_200(stdout) {
        Ok(())
    } else {
        Err(what + " returned HTTP "@ + trim(stdout))
    }
}

/// Reads the reply to a request that must answer HTTP 200; `what` names the
/// request in the error.
pub fn status_reply(what: &str, stdout: &str) -> (r: Result<(), String>)
    ensures
        match status_reply_spec(what@, stdout@) {
            Ok(()) => r is Ok,
            Err(m) => r matches Err(e) && e@ == m,
        },
{
    if reply_is_200(stdout) {
        Ok(())
    } else {
        let mut e = string_from(what);
        push_str(&mut e, " returned HTTP ");
        let v = chars_of(stdout);
        let t = trim_range(v.as_slice(), 0, v.len());
        assert(v@.subrange(0, v@.len() as int) =~= v@);
        push_chars(&mut e, t.as_slice());
        Err(e)
    }
}

/// Whether an argument list ends with `--resolve {pin}` and then the URL.
pub open spec fn pinned_before_url(args: Seq<Seq<char>>, pin: Seq<char>) -> bool {
    &&& args.len() >= 3
    &&& args[args.len() - 3] == "--resolve"@
    &&& args[args.len() - 2] == pin
}

/// Every request is pinned when the user pins one: with a `--resolve` pin
/// configured, the bucket check, the bucket creation, the seed upload and
/// both kinds of measured transfer all pass `--resolve {pin}` just before
/// their URL, and every one of them ends with its URL.
pub proof fn lemma_every_request_pinned(cfg: &CurlConfig, direction: Direction, key: Seq<char>)
    requires
        cfg.resolve is Some,
    ensures
        pinned_before_url(head_bucket_args_spec(cfg), cfg.resolve->0@),
        pinned_before_url(create_bucket_args_spec(cfg), cfg.resolve->0@),
        pinned_before_url(seed_upload_args_spec(cfg, key), cfg.resolve->0@),
        pinned_before_url(transfer_args_spec(cfg, direction, key), cfg.resolve->0@),
        head_bucket_args_spec(cfg).last() == bucket_url_spec(cfg),
        create_bucket_args_spec(cfg).last() == bucket_url_spec(cfg),
        seed_upload_args_spec(cfg, key).last() == object_url_spec(cfg, key),
        transfer_args_spec(cfg, direction, key).last() == object_url_spec(cfg, key),
{
}

} // verus!
