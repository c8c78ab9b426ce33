//! Container resource limits and the commands sent into agent containers.

use vstd::prelude::*;

use crate::error::AppError;
use crate::text::{
    chars_of, ends_with, has_suffix, lemma_trim_idempotent, parse_i64, parse_i64_spec, sub_chars, trim,
    trim_spec,
};

verus! {

/// The number that `s` spells as an `i64`, or `default` where it spells none.
pub open spec fn parse_or(s: Seq<char>, default: int) -> int {
    match parse_i64_spec(s) {
        Some(v) => v as int,
        None => default,
    }
}

/// A memory limit in bytes: `"<n>Gi"` is `n` GiB, `"<n>Mi"` is `n` MiB, anything else
/// a number of bytes; the text is trimmed first, and a number that does not parse
/// counts as 4 (GiB), 4096 (MiB) or 4294967296 (bytes).
pub open spec fn memory_limit_bytes(s: Seq<char>) -> int {
    let t = trim_spec(s);
    if has_suffix(t, "Gi"@) {
        parse_or(t.take(t.len() - "Gi"@.len()), 4) * 1073741824
    } else if has_suffix(t, "Mi"@) {
        parse_or(t.take(t.len() - "Mi"@.len()), 4096) * 1048576
    } else {
        parse_or(t, 4294967296)
    }
}

/// A CPU quota in the scheduler's unit (100000 per core): the number of cores
/// that `s` spells, or 2 where it spells none. The text is not trimmed.
pub open spec fn cpu_quota_of(s: Seq<char>) -> int {
    parse_or(s, 2) * 100000
}

pub open spec fn fits_i64(v: int) -> bool {
    i64::MIN <= v <= i64::MAX
}

fn parse_i64_or(s: &[char], default: i64) -> (r: i64)
    ensures
        r == parse_or(s@, default as int),
{
    match parse_i64(s) {
        Some(v) => v,
        None => default,
    }
}

/// The amount and unit of a memory limit: the number's text, its default, and the
/// bytes in one unit.
fn memory_parts(s: &str) -> (r: (Vec<char>, i64, i64))
    ensures
        memory_limit_bytes(s@) == parse_or(r.0@, r.1 as int) * r.2,
        r.2 > 0,
{
    let all = chars_of(s);
    let t = trim(&all);
    let gi = chars_of("Gi");
    let mi = chars_of("Mi");
    if ends_with(&t, &gi) {
        (sub_chars(&t, 0, t.len() - gi.len()), 4, 1073741824)
    } else if ends_with(&t, &mi) {
        (sub_chars(&t, 0, t.len() - mi.len()), 4096, 1048576)
    } else {
        (t, 4294967296, 1)
    }
}

/// The memory limit in bytes that `s` gives (see `memory_limit_bytes`).
pub fn parse_memory(s: &str) -> (r: i64)
    requires
        fits_i64(memory_limit_bytes(s@)),
    ensures
        r == memory_limit_bytes(s@),
{
    let (num, default, unit) = memory_parts(s);
    let v = parse_i64_or(&num, default);
    v * unit
}

/// The memory limit in bytes that `s` gives, or `None` where it does not fit in an `i64`.
pub fn checked_memory_limit(s: &str) -> (r: Option<i64>)
    ensures
        r is Some <==> fits_i64(memory_limit_bytes(s@)),
        r matches Some(v) ==> v == memory_limit_bytes(s@),
{
    let (num, default, unit) = memory_parts(s);
    let v = parse_i64_or(&num, default);
    let p = (v as i128) * (unit as i128);
    if p < -9223372036854775808 || p > 9223372036854775807 {
        None
    } else {
        Some(p as i64)
    }
}

/// The CPU quota that `s` gives (see `cpu_quota_of`).
pub fn parse_cpu(s: &str) -> (r: i64)
    requires
        fits_i64(cpu_quota_of(s@)),
    ensures
        r == cpu_quota_of(s@),
{
    let cs = chars_of(s);
    parse_i64_or(&cs, 2) * 100000
}

/// The CPU quota that `s` gives, or `None` where it does not fit in an `i64`.
pub fn checked_cpu_quota(s: &str) -> (r: Option<i64>)
    ensures
        r is Some <==> fits_i64(cpu_quota_of(s@)),
        r matches Some(v) ==> v == cpu_quota_of(s@),
{
    let cs = chars_of(s);
    let p = (parse_i64_or(&cs, 2) as i128) * 100000;
    if p < -9223372036854775808 || p > 9223372036854775807 {
        None
    } else {
        Some(p as i64)
    }
}

/// The error for an agent image that the Docker host does not hold.
pub fn image_missing_error(image: &str) -> (r: AppError)
    ensures
        r is BadRequest,
        r.detail_view() == "Image '"@ + image@ + "' not found locally. Run: docker build -t "@
            + image@ + " -f agent-image/Dockerfile ."@,
{
    let mut m = String::from_str("Image '");
    m.append(image);
    m.append("' not found locally. Run: docker build -t ");
    m.append(image);
    m.append(" -f agent-image/Dockerfile .");
    AppError::BadRequest(m)
}

/// The shell command that unpacks a tar stream from stdin into `dest`,
/// creating the directory first.
pub fn tar_extract_command(dest: &str) -> (r: String)
    ensures
        r@ == "mkdir -p '"@ + dest@ + "' && tar -xf - -C '"@ + dest@ + "'"@,
{
    let mut m = String::from_str("mkdir -p '");
    m.append(dest);
    m.append("' && tar -xf - -C '");
    m.append(dest);
    m.append("'");
    m
}

/// The argument vector that runs `tar_extract_command(dest)` through `sh -c`.
pub fn tar_extract_argv(dest: &str) -> (r: Vec<String>)
    ensures
        r@.len() == 3,
        r@[0]@ == "sh"@,
        r@[1]@ == "-c"@,
        r@[2]@ == "mkdir -p '"@ + dest@ + "' && tar -xf - -C '"@ + dest@ + "'"@,
{
    let mut v: Vec<String> = Vec::new();
    v.push(String::from_str("sh"));
    v.push(String::from_str("-c"));
    v.push(tar_extract_command(dest));
    v
}

/// Whitespace around a memory limit does not change it.
pub proof fn lemma_memory_limit_ignores_outer_whitespace(s: Seq<char>)
    ensures
        memory_limit_bytes(trim_spec(s)) == memory_limit_bytes(s),
{
    lemma_trim_idempotent(s);
}

} // verus!
