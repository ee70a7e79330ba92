//! Memory facts decoded from the key:value memory listing: each value
//! is a kilobyte-denominated numeral whose unit suffix is stripped and
//! determines the multiplier that normalizes it to bytes.

use vstd::prelude::*;

use crate::error::DecodeReason;
use crate::error::RsysError;
use crate::text::dec_val;
use crate::text::find_char;
use crate::text::find_labeled;
use crate::text::find_labeled_spec;
use crate::text::lemma_find_labeled_label;
use crate::text::lines_spec;
use crate::text::parse_u64;
use crate::text::parses_to_u64;
use crate::text::split_whitespace;
use crate::text::split_ws;
use crate::text::str_eq;
use crate::text::trim;
use crate::text::trim_spec;

verus! {

/// The value of a `label: value` line: what stands after the first
/// colon, trimmed.
pub open spec fn kv_value(line: Seq<char>) -> Seq<char> {
    trim_spec(line.skip(line.index_of_first(':')->0 + 1))
}

/// The value of the first line labeled `key`, if any: a repeated key is
/// represented by its first occurrence.
pub open spec fn lookup_spec(content: Seq<char>, key: Seq<char>) -> Option<Seq<char>> {
    match find_labeled_spec(lines_spec(content), key) {
        Some(l) => Some(kv_value(l)),
        None => None,
    }
}

/// Looks up the value of the first line labeled `key`.
pub fn lookup(content: &str, key: &str) -> (r: Option<String>)
    ensures
        match r {
            Some(v) => lookup_spec(content@, key@) == Some(v@),
            None => lookup_spec(content@, key@) is None,
        },
{
    match find_labeled(content, key) {
        Some(line) => {
            proof {
                lemma_find_labeled_label(lines_spec(content@), key@);
            }
            match find_char(line.as_str(), ':') {
                Some(ci) => {
                    let n = line.as_str().unicode_len();
                    let v = trim(line.as_str().substring_char(ci + 1, n));
                    proof {
                        assert(line@.subrange(ci + 1, line@.len() as int) =~= line@.skip(ci + 1));
                    }
                    Some(v)
                },
                None => {
                    // unreachable: a labeled line has a colon
                    proof {
                        assert(false);
                    }
                    None
                },
            }
        },
        None => None,
    }
}

/// The byte count denoted by a raw value: a bare numeral counts bytes;
/// a numeral with the kilobyte suffix is scaled by 1024.
pub open spec fn mem_bytes(v: Seq<char>) -> Option<nat> {
    let toks = split_ws(v);
    if toks.len() == 1 && parses_to_u64(toks[0]) {
        Some(dec_val(toks[0]))
    } else if toks.len() == 2 && parses_to_u64(toks[0]) && toks[1] == "kB"@ {
        Some(dec_val(toks[0]) * 1024)
    } else {
        None
    }
}

/// The byte count of the memory fact stored under `key`, when the key
/// is present, its value well formed, and the scaled count fits.
pub open spec fn mem_field(content: Seq<char>, key: Seq<char>) -> Option<nat> {
    match lookup_spec(content, key) {
        Some(v) => match mem_bytes(v) {
            Some(b) => if b <= u64::MAX {
                Some(b)
            } else {
                None
            },
            None => None,
        },
        None => None,
    }
}

/// Reads one memory fact: the first line labeled `key`, its numeral
/// scaled to bytes. A missing key names the key; a malformed or
/// oversized value names the offending value.
pub fn mem_field_exec(content: &str, key: &str) -> (r: Result<u64, RsysError>)
    ensures
        r is Ok <==> mem_field(content@, key@) is Some,
        r matches Ok(v) ==> Some(v as nat) == mem_field(content@, key@),
        r matches Err(e) ==> e matches RsysError::DecodeError { .. },
        lookup_spec(content@, key@) is None ==> (r matches Err(e)
            && e matches RsysError::DecodeError {
            reason: DecodeReason::MissingKey { key: k },
            ..
        } && k@ == key@),
{
    let v = match lookup(content, key) {
        Some(v) => v,
        None => {
            return Err(RsysError::DecodeError {
                raw: String::from_str(key),
                reason: DecodeReason::MissingKey { key: String::from_str(key) },
            });
        },
    };
    let toks = split_whitespace(v.as_str());
    if toks.len() == 1 {
        proof {
            assert(toks.deep_view()[0] == toks@[0]@);
        }
        match parse_u64(toks[0].as_str()) {
            Some(b) => {
                return Ok(b);
            },
            None => {
                return Err(RsysError::DecodeError {
                    raw: v.clone(),
                    reason: DecodeReason::BadNumber { field: v.clone() },
                });
            },
        }
    }
    if toks.len() == 2 {
        proof {
            assert(toks.deep_view()[0] == toks@[0]@);
            assert(toks.deep_view()[1] == toks@[1]@);
        }
        if str_eq(toks[1].as_str(), "kB") {
            match parse_u64(toks[0].as_str()) {
                Some(b) => {
                    match b.checked_mul(1024) {
                        Some(bytes) => {
                            return Ok(bytes);
                        },
                        None => {
                            return Err(RsysError::DecodeError {
                                raw: v.clone(),
                                reason: DecodeReason::BadNumber { field: v.clone() },
                            });
                        },
                    }
                },
                None => {
                    return Err(RsysError::DecodeError {
                        raw: v.clone(),
                        reason: DecodeReason::BadNumber { field: v.clone() },
                    });
                },
            }
        }
    }
    Err(RsysError::DecodeError {
        raw: v.clone(),
        reason: DecodeReason::BadNumber { field: v },
    })
}

/// Total and free physical memory, available memory, and total and
/// free swap, each in bytes.
#[derive(PartialEq, Eq, Structural, Clone, Copy, Debug)]
pub struct Memory {
    pub total: u64,
    pub free: u64,
    pub available: u64,
    pub swap_total: u64,
    pub swap_free: u64,
}

/// Decodes the memory facts from the key:value memory listing. Every
/// required key must be present with a well-formed value; a missing key
/// is reported by name.
pub fn memory(meminfo: &str) -> (r: Result<Memory, RsysError>)
    ensures
        r is Ok <==> (mem_field(meminfo@, "MemTotal"@) is Some && mem_field(meminfo@, "MemFree"@)
            is Some && mem_field(meminfo@, "MemAvailable"@) is Some && mem_field(
            meminfo@,
            "SwapTotal"@,
        ) is Some && mem_field(meminfo@, "SwapFree"@) is Some),
        r matches Ok(m) ==> (Some(m.total as nat) == mem_field(meminfo@, "MemTotal"@) && Some(
            m.free as nat,
        ) == mem_field(meminfo@, "MemFree"@) && Some(m.available as nat) == mem_field(
            meminfo@,
            "MemAvailable"@,
        ) && Some(m.swap_total as nat) == mem_field(meminfo@, "SwapTotal"@) && Some(
            m.swap_free as nat,
        ) == mem_field(meminfo@, "SwapFree"@)),
        r matches Err(e) ==> e matches RsysError::DecodeError { .. },
{
    let total = match mem_field_exec(meminfo, "MemTotal") {
        Ok(v) => v,
        Err(e) => {
            return Err(e);
        },
    };
    let free = match mem_field_exec(meminfo, "MemFree") {
        Ok(v) => v,
        Err(e) => {
            return Err(e);
        },
    };
    let available = match mem_field_exec(meminfo, "MemAvailable") {
        Ok(v) => v,
        Err(e) => {
            return Err(e);
        },
    };
    let swap_total = match mem_field_exec(meminfo, "SwapTotal") {
        Ok(v) => v,
        Err(e) => {
            return Err(e);
        },
    };
    let swap_free = match mem_field_exec(meminfo, "SwapFree") {
        Ok(v) => v,
        Err(e) => {
            return Err(e);
        },
    };
    Ok(Memory { total, free, available, swap_total, swap_free })
}

} // verus!
