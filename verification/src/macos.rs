//! Facts decoded from the raw output of symbolic control-endpoint
//! queries and diagnostic commands on the Darwin-style platform: the
//! boot-time value, the paging statistics listing, the routing query
//! output, and bare numeric values.

use vstd::prelude::*;

use crate::error::DecodeReason;
use crate::error::RsysError;
use crate::storage::has_prefix;
use crate::text::dec_rep;
use crate::text::dec_val;
use crate::text::lines_spec;
use crate::text::parse_u64;
use crate::text::parses_to_u64;
use crate::text::split_lines;
use crate::text::split_whitespace;
use crate::text::split_ws;
use crate::text::starts_with;
use crate::text::trim;
use crate::text::trim_spec;
use crate::text::u64_to_dec;

verus! {

// ------------------------------------------------------------------
// uptime
// ------------------------------------------------------------------

/// The width of the fixed prefix that precedes the boot-seconds
/// numeral in the boot-time value.
pub open spec fn boot_prefix_len() -> int {
    8
}

/// The boot instant in seconds: the numeral of the same width as `now`
/// that follows the fixed prefix of the boot-time value.
pub open spec fn boot_secs(boot: Seq<char>, now: u64) -> Option<nat> {
    let d = dec_rep(now as nat).len();
    if boot.len() >= boot_prefix_len() + d {
        let t = boot.subrange(boot_prefix_len(), boot_prefix_len() + d as int);
        if parses_to_u64(t) {
            Some(dec_val(t))
        } else {
            None
        }
    } else {
        None
    }
}

/// Seconds since boot: `now` minus the boot instant read from the raw
/// boot-time value. A short or non-numeric value, or a boot instant
/// after `now`, is malformed.
pub fn uptime(boot_raw: &str, now: u64) -> (r: Result<u64, RsysError>)
    ensures
        r is Ok <==> (match boot_secs(boot_raw@, now) {
            Some(b) => b <= now,
            None => false,
        }),
        r matches Ok(v) ==> Some((now - v) as nat) == boot_secs(boot_raw@, now),
        r matches Err(e) ==> e matches RsysError::DecodeError { .. },
{
    let digits = u64_to_dec(now);
    let d = digits.as_str().unicode_len();
    let n = boot_raw.unicode_len();
    if n < 8 || n - 8 < d {
        return Err(RsysError::DecodeError {
            raw: boot_raw.to_owned(),
            reason: DecodeReason::BadNumber { field: boot_raw.to_owned() },
        });
    }
    let t = boot_raw.substring_char(8, 8 + d);
    match parse_u64(t) {
        Some(b) => {
            if b <= now {
                Ok(now - b)
            } else {
                Err(RsysError::DecodeError {
                    raw: boot_raw.to_owned(),
                    reason: DecodeReason::BadNumber { field: t.to_owned() },
                })
            }
        },
        None => Err(RsysError::DecodeError {
            raw: boot_raw.to_owned(),
            reason: DecodeReason::BadNumber { field: t.to_owned() },
        }),
    }
}

// ------------------------------------------------------------------
// swap from the paging statistics listing
// ------------------------------------------------------------------

/// The first line whose trimmed form starts with `p`, trimmed, if any.
pub open spec fn find_pref_spec(ls: Seq<Seq<char>>, p: Seq<char>) -> Option<Seq<char>>
    decreases ls.len(),
{
    if ls.len() == 0 {
        None
    } else if has_prefix(trim_spec(ls.first()), p) {
        Some(trim_spec(ls.first()))
    } else {
        find_pref_spec(ls.drop_first(), p)
    }
}

/// The first line of `content` whose trimmed form starts with `prefix`,
/// trimmed.
pub fn find_pref(content: &str, prefix: &str) -> (r: Option<String>)
    ensures
        match r {
            Some(t) => find_pref_spec(lines_spec(content@), prefix@) == Some(t@),
            None => find_pref_spec(lines_spec(content@), prefix@) is None,
        },
{
    let ls = split_lines(content);
    let n = ls.len();
    let mut i: usize = 0;
    proof {
        assert(ls.deep_view().skip(0) =~= ls.deep_view());
    }
    while i < n
        invariant
            i <= n,
            n == ls@.len(),
            ls.deep_view() == lines_spec(content@),
            find_pref_spec(ls.deep_view().skip(i as int), prefix@) == find_pref_spec(
                ls.deep_view(),
                prefix@,
            ),
        decreases n - i,
    {
        proof {
            assert(ls.deep_view().skip(i as int).first() == ls.deep_view()[i as int]);
            assert(ls.deep_view()[i as int] == ls@[i as int]@);
            assert(ls.deep_view().skip(i as int).drop_first() =~= ls.deep_view().skip(i + 1));
        }
        let t = trim(ls[i].as_str());
        if starts_with(t.as_str(), prefix) {
            return Some(t);
        }
        i = i + 1;
    }
    proof {
        assert(ls.deep_view().skip(n as int).len() == 0);
    }
    None
}


/// The line that a successful prefix search returns carries the prefix.
proof fn lemma_find_pref_prefix(ls: Seq<Seq<char>>, p: Seq<char>)
    requires
        find_pref_spec(ls, p) is Some,
    ensures
        has_prefix(find_pref_spec(ls, p)->0, p),
    decreases ls.len(),
{
    if ls.len() > 0 && !has_prefix(trim_spec(ls.first()), p) {
        lemma_find_pref_prefix(ls.drop_first(), p);
    }
}

/// The characters of `s` without its trailing full stops.
pub open spec fn strip_dots_spec(s: Seq<char>) -> Seq<char>
    decreases s.len(),
{
    if s.len() > 0 && s.last() == '.' {
        strip_dots_spec(s.drop_last())
    } else {
        s
    }
}

proof fn lemma_strip_dots_take(s: Seq<char>, b: int)
    requires
        0 <= b <= s.len(),
        forall|k: int| b <= k < s.len() ==> s[k] == '.',
    ensures
        strip_dots_spec(s) == strip_dots_spec(s.take(b)),
    decreases s.len() - b,
{
    if b < s.len() {
        assert(s.drop_last() =~= s.take(s.len() - 1));
        lemma_strip_dots_take(s.take(s.len() - 1), b);
        assert(s.take(s.len() - 1).take(b) =~= s.take(b));
    } else {
        assert(s.take(s.len() as int) =~= s);
    }
}

/// `s` without its trailing full stops.
pub fn strip_dots(s: &str) -> (r: String)
    ensures
        r@ == strip_dots_spec(s@),
{
    let n = s.unicode_len();
    let mut b: usize = n;
    while b > 0 && s.get_char(b - 1) == '.'
        invariant
            b <= n,
            n == s@.len(),
            forall|k: int| b <= k < n ==> s@[k] == '.',
        decreases b,
    {
        b = b - 1;
    }
    proof {
        lemma_strip_dots_take(s@, b as int);
        if b > 0 {
            assert(s@.take(b as int).last() != '.');
        }
        assert(s@.subrange(0, b as int) =~= s@.take(b as int));
    }
    s.substring_char(0, b).to_owned()
}

/// The page count of the first statistics line starting with `label`:
/// its last whitespace token, trailing full stop removed.
pub open spec fn page_count(content: Seq<char>, label: Seq<char>) -> Option<nat> {
    match find_pref_spec(lines_spec(content), label) {
        Some(t) => {
            let toks = split_ws(t);
            if toks.len() > 0 && parses_to_u64(strip_dots_spec(toks.last())) {
                Some(dec_val(strip_dots_spec(toks.last())))
            } else {
                None
            }
        },
        None => None,
    }
}

/// Reads one page count from the paging statistics listing.
pub fn page_count_exec(content: &str, label: &str) -> (r: Result<u64, RsysError>)
    ensures
        r is Ok <==> page_count(content@, label@) is Some,
        r matches Ok(v) ==> Some(v as nat) == page_count(content@, label@),
        r matches Err(e) ==> e matches RsysError::DecodeError { .. },
{
    let line = match find_pref(content, label) {
        Some(t) => t,
        None => {
            return Err(RsysError::DecodeError {
                raw: String::from_str(label),
                reason: DecodeReason::MissingKey { key: String::from_str(label) },
            });
        },
    };
    let toks = split_whitespace(line.as_str());
    if toks.len() == 0 {
        return Err(RsysError::DecodeError {
            raw: line.clone(),
            reason: DecodeReason::BadNumber { field: line },
        });
    }
    let last = toks.len() - 1;
    proof {
        assert(toks.deep_view()[last as int] == toks@[last as int]@);
        assert(toks.deep_view().last() == toks.deep_view()[last as int]);
    }
    let tok = strip_dots(toks[last].as_str());
    match parse_u64(tok.as_str()) {
        Some(v) => Ok(v),
        None => Err(RsysError::DecodeError {
            raw: line.clone(),
            reason: DecodeReason::BadNumber { field: tok },
        }),
    }
}

/// The swap-backed byte count: the active and inactive page counts of
/// the paging statistics listing, added and scaled by the page size.
pub fn swap_total(vm_stat: &str, pagesize: u64) -> (r: Result<u64, RsysError>)
    ensures
        r is Ok <==> (match (
            page_count(vm_stat@, "Pages active"@),
            page_count(vm_stat@, "Pages inactive"@),
        ) {
            (Some(a), Some(b)) => a + b <= u64::MAX && (a + b) * pagesize <= u64::MAX,
            _ => false,
        }),
        r matches Ok(v) ==> v == (page_count(vm_stat@, "Pages active"@)->0 + page_count(
            vm_stat@,
            "Pages inactive"@,
        )->0) * pagesize,
        r matches Err(e) ==> e matches RsysError::DecodeError { .. },
{
    let active = match page_count_exec(vm_stat, "Pages active") {
        Ok(v) => v,
        Err(e) => {
            return Err(e);
        },
    };
    let inactive = match page_count_exec(vm_stat, "Pages inactive") {
        Ok(v) => v,
        Err(e) => {
            return Err(e);
        },
    };
    let pages = match active.checked_add(inactive) {
        Some(p) => p,
        None => {
            return Err(RsysError::DecodeError {
                raw: String::from_str(vm_stat),
                reason: DecodeReason::BadNumber { field: String::from_str("Pages") },
            });
        },
    };
    match pages.checked_mul(pagesize) {
        Some(v) => Ok(v),
        None => Err(RsysError::DecodeError {
            raw: String::from_str(vm_stat),
            reason: DecodeReason::BadNumber { field: String::from_str("Pages") },
        }),
    }
}

// ------------------------------------------------------------------
// network identity
// ------------------------------------------------------------------

/// The default interface: the value of the first `interface:` line of
/// the routing query output, or `None` when there is no such line —
/// an explicit absent value rather than an empty string.
pub fn default_iface(route_out: &str) -> (r: Option<String>)
    ensures
        match find_pref_spec(lines_spec(route_out@), "interface: "@) {
            Some(t) => r matches Some(s) && s@ == t.skip("interface: "@.len() as int),
            None => r is None,
        },
{
    proof {
        reveal_strlit("interface: ");
    }
    match find_pref(route_out, "interface: ") {
        Some(t) => {
            proof {
                lemma_find_pref_prefix(lines_spec(route_out@), "interface: "@);
                assert(t@.len() >= 11);
            }
            let n = t.as_str().unicode_len();
            Some(t.as_str().substring_char(11, n).to_owned())
        },
        None => None,
    }
}

/// This platform exposes no IPv6 lookup: always the empty string, as
/// the facts layer leaves it.
pub fn ipv6(_iface: &str) -> (r: Result<String, RsysError>)
    ensures
        r matches Ok(s) && s@ == Seq::<char>::empty(),
{
    Ok(String::new())
}

/// This platform exposes no hardware-address lookup: always the empty
/// string.
pub fn mac(_iface: &str) -> (r: Result<String, RsysError>)
    ensures
        r matches Ok(s) && s@ == Seq::<char>::empty(),
{
    Ok(String::new())
}

/// This platform enumerates no interfaces: always the empty collection.
pub fn interfaces() -> (r: Result<Vec<String>, RsysError>)
    ensures
        r matches Ok(v) && v@.len() == 0,
{
    Ok(Vec::new())
}

/// This platform exposes no domain name: always the empty string.
pub fn domainname() -> (r: Result<String, RsysError>)
    ensures
        r matches Ok(s) && s@ == Seq::<char>::empty(),
{
    Ok(String::new())
}

// ------------------------------------------------------------------
// bare numeric values
// ------------------------------------------------------------------

/// Parses a bare numeric control-endpoint value, trimmed, bounded by
/// a 16-bit core count.
pub fn cpu_cores(raw: &str) -> (r: Result<u16, RsysError>)
    ensures
        r is Ok <==> (parses_to_u64(trim_spec(raw@)) && dec_val(trim_spec(raw@)) <= u16::MAX),
        r matches Ok(v) ==> v as nat == dec_val(trim_spec(raw@)),
        r matches Err(e) ==> e matches RsysError::DecodeError { .. },
{
    let t = trim(raw);
    match parse_u64(t.as_str()) {
        Some(v) => {
            if v <= 0xffff {
                Ok(v as u16)
            } else {
                Err(RsysError::DecodeError {
                    raw: String::from_str(raw),
                    reason: DecodeReason::BadNumber { field: t },
                })
            }
        },
        None => Err(RsysError::DecodeError {
            raw: String::from_str(raw),
            reason: DecodeReason::BadNumber { field: t },
        }),
    }
}

/// Parses a bare numeric logical-core count, trimmed.
pub fn logical_cores(raw: &str) -> (r: Result<u16, RsysError>)
    ensures
        r is Ok <==> (parses_to_u64(trim_spec(raw@)) && dec_val(trim_spec(raw@)) <= u16::MAX),
        r matches Ok(v) ==> v as nat == dec_val(trim_spec(raw@)),
        r matches Err(e) ==> e matches RsysError::DecodeError { .. },
{
    cpu_cores(raw)
}

/// Parses the bare numeric total-memory value, trimmed, in bytes.
pub fn memory_total(raw: &str) -> (r: Result<usize, RsysError>)
    ensures
        r is Ok <==> (parses_to_u64(trim_spec(raw@)) && dec_val(trim_spec(raw@)) <= usize::MAX),
        r matches Ok(v) ==> v as nat == dec_val(trim_spec(raw@)),
        r matches Err(e) ==> e matches RsysError::DecodeError { .. },
{
    let t = trim(raw);
    match parse_u64(t.as_str()) {
        Some(v) => {
            if v <= usize::MAX as u64 {
                Ok(v as usize)
            } else {
                Err(RsysError::DecodeError {
                    raw: String::from_str(raw),
                    reason: DecodeReason::BadNumber { field: t },
                })
            }
        },
        None => Err(RsysError::DecodeError {
            raw: String::from_str(raw),
            reason: DecodeReason::BadNumber { field: t },
        }),
    }
}

/// This platform reports no free-memory figure: always zero.
pub fn memory_free() -> (r: Result<usize, RsysError>)
    ensures
        r matches Ok(v) && v == 0,
{
    Ok(0)
}

/// This platform reports no free-swap figure: always zero.
pub fn swap_free() -> (r: Result<usize, RsysError>)
    ensures
        r matches Ok(v) && v == 0,
{
    Ok(0)
}

} // verus!
