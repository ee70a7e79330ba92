//! Processor facts decoded from the free-text key:value listing. Keys
//! repeat once per logical core, so single-value facts take the first
//! occurrence as their deterministic representative, and per-core facts
//! are gathered by scanning the listing in order.

use vstd::prelude::*;

use crate::error::DecodeReason;
use crate::error::RsysError;
use crate::mem::kv_value;
use crate::mem::lookup;
use crate::mem::lookup_spec;
use crate::text::dec_val;
use crate::text::find_char;
use crate::text::line_label;
use crate::text::lines_spec;
use crate::text::parse_u64;
use crate::text::parses_to_u64;
use crate::text::split_lines;
use crate::text::str_eq;
use crate::text::trim;

verus! {

/// Identity and layout facts of the host processor, from the first
/// occurrence of each key.
#[derive(Clone, Debug)]
pub struct Processor {
    pub vendor_id: String,
    pub model_name: String,
    pub cpu_cores: u64,
    pub siblings: u64,
}

/// The numeral stored under `key`, when present and well formed.
pub open spec fn proc_num(content: Seq<char>, key: Seq<char>) -> Option<nat> {
    match lookup_spec(content, key) {
        Some(v) => if parses_to_u64(v) && dec_val(v) <= u64::MAX {
            Some(dec_val(v))
        } else {
            None
        },
        None => None,
    }
}

/// Decodes the single-value processor facts: each from the first
/// occurrence of its key, numeric ones parsed.
pub fn processor(cpuinfo: &str) -> (r: Result<Processor, RsysError>)
    ensures
        r is Ok <==> (lookup_spec(cpuinfo@, "vendor_id"@) is Some && lookup_spec(
            cpuinfo@,
            "model name"@,
        ) is Some && proc_num(cpuinfo@, "cpu cores"@) is Some && proc_num(cpuinfo@, "siblings"@)
            is Some),
        r matches Ok(p) ==> (Some(p.vendor_id@) == lookup_spec(cpuinfo@, "vendor_id"@) && Some(
            p.model_name@,
        ) == lookup_spec(cpuinfo@, "model name"@) && Some(p.cpu_cores as nat) == proc_num(
            cpuinfo@,
            "cpu cores"@,
        ) && Some(p.siblings as nat) == proc_num(cpuinfo@, "siblings"@)),
        r matches Err(e) ==> e matches RsysError::DecodeError { .. },
{
    let vendor_id = match lookup(cpuinfo, "vendor_id") {
        Some(v) => v,
        None => {
            return Err(missing_key("vendor_id"));
        },
    };
    let model_name = match lookup(cpuinfo, "model name") {
        Some(v) => v,
        None => {
            return Err(missing_key("model name"));
        },
    };
    let cpu_cores = match num_field(cpuinfo, "cpu cores") {
        Ok(v) => v,
        Err(e) => {
            return Err(e);
        },
    };
    let siblings = match num_field(cpuinfo, "siblings") {
        Ok(v) => v,
        Err(e) => {
            return Err(e);
        },
    };
    Ok(Processor { vendor_id, model_name, cpu_cores, siblings })
}

fn missing_key(key: &str) -> (e: RsysError)
    ensures
        e matches RsysError::DecodeError { reason: DecodeReason::MissingKey { key: k }, .. } && k@
            == key@,
{
    RsysError::DecodeError {
        raw: String::from_str(key),
        reason: DecodeReason::MissingKey { key: String::from_str(key) },
    }
}

fn num_field(content: &str, key: &str) -> (r: Result<u64, RsysError>)
    ensures
        r is Ok <==> proc_num(content@, key@) is Some,
        r matches Ok(v) ==> Some(v as nat) == proc_num(content@, key@),
        r matches Err(e) ==> e matches RsysError::DecodeError { .. },
{
    match lookup(content, key) {
        Some(v) => match parse_u64(v.as_str()) {
            Some(n) => Ok(n),
            None => Err(RsysError::DecodeError {
                raw: v.clone(),
                reason: DecodeReason::BadNumber { field: v },
            }),
        },
        None => Err(missing_key(key)),
    }
}

// ------------------------------------------------------------------
// per-core facts
// ------------------------------------------------------------------

/// One logical core: its id and its clock speed in whole megahertz.
#[derive(PartialEq, Eq, Structural, Clone, Copy, Debug)]
pub struct Core {
    pub id: u64,
    pub mhz: u64,
}

/// The ordered per-logical-core facts.
#[derive(Clone, Debug)]
pub struct Cores(pub Vec<Core>);

/// Scans the listing's lines: each core-id line opens a new core block,
/// and the first clock line inside a block supplies its clock token.
/// Yields, in order, one (id token, clock token) pair per block.
pub open spec fn core_scan(
    ls: Seq<Seq<char>>,
    cur: Option<(Seq<char>, Option<Seq<char>>)>,
) -> Seq<(Seq<char>, Option<Seq<char>>)>
    decreases ls.len(),
{
    if ls.len() == 0 {
        match cur {
            None => Seq::empty(),
            Some(c) => seq![c],
        }
    } else {
        let l = ls.first();
        let rest = ls.drop_first();
        if line_label(l) == Some("processor"@) {
            match cur {
                None => core_scan(rest, Some((kv_value(l), None))),
                Some(c) => seq![c] + core_scan(rest, Some((kv_value(l), None))),
            }
        } else if line_label(l) == Some("cpu MHz"@) {
            match cur {
                Some(c) => if c.1 is None {
                    core_scan(rest, Some((c.0, Some(kv_value(l)))))
                } else {
                    core_scan(rest, cur)
                },
                None => core_scan(rest, cur),
            }
        } else {
            core_scan(rest, cur)
        }
    }
}

/// The (id token, clock token) pairs of the listing's core blocks.
pub open spec fn core_pairs(content: Seq<char>) -> Seq<(Seq<char>, Option<Seq<char>>)> {
    core_scan(lines_spec(content), None)
}

/// The whole-megahertz part of a clock value: what stands before the
/// first decimal point.
pub open spec fn mhz_int_tok(v: Seq<char>) -> Seq<char> {
    match v.index_of_first('.') {
        Some(i) => v.take(i),
        None => v,
    }
}

/// Whether a core block decodes: a numeric id and a clock line whose
/// whole-megahertz part is numeric.
pub open spec fn core_pair_ok(p: (Seq<char>, Option<Seq<char>>)) -> bool {
    parses_to_u64(p.0) && p.1 is Some && parses_to_u64(mhz_int_tok(p.1->0))
}

/// The decoded core of a well-formed block.
pub open spec fn core_of(p: (Seq<char>, Option<Seq<char>>)) -> Core {
    Core { id: dec_val(p.0) as u64, mhz: dec_val(mhz_int_tok(p.1->0)) as u64 }
}

/// The model of an in-progress block.
pub open spec fn cur_view(cur: Option<(String, Option<String>)>) -> Option<
    (Seq<char>, Option<Seq<char>>),
> {
    match cur {
        None => None,
        Some(c) => Some(
            (
                c.0@,
                match c.1 {
                    Some(s) => Some(s@),
                    None => None,
                },
            ),
        ),
    }
}

fn close_pair(id_tok: String, mhz_tok: Option<String>) -> (r: Result<Core, RsysError>)
    ensures
        r is Ok <==> core_pair_ok((id_tok@, (cur_view(Some((id_tok, mhz_tok)))->0).1)),
        r matches Ok(c) ==> c == core_of((id_tok@, (cur_view(Some((id_tok, mhz_tok)))->0).1)),
        r matches Err(e) ==> e matches RsysError::DecodeError { .. },
{
    let id = match parse_u64(id_tok.as_str()) {
        Some(v) => v,
        None => {
            return Err(RsysError::DecodeError {
                raw: id_tok.clone(),
                reason: DecodeReason::BadNumber { field: id_tok },
            });
        },
    };
    let mhz_raw = match mhz_tok {
        Some(v) => v,
        None => {
            return Err(RsysError::DecodeError {
                raw: id_tok.clone(),
                reason: DecodeReason::MissingKey { key: String::from_str("cpu MHz") },
            });
        },
    };
    let n = mhz_raw.as_str().unicode_len();
    let ip = match find_char(mhz_raw.as_str(), '.') {
        Some(i) => i,
        None => n,
    };
    let int_part = mhz_raw.as_str().substring_char(0, ip);
    proof {
        assert(mhz_raw@.subrange(0, ip as int) =~= mhz_raw@.take(ip as int));
        if ip == n {
            assert(mhz_raw@.take(n as int) =~= mhz_raw@);
        }
    }
    match parse_u64(int_part) {
        Some(mhz) => Ok(Core { id, mhz }),
        None => Err(RsysError::DecodeError {
            raw: mhz_raw.clone(),
            reason: DecodeReason::BadNumber { field: mhz_raw },
        }),
    }
}

/// Decodes the key and value of a `label: value` line.
fn line_kv(line: &str) -> (r: Option<(String, String)>)
    ensures
        match r {
            Some(kv) => line_label(line@) == Some(kv.0@) && kv_value(line@) == kv.1@,
            None => line_label(line@) is None,
        },
{
    match find_char(line, ':') {
        Some(ci) => {
            let n = line.unicode_len();
            let lab = trim(line.substring_char(0, ci));
            let v = trim(line.substring_char(ci + 1, n));
            proof {
                assert(line@.subrange(0, ci as int) =~= line@.take(ci as int));
                assert(line@.subrange(ci + 1, line@.len() as int) =~= line@.skip(ci + 1));
            }
            Some((lab, v))
        },
        None => None,
    }
}

/// Decodes the per-core facts, in listing order: every core block must
/// have a numeric id and a well-formed clock line.
pub fn cores(cpuinfo: &str) -> (r: Result<Cores, RsysError>)
    ensures
        r is Ok <==> (forall|i: int|
            0 <= i < core_pairs(cpuinfo@).len() ==> core_pair_ok(#[trigger] core_pairs(cpuinfo@)[i])),
        r matches Ok(v) ==> v.0@ == core_pairs(cpuinfo@).map_values(
            |p: (Seq<char>, Option<Seq<char>>)| core_of(p),
        ),
        r matches Err(e) ==> e matches RsysError::DecodeError { .. },
{
    let ls = split_lines(cpuinfo);
    let n = ls.len();
    let mut out: Vec<Core> = Vec::new();
    let mut cur: Option<(String, Option<String>)> = None;
    let ghost all = core_pairs(cpuinfo@);
    let ghost mut closed: Seq<(Seq<char>, Option<Seq<char>>)> = Seq::empty();
    let mut i: usize = 0;
    proof {
        assert(ls.deep_view().skip(0) =~= ls.deep_view());
        assert(closed + core_scan(ls.deep_view().skip(0), cur_view(cur)) =~~= all);
    }
    while i < n
        invariant
            i <= n,
            n == ls@.len(),
            ls.deep_view() == lines_spec(cpuinfo@),
            all == core_pairs(cpuinfo@),
            closed + core_scan(ls.deep_view().skip(i as int), cur_view(cur)) =~~= all,
            closed.len() == out@.len(),
            forall|k: int| 0 <= k < closed.len() ==> core_pair_ok(#[trigger] closed[k]),
            forall|k: int| 0 <= k < closed.len() ==> out@[k] == core_of(#[trigger] closed[k]),
        decreases n - i,
    {
        proof {
            assert(ls.deep_view().skip(i as int).first() == ls.deep_view()[i as int]);
            assert(ls.deep_view()[i as int] == ls@[i as int]@);
            assert(ls.deep_view().skip(i as int).drop_first() =~= ls.deep_view().skip(i + 1));
        }
        match line_kv(ls[i].as_str()) {
            Some(kv) => {
                if str_eq(kv.0.as_str(), "processor") {
                    match cur {
                        Some(c) => {
                            let ghost cv = cur_view(cur)->0;
                            proof {
                                assert(core_scan(ls.deep_view().skip(i as int), cur_view(cur))
                                    == seq![cv] + core_scan(
                                    ls.deep_view().skip(i + 1),
                                    cur_view(Some((kv.1, None))),
                                ));
                                assert(all[closed.len() as int] == cv);
                            }
                            match close_pair(c.0, c.1) {
                                Ok(core) => {
                                    out.push(core);
                                    proof {
                                        closed = closed.push(cv);
                                    }
                                },
                                Err(e) => {
                                    proof {
                                        assert(!core_pair_ok(all[closed.len() as int]));
                                    }
                                    return Err(e);
                                },
                            }
                        },
                        None => {},
                    }
                    cur = Some((kv.1, None));
                } else if str_eq(kv.0.as_str(), "cpu MHz") {
                    match cur {
                        Some(c) => {
                            if c.1.is_none() {
                                cur = Some((c.0, Some(kv.1)));
                            } else {
                                cur = Some(c);
                            }
                        },
                        None => {
                            cur = None;
                        },
                    }
                }
            },
            None => {},
        }
        i = i + 1;
    }
    proof {
        assert(ls.deep_view().skip(n as int).len() == 0);
    }
    match cur {
        Some(c) => {
            let ghost cv = cur_view(cur)->0;
            proof {
                assert(core_scan(ls.deep_view().skip(n as int), cur_view(cur)) == seq![cv]);
                assert(all[closed.len() as int] == cv);
            }
            match close_pair(c.0, c.1) {
                Ok(core) => {
                    out.push(core);
                    proof {
                        closed = closed.push(cv);
                        assert(closed =~~= all);
                        assert(out@ =~= all.map_values(
                            |p: (Seq<char>, Option<Seq<char>>)| core_of(p),
                        ));
                    }
                    Ok(Cores(out))
                },
                Err(e) => {
                    proof {
                        assert(!core_pair_ok(all[closed.len() as int]));
                    }
                    Err(e)
                },
            }
        },
        None => {
            proof {
                assert(closed =~~= all);
                assert(out@ =~= all.map_values(|p: (Seq<char>, Option<Seq<char>>)| core_of(p)));
            }
            Ok(Cores(out))
        },
    }
}

} // verus!
