//! Process facts: the fixed-position process status record, whose second
//! field is the parenthesized process name. The name may contain
//! whitespace and parentheses, so it is located from the first `(` to
//! the last `)`, never by naive whitespace splitting; the remaining
//! fields are positional.

use vstd::prelude::*;

use crate::error::DecodeReason;
use crate::error::RsysError;
use crate::listing::DirListing;
use crate::listing::readable_names;
use crate::text::all_digits;
use crate::text::dec_val;
use crate::text::find_char;
use crate::text::i64_val;
use crate::text::parse_i64;
use crate::text::parse_u64;
use crate::text::parses_to_i64;
use crate::text::parses_to_u64;
use crate::text::rfind_char;
use crate::text::split_whitespace;
use crate::text::split_ws;
use crate::text::trim;
use crate::text::trim_spec;

verus! {

/// One process's scheduling and resource facts, in the conventional
/// positional layout of the status record.
#[derive(Clone, Debug)]
pub struct ProcessStat {
    pub pid: i32,
    pub name: String,
    pub state: char,
    pub ppid: i64,
    pub pgrp: i64,
    pub session: i64,
    pub tty_nr: i64,
    pub tpgid: i64,
    pub flags: u64,
    pub minflt: u64,
    pub cminflt: u64,
    pub majflt: u64,
    pub cmajflt: u64,
    pub utime: u64,
    pub stime: u64,
    pub cutime: i64,
    pub cstime: i64,
    pub priority: i64,
    pub nice: i64,
    pub num_threads: i64,
    pub itrealvalue: i64,
    pub starttime: u64,
    pub vsize: u64,
    pub rss: i64,
}

/// The mathematical model of a process record.
pub struct ProcessStatV {
    pub pid: int,
    pub name: Seq<char>,
    pub state: char,
    pub ppid: int,
    pub pgrp: int,
    pub session: int,
    pub tty_nr: int,
    pub tpgid: int,
    pub flags: int,
    pub minflt: int,
    pub cminflt: int,
    pub majflt: int,
    pub cmajflt: int,
    pub utime: int,
    pub stime: int,
    pub cutime: int,
    pub cstime: int,
    pub priority: int,
    pub nice: int,
    pub num_threads: int,
    pub itrealvalue: int,
    pub starttime: int,
    pub vsize: int,
    pub rss: int,
}

impl View for ProcessStat {
    type V = ProcessStatV;

    open spec fn view(&self) -> ProcessStatV {
        ProcessStatV {
            pid: self.pid as int,
            name: self.name@,
            state: self.state,
            ppid: self.ppid as int,
            pgrp: self.pgrp as int,
            session: self.session as int,
            tty_nr: self.tty_nr as int,
            tpgid: self.tpgid as int,
            flags: self.flags as int,
            minflt: self.minflt as int,
            cminflt: self.cminflt as int,
            majflt: self.majflt as int,
            cmajflt: self.cmajflt as int,
            utime: self.utime as int,
            stime: self.stime as int,
            cutime: self.cutime as int,
            cstime: self.cstime as int,
            priority: self.priority as int,
            nice: self.nice as int,
            num_threads: self.num_threads as int,
            itrealvalue: self.itrealvalue as int,
            starttime: self.starttime as int,
            vsize: self.vsize as int,
            rss: self.rss as int,
        }
    }
}

/// Whether the record has a first `(` and a last `)` in the right order:
/// the boundaries of the name field.
pub open spec fn ps_shape_ok(line: Seq<char>) -> bool {
    line.index_of_first('(') is Some && line.index_of_last(')') is Some
        && line.index_of_first('(')->0 < line.index_of_last(')')->0
}

/// The name field: the characters between the first `(` and the last `)`.
pub open spec fn ps_name(line: Seq<char>) -> Seq<char> {
    line.subrange(line.index_of_first('(')->0 + 1, line.index_of_last(')')->0)
}

/// The process id token: what stands before the first `(`, trimmed.
pub open spec fn ps_pid_tok(line: Seq<char>) -> Seq<char> {
    trim_spec(line.take(line.index_of_first('(')->0))
}

/// The positional fields after the name: the whitespace-split tokens
/// after the last `)`.
pub open spec fn ps_tail(line: Seq<char>) -> Seq<Seq<char>> {
    split_ws(line.skip(line.index_of_last(')')->0 + 1))
}

/// The number of positional fields after the name.
pub open spec fn ps_tail_len() -> int {
    50
}

/// Whether a record decodes: well-placed name boundaries, a process id
/// within range, the exact field count after the name, and each decoded
/// position numeric.
pub open spec fn ps_ok(line: Seq<char>) -> bool {
    let t = ps_tail(line);
    &&& ps_shape_ok(line)
    &&& parses_to_u64(ps_pid_tok(line))
    &&& dec_val(ps_pid_tok(line)) <= i32::MAX
    &&& t.len() == ps_tail_len()
    &&& t[0].len() == 1
    &&& parses_to_i64(t[1])
    &&& parses_to_i64(t[2])
    &&& parses_to_i64(t[3])
    &&& parses_to_i64(t[4])
    &&& parses_to_i64(t[5])
    &&& parses_to_u64(t[6])
    &&& parses_to_u64(t[7])
    &&& parses_to_u64(t[8])
    &&& parses_to_u64(t[9])
    &&& parses_to_u64(t[10])
    &&& parses_to_u64(t[11])
    &&& parses_to_u64(t[12])
    &&& parses_to_i64(t[13])
    &&& parses_to_i64(t[14])
    &&& parses_to_i64(t[15])
    &&& parses_to_i64(t[16])
    &&& parses_to_i64(t[17])
    &&& parses_to_i64(t[18])
    &&& parses_to_u64(t[19])
    &&& parses_to_u64(t[20])
    &&& parses_to_i64(t[21])
}

/// The decoded record of a well-formed status line.
pub open spec fn ps_record(line: Seq<char>) -> ProcessStatV {
    let t = ps_tail(line);
    ProcessStatV {
        pid: dec_val(ps_pid_tok(line)) as int,
        name: ps_name(line),
        state: t[0][0],
        ppid: i64_val(t[1]),
        pgrp: i64_val(t[2]),
        session: i64_val(t[3]),
        tty_nr: i64_val(t[4]),
        tpgid: i64_val(t[5]),
        flags: dec_val(t[6]) as int,
        minflt: dec_val(t[7]) as int,
        cminflt: dec_val(t[8]) as int,
        majflt: dec_val(t[9]) as int,
        cmajflt: dec_val(t[10]) as int,
        utime: dec_val(t[11]) as int,
        stime: dec_val(t[12]) as int,
        cutime: i64_val(t[13]),
        cstime: i64_val(t[14]),
        priority: i64_val(t[15]),
        nice: i64_val(t[16]),
        num_threads: i64_val(t[17]),
        itrealvalue: i64_val(t[18]),
        starttime: dec_val(t[19]) as int,
        vsize: dec_val(t[20]) as int,
        rss: i64_val(t[21]),
    }
}

fn tok_u64(toks: &Vec<String>, i: usize) -> (r: Option<u64>)
    requires
        i < toks@.len(),
    ensures
        r is Some <==> parses_to_u64(toks.deep_view()[i as int]),
        r matches Some(v) ==> v == dec_val(toks.deep_view()[i as int]),
{
    proof {
        assert(toks.deep_view()[i as int] == toks@[i as int]@);
    }
    parse_u64(toks[i].as_str())
}

fn tok_i64(toks: &Vec<String>, i: usize) -> (r: Option<i64>)
    requires
        i < toks@.len(),
    ensures
        r is Some <==> parses_to_i64(toks.deep_view()[i as int]),
        r matches Some(v) ==> v as int == i64_val(toks.deep_view()[i as int]),
{
    proof {
        assert(toks.deep_view()[i as int] == toks@[i as int]@);
    }
    parse_i64(toks[i].as_str())
}

fn bad_tok(toks: &Vec<String>, i: usize, line: &str) -> (e: RsysError)
    requires
        i < toks@.len(),
    ensures
        e matches RsysError::DecodeError { raw, reason: DecodeReason::BadNumber { .. } } && raw@
            == line@,
{
    RsysError::DecodeError {
        raw: String::from_str(line),
        reason: DecodeReason::BadNumber { field: toks[i].clone() },
    }
}

/// Decodes one process status record. The name field is bounded by the
/// first `(` and the last `)`, so a name containing whitespace or a
/// literal `)` still yields correct boundaries for every later field;
/// the tail must hold exactly the expected number of positional fields.
pub fn stat_process(line: &str) -> (r: Result<ProcessStat, RsysError>)
    ensures
        r is Ok <==> ps_ok(line@),
        r matches Ok(p) ==> p@ == ps_record(line@),
        r matches Err(e) ==> e matches RsysError::DecodeError { .. },
        !ps_shape_ok(line@) ==> (r matches Err(e) && e matches RsysError::DecodeError {
            reason: DecodeReason::MissingSeparator { .. },
            ..
        }),
        ps_shape_ok(line@) && ps_tail(line@).len() != ps_tail_len() ==> (r matches Err(e)
            && e matches RsysError::DecodeError {
            reason: DecodeReason::FieldCount { expected, actual },
            ..
        } && expected == 50 && actual == ps_tail(line@).len()),
{
    let n = line.unicode_len();
    let op = match find_char(line, '(') {
        Some(i) => i,
        None => {
            return Err(RsysError::DecodeError {
                raw: line.to_owned(),
                reason: DecodeReason::MissingSeparator { separator: '(' },
            });
        },
    };
    let cp = match rfind_char(line, ')') {
        Some(i) => i,
        None => {
            return Err(RsysError::DecodeError {
                raw: line.to_owned(),
                reason: DecodeReason::MissingSeparator { separator: ')' },
            });
        },
    };
    if op >= cp {
        return Err(RsysError::DecodeError {
            raw: line.to_owned(),
            reason: DecodeReason::MissingSeparator { separator: ')' },
        });
    }
    let name = line.substring_char(op + 1, cp).to_owned();
    let tail = line.substring_char(cp + 1, n);
    let toks = split_whitespace(tail);
    proof {
        assert(toks.deep_view() == ps_tail(line@));
    }
    if toks.len() != 50 {
        return Err(RsysError::DecodeError {
            raw: line.to_owned(),
            reason: DecodeReason::FieldCount { expected: 50, actual: toks.len() as u64 },
        });
    }
    let pid_tok = trim(line.substring_char(0, op));
    proof {
        assert(line@.subrange(0, op as int) =~= line@.take(op as int));
    }
    let pid = match parse_u64(pid_tok.as_str()) {
        Some(v) => {
            if v <= 0x7fffffff {
                v as i32
            } else {
                return Err(RsysError::DecodeError {
                    raw: line.to_owned(),
                    reason: DecodeReason::BadNumber { field: pid_tok },
                });
            }
        },
        None => {
            return Err(RsysError::DecodeError {
                raw: line.to_owned(),
                reason: DecodeReason::BadNumber { field: pid_tok },
            });
        },
    };
    let state_tok = &toks[0];
    if state_tok.as_str().unicode_len() != 1 {
        return Err(bad_tok(&toks, 0, line));
    }
    let state = state_tok.as_str().get_char(0);
    proof {
        assert(toks.deep_view()[0] == toks@[0]@);
    }
    let ppid = match tok_i64(&toks, 1) {
        Some(v) => v,
        None => {
            return Err(bad_tok(&toks, 1, line));
        },
    };
    let pgrp = match tok_i64(&toks, 2) {
        Some(v) => v,
        None => {
            return Err(bad_tok(&toks, 2, line));
        },
    };
    let session = match tok_i64(&toks, 3) {
        Some(v) => v,
        None => {
            return Err(bad_tok(&toks, 3, line));
        },
    };
    let tty_nr = match tok_i64(&toks, 4) {
        Some(v) => v,
        None => {
            return Err(bad_tok(&toks, 4, line));
        },
    };
    let tpgid = match tok_i64(&toks, 5) {
        Some(v) => v,
        None => {
            return Err(bad_tok(&toks, 5, line));
        },
    };
    let flags = match tok_u64(&toks, 6) {
        Some(v) => v,
        None => {
            return Err(bad_tok(&toks, 6, line));
        },
    };
    let minflt = match tok_u64(&toks, 7) {
        Some(v) => v,
        None => {
            return Err(bad_tok(&toks, 7, line));
        },
    };
    let cminflt = match tok_u64(&toks, 8) {
        Some(v) => v,
        None => {
            return Err(bad_tok(&toks, 8, line));
        },
    };
    let majflt = match tok_u64(&toks, 9) {
        Some(v) => v,
        None => {
            return Err(bad_tok(&toks, 9, line));
        },
    };
    let cmajflt = match tok_u64(&toks, 10) {
        Some(v) => v,
        None => {
            return Err(bad_tok(&toks, 10, line));
        },
    };
    let utime = match tok_u64(&toks, 11) {
        Some(v) => v,
        None => {
            return Err(bad_tok(&toks, 11, line));
        },
    };
    let stime = match tok_u64(&toks, 12) {
        Some(v) => v,
        None => {
            return Err(bad_tok(&toks, 12, line));
        },
    };
    let cutime = match tok_i64(&toks, 13) {
        Some(v) => v,
        None => {
            return Err(bad_tok(&toks, 13, line));
        },
    };
    let cstime = match tok_i64(&toks, 14) {
        Some(v) => v,
        None => {
            return Err(bad_tok(&toks, 14, line));
        },
    };
    let priority = match tok_i64(&toks, 15) {
        Some(v) => v,
        None => {
            return Err(bad_tok(&toks, 15, line));
        },
    };
    let nice = match tok_i64(&toks, 16) {
        Some(v) => v,
        None => {
            return Err(bad_tok(&toks, 16, line));
        },
    };
    let num_threads = match tok_i64(&toks, 17) {
        Some(v) => v,
        None => {
            return Err(bad_tok(&toks, 17, line));
        },
    };
    let itrealvalue = match tok_i64(&toks, 18) {
        Some(v) => v,
        None => {
            return Err(bad_tok(&toks, 18, line));
        },
    };
    let starttime = match tok_u64(&toks, 19) {
        Some(v) => v,
        None => {
            return Err(bad_tok(&toks, 19, line));
        },
    };
    let vsize = match tok_u64(&toks, 20) {
        Some(v) => v,
        None => {
            return Err(bad_tok(&toks, 20, line));
        },
    };
    let rss = match tok_i64(&toks, 21) {
        Some(v) => v,
        None => {
            return Err(bad_tok(&toks, 21, line));
        },
    };
    let p = ProcessStat {
        pid,
        name,
        state,
        ppid,
        pgrp,
        session,
        tty_nr,
        tpgid,
        flags,
        minflt,
        cminflt,
        majflt,
        cmajflt,
        utime,
        stime,
        cutime,
        cstime,
        priority,
        nice,
        num_threads,
        itrealvalue,
        starttime,
        vsize,
        rss,
    };
    proof {
        assert(ps_ok(line@));
        assert(p@ == ps_record(line@));
    }
    Ok(p)
}

// ------------------------------------------------------------------
// enumeration
// ------------------------------------------------------------------

/// Whether a namespace entry name denotes a process id: a numeral whose
/// value fits a 32-bit id.
pub open spec fn is_pid_name(s: Seq<char>) -> bool {
    s.len() > 0 && all_digits(s) && dec_val(s) <= i32::MAX
}

/// The process ids among the given entry names, in order.
pub open spec fn pids_spec(names: Seq<Seq<char>>) -> Seq<int>
    decreases names.len(),
{
    if names.len() == 0 {
        Seq::empty()
    } else if is_pid_name(names.first()) {
        seq![dec_val(names.first()) as int] + pids_spec(names.drop_first())
    } else {
        pids_spec(names.drop_first())
    }
}

/// The process ids found in the process namespace: every readable entry
/// whose name is a numeral, in listing order; non-numeric entries are
/// not processes and are skipped. Fails only when the namespace itself
/// cannot be listed.
pub fn pids(listing: &DirListing) -> (r: Result<Vec<i32>, RsysError>)
    ensures
        r is Ok <==> listing matches DirListing::Entries { .. },
        listing matches DirListing::Unavailable { path } ==> (r matches Err(e)
            && e matches RsysError::SourceUnavailable { source, .. } && source@ == path@),
        listing matches DirListing::Entries { entries } ==> (r matches Ok(v) && v@.map_values(
            |p: i32| p as int,
        ) == pids_spec(readable_names(entries@))),
{
    let entries = match listing {
        DirListing::Unavailable { path } => {
            return Err(RsysError::SourceUnavailable {
                source: path.clone(),
                reason: String::from_str("cannot list namespace directory"),
            });
        },
        DirListing::Entries { entries } => entries,
    };
    let names = crate::listing::entry_names(entries);
    let n = names.len();
    let mut out: Vec<i32> = Vec::new();
    let mut i: usize = 0;
    proof {
        assert(names.deep_view().skip(0) =~= names.deep_view());
        assert(out@.map_values(|p: i32| p as int) =~= Seq::<int>::empty());
    }
    while i < n
        invariant
            i <= n,
            n == names@.len(),
            names.deep_view() == readable_names(entries@),
            out@.map_values(|p: i32| p as int) + pids_spec(names.deep_view().skip(i as int))
                =~= pids_spec(names.deep_view()),
        decreases n - i,
    {
        proof {
            assert(names.deep_view().skip(i as int).first() == names.deep_view()[i as int]);
            assert(names.deep_view()[i as int] == names@[i as int]@);
            assert(names.deep_view().skip(i as int).drop_first() =~= names.deep_view().skip(i + 1));
        }
        let ghost pre = out@.map_values(|p: i32| p as int);
        match parse_u64(names[i].as_str()) {
            Some(v) => {
                if v <= 0x7fffffff {
                    out.push(v as i32);
                    proof {
                        assert(out@.map_values(|p: i32| p as int) =~= pre.push(v as int));
                    }
                }
            },
            None => {},
        }
        i = i + 1;
    }
    proof {
        assert(names.deep_view().skip(n as int).len() == 0);
        assert(out@.map_values(|p: i32| p as int) =~= pids_spec(names.deep_view()));
    }
    Ok(out)
}

/// The raw status record of one enumerated process, or an entry the
/// operating system would not let be read.
pub enum ProcEntry {
    Stat(String),
    Unreadable,
}

/// All decoded processes, in enumeration order.
#[derive(Clone, Debug)]
pub struct Processes(pub Vec<ProcessStat>);

/// The records that enumeration yields: each readable, well-formed
/// status record decoded, in order; entries that are unreadable or
/// malformed are skipped, never partially decoded.
pub open spec fn processes_spec(es: Seq<ProcEntry>) -> Seq<ProcessStatV>
    decreases es.len(),
{
    if es.len() == 0 {
        Seq::empty()
    } else {
        let rest = processes_spec(es.drop_first());
        match es.first() {
            ProcEntry::Stat(s) => if ps_ok(s@) {
                seq![ps_record(s@)] + rest
            } else {
                rest
            },
            ProcEntry::Unreadable => rest,
        }
    }
}

/// Decodes every readable status record, skipping unreadable and
/// malformed entries: enumeration is lenient per entry.
pub fn processes(entries: &Vec<ProcEntry>) -> (r: Processes)
    ensures
        r.0@.map_values(|p: ProcessStat| p@) == processes_spec(entries@),
{
    let n = entries.len();
    let mut out: Vec<ProcessStat> = Vec::new();
    let mut i: usize = 0;
    proof {
        assert(entries@.skip(0) =~= entries@);
        assert(out@.map_values(|p: ProcessStat| p@) =~= Seq::<ProcessStatV>::empty());
    }
    while i < n
        invariant
            i <= n,
            n == entries@.len(),
            out@.map_values(|p: ProcessStat| p@) + processes_spec(entries@.skip(i as int))
                =~= processes_spec(entries@),
        decreases n - i,
    {
        proof {
            assert(entries@.skip(i as int).first() == entries@[i as int]);
            assert(entries@.skip(i as int).drop_first() =~= entries@.skip(i + 1));
        }
        let ghost pre = out@.map_values(|p: ProcessStat| p@);
        match &entries[i] {
            ProcEntry::Stat(s) => {
                match stat_process(s.as_str()) {
                    Ok(p) => {
                        let ghost pv = p@;
                        out.push(p);
                        proof {
                            assert(out@.map_values(|p: ProcessStat| p@) =~= pre.push(pv));
                        }
                    },
                    Err(_) => {},
                }
            },
            ProcEntry::Unreadable => {},
        }
        i = i + 1;
    }
    proof {
        assert(entries@.skip(n as int).len() == 0);
        assert(out@.map_values(|p: ProcessStat| p@) =~= processes_spec(entries@));
    }
    Processes(out)
}

} // verus!
