//! Network facts: per-interface traffic counters decoded from the
//! sixteen-column interface statistics table, interface enumeration, and
//! address extraction from composite `address:port` strings.

use vstd::prelude::*;

use crate::error::DecodeReason;
use crate::error::RsysError;
use crate::listing::DirListing;
use crate::listing::entry_names;
use crate::listing::readable_names;
use crate::text::dec_rep;
use crate::text::dec_val;
use crate::text::find_char;
use crate::text::find_labeled;
use crate::text::find_labeled_spec;
use crate::text::is_ws;
use crate::text::lemma_dec_rep_val;
use crate::text::lemma_digits_plain;
use crate::text::lemma_split_ws_skip_ws;
use crate::text::lemma_split_ws_token;
use crate::text::lines_spec;
use crate::text::parse_u64;
use crate::text::parses_to_u64;
use crate::text::push_dec;
use crate::text::rfind_char;
use crate::text::split_lines;
use crate::text::split_whitespace;
use crate::text::split_ws;
use crate::text::str_eq;
use crate::text::trim;
use crate::text::trim_spec;

verus! {

/// Per-interface traffic counters: eight receive fields, then the same
/// eight for transmit, in the fixed order of the source table.
#[derive(PartialEq, Eq, Structural, Clone, Copy, Debug)]
pub struct InterfaceStat {
    pub rx_bytes: u64,
    pub rx_packets: u64,
    pub rx_errs: u64,
    pub rx_drop: u64,
    pub rx_fifo: u64,
    pub rx_frame: u64,
    pub rx_compressed: u64,
    pub rx_multicast: u64,
    pub tx_bytes: u64,
    pub tx_packets: u64,
    pub tx_errs: u64,
    pub tx_drop: u64,
    pub tx_fifo: u64,
    pub tx_frame: u64,
    pub tx_compressed: u64,
    pub tx_multicast: u64,
}

impl InterfaceStat {
    /// The sixteen counters in source order.
    pub open spec fn fields_spec(self) -> Seq<u64> {
        seq![
            self.rx_bytes,
            self.rx_packets,
            self.rx_errs,
            self.rx_drop,
            self.rx_fifo,
            self.rx_frame,
            self.rx_compressed,
            self.rx_multicast,
            self.tx_bytes,
            self.tx_packets,
            self.tx_errs,
            self.tx_drop,
            self.tx_fifo,
            self.tx_frame,
            self.tx_compressed,
            self.tx_multicast,
        ]
    }

    /// The sixteen counters in source order.
    pub fn fields(&self) -> (r: Vec<u64>)
        ensures
            r@ == self.fields_spec(),
    {
        let mut r: Vec<u64> = Vec::new();
        r.push(self.rx_bytes);
        r.push(self.rx_packets);
        r.push(self.rx_errs);
        r.push(self.rx_drop);
        r.push(self.rx_fifo);
        r.push(self.rx_frame);
        r.push(self.rx_compressed);
        r.push(self.rx_multicast);
        r.push(self.tx_bytes);
        r.push(self.tx_packets);
        r.push(self.tx_errs);
        r.push(self.tx_drop);
        r.push(self.tx_fifo);
        r.push(self.tx_frame);
        r.push(self.tx_compressed);
        r.push(self.tx_multicast);
        proof {
            assert(r@ =~= self.fields_spec());
        }
        r
    }
}

/// The record whose sixteen counters are `vals`, in source order.
pub open spec fn stat_from_values(vals: Seq<u64>) -> InterfaceStat {
    InterfaceStat {
        rx_bytes: vals[0],
        rx_packets: vals[1],
        rx_errs: vals[2],
        rx_drop: vals[3],
        rx_fifo: vals[4],
        rx_frame: vals[5],
        rx_compressed: vals[6],
        rx_multicast: vals[7],
        tx_bytes: vals[8],
        tx_packets: vals[9],
        tx_errs: vals[10],
        tx_drop: vals[11],
        tx_fifo: vals[12],
        tx_frame: vals[13],
        tx_compressed: vals[14],
        tx_multicast: vals[15],
    }
}

// ------------------------------------------------------------------
// decoding a statistics line
// ------------------------------------------------------------------

/// The whitespace-split tokens after the leading `name:` of a statistics
/// line; `None` when the line has no colon.
pub open spec fn iface_stat_tokens(line: Seq<char>) -> Option<Seq<Seq<char>>> {
    match line.index_of_first(':') {
        Some(i) => Some(split_ws(line.subrange(i + 1, line.len() as int))),
        None => None,
    }
}

/// Whether a line decodes: a colon, then exactly sixteen tokens, each a
/// decimal numeral that fits in 64 bits.
pub open spec fn iface_stat_ok(line: Seq<char>) -> bool {
    match iface_stat_tokens(line) {
        Some(toks) => toks.len() == 16 && (forall|i: int|
            0 <= i < 16 ==> parses_to_u64(#[trigger] toks[i])),
        None => false,
    }
}

/// The sixteen counter values of a well-formed line, in order.
pub open spec fn iface_stat_values(line: Seq<char>) -> Seq<u64> {
    match iface_stat_tokens(line) {
        Some(toks) => toks.map_values(|t: Seq<char>| dec_val(t) as u64),
        None => Seq::empty(),
    }
}

/// Decodes one line of the interface statistics table: a leading
/// `name:` token, then exactly sixteen whitespace-separated unsigned
/// counters. A wrong field count or a bad numeral fails with a
/// `DecodeError` carrying the offending line; no partial record is
/// ever returned.
pub fn decode_interface_stat(line: &str) -> (r: Result<InterfaceStat, RsysError>)
    ensures
        r is Ok <==> iface_stat_ok(line@),
        r matches Ok(st) ==> st == stat_from_values(iface_stat_values(line@)),
        r matches Err(e) ==> match iface_stat_tokens(line@) {
            None => e matches RsysError::DecodeError {
                raw,
                reason: DecodeReason::MissingSeparator { separator },
            } && raw@ == line@ && separator == ':',
            Some(toks) => {
                if toks.len() != 16 {
                    e matches RsysError::DecodeError {
                        raw,
                        reason: DecodeReason::FieldCount { expected, actual },
                    } && raw@ == line@ && expected == 16 && actual == toks.len()
                } else {
                    e matches RsysError::DecodeError {
                        raw,
                        reason: DecodeReason::BadNumber { .. },
                    } && raw@ == line@
                }
            },
        },
{
    let n = line.unicode_len();
    let ci = match find_char(line, ':') {
        Some(ci) => ci,
        None => {
            return Err(RsysError::DecodeError {
                raw: line.to_owned(),
                reason: DecodeReason::MissingSeparator { separator: ':' },
            });
        },
    };
    let body = line.substring_char(ci + 1, n);
    let toks = split_whitespace(body);
    proof {
        assert(iface_stat_tokens(line@) == Some(toks.deep_view()));
    }
    if toks.len() != 16 {
        return Err(RsysError::DecodeError {
            raw: line.to_owned(),
            reason: DecodeReason::FieldCount { expected: 16, actual: toks.len() as u64 },
        });
    }
    let mut vals: Vec<u64> = Vec::new();
    let mut i: usize = 0;
    while i < 16
        invariant
            i <= 16,
            toks.deep_view().len() == 16,
            iface_stat_tokens(line@) == Some(toks.deep_view()),
            vals@.len() == i,
            forall|k: int| 0 <= k < i ==> parses_to_u64(#[trigger] toks.deep_view()[k]),
            forall|k: int| 0 <= k < i ==> vals@[k] == dec_val(toks.deep_view()[k]),
        decreases 16 - i,
    {
        proof {
            assert(toks.deep_view()[i as int] == toks@[i as int]@);
        }
        match parse_u64(toks[i].as_str()) {
            Some(v) => {
                vals.push(v);
            },
            None => {
                proof {
                    assert(!parses_to_u64(toks.deep_view()[i as int]));
                }
                return Err(RsysError::DecodeError {
                    raw: line.to_owned(),
                    reason: DecodeReason::BadNumber { field: toks[i].clone() },
                });
            },
        }
        i = i + 1;
    }
    proof {
        assert(iface_stat_ok(line@));
        assert(vals@ =~= iface_stat_values(line@)) by {
            let tv = toks.deep_view();
            assert(forall|k: int|
                0 <= k < 16 ==> iface_stat_values(line@)[k] == dec_val(#[trigger] tv[k]) as u64);
        }
    }
    let st = InterfaceStat {
        rx_bytes: vals[0],
        rx_packets: vals[1],
        rx_errs: vals[2],
        rx_drop: vals[3],
        rx_fifo: vals[4],
        rx_frame: vals[5],
        rx_compressed: vals[6],
        rx_multicast: vals[7],
        tx_bytes: vals[8],
        tx_packets: vals[9],
        tx_errs: vals[10],
        tx_drop: vals[11],
        tx_fifo: vals[12],
        tx_frame: vals[13],
        tx_compressed: vals[14],
        tx_multicast: vals[15],
    };
    Ok(st)
}

// ------------------------------------------------------------------
// re-serializing a statistics line
// ------------------------------------------------------------------

/// The encoding of counter values: one space before each numeral.
pub open spec fn enc_fields(fields: Seq<u64>) -> Seq<char>
    decreases fields.len(),
{
    if fields.len() == 0 {
        Seq::empty()
    } else {
        seq![' '] + dec_rep(fields.first() as nat) + enc_fields(fields.drop_first())
    }
}

/// A full statistics line: the name, a colon, then the counters.
pub open spec fn enc_line(name: Seq<char>, fields: Seq<u64>) -> Seq<char> {
    name + seq![':'] + enc_fields(fields)
}

proof fn lemma_enc_fields_push(fields: Seq<u64>, x: u64)
    ensures
        enc_fields(fields.push(x)) == enc_fields(fields) + seq![' '] + dec_rep(x as nat),
    decreases fields.len(),
{
    if fields.len() == 0 {
        let p = fields.push(x);
        assert(p.first() == x);
        assert(p.drop_first() =~= Seq::<u64>::empty());
        assert(enc_fields(Seq::<u64>::empty()) == Seq::<char>::empty());
        assert(enc_fields(p) == seq![' '] + dec_rep(x as nat) + enc_fields(p.drop_first()));
        assert(enc_fields(fields.push(x)) =~= enc_fields(fields) + seq![' '] + dec_rep(x as nat));
    } else {
        assert(fields.push(x).first() == fields.first());
        assert(fields.push(x).drop_first() =~= fields.drop_first().push(x));
        lemma_enc_fields_push(fields.drop_first(), x);
        assert(enc_fields(fields.push(x)) =~= enc_fields(fields) + seq![' '] + dec_rep(x as nat));
    }
}

/// Splitting the encoding of counters on whitespace yields one numeral
/// token per counter.
proof fn lemma_enc_fields_split(fields: Seq<u64>)
    ensures
        split_ws(enc_fields(fields)) == fields.map_values(|v: u64| dec_rep(v as nat)),
    decreases fields.len(),
{
    if fields.len() == 0 {
        assert(split_ws(enc_fields(fields)) =~~= fields.map_values(|v: u64| dec_rep(v as nat)));
    } else {
        let d = dec_rep(fields.first() as nat);
        let rest = enc_fields(fields.drop_first());
        lemma_dec_rep_val(fields.first() as nat);
        lemma_digits_plain(d);
        let u = enc_fields(fields);
        assert(u == seq![' '] + d + rest);
        assert(u.first() == ' ');
        assert(is_ws(' '));
        lemma_split_ws_skip_ws(u);
        assert(u.drop_first() =~= d + rest);
        if fields.drop_first().len() == 0 {
            assert(rest.len() == 0);
            lemma_split_ws_token(d, rest);
        } else {
            assert(rest.first() == ' ');
            lemma_split_ws_token(d, rest);
        }
        lemma_enc_fields_split(fields.drop_first());
        assert(split_ws(u) == seq![d] + fields.drop_first().map_values(|v: u64| dec_rep(v as nat)));
        assert(split_ws(u) =~~= fields.map_values(|v: u64| dec_rep(v as nat)));
    }
}

/// Re-serializes a record as a statistics line with the given name:
/// the numeric payload in the same fixed order the decoder reads.
pub fn encode_interface_stat(name: &str, st: &InterfaceStat) -> (r: String)
    ensures
        r@ == enc_line(name@, st.fields_spec()),
{
    let fields = st.fields();
    let mut out = String::from_str(name);
    out.append(":");
    proof {
        reveal_strlit(":");
        assert(out@ =~= name@ + seq![':']);
    }
    let n = fields.len();
    let mut i: usize = 0;
    proof {
        assert(fields@.take(0) =~= Seq::<u64>::empty());
        assert(out@ =~= name@ + seq![':'] + enc_fields(fields@.take(0)));
    }
    while i < n
        invariant
            i <= n,
            n == fields@.len(),
            fields@ == st.fields_spec(),
            out@ == name@ + seq![':'] + enc_fields(fields@.take(i as int)),
        decreases n - i,
    {
        out.append(" ");
        proof {
            reveal_strlit(" ");
        }
        push_dec(fields[i], &mut out);
        proof {
            assert(fields@.take(i + 1) =~= fields@.take(i as int).push(fields@[i as int]));
            lemma_enc_fields_push(fields@.take(i as int), fields@[i as int]);
            assert(out@ =~= name@ + seq![':'] + enc_fields(fields@.take(i + 1)));
        }
        i = i + 1;
    }
    proof {
        assert(fields@.take(n as int) =~= fields@);
    }
    out
}

/// Round trip on the numeric payload: a statistics line built from any
/// record and any colon-free name is well formed and decodes back to
/// exactly the same sixteen counters, in the same order.
pub proof fn lemma_stat_round_trip(name: Seq<char>, st: InterfaceStat)
    requires
        !name.contains(':'),
    ensures
        iface_stat_ok(enc_line(name, st.fields_spec())),
        stat_from_values(iface_stat_values(enc_line(name, st.fields_spec()))) == st,
{
    let fields = st.fields_spec();
    let line = enc_line(name, fields);
    line.index_of_first_ensures(':');
    assert(line[name.len() as int] == ':');
    assert(line.contains(':'));
    match line.index_of_first(':') {
        Some(ix) => {
            if ix < name.len() {
                assert(line[ix] == name[ix]);
                assert(name.contains(':'));
                assert(false);
            }
            if ix > name.len() {
                assert(line[name.len() as int] != ':');
                assert(false);
            }
            assert(ix == name.len());
            let body = line.subrange(ix + 1, line.len() as int);
            assert(body =~= enc_fields(fields));
            lemma_enc_fields_split(fields);
            let toks = split_ws(body);
            assert(toks == fields.map_values(|v: u64| dec_rep(v as nat)));
            assert(toks.len() == 16);
            assert(forall|i: int| 0 <= i < 16 ==> #[trigger] toks[i] == dec_rep(fields[i] as nat));
            assert forall|i: int| 0 <= i < 16 implies parses_to_u64(#[trigger] toks[i]) by {
                lemma_dec_rep_val(fields[i] as nat);
            }
            assert(iface_stat_ok(line));
            let vals = iface_stat_values(line);
            assert forall|i: int| 0 <= i < 16 implies #[trigger] vals[i] == fields[i] by {
                lemma_dec_rep_val(fields[i] as nat);
            }
            assert(stat_from_values(vals) == st);
        },
        None => {
            assert(false);
        },
    }
}

// ------------------------------------------------------------------
// composite address extraction
// ------------------------------------------------------------------

/// The address part of a composite `address:port` string: everything
/// before the last colon, anchored on the last one because an address
/// may itself contain colons; the whole string when there is none.
pub open spec fn v4_addr_spec(s: Seq<char>) -> Seq<char> {
    match s.index_of_last(':') {
        Some(i) => s.take(i),
        None => s,
    }
}

/// The address inside a composite `[address]:port` string: the
/// characters after the leading bracket and before the last closing
/// bracket; the whole string when there is no closing bracket.
pub open spec fn v6_addr_spec(s: Seq<char>) -> Seq<char> {
    match s.index_of_last(']') {
        Some(i) => if i >= 1 {
            s.subrange(1, i)
        } else {
            Seq::empty()
        },
        None => s,
    }
}

/// Extracts the address from `address:port`.
pub fn extract_v4_addr(composite: &str) -> (r: String)
    ensures
        r@ == v4_addr_spec(composite@),
{
    match rfind_char(composite, ':') {
        Some(i) => composite.substring_char(0, i).to_owned(),
        None => composite.to_owned(),
    }
}

/// Extracts the address from `[address]:port`.
pub fn extract_v6_addr(composite: &str) -> (r: String)
    ensures
        r@ == v6_addr_spec(composite@),
{
    match rfind_char(composite, ']') {
        Some(i) => {
            if i >= 1 {
                composite.substring_char(1, i).to_owned()
            } else {
                let r = composite.substring_char(0, 0).to_owned();
                proof {
                    assert(r@ =~= Seq::<char>::empty());
                }
                r
            }
        },
        None => composite.to_owned(),
    }
}

// ------------------------------------------------------------------
// live interface addresses
// ------------------------------------------------------------------

/// One address record of the live interface table, reduced to plain
/// values: the interface's name and its composite address, classified
/// by family.
pub struct IfAddrEntry {
    /// The interface's name.
    pub name: String,
    /// The composite `address:port` form of an IPv4 address, if this
    /// record carries one.
    pub addr4: Option<String>,
    /// The composite `[address]:port` form of an IPv6 address, if this
    /// record carries one.
    pub addr6: Option<String>,
}

/// Relies on `nix::ifaddrs::getifaddrs` for the live interface address
/// table, and on `SockaddrIn`/`SockaddrIn6` displaying as
/// `address:port` / `[address]:port`. The table depends on the machine
/// at the moment of the call, so nothing is promised of the entries.
#[verifier::external_body]
fn query_ifaddrs() -> (r: Result<Vec<IfAddrEntry>, String>) {
    match nix::ifaddrs::getifaddrs() {
        Ok(it) => Ok(it.map(|ia| IfAddrEntry {
            addr4: ia.address.as_ref().and_then(|a| a.as_sockaddr_in()).map(|s| s.to_string()),
            addr6: ia.address.as_ref().and_then(|a| a.as_sockaddr_in6()).map(|s| s.to_string()),
            name: ia.interface_name,
        }).collect()),
        Err(e) => Err(e.to_string()),
    }
}

/// Whether an entry is for interface `iface` and carries an address of
/// the requested family.
pub open spec fn entry_matches(e: IfAddrEntry, iface: Seq<char>, v6: bool) -> bool {
    e.name@ == iface && if v6 {
        e.addr6 is Some
    } else {
        e.addr4 is Some
    }
}

/// The extracted address of the first entry for `iface` with an address
/// of the requested family, if any.
pub open spec fn find_addr_spec(entries: Seq<IfAddrEntry>, iface: Seq<char>, v6: bool) -> Option<
    Seq<char>,
>
    decreases entries.len(),
{
    if entries.len() == 0 {
        None
    } else if entry_matches(entries.first(), iface, v6) {
        if v6 {
            Some(v6_addr_spec(entries.first().addr6->0@))
        } else {
            Some(v4_addr_spec(entries.first().addr4->0@))
        }
    } else {
        find_addr_spec(entries.drop_first(), iface, v6)
    }
}

/// The address of `iface` in the requested family, extracted from the
/// first matching entry of the given address table; `None` when the
/// table has no such entry — an absent interface is an expected
/// outcome, not an error.
pub fn find_addr(entries: &Vec<IfAddrEntry>, iface: &str, v6: bool) -> (r: Option<String>)
    ensures
        match r {
            Some(s) => find_addr_spec(entries@, iface@, v6) == Some(s@),
            None => find_addr_spec(entries@, iface@, v6) is None,
        },
{
    let n = entries.len();
    let mut i: usize = 0;
    proof {
        assert(entries@.skip(0) =~= entries@);
    }
    while i < n
        invariant
            i <= n,
            n == entries@.len(),
            find_addr_spec(entries@.skip(i as int), iface@, v6) == find_addr_spec(
                entries@,
                iface@,
                v6,
            ),
        decreases n - i,
    {
        proof {
            assert(entries@.skip(i as int).first() == entries@[i as int]);
            assert(entries@.skip(i as int).drop_first() =~= entries@.skip(i + 1));
        }
        let e = &entries[i];
        if str_eq(e.name.as_str(), iface) {
            if v6 {
                match &e.addr6 {
                    Some(a) => {
                        return Some(extract_v6_addr(a.as_str()));
                    },
                    None => {},
                }
            } else {
                match &e.addr4 {
                    Some(a) => {
                        return Some(extract_v4_addr(a.as_str()));
                    },
                    None => {},
                }
            }
        }
        proof {
            assert(!entry_matches(entries@[i as int], iface@, v6));
        }
        i = i + 1;
    }
    proof {
        assert(entries@.skip(n as int).len() == 0);
    }
    None
}

/// The IPv4 address of `iface`, from the live interface table; the
/// empty string when the interface has no IPv4 address. Fails only when
/// the table itself cannot be queried.
pub fn ipv4(iface: &str) -> (r: Result<String, RsysError>)
    ensures
        r matches Err(e) ==> e matches RsysError::SourceUnavailable { .. },
{
    match query_ifaddrs() {
        Err(reason) => Err(RsysError::SourceUnavailable {
            source: String::from_str("getifaddrs"),
            reason,
        }),
        Ok(entries) => match find_addr(&entries, iface, false) {
            Some(a) => Ok(a),
            None => Ok(String::new()),
        },
    }
}

/// The IPv6 address of `iface`, from the live interface table; the
/// empty string when the interface has no IPv6 address. Fails only when
/// the table itself cannot be queried.
pub fn ipv6(iface: &str) -> (r: Result<String, RsysError>)
    ensures
        r matches Err(e) ==> e matches RsysError::SourceUnavailable { .. },
{
    match query_ifaddrs() {
        Err(reason) => Err(RsysError::SourceUnavailable {
            source: String::from_str("getifaddrs"),
            reason,
        }),
        Ok(entries) => match find_addr(&entries, iface, true) {
            Some(a) => Ok(a),
            None => Ok(String::new()),
        },
    }
}

// ------------------------------------------------------------------
// interface identity and enumeration
// ------------------------------------------------------------------

/// The default interface: the name in the last column of the second
/// line of the neighbour table, or `None` when the table has no such
/// entry — made an explicit absent value rather than an empty string.
pub fn default_iface(arp_table: &str) -> (r: Option<String>)
    ensures
        ({
            let ls = lines_spec(arp_table@);
            if ls.len() >= 2 && split_ws(ls[1]).len() > 0 {
                match r {
                    Some(s) => s@ == split_ws(ls[1]).last(),
                    None => false,
                }
            } else {
                r is None
            }
        }),
{
    let ls = split_lines(arp_table);
    if ls.len() < 2 {
        return None;
    }
    proof {
        assert(ls.deep_view()[1] == ls@[1]@);
    }
    let toks = split_whitespace(ls[1].as_str());
    if toks.len() == 0 {
        return None;
    }
    let last = toks.len() - 1;
    proof {
        assert(toks.deep_view()[last as int] == toks@[last as int]@);
        assert(toks.deep_view().last() == toks.deep_view()[last as int]);
    }
    Some(toks[last].clone())
}

/// The hardware address read for an interface: the raw one-line source
/// content with surrounding whitespace removed.
pub fn mac(raw: &str) -> (r: String)
    ensures
        r@ == trim_spec(raw@),
{
    trim(raw)
}

/// The names of all interfaces, in the order the namespace listed them.
/// An unlistable namespace is fatal; a single unreadable entry is
/// skipped.
pub fn interfaces(listing: &DirListing) -> (r: Result<Vec<String>, RsysError>)
    ensures
        r is Ok <==> listing matches DirListing::Entries { .. },
        listing matches DirListing::Unavailable { path } ==> r matches Err(e) && e matches RsysError::SourceUnavailable { source, .. } && source@ == path@,
        listing matches DirListing::Entries { entries } ==> r matches Ok(v) && v.deep_view()
            == readable_names(entries@),
{
    match listing {
        DirListing::Unavailable { path } => Err(RsysError::SourceUnavailable {
            source: path.clone(),
            reason: String::from_str("cannot list namespace directory"),
        }),
        DirListing::Entries { entries } => Ok(entry_names(entries)),
    }
}

/// An interface's identity: its name paired with its current counters.
#[derive(Clone, Debug)]
pub struct Interface {
    pub name: String,
    pub stat: InterfaceStat,
}

/// All interfaces with their counters, in namespace order.
#[derive(Clone, Debug)]
pub struct Interfaces(pub Vec<Interface>);

/// The interfaces that enumeration yields from a namespace listing and
/// the statistics table: each readable name whose table line is present
/// and well formed, paired with its decoded counters, in listing order;
/// entries that fail are skipped.
pub open spec fn ifaces_spec(names: Seq<Seq<char>>, dev: Seq<char>) -> Seq<(Seq<char>, InterfaceStat)>
    decreases names.len(),
{
    if names.len() == 0 {
        Seq::empty()
    } else {
        let rest = ifaces_spec(names.drop_first(), dev);
        match find_labeled_spec(lines_spec(dev), names.first()) {
            Some(l) => if iface_stat_ok(l) {
                seq![(names.first(), stat_from_values(iface_stat_values(l)))] + rest
            } else {
                rest
            },
            None => rest,
        }
    }
}

/// All interfaces of the host: enumerates the namespace, then pairs
/// each readable name with its decoded counters from the statistics
/// table, skipping entries whose line is absent or malformed. Fails
/// only when the namespace itself cannot be listed.
pub fn ifaces(listing: &DirListing, net_dev: &str) -> (r: Result<Interfaces, RsysError>)
    ensures
        r is Ok <==> listing matches DirListing::Entries { .. },
        listing matches DirListing::Unavailable { path } ==> r matches Err(e) && e matches RsysError::SourceUnavailable { source, .. } && source@ == path@,
        listing matches DirListing::Entries { entries } ==> r matches Ok(v) && v.0@.map_values(
            |ifc: Interface| (ifc.name@, ifc.stat),
        ) == ifaces_spec(readable_names(entries@), net_dev@),
{
    let entries = match listing {
        DirListing::Unavailable { path } => {
            return Err(RsysError::SourceUnavailable {
                source: path.clone(),
                reason: String::from_str("cannot list namespace directory"),
            });
        },
        DirListing::Entries { entries } => entries,
    };
    let names = entry_names(entries);
    let n = names.len();
    let mut out: Vec<Interface> = Vec::new();
    let mut i: usize = 0;
    proof {
        assert(names.deep_view().skip(0) =~= names.deep_view());
        assert(out@.map_values(|ifc: Interface| (ifc.name@, ifc.stat)) =~= Seq::<(
            Seq<char>,
            InterfaceStat,
        )>::empty());
    }
    while i < n
        invariant
            i <= n,
            n == names@.len(),
            names.deep_view() == readable_names(entries@),
            out@.map_values(|ifc: Interface| (ifc.name@, ifc.stat)) + ifaces_spec(
                names.deep_view().skip(i as int),
                net_dev@,
            ) =~~= ifaces_spec(names.deep_view(), net_dev@),
        decreases n - i,
    {
        proof {
            assert(names.deep_view().skip(i as int).first() == names.deep_view()[i as int]);
            assert(names.deep_view()[i as int] == names@[i as int]@);
            assert(names.deep_view().skip(i as int).drop_first() =~= names.deep_view().skip(i + 1));
        }
        let ghost pre = out@.map_values(|ifc: Interface| (ifc.name@, ifc.stat));
        match find_labeled(net_dev, names[i].as_str()) {
            Some(line) => {
                match decode_interface_stat(line.as_str()) {
                    Ok(st) => {
                        let ifc = Interface { name: names[i].clone(), stat: st };
                        out.push(ifc);
                        proof {
                            assert(out@.map_values(|ifc: Interface| (ifc.name@, ifc.stat)) =~= pre.push(
                                (names.deep_view()[i as int], st),
                            ));
                        }
                    },
                    Err(_) => {},
                }
            },
            None => {},
        }
        i = i + 1;
    }
    proof {
        assert(names.deep_view().skip(n as int).len() == 0);
        assert(out@.map_values(|ifc: Interface| (ifc.name@, ifc.stat)) =~~= ifaces_spec(
            names.deep_view(),
            net_dev@,
        ));
    }
    Ok(Interfaces(out))
}

/// Whether `name` is among the given names.
fn contains_name(names: &Vec<String>, name: &str) -> (r: bool)
    ensures
        r == names.deep_view().contains(name@),
{
    let n = names.len();
    let mut i: usize = 0;
    while i < n
        invariant
            i <= n,
            n == names@.len(),
            forall|k: int| 0 <= k < i ==> names.deep_view()[k] != name@,
        decreases n - i,
    {
        proof {
            assert(names.deep_view()[i as int] == names@[i as int]@);
        }
        if str_eq(names[i].as_str(), name) {
            proof {
                assert(names.deep_view().contains(name@));
            }
            return true;
        }
        i = i + 1;
    }
    proof {
        assert(names.deep_view().len() == names@.len());
        assert(!names.deep_view().contains(name@)) by {
            assert(forall|k: int|
                0 <= k < names.deep_view().len() ==> names.deep_view()[k] != name@);
        }
    }
    false
}

/// Looks up one interface by name: `None` when the name is not among
/// the namespace's readable entries — an absent instance is expected
/// and is not an error; a present entry whose table line is absent or
/// malformed fails with a `DecodeError`.
pub fn iface(listing: &DirListing, net_dev: &str, name: &str) -> (r: Result<
    Option<Interface>,
    RsysError,
>)
    ensures
        listing matches DirListing::Unavailable { path } ==> r matches Err(e) && e matches RsysError::SourceUnavailable { source, .. } && source@ == path@,
        listing matches DirListing::Entries { entries } ==> ({
            if !readable_names(entries@).contains(name@) {
                r matches Ok(o) && o is None
            } else {
                match find_labeled_spec(lines_spec(net_dev@), name@) {
                    Some(l) => if iface_stat_ok(l) {
                        r matches Ok(o) && o matches Some(ifc) && ifc.name@ == name@ && ifc.stat
                            == stat_from_values(iface_stat_values(l))
                    } else {
                        r matches Err(e) && e matches RsysError::DecodeError { .. }
                    },
                    None => r matches Err(e) && e matches RsysError::DecodeError { .. },
                }
            }
        }),
{
    let entries = match listing {
        DirListing::Unavailable { path } => {
            return Err(RsysError::SourceUnavailable {
                source: path.clone(),
                reason: String::from_str("cannot list namespace directory"),
            });
        },
        DirListing::Entries { entries } => entries,
    };
    let names = entry_names(entries);
    let present = contains_name(&names, name);
    if !present {
        return Ok(None);
    }
    match find_labeled(net_dev, name) {
        Some(line) => match decode_interface_stat(line.as_str()) {
            Ok(st) => Ok(Some(Interface { name: String::from_str(name), stat: st })),
            Err(e) => Err(e),
        },
        None => Err(RsysError::DecodeError {
            raw: String::from_str(name),
            reason: DecodeReason::MissingKey { key: String::from_str(name) },
        }),
    }
}

} // verus!
