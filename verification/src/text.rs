//! Character-level text primitives shared by the decoders: whitespace
//! splitting, line splitting, trimming, character search, and decimal
//! number conversion, each with an exact specification.

use vstd::prelude::*;

verus! {

// ------------------------------------------------------------------
// character classes
// ------------------------------------------------------------------

/// The characters that whitespace splitting collapses on.
pub open spec fn is_ws(c: char) -> bool {
    c == ' ' || c == '\t' || c == '\n' || c == '\r' || c == '\x0c'
}

/// Whether `c` is a decimal digit.
pub open spec fn is_digit(c: char) -> bool {
    48 <= c as u32 && c as u32 <= 57
}

/// Numeric value of a decimal digit character.
pub open spec fn digit_val(c: char) -> nat {
    (c as u32 - 48) as nat
}

pub open spec fn all_digits(s: Seq<char>) -> bool {
    forall|i: int| 0 <= i < s.len() ==> is_digit(s[i])
}

pub open spec fn no_ws(s: Seq<char>) -> bool {
    forall|i: int| 0 <= i < s.len() ==> !is_ws(s[i])
}

fn ws_char(c: char) -> (r: bool)
    ensures
        r == is_ws(c),
{
    c == ' ' || c == '\t' || c == '\n' || c == '\r' || c == '\x0c'
}

// ------------------------------------------------------------------
// character search
// ------------------------------------------------------------------

/// Index of the first occurrence of `c` in `s`, if any.
pub fn find_char(s: &str, c: char) -> (r: Option<usize>)
    ensures
        match r {
            Some(i) => i < s@.len() && s@.index_of_first(c) == Some(i as int),
            None => s@.index_of_first(c) is None,
        },
{
    proof {
        s@.index_of_first_ensures(c);
    }
    let n = s.unicode_len();
    let mut i: usize = 0;
    while i < n
        invariant
            i <= n,
            n == s@.len(),
            forall|k: int| 0 <= k < i ==> s@[k] != c,
        decreases n - i,
    {
        if s.get_char(i) == c {
            proof {
                s@.index_of_first_ensures(c);
                assert(s@.contains(c));
                match s@.index_of_first(c) {
                    Some(ix) => {
                        if ix < i as int {
                            assert(s@[ix] != c);
                        }
                        if ix > i as int {
                            assert(s@[i as int] != c);
                        }
                    },
                    None => {
                        assert(false);
                    },
                }
            }
            return Some(i);
        }
        i = i + 1;
    }
    proof {
        assert(!s@.contains(c)) by {
            assert(forall|k: int| 0 <= k < s@.len() ==> s@[k] != c);
        }
    }
    None
}

/// Index of the last occurrence of `c` in `s`, if any.
pub fn rfind_char(s: &str, c: char) -> (r: Option<usize>)
    ensures
        match r {
            Some(i) => i < s@.len() && s@.index_of_last(c) == Some(i as int),
            None => s@.index_of_last(c) is None,
        },
{
    proof {
        s@.index_of_last_ensures(c);
    }
    let n = s.unicode_len();
    let mut i: usize = n;
    while i > 0
        invariant
            i <= n,
            n == s@.len(),
            forall|k: int| i <= k < n ==> s@[k] != c,
        decreases i,
    {
        i = i - 1;
        if s.get_char(i) == c {
            proof {
                s@.index_of_last_ensures(c);
                assert(s@.contains(c));
                match s@.index_of_last(c) {
                    Some(ix) => {
                        if ix > i as int {
                            assert(s@[ix] != c);
                        }
                        if ix < i as int {
                            assert(s@[i as int] != c);
                        }
                    },
                    None => {
                        assert(false);
                    },
                }
            }
            return Some(i);
        }
    }
    proof {
        assert(!s@.contains(c)) by {
            assert(forall|k: int| 0 <= k < s@.len() ==> s@[k] != c);
        }
    }
    None
}

/// Whether `s` starts with the characters of `prefix`.
pub fn starts_with(s: &str, prefix: &str) -> (r: bool)
    ensures
        r == (s@.len() >= prefix@.len() && s@.take(prefix@.len() as int) == prefix@),
{
    let n = s.unicode_len();
    let m = prefix.unicode_len();
    if n < m {
        proof {
            assert(s@.len() < prefix@.len());
        }
        return false;
    }
    let mut i: usize = 0;
    while i < m
        invariant
            i <= m,
            m == prefix@.len(),
            n == s@.len(),
            n >= m,
            forall|k: int| 0 <= k < i ==> s@[k] == prefix@[k],
        decreases m - i,
    {
        if s.get_char(i) != prefix.get_char(i) {
            proof {
                assert(s@.take(prefix@.len() as int)[i as int] != prefix@[i as int]);
            }
            return false;
        }
        i = i + 1;
    }
    proof {
        assert(s@.take(prefix@.len() as int) =~= prefix@);
    }
    true
}

/// Character-for-character equality of two string slices.
pub fn str_eq(a: &str, b: &str) -> (r: bool)
    ensures
        r == (a@ == b@),
{
    let n = a.unicode_len();
    let m = b.unicode_len();
    if n != m {
        proof {
            assert(a@.len() != b@.len());
        }
        return false;
    }
    let mut i: usize = 0;
    while i < n
        invariant
            i <= n,
            n == a@.len(),
            n == b@.len(),
            forall|k: int| 0 <= k < i ==> a@[k] == b@[k],
        decreases n - i,
    {
        if a.get_char(i) != b.get_char(i) {
            return false;
        }
        i = i + 1;
    }
    proof {
        assert(a@ =~= b@);
    }
    true
}

// ------------------------------------------------------------------
// trimming
// ------------------------------------------------------------------

pub open spec fn trim_start_spec(s: Seq<char>) -> Seq<char>
    decreases s.len(),
{
    if s.len() > 0 && is_ws(s.first()) {
        trim_start_spec(s.drop_first())
    } else {
        s
    }
}

pub open spec fn trim_end_spec(s: Seq<char>) -> Seq<char>
    decreases s.len(),
{
    if s.len() > 0 && is_ws(s.last()) {
        trim_end_spec(s.drop_last())
    } else {
        s
    }
}

/// The characters of `s` with leading and trailing whitespace removed.
pub open spec fn trim_spec(s: Seq<char>) -> Seq<char> {
    trim_end_spec(trim_start_spec(s))
}

proof fn lemma_trim_start_skip(s: Seq<char>, a: int)
    requires
        0 <= a <= s.len(),
        forall|k: int| 0 <= k < a ==> is_ws(s[k]),
    ensures
        trim_start_spec(s) == trim_start_spec(s.skip(a)),
    decreases a,
{
    if a > 0 {
        assert(s.drop_first() =~= s.skip(1));
        lemma_trim_start_skip(s.skip(1), a - 1);
        assert(s.skip(1).skip(a - 1) =~= s.skip(a));
    } else {
        assert(s.skip(0) =~= s);
    }
}

proof fn lemma_trim_end_take(s: Seq<char>, b: int)
    requires
        0 <= b <= s.len(),
        forall|k: int| b <= k < s.len() ==> is_ws(s[k]),
    ensures
        trim_end_spec(s) == trim_end_spec(s.take(b)),
    decreases s.len() - b,
{
    if b < s.len() {
        assert(s.drop_last() =~= s.take(s.len() - 1));
        lemma_trim_end_take(s.take(s.len() - 1), b);
        assert(s.take(s.len() - 1).take(b) =~= s.take(b));
    } else {
        assert(s.take(s.len() as int) =~= s);
    }
}

/// `s` without leading or trailing whitespace.
pub fn trim(s: &str) -> (r: String)
    ensures
        r@ == trim_spec(s@),
{
    let n = s.unicode_len();
    let mut a: usize = 0;
    while a < n && ws_char(s.get_char(a))
        invariant
            a <= n,
            n == s@.len(),
            forall|k: int| 0 <= k < a ==> is_ws(s@[k]),
        decreases n - a,
    {
        a = a + 1;
    }
    proof {
        lemma_trim_start_skip(s@, a as int);
    }
    if a == n {
        proof {
            assert(s@.skip(a as int) =~= Seq::<char>::empty());
            assert(trim_start_spec(Seq::<char>::empty()) =~= Seq::<char>::empty());
            assert(trim_end_spec(Seq::<char>::empty()) =~= Seq::<char>::empty());
        }
        let r = s.substring_char(n, n).to_owned();
        proof {
            assert(r@ =~= trim_spec(s@));
        }
        return r;
    }
    proof {
        // the head of the rest is not whitespace, so trim_start stops here
        assert(s@.skip(a as int).first() == s@[a as int]);
        assert(trim_start_spec(s@) == s@.skip(a as int));
    }
    let mut b: usize = n;
    while b > a && ws_char(s.get_char(b - 1))
        invariant
            a <= b <= n,
            n == s@.len(),
            a < n,
            !is_ws(s@[a as int]),
            forall|k: int| b <= k < n ==> is_ws(s@[k]),
        decreases b,
    {
        b = b - 1;
    }
    proof {
        // b > a here: position a is not whitespace, so the loop stopped at or after a + 1
        lemma_trim_end_take(s@.skip(a as int), b - a);
        assert(s@.skip(a as int).take(b - a) =~= s@.subrange(a as int, b as int));
        assert(!is_ws(s@.subrange(a as int, b as int).last()));
        assert(trim_end_spec(s@.subrange(a as int, b as int)) == s@.subrange(a as int, b as int));
    }
    let r = s.substring_char(a, b).to_owned();
    r
}

// ------------------------------------------------------------------
// whitespace splitting
// ------------------------------------------------------------------

/// The maximal whitespace-free tokens of `s`, in order: the result of
/// splitting `s` on runs of whitespace.
pub open spec fn split_ws(s: Seq<char>) -> Seq<Seq<char>>
    decreases s.len(),
{
    if s.len() == 0 {
        Seq::empty()
    } else {
        let rest = split_ws(s.drop_first());
        if is_ws(s.first()) {
            rest
        } else if s.len() > 1 && !is_ws(s[1]) {
            seq![seq![s.first()] + rest.first()] + rest.drop_first()
        } else {
            seq![seq![s.first()]] + rest
        }
    }
}

pub proof fn lemma_split_ws_skip_ws(s: Seq<char>)
    requires
        s.len() > 0,
        is_ws(s.first()),
    ensures
        split_ws(s) == split_ws(s.drop_first()),
{
}

/// Splitting a string that starts with a full token followed by a
/// whitespace boundary yields that token, then the split of the rest.
pub proof fn lemma_split_ws_token(t: Seq<char>, s: Seq<char>)
    requires
        t.len() > 0,
        no_ws(t),
        s.len() == 0 || is_ws(s.first()),
    ensures
        split_ws(t + s) == seq![t] + split_ws(s),
    decreases t.len(),
{
    let u = t + s;
    assert(u.first() == t[0]);
    assert(u.drop_first() =~= t.drop_first() + s);
    if t.len() == 1 {
        assert(u.drop_first() =~= s);
        if s.len() == 0 {
            assert(split_ws(u) =~~= seq![t] + split_ws(s)) by {
                assert(seq![u.first()] =~= t);
            }
        } else {
            assert(u.len() > 1 && is_ws(u[1]));
            assert(split_ws(u) == seq![seq![u.first()]] + split_ws(s));
            assert(split_ws(u) =~~= seq![t] + split_ws(s)) by {
                assert(seq![u.first()] =~= t);
            }
        }
    } else {
        assert(u.len() > 1);
        assert(u[1] == t[1]);
        assert(!is_ws(u[1]));
        lemma_split_ws_token(t.drop_first(), s);
        let rest = split_ws(u.drop_first());
        assert(rest == seq![t.drop_first()] + split_ws(s));
        assert(rest.first() == t.drop_first());
        assert(rest.drop_first() =~= split_ws(s));
        assert(seq![u.first()] + rest.first() =~= t);
        assert(split_ws(u) == seq![seq![u.first()] + rest.first()] + rest.drop_first());
        assert(split_ws(u) =~~= seq![t] + split_ws(s));
    }
}

/// Splits `s` on runs of whitespace into its maximal non-whitespace tokens.
pub fn split_whitespace(s: &str) -> (toks: Vec<String>)
    ensures
        toks.deep_view() == split_ws(s@),
{
    let n = s.unicode_len();
    let mut toks: Vec<String> = Vec::new();
    let mut i: usize = 0;
    proof {
        assert(s@.skip(0) =~= s@);
        assert(toks.deep_view() =~~= Seq::<Seq<char>>::empty());
    }
    while i < n
        invariant
            i <= n,
            n == s@.len(),
            toks.deep_view() + split_ws(s@.skip(i as int)) =~~= split_ws(s@),
        decreases n - i,
    {
        if ws_char(s.get_char(i)) {
            proof {
                assert(s@.skip(i as int).first() == s@[i as int]);
                lemma_split_ws_skip_ws(s@.skip(i as int));
                assert(s@.skip(i as int).drop_first() =~= s@.skip(i + 1));
            }
            i = i + 1;
        } else {
            let mut j: usize = i + 1;
            while j < n && !ws_char(s.get_char(j))
                invariant
                    i < j <= n,
                    n == s@.len(),
                    forall|k: int| i <= k < j ==> !is_ws(s@[k]),
                decreases n - j,
            {
                j = j + 1;
            }
            let t = s.substring_char(i, j).to_owned();
            proof {
                let tv = s@.subrange(i as int, j as int);
                assert(t@ == tv);
                assert(no_ws(tv));
                assert(tv + s@.skip(j as int) =~= s@.skip(i as int));
                if j < n {
                    assert(is_ws(s@.skip(j as int).first()));
                } else {
                    assert(s@.skip(j as int).len() == 0);
                }
                lemma_split_ws_token(tv, s@.skip(j as int));
            }
            let ghost pre = toks.deep_view();
            toks.push(t);
            proof {
                assert(toks.deep_view() =~~= pre.push(t@));
            }
            i = j;
        }
    }
    proof {
        assert(s@.skip(n as int).len() == 0);
        assert(toks.deep_view() =~~= split_ws(s@));
    }
    toks
}

// ------------------------------------------------------------------
// line splitting
// ------------------------------------------------------------------

/// The segments of `s` between occurrences of `'\n'`; always at least one
/// segment, and one more segment than there are newlines.
pub open spec fn split_nl(s: Seq<char>) -> Seq<Seq<char>>
    decreases s.len(),
{
    if s.len() == 0 {
        seq![Seq::empty()]
    } else if s.first() == '\n' {
        seq![Seq::empty()] + split_nl(s.drop_first())
    } else {
        let rest = split_nl(s.drop_first());
        seq![seq![s.first()] + rest.first()] + rest.drop_first()
    }
}

/// The lines of `s`: newline-separated segments, without a final empty
/// segment after a trailing newline.
pub open spec fn lines_spec(s: Seq<char>) -> Seq<Seq<char>> {
    let segs = split_nl(s);
    if segs.last().len() == 0 {
        segs.drop_last()
    } else {
        segs
    }
}

proof fn lemma_split_nl_len(s: Seq<char>)
    ensures
        split_nl(s).len() >= 1,
    decreases s.len(),
{
    if s.len() > 0 {
        lemma_split_nl_len(s.drop_first());
    }
}

/// A newline-free segment followed by a newline contributes exactly one
/// segment to the split.
proof fn lemma_split_nl_segment(t: Seq<char>, s: Seq<char>)
    requires
        !t.contains('\n'),
    ensures
        split_nl(t + seq!['\n'] + s) == seq![t] + split_nl(s),
    decreases t.len(),
{
    let u = t + seq!['\n'] + s;
    if t.len() == 0 {
        assert(u.first() == '\n');
        assert(u.drop_first() =~= s);
        assert(split_nl(u) =~~= seq![t] + split_nl(s));
    } else {
        assert(u.first() == t[0]);
        assert(t[0] != '\n') by {
            if t[0] == '\n' {
                assert(t.contains('\n'));
            }
        }
        assert(u.first() != '\n');
        assert(u.drop_first() =~= t.drop_first() + seq!['\n'] + s);
        assert(!t.drop_first().contains('\n')) by {
            assert(forall|k: int| 0 <= k < t.drop_first().len() ==> t.drop_first()[k] == t[k + 1]);
        }
        lemma_split_nl_segment(t.drop_first(), s);
        let rest = split_nl(u.drop_first());
        assert(rest == seq![t.drop_first()] + split_nl(s));
        assert(rest.first() == t.drop_first());
        assert(seq![u.first()] + rest.first() =~= t);
        assert(rest.drop_first() =~= split_nl(s));
        assert(split_nl(u) =~~= seq![t] + split_nl(s));
    }
}

/// The split of a newline-free string is that single segment.
proof fn lemma_split_nl_whole(t: Seq<char>)
    requires
        !t.contains('\n'),
    ensures
        split_nl(t) == seq![t],
    decreases t.len(),
{
    if t.len() == 0 {
        assert(split_nl(t) =~~= seq![t]);
    } else {
        assert(t[0] != '\n') by {
            if t[0] == '\n' {
                assert(t.contains('\n'));
            }
        }
        assert(!t.drop_first().contains('\n')) by {
            assert(forall|k: int| 0 <= k < t.drop_first().len() ==> t.drop_first()[k] == t[k + 1]);
        }
        lemma_split_nl_whole(t.drop_first());
        let rest = split_nl(t.drop_first());
        assert(rest.first() == t.drop_first());
        assert(seq![t.first()] + rest.first() =~= t);
        assert(rest.drop_last() =~= Seq::<Seq<char>>::empty());
        assert(split_nl(t) =~~= seq![t]);
    }
}

/// Splits `s` into its newline-separated segments, dropping a final empty
/// segment, as the lines of a text file are read.
pub fn split_lines(s: &str) -> (ls: Vec<String>)
    ensures
        ls.deep_view() == lines_spec(s@),
{
    let n = s.unicode_len();
    let mut segs: Vec<String> = Vec::new();
    let mut i: usize = 0;
    proof {
        assert(s@.skip(0) =~= s@);
        assert(segs.deep_view() =~~= Seq::<Seq<char>>::empty());
    }
    while i < n
        invariant
            i <= n,
            n == s@.len(),
            segs.deep_view() + split_nl(s@.skip(i as int)) =~~= split_nl(s@),
        decreases n - i,
    {
        let mut j: usize = i;
        while j < n && s.get_char(j) != '\n'
            invariant
                i <= j <= n,
                n == s@.len(),
                forall|k: int| i <= k < j ==> s@[k] != '\n',
            decreases n - j,
        {
            j = j + 1;
        }
        let t = s.substring_char(i, j).to_owned();
        proof {
            let tv = s@.subrange(i as int, j as int);
            assert(!tv.contains('\n')) by {
                assert(forall|k: int| 0 <= k < tv.len() ==> tv[k] == s@[i + k]);
            }
            if j < n {
                assert(tv + seq!['\n'] + s@.skip(j + 1) =~= s@.skip(i as int));
                lemma_split_nl_segment(tv, s@.skip(j + 1));
            } else {
                assert(tv =~= s@.skip(i as int));
                lemma_split_nl_whole(tv);
            }
        }
        let ghost pre = segs.deep_view();
        segs.push(t);
        proof {
            assert(segs.deep_view() =~~= pre.push(t@));
        }
        if j < n {
            i = j + 1;
        } else {
            proof {
                assert(segs.deep_view() =~~= split_nl(s@));
            }
            // the final segment is not empty here, so no trailing segment is dropped
            proof {
                lemma_split_nl_len(s@);
                assert(segs.deep_view().last().len() > 0);
                assert(lines_spec(s@) == segs.deep_view());
            }
            return segs;
        }
    }
    // the input ends in a newline (or is empty): the trailing empty segment
    // of the split is not a line
    proof {
        assert(s@.skip(i as int).len() == 0);
        assert(split_nl(s@.skip(i as int)) =~~= seq![Seq::<char>::empty()]);
        lemma_split_nl_len(s@);
        assert(split_nl(s@).last().len() == 0);
        assert(segs.deep_view() =~= split_nl(s@).drop_last());
        assert(lines_spec(s@) == segs.deep_view());
    }
    segs
}

// ------------------------------------------------------------------
// decimal numbers
// ------------------------------------------------------------------

/// The value of a string of decimal digits, most significant first.
pub open spec fn dec_val(s: Seq<char>) -> nat
    decreases s.len(),
{
    if s.len() == 0 {
        0
    } else {
        dec_val(s.drop_last()) * 10 + digit_val(s.last())
    }
}

/// Whether a token is a well-formed decimal numeral with a value that
/// fits in 64 bits.
pub open spec fn parses_to_u64(s: Seq<char>) -> bool {
    s.len() > 0 && all_digits(s) && dec_val(s) <= u64::MAX
}

proof fn lemma_dec_val_monotone(s: Seq<char>, i: int)
    requires
        0 <= i <= s.len(),
    ensures
        dec_val(s.take(i)) <= dec_val(s),
    decreases s.len() - i,
{
    if i < s.len() {
        lemma_dec_val_monotone(s.drop_last(), i);
        assert(s.drop_last().take(i) =~= s.take(i));
        assert(dec_val(s.drop_last()) <= dec_val(s.drop_last()) * 10 + digit_val(s.last()));
    } else {
        assert(s.take(i) =~= s);
    }
}

/// Parses a string of decimal digits as a 64-bit unsigned value.
/// Fails on an empty string, a non-digit character, or overflow.
pub fn parse_u64(s: &str) -> (r: Option<u64>)
    ensures
        r is Some <==> parses_to_u64(s@),
        r matches Some(v) ==> v == dec_val(s@),
{
    let n = s.unicode_len();
    if n == 0 {
        return None;
    }
    let mut acc: u64 = 0;
    let mut i: usize = 0;
    while i < n
        invariant
            i <= n,
            n == s@.len(),
            n > 0,
            all_digits(s@.take(i as int)),
            acc == dec_val(s@.take(i as int)),
        decreases n - i,
    {
        let c = s.get_char(i);
        let d = match digit_char_val(c) {
            Some(d) => d,
            None => {
                proof {
                    assert(!is_digit(s@[i as int]));
                }
                return None;
            },
        };
        proof {
            assert(s@.take(i + 1).drop_last() =~= s@.take(i as int));
            assert(s@.take(i + 1).last() == s@[i as int]);
        }
        let next = match acc.checked_mul(10) {
            Some(m) => m.checked_add(d),
            None => None,
        };
        match next {
            Some(v) => {
                acc = v;
            },
            None => {
                proof {
                    // the prefix already exceeds u64::MAX, so the whole string does
                    assert(dec_val(s@.take(i + 1)) > u64::MAX);
                    lemma_dec_val_monotone(s@, i + 1);
                }
                return None;
            },
        }
        proof {
            assert(forall|k: int| 0 <= k < i + 1 ==> is_digit(#[trigger] s@.take(i + 1)[k]));
        }
        i = i + 1;
    }
    proof {
        assert(s@.take(n as int) =~= s@);
    }
    Some(acc)
}

fn digit_char_val(c: char) -> (r: Option<u64>)
    ensures
        r is Some <==> is_digit(c),
        r matches Some(v) ==> v == digit_val(c),
{
    let v = c as u32;
    if 48 <= v && v <= 57 {
        Some((v - 48) as u64)
    } else {
        None
    }
}

/// The canonical decimal numeral of `n`: no leading zero except for zero
/// itself.
pub open spec fn dec_rep(n: nat) -> Seq<char>
    decreases n,
{
    if n < 10 {
        seq![digit_char(n)]
    } else {
        dec_rep(n / 10).push(digit_char(n % 10))
    }
}

/// The digit character for a value below ten.
pub open spec fn digit_char(d: nat) -> char {
    if d == 0 { '0' }
    else if d == 1 { '1' }
    else if d == 2 { '2' }
    else if d == 3 { '3' }
    else if d == 4 { '4' }
    else if d == 5 { '5' }
    else if d == 6 { '6' }
    else if d == 7 { '7' }
    else if d == 8 { '8' }
    else if d == 9 { '9' }
    else { '0' }
}

/// The canonical numeral of `n` is made of digits and reads back as `n`.
pub proof fn lemma_dec_rep_val(n: nat)
    ensures
        dec_rep(n).len() >= 1,
        all_digits(dec_rep(n)),
        dec_val(dec_rep(n)) == n,
    decreases n,
{
    if n < 10 {
        let r = seq![digit_char(n)];
        assert(r.drop_last() =~= Seq::<char>::empty());
        assert(r.last() == digit_char(n));
        assert(dec_val(Seq::<char>::empty()) == 0);
        assert(digit_val(digit_char(n)) == n);
        assert(dec_val(r) == n);
        assert(forall|k: int| 0 <= k < r.len() ==> is_digit(#[trigger] r[k]));
    } else {
        lemma_dec_rep_val(n / 10);
        let r = dec_rep(n / 10).push(digit_char(n % 10));
        assert(r.drop_last() =~= dec_rep(n / 10));
        assert(r.last() == digit_char(n % 10));
        assert(digit_val(digit_char(n % 10)) == n % 10);
        assert(dec_val(r) == (n / 10) * 10 + n % 10);
        assert((n / 10) * 10 + n % 10 == n) by {
            vstd::arithmetic::div_mod::lemma_fundamental_div_mod(n as int, 10);
        }
        assert(forall|k: int| 0 <= k < r.len() ==> is_digit(#[trigger] r[k]));
    }
}

/// Digits are not whitespace and are not punctuation the decoders split on.
pub proof fn lemma_digits_plain(s: Seq<char>)
    requires
        all_digits(s),
    ensures
        no_ws(s),
        !s.contains(':'),
        !s.contains('\n'),
{
    assert(forall|i: int| 0 <= i < s.len() ==> !is_ws(s[i]) && s[i] != ':' && s[i] != '\n') by {
        assert(forall|i: int| 0 <= i < s.len() ==> is_digit(#[trigger] s[i]));
    }
    if s.contains(':') {
        let i = choose|i: int| 0 <= i < s.len() && s[i] == ':';
    }
    if s.contains('\n') {
        let i = choose|i: int| 0 <= i < s.len() && s[i] == '\n';
    }
}

fn digit_str(d: u64) -> (r: &'static str)
    requires
        d < 10,
    ensures
        r@ == seq![digit_char(d as nat)],
{
    proof {
        reveal_strlit("0");
        reveal_strlit("1");
        reveal_strlit("2");
        reveal_strlit("3");
        reveal_strlit("4");
        reveal_strlit("5");
        reveal_strlit("6");
        reveal_strlit("7");
        reveal_strlit("8");
        reveal_strlit("9");
    }
    let r = match d {
        0 => "0",
        1 => "1",
        2 => "2",
        3 => "3",
        4 => "4",
        5 => "5",
        6 => "6",
        7 => "7",
        8 => "8",
        _ => "9",
    };
    proof {
        assert(r@ =~= seq![digit_char(d as nat)]);
    }
    r
}

/// Appends the canonical decimal numeral of `n` to `out`.
pub fn push_dec(n: u64, out: &mut String)
    ensures
        final(out)@ == old(out)@ + dec_rep(n as nat),
    decreases n,
{
    if n >= 10 {
        push_dec(n / 10, out);
    }
    out.append(digit_str(n % 10));
    proof {
        if n < 10 {
            assert(dec_rep(n as nat) =~= seq![digit_char(n as nat)]);
            assert(out@ =~= old(out)@ + dec_rep(n as nat));
        } else {
            assert(dec_rep(n as nat) =~= dec_rep((n / 10) as nat).push(digit_char((n % 10) as nat)));
            assert(out@ =~= old(out)@ + dec_rep(n as nat));
        }
    }
}

/// The canonical decimal numeral of `n`, as a string.
pub fn u64_to_dec(n: u64) -> (r: String)
    ensures
        r@ == dec_rep(n as nat),
{
    let mut r = String::new();
    push_dec(n, &mut r);
    proof {
        assert(r@ =~= dec_rep(n as nat));
    }
    r
}

/// The label of a `label: value` line: what stands before the colon, with
/// surrounding whitespace removed; `None` when the line has no colon.
pub open spec fn line_label(line: Seq<char>) -> Option<Seq<char>> {
    match line.index_of_first(':') {
        Some(i) => Some(trim_spec(line.take(i))),
        None => None,
    }
}

/// The first line whose label is `name`, if any.
pub open spec fn find_labeled_spec(ls: Seq<Seq<char>>, name: Seq<char>) -> Option<Seq<char>>
    decreases ls.len(),
{
    if ls.len() == 0 {
        None
    } else if line_label(ls.first()) == Some(name) {
        Some(ls.first())
    } else {
        find_labeled_spec(ls.drop_first(), name)
    }
}

/// The first line of `content` labeled with `name`, if any.
pub fn find_labeled(content: &str, name: &str) -> (r: Option<String>)
    ensures
        match r {
            Some(l) => find_labeled_spec(lines_spec(content@), name@) == Some(l@),
            None => find_labeled_spec(lines_spec(content@), name@) is None,
        },
{
    let ls = split_lines(content);
    let n = ls.len();
    let mut i: usize = 0;
    proof {
        assert(ls.deep_view().skip(0) =~= ls.deep_view());
    }
    while i < n
        invariant
            i <= n,
            n == ls@.len(),
            ls.deep_view() == lines_spec(content@),
            find_labeled_spec(ls.deep_view().skip(i as int), name@) == find_labeled_spec(
                ls.deep_view(),
                name@,
            ),
        decreases n - i,
    {
        proof {
            assert(ls.deep_view().skip(i as int).first() == ls.deep_view()[i as int]);
            assert(ls.deep_view()[i as int] == ls@[i as int]@);
            assert(ls.deep_view().skip(i as int).drop_first() =~= ls.deep_view().skip(i + 1));
        }
        let line = &ls[i];
        match find_char(line.as_str(), ':') {
            Some(ci) => {
                let label = trim(line.as_str().substring_char(0, ci));
                proof {
                    assert(line@.take(ci as int) =~= line@.subrange(0, ci as int));
                }
                if str_eq(label.as_str(), name) {
                    proof {
                        assert(line_label(ls.deep_view()[i as int]) == Some(name@));
                    }
                    return Some(line.clone());
                }
            },
            None => {},
        }
        proof {
            assert(line_label(ls.deep_view()[i as int]) != Some(name@));
        }
        i = i + 1;
    }
    proof {
        assert(ls.deep_view().skip(n as int).len() == 0);
    }
    None
}


// ------------------------------------------------------------------
// signed decimal numbers
// ------------------------------------------------------------------

/// Whether a token is a well-formed signed decimal numeral whose value
/// fits in a signed 64-bit integer.
pub open spec fn parses_to_i64(s: Seq<char>) -> bool {
    if s.len() > 0 && s[0] == '-' {
        let t = s.drop_first();
        t.len() > 0 && all_digits(t) && dec_val(t) <= 0x8000000000000000
    } else {
        s.len() > 0 && all_digits(s) && dec_val(s) <= 0x7fffffffffffffff
    }
}

/// The value of a signed decimal numeral.
pub open spec fn i64_val(s: Seq<char>) -> int {
    if s.len() > 0 && s[0] == '-' {
        -(dec_val(s.drop_first()) as int)
    } else {
        dec_val(s) as int
    }
}

/// Parses an optionally negated string of decimal digits as a signed
/// 64-bit value. Fails on an empty string, a stray character, or a value
/// out of range.
pub fn parse_i64(s: &str) -> (r: Option<i64>)
    ensures
        r is Some <==> parses_to_i64(s@),
        r matches Some(v) ==> v as int == i64_val(s@),
{
    let n = s.unicode_len();
    if n == 0 {
        return None;
    }
    if s.get_char(0) == '-' {
        let rest = s.substring_char(1, n);
        proof {
            assert(rest@ =~= s@.drop_first());
        }
        match parse_u64(rest) {
            Some(v) => {
                if v <= 0x7fffffffffffffff {
                    Some(-(v as i64))
                } else if v == 0x8000000000000000 {
                    Some(i64::MIN)
                } else {
                    None
                }
            },
            None => None,
        }
    } else {
        match parse_u64(s) {
            Some(v) => {
                if v <= 0x7fffffffffffffff {
                    Some(v as i64)
                } else {
                    None
                }
            },
            None => None,
        }
    }
}

/// The line that a successful labeled search returns is labeled with
/// the searched name.
pub proof fn lemma_find_labeled_label(ls: Seq<Seq<char>>, name: Seq<char>)
    requires
        find_labeled_spec(ls, name) is Some,
    ensures
        line_label(find_labeled_spec(ls, name)->0) == Some(name),
    decreases ls.len(),
{
    if ls.len() > 0 && line_label(ls.first()) != Some(name) {
        lemma_find_labeled_label(ls.drop_first(), name);
    }
}

} // verus!
