//! Telemetry samples, and how one history log's text turns into them.
//!
//! A log is plain text, one record per line, each line three tab-separated
//! fields: an integral timestamp in seconds, a decimal value, and a
//! charging-state token of which exactly `charging` means charging.
//! Anything after a third tab is ignored. Empty lines carry no record. A
//! malformed line is fatal for the whole file: there is no partial
//! recovery.
//!
//! The value field is kept in thousandths of a unit. Its grammar is an
//! optional sign and decimal digits around an optional point; fractional
//! digits past the third are read but do not contribute, exponent forms
//! are not numbers here, and a magnitude beyond what the fixed-point model
//! holds is rejected rather than saturated.

use vstd::prelude::*;

use crate::errors::{LookupError, ParseError};
use crate::value::Milli;

verus! {

/// One telemetry sample.
///
/// `time` is seconds since the epoch; the producing log appends in
/// increasing time order, but nothing here assumes or checks that. `value`
/// is percentage points in the charge log and watts in the rate log.
/// `charging` is meaningful only in the rate log.
#[derive(Clone, Copy, PartialEq, Eq, Structural, Debug)]
pub struct HistoryEntry {
    pub time: u64,
    pub value: Milli,
    pub charging: bool,
}

impl HistoryEntry {
    /// Well-formedness: the value is a well-formed fixed-point number.
    pub open spec fn wf(self) -> bool {
        self.value.wf()
    }
}

/// Every entry of the sequence is well-formed.
pub open spec fn entries_wf(s: Seq<HistoryEntry>) -> bool {
    forall|i: int| 0 <= i < s.len() ==> #[trigger] s[i].wf()
}

/// The index of the first occurrence of `b`, or the length when there is
/// none.
pub open spec fn spec_find(s: Seq<u8>, b: u8) -> nat
    decreases s.len(),
{
    if s.len() == 0 {
        0
    } else if s[0] == b {
        0
    } else {
        1 + spec_find(s.skip(1), b)
    }
}

/// `spec_find` returns exactly the position with nothing equal to `b`
/// before it and `b` at it unless it is the length.
proof fn lemma_find_is(s: Seq<u8>, b: u8, n: int)
    requires
        0 <= n <= s.len(),
        forall|k: int| 0 <= k < n ==> s[k] != b,
        n < s.len() ==> s[n] == b,
    ensures
        spec_find(s, b) == n,
    decreases s.len(),
{
    if s.len() == 0 {
    } else if s[0] == b {
        assert(n == 0);
    } else {
        assert(n >= 1);
        assert(s.skip(1).len() == s.len() - 1);
        assert(forall|k: int| 0 <= k < n - 1 ==> #[trigger] s.skip(1)[k] == s[k + 1]);
        assert(n - 1 < s.skip(1).len() ==> s.skip(1)[n - 1] == s[n]);
        lemma_find_is(s.skip(1), b, n - 1);
    }
}

/// Every byte is an ASCII decimal digit.
pub open spec fn all_digits(f: Seq<u8>) -> bool {
    forall|i: int| 0 <= i < f.len() ==> 48 <= #[trigger] f[i] <= 57
}

/// The number the decimal digit bytes denote, most significant first.
pub open spec fn spec_dec_val(f: Seq<u8>) -> int
    decreases f.len(),
{
    if f.len() == 0 {
        0
    } else {
        spec_dec_val(f.drop_last()) * 10 + (f.last() - 48)
    }
}

/// The number denoted by digits is never negative.
proof fn lemma_dec_val_nonneg(f: Seq<u8>)
    requires
        all_digits(f),
    ensures
        spec_dec_val(f) >= 0,
    decreases f.len(),
{
    if f.len() > 0 {
        assert(all_digits(f.drop_last())) by {
            assert(forall|i: int|
                0 <= i < f.drop_last().len() ==> f.drop_last()[i] == #[trigger] f[i]);
        }
        lemma_dec_val_nonneg(f.drop_last());
        assert(48 <= f[f.len() - 1] <= 57);
    }
}

/// A prefix of a digit string never denotes more than the whole string.
proof fn lemma_dec_val_prefix(f: Seq<u8>, j: int)
    requires
        all_digits(f),
        0 <= j <= f.len(),
    ensures
        spec_dec_val(f.take(j)) <= spec_dec_val(f),
    decreases f.len() - j,
{
    if j < f.len() {
        assert(all_digits(f.take(j))) by {
            assert(forall|i: int| 0 <= i < j ==> f.take(j)[i] == #[trigger] f[i]);
        }
        lemma_dec_val_nonneg(f.take(j));
        assert(f.take(j + 1).drop_last() =~= f.take(j));
        assert(f.take(j + 1).last() == f[j]);
        assert(48 <= f[j] <= 57);
        assert(spec_dec_val(f.take(j + 1)) == spec_dec_val(f.take(j)) * 10 + (f[j] - 48));
        lemma_dec_val_prefix(f, j + 1);
    } else {
        assert(f.take(j) =~= f);
    }
}

/// The digit bytes of a timestamp field: what follows an optional plus
/// sign.
pub open spec fn spec_time_digits(f: Seq<u8>) -> Seq<u8> {
    if f.len() > 0 && f[0] == 43 {
        f.skip(1)
    } else {
        f
    }
}

/// The timestamp a field denotes: decimal digits after an optional plus
/// sign, read as a number that must fit in a timestamp.
pub open spec fn spec_parse_time(f: Seq<u8>) -> Option<u64> {
    let digs = spec_time_digits(f);
    if digs.len() > 0 && all_digits(digs) && spec_dec_val(digs) <= u64::MAX {
        Some(spec_dec_val(digs) as u64)
    } else {
        None
    }
}

/// The thousandths contributed by the fractional digits: only the first
/// three count.
pub open spec fn spec_frac_milli(fp: Seq<u8>) -> int {
    let d1: int = if fp.len() > 0 {
        fp[0] - 48
    } else {
        0
    };
    let d2: int = if fp.len() > 1 {
        fp[1] - 48
    } else {
        0
    };
    let d3: int = if fp.len() > 2 {
        fp[2] - 48
    } else {
        0
    };
    d1 * 100 + d2 * 10 + d3
}

/// The digit-and-point bytes of a value field: what follows an optional
/// sign.
pub open spec fn spec_value_body(f: Seq<u8>) -> Seq<u8> {
    if f.len() > 0 && (f[0] == 45 || f[0] == 43) {
        f.skip(1)
    } else {
        f
    }
}

/// The value a field denotes, in thousandths: an optional sign, whole
/// digits, and an optional point with fractional digits, at least one
/// digit in all, and a magnitude the fixed-point model can hold.
pub open spec fn spec_parse_value(f: Seq<u8>) -> Option<Milli> {
    let neg = f.len() > 0 && f[0] == 45;
    let body = spec_value_body(f);
    let dot = spec_find(body, 46);
    let ip = body.take(dot as int);
    let fp = if dot < body.len() {
        body.skip(dot + 1int)
    } else {
        Seq::<u8>::empty()
    };
    if body.len() == 0 || !(all_digits(ip) && all_digits(fp)) || (ip.len() == 0 && fp.len() == 0) {
        None
    } else {
        let mag = spec_dec_val(ip) * 1000 + spec_frac_milli(fp);
        if mag <= i64::MAX {
            Some(
                Milli {
                    milli: if neg {
                        (-mag) as i64
                    } else {
                        mag as i64
                    },
                },
            )
        } else {
            None
        }
    }
}

/// The token whose exact bytes mark a charging sample: `charging`.
pub open spec fn spec_charging_token() -> Seq<u8> {
    seq![99u8, 104u8, 97u8, 114u8, 103u8, 105u8, 110u8, 103u8]
}

/// The sample one log line denotes, when it is well-formed: three
/// tab-separated fields, of which anything after a third tab is ignored.
pub open spec fn spec_parse_entry(line: Seq<u8>) -> Option<HistoryEntry> {
    let t1 = spec_find(line, 9);
    if t1 == line.len() {
        None
    } else {
        let rest1 = line.skip(t1 + 1int);
        let t2 = spec_find(rest1, 9);
        if t2 == rest1.len() {
            None
        } else {
            let f1 = line.take(t1 as int);
            let f2 = rest1.take(t2 as int);
            let rest2 = rest1.skip(t2 + 1int);
            let f3 = rest2.take(spec_find(rest2, 9) as int);
            match (spec_parse_time(f1), spec_parse_value(f2)) {
                (Some(time), Some(value)) => Some(
                    HistoryEntry { time, value, charging: f3 == spec_charging_token() },
                ),
                _ => None,
            }
        }
    }
}

/// One trailing carriage return belongs to the line ending, not the line.
pub open spec fn spec_strip_cr(line: Seq<u8>) -> Seq<u8> {
    if line.len() > 0 && line.last() == 13 {
        line.drop_last()
    } else {
        line
    }
}

/// The records of one line: none for an empty line, one for a well-formed
/// line, and no result at all for a malformed one.
pub open spec fn spec_line_entries(line: Seq<u8>) -> Option<Seq<HistoryEntry>> {
    if line.len() == 0 {
        Some(Seq::empty())
    } else {
        match spec_parse_entry(line) {
            Some(e) => Some(seq![e]),
            None => None,
        }
    }
}

/// The records of a whole log text: lines split at newlines, a carriage
/// return before each newline dropped, the final line ending optional.
/// `None` when any line is malformed.
pub open spec fn spec_parse_log(s: Seq<u8>) -> Option<Seq<HistoryEntry>>
    decreases s.len(),
{
    if s.len() == 0 {
        Some(Seq::empty())
    } else {
        let n = spec_find(s, 10);
        if n >= s.len() {
            spec_line_entries(s)
        } else {
            match spec_line_entries(spec_strip_cr(s.take(n as int))) {
                None => None,
                Some(e1) => match spec_parse_log(s.skip(n + 1int)) {
                    None => None,
                    Some(rest) => Some(e1 + rest),
                },
            }
        }
    }
}

/// Copies one byte range out of the text.
fn copy_range(s: &Vec<u8>, from: usize, to: usize) -> (r: Vec<u8>)
    requires
        from <= to <= s@.len(),
    ensures
        r@ == s@.subrange(from as int, to as int),
{
    let mut r: Vec<u8> = Vec::new();
    let mut i: usize = from;
    proof {
        assert(s@.subrange(from as int, from as int) =~= r@);
    }
    while i < to
        invariant
            from <= i <= to <= s@.len(),
            r@ == s@.subrange(from as int, i as int),
        decreases to - i,
    {
        r.push(s[i]);
        proof {
            assert(s@.subrange(from as int, i + 1) =~= s@.subrange(from as int, i as int).push(
                s@[i as int],
            ));
        }
        i = i + 1;
    }
    r
}

/// Compares two byte strings.
fn bytes_eq(a: &Vec<u8>, b: &Vec<u8>) -> (r: bool)
    ensures
        r == (a@ == b@),
{
    if a.len() != b.len() {
        return false;
    }
    let mut i: usize = 0;
    while i < a.len()
        invariant
            i <= a@.len(),
            a@.len() == b@.len(),
            forall|k: int| 0 <= k < i ==> a@[k] == b@[k],
        decreases a@.len() - i,
    {
        if a[i] != b[i] {
            return false;
        }
        i = i + 1;
    }
    proof {
        assert(a@ =~= b@);
    }
    true
}

/// Scans for the first occurrence of `b` at or after `from`.
fn find_byte(s: &Vec<u8>, from: usize, b: u8) -> (r: usize)
    requires
        from <= s@.len(),
    ensures
        from <= r <= s@.len(),
        r - from == spec_find(s@.skip(from as int), b),
        r < s@.len() ==> s@[r as int] == b,
        forall|k: int| from <= k < r ==> s@[k] != b,
{
    let mut i: usize = from;
    while i < s.len()
        invariant
            from <= i <= s@.len(),
            forall|k: int| from <= k < i ==> s@[k] != b,
        decreases s@.len() - i,
    {
        if s[i] == b {
            proof {
                assert(forall|k: int|
                    0 <= k < i - from ==> #[trigger] s@.skip(from as int)[k] == s@[k + from]);
                lemma_find_is(s@.skip(from as int), b, i - from);
            }
            return i;
        }
        i = i + 1;
    }
    proof {
        assert(forall|k: int|
            0 <= k < s@.len() - from ==> #[trigger] s@.skip(from as int)[k] == s@[k + from]);
        lemma_find_is(s@.skip(from as int), b, s@.len() - from);
    }
    s.len()
}

/// Parses the timestamp field.
fn parse_time(f: &Vec<u8>) -> (r: Option<u64>)
    ensures
        r == spec_parse_time(f@),
{
    let start: usize = if f.len() > 0 && f[0] == 43 {
        1
    } else {
        0
    };
    let ghost digs = spec_time_digits(f@);
    proof {
        assert(digs =~= f@.skip(start as int));
    }
    if f.len() == start {
        return None;
    }
    let mut v: u64 = 0;
    let mut i: usize = start;
    proof {
        assert(digs.take(0) =~= Seq::<u8>::empty());
    }
    while i < f.len()
        invariant
            start <= i <= f@.len(),
            digs == spec_time_digits(f@),
            digs == f@.skip(start as int),
            digs.len() == f@.len() - start,
            all_digits(digs.take(i - start)),
            v == spec_dec_val(digs.take(i - start)),
        decreases f@.len() - i,
    {
        let b = f[i];
        proof {
            assert(digs[i - start] == f@[i as int]);
        }
        if b < 48 || b > 57 {
            proof {
                assert(!(48 <= digs[i - start] <= 57));
            }
            return None;
        }
        let d: u64 = (b - 48) as u64;
        proof {
            assert(digs.take(i - start + 1).drop_last() =~= digs.take(i - start));
            assert(digs.take(i - start + 1).last() == digs[i - start]);
            assert(spec_dec_val(digs.take(i - start + 1)) == v * 10 + d);
            assert(all_digits(digs.take(i - start + 1)));
        }
        if v > (u64::MAX - d) / 10 {
            proof {
                assert(v * 10 + d > u64::MAX);
                if all_digits(digs) {
                    lemma_dec_val_prefix(digs, i - start + 1);
                }
            }
            return None;
        }
        v = v * 10 + d;
        i = i + 1;
    }
    proof {
        assert(digs.take(f@.len() - start) =~= digs);
    }
    Some(v)
}

/// Parses the value field into thousandths.
fn parse_value(f: &Vec<u8>) -> (r: Option<Milli>)
    ensures
        r == spec_parse_value(f@),
        r matches Some(v) ==> v.wf(),
{
    let neg = f.len() > 0 && f[0] == 45;
    let start: usize = if f.len() > 0 && (f[0] == 45 || f[0] == 43) {
        1
    } else {
        0
    };
    let ghost body = spec_value_body(f@);
    proof {
        assert(body =~= f@.skip(start as int));
    }
    if f.len() == start {
        return None;
    }
    let dot = find_byte(f, start, 46);
    let ghost dotrel = spec_find(body, 46);
    let ghost ip = body.take(dotrel as int);
    let ghost fp = if dotrel < body.len() {
        body.skip(dotrel + 1int)
    } else {
        Seq::<u8>::empty()
    };
    proof {
        assert(dot - start == dotrel);
        assert(ip =~= f@.subrange(start as int, dot as int));
        if dot < f@.len() {
            assert(fp =~= f@.skip(dot + 1int));
        }
    }
    if dot == start && f.len() - dot <= 1 {
        // no digit at all: the field is a lone point or sign and point
        return None;
    }
    // whole units
    let limit: u64 = i64::MAX as u64;
    let mut v: u64 = 0;
    let mut i: usize = start;
    proof {
        assert(ip.take(0) =~= Seq::<u8>::empty());
    }
    while i < dot
        invariant
            start <= i <= dot <= f@.len(),
            body == spec_value_body(f@),
            ip == f@.subrange(start as int, dot as int),
            fp == (if dot < f@.len() {
                f@.skip(dot + 1int)
            } else {
                Seq::<u8>::empty()
            }),
            body == f@.skip(start as int),
            dotrel == spec_find(body, 46),
            ip == body.take(dotrel as int),
            fp == (if dotrel < body.len() {
                body.skip(dotrel + 1int)
            } else {
                Seq::<u8>::empty()
            }),
            limit == i64::MAX as u64,
            all_digits(ip.take(i - start)),
            v == spec_dec_val(ip.take(i - start)),
            v <= limit,
        decreases dot - i,
    {
        let b = f[i];
        proof {
            assert(ip[i - start] == f@[i as int]);
        }
        if b < 48 || b > 57 {
            proof {
                assert(!(48 <= ip[i - start] <= 57));
            }
            return None;
        }
        let d: u64 = (b - 48) as u64;
        proof {
            assert(ip.take(i - start + 1).drop_last() =~= ip.take(i - start));
            assert(ip.take(i - start + 1).last() == ip[i - start]);
            assert(spec_dec_val(ip.take(i - start + 1)) == v * 10 + d);
            assert(all_digits(ip.take(i - start + 1)));
        }
        if v > (limit - d) / 10 {
            proof {
                assert(v * 10 + d > limit);
                if all_digits(ip) && all_digits(fp) {
                    lemma_dec_val_prefix(ip, i - start + 1);
                    lemma_dec_val_nonneg(ip);
                    lemma_frac_milli_nonneg(fp);
                }
            }
            return None;
        }
        v = v * 10 + d;
        i = i + 1;
    }
    proof {
        assert(ip.take(dot - start) =~= ip);
    }
    // fractional digits: the first three carry thousandths
    let mut d1: u64 = 0;
    let mut d2: u64 = 0;
    let mut d3: u64 = 0;
    if dot < f.len() {
        let mut j: usize = dot + 1;
        while j < f.len()
            invariant
                dot + 1 <= j <= f@.len(),
                dot < f@.len(),
                body == spec_value_body(f@),
                body == f@.skip(start as int),
                dotrel == spec_find(body, 46),
                ip == body.take(dotrel as int),
                dotrel < body.len(),
                fp == body.skip(dotrel + 1int),
                fp == f@.skip(dot + 1int),
                fp.len() == f@.len() - dot - 1,
                forall|k: int| 0 <= k < j - dot - 1 ==> 48 <= #[trigger] fp[k] <= 57,
                d1 == (if j - dot - 1 >= 1 {
                    fp[0] - 48
                } else {
                    0
                }),
                d2 == (if j - dot - 1 >= 2 {
                    fp[1] - 48
                } else {
                    0
                }),
                d3 == (if j - dot - 1 >= 3 {
                    fp[2] - 48
                } else {
                    0
                }),
            decreases f@.len() - j,
        {
            let b = f[j];
            proof {
                assert(fp[j - dot - 1] == f@[j as int]);
            }
            if b < 48 || b > 57 {
                proof {
                    assert(!(48 <= fp[j - dot - 1] <= 57));
                }
                return None;
            }
            if j - dot - 1 == 0 {
                d1 = (b - 48) as u64;
            } else if j - dot - 1 == 1 {
                d2 = (b - 48) as u64;
            } else if j - dot - 1 == 2 {
                d3 = (b - 48) as u64;
            }
            j = j + 1;
        }
    }
    proof {
        assert(all_digits(fp));
        assert(spec_frac_milli(fp) == d1 * 100 + d2 * 10 + d3);
    }
    let fr: u64 = d1 * 100 + d2 * 10 + d3;
    if v > (limit - fr) / 1000 {
        proof {
            assert(v * 1000 + fr > limit);
        }
        return None;
    }
    let mag: u64 = v * 1000 + fr;
    let milli: i64 = if neg {
        -(mag as i64)
    } else {
        mag as i64
    };
    Some(Milli { milli })
}

/// The token the rate log marks charging samples with.
fn charging_token() -> (r: Vec<u8>)
    ensures
        r@ == spec_charging_token(),
{
    let mut v: Vec<u8> = Vec::new();
    v.push(99);
    v.push(104);
    v.push(97);
    v.push(114);
    v.push(103);
    v.push(105);
    v.push(110);
    v.push(103);
    proof {
        assert(v@ =~= spec_charging_token());
    }
    v
}

/// Parses one non-empty log line into its sample.
fn parse_entry(line: &Vec<u8>) -> (r: Option<HistoryEntry>)
    ensures
        r == spec_parse_entry(line@),
        r matches Some(e) ==> e.wf(),
{
    proof {
        assert(line@.skip(0) =~= line@);
    }
    let t1 = find_byte(line, 0, 9);
    if t1 == line.len() {
        return None;
    }
    let ghost rest1 = line@.skip(t1 + 1int);
    let t2 = find_byte(line, t1 + 1, 9);
    proof {
        assert(rest1.len() == line@.len() - t1 - 1);
    }
    if t2 == line.len() {
        return None;
    }
    let ghost rest2 = rest1.skip((t2 - t1 - 1) + 1int);
    let t3 = find_byte(line, t2 + 1, 9);
    proof {
        assert(rest2 =~= line@.skip(t2 + 1int));
        assert(t3 - (t2 + 1) == spec_find(rest2, 9));
    }
    let f1 = copy_range(line, 0, t1);
    let f2 = copy_range(line, t1 + 1, t2);
    let f3 = copy_range(line, t2 + 1, t3);
    proof {
        assert(f1@ =~= line@.take(t1 as int));
        assert(f2@ =~= rest1.take((t2 - t1 - 1) as int));
        assert(f3@ =~= rest2.take(spec_find(rest2, 9) as int));
    }
    let time = match parse_time(&f1) {
        Some(t) => t,
        None => {
            return None;
        },
    };
    let value = match parse_value(&f2) {
        Some(v) => v,
        None => {
            return None;
        },
    };
    let token = charging_token();
    let charging = bytes_eq(&f3, &token);
    Some(HistoryEntry { time, value, charging })
}

/// Prepends already-parsed records to the outcome of the remaining text.
pub open spec fn spec_with_prefix(
    done: Seq<HistoryEntry>,
    rest: Option<Seq<HistoryEntry>>,
) -> Option<Seq<HistoryEntry>> {
    match rest {
        None => None,
        Some(r) => Some(done + r),
    }
}

/// Parses the raw text of one history log into its samples, one per
/// non-empty line, in input order. The first malformed line fails the whole
/// file; nothing is recovered.
pub fn parse_file(content: &Vec<u8>) -> (r: Result<Vec<HistoryEntry>, ParseError>)
    ensures
        match r {
            Ok(es) => spec_parse_log(content@) == Some(es@) && entries_wf(es@),
            Err(_) => spec_parse_log(content@) is None,
        },
{
    let mut out: Vec<HistoryEntry> = Vec::new();
    let mut p: usize = 0;
    proof {
        assert(content@.skip(0) =~= content@);
        match spec_parse_log(content@) {
            Some(rest) => {
                assert(out@ + rest =~= rest);
            },
            None => {},
        }
    }
    while p < content.len()
        invariant
            p <= content@.len(),
            entries_wf(out@),
            spec_parse_log(content@) == spec_with_prefix(
                out@,
                spec_parse_log(content@.skip(p as int)),
            ),
        decreases content@.len() - p,
    {
        let ghost sp = content@.skip(p as int);
        let ghost n = spec_find(sp, 10);
        let q = find_byte(content, p, 10);
        proof {
            assert(q - p == n);
        }
        let line_end: usize = if q < content.len() && q > p && content[q - 1] == 13 {
            q - 1
        } else {
            q
        };
        let line = copy_range(content, p, line_end);
        proof {
            if q < content@.len() {
                assert(sp.take(n as int) =~= content@.subrange(p as int, q as int));
                if q > p && content@[q - 1] == 13 {
                    assert(sp.take(n as int).last() == content@[q - 1]);
                    assert(sp.take(n as int).drop_last() =~= content@.subrange(
                        p as int,
                        q - 1,
                    ));
                }
                assert(line@ == spec_strip_cr(sp.take(n as int)));
                assert(sp.skip(n + 1int) =~= content@.skip(q + 1int));
            } else {
                assert(line@ =~= sp);
            }
        }
        if line.len() == 0 {
            proof {
                // an empty line carries no record; only a found newline can
                // make one, so the suffix continues after it
                match spec_parse_log(content@.skip(q + 1int)) {
                    Some(rest) => {
                        assert(Seq::<HistoryEntry>::empty() + rest =~= rest);
                    },
                    None => {},
                }
            }
            p = q + 1;
        } else {
            let e = match parse_entry(&line) {
                Some(e) => e,
                None => {
                    return Err(ParseError);
                },
            };
            let ghost old_out = out@;
            out.push(e);
            proof {
                assert(entries_wf(out@)) by {
                    assert(forall|k: int|
                        0 <= k < old_out.len() ==> out@[k] == #[trigger] old_out[k]);
                    assert(out@[old_out.len() as int] == e);
                }
                if q < content@.len() {
                    match spec_parse_log(content@.skip(q + 1int)) {
                        Some(rest) => {
                            assert(seq![e] + rest =~= rest.insert(0, e));
                            assert(old_out + (seq![e] + rest) =~= out@ + rest);
                        },
                        None => {},
                    }
                } else {
                    assert(old_out + seq![e] =~= out@);
                    match spec_parse_log(content@.skip(content@.len() as int)) {
                        Some(rest) => {
                            assert(out@ + rest =~= out@);
                        },
                        None => {},
                    }
                }
            }
            p = if q < content.len() {
                q + 1
            } else {
                q
            };
        }
    }
    proof {
        assert(content@.skip(content@.len() as int).len() == 0);
        match spec_parse_log(content@.skip(content@.len() as int)) {
            Some(rest) => {
                assert(out@ + rest =~= out@);
            },
            None => {},
        }
    }
    Ok(out)
}

/// The file-name prefix of a device's charge history log:
/// `history-charge-` followed by the device model.
pub open spec fn spec_charge_pattern(device: Seq<u8>) -> Seq<u8> {
    seq![
        104u8,
        105u8,
        115u8,
        116u8,
        111u8,
        114u8,
        121u8,
        45u8,
        99u8,
        104u8,
        97u8,
        114u8,
        103u8,
        101u8,
        45u8,
    ] + device
}

/// The file-name prefix of a device's rate history log:
/// `history-rate-` followed by the device model.
pub open spec fn spec_rate_pattern(device: Seq<u8>) -> Seq<u8> {
    seq![104u8, 105u8, 115u8, 116u8, 111u8, 114u8, 121u8, 45u8, 114u8, 97u8, 116u8, 101u8, 45u8]
        + device
}

/// Whether a file name belongs to the device's charge history log.
pub open spec fn spec_matches_charge(name: Seq<u8>, device: Seq<u8>) -> bool {
    spec_charge_pattern(device).is_prefix_of(name)
}

/// Whether a file name belongs to the device's rate history log.
pub open spec fn spec_matches_rate(name: Seq<u8>, device: Seq<u8>) -> bool {
    spec_rate_pattern(device).is_prefix_of(name)
}

/// Appends the bytes of `src` to `dst`.
fn append_bytes(dst: &mut Vec<u8>, src: &Vec<u8>)
    ensures
        final(dst)@ == old(dst)@ + src@,
{
    let mut i: usize = 0;
    proof {
        assert(dst@ =~= old(dst)@ + src@.take(0));
    }
    while i < src.len()
        invariant
            i <= src@.len(),
            dst@ == old(dst)@ + src@.take(i as int),
        decreases src@.len() - i,
    {
        dst.push(src[i]);
        proof {
            assert(old(dst)@ + src@.take(i + 1) =~= (old(dst)@ + src@.take(i as int)).push(
                src@[i as int],
            ));
        }
        i = i + 1;
    }
    proof {
        assert(src@.take(src@.len() as int) =~= src@);
    }
}

/// Builds the charge-history file-name prefix for a device model.
pub fn charge_pattern(device: &Vec<u8>) -> (r: Vec<u8>)
    ensures
        r@ == spec_charge_pattern(device@),
{
    let mut v: Vec<u8> = Vec::new();
    v.push(104);
    v.push(105);
    v.push(115);
    v.push(116);
    v.push(111);
    v.push(114);
    v.push(121);
    v.push(45);
    v.push(99);
    v.push(104);
    v.push(97);
    v.push(114);
    v.push(103);
    v.push(101);
    v.push(45);
    append_bytes(&mut v, device);
    proof {
        assert(v@ =~= spec_charge_pattern(device@));
    }
    v
}

/// Builds the rate-history file-name prefix for a device model.
pub fn rate_pattern(device: &Vec<u8>) -> (r: Vec<u8>)
    ensures
        r@ == spec_rate_pattern(device@),
{
    let mut v: Vec<u8> = Vec::new();
    v.push(104);
    v.push(105);
    v.push(115);
    v.push(116);
    v.push(111);
    v.push(114);
    v.push(121);
    v.push(45);
    v.push(114);
    v.push(97);
    v.push(116);
    v.push(101);
    v.push(45);
    append_bytes(&mut v, device);
    proof {
        assert(v@ =~= spec_rate_pattern(device@));
    }
    v
}

/// Whether `p` is a prefix of `s`.
fn is_prefix(p: &Vec<u8>, s: &Vec<u8>) -> (r: bool)
    ensures
        r == p@.is_prefix_of(s@),
{
    if p.len() > s.len() {
        return false;
    }
    let mut i: usize = 0;
    while i < p.len()
        invariant
            i <= p@.len() <= s@.len(),
            forall|k: int| 0 <= k < i ==> p@[k] == s@[k],
        decreases p@.len() - i,
    {
        if p[i] != s[i] {
            proof {
                assert(!p@.is_prefix_of(s@)) by {
                    if p@.is_prefix_of(s@) {
                        assert(p@[i as int] == s@.subrange(0, p@.len() as int)[i as int]);
                    }
                }
            }
            return false;
        }
        i = i + 1;
    }
    proof {
        assert(p@ =~= s@.subrange(0, p@.len() as int));
    }
    true
}

/// Picks the device's two history files out of a directory listing, by
/// index: the first name carrying the charge prefix and the first carrying
/// the rate prefix. A missing charge file is reported before a missing
/// rate file.
pub fn select_history_files(names: &Vec<Vec<u8>>, device: &Vec<u8>) -> (r: Result<
    (usize, usize),
    LookupError,
>)
    ensures
        match r {
            Ok((ci, ri)) => {
                &&& ci < names@.len() && spec_matches_charge(names@[ci as int]@, device@)
                &&& forall|k: int|
                    0 <= k < ci ==> !(#[trigger] spec_matches_charge(names@[k]@, device@))
                &&& ri < names@.len() && spec_matches_rate(names@[ri as int]@, device@)
                &&& forall|k: int|
                    0 <= k < ri ==> !(#[trigger] spec_matches_rate(names@[k]@, device@))
            },
            Err(e) => match e {
                LookupError::ChargeMissing => forall|k: int|
                    0 <= k < names@.len() ==> !(#[trigger] spec_matches_charge(
                        names@[k]@,
                        device@,
                    )),
                LookupError::RateMissing => {
                    &&& exists|k: int|
                        0 <= k < names@.len() && #[trigger] spec_matches_charge(
                            names@[k]@,
                            device@,
                        )
                    &&& forall|k: int|
                        0 <= k < names@.len() ==> !(#[trigger] spec_matches_rate(
                            names@[k]@,
                            device@,
                        ))
                },
            },
        },
{
    let cpat = charge_pattern(device);
    let rpat = rate_pattern(device);
    let mut charge_idx: Option<usize> = None;
    let mut rate_idx: Option<usize> = None;
    let mut i: usize = 0;
    while i < names.len()
        invariant
            i <= names@.len(),
            cpat@ == spec_charge_pattern(device@),
            rpat@ == spec_rate_pattern(device@),
            charge_idx matches Some(ci) ==> 0 <= ci < i && spec_matches_charge(
                names@[ci as int]@,
                device@,
            ) && (forall|k: int|
                0 <= k < ci ==> !(#[trigger] spec_matches_charge(names@[k]@, device@))),
            charge_idx is None ==> forall|k: int|
                0 <= k < i ==> !(#[trigger] spec_matches_charge(names@[k]@, device@)),
            rate_idx matches Some(ri) ==> 0 <= ri < i && spec_matches_rate(
                names@[ri as int]@,
                device@,
            ) && (forall|k: int|
                0 <= k < ri ==> !(#[trigger] spec_matches_rate(names@[k]@, device@))),
            rate_idx is None ==> forall|k: int|
                0 <= k < i ==> !(#[trigger] spec_matches_rate(names@[k]@, device@)),
        decreases names@.len() - i,
    {
        if charge_idx.is_none() && is_prefix(&cpat, &names[i]) {
            charge_idx = Some(i);
        }
        if rate_idx.is_none() && is_prefix(&rpat, &names[i]) {
            rate_idx = Some(i);
        }
        i = i + 1;
    }
    match (charge_idx, rate_idx) {
        (Some(ci), Some(ri)) => Ok((ci, ri)),
        (None, _) => Err(LookupError::ChargeMissing),
        (Some(_), None) => Err(LookupError::RateMissing),
    }
}

/// The thousandths of a digit fraction are never negative.
proof fn lemma_frac_milli_nonneg(fp: Seq<u8>)
    requires
        all_digits(fp),
    ensures
        spec_frac_milli(fp) >= 0,
{
    if fp.len() > 0 {
        assert(48 <= fp[0] <= 57);
    }
    if fp.len() > 1 {
        assert(48 <= fp[1] <= 57);
    }
    if fp.len() > 2 {
        assert(48 <= fp[2] <= 57);
    }
}

} // verus!
