//! Line classification: decompose one raw log line into a structured
//! record, or keep it verbatim as a raw record.
//!
//! Two strategies are tried in order. First a syslog-style parse
//! (`<pri>` header, month/day/time timestamp, hostname, process tag with
//! optional pid). Then a fixed-format parse, `timestamp level
//! process[pid]: message` with fields separated by whitespace runs. When
//! neither matches the line passes through unchanged. Both grammars are
//! defined as specification functions and the executable parsers are
//! proved to return exactly what those definitions say.

use vstd::prelude::*;
use crate::text::{
    is_digit, scan_digits, scan_ws, scan_non_ws, scan_tag, scan_name, digits_val, trim_of,
    digits_end, ws_end, non_ws_end, tag_end, name_end, copy_range, parse_u64_digits, trim_bytes,
};
use crate::record::{LogRecord, Rec};

verus! {

/// Three bytes forming a month abbreviation, `Jan` through `Dec`.
pub open spec fn month3(a: u8, b: u8, c: u8) -> bool {
    (a == 74 && b == 97 && c == 110)  // Jan
    || (a == 70 && b == 101 && c == 98)  // Feb
    || (a == 77 && b == 97 && c == 114)  // Mar
    || (a == 65 && b == 112 && c == 114)  // Apr
    || (a == 77 && b == 97 && c == 121)  // May
    || (a == 74 && b == 117 && c == 110)  // Jun
    || (a == 74 && b == 117 && c == 108)  // Jul
    || (a == 65 && b == 117 && c == 103)  // Aug
    || (a == 83 && b == 101 && c == 112)  // Sep
    || (a == 79 && b == 99 && c == 116)  // Oct
    || (a == 78 && b == 111 && c == 118)  // Nov
    || (a == 68 && b == 101 && c == 99)  // Dec
}

/// Name of a syslog severity, `0` (`emerg`) through `7` (`debug`).
pub open spec fn severity_name_spec(sev: nat) -> Seq<u8> {
    if sev == 0 {
        seq![101u8, 109u8, 101u8, 114u8, 103u8]  // emerg
    } else if sev == 1 {
        seq![97u8, 108u8, 101u8, 114u8, 116u8]  // alert
    } else if sev == 2 {
        seq![99u8, 114u8, 105u8, 116u8]  // crit
    } else if sev == 3 {
        seq![101u8, 114u8, 114u8]  // err
    } else if sev == 4 {
        seq![119u8, 97u8, 114u8, 110u8, 105u8, 110u8, 103u8]  // warning
    } else if sev == 5 {
        seq![110u8, 111u8, 116u8, 105u8, 99u8, 101u8]  // notice
    } else if sev == 6 {
        seq![105u8, 110u8, 102u8, 111u8]  // info
    } else if sev == 7 {
        seq![100u8, 101u8, 98u8, 117u8, 103u8]  // debug
    } else {
        Seq::empty()
    }
}

/// Structured record built from the pieces of a successful syslog parse.
pub open spec fn syslog_fields(
    s: Seq<u8>,
    t0: int,
    te: int,
    hs: int,
    he: int,
    ps: int,
    pe: int,
    pri: nat,
    pid: Option<u64>,
    after: int,
) -> Rec {
    Rec::Structured {
        timestamp: s.subrange(t0, te),
        hostname: Some(s.subrange(hs, he)),
        process: s.subrange(ps, pe),
        pid: pid,
        level: severity_name_spec(pri % 8),
        message: trim_of(s.subrange(after, s.len() as int)),
    }
}

/// Tail of the syslog grammar after the process tag: an optional
/// bracketed pid, then a colon, then the message (trimmed).
pub open spec fn syslog_tail(
    s: Seq<u8>,
    t0: int,
    te: int,
    hs: int,
    he: int,
    ps: int,
    pe: int,
    pri: nat,
) -> Option<Rec> {
    if pe < s.len() && s[pe] == 91 {
        let pd = scan_digits(s, pe + 1);
        if pd > pe + 1 && pd < s.len() && s[pd] == 93 && pd + 1 < s.len() && s[pd + 1] == 58 {
            let pid = if digits_val(s, pe + 1, pd) <= u64::MAX {
                Some(digits_val(s, pe + 1, pd) as u64)
            } else {
                None
            };
            Some(syslog_fields(s, t0, te, hs, he, ps, pe, pri, pid, pd + 2))
        } else {
            None
        }
    } else if pe < s.len() && s[pe] == 58 {
        Some(syslog_fields(s, t0, te, hs, he, ps, pe, pri, None, pe + 1))
    } else {
        None
    }
}

/// The syslog grammar: `<pri>Mmm dd hh:mm:ss hostname tag[pid]: message`.
/// The priority is at most 191; the severity is its remainder modulo
/// eight.
pub open spec fn syslog_spec(s: Seq<u8>) -> Option<Rec> {
    if s.len() == 0 || s[0] != 60 {
        None
    } else {
        let d = scan_digits(s, 1);
        if !(2 <= d && d <= 4 && d < s.len() && s[d] == 62) {
            None
        } else if digits_val(s, 1, d) > 191 {
            None
        } else {
            let pri = digits_val(s, 1, d);
            let t0 = d + 1;
            if t0 + 4 > s.len() || !month3(s[t0], s[t0 + 1], s[t0 + 2]) || s[t0 + 3] != 32 {
                None
            } else {
                let ds = if t0 + 4 < s.len() && s[t0 + 4] == 32 { t0 + 5 } else { t0 + 4 };
                let de = scan_digits(s, ds);
                if !(1 <= de - ds && de - ds <= 2 && de < s.len() && s[de] == 32) {
                    None
                } else {
                    let h = de + 1;
                    if h + 8 > s.len()
                        || !(is_digit(s[h]) && is_digit(s[h + 1]) && s[h + 2] == 58
                            && is_digit(s[h + 3]) && is_digit(s[h + 4]) && s[h + 5] == 58
                            && is_digit(s[h + 6]) && is_digit(s[h + 7])) {
                        None
                    } else {
                        let te = h + 8;
                        if te >= s.len() || s[te] != 32 {
                            None
                        } else {
                            let hs = scan_ws(s, te);
                            let he = scan_non_ws(s, hs);
                            if he == hs || he >= s.len() {
                                None
                            } else {
                                let ps = scan_ws(s, he);
                                let pe = scan_tag(s, ps);
                                if pe == ps {
                                    None
                                } else {
                                    syslog_tail(s, t0, te, hs, he, ps, pe, pri)
                                }
                            }
                        }
                    }
                }
            }
        }
    }
}

/// Tail of the fixed-format grammar after the process run: an optional
/// bracketed numeric pid (non-numeric bracket content folds into the
/// process name), a colon, a whitespace run, then the message.
pub open spec fn fallback_tail(s: Seq<u8>, g: int, ls: int, le: int, prs: int) -> Option<Rec> {
    let pre = scan_tag(s, prs);
    if pre == prs {
        None
    } else {
        let parsed = if pre < s.len() && s[pre] == 91 {
            let pd = scan_digits(s, pre + 1);
            if pd > pre + 1 && pd < s.len() && s[pd] == 93 && pd + 1 < s.len() && s[pd + 1] == 58 {
                let pid = if digits_val(s, pre + 1, pd) <= u64::MAX {
                    Some(digits_val(s, pre + 1, pd) as u64)
                } else {
                    None
                };
                Some((pre, pid, pd + 2))
            } else {
                let q = scan_name(s, pre);
                if q < s.len() && s[q] == 58 {
                    Some((q, Option::<u64>::None, q + 1))
                } else {
                    None
                }
            }
        } else if pre < s.len() && s[pre] == 58 {
            Some((pre, Option::<u64>::None, pre + 1))
        } else {
            None
        };
        match parsed {
            None => None,
            Some((pr_end, pid, after)) => {
                let ms = scan_ws(s, after);
                if ms == after {
                    None
                } else {
                    Some(Rec::Structured {
                        timestamp: s.subrange(0, g),
                        hostname: None,
                        process: s.subrange(prs, pr_end),
                        pid: pid,
                        level: s.subrange(ls, le),
                        message: s.subrange(ms, s.len() as int),
                    })
                }
            },
        }
    }
}

/// The fixed-format grammar: `timestamp level process[pid]: message`,
/// where the timestamp is a word, a number and an `hh:mm:ss` time, and
/// fields are separated by whitespace runs.
pub open spec fn fallback_spec(s: Seq<u8>) -> Option<Rec> {
    let a = scan_non_ws(s, 0);
    if a == 0 {
        None
    } else {
        let b = scan_ws(s, a);
        if b == a {
            None
        } else {
            let c = scan_digits(s, b);
            if c == b {
                None
            } else {
                let d2 = scan_ws(s, c);
                if d2 == c {
                    None
                } else {
                    let e = scan_digits(s, d2);
                    if !(e > d2 && e < s.len() && s[e] == 58) {
                        None
                    } else {
                        let f = scan_digits(s, e + 1);
                        if !(f > e + 1 && f < s.len() && s[f] == 58) {
                            None
                        } else {
                            let g = scan_digits(s, f + 1);
                            if g == f + 1 {
                                None
                            } else {
                                let ls = scan_ws(s, g);
                                if ls == g {
                                    None
                                } else {
                                    let le = scan_non_ws(s, ls);
                                    if le == ls {
                                        None
                                    } else {
                                        let prs = scan_ws(s, le);
                                        if prs == le {
                                            None
                                        } else {
                                            fallback_tail(s, g, ls, le, prs)
                                        }
                                    }
                                }
                            }
                        }
                    }
                }
            }
        }
    }
}

/// A line with one trailing LF (or CR LF) removed.
pub open spec fn strip_eol(s: Seq<u8>) -> Seq<u8> {
    if s.len() > 0 && s[s.len() - 1] == 10 {
        if s.len() > 1 && s[s.len() - 2] == 13 {
            s.subrange(0, s.len() - 2)
        } else {
            s.subrange(0, s.len() - 1)
        }
    } else {
        s
    }
}

/// What `classify` returns: the line (without its terminator) under the
/// syslog grammar, else under the fixed-format grammar, else raw.
pub open spec fn classify_spec(raw: Seq<u8>) -> Rec {
    let s = strip_eol(raw);
    match syslog_spec(s) {
        Some(r) => r,
        None => match fallback_spec(s) {
            Some(r) => r,
            None => Rec::Raw { text: s },
        },
    }
}

/// View of an optional record.
pub open spec fn opt_view(o: Option<LogRecord>) -> Option<Rec> {
    match o {
        Some(r) => Some(r@),
        None => None,
    }
}

/// Name of a syslog severity as bytes.
pub fn severity_name(sev: u64) -> (r: Vec<u8>)
    ensures
        r@ == severity_name_spec(sev as nat),
{
    let mut v: Vec<u8> = Vec::new();
    if sev == 0 {
        v.push(101); v.push(109); v.push(101); v.push(114); v.push(103);
        proof { assert(v@ =~= severity_name_spec(sev as nat)); }
    } else if sev == 1 {
        v.push(97); v.push(108); v.push(101); v.push(114); v.push(116);
        proof { assert(v@ =~= severity_name_spec(sev as nat)); }
    } else if sev == 2 {
        v.push(99); v.push(114); v.push(105); v.push(116);
        proof { assert(v@ =~= severity_name_spec(sev as nat)); }
    } else if sev == 3 {
        v.push(101); v.push(114); v.push(114);
        proof { assert(v@ =~= severity_name_spec(sev as nat)); }
    } else if sev == 4 {
        v.push(119); v.push(97); v.push(114); v.push(110); v.push(105); v.push(110); v.push(103);
        proof { assert(v@ =~= severity_name_spec(sev as nat)); }
    } else if sev == 5 {
        v.push(110); v.push(111); v.push(116); v.push(105); v.push(99); v.push(101);
        proof { assert(v@ =~= severity_name_spec(sev as nat)); }
    } else if sev == 6 {
        v.push(105); v.push(110); v.push(102); v.push(111);
        proof { assert(v@ =~= severity_name_spec(sev as nat)); }
    } else if sev == 7 {
        v.push(100); v.push(101); v.push(98); v.push(117); v.push(103);
        proof { assert(v@ =~= severity_name_spec(sev as nat)); }
    } else {
        proof { assert(v@ =~= severity_name_spec(sev as nat)); }
    }
    v
}

/// Attempt the syslog parse of one line.
pub fn parse_syslog(s: &[u8]) -> (r: Option<LogRecord>)
    ensures
        opt_view(r) == syslog_spec(s@),
{
    if s.len() == 0 || s[0] != 60 {
        return None;
    }
    let d = digits_end(s, 1);
    if !(2 <= d && d <= 4 && d < s.len() && s[d] == 62) {
        return None;
    }
    let pri = match parse_u64_digits(s, 1, d) {
        Some(p) => p,
        None => {
            return None;
        },
    };
    if pri > 191 {
        return None;
    }
    let t0 = d + 1;
    if t0 + 4 > s.len() {
        return None;
    }
    if !month3_exec(s[t0], s[t0 + 1], s[t0 + 2]) || s[t0 + 3] != 32 {
        return None;
    }
    let ds = if t0 + 4 < s.len() && s[t0 + 4] == 32 { t0 + 5 } else { t0 + 4 };
    let de = digits_end(s, ds);
    if !(1 <= de - ds && de - ds <= 2 && de < s.len() && s[de] == 32) {
        return None;
    }
    let h = de + 1;
    if s.len() - h < 8 {
        return None;
    }
    if !(48 <= s[h] && s[h] <= 57 && 48 <= s[h + 1] && s[h + 1] <= 57 && s[h + 2] == 58
        && 48 <= s[h + 3] && s[h + 3] <= 57 && 48 <= s[h + 4] && s[h + 4] <= 57 && s[h + 5] == 58
        && 48 <= s[h + 6] && s[h + 6] <= 57 && 48 <= s[h + 7] && s[h + 7] <= 57) {
        return None;
    }
    let te = h + 8;
    if te >= s.len() || s[te] != 32 {
        return None;
    }
    let hs = ws_end(s, te);
    let he = non_ws_end(s, hs);
    if he == hs || he >= s.len() {
        return None;
    }
    let ps = ws_end(s, he);
    let pe = tag_end(s, ps);
    if pe == ps {
        return None;
    }
    let pid: Option<u64>;
    let after: usize;
    if pe < s.len() && s[pe] == 91 {
        let pd = digits_end(s, pe + 1);
        if !(pd > pe + 1 && pd < s.len() && s[pd] == 93) {
            return None;
        }
        if !(pd + 1 < s.len() && s[pd + 1] == 58) {
            return None;
        }
        pid = parse_u64_digits(s, pe + 1, pd);
        after = pd + 2;
    } else if pe < s.len() && s[pe] == 58 {
        pid = None;
        after = pe + 1;
    } else {
        return None;
    }
    let raw_msg = copy_range(s, after, s.len());
    let message = trim_bytes(raw_msg.as_slice());
    let rec = LogRecord::Structured {
        timestamp: copy_range(s, t0, te),
        hostname: Some(copy_range(s, hs, he)),
        process: copy_range(s, ps, pe),
        pid: pid,
        level: severity_name(pri % 8),
        message: message,
    };
    Some(rec)
}

/// Attempt the fixed-format parse of one line.
pub fn parse_fallback(s: &[u8]) -> (r: Option<LogRecord>)
    ensures
        opt_view(r) == fallback_spec(s@),
{
    let a = non_ws_end(s, 0);
    if a == 0 {
        return None;
    }
    let b = ws_end(s, a);
    if b == a {
        return None;
    }
    let c = digits_end(s, b);
    if c == b {
        return None;
    }
    let d2 = ws_end(s, c);
    if d2 == c {
        return None;
    }
    let e = digits_end(s, d2);
    if !(e > d2 && e < s.len() && s[e] == 58) {
        return None;
    }
    let f = digits_end(s, e + 1);
    if !(f > e + 1 && f < s.len() && s[f] == 58) {
        return None;
    }
    let g = digits_end(s, f + 1);
    if g == f + 1 {
        return None;
    }
    let ls = ws_end(s, g);
    if ls == g {
        return None;
    }
    let le = non_ws_end(s, ls);
    if le == ls {
        return None;
    }
    let prs = ws_end(s, le);
    if prs == le {
        return None;
    }
    let pre = tag_end(s, prs);
    if pre == prs {
        return None;
    }
    let pr_end: usize;
    let pid: Option<u64>;
    let after: usize;
    if pre < s.len() && s[pre] == 91 {
        let pd = digits_end(s, pre + 1);
        if pd > pre + 1 && pd < s.len() && s[pd] == 93 && pd + 1 < s.len() && s[pd + 1] == 58 {
            pr_end = pre;
            pid = parse_u64_digits(s, pre + 1, pd);
            after = pd + 2;
        } else {
            let q = name_end(s, pre);
            if q < s.len() && s[q] == 58 {
                pr_end = q;
                pid = None;
                after = q + 1;
            } else {
                return None;
            }
        }
    } else if pre < s.len() && s[pre] == 58 {
        pr_end = pre;
        pid = None;
        after = pre + 1;
    } else {
        return None;
    }
    let ms = ws_end(s, after);
    if ms == after {
        return None;
    }
    let rec = LogRecord::Structured {
        timestamp: copy_range(s, 0, g),
        hostname: None,
        process: copy_range(s, prs, pr_end),
        pid: pid,
        level: copy_range(s, ls, le),
        message: copy_range(s, ms, s.len()),
    };
    Some(rec)
}

/// Three bytes forming a month abbreviation.
pub fn month3_exec(a: u8, b: u8, c: u8) -> (r: bool)
    ensures
        r == month3(a, b, c),
{
    (a == 74 && b == 97 && c == 110)
    || (a == 70 && b == 101 && c == 98)
    || (a == 77 && b == 97 && c == 114)
    || (a == 65 && b == 112 && c == 114)
    || (a == 77 && b == 97 && c == 121)
    || (a == 74 && b == 117 && c == 110)
    || (a == 74 && b == 117 && c == 108)
    || (a == 65 && b == 117 && c == 103)
    || (a == 83 && b == 101 && c == 112)
    || (a == 79 && b == 99 && c == 116)
    || (a == 78 && b == 111 && c == 118)
    || (a == 68 && b == 101 && c == 99)
}

/// Classify one raw line into exactly one record. Total: every line,
/// including the empty line, yields a record, and an unparsable line is
/// passed through as `Raw`.
pub fn classify(line: &[u8]) -> (r: LogRecord)
    ensures
        r@ == classify_spec(line@),
{
    let mut n = line.len();
    if n > 0 && line[n - 1] == 10 {
        n = n - 1;
        if n > 0 && line[n - 1] == 13 {
            n = n - 1;
        }
    }
    let stripped = copy_range(line, 0, n);
    proof {
        assert(stripped@ =~= strip_eol(line@));
    }
    match parse_syslog(stripped.as_slice()) {
        Some(rec) => rec,
        None => match parse_fallback(stripped.as_slice()) {
            Some(rec) => rec,
            None => LogRecord::Raw { text: stripped },
        },
    }
}

} // verus!
