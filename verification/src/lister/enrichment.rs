//! The metadata enricher: normalizes install dates against a fixed format
//! list, sanitizes registry icon values (falling back to an icon found in
//! the install location), resolves sizes conservatively, and aggregates the
//! per-field confidences into the weakest one.
//!
//! Everything that touches the machine — whether a path exists, what the
//! rasterizer produced, how large the install location is, what time it is
//! — arrives as a plain `EnrichmentFacts` value gathered by the caller.

use vstd::prelude::*;
use crate::dates::{spec_valid_ymd, ymd_is_valid};
use crate::digits::{is_dec_digit, numeral_value, parse_i32_chars, spec_dec, spec_parse_i32};
use crate::lister::models::{EnrichmentFacts, InstalledProgram, MetadataConfidence,
    MetadataSource};
use crate::text::{chars_to_string, clone_opt_string, find_char, find_sub, first_index_of,
    first_sub_index, has_substring, last_index_of, lemma_first_index_of, lemma_first_sub_index,
    lemma_last_index_of, occurs_at, rfind_char, sub_chars, to_chars, trim_chars, trim_quote_chars,
    trim_quotes_spec, trim_spec};

verus! {

// ---------------------------------------------------------------------
// Install dates
// ---------------------------------------------------------------------
pub open spec fn digits_range(s: Seq<char>, a: int, b: int) -> bool {
    forall|k: int| a <= k < b ==> is_dec_digit(#[trigger] s[k])
}

pub open spec fn val_range(s: Seq<char>, a: int, b: int) -> int {
    numeral_value(s.subrange(a, b))
}

/// Eight bare digits: `YYYYMMDD`.
pub open spec fn spec_shape_ymd8(t: Seq<char>) -> Option<(int, int, int)> {
    if t.len() == 8 && digits_range(t, 0, 8) {
        Some((val_range(t, 0, 4), val_range(t, 4, 6), val_range(t, 6, 8)))
    } else {
        None
    }
}

/// A four-digit year, then month and day of one or two digits, joined by
/// `sep`.
pub open spec fn spec_shape_sep(t: Seq<char>, sep: char) -> Option<(int, int, int)> {
    if 8 <= t.len() <= 10 && digits_range(t, 0, 4) && t[4] == sep {
        if t[6] == sep {
            if digits_range(t, 5, 6) && digits_range(t, 7, t.len() as int) && 1 <= t.len() - 7
                <= 2 {
                Some((val_range(t, 0, 4), val_range(t, 5, 6), val_range(t, 7, t.len() as int)))
            } else {
                None
            }
        } else if t.len() >= 9 && t[7] == sep {
            if digits_range(t, 5, 7) && digits_range(t, 8, t.len() as int) && 1 <= t.len() - 8
                <= 2 {
                Some((val_range(t, 0, 4), val_range(t, 5, 7), val_range(t, 8, t.len() as int)))
            } else {
                None
            }
        } else {
            None
        }
    } else {
        None
    }
}

/// Month and day of one or two digits, then a four-digit year: `MM/DD/YYYY`.
pub open spec fn spec_shape_mdy(t: Seq<char>) -> Option<(int, int, int)> {
    if t.len() == 8 && t[1] == '/' && t[3] == '/' && digits_range(t, 0, 1) && digits_range(t, 2, 3)
        && digits_range(t, 4, 8) {
        Some((val_range(t, 4, 8), val_range(t, 0, 1), val_range(t, 2, 3)))
    } else if t.len() == 9 && t[1] == '/' && t[4] == '/' && digits_range(t, 0, 1) && digits_range(
        t,
        2,
        4,
    ) && digits_range(t, 5, 9) {
        Some((val_range(t, 5, 9), val_range(t, 0, 1), val_range(t, 2, 4)))
    } else if t.len() == 9 && t[2] == '/' && t[4] == '/' && digits_range(t, 0, 2) && digits_range(
        t,
        3,
        4,
    ) && digits_range(t, 5, 9) {
        Some((val_range(t, 5, 9), val_range(t, 0, 2), val_range(t, 3, 4)))
    } else if t.len() == 10 && t[2] == '/' && t[5] == '/' && digits_range(t, 0, 2) && digits_range(
        t,
        3,
        5,
    ) && digits_range(t, 6, 10) {
        Some((val_range(t, 6, 10), val_range(t, 0, 2), val_range(t, 3, 5)))
    } else {
        None
    }
}

/// The first format, in the fixed order, whose shape matches and whose date
/// is real.
pub open spec fn spec_date_of(t: Seq<char>) -> Option<(int, int, int)> {
    let c1 = spec_shape_ymd8(t);
    let c2 = spec_shape_sep(t, '-');
    let c3 = spec_shape_sep(t, '/');
    let c4 = spec_shape_mdy(t);
    if c1 matches Some((y, m, d)) && spec_valid_ymd(y, m, d) {
        c1
    } else if c2 matches Some((y, m, d)) && spec_valid_ymd(y, m, d) {
        c2
    } else if c3 matches Some((y, m, d)) && spec_valid_ymd(y, m, d) {
        c3
    } else if c4 matches Some((y, m, d)) && spec_valid_ymd(y, m, d) {
        c4
    } else {
        None
    }
}

pub open spec fn spec_pad2(n: int) -> Seq<char> {
    if n < 10 {
        seq!['0'] + spec_dec(n)
    } else {
        spec_dec(n)
    }
}

pub open spec fn spec_pad4(n: int) -> Seq<char> {
    if n < 10 {
        seq!['0', '0', '0'] + spec_dec(n)
    } else if n < 100 {
        seq!['0', '0'] + spec_dec(n)
    } else if n < 1000 {
        seq!['0'] + spec_dec(n)
    } else {
        spec_dec(n)
    }
}

/// How an install date normalizes: the trimmed value is parsed against the
/// format list, the first real date wins and is rendered as `YYYY-MM-DD`;
/// anything else is dropped.
pub open spec fn spec_normalize_install_date(s: Seq<char>) -> Option<Seq<char>> {
    let t = trim_spec(s);
    if t.len() == 0 {
        None
    } else {
        match spec_date_of(t) {
            Some((y, m, d)) => Some(
                spec_pad4(y) + seq!['-'] + spec_pad2(m) + seq!['-'] + spec_pad2(d),
            ),
            None => None,
        }
    }
}

proof fn lemma_numeral_small(s: Seq<char>)
    requires
        all_digits_spec(s),
        s.len() <= 4,
    ensures
        0 <= numeral_value(s),
        numeral_value(s) < if s.len() == 0 {
            1int
        } else if s.len() == 1 {
            10int
        } else if s.len() == 2 {
            100int
        } else if s.len() == 3 {
            1000int
        } else {
            10000int
        },
    decreases s.len(),
{
    if s.len() > 0 {
        assert(all_digits_spec(s.drop_last()));
        lemma_numeral_small(s.drop_last());
    }
}

pub open spec fn all_digits_spec(s: Seq<char>) -> bool {
    forall|i: int| 0 <= i < s.len() ==> is_dec_digit(#[trigger] s[i])
}

/// All characters of `v[a..b]` are decimal digits.
fn all_digits_in(v: &Vec<char>, a: usize, b: usize) -> (r: bool)
    requires
        a <= b <= v@.len(),
    ensures
        r == digits_range(v@, a as int, b as int),
{
    let mut i: usize = a;
    while i < b
        invariant
            a <= i <= b <= v@.len(),
            forall|k: int| a <= k < i ==> is_dec_digit(#[trigger] v@[k]),
        decreases b - i,
    {
        let c = v[i];
        if !('0' <= c && c <= '9') {
            return false;
        }
        i = i + 1;
    }
    true
}

/// Value of the digit run `v[a..b]`, at most four digits long.
fn digits_value(v: &Vec<char>, a: usize, b: usize) -> (r: u32)
    requires
        a <= b <= v@.len(),
        b - a <= 4,
        digits_range(v@, a as int, b as int),
    ensures
        r == val_range(v@, a as int, b as int),
        r <= 9999,
{
    let mut acc: u32 = 0;
    let mut i: usize = a;
    proof {
        assert(v@.subrange(a as int, a as int) =~= Seq::<char>::empty());
    }
    while i < b
        invariant
            a <= i <= b <= v@.len(),
            b - a <= 4,
            digits_range(v@, a as int, b as int),
            acc == val_range(v@, a as int, i as int),
            acc <= 9999,
        decreases b - i,
    {
        let c = v[i];
        proof {
            let p = v@.subrange(a as int, i as int);
            assert(all_digits_spec(p));
            assert(p.len() <= 3);
            lemma_numeral_small(p);
            assert(acc <= 999);
            assert(v@.subrange(a as int, i + 1).drop_last() =~= p);
            assert(v@.subrange(a as int, i + 1).last() == c);
        }
        let d: u32 = (c as u32) - 0x30;
        acc = acc * 10 + d;
        i = i + 1;
    }
    proof {
        let whole = v@.subrange(a as int, b as int);
        assert(all_digits_spec(whole));
        lemma_numeral_small(whole);
    }
    acc
}

fn shape_ymd8(t: &Vec<char>) -> (r: Option<(u32, u32, u32)>)
    ensures
        match r {
            Some((y, m, d)) => spec_shape_ymd8(t@) == Some((y as int, m as int, d as int)) && y
                <= 9999,
            None => spec_shape_ymd8(t@) is None,
        },
{
    if t.len() == 8 && all_digits_in(t, 0, 8) {
        Some((digits_value(t, 0, 4), digits_value(t, 4, 6), digits_value(t, 6, 8)))
    } else {
        None
    }
}

fn shape_sep(t: &Vec<char>, sep: char) -> (r: Option<(u32, u32, u32)>)
    ensures
        match r {
            Some((y, m, d)) => spec_shape_sep(t@, sep) == Some((y as int, m as int, d as int)) && y
                <= 9999,
            None => spec_shape_sep(t@, sep) is None,
        },
{
    let n = t.len();
    if !(8 <= n && n <= 10 && all_digits_in(t, 0, 4) && t[4] == sep) {
        return None;
    }
    if t[6] == sep {
        if all_digits_in(t, 5, 6) && all_digits_in(t, 7, n) && 1 <= n - 7 && n - 7 <= 2 {
            Some((digits_value(t, 0, 4), digits_value(t, 5, 6), digits_value(t, 7, n)))
        } else {
            None
        }
    } else if n >= 9 && t[7] == sep {
        if all_digits_in(t, 5, 7) && all_digits_in(t, 8, n) && 1 <= n - 8 && n - 8 <= 2 {
            Some((digits_value(t, 0, 4), digits_value(t, 5, 7), digits_value(t, 8, n)))
        } else {
            None
        }
    } else {
        None
    }
}

fn shape_mdy(t: &Vec<char>) -> (r: Option<(u32, u32, u32)>)
    ensures
        match r {
            Some((y, m, d)) => spec_shape_mdy(t@) == Some((y as int, m as int, d as int)) && y
                <= 9999,
            None => spec_shape_mdy(t@) is None,
        },
{
    let n = t.len();
    if n == 8 && t[1] == '/' && t[3] == '/' && all_digits_in(t, 0, 1) && all_digits_in(t, 2, 3)
        && all_digits_in(t, 4, 8) {
        Some((digits_value(t, 4, 8), digits_value(t, 0, 1), digits_value(t, 2, 3)))
    } else if n == 9 && t[1] == '/' && t[4] == '/' && all_digits_in(t, 0, 1) && all_digits_in(
        t,
        2,
        4,
    ) && all_digits_in(t, 5, 9) {
        Some((digits_value(t, 5, 9), digits_value(t, 0, 1), digits_value(t, 2, 4)))
    } else if n == 9 && t[2] == '/' && t[4] == '/' && all_digits_in(t, 0, 2) && all_digits_in(
        t,
        3,
        4,
    ) && all_digits_in(t, 5, 9) {
        Some((digits_value(t, 5, 9), digits_value(t, 0, 2), digits_value(t, 3, 4)))
    } else if n == 10 && t[2] == '/' && t[5] == '/' && all_digits_in(t, 0, 2) && all_digits_in(
        t,
        3,
        5,
    ) && all_digits_in(t, 6, 10) {
        Some((digits_value(t, 6, 10), digits_value(t, 0, 2), digits_value(t, 3, 5)))
    } else {
        None
    }
}

fn pad2(n: u32) -> (r: String)
    ensures
        r@ == spec_pad2(n as int),
{
    let mut r = String::new();
    if n < 10 {
        r.append("0");
        r.append(crate::digits::u64_to_dec_string(n as u64).as_str());
        proof {
            assert("0"@ == seq!['0']) by {
                reveal_strlit("0");
            }
            assert(r@ =~= seq!['0'] + spec_dec(n as int));
        }
    } else {
        r.append(crate::digits::u64_to_dec_string(n as u64).as_str());
    }
    r
}

fn pad4(n: u32) -> (r: String)
    ensures
        r@ == spec_pad4(n as int),
{
    let mut r = String::new();
    if n < 10 {
        r.append("000");
        r.append(crate::digits::u64_to_dec_string(n as u64).as_str());
        proof {
            assert("000"@ == seq!['0', '0', '0']) by {
                reveal_strlit("000");
            }
        }
    } else if n < 100 {
        r.append("00");
        r.append(crate::digits::u64_to_dec_string(n as u64).as_str());
        proof {
            assert("00"@ == seq!['0', '0']) by {
                reveal_strlit("00");
            }
        }
    } else if n < 1000 {
        r.append("0");
        r.append(crate::digits::u64_to_dec_string(n as u64).as_str());
        proof {
            assert("0"@ == seq!['0']) by {
                reveal_strlit("0");
            }
        }
    } else {
        r.append(crate::digits::u64_to_dec_string(n as u64).as_str());
    }
    r
}

/// Normalize an install date to `YYYY-MM-DD`, or drop a value no accepted
/// format reads as a real date.
pub fn normalize_install_date(raw: &str) -> (r: Option<String>)
    ensures
        match r {
            Some(s) => spec_normalize_install_date(raw@) == Some(s@),
            None => spec_normalize_install_date(raw@) is None,
        },
{
    let t = trim_chars(&to_chars(raw));
    if t.len() == 0 {
        return None;
    }
    let mut chosen: Option<(u32, u32, u32)> = None;
    match shape_ymd8(&t) {
        Some((y, m, d)) => {
            if ymd_is_valid(y as i32, m, d) {
                chosen = Some((y, m, d));
            }
        },
        None => {},
    }
    if chosen.is_none() {
        match shape_sep(&t, '-') {
            Some((y, m, d)) => {
                if ymd_is_valid(y as i32, m, d) {
                    chosen = Some((y, m, d));
                }
            },
            None => {},
        }
    }
    if chosen.is_none() {
        match shape_sep(&t, '/') {
            Some((y, m, d)) => {
                if ymd_is_valid(y as i32, m, d) {
                    chosen = Some((y, m, d));
                }
            },
            None => {},
        }
    }
    if chosen.is_none() {
        match shape_mdy(&t) {
            Some((y, m, d)) => {
                if ymd_is_valid(y as i32, m, d) {
                    chosen = Some((y, m, d));
                }
            },
            None => {},
        }
    }
    match chosen {
        Some((y, m, d)) => {
            let mut out = pad4(y);
            out.append("-");
            out.append(pad2(m).as_str());
            out.append("-");
            out.append(pad2(d).as_str());
            proof {
                assert("-"@ == seq!['-']) by {
                    reveal_strlit("-");
                }
                assert(out@ =~= spec_pad4(y as int) + seq!['-'] + spec_pad2(m as int) + seq!['-']
                    + spec_pad2(d as int));
            }
            Some(out)
        },
        None => None,
    }
}

// ---------------------------------------------------------------------
// Icon values
// ---------------------------------------------------------------------
/// How an icon path candidate is read out of a registry icon value: quoted
/// paths keep their quoted part and an optional `,<index>` suffix; unquoted
/// values split a trailing `,<index>` off, then drop anything after an
/// argument marker. An empty leftover means no candidate.
pub open spec fn spec_extract_icon(raw: Seq<char>) -> Option<(Seq<char>, int)> {
    let t = trim_spec(raw);
    if t.len() == 0 {
        None
    } else {
        let pair = if t[0] == '"' {
            let st = t.drop_first();
            let q = first_index_of(st, '"');
            if q != -1 {
                let quoted = trim_spec(st.take(q));
                let rem = trim_spec(st.skip(q + 1));
                let idx: int = if rem.len() > 0 && rem[0] == ',' {
                    match spec_parse_i32(trim_spec(rem.drop_first())) {
                        Some(v) => v as int,
                        None => 0,
                    }
                } else {
                    0
                };
                (quoted, idx)
            } else {
                (trim_spec(trim_quotes_spec(t)), 0int)
            }
        } else {
            let k = last_index_of(t, ',');
            let wi_idx: (Seq<char>, int) = if k != -1 {
                let pp = trim_spec(t.take(k));
                let ip = trim_spec(t.skip(k + 1));
                if pp.len() > 0 && ip.len() > 0 && spec_parse_i32(ip) is Some {
                    (pp, spec_parse_i32(ip)->0 as int)
                } else {
                    (t, 0int)
                }
            } else {
                (t, 0int)
            };
            let c0 = trim_spec(trim_quotes_spec(wi_idx.0));
            let f1 = first_sub_index(c0, " /"@);
            let c1 = if f1 != -1 {
                trim_spec(c0.take(f1))
            } else {
                c0
            };
            let f2 = first_sub_index(c1, " -"@);
            let c2 = if f2 != -1 {
                trim_spec(c1.take(f2))
            } else {
                c1
            };
            (c2, wi_idx.1)
        };
        let norm = trim_spec(trim_quotes_spec(pair.0));
        if norm.len() == 0 {
            None
        } else {
            Some((norm, pair.1))
        }
    }
}

/// Extract the icon path candidate and its resource index from a registry
/// icon value.
pub fn extract_icon_path_candidate_with_index(raw: &str) -> (r: Option<(String, i32)>)
    ensures
        match r {
            Some((p, idx)) => spec_extract_icon(raw@) == Some((p@, idx as int)),
            None => spec_extract_icon(raw@) is None,
        },
{
    let t = trim_chars(&to_chars(raw));
    let tl = t.len();
    if tl == 0 {
        return None;
    }
    let cand: Vec<char>;
    let idx: i32;
    if t[0] == '"' {
        let st = sub_chars(&t, 1, tl);
        proof {
            assert(st@ =~= t@.drop_first());
            lemma_first_index_of(st@, '"');
        }
        match find_char(&st, '"') {
            Some(q) => {
                proof {
                    let f = first_index_of(st@, '"');
                    assert(f != -1);
                    assert(!(f < q) && !(q < f));
                }
                let quoted = trim_chars(&sub_chars(&st, 0, q));
                let stl = st.len();
                let rem = trim_chars(&sub_chars(&st, q + 1, stl));
                proof {
                    assert(st@.take(q as int) =~= st@.subrange(0, q as int));
                    assert(st@.skip(q + 1) =~= st@.subrange(q + 1, st@.len() as int));
                }
                let parsed: i32 = if rem.len() > 0 && rem[0] == ',' {
                    let rl = rem.len();
                    let inner = trim_chars(&sub_chars(&rem, 1, rl));
                    proof {
                        assert(rem@.drop_first() =~= rem@.subrange(1, rem@.len() as int));
                    }
                    match parse_i32_chars(&inner) {
                        Some(v) => v,
                        None => 0,
                    }
                } else {
                    0
                };
                cand = quoted;
                idx = parsed;
            },
            None => {
                proof {
                    assert(first_index_of(st@, '"') == -1);
                }
                cand = trim_chars(&trim_quote_chars(&t));
                idx = 0;
            },
        }
    } else {
        proof {
            lemma_last_index_of(t@, ',');
        }
        let wi: Vec<char>;
        let idx0: i32;
        match rfind_char(&t, ',') {
            Some(k) => {
                proof {
                    let l = last_index_of(t@, ',');
                    assert(l != -1);
                    assert(!(l < k) && !(k < l));
                }
                let pp = trim_chars(&sub_chars(&t, 0, k));
                let ip = trim_chars(&sub_chars(&t, k + 1, tl));
                proof {
                    assert(t@.take(k as int) =~= t@.subrange(0, k as int));
                    assert(t@.skip(k + 1) =~= t@.subrange(k + 1, t@.len() as int));
                }
                if pp.len() > 0 && ip.len() > 0 {
                    match parse_i32_chars(&ip) {
                        Some(v) => {
                            wi = pp;
                            idx0 = v;
                        },
                        None => {
                            wi = sub_chars(&t, 0, tl);
                            idx0 = 0;
                            proof {
                                assert(wi@ =~= t@);
                            }
                        },
                    }
                } else {
                    wi = sub_chars(&t, 0, tl);
                    idx0 = 0;
                    proof {
                        assert(wi@ =~= t@);
                    }
                }
            },
            None => {
                wi = sub_chars(&t, 0, tl);
                idx0 = 0;
                proof {
                    assert(wi@ =~= t@);
                }
            },
        }
        let c0 = trim_chars(&trim_quote_chars(&wi));
        let m1 = to_chars(" /");
        proof {
            lemma_first_sub_index(c0@, " /"@);
        }
        let c1: Vec<char> = match find_sub(&c0, &m1) {
            Some(ix) => {
                proof {
                    let f = first_sub_index(c0@, " /"@);
                    assert(f != -1);
                    assert(!(f < ix) && !(ix < f));
                    assert(c0@.take(ix as int) =~= c0@.subrange(0, ix as int));
                }
                trim_chars(&sub_chars(&c0, 0, ix))
            },
            None => {
                proof {
                    let f = first_sub_index(c0@, " /"@);
                    if f != -1 {
                        assert(occurs_at(c0@, " /"@, f));
                        assert(has_substring(c0@, " /"@));
                    }
                }
                c0
            },
        };
        let m2 = to_chars(" -");
        proof {
            lemma_first_sub_index(c1@, " -"@);
        }
        let c2: Vec<char> = match find_sub(&c1, &m2) {
            Some(ix) => {
                proof {
                    let f = first_sub_index(c1@, " -"@);
                    assert(f != -1);
                    assert(!(f < ix) && !(ix < f));
                    assert(c1@.take(ix as int) =~= c1@.subrange(0, ix as int));
                }
                trim_chars(&sub_chars(&c1, 0, ix))
            },
            None => {
                proof {
                    let f = first_sub_index(c1@, " -"@);
                    if f != -1 {
                        assert(occurs_at(c1@, " -"@, f));
                        assert(has_substring(c1@, " -"@));
                    }
                }
                c1
            },
        };
        cand = c2;
        idx = idx0;
    }
    let norm = trim_chars(&trim_quote_chars(&cand));
    if norm.len() == 0 {
        None
    } else {
        Some((chars_to_string(&norm), idx))
    }
}

/// The candidate path alone.
pub fn extract_icon_path_candidate(raw: &str) -> (r: Option<String>)
    ensures
        match r {
            Some(p) => spec_extract_icon(raw@) matches Some(pair) && pair.0 == p@,
            None => spec_extract_icon(raw@) is None,
        },
{
    match extract_icon_path_candidate_with_index(raw) {
        Some((p, _)) => Some(p),
        None => None,
    }
}

/// A sanitized icon path: the expansion of the extracted candidate, kept
/// only when a candidate was extracted and the expanded path exists on
/// disk. Environment expansion reads the machine, so the expanded string
/// arrives as a fact beside the existence probe.
pub open spec fn spec_sanitize_icon(
    raw: Seq<char>,
    expanded: Option<Seq<char>>,
    candidate_exists: bool,
) -> Option<Seq<char>> {
    if spec_extract_icon(raw) is Some && candidate_exists {
        expanded
    } else {
        None
    }
}

/// Sanitize a registry icon value: `expanded_candidate` is the extracted
/// candidate after environment-variable expansion, and `candidate_exists`
/// reports whether that expanded path exists on disk.
pub fn sanitize_icon_path(
    raw: &str,
    expanded_candidate: &Option<String>,
    candidate_exists: bool,
) -> (r: Option<String>)
    ensures
        opt_view(r) == spec_sanitize_icon(raw@, opt_view(*expanded_candidate), candidate_exists),
{
    match extract_icon_path_candidate(raw) {
        Some(_) => if candidate_exists {
            clone_opt_string(expanded_candidate)
        } else {
            None
        },
        None => None,
    }
}

// ---------------------------------------------------------------------
// Icon fallback from the install location
// ---------------------------------------------------------------------
pub open spec fn opt_view(o: Option<String>) -> Option<Seq<char>> {
    match o {
        Some(s) => Some(s@),
        None => None,
    }
}

/// The icon chosen from the install location's first entries: the first
/// `.ico` file wins outright; otherwise the first `.exe` or `.dll` seen is
/// kept as a fallback. Only the first 128 entries are considered.
pub open spec fn spec_icon_pick(
    es: Seq<crate::scanner::ScanEntry>,
    i: int,
    fallback: Option<Seq<char>>,
) -> Option<Seq<char>>
    decreases es.len() - i,
{
    if i < 0 || i >= es.len() || i >= 128 {
        fallback
    } else {
        let e = es[i];
        let ext_low = match e.extension {
            Some(x) => crate::text::lower_seq(x@),
            None => Seq::empty(),
        };
        if !e.is_dir && e.extension is Some && ext_low == "ico"@ {
            Some(e.path@)
        } else if !e.is_dir && e.extension is Some && fallback is None && (ext_low == "exe"@
            || ext_low == "dll"@) {
            spec_icon_pick(es, i + 1, Some(e.path@))
        } else {
            spec_icon_pick(es, i + 1, fallback)
        }
    }
}

/// Pick an icon source from the install location's top-level entries.
pub fn find_icon_from_install_location(entries: &Vec<crate::scanner::ScanEntry>) -> (r: Option<
    String,
>)
    ensures
        opt_view(r) == spec_icon_pick(entries@, 0, None),
{
    let mut fallback: Option<String> = None;
    let mut i: usize = 0;
    while i < entries.len() && i < 128
        invariant
            i <= entries@.len(),
            spec_icon_pick(entries@, 0, None) == spec_icon_pick(
                entries@,
                i as int,
                opt_view(fallback),
            ),
        decreases entries.len() - i,
    {
        let e = &entries[i];
        if !e.is_dir {
            match &e.extension {
                Some(x) => {
                    let xl = crate::text::lower_chars(&to_chars(x.as_str()));
                    if crate::text::chars_eq(&xl, &to_chars("ico")) {
                        return Some(e.path.clone());
                    } else if fallback.is_none() && (crate::text::chars_eq(&xl, &to_chars("exe"))
                        || crate::text::chars_eq(&xl, &to_chars("dll"))) {
                        fallback = Some(e.path.clone());
                    }
                },
                None => {},
            }
        }
        i = i + 1;
    }
    fallback
}

// ---------------------------------------------------------------------
// Sizes
// ---------------------------------------------------------------------
/// How a program's size resolves: a registry estimate wins with `High`
/// confidence; else a positive bounded-walk result counts as `Medium`
/// filesystem data; anything else is unknown and `Low`.
pub open spec fn spec_resolve_size(p: InstalledProgram, location_size: Option<u64>) -> (
    Option<u64>,
    MetadataSource,
    MetadataConfidence,
) {
    if p.estimated_size is Some {
        (p.estimated_size, MetadataSource::Registry, MetadataConfidence::High)
    } else {
        match location_size {
            Some(s) => if s > 0 {
                (Some(s), MetadataSource::Filesystem, MetadataConfidence::Medium)
            } else {
                (None, MetadataSource::Unknown, MetadataConfidence::Low)
            },
            None => (None, MetadataSource::Unknown, MetadataConfidence::Low),
        }
    }
}

/// Resolve a program's size from its registry estimate or the bounded
/// install-location walk.
pub fn resolve_program_size(program: &InstalledProgram, location_size: Option<u64>) -> (r: (
    Option<u64>,
    MetadataSource,
    MetadataConfidence,
))
    ensures
        r == spec_resolve_size(*program, location_size),
{
    match program.estimated_size {
        Some(e) => (Some(e), MetadataSource::Registry, MetadataConfidence::High),
        None => match location_size {
            Some(s) => if s > 0 {
                (Some(s), MetadataSource::Filesystem, MetadataConfidence::Medium)
            } else {
                (None, MetadataSource::Unknown, MetadataConfidence::Low)
            },
            None => (None, MetadataSource::Unknown, MetadataConfidence::Low),
        },
    }
}

// ---------------------------------------------------------------------
// Enrichment
// ---------------------------------------------------------------------
/// The icon that came from the registry value, sanitized and expanded, if
/// any.
pub open spec fn spec_registry_icon(p: InstalledProgram, facts: EnrichmentFacts) -> Option<
    Seq<char>,
> {
    match p.icon_path {
        Some(raw) => spec_sanitize_icon(
            raw@,
            opt_view(facts.expanded_icon_candidate),
            facts.icon_candidate_exists,
        ),
        None => None,
    }
}

/// The icon the enricher settles on: the sanitized registry icon, else the
/// install-location fallback.
pub open spec fn spec_chosen_icon(p: InstalledProgram, facts: EnrichmentFacts) -> Option<
    Seq<char>,
> {
    match spec_registry_icon(p, facts) {
        Some(x) => Some(x),
        None => opt_view(facts.fallback_icon),
    }
}

/// `q` is `p` after one enrichment pass under `facts`: each field enriched
/// independently and conservatively, the aggregate confidence the weakest
/// of the three, and everything else untouched.
pub open spec fn spec_enriched(
    p: InstalledProgram,
    q: InstalledProgram,
    facts: EnrichmentFacts,
) -> bool {
    &&& match p.install_date {
        Some(raw) => match spec_normalize_install_date(raw@) {
            Some(norm) => {
                &&& q.install_date matches Some(nd) && nd@ == norm
                &&& q.install_date_source == MetadataSource::Registry
                &&& q.install_date_confidence == MetadataConfidence::High
            },
            None => {
                &&& q.install_date is None
                &&& q.install_date_source == MetadataSource::Registry
                &&& q.install_date_confidence == MetadataConfidence::Low
            },
        },
        None => {
            &&& q.install_date is None
            &&& q.install_date_source == MetadataSource::Unknown
            &&& q.install_date_confidence == MetadataConfidence::Unknown
        },
    }
    &&& match spec_chosen_icon(p, facts) {
        Some(ip) => {
            &&& q.icon_path matches Some(x) && x@ == ip
            &&& match facts.icon_assets {
                Some(a) => q.icon_cache_path_32 == a.icon_cache_path_32 && q.icon_cache_path_48
                    == a.icon_cache_path_48,
                None => q.icon_cache_path_32 is None && q.icon_cache_path_48 is None,
            }
            &&& q.icon_data_url is None && q.icon_data_url_32 is None && q.icon_data_url_48 is None
            &&& if spec_registry_icon(p, facts) is Some {
                q.icon_source == MetadataSource::Registry && q.icon_confidence
                    == MetadataConfidence::High
            } else {
                q.icon_source == MetadataSource::Filesystem && q.icon_confidence
                    == MetadataConfidence::Medium
            }
        },
        None => {
            &&& q.icon_path is None
            &&& q.icon_cache_path_32 is None && q.icon_cache_path_48 is None
            &&& q.icon_data_url is None && q.icon_data_url_32 is None && q.icon_data_url_48 is None
            &&& q.icon_source == MetadataSource::Unknown && q.icon_confidence
                == MetadataConfidence::Low
        },
    }
    &&& {
        let szc = spec_resolve_size(p, facts.location_size);
        &&& q.size == szc.0 && q.size_source == szc.1 && q.size_confidence == szc.2
        &&& if szc.0 is Some {
            q.size_last_updated_at matches Some(ts) && ts@ == facts.now_rfc3339@
        } else {
            q.size_last_updated_at == p.size_last_updated_at
        }
    }
    &&& q.metadata_confidence == MetadataConfidence::spec_lowest(
        seq![q.install_date_confidence, q.icon_confidence, q.size_confidence],
    )
    &&& q.id == p.id && q.name == p.name && q.publisher == p.publisher && q.version == p.version
    &&& q.install_location == p.install_location && q.uninstall_string == p.uninstall_string
    &&& q.install_source == p.install_source && q.estimated_size == p.estimated_size
    &&& q.display_version == p.display_version && q.url_info_about == p.url_info_about
        && q.help_link == p.help_link
}

/// One enrichment pass over one program. The three metadata fields are
/// enriched independently; the aggregate confidence is the weakest of the
/// three, never an optimistic blend.
pub fn enrich_program(program: &mut InstalledProgram, facts: &EnrichmentFacts)
    ensures
        spec_enriched(*old(program), *final(program), *facts),
{
    // Install date: an unparseable value is dropped, not kept raw.
    let date = clone_opt_string(&program.install_date);
    match date {
        Some(raw) => {
            match normalize_install_date(raw.as_str()) {
                Some(normalized) => {
                    program.install_date = Some(normalized);
                    program.install_date_source = MetadataSource::Registry;
                    program.install_date_confidence = MetadataConfidence::High;
                },
                None => {
                    program.install_date = None;
                    program.install_date_source = MetadataSource::Registry;
                    program.install_date_confidence = MetadataConfidence::Low;
                },
            }
        },
        None => {
            program.install_date_source = MetadataSource::Unknown;
            program.install_date_confidence = MetadataConfidence::Unknown;
        },
    }
    // Icon: the sanitized registry value first, the install-location
    // fallback second.
    let registry_icon: Option<String> = match &program.icon_path {
        Some(raw) => sanitize_icon_path(
            raw.as_str(),
            &facts.expanded_icon_candidate,
            facts.icon_candidate_exists,
        ),
        None => None,
    };
    let from_registry = registry_icon.is_some();
    let chosen: Option<String> = match registry_icon {
        Some(x) => Some(x),
        None => clone_opt_string(&facts.fallback_icon),
    };
    match chosen {
        Some(icon_path) => {
            program.icon_path = Some(icon_path);
            match &facts.icon_assets {
                Some(a) => {
                    program.icon_cache_path_32 = clone_opt_string(&a.icon_cache_path_32);
                    program.icon_cache_path_48 = clone_opt_string(&a.icon_cache_path_48);
                },
                None => {
                    program.icon_cache_path_32 = None;
                    program.icon_cache_path_48 = None;
                },
            }
            program.icon_data_url = None;
            program.icon_data_url_32 = None;
            program.icon_data_url_48 = None;
            if from_registry {
                program.icon_source = MetadataSource::Registry;
                program.icon_confidence = MetadataConfidence::High;
            } else {
                program.icon_source = MetadataSource::Filesystem;
                program.icon_confidence = MetadataConfidence::Medium;
            }
        },
        None => {
            program.icon_path = None;
            program.icon_cache_path_32 = None;
            program.icon_cache_path_48 = None;
            program.icon_data_url = None;
            program.icon_data_url_32 = None;
            program.icon_data_url_48 = None;
            program.icon_source = MetadataSource::Unknown;
            program.icon_confidence = MetadataConfidence::Low;
        },
    }
    // Size: registry estimate first, bounded filesystem walk second.
    let (size, size_source, size_confidence) = resolve_program_size(program, facts.location_size);
    program.size = size;
    program.size_source = size_source;
    program.size_confidence = size_confidence;
    if program.size.is_some() {
        program.size_last_updated_at = Some(facts.now_rfc3339.clone());
    }
    // Aggregate: always the least confident assessment.
    let mut vs: Vec<MetadataConfidence> = Vec::new();
    vs.push(program.install_date_confidence);
    vs.push(program.icon_confidence);
    vs.push(program.size_confidence);
    proof {
        assert(vs@ =~= seq![
            program.install_date_confidence,
            program.icon_confidence,
            program.size_confidence,
        ]);
    }
    program.metadata_confidence = MetadataConfidence::lowest(&vs);
}

/// Enrich a whole collected inventory, one facts record per program.
pub fn enrich_programs(programs: &mut Vec<InstalledProgram>, facts: &Vec<EnrichmentFacts>)
    requires
        old(programs)@.len() == facts@.len(),
    ensures
        final(programs)@.len() == old(programs)@.len(),
        forall|i: int|
            0 <= i < old(programs)@.len() ==> spec_enriched(
                #[trigger] old(programs)@[i],
                final(programs)@[i],
                facts@[i],
            ),
{
    let mut out: Vec<InstalledProgram> = Vec::new();
    let mut i: usize = 0;
    while i < programs.len()
        invariant
            programs@ == old(programs)@,
            programs@.len() == facts@.len(),
            i <= programs@.len(),
            out@.len() == i,
            forall|k: int|
                0 <= k < i ==> spec_enriched(#[trigger] programs@[k], out@[k], facts@[k]),
        decreases programs.len() - i,
    {
        let mut p = programs[i].duplicate();
        enrich_program(&mut p, &facts[i]);
        out.push(p);
        i = i + 1;
    }
    *programs = out;
}

} // verus!
