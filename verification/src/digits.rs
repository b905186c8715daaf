//! Decimal and hexadecimal rendering of integers, numeral parsing, and the
//! human-readable size formatter used in reports and descriptions.

use vstd::prelude::*;
use crate::text::{chars_to_string, sub_chars, to_chars};

verus! {

pub const KB: u64 = 1024;

pub const MB: u64 = 1048576;

pub const GB: u64 = 1073741824;

/// The character for one decimal digit value.
pub open spec fn dec_digit(d: int) -> char {
    (0x30 + d) as char
}

/// The character for one hexadecimal digit value, lower case.
pub open spec fn hex_digit(d: int) -> char {
    if d < 10 {
        (0x30 + d) as char
    } else {
        (0x61 + (d - 10)) as char
    }
}

/// Decimal rendering of a non-negative integer, no sign, no leading zeros.
pub open spec fn spec_dec(n: int) -> Seq<char>
    decreases n,
{
    if n <= 0 {
        seq![dec_digit(0)]
    } else if n < 10 {
        seq![dec_digit(n)]
    } else {
        spec_dec(n / 10).push(dec_digit(n % 10))
    }
}

/// Hexadecimal rendering of the low `k` digits of `n`, zero-padded.
pub open spec fn spec_hex_pad(n: int, k: nat) -> Seq<char>
    decreases k,
{
    if k == 0 {
        Seq::empty()
    } else {
        spec_hex_pad(n / 16, (k - 1) as nat).push(hex_digit(if n < 0 {
            0
        } else {
            n % 16
        }))
    }
}

proof fn lemma_push_reverse(s: Seq<char>, c: char)
    ensures
        s.push(c).reverse() =~= seq![c] + s.reverse(),
{
}

pub fn u64_to_dec_chars(n: u64) -> (r: Vec<char>)
    ensures
        r@ == spec_dec(n as int),
{
    if n == 0 {
        let mut r: Vec<char> = Vec::new();
        r.push('0');
        proof {
            assert(r@ =~= spec_dec(0));
        }
        return r;
    }
    let mut rev: Vec<char> = Vec::new();
    let mut m: u64 = n;
    while m > 0
        invariant
            (m > 0 && spec_dec(n as int) =~= spec_dec(m as int) + rev@.reverse()) || (m == 0
                && spec_dec(n as int) =~= rev@.reverse()),
        decreases m,
    {
        let d: u8 = (m % 10) as u8;
        proof {
            lemma_push_reverse(rev@, dec_digit((m % 10) as int));
            if m >= 10 {
                assert(spec_dec(m as int) =~= spec_dec(m as int / 10).push(
                    dec_digit(m as int % 10),
                ));
                assert(spec_dec(m as int / 10) + (seq![dec_digit(m as int % 10)] + rev@.reverse())
                    =~= spec_dec(m as int) + rev@.reverse());
            } else {
                assert(spec_dec(m as int) =~= seq![dec_digit(m as int % 10)]);
                assert(seq![dec_digit(m as int % 10)] + rev@.reverse() =~= spec_dec(m as int)
                    + rev@.reverse());
            }
        }
        rev.push((0x30 + d) as char);
        m = m / 10;
    }
    let ghost full = spec_dec(n as int);
    proof {
        assert(full =~= rev@.reverse());
    }
    let mut r: Vec<char> = Vec::new();
    let mut i: usize = rev.len();
    while i > 0
        invariant
            i <= rev@.len(),
            r@.len() == rev@.len() - i,
            forall|k: int| 0 <= k < r@.len() ==> r@[k] == rev@[rev@.len() - 1 - k],
        decreases i,
    {
        i = i - 1;
        r.push(rev[i]);
    }
    proof {
        assert(r@ =~= rev@.reverse());
    }
    r
}

/// Decimal rendering as a `String`.
pub fn u64_to_dec_string(n: u64) -> (r: String)
    ensures
        r@ == spec_dec(n as int),
{
    chars_to_string(&u64_to_dec_chars(n))
}

/// The usual 16-digit, zero-padded, lower-case hexadecimal form of a hash.
pub fn u64_to_hex16(n: u64) -> (r: String)
    ensures
        r@ == spec_hex_pad(n as int, 16),
{
    let mut rev: Vec<char> = Vec::new();
    let mut m: u64 = n;
    let mut k: usize = 0;
    while k < 16
        invariant
            k <= 16,
            rev@.len() == k,
            spec_hex_pad(n as int, 16) =~= spec_hex_pad(m as int, (16 - k) as nat) + rev@.reverse(),
        decreases 16 - k,
    {
        let d: u8 = (m % 16) as u8;
        let c: char = if d < 10 {
            (0x30 + d) as char
        } else {
            (0x61 + (d - 10)) as char
        };
        proof {
            lemma_push_reverse(rev@, hex_digit((m % 16) as int));
            assert(spec_hex_pad(m as int, (16 - k) as nat) =~= spec_hex_pad(
                m as int / 16,
                (16 - k - 1) as nat,
            ).push(hex_digit(m as int % 16)));
            assert(spec_hex_pad(m as int / 16, (16 - k - 1) as nat) + (seq![
                hex_digit(m as int % 16),
            ] + rev@.reverse()) =~= spec_hex_pad(m as int, (16 - k) as nat) + rev@.reverse());
        }
        rev.push(c);
        m = m / 16;
        k = k + 1;
    }
    proof {
        assert(spec_hex_pad(n as int, 16) =~= rev@.reverse());
    }
    let mut r: Vec<char> = Vec::new();
    let mut i: usize = rev.len();
    while i > 0
        invariant
            i <= rev@.len(),
            r@.len() == rev@.len() - i,
            forall|j: int| 0 <= j < r@.len() ==> r@[j] == rev@[rev@.len() - 1 - j],
        decreases i,
    {
        i = i - 1;
        r.push(rev[i]);
    }
    proof {
        assert(r@ =~= rev@.reverse());
    }
    chars_to_string(&r)
}

pub open spec fn is_dec_digit(c: char) -> bool {
    '0' <= c && c <= '9'
}

pub open spec fn digit_val(c: char) -> int {
    c as int - 0x30
}

pub open spec fn all_digits(s: Seq<char>) -> bool {
    forall|i: int| 0 <= i < s.len() ==> is_dec_digit(#[trigger] s[i])
}

/// The value of an all-digit numeral.
pub open spec fn numeral_value(s: Seq<char>) -> int
    decreases s.len(),
{
    if s.len() == 0 {
        0
    } else {
        numeral_value(s.drop_last()) * 10 + digit_val(s.last())
    }
}

/// What `str::parse::<u32>` accepts: an optional `+`, then one or more
/// decimal digits, value within range.
pub open spec fn spec_parse_u32(s: Seq<char>) -> Option<u32> {
    let t = if s.len() > 0 && s[0] == '+' {
        s.drop_first()
    } else {
        s
    };
    if t.len() > 0 && all_digits(t) && numeral_value(t) <= u32::MAX {
        Some(numeral_value(t) as u32)
    } else {
        None
    }
}

proof fn lemma_numeral_nonneg(s: Seq<char>)
    requires
        all_digits(s),
    ensures
        numeral_value(s) >= 0,
    decreases s.len(),
{
    if s.len() > 0 {
        assert(all_digits(s.drop_last()));
        lemma_numeral_nonneg(s.drop_last());
    }
}

proof fn lemma_numeral_prefix_le(s: Seq<char>, k: int)
    requires
        all_digits(s),
        0 <= k <= s.len(),
    ensures
        numeral_value(s.subrange(0, k)) <= numeral_value(s),
    decreases s.len() - k,
{
    if k < s.len() {
        let p = s.subrange(0, k);
        let q = s.subrange(0, k + 1);
        assert(q.drop_last() =~= p);
        assert(all_digits(p));
        lemma_numeral_nonneg(p);
        assert(numeral_value(q) == numeral_value(p) * 10 + digit_val(q.last()));
        assert(numeral_value(p) * 10 >= numeral_value(p));
        lemma_numeral_prefix_le(s, k + 1);
    } else {
        assert(s.subrange(0, k) =~= s);
    }
}

/// Parse a `u32` numeral the way `str::parse::<u32>` does.
pub fn parse_u32_chars(v: &Vec<char>) -> (r: Option<u32>)
    ensures
        r == spec_parse_u32(v@),
{
    let start: usize = if v.len() > 0 && v[0] == '+' {
        1
    } else {
        0
    };
    let ghost t = if v@.len() > 0 && v@[0] == '+' {
        v@.drop_first()
    } else {
        v@
    };
    proof {
        assert(t =~= v@.subrange(start as int, v@.len() as int));
    }
    if start == v.len() {
        return None;
    }
    let mut acc: u64 = 0;
    let mut i: usize = start;
    while i < v.len()
        invariant
            start <= i <= v@.len(),
            start < v@.len(),
            t == if v@.len() > 0 && v@[0] == '+' {
                v@.drop_first()
            } else {
                v@
            },
            t == v@.subrange(start as int, v@.len() as int),
            acc == numeral_value(t.subrange(0, i - start)),
            acc <= u32::MAX,
            all_digits(t.subrange(0, i - start)),
        decreases v.len() - i,
    {
        let c = v[i];
        if !('0' <= c && c <= '9') {
            proof {
                assert(t[i - start] == c);
                assert(!all_digits(t));
            }
            return None;
        }
        let d: u64 = (c as u32 as u64) - 0x30;
        let next: u64 = acc * 10 + d;
        proof {
            assert(t.subrange(0, i - start + 1).drop_last() =~= t.subrange(0, i - start));
            assert(t.subrange(0, i - start + 1).last() == c);
        }
        if next > 0xFFFF_FFFF {
            proof {
                assert(all_digits(t.subrange(0, i - start + 1)));
                assert(forall|j: int|
                    i - start + 1 <= j < t.len() ==> is_dec_digit(#[trigger] t[j]) == is_dec_digit(
                        v@[j + start],
                    ));
                if all_digits(t) {
                    lemma_numeral_prefix_le(t, i - start + 1);
                    assert(numeral_value(t) > u32::MAX);
                }
            }
            return None;
        }
        acc = next;
        i = i + 1;
    }
    proof {
        assert(t.subrange(0, t.len() as int) =~= t);
    }
    Some(acc as u32)
}

/// What `str::parse::<i32>` accepts: an optional sign, then one or more
/// decimal digits, value within range.
pub open spec fn spec_parse_i32(s: Seq<char>) -> Option<i32> {
    let signed = s.len() > 0 && (s[0] == '+' || s[0] == '-');
    let neg = s.len() > 0 && s[0] == '-';
    let t = if signed {
        s.drop_first()
    } else {
        s
    };
    if t.len() > 0 && all_digits(t) {
        if neg {
            if numeral_value(t) <= 0x8000_0000 {
                Some((-numeral_value(t)) as i32)
            } else {
                None
            }
        } else {
            if numeral_value(t) <= 0x7FFF_FFFF {
                Some(numeral_value(t) as i32)
            } else {
                None
            }
        }
    } else {
        None
    }
}

/// Parse an `i32` numeral the way `str::parse::<i32>` does.
pub fn parse_i32_chars(v: &Vec<char>) -> (r: Option<i32>)
    ensures
        r == spec_parse_i32(v@),
{
    let signed = v.len() > 0 && (v[0] == '+' || v[0] == '-');
    let neg = v.len() > 0 && v[0] == '-';
    let start: usize = if signed {
        1
    } else {
        0
    };
    let limit: u64 = if neg {
        0x8000_0000
    } else {
        0x7FFF_FFFF
    };
    let ghost t = if signed {
        v@.drop_first()
    } else {
        v@
    };
    proof {
        assert(t =~= v@.subrange(start as int, v@.len() as int));
    }
    if start == v.len() {
        return None;
    }
    let mut acc: u64 = 0;
    let mut i: usize = start;
    while i < v.len()
        invariant
            start <= i <= v@.len(),
            start < v@.len(),
            signed == (v@.len() > 0 && (v@[0] == '+' || v@[0] == '-')),
            neg == (v@.len() > 0 && v@[0] == '-'),
            start == if signed {
                1int
            } else {
                0int
            },
            limit == if neg {
                0x8000_0000u64
            } else {
                0x7FFF_FFFFu64
            },
            t == if signed {
                v@.drop_first()
            } else {
                v@
            },
            t == v@.subrange(start as int, v@.len() as int),
            acc == numeral_value(t.subrange(0, i - start)),
            acc <= limit,
            all_digits(t.subrange(0, i - start)),
        decreases v.len() - i,
    {
        let c = v[i];
        if !('0' <= c && c <= '9') {
            proof {
                assert(t[i - start] == c);
                assert(!all_digits(t));
            }
            return None;
        }
        let d: u64 = (c as u32 as u64) - 0x30;
        let next: u64 = acc * 10 + d;
        proof {
            assert(t.subrange(0, i - start + 1).drop_last() =~= t.subrange(0, i - start));
            assert(t.subrange(0, i - start + 1).last() == c);
        }
        if next > limit {
            proof {
                assert(all_digits(t.subrange(0, i - start + 1)));
                if all_digits(t) {
                    lemma_numeral_prefix_le(t, i - start + 1);
                    assert(numeral_value(t) > limit);
                }
            }
            return None;
        }
        acc = next;
        i = i + 1;
    }
    proof {
        assert(t.subrange(0, t.len() as int) =~= t);
    }
    if neg {
        let r: i32 = (-(acc as i64)) as i32;
        proof {
            assert(r as int == -(acc as int));
        }
        Some(r)
    } else {
        Some(acc as i32)
    }
}

/// Size formatted for humans: two rounded decimals and a binary unit, or
/// plain bytes below one kibibyte.
pub open spec fn spec_two_dec(b: u64, unit: u64) -> Seq<char> {
    let w = b as int / unit as int;
    let f = ((b as int % unit as int) * 100 + unit as int / 2) / unit as int;
    if f == 100 {
        spec_dec(w + 1) + ".00"@
    } else if f < 10 {
        spec_dec(w) + "."@ + "0"@ + spec_dec(f)
    } else {
        spec_dec(w) + "."@ + spec_dec(f)
    }
}

pub open spec fn spec_format_size(b: u64) -> Seq<char> {
    if b >= GB {
        spec_two_dec(b, GB) + " GB"@
    } else if b >= MB {
        spec_two_dec(b, MB) + " MB"@
    } else if b >= KB {
        spec_two_dec(b, KB) + " KB"@
    } else {
        spec_dec(b as int) + " B"@
    }
}

fn two_dec(b: u64, unit: u64) -> (r: String)
    requires
        unit == KB || unit == MB || unit == GB,
    ensures
        r@ == spec_two_dec(b, unit),
{
    let w: u64 = b / unit;
    let rem: u64 = b % unit;
    let f: u64 = (rem * 100 + unit / 2) / unit;
    proof {
        vstd::arithmetic::div_mod::lemma_div_is_ordered_by_denominator(b as int, 2, unit as int);
        assert(w <= b as int / 2);
    }
    let mut r = String::new();
    if f == 100 {
        r.append(u64_to_dec_string(w + 1).as_str());
        r.append(".00");
    } else if f < 10 {
        r.append(u64_to_dec_string(w).as_str());
        r.append(".");
        r.append("0");
        r.append(u64_to_dec_string(f).as_str());
    } else {
        r.append(u64_to_dec_string(w).as_str());
        r.append(".");
        r.append(u64_to_dec_string(f).as_str());
    }
    r
}

/// Format a byte count for display.
pub fn format_size(bytes: u64) -> (r: String)
    ensures
        r@ == spec_format_size(bytes),
{
    let mut r = String::new();
    if bytes >= GB {
        r.append(two_dec(bytes, GB).as_str());
        r.append(" GB");
    } else if bytes >= MB {
        r.append(two_dec(bytes, MB).as_str());
        r.append(" MB");
    } else if bytes >= KB {
        r.append(two_dec(bytes, KB).as_str());
        r.append(" KB");
    } else {
        r.append(u64_to_dec_string(bytes).as_str());
        r.append(" B");
    }
    r
}

/// Cut a string to at most `max_len` characters, marking the cut with `..`.
pub fn truncate_string(s: &str, max_len: usize) -> (r: String)
    requires
        max_len >= 2,
    ensures
        r@ == if s@.len() > max_len {
            s@.subrange(0, max_len - 2) + ".."@
        } else {
            s@
        },
{
    let chars = to_chars(s);
    if chars.len() > max_len {
        let head = sub_chars(&chars, 0, max_len - 2);
        let mut r = chars_to_string(&head);
        r.append("..");
        r
    } else {
        s.to_owned()
    }
}

} // verus!
