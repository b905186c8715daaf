//! Character-level string utilities shared by the scanners, the safety gate
//! and the lister: ASCII case folding, substring search, trimming and
//! decimal/hex formatting, all specified over `Seq<char>` views.

use vstd::prelude::*;
use vstd::std_specs::iter::IteratorSpec;

verus! {

broadcast use vstd::string::group_string_axioms;

/// ASCII lower-casing of one character; other characters are unchanged.
pub open spec fn lower_char(c: char) -> char {
    if 'A' <= c && c <= 'Z' {
        ((c as u32) + 0x20) as char
    } else {
        c
    }
}

/// ASCII upper-casing of one character; other characters are unchanged.
pub open spec fn upper_char(c: char) -> char {
    if 'a' <= c && c <= 'z' {
        ((c as u32) - 0x20) as char
    } else {
        c
    }
}

pub open spec fn lower_seq(s: Seq<char>) -> Seq<char> {
    s.map_values(|c: char| lower_char(c))
}

pub open spec fn upper_seq(s: Seq<char>) -> Seq<char> {
    s.map_values(|c: char| upper_char(c))
}

/// `p` occurs in `s` starting at index `i`.
pub open spec fn occurs_at(s: Seq<char>, p: Seq<char>, i: int) -> bool {
    0 <= i && i + p.len() <= s.len() && s.subrange(i, i + p.len() as int) == p
}

/// `p` occurs somewhere in `s` (substring containment).
pub open spec fn has_substring(s: Seq<char>, p: Seq<char>) -> bool {
    exists|i: int| occurs_at(s, p, i)
}

/// `s` starts with `p`.
pub open spec fn has_prefix(s: Seq<char>, p: Seq<char>) -> bool {
    p.len() <= s.len() && s.subrange(0, p.len() as int) == p
}

/// `s` ends with `p`.
pub open spec fn has_suffix(s: Seq<char>, p: Seq<char>) -> bool {
    p.len() <= s.len() && s.subrange(s.len() - p.len(), s.len() as int) == p
}

/// The characters of `s`, in order.
pub fn to_chars(s: &str) -> (r: Vec<char>)
    ensures
        r@ == s@,
{
    let n = s.unicode_len();
    let mut it = s.chars();
    let mut r: Vec<char> = Vec::new();
    loop
        invariant
            r@ + it.remaining() == s@,
            r@.len() <= n == s@.len(),
        ensures
            r@ == s@,
        decreases n - r@.len(),
    {
        match it.next() {
            Some(c) => {
                r.push(c);
            },
            None => {
                proof {
                    assert(r@ + it.remaining() =~= r@);
                }
                break ;
            },
        }
    }
    r
}

/// Relies on `FromIterator<char> for String` from std: collecting characters
/// yields the string whose characters are exactly those of the input.
#[verifier::external_body]
pub(crate) fn chars_to_string(v: &Vec<char>) -> (r: String)
    ensures
        r@ == v@,
{
    v.iter().collect()
}

pub fn lower_chars(v: &Vec<char>) -> (r: Vec<char>)
    ensures
        r@ == lower_seq(v@),
{
    let mut r: Vec<char> = Vec::new();
    let mut i: usize = 0;
    while i < v.len()
        invariant
            i <= v.len(),
            r@ == lower_seq(v@.subrange(0, i as int)),
        decreases v.len() - i,
    {
        let c = v[i];
        if 'A' <= c && c <= 'Z' {
            r.push(((c as u8) + 0x20) as char);
        } else {
            r.push(c);
        }
        proof {
            assert(lower_seq(v@.subrange(0, i + 1)) =~= lower_seq(v@.subrange(0, i as int)).push(
                lower_char(v@[i as int]),
            ));
        }
        i = i + 1;
    }
    proof {
        assert(v@.subrange(0, v@.len() as int) =~= v@);
    }
    r
}

pub fn upper_chars(v: &Vec<char>) -> (r: Vec<char>)
    ensures
        r@ == upper_seq(v@),
{
    let mut r: Vec<char> = Vec::new();
    let mut i: usize = 0;
    while i < v.len()
        invariant
            i <= v.len(),
            r@ == upper_seq(v@.subrange(0, i as int)),
        decreases v.len() - i,
    {
        let c = v[i];
        if 'a' <= c && c <= 'z' {
            r.push(((c as u8) - 0x20) as char);
        } else {
            r.push(c);
        }
        proof {
            assert(upper_seq(v@.subrange(0, i + 1)) =~= upper_seq(v@.subrange(0, i as int)).push(
                upper_char(v@[i as int]),
            ));
        }
        i = i + 1;
    }
    proof {
        assert(v@.subrange(0, v@.len() as int) =~= v@);
    }
    r
}

/// The string lower-cased character by character (ASCII letters only).
pub fn lower_str(s: &str) -> (r: String)
    ensures
        r@ == lower_seq(s@),
{
    chars_to_string(&lower_chars(&to_chars(s)))
}

/// `needle` occurs in `hay` starting at `i`.
fn occurs_here(hay: &Vec<char>, needle: &Vec<char>, i: usize) -> (r: bool)
    requires
        i + needle@.len() <= hay@.len(),
    ensures
        r == occurs_at(hay@, needle@, i as int),
{
    let hl = hay.len();
    let nl = needle.len();
    let mut j: usize = 0;
    while j < nl
        invariant
            j <= nl,
            nl == needle@.len(),
            hl == hay@.len(),
            i + nl <= hl,
            forall|k: int| 0 <= k < j ==> hay@[i + k] == needle@[k],
        decreases nl - j,
    {
        if hay[i + j] != needle[j] {
            proof {
                assert(hay@.subrange(i as int, i + needle@.len() as int)[j as int] == hay@[i + j]);
            }
            return false;
        }
        j = j + 1;
    }
    proof {
        assert(hay@.subrange(i as int, i + needle@.len() as int) =~= needle@);
    }
    true
}

/// Substring containment, as the scanners use it for name matching.
pub fn contains_sub(hay: &Vec<char>, needle: &Vec<char>) -> (r: bool)
    ensures
        r == has_substring(hay@, needle@),
{
    let hl = hay.len();
    let nl = needle.len();
    if nl > hl {
        proof {
            assert(forall|i: int| !occurs_at(hay@, needle@, i));
        }
        return false;
    }
    if nl == 0 {
        proof {
            assert(hay@.subrange(0, 0) =~= needle@);
            assert(occurs_at(hay@, needle@, 0));
        }
        return true;
    }
    let mut i: usize = 0;
    while i <= hl - nl
        invariant
            1 <= nl <= hl,
            nl == needle@.len(),
            hl == hay@.len(),
            i <= hl - nl + 1,
            forall|k: int| 0 <= k < i ==> !occurs_at(hay@, needle@, k),
        decreases hl - nl + 1 - i,
    {
        if occurs_here(hay, needle, i) {
            return true;
        }
        i = i + 1;
    }
    proof {
        assert(forall|k: int| occurs_at(hay@, needle@, k) ==> 0 <= k < i);
    }
    false
}

/// Prefix test.
pub fn starts_with_sub(hay: &Vec<char>, prefix: &Vec<char>) -> (r: bool)
    ensures
        r == has_prefix(hay@, prefix@),
{
    if prefix.len() > hay.len() {
        return false;
    }
    occurs_here(hay, prefix, 0)
}

/// Index of the first occurrence of `c` in `v`, if any.
pub fn find_char(v: &Vec<char>, c: char) -> (r: Option<usize>)
    ensures
        match r {
            Some(i) => i < v@.len() && v@[i as int] == c && forall|k: int|
                0 <= k < i ==> v@[k] != c,
            None => forall|k: int| 0 <= k < v@.len() ==> v@[k] != c,
        },
{
    let mut i: usize = 0;
    while i < v.len()
        invariant
            i <= v@.len(),
            forall|k: int| 0 <= k < i ==> v@[k] != c,
        decreases v.len() - i,
    {
        if v[i] == c {
            return Some(i);
        }
        i = i + 1;
    }
    None
}

/// Index of the last occurrence of `c` in `v`, if any.
pub fn rfind_char(v: &Vec<char>, c: char) -> (r: Option<usize>)
    ensures
        match r {
            Some(i) => i < v@.len() && v@[i as int] == c && forall|k: int|
                i < k < v@.len() ==> v@[k] != c,
            None => forall|k: int| 0 <= k < v@.len() ==> v@[k] != c,
        },
{
    let mut i: usize = v.len();
    while i > 0
        invariant
            i <= v@.len(),
            forall|k: int| i <= k < v@.len() ==> v@[k] != c,
        decreases i,
    {
        i = i - 1;
        if v[i] == c {
            return Some(i);
        }
    }
    None
}

/// Index of the first occurrence of `needle` in `hay`, if any.
pub fn find_sub(hay: &Vec<char>, needle: &Vec<char>) -> (r: Option<usize>)
    ensures
        match r {
            Some(i) => occurs_at(hay@, needle@, i as int) && forall|k: int|
                0 <= k < i ==> !occurs_at(hay@, needle@, k),
            None => !has_substring(hay@, needle@),
        },
{
    let hl = hay.len();
    let nl = needle.len();
    if nl > hl {
        proof {
            assert(forall|i: int| !occurs_at(hay@, needle@, i));
        }
        return None;
    }
    if nl == 0 {
        proof {
            assert(hay@.subrange(0, 0) =~= needle@);
        }
        return Some(0);
    }
    let mut i: usize = 0;
    while i <= hl - nl
        invariant
            1 <= nl <= hl,
            nl == needle@.len(),
            hl == hay@.len(),
            i <= hl - nl + 1,
            forall|k: int| 0 <= k < i ==> !occurs_at(hay@, needle@, k),
        decreases hl - nl + 1 - i,
    {
        if occurs_here(hay, needle, i) {
            return Some(i);
        }
        i = i + 1;
    }
    proof {
        assert(forall|k: int| occurs_at(hay@, needle@, k) ==> 0 <= k < i);
    }
    None
}

/// A copy of `v[from..to]`.
pub fn sub_chars(v: &Vec<char>, from: usize, to: usize) -> (r: Vec<char>)
    requires
        from <= to <= v@.len(),
    ensures
        r@ == v@.subrange(from as int, to as int),
{
    let mut r: Vec<char> = Vec::new();
    let mut i: usize = from;
    while i < to
        invariant
            from <= i <= to <= v@.len(),
            r@ == v@.subrange(from as int, i as int),
        decreases to - i,
    {
        r.push(v[i]);
        proof {
            assert(v@.subrange(from as int, i + 1) =~= v@.subrange(from as int, i as int).push(
                v@[i as int],
            ));
        }
        i = i + 1;
    }
    r
}

/// Index of the first `c` in `s`, or `-1`.
pub open spec fn first_index_of(s: Seq<char>, c: char) -> int
    decreases s.len(),
{
    if s.len() == 0 {
        -1
    } else if s[0] == c {
        0
    } else {
        let r = first_index_of(s.drop_first(), c);
        if r == -1 {
            -1
        } else {
            r + 1
        }
    }
}

pub proof fn lemma_first_index_of(s: Seq<char>, c: char)
    ensures
        first_index_of(s, c) == -1 ==> forall|k: int| 0 <= k < s.len() ==> s[k] != c,
        first_index_of(s, c) != -1 ==> 0 <= first_index_of(s, c) < s.len() && s[first_index_of(
            s,
            c,
        )] == c && forall|k: int| 0 <= k < first_index_of(s, c) ==> s[k] != c,
    decreases s.len(),
{
    if s.len() > 0 && s[0] != c {
        lemma_first_index_of(s.drop_first(), c);
        assert(forall|k: int| 1 <= k < s.len() ==> s[k] == s.drop_first()[k - 1]);
    }
}

/// Index of the first occurrence of `p` in `s`, or `-1`.
pub open spec fn first_sub_index(s: Seq<char>, p: Seq<char>) -> int
    decreases s.len(),
{
    if has_prefix(s, p) {
        0
    } else if s.len() == 0 {
        -1
    } else {
        let r = first_sub_index(s.drop_first(), p);
        if r == -1 {
            -1
        } else {
            r + 1
        }
    }
}

pub proof fn lemma_first_sub_index(s: Seq<char>, p: Seq<char>)
    ensures
        first_sub_index(s, p) == -1 ==> !has_substring(s, p),
        first_sub_index(s, p) != -1 ==> occurs_at(s, p, first_sub_index(s, p)) && forall|k: int|
            0 <= k < first_sub_index(s, p) ==> !occurs_at(s, p, k),
    decreases s.len(),
{
    let r = first_sub_index(s, p);
    if has_prefix(s, p) {
        assert(s.subrange(0, p.len() as int) == p);
        assert(occurs_at(s, p, 0));
    } else if s.len() == 0 {
        assert(forall|k: int| !occurs_at(s, p, k));
    } else {
        let d = s.drop_first();
        lemma_first_sub_index(d, p);
        assert forall|k: int| 0 <= k && k + p.len() <= d.len() implies occurs_at(d, p, k)
            == occurs_at(s, p, k + 1) by {
            assert(d.subrange(k, k + p.len() as int) =~= s.subrange(k + 1, k + 1 + p.len() as int));
        }
        if first_sub_index(d, p) == -1 {
            assert forall|k: int| !occurs_at(s, p, k) by {
                if 0 <= k && k + p.len() <= s.len() {
                    if k == 0 {
                        assert(!has_prefix(s, p));
                        assert(s.subrange(0, p.len() as int) != p);
                    } else {
                        assert(!occurs_at(d, p, k - 1));
                    }
                }
            }
        } else {
            let rd = first_sub_index(d, p);
            assert(occurs_at(s, p, rd + 1));
            assert forall|k: int| 0 <= k < rd + 1 implies !occurs_at(s, p, k) by {
                if k == 0 {
                    assert(!has_prefix(s, p));
                    if 0 + p.len() <= s.len() {
                        assert(s.subrange(0, p.len() as int) != p);
                    }
                } else {
                    assert(!occurs_at(d, p, k - 1));
                }
            }
        }
    }
}

/// Index of the last `c` in `s`, or `-1`.
pub open spec fn last_index_of(s: Seq<char>, c: char) -> int
    decreases s.len(),
{
    if s.len() == 0 {
        -1
    } else if s.last() == c {
        s.len() - 1
    } else {
        last_index_of(s.drop_last(), c)
    }
}

pub proof fn lemma_last_index_of(s: Seq<char>, c: char)
    ensures
        last_index_of(s, c) == -1 ==> forall|k: int| 0 <= k < s.len() ==> s[k] != c,
        last_index_of(s, c) != -1 ==> 0 <= last_index_of(s, c) < s.len() && s[last_index_of(s, c)]
            == c && forall|k: int| last_index_of(s, c) < k < s.len() ==> s[k] != c,
    decreases s.len(),
{
    if s.len() > 0 && s.last() != c {
        lemma_last_index_of(s.drop_last(), c);
        assert(forall|k: int| 0 <= k < s.len() - 1 ==> s[k] == s.drop_last()[k]);
    }
}

/// ASCII whitespace, the only whitespace this library trims.
pub open spec fn is_space(c: char) -> bool {
    c == ' ' || c == '\t' || c == '\n' || c == '\r'
}

pub open spec fn trim_start_spec(s: Seq<char>) -> Seq<char>
    decreases s.len(),
{
    if s.len() > 0 && is_space(s[0]) {
        trim_start_spec(s.drop_first())
    } else {
        s
    }
}

pub open spec fn trim_end_spec(s: Seq<char>) -> Seq<char>
    decreases s.len(),
{
    if s.len() > 0 && is_space(s.last()) {
        trim_end_spec(s.drop_last())
    } else {
        s
    }
}

/// The string with leading and trailing ASCII whitespace removed.
pub open spec fn trim_spec(s: Seq<char>) -> Seq<char> {
    trim_end_spec(trim_start_spec(s))
}

fn is_space_exec(c: char) -> (r: bool)
    ensures
        r == is_space(c),
{
    c == ' ' || c == '\t' || c == '\n' || c == '\r'
}

pub fn trim_chars(v: &Vec<char>) -> (r: Vec<char>)
    ensures
        r@ == trim_spec(v@),
{
    proof {
        assert(v@.subrange(0, v@.len() as int) =~= v@);
    }
    let mut a: usize = 0;
    while a < v.len() && is_space_exec(v[a])
        invariant
            a <= v@.len(),
            trim_start_spec(v@) == trim_start_spec(v@.subrange(a as int, v@.len() as int)),
        decreases v.len() - a,
    {
        proof {
            assert(v@.subrange(a as int, v@.len() as int).drop_first() =~= v@.subrange(
                a + 1,
                v@.len() as int,
            ));
        }
        a = a + 1;
    }
    proof {
        assert(v@.subrange(0, v@.len() as int) =~= v@);
        if a < v@.len() {
            assert(trim_start_spec(v@) =~= v@.subrange(a as int, v@.len() as int));
        } else {
            assert(trim_start_spec(v@) =~= v@.subrange(a as int, v@.len() as int));
        }
    }
    let mut b: usize = v.len();
    while b > a && is_space_exec(v[b - 1])
        invariant
            a <= b <= v@.len(),
            trim_start_spec(v@) == v@.subrange(a as int, v@.len() as int),
            trim_end_spec(v@.subrange(a as int, v@.len() as int)) == trim_end_spec(
                v@.subrange(a as int, b as int),
            ),
        decreases b,
    {
        proof {
            assert(v@.subrange(a as int, b as int).drop_last() =~= v@.subrange(a as int, b - 1));
        }
        b = b - 1;
    }
    proof {
        if b > a {
            assert(trim_end_spec(v@.subrange(a as int, b as int)) =~= v@.subrange(
                a as int,
                b as int,
            ));
        } else {
            assert(trim_end_spec(v@.subrange(a as int, b as int)) =~= v@.subrange(
                a as int,
                b as int,
            ));
        }
    }
    sub_chars(v, a, b)
}

pub open spec fn trim_quotes_start(s: Seq<char>) -> Seq<char>
    decreases s.len(),
{
    if s.len() > 0 && s[0] == '"' {
        trim_quotes_start(s.drop_first())
    } else {
        s
    }
}

pub open spec fn trim_quotes_end(s: Seq<char>) -> Seq<char>
    decreases s.len(),
{
    if s.len() > 0 && s.last() == '"' {
        trim_quotes_end(s.drop_last())
    } else {
        s
    }
}

/// The string with leading and trailing double quotes removed.
pub open spec fn trim_quotes_spec(s: Seq<char>) -> Seq<char> {
    trim_quotes_end(trim_quotes_start(s))
}

pub fn trim_quote_chars(v: &Vec<char>) -> (r: Vec<char>)
    ensures
        r@ == trim_quotes_spec(v@),
{
    proof {
        assert(v@.subrange(0, v@.len() as int) =~= v@);
    }
    let mut a: usize = 0;
    while a < v.len() && v[a] == '"'
        invariant
            a <= v@.len(),
            trim_quotes_start(v@) == trim_quotes_start(v@.subrange(a as int, v@.len() as int)),
        decreases v.len() - a,
    {
        proof {
            assert(v@.subrange(a as int, v@.len() as int).drop_first() =~= v@.subrange(
                a + 1,
                v@.len() as int,
            ));
        }
        a = a + 1;
    }
    proof {
        assert(trim_quotes_start(v@) =~= v@.subrange(a as int, v@.len() as int));
    }
    let mut b: usize = v.len();
    while b > a && v[b - 1] == '"'
        invariant
            a <= b <= v@.len(),
            trim_quotes_start(v@) == v@.subrange(a as int, v@.len() as int),
            trim_quotes_end(v@.subrange(a as int, v@.len() as int)) == trim_quotes_end(
                v@.subrange(a as int, b as int),
            ),
        decreases b,
    {
        proof {
            assert(v@.subrange(a as int, b as int).drop_last() =~= v@.subrange(a as int, b - 1));
        }
        b = b - 1;
    }
    proof {
        assert(trim_quotes_end(v@.subrange(a as int, b as int)) =~= v@.subrange(a as int, b as int));
    }
    sub_chars(v, a, b)
}

/// Trim convenience on `&str`, returning an owned string.
pub fn trim_str(s: &str) -> (r: String)
    ensures
        r@ == trim_spec(s@),
{
    chars_to_string(&trim_chars(&to_chars(s)))
}

/// The character-level view of an optional string.
pub open spec fn opt_str_view(o: Option<String>) -> Option<Seq<char>> {
    match o {
        Some(s) => Some(s@),
        None => None,
    }
}

/// A tracked copy of an optional string.
pub fn clone_opt_string(o: &Option<String>) -> (r: Option<String>)
    ensures
        r == *o,
{
    match o {
        Some(s) => Some(s.clone()),
        None => None,
    }
}

/// Suffix test.
pub fn ends_with_sub(hay: &Vec<char>, suffix: &Vec<char>) -> (r: bool)
    ensures
        r == has_suffix(hay@, suffix@),
{
    let hl = hay.len();
    let nl = suffix.len();
    if nl > hl {
        return false;
    }
    let r = occurs_here(hay, suffix, hl - nl);
    proof {
        assert(occurs_at(hay@, suffix@, hl - nl) == has_suffix(hay@, suffix@));
    }
    r
}

/// Equality of two character vectors.
pub fn chars_eq(a: &Vec<char>, b: &Vec<char>) -> (r: bool)
    ensures
        r == (a@ == b@),
{
    if a.len() != b.len() {
        return false;
    }
    let mut i: usize = 0;
    while i < a.len()
        invariant
            a@.len() == b@.len(),
            i <= a@.len(),
            forall|k: int| 0 <= k < i ==> a@[k] == b@[k],
        decreases a.len() - i,
    {
        if a[i] != b[i] {
            return false;
        }
        i = i + 1;
    }
    proof {
        assert(a@ =~= b@);
    }
    true
}

} // verus!
