//! The program lister: collects inventory rows from the registry and the
//! opt-in MSI/Store collaborators, enriches their metadata, deduplicates by
//! name, sorts, and applies a fuzzy search filter. A schema-versioned,
//! TTL-bounded cache sits in front of the whole pipeline.

pub mod enrichment;
pub mod models;
pub mod msi;
pub mod registry;
pub mod storage;
pub mod store;

use vstd::prelude::*;
use vstd::multiset::Multiset;
use crate::error::UninstallerError;
use crate::fuzzy::{fuzzy_match, fuzzy_matches};
use crate::lister::enrichment::{enrich_programs, spec_enriched};
use crate::lister::models::{EnrichmentFacts, InstallSource, InstalledProgram, ListProgramsQuery,
    ProgramListCacheState, ProgramListResponse};
use crate::lister::storage::{read_scan_cache, save_scan_cache, spec_cache_key,
    spec_cache_verdict, spec_recorded_schema, spec_verdict_reason, CacheContents,
    CACHE_SCHEMA_VERSION, DEFAULT_CACHE_TTL_SECONDS};
use crate::text::{chars_eq, lower_chars, lower_seq, opt_str_view, to_chars};

verus! {

/// Lexicographic order on character sequences by scalar value; the order
/// the inventory is sorted in.
pub open spec fn lex_le(a: Seq<char>, b: Seq<char>) -> bool
    decreases a.len(),
{
    if a.len() == 0 {
        true
    } else if b.len() == 0 {
        false
    } else if (a[0] as u32) < (b[0] as u32) {
        true
    } else if (a[0] as u32) > (b[0] as u32) {
        false
    } else {
        lex_le(a.drop_first(), b.drop_first())
    }
}

/// Compare two character vectors lexicographically.
pub fn lex_le_exec(a: &Vec<char>, b: &Vec<char>) -> (r: bool)
    ensures
        r == lex_le(a@, b@),
{
    proof {
        assert(a@.skip(0) =~= a@);
        assert(b@.skip(0) =~= b@);
    }
    let mut i: usize = 0;
    loop
        invariant
            i <= a@.len(),
            i <= b@.len(),
            lex_le(a@, b@) == lex_le(a@.skip(i as int), b@.skip(i as int)),
        decreases a@.len() - i,
    {
        if i == a.len() {
            proof {
                assert(a@.skip(i as int).len() == 0);
            }
            return true;
        }
        if i == b.len() {
            proof {
                assert(b@.skip(i as int).len() == 0);
                assert(a@.skip(i as int).len() > 0);
            }
            return false;
        }
        let ca = a[i] as u32;
        let cb = b[i] as u32;
        proof {
            assert(a@.skip(i as int)[0] == a@[i as int]);
            assert(b@.skip(i as int)[0] == b@[i as int]);
            assert(a@.skip(i as int).drop_first() =~= a@.skip(i + 1));
            assert(b@.skip(i as int).drop_first() =~= b@.skip(i + 1));
        }
        if ca < cb {
            return true;
        }
        if ca > cb {
            return false;
        }
        i = i + 1;
    }
}

/// A program's sort and dedupe key: its lower-cased name.
pub open spec fn spec_name_key(p: InstalledProgram) -> Seq<char> {
    lower_seq(p.name@)
}

pub open spec fn spec_has_key(s: Seq<InstalledProgram>, key: Seq<char>) -> bool {
    exists|i: int| 0 <= i < s.len() && spec_name_key(#[trigger] s[i]) == key
}

/// Deduplicate by lower-cased name; the first occurrence wins.
pub open spec fn spec_dedupe(s: Seq<InstalledProgram>) -> Seq<InstalledProgram>
    decreases s.len(),
{
    if s.len() == 0 {
        Seq::empty()
    } else {
        let d = spec_dedupe(s.drop_last());
        if spec_has_key(d, spec_name_key(s.last())) {
            d
        } else {
            d.push(s.last())
        }
    }
}

/// Insert after every element whose key is not above the new one.
pub open spec fn spec_sorted_insert(s: Seq<InstalledProgram>, p: InstalledProgram) -> Seq<
    InstalledProgram,
>
    decreases s.len(),
{
    if s.len() == 0 {
        seq![p]
    } else if lex_le(spec_name_key(s[0]), spec_name_key(p)) {
        seq![s[0]] + spec_sorted_insert(s.drop_first(), p)
    } else {
        seq![p] + s
    }
}

/// Insertion sort by lower-cased name.
pub open spec fn spec_sort_by_name(s: Seq<InstalledProgram>) -> Seq<InstalledProgram>
    decreases s.len(),
{
    if s.len() == 0 {
        Seq::empty()
    } else {
        spec_sorted_insert(spec_sort_by_name(s.drop_last()), s.last())
    }
}

proof fn lemma_lex_le_total(a: Seq<char>, b: Seq<char>)
    ensures
        lex_le(a, b) || lex_le(b, a),
    decreases a.len(),
{
    if a.len() > 0 && b.len() > 0 && (a[0] as u32) == (b[0] as u32) {
        lemma_lex_le_total(a.drop_first(), b.drop_first());
    }
}

proof fn lemma_lex_le_trans(a: Seq<char>, b: Seq<char>, c: Seq<char>)
    requires
        lex_le(a, b),
        lex_le(b, c),
    ensures
        lex_le(a, c),
    decreases a.len(),
{
    if a.len() > 0 && b.len() > 0 && c.len() > 0 {
        if (a[0] as u32) == (b[0] as u32) && (b[0] as u32) == (c[0] as u32) {
            lemma_lex_le_trans(a.drop_first(), b.drop_first(), c.drop_first());
        }
    }
}

/// Pairwise ascending by lower-cased name.
pub open spec fn spec_sorted_by_name_key(s: Seq<InstalledProgram>) -> bool {
    forall|i: int, j: int|
        0 <= i < j < s.len() ==> lex_le(
            spec_name_key(#[trigger] s[i]),
            spec_name_key(#[trigger] s[j]),
        )
}

/// No two entries share a lower-cased name.
pub open spec fn spec_distinct_name_keys(s: Seq<InstalledProgram>) -> bool {
    forall|i: int, j: int|
        0 <= i < j < s.len() ==> spec_name_key(#[trigger] s[i]) != spec_name_key(#[trigger] s[j])
}

/// `p` stands at a position of `s` before which its lower-cased name never
/// occurs: it is the first collected occurrence of that name.
pub open spec fn spec_first_occurrence(s: Seq<InstalledProgram>, p: InstalledProgram) -> bool {
    exists|j: int|
        0 <= j < s.len() && s[j] == p && forall|l: int|
            0 <= l < j ==> spec_name_key(#[trigger] s[l]) != spec_name_key(p)
}

proof fn lemma_dedupe_props(s: Seq<InstalledProgram>)
    ensures
        spec_distinct_name_keys(spec_dedupe(s)),
        forall|k: Seq<char>| spec_has_key(spec_dedupe(s), k) == spec_has_key(s, k),
        forall|i: int|
            0 <= i < spec_dedupe(s).len() ==> spec_first_occurrence(
                s,
                #[trigger] spec_dedupe(s)[i],
            ),
    decreases s.len(),
{
    if s.len() > 0 {
        let d = s.drop_last();
        let x = s.last();
        let dd = spec_dedupe(d);
        lemma_dedupe_props(d);
        assert forall|k: Seq<char>| spec_has_key(spec_dedupe(s), k) == spec_has_key(s, k) by {
            if spec_has_key(spec_dedupe(s), k) {
                let i = choose|i: int|
                    0 <= i < spec_dedupe(s).len() && spec_name_key(spec_dedupe(s)[i]) == k;
                if i < dd.len() {
                    assert(spec_has_key(dd, k));
                    let j = choose|j: int| 0 <= j < d.len() && spec_name_key(d[j]) == k;
                    assert(spec_name_key(s[j]) == k);
                } else {
                    assert(spec_name_key(s[s.len() - 1]) == k);
                }
            }
            if spec_has_key(s, k) {
                let j = choose|j: int| 0 <= j < s.len() && spec_name_key(s[j]) == k;
                if j < d.len() {
                    assert(spec_name_key(d[j]) == k);
                    assert(spec_has_key(d, k));
                    assert(spec_has_key(dd, k) == spec_has_key(d, k));
                    let i = choose|i: int| 0 <= i < dd.len() && spec_name_key(dd[i]) == k;
                    assert(spec_name_key(spec_dedupe(s)[i]) == k);
                } else {
                    if spec_has_key(dd, spec_name_key(x)) {
                        let i = choose|i: int|
                            0 <= i < dd.len() && spec_name_key(dd[i]) == spec_name_key(x);
                        assert(spec_name_key(spec_dedupe(s)[i]) == k);
                    } else {
                        assert(spec_dedupe(s)[spec_dedupe(s).len() - 1] == x);
                    }
                }
            }
        }
        assert forall|i: int|
            0 <= i < spec_dedupe(s).len() implies spec_first_occurrence(
            s,
            #[trigger] spec_dedupe(s)[i],
        ) by {
            if i < dd.len() {
                let p = dd[i];
                assert(spec_first_occurrence(d, p));
                let j = choose|j: int|
                    0 <= j < d.len() && d[j] == p && forall|l: int|
                        0 <= l < j ==> spec_name_key(#[trigger] d[l]) != spec_name_key(p);
                assert(s[j] == p);
                assert forall|l: int| 0 <= l < j implies spec_name_key(#[trigger] s[l])
                    != spec_name_key(p) by {
                    assert(s[l] == d[l]);
                }
            } else {
                let p = x;
                assert(spec_dedupe(s)[i] == p);
                assert(!spec_has_key(dd, spec_name_key(x)));
                assert(!spec_has_key(d, spec_name_key(x)));
                let j = s.len() - 1;
                assert(s[j] == p);
                assert forall|l: int| 0 <= l < j implies spec_name_key(#[trigger] s[l])
                    != spec_name_key(p) by {
                    assert(s[l] == d[l]);
                }
            }
        }
        assert forall|i: int, j: int|
            0 <= i < j < spec_dedupe(s).len() implies spec_name_key(#[trigger] spec_dedupe(s)[i])
            != spec_name_key(#[trigger] spec_dedupe(s)[j]) by {
            if j < dd.len() {
            } else if j == dd.len() && spec_dedupe(s).len() > dd.len() {
                assert(spec_dedupe(s)[j] == x);
                assert(!spec_has_key(dd, spec_name_key(x)));
                assert(spec_name_key(dd[i]) != spec_name_key(x));
            }
        }
    }
}

proof fn lemma_sorted_insert_at(s: Seq<InstalledProgram>, p: InstalledProgram, j: int)
    requires
        0 <= j <= s.len(),
        forall|k: int| 0 <= k < j ==> lex_le(spec_name_key(#[trigger] s[k]), spec_name_key(p)),
        j < s.len() ==> !lex_le(spec_name_key(s[j]), spec_name_key(p)),
    ensures
        spec_sorted_insert(s, p) =~= s.insert(j, p),
    decreases s.len(),
{
    if s.len() == 0 {
        assert(s.insert(0, p) =~= seq![p]);
    } else if j == 0 {
        assert(spec_sorted_insert(s, p) == seq![p] + s);
        assert(s.insert(0, p) =~= seq![p] + s);
    } else {
        assert(lex_le(spec_name_key(s[0]), spec_name_key(p)));
        let d = s.drop_first();
        assert(forall|k: int| 0 <= k < j - 1 ==> #[trigger] d[k] == s[k + 1]);
        lemma_sorted_insert_at(d, p, j - 1);
        assert(spec_sorted_insert(s, p) == seq![s[0]] + spec_sorted_insert(d, p));
        assert(seq![s[0]] + d.insert(j - 1, p) =~= s.insert(j, p));
    }
}

proof fn lemma_empty_program_multiset()
    ensures
        Seq::<InstalledProgram>::empty().to_multiset() =~= Multiset::<InstalledProgram>::empty(),
{
    broadcast use vstd::seq_lib::group_to_multiset_ensures;
    broadcast use vstd::multiset::group_multiset_axioms;

    let s = Seq::<InstalledProgram>::empty();
    assert forall|v: InstalledProgram| s.to_multiset().count(v) == 0 by {
        assert(!s.contains(v));
    }
}

proof fn lemma_sorted_insert_props(s: Seq<InstalledProgram>, p: InstalledProgram)
    requires
        spec_sorted_by_name_key(s),
    ensures
        spec_sorted_by_name_key(spec_sorted_insert(s, p)),
        spec_sorted_insert(s, p).to_multiset() == s.to_multiset().insert(p),
        spec_sorted_insert(s, p).len() == s.len() + 1,
    decreases s.len(),
{
    broadcast use vstd::seq_lib::group_to_multiset_ensures;
    broadcast use vstd::multiset::group_multiset_axioms;
    broadcast use vstd::multiset::group_multiset_properties;

    let out = spec_sorted_insert(s, p);
    if s.len() == 0 {
        lemma_empty_program_multiset();
        assert(out =~= Seq::<InstalledProgram>::empty().push(p));
        assert(out.to_multiset() =~= s.to_multiset().insert(p));
    } else if lex_le(spec_name_key(s[0]), spec_name_key(p)) {
        let d = s.drop_first();
        assert forall|i: int, j: int|
            0 <= i < j < d.len() implies lex_le(
            spec_name_key(#[trigger] d[i]),
            spec_name_key(#[trigger] d[j]),
        ) by {
            assert(d[i] == s[i + 1]);
            assert(d[j] == s[j + 1]);
        }
        lemma_sorted_insert_props(d, p);
        let rest = spec_sorted_insert(d, p);
        assert(out =~= seq![s[0]] + rest);
        assert forall|i: int, j: int|
            0 <= i < j < out.len() implies lex_le(
            spec_name_key(#[trigger] out[i]),
            spec_name_key(#[trigger] out[j]),
        ) by {
            if i == 0 {
                let y = out[j];
                assert(out[j] == rest[j - 1]);
                assert(rest.contains(rest[j - 1]));
                assert(rest.to_multiset().count(y) > 0);
                if y != p {
                    assert(d.to_multiset().count(y) > 0);
                    assert(d.contains(y));
                    let m = choose|m: int| 0 <= m < d.len() && d[m] == y;
                    assert(d[m] == s[m + 1]);
                    assert(lex_le(spec_name_key(s[0]), spec_name_key(s[m + 1])));
                }
            } else {
                assert(out[i] == rest[i - 1]);
                assert(out[j] == rest[j - 1]);
            }
        }
        vstd::seq_lib::lemma_multiset_commutative(seq![s[0]], rest);
        vstd::seq_lib::lemma_multiset_commutative(seq![s[0]], d);
        assert(s =~= seq![s[0]] + d);
        assert(out.to_multiset() =~= s.to_multiset().insert(p));
    } else {
        lemma_lex_le_total(spec_name_key(s[0]), spec_name_key(p));
        assert(lex_le(spec_name_key(p), spec_name_key(s[0])));
        assert(out =~= seq![p] + s);
        assert forall|i: int, j: int|
            0 <= i < j < out.len() implies lex_le(
            spec_name_key(#[trigger] out[i]),
            spec_name_key(#[trigger] out[j]),
        ) by {
            if i == 0 {
                assert(out[j] == s[j - 1]);
                if j > 1 {
                    assert(lex_le(spec_name_key(s[0]), spec_name_key(s[j - 1])));
                    lemma_lex_le_trans(
                        spec_name_key(p),
                        spec_name_key(s[0]),
                        spec_name_key(s[j - 1]),
                    );
                }
            } else {
                assert(out[i] == s[i - 1]);
                assert(out[j] == s[j - 1]);
            }
        }
        vstd::seq_lib::lemma_multiset_commutative(seq![p], s);
        assert(out.to_multiset() =~= s.to_multiset().insert(p));
    }
}

proof fn lemma_sort_by_name_props(s: Seq<InstalledProgram>)
    ensures
        spec_sorted_by_name_key(spec_sort_by_name(s)),
        spec_sort_by_name(s).to_multiset() == s.to_multiset(),
    decreases s.len(),
{
    broadcast use vstd::seq_lib::group_to_multiset_ensures;
    broadcast use vstd::multiset::group_multiset_axioms;

    if s.len() == 0 {
    } else {
        let d = s.drop_last();
        lemma_sort_by_name_props(d);
        lemma_sorted_insert_props(spec_sort_by_name(d), s.last());
        assert(s =~= d.push(s.last()));
        assert(s.to_multiset() =~= d.to_multiset().insert(s.last()));
    }
}

proof fn lemma_sort_by_name_distinct(s: Seq<InstalledProgram>)
    requires
        spec_distinct_name_keys(s),
    ensures
        spec_distinct_name_keys(spec_sort_by_name(s)),
{
    broadcast use vstd::seq_lib::group_to_multiset_ensures;
    broadcast use vstd::multiset::group_multiset_axioms;

    lemma_sort_by_name_props(s);
    let t = spec_sort_by_name(s);
    assert forall|i: int, j: int|
        0 <= i < j < s.len() && i != j implies s[i] != s[j] by {
        assert(spec_name_key(s[i]) != spec_name_key(s[j]));
    }
    assert(s.no_duplicates());
    s.lemma_multiset_has_no_duplicates();
    t.lemma_multiset_has_no_duplicates_conv();
    assert forall|i: int, j: int|
        0 <= i < j < t.len() implies spec_name_key(#[trigger] t[i]) != spec_name_key(
        #[trigger] t[j],
    ) by {
        assert(t[i] != t[j]);
        assert(t.contains(t[i]));
        assert(t.contains(t[j]));
        assert(s.to_multiset().count(t[i]) > 0);
        assert(s.to_multiset().count(t[j]) > 0);
        assert(s.contains(t[i]));
        assert(s.contains(t[j]));
        if spec_name_key(t[i]) == spec_name_key(t[j]) {
            let a = choose|a: int| 0 <= a < s.len() && s[a] == t[i];
            let b = choose|b: int| 0 <= b < s.len() && s[b] == t[j];
            assert(a != b);
            assert(spec_name_key(s[a]) != spec_name_key(s[b]));
        }
    }
}

/// The search filter: keep programs whose lower-cased name or publisher
/// fuzzily matches the lower-cased query; no query keeps everything.
pub open spec fn spec_search_keep(p: InstalledProgram, q: Seq<char>) -> bool {
    fuzzy_matches(lower_seq(p.name@), q) || (p.publisher matches Some(pb) && fuzzy_matches(
        lower_seq(pb@),
        q,
    ))
}

pub open spec fn spec_search_filter(s: Seq<InstalledProgram>, search: Option<Seq<char>>) -> Seq<
    InstalledProgram,
>
    decreases s.len(),
{
    match search {
        None => s,
        Some(q) => {
            if s.len() == 0 {
                Seq::empty()
            } else {
                spec_search_filter(s.drop_last(), search) + (if spec_search_keep(s.last(), lower_seq(q)) {
                    seq![s.last()]
                } else {
                    Seq::empty()
                })
            }
        },
    }
}

proof fn lemma_search_filter_membership(s: Seq<InstalledProgram>, search: Option<Seq<char>>)
    ensures
        forall|i: int|
            0 <= i < spec_search_filter(s, search).len() ==> exists|k: int|
                0 <= k < s.len() && s[k] == #[trigger] spec_search_filter(s, search)[i],
    decreases s.len(),
{
    match search {
        None => {
            assert forall|i: int|
                0 <= i < spec_search_filter(s, search).len() implies exists|k: int|
                    0 <= k < s.len() && s[k] == #[trigger] spec_search_filter(s, search)[i] by {
                assert(s[i] == spec_search_filter(s, search)[i]);
            }
        },
        Some(_) => {
            if s.len() > 0 {
                let d = s.drop_last();
                lemma_search_filter_membership(d, search);
                assert forall|i: int|
                    0 <= i < spec_search_filter(s, search).len() implies exists|k: int|
                        0 <= k < s.len() && s[k] == #[trigger] spec_search_filter(s, search)[i] by {
                    if i < spec_search_filter(d, search).len() {
                        assert(spec_search_filter(s, search)[i] == spec_search_filter(d, search)[i]);
                        let k = choose|k: int|
                            0 <= k < d.len() && d[k] == spec_search_filter(d, search)[i];
                        assert(s[k] == spec_search_filter(s, search)[i]);
                    } else {
                        assert(spec_search_filter(s, search)[i] == s.last());
                        assert(s[s.len() - 1] == spec_search_filter(s, search)[i]);
                    }
                }
            }
        },
    }
}

proof fn lemma_search_filter_pairs(
    s: Seq<InstalledProgram>,
    search: Option<Seq<char>>,
    rel: spec_fn(InstalledProgram, InstalledProgram) -> bool,
)
    requires
        forall|i: int, j: int| 0 <= i < j < s.len() ==> rel(#[trigger] s[i], #[trigger] s[j]),
    ensures
        forall|i: int, j: int|
            0 <= i < j < spec_search_filter(s, search).len() ==> rel(
                #[trigger] spec_search_filter(s, search)[i],
                #[trigger] spec_search_filter(s, search)[j],
            ),
    decreases s.len(),
{
    match search {
        None => {
        },
        Some(_) => {
            if s.len() > 0 {
                let d = s.drop_last();
                assert forall|i: int, j: int|
                    0 <= i < j < d.len() implies rel(#[trigger] d[i], #[trigger] d[j]) by {
                    assert(d[i] == s[i]);
                    assert(d[j] == s[j]);
                }
                lemma_search_filter_pairs(d, search, rel);
                lemma_search_filter_membership(d, search);
                assert forall|i: int, j: int|
                    0 <= i < j < spec_search_filter(s, search).len() implies rel(
                    #[trigger] spec_search_filter(s, search)[i],
                    #[trigger] spec_search_filter(s, search)[j],
                ) by {
                    if j < spec_search_filter(d, search).len() {
                        assert(spec_search_filter(s, search)[i] == spec_search_filter(d, search)[i]);
                        assert(spec_search_filter(s, search)[j] == spec_search_filter(d, search)[j]);
                    } else {
                        assert(spec_search_filter(s, search)[j] == s.last());
                        assert(spec_search_filter(s, search)[i] == spec_search_filter(d, search)[i]);
                        let k = choose|k: int|
                            0 <= k < d.len() && d[k] == spec_search_filter(d, search)[i];
                        assert(rel(s[k], s[s.len() - 1]));
                    }
                }
            }
        },
    }
}

proof fn lemma_search_filter_keeps_matching(s: Seq<InstalledProgram>, q: Seq<char>)
    ensures
        forall|i: int|
            0 <= i < spec_search_filter(s, Some(q)).len() ==> spec_search_keep(
                #[trigger] spec_search_filter(s, Some(q))[i],
                lower_seq(q),
            ),
    decreases s.len(),
{
    if s.len() > 0 {
        lemma_search_filter_keeps_matching(s.drop_last(), q);
        assert forall|i: int|
            0 <= i < spec_search_filter(s, Some(q)).len() implies spec_search_keep(
            #[trigger] spec_search_filter(s, Some(q))[i],
            lower_seq(q),
        ) by {
            if i < spec_search_filter(s.drop_last(), Some(q)).len() {
                assert(spec_search_filter(s, Some(q))[i] == spec_search_filter(
                    s.drop_last(),
                    Some(q),
                )[i]);
            } else {
                assert(spec_search_filter(s, Some(q))[i] == s.last());
            }
        }
    }
}

/// Law: the shape of the listed inventory. The pipeline every list request
/// runs — dedupe by lower-cased name, sort, search filter — yields a list
/// sorted ascending by lower-cased name in which no two entries share one,
/// each entry is the first collected occurrence of its name, and, when a
/// query is given, every entry fuzzily matches it on name or publisher.
/// Deduplication by name happens here and nowhere else.
pub proof fn lemma_listed_inventory_shape(es: Seq<InstalledProgram>, search: Option<Seq<char>>)
    ensures
        ({
            let out = spec_search_filter(spec_sort_by_name(spec_dedupe(es)), search);
            &&& spec_sorted_by_name_key(out)
            &&& spec_distinct_name_keys(out)
            &&& forall|i: int| 0 <= i < out.len() ==> spec_first_occurrence(es, #[trigger] out[i])
            &&& (search matches Some(q) ==> forall|i: int|
                0 <= i < out.len() ==> spec_search_keep(#[trigger] out[i], lower_seq(q)))
        }),
{
    broadcast use vstd::seq_lib::group_to_multiset_ensures;
    broadcast use vstd::multiset::group_multiset_axioms;

    let dd = spec_dedupe(es);
    let t = spec_sort_by_name(dd);
    let out = spec_search_filter(t, search);
    lemma_dedupe_props(es);
    lemma_sort_by_name_props(dd);
    lemma_sort_by_name_distinct(dd);
    lemma_search_filter_pairs(
        t,
        search,
        |a: InstalledProgram, b: InstalledProgram| lex_le(spec_name_key(a), spec_name_key(b)),
    );
    lemma_search_filter_pairs(
        t,
        search,
        |a: InstalledProgram, b: InstalledProgram| spec_name_key(a) != spec_name_key(b),
    );
    lemma_search_filter_membership(t, search);
    assert forall|i: int| 0 <= i < out.len() implies spec_first_occurrence(
        es,
        #[trigger] out[i],
    ) by {
        let k = choose|k: int| 0 <= k < t.len() && t[k] == out[i];
        assert(t.contains(t[k]));
        assert(t.to_multiset().count(t[k]) > 0);
        assert(dd.to_multiset().count(t[k]) > 0);
        assert(dd.contains(t[k]));
        let m = choose|m: int| 0 <= m < dd.len() && dd[m] == t[k];
        assert(spec_first_occurrence(es, dd[m]));
    }
    match search {
        Some(q) => {
            lemma_search_filter_keeps_matching(t, q);
        },
        None => {
        },
    }
}

/// Whether a source filter can be served from the cache: only the default
/// and the registry source are cache-eligible.
pub fn is_cache_eligible(source: Option<InstallSource>) -> (r: bool)
    ensures
        r == (source is None || source == Some(InstallSource::Registry)),
{
    match source {
        None => true,
        Some(InstallSource::Registry) => true,
        Some(_) => false,
    }
}

/// The sources one request collects from: a named source alone, or the
/// registry by default — MSI and Store enumeration are opt-in, being slow
/// or shelling out.
pub fn collection_sources(source: Option<InstallSource>) -> (r: Vec<InstallSource>)
    ensures
        r@ == match source {
            Some(s) => seq![s],
            None => seq![InstallSource::Registry],
        },
{
    let mut r: Vec<InstallSource> = Vec::new();
    match source {
        Some(s) => r.push(s),
        None => r.push(InstallSource::Registry),
    }
    proof {
        assert(r@ =~= match source {
            Some(s) => seq![s],
            None => seq![InstallSource::Registry],
        });
    }
    r
}

/// Keep only the programs the fuzzy search accepts.
pub fn apply_search_filter(programs: &mut Vec<InstalledProgram>, search: Option<&str>)
    ensures
        final(programs)@ == spec_search_filter(
            old(programs)@,
            match search {
                Some(q) => Some(q@),
                None => None,
            },
        ),
{
    match search {
        None => {},
        Some(q) => {
            let nq = crate::text::chars_to_string(&lower_chars(&to_chars(q)));
            let ghost qv = Some(q@);
            let mut out: Vec<InstalledProgram> = Vec::new();
            let mut i: usize = 0;
            proof {
                assert(old(programs)@.subrange(0, 0) =~= Seq::<InstalledProgram>::empty());
            }
            while i < programs.len()
                invariant
                    programs@ == old(programs)@,
                    i <= programs@.len(),
                    nq@ == lower_seq(q@),
                    qv == Some(q@),
                    out@ == spec_search_filter(programs@.subrange(0, i as int), qv),
                decreases programs.len() - i,
            {
                let ghost pre = programs@.subrange(0, i as int);
                proof {
                    assert(programs@.subrange(0, i + 1).drop_last() =~= pre);
                    assert(programs@.subrange(0, i + 1).last() == programs@[i as int]);
                }
                let p = &programs[i];
                let keep = if fuzzy_match(
                    crate::text::lower_str(p.name.as_str()).as_str(),
                    nq.as_str(),
                ) {
                    true
                } else {
                    match &p.publisher {
                        Some(pb) => fuzzy_match(
                            crate::text::lower_str(pb.as_str()).as_str(),
                            nq.as_str(),
                        ),
                        None => false,
                    }
                };
                if keep {
                    out.push(p.duplicate());
                    proof {
                        assert(spec_search_filter(programs@.subrange(0, i + 1), qv)
                            =~= spec_search_filter(pre, qv).push(programs@[i as int]));
                    }
                } else {
                    proof {
                        assert(spec_search_filter(programs@.subrange(0, i + 1), qv)
                            =~= spec_search_filter(pre, qv));
                    }
                }
                i = i + 1;
            }
            proof {
                assert(programs@.subrange(0, programs@.len() as int) =~= programs@);
            }
            *programs = out;
        },
    }
}

fn has_key_exec(s: &Vec<InstalledProgram>, key: &Vec<char>) -> (r: bool)
    ensures
        r == spec_has_key(s@, key@),
{
    let mut i: usize = 0;
    while i < s.len()
        invariant
            i <= s@.len(),
            forall|k: int| 0 <= k < i ==> spec_name_key(#[trigger] s@[k]) != key@,
        decreases s.len() - i,
    {
        let nl = lower_chars(&to_chars(s[i].name.as_str()));
        if chars_eq(&nl, key) {
            return true;
        }
        i = i + 1;
    }
    false
}

/// Deduplicate by lower-cased name (first occurrence wins), then sort by
/// lower-cased name.
pub fn dedupe_and_sort(programs: &mut Vec<InstalledProgram>)
    ensures
        final(programs)@ == spec_sort_by_name(spec_dedupe(old(programs)@)),
{
    let mut deduped: Vec<InstalledProgram> = Vec::new();
    let mut i: usize = 0;
    proof {
        assert(old(programs)@.subrange(0, 0) =~= Seq::<InstalledProgram>::empty());
    }
    while i < programs.len()
        invariant
            programs@ == old(programs)@,
            i <= programs@.len(),
            deduped@ == spec_dedupe(programs@.subrange(0, i as int)),
        decreases programs.len() - i,
    {
        let ghost pre = programs@.subrange(0, i as int);
        proof {
            assert(programs@.subrange(0, i + 1).drop_last() =~= pre);
            assert(programs@.subrange(0, i + 1).last() == programs@[i as int]);
        }
        let key = lower_chars(&to_chars(programs[i].name.as_str()));
        if !has_key_exec(&deduped, &key) {
            deduped.push(programs[i].duplicate());
        }
        i = i + 1;
    }
    proof {
        assert(programs@.subrange(0, programs@.len() as int) =~= programs@);
    }
    let ghost dd = deduped@;
    let mut sorted: Vec<InstalledProgram> = Vec::new();
    let mut j: usize = 0;
    proof {
        assert(dd.subrange(0, 0) =~= Seq::<InstalledProgram>::empty());
    }
    while j < deduped.len()
        invariant
            deduped@ == dd,
            j <= dd.len(),
            sorted@ == spec_sort_by_name(dd.subrange(0, j as int)),
        decreases deduped.len() - j,
    {
        let ghost pre = dd.subrange(0, j as int);
        proof {
            assert(dd.subrange(0, j + 1).drop_last() =~= pre);
            assert(dd.subrange(0, j + 1).last() == dd[j as int]);
        }
        let key = lower_chars(&to_chars(deduped[j].name.as_str()));
        let mut pos: usize = 0;
        loop
            invariant
                pos <= sorted@.len(),
                key@ == spec_name_key(dd[j as int]),
                forall|k: int| 0 <= k < pos ==> lex_le(spec_name_key(#[trigger] sorted@[k]), key@),
            ensures
                pos <= sorted@.len(),
                forall|k: int| 0 <= k < pos ==> lex_le(spec_name_key(#[trigger] sorted@[k]), key@),
                pos < sorted@.len() ==> !lex_le(spec_name_key(sorted@[pos as int]), key@),
            decreases sorted@.len() - pos,
        {
            if pos == sorted.len() {
                break ;
            }
            let ek = lower_chars(&to_chars(sorted[pos].name.as_str()));
            if !lex_le_exec(&ek, &key) {
                break ;
            }
            pos = pos + 1;
        }
        proof {
            lemma_sorted_insert_at(sorted@, dd[j as int], pos as int);
        }
        sorted.insert(pos, deduped[j].duplicate());
        j = j + 1;
    }
    proof {
        assert(dd.subrange(0, dd.len() as int) =~= dd);
    }
    *programs = sorted;
}

/// List the collected inventory: enrich every program under its facts,
/// deduplicate by name, sort, and apply the fuzzy search filter.
pub fn list_all_programs(
    source: Option<InstallSource>,
    search: Option<&str>,
    collected: Vec<InstalledProgram>,
    facts: &Vec<EnrichmentFacts>,
) -> (r: Result<Vec<InstalledProgram>, UninstallerError>)
    requires
        collected@.len() == facts@.len(),
    ensures
        r matches Ok(ps) && exists|es: Seq<InstalledProgram>|
            {
                &&& es.len() == collected@.len()
                &&& (forall|i: int|
                    0 <= i < es.len() ==> spec_enriched(
                        collected@[i],
                        #[trigger] es[i],
                        facts@[i],
                    ))
                &&& ps@ == spec_search_filter(
                    spec_sort_by_name(spec_dedupe(es)),
                    match search {
                        Some(q) => Some(q@),
                        None => None,
                    },
                )
            },
{
    let _ = source;
    let mut all = collected;
    enrich_programs(&mut all, facts);
    let ghost es = all@;
    dedupe_and_sort(&mut all);
    apply_search_filter(&mut all, search);
    Ok(all)
}

/// The effective TTL of a query: non-positive values fall back to the
/// default.
pub open spec fn spec_effective_ttl(q: ListProgramsQuery) -> i64 {
    if q.cache_ttl_seconds <= 0 {
        DEFAULT_CACHE_TTL_SECONDS
    } else {
        q.cache_ttl_seconds
    }
}

/// List programs through the scan cache. A cache-eligible, non-refresh
/// query is served from valid cached contents without rescanning; anything
/// else runs the full pipeline, and an eligible query then gets the cache
/// replacement contents to persist. The response always reports the cache
/// provenance of the answer.
pub fn list_programs_with_cache(
    query: &ListProgramsQuery,
    cache: &CacheContents,
    collected: Vec<InstalledProgram>,
    facts: &Vec<EnrichmentFacts>,
    now_unix: i64,
) -> (r: Result<(ProgramListResponse, Option<CacheContents>), UninstallerError>)
    requires
        collected@.len() == facts@.len(),
        0 <= now_unix < 253402300800,
    ensures
        ({
            let ttl = spec_effective_ttl(*query);
            let eligible = query.source is None || query.source == Some(InstallSource::Registry);
            let verdict = spec_cache_verdict(*cache, ttl, now_unix);
            let search = opt_str_view(query.search);
            let served = eligible && !query.refresh && verdict is Hit;
            &&& r matches Ok(out)
            &&& if served {
                let (resp, replace) = out;
                &&& replace is None
                &&& resp.cache.cache_hit && resp.cache.cache_valid && !resp.cache.refreshed
                &&& resp.cache.schema_version == spec_recorded_schema(*cache)
                &&& opt_str_view(resp.cache.generated_at) == opt_str_view(cache.generated_at)
                &&& resp.cache.reason is None
                &&& resp.programs@ == spec_search_filter(
                    cache.rows@.map_values(|row: crate::lister::storage::CacheRow| row.program),
                    search,
                )
            } else {
                let (resp, replace) = out;
                exists|es: Seq<InstalledProgram>|
                    #![trigger spec_dedupe(es)]
                    {
                        let full = spec_sort_by_name(spec_dedupe(es));
                        &&& es.len() == collected@.len()
                        &&& (forall|i: int|
                            0 <= i < es.len() ==> spec_enriched(
                                collected@[i],
                                #[trigger] es[i],
                                facts@[i],
                            ))
                        &&& resp.programs@ == spec_search_filter(full, search)
                        &&& if eligible {
                            &&& replace matches Some(c)
                            &&& c.present
                            &&& opt_str_view(c.schema_version) == Some(
                                crate::digits::spec_dec(CACHE_SCHEMA_VERSION as int),
                            )
                            &&& c.generated_at matches Some(g) && crate::dates::rfc3339_to_unix(
                                g@,
                            ) == Some(now_unix)
                            &&& c.rows@.len() == full.len()
                            &&& (forall|i: int|
                                0 <= i < full.len() ==> (#[trigger] c.rows@[i]).program == full[i]
                                    && c.rows@[i].cache_key@ == spec_cache_key(full[i]))
                            &&& !resp.cache.cache_hit && resp.cache.cache_valid
                                && resp.cache.refreshed
                            &&& resp.cache.schema_version == CACHE_SCHEMA_VERSION
                            &&& opt_str_view(resp.cache.generated_at) == opt_str_view(
                                c.generated_at,
                            )
                            &&& opt_str_view(resp.cache.reason) == if query.refresh {
                                Some("force_refresh"@)
                            } else {
                                spec_verdict_reason(verdict)
                            }
                        } else {
                            &&& replace is None
                            &&& !resp.cache.cache_hit && !resp.cache.cache_valid
                                && !resp.cache.refreshed
                            &&& resp.cache.schema_version == CACHE_SCHEMA_VERSION
                            &&& resp.cache.generated_at is None
                            &&& opt_str_view(resp.cache.reason) == Some("source_not_cacheable"@)
                        }
                    }
            }
        }),
{
    let ttl: i64 = if query.cache_ttl_seconds <= 0 {
        DEFAULT_CACHE_TTL_SECONDS
    } else {
        query.cache_ttl_seconds
    };
    let eligible = is_cache_eligible(query.source);
    let search: Option<&str> = match &query.search {
        Some(s) => Some(s.as_str()),
        None => None,
    };
    let ghost searchv = opt_str_view(query.search);
    let mut miss_reason: Option<String> = None;
    if eligible && !query.refresh {
        let cached = read_scan_cache(cache, ttl, now_unix);
        if cached.cache_hit && cached.cache_valid {
            let mut programs = match cached.entries {
                Some(es) => es,
                None => Vec::new(),
            };
            proof {
                assert(programs@ =~= cache.rows@.map_values(
                    |row: crate::lister::storage::CacheRow| row.program,
                ));
            }
            apply_search_filter(&mut programs, search);
            let state = ProgramListCacheState {
                cache_hit: true,
                cache_valid: true,
                refreshed: false,
                schema_version: cached.schema_version,
                generated_at: cached.generated_at,
                reason: None,
            };
            return Ok((ProgramListResponse { programs, cache: state }, None));
        }
        miss_reason = cached.reason;
    }
    let mut all = collected;
    enrich_programs(&mut all, facts);
    let ghost es = all@;
    dedupe_and_sort(&mut all);
    if eligible {
        let replacement = save_scan_cache(&all, now_unix);
        let reason: Option<String> = if query.refresh {
            let mut m = String::new();
            m.append("force_refresh");
            Some(m)
        } else if miss_reason.is_none() {
            let mut m = String::new();
            m.append("cache_rebuilt");
            Some(m)
        } else {
            miss_reason
        };
        let state = ProgramListCacheState {
            cache_hit: false,
            cache_valid: true,
            refreshed: true,
            schema_version: CACHE_SCHEMA_VERSION,
            generated_at: crate::text::clone_opt_string(&replacement.generated_at),
            reason,
        };
        apply_search_filter(&mut all, search);
        Ok((ProgramListResponse { programs: all, cache: state }, Some(replacement)))
    } else {
        let mut m = String::new();
        m.append("source_not_cacheable");
        let state = ProgramListCacheState {
            cache_hit: false,
            cache_valid: false,
            refreshed: false,
            schema_version: CACHE_SCHEMA_VERSION,
            generated_at: None,
            reason: Some(m),
        };
        apply_search_filter(&mut all, search);
        Ok((ProgramListResponse { programs: all, cache: state }, None))
    }
}

} // verus!
