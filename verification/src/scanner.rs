//! The source scanners and the scan orchestrator. Each scanner is a pure
//! function from a program-name pattern and a list of walked entries (or
//! registry records) to unranked traces; the orchestrator merges the
//! scanners' output, recomputes confidence and criticality in a second pass,
//! sorts by confidence and keeps only traces whose target still exists.
//! Traces are deliberately not deduplicated: several kinds of evidence for
//! one artifact are meaningful signal.

mod appdata;
mod filesystem;
mod registry;
mod shortcuts;

pub use appdata::{is_system_appdata_dir, scan_appdata_traces, spec_appdata_traces,
    spec_appdata_entry_trace, spec_is_system_appdata_dir};
pub use filesystem::{is_system_dir, scan_filesystem_traces, spec_fs_traces, spec_fs_entry_trace,
    spec_is_system_dir};
pub use registry::{scan_registry_traces, spec_registry_traces, spec_key_trace, spec_key_traces,
    spec_uninstall_trace, spec_uninstall_traces, spec_last_segment, RegistryKeyRecord,
    UninstallEntryRecord};
pub use shortcuts::{get_shortcut_description, scan_shortcut_traces, spec_shortcut_traces,
    spec_shortcut_entry_trace, spec_shortcut_description};

use vstd::prelude::*;
use crate::error::UninstallerError;
use crate::paths::{is_critical_registry_path, is_system_critical_path,
    spec_is_critical_registry_path, spec_is_system_critical_path};
use crate::text::{contains_sub, has_substring, lower_chars, lower_seq, to_chars};
use crate::trace::{Confidence, Trace, TraceType};

verus! {

/// Everything a trace carries except its random id: the projection that
/// scanner contracts speak about.
#[verifier::ext_equal]
pub struct TraceSpec {
    pub program: Seq<char>,
    pub ty: TraceType,
    pub path: Seq<char>,
    pub desc: Seq<char>,
    pub size: Option<u64>,
    pub is_critical: bool,
    pub conf: Confidence,
    pub exists: bool,
}

pub open spec fn trace_data(t: Trace) -> TraceSpec {
    TraceSpec {
        program: t.program_name@,
        ty: t.trace_type,
        path: t.path@,
        desc: t.description@,
        size: t.size,
        is_critical: t.is_critical,
        conf: t.confidence,
        exists: t.exists,
    }
}

/// `ts` is exactly the trace list that `ss` describes, id aside.
pub open spec fn traces_obey(ts: Seq<Trace>, ss: Seq<TraceSpec>) -> bool {
    ts.len() == ss.len() && forall|i: int| 0 <= i < ts.len() ==> trace_data(#[trigger] ts[i]) == ss[i]
}

/// One entry of a directory walk, as the walker hands it to a scanner:
/// everything is a plain value, read once from the filesystem.
#[derive(Debug, Clone)]
pub struct ScanEntry {
    /// Full path of the entry.
    pub path: String,
    /// Final path component; empty when the path has none.
    pub name: String,
    /// Final path component without its extension.
    pub stem: String,
    /// Extension, when the name has one.
    pub extension: Option<String>,
    pub is_dir: bool,
    /// Size reported by the entry's metadata, when it could be read.
    pub file_size: Option<u64>,
    /// Recursive content size, computed by the walker for directories the
    /// app-data scanner may report.
    pub dir_size: Option<u64>,
}

/// The orchestrator's second pass over one trace: confidence from the final
/// path against the pattern (a separator-and-delimiter match is `High`, bare
/// containment `Medium`, anything else `Low`), and criticality from the
/// discovery-time denylists. A criticality flag is never cleared.
pub open spec fn spec_assigned(t: Trace, name_lower: Seq<char>) -> Trace {
    let pl = lower_seq(t.path@);
    let exact = has_substring(pl, seq!['\\'] + name_lower + seq![' ']) || has_substring(
        pl,
        seq!['/'] + name_lower + seq![' '],
    ) || has_substring(pl, seq!['\\'] + name_lower + seq!['.']);
    let name_match = has_substring(pl, name_lower);
    let conf = if exact {
        Confidence::High
    } else if name_match {
        Confidence::Medium
    } else {
        Confidence::Low
    };
    let critical = t.is_critical || spec_is_system_critical_path(t.path@) || ((t.trace_type
        == TraceType::RegistryKey || t.trace_type == TraceType::RegistryValue)
        && spec_is_critical_registry_path(t.path@));
    Trace { confidence: conf, is_critical: critical, ..t }
}

/// Recompute confidence and criticality for every merged trace.
pub fn assign_confidence_scores(program_name: &str, traces: &mut Vec<Trace>)
    ensures
        final(traces)@.len() == old(traces)@.len(),
        forall|i: int|
            0 <= i < old(traces)@.len() ==> final(traces)@[i] == spec_assigned(
                #[trigger] old(traces)@[i],
                lower_seq(program_name@),
            ),
{
    let name_lower = lower_chars(&to_chars(program_name));
    let sep_space = delimited(&name_lower, '\\', ' ');
    let slash_space = delimited(&name_lower, '/', ' ');
    let sep_dot = delimited(&name_lower, '\\', '.');
    let mut out: Vec<Trace> = Vec::new();
    let mut i: usize = 0;
    while i < traces.len()
        invariant
            i <= traces@.len(),
            out@.len() == i,
            name_lower@ == lower_seq(program_name@),
            sep_space@ == seq!['\\'] + lower_seq(program_name@) + seq![' '],
            slash_space@ == seq!['/'] + lower_seq(program_name@) + seq![' '],
            sep_dot@ == seq!['\\'] + lower_seq(program_name@) + seq!['.'],
            forall|k: int|
                0 <= k < i ==> out@[k] == spec_assigned(
                    #[trigger] traces@[k],
                    lower_seq(program_name@),
                ),
        decreases traces.len() - i,
    {
        let tr = &traces[i];
        let path_lower = lower_chars(&to_chars(tr.path.as_str()));
        let exact = contains_sub(&path_lower, &sep_space) || contains_sub(&path_lower, &slash_space)
            || contains_sub(&path_lower, &sep_dot);
        let name_match = contains_sub(&path_lower, &name_lower);
        let conf = if exact {
            Confidence::High
        } else if name_match {
            Confidence::Medium
        } else {
            Confidence::Low
        };
        let is_reg = tr.trace_type == TraceType::RegistryKey || tr.trace_type
            == TraceType::RegistryValue;
        let critical = tr.is_critical || is_system_critical_path(tr.path.as_str()) || (is_reg
            && is_critical_registry_path(tr.path.as_str()));
        out.push(
            Trace {
                id: tr.id.clone(),
                program_name: tr.program_name.clone(),
                trace_type: tr.trace_type,
                path: tr.path.clone(),
                description: tr.description.clone(),
                size: tr.size,
                is_critical: critical,
                confidence: conf,
                exists: tr.exists,
            },
        );
        i = i + 1;
    }
    *traces = out;
}

/// The walked and visited material every source scanner consumes, gathered
/// once per scan request.
#[derive(Debug, Clone)]
pub struct ScanInputs {
    pub registry_keys: Vec<RegistryKeyRecord>,
    pub uninstall_entries: Vec<UninstallEntryRecord>,
    pub filesystem_entries: Vec<ScanEntry>,
    pub appdata_entries: Vec<ScanEntry>,
    pub shortcut_entries: Vec<ScanEntry>,
}

/// The source categories scanned when the caller names none.
pub open spec fn default_trace_types() -> Seq<TraceType> {
    seq![TraceType::RegistryKey, TraceType::File, TraceType::AppData, TraceType::Shortcut]
}

/// The merged scanner output for the requested categories, in the fixed
/// merge order registry, filesystem, app-data, shortcuts.
pub open spec fn spec_merged_traces(
    program: Seq<char>,
    types: Seq<TraceType>,
    inputs: ScanInputs,
) -> Seq<TraceSpec> {
    let pat = lower_seq(program);
    (if types.contains(TraceType::RegistryKey) {
        spec_registry_traces(program, inputs.registry_keys@, inputs.uninstall_entries@)
    } else {
        Seq::empty()
    }) + (if types.contains(TraceType::File) {
        spec_fs_traces(inputs.filesystem_entries@, pat)
    } else {
        Seq::empty()
    }) + (if types.contains(TraceType::AppData) {
        spec_appdata_traces(inputs.appdata_entries@, pat)
    } else {
        Seq::empty()
    }) + (if types.contains(TraceType::Shortcut) {
        spec_shortcut_traces(inputs.shortcut_entries@, pat)
    } else {
        Seq::empty()
    })
}

/// The second pass, at the data level.
pub open spec fn spec_assigned_data(s: TraceSpec, name_lower: Seq<char>) -> TraceSpec {
    let pl = lower_seq(s.path);
    let exact = has_substring(pl, seq!['\\'] + name_lower + seq![' ']) || has_substring(
        pl,
        seq!['/'] + name_lower + seq![' '],
    ) || has_substring(pl, seq!['\\'] + name_lower + seq!['.']);
    let name_match = has_substring(pl, name_lower);
    let conf = if exact {
        Confidence::High
    } else if name_match {
        Confidence::Medium
    } else {
        Confidence::Low
    };
    let critical = s.is_critical || spec_is_system_critical_path(s.path) || ((s.ty
        == TraceType::RegistryKey || s.ty == TraceType::RegistryValue)
        && spec_is_critical_registry_path(s.path));
    TraceSpec { conf, is_critical: critical, ..s }
}

/// The traces of `s` whose confidence has the given rank, in order.
pub open spec fn filter_rank(s: Seq<TraceSpec>, rank: u8) -> Seq<TraceSpec>
    decreases s.len(),
{
    if s.len() == 0 {
        Seq::empty()
    } else {
        filter_rank(s.drop_last(), rank) + (if s.last().conf.spec_rank() == rank {
            seq![s.last()]
        } else {
            Seq::empty()
        })
    }
}

/// Stable descending sort by confidence: the `High` traces, then `Medium`,
/// then `Low`, each group in merge order.
pub open spec fn spec_sorted_by_confidence(s: Seq<TraceSpec>) -> Seq<TraceSpec> {
    filter_rank(s, 3) + filter_rank(s, 2) + filter_rank(s, 1)
}

/// The traces of `s` whose target still exists, in order.
pub open spec fn filter_existing(s: Seq<TraceSpec>) -> Seq<TraceSpec>
    decreases s.len(),
{
    if s.len() == 0 {
        Seq::empty()
    } else {
        filter_existing(s.drop_last()) + (if s.last().exists {
            seq![s.last()]
        } else {
            Seq::empty()
        })
    }
}

/// Everything `scan_all_traces` returns for a request: merged scanner
/// output, re-ranked, sorted by confidence, restricted to existing targets.
pub open spec fn spec_scan_result(
    program: Seq<char>,
    types: Seq<TraceType>,
    inputs: ScanInputs,
) -> Seq<TraceSpec> {
    filter_existing(
        spec_sorted_by_confidence(
            spec_merged_traces(program, types, inputs).map_values(
                |s: TraceSpec| spec_assigned_data(s, lower_seq(program)),
            ),
        ),
    )
}

proof fn lemma_filter_rank_members(s: Seq<TraceSpec>, rank: u8)
    ensures
        forall|i: int|
            0 <= i < filter_rank(s, rank).len() ==> (#[trigger] filter_rank(s, rank)[i]).conf.spec_rank()
                == rank,
    decreases s.len(),
{
    if s.len() > 0 {
        lemma_filter_rank_members(s.drop_last(), rank);
    }
}

proof fn lemma_sorted_by_confidence_desc(s: Seq<TraceSpec>)
    ensures
        forall|i: int, j: int|
            0 <= i < j < spec_sorted_by_confidence(s).len() ==> (#[trigger] spec_sorted_by_confidence(
                s,
            )[i]).conf.spec_rank() >= (#[trigger] spec_sorted_by_confidence(s)[j]).conf.spec_rank(),
{
    lemma_filter_rank_members(s, 3);
    lemma_filter_rank_members(s, 2);
    lemma_filter_rank_members(s, 1);
    let f3 = filter_rank(s, 3);
    let f2 = filter_rank(s, 2);
    let f1 = filter_rank(s, 1);
    assert forall|i: int, j: int|
        0 <= i < j < spec_sorted_by_confidence(s).len() implies (
    #[trigger] spec_sorted_by_confidence(s)[i]).conf.spec_rank() >= (
    #[trigger] spec_sorted_by_confidence(s)[j]).conf.spec_rank() by {
        let whole = (f3 + f2) + f1;
        if i < f3.len() + f2.len() {
            if i < f3.len() {
                assert(whole[i] == f3[i]);
            } else {
                assert(whole[i] == f2[i - f3.len()]);
            }
        } else {
            assert(whole[i] == f1[i - f3.len() - f2.len()]);
        }
        if j < f3.len() + f2.len() {
            if j < f3.len() {
                assert(whole[j] == f3[j]);
            } else {
                assert(whole[j] == f2[j - f3.len()]);
            }
        } else {
            assert(whole[j] == f1[j - f3.len() - f2.len()]);
        }
    }
}

proof fn lemma_filter_existing_membership(s: Seq<TraceSpec>)
    ensures
        forall|i: int|
            0 <= i < filter_existing(s).len() ==> exists|k: int|
                0 <= k < s.len() && s[k] == #[trigger] filter_existing(s)[i],
    decreases s.len(),
{
    if s.len() > 0 {
        let d = s.drop_last();
        lemma_filter_existing_membership(d);
        assert forall|i: int|
            0 <= i < filter_existing(s).len() implies exists|k: int|
                0 <= k < s.len() && s[k] == #[trigger] filter_existing(s)[i] by {
            if i < filter_existing(d).len() {
                assert(filter_existing(s)[i] == filter_existing(d)[i]);
                let k = choose|k: int| 0 <= k < d.len() && d[k] == filter_existing(d)[i];
                assert(s[k] == filter_existing(s)[i]);
            } else {
                assert(filter_existing(s)[i] == s.last());
                assert(s[s.len() - 1] == filter_existing(s)[i]);
            }
        }
    }
}

proof fn lemma_filter_existing_keeps_order(s: Seq<TraceSpec>)
    requires
        forall|i: int, j: int|
            0 <= i < j < s.len() ==> (#[trigger] s[i]).conf.spec_rank() >= (
            #[trigger] s[j]).conf.spec_rank(),
    ensures
        forall|i: int, j: int|
            0 <= i < j < filter_existing(s).len() ==> (#[trigger] filter_existing(
                s,
            )[i]).conf.spec_rank() >= (#[trigger] filter_existing(s)[j]).conf.spec_rank(),
    decreases s.len(),
{
    if s.len() > 0 {
        let d = s.drop_last();
        assert(forall|i: int, j: int|
            0 <= i < j < d.len() ==> (#[trigger] d[i]).conf.spec_rank() >= (
            #[trigger] d[j]).conf.spec_rank());
        lemma_filter_existing_keeps_order(d);
        lemma_filter_existing_membership(d);
        assert forall|i: int, j: int|
            0 <= i < j < filter_existing(s).len() implies (#[trigger] filter_existing(
                s,
            )[i]).conf.spec_rank() >= (#[trigger] filter_existing(s)[j]).conf.spec_rank() by {
            if j < filter_existing(d).len() {
                assert(filter_existing(s)[i] == filter_existing(d)[i]);
                assert(filter_existing(s)[j] == filter_existing(d)[j]);
            } else {
                assert(filter_existing(s)[j] == s.last());
                assert(filter_existing(s)[i] == filter_existing(d)[i]);
                let k = choose|k: int| 0 <= k < d.len() && d[k] == filter_existing(d)[i];
                assert(s[k].conf.spec_rank() >= s[s.len() - 1].conf.spec_rank());
            }
        }
    }
}

proof fn lemma_filter_rank_partition(s: Seq<TraceSpec>)
    ensures
        filter_rank(s, 3).to_multiset().add(filter_rank(s, 2).to_multiset()).add(
            filter_rank(s, 1).to_multiset(),
        ) =~= s.to_multiset(),
    decreases s.len(),
{
    broadcast use vstd::seq_lib::group_to_multiset_ensures;
    broadcast use vstd::multiset::group_multiset_axioms;
    broadcast use vstd::multiset::group_multiset_properties;

    if s.len() == 0 {
        assert(filter_rank(s, 3) =~= Seq::<TraceSpec>::empty());
        assert(filter_rank(s, 2) =~= Seq::<TraceSpec>::empty());
        assert(filter_rank(s, 1) =~= Seq::<TraceSpec>::empty());
        assert forall|v: TraceSpec| s.to_multiset().count(v) == 0 by {
            assert(!s.contains(v));
        }
        assert(filter_rank(s, 3).to_multiset().add(filter_rank(s, 2).to_multiset()).add(
            filter_rank(s, 1).to_multiset(),
        ) =~= s.to_multiset());
    } else {
        let d = s.drop_last();
        let x = s.last();
        lemma_filter_rank_partition(d);
        assert(s =~= d.push(x));
        assert(s.to_multiset() =~= d.to_multiset().insert(x));
        assert(filter_rank(s, 3) =~= if x.conf.spec_rank() == 3 {
            filter_rank(d, 3).push(x)
        } else {
            filter_rank(d, 3)
        });
        assert(filter_rank(s, 2) =~= if x.conf.spec_rank() == 2 {
            filter_rank(d, 2).push(x)
        } else {
            filter_rank(d, 2)
        });
        assert(filter_rank(s, 1) =~= if x.conf.spec_rank() == 1 {
            filter_rank(d, 1).push(x)
        } else {
            filter_rank(d, 1)
        });
        assert(x.conf.spec_rank() == 1 || x.conf.spec_rank() == 2 || x.conf.spec_rank() == 3);
        assert(filter_rank(s, 3).to_multiset().add(filter_rank(s, 2).to_multiset()).add(
            filter_rank(s, 1).to_multiset(),
        ) =~= s.to_multiset());
    }
}

proof fn lemma_sorted_by_confidence_multiset(s: Seq<TraceSpec>)
    ensures
        spec_sorted_by_confidence(s).to_multiset() == s.to_multiset(),
{
    broadcast use vstd::multiset::group_multiset_axioms;

    lemma_filter_rank_partition(s);
    vstd::seq_lib::lemma_multiset_commutative(filter_rank(s, 3), filter_rank(s, 2));
    vstd::seq_lib::lemma_multiset_commutative(
        filter_rank(s, 3) + filter_rank(s, 2),
        filter_rank(s, 1),
    );
}

proof fn lemma_filter_existing_multiset(s: Seq<TraceSpec>)
    ensures
        filter_existing(s).to_multiset() == s.to_multiset().filter(|t: TraceSpec| t.exists),
    decreases s.len(),
{
    broadcast use vstd::seq_lib::group_to_multiset_ensures;
    broadcast use vstd::multiset::group_multiset_axioms;
    broadcast use vstd::multiset::group_multiset_properties;

    if s.len() == 0 {
        assert forall|v: TraceSpec| s.to_multiset().count(v) == 0 by {
            assert(!s.contains(v));
        }
        assert(filter_existing(s).to_multiset() =~= s.to_multiset().filter(
            |t: TraceSpec| t.exists,
        ));
    } else {
        let d = s.drop_last();
        let x = s.last();
        lemma_filter_existing_multiset(d);
        assert(s =~= d.push(x));
        assert(s.to_multiset() =~= d.to_multiset().insert(x));
        if x.exists {
            assert(filter_existing(s) =~= filter_existing(d).push(x));
        } else {
            assert(filter_existing(s) =~= filter_existing(d));
        }
        assert(filter_existing(s).to_multiset() =~= s.to_multiset().filter(
            |t: TraceSpec| t.exists,
        ));
    }
}

/// Law: the orchestrator deliberately performs no deduplication. Its result
/// holds every existing merged trace with its full multiplicity — several
/// scanners reporting the same artifact all keep their trace — since the
/// confidence sort only permutes and the existence filter only drops traces
/// whose target is gone. Deduplication happens nowhere but in the program
/// lister, and there by name.
pub proof fn lemma_scan_result_keeps_duplicates(
    program: Seq<char>,
    types: Seq<TraceType>,
    inputs: ScanInputs,
)
    ensures
        spec_scan_result(program, types, inputs).to_multiset() == spec_merged_traces(
            program,
            types,
            inputs,
        ).map_values(|s: TraceSpec| spec_assigned_data(s, lower_seq(program))).to_multiset().filter(
            |t: TraceSpec| t.exists,
        ),
{
    let assigned = spec_merged_traces(program, types, inputs).map_values(
        |s: TraceSpec| spec_assigned_data(s, lower_seq(program)),
    );
    lemma_sorted_by_confidence_multiset(assigned);
    lemma_filter_existing_multiset(spec_sorted_by_confidence(assigned));
}

/// Law: the trace list the orchestrator returns is ordered by descending
/// confidence — the post-pass sort puts stronger matches first, and the
/// existence filter only removes elements.
pub proof fn lemma_scan_result_ordered(program: Seq<char>, types: Seq<TraceType>, inputs: ScanInputs)
    ensures
        forall|i: int, j: int|
            0 <= i < j < spec_scan_result(program, types, inputs).len() ==> (
            #[trigger] spec_scan_result(program, types, inputs)[i]).conf.spec_rank() >= (
            #[trigger] spec_scan_result(program, types, inputs)[j]).conf.spec_rank(),
{
    let assigned = spec_merged_traces(program, types, inputs).map_values(
        |s: TraceSpec| spec_assigned_data(s, lower_seq(program)),
    );
    lemma_sorted_by_confidence_desc(assigned);
    lemma_filter_existing_keeps_order(spec_sorted_by_confidence(assigned));
}

proof fn lemma_obey_concat(a: Seq<Trace>, sa: Seq<TraceSpec>, b: Seq<Trace>, sb: Seq<TraceSpec>)
    requires
        traces_obey(a, sa),
        traces_obey(b, sb),
    ensures
        traces_obey(a + b, sa + sb),
{
    assert forall|i: int| 0 <= i < (a + b).len() implies trace_data(#[trigger] (a + b)[i]) == (sa
        + sb)[i] by {
        if i < a.len() {
            assert((a + b)[i] == a[i]);
            assert((sa + sb)[i] == sa[i]);
        } else {
            assert((a + b)[i] == b[i - a.len()]);
            assert((sa + sb)[i] == sb[i - a.len()]);
        }
    }
}

/// Whether a requested-category list names a category.
fn has_type(v: &Vec<TraceType>, t: TraceType) -> (r: bool)
    ensures
        r == v@.contains(t),
{
    let mut i: usize = 0;
    while i < v.len()
        invariant
            i <= v@.len(),
            forall|k: int| 0 <= k < i ==> v@[k] != t,
        decreases v.len() - i,
    {
        if v[i] == t {
            return true;
        }
        i = i + 1;
    }
    false
}

/// Append duplicates of the traces of `src` whose confidence has `rank`.
fn push_rank(dst: &mut Vec<Trace>, src: &Vec<Trace>, rank: u8, Ghost(specs): Ghost<Seq<TraceSpec>>)
    requires
        traces_obey(src@, specs),
    ensures
        final(dst)@ == old(dst)@ + final(dst)@.skip(old(dst)@.len() as int),
        traces_obey(final(dst)@.skip(old(dst)@.len() as int), filter_rank(specs, rank)),
{
    let ghost base = dst@;
    let mut i: usize = 0;
    proof {
        assert(specs.subrange(0, 0) =~= Seq::<TraceSpec>::empty());
        assert(dst@.skip(base.len() as int) =~= Seq::<Trace>::empty());
    }
    while i < src.len()
        invariant
            i <= src@.len(),
            traces_obey(src@, specs),
            dst@.len() >= base.len(),
            dst@.subrange(0, base.len() as int) == base,
            traces_obey(dst@.skip(base.len() as int), filter_rank(specs.subrange(0, i as int), rank)),
        decreases src.len() - i,
    {
        let ghost pre = specs.subrange(0, i as int);
        proof {
            assert(specs.subrange(0, i + 1).drop_last() =~= pre);
            assert(specs.subrange(0, i + 1).last() == specs[i as int]);
        }
        proof {
            assert(trace_data(src@[i as int]) == specs[i as int]);
        }
        if src[i].confidence.rank() == rank {
            let ghost dpre = dst@;
            dst.push(src[i].duplicate());
            proof {
                assert(dst@.subrange(0, base.len() as int) =~= base);
                let osk = dpre.skip(base.len() as int);
                let nsk = dst@.skip(base.len() as int);
                assert(nsk =~= osk.push(src@[i as int]));
                assert(filter_rank(specs.subrange(0, i + 1), rank) =~= filter_rank(pre, rank).push(
                    specs[i as int],
                ));
                assert forall|k: int| 0 <= k < nsk.len() implies trace_data(#[trigger] nsk[k])
                    == filter_rank(specs.subrange(0, i + 1), rank)[k] by {
                    if k < osk.len() {
                        assert(nsk[k] == osk[k]);
                        assert(trace_data(osk[k]) == filter_rank(pre, rank)[k]);
                    } else {
                        assert(nsk[k] == src@[i as int]);
                    }
                }
            }
        } else {
            proof {
                assert(filter_rank(specs.subrange(0, i + 1), rank) =~= filter_rank(pre, rank));
            }
        }
        i = i + 1;
    }
    proof {
        assert(specs.subrange(0, specs.len() as int) =~= specs);
        assert(dst@ =~= dst@.subrange(0, base.len() as int) + dst@.skip(base.len() as int));
    }
}

/// Duplicates of the traces whose target still exists, in order.
fn retain_existing(src: &Vec<Trace>, Ghost(specs): Ghost<Seq<TraceSpec>>) -> (r: Vec<Trace>)
    requires
        traces_obey(src@, specs),
    ensures
        traces_obey(r@, filter_existing(specs)),
{
    let mut out: Vec<Trace> = Vec::new();
    let mut i: usize = 0;
    proof {
        assert(specs.subrange(0, 0) =~= Seq::<TraceSpec>::empty());
    }
    while i < src.len()
        invariant
            i <= src@.len(),
            traces_obey(src@, specs),
            traces_obey(out@, filter_existing(specs.subrange(0, i as int))),
        decreases src.len() - i,
    {
        let ghost pre = specs.subrange(0, i as int);
        proof {
            assert(specs.subrange(0, i + 1).drop_last() =~= pre);
            assert(specs.subrange(0, i + 1).last() == specs[i as int]);
        }
        if src[i].exists {
            out.push(src[i].duplicate());
            proof {
                assert(filter_existing(specs.subrange(0, i + 1)) =~= filter_existing(pre).push(
                    specs[i as int],
                ));
            }
        } else {
            proof {
                assert(filter_existing(specs.subrange(0, i + 1)) =~= filter_existing(pre));
            }
        }
        i = i + 1;
    }
    proof {
        assert(specs.subrange(0, specs.len() as int) =~= specs);
    }
    out
}

/// Run the requested source scanners over the gathered inputs, merge their
/// traces, recompute confidence and criticality, sort by confidence and
/// keep only existing targets. Traces for one artifact found by several
/// scanners all stay: nothing is deduplicated here.
pub fn scan_all_traces(
    program_name: &str,
    trace_types: Option<Vec<TraceType>>,
    inputs: &ScanInputs,
) -> (r: Result<Vec<Trace>, UninstallerError>)
    ensures
        r matches Ok(v) && traces_obey(
            v@,
            spec_scan_result(
                program_name@,
                match trace_types {
                    Some(tv) => tv@,
                    None => default_trace_types(),
                },
                *inputs,
            ),
        ),
{
    let ghost requested: Seq<TraceType> = match trace_types {
        Some(ref tv) => tv@,
        None => default_trace_types(),
    };
    let types: Vec<TraceType> = match trace_types {
        Some(tv) => tv,
        None => {
            let mut d: Vec<TraceType> = Vec::new();
            d.push(TraceType::RegistryKey);
            d.push(TraceType::File);
            d.push(TraceType::AppData);
            d.push(TraceType::Shortcut);
            proof {
                assert(d@ =~= default_trace_types());
            }
            d
        },
    };
    proof {
        assert(types@ == requested);
    }
    let mut merged: Vec<Trace> = Vec::new();
    let ghost pat = lower_seq(program_name@);
    let ghost reg_part: Seq<TraceSpec> = if requested.contains(TraceType::RegistryKey) {
        spec_registry_traces(program_name@, inputs.registry_keys@, inputs.uninstall_entries@)
    } else {
        Seq::empty()
    };
    let ghost fs_part: Seq<TraceSpec> = if requested.contains(TraceType::File) {
        spec_fs_traces(inputs.filesystem_entries@, pat)
    } else {
        Seq::empty()
    };
    let ghost ad_part: Seq<TraceSpec> = if requested.contains(TraceType::AppData) {
        spec_appdata_traces(inputs.appdata_entries@, pat)
    } else {
        Seq::empty()
    };
    let ghost sc_part: Seq<TraceSpec> = if requested.contains(TraceType::Shortcut) {
        spec_shortcut_traces(inputs.shortcut_entries@, pat)
    } else {
        Seq::empty()
    };
    if has_type(&types, TraceType::RegistryKey) {
        match scan_registry_traces(program_name, &inputs.registry_keys, &inputs.uninstall_entries) {
            Ok(mut ts) => {
                proof {
                    lemma_obey_concat(merged@, Seq::empty(), ts@, reg_part);
                    assert(Seq::<TraceSpec>::empty() + reg_part =~= reg_part);
                    assert(merged@ + ts@ =~= ts@);
                }
                merged.append(&mut ts);
            },
            Err(_) => {
                proof {
                    assert(false);
                }
            },
        }
    }
    proof {
        assert(traces_obey(merged@, reg_part));
    }
    let ghost after_reg = merged@;
    if has_type(&types, TraceType::File) {
        match scan_filesystem_traces(program_name, &inputs.filesystem_entries) {
            Ok(mut ts) => {
                proof {
                    lemma_obey_concat(merged@, reg_part, ts@, fs_part);
                }
                merged.append(&mut ts);
            },
            Err(_) => {
                proof {
                    assert(false);
                }
            },
        }
    } else {
        proof {
            assert(merged@ =~= after_reg + Seq::<Trace>::empty());
            assert(reg_part + fs_part =~= reg_part);
        }
    }
    proof {
        assert(traces_obey(merged@, reg_part + fs_part));
    }
    let ghost after_fs = merged@;
    if has_type(&types, TraceType::AppData) {
        match scan_appdata_traces(program_name, &inputs.appdata_entries) {
            Ok(mut ts) => {
                proof {
                    lemma_obey_concat(merged@, reg_part + fs_part, ts@, ad_part);
                }
                merged.append(&mut ts);
            },
            Err(_) => {
                proof {
                    assert(false);
                }
            },
        }
    } else {
        proof {
            assert(merged@ =~= after_fs + Seq::<Trace>::empty());
            assert((reg_part + fs_part) + ad_part =~= reg_part + fs_part);
        }
    }
    proof {
        assert(traces_obey(merged@, (reg_part + fs_part) + ad_part));
    }
    let ghost after_ad = merged@;
    if has_type(&types, TraceType::Shortcut) {
        match scan_shortcut_traces(program_name, &inputs.shortcut_entries) {
            Ok(mut ts) => {
                proof {
                    lemma_obey_concat(merged@, (reg_part + fs_part) + ad_part, ts@, sc_part);
                }
                merged.append(&mut ts);
            },
            Err(_) => {
                proof {
                    assert(false);
                }
            },
        }
    } else {
        proof {
            assert(merged@ =~= after_ad + Seq::<Trace>::empty());
            assert(((reg_part + fs_part) + ad_part) + sc_part =~= (reg_part + fs_part) + ad_part);
        }
    }
    let ghost merged_spec = spec_merged_traces(program_name@, requested, *inputs);
    proof {
        assert(merged_spec =~= ((reg_part + fs_part) + ad_part) + sc_part);
        assert(traces_obey(merged@, merged_spec));
    }
    let ghost before_assign = merged@;
    assign_confidence_scores(program_name, &mut merged);
    let ghost assigned_spec = merged_spec.map_values(
        |s: TraceSpec| spec_assigned_data(s, lower_seq(program_name@)),
    );
    proof {
        assert forall|i: int| 0 <= i < merged@.len() implies trace_data(#[trigger] merged@[i])
            == assigned_spec[i] by {
            assert(merged@[i] == spec_assigned(before_assign[i], lower_seq(program_name@)));
            assert(trace_data(spec_assigned(before_assign[i], lower_seq(program_name@)))
                =~= spec_assigned_data(trace_data(before_assign[i]), lower_seq(program_name@)));
        }
        assert(traces_obey(merged@, assigned_spec));
    }
    let mut sorted: Vec<Trace> = Vec::new();
    push_rank(&mut sorted, &merged, 3, Ghost(assigned_spec));
    let ghost s3 = sorted@;
    push_rank(&mut sorted, &merged, 2, Ghost(assigned_spec));
    let ghost s32 = sorted@;
    push_rank(&mut sorted, &merged, 1, Ghost(assigned_spec));
    proof {
        assert(s3.skip(0) =~= s3);
        assert(traces_obey(s3, filter_rank(assigned_spec, 3)));
        assert(s32 =~= s3 + s32.skip(s3.len() as int));
        lemma_obey_concat(
            s3,
            filter_rank(assigned_spec, 3),
            s32.skip(s3.len() as int),
            filter_rank(assigned_spec, 2),
        );
        assert(sorted@ =~= s32 + sorted@.skip(s32.len() as int));
        lemma_obey_concat(
            s32,
            filter_rank(assigned_spec, 3) + filter_rank(assigned_spec, 2),
            sorted@.skip(s32.len() as int),
            filter_rank(assigned_spec, 1),
        );
        assert(spec_sorted_by_confidence(assigned_spec) =~= (filter_rank(assigned_spec, 3)
            + filter_rank(assigned_spec, 2)) + filter_rank(assigned_spec, 1));
        assert(traces_obey(sorted@, spec_sorted_by_confidence(assigned_spec)));
    }
    let result = retain_existing(&sorted, Ghost(spec_sorted_by_confidence(assigned_spec)));
    Ok(result)
}

/// `body` wrapped between one leading and one trailing delimiter.
fn delimited(body: &Vec<char>, lead: char, tail: char) -> (r: Vec<char>)
    ensures
        r@ == seq![lead] + body@ + seq![tail],
{
    let mut r: Vec<char> = Vec::new();
    r.push(lead);
    proof {
        assert(r@ =~= seq![lead] + body@.subrange(0, 0));
    }
    let mut i: usize = 0;
    while i < body.len()
        invariant
            i <= body@.len(),
            r@ == seq![lead] + body@.subrange(0, i as int),
        decreases body.len() - i,
    {
        r.push(body[i]);
        proof {
            assert(seq![lead] + body@.subrange(0, i + 1) =~= (seq![lead] + body@.subrange(
                0,
                i as int,
            )).push(body@[i as int]));
        }
        i = i + 1;
    }
    r.push(tail);
    proof {
        assert(body@.subrange(0, body@.len() as int) =~= body@);
        assert(r@ =~= seq![lead] + body@ + seq![tail]);
    }
    r
}

} // verus!
