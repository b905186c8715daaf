//! The app-data scanner: matches walked entries under the user profile's
//! roaming and local data directories, with one narrow system exclusion, and
//! emits `AppData` traces. Matched directories carry the recursive content
//! size the walker computed.

use vstd::prelude::*;
use crate::digits::{format_size, spec_format_size};
use crate::error::UninstallerError;
use crate::scanner::{trace_data, traces_obey, ScanEntry, TraceSpec};
use crate::text::{contains_sub, has_prefix, has_substring, lower_chars, lower_seq,
    starts_with_sub, to_chars, chars_to_string};
use crate::trace::{Confidence, Trace, TraceType};

verus! {

/// The single app-data exclusion: anything under the shell's own data.
pub open spec fn spec_is_system_appdata_dir(path: Seq<char>) -> bool {
    has_substring(lower_seq(path), "microsoft\\windows\\explorer"@)
}

/// A path the app-data scanner refuses to report from.
pub fn is_system_appdata_dir(path: &str) -> (r: bool)
    ensures
        r == spec_is_system_appdata_dir(path@),
{
    let path_lower = lower_chars(&to_chars(path));
    let marker = to_chars("microsoft\\windows\\explorer");
    contains_sub(&path_lower, &marker)
}

/// The trace the app-data scanner emits for one entry, if any. Directories
/// use the walker's recursive size; files use their metadata size.
pub open spec fn spec_appdata_entry_trace(e: ScanEntry, pat: Seq<char>) -> Option<TraceSpec> {
    let name_low = lower_seq(e.name@);
    if has_substring(name_low, pat) && !spec_is_system_appdata_dir(e.path@) {
        let size = if e.is_dir {
            e.dir_size
        } else {
            e.file_size
        };
        let desc = if e.is_dir {
            "user data directory"@
        } else {
            match size {
                Some(s) => "file size: "@ + spec_format_size(s),
                None => "user data file"@,
            }
        };
        let conf = if has_prefix(name_low, pat) || name_low == pat {
            Confidence::High
        } else {
            Confidence::Medium
        };
        Some(
            TraceSpec {
                program: pat,
                ty: TraceType::AppData,
                path: e.path@,
                desc,
                size,
                is_critical: false,
                conf,
                exists: true,
            },
        )
    } else {
        None
    }
}

/// All traces the app-data scanner emits for a walked entry list.
pub open spec fn spec_appdata_traces(es: Seq<ScanEntry>, pat: Seq<char>) -> Seq<TraceSpec>
    decreases es.len(),
{
    if es.len() == 0 {
        Seq::empty()
    } else {
        spec_appdata_traces(es.drop_last(), pat) + match spec_appdata_entry_trace(es.last(), pat) {
            Some(s) => seq![s],
            None => Seq::empty(),
        }
    }
}

/// Scan walked app-data entries for traces of the named program.
pub fn scan_appdata_traces(program_name: &str, entries: &Vec<ScanEntry>) -> (r: Result<
    Vec<Trace>,
    UninstallerError,
>)
    ensures
        r matches Ok(ts) && traces_obey(
            ts@,
            spec_appdata_traces(entries@, lower_seq(program_name@)),
        ),
{
    let pat = lower_chars(&to_chars(program_name));
    let mut out: Vec<Trace> = Vec::new();
    let mut i: usize = 0;
    proof {
        assert(entries@.subrange(0, 0) =~= Seq::<ScanEntry>::empty());
    }
    while i < entries.len()
        invariant
            i <= entries@.len(),
            pat@ == lower_seq(program_name@),
            traces_obey(out@, spec_appdata_traces(entries@.subrange(0, i as int), pat@)),
        decreases entries.len() - i,
    {
        let ghost pre = entries@.subrange(0, i as int);
        let e = &entries[i];
        proof {
            assert(entries@.subrange(0, i + 1).drop_last() =~= pre);
            assert(entries@.subrange(0, i + 1).last() == entries@[i as int]);
        }
        let name_low = lower_chars(&to_chars(e.name.as_str()));
        if contains_sub(&name_low, &pat) && !is_system_appdata_dir(e.path.as_str()) {
            let size: Option<u64> = if e.is_dir {
                e.dir_size
            } else {
                e.file_size
            };
            let mut desc = String::new();
            if e.is_dir {
                desc.append("user data directory");
            } else {
                match size {
                    Some(s) => {
                        desc.append("file size: ");
                        desc.append(format_size(s).as_str());
                    },
                    None => {
                        desc.append("user data file");
                    },
                }
            }
            let conf = if starts_with_sub(&name_low, &pat) || crate::text::chars_eq(
                &name_low,
                &pat,
            ) {
                Confidence::High
            } else {
                Confidence::Medium
            };
            let t = Trace::new(
                chars_to_string(&pat),
                TraceType::AppData,
                e.path.clone(),
            ).with_description(desc).with_confidence(conf);
            let t = match size {
                Some(s) => t.with_size(s),
                None => t,
            };
            proof {
                let expected = spec_appdata_entry_trace(entries@[i as int], pat@)->0;
                assert(trace_data(t) =~= expected);
                assert(spec_appdata_traces(entries@.subrange(0, i + 1), pat@)
                    =~= spec_appdata_traces(pre, pat@).push(expected));
            }
            out.push(t);
        } else {
            proof {
                assert(spec_appdata_traces(entries@.subrange(0, i + 1), pat@)
                    =~= spec_appdata_traces(pre, pat@));
            }
        }
        i = i + 1;
    }
    proof {
        assert(entries@.subrange(0, entries@.len() as int) =~= entries@);
    }
    Ok(out)
}

} // verus!
