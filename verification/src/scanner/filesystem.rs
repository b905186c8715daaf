//! The filesystem scanner: matches walked entries against the lowered
//! program-name pattern by substring containment on the entry name, skips
//! system directories, and emits `File` or `Shortcut` traces with a
//! provisional confidence.

use vstd::prelude::*;
use crate::digits::{format_size, spec_dec, spec_format_size, u64_to_dec_string};
use crate::error::UninstallerError;
use crate::scanner::{trace_data, traces_obey, ScanEntry, TraceSpec};
use crate::text::{contains_sub, has_prefix, has_substring, lower_chars, lower_seq,
    starts_with_sub, to_chars, upper_seq, chars_to_string};
use crate::trace::{Confidence, Trace, TraceType};

verus! {

/// Upper-cased markers whose presence anywhere in a path makes the scanner
/// skip the entry.
pub open spec fn fs_skip_markers() -> Seq<Seq<char>> {
    seq!["WINDOWS"@, "SYSTEM32"@, "SYSWOW64"@, "WINSXS"@, "INF"@, "DRIVERS"@]
}

pub open spec fn spec_is_system_dir(path: Seq<char>) -> bool {
    exists|i: int|
        0 <= i < fs_skip_markers().len() && has_substring(
            upper_seq(path),
            #[trigger] fs_skip_markers()[i],
        )
}

/// A path the filesystem scanner refuses to report from.
pub fn is_system_dir(path: &str) -> (r: bool)
    ensures
        r == spec_is_system_dir(path@),
{
    let path_upper = crate::text::upper_chars(&to_chars(path));
    let mut list: Vec<&'static str> = Vec::new();
    list.push("WINDOWS");
    list.push("SYSTEM32");
    list.push("SYSWOW64");
    list.push("WINSXS");
    list.push("INF");
    list.push("DRIVERS");
    let mut i: usize = 0;
    while i < list.len()
        invariant
            path_upper@ == upper_seq(path@),
            list@.len() == fs_skip_markers().len(),
            forall|k: int| 0 <= k < list@.len() ==> #[trigger] list@[k]@ == fs_skip_markers()[k],
            i <= list@.len(),
            forall|k: int|
                0 <= k < i ==> !has_substring(upper_seq(path@), #[trigger] fs_skip_markers()[k]),
        decreases list.len() - i,
    {
        let marker = to_chars(list[i]);
        if contains_sub(&path_upper, &marker) {
            return true;
        }
        i = i + 1;
    }
    false
}

/// Whether an entry has the `.lnk` extension.
pub open spec fn spec_is_lnk(e: ScanEntry) -> bool {
    match e.extension {
        Some(x) => x@ == "lnk"@,
        None => false,
    }
}

/// The trace the filesystem scanner emits for one entry, if any: the
/// lower-cased entry name must contain the pattern and the path must not be
/// a system directory. Directories and plain files become `File` traces,
/// `.lnk` files become `Shortcut` traces; only files carry a size; the name
/// starting with the pattern raises the provisional confidence to `High`.
pub open spec fn spec_fs_entry_trace(e: ScanEntry, pat: Seq<char>) -> Option<TraceSpec> {
    let name_low = lower_seq(e.name@);
    if has_substring(name_low, pat) && !spec_is_system_dir(e.path@) {
        let ty = if e.is_dir {
            TraceType::File
        } else if spec_is_lnk(e) {
            TraceType::Shortcut
        } else {
            TraceType::File
        };
        let size = if e.is_dir {
            None
        } else {
            e.file_size
        };
        let desc = if e.is_dir {
            "directory: "@ + spec_dec(
                match e.file_size {
                    Some(n) => n as int,
                    None => 0,
                },
            ) + " items"@
        } else {
            match size {
                Some(s) => "file size: "@ + spec_format_size(s),
                None => Seq::empty(),
            }
        };
        let conf = if has_prefix(name_low, pat) {
            Confidence::High
        } else {
            Confidence::Medium
        };
        Some(
            TraceSpec {
                program: pat,
                ty,
                path: e.path@,
                desc,
                size,
                is_critical: false,
                conf,
                exists: true,
            },
        )
    } else {
        None
    }
}

/// All traces the filesystem scanner emits for a walked entry list.
pub open spec fn spec_fs_traces(es: Seq<ScanEntry>, pat: Seq<char>) -> Seq<TraceSpec>
    decreases es.len(),
{
    if es.len() == 0 {
        Seq::empty()
    } else {
        spec_fs_traces(es.drop_last(), pat) + match spec_fs_entry_trace(es.last(), pat) {
            Some(s) => seq![s],
            None => Seq::empty(),
        }
    }
}

/// Scan walked filesystem entries for traces of the named program.
pub fn scan_filesystem_traces(program_name: &str, entries: &Vec<ScanEntry>) -> (r: Result<
    Vec<Trace>,
    UninstallerError,
>)
    ensures
        r matches Ok(ts) && traces_obey(ts@, spec_fs_traces(entries@, lower_seq(program_name@))),
{
    let pat = lower_chars(&to_chars(program_name));
    let mut out: Vec<Trace> = Vec::new();
    let mut i: usize = 0;
    proof {
        assert(entries@.subrange(0, 0) =~= Seq::<ScanEntry>::empty());
    }
    while i < entries.len()
        invariant
            i <= entries@.len(),
            pat@ == lower_seq(program_name@),
            traces_obey(out@, spec_fs_traces(entries@.subrange(0, i as int), pat@)),
        decreases entries.len() - i,
    {
        let ghost pre = entries@.subrange(0, i as int);
        let e = &entries[i];
        proof {
            assert(entries@.subrange(0, i + 1).drop_last() =~= pre);
            assert(entries@.subrange(0, i + 1).last() == entries@[i as int]);
        }
        let name_low = lower_chars(&to_chars(e.name.as_str()));
        if contains_sub(&name_low, &pat) && !is_system_dir(e.path.as_str()) {
            let is_lnk = match &e.extension {
                Some(x) => {
                    let r = crate::text::chars_eq(&to_chars(x.as_str()), &to_chars("lnk"));
                    r
                },
                None => false,
            };
            let ty = if e.is_dir {
                TraceType::File
            } else if is_lnk {
                TraceType::Shortcut
            } else {
                TraceType::File
            };
            let size: Option<u64> = if e.is_dir {
                None
            } else {
                e.file_size
            };
            let mut desc = String::new();
            if e.is_dir {
                let n: u64 = match e.file_size {
                    Some(n) => n,
                    None => 0,
                };
                desc.append("directory: ");
                desc.append(u64_to_dec_string(n).as_str());
                desc.append(" items");
            } else {
                match size {
                    Some(s) => {
                        desc.append("file size: ");
                        desc.append(format_size(s).as_str());
                    },
                    None => {},
                }
            }
            let conf = if starts_with_sub(&name_low, &pat) {
                Confidence::High
            } else {
                Confidence::Medium
            };
            let t = Trace::new(
                chars_to_string(&pat),
                ty,
                e.path.clone(),
            ).with_description(desc).with_confidence(conf);
            let t = match size {
                Some(s) => t.with_size(s),
                None => t,
            };
            proof {
                let expected = spec_fs_entry_trace(entries@[i as int], pat@)->0;
                assert(trace_data(t) =~= expected);
                assert(spec_fs_traces(entries@.subrange(0, i + 1), pat@) =~= spec_fs_traces(
                    pre,
                    pat@,
                ).push(expected));
            }
            out.push(t);
        } else {
            proof {
                assert(spec_fs_traces(entries@.subrange(0, i + 1), pat@) =~= spec_fs_traces(
                    pre,
                    pat@,
                ));
            }
        }
        i = i + 1;
    }
    proof {
        assert(entries@.subrange(0, entries@.len() as int) =~= entries@);
    }
    Ok(out)
}

} // verus!
