//! The shortcut scanner: matches only `.lnk` files, by their stem, under
//! the desktop and start-menu roots the walker visited.

use vstd::prelude::*;
use crate::error::UninstallerError;
use crate::scanner::{trace_data, traces_obey, ScanEntry, TraceSpec};
use crate::text::{contains_sub, has_prefix, has_substring, lower_chars, lower_seq,
    starts_with_sub, to_chars, chars_to_string};
use crate::trace::{Confidence, Trace, TraceType};

verus! {

/// A shortcut's description: its file name, or a generic label when the
/// path has none.
pub open spec fn spec_shortcut_description(name: Seq<char>) -> Seq<char> {
    if name.len() == 0 {
        "shortcut"@
    } else {
        name
    }
}

/// Description shown for a shortcut trace.
pub fn get_shortcut_description(name: &str) -> (r: String)
    ensures
        r@ == spec_shortcut_description(name@),
{
    if name.unicode_len() == 0 {
        let mut r = String::new();
        r.append("shortcut");
        r
    } else {
        name.to_owned()
    }
}

/// The trace the shortcut scanner emits for one entry, if any: only `.lnk`
/// files, matched by lower-cased stem.
pub open spec fn spec_shortcut_entry_trace(e: ScanEntry, pat: Seq<char>) -> Option<TraceSpec> {
    let is_lnk = match e.extension {
        Some(x) => x@ == "lnk"@,
        None => false,
    };
    let stem_low = lower_seq(e.stem@);
    if is_lnk && has_substring(stem_low, pat) {
        let conf = if has_prefix(stem_low, pat) {
            Confidence::High
        } else {
            Confidence::Medium
        };
        Some(
            TraceSpec {
                program: pat,
                ty: TraceType::Shortcut,
                path: e.path@,
                desc: spec_shortcut_description(e.name@),
                size: None,
                is_critical: false,
                conf,
                exists: true,
            },
        )
    } else {
        None
    }
}

/// All traces the shortcut scanner emits for a walked entry list.
pub open spec fn spec_shortcut_traces(es: Seq<ScanEntry>, pat: Seq<char>) -> Seq<TraceSpec>
    decreases es.len(),
{
    if es.len() == 0 {
        Seq::empty()
    } else {
        spec_shortcut_traces(es.drop_last(), pat) + match spec_shortcut_entry_trace(
            es.last(),
            pat,
        ) {
            Some(s) => seq![s],
            None => Seq::empty(),
        }
    }
}

/// Scan walked desktop and start-menu entries for shortcuts of the named
/// program.
pub fn scan_shortcut_traces(program_name: &str, entries: &Vec<ScanEntry>) -> (r: Result<
    Vec<Trace>,
    UninstallerError,
>)
    ensures
        r matches Ok(ts) && traces_obey(
            ts@,
            spec_shortcut_traces(entries@, lower_seq(program_name@)),
        ),
{
    let pat = lower_chars(&to_chars(program_name));
    let mut out: Vec<Trace> = Vec::new();
    let mut i: usize = 0;
    proof {
        assert(entries@.subrange(0, 0) =~= Seq::<ScanEntry>::empty());
    }
    while i < entries.len()
        invariant
            i <= entries@.len(),
            pat@ == lower_seq(program_name@),
            traces_obey(out@, spec_shortcut_traces(entries@.subrange(0, i as int), pat@)),
        decreases entries.len() - i,
    {
        let ghost pre = entries@.subrange(0, i as int);
        let e = &entries[i];
        proof {
            assert(entries@.subrange(0, i + 1).drop_last() =~= pre);
            assert(entries@.subrange(0, i + 1).last() == entries@[i as int]);
        }
        let is_lnk = match &e.extension {
            Some(x) => crate::text::chars_eq(&to_chars(x.as_str()), &to_chars("lnk")),
            None => false,
        };
        let stem_low = lower_chars(&to_chars(e.stem.as_str()));
        if is_lnk && contains_sub(&stem_low, &pat) {
            let conf = if starts_with_sub(&stem_low, &pat) {
                Confidence::High
            } else {
                Confidence::Medium
            };
            let t = Trace::new(
                chars_to_string(&pat),
                TraceType::Shortcut,
                e.path.clone(),
            ).with_description(get_shortcut_description(e.name.as_str())).with_confidence(conf);
            proof {
                let expected = spec_shortcut_entry_trace(entries@[i as int], pat@)->0;
                assert(trace_data(t) =~= expected);
                assert(spec_shortcut_traces(entries@.subrange(0, i + 1), pat@)
                    =~= spec_shortcut_traces(pre, pat@).push(expected));
            }
            out.push(t);
        } else {
            proof {
                assert(spec_shortcut_traces(entries@.subrange(0, i + 1), pat@)
                    =~= spec_shortcut_traces(pre, pat@));
            }
        }
        i = i + 1;
    }
    proof {
        assert(entries@.subrange(0, entries@.len() as int) =~= entries@);
    }
    Ok(out)
}

} // verus!
