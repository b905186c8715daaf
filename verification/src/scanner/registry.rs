//! The registry scanner: matches visited registry keys by their final path
//! segment, and uninstall-root subkeys by name, attaching display-name and
//! install-location context to the latter.

use vstd::prelude::*;
use crate::error::UninstallerError;
use crate::paths::{format_hkey, RegistryHive};
use crate::scanner::{trace_data, traces_obey, TraceSpec};
use crate::text::{contains_sub, has_substring, last_index_of, lemma_last_index_of, lower_chars,
    lower_seq, rfind_char, sub_chars, to_chars, chars_to_string};
use crate::trace::{Confidence, Trace, TraceType};

verus! {

/// One registry key the walker visited: its hive and its path below the
/// hive, without the hive prefix.
#[derive(Debug, Clone)]
pub struct RegistryKeyRecord {
    pub hive: RegistryHive,
    pub path: String,
}

/// One subkey of an uninstall root, with the context values read from it.
#[derive(Debug, Clone)]
pub struct UninstallEntryRecord {
    pub hive: RegistryHive,
    /// The uninstall root's path below the hive.
    pub root_path: String,
    /// Name of the subkey under the root.
    pub key_name: String,
    pub display_name: Option<String>,
    pub install_location: Option<String>,
}

/// The final segment of a backslash-separated key path.
pub open spec fn spec_last_segment(path: Seq<char>) -> Seq<char> {
    let l = last_index_of(path, '\\');
    if l == -1 {
        path
    } else {
        path.skip(l + 1)
    }
}

/// The trace emitted for one visited key, if its final segment contains the
/// pattern: keys on an uninstall path read as uninstall leftovers and rank
/// `High`, as do keys on an app-paths path; other matches rank `Medium`.
pub open spec fn spec_key_trace(k: RegistryKeyRecord, pat: Seq<char>) -> Option<TraceSpec> {
    let seg = spec_last_segment(k.path@);
    if has_substring(lower_seq(seg), pat) {
        let path_low = lower_seq(k.path@);
        let in_uninstall = has_substring(path_low, "uninstall"@);
        let desc = if in_uninstall {
            "uninstall leftover: "@ + seg
        } else {
            "registry key: "@ + seg
        };
        let conf = if in_uninstall || has_substring(path_low, "app paths"@) {
            Confidence::High
        } else {
            Confidence::Medium
        };
        Some(
            TraceSpec {
                program: pat,
                ty: TraceType::RegistryKey,
                path: k.hive.spec_prefix() + "\\"@ + k.path@,
                desc,
                size: None,
                is_critical: false,
                conf,
                exists: true,
            },
        )
    } else {
        None
    }
}

pub open spec fn spec_key_traces(ks: Seq<RegistryKeyRecord>, pat: Seq<char>) -> Seq<TraceSpec>
    decreases ks.len(),
{
    if ks.len() == 0 {
        Seq::empty()
    } else {
        spec_key_traces(ks.drop_last(), pat) + match spec_key_trace(ks.last(), pat) {
            Some(s) => seq![s],
            None => Seq::empty(),
        }
    }
}

pub open spec fn spec_opt_str(o: Option<String>) -> Seq<char> {
    match o {
        Some(s) => s@,
        None => Seq::empty(),
    }
}

/// The trace emitted for one uninstall-root subkey whose name contains the
/// pattern: always `High` confidence, carrying display name and install
/// location, and recorded under the original program name.
pub open spec fn spec_uninstall_trace(
    u: UninstallEntryRecord,
    program: Seq<char>,
    pat: Seq<char>,
) -> Option<TraceSpec> {
    if has_substring(lower_seq(u.key_name@), pat) {
        Some(
            TraceSpec {
                program,
                ty: TraceType::RegistryKey,
                path: u.hive.spec_prefix() + "\\"@ + u.root_path@ + "\\"@ + u.key_name@,
                desc: "uninstall entry: "@ + spec_opt_str(u.display_name) + " ("@ + spec_opt_str(
                    u.install_location,
                ) + ")"@,
                size: None,
                is_critical: false,
                conf: Confidence::High,
                exists: true,
            },
        )
    } else {
        None
    }
}

pub open spec fn spec_uninstall_traces(
    us: Seq<UninstallEntryRecord>,
    program: Seq<char>,
    pat: Seq<char>,
) -> Seq<TraceSpec>
    decreases us.len(),
{
    if us.len() == 0 {
        Seq::empty()
    } else {
        spec_uninstall_traces(us.drop_last(), program, pat) + match spec_uninstall_trace(
            us.last(),
            program,
            pat,
        ) {
            Some(s) => seq![s],
            None => Seq::empty(),
        }
    }
}

/// Everything the registry scanner emits: key matches first, then
/// uninstall-root matches.
pub open spec fn spec_registry_traces(
    program: Seq<char>,
    ks: Seq<RegistryKeyRecord>,
    us: Seq<UninstallEntryRecord>,
) -> Seq<TraceSpec> {
    spec_key_traces(ks, lower_seq(program)) + spec_uninstall_traces(
        us,
        program,
        lower_seq(program),
    )
}

/// Final segment of a key path, after the last backslash.
fn last_segment(path: &String) -> (r: Vec<char>)
    ensures
        r@ == spec_last_segment(path@),
{
    let chars = to_chars(path.as_str());
    proof {
        lemma_last_index_of(path@, '\\');
    }
    match rfind_char(&chars, '\\') {
        None => {
            proof {
                assert(last_index_of(path@, '\\') == -1);
            }
            chars
        },
        Some(i) => {
            proof {
                let l = last_index_of(path@, '\\');
                assert(l != -1);
                assert(!(l < i) && !(i < l));
                assert(path@.skip(i + 1) =~= path@.subrange(i + 1, path@.len() as int));
            }
            let n = chars.len();
            sub_chars(&chars, i + 1, n)
        },
    }
}

/// Scan visited registry keys and uninstall-root subkeys for traces of the
/// named program.
pub fn scan_registry_traces(
    program_name: &str,
    keys: &Vec<RegistryKeyRecord>,
    uninstall_entries: &Vec<UninstallEntryRecord>,
) -> (r: Result<Vec<Trace>, UninstallerError>)
    ensures
        r matches Ok(ts) && traces_obey(
            ts@,
            spec_registry_traces(program_name@, keys@, uninstall_entries@),
        ),
{
    let pat = lower_chars(&to_chars(program_name));
    let uninstall_marker = to_chars("uninstall");
    let app_paths_marker = to_chars("app paths");
    let mut out: Vec<Trace> = Vec::new();
    let mut i: usize = 0;
    proof {
        assert(keys@.subrange(0, 0) =~= Seq::<RegistryKeyRecord>::empty());
    }
    while i < keys.len()
        invariant
            i <= keys@.len(),
            pat@ == lower_seq(program_name@),
            uninstall_marker@ == "uninstall"@,
            app_paths_marker@ == "app paths"@,
            traces_obey(out@, spec_key_traces(keys@.subrange(0, i as int), pat@)),
        decreases keys.len() - i,
    {
        let ghost pre = keys@.subrange(0, i as int);
        let k = &keys[i];
        proof {
            assert(keys@.subrange(0, i + 1).drop_last() =~= pre);
            assert(keys@.subrange(0, i + 1).last() == keys@[i as int]);
        }
        let seg = last_segment(&k.path);
        let seg_low = lower_chars(&seg);
        if contains_sub(&seg_low, &pat) {
            let path_low = lower_chars(&to_chars(k.path.as_str()));
            let in_uninstall = contains_sub(&path_low, &uninstall_marker);
            let mut full = format_hkey(k.hive);
            full.append("\\");
            full.append(k.path.as_str());
            let mut desc = String::new();
            if in_uninstall {
                desc.append("uninstall leftover: ");
            } else {
                desc.append("registry key: ");
            }
            desc.append(chars_to_string(&seg).as_str());
            let conf = if in_uninstall || contains_sub(&path_low, &app_paths_marker) {
                Confidence::High
            } else {
                Confidence::Medium
            };
            let t = Trace::new(
                chars_to_string(&pat),
                TraceType::RegistryKey,
                full,
            ).with_description(desc).with_confidence(conf);
            proof {
                let expected = spec_key_trace(keys@[i as int], pat@)->0;
                assert(trace_data(t) =~= expected);
                assert(spec_key_traces(keys@.subrange(0, i + 1), pat@) =~= spec_key_traces(
                    pre,
                    pat@,
                ).push(expected));
            }
            out.push(t);
        } else {
            proof {
                assert(spec_key_traces(keys@.subrange(0, i + 1), pat@) =~= spec_key_traces(
                    pre,
                    pat@,
                ));
            }
        }
        i = i + 1;
    }
    proof {
        assert(keys@.subrange(0, keys@.len() as int) =~= keys@);
    }
    let ghost key_specs = spec_key_traces(keys@, pat@);
    let mut j: usize = 0;
    proof {
        assert(uninstall_entries@.subrange(0, 0) =~= Seq::<UninstallEntryRecord>::empty());
        assert(key_specs + spec_uninstall_traces(
            uninstall_entries@.subrange(0, 0),
            program_name@,
            pat@,
        ) =~= key_specs);
    }
    while j < uninstall_entries.len()
        invariant
            j <= uninstall_entries@.len(),
            pat@ == lower_seq(program_name@),
            key_specs == spec_key_traces(keys@, pat@),
            traces_obey(
                out@,
                key_specs + spec_uninstall_traces(
                    uninstall_entries@.subrange(0, j as int),
                    program_name@,
                    pat@,
                ),
            ),
        decreases uninstall_entries.len() - j,
    {
        let ghost pre = uninstall_entries@.subrange(0, j as int);
        let u = &uninstall_entries[j];
        proof {
            assert(uninstall_entries@.subrange(0, j + 1).drop_last() =~= pre);
            assert(uninstall_entries@.subrange(0, j + 1).last() == uninstall_entries@[j as int]);
        }
        let name_low = lower_chars(&to_chars(u.key_name.as_str()));
        if contains_sub(&name_low, &pat) {
            let mut full = format_hkey(u.hive);
            full.append("\\");
            full.append(u.root_path.as_str());
            full.append("\\");
            full.append(u.key_name.as_str());
            let mut desc = String::new();
            desc.append("uninstall entry: ");
            match &u.display_name {
                Some(dn) => desc.append(dn.as_str()),
                None => {},
            }
            desc.append(" (");
            match &u.install_location {
                Some(loc) => desc.append(loc.as_str()),
                None => {},
            }
            desc.append(")");
            let t = Trace::new(
                program_name.to_owned(),
                TraceType::RegistryKey,
                full,
            ).with_description(desc).with_confidence(Confidence::High);
            proof {
                let expected = spec_uninstall_trace(
                    uninstall_entries@[j as int],
                    program_name@,
                    pat@,
                )->0;
                assert(trace_data(t) =~= expected);
                assert(key_specs + spec_uninstall_traces(
                    uninstall_entries@.subrange(0, j + 1),
                    program_name@,
                    pat@,
                ) =~= (key_specs + spec_uninstall_traces(pre, program_name@, pat@)).push(expected));
            }
            out.push(t);
        } else {
            proof {
                assert(key_specs + spec_uninstall_traces(
                    uninstall_entries@.subrange(0, j + 1),
                    program_name@,
                    pat@,
                ) =~= key_specs + spec_uninstall_traces(pre, program_name@, pat@));
            }
        }
        j = j + 1;
    }
    proof {
        assert(uninstall_entries@.subrange(0, uninstall_entries@.len() as int)
            =~= uninstall_entries@);
    }
    Ok(out)
}

} // verus!
