//! Path helpers: Windows path normalization, registry path parsing, and the
//! scan orchestrator's own system-path denylists. These lists are kept
//! separate from the Safety Gate's on purpose, so discovery-time flagging
//! does not depend on deletion-time code.

use vstd::prelude::*;
use crate::text::{has_prefix, starts_with_sub, sub_chars, to_chars, trim_chars, trim_spec,
    upper_chars, upper_seq, chars_to_string};

verus! {

/// A registry hive, named by its canonical short prefix.
#[derive(Debug, Clone, Copy, PartialEq, Eq, Structural)]
pub enum RegistryHive {
    LocalMachine,
    CurrentUser,
    ClassesRoot,
    Users,
    CurrentConfig,
}

impl RegistryHive {
    /// The short display prefix of a hive.
    pub open spec fn spec_prefix(self) -> Seq<char> {
        match self {
            RegistryHive::LocalMachine => "HKLM"@,
            RegistryHive::CurrentUser => "HKCU"@,
            RegistryHive::ClassesRoot => "HKCR"@,
            RegistryHive::Users => "HKU"@,
            RegistryHive::CurrentConfig => "HKCC"@,
        }
    }
}

/// Short display prefix of a hive, as the scanners print it.
pub fn format_hkey(hive: RegistryHive) -> (r: String)
    ensures
        r@ == hive.spec_prefix(),
{
    let mut r = String::new();
    match hive {
        RegistryHive::LocalMachine => r.append("HKLM"),
        RegistryHive::CurrentUser => r.append("HKCU"),
        RegistryHive::ClassesRoot => r.append("HKCR"),
        RegistryHive::Users => r.append("HKU"),
        RegistryHive::CurrentConfig => r.append("HKCC"),
    }
    r
}

/// Forward slashes become backslashes.
pub open spec fn to_backslashes(s: Seq<char>) -> Seq<char> {
    s.map_values(
        |c: char|
            if c == '/' {
                '\\'
            } else {
                c
            },
    )
}

/// Runs of backslashes collapse to a single one.
pub open spec fn collapse_backslashes(s: Seq<char>) -> Seq<char>
    decreases s.len(),
{
    if s.len() == 0 {
        Seq::empty()
    } else if s.len() >= 2 && s[0] == '\\' && s[1] == '\\' {
        collapse_backslashes(s.drop_first())
    } else {
        seq![s[0]] + collapse_backslashes(s.drop_first())
    }
}

pub open spec fn spec_normalize_path(s: Seq<char>) -> Seq<char> {
    collapse_backslashes(to_backslashes(s))
}

/// Normalize a path: slashes become backslashes and doubled backslashes
/// collapse.
pub fn normalize_path(path: &str) -> (r: String)
    ensures
        r@ == spec_normalize_path(path@),
{
    let chars = to_chars(path);
    let mut v: Vec<char> = Vec::new();
    let mut i: usize = 0;
    while i < chars.len()
        invariant
            i <= chars@.len(),
            v@ == to_backslashes(chars@.subrange(0, i as int)),
        decreases chars.len() - i,
    {
        let c = chars[i];
        if c == '/' {
            v.push('\\');
        } else {
            v.push(c);
        }
        proof {
            assert(to_backslashes(chars@.subrange(0, i + 1)) =~= to_backslashes(
                chars@.subrange(0, i as int),
            ).push(
                if chars@[i as int] == '/' {
                    '\\'
                } else {
                    chars@[i as int]
                },
            ));
        }
        i = i + 1;
    }
    proof {
        assert(chars@.subrange(0, chars@.len() as int) =~= chars@);
    }
    let ghost m = to_backslashes(path@);
    proof {
        assert(m.subrange(0, m.len() as int) =~= m);
    }
    let mut r: Vec<char> = Vec::new();
    let mut j: usize = 0;
    while j < v.len()
        invariant
            j <= v@.len(),
            v@ == m,
            collapse_backslashes(m) == r@ + collapse_backslashes(
                m.subrange(j as int, m.len() as int),
            ),
        decreases v.len() - j,
    {
        let c = v[j];
        proof {
            assert(m.subrange(j as int, m.len() as int).drop_first() =~= m.subrange(
                j + 1,
                m.len() as int,
            ));
        }
        if c == '\\' && j + 1 < v.len() && v[j + 1] == '\\' {
            // dropped: the next character starts the same run
        } else {
            r.push(c);
            proof {
                assert(collapse_backslashes(m.subrange(j as int, m.len() as int)) =~= seq![c]
                    + collapse_backslashes(m.subrange(j + 1, m.len() as int)));
            }
        }
        j = j + 1;
    }
    proof {
        assert(m.subrange(v@.len() as int, m.len() as int) =~= Seq::<char>::empty());
        assert(collapse_backslashes(m) =~= r@);
    }
    chars_to_string(&r)
}

/// How a registry path splits into hive and subkey: the path is trimmed, a
/// known hive prefix (short or long form) is removed together with its
/// separator, and the rest is the subkey path.
pub open spec fn spec_parse_registry_path(s: Seq<char>) -> Option<(RegistryHive, Seq<char>)> {
    let t = trim_spec(s);
    if has_prefix(t, "HKLM\\"@) {
        Some((RegistryHive::LocalMachine, t.skip("HKLM\\"@.len() as int)))
    } else if has_prefix(t, "HKEY_LOCAL_MACHINE\\"@) {
        Some((RegistryHive::LocalMachine, t.skip("HKEY_LOCAL_MACHINE\\"@.len() as int)))
    } else if has_prefix(t, "HKCU\\"@) {
        Some((RegistryHive::CurrentUser, t.skip("HKCU\\"@.len() as int)))
    } else if has_prefix(t, "HKEY_CURRENT_USER\\"@) {
        Some((RegistryHive::CurrentUser, t.skip("HKEY_CURRENT_USER\\"@.len() as int)))
    } else if has_prefix(t, "HKCR\\"@) {
        Some((RegistryHive::ClassesRoot, t.skip("HKCR\\"@.len() as int)))
    } else if has_prefix(t, "HKEY_CLASSES_ROOT\\"@) {
        Some((RegistryHive::ClassesRoot, t.skip("HKEY_CLASSES_ROOT\\"@.len() as int)))
    } else if has_prefix(t, "HKU\\"@) {
        Some((RegistryHive::Users, t.skip("HKU\\"@.len() as int)))
    } else if has_prefix(t, "HKEY_USERS\\"@) {
        Some((RegistryHive::Users, t.skip("HKEY_USERS\\"@.len() as int)))
    } else {
        None
    }
}

/// Split a registry path into its hive and subkey path, if it carries a
/// known hive prefix.
pub fn parse_registry_path(path: &str) -> (r: Option<(RegistryHive, String)>)
    ensures
        match r {
            Some((hive, rest)) => spec_parse_registry_path(path@) == Some((hive, rest@)),
            None => spec_parse_registry_path(path@) is None,
        },
{
    let t = trim_chars(&to_chars(path));
    let tl = t.len();
    let prefixes: [(&'static str, RegistryHive); 8] = [
        ("HKLM\\", RegistryHive::LocalMachine),
        ("HKEY_LOCAL_MACHINE\\", RegistryHive::LocalMachine),
        ("HKCU\\", RegistryHive::CurrentUser),
        ("HKEY_CURRENT_USER\\", RegistryHive::CurrentUser),
        ("HKCR\\", RegistryHive::ClassesRoot),
        ("HKEY_CLASSES_ROOT\\", RegistryHive::ClassesRoot),
        ("HKU\\", RegistryHive::Users),
        ("HKEY_USERS\\", RegistryHive::Users),
    ];
    let p0 = to_chars(prefixes[0].0);
    if starts_with_sub(&t, &p0) {
        return Some((RegistryHive::LocalMachine, chars_to_string(&sub_chars(&t, p0.len(), tl))));
    }
    let p1 = to_chars(prefixes[1].0);
    if starts_with_sub(&t, &p1) {
        return Some((RegistryHive::LocalMachine, chars_to_string(&sub_chars(&t, p1.len(), tl))));
    }
    let p2 = to_chars(prefixes[2].0);
    if starts_with_sub(&t, &p2) {
        return Some((RegistryHive::CurrentUser, chars_to_string(&sub_chars(&t, p2.len(), tl))));
    }
    let p3 = to_chars(prefixes[3].0);
    if starts_with_sub(&t, &p3) {
        return Some((RegistryHive::CurrentUser, chars_to_string(&sub_chars(&t, p3.len(), tl))));
    }
    let p4 = to_chars(prefixes[4].0);
    if starts_with_sub(&t, &p4) {
        return Some((RegistryHive::ClassesRoot, chars_to_string(&sub_chars(&t, p4.len(), tl))));
    }
    let p5 = to_chars(prefixes[5].0);
    if starts_with_sub(&t, &p5) {
        return Some((RegistryHive::ClassesRoot, chars_to_string(&sub_chars(&t, p5.len(), tl))));
    }
    let p6 = to_chars(prefixes[6].0);
    if starts_with_sub(&t, &p6) {
        return Some((RegistryHive::Users, chars_to_string(&sub_chars(&t, p6.len(), tl))));
    }
    let p7 = to_chars(prefixes[7].0);
    if starts_with_sub(&t, &p7) {
        return Some((RegistryHive::Users, chars_to_string(&sub_chars(&t, p7.len(), tl))));
    }
    None
}

/// The orchestrator's system-directory denylist: all-caps prefixes matched
/// against the upper-cased path.
pub open spec fn system_critical_prefixes() -> Seq<Seq<char>> {
    seq![
        "C:\\WINDOWS"@,
        "C:\\WINDOWS\\SYSTEM32"@,
        "C:\\WINDOWS\\SYSWOW64"@,
        "C:\\WINDOWS\\INF"@,
        "C:\\WINDOWS\\WINSXS"@,
        "C:\\PROGRAM FILES\\WINDOWS"@,
    ]
}

/// The orchestrator's registry denylist; the prefix match is
/// case-insensitive, on the upper-cased forms of path and entry alike.
pub open spec fn system_critical_registry_prefixes() -> Seq<Seq<char>> {
    seq![
        "HKLM\\SYSTEM"@,
        "HKLM\\SOFTWARE\\Microsoft\\Windows NT"@,
        "HKLM\\SOFTWARE\\Microsoft\\Windows\\CurrentVersion\\RUN"@,
        "HKCR\\*"@,
        "HKLM\\BOOT"@,
    ]
}

pub open spec fn spec_is_system_critical_path(path: Seq<char>) -> bool {
    exists|i: int|
        0 <= i < system_critical_prefixes().len() && has_prefix(
            upper_seq(path),
            upper_seq(#[trigger] system_critical_prefixes()[i]),
        )
}

pub open spec fn spec_is_critical_registry_path(path: Seq<char>) -> bool {
    exists|i: int|
        0 <= i < system_critical_registry_prefixes().len() && has_prefix(
            upper_seq(path),
            upper_seq(#[trigger] system_critical_registry_prefixes()[i]),
        )
}

/// The discovery-time check for a system-critical filesystem path.
pub fn is_system_critical_path(path: &str) -> (r: bool)
    ensures
        r == spec_is_system_critical_path(path@),
{
    let path_upper = upper_chars(&to_chars(path));
    let mut list: Vec<&'static str> = Vec::new();
    list.push("C:\\WINDOWS");
    list.push("C:\\WINDOWS\\SYSTEM32");
    list.push("C:\\WINDOWS\\SYSWOW64");
    list.push("C:\\WINDOWS\\INF");
    list.push("C:\\WINDOWS\\WINSXS");
    list.push("C:\\PROGRAM FILES\\WINDOWS");
    let mut i: usize = 0;
    while i < list.len()
        invariant
            path_upper@ == upper_seq(path@),
            list@.len() == system_critical_prefixes().len(),
            forall|k: int|
                0 <= k < list@.len() ==> #[trigger] list@[k]@ == system_critical_prefixes()[k],
            i <= list@.len(),
            forall|k: int|
                0 <= k < i ==> !has_prefix(
                    upper_seq(path@),
                    upper_seq(#[trigger] system_critical_prefixes()[k]),
                ),
        decreases list.len() - i,
    {
        let entry_upper = upper_chars(&to_chars(list[i]));
        if starts_with_sub(&path_upper, &entry_upper) {
            return true;
        }
        i = i + 1;
    }
    false
}

/// The discovery-time check for a critical registry path.
pub fn is_critical_registry_path(path: &str) -> (r: bool)
    ensures
        r == spec_is_critical_registry_path(path@),
{
    let path_upper = upper_chars(&to_chars(path));
    let mut list: Vec<&'static str> = Vec::new();
    list.push("HKLM\\SYSTEM");
    list.push("HKLM\\SOFTWARE\\Microsoft\\Windows NT");
    list.push("HKLM\\SOFTWARE\\Microsoft\\Windows\\CurrentVersion\\RUN");
    list.push("HKCR\\*");
    list.push("HKLM\\BOOT");
    let mut i: usize = 0;
    while i < list.len()
        invariant
            path_upper@ == upper_seq(path@),
            list@.len() == system_critical_registry_prefixes().len(),
            forall|k: int|
                0 <= k < list@.len() ==> #[trigger] list@[k]@
                    == system_critical_registry_prefixes()[k],
            i <= list@.len(),
            forall|k: int|
                0 <= k < i ==> !has_prefix(
                    upper_seq(path@),
                    upper_seq(#[trigger] system_critical_registry_prefixes()[k]),
                ),
        decreases list.len() - i,
    {
        let entry_upper = upper_chars(&to_chars(list[i]));
        if starts_with_sub(&path_upper, &entry_upper) {
            return true;
        }
        i = i + 1;
    }
    false
}

} // verus!
