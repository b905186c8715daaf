//! The registry inventory source: turns the raw values read from one
//! uninstall subkey into an inventory row, skipping patches and Microsoft
//! system components.

use vstd::prelude::*;
use crate::error::UninstallerError;
use crate::lister::models::{InstallSource, InstalledProgram, MetadataConfidence, MetadataSource};
use crate::text::{contains_sub, has_prefix, has_substring, lower_chars, lower_seq,
    starts_with_sub, to_chars, clone_opt_string};

verus! {

/// The values read from one uninstall subkey, each missing when the key
/// lacks it.
#[derive(Debug, Clone)]
pub struct RegistryProgramRecord {
    pub display_name: Option<String>,
    pub publisher: Option<String>,
    pub display_version: Option<String>,
    pub install_date: Option<String>,
    pub install_location: Option<String>,
    pub uninstall_string: Option<String>,
    pub display_icon: Option<String>,
    pub url_info_about: Option<String>,
    pub help_link: Option<String>,
    /// The `EstimatedSize` value, in kibibytes, as the registry stores it.
    pub estimated_size_kb: Option<u32>,
}

/// A record the parser keeps: it has a display name that is neither a
/// `KB` patch nor a security update.
pub open spec fn spec_entry_kept(rec: RegistryProgramRecord) -> bool {
    rec.display_name matches Some(n) && !has_prefix(n@, "KB"@) && !has_substring(
        lower_seq(n@),
        "security update"@,
    )
}

/// `q` is the row built from `rec`: names and descriptive fields moved
/// over, the size estimate converted to bytes, and provisional provenance
/// on the fields the registry supplied.
pub open spec fn spec_entry_program(q: InstalledProgram, rec: RegistryProgramRecord) -> bool {
    &&& q.name == rec.display_name->0
    &&& q.publisher == rec.publisher
    &&& q.version == rec.display_version
    &&& q.install_date == rec.install_date
    &&& q.install_location == rec.install_location
    &&& q.uninstall_string == rec.uninstall_string
    &&& q.icon_path == rec.display_icon
    &&& q.url_info_about == rec.url_info_about
    &&& q.help_link == rec.help_link
    &&& q.install_source == InstallSource::Registry
    &&& q.id@.len() == 36
    &&& match rec.estimated_size_kb {
        Some(k) => {
            &&& q.estimated_size matches Some(sz) && sz == (k as int) * 1024
            &&& q.size == q.estimated_size
            &&& q.size_source == MetadataSource::Registry
            &&& q.size_confidence == MetadataConfidence::High
        },
        None => {
            &&& q.estimated_size is None
            &&& q.size is None
            &&& q.size_source == MetadataSource::Unknown
            &&& q.size_confidence == MetadataConfidence::Unknown
        },
    }
    &&& if rec.install_date is Some {
        q.install_date_source == MetadataSource::Registry && q.install_date_confidence
            == MetadataConfidence::Medium
    } else {
        q.install_date_source == MetadataSource::Unknown && q.install_date_confidence
            == MetadataConfidence::Unknown
    }
    &&& if rec.display_icon is Some {
        q.icon_source == MetadataSource::Registry && q.icon_confidence == MetadataConfidence::Medium
    } else {
        q.icon_source == MetadataSource::Unknown && q.icon_confidence == MetadataConfidence::Unknown
    }
    &&& q.display_version is None
    &&& q.icon_cache_path_32 is None && q.icon_cache_path_48 is None
    &&& q.size_last_updated_at is None
    &&& q.icon_data_url is None && q.icon_data_url_32 is None && q.icon_data_url_48 is None
    &&& q.metadata_confidence == MetadataConfidence::Unknown
}

/// Parse one uninstall subkey's values into an inventory row.
pub fn parse_registry_entry(rec: &RegistryProgramRecord) -> (r: Option<InstalledProgram>)
    ensures
        match r {
            Some(q) => spec_entry_kept(*rec) && spec_entry_program(q, *rec),
            None => !spec_entry_kept(*rec),
        },
{
    let name: String = match &rec.display_name {
        Some(n) => n.clone(),
        None => {
            return None;
        },
    };
    let name_chars = to_chars(name.as_str());
    if starts_with_sub(&name_chars, &to_chars("KB")) {
        return None;
    }
    if contains_sub(&lower_chars(&name_chars), &to_chars("security update")) {
        return None;
    }
    let mut q = InstalledProgram::new(name, InstallSource::Registry);
    q.publisher = clone_opt_string(&rec.publisher);
    q.version = clone_opt_string(&rec.display_version);
    q.install_date = clone_opt_string(&rec.install_date);
    q.install_location = clone_opt_string(&rec.install_location);
    q.uninstall_string = clone_opt_string(&rec.uninstall_string);
    q.icon_path = clone_opt_string(&rec.display_icon);
    q.url_info_about = clone_opt_string(&rec.url_info_about);
    q.help_link = clone_opt_string(&rec.help_link);
    if q.install_date.is_some() {
        q.install_date_source = MetadataSource::Registry;
        q.install_date_confidence = MetadataConfidence::Medium;
    }
    if q.icon_path.is_some() {
        q.icon_source = MetadataSource::Registry;
        q.icon_confidence = MetadataConfidence::Medium;
    }
    match rec.estimated_size_kb {
        Some(k) => {
            q.estimated_size = Some((k as u64) * 1024);
            q.size = q.estimated_size;
            q.size_source = MetadataSource::Registry;
            q.size_confidence = MetadataConfidence::High;
        },
        None => {},
    }
    Some(q)
}

/// A Microsoft system component: a Windows entry published by Microsoft.
pub open spec fn spec_is_system_component(q: InstalledProgram) -> bool {
    has_substring(lower_seq(q.name@), "windows"@) && (q.publisher matches Some(p)
        && has_substring(lower_seq(p@), "microsoft"@))
}

/// Whether an entry is a Windows system component rather than a removable
/// third-party program.
pub fn is_system_component(program: &InstalledProgram) -> (r: bool)
    ensures
        r == spec_is_system_component(*program),
{
    let name_low = lower_chars(&to_chars(program.name.as_str()));
    if !contains_sub(&name_low, &to_chars("windows")) {
        return false;
    }
    match &program.publisher {
        Some(p) => contains_sub(&lower_chars(&to_chars(p.as_str())), &to_chars("microsoft")),
        None => false,
    }
}

/// The records of `rs` that survive parsing and the system-component
/// filter, in order.
pub open spec fn spec_kept_records(rs: Seq<RegistryProgramRecord>) -> Seq<RegistryProgramRecord>
    decreases rs.len(),
{
    if rs.len() == 0 {
        Seq::empty()
    } else {
        spec_kept_records(rs.drop_last()) + (if spec_entry_kept(rs.last()) && !(has_substring(
            lower_seq(rs.last().display_name->0@),
            "windows"@,
        ) && (rs.last().publisher matches Some(p) && has_substring(lower_seq(p@), "microsoft"@))) {
            seq![rs.last()]
        } else {
            Seq::empty()
        })
    }
}

/// Build inventory rows from the uninstall subkeys the walker read,
/// skipping patches, security updates and Microsoft system components.
pub fn list_registry_programs(records: &Vec<RegistryProgramRecord>) -> (r: Result<
    Vec<InstalledProgram>,
    UninstallerError,
>)
    ensures
        r matches Ok(ps) && ps@.len() == spec_kept_records(records@).len() && forall|i: int|
            0 <= i < ps@.len() ==> spec_entry_program(
                #[trigger] ps@[i],
                spec_kept_records(records@)[i],
            ),
{
    let mut out: Vec<InstalledProgram> = Vec::new();
    let mut i: usize = 0;
    proof {
        assert(records@.subrange(0, 0) =~= Seq::<RegistryProgramRecord>::empty());
    }
    while i < records.len()
        invariant
            i <= records@.len(),
            out@.len() == spec_kept_records(records@.subrange(0, i as int)).len(),
            forall|k: int|
                0 <= k < out@.len() ==> spec_entry_program(
                    #[trigger] out@[k],
                    spec_kept_records(records@.subrange(0, i as int))[k],
                ),
        decreases records.len() - i,
    {
        let ghost pre = records@.subrange(0, i as int);
        proof {
            assert(records@.subrange(0, i + 1).drop_last() =~= pre);
            assert(records@.subrange(0, i + 1).last() == records@[i as int]);
        }
        match parse_registry_entry(&records[i]) {
            Some(q) => {
                if !is_system_component(&q) {
                    proof {
                        assert(spec_kept_records(records@.subrange(0, i + 1)) =~= spec_kept_records(
                            pre,
                        ).push(records@[i as int]));
                    }
                    out.push(q);
                } else {
                    proof {
                        assert(spec_kept_records(records@.subrange(0, i + 1)) =~= spec_kept_records(
                            pre,
                        ));
                    }
                }
            },
            None => {
                proof {
                    assert(spec_kept_records(records@.subrange(0, i + 1)) =~= spec_kept_records(
                        pre,
                    ));
                }
            },
        }
        i = i + 1;
    }
    proof {
        assert(records@.subrange(0, records@.len() as int) =~= records@);
    }
    Ok(out)
}

} // verus!
