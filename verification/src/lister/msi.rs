//! The MSI inventory source: turns the records the MSI enumeration
//! collaborator returned into inventory rows, deriving the `msiexec`
//! uninstall command from the identifying number.

use vstd::prelude::*;
use crate::error::UninstallerError;
use crate::lister::models::{InstallSource, InstalledProgram};
use crate::text::{lower_seq, lower_str, to_chars, clone_opt_string, chars_to_string};

verus! {

/// One record of the MSI product enumeration.
#[derive(Debug, Clone)]
pub struct MsiProductRecord {
    pub name: Option<String>,
    pub vendor: Option<String>,
    pub version: Option<String>,
    pub install_location: Option<String>,
    pub identifying_number: Option<String>,
}

/// A record the parser keeps: it names the product.
pub open spec fn spec_msi_kept(rec: MsiProductRecord) -> bool {
    rec.name matches Some(n) && n@.len() > 0
}

/// `q` is the row built from one MSI record: identity and descriptive
/// fields moved over; an identifying number yields the `msiexec` uninstall
/// command and a stable id.
pub open spec fn spec_msi_program(q: InstalledProgram, rec: MsiProductRecord) -> bool {
    &&& q.name == rec.name->0
    &&& q.publisher == rec.vendor
    &&& q.version == rec.version
    &&& q.install_location == rec.install_location
    &&& q.install_source == InstallSource::Msi
    &&& match rec.identifying_number {
        Some(id) => {
            &&& q.uninstall_string matches Some(u) && u@ == "msiexec /x{"@ + id@ + "}"@
            &&& q.id@ == "msi-"@ + lower_seq(id@)
        },
        None => {
            &&& q.uninstall_string is None
            &&& q.id@.len() == 36
        },
    }
}

/// The records of `rs` that name a product, in order.
pub open spec fn spec_msi_kept_records(rs: Seq<MsiProductRecord>) -> Seq<MsiProductRecord>
    decreases rs.len(),
{
    if rs.len() == 0 {
        Seq::empty()
    } else {
        spec_msi_kept_records(rs.drop_last()) + (if spec_msi_kept(rs.last()) {
            seq![rs.last()]
        } else {
            Seq::empty()
        })
    }
}

/// Build inventory rows from the MSI enumeration's records, skipping
/// nameless products.
pub fn list_msi_products(records: &Vec<MsiProductRecord>) -> (r: Result<
    Vec<InstalledProgram>,
    UninstallerError,
>)
    ensures
        r matches Ok(ps) && ps@.len() == spec_msi_kept_records(records@).len() && forall|i: int|
            0 <= i < ps@.len() ==> spec_msi_program(
                #[trigger] ps@[i],
                spec_msi_kept_records(records@)[i],
            ),
{
    let mut out: Vec<InstalledProgram> = Vec::new();
    let mut i: usize = 0;
    proof {
        assert(records@.subrange(0, 0) =~= Seq::<MsiProductRecord>::empty());
    }
    while i < records.len()
        invariant
            i <= records@.len(),
            out@.len() == spec_msi_kept_records(records@.subrange(0, i as int)).len(),
            forall|k: int|
                0 <= k < out@.len() ==> spec_msi_program(
                    #[trigger] out@[k],
                    spec_msi_kept_records(records@.subrange(0, i as int))[k],
                ),
        decreases records.len() - i,
    {
        let ghost pre = records@.subrange(0, i as int);
        proof {
            assert(records@.subrange(0, i + 1).drop_last() =~= pre);
            assert(records@.subrange(0, i + 1).last() == records@[i as int]);
        }
        let rec = &records[i];
        let keep = match &rec.name {
            Some(n) => n.as_str().unicode_len() > 0,
            None => false,
        };
        if keep {
            let name = match &rec.name {
                Some(n) => n.clone(),
                None => String::new(),
            };
            let mut q = InstalledProgram::new(name, InstallSource::Msi);
            q.publisher = clone_opt_string(&rec.vendor);
            q.version = clone_opt_string(&rec.version);
            q.install_location = clone_opt_string(&rec.install_location);
            match &rec.identifying_number {
                Some(id) => {
                    let mut u = String::new();
                    u.append("msiexec /x{");
                    u.append(id.as_str());
                    u.append("}");
                    q.uninstall_string = Some(u);
                    let mut pid = String::new();
                    pid.append("msi-");
                    pid.append(lower_str(id.as_str()).as_str());
                    q.id = pid;
                },
                None => {},
            }
            proof {
                assert(spec_msi_kept_records(records@.subrange(0, i + 1)) =~= spec_msi_kept_records(
                    pre,
                ).push(records@[i as int]));
            }
            out.push(q);
        } else {
            proof {
                assert(spec_msi_kept_records(records@.subrange(0, i + 1)) =~= spec_msi_kept_records(
                    pre,
                ));
            }
        }
        i = i + 1;
    }
    proof {
        assert(records@.subrange(0, records@.len() as int) =~= records@);
    }
    Ok(out)
}

} // verus!
