//! The Store inventory source: turns the records the Store enumeration
//! collaborator returned into inventory rows, deriving the package-removal
//! command from the package's full name.

use vstd::prelude::*;
use crate::error::UninstallerError;
use crate::lister::models::{InstallSource, InstalledProgram};
use crate::text::clone_opt_string;

verus! {

/// One record of the Store app enumeration.
#[derive(Debug, Clone)]
pub struct StoreAppRecord {
    pub name: Option<String>,
    pub publisher: Option<String>,
    pub version: Option<String>,
    pub install_location: Option<String>,
    pub package_full_name: Option<String>,
}

/// A record the parser keeps: it names the app.
pub open spec fn spec_store_kept(rec: StoreAppRecord) -> bool {
    rec.name matches Some(n) && n@.len() > 0
}

/// `q` is the row built from one Store record: a package full name yields
/// the removal command and serves as the id.
pub open spec fn spec_store_program(q: InstalledProgram, rec: StoreAppRecord) -> bool {
    &&& q.name == rec.name->0
    &&& q.publisher == rec.publisher
    &&& q.version == rec.version
    &&& q.install_location == rec.install_location
    &&& q.install_source == InstallSource::Store
    &&& match rec.package_full_name {
        Some(pkg) => {
            &&& q.uninstall_string matches Some(u) && u@
                == "powershell -Command \"Remove-AppxPackage -Package '"@ + pkg@ + "'\""@
            &&& q.id == pkg
        },
        None => {
            &&& q.uninstall_string is None
            &&& q.id@.len() == 36
        },
    }
}

/// The records of `rs` that name an app, in order.
pub open spec fn spec_store_kept_records(rs: Seq<StoreAppRecord>) -> Seq<StoreAppRecord>
    decreases rs.len(),
{
    if rs.len() == 0 {
        Seq::empty()
    } else {
        spec_store_kept_records(rs.drop_last()) + (if spec_store_kept(rs.last()) {
            seq![rs.last()]
        } else {
            Seq::empty()
        })
    }
}

/// Build inventory rows from the Store enumeration's records, skipping
/// nameless apps.
pub fn list_store_apps(records: &Vec<StoreAppRecord>) -> (r: Result<
    Vec<InstalledProgram>,
    UninstallerError,
>)
    ensures
        r matches Ok(ps) && ps@.len() == spec_store_kept_records(records@).len() && forall|i: int|
            0 <= i < ps@.len() ==> spec_store_program(
                #[trigger] ps@[i],
                spec_store_kept_records(records@)[i],
            ),
{
    let mut out: Vec<InstalledProgram> = Vec::new();
    let mut i: usize = 0;
    proof {
        assert(records@.subrange(0, 0) =~= Seq::<StoreAppRecord>::empty());
    }
    while i < records.len()
        invariant
            i <= records@.len(),
            out@.len() == spec_store_kept_records(records@.subrange(0, i as int)).len(),
            forall|k: int|
                0 <= k < out@.len() ==> spec_store_program(
                    #[trigger] out@[k],
                    spec_store_kept_records(records@.subrange(0, i as int))[k],
                ),
        decreases records.len() - i,
    {
        let ghost pre = records@.subrange(0, i as int);
        proof {
            assert(records@.subrange(0, i + 1).drop_last() =~= pre);
            assert(records@.subrange(0, i + 1).last() == records@[i as int]);
        }
        let rec = &records[i];
        let keep = match &rec.name {
            Some(n) => n.as_str().unicode_len() > 0,
            None => false,
        };
        if keep {
            let name = match &rec.name {
                Some(n) => n.clone(),
                None => String::new(),
            };
            let mut q = InstalledProgram::new(name, InstallSource::Store);
            q.publisher = clone_opt_string(&rec.publisher);
            q.version = clone_opt_string(&rec.version);
            q.install_location = clone_opt_string(&rec.install_location);
            match &rec.package_full_name {
                Some(pkg) => {
                    let mut u = String::new();
                    u.append("powershell -Command \"Remove-AppxPackage -Package '");
                    u.append(pkg.as_str());
                    u.append("'\"");
                    q.uninstall_string = Some(u);
                    q.id = pkg.clone();
                },
                None => {},
            }
            proof {
                assert(spec_store_kept_records(records@.subrange(0, i + 1))
                    =~= spec_store_kept_records(pre).push(records@[i as int]));
            }
            out.push(q);
        } else {
            proof {
                assert(spec_store_kept_records(records@.subrange(0, i + 1))
                    =~= spec_store_kept_records(pre));
            }
        }
        i = i + 1;
    }
    proof {
        assert(records@.subrange(0, records@.len() as int) =~= records@);
    }
    Ok(out)
}

} // verus!
