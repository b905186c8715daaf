//! The program-inventory model: one row per installed program, each
//! enriched field carrying its own provenance pair, and the cache-state
//! shapes the lister reports alongside its results.

use vstd::prelude::*;
use crate::ids::generate_id;
use crate::text::clone_opt_string;

verus! {

/// Confidence in one enriched metadata field, `High` down to `Unknown`.
#[derive(Debug, Clone, Copy, PartialEq, Eq, Structural)]
pub enum MetadataConfidence {
    High,
    Medium,
    Low,
    Unknown,
}

impl Default for MetadataConfidence {
    fn default() -> (r: Self)
        ensures
            r == MetadataConfidence::Unknown,
    {
        MetadataConfidence::Unknown
    }
}

impl MetadataConfidence {
    /// Numeric rank of a confidence, higher is stronger.
    pub open spec fn spec_score(self) -> u8 {
        match self {
            MetadataConfidence::High => 4,
            MetadataConfidence::Medium => 3,
            MetadataConfidence::Low => 2,
            MetadataConfidence::Unknown => 1,
        }
    }

    pub fn score(&self) -> (r: u8)
        ensures
            r == self.spec_score(),
    {
        match self {
            MetadataConfidence::High => 4,
            MetadataConfidence::Medium => 3,
            MetadataConfidence::Low => 2,
            MetadataConfidence::Unknown => 1,
        }
    }

    /// The weaker of two confidences; ties keep the first.
    pub open spec fn spec_min2(a: Self, b: Self) -> Self {
        if b.spec_score() < a.spec_score() {
            b
        } else {
            a
        }
    }

    /// The weakest confidence in a list, `Unknown` for an empty one.
    pub open spec fn spec_lowest(vs: Seq<MetadataConfidence>) -> MetadataConfidence
        decreases vs.len(),
    {
        if vs.len() == 0 {
            MetadataConfidence::Unknown
        } else if vs.len() == 1 {
            vs[0]
        } else {
            Self::spec_min2(vs[0], Self::spec_lowest(vs.drop_first()))
        }
    }

    /// Take the weakest of a set of confidences, so the aggregate shown is
    /// always the most conservative one.
    pub fn lowest(values: &Vec<MetadataConfidence>) -> (r: MetadataConfidence)
        ensures
            r == Self::spec_lowest(values@),
    {
        if values.len() == 0 {
            return MetadataConfidence::Unknown;
        }
        let mut best = values[0];
        let mut i: usize = 1;
        while i < values.len()
            invariant
                1 <= i <= values@.len(),
                best == Self::spec_lowest(values@.subrange(0, i as int)),
            decreases values.len() - i,
        {
            proof {
                lemma_lowest_extend(values@.subrange(0, i + 1));
                assert(values@.subrange(0, i + 1).drop_last() =~= values@.subrange(0, i as int));
            }
            let c = values[i];
            if c.score() < best.score() {
                best = c;
            }
            i = i + 1;
        }
        proof {
            assert(values@.subrange(0, values@.len() as int) =~= values@);
        }
        best
    }
}

/// Appending one value to a non-empty list folds into the minimum from the
/// right.
proof fn lemma_lowest_extend(vs: Seq<MetadataConfidence>)
    requires
        vs.len() >= 2,
    ensures
        MetadataConfidence::spec_lowest(vs) == MetadataConfidence::spec_min2(
            MetadataConfidence::spec_lowest(vs.drop_last()),
            vs.last(),
        ),
    decreases vs.len(),
{
    if vs.len() == 2 {
        assert(vs.drop_first().len() == 1);
        assert(vs.drop_last().len() == 1);
        assert(vs.drop_first()[0] == vs[1]);
        assert(vs.drop_last()[0] == vs[0]);
    } else {
        lemma_lowest_extend(vs.drop_first());
        assert(vs.drop_first().drop_last() =~= vs.drop_last().drop_first());
        assert(vs.drop_first().last() == vs.last());
        assert(vs.drop_last()[0] == vs[0]);
    }
}

/// Law: the aggregate confidence really is the minimum — it is one of the
/// listed values and no listed value is weaker.
pub proof fn lemma_lowest_is_min(vs: Seq<MetadataConfidence>)
    requires
        vs.len() > 0,
    ensures
        vs.contains(MetadataConfidence::spec_lowest(vs)),
        forall|i: int|
            0 <= i < vs.len() ==> MetadataConfidence::spec_lowest(vs).spec_score() <= (
            #[trigger] vs[i]).spec_score(),
    decreases vs.len(),
{
    if vs.len() > 1 {
        lemma_lowest_is_min(vs.drop_first());
        let sub = vs.drop_first();
        let m = MetadataConfidence::spec_lowest(vs);
        if m != vs[0] {
            let j = choose|j: int| 0 <= j < sub.len() && sub[j] == m;
            assert(vs[j + 1] == m);
        }
        assert(forall|i: int| 1 <= i < vs.len() ==> vs[i] == sub[i - 1]);
    }
}

/// Where an enriched metadata field came from.
#[derive(Debug, Clone, Copy, PartialEq, Eq, Structural)]
pub enum MetadataSource {
    Registry,
    Filesystem,
    Derived,
    Unknown,
}

impl Default for MetadataSource {
    fn default() -> (r: Self)
        ensures
            r == MetadataSource::Unknown,
    {
        MetadataSource::Unknown
    }
}

/// Which inventory source produced a program row.
#[derive(Debug, Clone, Copy, PartialEq, Eq, Structural)]
pub enum InstallSource {
    Registry,
    Msi,
    Store,
    Unknown,
}

impl Default for InstallSource {
    fn default() -> (r: Self)
        ensures
            r == InstallSource::Unknown,
    {
        InstallSource::Unknown
    }
}

impl InstallSource {
    /// The display label of an install source.
    pub open spec fn spec_label(self) -> Seq<char> {
        match self {
            InstallSource::Registry => "Registry"@,
            InstallSource::Msi => "MSI"@,
            InstallSource::Store => "Store"@,
            InstallSource::Unknown => "Unknown"@,
        }
    }

    pub fn label(&self) -> (r: String)
        ensures
            r@ == self.spec_label(),
    {
        let mut r = String::new();
        match self {
            InstallSource::Registry => r.append("Registry"),
            InstallSource::Msi => r.append("MSI"),
            InstallSource::Store => r.append("Store"),
            InstallSource::Unknown => r.append("Unknown"),
        }
        r
    }
}

/// One row of the program inventory.
#[derive(Debug, Clone, PartialEq, Eq)]
pub struct InstalledProgram {
    pub id: String,
    pub name: String,
    pub publisher: Option<String>,
    pub version: Option<String>,
    pub install_date: Option<String>,
    pub install_location: Option<String>,
    pub uninstall_string: Option<String>,
    pub install_source: InstallSource,
    pub size: Option<u64>,
    pub icon_path: Option<String>,
    pub icon_cache_path_32: Option<String>,
    pub icon_cache_path_48: Option<String>,
    pub size_last_updated_at: Option<String>,
    pub icon_data_url: Option<String>,
    pub icon_data_url_32: Option<String>,
    pub icon_data_url_48: Option<String>,
    pub estimated_size: Option<u64>,
    pub display_version: Option<String>,
    pub url_info_about: Option<String>,
    pub help_link: Option<String>,
    pub install_date_source: MetadataSource,
    pub install_date_confidence: MetadataConfidence,
    pub icon_source: MetadataSource,
    pub icon_confidence: MetadataConfidence,
    pub size_source: MetadataSource,
    pub size_confidence: MetadataConfidence,
    pub metadata_confidence: MetadataConfidence,
}

impl InstalledProgram {
    /// A bare row: just a name, an install source and a fresh id; every
    /// descriptive field empty and every provenance `Unknown`.
    pub fn new(name: String, source: InstallSource) -> (r: InstalledProgram)
        ensures
            r == (InstalledProgram { id: r.id, name, install_source: source, ..spec_blank() }),
            r.id@.len() == 36,
    {
        InstalledProgram {
            id: generate_id(),
            name,
            publisher: None,
            version: None,
            install_date: None,
            install_location: None,
            uninstall_string: None,
            install_source: source,
            size: None,
            icon_path: None,
            icon_cache_path_32: None,
            icon_cache_path_48: None,
            size_last_updated_at: None,
            icon_data_url: None,
            icon_data_url_32: None,
            icon_data_url_48: None,
            estimated_size: None,
            display_version: None,
            url_info_about: None,
            help_link: None,
            install_date_source: MetadataSource::Unknown,
            install_date_confidence: MetadataConfidence::Unknown,
            icon_source: MetadataSource::Unknown,
            icon_confidence: MetadataConfidence::Unknown,
            size_source: MetadataSource::Unknown,
            size_confidence: MetadataConfidence::Unknown,
            metadata_confidence: MetadataConfidence::Unknown,
        }
    }

    /// A copy whose value Verus can track, field by field.
    pub fn duplicate(&self) -> (r: InstalledProgram)
        ensures
            r == *self,
    {
        InstalledProgram {
            id: self.id.clone(),
            name: self.name.clone(),
            publisher: clone_opt_string(&self.publisher),
            version: clone_opt_string(&self.version),
            install_date: clone_opt_string(&self.install_date),
            install_location: clone_opt_string(&self.install_location),
            uninstall_string: clone_opt_string(&self.uninstall_string),
            install_source: self.install_source,
            size: self.size,
            icon_path: clone_opt_string(&self.icon_path),
            icon_cache_path_32: clone_opt_string(&self.icon_cache_path_32),
            icon_cache_path_48: clone_opt_string(&self.icon_cache_path_48),
            size_last_updated_at: clone_opt_string(&self.size_last_updated_at),
            icon_data_url: clone_opt_string(&self.icon_data_url),
            icon_data_url_32: clone_opt_string(&self.icon_data_url_32),
            icon_data_url_48: clone_opt_string(&self.icon_data_url_48),
            estimated_size: self.estimated_size,
            display_version: clone_opt_string(&self.display_version),
            url_info_about: clone_opt_string(&self.url_info_about),
            help_link: clone_opt_string(&self.help_link),
            install_date_source: self.install_date_source,
            install_date_confidence: self.install_date_confidence,
            icon_source: self.icon_source,
            icon_confidence: self.icon_confidence,
            size_source: self.size_source,
            size_confidence: self.size_confidence,
            metadata_confidence: self.metadata_confidence,
        }
    }
}

/// The field values of a freshly constructed row, id and name aside.
pub open spec fn spec_blank() -> InstalledProgram {
    InstalledProgram {
        id: arbitrary(),
        name: arbitrary(),
        publisher: None,
        version: None,
        install_date: None,
        install_location: None,
        uninstall_string: None,
        install_source: InstallSource::Unknown,
        size: None,
        icon_path: None,
        icon_cache_path_32: None,
        icon_cache_path_48: None,
        size_last_updated_at: None,
        icon_data_url: None,
        icon_data_url_32: None,
        icon_data_url_48: None,
        estimated_size: None,
        display_version: None,
        url_info_about: None,
        help_link: None,
        install_date_source: MetadataSource::Unknown,
        install_date_confidence: MetadataConfidence::Unknown,
        icon_source: MetadataSource::Unknown,
        icon_confidence: MetadataConfidence::Unknown,
        size_source: MetadataSource::Unknown,
        size_confidence: MetadataConfidence::Unknown,
        metadata_confidence: MetadataConfidence::Unknown,
    }
}

/// The two raster files the icon rasterization collaborator produced for
/// an icon source, when it produced them.
#[derive(Debug, Clone, PartialEq, Eq)]
pub struct IconAssets {
    pub icon_cache_path_32: Option<String>,
    pub icon_cache_path_48: Option<String>,
}

/// What the machine reported for one program's enrichment: existence of
/// the extracted icon candidate, a fallback icon found in the install
/// location, the rasterizer's output, the bounded size-scan result, and
/// the current time. Gathered outside the library, consumed here.
#[derive(Debug, Clone)]
pub struct EnrichmentFacts {
    /// The icon candidate extracted from the registry value, with
    /// environment variables expanded; absent when nothing was extracted or
    /// the expansion came out empty.
    pub expanded_icon_candidate: Option<String>,
    /// Whether the expanded candidate exists on disk.
    pub icon_candidate_exists: bool,
    /// An `.ico`, `.exe` or `.dll` found in the install location, when the
    /// registry icon was absent or invalid.
    pub fallback_icon: Option<String>,
    /// What the rasterizer produced for the chosen icon source; `None` when
    /// it failed, which costs the icon fields but never blocks enrichment.
    pub icon_assets: Option<IconAssets>,
    /// Total size of the install location from the bounded walk; `None`
    /// when the location is missing or a scan budget was exceeded.
    pub location_size: Option<u64>,
    /// The current time, recorded on a resolved size.
    pub now_rfc3339: String,
}

/// How the cache served (or did not serve) one list request.
#[derive(Debug, Clone, PartialEq, Eq)]
pub struct ProgramListCacheState {
    pub cache_hit: bool,
    pub cache_valid: bool,
    pub refreshed: bool,
    pub schema_version: u32,
    pub generated_at: Option<String>,
    pub reason: Option<String>,
}

impl Default for ProgramListCacheState {
    fn default() -> (r: Self)
        ensures
            !r.cache_hit,
            !r.cache_valid,
            !r.refreshed,
            r.schema_version == 0,
            r.generated_at is None,
            r.reason is None,
    {
        ProgramListCacheState {
            cache_hit: false,
            cache_valid: false,
            refreshed: false,
            schema_version: 0,
            generated_at: None,
            reason: None,
        }
    }
}

/// One list request: source filter, search string, cache controls.
#[derive(Debug, Clone)]
pub struct ListProgramsQuery {
    pub source: Option<InstallSource>,
    pub search: Option<String>,
    pub refresh: bool,
    pub cache_ttl_seconds: i64,
}

impl Default for ListProgramsQuery {
    fn default() -> (r: Self)
        ensures
            r.source is None,
            r.search is None,
            !r.refresh,
            r.cache_ttl_seconds == 0,
    {
        ListProgramsQuery { source: None, search: None, refresh: false, cache_ttl_seconds: 0 }
    }
}

/// A program list together with the cache provenance of this answer.
#[derive(Debug, Clone)]
pub struct ProgramListResponse {
    pub programs: Vec<InstalledProgram>,
    pub cache: ProgramListCacheState,
}

} // verus!
