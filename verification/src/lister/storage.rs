//! Persistence shapes for the lister: the schema-versioned, TTL-bounded
//! scan cache and the program snapshot kept before an uninstall runs.
//!
//! The cache lives in an embedded store outside this crate; here it is
//! modelled as plain `CacheContents`. Saving builds the full replacement
//! contents (the store swaps them in one transaction), reading validates
//! schema, timestamp and TTL and yields the rows or the precise reason the
//! cache cannot serve.

use vstd::prelude::*;
use std::collections::hash_map::DefaultHasher;
use std::hash::Hasher;
use vstd::std_specs::hash::DefaultHasherAdditionalSpecFns;
use crate::dates::rfc3339_to_unix;
use crate::digits::{spec_dec, spec_hex_pad, spec_parse_u32, parse_u32_chars, u64_to_hex16,
    u64_to_dec_string};
use crate::error::UninstallerError;
use crate::lister::models::InstalledProgram;
use crate::text::{contains_sub, has_substring, lower_chars, lower_seq, opt_str_view, to_chars};

verus! {

pub const CACHE_SCHEMA_VERSION: u32 = 4;

pub const DEFAULT_CACHE_TTL_SECONDS: i64 = 900;

/// Little-endian bytes of one character's scalar value.
pub open spec fn spec_char_bytes(c: char) -> Seq<u8> {
    seq![
        (c as u32 & 0xFF) as u8,
        ((c as u32 >> 8) & 0xFF) as u8,
        ((c as u32 >> 16) & 0xFF) as u8,
        ((c as u32 >> 24) & 0xFF) as u8,
    ]
}

/// A string's characters, each as four little-endian bytes.
pub open spec fn spec_encode(s: Seq<char>) -> Seq<u8>
    decreases s.len(),
{
    if s.len() == 0 {
        Seq::empty()
    } else {
        spec_encode(s.drop_last()) + spec_char_bytes(s.last())
    }
}

fn encode_chars(v: &Vec<char>) -> (r: Vec<u8>)
    ensures
        r@ == spec_encode(v@),
{
    let mut r: Vec<u8> = Vec::new();
    let mut i: usize = 0;
    proof {
        assert(v@.subrange(0, 0) =~= Seq::<char>::empty());
    }
    while i < v.len()
        invariant
            i <= v@.len(),
            r@ == spec_encode(v@.subrange(0, i as int)),
        decreases v.len() - i,
    {
        let u: u32 = v[i] as u32;
        proof {
            assert(v@.subrange(0, i + 1).drop_last() =~= v@.subrange(0, i as int));
            assert(v@.subrange(0, i + 1).last() == v@[i as int]);
        }
        r.push((u & 0xFF) as u8);
        r.push(((u >> 8) & 0xFF) as u8);
        r.push(((u >> 16) & 0xFF) as u8);
        r.push(((u >> 24) & 0xFF) as u8);
        proof {
            assert(r@ =~= spec_encode(v@.subrange(0, i as int)) + spec_char_bytes(v@[i as int]));
        }
        i = i + 1;
    }
    proof {
        assert(v@.subrange(0, v@.len() as int) =~= v@);
    }
    r
}

pub open spec fn opt_seq(o: Option<String>) -> Seq<char> {
    match o {
        Some(s) => s@,
        None => Seq::empty(),
    }
}

/// The byte runs hashed into a program's cache key: its lower-cased name,
/// publisher, uninstall string and install location, and its source label.
pub open spec fn spec_cache_key_writes(p: InstalledProgram) -> Seq<Seq<u8>> {
    seq![
        spec_encode(lower_seq(p.name@)),
        spec_encode(lower_seq(opt_seq(p.publisher))),
        spec_encode(lower_seq(opt_seq(p.uninstall_string))),
        spec_encode(lower_seq(opt_seq(p.install_location))),
        spec_encode(p.install_source.spec_label()),
    ]
}

/// A program's cache key: the stable hash of its identifying fields,
/// rendered as sixteen hex digits.
pub open spec fn spec_cache_key(p: InstalledProgram) -> Seq<char> {
    spec_hex_pad(DefaultHasher::spec_finish(spec_cache_key_writes(p)) as int, 16)
}

/// Derive the cache key a program is stored under.
pub fn build_program_cache_key(program: &InstalledProgram) -> (r: String)
    ensures
        r@ == spec_cache_key(*program),
{
    let mut h = DefaultHasher::new();
    let b0 = encode_chars(&lower_chars(&to_chars(program.name.as_str())));
    h.write(b0.as_slice());
    let pub_s = match &program.publisher {
        Some(s) => encode_chars(&lower_chars(&to_chars(s.as_str()))),
        None => Vec::new(),
    };
    h.write(pub_s.as_slice());
    let us_s = match &program.uninstall_string {
        Some(s) => encode_chars(&lower_chars(&to_chars(s.as_str()))),
        None => Vec::new(),
    };
    h.write(us_s.as_slice());
    let loc_s = match &program.install_location {
        Some(s) => encode_chars(&lower_chars(&to_chars(s.as_str()))),
        None => Vec::new(),
    };
    h.write(loc_s.as_slice());
    let lab = encode_chars(&to_chars(program.install_source.label().as_str()));
    h.write(lab.as_slice());
    proof {
        assert(lower_seq(Seq::<char>::empty()) =~= Seq::<char>::empty());
        assert(spec_encode(Seq::<char>::empty()) =~= Seq::<u8>::empty());
        assert(h@ =~= spec_cache_key_writes(*program));
    }
    let key = h.finish();
    u64_to_hex16(key)
}

/// One persisted cache row: the key and the full program payload.
#[derive(Debug, Clone)]
pub struct CacheRow {
    pub cache_key: String,
    pub program: InstalledProgram,
}

/// The whole persisted cache, as plain values: whether the store exists,
/// its two metadata entries, and the payload rows.
#[derive(Debug, Clone)]
pub struct CacheContents {
    pub present: bool,
    pub schema_version: Option<String>,
    pub generated_at: Option<String>,
    pub rows: Vec<CacheRow>,
}

/// What reading the cache found.
#[derive(Debug, Clone)]
pub struct ScanCacheReadResult {
    pub entries: Option<Vec<InstalledProgram>>,
    pub cache_hit: bool,
    pub cache_valid: bool,
    pub schema_version: u32,
    pub generated_at: Option<String>,
    pub reason: Option<String>,
}

impl Default for ScanCacheReadResult {
    fn default() -> (r: Self)
        ensures
            r.entries is None,
            !r.cache_hit,
            !r.cache_valid,
            r.schema_version == CACHE_SCHEMA_VERSION,
            r.generated_at is None,
            r.reason is None,
    {
        ScanCacheReadResult {
            entries: None,
            cache_hit: false,
            cache_valid: false,
            schema_version: CACHE_SCHEMA_VERSION,
            generated_at: None,
            reason: None,
        }
    }
}

/// The schema version recorded in the cache, zero when absent or
/// unreadable.
pub open spec fn spec_recorded_schema(data: CacheContents) -> u32 {
    match data.schema_version {
        Some(s) => match spec_parse_u32(s@) {
            Some(v) => v,
            None => 0,
        },
        None => 0,
    }
}

/// Why a cache read succeeds or falls through, checked in this order:
/// existence, schema version, generation timestamp presence, timestamp
/// parseability, TTL, and non-emptiness.
pub enum CacheVerdict {
    Missing,
    SchemaMismatch,
    MissingGeneratedAt,
    InvalidGeneratedAt,
    Expired,
    Empty,
    Hit,
}

pub open spec fn spec_cache_verdict(data: CacheContents, ttl_seconds: i64, now_unix: i64) -> CacheVerdict {
    if !data.present {
        CacheVerdict::Missing
    } else if spec_recorded_schema(data) != CACHE_SCHEMA_VERSION {
        CacheVerdict::SchemaMismatch
    } else if data.generated_at is None {
        CacheVerdict::MissingGeneratedAt
    } else {
        match rfc3339_to_unix(data.generated_at->0@) {
            None => CacheVerdict::InvalidGeneratedAt,
            Some(g) => {
                let ttl: int = if ttl_seconds < 1 {
                    1
                } else {
                    ttl_seconds as int
                };
                if now_unix - g > ttl {
                    CacheVerdict::Expired
                } else if data.rows@.len() == 0 {
                    CacheVerdict::Empty
                } else {
                    CacheVerdict::Hit
                }
            },
        }
    }
}

/// The reason string reported for a verdict.
pub open spec fn spec_verdict_reason(v: CacheVerdict) -> Option<Seq<char>> {
    match v {
        CacheVerdict::Missing => Some("cache_missing"@),
        CacheVerdict::SchemaMismatch => Some("schema_mismatch"@),
        CacheVerdict::MissingGeneratedAt => Some("cache_missing_generated_at"@),
        CacheVerdict::InvalidGeneratedAt => Some("cache_invalid_generated_at"@),
        CacheVerdict::Expired => Some("cache_expired"@),
        CacheVerdict::Empty => Some("cache_empty"@),
        CacheVerdict::Hit => None,
    }
}

/// Read the cache: validity requires the store to exist, the recorded
/// schema version to match this build's, a parseable generation timestamp
/// within the TTL, and at least one row. Any failure reports its precise
/// reason and no rows.
pub fn read_scan_cache(data: &CacheContents, ttl_seconds: i64, now_unix: i64) -> (r:
    ScanCacheReadResult)
    ensures
        ({
            let v = spec_cache_verdict(*data, ttl_seconds, now_unix);
            &&& r.cache_hit == (v is Hit)
            &&& r.cache_valid == (v is Hit)
            &&& opt_str_view(r.reason) == spec_verdict_reason(v)
            &&& r.schema_version == if data.present {
                spec_recorded_schema(*data)
            } else {
                CACHE_SCHEMA_VERSION
            }
            &&& opt_str_view(r.generated_at) == if data.present {
                opt_str_view(data.generated_at)
            } else {
                None::<Seq<char>>
            }
            &&& if v is Hit {
                r.entries matches Some(es) && es@.len() == data.rows@.len() && forall|i: int|
                    0 <= i < es@.len() ==> es@[i] == data.rows@[i].program
            } else {
                r.entries is None
            }
        }),
{
    let mut r = ScanCacheReadResult::default();
    if !data.present {
        let mut reason = String::new();
        reason.append("cache_missing");
        r.reason = Some(reason);
        return r;
    }
    let recorded: u32 = match &data.schema_version {
        Some(s) => match parse_u32_chars(&to_chars(s.as_str())) {
            Some(v) => v,
            None => 0,
        },
        None => 0,
    };
    r.schema_version = recorded;
    if recorded != CACHE_SCHEMA_VERSION {
        r.generated_at = crate::text::clone_opt_string(&data.generated_at);
        let mut reason = String::new();
        reason.append("schema_mismatch");
        r.reason = Some(reason);
        return r;
    }
    let gen: String = match &data.generated_at {
        Some(g) => g.clone(),
        None => {
            let mut reason = String::new();
            reason.append("cache_missing_generated_at");
            r.reason = Some(reason);
            return r;
        },
    };
    r.generated_at = Some(gen.clone());
    let g_unix: i64 = match crate::dates::parse_rfc3339_unix(gen.as_str()) {
        Some(g) => g,
        None => {
            let mut reason = String::new();
            reason.append("cache_invalid_generated_at");
            r.reason = Some(reason);
            return r;
        },
    };
    let ttl: i64 = if ttl_seconds < 1 {
        1
    } else {
        ttl_seconds
    };
    let expired: bool = (now_unix as i128) - (g_unix as i128) > (ttl as i128);
    if expired {
        let mut reason = String::new();
        reason.append("cache_expired");
        r.reason = Some(reason);
        return r;
    }
    if data.rows.len() == 0 {
        let mut reason = String::new();
        reason.append("cache_empty");
        r.reason = Some(reason);
        return r;
    }
    let mut es: Vec<InstalledProgram> = Vec::new();
    let mut i: usize = 0;
    while i < data.rows.len()
        invariant
            i <= data.rows@.len(),
            es@.len() == i,
            forall|k: int| 0 <= k < i ==> es@[k] == data.rows@[k].program,
        decreases data.rows.len() - i,
    {
        es.push(data.rows[i].program.duplicate());
        i = i + 1;
    }
    r.entries = Some(es);
    r.cache_hit = true;
    r.cache_valid = true;
    r
}

/// Build the full replacement cache contents for a rebuilt inventory: one
/// keyed row per program, the current schema version, and a generation
/// timestamp denoting `now_unix`. The store swaps the whole table
/// atomically.
pub fn save_scan_cache(entries: &Vec<InstalledProgram>, now_unix: i64) -> (r: CacheContents)
    requires
        0 <= now_unix < 253402300800,
    ensures
        r.present,
        opt_str_view(r.schema_version) == Some(spec_dec(CACHE_SCHEMA_VERSION as int)),
        r.generated_at matches Some(g) && rfc3339_to_unix(g@) == Some(now_unix),
        r.rows@.len() == entries@.len(),
        forall|i: int|
            0 <= i < entries@.len() ==> (#[trigger] r.rows@[i]).program == entries@[i]
                && r.rows@[i].cache_key@ == spec_cache_key(entries@[i]),
{
    let mut rows: Vec<CacheRow> = Vec::new();
    let mut i: usize = 0;
    while i < entries.len()
        invariant
            i <= entries@.len(),
            rows@.len() == i,
            forall|k: int|
                0 <= k < i ==> (#[trigger] rows@[k]).program == entries@[k] && rows@[k].cache_key@
                    == spec_cache_key(entries@[k]),
        decreases entries.len() - i,
    {
        let p = &entries[i];
        rows.push(CacheRow { cache_key: build_program_cache_key(p), program: p.duplicate() });
        i = i + 1;
    }
    CacheContents {
        present: true,
        schema_version: Some(u64_to_dec_string(CACHE_SCHEMA_VERSION as u64)),
        generated_at: Some(crate::dates::format_rfc3339_unix(now_unix)),
        rows,
    }
}

/// Invalidate the whole cache: the replacement contents are simply absent.
pub fn invalidate_scan_cache() -> (r: CacheContents)
    ensures
        !r.present,
        r.schema_version is None,
        r.generated_at is None,
        r.rows@.len() == 0,
{
    CacheContents { present: false, schema_version: None, generated_at: None, rows: Vec::new() }
}

/// Invalidate the cache for one program; conservatively the whole table.
pub fn invalidate_scan_cache_for_program(program_name: &str) -> (r: CacheContents)
    ensures
        !r.present,
        r.schema_version is None,
        r.generated_at is None,
        r.rows@.len() == 0,
{
    let _ = program_name;
    invalidate_scan_cache()
}

/// Law: cache round trip. Contents that carry the current schema version
/// and a generation timestamp denoting `save_time`, with at least one row,
/// read back within the TTL as a hit.
pub proof fn lemma_cache_round_trip(
    saved: CacheContents,
    gen: Seq<char>,
    save_time: i64,
    read_time: i64,
    ttl: i64,
)
    requires
        saved.present,
        opt_str_view(saved.schema_version) == Some(spec_dec(CACHE_SCHEMA_VERSION as int)),
        opt_str_view(saved.generated_at) == Some(gen),
        rfc3339_to_unix(gen) == Some(save_time),
        saved.rows@.len() > 0,
        ttl >= 1,
        0 <= read_time - save_time <= ttl,
    ensures
        spec_cache_verdict(saved, ttl, read_time) is Hit,
{
    let s = saved.schema_version->0@;
    assert(s == spec_dec(4));
    assert(spec_dec(4) =~= seq![crate::digits::dec_digit(4)]);
    assert(s.len() == 1);
    assert(s[0] == '4');
    assert(crate::digits::is_dec_digit('4'));
    assert(s.drop_last() =~= Seq::<char>::empty());
    assert(crate::digits::numeral_value(s) == 4) by {
        assert(crate::digits::numeral_value(s.drop_last()) == 0);
    }
    assert(crate::digits::all_digits(s));
    assert(spec_parse_u32(s) == Some(4u32));
    assert(spec_recorded_schema(saved) == CACHE_SCHEMA_VERSION);
    assert(saved.generated_at->0@ == gen);
}

/// Law: schema mismatch. Contents recording any schema version other than
/// this build's read back as a mismatch and never as a hit.
pub proof fn lemma_cache_schema_mismatch(saved: CacheContents, ttl: i64, now: i64)
    requires
        saved.present,
        spec_recorded_schema(saved) != CACHE_SCHEMA_VERSION,
    ensures
        spec_cache_verdict(saved, ttl, now) is SchemaMismatch,
        !(spec_cache_verdict(saved, ttl, now) is Hit),
{
}

// ---------------------------------------------------------------------
// Storage locations
// ---------------------------------------------------------------------
/// The storage root: an explicit override wins, else the platform data
/// directory gains an application folder; with neither, the caller cannot
/// store anything.
pub fn get_storage_root_dir(override_dir: Option<String>, data_dir: Option<String>) -> (r: Result<
    String,
    UninstallerError,
>)
    ensures
        match r {
            Ok(root) => match override_dir {
                Some(o) => root == o,
                None => data_dir matches Some(d) && root@ == d@ + "/rust-yu"@,
            },
            Err(e) => override_dir is None && data_dir is None && e matches
                UninstallerError::Other(_),
        },
{
    match override_dir {
        Some(o) => Ok(o),
        None => match data_dir {
            Some(d) => {
                let mut root = d;
                root.append("/rust-yu");
                Ok(root)
            },
            None => {
                let mut m = String::new();
                m.append("could not determine the application data directory");
                Err(UninstallerError::Other(m))
            },
        },
    }
}

/// The snapshot file under a storage root.
pub fn get_snapshot_file(storage_root: &str) -> (r: String)
    ensures
        r@ == storage_root@ + "/programs.json"@,
{
    let mut r = storage_root.to_owned();
    r.append("/programs.json");
    r
}

/// The scan-cache database file under a storage root.
pub fn get_scan_cache_file(storage_root: &str) -> (r: String)
    ensures
        r@ == storage_root@ + "/installed_programs_cache_v4.sqlite3"@,
{
    let mut r = storage_root.to_owned();
    r.append("/installed_programs_cache_v4.sqlite3");
    r
}

/// The scan-cache database path; logically the cache file itself.
pub fn get_scan_cache_database_path(storage_root: &str) -> (r: String)
    ensures
        r@ == storage_root@ + "/installed_programs_cache_v4.sqlite3"@,
{
    get_scan_cache_file(storage_root)
}

/// The icon cache directory under a storage root.
pub fn get_icon_cache_dir(storage_root: &str) -> (r: String)
    ensures
        r@ == storage_root@ + "/icon-cache"@,
{
    let mut r = storage_root.to_owned();
    r.append("/icon-cache");
    r
}

// ---------------------------------------------------------------------
// Program snapshot
// ---------------------------------------------------------------------
/// `list` with every program of `key` (a lower-cased name) removed.
pub open spec fn spec_remove_name(list: Seq<InstalledProgram>, key: Seq<char>) -> Seq<
    InstalledProgram,
>
    decreases list.len(),
{
    if list.len() == 0 {
        Seq::empty()
    } else {
        spec_remove_name(list.drop_last(), key) + (if lower_seq(list.last().name@) != key {
            seq![list.last()]
        } else {
            Seq::empty()
        })
    }
}

/// Upsert one program by name.
pub open spec fn spec_upsert(list: Seq<InstalledProgram>, p: InstalledProgram) -> Seq<
    InstalledProgram,
> {
    spec_remove_name(list, lower_seq(p.name@)).push(p)
}

/// Upsert each of `ps` into `list`, in order.
pub open spec fn spec_upsert_all(list: Seq<InstalledProgram>, ps: Seq<InstalledProgram>) -> Seq<
    InstalledProgram,
>
    decreases ps.len(),
{
    if ps.len() == 0 {
        list
    } else {
        spec_upsert_all(spec_upsert(list, ps[0]), ps.drop_first())
    }
}

fn remove_name(list: &Vec<InstalledProgram>, key: &Vec<char>) -> (r: Vec<InstalledProgram>)
    ensures
        r@ == spec_remove_name(list@, key@),
{
    let mut out: Vec<InstalledProgram> = Vec::new();
    let mut i: usize = 0;
    proof {
        assert(list@.subrange(0, 0) =~= Seq::<InstalledProgram>::empty());
    }
    while i < list.len()
        invariant
            i <= list@.len(),
            out@ == spec_remove_name(list@.subrange(0, i as int), key@),
        decreases list.len() - i,
    {
        let ghost pre = list@.subrange(0, i as int);
        proof {
            assert(list@.subrange(0, i + 1).drop_last() =~= pre);
            assert(list@.subrange(0, i + 1).last() == list@[i as int]);
        }
        let nl = lower_chars(&to_chars(list[i].name.as_str()));
        if !crate::text::chars_eq(&nl, key) {
            out.push(list[i].duplicate());
            proof {
                assert(spec_remove_name(list@.subrange(0, i + 1), key@) =~= spec_remove_name(
                    pre,
                    key@,
                ).push(list@[i as int]));
            }
        } else {
            proof {
                assert(spec_remove_name(list@.subrange(0, i + 1), key@) =~= spec_remove_name(
                    pre,
                    key@,
                ));
            }
        }
        i = i + 1;
    }
    proof {
        assert(list@.subrange(0, list@.len() as int) =~= list@);
    }
    out
}

/// Merge freshly read program rows into a snapshot: each row replaces any
/// entries sharing its lower-cased name and is appended.
pub fn save_program_snapshot(
    existing: &Vec<InstalledProgram>,
    programs: &Vec<InstalledProgram>,
) -> (r: Vec<InstalledProgram>)
    ensures
        r@ == spec_upsert_all(existing@, programs@),
{
    let mut acc: Vec<InstalledProgram> = existing_copy(existing);
    proof {
        assert(programs@.skip(0) =~= programs@);
    }
    let mut i: usize = 0;
    while i < programs.len()
        invariant
            i <= programs@.len(),
            spec_upsert_all(existing@, programs@) == spec_upsert_all(
                acc@,
                programs@.skip(i as int),
            ),
        decreases programs.len() - i,
    {
        proof {
            assert(programs@.skip(i as int)[0] == programs@[i as int]);
            assert(programs@.skip(i as int).drop_first() =~= programs@.skip(i + 1));
        }
        let key = lower_chars(&to_chars(programs[i].name.as_str()));
        let mut filtered = remove_name(&acc, &key);
        filtered.push(programs[i].duplicate());
        acc = filtered;
        i = i + 1;
    }
    proof {
        assert(programs@.skip(programs@.len() as int) =~= Seq::<InstalledProgram>::empty());
    }
    acc
}

fn existing_copy(list: &Vec<InstalledProgram>) -> (r: Vec<InstalledProgram>)
    ensures
        r@ == list@,
{
    let mut out: Vec<InstalledProgram> = Vec::new();
    let mut i: usize = 0;
    while i < list.len()
        invariant
            i <= list@.len(),
            out@ == list@.subrange(0, i as int),
        decreases list.len() - i,
    {
        out.push(list[i].duplicate());
        proof {
            assert(list@.subrange(0, i + 1) =~= list@.subrange(0, i as int).push(list@[i as int]));
        }
        i = i + 1;
    }
    proof {
        assert(list@.subrange(0, list@.len() as int) =~= list@);
    }
    out
}

/// The first saved program whose lower-cased name contains the query.
pub fn get_saved_program(name: &str, saved: &Vec<InstalledProgram>) -> (r: Result<
    Option<InstalledProgram>,
    UninstallerError,
>)
    ensures
        r matches Ok(found) && match found {
            Some(p) => exists|i: int|
                0 <= i < saved@.len() && saved@[i] == p && has_substring(
                    lower_seq(saved@[i].name@),
                    lower_seq(name@),
                ) && forall|k: int|
                    0 <= k < i ==> !has_substring(
                        lower_seq(#[trigger] saved@[k].name@),
                        lower_seq(name@),
                    ),
            None => forall|i: int|
                0 <= i < saved@.len() ==> !has_substring(
                    lower_seq(#[trigger] saved@[i].name@),
                    lower_seq(name@),
                ),
        },
{
    let key = lower_chars(&to_chars(name));
    let mut i: usize = 0;
    while i < saved.len()
        invariant
            i <= saved@.len(),
            key@ == lower_seq(name@),
            forall|k: int|
                0 <= k < i ==> !has_substring(lower_seq(#[trigger] saved@[k].name@), lower_seq(name@)),
        decreases saved.len() - i,
    {
        let nl = lower_chars(&to_chars(saved[i].name.as_str()));
        if contains_sub(&nl, &key) {
            return Ok(Some(saved[i].duplicate()));
        }
        i = i + 1;
    }
    Ok(None)
}

/// `list` without the programs whose lower-cased name contains `pat`.
pub open spec fn spec_remove_matching(list: Seq<InstalledProgram>, pat: Seq<char>) -> Seq<
    InstalledProgram,
>
    decreases list.len(),
{
    if list.len() == 0 {
        Seq::empty()
    } else {
        spec_remove_matching(list.drop_last(), pat) + (if !has_substring(
            lower_seq(list.last().name@),
            pat,
        ) {
            seq![list.last()]
        } else {
            Seq::empty()
        })
    }
}

/// Drop every snapshot entry whose lower-cased name contains the given
/// name.
pub fn delete_saved_program(name: &str, saved: &Vec<InstalledProgram>) -> (r: Vec<
    InstalledProgram,
>)
    ensures
        r@ == spec_remove_matching(saved@, lower_seq(name@)),
{
    let key = lower_chars(&to_chars(name));
    let mut out: Vec<InstalledProgram> = Vec::new();
    let mut i: usize = 0;
    proof {
        assert(saved@.subrange(0, 0) =~= Seq::<InstalledProgram>::empty());
    }
    while i < saved.len()
        invariant
            i <= saved@.len(),
            key@ == lower_seq(name@),
            out@ == spec_remove_matching(saved@.subrange(0, i as int), lower_seq(name@)),
        decreases saved.len() - i,
    {
        let ghost pre = saved@.subrange(0, i as int);
        proof {
            assert(saved@.subrange(0, i + 1).drop_last() =~= pre);
            assert(saved@.subrange(0, i + 1).last() == saved@[i as int]);
        }
        let nl = lower_chars(&to_chars(saved[i].name.as_str()));
        if !contains_sub(&nl, &key) {
            out.push(saved[i].duplicate());
            proof {
                assert(spec_remove_matching(saved@.subrange(0, i + 1), lower_seq(name@))
                    =~= spec_remove_matching(pre, lower_seq(name@)).push(saved@[i as int]));
            }
        } else {
            proof {
                assert(spec_remove_matching(saved@.subrange(0, i + 1), lower_seq(name@))
                    =~= spec_remove_matching(pre, lower_seq(name@)));
            }
        }
        i = i + 1;
    }
    proof {
        assert(saved@.subrange(0, saved@.len() as int) =~= saved@);
    }
    out
}

/// The snapshot entries whose name or publisher contains the query,
/// matched on lower-cased text.
pub open spec fn spec_snapshot_matches(list: Seq<InstalledProgram>, pat: Seq<char>) -> Seq<
    InstalledProgram,
>
    decreases list.len(),
{
    if list.len() == 0 {
        Seq::empty()
    } else {
        spec_snapshot_matches(list.drop_last(), pat) + (if has_substring(
            lower_seq(list.last().name@),
            pat,
        ) || (list.last().publisher matches Some(p) && has_substring(lower_seq(p@), pat)) {
            seq![list.last()]
        } else {
            Seq::empty()
        })
    }
}

/// Search the saved snapshot by name or publisher.
pub fn search_programs_with_fallback(query: &str, saved: &Vec<InstalledProgram>) -> (r: Result<
    Vec<InstalledProgram>,
    UninstallerError,
>)
    ensures
        r matches Ok(found) && found@ == spec_snapshot_matches(saved@, lower_seq(query@)),
{
    let key = lower_chars(&to_chars(query));
    let mut out: Vec<InstalledProgram> = Vec::new();
    let mut i: usize = 0;
    proof {
        assert(saved@.subrange(0, 0) =~= Seq::<InstalledProgram>::empty());
    }
    while i < saved.len()
        invariant
            i <= saved@.len(),
            key@ == lower_seq(query@),
            out@ == spec_snapshot_matches(saved@.subrange(0, i as int), lower_seq(query@)),
        decreases saved.len() - i,
    {
        let ghost pre = saved@.subrange(0, i as int);
        proof {
            assert(saved@.subrange(0, i + 1).drop_last() =~= pre);
            assert(saved@.subrange(0, i + 1).last() == saved@[i as int]);
        }
        let nl = lower_chars(&to_chars(saved[i].name.as_str()));
        let hit = if contains_sub(&nl, &key) {
            true
        } else {
            match &saved[i].publisher {
                Some(p) => contains_sub(&lower_chars(&to_chars(p.as_str())), &key),
                None => false,
            }
        };
        if hit {
            out.push(saved[i].duplicate());
            proof {
                assert(spec_snapshot_matches(saved@.subrange(0, i + 1), lower_seq(query@))
                    =~= spec_snapshot_matches(pre, lower_seq(query@)).push(saved@[i as int]));
            }
        } else {
            proof {
                assert(spec_snapshot_matches(saved@.subrange(0, i + 1), lower_seq(query@))
                    =~= spec_snapshot_matches(pre, lower_seq(query@)));
            }
        }
        i = i + 1;
    }
    proof {
        assert(saved@.subrange(0, saved@.len() as int) =~= saved@);
    }
    Ok(out)
}

} // verus!
