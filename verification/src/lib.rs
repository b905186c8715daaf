//! Engine for discovering and safely removing the leftover artifacts of an
//! uninstalled program: trace scanners, a confidence/criticality pass, a
//! cleaner with per-trace accounting, a program lister with metadata
//! enrichment, and a schema-versioned, TTL-bounded persisted scan cache.
//!
//! Everything here is pure decision logic over plain values; the surrounding
//! binary performs the actual registry, filesystem and database work and
//! feeds the results in.

pub mod cleaner;
pub mod dates;
pub mod digits;
pub mod error;
pub mod fuzzy;
pub mod ids;
pub mod lister;
pub mod paths;
pub mod report;
pub mod safety;
pub mod scanner;
pub mod shell;
pub mod text;
pub mod trace;
