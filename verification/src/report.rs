//! The uninstall report: one record of a scan-and-clean run, with
//! bytes-freed accounting, and its HTML rendering.

use vstd::prelude::*;
use crate::cleaner::CleanResult;
use crate::digits::{format_size, spec_dec, spec_format_size, u64_to_dec_string};
use crate::ids::generate_id;
use crate::text::{chars_to_string, contains_sub, ends_with_sub, has_substring, has_suffix,
    to_chars};
use crate::trace::Trace;

verus! {

/// One uninstall run's record.
#[derive(Debug, Clone)]
pub struct UninstallerReport {
    pub id: String,
    pub program_name: String,
    pub generated_at: String,
    pub traces_found: Vec<Trace>,
    pub traces_removed: Vec<CleanResult>,
    pub total_size_freed: u64,
    pub success: bool,
    pub warnings: Vec<String>,
}

/// Saturating sum of the bytes freed by a result list.
pub open spec fn spec_sat_sum(rs: Seq<CleanResult>) -> u64
    decreases rs.len(),
{
    if rs.len() == 0 {
        0u64
    } else {
        let s = spec_sat_sum(rs.drop_last());
        if s + rs.last().bytes_freed > u64::MAX {
            u64::MAX
        } else {
            (s + rs.last().bytes_freed) as u64
        }
    }
}

pub open spec fn spec_all_succeeded(rs: Seq<CleanResult>) -> bool {
    forall|i: int| 0 <= i < rs.len() ==> (#[trigger] rs[i]).success
}

impl UninstallerReport {
    /// A fresh, empty, successful report for a program, stamped with the
    /// given generation time.
    pub fn new(program_name: String, generated_at: String) -> (r: UninstallerReport)
        ensures
            r.id@.len() == 36,
            r.program_name == program_name,
            r.generated_at == generated_at,
            r.traces_found@.len() == 0,
            r.traces_removed@.len() == 0,
            r.total_size_freed == 0,
            r.success,
            r.warnings@.len() == 0,
    {
        UninstallerReport {
            id: generate_id(),
            program_name,
            generated_at,
            traces_found: Vec::new(),
            traces_removed: Vec::new(),
            total_size_freed: 0,
            success: true,
            warnings: Vec::new(),
        }
    }

    pub fn with_traces(self, traces: Vec<Trace>) -> (r: UninstallerReport)
        ensures
            r == (UninstallerReport { traces_found: traces, ..self }),
    {
        UninstallerReport { traces_found: traces, ..self }
    }

    /// Attach the clean results: the freed total is their saturating sum,
    /// and the run succeeded only if every removal did.
    pub fn with_results(self, results: Vec<CleanResult>) -> (r: UninstallerReport)
        ensures
            r.total_size_freed == spec_sat_sum(results@),
            r.success == spec_all_succeeded(results@),
            r.traces_removed == results,
            r.id == self.id,
            r.program_name == self.program_name,
            r.generated_at == self.generated_at,
            r.traces_found == self.traces_found,
            r.warnings == self.warnings,
    {
        let mut total: u64 = 0;
        let mut all_ok = true;
        let mut i: usize = 0;
        proof {
            assert(results@.subrange(0, 0) =~= Seq::<CleanResult>::empty());
        }
        while i < results.len()
            invariant
                i <= results@.len(),
                total == spec_sat_sum(results@.subrange(0, i as int)),
                all_ok == spec_all_succeeded(results@.subrange(0, i as int)),
            decreases results.len() - i,
        {
            proof {
                assert(results@.subrange(0, i + 1).drop_last() =~= results@.subrange(0, i as int));
                assert(results@.subrange(0, i + 1).last() == results@[i as int]);
                assert(spec_all_succeeded(results@.subrange(0, i + 1)) == (spec_all_succeeded(
                    results@.subrange(0, i as int),
                ) && results@[i as int].success));
            }
            let b = results[i].bytes_freed;
            if total > u64::MAX - b {
                total = u64::MAX;
            } else {
                total = total + b;
            }
            if !results[i].success {
                all_ok = false;
            }
            i = i + 1;
        }
        proof {
            assert(results@.subrange(0, results@.len() as int) =~= results@);
        }
        UninstallerReport {
            total_size_freed: total,
            success: all_ok,
            traces_removed: results,
            ..self
        }
    }

    pub fn add_warning(&mut self, warning: String)
        ensures
            final(self).warnings@ == old(self).warnings@.push(warning),
            final(self).id == old(self).id,
            final(self).program_name == old(self).program_name,
            final(self).generated_at == old(self).generated_at,
            final(self).traces_found == old(self).traces_found,
            final(self).traces_removed == old(self).traces_removed,
            final(self).total_size_freed == old(self).total_size_freed,
            final(self).success == old(self).success,
    {
        self.warnings.push(warning);
    }
}

/// HTML-escape the four reserved characters.
pub open spec fn escape_char(c: char) -> Seq<char> {
    if c == '&' {
        "&amp;"@
    } else if c == '<' {
        "&lt;"@
    } else if c == '>' {
        "&gt;"@
    } else if c == '"' {
        "&quot;"@
    } else {
        seq![c]
    }
}

pub open spec fn spec_escape_html(s: Seq<char>) -> Seq<char>
    decreases s.len(),
{
    if s.len() == 0 {
        Seq::empty()
    } else {
        spec_escape_html(s.drop_last()) + escape_char(s.last())
    }
}

/// Escape text for embedding in the report's HTML.
pub fn escape_html(s: &str) -> (r: String)
    ensures
        r@ == spec_escape_html(s@),
{
    let chars = to_chars(s);
    let mut out: Vec<char> = Vec::new();
    let mut i: usize = 0;
    proof {
        assert(chars@.subrange(0, 0) =~= Seq::<char>::empty());
    }
    while i < chars.len()
        invariant
            i <= chars@.len(),
            chars@ == s@,
            out@ == spec_escape_html(chars@.subrange(0, i as int)),
        decreases chars.len() - i,
    {
        let c = chars[i];
        proof {
            assert(chars@.subrange(0, i + 1).drop_last() =~= chars@.subrange(0, i as int));
            assert(chars@.subrange(0, i + 1).last() == c);
        }
        if c == '&' {
            let mut add = to_chars("&amp;");
            out.append(&mut add);
        } else if c == '<' {
            let mut add = to_chars("&lt;");
            out.append(&mut add);
        } else if c == '>' {
            let mut add = to_chars("&gt;");
            out.append(&mut add);
        } else if c == '"' {
            let mut add = to_chars("&quot;");
            out.append(&mut add);
        } else {
            out.push(c);
        }
        proof {
            assert(out@ =~= spec_escape_html(chars@.subrange(0, i + 1)));
        }
        i = i + 1;
    }
    proof {
        assert(chars@.subrange(0, chars@.len() as int) =~= chars@);
    }
    chars_to_string(&out)
}

/// The kind badge inferred from a result's path: registry prefixes, the
/// `.lnk` suffix and an app-data component are recognized in that order.
pub open spec fn spec_type_badge(path: Seq<char>) -> Seq<char> {
    if has_substring(path, "HKLM"@) || has_substring(path, "HKCU"@) || has_substring(
        path,
        "HKCR"@,
    ) {
        "<span class=\"type-badge\">registry</span>"@
    } else if has_suffix(path, ".lnk"@) {
        "<span class=\"type-badge\">shortcut</span>"@
    } else if has_substring(path, "AppData"@) {
        "<span class=\"type-badge\">app data</span>"@
    } else {
        "<span class=\"type-badge\">file</span>"@
    }
}

/// One table row of the removal details.
pub open spec fn spec_result_row(r: CleanResult) -> Seq<char> {
    let status = if r.success {
        "<span class=\"status success\">success</span>"@
    } else {
        "<span class=\"status failed\">failed</span>"@
    };
    let size = if r.bytes_freed > 0 {
        spec_format_size(r.bytes_freed)
    } else {
        "-"@
    };
    "<tr><td>"@ + status + "</td><td>"@ + spec_type_badge(r.path@) + "</td><td class=\"path\">"@
        + spec_escape_html(r.path@) + "</td><td>"@ + size + "</td></tr>"@
}

pub open spec fn spec_result_rows(rs: Seq<CleanResult>) -> Seq<char>
    decreases rs.len(),
{
    if rs.len() == 0 {
        Seq::empty()
    } else {
        spec_result_rows(rs.drop_last()) + spec_result_row(rs.last())
    }
}

/// The removal-details table, or a placeholder when nothing was removed.
pub open spec fn spec_results_table(rs: Seq<CleanResult>) -> Seq<char> {
    if rs.len() == 0 {
        "<p>no removal records</p>"@
    } else {
        "<h2 class=\"section-title\">removal details</h2><table><thead><tr><th>status</th><th>kind</th><th>path</th><th>space freed</th></tr></thead><tbody>"@
            + spec_result_rows(rs) + "</tbody></table>"@
    }
}

fn result_row(r: &CleanResult) -> (out: String)
    ensures
        out@ == spec_result_row(*r),
{
    let mut out = String::new();
    out.append("<tr><td>");
    if r.success {
        out.append("<span class=\"status success\">success</span>");
    } else {
        out.append("<span class=\"status failed\">failed</span>");
    }
    out.append("</td><td>");
    let path_chars = to_chars(r.path.as_str());
    if contains_sub(&path_chars, &to_chars("HKLM")) || contains_sub(&path_chars, &to_chars("HKCU"))
        || contains_sub(&path_chars, &to_chars("HKCR")) {
        out.append("<span class=\"type-badge\">registry</span>");
    } else if ends_with_sub(&path_chars, &to_chars(".lnk")) {
        out.append("<span class=\"type-badge\">shortcut</span>");
    } else if contains_sub(&path_chars, &to_chars("AppData")) {
        out.append("<span class=\"type-badge\">app data</span>");
    } else {
        out.append("<span class=\"type-badge\">file</span>");
    }
    out.append("</td><td class=\"path\">");
    out.append(escape_html(r.path.as_str()).as_str());
    out.append("</td><td>");
    if r.bytes_freed > 0 {
        out.append(format_size(r.bytes_freed).as_str());
    } else {
        out.append("-");
    }
    out.append("</td></tr>");
    out
}

/// Render the removal-details table of a report.
pub fn generate_results_table(results: &Vec<CleanResult>) -> (out: String)
    ensures
        out@ == spec_results_table(results@),
{
    if results.len() == 0 {
        let mut out = String::new();
        out.append("<p>no removal records</p>");
        return out;
    }
    let mut out = String::new();
    out.append(
        "<h2 class=\"section-title\">removal details</h2><table><thead><tr><th>status</th><th>kind</th><th>path</th><th>space freed</th></tr></thead><tbody>",
    );
    let mut i: usize = 0;
    let ghost header = out@;
    proof {
        assert(results@.subrange(0, 0) =~= Seq::<CleanResult>::empty());
        assert(out@ =~= header + spec_result_rows(results@.subrange(0, 0)));
    }
    while i < results.len()
        invariant
            i <= results@.len(),
            out@ == header + spec_result_rows(results@.subrange(0, i as int)),
        decreases results.len() - i,
    {
        proof {
            assert(results@.subrange(0, i + 1).drop_last() =~= results@.subrange(0, i as int));
            assert(results@.subrange(0, i + 1).last() == results@[i as int]);
        }
        out.append(result_row(&results[i]).as_str());
        proof {
            assert(out@ =~= header + spec_result_rows(results@.subrange(0, i + 1)));
        }
        i = i + 1;
    }
    out.append("</tbody></table>");
    proof {
        assert(results@.subrange(0, results@.len() as int) =~= results@);
        assert(out@ =~= spec_results_table(results@));
    }
    out
}

pub open spec fn spec_success_count(rs: Seq<CleanResult>) -> int
    decreases rs.len(),
{
    if rs.len() == 0 {
        0
    } else {
        spec_success_count(rs.drop_last()) + if rs.last().success {
            1int
        } else {
            0int
        }
    }
}

fn success_count(results: &Vec<CleanResult>) -> (n: u64)
    requires
        results@.len() <= u64::MAX,
    ensures
        n == spec_success_count(results@),
{
    let mut n: u64 = 0;
    let mut i: usize = 0;
    proof {
        assert(results@.subrange(0, 0) =~= Seq::<CleanResult>::empty());
    }
    while i < results.len()
        invariant
            i <= results@.len(),
            results@.len() <= u64::MAX,
            n == spec_success_count(results@.subrange(0, i as int)),
            n <= i,
        decreases results.len() - i,
    {
        proof {
            assert(results@.subrange(0, i + 1).drop_last() =~= results@.subrange(0, i as int));
            assert(results@.subrange(0, i + 1).last() == results@[i as int]);
        }
        if results[i].success {
            n = n + 1;
        }
        i = i + 1;
    }
    proof {
        assert(results@.subrange(0, results@.len() as int) =~= results@);
    }
    n
}

/// The whole report page.
pub open spec fn spec_report_html(r: UninstallerReport) -> Seq<char> {
    "<!DOCTYPE html><html><head><meta charset=\"utf-8\"><title>uninstall report - "@
        + spec_escape_html(r.program_name@) + "</title></head><body><h1>uninstall report</h1><p>program: "@
        + spec_escape_html(r.program_name@) + "</p><p>generated: "@ + spec_escape_html(
        r.generated_at@,
    ) + "</p><p>report id: "@ + spec_escape_html(r.id@) + "</p><p>traces found: "@ + spec_dec(
        r.traces_found@.len() as int,
    ) + "</p><p>removed: "@ + spec_dec(spec_success_count(r.traces_removed@))
        + "</p><p>failed: "@ + spec_dec(
        r.traces_removed@.len() - spec_success_count(r.traces_removed@),
    ) + "</p><p>space freed: "@ + spec_format_size(r.total_size_freed) + "</p>"@
        + spec_results_table(r.traces_removed@) + "</body></html>"@
}

/// Render a report as a standalone HTML page.
pub fn generate_html_report(report: &UninstallerReport) -> (r: Result<String, crate::error::UninstallerError>)
    ensures
        r matches Ok(html) && html@ == spec_report_html(*report),
{
    let mut out = String::new();
    out.append("<!DOCTYPE html><html><head><meta charset=\"utf-8\"><title>uninstall report - ");
    out.append(escape_html(report.program_name.as_str()).as_str());
    out.append("</title></head><body><h1>uninstall report</h1><p>program: ");
    out.append(escape_html(report.program_name.as_str()).as_str());
    out.append("</p><p>generated: ");
    out.append(escape_html(report.generated_at.as_str()).as_str());
    out.append("</p><p>report id: ");
    out.append(escape_html(report.id.as_str()).as_str());
    out.append("</p><p>traces found: ");
    out.append(u64_to_dec_string(report.traces_found.len() as u64).as_str());
    out.append("</p><p>removed: ");
    let total_n: usize = report.traces_removed.len();
    proof {
        assert(report.traces_removed@.len() == total_n as int);
    }
    let ok_count = success_count(&report.traces_removed);
    out.append(u64_to_dec_string(ok_count).as_str());
    out.append("</p><p>failed: ");
    proof {
        lemma_success_count_le(report.traces_removed@);
    }
    let failed: u64 = (report.traces_removed.len() as u64) - ok_count;
    out.append(u64_to_dec_string(failed).as_str());
    out.append("</p><p>space freed: ");
    out.append(format_size(report.total_size_freed).as_str());
    out.append("</p>");
    out.append(generate_results_table(&report.traces_removed).as_str());
    out.append("</body></html>");
    Ok(out)
}

proof fn lemma_success_count_le(rs: Seq<CleanResult>)
    ensures
        0 <= spec_success_count(rs) <= rs.len(),
    decreases rs.len(),
{
    if rs.len() > 0 {
        lemma_success_count_le(rs.drop_last());
    }
}

} // verus!
