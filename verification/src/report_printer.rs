//! The report: every gap of every package, sorted, and a summary.
use vstd::prelude::*;
use crate::console::emit_line;
use crate::analysis_report::AnalysisReport;
use crate::missing_test_gap::MissingTestGap;
use crate::gap_order::{gaps_sorted, sort_gaps, gap_before, lemma_gap_before_asymmetric};
use crate::order::lemma_lex_total;
use crate::text::{decimal_spec, push_decimal, push_str, string_of};

verus! {

/// The gaps of all the reports, report after report.
pub open spec fn all_missing(reports: Seq<AnalysisReport>) -> Seq<MissingTestGap>
    decreases reports.len(),
{
    if reports.len() == 0 {
        Seq::empty()
    } else {
        all_missing(reports.drop_last()) + reports.last().missing@
    }
}

/// How many of the reports have at least one gap.
pub open spec fn packages_with_gaps(reports: Seq<AnalysisReport>) -> nat
    decreases reports.len(),
{
    if reports.len() == 0 {
        0
    } else {
        packages_with_gaps(reports.drop_last()) + if reports.last().missing@.len() > 0 {
            1nat
        } else {
            0nat
        }
    }
}

/// The line that reports one gap.
pub open spec fn gap_line(gap: MissingTestGap) -> Seq<char> {
    "- "@ + gap.package_name@ + ": "@ + gap.relative_source_file@ + " -> "@
        + gap.expected_test_file@
}

/// The closing summary line.
pub open spec fn summary_line(with_gaps: nat, missing: nat) -> Seq<char> {
    "summary: packages_with_gaps="@ + decimal_spec(with_gaps) + " missing_files="@ + decimal_spec(
        missing,
    )
}

/// The lines of the report for `reports`, given the gaps in the order they
/// are listed.
pub open spec fn report_text(reports: Seq<AnalysisReport>, listed: Seq<MissingTestGap>) -> Seq<
    Seq<char>,
> {
    if all_missing(reports).len() == 0 {
        seq!["twin4rust report"@, ""@, "All mirrored test-gap expectations are satisfied."@]
    } else {
        seq!["twin4rust report"@, ""@, "Files without a matching mirrored test file:"@]
            + listed.map_values(|gap: MissingTestGap| gap_line(gap)) + seq![
            ""@,
            summary_line(packages_with_gaps(reports), all_missing(reports).len()),
        ]
    }
}

/// Gaps neither of which comes before the other read the same.
proof fn lemma_ties_read_the_same(x: MissingTestGap, y: MissingTestGap)
    requires
        !gap_before(x, y, true),
        !gap_before(y, x, true),
    ensures
        gap_line(x) == gap_line(y),
{
    lemma_lex_total(x.package_name@, y.package_name@);
    lemma_lex_total(x.relative_source_file@, y.relative_source_file@);
    lemma_lex_total(x.expected_test_file@, y.expected_test_file@);
}

/// Two sorted listings of the same gaps read the same, line for line.
proof fn lemma_sorted_listings_read_the_same(a: Seq<MissingTestGap>, b: Seq<MissingTestGap>)
    requires
        a.to_multiset() == b.to_multiset(),
        gaps_sorted(a, true),
        gaps_sorted(b, true),
    ensures
        a.map_values(|g: MissingTestGap| gap_line(g)) == b.map_values(
            |g: MissingTestGap| gap_line(g),
        ),
    decreases a.len(),
{
    broadcast use vstd::seq_lib::group_to_multiset_ensures;

    assert(a.len() == b.len()) by {
        vstd::seq_lib::to_multiset_len(a);
        vstd::seq_lib::to_multiset_len(b);
    }
    if a.len() == 0 {
        assert(a.map_values(|g: MissingTestGap| gap_line(g)) =~= b.map_values(
            |g: MissingTestGap| gap_line(g),
        ));
    } else {
        let x = a[0];
        assert(a.contains(x));
        assert(b.to_multiset().count(x) > 0);
        assert(b.contains(x));
        let j = choose|j: int| 0 <= j < b.len() && b[j] == x;
        // Every gap of `b` up to `x` ties with `x`: none comes before `x`,
        // the first of `a`, and `x` comes before none of them in `b`.
        assert forall|k: int| 0 <= k <= j implies gap_line(#[trigger] b[k]) == gap_line(x) by {
            assert(b.contains(b[k]));
            assert(a.to_multiset().count(b[k]) > 0);
            assert(a.contains(b[k]));
            let i = choose|i: int| 0 <= i < a.len() && a[i] == b[k];
            if i > 0 {
                assert(!gap_before(a[i], a[0], true));
            } else {
                lemma_gap_before_asymmetric(x, x, true);
            }
            if k < j {
                assert(!gap_before(b[j], b[k], true));
            } else {
                lemma_gap_before_asymmetric(x, x, true);
            }
            lemma_ties_read_the_same(b[k], x);
        }
        let rest_a = a.drop_first();
        let rest_b = b.remove(j);
        assert(rest_a =~= a.remove(0));
        assert(rest_a.to_multiset() == rest_b.to_multiset());
        assert(gaps_sorted(rest_a, true)) by {
            assert forall|p: int, q: int| 0 <= p < q < rest_a.len() implies !gap_before(
                #[trigger] rest_a[q],
                #[trigger] rest_a[p],
                true,
            ) by {
                assert(rest_a[p] == a[p + 1] && rest_a[q] == a[q + 1]);
            }
        }
        assert(gaps_sorted(rest_b, true)) by {
            assert forall|p: int, q: int| 0 <= p < q < rest_b.len() implies !gap_before(
                #[trigger] rest_b[q],
                #[trigger] rest_b[p],
                true,
            ) by {
                let p2 = if p < j { p } else { p + 1 };
                let q2 = if q < j { q } else { q + 1 };
                assert(rest_b[p] == b[p2] && rest_b[q] == b[q2]);
            }
        }
        lemma_sorted_listings_read_the_same(rest_a, rest_b);
        let la = a.map_values(|g: MissingTestGap| gap_line(g));
        let lb = b.map_values(|g: MissingTestGap| gap_line(g));
        let ra = rest_a.map_values(|g: MissingTestGap| gap_line(g));
        let rb = rest_b.map_values(|g: MissingTestGap| gap_line(g));
        assert forall|k: int| 0 <= k < la.len() implies la[k] == lb[k] by {
            if k == 0 {
                assert(gap_line(b[0]) == gap_line(x));
            } else if k <= j {
                assert(la[k] == ra[k - 1]);
                assert(ra[k - 1] == rb[k - 1]);
                assert(rb[k - 1] == gap_line(rest_b[k - 1]));
                assert(rest_b[k - 1] == b[k - 1]);
                assert(gap_line(b[k - 1]) == gap_line(x));
                assert(gap_line(b[k]) == gap_line(x));
            } else {
                assert(la[k] == ra[k - 1]);
                assert(rest_b[k - 1] == b[k]);
            }
        }
        assert(la =~= lb);
    }
}

/// The report does not depend on the order in which the gaps came: any two
/// listings of the same gaps in the report's order make the same lines, so
/// that the output is stable from run to run and can be compared.
pub proof fn report_is_stable(
    reports: Seq<AnalysisReport>,
    a: Seq<MissingTestGap>,
    b: Seq<MissingTestGap>,
)
    requires
        a.to_multiset() == all_missing(reports).to_multiset(),
        b.to_multiset() == all_missing(reports).to_multiset(),
        gaps_sorted(a, true),
        gaps_sorted(b, true),
    ensures
        report_text(reports, a) == report_text(reports, b),
{
    lemma_sorted_listings_read_the_same(a, b);
}

#[derive(Default)]
pub struct ReportPrinter;

impl ReportPrinter {
    pub fn new() -> Self {
        ReportPrinter
    }

    /// Prints the report for `reports` to standard output.
    pub fn print(&self, reports: &[AnalysisReport]) {
        let lines = self.report_lines(reports);
        let mut i: usize = 0;
        while i < lines.len()
            invariant
                i <= lines.len(),
            decreases lines.len() - i,
        {
            emit_line(lines[i].as_str());
            i = i + 1;
        }
    }

    /// The lines of the report: a heading, then either the statement that
    /// nothing is missing, or every gap of every package in sorted order
    /// followed by a summary of how many packages have gaps and how many
    /// files are missing.
    pub fn report_lines(&self, reports: &[AnalysisReport]) -> (r: Vec<String>)
        ensures
            exists|listed: Seq<MissingTestGap>|
                listed.to_multiset() == all_missing(reports@).to_multiset() && gaps_sorted(
                    listed,
                    true,
                ) && r@.map_values(|s: String| s@) == report_text(reports@, listed),
    {
        let missing = self.collect_missing(reports);
        let mut lines: Vec<String> = Vec::new();
        lines.push(string_of(crate::text::chars_of("twin4rust report").as_slice()));
        lines.push(string_of(crate::text::chars_of("").as_slice()));
        if missing.len() == 0 {
            lines.push(
                string_of(
                    crate::text::chars_of(
                        "All mirrored test-gap expectations are satisfied.",
                    ).as_slice(),
                ),
            );
            proof {
                let listed = all_missing(reports@);
                assert(lines@.map_values(|s: String| s@) =~= report_text(reports@, listed));
                assert(gaps_sorted(listed, true));
                assert(listed.to_multiset() == all_missing(reports@).to_multiset());
            }
            return lines;
        }
        lines.push(
            string_of(
                crate::text::chars_of("Files without a matching mirrored test file:").as_slice(),
            ),
        );
        let sorted = self.sorted(missing.as_slice());
        let ghost head = lines@.map_values(|s: String| s@);
        assert(head =~= seq![
            "twin4rust report"@,
            ""@,
            "Files without a matching mirrored test file:"@,
        ]);
        let mut i: usize = 0;
        while i < sorted.len()
            invariant
                i <= sorted.len(),
                lines@.len() == 3 + i,
                lines@.map_values(|s: String| s@) == head + sorted@.take(i as int).map_values(
                    |gap: MissingTestGap| gap_line(gap),
                ),
            decreases sorted.len() - i,
        {
            let gap = &sorted[i];
            let mut line: Vec<char> = Vec::new();
            push_str(&mut line, "- ");
            push_str(&mut line, gap.package_name.as_str());
            push_str(&mut line, ": ");
            push_str(&mut line, gap.relative_source_file.as_str());
            push_str(&mut line, " -> ");
            push_str(&mut line, gap.expected_test_file.as_str());
            let ghost before = lines@.map_values(|s: String| s@);
            let text = string_of(line.as_slice());
            lines.push(text);
            proof {
                assert(line@ =~= gap_line(*gap));
                assert(lines@.map_values(|s: String| s@) =~= before.push(gap_line(*gap)));
                assert(sorted@.take(i + 1) =~= sorted@.take(i as int).push(*gap));
                assert(sorted@.take(i + 1).map_values(|gap: MissingTestGap| gap_line(gap))
                    =~= sorted@.take(i as int).map_values(|gap: MissingTestGap| gap_line(gap)).push(
                    gap_line(*gap),
                ));
            }
            i = i + 1;
        }
        let ghost listed_lines = lines@.map_values(|s: String| s@);
        lines.push(string_of(crate::text::chars_of("").as_slice()));
        let with_gaps = Self::count_with_gaps(reports);
        let mut summary: Vec<char> = Vec::new();
        push_str(&mut summary, "summary: packages_with_gaps=");
        push_decimal(&mut summary, with_gaps as u64);
        push_str(&mut summary, " missing_files=");
        push_decimal(&mut summary, missing.len() as u64);
        lines.push(string_of(summary.as_slice()));
        proof {
            assert(sorted@.take(sorted@.len() as int) =~= sorted@);
            assert(summary@ =~= summary_line(packages_with_gaps(reports@), missing@.len()));
            assert(lines@.map_values(|s: String| s@) =~= listed_lines.push(""@).push(
                summary_line(packages_with_gaps(reports@), missing@.len()),
            ));
            assert(lines@.map_values(|s: String| s@) =~= report_text(reports@, sorted@));
            assert(gaps_sorted(sorted@, true));
        }
        lines
    }

    fn count_with_gaps(reports: &[AnalysisReport]) -> (n: usize)
        ensures
            n == packages_with_gaps(reports@),
    {
        let mut n: usize = 0;
        let mut i: usize = 0;
        while i < reports.len()
            invariant
                i <= reports.len(),
                n <= i,
                n == packages_with_gaps(reports@.take(i as int)),
            decreases reports.len() - i,
        {
            proof {
                assert(reports@.take(i + 1).drop_last() =~= reports@.take(i as int));
            }
            if !reports[i].is_empty() {
                n = n + 1;
            }
            i = i + 1;
        }
        assert(reports@.take(i as int) =~= reports@);
        n
    }

    /// Every gap of every report, report after report.
    fn collect_missing(&self, reports: &[AnalysisReport]) -> (r: Vec<MissingTestGap>)
        ensures
            r@ == all_missing(reports@),
    {
        let mut r: Vec<MissingTestGap> = Vec::new();
        let mut i: usize = 0;
        while i < reports.len()
            invariant
                i <= reports.len(),
                r@ == all_missing(reports@.take(i as int)),
            decreases reports.len() - i,
        {
            let report = &reports[i];
            let ghost before = r@;
            let mut j: usize = 0;
            while j < report.missing.len()
                invariant
                    j <= report.missing.len(),
                    r@ == before + report.missing@.take(j as int),
                decreases report.missing.len() - j,
            {
                r.push(report.missing[j].duplicate());
                assert(report.missing@.take(j + 1) =~= report.missing@.take(j as int).push(
                    report.missing@[j as int],
                ));
                j = j + 1;
            }
            proof {
                assert(report.missing@.take(j as int) =~= report.missing@);
                assert(reports@.take(i + 1).drop_last() =~= reports@.take(i as int));
            }
            i = i + 1;
        }
        assert(reports@.take(i as int) =~= reports@);
        r
    }

    /// The gaps sorted by package, source file and expected test file.
    fn sorted(&self, missing: &[MissingTestGap]) -> (r: Vec<MissingTestGap>)
        ensures
            r@.to_multiset() == missing@.to_multiset(),
            gaps_sorted(r@, true),
    {
        let mut copy: Vec<MissingTestGap> = Vec::new();
        let mut i: usize = 0;
        while i < missing.len()
            invariant
                i <= missing.len(),
                copy@ == missing@.take(i as int),
            decreases missing.len() - i,
        {
            copy.push(missing[i].duplicate());
            assert(missing@.take(i + 1) =~= missing@.take(i as int).push(missing@[i as int]));
            i = i + 1;
        }
        assert(missing@.take(i as int) =~= missing@);
        sort_gaps(copy, true)
    }
}

} // verus!
