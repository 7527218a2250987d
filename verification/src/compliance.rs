//! Compliance matrices: one entry per requirement, summary statistics, gap
//! analysis with recommendations, and CSV / Markdown / HTML renderings.
use vstd::prelude::*;
use crate::analyzer::{
    ComplianceStatus, Requirement, RequirementCategory, RequirementPriority, RfpAnalysis,
};
use crate::text::{decimal, html_escaped, opt_or, replace_all, spec_lowercase};
use vstd::utf8::{decode_utf8, encode_utf8, is_char_boundary};

verus! {

/// A compliance matrix entry linking a requirement to the response.
pub struct ComplianceEntry {
    pub requirement_id: String,
    pub requirement_text: String,
    pub category: RequirementCategory,
    pub priority: RequirementPriority,
    pub status: ComplianceStatus,
    pub response_section: Option<String>,
    pub response_page: Option<u32>,
    pub response_summary: Option<String>,
    pub evidence: Option<String>,
    pub reviewer: Option<String>,
    pub review_date: Option<String>,
    pub comments: Option<String>,
}

/// Requirements of one category and how many of them are compliant.
#[derive(Clone, Copy)]
pub struct CategorySummary {
    pub category: RequirementCategory,
    pub total: usize,
    pub compliant: usize,
}

/// Requirements of one priority and how many of them are compliant.
#[derive(Clone, Copy)]
pub struct PrioritySummary {
    pub priority: RequirementPriority,
    pub total: usize,
    pub compliant: usize,
}

/// Summary statistics of a compliance matrix, as counts. The percentages of
/// a summary are floating-point ratios of these counts, computed and held
/// outside the library.
pub struct ComplianceSummary {
    pub total_requirements: usize,
    pub compliant: usize,
    pub partially_compliant: usize,
    pub non_compliant: usize,
    pub not_started: usize,
    pub in_progress: usize,
    pub not_applicable: usize,
    pub by_category: Vec<CategorySummary>,
    pub by_priority: Vec<PrioritySummary>,
}

/// A complete compliance matrix.
pub struct ComplianceMatrix {
    pub project_name: String,
    pub rfp_name: String,
    pub created_at: String,
    pub updated_at: String,
    pub entries: Vec<ComplianceEntry>,
    pub summary: ComplianceSummary,
}

// ---- Counting -------------------------------------------------------------

pub open spec fn count_status(es: Seq<ComplianceEntry>, s: ComplianceStatus) -> nat
    decreases es.len(),
{
    if es.len() == 0 {
        0
    } else {
        count_status(es.drop_last(), s) + if es.last().status == s {
            1nat
        } else {
            0nat
        }
    }
}

/// Entries of category `c` (only the compliant ones when `compliant_only`).
pub open spec fn count_category(es: Seq<ComplianceEntry>, c: RequirementCategory, compliant_only: bool) -> nat
    decreases es.len(),
{
    if es.len() == 0 {
        0
    } else {
        count_category(es.drop_last(), c, compliant_only) + if es.last().category == c && (
        !compliant_only || es.last().status == ComplianceStatus::Compliant) {
            1nat
        } else {
            0nat
        }
    }
}

/// Entries of priority `p` (only the compliant ones when `compliant_only`).
pub open spec fn count_priority(es: Seq<ComplianceEntry>, p: RequirementPriority, compliant_only: bool) -> nat
    decreases es.len(),
{
    if es.len() == 0 {
        0
    } else {
        count_priority(es.drop_last(), p, compliant_only) + if es.last().priority == p && (
        !compliant_only || es.last().status == ComplianceStatus::Compliant) {
            1nat
        } else {
            0nat
        }
    }
}

/// Every category, in the order the summary lists them.
pub open spec fn all_categories() -> Seq<RequirementCategory> {
    seq![
        RequirementCategory::Technical,
        RequirementCategory::Management,
        RequirementCategory::Financial,
        RequirementCategory::Legal,
        RequirementCategory::Staffing,
        RequirementCategory::Timeline,
        RequirementCategory::Deliverable,
        RequirementCategory::Qualification,
        RequirementCategory::Experience,
        RequirementCategory::Security,
        RequirementCategory::Other,
    ]
}

/// Every priority, in the order the summary lists them.
pub open spec fn all_priorities() -> Seq<RequirementPriority> {
    seq![
        RequirementPriority::Critical,
        RequirementPriority::High,
        RequirementPriority::Medium,
        RequirementPriority::Low,
    ]
}

/// One line per category of `cats` that has entries.
pub open spec fn category_breakdown(es: Seq<ComplianceEntry>, cats: Seq<RequirementCategory>) -> Seq<CategorySummary>
    decreases cats.len(),
{
    if cats.len() == 0 {
        seq![]
    } else {
        category_breakdown(es, cats.drop_last()) + if count_category(es, cats.last(), false) > 0 {
            seq![
                CategorySummary {
                    category: cats.last(),
                    total: count_category(es, cats.last(), false) as usize,
                    compliant: count_category(es, cats.last(), true) as usize,
                },
            ]
        } else {
            seq![]
        }
    }
}

/// One line per priority of `ps` that has entries.
pub open spec fn priority_breakdown(es: Seq<ComplianceEntry>, ps: Seq<RequirementPriority>) -> Seq<PrioritySummary>
    decreases ps.len(),
{
    if ps.len() == 0 {
        seq![]
    } else {
        priority_breakdown(es, ps.drop_last()) + if count_priority(es, ps.last(), false) > 0 {
            seq![
                PrioritySummary {
                    priority: ps.last(),
                    total: count_priority(es, ps.last(), false) as usize,
                    compliant: count_priority(es, ps.last(), true) as usize,
                },
            ]
        } else {
            seq![]
        }
    }
}

/// `s` holds the statistics of `es`.
pub open spec fn summary_of(s: ComplianceSummary, es: Seq<ComplianceEntry>) -> bool {
    &&& s.total_requirements == es.len()
    &&& s.compliant == count_status(es, ComplianceStatus::Compliant)
    &&& s.partially_compliant == count_status(es, ComplianceStatus::PartiallyCompliant)
    &&& s.non_compliant == count_status(es, ComplianceStatus::NonCompliant)
    &&& s.not_started == count_status(es, ComplianceStatus::NotStarted)
    &&& s.in_progress == count_status(es, ComplianceStatus::InProgress)
    &&& s.not_applicable == count_status(es, ComplianceStatus::NotApplicable)
    &&& s.by_category@ == category_breakdown(es, all_categories())
    &&& s.by_priority@ == priority_breakdown(es, all_priorities())
}

proof fn lemma_counts_bounded(es: Seq<ComplianceEntry>)
    ensures
        forall|s: ComplianceStatus| #[trigger] count_status(es, s) <= es.len(),
        forall|c: RequirementCategory, b: bool| #[trigger] count_category(es, c, b) <= es.len(),
        forall|p: RequirementPriority, b: bool| #[trigger] count_priority(es, p, b) <= es.len(),
    decreases es.len(),
{
    if es.len() > 0 {
        lemma_counts_bounded(es.drop_last());
        assert forall|s: ComplianceStatus| #[trigger] count_status(es, s) <= es.len() by {
            assert(count_status(es.drop_last(), s) <= es.drop_last().len());
        }
        assert forall|c: RequirementCategory, b: bool| #[trigger] count_category(es, c, b) <= es.len() by {
            assert(count_category(es.drop_last(), c, b) <= es.drop_last().len());
        }
        assert forall|p: RequirementPriority, b: bool| #[trigger] count_priority(es, p, b) <= es.len() by {
            assert(count_priority(es.drop_last(), p, b) <= es.drop_last().len());
        }
    }
}

fn category_at(i: usize) -> (c: RequirementCategory)
    requires
        i < 11,
    ensures
        c == all_categories()[i as int],
{
    if i == 0 { RequirementCategory::Technical }
    else if i == 1 { RequirementCategory::Management }
    else if i == 2 { RequirementCategory::Financial }
    else if i == 3 { RequirementCategory::Legal }
    else if i == 4 { RequirementCategory::Staffing }
    else if i == 5 { RequirementCategory::Timeline }
    else if i == 6 { RequirementCategory::Deliverable }
    else if i == 7 { RequirementCategory::Qualification }
    else if i == 8 { RequirementCategory::Experience }
    else if i == 9 { RequirementCategory::Security }
    else { RequirementCategory::Other }
}

fn priority_at(i: usize) -> (p: RequirementPriority)
    requires
        i < 4,
    ensures
        p == all_priorities()[i as int],
{
    if i == 0 { RequirementPriority::Critical }
    else if i == 1 { RequirementPriority::High }
    else if i == 2 { RequirementPriority::Medium }
    else { RequirementPriority::Low }
}

/// Number of entries with the given status.
pub fn count_with_status(entries: &Vec<ComplianceEntry>, s: ComplianceStatus) -> (n: usize)
    ensures
        n == count_status(entries@, s),
{
    let mut n: usize = 0;
    let mut i: usize = 0;
    while i < entries.len()
        invariant
            i <= entries.len(),
            n == count_status(entries@.take(i as int), s),
        decreases entries.len() - i,
    {
        proof {
            assert(entries@.take(i + 1).drop_last() == entries@.take(i as int));
            lemma_counts_bounded(entries@.take(i as int));
        }
        if entries[i].status == s {
            n = n + 1;
        }
        i = i + 1;
    }
    assert(entries@.take(entries.len() as int) == entries@);
    n
}

fn count_with_category(entries: &Vec<ComplianceEntry>, c: RequirementCategory, compliant_only: bool) -> (n: usize)
    ensures
        n == count_category(entries@, c, compliant_only),
{
    let mut n: usize = 0;
    let mut i: usize = 0;
    while i < entries.len()
        invariant
            i <= entries.len(),
            n == count_category(entries@.take(i as int), c, compliant_only),
        decreases entries.len() - i,
    {
        proof {
            assert(entries@.take(i + 1).drop_last() == entries@.take(i as int));
            lemma_counts_bounded(entries@.take(i as int));
        }
        if entries[i].category == c && (!compliant_only || entries[i].status
            == ComplianceStatus::Compliant) {
            n = n + 1;
        }
        i = i + 1;
    }
    assert(entries@.take(entries.len() as int) == entries@);
    n
}

fn count_with_priority(entries: &Vec<ComplianceEntry>, p: RequirementPriority, compliant_only: bool) -> (n: usize)
    ensures
        n == count_priority(entries@, p, compliant_only),
{
    let mut n: usize = 0;
    let mut i: usize = 0;
    while i < entries.len()
        invariant
            i <= entries.len(),
            n == count_priority(entries@.take(i as int), p, compliant_only),
        decreases entries.len() - i,
    {
        proof {
            assert(entries@.take(i + 1).drop_last() == entries@.take(i as int));
            lemma_counts_bounded(entries@.take(i as int));
        }
        if entries[i].priority == p && (!compliant_only || entries[i].status
            == ComplianceStatus::Compliant) {
            n = n + 1;
        }
        i = i + 1;
    }
    assert(entries@.take(entries.len() as int) == entries@);
    n
}

/// Counts the entries by status, by category and by priority.
pub fn calculate_summary(entries: &Vec<ComplianceEntry>) -> (s: ComplianceSummary)
    ensures
        summary_of(s, entries@),
{
    let mut by_category: Vec<CategorySummary> = Vec::new();
    let mut i: usize = 0;
    while i < 11
        invariant
            i <= 11,
            by_category@ == category_breakdown(entries@, all_categories().take(i as int)),
        decreases 11 - i,
    {
        let c = category_at(i);
        proof {
            assert(all_categories().take(i + 1).drop_last() == all_categories().take(i as int));
            assert(all_categories().take(i + 1).last() == c);
        }
        let total = count_with_category(entries, c, false);
        if total > 0 {
            let compliant = count_with_category(entries, c, true);
            by_category.push(CategorySummary { category: c, total, compliant });
        } else {
            assert(by_category@ == by_category@ + Seq::<CategorySummary>::empty());
        }
        i = i + 1;
    }
    assert(all_categories().take(11) == all_categories());
    let mut by_priority: Vec<PrioritySummary> = Vec::new();
    let mut i: usize = 0;
    while i < 4
        invariant
            i <= 4,
            by_priority@ == priority_breakdown(entries@, all_priorities().take(i as int)),
        decreases 4 - i,
    {
        let p = priority_at(i);
        proof {
            assert(all_priorities().take(i + 1).drop_last() == all_priorities().take(i as int));
            assert(all_priorities().take(i + 1).last() == p);
        }
        let total = count_with_priority(entries, p, false);
        if total > 0 {
            let compliant = count_with_priority(entries, p, true);
            by_priority.push(PrioritySummary { priority: p, total, compliant });
        } else {
            assert(by_priority@ == by_priority@ + Seq::<PrioritySummary>::empty());
        }
        i = i + 1;
    }
    assert(all_priorities().take(4) == all_priorities());
    ComplianceSummary {
        total_requirements: entries.len(),
        compliant: count_with_status(entries, ComplianceStatus::Compliant),
        partially_compliant: count_with_status(entries, ComplianceStatus::PartiallyCompliant),
        non_compliant: count_with_status(entries, ComplianceStatus::NonCompliant),
        not_started: count_with_status(entries, ComplianceStatus::NotStarted),
        in_progress: count_with_status(entries, ComplianceStatus::InProgress),
        not_applicable: count_with_status(entries, ComplianceStatus::NotApplicable),
        by_category,
        by_priority,
    }
}

// ---- Laws of the summary --------------------------------------------------

pub open spec fn sum_category_totals(cs: Seq<CategorySummary>) -> nat
    decreases cs.len(),
{
    if cs.len() == 0 {
        0
    } else {
        sum_category_totals(cs.drop_last()) + cs.last().total as nat
    }
}

pub open spec fn sum_priority_totals(ps: Seq<PrioritySummary>) -> nat
    decreases ps.len(),
{
    if ps.len() == 0 {
        0
    } else {
        sum_priority_totals(ps.drop_last()) + ps.last().total as nat
    }
}

pub open spec fn sum_category_counts(es: Seq<ComplianceEntry>, cats: Seq<RequirementCategory>) -> nat
    decreases cats.len(),
{
    if cats.len() == 0 {
        0
    } else {
        sum_category_counts(es, cats.drop_last()) + count_category(es, cats.last(), false)
    }
}

pub open spec fn sum_priority_counts(es: Seq<ComplianceEntry>, ps: Seq<RequirementPriority>) -> nat
    decreases ps.len(),
{
    if ps.len() == 0 {
        0
    } else {
        sum_priority_counts(es, ps.drop_last()) + count_priority(es, ps.last(), false)
    }
}

proof fn lemma_category_breakdown_sum(es: Seq<ComplianceEntry>, cats: Seq<RequirementCategory>)
    requires
        es.len() <= usize::MAX,
    ensures
        sum_category_totals(category_breakdown(es, cats)) == sum_category_counts(es, cats),
    decreases cats.len(),
{
    lemma_counts_bounded(es);
    if cats.len() > 0 {
        lemma_category_breakdown_sum(es, cats.drop_last());
        let b = category_breakdown(es, cats.drop_last());
        if count_category(es, cats.last(), false) > 0 {
            let line = CategorySummary {
                category: cats.last(),
                total: count_category(es, cats.last(), false) as usize,
                compliant: count_category(es, cats.last(), true) as usize,
            };
            assert((b + seq![line]).drop_last() == b);
            assert((b + seq![line]).last() == line);
        } else {
            assert(b + Seq::<CategorySummary>::empty() == b);
        }
    }
}

proof fn lemma_priority_breakdown_sum(es: Seq<ComplianceEntry>, ps: Seq<RequirementPriority>)
    requires
        es.len() <= usize::MAX,
    ensures
        sum_priority_totals(priority_breakdown(es, ps)) == sum_priority_counts(es, ps),
    decreases ps.len(),
{
    lemma_counts_bounded(es);
    if ps.len() > 0 {
        lemma_priority_breakdown_sum(es, ps.drop_last());
        let b = priority_breakdown(es, ps.drop_last());
        if count_priority(es, ps.last(), false) > 0 {
            let line = PrioritySummary {
                priority: ps.last(),
                total: count_priority(es, ps.last(), false) as usize,
                compliant: count_priority(es, ps.last(), true) as usize,
            };
            assert((b + seq![line]).drop_last() == b);
            assert((b + seq![line]).last() == line);
        } else {
            assert(b + Seq::<PrioritySummary>::empty() == b);
        }
    }
}

/// How often `c` occurs in `cats`.
spec fn occurrences_cat(cats: Seq<RequirementCategory>, c: RequirementCategory) -> nat
    decreases cats.len(),
{
    if cats.len() == 0 {
        0
    } else {
        occurrences_cat(cats.drop_last(), c) + if cats.last() == c {
            1nat
        } else {
            0nat
        }
    }
}

spec fn occurrences_pri(ps: Seq<RequirementPriority>, p: RequirementPriority) -> nat
    decreases ps.len(),
{
    if ps.len() == 0 {
        0
    } else {
        occurrences_pri(ps.drop_last(), p) + if ps.last() == p {
            1nat
        } else {
            0nat
        }
    }
}

proof fn lemma_sum_category_step(es: Seq<ComplianceEntry>, cats: Seq<RequirementCategory>)
    requires
        es.len() > 0,
    ensures
        sum_category_counts(es, cats) == sum_category_counts(es.drop_last(), cats)
            + occurrences_cat(cats, es.last().category),
    decreases cats.len(),
{
    if cats.len() > 0 {
        lemma_sum_category_step(es, cats.drop_last());
    }
}

proof fn lemma_sum_priority_step(es: Seq<ComplianceEntry>, ps: Seq<RequirementPriority>)
    requires
        es.len() > 0,
    ensures
        sum_priority_counts(es, ps) == sum_priority_counts(es.drop_last(), ps) + occurrences_pri(
            ps,
            es.last().priority,
        ),
    decreases ps.len(),
{
    if ps.len() > 0 {
        lemma_sum_priority_step(es, ps.drop_last());
    }
}

proof fn lemma_each_category_listed_once(c: RequirementCategory)
    ensures
        occurrences_cat(all_categories(), c) == 1,
{
    reveal_with_fuel(occurrences_cat, 12);
}

proof fn lemma_each_priority_listed_once(p: RequirementPriority)
    ensures
        occurrences_pri(all_priorities(), p) == 1,
{
    reveal_with_fuel(occurrences_pri, 5);
}

proof fn lemma_every_entry_counted_once(es: Seq<ComplianceEntry>)
    ensures
        sum_category_counts(es, all_categories()) == es.len(),
        sum_priority_counts(es, all_priorities()) == es.len(),
        count_status(es, ComplianceStatus::Compliant) + count_status(
            es,
            ComplianceStatus::PartiallyCompliant,
        ) + count_status(es, ComplianceStatus::NonCompliant) + count_status(
            es,
            ComplianceStatus::NotStarted,
        ) + count_status(es, ComplianceStatus::InProgress) + count_status(
            es,
            ComplianceStatus::NotApplicable,
        ) == es.len(),
    decreases es.len(),
{
    if es.len() == 0 {
        reveal_with_fuel(sum_category_counts, 12);
        reveal_with_fuel(sum_priority_counts, 5);
    } else {
        lemma_every_entry_counted_once(es.drop_last());
        lemma_sum_category_step(es, all_categories());
        lemma_sum_priority_step(es, all_priorities());
        lemma_each_category_listed_once(es.last().category);
        lemma_each_priority_listed_once(es.last().priority);
    }
}

/// Law: the statistics of a matrix account for every entry exactly once:
/// the status counts add up to the total, and so do the category lines and
/// the priority lines.
pub proof fn lemma_summary_partitions(s: ComplianceSummary, es: Seq<ComplianceEntry>)
    requires
        summary_of(s, es),
    ensures
        s.compliant + s.partially_compliant + s.non_compliant + s.not_started + s.in_progress
            + s.not_applicable == s.total_requirements,
        sum_category_totals(s.by_category@) == s.total_requirements,
        sum_priority_totals(s.by_priority@) == s.total_requirements,
{
    lemma_every_entry_counted_once(es);
    lemma_category_breakdown_sum(es, all_categories());
    lemma_priority_breakdown_sum(es, all_priorities());
}

} // verus!

verus! {

// ---- Building and updating a matrix ---------------------------------------

/// `e` is the matrix entry made from requirement `r`.
pub open spec fn entry_from_requirement(e: ComplianceEntry, r: Requirement) -> bool {
    &&& e.requirement_id == r.id
    &&& e.requirement_text == r.text
    &&& e.category == r.category
    &&& e.priority == r.priority
    &&& e.status == r.compliance_status
    &&& e.response_section is None
    &&& e.response_page is None
    &&& e.response_summary == r.response_text
    &&& e.evidence is None
    &&& e.reviewer is None
    &&& e.review_date is None
    &&& e.comments == r.notes
}

fn entry_for(r: &Requirement) -> (e: ComplianceEntry)
    ensures
        entry_from_requirement(e, *r),
{
    ComplianceEntry {
        requirement_id: r.id.clone(),
        requirement_text: r.text.clone(),
        category: r.category,
        priority: r.priority,
        status: r.compliance_status,
        response_section: None,
        response_page: None,
        response_summary: crate::text::clone_opt(&r.response_text),
        evidence: None,
        reviewer: None,
        review_date: None,
        comments: crate::text::clone_opt(&r.notes),
    }
}

/// A compliance matrix with one entry per analysed requirement, stamped
/// with the current time.
pub fn generate_compliance_matrix(analysis: &RfpAnalysis, project_name: &str) -> (m: ComplianceMatrix)
    ensures
        m.project_name@ == project_name@,
        m.rfp_name == analysis.document_name,
        m.created_at == m.updated_at,
        m.entries.len() == analysis.requirements.len(),
        forall|i: int|
            0 <= i < m.entries.len() ==> entry_from_requirement(
                #[trigger] m.entries@[i],
                analysis.requirements@[i],
            ),
        summary_of(m.summary, m.entries@),
{
    let now = crate::outside::now_rfc3339();
    let mut entries: Vec<ComplianceEntry> = Vec::new();
    let mut i: usize = 0;
    while i < analysis.requirements.len()
        invariant
            i <= analysis.requirements.len(),
            entries.len() == i,
            forall|j: int|
                0 <= j < i ==> entry_from_requirement(
                    #[trigger] entries@[j],
                    analysis.requirements@[j],
                ),
        decreases analysis.requirements.len() - i,
    {
        entries.push(entry_for(&analysis.requirements[i]));
        i = i + 1;
    }
    let summary = calculate_summary(&entries);
    ComplianceMatrix {
        project_name: String::from_str(project_name),
        rfp_name: analysis.document_name.clone(),
        created_at: now.clone(),
        updated_at: now,
        entries,
        summary,
    }
}

/// `new` is `old` with its status set and each given field replaced.
pub open spec fn entry_updated(
    new: ComplianceEntry,
    old: ComplianceEntry,
    status: ComplianceStatus,
    response_section: Option<String>,
    response_summary: Option<String>,
    comments: Option<String>,
) -> bool {
    &&& new.requirement_id == old.requirement_id
    &&& new.requirement_text == old.requirement_text
    &&& new.category == old.category
    &&& new.priority == old.priority
    &&& new.status == status
    &&& new.response_section == if response_section is Some {
        response_section
    } else {
        old.response_section
    }
    &&& new.response_page == old.response_page
    &&& new.response_summary == if response_summary is Some {
        response_summary
    } else {
        old.response_summary
    }
    &&& new.evidence == old.evidence
    &&& new.reviewer == old.reviewer
    &&& new.review_date == old.review_date
    &&& new.comments == if comments is Some {
        comments
    } else {
        old.comments
    }
}

/// `i` is the first entry with the given requirement id.
pub open spec fn first_with_id(es: Seq<ComplianceEntry>, id: Seq<char>, i: int) -> bool {
    &&& 0 <= i < es.len()
    &&& es[i].requirement_id@ == id
    &&& forall|j: int| 0 <= j < i ==> (#[trigger] es[j]).requirement_id@ != id
}

/// Updates the first entry for `requirement_id` (when there is one),
/// recomputes the statistics and stamps the matrix with the current time.
pub fn update_compliance_entry(
    matrix: ComplianceMatrix,
    requirement_id: &str,
    status: ComplianceStatus,
    response_section: Option<String>,
    response_summary: Option<String>,
    comments: Option<String>,
) -> (r: Result<ComplianceMatrix, String>)
    ensures
        r matches Ok(m) && {
            &&& m.project_name == matrix.project_name
            &&& m.rfp_name == matrix.rfp_name
            &&& m.created_at == matrix.created_at
            &&& m.entries.len() == matrix.entries.len()
            &&& (forall|j: int|
                0 <= j < matrix.entries.len() ==> (#[trigger] matrix.entries@[j]).requirement_id@
                    != requirement_id@) ==> m.entries@ == matrix.entries@
            &&& forall|i: int|
                #[trigger] first_with_id(matrix.entries@, requirement_id@, i) ==> {
                    &&& entry_updated(
                        m.entries@[i],
                        matrix.entries@[i],
                        status,
                        response_section,
                        response_summary,
                        comments,
                    )
                    &&& forall|j: int|
                        0 <= j < m.entries.len() && j != i ==> m.entries@[j]
                            == matrix.entries@[j]
                }
            &&& summary_of(m.summary, m.entries@)
        },
{
    let mut matrix = matrix;
    let ghost old_entries = matrix.entries@;
    let mut i: usize = 0;
    while i < matrix.entries.len()
        invariant
            i <= matrix.entries.len(),
            matrix.entries@ == old_entries,
            forall|j: int| 0 <= j < i ==> (#[trigger] old_entries[j]).requirement_id@ != requirement_id@,
        ensures
            i <= matrix.entries.len(),
            matrix.entries@ == old_entries,
            forall|j: int| 0 <= j < i ==> (#[trigger] old_entries[j]).requirement_id@ != requirement_id@,
            i < matrix.entries.len() ==> old_entries[i as int].requirement_id@ == requirement_id@,
        decreases matrix.entries.len() - i,
    {
        if crate::text::eq_str(matrix.entries[i].requirement_id.as_str(), requirement_id) {
            break;
        }
        i = i + 1;
    }
    if i < matrix.entries.len() {
        let old = &matrix.entries[i];
        let updated = ComplianceEntry {
            requirement_id: old.requirement_id.clone(),
            requirement_text: old.requirement_text.clone(),
            category: old.category,
            priority: old.priority,
            status,
            response_section: if response_section.is_some() {
                response_section
            } else {
                crate::text::clone_opt(&old.response_section)
            },
            response_page: old.response_page,
            response_summary: if response_summary.is_some() {
                response_summary
            } else {
                crate::text::clone_opt(&old.response_summary)
            },
            evidence: crate::text::clone_opt(&old.evidence),
            reviewer: crate::text::clone_opt(&old.reviewer),
            review_date: crate::text::clone_opt(&old.review_date),
            comments: if comments.is_some() {
                comments
            } else {
                crate::text::clone_opt(&old.comments)
            },
        };
        matrix.entries.set(i, updated);
        proof {
            assert forall|k: int| #[trigger] first_with_id(old_entries, requirement_id@, k) implies k
                == i by {
                if k < i {
                } else if k > i {
                    assert(old_entries[i as int].requirement_id@ == requirement_id@);
                }
            }
        }
    }
    matrix.summary = calculate_summary(&matrix.entries);
    matrix.updated_at = crate::outside::now_rfc3339();
    Ok(matrix)
}

} // verus!

verus! {

// ---- Gap analysis ---------------------------------------------------------

/// A requirement whose response is missing or incomplete.
pub struct GapItem {
    pub requirement_id: String,
    pub requirement_text: String,
    pub category: RequirementCategory,
    pub priority: RequirementPriority,
    pub current_status: ComplianceStatus,
    pub gap_description: String,
    pub suggested_action: String,
}

/// The mathematical content of a [`GapItem`].
pub struct GapView {
    pub requirement_id: Seq<char>,
    pub requirement_text: Seq<char>,
    pub category: RequirementCategory,
    pub priority: RequirementPriority,
    pub current_status: ComplianceStatus,
    pub gap_description: Seq<char>,
    pub suggested_action: Seq<char>,
}

impl View for GapItem {
    type V = GapView;

    open spec fn view(&self) -> GapView {
        GapView {
            requirement_id: self.requirement_id@,
            requirement_text: self.requirement_text@,
            category: self.category,
            priority: self.priority,
            current_status: self.current_status,
            gap_description: self.gap_description@,
            suggested_action: self.suggested_action@,
        }
    }
}

/// The result of a gap analysis: the gaps grouped by priority, and advice.
pub struct GapAnalysis {
    pub total_gaps: usize,
    pub critical_gaps: Vec<GapItem>,
    pub high_gaps: Vec<GapItem>,
    pub medium_gaps: Vec<GapItem>,
    pub low_gaps: Vec<GapItem>,
    pub recommendations: Vec<String>,
}

pub open spec fn gaps_view(v: Seq<GapItem>) -> Seq<GapView> {
    v.map_values(|g: GapItem| g@)
}

/// Non-compliant, partially compliant and not-started entries are gaps.
pub open spec fn is_gap_status(s: ComplianceStatus) -> bool {
    s == ComplianceStatus::NonCompliant || s == ComplianceStatus::PartiallyCompliant || s
        == ComplianceStatus::NotStarted
}

/// What a gap description says for an entry's status.
pub open spec fn gap_description(e: ComplianceEntry) -> Seq<char> {
    match e.status {
        ComplianceStatus::NonCompliant => "Requirement "@ + e.requirement_id@
            + " is not met. No compliant solution has been identified."@,
        ComplianceStatus::PartiallyCompliant => "Requirement "@ + e.requirement_id@
            + " is only partially addressed. Additional work needed."@,
        ComplianceStatus::NotStarted => "Requirement "@ + e.requirement_id@
            + " has not been addressed yet."@,
        _ => seq![],
    }
}

/// The action suggested for an entry's status and category.
pub open spec fn suggested_action(e: ComplianceEntry) -> Seq<char> {
    if e.status == ComplianceStatus::NonCompliant && e.category == RequirementCategory::Technical {
        "Evaluate technical alternatives or propose exception with mitigation plan."@
    } else if e.status == ComplianceStatus::NonCompliant && e.category
        == RequirementCategory::Staffing {
        "Identify qualified personnel or plan for recruitment/subcontracting."@
    } else if e.status == ComplianceStatus::NonCompliant && e.category
        == RequirementCategory::Experience {
        "Consider teaming arrangements or highlight transferable experience."@
    } else if e.status == ComplianceStatus::PartiallyCompliant {
        "Document existing compliance and propose plan to address remaining gaps."@
    } else if e.status == ComplianceStatus::NotStarted {
        "Assign owner and develop response strategy for this requirement."@
    } else {
        "Review requirement and determine appropriate response strategy."@
    }
}

pub open spec fn gap_of(e: ComplianceEntry) -> GapView {
    GapView {
        requirement_id: e.requirement_id@,
        requirement_text: e.requirement_text@,
        category: e.category,
        priority: e.priority,
        current_status: e.status,
        gap_description: gap_description(e),
        suggested_action: suggested_action(e),
    }
}

/// The gaps of the entries, in entry order.
pub open spec fn gaps_of(es: Seq<ComplianceEntry>) -> Seq<GapView>
    decreases es.len(),
{
    if es.len() == 0 {
        seq![]
    } else {
        gaps_of(es.drop_last()) + if is_gap_status(es.last().status) {
            seq![gap_of(es.last())]
        } else {
            seq![]
        }
    }
}

/// The gaps of the given priority, in order.
pub open spec fn gaps_with_priority(gs: Seq<GapView>, p: RequirementPriority) -> Seq<GapView>
    decreases gs.len(),
{
    if gs.len() == 0 {
        seq![]
    } else {
        gaps_with_priority(gs.drop_last(), p) + if gs.last().priority == p {
            seq![gs.last()]
        } else {
            seq![]
        }
    }
}

/// The gaps of the given category, in order.
pub open spec fn gaps_with_category(gs: Seq<GapView>, c: RequirementCategory) -> Seq<GapView>
    decreases gs.len(),
{
    if gs.len() == 0 {
        seq![]
    } else {
        gaps_with_category(gs.drop_last(), c) + if gs.last().category == c {
            seq![gs.last()]
        } else {
            seq![]
        }
    }
}

/// Describes the gap of an entry.
pub fn generate_gap_description(entry: &ComplianceEntry) -> (s: String)
    ensures
        s@ == gap_description(*entry),
{
    match entry.status {
        ComplianceStatus::NonCompliant => {
            let mut s = String::from_str("Requirement ");
            s.append(entry.requirement_id.as_str());
            s.append(" is not met. No compliant solution has been identified.");
            s
        },
        ComplianceStatus::PartiallyCompliant => {
            let mut s = String::from_str("Requirement ");
            s.append(entry.requirement_id.as_str());
            s.append(" is only partially addressed. Additional work needed.");
            s
        },
        ComplianceStatus::NotStarted => {
            let mut s = String::from_str("Requirement ");
            s.append(entry.requirement_id.as_str());
            s.append(" has not been addressed yet.");
            s
        },
        _ => String::new(),
    }
}

/// Suggests how to close the gap of an entry.
pub fn generate_suggested_action(entry: &ComplianceEntry) -> (s: String)
    ensures
        s@ == suggested_action(*entry),
{
    let status = entry.status;
    let category = entry.category;
    if status == ComplianceStatus::NonCompliant && category == RequirementCategory::Technical {
        String::from_str("Evaluate technical alternatives or propose exception with mitigation plan.")
    } else if status == ComplianceStatus::NonCompliant && category == RequirementCategory::Staffing {
        String::from_str("Identify qualified personnel or plan for recruitment/subcontracting.")
    } else if status == ComplianceStatus::NonCompliant && category
        == RequirementCategory::Experience {
        String::from_str("Consider teaming arrangements or highlight transferable experience.")
    } else if status == ComplianceStatus::PartiallyCompliant {
        String::from_str("Document existing compliance and propose plan to address remaining gaps.")
    } else if status == ComplianceStatus::NotStarted {
        String::from_str("Assign owner and develop response strategy for this requirement.")
    } else {
        String::from_str("Review requirement and determine appropriate response strategy.")
    }
}

fn copy_gap(g: &GapItem) -> (r: GapItem)
    ensures
        r@ == g@,
{
    GapItem {
        requirement_id: g.requirement_id.clone(),
        requirement_text: g.requirement_text.clone(),
        category: g.category,
        priority: g.priority,
        current_status: g.current_status,
        gap_description: g.gap_description.clone(),
        suggested_action: g.suggested_action.clone(),
    }
}

fn select_priority(gaps: &Vec<GapItem>, p: RequirementPriority) -> (r: Vec<GapItem>)
    ensures
        gaps_view(r@) == gaps_with_priority(gaps_view(gaps@), p),
{
    let mut r: Vec<GapItem> = Vec::new();
    let mut i: usize = 0;
    while i < gaps.len()
        invariant
            i <= gaps.len(),
            gaps_view(r@) == gaps_with_priority(gaps_view(gaps@).take(i as int), p),
        decreases gaps.len() - i,
    {
        proof {
            assert(gaps_view(gaps@).take(i + 1).drop_last() == gaps_view(gaps@).take(i as int));
            assert(gaps_view(gaps@).take(i + 1).last() == gaps@[i as int]@);
        }
        let ghost before = gaps_view(r@);
        if gaps[i].priority == p {
            r.push(copy_gap(&gaps[i]));
            assert(gaps_view(r@) == before.push(gaps@[i as int]@));
        } else {
            assert(before == before + Seq::<GapView>::empty());
        }
        i = i + 1;
    }
    assert(gaps_view(gaps@).take(gaps.len() as int) == gaps_view(gaps@));
    r
}

fn count_gap_category(gaps: &Vec<GapItem>, c: RequirementCategory) -> (n: usize)
    ensures
        n == gaps_with_category(gaps_view(gaps@), c).len(),
{
    let mut n: usize = 0;
    let mut i: usize = 0;
    while i < gaps.len()
        invariant
            i <= gaps.len(),
            n == gaps_with_category(gaps_view(gaps@).take(i as int), c).len(),
            n <= i,
        decreases gaps.len() - i,
    {
        proof {
            assert(gaps_view(gaps@).take(i + 1).drop_last() == gaps_view(gaps@).take(i as int));
            assert(gaps_view(gaps@).take(i + 1).last() == gaps@[i as int]@);
        }
        if gaps[i].category == c {
            n = n + 1;
        }
        i = i + 1;
    }
    assert(gaps_view(gaps@).take(gaps.len() as int) == gaps_view(gaps@));
    n
}

// ---- Recommendations ------------------------------------------------------

/// Where the percentage of complete requirements of a matrix stands: below
/// 50, below 80, or neither (80 and above, or no percentage at all for a
/// matrix without entries).
#[derive(Clone, Copy, Debug, PartialEq, Eq, Structural)]
pub enum ProgressBand {
    BelowHalf,
    BelowFourFifths,
    Beyond,
}

/// The progress of a matrix as its floating-point percentage of complete
/// requirements places it (that percentage is computed outside the library
/// from `progress_counts`): its band, and the percentage written with no
/// decimals.
pub struct Progress {
    pub band: ProgressBand,
    pub percent: String,
}

/// The requirements that count as complete: compliant or not applicable.
pub open spec fn complete_count(es: Seq<ComplianceEntry>) -> nat {
    count_status(es, ComplianceStatus::Compliant) + count_status(es, ComplianceStatus::NotApplicable)
}

/// A one-message list when `n > 0`.
pub open spec fn message_if(n: nat, pre: Seq<char>, post: Seq<char>) -> Seq<Seq<char>> {
    if n > 0 {
        seq![pre + decimal(n) + post]
    } else {
        seq![]
    }
}

/// The progress message: below half complete, below four fifths, or none.
pub open spec fn progress_message(p: Progress) -> Seq<Seq<char>> {
    match p.band {
        ProgressBand::BelowHalf => seq![
            "Overall progress at "@ + p.percent@ + "%. Accelerate response development."@,
        ],
        ProgressBand::BelowFourFifths => seq![
            "Good progress at "@ + p.percent@ + "%. Focus on closing remaining gaps."@,
        ],
        ProgressBand::Beyond => seq![],
    }
}

/// The advice given for a matrix and its gaps, in order: critical gaps,
/// security gaps, staffing gaps, unstarted requirements, overall progress;
/// or a note that all is in hand.
pub open spec fn recommendations(es: Seq<ComplianceEntry>, gs: Seq<GapView>, p: Progress) -> Seq<
    Seq<char>,
> {
    let all = message_if(
        gaps_with_priority(gs, RequirementPriority::Critical).len(),
        "URGENT: "@,
        " critical requirement(s) have compliance gaps. Address these first."@,
    ) + message_if(
        gaps_with_category(gs, RequirementCategory::Security).len(),
        "Security: "@,
        " gap(s) identified. Engage security team for review."@,
    ) + message_if(
        gaps_with_category(gs, RequirementCategory::Staffing).len(),
        "Staffing: "@,
        " gap(s) identified. Review resource availability and consider partners."@,
    ) + message_if(
        count_status(es, ComplianceStatus::NotStarted),
        ""@,
        " requirement(s) not yet started. Assign owners to ensure coverage."@,
    ) + progress_message(p);
    if all.len() == 0 {
        seq!["All requirements are being addressed. Continue current approach."@]
    } else {
        all
    }
}

fn message_list(n: usize, pre: &str, post: &str) -> (r: Vec<String>)
    ensures
        r.deep_view() == message_if(n as nat, pre@, post@),
{
    let mut out: Vec<String> = Vec::new();
    if n > 0 {
        let mut s = String::from_str(pre);
        crate::text::push_decimal(&mut s, n as u128);
        s.append(post);
        out.push(s);
        assert(out.deep_view() =~= seq![pre@ + decimal(n as nat) + post@]);
    } else {
        assert(out.deep_view() =~= Seq::<Seq<char>>::empty());
    }
    out
}

/// How many requirements of a matrix are complete (compliant or not
/// applicable), and how many there are: the two counts its progress
/// percentage is the ratio of.
pub fn progress_counts(entries: &Vec<ComplianceEntry>) -> (r: (usize, usize))
    ensures
        r.0 == complete_count(entries@),
        r.1 == entries.len(),
{
    proof {
        lemma_every_entry_counted_once(entries@);
    }
    let compliant = count_with_status(entries, ComplianceStatus::Compliant);
    let not_applicable = count_with_status(entries, ComplianceStatus::NotApplicable);
    assert(compliant + not_applicable <= entries.len());
    (compliant + not_applicable, entries.len())
}

fn progress_list(progress: &Progress) -> (r: Vec<String>)
    ensures
        r.deep_view() == progress_message(*progress),
{
    let mut out: Vec<String> = Vec::new();
    match progress.band {
        ProgressBand::BelowHalf => {
            let mut s = String::from_str("Overall progress at ");
            s.append(progress.percent.as_str());
            s.append("%. Accelerate response development.");
            out.push(s);
        },
        ProgressBand::BelowFourFifths => {
            let mut s = String::from_str("Good progress at ");
            s.append(progress.percent.as_str());
            s.append("%. Focus on closing remaining gaps.");
            out.push(s);
        },
        ProgressBand::Beyond => {},
    }
    assert(out.deep_view() =~= progress_message(*progress));
    out
}

fn append_strings(out: &mut Vec<String>, more: Vec<String>)
    ensures
        final(out).deep_view() == old(out).deep_view() + more.deep_view(),
{
    let mut more = more;
    let ghost start = out.deep_view();
    let ghost all = more.deep_view();
    let mut i: usize = 0;
    let n = more.len();
    while i < n
        invariant
            n == more.len(),
            all == more.deep_view(),
            i <= n,
            out.deep_view() == start + all.take(i as int),
        decreases n - i,
    {
        let s = more[i].clone();
        let ghost before = out.deep_view();
        out.push(s);
        proof {
            assert(out.deep_view() =~= before.push(all[i as int]));
            assert(all.take(i + 1) =~= all.take(i as int).push(all[i as int]));
        }
        i = i + 1;
    }
    assert(all.take(n as int) =~= all);
}

/// Advice on closing the gaps of a matrix, given its progress.
pub fn generate_recommendations(entries: &Vec<ComplianceEntry>, gaps: &Vec<GapItem>, progress: &Progress) -> (r: Vec<String>)
    ensures
        r.deep_view() == recommendations(entries@, gaps_view(gaps@), *progress),
{
    proof {
        reveal_strlit("");
    }
    let mut out: Vec<String> = Vec::new();
    let critical_gaps = select_priority(gaps, RequirementPriority::Critical);
    let critical = critical_gaps.len();
    assert(gaps_view(critical_gaps@).len() == critical);
    append_strings(
        &mut out,
        message_list(
            critical,
            "URGENT: ",
            " critical requirement(s) have compliance gaps. Address these first.",
        ),
    );
    let security = count_gap_category(gaps, RequirementCategory::Security);
    append_strings(
        &mut out,
        message_list(security, "Security: ", " gap(s) identified. Engage security team for review."),
    );
    let staffing = count_gap_category(gaps, RequirementCategory::Staffing);
    append_strings(
        &mut out,
        message_list(
            staffing,
            "Staffing: ",
            " gap(s) identified. Review resource availability and consider partners.",
        ),
    );
    let not_started = count_with_status(entries, ComplianceStatus::NotStarted);
    append_strings(
        &mut out,
        message_list(
            not_started,
            "",
            " requirement(s) not yet started. Assign owners to ensure coverage.",
        ),
    );
    append_strings(&mut out, progress_list(progress));
    if out.len() == 0 {
        out.push(String::from_str("All requirements are being addressed. Continue current approach."));
        assert(out.deep_view() =~= seq!["All requirements are being addressed. Continue current approach."@]);
    }
    out
}

/// Finds the gaps of a matrix, groups them by priority and gives advice,
/// given the matrix's progress.
pub fn perform_gap_analysis(matrix: &ComplianceMatrix, progress: &Progress) -> (a: GapAnalysis)
    ensures
        a.total_gaps == gaps_of(matrix.entries@).len(),
        gaps_view(a.critical_gaps@) == gaps_with_priority(
            gaps_of(matrix.entries@),
            RequirementPriority::Critical,
        ),
        gaps_view(a.high_gaps@) == gaps_with_priority(
            gaps_of(matrix.entries@),
            RequirementPriority::High,
        ),
        gaps_view(a.medium_gaps@) == gaps_with_priority(
            gaps_of(matrix.entries@),
            RequirementPriority::Medium,
        ),
        gaps_view(a.low_gaps@) == gaps_with_priority(
            gaps_of(matrix.entries@),
            RequirementPriority::Low,
        ),
        a.recommendations.deep_view() == recommendations(
            matrix.entries@,
            gaps_of(matrix.entries@),
            *progress,
        ),
{
    let entries = &matrix.entries;
    let mut gaps: Vec<GapItem> = Vec::new();
    let mut i: usize = 0;
    while i < entries.len()
        invariant
            entries == &matrix.entries,
            i <= entries.len(),
            gaps_view(gaps@) == gaps_of(entries@.take(i as int)),
        decreases entries.len() - i,
    {
        proof {
            assert(entries@.take(i + 1).drop_last() == entries@.take(i as int));
            assert(entries@.take(i + 1).last() == entries@[i as int]);
        }
        let e = &entries[i];
        let ghost before = gaps_view(gaps@);
        if e.status == ComplianceStatus::NonCompliant || e.status
            == ComplianceStatus::PartiallyCompliant || e.status == ComplianceStatus::NotStarted {
            gaps.push(
                GapItem {
                    requirement_id: e.requirement_id.clone(),
                    requirement_text: e.requirement_text.clone(),
                    category: e.category,
                    priority: e.priority,
                    current_status: e.status,
                    gap_description: generate_gap_description(e),
                    suggested_action: generate_suggested_action(e),
                },
            );
            assert(gaps_view(gaps@) == before.push(gap_of(*e)));
        } else {
            assert(before == before + Seq::<GapView>::empty());
        }
        i = i + 1;
    }
    assert(entries@.take(entries.len() as int) == entries@);
    let critical_gaps = select_priority(&gaps, RequirementPriority::Critical);
    let high_gaps = select_priority(&gaps, RequirementPriority::High);
    let medium_gaps = select_priority(&gaps, RequirementPriority::Medium);
    let low_gaps = select_priority(&gaps, RequirementPriority::Low);
    let recommendations = generate_recommendations(entries, &gaps, progress);
    GapAnalysis {
        total_gaps: gaps.len(),
        critical_gaps,
        high_gaps,
        medium_gaps,
        low_gaps,
        recommendations,
    }
}

proof fn lemma_priority_groups_partition(gs: Seq<GapView>)
    ensures
        gaps_with_priority(gs, RequirementPriority::Critical).len() + gaps_with_priority(
            gs,
            RequirementPriority::High,
        ).len() + gaps_with_priority(gs, RequirementPriority::Medium).len() + gaps_with_priority(
            gs,
            RequirementPriority::Low,
        ).len() == gs.len(),
    decreases gs.len(),
{
    if gs.len() > 0 {
        lemma_priority_groups_partition(gs.drop_last());
    }
}

/// Law: every gap lands in exactly one priority group, so the four groups
/// together hold as many gaps as the total.
pub proof fn lemma_gap_groups_partition(a: GapAnalysis, es: Seq<ComplianceEntry>)
    requires
        a.total_gaps == gaps_of(es).len(),
        gaps_view(a.critical_gaps@) == gaps_with_priority(gaps_of(es), RequirementPriority::Critical),
        gaps_view(a.high_gaps@) == gaps_with_priority(gaps_of(es), RequirementPriority::High),
        gaps_view(a.medium_gaps@) == gaps_with_priority(gaps_of(es), RequirementPriority::Medium),
        gaps_view(a.low_gaps@) == gaps_with_priority(gaps_of(es), RequirementPriority::Low),
    ensures
        a.critical_gaps.len() + a.high_gaps.len() + a.medium_gaps.len() + a.low_gaps.len()
            == a.total_gaps,
{
    lemma_priority_groups_partition(gaps_of(es));
    assert(gaps_view(a.critical_gaps@).len() == a.critical_gaps@.len());
    assert(gaps_view(a.high_gaps@).len() == a.high_gaps@.len());
    assert(gaps_view(a.medium_gaps@).len() == a.medium_gaps@.len());
    assert(gaps_view(a.low_gaps@).len() == a.low_gaps@.len());
}

} // verus!

verus! {

// ---- Renderings -----------------------------------------------------------

/// Formats a compliance matrix can be exported to.
#[derive(Clone, Copy, Debug, PartialEq, Eq, Structural)]
pub enum ExportFormat {
    Csv,
    Json,
    Markdown,
    Html,
}

/// An exported compliance matrix.
pub struct ComplianceExport {
    pub format: ExportFormat,
    pub content: String,
}

/// The name of a category as `{:?}` prints it.
pub open spec fn category_name(c: RequirementCategory) -> Seq<char> {
    match c {
        RequirementCategory::Technical => "Technical"@,
        RequirementCategory::Management => "Management"@,
        RequirementCategory::Financial => "Financial"@,
        RequirementCategory::Legal => "Legal"@,
        RequirementCategory::Staffing => "Staffing"@,
        RequirementCategory::Timeline => "Timeline"@,
        RequirementCategory::Deliverable => "Deliverable"@,
        RequirementCategory::Qualification => "Qualification"@,
        RequirementCategory::Experience => "Experience"@,
        RequirementCategory::Security => "Security"@,
        RequirementCategory::Other => "Other"@,
    }
}

/// The name of a priority as `{:?}` prints it.
pub open spec fn priority_name(p: RequirementPriority) -> Seq<char> {
    match p {
        RequirementPriority::Critical => "Critical"@,
        RequirementPriority::High => "High"@,
        RequirementPriority::Medium => "Medium"@,
        RequirementPriority::Low => "Low"@,
    }
}

/// The name of a status as `{:?}` prints it.
pub open spec fn status_name(s: ComplianceStatus) -> Seq<char> {
    match s {
        ComplianceStatus::NotStarted => "NotStarted"@,
        ComplianceStatus::InProgress => "InProgress"@,
        ComplianceStatus::Compliant => "Compliant"@,
        ComplianceStatus::PartiallyCompliant => "PartiallyCompliant"@,
        ComplianceStatus::NonCompliant => "NonCompliant"@,
        ComplianceStatus::NotApplicable => "NotApplicable"@,
    }
}

pub fn category_str(c: RequirementCategory) -> (s: &'static str)
    ensures
        s@ == category_name(c),
{
    match c {
        RequirementCategory::Technical => "Technical",
        RequirementCategory::Management => "Management",
        RequirementCategory::Financial => "Financial",
        RequirementCategory::Legal => "Legal",
        RequirementCategory::Staffing => "Staffing",
        RequirementCategory::Timeline => "Timeline",
        RequirementCategory::Deliverable => "Deliverable",
        RequirementCategory::Qualification => "Qualification",
        RequirementCategory::Experience => "Experience",
        RequirementCategory::Security => "Security",
        RequirementCategory::Other => "Other",
    }
}

pub fn priority_str(p: RequirementPriority) -> (s: &'static str)
    ensures
        s@ == priority_name(p),
{
    match p {
        RequirementPriority::Critical => "Critical",
        RequirementPriority::High => "High",
        RequirementPriority::Medium => "Medium",
        RequirementPriority::Low => "Low",
    }
}

pub fn status_str(s: ComplianceStatus) -> (r: &'static str)
    ensures
        r@ == status_name(s),
{
    match s {
        ComplianceStatus::NotStarted => "NotStarted",
        ComplianceStatus::InProgress => "InProgress",
        ComplianceStatus::Compliant => "Compliant",
        ComplianceStatus::PartiallyCompliant => "PartiallyCompliant",
        ComplianceStatus::NonCompliant => "NonCompliant",
        ComplianceStatus::NotApplicable => "NotApplicable",
    }
}

/// A CSV field value with its double quotes doubled.
pub open spec fn csv_quoted(s: Seq<char>) -> Seq<char> {
    replace_all(s, "\""@, "\"\""@)
}

pub open spec fn csv_row(e: ComplianceEntry) -> Seq<char> {
    "\""@ + e.requirement_id@ + "\",\""@ + csv_quoted(e.requirement_text@) + "\",\""@
        + category_name(e.category) + "\",\""@ + priority_name(e.priority) + "\",\""@
        + status_name(e.status) + "\",\""@ + opt_or(e.response_section, seq![]) + "\",\""@
        + csv_quoted(opt_or(e.response_summary, seq![])) + "\",\""@ + csv_quoted(
        opt_or(e.comments, seq![]),
    ) + "\"\n"@
}

pub open spec fn csv_rows(es: Seq<ComplianceEntry>) -> Seq<char>
    decreases es.len(),
{
    if es.len() == 0 {
        seq![]
    } else {
        csv_rows(es.drop_last()) + csv_row(es.last())
    }
}

/// The CSV rendering of a matrix: a header line and one line per entry.
pub open spec fn matrix_csv(m: ComplianceMatrix) -> Seq<char> {
    "ID,Requirement,Category,Priority,Status,Response Section,Response Summary,Comments\n"@
        + csv_rows(m.entries@)
}

fn push_csv_quoted(out: &mut String, s: &str)
    ensures
        final(out)@ == old(out)@ + csv_quoted(s@),
{
    proof {
        reveal_strlit("\"");
    }
    let v = crate::text::chars_of(s);
    let q = crate::text::replace_str(v.as_slice(), "\"", "\"\"");
    out.append(q.as_str());
}

fn opt_str<'a>(o: &'a Option<String>) -> (r: &'a str)
    ensures
        r@ == opt_or(*o, seq![]),
{
    match o {
        Some(s) => s.as_str(),
        None => {
            proof {
                reveal_strlit("");
            }
            ""
        },
    }
}

fn push_csv_row(csv: &mut String, e: &ComplianceEntry)
    ensures
        final(csv)@ == old(csv)@ + csv_row(*e),
{
    csv.append("\"");
    csv.append(e.requirement_id.as_str());
    csv.append("\",\"");
    push_csv_quoted(csv, e.requirement_text.as_str());
    csv.append("\",\"");
    csv.append(category_str(e.category));
    csv.append("\",\"");
    csv.append(priority_str(e.priority));
    csv.append("\",\"");
    csv.append(status_str(e.status));
    csv.append("\",\"");
    csv.append(opt_str(&e.response_section));
    csv.append("\",\"");
    push_csv_quoted(csv, opt_str(&e.response_summary));
    csv.append("\",\"");
    push_csv_quoted(csv, opt_str(&e.comments));
    csv.append("\"\n");
    assert(csv@ =~= old(csv)@ + csv_row(*e));
}

/// Renders a matrix as CSV.
pub fn export_to_csv(matrix: &ComplianceMatrix) -> (s: String)
    ensures
        s@ == matrix_csv(*matrix),
{
    let mut csv = String::from_str(
        "ID,Requirement,Category,Priority,Status,Response Section,Response Summary,Comments\n",
    );
    let ghost head = csv@;
    let mut i: usize = 0;
    while i < matrix.entries.len()
        invariant
            i <= matrix.entries.len(),
            csv@ == head + csv_rows(matrix.entries@.take(i as int)),
            head
                == "ID,Requirement,Category,Priority,Status,Response Section,Response Summary,Comments\n"@,
        decreases matrix.entries.len() - i,
    {
        let e = &matrix.entries[i];
        proof {
            assert(matrix.entries@.take(i + 1).drop_last() == matrix.entries@.take(i as int));
            assert(matrix.entries@.take(i + 1).last() == *e);
        }
        push_csv_row(&mut csv, e);
        i = i + 1;
    }
    assert(matrix.entries@.take(matrix.entries.len() as int) == matrix.entries@);
    csv
}

/// The requirement text of a Markdown row: beyond 80 bytes, its first 77
/// bytes followed by `...`.
pub open spec fn short_text(t: Seq<char>) -> Seq<char> {
    if encode_utf8(t).len() > 80 {
        decode_utf8(encode_utf8(t).take(77)) + "..."@
    } else {
        t
    }
}

/// The text can be shortened: it is short, or its 77th byte ends a character.
pub open spec fn shortenable(t: Seq<char>) -> bool {
    encode_utf8(t).len() <= 80 || is_char_boundary(encode_utf8(t), 77)
}

pub open spec fn markdown_row(e: ComplianceEntry) -> Seq<char> {
    "| "@ + e.requirement_id@ + " | "@ + replace_all(short_text(e.requirement_text@), "|"@, "\\|"@)
        + " | "@ + category_name(e.category) + " | "@ + priority_name(e.priority) + " | "@
        + status_name(e.status) + " |\n"@
}

pub open spec fn markdown_rows(es: Seq<ComplianceEntry>) -> Seq<char>
    decreases es.len(),
{
    if es.len() == 0 {
        seq![]
    } else {
        markdown_rows(es.drop_last()) + markdown_row(es.last())
    }
}

/// The Markdown rendering of a matrix: title, summary and a table, with
/// `rate` as the compliance percentage.
pub open spec fn matrix_markdown(m: ComplianceMatrix, rate: Seq<char>) -> Seq<char> {
    "# Compliance Matrix: "@ + m.project_name@ + "\n\n"@ + "**RFP:** "@ + m.rfp_name@ + "\n\n"@
        + "**Generated:** "@ + m.created_at@ + "\n\n"@ + "## Summary\n\n"@
        + "- Total Requirements: "@ + decimal(m.summary.total_requirements as nat) + "\n"@
        + "- Compliant: "@ + decimal(m.summary.compliant as nat) + "\n"@
        + "- Partially Compliant: "@ + decimal(m.summary.partially_compliant as nat) + "\n"@
        + "- Non-Compliant: "@ + decimal(m.summary.non_compliant as nat) + "\n"@
        + "- Compliance Rate: "@ + rate + "%\n\n"@ + "## Requirements\n\n"@
        + "| ID | Requirement | Category | Priority | Status |\n"@
        + "|:---|:------------|:---------|:---------|:-------|\n"@ + markdown_rows(m.entries@)
}

fn push_short_text(out: &mut String, t: &String) -> (ok: bool)
    ensures
        ok == shortenable(t@),
        ok ==> final(out)@ == old(out)@ + replace_all(short_text(t@), "|"@, "\\|"@),
{
    proof {
        reveal_strlit("|");
        reveal_strlit("...");
    }
    let s = t.as_str();
    let bytes = s.as_bytes();
    assert(bytes@ == encode_utf8(t@));
    if bytes.len() > 80 {
        if !s.is_char_boundary(77) {
            return false;
        }
        let (head, _rest) = s.split_at(77);
        proof {
            vstd::utf8::encode_utf8_decode_utf8(head@);
            assert(encode_utf8(head@) == encode_utf8(t@).take(77));
        }
        let mut short = String::from_str(head);
        short.append("...");
        let sv = crate::text::chars_of(short.as_str());
        let esc = crate::text::replace_str(sv.as_slice(), "|", "\\|");
        out.append(esc.as_str());
        true
    } else {
        let sv = crate::text::chars_of(s);
        let esc = crate::text::replace_str(sv.as_slice(), "|", "\\|");
        out.append(esc.as_str());
        true
    }
}

fn push_markdown_row(md: &mut String, e: &ComplianceEntry) -> (ok: bool)
    ensures
        ok == shortenable(e.requirement_text@),
        ok ==> final(md)@ == old(md)@ + markdown_row(*e),
{
    md.append("| ");
    md.append(e.requirement_id.as_str());
    md.append(" | ");
    if !push_short_text(md, &e.requirement_text) {
        return false;
    }
    md.append(" | ");
    md.append(category_str(e.category));
    md.append(" | ");
    md.append(priority_str(e.priority));
    md.append(" | ");
    md.append(status_str(e.status));
    md.append(" |\n");
    assert(md@ =~= old(md)@ + markdown_row(*e));
    true
}

/// Renders a matrix as Markdown, giving `rate` (the matrix's compliance
/// percentage written with one decimal) as its compliance rate; `None` when a
/// long requirement text cannot be cut at its 77th byte without splitting a
/// character.
pub fn export_to_markdown(matrix: &ComplianceMatrix, rate: &str) -> (r: Option<String>)
    ensures
        match r {
            Some(md) => (forall|i: int|
                0 <= i < matrix.entries.len() ==> shortenable(
                    (#[trigger] matrix.entries@[i]).requirement_text@,
                )) && md@ == matrix_markdown(*matrix, rate@),
            None => exists|i: int|
                0 <= i < matrix.entries.len() && !shortenable(
                    (#[trigger] matrix.entries@[i]).requirement_text@,
                ),
        },
{
    let mut md = String::from_str("# Compliance Matrix: ");
    md.append(matrix.project_name.as_str());
    md.append("\n\n");
    md.append("**RFP:** ");
    md.append(matrix.rfp_name.as_str());
    md.append("\n\n");
    md.append("**Generated:** ");
    md.append(matrix.created_at.as_str());
    md.append("\n\n");
    md.append("## Summary\n\n");
    md.append("- Total Requirements: ");
    crate::text::push_decimal(&mut md, matrix.summary.total_requirements as u128);
    md.append("\n");
    md.append("- Compliant: ");
    crate::text::push_decimal(&mut md, matrix.summary.compliant as u128);
    md.append("\n");
    md.append("- Partially Compliant: ");
    crate::text::push_decimal(&mut md, matrix.summary.partially_compliant as u128);
    md.append("\n");
    md.append("- Non-Compliant: ");
    crate::text::push_decimal(&mut md, matrix.summary.non_compliant as u128);
    md.append("\n");
    md.append("- Compliance Rate: ");
    md.append(rate);
    md.append("%\n\n");
    md.append("## Requirements\n\n");
    md.append("| ID | Requirement | Category | Priority | Status |\n");
    md.append("|:---|:------------|:---------|:---------|:-------|\n");
    let ghost head = md@;
    let mut i: usize = 0;
    while i < matrix.entries.len()
        invariant
            i <= matrix.entries.len(),
            md@ == head + markdown_rows(matrix.entries@.take(i as int)),
            forall|j: int|
                0 <= j < i ==> shortenable((#[trigger] matrix.entries@[j]).requirement_text@),
        decreases matrix.entries.len() - i,
    {
        let e = &matrix.entries[i];
        proof {
            assert(matrix.entries@.take(i + 1).drop_last() == matrix.entries@.take(i as int));
            assert(matrix.entries@.take(i + 1).last() == *e);
        }
        if !push_markdown_row(&mut md, e) {
            return None;
        }
        i = i + 1;
    }
    assert(matrix.entries@.take(matrix.entries.len() as int) == matrix.entries@);
    assert(md@ =~= matrix_markdown(*matrix, rate@));
    Some(md)
}

} // verus!

verus! {

pub open spec fn status_class(s: ComplianceStatus) -> Seq<char> {
    match s {
        ComplianceStatus::Compliant => "compliant"@,
        ComplianceStatus::PartiallyCompliant => "partially"@,
        ComplianceStatus::NonCompliant => "non-compliant"@,
        _ => seq![],
    }
}

pub open spec fn priority_class(p: RequirementPriority) -> Seq<char> {
    if p == RequirementPriority::Critical {
        "critical"@
    } else {
        seq![]
    }
}

/// The cells of a table row up to and including the category.
pub open spec fn html_row_start(e: ComplianceEntry) -> Seq<char> {
    "<tr><td>"@ + e.requirement_id@ + "</td><td>"@ + html_escaped(e.requirement_text@)
        + "</td><td>"@ + category_name(e.category)
}

/// The priority and status cells that end a table row.
pub open spec fn html_row_end(e: ComplianceEntry) -> Seq<char> {
    "</td><td class=\""@ + priority_class(e.priority) + "\">"@ + priority_name(e.priority)
        + "</td><td class=\""@ + status_class(e.status) + "\">"@ + status_name(e.status)
        + "</td></tr>\n"@
}

pub open spec fn html_row(e: ComplianceEntry) -> Seq<char> {
    html_row_start(e) + html_row_end(e)
}

pub open spec fn html_rows(es: Seq<ComplianceEntry>) -> Seq<char>
    decreases es.len(),
{
    if es.len() == 0 {
        seq![]
    } else {
        html_rows(es.drop_last()) + html_row(es.last())
    }
}

/// The fixed head and style sheet of the HTML rendering.
pub open spec fn html_head(project: Seq<char>) -> Seq<char> {
    "<!DOCTYPE html>\n<html>\n<head>\n"@ + "<meta charset=\"UTF-8\">\n"@
        + "<title>Compliance Matrix: "@ + project + "</title>\n"@ + "<style>\n"@
        + "body { font-family: Arial, sans-serif; margin: 20px; }\n"@
        + "table { border-collapse: collapse; width: 100%; }\n"@
        + "th, td { border: 1px solid #ddd; padding: 8px; text-align: left; }\n"@
        + "th { background-color: #4a5568; color: white; }\n"@
        + "tr:nth-child(even) { background-color: #f2f2f2; }\n"@
        + ".compliant { color: #22c55e; }\n"@ + ".partially { color: #eab308; }\n"@
        + ".non-compliant { color: #ef4444; }\n"@
        + ".critical { font-weight: bold; color: #dc2626; }\n"@ + "</style>\n</head>\n<body>\n"@
}

/// The title and summary block of the HTML rendering.
pub open spec fn html_title(m: ComplianceMatrix) -> Seq<char> {
    "<h1>Compliance Matrix: "@ + m.project_name@ + "</h1>\n"@ + "<p><strong>RFP:</strong> "@
        + m.rfp_name@ + "</p>\n"@ + "<p><strong>Generated:</strong> "@ + m.created_at@
        + "</p>\n"@
}

pub open spec fn html_counts(s: ComplianceSummary, rate: Seq<char>) -> Seq<char> {
    "<h2>Summary</h2>\n"@ + "<ul>\n"@ + "<li>Total Requirements: "@ + decimal(
        s.total_requirements as nat,
    ) + "</li>\n"@ + "<li class=\"compliant\">Compliant: "@ + decimal(s.compliant as nat)
        + "</li>\n"@ + "<li class=\"partially\">Partially Compliant: "@ + decimal(
        s.partially_compliant as nat,
    ) + "</li>\n"@ + "<li class=\"non-compliant\">Non-Compliant: "@ + decimal(
        s.non_compliant as nat,
    ) + "</li>\n"@ + "<li>Compliance Rate: "@ + rate + "%</li>\n"@ + "</ul>\n"@
}

pub open spec fn html_summary(m: ComplianceMatrix, rate: Seq<char>) -> Seq<char> {
    html_title(m) + html_counts(m.summary, rate)
}

/// The HTML rendering of a matrix: a styled page with the summary and a
/// table of entries (requirement texts escaped), with `rate` as the
/// compliance percentage.
pub open spec fn matrix_html(m: ComplianceMatrix, rate: Seq<char>) -> Seq<char> {
    html_head(m.project_name@) + html_summary(m, rate) + "<h2>Requirements</h2>\n"@
        + "<table>\n<thead>\n<tr>\n"@
        + "<th>ID</th><th>Requirement</th><th>Category</th><th>Priority</th><th>Status</th>\n"@
        + "</tr>\n</thead>\n<tbody>\n"@ + html_rows(m.entries@)
        + "</tbody>\n</table>\n</body>\n</html>"@
}

fn push_html_head(html: &mut String, project: &String)
    ensures
        final(html)@ == old(html)@ + html_head(project@),
{
    html.append("<!DOCTYPE html>\n<html>\n<head>\n");
    html.append("<meta charset=\"UTF-8\">\n");
    html.append("<title>Compliance Matrix: ");
    html.append(project.as_str());
    html.append("</title>\n");
    html.append("<style>\n");
    html.append("body { font-family: Arial, sans-serif; margin: 20px; }\n");
    html.append("table { border-collapse: collapse; width: 100%; }\n");
    html.append("th, td { border: 1px solid #ddd; padding: 8px; text-align: left; }\n");
    html.append("th { background-color: #4a5568; color: white; }\n");
    html.append("tr:nth-child(even) { background-color: #f2f2f2; }\n");
    html.append(".compliant { color: #22c55e; }\n");
    html.append(".partially { color: #eab308; }\n");
    html.append(".non-compliant { color: #ef4444; }\n");
    html.append(".critical { font-weight: bold; color: #dc2626; }\n");
    html.append("</style>\n</head>\n<body>\n");
    assert(html@ =~= old(html)@ + html_head(project@));
}

fn push_html_title(html: &mut String, m: &ComplianceMatrix)
    ensures
        final(html)@ == old(html)@ + html_title(*m),
{
    html.append("<h1>Compliance Matrix: ");
    html.append(m.project_name.as_str());
    html.append("</h1>\n");
    html.append("<p><strong>RFP:</strong> ");
    html.append(m.rfp_name.as_str());
    html.append("</p>\n");
    html.append("<p><strong>Generated:</strong> ");
    html.append(m.created_at.as_str());
    html.append("</p>\n");
    assert(html@ =~= old(html)@ + html_title(*m));
}

fn push_html_counts(html: &mut String, s: &ComplianceSummary, rate: &str)
    ensures
        final(html)@ == old(html)@ + html_counts(*s, rate@),
{
    html.append("<h2>Summary</h2>\n");
    html.append("<ul>\n");
    html.append("<li>Total Requirements: ");
    crate::text::push_decimal(html, s.total_requirements as u128);
    html.append("</li>\n");
    html.append("<li class=\"compliant\">Compliant: ");
    crate::text::push_decimal(html, s.compliant as u128);
    html.append("</li>\n");
    html.append("<li class=\"partially\">Partially Compliant: ");
    crate::text::push_decimal(html, s.partially_compliant as u128);
    html.append("</li>\n");
    html.append("<li class=\"non-compliant\">Non-Compliant: ");
    crate::text::push_decimal(html, s.non_compliant as u128);
    html.append("</li>\n");
    html.append("<li>Compliance Rate: ");
    html.append(rate);
    html.append("%</li>\n");
    html.append("</ul>\n");
    assert(html@ =~= old(html)@ + html_counts(*s, rate@));
}

fn push_html_summary(html: &mut String, m: &ComplianceMatrix, rate: &str)
    ensures
        final(html)@ == old(html)@ + html_summary(*m, rate@),
{
    push_html_title(html, m);
    push_html_counts(html, &m.summary, rate);
    assert(html@ =~= old(html)@ + html_summary(*m, rate@));
}

fn push_html_row_start(html: &mut String, e: &ComplianceEntry)
    ensures
        final(html)@ == old(html)@ + html_row_start(*e),
{
    html.append("<tr><td>");
    html.append(e.requirement_id.as_str());
    html.append("</td><td>");
    let escaped = crate::text::html_escape(e.requirement_text.as_str());
    html.append(escaped.as_str());
    html.append("</td><td>");
    html.append(category_str(e.category));
    assert(html@ =~= old(html)@ + html_row_start(*e));
}

fn push_html_row_end(html: &mut String, e: &ComplianceEntry)
    ensures
        final(html)@ == old(html)@ + html_row_end(*e),
{
    let scls: &str = match e.status {
        ComplianceStatus::Compliant => "compliant",
        ComplianceStatus::PartiallyCompliant => "partially",
        ComplianceStatus::NonCompliant => "non-compliant",
        _ => "",
    };
    let pcls: &str = if e.priority == RequirementPriority::Critical {
        "critical"
    } else {
        ""
    };
    proof {
        reveal_strlit("");
    }
    assert(scls@ == status_class(e.status));
    assert(pcls@ == priority_class(e.priority));
    html.append("</td><td class=\"");
    html.append(pcls);
    html.append("\">");
    html.append(priority_str(e.priority));
    html.append("</td><td class=\"");
    html.append(scls);
    html.append("\">");
    html.append(status_str(e.status));
    html.append("</td></tr>\n");
    assert(html@ =~= old(html)@ + html_row_end(*e));
}

fn push_html_row(html: &mut String, e: &ComplianceEntry)
    ensures
        final(html)@ == old(html)@ + html_row(*e),
{
    push_html_row_start(html, e);
    push_html_row_end(html, e);
    assert(html@ =~= old(html)@ + html_row(*e));
}

/// Renders a matrix as an HTML page, giving `rate` (the matrix's compliance
/// percentage written with one decimal) as its compliance rate.
pub fn export_to_html(matrix: &ComplianceMatrix, rate: &str) -> (s: String)
    ensures
        s@ == matrix_html(*matrix, rate@),
{
    let mut html = String::new();
    push_html_head(&mut html, &matrix.project_name);
    push_html_summary(&mut html, matrix, rate);
    html.append("<h2>Requirements</h2>\n");
    html.append("<table>\n<thead>\n<tr>\n");
    html.append("<th>ID</th><th>Requirement</th><th>Category</th><th>Priority</th><th>Status</th>\n");
    html.append("</tr>\n</thead>\n<tbody>\n");
    let ghost head = html@;
    let mut i: usize = 0;
    while i < matrix.entries.len()
        invariant
            i <= matrix.entries.len(),
            html@ == head + html_rows(matrix.entries@.take(i as int)),
        decreases matrix.entries.len() - i,
    {
        let e = &matrix.entries[i];
        proof {
            assert(matrix.entries@.take(i + 1).drop_last() == matrix.entries@.take(i as int));
            assert(matrix.entries@.take(i + 1).last() == *e);
        }
        push_html_row(&mut html, e);
        i = i + 1;
    }
    assert(matrix.entries@.take(matrix.entries.len() as int) == matrix.entries@);
    html.append("</tbody>\n</table>\n</body>\n</html>");
    assert(html@ =~= matrix_html(*matrix, rate@));
    html
}

/// Exports a matrix in the given format. The JSON rendering is the caller's
/// serialisation of the matrix, passed in as `json`, and `rate` is the
/// matrix's compliance percentage written with one decimal; `None` when the
/// Markdown rendering cannot shorten a requirement text.
pub fn export_compliance_matrix(matrix: &ComplianceMatrix, format: ExportFormat, json: String, rate: &str) -> (r: Option<ComplianceExport>)
    ensures
        match format {
            ExportFormat::Csv => r matches Some(x) && x.format == format && x.content@ == matrix_csv(*matrix),
            ExportFormat::Json => r matches Some(x) && x.format == format && x.content == json,
            ExportFormat::Html => r matches Some(x) && x.format == format && x.content@ == matrix_html(*matrix, rate@),
            ExportFormat::Markdown => match r {
                Some(x) => x.format == format && x.content@ == matrix_markdown(*matrix, rate@) && forall|i: int|
                    0 <= i < matrix.entries.len() ==> shortenable(
                        (#[trigger] matrix.entries@[i]).requirement_text@,
                    ),
                None => exists|i: int|
                    0 <= i < matrix.entries.len() && !shortenable(
                        (#[trigger] matrix.entries@[i]).requirement_text@,
                    ),
            },
        },
{
    match format {
        ExportFormat::Csv => Some(ComplianceExport { format, content: export_to_csv(matrix) }),
        ExportFormat::Json => Some(ComplianceExport { format, content: json }),
        ExportFormat::Markdown => match export_to_markdown(matrix, rate) {
            Some(content) => Some(ComplianceExport { format, content }),
            None => None,
        },
        ExportFormat::Html => Some(ComplianceExport { format, content: export_to_html(matrix, rate) }),
    }
}

/// The export format named by a (lower-cased) format name.
pub open spec fn matrix_format_named(name: Seq<char>) -> Option<ExportFormat> {
    if name == "csv"@ {
        Some(ExportFormat::Csv)
    } else if name == "json"@ {
        Some(ExportFormat::Json)
    } else if name == "markdown"@ || name == "md"@ {
        Some(ExportFormat::Markdown)
    } else if name == "html"@ {
        Some(ExportFormat::Html)
    } else {
        None
    }
}

pub open spec fn unsupported_matrix_format() -> Seq<char> {
    "Unsupported format. Use: csv, json, markdown, or html"@
}

/// Reads an export format name, case-insensitively.
pub fn parse_matrix_format(format: &str) -> (r: Result<ExportFormat, String>)
    ensures
        match matrix_format_named(spec_lowercase(format@)) {
            Some(f) => r == Ok::<ExportFormat, String>(f),
            None => r matches Err(e) && e@ == unsupported_matrix_format(),
        },
{
    let lower = crate::text::to_lowercase(format);
    let l = lower.as_str();
    if crate::text::eq_str(l, "csv") {
        Ok(ExportFormat::Csv)
    } else if crate::text::eq_str(l, "json") {
        Ok(ExportFormat::Json)
    } else if crate::text::eq_str(l, "markdown") || crate::text::eq_str(l, "md") {
        Ok(ExportFormat::Markdown)
    } else if crate::text::eq_str(l, "html") {
        Ok(ExportFormat::Html)
    } else {
        Err(String::from_str("Unsupported format. Use: csv, json, markdown, or html"))
    }
}

pub open spec fn unshortenable_message() -> Seq<char> {
    "Requirement text cannot be shortened without splitting a character"@
}

/// Exports a matrix in the named format (the JSON rendering being the
/// caller's serialisation, passed in as `json`, and `rate` the matrix's
/// compliance percentage written with one decimal).
pub fn export_matrix(matrix: ComplianceMatrix, format: &str, json: String, rate: &str) -> (r: Result<ComplianceExport, String>)
    ensures
        match matrix_format_named(spec_lowercase(format@)) {
            None => r matches Err(e) && e@ == unsupported_matrix_format(),
            Some(ExportFormat::Csv) => r matches Ok(x) && x.format == ExportFormat::Csv
                && x.content@ == matrix_csv(matrix),
            Some(ExportFormat::Json) => r matches Ok(x) && x.format == ExportFormat::Json
                && x.content == json,
            Some(ExportFormat::Html) => r matches Ok(x) && x.format == ExportFormat::Html
                && x.content@ == matrix_html(matrix, rate@),
            Some(ExportFormat::Markdown) => match r {
                Ok(x) => x.format == ExportFormat::Markdown && x.content@ == matrix_markdown(
                    matrix,
                    rate@,
                ),
                Err(e) => e@ == unshortenable_message() && exists|i: int|
                    0 <= i < matrix.entries.len() && !shortenable(
                        (#[trigger] matrix.entries@[i]).requirement_text@,
                    ),
            },
        },
{
    let f = parse_matrix_format(format)?;
    match export_compliance_matrix(&matrix, f, json, rate) {
        Some(x) => Ok(x),
        None => Err(
            String::from_str("Requirement text cannot be shortened without splitting a character"),
        ),
    }
}

/// Builds the compliance matrix of an analysis.
pub fn generate_matrix(analysis: RfpAnalysis, project_name: String) -> (r: Result<ComplianceMatrix, String>)
    ensures
        r matches Ok(m) && {
            &&& m.project_name@ == project_name@
            &&& m.rfp_name == analysis.document_name
            &&& m.created_at == m.updated_at
            &&& m.entries.len() == analysis.requirements.len()
            &&& forall|i: int|
                0 <= i < m.entries.len() ==> entry_from_requirement(
                    #[trigger] m.entries@[i],
                    analysis.requirements@[i],
                )
            &&& summary_of(m.summary, m.entries@)
        },
{
    Ok(generate_compliance_matrix(&analysis, project_name.as_str()))
}

/// The gap analysis of a matrix, given its progress.
pub fn analyze_gaps(matrix: ComplianceMatrix, progress: Progress) -> (r: Result<GapAnalysis, String>)
    ensures
        r matches Ok(a) && {
            &&& a.total_gaps == gaps_of(matrix.entries@).len()
            &&& gaps_view(a.critical_gaps@) == gaps_with_priority(
                gaps_of(matrix.entries@),
                RequirementPriority::Critical,
            )
            &&& gaps_view(a.high_gaps@) == gaps_with_priority(
                gaps_of(matrix.entries@),
                RequirementPriority::High,
            )
            &&& gaps_view(a.medium_gaps@) == gaps_with_priority(
                gaps_of(matrix.entries@),
                RequirementPriority::Medium,
            )
            &&& gaps_view(a.low_gaps@) == gaps_with_priority(
                gaps_of(matrix.entries@),
                RequirementPriority::Low,
            )
            &&& a.recommendations.deep_view() == recommendations(
                matrix.entries@,
                gaps_of(matrix.entries@),
                progress,
            )
        },
{
    Ok(perform_gap_analysis(&matrix, &progress))
}

/// Calculates the compliance summary of a matrix from its entries.
pub fn get_compliance_summary(matrix: ComplianceMatrix) -> (r: Result<ComplianceSummary, String>)
    ensures
        r matches Ok(s) && summary_of(s, matrix.entries@),
{
    Ok(calculate_summary(&matrix.entries))
}

} // verus!

verus! {

/// Law: two lists of entries that differ in the entry at `i` alone have the
/// same number of entries of each status, except that the old entry's
/// status loses one and the new entry's status gains one. So updating an
/// entry (`update_compliance_entry`) moves exactly one count of the summary.
pub proof fn lemma_update_moves_one_count(
    old: Seq<ComplianceEntry>,
    new: Seq<ComplianceEntry>,
    i: int,
    s: ComplianceStatus,
)
    requires
        0 <= i < old.len(),
        new.len() == old.len(),
        forall|j: int| 0 <= j < old.len() && j != i ==> new[j] == old[j],
    ensures
        count_status(new, s) + (if old[i].status == s {
            1int
        } else {
            0int
        }) == count_status(old, s) + (if new[i].status == s {
            1int
        } else {
            0int
        }),
    decreases old.len(),
{
    if i < old.len() - 1 {
        lemma_update_moves_one_count(old.drop_last(), new.drop_last(), i, s);
        assert(new.last() == old.last());
    } else {
        assert(new.drop_last() =~= old.drop_last());
    }
}

} // verus!

verus! {

/// One if `b` holds, zero otherwise.
pub open spec fn one_if(b: bool) -> int {
    if b {
        1
    } else {
        0
    }
}

/// Law: the advice for a matrix lists, in this order and each only when it
/// applies: the count of critical gaps (`URGENT: ...`), of security gaps, of
/// staffing gaps, of requirements not started, and the progress message for
/// a progress below half or below four fifths; when none applies, the advice
/// is the single note that all requirements are being addressed.
pub proof fn lemma_recommendation_messages(es: Seq<ComplianceEntry>, gs: Seq<GapView>, p: Progress)
    ensures
        ({
            let r = recommendations(es, gs, p);
            let critical = gaps_with_priority(gs, RequirementPriority::Critical).len();
            let security = gaps_with_category(gs, RequirementCategory::Security).len();
            let staffing = gaps_with_category(gs, RequirementCategory::Staffing).len();
            let not_started = count_status(es, ComplianceStatus::NotStarted);
            let at_security = one_if(critical > 0);
            let at_staffing = at_security + one_if(security > 0);
            let at_not_started = at_staffing + one_if(staffing > 0);
            let at_progress = at_not_started + one_if(not_started > 0);
            let count = at_progress + one_if(p.band != ProgressBand::Beyond);
            &&& critical > 0 ==> r[0] == "URGENT: "@ + decimal(critical)
                + " critical requirement(s) have compliance gaps. Address these first."@
            &&& security > 0 ==> r[at_security] == "Security: "@ + decimal(security)
                + " gap(s) identified. Engage security team for review."@
            &&& staffing > 0 ==> r[at_staffing] == "Staffing: "@ + decimal(staffing)
                + " gap(s) identified. Review resource availability and consider partners."@
            &&& not_started > 0 ==> r[at_not_started] == decimal(not_started)
                + " requirement(s) not yet started. Assign owners to ensure coverage."@
            &&& p.band == ProgressBand::BelowHalf ==> r[at_progress] == "Overall progress at "@
                + p.percent@ + "%. Accelerate response development."@
            &&& p.band == ProgressBand::BelowFourFifths ==> r[at_progress] == "Good progress at "@
                + p.percent@ + "%. Focus on closing remaining gaps."@
            &&& count > 0 ==> r.len() == count
            &&& count == 0 ==> r == seq![
                "All requirements are being addressed. Continue current approach."@,
            ]
        }),
{
    reveal_strlit("");
    assert(""@ + decimal(count_status(es, ComplianceStatus::NotStarted)) =~= decimal(
        count_status(es, ComplianceStatus::NotStarted),
    ));
}

} // verus!

verus! {

/// A gap reports entry `e`: its id, text, category, priority and status
/// (non-compliant, partially compliant or not started), a description naming
/// the requirement and saying how far it falls short, and the action suited
/// to its status (and, when non-compliant, to its category).
pub open spec fn gap_reports(g: GapView, e: ComplianceEntry) -> bool {
    &&& g.requirement_id == e.requirement_id@
    &&& g.requirement_text == e.requirement_text@
    &&& g.category == e.category
    &&& g.priority == e.priority
    &&& g.current_status == e.status
    &&& match e.status {
        ComplianceStatus::NonCompliant => {
            &&& g.gap_description == "Requirement "@ + e.requirement_id@
                + " is not met. No compliant solution has been identified."@
            &&& g.suggested_action == if e.category == RequirementCategory::Technical {
                "Evaluate technical alternatives or propose exception with mitigation plan."@
            } else if e.category == RequirementCategory::Staffing {
                "Identify qualified personnel or plan for recruitment/subcontracting."@
            } else if e.category == RequirementCategory::Experience {
                "Consider teaming arrangements or highlight transferable experience."@
            } else {
                "Review requirement and determine appropriate response strategy."@
            }
        },
        ComplianceStatus::PartiallyCompliant => {
            &&& g.gap_description == "Requirement "@ + e.requirement_id@
                + " is only partially addressed. Additional work needed."@
            &&& g.suggested_action
                == "Document existing compliance and propose plan to address remaining gaps."@
        },
        ComplianceStatus::NotStarted => {
            &&& g.gap_description == "Requirement "@ + e.requirement_id@
                + " has not been addressed yet."@
            &&& g.suggested_action
                == "Assign owner and develop response strategy for this requirement."@
        },
        _ => false,
    }
}

/// Law: the gaps of a matrix are its non-compliant, partially compliant and
/// not-started entries, one gap each: there are as many gaps as such
/// entries, and every gap reports one of the entries (see `gap_reports`).
pub proof fn lemma_gaps_report_entries(es: Seq<ComplianceEntry>)
    ensures
        gaps_of(es).len() == count_status(es, ComplianceStatus::NonCompliant) + count_status(
            es,
            ComplianceStatus::PartiallyCompliant,
        ) + count_status(es, ComplianceStatus::NotStarted),
        forall|k: int|
            0 <= k < gaps_of(es).len() ==> exists|i: int|
                0 <= i < es.len() && gap_reports(#[trigger] gaps_of(es)[k], es[i]),
    decreases es.len(),
{
    if es.len() > 0 {
        let prev = es.drop_last();
        lemma_gaps_report_entries(prev);
        let all = gaps_of(es);
        assert forall|k: int| 0 <= k < all.len() implies exists|i: int|
            0 <= i < es.len() && gap_reports(#[trigger] all[k], es[i]) by {
            if k < gaps_of(prev).len() {
                assert(all[k] == gaps_of(prev)[k]);
                let i = choose|i: int| 0 <= i < prev.len() && gap_reports(gaps_of(prev)[k], prev[i]);
                assert(es[i] == prev[i]);
            } else {
                let n = es.len() - 1;
                assert(all[k] == gap_of(es[n]));
                assert(gap_reports(all[k], es[n]));
            }
        }
    }
}

} // verus!
