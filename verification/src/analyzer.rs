//! RFP document analysis: requirements, deadlines, critical terms and
//! evaluation criteria extracted from the text of an RFP.
use vstd::prelude::*;
use crate::text::{
    chars_of, contains_seq, contains_str, decimal_pad4, eq_str, push_decimal_pad4, spec_lowercase,
    to_lowercase, trim, trim_str,
};
use crate::outside::{
    regex_captures, regex_escape, regex_escaped, regex_find_all, spec_regex_captures,
    spec_regex_find_all,
};
use vstd::utf8::{decode_utf8, encode_utf8, is_char_boundary};

verus! {

/// Sets up the RFP module; the analyzers keep no state.
pub fn init_rfp() {
}

/// What area a requirement concerns.
#[derive(Clone, Copy, Debug, PartialEq, Eq, Structural)]
pub enum RequirementCategory {
    Technical,
    Management,
    Financial,
    Legal,
    Staffing,
    Timeline,
    Deliverable,
    Qualification,
    Experience,
    Security,
    Other,
}

/// How binding a requirement is.
#[derive(Clone, Copy, Debug, PartialEq, Eq, Structural)]
pub enum RequirementPriority {
    Critical,
    High,
    Medium,
    Low,
}

/// How far the response meets a requirement.
#[derive(Clone, Copy, Debug, PartialEq, Eq, Structural)]
pub enum ComplianceStatus {
    NotStarted,
    InProgress,
    Compliant,
    PartiallyCompliant,
    NonCompliant,
    NotApplicable,
}

/// A requirement extracted from an RFP.
pub struct Requirement {
    pub id: String,
    pub text: String,
    pub category: RequirementCategory,
    pub priority: RequirementPriority,
    pub section: Option<String>,
    pub page: Option<u32>,
    pub keywords: Vec<String>,
    pub compliance_status: ComplianceStatus,
    pub response_text: Option<String>,
    pub notes: Option<String>,
}

/// What a deadline is for.
#[derive(Clone, Copy, Debug, PartialEq, Eq, Structural)]
pub enum DeadlineType {
    Submission,
    Question,
    SiteVisit,
    Award,
    ContractStart,
    Deliverable,
    Other,
}

/// A deadline or milestone extracted from an RFP.
pub struct Deadline {
    pub id: String,
    pub description: String,
    pub date: Option<String>,
    pub deadline_type: DeadlineType,
    pub is_mandatory: bool,
}

/// The kind of a critical term.
#[derive(Clone, Copy, Debug, PartialEq, Eq, Structural)]
pub enum CriticalTermType {
    MustRequirement,
    ShallRequirement,
    WillRequirement,
    MayRequirement,
    Penalty,
    Bonus,
    Disqualification,
    Evaluation,
    Legal,
}

/// One place where a critical term occurs: the surrounding text and the
/// byte offset of the occurrence.
pub struct TermOccurrence {
    pub context: String,
    pub page: Option<u32>,
    pub position: usize,
}

/// A critical term and where it occurs.
pub struct CriticalTerm {
    pub term: String,
    pub term_type: CriticalTermType,
    pub occurrences: Vec<TermOccurrence>,
}

/// An evaluation criterion. `weight_text` is the matched text that states
/// its weight (a number when the criterion has one).
pub struct EvaluationCriterion {
    pub name: String,
    pub description: Option<String>,
    pub weight_text: Option<String>,
}

/// Overall risk of responding to an RFP.
#[derive(Clone, Copy, Debug, PartialEq, Eq, Structural)]
pub enum RiskLevel {
    Low,
    Medium,
    High,
    Critical,
}

/// Headline figures of an analysis.
pub struct DocumentSummary {
    pub total_requirements: usize,
    pub critical_requirements: usize,
    pub total_deadlines: usize,
    pub has_mandatory_deadlines: bool,
    pub estimated_effort: Option<String>,
    pub risk_level: RiskLevel,
}

/// The result of analysing an RFP.
pub struct RfpAnalysis {
    pub document_name: String,
    pub requirements: Vec<Requirement>,
    pub deadlines: Vec<Deadline>,
    pub critical_terms: Vec<CriticalTerm>,
    pub evaluation_criteria: Vec<EvaluationCriterion>,
    pub summary: DocumentSummary,
}

} // verus!

verus! {

/// The mathematical content of a [`Requirement`].
pub struct RequirementView {
    pub id: Seq<char>,
    pub text: Seq<char>,
    pub category: RequirementCategory,
    pub priority: RequirementPriority,
    pub section: Option<Seq<char>>,
    pub page: Option<u32>,
    pub keywords: Seq<Seq<char>>,
    pub compliance_status: ComplianceStatus,
    pub response_text: Option<Seq<char>>,
    pub notes: Option<Seq<char>>,
}

impl View for Requirement {
    type V = RequirementView;

    open spec fn view(&self) -> RequirementView {
        RequirementView {
            id: self.id@,
            text: self.text@,
            category: self.category,
            priority: self.priority,
            section: self.section.deep_view(),
            page: self.page,
            keywords: self.keywords.deep_view(),
            compliance_status: self.compliance_status,
            response_text: self.response_text.deep_view(),
            notes: self.notes.deep_view(),
        }
    }
}

pub open spec fn requirements_view(v: Seq<Requirement>) -> Seq<RequirementView> {
    v.map_values(|r: Requirement| r@)
}

// ---- Categories -----------------------------------------------------------

/// The category of a requirement, decided on its lower-cased text by the
/// first group of keywords that occurs in it.
pub open spec fn category_of(text: Seq<char>) -> RequirementCategory {
    let t = spec_lowercase(text);
    if contains_seq(t, "security"@) || contains_seq(t, "encrypt"@) || contains_seq(
        t,
        "authentication"@,
    ) || contains_seq(t, "clearance"@) {
        RequirementCategory::Security
    } else if contains_seq(t, "staff"@) || contains_seq(t, "personnel"@) || contains_seq(
        t,
        "team"@,
    ) || contains_seq(t, "resource"@) {
        RequirementCategory::Staffing
    } else if contains_seq(t, "deliver"@) || contains_seq(t, "report"@) || contains_seq(
        t,
        "document"@,
    ) {
        RequirementCategory::Deliverable
    } else if contains_seq(t, "schedule"@) || contains_seq(t, "timeline"@) || contains_seq(
        t,
        "milestone"@,
    ) || contains_seq(t, "deadline"@) {
        RequirementCategory::Timeline
    } else if contains_seq(t, "cost"@) || contains_seq(t, "price"@) || contains_seq(t, "budget"@)
        || contains_seq(t, "payment"@) {
        RequirementCategory::Financial
    } else if contains_seq(t, "experience"@) || contains_seq(t, "past performance"@)
        || contains_seq(t, "reference"@) {
        RequirementCategory::Experience
    } else if contains_seq(t, "certif"@) || contains_seq(t, "license"@) || contains_seq(
        t,
        "qualified"@,
    ) {
        RequirementCategory::Qualification
    } else if contains_seq(t, "manage"@) || contains_seq(t, "plan"@) || contains_seq(
        t,
        "approach"@,
    ) || contains_seq(t, "methodology"@) {
        RequirementCategory::Management
    } else if contains_seq(t, "law"@) || contains_seq(t, "regulation"@) || contains_seq(
        t,
        "compliance"@,
    ) || contains_seq(t, "federal"@) {
        RequirementCategory::Legal
    } else if contains_seq(t, "system"@) || contains_seq(t, "software"@) || contains_seq(
        t,
        "hardware"@,
    ) || contains_seq(t, "technical"@) || contains_seq(t, "implement"@) {
        RequirementCategory::Technical
    } else {
        RequirementCategory::Other
    }
}

/// Categorises a requirement by the keywords in its text.
pub fn categorize_requirement(text: &str) -> (c: RequirementCategory)
    ensures
        c == category_of(text@),
        category_fits_words(spec_lowercase(text@), c),
{
    proof {
        lemma_category_from_words(text@);
    }
    let lower = to_lowercase(text);
    let t = chars_of(lower.as_str());
    let t = t.as_slice();
    if contains_str(t, "security") || contains_str(t, "encrypt") || contains_str(
        t,
        "authentication",
    ) || contains_str(t, "clearance") {
        RequirementCategory::Security
    } else if contains_str(t, "staff") || contains_str(t, "personnel") || contains_str(t, "team")
        || contains_str(t, "resource") {
        RequirementCategory::Staffing
    } else if contains_str(t, "deliver") || contains_str(t, "report") || contains_str(
        t,
        "document",
    ) {
        RequirementCategory::Deliverable
    } else if contains_str(t, "schedule") || contains_str(t, "timeline") || contains_str(
        t,
        "milestone",
    ) || contains_str(t, "deadline") {
        RequirementCategory::Timeline
    } else if contains_str(t, "cost") || contains_str(t, "price") || contains_str(t, "budget")
        || contains_str(t, "payment") {
        RequirementCategory::Financial
    } else if contains_str(t, "experience") || contains_str(t, "past performance") || contains_str(
        t,
        "reference",
    ) {
        RequirementCategory::Experience
    } else if contains_str(t, "certif") || contains_str(t, "license") || contains_str(
        t,
        "qualified",
    ) {
        RequirementCategory::Qualification
    } else if contains_str(t, "manage") || contains_str(t, "plan") || contains_str(t, "approach")
        || contains_str(t, "methodology") {
        RequirementCategory::Management
    } else if contains_str(t, "law") || contains_str(t, "regulation") || contains_str(
        t,
        "compliance",
    ) || contains_str(t, "federal") {
        RequirementCategory::Legal
    } else if contains_str(t, "system") || contains_str(t, "software") || contains_str(
        t,
        "hardware",
    ) || contains_str(t, "technical") || contains_str(t, "implement") {
        RequirementCategory::Technical
    } else {
        RequirementCategory::Other
    }
}


// ---- Category keywords ----------------------------------------------------

/// Security wording: `security`, `encrypt`, `authentication`, `clearance`.
pub open spec fn says_security(t: Seq<char>) -> bool {
    contains_seq(t, "security"@) || contains_seq(t, "encrypt"@) || contains_seq(t, "authentication"@)
        || contains_seq(t, "clearance"@)
}

/// Staffing wording: `staff`, `personnel`, `team`, `resource`.
pub open spec fn says_staffing(t: Seq<char>) -> bool {
    contains_seq(t, "staff"@) || contains_seq(t, "personnel"@) || contains_seq(t, "team"@)
        || contains_seq(t, "resource"@)
}

/// Deliverable wording: `deliver`, `report`, `document`.
pub open spec fn says_deliverable(t: Seq<char>) -> bool {
    contains_seq(t, "deliver"@) || contains_seq(t, "report"@) || contains_seq(t, "document"@)
}

/// Timeline wording: `schedule`, `timeline`, `milestone`, `deadline`.
pub open spec fn says_timeline(t: Seq<char>) -> bool {
    contains_seq(t, "schedule"@) || contains_seq(t, "timeline"@) || contains_seq(t, "milestone"@)
        || contains_seq(t, "deadline"@)
}

/// Financial wording: `cost`, `price`, `budget`, `payment`.
pub open spec fn says_financial(t: Seq<char>) -> bool {
    contains_seq(t, "cost"@) || contains_seq(t, "price"@) || contains_seq(t, "budget"@)
        || contains_seq(t, "payment"@)
}

/// Experience wording: `experience`, `past performance`, `reference`.
pub open spec fn says_experience(t: Seq<char>) -> bool {
    contains_seq(t, "experience"@) || contains_seq(t, "past performance"@) || contains_seq(
        t,
        "reference"@,
    )
}

/// Qualification wording: `certif`, `license`, `qualified`.
pub open spec fn says_qualification(t: Seq<char>) -> bool {
    contains_seq(t, "certif"@) || contains_seq(t, "license"@) || contains_seq(t, "qualified"@)
}

/// Management wording: `manage`, `plan`, `approach`, `methodology`.
pub open spec fn says_management(t: Seq<char>) -> bool {
    contains_seq(t, "manage"@) || contains_seq(t, "plan"@) || contains_seq(t, "approach"@)
        || contains_seq(t, "methodology"@)
}

/// Legal wording: `law`, `regulation`, `compliance`, `federal`.
pub open spec fn says_legal(t: Seq<char>) -> bool {
    contains_seq(t, "law"@) || contains_seq(t, "regulation"@) || contains_seq(t, "compliance"@)
        || contains_seq(t, "federal"@)
}

/// Technical wording: `system`, `software`, `hardware`, `technical`,
/// `implement`.
pub open spec fn says_technical(t: Seq<char>) -> bool {
    contains_seq(t, "system"@) || contains_seq(t, "software"@) || contains_seq(t, "hardware"@)
        || contains_seq(t, "technical"@) || contains_seq(t, "implement"@)
}

/// The category `c` is the one the lower-cased text `t` asks for: security
/// wording wins over everything; then staffing, deliverable, timeline,
/// financial, experience, qualification, management, legal and technical
/// wording, each only when no earlier kind occurs; and a text with none of
/// these words is Other.
pub open spec fn category_fits_words(t: Seq<char>, c: RequirementCategory) -> bool {
    &&& (c == RequirementCategory::Security <==> says_security(t))
    &&& (c == RequirementCategory::Staffing <==> !says_security(t) && says_staffing(t))
    &&& (c == RequirementCategory::Deliverable <==> !says_security(t) && !says_staffing(t)
        && says_deliverable(t))
    &&& (c == RequirementCategory::Timeline <==> !says_security(t) && !says_staffing(t)
        && !says_deliverable(t) && says_timeline(t))
    &&& (c == RequirementCategory::Financial <==> !says_security(t) && !says_staffing(t)
        && !says_deliverable(t) && !says_timeline(t) && says_financial(t))
    &&& (c == RequirementCategory::Experience <==> !says_security(t) && !says_staffing(t)
        && !says_deliverable(t) && !says_timeline(t) && !says_financial(t) && says_experience(t))
    &&& (c == RequirementCategory::Qualification <==> !says_security(t) && !says_staffing(t)
        && !says_deliverable(t) && !says_timeline(t) && !says_financial(t) && !says_experience(t)
        && says_qualification(t))
    &&& (c == RequirementCategory::Management <==> !says_security(t) && !says_staffing(t)
        && !says_deliverable(t) && !says_timeline(t) && !says_financial(t) && !says_experience(t)
        && !says_qualification(t) && says_management(t))
    &&& (c == RequirementCategory::Legal <==> !says_security(t) && !says_staffing(t)
        && !says_deliverable(t) && !says_timeline(t) && !says_financial(t) && !says_experience(t)
        && !says_qualification(t) && !says_management(t) && says_legal(t))
    &&& (c == RequirementCategory::Technical <==> !says_security(t) && !says_staffing(t)
        && !says_deliverable(t) && !says_timeline(t) && !says_financial(t) && !says_experience(t)
        && !says_qualification(t) && !says_management(t) && !says_legal(t) && says_technical(t))
    &&& (c == RequirementCategory::Other <==> !says_security(t) && !says_staffing(t)
        && !says_deliverable(t) && !says_timeline(t) && !says_financial(t) && !says_experience(t)
        && !says_qualification(t) && !says_management(t) && !says_legal(t) && !says_technical(t))
}

/// Law: a requirement's category is the one its lower-cased wording asks
/// for (see `category_fits_words`); in particular any text that mentions
/// security, encryption, authentication or clearance is a Security
/// requirement.
pub proof fn lemma_category_from_words(text: Seq<char>)
    ensures
        category_fits_words(spec_lowercase(text), category_of(text)),
{
}

// ---- Risk and effort ------------------------------------------------------

pub open spec fn critical_count(rs: Seq<Requirement>) -> nat
    decreases rs.len(),
{
    if rs.len() == 0 {
        0
    } else {
        critical_count(rs.drop_last()) + if rs.last().priority == RequirementPriority::Critical {
            1nat
        } else {
            0nat
        }
    }
}

pub open spec fn mandatory_count(ds: Seq<Deadline>) -> nat
    decreases ds.len(),
{
    if ds.len() == 0 {
        0
    } else {
        mandatory_count(ds.drop_last()) + if ds.last().is_mandatory {
            1nat
        } else {
            0nat
        }
    }
}

/// The risk level for a number of critical requirements, of mandatory
/// deadlines and of requirements.
pub open spec fn risk_for(critical: nat, mandatory: nat, total: nat) -> RiskLevel {
    if critical > 20 || mandatory > 5 || total > 100 {
        RiskLevel::Critical
    } else if critical > 10 || mandatory > 3 || total > 50 {
        RiskLevel::High
    } else if critical > 5 || mandatory > 1 || total > 20 {
        RiskLevel::Medium
    } else {
        RiskLevel::Low
    }
}

/// The position of a risk level, from low to critical.
pub open spec fn risk_rank(r: RiskLevel) -> nat {
    match r {
        RiskLevel::Low => 0,
        RiskLevel::Medium => 1,
        RiskLevel::High => 2,
        RiskLevel::Critical => 3,
    }
}

/// Law: more critical requirements, mandatory deadlines or requirements
/// never lower the risk level.
pub proof fn lemma_risk_monotone(c1: nat, m1: nat, t1: nat, c2: nat, m2: nat, t2: nat)
    requires
        c1 <= c2,
        m1 <= m2,
        t1 <= t2,
    ensures
        risk_rank(risk_for(c1, m1, t1)) <= risk_rank(risk_for(c2, m2, t2)),
{
}

proof fn lemma_count_bounds(rs: Seq<Requirement>, ds: Seq<Deadline>)
    ensures
        critical_count(rs) <= rs.len(),
        mandatory_count(ds) <= ds.len(),
    decreases rs.len() + ds.len(),
{
    if rs.len() > 0 {
        lemma_count_bounds(rs.drop_last(), ds);
    } else if ds.len() > 0 {
        lemma_count_bounds(rs, ds.drop_last());
    }
}

/// Number of critical requirements.
pub fn count_critical(requirements: &[Requirement]) -> (n: usize)
    ensures
        n == critical_count(requirements@),
{
    let mut n: usize = 0;
    let mut i: usize = 0;
    while i < requirements.len()
        invariant
            i <= requirements.len(),
            n == critical_count(requirements@.take(i as int)),
        decreases requirements.len() - i,
    {
        proof {
            assert(requirements@.take(i + 1).drop_last() == requirements@.take(i as int));
            lemma_count_bounds(requirements@.take(i as int), seq![]);
        }
        if requirements[i].priority == RequirementPriority::Critical {
            n = n + 1;
        }
        i = i + 1;
    }
    assert(requirements@.take(requirements.len() as int) == requirements@);
    n
}

/// Number of mandatory deadlines.
pub fn count_mandatory(deadlines: &[Deadline]) -> (n: usize)
    ensures
        n == mandatory_count(deadlines@),
{
    let mut n: usize = 0;
    let mut i: usize = 0;
    while i < deadlines.len()
        invariant
            i <= deadlines.len(),
            n == mandatory_count(deadlines@.take(i as int)),
        decreases deadlines.len() - i,
    {
        proof {
            assert(deadlines@.take(i + 1).drop_last() == deadlines@.take(i as int));
            lemma_count_bounds(seq![], deadlines@.take(i as int));
        }
        if deadlines[i].is_mandatory {
            n = n + 1;
        }
        i = i + 1;
    }
    assert(deadlines@.take(deadlines.len() as int) == deadlines@);
    n
}

/// The risk of responding, from the counts of critical requirements,
/// mandatory deadlines and requirements.
pub fn calculate_risk_level(requirements: &[Requirement], deadlines: &[Deadline]) -> (r: RiskLevel)
    ensures
        r == risk_for(critical_count(requirements@), mandatory_count(deadlines@), requirements@.len()),
{
    let critical = count_critical(requirements);
    let mandatory = count_mandatory(deadlines);
    let total = requirements.len();
    if critical > 20 || mandatory > 5 || total > 100 {
        RiskLevel::Critical
    } else if critical > 10 || mandatory > 3 || total > 50 {
        RiskLevel::High
    } else if critical > 5 || mandatory > 1 || total > 20 {
        RiskLevel::Medium
    } else {
        RiskLevel::Low
    }
}

/// The effort estimate for a number of requirements (none for zero).
pub open spec fn effort_for(count: nat) -> Option<Seq<char>> {
    if count > 100 {
        Some("Very High (100+ requirements)"@)
    } else if count > 50 {
        Some("High (50-100 requirements)"@)
    } else if count > 20 {
        Some("Medium (20-50 requirements)"@)
    } else if count > 0 {
        Some("Low (< 20 requirements)"@)
    } else {
        None
    }
}

/// Estimates the response effort from the number of requirements.
pub fn estimate_effort(requirements: &[Requirement]) -> (r: Option<String>)
    ensures
        r.deep_view() == effort_for(requirements@.len()),
{
    let count = requirements.len();
    if count > 100 {
        Some(String::from_str("Very High (100+ requirements)"))
    } else if count > 50 {
        Some(String::from_str("High (50-100 requirements)"))
    } else if count > 20 {
        Some(String::from_str("Medium (20-50 requirements)"))
    } else if count > 0 {
        Some(String::from_str("Low (< 20 requirements)"))
    } else {
        None
    }
}

/// Sets the compliance status of a requirement, and its response text and
/// notes where new ones are given.
pub fn update_requirement_status(
    requirement: Requirement,
    status: ComplianceStatus,
    response_text: Option<String>,
    notes: Option<String>,
) -> (r: Result<Requirement, String>)
    ensures
        r matches Ok(q) && {
            &&& q.id == requirement.id
            &&& q.text == requirement.text
            &&& q.category == requirement.category
            &&& q.priority == requirement.priority
            &&& q.section == requirement.section
            &&& q.page == requirement.page
            &&& q.keywords == requirement.keywords
            &&& q.compliance_status == status
            &&& q.response_text == if response_text is Some {
                response_text
            } else {
                requirement.response_text
            }
            &&& q.notes == if notes is Some {
                notes
            } else {
                requirement.notes
            }
        },
{
    let mut requirement = requirement;
    requirement.compliance_status = status;
    if response_text.is_some() {
        requirement.response_text = response_text;
    }
    if notes.is_some() {
        requirement.notes = notes;
    }
    Ok(requirement)
}

} // verus!

verus! {

// ---- Keywords -------------------------------------------------------------

/// The pattern of a keyword candidate: a whole word of three or more ASCII
/// letters.
pub open spec fn word_pattern() -> Seq<char> {
    "\\b[a-zA-Z]{3,}\\b"@
}

/// Common words that never count as keywords.
pub open spec fn is_stop_word(w: Seq<char>) -> bool {
    w == "the"@
        || w == "a"@
        || w == "an"@
        || w == "and"@
        || w == "or"@
        || w == "but"@
        || w == "in"@
        || w == "on"@
        || w == "at"@
        || w == "to"@
        || w == "for"@
        || w == "of"@
        || w == "with"@
        || w == "by"@
        || w == "from"@
        || w == "as"@
        || w == "is"@
        || w == "was"@
        || w == "are"@
        || w == "were"@
        || w == "been"@
        || w == "be"@
        || w == "have"@
        || w == "has"@
        || w == "had"@
        || w == "do"@
        || w == "does"@
        || w == "did"@
        || w == "will"@
        || w == "would"@
        || w == "could"@
        || w == "should"@
        || w == "may"@
        || w == "might"@
        || w == "must"@
        || w == "shall"@
        || w == "can"@
        || w == "this"@
        || w == "that"@
        || w == "these"@
        || w == "those"@
        || w == "it"@
        || w == "its"@
        || w == "their"@
        || w == "they"@
        || w == "them"@
        || w == "contractor"@
        || w == "vendor"@
        || w == "offeror"@
        || w == "bidder"@
        || w == "proposer"@
        || w == "provider"@
}

fn stop_word(w: &str) -> (b: bool)
    ensures
        b == is_stop_word(w@),
{
    eq_str(w, "the")
        || eq_str(w, "a")
        || eq_str(w, "an")
        || eq_str(w, "and")
        || eq_str(w, "or")
        || eq_str(w, "but")
        || eq_str(w, "in")
        || eq_str(w, "on")
        || eq_str(w, "at")
        || eq_str(w, "to")
        || eq_str(w, "for")
        || eq_str(w, "of")
        || eq_str(w, "with")
        || eq_str(w, "by")
        || eq_str(w, "from")
        || eq_str(w, "as")
        || eq_str(w, "is")
        || eq_str(w, "was")
        || eq_str(w, "are")
        || eq_str(w, "were")
        || eq_str(w, "been")
        || eq_str(w, "be")
        || eq_str(w, "have")
        || eq_str(w, "has")
        || eq_str(w, "had")
        || eq_str(w, "do")
        || eq_str(w, "does")
        || eq_str(w, "did")
        || eq_str(w, "will")
        || eq_str(w, "would")
        || eq_str(w, "could")
        || eq_str(w, "should")
        || eq_str(w, "may")
        || eq_str(w, "might")
        || eq_str(w, "must")
        || eq_str(w, "shall")
        || eq_str(w, "can")
        || eq_str(w, "this")
        || eq_str(w, "that")
        || eq_str(w, "these")
        || eq_str(w, "those")
        || eq_str(w, "it")
        || eq_str(w, "its")
        || eq_str(w, "their")
        || eq_str(w, "they")
        || eq_str(w, "them")
        || eq_str(w, "contractor")
        || eq_str(w, "vendor")
        || eq_str(w, "offeror")
        || eq_str(w, "bidder")
        || eq_str(w, "proposer")
        || eq_str(w, "provider")
}

/// The lower-cased texts of the matches, stop words left out, in order.
pub open spec fn kept_words(ms: Seq<(usize, usize, Seq<char>)>) -> Seq<Seq<char>>
    decreases ms.len(),
{
    if ms.len() == 0 {
        seq![]
    } else {
        let prev = kept_words(ms.drop_last());
        let w = spec_lowercase(ms.last().2);
        if is_stop_word(w) {
            prev
        } else {
            prev.push(w)
        }
    }
}

/// The first `n` items of `s` (all of them when there are fewer).
pub open spec fn at_most<T>(s: Seq<T>, n: nat) -> Seq<T> {
    if s.len() > n {
        s.take(n as int)
    } else {
        s
    }
}

/// The keywords given the matches of the word pattern: the first ten kept
/// words.
pub open spec fn keywords_of(ms: Seq<(usize, usize, Seq<char>)>) -> Seq<Seq<char>> {
    at_most(kept_words(ms), 10)
}

/// The keywords of a text (none if the word pattern were refused).
pub open spec fn keywords_for(text: Seq<char>) -> Seq<Seq<char>> {
    match spec_regex_find_all(word_pattern(), text) {
        Some(ms) => keywords_of(ms),
        None => seq![],
    }
}

/// The keywords of a text, given the matches of the word pattern in it.
pub fn keywords_from_matches(matches: &Vec<(usize, usize, String)>) -> (r: Vec<String>)
    ensures
        r.deep_view() == keywords_of(matches.deep_view()),
{
    let ghost ms = matches.deep_view();
    let mut r: Vec<String> = Vec::new();
    let mut i: usize = 0;
    while i < matches.len()
        invariant
            i <= matches.len(),
            ms == matches.deep_view(),
            r.deep_view() == at_most(kept_words(ms.take(i as int)), 10),
        decreases matches.len() - i,
    {
        let w = to_lowercase(matches[i].2.as_str());
        proof {
            assert(ms.take(i + 1).drop_last() == ms.take(i as int));
            assert(ms.take(i + 1).last() == ms[i as int]);
        }
        let ghost prev = kept_words(ms.take(i as int));
        if !stop_word(w.as_str()) && r.len() < 10 {
            let ghost before = r.deep_view();
            let ghost wv = w@;
            r.push(w);
            assert(r.deep_view() =~= before.push(wv));
        } else {
            assert(r.deep_view() =~= at_most(kept_words(ms.take(i + 1)), 10));
        }
        i = i + 1;
    }
    assert(ms.take(matches.len() as int) == ms);
    r
}

/// Extracts up to ten keywords from a text: its words of three or more
/// letters, lower-cased, without stop words.
pub fn extract_keywords(text: &str) -> (r: Vec<String>)
    ensures
        r.deep_view() == keywords_for(text@),
{
    match regex_find_all("\\b[a-zA-Z]{3,}\\b", text) {
        Some(ms) => keywords_from_matches(&ms),
        None => Vec::new(),
    }
}

} // verus!

verus! {

// ---- Requirements ---------------------------------------------------------

/// The patterns that find requirements, each with the priority it gives,
/// tried in this order. The whole match is the requirement's text.
pub open spec fn requirement_patterns() -> Seq<(Seq<char>, RequirementPriority)> {
    seq![
        (r"(?i)(?:the\s+)?(?:contractor|vendor|offeror|bidder|proposer|provider)\s+shall\s+([^.]+\.)"@, RequirementPriority::Critical),
        (r"(?i)(?:the\s+)?(?:contractor|vendor|offeror|bidder|proposer|provider)\s+must\s+([^.]+\.)"@, RequirementPriority::Critical),
        (r"(?i)(?:the\s+)?(?:contractor|vendor|offeror|bidder|proposer|provider)\s+will\s+([^.]+\.)"@, RequirementPriority::High),
        (r"(?i)(?:is|are)\s+required\s+to\s+([^.]+\.)"@, RequirementPriority::High),
        (r"(?m)^\s*\d+\.[\d.]*\s+(?:the\s+)?(?:system|solution|application)\s+(?:shall|must|will)\s+([^.]+\.)"@, RequirementPriority::High),
        (r"(?i)(?:mandatory|required):\s*([^.]+\.)"@, RequirementPriority::Critical),
    ]
}

fn requirement_pattern(k: usize) -> (r: (&'static str, RequirementPriority))
    requires
        k < 6,
    ensures
        r.0@ == requirement_patterns()[k as int].0,
        r.1 == requirement_patterns()[k as int].1,
{
    if k == 0 {
        (r"(?i)(?:the\s+)?(?:contractor|vendor|offeror|bidder|proposer|provider)\s+shall\s+([^.]+\.)", RequirementPriority::Critical)
    } else if k == 1 {
        (r"(?i)(?:the\s+)?(?:contractor|vendor|offeror|bidder|proposer|provider)\s+must\s+([^.]+\.)", RequirementPriority::Critical)
    } else if k == 2 {
        (r"(?i)(?:the\s+)?(?:contractor|vendor|offeror|bidder|proposer|provider)\s+will\s+([^.]+\.)", RequirementPriority::High)
    } else if k == 3 {
        (r"(?i)(?:is|are)\s+required\s+to\s+([^.]+\.)", RequirementPriority::High)
    } else if k == 4 {
        (r"(?m)^\s*\d+\.[\d.]*\s+(?:the\s+)?(?:system|solution|application)\s+(?:shall|must|will)\s+([^.]+\.)", RequirementPriority::High)
    } else {
        (r"(?i)(?:mandatory|required):\s*([^.]+\.)", RequirementPriority::Critical)
    }
}

/// The requirement numbered `n`, with the given text and priority.
pub open spec fn new_requirement(n: nat, text: Seq<char>, p: RequirementPriority) -> RequirementView {
    RequirementView {
        id: "REQ-"@ + decimal_pad4(n),
        text: text,
        category: category_of(text),
        priority: p,
        section: None,
        page: None,
        keywords: keywords_for(text),
        compliance_status: ComplianceStatus::NotStarted,
        response_text: None,
        notes: None,
    }
}

/// Some requirement of `rs` has the text `t`.
pub open spec fn has_text(rs: Seq<RequirementView>, t: Seq<char>) -> bool {
    exists|i: int| 0 <= i < rs.len() && (#[trigger] rs[i]).text == t
}

/// The text of the whole match of a capture list, if it has one.
pub open spec fn whole_match(c: Seq<Option<Seq<char>>>) -> Option<Seq<char>> {
    if c.len() > 0 {
        c[0]
    } else {
        None
    }
}

/// `rs` followed by a requirement for each match whose trimmed text no
/// earlier requirement has, numbered on from `rs`.
pub open spec fn add_matches(
    rs: Seq<RequirementView>,
    caps: Seq<Seq<Option<Seq<char>>>>,
    p: RequirementPriority,
) -> Seq<RequirementView>
    decreases caps.len(),
{
    if caps.len() == 0 {
        rs
    } else {
        let prev = add_matches(rs, caps.drop_last(), p);
        match whole_match(caps.last()) {
            Some(m) => {
                let t = trim(m);
                if has_text(prev, t) {
                    prev
                } else {
                    prev.push(new_requirement(prev.len() + 1, t, p))
                }
            },
            None => prev,
        }
    }
}

/// The requirements found by the first `k` patterns.
pub open spec fn requirements_upto(content: Seq<char>, k: nat) -> Seq<RequirementView>
    decreases k,
{
    if k == 0 {
        seq![]
    } else {
        let prev = requirements_upto(content, (k - 1) as nat);
        let (pattern, priority) = requirement_patterns()[k - 1];
        match spec_regex_captures(pattern, content) {
            Some(caps) => add_matches(prev, caps, priority),
            None => prev,
        }
    }
}

/// The requirements of a document.
pub open spec fn requirements_in(content: Seq<char>) -> Seq<RequirementView> {
    requirements_upto(content, 6)
}

fn has_requirement_text(rs: &Vec<Requirement>, t: &str) -> (b: bool)
    ensures
        b == has_text(requirements_view(rs@), t@),
{
    let ghost v = requirements_view(rs@);
    let mut i: usize = 0;
    while i < rs.len()
        invariant
            i <= rs.len(),
            v == requirements_view(rs@),
            forall|j: int| 0 <= j < i ==> (#[trigger] v[j]).text != t@,
        decreases rs.len() - i,
    {
        if eq_str(rs[i].text.as_str(), t) {
            assert(v[i as int].text == t@);
            return true;
        }
        i = i + 1;
    }
    false
}

fn make_requirement(n: u128, text: String, priority: RequirementPriority) -> (r: Requirement)
    ensures
        r@ == new_requirement(n as nat, text@, priority),
{
    let mut id = String::from_str("REQ-");
    push_decimal_pad4(&mut id, n);
    proof {
        reveal_strlit("REQ-");
    }
    let category = categorize_requirement(text.as_str());
    let keywords = extract_keywords(text.as_str());
    Requirement {
        id,
        text,
        category,
        priority,
        section: None,
        page: None,
        keywords,
        compliance_status: ComplianceStatus::NotStarted,
        response_text: None,
        notes: None,
    }
}

/// Adds the requirements that one pattern's matches give: for each match,
/// its trimmed whole text, unless a requirement already has that text.
pub fn add_requirements(
    requirements: &mut Vec<Requirement>,
    captures: &Vec<Vec<Option<String>>>,
    priority: RequirementPriority,
)
    ensures
        requirements_view(final(requirements)@) == add_matches(
            requirements_view(old(requirements)@),
            captures.deep_view(),
            priority,
        ),
{
    let ghost start = requirements_view(requirements@);
    let ghost caps = captures.deep_view();
    let mut i: usize = 0;
    while i < captures.len()
        invariant
            i <= captures.len(),
            caps == captures.deep_view(),
            requirements_view(requirements@) == add_matches(start, caps.take(i as int), priority),
        decreases captures.len() - i,
    {
        proof {
            assert(caps.take(i + 1).drop_last() == caps.take(i as int));
            assert(caps.take(i + 1).last() == caps[i as int]);
        }
        let c = &captures[i];
        if c.len() > 0 {
            match &c[0] {
                Some(m) => {
                    let t = trim_str(m.as_str());
                    if !has_requirement_text(requirements, t.as_str()) {
                        let ghost before = requirements@;
                        let n: u128 = requirements.len() as u128 + 1;
                        let r = make_requirement(n, t, priority);
                        requirements.push(r);
                        assert(requirements_view(requirements@) =~= requirements_view(before).push(
                            r@,
                        ));
                    }
                },
                None => {},
            }
        }
        i = i + 1;
    }
    assert(caps.take(captures.len() as int) == caps);
}

/// Extracts the requirements of a document, in pattern order, each text once.
pub fn extract_requirements(content: &str) -> (r: Vec<Requirement>)
    ensures
        requirements_view(r@) == requirements_in(content@),
        forall|i: int| 0 <= i < r.len() ==> requirement_fits_text((#[trigger] r@[i])@),
{
    let mut reqs: Vec<Requirement> = Vec::new();
    let mut k: usize = 0;
    while k < 6
        invariant
            k <= 6,
            requirements_view(reqs@) == requirements_upto(content@, k as nat),
        decreases 6 - k,
    {
        let (pattern, priority) = requirement_pattern(k);
        match regex_captures(pattern, content) {
            Some(caps) => add_requirements(&mut reqs, &caps, priority),
            None => {},
        }
        k = k + 1;
    }
    proof {
        lemma_requirements_fit_text(content@);
        assert forall|i: int| 0 <= i < reqs.len() implies requirement_fits_text(
            (#[trigger] reqs@[i])@,
        ) by {
            assert(requirements_in(content@)[i] == requirements_view(reqs@)[i]);
        }
    }
    reqs
}

} // verus!

verus! {

// ---- Deadlines ------------------------------------------------------------

/// The mathematical content of a [`Deadline`].
pub struct DeadlineView {
    pub id: Seq<char>,
    pub description: Seq<char>,
    pub date: Option<Seq<char>>,
    pub deadline_type: DeadlineType,
    pub is_mandatory: bool,
}

impl View for Deadline {
    type V = DeadlineView;

    open spec fn view(&self) -> DeadlineView {
        DeadlineView {
            id: self.id@,
            description: self.description@,
            date: self.date.deep_view(),
            deadline_type: self.deadline_type,
            is_mandatory: self.is_mandatory,
        }
    }
}

pub open spec fn deadlines_view(v: Seq<Deadline>) -> Seq<DeadlineView> {
    v.map_values(|d: Deadline| d@)
}

/// The patterns that find dates and deadlines, tried in this order.
pub open spec fn deadline_patterns() -> Seq<Seq<char>> {
    seq![
        r"(?i)((?:submission|proposal|response|bid)\s+(?:deadline|due\s+date)[:\s]+)([^.\n]+)"@,
        r"(?i)((?:questions?\s+)?(?:due|deadline|must\s+be\s+(?:received|submitted))\s+(?:by|on|no\s+later\s+than)[:\s]+)([^.\n]+)"@,
        r"(?i)((?:award|contract\s+start|period\s+of\s+performance)[:\s]+)([^.\n]+)"@,
        r"(?i)(\d{1,2}/\d{1,2}/\d{2,4})"@,
        r"(?i)((?:january|february|march|april|may|june|july|august|september|october|november|december)\s+\d{1,2},?\s+\d{4})"@,
    ]
}

fn deadline_pattern(k: usize) -> (r: &'static str)
    requires
        k < 5,
    ensures
        r@ == deadline_patterns()[k as int],
{
    if k == 0 {
        r"(?i)((?:submission|proposal|response|bid)\s+(?:deadline|due\s+date)[:\s]+)([^.\n]+)"
    } else if k == 1 {
        r"(?i)((?:questions?\s+)?(?:due|deadline|must\s+be\s+(?:received|submitted))\s+(?:by|on|no\s+later\s+than)[:\s]+)([^.\n]+)"
    } else if k == 2 {
        r"(?i)((?:award|contract\s+start|period\s+of\s+performance)[:\s]+)([^.\n]+)"
    } else if k == 3 {
        r"(?i)(\d{1,2}/\d{1,2}/\d{2,4})"
    } else {
        r"(?i)((?:january|february|march|april|may|june|july|august|september|october|november|december)\s+\d{1,2},?\s+\d{4})"
    }
}

/// The kind of a deadline, decided on the lower-cased text of its match.
pub open spec fn deadline_type_of(lower: Seq<char>) -> DeadlineType {
    if contains_seq(lower, "submission"@) || contains_seq(lower, "proposal"@) || contains_seq(
        lower,
        "response"@,
    ) || contains_seq(lower, "bid"@) {
        DeadlineType::Submission
    } else if contains_seq(lower, "question"@) {
        DeadlineType::Question
    } else if contains_seq(lower, "site visit"@) {
        DeadlineType::SiteVisit
    } else if contains_seq(lower, "award"@) {
        DeadlineType::Award
    } else if contains_seq(lower, "contract start"@) || contains_seq(
        lower,
        "period of performance"@,
    ) {
        DeadlineType::ContractStart
    } else {
        DeadlineType::Other
    }
}

/// A deadline is mandatory when its text says so or it is a submission.
pub open spec fn is_mandatory_deadline(lower: Seq<char>, t: DeadlineType) -> bool {
    contains_seq(lower, "mandatory"@) || contains_seq(lower, "must be"@) || contains_seq(
        lower,
        "no later than"@,
    ) || t == DeadlineType::Submission
}

/// The deadline numbered `n` for the matched text `full`.
pub open spec fn new_deadline(n: nat, full: Seq<char>) -> DeadlineView {
    let lower = spec_lowercase(full);
    let t = deadline_type_of(lower);
    DeadlineView {
        id: "DL-"@ + decimal_pad4(n),
        description: trim(full),
        date: Some(full),
        deadline_type: t,
        is_mandatory: is_mandatory_deadline(lower, t),
    }
}

/// `ds` followed by one deadline per match (with empty text where the
/// match has no whole text), numbered on from `ds`.
pub open spec fn add_deadline_matches(
    ds: Seq<DeadlineView>,
    caps: Seq<Seq<Option<Seq<char>>>>,
) -> Seq<DeadlineView>
    decreases caps.len(),
{
    if caps.len() == 0 {
        ds
    } else {
        let prev = add_deadline_matches(ds, caps.drop_last());
        let full = match whole_match(caps.last()) {
            Some(m) => m,
            None => seq![],
        };
        prev.push(new_deadline(prev.len() + 1, full))
    }
}

/// The deadlines found by the first `k` patterns.
pub open spec fn deadlines_upto(content: Seq<char>, k: nat) -> Seq<DeadlineView>
    decreases k,
{
    if k == 0 {
        seq![]
    } else {
        let prev = deadlines_upto(content, (k - 1) as nat);
        match spec_regex_captures(deadline_patterns()[k - 1], content) {
            Some(caps) => add_deadline_matches(prev, caps),
            None => prev,
        }
    }
}

/// The deadlines of a document.
pub open spec fn deadlines_in(content: Seq<char>) -> Seq<DeadlineView> {
    deadlines_upto(content, 5)
}

fn make_deadline(n: u128, full: &str) -> (d: Deadline)
    ensures
        d@ == new_deadline(n as nat, full@),
{
    let mut id = String::from_str("DL-");
    push_decimal_pad4(&mut id, n);
    proof {
        reveal_strlit("DL-");
    }
    let lower = to_lowercase(full);
    let lv = chars_of(lower.as_str());
    let l = lv.as_slice();
    let deadline_type = if contains_str(l, "submission") || contains_str(l, "proposal")
        || contains_str(l, "response") || contains_str(l, "bid") {
        DeadlineType::Submission
    } else if contains_str(l, "question") {
        DeadlineType::Question
    } else if contains_str(l, "site visit") {
        DeadlineType::SiteVisit
    } else if contains_str(l, "award") {
        DeadlineType::Award
    } else if contains_str(l, "contract start") || contains_str(l, "period of performance") {
        DeadlineType::ContractStart
    } else {
        DeadlineType::Other
    };
    let is_mandatory = contains_str(l, "mandatory") || contains_str(l, "must be")
        || contains_str(l, "no later than") || deadline_type == DeadlineType::Submission;
    Deadline {
        id,
        description: trim_str(full),
        date: Some(String::from_str(full)),
        deadline_type,
        is_mandatory,
    }
}

/// Adds one deadline for each match of a pattern.
pub fn add_deadlines(deadlines: &mut Vec<Deadline>, captures: &Vec<Vec<Option<String>>>)
    ensures
        deadlines_view(final(deadlines)@) == add_deadline_matches(
            deadlines_view(old(deadlines)@),
            captures.deep_view(),
        ),
{
    let ghost start = deadlines_view(deadlines@);
    let ghost caps = captures.deep_view();
    let mut i: usize = 0;
    while i < captures.len()
        invariant
            i <= captures.len(),
            caps == captures.deep_view(),
            deadlines_view(deadlines@) == add_deadline_matches(start, caps.take(i as int)),
        decreases captures.len() - i,
    {
        proof {
            assert(caps.take(i + 1).drop_last() == caps.take(i as int));
            assert(caps.take(i + 1).last() == caps[i as int]);
            reveal_strlit("");
        }
        let c = &captures[i];
        let full: &str = if c.len() > 0 {
            match &c[0] {
                Some(m) => m.as_str(),
                None => "",
            }
        } else {
            ""
        };
        assert(caps[i as int] == c.deep_view());
        assert(c.len() > 0 ==> caps[i as int][0] == c@[0].deep_view());
        assert(full@ == match whole_match(caps[i as int]) {
            Some(m) => m,
            None => seq![],
        });
        let ghost before = deadlines@;
        let n: u128 = deadlines.len() as u128 + 1;
        let d = make_deadline(n, full);
        deadlines.push(d);
        assert(deadlines_view(deadlines@) =~= deadlines_view(before).push(d@));
        i = i + 1;
    }
    assert(caps.take(captures.len() as int) == caps);
}

/// Extracts the deadlines and dates of a document, in pattern order.
pub fn extract_deadlines(content: &str) -> (r: Vec<Deadline>)
    ensures
        deadlines_view(r@) == deadlines_in(content@),
        forall|i: int| 0 <= i < r.len() ==> deadline_fits_text((#[trigger] r@[i])@),
{
    let mut ds: Vec<Deadline> = Vec::new();
    let mut k: usize = 0;
    while k < 5
        invariant
            k <= 5,
            deadlines_view(ds@) == deadlines_upto(content@, k as nat),
        decreases 5 - k,
    {
        match regex_captures(deadline_pattern(k), content) {
            Some(caps) => add_deadlines(&mut ds, &caps),
            None => {},
        }
        k = k + 1;
    }
    proof {
        lemma_deadlines_fit_text(content@);
        assert forall|i: int| 0 <= i < ds.len() implies deadline_fits_text((#[trigger] ds@[i])@) by {
            assert(deadlines_in(content@)[i] == deadlines_view(ds@)[i]);
        }
    }
    ds
}

} // verus!

verus! {

// ---- Evaluation criteria --------------------------------------------------

/// The mathematical content of an [`EvaluationCriterion`].
pub struct CriterionView {
    pub name: Seq<char>,
    pub description: Option<Seq<char>>,
    pub weight_text: Option<Seq<char>>,
}

impl View for EvaluationCriterion {
    type V = CriterionView;

    open spec fn view(&self) -> CriterionView {
        CriterionView {
            name: self.name@,
            description: self.description.deep_view(),
            weight_text: self.weight_text.deep_view(),
        }
    }
}

pub open spec fn criteria_view(v: Seq<EvaluationCriterion>) -> Seq<CriterionView> {
    v.map_values(|c: EvaluationCriterion| c@)
}

/// The patterns that find evaluation criteria, tried in this order.
pub open spec fn criteria_patterns() -> Seq<Seq<char>> {
    seq![
        r"(?i)(?:evaluation\s+(?:criteria|factors?))[:\s]+([^.]+\.)"@,
        r"(?i)(\d+)\s*(?:points?|%)\s*[-:]\s*([^.\n]+)"@,
        r"(?i)(technical|management|cost|price|past\s+performance|experience)\s*[-:]\s*(\d+)\s*(?:points?|%)?"@,
    ]
}

fn criteria_pattern(k: usize) -> (r: &'static str)
    requires
        k < 3,
    ensures
        r@ == criteria_patterns()[k as int],
{
    if k == 0 {
        r"(?i)(?:evaluation\s+(?:criteria|factors?))[:\s]+([^.]+\.)"
    } else if k == 1 {
        r"(?i)(\d+)\s*(?:points?|%)\s*[-:]\s*([^.\n]+)"
    } else {
        r"(?i)(technical|management|cost|price|past\s+performance|experience)\s*[-:]\s*(\d+)\s*(?:points?|%)?"
    }
}

/// The text of capture group `i`, if the group took part in the match.
pub open spec fn group(c: Seq<Option<Seq<char>>>, i: int) -> Option<Seq<char>> {
    if 0 <= i < c.len() {
        c[i]
    } else {
        None
    }
}

/// `a` if it is present, otherwise `b`.
pub open spec fn either(a: Option<Seq<char>>, b: Option<Seq<char>>) -> Option<Seq<char>> {
    if a is Some {
        a
    } else {
        b
    }
}

/// The criterion of a match: named by its first group (or else its second),
/// trimmed; its weight is the text of the second group (or else the first).
pub open spec fn criterion_of(c: Seq<Option<Seq<char>>>) -> Option<CriterionView> {
    match either(group(c, 1), group(c, 2)) {
        Some(n) => Some(
            CriterionView {
                name: trim(n),
                description: None,
                weight_text: either(group(c, 2), group(c, 1)),
            },
        ),
        None => None,
    }
}

/// `cs` followed by the criterion of each match that has one.
pub open spec fn add_criterion_matches(
    cs: Seq<CriterionView>,
    caps: Seq<Seq<Option<Seq<char>>>>,
) -> Seq<CriterionView>
    decreases caps.len(),
{
    if caps.len() == 0 {
        cs
    } else {
        let prev = add_criterion_matches(cs, caps.drop_last());
        match criterion_of(caps.last()) {
            Some(c) => prev.push(c),
            None => prev,
        }
    }
}

/// The criteria found by the first `k` patterns.
pub open spec fn criteria_upto(content: Seq<char>, k: nat) -> Seq<CriterionView>
    decreases k,
{
    if k == 0 {
        seq![]
    } else {
        let prev = criteria_upto(content, (k - 1) as nat);
        match spec_regex_captures(criteria_patterns()[k - 1], content) {
            Some(caps) => add_criterion_matches(prev, caps),
            None => prev,
        }
    }
}

/// The evaluation criteria of a document.
pub open spec fn criteria_in(content: Seq<char>) -> Seq<CriterionView> {
    criteria_upto(content, 3)
}

fn group_text(c: &Vec<Option<String>>, i: usize) -> (r: Option<String>)
    ensures
        r.deep_view() == group(c.deep_view(), i as int),
{
    if i < c.len() {
        match &c[i] {
            Some(g) => Some(g.clone()),
            None => None,
        }
    } else {
        None
    }
}

/// The criterion of one match, if it names one.
pub fn criterion_from_match(c: &Vec<Option<String>>) -> (r: Option<EvaluationCriterion>)
    ensures
        match r {
            Some(x) => criterion_of(c.deep_view()) == Some(x@),
            None => criterion_of(c.deep_view()) is None,
        },
{
    let g1 = group_text(c, 1);
    let g2 = group_text(c, 2);
    let name_source = if g1.is_some() {
        g1.clone()
    } else {
        g2.clone()
    };
    let weight_text = if g2.is_some() {
        g2
    } else {
        g1
    };
    match name_source {
        Some(n) => Some(
            EvaluationCriterion { name: trim_str(n.as_str()), description: None, weight_text },
        ),
        None => None,
    }
}

/// Adds the criteria that one pattern's matches give.
pub fn add_criteria(criteria: &mut Vec<EvaluationCriterion>, captures: &Vec<Vec<Option<String>>>)
    ensures
        criteria_view(final(criteria)@) == add_criterion_matches(
            criteria_view(old(criteria)@),
            captures.deep_view(),
        ),
{
    let ghost start = criteria_view(criteria@);
    let ghost caps = captures.deep_view();
    let mut i: usize = 0;
    while i < captures.len()
        invariant
            i <= captures.len(),
            caps == captures.deep_view(),
            criteria_view(criteria@) == add_criterion_matches(start, caps.take(i as int)),
        decreases captures.len() - i,
    {
        proof {
            assert(caps.take(i + 1).drop_last() == caps.take(i as int));
            assert(caps.take(i + 1).last() == caps[i as int]);
        }
        assert(caps[i as int] == captures@[i as int].deep_view());
        match criterion_from_match(&captures[i]) {
            Some(x) => {
                let ghost before = criteria@;
                criteria.push(x);
                assert(criteria_view(criteria@) =~= criteria_view(before).push(x@));
            },
            None => {},
        }
        i = i + 1;
    }
    assert(caps.take(captures.len() as int) == caps);
}

/// Extracts the evaluation criteria of a document, in pattern order.
pub fn extract_evaluation_criteria(content: &str) -> (r: Vec<EvaluationCriterion>)
    ensures
        criteria_view(r@) == criteria_in(content@),
{
    let mut cs: Vec<EvaluationCriterion> = Vec::new();
    let mut k: usize = 0;
    while k < 3
        invariant
            k <= 3,
            criteria_view(cs@) == criteria_upto(content@, k as nat),
        decreases 3 - k,
    {
        match regex_captures(criteria_pattern(k), content) {
            Some(caps) => add_criteria(&mut cs, &caps),
            None => {},
        }
        k = k + 1;
    }
    cs
}

} // verus!

verus! {

// ---- Critical terms -------------------------------------------------------

/// The mathematical content of a [`TermOccurrence`].
pub struct TermOccurrenceView {
    pub context: Seq<char>,
    pub page: Option<u32>,
    pub position: usize,
}

impl View for TermOccurrence {
    type V = TermOccurrenceView;

    open spec fn view(&self) -> TermOccurrenceView {
        TermOccurrenceView { context: self.context@, page: self.page, position: self.position }
    }
}

pub open spec fn occurrences_view(v: Seq<TermOccurrence>) -> Seq<TermOccurrenceView> {
    v.map_values(|o: TermOccurrence| o@)
}

/// The mathematical content of a [`CriticalTerm`].
pub struct CriticalTermView {
    pub term: Seq<char>,
    pub term_type: CriticalTermType,
    pub occurrences: Seq<TermOccurrenceView>,
}

impl View for CriticalTerm {
    type V = CriticalTermView;

    open spec fn view(&self) -> CriticalTermView {
        CriticalTermView {
            term: self.term@,
            term_type: self.term_type,
            occurrences: occurrences_view(self.occurrences@),
        }
    }
}

pub open spec fn critical_terms_view(v: Seq<CriticalTerm>) -> Seq<CriticalTermView> {
    v.map_values(|t: CriticalTerm| t@)
}

/// The terms looked for, each with its kind, in this order.
pub open spec fn critical_term_list() -> Seq<(Seq<char>, CriticalTermType)> {
    seq![
        ("shall"@, CriticalTermType::ShallRequirement),
        ("must"@, CriticalTermType::MustRequirement),
        ("will"@, CriticalTermType::WillRequirement),
        ("may"@, CriticalTermType::MayRequirement),
        ("penalty"@, CriticalTermType::Penalty),
        ("liquidated damages"@, CriticalTermType::Penalty),
        ("bonus"@, CriticalTermType::Bonus),
        ("incentive"@, CriticalTermType::Bonus),
        ("disqualif"@, CriticalTermType::Disqualification),
        ("non-responsive"@, CriticalTermType::Disqualification),
        ("evaluation criteria"@, CriticalTermType::Evaluation),
        ("scoring"@, CriticalTermType::Evaluation),
        ("points"@, CriticalTermType::Evaluation),
    ]
}

fn critical_term(k: usize) -> (r: (&'static str, CriticalTermType))
    requires
        k < 13,
    ensures
        r.0@ == critical_term_list()[k as int].0,
        r.1 == critical_term_list()[k as int].1,
{
    if k == 0 {
        ("shall", CriticalTermType::ShallRequirement)
    } else if k == 1 {
        ("must", CriticalTermType::MustRequirement)
    } else if k == 2 {
        ("will", CriticalTermType::WillRequirement)
    } else if k == 3 {
        ("may", CriticalTermType::MayRequirement)
    } else if k == 4 {
        ("penalty", CriticalTermType::Penalty)
    } else if k == 5 {
        ("liquidated damages", CriticalTermType::Penalty)
    } else if k == 6 {
        ("bonus", CriticalTermType::Bonus)
    } else if k == 7 {
        ("incentive", CriticalTermType::Bonus)
    } else if k == 8 {
        ("disqualif", CriticalTermType::Disqualification)
    } else if k == 9 {
        ("non-responsive", CriticalTermType::Disqualification)
    } else if k == 10 {
        ("evaluation criteria", CriticalTermType::Evaluation)
    } else if k == 11 {
        ("scoring", CriticalTermType::Evaluation)
    } else {
        ("points", CriticalTermType::Evaluation)
    }
}

/// The pattern of a term: the escaped term as a whole word, ignoring case.
pub open spec fn term_pattern(term: Seq<char>) -> Seq<char> {
    "(?i)\\b"@ + regex_escaped(term) + "\\b"@
}

/// The first byte of the context of a match that starts at byte `a`.
pub open spec fn window_start(a: usize) -> int {
    if a >= 50 {
        a - 50
    } else {
        0
    }
}

/// The end of the context of a match that ends at byte `b`, in a text of
/// `len` bytes.
pub open spec fn window_end(b: usize, len: nat) -> int {
    if b + 50 <= len {
        b + 50
    } else {
        len as int
    }
}

/// The context of a match can be cut from the text: its window is in order
/// and on character boundaries.
pub open spec fn window_ok(content: Seq<char>, m: (usize, usize, Seq<char>)) -> bool {
    let bytes = encode_utf8(content);
    let s = window_start(m.0);
    let e = window_end(m.1, bytes.len());
    s <= e && is_char_boundary(bytes, s) && is_char_boundary(bytes, e)
}

/// The occurrence recorded for a match: up to 50 bytes around it.
pub open spec fn occurrence_at(content: Seq<char>, m: (usize, usize, Seq<char>)) -> TermOccurrenceView {
    let bytes = encode_utf8(content);
    TermOccurrenceView {
        context: decode_utf8(
            bytes.subrange(window_start(m.0), window_end(m.1, bytes.len())),
        ),
        page: None,
        position: m.0,
    }
}

/// Every one of the first ten matches has a context that can be cut.
pub open spec fn windows_ok(content: Seq<char>, ms: Seq<(usize, usize, Seq<char>)>) -> bool {
    forall|i: int| 0 <= i < at_most(ms, 10).len() ==> window_ok(content, #[trigger] at_most(ms, 10)[i])
}

/// The occurrences recorded for the first ten matches.
pub open spec fn occurrences_of(content: Seq<char>, ms: Seq<(usize, usize, Seq<char>)>) -> Seq<
    TermOccurrenceView,
> {
    at_most(ms, 10).map_values(|m: (usize, usize, Seq<char>)| occurrence_at(content, m))
}

/// The critical terms found by the first `k` terms of the list; `None` when a
/// context could not be cut.
pub open spec fn critical_terms_upto(content: Seq<char>, k: nat) -> Option<Seq<CriticalTermView>>
    decreases k,
{
    if k == 0 {
        Some(seq![])
    } else {
        match critical_terms_upto(content, (k - 1) as nat) {
            None => None,
            Some(prev) => {
                let (term, term_type) = critical_term_list()[k - 1];
                match spec_regex_find_all(term_pattern(term), content) {
                    None => Some(prev),
                    Some(ms) => if !windows_ok(content, ms) {
                        None
                    } else if ms.len() == 0 {
                        Some(prev)
                    } else {
                        Some(
                            prev.push(
                                CriticalTermView {
                                    term,
                                    term_type,
                                    occurrences: occurrences_of(content, ms),
                                },
                            ),
                        )
                    },
                }
            },
        }
    }
}

proof fn lemma_terms_none_stays(content: Seq<char>, k: nat, n: nat)
    requires
        k <= n,
        critical_terms_upto(content, k) is None,
    ensures
        critical_terms_upto(content, n) is None,
    decreases n - k,
{
    if k < n {
        lemma_terms_none_stays(content, k + 1, n);
    }
}

/// The critical terms of a document.
pub open spec fn critical_terms_in(content: Seq<char>) -> Option<Seq<CriticalTermView>> {
    critical_terms_upto(content, 13)
}

/// The occurrences of a term given its matches in the text: the first ten,
/// each with up to 50 bytes of context on either side; `None` when such a
/// context would split a character.
pub fn term_occurrences(content: &str, matches: &Vec<(usize, usize, String)>) -> (r: Option<
    Vec<TermOccurrence>,
>)
    ensures
        match r {
            Some(v) => windows_ok(content@, matches.deep_view()) && occurrences_view(v@)
                == occurrences_of(content@, matches.deep_view()),
            None => !windows_ok(content@, matches.deep_view()),
        },
{
    let ghost ms = matches.deep_view();
    let ghost first = at_most(ms, 10);
    let len = content.as_bytes().len();
    let limit: usize = if matches.len() > 10 {
        10
    } else {
        matches.len()
    };
    assert(first.len() == limit);
    let mut out: Vec<TermOccurrence> = Vec::new();
    let mut i: usize = 0;
    while i < limit
        invariant
            i <= limit <= matches.len(),
            limit == first.len(),
            ms == matches.deep_view(),
            first == at_most(ms, 10),
            len == encode_utf8(content@).len(),
            forall|j: int| 0 <= j < i ==> window_ok(content@, #[trigger] first[j]),
            occurrences_view(out@) == first.take(i as int).map_values(
                |m: (usize, usize, Seq<char>)| occurrence_at(content@, m),
            ),
        decreases limit - i,
    {
        let a = matches[i].0;
        let b = matches[i].1;
        assert(first[i as int] == ms[i as int]);
        let start: usize = if a >= 50 {
            a - 50
        } else {
            0
        };
        let end: usize = if b <= len && len - b >= 50 {
            b + 50
        } else {
            len
        };
        assert(start == window_start(first[i as int].0));
        assert(end == window_end(first[i as int].1, encode_utf8(content@).len()));
        match crate::text::byte_range(content, start, end) {
            None => {
                return None;
            },
            Some(context) => {
                let ghost before = out@;
                let o = TermOccurrence { context, page: None, position: a };
                out.push(o);
                assert(occurrences_view(out@) =~= occurrences_view(before).push(o@));
                assert(first.take(i + 1).map_values(
                    |m: (usize, usize, Seq<char>)| occurrence_at(content@, m),
                ) =~= first.take(i as int).map_values(
                    |m: (usize, usize, Seq<char>)| occurrence_at(content@, m),
                ).push(occurrence_at(content@, first[i as int])));
            },
        }
        i = i + 1;
    }
    assert(first.take(limit as int) == first);
    Some(out)
}

fn term_pattern_of(term: &str) -> (r: String)
    ensures
        r@ == term_pattern(term@),
{
    let mut p = String::from_str("(?i)\\b");
    let esc = regex_escape(term);
    p.append(esc.as_str());
    p.append("\\b");
    p
}

/// Finds the critical terms of a document: for each term of the list that
/// occurs, its first ten occurrences with their context. `None` when a
/// context would split a character.
pub fn extract_critical_terms(content: &str) -> (r: Option<Vec<CriticalTerm>>)
    ensures
        match r {
            Some(v) => critical_terms_in(content@) == Some(critical_terms_view(v@)) && forall|i: int|
                0 <= i < v.len() ==> kind_fits_term((#[trigger] v@[i])@),
            None => critical_terms_in(content@) is None,
        },
{
    let mut terms: Vec<CriticalTerm> = Vec::new();
    let mut k: usize = 0;
    while k < 13
        invariant
            k <= 13,
            critical_terms_upto(content@, k as nat) == Some(critical_terms_view(terms@)),
        decreases 13 - k,
    {
        let (term, term_type) = critical_term(k);
        let pattern = term_pattern_of(term);
        match regex_find_all(pattern.as_str(), content) {
            Some(ms) => {
                match term_occurrences(content, &ms) {
                    None => {
                        proof {
                            assert(critical_terms_upto(content@, (k + 1) as nat) is None);
                            lemma_terms_none_stays(content@, (k + 1) as nat, 13);
                        }
                        return None;
                    },
                    Some(occurrences) => {
                        proof {
                            let msv = ms.deep_view();
                            assert(spec_regex_find_all(term_pattern(term@), content@) == Some(msv));
                            assert(occurrences_view(occurrences@).len() == occurrences@.len());
                            assert(msv.len() == ms.len());
                            assert(at_most(msv, 10).len() == 0 <==> msv.len() == 0);
                        }
                        if occurrences.len() > 0 {
                            let ghost before = terms@;
                            let t = CriticalTerm {
                                term: String::from_str(term),
                                term_type,
                                occurrences,
                            };
                            terms.push(t);
                            assert(critical_terms_view(terms@) =~= critical_terms_view(before).push(
                                t@,
                            ));
                        }
                    },
                }
            },
            None => {},
        }
        k = k + 1;
    }
    proof {
        lemma_critical_term_kinds(content@);
        assert forall|i: int| 0 <= i < terms.len() implies kind_fits_term((#[trigger] terms@[i])@) by {
            assert(critical_terms_in(content@) == Some(critical_terms_view(terms@)));
            assert(critical_terms_in(content@)->0[i] == terms@[i]@);
        }
    }
    Some(terms)
}

} // verus!

verus! {

// ---- Whole documents ------------------------------------------------------

/// The analysis of a document holds what the extractors find in it, and a
/// summary computed from those findings.
pub open spec fn is_analysis_of(a: RfpAnalysis, content: Seq<char>, name: Seq<char>) -> bool {
    &&& a.document_name@ == name
    &&& requirements_view(a.requirements@) == requirements_in(content)
    &&& deadlines_view(a.deadlines@) == deadlines_in(content)
    &&& critical_terms_in(content) == Some(critical_terms_view(a.critical_terms@))
    &&& criteria_view(a.evaluation_criteria@) == criteria_in(content)
    &&& a.summary.total_requirements == a.requirements.len()
    &&& a.summary.critical_requirements == critical_count(a.requirements@)
    &&& a.summary.total_deadlines == a.deadlines.len()
    &&& a.summary.has_mandatory_deadlines == (mandatory_count(a.deadlines@) > 0)
    &&& a.summary.estimated_effort.deep_view() == effort_for(a.requirements.len() as nat)
    &&& a.summary.risk_level == risk_for(
        critical_count(a.requirements@),
        mandatory_count(a.deadlines@),
        a.requirements.len() as nat,
    )
}

/// Analyses the text of an RFP: its requirements, deadlines, critical terms
/// and evaluation criteria, with a summary. `None` exactly when the context
/// of a critical term would split a character.
pub fn analyze_rfp_text(content: &str, document_name: &str) -> (r: Option<RfpAnalysis>)
    ensures
        match r {
            Some(a) => is_analysis_of(a, content@, document_name@),
            None => critical_terms_in(content@) is None,
        },
{
    let requirements = extract_requirements(content);
    let deadlines = extract_deadlines(content);
    let critical_terms = match extract_critical_terms(content) {
        Some(t) => t,
        None => {
            return None;
        },
    };
    let evaluation_criteria = extract_evaluation_criteria(content);
    let critical_requirements = count_critical(requirements.as_slice());
    let has_mandatory_deadlines = count_mandatory(deadlines.as_slice()) > 0;
    let risk_level = calculate_risk_level(requirements.as_slice(), deadlines.as_slice());
    let estimated_effort = estimate_effort(requirements.as_slice());
    let summary = DocumentSummary {
        total_requirements: requirements.len(),
        critical_requirements,
        total_deadlines: deadlines.len(),
        has_mandatory_deadlines,
        estimated_effort,
        risk_level,
    };
    Some(
        RfpAnalysis {
            document_name: String::from_str(document_name),
            requirements,
            deadlines,
            critical_terms,
            evaluation_criteria,
            summary,
        },
    )
}

/// The message given when a critical term's context would split a character.
pub open spec fn split_context_message() -> Seq<char> {
    "critical term context does not fall on character boundaries"@
}

/// Analyses an RFP document; an error exactly when the context of a critical
/// term would split a character.
pub fn analyze_rfp_document(content: String, document_name: String) -> (r: Result<
    RfpAnalysis,
    String,
>)
    ensures
        match r {
            Ok(a) => is_analysis_of(a, content@, document_name@),
            Err(e) => critical_terms_in(content@) is None && e@ == split_context_message(),
        },
{
    match analyze_rfp_text(content.as_str(), document_name.as_str()) {
        Some(a) => Ok(a),
        None => Err(String::from_str("critical term context does not fall on character boundaries")),
    }
}

/// The requirements of a document.
pub fn extract_rfp_requirements(content: String) -> (r: Result<Vec<Requirement>, String>)
    ensures
        r matches Ok(v) && requirements_view(v@) == requirements_in(content@),
{
    Ok(extract_requirements(content.as_str()))
}

/// The deadlines of a document.
pub fn extract_rfp_deadlines(content: String) -> (r: Result<Vec<Deadline>, String>)
    ensures
        r matches Ok(v) && deadlines_view(v@) == deadlines_in(content@),
{
    Ok(extract_deadlines(content.as_str()))
}

/// The critical terms of a document; an error exactly when the context of a
/// term would split a character.
pub fn extract_rfp_critical_terms(content: String) -> (r: Result<Vec<CriticalTerm>, String>)
    ensures
        match r {
            Ok(v) => critical_terms_in(content@) == Some(critical_terms_view(v@)),
            Err(e) => critical_terms_in(content@) is None && e@ == split_context_message(),
        },
{
    match extract_critical_terms(content.as_str()) {
        Some(v) => Ok(v),
        None => Err(String::from_str("critical term context does not fall on character boundaries")),
    }
}

} // verus!

verus! {

// ---- Laws of the extractors -----------------------------------------------

/// Requirements are numbered `REQ-0001`, `REQ-0002`, ... in order, and no
/// two of them have the same text.
pub open spec fn numbered_distinct(rs: Seq<RequirementView>) -> bool {
    &&& forall|i: int| 0 <= i < rs.len() ==> (#[trigger] rs[i]).id == "REQ-"@ + decimal_pad4(
        (i + 1) as nat,
    )
    &&& forall|i: int, j: int| 0 <= i < j < rs.len() ==> (#[trigger] rs[i]).text != (#[trigger] rs[j]).text
}

proof fn lemma_add_matches_numbered(
    rs: Seq<RequirementView>,
    caps: Seq<Seq<Option<Seq<char>>>>,
    p: RequirementPriority,
)
    requires
        numbered_distinct(rs),
    ensures
        numbered_distinct(add_matches(rs, caps, p)),
    decreases caps.len(),
{
    if caps.len() > 0 {
        lemma_add_matches_numbered(rs, caps.drop_last(), p);
        let prev = add_matches(rs, caps.drop_last(), p);
        match whole_match(caps.last()) {
            Some(m) => {
                let t = trim(m);
                if !has_text(prev, t) {
                    let next = prev.push(new_requirement(prev.len() + 1, t, p));
                    assert forall|i: int, j: int| 0 <= i < j < next.len() implies (
                    #[trigger] next[i]).text != (#[trigger] next[j]).text by {
                        if j == prev.len() {
                            assert(prev[i].text != t);
                        } else {
                            assert(next[i] == prev[i] && next[j] == prev[j]);
                        }
                    }
                }
            },
            None => {},
        }
    }
}

/// Law: the requirements extracted from any document are numbered
/// `REQ-0001`, `REQ-0002`, ... in order, and no two have the same text.
pub proof fn lemma_requirements_numbered_distinct(content: Seq<char>)
    ensures
        numbered_distinct(requirements_in(content)),
{
    lemma_requirements_upto_numbered(content, 6);
}

proof fn lemma_requirements_upto_numbered(content: Seq<char>, k: nat)
    ensures
        numbered_distinct(requirements_upto(content, k)),
    decreases k,
{
    if k > 0 {
        lemma_requirements_upto_numbered(content, (k - 1) as nat);
        let prev = requirements_upto(content, (k - 1) as nat);
        let (pattern, priority) = requirement_patterns()[k - 1];
        match spec_regex_captures(pattern, content) {
            Some(caps) => lemma_add_matches_numbered(prev, caps, priority),
            None => {},
        }
    }
}

proof fn lemma_add_deadlines_numbered(ds: Seq<DeadlineView>, caps: Seq<Seq<Option<Seq<char>>>>)
    requires
        forall|i: int| 0 <= i < ds.len() ==> (#[trigger] ds[i]).id == "DL-"@ + decimal_pad4(
            (i + 1) as nat,
        ),
    ensures
        add_deadline_matches(ds, caps).len() == ds.len() + caps.len(),
        forall|i: int|
            0 <= i < add_deadline_matches(ds, caps).len() ==> (#[trigger] add_deadline_matches(
                ds,
                caps,
            )[i]).id == "DL-"@ + decimal_pad4((i + 1) as nat),
    decreases caps.len(),
{
    if caps.len() > 0 {
        lemma_add_deadlines_numbered(ds, caps.drop_last());
    }
}

proof fn lemma_deadlines_upto_numbered(content: Seq<char>, k: nat)
    ensures
        forall|i: int|
            0 <= i < deadlines_upto(content, k).len() ==> (#[trigger] deadlines_upto(
                content,
                k,
            )[i]).id == "DL-"@ + decimal_pad4((i + 1) as nat),
    decreases k,
{
    if k > 0 {
        lemma_deadlines_upto_numbered(content, (k - 1) as nat);
        let prev = deadlines_upto(content, (k - 1) as nat);
        match spec_regex_captures(deadline_patterns()[k - 1], content) {
            Some(caps) => lemma_add_deadlines_numbered(prev, caps),
            None => {},
        }
    }
}

/// Law: the deadlines extracted from any document are numbered `DL-0001`,
/// `DL-0002`, ... in order.
pub proof fn lemma_deadlines_numbered(content: Seq<char>)
    ensures
        forall|i: int|
            0 <= i < deadlines_in(content).len() ==> (#[trigger] deadlines_in(content)[i]).id
                == "DL-"@ + decimal_pad4((i + 1) as nat),
{
    lemma_deadlines_upto_numbered(content, 5);
}

/// Law: a text has at most ten keywords, none of them a stop word.
pub proof fn lemma_keywords_bounded(text: Seq<char>)
    ensures
        keywords_for(text).len() <= 10,
        forall|i: int|
            0 <= i < keywords_for(text).len() ==> !is_stop_word(#[trigger] keywords_for(text)[i]),
{
    match spec_regex_find_all(word_pattern(), text) {
        Some(ms) => lemma_kept_words_not_stop(ms),
        None => {},
    }
}

proof fn lemma_kept_words_not_stop(ms: Seq<(usize, usize, Seq<char>)>)
    ensures
        forall|i: int| 0 <= i < kept_words(ms).len() ==> !is_stop_word(#[trigger] kept_words(ms)[i]),
    decreases ms.len(),
{
    if ms.len() > 0 {
        lemma_kept_words_not_stop(ms.drop_last());
        let prev = kept_words(ms.drop_last());
        let w = spec_lowercase(ms.last().2);
        if !is_stop_word(w) {
            assert forall|i: int| 0 <= i < prev.push(w).len() implies !is_stop_word(
                #[trigger] prev.push(w)[i],
            ) by {
                if i < prev.len() {
                    assert(prev.push(w)[i] == prev[i]);
                }
            }
        }
    }
}

proof fn lemma_terms_upto_shape(content: Seq<char>, k: nat)
    requires
        critical_terms_upto(content, k) is Some,
    ensures
        forall|i: int|
            0 <= i < critical_terms_upto(content, k)->0.len() ==> {
                let t = #[trigger] critical_terms_upto(content, k)->0[i];
                1 <= t.occurrences.len() <= 10
            },
    decreases k,
{
    if k > 0 {
        lemma_terms_upto_shape(content, (k - 1) as nat);
    }
}

/// Law: every critical term found occurs at least once and records at most
/// ten occurrences.
pub proof fn lemma_critical_terms_bounded(content: Seq<char>)
    requires
        critical_terms_in(content) is Some,
    ensures
        forall|i: int|
            0 <= i < critical_terms_in(content)->0.len() ==> {
                let t = #[trigger] critical_terms_in(content)->0[i];
                1 <= t.occurrences.len() <= 10
            },
{
    lemma_terms_upto_shape(content, 13);
}

} // verus!

verus! {

// ---- Kinds of critical terms ------------------------------------------------

/// A critical term carries the kind its wording names: `shall`, `must`,
/// `will` and `may` their own requirement kinds; `penalty` and `liquidated
/// damages` a penalty; `bonus` and `incentive` a bonus; `disqualif` and
/// `non-responsive` a disqualification; `evaluation criteria`, `scoring` and
/// `points` an evaluation.
pub open spec fn kind_fits_term(t: CriticalTermView) -> bool {
    match t.term_type {
        CriticalTermType::ShallRequirement => t.term == "shall"@,
        CriticalTermType::MustRequirement => t.term == "must"@,
        CriticalTermType::WillRequirement => t.term == "will"@,
        CriticalTermType::MayRequirement => t.term == "may"@,
        CriticalTermType::Penalty => t.term == "penalty"@ || t.term == "liquidated damages"@,
        CriticalTermType::Bonus => t.term == "bonus"@ || t.term == "incentive"@,
        CriticalTermType::Disqualification => t.term == "disqualif"@ || t.term
            == "non-responsive"@,
        CriticalTermType::Evaluation => t.term == "evaluation criteria"@ || t.term == "scoring"@
            || t.term == "points"@,
        CriticalTermType::Legal => false,
    }
}

proof fn lemma_terms_upto_kinds(content: Seq<char>, k: nat)
    requires
        k <= 13,
        critical_terms_upto(content, k) is Some,
    ensures
        forall|i: int|
            0 <= i < critical_terms_upto(content, k)->0.len() ==> kind_fits_term(
                #[trigger] critical_terms_upto(content, k)->0[i],
            ),
    decreases k,
{
    if k > 0 {
        lemma_terms_upto_kinds(content, (k - 1) as nat);
        let j = k - 1;
        let (term, term_type) = critical_term_list()[j];
        assert(kind_fits_term(
            CriticalTermView { term, term_type, occurrences: seq![] },
        )) by {
            assert(0 <= j < 13);
        }
    }
}

/// Law: every critical term found carries the kind its wording names (see
/// `kind_fits_term`): a found `liquidated damages` is a penalty, never a
/// bonus, and only `bonus` and `incentive` are bonuses.
pub proof fn lemma_critical_term_kinds(content: Seq<char>)
    requires
        critical_terms_in(content) is Some,
    ensures
        forall|i: int|
            0 <= i < critical_terms_in(content)->0.len() ==> kind_fits_term(
                #[trigger] critical_terms_in(content)->0[i],
            ),
{
    lemma_terms_upto_kinds(content, 13);
}

} // verus!

verus! {

// ---- What a deadline's wording says -----------------------------------------

/// Submission wording: `submission`, `proposal`, `response`, `bid`.
pub open spec fn says_submission(l: Seq<char>) -> bool {
    contains_seq(l, "submission"@) || contains_seq(l, "proposal"@) || contains_seq(l, "response"@)
        || contains_seq(l, "bid"@)
}

/// A deadline agrees with its matched text (its date): described by the
/// trimmed text; a submission when the lower-cased text speaks of a
/// submission, proposal, response or bid; otherwise a question, a site visit,
/// an award or a contract start, by the first of `question`, `site visit`,
/// `award`, and `contract start` or `period of performance` that occurs; and
/// mandatory exactly when the text says `mandatory`, `must be` or `no later
/// than`, or it is a submission deadline.
pub open spec fn deadline_fits_text(d: DeadlineView) -> bool {
    d.date is Some && {
        let full = d.date->0;
        let l = spec_lowercase(full);
        let question = contains_seq(l, "question"@);
        let visit = contains_seq(l, "site visit"@);
        let award = contains_seq(l, "award"@);
        let start = contains_seq(l, "contract start"@) || contains_seq(
            l,
            "period of performance"@,
        );
        &&& d.description == trim(full)
        &&& (d.deadline_type == DeadlineType::Submission <==> says_submission(l))
        &&& (d.deadline_type == DeadlineType::Question <==> !says_submission(l) && question)
        &&& (d.deadline_type == DeadlineType::SiteVisit <==> !says_submission(l) && !question
            && visit)
        &&& (d.deadline_type == DeadlineType::Award <==> !says_submission(l) && !question && !visit
            && award)
        &&& (d.deadline_type == DeadlineType::ContractStart <==> !says_submission(l) && !question
            && !visit && !award && start)
        &&& (d.deadline_type == DeadlineType::Other <==> !says_submission(l) && !question && !visit
            && !award && !start)
        &&& (d.is_mandatory <==> contains_seq(l, "mandatory"@) || contains_seq(l, "must be"@)
            || contains_seq(l, "no later than"@) || d.deadline_type == DeadlineType::Submission)
    }
}

proof fn lemma_add_deadlines_fit(ds: Seq<DeadlineView>, caps: Seq<Seq<Option<Seq<char>>>>)
    requires
        forall|i: int| 0 <= i < ds.len() ==> deadline_fits_text(#[trigger] ds[i]),
    ensures
        forall|i: int|
            0 <= i < add_deadline_matches(ds, caps).len() ==> deadline_fits_text(
                #[trigger] add_deadline_matches(ds, caps)[i],
            ),
    decreases caps.len(),
{
    if caps.len() > 0 {
        lemma_add_deadlines_fit(ds, caps.drop_last());
        let prev = add_deadline_matches(ds, caps.drop_last());
        let full = match whole_match(caps.last()) {
            Some(m) => m,
            None => seq![],
        };
        assert(deadline_fits_text(new_deadline(prev.len() + 1, full)));
        let all = add_deadline_matches(ds, caps);
        assert forall|i: int| 0 <= i < all.len() implies deadline_fits_text(#[trigger] all[i]) by {
            if i < prev.len() {
                assert(all[i] == prev[i]);
            }
        }
    }
}

proof fn lemma_deadlines_upto_fit(content: Seq<char>, k: nat)
    ensures
        forall|i: int|
            0 <= i < deadlines_upto(content, k).len() ==> deadline_fits_text(
                #[trigger] deadlines_upto(content, k)[i],
            ),
    decreases k,
{
    if k > 0 {
        lemma_deadlines_upto_fit(content, (k - 1) as nat);
        let prev = deadlines_upto(content, (k - 1) as nat);
        match spec_regex_captures(deadline_patterns()[k - 1], content) {
            Some(caps) => {
                lemma_add_deadlines_fit(prev, caps);
                assert(deadlines_upto(content, k) == add_deadline_matches(prev, caps));
            },
            None => {
                assert(deadlines_upto(content, k) == prev);
            },
        }
    }
}

/// Law: every deadline extracted from a document agrees with its matched
/// text (see `deadline_fits_text`); in particular a deadline whose text says
/// `must be` is mandatory.
pub proof fn lemma_deadlines_fit_text(content: Seq<char>)
    ensures
        forall|i: int|
            0 <= i < deadlines_in(content).len() ==> deadline_fits_text(
                #[trigger] deadlines_in(content)[i],
            ),
{
    lemma_deadlines_upto_fit(content, 5);
}

} // verus!

verus! {

// ---- What a requirement's text says -------------------------------------------

/// A requirement agrees with its text: categorised by its lower-cased
/// wording (see `category_fits_words`), critical or high priority, not yet
/// started, with the keywords of its text and no section, page, response
/// or notes yet.
pub open spec fn requirement_fits_text(r: RequirementView) -> bool {
    &&& category_fits_words(spec_lowercase(r.text), r.category)
    &&& (r.priority == RequirementPriority::Critical || r.priority == RequirementPriority::High)
    &&& r.compliance_status == ComplianceStatus::NotStarted
    &&& r.keywords == keywords_for(r.text)
    &&& r.section is None
    &&& r.page is None
    &&& r.response_text is None
    &&& r.notes is None
}

proof fn lemma_add_matches_fit(
    rs: Seq<RequirementView>,
    caps: Seq<Seq<Option<Seq<char>>>>,
    p: RequirementPriority,
)
    requires
        p == RequirementPriority::Critical || p == RequirementPriority::High,
        forall|i: int| 0 <= i < rs.len() ==> requirement_fits_text(#[trigger] rs[i]),
    ensures
        forall|i: int|
            0 <= i < add_matches(rs, caps, p).len() ==> requirement_fits_text(
                #[trigger] add_matches(rs, caps, p)[i],
            ),
    decreases caps.len(),
{
    if caps.len() > 0 {
        lemma_add_matches_fit(rs, caps.drop_last(), p);
        let prev = add_matches(rs, caps.drop_last(), p);
        match whole_match(caps.last()) {
            Some(m) => {
                let t = trim(m);
                if !has_text(prev, t) {
                    lemma_category_from_words(t);
                    let all = add_matches(rs, caps, p);
                    assert(all == prev.push(new_requirement(prev.len() + 1, t, p)));
                    assert forall|i: int| 0 <= i < all.len() implies requirement_fits_text(
                        #[trigger] all[i],
                    ) by {
                        if i < prev.len() {
                            assert(all[i] == prev[i]);
                        }
                    }
                }
            },
            None => {},
        }
    }
}

proof fn lemma_requirements_upto_fit(content: Seq<char>, k: nat)
    requires
        k <= 6,
    ensures
        forall|i: int|
            0 <= i < requirements_upto(content, k).len() ==> requirement_fits_text(
                #[trigger] requirements_upto(content, k)[i],
            ),
    decreases k,
{
    if k > 0 {
        lemma_requirements_upto_fit(content, (k - 1) as nat);
        let prev = requirements_upto(content, (k - 1) as nat);
        let (pattern, priority) = requirement_patterns()[k - 1];
        match spec_regex_captures(pattern, content) {
            Some(caps) => {
                lemma_add_matches_fit(prev, caps, priority);
                assert(requirements_upto(content, k) == add_matches(prev, caps, priority));
            },
            None => {
                assert(requirements_upto(content, k) == prev);
            },
        }
    }
}

/// Law: every requirement extracted from a document agrees with its text
/// (see `requirement_fits_text`); in particular one that mentions
/// authentication is a Security requirement.
pub proof fn lemma_requirements_fit_text(content: Seq<char>)
    ensures
        forall|i: int|
            0 <= i < requirements_in(content).len() ==> requirement_fits_text(
                #[trigger] requirements_in(content)[i],
            ),
{
    lemma_requirements_upto_fit(content, 6);
}

} // verus!

verus! {

/// The words sought as critical terms.
pub open spec fn critical_words() -> Seq<Seq<char>> {
    seq![
        "shall"@,
        "must"@,
        "will"@,
        "may"@,
        "penalty"@,
        "liquidated damages"@,
        "bonus"@,
        "incentive"@,
        "disqualif"@,
        "non-responsive"@,
        "evaluation criteria"@,
        "scoring"@,
        "points"@,
    ]
}

proof fn lemma_terms_upto_found(content: Seq<char>, k: nat)
    requires
        k <= 13,
        critical_terms_upto(content, k) is Some,
    ensures
        forall|j: int|
            0 <= j < k && (spec_regex_find_all(term_pattern(#[trigger] critical_words()[j]), content)
                matches Some(ms) && ms.len() > 0) ==> exists|i: int|
                0 <= i < critical_terms_upto(content, k)->0.len() && critical_terms_upto(
                    content,
                    k,
                )->0[i].term == critical_words()[j],
    decreases k,
{
    if k > 0 {
        let prev_opt = critical_terms_upto(content, (k - 1) as nat);
        if prev_opt is None {
            lemma_terms_none_stays(content, (k - 1) as nat, k);
        }
        lemma_terms_upto_found(content, (k - 1) as nat);
        let prev = prev_opt->0;
        let v = critical_terms_upto(content, k)->0;
        let (term, term_type) = critical_term_list()[k - 1];
        assert(term == critical_words()[k - 1]);
        assert(prev.len() <= v.len());
        assert(forall|i: int| 0 <= i < prev.len() ==> v[i] == prev[i]);
        assert forall|j: int|
            0 <= j < k && (spec_regex_find_all(term_pattern(#[trigger] critical_words()[j]), content)
                matches Some(ms) && ms.len() > 0) implies exists|i: int|
            0 <= i < v.len() && v[i].term == critical_words()[j] by {
            if j < k - 1 {
                let i = choose|i: int| 0 <= i < prev.len() && prev[i].term == critical_words()[j];
                assert(v[i] == prev[i]);
            } else {
                assert(v[prev.len() as int].term == term);
            }
        }
    }
}

/// Law: every sought word that occurs as a whole word (by its pattern) in a
/// document is reported among its critical terms.
pub proof fn lemma_critical_words_found(content: Seq<char>)
    requires
        critical_terms_in(content) is Some,
    ensures
        forall|j: int|
            0 <= j < critical_words().len() && (spec_regex_find_all(
                term_pattern(#[trigger] critical_words()[j]),
                content,
            ) matches Some(ms) && ms.len() > 0) ==> exists|i: int|
                0 <= i < critical_terms_in(content)->0.len() && critical_terms_in(content)->0[i].term
                    == critical_words()[j],
{
    lemma_terms_upto_found(content, 13);
}

} // verus!
