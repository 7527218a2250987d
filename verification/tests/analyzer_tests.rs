use syzygy::analyzer::{
    analyze_rfp_document, calculate_risk_level, categorize_requirement, estimate_effort,
    extract_critical_terms, extract_deadlines, extract_evaluation_criteria, extract_keywords,
    extract_requirements, extract_rfp_critical_terms, update_requirement_status, ComplianceStatus,
    CriticalTermType, Deadline, DeadlineType, Requirement, RequirementCategory,
    RequirementPriority, RiskLevel,
};

fn requirement(priority: RequirementPriority) -> Requirement {
    Requirement {
        id: "REQ-0001".to_string(),
        text: "text".to_string(),
        category: RequirementCategory::Other,
        priority,
        section: None,
        page: None,
        keywords: vec![],
        compliance_status: ComplianceStatus::NotStarted,
        response_text: None,
        notes: None,
    }
}

fn deadline(is_mandatory: bool) -> Deadline {
    Deadline {
        id: "DL-0001".to_string(),
        description: "d".to_string(),
        date: None,
        deadline_type: DeadlineType::Other,
        is_mandatory,
    }
}

#[test]
fn categorize_by_first_matching_group() {
    assert_eq!(categorize_requirement("The system shall ENCRYPT all data"), RequirementCategory::Security);
    assert_eq!(categorize_requirement("Provide monthly reports"), RequirementCategory::Deliverable);
    assert_eq!(categorize_requirement("Key Personnel must be named"), RequirementCategory::Staffing);
    assert_eq!(categorize_requirement("Submit a budget"), RequirementCategory::Financial);
    assert_eq!(categorize_requirement("Describe the methodology"), RequirementCategory::Management);
    assert_eq!(categorize_requirement("Install the software"), RequirementCategory::Technical);
    assert_eq!(categorize_requirement("Nothing special"), RequirementCategory::Other);
}

#[test]
fn keywords_skip_stop_words_and_short_words() {
    let k = extract_keywords("The contractor shall provide secure cloud hosting to us");
    assert_eq!(k, vec!["provide", "secure", "cloud", "hosting"]);
}

#[test]
fn keywords_are_at_most_ten() {
    let k = extract_keywords("alpha bravo charlie delta echo foxtrot golf hotel india juliet kilo lima");
    assert_eq!(k.len(), 10);
    assert_eq!(k[9], "juliet");
}

#[test]
fn requirements_are_numbered_in_pattern_order() {
    let text = "The contractor will deliver training. The contractor shall provide monthly reports. The vendor must maintain security clearance.";
    let reqs = extract_requirements(text);
    assert_eq!(reqs.len(), 3);
    assert_eq!(reqs[0].id, "REQ-0001");
    assert_eq!(reqs[0].text, "The contractor shall provide monthly reports.");
    assert_eq!(reqs[0].priority, RequirementPriority::Critical);
    assert_eq!(reqs[0].category, RequirementCategory::Deliverable);
    assert_eq!(reqs[1].id, "REQ-0002");
    assert_eq!(reqs[1].text, "The vendor must maintain security clearance.");
    assert_eq!(reqs[1].category, RequirementCategory::Security);
    assert_eq!(reqs[2].id, "REQ-0003");
    assert_eq!(reqs[2].text, "The contractor will deliver training.");
    assert_eq!(reqs[2].priority, RequirementPriority::High);
    assert_eq!(reqs[2].compliance_status, ComplianceStatus::NotStarted);
    assert_eq!(reqs[0].keywords, vec!["provide", "monthly", "reports"]);
}

#[test]
fn repeated_requirement_text_is_kept_once() {
    let text = "The contractor shall provide reports. The contractor shall provide reports.";
    let reqs = extract_requirements(text);
    assert_eq!(reqs.len(), 1);
    let mandatory = extract_requirements("Mandatory: bring a badge.");
    assert_eq!(mandatory.len(), 1);
    assert_eq!(mandatory[0].text, "Mandatory: bring a badge.");
    assert_eq!(mandatory[0].priority, RequirementPriority::Critical);
}

#[test]
fn deadlines_from_submission_and_date_patterns() {
    let ds = extract_deadlines("Proposal due date: March 15, 2024.");
    assert_eq!(ds.len(), 2);
    assert_eq!(ds[0].id, "DL-0001");
    assert_eq!(ds[0].description, "Proposal due date: March 15, 2024");
    assert_eq!(ds[0].deadline_type, DeadlineType::Submission);
    assert!(ds[0].is_mandatory);
    assert_eq!(ds[1].id, "DL-0002");
    assert_eq!(ds[1].date.as_deref(), Some("March 15, 2024"));
    assert_eq!(ds[1].deadline_type, DeadlineType::Other);
    assert!(!ds[1].is_mandatory);
}

#[test]
fn question_deadline_is_mandatory_when_no_later_than() {
    let ds = extract_deadlines("Questions due no later than 01/05/2024");
    assert_eq!(ds[0].deadline_type, DeadlineType::Question);
    assert!(ds[0].is_mandatory);
    assert_eq!(ds[1].description, "01/05/2024");
}

#[test]
fn critical_terms_in_list_order_with_context() {
    let text = "The contractor shall comply. Penalty applies.";
    let terms = extract_critical_terms(text).unwrap();
    assert_eq!(terms.len(), 2);
    assert_eq!(terms[0].term, "shall");
    assert_eq!(terms[0].term_type, CriticalTermType::ShallRequirement);
    assert_eq!(terms[0].occurrences[0].position, 15);
    assert_eq!(terms[0].occurrences[0].context, text);
    assert_eq!(terms[1].term, "penalty");
    assert_eq!(terms[1].term_type, CriticalTermType::Penalty);
    assert_eq!(terms[1].occurrences[0].position, 29);
}

#[test]
fn critical_term_context_is_fifty_bytes_each_side() {
    let text = format!("{} shall {}", "a".repeat(59), "b".repeat(59));
    let terms = extract_critical_terms(&text).unwrap();
    let occ = &terms[0].occurrences[0];
    assert_eq!(occ.position, 60);
    assert_eq!(occ.context, format!("{} shall {}", "a".repeat(49), "b".repeat(49)));
}

#[test]
fn critical_terms_keep_ten_occurrences() {
    let text = "must ".repeat(12);
    let terms = extract_critical_terms(&text).unwrap();
    assert_eq!(terms[0].term, "must");
    assert_eq!(terms[0].occurrences.len(), 10);
}

#[test]
fn hyphenated_term_is_escaped() {
    let terms = extract_critical_terms("A non-responsive bid is rejected").unwrap();
    assert_eq!(terms.len(), 1);
    assert_eq!(terms[0].term, "non-responsive");
    assert_eq!(terms[0].term_type, CriticalTermType::Disqualification);
}

#[test]
fn context_splitting_a_character_is_an_error() {
    let text = format!("{} shall", "é".repeat(30));
    assert!(extract_critical_terms(&text).is_none());
    let err = extract_rfp_critical_terms(text).err().unwrap();
    assert_eq!(err, "critical term context does not fall on character boundaries");
}

#[test]
fn evaluation_criteria_name_and_weight() {
    let cs = extract_evaluation_criteria("Technical: 40 points");
    assert_eq!(cs.len(), 1);
    assert_eq!(cs[0].name, "Technical");
    assert_eq!(cs[0].weight_text.as_deref(), Some("40"));
    let cs = extract_evaluation_criteria("30% - Past performance");
    assert_eq!(cs.len(), 1);
    assert_eq!(cs[0].name, "30");
    assert_eq!(cs[0].weight_text.as_deref(), Some("Past performance"));
}

#[test]
fn risk_levels_by_thresholds() {
    let crit: Vec<Requirement> = (0..6).map(|_| requirement(RequirementPriority::Critical)).collect();
    assert_eq!(calculate_risk_level(&crit, &[]), RiskLevel::Medium);
    let crit: Vec<Requirement> = (0..21).map(|_| requirement(RequirementPriority::Critical)).collect();
    assert_eq!(calculate_risk_level(&crit, &[]), RiskLevel::Critical);
    let ds: Vec<Deadline> = (0..4).map(|_| deadline(true)).collect();
    assert_eq!(calculate_risk_level(&[], &ds), RiskLevel::High);
    assert_eq!(calculate_risk_level(&[], &[deadline(false)]), RiskLevel::Low);
}

#[test]
fn risk_never_falls_with_more_requirements() {
    let few: Vec<Requirement> = (0..20).map(|_| requirement(RequirementPriority::Low)).collect();
    let more: Vec<Requirement> = (0..21).map(|_| requirement(RequirementPriority::Low)).collect();
    assert_eq!(calculate_risk_level(&few, &[]), RiskLevel::Low);
    assert_eq!(calculate_risk_level(&more, &[]), RiskLevel::Medium);
}

#[test]
fn effort_by_requirement_count() {
    assert_eq!(estimate_effort(&[]), None);
    let one = vec![requirement(RequirementPriority::Low)];
    assert_eq!(estimate_effort(&one).as_deref(), Some("Low (< 20 requirements)"));
    let many: Vec<Requirement> = (0..51).map(|_| requirement(RequirementPriority::Low)).collect();
    assert_eq!(estimate_effort(&many).as_deref(), Some("High (50-100 requirements)"));
}

#[test]
fn status_update_keeps_missing_fields() {
    let mut r = requirement(RequirementPriority::High);
    r.response_text = Some("old".to_string());
    let u = update_requirement_status(r, ComplianceStatus::Compliant, None, Some("note".to_string())).unwrap();
    assert_eq!(u.compliance_status, ComplianceStatus::Compliant);
    assert_eq!(u.response_text.as_deref(), Some("old"));
    assert_eq!(u.notes.as_deref(), Some("note"));
}

#[test]
fn document_analysis_summary() {
    let text = "The contractor shall provide reports. Proposal due date: May 1, 2025.";
    let a = analyze_rfp_document(text.to_string(), "rfp.pdf".to_string()).unwrap();
    assert_eq!(a.document_name, "rfp.pdf");
    assert_eq!(a.summary.total_requirements, 1);
    assert_eq!(a.summary.critical_requirements, 1);
    assert_eq!(a.summary.total_deadlines, a.deadlines.len());
    assert!(a.summary.has_mandatory_deadlines);
    assert_eq!(a.summary.estimated_effort.as_deref(), Some("Low (< 20 requirements)"));
    assert_eq!(a.summary.risk_level, RiskLevel::Low);
    assert_eq!(a.critical_terms[0].term, "shall");
}
