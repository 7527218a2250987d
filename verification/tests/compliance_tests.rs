use syzygy::analyzer::{
    extract_requirements, ComplianceStatus, DocumentSummary, RequirementCategory,
    RequirementPriority, RfpAnalysis, RiskLevel,
};
use syzygy::compliance::{
    analyze_gaps, calculate_summary, export_matrix, export_to_csv, export_to_html,
    export_to_markdown, generate_gap_description, generate_matrix,
    generate_recommendations, generate_suggested_action, get_compliance_summary,
    parse_matrix_format, perform_gap_analysis, progress_counts, update_compliance_entry, ComplianceEntry,
    ComplianceMatrix, ExportFormat, Progress, ProgressBand,
};

/// The progress of entries as single-precision arithmetic gives it.
fn progress(entries: &Vec<ComplianceEntry>) -> Progress {
    let (complete, total) = progress_counts(entries);
    let pct = (complete as f32 / total as f32) * 100.0;
    let band = if pct < 50.0 {
        ProgressBand::BelowHalf
    } else if pct < 80.0 {
        ProgressBand::BelowFourFifths
    } else {
        ProgressBand::Beyond
    };
    Progress { band, percent: format!("{:.0}", pct) }
}

fn entry(id: &str, category: RequirementCategory, priority: RequirementPriority, status: ComplianceStatus) -> ComplianceEntry {
    ComplianceEntry {
        requirement_id: id.to_string(),
        requirement_text: format!("Text of {}", id),
        category,
        priority,
        status,
        response_section: None,
        response_page: None,
        response_summary: None,
        evidence: None,
        reviewer: None,
        review_date: None,
        comments: None,
    }
}

fn matrix(entries: Vec<ComplianceEntry>) -> ComplianceMatrix {
    let summary = calculate_summary(&entries);
    ComplianceMatrix {
        project_name: "Bid".to_string(),
        rfp_name: "RFP-1".to_string(),
        created_at: "2024-01-01".to_string(),
        updated_at: "2024-01-01".to_string(),
        entries,
        summary,
    }
}

fn analysis(text: &str) -> RfpAnalysis {
    let requirements = extract_requirements(text);
    RfpAnalysis {
        document_name: "rfp.txt".to_string(),
        summary: DocumentSummary {
            total_requirements: requirements.len(),
            critical_requirements: 0,
            total_deadlines: 0,
            has_mandatory_deadlines: false,
            estimated_effort: None,
            risk_level: RiskLevel::Low,
        },
        requirements,
        deadlines: vec![],
        critical_terms: vec![],
        evaluation_criteria: vec![],
    }
}

#[test]
fn matrix_has_one_entry_per_requirement() {
    let a = analysis("The contractor shall provide reports. The vendor will train staff.");
    let m = generate_matrix(a, "Our Response".to_string()).unwrap();
    assert_eq!(m.project_name, "Our Response");
    assert_eq!(m.rfp_name, "rfp.txt");
    assert_eq!(m.entries.len(), 2);
    assert_eq!(m.entries[0].requirement_id, "REQ-0001");
    assert_eq!(m.entries[1].priority, RequirementPriority::High);
    assert_eq!(m.summary.total_requirements, 2);
    assert_eq!(m.summary.not_started, 2);
    assert!(!m.created_at.is_empty());
    assert_eq!(m.created_at, m.updated_at);
}

#[test]
fn summary_counts_partition_the_entries() {
    let s = calculate_summary(&vec![
        entry("A", RequirementCategory::Technical, RequirementPriority::Critical, ComplianceStatus::Compliant),
        entry("B", RequirementCategory::Technical, RequirementPriority::High, ComplianceStatus::NonCompliant),
        entry("C", RequirementCategory::Legal, RequirementPriority::High, ComplianceStatus::NotApplicable),
        entry("D", RequirementCategory::Staffing, RequirementPriority::Low, ComplianceStatus::PartiallyCompliant),
    ]);
    assert_eq!(s.total_requirements, 4);
    assert_eq!(s.compliant + s.partially_compliant + s.non_compliant + s.not_started + s.in_progress + s.not_applicable, 4);
    assert_eq!(s.by_category.len(), 3);
    assert_eq!(s.by_category[0].category, RequirementCategory::Technical);
    assert_eq!(s.by_category[0].total, 2);
    assert_eq!(s.by_category[0].compliant, 1);
    assert_eq!(s.by_category.iter().map(|c| c.total).sum::<usize>(), 4);
    assert_eq!(s.by_priority.len(), 3);
    assert_eq!(s.by_priority[1].priority, RequirementPriority::High);
    assert_eq!(s.by_priority[1].total, 2);
}

#[test]
fn exports_show_the_given_compliance_rate() {
    let m = matrix(vec![entry("A", RequirementCategory::Other, RequirementPriority::Low, ComplianceStatus::PartiallyCompliant)]);
    let md = export_to_markdown(&m, "0.7").unwrap();
    assert!(md.contains("- Compliance Rate: 0.7%\n\n## Requirements\n"));
    let html = export_to_html(&m, "50.0");
    assert!(html.contains("<li>Compliance Rate: 50.0%</li>\n</ul>\n"));
    let x = export_matrix(m, "HTML", String::new(), "12.5").ok().unwrap();
    assert!(x.content.contains("<li>Compliance Rate: 12.5%</li>"));
}

#[test]
fn update_changes_only_the_named_entry() {
    let m = matrix(vec![
        entry("A", RequirementCategory::Other, RequirementPriority::Low, ComplianceStatus::NotStarted),
        entry("B", RequirementCategory::Other, RequirementPriority::Low, ComplianceStatus::NotStarted),
    ]);
    let u = update_compliance_entry(m, "B", ComplianceStatus::Compliant, Some("3.1".to_string()), None, None).unwrap();
    assert_eq!(u.entries[0].status, ComplianceStatus::NotStarted);
    assert_eq!(u.entries[1].status, ComplianceStatus::Compliant);
    assert_eq!(u.entries[1].response_section.as_deref(), Some("3.1"));
    assert_eq!(u.summary.compliant, 1);
    assert_eq!(u.summary.not_started, 1);
    assert_eq!(u.created_at, "2024-01-01");
    let same = update_compliance_entry(u, "Z", ComplianceStatus::NonCompliant, None, None, None).unwrap();
    assert_eq!(same.summary.non_compliant, 0);
}

#[test]
fn gap_texts() {
    let e = entry("REQ-0007", RequirementCategory::Technical, RequirementPriority::High, ComplianceStatus::NonCompliant);
    assert_eq!(generate_gap_description(&e), "Requirement REQ-0007 is not met. No compliant solution has been identified.");
    assert_eq!(generate_suggested_action(&e), "Evaluate technical alternatives or propose exception with mitigation plan.");
    let p = entry("REQ-0008", RequirementCategory::Legal, RequirementPriority::High, ComplianceStatus::PartiallyCompliant);
    assert_eq!(generate_suggested_action(&p), "Document existing compliance and propose plan to address remaining gaps.");
}

#[test]
fn gap_analysis_groups_by_priority() {
    let m = matrix(vec![
        entry("A", RequirementCategory::Security, RequirementPriority::Critical, ComplianceStatus::NonCompliant),
        entry("B", RequirementCategory::Other, RequirementPriority::High, ComplianceStatus::NotStarted),
        entry("C", RequirementCategory::Other, RequirementPriority::Low, ComplianceStatus::Compliant),
        entry("D", RequirementCategory::Other, RequirementPriority::Low, ComplianceStatus::PartiallyCompliant),
    ]);
    let g = perform_gap_analysis(&m, &progress(&m.entries));
    assert_eq!(g.total_gaps, 3);
    assert_eq!(g.critical_gaps.len() + g.high_gaps.len() + g.medium_gaps.len() + g.low_gaps.len(), 3);
    assert_eq!(g.critical_gaps[0].requirement_id, "A");
    assert_eq!(g.high_gaps[0].current_status, ComplianceStatus::NotStarted);
    assert_eq!(g.low_gaps[0].requirement_id, "D");
    assert_eq!(g.recommendations, vec![
        "URGENT: 1 critical requirement(s) have compliance gaps. Address these first.".to_string(),
        "Security: 1 gap(s) identified. Engage security team for review.".to_string(),
        "1 requirement(s) not yet started. Assign owners to ensure coverage.".to_string(),
        "Overall progress at 25%. Accelerate response development.".to_string(),
    ]);
    let p = progress(&m.entries);
    let same = analyze_gaps(m, p).unwrap();
    assert_eq!(same.total_gaps, 3);
}

#[test]
fn recommendations_when_all_is_well() {
    let es = vec![entry("A", RequirementCategory::Other, RequirementPriority::Low, ComplianceStatus::Compliant)];
    assert_eq!(generate_recommendations(&es, &vec![], &progress(&es)), vec!["All requirements are being addressed. Continue current approach.".to_string()]);
    let good = vec![
        entry("A", RequirementCategory::Other, RequirementPriority::Low, ComplianceStatus::Compliant),
        entry("B", RequirementCategory::Other, RequirementPriority::Low, ComplianceStatus::Compliant),
        entry("C", RequirementCategory::Other, RequirementPriority::Low, ComplianceStatus::Compliant),
        entry("D", RequirementCategory::Other, RequirementPriority::Low, ComplianceStatus::InProgress),
    ];
    assert_eq!(generate_recommendations(&good, &vec![], &progress(&good)), vec!["Good progress at 75%. Focus on closing remaining gaps.".to_string()]);
    assert_eq!(generate_recommendations(&vec![], &vec![], &progress(&vec![])), vec!["All requirements are being addressed. Continue current approach.".to_string()]);
}

#[test]
fn progress_uses_the_given_percentage() {
    let mut es = Vec::new();
    for i in 0..200 {
        let status = if i < 59 { ComplianceStatus::Compliant } else { ComplianceStatus::InProgress };
        es.push(entry("X", RequirementCategory::Other, RequirementPriority::Low, status));
    }
    assert_eq!(progress_counts(&es), (59, 200));
    let p = progress(&es);
    assert_eq!(p.percent, "29");
    assert_eq!(generate_recommendations(&es, &vec![], &p), vec!["Overall progress at 29%. Accelerate response development.".to_string()]);
    let given = Progress { band: ProgressBand::BelowFourFifths, percent: "61".to_string() };
    assert_eq!(generate_recommendations(&es, &vec![], &given), vec!["Good progress at 61%. Focus on closing remaining gaps.".to_string()]);
}

#[test]
fn csv_doubles_quotes() {
    let mut e = entry("A", RequirementCategory::Legal, RequirementPriority::High, ComplianceStatus::Compliant);
    e.requirement_text = "Say \"yes\"".to_string();
    e.comments = Some("ok".to_string());
    let csv = export_to_csv(&matrix(vec![e]));
    assert_eq!(csv, "ID,Requirement,Category,Priority,Status,Response Section,Response Summary,Comments\n\"A\",\"Say \"\"yes\"\"\",\"Legal\",\"High\",\"Compliant\",\"\",\"\",\"ok\"\n");
}

#[test]
fn markdown_shortens_long_texts_and_escapes_bars() {
    let mut e = entry("A", RequirementCategory::Other, RequirementPriority::Low, ComplianceStatus::NotStarted);
    e.requirement_text = "x".repeat(90);
    let mut f = entry("B", RequirementCategory::Other, RequirementPriority::Low, ComplianceStatus::NotStarted);
    f.requirement_text = "a|b".to_string();
    let md = export_to_markdown(&matrix(vec![e, f]), "0.0").unwrap();
    assert!(md.starts_with("# Compliance Matrix: Bid\n\n**RFP:** RFP-1\n\n"));
    assert!(md.contains(&format!("| A | {}... | Other | Low | NotStarted |\n", "x".repeat(77))));
    assert!(md.contains("| B | a\\|b | Other | Low | NotStarted |\n"));
    assert!(md.contains("- Compliance Rate: 0.0%\n"));
}

#[test]
fn markdown_refuses_a_cut_inside_a_character() {
    let mut e = entry("A", RequirementCategory::Other, RequirementPriority::Low, ComplianceStatus::NotStarted);
    e.requirement_text = "é".repeat(45);
    let m = matrix(vec![e]);
    assert!(export_to_markdown(&m, "0.0").is_none());
    let err = export_matrix(m, "md", String::new(), "0.0").err().unwrap();
    assert_eq!(err, "Requirement text cannot be shortened without splitting a character");
}

#[test]
fn html_escapes_requirement_text() {
    let mut e = entry("A", RequirementCategory::Other, RequirementPriority::Critical, ComplianceStatus::Compliant);
    e.requirement_text = "<b>".to_string();
    let html = export_to_html(&matrix(vec![e]), "100.0");
    assert!(html.contains("<tr><td>A</td><td>&lt;b&gt;</td><td>Other</td><td class=\"critical\">Critical</td><td class=\"compliant\">Compliant</td></tr>"));
    assert!(html.contains("<li>Compliance Rate: 100.0%</li>"));
}

#[test]
fn matrix_formats() {
    assert!(matches!(parse_matrix_format("CSV"), Ok(ExportFormat::Csv)));
    assert!(matches!(parse_matrix_format("md"), Ok(ExportFormat::Markdown)));
    assert_eq!(parse_matrix_format("pdf").err().unwrap(), "Unsupported format. Use: csv, json, markdown, or html");
    let m = matrix(vec![]);
    let json = export_matrix(m, "json", "{}".to_string(), "0.0").ok().unwrap();
    assert!(matches!(json.format, ExportFormat::Json));
    assert_eq!(json.content, "{}");
}

#[test]
fn summary_is_calculated_from_the_entries() {
    let mut m = matrix(vec![entry("A", RequirementCategory::Other, RequirementPriority::Low, ComplianceStatus::InProgress)]);
    m.entries.push(entry("B", RequirementCategory::Other, RequirementPriority::Low, ComplianceStatus::Compliant));
    let s = get_compliance_summary(m).ok().unwrap();
    assert_eq!(s.total_requirements, 2);
    assert_eq!(s.in_progress, 1);
    assert_eq!(s.compliant, 1);
}
