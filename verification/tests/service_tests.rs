use syzygy::compile::{
    diagnostic_to_error, file_compile_result, get_typst_version, is_font_file,
    source_compile_result, Diagnostic, FileCompileOutcome, PdfOutcome, Severity,
    SourceCompileOutcome,
};
use syzygy::ollama::{
    chat_url, completion_messages, rfp_analysis_prompt, status_error, stream_error,
    stream_event_name, stream_piece, suggestion_prompts, tags_url, take_lines,
    DEFAULT_OLLAMA_URL,
};
use syzygy::projects::{get_templates, plan_from_template, plan_project, project_info};
use syzygy::storage::{
    block_record_id, category_params, content_list_query, default_format, popular_blocks_query,
    recent_blocks_query, recent_files_query, recent_projects_query, register_step, registered, schema_queries, search_params, ContentSearchParams, DatabaseError, ProjectMeta, RegisterStep,
};

fn diag(severity: Severity, message: &str) -> Diagnostic {
    Diagnostic {
        severity,
        message: message.to_string(),
        hint: Some("try this".to_string()),
        file: Some("/main.typ".to_string()),
        line: Some(3),
        column: Some(7),
    }
}

#[test]
fn failed_compilation_splits_errors_and_warnings() {
    let outcome = FileCompileOutcome::Failed {
        diagnostics: vec![diag(Severity::Error, "unknown variable"), diag(Severity::Warning, "unused")],
        warnings: vec![diag(Severity::Warning, "late")],
    };
    let r = file_compile_result("in.typ".to_string(), "out.pdf".to_string(), outcome, 12);
    assert!(!r.success);
    assert_eq!(r.errors.len(), 1);
    assert_eq!(r.errors[0].message, "unknown variable");
    assert_eq!(r.errors[0].line, Some(3));
    assert_eq!(r.errors[0].hint.as_deref(), Some("try this"));
    assert_eq!(r.warnings.len(), 2);
    assert_eq!(r.warnings[1].message, "late");
    assert_eq!(r.compile_time_ms, 12);
}

#[test]
fn compile_failures_around_the_compiler() {
    let r = file_compile_result("in.typ".to_string(), "out.pdf".to_string(), FileCompileOutcome::InputMissing, 0);
    assert_eq!(r.errors[0].message, "Input file not found: in.typ");
    assert_eq!(r.errors[0].file.as_deref(), Some("in.typ"));
    let r = file_compile_result("in.typ".to_string(), "out.pdf".to_string(),
        FileCompileOutcome::Compiled { pdf: PdfOutcome::WriteFailed { message: "denied".to_string() }, warnings: vec![] }, 0);
    assert_eq!(r.errors[0].message, "Failed to write PDF: denied");
    assert_eq!(r.errors[0].file, None);
    let r = file_compile_result("in.typ".to_string(), "out.pdf".to_string(),
        FileCompileOutcome::Compiled { pdf: PdfOutcome::Written { data: vec![1, 2] }, warnings: vec![diag(Severity::Warning, "w")] }, 5);
    assert!(r.success);
    assert_eq!(r.output_path.as_deref(), Some("out.pdf"));
    assert_eq!(r.pdf_data, Some(vec![1, 2]));
    assert_eq!(r.warnings.len(), 1);
}

#[test]
fn source_compilation_drops_locations() {
    let r = source_compile_result(SourceCompileOutcome::Failed { diagnostics: vec![diag(Severity::Warning, "w"), diag(Severity::Error, "e")] }, 1);
    assert_eq!(r.errors.len(), 1);
    assert_eq!(r.errors[0].message, "e");
    assert_eq!(r.errors[0].file, None);
    assert_eq!(r.errors[0].hint.as_deref(), Some("try this"));
    assert!(r.warnings.is_empty());
    let ok = source_compile_result(SourceCompileOutcome::Compiled { data: vec![9], warnings: vec![] }, 2);
    assert!(ok.success);
    assert_eq!(ok.output_path, None);
    assert!(ok.warnings.is_empty());
    let e = diagnostic_to_error(&diag(Severity::Error, "x"));
    assert_eq!(e.column, Some(7));
}

#[test]
fn source_compilation_reports_warnings() {
    let r = source_compile_result(
        SourceCompileOutcome::Compiled { data: vec![1, 2, 3], warnings: vec![diag(Severity::Warning, "unused"), diag(Severity::Warning, "slow")] },
        4,
    );
    assert!(r.success);
    assert_eq!(r.pdf_data, Some(vec![1, 2, 3]));
    assert_eq!(r.warnings.len(), 2);
    assert_eq!(r.warnings[0].message, "unused");
    assert_eq!(r.warnings[1].message, "slow");
    assert_eq!(r.warnings[0].column, Some(7));
    assert_eq!(r.compile_time_ms, 4);
}

#[test]
fn fonts_and_version() {
    assert!(is_font_file(Some("woff2")));
    assert!(!is_font_file(Some("TTF")));
    assert!(!is_font_file(None));
    assert_eq!(get_typst_version(), "Typst 0.13");
}

#[test]
fn ollama_requests() {
    assert_eq!(tags_url(DEFAULT_OLLAMA_URL), "http://localhost:11434/api/tags");
    assert_eq!(chat_url("http://h:1"), "http://h:1/api/chat");
    let m = completion_messages("hi".to_string(), Some("sys".to_string()));
    assert_eq!(m.len(), 2);
    assert_eq!(m[0].role, "system");
    assert_eq!(m[1].content, "hi");
    assert_eq!(completion_messages("hi".to_string(), None)[0].role, "user");
    let (sys, prompt) = suggestion_prompts("Text", "grammar");
    assert!(sys.starts_with("You are a professional editor."));
    assert_eq!(prompt, "Please review and suggest improvements for:\n\nText");
    let (sys, _) = suggestion_prompts("Text", "other");
    assert_eq!(sys, "You are a helpful writing assistant. Review the following text and suggest improvements.");
    assert!(rfp_analysis_prompt().ends_with("with headers for each section."));
}

#[test]
fn ollama_responses() {
    let e = status_error("404 Not Found");
    assert!(e.done);
    assert_eq!(e.error.as_deref(), Some("Ollama returned error: 404 Not Found"));
    assert_eq!(stream_error("reset").error.as_deref(), Some("Stream error: reset"));
    let p = stream_piece(None, true);
    assert_eq!(p.content, "");
    assert_eq!(stream_event_name("7"), "ollama-stream-7");
}

#[test]
fn stream_lines_are_the_same_however_the_stream_is_cut() {
    let mut buf = String::new();
    let first = take_lines(&mut buf, "{\"a\":1}\n  \n{\"b\"");
    assert_eq!(first, vec!["{\"a\":1}".to_string()]);
    assert_eq!(buf, "{\"b\"");
    let second = take_lines(&mut buf, ":2}\n");
    assert_eq!(second, vec!["{\"b\":2}".to_string()]);
    assert_eq!(buf, "");
    let mut whole = String::new();
    let all = take_lines(&mut whole, "{\"a\":1}\n  \n{\"b\":2}\n");
    assert_eq!(all, vec!["{\"a\":1}".to_string(), "{\"b\":2}".to_string()]);
}

#[test]
fn content_queries() {
    let q = content_list_query(&ContentSearchParams::default());
    assert_eq!(q, "SELECT * FROM content_block ORDER BY updated_at DESC LIMIT 50 START 0");
    let p = ContentSearchParams {
        query: Some("it's".to_string()),
        category: Some("Past".to_string()),
        tags: Some(vec!["a".to_string(), "b'c".to_string()]),
        limit: 5,
        offset: 10,
    };
    assert_eq!(content_list_query(&p), "SELECT * FROM content_block WHERE category = 'Past' AND (title CONTAINS 'it''s' OR content CONTAINS 'it''s') AND ('a' IN tags OR 'b''c' IN tags) ORDER BY updated_at DESC LIMIT 5 START 10");
    let empty_tags = ContentSearchParams { tags: Some(vec![]), ..ContentSearchParams::default() };
    assert_eq!(content_list_query(&empty_tags), "SELECT * FROM content_block ORDER BY updated_at DESC LIMIT 50 START 0");
    assert_eq!(search_params("x".to_string(), None).limit, 20);
    assert_eq!(category_params("c".to_string()).limit, 50);
    assert_eq!(popular_blocks_query(None), "SELECT * FROM content_block ORDER BY usage_count DESC LIMIT 10");
    assert_eq!(recent_files_query(Some(3)), "SELECT * FROM recent_file ORDER BY opened_at DESC LIMIT 3");
    assert_eq!(recent_blocks_query(None), "SELECT * FROM content_block ORDER BY updated_at DESC LIMIT 10");
    assert_eq!(recent_projects_query(Some(4)), "SELECT * FROM project ORDER BY last_opened DESC LIMIT 4");
    assert_eq!(block_record_id("42"), "content_block:42");
    assert_eq!(default_format(), "typst");
    assert_eq!(schema_queries().len(), 6);
    assert!(schema_queries()[0].contains("DEFINE TABLE IF NOT EXISTS content_block SCHEMAFULL;"));
}

#[test]
fn registering_reopens_or_creates() {
    let now = "2024-05-01T10:00:00+00:00".to_string();
    let fresh = register_step(None, "Bid".to_string(), "/p/bid".to_string(), None, Some("proposal".to_string()), now.clone());
    let project = match fresh {
        RegisterStep::Create { project } => project,
        RegisterStep::Reopen { .. } => panic!("nothing was registered"),
    };
    assert_eq!(project.id, None);
    assert_eq!(project.path, "/p/bid");
    assert_eq!(project.template.as_deref(), Some("proposal"));
    assert_eq!(project.created_at, now);
    assert_eq!(project.last_opened, now);
    let stored = ProjectMeta { id: Some("abc".to_string()), created_at: "2023-01-01T00:00:00+00:00".to_string(), ..project };
    match register_step(Some(stored), "Other".to_string(), "/p/bid".to_string(), None, None, "2024-06-01T00:00:00+00:00".to_string()) {
        RegisterStep::Reopen { id, project } => {
            assert_eq!(id, "abc");
            assert_eq!(project.name, "Bid");
            assert_eq!(project.created_at, "2023-01-01T00:00:00+00:00");
            assert_eq!(project.last_opened, "2024-06-01T00:00:00+00:00");
        },
        RegisterStep::Create { .. } => panic!("the path is registered"),
    }
    assert_eq!(registered(None).err().unwrap(), "Failed to register project");
}

/// A registry table driven by the registration steps, as the database applies them.
fn apply(table: &mut Vec<ProjectMeta>, path: &str, now: &str, new_id: &str) {
    let existing = table.iter().find(|p| p.path == path).cloned();
    match register_step(existing, "Bid".to_string(), path.to_string(), None, None, now.to_string()) {
        RegisterStep::Reopen { id, project } => {
            for r in table.iter_mut() {
                if r.id.as_deref() == Some(id.as_str()) {
                    r.last_opened = project.last_opened.clone();
                }
            }
        },
        RegisterStep::Create { mut project } => {
            project.id = Some(new_id.to_string());
            table.push(project);
        },
    }
}

#[test]
fn registering_a_path_twice_keeps_one_record() {
    let mut table = Vec::new();
    apply(&mut table, "/p/a", "t1", "r1");
    apply(&mut table, "/p/b", "t2", "r2");
    apply(&mut table, "/p/a", "t3", "r3");
    assert_eq!(table.len(), 2);
    assert_eq!(table.iter().filter(|p| p.path == "/p/a").count(), 1);
    assert_eq!(table[0].id.as_deref(), Some("r1"));
    assert_eq!(table[0].created_at, "t1");
    assert_eq!(table[0].last_opened, "t3");
}

#[test]
fn database_error_messages() {
    assert_eq!(DatabaseError::NotFound("x".to_string()).message(), "Record not found: x");
    assert_eq!(DatabaseError::PathError("HOME not set".to_string()).message(), "Database path error: HOME not set");
}

#[test]
fn templates_and_projects() {
    let ts = get_templates();
    assert_eq!(ts.len(), 5);
    for i in 0..ts.len() {
        for j in i + 1..ts.len() {
            assert_ne!(ts[i].id, ts[j].id);
        }
    }
    assert_eq!(ts[1].id, "rfp-response");
    assert_eq!(ts[1].files.len(), 6);
    let plan = plan_from_template("typst-basic", "Moon").ok().unwrap();
    assert_eq!(plan.config.main_file, "main.typ");
    assert_eq!(plan.config.template, "typst-basic");
    assert_eq!(plan.config.output_dir, "output");
    assert!(plan.files[0].content.starts_with("#set document(title: \"Moon\")"));
    assert!(!plan.files[0].content.contains("{{PROJECT_NAME}}"));
    assert_eq!(plan_from_template("nope", "x").err().unwrap(), "Template not found: nope");
    let p = plan_project("Sun", "latex").ok().unwrap();
    assert_eq!(p.main_file, "main.tex");
    assert!(p.content.contains("\\title{Sun}"));
    assert_eq!(plan_project("Sun", "word").err().unwrap(), "Unknown document type: word");
    let info = project_info("/p/x".to_string(), None, false, false, true);
    assert_eq!(info.name, "Untitled");
    assert_eq!(info.doc_type, "typst");
    assert_eq!(project_info("/p/y".to_string(), Some("y".to_string()), false, true, true).doc_type, "latex");
}
