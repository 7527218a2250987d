use syzygy::pipeline::{
    build_execution_order, create_pipeline, evaluate_condition, execute_condition_node,
    execute_transform_node, finish_run, get_input, get_inputs, next_step, node_result,
    pdf_inline, pdf_step, pdf_written, plan_output_node, plan_source_node, record_result,
    source_output, start_run, text_output, validate_pipeline, ExecutionStatus, NodeData,
    NodeMetadata, NodeOutput, NodeType, OutputPlan, PdfStep, Pipeline, PipelineEdge,
    PipelineNode, RunStep, SourcePlan, SourceRead, VariableValue,
};

fn data(label: &str) -> NodeData {
    NodeData {
        label: label.to_string(),
        source_type: None,
        path: None,
        operation: None,
        parameters: None,
        format: None,
        output_path: None,
        condition: None,
    }
}

fn node(id: &str, node_type: NodeType, d: NodeData) -> PipelineNode {
    PipelineNode { id: id.to_string(), node_type, data: d }
}

fn edge(source: &str, target: &str) -> PipelineEdge {
    PipelineEdge {
        id: format!("{}-{}", source, target),
        source: source.to_string(),
        target: target.to_string(),
        source_handle: None,
        target_handle: None,
    }
}

fn text(content: &str) -> NodeOutput {
    NodeOutput { content: Some(content.to_string()), path: Some("in.typ".to_string()), format: Some("typ".to_string()), metadata: None }
}

fn pipeline(nodes: Vec<PipelineNode>, edges: Vec<PipelineEdge>) -> Pipeline {
    Pipeline { id: "p1".to_string(), name: "P".to_string(), nodes, edges, variables: None }
}

fn chain() -> Pipeline {
    let mut src = data("Source");
    src.path = Some("a.typ".to_string());
    let mut out = data("Out");
    out.format = Some("md".to_string());
    pipeline(
        vec![
            node("3", NodeType::Output, out),
            node("2", NodeType::Transform, data("Merge")),
            node("1", NodeType::Source, src),
        ],
        vec![edge("2", "3"), edge("1", "2")],
    )
}

#[test]
fn order_puts_sources_before_targets() {
    let order = build_execution_order(&chain()).ok().unwrap();
    assert_eq!(order, vec!["1".to_string(), "2".to_string(), "3".to_string()]);
}

#[test]
fn a_cycle_is_refused() {
    let p = pipeline(
        vec![node("a", NodeType::Transform, data("A")), node("b", NodeType::Transform, data("B"))],
        vec![edge("a", "b"), edge("b", "a")],
    );
    assert_eq!(build_execution_order(&p).err().unwrap(), "Pipeline contains a cycle");
    assert_eq!(validate_pipeline(p).err().unwrap(), "Pipeline contains a cycle");
}

#[test]
fn validation_warnings_in_order() {
    let p = pipeline(
        vec![node("s", NodeType::Source, data("Src")), node("x", NodeType::Transform, data("Lonely"))],
        vec![],
    );
    let w = validate_pipeline(p).ok().unwrap();
    assert_eq!(w, vec![
        "Node 'Src' is not connected to the pipeline".to_string(),
        "Node 'Lonely' is not connected to the pipeline".to_string(),
        "Source node 'Src' has no path specified".to_string(),
        "Pipeline has no output nodes".to_string(),
    ]);
    assert_eq!(validate_pipeline(chain()).ok().unwrap().len(), 0);
}

#[test]
fn merge_and_template_and_filter() {
    let inputs = vec![text("a"), text("b")];
    let merge = execute_transform_node(&node("m", NodeType::Transform, NodeData { operation: Some("merge".to_string()), ..data("M") }), &inputs, &vec![]).ok().unwrap();
    assert_eq!(merge.content.as_deref(), Some("a\n\nb\n\n"));
    assert_eq!(merge.path, None);
    assert_eq!(merge.format.as_deref(), Some("typ"));
    let mut t = data("T");
    t.operation = Some("template".to_string());
    t.parameters = Some(vec![("template".to_string(), "<{{content}}>".to_string())]);
    let tpl = execute_transform_node(&node("t", NodeType::Transform, t), &vec![text("x")], &vec![]).ok().unwrap();
    assert_eq!(tpl.content.as_deref(), Some("<x>"));
    let mut f = data("F");
    f.operation = Some("filter".to_string());
    f.parameters = Some(vec![("pattern".to_string(), "keep".to_string())]);
    let flt = execute_transform_node(&node("f", NodeType::Transform, f), &vec![text("keep 1\ndrop\nkeep 2")], &vec![]).ok().unwrap();
    assert_eq!(flt.content.as_deref(), Some("keep 1\nkeep 2"));
}

#[test]
fn inject_split_and_errors() {
    let vars = vec![("name".to_string(), VariableValue { json: "\"Acme\"".to_string(), text: Some("Acme".to_string()) }),
                    ("n".to_string(), VariableValue { json: "3".to_string(), text: None })];
    let mut d = data("I");
    d.operation = Some("inject".to_string());
    let inj = execute_transform_node(&node("i", NodeType::Transform, d), &vec![text("Hi {{name}} x{{n}}")], &vars).ok().unwrap();
    assert_eq!(inj.content.as_deref(), Some("Hi Acme x3"));
    let mut s = data("S");
    s.operation = Some("split".to_string());
    let sp = execute_transform_node(&node("s", NodeType::Transform, s), &vec![text("a\n---\nb")], &vec![]).ok().unwrap();
    match sp.metadata {
        Some(NodeMetadata::Parts(parts)) => assert_eq!(parts, vec!["a".to_string(), "b".to_string()]),
        _ => panic!("no parts"),
    }
    let none = execute_transform_node(&node("e", NodeType::Transform, data("E")), &vec![], &vec![]);
    assert_eq!(none.err().unwrap(), "Transform node has no inputs");
}

#[test]
fn conditions() {
    let vars = vec![("client".to_string(), VariableValue { json: "\"gov\"".to_string(), text: Some("gov".to_string()) })];
    assert!(evaluate_condition(" TRUE ", &None, &vars));
    assert!(!evaluate_condition("false", &None, &vars));
    assert!(evaluate_condition("client == \"gov\"", &None, &vars));
    assert!(!evaluate_condition("client == \"corp\"", &None, &vars));
    assert!(!evaluate_condition("has_content", &None, &vars));
    assert!(evaluate_condition("has_content", &Some(text("x")), &vars));
    assert!(evaluate_condition("anything else", &None, &vars));
    let out = execute_condition_node(&node("c", NodeType::Condition, data("C")), &Some(text("x")), &vars);
    assert_eq!(out.content.as_deref(), Some("x"));
    match out.metadata {
        Some(NodeMetadata::Condition { result, condition }) => {
            assert!(result);
            assert_eq!(condition, "true");
        },
        _ => panic!("no verdict"),
    }
}

#[test]
fn source_and_output_plans() {
    let mut d = data("S");
    d.source_type = Some("variable".to_string());
    d.path = Some("missing".to_string());
    let e = plan_source_node(&node("s", NodeType::Source, d), &vec![]);
    assert_eq!(e.err().unwrap(), "Variable 'missing' not found");
    let mut d = data("S");
    d.path = Some("a.typ".to_string());
    assert!(matches!(plan_source_node(&node("s", NodeType::Source, d), &vec![]), Ok(SourcePlan::ReadFile(p)) if p == "a.typ"));
    let mut o = data("Page");
    o.format = Some("html".to_string());
    match plan_output_node(&node("o", NodeType::Output, o), &Some(text("a<b"))) {
        Ok(OutputPlan::Text { content, format }) => {
            assert_eq!(format, "html");
            assert_eq!(content, "<!DOCTYPE html>\n<html>\n<head>\n<meta charset=\"UTF-8\">\n<title>Page</title>\n</head>\n<body>\n<pre>a&lt;b</pre>\n</body>\n</html>");
        },
        _ => panic!("not text"),
    }
    assert_eq!(plan_output_node(&node("o", NodeType::Output, data("O")), &None).err().unwrap(), "Output node has no input");
}

#[test]
fn finishing_nodes_after_io() {
    let r = source_output(SourceRead::FileFailed { error: "gone".to_string() });
    assert_eq!(r.err().unwrap(), "Failed to read file: gone");
    let f = source_output(SourceRead::Folder { path: "/d".to_string(), files: vec!["/d/a".to_string()] }).ok().unwrap();
    assert_eq!(f.format.as_deref(), Some("folder"));
    assert!(matches!(pdf_step(None, None), PdfStep::Fail(m) if m == "No PDF data generated"));
    assert!(matches!(pdf_step(Some(vec![1]), Some("o.pdf".to_string())), PdfStep::Write { .. }));
    assert_eq!(pdf_written("o.pdf".to_string(), 3, 7, Some("denied".to_string())).err().unwrap(), "Failed to write PDF: denied");
    let inline = pdf_inline(&vec![b'M', b'a', b'n', b'y'], 5);
    match inline.metadata {
        Some(NodeMetadata::PdfInline { size_bytes, compile_time_ms, pdf_base64 }) => {
            assert_eq!(size_bytes, 4);
            assert_eq!(compile_time_ms, 5);
            assert_eq!(pdf_base64, "TWFueQ==");
        },
        _ => panic!("not inline"),
    }
    let t = text_output("x".to_string(), "markdown".to_string(), Some(("o.md".to_string(), Some("full".to_string()))));
    assert_eq!(t.err().unwrap(), "Failed to write Markdown: full");
    let t = text_output("x".to_string(), "csv".to_string(), Some(("o.csv".to_string(), Some("full".to_string()))));
    assert_eq!(t.err().unwrap(), "Failed to write output: full");
}

#[test]
fn a_run_visits_nodes_in_order_and_stops_at_failure() {
    let p = chain();
    let mut run = start_run(&p).ok().unwrap();
    let mut seen = Vec::new();
    loop {
        match next_step(&mut run, &p) {
            RunStep::Execute { node, progress } => {
                assert_eq!(progress.completed_nodes, seen.len());
                assert_eq!(progress.total_nodes, 3);
                let n = &p.nodes[node];
                seen.push(n.id.clone());
                let inputs = get_inputs(&p.edges, &run.node_outputs, &n.id);
                let outcome = if n.id == "1" { Ok(text("body")) } else if n.id == "2" {
                    assert_eq!(inputs.len(), 1);
                    Ok(text("merged"))
                } else {
                    let input = get_input(&p.edges, &run.node_outputs, &n.id);
                    assert_eq!(input.unwrap().content.as_deref(), Some("merged"));
                    Ok(NodeOutput { content: Some("merged".to_string()), path: None, format: Some("markdown".to_string()), metadata: None })
                };
                let result = node_result(&n.id, outcome, 1);
                run = match record_result(run, n, result, 9) {
                    Ok(next) => next,
                    Err(_) => panic!("failed"),
                };
            },
            RunStep::Finished => break,
        }
    }
    assert_eq!(seen, vec!["1".to_string(), "2".to_string(), "3".to_string()]);
    let done = finish_run(run, 10);
    assert_eq!(done.status, ExecutionStatus::Completed);
    assert_eq!(done.node_results.len(), 3);
    assert_eq!(done.outputs.len(), 1);
    assert_eq!(done.outputs[0].node_id, "3");
    assert_eq!(done.outputs[0].format, "markdown");
    assert_eq!(done.outputs[0].path, None);
    assert_eq!(done.outputs[0].content, None);

    let mut run = start_run(&p).ok().unwrap();
    match next_step(&mut run, &p) {
        RunStep::Execute { node, .. } => {
            let n = &p.nodes[node];
            let failed = node_result(&n.id, Err("Failed to read file: x".to_string()), 1);
            match record_result(run, n, failed, 4) {
                Err(fin) => {
                    assert_eq!(fin.status, ExecutionStatus::Failed);
                    assert_eq!(fin.node_results.len(), 1);
                    assert_eq!(fin.error.as_deref(), Some("Failed to read file: x"));
                    assert_eq!(fin.total_duration_ms, 4);
                },
                Ok(_) => panic!("should stop"),
            }
        },
        RunStep::Finished => panic!("nothing ran"),
    }
}

#[test]
fn new_pipelines_get_fresh_ids() {
    let a = create_pipeline("A".to_string());
    let b = create_pipeline("B".to_string());
    assert_eq!(a.id.len(), 36);
    assert_ne!(a.id, b.id);
    assert_eq!(a.name, "A");
    assert!(a.nodes.is_empty());
}
