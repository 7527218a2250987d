use syzygy::export::{
    batch_targets, convert_inline_formatting, convert_typst_to_html_basic, export_format_infos,
    export_to_html, export_to_latex, export_to_markdown, export_to_plain_text, extension_for,
    finish_export, latex_escape, parse_export_format, pending_write, regex_replace,
    render_document, ExportConfig, ExportFormat, ExportOptions, PageMargins,
};
use syzygy::text::html_escape;

fn options() -> ExportOptions {
    ExportOptions::default()
}

#[test]
fn html_escape_four_characters() {
    assert_eq!(html_escape("a & <b> \"c\" 'd'"), "a &amp; &lt;b&gt; &quot;c&quot; 'd'");
}

#[test]
fn html_escape_reads_back() {
    for text in ["a<b&c", "&lt; is not <", "x &amp;&quot;\"> y", ""] {
        let escaped = html_escape(text);
        let back = escaped.replace("&lt;", "<").replace("&gt;", ">").replace("&quot;", "\"").replace("&amp;", "&");
        assert_eq!(back, text);
    }
    assert_eq!(html_escape("a<b&c"), "a&lt;b&amp;c");
}

#[test]
fn latex_escape_backslash_and_braces() {
    assert_eq!(latex_escape("a\\b{c}"), "a\\textbackslash\\{\\}b\\{c\\}");
    assert_eq!(latex_escape("50% & $5 #1 x_y ~ ^"), "50\\% \\& \\$5 \\#1 x\\_y \\textasciitilde{} \\textasciicircum{}");
}

#[test]
fn inline_formatting_to_html() {
    assert_eq!(convert_inline_formatting("*bold* and _it_ and `x`"), "<strong>bold</strong> and <em>it</em> and <code>x</code>");
    assert_eq!(convert_inline_formatting("see #link(\"http://a\")[site]"), "see <a href=\"http://a\">site</a>");
    assert_eq!(
        convert_inline_formatting("#link(\"http://a?b=1&c=2\")[one] or #link(\"http://z\")[two]"),
        "<a href=\"http://a?b=1&amp;c=2\">one</a> or <a href=\"http://z\">two</a>"
    );
    assert_eq!(regex_replace("abc", "(", "x"), "abc");
    assert_eq!(regex_replace("abc", "b", "x"), "axc");
}

#[test]
fn typst_to_html_lines() {
    let src = "= Title\n== Sub\n- item\n> quote\n\n#set page()\n// note\nPlain *b*\n```rust\nlet a = 1 < 2;\n```";
    assert_eq!(convert_typst_to_html_basic(src), "<h1>Title</h1>\n<h2>Sub</h2>\n<li>item</li>\n<blockquote>quote</blockquote>\n<br>\n<p>Plain <strong>b</strong></p>\n<pre><code class=\"language-rust\">let a = 1 &lt; 2;\n</code></pre>\n");
}

#[test]
fn html_page_uses_title_and_css() {
    let mut o = options();
    o.title = Some("A <Doc>".to_string());
    o.custom_css = Some("p{}".to_string());
    let r = export_to_html("x", &o);
    let page = r.content.unwrap();
    assert!(page.starts_with("<!DOCTYPE html>\n<html lang=\"en\">"));
    assert!(page.contains("<title>A &lt;Doc&gt;</title>"));
    assert!(page.contains("\n        p{}\n    </style>"));
    assert!(page.ends_with("<body>\n<p>x</p>\n\n</body>\n</html>"));
    assert!(matches!(r.format, ExportFormat::Html));
}

#[test]
fn markdown_front_matter_and_headings() {
    let mut o = options();
    o.title = Some("T".to_string());
    let r = export_to_markdown("= A\n==== D\n#import \"x\"\nsome #strong[bold] and #emph[it]\n- keep", &o);
    assert_eq!(r.content.unwrap(), "---\ntitle: \"T\"\n---\n\n# A\n#### D\nsome **bold** and *it*\n- keep\n");
}

#[test]
fn markdown_inline_calls_close_their_marks() {
    let r = export_to_markdown("= T\nSome #strong[bold] text", &options());
    assert_eq!(r.content.unwrap(), "# T\nSome **bold** text\n");
    let r = export_to_markdown("#strong[a #emph[b] c] [x] ] #strong[open", &options());
    assert_eq!(r.content.unwrap(), "**a *b* c** [x] ] **open\n");
}

#[test]
fn latex_document() {
    let mut o = options();
    o.title = Some("T&C".to_string());
    o.include_toc = true;
    o.margins = Some(PageMargins { top: "2".to_string(), bottom: "2".to_string(), left: "1.5".to_string(), right: "1.5".to_string() });
    let r = export_to_latex("= Intro\n- a_b\n```py\nx_1\n```\n\ntext", &o);
    let tex = r.content.unwrap();
    assert!(tex.starts_with("\\documentclass[12pt]{article}\n"));
    assert!(tex.contains("\\usepackage[top=2cm,bottom=2cm,left=1.5cm,right=1.5cm]{geometry}\n\n\\title{T\\&C}\n\n\\begin{document}\n\n\\maketitle\n\n\\tableofcontents\n\\newpage\n\n"));
    assert!(tex.ends_with("\\section{Intro}\n\\item a\\_b\n\\begin{lstlisting}[language=py]\nx_1\n\\end{lstlisting}\n\ntext\n\n\\end{document}\n"));
}

#[test]
fn plain_text_strips_markup() {
    let r = export_to_plain_text("== *Title*\n#show x\n- _item_\n`code`", &options());
    assert_eq!(r.content.unwrap(), "Title\nitem\ncode\n");
}

#[test]
fn render_dispatches_and_refuses_binary_formats() {
    let cfg = ExportConfig { format: ExportFormat::Pdf, output_path: None, options: options() };
    let r = render_document("x", &cfg);
    assert!(!r.success);
    assert_eq!(r.error.as_deref(), Some("Use compile_typst_source for PDF export"));
    let cfg = ExportConfig { format: ExportFormat::Docx, output_path: None, options: options() };
    assert_eq!(render_document("x", &cfg).error.as_deref(), Some("Docx export not yet implemented"));
    let cfg = ExportConfig { format: ExportFormat::PlainText, output_path: Some("o.txt".to_string()), options: options() };
    let r = render_document("a", &cfg);
    let (path, content) = pending_write(&cfg, &r).unwrap();
    assert_eq!(path, "o.txt");
    assert_eq!(content, "a\n");
    let saved = finish_export(ExportFormat::PlainText, path.clone(), content.clone(), None);
    assert_eq!(saved.output_path.as_deref(), Some("o.txt"));
    let failed = finish_export(ExportFormat::PlainText, path, content, Some("disk full".to_string()));
    assert_eq!(failed.error.as_deref(), Some("Failed to write file: disk full"));
    assert!(failed.content.is_none());
}

#[test]
fn format_names() {
    assert!(matches!(parse_export_format("MD"), Ok(ExportFormat::Markdown)));
    assert!(matches!(parse_export_format("word"), Ok(ExportFormat::Docx)));
    assert_eq!(parse_export_format("rtf").err().unwrap(), "Unknown export format: rtf");
    assert_eq!(extension_for("Tex"), Some(".tex"));
    assert_eq!(extension_for("docx"), None);
}

#[test]
fn batch_skips_unknown_formats() {
    let t = batch_targets(&vec!["pdf".to_string(), "docx".to_string(), "Plain".to_string()], "out");
    assert_eq!(t, vec![("pdf".to_string(), "out.pdf".to_string()), ("Plain".to_string(), "out.txt".to_string())]);
}

#[test]
fn format_list() {
    let f = export_format_infos();
    assert_eq!(f.len(), 7);
    assert_eq!(f[0].id, "pdf");
    assert!(f[0].binary);
    assert_eq!(f[4].name, "Plain Text");
    assert_eq!(f[6].available, Some(false));
    assert_eq!(f[1].available, None);
}
