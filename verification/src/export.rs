//! Exporting Typst sources to HTML, Markdown, LaTeX and plain text.
//!
//! The converters work line by line on the source and are specified over the
//! lines of the text (`crate::text::lines`).
use vstd::prelude::*;
use crate::outside::{regex_replace_all, spec_regex_replace_all};
use crate::text::{eq_str, spec_lowercase, to_lowercase};
use crate::text::{
    append_chars, chars_of, html_escape, html_escape_chars, html_escaped, lines, lines_of,
    matches_at, occurs_at, push_char, starts_with, starts_with_str, trim,
    trim_chars,
};

verus! {

/// The formats a document can be exported to.
#[derive(Clone, Copy, Debug, PartialEq, Eq, Structural)]
pub enum ExportFormat {
    Pdf,
    Html,
    Markdown,
    Docx,
    Epub,
    Latex,
    PlainText,
}

/// Page margins, each held as the decimal text it is printed with.
pub struct PageMargins {
    pub top: String,
    pub bottom: String,
    pub left: String,
    pub right: String,
}

/// What an export includes and how it is titled.
pub struct ExportOptions {
    pub include_toc: bool,
    pub include_page_numbers: bool,
    pub title: Option<String>,
    pub author: Option<String>,
    pub paper_size: Option<String>,
    pub custom_css: Option<String>,
    pub margins: Option<PageMargins>,
}

impl Default for ExportOptions {
    fn default() -> (o: Self)
        ensures
            !o.include_toc,
            !o.include_page_numbers,
            o.title is None,
            o.author is None,
            o.paper_size is None,
            o.custom_css is None,
            o.margins is None,
    {
        ExportOptions {
            include_toc: false,
            include_page_numbers: false,
            title: None,
            author: None,
            paper_size: None,
            custom_css: None,
            margins: None,
        }
    }
}

/// An export request: the format, where to save it and the options.
pub struct ExportConfig {
    pub format: ExportFormat,
    pub output_path: Option<String>,
    pub options: ExportOptions,
}

/// The outcome of an export.
pub struct ExportResult {
    pub success: bool,
    pub format: ExportFormat,
    pub output_path: Option<String>,
    pub content: Option<String>,
    pub binary_data: Option<Vec<u8>>,
    pub error: Option<String>,
}

/// A successful export of rendered text.
pub open spec fn rendered(r: ExportResult, format: ExportFormat, text: Seq<char>) -> bool {
    &&& r.success
    &&& r.format == format
    &&& r.output_path is None
    &&& r.content matches Some(c) && c@ == text
    &&& r.binary_data is None
    &&& r.error is None
}

// ---- Shared line helpers ----------------------------------------------------

/// The characters of `v` from index `n` on.
fn skip_chars(v: &[char], n: usize) -> (r: Vec<char>)
    requires
        n <= v.len(),
    ensures
        r@ == v@.skip(n as int),
{
    let mut r: Vec<char> = Vec::new();
    let mut i = n;
    while i < v.len()
        invariant
            n <= i <= v.len(),
            r@ == v@.subrange(n as int, i as int),
        decreases v.len() - i,
    {
        r.push(v[i]);
        i = i + 1;
        assert(v@.subrange(n as int, i as int) == v@.subrange(n as int, i - 1).push(v@[i - 1]));
    }
    r
}

/// A Typst directive line (`#set`, `#show` or `#import`), which the text
/// exporters drop.
pub open spec fn is_directive(t: Seq<char>) -> bool {
    starts_with(t, "#set"@) || starts_with(t, "#show"@) || starts_with(t, "#import"@)
}

fn directive(t: &[char]) -> (b: bool)
    ensures
        b == is_directive(t@),
{
    starts_with_str(t, "#set") || starts_with_str(t, "#show") || starts_with_str(t, "#import")
}

// ---- Inline formatting ------------------------------------------------------

/// `text` with every match of `pattern` replaced, or `text` unchanged when the
/// pattern does not compile.
pub open spec fn replaced_or_same(text: Seq<char>, pattern: Seq<char>, replacement: Seq<char>) -> Seq<
    char,
> {
    match spec_regex_replace_all(pattern, text, replacement) {
        Some(r) => r,
        None => text,
    }
}

/// Replaces every match of a regular expression, leaving the text unchanged
/// when the pattern does not compile.
pub fn regex_replace(text: &str, pattern: &str, replacement: &str) -> (r: String)
    ensures
        r@ == replaced_or_same(text@, pattern@, replacement@),
{
    match regex_replace_all(pattern, text, replacement) {
        Some(r) => r,
        None => String::from_str(text),
    }
}

/// Inline Typst markup of an escaped line turned into HTML: `*bold*`,
/// `_italic_`, `` `code` `` and `#link("url")[text]` (whose quotes the
/// escaping has already turned into `&quot;`).
pub open spec fn inline_html(text: Seq<char>) -> Seq<char> {
    let bold = replaced_or_same(html_escaped(text), r"\*([^*]+)\*"@, "<strong>$1</strong>"@);
    let italic = replaced_or_same(bold, r"_([^_]+)_"@, "<em>$1</em>"@);
    let code = replaced_or_same(italic, r"`([^`]+)`"@, "<code>$1</code>"@);
    replaced_or_same(code, r"#link\(&quot;(.+?)&quot;\)\[([^\]]+)\]"@, "<a href=\"$1\">$2</a>"@)
}

/// Escapes a line for HTML and converts its inline formatting.
pub fn convert_inline_formatting(text: &str) -> (r: String)
    ensures
        r@ == inline_html(text@),
{
    let escaped = html_escape(text);
    let bold = regex_replace(escaped.as_str(), r"\*([^*]+)\*", "<strong>$1</strong>");
    let italic = regex_replace(bold.as_str(), r"_([^_]+)_", "<em>$1</em>");
    let code = regex_replace(italic.as_str(), r"`([^`]+)`", "<code>$1</code>");
    regex_replace(code.as_str(), r"#link\(&quot;(.+?)&quot;\)\[([^\]]+)\]", "<a href=\"$1\">$2</a>")
}

} // verus!

verus! {

// ---- Typst to HTML ----------------------------------------------------------

/// The HTML of a (trimmed) line outside code blocks.
pub open spec fn html_block(t: Seq<char>) -> Seq<char> {
    if starts_with(t, "= "@) {
        "<h1>"@ + html_escaped(t.skip(2)) + "</h1>\n"@
    } else if starts_with(t, "== "@) {
        "<h2>"@ + html_escaped(t.skip(3)) + "</h2>\n"@
    } else if starts_with(t, "=== "@) {
        "<h3>"@ + html_escaped(t.skip(4)) + "</h3>\n"@
    } else if starts_with(t, "==== "@) {
        "<h4>"@ + html_escaped(t.skip(5)) + "</h4>\n"@
    } else if starts_with(t, "- "@) || starts_with(t, "+ "@) {
        "<li>"@ + html_escaped(t.skip(2)) + "</li>\n"@
    } else if starts_with(t, "> "@) {
        "<blockquote>"@ + html_escaped(t.skip(2)) + "</blockquote>\n"@
    } else if t.len() == 0 {
        "<br>\n"@
    } else if !starts_with(t, "#"@) && !starts_with(t, "//"@) {
        "<p>"@ + inline_html(t) + "</p>\n"@
    } else {
        seq![]
    }
}

/// The HTML of one source line, and whether a code block is open after it,
/// given whether one was open before it.
pub open spec fn html_line(l: Seq<char>, in_code: bool) -> (Seq<char>, bool) {
    let t = trim(l);
    if starts_with(t, "```"@) {
        if in_code {
            ("</code></pre>\n"@, false)
        } else {
            ("<pre><code class=\"language-"@ + t.skip(3) + "\">"@, true)
        }
    } else if in_code {
        (html_escaped(l) + "\n"@, true)
    } else {
        (html_block(t), false)
    }
}

/// The HTML of a list of lines, and whether a code block is left open.
pub open spec fn html_lines(ls: Seq<Seq<char>>) -> (Seq<char>, bool)
    decreases ls.len(),
{
    if ls.len() == 0 {
        (seq![], false)
    } else {
        let (out, in_code) = html_lines(ls.drop_last());
        let (piece, next) = html_line(ls.last(), in_code);
        (out + piece, next)
    }
}

/// The HTML body of a Typst source.
pub open spec fn typst_html(source: Seq<char>) -> Seq<char> {
    html_lines(lines(source)).0
}

fn push_wrapped_escaped(out: &mut String, open: &str, t: &[char], n: usize, close: &str)
    requires
        n <= t.len(),
    ensures
        final(out)@ == old(out)@ + open@ + html_escaped(t@.skip(n as int)) + close@,
{
    out.append(open);
    let rest = skip_chars(t, n);
    let esc = html_escape_chars(rest.as_slice());
    out.append(esc.as_str());
    out.append(close);
}

fn push_html_block(out: &mut String, t: &[char])
    ensures
        final(out)@ == old(out)@ + html_block(t@),
{
    proof {
        reveal_strlit("= ");
        reveal_strlit("== ");
        reveal_strlit("=== ");
        reveal_strlit("==== ");
        reveal_strlit("- ");
        reveal_strlit("+ ");
        reveal_strlit("> ");
    }
    if starts_with_str(t, "= ") {
        push_wrapped_escaped(out, "<h1>", t, 2, "</h1>\n");
    } else if starts_with_str(t, "== ") {
        push_wrapped_escaped(out, "<h2>", t, 3, "</h2>\n");
    } else if starts_with_str(t, "=== ") {
        push_wrapped_escaped(out, "<h3>", t, 4, "</h3>\n");
    } else if starts_with_str(t, "==== ") {
        push_wrapped_escaped(out, "<h4>", t, 5, "</h4>\n");
    } else if starts_with_str(t, "- ") || starts_with_str(t, "+ ") {
        push_wrapped_escaped(out, "<li>", t, 2, "</li>\n");
    } else if starts_with_str(t, "> ") {
        push_wrapped_escaped(out, "<blockquote>", t, 2, "</blockquote>\n");
    } else if t.len() == 0 {
        out.append("<br>\n");
    } else if !starts_with_str(t, "#") && !starts_with_str(t, "//") {
        let text = crate::text::string_of(t);
        let formatted = convert_inline_formatting(text.as_str());
        out.append("<p>");
        out.append(formatted.as_str());
        out.append("</p>\n");
    } else {
        assert(old(out)@ + html_block(t@) == old(out)@);
    }
}

fn push_html_line(out: &mut String, l: &[char], in_code: bool) -> (next: bool)
    ensures
        final(out)@ == old(out)@ + html_line(l@, in_code).0,
        next == html_line(l@, in_code).1,
{
    proof {
        reveal_strlit("```");
    }
    let tv = trim_chars(l);
    let t = tv.as_slice();
    if starts_with_str(t, "```") {
        if in_code {
            out.append("</code></pre>\n");
            false
        } else {
            out.append("<pre><code class=\"language-");
            append_chars(out, t, 3, t.len());
            out.append("\">");
            true
        }
    } else if in_code {
        let esc = html_escape_chars(l);
        out.append(esc.as_str());
        out.append("\n");
        true
    } else {
        push_html_block(out, t);
        false
    }
}

/// Converts the common Typst constructs of a source to HTML: headings, list
/// items, quotes, code blocks and paragraphs with inline formatting.
pub fn convert_typst_to_html_basic(source: &str) -> (r: String)
    ensures
        r@ == typst_html(source@),
{
    let chars = chars_of(source);
    let ls = lines_of(chars.as_slice());
    let ghost lv = ls@.map_values(|l: Vec<char>| l@);
    let mut html = String::new();
    let mut in_code = false;
    let mut i: usize = 0;
    while i < ls.len()
        invariant
            i <= ls.len(),
            lv == ls@.map_values(|l: Vec<char>| l@),
            (html@, in_code) == html_lines(lv.take(i as int)),
        decreases ls.len() - i,
    {
        proof {
            assert(lv.take(i + 1).drop_last() == lv.take(i as int));
            assert(lv.take(i + 1).last() == ls@[i as int]@);
        }
        in_code = push_html_line(&mut html, ls[i].as_slice(), in_code);
        i = i + 1;
    }
    assert(lv.take(ls.len() as int) == lv);
    html
}

} // verus!

verus! {

// ---- HTML pages -------------------------------------------------------------

/// The style sheet every exported HTML page carries.
pub open spec fn default_css() -> Seq<char> {
    r#"
        body {
            font-family: -apple-system, BlinkMacSystemFont, 'Segoe UI', Roboto, Oxygen, Ubuntu, sans-serif;
            max-width: 800px;
            margin: 0 auto;
            padding: 2rem;
            line-height: 1.6;
            color: #333;
        }
        h1, h2, h3, h4, h5, h6 { color: #1a1a1a; margin-top: 1.5em; }
        h1 { border-bottom: 2px solid #eee; padding-bottom: 0.3em; }
        code { background: #f4f4f4; padding: 0.2em 0.4em; border-radius: 3px; }
        pre { background: #f4f4f4; padding: 1em; border-radius: 5px; overflow-x: auto; }
        blockquote { border-left: 4px solid #ddd; margin-left: 0; padding-left: 1em; color: #666; }
        table { border-collapse: collapse; width: 100%; }
        th, td { border: 1px solid #ddd; padding: 0.5em; text-align: left; }
        th { background: #f4f4f4; }
    "#@
}

/// A complete HTML page: escaped title, default and custom styles, and body.
pub open spec fn html_page(title: Seq<char>, custom_css: Seq<char>, body: Seq<char>) -> Seq<char> {
    r#"<!DOCTYPE html>
<html lang="en">
<head>
    <meta charset="UTF-8">
    <meta name="viewport" content="width=device-width, initial-scale=1.0">
    <title>"#@ + html_escaped(title) + r#"</title>
    <style>
        "#@ + default_css() + r#"
        "#@ + custom_css
        + r#"
    </style>
</head>
<body>
"#@ + body + r#"
</body>
</html>"#@
}

/// The text of an optional string, or a default.
pub open spec fn text_or(o: Option<String>, d: Seq<char>) -> Seq<char> {
    match o {
        Some(s) => s@,
        None => d,
    }
}

/// Exports a Typst source as an HTML page titled by the options (or
/// "Document") with their custom style sheet.
pub fn export_to_html(source: &str, options: &ExportOptions) -> (r: ExportResult)
    ensures
        rendered(
            r,
            ExportFormat::Html,
            html_page(
                text_or(options.title, "Document"@),
                text_or(options.custom_css, seq![]),
                typst_html(source@),
            ),
        ),
{
    proof {
        reveal_strlit("");
    }
    let title: &str = match &options.title {
        Some(t) => t.as_str(),
        None => "Document",
    };
    let custom_css: &str = match &options.custom_css {
        Some(c) => c.as_str(),
        None => "",
    };
    let body = convert_typst_to_html_basic(source);
    let mut html = String::from_str(r#"<!DOCTYPE html>
<html lang="en">
<head>
    <meta charset="UTF-8">
    <meta name="viewport" content="width=device-width, initial-scale=1.0">
    <title>"#);
    let escaped = html_escape(title);
    html.append(escaped.as_str());
    html.append(r#"</title>
    <style>
        "#);
    html.append(r#"
        body {
            font-family: -apple-system, BlinkMacSystemFont, 'Segoe UI', Roboto, Oxygen, Ubuntu, sans-serif;
            max-width: 800px;
            margin: 0 auto;
            padding: 2rem;
            line-height: 1.6;
            color: #333;
        }
        h1, h2, h3, h4, h5, h6 { color: #1a1a1a; margin-top: 1.5em; }
        h1 { border-bottom: 2px solid #eee; padding-bottom: 0.3em; }
        code { background: #f4f4f4; padding: 0.2em 0.4em; border-radius: 3px; }
        pre { background: #f4f4f4; padding: 1em; border-radius: 5px; overflow-x: auto; }
        blockquote { border-left: 4px solid #ddd; margin-left: 0; padding-left: 1em; color: #666; }
        table { border-collapse: collapse; width: 100%; }
        th, td { border: 1px solid #ddd; padding: 0.5em; text-align: left; }
        th { background: #f4f4f4; }
    "#);
    html.append(r#"
        "#);
    html.append(custom_css);
    html.append(r#"
    </style>
</head>
<body>
"#);
    html.append(body.as_str());
    html.append(r#"
</body>
</html>"#);
    assert(html@ =~= html_page(
        text_or(options.title, "Document"@),
        text_or(options.custom_css, seq![]),
        typst_html(source@),
    ));
    ExportResult {
        success: true,
        format: ExportFormat::Html,
        output_path: None,
        content: Some(html),
        binary_data: None,
        error: None,
    }
}

} // verus!

verus! {

// ---- Typst to Markdown ------------------------------------------------------

/// Front matter naming the title and author, when either is given.
pub open spec fn front_matter(title: Option<String>, author: Option<String>) -> Seq<char> {
    if title is Some || author is Some {
        "---\n"@ + (match title {
            Some(t) => "title: \""@ + t@ + "\"\n"@,
            None => seq![],
        }) + (match author {
            Some(a) => "author: \""@ + a@ + "\"\n"@,
            None => seq![],
        }) + "---\n\n"@
    } else {
        seq![]
    }
}

/// The Typst call that opens strong emphasis.
pub open spec fn strong_open() -> Seq<char> {
    seq!['#', 's', 't', 'r', 'o', 'n', 'g', '[']
}

/// The Typst call that opens emphasis.
pub open spec fn emph_open() -> Seq<char> {
    seq!['#', 'e', 'm', 'p', 'h', '[']
}

/// What closes a bracket opened as `kind`: `**` for strong emphasis (1), `*`
/// for emphasis (2), and the bracket itself for a plain `[` (0).
pub open spec fn closing_mark(kind: u8) -> Seq<char> {
    if kind == 1 {
        seq!['*', '*']
    } else if kind == 2 {
        seq!['*']
    } else {
        seq![']']
    }
}

/// Typst inline markup in `s` as Markdown, given the brackets still open
/// before `s` (innermost last): `#strong[..]` becomes `**..**`, `#emph[..]`
/// becomes `*..*`, brackets of other kinds are kept, and every other
/// character is copied.
pub open spec fn markdown_inline_from(s: Seq<char>, open: Seq<u8>) -> Seq<char>
    decreases s.len(),
{
    if s.len() == 0 {
        seq![]
    } else if starts_with(s, strong_open()) {
        seq!['*', '*'] + markdown_inline_from(s.skip(8), open.push(1))
    } else if starts_with(s, emph_open()) {
        seq!['*'] + markdown_inline_from(s.skip(6), open.push(2))
    } else if s[0] == '[' {
        seq!['['] + markdown_inline_from(s.skip(1), open.push(0))
    } else if s[0] == ']' && open.len() > 0 {
        closing_mark(open.last()) + markdown_inline_from(s.skip(1), open.drop_last())
    } else {
        seq![s[0]] + markdown_inline_from(s.skip(1), open)
    }
}

/// The inline markup of a line as Markdown.
pub open spec fn markdown_inline(l: Seq<char>) -> Seq<char> {
    markdown_inline_from(l, seq![])
}

/// The Markdown of one source line.
pub open spec fn markdown_line(l: Seq<char>) -> Seq<char> {
    let t = trim(l);
    if starts_with(t, "==== "@) {
        "#### "@ + t.skip(5) + "\n"@
    } else if starts_with(t, "=== "@) {
        "### "@ + t.skip(4) + "\n"@
    } else if starts_with(t, "== "@) {
        "## "@ + t.skip(3) + "\n"@
    } else if starts_with(t, "= "@) {
        "# "@ + t.skip(2) + "\n"@
    } else if starts_with(t, "- "@) || starts_with(t, "+ "@) || starts_with(t, "> "@)
        || starts_with(t, "```"@) {
        l + "\n"@
    } else if is_directive(t) {
        seq![]
    } else {
        markdown_inline(l) + "\n"@
    }
}

pub open spec fn markdown_lines(ls: Seq<Seq<char>>) -> Seq<char>
    decreases ls.len(),
{
    if ls.len() == 0 {
        seq![]
    } else {
        markdown_lines(ls.drop_last()) + markdown_line(ls.last())
    }
}

/// The Markdown rendering of a Typst source.
pub open spec fn typst_markdown(source: Seq<char>, options: ExportOptions) -> Seq<char> {
    front_matter(options.title, options.author) + markdown_lines(lines(source))
}

fn push_heading(out: &mut String, marks: &str, t: &[char], n: usize)
    requires
        n <= t.len(),
    ensures
        final(out)@ == old(out)@ + marks@ + t@.skip(n as int) + "\n"@,
{
    out.append(marks);
    append_chars(out, t, n, t.len());
    out.append("\n");
}

/// `p` occurs in `s` at `i` exactly when the rest of `s` from `i` starts with it.
proof fn lemma_occurs_at_rest(s: Seq<char>, p: Seq<char>, i: int)
    requires
        0 <= i <= s.len(),
    ensures
        occurs_at(s, p, i) == starts_with(s.skip(i), p),
{
    if i + p.len() <= s.len() {
        assert(s.skip(i).subrange(0, p.len() as int) =~= s.subrange(i, i + p.len()));
    }
}

fn push_closing_mark(out: &mut String, kind: u8)
    ensures
        final(out)@ == old(out)@ + closing_mark(kind),
{
    if kind == 1 {
        push_char(out, '*');
        push_char(out, '*');
        assert(final(out)@ =~= old(out)@ + closing_mark(kind));
    } else if kind == 2 {
        push_char(out, '*');
        assert(final(out)@ =~= old(out)@ + closing_mark(kind));
    } else {
        push_char(out, ']');
        assert(final(out)@ =~= old(out)@ + closing_mark(kind));
    }
}

fn push_markdown_inline(out: &mut String, l: &[char])
    ensures
        final(out)@ == old(out)@ + markdown_inline(l@),
{
    let strong: Vec<char> = vec!['#', 's', 't', 'r', 'o', 'n', 'g', '['];
    let emph: Vec<char> = vec!['#', 'e', 'm', 'p', 'h', '['];
    assert(strong@ =~= strong_open());
    assert(emph@ =~= emph_open());
    let ghost start = out@;
    let mut open: Vec<u8> = Vec::new();
    let mut i: usize = 0;
    assert(l@.skip(0) =~= l@);
    while i < l.len()
        invariant
            i <= l.len(),
            strong@ == strong_open(),
            emph@ == emph_open(),
            start + markdown_inline(l@) == out@ + markdown_inline_from(l@.skip(i as int), open@),
        decreases l.len() - i,
    {
        let ghost rest = l@.skip(i as int);
        let ghost before = out@;
        let ghost was_open = open@;
        proof {
            lemma_occurs_at_rest(l@, strong_open(), i as int);
            lemma_occurs_at_rest(l@, emph_open(), i as int);
            assert(rest[0] == l@[i as int]);
        }
        if matches_at(l, strong.as_slice(), i) {
            push_char(out, '*');
            push_char(out, '*');
            open.push(1);
            proof {
                assert(rest.skip(8) =~= l@.skip(i + 8));
                assert(out@ =~= before + seq!['*', '*']);
            }
            i = i + 8;
            proof {
                let tail = markdown_inline_from(l@.skip(i as int), open@);
                assert(before + (seq!['*', '*'] + tail) =~= (before + seq!['*', '*']) + tail);
            }
        } else if matches_at(l, emph.as_slice(), i) {
            push_char(out, '*');
            open.push(2);
            proof {
                assert(rest.skip(6) =~= l@.skip(i + 6));
                assert(out@ =~= before + seq!['*']);
            }
            i = i + 6;
            proof {
                let tail = markdown_inline_from(l@.skip(i as int), open@);
                assert(before + (seq!['*'] + tail) =~= (before + seq!['*']) + tail);
            }
        } else if l[i] == '[' {
            push_char(out, '[');
            open.push(0);
            proof {
                assert(rest.skip(1) =~= l@.skip(i + 1));
                assert(out@ =~= before + seq!['[']);
            }
            i = i + 1;
            proof {
                let tail = markdown_inline_from(l@.skip(i as int), open@);
                assert(before + (seq!['['] + tail) =~= (before + seq!['[']) + tail);
            }
        } else if l[i] == ']' && open.len() > 0 {
            let kind = open.pop().unwrap();
            proof {
                assert(kind == was_open.last());
                assert(open@ =~= was_open.drop_last());
            }
            push_closing_mark(out, kind);
            proof {
                assert(rest.skip(1) =~= l@.skip(i + 1));
            }
            i = i + 1;
            proof {
                let tail = markdown_inline_from(l@.skip(i as int), open@);
                assert(before + (closing_mark(kind) + tail) =~= (before + closing_mark(kind)) + tail);
            }
        } else {
            let c = l[i];
            push_char(out, c);
            proof {
                assert(rest.skip(1) =~= l@.skip(i + 1));
            }
            i = i + 1;
            proof {
                let tail = markdown_inline_from(l@.skip(i as int), open@);
                assert(before + (seq![c] + tail) =~= (before + seq![c]) + tail);
            }
        }
    }
    assert(markdown_inline_from(l@.skip(i as int), open@) =~= Seq::<char>::empty());
    assert(out@ + Seq::<char>::empty() =~= out@);
}

fn push_markdown_line(out: &mut String, l: &[char])
    ensures
        final(out)@ == old(out)@ + markdown_line(l@),
{
    proof {
        reveal_strlit("= ");
        reveal_strlit("== ");
        reveal_strlit("=== ");
        reveal_strlit("==== ");
    }
    let tv = trim_chars(l);
    let t = tv.as_slice();
    assert(tv@ == trim(l@));
    if starts_with_str(t, "==== ") {
        push_heading(out, "#### ", t, 5);
        assert(final(out)@ == old(out)@ + markdown_line(l@));
    } else if starts_with_str(t, "=== ") {
        push_heading(out, "### ", t, 4);
    } else if starts_with_str(t, "== ") {
        push_heading(out, "## ", t, 3);
    } else if starts_with_str(t, "= ") {
        push_heading(out, "# ", t, 2);
    } else if starts_with_str(t, "- ") || starts_with_str(t, "+ ") || starts_with_str(t, "> ")
        || starts_with_str(t, "```") {
        append_chars(out, l, 0, l.len());
        assert(l@.subrange(0, l@.len() as int) == l@);
        out.append("\n");
    } else if directive(t) {
        assert(old(out)@ + markdown_line(l@) == old(out)@);
    } else {
        push_markdown_inline(out, l);
        out.append("\n");
    }
}

/// Exports a Typst source as Markdown: front matter from the options, `=`
/// headings as `#` headings, lists, quotes and code kept, directives dropped,
/// and `#strong[..]`/`#emph[..]` calls turned into `**..**`/`*..*`.
pub fn export_to_markdown(source: &str, options: &ExportOptions) -> (r: ExportResult)
    ensures
        rendered(r, ExportFormat::Markdown, typst_markdown(source@, *options)),
{
    let mut md = String::new();
    if options.title.is_some() || options.author.is_some() {
        md.append("---\n");
        match &options.title {
            Some(t) => {
                md.append("title: \"");
                md.append(t.as_str());
                md.append("\"\n");
            },
            None => {},
        }
        match &options.author {
            Some(a) => {
                md.append("author: \"");
                md.append(a.as_str());
                md.append("\"\n");
            },
            None => {},
        }
        md.append("---\n\n");
    }
    assert(md@ =~= front_matter(options.title, options.author));
    let ghost head = md@;
    let chars = chars_of(source);
    let ls = lines_of(chars.as_slice());
    let ghost lv = ls@.map_values(|l: Vec<char>| l@);
    let mut i: usize = 0;
    while i < ls.len()
        invariant
            i <= ls.len(),
            lv == ls@.map_values(|l: Vec<char>| l@),
            md@ == head + markdown_lines(lv.take(i as int)),
        decreases ls.len() - i,
    {
        proof {
            assert(lv.take(i + 1).drop_last() == lv.take(i as int));
            assert(lv.take(i + 1).last() == ls@[i as int]@);
        }
        push_markdown_line(&mut md, ls[i].as_slice());
        i = i + 1;
    }
    assert(lv.take(ls.len() as int) == lv);
    ExportResult {
        success: true,
        format: ExportFormat::Markdown,
        output_path: None,
        content: Some(md),
        binary_data: None,
        error: None,
    }
}

} // verus!

verus! {

// ---- Typst to LaTeX ---------------------------------------------------------

/// The LaTeX for one character: the special characters escaped (a backslash
/// becomes `\textbackslash\{\}`, as replacing `\` first and the braces after
/// leaves it).
pub open spec fn latex_entity(c: char) -> Seq<char> {
    if c == '\\' {
        "\\textbackslash\\{\\}"@
    } else if c == '&' {
        "\\&"@
    } else if c == '%' {
        "\\%"@
    } else if c == '$' {
        "\\$"@
    } else if c == '#' {
        "\\#"@
    } else if c == '_' {
        "\\_"@
    } else if c == '{' {
        "\\{"@
    } else if c == '}' {
        "\\}"@
    } else if c == '~' {
        "\\textasciitilde{}"@
    } else if c == '^' {
        "\\textasciicircum{}"@
    } else {
        seq![c]
    }
}

/// A text with the LaTeX special characters escaped.
pub open spec fn latex_escaped(s: Seq<char>) -> Seq<char> {
    s.flat_map(|c: char| latex_entity(c))
}

fn latex_escape_chars(v: &[char]) -> (r: String)
    ensures
        r@ == latex_escaped(v@),
{
    let mut out = String::new();
    let mut i: usize = 0;
    while i < v.len()
        invariant
            i <= v.len(),
            out@ == latex_escaped(v@.take(i as int)),
        decreases v.len() - i,
    {
        let c = v[i];
        if c == '\\' {
            out.append("\\textbackslash\\{\\}");
        } else if c == '&' {
            out.append("\\&");
        } else if c == '%' {
            out.append("\\%");
        } else if c == '$' {
            out.append("\\$");
        } else if c == '#' {
            out.append("\\#");
        } else if c == '_' {
            out.append("\\_");
        } else if c == '{' {
            out.append("\\{");
        } else if c == '}' {
            out.append("\\}");
        } else if c == '~' {
            out.append("\\textasciitilde{}");
        } else if c == '^' {
            out.append("\\textasciicircum{}");
        } else {
            push_char(&mut out, c);
            assert(out@ == latex_escaped(v@.take(i as int)) + seq![c]);
        }
        proof {
            assert(v@.take(i + 1) == v@.take(i as int).push(c));
            v@.take(i as int).lemma_flat_map_push(|c: char| latex_entity(c), c);
        }
        i = i + 1;
    }
    assert(v@.take(v.len() as int) == v@);
    out
}

/// Escapes the LaTeX special characters of a text.
pub fn latex_escape(text: &str) -> (r: String)
    ensures
        r@ == latex_escaped(text@),
{
    let v = chars_of(text);
    latex_escape_chars(v.as_slice())
}

/// The LaTeX of a (trimmed) line outside code blocks; `l` is the line as
/// written.
pub open spec fn latex_block(l: Seq<char>, t: Seq<char>) -> Seq<char> {
    if starts_with(t, "= "@) {
        "\\section{"@ + latex_escaped(t.skip(2)) + "}\n"@
    } else if starts_with(t, "== "@) {
        "\\subsection{"@ + latex_escaped(t.skip(3)) + "}\n"@
    } else if starts_with(t, "=== "@) {
        "\\subsubsection{"@ + latex_escaped(t.skip(4)) + "}\n"@
    } else if starts_with(t, "- "@) {
        "\\item "@ + latex_escaped(t.skip(2)) + "\n"@
    } else if starts_with(t, "> "@) {
        "\\begin{quote}\n"@ + latex_escaped(t.skip(2)) + "\n\\end{quote}\n"@
    } else if is_directive(t) {
        seq![]
    } else if t.len() == 0 {
        "\n"@
    } else {
        latex_escaped(l) + "\n\n"@
    }
}

/// The LaTeX of one source line, and whether a listing is open after it.
pub open spec fn latex_line(l: Seq<char>, in_code: bool) -> (Seq<char>, bool) {
    let t = trim(l);
    if starts_with(t, "```"@) {
        if in_code {
            ("\\end{lstlisting}\n"@, false)
        } else {
            ("\\begin{lstlisting}[language="@ + t.skip(3) + "]\n"@, true)
        }
    } else if in_code {
        (l + "\n"@, true)
    } else {
        (latex_block(l, t), false)
    }
}

pub open spec fn latex_lines(ls: Seq<Seq<char>>) -> (Seq<char>, bool)
    decreases ls.len(),
{
    if ls.len() == 0 {
        (seq![], false)
    } else {
        let (out, in_code) = latex_lines(ls.drop_last());
        let (piece, next) = latex_line(ls.last(), in_code);
        (out + piece, next)
    }
}

/// The document class, packages and page margins.
pub open spec fn latex_packages(margins: Option<PageMargins>) -> Seq<char> {
    "\\documentclass[12pt]{article}\n"@ + "\\usepackage[utf8]{inputenc}\n"@
        + "\\usepackage{graphicx}\n"@ + "\\usepackage{hyperref}\n"@ + "\\usepackage{listings}\n"@
        + (match margins {
        Some(m) => "\\usepackage[top="@ + m.top@ + "cm,bottom="@ + m.bottom@ + "cm,left="@
            + m.left@ + "cm,right="@ + m.right@ + "cm]{geometry}\n"@,
        None => seq![],
    }) + "\n"@
}

/// The title and author declarations.
pub open spec fn latex_titles(title: Option<String>, author: Option<String>) -> Seq<char> {
    (match title {
        Some(t) => "\\title{"@ + latex_escaped(t@) + "}\n"@,
        None => seq![],
    }) + (match author {
        Some(a) => "\\author{"@ + latex_escaped(a@) + "}\n"@,
        None => seq![],
    })
}

/// The start of the body, with the title page and the table of contents.
pub open spec fn latex_opening(has_title: bool, include_toc: bool) -> Seq<char> {
    "\n\\begin{document}\n\n"@ + (if has_title {
        "\\maketitle\n\n"@
    } else {
        seq![]
    }) + (if include_toc {
        "\\tableofcontents\n\\newpage\n\n"@
    } else {
        seq![]
    })
}

/// The preamble: document class, packages, margins, title and author, up to
/// the start of the body (title page and contents included).
pub open spec fn latex_preamble(options: ExportOptions) -> Seq<char> {
    latex_packages(options.margins) + latex_titles(options.title, options.author)
        + latex_opening(options.title is Some, options.include_toc)
}

/// The LaTeX document for a Typst source.
pub open spec fn typst_latex(source: Seq<char>, options: ExportOptions) -> Seq<char> {
    latex_preamble(options) + latex_lines(lines(source)).0 + "\\end{document}\n"@
}

fn push_latex_escaped(out: &mut String, open: &str, t: &[char], n: usize, close: &str)
    requires
        n <= t.len(),
    ensures
        final(out)@ == old(out)@ + open@ + latex_escaped(t@.skip(n as int)) + close@,
{
    out.append(open);
    let rest = skip_chars(t, n);
    let esc = latex_escape_chars(rest.as_slice());
    out.append(esc.as_str());
    out.append(close);
}

fn push_latex_block(out: &mut String, l: &[char], t: &[char])
    ensures
        final(out)@ == old(out)@ + latex_block(l@, t@),
{
    proof {
        reveal_strlit("= ");
        reveal_strlit("== ");
        reveal_strlit("=== ");
        reveal_strlit("- ");
        reveal_strlit("> ");
    }
    if starts_with_str(t, "= ") {
        push_latex_escaped(out, "\\section{", t, 2, "}\n");
    } else if starts_with_str(t, "== ") {
        push_latex_escaped(out, "\\subsection{", t, 3, "}\n");
    } else if starts_with_str(t, "=== ") {
        push_latex_escaped(out, "\\subsubsection{", t, 4, "}\n");
    } else if starts_with_str(t, "- ") {
        push_latex_escaped(out, "\\item ", t, 2, "\n");
    } else if starts_with_str(t, "> ") {
        push_latex_escaped(out, "\\begin{quote}\n", t, 2, "\n\\end{quote}\n");
    } else if directive(t) {
        assert(old(out)@ + latex_block(l@, t@) == old(out)@);
    } else if t.len() == 0 {
        out.append("\n");
    } else {
        let esc = latex_escape_chars(l);
        out.append(esc.as_str());
        out.append("\n\n");
    }
}

fn push_latex_line(out: &mut String, l: &[char], in_code: bool) -> (next: bool)
    ensures
        final(out)@ == old(out)@ + latex_line(l@, in_code).0,
        next == latex_line(l@, in_code).1,
{
    proof {
        reveal_strlit("```");
    }
    let tv = trim_chars(l);
    let t = tv.as_slice();
    if starts_with_str(t, "```") {
        if in_code {
            out.append("\\end{lstlisting}\n");
            false
        } else {
            out.append("\\begin{lstlisting}[language=");
            append_chars(out, t, 3, t.len());
            out.append("]\n");
            true
        }
    } else if in_code {
        append_chars(out, l, 0, l.len());
        assert(l@.subrange(0, l@.len() as int) == l@);
        out.append("\n");
        true
    } else {
        push_latex_block(out, l, t);
        false
    }
}

fn push_latex_packages(out: &mut String, margins: &Option<PageMargins>)
    ensures
        final(out)@ == old(out)@ + latex_packages(*margins),
{
    out.append("\\documentclass[12pt]{article}\n");
    out.append("\\usepackage[utf8]{inputenc}\n");
    out.append("\\usepackage{graphicx}\n");
    out.append("\\usepackage{hyperref}\n");
    out.append("\\usepackage{listings}\n");
    match margins {
        Some(m) => {
            out.append("\\usepackage[top=");
            out.append(m.top.as_str());
            out.append("cm,bottom=");
            out.append(m.bottom.as_str());
            out.append("cm,left=");
            out.append(m.left.as_str());
            out.append("cm,right=");
            out.append(m.right.as_str());
            out.append("cm]{geometry}\n");
        },
        None => {},
    }
    out.append("\n");
    assert(out@ =~= old(out)@ + latex_packages(*margins));
}

fn push_latex_titles(out: &mut String, title: &Option<String>, author: &Option<String>)
    ensures
        final(out)@ == old(out)@ + latex_titles(*title, *author),
{
    match title {
        Some(t) => {
            out.append("\\title{");
            let e = latex_escape(t.as_str());
            out.append(e.as_str());
            out.append("}\n");
        },
        None => {},
    }
    let ghost mid = out@;
    match author {
        Some(au) => {
            out.append("\\author{");
            let e = latex_escape(au.as_str());
            out.append(e.as_str());
            out.append("}\n");
        },
        None => {},
    }
    assert(out@ =~= old(out)@ + latex_titles(*title, *author));
}

fn push_latex_preamble(out: &mut String, options: &ExportOptions)
    ensures
        final(out)@ == old(out)@ + latex_preamble(*options),
{
    push_latex_packages(out, &options.margins);
    push_latex_titles(out, &options.title, &options.author);
    let ghost mid = out@;
    out.append("\n\\begin{document}\n\n");
    if options.title.is_some() {
        out.append("\\maketitle\n\n");
    }
    if options.include_toc {
        out.append("\\tableofcontents\n\\newpage\n\n");
    }
    assert(out@ =~= mid + latex_opening(options.title is Some, options.include_toc));
    assert(out@ =~= old(out)@ + latex_preamble(*options));
}

/// Exports a Typst source as a LaTeX article: preamble from the options,
/// headings as sections, lists, quotes and code listings, directives dropped
/// and the text escaped.
pub fn export_to_latex(source: &str, options: &ExportOptions) -> (r: ExportResult)
    ensures
        rendered(r, ExportFormat::Latex, typst_latex(source@, *options)),
{
    let mut latex = String::new();
    push_latex_preamble(&mut latex, options);
    let ghost head = latex@;
    let chars = chars_of(source);
    let ls = lines_of(chars.as_slice());
    let ghost lv = ls@.map_values(|l: Vec<char>| l@);
    let mut in_code = false;
    let mut body = String::new();
    let mut i: usize = 0;
    while i < ls.len()
        invariant
            i <= ls.len(),
            lv == ls@.map_values(|l: Vec<char>| l@),
            (body@, in_code) == latex_lines(lv.take(i as int)),
        decreases ls.len() - i,
    {
        proof {
            assert(lv.take(i + 1).drop_last() == lv.take(i as int));
            assert(lv.take(i + 1).last() == ls@[i as int]@);
        }
        in_code = push_latex_line(&mut body, ls[i].as_slice(), in_code);
        i = i + 1;
    }
    assert(lv.take(ls.len() as int) == lv);
    latex.append(body.as_str());
    latex.append("\\end{document}\n");
    assert(latex@ =~= typst_latex(source@, *options));
    ExportResult {
        success: true,
        format: ExportFormat::Latex,
        output_path: None,
        content: Some(latex),
        binary_data: None,
        error: None,
    }
}

} // verus!

verus! {

// ---- Typst to plain text ----------------------------------------------------

/// `s` with every leading repetition of `p` removed (`str::trim_start_matches`).
pub open spec fn strip_repeated(s: Seq<char>, p: Seq<char>) -> Seq<char>
    decreases s.len(),
{
    if p.len() > 0 && starts_with(s, p) {
        strip_repeated(s.skip(p.len() as int), p)
    } else {
        s
    }
}

/// The inline markup characters that plain text drops.
pub open spec fn is_mark(c: char) -> bool {
    c == '*' || c == '_' || c == '`'
}

/// `s` without its markup characters.
pub open spec fn without_marks(s: Seq<char>) -> Seq<char>
    decreases s.len(),
{
    if s.len() == 0 {
        seq![]
    } else {
        let prev = without_marks(s.drop_last());
        if is_mark(s.last()) {
            prev
        } else {
            prev.push(s.last())
        }
    }
}

/// A trimmed line with its heading, list and quote markers removed.
pub open spec fn unmarked(t: Seq<char>) -> Seq<char> {
    strip_repeated(
        strip_repeated(
            strip_repeated(
                strip_repeated(
                    strip_repeated(
                        strip_repeated(strip_repeated(t, "= "@), "== "@),
                        "=== "@,
                    ),
                    "==== "@,
                ),
                "- "@,
            ),
            "+ "@,
        ),
        "> "@,
    )
}

/// The plain text of one source line (directives give nothing).
pub open spec fn plain_line(l: Seq<char>) -> Seq<char> {
    let t = trim(l);
    if is_directive(t) {
        seq![]
    } else {
        without_marks(unmarked(t)) + "\n"@
    }
}

pub open spec fn plain_lines(ls: Seq<Seq<char>>) -> Seq<char>
    decreases ls.len(),
{
    if ls.len() == 0 {
        seq![]
    } else {
        plain_lines(ls.drop_last()) + plain_line(ls.last())
    }
}

fn strip_prefix_repeated(v: Vec<char>, p: &str) -> (r: Vec<char>)
    requires
        p@.len() > 0,
    ensures
        r@ == strip_repeated(v@, p@),
{
    let pv = chars_of(p);
    let n = pv.len();
    let mut start: usize = 0;
    assert(v@.skip(0) == v@);
    while crate::text::matches_at(v.as_slice(), pv.as_slice(), start)
        invariant
            start <= v.len(),
            n == p@.len() > 0,
            pv@ == p@,
            strip_repeated(v@.skip(start as int), p@) == strip_repeated(v@, p@),
        decreases v.len() - start,
    {
        proof {
            assert(v@.skip(start as int).skip(n as int) == v@.skip(start + n));
            assert(starts_with(v@.skip(start as int), p@)) by {
                assert(v@.skip(start as int).subrange(0, n as int) == v@.subrange(
                    start as int,
                    start + n,
                ));
            }
        }
        start = start + n;
    }
    proof {
        assert(!starts_with(v@.skip(start as int), p@)) by {
            if start + n <= v.len() {
                assert(v@.skip(start as int).subrange(0, n as int) == v@.subrange(
                    start as int,
                    start + n,
                ));
            }
        }
    }
    skip_chars(v.as_slice(), start)
}

fn push_without_marks(out: &mut String, v: &[char])
    ensures
        final(out)@ == old(out)@ + without_marks(v@),
{
    let mut i: usize = 0;
    while i < v.len()
        invariant
            i <= v.len(),
            out@ == old(out)@ + without_marks(v@.take(i as int)),
        decreases v.len() - i,
    {
        proof {
            assert(v@.take(i + 1).drop_last() == v@.take(i as int));
        }
        let c = v[i];
        if !(c == '*' || c == '_' || c == '`') {
            push_char(out, c);
        }
        i = i + 1;
    }
    assert(v@.take(v.len() as int) == v@);
}

fn push_plain_line(out: &mut String, l: &[char])
    ensures
        final(out)@ == old(out)@ + plain_line(l@),
{
    proof {
        reveal_strlit("= ");
        reveal_strlit("== ");
        reveal_strlit("=== ");
        reveal_strlit("==== ");
        reveal_strlit("- ");
        reveal_strlit("+ ");
        reveal_strlit("> ");
    }
    let t = trim_chars(l);
    if directive(t.as_slice()) {
        assert(old(out)@ + plain_line(l@) == old(out)@);
        return ;
    }
    let a = strip_prefix_repeated(t, "= ");
    let a = strip_prefix_repeated(a, "== ");
    let a = strip_prefix_repeated(a, "=== ");
    let a = strip_prefix_repeated(a, "==== ");
    let a = strip_prefix_repeated(a, "- ");
    let a = strip_prefix_repeated(a, "+ ");
    let a = strip_prefix_repeated(a, "> ");
    push_without_marks(out, a.as_slice());
    out.append("\n");
}

/// Exports a Typst source as plain text: directives dropped, heading, list
/// and quote markers and inline markup characters removed.
pub fn export_to_plain_text(source: &str, options: &ExportOptions) -> (r: ExportResult)
    ensures
        rendered(r, ExportFormat::PlainText, plain_lines(lines(source@))),
{
    let chars = chars_of(source);
    let ls = lines_of(chars.as_slice());
    let ghost lv = ls@.map_values(|l: Vec<char>| l@);
    let mut text = String::new();
    let mut i: usize = 0;
    while i < ls.len()
        invariant
            i <= ls.len(),
            lv == ls@.map_values(|l: Vec<char>| l@),
            text@ == plain_lines(lv.take(i as int)),
        decreases ls.len() - i,
    {
        proof {
            assert(lv.take(i + 1).drop_last() == lv.take(i as int));
            assert(lv.take(i + 1).last() == ls@[i as int]@);
        }
        push_plain_line(&mut text, ls[i].as_slice());
        i = i + 1;
    }
    assert(lv.take(ls.len() as int) == lv);
    ExportResult {
        success: true,
        format: ExportFormat::PlainText,
        output_path: None,
        content: Some(text),
        binary_data: None,
        error: None,
    }
}

} // verus!

verus! {

// ---- Dispatch, files and formats ------------------------------------------

/// A failed export with the given message.
pub open spec fn failed(r: ExportResult, format: ExportFormat, message: Seq<char>) -> bool {
    &&& !r.success
    &&& r.format == format
    &&& r.output_path is None
    &&& r.content is None
    &&& r.binary_data is None
    &&& r.error matches Some(e) && e@ == message
}

/// What rendering a source in a format gives: the converter's text, or the
/// error for a format that is not rendered here.
pub open spec fn rendering(r: ExportResult, source: Seq<char>, config: ExportConfig) -> bool {
    match config.format {
        ExportFormat::Html => rendered(
            r,
            ExportFormat::Html,
            html_page(
                text_or(config.options.title, "Document"@),
                text_or(config.options.custom_css, seq![]),
                typst_html(source),
            ),
        ),
        ExportFormat::Markdown => rendered(
            r,
            ExportFormat::Markdown,
            typst_markdown(source, config.options),
        ),
        ExportFormat::Latex => rendered(r, ExportFormat::Latex, typst_latex(source, config.options)),
        ExportFormat::PlainText => rendered(r, ExportFormat::PlainText, plain_lines(lines(source))),
        ExportFormat::Pdf => failed(
            r,
            ExportFormat::Pdf,
            "Use compile_typst_source for PDF export"@,
        ),
        ExportFormat::Docx => failed(r, ExportFormat::Docx, "Docx export not yet implemented"@),
        ExportFormat::Epub => failed(r, ExportFormat::Epub, "Epub export not yet implemented"@),
    }
}

fn failure(format: ExportFormat, message: &str) -> (r: ExportResult)
    ensures
        failed(r, format, message@),
{
    ExportResult {
        success: false,
        format,
        output_path: None,
        content: None,
        binary_data: None,
        error: Some(String::from_str(message)),
    }
}

/// Renders a source in the configured format (PDF is compiled elsewhere;
/// DOCX and EPUB are not supported).
pub fn render_document(source: &str, config: &ExportConfig) -> (r: ExportResult)
    ensures
        rendering(r, source@, *config),
{
    match config.format {
        ExportFormat::Html => export_to_html(source, &config.options),
        ExportFormat::Markdown => export_to_markdown(source, &config.options),
        ExportFormat::Latex => export_to_latex(source, &config.options),
        ExportFormat::PlainText => export_to_plain_text(source, &config.options),
        ExportFormat::Pdf => failure(ExportFormat::Pdf, "Use compile_typst_source for PDF export"),
        ExportFormat::Docx => failure(ExportFormat::Docx, "Docx export not yet implemented"),
        ExportFormat::Epub => failure(ExportFormat::Epub, "Epub export not yet implemented"),
    }
}

/// The file to write after rendering: the configured path and the rendered
/// text, when there are both.
pub fn pending_write(config: &ExportConfig, result: &ExportResult) -> (w: Option<(String, String)>)
    ensures
        match w {
            Some((path, content)) => config.output_path == Some(path) && result.content == Some(
                content,
            ),
            None => config.output_path is None || result.content is None,
        },
{
    match (&config.output_path, &result.content) {
        (Some(path), Some(content)) => Some((path.clone(), content.clone())),
        _ => None,
    }
}

/// The result once the rendered text has been written to `path`, given the
/// write error if there was one.
pub fn finish_export(format: ExportFormat, path: String, content: String, write_error: Option<String>) -> (r: ExportResult)
    ensures
        match write_error {
            Some(e) => failed(r, format, "Failed to write file: "@ + e@),
            None => {
                &&& r.success
                &&& r.format == format
                &&& r.output_path == Some(path)
                &&& r.content == Some(content)
                &&& r.binary_data is None
                &&& r.error is None
            },
        },
{
    match write_error {
        Some(e) => {
            let mut message = String::from_str("Failed to write file: ");
            message.append(e.as_str());
            ExportResult {
                success: false,
                format,
                output_path: None,
                content: None,
                binary_data: None,
                error: Some(message),
            }
        },
        None => ExportResult {
            success: true,
            format,
            output_path: Some(path),
            content: Some(content),
            binary_data: None,
            error: None,
        },
    }
}

/// The export format a (lower-cased) name stands for.
pub open spec fn format_named(name: Seq<char>) -> Option<ExportFormat> {
    if name == "pdf"@ {
        Some(ExportFormat::Pdf)
    } else if name == "html"@ {
        Some(ExportFormat::Html)
    } else if name == "markdown"@ || name == "md"@ {
        Some(ExportFormat::Markdown)
    } else if name == "latex"@ || name == "tex"@ {
        Some(ExportFormat::Latex)
    } else if name == "docx"@ || name == "word"@ {
        Some(ExportFormat::Docx)
    } else if name == "epub"@ {
        Some(ExportFormat::Epub)
    } else if name == "text"@ || name == "txt"@ || name == "plain"@ {
        Some(ExportFormat::PlainText)
    } else {
        None
    }
}

/// Reads an export format name, ignoring case.
pub fn parse_export_format(format: &str) -> (r: Result<ExportFormat, String>)
    ensures
        match format_named(spec_lowercase(format@)) {
            Some(f) => r == Ok::<ExportFormat, String>(f),
            None => r matches Err(e) && e@ == "Unknown export format: "@ + format@,
        },
{
    let lower = to_lowercase(format);
    let l = lower.as_str();
    if eq_str(l, "pdf") {
        Ok(ExportFormat::Pdf)
    } else if eq_str(l, "html") {
        Ok(ExportFormat::Html)
    } else if eq_str(l, "markdown") || eq_str(l, "md") {
        Ok(ExportFormat::Markdown)
    } else if eq_str(l, "latex") || eq_str(l, "tex") {
        Ok(ExportFormat::Latex)
    } else if eq_str(l, "docx") || eq_str(l, "word") {
        Ok(ExportFormat::Docx)
    } else if eq_str(l, "epub") {
        Ok(ExportFormat::Epub)
    } else if eq_str(l, "text") || eq_str(l, "txt") || eq_str(l, "plain") {
        Ok(ExportFormat::PlainText)
    } else {
        let mut message = String::from_str("Unknown export format: ");
        message.append(format);
        Err(message)
    }
}

/// The file extension batch export gives a (lower-cased) format name, if the
/// format is one it writes.
pub open spec fn batch_extension(name: Seq<char>) -> Option<Seq<char>> {
    if name == "pdf"@ {
        Some(".pdf"@)
    } else if name == "html"@ {
        Some(".html"@)
    } else if name == "markdown"@ || name == "md"@ {
        Some(".md"@)
    } else if name == "latex"@ || name == "tex"@ {
        Some(".tex"@)
    } else if name == "text"@ || name == "txt"@ || name == "plain"@ {
        Some(".txt"@)
    } else {
        None
    }
}

/// The extension a batch export uses for a format name, ignoring case.
pub fn extension_for(format: &str) -> (r: Option<&'static str>)
    ensures
        match batch_extension(spec_lowercase(format@)) {
            Some(e) => r matches Some(x) && x@ == e,
            None => r is None,
        },
{
    let lower = to_lowercase(format);
    let l = lower.as_str();
    if eq_str(l, "pdf") {
        Some(".pdf")
    } else if eq_str(l, "html") {
        Some(".html")
    } else if eq_str(l, "markdown") || eq_str(l, "md") {
        Some(".md")
    } else if eq_str(l, "latex") || eq_str(l, "tex") {
        Some(".tex")
    } else if eq_str(l, "text") || eq_str(l, "txt") || eq_str(l, "plain") {
        Some(".txt")
    } else {
        None
    }
}

} // verus!

verus! {

// ---- Batches and the list of formats ----------------------------------------

/// The files a batch export writes: for each format name that has an
/// extension, in order, the name and `base_name` followed by the extension.
pub open spec fn batch_targets_of(formats: Seq<Seq<char>>, base_name: Seq<char>) -> Seq<
    (Seq<char>, Seq<char>),
>
    decreases formats.len(),
{
    if formats.len() == 0 {
        seq![]
    } else {
        let prev = batch_targets_of(formats.drop_last(), base_name);
        match batch_extension(spec_lowercase(formats.last())) {
            Some(e) => prev.push((formats.last(), base_name + e)),
            None => prev,
        }
    }
}

/// The format names of a batch export that are written, each with the name
/// of its file (`base_name` and the format's extension); other names are
/// skipped.
pub fn batch_targets(formats: &Vec<String>, base_name: &str) -> (r: Vec<(String, String)>)
    ensures
        r.deep_view() == batch_targets_of(formats.deep_view(), base_name@),
{
    let ghost fs = formats.deep_view();
    let mut r: Vec<(String, String)> = Vec::new();
    let mut i: usize = 0;
    while i < formats.len()
        invariant
            i <= formats.len(),
            fs == formats.deep_view(),
            r.deep_view() == batch_targets_of(fs.take(i as int), base_name@),
        decreases formats.len() - i,
    {
        proof {
            assert(fs.take(i + 1).drop_last() == fs.take(i as int));
            assert(fs.take(i + 1).last() == formats@[i as int]@);
        }
        match extension_for(formats[i].as_str()) {
            Some(ext) => {
                let mut file = String::from_str(base_name);
                file.append(ext);
                let ghost before = r.deep_view();
                let entry = (formats[i].clone(), file);
                r.push(entry);
                assert(r.deep_view() =~= before.push((formats@[i as int]@, base_name@ + ext@)));
            },
            None => {},
        }
        i = i + 1;
    }
    assert(fs.take(formats.len() as int) == fs);
    r
}

/// A format offered for export, as the format list describes it.
pub struct ExportFormatInfo {
    pub id: String,
    pub name: String,
    pub description: String,
    pub extension: String,
    pub binary: bool,
    pub available: Option<bool>,
}

/// The mathematical content of an [`ExportFormatInfo`].
pub struct FormatInfoView {
    pub id: Seq<char>,
    pub name: Seq<char>,
    pub description: Seq<char>,
    pub extension: Seq<char>,
    pub binary: bool,
    pub available: Option<bool>,
}

impl View for ExportFormatInfo {
    type V = FormatInfoView;

    open spec fn view(&self) -> FormatInfoView {
        FormatInfoView {
            id: self.id@,
            name: self.name@,
            description: self.description@,
            extension: self.extension@,
            binary: self.binary,
            available: self.available,
        }
    }
}

/// The formats offered, in the order they are listed.
pub open spec fn format_infos() -> Seq<FormatInfoView> {
    seq![
        FormatInfoView { id: "pdf"@, name: "PDF"@, description: "Portable Document Format - best for printing and sharing"@, extension: ".pdf"@, binary: true, available: None },
        FormatInfoView { id: "html"@, name: "HTML"@, description: "Web page format - viewable in any browser"@, extension: ".html"@, binary: false, available: None },
        FormatInfoView { id: "markdown"@, name: "Markdown"@, description: "Plain text with formatting - great for documentation"@, extension: ".md"@, binary: false, available: None },
        FormatInfoView { id: "latex"@, name: "LaTeX"@, description: "LaTeX source - for academic and scientific documents"@, extension: ".tex"@, binary: false, available: None },
        FormatInfoView { id: "text"@, name: "Plain Text"@, description: "Plain text without formatting"@, extension: ".txt"@, binary: false, available: None },
        FormatInfoView { id: "docx"@, name: "Word (DOCX)"@, description: "Microsoft Word format - coming soon"@, extension: ".docx"@, binary: true, available: Some(false) },
        FormatInfoView { id: "epub"@, name: "EPUB"@, description: "E-book format - coming soon"@, extension: ".epub"@, binary: true, available: Some(false) },
    ]
}

fn format_info(
    id: &str,
    name: &str,
    description: &str,
    extension: &str,
    binary: bool,
    available: Option<bool>,
) -> (r: ExportFormatInfo)
    ensures
        r@ == (FormatInfoView {
            id: id@,
            name: name@,
            description: description@,
            extension: extension@,
            binary,
            available,
        }),
{
    ExportFormatInfo {
        id: String::from_str(id),
        name: String::from_str(name),
        description: String::from_str(description),
        extension: String::from_str(extension),
        binary,
        available,
    }
}

/// The export formats offered, with their descriptions and extensions (DOCX
/// and EPUB marked as not yet available).
pub fn export_format_infos() -> (r: Vec<ExportFormatInfo>)
    ensures
        r@.map_values(|f: ExportFormatInfo| f@) == format_infos(),
{
    let mut v: Vec<ExportFormatInfo> = Vec::new();
    v.push(format_info("pdf", "PDF", "Portable Document Format - best for printing and sharing", ".pdf", true, None));
    v.push(format_info("html", "HTML", "Web page format - viewable in any browser", ".html", false, None));
    v.push(format_info("markdown", "Markdown", "Plain text with formatting - great for documentation", ".md", false, None));
    v.push(format_info("latex", "LaTeX", "LaTeX source - for academic and scientific documents", ".tex", false, None));
    v.push(format_info("text", "Plain Text", "Plain text without formatting", ".txt", false, None));
    v.push(format_info("docx", "Word (DOCX)", "Microsoft Word format - coming soon", ".docx", true, Some(false)));
    v.push(format_info("epub", "EPUB", "E-book format - coming soon", ".epub", true, Some(false)));
    assert(v@.map_values(|f: ExportFormatInfo| f@) =~= format_infos());
    v
}

} // verus!

verus! {

// ---- Laws -------------------------------------------------------------------

proof fn lemma_without_marks_clean(s: Seq<char>)
    ensures
        forall|i: int| 0 <= i < without_marks(s).len() ==> !is_mark(#[trigger] without_marks(s)[i]),
    decreases s.len(),
{
    if s.len() > 0 {
        lemma_without_marks_clean(s.drop_last());
        let prev = without_marks(s.drop_last());
        if !is_mark(s.last()) {
            assert forall|i: int| 0 <= i < prev.push(s.last()).len() implies !is_mark(
                #[trigger] prev.push(s.last())[i],
            ) by {
                if i < prev.len() {
                    assert(prev.push(s.last())[i] == prev[i]);
                }
            }
        }
    }
}

/// Law: plain text exported from any source holds no `*`, `_` or `` ` ``.
pub proof fn lemma_plain_text_unmarked(source: Seq<char>)
    ensures
        forall|i: int|
            0 <= i < plain_lines(lines(source)).len() ==> !is_mark(
                #[trigger] plain_lines(lines(source))[i],
            ),
{
    lemma_plain_lines_unmarked(lines(source));
}

proof fn lemma_plain_lines_unmarked(ls: Seq<Seq<char>>)
    ensures
        forall|i: int| 0 <= i < plain_lines(ls).len() ==> !is_mark(#[trigger] plain_lines(ls)[i]),
    decreases ls.len(),
{
    if ls.len() > 0 {
        lemma_plain_lines_unmarked(ls.drop_last());
        let prev = plain_lines(ls.drop_last());
        let l = ls.last();
        let t = trim(l);
        if !is_directive(t) {
            lemma_without_marks_clean(unmarked(t));
            let piece = without_marks(unmarked(t)) + "\n"@;
            assert forall|i: int| 0 <= i < (prev + piece).len() implies !is_mark(
                #[trigger] (prev + piece)[i],
            ) by {
                reveal_strlit("\n");
                if i < prev.len() {
                    assert((prev + piece)[i] == prev[i]);
                } else {
                    assert((prev + piece)[i] == piece[i - prev.len()]);
                }
            }
        }
    }
}

} // verus!

verus! {

/// Law: outside a code block, a line is converted by its (trimmed) start:
/// `= `, `== `, `=== ` and `==== ` give headings of levels one to four, `- `
/// and `+ ` (bulleted and numbered items) give list items, `> ` a quote,
/// each holding the escaped rest of the line; an empty line gives a break;
/// a line starting with `#` (a directive) or `//` (a comment) gives
/// nothing; any other non-empty line is a paragraph of its inline-formatted
/// text; and only a line starting with three backticks opens a code block.
pub proof fn lemma_html_line_kinds(l: Seq<char>)
    ensures
        ({
            let t = trim(l);
            let (out, open) = html_line(l, false);
            &&& open == starts_with(t, "```"@)
            &&& starts_with(t, "= "@) ==> out == "<h1>"@ + html_escaped(t.skip(2)) + "</h1>\n"@
            &&& starts_with(t, "== "@) ==> out == "<h2>"@ + html_escaped(t.skip(3)) + "</h2>\n"@
            &&& starts_with(t, "=== "@) ==> out == "<h3>"@ + html_escaped(t.skip(4)) + "</h3>\n"@
            &&& starts_with(t, "==== "@) ==> out == "<h4>"@ + html_escaped(t.skip(5))
                + "</h4>\n"@
            &&& starts_with(t, "- "@) ==> out == "<li>"@ + html_escaped(t.skip(2)) + "</li>\n"@
            &&& starts_with(t, "+ "@) ==> out == "<li>"@ + html_escaped(t.skip(2)) + "</li>\n"@
            &&& starts_with(t, "> "@) ==> out == "<blockquote>"@ + html_escaped(t.skip(2))
                + "</blockquote>\n"@
            &&& t.len() == 0 ==> out == "<br>\n"@
            &&& (starts_with(t, "#"@) || starts_with(t, "//"@)) ==> out == Seq::<char>::empty()
            &&& t.len() > 0 && !starts_with(t, "#"@) && !starts_with(t, "//"@) && !starts_with(
                t,
                "```"@,
            ) && !starts_with(t, "="@) && !starts_with(t, "- "@) && !starts_with(t, "+ "@)
                && !starts_with(t, "> "@) ==> out == "<p>"@ + inline_html(t) + "</p>\n"@
        }),
{
    reveal_strlit("= ");
    reveal_strlit("== ");
    reveal_strlit("=== ");
    reveal_strlit("==== ");
    reveal_strlit("- ");
    reveal_strlit("+ ");
    reveal_strlit("> ");
    reveal_strlit("```");
    let t = trim(l);
    lemma_starts_char(t, "```"@);
    lemma_starts_char(t, "= "@);
    lemma_starts_char(t, "== "@);
    lemma_starts_char(t, "=== "@);
    lemma_starts_char(t, "==== "@);
    lemma_starts_char(t, "- "@);
    lemma_starts_char(t, "+ "@);
    lemma_starts_char(t, "> "@);
    lemma_starts_char(t, "#"@);
    lemma_starts_char(t, "//"@);
    lemma_starts_char(t, "="@);
    reveal_strlit("#");
    reveal_strlit("//");
    reveal_strlit("=");
    assert(starts_with(t, "```"@) ==> t[0] == '`' && t[1] == '`' && t[2] == '`');
    assert(starts_with(t, "= "@) ==> t[0] == '=' && t[1] == ' ');
    assert(starts_with(t, "== "@) ==> t[0] == '=' && t[1] == '=' && t[2] == ' ');
    assert(starts_with(t, "=== "@) ==> t[0] == '=' && t[1] == '=' && t[2] == '=' && t[3] == ' ');
    assert(starts_with(t, "==== "@) ==> t[0] == '=' && t[1] == '=' && t[2] == '=' && t[3] == '=' && t[4] == ' ');
    assert(starts_with(t, "- "@) ==> t[0] == '-' && t[1] == ' ');
    assert(starts_with(t, "+ "@) ==> t[0] == '+' && t[1] == ' ');
    assert(starts_with(t, "> "@) ==> t[0] == '>' && t[1] == ' ');
    assert(starts_with(t, "#"@) ==> t[0] == '#');
    assert(starts_with(t, "//"@) ==> t[0] == '/' && t[1] == '/');
    assert(starts_with(t, "="@) ==> t[0] == '=');
    assert(t.len() > 0 && t[0] == '=' ==> starts_with(t, "="@)) by {
        reveal_strlit("=");
        if t.len() > 0 && t[0] == '=' {
            assert(t.subrange(0, 1) =~= "="@);
        }
    }
    let out = html_line(l, false).0;
    assert(starts_with(t, "= "@) ==> out == "<h1>"@ + html_escaped(t.skip(2)) + "</h1>\n"@);
    assert(starts_with(t, "== "@) ==> out == "<h2>"@ + html_escaped(t.skip(3)) + "</h2>\n"@);
    assert(starts_with(t, "=== "@) ==> out == "<h3>"@ + html_escaped(t.skip(4)) + "</h3>\n"@);
    assert(starts_with(t, "==== "@) ==> out == "<h4>"@ + html_escaped(t.skip(5)) + "</h4>\n"@);
    assert(starts_with(t, "- "@) ==> out == "<li>"@ + html_escaped(t.skip(2)) + "</li>\n"@);
    assert(starts_with(t, "+ "@) ==> out == "<li>"@ + html_escaped(t.skip(2)) + "</li>\n"@);
    assert(starts_with(t, "> "@) ==> out == "<blockquote>"@ + html_escaped(t.skip(2))
        + "</blockquote>\n"@);
    assert(t.len() == 0 ==> out == "<br>\n"@);
}

/// A text that starts with `p` has `p`'s characters at its front.
proof fn lemma_starts_char(s: Seq<char>, p: Seq<char>)
    ensures
        starts_with(s, p) ==> forall|i: int| 0 <= i < p.len() ==> #[trigger] s[i] == p[i],
{
    if starts_with(s, p) {
        assert forall|i: int| 0 <= i < p.len() implies #[trigger] s[i] == p[i] by {
            assert(s.subrange(0, p.len() as int)[i] == s[i]);
        }
    }
}

} // verus!

verus! {

proof fn lemma_prefix_chars(t: Seq<char>)
    ensures
        starts_with(t, "```"@) ==> t[0] == '`' && t[1] == '`' && t[2] == '`',
        starts_with(t, "= "@) ==> t[0] == '=' && t[1] == ' ',
        starts_with(t, "== "@) ==> t[0] == '=' && t[1] == '=' && t[2] == ' ',
        starts_with(t, "=== "@) ==> t[0] == '=' && t[1] == '=' && t[2] == '=' && t[3] == ' ',
        starts_with(t, "==== "@) ==> t[0] == '=' && t[1] == '=' && t[2] == '=' && t[3] == '='
            && t[4] == ' ',
        starts_with(t, "- "@) ==> t[0] == '-' && t[1] == ' ',
        starts_with(t, "+ "@) ==> t[0] == '+' && t[1] == ' ',
        starts_with(t, "> "@) ==> t[0] == '>' && t[1] == ' ',
        starts_with(t, "#set"@) ==> t[0] == '#' && t[1] == 's',
        starts_with(t, "#show"@) ==> t[0] == '#' && t[1] == 's',
        starts_with(t, "#import"@) ==> t[0] == '#' && t[1] == 'i',
{
    reveal_strlit("```");
    reveal_strlit("= ");
    reveal_strlit("== ");
    reveal_strlit("=== ");
    reveal_strlit("==== ");
    reveal_strlit("- ");
    reveal_strlit("+ ");
    reveal_strlit("> ");
    reveal_strlit("#set");
    reveal_strlit("#show");
    reveal_strlit("#import");
    lemma_starts_char(t, "```"@);
    lemma_starts_char(t, "= "@);
    lemma_starts_char(t, "== "@);
    lemma_starts_char(t, "=== "@);
    lemma_starts_char(t, "==== "@);
    lemma_starts_char(t, "- "@);
    lemma_starts_char(t, "+ "@);
    lemma_starts_char(t, "> "@);
    lemma_starts_char(t, "#set"@);
    lemma_starts_char(t, "#show"@);
    lemma_starts_char(t, "#import"@);
    assert(t.len() > 4 ==> t[0] == t[0] && t[1] == t[1] && t[2] == t[2] && t[3] == t[3] && t[4]
        == t[4]);
    assert(t.len() > 3 ==> t[0] == t[0] && t[1] == t[1] && t[2] == t[2] && t[3] == t[3]);
    assert(t.len() > 2 ==> t[0] == t[0] && t[1] == t[1] && t[2] == t[2]);
    assert(t.len() > 1 ==> t[0] == t[0] && t[1] == t[1]);
}

/// Law: a Markdown line is converted by its (trimmed) start: `= ` to `==== `
/// headings become `#` to `####` headings holding the rest of the line;
/// list items, quotes and code fences are kept as written; `#set`, `#show`
/// and `#import` directives are dropped.
pub proof fn lemma_markdown_line_kinds(l: Seq<char>)
    ensures
        ({
            let t = trim(l);
            let out = markdown_line(l);
            &&& starts_with(t, "= "@) ==> out == "# "@ + t.skip(2) + "\n"@
            &&& starts_with(t, "== "@) ==> out == "## "@ + t.skip(3) + "\n"@
            &&& starts_with(t, "=== "@) ==> out == "### "@ + t.skip(4) + "\n"@
            &&& starts_with(t, "==== "@) ==> out == "#### "@ + t.skip(5) + "\n"@
            &&& (starts_with(t, "- "@) || starts_with(t, "+ "@) || starts_with(t, "> "@)
                || starts_with(t, "```"@)) ==> out == l + "\n"@
            &&& (starts_with(t, "#set"@) || starts_with(t, "#show"@) || starts_with(
                t,
                "#import"@,
            )) ==> out == Seq::<char>::empty()
        }),
{
    lemma_prefix_chars(trim(l));
}

/// Law: outside a listing, a LaTeX line is converted by its (trimmed) start:
/// `= `, `== ` and `=== ` headings become sections, subsections and
/// subsubsections, `- ` items become `\item`s and `> ` quotes quote
/// environments, each holding the escaped rest of the line; directives are
/// dropped, an empty line stays empty, and only a code fence opens a listing.
pub proof fn lemma_latex_line_kinds(l: Seq<char>)
    ensures
        ({
            let t = trim(l);
            let (out, open) = latex_line(l, false);
            &&& open == starts_with(t, "```"@)
            &&& starts_with(t, "= "@) ==> out == "\\section{"@ + latex_escaped(t.skip(2)) + "}\n"@
            &&& starts_with(t, "== "@) ==> out == "\\subsection{"@ + latex_escaped(t.skip(3))
                + "}\n"@
            &&& starts_with(t, "=== "@) ==> out == "\\subsubsection{"@ + latex_escaped(t.skip(4))
                + "}\n"@
            &&& starts_with(t, "- "@) ==> out == "\\item "@ + latex_escaped(t.skip(2)) + "\n"@
            &&& starts_with(t, "> "@) ==> out == "\\begin{quote}\n"@ + latex_escaped(t.skip(2))
                + "\n\\end{quote}\n"@
            &&& (starts_with(t, "#set"@) || starts_with(t, "#show"@) || starts_with(
                t,
                "#import"@,
            )) ==> out == Seq::<char>::empty()
            &&& t.len() == 0 ==> out == "\n"@
        }),
{
    reveal_strlit("```");
    reveal_strlit("= ");
    reveal_strlit("== ");
    reveal_strlit("=== ");
    reveal_strlit("- ");
    reveal_strlit("> ");
    reveal_strlit("#set");
    reveal_strlit("#show");
    reveal_strlit("#import");
    lemma_prefix_chars(trim(l));
}

} // verus!

verus! {

/// Text without brackets or `#`: nothing in it is Typst inline markup.
pub open spec fn markup_free(s: Seq<char>) -> bool {
    forall|i: int| 0 <= i < s.len() ==> #[trigger] s[i] != '[' && s[i] != ']' && s[i] != '#'
}

proof fn lemma_inline_copies_free(a: Seq<char>, b: Seq<char>, open: Seq<u8>)
    requires
        markup_free(a),
    ensures
        markdown_inline_from(a + b, open) == a + markdown_inline_from(b, open),
    decreases a.len(),
{
    if a.len() == 0 {
        assert(a + b =~= b);
        assert(a + markdown_inline_from(b, open) =~= markdown_inline_from(b, open));
    } else {
        let s = a + b;
        assert(s[0] == a[0]);
        lemma_starts_char(s, strong_open());
        lemma_starts_char(s, emph_open());
        assert(s.len() > 0);
        assert(s.skip(1) =~= a.skip(1) + b);
        assert(markup_free(a.skip(1))) by {
            assert forall|i: int| 0 <= i < a.skip(1).len() implies #[trigger] a.skip(1)[i] != '['
                && a.skip(1)[i] != ']' && a.skip(1)[i] != '#' by {
                assert(a.skip(1)[i] == a[i + 1]);
            }
        }
        lemma_inline_copies_free(a.skip(1), b, open);
        assert(seq![a[0]] + (a.skip(1) + markdown_inline_from(b, open)) =~= a
            + markdown_inline_from(b, open));
    }
}

/// Law: Markdown export leaves text without inline markup as it is, and turns
/// `#strong[x]` into `**x**` and `#emph[x]` into `*x*` wherever they stand
/// in such text.
pub proof fn lemma_markdown_inline_marks(pre: Seq<char>, x: Seq<char>, post: Seq<char>)
    requires
        markup_free(pre),
        markup_free(x),
        markup_free(post),
    ensures
        markdown_inline(pre) == pre,
        markdown_inline(pre + "#strong["@ + x + "]"@ + post) == pre + "**"@ + x + "**"@ + post,
        markdown_inline(pre + "#emph["@ + x + "]"@ + post) == pre + "*"@ + x + "*"@ + post,
{
    reveal_strlit("#strong[");
    reveal_strlit("#emph[");
    reveal_strlit("]");
    reveal_strlit("**");
    reveal_strlit("*");
    let e = Seq::<char>::empty();
    lemma_inline_copies_free(pre, e, seq![]);
    assert(pre + e =~= pre);
    assert(markdown_inline_from(e, seq![]) =~= e);
    assert(pre + e == pre);
    lemma_inline_copies_free(post, e, seq![]);
    assert(post + e =~= post);
    // strong emphasis
    let rest = "]"@ + post;
    let inner = x + rest;
    let s1 = "#strong["@ + inner;
    assert(pre + "#strong["@ + x + "]"@ + post =~= pre + s1);
    lemma_inline_copies_free(pre, s1, seq![]);
    assert(starts_with(s1, strong_open())) by {
        assert(s1.subrange(0, 8) =~= strong_open());
    }
    assert(s1.skip(8) =~= inner);
    lemma_inline_copies_free(x, rest, seq![1u8]);
    assert(rest[0] == ']');
    lemma_starts_char(rest, strong_open());
    lemma_starts_char(rest, emph_open());
    assert(rest.skip(1) =~= post);
    assert(seq![1u8].drop_last() =~= Seq::<u8>::empty());
    assert(markdown_inline_from(rest, seq![1u8]) == closing_mark(1) + markdown_inline_from(
        post,
        seq![],
    ));
    assert(pre + (seq!['*', '*'] + (x + (closing_mark(1) + post))) =~= pre + "**"@ + x + "**"@
        + post);
    // emphasis
    let s2 = "#emph["@ + inner;
    assert(pre + "#emph["@ + x + "]"@ + post =~= pre + s2);
    lemma_inline_copies_free(pre, s2, seq![]);
    lemma_starts_char(s2, strong_open());
    assert(s2[1] == 'e');
    assert(starts_with(s2, emph_open())) by {
        assert(s2.subrange(0, 6) =~= emph_open());
    }
    assert(s2.skip(6) =~= inner);
    lemma_inline_copies_free(x, rest, seq![2u8]);
    assert(seq![2u8].drop_last() =~= Seq::<u8>::empty());
    assert(markdown_inline_from(rest, seq![2u8]) == closing_mark(2) + markdown_inline_from(
        post,
        seq![],
    ));
    assert(pre + (seq!['*'] + (x + (closing_mark(2) + post))) =~= pre + "*"@ + x + "*"@ + post);
}

} // verus!

verus! {

/// Law: batch export writes exactly the formats it can render to text or
/// compile, each under its own extension: a name gives `.pdf`, `.html`,
/// `.md`, `.tex` or `.txt` when it names PDF, HTML, Markdown, LaTeX or plain
/// text, and no extension when it names DOCX or EPUB or no format at all.
pub proof fn lemma_batch_extension_follows_format(name: Seq<char>)
    ensures
        batch_extension(name) == match format_named(name) {
            Some(ExportFormat::Pdf) => Some(".pdf"@),
            Some(ExportFormat::Html) => Some(".html"@),
            Some(ExportFormat::Markdown) => Some(".md"@),
            Some(ExportFormat::Latex) => Some(".tex"@),
            Some(ExportFormat::PlainText) => Some(".txt"@),
            _ => None::<Seq<char>>,
        },
{
    reveal_strlit("pdf");
    reveal_strlit("html");
    reveal_strlit("markdown");
    reveal_strlit("md");
    reveal_strlit("latex");
    reveal_strlit("tex");
    reveal_strlit("docx");
    reveal_strlit("word");
    reveal_strlit("epub");
    reveal_strlit("text");
    reveal_strlit("txt");
    reveal_strlit("plain");
    assert("pdf"@ != "html"@) by { assert("pdf"@.len() != "html"@.len()); }
    assert("pdf"@ != "markdown"@) by { assert("pdf"@.len() != "markdown"@.len()); }
    assert("pdf"@ != "md"@) by { assert("pdf"@.len() != "md"@.len()); }
    assert("pdf"@ != "latex"@) by { assert("pdf"@.len() != "latex"@.len()); }
    assert("pdf"@ != "tex"@) by { assert("pdf"@[0] != "tex"@[0]); }
    assert("pdf"@ != "docx"@) by { assert("pdf"@.len() != "docx"@.len()); }
    assert("pdf"@ != "word"@) by { assert("pdf"@.len() != "word"@.len()); }
    assert("pdf"@ != "epub"@) by { assert("pdf"@.len() != "epub"@.len()); }
    assert("pdf"@ != "text"@) by { assert("pdf"@.len() != "text"@.len()); }
    assert("pdf"@ != "txt"@) by { assert("pdf"@[0] != "txt"@[0]); }
    assert("pdf"@ != "plain"@) by { assert("pdf"@.len() != "plain"@.len()); }
    assert("html"@ != "markdown"@) by { assert("html"@.len() != "markdown"@.len()); }
    assert("html"@ != "md"@) by { assert("html"@.len() != "md"@.len()); }
    assert("html"@ != "latex"@) by { assert("html"@.len() != "latex"@.len()); }
    assert("html"@ != "tex"@) by { assert("html"@.len() != "tex"@.len()); }
    assert("html"@ != "docx"@) by { assert("html"@[0] != "docx"@[0]); }
    assert("html"@ != "word"@) by { assert("html"@[0] != "word"@[0]); }
    assert("html"@ != "epub"@) by { assert("html"@[0] != "epub"@[0]); }
    assert("html"@ != "text"@) by { assert("html"@[0] != "text"@[0]); }
    assert("html"@ != "txt"@) by { assert("html"@.len() != "txt"@.len()); }
    assert("html"@ != "plain"@) by { assert("html"@.len() != "plain"@.len()); }
    assert("markdown"@ != "md"@) by { assert("markdown"@.len() != "md"@.len()); }
    assert("markdown"@ != "latex"@) by { assert("markdown"@.len() != "latex"@.len()); }
    assert("markdown"@ != "tex"@) by { assert("markdown"@.len() != "tex"@.len()); }
    assert("markdown"@ != "docx"@) by { assert("markdown"@.len() != "docx"@.len()); }
    assert("markdown"@ != "word"@) by { assert("markdown"@.len() != "word"@.len()); }
    assert("markdown"@ != "epub"@) by { assert("markdown"@.len() != "epub"@.len()); }
    assert("markdown"@ != "text"@) by { assert("markdown"@.len() != "text"@.len()); }
    assert("markdown"@ != "txt"@) by { assert("markdown"@.len() != "txt"@.len()); }
    assert("markdown"@ != "plain"@) by { assert("markdown"@.len() != "plain"@.len()); }
    assert("md"@ != "latex"@) by { assert("md"@.len() != "latex"@.len()); }
    assert("md"@ != "tex"@) by { assert("md"@.len() != "tex"@.len()); }
    assert("md"@ != "docx"@) by { assert("md"@.len() != "docx"@.len()); }
    assert("md"@ != "word"@) by { assert("md"@.len() != "word"@.len()); }
    assert("md"@ != "epub"@) by { assert("md"@.len() != "epub"@.len()); }
    assert("md"@ != "text"@) by { assert("md"@.len() != "text"@.len()); }
    assert("md"@ != "txt"@) by { assert("md"@.len() != "txt"@.len()); }
    assert("md"@ != "plain"@) by { assert("md"@.len() != "plain"@.len()); }
    assert("latex"@ != "tex"@) by { assert("latex"@.len() != "tex"@.len()); }
    assert("latex"@ != "docx"@) by { assert("latex"@.len() != "docx"@.len()); }
    assert("latex"@ != "word"@) by { assert("latex"@.len() != "word"@.len()); }
    assert("latex"@ != "epub"@) by { assert("latex"@.len() != "epub"@.len()); }
    assert("latex"@ != "text"@) by { assert("latex"@.len() != "text"@.len()); }
    assert("latex"@ != "txt"@) by { assert("latex"@.len() != "txt"@.len()); }
    assert("latex"@ != "plain"@) by { assert("latex"@[0] != "plain"@[0]); }
    assert("tex"@ != "docx"@) by { assert("tex"@.len() != "docx"@.len()); }
    assert("tex"@ != "word"@) by { assert("tex"@.len() != "word"@.len()); }
    assert("tex"@ != "epub"@) by { assert("tex"@.len() != "epub"@.len()); }
    assert("tex"@ != "text"@) by { assert("tex"@.len() != "text"@.len()); }
    assert("tex"@ != "txt"@) by { assert("tex"@[1] != "txt"@[1]); }
    assert("tex"@ != "plain"@) by { assert("tex"@.len() != "plain"@.len()); }
    assert("docx"@ != "word"@) by { assert("docx"@[0] != "word"@[0]); }
    assert("docx"@ != "epub"@) by { assert("docx"@[0] != "epub"@[0]); }
    assert("docx"@ != "text"@) by { assert("docx"@[0] != "text"@[0]); }
    assert("docx"@ != "txt"@) by { assert("docx"@.len() != "txt"@.len()); }
    assert("docx"@ != "plain"@) by { assert("docx"@.len() != "plain"@.len()); }
    assert("word"@ != "epub"@) by { assert("word"@[0] != "epub"@[0]); }
    assert("word"@ != "text"@) by { assert("word"@[0] != "text"@[0]); }
    assert("word"@ != "txt"@) by { assert("word"@.len() != "txt"@.len()); }
    assert("word"@ != "plain"@) by { assert("word"@.len() != "plain"@.len()); }
    assert("epub"@ != "text"@) by { assert("epub"@[0] != "text"@[0]); }
    assert("epub"@ != "txt"@) by { assert("epub"@.len() != "txt"@.len()); }
    assert("epub"@ != "plain"@) by { assert("epub"@.len() != "plain"@.len()); }
    assert("text"@ != "txt"@) by { assert("text"@.len() != "txt"@.len()); }
    assert("text"@ != "plain"@) by { assert("text"@.len() != "plain"@.len()); }
    assert("txt"@ != "plain"@) by { assert("txt"@.len() != "plain"@.len()); }
}

} // verus!
