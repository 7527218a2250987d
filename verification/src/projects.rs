//! Project templates, and the files and settings of new projects.
use vstd::prelude::*;
use crate::text::{chars_of, eq_str, replace_all, replace_str};

verus! {

/// A file of a project template.
pub struct TemplateFile {
    pub path: String,
    pub content: String,
}

/// A project template: its files, with `{{PROJECT_NAME}}` standing for the
/// name of the project.
pub struct ProjectTemplate {
    pub id: String,
    pub name: String,
    pub description: String,
    pub doc_type: String,
    pub files: Vec<TemplateFile>,
}

pub struct TemplateFileView {
    pub path: Seq<char>,
    pub content: Seq<char>,
}

impl View for TemplateFile {
    type V = TemplateFileView;

    open spec fn view(&self) -> TemplateFileView {
        TemplateFileView { path: self.path@, content: self.content@ }
    }
}

pub open spec fn files_view(v: Seq<TemplateFile>) -> Seq<TemplateFileView> {
    v.map_values(|f: TemplateFile| f@)
}

pub struct TemplateView {
    pub id: Seq<char>,
    pub name: Seq<char>,
    pub description: Seq<char>,
    pub doc_type: Seq<char>,
    pub files: Seq<TemplateFileView>,
}

impl View for ProjectTemplate {
    type V = TemplateView;

    open spec fn view(&self) -> TemplateView {
        TemplateView {
            id: self.id@,
            name: self.name@,
            description: self.description@,
            doc_type: self.doc_type@,
            files: files_view(self.files@),
        }
    }
}

pub open spec fn templates_view(v: Seq<ProjectTemplate>) -> Seq<TemplateView> {
    v.map_values(|t: ProjectTemplate| t@)
}

/// The `main.typ` file of the `typst-basic` template.
pub const TYPST_BASIC_MAIN: &'static str = r#"#set document(title: "{{PROJECT_NAME}}")
#set page(paper: "us-letter", margin: 1in)
#set text(font: "New Computer Modern", size: 11pt)

= {{PROJECT_NAME}}

Your content starts here.

== Section One

Write your first section here.

== Section Two

Write your second section here.
"#;

/// The `main.typ` file of the `rfp-response` template.
pub const RFP_RESPONSE_MAIN: &'static str = r#"#set document(
  title: "{{PROJECT_NAME}}",
  author: "Your Company Name"
)
#set page(
  paper: "us-letter",
  margin: (top: 1in, bottom: 1in, left: 1.25in, right: 1in),
  header: [
    #set text(8pt)
    #h(1fr) Response to RFP
  ],
  footer: [
    #set text(8pt)
    Your Company Name #h(1fr) Page #counter(page).display()
  ]
)
#set text(font: "New Computer Modern", size: 11pt)
#set par(justify: true)

#include "cover-letter.typ"
#pagebreak()

#include "executive-summary.typ"
#pagebreak()

#include "technical-approach.typ"
#pagebreak()

#include "past-performance.typ"
#pagebreak()

#include "pricing.typ"
"#;

/// The `cover-letter.typ` file of the `rfp-response` template.
pub const RFP_RESPONSE_COVER_LETTER: &'static str = r#"#align(center)[
  #text(size: 18pt, weight: "bold")[Response to Request for Proposal]

  #v(0.5em)

  #text(size: 14pt)[{{PROJECT_NAME}}]
]

#v(2em)

#text(weight: "bold")[Submitted to:]

Agency/Organization Name \
Address Line 1 \
City, State ZIP

#v(1em)

#text(weight: "bold")[Submitted by:]

Your Company Name \
Your Address \
City, State ZIP

#v(1em)

#text(weight: "bold")[Date:] #datetime.today().display()

#v(2em)

Dear Selection Committee,

We are pleased to submit this proposal in response to your Request for Proposal. Our team brings extensive experience and expertise to deliver exceptional results for your organization.

Please find enclosed our complete response addressing all requirements outlined in your RFP. We are confident that our approach will meet and exceed your expectations.

We look forward to the opportunity to discuss our proposal in more detail.

Sincerely,

#v(3em)

Authorized Representative \
Title \
Your Company Name
"#;

/// The `executive-summary.typ` file of the `rfp-response` template.
pub const RFP_RESPONSE_EXECUTIVE_SUMMARY: &'static str = r#"= Executive Summary

== Understanding of Requirements

Provide a clear summary of your understanding of the client's needs and requirements.

== Proposed Solution

Describe your proposed solution at a high level.

== Key Benefits

- Benefit 1
- Benefit 2
- Benefit 3

== Why Choose Us

Explain why your organization is the best choice for this project.
"#;

/// The `technical-approach.typ` file of the `rfp-response` template.
pub const RFP_RESPONSE_TECHNICAL_APPROACH: &'static str = r#"= Technical Approach

== Methodology

Describe your technical methodology and approach.

== Implementation Plan

=== Phase 1: Discovery
Timeline and deliverables

=== Phase 2: Development
Timeline and deliverables

=== Phase 3: Deployment
Timeline and deliverables

== Team Structure

Describe your team's organization and key personnel.

== Quality Assurance

Describe your quality assurance processes.
"#;

/// The `past-performance.typ` file of the `rfp-response` template.
pub const RFP_RESPONSE_PAST_PERFORMANCE: &'static str = r#"= Past Performance

== Relevant Experience

=== Project 1: [Project Name]
- *Client:* Client Name
- *Duration:* Start - End
- *Scope:* Brief description
- *Results:* Key outcomes

=== Project 2: [Project Name]
- *Client:* Client Name
- *Duration:* Start - End
- *Scope:* Brief description
- *Results:* Key outcomes

== References

Contact information for references available upon request.
"#;

/// The `pricing.typ` file of the `rfp-response` template.
pub const RFP_RESPONSE_PRICING: &'static str = r#"= Pricing

== Cost Summary

#table(
  columns: (auto, 1fr, auto),
  inset: 10pt,
  align: (left, left, right),
  [*Item*], [*Description*], [*Cost*],
  [Phase 1], [Discovery and Planning], [\$X,XXX],
  [Phase 2], [Development], [\$X,XXX],
  [Phase 3], [Deployment], [\$X,XXX],
  table.hline(),
  [*Total*], [], [*\$XX,XXX*],
)

== Payment Terms

Describe your payment terms and conditions.

== Assumptions

List any assumptions underlying your pricing.
"#;

/// The `main.typ` file of the `academic-paper` template.
pub const ACADEMIC_PAPER_MAIN: &'static str = r#"#set document(
  title: "{{PROJECT_NAME}}",
  author: ("Author Name",)
)
#set page(paper: "us-letter", margin: 1in)
#set text(font: "New Computer Modern", size: 12pt)
#set par(justify: true, leading: 1.5em)
#set heading(numbering: "1.1")

#align(center)[
  #text(size: 16pt, weight: "bold")[{{PROJECT_NAME}}]

  #v(1em)

  Author Name \
  Institution Name \
  #link("mailto:author@email.com")

  #v(0.5em)

  #datetime.today().display("[month repr:long] [day], [year]")
]

#v(2em)

#heading(outlined: false, numbering: none)[Abstract]

Write your abstract here. This should be a concise summary of your paper, typically 150-300 words.

#v(1em)

*Keywords:* keyword1, keyword2, keyword3

#pagebreak()

= Introduction

Introduce your research topic and objectives.

= Literature Review

Review relevant prior work in the field.

= Methodology

Describe your research methodology.

= Results

Present your findings.

= Discussion

Discuss the implications of your results.

= Conclusion

Summarize your conclusions and suggest future work.

#pagebreak()

#heading(outlined: false, numbering: none)[References]

Add your references here.
"#;

/// The `main.typ` file of the `technical-docs` template.
pub const TECHNICAL_DOCS_MAIN: &'static str = r#"#set document(title: "{{PROJECT_NAME}}")
#set page(paper: "us-letter", margin: 1in)
#set text(font: "New Computer Modern", size: 11pt)
#set heading(numbering: "1.1")

#align(center)[
  #text(size: 20pt, weight: "bold")[{{PROJECT_NAME}}]

  #v(0.5em)

  Technical Documentation

  #v(0.5em)

  Version 1.0
]

#v(2em)

#outline(indent: auto)

#pagebreak()

= Overview

Brief overview of the system/software.

= Getting Started

== Requirements

List system requirements.

== Installation

Installation instructions.

== Quick Start

Quick start guide.

= Architecture

== System Architecture

Describe the overall architecture.

== Components

=== Component A

Description and responsibilities.

=== Component B

Description and responsibilities.

= API Reference

== Endpoints

=== GET /api/resource

Description of the endpoint.

*Parameters:*
- `param1` - Description

*Response:*
```json
{
  "status": "success"
}
```

= Troubleshooting

Common issues and solutions.

= Changelog

== Version 1.0
- Initial release
"#;

/// The `main.typ` file of the `business-proposal` template.
pub const BUSINESS_PROPOSAL_MAIN: &'static str = r#"#set document(title: "{{PROJECT_NAME}}")
#set page(
  paper: "us-letter",
  margin: 1in,
  footer: [
    #set text(8pt)
    #h(1fr) Page #counter(page).display() of #locate(loc => counter(page).final(loc).first())
  ]
)
#set text(font: "New Computer Modern", size: 11pt)
#set par(justify: true)

#v(4em)

#align(center)[
  #text(size: 24pt, weight: "bold")[Business Proposal]

  #v(1em)

  #text(size: 16pt)[{{PROJECT_NAME}}]

  #v(2em)

  Prepared for: Client Name

  #v(1em)

  Prepared by: Your Company Name

  #v(1em)

  #datetime.today().display("[month repr:long] [day], [year]")
]

#pagebreak()

#outline(indent: auto)

#pagebreak()

= Executive Summary

Provide a compelling summary of your proposal.

= Problem Statement

Describe the challenge or opportunity.

= Proposed Solution

Detail your proposed solution.

= Benefits

== For Your Organization

- Benefit 1
- Benefit 2

== Return on Investment

Describe expected ROI.

= Implementation Timeline

#table(
  columns: (auto, 1fr, auto),
  [*Phase*], [*Activities*], [*Timeline*],
  [Phase 1], [Planning], [Week 1-2],
  [Phase 2], [Execution], [Week 3-6],
  [Phase 3], [Review], [Week 7-8],
)

= Investment

Detail pricing and payment terms.

= Next Steps

Outline the path forward.

= About Us

Brief company background and qualifications.
"#;

/// The templates offered, in order.
pub open spec fn templates() -> Seq<TemplateView> {
    seq![
        TemplateView {
            id: "typst-basic"@,
            name: "Basic Typst Document"@,
            description: "A simple Typst document with basic formatting"@,
            doc_type: "typst"@,
            files: seq![TemplateFileView { path: "main.typ"@, content: TYPST_BASIC_MAIN@ }],
        },
        TemplateView {
            id: "rfp-response"@,
            name: "RFP Response"@,
            description: "Professional RFP response template with cover letter and sections"@,
            doc_type: "typst"@,
            files: seq![TemplateFileView { path: "main.typ"@, content: RFP_RESPONSE_MAIN@ }, TemplateFileView { path: "cover-letter.typ"@, content: RFP_RESPONSE_COVER_LETTER@ }, TemplateFileView { path: "executive-summary.typ"@, content: RFP_RESPONSE_EXECUTIVE_SUMMARY@ }, TemplateFileView { path: "technical-approach.typ"@, content: RFP_RESPONSE_TECHNICAL_APPROACH@ }, TemplateFileView { path: "past-performance.typ"@, content: RFP_RESPONSE_PAST_PERFORMANCE@ }, TemplateFileView { path: "pricing.typ"@, content: RFP_RESPONSE_PRICING@ }],
        },
        TemplateView {
            id: "academic-paper"@,
            name: "Academic Paper"@,
            description: "Template for academic papers with citations"@,
            doc_type: "typst"@,
            files: seq![TemplateFileView { path: "main.typ"@, content: ACADEMIC_PAPER_MAIN@ }],
        },
        TemplateView {
            id: "technical-docs"@,
            name: "Technical Documentation"@,
            description: "Template for software/technical documentation"@,
            doc_type: "typst"@,
            files: seq![TemplateFileView { path: "main.typ"@, content: TECHNICAL_DOCS_MAIN@ }],
        },
        TemplateView {
            id: "business-proposal"@,
            name: "Business Proposal"@,
            description: "Professional business proposal template"@,
            doc_type: "typst"@,
            files: seq![TemplateFileView { path: "main.typ"@, content: BUSINESS_PROPOSAL_MAIN@ }],
        },
    ]
}

fn template_file(path: &str, content: &str) -> (f: TemplateFile)
    ensures
        f@ == (TemplateFileView { path: path@, content: content@ }),
{
    TemplateFile { path: String::from_str(path), content: String::from_str(content) }
}

fn template_0() -> (t: ProjectTemplate)
    ensures
        t@ == templates()[0],
{
    let mut files: Vec<TemplateFile> = Vec::new();
    files.push(template_file("main.typ", TYPST_BASIC_MAIN));
    assert(files_view(files@) =~= templates()[0].files);
    let t = ProjectTemplate {
        id: String::from_str("typst-basic"),
        name: String::from_str("Basic Typst Document"),
        description: String::from_str("A simple Typst document with basic formatting"),
        doc_type: String::from_str("typst"),
        files,
    };
    assert(t@ =~= templates()[0]);
    t
}

fn template_1() -> (t: ProjectTemplate)
    ensures
        t@ == templates()[1],
{
    let mut files: Vec<TemplateFile> = Vec::new();
    files.push(template_file("main.typ", RFP_RESPONSE_MAIN));
    files.push(template_file("cover-letter.typ", RFP_RESPONSE_COVER_LETTER));
    files.push(template_file("executive-summary.typ", RFP_RESPONSE_EXECUTIVE_SUMMARY));
    files.push(template_file("technical-approach.typ", RFP_RESPONSE_TECHNICAL_APPROACH));
    files.push(template_file("past-performance.typ", RFP_RESPONSE_PAST_PERFORMANCE));
    files.push(template_file("pricing.typ", RFP_RESPONSE_PRICING));
    assert(files_view(files@) =~= templates()[1].files);
    let t = ProjectTemplate {
        id: String::from_str("rfp-response"),
        name: String::from_str("RFP Response"),
        description: String::from_str("Professional RFP response template with cover letter and sections"),
        doc_type: String::from_str("typst"),
        files,
    };
    assert(t@ =~= templates()[1]);
    t
}

fn template_2() -> (t: ProjectTemplate)
    ensures
        t@ == templates()[2],
{
    let mut files: Vec<TemplateFile> = Vec::new();
    files.push(template_file("main.typ", ACADEMIC_PAPER_MAIN));
    assert(files_view(files@) =~= templates()[2].files);
    let t = ProjectTemplate {
        id: String::from_str("academic-paper"),
        name: String::from_str("Academic Paper"),
        description: String::from_str("Template for academic papers with citations"),
        doc_type: String::from_str("typst"),
        files,
    };
    assert(t@ =~= templates()[2]);
    t
}

fn template_3() -> (t: ProjectTemplate)
    ensures
        t@ == templates()[3],
{
    let mut files: Vec<TemplateFile> = Vec::new();
    files.push(template_file("main.typ", TECHNICAL_DOCS_MAIN));
    assert(files_view(files@) =~= templates()[3].files);
    let t = ProjectTemplate {
        id: String::from_str("technical-docs"),
        name: String::from_str("Technical Documentation"),
        description: String::from_str("Template for software/technical documentation"),
        doc_type: String::from_str("typst"),
        files,
    };
    assert(t@ =~= templates()[3]);
    t
}

fn template_4() -> (t: ProjectTemplate)
    ensures
        t@ == templates()[4],
{
    let mut files: Vec<TemplateFile> = Vec::new();
    files.push(template_file("main.typ", BUSINESS_PROPOSAL_MAIN));
    assert(files_view(files@) =~= templates()[4].files);
    let t = ProjectTemplate {
        id: String::from_str("business-proposal"),
        name: String::from_str("Business Proposal"),
        description: String::from_str("Professional business proposal template"),
        doc_type: String::from_str("typst"),
        files,
    };
    assert(t@ =~= templates()[4]);
    t
}

/// All available project templates.
pub fn get_templates() -> (r: Vec<ProjectTemplate>)
    ensures
        templates_view(r@) == templates(),
{
    let mut r: Vec<ProjectTemplate> = Vec::new();
    r.push(template_0());
    r.push(template_1());
    r.push(template_2());
    r.push(template_3());
    r.push(template_4());
    assert(templates_view(r@) =~= templates());
    r
}

} // verus!

verus! {

// ---- Projects from templates ------------------------------------------------

/// The first template of `ts` with the given id.
pub open spec fn template_with_id(ts: Seq<TemplateView>, id: Seq<char>) -> Option<TemplateView>
    decreases ts.len(),
{
    if ts.len() == 0 {
        None
    } else if ts[0].id == id {
        Some(ts[0])
    } else {
        template_with_id(ts.drop_first(), id)
    }
}

/// The placeholder that template files hold for the project's name.
pub open spec fn name_placeholder() -> Seq<char> {
    "{{PROJECT_NAME}}"@
}

/// A template file with the placeholder replaced by the project's name.
pub open spec fn instantiated(f: TemplateFileView, project_name: Seq<char>) -> TemplateFileView {
    TemplateFileView {
        path: f.path,
        content: replace_all(f.content, name_placeholder(), project_name),
    }
}

/// The settings file of a project made from a template.
pub struct TemplateConfig {
    pub name: String,
    pub doc_type: String,
    pub template: String,
    pub main_file: String,
    pub output_dir: String,
}

/// The files and settings of a project made from a template.
pub struct TemplatePlan {
    pub files: Vec<TemplateFile>,
    pub config: TemplateConfig,
}

/// The plan for a project named `name` from template `t` (with id `id`):
/// its files instantiated in order, and settings naming the first file as the
/// main one.
pub open spec fn is_plan_for(p: TemplatePlan, t: TemplateView, id: Seq<char>, name: Seq<char>) -> bool {
    &&& files_view(p.files@) == t.files.map_values(|f: TemplateFileView| instantiated(f, name))
    &&& p.config.name@ == name
    &&& p.config.doc_type@ == t.doc_type
    &&& p.config.template@ == id
    &&& p.config.main_file@ == (if t.files.len() > 0 {
        t.files[0].path
    } else {
        seq![]
    })
    &&& p.config.output_dir@ == "output"@
}

fn find_template(ts: &Vec<ProjectTemplate>, id: &str) -> (r: Option<usize>)
    ensures
        match r {
            Some(i) => i < ts.len() && template_with_id(templates_view(ts@), id@) == Some(
                ts@[i as int]@,
            ),
            None => template_with_id(templates_view(ts@), id@) is None,
        },
{
    let ghost tv = templates_view(ts@);
    let mut i: usize = 0;
    assert(tv.skip(0) == tv);
    while i < ts.len()
        invariant
            i <= ts.len(),
            tv == templates_view(ts@),
            template_with_id(tv, id@) == template_with_id(tv.skip(i as int), id@),
        decreases ts.len() - i,
    {
        assert(tv.skip(i as int)[0] == ts@[i as int]@);
        if eq_str(ts[i].id.as_str(), id) {
            return Some(i);
        }
        assert(tv.skip(i as int).drop_first() == tv.skip(i + 1));
        i = i + 1;
    }
    None
}

/// The files and settings of a new project named `project_name` made from
/// the template `template_id`; an error when there is no such template.
pub fn plan_from_template(template_id: &str, project_name: &str) -> (r: Result<TemplatePlan, String>)
    ensures
        match template_with_id(templates(), template_id@) {
            Some(t) => r matches Ok(p) && is_plan_for(p, t, template_id@, project_name@),
            None => r matches Err(e) && e@ == "Template not found: "@ + template_id@,
        },
{
    let ts = get_templates();
    let k = match find_template(&ts, template_id) {
        Some(k) => k,
        None => {
            let mut message = String::from_str("Template not found: ");
            message.append(template_id);
            return Err(message);
        },
    };
    let t = &ts[k];
    let ghost tv = t@;
    proof {
        reveal_strlit("{{PROJECT_NAME}}");
    }
    let mut files: Vec<TemplateFile> = Vec::new();
    let mut i: usize = 0;
    while i < t.files.len()
        invariant
            i <= t.files.len(),
            tv == t@,
            files_view(files@) == tv.files.take(i as int).map_values(
                |f: TemplateFileView| instantiated(f, project_name@),
            ),
        decreases t.files.len() - i,
    {
        proof {
            reveal_strlit("{{PROJECT_NAME}}");
        }
        let f = &t.files[i];
        let fv = chars_of(f.content.as_str());
        let content = replace_str(fv.as_slice(), "{{PROJECT_NAME}}", project_name);
        let ghost before = files_view(files@);
        let nf = TemplateFile { path: f.path.clone(), content };
        files.push(nf);
        assert(files_view(files@) =~= before.push(nf@));
        assert(tv.files.take(i + 1).map_values(
            |f: TemplateFileView| instantiated(f, project_name@),
        ) =~= tv.files.take(i as int).map_values(
            |f: TemplateFileView| instantiated(f, project_name@),
        ).push(instantiated(tv.files[i as int], project_name@)));
        i = i + 1;
    }
    assert(tv.files.take(t.files.len() as int) == tv.files);
    let main_file = if t.files.len() > 0 {
        t.files[0].path.clone()
    } else {
        String::new()
    };
    let config = TemplateConfig {
        name: String::from_str(project_name),
        doc_type: t.doc_type.clone(),
        template: String::from_str(template_id),
        main_file,
        output_dir: String::from_str("output"),
    };
    Ok(TemplatePlan { files, config })
}

// ---- New projects -------------------------------------------------------------

/// A project directory: its name, path and document type.
pub struct ProjectInfo {
    pub name: String,
    pub path: String,
    pub doc_type: String,
}

/// The settings file of a project.
pub struct ProjectConfig {
    pub name: String,
    pub doc_type: String,
    pub main_file: String,
    pub output_dir: String,
}

/// The document type of a project directory: Typst when it has `main.typ`,
/// LaTeX when it has `main.tex`, otherwise Typst exactly when some file has
/// the `typ` extension.
pub open spec fn detected_doc_type(has_main_typ: bool, has_main_tex: bool, has_typ_file: bool) -> Seq<char> {
    if has_main_typ {
        "typst"@
    } else if has_main_tex {
        "latex"@
    } else if has_typ_file {
        "typst"@
    } else {
        "latex"@
    }
}

/// The information on a project directory, given its final path component
/// (if it has one) and what files it holds.
pub fn project_info(
    path: String,
    file_name: Option<String>,
    has_main_typ: bool,
    has_main_tex: bool,
    has_typ_file: bool,
) -> (p: ProjectInfo)
    ensures
        p.path == path,
        p.name@ == match file_name {
            Some(n) => n@,
            None => "Untitled"@,
        },
        p.doc_type@ == detected_doc_type(has_main_typ, has_main_tex, has_typ_file),
{
    let name = match file_name {
        Some(n) => n,
        None => String::from_str("Untitled"),
    };
    let doc_type = if has_main_typ {
        "typst"
    } else if has_main_tex {
        "latex"
    } else if has_typ_file {
        "typst"
    } else {
        "latex"
    };
    ProjectInfo { name, path, doc_type: String::from_str(doc_type) }
}

/// The main Typst file of a new project named `name`.
pub open spec fn typst_main(name: Seq<char>) -> Seq<char> {
    "#set document(title: \""@ + name
        + "\")\n#set page(paper: \"us-letter\", margin: 1in)\n#set text(font: \"New Computer Modern\", size: 11pt)\n\n= "@
        + name + "\n\nYour content here.\n"@
}

/// The main LaTeX file of a new project named `name`.
pub open spec fn latex_main(name: Seq<char>) -> Seq<char> {
    "\\documentclass[11pt]{article}\n\\usepackage[utf8]{inputenc}\n\\usepackage{geometry}\n\\geometry{letterpaper, margin=1in}\n\n\\title{"@
        + name
        + "}\n\\author{}\n\\date{\\today}\n\n\\begin{document}\n\n\\maketitle\n\nYour content here.\n\n\\end{document}\n"@
}

/// The main file of a new project and its settings.
pub struct ProjectPlan {
    pub main_file: String,
    pub content: String,
    pub config: ProjectConfig,
}

/// The main file and settings of a new project of the given document type
/// (`typst` or `latex`); an error for another type.
pub fn plan_project(name: &str, doc_type: &str) -> (r: Result<ProjectPlan, String>)
    ensures
        doc_type@ == "typst"@ ==> (r matches Ok(p) && p.main_file@ == "main.typ"@ && p.content@
            == typst_main(name@) && p.config.main_file@ == "main.typ"@),
        doc_type@ == "latex"@ ==> (r matches Ok(p) && p.main_file@ == "main.tex"@ && p.content@
            == latex_main(name@) && p.config.main_file@ == "main.tex"@),
        r matches Ok(p) ==> p.config.name@ == name@ && p.config.doc_type@ == doc_type@
            && p.config.output_dir@ == "output"@,
        doc_type@ != "typst"@ && doc_type@ != "latex"@ ==> (r matches Err(e) && e@
            == "Unknown document type: "@ + doc_type@),
{
    proof {
        reveal_strlit("typst");
        reveal_strlit("latex");
        assert("latex"@[0] != "typst"@[0]);
    }
    let (main_file, content) = if eq_str(doc_type, "typst") {
        let mut c = String::from_str("#set document(title: \"");
        c.append(name);
        c.append(
            "\")\n#set page(paper: \"us-letter\", margin: 1in)\n#set text(font: \"New Computer Modern\", size: 11pt)\n\n= ",
        );
        c.append(name);
        c.append("\n\nYour content here.\n");
        ("main.typ", c)
    } else if eq_str(doc_type, "latex") {
        let mut c = String::from_str(
            "\\documentclass[11pt]{article}\n\\usepackage[utf8]{inputenc}\n\\usepackage{geometry}\n\\geometry{letterpaper, margin=1in}\n\n\\title{",
        );
        c.append(name);
        c.append(
            "}\n\\author{}\n\\date{\\today}\n\n\\begin{document}\n\n\\maketitle\n\nYour content here.\n\n\\end{document}\n",
        );
        ("main.tex", c)
    } else {
        let mut message = String::from_str("Unknown document type: ");
        message.append(doc_type);
        return Err(message);
    };
    let config = ProjectConfig {
        name: String::from_str(name),
        doc_type: String::from_str(doc_type),
        main_file: String::from_str(main_file),
        output_dir: String::from_str("output"),
    };
    Ok(ProjectPlan { main_file: String::from_str(main_file), content, config })
}

} // verus!

verus! {

/// Law: no two templates share an id, so a template is found by its id
/// alone.
pub proof fn lemma_template_ids_distinct()
    ensures
        forall|i: int, j: int|
            0 <= i < j < templates().len() ==> (#[trigger] templates()[i]).id != (
            #[trigger] templates()[j]).id,
{
    reveal_strlit("typst-basic");
    reveal_strlit("rfp-response");
    reveal_strlit("academic-paper");
    reveal_strlit("technical-docs");
    reveal_strlit("business-proposal");
    let ts = templates();
    assert(ts[0].id[0] != ts[1].id[0]);
    assert(ts[0].id[0] != ts[2].id[0]);
    assert(ts[0].id[1] != ts[3].id[1]);
    assert(ts[0].id[0] != ts[4].id[0]);
    assert(ts[1].id[0] != ts[2].id[0]);
    assert(ts[1].id[0] != ts[3].id[0]);
    assert(ts[1].id[0] != ts[4].id[0]);
    assert(ts[2].id[0] != ts[3].id[0]);
    assert(ts[2].id[0] != ts[4].id[0]);
    assert(ts[3].id[0] != ts[4].id[0]);
}

} // verus!
