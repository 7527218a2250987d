//! Assembling the outcome of a Typst compilation into a compile result.
//!
//! The compiler itself runs outside the library; what it reports is handed
//! over as plain values (`Diagnostic`, `FileCompileOutcome`,
//! `SourceCompileOutcome`), and the functions here decide what the caller is
//! told: which diagnostics are errors, which are warnings, and the messages
//! of the failures around compilation.
use vstd::prelude::*;

verus! {

/// A compile error, located where the compiler could place it.
pub struct CompileError {
    pub message: String,
    pub file: Option<String>,
    pub line: Option<u32>,
    pub column: Option<u32>,
    pub hint: Option<String>,
}

/// A compile warning, located where the compiler could place it.
pub struct CompileWarning {
    pub message: String,
    pub file: Option<String>,
    pub line: Option<u32>,
    pub column: Option<u32>,
}

/// The result of a compilation.
pub struct CompileResult {
    pub success: bool,
    pub output_path: Option<String>,
    pub pdf_data: Option<Vec<u8>>,
    pub errors: Vec<CompileError>,
    pub warnings: Vec<CompileWarning>,
    pub compile_time_ms: u64,
}

/// How serious a diagnostic is.
#[derive(Clone, Copy, Debug, PartialEq, Eq, Structural)]
pub enum Severity {
    Error,
    Warning,
}

/// A diagnostic as the compiler reports it: its message, its first hint, and
/// the file, line and column (one-based) it points to, where known.
pub struct Diagnostic {
    pub severity: Severity,
    pub message: String,
    pub hint: Option<String>,
    pub file: Option<String>,
    pub line: Option<u32>,
    pub column: Option<u32>,
}

/// What happened when a PDF was made of a compiled document.
pub enum PdfOutcome {
    /// The PDF was produced and written to the output path.
    Written { data: Vec<u8> },
    /// The PDF was produced but writing it failed with this message.
    WriteFailed { message: String },
    /// The PDF could not be produced.
    Failed { errors: Vec<Diagnostic> },
}

/// What happened when a file was compiled.
pub enum FileCompileOutcome {
    /// The input file does not exist.
    InputMissing,
    /// The compilation environment could not be set up.
    SetupFailed { message: String },
    /// The document compiled, with these warnings, and a PDF was attempted.
    Compiled { pdf: PdfOutcome, warnings: Vec<Diagnostic> },
    /// The document did not compile: the diagnostics of the failure, and the
    /// warnings of the compilation.
    Failed { diagnostics: Vec<Diagnostic>, warnings: Vec<Diagnostic> },
}

/// What happened when a source held in memory was compiled.
pub enum SourceCompileOutcome {
    /// The PDF of the compiled document, and the warnings of the compilation.
    Compiled { data: Vec<u8>, warnings: Vec<Diagnostic> },
    /// The document compiled but no PDF could be made of it.
    PdfFailed { errors: Vec<Diagnostic> },
    /// The document did not compile.
    Failed { diagnostics: Vec<Diagnostic> },
}

// ---- Views ------------------------------------------------------------------

pub struct DiagnosticView {
    pub severity: Severity,
    pub message: Seq<char>,
    pub hint: Option<Seq<char>>,
    pub file: Option<Seq<char>>,
    pub line: Option<u32>,
    pub column: Option<u32>,
}

impl View for Diagnostic {
    type V = DiagnosticView;

    open spec fn view(&self) -> DiagnosticView {
        DiagnosticView {
            severity: self.severity,
            message: self.message@,
            hint: self.hint.deep_view(),
            file: self.file.deep_view(),
            line: self.line,
            column: self.column,
        }
    }
}

pub open spec fn diagnostics_view(v: Seq<Diagnostic>) -> Seq<DiagnosticView> {
    v.map_values(|d: Diagnostic| d@)
}

pub struct CompileErrorView {
    pub message: Seq<char>,
    pub file: Option<Seq<char>>,
    pub line: Option<u32>,
    pub column: Option<u32>,
    pub hint: Option<Seq<char>>,
}

impl View for CompileError {
    type V = CompileErrorView;

    open spec fn view(&self) -> CompileErrorView {
        CompileErrorView {
            message: self.message@,
            file: self.file.deep_view(),
            line: self.line,
            column: self.column,
            hint: self.hint.deep_view(),
        }
    }
}

pub open spec fn errors_view(v: Seq<CompileError>) -> Seq<CompileErrorView> {
    v.map_values(|e: CompileError| e@)
}

pub struct CompileWarningView {
    pub message: Seq<char>,
    pub file: Option<Seq<char>>,
    pub line: Option<u32>,
    pub column: Option<u32>,
}

impl View for CompileWarning {
    type V = CompileWarningView;

    open spec fn view(&self) -> CompileWarningView {
        CompileWarningView {
            message: self.message@,
            file: self.file.deep_view(),
            line: self.line,
            column: self.column,
        }
    }
}

pub open spec fn warnings_view(v: Seq<CompileWarning>) -> Seq<CompileWarningView> {
    v.map_values(|w: CompileWarning| w@)
}

// ---- Diagnostics to errors and warnings ---------------------------------------

/// The error reported for a diagnostic, located as the diagnostic is.
pub open spec fn error_of(d: DiagnosticView) -> CompileErrorView {
    CompileErrorView {
        message: d.message,
        file: d.file,
        line: d.line,
        column: d.column,
        hint: d.hint,
    }
}

/// The error reported for a diagnostic without its location.
pub open spec fn unlocated_error_of(d: DiagnosticView) -> CompileErrorView {
    CompileErrorView { message: d.message, file: None, line: None, column: None, hint: d.hint }
}

/// The warning reported for a diagnostic.
pub open spec fn warning_of(d: DiagnosticView) -> CompileWarningView {
    CompileWarningView { message: d.message, file: d.file, line: d.line, column: d.column }
}

/// The errors for those of `ds` with the given severity (all of them when
/// `only` is `None`), located or not.
pub open spec fn errors_for(ds: Seq<DiagnosticView>, only: Option<Severity>, located: bool) -> Seq<
    CompileErrorView,
>
    decreases ds.len(),
{
    if ds.len() == 0 {
        seq![]
    } else {
        let prev = errors_for(ds.drop_last(), only, located);
        let d = ds.last();
        if only is None || only == Some(d.severity) {
            prev.push(
                if located {
                    error_of(d)
                } else {
                    unlocated_error_of(d)
                },
            )
        } else {
            prev
        }
    }
}

/// The warnings for those of `ds` with the given severity (all of them when
/// `only` is `None`).
pub open spec fn warnings_for(ds: Seq<DiagnosticView>, only: Option<Severity>) -> Seq<
    CompileWarningView,
>
    decreases ds.len(),
{
    if ds.len() == 0 {
        seq![]
    } else {
        let prev = warnings_for(ds.drop_last(), only);
        let d = ds.last();
        if only is None || only == Some(d.severity) {
            prev.push(warning_of(d))
        } else {
            prev
        }
    }
}

fn copy_opt(o: &Option<String>) -> (r: Option<String>)
    ensures
        r.deep_view() == o.deep_view(),
{
    match o {
        Some(s) => Some(s.clone()),
        None => None,
    }
}

/// The compile error for a diagnostic, at the place it points to.
pub fn diagnostic_to_error(d: &Diagnostic) -> (e: CompileError)
    ensures
        e@ == error_of(d@),
{
    CompileError {
        message: d.message.clone(),
        file: copy_opt(&d.file),
        line: d.line,
        column: d.column,
        hint: copy_opt(&d.hint),
    }
}

/// The compile warning for a diagnostic, at the place it points to.
pub fn diagnostic_to_warning(d: &Diagnostic) -> (w: CompileWarning)
    ensures
        w@ == warning_of(d@),
{
    CompileWarning {
        message: d.message.clone(),
        file: copy_opt(&d.file),
        line: d.line,
        column: d.column,
    }
}

fn push_errors(out: &mut Vec<CompileError>, ds: &Vec<Diagnostic>, only: Option<Severity>, located: bool)
    ensures
        errors_view(final(out)@) == errors_view(old(out)@) + errors_for(
            diagnostics_view(ds@),
            only,
            located,
        ),
{
    let ghost dv = diagnostics_view(ds@);
    let mut i: usize = 0;
    while i < ds.len()
        invariant
            i <= ds.len(),
            dv == diagnostics_view(ds@),
            errors_view(out@) == errors_view(old(out)@) + errors_for(dv.take(i as int), only, located),
        decreases ds.len() - i,
    {
        proof {
            assert(dv.take(i + 1).drop_last() == dv.take(i as int));
            assert(dv.take(i + 1).last() == ds@[i as int]@);
        }
        let d = &ds[i];
        let wanted = match only {
            None => true,
            Some(s) => s == d.severity,
        };
        if wanted {
            let e = if located {
                diagnostic_to_error(d)
            } else {
                CompileError {
                    message: d.message.clone(),
                    file: None,
                    line: None,
                    column: None,
                    hint: copy_opt(&d.hint),
                }
            };
            let ghost before = out@;
            out.push(e);
            assert(errors_view(out@) =~= errors_view(before).push(e@));
        }
        i = i + 1;
    }
    assert(dv.take(ds.len() as int) == dv);
}

fn push_warnings(out: &mut Vec<CompileWarning>, ds: &Vec<Diagnostic>, only: Option<Severity>)
    ensures
        warnings_view(final(out)@) == warnings_view(old(out)@) + warnings_for(
            diagnostics_view(ds@),
            only,
        ),
{
    let ghost dv = diagnostics_view(ds@);
    let mut i: usize = 0;
    while i < ds.len()
        invariant
            i <= ds.len(),
            dv == diagnostics_view(ds@),
            warnings_view(out@) == warnings_view(old(out)@) + warnings_for(dv.take(i as int), only),
        decreases ds.len() - i,
    {
        proof {
            assert(dv.take(i + 1).drop_last() == dv.take(i as int));
            assert(dv.take(i + 1).last() == ds@[i as int]@);
        }
        let d = &ds[i];
        let wanted = match only {
            None => true,
            Some(s) => s == d.severity,
        };
        if wanted {
            let w = diagnostic_to_warning(d);
            let ghost before = out@;
            out.push(w);
            assert(warnings_view(out@) =~= warnings_view(before).push(w@));
        }
        i = i + 1;
    }
    assert(dv.take(ds.len() as int) == dv);
}

} // verus!

verus! {

// ---- Results ----------------------------------------------------------------

/// A failed result with the given errors and no warnings.
pub open spec fn failed_with(r: CompileResult, errors: Seq<CompileErrorView>, ms: u64) -> bool {
    &&& !r.success
    &&& r.output_path is None
    &&& r.pdf_data is None
    &&& errors_view(r.errors@) == errors
    &&& r.warnings@.len() == 0
    &&& r.compile_time_ms == ms
}

/// An error with a message and nothing else but, possibly, a file.
pub open spec fn plain_error(message: Seq<char>, file: Option<Seq<char>>) -> CompileErrorView {
    CompileErrorView { message, file, line: None, column: None, hint: None }
}

/// What compiling the file `input` to `output` reports, given what happened.
pub open spec fn file_result(
    r: CompileResult,
    input: Seq<char>,
    output: Seq<char>,
    outcome: FileCompileOutcome,
    ms: u64,
) -> bool {
    match outcome {
        FileCompileOutcome::InputMissing => failed_with(
            r,
            seq![plain_error("Input file not found: "@ + input, Some(input))],
            ms,
        ),
        FileCompileOutcome::SetupFailed { message } => failed_with(
            r,
            seq![plain_error(message@, Some(input))],
            ms,
        ),
        FileCompileOutcome::Compiled { pdf, warnings } => match pdf {
            PdfOutcome::Written { data } => {
                &&& r.success
                &&& r.output_path.deep_view() == Some(output)
                &&& r.pdf_data == Some(data)
                &&& r.errors@.len() == 0
                &&& warnings_view(r.warnings@) == warnings_for(diagnostics_view(warnings@), None)
                &&& r.compile_time_ms == ms
            },
            PdfOutcome::WriteFailed { message } => failed_with(
                r,
                seq![plain_error("Failed to write PDF: "@ + message@, None)],
                ms,
            ),
            PdfOutcome::Failed { errors } => failed_with(
                r,
                errors_for(diagnostics_view(errors@), None, true),
                ms,
            ),
        },
        FileCompileOutcome::Failed { diagnostics, warnings } => {
            &&& !r.success
            &&& r.output_path is None
            &&& r.pdf_data is None
            &&& errors_view(r.errors@) == errors_for(
                diagnostics_view(diagnostics@),
                Some(Severity::Error),
                true,
            )
            &&& warnings_view(r.warnings@) == warnings_for(
                diagnostics_view(diagnostics@),
                Some(Severity::Warning),
            ) + warnings_for(diagnostics_view(warnings@), None)
            &&& r.compile_time_ms == ms
        },
    }
}

fn single_error(message: String, file: Option<String>) -> (v: Vec<CompileError>)
    ensures
        errors_view(v@) == seq![plain_error(message@, file.deep_view())],
{
    let mut v: Vec<CompileError> = Vec::new();
    v.push(CompileError { message, file, line: None, column: None, hint: None });
    assert(errors_view(v@) =~= seq![plain_error(message@, file.deep_view())]);
    v
}

fn failure_result(errors: Vec<CompileError>, ms: u64) -> (r: CompileResult)
    ensures
        failed_with(r, errors_view(errors@), ms),
{
    CompileResult {
        success: false,
        output_path: None,
        pdf_data: None,
        errors,
        warnings: Vec::new(),
        compile_time_ms: ms,
    }
}

/// The result of compiling the file `input_path` to `output_path`, given
/// what happened and how long it took.
pub fn file_compile_result(
    input_path: String,
    output_path: String,
    outcome: FileCompileOutcome,
    compile_time_ms: u64,
) -> (r: CompileResult)
    ensures
        file_result(r, input_path@, output_path@, outcome, compile_time_ms),
{
    match outcome {
        FileCompileOutcome::InputMissing => {
            let mut message = String::from_str("Input file not found: ");
            message.append(input_path.as_str());
            failure_result(single_error(message, Some(input_path)), compile_time_ms)
        },
        FileCompileOutcome::SetupFailed { message } => {
            failure_result(single_error(message, Some(input_path)), compile_time_ms)
        },
        FileCompileOutcome::Compiled { pdf, warnings } => match pdf {
            PdfOutcome::Written { data } => {
                let mut ws: Vec<CompileWarning> = Vec::new();
                push_warnings(&mut ws, &warnings, None);
                assert(warnings_view(ws@) =~= warnings_for(diagnostics_view(warnings@), None));
                CompileResult {
                    success: true,
                    output_path: Some(output_path),
                    pdf_data: Some(data),
                    errors: Vec::new(),
                    warnings: ws,
                    compile_time_ms,
                }
            },
            PdfOutcome::WriteFailed { message } => {
                let mut text = String::from_str("Failed to write PDF: ");
                text.append(message.as_str());
                failure_result(single_error(text, None), compile_time_ms)
            },
            PdfOutcome::Failed { errors } => {
                let mut es: Vec<CompileError> = Vec::new();
                push_errors(&mut es, &errors, None, true);
                assert(errors_view(es@) =~= errors_for(diagnostics_view(errors@), None, true));
                failure_result(es, compile_time_ms)
            },
        },
        FileCompileOutcome::Failed { diagnostics, warnings } => {
            let mut es: Vec<CompileError> = Vec::new();
            push_errors(&mut es, &diagnostics, Some(Severity::Error), true);
            let mut ws: Vec<CompileWarning> = Vec::new();
            push_warnings(&mut ws, &diagnostics, Some(Severity::Warning));
            push_warnings(&mut ws, &warnings, None);
            assert(errors_view(es@) =~= errors_for(
                diagnostics_view(diagnostics@),
                Some(Severity::Error),
                true,
            ));
            assert(warnings_view(ws@) =~= warnings_for(
                diagnostics_view(diagnostics@),
                Some(Severity::Warning),
            ) + warnings_for(diagnostics_view(warnings@), None));
            CompileResult {
                success: false,
                output_path: None,
                pdf_data: None,
                errors: es,
                warnings: ws,
                compile_time_ms,
            }
        },
    }
}

/// What compiling a source held in memory reports, given what happened.
pub open spec fn source_result(r: CompileResult, outcome: SourceCompileOutcome, ms: u64) -> bool {
    match outcome {
        SourceCompileOutcome::Compiled { data, warnings } => {
            &&& r.success
            &&& r.output_path is None
            &&& r.pdf_data == Some(data)
            &&& r.errors@.len() == 0
            &&& warnings_view(r.warnings@) == warnings_for(diagnostics_view(warnings@), None)
            &&& r.compile_time_ms == ms
        },
        SourceCompileOutcome::PdfFailed { errors } => failed_with(
            r,
            errors_for(diagnostics_view(errors@), None, false),
            ms,
        ),
        SourceCompileOutcome::Failed { diagnostics } => failed_with(
            r,
            errors_for(diagnostics_view(diagnostics@), Some(Severity::Error), false),
            ms,
        ),
    }
}

/// The result of compiling a source held in memory (for live preview): the
/// PDF with the compiler's warnings, or the errors without their locations.
pub fn source_compile_result(outcome: SourceCompileOutcome, compile_time_ms: u64) -> (r: CompileResult)
    ensures
        source_result(r, outcome, compile_time_ms),
{
    match outcome {
        SourceCompileOutcome::Compiled { data, warnings } => {
            let mut ws: Vec<CompileWarning> = Vec::new();
            push_warnings(&mut ws, &warnings, None);
            assert(warnings_view(ws@) =~= warnings_for(diagnostics_view(warnings@), None));
            CompileResult {
                success: true,
                output_path: None,
                pdf_data: Some(data),
                errors: Vec::new(),
                warnings: ws,
                compile_time_ms,
            }
        },
        SourceCompileOutcome::PdfFailed { errors } => {
            let mut es: Vec<CompileError> = Vec::new();
            push_errors(&mut es, &errors, None, false);
            assert(errors_view(es@) =~= errors_for(diagnostics_view(errors@), None, false));
            failure_result(es, compile_time_ms)
        },
        SourceCompileOutcome::Failed { diagnostics } => {
            let mut es: Vec<CompileError> = Vec::new();
            push_errors(&mut es, &diagnostics, Some(Severity::Error), false);
            assert(errors_view(es@) =~= errors_for(
                diagnostics_view(diagnostics@),
                Some(Severity::Error),
                false,
            ));
            failure_result(es, compile_time_ms)
        },
    }
}

/// The file extensions of font files.
pub open spec fn is_font_extension(ext: Seq<char>) -> bool {
    ext == "ttf"@ || ext == "otf"@ || ext == "ttc"@ || ext == "otc"@ || ext == "woff"@ || ext
        == "woff2"@
}

/// A path with this extension (if it has one) is a font file.
pub fn is_font_file(extension: Option<&str>) -> (b: bool)
    ensures
        b == (extension matches Some(e) && is_font_extension(e@)),
{
    match extension {
        Some(e) => crate::text::eq_str(e, "ttf") || crate::text::eq_str(e, "otf")
            || crate::text::eq_str(e, "ttc") || crate::text::eq_str(e, "otc")
            || crate::text::eq_str(e, "woff") || crate::text::eq_str(e, "woff2"),
        None => false,
    }
}

/// The Typst version the compiler provides.
pub fn get_typst_version() -> (v: String)
    ensures
        v@ == "Typst 0.13"@,
{
    String::from_str("Typst 0.13")
}

} // verus!

verus! {

/// Law: of the diagnostics of a failed compilation, every one is reported
/// once, as an error if it is one and as a warning otherwise.
pub proof fn lemma_diagnostics_partitioned(ds: Seq<DiagnosticView>, located: bool)
    ensures
        errors_for(ds, Some(Severity::Error), located).len() + warnings_for(
            ds,
            Some(Severity::Warning),
        ).len() == ds.len(),
    decreases ds.len(),
{
    if ds.len() > 0 {
        lemma_diagnostics_partitioned(ds.drop_last(), located);
    }
}

} // verus!
