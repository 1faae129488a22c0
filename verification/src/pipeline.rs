//! The multi-pass compilation pipeline.
//!
//! A compilation is a state machine.  The machine owns every
//! decision: the size guard, the pass budget, bibliography and rerun
//! detection, the page conversion schedule, and the sanitized
//! diagnostic for every failure.  A driver outside the library
//! performs the actions the machine asks for — creating the
//! workspace, running the typesetter, the bibliography processor,
//! the page inspector and the converter — and feeds back what it
//! observed as events.  The machine never touches the filesystem or
//! spawns a process itself.

use vstd::prelude::*;

use crate::digits::{decimal_str, parse_digits, usize_to_string};
use crate::preview::Preview;
use crate::process::ProcessOutcome;
use crate::sanitize::{sanitize_paths, sanitize_spec};
use crate::text::{contains_seq, contains_str, occurs_at, to_chars};

verus! {

/// Maximum accepted source size, in bytes (10 MiB).  Larger inputs
/// are rejected before any workspace exists.
pub const MAX_LATEX_SIZE_BYTES: usize = 10485760;

/// Pass budget: no document is typeset more often than this, however
/// many rerun requests its log still carries.
pub const MAX_PASSES: usize = 3;

/// What a compilation comes to: the page images in page order, or a
/// sanitized diagnostic.
#[derive(Debug, Clone)]
pub enum CompilationResult {
    Pages(Vec<String>),
    Error(String),
}

/// Spec-level shape of a compilation result.
pub enum ResultModel {
    Pages(Seq<Seq<char>>),
    Error(Seq<char>),
}

impl View for CompilationResult {
    type V = ResultModel;

    open spec fn view(&self) -> ResultModel {
        match self {
            CompilationResult::Pages(pages) => ResultModel::Pages(pages.deep_view()),
            CompilationResult::Error(message) => ResultModel::Error(message@),
        }
    }
}

/// Spec-level shape of a process outcome.
pub enum OutcomeModel {
    Completed { stdout: Seq<char>, stderr: Seq<char>, success: bool },
    TimedOut,
    Failed { message: Seq<char> },
}

impl View for ProcessOutcome {
    type V = OutcomeModel;

    open spec fn view(&self) -> OutcomeModel {
        match self {
            ProcessOutcome::Completed { stdout, stderr, success } => OutcomeModel::Completed {
                stdout: stdout@,
                stderr: stderr@,
                success: *success,
            },
            ProcessOutcome::TimedOut => OutcomeModel::TimedOut,
            ProcessOutcome::Failed { message } => OutcomeModel::Failed { message: message@ },
        }
    }
}

/// What the driver observed after performing an action.
#[derive(Debug)]
pub enum PipelineEvent {
    /// The workspace directory exists and the source is written to
    /// `doc.tex` inside it.
    WorkspaceReady { temp_dir: String, input_path: String },
    /// The workspace could not be created or the source not written.
    WorkspaceFailed { message: String },
    /// One typesetter pass ended; `log` is the log file if it could
    /// be read, and the flags report which artifacts exist.
    TypesetterDone { outcome: ProcessOutcome, log: Option<String>, pdf_exists: bool, bcf_exists: bool },
    /// The bibliography processor ran; its failure is tolerated, so
    /// it reports nothing.
    BibliographyDone,
    /// The page inspector ran; its standard output if it ran at all.
    PagesCounted { report: Option<String> },
    /// One page conversion ended; `content` is the produced image
    /// file if it could be read.
    PageConverted { outcome: ProcessOutcome, content: Option<String> },
}

/// Spec-level shape of an event.
pub enum EventModel {
    WorkspaceReady { temp_dir: Seq<char>, input_path: Seq<char> },
    WorkspaceFailed { message: Seq<char> },
    TypesetterDone { outcome: OutcomeModel, log: Option<Seq<char>>, pdf_exists: bool, bcf_exists: bool },
    BibliographyDone,
    PagesCounted { report: Option<Seq<char>> },
    PageConverted { outcome: OutcomeModel, content: Option<Seq<char>> },
}

impl View for PipelineEvent {
    type V = EventModel;

    open spec fn view(&self) -> EventModel {
        match self {
            PipelineEvent::WorkspaceReady { temp_dir, input_path } => EventModel::WorkspaceReady {
                temp_dir: temp_dir@,
                input_path: input_path@,
            },
            PipelineEvent::WorkspaceFailed { message } => EventModel::WorkspaceFailed {
                message: message@,
            },
            PipelineEvent::TypesetterDone { outcome, log, pdf_exists, bcf_exists } => EventModel::TypesetterDone {
                outcome: outcome@,
                log: match log {
                    Some(l) => Some(l@),
                    None => None,
                },
                pdf_exists: *pdf_exists,
                bcf_exists: *bcf_exists,
            },
            PipelineEvent::BibliographyDone => EventModel::BibliographyDone,
            PipelineEvent::PagesCounted { report } => EventModel::PagesCounted {
                report: match report {
                    Some(r) => Some(r@),
                    None => None,
                },
            },
            PipelineEvent::PageConverted { outcome, content } => EventModel::PageConverted {
                outcome: outcome@,
                content: match content {
                    Some(c) => Some(c@),
                    None => None,
                },
            },
        }
    }
}

/// What the pipeline asks the driver to do next.
#[derive(Debug)]
pub enum PipelineAction {
    /// Create a fresh ephemeral directory and write the source into
    /// `doc.tex` there.
    CreateWorkspace,
    /// Run the typesetter with exactly these arguments, working
    /// directory pinned to the workspace, bounded by the timeout.
    RunTypesetter { args: Vec<String> },
    /// Run the bibliography processor on `doc` in the workspace,
    /// bounded by the timeout; its failure is tolerated.
    RunBibliography,
    /// Run the page inspector on the produced document.
    CountPages,
    /// Convert exactly this page with exactly these arguments.
    ConvertPage { page: usize, args: Vec<String> },
    /// The compilation is over; the result is available.
    Finish,
}

/// Spec-level shape of an action.
pub enum ActionModel {
    CreateWorkspace,
    RunTypesetter { args: Seq<Seq<char>> },
    RunBibliography,
    CountPages,
    ConvertPage { page: nat, args: Seq<Seq<char>> },
    Finish,
}

impl View for PipelineAction {
    type V = ActionModel;

    open spec fn view(&self) -> ActionModel {
        match self {
            PipelineAction::CreateWorkspace => ActionModel::CreateWorkspace,
            PipelineAction::RunTypesetter { args } => ActionModel::RunTypesetter {
                args: args.deep_view(),
            },
            PipelineAction::RunBibliography => ActionModel::RunBibliography,
            PipelineAction::CountPages => ActionModel::CountPages,
            PipelineAction::ConvertPage { page, args } => ActionModel::ConvertPage {
                page: *page as nat,
                args: args.deep_view(),
            },
            PipelineAction::Finish => ActionModel::Finish,
        }
    }
}

// ---------------------------------------------------------------
// Diagnostics
// ---------------------------------------------------------------

/// A byte count in hundredths of a mebibyte, rounded to the nearest
/// hundredth with ties to even — the rounding the standard
/// two-decimal float formatting applies, made exact: dividing by a
/// power of two loses nothing.
pub open spec fn mb_hundredths(len_bytes: nat) -> nat {
    let num = len_bytes * 100;
    let q = num / 1048576;
    let rem = num % 1048576;
    if 2 * rem > 1048576 {
        q + 1
    } else if 2 * rem < 1048576 {
        q
    } else if q % 2 == 1 {
        q + 1
    } else {
        q
    }
}

/// A byte count as mebibytes with two decimals, e.g. `10.00`.
pub open spec fn mb_string(len_bytes: nat) -> Seq<char> {
    let h = mb_hundredths(len_bytes);
    decimal_str(h / 100) + "."@ + decimal_str((h % 100) / 10) + decimal_str(h % 100 % 10)
}

/// Diagnostic for a source above the size limit.
pub open spec fn size_error_msg(len_bytes: nat) -> Seq<char> {
    "Document too large ("@ + mb_string(len_bytes) + " MB). Maximum allowed size is "@
        + mb_string(MAX_LATEX_SIZE_BYTES as nat) + " MB."@
}

/// Diagnostic for a workspace that could not be set up.
pub open spec fn workspace_error_msg(message: Seq<char>) -> Seq<char> {
    "Failed to create temp dir: "@ + message
}

/// The message of the bounded runner for an elapsed timeout.
pub open spec fn timeout_msg(timeout_secs: nat) -> Seq<char> {
    "Command timed out after "@ + decimal_str(timeout_secs) + " seconds"@
}

/// What a failed run reports: the runner's own message, or the
/// timeout message.
pub open spec fn run_failure_msg(outcome: OutcomeModel, timeout_secs: nat) -> Seq<char> {
    match outcome {
        OutcomeModel::TimedOut => timeout_msg(timeout_secs),
        OutcomeModel::Failed { message } => message,
        OutcomeModel::Completed { .. } => Seq::empty(),
    }
}

/// Diagnostic for a typesetter pass that could not run, before
/// sanitization.
pub open spec fn pass_failure_msg(pass: nat, message: Seq<char>) -> Seq<char> {
    "Failed to run pdflatex (Pass "@ + decimal_str(pass) + "): "@ + message
        + ". Is it installed?"@
}

/// Diagnostic for a final pass that produced no output document,
/// before sanitization.
pub open spec fn no_pdf_msg(log: Seq<char>, stderr: Seq<char>, stdout: Seq<char>) -> Seq<char> {
    "LaTeX failed to generate a PDF.\n\n--- LOG ---\n"@ + log + "\n\n--- STDERR ---\n"@ + stderr
        + "\n\n--- STDOUT ---\n"@ + stdout
}

/// Diagnostic for a converter that could not run on a page, before
/// sanitization.
pub open spec fn convert_failure_msg(page: nat, message: Seq<char>) -> Seq<char> {
    "Failed to run pdftocairo for page "@ + decimal_str(page) + ": "@ + message
        + ". Is poppler-utils installed?"@
}

/// Diagnostic for a converter that exited unsuccessfully on a page,
/// before sanitization.
pub open spec fn convert_exit_msg(page: nat, stderr: Seq<char>) -> Seq<char> {
    "pdftocairo failed to convert page "@ + decimal_str(page) + " to SVG.\n\nStderr:\n"@ + stderr
}

/// Diagnostic for a conversion round that yielded no page at all,
/// before sanitization.
pub open spec fn no_pages_msg(page_count: nat, log: Seq<char>) -> Seq<char> {
    "No SVG pages were generated (Page count was "@ + decimal_str(page_count)
        + ").\n\n--- LOG ---\n"@ + log
}

/// The placeholder log text when the log file could not be read.
pub open spec fn missing_log() -> Seq<char> {
    "No log file found"@
}

/// The log the machine records for an optional log file.
pub open spec fn log_or_placeholder(log: Option<Seq<char>>) -> Seq<char> {
    match log {
        Some(l) => l,
        None => missing_log(),
    }
}

// ---------------------------------------------------------------
// Log scanning
// ---------------------------------------------------------------

/// Whether the log asks for another typesetting pass.
pub open spec fn log_requests_rerun(log: Seq<char>) -> bool {
    ||| contains_seq(log, "Run LaTeX again"@)
    ||| contains_seq(log, "Rerun to get"@)
    ||| contains_seq(log, "Label(s) may have changed"@)
}

/// Whether the log asks for the bibliography processor.
pub open spec fn log_requests_biber(log: Seq<char>) -> bool {
    contains_seq(log, "Please (re)run Biber"@)
}

/// Scans a log for the known rerun-request phrases.
pub fn scan_log_rerun(log: &str) -> (r: bool)
    ensures
        r == log_requests_rerun(log@),
{
    let lc = to_chars(log);
    contains_str(&lc, "Run LaTeX again") || contains_str(&lc, "Rerun to get") || contains_str(
        &lc,
        "Label(s) may have changed",
    )
}

/// Scans a log for the bibliography-request phrase.
pub fn scan_log_biber(log: &str) -> (r: bool)
    ensures
        r == log_requests_biber(log@),
{
    let lc = to_chars(log);
    contains_str(&lc, "Please (re)run Biber")
}

// ---------------------------------------------------------------
// Page count
// ---------------------------------------------------------------

/// The line marker the page inspector prints before the page count.
pub open spec fn pages_marker() -> Seq<char> {
    "Pages:"@
}

/// The marker stands at `i` and opens its line.
pub open spec fn pages_marker_at(t: Seq<char>, i: int) -> bool {
    occurs_at(t, pages_marker(), i) && (i == 0 || t[i - 1] == '\n')
}

/// Leftmost line-opening marker at or after `i`.
pub open spec fn find_marker_from(t: Seq<char>, i: int) -> Option<int>
    decreases t.len() - i,
    when 0 <= i
{
    if i >= t.len() {
        None
    } else if pages_marker_at(t, i) {
        Some(i)
    } else {
        find_marker_from(t, i + 1)
    }
}

/// Whitespace inside a report line.
pub open spec fn is_line_space(c: char) -> bool {
    c == ' ' || c == '\t' || c == '\r'
}

/// First newline at or after `i`, or the end of the text: where the
/// marker's line ends.
pub open spec fn line_end_from(t: Seq<char>, i: int) -> int
    decreases t.len() - i,
    when 0 <= i
{
    if i >= t.len() {
        t.len() as int
    } else if t[i] == '\n' {
        i
    } else {
        line_end_from(t, i + 1)
    }
}

/// End of the last whitespace-delimited token in `t[i..j)`: the
/// position after its last non-space character, or `i` when the
/// stretch is all whitespace.
pub open spec fn last_token_end(t: Seq<char>, i: int, j: int) -> int
    decreases j - i,
    when i <= j
{
    if j <= i {
        i
    } else if is_line_space(t[j - 1]) {
        last_token_end(t, i, j - 1)
    } else {
        j
    }
}

/// Start of the token ending at `j`: scans left while characters are
/// not whitespace, stopping at `i`.
pub open spec fn token_start(t: Seq<char>, i: int, j: int) -> int
    decreases j - i,
    when i <= j
{
    if j <= i {
        i
    } else if is_line_space(t[j - 1]) {
        j
    } else {
        token_start(t, i, j - 1)
    }
}

/// The page count read from the inspector's report: the last
/// whitespace-delimited token of the first line that a `Pages:`
/// marker opens, when it is a plain numeral that fits; one page in
/// every other case, as a safe fallback.
pub open spec fn page_count_spec(t: Seq<char>) -> nat {
    match find_marker_from(t, 0) {
        None => 1,
        Some(i) => {
            let le = line_end_from(t, i);
            let te = last_token_end(t, i, le);
            let ts = token_start(t, i, te);
            if ts < te && (forall|k: int| ts <= k < te ==> crate::digits::is_digit(t[k]))
                && crate::digits::digits_val(t.subrange(ts, te)) <= usize::MAX {
                crate::digits::digits_val(t.subrange(ts, te))
            } else {
                1
            }
        },
    }
}

/// `find_marker_from` returns exactly the leftmost line-opening
/// marker at or after `i0`.
proof fn lemma_find_marker(t: Seq<char>, i0: int)
    requires
        0 <= i0,
    ensures
        match find_marker_from(t, i0) {
            Some(i) => {
                &&& i0 <= i
                &&& pages_marker_at(t, i)
                &&& forall|j: int| i0 <= j < i ==> !pages_marker_at(t, j)
            },
            None => forall|j: int| i0 <= j ==> !pages_marker_at(t, j),
        },
    decreases t.len() - i0,
{
    if i0 >= t.len() {
        assert forall|j: int| i0 <= j implies !pages_marker_at(t, j) by {
            reveal_strlit("Pages:");
        }
    } else if pages_marker_at(t, i0) {
    } else {
        lemma_find_marker(t, i0 + 1);
    }
}

/// Reads the page count out of the inspector's report, as
/// [`page_count_spec`] defines it.
pub fn parse_page_count(report: &str) -> (n: usize)
    ensures
        n as nat == page_count_spec(report@),
{
    let tc = to_chars(report);
    let mc = to_chars("Pages:");
    proof {
        reveal_strlit("Pages:");
    }
    let tlen: usize = tc.len();
    let mut pos: usize = 0;
    let mut marker: Option<usize> = None;
    loop
        invariant_except_break
            marker is None,
        invariant
            tc@ == report@,
            mc@ == pages_marker(),
            mc@.len() == 6,
            tlen == tc@.len(),
            pos <= tlen,
            forall|j: int| 0 <= j < pos ==> !pages_marker_at(report@, j),
        ensures
            match marker {
                None => forall|j: int| 0 <= j ==> !pages_marker_at(report@, j),
                Some(k) => {
                    &&& pages_marker_at(report@, k as int)
                    &&& k + 6 <= tlen
                    &&& forall|j: int| 0 <= j < k ==> !pages_marker_at(report@, j)
                },
            },
        decreases tlen - pos,
    {
        match crate::text::find_from(&tc, &mc, pos) {
            None => {
                proof {
                    assert forall|j: int| 0 <= j implies !pages_marker_at(report@, j) by {}
                }
                break ;
            },
            Some(k) => {
                if k == 0 || tc[k - 1] == '\n' {
                    marker = Some(k);
                    proof {
                        assert(pages_marker_at(report@, k as int));
                    }
                    break ;
                }
                proof {
                    assert(forall|j: int| 0 <= j < k + 1 ==> !pages_marker_at(report@, j));
                }
                pos = k + 1;
            },
        }
    }
    proof {
        lemma_find_marker(report@, 0);
    }
    match marker {
        None => {
            proof {
                match find_marker_from(report@, 0) {
                    None => {},
                    Some(i) => {
                        assert(!pages_marker_at(report@, i));
                    },
                }
            }
            1
        },
        Some(k) => {
            proof {
                match find_marker_from(report@, 0) {
                    None => {
                        assert(false);
                    },
                    Some(i) => {
                        if i < k {
                            assert(!pages_marker_at(report@, i));
                        }
                        assert(i == k);
                    },
                }
            }
            let mut le: usize = k;
            while le < tlen && tc[le] != '\n'
                invariant
                    tc@ == report@,
                    tlen == tc@.len(),
                    k <= le <= tlen,
                    line_end_from(report@, k as int) == line_end_from(report@, le as int),
                decreases tlen - le,
            {
                le = le + 1;
            }
            assert(line_end_from(report@, le as int) == le);
            let mut te: usize = le;
            while te > k && is_line_space_char(tc[te - 1])
                invariant
                    tc@ == report@,
                    tlen == tc@.len(),
                    k <= te <= le <= tlen,
                    last_token_end(report@, k as int, le as int) == last_token_end(
                        report@,
                        k as int,
                        te as int,
                    ),
                decreases te,
            {
                te = te - 1;
            }
            assert(last_token_end(report@, k as int, te as int) == te);
            let mut ts: usize = te;
            while ts > k && !is_line_space_char(tc[ts - 1])
                invariant
                    tc@ == report@,
                    tlen == tc@.len(),
                    k <= ts <= te <= tlen,
                    token_start(report@, k as int, te as int) == token_start(
                        report@,
                        k as int,
                        ts as int,
                    ),
                decreases ts,
            {
                ts = ts - 1;
            }
            assert(token_start(report@, k as int, ts as int) == ts);
            match parse_digits(&tc, ts, te) {
                Some(v) => v,
                None => 1,
            }
        },
    }
}

// ---------------------------------------------------------------
// Tool command lines
// ---------------------------------------------------------------

/// The typesetter's argument list: shell escape disabled before all
/// else, the optional file-access restrictions only when the
/// installed tool supports them, batch mode, output pinned to the
/// workspace, and the input file last.  The working directory is the
/// workspace as well.
pub open spec fn typesetter_args_spec(
    openin: bool,
    openout: bool,
    temp_dir: Seq<char>,
    input_path: Seq<char>,
) -> Seq<Seq<char>> {
    seq!["-no-shell-escape"@] + (if openin {
        seq!["-openin-any=p"@]
    } else {
        Seq::empty()
    }) + (if openout {
        seq!["-openout-any=p"@]
    } else {
        Seq::empty()
    }) + seq!["-interaction=nonstopmode"@, "-output-directory"@, temp_dir, input_path]
}

/// Where the typesetter leaves the output document.
pub open spec fn pdf_path_spec(temp_dir: Seq<char>) -> Seq<char> {
    temp_dir + "/doc.pdf"@
}

/// Where the converter leaves the image of `page`.
pub open spec fn svg_path_spec(temp_dir: Seq<char>, page: nat) -> Seq<char> {
    temp_dir + "/output-"@ + decimal_str(page) + ".svg"@
}

/// The converter's argument list for one page: the page bounds pin
/// the conversion to exactly that page.
pub open spec fn convert_args_spec(temp_dir: Seq<char>, page: nat) -> Seq<Seq<char>> {
    seq![
        "-svg"@,
        "-f"@,
        decimal_str(page),
        "-l"@,
        decimal_str(page),
        pdf_path_spec(temp_dir),
        svg_path_spec(temp_dir, page),
    ]
}

/// Builds the typesetter's argument list for the installed tool's
/// capabilities.
pub fn typesetter_args(temp_dir: &str, input_path: &str) -> (args: Vec<String>)
    ensures
        args.deep_view() == typesetter_args_spec(false, false, temp_dir@, input_path@),
{
    let caps = Preview::pdflatex_capabilities();
    let mut args: Vec<String> = Vec::new();
    args.push(String::from_str("-no-shell-escape"));
    if caps.supports_openin_any {
        args.push(String::from_str("-openin-any=p"));
    }
    if caps.supports_openout_any {
        args.push(String::from_str("-openout-any=p"));
    }
    args.push(String::from_str("-interaction=nonstopmode"));
    args.push(String::from_str("-output-directory"));
    args.push(String::from_str(temp_dir));
    args.push(String::from_str(input_path));
    proof {
        assert(args.deep_view() =~~= typesetter_args_spec(false, false, temp_dir@, input_path@));
    }
    args
}

/// Builds the converter's argument list for one page.
pub fn convert_args(temp_dir: &str, page: usize) -> (args: Vec<String>)
    ensures
        args.deep_view() == convert_args_spec(temp_dir@, page as nat),
{
    let page_str = usize_to_string(page);
    let mut pdf_path = String::from_str(temp_dir);
    pdf_path.append("/doc.pdf");
    let mut svg_path = String::from_str(temp_dir);
    svg_path.append("/output-");
    svg_path.append(page_str.as_str());
    svg_path.append(".svg");
    let mut args: Vec<String> = Vec::new();
    args.push(String::from_str("-svg"));
    args.push(String::from_str("-f"));
    args.push(page_str.clone());
    args.push(String::from_str("-l"));
    args.push(page_str);
    args.push(pdf_path);
    args.push(svg_path);
    proof {
        assert(args.deep_view() =~~= convert_args_spec(temp_dir@, page as nat));
    }
    args
}

// ---------------------------------------------------------------
// The machine
// ---------------------------------------------------------------

/// Where a compilation stands.
#[derive(Debug, Clone, Copy, PartialEq, Eq, Structural)]
pub enum Phase {
    /// Waiting for the workspace to exist and hold the source.
    AwaitingWorkspace,
    /// Waiting for the current typesetter pass to end.
    AwaitingTypesetter,
    /// Waiting for the bibliography processor.
    AwaitingBibliography,
    /// Waiting for the page inspector's report.
    AwaitingPageCount,
    /// Waiting for the conversion of `next_page`.
    AwaitingConversion,
    /// Over; the result is set.
    Finished,
}

/// One compilation attempt.  The driver alternates
/// [`Compilation::next_action`] and [`Compilation::step`] until the
/// action is [`PipelineAction::Finish`], then takes `result`.
#[derive(Debug)]
pub struct Compilation {
    phase: Phase,
    /// The ephemeral workspace directory; empty until it exists.
    temp_dir: String,
    /// The source file inside the workspace; empty until it exists.
    input_path: String,
    /// The running typesetter pass, counted from one.
    pass: usize,
    /// The log of the latest typesetter pass.
    last_log: String,
    /// The page count the inspector reported.
    page_count: usize,
    /// The page whose conversion is awaited, counted from one.
    next_page: usize,
    /// The page images collected so far, in page order.
    pages: Vec<String>,
    /// The outcome; set exactly in the `Finished` phase.
    result: Option<CompilationResult>,
}

/// Spec-level shape of a compilation.
#[verifier::ext_equal]
pub struct CompilationModel {
    pub phase: Phase,
    pub temp_dir: Seq<char>,
    pub input_path: Seq<char>,
    pub pass: nat,
    pub last_log: Seq<char>,
    pub page_count: nat,
    pub next_page: nat,
    pub pages: Seq<Seq<char>>,
    pub result: Option<ResultModel>,
}

impl View for Compilation {
    type V = CompilationModel;

    closed spec fn view(&self) -> CompilationModel {
        CompilationModel {
            phase: self.phase,
            temp_dir: self.temp_dir@,
            input_path: self.input_path@,
            pass: self.pass as nat,
            last_log: self.last_log@,
            page_count: self.page_count as nat,
            next_page: self.next_page as nat,
            pages: self.pages.deep_view(),
            result: match &self.result {
                Some(r) => Some(r@),
                None => None,
            },
        }
    }
}

/// The machine after a failure: finished, with the diagnostic
/// sanitized against the workspace paths it holds.
pub open spec fn fail_sanitized(s: CompilationModel, raw: Seq<char>) -> CompilationModel {
    CompilationModel {
        phase: Phase::Finished,
        result: Some(ResultModel::Error(sanitize_spec(raw, s.temp_dir, s.input_path))),
        ..s
    }
}

/// The machine right after the size check: an oversized source is
/// rejected finished, with no workspace ever requested; anything
/// else awaits its workspace.
pub open spec fn initial_spec(source: Seq<char>) -> CompilationModel {
    let base = CompilationModel {
        phase: Phase::AwaitingWorkspace,
        temp_dir: Seq::empty(),
        input_path: Seq::empty(),
        pass: 0,
        last_log: Seq::empty(),
        page_count: 0,
        next_page: 0,
        pages: Seq::empty(),
        result: None,
    };
    if vstd::utf8::encode_utf8(source).len() > MAX_LATEX_SIZE_BYTES {
        CompilationModel {
            phase: Phase::Finished,
            result: Some(
                ResultModel::Error(size_error_msg(vstd::utf8::encode_utf8(source).len())),
            ),
            ..base
        }
    } else {
        base
    }
}

/// What the machine asks of the driver in each phase.
pub open spec fn action_spec(s: CompilationModel) -> ActionModel {
    match s.phase {
        Phase::AwaitingWorkspace => ActionModel::CreateWorkspace,
        Phase::AwaitingTypesetter => ActionModel::RunTypesetter {
            args: typesetter_args_spec(false, false, s.temp_dir, s.input_path),
        },
        Phase::AwaitingBibliography => ActionModel::RunBibliography,
        Phase::AwaitingPageCount => ActionModel::CountPages,
        Phase::AwaitingConversion => ActionModel::ConvertPage {
            page: s.next_page,
            args: convert_args_spec(s.temp_dir, s.next_page),
        },
        Phase::Finished => ActionModel::Finish,
    }
}

/// The transition relation of the pipeline: how one observation
/// advances the machine.  An event that does not answer the pending
/// action changes nothing.
pub open spec fn step_spec(s: CompilationModel, e: EventModel) -> CompilationModel {
    match (s.phase, e) {
        (Phase::AwaitingWorkspace, EventModel::WorkspaceReady { temp_dir, input_path }) => (CompilationModel {
            phase: Phase::AwaitingTypesetter,
            temp_dir: temp_dir,
            input_path: input_path,
            pass: 1,
            ..s
        }),
        (Phase::AwaitingWorkspace, EventModel::WorkspaceFailed { message }) => (CompilationModel {
            phase: Phase::Finished,
            result: Some(ResultModel::Error(workspace_error_msg(message))),
            ..s
        }),
        (
            Phase::AwaitingTypesetter,
            EventModel::TypesetterDone { outcome, log, pdf_exists, bcf_exists },
        ) => {
            match outcome {
                OutcomeModel::Completed { stdout, stderr, success: _ } => {
                    let lg = log_or_placeholder(log);
                    let s1 = CompilationModel { last_log: lg, ..s };
                    if s.pass == 1 && (bcf_exists || log_requests_biber(lg)) {
                        CompilationModel { phase: Phase::AwaitingBibliography, ..s1 }
                    } else if log_requests_rerun(lg) && s.pass < MAX_PASSES {
                        CompilationModel {
                            phase: Phase::AwaitingTypesetter,
                            pass: s.pass + 1,
                            ..s1
                        }
                    } else if !pdf_exists {
                        fail_sanitized(s1, no_pdf_msg(lg, stderr, stdout))
                    } else {
                        CompilationModel { phase: Phase::AwaitingPageCount, ..s1 }
                    }
                },
                _ => fail_sanitized(
                    s,
                    pass_failure_msg(
                        s.pass,
                        run_failure_msg(outcome, crate::process::COMPILE_TIMEOUT_SECS as nat),
                    ),
                ),
            }
        },
        (Phase::AwaitingBibliography, EventModel::BibliographyDone) => (CompilationModel {
            phase: Phase::AwaitingTypesetter,
            pass: s.pass + 1,
            ..s
        }),
        (Phase::AwaitingPageCount, EventModel::PagesCounted { report }) => {
            let n = match report {
                Some(r) => page_count_spec(r),
                None => 1,
            };
            if n == 0 {
                fail_sanitized(
                    CompilationModel { page_count: 0, ..s },
                    no_pages_msg(0, s.last_log),
                )
            } else {
                CompilationModel {
                    phase: Phase::AwaitingConversion,
                    page_count: n,
                    next_page: 1,
                    pages: Seq::empty(),
                    ..s
                }
            }
        },
        (Phase::AwaitingConversion, EventModel::PageConverted { outcome, content }) => {
            match outcome {
                OutcomeModel::Completed { stdout: _, stderr, success } => {
                    if !success {
                        fail_sanitized(s, convert_exit_msg(s.next_page, stderr))
                    } else {
                        let pages1 = match content {
                            Some(c) => s.pages.push(c),
                            None => s.pages,
                        };
                        if s.next_page < s.page_count {
                            CompilationModel { next_page: s.next_page + 1, pages: pages1, ..s }
                        } else if pages1.len() == 0 {
                            fail_sanitized(s, no_pages_msg(s.page_count, s.last_log))
                        } else {
                            CompilationModel {
                                phase: Phase::Finished,
                                pages: pages1,
                                result: Some(ResultModel::Pages(pages1)),
                                ..s
                            }
                        }
                    }
                },
                _ => fail_sanitized(
                    s,
                    convert_failure_msg(
                        s.next_page,
                        run_failure_msg(outcome, crate::process::COMPILE_TIMEOUT_SECS as nat),
                    ),
                ),
            }
        },
        _ => s,
    }
}

/// Bounds the machine keeps so that its counters never overflow: the
/// pass budget is respected, and the conversion schedule stays within
/// the reported page count.  Established by [`Compilation::new`] and
/// preserved by every [`Compilation::step`].
pub open spec fn wf(s: CompilationModel) -> bool {
    &&& s.pass <= MAX_PASSES
    &&& (s.phase is AwaitingBibliography ==> s.pass < MAX_PASSES)
    &&& (s.phase is AwaitingConversion ==> 1 <= s.next_page <= s.page_count)
}

impl Compilation {
    /// Starts a compilation of `source`.  A source above
    /// [`MAX_LATEX_SIZE_BYTES`] is rejected on the spot: the machine
    /// finishes with the size diagnostic and never asks for a
    /// workspace.  Any other source, the empty one included, goes to
    /// the typesetter.
    pub fn new(source: &str) -> (c: Compilation)
        ensures
            c@ == initial_spec(source@),
            wf(c@),
    {
        let len: usize = source.as_bytes().len();
        let mut c = Compilation {
            phase: Phase::AwaitingWorkspace,
            temp_dir: String::new(),
            input_path: String::new(),
            pass: 0,
            last_log: String::new(),
            page_count: 0,
            next_page: 0,
            pages: Vec::new(),
            result: None,
        };
        if len > MAX_LATEX_SIZE_BYTES {
            let mut msg = String::from_str("Document too large (");
            msg.append(mb_amount(len).as_str());
            msg.append(" MB). Maximum allowed size is ");
            msg.append(mb_amount(MAX_LATEX_SIZE_BYTES).as_str());
            msg.append(" MB.");
            proof {
                assert(msg@ =~= size_error_msg(vstd::utf8::encode_utf8(source@).len()));
            }
            c.phase = Phase::Finished;
            c.result = Some(CompilationResult::Error(msg));
        }
        proof {
            assert(c@ =~~= initial_spec(source@));
        }
        c
    }

    /// What the driver must do next; a function of the current state
    /// alone.
    pub fn next_action(&self) -> (a: PipelineAction)
        ensures
            a@ == action_spec(self@),
    {
        let a = match self.phase {
            Phase::AwaitingWorkspace => PipelineAction::CreateWorkspace,
            Phase::AwaitingTypesetter => PipelineAction::RunTypesetter {
                args: typesetter_args(self.temp_dir.as_str(), self.input_path.as_str()),
            },
            Phase::AwaitingBibliography => PipelineAction::RunBibliography,
            Phase::AwaitingPageCount => PipelineAction::CountPages,
            Phase::AwaitingConversion => PipelineAction::ConvertPage {
                page: self.next_page,
                args: convert_args(self.temp_dir.as_str(), self.next_page),
            },
            Phase::Finished => PipelineAction::Finish,
        };
        proof {
            assert(a@ =~~= action_spec(self@));
        }
        a
    }

    /// The finished result, taken out of the machine.
    pub fn take_result(&mut self) -> (r: Option<CompilationResult>)
        ensures
            match r {
                Some(res) => old(self)@.result == Some(res@),
                None => old(self)@.result is None,
            },
            final(self)@ == (CompilationModel { result: None, ..old(self)@ }),
    {
        let r = self.result.take();
        proof {
            assert(final(self)@ =~~= (CompilationModel { result: None, ..old(self)@ }));
        }
        r
    }

    /// Finishes with the diagnostic `raw`, sanitized against the
    /// workspace paths the machine holds.
    fn fail_with(&mut self, raw: &str)
        ensures
            final(self)@ == fail_sanitized(old(self)@, raw@),
    {
        let msg = sanitize_paths(raw, self.temp_dir.as_str(), self.input_path.as_str());
        self.phase = Phase::Finished;
        self.result = Some(CompilationResult::Error(msg));
        proof {
            assert(final(self)@ =~~= fail_sanitized(old(self)@, raw@));
        }
    }

    /// Advances the machine by one observation.  An event that does
    /// not answer the pending action changes nothing.
    pub fn step(&mut self, event: PipelineEvent)
        requires
            wf(old(self)@),
        ensures
            final(self)@ == step_spec(old(self)@, event@),
            wf(final(self)@),
    {
        let ghost ev = event@;
        let ghost s0 = self@;
        match (self.phase, event) {
            (Phase::AwaitingWorkspace, PipelineEvent::WorkspaceReady { temp_dir, input_path }) => {
                self.phase = Phase::AwaitingTypesetter;
                self.temp_dir = temp_dir;
                self.input_path = input_path;
                self.pass = 1;
                proof {
                    assert(final(self)@ =~~= step_spec(s0, ev));
                }
            },
            (Phase::AwaitingWorkspace, PipelineEvent::WorkspaceFailed { message }) => {
                let mut msg = String::from_str("Failed to create temp dir: ");
                msg.append(message.as_str());
                self.phase = Phase::Finished;
                self.result = Some(CompilationResult::Error(msg));
                proof {
                    assert(final(self)@ =~~= step_spec(s0, ev));
                }
            },
            (
                Phase::AwaitingTypesetter,
                PipelineEvent::TypesetterDone { outcome, log, pdf_exists, bcf_exists },
            ) => {
                match outcome {
                    ProcessOutcome::Completed { stdout, stderr, success: _ } => {
                        let lg: String = match log {
                            Some(l) => l,
                            None => String::from_str("No log file found"),
                        };
                        let run_biber = self.pass == 1 && (bcf_exists || scan_log_biber(
                            lg.as_str(),
                        ));
                        let rerun = scan_log_rerun(lg.as_str());
                        self.last_log = lg;
                        if run_biber {
                            self.phase = Phase::AwaitingBibliography;
                            proof {
                                assert(final(self)@ =~~= step_spec(s0, ev));
                            }
                        } else if rerun && self.pass < MAX_PASSES {
                            self.pass = self.pass + 1;
                            proof {
                                assert(final(self)@ =~~= step_spec(s0, ev));
                            }
                        } else if !pdf_exists {
                            let mut raw = String::from_str(
                                "LaTeX failed to generate a PDF.\n\n--- LOG ---\n",
                            );
                            raw.append(self.last_log.as_str());
                            raw.append("\n\n--- STDERR ---\n");
                            raw.append(stderr.as_str());
                            raw.append("\n\n--- STDOUT ---\n");
                            raw.append(stdout.as_str());
                            self.fail_with(raw.as_str());
                            proof {
                                assert(final(self)@ =~~= step_spec(s0, ev));
                            }
                        } else {
                            self.phase = Phase::AwaitingPageCount;
                            proof {
                                assert(final(self)@ =~~= step_spec(s0, ev));
                            }
                        }
                    },
                    ProcessOutcome::TimedOut => {
                        let raw = build_pass_failure(self.pass, build_timeout_msg().as_str());
                        self.fail_with(raw.as_str());
                        proof {
                            assert(final(self)@ =~~= step_spec(s0, ev));
                        }
                    },
                    ProcessOutcome::Failed { message } => {
                        let raw = build_pass_failure(self.pass, message.as_str());
                        self.fail_with(raw.as_str());
                        proof {
                            assert(final(self)@ =~~= step_spec(s0, ev));
                        }
                    },
                }
            },
            (Phase::AwaitingBibliography, PipelineEvent::BibliographyDone) => {
                self.pass = self.pass + 1;
                self.phase = Phase::AwaitingTypesetter;
                proof {
                    assert(final(self)@ =~~= step_spec(s0, ev));
                }
            },
            (Phase::AwaitingPageCount, PipelineEvent::PagesCounted { report }) => {
                let n: usize = match report {
                    Some(r) => parse_page_count(r.as_str()),
                    None => 1,
                };
                self.page_count = n;
                if n == 0 {
                    let raw = build_no_pages(0, self.last_log.as_str());
                    self.fail_with(raw.as_str());
                    proof {
                        assert(final(self)@ =~~= step_spec(s0, ev));
                    }
                } else {
                    self.phase = Phase::AwaitingConversion;
                    self.next_page = 1;
                    self.pages = Vec::new();
                    proof {
                        assert(final(self)@ =~~= step_spec(s0, ev));
                    }
                }
            },
            (Phase::AwaitingConversion, PipelineEvent::PageConverted { outcome, content }) => {
                match outcome {
                    ProcessOutcome::Completed { stdout: _, stderr, success } => {
                        if !success {
                            let raw = build_convert_exit(self.next_page, stderr.as_str());
                            self.fail_with(raw.as_str());
                            proof {
                                assert(final(self)@ =~~= step_spec(s0, ev));
                            }
                        } else {
                            match content {
                                Some(c) => self.pages.push(c),
                                None => {},
                            }
                            proof {
                                assert(self.pages.deep_view() =~~= (match ev {
                                    EventModel::PageConverted { outcome: _, content } => match content {
                                        Some(cc) => s0.pages.push(cc),
                                        None => s0.pages,
                                    },
                                    _ => s0.pages,
                                }));
                            }
                            if self.next_page < self.page_count {
                                self.next_page = self.next_page + 1;
                                proof {
                                    assert(final(self)@ =~~= step_spec(s0, ev));
                                }
                            } else if self.pages.len() == 0 {
                                let raw = build_no_pages(self.page_count, self.last_log.as_str());
                                self.fail_with(raw.as_str());
                                proof {
                                    assert(final(self)@ =~~= step_spec(s0, ev));
                                }
                            } else {
                                let pgs = clone_strings(&self.pages);
                                self.phase = Phase::Finished;
                                self.result = Some(CompilationResult::Pages(pgs));
                                proof {
                                    assert(final(self)@ =~~= step_spec(s0, ev));
                                }
                            }
                        }
                    },
                    ProcessOutcome::TimedOut => {
                        let raw = build_convert_failure(
                            self.next_page,
                            build_timeout_msg().as_str(),
                        );
                        self.fail_with(raw.as_str());
                        proof {
                            assert(final(self)@ =~~= step_spec(s0, ev));
                        }
                    },
                    ProcessOutcome::Failed { message } => {
                        let raw = build_convert_failure(self.next_page, message.as_str());
                        self.fail_with(raw.as_str());
                        proof {
                            assert(final(self)@ =~~= step_spec(s0, ev));
                        }
                    },
                }
            },
            (_, _) => {
                proof {
                    assert(final(self)@ =~~= step_spec(s0, ev));
                }
            },
        }
    }
}

/// Renders a byte count as mebibytes with two decimals.
fn mb_amount(len: usize) -> (r: String)
    ensures
        r@ == mb_string(len as nat),
{
    let num: u128 = (len as u128) * 100;
    let q: u128 = num / 1048576;
    let rem: u128 = num % 1048576;
    let h128: u128 = if 2 * rem > 1048576 {
        q + 1
    } else if 2 * rem < 1048576 {
        q
    } else if q % 2 == 1 {
        q + 1
    } else {
        q
    };
    proof {
        let l = len as int;
        vstd::arithmetic::div_mod::lemma_fundamental_div_mod(l * 100, 1048576);
        assert(q <= l) by (nonlinear_arith)
            requires
                l >= 0,
                l * 100 == 1048576 * ((l * 100) / 1048576) + (l * 100) % 1048576,
                (l * 100) % 1048576 >= 0,
                q == (l * 100) / 1048576,
        ;
        if h128 == q + 1 {
            assert(q < l) by (nonlinear_arith)
                requires
                    l >= 0,
                    l * 100 == 1048576 * ((l * 100) / 1048576) + (l * 100) % 1048576,
                    2 * ((l * 100) % 1048576) >= 1048576,
                    q == (l * 100) / 1048576,
            ;
        }
    }
    let h: usize = h128 as usize;
    let mut out = usize_to_string(h / 100);
    out.append(".");
    out.append(usize_to_string((h % 100) / 10).as_str());
    out.append(usize_to_string(h % 100 % 10).as_str());
    proof {
        assert(out@ =~= mb_string(len as nat));
    }
    out
}

/// The bounded runner's message for an elapsed timeout.
fn build_timeout_msg() -> (r: String)
    ensures
        r@ == timeout_msg(crate::process::COMPILE_TIMEOUT_SECS as nat),
{
    let mut out = String::from_str("Command timed out after ");
    out.append(usize_to_string(30).as_str());
    out.append(" seconds");
    proof {
        assert(out@ =~= timeout_msg(crate::process::COMPILE_TIMEOUT_SECS as nat));
    }
    out
}

/// The diagnostic for a typesetter pass that could not run.
fn build_pass_failure(pass: usize, message: &str) -> (r: String)
    ensures
        r@ == pass_failure_msg(pass as nat, message@),
{
    let mut out = String::from_str("Failed to run pdflatex (Pass ");
    out.append(usize_to_string(pass).as_str());
    out.append("): ");
    out.append(message);
    out.append(". Is it installed?");
    proof {
        assert(out@ =~= pass_failure_msg(pass as nat, message@));
    }
    out
}

/// The diagnostic for a converter that could not run on a page.
fn build_convert_failure(page: usize, message: &str) -> (r: String)
    ensures
        r@ == convert_failure_msg(page as nat, message@),
{
    let mut out = String::from_str("Failed to run pdftocairo for page ");
    out.append(usize_to_string(page).as_str());
    out.append(": ");
    out.append(message);
    out.append(". Is poppler-utils installed?");
    proof {
        assert(out@ =~= convert_failure_msg(page as nat, message@));
    }
    out
}

/// The diagnostic for a converter that exited unsuccessfully.
fn build_convert_exit(page: usize, stderr: &str) -> (r: String)
    ensures
        r@ == convert_exit_msg(page as nat, stderr@),
{
    let mut out = String::from_str("pdftocairo failed to convert page ");
    out.append(usize_to_string(page).as_str());
    out.append(" to SVG.\n\nStderr:\n");
    out.append(stderr);
    proof {
        assert(out@ =~= convert_exit_msg(page as nat, stderr@));
    }
    out
}

/// The diagnostic for a conversion round that yielded no page.
fn build_no_pages(page_count: usize, log: &str) -> (r: String)
    ensures
        r@ == no_pages_msg(page_count as nat, log@),
{
    let mut out = String::from_str("No SVG pages were generated (Page count was ");
    out.append(usize_to_string(page_count).as_str());
    out.append(").\n\n--- LOG ---\n");
    out.append(log);
    proof {
        assert(out@ =~= no_pages_msg(page_count as nat, log@));
    }
    out
}

/// An element-by-element copy of the collected pages.
fn clone_strings(v: &Vec<String>) -> (r: Vec<String>)
    ensures
        r.deep_view() == v.deep_view(),
{
    let mut r: Vec<String> = Vec::new();
    let mut i: usize = 0;
    while i < v.len()
        invariant
            i <= v@.len(),
            r@.len() == i,
            forall|k: int| 0 <= k < i ==> r@[k]@ == #[trigger] v@[k]@,
        decreases v@.len() - i,
    {
        r.push(v[i].clone());
        i = i + 1;
    }
    proof {
        assert(r.deep_view() =~~= v.deep_view());
    }
    r
}

// ---------------------------------------------------------------
// Laws of whole runs
// ---------------------------------------------------------------

/// The machine after a sequence of observations.
pub open spec fn run_spec(s: CompilationModel, events: Seq<EventModel>) -> CompilationModel
    decreases events.len(),
{
    if events.len() == 0 {
        s
    } else {
        run_spec(step_spec(s, events[0]), events.skip(1))
    }
}

/// A finished machine never moves again.
pub proof fn lemma_finished_absorbing(s: CompilationModel, events: Seq<EventModel>)
    requires
        s.phase is Finished,
    ensures
        run_spec(s, events) == s,
    decreases events.len(),
{
    if events.len() > 0 {
        lemma_finished_absorbing(step_spec(s, events[0]), events.skip(1));
    }
}

/// An oversized source is rejected outright: the machine is born
/// finished with the size diagnostic, and under no sequence of
/// observations does it ever ask for a workspace.
pub proof fn lemma_size_limit_no_workspace(source: Seq<char>, events: Seq<EventModel>)
    requires
        vstd::utf8::encode_utf8(source).len() > MAX_LATEX_SIZE_BYTES,
    ensures
        initial_spec(source).phase is Finished,
        initial_spec(source).result == Some(
            ResultModel::Error(size_error_msg(vstd::utf8::encode_utf8(source).len())),
        ),
        action_spec(run_spec(initial_spec(source), events)) is Finish,
{
    lemma_finished_absorbing(initial_spec(source), events);
}

/// Given a deterministic toolchain — the same source provoking the
/// same observations — compiling twice comes to the same result,
/// page for page.
pub proof fn lemma_compile_deterministic(
    source_a: Seq<char>,
    source_b: Seq<char>,
    events_a: Seq<EventModel>,
    events_b: Seq<EventModel>,
)
    requires
        source_a == source_b,
        events_a == events_b,
    ensures
        run_spec(initial_spec(source_a), events_a) == run_spec(initial_spec(source_b), events_b),
{
}

/// The result is set exactly when the machine is finished.
pub open spec fn result_tied(s: CompilationModel) -> bool {
    s.result is Some <==> s.phase is Finished
}

/// A set diagnostic is clean: whenever the machine's workspace paths
/// have the shape real workspaces have, neither occurs in it.
pub open spec fn diag_clean(s: CompilationModel) -> bool {
    match s.result {
        Some(ResultModel::Error(m)) => crate::sanitize::paths_ok(s.temp_dir, s.input_path) ==> !contains_seq(
            m,
            s.temp_dir,
        ) && !contains_seq(m, s.input_path),
        _ => true,
    }
}

/// While the workspace is still awaited, the machine holds no
/// workspace paths.
pub open spec fn ws_fresh(s: CompilationModel) -> bool {
    s.phase is AwaitingWorkspace ==> s.temp_dir.len() == 0
}

/// One step preserves all three: a new diagnostic is always the
/// sanitized form of its raw text, against the very paths the
/// machine holds.
proof fn lemma_step_keeps_diag_clean(s: CompilationModel, e: EventModel)
    requires
        result_tied(s),
        diag_clean(s),
        ws_fresh(s),
    ensures
        result_tied(step_spec(s, e)),
        diag_clean(step_spec(s, e)),
        ws_fresh(step_spec(s, e)),
{
    let timeout = crate::process::COMPILE_TIMEOUT_SECS as nat;
    if crate::sanitize::paths_ok(s.temp_dir, s.input_path) {
        match (s.phase, e) {
            (
                Phase::AwaitingTypesetter,
                EventModel::TypesetterDone { outcome, log, pdf_exists, bcf_exists },
            ) => {
                match outcome {
                    OutcomeModel::Completed { stdout, stderr, success: _ } => {
                        let lg = log_or_placeholder(log);
                        crate::sanitize::lemma_sanitize_hides_paths(
                            no_pdf_msg(lg, stderr, stdout),
                            s.temp_dir,
                            s.input_path,
                        );
                    },
                    _ => {
                        crate::sanitize::lemma_sanitize_hides_paths(
                            pass_failure_msg(s.pass, run_failure_msg(outcome, timeout)),
                            s.temp_dir,
                            s.input_path,
                        );
                    },
                }
            },
            (Phase::AwaitingPageCount, EventModel::PagesCounted { report: _ }) => {
                crate::sanitize::lemma_sanitize_hides_paths(
                    no_pages_msg(0, s.last_log),
                    s.temp_dir,
                    s.input_path,
                );
            },
            (Phase::AwaitingConversion, EventModel::PageConverted { outcome, content: _ }) => {
                match outcome {
                    OutcomeModel::Completed { stdout: _, stderr, success: _ } => {
                        crate::sanitize::lemma_sanitize_hides_paths(
                            convert_exit_msg(s.next_page, stderr),
                            s.temp_dir,
                            s.input_path,
                        );
                        crate::sanitize::lemma_sanitize_hides_paths(
                            no_pages_msg(s.page_count, s.last_log),
                            s.temp_dir,
                            s.input_path,
                        );
                    },
                    _ => {
                        crate::sanitize::lemma_sanitize_hides_paths(
                            convert_failure_msg(s.next_page, run_failure_msg(outcome, timeout)),
                            s.temp_dir,
                            s.input_path,
                        );
                    },
                }
            },
            _ => {},
        }
    }
}

/// Sanitization law of whole runs: whatever the toolchain does, a
/// run that ends in a diagnostic leaks neither the workspace
/// directory nor the input path, for the path shapes real workspaces
/// have.
pub proof fn lemma_run_diagnostics_sanitized(source: Seq<char>, events: Seq<EventModel>)
    ensures
        result_tied(run_spec(initial_spec(source), events)),
        diag_clean(run_spec(initial_spec(source), events)),
{
    lemma_run_invariants(initial_spec(source), events);
}

/// The three run invariants, from any state that has them.
proof fn lemma_run_invariants(s: CompilationModel, events: Seq<EventModel>)
    requires
        result_tied(s),
        diag_clean(s),
        ws_fresh(s),
    ensures
        result_tied(run_spec(s, events)),
        diag_clean(run_spec(s, events)),
        ws_fresh(run_spec(s, events)),
    decreases events.len(),
{
    if events.len() > 0 {
        lemma_step_keeps_diag_clean(s, events[0]);
        lemma_run_invariants(step_spec(s, events[0]), events.skip(1));
    }
}

/// One observation keeps the machine within its bounds.
pub proof fn lemma_step_keeps_wf(s: CompilationModel, e: EventModel)
    requires
        wf(s),
    ensures
        wf(step_spec(s, e)),
{
}

/// Pass-budget law: however the toolchain behaves, the machine never
/// schedules a typesetter pass beyond [`MAX_PASSES`] — partial
/// output is preferred over unbounded compilation time.
pub proof fn lemma_run_within_pass_budget(source: Seq<char>, events: Seq<EventModel>)
    ensures
        wf(run_spec(initial_spec(source), events)),
        run_spec(initial_spec(source), events).pass <= MAX_PASSES,
{
    lemma_run_keeps_wf(initial_spec(source), events);
}

/// The bounds hold along any run that starts within them.
proof fn lemma_run_keeps_wf(s: CompilationModel, events: Seq<EventModel>)
    requires
        wf(s),
    ensures
        wf(run_spec(s, events)),
    decreases events.len(),
{
    if events.len() > 0 {
        lemma_step_keeps_wf(s, events[0]);
        lemma_run_keeps_wf(step_spec(s, events[0]), events.skip(1));
    }
}

/// The observations of a conversion round in which the converter
/// succeeds on every page and every page file is read.
pub open spec fn conversion_events(contents: Seq<Seq<char>>) -> Seq<EventModel> {
    Seq::new(
        contents.len(),
        |i: int|
            EventModel::PageConverted {
                outcome: OutcomeModel::Completed {
                    stdout: Seq::empty(),
                    stderr: Seq::empty(),
                    success: true,
                },
                content: Some(contents[i]),
            },
    )
}

/// A clean conversion round collects exactly one image per remaining
/// page, appended in ascending page order.
pub proof fn lemma_conversion_collects_pages(s: CompilationModel, contents: Seq<Seq<char>>)
    requires
        s.phase is AwaitingConversion,
        1 <= s.next_page <= s.page_count,
        s.next_page + contents.len() == s.page_count + 1,
    ensures
        run_spec(s, conversion_events(contents)).phase is Finished,
        run_spec(s, conversion_events(contents)).result == Some(
            ResultModel::Pages(s.pages + contents),
        ),
    decreases contents.len(),
{
    let events = conversion_events(contents);
    let s1 = step_spec(s, events[0]);
    if contents.len() == 1 {
        assert(s.next_page == s.page_count);
        assert(s1.phase is Finished);
        assert(s.pages.push(contents[0]) =~= s.pages + contents);
        lemma_finished_absorbing(s1, events.skip(1));
    } else {
        assert(s.next_page < s.page_count);
        assert(s1.phase is AwaitingConversion);
        assert(s1.pages == s.pages.push(contents[0]));
        assert(events.skip(1) =~= conversion_events(contents.skip(1)));
        lemma_conversion_collects_pages(s1, contents.skip(1));
        assert(s.pages.push(contents[0]) + contents.skip(1) =~= s.pages + contents);
    }
}

/// Success law: when the inspector reports `n` pages and every one
/// of the `n` conversions succeeds, the machine finishes with
/// exactly those `n` images as its pages, in ascending page order.
pub proof fn lemma_successful_run_yields_pages(
    s: CompilationModel,
    report: Seq<char>,
    contents: Seq<Seq<char>>,
)
    requires
        s.phase is AwaitingPageCount,
        page_count_spec(report) == contents.len(),
        contents.len() >= 1,
    ensures
        ({
            let events = seq![EventModel::PagesCounted { report: Some(report) }]
                + conversion_events(contents);
            &&& run_spec(s, events).phase is Finished
            &&& run_spec(s, events).result == Some(ResultModel::Pages(contents))
        }),
{
    let events = seq![EventModel::PagesCounted { report: Some(report) }] + conversion_events(
        contents,
    );
    let s1 = step_spec(s, events[0]);
    assert(s1.phase is AwaitingConversion);
    assert(s1.next_page == 1 && s1.page_count == contents.len());
    assert(events.skip(1) =~= conversion_events(contents));
    lemma_conversion_collects_pages(s1, contents);
    assert(s1.pages + contents =~= contents);
}

/// Whitespace inside a report line, decided on a character.
fn is_line_space_char(c: char) -> (r: bool)
    ensures
        r == is_line_space(c),
{
    c == ' ' || c == '\t' || c == '\r'
}

} // verus!
