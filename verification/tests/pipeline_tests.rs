use latex_preview::pipeline::{
    parse_page_count, typesetter_args, convert_args, Compilation, CompilationResult,
    PipelineAction, PipelineEvent, MAX_LATEX_SIZE_BYTES,
};
use latex_preview::process::ProcessOutcome;

fn completed(success: bool) -> ProcessOutcome {
    ProcessOutcome::Completed { stdout: String::new(), stderr: String::new(), success }
}

#[test]
fn test_oversized_source_rejected_without_workspace() {
    let big = "x".repeat(MAX_LATEX_SIZE_BYTES + 1);
    let mut c = Compilation::new(&big);
    assert!(matches!(c.next_action(), PipelineAction::Finish));
    match c.take_result() {
        Some(CompilationResult::Error(msg)) => {
            assert_eq!(msg, "Document too large (10.00 MB). Maximum allowed size is 10.00 MB.");
        },
        other => panic!("expected a size error, got {:?}", other),
    }
}

fn size_message_for(len: usize) -> String {
    let big = "x".repeat(len);
    let mut c = Compilation::new(&big);
    match c.take_result() {
        Some(CompilationResult::Error(msg)) => msg,
        other => panic!("expected a size error, got {:?}", other),
    }
}

#[test]
fn test_size_diagnostic_rounds_to_two_decimals() {
    // 11586765 bytes are just over 11.05 MB
    assert_eq!(
        size_message_for(11586765),
        "Document too large (11.05 MB). Maximum allowed size is 10.00 MB."
    );
}

#[test]
fn test_size_diagnostic_rounds_ties_to_even() {
    // 10616832 bytes are exactly 10.125 MB: the tie rounds down to
    // the even hundredth
    assert_eq!(
        size_message_for(10616832),
        "Document too large (10.12 MB). Maximum allowed size is 10.00 MB."
    );
    // 10878976 bytes are exactly 10.375 MB: this tie rounds up
    assert_eq!(
        size_message_for(10878976),
        "Document too large (10.38 MB). Maximum allowed size is 10.00 MB."
    );
}

#[test]
fn test_source_at_limit_accepted() {
    let big = "x".repeat(MAX_LATEX_SIZE_BYTES);
    let c = Compilation::new(&big);
    assert!(matches!(c.next_action(), PipelineAction::CreateWorkspace));
}

#[test]
fn test_empty_source_fails_without_pdf_not_crash() {
    let mut c = Compilation::new("");
    assert!(matches!(c.next_action(), PipelineAction::CreateWorkspace));
    c.step(PipelineEvent::WorkspaceReady {
        temp_dir: "/tmp/wsempty".to_string(),
        input_path: "/tmp/wsempty/doc.tex".to_string(),
    });
    c.step(PipelineEvent::TypesetterDone {
        outcome: completed(false),
        log: Some("! Emergency stop.\nNo pages of output.".to_string()),
        pdf_exists: false,
        bcf_exists: false,
    });
    match c.take_result() {
        Some(CompilationResult::Error(msg)) => {
            assert!(msg.contains("LaTeX failed to generate a PDF."));
        },
        other => panic!("expected a diagnostic, got {:?}", other),
    }
}

#[test]
fn test_malformed_source_diagnostic_has_log_and_no_paths() {
    let mut c = Compilation::new("\\documentclass{article}\\begin{document}\\badmacro");
    c.step(PipelineEvent::WorkspaceReady {
        temp_dir: "/tmp/ws777".to_string(),
        input_path: "/tmp/ws777/doc.tex".to_string(),
    });
    c.step(PipelineEvent::TypesetterDone {
        outcome: completed(false),
        log: Some(
            "This is pdfTeX\n(/tmp/ws777/doc.tex\n! Undefined control sequence.\nl.1 \\badmacro"
                .to_string(),
        ),
        pdf_exists: false,
        bcf_exists: false,
    });
    match c.take_result() {
        Some(CompilationResult::Error(msg)) => {
            assert!(msg.contains("--- LOG ---"));
            assert!(msg.contains("! Undefined control sequence."));
            assert!(!msg.contains("/tmp/ws777"));
            assert!(msg.contains("[TEMP_DIR]/doc.tex"));
        },
        other => panic!("expected a diagnostic, got {:?}", other),
    }
}

#[test]
fn test_spawn_failure_diagnostic_sanitized() {
    let mut c = Compilation::new("\\documentclass{article}");
    c.step(PipelineEvent::WorkspaceReady {
        temp_dir: "/tmp/ws888".to_string(),
        input_path: "/tmp/ws888/doc.tex".to_string(),
    });
    c.step(PipelineEvent::TypesetterDone {
        outcome: ProcessOutcome::Failed {
            message: "Failed to spawn command: /tmp/ws888 missing binary".to_string(),
        },
        log: None,
        pdf_exists: false,
        bcf_exists: false,
    });
    match c.take_result() {
        Some(CompilationResult::Error(msg)) => {
            assert!(msg.contains("Failed to run pdflatex (Pass 1)"));
            assert!(msg.contains("Is it installed?"));
            assert!(!msg.contains("/tmp/ws888"));
        },
        other => panic!("expected a diagnostic, got {:?}", other),
    }
}

#[test]
fn test_timeout_diagnostic() {
    let mut c = Compilation::new("doc");
    c.step(PipelineEvent::WorkspaceReady {
        temp_dir: "/tmp/ws9".to_string(),
        input_path: "/tmp/ws9/doc.tex".to_string(),
    });
    c.step(PipelineEvent::TypesetterDone {
        outcome: ProcessOutcome::TimedOut,
        log: None,
        pdf_exists: false,
        bcf_exists: false,
    });
    match c.take_result() {
        Some(CompilationResult::Error(msg)) => {
            assert!(msg.contains("Command timed out after 30 seconds"));
        },
        other => panic!("expected a diagnostic, got {:?}", other),
    }
}

#[test]
fn test_bibliography_forces_rerun() {
    let mut c = Compilation::new("doc with bibliography");
    c.step(PipelineEvent::WorkspaceReady {
        temp_dir: "/tmp/wsb".to_string(),
        input_path: "/tmp/wsb/doc.tex".to_string(),
    });
    c.step(PipelineEvent::TypesetterDone {
        outcome: completed(true),
        log: Some("Please (re)run Biber on the file: doc".to_string()),
        pdf_exists: false,
        bcf_exists: false,
    });
    assert!(matches!(c.next_action(), PipelineAction::RunBibliography));
    c.step(PipelineEvent::BibliographyDone);
    assert!(matches!(c.next_action(), PipelineAction::RunTypesetter { .. }));
}

#[test]
fn test_rerun_budget_is_three_passes() {
    let mut c = Compilation::new("doc with labels");
    c.step(PipelineEvent::WorkspaceReady {
        temp_dir: "/tmp/wsr".to_string(),
        input_path: "/tmp/wsr/doc.tex".to_string(),
    });
    // every pass keeps asking for a rerun; the pdf exists each time
    for _ in 0..3 {
        assert!(matches!(c.next_action(), PipelineAction::RunTypesetter { .. }));
        c.step(PipelineEvent::TypesetterDone {
            outcome: completed(true),
            log: Some("Label(s) may have changed. Rerun to get cross-references right.".to_string()),
            pdf_exists: true,
            bcf_exists: false,
        });
    }
    // the budget is exhausted: the machine moves on regardless
    assert!(matches!(c.next_action(), PipelineAction::CountPages));
}

#[test]
fn test_converter_exit_failure_diagnostic() {
    let mut c = Compilation::new("doc");
    c.step(PipelineEvent::WorkspaceReady {
        temp_dir: "/tmp/wsc".to_string(),
        input_path: "/tmp/wsc/doc.tex".to_string(),
    });
    c.step(PipelineEvent::TypesetterDone {
        outcome: completed(true),
        log: Some("fine".to_string()),
        pdf_exists: true,
        bcf_exists: false,
    });
    c.step(PipelineEvent::PagesCounted { report: Some("Pages: 1\n".to_string()) });
    c.step(PipelineEvent::PageConverted {
        outcome: ProcessOutcome::Completed {
            stdout: String::new(),
            stderr: "Syntax Error in /tmp/wsc/doc.pdf".to_string(),
            success: false,
        },
        content: None,
    });
    match c.take_result() {
        Some(CompilationResult::Error(msg)) => {
            assert!(msg.contains("pdftocairo failed to convert page 1 to SVG."));
            assert!(!msg.contains("/tmp/wsc"));
        },
        other => panic!("expected a diagnostic, got {:?}", other),
    }
}

#[test]
fn test_no_pages_produced_diagnostic() {
    let mut c = Compilation::new("doc");
    c.step(PipelineEvent::WorkspaceReady {
        temp_dir: "/tmp/wsn".to_string(),
        input_path: "/tmp/wsn/doc.tex".to_string(),
    });
    c.step(PipelineEvent::TypesetterDone {
        outcome: completed(true),
        log: Some("ok".to_string()),
        pdf_exists: true,
        bcf_exists: false,
    });
    c.step(PipelineEvent::PagesCounted { report: Some("Pages: 1\n".to_string()) });
    // the converter succeeds but its output file cannot be read
    c.step(PipelineEvent::PageConverted { outcome: completed(true), content: None });
    match c.take_result() {
        Some(CompilationResult::Error(msg)) => {
            assert!(msg.contains("No SVG pages were generated (Page count was 1)."));
        },
        other => panic!("expected a diagnostic, got {:?}", other),
    }
}

#[test]
fn test_parse_page_count_reads_marker_line() {
    assert_eq!(parse_page_count("Title: doc\nPages:          57\nEncrypted: no\n"), 57);
    assert_eq!(parse_page_count("Pages: 2\n"), 2);
    // the count is the line's last whitespace-delimited token
    assert_eq!(parse_page_count("Pages:   7   \n"), 7);
}

#[test]
fn test_parse_page_count_defaults_to_one() {
    assert_eq!(parse_page_count(""), 1);
    assert_eq!(parse_page_count("no such line"), 1);
    assert_eq!(parse_page_count("Pages: many\n"), 1);
    // a count glued to the marker is one token with it
    assert_eq!(parse_page_count("Pages:12\n"), 1);
    // the marker must open its line
    assert_eq!(parse_page_count("XPages: 4\n"), 1);
    assert_eq!(parse_page_count("XPages: 4\nPages: 3\n"), 3);
}

#[test]
fn test_typesetter_args_disable_shell_escape() {
    let args = typesetter_args("/tmp/w", "/tmp/w/doc.tex");
    assert_eq!(
        args,
        vec![
            "-no-shell-escape".to_string(),
            "-interaction=nonstopmode".to_string(),
            "-output-directory".to_string(),
            "/tmp/w".to_string(),
            "/tmp/w/doc.tex".to_string(),
        ]
    );
}

#[test]
fn test_convert_args_bound_one_page() {
    let args = convert_args("/tmp/w", 3);
    assert_eq!(
        args,
        vec![
            "-svg".to_string(),
            "-f".to_string(),
            "3".to_string(),
            "-l".to_string(),
            "3".to_string(),
            "/tmp/w/doc.pdf".to_string(),
            "/tmp/w/output-3.svg".to_string(),
        ]
    );
}
