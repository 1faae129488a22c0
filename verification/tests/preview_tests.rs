use latex_preview::pipeline::{Compilation, CompilationResult, PipelineAction, PipelineEvent};
use latex_preview::preview::Preview;
use latex_preview::process::ProcessOutcome;

fn completed(success: bool) -> ProcessOutcome {
    ProcessOutcome::Completed { stdout: String::new(), stderr: String::new(), success }
}

/// Drives a compilation through a toolchain that typesets cleanly in
/// one pass and yields the given page images.
fn compile_with_toolchain(source: &str, pages: &[&str]) -> CompilationResult {
    let mut c = Compilation::new(source);
    assert!(matches!(c.next_action(), PipelineAction::CreateWorkspace));
    c.step(PipelineEvent::WorkspaceReady {
        temp_dir: "/tmp/ws1".to_string(),
        input_path: "/tmp/ws1/doc.tex".to_string(),
    });
    assert!(matches!(c.next_action(), PipelineAction::RunTypesetter { .. }));
    c.step(PipelineEvent::TypesetterDone {
        outcome: completed(true),
        log: Some("Output written on doc.pdf".to_string()),
        pdf_exists: true,
        bcf_exists: false,
    });
    assert!(matches!(c.next_action(), PipelineAction::CountPages));
    c.step(PipelineEvent::PagesCounted {
        report: Some(format!("Title: doc\nPages:          {}\n", pages.len())),
    });
    for (i, page) in pages.iter().enumerate() {
        match c.next_action() {
            PipelineAction::ConvertPage { page: p, .. } => assert_eq!(p, i + 1),
            other => panic!("expected a page conversion, got {:?}", other),
        }
        c.step(PipelineEvent::PageConverted {
            outcome: completed(true),
            content: Some(page.to_string()),
        });
    }
    assert!(matches!(c.next_action(), PipelineAction::Finish));
    c.take_result().expect("finished without a result")
}

#[test]
fn test_sanitize_paths() {
    let temp_dir = "/tmp/xyz123";
    let input_path = "/tmp/xyz123/doc.tex";
    let text = "Error in /tmp/xyz123/doc.tex: missing package";
    let sanitized = Preview::sanitize_paths(text, temp_dir, input_path);
    assert_eq!(sanitized, "Error in [TEMP_DIR]/doc.tex: missing package");
}

#[test]
fn test_render_multi_page() {
    let preview = Preview::new();
    let latex = r#"
\documentclass{article}
\usepackage{graphicx}
\begin{document}
Page 1
\newpage
Page 2
\includegraphics{missing_image.png}
\end{document}
"#;
    let result = compile_with_toolchain(latex, &["<svg>one</svg>", "<svg>two</svg>"]);
    let rendered = preview.render(&result, false);
    assert!(rendered.contains("class=\"page\""));
    assert!(rendered.contains("<svg"));
    let page_count = rendered.matches("class=\"page\"").count();
    assert_eq!(page_count, 2);
}

#[test]
fn test_two_page_document_yields_two_pages() {
    let source = "\\documentclass{article}\\begin{document}Page 1\\newpage Page 2\\end{document}";
    match compile_with_toolchain(source, &["<svg>p1</svg>", "<svg>p2</svg>"]) {
        CompilationResult::Pages(pages) => {
            assert_eq!(pages.len(), 2);
            assert_eq!(pages[0], "<svg>p1</svg>");
            assert_eq!(pages[1], "<svg>p2</svg>");
        },
        CompilationResult::Error(e) => panic!("expected pages, got error: {}", e),
    }
}

#[test]
fn test_compile_is_deterministic() {
    let source = "\\documentclass{article}\\begin{document}Hi\\end{document}";
    let a = compile_with_toolchain(source, &["<svg>same</svg>"]);
    let b = compile_with_toolchain(source, &["<svg>same</svg>"]);
    match (a, b) {
        (CompilationResult::Pages(pa), CompilationResult::Pages(pb)) => {
            assert_eq!(pa.len(), pb.len());
            assert_eq!(pa, pb);
        },
        _ => panic!("expected pages from both runs"),
    }
}

#[test]
fn test_render_dark_mode_keeps_page_bytes() {
    let preview = Preview::new();
    let result = CompilationResult::Pages(vec!["<svg>content</svg>".to_string()]);
    let light = preview.render(&result, false);
    let dark = preview.render(&result, true);
    assert!(dark.contains("dark-mode"));
    assert!(light.contains("<svg>content</svg>"));
    assert!(dark.contains("<svg>content</svg>"));
}

#[test]
fn test_render_error_is_escaped() {
    let preview = Preview::new();
    let result = CompilationResult::Error("bad <input> & more".to_string());
    let rendered = preview.render(&result, false);
    assert!(rendered.contains("Compilation Error"));
    assert!(rendered.contains("bad &lt;input&gt; &amp; more"));
    assert!(!rendered.contains("bad <input>"));
}

#[test]
fn test_pdflatex_capabilities_conservative() {
    let caps = Preview::pdflatex_capabilities();
    assert!(!caps.supports_openin_any);
    assert!(!caps.supports_openout_any);
}
