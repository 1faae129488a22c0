//! Rendering of a compilation result into a self-contained preview
//! document.
//!
//! A successful compilation yields one vector image per page; the
//! renderer wraps each page in a container inside a minimal shell
//! with strict content-security constraints (no scripts, no external
//! resources).  A failure yields the diagnostic as escaped,
//! preformatted text in the same shell.  Dark mode only adds a class
//! on the body — the page markup itself is never altered.

use vstd::prelude::*;

use crate::pipeline::CompilationResult;
use crate::sanitize;
use crate::text::contains_seq;

verus! {

/// The preview generator.  It holds no state: the external-tool
/// capabilities are constant for a given toolchain installation.
#[derive(Clone, Debug)]
pub struct Preview;

/// Which optional security flags the installed typesetter supports.
/// Probed once per process; the probe is skipped entirely here since
/// the flags are commonly configuration-only, so both answers are
/// negative and the essential protection rests on disabling shell
/// escape and pinning the working directory.
#[derive(Debug, Clone, Copy, PartialEq, Eq, Structural)]
pub struct PdfLatexCapabilities {
    pub supports_openin_any: bool,
    pub supports_openout_any: bool,
}

/// Escaping of one character of HTML text content.
pub open spec fn escaped_char(c: char) -> Seq<char> {
    if c == '&' {
        "&amp;"@
    } else if c == '<' {
        "&lt;"@
    } else if c == '>' {
        "&gt;"@
    } else {
        seq![c]
    }
}

/// HTML-escaping of text content: `&`, `<` and `>` are replaced,
/// everything else is kept.
pub open spec fn escape_text_spec(s: Seq<char>) -> Seq<char>
    decreases s.len(),
{
    if s.len() == 0 {
        Seq::empty()
    } else {
        escaped_char(s[0]) + escape_text_spec(s.skip(1))
    }
}

/// Relies on `html_escape::encode_text`: it replaces `&`, `<` and `>`
/// by `&amp;`, `&lt;` and `&gt;` and keeps every other character.
#[verifier::external_body]
fn encode_html_text(s: &str) -> (r: String)
    ensures
        r@ == escape_text_spec(s@),
{
    html_escape::encode_text(s).into_owned()
}

/// Opening of the preview shell, up to the class attribute of `body`.
pub open spec fn pages_shell_prefix() -> Seq<char> {
    "<!DOCTYPE html><html><head><meta charset=\"utf-8\"><meta http-equiv=\"Content-Security-Policy\" content=\"default-src 'self'; script-src 'none'; style-src 'unsafe-inline';\"><meta http-equiv=\"X-Frame-Options\" content=\"DENY\"><meta http-equiv=\"X-Content-Type-Options\" content=\"nosniff\"><style>body { background-color: #f0f0f0; display: flex; flex-direction: column; align-items: center; padding: 20px; gap: 20px; } .page { background: white; box-shadow: 0 4px 8px rgba(0,0,0,0.1); margin-bottom: 20px; width: 850px; max-width: 95%; } svg { display: block; width: 100%; height: auto; } @media (prefers-color-scheme: dark) { body { background-color: #1e1e1e; } } body.dark-mode .page { background: #1e1e1e; border: 1px solid #333; } body.dark-mode svg { filter: invert(1) hue-rotate(180deg) brightness(1.2); }</style></head><body class=\""@
}

/// Closing of the class attribute, before the page containers.
pub open spec fn pages_shell_mid() -> Seq<char> {
    "\">"@
}

/// End of the preview shell.
pub open spec fn pages_shell_suffix() -> Seq<char> {
    "</body></html>"@
}

/// The page containers: each page's markup wrapped in order.
pub open spec fn pages_body_spec(pages: Seq<Seq<char>>) -> Seq<char>
    decreases pages.len(),
{
    if pages.len() == 0 {
        Seq::empty()
    } else {
        "<div class=\"page\">"@ + pages[0] + "</div>"@ + pages_body_spec(pages.skip(1))
    }
}

/// The whole preview document for a successful compilation.
pub open spec fn wrap_svgs_spec(pages: Seq<Seq<char>>, dark_mode: bool) -> Seq<char> {
    pages_shell_prefix() + (if dark_mode {
        "dark-mode"@
    } else {
        ""@
    }) + pages_shell_mid() + pages_body_spec(pages) + pages_shell_suffix()
}

/// Opening of the error shell, up to the escaped diagnostic.
pub open spec fn error_shell_prefix() -> Seq<char> {
    "<!DOCTYPE html><html><head><meta charset=\"utf-8\"><meta http-equiv=\"Content-Security-Policy\" content=\"default-src 'self'; script-src 'none'; style-src 'unsafe-inline';\"><meta http-equiv=\"X-Frame-Options\" content=\"DENY\"><meta http-equiv=\"X-Content-Type-Options\" content=\"nosniff\"><style>body { font-family: monospace; padding: 20px; white-space: pre-wrap; background: #fff1f1; color: #a94442; } @media (prefers-color-scheme: dark) { body { background: #2a0f0f; color: #ff9999; } }</style></head><body><h1>Compilation Error</h1>"@
}

/// End of the error shell.
pub open spec fn error_shell_suffix() -> Seq<char> {
    "</body></html>"@
}

/// The whole preview document for a failed compilation.
pub open spec fn wrap_error_spec(error: Seq<char>) -> Seq<char> {
    error_shell_prefix() + escape_text_spec(error) + error_shell_suffix()
}

impl Preview {
    /// A new preview generator.
    pub fn new() -> (r: Preview)
        ensures
            r == Preview,
    {
        Preview
    }

    /// The capabilities of the installed typesetter: no optional file
    /// access restriction flags are assumed supported.
    pub fn pdflatex_capabilities() -> (caps: PdfLatexCapabilities)
        ensures
            !caps.supports_openin_any,
            !caps.supports_openout_any,
    {
        PdfLatexCapabilities { supports_openin_any: false, supports_openout_any: false }
    }

    /// Replaces the workspace paths in a diagnostic by placeholder
    /// tokens; see [`sanitize::sanitize_paths`].
    pub fn sanitize_paths(text: &str, temp_dir: &str, input_path: &str) -> (r: String)
        ensures
            r@ == sanitize::sanitize_spec(text@, temp_dir@, input_path@),
            sanitize::paths_ok(temp_dir@, input_path@) ==> !contains_seq(r@, temp_dir@)
                && !contains_seq(r@, input_path@),
    {
        sanitize::sanitize_paths(text, temp_dir, input_path)
    }

    /// Wraps the page images, in page order, in the secured preview
    /// shell; dark mode sets the class that inverts the page colors.
    pub fn wrap_svgs(&self, svgs: &Vec<String>, dark_mode: bool) -> (r: String)
        ensures
            r@ == wrap_svgs_spec(svgs.deep_view(), dark_mode),
    {
        let ghost all = svgs.deep_view();
        let mut body = String::new();
        let mut i: usize = 0;
        proof {
            assert(all.skip(0) =~= all);
            assert(body@ + pages_body_spec(all) =~= pages_body_spec(all));
        }
        while i < svgs.len()
            invariant
                i <= svgs@.len(),
                all == svgs.deep_view(),
                all.len() == svgs@.len(),
                forall|k: int| 0 <= k < all.len() ==> all[k] == #[trigger] svgs@[k]@,
                pages_body_spec(all) == body@ + pages_body_spec(all.skip(i as int)),
            decreases svgs@.len() - i,
        {
            body.append("<div class=\"page\">");
            body.append(svgs[i].as_str());
            body.append("</div>");
            proof {
                assert(all.skip(i as int)[0] == svgs@[i as int]@);
                assert(all.skip(i as int).skip(1) =~= all.skip(i + 1));
                assert(body@ + pages_body_spec(all.skip(i + 1)) =~= pages_body_spec(all));
            }
            i = i + 1;
        }
        proof {
            assert(all.skip(i as int) =~= Seq::<Seq<char>>::empty());
            assert(body@ =~= pages_body_spec(all));
        }
        let mut out = String::new();
        out.append(
            "<!DOCTYPE html><html><head><meta charset=\"utf-8\"><meta http-equiv=\"Content-Security-Policy\" content=\"default-src 'self'; script-src 'none'; style-src 'unsafe-inline';\"><meta http-equiv=\"X-Frame-Options\" content=\"DENY\"><meta http-equiv=\"X-Content-Type-Options\" content=\"nosniff\"><style>body { background-color: #f0f0f0; display: flex; flex-direction: column; align-items: center; padding: 20px; gap: 20px; } .page { background: white; box-shadow: 0 4px 8px rgba(0,0,0,0.1); margin-bottom: 20px; width: 850px; max-width: 95%; } svg { display: block; width: 100%; height: auto; } @media (prefers-color-scheme: dark) { body { background-color: #1e1e1e; } } body.dark-mode .page { background: #1e1e1e; border: 1px solid #333; } body.dark-mode svg { filter: invert(1) hue-rotate(180deg) brightness(1.2); }</style></head><body class=\"",
        );
        if dark_mode {
            out.append("dark-mode");
        }
        out.append("\">");
        out.append(body.as_str());
        out.append("</body></html>");
        proof {
            reveal_strlit("");
            assert(out@ =~= wrap_svgs_spec(all, dark_mode));
        }
        out
    }

    /// Wraps a diagnostic as escaped, preformatted text in the error
    /// shell.
    pub fn wrap_error(&self, error: &str) -> (r: String)
        ensures
            r@ == wrap_error_spec(error@),
    {
        let mut out = String::new();
        out.append(
            "<!DOCTYPE html><html><head><meta charset=\"utf-8\"><meta http-equiv=\"Content-Security-Policy\" content=\"default-src 'self'; script-src 'none'; style-src 'unsafe-inline';\"><meta http-equiv=\"X-Frame-Options\" content=\"DENY\"><meta http-equiv=\"X-Content-Type-Options\" content=\"nosniff\"><style>body { font-family: monospace; padding: 20px; white-space: pre-wrap; background: #fff1f1; color: #a94442; } @media (prefers-color-scheme: dark) { body { background: #2a0f0f; color: #ff9999; } }</style></head><body><h1>Compilation Error</h1>",
        );
        let escaped = encode_html_text(error);
        out.append(escaped.as_str());
        out.append("</body></html>");
        proof {
            assert(out@ =~= wrap_error_spec(error@));
        }
        out
    }

    /// Renders a compilation result into the final preview document:
    /// pages are wrapped in page containers in order, an error is
    /// wrapped as an escaped diagnostic.
    pub fn render(&self, result: &CompilationResult, dark_mode: bool) -> (r: String)
        ensures
            match result {
                CompilationResult::Pages(pages) => r@ == wrap_svgs_spec(
                    pages.deep_view(),
                    dark_mode,
                ),
                CompilationResult::Error(message) => r@ == wrap_error_spec(message@),
            },
    {
        match result {
            CompilationResult::Pages(pages) => self.wrap_svgs(pages, dark_mode),
            CompilationResult::Error(message) => self.wrap_error(message.as_str()),
        }
    }
}

impl Default for Preview {
    /// Same as [`Preview::new`].
    fn default() -> (r: Preview)
        ensures
            r == Preview,
    {
        Preview
    }
}

} // verus!
