//! Rewriting of workspace paths in diagnostics.
//!
//! Every diagnostic that may embed the ephemeral workspace path is
//! rewritten so that the user never sees the local filesystem layout:
//! the workspace directory becomes `[TEMP_DIR]` and the source file
//! inside it becomes `[TEMP_DIR]/doc.tex`.

use vstd::prelude::*;

use crate::text::{
    contains_seq, find_spec, lemma_find_spec, lemma_replace_no_occurrence, lemma_replace_none,
    occurs_at, replace_all, replace_seq,
};

verus! {

/// The sanitized form of `text`: the workspace directory is replaced
/// first, then the input file path.
pub open spec fn sanitize_spec(text: Seq<char>, temp_dir: Seq<char>, input_path: Seq<char>) -> Seq<
    char,
> {
    replace_seq(replace_seq(text, temp_dir, "[TEMP_DIR]"@), input_path, "[TEMP_DIR]/doc.tex"@)
}

/// Shape of the paths a compilation workspace actually has: an
/// absolute directory free of `[`, and the source file directly
/// inside it.
pub open spec fn paths_ok(temp_dir: Seq<char>, input_path: Seq<char>) -> bool {
    &&& temp_dir.len() >= 1
    &&& temp_dir[0] == '/'
    &&& !temp_dir.contains('[')
    &&& input_path == temp_dir + "/doc.tex"@
}

/// The replacement token contains no `/` and starts with `[`.
proof fn lemma_token_chars()
    ensures
        "[TEMP_DIR]"@.len() >= 1,
        "[TEMP_DIR]"@[0] == '[',
        forall|k: int| 0 <= k < "[TEMP_DIR]"@.len() ==> #[trigger] "[TEMP_DIR]"@[k] != '/',
{
    reveal_strlit("[TEMP_DIR]");
}

/// Sanitization leaves no trace of either path: no occurrence of the
/// workspace directory, hence none of the input path either.
pub proof fn lemma_sanitize_hides_paths(text: Seq<char>, temp_dir: Seq<char>, input_path: Seq<char>)
    requires
        paths_ok(temp_dir, input_path),
    ensures
        !contains_seq(sanitize_spec(text, temp_dir, input_path), temp_dir),
        !contains_seq(sanitize_spec(text, temp_dir, input_path), input_path),
{
    let token = "[TEMP_DIR]"@;
    lemma_token_chars();
    assert forall|k: int| 0 <= k < token.len() implies #[trigger] token[k] != temp_dir[0] by {
        lemma_token_chars();
    }
    assert forall|k: int| 0 <= k < temp_dir.len() implies #[trigger] temp_dir[k] != token[0] by {
        if temp_dir[k] == '[' {
            assert(temp_dir.contains('['));
        }
    }
    lemma_replace_no_occurrence(text, temp_dir, token);
    let step1 = replace_seq(text, temp_dir, token);
    // an occurrence of the input path would begin with an occurrence
    // of the workspace directory
    assert forall|p: int| !occurs_at(step1, input_path, p) by {
        if occurs_at(step1, input_path, p) {
            assert(step1.subrange(p, p + temp_dir.len() as int) =~= step1.subrange(
                p,
                p + input_path.len() as int,
            ).subrange(0, temp_dir.len() as int));
            assert(input_path.subrange(0, temp_dir.len() as int) =~= temp_dir);
            assert(occurs_at(step1, temp_dir, p));
        }
    }
    lemma_find_spec(step1, input_path);
    match find_spec(step1, input_path) {
        None => {
            lemma_replace_none(step1, input_path, "[TEMP_DIR]/doc.tex"@);
        },
        Some(i) => {
            assert(false);
        },
    }
}

/// Replaces the workspace directory and the input file path in `text`
/// by stable placeholder tokens.  For the paths a real workspace has
/// (`paths_ok`), neither path survives anywhere in the result.
pub fn sanitize_paths(text: &str, temp_dir: &str, input_path: &str) -> (r: String)
    ensures
        r@ == sanitize_spec(text@, temp_dir@, input_path@),
        paths_ok(temp_dir@, input_path@) ==> !contains_seq(r@, temp_dir@) && !contains_seq(
            r@,
            input_path@,
        ),
{
    let step1 = replace_all(text, temp_dir, "[TEMP_DIR]");
    let r = replace_all(step1.as_str(), input_path, "[TEMP_DIR]/doc.tex");
    proof {
        if paths_ok(temp_dir@, input_path@) {
            lemma_sanitize_hides_paths(text@, temp_dir@, input_path@);
        }
    }
    r
}

} // verus!
