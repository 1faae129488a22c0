//! Character-sequence searching: the foundation for log scanning and
//! diagnostic sanitization.

use vstd::prelude::*;

verus! {

/// `pat` occurs in `text` starting at position `i`.
pub open spec fn occurs_at(text: Seq<char>, pat: Seq<char>, i: int) -> bool {
    0 <= i && i + pat.len() <= text.len() && text.subrange(i, i + pat.len() as int) == pat
}

/// `pat` occurs somewhere in `text`.
pub open spec fn contains_seq(text: Seq<char>, pat: Seq<char>) -> bool {
    exists|i: int| occurs_at(text, pat, i)
}

/// Collects the characters of a string slice into a vector, in order.
pub fn to_chars(s: &str) -> (v: Vec<char>)
    ensures
        v@ == s@,
{
    let n: usize = s.unicode_len();
    let mut v: Vec<char> = Vec::new();
    let mut i: usize = 0;
    while i < n
        invariant
            i <= n,
            n == s@.len(),
            v@ == s@.subrange(0, i as int),
        decreases n - i,
    {
        v.push(s.get_char(i));
        proof {
            assert(v@ =~= s@.subrange(0, i + 1 as int));
        }
        i = i + 1;
    }
    proof {
        assert(v@ =~= s@);
    }
    v
}

/// Whether `pat` occurs in `text` at position `at`, by direct comparison.
fn matches_at(text: &Vec<char>, pat: &Vec<char>, at: usize) -> (r: bool)
    requires
        at + pat@.len() <= text@.len(),
    ensures
        r == occurs_at(text@, pat@, at as int),
{
    let tlen: usize = text.len();
    let mut k: usize = 0;
    while k < pat.len()
        invariant
            k <= pat@.len(),
            at + pat@.len() <= text@.len(),
            text@.len() == tlen,
            forall|j: int| 0 <= j < k ==> text@[at + j] == pat@[j],
        decreases pat@.len() - k,
    {
        if text[at + k] != pat[k] {
            proof {
                assert(text@.subrange(at as int, at + pat@.len() as int)[k as int] != pat@[k as int]);
            }
            return false;
        }
        k = k + 1;
    }
    proof {
        assert(text@.subrange(at as int, at + pat@.len() as int) =~= pat@);
    }
    true
}

/// Finds the leftmost occurrence of `pat` in `text` at or after `from`.
pub fn find_from(text: &Vec<char>, pat: &Vec<char>, from: usize) -> (r: Option<usize>)
    requires
        pat@.len() >= 1,
    ensures
        match r {
            Some(i) => {
                &&& from <= i
                &&& occurs_at(text@, pat@, i as int)
                &&& forall|j: int| from <= j < i ==> !occurs_at(text@, pat@, j)
            },
            None => forall|j: int| from <= j ==> !occurs_at(text@, pat@, j),
        },
{
    if text.len() < pat.len() {
        return None;
    }
    let last: usize = text.len() - pat.len();
    if from > last {
        return None;
    }
    let mut i: usize = from;
    while i <= last
        invariant
            pat@.len() >= 1,
            text@.len() <= usize::MAX,
            last == text@.len() - pat@.len(),
            from <= i <= last + 1,
            forall|j: int| from <= j < i ==> !occurs_at(text@, pat@, j),
        decreases last + 1 - i,
    {
        if matches_at(text, pat, i) {
            return Some(i);
        }
        i = i + 1;
    }
    None
}

/// Position of the leftmost occurrence of `pat` in `text`, if any.
/// An empty `pat` is treated as absent, so that replacement leaves
/// the text unchanged.
pub open spec fn find_spec(text: Seq<char>, pat: Seq<char>) -> Option<int>
    decreases text.len(),
{
    if pat.len() == 0 || text.len() < pat.len() {
        None
    } else if text.subrange(0, pat.len() as int) == pat {
        Some(0)
    } else {
        match find_spec(text.skip(1), pat) {
            None => None,
            Some(i) => Some(i + 1),
        }
    }
}

/// `text` with every occurrence of `pat` replaced by `repl`, scanning
/// left to right.
pub open spec fn replace_seq(text: Seq<char>, pat: Seq<char>, repl: Seq<char>) -> Seq<char>
    decreases text.len(),
{
    if pat.len() == 0 || text.len() < pat.len() {
        text
    } else if text.subrange(0, pat.len() as int) == pat {
        repl + replace_seq(text.skip(pat.len() as int), pat, repl)
    } else {
        seq![text[0]] + replace_seq(text.skip(1), pat, repl)
    }
}

/// Occurrences in a suffix are occurrences in the whole, shifted.
pub proof fn lemma_skip_occurs(text: Seq<char>, pat: Seq<char>, k: int, j: int)
    requires
        0 <= k <= text.len(),
        0 <= j,
    ensures
        occurs_at(text.skip(k), pat, j) == occurs_at(text, pat, k + j),
{
    if occurs_at(text.skip(k), pat, j) {
        assert(text.subrange(k + j, k + j + pat.len() as int) =~= text.skip(k).subrange(
            j,
            j + pat.len() as int,
        ));
    }
    if occurs_at(text, pat, k + j) && j >= 0 {
        assert(text.skip(k).subrange(j, j + pat.len() as int) =~= text.subrange(
            k + j,
            k + j + pat.len() as int,
        ));
    }
}

/// `find_spec` returns exactly the leftmost occurrence.
pub proof fn lemma_find_spec(text: Seq<char>, pat: Seq<char>)
    requires
        pat.len() >= 1,
    ensures
        match find_spec(text, pat) {
            Some(i) => {
                &&& 0 <= i
                &&& occurs_at(text, pat, i)
                &&& forall|j: int| j < i ==> !occurs_at(text, pat, j)
            },
            None => forall|j: int| !occurs_at(text, pat, j),
        },
    decreases text.len(),
{
    if text.len() < pat.len() {
        // no room for an occurrence anywhere
    } else if text.subrange(0, pat.len() as int) == pat {
        assert(occurs_at(text, pat, 0));
    } else {
        lemma_find_spec(text.skip(1), pat);
        assert(!occurs_at(text, pat, 0));
        match find_spec(text.skip(1), pat) {
            None => {
                assert forall|j: int| !occurs_at(text, pat, j) by {
                    if j >= 1 {
                        lemma_skip_occurs(text, pat, 1, j - 1);
                    }
                }
            },
            Some(i) => {
                lemma_skip_occurs(text, pat, 1, i);
                assert forall|j: int| j < i + 1 implies !occurs_at(text, pat, j) by {
                    if j >= 1 {
                        lemma_skip_occurs(text, pat, 1, j - 1);
                    }
                }
            },
        }
    }
}

/// When there is no occurrence, replacement is the identity.
pub proof fn lemma_replace_none(text: Seq<char>, pat: Seq<char>, repl: Seq<char>)
    requires
        pat.len() >= 1,
        find_spec(text, pat) is None,
    ensures
        replace_seq(text, pat, repl) == text,
    decreases text.len(),
{
    if text.len() < pat.len() {
    } else if text.subrange(0, pat.len() as int) == pat {
        assert(false);
    } else {
        lemma_replace_none(text.skip(1), pat, repl);
        assert(replace_seq(text, pat, repl) =~= text);
    }
}

/// Peeling the leftmost occurrence: the replaced text is the clean
/// prefix, then `repl`, then the replacement of the rest.
pub proof fn lemma_replace_decomp(text: Seq<char>, pat: Seq<char>, repl: Seq<char>, i: int)
    requires
        pat.len() >= 1,
        find_spec(text, pat) == Some(i),
    ensures
        0 <= i,
        i + pat.len() <= text.len(),
        replace_seq(text, pat, repl) == text.subrange(0, i) + repl + replace_seq(
            text.skip(i + pat.len() as int),
            pat,
            repl,
        ),
    decreases text.len(),
{
    lemma_find_spec(text, pat);
    if text.subrange(0, pat.len() as int) == pat {
        assert(i == 0);
        assert(text.subrange(0, 0) + repl =~= repl);
        assert(replace_seq(text, pat, repl) =~= text.subrange(0, 0) + repl + replace_seq(
            text.skip(pat.len() as int),
            pat,
            repl,
        ));
    } else {
        assert(find_spec(text.skip(1), pat) == Some(i - 1));
        lemma_replace_decomp(text.skip(1), pat, repl, i - 1);
        assert(text.skip(1).skip(i - 1 + pat.len() as int) =~= text.skip(i + pat.len() as int));
        assert(seq![text[0]] + text.skip(1).subrange(0, i - 1) =~= text.subrange(0, i));
        assert(seq![text[0]] + (text.skip(1).subrange(0, i - 1) + repl + replace_seq(
            text.skip(i + pat.len() as int),
            pat,
            repl,
        )) =~= text.subrange(0, i) + repl + replace_seq(text.skip(i + pat.len() as int), pat, repl));
    }
}

/// After replacing every occurrence of `pat` by `repl`, no occurrence
/// of `pat` is left — not even one spanning a boundary of the spliced
/// pieces — provided the first character of either string does not
/// appear in the other.
pub proof fn lemma_replace_no_occurrence(text: Seq<char>, pat: Seq<char>, repl: Seq<char>)
    requires
        pat.len() >= 1,
        repl.len() >= 1,
        forall|k: int| 0 <= k < repl.len() ==> repl[k] != pat[0],
        forall|k: int| 0 <= k < pat.len() ==> pat[k] != repl[0],
    ensures
        !contains_seq(replace_seq(text, pat, repl), pat),
    decreases text.len(),
{
    lemma_find_spec(text, pat);
    let r = replace_seq(text, pat, repl);
    let m = pat.len() as int;
    match find_spec(text, pat) {
        None => {
            lemma_replace_none(text, pat, repl);
        },
        Some(i) => {
            lemma_replace_decomp(text, pat, repl, i);
            let pre = text.subrange(0, i);
            let rest = replace_seq(text.skip(i + m), pat, repl);
            lemma_replace_no_occurrence(text.skip(i + m), pat, repl);
            assert(r == pre + repl + rest);
            assert forall|p: int| !occurs_at(r, pat, p) by {
                if occurs_at(r, pat, p) {
                    assert(forall|j: int|
                        0 <= j < m ==> r.subrange(p, p + m)[j] == #[trigger] pat[j]);
                    assert(forall|j: int| 0 <= j < m ==> r[p + j] == #[trigger] pat[j]);
                    if p + m <= i {
                        // an occurrence entirely inside the clean prefix:
                        // it would be an earlier occurrence in `text`
                        assert(forall|j: int| 0 <= j < m ==> r[p + j] == #[trigger] text[p + j]);
                        assert(text.subrange(p, p + m) =~= pat);
                        assert(occurs_at(text, pat, p));
                    } else if p < i {
                        // it would straddle into `repl`, whose first
                        // character is not a character of `pat`
                        assert(r[i] == repl[0]);
                        assert(r[p + (i - p)] == pat[i - p]);
                    } else if p < i + repl.len() {
                        // it would start inside `repl`, but `repl` does
                        // not contain the first character of `pat`
                        assert(r[p] == repl[p - i]);
                        assert(r[p + 0] == pat[0]);
                    } else {
                        // entirely inside the already-clean remainder
                        assert(forall|j: int|
                            0 <= j < m ==> r[p + j] == #[trigger] rest[p - i - repl.len() + j]);
                        assert(rest.subrange(p - i - repl.len(), p - i - repl.len() + m) =~= pat);
                        assert(occurs_at(rest, pat, p - i - repl.len()));
                    }
                }
            }
        },
    }
}

/// `contains_seq` is decided by a scan for the leftmost occurrence.
pub fn contains_sub(text: &Vec<char>, pat: &Vec<char>) -> (r: bool)
    requires
        pat@.len() >= 1,
    ensures
        r == contains_seq(text@, pat@),
{
    match find_from(text, pat, 0) {
        Some(_) => true,
        None => false,
    }
}

/// Whether the string `pat` occurs in the character vector `text`.
pub fn contains_str(text: &Vec<char>, pat: &str) -> (r: bool)
    ensures
        r == contains_seq(text@, pat@),
{
    let pc = to_chars(pat);
    if pc.len() == 0 {
        proof {
            assert(text@.subrange(0, 0) =~= pat@);
            assert(occurs_at(text@, pat@, 0));
        }
        return true;
    }
    contains_sub(text, &pc)
}

/// `text` with every occurrence of `pat` replaced by `repl`, scanning
/// left to right; occurrences never overlap, and an empty `pat`
/// changes nothing.
pub fn replace_all(text: &str, pat: &str, repl: &str) -> (r: String)
    ensures
        r@ == replace_seq(text@, pat@, repl@),
{
    let tc = to_chars(text);
    let pc = to_chars(pat);
    let tlen: usize = tc.len();
    let plen: usize = pc.len();
    if plen == 0 {
        return String::from_str(text);
    }
    let mut out = String::new();
    let mut pos: usize = 0;
    proof {
        assert(text@.skip(0) =~= text@);
        assert(out@ + replace_seq(text@, pat@, repl@) =~= replace_seq(text@, pat@, repl@));
    }
    loop
        invariant
            tc@ == text@,
            pc@ == pat@,
            tlen == text@.len(),
            plen == pat@.len(),
            plen >= 1,
            pos <= tlen,
            replace_seq(text@, pat@, repl@) == out@ + replace_seq(
                text@.skip(pos as int),
                pat@,
                repl@,
            ),
        decreases tlen - pos,
    {
        match find_from(&tc, &pc, pos) {
            Some(i) => {
                proof {
                    lemma_tail_replace_step(text@, pat@, repl@, pos as int, i as int);
                }
                out.append(text.substring_char(pos, i));
                out.append(repl);
                pos = i + plen;
            },
            None => {
                proof {
                    lemma_tail_replace_end(text@, pat@, repl@, pos as int);
                }
                out.append(text.substring_char(pos, tlen));
                proof {
                    assert(out@ =~= replace_seq(text@, pat@, repl@));
                }
                return out;
            },
        }
    }
}

/// If the leftmost occurrence at or after `pos` is at `i`, replacing
/// the tail from `pos` copies the clean stretch, splices `repl`, and
/// continues after the occurrence.
proof fn lemma_tail_replace_step(text: Seq<char>, pat: Seq<char>, repl: Seq<char>, pos: int, i: int)
    requires
        pat.len() >= 1,
        0 <= pos <= i,
        occurs_at(text, pat, i),
        forall|j: int| pos <= j < i ==> !occurs_at(text, pat, j),
    ensures
        i + pat.len() <= text.len(),
        replace_seq(text.skip(pos), pat, repl) == text.subrange(pos, i) + repl + replace_seq(
            text.skip(i + pat.len() as int),
            pat,
            repl,
        ),
{
    let tail = text.skip(pos);
    lemma_find_spec(tail, pat);
    lemma_skip_occurs(text, pat, pos, i - pos);
    assert(occurs_at(tail, pat, i - pos));
    match find_spec(tail, pat) {
        None => {
            assert(false);
        },
        Some(f) => {
            lemma_skip_occurs(text, pat, pos, f);
            assert(occurs_at(text, pat, pos + f));
            assert(f == i - pos);
            lemma_replace_decomp(tail, pat, repl, f);
            assert(tail.subrange(0, f) =~= text.subrange(pos, i));
            assert(tail.skip(f + pat.len() as int) =~= text.skip(i + pat.len() as int));
        },
    }
}

/// With no occurrence at or after `pos`, the tail is already clean.
proof fn lemma_tail_replace_end(text: Seq<char>, pat: Seq<char>, repl: Seq<char>, pos: int)
    requires
        pat.len() >= 1,
        0 <= pos <= text.len(),
        forall|j: int| pos <= j ==> !occurs_at(text, pat, j),
    ensures
        replace_seq(text.skip(pos), pat, repl) == text.subrange(pos, text.len() as int),
{
    let tail = text.skip(pos);
    lemma_find_spec(tail, pat);
    match find_spec(tail, pat) {
        None => {
            lemma_replace_none(tail, pat, repl);
            assert(tail =~= text.subrange(pos, text.len() as int));
        },
        Some(f) => {
            lemma_skip_occurs(text, pat, pos, f);
        },
    }
}

} // verus!
