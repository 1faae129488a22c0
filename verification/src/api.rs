//! Data model of the AI assistant's chat interface, and the filter
//! that splits a streamed answer into visible content and the
//! model's `<think>…</think>` reasoning.
//!
//! The filter is a character machine: it swallows the two tags,
//! labels everything inside them as reasoning and everything outside
//! as content, and holds back only a trailing partial tag until the
//! next piece of the stream settles what it was.

use vstd::prelude::*;

use crate::text::to_chars;

verus! {

/// Who speaks in a chat message.
#[derive(Debug, Clone)]
pub enum MessageRole {
    System,
    User,
    Assistant,
}

/// One chat message.
#[derive(Debug, Clone)]
pub struct Message {
    pub role: MessageRole,
    pub content: String,
}

/// One piece of a streamed answer, already classified.
#[derive(Debug, Clone)]
pub enum AiChunk {
    Content(String),
    Reasoning(String),
}

/// Spec-level shape of a chunk.
pub enum ChunkModel {
    Content(Seq<char>),
    Reasoning(Seq<char>),
}

impl View for AiChunk {
    type V = ChunkModel;

    open spec fn view(&self) -> ChunkModel {
        match self {
            AiChunk::Content(s) => ChunkModel::Content(s@),
            AiChunk::Reasoning(s) => ChunkModel::Reasoning(s@),
        }
    }
}

/// The text of a chunk.
pub open spec fn chunk_text(c: ChunkModel) -> Seq<char> {
    match c {
        ChunkModel::Content(s) => s,
        ChunkModel::Reasoning(s) => s,
    }
}

/// Whether a chunk is reasoning.
pub open spec fn chunk_is_reasoning(c: ChunkModel) -> bool {
    c is Reasoning
}

/// The filter's state: inside the reasoning tags or not, plus the
/// held-back characters that may still become the next tag.
#[verifier::ext_equal]
pub struct FilterModel {
    pub inside: bool,
    pub held: Seq<char>,
}

/// One step or one stretch of the filter: its state after, and the
/// characters it let through, each labeled reasoning or not.
#[verifier::ext_equal]
pub struct ScanResult {
    pub state: FilterModel,
    pub out: Seq<(bool, char)>,
}

/// The tag the filter is looking out for in each mode.
pub open spec fn tag_of(inside: bool) -> Seq<char> {
    if inside {
        "</think>"@
    } else {
        "<think>"@
    }
}

/// The characters of `s`, labeled with `b`.
pub open spec fn labeled(b: bool, s: Seq<char>) -> Seq<(bool, char)> {
    Seq::new(s.len(), |i: int| (b, s[i]))
}

/// Length of the longest suffix of `cur`, at most `k` long, that is
/// a prefix of `tag`.
pub open spec fn longest_border_spec(cur: Seq<char>, tag: Seq<char>, k: int) -> int
    decreases k,
    when 0 <= k <= cur.len() && k <= tag.len()
{
    if k <= 0 {
        0
    } else if cur.skip(cur.len() - k) == tag.take(k) {
        k
    } else {
        longest_border_spec(cur, tag, k - 1)
    }
}

/// One character through the filter.  A completed tag flips the mode
/// and is swallowed; a still-possible tag prefix is held back;
/// anything else is let through up to the longest tail that could
/// still open the tag.
pub open spec fn step_char(m: FilterModel, c: char) -> ScanResult {
    let tag = tag_of(m.inside);
    let cur = m.held.push(c);
    if cur == tag {
        ScanResult { state: FilterModel { inside: !m.inside, held: Seq::empty() }, out: Seq::empty() }
    } else if cur.len() < tag.len() && cur == tag.take(cur.len() as int) {
        ScanResult { state: FilterModel { inside: m.inside, held: cur }, out: Seq::empty() }
    } else {
        let kmax = if cur.len() < tag.len() - 1 {
            cur.len() as int
        } else {
            tag.len() - 1
        };
        let k = longest_border_spec(cur, tag, kmax);
        ScanResult {
            state: FilterModel { inside: m.inside, held: cur.skip(cur.len() - k) },
            out: labeled(m.inside, cur.take(cur.len() - k)),
        }
    }
}

/// A whole stretch of input through the filter.
pub open spec fn scan(m: FilterModel, input: Seq<char>) -> ScanResult
    decreases input.len(),
{
    if input.len() == 0 {
        ScanResult { state: m, out: Seq::empty() }
    } else {
        let first = step_char(m, input[0]);
        let rest = scan(first.state, input.skip(1));
        ScanResult { state: rest.state, out: first.out + rest.out }
    }
}

/// Scanning one more character scans the stretch, then the character.
proof fn lemma_scan_snoc(m: FilterModel, s: Seq<char>, c: char)
    ensures
        scan(m, s.push(c)) == (ScanResult {
            state: step_char(scan(m, s).state, c).state,
            out: scan(m, s).out + step_char(scan(m, s).state, c).out,
        }),
    decreases s.len(),
{
    if s.len() == 0 {
        let step1 = step_char(m, c);
        assert(s.push(c)[0] == c);
        assert(s.push(c).skip(1) =~= Seq::<char>::empty());
        assert(scan(step1.state, Seq::<char>::empty()).out == Seq::<(bool, char)>::empty());
        assert(scan(m, s.push(c)).out =~= step1.out + scan(
            step1.state,
            Seq::<char>::empty(),
        ).out);
        assert(scan(m, s).state == m && scan(m, s).out == Seq::<(bool, char)>::empty());
        assert(scan(m, s.push(c)).out =~= scan(m, s).out + step_char(scan(m, s).state, c).out);
        assert(scan(m, s.push(c)) =~~= (ScanResult {
            state: step_char(scan(m, s).state, c).state,
            out: scan(m, s).out + step_char(scan(m, s).state, c).out,
        }));
    } else {
        assert(s.push(c)[0] == s[0]);
        assert(s.push(c).skip(1) =~= s.skip(1).push(c));
        lemma_scan_snoc(step_char(m, s[0]).state, s.skip(1), c);
        assert(scan(m, s.push(c)).out =~= scan(m, s).out + step_char(scan(m, s).state, c).out);
        assert(scan(m, s.push(c)) =~~= (ScanResult {
            state: step_char(scan(m, s).state, c).state,
            out: scan(m, s).out + step_char(scan(m, s).state, c).out,
        }));
    }
}

/// The labeled characters of a chunk sequence, in order.
pub open spec fn flatten_chunks(cs: Seq<ChunkModel>) -> Seq<(bool, char)>
    decreases cs.len(),
{
    if cs.len() == 0 {
        Seq::empty()
    } else {
        labeled(chunk_is_reasoning(cs[0]), chunk_text(cs[0])) + flatten_chunks(cs.skip(1))
    }
}

/// Flattening one more chunk appends its labeled text.
proof fn lemma_flatten_snoc(cs: Seq<ChunkModel>, x: ChunkModel)
    ensures
        flatten_chunks(cs.push(x)) == flatten_chunks(cs) + labeled(
            chunk_is_reasoning(x),
            chunk_text(x),
        ),
    decreases cs.len(),
{
    if cs.len() == 0 {
        assert(cs.push(x)[0] == x);
        assert(cs.push(x).skip(1) =~= Seq::<ChunkModel>::empty());
        assert(flatten_chunks(Seq::<ChunkModel>::empty()) == Seq::<(bool, char)>::empty());
        assert(flatten_chunks(cs.push(x)) =~= labeled(chunk_is_reasoning(x), chunk_text(x))
            + flatten_chunks(Seq::<ChunkModel>::empty()));
        assert(flatten_chunks(cs.push(x)) =~= flatten_chunks(cs) + labeled(
            chunk_is_reasoning(x),
            chunk_text(x),
        ));
    } else {
        assert(cs.push(x)[0] == cs[0]);
        assert(cs.push(x).skip(1) =~= cs.skip(1).push(x));
        lemma_flatten_snoc(cs.skip(1), x);
        assert(flatten_chunks(cs.push(x)) =~= flatten_chunks(cs) + labeled(
            chunk_is_reasoning(x),
            chunk_text(x),
        ));
    }
}

/// The views of a chunk vector.
pub open spec fn chunk_views(cs: Seq<AiChunk>) -> Seq<ChunkModel> {
    Seq::new(cs.len(), |i: int| cs[i]@)
}

/// The streaming filter around an AI answer.
#[derive(Debug)]
pub struct ThinkingFilter {
    inside_think: bool,
    buffer: String,
}

impl View for ThinkingFilter {
    type V = FilterModel;

    closed spec fn view(&self) -> FilterModel {
        FilterModel { inside: self.inside_think, held: self.buffer@ }
    }
}

/// Relies on `String: FromIterator<char>`: collecting characters
/// yields the string of exactly those characters, in order.
#[verifier::external_body]
fn chars_to_string(v: &Vec<char>) -> (r: String)
    ensures
        r@ == v@,
{
    v.iter().collect()
}

/// Whether the two vectors hold the same characters.
fn vec_eq(a: &Vec<char>, b: &Vec<char>) -> (r: bool)
    ensures
        r == (a@ == b@),
{
    if a.len() != b.len() {
        return false;
    }
    let mut i: usize = 0;
    while i < a.len()
        invariant
            i <= a@.len(),
            a@.len() == b@.len(),
            forall|j: int| 0 <= j < i ==> a@[j] == b@[j],
        decreases a@.len() - i,
    {
        if a[i] != b[i] {
            return false;
        }
        i = i + 1;
    }
    proof {
        assert(a@ =~= b@);
    }
    true
}

/// Whether `a` is a strict prefix of `b`.
fn vec_is_strict_prefix(a: &Vec<char>, b: &Vec<char>) -> (r: bool)
    ensures
        r == (a@.len() < b@.len() && a@ == b@.take(a@.len() as int)),
{
    if a.len() >= b.len() {
        return false;
    }
    let mut i: usize = 0;
    while i < a.len()
        invariant
            i <= a@.len(),
            a@.len() < b@.len(),
            forall|j: int| 0 <= j < i ==> a@[j] == b@[j],
        decreases a@.len() - i,
    {
        if a[i] != b[i] {
            proof {
                assert(a@[i as int] != b@.take(a@.len() as int)[i as int]);
            }
            return false;
        }
        i = i + 1;
    }
    proof {
        assert(a@ =~= b@.take(a@.len() as int));
    }
    true
}

/// Whether the last `k` characters of `cur` open `tag`.
fn border_matches(cur: &Vec<char>, tag: &Vec<char>, k: usize) -> (r: bool)
    requires
        k <= cur@.len(),
        k <= tag@.len(),
    ensures
        r == (cur@.skip(cur@.len() - k) == tag@.take(k as int)),
{
    let base: usize = cur.len() - k;
    let mut i: usize = 0;
    while i < k
        invariant
            i <= k,
            k <= cur@.len(),
            k <= tag@.len(),
            cur@.len() <= usize::MAX,
            base == cur@.len() - k,
            forall|j: int| 0 <= j < i ==> cur@[base + j] == tag@[j],
        decreases k - i,
    {
        if cur[base + i] != tag[i] {
            proof {
                assert(cur@.skip(cur@.len() - k)[i as int] != tag@.take(k as int)[i as int]);
            }
            return false;
        }
        i = i + 1;
    }
    proof {
        assert(cur@.skip(cur@.len() - k) =~= tag@.take(k as int));
    }
    true
}

/// The longest suffix of `cur` that could still open `tag`, shorter
/// than the tag itself.
fn longest_border(cur: &Vec<char>, tag: &Vec<char>) -> (k: usize)
    requires
        tag@.len() >= 1,
    ensures
        ({
            let kmax = if cur@.len() < tag@.len() - 1 {
                cur@.len() as int
            } else {
                tag@.len() - 1
            };
            k == longest_border_spec(cur@, tag@, kmax)
        }),
        k <= cur@.len(),
        k as int <= tag@.len() - 1,
        k == 0 || cur@.skip(cur@.len() - k as int) == tag@.take(k as int),
{
    let kmax: usize = if cur.len() < tag.len() - 1 {
        cur.len()
    } else {
        tag.len() - 1
    };
    let mut k: usize = kmax;
    while k > 0
        invariant
            k <= kmax,
            kmax <= cur@.len(),
            kmax <= tag@.len(),
            kmax as int == (if cur@.len() < tag@.len() - 1 {
                cur@.len() as int
            } else {
                tag@.len() - 1
            }),
            longest_border_spec(cur@, tag@, kmax as int) == longest_border_spec(
                cur@,
                tag@,
                k as int,
            ),
        decreases k,
    {
        if border_matches(cur, tag, k) {
            proof {
                assert(longest_border_spec(cur@, tag@, k as int) == k);
            }
            return k;
        }
        k = k - 1;
    }
    k
}

impl ThinkingFilter {
    /// A fresh filter: outside the tags, holding nothing back.
    pub fn new() -> (f: ThinkingFilter)
        ensures
            !f@.inside,
            f@.held.len() == 0,
    {
        ThinkingFilter { inside_think: false, buffer: String::new() }
    }

    /// Feeds one piece of the stream through the filter.  The
    /// returned chunks carry, labeled and in order, exactly the
    /// characters the filter lets through for this piece, as
    /// [`scan`] defines them; every chunk is nonempty; the filter
    /// ends in the scanned state, holding back only a possible tag
    /// prefix.
    pub fn process(&mut self, text: String) -> (chunks: Vec<AiChunk>)
        ensures
            final(self)@ == scan(old(self)@, text@).state,
            flatten_chunks(chunk_views(chunks@)) == scan(old(self)@, text@).out,
            forall|i: int| 0 <= i < chunks@.len() ==> chunk_text(#[trigger] chunks@[i]@).len() > 0,
            forall|i: int|
                0 <= i && i + 1 < chunks@.len() ==> chunk_is_reasoning(#[trigger] chunks@[i]@)
                    != chunk_is_reasoning(chunks@[i + 1]@),
    {
        let ghost m0 = self@;
        let tc = to_chars(text.as_str());
        let tag_open = to_chars("<think>");
        let tag_close = to_chars("</think>");
        proof {
            reveal_strlit("<think>");
            reveal_strlit("</think>");
        }
        let mut held: Vec<char> = to_chars(self.buffer.as_str());
        let mut inside: bool = self.inside_think;
        let mut chunks: Vec<AiChunk> = Vec::new();
        let mut run: Vec<char> = Vec::new();
        let mut run_label: bool = inside;
        let n: usize = tc.len();
        let mut j: usize = 0;
        proof {
            assert(text@.take(0) =~= Seq::<char>::empty());
            assert(flatten_chunks(chunk_views(chunks@)) + labeled(run_label, run@) =~= scan(
                m0,
                text@.take(0),
            ).out);
        }
        while j < n
            invariant
                n == text@.len(),
                tc@ == text@,
                tag_open@ == "<think>"@,
                tag_close@ == "</think>"@,
                "<think>"@.len() == 7,
                "</think>"@.len() == 8,
                j <= n,
                inside == scan(m0, text@.take(j as int)).state.inside,
                held@ == scan(m0, text@.take(j as int)).state.held,
                flatten_chunks(chunk_views(chunks@)) + labeled(run_label, run@) == scan(
                    m0,
                    text@.take(j as int),
                ).out,
                forall|i: int|
                    0 <= i < chunks@.len() ==> chunk_text(#[trigger] chunks@[i]@).len() > 0,
                forall|i: int|
                    0 <= i && i + 1 < chunks@.len() ==> chunk_is_reasoning(
                        #[trigger] chunks@[i]@,
                    ) != chunk_is_reasoning(chunks@[i + 1]@),
                chunks@.len() > 0 ==> run@.len() > 0 && chunk_is_reasoning(
                    chunks@[chunks@.len() - 1]@,
                ) != run_label,
            decreases n - j,
        {
            let c = tc[j];
            let ghost m_pre = FilterModel { inside, held: held@ };
            proof {
                assert(text@.take(j + 1) =~= text@.take(j as int).push(text@[j as int]));
                lemma_scan_snoc(m0, text@.take(j as int), text@[j as int]);
            }
            held.push(c);
            let tag = if inside {
                &tag_close
            } else {
                &tag_open
            };
            if vec_eq(&held, tag) {
                inside = !inside;
                held = Vec::new();
                proof {
                    assert(held@ =~= step_char(m_pre, c).state.held);
                    assert(flatten_chunks(chunk_views(chunks@)) + labeled(run_label, run@) =~= scan(
                        m0,
                        text@.take(j + 1),
                    ).out);
                }
            } else if vec_is_strict_prefix(&held, tag) {
                proof {
                    assert(flatten_chunks(chunk_views(chunks@)) + labeled(run_label, run@) =~= scan(
                        m0,
                        text@.take(j + 1),
                    ).out);
                }
            } else {
                let k = longest_border(&held, tag);
                proof {
                    // the whole of `held` cannot itself open the tag:
                    // that is the held-back case above
                    if k == held.len() {
                        assert(held@.skip(0) =~= held@);
                        assert(held@ == tag@.take(held@.len() as int));
                        assert(false);
                    }
                }
                let flush_len: usize = held.len() - k;
                let ghost step = step_char(m_pre, c);
                proof {
                    assert(step.out == labeled(inside, held@.take(flush_len as int)));
                    assert(step.state.held == held@.skip(flush_len as int));
                }
                if run.len() > 0 && run_label != inside {
                    let done = if run_label {
                        AiChunk::Reasoning(chars_to_string(&run))
                    } else {
                        AiChunk::Content(chars_to_string(&run))
                    };
                    proof {
                        lemma_flatten_snoc(chunk_views(chunks@), done@);
                        assert(chunk_views(chunks@.push(done)) =~= chunk_views(chunks@).push(
                            done@,
                        ));
                    }
                    let ghost before = chunks@;
                    chunks.push(done);
                    proof {
                        assert(chunk_is_reasoning(done@) == run_label);
                        assert forall|i: int|
                            0 <= i && i + 1 < chunks@.len() implies chunk_is_reasoning(
                            #[trigger] chunks@[i]@,
                        ) != chunk_is_reasoning(chunks@[i + 1]@) by {
                            if i + 1 == chunks@.len() - 1 + 1 {
                            }
                        }
                    }
                    run = Vec::new();
                }
                run_label = inside;
                let ghost run_before = run@;
                let mut idx: usize = 0;
                while idx < flush_len
                    invariant
                        idx <= flush_len,
                        flush_len <= held@.len(),
                        run@ == run_before + held@.take(flush_len as int).take(idx as int),
                    decreases flush_len - idx,
                {
                    run.push(held[idx]);
                    proof {
                        assert(run@ =~= run_before + held@.take(flush_len as int).take(idx + 1));
                    }
                    idx = idx + 1;
                }
                let mut new_held: Vec<char> = Vec::new();
                let mut idx2: usize = flush_len;
                while idx2 < held.len()
                    invariant
                        flush_len <= idx2 <= held@.len(),
                        new_held@ == held@.subrange(flush_len as int, idx2 as int),
                    decreases held@.len() - idx2,
                {
                    new_held.push(held[idx2]);
                    proof {
                        assert(new_held@ =~= held@.subrange(flush_len as int, idx2 + 1));
                    }
                    idx2 = idx2 + 1;
                }
                held = new_held;
                proof {
                    assert(held@ =~= step.state.held);
                    assert(labeled(run_label, run@) =~= labeled(run_label, run_before) + step.out);
                    assert(flatten_chunks(chunk_views(chunks@)) + labeled(run_label, run@) =~= scan(
                        m0,
                        text@.take(j + 1),
                    ).out);
                }
            }
            j = j + 1;
        }
        proof {
            assert(text@.take(n as int) =~= text@);
        }
        if run.len() > 0 {
            let done = if run_label {
                AiChunk::Reasoning(chars_to_string(&run))
            } else {
                AiChunk::Content(chars_to_string(&run))
            };
            proof {
                lemma_flatten_snoc(chunk_views(chunks@), done@);
                assert(chunk_views(chunks@.push(done)) =~= chunk_views(chunks@).push(done@));
                assert(chunk_is_reasoning(done@) == run_label);
            }
            chunks.push(done);
        }
        self.inside_think = inside;
        self.buffer = chars_to_string(&held);
        proof {
            assert(flatten_chunks(chunk_views(chunks@)) =~= scan(m0, text@).out);
        }
        chunks
    }
}

} // verus!
