//! Assembling the context of a prompt from retrieved chunks within a token
//! budget, and reading citations back out of answers.
use vstd::prelude::*;
use crate::rag::retrieval::RetrievedChunk;
use crate::text::{byte_len, chars_of, decimal, push_str, str_len, string_from_chars, usize_to_decimal};

verus! {

/// How a chunk is labelled in the context.
#[derive(Debug, Clone, Copy, PartialEq, Eq, Structural)]
pub enum CitationFormat {
    /// `[n] content`
    Numeric,
    /// `(chunk id) content`
    ChunkId,
    /// `@title: content`, the chunk id standing in for a missing title.
    SourceName,
}

/// A chunk that made it into the context, with its position among the hits.
/// The score is held as the bit pattern of the `f32` it stands for.
#[derive(Debug, Clone)]
pub struct Citation {
    pub index: usize,
    pub chunk_id: String,
    pub content: String,
    pub document_title: Option<String>,
    pub score_bits: u32,
    pub channel: String,
}

/// The assembled context and what went into it.
#[derive(Debug, Clone)]
pub struct BuiltContext {
    pub context_text: String,
    pub citations: Vec<Citation>,
    pub chunks_used: usize,
    pub chunks_dropped: usize,
    pub tokens_used: usize,
}

/// Estimated tokens of a text: a quarter of its UTF-8 byte length, rounded down.
pub open spec fn token_estimate(content: Seq<char>) -> nat {
    (str_len(content) / 4) as nat
}

/// Greedy selection in rank order: a chunk is taken when its tokens still fit in
/// what is left of the budget, and skipped otherwise. Yields the positions taken
/// and the tokens they use.
pub open spec fn greedy(chunks: Seq<RetrievedChunk>, budget: nat) -> (Seq<int>, nat)
    decreases chunks.len(),
{
    if chunks.len() == 0 {
        (Seq::empty(), 0)
    } else {
        let (sel, used) = greedy(chunks.drop_last(), budget);
        let t = token_estimate(chunks.last().content@);
        if used + t > budget {
            (sel, used)
        } else {
            (sel.push(chunks.len() - 1), used + t)
        }
    }
}

/// The label of a chunk under the source-name format.
pub open spec fn source_label(c: RetrievedChunk) -> Seq<char> {
    match c.metadata.document_title {
        Some(t) => t@,
        None => c.chunk_id@,
    }
}

/// The context line of hit `i`.
pub open spec fn entry(fmt: CitationFormat, c: RetrievedChunk, i: int) -> Seq<char> {
    match fmt {
        CitationFormat::Numeric => "["@ + decimal((i + 1) as nat) + "] "@ + c.content@ + "\n"@,
        CitationFormat::ChunkId => "("@ + c.chunk_id@ + ") "@ + c.content@ + "\n"@,
        CitationFormat::SourceName => "@"@ + source_label(c) + ": "@ + c.content@ + "\n"@,
    }
}

/// The context lines of the hits at positions `sel`, in order.
pub open spec fn context_text(chunks: Seq<RetrievedChunk>, sel: Seq<int>, fmt: CitationFormat) -> Seq<char>
    decreases sel.len(),
{
    if sel.len() == 0 {
        Seq::empty()
    } else {
        context_text(chunks, sel.drop_last(), fmt) + entry(fmt, chunks[sel.last()], sel.last())
    }
}

/// Citation `c` refers to `chunk`, hit number `i + 1`.
pub open spec fn cites(c: Citation, chunk: RetrievedChunk, i: int) -> bool {
    &&& c.index == i + 1
    &&& c.chunk_id@ == chunk.chunk_id@
    &&& c.content@ == chunk.content@
    &&& c.document_title == chunk.metadata.document_title
    &&& c.score_bits == chunk.score_bits
    &&& c.channel@ == chunk.channel@
}

/// Law: the greedy selection stays within the budget, takes positions in
/// increasing order inside the list, and takes each position whose tokens fit.
pub proof fn law_greedy_within_budget(chunks: Seq<RetrievedChunk>, budget: nat)
    ensures
        greedy(chunks, budget).1 <= budget,
        greedy(chunks, budget).0.len() <= chunks.len(),
        forall|k: int| 0 <= k < greedy(chunks, budget).0.len() ==>
            0 <= #[trigger] greedy(chunks, budget).0[k] < chunks.len(),
        forall|k: int, l: int| 0 <= k < l < greedy(chunks, budget).0.len() ==>
            greedy(chunks, budget).0[k] < greedy(chunks, budget).0[l],
    decreases chunks.len(),
{
    if chunks.len() > 0 {
        law_greedy_within_budget(chunks.drop_last(), budget);
    }
}

/// Assembles prompt context from ranked hits within a token budget.
#[derive(Debug, Clone)]
pub struct ContextBuilder {
    total_budget: usize,
    system_prompt_reserve: usize,
    query_reserve: usize,
    output_reserve: usize,
    min_chunk_overlap: usize,
    citation_format: CitationFormat,
}

impl ContextBuilder {
    pub closed spec fn total(&self) -> usize {
        self.total_budget
    }

    pub closed spec fn system_reserve(&self) -> usize {
        self.system_prompt_reserve
    }

    pub closed spec fn query_reserve(&self) -> usize {
        self.query_reserve
    }

    pub closed spec fn output_reserve(&self) -> usize {
        self.output_reserve
    }

    pub closed spec fn overlap(&self) -> usize {
        self.min_chunk_overlap
    }

    pub closed spec fn format(&self) -> CitationFormat {
        self.citation_format
    }

    /// The tokens set aside for the system prompt, the query and the output.
    pub open spec fn reserved(&self) -> nat {
        (self.system_reserve() + self.query_reserve() + self.output_reserve()) as nat
    }

    /// The tokens left for context: the total less the reserves, or 0.
    pub open spec fn budget(&self) -> nat {
        if self.total() >= self.reserved() { (self.total() - self.reserved()) as nat } else { 0 }
    }

    /// A builder with reserves of 256 (system prompt), 128 (query) and 512
    /// (output) tokens, overlap 50 and numeric citations.
    pub fn new(total_budget: usize) -> (r: Self)
        ensures
            r.total() == total_budget,
            r.system_reserve() == 256,
            r.query_reserve() == 128,
            r.output_reserve() == 512,
            r.overlap() == 50,
            r.format() == CitationFormat::Numeric,
    {
        ContextBuilder {
            total_budget,
            system_prompt_reserve: 256,
            query_reserve: 128,
            output_reserve: 512,
            min_chunk_overlap: 50,
            citation_format: CitationFormat::Numeric,
        }
    }

    pub fn with_reserves(self, system: usize, query: usize, output: usize) -> (r: Self)
        ensures
            r.total() == self.total(),
            r.system_reserve() == system,
            r.query_reserve() == query,
            r.output_reserve() == output,
            r.overlap() == self.overlap(),
            r.format() == self.format(),
    {
        let mut b = self;
        b.system_prompt_reserve = system;
        b.query_reserve = query;
        b.output_reserve = output;
        b
    }

    pub fn with_citation_format(self, format: CitationFormat) -> (r: Self)
        ensures
            r.total() == self.total(),
            r.system_reserve() == self.system_reserve(),
            r.query_reserve() == self.query_reserve(),
            r.output_reserve() == self.output_reserve(),
            r.overlap() == self.overlap(),
            r.format() == format,
    {
        let mut b = self;
        b.citation_format = format;
        b
    }

    /// Whether the three reserves add up without overflowing `usize`.
    pub fn reserves_fit(&self) -> (r: bool)
        ensures
            r == (self.reserved() <= usize::MAX),
    {
        match self.system_prompt_reserve.checked_add(self.query_reserve) {
            Some(s) => s.checked_add(self.output_reserve).is_some(),
            None => false,
        }
    }

    /// Tokens available for context. The reserves must add up without overflow.
    pub fn context_budget(&self) -> (r: usize)
        requires
            self.reserved() <= usize::MAX,
        ensures
            r == self.budget(),
    {
        let reserved = self.system_prompt_reserve + self.query_reserve + self.output_reserve;
        self.total_budget.saturating_sub(reserved)
    }

    /// Takes the hits in rank order while their estimated tokens fit the budget
    /// (see [`greedy`]), labels each by the citation format, and reports what
    /// was used and dropped.
    pub fn build(&self, chunks: &[RetrievedChunk], query: &str) -> (r: BuiltContext)
        requires
            self.reserved() <= usize::MAX,
        ensures
            ({
                let (sel, used) = greedy(chunks@, self.budget());
                &&& r.citations@.len() == sel.len()
                &&& forall|k: int| 0 <= k < sel.len() ==>
                    cites(#[trigger] r.citations@[k], chunks@[sel[k]], sel[k])
                &&& r.context_text@ == context_text(chunks@, sel, self.format())
                &&& r.chunks_used == sel.len()
                &&& r.chunks_dropped == chunks@.len() - sel.len()
                &&& r.tokens_used == used
            }),
    {
        let budget = self.context_budget();
        let fmt = self.citation_format;
        let mut text = String::new();
        let mut citations: Vec<Citation> = Vec::new();
        let mut used: usize = 0;
        let mut tokens: usize = 0;
        let ghost mut sel: Seq<int> = Seq::empty();
        let mut i: usize = 0;
        while i < chunks.len()
            invariant
                i <= chunks@.len(),
                budget == self.budget(),
                fmt == self.format(),
                greedy(chunks@.take(i as int), budget as nat) == (sel, tokens as nat),
                tokens <= budget,
                used == sel.len(),
                used <= i,
                citations@.len() == sel.len(),
                forall|k: int| 0 <= k < sel.len() ==> 0 <= #[trigger] sel[k] < i,
                forall|k: int| 0 <= k < sel.len() ==> cites(#[trigger] citations@[k], chunks@[sel[k]], sel[k]),
                text@ == context_text(chunks@, sel, fmt),
            decreases chunks.len() - i,
        {
            let chunk = &chunks[i];
            let t = byte_len(chunk.content.as_str()) / 4;
            proof {
                assert(chunks@.take(i + 1).drop_last() =~= chunks@.take(i as int));
                assert(chunks@.take(i + 1).last() == chunks@[i as int]);
            }
            if t <= budget - tokens {
                let ghost old_text = text@;
                match fmt {
                    CitationFormat::Numeric => {
                        let n = usize_to_decimal(i + 1);
                        push_str(&mut text, "[");
                        push_str(&mut text, n.as_str());
                        push_str(&mut text, "] ");
                    },
                    CitationFormat::ChunkId => {
                        push_str(&mut text, "(");
                        push_str(&mut text, chunk.chunk_id.as_str());
                        push_str(&mut text, ") ");
                    },
                    CitationFormat::SourceName => {
                        push_str(&mut text, "@");
                        match &chunk.metadata.document_title {
                            Some(title) => push_str(&mut text, title.as_str()),
                            None => push_str(&mut text, chunk.chunk_id.as_str()),
                        }
                        push_str(&mut text, ": ");
                    },
                }
                push_str(&mut text, chunk.content.as_str());
                push_str(&mut text, "\n");
                proof {
                    assert(text@ =~= old_text + entry(fmt, chunks@[i as int], i as int));
                    assert(sel.push(i as int).drop_last() =~= sel);
                }
                let citation = Citation {
                    index: i + 1,
                    chunk_id: chunk.chunk_id.clone(),
                    content: chunk.content.clone(),
                    document_title: chunk.metadata.document_title.clone(),
                    score_bits: chunk.score_bits,
                    channel: chunk.channel.clone(),
                };
                citations.push(citation);
                used = used + 1;
                tokens = tokens + t;
                proof {
                    sel = sel.push(i as int);
                }
            }
            i = i + 1;
        }
        proof {
            assert(chunks@.take(chunks@.len() as int) =~= chunks@);
            law_greedy_within_budget(chunks@, budget as nat);
        }
        BuiltContext {
            context_text: text,
            citations,
            chunks_used: used,
            chunks_dropped: chunks.len() - used,
            tokens_used: tokens,
        }
    }
}

/// The first 100 characters of a text (all of it when shorter).
pub open spec fn preview(s: Seq<char>) -> Seq<char> {
    if s.len() <= 100 { s } else { s.take(100) }
}

/// One line of a numeric citation list: `[n] ` and the preview of the content,
/// with `...` when the content is longer than 100 bytes.
pub open spec fn citation_line(c: Citation) -> Seq<char> {
    "["@ + decimal(c.index as nat) + "] "@ + preview(c.content@)
        + (if str_len(c.content@) > 100 { "..."@ } else { Seq::empty() })
}

/// The lines of the citations, joined by line breaks.
pub open spec fn citation_lines(cs: Seq<Citation>) -> Seq<char>
    decreases cs.len(),
{
    if cs.len() == 0 {
        Seq::empty()
    } else if cs.len() == 1 {
        citation_line(cs[0])
    } else {
        citation_lines(cs.drop_last()) + "\n"@ + citation_line(cs.last())
    }
}

/// The citations as a numbered list, one per line.
pub fn format_citations_numeric(citations: &[Citation]) -> (r: String)
    ensures
        r@ == citation_lines(citations@),
{
    let mut out = String::new();
    let mut i: usize = 0;
    while i < citations.len()
        invariant
            i <= citations@.len(),
            out@ == citation_lines(citations@.take(i as int)),
        decreases citations.len() - i,
    {
        let c = &citations[i];
        let ghost before = out@;
        proof {
            assert(citations@.take(i + 1).drop_last() =~= citations@.take(i as int));
            assert(citations@.take(i + 1).last() == citations@[i as int]);
        }
        if i > 0 {
            push_str(&mut out, "\n");
        }
        let ghost mid = out@;
        let n = usize_to_decimal(c.index);
        push_str(&mut out, "[");
        push_str(&mut out, n.as_str());
        push_str(&mut out, "] ");
        let cs = chars_of(c.content.as_str());
        let end = if cs.len() <= 100 { cs.len() } else { 100 };
        let head = string_from_chars(cs.as_slice(), 0, end);
        proof {
            assert(cs@.subrange(0, end as int) =~= preview(c.content@));
        }
        push_str(&mut out, head.as_str());
        if byte_len(c.content.as_str()) > 100 {
            push_str(&mut out, "...");
        }
        proof {
            assert(out@ =~= mid + citation_line(citations@[i as int]));
            if i == 0 {
                assert(citations@.take(1) =~= seq![citations@[0]]);
            }
        }
        i = i + 1;
    }
    proof {
        assert(citations@.take(citations@.len() as int) =~= citations@);
    }
    out
}

/// Whether `c` is an ASCII digit.
pub open spec fn is_digit(c: char) -> bool {
    '0' <= c <= '9'
}

/// The number written by the decimal digits `s`.
pub open spec fn digits_value(s: Seq<char>) -> int
    decreases s.len(),
{
    if s.len() == 0 {
        0
    } else {
        digits_value(s.drop_last()) * 10 + (s.last() as int - '0' as int)
    }
}

/// Whether `str::parse::<usize>` accepts `s` when `s` holds only digits and
/// commas: it is non-empty, all digits, and its value fits in `usize`.
pub open spec fn parses_usize(s: Seq<char>) -> bool {
    &&& s.len() > 0
    &&& forall|i: int| 0 <= i < s.len() ==> is_digit(#[trigger] s[i])
    &&& digits_value(s) <= usize::MAX
}

proof fn lemma_digits_value_grows(s: Seq<char>, i: int)
    requires
        0 <= i <= s.len(),
        forall|j: int| 0 <= j < s.len() ==> is_digit(#[trigger] s[j]),
    ensures
        0 <= digits_value(s.take(i)) <= digits_value(s),
    decreases s.len() - i,
{
    if i < s.len() {
        lemma_digits_value_grows(s, i + 1);
        assert(s.take(i + 1).drop_last() =~= s.take(i));
        assert(is_digit(s[i]));
    } else {
        assert(s.take(i) =~= s);
        lemma_digits_value_nonneg(s);
    }
}

proof fn lemma_digits_value_nonneg(s: Seq<char>)
    requires
        forall|j: int| 0 <= j < s.len() ==> is_digit(#[trigger] s[j]),
    ensures
        digits_value(s) >= 0,
    decreases s.len(),
{
    if s.len() > 0 {
        lemma_digits_value_nonneg(s.drop_last());
        assert(is_digit(s[s.len() - 1]));
    }
}

/// Parses decimal digits as a `usize`; `None` when `s` is empty, holds another
/// character, or names a number beyond `usize::MAX`.
pub fn parse_usize(s: &[char]) -> (r: Option<usize>)
    ensures
        r is Some <==> (s@.len() > 0 && (forall|i: int| 0 <= i < s@.len() ==> is_digit(#[trigger] s@[i]))
            && digits_value(s@) <= usize::MAX),
        r is Some ==> r->Some_0 == digits_value(s@),
{
    if s.len() == 0 {
        return None;
    }
    let mut i: usize = 0;
    while i < s.len()
        invariant
            i <= s@.len(),
            forall|j: int| 0 <= j < i ==> is_digit(#[trigger] s@[j]),
        decreases s.len() - i,
    {
        if !('0' <= s[i] && s[i] <= '9') {
            return None;
        }
        i = i + 1;
    }
    let mut v: usize = 0;
    let mut k: usize = 0;
    while k < s.len()
        invariant
            k <= s@.len(),
            forall|j: int| 0 <= j < s@.len() ==> is_digit(#[trigger] s@[j]),
            v == digits_value(s@.take(k as int)),
        decreases s.len() - k,
    {
        let d = (s[k] as u32 - '0' as u32) as usize;
        proof {
            assert(s@.take(k + 1).drop_last() =~= s@.take(k as int));
            assert(is_digit(s@[k as int]));
        }
        match v.checked_mul(10) {
            Some(m) => match m.checked_add(d) {
                Some(n) => {
                    v = n;
                },
                None => {
                    proof {
                        lemma_digits_value_grows(s@, k + 1);
                    }
                    return None;
                },
            },
            None => {
                proof {
                    lemma_digits_value_grows(s@, k + 1);
                    lemma_digits_value_nonneg(s@.take(k as int));
                }
                return None;
            },
        }
        k = k + 1;
    }
    proof {
        assert(s@.take(s@.len() as int) =~= s@);
    }
    Some(v)
}

/// One step of scanning an answer for `[n]` citations. The state is the indices
/// found so far, the text of the bracket being read, and whether a bracket is
/// open.
pub open spec fn scan_step(st: (Seq<usize>, Seq<char>, bool), c: char) -> (Seq<usize>, Seq<char>, bool) {
    let (found, cur, open) = st;
    if c == '[' && !open {
        (found, Seq::empty(), true)
    } else if c == ']' && open {
        (if parses_usize(cur) { found.push(digits_value(cur) as usize) } else { found }, cur, false)
    } else if open && (is_digit(c) || c == ',') {
        (found, cur.push(c), true)
    } else {
        (found, Seq::empty(), false)
    }
}

/// The scanning state after reading all of `s`.
pub open spec fn scan(s: Seq<char>) -> (Seq<usize>, Seq<char>, bool)
    decreases s.len(),
{
    if s.len() == 0 {
        (Seq::empty(), Seq::empty(), false)
    } else {
        scan_step(scan(s.drop_last()), s.last())
    }
}

/// The numbers cited as `[n]` in an answer, in order of appearance.
pub fn extract_citation_indices(answer: &str) -> (r: Vec<usize>)
    ensures
        r@ == scan(answer@).0,
{
    let cs = chars_of(answer);
    let mut found: Vec<usize> = Vec::new();
    let mut cur: Vec<char> = Vec::new();
    let mut open = false;
    let mut i: usize = 0;
    while i < cs.len()
        invariant
            i <= cs@.len(),
            cs@ == answer@,
            scan(cs@.take(i as int)) == (found@, cur@, open),
        decreases cs.len() - i,
    {
        let c = cs[i];
        proof {
            assert(cs@.take(i + 1).drop_last() =~= cs@.take(i as int));
            assert(cs@.take(i + 1).last() == c);
        }
        if c == '[' && !open {
            open = true;
            cur = Vec::new();
        } else if c == ']' && open {
            match parse_usize(cur.as_slice()) {
                Some(v) => found.push(v),
                None => {},
            }
            open = false;
        } else if open && (('0' <= c && c <= '9') || c == ',') {
            cur.push(c);
        } else {
            open = false;
            cur = Vec::new();
        }
        proof {
            assert(scan(cs@.take(i + 1)) == scan_step(scan(cs@.take(i as int)), c));
        }
        i = i + 1;
    }
    proof {
        assert(cs@.take(cs@.len() as int) =~= cs@);
    }
    found
}


/// The estimated tokens of the hits at positions `sel`, added up.
pub open spec fn selected_tokens(chunks: Seq<RetrievedChunk>, sel: Seq<int>) -> nat
    decreases sel.len(),
{
    if sel.len() == 0 {
        0
    } else {
        selected_tokens(chunks, sel.drop_last()) + token_estimate(chunks[sel.last()].content@)
    }
}

proof fn lemma_selected_tokens_prefix(chunks: Seq<RetrievedChunk>, n: int, sel: Seq<int>)
    requires
        0 <= n <= chunks.len(),
        forall|k: int| 0 <= k < sel.len() ==> 0 <= #[trigger] sel[k] < n,
    ensures
        selected_tokens(chunks, sel) == selected_tokens(chunks.take(n), sel),
    decreases sel.len(),
{
    if sel.len() > 0 {
        lemma_selected_tokens_prefix(chunks, n, sel.drop_last());
        assert(chunks.take(n)[sel.last()] == chunks[sel.last()]);
    }
}

/// Law: the context takes hit `i` exactly when the estimated tokens of the hits
/// taken before it, plus its own, stay within the budget; and the tokens it
/// reports used are those of the hits it took.
pub proof fn law_greedy_rule(chunks: Seq<RetrievedChunk>, budget: nat)
    ensures
        greedy(chunks, budget).1 == selected_tokens(chunks, greedy(chunks, budget).0),
        forall|i: int| 0 <= i < chunks.len() ==> (#[trigger] greedy(chunks, budget).0.contains(i)
            <==> greedy(chunks.take(i), budget).1 + token_estimate(chunks[i].content@) <= budget),
    decreases chunks.len(),
{
    if chunks.len() > 0 {
        let n = chunks.len() as int;
        let d = chunks.drop_last();
        law_greedy_rule(d, budget);
        law_greedy_within_budget(d, budget);
        let (sel_d, used_d) = greedy(d, budget);
        let t = token_estimate(chunks.last().content@);
        assert(chunks.take(n - 1) =~= d);
        assert(d =~= chunks.take(n - 1));
        lemma_selected_tokens_prefix(chunks, n - 1, sel_d);
        assert forall|i: int| 0 <= i < n implies (#[trigger] greedy(chunks, budget).0.contains(i)
            <==> greedy(chunks.take(i), budget).1 + token_estimate(chunks[i].content@) <= budget) by {
            if i < n - 1 {
                assert(chunks.take(i) =~= d.take(i));
                assert(chunks[i] == d[i]);
                if used_d + t <= budget {
                    assert(sel_d.push(n - 1).contains(i) <==> sel_d.contains(i)) by {
                        if sel_d.push(n - 1).contains(i) {
                            let k = choose|k: int| 0 <= k < sel_d.push(n - 1).len() && #[trigger] sel_d.push(n - 1)[k] == i;
                            if k < sel_d.len() {
                                assert(sel_d[k] == i);
                            }
                        }
                        if sel_d.contains(i) {
                            let k = choose|k: int| 0 <= k < sel_d.len() && #[trigger] sel_d[k] == i;
                            assert(sel_d.push(n - 1)[k] == i);
                        }
                    }
                }
            } else {
                if used_d + t <= budget {
                    assert(sel_d.push(n - 1)[sel_d.len() as int] == n - 1);
                } else {
                    if sel_d.contains(n - 1) {
                        let k = choose|k: int| 0 <= k < sel_d.len() && #[trigger] sel_d[k] == n - 1;
                        assert(sel_d[k] < d.len());
                    }
                }
            }
        }
        if used_d + t <= budget {
            assert(sel_d.push(n - 1).drop_last() =~= sel_d);
        }
    }
}

} // verus!
