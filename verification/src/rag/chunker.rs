//! Chunking strategies: fixed windows, recursive separator splitting, and
//! separator-boundary splitting.
use vstd::prelude::*;
use crate::text::{
    chars_are_blank, chars_of, is_blank, lemma_utf8_len_bounds, lemma_utf8_len_concat, split_by,
    split_chars, string_from_chars, utf8_len, utf8_len_of, vec_from_range,
};

verus! {

/// A way of cutting a text into chunks.
pub trait ChunkStrategy: Send + Sync {
    /// The chunks this strategy makes of `text`.
    spec fn spec_chunk(&self, text: Seq<char>) -> Seq<Seq<char>>;

    /// The strategy's name.
    spec fn spec_name(&self) -> Seq<char>;

    fn chunk(&self, text: &str) -> (r: Vec<String>)
        ensures
            r@.len() == self.spec_chunk(text@).len(),
            forall|i: int| 0 <= i < r@.len() ==> (#[trigger] r@[i])@ == self.spec_chunk(text@)[i],
    ;

    fn name(&self) -> (r: &str)
        ensures
            r@ == self.spec_name(),
    ;
}

/// Number of windows of stride `step` over `len` characters.
pub open spec fn window_count(len: nat, step: nat) -> nat {
    if len == 0 || step == 0 {
        0
    } else {
        ((len - 1) as nat / step + 1) as nat
    }
}

/// Window `i`: up to `size` characters from position `i * step`.
pub open spec fn window(t: Seq<char>, i: int, size: nat, step: nat) -> Seq<char> {
    let s = i * step;
    let e = if s + size < t.len() { s + size } else { t.len() as int };
    t.subrange(s, e)
}

/// All windows of `size` characters with stride `step` that start inside `t`.
pub open spec fn windows(t: Seq<char>, size: nat, step: nat) -> Seq<Seq<char>> {
    Seq::new(window_count(t.len(), step), |i: int| window(t, i, size, step))
}

/// The windows of `cs`, as strings.
fn char_windows(cs: &Vec<char>, size: usize, step: usize) -> (r: Vec<String>)
    requires
        0 < step <= size,
    ensures
        r@.len() == windows(cs@, size as nat, step as nat).len(),
        forall|i: int| 0 <= i < r@.len() ==> (#[trigger] r@[i])@ == windows(cs@, size as nat, step as nat)[i],
{
    let len = cs.len();
    let mut r: Vec<String> = Vec::new();
    let mut start: usize = 0;
    let mut done = len == 0;
    proof {
        assert(0 * step == 0) by (nonlinear_arith);
    }
    while !done
        invariant
            0 < step <= size,
            len == cs@.len(),
            !done ==> start < len,
            !done ==> start as int == r@.len() * step,
            done ==> r@.len() * step >= len,
            r@.len() > 0 ==> (r@.len() - 1) * step < len,
            forall|j: int| 0 <= j < r@.len() ==> (#[trigger] r@[j])@ == window(cs@, j, size as nat, step as nat),
        decreases len - start + (if done { 0int } else { 1int }),
    {
        let end = if size > len - start { len } else { start + size };
        let piece = string_from_chars(cs.as_slice(), start, end);
        let ghost k = r@.len();
        proof {
            assert(piece@ == window(cs@, k as int, size as nat, step as nat));
        }
        r.push(piece);
        proof {
            assert((k + 1) * step == k * step + step) by (nonlinear_arith);
            assert(k * step < len);
        }
        if step >= len - start {
            done = true;
        } else {
            start = start + step;
        }
    }
    proof {
        let k = r@.len();
        if len > 0 {
            assert(k > 0);
            assert((len - 1) / (step as int) == k - 1) by (nonlinear_arith)
                requires (k - 1) * step <= len - 1, len - 1 < k * step, step > 0, k > 0;
        }
        assert forall|i: int| 0 <= i < r@.len() implies (#[trigger] r@[i])@ == windows(cs@, size as nat, step as nat)[i] by {}
    }
    r
}

/// Cuts text into windows of `chunk_size` characters, each starting
/// `chunk_size - overlap` characters after the previous one.
pub struct FixedSizeChunker {
    chunk_size: usize,
    overlap: usize,
}

impl FixedSizeChunker {
    /// A chunker; the overlap must be smaller than the chunk size.
    pub fn new(chunk_size: usize, overlap: usize) -> (r: Self)
        requires
            overlap < chunk_size,
        ensures
            r.size() == chunk_size,
            r.overlap() == overlap,
            r.wf(),
    {
        FixedSizeChunker { chunk_size, overlap }
    }

    pub closed spec fn size(&self) -> nat {
        self.chunk_size as nat
    }

    pub closed spec fn overlap(&self) -> nat {
        self.overlap as nat
    }

    pub closed spec fn wf(&self) -> bool {
        self.overlap < self.chunk_size
    }
}

impl ChunkStrategy for FixedSizeChunker {
    open spec fn spec_chunk(&self, text: Seq<char>) -> Seq<Seq<char>> {
        if self.overlap() < self.size() {
            windows(text, self.size(), (self.size() - self.overlap()) as nat)
        } else {
            Seq::empty()
        }
    }

    open spec fn spec_name(&self) -> Seq<char> {
        "fixed_size"@
    }

    fn chunk(&self, text: &str) -> (r: Vec<String>) {
        if self.overlap >= self.chunk_size {
            return Vec::new();
        }
        let cs = chars_of(text);
        char_windows(&cs, self.chunk_size, self.chunk_size - self.overlap)
    }

    fn name(&self) -> (r: &str) {
        "fixed_size"
    }
}

/// Whether position `p` of `t` lies in one of its windows.
pub open spec fn covered(t: Seq<char>, size: nat, step: nat, p: int) -> bool {
    exists|i: int| 0 <= i < windows(t, size, step).len()
        && i * step <= p < i * step + (#[trigger] windows(t, size, step)[i]).len()
}

/// Law: every fixed-size chunk holds at most `size` characters, every character
/// of the text lies in some chunk, and a full chunk's last `overlap` characters
/// begin the next chunk.
pub proof fn law_windows(t: Seq<char>, size: nat, overlap: nat)
    requires
        overlap < size,
    ensures
        forall|i: int| 0 <= i < windows(t, size, (size - overlap) as nat).len() ==>
            (#[trigger] windows(t, size, (size - overlap) as nat)[i]).len() <= size,
        forall|p: int| 0 <= p < t.len() ==> #[trigger] covered(t, size, (size - overlap) as nat, p),
        forall|i: int| 0 <= i < windows(t, size, (size - overlap) as nat).len() - 1
            && (#[trigger] windows(t, size, (size - overlap) as nat)[i]).len() == size ==>
            windows(t, size, (size - overlap) as nat)[i].skip((size - overlap) as int)
                == windows(t, size, (size - overlap) as nat)[i + 1].take(overlap as int),
{
    let step = (size - overlap) as nat;
    let ws = windows(t, size, step);
    assert forall|i: int| 0 <= i < ws.len() implies (#[trigger] ws[i]).len() <= size by {
        assert(0 <= i * step) by (nonlinear_arith) requires i >= 0;
        assert(i * step < t.len()) by (nonlinear_arith)
            requires 0 <= i < ws.len(), ws.len() == window_count(t.len(), step), step > 0,
                t.len() > 0, i <= (t.len() - 1) as nat / step;
    }
    assert forall|p: int| 0 <= p < t.len() implies #[trigger] covered(t, size, step, p) by {
        let i = p / (step as int);
        assert(0 <= i * step <= p < i * step + step) by (nonlinear_arith)
            requires i == p / (step as int), step > 0, p >= 0;
        assert(i <= (t.len() - 1) as nat / step) by (nonlinear_arith)
            requires i == p / (step as int), step > 0, 0 <= p <= t.len() - 1;
        assert(0 <= i < ws.len());
        assert(ws[i].len() >= p - i * step + 1);
    }
    assert forall|i: int| 0 <= i < ws.len() - 1 && (#[trigger] ws[i]).len() == size implies
        ws[i].skip(step as int) == ws[i + 1].take(overlap as int) by {
        assert((i + 1) * step == i * step + step) by (nonlinear_arith);
        assert(0 <= i * step) by (nonlinear_arith) requires i >= 0;
        assert((i + 1) * step < t.len()) by (nonlinear_arith)
            requires 0 <= i + 1 < ws.len(), ws.len() == window_count(t.len(), step), step > 0,
                t.len() > 0, i + 1 <= (t.len() - 1) as nat / step;
        assert(ws[i].skip(step as int) =~= ws[i + 1].take(overlap as int));
    }
}

/// One left-to-right pass of merging: pieces join the current chunk while their
/// combined UTF-8 length stays within `size` bytes.
pub open spec fn merge_state(pieces: Seq<Seq<char>>, size: nat, n: int) -> (Seq<Seq<char>>, Seq<char>)
    decreases n,
{
    if n <= 1 {
        (Seq::empty(), pieces[0])
    } else {
        let (done, cur) = merge_state(pieces, size, n - 1);
        let next = pieces[n - 1];
        if utf8_len(cur) + utf8_len(next) <= size {
            (done, cur + next)
        } else {
            (done.push(cur), next)
        }
    }
}

/// The chunks after merging neighbouring pieces within `size` bytes.
pub open spec fn merged(pieces: Seq<Seq<char>>, size: nat) -> Seq<Seq<char>> {
    if pieces.len() == 0 {
        Seq::empty()
    } else {
        let (done, cur) = merge_state(pieces, size, pieces.len() as int);
        done.push(cur)
    }
}

/// The recursive split of `t`: whole when within `size` bytes (nothing when
/// empty); else cut at the first separator that occurs, split each piece with the
/// remaining separators and merge; else cut into windows of `size` characters.
pub open spec fn split_rec(t: Seq<char>, seps: Seq<Seq<char>>, size: nat, step: nat) -> Seq<Seq<char>>
    decreases 2 * seps.len() + 1, 0nat,
{
    if utf8_len(t) <= size {
        if t.len() == 0 { Seq::empty() } else { seq![t] }
    } else if seps.len() > 0 {
        let parts = split_by(t, seps[0]);
        if parts.len() > 1 {
            merged(split_parts(parts, seps.skip(1), size, step), size)
        } else {
            split_rec(t, seps.skip(1), size, step)
        }
    } else {
        windows(t, size, step)
    }
}

/// The recursive splits of each part, concatenated in order.
pub open spec fn split_parts(parts: Seq<Seq<char>>, seps: Seq<Seq<char>>, size: nat, step: nat) -> Seq<Seq<char>>
    decreases 2 * seps.len() + 2, parts.len(),
{
    if parts.len() == 0 {
        Seq::empty()
    } else {
        split_parts(parts.drop_last(), seps, size, step) + split_rec(parts.last(), seps, size, step)
    }
}

/// Splits by trying separators in order, largest unit first (paragraphs, lines,
/// sentences, words), and merges small pieces back up to the chunk size.
pub struct RecursiveCharacterChunker {
    chunk_size: usize,
    overlap: usize,
    separators: Vec<String>,
}

impl RecursiveCharacterChunker {
    /// A chunker; the overlap must be smaller than the chunk size.
    pub fn new(chunk_size: usize, overlap: usize, separators: Vec<String>) -> (r: Self)
        requires
            overlap < chunk_size,
        ensures
            r.size() == chunk_size,
            r.step() == chunk_size - overlap,
            r.step() > 0,
            r.seps() == separators@.map_values(|s: String| s@),
    {
        RecursiveCharacterChunker { chunk_size, overlap, separators }
    }

    pub closed spec fn size(&self) -> nat {
        self.chunk_size as nat
    }

    pub closed spec fn step(&self) -> nat {
        if self.overlap < self.chunk_size { (self.chunk_size - self.overlap) as nat } else { 0 }
    }

    pub closed spec fn seps(&self) -> Seq<Seq<char>> {
        self.separators@.map_values(|s: String| s@)
    }

    /// Paragraph, line, sentence and word breaks.
    pub fn default_separators() -> (r: Vec<String>)
        ensures
            r@.len() == 4,
            r@[0]@ == "\n\n"@,
            r@[1]@ == "\n"@,
            r@[2]@ == ". "@,
            r@[3]@ == " "@,
    {
        let mut r = Vec::new();
        r.push(String::from_str("\n\n"));
        r.push(String::from_str("\n"));
        r.push(String::from_str(". "));
        r.push(String::from_str(" "));
        r
    }

    /// Joins neighbouring chunks while their combined UTF-8 length stays within
    /// the chunk size.
    pub fn merge_chunks(&self, chunks: Vec<Vec<char>>) -> (r: Vec<Vec<char>>)
        ensures
            r@.len() == merged(chunks@.map_values(|c: Vec<char>| c@), self.size()).len(),
            forall|i: int| 0 <= i < r@.len() ==>
                (#[trigger] r@[i])@ == merged(chunks@.map_values(|c: Vec<char>| c@), self.size())[i],
    {
        let ghost ps = chunks@.map_values(|c: Vec<char>| c@);
        let mut merged_out: Vec<Vec<char>> = Vec::new();
        if chunks.len() == 0 {
            return merged_out;
        }
        let mut current: Vec<char> = chunks[0].clone();
        let mut cur_len: u128 = utf8_len_of(current.as_slice(), 0, current.len());
        proof {
            assert(current@ == ps[0]);
            assert(current@.subrange(0, current@.len() as int) =~= current@);
        }
        let mut i: usize = 1;
        while i < chunks.len()
            invariant
                1 <= i <= chunks@.len(),
                ps == chunks@.map_values(|c: Vec<char>| c@),
                cur_len == utf8_len(current@),
                merge_state(ps, self.chunk_size as nat, i as int).1 == current@,
                merge_state(ps, self.chunk_size as nat, i as int).0.len() == merged_out@.len(),
                forall|j: int| 0 <= j < merged_out@.len() ==>
                    (#[trigger] merged_out@[j])@ == merge_state(ps, self.chunk_size as nat, i as int).0[j],
            decreases chunks.len() - i,
        {
            let next = &chunks[i];
            let next_len = utf8_len_of(next.as_slice(), 0, next.len());
            proof {
                assert(next@.subrange(0, next@.len() as int) =~= next@);
                assert(ps[i as int] == next@);
            }
            if cur_len <= self.chunk_size as u128 && next_len <= self.chunk_size as u128 - cur_len {
                let mut k: usize = 0;
                let ghost before = current@;
                while k < next.len()
                    invariant
                        k <= next@.len(),
                        current@ == before + next@.take(k as int),
                    decreases next.len() - k,
                {
                    proof {
                        assert(next@.take(k + 1) =~= next@.take(k as int).push(next@[k as int]));
                    }
                    current.push(next[k]);
                    k = k + 1;
                }
                proof {
                    assert(next@.take(next@.len() as int) =~= next@);
                    lemma_utf8_len_concat(before, next@);
                }
                cur_len = cur_len + next_len;
            } else {
                let ghost old_out = merged_out@;
                merged_out.push(current);
                current = next.clone();
                cur_len = next_len;
                proof {
                    assert forall|j: int| 0 <= j < merged_out@.len() implies
                        (#[trigger] merged_out@[j])@ == merge_state(ps, self.chunk_size as nat, i + 1).0[j] by {
                        if j < old_out.len() {
                            assert(merged_out@[j] == old_out[j]);
                        }
                    }
                }
            }
            i = i + 1;
        }
        merged_out.push(current);
        merged_out
    }

    /// The recursive split of `text` with `separators`.
    pub fn split_recursive(&self, text: &Vec<char>, separators: &[String]) -> (r: Vec<Vec<char>>)
        ensures
            r@.len() == split_rec(text@, separators@.map_values(|s: String| s@), self.size(), self.step()).len(),
            forall|i: int| 0 <= i < r@.len() ==> (#[trigger] r@[i])@
                == split_rec(text@, separators@.map_values(|s: String| s@), self.size(), self.step())[i],
        decreases 2 * separators@.len() + 1, 0nat,
    {
        let ghost seps = separators@.map_values(|s: String| s@);
        let n = utf8_len_of(text.as_slice(), 0, text.len());
        proof {
            assert(text@.subrange(0, text@.len() as int) =~= text@);
        }
        if n <= self.chunk_size as u128 {
            let mut r: Vec<Vec<char>> = Vec::new();
            if text.len() > 0 {
                r.push(text.clone());
            }
            return r;
        }
        if separators.len() > 0 {
            let sep = chars_of(separators[0].as_str());
            let rest = slice_skip_first(separators);
            proof {
                assert(seps.skip(1) =~= rest@.map_values(|s: String| s@));
                assert(seps[0] == sep@);
            }
            let parts = split_chars(text.as_slice(), sep.as_slice());
            if parts.len() > 1 {
                let pieces = self.split_parts_exec(&parts, rest);
                proof {
                    assert(parts@.map_values(|c: Vec<char>| c@) =~= split_by(text@, sep@));
                    assert(pieces@.map_values(|c: Vec<char>| c@) =~= split_parts(
                        split_by(text@, sep@),
                        rest@.map_values(|s: String| s@),
                        self.size(),
                        self.step(),
                    ));
                }
                return self.merge_chunks(pieces);
            }
            return self.split_recursive(text, rest);
        }
        if self.overlap >= self.chunk_size {
            return Vec::new();
        }
        let ws = char_windows(text, self.chunk_size, self.chunk_size - self.overlap);
        let mut r: Vec<Vec<char>> = Vec::new();
        let mut i: usize = 0;
        while i < ws.len()
            invariant
                i <= ws@.len(),
                r@.len() == i,
                forall|j: int| 0 <= j < i ==> (#[trigger] r@[j])@ == ws@[j]@,
            decreases ws.len() - i,
        {
            r.push(chars_of(ws[i].as_str()));
            i = i + 1;
        }
        r
    }

    fn split_parts_exec(&self, parts: &Vec<Vec<char>>, seps: &[String]) -> (r: Vec<Vec<char>>)
        ensures
            r@.len() == split_parts(parts@.map_values(|c: Vec<char>| c@), seps@.map_values(|s: String| s@), self.size(), self.step()).len(),
            forall|i: int| 0 <= i < r@.len() ==> (#[trigger] r@[i])@
                == split_parts(parts@.map_values(|c: Vec<char>| c@), seps@.map_values(|s: String| s@), self.size(), self.step())[i],
        decreases 2 * seps@.len() + 2, parts@.len(),
    {
        let ghost ps = parts@.map_values(|c: Vec<char>| c@);
        let ghost ss = seps@.map_values(|s: String| s@);
        let mut out: Vec<Vec<char>> = Vec::new();
        let mut i: usize = 0;
        while i < parts.len()
            invariant
                i <= parts@.len(),
                ps == parts@.map_values(|c: Vec<char>| c@),
                ss == seps@.map_values(|s: String| s@),
                out@.len() == split_parts(ps.take(i as int), ss, self.size(), self.step()).len(),
                forall|j: int| 0 <= j < out@.len() ==> (#[trigger] out@[j])@
                    == split_parts(ps.take(i as int), ss, self.size(), self.step())[j],
            decreases parts.len() - i,
        {
            let piece = self.split_recursive(&parts[i], seps);
            proof {
                assert(ps.take(i + 1).drop_last() =~= ps.take(i as int));
                assert(ps.take(i + 1).last() == parts@[i as int]@);
            }
            let ghost old_out = out@;
            let mut k: usize = 0;
            while k < piece.len()
                invariant
                    k <= piece@.len(),
                    out@.len() == old_out.len() + k,
                    forall|j: int| 0 <= j < old_out.len() ==> out@[j] == old_out[j],
                    forall|j: int| 0 <= j < k ==> out@[old_out.len() + j]@ == piece@[j]@,
                decreases piece.len() - k,
            {
                let copy = vec_from_range(piece[k].as_slice(), 0, piece[k].len());
                proof {
                    assert(piece@[k as int]@.subrange(0, piece@[k as int]@.len() as int) =~= piece@[k as int]@);
                }
                out.push(copy);
                k = k + 1;
            }
            proof {
                let a = split_parts(ps.take(i as int), ss, self.size(), self.step());
                let b = split_rec(parts@[i as int]@, ss, self.size(), self.step());
                assert(split_parts(ps.take(i + 1), ss, self.size(), self.step()) == a + b);
                assert forall|j: int| 0 <= j < out@.len() implies (#[trigger] out@[j])@
                    == split_parts(ps.take(i + 1), ss, self.size(), self.step())[j] by {
                    if j < old_out.len() {
                        assert(out@[j] == old_out[j]);
                    } else {
                        assert(out@[j]@ == piece@[j - old_out.len()]@);
                    }
                }
            }
            i = i + 1;
        }
        proof {
            assert(ps.take(parts@.len() as int) =~= ps);
        }
        out
    }
}

impl ChunkStrategy for RecursiveCharacterChunker {
    open spec fn spec_chunk(&self, text: Seq<char>) -> Seq<Seq<char>> {
        split_rec(text, self.seps(), self.size(), self.step())
    }

    open spec fn spec_name(&self) -> Seq<char> {
        "recursive"@
    }

    fn chunk(&self, text: &str) -> (r: Vec<String>) {
        let cs = chars_of(text);
        let seps = self.separators.as_slice();
        proof {
            assert(seps@.map_values(|s: String| s@) == self.seps());
        }
        let pieces = self.split_recursive(&cs, seps);
        strings_of(&pieces)
    }

    fn name(&self) -> (r: &str) {
        "recursive"
    }
}

/// Character vectors as strings.
fn strings_of(pieces: &Vec<Vec<char>>) -> (r: Vec<String>)
    ensures
        r@.len() == pieces@.len(),
        forall|i: int| 0 <= i < r@.len() ==> (#[trigger] r@[i])@ == pieces@[i]@,
{
    let mut r: Vec<String> = Vec::new();
    let mut i: usize = 0;
    while i < pieces.len()
        invariant
            i <= pieces@.len(),
            r@.len() == i,
            forall|j: int| 0 <= j < i ==> (#[trigger] r@[j])@ == pieces@[j]@,
        decreases pieces.len() - i,
    {
        r.push(string_from_chars(pieces[i].as_slice(), 0, pieces[i].len()));
        proof {
            assert(pieces@[i as int]@.subrange(0, pieces@[i as int]@.len() as int) =~= pieces@[i as int]@);
        }
        i = i + 1;
    }
    r
}

/// Every window holds at most `size` characters.
pub proof fn lemma_windows_bounded(t: Seq<char>, size: nat, step: nat)
    ensures
        forall|i: int| 0 <= i < windows(t, size, step).len() ==> (#[trigger] windows(t, size, step)[i]).len() <= size,
{
    assert forall|i: int| 0 <= i < windows(t, size, step).len() implies (#[trigger] windows(t, size, step)[i]).len() <= size by {
        assert(0 <= i * step) by (nonlinear_arith) requires i >= 0;
        assert(i * step < t.len()) by (nonlinear_arith)
            requires 0 <= i < window_count(t.len(), step), step > 0, t.len() > 0,
                window_count(t.len(), step) == (t.len() - 1) as nat / step + 1;
    }
}

/// Merging keeps every chunk within `size` characters when the pieces are.
pub proof fn lemma_merge_state_bounded(pieces: Seq<Seq<char>>, size: nat, n: int)
    requires
        1 <= n <= pieces.len(),
        forall|i: int| 0 <= i < pieces.len() ==> (#[trigger] pieces[i]).len() <= size,
    ensures
        merge_state(pieces, size, n).1.len() <= size,
        forall|i: int| 0 <= i < merge_state(pieces, size, n).0.len() ==>
            (#[trigger] merge_state(pieces, size, n).0[i]).len() <= size,
    decreases n,
{
    if n > 1 {
        lemma_merge_state_bounded(pieces, size, n - 1);
        let (done, cur) = merge_state(pieces, size, n - 1);
        let next = pieces[n - 1];
        if utf8_len(cur) + utf8_len(next) <= size {
            lemma_utf8_len_concat(cur, next);
            lemma_utf8_len_bounds(cur + next);
        } else {
            assert forall|i: int| 0 <= i < done.push(cur).len() implies (#[trigger] done.push(cur)[i]).len() <= size by {
                if i < done.len() {
                    assert(done.push(cur)[i] == done[i]);
                }
            }
        }
    }
}

/// Merging keeps every chunk within `size` characters when the pieces are.
pub proof fn lemma_merged_bounded(pieces: Seq<Seq<char>>, size: nat)
    requires
        forall|i: int| 0 <= i < pieces.len() ==> (#[trigger] pieces[i]).len() <= size,
    ensures
        forall|i: int| 0 <= i < merged(pieces, size).len() ==> (#[trigger] merged(pieces, size)[i]).len() <= size,
{
    if pieces.len() > 0 {
        lemma_merge_state_bounded(pieces, size, pieces.len() as int);
        let (done, cur) = merge_state(pieces, size, pieces.len() as int);
        assert forall|i: int| 0 <= i < done.push(cur).len() implies (#[trigger] done.push(cur)[i]).len() <= size by {
            if i < done.len() {
                assert(done.push(cur)[i] == done[i]);
            }
        }
    }
}

/// Law: every chunk of the recursive split holds at most `size` characters.
pub proof fn law_split_rec_bounded(t: Seq<char>, seps: Seq<Seq<char>>, size: nat, step: nat)
    ensures
        forall|i: int| 0 <= i < split_rec(t, seps, size, step).len() ==>
            (#[trigger] split_rec(t, seps, size, step)[i]).len() <= size,
    decreases 2 * seps.len() + 1, 0nat,
{
    let r = split_rec(t, seps, size, step);
    if utf8_len(t) <= size {
        lemma_utf8_len_bounds(t);
        if t.len() > 0 {
            assert(r == seq![t]);
        }
    } else if seps.len() > 0 {
        let parts = split_by(t, seps[0]);
        if parts.len() > 1 {
            lemma_split_parts_bounded(parts, seps.skip(1), size, step);
            lemma_merged_bounded(split_parts(parts, seps.skip(1), size, step), size);
            assert(r == merged(split_parts(parts, seps.skip(1), size, step), size));
        } else {
            law_split_rec_bounded(t, seps.skip(1), size, step);
            assert(r == split_rec(t, seps.skip(1), size, step));
        }
    } else {
        lemma_windows_bounded(t, size, step);
        assert(r == windows(t, size, step));
    }
}

/// Every chunk of the splits of the parts holds at most `size` characters.
pub proof fn lemma_split_parts_bounded(parts: Seq<Seq<char>>, seps: Seq<Seq<char>>, size: nat, step: nat)
    ensures
        forall|i: int| 0 <= i < split_parts(parts, seps, size, step).len() ==>
            (#[trigger] split_parts(parts, seps, size, step)[i]).len() <= size,
    decreases 2 * seps.len() + 2, parts.len(),
{
    if parts.len() > 0 {
        lemma_split_parts_bounded(parts.drop_last(), seps, size, step);
        law_split_rec_bounded(parts.last(), seps, size, step);
        let a = split_parts(parts.drop_last(), seps, size, step);
        let b = split_rec(parts.last(), seps, size, step);
        assert forall|i: int| 0 <= i < (a + b).len() implies (#[trigger] (a + b)[i]).len() <= size by {
            if i < a.len() {
                assert((a + b)[i] == a[i]);
            } else {
                assert((a + b)[i] == b[i - a.len()]);
            }
        }
    }
}

/// The parts that hold something besides white space, in order.
pub open spec fn non_blank(parts: Seq<Seq<char>>) -> Seq<Seq<char>>
    decreases parts.len(),
{
    if parts.len() == 0 {
        Seq::empty()
    } else {
        let r = non_blank(parts.drop_last());
        if is_blank(parts.last()) { r } else { r.push(parts.last()) }
    }
}

/// The split at the first separator that occurs in `t`, without blank parts;
/// the whole text when no separator occurs (nothing when it is empty).
pub open spec fn semantic_split(t: Seq<char>, seps: Seq<Seq<char>>) -> Seq<Seq<char>>
    decreases seps.len(),
{
    if seps.len() == 0 {
        if t.len() == 0 { Seq::empty() } else { seq![t] }
    } else if split_by(t, seps[0]).len() > 1 {
        non_blank(split_by(t, seps[0]))
    } else {
        semantic_split(t, seps.skip(1))
    }
}

/// No part kept by [`non_blank`] is blank.
pub proof fn lemma_non_blank(parts: Seq<Seq<char>>)
    ensures
        forall|i: int| 0 <= i < non_blank(parts).len() ==> !is_blank(#[trigger] non_blank(parts)[i]),
    decreases parts.len(),
{
    if parts.len() > 0 {
        lemma_non_blank(parts.drop_last());
        let r = non_blank(parts.drop_last());
        if !is_blank(parts.last()) {
            assert forall|i: int| 0 <= i < r.push(parts.last()).len() implies !is_blank(#[trigger] r.push(parts.last())[i]) by {
                if i < r.len() {
                    assert(r.push(parts.last())[i] == r[i]);
                }
            }
        }
    }
}

/// Law: a semantic chunk is never blank, unless no separator occurs and the
/// chunk is the whole text.
pub proof fn law_semantic_chunks(t: Seq<char>, seps: Seq<Seq<char>>)
    ensures
        forall|i: int| 0 <= i < semantic_split(t, seps).len() ==>
            !is_blank(#[trigger] semantic_split(t, seps)[i]) || semantic_split(t, seps)[i] == t,
    decreases seps.len(),
{
    let r = semantic_split(t, seps);
    if seps.len() == 0 {
        if t.len() > 0 {
            assert(r == seq![t]);
        }
    } else if split_by(t, seps[0]).len() > 1 {
        lemma_non_blank(split_by(t, seps[0]));
        assert(r == non_blank(split_by(t, seps[0])));
    } else {
        law_semantic_chunks(t, seps.skip(1));
        assert(r == semantic_split(t, seps.skip(1)));
    }
}

/// Splits text at the first of its separators that occurs in it.
pub struct SemanticChunker {
    separators: Vec<String>,
}

impl SemanticChunker {
    pub fn new(separators: Vec<String>) -> (r: Self)
        ensures
            r.seps() == separators@.map_values(|s: String| s@),
    {
        SemanticChunker { separators }
    }

    pub closed spec fn seps(&self) -> Seq<Seq<char>> {
        self.separators@.map_values(|s: String| s@)
    }

    /// Paragraph, line and sentence breaks.
    pub fn default_separators() -> (r: Vec<String>)
        ensures
            r@.len() == 3,
            r@[0]@ == "\n\n"@,
            r@[1]@ == "\n"@,
            r@[2]@ == ". "@,
    {
        let mut r = Vec::new();
        r.push(String::from_str("\n\n"));
        r.push(String::from_str("\n"));
        r.push(String::from_str(". "));
        r
    }
}

/// The parts of `parts` that are not blank.
fn keep_non_blank(parts: &Vec<Vec<char>>) -> (r: Vec<Vec<char>>)
    ensures
        r@.len() == non_blank(parts@.map_values(|c: Vec<char>| c@)).len(),
        forall|i: int| 0 <= i < r@.len() ==>
            (#[trigger] r@[i])@ == non_blank(parts@.map_values(|c: Vec<char>| c@))[i],
{
    let ghost ps = parts@.map_values(|c: Vec<char>| c@);
    let mut r: Vec<Vec<char>> = Vec::new();
    let mut i: usize = 0;
    while i < parts.len()
        invariant
            i <= parts@.len(),
            ps == parts@.map_values(|c: Vec<char>| c@),
            r@.len() == non_blank(ps.take(i as int)).len(),
            forall|j: int| 0 <= j < r@.len() ==> (#[trigger] r@[j])@ == non_blank(ps.take(i as int))[j],
        decreases parts.len() - i,
    {
        proof {
            assert(ps.take(i + 1).drop_last() =~= ps.take(i as int));
            assert(ps.take(i + 1).last() == parts@[i as int]@);
        }
        if !chars_are_blank(parts[i].as_slice()) {
            let ghost old_r = r@;
            let copy = vec_from_range(parts[i].as_slice(), 0, parts[i].len());
            proof {
                assert(parts@[i as int]@.subrange(0, parts@[i as int]@.len() as int) =~= parts@[i as int]@);
            }
            r.push(copy);
            proof {
                assert forall|j: int| 0 <= j < r@.len() implies (#[trigger] r@[j])@ == non_blank(ps.take(i + 1))[j] by {
                    if j < old_r.len() {
                        assert(r@[j] == old_r[j]);
                    }
                }
            }
        }
        i = i + 1;
    }
    proof {
        assert(ps.take(parts@.len() as int) =~= ps);
    }
    r
}

/// The semantic split of `text` with `separators`.
fn semantic_rec(text: &Vec<char>, separators: &[String]) -> (r: Vec<Vec<char>>)
    ensures
        r@.len() == semantic_split(text@, separators@.map_values(|s: String| s@)).len(),
        forall|i: int| 0 <= i < r@.len() ==> (#[trigger] r@[i])@
            == semantic_split(text@, separators@.map_values(|s: String| s@))[i],
    decreases separators@.len(),
{
    let ghost seps = separators@.map_values(|s: String| s@);
    if separators.len() == 0 {
        let mut r: Vec<Vec<char>> = Vec::new();
        if text.len() > 0 {
            r.push(text.clone());
        }
        return r;
    }
    let sep = chars_of(separators[0].as_str());
    let rest = slice_skip_first(separators);
    proof {
        assert(seps.skip(1) =~= rest@.map_values(|s: String| s@));
        assert(seps[0] == sep@);
    }
    let parts = split_chars(text.as_slice(), sep.as_slice());
    if parts.len() > 1 {
        proof {
            assert(parts@.map_values(|c: Vec<char>| c@) =~= split_by(text@, sep@));
        }
        keep_non_blank(&parts)
    } else {
        semantic_rec(text, rest)
    }
}

impl ChunkStrategy for SemanticChunker {
    open spec fn spec_chunk(&self, text: Seq<char>) -> Seq<Seq<char>> {
        semantic_split(text, self.seps())
    }

    open spec fn spec_name(&self) -> Seq<char> {
        "semantic"@
    }

    fn chunk(&self, text: &str) -> (r: Vec<String>) {
        let cs = chars_of(text);
        let seps = self.separators.as_slice();
        proof {
            assert(seps@.map_values(|s: String| s@) == self.seps());
        }
        let pieces = semantic_rec(&cs, seps);
        strings_of(&pieces)
    }

    fn name(&self) -> (r: &str) {
        "semantic"
    }
}

/// The separator list without its first separator.
fn slice_skip_first(s: &[String]) -> (r: &[String])
    requires
        s@.len() > 0,
    ensures
        r@ == s@.skip(1),
{
    let (_, rest) = s.split_at(1);
    rest
}


/// The pieces joined end to end.
pub open spec fn joined_pieces(pieces: Seq<Seq<char>>) -> Seq<char>
    decreases pieces.len(),
{
    if pieces.len() == 0 { Seq::empty() } else { joined_pieces(pieces.drop_last()) + pieces.last() }
}

proof fn lemma_merge_state_joins(pieces: Seq<Seq<char>>, size: nat, n: int)
    requires
        1 <= n <= pieces.len(),
    ensures
        joined_pieces(merge_state(pieces, size, n).0) + merge_state(pieces, size, n).1
            == joined_pieces(pieces.take(n)),
    decreases n,
{
    if n <= 1 {
        assert(pieces.take(1).drop_last() =~= Seq::<Seq<char>>::empty());
        assert(Seq::<char>::empty() + pieces[0] =~= pieces[0]);
    } else {
        lemma_merge_state_joins(pieces, size, n - 1);
        let (done, cur) = merge_state(pieces, size, n - 1);
        let next = pieces[n - 1];
        assert(pieces.take(n).drop_last() =~= pieces.take(n - 1));
        assert(pieces.take(n).last() == next);
        if utf8_len(cur) + utf8_len(next) <= size {
            assert(joined_pieces(done) + (cur + next) =~= (joined_pieces(done) + cur) + next);
        } else {
            assert(done.push(cur).drop_last() =~= done);
            assert(joined_pieces(done.push(cur)) + next =~= (joined_pieces(done) + cur) + next);
        }
    }
}

/// Law: merging neighbouring pieces loses and reorders nothing: the merged
/// chunks joined end to end are the pieces joined end to end.
pub proof fn law_merged_keeps_text(pieces: Seq<Seq<char>>, size: nat)
    ensures
        joined_pieces(merged(pieces, size)) == joined_pieces(pieces),
{
    if pieces.len() > 0 {
        let n = pieces.len() as int;
        lemma_merge_state_joins(pieces, size, n);
        let (done, cur) = merge_state(pieces, size, n);
        assert(done.push(cur).drop_last() =~= done);
        assert(pieces.take(n) =~= pieces);
    }
}


/// Every window of a text is non-empty when the window size is.
proof fn lemma_windows_nonempty(t: Seq<char>, size: nat, step: nat)
    requires
        size > 0,
    ensures
        forall|i: int| 0 <= i < windows(t, size, step).len() ==> (#[trigger] windows(t, size, step)[i]).len() > 0,
{
    assert forall|i: int| 0 <= i < windows(t, size, step).len() implies (#[trigger] windows(t, size, step)[i]).len() > 0 by {
        assert(0 <= i * step) by (nonlinear_arith) requires i >= 0;
        assert(i * step < t.len()) by (nonlinear_arith)
            requires 0 <= i < window_count(t.len(), step), step > 0, t.len() > 0,
                window_count(t.len(), step) == (t.len() - 1) as nat / step + 1;
    }
}

proof fn lemma_merge_state_nonempty(pieces: Seq<Seq<char>>, size: nat, n: int)
    requires
        1 <= n <= pieces.len(),
        forall|i: int| 0 <= i < pieces.len() ==> (#[trigger] pieces[i]).len() > 0,
    ensures
        merge_state(pieces, size, n).1.len() > 0,
        forall|i: int| 0 <= i < merge_state(pieces, size, n).0.len() ==>
            (#[trigger] merge_state(pieces, size, n).0[i]).len() > 0,
        merge_state(pieces, size, n).0.len() < n,
    decreases n,
{
    if n > 1 {
        lemma_merge_state_nonempty(pieces, size, n - 1);
        let (done, cur) = merge_state(pieces, size, n - 1);
        assert(pieces[n - 1].len() > 0);
        assert forall|i: int| 0 <= i < done.push(cur).len() implies (#[trigger] done.push(cur)[i]).len() > 0 by {
            if i < done.len() {
                assert(done.push(cur)[i] == done[i]);
            }
        }
    }
}

/// Law: merging gives no more chunks than it was given pieces, and keeps every
/// chunk non-empty when the pieces are.
pub proof fn law_merged_count(pieces: Seq<Seq<char>>, size: nat)
    ensures
        merged(pieces, size).len() <= pieces.len(),
        (forall|i: int| 0 <= i < pieces.len() ==> (#[trigger] pieces[i]).len() > 0) ==>
            forall|i: int| 0 <= i < merged(pieces, size).len() ==> (#[trigger] merged(pieces, size)[i]).len() > 0,
{
    if pieces.len() > 0 {
        let n = pieces.len() as int;
        if forall|i: int| 0 <= i < pieces.len() ==> (#[trigger] pieces[i]).len() > 0 {
            lemma_merge_state_nonempty(pieces, size, n);
            let (done, cur) = merge_state(pieces, size, n);
            assert forall|i: int| 0 <= i < done.push(cur).len() implies (#[trigger] done.push(cur)[i]).len() > 0 by {
                if i < done.len() {
                    assert(done.push(cur)[i] == done[i]);
                }
            }
        } else {
            lemma_merge_state_count(pieces, size, n);
        }
    }
}

proof fn lemma_merge_state_count(pieces: Seq<Seq<char>>, size: nat, n: int)
    requires
        1 <= n <= pieces.len(),
    ensures
        merge_state(pieces, size, n).0.len() < n,
    decreases n,
{
    if n > 1 {
        lemma_merge_state_count(pieces, size, n - 1);
    }
}

/// Law: with a positive chunk size, no chunk of the recursive split is empty.
pub proof fn law_split_rec_nonempty(t: Seq<char>, seps: Seq<Seq<char>>, size: nat, step: nat)
    requires
        size > 0,
    ensures
        forall|i: int| 0 <= i < split_rec(t, seps, size, step).len() ==>
            (#[trigger] split_rec(t, seps, size, step)[i]).len() > 0,
    decreases 2 * seps.len() + 1, 0nat,
{
    let r = split_rec(t, seps, size, step);
    if utf8_len(t) <= size {
        if t.len() > 0 {
            assert(r == seq![t]);
        }
    } else if seps.len() > 0 {
        let parts = split_by(t, seps[0]);
        if parts.len() > 1 {
            lemma_split_parts_nonempty(parts, seps.skip(1), size, step);
            law_merged_count(split_parts(parts, seps.skip(1), size, step), size);
            assert(r == merged(split_parts(parts, seps.skip(1), size, step), size));
        } else {
            law_split_rec_nonempty(t, seps.skip(1), size, step);
            assert(r == split_rec(t, seps.skip(1), size, step));
        }
    } else {
        lemma_windows_nonempty(t, size, step);
        assert(r == windows(t, size, step));
    }
}

proof fn lemma_split_parts_nonempty(parts: Seq<Seq<char>>, seps: Seq<Seq<char>>, size: nat, step: nat)
    requires
        size > 0,
    ensures
        forall|i: int| 0 <= i < split_parts(parts, seps, size, step).len() ==>
            (#[trigger] split_parts(parts, seps, size, step)[i]).len() > 0,
    decreases 2 * seps.len() + 2, parts.len(),
{
    if parts.len() > 0 {
        lemma_split_parts_nonempty(parts.drop_last(), seps, size, step);
        law_split_rec_nonempty(parts.last(), seps, size, step);
        let a = split_parts(parts.drop_last(), seps, size, step);
        let b = split_rec(parts.last(), seps, size, step);
        assert forall|i: int| 0 <= i < (a + b).len() implies (#[trigger] (a + b)[i]).len() > 0 by {
            if i < a.len() {
                assert((a + b)[i] == a[i]);
            } else {
                assert((a + b)[i] == b[i - a.len()]);
            }
        }
    }
}

} // verus!
