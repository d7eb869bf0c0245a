//! Reassembly of server-sent-event lines across HTTP chunk boundaries.
use vstd::prelude::*;
use crate::text::{decode_utf8_lossy, utf8_lossy};

verus! {

pub open spec fn is_newline(b: u8) -> bool {
    b == 10u8
}

/// Length of the prefix of `s` that ends with its last `\n` (0 when `s` has none).
pub open spec fn complete_prefix_len(s: Seq<u8>) -> nat
    decreases s.len(),
{
    if s.len() == 0 {
        0
    } else if is_newline(s.last()) {
        s.len()
    } else {
        complete_prefix_len(s.drop_last())
    }
}

/// The `\n`-terminated lines of `s`, without their terminators, in order; a trailing
/// piece with no `\n` after it is not a line yet.
pub open spec fn complete_lines(s: Seq<u8>) -> Seq<Seq<u8>>
    decreases s.len(),
{
    if s.len() == 0 {
        Seq::empty()
    } else if is_newline(s.last()) {
        let p = s.drop_last();
        let j = complete_prefix_len(p);
        proof {
            lemma_prefix_len_le(p);
        }
        complete_lines(p.take(j as int)).push(p.skip(j as int))
    } else {
        complete_lines(s.drop_last())
    }
}

pub proof fn lemma_prefix_len_le(s: Seq<u8>)
    ensures
        complete_prefix_len(s) <= s.len(),
    decreases s.len(),
{
    if s.len() > 0 && !is_newline(s.last()) {
        lemma_prefix_len_le(s.drop_last());
    }
}

/// The bytes after the last `\n` of `s`: what waits for the rest of its line.
pub open spec fn pending_tail(s: Seq<u8>) -> Seq<u8> {
    s.skip(complete_prefix_len(s) as int)
}

/// A raw line with one trailing `\r` removed, if it has one.
pub open spec fn strip_cr(line: Seq<u8>) -> Seq<u8> {
    if line.len() > 0 && line.last() == 13u8 {
        line.drop_last()
    } else {
        line
    }
}

/// The text of one raw line as `feed` yields it.
pub open spec fn line_text(line: Seq<u8>) -> Seq<char> {
    utf8_lossy(strip_cr(line))
}

pub proof fn lemma_prefix_len_bounds(s: Seq<u8>)
    ensures
        complete_prefix_len(s) <= s.len(),
        complete_prefix_len(s) > 0 ==> is_newline(s[complete_prefix_len(s) - 1]),
        forall|k: int| complete_prefix_len(s) <= k < s.len() ==> !is_newline(#[trigger] s[k]),
    decreases s.len(),
{
    if s.len() > 0 && !is_newline(s.last()) {
        lemma_prefix_len_bounds(s.drop_last());
        assert forall|k: int| complete_prefix_len(s) <= k < s.len() implies !is_newline(#[trigger] s[k]) by {
            if k < s.len() - 1 {
                assert(s.drop_last()[k] == s[k]);
            }
        }
    }
}

/// The complete lines of `s` are those of its complete prefix.
pub proof fn lemma_lines_of_prefix(s: Seq<u8>)
    ensures
        complete_lines(s) == complete_lines(s.take(complete_prefix_len(s) as int)),
        complete_prefix_len(s.take(complete_prefix_len(s) as int)) == complete_prefix_len(s),
    decreases s.len(),
{
    lemma_prefix_len_bounds(s);
    if s.len() == 0 {
        assert(s.take(0) =~= s);
    } else if is_newline(s.last()) {
        assert(s.take(s.len() as int) =~= s);
    } else {
        let j = complete_prefix_len(s) as int;
        let t = s.take(j);
        lemma_lines_of_prefix(s.drop_last());
        assert(s.drop_last().take(j) =~= t);
        if j == 0 {
            assert(t.len() == 0);
        } else {
            assert(is_newline(t.last()));
            assert(t.take(j) =~= t);
        }
    }
}

/// Prefix length moves by one byte at a time.
pub proof fn lemma_prefix_len_step(s: Seq<u8>, b: u8)
    ensures
        complete_prefix_len(s.push(b)) == if is_newline(b) { s.len() + 1 } else { complete_prefix_len(s) },
{
    assert(s.push(b).drop_last() =~= s);
}

/// Complete lines grow by one line each time a `\n` is appended.
pub proof fn lemma_lines_step(s: Seq<u8>, b: u8)
    ensures
        complete_lines(s.push(b)) == if is_newline(b) {
            complete_lines(s).push(s.skip(complete_prefix_len(s) as int))
        } else {
            complete_lines(s)
        },
{
    let t = s.push(b);
    assert(t.drop_last() =~= s);
    lemma_lines_of_prefix(s);
    lemma_prefix_len_bounds(s);
    if !is_newline(b) {
        let j = complete_prefix_len(s) as int;
        assert(t.take(j) =~= s.take(j));
    }
}

/// Appending bytes that hold no `\n` adds no line and leaves the prefix alone.
pub proof fn lemma_no_newline_suffix(s: Seq<u8>, t: Seq<u8>)
    requires
        forall|k: int| 0 <= k < t.len() ==> !is_newline(#[trigger] t[k]),
    ensures
        complete_prefix_len(s + t) == complete_prefix_len(s),
        complete_lines(s + t) == complete_lines(s),
    decreases t.len(),
{
    if t.len() == 0 {
        assert(s + t =~= s);
    } else {
        let u = t.drop_last();
        assert(s + t =~= (s + u).push(t.last()));
        assert forall|k: int| 0 <= k < u.len() implies !is_newline(#[trigger] u[k]) by {
            assert(u[k] == t[k]);
        }
        lemma_no_newline_suffix(s, u);
        lemma_prefix_len_step(s + u, t.last());
        lemma_lines_step(s + u, t.last());
    }
}

/// Lines of a concatenation: lines of the first part, then those that the first
/// part's pending tail forms with the second part.
pub proof fn lemma_lines_concat(a: Seq<u8>, b: Seq<u8>)
    ensures
        complete_lines(a + b) == complete_lines(a) + complete_lines(pending_tail(a) + b),
        pending_tail(a + b) == pending_tail(pending_tail(a) + b),
    decreases b.len(),
{
    lemma_prefix_len_bounds(a);
    let j = complete_prefix_len(a) as int;
    let ta = pending_tail(a);
    if b.len() == 0 {
        assert(a + b =~= a);
        assert(ta + b =~= ta);
        assert forall|k: int| 0 <= k < ta.len() implies !is_newline(#[trigger] ta[k]) by {
            assert(ta[k] == a[j + k]);
        }
        lemma_no_newline_suffix(Seq::<u8>::empty(), ta);
        assert(Seq::<u8>::empty() + ta =~= ta);
        assert(complete_lines(ta) == complete_lines(Seq::<u8>::empty()));
        assert(complete_lines(a) + Seq::<Seq<u8>>::empty() =~= complete_lines(a));
        assert(complete_prefix_len(ta) == 0);
        assert(ta.skip(0) =~= ta);
    } else {
        let c = b.drop_last();
        let x = b.last();
        lemma_lines_concat(a, c);
        assert(a + b =~= (a + c).push(x));
        assert(ta + b =~= (ta + c).push(x));
        lemma_lines_step(a + c, x);
        lemma_lines_step(ta + c, x);
        lemma_prefix_len_step(a + c, x);
        lemma_prefix_len_step(ta + c, x);
        lemma_prefix_len_bounds(a + c);
        lemma_prefix_len_bounds(ta + c);
        if is_newline(x) {
            // the new line is the pending tail of both sides
            assert((a + c).skip(complete_prefix_len(a + c) as int) == pending_tail(a + c));
            assert((ta + c).skip(complete_prefix_len(ta + c) as int) == pending_tail(ta + c));
            assert(complete_lines(a) + complete_lines(ta + c).push(pending_tail(ta + c)) =~= (complete_lines(a) + complete_lines(ta + c)).push(pending_tail(ta + c)));
            assert(pending_tail((a + c).push(x)) =~= Seq::<u8>::empty());
            assert(pending_tail((ta + c).push(x)) =~= Seq::<u8>::empty());
        } else {
            assert(pending_tail((a + c).push(x)) =~= pending_tail(a + c).push(x));
            assert(pending_tail((ta + c).push(x)) =~= pending_tail(ta + c).push(x));
        }
    }
}

/// Buffers raw bytes of a response body until a `\n` completes a line.
///
/// `buffer` holds the bytes received after the last complete line.
pub struct SseLineBuffer {
    pub buffer: Vec<u8>,
}

impl SseLineBuffer {
    pub fn new() -> (r: Self)
        ensures
            r.buffer@ == Seq::<u8>::empty(),
    {
        SseLineBuffer { buffer: Vec::new() }
    }

    /// Feeds a chunk of raw bytes and returns every line it completes, each without
    /// its `\n` and one trailing `\r`, decoded lossily as UTF-8. The bytes after the
    /// last `\n` stay buffered for the next chunk.
    pub fn feed(&mut self, chunk: &[u8]) -> (lines: Vec<String>)
        ensures
            lines@.len() == complete_lines(old(self).buffer@ + chunk@).len(),
            forall|i: int| 0 <= i < lines@.len() ==>
                #[trigger] lines@[i]@ == line_text(complete_lines(old(self).buffer@ + chunk@)[i]),
            final(self).buffer@ == pending_tail(old(self).buffer@ + chunk@),
            forall|k: int| 0 <= k < final(self).buffer@.len() ==> !is_newline(#[trigger] final(self).buffer@[k]),
    {
        let mut k: usize = 0;
        while k < chunk.len()
            invariant
                k <= chunk@.len(),
                self.buffer@ == old(self).buffer@ + chunk@.take(k as int),
            decreases chunk.len() - k,
        {
            proof {
                assert(chunk@.take(k + 1) =~= chunk@.take(k as int).push(chunk@[k as int]));
            }
            self.buffer.push(chunk[k]);
            k = k + 1;
        }
        proof {
            assert(chunk@.take(chunk@.len() as int) =~= chunk@);
        }
        let ghost total = self.buffer@;
        let mut lines: Vec<String> = Vec::new();
        let mut drain_end: usize = 0;
        let mut i: usize = 0;
        while i < self.buffer.len()
            invariant
                self.buffer@ == total,
                i <= total.len(),
                drain_end == complete_prefix_len(total.take(i as int)),
                lines@.len() == complete_lines(total.take(i as int)).len(),
                forall|m: int| 0 <= m < lines@.len() ==>
                    #[trigger] lines@[m]@ == line_text(complete_lines(total.take(i as int))[m]),
            decreases self.buffer.len() - i,
        {
            let ghost before = total.take(i as int);
            proof {
                assert(total.take(i + 1) =~= before.push(total[i as int]));
                lemma_prefix_len_step(before, total[i as int]);
                lemma_lines_step(before, total[i as int]);
                lemma_prefix_len_bounds(before);
            }
            if self.buffer[i] == 10u8 {
                let mut end = i;
                if end > drain_end && self.buffer[end - 1] == 13u8 {
                    end = end - 1;
                }
                let mut raw: Vec<u8> = Vec::new();
                let mut p = drain_end;
                while p < end
                    invariant
                        self.buffer@ == total,
                        drain_end <= p <= end <= i < total.len(),
                        raw@ == total.subrange(drain_end as int, p as int),
                    decreases end - p,
                {
                    proof {
                        assert(total.subrange(drain_end as int, p + 1) =~= total.subrange(drain_end as int, p as int).push(total[p as int]));
                    }
                    raw.push(self.buffer[p]);
                    p = p + 1;
                }
                proof {
                    let line = before.skip(drain_end as int);
                    assert(line =~= total.subrange(drain_end as int, i as int));
                    assert(raw@ =~= strip_cr(line));
                }
                let text = decode_utf8_lossy(raw.as_slice());
                lines.push(text);
                drain_end = i + 1;
            }
            i = i + 1;
        }
        proof {
            assert(total.take(total.len() as int) =~= total);
            lemma_prefix_len_bounds(total);
        }
        let rest = self.buffer.split_off(drain_end);
        self.buffer = rest;
        proof {
            assert forall|k: int| 0 <= k < self.buffer@.len() implies !is_newline(#[trigger] self.buffer@[k]) by {
                assert(self.buffer@[k] == total[drain_end + k]);
            }
        }
        lines
    }
}

/// Law: feeding a body in two chunks yields the lines of the whole body, split
/// between the two calls, and leaves the same bytes buffered as feeding it at once.
pub proof fn law_feed_is_chunking_invariant(buffered: Seq<u8>, a: Seq<u8>, b: Seq<u8>)
    ensures
        complete_lines(buffered + a) + complete_lines(pending_tail(buffered + a) + b)
            == complete_lines(buffered + a + b),
        pending_tail(pending_tail(buffered + a) + b) == pending_tail(buffered + a + b),
{
    lemma_lines_concat(buffered + a, b);
}


/// The chunks joined end to end.
pub open spec fn joined_chunks(cs: Seq<Seq<u8>>) -> Seq<u8>
    decreases cs.len(),
{
    if cs.len() == 0 { Seq::empty() } else { joined_chunks(cs.drop_last()) + cs.last() }
}

/// What a fresh buffer fed the chunks `cs` in order has returned, all calls
/// together, and what it holds afterwards.
pub open spec fn fed(cs: Seq<Seq<u8>>) -> (Seq<Seq<u8>>, Seq<u8>)
    decreases cs.len(),
{
    if cs.len() == 0 {
        (Seq::empty(), Seq::empty())
    } else {
        let (lines, buf) = fed(cs.drop_last());
        (lines + complete_lines(buf + cs.last()), pending_tail(buf + cs.last()))
    }
}

/// Law: a fresh buffer fed a body in any number of chunks returns, over all
/// calls, exactly the complete lines of the whole body, and then holds exactly
/// the bytes after its last `\n`.
pub proof fn law_feed_any_split(cs: Seq<Seq<u8>>)
    ensures
        fed(cs) == (complete_lines(joined_chunks(cs)), pending_tail(joined_chunks(cs))),
    decreases cs.len(),
{
    if cs.len() == 0 {
        assert(complete_lines(Seq::<u8>::empty()) =~= Seq::<Seq<u8>>::empty());
        assert(pending_tail(Seq::<u8>::empty()) =~= Seq::<u8>::empty());
    } else {
        law_feed_any_split(cs.drop_last());
        let j = joined_chunks(cs.drop_last());
        law_feed_is_chunking_invariant(Seq::<u8>::empty(), j, cs.last());
        assert(Seq::<u8>::empty() + j =~= j);
        assert(Seq::<u8>::empty() + j + cs.last() =~= j + cs.last());
    }
}

} // verus!
