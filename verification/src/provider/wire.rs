//! Framing shared by the HTTP providers: splitting response text into lines and
//! picking out server-sent-event payloads.
use vstd::prelude::*;
use crate::text::{chars_of, str_eq, string_from_chars};
use crate::provider::accumulator::{json_value, parse_json_value};
use crate::provider::sse::{complete_lines, law_feed_is_chunking_invariant, line_text, pending_tail, SseLineBuffer};

verus! {

/// A line without the carriage return that ended it.
pub open spec fn strip_cr_chars(s: Seq<char>) -> Seq<char> {
    if s.len() > 0 && s.last() == '\r' { s.drop_last() } else { s }
}

/// Lines finished so far, and the unfinished tail, after reading `s`.
pub open spec fn lines_state(s: Seq<char>) -> (Seq<Seq<char>>, Seq<char>)
    decreases s.len(),
{
    if s.len() == 0 {
        (Seq::empty(), Seq::empty())
    } else {
        let (done, cur) = lines_state(s.drop_last());
        if s.last() == '\n' {
            (done.push(strip_cr_chars(cur)), Seq::empty())
        } else {
            (done, cur.push(s.last()))
        }
    }
}

/// What `str::lines` yields: every piece ended by `\n`, with a `\r` before the
/// `\n` removed, then the unterminated tail when it is not empty.
pub open spec fn text_lines(s: Seq<char>) -> Seq<Seq<char>> {
    let (done, cur) = lines_state(s);
    if cur.len() > 0 { done.push(cur) } else { done }
}

/// The lines of `text` (`str::lines`).
pub fn lines_of(text: &str) -> (r: Vec<String>)
    ensures
        r@.map_values(|l: String| l@) == text_lines(text@),
{
    let cs = chars_of(text);
    let mut done: Vec<String> = Vec::new();
    let mut start: usize = 0;
    let mut i: usize = 0;
    while i < cs.len()
        invariant
            cs@ == text@,
            start <= i <= cs@.len(),
            lines_state(cs@.take(i as int)).0 == done@.map_values(|l: String| l@),
            lines_state(cs@.take(i as int)).1 == cs@.subrange(start as int, i as int),
        decreases cs.len() - i,
    {
        proof {
            assert(cs@.take(i + 1).drop_last() =~= cs@.take(i as int));
            assert(cs@.take(i + 1).last() == cs@[i as int]);
        }
        if cs[i] == '\n' {
            let end = if i > start && cs[i - 1] == '\r' { i - 1 } else { i };
            let line = string_from_chars(cs.as_slice(), start, end);
            proof {
                let cur = cs@.subrange(start as int, i as int);
                assert(line@ =~= strip_cr_chars(cur));
            }
            let ghost before = done@;
            done.push(line);
            proof {
                assert(done@.map_values(|l: String| l@) =~= before.map_values(|l: String| l@).push(line@));
                assert(cs@.subrange(i + 1, i + 1) =~= Seq::<char>::empty());
            }
            start = i + 1;
        } else {
            proof {
                assert(cs@.subrange(start as int, i + 1) =~= cs@.subrange(start as int, i as int).push(cs@[i as int]));
            }
        }
        i = i + 1;
    }
    proof {
        assert(cs@.take(cs@.len() as int) =~= cs@);
    }
    if start < cs.len() {
        let tail = string_from_chars(cs.as_slice(), start, cs.len());
        let ghost before = done@;
        done.push(tail);
        proof {
            assert(done@.map_values(|l: String| l@) =~= before.map_values(|l: String| l@).push(tail@));
        }
    }
    done
}

/// The payload of a server-sent-event `data: ` line.
pub open spec fn data_payload(line: Seq<char>) -> Option<Seq<char>> {
    if line.len() >= 6 && line.take(6) == "data: "@ { Some(line.skip(6)) } else { None }
}

/// `line.strip_prefix("data: ")`.
pub fn sse_data(line: &str) -> (r: Option<String>)
    ensures
        r is Some <==> data_payload(line@) is Some,
        r matches Some(p) ==> Some(p@) == data_payload(line@),
{
    proof {
        reveal_strlit("data: ");
    }
    let cs = chars_of(line);
    if cs.len() >= 6 && cs[0] == 'd' && cs[1] == 'a' && cs[2] == 't' && cs[3] == 'a' && cs[4] == ':'
        && cs[5] == ' ' {
        proof {
            assert(cs@.take(6) =~= "data: "@);
        }
        let p = string_from_chars(cs.as_slice(), 6, cs.len());
        proof {
            assert(cs@.subrange(6, cs@.len() as int) =~= cs@.skip(6));
        }
        Some(p)
    } else {
        proof {
            if cs@.len() >= 6 && cs@.take(6) == "data: "@ {
                assert(cs@.take(6)[0] == 'd');
                assert(cs@.take(6)[5] == ' ');
                assert(cs@[1] == cs@.take(6)[1]);
                assert(cs@[2] == cs@.take(6)[2]);
                assert(cs@[3] == cs@.take(6)[3]);
                assert(cs@[4] == cs@.take(6)[4]);
            }
        }
        None
    }
}


/// The payloads of the `data: ` lines among `lines`, in order; `[DONE]` becomes
/// `None`, other lines are skipped.
pub open spec fn sse_items(lines: Seq<Seq<char>>) -> Seq<Option<Seq<char>>>
    decreases lines.len(),
{
    if lines.len() == 0 {
        Seq::empty()
    } else {
        let rest = sse_items(lines.drop_last());
        match data_payload(lines.last()) {
            None => rest,
            Some(p) => if p == "[DONE]"@ { rest.push(None) } else { rest.push(Some(p)) },
        }
    }
}

/// A parsed server-sent event: the `[DONE]` marker, or the JSON its data holds.
#[derive(Debug, Clone)]
pub enum SseEvent {
    Done,
    Json(serde_json::Value),
}

/// The event's JSON, `None` for the `[DONE]` marker.
pub open spec fn sse_event_view(e: SseEvent) -> Option<serde_json::Value> {
    match e {
        SseEvent::Done => None,
        SseEvent::Json(v) => Some(v),
    }
}

/// The payloads parsed as JSON, in order: `[DONE]` stays `None`, a payload that
/// is not JSON is skipped.
pub open spec fn parsed_items(items: Seq<Option<Seq<char>>>) -> Seq<Option<serde_json::Value>>
    decreases items.len(),
{
    if items.len() == 0 {
        Seq::empty()
    } else {
        let rest = parsed_items(items.drop_last());
        match items.last() {
            None => rest.push(None),
            Some(p) => match json_value(p) {
                Some(v) => rest.push(Some(v)),
                None => rest,
            },
        }
    }
}

/// The text of the complete lines of `bytes`.
pub open spec fn byte_lines(bytes: Seq<u8>) -> Seq<Seq<char>> {
    complete_lines(bytes).map_values(|l: Seq<u8>| line_text(l))
}

/// The events of the complete lines of a server-sent-event body.
pub open spec fn sse_events(bytes: Seq<u8>) -> Seq<Option<serde_json::Value>> {
    parsed_items(sse_items(byte_lines(bytes)))
}

/// Takes in one chunk of a server-sent-event body: the lines it completes,
/// together with what was buffered before, give their `data:` payloads parsed as
/// JSON (`[DONE]` as `Done`, payloads that do not parse skipped); the bytes
/// after the last complete line stay buffered.
pub fn sse_step(buf: &mut SseLineBuffer, chunk: &[u8]) -> (r: Vec<SseEvent>)
    ensures
        final(buf).buffer@ == pending_tail(old(buf).buffer@ + chunk@),
        r@.map_values(|e: SseEvent| sse_event_view(e)) == sse_events(old(buf).buffer@ + chunk@),
{
    let ghost total = old(buf).buffer@ + chunk@;
    let lines = buf.feed(chunk);
    let ghost ls = lines@.map_values(|l: String| l@);
    proof {
        assert(ls =~= byte_lines(total));
    }
    let mut out: Vec<SseEvent> = Vec::new();
    let mut i: usize = 0;
    while i < lines.len()
        invariant
            i <= lines@.len(),
            ls == lines@.map_values(|l: String| l@),
            out@.map_values(|e: SseEvent| sse_event_view(e)) == parsed_items(sse_items(ls.take(i as int))),
        decreases lines.len() - i,
    {
        proof {
            assert(ls.take(i + 1).drop_last() =~= ls.take(i as int));
            assert(ls.take(i + 1).last() == lines@[i as int]@);
        }
        let ghost before = out@;
        let ghost items = sse_items(ls.take(i as int));
        match sse_data(lines[i].as_str()) {
            Some(data) => {
                if str_eq(data.as_str(), "[DONE]") {
                    out.push(SseEvent::Done);
                    proof {
                        assert(sse_items(ls.take(i + 1)) == items.push(None));
                        assert(sse_items(ls.take(i + 1)).drop_last() =~= items);
                        assert(out@.map_values(|e: SseEvent| sse_event_view(e)) =~= before.map_values(
                            |e: SseEvent| sse_event_view(e)).push(None));
                    }
                } else {
                    proof {
                        assert(sse_items(ls.take(i + 1)) == items.push(Some(data@)));
                        assert(sse_items(ls.take(i + 1)).drop_last() =~= items);
                    }
                    match parse_json_value(data.as_str()) {
                        Ok(v) => {
                            out.push(SseEvent::Json(v));
                            proof {
                                assert(out@.map_values(|e: SseEvent| sse_event_view(e)) =~= before.map_values(
                                    |e: SseEvent| sse_event_view(e)).push(Some(v)));
                            }
                        },
                        Err(_) => {},
                    }
                }
            },
            None => {},
        }
        i = i + 1;
    }
    proof {
        assert(ls.take(ls.len() as int) =~= ls);
    }
    out
}

/// The JSON values of the lines among `lines` that parse, in order.
pub open spec fn parsed_lines(lines: Seq<Seq<char>>) -> Seq<serde_json::Value>
    decreases lines.len(),
{
    if lines.len() == 0 {
        Seq::empty()
    } else {
        let rest = parsed_lines(lines.drop_last());
        match json_value(lines.last()) {
            Some(v) => rest.push(v),
            None => rest,
        }
    }
}

/// Takes in one chunk of a newline-delimited JSON body: the lines it completes,
/// together with what was buffered before, give the JSON values of those that
/// parse; the bytes after the last complete line stay buffered.
pub fn ndjson_step(buf: &mut SseLineBuffer, chunk: &[u8]) -> (r: Vec<serde_json::Value>)
    ensures
        final(buf).buffer@ == pending_tail(old(buf).buffer@ + chunk@),
        r@ == parsed_lines(byte_lines(old(buf).buffer@ + chunk@)),
{
    let ghost total = old(buf).buffer@ + chunk@;
    let lines = buf.feed(chunk);
    let ghost ls = lines@.map_values(|l: String| l@);
    proof {
        assert(ls =~= byte_lines(total));
    }
    let mut out: Vec<serde_json::Value> = Vec::new();
    let mut i: usize = 0;
    while i < lines.len()
        invariant
            i <= lines@.len(),
            ls == lines@.map_values(|l: String| l@),
            out@ == parsed_lines(ls.take(i as int)),
        decreases lines.len() - i,
    {
        proof {
            assert(ls.take(i + 1).drop_last() =~= ls.take(i as int));
            assert(ls.take(i + 1).last() == lines@[i as int]@);
        }
        match parse_json_value(lines[i].as_str()) {
            Ok(v) => out.push(v),
            Err(_) => {},
        }
        i = i + 1;
    }
    proof {
        assert(ls.take(ls.len() as int) =~= ls);
    }
    out
}


proof fn lemma_sse_items_concat(a: Seq<Seq<char>>, b: Seq<Seq<char>>)
    ensures
        sse_items(a + b) == sse_items(a) + sse_items(b),
    decreases b.len(),
{
    if b.len() == 0 {
        assert(a + b =~= a);
        assert(sse_items(a) + sse_items(b) =~= sse_items(a));
    } else {
        lemma_sse_items_concat(a, b.drop_last());
        assert((a + b).drop_last() =~= a + b.drop_last());
        assert((a + b).last() == b.last());
        let x = sse_items(a);
        let y = sse_items(b.drop_last());
        match data_payload(b.last()) {
            None => {},
            Some(p) => {
                if p == "[DONE]"@ {
                    assert((x + y).push(None) =~= x + y.push(None));
                } else {
                    assert((x + y).push(Some(p)) =~= x + y.push(Some(p)));
                }
            },
        }
    }
}

proof fn lemma_parsed_items_concat(a: Seq<Option<Seq<char>>>, b: Seq<Option<Seq<char>>>)
    ensures
        parsed_items(a + b) == parsed_items(a) + parsed_items(b),
    decreases b.len(),
{
    if b.len() == 0 {
        assert(a + b =~= a);
        assert(parsed_items(a) + parsed_items(b) =~= parsed_items(a));
    } else {
        lemma_parsed_items_concat(a, b.drop_last());
        assert((a + b).drop_last() =~= a + b.drop_last());
        assert((a + b).last() == b.last());
        let x = parsed_items(a);
        let y = parsed_items(b.drop_last());
        match b.last() {
            None => {
                assert((x + y).push(None) =~= x + y.push(None));
            },
            Some(p) => match json_value(p) {
                Some(v) => {
                    assert((x + y).push(Some(v)) =~= x + y.push(Some(v)));
                },
                None => {},
            },
        }
    }
}

proof fn lemma_parsed_lines_concat(a: Seq<Seq<char>>, b: Seq<Seq<char>>)
    ensures
        parsed_lines(a + b) == parsed_lines(a) + parsed_lines(b),
    decreases b.len(),
{
    if b.len() == 0 {
        assert(a + b =~= a);
        assert(parsed_lines(a) + parsed_lines(b) =~= parsed_lines(a));
    } else {
        lemma_parsed_lines_concat(a, b.drop_last());
        assert((a + b).drop_last() =~= a + b.drop_last());
        assert((a + b).last() == b.last());
        let x = parsed_lines(a);
        let y = parsed_lines(b.drop_last());
        match json_value(b.last()) {
            Some(v) => {
                assert((x + y).push(v) =~= x + y.push(v));
            },
            None => {},
        }
    }
}

proof fn lemma_byte_lines_chunking(buffered: Seq<u8>, a: Seq<u8>, b: Seq<u8>)
    ensures
        byte_lines(buffered + a) + byte_lines(pending_tail(buffered + a) + b) == byte_lines(buffered + a + b),
{
    law_feed_is_chunking_invariant(buffered, a, b);
    let f = |l: Seq<u8>| line_text(l);
    let x = complete_lines(buffered + a);
    let y = complete_lines(pending_tail(buffered + a) + b);
    assert((x + y).map_values(f) =~= x.map_values(f) + y.map_values(f));
}

/// Law: a server-sent-event body gives the same events however it is split into
/// chunks: the events of the first chunk followed by those of the second (with
/// what the first left buffered) are the events of the two at once, and the same
/// bytes stay buffered.
pub proof fn law_sse_step_chunking(buffered: Seq<u8>, a: Seq<u8>, b: Seq<u8>)
    ensures
        sse_events(buffered + a) + sse_events(pending_tail(buffered + a) + b) == sse_events(buffered + a + b),
        pending_tail(pending_tail(buffered + a) + b) == pending_tail(buffered + a + b),
{
    law_feed_is_chunking_invariant(buffered, a, b);
    lemma_byte_lines_chunking(buffered, a, b);
    let x = byte_lines(buffered + a);
    let y = byte_lines(pending_tail(buffered + a) + b);
    lemma_sse_items_concat(x, y);
    lemma_parsed_items_concat(sse_items(x), sse_items(y));
}

/// Law: a newline-delimited JSON body gives the same values however it is split
/// into chunks, and the same bytes stay buffered.
pub proof fn law_ndjson_step_chunking(buffered: Seq<u8>, a: Seq<u8>, b: Seq<u8>)
    ensures
        parsed_lines(byte_lines(buffered + a)) + parsed_lines(byte_lines(pending_tail(buffered + a) + b))
            == parsed_lines(byte_lines(buffered + a + b)),
        pending_tail(pending_tail(buffered + a) + b) == pending_tail(buffered + a + b),
{
    law_feed_is_chunking_invariant(buffered, a, b);
    lemma_byte_lines_chunking(buffered, a, b);
    lemma_parsed_lines_concat(byte_lines(buffered + a), byte_lines(pending_tail(buffered + a) + b));
}

} // verus!
