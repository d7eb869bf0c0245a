//! Reassembly of streamed tool-call deltas into complete tool calls.
use vstd::prelude::*;
use crate::provider::error::ProviderError;
use crate::provider::message::{StreamEvent, ToolCall};
use crate::text::push_str;

verus! {

/// What `serde_json::from_str::<Value>` gives for `text`: the JSON value when
/// `text` is one valid JSON document, `None` otherwise.
pub uninterp spec fn json_value(text: Seq<char>) -> Option<serde_json::Value>;

/// Whether `text` is one valid JSON document.
pub open spec fn json_parses(text: Seq<char>) -> bool {
    json_value(text) is Some
}

/// `serde_json::from_str::<Value>`: the value it parses; on failure the error's
/// message.
#[verifier::external_body]
pub(crate) fn parse_json_value(text: &str) -> (r: Result<serde_json::Value, String>)
    ensures
        r is Ok <==> json_value(text@) is Some,
        r matches Ok(v) ==> json_value(text@) == Some(v),
{
    match serde_json::from_str::<serde_json::Value>(text) {
        Ok(v) => Ok(v),
        Err(e) => Err(format!("{}", e)),
    }
}

/// `Value::Object(Map::new())`: the empty JSON object, the value that parsing
/// `{}` gives.
#[verifier::external_body]
fn empty_json_object() -> (r: serde_json::Value)
    ensures
        json_value("{}"@) == Some(r),
{
    serde_json::Value::Object(serde_json::Map::new())
}

/// A tool call still being assembled.
#[derive(Debug, Clone)]
pub struct PendingToolCall {
    pub id: String,
    pub function_name: String,
    pub arguments_json: String,
}

/// The view of a pending call: id, function name and argument text so far.
pub open spec fn pending_view(p: PendingToolCall) -> (Seq<char>, Seq<char>, Seq<char>) {
    (p.id@, p.function_name@, p.arguments_json@)
}

/// Assembles the tool-call deltas of a stream into complete calls.
///
/// A stream announces a call with its id and name, then sends its JSON arguments
/// in pieces; each delta names the call it belongs to by index.
#[derive(Debug)]
pub struct ToolCallAccumulator {
    calls: Vec<PendingToolCall>,
}

/// `calls`, extended with empty calls so that index `index` exists.
pub open spec fn grow_to(calls: Seq<(Seq<char>, Seq<char>, Seq<char>)>, index: nat) -> Seq<(Seq<char>, Seq<char>, Seq<char>)> {
    if calls.len() <= index {
        calls + Seq::new((index + 1 - calls.len()) as nat, |i: int| (Seq::<char>::empty(), Seq::<char>::empty(), Seq::<char>::empty()))
    } else {
        calls
    }
}

/// The state after one delta for call `index`: calls up to `index` exist, a given
/// id or name replaces the stored one, and the argument piece is appended.
pub open spec fn apply_delta(
    calls: Seq<(Seq<char>, Seq<char>, Seq<char>)>,
    index: nat,
    id: Option<Seq<char>>,
    name: Option<Seq<char>>,
    args: Seq<char>,
) -> Seq<(Seq<char>, Seq<char>, Seq<char>)> {
    let grown = grow_to(calls, index);
    let old = grown[index as int];
    let new_id = match id { Some(v) => v, None => old.0 };
    let new_name = match name { Some(v) => v, None => old.1 };
    grown.update(index as int, (new_id, new_name, old.2 + args))
}

/// Why assembled call `p` cannot be finished, if it cannot.
pub open spec fn finalize_fails(p: (Seq<char>, Seq<char>, Seq<char>)) -> bool {
    p.0.len() == 0 || p.1.len() == 0 || (p.2.len() > 0 && !json_parses(p.2))
}

/// The error that finishing call `p` gives when it cannot be finished: a missing
/// id, a missing name (with the id), or argument text that is not JSON (with
/// the id and the parser's message after a colon).
pub open spec fn failure_message(p: (Seq<char>, Seq<char>, Seq<char>), e: ProviderError) -> bool {
    e matches ProviderError::Format(m) && {
        &&& p.0.len() == 0 ==> m@ == "ToolCallDelta completed with empty id"@
        &&& p.0.len() > 0 && p.1.len() == 0 ==> m@ == "ToolCallDelta completed with empty function_name for id="@ + p.0
        &&& p.0.len() > 0 && p.1.len() > 0 ==> {
            let head = "Failed to parse tool call arguments JSON for id="@ + p.0 + ": "@;
            m@.len() >= head.len() && m@.take(head.len() as int) == head
        }
    }
}

/// The arguments a finished call carries for argument text `text`: its parse,
/// or the empty object (the parse of `{}`) for an empty text.
pub open spec fn call_arguments(text: Seq<char>) -> Option<serde_json::Value> {
    if text.len() == 0 { json_value("{}"@) } else { json_value(text) }
}

impl ToolCallAccumulator {
    /// The assembled calls, in index order.
    pub closed spec fn view(&self) -> Seq<(Seq<char>, Seq<char>, Seq<char>)> {
        self.calls@.map_values(|p: PendingToolCall| pending_view(p))
    }

    pub fn new() -> (r: Self)
        ensures
            r.view() == Seq::<(Seq<char>, Seq<char>, Seq<char>)>::empty(),
    {
        ToolCallAccumulator { calls: Vec::new() }
    }

    /// Takes in one stream event. A tool-call delta creates the calls up to its index
    /// if needed, replaces the id and name it carries, and appends its argument piece;
    /// the updated call is returned. Any other event changes nothing.
    pub fn process(&mut self, event: &StreamEvent) -> (r: Option<&PendingToolCall>)
        ensures
            match *event {
                StreamEvent::ToolCallDelta { index, id, function_name, arguments_delta } => {
                    &&& final(self).view() == apply_delta(
                        old(self).view(),
                        index as nat,
                        match id { Some(v) => Some(v@), None => None },
                        match function_name { Some(v) => Some(v@), None => None },
                        arguments_delta@,
                    )
                    &&& r matches Some(p) && pending_view(*p) == final(self).view()[index as int]
                },
                _ => final(self).view() == old(self).view() && r is None,
            },
    {
        match event {
            StreamEvent::ToolCallDelta { index, id, function_name, arguments_delta } => {
                let index = *index;
                let ghost before = self.view();
                let ghost grown = grow_to(before, index as nat);
                let ghost start = self.calls@.len();
                while self.calls.len() <= index
                    invariant
                        start <= self.calls@.len() <= grown.len(),
                        start == before.len(),
                        forall|j: int| 0 <= j < self.calls@.len() ==> #[trigger] pending_view(self.calls@[j]) == grown[j],
                        grown.len() == if before.len() <= index { index + 1 } else { before.len() as int },
                        forall|j: int| 0 <= j < before.len() ==> grown[j] == before[j],
                        forall|j: int| before.len() <= j < grown.len() ==> #[trigger] grown[j] == (Seq::<char>::empty(), Seq::<char>::empty(), Seq::<char>::empty()),
                    decreases index + 1 - self.calls.len(),
                {
                    self.calls.push(PendingToolCall {
                        id: String::new(),
                        function_name: String::new(),
                        arguments_json: String::new(),
                    });
                }
                let ghost mid = self.calls@;
                assert(mid.len() == grown.len());
                let current = &self.calls[index];
                let mut entry = PendingToolCall {
                    id: current.id.clone(),
                    function_name: current.function_name.clone(),
                    arguments_json: current.arguments_json.clone(),
                };
                if let Some(id) = id {
                    entry.id = id.clone();
                }
                if let Some(name) = function_name {
                    entry.function_name = name.clone();
                }
                push_str(&mut entry.arguments_json, arguments_delta.as_str());
                self.calls.set(index, entry);
                proof {
                    let expect = apply_delta(
                        before,
                        index as nat,
                        match id { Some(v) => Some(v@), None => None },
                        match function_name { Some(v) => Some(v@), None => None },
                        arguments_delta@,
                    );
                    assert(self.view().len() == expect.len());
                    assert forall|j: int| 0 <= j < expect.len() implies #[trigger] self.view()[j] == expect[j] by {
                        if j != index {
                            assert(self.calls@[j] == mid[j]);
                            assert(pending_view(mid[j]) == grown[j]);
                        } else {
                            assert(pending_view(mid[j]) == grown[j]);
                        }
                    }
                    assert(self.view() =~= expect);
                }
                Some(&self.calls[index])
            },
            _ => None,
        }
    }

    /// Finishes the stream: turns every assembled call into a `ToolCall`, parsing its
    /// argument text as JSON (an empty text gives an empty object). Fails with a
    /// `Format` error at the first call, in index order, whose id or function name
    /// is empty or whose argument text does not parse.
    pub fn finalize(self) -> (r: Result<Vec<ToolCall>, ProviderError>)
        ensures
            r is Ok <==> forall|i: int| 0 <= i < self.view().len() ==> !finalize_fails(#[trigger] self.view()[i]),
            r matches Ok(calls) ==> calls@.len() == self.view().len() && forall|i: int| 0 <= i < calls@.len() ==>
                (#[trigger] calls@[i]).id@ == self.view()[i].0 && calls@[i].function_name@ == self.view()[i].1
                && call_arguments(self.view()[i].2) == Some(calls@[i].arguments),
            r matches Err(e) ==> exists|k: int| 0 <= k < self.view().len() && finalize_fails(#[trigger] self.view()[k])
                && (forall|j: int| 0 <= j < k ==> !finalize_fails(#[trigger] self.view()[j]))
                && failure_message(self.view()[k], e),
    {
        let mut out: Vec<ToolCall> = Vec::new();
        let mut i: usize = 0;
        while i < self.calls.len()
            invariant
                i <= self.calls@.len(),
                out@.len() == i,
                forall|j: int| 0 <= j < i ==> !finalize_fails(#[trigger] self.view()[j]),
                forall|j: int| 0 <= j < i ==> (#[trigger] out@[j]).id@ == self.view()[j].0
                    && out@[j].function_name@ == self.view()[j].1
                    && call_arguments(self.view()[j].2) == Some(out@[j].arguments),
            decreases self.calls.len() - i,
        {
            let pending = &self.calls[i];
            proof {
                assert(self.view()[i as int] == pending_view(*pending));
            }
            if pending.id.as_str().is_empty() {
                let e = ProviderError::Format(String::from_str("ToolCallDelta completed with empty id"));
                proof {
                    assert(finalize_fails(self.view()[i as int]) && failure_message(self.view()[i as int], e));
                }
                return Err(e);
            }
            if pending.function_name.as_str().is_empty() {
                let mut m = String::from_str("ToolCallDelta completed with empty function_name for id=");
                push_str(&mut m, pending.id.as_str());
                let e = ProviderError::Format(m);
                proof {
                    assert(finalize_fails(self.view()[i as int]) && failure_message(self.view()[i as int], e));
                }
                return Err(e);
            }
            let arguments = if pending.arguments_json.as_str().is_empty() {
                empty_json_object()
            } else {
                match parse_json_value(pending.arguments_json.as_str()) {
                    Ok(v) => v,
                    Err(msg) => {
                        let mut m = String::from_str("Failed to parse tool call arguments JSON for id=");
                        push_str(&mut m, pending.id.as_str());
                        push_str(&mut m, ": ");
                        let ghost head = m@;
                        push_str(&mut m, msg.as_str());
                        proof {
                            assert(m@.take(head.len() as int) =~= head);
                        }
                        let e = ProviderError::Format(m);
                        proof {
                            assert(finalize_fails(self.view()[i as int]) && failure_message(self.view()[i as int], e));
                        }
                        return Err(e);
                    },
                }
            };
            out.push(ToolCall {
                id: pending.id.clone(),
                function_name: pending.function_name.clone(),
                arguments,
            });
            i = i + 1;
        }
        Ok(out)
    }

    /// Number of calls being assembled.
    pub fn pending_count(&self) -> (n: usize)
        ensures
            n == self.view().len(),
    {
        self.calls.len()
    }

    /// Drops every call being assembled.
    pub fn clear(&mut self)
        ensures
            final(self).view() == Seq::<(Seq<char>, Seq<char>, Seq<char>)>::empty(),
    {
        self.calls.clear();
    }
}

impl Default for ToolCallAccumulator {
    fn default() -> (r: Self)
        ensures
            r.view() == Seq::<(Seq<char>, Seq<char>, Seq<char>)>::empty(),
    {
        ToolCallAccumulator::new()
    }
}

/// Law: argument text sent in two pieces for the same call assembles to the
/// same call as the two pieces sent at once.
pub proof fn law_deltas_concatenate(
    calls: Seq<(Seq<char>, Seq<char>, Seq<char>)>,
    index: nat,
    a: Seq<char>,
    b: Seq<char>,
)
    ensures
        apply_delta(apply_delta(calls, index, None, None, a), index, None, None, b)
            == apply_delta(calls, index, None, None, a + b),
{
    let once = apply_delta(calls, index, None, None, a);
    assert(grow_to(once, index) == once);
    let g = grow_to(calls, index);
    assert(g[index as int].2 + a + b =~= g[index as int].2 + (a + b));
    assert(apply_delta(once, index, None, None, b) =~= apply_delta(calls, index, None, None, a + b));
}

} // verus!
