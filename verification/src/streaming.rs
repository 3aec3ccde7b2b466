//! Server-sent-events framing: each chunk becomes a `data:` frame, and the
//! stream ends with the `[DONE]` sentinel frame.

use vstd::prelude::*;

use crate::text::string_from_chars;
use crate::wire::push_lit;

verus! {

/// A chunk's body inside an SSE frame: embedded newlines continue onto
/// further `data:` lines.
pub open spec fn sse_body(s: Seq<char>) -> Seq<char>
    decreases s.len(),
{
    if s.len() == 0 {
        Seq::empty()
    } else {
        (if s[0] == '\n' {
            "\ndata: "@
        } else {
            seq![s[0]]
        }) + sse_body(s.skip(1))
    }
}

/// The whole frame for one chunk.
pub open spec fn sse_frame(s: Seq<char>) -> Seq<char> {
    "data: "@ + sse_body(s) + "\n\n"@
}

proof fn lemma_sse_body_append(a: Seq<char>, b: Seq<char>)
    ensures
        sse_body(a + b) == sse_body(a) + sse_body(b),
    decreases a.len(),
{
    if a.len() == 0 {
        assert(a + b =~= b);
        assert(sse_body(a) + sse_body(b) =~= sse_body(b));
    } else {
        assert((a + b).skip(1) =~= a.skip(1) + b);
        lemma_sse_body_append(a.skip(1), b);
        assert((a + b)[0] == a[0]);
        let h = if a[0] == '\n' {
            "\ndata: "@
        } else {
            seq![a[0]]
        };
        assert(h + (sse_body(a.skip(1)) + sse_body(b)) =~= (h + sse_body(a.skip(1))) + sse_body(
            b,
        ));
    }
}

/// One SSE event carrying `data`.
pub fn sse_event(data: &str) -> (r: String)
    ensures
        r@ == sse_frame(data@),
{
    let v = crate::text::chars_of(data);
    let mut out: Vec<char> = Vec::new();
    push_lit(&mut out, "data: ");
    let mut i: usize = 0;
    while i < v.len()
        invariant
            v@ == data@,
            i <= v@.len(),
            out@ == "data: "@ + sse_body(data@.subrange(0, i as int)),
        decreases v@.len() - i,
    {
        let c = v[i];
        if c == '\n' {
            push_lit(&mut out, "\ndata: ");
        } else {
            out.push(c);
        }
        proof {
            let pre = data@.subrange(0, i as int);
            assert(data@.subrange(0, i + 1) =~= pre + seq![data@[i as int]]);
            lemma_sse_body_append(pre, seq![data@[i as int]]);
            assert(seq![data@[i as int]].skip(1) =~= Seq::<char>::empty());
            assert(sse_body(Seq::<char>::empty()) =~= Seq::<char>::empty());
            assert("\ndata: "@ + Seq::<char>::empty() =~= "\ndata: "@);
            assert(seq![data@[i as int]] + Seq::<char>::empty() =~= seq![data@[i as int]]);
            if data@[i as int] == '\n' {
                assert(sse_body(seq![data@[i as int]]) =~= "\ndata: "@);
            } else {
                assert(sse_body(seq![data@[i as int]]) =~= seq![data@[i as int]]);
            }
            assert(out@ =~= "data: "@ + sse_body(data@.subrange(0, i + 1)));
        }
        i = i + 1;
    }
    push_lit(&mut out, "\n\n");
    proof {
        assert(data@.subrange(0, data@.len() as int) =~= data@);
        assert(out@ =~= sse_frame(data@));
    }
    string_from_chars(&out)
}


/// The frame for a mid-stream failure: an `error` event carrying the
/// message, after which the stream terminates.
pub open spec fn sse_error_frame(s: Seq<char>) -> Seq<char> {
    "event: error\n"@ + sse_frame(s)
}

/// One SSE `error` event carrying the failure's message.
pub fn sse_error_event(message: &str) -> (r: String)
    ensures
        r@ == sse_error_frame(message@),
        r@ == "event: error\n"@ + sse_frame(message@),
{
    let frame = sse_event(message);
    let mut out: Vec<char> = Vec::new();
    push_lit(&mut out, "event: error\n");
    push_lit(&mut out, frame.as_str());
    string_from_chars(&out)
}

/// The closing sentinel: its data is exactly `[DONE]`.
pub fn sse_done() -> (r: String)
    ensures
        r@ == sse_frame("[DONE]"@),
        r@ == "data: [DONE]\n\n"@,
{
    let mut out: Vec<char> = Vec::new();
    push_lit(&mut out, "data: [DONE]\n\n");
    proof {
        lemma_sse_done_frame();
    }
    string_from_chars(&out)
}

/// The sentinel frame is the ordinary frame of the text `[DONE]`: the
/// stream's last event data is exactly `[DONE]`.
pub proof fn lemma_sse_done_frame()
    ensures
        sse_frame("[DONE]"@) == "data: [DONE]\n\n"@,
{
    reveal_strlit("[DONE]");
    reveal_strlit("data: ");
    reveal_strlit("\n\n");
    reveal_strlit("data: [DONE]\n\n");
    let s = "[DONE]"@;
    assert forall|i: int| 0 <= i < s.len() implies #[trigger] s[i] != '\n' by {}
    lemma_sse_body_plain(s);
    assert(sse_frame(s) =~= "data: [DONE]\n\n"@);
}

proof fn lemma_sse_body_plain(s: Seq<char>)
    requires
        forall|i: int| 0 <= i < s.len() ==> #[trigger] s[i] != '\n',
    ensures
        sse_body(s) == s,
    decreases s.len(),
{
    if s.len() == 0 {
        assert(sse_body(s) =~= s);
    } else {
        lemma_sse_body_plain(s.skip(1));
        assert(seq![s[0]] + s.skip(1) =~= s);
    }
}

} // verus!
