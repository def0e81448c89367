//! Framing of provider streams and the chunks the gateway makes of them.
//!
//! A batch of stream bytes (decoded as text) is cut into lines the way
//! `str::lines` does, each line is trimmed of whitespace, and, for
//! server-sent events, the payload of each `data: ` line is kept. The
//! payloads are decoded by the caller; the decoded events then drive the
//! per-provider chunk logic below.
use vstd::prelude::*;

use crate::convert::{gemini_finish_reason, join_parts, spec_gemini_finish, spec_join_parts};
use crate::text::{chars_of, seq_starts_with, starts_with, str_eq};

verus! {

// ---------------------------------------------------------------------------
// Lines and whitespace
// ---------------------------------------------------------------------------

/// Whether `c` has the Unicode White_Space property: U+0009 to U+000D,
/// U+0020, U+0085, U+00A0, U+1680, U+2000 to U+200A, U+2028, U+2029,
/// U+202F, U+205F and U+3000.
pub open spec fn spec_is_whitespace(c: char) -> bool {
    let u = c as u32;
    ||| 0x09 <= u <= 0x0D
    ||| u == 0x20
    ||| u == 0x85
    ||| u == 0xA0
    ||| u == 0x1680
    ||| 0x2000 <= u <= 0x200A
    ||| u == 0x2028
    ||| u == 0x2029
    ||| u == 0x202F
    ||| u == 0x205F
    ||| u == 0x3000
}

/// `char::is_whitespace`, which the standard library documents as the
/// Unicode White_Space property.
#[verifier::external_body]
fn is_whitespace(c: char) -> (r: bool)
    ensures
        r == spec_is_whitespace(c),
{
    c.is_whitespace()
}

/// `s` without its leading whitespace.
pub open spec fn spec_trim_start(s: Seq<char>) -> Seq<char>
    decreases s.len(),
{
    if s.len() > 0 && spec_is_whitespace(s[0]) {
        spec_trim_start(s.drop_first())
    } else {
        s
    }
}

/// `s` without its trailing whitespace.
pub open spec fn spec_trim_end(s: Seq<char>) -> Seq<char>
    decreases s.len(),
{
    if s.len() > 0 && spec_is_whitespace(s.last()) {
        spec_trim_end(s.drop_last())
    } else {
        s
    }
}

/// `s` without leading and trailing whitespace.
pub open spec fn spec_trim(s: Seq<char>) -> Seq<char> {
    spec_trim_end(spec_trim_start(s))
}

/// A line without the carriage return that ends it, if any.
pub open spec fn spec_strip_cr(l: Seq<char>) -> Seq<char> {
    if l.len() > 0 && l.last() == '\r' {
        l.drop_last()
    } else {
        l
    }
}

/// The complete lines of `s` (each without its `\n` and a `\r` before
/// it) and the unterminated rest.
pub open spec fn spec_split(s: Seq<char>) -> (Seq<Seq<char>>, Seq<char>)
    decreases s.len(),
{
    if s.len() == 0 {
        (Seq::empty(), Seq::empty())
    } else {
        let r = spec_split(s.drop_last());
        if s.last() == '\n' {
            (r.0.push(spec_strip_cr(r.1)), Seq::empty())
        } else {
            (r.0, r.1.push(s.last()))
        }
    }
}

/// The lines of `s` as `str::lines` gives them: split at `\n` (a `\r`
/// before it goes too), a final line ending optional.
pub open spec fn spec_lines(s: Seq<char>) -> Seq<Seq<char>> {
    let r = spec_split(s);
    if r.1.len() > 0 {
        r.0.push(r.1)
    } else {
        r.0
    }
}

/// The trimmed form of `cs[lo..hi]`, as a range of `cs`.
fn trim_range(cs: &Vec<char>, lo: usize, hi: usize) -> (r: (usize, usize))
    requires
        lo <= hi <= cs@.len(),
    ensures
        lo <= r.0 <= r.1 <= hi,
        cs@.subrange(r.0 as int, r.1 as int) == spec_trim(cs@.subrange(lo as int, hi as int)),
{
    let mut a = lo;
    while a < hi && is_whitespace(cs[a])
        invariant
            lo <= a <= hi <= cs@.len(),
            spec_trim_start(cs@.subrange(lo as int, hi as int)) == spec_trim_start(cs@.subrange(a as int, hi as int)),
        decreases hi - a,
    {
        assert(cs@.subrange(a as int, hi as int).drop_first() =~= cs@.subrange(a + 1, hi as int));
        a = a + 1;
    }
    let mut b = hi;
    while b > a && is_whitespace(cs[b - 1])
        invariant
            lo <= a <= b <= hi <= cs@.len(),
            spec_trim_end(cs@.subrange(a as int, hi as int)) == spec_trim_end(cs@.subrange(a as int, b as int)),
        decreases b - a,
    {
        assert(cs@.subrange(a as int, b as int).drop_last() =~= cs@.subrange(a as int, b - 1));
        b = b - 1;
    }
    (a, b)
}

/// The lines of `text`, each trimmed of leading and trailing whitespace.
pub fn trimmed_lines(text: &str) -> (r: Vec<String>)
    ensures
        r@.len() == spec_lines(text@).len(),
        forall|i: int| 0 <= i < r@.len() ==> #[trigger] r@[i]@ == spec_trim(spec_lines(text@)[i]),
{
    let cs = chars_of(text);
    let n = cs.len();
    let mut out: Vec<String> = Vec::new();
    let mut start: usize = 0;
    let mut i: usize = 0;
    while i < n
        invariant
            n == cs@.len(),
            cs@ == text@,
            start <= i <= n,
            spec_split(cs@.take(i as int)).1 == cs@.subrange(start as int, i as int),
            out@.len() == spec_split(cs@.take(i as int)).0.len(),
            forall|j: int| 0 <= j < out@.len() ==> #[trigger] out@[j]@ == spec_trim(spec_split(cs@.take(i as int)).0[j]),
        decreases n - i,
    {
        assert(cs@.take(i + 1).drop_last() == cs@.take(i as int));
        assert(cs@.take(i + 1).last() == cs@[i as int]);
        if cs[i] == '\n' {
            let mut e = i;
            if e > start && cs[e - 1] == '\r' {
                e = e - 1;
                assert(cs@.subrange(start as int, e as int) =~= cs@.subrange(start as int, i as int).drop_last());
            }
            assert(cs@.subrange(start as int, e as int) == spec_strip_cr(cs@.subrange(start as int, i as int)));
            let (a, b) = trim_range(&cs, start, e);
            let line = text.substring_char(a, b).to_owned();
            let ghost prev = out@;
            out.push(line);
            assert forall|j: int| 0 <= j < out@.len() implies #[trigger] out@[j]@ == spec_trim(
                spec_split(cs@.take(i + 1)).0[j],
            ) by {
                if j < prev.len() {
                    assert(out@[j] == prev[j]);
                }
            }
            start = i + 1;
        }
        i = i + 1;
        assert(cs@.subrange(start as int, i as int) =~= spec_split(cs@.take(i as int)).1);
    }
    assert(cs@.take(n as int) == cs@);
    if start < n {
        let (a, b) = trim_range(&cs, start, n);
        let line = text.substring_char(a, b).to_owned();
        let ghost prev = out@;
        out.push(line);
        assert forall|j: int| 0 <= j < out@.len() implies #[trigger] out@[j]@ == spec_trim(spec_lines(text@)[j]) by {
            if j < prev.len() {
                assert(out@[j] == prev[j]);
            }
        }
    }
    out
}

// ---------------------------------------------------------------------------
// Server-sent events and JSON lines
// ---------------------------------------------------------------------------

/// The payload of a server-sent event line: what follows `data: `.
pub open spec fn spec_sse_data(line: Seq<char>) -> Option<Seq<char>> {
    if seq_starts_with(line, "data: "@) {
        Some(line.skip(6))
    } else {
        None
    }
}

/// The payload of a server-sent event line, if it is a `data: ` line.
pub fn sse_data(line: &str) -> (r: Option<String>)
    ensures
        match r {
            Some(d) => spec_sse_data(line@) == Some(d@),
            None => spec_sse_data(line@) is None,
        },
{
    proof {
        reveal_strlit("data: ");
    }
    if starts_with(line, "data: ") {
        let n = line.unicode_len();
        let d = line.substring_char(6, n).to_owned();
        assert(d@ =~= line@.skip(6));
        Some(d)
    } else {
        None
    }
}

/// The payloads of the `data: ` lines among `lines`, trimmed, in order.
pub open spec fn spec_payloads(lines: Seq<Seq<char>>) -> Seq<Seq<char>>
    decreases lines.len(),
{
    if lines.len() == 0 {
        Seq::empty()
    } else {
        let rest = spec_payloads(lines.drop_last());
        match spec_sse_data(spec_trim(lines.last())) {
            Some(d) => rest.push(d),
            None => rest,
        }
    }
}

/// The payloads of the server-sent events in a batch of stream text.
pub fn sse_payloads(text: &str) -> (r: Vec<String>)
    ensures
        r@.len() == spec_payloads(spec_lines(text@)).len(),
        forall|i: int| 0 <= i < r@.len() ==> #[trigger] r@[i]@ == spec_payloads(spec_lines(text@))[i],
{
    let lines = trimmed_lines(text);
    let ghost ls = spec_lines(text@);
    let mut out: Vec<String> = Vec::new();
    let mut i: usize = 0;
    while i < lines.len()
        invariant
            ls == spec_lines(text@),
            lines@.len() == ls.len(),
            forall|j: int| 0 <= j < lines@.len() ==> #[trigger] lines@[j]@ == spec_trim(ls[j]),
            i <= lines@.len(),
            out@.len() == spec_payloads(ls.take(i as int)).len(),
            forall|j: int| 0 <= j < out@.len() ==> #[trigger] out@[j]@ == spec_payloads(ls.take(i as int))[j],
        decreases lines@.len() - i,
    {
        assert(ls.take(i + 1).drop_last() == ls.take(i as int));
        assert(ls.take(i + 1).last() == ls[i as int]);
        assert(lines@[i as int]@ == spec_trim(ls[i as int]));
        match sse_data(lines[i].as_str()) {
            Some(d) => {
                let ghost prev = out@;
                out.push(d);
                assert forall|j: int| 0 <= j < out@.len() implies #[trigger] out@[j]@ == spec_payloads(
                    ls.take(i + 1),
                )[j] by {
                    if j < prev.len() {
                        assert(out@[j] == prev[j]);
                    }
                }
            },
            None => {},
        }
        i = i + 1;
    }
    assert(ls.take(lines@.len() as int) == ls);
    out
}

/// The non-empty trimmed lines among `lines`, in order.
pub open spec fn spec_json_lines(lines: Seq<Seq<char>>) -> Seq<Seq<char>>
    decreases lines.len(),
{
    if lines.len() == 0 {
        Seq::empty()
    } else {
        let rest = spec_json_lines(lines.drop_last());
        let t = spec_trim(lines.last());
        if t.len() > 0 {
            rest.push(t)
        } else {
            rest
        }
    }
}

/// The records of a batch of newline-delimited JSON: its non-empty lines,
/// trimmed.
pub fn json_lines(text: &str) -> (r: Vec<String>)
    ensures
        r@.len() == spec_json_lines(spec_lines(text@)).len(),
        forall|i: int| 0 <= i < r@.len() ==> #[trigger] r@[i]@ == spec_json_lines(spec_lines(text@))[i],
{
    let lines = trimmed_lines(text);
    let ghost ls = spec_lines(text@);
    let mut out: Vec<String> = Vec::new();
    let mut i: usize = 0;
    while i < lines.len()
        invariant
            ls == spec_lines(text@),
            lines@.len() == ls.len(),
            forall|j: int| 0 <= j < lines@.len() ==> #[trigger] lines@[j]@ == spec_trim(ls[j]),
            i <= lines@.len(),
            out@.len() == spec_json_lines(ls.take(i as int)).len(),
            forall|j: int| 0 <= j < out@.len() ==> #[trigger] out@[j]@ == spec_json_lines(ls.take(i as int))[j],
        decreases lines@.len() - i,
    {
        assert(ls.take(i + 1).drop_last() == ls.take(i as int));
        assert(ls.take(i + 1).last() == ls[i as int]);
        assert(lines@[i as int]@ == spec_trim(ls[i as int]));
        if lines[i].as_str().unicode_len() > 0 {
            let ghost prev = out@;
            out.push(lines[i].clone());
            assert forall|j: int| 0 <= j < out@.len() implies #[trigger] out@[j]@ == spec_json_lines(
                ls.take(i + 1),
            )[j] by {
                if j < prev.len() {
                    assert(out@[j] == prev[j]);
                }
            }
        }
        i = i + 1;
    }
    assert(ls.take(lines@.len() as int) == ls);
    out
}

// ---------------------------------------------------------------------------
// Chunks
// ---------------------------------------------------------------------------

/// One streamed piece of a completion: the completion id, new text, and
/// the finish reason on the last piece.
#[derive(Debug)]
pub struct StreamDelta {
    pub id: String,
    pub content: Option<String>,
    pub finish_reason: Option<String>,
}

/// Abstract value of a streamed piece.
pub struct DeltaView {
    pub id: Seq<char>,
    pub content: Option<Seq<char>>,
    pub finish_reason: Option<Seq<char>>,
}

impl View for StreamDelta {
    type V = DeltaView;

    open spec fn view(&self) -> DeltaView {
        DeltaView {
            id: self.id@,
            content: crate::text::opt_string_view(self.content),
            finish_reason: crate::text::opt_string_view(self.finish_reason),
        }
    }
}

/// An event of Anthropic's message stream, as decoded from a payload:
/// its type, the id of the message it starts (on `message_start`), and
/// the text of its delta (on `content_block_delta`).
#[derive(Debug)]
pub struct AnthropicEvent {
    pub event_type: String,
    pub message_id: Option<String>,
    pub delta_text: Option<String>,
}

/// The message id after an event, and the piece it yields: a started
/// message sets the id, a text delta yields its text, the end of the
/// message yields the `stop` finish; every other event yields nothing.
pub open spec fn spec_anthropic_step(id: Seq<char>, e: AnthropicEvent) -> (Seq<char>, Option<DeltaView>) {
    if e.event_type@ == "message_start"@ {
        (
            match e.message_id {
                Some(m) => m@,
                None => id,
            },
            None,
        )
    } else if e.event_type@ == "content_block_delta"@ {
        (
            id,
            match e.delta_text {
                Some(t) => Some(DeltaView { id, content: Some(t@), finish_reason: None }),
                None => None,
            },
        )
    } else if e.event_type@ == "message_stop"@ {
        (id, Some(DeltaView { id, content: None, finish_reason: Some("stop"@) }))
    } else {
        (id, None)
    }
}

/// The message id after a run of events, and the pieces they yield.
pub open spec fn spec_anthropic_run(id: Seq<char>, es: Seq<AnthropicEvent>) -> (Seq<char>, Seq<DeltaView>)
    decreases es.len(),
{
    if es.len() == 0 {
        (id, Seq::empty())
    } else {
        let r = spec_anthropic_run(id, es.drop_last());
        let (nid, d) = spec_anthropic_step(r.0, es.last());
        (
            nid,
            match d {
                Some(d) => r.1.push(d),
                None => r.1,
            },
        )
    }
}

/// Whether event `e` starts a message with an id.
pub open spec fn spec_starts_message(e: AnthropicEvent) -> bool {
    e.event_type@ == "message_start"@ && e.message_id is Some
}

/// Whether `id` is the message id in force just before position `j` of
/// `es`, for a stream whose id was `id0` before `es`: the id of the latest
/// `message_start` among the first `j` events, or `id0` when there is none.
pub open spec fn spec_id_in_force(id0: Seq<char>, es: Seq<AnthropicEvent>, j: int, id: Seq<char>) -> bool {
    ||| (id == id0 && forall|k: int| 0 <= k < j ==> !spec_starts_message(#[trigger] es[k]))
    ||| exists|k: int|
        0 <= k < j && spec_starts_message(#[trigger] es[k]) && es[k].message_id->0@ == id && forall|
            k2: int,
        |
            k < k2 < j ==> !spec_starts_message(#[trigger] es[k2])
}

/// What is in force before position `j` of a prefix of `es` is in force
/// there in `es` too.
proof fn lemma_in_force_prefix(id0: Seq<char>, es: Seq<AnthropicEvent>, n: int, j: int, x: Seq<char>)
    requires
        0 <= j <= n <= es.len(),
        spec_id_in_force(id0, es.take(n), j, x),
    ensures
        spec_id_in_force(id0, es, j, x),
{
    let pre = es.take(n);
    assert forall|k: int| 0 <= k < j implies pre[k] == es[k] by {}
    if x == id0 && forall|k: int| 0 <= k < j ==> !spec_starts_message(#[trigger] pre[k]) {
        assert forall|k: int| 0 <= k < j implies !spec_starts_message(#[trigger] es[k]) by {
            assert(pre[k] == es[k]);
        }
    } else {
        let k = choose|k: int|
            0 <= k < j && spec_starts_message(#[trigger] pre[k]) && pre[k].message_id->0@ == x && forall|
                k2: int,
            |
                k < k2 < j ==> !spec_starts_message(#[trigger] pre[k2]);
        assert(pre[k] == es[k]);
        assert forall|k2: int| k < k2 < j implies !spec_starts_message(#[trigger] es[k2]) by {
            assert(pre[k2] == es[k2]);
        }
    }
}

/// An event that starts no message leaves the id in force unchanged.
proof fn lemma_in_force_skip(id0: Seq<char>, es: Seq<AnthropicEvent>, j: int, x: Seq<char>)
    requires
        0 <= j < es.len(),
        spec_id_in_force(id0, es, j, x),
        !spec_starts_message(es[j]),
    ensures
        spec_id_in_force(id0, es, j + 1, x),
{
    if x == id0 && forall|k: int| 0 <= k < j ==> !spec_starts_message(#[trigger] es[k]) {
        assert forall|k: int| 0 <= k < j + 1 implies !spec_starts_message(#[trigger] es[k]) by {}
    } else {
        let k = choose|k: int|
            0 <= k < j && spec_starts_message(#[trigger] es[k]) && es[k].message_id->0@ == x && forall|
                k2: int,
            |
                k < k2 < j ==> !spec_starts_message(#[trigger] es[k2]);
        assert forall|k2: int| k < k2 < j + 1 implies !spec_starts_message(#[trigger] es[k2]) by {}
    }
}

/// Whether event `e` yields a piece: a text delta with text, or the end of
/// a message.
pub open spec fn spec_yields_piece(e: AnthropicEvent) -> bool {
    (e.event_type@ == "content_block_delta"@ && e.delta_text is Some) || e.event_type@ == "message_stop"@
}

/// Each piece of an Anthropic stream carries the id of the message it
/// belongs to. After a run of events the stream's id is the one in force
/// after the last of them. The run yields a piece exactly when one of its
/// events is a text delta with text or a message stop; its first piece
/// comes from the first such event: the delta's text, or no text and the
/// `stop` finish, with the id in force at that event (set by the latest
/// preceding `message_start`, earlier in the same batch included).
pub proof fn lemma_anthropic_piece_ids(id0: Seq<char>, es: Seq<AnthropicEvent>)
    ensures
        spec_id_in_force(id0, es, es.len() as int, spec_anthropic_run(id0, es).0),
        spec_anthropic_run(id0, es).1.len() > 0 <==> exists|k: int|
            0 <= k < es.len() && spec_yields_piece(#[trigger] es[k]),
        spec_anthropic_run(id0, es).1.len() > 0 ==> exists|j: int|
            #![trigger es[j]]
            0 <= j < es.len() && spec_yields_piece(es[j]) && (forall|k: int|
                0 <= k < j ==> !spec_yields_piece(#[trigger] es[k])) && spec_id_in_force(
                id0,
                es,
                j,
                spec_anthropic_run(id0, es).1[0].id,
            ) && (es[j].event_type@ == "message_stop"@ ==> spec_anthropic_run(id0, es).1[0].content is None
                && spec_anthropic_run(id0, es).1[0].finish_reason == Some("stop"@)) && (es[j].event_type@
                != "message_stop"@ ==> spec_anthropic_run(id0, es).1[0].content == Some(
                es[j].delta_text->0@,
            ) && spec_anthropic_run(id0, es).1[0].finish_reason is None),
    decreases es.len(),
{
    reveal_strlit("message_start");
    reveal_strlit("content_block_delta");
    reveal_strlit("message_stop");
    assert("message_start"@.len() != "content_block_delta"@.len());
    assert("message_start"@[10] != "message_stop"@[10]);
    assert("content_block_delta"@.len() != "message_stop"@.len());
    if es.len() == 0 {
    } else {
        let n = es.len() - 1;
        let pre = es.drop_last();
        assert(pre == es.take(n));
        let e = es.last();
        assert(e == es[n]);
        assert forall|k: int| 0 <= k < n implies pre[k] == es[k] by {}
        lemma_anthropic_piece_ids(id0, pre);
        let r = spec_anthropic_run(id0, pre);
        lemma_in_force_prefix(id0, es, n, n, r.0);
        if spec_starts_message(e) {
            assert(spec_starts_message(es[n]));
        } else {
            lemma_in_force_skip(id0, es, n, r.0);
        }
        if r.1.len() > 0 {
            let j = choose|j: int|
                #![trigger pre[j]]
                0 <= j < pre.len() && spec_yields_piece(pre[j]) && (forall|k: int|
                    0 <= k < j ==> !spec_yields_piece(#[trigger] pre[k])) && spec_id_in_force(
                    id0,
                    pre,
                    j,
                    r.1[0].id,
                ) && (pre[j].event_type@ == "message_stop"@ ==> r.1[0].content is None
                    && r.1[0].finish_reason == Some("stop"@)) && (pre[j].event_type@ != "message_stop"@
                    ==> r.1[0].content == Some(pre[j].delta_text->0@) && r.1[0].finish_reason is None);
            assert(pre[j] == es[j]);
            assert forall|k: int| 0 <= k < j implies !spec_yields_piece(#[trigger] es[k]) by {
                assert(pre[k] == es[k]);
            }
            lemma_in_force_prefix(id0, es, n, j, r.1[0].id);
            assert(spec_anthropic_run(id0, es).1[0] == r.1[0]);
            assert(spec_yields_piece(es[j]));
        } else {
            assert forall|k: int| 0 <= k < n implies !spec_yields_piece(#[trigger] es[k]) by {
                assert(pre[k] == es[k]);
                if spec_yields_piece(pre[k]) {
                    assert(exists|k: int| 0 <= k < pre.len() && spec_yields_piece(#[trigger] pre[k]));
                }
            }
            if spec_anthropic_run(id0, es).1.len() > 0 {
                assert(spec_yields_piece(es[n]));
                assert(spec_anthropic_run(id0, es).1[0].id == r.0);
            } else {
                assert(!spec_yields_piece(es[n]));
            }
        }
    }
}

/// The state of one Anthropic stream: the id of the current message.
pub struct AnthropicStream {
    pub message_id: String,
}

impl AnthropicStream {
    /// A stream that has not started a message yet.
    pub fn new() -> (s: Self)
        ensures
            s.message_id@ == Seq::<char>::empty(),
    {
        AnthropicStream { message_id: String::new() }
    }

    /// Process the events decoded from one batch of the stream. Every
    /// event is applied; the chunk of the batch is the first piece they
    /// yield (later pieces of the same batch are not sent).
    pub fn on_batch(&mut self, events: &Vec<AnthropicEvent>) -> (r: Option<StreamDelta>)
        ensures
            final(self).message_id@ == spec_anthropic_run(old(self).message_id@, events@).0,
            match r {
                Some(d) => spec_anthropic_run(old(self).message_id@, events@).1.len() > 0 && d@
                    == spec_anthropic_run(old(self).message_id@, events@).1[0],
                None => spec_anthropic_run(old(self).message_id@, events@).1.len() == 0,
            },
    {
        let ghost id0 = self.message_id@;
        let mut first: Option<StreamDelta> = None;
        let mut i: usize = 0;
        while i < events.len()
            invariant
                i <= events@.len(),
                self.message_id@ == spec_anthropic_run(id0, events@.take(i as int)).0,
                match first {
                    Some(d) => spec_anthropic_run(id0, events@.take(i as int)).1.len() > 0 && d@
                        == spec_anthropic_run(id0, events@.take(i as int)).1[0],
                    None => spec_anthropic_run(id0, events@.take(i as int)).1.len() == 0,
                },
            decreases events@.len() - i,
        {
            let e = &events[i];
            assert(events@.take(i + 1).drop_last() == events@.take(i as int));
            assert(events@.take(i + 1).last() == *e);
            let piece: Option<StreamDelta> = if str_eq(e.event_type.as_str(), "message_start") {
                match &e.message_id {
                    Some(m) => {
                        self.message_id = m.clone();
                    },
                    None => {},
                }
                None
            } else if str_eq(e.event_type.as_str(), "content_block_delta") {
                match &e.delta_text {
                    Some(t) => Some(StreamDelta { id: self.message_id.clone(), content: Some(t.clone()), finish_reason: None }),
                    None => None,
                }
            } else if str_eq(e.event_type.as_str(), "message_stop") {
                Some(StreamDelta { id: self.message_id.clone(), content: None, finish_reason: Some("stop".to_owned()) })
            } else {
                None
            };
            if first.is_none() {
                first = piece;
            }
            i = i + 1;
        }
        assert(events@.take(events@.len() as int) == events@);
        first
    }
}

/// The position of the first present item of `s`.
pub open spec fn spec_first_some<T>(s: Seq<Option<T>>) -> Option<int> {
    if exists|i: int| 0 <= i < s.len() && (#[trigger] s[i]) is Some {
        Some(choose|i: int| 0 <= i < s.len() && (#[trigger] s[i]) is Some && forall|j: int| 0 <= j < i ==> (#[trigger] s[j]) is None)
    } else {
        None
    }
}

/// The first present item of `v`.
pub fn first_some<T>(v: &Vec<Option<T>>) -> (r: Option<&T>)
    ensures
        match r {
            Some(x) => spec_first_some(v@) matches Some(i) && v@[i] == Some(*x),
            None => spec_first_some(v@) is None,
        },
{
    let mut i: usize = 0;
    while i < v.len()
        invariant
            i <= v@.len(),
            forall|j: int| 0 <= j < i ==> (#[trigger] v@[j]) is None,
        decreases v@.len() - i,
    {
        match &v[i] {
            Some(x) => {
                proof {
                    let k = choose|k: int| 0 <= k < v@.len() && (#[trigger] v@[k]) is Some && forall|j: int| 0 <= j < k ==> (#[trigger] v@[j]) is None;
                    if k < i {
                        assert(v@[k] is None);
                    }
                    if i < k {
                        assert(v@[i as int] is None);
                    }
                }
                return Some(x);
            },
            None => {},
        }
        i = i + 1;
    }
    None
}

/// The first candidate of a decoded Gemini stream payload: the texts of
/// its parts and its finish reason.
#[derive(Debug)]
pub struct GeminiCandidate {
    pub parts: Vec<Option<String>>,
    pub finish_reason: Option<String>,
}

/// The chunk of a Gemini stream batch, given the first candidate of each
/// payload (`None` where the payload did not decode or had none): the
/// first candidate present yields its text and its finish reason in OpenAI
/// terms; without one the batch yields nothing.
pub fn gemini_batch_delta(id: &str, candidates: &Vec<Option<GeminiCandidate>>) -> (r: Option<StreamDelta>)
    ensures
        match r {
            Some(d) => spec_first_some(candidates@) matches Some(i) && candidates@[i] matches Some(c) && {
                &&& d.id@ == id@
                &&& d.content == Some(d.content->0) && d.content->0@ == spec_join_parts(c.parts@)
                &&& crate::text::opt_string_view(d.finish_reason) == match c.finish_reason {
                    Some(f) => Some(spec_gemini_finish(f@)),
                    None => None,
                }
            },
            None => spec_first_some(candidates@) is None,
        },
{
    match first_some(candidates) {
        Some(c) => {
            let content = join_parts(&c.parts);
            let finish = match &c.finish_reason {
                Some(f) => Some(gemini_finish_reason(f.as_str())),
                None => None,
            };
            Some(StreamDelta { id: id.to_owned(), content: Some(content), finish_reason: finish })
        },
        None => None,
    }
}

/// A decoded record of an Ollama stream: new text, and whether the
/// message is done.
#[derive(Debug)]
pub struct OllamaRecord {
    pub content: String,
    pub done: bool,
}

/// The chunk of an Ollama stream batch, given each record as decoded
/// (`None` where a line did not decode): the first record yields its text,
/// and the `stop` finish when it is the last.
pub fn ollama_batch_delta(id: &str, records: &Vec<Option<OllamaRecord>>) -> (r: Option<StreamDelta>)
    ensures
        match r {
            Some(d) => spec_first_some(records@) matches Some(i) && records@[i] matches Some(rec) && {
                &&& d.id@ == id@
                &&& d.content == Some(d.content->0) && d.content->0@ == rec.content@
                &&& crate::text::opt_string_view(d.finish_reason) == if rec.done {
                    Some("stop"@)
                } else {
                    None
                }
            },
            None => spec_first_some(records@) is None,
        },
{
    match first_some(records) {
        Some(rec) => {
            let finish = if rec.done {
                Some("stop".to_owned())
            } else {
                None
            };
            Some(StreamDelta { id: id.to_owned(), content: Some(rec.content.clone()), finish_reason: finish })
        },
        None => None,
    }
}

/// What one batch of an OpenAI stream comes to.
#[derive(Debug)]
pub enum OpenAiBatch {
    /// No event in the batch.
    Nothing,
    /// The stream's end marker came first.
    Done,
    /// The first event's payload, to be decoded as a chunk.
    Payload(String),
}

/// The outcome of an OpenAI stream batch: only its first event counts;
/// `[DONE]` ends the stream.
pub fn openai_batch(text: &str) -> (r: OpenAiBatch)
    ensures
        ({
            let ps = spec_payloads(spec_lines(text@));
            match r {
                OpenAiBatch::Nothing => ps.len() == 0,
                OpenAiBatch::Done => ps.len() > 0 && ps[0] == "[DONE]"@,
                OpenAiBatch::Payload(p) => ps.len() > 0 && ps[0] != "[DONE]"@ && p@ == ps[0],
            }
        }),
{
    let ps = sse_payloads(text);
    if ps.len() == 0 {
        return OpenAiBatch::Nothing;
    }
    if str_eq(ps[0].as_str(), "[DONE]") {
        OpenAiBatch::Done
    } else {
        OpenAiBatch::Payload(ps[0].clone())
    }
}

/// The first present item is present and every item before it is absent;
/// there is none exactly when every item is absent.
pub proof fn lemma_first_some_is_first<T>(s: Seq<Option<T>>)
    ensures
        spec_first_some(s) is None <==> forall|j: int| 0 <= j < s.len() ==> (#[trigger] s[j]) is None,
        spec_first_some(s) matches Some(i) ==> 0 <= i < s.len() && s[i] is Some && forall|j: int|
            0 <= j < i ==> (#[trigger] s[j]) is None,
{
    if exists|i: int| 0 <= i < s.len() && (#[trigger] s[i]) is Some {
        let w = choose|i: int| 0 <= i < s.len() && (#[trigger] s[i]) is Some;
        lemma_least_some(s, w);
    }
}

/// Below any present item there is a least one.
proof fn lemma_least_some<T>(s: Seq<Option<T>>, w: int)
    requires
        0 <= w < s.len(),
        s[w] is Some,
    ensures
        exists|i: int| 0 <= i < s.len() && (#[trigger] s[i]) is Some && forall|j: int| 0 <= j < i ==> (#[trigger] s[j]) is None,
    decreases w,
{
    if exists|j: int| 0 <= j < w && (#[trigger] s[j]) is Some {
        let j = choose|j: int| 0 <= j < w && (#[trigger] s[j]) is Some;
        lemma_least_some(s, j);
    } else {
        assert(forall|j: int| 0 <= j < w ==> (#[trigger] s[j]) is None);
    }
}

/// A `data: ` line carries exactly what follows the prefix: the payload of
/// `data: ` followed by `d` is `d`, and a line with a payload is `data: `
/// followed by it.
pub proof fn lemma_sse_data_inverse(line: Seq<char>, d: Seq<char>)
    ensures
        spec_sse_data("data: "@ + d) == Some(d),
        spec_sse_data(line) == Some(d) ==> line == "data: "@ + d,
{
    reveal_strlit("data: ");
    assert(("data: "@ + d).subrange(0, 6) =~= "data: "@);
    assert(("data: "@ + d).skip(6) =~= d);
    if spec_sse_data(line) == Some(d) {
        assert(line =~= "data: "@ + d);
    }
}

/// The complete lines of text without carriage returns, each followed by
/// a newline, then the unterminated rest.
pub open spec fn spec_join_lines(ls: Seq<Seq<char>>) -> Seq<char>
    decreases ls.len(),
{
    if ls.len() == 0 {
        Seq::empty()
    } else {
        spec_join_lines(ls.drop_last()) + ls.last().push('\n')
    }
}

/// Splitting text without carriage returns into lines loses nothing: the
/// complete lines, each with its newline restored, followed by the
/// unterminated rest give back the text, and no line or rest holds a
/// newline.
pub proof fn lemma_split_rejoins(s: Seq<char>)
    requires
        forall|i: int| 0 <= i < s.len() ==> s[i] != '\r',
    ensures
        spec_join_lines(spec_split(s).0) + spec_split(s).1 == s,
        forall|i: int| 0 <= i < spec_split(s).1.len() ==> spec_split(s).1[i] != '\n',
        forall|k: int, i: int|
            0 <= k < spec_split(s).0.len() && 0 <= i < spec_split(s).0[k].len() ==> spec_split(s).0[k][i]
                != '\n',
    decreases s.len(),
{
    if s.len() > 0 {
        let p = s.drop_last();
        let c = s.last();
        assert forall|i: int| 0 <= i < p.len() implies p[i] != '\r' by {
            assert(p[i] == s[i]);
        }
        lemma_split_rejoins(p);
        let r = spec_split(p);
        assert(s =~= p.push(c));
        let jr = spec_join_lines(r.0);
        assert forall|i: int| 0 <= i < r.1.len() implies r.1[i] != '\r' by {
            assert((jr + r.1)[jr.len() + i] == r.1[i]);
            assert(p[jr.len() + i] == r.1[i]);
        }
        if c == '\n' {
            if r.1.len() > 0 {
                assert(r.1[r.1.len() - 1] != '\r');
            }
            assert(spec_strip_cr(r.1) == r.1);
            let nl = r.0.push(r.1);
            assert(nl.drop_last() =~= r.0);
            assert(spec_join_lines(nl) =~= jr + r.1.push('\n'));
            assert(spec_join_lines(nl) + Seq::<char>::empty() =~= s);
            assert forall|k: int, i: int| 0 <= k < nl.len() && 0 <= i < nl[k].len() implies nl[k][i] != '\n' by {
                if k < r.0.len() {
                    assert(nl[k] == r.0[k]);
                }
            }
        } else {
            assert(jr + r.1.push(c) =~= s);
        }
    }
}

/// The payloads of a batch are the `data: ` lines among its lines,
/// trimmed, in order, each without the `data: ` prefix.
pub proof fn lemma_payloads_are_data_lines(lines: Seq<Seq<char>>)
    ensures
        spec_payloads(lines) == lines.map_values(|l: Seq<char>| spec_trim(l)).filter(
            |t: Seq<char>| seq_starts_with(t, "data: "@),
        ).map_values(|t: Seq<char>| t.skip(6)),
    decreases lines.len(),
{
    reveal_strlit("data: ");
    let f = |l: Seq<char>| spec_trim(l);
    let p = |t: Seq<char>| seq_starts_with(t, "data: "@);
    let g = |t: Seq<char>| t.skip(6);
    if lines.len() > 0 {
        let pre = lines.drop_last();
        lemma_payloads_are_data_lines(pre);
        let m = lines.map_values(f);
        assert(m =~= pre.map_values(f).push(spec_trim(lines.last())));
        pre.map_values(f).lemma_filter_push(spec_trim(lines.last()), p);
        let fp = pre.map_values(f).filter(p);
        if p(spec_trim(lines.last())) {
            assert(fp.push(spec_trim(lines.last())).map_values(g) =~= fp.map_values(g).push(
                spec_trim(lines.last()).skip(6),
            ));
        }
    } else {
        assert(lines.map_values(f) =~= Seq::<Seq<char>>::empty());
        assert(lines.map_values(f).filter(p) =~= Seq::<Seq<char>>::empty());
    }
}

/// The records of a JSON-lines batch are its non-empty lines, trimmed, in
/// order.
pub proof fn lemma_json_lines_are_nonempty_lines(lines: Seq<Seq<char>>)
    ensures
        spec_json_lines(lines) == lines.map_values(|l: Seq<char>| spec_trim(l)).filter(
            |t: Seq<char>| t.len() > 0,
        ),
    decreases lines.len(),
{
    let f = |l: Seq<char>| spec_trim(l);
    let p = |t: Seq<char>| t.len() > 0;
    if lines.len() > 0 {
        let pre = lines.drop_last();
        lemma_json_lines_are_nonempty_lines(pre);
        assert(lines.map_values(f) =~= pre.map_values(f).push(spec_trim(lines.last())));
        pre.map_values(f).lemma_filter_push(spec_trim(lines.last()), p);
    } else {
        assert(lines.map_values(f) =~= Seq::<Seq<char>>::empty());
    }
}

} // verus!
