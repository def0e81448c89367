//! Conversion between the OpenAI chat format that clients speak and the
//! formats of the providers behind the gateway: turns and system prompts,
//! finish reasons, response text and token usage.
use vstd::prelude::*;

use crate::metering::Usage;
use crate::text::str_eq;

verus! {

// ---------------------------------------------------------------------------
// Chat messages
// ---------------------------------------------------------------------------

/// Content of a chat message: plain text, or a list of parts (the text of
/// each part, if it has any).
#[derive(Debug)]
pub enum MessageContent {
    Text(String),
    Parts(Vec<Option<String>>),
}

/// A chat message as clients send it.
#[derive(Debug)]
pub struct ChatMessage {
    pub role: String,
    pub content: Option<MessageContent>,
}

/// A turn as a provider receives it: a role and a text.
#[derive(Debug)]
pub struct Turn {
    pub role: String,
    pub text: String,
}

/// The text a provider receives for a message: the text itself, or the
/// text of the first part (empty when that part has none), or nothing.
pub open spec fn spec_message_text(c: Option<MessageContent>) -> Seq<char> {
    match c {
        Some(MessageContent::Text(t)) => t@,
        Some(MessageContent::Parts(ps)) => if ps@.len() > 0 {
            match ps@[0] {
                Some(t) => t@,
                None => Seq::empty(),
            }
        } else {
            Seq::empty()
        },
        None => Seq::empty(),
    }
}

/// The text a provider receives for a message.
pub fn message_text(c: &Option<MessageContent>) -> (t: &str)
    ensures
        t@ == spec_message_text(*c),
{
    proof {
        reveal_strlit("");
    }
    match c {
        Some(MessageContent::Text(t)) => t.as_str(),
        Some(MessageContent::Parts(ps)) => {
            if ps.len() > 0 {
                match &ps[0] {
                    Some(t) => t.as_str(),
                    None => "",
                }
            } else {
                ""
            }
        },
        None => "",
    }
}

/// The system prompt of a conversation: the text of its last system
/// message with plain-text content.
pub open spec fn spec_system_prompt(msgs: Seq<ChatMessage>) -> Option<Seq<char>>
    decreases msgs.len(),
{
    if msgs.len() == 0 {
        None
    } else {
        let m = msgs.last();
        match m.content {
            Some(MessageContent::Text(t)) if m.role@ == "system"@ => Some(t@),
            _ => spec_system_prompt(msgs.drop_last()),
        }
    }
}

/// The turns of a conversation for a provider that calls the assistant
/// `assistant_role`: system messages leave, an assistant message keeps
/// the assistant role, every other message becomes a user turn.
pub open spec fn spec_turns(msgs: Seq<ChatMessage>, assistant_role: Seq<char>) -> Seq<(Seq<char>, Seq<char>)>
    decreases msgs.len(),
{
    if msgs.len() == 0 {
        Seq::empty()
    } else {
        let m = msgs.last();
        let rest = spec_turns(msgs.drop_last(), assistant_role);
        if m.role@ == "system"@ {
            rest
        } else {
            let role = if m.role@ == "assistant"@ {
                assistant_role
            } else {
                "user"@
            };
            rest.push((role, spec_message_text(m.content)))
        }
    }
}

/// The views of a list of turns.
pub open spec fn spec_turn_views(ts: Seq<Turn>) -> Seq<(Seq<char>, Seq<char>)> {
    ts.map_values(|t: Turn| (t.role@, t.text@))
}

/// Split a conversation into its system prompt and its turns, for a
/// provider that takes the system prompt apart and calls the assistant
/// `assistant_role` (Anthropic: `assistant`; Gemini: `model`).
pub fn split_system(msgs: &Vec<ChatMessage>, assistant_role: &str) -> (r: (Option<String>, Vec<Turn>))
    ensures
        match r.0 {
            Some(s) => spec_system_prompt(msgs@) == Some(s@),
            None => spec_system_prompt(msgs@) is None,
        },
        spec_turn_views(r.1@) == spec_turns(msgs@, assistant_role@),
{
    let mut system: Option<String> = None;
    let mut turns: Vec<Turn> = Vec::new();
    let mut i: usize = 0;
    while i < msgs.len()
        invariant
            i <= msgs@.len(),
            match system {
                Some(s) => spec_system_prompt(msgs@.take(i as int)) == Some(s@),
                None => spec_system_prompt(msgs@.take(i as int)) is None,
            },
            spec_turn_views(turns@) == spec_turns(msgs@.take(i as int), assistant_role@),
        decreases msgs@.len() - i,
    {
        let m = &msgs[i];
        assert(msgs@.take(i + 1).drop_last() == msgs@.take(i as int));
        assert(msgs@.take(i + 1).last() == *m);
        if str_eq(m.role.as_str(), "system") {
            match &m.content {
                Some(MessageContent::Text(t)) => {
                    system = Some(t.clone());
                },
                _ => {},
            }
        } else {
            let role = if str_eq(m.role.as_str(), "assistant") {
                assistant_role.to_owned()
            } else {
                "user".to_owned()
            };
            let text = message_text(&m.content).to_owned();
            let ghost before = turns@;
            turns.push(Turn { role, text });
            assert(spec_turn_views(turns@) =~= spec_turn_views(before).push(
                (turns@.last().role@, turns@.last().text@),
            ));
        }
        i = i + 1;
    }
    assert(msgs@.take(msgs@.len() as int) == msgs@);
    (system, turns)
}

/// Whether a message is a system message with plain-text content.
pub open spec fn spec_is_system_text(m: ChatMessage) -> bool {
    m.role@ == "system"@ && m.content matches Some(MessageContent::Text(_))
}

/// The system prompt of a conversation is the text of its last system
/// message with plain-text content, and there is none exactly when no
/// system message has plain-text content.
pub proof fn lemma_system_prompt_is_last(msgs: Seq<ChatMessage>)
    ensures
        spec_system_prompt(msgs) is None <==> forall|k: int|
            0 <= k < msgs.len() ==> !spec_is_system_text(#[trigger] msgs[k]),
        spec_system_prompt(msgs) matches Some(t) ==> exists|k: int|
            #![trigger msgs[k]]
            0 <= k < msgs.len() && spec_is_system_text(msgs[k]) && (msgs[k].content matches Some(
                MessageContent::Text(x),
            ) && x@ == t) && forall|k2: int| k < k2 < msgs.len() ==> !spec_is_system_text(#[trigger] msgs[k2]),
    decreases msgs.len(),
{
    if msgs.len() > 0 {
        let pre = msgs.drop_last();
        let n = msgs.len() - 1;
        assert forall|k: int| 0 <= k < n implies pre[k] == msgs[k] by {}
        lemma_system_prompt_is_last(pre);
        let m = msgs.last();
        assert(m == msgs[n]);
        if spec_is_system_text(m) {
        } else {
            assert forall|k: int| 0 <= k < n implies #[trigger] pre[k] == msgs[k] by {}
            if spec_system_prompt(pre) is None {
                assert forall|k: int| 0 <= k < msgs.len() implies !spec_is_system_text(#[trigger] msgs[k]) by {
                    if k < n {
                        assert(pre[k] == msgs[k]);
                    }
                }
            } else {
                let t = spec_system_prompt(pre)->0;
                let k = choose|k: int|
                    #![trigger pre[k]]
                    0 <= k < pre.len() && spec_is_system_text(pre[k]) && (pre[k].content matches Some(
                        MessageContent::Text(x),
                    ) && x@ == t) && forall|k2: int| k < k2 < pre.len() ==> !spec_is_system_text(#[trigger] pre[k2]);
                assert(pre[k] == msgs[k]);
                assert forall|k2: int| k < k2 < msgs.len() implies !spec_is_system_text(#[trigger] msgs[k2]) by {
                    if k2 < n {
                        assert(pre[k2] == msgs[k2]);
                    }
                }
                assert(!spec_is_system_text(pre[k]) ==> false);
            }
        }
    }
}

/// Whether a message is a turn of the conversation (not a system message).
pub open spec fn spec_is_turn() -> spec_fn(ChatMessage) -> bool {
    |m: ChatMessage| m.role@ != "system"@
}

/// The turns of a conversation are its non-system messages, in order, one
/// turn each: an assistant message keeps the assistant role and any other
/// becomes a user turn, and the turn's text is the message's text (plain
/// text as it is; for a list of parts, the first part's text, empty when it
/// has none; empty without content), the text a provider that takes every
/// message as it is receives for the same message.
pub proof fn lemma_turns_follow_messages(msgs: Seq<ChatMessage>, assistant_role: Seq<char>)
    ensures
        ({
            let ns = msgs.filter(spec_is_turn());
            let ts = spec_turns(msgs, assistant_role);
            &&& ts.len() == ns.len()
            &&& forall|i: int|
                #![trigger ts[i]]
                0 <= i < ts.len() ==> {
                    &&& ts[i].0 == (if ns[i].role@ == "assistant"@ {
                        assistant_role
                    } else {
                        "user"@
                    })
                    &&& ts[i].1 == match ns[i].content {
                        Some(MessageContent::Text(t)) => t@,
                        Some(MessageContent::Parts(ps)) => if ps@.len() > 0 && ps@[0] is Some {
                            ps@[0]->0@
                        } else {
                            Seq::<char>::empty()
                        },
                        None => Seq::<char>::empty(),
                    }
                    &&& ts[i].1 == spec_plain_turns(ns)[i].1
                }
        }),
    decreases msgs.len(),
{
    if msgs.len() > 0 {
        let pre = msgs.drop_last();
        lemma_turns_follow_messages(pre, assistant_role);
        let ns = msgs.filter(spec_is_turn());
        let ts = spec_turns(msgs, assistant_role);
        let pns = pre.filter(spec_is_turn());
        let pts = spec_turns(pre, assistant_role);
        let m = msgs.last();
        assert(msgs == pre.push(m));
        pre.lemma_filter_push(m, spec_is_turn());
        assert(ns == (if spec_is_turn()(m) {
            pns.push(m)
        } else {
            pns
        }));
        assert(pts.len() == pns.len());
        assert forall|i: int| #![trigger ts[i]] 0 <= i < ts.len() implies {
            &&& ts[i].0 == (if ns[i].role@ == "assistant"@ {
                assistant_role
            } else {
                "user"@
            })
            &&& ts[i].1 == match ns[i].content {
                Some(MessageContent::Text(t)) => t@,
                Some(MessageContent::Parts(ps)) => if ps@.len() > 0 && ps@[0] is Some {
                    ps@[0]->0@
                } else {
                    Seq::<char>::empty()
                },
                None => Seq::<char>::empty(),
            }
            &&& ts[i].1 == spec_plain_turns(ns)[i].1
        } by {
            if i < pts.len() {
                assert(ts[i] == pts[i]);
                assert(ns[i] == pns[i]);
                assert(pts[i].1 == spec_plain_turns(pns)[i].1);
            } else {
                assert(ns[i] == m);
            }
        }
    }
}

/// The turns of a conversation for a provider that takes every message as
/// it is (Ollama): same roles, the message text.
pub open spec fn spec_plain_turns(msgs: Seq<ChatMessage>) -> Seq<(Seq<char>, Seq<char>)> {
    msgs.map_values(|m: ChatMessage| (m.role@, spec_message_text(m.content)))
}

/// Every message as a turn, with its own role and its text.
pub fn plain_turns(msgs: &Vec<ChatMessage>) -> (ts: Vec<Turn>)
    ensures
        spec_turn_views(ts@) == spec_plain_turns(msgs@),
{
    let mut turns: Vec<Turn> = Vec::new();
    let mut i: usize = 0;
    while i < msgs.len()
        invariant
            i <= msgs@.len(),
            spec_turn_views(turns@) == spec_plain_turns(msgs@.take(i as int)),
        decreases msgs@.len() - i,
    {
        let m = &msgs[i];
        let ghost before = turns@;
        turns.push(Turn { role: m.role.clone(), text: message_text(&m.content).to_owned() });
        assert(spec_turn_views(turns@) =~= spec_turn_views(before).push((m.role@, spec_message_text(m.content))));
        assert(spec_plain_turns(msgs@.take(i + 1)) =~= spec_plain_turns(msgs@.take(i as int)).push(
            (m.role@, spec_message_text(m.content)),
        ));
        i = i + 1;
    }
    assert(msgs@.take(msgs@.len() as int) == msgs@);
    turns
}

// ---------------------------------------------------------------------------
// Finish reasons
// ---------------------------------------------------------------------------

/// An Anthropic stop reason in OpenAI terms: `end_turn` and
/// `stop_sequence` are `stop`, `max_tokens` is `length`, others stay.
pub open spec fn spec_anthropic_finish(r: Seq<char>) -> Seq<char> {
    if r == "end_turn"@ || r == "stop_sequence"@ {
        "stop"@
    } else if r == "max_tokens"@ {
        "length"@
    } else {
        r
    }
}

/// An Anthropic stop reason in OpenAI terms.
pub fn anthropic_finish_reason(r: &str) -> (s: String)
    ensures
        s@ == spec_anthropic_finish(r@),
{
    if str_eq(r, "end_turn") || str_eq(r, "stop_sequence") {
        "stop".to_owned()
    } else if str_eq(r, "max_tokens") {
        "length".to_owned()
    } else {
        r.to_owned()
    }
}

/// What `str::to_lowercase` returns for a string: its lowercase
/// equivalent in the sense of Unicode's Lowercase property.
pub uninterp spec fn spec_lowercase(s: Seq<char>) -> Seq<char>;

/// `str::to_lowercase`. Its result depends on its argument alone.
#[verifier::external_body]
fn to_lowercase(s: &str) -> (r: String)
    ensures
        r@ == spec_lowercase(s@),
{
    s.to_lowercase()
}

/// A Gemini finish reason in OpenAI terms: `STOP` is `stop`, `MAX_TOKENS`
/// is `length`, others in lower case.
pub open spec fn spec_gemini_finish(r: Seq<char>) -> Seq<char> {
    if r == "STOP"@ {
        "stop"@
    } else if r == "MAX_TOKENS"@ {
        "length"@
    } else {
        spec_lowercase(r)
    }
}

/// A Gemini finish reason in OpenAI terms.
pub fn gemini_finish_reason(r: &str) -> (s: String)
    ensures
        s@ == spec_gemini_finish(r@),
{
    if str_eq(r, "STOP") {
        "stop".to_owned()
    } else if str_eq(r, "MAX_TOKENS") {
        "length".to_owned()
    } else {
        to_lowercase(r)
    }
}

// ---------------------------------------------------------------------------
// Response text and usage
// ---------------------------------------------------------------------------

/// The concatenation of the texts present among `parts`.
pub open spec fn spec_join_parts(parts: Seq<Option<String>>) -> Seq<char>
    decreases parts.len(),
{
    if parts.len() == 0 {
        Seq::empty()
    } else {
        spec_join_parts(parts.drop_last()) + match parts.last() {
            Some(t) => t@,
            None => Seq::empty(),
        }
    }
}

/// The concatenation of the texts present among `parts`, in order.
pub fn join_parts(parts: &Vec<Option<String>>) -> (s: String)
    ensures
        s@ == spec_join_parts(parts@),
{
    let mut out = String::new();
    let mut i: usize = 0;
    while i < parts.len()
        invariant
            i <= parts@.len(),
            out@ == spec_join_parts(parts@.take(i as int)),
        decreases parts@.len() - i,
    {
        assert(parts@.take(i + 1).drop_last() == parts@.take(i as int));
        match &parts[i] {
            Some(t) => out.append(t.as_str()),
            None => {
                assert(out@ + Seq::<char>::empty() =~= out@);
            },
        }
        i = i + 1;
    }
    assert(parts@.take(parts@.len() as int) == parts@);
    out
}

/// The texts of the content blocks (type, text) of type `text`, in order.
pub open spec fn spec_text_blocks(blocks: Seq<(String, Option<String>)>) -> Seq<Option<String>>
    decreases blocks.len(),
{
    if blocks.len() == 0 {
        Seq::empty()
    } else {
        let b = blocks.last();
        let rest = spec_text_blocks(blocks.drop_last());
        if b.0@ == "text"@ {
            rest.push(b.1)
        } else {
            rest
        }
    }
}

/// The text of an Anthropic response: the texts of its `text` blocks,
/// concatenated.
pub fn join_text_blocks(blocks: &Vec<(String, Option<String>)>) -> (s: String)
    ensures
        s@ == spec_join_parts(spec_text_blocks(blocks@)),
{
    let mut out = String::new();
    let mut i: usize = 0;
    while i < blocks.len()
        invariant
            i <= blocks@.len(),
            out@ == spec_join_parts(spec_text_blocks(blocks@.take(i as int))),
        decreases blocks@.len() - i,
    {
        assert(blocks@.take(i + 1).drop_last() == blocks@.take(i as int));
        let b = &blocks[i];
        if str_eq(b.0.as_str(), "text") {
            let ghost prev = spec_text_blocks(blocks@.take(i as int));
            assert(spec_text_blocks(blocks@.take(i + 1)).drop_last() == prev);
            match &b.1 {
                Some(t) => out.append(t.as_str()),
                None => {
                    assert(out@ + Seq::<char>::empty() =~= out@);
                },
            }
        }
        i = i + 1;
    }
    assert(blocks@.take(blocks@.len() as int) == blocks@);
    out
}

/// Joining texts takes each present text once, in order: joining two runs
/// of parts one after the other gives the two joins one after the other, a
/// single text joins to itself and a missing one to nothing.
pub proof fn lemma_join_parts_concatenates(a: Seq<Option<String>>, b: Seq<Option<String>>, t: String)
    ensures
        spec_join_parts(a + b) == spec_join_parts(a) + spec_join_parts(b),
        spec_join_parts(seq![Some(t)]) == t@,
        spec_join_parts(seq![None::<String>]) == Seq::<char>::empty(),
    decreases b.len(),
{
    assert(seq![Some(t)].drop_last() =~= Seq::<Option<String>>::empty());
    assert(seq![None::<String>].drop_last() =~= Seq::<Option<String>>::empty());
    assert(Seq::<char>::empty() + t@ =~= t@);
    assert(spec_join_parts(Seq::<Option<String>>::empty()) == Seq::<char>::empty());
    assert(seq![Some(t)].last() == Some(t));
    assert(spec_join_parts(seq![Some(t)]) == spec_join_parts(Seq::<Option<String>>::empty()) + t@);
    assert(spec_join_parts(seq![None::<String>]) =~= spec_join_parts(Seq::<Option<String>>::empty())
        + Seq::<char>::empty());
    if b.len() == 0 {
        assert(a + b =~= a);
        assert(spec_join_parts(a) + Seq::<char>::empty() =~= spec_join_parts(a));
    } else {
        lemma_join_parts_concatenates(a, b.drop_last(), t);
        assert((a + b).drop_last() =~= a + b.drop_last());
        assert((a + b).last() == b.last());
        let tail = match b.last() {
            Some(x) => x@,
            None => Seq::<char>::empty(),
        };
        assert(spec_join_parts(a) + spec_join_parts(b.drop_last()) + tail =~= spec_join_parts(a) + (
        spec_join_parts(b.drop_last()) + tail));
    }
}

/// The text blocks of an Anthropic response are its blocks of type `text`,
/// in order.
pub proof fn lemma_text_blocks_are_filtered(blocks: Seq<(String, Option<String>)>)
    ensures
        spec_text_blocks(blocks) == blocks.filter(|b: (String, Option<String>)| b.0@ == "text"@).map_values(
            |b: (String, Option<String>)| b.1,
        ),
    decreases blocks.len(),
{
    let p = |b: (String, Option<String>)| b.0@ == "text"@;
    let g = |b: (String, Option<String>)| b.1;
    if blocks.len() > 0 {
        let pre = blocks.drop_last();
        lemma_text_blocks_are_filtered(pre);
        assert(blocks == pre.push(blocks.last()));
        pre.lemma_filter_push(blocks.last(), p);
        assert(pre.filter(p).push(blocks.last()).map_values(g) =~= pre.filter(p).map_values(g).push(
            blocks.last().1,
        ));
    } else {
        assert(blocks.filter(p).map_values(g) =~= Seq::<Option<String>>::empty());
    }
}

/// Usage from a provider's prompt and completion counts; the total
/// saturates at `u32::MAX`.
pub fn usage_from_counts(prompt_tokens: u32, completion_tokens: u32) -> (u: Usage)
    ensures
        u.prompt_tokens == prompt_tokens,
        u.completion_tokens == completion_tokens,
        u.total_tokens == (if prompt_tokens + completion_tokens > u32::MAX {
            u32::MAX as int
        } else {
            prompt_tokens + completion_tokens
        }),
{
    let total = if prompt_tokens > u32::MAX - completion_tokens {
        u32::MAX
    } else {
        prompt_tokens + completion_tokens
    };
    Usage { prompt_tokens, completion_tokens, total_tokens: total }
}

} // verus!
