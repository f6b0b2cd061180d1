//! Token-count estimates for usage reporting.
use vstd::prelude::*;

use crate::claude::{ContentBlock, CreateMessageParams, CreateMessageResponse, MessageContent};
use crate::json::{Json, JsonValue};
use crate::text::{push_str, text_of};

verus! {

broadcast use vstd::std_specs::vec::group_vec_axioms;

/// How many tokens the o200k_base encoding makes of a text.
pub uninterp spec fn bpe_count(s: Seq<char>) -> u32;

/// Counts the tokens of a text with the o200k_base encoding, special tokens
/// allowed.
///
/// Relies on `tiktoken_rs::o200k_base_singleton` and `CoreBPE::encode`: the
/// count depends on the text alone (an encoding error counts as no tokens).
#[verifier::external_body]
pub(crate) fn count_bpe_tokens(s: &str) -> (r: u32)
    ensures
        r == bpe_count(s@),
{
    let bpe = tiktoken_rs::o200k_base_singleton();
    match bpe.encode(s, &bpe.special_tokens()) {
        Ok((tokens, _)) => tokens.len() as u32,
        Err(_) => 0,
    }
}

/// The text of the text blocks, concatenated.
pub open spec fn block_texts(bs: Seq<ContentBlock>, with_thinking: bool) -> Seq<char>
    decreases bs.len(),
{
    if bs.len() == 0 {
        seq![]
    } else {
        block_texts(bs.drop_last(), with_thinking) + match bs.last() {
            ContentBlock::Text { text, .. } => text@,
            ContentBlock::Thinking { thinking, .. } => if with_thinking {
                thinking@
            } else {
                seq![]
            },
            _ => seq![],
        }
    }
}

/// The text of a message's content.
pub open spec fn content_text(c: MessageContent, with_thinking: bool) -> Seq<char> {
    match c {
        MessageContent::Text { content } => content@,
        MessageContent::Blocks { content } => block_texts(content@, with_thinking),
    }
}

/// The texts of messages joined by newlines.
pub open spec fn messages_text(ms: Seq<crate::claude::Message>, with_thinking: bool) -> Seq<char>
    decreases ms.len(),
{
    if ms.len() == 0 {
        seq![]
    } else if ms.len() == 1 {
        content_text(ms[0].content, with_thinking)
    } else {
        messages_text(ms.drop_last(), with_thinking) + "\n"@ + content_text(ms.last().content, with_thinking)
    }
}

/// The text of a system prompt: a string as it is, the `text` strings of a
/// list concatenated, nothing otherwise.
pub open spec fn system_text(s: Option<JsonValue>) -> Seq<char> {
    match s {
        Some(v) => match v@ {
            Json::Str(t) => t,
            Json::Array(items) => item_texts(items),
            _ => seq![],
        },
        None => seq![],
    }
}

/// The `text` strings of items, concatenated.
pub open spec fn item_texts(items: Seq<Json>) -> Seq<char>
    decreases items.len(),
{
    if items.len() == 0 {
        seq![]
    } else {
        item_texts(items.drop_last()) + match items.last().get_str("text"@) {
            Some(t) => t,
            None => seq![],
        }
    }
}

fn push_block_texts(out: &mut Vec<char>, bs: &Vec<ContentBlock>, with_thinking: bool)
    ensures
        final(out)@ == old(out)@ + block_texts(bs@, with_thinking),
{
    let ghost start = out@;
    let mut i: usize = 0;
    while i < bs.len()
        invariant
            i <= bs.len(),
            out@ == start + block_texts(bs@.take(i as int), with_thinking),
        decreases bs.len() - i,
    {
        assert(bs@.take(i + 1).drop_last() =~= bs@.take(i as int));
        match &bs[i] {
            ContentBlock::Text { text, .. } => push_str(out, text.as_str()),
            ContentBlock::Thinking { thinking, .. } => if with_thinking {
                push_str(out, thinking.as_str())
            },
            _ => {},
        }
        i += 1;
        assert(out@ =~= start + block_texts(bs@.take(i as int), with_thinking));
    }
    assert(bs@.take(bs.len() as int) =~= bs@);
}

fn messages_chars(ms: &Vec<crate::claude::Message>, with_thinking: bool) -> (r: Vec<char>)
    ensures
        r@ == messages_text(ms@, with_thinking),
{
    let mut out: Vec<char> = Vec::new();
    let mut i: usize = 0;
    while i < ms.len()
        invariant
            i <= ms.len(),
            out@ == messages_text(ms@.take(i as int), with_thinking),
        decreases ms.len() - i,
    {
        assert(ms@.take(i + 1).drop_last() =~= ms@.take(i as int));
        let ghost before = out@;
        if i > 0 {
            push_str(&mut out, "\n");
        }
        let ghost mid = out@;
        match &ms[i].content {
            MessageContent::Text { content } => push_str(&mut out, content.as_str()),
            MessageContent::Blocks { content } => push_block_texts(&mut out, content, with_thinking),
        }
        i += 1;
        assert(out@ =~= messages_text(ms@.take(i as int), with_thinking));
    }
    assert(ms@.take(ms.len() as int) =~= ms@);
    out
}

/// The estimated input tokens of a request: those of the system prompt plus
/// those of the message texts joined by newlines, saturating.
pub open spec fn input_estimate(p: CreateMessageParams) -> u32 {
    let n = bpe_count(system_text(p.system)) as int + bpe_count(messages_text(p.messages@, false)) as int;
    if n > u32::MAX {
        u32::MAX
    } else {
        n as u32
    }
}

impl CreateMessageParams {
    /// The estimated input tokens: see [`input_estimate`].
    pub fn count_tokens(&self) -> (r: u32)
        ensures
            r == input_estimate(*self),
    {
        let mut sys: Vec<char> = Vec::new();
        match &self.system {
            Some(v) => match v {
                JsonValue::Str(s) => push_str(&mut sys, s.as_str()),
                JsonValue::Array(items) => {
                    proof {
                        crate::json::lemma_array_view(*items);
                    }
                    let ghost all = crate::json::views(items@);
                    let mut i: usize = 0;
                    while i < items.len()
                        invariant
                            all == crate::json::views(items@),
                            i <= items.len(),
                            sys@ == item_texts(all.take(i as int)),
                        decreases items.len() - i,
                    {
                        assert(all.take(i + 1).drop_last() =~= all.take(i as int));
                        assert(all.take(i + 1).last() == items@[i as int]@);
                        match items[i].get_str("text") {
                            Some(t) => push_str(&mut sys, t),
                            None => {},
                        }
                        i += 1;
                        assert(sys@ =~= item_texts(all.take(i as int)));
                    }
                    assert(all.take(items.len() as int) =~= all);
                },
                _ => {},
            },
            None => {},
        }
        assert(sys@ =~= system_text(self.system));
        let a = count_bpe_tokens(text_of(&sys).as_str());
        let b = count_bpe_tokens(text_of(&messages_chars(&self.messages, false)).as_str());
        a.saturating_add(b)
    }
}

impl crate::oai::CreateMessageParams {
    /// The estimated input tokens of the message texts, thinking included,
    /// joined by newlines.
    pub fn count_tokens(&self) -> (r: u32)
        ensures
            r == bpe_count(messages_text(self.messages@, true)),
    {
        count_bpe_tokens(text_of(&messages_chars(&self.messages, true)).as_str())
    }
}

/// The texts of a response's text, image and thinking blocks, joined by newlines.
pub open spec fn response_texts(bs: Seq<ContentBlock>) -> Seq<char>
    decreases bs.len(),
{
    if bs.len() == 0 {
        seq![]
    } else {
        let t = match bs.last() {
            ContentBlock::Text { text, .. } => text@,
            ContentBlock::Image { source, .. } => source.data@,
            ContentBlock::Thinking { thinking, .. } => thinking@,
            _ => seq![],
        };
        if bs.len() == 1 {
            t
        } else {
            response_texts(bs.drop_last()) + "\n"@ + t
        }
    }
}

impl CreateMessageResponse {
    /// The estimated output tokens.
    pub fn count_tokens(&self) -> (r: u32)
        ensures
            r == bpe_count(response_texts(self.content@)),
    {
        let mut out: Vec<char> = Vec::new();
        let mut i: usize = 0;
        while i < self.content.len()
            invariant
                i <= self.content.len(),
                out@ == response_texts(self.content@.take(i as int)),
            decreases self.content.len() - i,
        {
            assert(self.content@.take(i + 1).drop_last() =~= self.content@.take(i as int));
            if i > 0 {
                push_str(&mut out, "\n");
            }
            match &self.content[i] {
                ContentBlock::Text { text, .. } => push_str(&mut out, text.as_str()),
                ContentBlock::Image { source, .. } => push_str(&mut out, source.data.as_str()),
                ContentBlock::Thinking { thinking, .. } => push_str(&mut out, thinking.as_str()),
                _ => {},
            }
            i += 1;
            assert(out@ =~= response_texts(self.content@.take(i as int)));
        }
        assert(self.content@.take(self.content.len() as int) =~= self.content@);
        count_bpe_tokens(text_of(&out).as_str())
    }
}

} // verus!
