//! Rules on thinking blocks and signatures over a conversation.
use vstd::prelude::*;

use crate::claude::{ContentBlock, Message, MessageContent, Role};
use crate::signature_store::byte_len;

verus! {

broadcast use vstd::std_specs::vec::group_vec_axioms;

/// The shortest signature that counts as valid, in bytes.
pub const MIN_SIGNATURE_LENGTH: usize = 10;

/// Whether a signature is present and long enough.
pub open spec fn valid_signature(sig: Option<String>) -> bool {
    sig matches Some(s) && byte_len(s@) >= MIN_SIGNATURE_LENGTH
}

/// Whether a block is a thinking block with a valid signature.
pub open spec fn is_valid_thinking(b: ContentBlock) -> bool {
    b matches ContentBlock::Thinking { signature, .. } && valid_signature(signature)
}

/// Whether a block is kept when invalid thinking is stripped.
pub open spec fn kept_block(b: ContentBlock) -> bool {
    !(b is Thinking) || is_valid_thinking(b)
}

/// The blocks of a message (none for a text message).
pub open spec fn blocks_of(m: Message) -> Seq<ContentBlock> {
    match m.content {
        MessageContent::Blocks { content } => content@,
        MessageContent::Text { .. } => seq![],
    }
}

/// Whether a message holds a thinking block with a valid signature.
pub open spec fn has_valid_thinking(m: Message) -> bool {
    exists|i: int| 0 <= i < blocks_of(m).len() && is_valid_thinking(#[trigger] blocks_of(m)[i])
}

/// Whether a message holds a tool-use block.
pub open spec fn has_tool_use(m: Message) -> bool {
    exists|i: int| 0 <= i < blocks_of(m).len() && (#[trigger] blocks_of(m)[i]) is ToolUse
}

/// Whether a message holds a tool-result block.
pub open spec fn has_tool_result(m: Message) -> bool {
    exists|i: int| 0 <= i < blocks_of(m).len() && (#[trigger] blocks_of(m)[i]) is ToolResult
}

/// The position of the last assistant message.
pub open spec fn last_assistant(msgs: Seq<Message>) -> Option<int>
    decreases msgs.len(),
{
    if msgs.len() == 0 {
        None
    } else if msgs.last().role == Role::Assistant {
        Some(msgs.len() - 1)
    } else {
        last_assistant(msgs.drop_last())
    }
}

/// The number of tool-result blocks among blocks.
pub open spec fn result_count(bs: Seq<ContentBlock>) -> nat
    decreases bs.len(),
{
    if bs.len() == 0 {
        0
    } else {
        result_count(bs.drop_last()) + if bs.last() is ToolResult {
            1nat
        } else {
            0nat
        }
    }
}

/// The number of tool-result blocks in the user messages among messages.
pub open spec fn user_results(msgs: Seq<Message>) -> nat
    decreases msgs.len(),
{
    if msgs.len() == 0 {
        0
    } else {
        user_results(msgs.drop_last()) + if msgs.last().role == Role::User {
            result_count(blocks_of(msgs.last()))
        } else {
            0nat
        }
    }
}

/// The state of a conversation as thinking mode sees it.
#[derive(Debug, Clone, Copy, PartialEq, Eq, Structural)]
pub struct ConversationState {
    /// The last assistant turn used tools and results came back.
    pub in_tool_loop: bool,
    /// The last assistant turn used tools and no result came back.
    pub interrupted_tool: bool,
    /// The last assistant turn holds valid thinking.
    pub turn_has_thinking: bool,
    /// The tool results after the last assistant turn (saturating).
    pub tool_result_count: usize,
    /// The last assistant turn used tools.
    pub last_assistant_has_tools: bool,
}

/// The number of tool results after the last assistant turn.
pub open spec fn results_after(msgs: Seq<Message>) -> nat {
    match last_assistant(msgs) {
        Some(a) => user_results(msgs.skip(a + 1)),
        None => 0,
    }
}

/// What the analysis of a conversation finds.
pub open spec fn conversation_state(msgs: Seq<Message>) -> ConversationState {
    match last_assistant(msgs) {
        None => ConversationState {
            in_tool_loop: false,
            interrupted_tool: false,
            turn_has_thinking: false,
            tool_result_count: 0,
            last_assistant_has_tools: false,
        },
        Some(a) => {
            let tools = has_tool_use(msgs[a]);
            let count = results_after(msgs);
            ConversationState {
                in_tool_loop: tools && count > 0,
                interrupted_tool: tools && count == 0,
                turn_has_thinking: has_valid_thinking(msgs[a]),
                tool_result_count: if count > usize::MAX {
                    usize::MAX
                } else {
                    count as usize
                },
                last_assistant_has_tools: tools,
            }
        },
    }
}

fn block_has_valid_signature(b: &ContentBlock) -> (r: bool)
    ensures
        r == is_valid_thinking(*b),
{
    match b {
        ContentBlock::Thinking { signature, .. } => match signature {
            Some(s) => s.as_str().len() >= MIN_SIGNATURE_LENGTH,
            None => false,
        },
        _ => false,
    }
}

/// Whether a message holds a thinking block with a valid signature.
pub fn message_has_valid_thinking(message: &Message) -> (r: bool)
    ensures
        r == has_valid_thinking(*message),
{
    match &message.content {
        MessageContent::Blocks { content } => {
            let mut i: usize = 0;
            while i < content.len()
                invariant
                    blocks_of(*message) == content@,
                    i <= content.len(),
                    forall|j: int| 0 <= j < i ==> !is_valid_thinking(#[trigger] content@[j]),
                decreases content.len() - i,
            {
                if block_has_valid_signature(&content[i]) {
                    return true;
                }
                i += 1;
            }
            false
        },
        MessageContent::Text { .. } => false,
    }
}

/// Whether a message holds a tool-use block.
pub fn message_has_tool_use(message: &Message) -> (r: bool)
    ensures
        r == has_tool_use(*message),
{
    match &message.content {
        MessageContent::Blocks { content } => {
            let mut i: usize = 0;
            while i < content.len()
                invariant
                    blocks_of(*message) == content@,
                    i <= content.len(),
                    forall|j: int| 0 <= j < i ==> !((#[trigger] content@[j]) is ToolUse),
                decreases content.len() - i,
            {
                if matches!(content[i], ContentBlock::ToolUse { .. }) {
                    return true;
                }
                i += 1;
            }
            false
        },
        MessageContent::Text { .. } => false,
    }
}

/// Whether a message holds a tool-result block.
pub fn message_has_tool_result(message: &Message) -> (r: bool)
    ensures
        r == has_tool_result(*message),
{
    match &message.content {
        MessageContent::Blocks { content } => {
            let mut i: usize = 0;
            while i < content.len()
                invariant
                    blocks_of(*message) == content@,
                    i <= content.len(),
                    forall|j: int| 0 <= j < i ==> !((#[trigger] content@[j]) is ToolResult),
                decreases content.len() - i,
            {
                if matches!(content[i], ContentBlock::ToolResult { .. }) {
                    return true;
                }
                i += 1;
            }
            false
        },
        MessageContent::Text { .. } => false,
    }
}

fn find_last_assistant(messages: &[Message]) -> (r: Option<usize>)
    ensures
        r matches Some(a) ==> last_assistant(messages@) == Some(a as int) && a < messages.len(),
        r is None ==> last_assistant(messages@) is None,
{
    let mut i: usize = messages.len();
    assert(messages@.take(i as int) =~= messages@);
    while i > 0
        invariant
            i <= messages.len(),
            last_assistant(messages@) == last_assistant(messages@.take(i as int)),
        decreases i,
    {
        assert(messages@.take(i as int).drop_last() =~= messages@.take(i - 1));
        if messages[i - 1].role == Role::Assistant {
            return Some(i - 1);
        }
        i -= 1;
    }
    None
}

fn count_results(blocks: &Vec<ContentBlock>) -> (r: usize)
    ensures
        r as nat == if result_count(blocks@) > usize::MAX { usize::MAX as nat } else { result_count(blocks@) },
{
    let mut n: usize = 0;
    let mut i: usize = 0;
    while i < blocks.len()
        invariant
            i <= blocks.len(),
            n as nat == if result_count(blocks@.take(i as int)) > usize::MAX {
                usize::MAX as nat
            } else {
                result_count(blocks@.take(i as int))
            },
        decreases blocks.len() - i,
    {
        assert(blocks@.take(i + 1).drop_last() =~= blocks@.take(i as int));
        if matches!(blocks[i], ContentBlock::ToolResult { .. }) {
            n = n.saturating_add(1);
        }
        i += 1;
    }
    assert(blocks@.take(blocks.len() as int) =~= blocks@);
    n
}

/// Analyses a conversation for thinking mode: finds the last assistant
/// message, whether it used tools or holds valid thinking, and how many tool
/// results followed it.
pub fn analyze_conversation_state(messages: &[Message]) -> (r: ConversationState)
    ensures
        r == conversation_state(messages@),
{
    let a = match find_last_assistant(messages) {
        None => {
            return ConversationState {
                in_tool_loop: false,
                interrupted_tool: false,
                turn_has_thinking: false,
                tool_result_count: 0,
                last_assistant_has_tools: false,
            };
        },
        Some(a) => a,
    };
    let tools = message_has_tool_use(&messages[a]);
    let thinking = message_has_valid_thinking(&messages[a]);
    let ghost after = messages@.skip(a + 1);
    let mut count: usize = 0;
    let mut i: usize = a + 1;
    while i < messages.len()
        invariant
            a < messages.len(),
            a + 1 <= i <= messages.len(),
            after == messages@.skip(a + 1),
            count as nat == if user_results(after.take(i - a - 1)) > usize::MAX {
                usize::MAX as nat
            } else {
                user_results(after.take(i - a - 1))
            },
        decreases messages.len() - i,
    {
        assert(after.take(i - a).drop_last() =~= after.take(i - a - 1));
        assert(after.take(i - a).last() == messages@[i as int]);
        if messages[i].role == Role::User {
            match &messages[i].content {
                MessageContent::Blocks { content } => {
                    let c = count_results(content);
                    count = count.saturating_add(c);
                },
                MessageContent::Text { .. } => {},
            }
        }
        i += 1;
    }
    assert(after.take(messages.len() - a - 1) =~= after);
    ConversationState {
        in_tool_loop: tools && count > 0,
        interrupted_tool: tools && count == 0,
        turn_has_thinking: thinking,
        tool_result_count: count,
        last_assistant_has_tools: tools,
    }
}

/// Whether thinking must be turned off because the last assistant message used
/// tools without valid thinking.
pub open spec fn disable_for_history(msgs: Seq<Message>) -> bool {
    match last_assistant(msgs) {
        Some(a) => has_tool_use(msgs[a]) && !has_valid_thinking(msgs[a]),
        None => false,
    }
}

/// Whether the last assistant message used tools without valid thinking, so
/// that thinking cannot be turned on now.
pub fn should_disable_thinking_due_to_history(messages: &[Message]) -> (r: bool)
    ensures
        r == disable_for_history(messages@),
{
    match find_last_assistant(messages) {
        Some(a) => message_has_tool_use(&messages[a]) && !message_has_valid_thinking(&messages[a]),
        None => false,
    }
}

/// Whether some assistant message holds valid thinking.
pub open spec fn history_has_signature(msgs: Seq<Message>) -> bool {
    exists|i: int|
        0 <= i < msgs.len() && (#[trigger] msgs[i]).role == Role::Assistant && has_valid_thinking(
            msgs[i],
        )
}

/// Whether a valid signature is at hand: the global one, or one in an
/// assistant thinking block.
pub fn has_valid_signature_for_function_calls(
    messages: &[Message],
    global_sig: &Option<String>,
) -> (r: bool)
    ensures
        r == (valid_signature(*global_sig) || history_has_signature(messages@)),
{
    match global_sig {
        Some(sig) => {
            if sig.as_str().len() >= MIN_SIGNATURE_LENGTH {
                return true;
            }
        },
        None => {},
    }
    let mut i: usize = 0;
    while i < messages.len()
        invariant
            i <= messages.len(),
            forall|j: int|
                0 <= j < i ==> !((#[trigger] messages@[j]).role == Role::Assistant && has_valid_thinking(
                    messages@[j],
                )),
        decreases messages.len() - i,
    {
        if messages[i].role == Role::Assistant && message_has_valid_thinking(&messages[i]) {
            return true;
        }
        i += 1;
    }
    false
}

/// Whether the conversation is in, or broke off, a tool loop without valid
/// thinking in the last assistant turn.
pub open spec fn recovery_needed(msgs: Seq<Message>) -> bool {
    let s = conversation_state(msgs);
    (s.in_tool_loop || s.interrupted_tool) && !s.turn_has_thinking
}

/// Whether thinking needs recovering: see [`recovery_needed`].
pub fn needs_thinking_recovery(messages: &[Message]) -> (r: bool)
    ensures
        r == recovery_needed(messages@),
{
    let state = analyze_conversation_state(messages);
    if !state.in_tool_loop && !state.interrupted_tool {
        return false;
    }
    !state.turn_has_thinking
}

/// The blocks that are kept when invalid thinking is stripped, in order.
pub open spec fn kept_blocks(bs: Seq<ContentBlock>) -> Seq<ContentBlock>
    decreases bs.len(),
{
    if bs.len() == 0 {
        bs
    } else if kept_block(bs.last()) {
        kept_blocks(bs.drop_last()).push(bs.last())
    } else {
        kept_blocks(bs.drop_last())
    }
}

/// Whether `new` is `old` with invalid thinking stripped: an assistant
/// message keeps the blocks of [`kept_blocks`]; any other message stays.
pub open spec fn stripped_of(new: Message, old: Message) -> bool {
    if old.role == Role::Assistant && old.content is Blocks {
        new.role == old.role && new.content is Blocks && blocks_of(new) == kept_blocks(blocks_of(old))
    } else {
        new == old
    }
}

proof fn lemma_kept_blocks(bs: Seq<ContentBlock>)
    ensures
        forall|i: int| 0 <= i < kept_blocks(bs).len() ==> kept_block(#[trigger] kept_blocks(bs)[i]),
    decreases bs.len(),
{
    if bs.len() > 0 {
        let rest = bs.drop_last();
        lemma_kept_blocks(rest);
        if kept_block(bs.last()) {
            let k = kept_blocks(bs);
            assert forall|i: int| 0 <= i < k.len() implies kept_block(#[trigger] k[i]) by {
                if i < k.len() - 1 {
                    assert(k[i] == kept_blocks(rest)[i]);
                }
            }
        }
    }
}

fn keep_valid_blocks(blocks: Vec<ContentBlock>) -> (r: Vec<ContentBlock>)
    ensures
        r@ == kept_blocks(blocks@),
{
    let ghost all = blocks@;
    let mut rest = blocks;
    let mut out: Vec<ContentBlock> = Vec::new();
    let n = rest.len();
    let mut i: usize = 0;
    while rest.len() > 0
        invariant
            all.len() == n,
            i <= all.len(),
            rest@ == all.skip(i as int),
            out@ == kept_blocks(all.take(i as int)),
        decreases rest.len(),
    {
        assert(all.take(i + 1).drop_last() =~= all.take(i as int));
        assert(all.take(i + 1).last() == all[i as int]);
        let b = rest.remove(0);
        assert(rest@ =~= all.skip(i + 1));
        let keep = match &b {
            ContentBlock::Thinking { .. } => block_has_valid_signature(&b),
            _ => true,
        };
        if keep {
            out.push(b);
        }
        i += 1;
    }
    assert(all.take(i as int) =~= all);
    out
}

/// Removes from each assistant message every thinking block whose signature
/// is missing or shorter than [`MIN_SIGNATURE_LENGTH`]; every other block, and
/// every other message, stays.
pub fn strip_invalid_thinking_blocks(messages: &mut Vec<Message>)
    ensures
        final(messages).len() == old(messages).len(),
        forall|i: int|
            0 <= i < final(messages).len() ==> stripped_of(
                #[trigger] final(messages)@[i],
                old(messages)@[i],
            ),
{
    let ghost before = messages@;
    let mut rest: Vec<Message> = Vec::new();
    std::mem::swap(messages, &mut rest);
    let n = rest.len();
    let mut i: usize = 0;
    while rest.len() > 0
        invariant
            before.len() == n,
            i <= before.len(),
            rest@ == before.skip(i as int),
            messages.len() == i,
            forall|j: int| 0 <= j < i ==> stripped_of(#[trigger] messages@[j], before[j]),
        decreases rest.len(),
    {
        let m = rest.remove(0);
        assert(rest@ =~= before.skip(i + 1));
        assert(m == before[i as int]);
        let role = m.role;
        let new_m = match m.content {
            MessageContent::Blocks { content } => if role == Role::Assistant {
                Message { role, content: MessageContent::Blocks { content: keep_valid_blocks(content) } }
            } else {
                Message { role, content: MessageContent::Blocks { content } }
            },
            MessageContent::Text { content } => Message { role, content: MessageContent::Text { content } },
        };
        messages.push(new_m);
        i += 1;
    }
}

/// After stripping, every thinking block left in an assistant message has a
/// signature of at least [`MIN_SIGNATURE_LENGTH`] bytes.
pub proof fn lemma_stripped_thinking_is_valid(new: Message, old: Message, k: int)
    requires
        stripped_of(new, old),
        new.role == Role::Assistant,
        0 <= k < blocks_of(new).len(),
        blocks_of(new)[k] is Thinking,
    ensures
        is_valid_thinking(blocks_of(new)[k]),
{
    lemma_kept_blocks(blocks_of(old));
    if !(old.role == Role::Assistant && old.content is Blocks) {
        assert(new == old);
    }
}

/// A valid signature found in history, with the position of its message.
pub struct SignatureAt {
    pub sig: Seq<char>,
    pub index: int,
}

/// The valid signatures among blocks of message `index`, in order.
pub open spec fn block_signatures(bs: Seq<ContentBlock>, index: int) -> Seq<SignatureAt>
    decreases bs.len(),
{
    if bs.len() == 0 {
        seq![]
    } else {
        let rest = block_signatures(bs.drop_last(), index);
        match bs.last() {
            ContentBlock::Thinking { signature: Some(s), .. } => if byte_len(s@) >= MIN_SIGNATURE_LENGTH {
                rest.push(SignatureAt { sig: s@, index })
            } else {
                rest
            },
            _ => rest,
        }
    }
}

/// The valid signatures of the assistant messages among the first `n`
/// messages, in order.
pub open spec fn history_signatures(msgs: Seq<Message>, n: int) -> Seq<SignatureAt>
    decreases n,
{
    if n <= 0 || n > msgs.len() {
        seq![]
    } else {
        let rest = history_signatures(msgs, n - 1);
        if msgs[n - 1].role == Role::Assistant {
            rest + block_signatures(blocks_of(msgs[n - 1]), n - 1)
        } else {
            rest
        }
    }
}

/// Whether a list of `(signature, position)` pairs holds `expected`.
pub open spec fn signature_pairs_are(r: Seq<(String, usize)>, expected: Seq<SignatureAt>) -> bool {
    &&& r.len() == expected.len()
    &&& forall|i: int|
        0 <= i < r.len() ==> (#[trigger] r[i]).0@ == expected[i].sig && r[i].1 as int == expected[i].index
}

/// Every valid signature of an assistant thinking block, with the position of
/// its message, in the order met.
pub fn extract_signatures(messages: &[Message]) -> (r: Vec<(String, usize)>)
    ensures
        signature_pairs_are(r@, history_signatures(messages@, messages@.len() as int)),
{
    let mut out: Vec<(String, usize)> = Vec::new();
    let mut idx: usize = 0;
    while idx < messages.len()
        invariant
            idx <= messages.len(),
            signature_pairs_are(out@, history_signatures(messages@, idx as int)),
        decreases messages.len() - idx,
    {
        if messages[idx].role == Role::Assistant {
            match &messages[idx].content {
                MessageContent::Blocks { content } => {
                    let ghost start = out@;
                    let ghost base = history_signatures(messages@, idx as int);
                    let mut k: usize = 0;
                    while k < content.len()
                        invariant
                            k <= content.len(),
                            idx < messages.len(),
                            blocks_of(messages@[idx as int]) == content@,
                            signature_pairs_are(out@, base + block_signatures(content@.take(k as int), idx as int)),
                        decreases content.len() - k,
                    {
                        assert(content@.take(k + 1).drop_last() =~= content@.take(k as int));
                        assert(content@.take(k + 1).last() == content@[k as int]);
                        let ghost prev = block_signatures(content@.take(k as int), idx as int);
                        match &content[k] {
                            ContentBlock::Thinking { signature: Some(sig), .. } => {
                                if sig.as_str().len() >= MIN_SIGNATURE_LENGTH {
                                    out.push((sig.clone(), idx));
                                    assert(base + prev.push(SignatureAt { sig: sig@, index: idx as int })
                                        =~= (base + prev).push(SignatureAt { sig: sig@, index: idx as int }));
                                }
                            },
                            _ => {},
                        }
                        k += 1;
                    }
                    assert(content@.take(content.len() as int) =~= content@);
                },
                MessageContent::Text { .. } => {
                    assert(block_signatures(seq![], idx as int) =~= seq![]);
                    assert(history_signatures(messages@, idx as int) + seq![] =~= history_signatures(messages@, idx as int));
                },
            }
        }
        idx += 1;
    }
    out
}

} // verus!
