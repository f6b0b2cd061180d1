//! Flattening a conversation into one prompt for the web upstream.
use vstd::prelude::*;

use crate::claude::{ContentBlock, ImageSource, Message, MessageContent, Role};
use crate::image_converter::{data_uri_parts, extract_image_from_data_uri, infer_media_type_from_url, media_type_for, source_is, url_extension};
use crate::json::{Json, JsonValue};
use crate::text::{chars_of, copy_str, has_prefix, lower_of, push_str, same_text, starts_with, text_of, trim_of, trimmed};
use crate::web_search::joined;

verus! {

broadcast use vstd::std_specs::vec::group_vec_axioms;

/// The image that a web-upstream URL stands for: a data URI gives its parts;
/// an HTTP(S) URL gives a `url` source holding the URL, with the media type
/// of its extension; anything else gives nothing.
pub open spec fn url_image(u: Seq<char>, r: Option<ImageSource>) -> bool {
    if starts_with(u, "data:"@) {
        match data_uri_parts(u) {
            Some(p) => r matches Some(s) && source_is(s, p),
            None => r is None,
        }
    } else if starts_with(u, "http://"@) || starts_with(u, "https://"@) {
        r matches Some(s) && s.type_@ == "url"@ && s.media_type@ == media_type_for(lower_of(url_extension(u))) && s.data@ == u
    } else {
        r is None
    }
}

/// Reads the image that a URL stands for: see [`url_image`].
pub fn extract_image_from_url(url: &str) -> (r: Option<ImageSource>)
    ensures
        url_image(url@, r),
{
    if has_prefix(url, "data:") {
        return extract_image_from_data_uri(url);
    }
    if has_prefix(url, "http://") || has_prefix(url, "https://") {
        let media_type = infer_media_type_from_url(url);
        return Some(ImageSource { type_: copy_str("url"), media_type, data: copy_str(url) });
    }
    None
}

/// The texts of a system prompt merged: a string as it is; the trimmed `text`
/// strings of a list joined by newlines; nothing otherwise.
pub open spec fn merged_system(sys: Json) -> Seq<char> {
    match sys {
        Json::Str(s) => s,
        Json::Array(items) => joined(trimmed_texts(items), "\n"@),
        _ => seq![],
    }
}

/// The trimmed `text` strings of items, in order.
pub open spec fn trimmed_texts(items: Seq<Json>) -> Seq<Seq<char>>
    decreases items.len(),
{
    if items.len() == 0 {
        seq![]
    } else {
        match items.last().get_str("text"@) {
            Some(t) => trimmed_texts(items.drop_last()).push(trim_of(t)),
            None => trimmed_texts(items.drop_last()),
        }
    }
}

fn push_joined_piece(out: &mut Vec<char>, count: &mut usize, piece: &str)
    requires
        *old(count) < usize::MAX,
    ensures
        *final(count) == *old(count) + 1,
        final(out)@ == if *old(count) == 0 {
            old(out)@ + piece@
        } else {
            old(out)@ + "\n"@ + piece@
        },
{
    if *count > 0 {
        push_str(out, "\n");
    }
    push_str(out, piece);
    *count = *count + 1;
}

/// Merges a system prompt into one text: see [`merged_system`].
pub fn merge_system(sys: &JsonValue) -> (r: String)
    ensures
        r@ == merged_system(sys@),
{
    match sys {
        JsonValue::Str(s) => s.clone(),
        JsonValue::Array(items) => {
            proof {
                crate::json::lemma_array_view(*items);
            }
            let ghost all = crate::json::views(items@);
            let mut out: Vec<char> = Vec::new();
            let mut n: usize = 0;
            let mut i: usize = 0;
            while i < items.len()
                invariant
                    all == crate::json::views(items@),
                    i <= items.len(),
                    n <= i,
                    n as nat == trimmed_texts(all.take(i as int)).len(),
                    out@ == joined(trimmed_texts(all.take(i as int)), "\n"@),
                decreases items.len() - i,
            {
                assert(all.take(i + 1).drop_last() =~= all.take(i as int));
                assert(all.take(i + 1).last() == items@[i as int]@);
                match items[i].get_str("text") {
                    Some(t) => {
                        let tt = trimmed(t);
                        let ghost prev = trimmed_texts(all.take(i as int));
                        assert(prev.push(tt@).drop_last() =~= prev);
                        push_joined_piece(&mut out, &mut n, tt.as_str());
                        if n == 1 {
                            assert(out@ =~= joined(prev.push(tt@), "\n"@));
                        }
                    },
                    None => {},
                }
                i += 1;
            }
            assert(all.take(items.len() as int) =~= all);
            text_of(&out)
        },
        _ => String::new(),
    }
}

/// The text piece of a block in the merged prompt: a text trimmed, a
/// non-empty thinking trimmed and wrapped in `<thinking>` tags.
pub open spec fn block_piece(b: ContentBlock) -> Option<Seq<char>> {
    match b {
        ContentBlock::Text { text, .. } => Some(trim_of(text@)),
        ContentBlock::Thinking { thinking, .. } => if trim_of(thinking@).len() == 0 {
            None
        } else {
            Some("<thinking>"@ + trim_of(thinking@) + "</thinking>"@)
        },
        _ => None,
    }
}

/// The text pieces of blocks, in order.
pub open spec fn pieces(bs: Seq<ContentBlock>) -> Seq<Seq<char>>
    decreases bs.len(),
{
    if bs.len() == 0 {
        seq![]
    } else {
        match block_piece(bs.last()) {
            Some(p) => pieces(bs.drop_last()).push(p),
            None => pieces(bs.drop_last()),
        }
    }
}

/// One turn of the merged prompt.
pub struct Chunk {
    pub role: Role,
    pub text: Seq<char>,
}

/// The turn of a message: its pieces joined by newlines, or its trimmed
/// text; nothing where that is empty.
pub open spec fn chunk_of(m: Message) -> Option<Chunk> {
    let t = match m.content {
        MessageContent::Blocks { content } => joined(pieces(content@), "\n"@),
        MessageContent::Text { content } => trim_of(content@),
    };
    if t.len() == 0 {
        None
    } else {
        Some(Chunk { role: m.role, text: t })
    }
}

/// The turns of messages, in order.
pub open spec fn chunks(ms: Seq<Message>) -> Seq<Chunk>
    decreases ms.len(),
{
    if ms.len() == 0 {
        seq![]
    } else {
        match chunk_of(ms.last()) {
            Some(c) => chunks(ms.drop_last()).push(c),
            None => chunks(ms.drop_last()),
        }
    }
}

/// Consecutive turns of one role merged into one, their texts joined by newlines.
pub open spec fn grouped(cs: Seq<Chunk>) -> Seq<Chunk>
    decreases cs.len(),
{
    if cs.len() == 0 {
        seq![]
    } else {
        let g = grouped(cs.drop_last());
        let c = cs.last();
        if g.len() > 0 && g.last().role == c.role {
            g.update(g.len() - 1, Chunk { role: c.role, text: g.last().text + "\n"@ + c.text })
        } else {
            g.push(c)
        }
    }
}

/// The turns after the first, each on its own after the separator with its
/// role's prefix; system turns are left out.
pub open spec fn tail_text(gs: Seq<Chunk>, human: Seq<char>, assistant: Seq<char>, breaks: Seq<char>) -> Seq<char>
    decreases gs.len(),
{
    if gs.len() == 0 {
        seq![]
    } else {
        let c = gs.last();
        tail_text(gs.drop_last(), human, assistant, breaks) + match c.role {
            Role::System => seq![],
            Role::User => breaks + human + ": "@ + c.text,
            Role::Assistant => breaks + assistant + ": "@ + c.text,
        }
    }
}

/// How the web upstream's prompt is labelled.
#[derive(Debug, Clone)]
pub struct PromptConfig {
    pub custom_h: Option<String>,
    pub custom_a: Option<String>,
    pub use_real_roles: bool,
    pub custom_prompt: String,
}

/// The label of user turns.
pub open spec fn human_label(c: PromptConfig) -> Seq<char> {
    match c.custom_h {
        Some(h) => h@,
        None => "Human"@,
    }
}

/// The label of assistant turns.
pub open spec fn assistant_label(c: PromptConfig) -> Seq<char> {
    match c.custom_a {
        Some(a) => a@,
        None => "Assistant"@,
    }
}

/// The separator between turns.
pub open spec fn line_breaks(c: PromptConfig) -> Seq<char> {
    if c.use_real_roles {
        "\n\n\x08"@
    } else {
        "\n\n"@
    }
}

/// The merged prompt text: the trimmed system text, else the first turn,
/// followed by the other turns; nothing where there is neither.
pub open spec fn merged_paste(ms: Seq<Message>, system: Seq<char>, c: PromptConfig) -> Option<Seq<char>> {
    let gs = grouped(chunks(ms));
    let sys = trim_of(system);
    if ms.len() == 0 {
        None
    } else if sys.len() > 0 {
        Some(sys + tail_text(gs, human_label(c), assistant_label(c), line_breaks(c)))
    } else if gs.len() == 0 {
        None
    } else {
        Some(gs[0].text + tail_text(gs.drop_first(), human_label(c), assistant_label(c), line_breaks(c)))
    }
}

/// Merged messages: the prompt text, the prompt polyfill and the images found.
#[derive(Debug, Clone)]
pub struct Merged {
    pub paste: String,
    pub prompt: String,
    pub images: Vec<ImageSource>,
}

/// The images that a block holds for upload: an image source as it is, the
/// image of an image reference, and a base64 document (as a PDF where it
/// names no media type).
pub open spec fn block_images(b: ContentBlock, r: Seq<ImageSource>) -> bool {
    match b {
        ContentBlock::Image { source, .. } => r == seq![source],
        ContentBlock::ImageUrl { image_url } => (r.len() == 0 && url_image(image_url.url@, None)) || (r.len() == 1
            && url_image(image_url.url@, Some(r[0]))),
        ContentBlock::Document { source, .. } => if source.type_@ == "base64"@ && source.data is Some {
            r.len() == 1 && r[0].type_@ == "base64"@ && r[0].data == source.data->0 && r[0].media_type@ == (match source.media_type {
                Some(m) => m@,
                None => "application/pdf"@,
            })
        } else {
            r.len() == 0
        },
        _ => r.len() == 0,
    }
}

/// Whether `imgs` are the images that blocks hold for upload, in order.
pub open spec fn blocks_images(bs: Seq<ContentBlock>, imgs: Seq<ImageSource>) -> bool
    decreases bs.len(),
{
    if bs.len() == 0 {
        imgs.len() == 0
    } else {
        ||| (block_images(bs.last(), seq![]) && blocks_images(bs.drop_last(), imgs))
        ||| (imgs.len() > 0 && block_images(bs.last(), seq![imgs.last()]) && blocks_images(
            bs.drop_last(),
            imgs.drop_last(),
        ))
    }
}

/// The blocks of all messages, in order.
pub open spec fn all_blocks(ms: Seq<Message>) -> Seq<ContentBlock>
    decreases ms.len(),
{
    if ms.len() == 0 {
        seq![]
    } else {
        all_blocks(ms.drop_last()) + match ms.last().content {
            MessageContent::Blocks { content } => content@,
            MessageContent::Text { .. } => seq![],
        }
    }
}

proof fn lemma_blocks_images_concat(a: Seq<ContentBlock>, x: Seq<ImageSource>, b: Seq<ContentBlock>, y: Seq<ImageSource>)
    requires
        blocks_images(a, x),
        blocks_images(b, y),
    ensures
        blocks_images(a + b, x + y),
    decreases b.len(),
{
    if b.len() == 0 {
        assert(a + b =~= a);
        assert(x + y =~= x);
    } else {
        assert((a + b).drop_last() =~= a + b.drop_last());
        assert((a + b).last() == b.last());
        if block_images(b.last(), seq![]) && blocks_images(b.drop_last(), y) {
            lemma_blocks_images_concat(a, x, b.drop_last(), y);
        } else {
            lemma_blocks_images_concat(a, x, b.drop_last(), y.drop_last());
            assert((x + y).drop_last() =~= x + y.drop_last());
            assert((x + y).last() == y.last());
        }
    }
}

fn chunk_text_of_blocks(bs: Vec<ContentBlock>, images: &mut Vec<ImageSource>) -> (r: Vec<char>)
    ensures
        r@ == joined(pieces(bs@), "\n"@),
        final(images)@.len() >= old(images)@.len(),
        final(images)@.take(old(images)@.len() as int) == old(images)@,
        blocks_images(bs@, final(images)@.skip(old(images)@.len() as int)),
{
    let ghost all = bs@;
    let ghost img0 = images@;
    let mut rest = bs;
    let n = rest.len();
    let mut out: Vec<char> = Vec::new();
    let mut count: usize = 0;
    let mut i: usize = 0;
    while rest.len() > 0
        invariant
            all.len() == n,
            i <= n,
            count <= i,
            rest@ == all.skip(i as int),
            count as nat == pieces(all.take(i as int)).len(),
            out@ == joined(pieces(all.take(i as int)), "\n"@),
            images@.len() >= img0.len(),
            images@.take(img0.len() as int) == img0,
            blocks_images(all.take(i as int), images@.skip(img0.len() as int)),
        decreases rest.len(),
    {
        assert(all.take(i + 1).drop_last() =~= all.take(i as int));
        assert(all.take(i + 1).last() == all[i as int]);
        let b = rest.remove(0);
        let ghost bb = b;
        assert(rest@ =~= all.skip(i + 1));
        let ghost prev = pieces(all.take(i as int));
        let ghost imgs_before = images@;
        let piece: Option<String> = match b {
            ContentBlock::Text { text, .. } => Some(trimmed(text.as_str())),
            ContentBlock::Thinking { thinking, .. } => {
                let t = trimmed(thinking.as_str());
                if t.as_str().is_empty() {
                    None
                } else {
                    let mut w = chars_of("<thinking>");
                    push_str(&mut w, t.as_str());
                    push_str(&mut w, "</thinking>");
                    Some(text_of(&w))
                }
            },
            ContentBlock::Image { source, .. } => {
                images.push(source);
                None
            },
            ContentBlock::ImageUrl { image_url } => {
                match extract_image_from_url(image_url.url.as_str()) {
                    Some(s) => images.push(s),
                    None => {},
                }
                None
            },
            ContentBlock::Document { source, .. } => {
                if same_text(source.type_.as_str(), "base64") {
                    match source.data {
                        Some(data) => {
                            let media_type = match source.media_type {
                                Some(m) => m,
                                None => copy_str("application/pdf"),
                            };
                            images.push(ImageSource { type_: copy_str("base64"), media_type, data });
                        },
                        None => {},
                    }
                }
                None
            },
            _ => None,
        };
        proof {
            assert(images@.take(img0.len() as int) =~= imgs_before.take(img0.len() as int));
            let before_new = imgs_before.skip(img0.len() as int);
            let after_new = images@.skip(img0.len() as int);
            if images@.len() == imgs_before.len() {
                assert(after_new =~= before_new);
                assert(block_images(bb, seq![]));
            } else {
                assert(after_new.drop_last() =~= before_new);
                assert(block_images(bb, seq![after_new.last()]));
            }
        }
        match piece {
            Some(p) => {
                assert(prev.push(p@).drop_last() =~= prev);
                push_joined_piece(&mut out, &mut count, p.as_str());
                if count == 1 {
                    assert(out@ =~= joined(prev.push(p@), "\n"@));
                }
            },
            None => {},
        }
        i += 1;
    }
    assert(all.take(n as int) =~= all);
    out
}

fn push_group(groups: &mut Vec<(Role, Vec<char>)>, role: Role, text: Vec<char>)
    ensures
        chunks_view(final(groups)@) == grouped_step(chunks_view(old(groups)@), Chunk { role, text: text@ }),
{
    let ghost before = chunks_view(groups@);
    let n = groups.len();
    if n > 0 && groups[n - 1].0 == role {
        let (r0, mut last) = groups.pop().unwrap();
        push_str_chars(&mut last, &text);
        groups.push((r0, last));
        assert(chunks_view(groups@) =~= grouped_step(before, Chunk { role, text: text@ }));
    } else {
        groups.push((role, text));
        assert(chunks_view(groups@) =~= grouped_step(before, Chunk { role, text: text@ }));
    }
}

fn push_str_chars(out: &mut Vec<char>, text: &Vec<char>)
    ensures
        final(out)@ == old(out)@ + "\n"@ + text@,
{
    push_str(out, "\n");
    crate::text::push_chars(out, text);
}

/// The models of built groups.
pub open spec fn chunks_view(gs: Seq<(Role, Vec<char>)>) -> Seq<Chunk> {
    Seq::new(gs.len(), |i: int| Chunk { role: gs[i].0, text: gs[i].1@ })
}

/// One step of [`grouped`].
pub open spec fn grouped_step(g: Seq<Chunk>, c: Chunk) -> Seq<Chunk> {
    if g.len() > 0 && g.last().role == c.role {
        g.update(g.len() - 1, Chunk { role: c.role, text: g.last().text + "\n"@ + c.text })
    } else {
        g.push(c)
    }
}

/// Merges the messages into one prompt for the web upstream: each message
/// becomes a turn of its text pieces (its images set aside for upload),
/// consecutive turns of one role are merged, and the turns after the first
/// (or all of them, after a non-empty system text) are labelled with their
/// role. Nothing comes out for no messages, or for no text at all.
pub fn merge_messages(msgs: Vec<Message>, system: &str, config: &PromptConfig) -> (r: Option<Merged>)
    ensures
        match (r, merged_paste(msgs@, system@, *config)) {
            (Some(m), Some(p)) => m.paste@ == p && m.prompt == config.custom_prompt && blocks_images(
                all_blocks(msgs@),
                m.images@,
            ),
            (None, None) => true,
            _ => false,
        },
{
    if msgs.len() == 0 {
        return None;
    }
    let ghost all = msgs@;
    let mut images: Vec<ImageSource> = Vec::new();
    let mut groups: Vec<(Role, Vec<char>)> = Vec::new();
    let mut rest = msgs;
    let n = rest.len();
    let mut i: usize = 0;
    while rest.len() > 0
        invariant
            all.len() == n,
            i <= n,
            rest@ == all.skip(i as int),
            chunks_view(groups@) == grouped(chunks(all.take(i as int))),
            blocks_images(all_blocks(all.take(i as int)), images@),
        decreases rest.len(),
    {
        assert(all.take(i + 1).drop_last() =~= all.take(i as int));
        assert(all.take(i + 1).last() == all[i as int]);
        let m = rest.remove(0);
        assert(rest@ =~= all.skip(i + 1));
        let role = m.role;
        let ghost mm = m;
        let ghost imgs0 = images@;
        let text: Vec<char> = match m.content {
            MessageContent::Blocks { content } => chunk_text_of_blocks(content, &mut images),
            MessageContent::Text { content } => chars_of(trimmed(content.as_str()).as_str()),
        };
        proof {
            let mb = match mm.content {
                MessageContent::Blocks { content } => content@,
                MessageContent::Text { .. } => seq![],
            };
            let added = images@.skip(imgs0.len() as int);
            if mm.content is Text {
                assert(images@ == imgs0);
                assert(added =~= Seq::<ImageSource>::empty());
            }
            assert(blocks_images(mb, added));
            lemma_blocks_images_concat(all_blocks(all.take(i as int)), imgs0, mb, added);
            assert(imgs0 + added =~= images@);
            assert(all_blocks(all.take(i + 1)) == all_blocks(all.take(i as int)) + mb);
        }
        assert(chunk_of(mm) == if text@.len() == 0 { None } else { Some(Chunk { role, text: text@ }) });
        if text.len() > 0 {
            let ghost cs = chunks(all.take(i as int));
            assert(cs.push(Chunk { role, text: text@ }).drop_last() =~= cs);
            push_group(&mut groups, role, text);
        }
        i += 1;
    }
    assert(all.take(n as int) =~= all);
    let human = match &config.custom_h {
        Some(h) => h.clone(),
        None => copy_str("Human"),
    };
    let assistant = match &config.custom_a {
        Some(a) => a.clone(),
        None => copy_str("Assistant"),
    };
    let breaks = if config.use_real_roles {
        copy_str("\n\n\x08")
    } else {
        copy_str("\n\n")
    };
    let sys = trimmed(system);
    let ghost gs = chunks_view(groups@);
    let mut w: Vec<char> = Vec::new();
    let start: usize;
    if !sys.as_str().is_empty() {
        w = chars_of(sys.as_str());
        start = 0;
    } else {
        if groups.len() == 0 {
            return None;
        }
        w = crate::text::slice_chars(&groups[0].1, 0, groups[0].1.len());
        start = 1;
    }
    let ghost head = w@;
    let mut k: usize = start;
    assert(gs.subrange(start as int, start as int) =~= Seq::<Chunk>::empty());
    while k < groups.len()
        invariant
            gs == chunks_view(groups@),
            start <= k <= groups.len(),
            w@ == head + tail_text(gs.subrange(start as int, k as int), human@, assistant@, breaks@),
        decreases groups.len() - k,
    {
        assert(gs.subrange(start as int, k + 1).drop_last() =~= gs.subrange(start as int, k as int));
        assert(gs.subrange(start as int, k + 1).last() == gs[k as int]);
        match groups[k].0 {
            Role::System => {},
            Role::User => {
                push_str(&mut w, breaks.as_str());
                push_str(&mut w, human.as_str());
                push_str(&mut w, ": ");
                crate::text::push_chars(&mut w, &groups[k].1);
            },
            Role::Assistant => {
                push_str(&mut w, breaks.as_str());
                push_str(&mut w, assistant.as_str());
                push_str(&mut w, ": ");
                crate::text::push_chars(&mut w, &groups[k].1);
            },
        }
        k += 1;
        assert(w@ =~= head + tail_text(gs.subrange(start as int, k as int), human@, assistant@, breaks@));
    }
    assert(gs.subrange(start as int, groups.len() as int) =~= if start == 0 { gs } else { gs.drop_first() });
    Some(Merged { paste: text_of(&w), prompt: config.custom_prompt.clone(), images })
}

/// The file name that an upload of a media type gets.
pub open spec fn upload_name(media_type: Seq<char>) -> Seq<char> {
    let m = lower_of(media_type);
    if m == "image/png"@ {
        "image.png"@
    } else if m == "image/jpeg"@ || m == "image/jpg"@ {
        "image.jpg"@
    } else if m == "image/gif"@ {
        "image.gif"@
    } else if m == "image/webp"@ {
        "image.webp"@
    } else if m == "application/pdf"@ {
        "document.pdf"@
    } else {
        "file"@
    }
}

/// The file name of an upload, by its media type compared without regard to case.
pub fn upload_file_name(media_type: &str) -> (r: String)
    ensures
        r@ == upload_name(media_type@),
{
    let m = crate::text::lowercase(media_type);
    let s = m.as_str();
    let name = if same_text(s, "image/png") {
        "image.png"
    } else if same_text(s, "image/jpeg") || same_text(s, "image/jpg") {
        "image.jpg"
    } else if same_text(s, "image/gif") {
        "image.gif"
    } else if same_text(s, "image/webp") {
        "image.webp"
    } else if same_text(s, "application/pdf") {
        "document.pdf"
    } else {
        "file"
    };
    copy_str(name)
}

/// What an image is uploaded as: its decoded bytes and file name, where it is
/// base64 and decodes.
pub fn upload_payload(img: &ImageSource) -> (r: Option<(Vec<u8>, String)>)
    ensures
        match r {
            Some((bytes, name)) => img.type_@ == "base64"@ && crate::image_converter::base64_decoded(img.data@) == Some(bytes@)
                && name@ == upload_name(img.media_type@),
            None => img.type_@ != "base64"@ || crate::image_converter::base64_decoded(img.data@) is None,
        },
{
    if !same_text(img.type_.as_str(), "base64") {
        return None;
    }
    match crate::image_converter::decode_base64(img.data.as_str()) {
        Some(bytes) => Some((bytes, upload_file_name(img.media_type.as_str()))),
        None => None,
    }
}

} // verus!

verus! {

/// What a request to the web upstream carries, as the conversion decides it.
#[derive(Debug, Clone)]
pub struct WebPrompt {
    pub max_tokens_to_sample: u32,
    /// The merged conversation, sent as the attachment.
    pub paste: String,
    pub prompt: String,
    pub images: Vec<ImageSource>,
    /// The model, named only for accounts that may choose one.
    pub model: Option<String>,
    /// `messages` for a streamed response, `raw` otherwise.
    pub rendering_mode: String,
    /// Whether the built-in web search tool is attached.
    pub web_search: bool,
}

/// The system text of a request: its system prompt merged, or nothing.
pub open spec fn system_of(system: Option<JsonValue>) -> Seq<char> {
    match system {
        Some(v) => merged_system(v@),
        None => seq![],
    }
}

/// Builds the web upstream's request: the conversation merged under the
/// system text, the model named only for accounts that may choose one, and
/// the rendering mode by streaming. Nothing comes out where merging gives
/// nothing.
pub fn transform_request(
    value: crate::claude::CreateMessageParams,
    is_pro: bool,
    web_search: bool,
    config: &PromptConfig,
) -> (r: Option<WebPrompt>)
    ensures
        r is Some <==> merged_paste(value.messages@, system_of(value.system), *config) is Some,
        r matches Some(w) ==> {
            &&& w.paste@ == merged_paste(value.messages@, system_of(value.system), *config)->0
            &&& w.prompt == config.custom_prompt
            &&& blocks_images(all_blocks(value.messages@), w.images@)
            &&& w.max_tokens_to_sample == value.max_tokens
            &&& w.model == (if is_pro { Some(value.model) } else { None })
            &&& w.rendering_mode@ == (if value.stream == Some(true) { "messages"@ } else { "raw"@ })
            &&& w.web_search == web_search
        },
{
    let system = match &value.system {
        Some(v) => merge_system(v),
        None => String::new(),
    };
    let streamed = match value.stream {
        Some(s) => s,
        None => false,
    };
    let merged = merge_messages(value.messages, system.as_str(), config);
    match merged {
        Some(m) => Some(WebPrompt {
            max_tokens_to_sample: value.max_tokens,
            paste: m.paste,
            prompt: m.prompt,
            images: m.images,
            model: if is_pro {
                Some(value.model)
            } else {
                None
            },
            rendering_mode: if streamed {
                copy_str("messages")
            } else {
                copy_str("raw")
            },
            web_search,
        }),
        None => None,
    }
}

} // verus!
