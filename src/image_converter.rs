//! Conversion between data URIs, URL references and base64 image sources.
use vstd::prelude::*;

use base64::Engine;

use crate::claude::{ContentBlock, DocumentSource, ImageSource, ImageUrl};
use crate::text::{
    after_last, before_first, chars_after_last, chars_before_first, chars_of, copy_str,
    first_index, first_position, has_prefix, lower_of, lowercase, push_str, same_text,
    slice_chars, starts_with, text_of,
};

verus! {

broadcast use vstd::std_specs::vec::group_vec_axioms;

/// The parts of a data URI.
pub struct DataUri {
    pub media_type: Seq<char>,
    pub encoding: Seq<char>,
    pub data: Seq<char>,
}

/// The parts of `data:<media type>[;<encoding>],<data>`: the text is cut at its
/// first comma; the encoding is `base64` where the header names none.
pub open spec fn data_uri_parts(u: Seq<char>) -> Option<DataUri> {
    if !starts_with(u, "data:"@) {
        None
    } else {
        match first_index(u, ',') {
            None => None,
            Some(c) => {
                let meta = u.subrange(5, c);
                let data = u.subrange(c + 1, u.len() as int);
                match first_index(meta, ';') {
                    Some(s) => Some(
                        DataUri {
                            media_type: meta.take(s),
                            encoding: meta.subrange(s + 1, meta.len() as int),
                            data,
                        },
                    ),
                    None => Some(DataUri { media_type: meta, encoding: "base64"@, data }),
                }
            },
        }
    }
}

/// Whether an image source holds the parts of a data URI.
pub open spec fn source_is(s: ImageSource, p: DataUri) -> bool {
    s.type_@ == p.encoding && s.media_type@ == p.media_type && s.data@ == p.data
}

/// Reads the image that a data URI carries.
pub fn extract_image_from_data_uri(url: &str) -> (r: Option<ImageSource>)
    ensures
        r matches Some(s) ==> data_uri_parts(url@) matches Some(p) && source_is(s, p),
        r is None ==> data_uri_parts(url@) is None,
{
    if !has_prefix(url, "data:") {
        return None;
    }
    let cs = chars_of(url);
    proof {
        reveal_strlit("data:");
    }
    let c = match first_position(&cs, ',') {
        Some(c) => c,
        None => {
            return None;
        },
    };
    assert(cs@.take(5) == "data:"@);
    assert(c >= 5) by {
        if c < 5 {
            assert(cs@.take(5)[c as int] == cs@[c as int]);
            assert("data:"@[0] == 'd' && "data:"@[1] == 'a' && "data:"@[2] == 't' && "data:"@[3]
                == 'a' && "data:"@[4] == ':');
            assert(cs@[c as int] == "data:"@[c as int]);
            if c == 0 {
                assert(cs@[c as int] == 'd');
            } else if c == 1 {
                assert(cs@[c as int] == 'a');
            } else if c == 2 {
                assert(cs@[c as int] == 't');
            } else if c == 3 {
                assert(cs@[c as int] == 'a');
            } else {
                assert(cs@[c as int] == ':');
            }
        }
    }
    let meta = slice_chars(&cs, 5, c);
    let data = slice_chars(&cs, c + 1, cs.len());
    match first_position(&meta, ';') {
        Some(s) => {
            let mt = slice_chars(&meta, 0, s);
            let enc = slice_chars(&meta, s + 1, meta.len());
            assert(mt@ =~= meta@.take(s as int));
            Some(ImageSource { type_: text_of(&enc), media_type: text_of(&mt), data: text_of(&data) })
        },
        None => Some(
            ImageSource { type_: copy_str("base64"), media_type: text_of(&meta), data: text_of(&data) },
        ),
    }
}

/// The media type that a file extension stands for.
pub open spec fn media_type_for(ext: Seq<char>) -> Seq<char> {
    if ext == "png"@ {
        "image/png"@
    } else if ext == "jpg"@ || ext == "jpeg"@ {
        "image/jpeg"@
    } else if ext == "gif"@ {
        "image/gif"@
    } else if ext == "webp"@ {
        "image/webp"@
    } else if ext == "svg"@ {
        "image/svg+xml"@
    } else if ext == "bmp"@ {
        "image/bmp"@
    } else if ext == "ico"@ {
        "image/x-icon"@
    } else if ext == "tiff"@ || ext == "tif"@ {
        "image/tiff"@
    } else if ext == "pdf"@ {
        "application/pdf"@
    } else if ext == "txt"@ {
        "text/plain"@
    } else if ext == "html"@ || ext == "htm"@ {
        "text/html"@
    } else if ext == "md"@ || ext == "markdown"@ {
        "text/markdown"@
    } else if ext == "json"@ {
        "application/json"@
    } else {
        "application/octet-stream"@
    }
}

/// The extension of a URL's path: query and fragment cut off, then the text
/// after the last dot.
pub open spec fn url_extension(u: Seq<char>) -> Seq<char> {
    after_last(before_first(before_first(u, '?'), '#'), '.')
}

/// The media type of an already lower-cased extension.
pub fn media_type_of_ext(ext: &str) -> (r: String)
    ensures
        r@ == media_type_for(ext@),
{
    let t = if same_text(ext, "png") {
        "image/png"
    } else if same_text(ext, "jpg") || same_text(ext, "jpeg") {
        "image/jpeg"
    } else if same_text(ext, "gif") {
        "image/gif"
    } else if same_text(ext, "webp") {
        "image/webp"
    } else if same_text(ext, "svg") {
        "image/svg+xml"
    } else if same_text(ext, "bmp") {
        "image/bmp"
    } else if same_text(ext, "ico") {
        "image/x-icon"
    } else if same_text(ext, "tiff") || same_text(ext, "tif") {
        "image/tiff"
    } else if same_text(ext, "pdf") {
        "application/pdf"
    } else if same_text(ext, "txt") {
        "text/plain"
    } else if same_text(ext, "html") || same_text(ext, "htm") {
        "text/html"
    } else if same_text(ext, "md") || same_text(ext, "markdown") {
        "text/markdown"
    } else if same_text(ext, "json") {
        "application/json"
    } else {
        "application/octet-stream"
    };
    copy_str(t)
}

/// Infers a media type from the extension of a URL's path, compared without
/// regard to case; an unknown extension gives `application/octet-stream`.
pub fn infer_media_type_from_url(url: &str) -> (r: String)
    ensures
        r@ == media_type_for(lower_of(url_extension(url@))),
{
    let cs = chars_of(url);
    let path = chars_before_first(&cs, '?');
    let path = chars_before_first(&path, '#');
    let ext = chars_after_last(&path, '.');
    let ext_text = text_of(&ext);
    let lower = lowercase(ext_text.as_str());
    media_type_of_ext(lower.as_str())
}

/// Whether a media type begins with one of the supported image types.
pub open spec fn supported_image(mt: Seq<char>) -> bool {
    ||| starts_with(mt, "image/png"@)
    ||| starts_with(mt, "image/jpeg"@)
    ||| starts_with(mt, "image/jpg"@)
    ||| starts_with(mt, "image/gif"@)
    ||| starts_with(mt, "image/webp"@)
    ||| starts_with(mt, "image/svg+xml"@)
    ||| starts_with(mt, "image/bmp"@)
    ||| starts_with(mt, "image/tiff"@)
}

/// Whether a media type begins with one of the supported document types.
pub open spec fn supported_document(mt: Seq<char>) -> bool {
    ||| starts_with(mt, "application/pdf"@)
    ||| starts_with(mt, "text/plain"@)
    ||| starts_with(mt, "text/html"@)
    ||| starts_with(mt, "text/markdown"@)
    ||| starts_with(mt, "application/json"@)
}

/// Whether a media type is a supported image type.
pub fn is_supported_image_type(media_type: &str) -> (r: bool)
    ensures
        r == supported_image(media_type@),
{
    has_prefix(media_type, "image/png") || has_prefix(media_type, "image/jpeg") || has_prefix(
        media_type,
        "image/jpg",
    ) || has_prefix(media_type, "image/gif") || has_prefix(media_type, "image/webp")
        || has_prefix(media_type, "image/svg+xml") || has_prefix(media_type, "image/bmp")
        || has_prefix(media_type, "image/tiff")
}

/// Whether a media type is a supported document type.
pub fn is_supported_document_type(media_type: &str) -> (r: bool)
    ensures
        r == supported_document(media_type@),
{
    has_prefix(media_type, "application/pdf") || has_prefix(media_type, "text/plain")
        || has_prefix(media_type, "text/html") || has_prefix(media_type, "text/markdown")
        || has_prefix(media_type, "application/json")
}

/// The image source for a base64 document: its media type, or
/// `application/octet-stream` where it has none.
pub fn document_to_image_source(source: &DocumentSource) -> (r: Option<ImageSource>)
    ensures
        r is Some <==> (source.type_@ == "base64"@ && source.data is Some),
        r matches Some(s) ==> s.type_@ == "base64"@ && s.data@ == source.data->0@ && s.media_type@
            == (match source.media_type {
            Some(m) => m@,
            None => "application/octet-stream"@,
        }),
{
    if !same_text(source.type_.as_str(), "base64") {
        return None;
    }
    let data = match &source.data {
        Some(d) => d.clone(),
        None => {
            return None;
        },
    };
    let media_type = match &source.media_type {
        Some(m) => m.clone(),
        None => copy_str("application/octet-stream"),
    };
    Some(ImageSource { type_: copy_str("base64"), media_type, data })
}

/// What an OpenAI image reference becomes: a data URI gives an image block
/// with its parts, an HTTP(S) URL stays a reference, and anything else gives
/// nothing.
pub open spec fn image_url_converted(orig: ImageUrl, r: Option<ContentBlock>) -> bool {
    let u = orig.url@;
    if starts_with(u, "data:"@) {
        match data_uri_parts(u) {
            Some(p) => r matches Some(ContentBlock::Image { source, cache_control }) && cache_control
                is None && source_is(source, p),
            None => r is None,
        }
    } else if starts_with(u, "http://"@) || starts_with(u, "https://"@) {
        r == Some(ContentBlock::ImageUrl { image_url: orig })
    } else {
        r is None
    }
}

/// Converts an OpenAI image reference to a canonical block.
pub fn oai_image_url_to_claude(image_url: &ImageUrl) -> (r: Option<ContentBlock>)
    ensures
        image_url_converted(*image_url, r),
{
    let url = image_url.url.as_str();
    if has_prefix(url, "data:") {
        return match extract_image_from_data_uri(url) {
            Some(source) => Some(ContentBlock::Image { source, cache_control: None }),
            None => None,
        };
    }
    if has_prefix(url, "http://") || has_prefix(url, "https://") {
        return Some(ContentBlock::ImageUrl { image_url: ImageUrl { url: image_url.url.clone() } });
    }
    None
}

/// The data URI `data:<media type>;<type>,<data>` of an image source.
pub open spec fn data_uri_of(s: ImageSource) -> Seq<char> {
    "data:"@ + s.media_type@ + ";"@ + s.type_@ + ","@ + s.data@
}

/// Converts a canonical image to an OpenAI image reference with a data URI.
pub fn claude_image_to_oai(source: &ImageSource) -> (r: ContentBlock)
    ensures
        r matches ContentBlock::ImageUrl { image_url } && image_url.url@ == data_uri_of(*source),
{
    let mut cs = chars_of("data:");
    push_str(&mut cs, source.media_type.as_str());
    push_str(&mut cs, ";");
    push_str(&mut cs, source.type_.as_str());
    push_str(&mut cs, ",");
    push_str(&mut cs, source.data.as_str());
    ContentBlock::ImageUrl { image_url: ImageUrl { url: text_of(&cs) } }
}

/// What the base64 crate's standard engine decodes a text to.
pub uninterp spec fn base64_decoded(s: Seq<char>) -> Option<Seq<u8>>;

/// Decodes standard base64.
///
/// Relies on `base64::engine::Engine::decode` with `BASE64_STANDARD`: the
/// outcome depends on the text alone.
#[verifier::external_body]
pub(crate) fn decode_base64(data: &str) -> (r: Option<Vec<u8>>)
    ensures
        r matches Some(b) ==> base64_decoded(data@) == Some(b@),
        r is None ==> base64_decoded(data@) is None,
{
    base64::prelude::BASE64_STANDARD.decode(data).ok()
}

/// What the base64 crate's standard engine encodes bytes to.
pub uninterp spec fn base64_encoded(b: Seq<u8>) -> Seq<char>;

/// Encodes bytes in standard base64.
///
/// Relies on `base64::engine::Engine::encode` with `BASE64_STANDARD`: the
/// text depends on the bytes alone.
#[verifier::external_body]
fn encode_base64(bytes: &[u8]) -> (r: String)
    ensures
        r@ == base64_encoded(bytes@),
{
    base64::prelude::BASE64_STANDARD.encode(bytes)
}

/// Whether a text is valid standard base64.
pub fn is_valid_base64(data: &str) -> (r: bool)
    ensures
        r == (base64_decoded(data@) is Some),
{
    decode_base64(data).is_some()
}

/// A base64 image source for raw bytes.
pub fn bytes_to_image_source(bytes: &[u8], media_type: &str) -> (r: ImageSource)
    ensures
        r.type_@ == "base64"@,
        r.media_type@ == media_type@,
        r.data@ == base64_encoded(bytes@),
{
    ImageSource { type_: copy_str("base64"), media_type: copy_str(media_type), data: encode_base64(bytes) }
}

/// Whether `out` is what block `b` becomes when image references are
/// converted: a reference that converts becomes its conversion, one that
/// does not (neither a well-formed data URI nor HTTP(S)) is dropped, and every
/// other block stays.
pub open spec fn block_conversion(b: ContentBlock, out: Seq<ContentBlock>) -> bool {
    match b {
        ContentBlock::ImageUrl { image_url } => if out.len() == 0 {
            image_url_converted(image_url, None)
        } else {
            out.len() == 1 && image_url_converted(image_url, Some(out[0]))
        },
        _ => out == seq![b],
    }
}

/// Whether `new` is the blocks `old` with their image references converted
/// or dropped,
/// in order.
pub open spec fn blocks_processed(old: Seq<ContentBlock>, new: Seq<ContentBlock>) -> bool
    decreases old.len(),
{
    if old.len() == 0 {
        new.len() == 0
    } else {
        ||| (block_conversion(old.last(), seq![]) && blocks_processed(old.drop_last(), new))
        ||| (new.len() > 0 && block_conversion(old.last(), seq![new.last()]) && blocks_processed(
            old.drop_last(),
            new.drop_last(),
        ))
    }
}

/// Converts every OpenAI image reference among blocks to its canonical form,
/// drops those that cannot be converted, and keeps every other block as it is.
pub fn process_image_blocks(blocks: Vec<ContentBlock>) -> (r: Vec<ContentBlock>)
    ensures
        blocks_processed(blocks@, r@),
{
    let ghost all = blocks@;
    let mut rest = blocks;
    let n = rest.len();
    let mut out: Vec<ContentBlock> = Vec::new();
    let mut i: usize = 0;
    while rest.len() > 0
        invariant
            all.len() == n,
            i <= n,
            rest@ == all.skip(i as int),
            blocks_processed(all.take(i as int), out@),
        decreases rest.len(),
    {
        assert(all.take(i + 1).drop_last() =~= all.take(i as int));
        assert(all.take(i + 1).last() == all[i as int]);
        let b = rest.remove(0);
        assert(rest@ =~= all.skip(i + 1));
        let ghost before = out@;
        match b {
            ContentBlock::ImageUrl { image_url } => {
                match oai_image_url_to_claude(&image_url) {
                    Some(c) => {
                        out.push(c);
                        assert(out@.drop_last() =~= before);
                        assert(seq![out@.last()] =~= seq![c]);
                    },
                    None => {},
                }
            },
            other => {
                out.push(other);
                assert(out@.drop_last() =~= before);
                assert(seq![out@.last()] =~= seq![other]);
            },
        }
        i += 1;
    }
    assert(all.take(n as int) =~= all);
    out
}

/// Converting image references is the identity on blocks that hold none.
pub proof fn lemma_process_keeps_other_blocks(old: Seq<ContentBlock>, new: Seq<ContentBlock>)
    requires
        blocks_processed(old, new),
        forall|i: int| 0 <= i < old.len() ==> !((#[trigger] old[i]) is ImageUrl),
    ensures
        new == old,
    decreases old.len(),
{
    if old.len() > 0 {
        let b = old.last();
        assert(!(old[old.len() - 1] is ImageUrl));
        assert(seq![b].len() == 1);
        assert(!block_conversion(b, seq![]));
        assert(block_conversion(b, seq![new.last()]));
        assert(seq![new.last()][0] == seq![b][0]);
        assert(forall|i: int| 0 <= i < old.drop_last().len() ==> !((#[trigger] old.drop_last()[i]) is ImageUrl)) by {
            assert forall|i: int| 0 <= i < old.drop_last().len() implies !((#[trigger] old.drop_last()[i]) is ImageUrl) by {
                assert(old.drop_last()[i] == old[i]);
            }
        }
        lemma_process_keeps_other_blocks(old.drop_last(), new.drop_last());
        assert(new =~= old.drop_last().push(old.last()));
        assert(old =~= old.drop_last().push(old.last()));
    }
}

} // verus!
