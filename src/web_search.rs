//! Web-search citations: extraction, annotations and Markdown.
use vstd::prelude::*;

use crate::json::{member_views, views, Json, JsonMember, JsonValue, Member};
use crate::text::{
    chars_of, copy_str, decimal, decimal_text, push_str, same_text, text_of,
};

verus! {

broadcast use vstd::std_specs::vec::group_vec_axioms;

/// A source that an answer cites.
#[derive(Debug, Clone, PartialEq, Eq)]
pub struct Citation {
    pub url: String,
    pub title: String,
    pub snippet: String,
    pub start_index: Option<usize>,
    pub end_index: Option<usize>,
}

/// A web search result as the upstream reports it.
#[derive(Debug, Clone, PartialEq, Eq)]
pub struct WebSearchResult {
    pub url: String,
    pub title: String,
    pub snippet: String,
    pub encrypted_content: Option<String>,
    pub page_age: Option<String>,
}

/// The model of a citation.
pub struct Cited {
    pub url: Seq<char>,
    pub title: Seq<char>,
    pub snippet: Seq<char>,
    pub start_index: Option<usize>,
    pub end_index: Option<usize>,
}

impl View for Citation {
    type V = Cited;

    open spec fn view(&self) -> Cited {
        Cited {
            url: self.url@,
            title: self.title@,
            snippet: self.snippet@,
            start_index: self.start_index,
            end_index: self.end_index,
        }
    }
}

/// The models of a list of citations.
pub open spec fn cited_all(cs: Seq<Citation>) -> Seq<Cited> {
    Seq::new(cs.len(), |i: int| cs[i]@)
}

/// A citation without text positions.
pub open spec fn cite(url: Seq<char>, title: Seq<char>, snippet: Seq<char>) -> Cited {
    Cited { url, title, snippet, start_index: None, end_index: None }
}

/// The text of a string value, or nothing.
pub open spec fn text_or_empty(v: Option<Json>) -> Seq<char> {
    match v {
        Some(Json::Str(s)) => s,
        _ => seq![],
    }
}

/// The snippet of a search hit: its `snippet`, or else its `encrypted_content`.
pub open spec fn hit_snippet(item: Json) -> Seq<char> {
    match item.get("snippet"@) {
        Some(v) => text_or_empty(Some(v)),
        None => text_or_empty(item.get("encrypted_content"@)),
    }
}

/// The citations of the `web_search_result` items of a `content` list.
pub open spec fn content_citations(items: Seq<Json>) -> Seq<Cited>
    decreases items.len(),
{
    if items.len() == 0 {
        seq![]
    } else {
        let rest = content_citations(items.drop_last());
        let item = items.last();
        if item.get_str("type"@) == Some("web_search_result"@) && item.get_str("url"@) is Some
            && item.get_str("title"@) is Some {
            rest.push(cite(item.get_str("url"@)->0, item.get_str("title"@)->0, hit_snippet(item)))
        } else {
            rest
        }
    }
}

/// The citations of the items of a `results` list.
pub open spec fn result_citations(items: Seq<Json>) -> Seq<Cited>
    decreases items.len(),
{
    if items.len() == 0 {
        seq![]
    } else {
        let rest = result_citations(items.drop_last());
        let item = items.last();
        if item.get_str("url"@) is Some && item.get_str("title"@) is Some {
            rest.push(
                cite(
                    item.get_str("url"@)->0,
                    item.get_str("title"@)->0,
                    text_or_empty(item.get("snippet"@)),
                ),
            )
        } else {
            rest
        }
    }
}

/// The citations of a `web_search_tool_result`: those of its `content` list,
/// then those of its `results` list.
pub open spec fn tool_result_citations(data: Json) -> Seq<Cited> {
    (match data.get_array("content"@) {
        Some(items) => content_citations(items),
        None => seq![],
    }) + (match data.get_array("results"@) {
        Some(items) => result_citations(items),
        None => seq![],
    })
}

fn text_member(v: &JsonValue, key: &str) -> (r: String)
    ensures
        r@ == text_or_empty(v@.get(key@)),
{
    match v.get_str(key) {
        Some(s) => copy_str(s),
        None => String::new(),
    }
}

fn snippet_of_hit(item: &JsonValue) -> (r: String)
    ensures
        r@ == hit_snippet(item@),
{
    match item.get("snippet") {
        Some(v) => match v.as_str() {
            Some(s) => copy_str(s),
            None => String::new(),
        },
        None => text_member(item, "encrypted_content"),
    }
}

fn push_content_citations(out: &mut Vec<Citation>, items: &Vec<JsonValue>)
    ensures
        cited_all(final(out)@) == cited_all(old(out)@) + content_citations(views(items@)),
{
    let ghost start = cited_all(out@);
    let ghost all = views(items@);
    let mut i: usize = 0;
    while i < items.len()
        invariant
            all == views(items@),
            i <= items.len(),
            cited_all(out@) == start + content_citations(all.take(i as int)),
        decreases items.len() - i,
    {
        assert(all.take(i + 1).drop_last() =~= all.take(i as int));
        assert(all.take(i + 1).last() == items@[i as int]@);
        let item = &items[i];
        let is_hit = match item.get_str("type") {
            Some(t) => same_text(t, "web_search_result"),
            None => false,
        };
        if is_hit {
            match (item.get_str("url"), item.get_str("title")) {
                (Some(url), Some(title)) => {
                    let ghost before = out@;
                    out.push(
                        Citation {
                            url: copy_str(url),
                            title: copy_str(title),
                            snippet: snippet_of_hit(item),
                            start_index: None,
                            end_index: None,
                        },
                    );
                    assert(cited_all(out@) =~= cited_all(before).push(out@.last()@));
                },
                _ => {},
            }
        }
        i += 1;
    }
    assert(all.take(items.len() as int) =~= all);
}

fn push_result_citations(out: &mut Vec<Citation>, items: &Vec<JsonValue>)
    ensures
        cited_all(final(out)@) == cited_all(old(out)@) + result_citations(views(items@)),
{
    let ghost start = cited_all(out@);
    let ghost all = views(items@);
    let mut i: usize = 0;
    while i < items.len()
        invariant
            all == views(items@),
            i <= items.len(),
            cited_all(out@) == start + result_citations(all.take(i as int)),
        decreases items.len() - i,
    {
        assert(all.take(i + 1).drop_last() =~= all.take(i as int));
        assert(all.take(i + 1).last() == items@[i as int]@);
        let item = &items[i];
        match (item.get_str("url"), item.get_str("title")) {
            (Some(url), Some(title)) => {
                let ghost before = out@;
                out.push(
                    Citation {
                        url: copy_str(url),
                        title: copy_str(title),
                        snippet: text_member(item, "snippet"),
                        start_index: None,
                        end_index: None,
                    },
                );
                assert(cited_all(out@) =~= cited_all(before).push(out@.last()@));
            },
            _ => {},
        }
        i += 1;
    }
    assert(all.take(items.len() as int) =~= all);
}

/// The citations of a `web_search_tool_result`: the `web_search_result` items
/// of its `content` that have a URL and a title, then the items of its
/// `results` that have both.
pub fn extract_citations_from_tool_result(data: &JsonValue) -> (r: Vec<Citation>)
    ensures
        cited_all(r@) == tool_result_citations(data@),
{
    let mut out: Vec<Citation> = Vec::new();
    assert(cited_all(out@) =~= Seq::<Cited>::empty());
    match data.get_array("content") {
        Some(items) => push_content_citations(&mut out, items),
        None => {},
    }
    let ghost mid = cited_all(out@);
    match data.get_array("results") {
        Some(items) => push_result_citations(&mut out, items),
        None => {
            assert(cited_all(out@) =~= mid + Seq::<Cited>::empty());
        },
    }
    assert(cited_all(out@) =~= tool_result_citations(data@));
    out
}

/// The `text` members of the items of a list, in order.
pub open spec fn texts_of(items: Seq<Json>) -> Seq<Seq<char>>
    decreases items.len(),
{
    if items.len() == 0 {
        seq![]
    } else {
        let rest = texts_of(items.drop_last());
        match items.last().get_str("text"@) {
            Some(t) => rest.push(t),
            None => rest,
        }
    }
}

/// The parts joined with `sep` between each two.
pub open spec fn joined(parts: Seq<Seq<char>>, sep: Seq<char>) -> Seq<char>
    decreases parts.len(),
{
    if parts.len() == 0 {
        seq![]
    } else if parts.len() == 1 {
        parts[0]
    } else {
        joined(parts.drop_last(), sep) + sep + parts.last()
    }
}

/// The citation of a `search_result`: the URL and title of its `source`, with
/// the texts of its `content` joined by newlines as the snippet.
pub open spec fn search_result_citations(data: Json) -> Seq<Cited> {
    match data.get("source"@) {
        Some(source) => if source.get_str("url"@) is Some && source.get_str("title"@) is Some {
            seq![
                cite(
                    source.get_str("url"@)->0,
                    source.get_str("title"@)->0,
                    match data.get_array("content"@) {
                        Some(items) => joined(texts_of(items), "\n"@),
                        None => seq![],
                    },
                ),
            ]
        } else {
            seq![]
        },
        None => seq![],
    }
}

fn join_texts(items: &Vec<JsonValue>) -> (r: Vec<char>)
    ensures
        r@ == joined(texts_of(views(items@)), "\n"@),
{
    let ghost all = views(items@);
    let mut out: Vec<char> = Vec::new();
    let mut n: usize = 0;
    let mut i: usize = 0;
    while i < items.len()
        invariant
            all == views(items@),
            i <= items.len(),
            n as nat == texts_of(all.take(i as int)).len(),
            n <= i,
            out@ == joined(texts_of(all.take(i as int)), "\n"@),
        decreases items.len() - i,
    {
        assert(all.take(i + 1).drop_last() =~= all.take(i as int));
        assert(all.take(i + 1).last() == items@[i as int]@);
        match items[i].get_str("text") {
            Some(t) => {
                let ghost prev = texts_of(all.take(i as int));
                assert(texts_of(all.take(i + 1)) == prev.push(t@));
                assert(prev.push(t@).drop_last() =~= prev);
                if n > 0 {
                    push_str(&mut out, "\n");
                }
                push_str(&mut out, t);
                n += 1;
                if n == 1 {
                    assert(out@ =~= joined(texts_of(all.take(i + 1)), "\n"@));
                }
            },
            None => {},
        }
        i += 1;
    }
    assert(all.take(items.len() as int) =~= all);
    out
}

/// The citation of a `search_result` block, where its source has a URL and a
/// title.
pub fn extract_citations_from_search_result(data: &JsonValue) -> (r: Vec<Citation>)
    ensures
        cited_all(r@) == search_result_citations(data@),
{
    let mut out: Vec<Citation> = Vec::new();
    match data.get("source") {
        Some(source) => match (source.get_str("url"), source.get_str("title")) {
            (Some(url), Some(title)) => {
                let snippet = match data.get_array("content") {
                    Some(items) => text_of(&join_texts(items)),
                    None => String::new(),
                };
                out.push(
                    Citation {
                        url: copy_str(url),
                        title: copy_str(title),
                        snippet,
                        start_index: None,
                        end_index: None,
                    },
                );
            },
            _ => {},
        },
        None => {},
    }
    assert(cited_all(out@) =~= search_result_citations(data@));
    out
}

/// The number text of an optional position, 0 where there is none.
pub open spec fn position_text(p: Option<usize>) -> Seq<char> {
    match p {
        Some(n) => decimal(n as nat),
        None => decimal(0),
    }
}

/// The OpenAI `url_citation` annotation of a citation.
pub open spec fn annotation_of(c: Cited) -> Json {
    Json::Object(
        seq![
            Member { key: "type"@, value: Json::Str("url_citation"@) },
            Member {
                key: "url_citation"@,
                value: Json::Object(
                    seq![
                        Member { key: "url"@, value: Json::Str(c.url) },
                        Member { key: "title"@, value: Json::Str(c.title) },
                        Member { key: "content"@, value: Json::Str(c.snippet) },
                        Member { key: "start_index"@, value: Json::Number(position_text(c.start_index)) },
                        Member { key: "end_index"@, value: Json::Number(position_text(c.end_index)) },
                    ],
                ),
            },
        ],
    )
}

fn position_value(p: Option<usize>) -> (r: JsonValue)
    ensures
        r@ == Json::Number(position_text(p)),
{
    match p {
        Some(n) => JsonValue::Number(decimal_text(n as u64)),
        None => JsonValue::Number(decimal_text(0)),
    }
}

/// The annotation of one citation.
pub fn citation_to_annotation(c: &Citation) -> (r: JsonValue)
    ensures
        r@ == annotation_of(c@),
{
    let inner = vec![
        JsonMember::new("url", JsonValue::Str(c.url.clone())),
        JsonMember::new("title", JsonValue::Str(c.title.clone())),
        JsonMember::new("content", JsonValue::Str(c.snippet.clone())),
        JsonMember::new("start_index", position_value(c.start_index)),
        JsonMember::new("end_index", position_value(c.end_index)),
    ];
    let inner_v = JsonValue::object(inner);
    assert(member_views(inner@) =~= annotation_of(c@)->Object_0[1].value->Object_0);
    let outer = vec![
        JsonMember::new("type", JsonValue::string("url_citation")),
        JsonMember::new("url_citation", inner_v),
    ];
    assert(member_views(outer@) =~= annotation_of(c@)->Object_0);
    JsonValue::object(outer)
}

/// The OpenAI `url_citation` annotations of citations, one each, in order;
/// a missing position is written as 0.
pub fn citations_to_annotations(citations: &[Citation]) -> (r: Vec<JsonValue>)
    ensures
        r.len() == citations.len(),
        forall|i: int| 0 <= i < r.len() ==> (#[trigger] r@[i])@ == annotation_of(citations@[i]@),
{
    let mut out: Vec<JsonValue> = Vec::new();
    let mut i: usize = 0;
    while i < citations.len()
        invariant
            i <= citations.len(),
            out.len() == i,
            forall|j: int| 0 <= j < i ==> (#[trigger] out@[j])@ == annotation_of(citations@[j]@),
        decreases citations.len() - i,
    {
        out.push(citation_to_annotation(&citations[i]));
        i += 1;
    }
    out
}

/// A member's value, or null where it is missing.
pub open spec fn or_null(v: Option<Json>) -> Json {
    match v {
        Some(j) => j,
        None => Json::Null,
    }
}

/// The canonical web search item of an OpenAI `url_citation` annotation.
pub open spec fn search_item_of(c: Json) -> Json {
    Json::Object(
        seq![
            Member { key: "type"@, value: Json::Str("web_search_result"@) },
            Member { key: "url"@, value: or_null(c.get("url"@)) },
            Member { key: "title"@, value: or_null(c.get("title"@)) },
            Member { key: "snippet"@, value: or_null(c.get("content"@)) },
        ],
    )
}

/// The web search items of a list of annotations: one for each
/// `url_citation` annotation that has its `url_citation` object.
pub open spec fn search_items(anns: Seq<Json>) -> Seq<Json>
    decreases anns.len(),
{
    if anns.len() == 0 {
        seq![]
    } else {
        let rest = search_items(anns.drop_last());
        let a = anns.last();
        if a.get_str("type"@) == Some("url_citation"@) && a.get("url_citation"@) is Some {
            rest.push(search_item_of(a.get("url_citation"@)->0))
        } else {
            rest
        }
    }
}

fn member_or_null(v: &JsonValue, key: &str) -> (r: JsonValue)
    ensures
        r@ == or_null(v@.get(key@)),
{
    match v.get(key) {
        Some(x) => x.deep_copy(),
        None => JsonValue::Null,
    }
}

/// Converts OpenAI `url_citation` annotations to canonical web search items.
pub fn annotations_to_web_search_content(annotations: &[JsonValue]) -> (r: Vec<JsonValue>)
    ensures
        views(r@) == search_items(views(annotations@)),
{
    let ghost all = views(annotations@);
    let mut out: Vec<JsonValue> = Vec::new();
    let mut i: usize = 0;
    while i < annotations.len()
        invariant
            all == views(annotations@),
            i <= annotations.len(),
            views(out@) == search_items(all.take(i as int)),
        decreases annotations.len() - i,
    {
        assert(all.take(i + 1).drop_last() =~= all.take(i as int));
        assert(all.take(i + 1).last() == annotations@[i as int]@);
        let ann = &annotations[i];
        let is_citation = match ann.get_str("type") {
            Some(t) => same_text(t, "url_citation"),
            None => false,
        };
        if is_citation {
            match ann.get("url_citation") {
                Some(c) => {
                    let members = vec![
                        JsonMember::new("type", JsonValue::string("web_search_result")),
                        JsonMember::new("url", member_or_null(c, "url")),
                        JsonMember::new("title", member_or_null(c, "title")),
                        JsonMember::new("snippet", member_or_null(c, "content")),
                    ];
                    assert(member_views(members@) =~= search_item_of(c@)->Object_0);
                    let ghost before = out@;
                    out.push(JsonValue::object(members));
                    assert(views(out@) =~= views(before).push(search_item_of(c@)));
                },
                None => {},
            }
        }
        i += 1;
    }
    assert(all.take(annotations.len() as int) =~= all);
    out
}

} // verus!

verus! {

/// A snippet cut to its first 200 characters.
pub open spec fn shortened(s: Seq<char>) -> Seq<char> {
    if s.len() > 200 {
        s.take(200)
    } else {
        s
    }
}

/// A text with each newline replaced by a space.
pub open spec fn spaced(s: Seq<char>) -> Seq<char> {
    Seq::new(s.len(), |i: int| if s[i] == '\n' { ' ' } else { s[i] })
}

/// The Markdown item of citation number `n`.
pub open spec fn entry(n: nat, c: Cited) -> Seq<char> {
    decimal(n) + ". ["@ + c.title + "]("@ + c.url + ")\n"@ + if c.snippet.len() == 0 {
        seq![]
    } else {
        "   > "@ + spaced(shortened(c.snippet)) + "\n"@
    }
}

/// The Markdown items of citations, numbered from 1.
pub open spec fn entries(cs: Seq<Cited>) -> Seq<char>
    decreases cs.len(),
{
    if cs.len() == 0 {
        seq![]
    } else {
        entries(cs.drop_last()) + entry(cs.len() as nat, cs.last())
    }
}

/// The Markdown section that lists citations: empty where there are none.
pub open spec fn markdown(cs: Seq<Cited>, query: Option<Seq<char>>) -> Seq<char> {
    if cs.len() == 0 {
        seq![]
    } else {
        "\n\n---\n"@ + (match query {
            Some(q) => "**🔍 已为您搜索：** "@ + q + "\n\n"@,
            None => seq![],
        }) + "**📚 来源：**\n"@ + entries(cs)
    }
}

fn push_spaced_snippet(out: &mut Vec<char>, snippet: &str)
    ensures
        final(out)@ == old(out)@ + spaced(shortened(snippet@)),
{
    let cs = chars_of(snippet);
    let ghost start = out@;
    let ghost sh = shortened(snippet@);
    let limit: usize = if cs.len() > 200 { 200 } else { cs.len() };
    let mut i: usize = 0;
    while i < limit
        invariant
            cs@ == snippet@,
            limit <= cs.len(),
            limit == if cs.len() > 200 { 200 } else { cs.len() },
            i <= limit,
            out@ == start + spaced(cs@.take(i as int)),
        decreases limit - i,
    {
        let c = if cs[i] == '\n' { ' ' } else { cs[i] };
        out.push(c);
        i += 1;
        assert(out@ =~= start + spaced(cs@.take(i as int)));
    }
    if cs.len() > 200 {
        assert(spaced(sh) =~= spaced(cs@.take(200)));
    } else {
        assert(cs@.take(i as int) =~= sh);
    }
}

fn push_entry(out: &mut Vec<char>, n: u64, c: &Citation)
    ensures
        final(out)@ == old(out)@ + entry(n as nat, c@),
{
    let num = decimal_text(n);
    push_str(out, num.as_str());
    push_str(out, ". [");
    push_str(out, c.title.as_str());
    push_str(out, "](");
    push_str(out, c.url.as_str());
    push_str(out, ")\n");
    if !c.snippet.as_str().is_empty() {
        push_str(out, "   > ");
        push_spaced_snippet(out, c.snippet.as_str());
        push_str(out, "\n");
    }
}

/// Formats citations as a Markdown section: a rule, the query where there
/// is one, a heading, and one numbered item per citation with its snippet
/// cut to 200 characters on one line. No citations give the empty text.
pub fn format_citations_as_markdown(citations: &[Citation], search_query: Option<&str>) -> (r: String)
    ensures
        r@ == markdown(cited_all(citations@), match search_query {
            Some(q) => Some(q@),
            None => None,
        }),
{
    if citations.len() == 0 {
        return String::new();
    }
    let mut md = chars_of("\n\n---\n");
    match search_query {
        Some(q) => {
            push_str(&mut md, "**🔍 已为您搜索：** ");
            push_str(&mut md, q);
            push_str(&mut md, "\n\n");
        },
        None => {},
    }
    push_str(&mut md, "**📚 来源：**\n");
    let ghost head = md@;
    let ghost all = cited_all(citations@);
    let mut i: usize = 0;
    while i < citations.len()
        invariant
            all == cited_all(citations@),
            i <= citations.len(),
            md@ == head + entries(all.take(i as int)),
        decreases citations.len() - i,
    {
        assert(all.take(i + 1).drop_last() =~= all.take(i as int));
        assert(all.take(i + 1).last() == citations@[i as int]@);
        push_entry(&mut md, (i + 1) as u64, &citations[i]);
        i += 1;
        assert(md@ =~= head + entries(all.take(i as int)));
    }
    assert(all.take(citations.len() as int) =~= all);
    text_of(&md)
}

/// The text followed by the Markdown section of the citations; the text alone
/// where there are none.
pub fn merge_citations_into_text(text: &str, citations: &[Citation], search_query: Option<&str>) -> (r: String)
    ensures
        r@ == text@ + markdown(cited_all(citations@), match search_query {
            Some(q) => Some(q@),
            None => None,
        }),
{
    if citations.len() == 0 {
        let r = copy_str(text);
        assert(r@ =~= text@ + Seq::<char>::empty());
        return r;
    }
    let md = format_citations_as_markdown(citations, search_query);
    crate::text::concat(text, md.as_str())
}

} // verus!
