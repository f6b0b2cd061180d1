//! Per-tool renaming of argument keys.
use vstd::prelude::*;

use crate::json::{
    has_key, lemma_lookup_some, lemma_object_view, lemma_without_key, lookup, member_views,
    without_key, Json, JsonMember, JsonValue, Member,
};
use crate::text::{copy_str, same_text};

verus! {

broadcast use vstd::std_specs::vec::group_vec_axioms;

/// A renaming of one argument key.
pub struct Rename {
    pub from: Seq<char>,
    pub to: Seq<char>,
}

/// The renaming that a tool's arguments get on their way upstream.
pub open spec fn rename_rule(tool: Seq<char>) -> Option<Rename> {
    if tool == "Grep"@ || tool == "Glob"@ {
        Some(Rename { from: "query"@, to: "pattern"@ })
    } else if tool == "Read"@ || tool == "Write"@ || tool == "Edit"@ {
        Some(Rename { from: "path"@, to: "file_path"@ })
    } else if tool == "ListDir"@ || tool == "LS"@ {
        Some(Rename { from: "path"@, to: "directory"@ })
    } else if tool == "web_search"@ {
        Some(Rename { from: "q"@, to: "query"@ })
    } else {
        None
    }
}

/// The members with each member named `from` renamed to `to`, in place.
pub open spec fn rename_key(ms: Seq<Member>, from: Seq<char>, to: Seq<char>) -> Seq<Member> {
    Seq::new(
        ms.len(),
        |i: int|
            if ms[i].key == from {
                Member { key: to, value: ms[i].value }
            } else {
                ms[i]
            },
    )
}

/// The members after renaming `from` to `to`: where `to` is already there,
/// `from` is dropped and `to` keeps its value.
pub open spec fn renamed(ms: Seq<Member>, from: Seq<char>, to: Seq<char>) -> Seq<Member> {
    if !has_key(ms, from) {
        ms
    } else if has_key(ms, to) {
        without_key(ms, from)
    } else {
        rename_key(ms, from, to)
    }
}

/// The arguments of `tool` after its renaming; anything but an object, and the
/// arguments of a tool without a renaming, stay as they are.
pub open spec fn remapped(tool: Seq<char>, args: Json) -> Json {
    match args {
        Json::Object(ms) => match rename_rule(tool) {
            Some(r) => Json::Object(renamed(ms, r.from, r.to)),
            None => args,
        },
        _ => args,
    }
}

fn rule_of(tool_name: &str) -> (r: Option<(&'static str, &'static str)>)
    ensures
        r matches Some((f, t)) ==> rename_rule(tool_name@) == Some(Rename { from: f@, to: t@ }),
        r is None ==> rename_rule(tool_name@) is None,
{
    if same_text(tool_name, "Grep") || same_text(tool_name, "Glob") {
        Some(("query", "pattern"))
    } else if same_text(tool_name, "Read") || same_text(tool_name, "Write") || same_text(
        tool_name,
        "Edit",
    ) {
        Some(("path", "file_path"))
    } else if same_text(tool_name, "ListDir") || same_text(tool_name, "LS") {
        Some(("path", "directory"))
    } else if same_text(tool_name, "web_search") {
        Some(("q", "query"))
    } else {
        None
    }
}

/// Whether some member is named `key`.
pub fn has_member(members: &Vec<JsonMember>, key: &str) -> (r: bool)
    ensures
        r == has_key(member_views(members@), key@),
{
    let ghost ms = member_views(members@);
    let mut i: usize = 0;
    while i < members.len()
        invariant
            ms == member_views(members@),
            i <= members.len(),
            forall|j: int| 0 <= j < i ==> (#[trigger] ms[j]).key != key@,
        decreases members.len() - i,
    {
        if same_text(members[i].key.as_str(), key) {
            assert(ms[i as int].key == key@);
            return true;
        }
        i += 1;
    }
    false
}

fn rename_members(members: &Vec<JsonMember>, from: &str, to: &str) -> (r: Vec<JsonMember>)
    ensures
        member_views(r@) == renamed(member_views(members@), from@, to@),
{
    let ghost ms = member_views(members@);
    if !has_member(members, from) {
        return copy_members(members);
    }
    let drop_from = has_member(members, to);
    let mut out: Vec<JsonMember> = Vec::new();
    let mut i: usize = 0;
    while i < members.len()
        invariant
            ms == member_views(members@),
            i <= members.len(),
            drop_from ==> member_views(out@) == without_key(ms.take(i as int), from@),
            !drop_from ==> member_views(out@) == rename_key(ms, from@, to@).take(i as int),
        decreases members.len() - i,
    {
        let ghost before = out@;
        assert(ms.take(i + 1).drop_last() =~= ms.take(i as int));
        assert(ms.take(i + 1).last() == ms[i as int]);
        if same_text(members[i].key.as_str(), from) {
            if !drop_from {
                out.push(JsonMember { key: copy_str(to), value: members[i].value.deep_copy() });
            }
        } else {
            out.push(members[i].deep_copy());
        }
        assert(member_views(out@).drop_last() =~= member_views(before) || member_views(out@)
            =~= member_views(before));
        if drop_from {
            assert(member_views(out@) =~= without_key(ms.take(i + 1), from@));
        } else {
            assert(member_views(out@) =~= rename_key(ms, from@, to@).take(i + 1));
        }
        i += 1;
    }
    assert(ms.take(members.len() as int) =~= ms);
    assert(rename_key(ms, from@, to@).take(members.len() as int) =~= rename_key(ms, from@, to@));
    out
}

fn copy_members(members: &Vec<JsonMember>) -> (r: Vec<JsonMember>)
    ensures
        member_views(r@) == member_views(members@),
{
    let mut out: Vec<JsonMember> = Vec::new();
    let mut i: usize = 0;
    while i < members.len()
        invariant
            i <= members.len(),
            out.len() == i,
            forall|j: int| 0 <= j < i ==> (#[trigger] out@[j])@ == members@[j]@,
        decreases members.len() - i,
    {
        out.push(members[i].deep_copy());
        i += 1;
    }
    assert(member_views(out@) =~= member_views(members@));
    out
}

/// Renames argument keys of a tool call on their way upstream: `Grep` and
/// `Glob` take `pattern` for `query`, `Read`, `Write` and `Edit` take
/// `file_path` for `path`, `ListDir` and `LS` take `directory` for `path`,
/// `web_search` takes `query` for `q`.
pub fn remap_function_call_args(tool_name: &str, args: &mut JsonValue)
    ensures
        final(args)@ == remapped(tool_name@, old(args)@),
{
    match rule_of(tool_name) {
        None => {},
        Some((from, to)) => {
            if let JsonValue::Object(members) = args {
                proof {
                    lemma_object_view(*members);
                }
                let out = rename_members(members, from, to);
                proof {
                    lemma_object_view(out);
                }
                *members = out;
            }
        },
    }
}

/// Applies the renaming of a tool's arguments to a tool-use input.
pub fn remap_tool_use(name: &str, input: &mut JsonValue)
    ensures
        final(input)@ == remapped(name@, old(input)@),
{
    remap_function_call_args(name, input);
}

/// Tool results keep the shape that their tool gave them: nothing is renamed.
pub fn remap_tool_result_args(tool_use_id: &str, args: &mut JsonValue)
    ensures
        *final(args) == *old(args),
{
}

/// Renames the arguments of a tool call that an OpenAI-dialect client sent,
/// by the same table.
pub fn remap_oai_to_claude_args(tool_name: &str, args: &mut JsonValue)
    ensures
        final(args)@ == remapped(tool_name@, old(args)@),
{
    remap_function_call_args(tool_name, args);
}

proof fn lemma_rule_distinct(tool: Seq<char>)
    requires
        rename_rule(tool) is Some,
    ensures
        rename_rule(tool)->0.from != rename_rule(tool)->0.to,
{
    reveal_strlit("query");
    reveal_strlit("pattern");
    reveal_strlit("path");
    reveal_strlit("file_path");
    reveal_strlit("directory");
    reveal_strlit("q");
    assert("query"@.len() != "pattern"@.len());
    assert("path"@.len() != "file_path"@.len());
    assert("path"@.len() != "directory"@.len());
    assert("q"@.len() != "query"@.len());
}

proof fn lemma_rename_key(ms: Seq<Member>, from: Seq<char>, to: Seq<char>, k: Seq<char>)
    requires
        from != to,
        !has_key(ms, to),
    ensures
        !has_key(rename_key(ms, from, to), from),
        lookup(rename_key(ms, from, to), to) == lookup(ms, from),
        k != from && k != to ==> lookup(rename_key(ms, from, to), k) == lookup(ms, k),
    decreases ms.len(),
{
    let r = rename_key(ms, from, to);
    if has_key(r, from) {
        let i = choose|i: int| 0 <= i < r.len() && (#[trigger] r[i]).key == from;
        assert(r[i].key == from);
    }
    if ms.len() > 0 {
        assert(!has_key(ms.drop_first(), to)) by {
            if has_key(ms.drop_first(), to) {
                let i = choose|i: int|
                    0 <= i < ms.drop_first().len() && (#[trigger] ms.drop_first()[i]).key == to;
                assert(ms[i + 1].key == to);
            }
        }
        lemma_rename_key(ms.drop_first(), from, to, k);
        assert(r.drop_first() =~= rename_key(ms.drop_first(), from, to));
        assert(ms[0].key != to);
    }
}

/// A tool's arguments that hold the source key of its renaming and not the
/// destination key are forwarded with the value under the destination key,
/// without the source key, and with every other member as it was.
pub proof fn lemma_remap_moves_source_to_destination(tool: Seq<char>, args: Json, k: Seq<char>)
    requires
        rename_rule(tool) is Some,
        args is Object,
        has_key(args->Object_0, rename_rule(tool)->0.from),
        !has_key(args->Object_0, rename_rule(tool)->0.to),
    ensures
        ({
            let r = rename_rule(tool)->0;
            let out = remapped(tool, args);
            &&& out is Object
            &&& !has_key(out->Object_0, r.from)
            &&& out.get(r.to) == args.get(r.from)
            &&& out.get(r.to) is Some
            &&& (k != r.from && k != r.to ==> out.get(k) == args.get(k))
        }),
{
    let r = rename_rule(tool)->0;
    let ms = args->Object_0;
    lemma_rule_distinct(tool);
    lemma_rename_key(ms, r.from, r.to, k);
    lemma_lookup_some(ms, r.from);
}

/// Applying the renaming twice gives what applying it once gives.
pub proof fn lemma_remap_idempotent(tool: Seq<char>, args: Json)
    ensures
        remapped(tool, remapped(tool, args)) == remapped(tool, args),
{
    match args {
        Json::Object(ms) => match rename_rule(tool) {
            Some(r) => {
                lemma_rule_distinct(tool);
                if has_key(ms, r.from) {
                    if has_key(ms, r.to) {
                        lemma_without_key(ms, r.from);
                    } else {
                        lemma_rename_key(ms, r.from, r.to, r.from);
                    }
                }
            },
            None => {},
        },
        _ => {},
    }
}

} // verus!
