//! A plain JSON value and its mathematical model.
use vstd::prelude::*;

use crate::text::{same_text, copy_str};

verus! {

broadcast use vstd::std_specs::vec::group_vec_axioms;

/// The model of a JSON value: objects keep their members in order.
pub enum Json {
    Null,
    Bool(bool),
    Number(Seq<char>),
    Str(Seq<char>),
    Array(Seq<Json>),
    Object(Seq<Member>),
}

/// The model of one member of a JSON object.
pub struct Member {
    pub key: Seq<char>,
    pub value: Json,
}

/// A JSON value. A number is held as its JSON text; an object keeps its
/// members in the order in which they were written.
#[derive(Debug, PartialEq, Eq)]
pub enum JsonValue {
    Null,
    Bool(bool),
    Number(String),
    Str(String),
    Array(Vec<JsonValue>),
    Object(Vec<JsonMember>),
}

/// One member of a JSON object.
#[derive(Debug, PartialEq, Eq)]
pub struct JsonMember {
    pub key: String,
    pub value: JsonValue,
}

impl View for JsonValue {
    type V = Json;

    open spec fn view(&self) -> Json
        decreases self,
    {
        match self {
            JsonValue::Null => Json::Null,
            JsonValue::Bool(b) => Json::Bool(*b),
            JsonValue::Number(n) => Json::Number(n@),
            JsonValue::Str(s) => Json::Str(s@),
            JsonValue::Array(items) => Json::Array(
                Seq::new(
                    items.len() as nat,
                    |i: int|
                        if 0 <= i < items.len() {
                            items[i].view()
                        } else {
                            Json::Null
                        },
                ),
            ),
            JsonValue::Object(members) => Json::Object(
                Seq::new(
                    members.len() as nat,
                    |i: int|
                        if 0 <= i < members.len() {
                            Member { key: members[i].key@, value: members[i].value.view() }
                        } else {
                            Member { key: Seq::empty(), value: Json::Null }
                        },
                ),
            ),
        }
    }
}

impl View for JsonMember {
    type V = Member;

    open spec fn view(&self) -> Member {
        Member { key: self.key@, value: self.value@ }
    }
}

/// The models of a sequence of values.
pub open spec fn views(s: Seq<JsonValue>) -> Seq<Json> {
    Seq::new(s.len(), |i: int| s[i]@)
}

/// The models of a sequence of members.
pub open spec fn member_views(s: Seq<JsonMember>) -> Seq<Member> {
    Seq::new(s.len(), |i: int| s[i]@)
}

pub proof fn lemma_array_view(items: Vec<JsonValue>)
    ensures
        JsonValue::Array(items)@ == Json::Array(views(items@)),
{
    assert(JsonValue::Array(items)@->Array_0 =~= views(items@));
}

pub proof fn lemma_object_view(members: Vec<JsonMember>)
    ensures
        JsonValue::Object(members)@ == Json::Object(member_views(members@)),
{
    let a = JsonValue::Object(members)@->Object_0;
    assert forall|j: int| 0 <= j < members.len() implies #[trigger] a[j] == member_views(
        members@,
    )[j] by {
        assert(a[j] == Member { key: members@[j].key@, value: members@[j].value@ });
    }
    assert(a =~= member_views(members@));
}

/// The value of the first member named `k`.
pub open spec fn lookup(ms: Seq<Member>, k: Seq<char>) -> Option<Json>
    decreases ms.len(),
{
    if ms.len() == 0 {
        None
    } else if ms[0].key == k {
        Some(ms[0].value)
    } else {
        lookup(ms.drop_first(), k)
    }
}

/// Whether some member is named `k`.
pub open spec fn has_key(ms: Seq<Member>, k: Seq<char>) -> bool {
    exists|i: int| 0 <= i < ms.len() && (#[trigger] ms[i]).key == k
}

/// The members that are not named `k`, in order.
pub open spec fn without_key(ms: Seq<Member>, k: Seq<char>) -> Seq<Member>
    decreases ms.len(),
{
    if ms.len() == 0 {
        ms
    } else if ms.last().key == k {
        without_key(ms.drop_last(), k)
    } else {
        without_key(ms.drop_last(), k).push(ms.last())
    }
}

pub proof fn lemma_lookup_some(ms: Seq<Member>, k: Seq<char>)
    ensures
        lookup(ms, k) is Some <==> has_key(ms, k),
    decreases ms.len(),
{
    if ms.len() > 0 {
        lemma_lookup_some(ms.drop_first(), k);
        if has_key(ms.drop_first(), k) {
            let i = choose|i: int| 0 <= i < ms.drop_first().len() && (#[trigger] ms.drop_first()[i]).key == k;
            assert(ms[i + 1].key == k);
        }
        if has_key(ms, k) && ms[0].key != k {
            let i = choose|i: int| 0 <= i < ms.len() && (#[trigger] ms[i]).key == k;
            assert(ms.drop_first()[i - 1].key == k);
        }
    }
}

pub proof fn lemma_without_key(ms: Seq<Member>, k: Seq<char>)
    ensures
        !has_key(without_key(ms, k), k),
        forall|j: Seq<char>| j != k ==> lookup(#[trigger] without_key(ms, k), j) == lookup(ms, j),
        !has_key(ms, k) ==> without_key(ms, k) == ms,
    decreases ms.len(),
{
    if ms.len() > 0 {
        let rest = ms.drop_last();
        lemma_without_key(rest, k);
        assert forall|j: Seq<char>| j != k implies lookup(#[trigger] without_key(ms, k), j)
            == lookup(ms, j) by {
            lemma_lookup_push(without_key(rest, k), ms.last(), j);
            lemma_lookup_push(rest, ms.last(), j);
            assert(rest.push(ms.last()) =~= ms);
        }
        if ms.last().key != k {
            let w = without_key(rest, k).push(ms.last());
            if has_key(w, k) {
                let i = choose|i: int| 0 <= i < w.len() && (#[trigger] w[i]).key == k;
                if i < w.len() - 1 {
                    assert(without_key(rest, k)[i].key == k);
                }
            }
        }
        if !has_key(ms, k) {
            assert(!has_key(rest, k)) by {
                if has_key(rest, k) {
                    let i = choose|i: int| 0 <= i < rest.len() && (#[trigger] rest[i]).key == k;
                    assert(ms[i].key == k);
                }
            }
            assert(ms.last() == ms[ms.len() - 1]);
            assert(rest.push(ms.last()) =~= ms);
        }
    }
}

pub proof fn lemma_lookup_push(ms: Seq<Member>, m: Member, k: Seq<char>)
    ensures
        lookup(ms.push(m), k) == if lookup(ms, k) is Some {
            lookup(ms, k)
        } else if m.key == k {
            Some(m.value)
        } else {
            None
        },
    decreases ms.len(),
{
    if ms.len() > 0 {
        assert(ms.push(m).drop_first() =~= ms.drop_first().push(m));
        assert(ms.push(m)[0] == ms[0]);
        lemma_lookup_push(ms.drop_first(), m, k);
    } else {
        assert(ms.push(m).drop_first() =~= Seq::<Member>::empty());
        assert(ms.push(m)[0] == m);
        assert(lookup(ms.push(m).drop_first(), k) is None);
        assert(lookup(ms, k) is None);
    }
}

/// The members with `k` set to `v`: every member named `k` takes the value
/// in place, and where there is none the member is added at the end.
pub open spec fn put(ms: Seq<Member>, k: Seq<char>, v: Json) -> Seq<Member> {
    if has_key(ms, k) {
        Seq::new(
            ms.len(),
            |i: int|
                if ms[i].key == k {
                    Member { key: k, value: v }
                } else {
                    ms[i]
                },
        )
    } else {
        ms.push(Member { key: k, value: v })
    }
}

/// Sets member `key` to `v` in place, or adds it at the end.
pub fn put_member(ms: &mut Vec<JsonMember>, key: &str, v: JsonValue)
    ensures
        member_views(final(ms)@) == put(member_views(old(ms)@), key@, v@),
{
    let ghost before = member_views(ms@);
    let mut found = false;
    let mut i: usize = 0;
    while i < ms.len()
        invariant
            ms.len() == before.len(),
            i <= ms.len(),
            found == exists|j: int| 0 <= j < i && (#[trigger] before[j]).key == key@,
            forall|j: int|
                0 <= j < i ==> (#[trigger] member_views(ms@)[j]) == if before[j].key == key@ {
                    Member { key: key@, value: v@ }
                } else {
                    before[j]
                },
            forall|j: int| i <= j < ms.len() ==> (#[trigger] member_views(ms@)[j]) == before[j],
        decreases ms.len() - i,
    {
        let ghost cur = ms@;
        assert(member_views(cur)[i as int] == before[i as int]);
        assert(member_views(cur)[i as int].key == cur[i as int].key@);
        if same_text(ms[i].key.as_str(), key) {
            let m = JsonMember { key: copy_str(key), value: v.deep_copy() };
            ms.set(i, m);
            found = true;
            assert(before[i as int].key == key@);
            assert(member_views(ms@)[i as int] == Member { key: key@, value: v@ });
        } else {
            assert(before[i as int].key != key@);
        }
        assert forall|j: int| 0 <= j < ms.len() && j != i implies #[trigger] member_views(ms@)[j]
            == member_views(cur)[j] by {
            assert(ms@[j] == cur[j]);
        }
        i += 1;
    }
    if found {
        assert(has_key(before, key@));
        assert(member_views(ms@) =~= put(before, key@, v@));
    } else {
        assert(!has_key(before, key@));
        let ghost cur = ms@;
        assert(member_views(cur) =~= before);
        ms.push(JsonMember { key: copy_str(key), value: v });
        assert forall|j: int| 0 <= j < cur.len() implies #[trigger] member_views(ms@)[j]
            == before[j] by {
            assert(ms@[j] == cur[j]);
        }
        assert(member_views(ms@) =~= put(before, key@, v@));
    }
}

/// Drops every member named `key`.
pub fn remove_member(ms: &mut Vec<JsonMember>, key: &str)
    ensures
        member_views(final(ms)@) == without_key(member_views(old(ms)@), key@),
{
    let ghost all = member_views(ms@);
    let mut out: Vec<JsonMember> = Vec::new();
    let mut i: usize = 0;
    while i < ms.len()
        invariant
            all == member_views(ms@),
            i <= ms.len(),
            member_views(out@) == without_key(all.take(i as int), key@),
        decreases ms.len() - i,
    {
        let ghost before = out@;
        assert(all.take(i + 1).drop_last() =~= all.take(i as int));
        assert(all.take(i + 1).last() == all[i as int]);
        if !same_text(ms[i].key.as_str(), key) {
            out.push(ms[i].deep_copy());
            assert(member_views(out@) =~= member_views(before).push(all[i as int]));
        }
        i += 1;
    }
    assert(all.take(ms.len() as int) =~= all);
    *ms = out;
}

/// The position of the first member named `key`.
pub fn find_member(ms: &Vec<JsonMember>, key: &str) -> (r: Option<usize>)
    ensures
        r matches Some(i) ==> i < ms.len() && ms@[i as int].key@ == key@ && lookup(member_views(ms@), key@) == Some(ms@[i as int].value@),
        r is None ==> !has_key(member_views(ms@), key@) && lookup(member_views(ms@), key@) is None,
{
    let ghost all = member_views(ms@);
    assert(all.subrange(0, all.len() as int) =~= all);
    let mut i: usize = 0;
    while i < ms.len()
        invariant
            all == member_views(ms@),
            i <= ms.len(),
            lookup(all, key@) == lookup(all.subrange(i as int, all.len() as int), key@),
            forall|j: int| 0 <= j < i ==> (#[trigger] all[j]).key != key@,
        decreases ms.len() - i,
    {
        let ghost rest = all.subrange(i as int, all.len() as int);
        assert(rest.drop_first() =~= all.subrange(i + 1, all.len() as int));
        assert(rest[0] == all[i as int]);
        if same_text(ms[i].key.as_str(), key) {
            return Some(i);
        }
        i += 1;
    }
    assert(all.subrange(i as int, all.len() as int) =~= Seq::<Member>::empty());
    None
}

impl Json {
    /// The value of member `k`, where this is an object that has one.
    pub open spec fn get(self, k: Seq<char>) -> Option<Json> {
        match self {
            Json::Object(ms) => lookup(ms, k),
            _ => None,
        }
    }

    /// The text of a string value.
    pub open spec fn as_str(self) -> Option<Seq<char>> {
        match self {
            Json::Str(s) => Some(s),
            _ => None,
        }
    }

    /// The text of member `k`, where it is a string.
    pub open spec fn get_str(self, k: Seq<char>) -> Option<Seq<char>> {
        match self.get(k) {
            Some(v) => v.as_str(),
            None => None,
        }
    }

    /// The items of member `k`, where it is an array.
    pub open spec fn get_array(self, k: Seq<char>) -> Option<Seq<Json>> {
        match self.get(k) {
            Some(Json::Array(items)) => Some(items),
            _ => None,
        }
    }
}

/// Builds the member model `k: v`.
pub open spec fn member(k: Seq<char>, v: Json) -> Member {
    Member { key: k, value: v }
}

impl JsonMember {
    /// The member `key: value`.
    pub fn new(key: &str, value: JsonValue) -> (r: JsonMember)
        ensures
            r@ == member(key@, value@),
    {
        JsonMember { key: copy_str(key), value }
    }

    /// A copy of this member.
    pub fn deep_copy(&self) -> (r: JsonMember)
        ensures
            r@ == self@,
    {
        JsonMember { key: self.key.clone(), value: self.value.deep_copy() }
    }
}

impl JsonValue {
    /// A copy of this value, member for member.
    pub fn deep_copy(&self) -> (r: JsonValue)
        ensures
            r@ == self@,
        decreases self,
    {
        match self {
            JsonValue::Null => JsonValue::Null,
            JsonValue::Bool(b) => JsonValue::Bool(*b),
            JsonValue::Number(n) => JsonValue::Number(n.clone()),
            JsonValue::Str(s) => JsonValue::Str(s.clone()),
            JsonValue::Array(items) => {
                let mut out: Vec<JsonValue> = Vec::new();
                let mut i: usize = 0;
                while i < items.len()
                    invariant
                        *self == JsonValue::Array(*items),
                        i <= items.len(),
                        out.len() == i,
                        forall|j: int| 0 <= j < i ==> (#[trigger] out@[j])@ == items@[j]@,
                    decreases items.len() - i,
                {
                    proof {
                        assert(decreases_to!(*self => self->Array_0));
                        assert(decreases_to!(self->Array_0 => self->Array_0[i as int]));
                    }
                    out.push(items[i].deep_copy());
                    i += 1;
                }
                proof {
                    lemma_array_view(out);
                    lemma_array_view(*items);
                    assert(views(out@) =~= views(items@));
                }
                JsonValue::Array(out)
            },
            JsonValue::Object(members) => {
                let mut out: Vec<JsonMember> = Vec::new();
                let mut i: usize = 0;
                while i < members.len()
                    invariant
                        *self == JsonValue::Object(*members),
                        i <= members.len(),
                        out.len() == i,
                        forall|j: int| 0 <= j < i ==> (#[trigger] out@[j])@ == members@[j]@,
                    decreases members.len() - i,
                {
                    proof {
                        assert(decreases_to!(*self => self->Object_0));
                        assert(decreases_to!(self->Object_0 => self->Object_0[i as int]));
                        assert(decreases_to!(self->Object_0[i as int] => self->Object_0[i as int].value));
                    }
                    out.push(
                        JsonMember { key: members[i].key.clone(), value: members[i].value.deep_copy() },
                    );
                    i += 1;
                }
                proof {
                    lemma_object_view(out);
                    lemma_object_view(*members);
                    assert(member_views(out@) =~= member_views(members@));
                }
                JsonValue::Object(out)
            },
        }
    }

    /// A string value.
    pub fn string(s: &str) -> (r: JsonValue)
        ensures
            r@ == Json::Str(s@),
    {
        JsonValue::Str(copy_str(s))
    }

    /// An object of the given members.
    pub fn object(members: Vec<JsonMember>) -> (r: JsonValue)
        ensures
            r@ == Json::Object(member_views(members@)),
    {
        proof {
            lemma_object_view(members);
        }
        JsonValue::Object(members)
    }

    /// An array of the given items.
    pub fn array(items: Vec<JsonValue>) -> (r: JsonValue)
        ensures
            r@ == Json::Array(views(items@)),
    {
        proof {
            lemma_array_view(items);
        }
        JsonValue::Array(items)
    }

    /// Whether this is an object.
    pub fn is_object(&self) -> (r: bool)
        ensures
            r == (self@ is Object),
    {
        matches!(self, JsonValue::Object(_))
    }

    /// The text of a string value.
    pub fn as_str(&self) -> (r: Option<&str>)
        ensures
            r matches Some(s) ==> self@.as_str() == Some(s@),
            r is None ==> self@.as_str() is None,
    {
        match self {
            JsonValue::Str(s) => Some(s.as_str()),
            _ => None,
        }
    }

    /// The value of member `key`, where this is an object that has one.
    pub fn get(&self, key: &str) -> (r: Option<&JsonValue>)
        ensures
            r matches Some(v) ==> self@.get(key@) == Some(v@),
            r is None ==> self@.get(key@) is None,
    {
        match self {
            JsonValue::Object(members) => {
                proof {
                    lemma_object_view(*members);
                }
                let ghost ms = member_views(members@);
                assert(ms.subrange(0, ms.len() as int) =~= ms);
                let mut i: usize = 0;
                while i < members.len()
                    invariant
                        ms == member_views(members@),
                        self@ == Json::Object(ms),
                        i <= members.len(),
                        lookup(ms, key@) == lookup(ms.subrange(i as int, ms.len() as int), key@),
                    decreases members.len() - i,
                {
                    let ghost rest = ms.subrange(i as int, ms.len() as int);
                    assert(rest.drop_first() =~= ms.subrange(i + 1, ms.len() as int));
                    assert(rest[0] == members@[i as int]@);
                    if same_text(members[i].key.as_str(), key) {
                        return Some(&members[i].value);
                    }
                    i += 1;
                }
                None
            },
            _ => None,
        }
    }

    /// The text of member `key`, where it is a string.
    pub fn get_str(&self, key: &str) -> (r: Option<&str>)
        ensures
            r matches Some(s) ==> self@.get_str(key@) == Some(s@),
            r is None ==> self@.get_str(key@) is None,
    {
        match self.get(key) {
            Some(v) => v.as_str(),
            None => None,
        }
    }

    /// The items of member `key`, where it is an array.
    pub fn get_array(&self, key: &str) -> (r: Option<&Vec<JsonValue>>)
        ensures
            r matches Some(items) ==> self@.get_array(key@) == Some(views(items@)),
            r is None ==> self@.get_array(key@) is None,
    {
        match self.get(key) {
            Some(v) => match v {
                JsonValue::Array(items) => {
                    proof {
                        lemma_array_view(*items);
                    }
                    Some(items)
                },
                _ => None,
            },
            None => None,
        }
    }
}

impl Clone for JsonValue {
    fn clone(&self) -> Self {
        self.deep_copy()
    }
}

impl Clone for JsonMember {
    fn clone(&self) -> Self {
        self.deep_copy()
    }
}

} // verus!

verus! {

/// A value with every object member named `k` removed, at every depth.
pub open spec fn strip_key(j: Json, k: Seq<char>) -> Json
    decreases j, 1nat,
{
    match j {
        Json::Array(xs) => Json::Array(strip_items(xs, k)),
        Json::Object(ms) => Json::Object(without_key(strip_members(ms, k), k)),
        _ => j,
    }
}

/// Items with `k` removed from each, at every depth.
pub open spec fn strip_items(xs: Seq<Json>, k: Seq<char>) -> Seq<Json>
    decreases xs, 0nat,
{
    Seq::new(xs.len(), |i: int| if 0 <= i < xs.len() { strip_key(xs[i], k) } else { Json::Null })
}

/// Members with `k` removed from each value, at every depth.
pub open spec fn strip_members(ms: Seq<Member>, k: Seq<char>) -> Seq<Member>
    decreases ms, 0nat,
{
    Seq::new(
        ms.len(),
        |i: int|
            if 0 <= i < ms.len() {
                Member { key: ms[i].key, value: strip_key(ms[i].value, k) }
            } else {
                Member { key: Seq::empty(), value: Json::Null }
            },
    )
}

/// Whether no object of a value, at any depth, has a member named `k`.
pub open spec fn free_of(j: Json, k: Seq<char>) -> bool
    decreases j,
{
    match j {
        Json::Array(xs) => forall|i: int| 0 <= i < xs.len() ==> free_of(#[trigger] xs[i], k),
        Json::Object(ms) => !has_key(ms, k) && forall|i: int| 0 <= i < ms.len() ==> free_of(#[trigger] ms[i].value, k),
        _ => true,
    }
}

pub proof fn lemma_without_key_subset(ms: Seq<Member>, k: Seq<char>)
    ensures
        forall|i: int| 0 <= i < without_key(ms, k).len() ==> exists|j: int| 0 <= j < ms.len() && ms[j] == #[trigger] without_key(ms, k)[i],
    decreases ms.len(),
{
    if ms.len() > 0 {
        let rest = ms.drop_last();
        lemma_without_key_subset(rest, k);
        let w = without_key(ms, k);
        assert forall|i: int| 0 <= i < w.len() implies exists|j: int| 0 <= j < ms.len() && ms[j] == #[trigger] w[i] by {
            if ms.last().key != k && i == w.len() - 1 {
                assert(ms[ms.len() - 1] == w[i]);
            } else {
                assert(w[i] == without_key(rest, k)[i]);
                let j = choose|j: int| 0 <= j < rest.len() && rest[j] == without_key(rest, k)[i];
                assert(ms[j] == rest[j]);
            }
        }
    }
}

/// Stripping a key leaves no member of that name at any depth.
pub proof fn lemma_strip_key_frees(j: Json, k: Seq<char>)
    ensures
        free_of(strip_key(j, k), k),
    decreases j,
{
    match j {
        Json::Array(xs) => {
            let s = strip_items(xs, k);
            assert forall|i: int| 0 <= i < s.len() implies free_of(#[trigger] s[i], k) by {
                lemma_strip_key_frees(xs[i], k);
            }
        },
        Json::Object(ms) => {
            let sm = strip_members(ms, k);
            let w = without_key(sm, k);
            lemma_without_key(sm, k);
            lemma_without_key_subset(sm, k);
            assert forall|i: int| 0 <= i < w.len() implies free_of(#[trigger] w[i].value, k) by {
                let jj = choose|jj: int| 0 <= jj < sm.len() && sm[jj] == w[i];
                lemma_strip_key_frees(ms[jj].value, k);
            }
        },
        _ => {},
    }
}

impl JsonValue {
    /// This value with every object member named `k` removed, at every depth.
    pub fn strip_key(&self, k: &str) -> (r: JsonValue)
        ensures
            r@ == strip_key(self@, k@),
        decreases self,
    {
        match self {
            JsonValue::Array(items) => {
                let mut out: Vec<JsonValue> = Vec::new();
                let mut i: usize = 0;
                while i < items.len()
                    invariant
                        *self == JsonValue::Array(*items),
                        i <= items.len(),
                        out.len() == i,
                        forall|j: int| 0 <= j < i ==> (#[trigger] out@[j])@ == strip_key(items@[j]@, k@),
                    decreases items.len() - i,
                {
                    proof {
                        assert(decreases_to!(*self => self->Array_0));
                        assert(decreases_to!(self->Array_0 => self->Array_0[i as int]));
                    }
                    out.push(items[i].strip_key(k));
                    i += 1;
                }
                proof {
                    lemma_array_view(out);
                    lemma_array_view(*items);
                    assert(views(out@) =~= strip_items(views(items@), k@));
                }
                JsonValue::Array(out)
            },
            JsonValue::Object(members) => {
                let mut out: Vec<JsonMember> = Vec::new();
                let mut i: usize = 0;
                while i < members.len()
                    invariant
                        *self == JsonValue::Object(*members),
                        i <= members.len(),
                        out.len() == i,
                        forall|j: int| 0 <= j < i ==> (#[trigger] out@[j])@ == (Member {
                            key: members@[j].key@,
                            value: strip_key(members@[j].value@, k@),
                        }),
                    decreases members.len() - i,
                {
                    proof {
                        assert(decreases_to!(*self => self->Object_0));
                        assert(decreases_to!(self->Object_0 => self->Object_0[i as int]));
                        assert(decreases_to!(self->Object_0[i as int] => self->Object_0[i as int].value));
                    }
                    out.push(JsonMember { key: members[i].key.clone(), value: members[i].value.strip_key(k) });
                    i += 1;
                }
                proof {
                    lemma_object_view(*members);
                    assert(member_views(out@) =~= strip_members(member_views(members@), k@));
                }
                remove_member(&mut out, k);
                proof {
                    lemma_object_view(out);
                }
                JsonValue::Object(out)
            },
            _ => self.deep_copy(),
        }
    }
}

} // verus!
