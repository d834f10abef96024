//! Preparing a JSON schema for the model API's strict structured output.

use crate::agent::confirmation::{lemma_upsert_at, lemma_upsert_end, upsert};
use crate::text::str_equal;
use vstd::prelude::*;
use vstd::string::*;

verus! {

/// A JSON document as the schema code reads it. Numbers are kept as their
/// text; object members keep their order.
pub enum JsonValue {
    Null,
    Bool(bool),
    Number(String),
    String(String),
    Array(Vec<JsonValue>),
    Object(Vec<(String, JsonValue)>),
}

/// The abstract value of a JSON document.
pub enum JsonView {
    Null,
    Bool(bool),
    Number(Seq<char>),
    Str(Seq<char>),
    Array(Seq<JsonView>),
    Object(Seq<(Seq<char>, JsonView)>),
}

/// The abstract value of a JSON document.
pub open spec fn json_view(v: JsonValue) -> JsonView
    decreases v, 0nat,
{
    match v {
        JsonValue::Null => JsonView::Null,
        JsonValue::Bool(b) => JsonView::Bool(b),
        JsonValue::Number(n) => JsonView::Number(n@),
        JsonValue::String(s) => JsonView::Str(s@),
        JsonValue::Array(items) => JsonView::Array(items_view(items@)),
        JsonValue::Object(members) => JsonView::Object(members_view(members@)),
    }
}

/// The abstract values of array items.
pub open spec fn items_view(items: Seq<JsonValue>) -> Seq<JsonView>
    decreases items, items.len(),
{
    if items.len() == 0 {
        Seq::empty()
    } else {
        items_view(items.drop_last()).push(json_view(items.last()))
    }
}

/// The abstract values of object members.
pub open spec fn members_view(members: Seq<(String, JsonValue)>) -> Seq<(Seq<char>, JsonView)>
    decreases members, members.len(),
{
    if members.len() == 0 {
        Seq::empty()
    } else {
        members_view(members.drop_last()).push((members.last().0@, json_view(members.last().1)))
    }
}

/// The value of the first member named `key`.
pub open spec fn member_value(members: Seq<(Seq<char>, JsonView)>, key: Seq<char>) -> Option<JsonView>
    decreases members.len(),
{
    if members.len() == 0 {
        None
    } else if members[0].0 == key {
        Some(members[0].1)
    } else {
        member_value(members.drop_first(), key)
    }
}

/// The member names as JSON strings.
pub open spec fn names_as_strings(members: Seq<(Seq<char>, JsonView)>) -> Seq<JsonView> {
    Seq::new(members.len(), |i: int| JsonView::Str(members[i].0))
}

/// A schema made strict: every object node whose `type` is `object` gets
/// `additionalProperties: false` and a `required` list naming every key of its
/// `properties`; all nested values are treated alike.
pub open spec fn strict_view(v: JsonView) -> JsonView
    decreases v, 0nat,
{
    match v {
        JsonView::Array(items) => JsonView::Array(strict_items(items)),
        JsonView::Object(members) => JsonView::Object(strict_object(members)),
        _ => v,
    }
}

/// Array items made strict.
pub open spec fn strict_items(items: Seq<JsonView>) -> Seq<JsonView>
    decreases items, 0nat,
{
    if items.len() == 0 {
        Seq::empty()
    } else {
        strict_items(items.drop_last()).push(strict_view(items.last()))
    }
}

/// Object members with their values made strict.
pub open spec fn strict_members(members: Seq<(Seq<char>, JsonView)>) -> Seq<(Seq<char>, JsonView)>
    decreases members, 0nat,
{
    if members.len() == 0 {
        Seq::empty()
    } else {
        strict_members(members.drop_last()).push((members.last().0, strict_view(members.last().1)))
    }
}

/// An object node made strict.
pub open spec fn strict_object(members: Seq<(Seq<char>, JsonView)>) -> Seq<(Seq<char>, JsonView)>
    decreases members, 1nat,
{
    let rec = strict_members(members);
    if member_value(members, "type"@) == Some(JsonView::Str("object"@)) {
        let m = upsert(rec, ("additionalProperties"@, JsonView::Bool(false)));
        match member_value(members, "properties"@) {
            Some(JsonView::Object(props)) => upsert(m, ("required"@, JsonView::Array(names_as_strings(props)))),
            _ => m,
        }
    } else {
        rec
    }
}

/// The position of the first member named `key`.
fn find_member(members: &Vec<(String, JsonValue)>, key: &str) -> (r: Option<usize>)
    ensures
        match r {
            Some(i) => i < members@.len() && member_value(members_view(members@), key@) == Some(
                json_view(members@[i as int].1),
            ) && members@[i as int].0@ == key@,
            None => member_value(members_view(members@), key@) is None,
        },
{
    let mut i: usize = 0;
    proof {
        assert(members_view(members@).skip(0) =~= members_view(members@));
        lemma_members_view_len(members@);
    }
    while i < members.len()
        invariant
            i <= members@.len(),
            members_view(members@).len() == members@.len(),
            member_value(members_view(members@), key@) == member_value(
                members_view(members@).skip(i as int),
                key@,
            ),
        decreases members.len() - i,
    {
        proof {
            lemma_members_view_index(members@, i as int);
            assert(members_view(members@).skip(i as int).drop_first() =~= members_view(members@).skip(i + 1));
        }
        if str_equal(members[i].0.as_str(), key) {
            return Some(i);
        }
        i = i + 1;
    }
    proof {
        assert(members_view(members@).skip(i as int).len() == 0);
    }
    None
}

proof fn lemma_members_view_len(s: Seq<(String, JsonValue)>)
    ensures
        members_view(s).len() == s.len(),
    decreases s.len(),
{
    if s.len() > 0 {
        lemma_members_view_len(s.drop_last());
    }
}

proof fn lemma_members_view_index(s: Seq<(String, JsonValue)>, i: int)
    requires
        0 <= i < s.len(),
    ensures
        members_view(s).len() == s.len(),
        members_view(s)[i] == (s[i].0@, json_view(s[i].1)),
    decreases s.len(),
{
    lemma_members_view_len(s);
    if i < s.len() - 1 {
        lemma_members_view_index(s.drop_last(), i);
    }
}

proof fn lemma_members_view_push(s: Seq<(String, JsonValue)>, x: (String, JsonValue))
    ensures
        members_view(s.push(x)) == members_view(s).push((x.0@, json_view(x.1))),
{
    assert(s.push(x).drop_last() =~= s);
}

proof fn lemma_items_view_push(s: Seq<JsonValue>, x: JsonValue)
    ensures
        items_view(s.push(x)) == items_view(s).push(json_view(x)),
{
    assert(s.push(x).drop_last() =~= s);
}

proof fn lemma_members_view_update(s: Seq<(String, JsonValue)>, i: int, x: (String, JsonValue))
    requires
        0 <= i < s.len(),
    ensures
        members_view(s.update(i, x)) == members_view(s).update(i, (x.0@, json_view(x.1))),
    decreases s.len(),
{
    lemma_members_view_len(s);
    lemma_members_view_len(s.update(i, x));
    if i < s.len() - 1 {
        assert(s.update(i, x).drop_last() =~= s.drop_last().update(i, x));
        lemma_members_view_update(s.drop_last(), i, x);
        assert(members_view(s.update(i, x)) =~= members_view(s).update(i, (x.0@, json_view(x.1))));
    } else {
        assert(s.update(i, x).drop_last() =~= s.drop_last());
        assert(members_view(s.update(i, x)) =~= members_view(s).update(i, (x.0@, json_view(x.1))));
    }
}

/// Writes member `key` with `value`, replacing the first member with that key.
fn upsert_json_member(members: &mut Vec<(String, JsonValue)>, key: &str, value: JsonValue)
    ensures
        members_view(final(members)@) == upsert(members_view(old(members)@), (key@, json_view(value))),
{
    let ghost m0 = members_view(members@);
    let ghost kv = (key@, json_view(value));
    proof {
        lemma_members_view_len(members@);
    }
    let mut i: usize = 0;
    while i < members.len()
        invariant
            i <= members@.len(),
            members_view(members@) == m0,
            m0 == members_view(old(members)@),
            m0.len() == members@.len(),
            kv == (key@, json_view(value)),
            forall|j: int| 0 <= j < i ==> (#[trigger] m0[j]).0 != key@,
        decreases members.len() - i,
    {
        proof {
            lemma_members_view_index(members@, i as int);
        }
        if str_equal(members[i].0.as_str(), key) {
            let ghost s0 = members@;
            members.set(i, (String::from_str(key), value));
            proof {
                lemma_upsert_at(m0, kv, i as int);
                lemma_members_view_update(s0, i as int, members@[i as int]);
                assert(members@ == s0.update(i as int, members@[i as int]));
            }
            return;
        }
        i = i + 1;
    }
    let ghost s0 = members@;
    members.push((String::from_str(key), value));
    proof {
        lemma_upsert_end(m0, kv);
        lemma_members_view_push(s0, members@.last());
        assert(members@ == s0.push(members@.last()));
    }
}

/// A JSON value made strict.
fn strict_value(v: &JsonValue) -> (r: JsonValue)
    ensures
        json_view(r) == strict_view(json_view(*v)),
    decreases v, 1nat,
{
    match v {
        JsonValue::Null => JsonValue::Null,
        JsonValue::Bool(b) => JsonValue::Bool(*b),
        JsonValue::Number(n) => JsonValue::Number(n.clone()),
        JsonValue::String(s) => JsonValue::String(s.clone()),
        JsonValue::Array(items) => JsonValue::Array(strict_item_list(items)),
        JsonValue::Object(members) => {
            let mut rec = strict_member_list(members);
            let ty = find_member(members, "type");
            let is_object_type = match ty {
                Some(i) => match &members[i].1 {
                    JsonValue::String(s) => str_equal(s.as_str(), "object"),
                    _ => false,
                },
                None => false,
            };
            proof {
                reveal_strlit("object");
            }
            if is_object_type {
                upsert_json_member(&mut rec, "additionalProperties", JsonValue::Bool(false));
                match find_member(members, "properties") {
                    Some(p) => match &members[p].1 {
                        JsonValue::Object(props) => {
                            let mut names: Vec<JsonValue> = Vec::new();
                            let mut k: usize = 0;
                            proof {
                                lemma_members_view_len(props@);
                            }
                            while k < props.len()
                                invariant
                                    k <= props@.len(),
                                    members_view(props@).len() == props@.len(),
                                    items_view(names@) == names_as_strings(members_view(props@)).take(k as int),
                                decreases props.len() - k,
                            {
                                proof {
                                    lemma_members_view_index(props@, k as int);
                                }
                                let ghost before = names@;
                                let name = JsonValue::String(props[k].0.clone());
                                names.push(name);
                                proof {
                                    lemma_items_view_push(before, name);
                                    assert(items_view(names@) =~= names_as_strings(members_view(props@)).take(k + 1));
                                }
                                k = k + 1;
                            }
                            proof {
                                assert(names_as_strings(members_view(props@)).take(k as int) =~= names_as_strings(members_view(props@)));
                            }
                            upsert_json_member(&mut rec, "required", JsonValue::Array(names));
                        },
                        _ => {},
                    },
                    None => {},
                }
            }
            JsonValue::Object(rec)
        },
    }
}

/// Array items made strict.
fn strict_item_list(items: &Vec<JsonValue>) -> (r: Vec<JsonValue>)
    ensures
        items_view(r@) == strict_items(items_view(items@)),
    decreases items, 0nat,
{
    let mut out: Vec<JsonValue> = Vec::new();
    let mut i: usize = 0;
    while i < items.len()
        invariant
            i <= items@.len(),
            items_view(out@) == strict_items(items_view(items@.take(i as int))),
        decreases items.len() - i,
    {
        proof {
            assert(items@.take(i + 1).drop_last() =~= items@.take(i as int));
            assert(decreases_to!(items => items@));
            assert(decreases_to!(items@ => items@[i as int]));
        }
        let x = strict_value(&items[i]);
        let ghost before = out@;
        out.push(x);
        proof {
            lemma_items_view_push(before, x);
            assert(items_view(items@.take(i + 1)).drop_last() =~= items_view(items@.take(i as int)));
        }
        i = i + 1;
    }
    proof {
        assert(items@.take(i as int) =~= items@);
    }
    out
}

/// Object members with their values made strict.
fn strict_member_list(members: &Vec<(String, JsonValue)>) -> (r: Vec<(String, JsonValue)>)
    ensures
        members_view(r@) == strict_members(members_view(members@)),
    decreases members, 0nat,
{
    let mut out: Vec<(String, JsonValue)> = Vec::new();
    let mut i: usize = 0;
    while i < members.len()
        invariant
            i <= members@.len(),
            members_view(out@) == strict_members(members_view(members@.take(i as int))),
        decreases members.len() - i,
    {
        proof {
            assert(members@.take(i + 1).drop_last() =~= members@.take(i as int));
            assert(decreases_to!(members => members@));
            assert(decreases_to!(members@ => members@[i as int]));
            assert(decreases_to!(members@[i as int] => members@[i as int].1));
        }
        let x = strict_value(&members[i].1);
        let ghost before = out@;
        let entry = (members[i].0.clone(), x);
        out.push(entry);
        proof {
            lemma_members_view_push(before, entry);
            assert(members_view(members@.take(i + 1)).drop_last() =~= members_view(members@.take(i as int)));
        }
        i = i + 1;
    }
    proof {
        assert(members@.take(i as int) =~= members@);
    }
    out
}

proof fn lemma_member_value_upsert(ms: Seq<(Seq<char>, JsonView)>, kv: (Seq<char>, JsonView), other: Seq<char>)
    ensures
        member_value(upsert(ms, kv), kv.0) == Some(kv.1),
        other != kv.0 ==> member_value(upsert(ms, kv), other) == member_value(ms, other),
    decreases ms.len(),
{
    let u = upsert(ms, kv);
    if ms.len() > 0 {
        if ms[0].0 == kv.0 {
            assert(u == seq![kv] + ms.drop_first());
            assert(u[0] == kv);
            assert(u.drop_first() =~= ms.drop_first());
            if other != kv.0 {
                assert(member_value(u, other) == member_value(u.drop_first(), other));
                assert(member_value(ms, other) == member_value(ms.drop_first(), other));
            }
        } else {
            lemma_member_value_upsert(ms.drop_first(), kv, other);
            assert(u == seq![ms[0]] + upsert(ms.drop_first(), kv));
            assert(u[0] == ms[0]);
            assert(u.drop_first() =~= upsert(ms.drop_first(), kv));
            if other != kv.0 && ms[0].0 != other {
                assert(member_value(u, other) == member_value(u.drop_first(), other));
            }
        }
    } else {
        assert(u == seq![kv]);
        assert(u[0] == kv);
        assert(u.drop_first() =~= Seq::<(Seq<char>, JsonView)>::empty());
        if other != kv.0 {
            assert(member_value(u, other) == member_value(u.drop_first(), other));
        }
    }
}

/// What strict mode asks of an object node holds after the change: a node whose
/// `type` is `object` has `additionalProperties` set to `false`, and, when its
/// `properties` is an object, a `required` list naming each of its keys in order.
pub proof fn law_object_nodes_become_strict(members: Seq<(Seq<char>, JsonView)>)
    requires
        member_value(members, "type"@) == Some(JsonView::Str("object"@)),
    ensures
        member_value(strict_object(members), "additionalProperties"@) == Some(JsonView::Bool(false)),
        member_value(members, "properties"@) matches Some(JsonView::Object(props)) ==> member_value(
            strict_object(members),
            "required"@,
        ) == Some(JsonView::Array(names_as_strings(props))),
{
    reveal_strlit("additionalProperties");
    reveal_strlit("required");
    assert("additionalProperties"@.len() != "required"@.len());
    let rec = strict_members(members);
    let m = upsert(rec, ("additionalProperties"@, JsonView::Bool(false)));
    lemma_member_value_upsert(rec, ("additionalProperties"@, JsonView::Bool(false)), "required"@);
    match member_value(members, "properties"@) {
        Some(JsonView::Object(props)) => {
            lemma_member_value_upsert(
                m,
                ("required"@, JsonView::Array(names_as_strings(props))),
                "additionalProperties"@,
            );
        },
        _ => {},
    }
}

/// An object node whose `type` is `object` and whose `properties` is an object:
/// making that `properties` object strict keeps its list of keys (it gains no
/// `additionalProperties` or `required` member).
pub open spec fn property_keys_kept(members: Seq<(Seq<char>, JsonView)>) -> bool {
    member_value(members, "type"@) == Some(JsonView::Str("object"@)) ==> match member_value(
        members,
        "properties"@,
    ) {
        Some(JsonView::Object(props)) => names_as_strings(strict_object(props)) == names_as_strings(props),
        _ => true,
    }
}

/// Every object node of the document meets `property_keys_kept`.
pub open spec fn property_keys_kept_everywhere(v: JsonView) -> bool
    decreases v, 0nat,
{
    match v {
        JsonView::Array(items) => items_keep_property_keys(items),
        JsonView::Object(members) => property_keys_kept(members)
            && members_keep_property_keys(members),
        _ => true,
    }
}

/// Every item meets `property_keys_kept_everywhere`.
pub open spec fn items_keep_property_keys(items: Seq<JsonView>) -> bool
    decreases items, 0nat,
{
    if items.len() == 0 {
        true
    } else {
        items_keep_property_keys(items.drop_last()) && property_keys_kept_everywhere(
            items.last(),
        )
    }
}

/// Every member value meets `property_keys_kept_everywhere`.
pub open spec fn members_keep_property_keys(members: Seq<(Seq<char>, JsonView)>) -> bool
    decreases members, 0nat,
{
    if members.len() == 0 {
        true
    } else {
        members_keep_property_keys(members.drop_last()) && property_keys_kept_everywhere(
            members.last().1,
        )
    }
}

proof fn lemma_strict_items_index(items: Seq<JsonView>)
    ensures
        strict_items(items).len() == items.len(),
        forall|i: int| 0 <= i < items.len() ==> #[trigger] strict_items(items)[i] == strict_view(items[i]),
    decreases items.len(),
{
    if items.len() > 0 {
        lemma_strict_items_index(items.drop_last());
    }
}

proof fn lemma_strict_members_index(ms: Seq<(Seq<char>, JsonView)>)
    ensures
        strict_members(ms).len() == ms.len(),
        forall|i: int|
            0 <= i < ms.len() ==> #[trigger] strict_members(ms)[i] == (ms[i].0, strict_view(ms[i].1)),
    decreases ms.len(),
{
    if ms.len() > 0 {
        lemma_strict_members_index(ms.drop_last());
    }
}

proof fn lemma_items_ok_index(items: Seq<JsonView>, i: int)
    requires
        items_keep_property_keys(items),
        0 <= i < items.len(),
    ensures
        property_keys_kept_everywhere(items[i]),
    decreases items.len(),
{
    if i < items.len() - 1 {
        lemma_items_ok_index(items.drop_last(), i);
    }
}

proof fn lemma_members_ok_index(ms: Seq<(Seq<char>, JsonView)>, i: int)
    requires
        members_keep_property_keys(ms),
        0 <= i < ms.len(),
    ensures
        property_keys_kept_everywhere(ms[i].1),
    decreases ms.len(),
{
    if i < ms.len() - 1 {
        lemma_members_ok_index(ms.drop_last(), i);
    }
}

proof fn lemma_strict_members_first(ms: Seq<(Seq<char>, JsonView)>)
    requires
        ms.len() > 0,
    ensures
        strict_members(ms)[0] == (ms[0].0, strict_view(ms[0].1)),
        strict_members(ms).drop_first() == strict_members(ms.drop_first()),
        strict_members(ms) == seq![(ms[0].0, strict_view(ms[0].1))] + strict_members(ms.drop_first()),
{
    lemma_strict_members_index(ms);
    lemma_strict_members_index(ms.drop_first());
    assert(strict_members(ms).drop_first() =~= strict_members(ms.drop_first()));
    assert(strict_members(ms) =~= seq![(ms[0].0, strict_view(ms[0].1))] + strict_members(
        ms.drop_first(),
    ));
}

/// The strict value of a member is the member's value made strict.
proof fn lemma_member_value_strict(ms: Seq<(Seq<char>, JsonView)>, k: Seq<char>)
    ensures
        member_value(strict_members(ms), k) == match member_value(ms, k) {
            Some(v) => Some(strict_view(v)),
            None => None,
        },
    decreases ms.len(),
{
    if ms.len() > 0 {
        lemma_strict_members_first(ms);
        lemma_member_value_strict(ms.drop_first(), k);
    }
}

proof fn lemma_strict_members_upsert(ms: Seq<(Seq<char>, JsonView)>, kv: (Seq<char>, JsonView))
    ensures
        strict_members(upsert(ms, kv)) == upsert(strict_members(ms), (kv.0, strict_view(kv.1))),
    decreases ms.len(),
{
    let kv2 = (kv.0, strict_view(kv.1));
    let u = upsert(ms, kv);
    if ms.len() == 0 {
        lemma_strict_members_index(u);
        assert(strict_members(u) =~= seq![kv2]);
    } else {
        lemma_strict_members_first(ms);
        lemma_strict_members_first(u);
        if ms[0].0 == kv.0 {
            assert(u.drop_first() =~= ms.drop_first());
            assert(strict_members(u) =~= seq![kv2] + strict_members(ms).drop_first());
        } else {
            assert(u.drop_first() =~= upsert(ms.drop_first(), kv));
            lemma_strict_members_upsert(ms.drop_first(), kv);
            assert(strict_members(u) =~= seq![strict_members(ms)[0]] + upsert(
                strict_members(ms).drop_first(),
                kv2,
            ));
        }
    }
}

/// Writing a member that is already there with that value changes nothing.
proof fn lemma_upsert_present(ms: Seq<(Seq<char>, JsonView)>, kv: (Seq<char>, JsonView))
    requires
        member_value(ms, kv.0) == Some(kv.1),
    ensures
        upsert(ms, kv) == ms,
    decreases ms.len(),
{
    if ms[0].0 == kv.0 {
        assert(ms[0] == kv);
        assert(seq![kv] + ms.drop_first() =~= ms);
    } else {
        lemma_upsert_present(ms.drop_first(), kv);
        assert(seq![ms[0]] + ms.drop_first() =~= ms);
    }
}

proof fn lemma_strict_view_str(v: JsonView, t: Seq<char>)
    ensures
        strict_view(v) == JsonView::Str(t) <==> v == JsonView::Str(t),
        (strict_view(v) is Object) <==> (v is Object),
{
}

proof fn lemma_names_stay(props: Seq<(Seq<char>, JsonView)>)
    ensures
        strict_items(names_as_strings(props)) == names_as_strings(props),
        names_as_strings(strict_members(props)) == names_as_strings(props),
{
    lemma_strict_items_index(names_as_strings(props));
    lemma_strict_members_index(props);
    assert(strict_items(names_as_strings(props)) =~= names_as_strings(props));
    assert(names_as_strings(strict_members(props)) =~= names_as_strings(props));
}

proof fn lemma_view_idempotent(v: JsonView)
    requires
        property_keys_kept_everywhere(v),
    ensures
        strict_view(strict_view(v)) == strict_view(v),
    decreases v, 2nat,
{
    match v {
        JsonView::Array(items) => {
            lemma_items_idempotent(items);
        },
        JsonView::Object(members) => {
            lemma_object_idempotent(members);
        },
        _ => {},
    }
}

proof fn lemma_items_idempotent(items: Seq<JsonView>)
    requires
        items_keep_property_keys(items),
    ensures
        strict_items(strict_items(items)) == strict_items(items),
    decreases items, 0nat,
{
    lemma_strict_items_index(items);
    lemma_strict_items_index(strict_items(items));
    assert forall|i: int| 0 <= i < items.len() implies #[trigger] strict_items(strict_items(items))[i]
        == strict_items(items)[i] by {
        lemma_items_ok_index(items, i);
        lemma_view_idempotent(items[i]);
    }
    assert(strict_items(strict_items(items)) =~= strict_items(items));
}

proof fn lemma_members_idempotent(ms: Seq<(Seq<char>, JsonView)>)
    requires
        members_keep_property_keys(ms),
    ensures
        strict_members(strict_members(ms)) == strict_members(ms),
    decreases ms, 0nat,
{
    lemma_strict_members_index(ms);
    lemma_strict_members_index(strict_members(ms));
    assert forall|i: int| 0 <= i < ms.len() implies #[trigger] strict_members(strict_members(ms))[i]
        == strict_members(ms)[i] by {
        lemma_members_ok_index(ms, i);
        lemma_view_idempotent(ms[i].1);
    }
    assert(strict_members(strict_members(ms)) =~= strict_members(ms));
}

proof fn lemma_object_idempotent(ms: Seq<(Seq<char>, JsonView)>)
    requires
        property_keys_kept(ms),
        members_keep_property_keys(ms),
    ensures
        strict_object(strict_object(ms)) == strict_object(ms),
    decreases ms, 1nat,
{
    reveal_strlit("type");
    reveal_strlit("object");
    reveal_strlit("properties");
    reveal_strlit("additionalProperties");
    reveal_strlit("required");
    assert("type"@.len() != "required"@.len() && "type"@.len() != "additionalProperties"@.len());
    assert("properties"@.len() != "required"@.len() && "properties"@.len()
        != "additionalProperties"@.len());
    assert("additionalProperties"@.len() != "required"@.len());
    let rec = strict_members(ms);
    lemma_members_idempotent(ms);
    lemma_member_value_strict(ms, "type"@);
    lemma_member_value_strict(ms, "properties"@);
    let t = member_value(ms, "type"@);
    match t {
        Some(x) => lemma_strict_view_str(x, "object"@),
        None => {},
    }
    if t == Some(JsonView::Str("object"@)) {
        let ap = ("additionalProperties"@, JsonView::Bool(false));
        let m1 = upsert(rec, ap);
        lemma_member_value_upsert(rec, ap, "type"@);
        lemma_member_value_upsert(rec, ap, "properties"@);
        lemma_strict_members_upsert(rec, ap);
        match member_value(ms, "properties"@) {
            Some(JsonView::Object(props)) => {
                let req = ("required"@, JsonView::Array(names_as_strings(props)));
                let s1 = upsert(m1, req);
                lemma_member_value_upsert(m1, req, "type"@);
                lemma_member_value_upsert(m1, req, "properties"@);
                lemma_member_value_upsert(m1, req, "additionalProperties"@);
                lemma_strict_members_upsert(m1, req);
                lemma_names_stay(props);
                assert(strict_members(s1) == s1);
                assert(member_value(rec, "type"@) == Some(JsonView::Str("object"@)));
                assert(member_value(m1, "type"@) == Some(JsonView::Str("object"@)));
                assert(member_value(s1, "type"@) == Some(JsonView::Str("object"@)));
                assert(member_value(rec, "properties"@) == Some(
                    JsonView::Object(strict_object(props)),
                ));
                assert(member_value(s1, "properties"@) == Some(
                    JsonView::Object(strict_object(props)),
                ));
                lemma_upsert_present(s1, ap);
                lemma_upsert_present(s1, req);
            },
            _ => {
                match member_value(ms, "properties"@) {
                    Some(p) => lemma_strict_view_str(p, "object"@),
                    None => {},
                }
                assert(strict_members(m1) == m1);
                lemma_upsert_present(m1, ap);
            },
        }
    }
}

/// Making a schema strict twice gives what making it strict once gives,
/// unless the first pass adds members to some object node's `properties`
/// object (which happens when that object itself has `type` `object`): then
/// the second pass also lists the added keys in that node's `required`.
pub proof fn law_strict_schema_idempotent(v: JsonView)
    requires
        property_keys_kept_everywhere(v),
    ensures
        strict_view(strict_view(v)) == strict_view(v),
{
    lemma_view_idempotent(v);
}

/// Makes a schema acceptable to the model API's strict structured output:
/// every object node whose `type` is `object` gets `additionalProperties:
/// false`, and its `required` list names every key of its `properties`.
pub fn enforce_strict_json_schema(schema: &mut JsonValue)
    ensures
        json_view(*final(schema)) == strict_view(json_view(*old(schema))),
{
    let r = strict_value(schema);
    *schema = r;
}

} // verus!
