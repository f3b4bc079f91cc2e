//! JSON values as the comparison output renders them: the library's own tree of
//! values, its mathematical view, equality and compact rendering.
use vstd::prelude::*;

use crate::text::chars_of;

verus! {

/// A JSON value. Numbers keep the text that serde_json renders for them; object
/// members are kept in key order, as serde_json's default map keeps them.
#[derive(Debug)]
pub enum JsonValue {
    Null,
    Bool(bool),
    Number(String),
    String(String),
    Array(Vec<JsonValue>),
    Object(Vec<(String, JsonValue)>),
}

/// The mathematical view of a JSON value.
pub enum Json {
    Null,
    Bool(bool),
    Number(Seq<char>),
    Str(Seq<char>),
    Array(Seq<Json>),
    Object(Seq<(Seq<char>, Json)>),
}

/// The view of a JSON value.
pub open spec fn json_view(j: JsonValue) -> Json
    decreases j,
{
    match j {
        JsonValue::Null => Json::Null,
        JsonValue::Bool(b) => Json::Bool(b),
        JsonValue::Number(t) => Json::Number(t@),
        JsonValue::String(s) => Json::Str(s@),
        JsonValue::Array(items) => Json::Array(json_view_items(items@)),
        JsonValue::Object(members) => Json::Object(json_view_members(members@)),
    }
}

/// The views of `items`, in order.
pub open spec fn json_view_items(items: Seq<JsonValue>) -> Seq<Json>
    decreases items,
{
    if items.len() == 0 {
        Seq::empty()
    } else {
        seq![json_view(items[0])] + json_view_items(items.drop_first())
    }
}

/// The views of `members`, keys as character sequences, in order.
pub open spec fn json_view_members(members: Seq<(String, JsonValue)>) -> Seq<(Seq<char>, Json)>
    decreases members,
{
    if members.len() == 0 {
        Seq::empty()
    } else {
        seq![(members[0].0@, json_view(members[0].1))] + json_view_members(members.drop_first())
    }
}

/// The number of nodes in a JSON value.
pub open spec fn json_size(j: JsonValue) -> nat
    decreases j,
{
    match j {
        JsonValue::Array(items) => 1 + items_size(items@),
        JsonValue::Object(members) => 1 + members_size(members@),
        _ => 1,
    }
}

/// The number of nodes in `items` together.
pub open spec fn items_size(items: Seq<JsonValue>) -> nat
    decreases items,
{
    if items.len() == 0 {
        0
    } else {
        json_size(items[0]) + items_size(items.drop_first())
    }
}

/// The number of nodes in the values of `members` together.
pub open spec fn members_size(members: Seq<(String, JsonValue)>) -> nat
    decreases members,
{
    if members.len() == 0 {
        0
    } else {
        json_size(members[0].1) + members_size(members.drop_first())
    }
}

pub proof fn lemma_json_view_items_len(items: Seq<JsonValue>)
    ensures
        json_view_items(items).len() == items.len(),
        forall|i: int| 0 <= i < items.len() ==> #[trigger] json_view_items(items)[i] == json_view(items[i]),
        forall|i: int| 0 <= i < items.len() ==> json_size(#[trigger] items[i]) <= items_size(items),
    decreases items.len(),
{
    if items.len() > 0 {
        lemma_json_view_items_len(items.drop_first());
        assert forall|i: int| 0 <= i < items.len() implies #[trigger] json_view_items(items)[i] == json_view(items[i]) by {
            if i > 0 {
                assert(items.drop_first()[i - 1] == items[i]);
            }
        }
        assert forall|i: int| 0 <= i < items.len() implies json_size(#[trigger] items[i]) <= items_size(items) by {
            if i > 0 {
                assert(items.drop_first()[i - 1] == items[i]);
            }
        }
    }
}

pub proof fn lemma_json_view_members_len(members: Seq<(String, JsonValue)>)
    ensures
        json_view_members(members).len() == members.len(),
        forall|i: int| 0 <= i < members.len() ==> #[trigger] json_view_members(members)[i] == (
            members[i].0@,
            json_view(members[i].1),
        ),
        forall|i: int| 0 <= i < members.len() ==> json_size(#[trigger] members[i].1) <= members_size(members),
    decreases members.len(),
{
    if members.len() > 0 {
        lemma_json_view_members_len(members.drop_first());
        assert forall|i: int| 0 <= i < members.len() implies #[trigger] json_view_members(members)[i] == (
            members[i].0@,
            json_view(members[i].1),
        ) by {
            if i > 0 {
                assert(members.drop_first()[i - 1] == members[i]);
            }
        }
        assert forall|i: int| 0 <= i < members.len() implies json_size(#[trigger] members[i].1) <= members_size(members) by {
            if i > 0 {
                assert(members.drop_first()[i - 1] == members[i]);
            }
        }
    }
}

/// The text that stands for a number's value: serde_json renders each value in one
/// way (integers without a point, floats in their shortest round-trip form), so two
/// numbers are equal exactly when their texts are, except for the float zeros `0.0`
/// and `-0.0`, which compare equal.
pub open spec fn number_key(t: Seq<char>) -> Seq<char> {
    if t == "-0.0"@ {
        "0.0"@
    } else {
        t
    }
}

/// `j` with each number replaced by the text of its value (see `number_key`): two
/// values are equal as serde_json compares them exactly when these agree.
pub open spec fn json_norm(j: Json) -> Json
    decreases j,
{
    match j {
        Json::Number(t) => Json::Number(number_key(t)),
        Json::Array(items) => Json::Array(norm_items(items)),
        Json::Object(members) => Json::Object(norm_members(members)),
        _ => j,
    }
}

/// `json_norm` of each of `items`, in order.
pub open spec fn norm_items(items: Seq<Json>) -> Seq<Json>
    decreases items,
{
    if items.len() == 0 {
        Seq::empty()
    } else {
        seq![json_norm(items[0])] + norm_items(items.drop_first())
    }
}

/// `json_norm` of each member value of `members`, keys kept, in order.
pub open spec fn norm_members(members: Seq<(Seq<char>, Json)>) -> Seq<(Seq<char>, Json)>
    decreases members,
{
    if members.len() == 0 {
        Seq::empty()
    } else {
        seq![(members[0].0, json_norm(members[0].1))] + norm_members(members.drop_first())
    }
}

/// Two JSON values are equal as serde_json's `==` compares them.
pub open spec fn json_same(a: Json, b: Json) -> bool {
    json_norm(a) == json_norm(b)
}

pub proof fn lemma_norm_items(items: Seq<Json>)
    ensures
        norm_items(items).len() == items.len(),
        forall|i: int| 0 <= i < items.len() ==> #[trigger] norm_items(items)[i] == json_norm(items[i]),
    decreases items.len(),
{
    if items.len() > 0 {
        lemma_norm_items(items.drop_first());
        assert forall|i: int| 0 <= i < items.len() implies #[trigger] norm_items(items)[i] == json_norm(items[i]) by {
            if i > 0 {
                assert(items.drop_first()[i - 1] == items[i]);
            }
        }
    }
}

pub proof fn lemma_norm_members(members: Seq<(Seq<char>, Json)>)
    ensures
        norm_members(members).len() == members.len(),
        forall|i: int| 0 <= i < members.len() ==> #[trigger] norm_members(members)[i] == (members[i].0, json_norm(members[i].1)),
    decreases members.len(),
{
    if members.len() > 0 {
        lemma_norm_members(members.drop_first());
        assert forall|i: int| 0 <= i < members.len() implies #[trigger] norm_members(members)[i] == (members[i].0, json_norm(members[i].1)) by {
            if i > 0 {
                assert(members.drop_first()[i - 1] == members[i]);
            }
        }
    }
}

/// Whether `a` and `b` hold the same number, as serde_json compares numbers.
fn number_eq(a: &String, b: &String) -> (r: bool)
    ensures
        r == (number_key(a@) == number_key(b@)),
{
    let neg_zero = String::from_str("-0.0");
    let zero = String::from_str("0.0");
    proof {
        reveal_strlit("-0.0");
        reveal_strlit("0.0");
    }
    let za = *a == neg_zero || *a == zero;
    let zb = *b == neg_zero || *b == zero;
    if za || zb {
        za && zb
    } else {
        *a == *b
    }
}

/// Whether two JSON values are equal as serde_json's `==` compares them: objects
/// member by member in order, numbers by value.
pub fn json_eq(a: &JsonValue, b: &JsonValue) -> (r: bool)
    ensures
        r == json_same(json_view(*a), json_view(*b)),
    decreases json_size(*a),
{
    match (a, b) {
        (JsonValue::Null, JsonValue::Null) => true,
        (JsonValue::Bool(x), JsonValue::Bool(y)) => *x == *y,
        (JsonValue::Number(x), JsonValue::Number(y)) => number_eq(x, y),
        (JsonValue::String(x), JsonValue::String(y)) => *x == *y,
        (JsonValue::Array(xs), JsonValue::Array(ys)) => {
            proof {
                lemma_json_view_items_len(xs@);
                lemma_json_view_items_len(ys@);
                lemma_norm_items(json_view_items(xs@));
                lemma_norm_items(json_view_items(ys@));
            }
            if xs.len() != ys.len() {
                return false;
            }
            let mut i: usize = 0;
            while i < xs.len()
                invariant
                    xs.len() == ys.len(),
                    i <= xs.len(),
                    *a == JsonValue::Array(*xs),
                    *b == JsonValue::Array(*ys),
                    json_view_items(xs@).len() == xs@.len(),
                    json_view_items(ys@).len() == ys@.len(),
                    forall|k: int| 0 <= k < xs@.len() ==> #[trigger] json_view_items(xs@)[k] == json_view(xs@[k]),
                    forall|k: int| 0 <= k < ys@.len() ==> #[trigger] json_view_items(ys@)[k] == json_view(ys@[k]),
                    forall|k: int| 0 <= k < xs@.len() ==> json_size(#[trigger] xs@[k]) <= items_size(xs@),
                    norm_items(json_view_items(xs@)).len() == xs@.len(),
                    norm_items(json_view_items(ys@)).len() == ys@.len(),
                    forall|k: int| 0 <= k < xs@.len() ==> #[trigger] norm_items(json_view_items(xs@))[k] == json_norm(json_view_items(xs@)[k]),
                    forall|k: int| 0 <= k < ys@.len() ==> #[trigger] norm_items(json_view_items(ys@))[k] == json_norm(json_view_items(ys@)[k]),
                    forall|k: int| 0 <= k < i ==> json_norm(json_view(xs@[k])) == json_norm(json_view(ys@[k])),
                decreases xs.len() - i,
            {
                if !json_eq(&xs[i], &ys[i]) {
                    assert(norm_items(json_view_items(xs@))[i as int] != norm_items(json_view_items(ys@))[i as int]);
                    return false;
                }
                i = i + 1;
            }
            assert(norm_items(json_view_items(xs@)) =~= norm_items(json_view_items(ys@)));
            true
        },
        (JsonValue::Object(xs), JsonValue::Object(ys)) => {
            proof {
                lemma_json_view_members_len(xs@);
                lemma_json_view_members_len(ys@);
                lemma_norm_members(json_view_members(xs@));
                lemma_norm_members(json_view_members(ys@));
            }
            if xs.len() != ys.len() {
                return false;
            }
            let mut i: usize = 0;
            while i < xs.len()
                invariant
                    xs.len() == ys.len(),
                    i <= xs.len(),
                    *a == JsonValue::Object(*xs),
                    *b == JsonValue::Object(*ys),
                    json_view_members(xs@).len() == xs@.len(),
                    json_view_members(ys@).len() == ys@.len(),
                    forall|k: int| 0 <= k < xs@.len() ==> #[trigger] json_view_members(xs@)[k] == (xs@[k].0@, json_view(xs@[k].1)),
                    forall|k: int| 0 <= k < ys@.len() ==> #[trigger] json_view_members(ys@)[k] == (ys@[k].0@, json_view(ys@[k].1)),
                    forall|k: int| 0 <= k < xs@.len() ==> json_size(#[trigger] xs@[k].1) <= members_size(xs@),
                    norm_members(json_view_members(xs@)).len() == xs@.len(),
                    norm_members(json_view_members(ys@)).len() == ys@.len(),
                    forall|k: int| 0 <= k < xs@.len() ==> #[trigger] norm_members(json_view_members(xs@))[k] == (json_view_members(xs@)[k].0, json_norm(json_view_members(xs@)[k].1)),
                    forall|k: int| 0 <= k < ys@.len() ==> #[trigger] norm_members(json_view_members(ys@))[k] == (json_view_members(ys@)[k].0, json_norm(json_view_members(ys@)[k].1)),
                    forall|k: int| 0 <= k < i ==> xs@[k].0@ == ys@[k].0@ && json_norm(json_view(xs@[k].1)) == json_norm(json_view(ys@[k].1)),
                decreases xs.len() - i,
            {
                if !(xs[i].0 == ys[i].0) || !json_eq(&xs[i].1, &ys[i].1) {
                    assert(norm_members(json_view_members(xs@))[i as int] != norm_members(json_view_members(ys@))[i as int]);
                    return false;
                }
                i = i + 1;
            }
            assert(norm_members(json_view_members(xs@)) =~= norm_members(json_view_members(ys@)));
            true
        },
        _ => false,
    }
}


/// Whether key `a` sorts before key `b` from index `i` on, as Rust orders strings (by
/// code point, a proper prefix first), given that they agree before `i`.
pub open spec fn key_lt_from(a: Seq<char>, b: Seq<char>, i: int) -> bool
    decreases a.len() - i,
{
    if i < 0 || i >= a.len() {
        0 <= i < b.len()
    } else if i >= b.len() {
        false
    } else if a[i] != b[i] {
        (a[i] as u32) < (b[i] as u32)
    } else {
        key_lt_from(a, b, i + 1)
    }
}

/// Whether key `a` sorts before key `b`, as Rust orders strings.
pub open spec fn key_lt(a: Seq<char>, b: Seq<char>) -> bool {
    key_lt_from(a, b, 0)
}

/// Whether every object in `j`, at any depth, holds its members with strictly
/// increasing keys, as serde_json's default map (a `BTreeMap`) always does.
pub open spec fn keys_sorted(j: Json) -> bool
    decreases j,
{
    match j {
        Json::Array(items) => items_sorted(items),
        Json::Object(members) => members_sorted(members),
        _ => true,
    }
}

/// Whether each of `items` has its keys sorted (see `keys_sorted`).
pub open spec fn items_sorted(items: Seq<Json>) -> bool
    decreases items,
{
    if items.len() == 0 {
        true
    } else {
        keys_sorted(items[0]) && items_sorted(items.drop_first())
    }
}

/// Whether `members` have strictly increasing keys and sorted values (see
/// `keys_sorted`).
pub open spec fn members_sorted(members: Seq<(Seq<char>, Json)>) -> bool
    decreases members,
{
    if members.len() == 0 {
        true
    } else {
        &&& keys_sorted(members[0].1)
        &&& (members.len() >= 2 ==> key_lt(members[0].0, members[1].0))
        &&& members_sorted(members.drop_first())
    }
}

pub proof fn lemma_items_sorted(items: Seq<Json>)
    ensures
        items_sorted(items) <==> forall|i: int| 0 <= i < items.len() ==> keys_sorted(#[trigger] items[i]),
    decreases items.len(),
{
    if items.len() > 0 {
        lemma_items_sorted(items.drop_first());
        if forall|i: int| 0 <= i < items.len() ==> keys_sorted(#[trigger] items[i]) {
            assert forall|i: int| 0 <= i < items.drop_first().len() implies keys_sorted(#[trigger] items.drop_first()[i]) by {
                assert(items.drop_first()[i] == items[i + 1]);
            }
        }
        if items_sorted(items) {
            assert forall|i: int| 0 <= i < items.len() implies keys_sorted(#[trigger] items[i]) by {
                if i > 0 {
                    assert(items.drop_first()[i - 1] == items[i]);
                }
            }
        }
    }
}

pub proof fn lemma_members_sorted(members: Seq<(Seq<char>, Json)>)
    ensures
        members_sorted(members) <==> (forall|i: int| 0 <= i < members.len() ==> keys_sorted(#[trigger] members[i].1))
            && (forall|i: int| 0 <= i < members.len() - 1 ==> key_lt(#[trigger] members[i].0, members[i + 1].0)),
    decreases members.len(),
{
    if members.len() > 0 {
        let rest = members.drop_first();
        lemma_members_sorted(rest);
        assert forall|i: int| 0 <= i < rest.len() implies #[trigger] rest[i] == members[i + 1] by {}
        if (forall|i: int| 0 <= i < members.len() ==> keys_sorted(#[trigger] members[i].1))
            && (forall|i: int| 0 <= i < members.len() - 1 ==> key_lt(#[trigger] members[i].0, members[i + 1].0)) {
            assert forall|i: int| 0 <= i < rest.len() implies keys_sorted(#[trigger] rest[i].1) by {
                assert(rest[i] == members[i + 1]);
            }
            assert forall|i: int| 0 <= i < rest.len() - 1 implies key_lt(#[trigger] rest[i].0, rest[i + 1].0) by {
                assert(rest[i] == members[i + 1]);
                assert(rest[i + 1] == members[i + 2]);
            }
            if members.len() >= 2 {
                assert(key_lt(members[0].0, members[1].0));
            }
        }
        if members_sorted(members) {
            assert forall|i: int| 0 <= i < members.len() implies keys_sorted(#[trigger] members[i].1) by {
                if i > 0 {
                    assert(rest[i - 1] == members[i]);
                }
            }
            assert forall|i: int| 0 <= i < members.len() - 1 implies key_lt(#[trigger] members[i].0, members[i + 1].0) by {
                if i > 0 {
                    assert(rest[i - 1] == members[i]);
                    assert(rest[i] == members[i + 1]);
                }
            }
        }
    }
}

/// Whether key `a` sorts before key `b`, as Rust orders strings.
pub fn key_before(a: &str, b: &str) -> (r: bool)
    ensures
        r == key_lt(a@, b@),
{
    let x = chars_of(a);
    let y = chars_of(b);
    let mut i: usize = 0;
    while i < x.len() && i < y.len() && x[i] == y[i]
        invariant
            i <= x.len(),
            i <= y.len(),
            x@ == a@,
            y@ == b@,
            key_lt(a@, b@) == key_lt_from(a@, b@, i as int),
        decreases x.len() - i,
    {
        i = i + 1;
    }
    if i >= x.len() {
        i < y.len()
    } else if i >= y.len() {
        false
    } else {
        (x[i] as u32) < (y[i] as u32)
    }
}

/// Whether every object in `j` holds its members with strictly increasing keys (see
/// `keys_sorted`).
pub fn json_keys_sorted(j: &JsonValue) -> (r: bool)
    ensures
        r == keys_sorted(json_view(*j)),
    decreases json_size(*j),
{
    match j {
        JsonValue::Array(items) => {
            proof {
                lemma_json_view_items_len(items@);
                lemma_items_sorted(json_view_items(items@));
            }
            let mut i: usize = 0;
            while i < items.len()
                invariant
                    i <= items.len(),
                    *j == JsonValue::Array(*items),
                    json_view_items(items@).len() == items@.len(),
                    forall|k: int| 0 <= k < items@.len() ==> #[trigger] json_view_items(items@)[k] == json_view(items@[k]),
                    forall|k: int| 0 <= k < items@.len() ==> json_size(#[trigger] items@[k]) <= items_size(items@),
                    items_sorted(json_view_items(items@)) <==> forall|k: int| 0 <= k < items@.len() ==> keys_sorted(#[trigger] json_view_items(items@)[k]),
                    forall|k: int| 0 <= k < i ==> keys_sorted(json_view(items@[k])),
                decreases items.len() - i,
            {
                if !json_keys_sorted(&items[i]) {
                    assert(!keys_sorted(json_view_items(items@)[i as int]));
                    return false;
                }
                i = i + 1;
            }
            assert forall|k: int| 0 <= k < items@.len() implies keys_sorted(#[trigger] json_view_items(items@)[k]) by {
                assert(keys_sorted(json_view(items@[k])));
            }
            true
        },
        JsonValue::Object(members) => {
            proof {
                lemma_json_view_members_len(members@);
                lemma_members_sorted(json_view_members(members@));
            }
            let ghost vm = json_view_members(members@);
            let mut i: usize = 0;
            while i < members.len()
                invariant
                    i <= members.len(),
                    *j == JsonValue::Object(*members),
                    vm == json_view_members(members@),
                    vm.len() == members@.len(),
                    forall|k: int| 0 <= k < members@.len() ==> #[trigger] vm[k] == (members@[k].0@, json_view(members@[k].1)),
                    forall|k: int| 0 <= k < members@.len() ==> json_size(#[trigger] members@[k].1) <= members_size(members@),
                    members_sorted(vm) <==> (forall|k: int| 0 <= k < vm.len() ==> keys_sorted(#[trigger] vm[k].1))
                        && (forall|k: int| 0 <= k < vm.len() - 1 ==> key_lt(#[trigger] vm[k].0, vm[k + 1].0)),
                    forall|k: int| 0 <= k < i ==> keys_sorted(#[trigger] vm[k].1),
                    forall|k: int| 0 <= k < i && k < vm.len() - 1 ==> key_lt(#[trigger] vm[k].0, vm[k + 1].0),
                decreases members.len() - i,
            {
                if !json_keys_sorted(&members[i].1) {
                    assert(!keys_sorted(vm[i as int].1));
                    return false;
                }
                if i + 1 < members.len() {
                    if !key_before(members[i].0.as_str(), members[i + 1].0.as_str()) {
                        assert(!key_lt(vm[i as int].0, vm[i + 1].0));
                        return false;
                    }
                }
                i = i + 1;
            }
            true
        },
        _ => true,
    }
}

/// A copy of `j`.
pub fn clone_json(j: &JsonValue) -> (r: JsonValue)
    ensures
        json_view(r) == json_view(*j),
    decreases json_size(*j),
{
    match j {
        JsonValue::Null => JsonValue::Null,
        JsonValue::Bool(b) => JsonValue::Bool(*b),
        JsonValue::Number(t) => JsonValue::Number(t.clone()),
        JsonValue::String(s) => JsonValue::String(s.clone()),
        JsonValue::Array(items) => {
            proof { lemma_json_view_items_len(items@); }
            let mut out: Vec<JsonValue> = Vec::new();
            let mut i: usize = 0;
            while i < items.len()
                invariant
                    i <= items.len(),
                    out@.len() == i,
                    *j == JsonValue::Array(*items),
                    forall|k: int| 0 <= k < items@.len() ==> json_size(#[trigger] items@[k]) <= items_size(items@),
                    forall|k: int| 0 <= k < i ==> json_view(#[trigger] out@[k]) == json_view(items@[k]),
                decreases items.len() - i,
            {
                let c = clone_json(&items[i]);
                out.push(c);
                i = i + 1;
            }
            proof {
                lemma_json_view_items_len(out@);
                assert(json_view_items(out@) =~= json_view_items(items@));
            }
            JsonValue::Array(out)
        },
        JsonValue::Object(members) => {
            proof { lemma_json_view_members_len(members@); }
            let mut out: Vec<(String, JsonValue)> = Vec::new();
            let mut i: usize = 0;
            while i < members.len()
                invariant
                    i <= members.len(),
                    out@.len() == i,
                    *j == JsonValue::Object(*members),
                    forall|k: int| 0 <= k < members@.len() ==> json_size(#[trigger] members@[k].1) <= members_size(members@),
                    forall|k: int| 0 <= k < i ==> (#[trigger] out@[k]).0@ == members@[k].0@ && json_view(out@[k].1) == json_view(members@[k].1),
                decreases members.len() - i,
            {
                let key = members[i].0.clone();
                let c = clone_json(&members[i].1);
                out.push((key, c));
                i = i + 1;
            }
            proof {
                lemma_json_view_members_len(out@);
                assert(json_view_members(out@) =~= json_view_members(members@));
            }
            JsonValue::Object(out)
        },
    }
}


/// A copy of `items`.
pub fn clone_items(items: &Vec<JsonValue>) -> (r: Vec<JsonValue>)
    ensures
        json_view_items(r@) == json_view_items(items@),
{
    proof { lemma_json_view_items_len(items@); }
    let mut out: Vec<JsonValue> = Vec::new();
    let mut i: usize = 0;
    while i < items.len()
        invariant
            i <= items.len(),
            out@.len() == i,
            forall|k: int| 0 <= k < i ==> json_view(#[trigger] out@[k]) == json_view(items@[k]),
        decreases items.len() - i,
    {
        let c = clone_json(&items[i]);
        out.push(c);
        i = i + 1;
    }
    proof {
        lemma_json_view_items_len(out@);
        assert(json_view_items(out@) =~= json_view_items(items@));
    }
    out
}

/// The lower-case hexadecimal digit for `d` (below 16).
pub open spec fn hex_digit(d: nat) -> char {
    if d < 10 {
        ((48 + d) as u32) as char
    } else {
        ((87 + d) as u32) as char
    }
}

/// How serde_json writes character `c` inside a string literal: `"` and `\` behind a
/// backslash; backspace, tab, line feed, form feed and carriage return as `\b`, `\t`,
/// `\n`, `\f` and `\r`; the other characters below 0x20 as `\u00` and two lower-case
/// hexadecimal digits; every other character as itself.
pub open spec fn escaped_char(c: char) -> Seq<char> {
    if c == '"' {
        seq!['\\', '"']
    } else if c == '\\' {
        seq!['\\', '\\']
    } else if c == '\x08' {
        seq!['\\', 'b']
    } else if c == '\t' {
        seq!['\\', 't']
    } else if c == '\n' {
        seq!['\\', 'n']
    } else if c == '\x0c' {
        seq!['\\', 'f']
    } else if c == '\r' {
        seq!['\\', 'r']
    } else if (c as u32) < 0x20 {
        seq!['\\', 'u', '0', '0', hex_digit((c as u32 / 16) as nat), hex_digit((c as u32 % 16) as nat)]
    } else {
        seq![c]
    }
}

/// The characters of `s`, each written as serde_json writes it in a string literal.
pub open spec fn escaped(s: Seq<char>) -> Seq<char>
    decreases s.len(),
{
    if s.len() == 0 {
        Seq::empty()
    } else {
        escaped(s.drop_last()) + escaped_char(s.last())
    }
}

/// The JSON string literal that serde_json writes for text `s`: `s` escaped (see
/// `escaped_char`) between double quotes.
pub open spec fn json_quoted(s: Seq<char>) -> Seq<char> {
    seq!['"'] + escaped(s) + seq!['"']
}

/// Writes `s` as a JSON string literal with `serde_json::to_string`, which cannot fail
/// for a string. As serde_json's `format_escaped_str` shows, the result is `s` between
/// double quotes with the escapes of `escaped_char`.
#[verifier::external_body]
pub(crate) fn quote_json_string(s: &str) -> (r: String)
    ensures
        r@ == json_quoted(s@),
{
    serde_json::to_string(s).unwrap_or_default()
}

/// The compact rendering of a JSON value, as serde_json's `Display` writes it.
pub open spec fn render(j: Json) -> Seq<char>
    decreases j,
{
    match j {
        Json::Null => "null"@,
        Json::Bool(b) => if b { "true"@ } else { "false"@ },
        Json::Number(t) => t,
        Json::Str(s) => json_quoted(s),
        Json::Array(items) => "["@ + render_items(items) + "]"@,
        Json::Object(members) => "{"@ + render_members(members) + "}"@,
    }
}

/// The renderings of `items` separated by commas.
pub open spec fn render_items(items: Seq<Json>) -> Seq<char>
    decreases items,
{
    if items.len() == 0 {
        Seq::empty()
    } else if items.len() == 1 {
        render(items[0])
    } else {
        render_items(items.drop_last()) + ","@ + render(items.last())
    }
}

/// The members rendered as `"key":value`, separated by commas.
pub open spec fn render_members(members: Seq<(Seq<char>, Json)>) -> Seq<char>
    decreases members,
{
    if members.len() == 0 {
        Seq::empty()
    } else if members.len() == 1 {
        json_quoted(members[0].0) + ":"@ + render(members[0].1)
    } else {
        render_members(members.drop_last()) + ","@ + json_quoted(members.last().0) + ":"@
            + render(members.last().1)
    }
}

/// The compact rendering of `j`.
pub fn render_json(j: &JsonValue) -> (r: String)
    ensures
        r@ == render(json_view(*j)),
    decreases json_size(*j),
{
    match j {
        JsonValue::Null => String::from_str("null"),
        JsonValue::Bool(b) => if *b { String::from_str("true") } else { String::from_str("false") },
        JsonValue::Number(t) => t.clone(),
        JsonValue::String(s) => quote_json_string(s.as_str()),
        JsonValue::Array(items) => {
            proof { lemma_json_view_items_len(items@); }
            let ghost vs = json_view_items(items@);
            let mut r = String::from_str("[");
            let mut i: usize = 0;
            while i < items.len()
                invariant
                    i <= items.len(),
                    *j == JsonValue::Array(*items),
                    vs == json_view_items(items@),
                    vs.len() == items@.len(),
                    forall|k: int| 0 <= k < items@.len() ==> #[trigger] vs[k] == json_view(items@[k]),
                    forall|k: int| 0 <= k < items@.len() ==> json_size(#[trigger] items@[k]) <= items_size(items@),
                    r@ == "["@ + render_items(vs.take(i as int)),
                decreases items.len() - i,
            {
                if i > 0 {
                    r.append(",");
                }
                let item = render_json(&items[i]);
                r.append(item.as_str());
                proof {
                    let t = vs.take(i + 1);
                    assert(t.drop_last() =~= vs.take(i as int));
                    assert(t.last() == vs[i as int]);
                    if i == 0 {
                        assert(vs.take(0) =~= Seq::<Json>::empty());
                    }
                }
                i = i + 1;
            }
            r.append("]");
            assert(vs.take(items.len() as int) =~= vs);
            r
        },
        JsonValue::Object(members) => {
            proof { lemma_json_view_members_len(members@); }
            let ghost vs = json_view_members(members@);
            let mut r = String::from_str("{");
            let mut i: usize = 0;
            while i < members.len()
                invariant
                    i <= members.len(),
                    *j == JsonValue::Object(*members),
                    vs == json_view_members(members@),
                    vs.len() == members@.len(),
                    forall|k: int| 0 <= k < members@.len() ==> #[trigger] vs[k] == (members@[k].0@, json_view(members@[k].1)),
                    forall|k: int| 0 <= k < members@.len() ==> json_size(#[trigger] members@[k].1) <= members_size(members@),
                    r@ == "{"@ + render_members(vs.take(i as int)),
                decreases members.len() - i,
            {
                if i > 0 {
                    r.append(",");
                }
                let key = quote_json_string(members[i].0.as_str());
                r.append(key.as_str());
                r.append(":");
                let value = render_json(&members[i].1);
                r.append(value.as_str());
                proof {
                    let t = vs.take(i + 1);
                    assert(t.drop_last() =~= vs.take(i as int));
                    assert(t.last() == vs[i as int]);
                    if i == 0 {
                        assert(vs.take(0) =~= Seq::<(Seq<char>, Json)>::empty());
                    }
                }
                i = i + 1;
            }
            r.append("}");
            assert(vs.take(members.len() as int) =~= vs);
            r
        },
    }
}

} // verus!
