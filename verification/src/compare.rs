//! Side-by-side rendering of an expected and an actual JSON value, field by field,
//! with matching fields painted green and differing ones red.
use vstd::prelude::*;

use crate::json::{
    keys_sorted, lemma_items_sorted, lemma_members_sorted, json_eq, json_same, json_size, json_view, json_view_items, json_view_members, lemma_json_view_items_len,
    lemma_json_view_members_len, items_size, members_size, render, render_json, Json, JsonValue,
};
use crate::text::{repeat_str, repeated};

verus! {

/// The terminal colors used to paint comparisons.
#[derive(Debug, Copy, Clone, PartialEq, Eq, Structural)]
pub enum PaintColor {
    Green,
    Red,
}

/// `text` wrapped in the ANSI escape codes that select `color` and reset it.
pub open spec fn painted(color: Option<PaintColor>, text: Seq<char>) -> Seq<char> {
    match color {
        Some(PaintColor::Green) => "\x1b[32m"@ + text + "\x1b[0m"@,
        Some(PaintColor::Red) => "\x1b[31m"@ + text + "\x1b[0m"@,
        None => text,
    }
}

/// Paints `text` with anstyle: a `Style` whose foreground is the ANSI color, written
/// before the text, and the style's reset after it. As anstyle's source shows, these
/// are `ESC[32m` (green) or `ESC[31m` (red) and `ESC[0m`; a plain style writes nothing.
#[verifier::external_body]
pub fn paint(color: Option<PaintColor>, text: &str) -> (r: String)
    ensures
        r@ == painted(color, text@),
{
    let fg = match color {
        Some(PaintColor::Green) => Some(anstyle::Color::Ansi(anstyle::AnsiColor::Green)),
        Some(PaintColor::Red) => Some(anstyle::Color::Ansi(anstyle::AnsiColor::Red)),
        None => None,
    };
    let style = anstyle::Style::new().fg_color(fg);
    format!("{style}{text}{style:#}")
}

/// Two spaces for each level of indentation.
pub open spec fn padding(indent: nat) -> Seq<char> {
    repeated("  "@, indent)
}

/// The next level of indentation (which stays put at the largest `usize`).
pub open spec fn deeper(indent: nat) -> nat {
    if indent < usize::MAX {
        indent + 1
    } else {
        indent
    }
}

/// The value of member `key` in `members`, if present (the first such member).
pub open spec fn member_value(members: Seq<(Seq<char>, Json)>, key: Seq<char>) -> Option<Json>
    decreases members.len(),
{
    if members.len() == 0 {
        None
    } else if members[0].0 == key {
        Some(members[0].1)
    } else {
        member_value(members.drop_first(), key)
    }
}

/// The value at `key` when `a` is an object that has it, else `null`.
pub open spec fn field_of(a: Json, key: Seq<char>) -> Json {
    match a {
        Json::Object(members) => match member_value(members, key) {
            Some(v) => v,
            None => Json::Null,
        },
        _ => Json::Null,
    }
}

/// The element at `i` when `a` is an array that long, else `null`.
pub open spec fn element_of(a: Json, i: int) -> Json {
    match a {
        Json::Array(items) => if 0 <= i < items.len() { items[i] } else { Json::Null },
        _ => Json::Null,
    }
}

/// The lines that compare one field: green when equal (as serde_json compares); otherwise red, with the
/// expected and actual values (strings on lines of their own).
pub open spec fn field_lines(indent: nat, key: Seq<char>, e: Json, a: Json) -> Seq<char> {
    let pad = padding(indent);
    let key_render = key + ": "@;
    if json_same(e, a) {
        painted(Some(PaintColor::Green), pad + key_render + render(e)) + "\n"@
    } else {
        let e_render = if e is Str { "\n"@ + pad + "    "@ + render(e) } else { " "@ + render(e) };
        let a_render = if a is Str { "\n"@ + pad + "    "@ + render(a) } else { " "@ + render(a) };
        painted(
            Some(PaintColor::Red),
            pad + key_render + "\n"@ + pad + "  Expected:"@ + e_render + "\n"@ + pad + "  Actual:"@
                + a_render,
        ) + "\n"@
    }
}

/// The comparison of expected value `e` against actual value `a`, labelled `name`
/// (the label is left out at the top level, indentation zero). Objects are compared
/// member by member, followed by the members only `a` has; arrays element by element,
/// followed by the elements only `a` has.
pub open spec fn comparison(name: Seq<char>, e: Json, a: Json, indent: nat) -> Seq<char>
    decreases e,
{
    let pad = padding(indent);
    let key_render = if indent == 0 { Seq::empty() } else { name + ": "@ };
    match e {
        Json::Object(members) => pad + key_render + "{\n"@ + member_comparisons(members, a, indent)
            + extra_members(members, a, indent) + pad + "},\n"@,
        Json::Array(items) => pad + key_render + "[\n"@ + item_comparisons(name, items, a, indent)
            + extra_items(name, items.len(), a, indent) + pad + "],\n"@,
        _ => field_lines(deeper(indent), name, e, a),
    }
}

/// The comparison of each expected member against the same field of `a`.
pub open spec fn member_comparisons(members: Seq<(Seq<char>, Json)>, a: Json, indent: nat) -> Seq<char>
    decreases members,
{
    if members.len() == 0 {
        Seq::empty()
    } else {
        let (k, v) = members.last();
        member_comparisons(members.drop_last(), a, indent) + if v is Object || v is Array {
            comparison(k, v, field_of(a, k), deeper(indent))
        } else {
            field_lines(deeper(indent), k, v, field_of(a, k))
        }
    }
}

/// The fields of `actual` (in order) whose keys `expected` lacks, each compared
/// against `null`.
pub open spec fn extra_member_lines(
    expected: Seq<(Seq<char>, Json)>,
    actual: Seq<(Seq<char>, Json)>,
    indent: nat,
) -> Seq<char>
    decreases actual.len(),
{
    if actual.len() == 0 {
        Seq::empty()
    } else {
        let (k, v) = actual.last();
        extra_member_lines(expected, actual.drop_last(), indent) + if member_value(expected, k) is None {
            field_lines(deeper(indent), k, Json::Null, v)
        } else {
            Seq::empty()
        }
    }
}

/// The members of `a` that `expected` lacks, when `a` is an object.
pub open spec fn extra_members(expected: Seq<(Seq<char>, Json)>, a: Json, indent: nat) -> Seq<char> {
    match a {
        Json::Object(actual) => extra_member_lines(expected, actual, indent),
        _ => Seq::empty(),
    }
}

/// The comparison of each expected element against the element of `a` at the same index.
pub open spec fn item_comparisons(name: Seq<char>, items: Seq<Json>, a: Json, indent: nat) -> Seq<char>
    decreases items,
{
    if items.len() == 0 {
        Seq::empty()
    } else {
        item_comparisons(name, items.drop_last(), a, indent) + comparison(
            name,
            items.last(),
            element_of(a, items.len() - 1),
            deeper(indent),
        )
    }
}

/// The elements of `actual` at index `n` and later, each compared against `null`.
pub open spec fn extra_item_lines(name: Seq<char>, actual: Seq<Json>, indent: nat) -> Seq<char>
    decreases actual.len(),
{
    if actual.len() == 0 {
        Seq::empty()
    } else {
        extra_item_lines(name, actual.drop_last(), indent) + field_lines(
            deeper(deeper(indent)),
            name,
            Json::Null,
            actual.last(),
        )
    }
}

/// The elements of `a` past the first `n`, when `a` is an array.
pub open spec fn extra_items(name: Seq<char>, n: nat, a: Json, indent: nat) -> Seq<char> {
    match a {
        Json::Array(actual) => if n < actual.len() {
            extra_item_lines(name, actual.skip(n as int), indent)
        } else {
            Seq::empty()
        },
        _ => Seq::empty(),
    }
}


fn deeper_exec(indent: usize) -> (r: usize)
    ensures
        r == deeper(indent as nat),
{
    if indent < usize::MAX {
        indent + 1
    } else {
        indent
    }
}

fn is_string(j: &JsonValue) -> (r: bool)
    ensures
        r == (json_view(*j) is Str),
{
    match j {
        JsonValue::String(_) => true,
        _ => false,
    }
}

fn is_container(j: &JsonValue) -> (r: bool)
    ensures
        r == (json_view(*j) is Object || json_view(*j) is Array),
{
    match j {
        JsonValue::Array(_) | JsonValue::Object(_) => true,
        _ => false,
    }
}

/// Compares one field: `key: value` in green when the two values are equal, otherwise
/// the key with the expected and actual values in red.
pub fn compare_fields(indent: usize, key: &str, expected: &JsonValue, actual: &JsonValue) -> (r: String)
    requires
        keys_sorted(json_view(*expected)),
        keys_sorted(json_view(*actual)),
    ensures
        r@ == field_lines(indent as nat, key@, json_view(*expected), json_view(*actual)),
{
    let padding = repeat_str("  ", indent);
    let mut key_render = String::from_str(key);
    key_render.append(": ");
    let e = render_json(expected);
    let mut text = padding.clone();
    text.append(key_render.as_str());
    if json_eq(expected, actual) {
        text.append(e.as_str());
        let mut r = paint(Some(PaintColor::Green), text.as_str());
        r.append("\n");
        r
    } else {
        let a = render_json(actual);
        let mut e_render = String::new();
        if is_string(expected) {
            e_render.append("\n");
            e_render.append(padding.as_str());
            e_render.append("    ");
        } else {
            e_render.append(" ");
        }
        e_render.append(e.as_str());
        let mut a_render = String::new();
        if is_string(actual) {
            a_render.append("\n");
            a_render.append(padding.as_str());
            a_render.append("    ");
        } else {
            a_render.append(" ");
        }
        a_render.append(a.as_str());
        text.append("\n");
        text.append(padding.as_str());
        text.append("  Expected:");
        text.append(e_render.as_str());
        text.append("\n");
        text.append(padding.as_str());
        text.append("  Actual:");
        text.append(a_render.as_str());
        let mut r = paint(Some(PaintColor::Red), text.as_str());
        r.append("\n");
        r
    }
}

proof fn lemma_member_value_skip(members: Seq<(Seq<char>, Json)>, key: Seq<char>, i: int)
    requires
        0 <= i < members.len(),
        members[i].0 != key,
    ensures
        member_value(members.skip(i), key) == member_value(members.skip(i + 1), key),
{
    assert(members.skip(i).drop_first() =~= members.skip(i + 1));
}

proof fn lemma_member_value_sorted(members: Seq<(Seq<char>, Json)>, key: Seq<char>)
    requires
        forall|i: int| 0 <= i < members.len() ==> keys_sorted(#[trigger] members[i].1),
    ensures
        member_value(members, key) matches Some(v) ==> keys_sorted(v),
    decreases members.len(),
{
    if members.len() > 0 && members[0].0 != key {
        let rest = members.drop_first();
        assert forall|i: int| 0 <= i < rest.len() implies keys_sorted(#[trigger] rest[i].1) by {
            assert(rest[i] == members[i + 1]);
        }
        lemma_member_value_sorted(rest, key);
    }
}

/// A field of a value with sorted keys has sorted keys.
proof fn lemma_field_sorted(a: Json, key: Seq<char>)
    requires
        keys_sorted(a),
    ensures
        keys_sorted(field_of(a, key)),
{
    if let Json::Object(members) = a {
        lemma_members_sorted(members);
        lemma_member_value_sorted(members, key);
    }
}

/// An element of a value with sorted keys has sorted keys.
proof fn lemma_element_sorted(a: Json, i: int)
    requires
        keys_sorted(a),
    ensures
        keys_sorted(element_of(a, i)),
{
    if let Json::Array(items) = a {
        lemma_items_sorted(items);
    }
}

/// The value at `key` of `a` when `a` is an object that has it, else `null`.
fn field_or_null<'a>(a: &'a JsonValue, key: &str, null: &'a JsonValue) -> (r: &'a JsonValue)
    requires
        json_view(*null) == Json::Null,
    ensures
        json_view(*r) == field_of(json_view(*a), key@),
{
    match a {
        JsonValue::Object(members) => {
            proof { lemma_json_view_members_len(members@); }
            let ghost vs = json_view_members(members@);
            let mut i: usize = 0;
            assert(vs.skip(0) =~= vs);
            while i < members.len()
                invariant
                    i <= members.len(),
                    *a == JsonValue::Object(*members),
                    json_view(*null) == Json::Null,
                    vs == json_view_members(members@),
                    vs.len() == members@.len(),
                    forall|k: int| 0 <= k < members@.len() ==> #[trigger] vs[k] == (members@[k].0@, json_view(members@[k].1)),
                    member_value(vs, key@) == member_value(vs.skip(i as int), key@),
                decreases members.len() - i,
            {
                if members[i].0 == String::from_str(key) {
                    assert(vs.skip(i as int)[0] == vs[i as int]);
                    return &members[i].1;
                }
                proof { lemma_member_value_skip(vs, key@, i as int); }
                i = i + 1;
            }
            assert(vs.skip(i as int) =~= Seq::<(Seq<char>, Json)>::empty());
            null
        },
        _ => null,
    }
}

/// Whether `members` has a member with key `key`.
fn has_member(members: &Vec<(String, JsonValue)>, key: &String) -> (r: bool)
    ensures
        r == (member_value(json_view_members(members@), key@) is Some),
{
    proof { lemma_json_view_members_len(members@); }
    let ghost vs = json_view_members(members@);
    let mut i: usize = 0;
    assert(vs.skip(0) =~= vs);
    while i < members.len()
        invariant
            i <= members.len(),
            vs == json_view_members(members@),
            vs.len() == members@.len(),
            forall|k: int| 0 <= k < members@.len() ==> #[trigger] vs[k] == (members@[k].0@, json_view(members@[k].1)),
            member_value(vs, key@) == member_value(vs.skip(i as int), key@),
        decreases members.len() - i,
    {
        if members[i].0 == *key {
            return true;
        }
        proof { lemma_member_value_skip(vs, key@, i as int); }
        i = i + 1;
    }
    assert(vs.skip(i as int) =~= Seq::<(Seq<char>, Json)>::empty());
    false
}

/// The element of `a` at `i` when `a` is an array that long, else `null`.
fn element_or_null<'a>(a: &'a JsonValue, i: usize, null: &'a JsonValue) -> (r: &'a JsonValue)
    requires
        json_view(*null) == Json::Null,
    ensures
        json_view(*r) == element_of(json_view(*a), i as int),
{
    match a {
        JsonValue::Array(items) => {
            proof { lemma_json_view_items_len(items@); }
            if i < items.len() {
                &items[i]
            } else {
                null
            }
        },
        _ => null,
    }
}


/// Writes the comparison of `expected` against `actual`, labelled `name`, at
/// indentation `indent` (no label at indentation zero): objects member by member and
/// then the members only `actual` has; arrays element by element and then the
/// elements only `actual` has; other values as one compared field. Both values hold
/// their object members in sorted key order (as serde_json's default map does), so
/// members are written sorted by key.
#[verifier::rlimit(60)]
pub fn write_fields_comparison(name: &str, expected: &JsonValue, actual: &JsonValue, indent: usize) -> (r: String)
    requires
        keys_sorted(json_view(*expected)),
        keys_sorted(json_view(*actual)),
    ensures
        r@ == comparison(name@, json_view(*expected), json_view(*actual), indent as nat),
    decreases json_size(*expected),
{
    let null = JsonValue::Null;
    let padding = repeat_str("  ", indent);
    let mut key_render = String::new();
    if indent != 0 {
        key_render.append(name);
        key_render.append(": ");
    }
    let d = deeper_exec(indent);
    let ghost a_view = json_view(*actual);
    match expected {
        JsonValue::Object(members) => {
            proof {
                lemma_json_view_members_len(members@);
                lemma_members_sorted(json_view_members(members@));
            }
            let ghost vs = json_view_members(members@);
            let mut r = padding.clone();
            r.append(key_render.as_str());
            r.append("{\n");
            let ghost prefix = r@;
            let mut i: usize = 0;
            while i < members.len()
                invariant
                    i <= members.len(),
                    *expected == JsonValue::Object(*members),
                    json_view(null) == Json::Null,
                    a_view == json_view(*actual),
                    d == deeper(indent as nat),
                    vs == json_view_members(members@),
                    vs.len() == members@.len(),
                    forall|k: int| 0 <= k < members@.len() ==> #[trigger] vs[k] == (members@[k].0@, json_view(members@[k].1)),
                    forall|k: int| 0 <= k < members@.len() ==> json_size(#[trigger] members@[k].1) <= members_size(members@),
                    forall|k: int| 0 <= k < vs.len() ==> keys_sorted(#[trigger] vs[k].1),
                    keys_sorted(a_view),
                    r@ == prefix + member_comparisons(vs.take(i as int), a_view, indent as nat),
                decreases members.len() - i,
            {
                let key = members[i].0.as_str();
                let value = &members[i].1;
                let av = field_or_null(actual, key, &null);
                proof {
                    lemma_field_sorted(a_view, key@);
                    assert(keys_sorted(vs[i as int].1));
                }
                let piece = if is_container(value) {
                    write_fields_comparison(key, value, av, d)
                } else {
                    compare_fields(d, key, value, av)
                };
                r.append(piece.as_str());
                proof {
                    let t = vs.take(i + 1);
                    assert(t.drop_last() =~= vs.take(i as int));
                    assert(t.last() == vs[i as int]);
                }
                i = i + 1;
            }
            assert(vs.take(members.len() as int) =~= vs);
            let ghost mid = r@;
            match actual {
                JsonValue::Object(actual_members) => {
                    proof {
                        lemma_json_view_members_len(actual_members@);
                        lemma_members_sorted(json_view_members(actual_members@));
                    }
                    let ghost avs = json_view_members(actual_members@);
                    let mut j: usize = 0;
                    while j < actual_members.len()
                        invariant
                            j <= actual_members.len(),
                            json_view(null) == Json::Null,
                            d == deeper(indent as nat),
                            vs == json_view_members(members@),
                            avs == json_view_members(actual_members@),
                            avs.len() == actual_members@.len(),
                            forall|k: int| 0 <= k < actual_members@.len() ==> #[trigger] avs[k] == (actual_members@[k].0@, json_view(actual_members@[k].1)),
                            forall|k: int| 0 <= k < avs.len() ==> keys_sorted(#[trigger] avs[k].1),
                            r@ == mid + extra_member_lines(vs, avs.take(j as int), indent as nat),
                        decreases actual_members.len() - j,
                    {
                        if !has_member(members, &actual_members[j].0) {
                            assert(keys_sorted(avs[j as int].1));
                            let piece = compare_fields(d, actual_members[j].0.as_str(), &null, &actual_members[j].1);
                            r.append(piece.as_str());
                        }
                        proof {
                            let t = avs.take(j + 1);
                            assert(t.drop_last() =~= avs.take(j as int));
                            assert(t.last() == avs[j as int]);
                        }
                        j = j + 1;
                    }
                    assert(avs.take(actual_members.len() as int) =~= avs);
                },
                _ => {},
            }
            r.append(padding.as_str());
            r.append("},\n");
            r
        },
        JsonValue::Array(items) => {
            proof {
                lemma_json_view_items_len(items@);
                lemma_items_sorted(json_view_items(items@));
            }
            let ghost vs = json_view_items(items@);
            let mut r = padding.clone();
            r.append(key_render.as_str());
            r.append("[\n");
            let ghost prefix = r@;
            let mut i: usize = 0;
            while i < items.len()
                invariant
                    i <= items.len(),
                    *expected == JsonValue::Array(*items),
                    json_view(null) == Json::Null,
                    a_view == json_view(*actual),
                    d == deeper(indent as nat),
                    vs == json_view_items(items@),
                    vs.len() == items@.len(),
                    forall|k: int| 0 <= k < items@.len() ==> #[trigger] vs[k] == json_view(items@[k]),
                    forall|k: int| 0 <= k < items@.len() ==> json_size(#[trigger] items@[k]) <= items_size(items@),
                    forall|k: int| 0 <= k < vs.len() ==> keys_sorted(#[trigger] vs[k]),
                    keys_sorted(a_view),
                    r@ == prefix + item_comparisons(name@, vs.take(i as int), a_view, indent as nat),
                decreases items.len() - i,
            {
                let av = element_or_null(actual, i, &null);
                proof {
                    lemma_element_sorted(a_view, i as int);
                    assert(keys_sorted(vs[i as int]));
                }
                let piece = write_fields_comparison(name, &items[i], av, d);
                r.append(piece.as_str());
                proof {
                    let t = vs.take(i + 1);
                    assert(t.drop_last() =~= vs.take(i as int));
                    assert(t.last() == vs[i as int]);
                }
                i = i + 1;
            }
            assert(vs.take(items.len() as int) =~= vs);
            let ghost mid = r@;
            match actual {
                JsonValue::Array(actual_items) => {
                    proof {
                        lemma_json_view_items_len(actual_items@);
                        lemma_items_sorted(json_view_items(actual_items@));
                    }
                    let ghost avs = json_view_items(actual_items@);
                    let dd = deeper_exec(d);
                    let mut j: usize = items.len();
                    while j < actual_items.len()
                        invariant
                            items.len() <= j <= actual_items.len() || actual_items.len() <= items.len(),
                            j >= items.len(),
                            json_view(null) == Json::Null,
                            dd == deeper(deeper(indent as nat)),
                            avs == json_view_items(actual_items@),
                            avs.len() == actual_items@.len(),
                            forall|k: int| 0 <= k < actual_items@.len() ==> #[trigger] avs[k] == json_view(actual_items@[k]),
                            forall|k: int| 0 <= k < avs.len() ==> keys_sorted(#[trigger] avs[k]),
                            j <= actual_items.len() ==> r@ == mid + extra_item_lines(
                                name@,
                                avs.subrange(items.len() as int, j as int),
                                indent as nat,
                            ),
                            j > actual_items.len() ==> r@ == mid,
                        decreases actual_items.len() - j,
                    {
                        assert(keys_sorted(avs[j as int]));
                        let piece = compare_fields(dd, name, &null, &actual_items[j]);
                        r.append(piece.as_str());
                        proof {
                            let t = avs.subrange(items.len() as int, j + 1);
                            assert(t.drop_last() =~= avs.subrange(items.len() as int, j as int));
                            assert(t.last() == avs[j as int]);
                        }
                        j = j + 1;
                    }
                    if items.len() < actual_items.len() {
                        assert(avs.subrange(items.len() as int, actual_items.len() as int) =~= avs.skip(items.len() as int));
                    }
                },
                _ => {},
            }
            r.append(padding.as_str());
            r.append("],\n");
            r
        },
        _ => compare_fields(d, name, expected, actual),
    }
}

/// Whether no object in `j` holds two members with the same key (as in every value
/// serde_json produces).
pub open spec fn keys_unique(j: Json) -> bool
    decreases j,
{
    match j {
        Json::Object(members) => {
            &&& forall|x: int, y: int|
                0 <= x < y < members.len() ==> (#[trigger] members[x]).0 != (#[trigger] members[y]).0
            &&& forall|x: int| 0 <= x < members.len() ==> keys_unique(#[trigger] members[x].1)
        },
        Json::Array(items) => forall|x: int| 0 <= x < items.len() ==> keys_unique(#[trigger] items[x]),
        _ => true,
    }
}

/// The comparison of `e` with an equal value: every field on a green line.
pub open spec fn matched(name: Seq<char>, e: Json, indent: nat) -> Seq<char>
    decreases e,
{
    let pad = padding(indent);
    let key_render = if indent == 0 { Seq::empty() } else { name + ": "@ };
    match e {
        Json::Object(members) => pad + key_render + "{\n"@ + matched_members(members, indent) + pad + "},\n"@,
        Json::Array(items) => pad + key_render + "[\n"@ + matched_items(name, items, indent) + pad + "],\n"@,
        _ => green_line(deeper(indent), name, e),
    }
}

/// A field shown as matching: painted green.
pub open spec fn green_line(indent: nat, key: Seq<char>, e: Json) -> Seq<char> {
    painted(Some(PaintColor::Green), padding(indent) + key + ": "@ + render(e)) + "\n"@
}

/// The members of an object compared with themselves.
pub open spec fn matched_members(members: Seq<(Seq<char>, Json)>, indent: nat) -> Seq<char>
    decreases members,
{
    if members.len() == 0 {
        Seq::empty()
    } else {
        let (k, v) = members.last();
        matched_members(members.drop_last(), indent) + if v is Object || v is Array {
            matched(k, v, deeper(indent))
        } else {
            green_line(deeper(indent), k, v)
        }
    }
}

/// The elements of an array compared with themselves.
pub open spec fn matched_items(name: Seq<char>, items: Seq<Json>, indent: nat) -> Seq<char>
    decreases items,
{
    if items.len() == 0 {
        Seq::empty()
    } else {
        matched_items(name, items.drop_last(), indent) + matched(name, items.last(), deeper(indent))
    }
}

proof fn lemma_member_value_unique(members: Seq<(Seq<char>, Json)>, i: int)
    requires
        0 <= i < members.len(),
        forall|x: int, y: int| 0 <= x < y < members.len() ==> (#[trigger] members[x]).0 != (#[trigger] members[y]).0,
    ensures
        member_value(members, members[i].0) == Some(members[i].1),
    decreases members.len(),
{
    if i > 0 {
        assert(members[0].0 != members[i].0);
        let rest = members.drop_first();
        assert forall|x: int, y: int| 0 <= x < y < rest.len() implies (#[trigger] rest[x]).0 != (#[trigger] rest[y]).0 by {
            assert(rest[x] == members[x + 1]);
            assert(rest[y] == members[y + 1]);
        }
        assert(rest[i - 1] == members[i]);
        lemma_member_value_unique(rest, i - 1);
    }
}

proof fn lemma_member_value_present(members: Seq<(Seq<char>, Json)>, i: int)
    requires
        0 <= i < members.len(),
    ensures
        member_value(members, members[i].0) is Some,
    decreases members.len(),
{
    if i > 0 && members[0].0 != members[i].0 {
        assert(members.drop_first()[i - 1] == members[i]);
        lemma_member_value_present(members.drop_first(), i - 1);
    }
}

proof fn lemma_no_extra_members(expected: Seq<(Seq<char>, Json)>, actual: Seq<(Seq<char>, Json)>, indent: nat)
    requires
        forall|x: int| 0 <= x < actual.len() ==> member_value(expected, (#[trigger] actual[x]).0) is Some,
    ensures
        extra_member_lines(expected, actual, indent) == Seq::<char>::empty(),
    decreases actual.len(),
{
    if actual.len() > 0 {
        assert(member_value(expected, actual[actual.len() - 1].0) is Some);
        let rest = actual.drop_last();
        assert forall|x: int| 0 <= x < rest.len() implies member_value(expected, (#[trigger] rest[x]).0) is Some by {
            assert(rest[x] == actual[x]);
        }
        lemma_no_extra_members(expected, rest, indent);
    }
}

/// Comparing a value with an equal one shows every field as matching: the rendering
/// paints nothing red (for values whose objects have distinct keys, as serde_json's
/// do).
pub proof fn lemma_equal_values_match(name: Seq<char>, e: Json, indent: nat)
    requires
        keys_unique(e),
    ensures
        comparison(name, e, e, indent) == matched(name, e, indent),
    decreases e,
{
    match e {
        Json::Object(members) => {
            lemma_members_match(members, members, members.len() as int, indent);
            assert(members.take(members.len() as int) =~= members);
            assert forall|x: int| 0 <= x < members.len() implies member_value(members, (#[trigger] members[x]).0) is Some by {
                lemma_member_value_present(members, x);
            }
            lemma_no_extra_members(members, members, indent);
        },
        Json::Array(items) => {
            lemma_items_match(name, items, items.len() as int, indent);
            assert(items.take(items.len() as int) =~= items);
        },
        _ => {},
    }
}

proof fn lemma_members_match(all: Seq<(Seq<char>, Json)>, members: Seq<(Seq<char>, Json)>, n: int, indent: nat)
    requires
        keys_unique(Json::Object(members)),
        all == members,
        0 <= n <= members.len(),
    ensures
        member_comparisons(members.take(n), Json::Object(all), indent) == matched_members(members.take(n), indent),
    decreases Json::Object(members), n,
{
    if n > 0 {
        lemma_members_match(all, members, n - 1, indent);
        let p = members.take(n);
        assert(p.drop_last() =~= members.take(n - 1));
        let (k, v) = p.last();
        assert(p.last() == members[n - 1]);
        lemma_member_value_unique(members, n - 1);
        assert(field_of(Json::Object(all), k) == v);
        assert(keys_unique(members[n - 1].1));
        assert(decreases_to!(Json::Object(members) => members[n - 1].1)) by {
            assert(decreases_to!(Json::Object(members) => members));
            assert(decreases_to!(members => members[n - 1]));
            assert(decreases_to!(members[n - 1] => members[n - 1].1));
        }
        if v is Object || v is Array {
            lemma_equal_values_match(k, v, deeper(indent));
        }
    }
}

proof fn lemma_items_match(name: Seq<char>, items: Seq<Json>, n: int, indent: nat)
    requires
        keys_unique(Json::Array(items)),
        0 <= n <= items.len(),
    ensures
        item_comparisons(name, items.take(n), Json::Array(items), indent) == matched_items(name, items.take(n), indent)
            + Seq::<char>::empty(),
    decreases Json::Array(items), n,
{
    if n > 0 {
        lemma_items_match(name, items, n - 1, indent);
        let p = items.take(n);
        assert(p.drop_last() =~= items.take(n - 1));
        assert(p.last() == items[n - 1]);
        assert(element_of(Json::Array(items), p.len() - 1) == items[n - 1]);
        assert(keys_unique(items[n - 1]));
        assert(decreases_to!(Json::Array(items) => items[n - 1])) by {
            assert(decreases_to!(Json::Array(items) => items));
            assert(decreases_to!(items => items[n - 1]));
        }
        lemma_equal_values_match(name, items[n - 1], deeper(indent));
    }
}

} // verus!
