//! Completion responses and the two ways a test states what it expects of them:
//! the exact response, or items that must all be among those offered.
use vstd::prelude::*;

use crate::compare::{comparison, paint, painted, write_fields_comparison, PaintColor};
use crate::json::{
    clone_items, lemma_json_view_members_len, json_eq, json_norm, json_view, json_view_items, lemma_json_view_items_len,
    items_sorted, key_lt, key_lt_from, keys_sorted, lemma_norm_items, members_sorted, norm_items, render, render_json, Json, JsonValue,
};

verus! {

/// A completion list: the items, and whether the server says it is incomplete.
#[derive(Debug)]
pub struct CompletionList {
    pub is_incomplete: bool,
    pub items: Vec<JsonValue>,
}

/// A `textDocument/completion` response. Each item is held as the JSON object that
/// the protocol sends for it.
#[derive(Debug)]
pub enum CompletionResponse {
    Array(Vec<JsonValue>),
    List(CompletionList),
}

/// What a completion test expects.
#[derive(Debug)]
pub enum CompletionResult {
    /// Exactly this response: the same kind, the same items in the same order.
    Exact(CompletionResponse),
    /// At least these items, in any order (a list's `is_incomplete` is not looked at).
    Contains(Vec<JsonValue>),
}

/// The items of a response, as JSON views.
pub open spec fn response_items(r: CompletionResponse) -> Seq<Json> {
    match r {
        CompletionResponse::Array(items) => json_view_items(items@),
        CompletionResponse::List(l) => json_view_items(l.items@),
    }
}

/// What equality looks at in items: their views with numbers taken by value, as
/// serde_json compares them (see `json_norm`).
pub open spec fn item_keys(items: Seq<JsonValue>) -> Seq<Json> {
    norm_items(json_view_items(items))
}

/// The items of a response as equality looks at them.
pub open spec fn response_keys(r: CompletionResponse) -> Seq<Json> {
    norm_items(response_items(r))
}

proof fn lemma_item_keys(items: Seq<JsonValue>)
    ensures
        item_keys(items).len() == items.len(),
        forall|k: int| 0 <= k < items.len() ==> #[trigger] item_keys(items)[k] == json_norm(json_view(items[k])),
{
    lemma_json_view_items_len(items);
    lemma_norm_items(json_view_items(items));
}

/// How often `x` occurs in `s`.
pub open spec fn occurrences(s: Seq<Json>, x: Json) -> nat
    decreases s.len(),
{
    if s.len() == 0 {
        0
    } else {
        (if s[0] == x { 1nat } else { 0nat }) + occurrences(s.drop_first(), x)
    }
}

/// Whether every item of `expected` occurs in `actual` at least as often as in
/// `expected`: the items are offered, repeats counted.
pub open spec fn offers_all(expected: Seq<Json>, actual: Seq<Json>) -> bool {
    forall|x: Json| occurrences(expected, x) <= occurrences(actual, x)
}

/// `s` without its first occurrence of `x` (unchanged where `x` does not occur).
pub open spec fn remove_first(s: Seq<Json>, x: Json) -> Seq<Json>
    decreases s.len(),
{
    if s.len() == 0 {
        s
    } else if s[0] == x {
        s.drop_first()
    } else {
        seq![s[0]] + remove_first(s.drop_first(), x)
    }
}

/// The expected items that the actual ones do not account for: each actual item,
/// in turn, accounts for the first expected item equal to it that is left.
pub open spec fn unprovided(expected: Seq<Json>, actual: Seq<Json>) -> Seq<Json>
    decreases actual.len(),
{
    if actual.len() == 0 {
        expected
    } else {
        unprovided(remove_first(expected, actual[0]), actual.drop_first())
    }
}

/// Whether `actual` satisfies `expected`.
pub open spec fn satisfies(expected: CompletionResult, actual: CompletionResponse) -> bool {
    match expected {
        CompletionResult::Contains(items) => offers_all(item_keys(items@), response_keys(actual)),
        CompletionResult::Exact(CompletionResponse::Array(e)) => match actual {
            CompletionResponse::Array(a) => item_keys(e@) == item_keys(a@),
            CompletionResponse::List(_) => false,
        },
        CompletionResult::Exact(CompletionResponse::List(e)) => match actual {
            CompletionResponse::List(a) => e.is_incomplete == a.is_incomplete && item_keys(e.items@)
                == item_keys(a.items@),
            CompletionResponse::Array(_) => false,
        },
    }
}

proof fn lemma_remove_first_occurrences(s: Seq<Json>, x: Json, y: Json)
    ensures
        occurrences(remove_first(s, x), y) == if y == x && occurrences(s, x) > 0 {
            (occurrences(s, y) - 1) as nat
        } else {
            occurrences(s, y)
        },
    decreases s.len(),
{
    if s.len() > 0 {
        lemma_remove_first_occurrences(s.drop_first(), x, y);
        if s[0] != x {
            let r = seq![s[0]] + remove_first(s.drop_first(), x);
            assert(r.drop_first() =~= remove_first(s.drop_first(), x));
        }
    }
}

proof fn lemma_unprovided_occurrences(expected: Seq<Json>, actual: Seq<Json>, y: Json)
    ensures
        occurrences(unprovided(expected, actual), y) == if occurrences(expected, y) > occurrences(actual, y) {
            (occurrences(expected, y) - occurrences(actual, y)) as nat
        } else {
            0nat
        },
    decreases actual.len(),
{
    if actual.len() > 0 {
        let e1 = remove_first(expected, actual[0]);
        lemma_unprovided_occurrences(e1, actual.drop_first(), y);
        lemma_remove_first_occurrences(expected, actual[0], y);
    }
}

proof fn lemma_empty_iff_no_occurrences(s: Seq<Json>)
    ensures
        s.len() == 0 <==> forall|x: Json| occurrences(s, x) == 0,
{
    if s.len() > 0 {
        assert(occurrences(s, s[0]) > 0);
    }
}

/// Every expected item is offered exactly when none is left unprovided.
pub proof fn lemma_unprovided_empty_iff_offers_all(expected: Seq<Json>, actual: Seq<Json>)
    ensures
        unprovided(expected, actual).len() == 0 <==> offers_all(expected, actual),
{
    lemma_empty_iff_no_occurrences(unprovided(expected, actual));
    if offers_all(expected, actual) {
        assert forall|x: Json| occurrences(unprovided(expected, actual), x) == 0 by {
            lemma_unprovided_occurrences(expected, actual, x);
        }
    }
    if unprovided(expected, actual).len() == 0 {
        assert forall|x: Json| occurrences(expected, x) <= occurrences(actual, x) by {
            lemma_unprovided_occurrences(expected, actual, x);
        }
    }
}

proof fn lemma_offers_all_self(s: Seq<Json>)
    ensures
        offers_all(s, s),
{
}

/// A response that exactly matches an expected one also contains its items: where
/// `Exact(e)` is satisfied, `Contains` of the items of `e` is satisfied too.
pub proof fn lemma_exact_implies_contains(e: CompletionResponse, expected_items: Vec<JsonValue>, actual: CompletionResponse)
    requires
        satisfies(CompletionResult::Exact(e), actual),
        json_view_items(expected_items@) == response_items(e),
    ensures
        satisfies(CompletionResult::Contains(expected_items), actual),
{
    lemma_offers_all_self(response_keys(actual));
}

/// Whatever the order of the items offered, a `Contains` verdict is the same: it
/// depends only on how often each item occurs.
pub proof fn lemma_contains_ignores_order(expected: Vec<JsonValue>, a: CompletionResponse, b: CompletionResponse)
    requires
        forall|x: Json| occurrences(response_keys(a), x) == occurrences(response_keys(b), x),
    ensures
        satisfies(CompletionResult::Contains(expected), a) == satisfies(CompletionResult::Contains(expected), b),
{
}

proof fn lemma_occurrences_concat(a: Seq<Json>, b: Seq<Json>, y: Json)
    ensures
        occurrences(a + b, y) == occurrences(a, y) + occurrences(b, y),
    decreases a.len(),
{
    if a.len() > 0 {
        lemma_occurrences_concat(a.drop_first(), b, y);
        assert((a + b).drop_first() =~= a.drop_first() + b);
    } else {
        assert(a + b =~= b);
    }
}

/// Offering more items never makes a `Contains` expectation fail: where `actual`
/// offers every expected item, so does `actual` followed by further items.
pub proof fn lemma_contains_monotonic(expected: Seq<Json>, actual: Seq<Json>, more: Seq<Json>)
    requires
        offers_all(expected, actual),
    ensures
        offers_all(expected, actual + more),
{
    assert forall|x: Json| occurrences(expected, x) <= occurrences(actual + more, x) by {
        lemma_occurrences_concat(actual, more, x);
    }
}

proof fn lemma_remove_first_at(s: Seq<Json>, x: Json, p: int)
    requires
        0 <= p < s.len(),
        s[p] == x,
        forall|k: int| 0 <= k < p ==> s[k] != x,
    ensures
        remove_first(s, x) == s.remove(p),
    decreases s.len(),
{
    if p > 0 {
        assert forall|k: int| 0 <= k < p - 1 implies s.drop_first()[k] != x by {
            assert(s.drop_first()[k] == s[k + 1]);
        }
        lemma_remove_first_at(s.drop_first(), x, p - 1);
        assert(seq![s[0]] + s.drop_first().remove(p - 1) =~= s.remove(p));
    }
}

proof fn lemma_remove_first_absent(s: Seq<Json>, x: Json)
    requires
        forall|k: int| 0 <= k < s.len() ==> s[k] != x,
    ensures
        remove_first(s, x) == s,
    decreases s.len(),
{
    if s.len() > 0 {
        assert forall|k: int| 0 <= k < s.len() - 1 implies s.drop_first()[k] != x by {
            assert(s.drop_first()[k] == s[k + 1]);
        }
        lemma_remove_first_absent(s.drop_first(), x);
        assert(seq![s[0]] + s.drop_first() =~= s);
    }
}

/// The views of the expected items at positions `positions`, in that order.
pub open spec fn picked(ev: Seq<Json>, positions: Seq<usize>) -> Seq<Json> {
    positions.map_values(|k: usize| ev[k as int])
}

/// `positions` as integers.
pub open spec fn indices(positions: Seq<usize>) -> Seq<int> {
    positions.map_values(|k: usize| k as int)
}

/// The indices `0..n`.
pub open spec fn all_indices(n: nat) -> Seq<int> {
    Seq::new(n, |k: int| k)
}

/// `idx` without its first index whose item in `keys` equals `x` (unchanged where
/// none does).
pub open spec fn remove_first_index(keys: Seq<Json>, idx: Seq<int>, x: Json) -> Seq<int>
    decreases idx.len(),
{
    if idx.len() == 0 {
        idx
    } else if keys[idx[0]] == x {
        idx.drop_first()
    } else {
        seq![idx[0]] + remove_first_index(keys, idx.drop_first(), x)
    }
}

/// The indices among `idx` of the expected items (`keys`) that `actual` leaves
/// unprovided: each actual item, in turn, accounts for the first index left whose
/// item equals it.
pub open spec fn unprovided_indices(keys: Seq<Json>, idx: Seq<int>, actual: Seq<Json>) -> Seq<int>
    decreases actual.len(),
{
    if actual.len() == 0 {
        idx
    } else {
        unprovided_indices(keys, remove_first_index(keys, idx, actual[0]), actual.drop_first())
    }
}

proof fn lemma_remove_first_index_at(keys: Seq<Json>, idx: Seq<int>, x: Json, p: int)
    requires
        0 <= p < idx.len(),
        keys[idx[p]] == x,
        forall|k: int| 0 <= k < p ==> keys[idx[k]] != x,
    ensures
        remove_first_index(keys, idx, x) == idx.remove(p),
    decreases idx.len(),
{
    if p > 0 {
        assert forall|k: int| 0 <= k < p - 1 implies keys[idx.drop_first()[k]] != x by {
            assert(idx.drop_first()[k] == idx[k + 1]);
        }
        lemma_remove_first_index_at(keys, idx.drop_first(), x, p - 1);
        assert(seq![idx[0]] + idx.drop_first().remove(p - 1) =~= idx.remove(p));
    }
}

proof fn lemma_remove_first_index_absent(keys: Seq<Json>, idx: Seq<int>, x: Json)
    requires
        forall|k: int| 0 <= k < idx.len() ==> keys[idx[k]] != x,
    ensures
        remove_first_index(keys, idx, x) == idx,
    decreases idx.len(),
{
    if idx.len() > 0 {
        assert forall|k: int| 0 <= k < idx.len() - 1 implies keys[idx.drop_first()[k]] != x by {
            assert(idx.drop_first()[k] == idx[k + 1]);
        }
        lemma_remove_first_index_absent(keys, idx.drop_first(), x);
        assert(seq![idx[0]] + idx.drop_first() =~= idx);
    }
}

/// The positions in `expected` of the items that `actual` leaves unprovided, in order.
fn unprovided_positions(expected: &Vec<JsonValue>, actual: &Vec<JsonValue>) -> (r: Vec<usize>)
    ensures
        forall|k: int| 0 <= k < r@.len() ==> r@[k] < expected@.len(),
        picked(item_keys(expected@), r@) == unprovided(item_keys(expected@), item_keys(actual@)),
        indices(r@) == unprovided_indices(item_keys(expected@), all_indices(expected@.len()), item_keys(actual@)),
{
    proof {
        lemma_item_keys(expected@);
        lemma_item_keys(actual@);
    }
    let ghost ev = item_keys(expected@);
    let ghost av = item_keys(actual@);
    let mut rem: Vec<usize> = Vec::new();
    let mut k: usize = 0;
    while k < expected.len()
        invariant
            k <= expected.len(),
            rem@.len() == k,
            forall|m: int| 0 <= m < k ==> rem@[m] == m,
        decreases expected.len() - k,
    {
        rem.push(k);
        k = k + 1;
    }
    assert(picked(ev, rem@) =~= ev);
    assert(indices(rem@) =~= all_indices(expected@.len()));
    assert(av.skip(0) =~= av);
    let mut i: usize = 0;
    while i < actual.len()
        invariant
            i <= actual.len(),
            ev == item_keys(expected@),
            av == item_keys(actual@),
            ev.len() == expected@.len(),
            av.len() == actual@.len(),
            forall|m: int| 0 <= m < expected@.len() ==> #[trigger] ev[m] == json_norm(json_view(expected@[m])),
            forall|m: int| 0 <= m < actual@.len() ==> #[trigger] av[m] == json_norm(json_view(actual@[m])),
            forall|m: int| 0 <= m < rem@.len() ==> rem@[m] < expected@.len(),
            unprovided(picked(ev, rem@), av.skip(i as int)) == unprovided(ev, av),
            unprovided_indices(ev, indices(rem@), av.skip(i as int)) == unprovided_indices(
                ev,
                all_indices(expected@.len()),
                av,
            ),
        decreases actual.len() - i,
    {
        let ghost before = picked(ev, rem@);
        let ghost x = av[i as int];
        let mut p: usize = 0;
        let mut found = false;
        while !found && p < rem.len()
            invariant
                p <= rem.len(),
                found ==> p < rem.len() && before[p as int] == x,
                forall|m: int| 0 <= m < rem@.len() ==> rem@[m] < expected@.len(),
                forall|m: int| 0 <= m < expected@.len() ==> #[trigger] ev[m] == json_norm(json_view(expected@[m])),
                x == json_norm(json_view(actual@[i as int])),
                i < actual.len(),
                before == picked(ev, rem@),
                before.len() == rem@.len(),
                forall|m: int| 0 <= m < p ==> before[m] != x,
            decreases rem.len() - p + (if found { 0int } else { 1int }),
        {
            if json_eq(&expected[rem[p]], &actual[i]) {
                found = true;
            } else {
                p = p + 1;
            }
        }
        let ghost before_idx = indices(rem@);
        assert forall|m: int| 0 <= m < rem@.len() implies ev[before_idx[m]] == before[m] by {}
        if found {
            proof {
                lemma_remove_first_at(before, x, p as int);
                assert forall|k: int| 0 <= k < p implies ev[before_idx[k]] != x by {
                    assert(ev[before_idx[k]] == before[k]);
                }
                assert(ev[before_idx[p as int]] == before[p as int]);
                lemma_remove_first_index_at(ev, before_idx, x, p as int);
            }
            rem.remove(p);
            assert(picked(ev, rem@) =~= before.remove(p as int));
            assert(indices(rem@) =~= before_idx.remove(p as int));
        } else {
            proof {
                lemma_remove_first_absent(before, x);
                assert forall|k: int| 0 <= k < before_idx.len() implies ev[before_idx[k]] != x by {
                    assert(ev[before_idx[k]] == before[k]);
                }
                lemma_remove_first_index_absent(ev, before_idx, x);
            }
        }
        proof {
            let s = av.skip(i as int);
            assert(s[0] == x);
            assert(s.drop_first() =~= av.skip(i + 1));
        }
        i = i + 1;
    }
    assert(av.skip(actual.len() as int) =~= Seq::<Json>::empty());
    rem
}

impl CompletionResponse {
    /// The items of the response.
    pub fn items(&self) -> (r: &Vec<JsonValue>)
        ensures
            json_view_items(r@) == response_items(*self),
    {
        match self {
            CompletionResponse::Array(items) => items,
            CompletionResponse::List(l) => &l.items,
        }
    }
}

fn items_eq(a: &Vec<JsonValue>, b: &Vec<JsonValue>) -> (r: bool)
    ensures
        r == (item_keys(a@) == item_keys(b@)),
{
    proof {
        lemma_item_keys(a@);
        lemma_item_keys(b@);
    }
    if a.len() != b.len() {
        return false;
    }
    let mut i: usize = 0;
    while i < a.len()
        invariant
            i <= a.len(),
            a.len() == b.len(),
            item_keys(a@).len() == a@.len(),
            item_keys(b@).len() == b@.len(),
            forall|k: int| 0 <= k < a@.len() ==> #[trigger] item_keys(a@)[k] == json_norm(json_view(a@[k])),
            forall|k: int| 0 <= k < b@.len() ==> #[trigger] item_keys(b@)[k] == json_norm(json_view(b@[k])),
            forall|k: int| 0 <= k < i ==> json_norm(json_view(a@[k])) == json_norm(json_view(b@[k])),
        decreases a.len() - i,
    {
        if !json_eq(&a[i], &b[i]) {
            assert(item_keys(a@)[i as int] != item_keys(b@)[i as int]);
            return false;
        }
        i = i + 1;
    }
    assert(item_keys(a@) =~= item_keys(b@));
    true
}

impl CompletionResult {
    /// Whether `actual` meets what `self` expects: for `Exact`, the same kind of
    /// response with equal items in order (and, for lists, the same `is_incomplete`);
    /// for `Contains`, every expected item among the actual ones, repeats counted.
    pub fn results_satisfy(&self, actual: &CompletionResponse) -> (r: bool)
        ensures
            r == satisfies(*self, *actual),
    {
        match self {
            CompletionResult::Contains(expected) => {
                let actual_items = actual.items();
                let rem = unprovided_positions(expected, actual_items);
                proof {
                    lemma_unprovided_empty_iff_offers_all(
                        item_keys(expected@),
                        item_keys(actual_items@),
                    );
                }
                rem.len() == 0
            },
            CompletionResult::Exact(CompletionResponse::Array(e)) => match actual {
                CompletionResponse::Array(a) => items_eq(e, a),
                CompletionResponse::List(_) => false,
            },
            CompletionResult::Exact(CompletionResponse::List(e)) => match actual {
                CompletionResponse::List(a) => e.is_incomplete == a.is_incomplete && items_eq(&e.items, &a.items),
                CompletionResponse::Array(_) => false,
            },
        }
    }
}

/// A completion response that did not meet what the test expected.
#[derive(Debug)]
pub struct CompletionMismatchError {
    pub test_id: String,
    pub expected: CompletionResult,
    pub actual: CompletionResponse,
}

/// `"s"` where `n` is more than one.
pub open spec fn plural(n: nat) -> Seq<char> {
    if n > 1 { "s"@ } else { Seq::empty() }
}

/// Each item rendered as compact JSON, painted red, on a line of its own.
pub open spec fn red_lines(items: Seq<Json>) -> Seq<char>
    decreases items.len(),
{
    if items.len() == 0 {
        Seq::empty()
    } else {
        red_lines(items.drop_last()) + painted(Some(PaintColor::Red), render(items.last())) + "\n"@
    }
}

/// The JSON form of a response: an array of items, or an object with the members
/// `isIncomplete` and `items`.
pub open spec fn response_json(r: CompletionResponse) -> Json {
    match r {
        CompletionResponse::Array(items) => Json::Array(json_view_items(items@)),
        CompletionResponse::List(l) => Json::Object(
            seq![("isIncomplete"@, Json::Bool(l.is_incomplete)), ("items"@, Json::Array(json_view_items(l.items@)))],
        ),
    }
}

/// The message of a completion mismatch.
pub open spec fn completion_mismatch_message(expected: CompletionResult, actual: CompletionResponse) -> Seq<char> {
    match expected {
        CompletionResult::Contains(items) => {
            let left = unprovided_indices(item_keys(items@), all_indices(items@.len()), response_keys(actual)).map_values(
                |k: int| json_view_items(items@)[k],
            );
            "Unprovided item"@ + plural(left.len()) + ":\n"@ + red_lines(left) + "\nProvided item"@ + plural(
                response_items(actual).len(),
            ) + ":\n"@ + red_lines(response_items(actual))
        },
        CompletionResult::Exact(e) => match (e, actual) {
            (CompletionResponse::Array(ei), CompletionResponse::List(al)) =>
                "Expected `CompletionResponse::Array`, got `CompletionResponse::List`\n"@ + comparison(
                    "CompletionResponse"@,
                    Json::Array(json_view_items(ei@)),
                    Json::Array(json_view_items(al.items@)),
                    0,
                ),
            (CompletionResponse::List(el), CompletionResponse::Array(ai)) =>
                "Expected `CompletionResponse::List`, got `CompletionResponse::Array`\n"@ + comparison(
                    "CompletionResponse"@,
                    Json::Array(json_view_items(el.items@)),
                    Json::Array(json_view_items(ai@)),
                    0,
                ),
            _ => comparison("CompletionResponse"@, response_json(e), response_json(actual), 0),
        },
    }
}

fn push_red_line(r: &mut String, item: &JsonValue)
    ensures
        final(r)@ == old(r)@ + painted(Some(PaintColor::Red), render(json_view(*item))) + "\n"@,
{
    let text = render_json(item);
    let line = paint(Some(PaintColor::Red), text.as_str());
    r.append(line.as_str());
    r.append("\n");
}

fn red_lines_of(items: &Vec<JsonValue>, r: &mut String)
    ensures
        final(r)@ == old(r)@ + red_lines(json_view_items(items@)),
{
    proof { lemma_json_view_items_len(items@); }
    let ghost vs = json_view_items(items@);
    let ghost start = r@;
    let mut i: usize = 0;
    while i < items.len()
        invariant
            i <= items.len(),
            vs == json_view_items(items@),
            vs.len() == items@.len(),
            forall|k: int| 0 <= k < items@.len() ==> #[trigger] vs[k] == json_view(items@[k]),
            r@ == start + red_lines(vs.take(i as int)),
        decreases items.len() - i,
    {
        push_red_line(r, &items[i]);
        proof {
            let t = vs.take(i + 1);
            assert(t.drop_last() =~= vs.take(i as int));
        }
        i = i + 1;
    }
    assert(vs.take(items.len() as int) =~= vs);
}

fn response_to_json(r: &CompletionResponse) -> (j: JsonValue)
    ensures
        json_view(j) == response_json(*r),
{
    match r {
        CompletionResponse::Array(items) => JsonValue::Array(clone_items(items)),
        CompletionResponse::List(l) => {
            let mut members: Vec<(String, JsonValue)> = Vec::new();
            members.push((String::from_str("isIncomplete"), JsonValue::Bool(l.is_incomplete)));
            members.push((String::from_str("items"), JsonValue::Array(clone_items(&l.items))));
            let j = JsonValue::Object(members);
            proof {
                lemma_json_view_members_len(members@);
            }
            assert(crate::json::json_view_members(members@) =~= seq![
                ("isIncomplete"@, Json::Bool(l.is_incomplete)),
                ("items"@, Json::Array(json_view_items(l.items@))),
            ]);
            j
        },
    }
}

/// Whether every item of a response holds its object members in sorted key order
/// (see `keys_sorted`).
pub open spec fn response_sorted(r: CompletionResponse) -> bool {
    items_sorted(response_items(r))
}

/// Whether every item that a completion expectation names has sorted keys.
pub open spec fn result_sorted(r: CompletionResult) -> bool {
    match r {
        CompletionResult::Contains(items) => items_sorted(json_view_items(items@)),
        CompletionResult::Exact(e) => response_sorted(e),
    }
}

proof fn lemma_response_json_sorted(r: CompletionResponse)
    requires
        response_sorted(r),
    ensures
        keys_sorted(response_json(r)),
{
    if let CompletionResponse::List(l) = r {
        reveal_strlit("isIncomplete");
        reveal_strlit("items");
        let m = seq![("isIncomplete"@, Json::Bool(l.is_incomplete)), ("items"@, Json::Array(json_view_items(l.items@)))];
        assert(key_lt_from("isIncomplete"@, "items"@, 1));
        assert(key_lt("isIncomplete"@, "items"@));
        let rest = m.drop_first();
        assert(rest.drop_first() =~= Seq::<(Seq<char>, Json)>::empty());
        assert(rest[0].1 == Json::Array(json_view_items(l.items@)));
        assert(items_sorted(json_view_items(l.items@)));
        assert(keys_sorted(Json::Array(json_view_items(l.items@))));
        assert(keys_sorted(rest[0].1));
        assert(rest.len() == 1);
        assert(members_sorted(rest.drop_first()));
        assert(members_sorted(rest));
        assert(keys_sorted(m[0].1));
        assert(members_sorted(m));
    }
}

impl CompletionMismatchError {
    /// The human-readable message of this error: for `Contains`, the expected items
    /// left unprovided and then all the items provided, one per line; for `Exact`, a
    /// field-by-field comparison, preceded by a note where the kinds of response differ.
    pub fn message(&self) -> (r: String)
        requires
            result_sorted(self.expected),
            response_sorted(self.actual),
        ensures
            r@ == completion_mismatch_message(self.expected, self.actual),
    {
        match &self.expected {
            CompletionResult::Contains(expected) => {
                let actual_items = self.actual.items();
                proof { lemma_json_view_items_len(actual_items@); }
                let positions = unprovided_positions(expected, actual_items);
                let ghost left = picked(json_view_items(expected@), positions@);
                let mut r = String::from_str("Unprovided item");
                if positions.len() > 1 {
                    r.append("s");
                }
                r.append(":\n");
                let ghost start = r@;
                proof { lemma_json_view_items_len(expected@); }
                let mut i: usize = 0;
                while i < positions.len()
                    invariant
                        i <= positions.len(),
                        left == picked(json_view_items(expected@), positions@),
                        left.len() == positions@.len(),
                        forall|k: int| 0 <= k < positions@.len() ==> positions@[k] < expected@.len(),
                        forall|k: int| 0 <= k < expected@.len() ==> #[trigger] json_view_items(expected@)[k] == json_view(expected@[k]),
                        r@ == start + red_lines(left.take(i as int)),
                    decreases positions.len() - i,
                {
                    push_red_line(&mut r, &expected[positions[i]]);
                    proof {
                        let t = left.take(i + 1);
                        assert(t.drop_last() =~= left.take(i as int));
                    }
                    i = i + 1;
                }
                assert(left.take(positions.len() as int) =~= left);
                r.append("\nProvided item");
                if actual_items.len() > 1 {
                    r.append("s");
                }
                r.append(":\n");
                red_lines_of(actual_items, &mut r);
                assert(left =~= unprovided_indices(
                    item_keys(expected@),
                    all_indices(expected@.len()),
                    response_keys(self.actual),
                ).map_values(|k: int| json_view_items(expected@)[k]));
                assert(r@ =~= "Unprovided item"@ + plural(left.len()) + ":\n"@ + red_lines(left) + "\nProvided item"@ + plural(
                    response_items(self.actual).len(),
                ) + ":\n"@ + red_lines(response_items(self.actual)));
                r
            },
            CompletionResult::Exact(e) => match (e, &self.actual) {
                (CompletionResponse::Array(ei), CompletionResponse::List(al)) => {
                    let mut r = String::from_str("Expected `CompletionResponse::Array`, got `CompletionResponse::List`\n");
                    let ej = JsonValue::Array(clone_items(ei));
                    let aj = JsonValue::Array(clone_items(&al.items));
                    let c = write_fields_comparison("CompletionResponse", &ej, &aj, 0);
                    r.append(c.as_str());
                    r
                },
                (CompletionResponse::List(el), CompletionResponse::Array(ai)) => {
                    let mut r = String::from_str("Expected `CompletionResponse::List`, got `CompletionResponse::Array`\n");
                    let ej = JsonValue::Array(clone_items(&el.items));
                    let aj = JsonValue::Array(clone_items(ai));
                    let c = write_fields_comparison("CompletionResponse", &ej, &aj, 0);
                    r.append(c.as_str());
                    r
                },
                _ => {
                    let ej = response_to_json(e);
                    let aj = response_to_json(&self.actual);
                    proof {
                        lemma_response_json_sorted(*e);
                        lemma_response_json_sorted(self.actual);
                    }
                    write_fields_comparison("CompletionResponse", &ej, &aj, 0)
                },
            },
        }
    }
}

} // verus!
