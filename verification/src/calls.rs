//! Call and type hierarchy items: cleaning the test directory out of their URIs, and
//! the canned call hierarchy responses of the dummy server.
use vstd::prelude::*;

use crate::fixtures::span;
use crate::json::JsonValue;
use crate::responses::{clean_all, is_invalid_path, lemma_clean_all_err_stays, lemma_clean_all_step};
use crate::types::{Range, TestSetupError};
use crate::uri::clean_uri;

verus! {

/// An item of a call or type hierarchy: a symbol with its kind and tags by protocol
/// number, where it is, and any data in JSON form.
#[derive(Debug)]
pub struct HierarchyItem {
    pub name: String,
    pub kind: i32,
    pub tags: Option<Vec<i32>>,
    pub detail: Option<String>,
    pub uri: String,
    pub range: Range,
    pub selection_range: Range,
    pub data: Option<JsonValue>,
}

/// An incoming or outgoing call: the item that calls or is called, and the ranges of
/// the calls.
#[derive(Debug)]
pub struct HierarchyCall {
    pub item: HierarchyItem,
    pub from_ranges: Vec<Range>,
}

/// Whether item `x` is `i` with (possibly) another URI.
pub open spec fn same_item(x: HierarchyItem, i: HierarchyItem) -> bool {
    &&& x.name == i.name
    &&& x.kind == i.kind
    &&& x.tags == i.tags
    &&& x.detail == i.detail
    &&& x.range == i.range
    &&& x.selection_range == i.selection_range
    &&& x.data == i.data
}

/// The URIs of `items`, in order.
pub open spec fn item_uris(items: Seq<HierarchyItem>) -> Seq<Seq<char>> {
    items.map_values(|i: HierarchyItem| i.uri@)
}

/// The URIs of the items of `calls`, in order.
pub open spec fn call_uris(calls: Seq<HierarchyCall>) -> Seq<Seq<char>> {
    calls.map_values(|c: HierarchyCall| c.item.uri@)
}

fn clean_item(i: HierarchyItem, root: &str) -> (r: Result<HierarchyItem, TestSetupError>)
    ensures
        match crate::uri::clean_text(i.uri@, root@) {
            Ok(c) => r matches Ok(x) && x.uri@ == c && same_item(x, i),
            Err(p) => r matches Err(e) && is_invalid_path(e, p),
        },
{
    match clean_uri(i.uri.as_str(), root) {
        Ok(u) => Ok(HierarchyItem {
            name: i.name,
            kind: i.kind,
            tags: i.tags,
            detail: i.detail,
            uri: u,
            range: i.range,
            selection_range: i.selection_range,
            data: i.data,
        }),
        Err(e) => Err(e),
    }
}

/// `v` with the test's source directory `root` stripped from each item's URI (see
/// `clean_uri`), in order; the first URI that does not clean is an `InvalidFilePath`
/// error.
pub fn clean_hierarchy_items(v: Vec<HierarchyItem>, root: &str) -> (r: Result<Vec<HierarchyItem>, TestSetupError>)
    ensures
        match clean_all(item_uris(v@), root@) {
            Ok(cs) => r matches Ok(out) && item_uris(out@) == cs && out@.len() == v@.len() && forall|i: int|
                0 <= i < out@.len() ==> same_item(#[trigger] out@[i], v@[i]),
            Err(p) => r matches Err(e) && is_invalid_path(e, p),
        },
{
    let ghost orig = v@;
    let ghost uris = item_uris(orig);
    let mut rest = v;
    let n = rest.len();
    let mut out: Vec<HierarchyItem> = Vec::new();
    assert(item_uris(out@) =~= Seq::<Seq<char>>::empty());
    let mut i: usize = 0;
    assert(uris.take(0) =~= Seq::<Seq<char>>::empty());
    assert(orig.skip(0) =~= orig);
    assert(clean_all(Seq::<Seq<char>>::empty(), root@) == Ok::<Seq<Seq<char>>, Seq<char>>(Seq::empty()));
    while rest.len() > 0
        invariant
            orig == v@,
            orig.len() == n,
            i + rest@.len() == orig.len(),
            rest@ == orig.skip(i as int),
            uris == item_uris(orig),
            out@.len() == i,
            forall|k: int| 0 <= k < i ==> same_item(#[trigger] out@[k], orig[k]),
            clean_all(uris.take(i as int), root@) == Ok::<Seq<Seq<char>>, Seq<char>>(item_uris(out@)),
        decreases rest.len(),
    {
        proof { lemma_clean_all_step(uris, root@, i as int); }
        let item = rest.remove(0);
        assert(orig[i as int] == item);
        assert(uris[i as int] == item.uri@);
        match clean_item(item, root) {
            Ok(x) => {
                let ghost before = item_uris(out@);
                out.push(x);
                assert(item_uris(out@) =~= before.push(x.uri@));
            },
            Err(e) => {
                proof { lemma_clean_all_err_stays(uris, root@, i + 1, orig.len() as int); }
                assert(uris.take(orig.len() as int) =~= uris);
                return Err(e);
            },
        }
        assert(rest@ =~= orig.skip(i + 1));
        i = i + 1;
    }
    assert(uris.take(orig.len() as int) =~= uris);
    Ok(out)
}

/// `v` with the test's source directory `root` stripped from the URI of each call's
/// item (see `clean_uri`), in order, the call ranges kept; the first URI that does
/// not clean is an `InvalidFilePath` error.
pub fn clean_hierarchy_calls(v: Vec<HierarchyCall>, root: &str) -> (r: Result<Vec<HierarchyCall>, TestSetupError>)
    ensures
        match clean_all(call_uris(v@), root@) {
            Ok(cs) => r matches Ok(out) && call_uris(out@) == cs && out@.len() == v@.len() && forall|i: int|
                0 <= i < out@.len() ==> same_item((#[trigger] out@[i]).item, v@[i].item) && out@[i].from_ranges
                    == v@[i].from_ranges,
            Err(p) => r matches Err(e) && is_invalid_path(e, p),
        },
{
    let ghost orig = v@;
    let ghost uris = call_uris(orig);
    let mut rest = v;
    let n = rest.len();
    let mut out: Vec<HierarchyCall> = Vec::new();
    assert(call_uris(out@) =~= Seq::<Seq<char>>::empty());
    let mut i: usize = 0;
    assert(uris.take(0) =~= Seq::<Seq<char>>::empty());
    assert(orig.skip(0) =~= orig);
    assert(clean_all(Seq::<Seq<char>>::empty(), root@) == Ok::<Seq<Seq<char>>, Seq<char>>(Seq::empty()));
    while rest.len() > 0
        invariant
            orig == v@,
            orig.len() == n,
            i + rest@.len() == orig.len(),
            rest@ == orig.skip(i as int),
            uris == call_uris(orig),
            out@.len() == i,
            forall|k: int| 0 <= k < i ==> same_item((#[trigger] out@[k]).item, orig[k].item) && out@[k].from_ranges
                == orig[k].from_ranges,
            clean_all(uris.take(i as int), root@) == Ok::<Seq<Seq<char>>, Seq<char>>(call_uris(out@)),
        decreases rest.len(),
    {
        proof { lemma_clean_all_step(uris, root@, i as int); }
        let call = rest.remove(0);
        assert(orig[i as int] == call);
        assert(uris[i as int] == call.item.uri@);
        match clean_item(call.item, root) {
            Ok(x) => {
                let ghost before = call_uris(out@);
                let ghost cu = x.uri@;
                out.push(HierarchyCall { item: x, from_ranges: call.from_ranges });
                assert(call_uris(out@) =~= before.push(cu));
            },
            Err(e) => {
                proof { lemma_clean_all_err_stays(uris, root@, i + 1, orig.len() as int); }
                assert(uris.take(orig.len() as int) =~= uris);
                return Err(e);
            },
        }
        assert(rest@ =~= orig.skip(i + 1));
        i = i + 1;
    }
    assert(uris.take(orig.len() as int) =~= uris);
    Ok(out)
}

/// Whether `i` is a canned item of kind file (1) without tags or data at `source`,
/// named `name` with the detail `detail`, over `range` with `selection` selected.
pub open spec fn is_canned_item(
    i: HierarchyItem,
    name: Seq<char>,
    detail: Seq<char>,
    range: Range,
    selection: Range,
    source: Seq<char>,
) -> bool {
    &&& i.name@ == name
    &&& i.kind == 1
    &&& i.tags is None
    &&& i.detail matches Some(d) && d@ == detail
    &&& i.uri@ == source
    &&& i.range == range
    &&& i.selection_range == selection
    &&& i.data is None
}

/// Whether `i` is the canned call hierarchy item numbered `k` (1 or 2).
pub open spec fn is_prepared_item(i: HierarchyItem, k: nat, source: Seq<char>) -> bool {
    if k == 1 {
        is_canned_item(i, "name1"@, "detail1"@, span(1, 2, 3, 4), span(5, 6, 7, 8), source)
    } else {
        is_canned_item(i, "name2"@, "detail2\nmore details"@, span(9, 10, 11, 12), span(13, 14, 15, 16), source)
    }
}

/// Whether `c` is the canned call numbered `k` (1 or 2): to or from the item
/// `name<k>` with the detail `detail<k>` over (1, 2)-(3, 4) with (5, 6)-(7, 8)
/// selected, called at (9, 10)-(11, 12).
pub open spec fn is_canned_call(c: HierarchyCall, k: nat, source: Seq<char>) -> bool {
    &&& is_canned_item(
        c.item,
        "name"@ + crate::text::decimal(k),
        "detail"@ + crate::text::decimal(k),
        span(1, 2, 3, 4),
        span(5, 6, 7, 8),
        source,
    )
    &&& c.from_ranges@ == seq![span(9, 10, 11, 12)]
}

/// Which canned items the response numbered `n` lists, in order.
pub open spec fn canned_numbers(n: u32) -> Option<Seq<nat>> {
    if n == 0 {
        Some(seq![])
    } else if n == 1 {
        Some(seq![1nat])
    } else if n == 2 {
        Some(seq![2nat])
    } else if n == 3 {
        Some(seq![1nat, 2nat])
    } else {
        None
    }
}

fn prepared_item(k: u32) -> (r: HierarchyItem)
    requires
        k == 1 || k == 2,
    ensures
        is_prepared_item(r, k as nat, "main.dummy"@),
{
    let (name, detail, range, selection) = if k == 1 {
        ("name1", "detail1", crate::fixtures::make_span(1, 2, 3, 4), crate::fixtures::make_span(5, 6, 7, 8))
    } else {
        ("name2", "detail2\nmore details", crate::fixtures::make_span(9, 10, 11, 12), crate::fixtures::make_span(13, 14, 15, 16))
    };
    HierarchyItem {
        name: String::from_str(name),
        kind: 1,
        tags: None,
        detail: Some(String::from_str(detail)),
        uri: crate::server::get_source_path(),
        range,
        selection_range: selection,
        data: None,
    }
}

fn canned_call(k: u32) -> (r: HierarchyCall)
    requires
        k == 1 || k == 2,
    ensures
        is_canned_call(r, k as nat, "main.dummy"@),
{
    let number = crate::text::decimal_string(k as u64);
    let mut name = String::from_str("name");
    name.append(number.as_str());
    let mut detail = String::from_str("detail");
    detail.append(number.as_str());
    let item = HierarchyItem {
        name,
        kind: 1,
        tags: None,
        detail: Some(detail),
        uri: crate::server::get_source_path(),
        range: crate::fixtures::make_span(1, 2, 3, 4),
        selection_range: crate::fixtures::make_span(5, 6, 7, 8),
        data: None,
    };
    let from_ranges = vec![crate::fixtures::make_span(9, 10, 11, 12)];
    assert(from_ranges@ =~= seq![span(9, 10, 11, 12)]);
    HierarchyCall { item, from_ranges }
}

/// For use with `test_prepare_call_hierarchy`: the items numbered `response_num`, at
/// the dummy source file.
pub fn get_prepare_call_hierachy_response(response_num: u32) -> (r: Option<Vec<HierarchyItem>>)
    ensures
        match (r, canned_numbers(response_num)) {
            (Some(v), Some(ns)) => v@.len() == ns.len() && forall|k: int|
                0 <= k < ns.len() ==> is_prepared_item(#[trigger] v@[k], ns[k], "main.dummy"@),
            (None, None) => true,
            _ => false,
        },
{
    if response_num == 0 {
        Some(Vec::new())
    } else if response_num <= 2 {
        Some(vec![prepared_item(response_num)])
    } else if response_num == 3 {
        Some(vec![prepared_item(1), prepared_item(2)])
    } else {
        None
    }
}

fn canned_calls(response_num: u32) -> (r: Option<Vec<HierarchyCall>>)
    ensures
        match (r, canned_numbers(response_num)) {
            (Some(v), Some(ns)) => v@.len() == ns.len() && forall|k: int|
                0 <= k < ns.len() ==> is_canned_call(#[trigger] v@[k], ns[k], "main.dummy"@),
            (None, None) => true,
            _ => false,
        },
{
    if response_num == 0 {
        Some(Vec::new())
    } else if response_num <= 2 {
        Some(vec![canned_call(response_num)])
    } else if response_num == 3 {
        Some(vec![canned_call(1), canned_call(2)])
    } else {
        None
    }
}

/// For use with `test_incoming_calls`: the calls numbered `response_num`, from items
/// at the dummy source file.
pub fn get_incoming_calls_response(response_num: u32) -> (r: Option<Vec<HierarchyCall>>)
    ensures
        match (r, canned_numbers(response_num)) {
            (Some(v), Some(ns)) => v@.len() == ns.len() && forall|k: int|
                0 <= k < ns.len() ==> is_canned_call(#[trigger] v@[k], ns[k], "main.dummy"@),
            (None, None) => true,
            _ => false,
        },
{
    canned_calls(response_num)
}

/// For use with `test_outgoing_calls`: the calls numbered `response_num`, to items at
/// the dummy source file.
pub fn get_outgoing_calls_response(response_num: u32) -> (r: Option<Vec<HierarchyCall>>)
    ensures
        match (r, canned_numbers(response_num)) {
            (Some(v), Some(ns)) => v@.len() == ns.len() && forall|k: int|
                0 <= k < ns.len() ==> is_canned_call(#[trigger] v@[k], ns[k], "main.dummy"@),
            (None, None) => true,
            _ => false,
        },
{
    canned_calls(response_num)
}

} // verus!
