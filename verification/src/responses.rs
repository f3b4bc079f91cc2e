//! Responses whose comparison is looser than equality: forms that the protocol
//! treats alike (an empty array of locations and an empty array of links, full
//! tokens without an id and a partial result with the same data) compare equal.
//! Locations in them are cleaned of the test directory before they are compared.
use vstd::prelude::*;

use crate::json::{
    clone_items, clone_json, json_eq, json_norm, json_same, json_view, json_view_items, lemma_json_view_items_len,
    lemma_norm_items, norm_items, Json, JsonValue,
};
use crate::types::{Range, TestSetupError};
use crate::uri::{clean_text, clean_uri};

verus! {

/// A location in a document.
#[derive(Debug)]
pub struct Location {
    pub uri: String,
    pub range: Range,
}

/// A link to a target location, with the span of the origin that links there.
#[derive(Debug)]
pub struct LocationLink {
    pub origin_selection_range: Option<Range>,
    pub target_uri: String,
    pub target_range: Range,
    pub target_selection_range: Range,
}

/// A response to `textDocument/definition` (and to declaration, implementation and
/// type-definition requests, which share its form).
#[derive(Debug)]
pub enum GotoDefinitionResponse {
    Scalar(Location),
    Array(Vec<Location>),
    Link(Vec<LocationLink>),
}

/// The view of a location: its URI's characters and its range.
pub open spec fn location_view(l: Location) -> (Seq<char>, Range) {
    (l.uri@, l.range)
}

/// The views of `v`, in order.
pub open spec fn locations_view(v: Seq<Location>) -> Seq<(Seq<char>, Range)> {
    v.map_values(|l: Location| location_view(l))
}

/// The view of a link.
pub open spec fn link_view(l: LocationLink) -> (Option<Range>, Seq<char>, Range, Range) {
    (l.origin_selection_range, l.target_uri@, l.target_range, l.target_selection_range)
}

/// The views of `v`, in order.
pub open spec fn links_view(v: Seq<LocationLink>) -> Seq<(Option<Range>, Seq<char>, Range, Range)> {
    v.map_values(|l: LocationLink| link_view(l))
}

/// Whether two definition responses are alike: equal, or an empty array of
/// locations against an empty array of links (both are `[]` on the wire).
pub open spec fn goto_alike(a: GotoDefinitionResponse, b: GotoDefinitionResponse) -> bool {
    match (a, b) {
        (GotoDefinitionResponse::Scalar(x), GotoDefinitionResponse::Scalar(y)) => location_view(x)
            == location_view(y),
        (GotoDefinitionResponse::Array(x), GotoDefinitionResponse::Array(y)) => locations_view(x@)
            == locations_view(y@),
        (GotoDefinitionResponse::Link(x), GotoDefinitionResponse::Link(y)) => links_view(x@) == links_view(
            y@,
        ),
        (GotoDefinitionResponse::Array(x), GotoDefinitionResponse::Link(y)) => x@.len() == 0 && y@.len()
            == 0,
        (GotoDefinitionResponse::Link(y), GotoDefinitionResponse::Array(x)) => x@.len() == 0 && y@.len()
            == 0,
        _ => false,
    }
}

fn location_eq(a: &Location, b: &Location) -> (r: bool)
    ensures
        r == (location_view(*a) == location_view(*b)),
{
    a.uri == b.uri && a.range == b.range
}

fn locations_eq(a: &Vec<Location>, b: &Vec<Location>) -> (r: bool)
    ensures
        r == (locations_view(a@) == locations_view(b@)),
{
    if a.len() != b.len() {
        assert(locations_view(a@).len() != locations_view(b@).len());
        return false;
    }
    let mut i: usize = 0;
    while i < a.len()
        invariant
            i <= a.len(),
            a.len() == b.len(),
            forall|k: int| 0 <= k < i ==> location_view(#[trigger] a@[k]) == location_view(b@[k]),
        decreases a.len() - i,
    {
        if !location_eq(&a[i], &b[i]) {
            assert(locations_view(a@)[i as int] != locations_view(b@)[i as int]);
            return false;
        }
        i = i + 1;
    }
    assert(locations_view(a@) =~= locations_view(b@));
    true
}

fn opt_range_eq(a: &Option<Range>, b: &Option<Range>) -> (r: bool)
    ensures
        r == (*a == *b),
{
    match (a, b) {
        (Some(x), Some(y)) => *x == *y,
        (None, None) => true,
        _ => false,
    }
}

fn links_eq(a: &Vec<LocationLink>, b: &Vec<LocationLink>) -> (r: bool)
    ensures
        r == (links_view(a@) == links_view(b@)),
{
    if a.len() != b.len() {
        assert(links_view(a@).len() != links_view(b@).len());
        return false;
    }
    let mut i: usize = 0;
    while i < a.len()
        invariant
            i <= a.len(),
            a.len() == b.len(),
            forall|k: int| 0 <= k < i ==> link_view(#[trigger] a@[k]) == link_view(b@[k]),
        decreases a.len() - i,
    {
        let x = &a[i];
        let y = &b[i];
        if !(opt_range_eq(&x.origin_selection_range, &y.origin_selection_range) && x.target_uri
            == y.target_uri && x.target_range == y.target_range && x.target_selection_range
            == y.target_selection_range) {
            assert(links_view(a@)[i as int] != links_view(b@)[i as int]);
            return false;
        }
        i = i + 1;
    }
    assert(links_view(a@) =~= links_view(b@));
    true
}

impl GotoDefinitionResponse {
    /// Whether `a` and `b` are alike: equal, or an empty array of locations against
    /// an empty array of links.
    pub fn approx_eq(a: &GotoDefinitionResponse, b: &GotoDefinitionResponse) -> (r: bool)
        ensures
            r == goto_alike(*a, *b),
    {
        match (a, b) {
            (GotoDefinitionResponse::Scalar(x), GotoDefinitionResponse::Scalar(y)) => location_eq(x, y),
            (GotoDefinitionResponse::Array(x), GotoDefinitionResponse::Array(y)) => locations_eq(x, y),
            (GotoDefinitionResponse::Link(x), GotoDefinitionResponse::Link(y)) => links_eq(x, y),
            (GotoDefinitionResponse::Array(x), GotoDefinitionResponse::Link(y)) => x.len() == 0 && y.len()
                == 0,
            (GotoDefinitionResponse::Link(y), GotoDefinitionResponse::Array(x)) => x.len() == 0 && y.len()
                == 0,
            _ => false,
        }
    }
}

/// Two definition responses are alike exactly when the other way round they are:
/// the comparison is symmetric.
pub proof fn lemma_goto_alike_symmetric(a: GotoDefinitionResponse, b: GotoDefinitionResponse)
    ensures
        goto_alike(a, b) == goto_alike(b, a),
{
}

/// Every definition response is alike to itself.
pub proof fn lemma_goto_alike_reflexive(a: GotoDefinitionResponse)
    ensures
        goto_alike(a, a),
{
}

/// Two single locations are alike exactly when they have the same URI and the same
/// range.
pub proof fn lemma_goto_scalars_alike(x: Location, y: Location)
    ensures
        goto_alike(GotoDefinitionResponse::Scalar(x), GotoDefinitionResponse::Scalar(y)) <==> (x.uri@
            == y.uri@ && x.range == y.range),
{
}

/// Two arrays of locations are alike exactly when they hold the same locations in
/// the same order: as many of them, and at each index the same URI and the same
/// range.
pub proof fn lemma_goto_arrays_alike(x: Vec<Location>, y: Vec<Location>)
    ensures
        goto_alike(GotoDefinitionResponse::Array(x), GotoDefinitionResponse::Array(y)) <==> (x@.len()
            == y@.len() && forall|i: int|
            0 <= i < x@.len() ==> #[trigger] x@[i].uri@ == y@[i].uri@ && x@[i].range == y@[i].range),
{
    let vx = locations_view(x@);
    let vy = locations_view(y@);
    if vx == vy {
        assert forall|i: int| 0 <= i < x@.len() implies #[trigger] x@[i].uri@ == y@[i].uri@ && x@[i].range
            == y@[i].range by {
            assert(vx[i] == vy[i]);
        }
    }
    if x@.len() == y@.len() && forall|i: int|
        0 <= i < x@.len() ==> #[trigger] x@[i].uri@ == y@[i].uri@ && x@[i].range == y@[i].range {
        assert(vx =~= vy);
    }
}

/// Two arrays of links are alike exactly when they hold the same links in the same
/// order: as many of them, and at each index the same origin span, target URI,
/// target range and target selection range.
pub proof fn lemma_goto_links_alike(x: Vec<LocationLink>, y: Vec<LocationLink>)
    ensures
        goto_alike(GotoDefinitionResponse::Link(x), GotoDefinitionResponse::Link(y)) <==> (x@.len()
            == y@.len() && forall|i: int|
            0 <= i < x@.len() ==> {
                &&& #[trigger] x@[i].origin_selection_range == y@[i].origin_selection_range
                &&& x@[i].target_uri@ == y@[i].target_uri@
                &&& x@[i].target_range == y@[i].target_range
                &&& x@[i].target_selection_range == y@[i].target_selection_range
            }),
{
    let vx = links_view(x@);
    let vy = links_view(y@);
    assert(vx.len() == x@.len() && vy.len() == y@.len());
    if vx == vy {
        assert forall|i: int| 0 <= i < x@.len() implies {
            &&& #[trigger] x@[i].origin_selection_range == y@[i].origin_selection_range
            &&& x@[i].target_uri@ == y@[i].target_uri@
            &&& x@[i].target_range == y@[i].target_range
            &&& x@[i].target_selection_range == y@[i].target_selection_range
        } by {
            assert(vx[i] == link_view(x@[i]));
            assert(vy[i] == link_view(y@[i]));
            assert(link_view(x@[i]) == link_view(y@[i]));
        }
    }
    if x@.len() == y@.len() && forall|i: int|
        0 <= i < x@.len() ==> {
            &&& #[trigger] x@[i].origin_selection_range == y@[i].origin_selection_range
            &&& x@[i].target_uri@ == y@[i].target_uri@
            &&& x@[i].target_range == y@[i].target_range
            &&& x@[i].target_selection_range == y@[i].target_selection_range
        } {
        assert(vx =~= vy);
    }
}

/// A semantic token, as the protocol encodes it: five integers relative to the
/// previous token.
#[derive(Debug, Copy, Clone, PartialEq, Eq, Structural)]
pub struct SemanticToken {
    pub delta_line: u32,
    pub delta_start: u32,
    pub length: u32,
    pub token_type: u32,
    pub token_modifiers_bitset: u32,
}

/// A full set of semantic tokens, with an id for later delta requests.
#[derive(Debug)]
pub struct SemanticTokens {
    pub result_id: Option<String>,
    pub data: Vec<SemanticToken>,
}

/// An edit of a previous set of tokens.
#[derive(Debug)]
pub struct SemanticTokensEdit {
    pub start: u32,
    pub delete_count: u32,
    pub data: Option<Vec<SemanticToken>>,
}

/// A response to a full or range semantic-tokens request.
#[derive(Debug)]
pub enum SemanticTokensResult {
    Tokens(SemanticTokens),
    Partial(Vec<SemanticToken>),
}

/// A response to a full semantic-tokens delta request.
#[derive(Debug)]
pub enum SemanticTokensFullDeltaResult {
    Tokens(SemanticTokens),
    TokensDelta { result_id: Option<String>, edits: Vec<SemanticTokensEdit> },
    PartialTokensDelta { edits: Vec<SemanticTokensEdit> },
}

/// The characters of an optional string.
pub open spec fn opt_text(s: Option<String>) -> Option<Seq<char>> {
    match s {
        Some(t) => Some(t@),
        None => None,
    }
}

/// The view of an edit.
pub open spec fn edit_view(e: SemanticTokensEdit) -> (u32, u32, Option<Seq<SemanticToken>>) {
    (
        e.start,
        e.delete_count,
        match e.data {
            Some(d) => Some(d@),
            None => None,
        },
    )
}

/// The views of `v`, in order.
pub open spec fn edits_view(v: Seq<SemanticTokensEdit>) -> Seq<(u32, u32, Option<Seq<SemanticToken>>)> {
    v.map_values(|e: SemanticTokensEdit| edit_view(e))
}

/// Whether two token results are alike: equal, or full tokens without an id against
/// a partial result with the same tokens.
pub open spec fn tokens_alike(a: SemanticTokensResult, b: SemanticTokensResult) -> bool {
    match (a, b) {
        (SemanticTokensResult::Tokens(t), SemanticTokensResult::Partial(p)) => t.result_id is None
            && t.data@ == p@,
        (SemanticTokensResult::Partial(p), SemanticTokensResult::Tokens(t)) => t.result_id is None
            && t.data@ == p@,
        (SemanticTokensResult::Tokens(x), SemanticTokensResult::Tokens(y)) => opt_text(x.result_id)
            == opt_text(y.result_id) && x.data@ == y.data@,
        (SemanticTokensResult::Partial(x), SemanticTokensResult::Partial(y)) => x@ == y@,
    }
}

/// Whether two delta results are alike: equal, or two different forms that both
/// carry nothing (no tokens, no edits, and no id on the full or the delta form).
pub open spec fn delta_alike(a: SemanticTokensFullDeltaResult, b: SemanticTokensFullDeltaResult) -> bool {
    match (a, b) {
        (SemanticTokensFullDeltaResult::Tokens(t), SemanticTokensFullDeltaResult::TokensDelta { edits, .. })
        | (SemanticTokensFullDeltaResult::TokensDelta { edits, .. }, SemanticTokensFullDeltaResult::Tokens(t)) =>
            t.result_id is None && t.data@.len() == 0 && edits@.len() == 0,
        (SemanticTokensFullDeltaResult::Tokens(t), SemanticTokensFullDeltaResult::PartialTokensDelta { edits })
        | (SemanticTokensFullDeltaResult::PartialTokensDelta { edits }, SemanticTokensFullDeltaResult::Tokens(t)) =>
            t.result_id is None && t.data@.len() == 0 && edits@.len() == 0,
        (
            SemanticTokensFullDeltaResult::TokensDelta { result_id, edits: e1 },
            SemanticTokensFullDeltaResult::PartialTokensDelta { edits: e2 },
        )
        | (
            SemanticTokensFullDeltaResult::PartialTokensDelta { edits: e2 },
            SemanticTokensFullDeltaResult::TokensDelta { result_id, edits: e1 },
        ) => result_id is None && e1@.len() == 0 && e2@.len() == 0,
        (SemanticTokensFullDeltaResult::Tokens(x), SemanticTokensFullDeltaResult::Tokens(y)) =>
            opt_text(x.result_id) == opt_text(y.result_id) && x.data@ == y.data@,
        (
            SemanticTokensFullDeltaResult::TokensDelta { result_id: i1, edits: e1 },
            SemanticTokensFullDeltaResult::TokensDelta { result_id: i2, edits: e2 },
        ) => opt_text(i1) == opt_text(i2) && edits_view(e1@) == edits_view(e2@),
        (
            SemanticTokensFullDeltaResult::PartialTokensDelta { edits: e1 },
            SemanticTokensFullDeltaResult::PartialTokensDelta { edits: e2 },
        ) => edits_view(e1@) == edits_view(e2@),
    }
}

fn opt_string_eq(a: &Option<String>, b: &Option<String>) -> (r: bool)
    ensures
        r == (opt_text(*a) == opt_text(*b)),
{
    match (a, b) {
        (Some(x), Some(y)) => *x == *y,
        (None, None) => true,
        _ => false,
    }
}

fn tokens_eq(a: &Vec<SemanticToken>, b: &Vec<SemanticToken>) -> (r: bool)
    ensures
        r == (a@ == b@),
{
    if a.len() != b.len() {
        return false;
    }
    let mut i: usize = 0;
    while i < a.len()
        invariant
            i <= a.len(),
            a.len() == b.len(),
            forall|k: int| 0 <= k < i ==> a@[k] == b@[k],
        decreases a.len() - i,
    {
        if a[i] != b[i] {
            return false;
        }
        i = i + 1;
    }
    assert(a@ =~= b@);
    true
}

fn edits_eq(a: &Vec<SemanticTokensEdit>, b: &Vec<SemanticTokensEdit>) -> (r: bool)
    ensures
        r == (edits_view(a@) == edits_view(b@)),
{
    if a.len() != b.len() {
        assert(edits_view(a@).len() != edits_view(b@).len());
        return false;
    }
    let mut i: usize = 0;
    while i < a.len()
        invariant
            i <= a.len(),
            a.len() == b.len(),
            forall|k: int| 0 <= k < i ==> edit_view(#[trigger] a@[k]) == edit_view(b@[k]),
        decreases a.len() - i,
    {
        let x = &a[i];
        let y = &b[i];
        let same_data = match (&x.data, &y.data) {
            (Some(p), Some(q)) => tokens_eq(p, q),
            (None, None) => true,
            _ => false,
        };
        if !(x.start == y.start && x.delete_count == y.delete_count && same_data) {
            assert(edits_view(a@)[i as int] != edits_view(b@)[i as int]);
            return false;
        }
        i = i + 1;
    }
    assert(edits_view(a@) =~= edits_view(b@));
    true
}

impl SemanticTokensResult {
    /// Whether `a` and `b` are alike: equal, or full tokens without an id against a
    /// partial result with the same tokens.
    pub fn approx_eq(a: &SemanticTokensResult, b: &SemanticTokensResult) -> (r: bool)
        ensures
            r == tokens_alike(*a, *b),
    {
        match (a, b) {
            (SemanticTokensResult::Tokens(t), SemanticTokensResult::Partial(p)) => t.result_id.is_none()
                && tokens_eq(&t.data, p),
            (SemanticTokensResult::Partial(p), SemanticTokensResult::Tokens(t)) => t.result_id.is_none()
                && tokens_eq(&t.data, p),
            (SemanticTokensResult::Tokens(x), SemanticTokensResult::Tokens(y)) => opt_string_eq(
                &x.result_id,
                &y.result_id,
            ) && tokens_eq(&x.data, &y.data),
            (SemanticTokensResult::Partial(x), SemanticTokensResult::Partial(y)) => tokens_eq(x, y),
        }
    }
}

impl SemanticTokensFullDeltaResult {
    /// Whether `a` and `b` are alike: equal, or two different forms that both carry
    /// nothing.
    pub fn approx_eq(a: &SemanticTokensFullDeltaResult, b: &SemanticTokensFullDeltaResult) -> (r: bool)
        ensures
            r == delta_alike(*a, *b),
    {
        match (a, b) {
            (SemanticTokensFullDeltaResult::Tokens(t), SemanticTokensFullDeltaResult::TokensDelta { edits, .. })
            | (SemanticTokensFullDeltaResult::TokensDelta { edits, .. }, SemanticTokensFullDeltaResult::Tokens(t)) =>
                t.result_id.is_none() && t.data.len() == 0 && edits.len() == 0,
            (SemanticTokensFullDeltaResult::Tokens(t), SemanticTokensFullDeltaResult::PartialTokensDelta { edits })
            | (SemanticTokensFullDeltaResult::PartialTokensDelta { edits }, SemanticTokensFullDeltaResult::Tokens(t)) =>
                t.result_id.is_none() && t.data.len() == 0 && edits.len() == 0,
            (
                SemanticTokensFullDeltaResult::TokensDelta { result_id, edits: e1 },
                SemanticTokensFullDeltaResult::PartialTokensDelta { edits: e2 },
            )
            | (
                SemanticTokensFullDeltaResult::PartialTokensDelta { edits: e2 },
                SemanticTokensFullDeltaResult::TokensDelta { result_id, edits: e1 },
            ) => result_id.is_none() && e1.len() == 0 && e2.len() == 0,
            (SemanticTokensFullDeltaResult::Tokens(x), SemanticTokensFullDeltaResult::Tokens(y)) =>
                opt_string_eq(&x.result_id, &y.result_id) && tokens_eq(&x.data, &y.data),
            (
                SemanticTokensFullDeltaResult::TokensDelta { result_id: i1, edits: e1 },
                SemanticTokensFullDeltaResult::TokensDelta { result_id: i2, edits: e2 },
            ) => opt_string_eq(i1, i2) && edits_eq(e1, e2),
            (
                SemanticTokensFullDeltaResult::PartialTokensDelta { edits: e1 },
                SemanticTokensFullDeltaResult::PartialTokensDelta { edits: e2 },
            ) => edits_eq(e1, e2),
        }
    }
}

/// The token comparison is symmetric.
pub proof fn lemma_tokens_alike_symmetric(a: SemanticTokensResult, b: SemanticTokensResult)
    ensures
        tokens_alike(a, b) == tokens_alike(b, a),
{
}

/// Every token result is alike to itself.
pub proof fn lemma_tokens_alike_reflexive(a: SemanticTokensResult)
    ensures
        tokens_alike(a, a),
{
}

/// Two full token results are alike exactly when they carry the same result id (or
/// both none) and the same tokens: as many of them, and at each index the same
/// five integers.
pub proof fn lemma_full_tokens_alike(x: SemanticTokens, y: SemanticTokens)
    ensures
        tokens_alike(SemanticTokensResult::Tokens(x), SemanticTokensResult::Tokens(y)) <==> {
            &&& x.result_id is None <==> y.result_id is None
            &&& x.result_id matches Some(a) ==> y.result_id matches Some(b) && a@ == b@
            &&& x.data@.len() == y.data@.len()
            &&& forall|i: int| 0 <= i < x.data@.len() ==> #[trigger] x.data@[i] == y.data@[i]
        },
{
    if x.data@.len() == y.data@.len() && forall|i: int|
        0 <= i < x.data@.len() ==> #[trigger] x.data@[i] == y.data@[i] {
        assert(x.data@ =~= y.data@);
    }
}

/// In a delta request's result, two full token results are alike exactly when they
/// carry the same result id (or both none) and the same tokens, index by index.
pub proof fn lemma_delta_full_tokens_alike(x: SemanticTokens, y: SemanticTokens)
    ensures
        delta_alike(SemanticTokensFullDeltaResult::Tokens(x), SemanticTokensFullDeltaResult::Tokens(y)) <==> {
            &&& x.result_id is None <==> y.result_id is None
            &&& x.result_id matches Some(a) ==> y.result_id matches Some(b) && a@ == b@
            &&& x.data@.len() == y.data@.len()
            &&& forall|i: int| 0 <= i < x.data@.len() ==> #[trigger] x.data@[i] == y.data@[i]
        },
{
    if x.data@.len() == y.data@.len() && forall|i: int|
        0 <= i < x.data@.len() ==> #[trigger] x.data@[i] == y.data@[i] {
        assert(x.data@ =~= y.data@);
    }
}

/// Two delta forms are alike exactly when they carry the same result id (or both
/// none) and as many edits, each with the same start, delete count and tokens as
/// the edit at its index in the other.
pub proof fn lemma_deltas_alike(i1: Option<String>, e1: Vec<SemanticTokensEdit>, i2: Option<String>, e2: Vec<SemanticTokensEdit>)
    ensures
        delta_alike(
            SemanticTokensFullDeltaResult::TokensDelta { result_id: i1, edits: e1 },
            SemanticTokensFullDeltaResult::TokensDelta { result_id: i2, edits: e2 },
        ) <==> {
            &&& opt_text(i1) == opt_text(i2)
            &&& e1@.len() == e2@.len()
            &&& forall|k: int| 0 <= k < e1@.len() ==> {
                &&& #[trigger] e1@[k].start == e2@[k].start
                &&& e1@[k].delete_count == e2@[k].delete_count
                &&& e1@[k].data is None <==> e2@[k].data is None
                &&& e1@[k].data matches Some(d1) ==> e2@[k].data matches Some(d2) && d1@ == d2@
            }
        },
{
    let v1 = edits_view(e1@);
    let v2 = edits_view(e2@);
    assert(v1.len() == e1@.len() && v2.len() == e2@.len());
    if v1 == v2 {
        assert forall|k: int| 0 <= k < e1@.len() implies {
            &&& #[trigger] e1@[k].start == e2@[k].start
            &&& e1@[k].delete_count == e2@[k].delete_count
            &&& e1@[k].data is None <==> e2@[k].data is None
            &&& e1@[k].data matches Some(d1) ==> e2@[k].data matches Some(d2) && d1@ == d2@
        } by {
            assert(v1[k] == edit_view(e1@[k]));
            assert(v2[k] == edit_view(e2@[k]));
        }
    }
    if e1@.len() == e2@.len() && forall|k: int| 0 <= k < e1@.len() ==> {
        &&& #[trigger] e1@[k].start == e2@[k].start
        &&& e1@[k].delete_count == e2@[k].delete_count
        &&& e1@[k].data is None <==> e2@[k].data is None
        &&& e1@[k].data matches Some(d1) ==> e2@[k].data matches Some(d2) && d1@ == d2@
    } {
        assert forall|k: int| 0 <= k < e1@.len() implies v1[k] == v2[k] by {
            assert(e1@[k].start == e2@[k].start);
        }
        assert(v1 =~= v2);
    }
}

/// Full tokens and a partial result are alike exactly when the full tokens carry no
/// result id and the same tokens as the partial result, index by index.
pub proof fn lemma_full_partial_tokens_alike(t: SemanticTokens, p: Vec<SemanticToken>)
    ensures
        tokens_alike(SemanticTokensResult::Tokens(t), SemanticTokensResult::Partial(p)) <==> {
            &&& t.result_id is None
            &&& t.data@.len() == p@.len()
            &&& forall|i: int| 0 <= i < p@.len() ==> #[trigger] t.data@[i] == p@[i]
        },
        tokens_alike(SemanticTokensResult::Partial(p), SemanticTokensResult::Tokens(t)) <==> tokens_alike(
            SemanticTokensResult::Tokens(t),
            SemanticTokensResult::Partial(p),
        ),
{
    if t.data@.len() == p@.len() && forall|i: int| 0 <= i < p@.len() ==> #[trigger] t.data@[i] == p@[i] {
        assert(t.data@ =~= p@);
    }
}

/// Every delta result is alike to itself.
pub proof fn lemma_delta_alike_reflexive(a: SemanticTokensFullDeltaResult)
    ensures
        delta_alike(a, a),
{
}

/// The delta comparison is symmetric.
pub proof fn lemma_delta_alike_symmetric(a: SemanticTokensFullDeltaResult, b: SemanticTokensFullDeltaResult)
    ensures
        delta_alike(a, b) == delta_alike(b, a),
{
}

/// The cleaned texts of `uris` (see `clean_uri`), or the text that the first one
/// that fails names.
pub open spec fn clean_all(uris: Seq<Seq<char>>, root: Seq<char>) -> Result<Seq<Seq<char>>, Seq<char>>
    decreases uris.len(),
{
    if uris.len() == 0 {
        Ok(Seq::empty())
    } else {
        match clean_all(uris.drop_last(), root) {
            Err(p) => Err(p),
            Ok(cs) => match clean_text(uris.last(), root) {
                Ok(c) => Ok(cs.push(c)),
                Err(p) => Err(p),
            },
        }
    }
}

pub proof fn lemma_clean_all_err_stays(uris: Seq<Seq<char>>, root: Seq<char>, k: int, m: int)
    requires
        0 <= k <= m <= uris.len(),
        clean_all(uris.take(k), root) is Err,
    ensures
        clean_all(uris.take(m), root) == clean_all(uris.take(k), root),
    decreases m - k,
{
    if m > k {
        lemma_clean_all_err_stays(uris, root, k, m - 1);
        assert(uris.take(m).drop_last() =~= uris.take(m - 1));
    }
}

pub proof fn lemma_clean_all_step(uris: Seq<Seq<char>>, root: Seq<char>, i: int)
    requires
        0 <= i < uris.len(),
    ensures
        clean_all(uris.take(i + 1), root) == match clean_all(uris.take(i), root) {
            Err(p) => Err(p),
            Ok(cs) => match clean_text(uris[i], root) {
                Ok(c) => Ok(cs.push(c)),
                Err(p) => Err(p),
            },
        },
{
    assert(uris.take(i + 1).drop_last() =~= uris.take(i));
    assert(uris.take(i + 1).last() == uris[i]);
}

/// The URIs of `v`, as characters.
pub open spec fn location_uris(v: Seq<Location>) -> Seq<Seq<char>> {
    v.map_values(|l: Location| l.uri@)
}

/// The target URIs of `v`, as characters.
pub open spec fn link_uris(v: Seq<LocationLink>) -> Seq<Seq<char>> {
    v.map_values(|l: LocationLink| l.target_uri@)
}

/// Whether `out` is `locs` with URIs `cs`.
pub open spec fn locations_with_uris(out: Seq<Location>, locs: Seq<Location>, cs: Seq<Seq<char>>) -> bool {
    &&& out.len() == locs.len()
    &&& cs.len() == locs.len()
    &&& forall|i: int| 0 <= i < out.len() ==> (#[trigger] out[i]).uri@ == cs[i] && out[i].range == locs[i].range
}

/// Whether `out` is `links` with target URIs `cs`.
pub open spec fn links_with_uris(out: Seq<LocationLink>, links: Seq<LocationLink>, cs: Seq<Seq<char>>) -> bool {
    &&& out.len() == links.len()
    &&& cs.len() == links.len()
    &&& forall|i: int|
        0 <= i < out.len() ==> {
            &&& (#[trigger] out[i]).target_uri@ == cs[i]
            &&& out[i].origin_selection_range == links[i].origin_selection_range
            &&& out[i].target_range == links[i].target_range
            &&& out[i].target_selection_range == links[i].target_selection_range
        }
}

/// `e` is an `InvalidFilePath` error naming `p`.
pub open spec fn is_invalid_path(e: TestSetupError, p: Seq<char>) -> bool {
    e matches TestSetupError::InvalidFilePath(q) && q@ == p
}

/// `locs` with the test's source directory `root` stripped from each URI (see
/// `clean_uri`), ranges kept; the first URI that does not clean is an
/// `InvalidFilePath` error.
pub fn clean_locations(locs: &Vec<Location>, root: &str) -> (r: Result<Vec<Location>, TestSetupError>)
    ensures
        match clean_all(location_uris(locs@), root@) {
            Ok(cs) => r matches Ok(out) && locations_with_uris(out@, locs@, cs),
            Err(p) => r matches Err(e) && is_invalid_path(e, p),
        },
{
    let ghost uris = location_uris(locs@);
    let mut out: Vec<Location> = Vec::new();
    let mut i: usize = 0;
    assert(uris.take(0) =~= Seq::<Seq<char>>::empty());
    while i < locs.len()
        invariant
            i <= locs.len(),
            uris == location_uris(locs@),
            clean_all(uris.take(i as int), root@) matches Ok(cs) && locations_with_uris(
                out@,
                locs@.take(i as int),
                cs,
            ),
        decreases locs.len() - i,
    {
        proof { lemma_clean_all_step(uris, root@, i as int); }
        let ghost cs = clean_all(uris.take(i as int), root@)->Ok_0;
        match clean_uri(locs[i].uri.as_str(), root) {
            Ok(c) => {
                out.push(Location { uri: c, range: locs[i].range });
                assert(locations_with_uris(out@, locs@.take(i + 1), cs.push(c@)));
            },
            Err(e) => {
                proof { lemma_clean_all_err_stays(uris, root@, i + 1, locs@.len() as int); }
                assert(uris.take(locs@.len() as int) =~= uris);
                return Err(e);
            },
        }
        i = i + 1;
    }
    assert(uris.take(locs@.len() as int) =~= uris);
    assert(locs@.take(locs@.len() as int) =~= locs@);
    Ok(out)
}

fn clean_links(links: &Vec<LocationLink>, root: &str) -> (r: Result<Vec<LocationLink>, TestSetupError>)
    ensures
        match clean_all(link_uris(links@), root@) {
            Ok(cs) => r matches Ok(out) && links_with_uris(out@, links@, cs),
            Err(p) => r matches Err(e) && is_invalid_path(e, p),
        },
{
    let ghost uris = link_uris(links@);
    let mut out: Vec<LocationLink> = Vec::new();
    let mut i: usize = 0;
    assert(uris.take(0) =~= Seq::<Seq<char>>::empty());
    while i < links.len()
        invariant
            i <= links.len(),
            uris == link_uris(links@),
            clean_all(uris.take(i as int), root@) matches Ok(cs) && links_with_uris(
                out@,
                links@.take(i as int),
                cs,
            ),
        decreases links.len() - i,
    {
        proof { lemma_clean_all_step(uris, root@, i as int); }
        let ghost cs = clean_all(uris.take(i as int), root@)->Ok_0;
        let l = &links[i];
        match clean_uri(l.target_uri.as_str(), root) {
            Ok(c) => {
                out.push(
                    LocationLink {
                        origin_selection_range: l.origin_selection_range,
                        target_uri: c,
                        target_range: l.target_range,
                        target_selection_range: l.target_selection_range,
                    },
                );
                assert(links_with_uris(out@, links@.take(i + 1), cs.push(c@)));
            },
            Err(e) => {
                proof { lemma_clean_all_err_stays(uris, root@, i + 1, links@.len() as int); }
                assert(uris.take(links@.len() as int) =~= uris);
                return Err(e);
            },
        }
        i = i + 1;
    }
    assert(uris.take(links@.len() as int) =~= uris);
    assert(links@.take(links@.len() as int) =~= links@);
    Ok(out)
}

/// The definition response `r` with every URI cleaned of the test directory `root`,
/// or the first cleaning error.
pub open spec fn goto_cleaned(resp: GotoDefinitionResponse, root: Seq<char>, r: Result<
    GotoDefinitionResponse,
    TestSetupError,
>) -> bool {
    match resp {
        GotoDefinitionResponse::Scalar(l) => match clean_text(l.uri@, root) {
            Ok(c) => r matches Ok(GotoDefinitionResponse::Scalar(m)) && m.uri@ == c && m.range == l.range,
            Err(p) => r matches Err(e) && is_invalid_path(e, p),
        },
        GotoDefinitionResponse::Array(locs) => match clean_all(location_uris(locs@), root) {
            Ok(cs) => r matches Ok(GotoDefinitionResponse::Array(out)) && locations_with_uris(out@, locs@, cs),
            Err(p) => r matches Err(e) && is_invalid_path(e, p),
        },
        GotoDefinitionResponse::Link(links) => match clean_all(link_uris(links@), root) {
            Ok(cs) => r matches Ok(GotoDefinitionResponse::Link(out)) && links_with_uris(out@, links@, cs),
            Err(p) => r matches Err(e) && is_invalid_path(e, p),
        },
    }
}

impl GotoDefinitionResponse {
    /// This response with every URI cleaned of the test's source directory `root`
    /// (see `clean_uri`); the first URI that cannot be cleaned is the error.
    pub fn clean_response(&self, root: &str) -> (r: Result<GotoDefinitionResponse, TestSetupError>)
        ensures
            goto_cleaned(*self, root@, r),
    {
        match self {
            GotoDefinitionResponse::Scalar(l) => match clean_uri(l.uri.as_str(), root) {
                Ok(c) => Ok(GotoDefinitionResponse::Scalar(Location { uri: c, range: l.range })),
                Err(e) => Err(e),
            },
            GotoDefinitionResponse::Array(locs) => match clean_locations(locs, root) {
                Ok(out) => Ok(GotoDefinitionResponse::Array(out)),
                Err(e) => Err(e),
            },
            GotoDefinitionResponse::Link(links) => match clean_links(links, root) {
                Ok(out) => Ok(GotoDefinitionResponse::Link(out)),
                Err(e) => Err(e),
            },
        }
    }
}

/// Information about a symbol, the older form of a workspace symbol.
#[derive(Debug)]
pub struct SymbolInformation {
    pub name: String,
    pub kind: i32,
    pub tags: Option<Vec<i32>>,
    pub deprecated: Option<bool>,
    pub location: Location,
    pub container_name: Option<String>,
}

/// Where a workspace symbol is: a full location, or only the URI of its document.
#[derive(Debug)]
pub enum WorkspaceLocation {
    Full(Location),
    Uri(String),
}

/// A workspace symbol, the newer form.
#[derive(Debug)]
pub struct WorkspaceSymbol {
    pub name: String,
    pub kind: i32,
    pub tags: Option<Vec<i32>>,
    pub container_name: Option<String>,
    pub location: WorkspaceLocation,
    pub data: Option<JsonValue>,
}

/// A response to `workspace/symbol`.
#[derive(Debug)]
pub enum WorkspaceSymbolResponse {
    Flat(Vec<SymbolInformation>),
    Nested(Vec<WorkspaceSymbol>),
}

/// The view of a workspace location.
pub enum WsLocationView {
    Full(Seq<char>, Range),
    Uri(Seq<char>),
}

/// The tags, as a sequence.
pub open spec fn tags_view(t: Option<Vec<i32>>) -> Option<Seq<i32>> {
    match t {
        Some(v) => Some(v@),
        None => None,
    }
}

/// The view of a workspace location.
pub open spec fn ws_location_view(l: WorkspaceLocation) -> WsLocationView {
    match l {
        WorkspaceLocation::Full(loc) => WsLocationView::Full(loc.uri@, loc.range),
        WorkspaceLocation::Uri(u) => WsLocationView::Uri(u@),
    }
}

/// The view of symbol information.
pub open spec fn symbol_info_view(s: SymbolInformation) -> (Seq<char>, i32, Option<Seq<i32>>, Option<bool>, (Seq<char>, Range), Option<Seq<char>>) {
    (s.name@, s.kind, tags_view(s.tags), s.deprecated, location_view(s.location), opt_text(s.container_name))
}

/// The view of a workspace symbol.
pub open spec fn workspace_symbol_view(s: WorkspaceSymbol) -> (Seq<char>, i32, Option<Seq<i32>>, Option<Seq<char>>, WsLocationView, Option<Json>) {
    (
        s.name@,
        s.kind,
        tags_view(s.tags),
        opt_text(s.container_name),
        ws_location_view(s.location),
        match s.data {
            Some(d) => Some(json_view(d)),
            None => None,
        },
    )
}

/// What of a workspace symbol equality looks at: its view, with the `data` value
/// taken as serde_json compares it (numbers by value).
pub open spec fn workspace_symbol_key(s: WorkspaceSymbol) -> (Seq<char>, i32, Option<Seq<i32>>, Option<Seq<char>>, WsLocationView, Option<Json>) {
    (
        s.name@,
        s.kind,
        tags_view(s.tags),
        opt_text(s.container_name),
        ws_location_view(s.location),
        match s.data {
            Some(d) => Some(json_norm(json_view(d))),
            None => None,
        },
    )
}

/// Whether symbol information and a workspace symbol say the same: their JSON
/// forms agree (no `deprecated` flag, no `data`, a full location) and so do the
/// fields they share.
pub open spec fn symbol_matches(si: SymbolInformation, ws: WorkspaceSymbol) -> bool {
    &&& si.deprecated is None
    &&& ws.data is None
    &&& ws.location matches WorkspaceLocation::Full(l) && location_view(si.location) == location_view(l)
    &&& si.name@ == ws.name@
    &&& si.kind == ws.kind
    &&& tags_view(si.tags) == tags_view(ws.tags)
    &&& opt_text(si.container_name) == opt_text(ws.container_name)
}

/// Whether a flat list and a nested list of symbols say the same, pair by pair.
pub open spec fn flat_matches_nested(f: Seq<SymbolInformation>, n: Seq<WorkspaceSymbol>) -> bool {
    f.len() == n.len() && forall|i: int| 0 <= i < f.len() ==> symbol_matches(#[trigger] f[i], n[i])
}

/// Whether two workspace-symbol responses are alike: equal, or a flat and a nested
/// list that say the same.
pub open spec fn symbols_alike(a: WorkspaceSymbolResponse, b: WorkspaceSymbolResponse) -> bool {
    match (a, b) {
        (WorkspaceSymbolResponse::Flat(f), WorkspaceSymbolResponse::Nested(n)) => flat_matches_nested(f@, n@),
        (WorkspaceSymbolResponse::Nested(n), WorkspaceSymbolResponse::Flat(f)) => flat_matches_nested(f@, n@),
        (WorkspaceSymbolResponse::Flat(x), WorkspaceSymbolResponse::Flat(y)) => x@.map_values(
            |s: SymbolInformation| symbol_info_view(s),
        ) == y@.map_values(|s: SymbolInformation| symbol_info_view(s)),
        (WorkspaceSymbolResponse::Nested(x), WorkspaceSymbolResponse::Nested(y)) => x@.map_values(
            |s: WorkspaceSymbol| workspace_symbol_key(s),
        ) == y@.map_values(|s: WorkspaceSymbol| workspace_symbol_key(s)),
    }
}

fn tags_eq(a: &Option<Vec<i32>>, b: &Option<Vec<i32>>) -> (r: bool)
    ensures
        r == (tags_view(*a) == tags_view(*b)),
{
    match (a, b) {
        (Some(x), Some(y)) => {
            if x.len() != y.len() {
                return false;
            }
            let mut i: usize = 0;
            while i < x.len()
                invariant
                    i <= x.len(),
                    x.len() == y.len(),
                    tags_view(*a) == Some(x@),
                    tags_view(*b) == Some(y@),
                    forall|k: int| 0 <= k < i ==> x@[k] == y@[k],
                decreases x.len() - i,
            {
                if x[i] != y[i] {
                    assert(x@[i as int] != y@[i as int]);
                    return false;
                }
                i = i + 1;
            }
            assert(x@ =~= y@);
            true
        },
        (None, None) => true,
        _ => false,
    }
}

/// Whether symbol information `si` and workspace symbol `ws` say the same.
fn cmp_inner(si: &SymbolInformation, ws: &WorkspaceSymbol) -> (r: bool)
    ensures
        r == symbol_matches(*si, *ws),
{
    if si.deprecated.is_some() {
        return false;
    }
    if ws.data.is_some() {
        return false;
    }
    match &ws.location {
        WorkspaceLocation::Full(l) => {
            if !location_eq(&si.location, l) {
                return false;
            }
        },
        WorkspaceLocation::Uri(_) => {
            return false;
        },
    }
    if si.name != ws.name {
        return false;
    }
    if si.kind != ws.kind {
        return false;
    }
    if !tags_eq(&si.tags, &ws.tags) {
        return false;
    }
    opt_string_eq(&si.container_name, &ws.container_name)
}

fn symbol_info_eq(a: &SymbolInformation, b: &SymbolInformation) -> (r: bool)
    ensures
        r == (symbol_info_view(*a) == symbol_info_view(*b)),
{
    a.name == b.name && a.kind == b.kind && tags_eq(&a.tags, &b.tags) && a.deprecated == b.deprecated
        && location_eq(&a.location, &b.location) && opt_string_eq(&a.container_name, &b.container_name)
}

fn workspace_symbol_eq(a: &WorkspaceSymbol, b: &WorkspaceSymbol) -> (r: bool)
    ensures
        r == (workspace_symbol_key(*a) == workspace_symbol_key(*b)),
{
    let same_location = match (&a.location, &b.location) {
        (WorkspaceLocation::Full(x), WorkspaceLocation::Full(y)) => x.uri == y.uri && x.range == y.range,
        (WorkspaceLocation::Uri(x), WorkspaceLocation::Uri(y)) => *x == *y,
        _ => false,
    };
    let same_data = match (&a.data, &b.data) {
        (Some(x), Some(y)) => json_eq(x, y),
        (None, None) => true,
        _ => false,
    };
    a.name == b.name && a.kind == b.kind && tags_eq(&a.tags, &b.tags) && opt_string_eq(
        &a.container_name,
        &b.container_name,
    ) && same_location && same_data
}

fn symbol_infos_eq(x: &Vec<SymbolInformation>, y: &Vec<SymbolInformation>) -> (r: bool)
    ensures
        r == (x@.map_values(|s: SymbolInformation| symbol_info_view(s)) == y@.map_values(
            |s: SymbolInformation| symbol_info_view(s),
        )),
{
    let ghost vx = x@.map_values(|s: SymbolInformation| symbol_info_view(s));
    let ghost vy = y@.map_values(|s: SymbolInformation| symbol_info_view(s));
    if x.len() != y.len() {
        assert(vx.len() != vy.len());
        return false;
    }
    let mut i: usize = 0;
    while i < x.len()
        invariant
            i <= x.len(),
            x.len() == y.len(),
            vx == x@.map_values(|s: SymbolInformation| symbol_info_view(s)),
            vy == y@.map_values(|s: SymbolInformation| symbol_info_view(s)),
            forall|k: int| 0 <= k < i ==> symbol_info_view(#[trigger] x@[k]) == symbol_info_view(y@[k]),
        decreases x.len() - i,
    {
        if !symbol_info_eq(&x[i], &y[i]) {
            assert(vx[i as int] != vy[i as int]);
            return false;
        }
        i = i + 1;
    }
    assert(vx =~= vy);
    true
}

fn workspace_symbols_eq(x: &Vec<WorkspaceSymbol>, y: &Vec<WorkspaceSymbol>) -> (r: bool)
    ensures
        r == (x@.map_values(|s: WorkspaceSymbol| workspace_symbol_key(s)) == y@.map_values(
            |s: WorkspaceSymbol| workspace_symbol_key(s),
        )),
{
    let ghost vx = x@.map_values(|s: WorkspaceSymbol| workspace_symbol_key(s));
    let ghost vy = y@.map_values(|s: WorkspaceSymbol| workspace_symbol_key(s));
    if x.len() != y.len() {
        assert(vx.len() != vy.len());
        return false;
    }
    let mut i: usize = 0;
    while i < x.len()
        invariant
            i <= x.len(),
            x.len() == y.len(),
            vx == x@.map_values(|s: WorkspaceSymbol| workspace_symbol_key(s)),
            vy == y@.map_values(|s: WorkspaceSymbol| workspace_symbol_key(s)),
            forall|k: int| 0 <= k < i ==> workspace_symbol_key(#[trigger] x@[k]) == workspace_symbol_key(y@[k]),
        decreases x.len() - i,
    {
        if !workspace_symbol_eq(&x[i], &y[i]) {
            assert(vx[i as int] != vy[i as int]);
            return false;
        }
        i = i + 1;
    }
    assert(vx =~= vy);
    true
}

impl WorkspaceSymbolResponse {
    /// Whether `a` and `b` are alike: equal, or a flat and a nested list that say
    /// the same, pair by pair.
    pub fn approx_eq(a: &WorkspaceSymbolResponse, b: &WorkspaceSymbolResponse) -> (r: bool)
        ensures
            r == symbols_alike(*a, *b),
    {
        match (a, b) {
            (WorkspaceSymbolResponse::Flat(f), WorkspaceSymbolResponse::Nested(n))
            | (WorkspaceSymbolResponse::Nested(n), WorkspaceSymbolResponse::Flat(f)) => {
                if f.len() != n.len() {
                    return false;
                }
                let mut i: usize = 0;
                let ghost mut k: int = 0;
                while i < f.len()
                    invariant
                        i <= f.len(),
                        k == i,
                        f.len() == n.len(),
                        symbols_alike(*a, *b) == flat_matches_nested(f@, n@),
                        forall|m: int| 0 <= m < i ==> symbol_matches(#[trigger] f@[m], n@[m]),
                    decreases f.len() - i,
                {
                    if !cmp_inner(&f[i], &n[i]) {
                        assert(!symbol_matches(f@[k], n@[k]));
                        return false;
                    }
                    i = i + 1;
                    proof { k = k + 1; }
                }
                true
            },
            (WorkspaceSymbolResponse::Flat(x), WorkspaceSymbolResponse::Flat(y)) => symbol_infos_eq(x, y),
            (WorkspaceSymbolResponse::Nested(x), WorkspaceSymbolResponse::Nested(y)) => workspace_symbols_eq(x, y),
        }
    }
}

/// Every workspace-symbol response is alike to itself.
pub proof fn lemma_symbols_alike_reflexive(a: WorkspaceSymbolResponse)
    ensures
        symbols_alike(a, a),
{
}

/// The workspace-symbol comparison is symmetric.
pub proof fn lemma_symbols_alike_symmetric(a: WorkspaceSymbolResponse, b: WorkspaceSymbolResponse)
    ensures
        symbols_alike(a, b) == symbols_alike(b, a),
{
}

/// A flat and a nested symbol list, in either order, are alike exactly when they
/// are as long and, index by index, the symbols have the same name, kind, tags and
/// container name, the nested symbol has a full location with the flat symbol's URI
/// and range, the flat symbol carries no `deprecated` flag and the nested one no
/// `data`.
pub proof fn lemma_flat_nested_symbols_alike(f: Vec<SymbolInformation>, n: Vec<WorkspaceSymbol>)
    ensures
        symbols_alike(WorkspaceSymbolResponse::Flat(f), WorkspaceSymbolResponse::Nested(n)) <==> {
            &&& f@.len() == n@.len()
            &&& forall|i: int| 0 <= i < f@.len() ==> {
                &&& #[trigger] f@[i].name@ == n@[i].name@
                &&& f@[i].kind == n@[i].kind
                &&& tags_view(f@[i].tags) == tags_view(n@[i].tags)
                &&& opt_text(f@[i].container_name) == opt_text(n@[i].container_name)
                &&& n@[i].location matches WorkspaceLocation::Full(l) && l.uri@ == f@[i].location.uri@
                    && l.range == f@[i].location.range
                &&& f@[i].deprecated is None
                &&& n@[i].data is None
            }
        },
        symbols_alike(WorkspaceSymbolResponse::Nested(n), WorkspaceSymbolResponse::Flat(f))
            <==> symbols_alike(WorkspaceSymbolResponse::Flat(f), WorkspaceSymbolResponse::Nested(n)),
{
    if flat_matches_nested(f@, n@) {
        assert forall|i: int| 0 <= i < f@.len() implies {
            &&& #[trigger] f@[i].name@ == n@[i].name@
            &&& f@[i].kind == n@[i].kind
            &&& tags_view(f@[i].tags) == tags_view(n@[i].tags)
            &&& opt_text(f@[i].container_name) == opt_text(n@[i].container_name)
            &&& n@[i].location matches WorkspaceLocation::Full(l) && l.uri@ == f@[i].location.uri@
                && l.range == f@[i].location.range
            &&& f@[i].deprecated is None
            &&& n@[i].data is None
        } by {
            assert(symbol_matches(f@[i], n@[i]));
        }
    }
    if f@.len() == n@.len() && forall|i: int| 0 <= i < f@.len() ==> {
        &&& #[trigger] f@[i].name@ == n@[i].name@
        &&& f@[i].kind == n@[i].kind
        &&& tags_view(f@[i].tags) == tags_view(n@[i].tags)
        &&& opt_text(f@[i].container_name) == opt_text(n@[i].container_name)
        &&& n@[i].location matches WorkspaceLocation::Full(l) && l.uri@ == f@[i].location.uri@
            && l.range == f@[i].location.range
        &&& f@[i].deprecated is None
        &&& n@[i].data is None
    } {
        assert forall|i: int| 0 <= i < f@.len() implies symbol_matches(#[trigger] f@[i], n@[i]) by {
            assert(f@[i].name@ == n@[i].name@);
        }
    }
}

/// Two nested symbol lists are alike exactly when they are as long and, index by
/// index, the symbols have the same name, kind, tags, container name and location,
/// and either both carry no `data` or both carry `data` equal as JSON values.
pub proof fn lemma_nested_symbols_alike(x: Vec<WorkspaceSymbol>, y: Vec<WorkspaceSymbol>)
    ensures
        symbols_alike(WorkspaceSymbolResponse::Nested(x), WorkspaceSymbolResponse::Nested(y)) <==> {
            &&& x@.len() == y@.len()
            &&& forall|i: int| 0 <= i < x@.len() ==> {
                &&& #[trigger] x@[i].name@ == y@[i].name@
                &&& x@[i].kind == y@[i].kind
                &&& tags_view(x@[i].tags) == tags_view(y@[i].tags)
                &&& opt_text(x@[i].container_name) == opt_text(y@[i].container_name)
                &&& ws_location_view(x@[i].location) == ws_location_view(y@[i].location)
                &&& x@[i].data is None <==> y@[i].data is None
                &&& x@[i].data matches Some(a) ==> y@[i].data matches Some(b) && json_same(json_view(a), json_view(b))
            }
        },
{
    let vx = x@.map_values(|s: WorkspaceSymbol| workspace_symbol_key(s));
    let vy = y@.map_values(|s: WorkspaceSymbol| workspace_symbol_key(s));
    assert(vx.len() == x@.len() && vy.len() == y@.len());
    if vx == vy {
        assert forall|i: int| 0 <= i < x@.len() implies {
            &&& #[trigger] x@[i].name@ == y@[i].name@
            &&& x@[i].kind == y@[i].kind
            &&& tags_view(x@[i].tags) == tags_view(y@[i].tags)
            &&& opt_text(x@[i].container_name) == opt_text(y@[i].container_name)
            &&& ws_location_view(x@[i].location) == ws_location_view(y@[i].location)
            &&& x@[i].data is None <==> y@[i].data is None
            &&& x@[i].data matches Some(a) ==> y@[i].data matches Some(b) && json_same(json_view(a), json_view(b))
        } by {
            assert(vx[i] == workspace_symbol_key(x@[i]));
            assert(vy[i] == workspace_symbol_key(y@[i]));
        }
    }
    if x@.len() == y@.len() && forall|i: int| 0 <= i < x@.len() ==> {
        &&& #[trigger] x@[i].name@ == y@[i].name@
        &&& x@[i].kind == y@[i].kind
        &&& tags_view(x@[i].tags) == tags_view(y@[i].tags)
        &&& opt_text(x@[i].container_name) == opt_text(y@[i].container_name)
        &&& ws_location_view(x@[i].location) == ws_location_view(y@[i].location)
        &&& x@[i].data is None <==> y@[i].data is None
        &&& x@[i].data matches Some(a) ==> y@[i].data matches Some(b) && json_same(json_view(a), json_view(b))
    } {
        assert forall|i: int| 0 <= i < x@.len() implies vx[i] == vy[i] by {
            assert(x@[i].name@ == y@[i].name@);
        }
        assert(vx =~= vy);
    }
}

/// Two flat symbol lists are alike exactly when they are as long and, index by
/// index, the symbols have the same name, kind, tags, `deprecated` flag, location
/// (URI and range) and container name.
pub proof fn lemma_flat_symbols_alike(x: Vec<SymbolInformation>, y: Vec<SymbolInformation>)
    ensures
        symbols_alike(WorkspaceSymbolResponse::Flat(x), WorkspaceSymbolResponse::Flat(y)) <==> {
            &&& x@.len() == y@.len()
            &&& forall|i: int| 0 <= i < x@.len() ==> {
                &&& #[trigger] x@[i].name@ == y@[i].name@
                &&& x@[i].kind == y@[i].kind
                &&& tags_view(x@[i].tags) == tags_view(y@[i].tags)
                &&& x@[i].deprecated == y@[i].deprecated
                &&& x@[i].location.uri@ == y@[i].location.uri@
                &&& x@[i].location.range == y@[i].location.range
                &&& opt_text(x@[i].container_name) == opt_text(y@[i].container_name)
            }
        },
{
    let vx = x@.map_values(|s: SymbolInformation| symbol_info_view(s));
    let vy = y@.map_values(|s: SymbolInformation| symbol_info_view(s));
    assert(vx.len() == x@.len() && vy.len() == y@.len());
    if vx == vy {
        assert forall|i: int| 0 <= i < x@.len() implies {
            &&& #[trigger] x@[i].name@ == y@[i].name@
            &&& x@[i].kind == y@[i].kind
            &&& tags_view(x@[i].tags) == tags_view(y@[i].tags)
            &&& x@[i].deprecated == y@[i].deprecated
            &&& x@[i].location.uri@ == y@[i].location.uri@
            &&& x@[i].location.range == y@[i].location.range
            &&& opt_text(x@[i].container_name) == opt_text(y@[i].container_name)
        } by {
            assert(vx[i] == symbol_info_view(x@[i]));
            assert(vy[i] == symbol_info_view(y@[i]));
        }
    }
    if x@.len() == y@.len() && forall|i: int| 0 <= i < x@.len() ==> {
        &&& #[trigger] x@[i].name@ == y@[i].name@
        &&& x@[i].kind == y@[i].kind
        &&& tags_view(x@[i].tags) == tags_view(y@[i].tags)
        &&& x@[i].deprecated == y@[i].deprecated
        &&& x@[i].location.uri@ == y@[i].location.uri@
        &&& x@[i].location.range == y@[i].location.range
        &&& opt_text(x@[i].container_name) == opt_text(y@[i].container_name)
    } {
        assert forall|i: int| 0 <= i < x@.len() implies vx[i] == vy[i] by {
            assert(x@[i].name@ == y@[i].name@);
        }
        assert(vx =~= vy);
    }
}

/// The URI of a symbol's location.
pub open spec fn info_uri(s: SymbolInformation) -> Seq<char> {
    s.location.uri@
}

/// The URI of a workspace symbol's location, full or not.
pub open spec fn workspace_symbol_uri(s: WorkspaceSymbol) -> Seq<char> {
    match s.location {
        WorkspaceLocation::Full(l) => l.uri@,
        WorkspaceLocation::Uri(u) => u@,
    }
}

/// The view of symbol information with its URI replaced by `u`.
pub open spec fn info_with_uri(
    v: (Seq<char>, i32, Option<Seq<i32>>, Option<bool>, (Seq<char>, Range), Option<Seq<char>>),
    u: Seq<char>,
) -> (Seq<char>, i32, Option<Seq<i32>>, Option<bool>, (Seq<char>, Range), Option<Seq<char>>) {
    (v.0, v.1, v.2, v.3, (u, v.4.1), v.5)
}

/// The view of a workspace symbol with its URI replaced by `u`.
pub open spec fn workspace_symbol_with_uri(
    v: (Seq<char>, i32, Option<Seq<i32>>, Option<Seq<char>>, WsLocationView, Option<Json>),
    u: Seq<char>,
) -> (Seq<char>, i32, Option<Seq<i32>>, Option<Seq<char>>, WsLocationView, Option<Json>) {
    (
        v.0,
        v.1,
        v.2,
        v.3,
        match v.4 {
            WsLocationView::Full(_, r) => WsLocationView::Full(u, r),
            WsLocationView::Uri(_) => WsLocationView::Uri(u),
        },
        v.5,
    )
}

/// Whether the response `r` is `resp` with every URI cleaned of `root`, or the
/// first cleaning error.
pub open spec fn symbols_cleaned(resp: WorkspaceSymbolResponse, root: Seq<char>, r: Result<
    WorkspaceSymbolResponse,
    TestSetupError,
>) -> bool {
    match resp {
        WorkspaceSymbolResponse::Flat(v) => match clean_all(v@.map_values(|s: SymbolInformation| info_uri(s)), root) {
            Ok(cs) => r matches Ok(WorkspaceSymbolResponse::Flat(out)) && out@.len() == v@.len() && forall|i: int|
                0 <= i < v@.len() ==> symbol_info_view(#[trigger] out@[i]) == info_with_uri(symbol_info_view(v@[i]), cs[i]),
            Err(p) => r matches Err(e) && is_invalid_path(e, p),
        },
        WorkspaceSymbolResponse::Nested(v) => match clean_all(v@.map_values(|s: WorkspaceSymbol| workspace_symbol_uri(s)), root) {
            Ok(cs) => r matches Ok(WorkspaceSymbolResponse::Nested(out)) && out@.len() == v@.len() && forall|i: int|
                0 <= i < v@.len() ==> workspace_symbol_view(#[trigger] out@[i]) == workspace_symbol_with_uri(
                    workspace_symbol_view(v@[i]),
                    cs[i],
                ),
            Err(p) => r matches Err(e) && is_invalid_path(e, p),
        },
    }
}

fn clone_tags(t: &Option<Vec<i32>>) -> (r: Option<Vec<i32>>)
    ensures
        tags_view(r) == tags_view(*t),
{
    match t {
        Some(v) => {
            let mut out: Vec<i32> = Vec::new();
            let mut i: usize = 0;
            while i < v.len()
                invariant
                    i <= v.len(),
                    out@ == v@.take(i as int),
                decreases v.len() - i,
            {
                out.push(v[i]);
                assert(v@.take(i + 1) == v@.take(i as int).push(v@[i as int]));
                i = i + 1;
            }
            assert(v@.take(v.len() as int) =~= v@);
            Some(out)
        },
        None => None,
    }
}

fn clone_opt_string(s: &Option<String>) -> (r: Option<String>)
    ensures
        opt_text(r) == opt_text(*s),
{
    match s {
        Some(t) => Some(t.clone()),
        None => None,
    }
}

fn clean_symbol_infos(v: &Vec<SymbolInformation>, root: &str) -> (r: Result<Vec<SymbolInformation>, TestSetupError>)
    ensures
        match clean_all(v@.map_values(|s: SymbolInformation| info_uri(s)), root@) {
            Ok(cs) => r matches Ok(out) && out@.len() == v@.len() && forall|i: int|
                0 <= i < v@.len() ==> symbol_info_view(#[trigger] out@[i]) == info_with_uri(symbol_info_view(v@[i]), cs[i]),
            Err(p) => r matches Err(e) && is_invalid_path(e, p),
        },
{
    let ghost uris = v@.map_values(|s: SymbolInformation| info_uri(s));
    let mut out: Vec<SymbolInformation> = Vec::new();
    let mut i: usize = 0;
    assert(uris.take(0) =~= Seq::<Seq<char>>::empty());
    while i < v.len()
        invariant
            i <= v.len(),
            uris == v@.map_values(|s: SymbolInformation| info_uri(s)),
            clean_all(uris.take(i as int), root@) matches Ok(cs) && cs.len() == i && out@.len() == i && forall|k: int|
                0 <= k < i ==> symbol_info_view(#[trigger] out@[k]) == info_with_uri(symbol_info_view(v@[k]), cs[k]),
        decreases v.len() - i,
    {
        proof { lemma_clean_all_step(uris, root@, i as int); }
        let ghost cs = clean_all(uris.take(i as int), root@)->Ok_0;
        let s = &v[i];
        match clean_uri(s.location.uri.as_str(), root) {
            Ok(c) => {
                let n = SymbolInformation {
                    name: s.name.clone(),
                    kind: s.kind,
                    tags: clone_tags(&s.tags),
                    deprecated: s.deprecated,
                    location: Location { uri: c, range: s.location.range },
                    container_name: clone_opt_string(&s.container_name),
                };
                out.push(n);
                assert(cs.push(c@)[i as int] == c@);
            },
            Err(e) => {
                proof { lemma_clean_all_err_stays(uris, root@, i + 1, v@.len() as int); }
                assert(uris.take(v@.len() as int) =~= uris);
                return Err(e);
            },
        }
        i = i + 1;
    }
    assert(uris.take(v@.len() as int) =~= uris);
    Ok(out)
}

fn clean_workspace_symbols(v: &Vec<WorkspaceSymbol>, root: &str) -> (r: Result<Vec<WorkspaceSymbol>, TestSetupError>)
    ensures
        match clean_all(v@.map_values(|s: WorkspaceSymbol| workspace_symbol_uri(s)), root@) {
            Ok(cs) => r matches Ok(out) && out@.len() == v@.len() && forall|i: int|
                0 <= i < v@.len() ==> workspace_symbol_view(#[trigger] out@[i]) == workspace_symbol_with_uri(
                    workspace_symbol_view(v@[i]),
                    cs[i],
                ),
            Err(p) => r matches Err(e) && is_invalid_path(e, p),
        },
{
    let ghost uris = v@.map_values(|s: WorkspaceSymbol| workspace_symbol_uri(s));
    let mut out: Vec<WorkspaceSymbol> = Vec::new();
    let mut i: usize = 0;
    assert(uris.take(0) =~= Seq::<Seq<char>>::empty());
    while i < v.len()
        invariant
            i <= v.len(),
            uris == v@.map_values(|s: WorkspaceSymbol| workspace_symbol_uri(s)),
            clean_all(uris.take(i as int), root@) matches Ok(cs) && cs.len() == i && out@.len() == i && forall|k: int|
                0 <= k < i ==> workspace_symbol_view(#[trigger] out@[k]) == workspace_symbol_with_uri(
                    workspace_symbol_view(v@[k]),
                    cs[k],
                ),
        decreases v.len() - i,
    {
        proof { lemma_clean_all_step(uris, root@, i as int); }
        let ghost cs = clean_all(uris.take(i as int), root@)->Ok_0;
        let s = &v[i];
        let uri = match &s.location {
            WorkspaceLocation::Full(l) => l.uri.as_str(),
            WorkspaceLocation::Uri(u) => u.as_str(),
        };
        match clean_uri(uri, root) {
            Ok(c) => {
                let ghost cv = c@;
                let location = match &s.location {
                    WorkspaceLocation::Full(l) => WorkspaceLocation::Full(Location { uri: c, range: l.range }),
                    WorkspaceLocation::Uri(_) => WorkspaceLocation::Uri(c),
                };
                let data = match &s.data {
                    Some(d) => Some(clone_json(d)),
                    None => None,
                };
                let n = WorkspaceSymbol {
                    name: s.name.clone(),
                    kind: s.kind,
                    tags: clone_tags(&s.tags),
                    container_name: clone_opt_string(&s.container_name),
                    location,
                    data,
                };
                out.push(n);
                assert(cs.push(cv)[i as int] == cv);
            },
            Err(e) => {
                proof { lemma_clean_all_err_stays(uris, root@, i + 1, v@.len() as int); }
                assert(uris.take(v@.len() as int) =~= uris);
                return Err(e);
            },
        }
        i = i + 1;
    }
    assert(uris.take(v@.len() as int) =~= uris);
    Ok(out)
}

impl WorkspaceSymbolResponse {
    /// This response with every location's URI cleaned of the test's source
    /// directory `root` (see `clean_uri`); the first URI that cannot be cleaned is
    /// the error.
    pub fn clean_response(&self, root: &str) -> (r: Result<WorkspaceSymbolResponse, TestSetupError>)
        ensures
            symbols_cleaned(*self, root@, r),
    {
        match self {
            WorkspaceSymbolResponse::Flat(v) => match clean_symbol_infos(v, root) {
                Ok(out) => Ok(WorkspaceSymbolResponse::Flat(out)),
                Err(e) => Err(e),
            },
            WorkspaceSymbolResponse::Nested(v) => match clean_workspace_symbols(v, root) {
                Ok(out) => Ok(WorkspaceSymbolResponse::Nested(out)),
                Err(e) => Err(e),
            },
        }
    }
}

/// A response to `textDocument/documentSymbol`: flat symbol information, or
/// nested document symbols (held as the JSON objects the protocol sends).
#[derive(Debug)]
pub enum DocumentSymbolResponse {
    Flat(Vec<SymbolInformation>),
    Nested(Vec<JsonValue>),
}

/// Whether two document-symbol responses are alike: equal, or an empty flat list
/// against an empty nested one.
pub open spec fn document_symbols_alike(a: DocumentSymbolResponse, b: DocumentSymbolResponse) -> bool {
    match (a, b) {
        (DocumentSymbolResponse::Flat(f), DocumentSymbolResponse::Nested(n)) => f@.len() == 0 && n@.len() == 0,
        (DocumentSymbolResponse::Nested(n), DocumentSymbolResponse::Flat(f)) => f@.len() == 0 && n@.len() == 0,
        (DocumentSymbolResponse::Flat(x), DocumentSymbolResponse::Flat(y)) => x@.map_values(
            |s: SymbolInformation| symbol_info_view(s),
        ) == y@.map_values(|s: SymbolInformation| symbol_info_view(s)),
        (DocumentSymbolResponse::Nested(x), DocumentSymbolResponse::Nested(y)) => norm_items(json_view_items(x@))
            == norm_items(json_view_items(y@)),
    }
}

fn json_items_eq(a: &Vec<JsonValue>, b: &Vec<JsonValue>) -> (r: bool)
    ensures
        r == (norm_items(json_view_items(a@)) == norm_items(json_view_items(b@))),
{
    json_eq(&JsonValue::Array(clone_items(a)), &JsonValue::Array(clone_items(b)))
}

impl DocumentSymbolResponse {
    /// Whether `a` and `b` are alike: equal, or an empty flat list against an empty
    /// nested one.
    pub fn approx_eq(a: &DocumentSymbolResponse, b: &DocumentSymbolResponse) -> (r: bool)
        ensures
            r == document_symbols_alike(*a, *b),
    {
        match (a, b) {
            (DocumentSymbolResponse::Flat(f), DocumentSymbolResponse::Nested(n))
            | (DocumentSymbolResponse::Nested(n), DocumentSymbolResponse::Flat(f)) => f.len() == 0 && n.len()
                == 0,
            (DocumentSymbolResponse::Flat(x), DocumentSymbolResponse::Flat(y)) => symbol_infos_eq(x, y),
            (DocumentSymbolResponse::Nested(x), DocumentSymbolResponse::Nested(y)) => json_items_eq(x, y),
        }
    }

    /// This response with the URI of every flat symbol's location cleaned of the
    /// test's source directory `root` (nested symbols carry no URI); the first URI
    /// that cannot be cleaned is the error.
    pub fn clean_response(&self, root: &str) -> (r: Result<DocumentSymbolResponse, TestSetupError>)
        ensures
            match *self {
                DocumentSymbolResponse::Flat(v) => match clean_all(v@.map_values(|s: SymbolInformation| info_uri(s)), root@) {
                    Ok(cs) => r matches Ok(DocumentSymbolResponse::Flat(out)) && out@.len() == v@.len() && forall|i: int|
                        0 <= i < v@.len() ==> symbol_info_view(#[trigger] out@[i]) == info_with_uri(symbol_info_view(v@[i]), cs[i]),
                    Err(p) => r matches Err(e) && is_invalid_path(e, p),
                },
                DocumentSymbolResponse::Nested(v) => r matches Ok(DocumentSymbolResponse::Nested(out))
                    && json_view_items(out@) == json_view_items(v@),
            },
    {
        match self {
            DocumentSymbolResponse::Flat(v) => match clean_symbol_infos(v, root) {
                Ok(out) => Ok(DocumentSymbolResponse::Flat(out)),
                Err(e) => Err(e),
            },
            DocumentSymbolResponse::Nested(v) => Ok(DocumentSymbolResponse::Nested(clone_items(v))),
        }
    }
}

/// The document-symbol comparison is symmetric.
pub proof fn lemma_document_symbols_alike_symmetric(a: DocumentSymbolResponse, b: DocumentSymbolResponse)
    ensures
        document_symbols_alike(a, b) == document_symbols_alike(b, a),
{
}

/// Two nested document-symbol lists are alike exactly when they are as long and,
/// index by index, the symbols are equal as JSON values.
pub proof fn lemma_nested_document_symbols_alike(x: Vec<JsonValue>, y: Vec<JsonValue>)
    ensures
        document_symbols_alike(DocumentSymbolResponse::Nested(x), DocumentSymbolResponse::Nested(y)) <==> {
            &&& x@.len() == y@.len()
            &&& forall|i: int| 0 <= i < x@.len() ==> json_same(json_view(#[trigger] x@[i]), json_view(y@[i]))
        },
{
    let jx = json_view_items(x@);
    let jy = json_view_items(y@);
    lemma_json_view_items_len(x@);
    lemma_json_view_items_len(y@);
    lemma_norm_items(jx);
    lemma_norm_items(jy);
    if norm_items(jx) == norm_items(jy) {
        assert forall|i: int| 0 <= i < x@.len() implies json_same(json_view(#[trigger] x@[i]), json_view(y@[i])) by {
            assert(norm_items(jx)[i] == norm_items(jy)[i]);
        }
    }
    if x@.len() == y@.len() && forall|i: int|
        0 <= i < x@.len() ==> json_same(json_view(#[trigger] x@[i]), json_view(y@[i])) {
        assert forall|i: int| 0 <= i < x@.len() implies norm_items(jx)[i] == norm_items(jy)[i] by {
            assert(json_same(json_view(x@[i]), json_view(y@[i])));
        }
        assert(norm_items(jx) =~= norm_items(jy));
    }
}

/// Two flat document-symbol lists are alike exactly when they are as long and,
/// index by index, the symbols have the same name, kind, tags, `deprecated` flag,
/// location (URI and range) and container name.
pub proof fn lemma_flat_document_symbols_alike(x: Vec<SymbolInformation>, y: Vec<SymbolInformation>)
    ensures
        document_symbols_alike(DocumentSymbolResponse::Flat(x), DocumentSymbolResponse::Flat(y)) <==> {
            &&& x@.len() == y@.len()
            &&& forall|i: int| 0 <= i < x@.len() ==> {
                &&& #[trigger] x@[i].name@ == y@[i].name@
                &&& x@[i].kind == y@[i].kind
                &&& tags_view(x@[i].tags) == tags_view(y@[i].tags)
                &&& x@[i].deprecated == y@[i].deprecated
                &&& x@[i].location.uri@ == y@[i].location.uri@
                &&& x@[i].location.range == y@[i].location.range
                &&& opt_text(x@[i].container_name) == opt_text(y@[i].container_name)
            }
        },
{
    lemma_flat_symbols_alike(x, y);
}

} // verus!
