//! Canned responses of the dummy language server, chosen by the response number
//! that a test hands it: definitions, references, semantic tokens, completions,
//! document symbols, highlights, monikers, folding and selection ranges.
use vstd::prelude::*;

use crate::responses::{
    DocumentSymbolResponse, SymbolInformation,
    edits_view, links_view, location_view, locations_view, GotoDefinitionResponse, Location,
    LocationLink, SemanticToken, SemanticTokens, SemanticTokensEdit, SemanticTokensFullDeltaResult,
    SemanticTokensResult,
};
use crate::completion::{response_json, CompletionList, CompletionResponse};
use crate::json::{json_view, json_view_items, json_view_members, lemma_json_view_items_len, lemma_json_view_members_len, Json, JsonValue};
use crate::types::{Position, Range};

verus! {

/// The range from (`a`, `b`) to (`c`, `d`).
pub open spec fn span(a: u32, b: u32, c: u32, d: u32) -> Range {
    Range { start: Position { line: a, character: b }, end: Position { line: c, character: d } }
}

pub(crate) fn make_span(a: u32, b: u32, c: u32, d: u32) -> (r: Range)
    ensures
        r == span(a, b, c, d),
{
    Range { start: Position { line: a, character: b }, end: Position { line: c, character: d } }
}

/// The view of a definition response.
pub enum GotoView {
    Scalar((Seq<char>, Range)),
    Array(Seq<(Seq<char>, Range)>),
    Link(Seq<(Option<Range>, Seq<char>, Range, Range)>),
}

/// The view of a definition response.
pub open spec fn goto_view(r: GotoDefinitionResponse) -> GotoView {
    match r {
        GotoDefinitionResponse::Scalar(l) => GotoView::Scalar(location_view(l)),
        GotoDefinitionResponse::Array(v) => GotoView::Array(locations_view(v@)),
        GotoDefinitionResponse::Link(v) => GotoView::Link(links_view(v@)),
    }
}

/// The location that the definition fixtures point at: `main.dummy`, (1, 2)-(3, 4).
pub open spec fn fixture_location() -> (Seq<char>, Range) {
    ("main.dummy"@, span(1, 2, 3, 4))
}

/// The link that the definition fixtures use.
pub open spec fn fixture_link() -> (Option<Range>, Seq<char>, Range, Range) {
    (Some(span(9, 10, 11, 12)), "main.dummy"@, span(1, 2, 3, 4), span(5, 6, 7, 8))
}

/// The definition response numbered `n`, if there is one.
pub open spec fn definition_fixture(n: u32) -> Option<GotoView> {
    if n == 0 {
        Some(GotoView::Array(seq![]))
    } else if n == 1 {
        Some(GotoView::Array(seq![fixture_location()]))
    } else if n == 2 {
        Some(GotoView::Array(seq![fixture_location(), fixture_location()]))
    } else if n == 3 {
        Some(GotoView::Link(seq![]))
    } else if n == 4 {
        Some(GotoView::Link(seq![fixture_link()]))
    } else if n == 5 {
        Some(GotoView::Link(seq![fixture_link(), fixture_link()]))
    } else if n == 6 {
        Some(GotoView::Scalar(fixture_location()))
    } else {
        None
    }
}

/// The view of an optional definition response.
pub open spec fn opt_goto_view(r: Option<GotoDefinitionResponse>) -> Option<GotoView> {
    match r {
        Some(g) => Some(goto_view(g)),
        None => None,
    }
}

fn location_item() -> (r: Location)
    ensures
        location_view(r) == fixture_location(),
{
    Location { uri: String::from_str("main.dummy"), range: make_span(1, 2, 3, 4) }
}

fn link_item() -> (r: LocationLink)
    ensures
        crate::responses::link_view(r) == fixture_link(),
{
    LocationLink {
        target_uri: String::from_str("main.dummy"),
        target_range: make_span(1, 2, 3, 4),
        target_selection_range: make_span(5, 6, 7, 8),
        origin_selection_range: Some(make_span(9, 10, 11, 12)),
    }
}

/// For use with `test_definition` (and the declaration, implementation and
/// type-definition tests, which share it): the response numbered `response_num`.
pub fn get_definition_response(response_num: u32) -> (r: Option<GotoDefinitionResponse>)
    ensures
        opt_goto_view(r) == definition_fixture(response_num),
{
    let r = if response_num == 0 {
        Some(GotoDefinitionResponse::Array(vec![]))
    } else if response_num == 1 {
        Some(GotoDefinitionResponse::Array(vec![location_item()]))
    } else if response_num == 2 {
        Some(GotoDefinitionResponse::Array(vec![location_item(), location_item()]))
    } else if response_num == 3 {
        Some(GotoDefinitionResponse::Link(vec![]))
    } else if response_num == 4 {
        Some(GotoDefinitionResponse::Link(vec![link_item()]))
    } else if response_num == 5 {
        Some(GotoDefinitionResponse::Link(vec![link_item(), link_item()]))
    } else if response_num == 6 {
        Some(GotoDefinitionResponse::Scalar(location_item()))
    } else {
        None
    };
    proof {
        match &r {
            Some(GotoDefinitionResponse::Array(v)) => {
                assert(locations_view(v@) =~= definition_fixture(response_num)->Some_0->Array_0);
            },
            Some(GotoDefinitionResponse::Link(v)) => {
                assert(links_view(v@) =~= definition_fixture(response_num)->Some_0->Link_0);
            },
            _ => {},
        }
    }
    r
}

/// The reference response numbered `n`, if there is one: up to three locations
/// in `main.dummy`.
pub open spec fn references_fixture(n: u32) -> Option<Seq<(Seq<char>, Range)>> {
    if n == 0 {
        Some(seq![])
    } else if n == 1 {
        Some(seq![("main.dummy"@, span(1, 2, 3, 4))])
    } else if n == 2 {
        Some(seq![("main.dummy"@, span(1, 2, 3, 4)), ("main.dummy"@, span(5, 6, 7, 8))])
    } else if n == 3 {
        Some(
            seq![
                ("main.dummy"@, span(1, 2, 3, 4)),
                ("main.dummy"@, span(5, 6, 7, 8)),
                ("main.dummy"@, span(9, 10, 11, 12)),
            ],
        )
    } else {
        None
    }
}

fn located(a: u32, b: u32, c: u32, d: u32) -> (r: Location)
    ensures
        location_view(r) == ("main.dummy"@, span(a, b, c, d)),
{
    Location { uri: String::from_str("main.dummy"), range: make_span(a, b, c, d) }
}

/// For use with `test_references`: the response numbered `response_num`.
pub fn get_references_response(response_num: u32) -> (r: Option<Vec<Location>>)
    ensures
        match &r {
            Some(v) => references_fixture(response_num) == Some(locations_view(v@)),
            None => references_fixture(response_num) is None,
        },
{
    let r = if response_num == 0 {
        Some(vec![])
    } else if response_num == 1 {
        Some(vec![located(1, 2, 3, 4)])
    } else if response_num == 2 {
        Some(vec![located(1, 2, 3, 4), located(5, 6, 7, 8)])
    } else if response_num == 3 {
        Some(vec![located(1, 2, 3, 4), located(5, 6, 7, 8), located(9, 10, 11, 12)])
    } else {
        None
    };
    proof {
        if let Some(v) = &r {
            assert(locations_view(v@) =~= references_fixture(response_num)->Some_0);
        }
    }
    r
}

/// The view of a token result: full tokens (with their id) or a partial result.
pub enum TokensView {
    Tokens(Option<Seq<char>>, Seq<SemanticToken>),
    Partial(Seq<SemanticToken>),
}

/// The view of an optional token result.
pub open spec fn tokens_view(r: Option<SemanticTokensResult>) -> Option<TokensView> {
    match r {
        Some(SemanticTokensResult::Tokens(t)) => Some(
            TokensView::Tokens(crate::responses::opt_text(t.result_id), t.data@),
        ),
        Some(SemanticTokensResult::Partial(p)) => Some(TokensView::Partial(p@)),
        None => None,
    }
}

/// A token with the given five fields.
pub open spec fn tok(a: u32, b: u32, c: u32, d: u32, e: u32) -> SemanticToken {
    SemanticToken { delta_line: a, delta_start: b, length: c, token_type: d, token_modifiers_bitset: e }
}

fn make_tok(a: u32, b: u32, c: u32, d: u32, e: u32) -> (r: SemanticToken)
    ensures
        r == tok(a, b, c, d, e),
{
    SemanticToken { delta_line: a, delta_start: b, length: c, token_type: d, token_modifiers_bitset: e }
}

/// The full token response numbered `n`, if there is one. The numbers from 100 to
/// 199 answer the full request that precedes a delta request.
pub open spec fn full_tokens_fixture(n: u32) -> Option<TokensView> {
    let t1 = tok(1, 2, 3, 4, 5);
    let t2 = tok(5, 7, 8, 9, 10);
    if n == 0 {
        Some(TokensView::Tokens(None, seq![]))
    } else if n == 1 {
        Some(TokensView::Tokens(Some("result_id_1"@), seq![]))
    } else if n == 2 {
        Some(TokensView::Tokens(None, seq![t1]))
    } else if n == 3 {
        Some(TokensView::Tokens(Some("result_id_1"@), seq![t1]))
    } else if n == 4 {
        Some(TokensView::Tokens(None, seq![t2]))
    } else if n == 5 {
        Some(TokensView::Tokens(Some("result_id_2"@), seq![t2]))
    } else if n == 6 {
        Some(TokensView::Tokens(None, seq![t1, t2]))
    } else if n == 7 {
        Some(TokensView::Tokens(Some("result_id_3"@), seq![t1, t2]))
    } else if n == 8 {
        Some(TokensView::Partial(seq![]))
    } else if n == 9 {
        Some(TokensView::Partial(seq![t1]))
    } else if n == 10 {
        Some(TokensView::Partial(seq![t2]))
    } else if n == 11 {
        Some(TokensView::Partial(seq![t1, t2]))
    } else if 100 <= n < 200 {
        Some(TokensView::Tokens(Some("some_result_type"@), seq![t1]))
    } else {
        None
    }
}

fn tokens_with(id: Option<&str>, data: Vec<SemanticToken>) -> (r: SemanticTokensResult)
    ensures
        tokens_view(Some(r)) == Some(
            TokensView::Tokens(
                match id {
                    Some(s) => Some(s@),
                    None => None,
                },
                data@,
            ),
        ),
{
    let result_id = match id {
        Some(s) => Some(String::from_str(s)),
        None => None,
    };
    SemanticTokensResult::Tokens(SemanticTokens { result_id, data })
}

/// For use with `test_semantic_tokens_full`: the response numbered `response_num`.
pub fn get_semantic_tokens_full_response(response_num: u32) -> (r: Option<SemanticTokensResult>)
    ensures
        tokens_view(r) == full_tokens_fixture(response_num),
{
    let t1 = make_tok(1, 2, 3, 4, 5);
    let t2 = make_tok(5, 7, 8, 9, 10);
    let r = if response_num == 0 {
        Some(tokens_with(None, vec![]))
    } else if response_num == 1 {
        Some(tokens_with(Some("result_id_1"), vec![]))
    } else if response_num == 2 {
        Some(tokens_with(None, vec![t1]))
    } else if response_num == 3 {
        Some(tokens_with(Some("result_id_1"), vec![t1]))
    } else if response_num == 4 {
        Some(tokens_with(None, vec![t2]))
    } else if response_num == 5 {
        Some(tokens_with(Some("result_id_2"), vec![t2]))
    } else if response_num == 6 {
        Some(tokens_with(None, vec![t1, t2]))
    } else if response_num == 7 {
        Some(tokens_with(Some("result_id_3"), vec![t1, t2]))
    } else if response_num == 8 {
        Some(SemanticTokensResult::Partial(vec![]))
    } else if response_num == 9 {
        Some(SemanticTokensResult::Partial(vec![t1]))
    } else if response_num == 10 {
        Some(SemanticTokensResult::Partial(vec![t2]))
    } else if response_num == 11 {
        Some(SemanticTokensResult::Partial(vec![t1, t2]))
    } else if 100 <= response_num && response_num < 200 {
        Some(tokens_with(Some("some_result_type"), vec![t1]))
    } else {
        None
    };
    proof {
        match &r {
            Some(SemanticTokensResult::Tokens(t)) => {
                assert(t.data@ =~= full_tokens_fixture(response_num)->Some_0->Tokens_1);
            },
            Some(SemanticTokensResult::Partial(p)) => {
                assert(p@ =~= full_tokens_fixture(response_num)->Some_0->Partial_0);
            },
            None => {},
        }
    }
    r
}

/// The range token response numbered `n`, if there is one.
pub open spec fn range_tokens_fixture(n: u32) -> Option<TokensView> {
    let t1 = tok(1, 2, 3, 4, 5);
    let t2 = tok(5, 7, 8, 9, 10);
    if n == 0 {
        Some(TokensView::Tokens(None, seq![]))
    } else if n == 1 {
        Some(TokensView::Tokens(Some("result_id_1"@), seq![]))
    } else if n == 2 {
        Some(TokensView::Tokens(None, seq![t1]))
    } else if n == 3 {
        Some(TokensView::Tokens(Some("result_id_2"@), seq![t2]))
    } else if n == 4 {
        Some(TokensView::Tokens(Some("result_id_3"@), seq![t1, t2]))
    } else if n == 5 {
        Some(TokensView::Partial(seq![]))
    } else if n == 6 {
        Some(TokensView::Partial(seq![t1]))
    } else if n == 7 {
        Some(TokensView::Partial(seq![t2]))
    } else if n == 8 {
        Some(TokensView::Partial(seq![t1, t2]))
    } else {
        None
    }
}

/// For use with `test_semantic_tokens_range`: the response numbered `response_num`.
pub fn get_semantic_tokens_range_response(response_num: u32) -> (r: Option<SemanticTokensResult>)
    ensures
        tokens_view(r) == range_tokens_fixture(response_num),
{
    let t1 = make_tok(1, 2, 3, 4, 5);
    let t2 = make_tok(5, 7, 8, 9, 10);
    let r = if response_num == 0 {
        Some(tokens_with(None, vec![]))
    } else if response_num == 1 {
        Some(tokens_with(Some("result_id_1"), vec![]))
    } else if response_num == 2 {
        Some(tokens_with(None, vec![t1]))
    } else if response_num == 3 {
        Some(tokens_with(Some("result_id_2"), vec![t2]))
    } else if response_num == 4 {
        Some(tokens_with(Some("result_id_3"), vec![t1, t2]))
    } else if response_num == 5 {
        Some(SemanticTokensResult::Partial(vec![]))
    } else if response_num == 6 {
        Some(SemanticTokensResult::Partial(vec![t1]))
    } else if response_num == 7 {
        Some(SemanticTokensResult::Partial(vec![t2]))
    } else if response_num == 8 {
        Some(SemanticTokensResult::Partial(vec![t1, t2]))
    } else {
        None
    };
    proof {
        match &r {
            Some(SemanticTokensResult::Tokens(t)) => {
                assert(t.data@ =~= range_tokens_fixture(response_num)->Some_0->Tokens_1);
            },
            Some(SemanticTokensResult::Partial(p)) => {
                assert(p@ =~= range_tokens_fixture(response_num)->Some_0->Partial_0);
            },
            None => {},
        }
    }
    r
}

/// The view of a delta result.
pub enum DeltaView {
    Tokens(Option<Seq<char>>, Seq<SemanticToken>),
    Delta(Option<Seq<char>>, Seq<(u32, u32, Option<Seq<SemanticToken>>)>),
    Partial(Seq<(u32, u32, Option<Seq<SemanticToken>>)>),
}

/// The view of an optional delta result.
pub open spec fn delta_view(r: Option<SemanticTokensFullDeltaResult>) -> Option<DeltaView> {
    match r {
        Some(SemanticTokensFullDeltaResult::Tokens(t)) => Some(
            DeltaView::Tokens(crate::responses::opt_text(t.result_id), t.data@),
        ),
        Some(SemanticTokensFullDeltaResult::TokensDelta { result_id, edits }) => Some(
            DeltaView::Delta(crate::responses::opt_text(result_id), edits_view(edits@)),
        ),
        Some(SemanticTokensFullDeltaResult::PartialTokensDelta { edits }) => Some(
            DeltaView::Partial(edits_view(edits@)),
        ),
        None => None,
    }
}

/// The delta response numbered `n`, if there is one (numbers from 100 on, so that
/// the full request before it can use the same number).
pub open spec fn delta_fixture(n: u32) -> Option<DeltaView> {
    let t = tok(1, 2, 3, 4, 5);
    let e1 = (1u32, 2u32, None::<Seq<SemanticToken>>);
    let e2 = (1u32, 2u32, Some(Seq::<SemanticToken>::empty()));
    let e3 = (1u32, 2u32, Some(seq![t]));
    let e5 = (1u32, 2u32, Some(seq![t, t]));
    if n == 100 {
        Some(DeltaView::Tokens(None, seq![]))
    } else if n == 101 {
        Some(DeltaView::Tokens(Some("result_id_1a"@), seq![]))
    } else if n == 102 || n == 103 {
        Some(DeltaView::Tokens(Some("result_id_1a"@), seq![t]))
    } else if n == 104 {
        Some(DeltaView::Tokens(Some("result_id_1a"@), seq![t, t]))
    } else if n == 105 {
        Some(DeltaView::Delta(None, seq![]))
    } else if n == 106 {
        Some(DeltaView::Delta(Some("result_id_1b"@), seq![]))
    } else if n == 107 {
        Some(DeltaView::Delta(Some("result_id_2b"@), seq![e1]))
    } else if n == 108 {
        Some(DeltaView::Delta(Some("result_id_3b"@), seq![e1]))
    } else if n == 109 {
        Some(DeltaView::Delta(Some("result_id_4b"@), seq![(3u32, 4u32, Some(Seq::<SemanticToken>::empty()))]))
    } else if n == 110 {
        Some(DeltaView::Delta(Some("result_id_5b"@), seq![(5u32, 6u32, Some(seq![t]))]))
    } else if n == 111 {
        Some(DeltaView::Delta(Some("result_id_6b"@), seq![(7u32, 8u32, Some(seq![t]))]))
    } else if n == 112 {
        Some(DeltaView::Delta(Some("result_id_7b"@), seq![(8u32, 9u32, Some(seq![t, t]))]))
    } else if n == 113 {
        Some(DeltaView::Partial(seq![]))
    } else if n == 114 {
        Some(DeltaView::Partial(seq![e1]))
    } else if n == 115 {
        Some(DeltaView::Partial(seq![e2]))
    } else if n == 116 || n == 117 {
        Some(DeltaView::Partial(seq![e3]))
    } else if n == 118 {
        Some(DeltaView::Partial(seq![e5]))
    } else if n == 119 {
        Some(DeltaView::Partial(seq![e1, e2, e3, e3, e5]))
    } else {
        None
    }
}

fn edit(start: u32, delete_count: u32, data: Option<Vec<SemanticToken>>) -> (r: SemanticTokensEdit)
    ensures
        crate::responses::edit_view(r) == (
            start,
            delete_count,
            match data {
                Some(d) => Some(d@),
                None => None,
            },
        ),
{
    SemanticTokensEdit { start, delete_count, data }
}

fn delta_tokens(id: Option<&str>, data: Vec<SemanticToken>) -> (r: SemanticTokensFullDeltaResult)
    ensures
        delta_view(Some(r)) == Some(
            DeltaView::Tokens(
                match id {
                    Some(s) => Some(s@),
                    None => None,
                },
                data@,
            ),
        ),
{
    let result_id = match id {
        Some(s) => Some(String::from_str(s)),
        None => None,
    };
    SemanticTokensFullDeltaResult::Tokens(SemanticTokens { result_id, data })
}

fn delta_edits(id: Option<&str>, edits: Vec<SemanticTokensEdit>) -> (r: SemanticTokensFullDeltaResult)
    ensures
        delta_view(Some(r)) == Some(
            DeltaView::Delta(
                match id {
                    Some(s) => Some(s@),
                    None => None,
                },
                edits_view(edits@),
            ),
        ),
{
    let result_id = match id {
        Some(s) => Some(String::from_str(s)),
        None => None,
    };
    SemanticTokensFullDeltaResult::TokensDelta { result_id, edits }
}

/// For use with `test_semantic_tokens_full_delta`: the response numbered
/// `response_num`.
#[verifier::rlimit(40)]
pub fn get_semantic_tokens_full_delta_response(response_num: u32) -> (r: Option<SemanticTokensFullDeltaResult>)
    ensures
        delta_view(r) == delta_fixture(response_num),
{
    let t = make_tok(1, 2, 3, 4, 5);
    let r = if response_num == 100 {
        Some(delta_tokens(None, vec![]))
    } else if response_num == 101 {
        Some(delta_tokens(Some("result_id_1a"), vec![]))
    } else if response_num == 102 || response_num == 103 {
        Some(delta_tokens(Some("result_id_1a"), vec![t]))
    } else if response_num == 104 {
        Some(delta_tokens(Some("result_id_1a"), vec![t, t]))
    } else if response_num == 105 {
        Some(delta_edits(None, vec![]))
    } else if response_num == 106 {
        Some(delta_edits(Some("result_id_1b"), vec![]))
    } else if response_num == 107 {
        Some(delta_edits(Some("result_id_2b"), vec![edit(1, 2, None)]))
    } else if response_num == 108 {
        Some(delta_edits(Some("result_id_3b"), vec![edit(1, 2, None)]))
    } else if response_num == 109 {
        Some(delta_edits(Some("result_id_4b"), vec![edit(3, 4, Some(vec![]))]))
    } else if response_num == 110 {
        Some(delta_edits(Some("result_id_5b"), vec![edit(5, 6, Some(vec![t]))]))
    } else if response_num == 111 {
        Some(delta_edits(Some("result_id_6b"), vec![edit(7, 8, Some(vec![t]))]))
    } else if response_num == 112 {
        Some(delta_edits(Some("result_id_7b"), vec![edit(8, 9, Some(vec![t, t]))]))
    } else if response_num == 113 {
        Some(SemanticTokensFullDeltaResult::PartialTokensDelta { edits: vec![] })
    } else if response_num == 114 {
        Some(SemanticTokensFullDeltaResult::PartialTokensDelta { edits: vec![edit(1, 2, None)] })
    } else if response_num == 115 {
        Some(SemanticTokensFullDeltaResult::PartialTokensDelta { edits: vec![edit(1, 2, Some(vec![]))] })
    } else if response_num == 116 || response_num == 117 {
        Some(SemanticTokensFullDeltaResult::PartialTokensDelta { edits: vec![edit(1, 2, Some(vec![t]))] })
    } else if response_num == 118 {
        Some(SemanticTokensFullDeltaResult::PartialTokensDelta { edits: vec![edit(1, 2, Some(vec![t, t]))] })
    } else if response_num == 119 {
        Some(
            SemanticTokensFullDeltaResult::PartialTokensDelta {
                edits: vec![
                    edit(1, 2, None),
                    edit(1, 2, Some(vec![])),
                    edit(1, 2, Some(vec![t])),
                    edit(1, 2, Some(vec![t])),
                    edit(1, 2, Some(vec![t, t])),
                ],
            },
        )
    } else {
        None
    };
    proof {
        match &r {
            Some(SemanticTokensFullDeltaResult::Tokens(tk)) => {
                assert(tk.data@ =~= delta_fixture(response_num)->Some_0->Tokens_1);
            },
            Some(SemanticTokensFullDeltaResult::TokensDelta { edits, .. }) => {
                assert(edits_view(edits@) =~~= delta_fixture(response_num)->Some_0->Delta_1);
            },
            Some(SemanticTokensFullDeltaResult::PartialTokensDelta { edits }) => {
                assert(edits_view(edits@) =~~= delta_fixture(response_num)->Some_0->Partial_0);
            },
            None => {},
        }
    }
    r
}

/// The JSON form of the completion item numbered `i` (`1` or `2`) of the fixtures:
/// a text item whose label, details, documentation and texts end in `i`, members
/// in key order.
pub open spec fn fixture_item(i: Seq<char>) -> Json {
    Json::Object(
        seq![
            ("deprecated"@, Json::Bool(false)),
            ("detail"@, Json::Str("detail"@ + i)),
            ("documentation"@, Json::Str("doc string"@ + i)),
            ("filterText"@, Json::Str("filter_text"@ + i)),
            ("insertText"@, Json::Str("insert_text"@ + i)),
            ("kind"@, Json::Number("1"@)),
            ("label"@, Json::Str("label"@ + i)),
            (
                "labelDetails"@,
                Json::Object(
                    seq![
                        ("description"@, Json::Str("description"@ + i)),
                        ("detail"@, Json::Str("detail"@ + i)),
                    ],
                ),
            ),
            ("preselect"@, Json::Bool(true)),
            ("sortText"@, Json::Str("sort text"@ + i)),
        ],
    )
}

/// A list response in JSON form.
pub open spec fn list_json(incomplete: bool, items: Seq<Json>) -> Json {
    Json::Object(seq![("isIncomplete"@, Json::Bool(incomplete)), ("items"@, Json::Array(items))])
}

/// The completion response numbered `n`, in JSON form, if there is one.
pub open spec fn completion_fixture(n: u32) -> Option<Json> {
    let i1 = fixture_item("1"@);
    let i2 = fixture_item("2"@);
    if n == 0 {
        Some(list_json(true, seq![]))
    } else if n == 1 {
        Some(list_json(true, seq![i1]))
    } else if n == 2 {
        Some(list_json(true, seq![i1, i2]))
    } else if n == 3 {
        Some(list_json(false, seq![i1]))
    } else if n == 4 {
        Some(list_json(false, seq![i1, i2]))
    } else if n == 5 {
        Some(Json::Array(seq![]))
    } else if n == 6 {
        Some(Json::Array(seq![i1]))
    } else if n == 7 {
        Some(Json::Array(seq![i1, i2]))
    } else {
        None
    }
}

fn text_with(prefix: &str, i: &str) -> (r: JsonValue)
    ensures
        json_view(r) == Json::Str(prefix@ + i@),
{
    let mut s = String::from_str(prefix);
    s.append(i);
    JsonValue::String(s)
}

fn member(key: &str, value: JsonValue) -> (r: (String, JsonValue))
    ensures
        r.0@ == key@,
        r.1 == value,
{
    (String::from_str(key), value)
}

fn completion_item(i: &str) -> (r: JsonValue)
    ensures
        json_view(r) == fixture_item(i@),
{
    let details = vec![member("description", text_with("description", i)), member("detail", text_with("detail", i))];
    proof { lemma_json_view_members_len(details@); }
    assert(json_view_members(details@) =~= seq![
        ("description"@, Json::Str("description"@ + i@)),
        ("detail"@, Json::Str("detail"@ + i@)),
    ]);
    let members = vec![
        member("deprecated", JsonValue::Bool(false)),
        member("detail", text_with("detail", i)),
        member("documentation", text_with("doc string", i)),
        member("filterText", text_with("filter_text", i)),
        member("insertText", text_with("insert_text", i)),
        member("kind", JsonValue::Number(String::from_str("1"))),
        member("label", text_with("label", i)),
        member("labelDetails", JsonValue::Object(details)),
        member("preselect", JsonValue::Bool(true)),
        member("sortText", text_with("sort text", i)),
    ];
    proof { lemma_json_view_members_len(members@); }
    assert(json_view_members(members@) =~= fixture_item(i@)->Object_0);
    JsonValue::Object(members)
}

/// For use with `test_completion`: the response numbered `response_num`, its items
/// in the JSON form the protocol sends.
#[verifier::rlimit(40)]
pub fn get_completion_response(response_num: u32) -> (r: Option<CompletionResponse>)
    ensures
        match r {
            Some(c) => completion_fixture(response_num) == Some(response_json(c)),
            None => completion_fixture(response_num) is None,
        },
{
    if response_num > 7 {
        return None;
    }
    let items = if response_num == 0 || response_num == 5 {
        vec![]
    } else if response_num == 1 || response_num == 3 || response_num == 6 {
        vec![completion_item("1")]
    } else {
        vec![completion_item("1"), completion_item("2")]
    };
    proof {
        lemma_json_view_items_len(items@);
    }
    assert(json_view_items(items@) =~= match completion_fixture(response_num) {
        Some(Json::Array(v)) => v,
        Some(Json::Object(m)) => m[1].1->Array_0,
        _ => Seq::empty(),
    });
    if response_num < 5 {
        Some(CompletionResponse::List(CompletionList { is_incomplete: response_num < 3, items }))
    } else {
        Some(CompletionResponse::Array(items))
    }
}

/// A highlight of a span of a document, with its kind by protocol number (1 text,
/// 2 read, 3 write) where given.
#[derive(Debug, Copy, Clone, PartialEq, Eq, Structural)]
pub struct DocumentHighlight {
    pub range: Range,
    pub kind: Option<i32>,
}

/// The document highlights numbered `n`, if there are any: none, one without a kind
/// at (1, 2)-(3, 4), one of kind text at (5, 6)-(7, 8), or both.
pub open spec fn highlight_fixture(n: u32) -> Option<Seq<DocumentHighlight>> {
    let a = DocumentHighlight { range: span(1, 2, 3, 4), kind: None };
    let b = DocumentHighlight { range: span(5, 6, 7, 8), kind: Some(1) };
    if n == 0 {
        Some(seq![])
    } else if n == 1 {
        Some(seq![a])
    } else if n == 2 {
        Some(seq![b])
    } else if n == 3 {
        Some(seq![a, b])
    } else {
        None
    }
}

/// For use with `test_document_highlight`: the highlights numbered `response_num`.
pub fn get_document_highlight_response(response_num: u32) -> (r: Option<Vec<DocumentHighlight>>)
    ensures
        match r {
            Some(v) => highlight_fixture(response_num) == Some(v@),
            None => highlight_fixture(response_num) is None,
        },
{
    let a = DocumentHighlight { range: make_span(1, 2, 3, 4), kind: None };
    let b = DocumentHighlight { range: make_span(5, 6, 7, 8), kind: Some(1) };
    let v = if response_num == 0 {
        Vec::new()
    } else if response_num == 1 {
        vec![a]
    } else if response_num == 2 {
        vec![b]
    } else if response_num == 3 {
        vec![a, b]
    } else {
        return None;
    };
    assert(highlight_fixture(response_num) == Some(v@));
    Some(v)
}

/// How unique a moniker is.
#[derive(Debug, Copy, Clone, PartialEq, Eq, Structural)]
pub enum UniquenessLevel {
    Document,
    Project,
    Group,
    Scheme,
    Global,
}

/// Whether a moniker is imported into or exported from a project, or local to it.
#[derive(Debug, Copy, Clone, PartialEq, Eq, Structural)]
pub enum MonikerKind {
    Import,
    Export,
    Local,
}

/// A moniker of a symbol.
#[derive(Debug)]
pub struct Moniker {
    pub scheme: String,
    pub identifier: String,
    pub unique: UniquenessLevel,
    pub kind: Option<MonikerKind>,
}

/// Whether `m` is the canned moniker numbered `i` (1 or 2): scheme `scheme<i>`,
/// identifier `identifier<i>`, unique in the document and exported (1) or in the
/// project and imported (2).
pub open spec fn is_fixture_moniker(m: Moniker, i: nat) -> bool {
    &&& m.scheme@ == "scheme"@ + crate::text::decimal(i)
    &&& m.identifier@ == "identifier"@ + crate::text::decimal(i)
    &&& m.unique == (if i == 1 { UniquenessLevel::Document } else { UniquenessLevel::Project })
    &&& m.kind == Some(if i == 1 { MonikerKind::Export } else { MonikerKind::Import })
}

/// Which canned monikers the response numbered `n` lists, in order.
pub open spec fn moniker_numbers(n: u32) -> Option<Seq<nat>> {
    if n == 0 {
        Some(seq![])
    } else if n == 1 {
        Some(seq![1nat])
    } else if n == 2 {
        Some(seq![2nat])
    } else if n == 3 {
        Some(seq![1nat, 2nat])
    } else {
        None
    }
}

fn fixture_moniker(i: u32) -> (r: Moniker)
    requires
        i == 1 || i == 2,
    ensures
        is_fixture_moniker(r, i as nat),
{
    let number = crate::text::decimal_string(i as u64);
    let mut scheme = String::from_str("scheme");
    scheme.append(number.as_str());
    let mut identifier = String::from_str("identifier");
    identifier.append(number.as_str());
    if i == 1 {
        Moniker { scheme, identifier, unique: UniquenessLevel::Document, kind: Some(MonikerKind::Export) }
    } else {
        Moniker { scheme, identifier, unique: UniquenessLevel::Project, kind: Some(MonikerKind::Import) }
    }
}

/// For use with `test_moniker`: the monikers numbered `response_num`.
pub fn get_moniker_response(response_num: u32) -> (r: Option<Vec<Moniker>>)
    ensures
        match (r, moniker_numbers(response_num)) {
            (Some(v), Some(ns)) => v@.len() == ns.len() && forall|k: int|
                0 <= k < ns.len() ==> is_fixture_moniker(#[trigger] v@[k], ns[k]),
            (None, None) => true,
            _ => false,
        },
{
    if response_num == 0 {
        Some(Vec::new())
    } else if response_num == 1 {
        Some(vec![fixture_moniker(1)])
    } else if response_num == 2 {
        Some(vec![fixture_moniker(2)])
    } else if response_num == 3 {
        Some(vec![fixture_moniker(1), fixture_moniker(2)])
    } else {
        None
    }
}

/// What a folding range holds.
#[derive(Debug, Copy, Clone, PartialEq, Eq, Structural)]
pub enum FoldingRangeKind {
    Comment,
    Imports,
    Region,
}

/// A range of lines that can be folded.
#[derive(Debug)]
pub struct FoldingRange {
    pub start_line: u32,
    pub start_character: Option<u32>,
    pub end_line: u32,
    pub end_character: Option<u32>,
    pub kind: Option<FoldingRangeKind>,
    pub collapsed_text: Option<String>,
}

/// Whether `f` is the canned folding range numbered `i` (1 to 3): lines 0 to 1; lines
/// 2 to 4 from character 3 to 5; or a comment over lines 6 to 8 from character 7 to 8,
/// shown collapsed as `collapsed text`.
pub open spec fn is_fixture_fold(f: FoldingRange, i: nat) -> bool {
    if i == 1 {
        f.start_line == 0 && f.start_character is None && f.end_line == 1 && f.end_character is None
            && f.kind is None && f.collapsed_text is None
    } else if i == 2 {
        f.start_line == 2 && f.start_character == Some(3u32) && f.end_line == 4 && f.end_character == Some(5u32)
            && f.kind is None && f.collapsed_text is None
    } else {
        &&& f.start_line == 6
        &&& f.start_character == Some(7u32)
        &&& f.end_line == 8
        &&& f.end_character == Some(8u32)
        &&& f.kind == Some(FoldingRangeKind::Comment)
        &&& f.collapsed_text matches Some(t) && t@ == "collapsed text"@
    }
}

/// Which canned folding ranges the response numbered `n` lists, in order.
pub open spec fn fold_numbers(n: u32) -> Option<Seq<nat>> {
    if n == 0 {
        Some(seq![])
    } else if n == 1 {
        Some(seq![1nat])
    } else if n == 2 {
        Some(seq![2nat])
    } else if n == 3 {
        Some(seq![3nat])
    } else if n == 4 {
        Some(seq![1nat, 2nat, 3nat])
    } else {
        None
    }
}

fn fixture_fold(i: u32) -> (r: FoldingRange)
    requires
        1 <= i <= 3,
    ensures
        is_fixture_fold(r, i as nat),
{
    if i == 1 {
        FoldingRange {
            start_line: 0,
            start_character: None,
            end_line: 1,
            end_character: None,
            kind: None,
            collapsed_text: None,
        }
    } else if i == 2 {
        FoldingRange {
            start_line: 2,
            start_character: Some(3),
            end_line: 4,
            end_character: Some(5),
            kind: None,
            collapsed_text: None,
        }
    } else {
        FoldingRange {
            start_line: 6,
            start_character: Some(7),
            end_line: 8,
            end_character: Some(8),
            kind: Some(FoldingRangeKind::Comment),
            collapsed_text: Some(String::from_str("collapsed text")),
        }
    }
}

/// For use with `test_folding_range`: the folding ranges numbered `response_num`.
pub fn get_folding_range_response(response_num: u32) -> (r: Option<Vec<FoldingRange>>)
    ensures
        match (r, fold_numbers(response_num)) {
            (Some(v), Some(ns)) => v@.len() == ns.len() && forall|k: int|
                0 <= k < ns.len() ==> is_fixture_fold(#[trigger] v@[k], ns[k]),
            (None, None) => true,
            _ => false,
        },
{
    if response_num == 0 {
        Some(Vec::new())
    } else if response_num == 1 {
        Some(vec![fixture_fold(1)])
    } else if response_num == 2 {
        Some(vec![fixture_fold(2)])
    } else if response_num == 3 {
        Some(vec![fixture_fold(3)])
    } else if response_num == 4 {
        Some(vec![fixture_fold(1), fixture_fold(2), fixture_fold(3)])
    } else {
        None
    }
}

/// A selection range: a range and, optionally, the range that contains it.
#[derive(Debug)]
pub struct SelectionRange {
    pub range: Range,
    pub parent: Option<Box<SelectionRange>>,
}

/// The selection ranges numbered `n`, if there are any: none; (1, 2)-(3, 4) alone;
/// (5, 6)-(7, 8) inside (1, 2)-(3, 4); or both of these.
pub open spec fn selection_fixture(n: u32) -> Option<Seq<SelectionRange>> {
    let a = SelectionRange { range: span(1, 2, 3, 4), parent: None };
    let b = SelectionRange { range: span(5, 6, 7, 8), parent: Some(Box::new(a)) };
    if n == 0 {
        Some(seq![])
    } else if n == 1 {
        Some(seq![a])
    } else if n == 2 {
        Some(seq![b])
    } else if n == 3 {
        Some(seq![a, b])
    } else {
        None
    }
}

fn inner_selection() -> (r: SelectionRange)
    ensures
        r == (SelectionRange { range: span(1, 2, 3, 4), parent: None }),
{
    SelectionRange { range: make_span(1, 2, 3, 4), parent: None }
}

fn outer_selection() -> (r: SelectionRange)
    ensures
        r == (SelectionRange {
            range: span(5, 6, 7, 8),
            parent: Some(Box::new(SelectionRange { range: span(1, 2, 3, 4), parent: None })),
        }),
{
    SelectionRange { range: make_span(5, 6, 7, 8), parent: Some(Box::new(inner_selection())) }
}

/// For use with `test_selection_range`: the selection ranges numbered `response_num`.
pub fn get_selection_range_response(response_num: u32) -> (r: Option<Vec<SelectionRange>>)
    ensures
        match r {
            Some(v) => selection_fixture(response_num) == Some(v@),
            None => selection_fixture(response_num) is None,
        },
{
    let v = if response_num == 0 {
        Vec::new()
    } else if response_num == 1 {
        vec![inner_selection()]
    } else if response_num == 2 {
        vec![outer_selection()]
    } else if response_num == 3 {
        vec![inner_selection(), outer_selection()]
    } else {
        return None;
    };
    assert(selection_fixture(response_num) == Some(v@));
    Some(v)
}

/// The JSON form of the position at `line` and `character`.
pub open spec fn position_json(line: u32, character: u32) -> Json {
    Json::Object(
        seq![
            ("character"@, Json::Number(crate::text::decimal(character as nat))),
            ("line"@, Json::Number(crate::text::decimal(line as nat))),
        ],
    )
}

/// The JSON form of the range from (`a`, `b`) to (`c`, `d`).
pub open spec fn range_json(a: u32, b: u32, c: u32, d: u32) -> Json {
    Json::Object(seq![("end"@, position_json(c, d)), ("start"@, position_json(a, b))])
}

/// The JSON form of the canned nested document symbol: a deprecated function (kind
/// 12, tag 1) `symbol name 2` with the detail `detail`, over (4, 5)-(6, 7) with
/// (5, 6)-(7, 8) selected, without children.
pub open spec fn nested_symbol_json() -> Json {
    Json::Object(
        seq![
            ("children"@, Json::Array(seq![])),
            ("deprecated"@, Json::Bool(true)),
            ("detail"@, Json::Str("detail"@)),
            ("kind"@, Json::Number("12"@)),
            ("name"@, Json::Str("symbol name 2"@)),
            ("range"@, range_json(4, 5, 6, 7)),
            ("selectionRange"@, range_json(5, 6, 7, 8)),
            ("tags"@, Json::Array(seq![Json::Number("1"@)])),
        ],
    )
}

/// Whether `r` is the document-symbol response numbered `n`: an empty flat list; an
/// empty nested list; one symbol (a file, kind 1) `symbol name 1` in the container
/// `container name 1` at (0, 1)-(2, 3) of `source`; or the canned nested symbol.
pub open spec fn document_symbol_fixture(n: u32, source: Seq<char>, r: Option<DocumentSymbolResponse>) -> bool {
    if n == 0 {
        r matches Some(DocumentSymbolResponse::Flat(v)) && v@.len() == 0
    } else if n == 1 {
        r matches Some(DocumentSymbolResponse::Nested(v)) && v@.len() == 0
    } else if n == 2 {
        &&& r matches Some(DocumentSymbolResponse::Flat(v))
        &&& v@.len() == 1
        &&& v@[0].name@ == "symbol name 1"@
        &&& v@[0].kind == 1
        &&& v@[0].tags is None
        &&& v@[0].deprecated is None
        &&& v@[0].location.uri@ == source
        &&& v@[0].location.range == span(0, 1, 2, 3)
        &&& v@[0].container_name matches Some(c) && c@ == "container name 1"@
    } else if n == 3 {
        r matches Some(DocumentSymbolResponse::Nested(v)) && v@.len() == 1 && json_view(v@[0]) == nested_symbol_json()
    } else {
        r is None
    }
}

fn number_json(n: u32) -> (r: JsonValue)
    ensures
        json_view(r) == Json::Number(crate::text::decimal(n as nat)),
{
    JsonValue::Number(crate::text::decimal_string(n as u64))
}

fn position_to_json(line: u32, character: u32) -> (r: JsonValue)
    ensures
        json_view(r) == position_json(line, character),
{
    let members = vec![member("character", number_json(character)), member("line", number_json(line))];
    proof { lemma_json_view_members_len(members@); }
    assert(json_view_members(members@) =~= position_json(line, character)->Object_0);
    JsonValue::Object(members)
}

fn range_to_json(a: u32, b: u32, c: u32, d: u32) -> (r: JsonValue)
    ensures
        json_view(r) == range_json(a, b, c, d),
{
    let members = vec![member("end", position_to_json(c, d)), member("start", position_to_json(a, b))];
    proof { lemma_json_view_members_len(members@); }
    assert(json_view_members(members@) =~= range_json(a, b, c, d)->Object_0);
    JsonValue::Object(members)
}

fn nested_symbol() -> (r: JsonValue)
    ensures
        json_view(r) == nested_symbol_json(),
{
    let children: Vec<JsonValue> = Vec::new();
    let tags = vec![JsonValue::Number(String::from_str("1"))];
    proof {
        lemma_json_view_items_len(children@);
        lemma_json_view_items_len(tags@);
    }
    assert(json_view_items(children@) =~= Seq::<Json>::empty());
    assert(json_view_items(tags@) =~= seq![Json::Number("1"@)]);
    let members = vec![
        member("children", JsonValue::Array(children)),
        member("deprecated", JsonValue::Bool(true)),
        member("detail", JsonValue::String(String::from_str("detail"))),
        member("kind", JsonValue::Number(String::from_str("12"))),
        member("name", JsonValue::String(String::from_str("symbol name 2"))),
        member("range", range_to_json(4, 5, 6, 7)),
        member("selectionRange", range_to_json(5, 6, 7, 8)),
        member("tags", JsonValue::Array(tags)),
    ];
    proof { lemma_json_view_members_len(members@); }
    assert(json_view_members(members@) =~= nested_symbol_json()->Object_0);
    JsonValue::Object(members)
}

/// For use with `test_document_symbol`: the response numbered `response_num`, naming
/// the dummy source file.
pub fn get_document_symbol_response(response_num: u32) -> (r: Option<DocumentSymbolResponse>)
    ensures
        document_symbol_fixture(response_num, "main.dummy"@, r),
{
    if response_num == 0 {
        Some(DocumentSymbolResponse::Flat(Vec::new()))
    } else if response_num == 1 {
        Some(DocumentSymbolResponse::Nested(Vec::new()))
    } else if response_num == 2 {
        let info = SymbolInformation {
            name: String::from_str("symbol name 1"),
            kind: 1,
            tags: None,
            deprecated: None,
            location: Location { uri: crate::server::get_source_path(), range: make_span(0, 1, 2, 3) },
            container_name: Some(String::from_str("container name 1")),
        };
        Some(DocumentSymbolResponse::Flat(vec![info]))
    } else if response_num == 3 {
        Some(DocumentSymbolResponse::Nested(vec![nested_symbol()]))
    } else {
        None
    }
}

/// For use with `test_completion_resolve`: the completion item numbered
/// `response_num + 1` (see `fixture_item`), up to the second, in its JSON form.
pub fn get_completion_resolve_response(response_num: u32) -> (r: Option<JsonValue>)
    ensures
        match r {
            Some(j) => response_num < 2 && json_view(j) == fixture_item(crate::text::decimal((response_num + 1) as nat)),
            None => response_num >= 2,
        },
{
    if response_num < 2 {
        let number = crate::text::decimal_string((response_num + 1) as u64);
        Some(completion_item(number.as_str()))
    } else {
        None
    }
}

} // verus!
