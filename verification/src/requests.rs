//! The requests a test can make of a server, and the replacements in the `init.lua`
//! template that make the client send each of them with the given parameters.
//! Parameters of protocol types arrive as the JSON text that serde writes for them.
use vstd::prelude::*;

use crate::json::{json_quoted, quote_json_string};
use crate::lua::{commands_string, commands_text, LuaReplacement};
use crate::test_type::TestType;
use crate::types::{Position, Range};

verus! {

/// A request under test, with its parameters.
#[derive(Debug)]
pub enum Request {
    CodeAction { range: Range, context_json: String },
    CodeActionResolve { code_action_json: String },
    CodeLens { commands: Option<Vec<String>> },
    CodeLensResolve { commands: Option<Vec<String>>, code_lens_json: String },
    ColorPresentation { color_json: String, range: Range },
    Completion { pos: Position },
    CompletionResolve { completion_item_json: String },
    Declaration { pos: Position },
    Definition { pos: Position },
    Diagnostic { identifier: Option<String>, previous_result_id: Option<String> },
    DocumentColor,
    DocumentHighlight { pos: Position },
    DocumentLink,
    DocumentLinkResolve { link_json: String },
    DocumentSymbol,
    FoldingRange,
    Formatting { options_json: String },
    FormattingState { options_json: String },
    Hover { pos: Position },
    Implementation { pos: Position },
    IncomingCalls { item_json: String },
    InlayHint { range: Range },
    LinkedEditingRange { pos: Position },
    Moniker { pos: Position },
    OnTypeFormatting { pos: Position, character: String, options_json: String },
    OutgoingCalls { item_json: String },
    PrepareCallHierarchy { pos: Position },
    PrepareRename { pos: Position },
    PrepareTypeHierarchy { pos: Position, items_json: Option<String> },
    PublishDiagnostics,
    RangeFormatting { range: Range, options_json: String },
    References { pos: Position, include_declaration: bool },
    Rename { pos: Position, new_name: String },
    SelectionRange { positions_json: String },
    SemanticTokensFull,
    SemanticTokensFullDelta,
    SemanticTokensRange { range: Range },
    SignatureHelp { pos: Position, context_json: Option<String> },
    TypeDefinition { pos: Position },
    WorkspaceDiagnostic { identifier: Option<String>, previous_result_ids_json: String },
    WorkspaceExecuteCommand { commands: Option<Vec<String>>, command: String, arguments_json: Option<String> },
    WorkspaceSymbol { query: String },
    WorkspaceSymbolResolve { symbol_json: String },
    WorkspaceWillCreateFiles { params_json: String },
    WorkspaceWillDeleteFiles { params_json: String },
    WorkspaceWillRenameFiles { params_json: String },
}

/// What a replacement stands for, with its text as character sequences.
pub enum LuaView {
    TextDocument,
    Position(Position, Option<Seq<char>>),
    Range(Range),
    Direct(Seq<char>, Seq<char>),
    Destructure(Seq<char>, Seq<Seq<char>>, Seq<char>),
    Nested(Seq<char>, Seq<LuaView>),
    Other(Seq<char>, Seq<char>),
}

/// The characters of each string.
pub open spec fn strings_view(v: Seq<String>) -> Seq<Seq<char>> {
    v.map_values(|s: String| s@)
}

/// The view of a replacement.
pub open spec fn lua_view(r: LuaReplacement) -> LuaView
    decreases r,
{
    match r {
        LuaReplacement::ParamTextDocument => LuaView::TextDocument,
        LuaReplacement::ParamPosition { pos, name } => LuaView::Position(
            pos,
            match name {
                Some(n) => Some(n@),
                None => None,
            },
        ),
        LuaReplacement::ParamRange(range) => LuaView::Range(range),
        LuaReplacement::ParamDirect { name, json } => LuaView::Direct(name@, json@),
        LuaReplacement::ParamDestructure { name, fields, json } => LuaView::Destructure(
            name@,
            strings_view(fields@),
            json@,
        ),
        LuaReplacement::ParamNested { name, fields } => LuaView::Nested(name@, lua_views(fields@)),
        LuaReplacement::Other { from, to } => LuaView::Other(from@, to@),
    }
}

/// The views of `rs`, in order.
pub open spec fn lua_views(rs: Seq<LuaReplacement>) -> Seq<LuaView>
    decreases rs,
{
    if rs.len() == 0 {
        Seq::empty()
    } else {
        seq![lua_view(rs[0])] + lua_views(rs.drop_first())
    }
}

proof fn lemma_lua_views(rs: Seq<LuaReplacement>)
    ensures
        lua_views(rs).len() == rs.len(),
        forall|i: int| 0 <= i < rs.len() ==> #[trigger] lua_views(rs)[i] == lua_view(rs[i]),
    decreases rs.len(),
{
    if rs.len() > 0 {
        lemma_lua_views(rs.drop_first());
        assert forall|i: int| 0 <= i < rs.len() implies #[trigger] lua_views(rs)[i] == lua_view(rs[i]) by {
            if i > 0 {
                assert(rs.drop_first()[i - 1] == rs[i]);
            }
        }
    }
}

/// The JSON text `null`, or `s` as a JSON string.
pub open spec fn quoted_or_null(s: Option<String>) -> Seq<char> {
    match s {
        Some(t) => json_quoted(t@),
        None => "null"@,
    }
}

/// The JSON text `null`, or the JSON text `j`.
pub open spec fn json_or_null_text(j: Option<String>) -> Seq<char> {
    match j {
        Some(t) => t@,
        None => "null"@,
    }
}

/// `true` or `false`.
pub open spec fn bool_text(b: bool) -> Seq<char> {
    if b { "true"@ } else { "false"@ }
}

/// The `COMMANDS` text for the commands a client advertises.
pub open spec fn commands_view(c: Option<Vec<String>>) -> Seq<char> {
    match c {
        Some(v) => commands_text(v@),
        None => Seq::empty(),
    }
}

/// The test type of a request.
pub open spec fn request_type(r: Request) -> TestType {
    match r {
        Request::CodeAction { .. } => TestType::CodeAction,
        Request::CodeActionResolve { .. } => TestType::CodeActionResolve,
        Request::CodeLens { .. } => TestType::CodeLens,
        Request::CodeLensResolve { .. } => TestType::CodeLensResolve,
        Request::ColorPresentation { .. } => TestType::ColorPresentation,
        Request::Completion { .. } => TestType::Completion,
        Request::CompletionResolve { .. } => TestType::CompletionResolve,
        Request::Declaration { .. } => TestType::Declaration,
        Request::Definition { .. } => TestType::Definition,
        Request::Diagnostic { .. } => TestType::Diagnostic,
        Request::DocumentColor => TestType::DocumentColor,
        Request::DocumentHighlight { .. } => TestType::DocumentHighlight,
        Request::DocumentLink => TestType::DocumentLink,
        Request::DocumentLinkResolve { .. } => TestType::DocumentLinkResolve,
        Request::DocumentSymbol => TestType::DocumentSymbol,
        Request::FoldingRange => TestType::FoldingRange,
        Request::Formatting { .. } => TestType::Formatting,
        Request::FormattingState { .. } => TestType::Formatting,
        Request::Hover { .. } => TestType::Hover,
        Request::Implementation { .. } => TestType::Implementation,
        Request::IncomingCalls { .. } => TestType::IncomingCalls,
        Request::InlayHint { .. } => TestType::InlayHint,
        Request::LinkedEditingRange { .. } => TestType::LinkedEditingRange,
        Request::Moniker { .. } => TestType::Moniker,
        Request::OnTypeFormatting { .. } => TestType::OnTypeFormatting,
        Request::OutgoingCalls { .. } => TestType::OutgoingCalls,
        Request::PrepareCallHierarchy { .. } => TestType::PrepareCallHierarchy,
        Request::PrepareRename { .. } => TestType::PrepareRename,
        Request::PrepareTypeHierarchy { .. } => TestType::PrepareTypeHierarchy,
        Request::PublishDiagnostics => TestType::PublishDiagnostics,
        Request::RangeFormatting { .. } => TestType::RangeFormatting,
        Request::References { .. } => TestType::References,
        Request::Rename { .. } => TestType::Rename,
        Request::SelectionRange { .. } => TestType::SelectionRange,
        Request::SemanticTokensFull => TestType::SemanticTokensFull,
        Request::SemanticTokensFullDelta => TestType::SemanticTokensFullDelta,
        Request::SemanticTokensRange { .. } => TestType::SemanticTokensRange,
        Request::SignatureHelp { .. } => TestType::SignatureHelp,
        Request::TypeDefinition { .. } => TestType::TypeDefinition,
        Request::WorkspaceDiagnostic { .. } => TestType::WorkspaceDiagnostic,
        Request::WorkspaceExecuteCommand { .. } => TestType::WorkspaceExecuteCommand,
        Request::WorkspaceSymbol { .. } => TestType::WorkspaceSymbol,
        Request::WorkspaceSymbolResolve { .. } => TestType::WorkspaceSymbolResolve,
        Request::WorkspaceWillCreateFiles { .. } => TestType::WorkspaceWillCreateFiles,
        Request::WorkspaceWillDeleteFiles { .. } => TestType::WorkspaceWillDeleteFiles,
        Request::WorkspaceWillRenameFiles { .. } => TestType::WorkspaceWillRenameFiles,
    }
}

/// The replacements that make the client send request `r`, in order.
pub open spec fn request_plan(r: Request) -> Seq<LuaView> {
    match r {
        Request::CodeAction { range, context_json } => seq![LuaView::TextDocument, LuaView::Range(range), LuaView::Direct("context"@, context_json@)],
        Request::CodeActionResolve { code_action_json } => seq![LuaView::Destructure("code_action"@, seq!["title"@, "kind"@, "diagnostics"@, "edit"@, "command"@, "isPreferred"@, "disabled"@, "data"@], code_action_json@)],
        Request::CodeLens { commands } => seq![LuaView::TextDocument, LuaView::Other("COMMANDS"@, commands_view(commands))],
        Request::CodeLensResolve { commands, code_lens_json } => seq![LuaView::Destructure("code_lens"@, seq!["range"@, "data"@, "command"@], code_lens_json@), LuaView::Other("COMMANDS"@, commands_view(commands))],
        Request::ColorPresentation { color_json, range } => seq![LuaView::TextDocument, LuaView::Direct("color"@, color_json@), LuaView::Range(range)],
        Request::Completion { pos } => seq![LuaView::TextDocument, LuaView::Position(pos, None)],
        Request::CompletionResolve { completion_item_json } => seq![LuaView::Destructure("completion_item"@, seq!["label"@, "labelDetails"@, "kind"@, "tags"@, "detail"@, "documentation"@, "deprecated"@, "preselect"@, "sortText"@, "filterText"@, "insertText"@, "insertTextFormat"@, "insertTextMode"@, "textEdit"@, "textEditText"@, "additionalTextEdits"@, "commitCharacters"@, "command"@, "data"@], completion_item_json@)],
        Request::Declaration { pos } => seq![LuaView::TextDocument, LuaView::Position(pos, None)],
        Request::Definition { pos } => seq![LuaView::TextDocument, LuaView::Position(pos, None)],
        Request::Diagnostic { identifier, previous_result_id } => seq![LuaView::TextDocument, LuaView::Direct("identifier"@, quoted_or_null(identifier)), LuaView::Direct("previousResultId"@, quoted_or_null(previous_result_id))],
        Request::DocumentColor => seq![LuaView::TextDocument],
        Request::DocumentHighlight { pos } => seq![LuaView::TextDocument, LuaView::Position(pos, None)],
        Request::DocumentLink => seq![LuaView::TextDocument],
        Request::DocumentLinkResolve { link_json } => seq![LuaView::Destructure("link"@, seq!["range"@, "target"@, "tooltip"@, "data"@], link_json@)],
        Request::DocumentSymbol => seq![LuaView::TextDocument],
        Request::FoldingRange => seq![LuaView::TextDocument],
        Request::Formatting { options_json } => seq![LuaView::Other("INVOKE_ACTION"@, "false"@), LuaView::TextDocument, LuaView::Direct("options"@, options_json@)],
        Request::FormattingState { options_json } => seq![LuaView::Other("INVOKE_ACTION"@, "true"@), LuaView::Other("INVOKE_FN"@, "vim.lsp.buf.format"@), LuaView::Direct("formatting_options"@, options_json@), LuaView::Direct("async"@, "false"@)],
        Request::Hover { pos } => seq![LuaView::TextDocument, LuaView::Position(pos, None)],
        Request::Implementation { pos } => seq![LuaView::TextDocument, LuaView::Position(pos, None)],
        Request::IncomingCalls { item_json } => seq![LuaView::Direct("item"@, item_json@)],
        Request::InlayHint { range } => seq![LuaView::TextDocument, LuaView::Range(range)],
        Request::LinkedEditingRange { pos } => seq![LuaView::TextDocument, LuaView::Position(pos, None)],
        Request::Moniker { pos } => seq![LuaView::TextDocument, LuaView::Position(pos, None)],
        Request::OnTypeFormatting { pos, character, options_json } => seq![LuaView::TextDocument, LuaView::Position(pos, None), LuaView::Direct("ch"@, json_quoted(character@)), LuaView::Direct("options"@, options_json@)],
        Request::OutgoingCalls { item_json } => seq![LuaView::Direct("item"@, item_json@)],
        Request::PrepareCallHierarchy { pos } => seq![LuaView::TextDocument, LuaView::Position(pos, None)],
        Request::PrepareRename { pos } => seq![LuaView::TextDocument, LuaView::Position(pos, None)],
        Request::PrepareTypeHierarchy { pos, items_json } => seq![LuaView::TextDocument, LuaView::Position(pos, None), LuaView::Other("items"@, json_or_null_text(items_json))],
        Request::PublishDiagnostics => Seq::empty(),
        Request::RangeFormatting { range, options_json } => seq![LuaView::TextDocument, LuaView::Range(range), LuaView::Direct("options"@, options_json@)],
        Request::References { pos, include_declaration } => seq![LuaView::TextDocument, LuaView::Position(pos, None), LuaView::Nested("context"@, seq![LuaView::Direct("includeDeclaration"@, bool_text(include_declaration))])],
        Request::Rename { pos, new_name } => seq![LuaView::TextDocument, LuaView::Position(pos, None), LuaView::Direct("newName"@, json_quoted(new_name@))],
        Request::SelectionRange { positions_json } => seq![LuaView::TextDocument, LuaView::Direct("positions"@, positions_json@)],
        Request::SemanticTokensFull => seq![LuaView::TextDocument],
        Request::SemanticTokensFullDelta => seq![LuaView::TextDocument],
        Request::SemanticTokensRange { range } => seq![LuaView::TextDocument, LuaView::Range(range)],
        Request::SignatureHelp { pos, context_json } => seq![LuaView::TextDocument, LuaView::Position(pos, None), LuaView::Direct("context"@, json_or_null_text(context_json))],
        Request::TypeDefinition { pos } => seq![LuaView::TextDocument, LuaView::Position(pos, None)],
        Request::WorkspaceDiagnostic { identifier, previous_result_ids_json } => seq![LuaView::TextDocument, LuaView::Direct("identifier"@, quoted_or_null(identifier)), LuaView::Direct("previousResultIds"@, previous_result_ids_json@)],
        Request::WorkspaceExecuteCommand { commands, command, arguments_json } => seq![LuaView::Other("COMMANDS"@, commands_view(commands)), LuaView::Direct("command"@, json_quoted(command@)), LuaView::Direct("arguments"@, json_or_null_text(arguments_json)), LuaView::Other("INVOKE_ACTION"@, "false"@)],
        Request::WorkspaceSymbol { query } => seq![LuaView::TextDocument, LuaView::Direct("query"@, json_quoted(query@))],
        Request::WorkspaceSymbolResolve { symbol_json } => seq![LuaView::Destructure("symbol"@, seq!["name"@, "kind"@, "tags"@, "containerName"@, "location"@, "data"@], symbol_json@)],
        Request::WorkspaceWillCreateFiles { params_json } => seq![LuaView::Destructure("create_params"@, seq!["files"@], params_json@)],
        Request::WorkspaceWillDeleteFiles { params_json } => seq![LuaView::Destructure("delete_params"@, seq!["files"@], params_json@)],
        Request::WorkspaceWillRenameFiles { params_json } => seq![LuaView::Destructure("rename_params"@, seq!["files"@], params_json@)],
    }
}

/// The cursor position that request `r` carries, if it carries one.
pub open spec fn request_cursor(r: Request) -> Option<Position> {
    match r {
        Request::Completion { pos, .. } => Some(pos),
        Request::Declaration { pos, .. } => Some(pos),
        Request::Definition { pos, .. } => Some(pos),
        Request::DocumentHighlight { pos, .. } => Some(pos),
        Request::Hover { pos, .. } => Some(pos),
        Request::Implementation { pos, .. } => Some(pos),
        Request::LinkedEditingRange { pos, .. } => Some(pos),
        Request::Moniker { pos, .. } => Some(pos),
        Request::OnTypeFormatting { pos, .. } => Some(pos),
        Request::PrepareCallHierarchy { pos, .. } => Some(pos),
        Request::PrepareRename { pos, .. } => Some(pos),
        Request::PrepareTypeHierarchy { pos, .. } => Some(pos),
        Request::References { pos, .. } => Some(pos),
        Request::Rename { pos, .. } => Some(pos),
        Request::SignatureHelp { pos, .. } => Some(pos),
        Request::TypeDefinition { pos, .. } => Some(pos),
        _ => None,
    }
}

/// The range that request `r` carries, if it carries one.
pub open spec fn request_range(r: Request) -> Option<Range> {
    match r {
        Request::CodeAction { range, .. } => Some(range),
        Request::ColorPresentation { range, .. } => Some(range),
        Request::InlayHint { range, .. } => Some(range),
        Request::RangeFormatting { range, .. } => Some(range),
        Request::SemanticTokensRange { range, .. } => Some(range),
        _ => None,
    }
}

/// A request that carries a cursor position hands exactly that position to the
/// client, under the default name `position`, and no other position; a request
/// without one hands over no position at all.
pub proof fn lemma_request_cursor_sent(r: Request)
    ensures
        forall|i: int| 0 <= i < request_plan(r).len() ==> (#[trigger] request_plan(r)[i] matches LuaView::Position(q, name)
            ==> request_cursor(r) == Some(q) && name is None),
        request_cursor(r) matches Some(p) ==> exists|i: int|
            0 <= i < request_plan(r).len() && #[trigger] request_plan(r)[i] == LuaView::Position(p, None),
{
    if request_cursor(r) is Some {
        assert(request_plan(r)[1] == LuaView::Position(request_cursor(r)->0, None));
    }
}

/// A request that carries a range hands exactly that range to the client, and no
/// other range; a request without one hands over no range at all.
pub proof fn lemma_request_range_sent(r: Request)
    ensures
        forall|i: int| 0 <= i < request_plan(r).len() ==> (#[trigger] request_plan(r)[i] matches LuaView::Range(q)
            ==> request_range(r) == Some(q)),
        request_range(r) matches Some(g) ==> exists|i: int|
            0 <= i < request_plan(r).len() && #[trigger] request_plan(r)[i] == LuaView::Range(g),
{
    match r {
        Request::ColorPresentation { range, .. } => {
            assert(request_plan(r)[2] == LuaView::Range(range));
        },
        _ => {
            if request_range(r) is Some {
                assert(request_plan(r)[1] == LuaView::Range(request_range(r)->0));
            }
        },
    }
}

fn direct(name: &str, json: String) -> (r: LuaReplacement)
    ensures
        lua_view(r) == LuaView::Direct(name@, json@),
{
    LuaReplacement::ParamDirect { name: String::from_str(name), json }
}

fn other(from: &str, to: String) -> (r: LuaReplacement)
    ensures
        lua_view(r) == LuaView::Other(from@, to@),
{
    LuaReplacement::Other { from: String::from_str(from), to }
}

fn nested_bool(name: &str, field: &str, b: bool) -> (r: LuaReplacement)
    ensures
        lua_view(r) == LuaView::Nested(name@, seq![LuaView::Direct(field@, bool_text(b))]),
{
    let text = if b { String::from_str("true") } else { String::from_str("false") };
    let inner = direct(field, text);
    let mut fields: Vec<LuaReplacement> = Vec::new();
    fields.push(inner);
    proof {
        lemma_lua_views(fields@);
    }
    assert(lua_views(fields@) =~= seq![LuaView::Direct(field@, bool_text(b))]);
    LuaReplacement::ParamNested { name: String::from_str(name), fields }
}

fn quoted_or_null_string(s: &Option<String>) -> (r: String)
    ensures
        r@ == quoted_or_null(*s),
{
    match s {
        Some(t) => quote_json_string(t.as_str()),
        None => String::from_str("null"),
    }
}

fn json_or_null_string(j: &Option<String>) -> (r: String)
    ensures
        r@ == json_or_null_text(*j),
{
    match j {
        Some(t) => t.clone(),
        None => String::from_str("null"),
    }
}

fn opt_vec_ref(c: &Option<Vec<String>>) -> (r: Option<&Vec<String>>)
    ensures
        match r {
            Some(v) => *c == Some(*v),
            None => c is None,
        },
{
    match c {
        Some(v) => Some(v),
        None => None,
    }
}

impl Request {
    /// The test type of this request.
    pub fn test_type(&self) -> (r: TestType)
        ensures
            r == request_type(*self),
    {
        match self {
            Request::CodeAction { .. } => TestType::CodeAction,
            Request::CodeActionResolve { .. } => TestType::CodeActionResolve,
            Request::CodeLens { .. } => TestType::CodeLens,
            Request::CodeLensResolve { .. } => TestType::CodeLensResolve,
            Request::ColorPresentation { .. } => TestType::ColorPresentation,
            Request::Completion { .. } => TestType::Completion,
            Request::CompletionResolve { .. } => TestType::CompletionResolve,
            Request::Declaration { .. } => TestType::Declaration,
            Request::Definition { .. } => TestType::Definition,
            Request::Diagnostic { .. } => TestType::Diagnostic,
            Request::DocumentColor => TestType::DocumentColor,
            Request::DocumentHighlight { .. } => TestType::DocumentHighlight,
            Request::DocumentLink => TestType::DocumentLink,
            Request::DocumentLinkResolve { .. } => TestType::DocumentLinkResolve,
            Request::DocumentSymbol => TestType::DocumentSymbol,
            Request::FoldingRange => TestType::FoldingRange,
            Request::Formatting { .. } => TestType::Formatting,
            Request::FormattingState { .. } => TestType::Formatting,
            Request::Hover { .. } => TestType::Hover,
            Request::Implementation { .. } => TestType::Implementation,
            Request::IncomingCalls { .. } => TestType::IncomingCalls,
            Request::InlayHint { .. } => TestType::InlayHint,
            Request::LinkedEditingRange { .. } => TestType::LinkedEditingRange,
            Request::Moniker { .. } => TestType::Moniker,
            Request::OnTypeFormatting { .. } => TestType::OnTypeFormatting,
            Request::OutgoingCalls { .. } => TestType::OutgoingCalls,
            Request::PrepareCallHierarchy { .. } => TestType::PrepareCallHierarchy,
            Request::PrepareRename { .. } => TestType::PrepareRename,
            Request::PrepareTypeHierarchy { .. } => TestType::PrepareTypeHierarchy,
            Request::PublishDiagnostics => TestType::PublishDiagnostics,
            Request::RangeFormatting { .. } => TestType::RangeFormatting,
            Request::References { .. } => TestType::References,
            Request::Rename { .. } => TestType::Rename,
            Request::SelectionRange { .. } => TestType::SelectionRange,
            Request::SemanticTokensFull => TestType::SemanticTokensFull,
            Request::SemanticTokensFullDelta => TestType::SemanticTokensFullDelta,
            Request::SemanticTokensRange { .. } => TestType::SemanticTokensRange,
            Request::SignatureHelp { .. } => TestType::SignatureHelp,
            Request::TypeDefinition { .. } => TestType::TypeDefinition,
            Request::WorkspaceDiagnostic { .. } => TestType::WorkspaceDiagnostic,
            Request::WorkspaceExecuteCommand { .. } => TestType::WorkspaceExecuteCommand,
            Request::WorkspaceSymbol { .. } => TestType::WorkspaceSymbol,
            Request::WorkspaceSymbolResolve { .. } => TestType::WorkspaceSymbolResolve,
            Request::WorkspaceWillCreateFiles { .. } => TestType::WorkspaceWillCreateFiles,
            Request::WorkspaceWillDeleteFiles { .. } => TestType::WorkspaceWillDeleteFiles,
            Request::WorkspaceWillRenameFiles { .. } => TestType::WorkspaceWillRenameFiles,
        }
    }

    /// The replacements that make the client send this request: the parameters of
    /// the request, in the order the protocol's parameter object lists them, and the
    /// raw substitutions its template needs.
    #[verifier::rlimit(100)]
    #[verifier::spinoff_prover]
    pub fn replacements(&self) -> (r: Vec<LuaReplacement>)
        ensures
            lua_views(r@) == request_plan(*self),
    {
        let mut v: Vec<LuaReplacement> = Vec::new();
        match self {
            Request::CodeAction { range, context_json } => {
                v.push(LuaReplacement::ParamTextDocument);
                v.push(LuaReplacement::ParamRange(*range));
                v.push(direct("context", context_json.clone()));
                proof { lemma_lua_views(v@); }
                assert(lua_views(v@) =~= request_plan(*self));
            },
            Request::CodeActionResolve { code_action_json } => {
                let mut f: Vec<String> = Vec::new();
                f.push(String::from_str("title"));
                f.push(String::from_str("kind"));
                f.push(String::from_str("diagnostics"));
                f.push(String::from_str("edit"));
                f.push(String::from_str("command"));
                f.push(String::from_str("isPreferred"));
                f.push(String::from_str("disabled"));
                f.push(String::from_str("data"));
                assert(strings_view(f@) =~= seq!["title"@, "kind"@, "diagnostics"@, "edit"@, "command"@, "isPreferred"@, "disabled"@, "data"@]);
                v.push(LuaReplacement::ParamDestructure { name: String::from_str("code_action"), fields: f, json: code_action_json.clone() });
                proof { lemma_lua_views(v@); }
                assert(lua_views(v@) =~= request_plan(*self));
            },
            Request::CodeLens { commands } => {
                v.push(LuaReplacement::ParamTextDocument);
                v.push(other("COMMANDS", commands_string(opt_vec_ref(commands))));
                proof { lemma_lua_views(v@); }
                assert(lua_views(v@) =~= request_plan(*self));
            },
            Request::CodeLensResolve { commands, code_lens_json } => {
                let mut f: Vec<String> = Vec::new();
                f.push(String::from_str("range"));
                f.push(String::from_str("data"));
                f.push(String::from_str("command"));
                assert(strings_view(f@) =~= seq!["range"@, "data"@, "command"@]);
                v.push(LuaReplacement::ParamDestructure { name: String::from_str("code_lens"), fields: f, json: code_lens_json.clone() });
                v.push(other("COMMANDS", commands_string(opt_vec_ref(commands))));
                proof { lemma_lua_views(v@); }
                assert(lua_views(v@) =~= request_plan(*self));
            },
            Request::ColorPresentation { color_json, range } => {
                v.push(LuaReplacement::ParamTextDocument);
                v.push(direct("color", color_json.clone()));
                v.push(LuaReplacement::ParamRange(*range));
                proof { lemma_lua_views(v@); }
                assert(lua_views(v@) =~= request_plan(*self));
            },
            Request::Completion { pos } => {
                v.push(LuaReplacement::ParamTextDocument);
                v.push(LuaReplacement::ParamPosition { pos: *pos, name: None });
                proof { lemma_lua_views(v@); }
                assert(lua_views(v@) =~= request_plan(*self));
            },
            Request::CompletionResolve { completion_item_json } => {
                let mut f: Vec<String> = Vec::new();
                f.push(String::from_str("label"));
                f.push(String::from_str("labelDetails"));
                f.push(String::from_str("kind"));
                f.push(String::from_str("tags"));
                f.push(String::from_str("detail"));
                f.push(String::from_str("documentation"));
                f.push(String::from_str("deprecated"));
                f.push(String::from_str("preselect"));
                f.push(String::from_str("sortText"));
                f.push(String::from_str("filterText"));
                f.push(String::from_str("insertText"));
                f.push(String::from_str("insertTextFormat"));
                f.push(String::from_str("insertTextMode"));
                f.push(String::from_str("textEdit"));
                f.push(String::from_str("textEditText"));
                f.push(String::from_str("additionalTextEdits"));
                f.push(String::from_str("commitCharacters"));
                f.push(String::from_str("command"));
                f.push(String::from_str("data"));
                assert(strings_view(f@) =~= seq!["label"@, "labelDetails"@, "kind"@, "tags"@, "detail"@, "documentation"@, "deprecated"@, "preselect"@, "sortText"@, "filterText"@, "insertText"@, "insertTextFormat"@, "insertTextMode"@, "textEdit"@, "textEditText"@, "additionalTextEdits"@, "commitCharacters"@, "command"@, "data"@]);
                v.push(LuaReplacement::ParamDestructure { name: String::from_str("completion_item"), fields: f, json: completion_item_json.clone() });
                proof { lemma_lua_views(v@); }
                assert(lua_views(v@) =~= request_plan(*self));
            },
            Request::Declaration { pos } => {
                v.push(LuaReplacement::ParamTextDocument);
                v.push(LuaReplacement::ParamPosition { pos: *pos, name: None });
                proof { lemma_lua_views(v@); }
                assert(lua_views(v@) =~= request_plan(*self));
            },
            Request::Definition { pos } => {
                v.push(LuaReplacement::ParamTextDocument);
                v.push(LuaReplacement::ParamPosition { pos: *pos, name: None });
                proof { lemma_lua_views(v@); }
                assert(lua_views(v@) =~= request_plan(*self));
            },
            Request::Diagnostic { identifier, previous_result_id } => {
                v.push(LuaReplacement::ParamTextDocument);
                v.push(direct("identifier", quoted_or_null_string(identifier)));
                v.push(direct("previousResultId", quoted_or_null_string(previous_result_id)));
                proof { lemma_lua_views(v@); }
                assert(lua_views(v@) =~= request_plan(*self));
            },
            Request::DocumentColor => {
                v.push(LuaReplacement::ParamTextDocument);
                proof { lemma_lua_views(v@); }
                assert(lua_views(v@) =~= request_plan(*self));
            },
            Request::DocumentHighlight { pos } => {
                v.push(LuaReplacement::ParamTextDocument);
                v.push(LuaReplacement::ParamPosition { pos: *pos, name: None });
                proof { lemma_lua_views(v@); }
                assert(lua_views(v@) =~= request_plan(*self));
            },
            Request::DocumentLink => {
                v.push(LuaReplacement::ParamTextDocument);
                proof { lemma_lua_views(v@); }
                assert(lua_views(v@) =~= request_plan(*self));
            },
            Request::DocumentLinkResolve { link_json } => {
                let mut f: Vec<String> = Vec::new();
                f.push(String::from_str("range"));
                f.push(String::from_str("target"));
                f.push(String::from_str("tooltip"));
                f.push(String::from_str("data"));
                assert(strings_view(f@) =~= seq!["range"@, "target"@, "tooltip"@, "data"@]);
                v.push(LuaReplacement::ParamDestructure { name: String::from_str("link"), fields: f, json: link_json.clone() });
                proof { lemma_lua_views(v@); }
                assert(lua_views(v@) =~= request_plan(*self));
            },
            Request::DocumentSymbol => {
                v.push(LuaReplacement::ParamTextDocument);
                proof { lemma_lua_views(v@); }
                assert(lua_views(v@) =~= request_plan(*self));
            },
            Request::FoldingRange => {
                v.push(LuaReplacement::ParamTextDocument);
                proof { lemma_lua_views(v@); }
                assert(lua_views(v@) =~= request_plan(*self));
            },
            Request::Formatting { options_json } => {
                v.push(other("INVOKE_ACTION", String::from_str("false")));
                v.push(LuaReplacement::ParamTextDocument);
                v.push(direct("options", options_json.clone()));
                proof { lemma_lua_views(v@); }
                assert(lua_views(v@) =~= request_plan(*self));
            },
            Request::FormattingState { options_json } => {
                v.push(other("INVOKE_ACTION", String::from_str("true")));
                v.push(other("INVOKE_FN", String::from_str("vim.lsp.buf.format")));
                v.push(direct("formatting_options", options_json.clone()));
                v.push(direct("async", String::from_str("false")));
                proof { lemma_lua_views(v@); }
                assert(lua_views(v@) =~= request_plan(*self));
            },
            Request::Hover { pos } => {
                v.push(LuaReplacement::ParamTextDocument);
                v.push(LuaReplacement::ParamPosition { pos: *pos, name: None });
                proof { lemma_lua_views(v@); }
                assert(lua_views(v@) =~= request_plan(*self));
            },
            Request::Implementation { pos } => {
                v.push(LuaReplacement::ParamTextDocument);
                v.push(LuaReplacement::ParamPosition { pos: *pos, name: None });
                proof { lemma_lua_views(v@); }
                assert(lua_views(v@) =~= request_plan(*self));
            },
            Request::IncomingCalls { item_json } => {
                v.push(direct("item", item_json.clone()));
                proof { lemma_lua_views(v@); }
                assert(lua_views(v@) =~= request_plan(*self));
            },
            Request::InlayHint { range } => {
                v.push(LuaReplacement::ParamTextDocument);
                v.push(LuaReplacement::ParamRange(*range));
                proof { lemma_lua_views(v@); }
                assert(lua_views(v@) =~= request_plan(*self));
            },
            Request::LinkedEditingRange { pos } => {
                v.push(LuaReplacement::ParamTextDocument);
                v.push(LuaReplacement::ParamPosition { pos: *pos, name: None });
                proof { lemma_lua_views(v@); }
                assert(lua_views(v@) =~= request_plan(*self));
            },
            Request::Moniker { pos } => {
                v.push(LuaReplacement::ParamTextDocument);
                v.push(LuaReplacement::ParamPosition { pos: *pos, name: None });
                proof { lemma_lua_views(v@); }
                assert(lua_views(v@) =~= request_plan(*self));
            },
            Request::OnTypeFormatting { pos, character, options_json } => {
                v.push(LuaReplacement::ParamTextDocument);
                v.push(LuaReplacement::ParamPosition { pos: *pos, name: None });
                v.push(direct("ch", quote_json_string(character.as_str())));
                v.push(direct("options", options_json.clone()));
                proof { lemma_lua_views(v@); }
                assert(lua_views(v@) =~= request_plan(*self));
            },
            Request::OutgoingCalls { item_json } => {
                v.push(direct("item", item_json.clone()));
                proof { lemma_lua_views(v@); }
                assert(lua_views(v@) =~= request_plan(*self));
            },
            Request::PrepareCallHierarchy { pos } => {
                v.push(LuaReplacement::ParamTextDocument);
                v.push(LuaReplacement::ParamPosition { pos: *pos, name: None });
                proof { lemma_lua_views(v@); }
                assert(lua_views(v@) =~= request_plan(*self));
            },
            Request::PrepareRename { pos } => {
                v.push(LuaReplacement::ParamTextDocument);
                v.push(LuaReplacement::ParamPosition { pos: *pos, name: None });
                proof { lemma_lua_views(v@); }
                assert(lua_views(v@) =~= request_plan(*self));
            },
            Request::PrepareTypeHierarchy { pos, items_json } => {
                v.push(LuaReplacement::ParamTextDocument);
                v.push(LuaReplacement::ParamPosition { pos: *pos, name: None });
                v.push(other("items", json_or_null_string(items_json)));
                proof { lemma_lua_views(v@); }
                assert(lua_views(v@) =~= request_plan(*self));
            },
            Request::PublishDiagnostics => {
                proof { lemma_lua_views(v@); }
                assert(lua_views(v@) =~= request_plan(*self));
            },
            Request::RangeFormatting { range, options_json } => {
                v.push(LuaReplacement::ParamTextDocument);
                v.push(LuaReplacement::ParamRange(*range));
                v.push(direct("options", options_json.clone()));
                proof { lemma_lua_views(v@); }
                assert(lua_views(v@) =~= request_plan(*self));
            },
            Request::References { pos, include_declaration } => {
                v.push(LuaReplacement::ParamTextDocument);
                v.push(LuaReplacement::ParamPosition { pos: *pos, name: None });
                v.push(nested_bool("context", "includeDeclaration", *include_declaration));
                proof { lemma_lua_views(v@); }
                assert(lua_views(v@) =~= request_plan(*self));
            },
            Request::Rename { pos, new_name } => {
                v.push(LuaReplacement::ParamTextDocument);
                v.push(LuaReplacement::ParamPosition { pos: *pos, name: None });
                v.push(direct("newName", quote_json_string(new_name.as_str())));
                proof { lemma_lua_views(v@); }
                assert(lua_views(v@) =~= request_plan(*self));
            },
            Request::SelectionRange { positions_json } => {
                v.push(LuaReplacement::ParamTextDocument);
                v.push(direct("positions", positions_json.clone()));
                proof { lemma_lua_views(v@); }
                assert(lua_views(v@) =~= request_plan(*self));
            },
            Request::SemanticTokensFull => {
                v.push(LuaReplacement::ParamTextDocument);
                proof { lemma_lua_views(v@); }
                assert(lua_views(v@) =~= request_plan(*self));
            },
            Request::SemanticTokensFullDelta => {
                v.push(LuaReplacement::ParamTextDocument);
                proof { lemma_lua_views(v@); }
                assert(lua_views(v@) =~= request_plan(*self));
            },
            Request::SemanticTokensRange { range } => {
                v.push(LuaReplacement::ParamTextDocument);
                v.push(LuaReplacement::ParamRange(*range));
                proof { lemma_lua_views(v@); }
                assert(lua_views(v@) =~= request_plan(*self));
            },
            Request::SignatureHelp { pos, context_json } => {
                v.push(LuaReplacement::ParamTextDocument);
                v.push(LuaReplacement::ParamPosition { pos: *pos, name: None });
                v.push(direct("context", json_or_null_string(context_json)));
                proof { lemma_lua_views(v@); }
                assert(lua_views(v@) =~= request_plan(*self));
            },
            Request::TypeDefinition { pos } => {
                v.push(LuaReplacement::ParamTextDocument);
                v.push(LuaReplacement::ParamPosition { pos: *pos, name: None });
                proof { lemma_lua_views(v@); }
                assert(lua_views(v@) =~= request_plan(*self));
            },
            Request::WorkspaceDiagnostic { identifier, previous_result_ids_json } => {
                v.push(LuaReplacement::ParamTextDocument);
                v.push(direct("identifier", quoted_or_null_string(identifier)));
                v.push(direct("previousResultIds", previous_result_ids_json.clone()));
                proof { lemma_lua_views(v@); }
                assert(lua_views(v@) =~= request_plan(*self));
            },
            Request::WorkspaceExecuteCommand { commands, command, arguments_json } => {
                v.push(other("COMMANDS", commands_string(opt_vec_ref(commands))));
                v.push(direct("command", quote_json_string(command.as_str())));
                v.push(direct("arguments", json_or_null_string(arguments_json)));
                v.push(other("INVOKE_ACTION", String::from_str("false")));
                proof { lemma_lua_views(v@); }
                assert(lua_views(v@) =~= request_plan(*self));
            },
            Request::WorkspaceSymbol { query } => {
                v.push(LuaReplacement::ParamTextDocument);
                v.push(direct("query", quote_json_string(query.as_str())));
                proof { lemma_lua_views(v@); }
                assert(lua_views(v@) =~= request_plan(*self));
            },
            Request::WorkspaceSymbolResolve { symbol_json } => {
                let mut f: Vec<String> = Vec::new();
                f.push(String::from_str("name"));
                f.push(String::from_str("kind"));
                f.push(String::from_str("tags"));
                f.push(String::from_str("containerName"));
                f.push(String::from_str("location"));
                f.push(String::from_str("data"));
                assert(strings_view(f@) =~= seq!["name"@, "kind"@, "tags"@, "containerName"@, "location"@, "data"@]);
                v.push(LuaReplacement::ParamDestructure { name: String::from_str("symbol"), fields: f, json: symbol_json.clone() });
                proof { lemma_lua_views(v@); }
                assert(lua_views(v@) =~= request_plan(*self));
            },
            Request::WorkspaceWillCreateFiles { params_json } => {
                let mut f: Vec<String> = Vec::new();
                f.push(String::from_str("files"));
                assert(strings_view(f@) =~= seq!["files"@]);
                v.push(LuaReplacement::ParamDestructure { name: String::from_str("create_params"), fields: f, json: params_json.clone() });
                proof { lemma_lua_views(v@); }
                assert(lua_views(v@) =~= request_plan(*self));
            },
            Request::WorkspaceWillDeleteFiles { params_json } => {
                let mut f: Vec<String> = Vec::new();
                f.push(String::from_str("files"));
                assert(strings_view(f@) =~= seq!["files"@]);
                v.push(LuaReplacement::ParamDestructure { name: String::from_str("delete_params"), fields: f, json: params_json.clone() });
                proof { lemma_lua_views(v@); }
                assert(lua_views(v@) =~= request_plan(*self));
            },
            Request::WorkspaceWillRenameFiles { params_json } => {
                let mut f: Vec<String> = Vec::new();
                f.push(String::from_str("files"));
                assert(strings_view(f@) =~= seq!["files"@]);
                v.push(LuaReplacement::ParamDestructure { name: String::from_str("rename_params"), fields: f, json: params_json.clone() });
                proof { lemma_lua_views(v@); }
                assert(lua_views(v@) =~= request_plan(*self));
            },
        }
        v
    }
}

/// The names of the entries of the parameter table that a replacement assigns.
pub open spec fn assigned_names(v: LuaView) -> Seq<Seq<char>> {
    match v {
        LuaView::TextDocument => seq!["textDocument"@],
        LuaView::Position(_, name) => seq![
            match name {
                Some(n) => n,
                None => "position"@,
            },
        ],
        LuaView::Range(_) => seq!["range"@],
        LuaView::Direct(name, _) => seq![name],
        LuaView::Destructure(_, fields, _) => fields,
        LuaView::Nested(name, _) => seq![name],
        LuaView::Other(_, _) => Seq::empty(),
    }
}

/// The names that a plan assigns in the parameter table, in order.
pub open spec fn plan_names(p: Seq<LuaView>) -> Seq<Seq<char>>
    decreases p.len(),
{
    if p.len() == 0 {
        Seq::empty()
    } else {
        assigned_names(p[0]) + plan_names(p.drop_first())
    }
}




spec fn absent_from(x: Seq<char>, s: Seq<Seq<char>>, from: int) -> bool
    decreases s.len() - from,
{
    if from < 0 || from >= s.len() {
        true
    } else {
        s[from] != x && absent_from(x, s, from + 1)
    }
}

spec fn distinct_from(s: Seq<Seq<char>>, from: int) -> bool
    decreases s.len() - from,
{
    if from < 0 || from >= s.len() {
        true
    } else {
        absent_from(s[from], s, from + 1) && distinct_from(s, from + 1)
    }
}

proof fn lemma_absent_from(x: Seq<char>, s: Seq<Seq<char>>, from: int, j: int)
    requires
        absent_from(x, s, from),
        0 <= from <= j < s.len(),
    ensures
        s[j] != x,
    decreases j - from,
{
    if from < j {
        lemma_absent_from(x, s, from + 1, j);
    }
}

proof fn lemma_distinct_from(s: Seq<Seq<char>>, from: int)
    requires
        distinct_from(s, from),
        0 <= from,
    ensures
        forall|i: int, j: int| from <= i < s.len() && from <= j < s.len() && i != j ==> s[i] != s[j],
    decreases s.len() - from,
{
    if from < s.len() {
        lemma_distinct_from(s, from + 1);
        assert forall|j: int| from < j < s.len() implies s[j] != s[from] by {
            lemma_absent_from(s[from], s, from + 1, j);
        }
    }
}

/// Every request assigns each entry of the parameter table at most once, so the
/// guards that the generated Lua places before each assignment never fire.
#[verifier::rlimit(100)]
pub proof fn lemma_request_names_distinct(r: Request)
    ensures
        plan_names(request_plan(r)).no_duplicates(),
{
    reveal_with_fuel(plan_names, 5);
    reveal_with_fuel(distinct_from, 2);
    reveal_with_fuel(absent_from, 2);
    let names = plan_names(request_plan(r));
    match r {
        Request::CodeAction { .. } => {
            reveal_strlit("context");
            assert("context"@.len() == 7);
            reveal_strlit("range");
            assert("range"@.len() == 5);
            reveal_strlit("textDocument");
            assert("textDocument"@.len() == 12);
            assert(names =~= seq!["textDocument"@, "range"@, "context"@]);
            assert(distinct_from(names, 2));
            assert(absent_from(names[1], names, 2));
            assert(distinct_from(names, 1));
            assert(absent_from(names[0], names, 2));
            assert(absent_from(names[0], names, 1));
            assert(distinct_from(names, 0));
            lemma_distinct_from(names, 0);
        },
        Request::CodeActionResolve { .. } => {
            reveal_strlit("command");
            assert("command"@.len() == 7);
            reveal_strlit("data");
            assert("data"@.len() == 4);
            reveal_strlit("diagnostics");
            assert("diagnostics"@.len() == 11);
            reveal_strlit("disabled");
            assert("disabled"@.len() == 8);
            reveal_strlit("edit");
            assert("edit"@.len() == 4);
            reveal_strlit("isPreferred");
            assert("isPreferred"@.len() == 11);
            reveal_strlit("kind");
            assert("kind"@.len() == 4);
            reveal_strlit("title");
            assert("title"@.len() == 5);
            assert("kind"@[0] != "edit"@[0]);
            assert("kind"@[0] != "data"@[0]);
            assert("diagnostics"@[0] != "isPreferred"@[0]);
            assert("edit"@[0] != "data"@[0]);
            assert(names =~= seq!["title"@, "kind"@, "diagnostics"@, "edit"@, "command"@, "isPreferred"@, "disabled"@, "data"@]);
            assert(distinct_from(names, 7));
            assert(absent_from(names[6], names, 7));
            assert(distinct_from(names, 6));
            assert(absent_from(names[5], names, 7));
            assert(absent_from(names[5], names, 6));
            assert(distinct_from(names, 5));
            assert(absent_from(names[4], names, 7));
            assert(absent_from(names[4], names, 6));
            assert(absent_from(names[4], names, 5));
            assert(distinct_from(names, 4));
            assert(absent_from(names[3], names, 7));
            assert(absent_from(names[3], names, 6));
            assert(absent_from(names[3], names, 5));
            assert(absent_from(names[3], names, 4));
            assert(distinct_from(names, 3));
            assert(absent_from(names[2], names, 7));
            assert(absent_from(names[2], names, 6));
            assert(absent_from(names[2], names, 5));
            assert(absent_from(names[2], names, 4));
            assert(absent_from(names[2], names, 3));
            assert(distinct_from(names, 2));
            assert(absent_from(names[1], names, 7));
            assert(absent_from(names[1], names, 6));
            assert(absent_from(names[1], names, 5));
            assert(absent_from(names[1], names, 4));
            assert(absent_from(names[1], names, 3));
            assert(absent_from(names[1], names, 2));
            assert(distinct_from(names, 1));
            assert(absent_from(names[0], names, 7));
            assert(absent_from(names[0], names, 6));
            assert(absent_from(names[0], names, 5));
            assert(absent_from(names[0], names, 4));
            assert(absent_from(names[0], names, 3));
            assert(absent_from(names[0], names, 2));
            assert(absent_from(names[0], names, 1));
            assert(distinct_from(names, 0));
            lemma_distinct_from(names, 0);
        },
        Request::CodeLens { .. } => {
            reveal_strlit("textDocument");
            assert("textDocument"@.len() == 12);
            assert(names =~= seq!["textDocument"@]);
            assert(distinct_from(names, 0));
            lemma_distinct_from(names, 0);
        },
        Request::CodeLensResolve { .. } => {
            reveal_strlit("command");
            assert("command"@.len() == 7);
            reveal_strlit("data");
            assert("data"@.len() == 4);
            reveal_strlit("range");
            assert("range"@.len() == 5);
            assert(names =~= seq!["range"@, "data"@, "command"@]);
            assert(distinct_from(names, 2));
            assert(absent_from(names[1], names, 2));
            assert(distinct_from(names, 1));
            assert(absent_from(names[0], names, 2));
            assert(absent_from(names[0], names, 1));
            assert(distinct_from(names, 0));
            lemma_distinct_from(names, 0);
        },
        Request::ColorPresentation { .. } => {
            reveal_strlit("color");
            assert("color"@.len() == 5);
            reveal_strlit("range");
            assert("range"@.len() == 5);
            reveal_strlit("textDocument");
            assert("textDocument"@.len() == 12);
            assert("color"@[0] != "range"@[0]);
            assert(names =~= seq!["textDocument"@, "color"@, "range"@]);
            assert(distinct_from(names, 2));
            assert(absent_from(names[1], names, 2));
            assert(distinct_from(names, 1));
            assert(absent_from(names[0], names, 2));
            assert(absent_from(names[0], names, 1));
            assert(distinct_from(names, 0));
            lemma_distinct_from(names, 0);
        },
        Request::Completion { .. } => {
            reveal_strlit("position");
            assert("position"@.len() == 8);
            reveal_strlit("textDocument");
            assert("textDocument"@.len() == 12);
            assert(names =~= seq!["textDocument"@, "position"@]);
            assert(distinct_from(names, 1));
            assert(absent_from(names[0], names, 1));
            assert(distinct_from(names, 0));
            lemma_distinct_from(names, 0);
        },
        Request::CompletionResolve { .. } => {
            reveal_strlit("additionalTextEdits");
            assert("additionalTextEdits"@.len() == 19);
            reveal_strlit("command");
            assert("command"@.len() == 7);
            reveal_strlit("commitCharacters");
            assert("commitCharacters"@.len() == 16);
            reveal_strlit("data");
            assert("data"@.len() == 4);
            reveal_strlit("deprecated");
            assert("deprecated"@.len() == 10);
            reveal_strlit("detail");
            assert("detail"@.len() == 6);
            reveal_strlit("documentation");
            assert("documentation"@.len() == 13);
            reveal_strlit("filterText");
            assert("filterText"@.len() == 10);
            reveal_strlit("insertText");
            assert("insertText"@.len() == 10);
            reveal_strlit("insertTextFormat");
            assert("insertTextFormat"@.len() == 16);
            reveal_strlit("insertTextMode");
            assert("insertTextMode"@.len() == 14);
            reveal_strlit("kind");
            assert("kind"@.len() == 4);
            reveal_strlit("label");
            assert("label"@.len() == 5);
            reveal_strlit("labelDetails");
            assert("labelDetails"@.len() == 12);
            reveal_strlit("preselect");
            assert("preselect"@.len() == 9);
            reveal_strlit("sortText");
            assert("sortText"@.len() == 8);
            reveal_strlit("tags");
            assert("tags"@.len() == 4);
            reveal_strlit("textEdit");
            assert("textEdit"@.len() == 8);
            reveal_strlit("textEditText");
            assert("textEditText"@.len() == 12);
            assert("labelDetails"@[0] != "textEditText"@[0]);
            assert("kind"@[0] != "tags"@[0]);
            assert("kind"@[0] != "data"@[0]);
            assert("tags"@[0] != "data"@[0]);
            assert("deprecated"@[0] != "filterText"@[0]);
            assert("deprecated"@[0] != "insertText"@[0]);
            assert("sortText"@[0] != "textEdit"@[0]);
            assert("filterText"@[0] != "insertText"@[0]);
            assert("insertTextFormat"@[0] != "commitCharacters"@[0]);
            assert(names =~= seq!["label"@, "labelDetails"@, "kind"@, "tags"@, "detail"@, "documentation"@, "deprecated"@, "preselect"@, "sortText"@, "filterText"@, "insertText"@, "insertTextFormat"@, "insertTextMode"@, "textEdit"@, "textEditText"@, "additionalTextEdits"@, "commitCharacters"@, "command"@, "data"@]);
            assert(distinct_from(names, 18));
            assert(absent_from(names[17], names, 18));
            assert(distinct_from(names, 17));
            assert(absent_from(names[16], names, 18));
            assert(absent_from(names[16], names, 17));
            assert(distinct_from(names, 16));
            assert(absent_from(names[15], names, 18));
            assert(absent_from(names[15], names, 17));
            assert(absent_from(names[15], names, 16));
            assert(distinct_from(names, 15));
            assert(absent_from(names[14], names, 18));
            assert(absent_from(names[14], names, 17));
            assert(absent_from(names[14], names, 16));
            assert(absent_from(names[14], names, 15));
            assert(distinct_from(names, 14));
            assert(absent_from(names[13], names, 18));
            assert(absent_from(names[13], names, 17));
            assert(absent_from(names[13], names, 16));
            assert(absent_from(names[13], names, 15));
            assert(absent_from(names[13], names, 14));
            assert(distinct_from(names, 13));
            assert(absent_from(names[12], names, 18));
            assert(absent_from(names[12], names, 17));
            assert(absent_from(names[12], names, 16));
            assert(absent_from(names[12], names, 15));
            assert(absent_from(names[12], names, 14));
            assert(absent_from(names[12], names, 13));
            assert(distinct_from(names, 12));
            assert(absent_from(names[11], names, 18));
            assert(absent_from(names[11], names, 17));
            assert(absent_from(names[11], names, 16));
            assert(absent_from(names[11], names, 15));
            assert(absent_from(names[11], names, 14));
            assert(absent_from(names[11], names, 13));
            assert(absent_from(names[11], names, 12));
            assert(distinct_from(names, 11));
            assert(absent_from(names[10], names, 18));
            assert(absent_from(names[10], names, 17));
            assert(absent_from(names[10], names, 16));
            assert(absent_from(names[10], names, 15));
            assert(absent_from(names[10], names, 14));
            assert(absent_from(names[10], names, 13));
            assert(absent_from(names[10], names, 12));
            assert(absent_from(names[10], names, 11));
            assert(distinct_from(names, 10));
            assert(absent_from(names[9], names, 18));
            assert(absent_from(names[9], names, 17));
            assert(absent_from(names[9], names, 16));
            assert(absent_from(names[9], names, 15));
            assert(absent_from(names[9], names, 14));
            assert(absent_from(names[9], names, 13));
            assert(absent_from(names[9], names, 12));
            assert(absent_from(names[9], names, 11));
            assert(absent_from(names[9], names, 10));
            assert(distinct_from(names, 9));
            assert(absent_from(names[8], names, 18));
            assert(absent_from(names[8], names, 17));
            assert(absent_from(names[8], names, 16));
            assert(absent_from(names[8], names, 15));
            assert(absent_from(names[8], names, 14));
            assert(absent_from(names[8], names, 13));
            assert(absent_from(names[8], names, 12));
            assert(absent_from(names[8], names, 11));
            assert(absent_from(names[8], names, 10));
            assert(absent_from(names[8], names, 9));
            assert(distinct_from(names, 8));
            assert(absent_from(names[7], names, 18));
            assert(absent_from(names[7], names, 17));
            assert(absent_from(names[7], names, 16));
            assert(absent_from(names[7], names, 15));
            assert(absent_from(names[7], names, 14));
            assert(absent_from(names[7], names, 13));
            assert(absent_from(names[7], names, 12));
            assert(absent_from(names[7], names, 11));
            assert(absent_from(names[7], names, 10));
            assert(absent_from(names[7], names, 9));
            assert(absent_from(names[7], names, 8));
            assert(distinct_from(names, 7));
            assert(absent_from(names[6], names, 18));
            assert(absent_from(names[6], names, 17));
            assert(absent_from(names[6], names, 16));
            assert(absent_from(names[6], names, 15));
            assert(absent_from(names[6], names, 14));
            assert(absent_from(names[6], names, 13));
            assert(absent_from(names[6], names, 12));
            assert(absent_from(names[6], names, 11));
            assert(absent_from(names[6], names, 10));
            assert(absent_from(names[6], names, 9));
            assert(absent_from(names[6], names, 8));
            assert(absent_from(names[6], names, 7));
            assert(distinct_from(names, 6));
            assert(absent_from(names[5], names, 18));
            assert(absent_from(names[5], names, 17));
            assert(absent_from(names[5], names, 16));
            assert(absent_from(names[5], names, 15));
            assert(absent_from(names[5], names, 14));
            assert(absent_from(names[5], names, 13));
            assert(absent_from(names[5], names, 12));
            assert(absent_from(names[5], names, 11));
            assert(absent_from(names[5], names, 10));
            assert(absent_from(names[5], names, 9));
            assert(absent_from(names[5], names, 8));
            assert(absent_from(names[5], names, 7));
            assert(absent_from(names[5], names, 6));
            assert(distinct_from(names, 5));
            assert(absent_from(names[4], names, 18));
            assert(absent_from(names[4], names, 17));
            assert(absent_from(names[4], names, 16));
            assert(absent_from(names[4], names, 15));
            assert(absent_from(names[4], names, 14));
            assert(absent_from(names[4], names, 13));
            assert(absent_from(names[4], names, 12));
            assert(absent_from(names[4], names, 11));
            assert(absent_from(names[4], names, 10));
            assert(absent_from(names[4], names, 9));
            assert(absent_from(names[4], names, 8));
            assert(absent_from(names[4], names, 7));
            assert(absent_from(names[4], names, 6));
            assert(absent_from(names[4], names, 5));
            assert(distinct_from(names, 4));
            assert(absent_from(names[3], names, 18));
            assert(absent_from(names[3], names, 17));
            assert(absent_from(names[3], names, 16));
            assert(absent_from(names[3], names, 15));
            assert(absent_from(names[3], names, 14));
            assert(absent_from(names[3], names, 13));
            assert(absent_from(names[3], names, 12));
            assert(absent_from(names[3], names, 11));
            assert(absent_from(names[3], names, 10));
            assert(absent_from(names[3], names, 9));
            assert(absent_from(names[3], names, 8));
            assert(absent_from(names[3], names, 7));
            assert(absent_from(names[3], names, 6));
            assert(absent_from(names[3], names, 5));
            assert(absent_from(names[3], names, 4));
            assert(distinct_from(names, 3));
            assert(absent_from(names[2], names, 18));
            assert(absent_from(names[2], names, 17));
            assert(absent_from(names[2], names, 16));
            assert(absent_from(names[2], names, 15));
            assert(absent_from(names[2], names, 14));
            assert(absent_from(names[2], names, 13));
            assert(absent_from(names[2], names, 12));
            assert(absent_from(names[2], names, 11));
            assert(absent_from(names[2], names, 10));
            assert(absent_from(names[2], names, 9));
            assert(absent_from(names[2], names, 8));
            assert(absent_from(names[2], names, 7));
            assert(absent_from(names[2], names, 6));
            assert(absent_from(names[2], names, 5));
            assert(absent_from(names[2], names, 4));
            assert(absent_from(names[2], names, 3));
            assert(distinct_from(names, 2));
            assert(absent_from(names[1], names, 18));
            assert(absent_from(names[1], names, 17));
            assert(absent_from(names[1], names, 16));
            assert(absent_from(names[1], names, 15));
            assert(absent_from(names[1], names, 14));
            assert(absent_from(names[1], names, 13));
            assert(absent_from(names[1], names, 12));
            assert(absent_from(names[1], names, 11));
            assert(absent_from(names[1], names, 10));
            assert(absent_from(names[1], names, 9));
            assert(absent_from(names[1], names, 8));
            assert(absent_from(names[1], names, 7));
            assert(absent_from(names[1], names, 6));
            assert(absent_from(names[1], names, 5));
            assert(absent_from(names[1], names, 4));
            assert(absent_from(names[1], names, 3));
            assert(absent_from(names[1], names, 2));
            assert(distinct_from(names, 1));
            assert(absent_from(names[0], names, 18));
            assert(absent_from(names[0], names, 17));
            assert(absent_from(names[0], names, 16));
            assert(absent_from(names[0], names, 15));
            assert(absent_from(names[0], names, 14));
            assert(absent_from(names[0], names, 13));
            assert(absent_from(names[0], names, 12));
            assert(absent_from(names[0], names, 11));
            assert(absent_from(names[0], names, 10));
            assert(absent_from(names[0], names, 9));
            assert(absent_from(names[0], names, 8));
            assert(absent_from(names[0], names, 7));
            assert(absent_from(names[0], names, 6));
            assert(absent_from(names[0], names, 5));
            assert(absent_from(names[0], names, 4));
            assert(absent_from(names[0], names, 3));
            assert(absent_from(names[0], names, 2));
            assert(absent_from(names[0], names, 1));
            assert(distinct_from(names, 0));
            lemma_distinct_from(names, 0);
        },
        Request::Declaration { .. } => {
            reveal_strlit("position");
            assert("position"@.len() == 8);
            reveal_strlit("textDocument");
            assert("textDocument"@.len() == 12);
            assert(names =~= seq!["textDocument"@, "position"@]);
            assert(distinct_from(names, 1));
            assert(absent_from(names[0], names, 1));
            assert(distinct_from(names, 0));
            lemma_distinct_from(names, 0);
        },
        Request::Definition { .. } => {
            reveal_strlit("position");
            assert("position"@.len() == 8);
            reveal_strlit("textDocument");
            assert("textDocument"@.len() == 12);
            assert(names =~= seq!["textDocument"@, "position"@]);
            assert(distinct_from(names, 1));
            assert(absent_from(names[0], names, 1));
            assert(distinct_from(names, 0));
            lemma_distinct_from(names, 0);
        },
        Request::Diagnostic { .. } => {
            reveal_strlit("identifier");
            assert("identifier"@.len() == 10);
            reveal_strlit("previousResultId");
            assert("previousResultId"@.len() == 16);
            reveal_strlit("textDocument");
            assert("textDocument"@.len() == 12);
            assert(names =~= seq!["textDocument"@, "identifier"@, "previousResultId"@]);
            assert(distinct_from(names, 2));
            assert(absent_from(names[1], names, 2));
            assert(distinct_from(names, 1));
            assert(absent_from(names[0], names, 2));
            assert(absent_from(names[0], names, 1));
            assert(distinct_from(names, 0));
            lemma_distinct_from(names, 0);
        },
        Request::DocumentColor => {
            reveal_strlit("textDocument");
            assert("textDocument"@.len() == 12);
            assert(names =~= seq!["textDocument"@]);
            assert(distinct_from(names, 0));
            lemma_distinct_from(names, 0);
        },
        Request::DocumentHighlight { .. } => {
            reveal_strlit("position");
            assert("position"@.len() == 8);
            reveal_strlit("textDocument");
            assert("textDocument"@.len() == 12);
            assert(names =~= seq!["textDocument"@, "position"@]);
            assert(distinct_from(names, 1));
            assert(absent_from(names[0], names, 1));
            assert(distinct_from(names, 0));
            lemma_distinct_from(names, 0);
        },
        Request::DocumentLink => {
            reveal_strlit("textDocument");
            assert("textDocument"@.len() == 12);
            assert(names =~= seq!["textDocument"@]);
            assert(distinct_from(names, 0));
            lemma_distinct_from(names, 0);
        },
        Request::DocumentLinkResolve { .. } => {
            reveal_strlit("data");
            assert("data"@.len() == 4);
            reveal_strlit("range");
            assert("range"@.len() == 5);
            reveal_strlit("target");
            assert("target"@.len() == 6);
            reveal_strlit("tooltip");
            assert("tooltip"@.len() == 7);
            assert(names =~= seq!["range"@, "target"@, "tooltip"@, "data"@]);
            assert(distinct_from(names, 3));
            assert(absent_from(names[2], names, 3));
            assert(distinct_from(names, 2));
            assert(absent_from(names[1], names, 3));
            assert(absent_from(names[1], names, 2));
            assert(distinct_from(names, 1));
            assert(absent_from(names[0], names, 3));
            assert(absent_from(names[0], names, 2));
            assert(absent_from(names[0], names, 1));
            assert(distinct_from(names, 0));
            lemma_distinct_from(names, 0);
        },
        Request::DocumentSymbol => {
            reveal_strlit("textDocument");
            assert("textDocument"@.len() == 12);
            assert(names =~= seq!["textDocument"@]);
            assert(distinct_from(names, 0));
            lemma_distinct_from(names, 0);
        },
        Request::FoldingRange => {
            reveal_strlit("textDocument");
            assert("textDocument"@.len() == 12);
            assert(names =~= seq!["textDocument"@]);
            assert(distinct_from(names, 0));
            lemma_distinct_from(names, 0);
        },
        Request::Formatting { .. } => {
            reveal_strlit("options");
            assert("options"@.len() == 7);
            reveal_strlit("textDocument");
            assert("textDocument"@.len() == 12);
            assert(names =~= seq!["textDocument"@, "options"@]);
            assert(distinct_from(names, 1));
            assert(absent_from(names[0], names, 1));
            assert(distinct_from(names, 0));
            lemma_distinct_from(names, 0);
        },
        Request::FormattingState { .. } => {
            reveal_strlit("async");
            assert("async"@.len() == 5);
            reveal_strlit("formatting_options");
            assert("formatting_options"@.len() == 18);
            assert(names =~= seq!["formatting_options"@, "async"@]);
            assert(distinct_from(names, 1));
            assert(absent_from(names[0], names, 1));
            assert(distinct_from(names, 0));
            lemma_distinct_from(names, 0);
        },
        Request::Hover { .. } => {
            reveal_strlit("position");
            assert("position"@.len() == 8);
            reveal_strlit("textDocument");
            assert("textDocument"@.len() == 12);
            assert(names =~= seq!["textDocument"@, "position"@]);
            assert(distinct_from(names, 1));
            assert(absent_from(names[0], names, 1));
            assert(distinct_from(names, 0));
            lemma_distinct_from(names, 0);
        },
        Request::Implementation { .. } => {
            reveal_strlit("position");
            assert("position"@.len() == 8);
            reveal_strlit("textDocument");
            assert("textDocument"@.len() == 12);
            assert(names =~= seq!["textDocument"@, "position"@]);
            assert(distinct_from(names, 1));
            assert(absent_from(names[0], names, 1));
            assert(distinct_from(names, 0));
            lemma_distinct_from(names, 0);
        },
        Request::IncomingCalls { .. } => {
            reveal_strlit("item");
            assert("item"@.len() == 4);
            assert(names =~= seq!["item"@]);
            assert(distinct_from(names, 0));
            lemma_distinct_from(names, 0);
        },
        Request::InlayHint { .. } => {
            reveal_strlit("range");
            assert("range"@.len() == 5);
            reveal_strlit("textDocument");
            assert("textDocument"@.len() == 12);
            assert(names =~= seq!["textDocument"@, "range"@]);
            assert(distinct_from(names, 1));
            assert(absent_from(names[0], names, 1));
            assert(distinct_from(names, 0));
            lemma_distinct_from(names, 0);
        },
        Request::LinkedEditingRange { .. } => {
            reveal_strlit("position");
            assert("position"@.len() == 8);
            reveal_strlit("textDocument");
            assert("textDocument"@.len() == 12);
            assert(names =~= seq!["textDocument"@, "position"@]);
            assert(distinct_from(names, 1));
            assert(absent_from(names[0], names, 1));
            assert(distinct_from(names, 0));
            lemma_distinct_from(names, 0);
        },
        Request::Moniker { .. } => {
            reveal_strlit("position");
            assert("position"@.len() == 8);
            reveal_strlit("textDocument");
            assert("textDocument"@.len() == 12);
            assert(names =~= seq!["textDocument"@, "position"@]);
            assert(distinct_from(names, 1));
            assert(absent_from(names[0], names, 1));
            assert(distinct_from(names, 0));
            lemma_distinct_from(names, 0);
        },
        Request::OnTypeFormatting { .. } => {
            reveal_strlit("ch");
            assert("ch"@.len() == 2);
            reveal_strlit("options");
            assert("options"@.len() == 7);
            reveal_strlit("position");
            assert("position"@.len() == 8);
            reveal_strlit("textDocument");
            assert("textDocument"@.len() == 12);
            assert(names =~= seq!["textDocument"@, "position"@, "ch"@, "options"@]);
            assert(distinct_from(names, 3));
            assert(absent_from(names[2], names, 3));
            assert(distinct_from(names, 2));
            assert(absent_from(names[1], names, 3));
            assert(absent_from(names[1], names, 2));
            assert(distinct_from(names, 1));
            assert(absent_from(names[0], names, 3));
            assert(absent_from(names[0], names, 2));
            assert(absent_from(names[0], names, 1));
            assert(distinct_from(names, 0));
            lemma_distinct_from(names, 0);
        },
        Request::OutgoingCalls { .. } => {
            reveal_strlit("item");
            assert("item"@.len() == 4);
            assert(names =~= seq!["item"@]);
            assert(distinct_from(names, 0));
            lemma_distinct_from(names, 0);
        },
        Request::PrepareCallHierarchy { .. } => {
            reveal_strlit("position");
            assert("position"@.len() == 8);
            reveal_strlit("textDocument");
            assert("textDocument"@.len() == 12);
            assert(names =~= seq!["textDocument"@, "position"@]);
            assert(distinct_from(names, 1));
            assert(absent_from(names[0], names, 1));
            assert(distinct_from(names, 0));
            lemma_distinct_from(names, 0);
        },
        Request::PrepareRename { .. } => {
            reveal_strlit("position");
            assert("position"@.len() == 8);
            reveal_strlit("textDocument");
            assert("textDocument"@.len() == 12);
            assert(names =~= seq!["textDocument"@, "position"@]);
            assert(distinct_from(names, 1));
            assert(absent_from(names[0], names, 1));
            assert(distinct_from(names, 0));
            lemma_distinct_from(names, 0);
        },
        Request::PrepareTypeHierarchy { .. } => {
            reveal_strlit("position");
            assert("position"@.len() == 8);
            reveal_strlit("textDocument");
            assert("textDocument"@.len() == 12);
            assert(names =~= seq!["textDocument"@, "position"@]);
            assert(distinct_from(names, 1));
            assert(absent_from(names[0], names, 1));
            assert(distinct_from(names, 0));
            lemma_distinct_from(names, 0);
        },
        Request::PublishDiagnostics => {
            assert(names =~= Seq::<Seq<char>>::empty());
            lemma_distinct_from(names, 0);
        },
        Request::RangeFormatting { .. } => {
            reveal_strlit("options");
            assert("options"@.len() == 7);
            reveal_strlit("range");
            assert("range"@.len() == 5);
            reveal_strlit("textDocument");
            assert("textDocument"@.len() == 12);
            assert(names =~= seq!["textDocument"@, "range"@, "options"@]);
            assert(distinct_from(names, 2));
            assert(absent_from(names[1], names, 2));
            assert(distinct_from(names, 1));
            assert(absent_from(names[0], names, 2));
            assert(absent_from(names[0], names, 1));
            assert(distinct_from(names, 0));
            lemma_distinct_from(names, 0);
        },
        Request::References { .. } => {
            reveal_strlit("context");
            assert("context"@.len() == 7);
            reveal_strlit("position");
            assert("position"@.len() == 8);
            reveal_strlit("textDocument");
            assert("textDocument"@.len() == 12);
            assert(names =~= seq!["textDocument"@, "position"@, "context"@]);
            assert(distinct_from(names, 2));
            assert(absent_from(names[1], names, 2));
            assert(distinct_from(names, 1));
            assert(absent_from(names[0], names, 2));
            assert(absent_from(names[0], names, 1));
            assert(distinct_from(names, 0));
            lemma_distinct_from(names, 0);
        },
        Request::Rename { .. } => {
            reveal_strlit("newName");
            assert("newName"@.len() == 7);
            reveal_strlit("position");
            assert("position"@.len() == 8);
            reveal_strlit("textDocument");
            assert("textDocument"@.len() == 12);
            assert(names =~= seq!["textDocument"@, "position"@, "newName"@]);
            assert(distinct_from(names, 2));
            assert(absent_from(names[1], names, 2));
            assert(distinct_from(names, 1));
            assert(absent_from(names[0], names, 2));
            assert(absent_from(names[0], names, 1));
            assert(distinct_from(names, 0));
            lemma_distinct_from(names, 0);
        },
        Request::SelectionRange { .. } => {
            reveal_strlit("positions");
            assert("positions"@.len() == 9);
            reveal_strlit("textDocument");
            assert("textDocument"@.len() == 12);
            assert(names =~= seq!["textDocument"@, "positions"@]);
            assert(distinct_from(names, 1));
            assert(absent_from(names[0], names, 1));
            assert(distinct_from(names, 0));
            lemma_distinct_from(names, 0);
        },
        Request::SemanticTokensFull => {
            reveal_strlit("textDocument");
            assert("textDocument"@.len() == 12);
            assert(names =~= seq!["textDocument"@]);
            assert(distinct_from(names, 0));
            lemma_distinct_from(names, 0);
        },
        Request::SemanticTokensFullDelta => {
            reveal_strlit("textDocument");
            assert("textDocument"@.len() == 12);
            assert(names =~= seq!["textDocument"@]);
            assert(distinct_from(names, 0));
            lemma_distinct_from(names, 0);
        },
        Request::SemanticTokensRange { .. } => {
            reveal_strlit("range");
            assert("range"@.len() == 5);
            reveal_strlit("textDocument");
            assert("textDocument"@.len() == 12);
            assert(names =~= seq!["textDocument"@, "range"@]);
            assert(distinct_from(names, 1));
            assert(absent_from(names[0], names, 1));
            assert(distinct_from(names, 0));
            lemma_distinct_from(names, 0);
        },
        Request::SignatureHelp { .. } => {
            reveal_strlit("context");
            assert("context"@.len() == 7);
            reveal_strlit("position");
            assert("position"@.len() == 8);
            reveal_strlit("textDocument");
            assert("textDocument"@.len() == 12);
            assert(names =~= seq!["textDocument"@, "position"@, "context"@]);
            assert(distinct_from(names, 2));
            assert(absent_from(names[1], names, 2));
            assert(distinct_from(names, 1));
            assert(absent_from(names[0], names, 2));
            assert(absent_from(names[0], names, 1));
            assert(distinct_from(names, 0));
            lemma_distinct_from(names, 0);
        },
        Request::TypeDefinition { .. } => {
            reveal_strlit("position");
            assert("position"@.len() == 8);
            reveal_strlit("textDocument");
            assert("textDocument"@.len() == 12);
            assert(names =~= seq!["textDocument"@, "position"@]);
            assert(distinct_from(names, 1));
            assert(absent_from(names[0], names, 1));
            assert(distinct_from(names, 0));
            lemma_distinct_from(names, 0);
        },
        Request::WorkspaceDiagnostic { .. } => {
            reveal_strlit("identifier");
            assert("identifier"@.len() == 10);
            reveal_strlit("previousResultIds");
            assert("previousResultIds"@.len() == 17);
            reveal_strlit("textDocument");
            assert("textDocument"@.len() == 12);
            assert(names =~= seq!["textDocument"@, "identifier"@, "previousResultIds"@]);
            assert(distinct_from(names, 2));
            assert(absent_from(names[1], names, 2));
            assert(distinct_from(names, 1));
            assert(absent_from(names[0], names, 2));
            assert(absent_from(names[0], names, 1));
            assert(distinct_from(names, 0));
            lemma_distinct_from(names, 0);
        },
        Request::WorkspaceExecuteCommand { .. } => {
            reveal_strlit("arguments");
            assert("arguments"@.len() == 9);
            reveal_strlit("command");
            assert("command"@.len() == 7);
            assert(names =~= seq!["command"@, "arguments"@]);
            assert(distinct_from(names, 1));
            assert(absent_from(names[0], names, 1));
            assert(distinct_from(names, 0));
            lemma_distinct_from(names, 0);
        },
        Request::WorkspaceSymbol { .. } => {
            reveal_strlit("query");
            assert("query"@.len() == 5);
            reveal_strlit("textDocument");
            assert("textDocument"@.len() == 12);
            assert(names =~= seq!["textDocument"@, "query"@]);
            assert(distinct_from(names, 1));
            assert(absent_from(names[0], names, 1));
            assert(distinct_from(names, 0));
            lemma_distinct_from(names, 0);
        },
        Request::WorkspaceSymbolResolve { .. } => {
            reveal_strlit("containerName");
            assert("containerName"@.len() == 13);
            reveal_strlit("data");
            assert("data"@.len() == 4);
            reveal_strlit("kind");
            assert("kind"@.len() == 4);
            reveal_strlit("location");
            assert("location"@.len() == 8);
            reveal_strlit("name");
            assert("name"@.len() == 4);
            reveal_strlit("tags");
            assert("tags"@.len() == 4);
            assert("name"@[0] != "kind"@[0]);
            assert("name"@[0] != "tags"@[0]);
            assert("name"@[0] != "data"@[0]);
            assert("kind"@[0] != "tags"@[0]);
            assert("kind"@[0] != "data"@[0]);
            assert("tags"@[0] != "data"@[0]);
            assert(names =~= seq!["name"@, "kind"@, "tags"@, "containerName"@, "location"@, "data"@]);
            assert(distinct_from(names, 5));
            assert(absent_from(names[4], names, 5));
            assert(distinct_from(names, 4));
            assert(absent_from(names[3], names, 5));
            assert(absent_from(names[3], names, 4));
            assert(distinct_from(names, 3));
            assert(absent_from(names[2], names, 5));
            assert(absent_from(names[2], names, 4));
            assert(absent_from(names[2], names, 3));
            assert(distinct_from(names, 2));
            assert(absent_from(names[1], names, 5));
            assert(absent_from(names[1], names, 4));
            assert(absent_from(names[1], names, 3));
            assert(absent_from(names[1], names, 2));
            assert(distinct_from(names, 1));
            assert(absent_from(names[0], names, 5));
            assert(absent_from(names[0], names, 4));
            assert(absent_from(names[0], names, 3));
            assert(absent_from(names[0], names, 2));
            assert(absent_from(names[0], names, 1));
            assert(distinct_from(names, 0));
            lemma_distinct_from(names, 0);
        },
        Request::WorkspaceWillCreateFiles { .. } => {
            reveal_strlit("files");
            assert("files"@.len() == 5);
            assert(names =~= seq!["files"@]);
            assert(distinct_from(names, 0));
            lemma_distinct_from(names, 0);
        },
        Request::WorkspaceWillDeleteFiles { .. } => {
            reveal_strlit("files");
            assert("files"@.len() == 5);
            assert(names =~= seq!["files"@]);
            assert(distinct_from(names, 0));
            lemma_distinct_from(names, 0);
        },
        Request::WorkspaceWillRenameFiles { .. } => {
            reveal_strlit("files");
            assert("files"@.len() == 5);
            assert(names =~= seq!["files"@]);
            assert(distinct_from(names, 0));
            lemma_distinct_from(names, 0);
        },
    }
}

} // verus!
