//! The kinds of LSP requests a test case can exercise, and their method names.
use vstd::prelude::*;

use crate::text::{chars_of, same_chars};

verus! {

/// Specifies the type of test to run
#[derive(Debug, Copy, Clone, PartialEq, Eq, Structural)]
pub enum TestType {
    /// Test `textDocument/codeAction` requests
    CodeAction,
    /// Test `codeAction/resolve` requests
    CodeActionResolve,
    /// Test `textDocument/codeLens` requests
    CodeLens,
    /// Test `codeLens/resolve` requests
    CodeLensResolve,
    /// Test `textDocument/colorPresentation` requests
    ColorPresentation,
    /// Test `textDocument/completion` requests
    Completion,
    /// Test `completionItem/resolve` requests
    CompletionResolve,
    /// Test `textDocument/declaration` requests
    Declaration,
    /// Test `textDocument/definition` requests
    Definition,
    /// Test `textDocument/diagnostic` requests
    Diagnostic,
    /// Test `textDocument/documentColor` requests
    DocumentColor,
    /// Test `textDocument/documentHighlight` requests
    DocumentHighlight,
    /// Test `textDocument/documentLink` requests
    DocumentLink,
    /// Test `documentLink/resolve` requests
    DocumentLinkResolve,
    /// Test `textDocument/documentSymbol` requests
    DocumentSymbol,
    /// Test `textDocument/foldingRange` requests
    FoldingRange,
    /// Test `textDocument/formatting` requests
    Formatting,
    /// Test `textDocument/hover` requests
    Hover,
    /// Test `textDocument/implementation` requests
    Implementation,
    /// Test `callHierarchy/incomingCalls` requests
    IncomingCalls,
    /// Test `textDocument/inlayHint` requests
    InlayHint,
    /// Test `textDocument/linkedEditingRange` requests
    LinkedEditingRange,
    /// Test `textDocument/moniker` requests
    Moniker,
    /// Test `textDocument/onTypeFormatting` requests
    OnTypeFormatting,
    /// Test `callHierarchy/outgoingCalls` requests
    OutgoingCalls,
    /// Test `textDocument/prepareCallHierarchy` requests
    PrepareCallHierarchy,
    /// Test `textDocument/prepareRename` requests
    PrepareRename,
    /// Test `textDocument/prepareTypeHierarchy` requests
    PrepareTypeHierarchy,
    /// Test `textDocument/publishDiagnostics` requests
    PublishDiagnostics,
    /// Test `textDocument/rangeFormatting` requests
    RangeFormatting,
    /// Test `textDocument/references` requests
    References,
    /// Test `textDocument/rename` requests
    Rename,
    /// Test `textDocument/selectionRange` requests
    SelectionRange,
    /// Test `textDocument/semanticTokens/full` requests
    SemanticTokensFull,
    /// Test `textDocument/semanticTokens/full/delta` requests
    SemanticTokensFullDelta,
    /// Test `textDocument/semanticTokens/range` requests
    SemanticTokensRange,
    /// Test `textDocument/signatureHelp` requests
    SignatureHelp,
    /// Test `textDocument/typeDefinition` requests
    TypeDefinition,
    /// Test `workspace/diagnostic` requests
    WorkspaceDiagnostic,
    /// Test `workspace/executeCommand` requests
    WorkspaceExecuteCommand,
    /// Test `workspace/symbol` requests
    WorkspaceSymbol,
    /// Test `workspaceSymbol/resolve` requests
    WorkspaceSymbolResolve,
    /// Test `workspace/willCreateFiles` requests
    WorkspaceWillCreateFiles,
    /// Test `workspace/willDeleteFiles` requests
    WorkspaceWillDeleteFiles,
    /// Test `workspace/willRenameFiles` requests
    WorkspaceWillRenameFiles,
}

/// The LSP method name that a test of type `t` exercises.
pub open spec fn method_name(t: TestType) -> Seq<char> {
    match t {
        TestType::CodeAction => "textDocument/codeAction"@,
        TestType::CodeActionResolve => "codeAction/resolve"@,
        TestType::CodeLens => "textDocument/codeLens"@,
        TestType::CodeLensResolve => "codeLens/resolve"@,
        TestType::ColorPresentation => "textDocument/colorPresentation"@,
        TestType::Completion => "textDocument/completion"@,
        TestType::CompletionResolve => "completionItem/resolve"@,
        TestType::Declaration => "textDocument/declaration"@,
        TestType::Definition => "textDocument/definition"@,
        TestType::Diagnostic => "textDocument/diagnostic"@,
        TestType::DocumentColor => "textDocument/documentColor"@,
        TestType::DocumentHighlight => "textDocument/documentHighlight"@,
        TestType::DocumentLink => "textDocument/documentLink"@,
        TestType::DocumentLinkResolve => "documentLink/resolve"@,
        TestType::DocumentSymbol => "textDocument/documentSymbol"@,
        TestType::FoldingRange => "textDocument/foldingRange"@,
        TestType::Formatting => "textDocument/formatting"@,
        TestType::Hover => "textDocument/hover"@,
        TestType::Implementation => "textDocument/implementation"@,
        TestType::IncomingCalls => "callHierarchy/incomingCalls"@,
        TestType::InlayHint => "textDocument/inlayHint"@,
        TestType::LinkedEditingRange => "textDocument/linkedEditingRange"@,
        TestType::Moniker => "textDocument/moniker"@,
        TestType::OnTypeFormatting => "textDocument/onTypeFormatting"@,
        TestType::OutgoingCalls => "callHierarchy/outgoingCalls"@,
        TestType::PrepareCallHierarchy => "textDocument/prepareCallHierarchy"@,
        TestType::PrepareRename => "textDocument/prepareRename"@,
        TestType::PrepareTypeHierarchy => "textDocument/prepareTypeHierarchy"@,
        TestType::PublishDiagnostics => "textDocument/publishDiagnostics"@,
        TestType::RangeFormatting => "textDocument/rangeFormatting"@,
        TestType::References => "textDocument/references"@,
        TestType::Rename => "textDocument/rename"@,
        TestType::SelectionRange => "textDocument/selectionRange"@,
        TestType::SemanticTokensFull => "textDocument/semanticTokens/full"@,
        TestType::SemanticTokensFullDelta => "textDocument/semanticTokens/full/delta"@,
        TestType::SemanticTokensRange => "textDocument/semanticTokens/range"@,
        TestType::SignatureHelp => "textDocument/signatureHelp"@,
        TestType::TypeDefinition => "textDocument/typeDefinition"@,
        TestType::WorkspaceDiagnostic => "workspace/diagnostic"@,
        TestType::WorkspaceExecuteCommand => "workspace/executeCommand"@,
        TestType::WorkspaceSymbol => "workspace/symbol"@,
        TestType::WorkspaceSymbolResolve => "workspaceSymbol/resolve"@,
        TestType::WorkspaceWillCreateFiles => "workspace/willCreateFiles"@,
        TestType::WorkspaceWillDeleteFiles => "workspace/willDeleteFiles"@,
        TestType::WorkspaceWillRenameFiles => "workspace/willRenameFiles"@,
    }
}

/// Distinct test types exercise distinct LSP methods.
#[verifier::rlimit(100)]
pub proof fn lemma_method_name_injective(a: TestType, b: TestType)
    requires
        method_name(a) == method_name(b),
    ensures
        a == b,
{
        reveal_strlit("textDocument/codeAction");
        reveal_strlit("codeAction/resolve");
        reveal_strlit("textDocument/codeLens");
        reveal_strlit("codeLens/resolve");
        reveal_strlit("textDocument/colorPresentation");
        reveal_strlit("textDocument/completion");
        reveal_strlit("completionItem/resolve");
        reveal_strlit("textDocument/declaration");
        reveal_strlit("textDocument/definition");
        reveal_strlit("textDocument/diagnostic");
        reveal_strlit("textDocument/documentColor");
        reveal_strlit("textDocument/documentHighlight");
        reveal_strlit("textDocument/documentLink");
        reveal_strlit("documentLink/resolve");
        reveal_strlit("textDocument/documentSymbol");
        reveal_strlit("textDocument/foldingRange");
        reveal_strlit("textDocument/formatting");
        reveal_strlit("textDocument/hover");
        reveal_strlit("textDocument/implementation");
        reveal_strlit("callHierarchy/incomingCalls");
        reveal_strlit("textDocument/inlayHint");
        reveal_strlit("textDocument/linkedEditingRange");
        reveal_strlit("textDocument/moniker");
        reveal_strlit("textDocument/onTypeFormatting");
        reveal_strlit("callHierarchy/outgoingCalls");
        reveal_strlit("textDocument/prepareCallHierarchy");
        reveal_strlit("textDocument/prepareRename");
        reveal_strlit("textDocument/prepareTypeHierarchy");
        reveal_strlit("textDocument/publishDiagnostics");
        reveal_strlit("textDocument/rangeFormatting");
        reveal_strlit("textDocument/references");
        reveal_strlit("textDocument/rename");
        reveal_strlit("textDocument/selectionRange");
        reveal_strlit("textDocument/semanticTokens/full");
        reveal_strlit("textDocument/semanticTokens/full/delta");
        reveal_strlit("textDocument/semanticTokens/range");
        reveal_strlit("textDocument/signatureHelp");
        reveal_strlit("textDocument/typeDefinition");
        reveal_strlit("workspace/diagnostic");
        reveal_strlit("workspace/executeCommand");
        reveal_strlit("workspace/symbol");
        reveal_strlit("workspaceSymbol/resolve");
        reveal_strlit("workspace/willCreateFiles");
        reveal_strlit("workspace/willDeleteFiles");
        reveal_strlit("workspace/willRenameFiles");
    let x = method_name(a);
    let y = method_name(b);
    assert(x.len() == y.len());
    assert(x[13] == y[13]);
    assert(x[14] == y[14]);
    assert(x[15] == y[15]);
    if x.len() > 20 {
        assert(x[20] == y[20]);
    }
}

/// The test type whose LSP method name is `method`, if there is one.
pub open spec fn test_type_of_method(method: Seq<char>) -> Option<TestType> {
    if exists|t: TestType| method_name(t) == method {
        Some(choose|t: TestType| method_name(t) == method)
    } else {
        None
    }
}

/// Looking a test type up by its own method name gives that test type back.
pub proof fn lemma_test_type_of_method(t: TestType)
    ensures
        test_type_of_method(method_name(t)) == Some(t),
{
    let u = choose|u: TestType| method_name(u) == method_name(t);
    lemma_method_name_injective(u, t);
}

impl TestType {
    /// The LSP method name of this test type, e.g. `textDocument/hover`.
    pub fn method(&self) -> (r: &'static str)
        ensures
            r@ == method_name(*self),
    {
        match self {
            TestType::CodeAction => "textDocument/codeAction",
            TestType::CodeActionResolve => "codeAction/resolve",
            TestType::CodeLens => "textDocument/codeLens",
            TestType::CodeLensResolve => "codeLens/resolve",
            TestType::ColorPresentation => "textDocument/colorPresentation",
            TestType::Completion => "textDocument/completion",
            TestType::CompletionResolve => "completionItem/resolve",
            TestType::Declaration => "textDocument/declaration",
            TestType::Definition => "textDocument/definition",
            TestType::Diagnostic => "textDocument/diagnostic",
            TestType::DocumentColor => "textDocument/documentColor",
            TestType::DocumentHighlight => "textDocument/documentHighlight",
            TestType::DocumentLink => "textDocument/documentLink",
            TestType::DocumentLinkResolve => "documentLink/resolve",
            TestType::DocumentSymbol => "textDocument/documentSymbol",
            TestType::FoldingRange => "textDocument/foldingRange",
            TestType::Formatting => "textDocument/formatting",
            TestType::Hover => "textDocument/hover",
            TestType::Implementation => "textDocument/implementation",
            TestType::IncomingCalls => "callHierarchy/incomingCalls",
            TestType::InlayHint => "textDocument/inlayHint",
            TestType::LinkedEditingRange => "textDocument/linkedEditingRange",
            TestType::Moniker => "textDocument/moniker",
            TestType::OnTypeFormatting => "textDocument/onTypeFormatting",
            TestType::OutgoingCalls => "callHierarchy/outgoingCalls",
            TestType::PrepareCallHierarchy => "textDocument/prepareCallHierarchy",
            TestType::PrepareRename => "textDocument/prepareRename",
            TestType::PrepareTypeHierarchy => "textDocument/prepareTypeHierarchy",
            TestType::PublishDiagnostics => "textDocument/publishDiagnostics",
            TestType::RangeFormatting => "textDocument/rangeFormatting",
            TestType::References => "textDocument/references",
            TestType::Rename => "textDocument/rename",
            TestType::SelectionRange => "textDocument/selectionRange",
            TestType::SemanticTokensFull => "textDocument/semanticTokens/full",
            TestType::SemanticTokensFullDelta => "textDocument/semanticTokens/full/delta",
            TestType::SemanticTokensRange => "textDocument/semanticTokens/range",
            TestType::SignatureHelp => "textDocument/signatureHelp",
            TestType::TypeDefinition => "textDocument/typeDefinition",
            TestType::WorkspaceDiagnostic => "workspace/diagnostic",
            TestType::WorkspaceExecuteCommand => "workspace/executeCommand",
            TestType::WorkspaceSymbol => "workspace/symbol",
            TestType::WorkspaceSymbolResolve => "workspaceSymbol/resolve",
            TestType::WorkspaceWillCreateFiles => "workspace/willCreateFiles",
            TestType::WorkspaceWillDeleteFiles => "workspace/willDeleteFiles",
            TestType::WorkspaceWillRenameFiles => "workspace/willRenameFiles",
        }
    }

    /// The LSP method name of this test type as an owned string.
    pub fn to_string(&self) -> (r: String)
        ensures
            r@ == method_name(*self),
    {
        String::from_str(self.method())
    }

    /// The test type whose method name is `method`, searched in declaration order.
    pub fn from_method(method: &str) -> (r: Option<TestType>)
        ensures
            r == test_type_of_method(method@),
    {
        let m = chars_of(method);
        if same_chars(&m, "textDocument/codeAction") {
            proof { lemma_test_type_of_method(TestType::CodeAction); }
            return Some(TestType::CodeAction);
        }
        if same_chars(&m, "codeAction/resolve") {
            proof { lemma_test_type_of_method(TestType::CodeActionResolve); }
            return Some(TestType::CodeActionResolve);
        }
        if same_chars(&m, "textDocument/codeLens") {
            proof { lemma_test_type_of_method(TestType::CodeLens); }
            return Some(TestType::CodeLens);
        }
        if same_chars(&m, "codeLens/resolve") {
            proof { lemma_test_type_of_method(TestType::CodeLensResolve); }
            return Some(TestType::CodeLensResolve);
        }
        if same_chars(&m, "textDocument/colorPresentation") {
            proof { lemma_test_type_of_method(TestType::ColorPresentation); }
            return Some(TestType::ColorPresentation);
        }
        if same_chars(&m, "textDocument/completion") {
            proof { lemma_test_type_of_method(TestType::Completion); }
            return Some(TestType::Completion);
        }
        if same_chars(&m, "completionItem/resolve") {
            proof { lemma_test_type_of_method(TestType::CompletionResolve); }
            return Some(TestType::CompletionResolve);
        }
        if same_chars(&m, "textDocument/declaration") {
            proof { lemma_test_type_of_method(TestType::Declaration); }
            return Some(TestType::Declaration);
        }
        if same_chars(&m, "textDocument/definition") {
            proof { lemma_test_type_of_method(TestType::Definition); }
            return Some(TestType::Definition);
        }
        if same_chars(&m, "textDocument/diagnostic") {
            proof { lemma_test_type_of_method(TestType::Diagnostic); }
            return Some(TestType::Diagnostic);
        }
        if same_chars(&m, "textDocument/documentColor") {
            proof { lemma_test_type_of_method(TestType::DocumentColor); }
            return Some(TestType::DocumentColor);
        }
        if same_chars(&m, "textDocument/documentHighlight") {
            proof { lemma_test_type_of_method(TestType::DocumentHighlight); }
            return Some(TestType::DocumentHighlight);
        }
        if same_chars(&m, "textDocument/documentLink") {
            proof { lemma_test_type_of_method(TestType::DocumentLink); }
            return Some(TestType::DocumentLink);
        }
        if same_chars(&m, "documentLink/resolve") {
            proof { lemma_test_type_of_method(TestType::DocumentLinkResolve); }
            return Some(TestType::DocumentLinkResolve);
        }
        if same_chars(&m, "textDocument/documentSymbol") {
            proof { lemma_test_type_of_method(TestType::DocumentSymbol); }
            return Some(TestType::DocumentSymbol);
        }
        if same_chars(&m, "textDocument/foldingRange") {
            proof { lemma_test_type_of_method(TestType::FoldingRange); }
            return Some(TestType::FoldingRange);
        }
        if same_chars(&m, "textDocument/formatting") {
            proof { lemma_test_type_of_method(TestType::Formatting); }
            return Some(TestType::Formatting);
        }
        if same_chars(&m, "textDocument/hover") {
            proof { lemma_test_type_of_method(TestType::Hover); }
            return Some(TestType::Hover);
        }
        if same_chars(&m, "textDocument/implementation") {
            proof { lemma_test_type_of_method(TestType::Implementation); }
            return Some(TestType::Implementation);
        }
        if same_chars(&m, "callHierarchy/incomingCalls") {
            proof { lemma_test_type_of_method(TestType::IncomingCalls); }
            return Some(TestType::IncomingCalls);
        }
        if same_chars(&m, "textDocument/inlayHint") {
            proof { lemma_test_type_of_method(TestType::InlayHint); }
            return Some(TestType::InlayHint);
        }
        if same_chars(&m, "textDocument/linkedEditingRange") {
            proof { lemma_test_type_of_method(TestType::LinkedEditingRange); }
            return Some(TestType::LinkedEditingRange);
        }
        if same_chars(&m, "textDocument/moniker") {
            proof { lemma_test_type_of_method(TestType::Moniker); }
            return Some(TestType::Moniker);
        }
        if same_chars(&m, "textDocument/onTypeFormatting") {
            proof { lemma_test_type_of_method(TestType::OnTypeFormatting); }
            return Some(TestType::OnTypeFormatting);
        }
        if same_chars(&m, "callHierarchy/outgoingCalls") {
            proof { lemma_test_type_of_method(TestType::OutgoingCalls); }
            return Some(TestType::OutgoingCalls);
        }
        if same_chars(&m, "textDocument/prepareCallHierarchy") {
            proof { lemma_test_type_of_method(TestType::PrepareCallHierarchy); }
            return Some(TestType::PrepareCallHierarchy);
        }
        if same_chars(&m, "textDocument/prepareRename") {
            proof { lemma_test_type_of_method(TestType::PrepareRename); }
            return Some(TestType::PrepareRename);
        }
        if same_chars(&m, "textDocument/prepareTypeHierarchy") {
            proof { lemma_test_type_of_method(TestType::PrepareTypeHierarchy); }
            return Some(TestType::PrepareTypeHierarchy);
        }
        if same_chars(&m, "textDocument/publishDiagnostics") {
            proof { lemma_test_type_of_method(TestType::PublishDiagnostics); }
            return Some(TestType::PublishDiagnostics);
        }
        if same_chars(&m, "textDocument/rangeFormatting") {
            proof { lemma_test_type_of_method(TestType::RangeFormatting); }
            return Some(TestType::RangeFormatting);
        }
        if same_chars(&m, "textDocument/references") {
            proof { lemma_test_type_of_method(TestType::References); }
            return Some(TestType::References);
        }
        if same_chars(&m, "textDocument/rename") {
            proof { lemma_test_type_of_method(TestType::Rename); }
            return Some(TestType::Rename);
        }
        if same_chars(&m, "textDocument/selectionRange") {
            proof { lemma_test_type_of_method(TestType::SelectionRange); }
            return Some(TestType::SelectionRange);
        }
        if same_chars(&m, "textDocument/semanticTokens/full") {
            proof { lemma_test_type_of_method(TestType::SemanticTokensFull); }
            return Some(TestType::SemanticTokensFull);
        }
        if same_chars(&m, "textDocument/semanticTokens/full/delta") {
            proof { lemma_test_type_of_method(TestType::SemanticTokensFullDelta); }
            return Some(TestType::SemanticTokensFullDelta);
        }
        if same_chars(&m, "textDocument/semanticTokens/range") {
            proof { lemma_test_type_of_method(TestType::SemanticTokensRange); }
            return Some(TestType::SemanticTokensRange);
        }
        if same_chars(&m, "textDocument/signatureHelp") {
            proof { lemma_test_type_of_method(TestType::SignatureHelp); }
            return Some(TestType::SignatureHelp);
        }
        if same_chars(&m, "textDocument/typeDefinition") {
            proof { lemma_test_type_of_method(TestType::TypeDefinition); }
            return Some(TestType::TypeDefinition);
        }
        if same_chars(&m, "workspace/diagnostic") {
            proof { lemma_test_type_of_method(TestType::WorkspaceDiagnostic); }
            return Some(TestType::WorkspaceDiagnostic);
        }
        if same_chars(&m, "workspace/executeCommand") {
            proof { lemma_test_type_of_method(TestType::WorkspaceExecuteCommand); }
            return Some(TestType::WorkspaceExecuteCommand);
        }
        if same_chars(&m, "workspace/symbol") {
            proof { lemma_test_type_of_method(TestType::WorkspaceSymbol); }
            return Some(TestType::WorkspaceSymbol);
        }
        if same_chars(&m, "workspaceSymbol/resolve") {
            proof { lemma_test_type_of_method(TestType::WorkspaceSymbolResolve); }
            return Some(TestType::WorkspaceSymbolResolve);
        }
        if same_chars(&m, "workspace/willCreateFiles") {
            proof { lemma_test_type_of_method(TestType::WorkspaceWillCreateFiles); }
            return Some(TestType::WorkspaceWillCreateFiles);
        }
        if same_chars(&m, "workspace/willDeleteFiles") {
            proof { lemma_test_type_of_method(TestType::WorkspaceWillDeleteFiles); }
            return Some(TestType::WorkspaceWillDeleteFiles);
        }
        if same_chars(&m, "workspace/willRenameFiles") {
            proof { lemma_test_type_of_method(TestType::WorkspaceWillRenameFiles); }
            return Some(TestType::WorkspaceWillRenameFiles);
        }
        assert(forall|t: TestType| method_name(t) != method@);
        None
    }
}

} // verus!
