//! Hover responses, and the canned ones the dummy language server gives.
use vstd::prelude::*;

use crate::fixtures::span;
use crate::types::{Position, Range};

verus! {

/// The format of markup content.
#[derive(Debug, Copy, Clone, PartialEq, Eq, Structural)]
pub enum MarkupKind {
    PlainText,
    Markdown,
}

/// A marked string: plain (markdown) text, or a code block in a language.
#[derive(Debug)]
pub enum MarkedString {
    String(String),
    LanguageString { language: String, value: String },
}

/// The contents of a hover.
#[derive(Debug)]
pub enum HoverContents {
    Scalar(MarkedString),
    Array(Vec<MarkedString>),
    Markup { kind: MarkupKind, value: String },
}

/// A `textDocument/hover` response: its contents and, optionally, the range it
/// applies to.
#[derive(Debug)]
pub struct Hover {
    pub contents: HoverContents,
    pub range: Option<Range>,
}

/// The view of a marked string.
pub enum MarkedView {
    Plain(Seq<char>),
    Code(Seq<char>, Seq<char>),
}

/// The view of hover contents.
pub enum ContentsView {
    Scalar(MarkedView),
    Array(Seq<MarkedView>),
    Markup(MarkupKind, Seq<char>),
}

/// The view of a marked string.
pub open spec fn marked_view(m: MarkedString) -> MarkedView {
    match m {
        MarkedString::String(s) => MarkedView::Plain(s@),
        MarkedString::LanguageString { language, value } => MarkedView::Code(language@, value@),
    }
}

/// The view of hover contents.
pub open spec fn contents_view(c: HoverContents) -> ContentsView {
    match c {
        HoverContents::Scalar(m) => ContentsView::Scalar(marked_view(m)),
        HoverContents::Array(v) => ContentsView::Array(v@.map_values(|m: MarkedString| marked_view(m))),
        HoverContents::Markup { kind, value } => ContentsView::Markup(kind, value@),
    }
}

/// The view of an optional hover.
pub open spec fn hover_view(h: Option<Hover>) -> Option<(ContentsView, Option<Range>)> {
    match h {
        Some(h) => Some((contents_view(h.contents), h.range)),
        None => None,
    }
}

/// The hover response numbered `n`, if there is one.
pub open spec fn hover_fixture(n: u32) -> Option<(ContentsView, Option<Range>)> {
    if n == 0 {
        Some((ContentsView::Scalar(MarkedView::Plain("Scalar Marked String\nLine two"@)), Some(span(1, 2, 3, 4))))
    } else if n == 1 {
        Some((
            ContentsView::Scalar(MarkedView::Code("dummy-lang"@, "dummy-val\nLine two"@)),
            Some(span(5, 6, 7, 8)),
        ))
    } else if n == 2 {
        Some((
            ContentsView::Markup(MarkupKind::Markdown, "Markup Content\nMore content"@),
            Some(span(9, 10, 11, 12)),
        ))
    } else if n == 3 {
        Some((
            ContentsView::Markup(MarkupKind::PlainText, "Plain Content\nPlain Jane"@),
            Some(span(13, 14, 15, 16)),
        ))
    } else if n == 4 {
        Some((ContentsView::Array(seq![]), Some(span(17, 18, 19, 20))))
    } else if n == 5 {
        Some((
            ContentsView::Array(
                seq![
                    MarkedView::Plain("Array Marked String 1\nExtra"@),
                    MarkedView::Plain("Array Marked String 2\nExtra extra"@),
                    MarkedView::Plain("Array Marked String 3\nJust kidding"@),
                ],
            ),
            Some(span(21, 22, 23, 24)),
        ))
    } else if n == 6 {
        Some((
            ContentsView::Array(
                seq![
                    MarkedView::Code("dummy-lang"@, "dummy-val1\nDon't crash"@),
                    MarkedView::Code("dummy-lang"@, "dummy-val2\nSeriously"@),
                ],
            ),
            Some(span(13, 14, 15, 16)),
        ))
    } else {
        None
    }
}

fn hover_span(a: u32, b: u32, c: u32, d: u32) -> (r: Option<Range>)
    ensures
        r == Some(span(a, b, c, d)),
{
    Some(Range { start: Position { line: a, character: b }, end: Position { line: c, character: d } })
}

fn plain(s: &str) -> (r: MarkedString)
    ensures
        marked_view(r) == MarkedView::Plain(s@),
{
    MarkedString::String(String::from_str(s))
}

fn code(language: &str, value: &str) -> (r: MarkedString)
    ensures
        marked_view(r) == MarkedView::Code(language@, value@),
{
    MarkedString::LanguageString { language: String::from_str(language), value: String::from_str(value) }
}

/// For use with `test_hover`: the hover response numbered `response_num`.
pub fn get_hover_response(response_num: u32) -> (r: Option<Hover>)
    ensures
        hover_view(r) == hover_fixture(response_num),
{
    if response_num == 0 {
        Some(Hover {
            contents: HoverContents::Scalar(plain("Scalar Marked String\nLine two")),
            range: hover_span(1, 2, 3, 4),
        })
    } else if response_num == 1 {
        Some(Hover {
            contents: HoverContents::Scalar(code("dummy-lang", "dummy-val\nLine two")),
            range: hover_span(5, 6, 7, 8),
        })
    } else if response_num == 2 {
        Some(Hover {
            contents: HoverContents::Markup {
                kind: MarkupKind::Markdown,
                value: String::from_str("Markup Content\nMore content"),
            },
            range: hover_span(9, 10, 11, 12),
        })
    } else if response_num == 3 {
        Some(Hover {
            contents: HoverContents::Markup {
                kind: MarkupKind::PlainText,
                value: String::from_str("Plain Content\nPlain Jane"),
            },
            range: hover_span(13, 14, 15, 16),
        })
    } else if response_num == 4 {
        let v: Vec<MarkedString> = Vec::new();
        assert(v@.map_values(|m: MarkedString| marked_view(m)) =~= seq![]);
        Some(Hover { contents: HoverContents::Array(v), range: hover_span(17, 18, 19, 20) })
    } else if response_num == 5 {
        let v = vec![
            plain("Array Marked String 1\nExtra"),
            plain("Array Marked String 2\nExtra extra"),
            plain("Array Marked String 3\nJust kidding"),
        ];
        assert(v@.map_values(|m: MarkedString| marked_view(m)) =~= seq![
            MarkedView::Plain("Array Marked String 1\nExtra"@),
            MarkedView::Plain("Array Marked String 2\nExtra extra"@),
            MarkedView::Plain("Array Marked String 3\nJust kidding"@),
        ]);
        Some(Hover { contents: HoverContents::Array(v), range: hover_span(21, 22, 23, 24) })
    } else if response_num == 6 {
        let v = vec![code("dummy-lang", "dummy-val1\nDon't crash"), code("dummy-lang", "dummy-val2\nSeriously")];
        assert(v@.map_values(|m: MarkedString| marked_view(m)) =~= seq![
            MarkedView::Code("dummy-lang"@, "dummy-val1\nDon't crash"@),
            MarkedView::Code("dummy-lang"@, "dummy-val2\nSeriously"@),
        ]);
        Some(Hover { contents: HoverContents::Array(v), range: hover_span(13, 14, 15, 16) })
    } else {
        None
    }
}

} // verus!
