//! Signature help, and the canned responses of the dummy server.
use vstd::prelude::*;

use crate::hover::MarkupKind;

verus! {

/// Documentation: plain text, or markup of a kind.
#[derive(Debug)]
pub enum Documentation {
    String(String),
    Markup { kind: MarkupKind, value: String },
}

/// The label of a parameter: its text, or the offsets of that text in the
/// signature's label.
#[derive(Debug)]
pub enum ParameterLabel {
    Simple(String),
    Offsets(u32, u32),
}

/// A parameter of a signature.
#[derive(Debug)]
pub struct ParameterInformation {
    pub label: ParameterLabel,
    pub documentation: Option<Documentation>,
}

/// A signature: its label, documentation, parameters and the active one.
#[derive(Debug)]
pub struct SignatureInformation {
    pub label: String,
    pub documentation: Option<Documentation>,
    pub parameters: Option<Vec<ParameterInformation>>,
    pub active_parameter: Option<u32>,
}

/// A `textDocument/signatureHelp` response.
#[derive(Debug)]
pub struct SignatureHelp {
    pub signatures: Vec<SignatureInformation>,
    pub active_signature: Option<u32>,
    pub active_parameter: Option<u32>,
}

/// Whether `d` is the plain documentation `string documentation`.
pub open spec fn is_string_documentation(d: Option<Documentation>) -> bool {
    d matches Some(Documentation::String(t)) && t@ == "string documentation"@
}

/// Whether `s` is the canned signature numbered `i` (1 to 3): `label1` alone;
/// `label2` with plain documentation, no parameters and the first active; or `label3`
/// with markdown documentation and one documented parameter `label`, the first
/// active.
pub open spec fn is_fixture_signature(s: SignatureInformation, i: nat) -> bool {
    if i == 1 {
        s.label@ == "label1"@ && s.documentation is None && s.parameters is None && s.active_parameter is None
    } else if i == 2 {
        &&& s.label@ == "label2"@
        &&& is_string_documentation(s.documentation)
        &&& s.parameters matches Some(p) && p@.len() == 0
        &&& s.active_parameter == Some(0u32)
    } else {
        &&& s.label@ == "label3"@
        &&& s.documentation matches Some(Documentation::Markup { kind, value }) && kind == MarkupKind::Markdown
            && value@ == "markdown documentation"@
        &&& s.parameters matches Some(p) && p@.len() == 1 && (p@[0].label matches ParameterLabel::Simple(l) && l@
            == "label"@) && is_string_documentation(p@[0].documentation)
        &&& s.active_parameter == Some(0u32)
    }
}

/// Whether `r` is the signature help numbered `n`: no signatures (0) or the canned
/// signature numbered `n` (1 to 3), with no active signature or parameter.
pub open spec fn signature_fixture(n: u32, r: Option<SignatureHelp>) -> bool {
    if n > 3 {
        r is None
    } else {
        &&& r matches Some(h)
        &&& h.active_signature is None
        &&& h.active_parameter is None
        &&& if n == 0 {
            h.signatures@.len() == 0
        } else {
            h.signatures@.len() == 1 && is_fixture_signature(h.signatures@[0], n as nat)
        }
    }
}

fn string_documentation() -> (r: Option<Documentation>)
    ensures
        is_string_documentation(r),
{
    Some(Documentation::String(String::from_str("string documentation")))
}

fn fixture_signature(i: u32) -> (r: SignatureInformation)
    requires
        1 <= i <= 3,
    ensures
        is_fixture_signature(r, i as nat),
{
    if i == 1 {
        SignatureInformation { label: String::from_str("label1"), documentation: None, parameters: None, active_parameter: None }
    } else if i == 2 {
        SignatureInformation {
            label: String::from_str("label2"),
            documentation: string_documentation(),
            parameters: Some(Vec::new()),
            active_parameter: Some(0),
        }
    } else {
        let parameter = ParameterInformation {
            label: ParameterLabel::Simple(String::from_str("label")),
            documentation: string_documentation(),
        };
        SignatureInformation {
            label: String::from_str("label3"),
            documentation: Some(Documentation::Markup {
                kind: MarkupKind::Markdown,
                value: String::from_str("markdown documentation"),
            }),
            parameters: Some(vec![parameter]),
            active_parameter: Some(0),
        }
    }
}

/// For use with `test_signature_help`: the signature help numbered `response_num`.
pub fn get_signature_help_response(response_num: u32) -> (r: Option<SignatureHelp>)
    ensures
        signature_fixture(response_num, r),
{
    if response_num == 0 {
        Some(SignatureHelp { signatures: Vec::new(), active_signature: None, active_parameter: None })
    } else if response_num <= 3 {
        Some(SignatureHelp {
            signatures: vec![fixture_signature(response_num)],
            active_signature: None,
            active_parameter: None,
        })
    } else {
        None
    }
}

} // verus!
