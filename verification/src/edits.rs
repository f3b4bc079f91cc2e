//! Workspace edits, as a rename answers with them: cleaning the test directory out of
//! every URI they name, and the canned rename responses of the dummy server.
use vstd::prelude::*;

use crate::json::JsonValue;
use crate::responses::{clean_all, is_invalid_path, lemma_clean_all_err_stays, lemma_clean_all_step};
use crate::types::{Position, Range, TestSetupError};
use crate::uri::{clean_text, clean_uri};

verus! {

/// A text edit: `range` replaced with `new_text`; an annotated edit also names its
/// change annotation.
#[derive(Debug)]
pub struct TextEdit {
    pub range: Range,
    pub new_text: String,
    pub annotation_id: Option<String>,
}

/// Edits to one document, at an optional version.
#[derive(Debug)]
pub struct TextDocumentEdit {
    pub uri: String,
    pub version: Option<i32>,
    pub edits: Vec<TextEdit>,
}

/// A file operation. Its options are kept in the JSON form the protocol sends (a
/// deletion's annotation is among its options).
#[derive(Debug)]
pub enum ResourceOp {
    Create { uri: String, options: Option<JsonValue>, annotation_id: Option<String> },
    Rename { old_uri: String, new_uri: String, options: Option<JsonValue>, annotation_id: Option<String> },
    Delete { uri: String, options: Option<JsonValue> },
}

/// One step of a list of document changes.
#[derive(Debug)]
pub enum DocumentChange {
    Edit(TextDocumentEdit),
    Op(ResourceOp),
}

/// The document changes of a workspace edit.
#[derive(Debug)]
pub enum DocumentChanges {
    Edits(Vec<TextDocumentEdit>),
    Operations(Vec<DocumentChange>),
}

/// A change annotation.
#[derive(Debug)]
pub struct ChangeAnnotation {
    pub label: String,
    pub needs_confirmation: Option<bool>,
    pub description: Option<String>,
}

/// A workspace edit: edits by document URI, document changes, and change annotations
/// by identifier (each map held as a list of its entries).
#[derive(Debug)]
pub struct WorkspaceEdit {
    pub changes: Option<Vec<(String, Vec<TextEdit>)>>,
    pub document_changes: Option<DocumentChanges>,
    pub change_annotations: Option<Vec<(String, ChangeAnnotation)>>,
}

/// The keys of `entries` (URIs), in order.
pub open spec fn key_uris<T>(entries: Seq<(String, T)>) -> Seq<Seq<char>> {
    entries.map_values(|c: (String, T)| c.0@)
}

/// The document URIs of `edits`, in order.
pub open spec fn document_edit_uris(edits: Seq<TextDocumentEdit>) -> Seq<Seq<char>> {
    edits.map_values(|e: TextDocumentEdit| e.uri@)
}

/// The URIs one document change names: a rename's old and then its new URI.
pub open spec fn change_step_uris(c: DocumentChange) -> Seq<Seq<char>> {
    match c {
        DocumentChange::Edit(e) => seq![e.uri@],
        DocumentChange::Op(ResourceOp::Create { uri, .. }) => seq![uri@],
        DocumentChange::Op(ResourceOp::Rename { old_uri, new_uri, .. }) => seq![old_uri@, new_uri@],
        DocumentChange::Op(ResourceOp::Delete { uri, .. }) => seq![uri@],
    }
}

/// The URIs that `ops` name, in order.
pub open spec fn operation_uris(ops: Seq<DocumentChange>) -> Seq<Seq<char>>
    decreases ops.len(),
{
    if ops.len() == 0 {
        Seq::empty()
    } else {
        operation_uris(ops.drop_last()) + change_step_uris(ops.last())
    }
}

/// The URIs that the document changes name, in order.
pub open spec fn document_changes_uris(d: Option<DocumentChanges>) -> Seq<Seq<char>> {
    match d {
        Some(DocumentChanges::Edits(v)) => document_edit_uris(v@),
        Some(DocumentChanges::Operations(v)) => operation_uris(v@),
        None => Seq::empty(),
    }
}

/// Every URI a workspace edit names, in order: those of `changes`, then those of the
/// document changes.
pub open spec fn workspace_edit_uris(w: WorkspaceEdit) -> Seq<Seq<char>> {
    optional_key_uris(w.changes) + document_changes_uris(w.document_changes)
}

/// The document URIs of optional `changes`, in order.
pub open spec fn optional_key_uris(changes: Option<Vec<(String, Vec<TextEdit>)>>) -> Seq<Seq<char>> {
    match changes {
        Some(v) => key_uris(v@),
        None => Seq::empty(),
    }
}

/// Whether document change `x` is `c` with (possibly) other URIs.
pub open spec fn same_step(x: DocumentChange, c: DocumentChange) -> bool {
    match (x, c) {
        (DocumentChange::Edit(a), DocumentChange::Edit(b)) => a.version == b.version && a.edits == b.edits,
        (
            DocumentChange::Op(ResourceOp::Create { options: o1, annotation_id: a1, .. }),
            DocumentChange::Op(ResourceOp::Create { options: o2, annotation_id: a2, .. }),
        ) => o1 == o2 && a1 == a2,
        (
            DocumentChange::Op(ResourceOp::Rename { options: o1, annotation_id: a1, .. }),
            DocumentChange::Op(ResourceOp::Rename { options: o2, annotation_id: a2, .. }),
        ) => o1 == o2 && a1 == a2,
        (
            DocumentChange::Op(ResourceOp::Delete { options: o1, .. }),
            DocumentChange::Op(ResourceOp::Delete { options: o2, .. }),
        ) => o1 == o2,
        _ => false,
    }
}

/// Whether `x` is `w` with (possibly) other URIs: everything else is the same.
pub open spec fn same_but_uris(x: WorkspaceEdit, w: WorkspaceEdit) -> bool {
    &&& match (x.changes, w.changes) {
        (None, None) => true,
        (Some(a), Some(b)) => a@.len() == b@.len() && forall|i: int| 0 <= i < a@.len() ==> (#[trigger] a@[i]).1 == b@[i].1,
        _ => false,
    }
    &&& match (x.document_changes, w.document_changes) {
        (None, None) => true,
        (Some(DocumentChanges::Edits(a)), Some(DocumentChanges::Edits(b))) => a@.len() == b@.len() && forall|i: int|
            0 <= i < a@.len() ==> (#[trigger] a@[i]).version == b@[i].version && a@[i].edits == b@[i].edits,
        (Some(DocumentChanges::Operations(a)), Some(DocumentChanges::Operations(b))) => a@.len() == b@.len()
            && forall|i: int| 0 <= i < a@.len() ==> same_step(#[trigger] a@[i], b@[i]),
        _ => false,
    }
    &&& x.change_annotations == w.change_annotations
}

pub proof fn lemma_clean_all_append(a: Seq<Seq<char>>, b: Seq<Seq<char>>, root: Seq<char>)
    ensures
        clean_all(a + b, root) == match clean_all(a, root) {
            Err(p) => Err(p),
            Ok(ca) => match clean_all(b, root) {
                Ok(cb) => Ok(ca + cb),
                Err(p) => Err(p),
            },
        },
    decreases b.len(),
{
    if b.len() == 0 {
        assert(a + b =~= a);
        if let Ok(ca) = clean_all(a, root) {
            assert(ca + Seq::<Seq<char>>::empty() =~= ca);
        }
    } else {
        lemma_clean_all_append(a, b.drop_last(), root);
        assert((a + b).drop_last() =~= a + b.drop_last());
        assert((a + b).last() == b.last());
        if let Ok(ca) = clean_all(a, root) {
            if let Ok(cb) = clean_all(b.drop_last(), root) {
                if let Ok(c) = clean_text(b.last(), root) {
                    assert((ca + cb).push(c) =~= ca + cb.push(c));
                }
            }
        }
    }
}

/// `entries` with the test's source directory `root` stripped from each key, a URI
/// (see `clean_uri`), and the values kept; the first key that does not clean is an
/// `InvalidFilePath` error.
pub fn clean_keys<T>(v: Vec<(String, T)>, root: &str) -> (r: Result<Vec<(String, T)>, TestSetupError>)
    ensures
        match clean_all(key_uris(v@), root@) {
            Ok(cs) => r matches Ok(out) && key_uris(out@) == cs && out@.len() == v@.len() && forall|i: int|
                0 <= i < out@.len() ==> (#[trigger] out@[i]).1 == v@[i].1,
            Err(p) => r matches Err(e) && is_invalid_path(e, p),
        },
{
    let ghost orig = v@;
    let ghost uris = key_uris(orig);
    let mut rest = v;
    let mut out: Vec<(String, T)> = Vec::new();
    assert(key_uris(out@) =~= Seq::<Seq<char>>::empty());
    let n = rest.len();
    let mut i: usize = 0;
    assert(uris.take(0) =~= Seq::<Seq<char>>::empty());
    assert(orig.skip(0) =~= orig);
    assert(clean_all(Seq::<Seq<char>>::empty(), root@) == Ok::<Seq<Seq<char>>, Seq<char>>(Seq::empty()));
    while rest.len() > 0
        invariant
            orig == v@,
            orig.len() == n,
            i + rest@.len() == orig.len(),
            rest@ == orig.skip(i as int),
            uris == key_uris(orig),
            out@.len() == i,
            forall|k: int| 0 <= k < i ==> (#[trigger] out@[k]).1 == orig[k].1,
            clean_all(uris.take(i as int), root@) == Ok::<Seq<Seq<char>>, Seq<char>>(key_uris(out@)),
        decreases rest.len(),
    {
        proof { lemma_clean_all_step(uris, root@, i as int); }
        let (uri, value) = rest.remove(0);
        assert(orig[i as int] == (uri, value));
        assert(uris[i as int] == uri@);
        match clean_uri(uri.as_str(), root) {
            Ok(c) => {
                let ghost before = key_uris(out@);
                out.push((c, value));
                assert(key_uris(out@) =~= before.push(c@));
            },
            Err(e) => {
                proof { lemma_clean_all_err_stays(uris, root@, i + 1, orig.len() as int); }
                assert(uris.take(orig.len() as int) =~= uris);
                return Err(e);
            },
        }
        assert(rest@ =~= orig.skip(i + 1));
        i = i + 1;
    }
    assert(uris.take(orig.len() as int) =~= uris);
    Ok(out)
}

fn clean_document_edits(v: Vec<TextDocumentEdit>, root: &str) -> (r: Result<Vec<TextDocumentEdit>, TestSetupError>)
    ensures
        match clean_all(document_edit_uris(v@), root@) {
            Ok(cs) => r matches Ok(out) && document_edit_uris(out@) == cs && out@.len() == v@.len() && forall|i: int|
                0 <= i < out@.len() ==> (#[trigger] out@[i]).version == v@[i].version && out@[i].edits == v@[i].edits,
            Err(p) => r matches Err(e) && is_invalid_path(e, p),
        },
{
    let ghost orig = v@;
    let ghost uris = document_edit_uris(orig);
    let mut rest = v;
    let mut out: Vec<TextDocumentEdit> = Vec::new();
    assert(document_edit_uris(out@) =~= Seq::<Seq<char>>::empty());
    let n = rest.len();
    let mut i: usize = 0;
    assert(uris.take(0) =~= Seq::<Seq<char>>::empty());
    assert(orig.skip(0) =~= orig);
    assert(clean_all(Seq::<Seq<char>>::empty(), root@) == Ok::<Seq<Seq<char>>, Seq<char>>(Seq::empty()));
    while rest.len() > 0
        invariant
            orig == v@,
            orig.len() == n,
            i + rest@.len() == orig.len(),
            rest@ == orig.skip(i as int),
            uris == document_edit_uris(orig),
            out@.len() == i,
            forall|k: int| 0 <= k < i ==> (#[trigger] out@[k]).version == orig[k].version && out@[k].edits == orig[k].edits,
            clean_all(uris.take(i as int), root@) == Ok::<Seq<Seq<char>>, Seq<char>>(document_edit_uris(out@)),
        decreases rest.len(),
    {
        proof { lemma_clean_all_step(uris, root@, i as int); }
        let edit = rest.remove(0);
        assert(orig[i as int] == edit);
        assert(uris[i as int] == edit.uri@);
        match clean_uri(edit.uri.as_str(), root) {
            Ok(c) => {
                let ghost before = document_edit_uris(out@);
                out.push(TextDocumentEdit { uri: c, version: edit.version, edits: edit.edits });
                assert(document_edit_uris(out@) =~= before.push(c@));
            },
            Err(e) => {
                proof { lemma_clean_all_err_stays(uris, root@, i + 1, orig.len() as int); }
                assert(uris.take(orig.len() as int) =~= uris);
                return Err(e);
            },
        }
        assert(rest@ =~= orig.skip(i + 1));
        i = i + 1;
    }
    assert(uris.take(orig.len() as int) =~= uris);
    Ok(out)
}

fn clean_step(c: DocumentChange, root: &str) -> (r: Result<DocumentChange, TestSetupError>)
    ensures
        match clean_all(change_step_uris(c), root@) {
            Ok(cs) => r matches Ok(x) && change_step_uris(x) == cs && same_step(x, c),
            Err(p) => r matches Err(e) && is_invalid_path(e, p),
        },
{
    proof {
        let s = change_step_uris(c);
        assert(s.take(0) =~= Seq::<Seq<char>>::empty());
        lemma_clean_all_step(s, root@, 0);
        assert(s.take(1) =~= seq![s[0]]);
        if s.len() == 2 {
            lemma_clean_all_step(s, root@, 1);
            assert(s.take(2) =~= s);
        } else {
            assert(s.take(1) =~= s);
        }
    }
    match c {
        DocumentChange::Edit(e) => {
            let u = clean_uri(e.uri.as_str(), root)?;
            Ok(DocumentChange::Edit(TextDocumentEdit { uri: u, version: e.version, edits: e.edits }))
        },
        DocumentChange::Op(ResourceOp::Create { uri, options, annotation_id }) => {
            let u = clean_uri(uri.as_str(), root)?;
            Ok(DocumentChange::Op(ResourceOp::Create { uri: u, options, annotation_id }))
        },
        DocumentChange::Op(ResourceOp::Rename { old_uri, new_uri, options, annotation_id }) => {
            let o = clean_uri(old_uri.as_str(), root)?;
            let n = clean_uri(new_uri.as_str(), root)?;
            Ok(DocumentChange::Op(ResourceOp::Rename { old_uri: o, new_uri: n, options, annotation_id }))
        },
        DocumentChange::Op(ResourceOp::Delete { uri, options }) => {
            let u = clean_uri(uri.as_str(), root)?;
            Ok(DocumentChange::Op(ResourceOp::Delete { uri: u, options }))
        },
    }
}

proof fn lemma_operation_uris_append(a: Seq<DocumentChange>, b: Seq<DocumentChange>)
    ensures
        operation_uris(a + b) == operation_uris(a) + operation_uris(b),
    decreases b.len(),
{
    if b.len() == 0 {
        assert(a + b =~= a);
        assert(operation_uris(a) + Seq::<Seq<char>>::empty() =~= operation_uris(a));
    } else {
        lemma_operation_uris_append(a, b.drop_last());
        assert((a + b).drop_last() =~= a + b.drop_last());
        assert((a + b).last() == b.last());
        assert(operation_uris(a) + operation_uris(b.drop_last()) + change_step_uris(b.last()) =~= operation_uris(a)
            + (operation_uris(b.drop_last()) + change_step_uris(b.last())));
    }
}

fn clean_operations(v: Vec<DocumentChange>, root: &str) -> (r: Result<Vec<DocumentChange>, TestSetupError>)
    ensures
        match clean_all(operation_uris(v@), root@) {
            Ok(cs) => r matches Ok(out) && operation_uris(out@) == cs && out@.len() == v@.len() && forall|i: int|
                0 <= i < out@.len() ==> same_step(#[trigger] out@[i], v@[i]),
            Err(p) => r matches Err(e) && is_invalid_path(e, p),
        },
{
    let ghost orig = v@;
    let mut rest = v;
    let n = rest.len();
    let mut out: Vec<DocumentChange> = Vec::new();
    let mut i: usize = 0;
    assert(orig.take(0) =~= Seq::<DocumentChange>::empty());
    assert(out@ =~= Seq::<DocumentChange>::empty());
    assert(orig.skip(0) =~= orig);
    assert(clean_all(Seq::<Seq<char>>::empty(), root@) == Ok::<Seq<Seq<char>>, Seq<char>>(Seq::empty()));
    while rest.len() > 0
        invariant
            orig == v@,
            orig.len() == n,
            i + rest@.len() == orig.len(),
            rest@ == orig.skip(i as int),
            out@.len() == i,
            forall|k: int| 0 <= k < i ==> same_step(#[trigger] out@[k], orig[k]),
            clean_all(operation_uris(orig.take(i as int)), root@) == Ok::<Seq<Seq<char>>, Seq<char>>(operation_uris(out@)),
        decreases rest.len(),
    {
        let c = rest.remove(0);
        assert(orig[i as int] == c);
        let ghost before = operation_uris(orig.take(i as int));
        assert(orig.take(i + 1).drop_last() =~= orig.take(i as int));
        assert(orig.take(i + 1).last() == c);
        assert(operation_uris(orig.take(i + 1)) == before + change_step_uris(c));
        proof { lemma_clean_all_append(before, change_step_uris(c), root@); }
        match clean_step(c, root) {
            Ok(x) => {
                let ghost done = out@;
                out.push(x);
                assert(out@.drop_last() =~= done);
                assert(out@.last() == x);
                assert(operation_uris(out@) == operation_uris(done) + change_step_uris(x));
            },
            Err(e) => {
                proof {
                    lemma_operation_uris_append(orig.take(i + 1), orig.skip(i + 1));
                    assert(orig.take(i + 1) + orig.skip(i + 1) =~= orig);
                    lemma_clean_all_append(operation_uris(orig.take(i + 1)), operation_uris(orig.skip(i + 1)), root@);
                }
                return Err(e);
            },
        }
        assert(rest@ =~= orig.skip(i + 1));
        i = i + 1;
    }
    assert(orig.take(orig.len() as int) =~= orig);
    Ok(out)
}

impl WorkspaceEdit {
    /// This edit with the test's source directory `root` stripped from every URI it
    /// names (see `clean_uri`): the document URIs of `changes`, then those of the
    /// document changes (a rename's old URI before its new one). Everything else is
    /// kept. The first URI that does not clean is an `InvalidFilePath` error.
    pub fn clean_response(self, root: &str) -> (r: Result<WorkspaceEdit, TestSetupError>)
        ensures
            match clean_all(workspace_edit_uris(self), root@) {
                Ok(cs) => r matches Ok(x) && same_but_uris(x, self) && workspace_edit_uris(x) == cs,
                Err(p) => r matches Err(e) && is_invalid_path(e, p),
            },
    {
        let ghost w = self;
        proof {
            lemma_clean_all_append(optional_key_uris(self.changes), document_changes_uris(self.document_changes), root@);
            assert(clean_all(Seq::<Seq<char>>::empty(), root@) == Ok::<Seq<Seq<char>>, Seq<char>>(Seq::empty()));
        }
        let changes = match self.changes {
            Some(v) => match clean_keys(v, root) {
                Ok(c) => Some(c),
                Err(e) => {
                    return Err(e);
                },
            },
            None => None,
        };
        let document_changes = match self.document_changes {
            Some(DocumentChanges::Edits(v)) => match clean_document_edits(v, root) {
                Ok(c) => Some(DocumentChanges::Edits(c)),
                Err(e) => {
                    return Err(e);
                },
            },
            Some(DocumentChanges::Operations(v)) => match clean_operations(v, root) {
                Ok(c) => Some(DocumentChanges::Operations(c)),
                Err(e) => {
                    return Err(e);
                },
            },
            None => None,
        };
        let x = WorkspaceEdit { changes, document_changes, change_annotations: self.change_annotations };
        assert(workspace_edit_uris(x) == optional_key_uris(x.changes) + document_changes_uris(x.document_changes));
        Ok(x)
    }
}

/// Whether `w` holds no changes by URI, no document changes and no annotations,
/// except as `changes`, `document_changes` and `annotations` say.
pub open spec fn edit_parts(
    w: WorkspaceEdit,
    changes: Option<Seq<(Seq<char>, Seq<(Range, Seq<char>)>)>>,
    document_edits: Option<Seq<Seq<char>>>,
    annotations: Option<Seq<(Seq<char>, Seq<char>)>>,
) -> bool {
    &&& match (w.changes, changes) {
        (None, None) => true,
        (Some(v), Some(c)) => v@.len() == c.len() && forall|i: int|
            0 <= i < c.len() ==> {
                &&& (#[trigger] v@[i]).0@ == c[i].0
                &&& v@[i].1@.len() == c[i].1.len()
                &&& forall|j: int|
                    0 <= j < c[i].1.len() ==> {
                        &&& (#[trigger] v@[i].1@[j]).range == c[i].1[j].0
                        &&& v@[i].1@[j].new_text@ == c[i].1[j].1
                        &&& v@[i].1@[j].annotation_id is None
                    }
            },
        _ => false,
    }
    &&& match (w.document_changes, document_edits) {
        (None, None) => true,
        (Some(DocumentChanges::Edits(v)), Some(uris)) => v@.len() == uris.len() && forall|i: int|
            0 <= i < uris.len() ==> (#[trigger] v@[i]).uri@ == uris[i] && v@[i].version is None && v@[i].edits@.len()
                == 0,
        _ => false,
    }
    &&& match (w.change_annotations, annotations) {
        (None, None) => true,
        (Some(v), Some(a)) => v@.len() == a.len() && forall|i: int|
            0 <= i < a.len() ==> (#[trigger] v@[i]).0@ == a[i].0 && v@[i].1.label@ == a[i].1
                && v@[i].1.needs_confirmation is None && v@[i].1.description is None,
        _ => false,
    }
}

/// Whether `r` is the rename response numbered `n`; `source` is the dummy source
/// file's path, which the responses name as a URI.
pub open spec fn rename_fixture(n: u32, source: Seq<char>, r: Option<WorkspaceEdit>) -> bool {
    if n > 5 {
        r is None
    } else {
        r matches Some(w) && if n == 0 {
            edit_parts(w, Some(seq![]), None, None)
        } else if n == 1 {
            edit_parts(
                w,
                Some(seq![(source, seq![(crate::fixtures::span(1, 2, 3, 4), "new_text"@)])]),
                None,
                None,
            )
        } else if n == 2 {
            edit_parts(w, None, Some(seq![source]), None)
        } else if n == 3 {
            edit_parts(w, None, Some(seq![]), None)
        } else if n == 4 {
            edit_parts(w, None, None, Some(seq![(source, "label"@)]))
        } else {
            edit_parts(w, None, None, Some(seq![]))
        }
    }
}

/// For use with `test_rename`: the rename response numbered `response_num`, naming
/// the dummy source file (see `get_source_path`).
pub fn get_rename_response(response_num: u32) -> (r: Option<WorkspaceEdit>)
    ensures
        rename_fixture(response_num, "main.dummy"@, r),
{
    let none_changes: Option<Vec<(String, Vec<TextEdit>)>> = None;
    let none_annotations: Option<Vec<(String, ChangeAnnotation)>> = None;
    if response_num == 0 {
        let w = WorkspaceEdit { changes: Some(Vec::new()), document_changes: None, change_annotations: none_annotations };
        assert(edit_parts(w, Some(seq![]), None, None));
        Some(w)
    } else if response_num == 1 {
        let edit = TextEdit {
            range: Range { start: Position { line: 1, character: 2 }, end: Position { line: 3, character: 4 } },
            new_text: String::from_str("new_text"),
            annotation_id: None,
        };
        let edits = vec![edit];
        let changes = vec![(crate::server::get_source_path(), edits)];
        let w = WorkspaceEdit { changes: Some(changes), document_changes: None, change_annotations: none_annotations };
        let ghost c = seq![("main.dummy"@, seq![(crate::fixtures::span(1, 2, 3, 4), "new_text"@)])];
        assert(w.changes->Some_0@[0].1@[0].range == c[0].1[0].0);
        assert(edit_parts(w, Some(c), None, None));
        Some(w)
    } else if response_num == 2 {
        let d = TextDocumentEdit { uri: crate::server::get_source_path(), version: None, edits: Vec::new() };
        let w = WorkspaceEdit {
            changes: none_changes,
            document_changes: Some(DocumentChanges::Edits(vec![d])),
            change_annotations: none_annotations,
        };
        assert(edit_parts(w, None, Some(seq!["main.dummy"@]), None));
        Some(w)
    } else if response_num == 3 {
        let w = WorkspaceEdit {
            changes: none_changes,
            document_changes: Some(DocumentChanges::Edits(Vec::new())),
            change_annotations: none_annotations,
        };
        assert(edit_parts(w, None, Some(seq![]), None));
        Some(w)
    } else if response_num == 4 {
        let a = ChangeAnnotation { label: String::from_str("label"), needs_confirmation: None, description: None };
        let w = WorkspaceEdit {
            changes: none_changes,
            document_changes: None,
            change_annotations: Some(vec![(crate::server::get_source_path(), a)]),
        };
        assert(edit_parts(w, None, None, Some(seq![("main.dummy"@, "label"@)])));
        Some(w)
    } else if response_num == 5 {
        let w = WorkspaceEdit { changes: none_changes, document_changes: None, change_annotations: Some(Vec::new()) };
        assert(edit_parts(w, None, None, Some(seq![])));
        Some(w)
    } else {
        None
    }
}

/// Whether `edits` are the formatting edits numbered `n`: `n` edits (up to three),
/// the one at index `i` replacing (4i+1, 4i+2)-(4i+3, 4i+4) with `new_text <i+1>`.
pub open spec fn formatting_fixture(n: u32, r: Option<Vec<TextEdit>>) -> bool {
    if n > 3 {
        r is None
    } else {
        r matches Some(v) && v@.len() == n && forall|i: int|
            0 <= i < v@.len() ==> {
                &&& (#[trigger] v@[i]).range == crate::fixtures::span(
                    (4 * i + 1) as u32,
                    (4 * i + 2) as u32,
                    (4 * i + 3) as u32,
                    (4 * i + 4) as u32,
                )
                &&& v@[i].new_text@ == "new_text "@ + crate::text::decimal((i + 1) as nat)
                &&& v@[i].annotation_id is None
            }
    }
}

/// For use with `test_formatting`: the edits numbered `response_num` (none for 0,
/// which the dummy tests rely on).
pub fn get_formatting_response(response_num: u32) -> (r: Option<Vec<TextEdit>>)
    ensures
        formatting_fixture(response_num, r),
{
    if response_num > 3 {
        return None;
    }
    let mut v: Vec<TextEdit> = Vec::new();
    let mut i: u32 = 0;
    while i < response_num
        invariant
            i <= response_num <= 3,
            v@.len() == i,
            forall|k: int|
                0 <= k < i ==> {
                    &&& (#[trigger] v@[k]).range == crate::fixtures::span(
                        (4 * k + 1) as u32,
                        (4 * k + 2) as u32,
                        (4 * k + 3) as u32,
                        (4 * k + 4) as u32,
                    )
                    &&& v@[k].new_text@ == "new_text "@ + crate::text::decimal((k + 1) as nat)
                    &&& v@[k].annotation_id is None
                },
        decreases response_num - i,
    {
        let mut text = String::from_str("new_text ");
        let number = crate::text::decimal_string((i + 1) as u64);
        text.append(number.as_str());
        v.push(TextEdit {
            range: Range {
                start: Position { line: 4 * i + 1, character: 4 * i + 2 },
                end: Position { line: 4 * i + 3, character: 4 * i + 4 },
            },
            new_text: text,
            annotation_id: None,
        });
        i = i + 1;
    }
    Some(v)
}

} // verus!
