//! Diagnostics and document diagnostic reports: cleaning the test directory out of
//! the URIs they name, and the canned reports of the dummy server.
use vstd::prelude::*;

use crate::edits::{clean_keys, key_uris, lemma_clean_all_append};
use crate::json::JsonValue;
use crate::responses::{clean_all, is_invalid_path, lemma_clean_all_err_stays, lemma_clean_all_step, Location};
use crate::types::{Position, Range, TestSetupError};
use crate::uri::clean_uri;

verus! {

/// A diagnostic's code.
#[derive(Debug)]
pub enum DiagnosticCode {
    Number(i32),
    String(String),
}

/// A location related to a diagnostic, with a message about it.
#[derive(Debug)]
pub struct RelatedInformation {
    pub location: Location,
    pub message: String,
}

/// A diagnostic: severity and tags by their protocol numbers, the code description by
/// its URI, and any data in the JSON form the protocol sends.
#[derive(Debug)]
pub struct Diagnostic {
    pub range: Range,
    pub severity: Option<i32>,
    pub code: Option<DiagnosticCode>,
    pub code_description: Option<String>,
    pub source: Option<String>,
    pub message: String,
    pub tags: Option<Vec<i32>>,
    pub related_information: Option<Vec<RelatedInformation>>,
    pub data: Option<JsonValue>,
}

/// The report for one related document.
#[derive(Debug)]
pub enum ReportKind {
    Full { result_id: Option<String>, items: Vec<Diagnostic> },
    Unchanged { result_id: String },
}

/// A `textDocument/diagnostic` response: a full or an unchanged report, with the
/// reports of related documents by URI (held as a list of entries).
#[derive(Debug)]
pub enum DocumentDiagnosticReport {
    Full { related_documents: Option<Vec<(String, ReportKind)>>, result_id: Option<String>, items: Vec<Diagnostic> },
    Unchanged { related_documents: Option<Vec<(String, ReportKind)>>, result_id: String },
}

/// The URIs of the locations in `infos`, in order.
pub open spec fn related_uris(infos: Seq<RelatedInformation>) -> Seq<Seq<char>> {
    infos.map_values(|i: RelatedInformation| i.location.uri@)
}

/// The URIs one diagnostic's related information names, in order.
pub open spec fn diagnostic_uris(d: Diagnostic) -> Seq<Seq<char>> {
    match d.related_information {
        Some(v) => related_uris(v@),
        None => Seq::empty(),
    }
}

/// The URIs that `ds` name in their related information, in order.
pub open spec fn diagnostics_uris(ds: Seq<Diagnostic>) -> Seq<Seq<char>>
    decreases ds.len(),
{
    if ds.len() == 0 {
        Seq::empty()
    } else {
        diagnostics_uris(ds.drop_last()) + diagnostic_uris(ds.last())
    }
}

/// Whether diagnostic `x` is `d` with (possibly) other URIs in its related
/// information.
pub open spec fn same_diagnostic(x: Diagnostic, d: Diagnostic) -> bool {
    &&& x.range == d.range
    &&& x.severity == d.severity
    &&& x.code == d.code
    &&& x.code_description == d.code_description
    &&& x.source == d.source
    &&& x.message == d.message
    &&& x.tags == d.tags
    &&& x.data == d.data
    &&& match (x.related_information, d.related_information) {
        (None, None) => true,
        (Some(a), Some(b)) => a@.len() == b@.len() && forall|i: int|
            0 <= i < a@.len() ==> (#[trigger] a@[i]).location.range == b@[i].location.range && a@[i].message
                == b@[i].message,
        _ => false,
    }
}

fn clean_related(v: Vec<RelatedInformation>, root: &str) -> (r: Result<Vec<RelatedInformation>, TestSetupError>)
    ensures
        match clean_all(related_uris(v@), root@) {
            Ok(cs) => r matches Ok(out) && related_uris(out@) == cs && out@.len() == v@.len() && forall|i: int|
                0 <= i < out@.len() ==> (#[trigger] out@[i]).location.range == v@[i].location.range
                    && out@[i].message == v@[i].message,
            Err(p) => r matches Err(e) && is_invalid_path(e, p),
        },
{
    let ghost orig = v@;
    let ghost uris = related_uris(orig);
    let mut rest = v;
    let n = rest.len();
    let mut out: Vec<RelatedInformation> = Vec::new();
    assert(related_uris(out@) =~= Seq::<Seq<char>>::empty());
    let mut i: usize = 0;
    assert(uris.take(0) =~= Seq::<Seq<char>>::empty());
    assert(orig.skip(0) =~= orig);
    assert(clean_all(Seq::<Seq<char>>::empty(), root@) == Ok::<Seq<Seq<char>>, Seq<char>>(Seq::empty()));
    while rest.len() > 0
        invariant
            orig == v@,
            orig.len() == n,
            i + rest@.len() == orig.len(),
            rest@ == orig.skip(i as int),
            uris == related_uris(orig),
            out@.len() == i,
            forall|k: int| 0 <= k < i ==> (#[trigger] out@[k]).location.range == orig[k].location.range
                && out@[k].message == orig[k].message,
            clean_all(uris.take(i as int), root@) == Ok::<Seq<Seq<char>>, Seq<char>>(related_uris(out@)),
        decreases rest.len(),
    {
        proof { lemma_clean_all_step(uris, root@, i as int); }
        let info = rest.remove(0);
        assert(orig[i as int] == info);
        assert(uris[i as int] == info.location.uri@);
        match clean_uri(info.location.uri.as_str(), root) {
            Ok(c) => {
                let ghost before = related_uris(out@);
                out.push(RelatedInformation { location: Location { uri: c, range: info.location.range }, message: info.message });
                assert(related_uris(out@) =~= before.push(c@));
            },
            Err(e) => {
                proof { lemma_clean_all_err_stays(uris, root@, i + 1, orig.len() as int); }
                assert(uris.take(orig.len() as int) =~= uris);
                return Err(e);
            },
        }
        assert(rest@ =~= orig.skip(i + 1));
        i = i + 1;
    }
    assert(uris.take(orig.len() as int) =~= uris);
    Ok(out)
}

fn clean_diagnostic(d: Diagnostic, root: &str) -> (r: Result<Diagnostic, TestSetupError>)
    ensures
        match clean_all(diagnostic_uris(d), root@) {
            Ok(cs) => r matches Ok(x) && diagnostic_uris(x) == cs && same_diagnostic(x, d),
            Err(p) => r matches Err(e) && is_invalid_path(e, p),
        },
{
    let related_information = match d.related_information {
        Some(v) => match clean_related(v, root) {
            Ok(c) => Some(c),
            Err(e) => {
                return Err(e);
            },
        },
        None => {
            assert(clean_all(Seq::<Seq<char>>::empty(), root@) == Ok::<Seq<Seq<char>>, Seq<char>>(Seq::empty()));
            None
        },
    };
    Ok(Diagnostic {
        range: d.range,
        severity: d.severity,
        code: d.code,
        code_description: d.code_description,
        source: d.source,
        message: d.message,
        tags: d.tags,
        related_information,
        data: d.data,
    })
}

proof fn lemma_diagnostics_uris_append(a: Seq<Diagnostic>, b: Seq<Diagnostic>)
    ensures
        diagnostics_uris(a + b) == diagnostics_uris(a) + diagnostics_uris(b),
    decreases b.len(),
{
    if b.len() == 0 {
        assert(a + b =~= a);
        assert(diagnostics_uris(a) + Seq::<Seq<char>>::empty() =~= diagnostics_uris(a));
    } else {
        lemma_diagnostics_uris_append(a, b.drop_last());
        assert((a + b).drop_last() =~= a + b.drop_last());
        assert((a + b).last() == b.last());
        assert(diagnostics_uris(a) + diagnostics_uris(b.drop_last()) + diagnostic_uris(b.last()) =~= diagnostics_uris(a)
            + (diagnostics_uris(b.drop_last()) + diagnostic_uris(b.last())));
    }
}

/// `v` with the test's source directory `root` stripped from the URI of every location
/// in the diagnostics' related information (see `clean_uri`), in order; everything
/// else is kept. The first URI that does not clean is an `InvalidFilePath` error.
pub fn clean_diagnostics(v: Vec<Diagnostic>, root: &str) -> (r: Result<Vec<Diagnostic>, TestSetupError>)
    ensures
        match clean_all(diagnostics_uris(v@), root@) {
            Ok(cs) => r matches Ok(out) && diagnostics_uris(out@) == cs && out@.len() == v@.len() && forall|i: int|
                0 <= i < out@.len() ==> same_diagnostic(#[trigger] out@[i], v@[i]),
            Err(p) => r matches Err(e) && is_invalid_path(e, p),
        },
{
    let ghost orig = v@;
    let mut rest = v;
    let n = rest.len();
    let mut out: Vec<Diagnostic> = Vec::new();
    let mut i: usize = 0;
    assert(orig.take(0) =~= Seq::<Diagnostic>::empty());
    assert(out@ =~= Seq::<Diagnostic>::empty());
    assert(orig.skip(0) =~= orig);
    assert(clean_all(Seq::<Seq<char>>::empty(), root@) == Ok::<Seq<Seq<char>>, Seq<char>>(Seq::empty()));
    while rest.len() > 0
        invariant
            orig == v@,
            orig.len() == n,
            i + rest@.len() == orig.len(),
            rest@ == orig.skip(i as int),
            out@.len() == i,
            forall|k: int| 0 <= k < i ==> same_diagnostic(#[trigger] out@[k], orig[k]),
            clean_all(diagnostics_uris(orig.take(i as int)), root@) == Ok::<Seq<Seq<char>>, Seq<char>>(diagnostics_uris(out@)),
        decreases rest.len(),
    {
        let d = rest.remove(0);
        assert(orig[i as int] == d);
        let ghost before = diagnostics_uris(orig.take(i as int));
        assert(orig.take(i + 1).drop_last() =~= orig.take(i as int));
        assert(orig.take(i + 1).last() == d);
        assert(diagnostics_uris(orig.take(i + 1)) == before + diagnostic_uris(d));
        proof { lemma_clean_all_append(before, diagnostic_uris(d), root@); }
        match clean_diagnostic(d, root) {
            Ok(x) => {
                let ghost done = out@;
                out.push(x);
                assert(out@.drop_last() =~= done);
                assert(out@.last() == x);
                assert(diagnostics_uris(out@) == diagnostics_uris(done) + diagnostic_uris(x));
            },
            Err(e) => {
                proof {
                    lemma_diagnostics_uris_append(orig.take(i + 1), orig.skip(i + 1));
                    assert(orig.take(i + 1) + orig.skip(i + 1) =~= orig);
                    lemma_clean_all_append(diagnostics_uris(orig.take(i + 1)), diagnostics_uris(orig.skip(i + 1)), root@);
                }
                return Err(e);
            },
        }
        assert(rest@ =~= orig.skip(i + 1));
        i = i + 1;
    }
    assert(orig.take(orig.len() as int) =~= orig);
    Ok(out)
}

/// The related documents of a report.
pub open spec fn related_documents(r: DocumentDiagnosticReport) -> Option<Vec<(String, ReportKind)>> {
    match r {
        DocumentDiagnosticReport::Full { related_documents, .. } => related_documents,
        DocumentDiagnosticReport::Unchanged { related_documents, .. } => related_documents,
    }
}

/// The URIs in the diagnostics of a related document's report, in order.
pub open spec fn kind_uris(k: ReportKind) -> Seq<Seq<char>> {
    match k {
        ReportKind::Full { items, .. } => diagnostics_uris(items@),
        ReportKind::Unchanged { .. } => Seq::empty(),
    }
}

/// The URIs that one related document names: its own, then those in its report.
pub open spec fn entry_uris(e: (String, ReportKind)) -> Seq<Seq<char>> {
    seq![e.0@] + kind_uris(e.1)
}

/// The URIs that the related documents `entries` name, in order.
pub open spec fn entries_uris(entries: Seq<(String, ReportKind)>) -> Seq<Seq<char>>
    decreases entries.len(),
{
    if entries.len() == 0 {
        Seq::empty()
    } else {
        entries_uris(entries.drop_last()) + entry_uris(entries.last())
    }
}

/// The URIs of a report, in order: those in its own diagnostics' related information,
/// then each related document's URI followed by those in its report.
pub open spec fn report_uris(r: DocumentDiagnosticReport) -> Seq<Seq<char>> {
    (match r {
        DocumentDiagnosticReport::Full { items, .. } => diagnostics_uris(items@),
        DocumentDiagnosticReport::Unchanged { .. } => Seq::empty(),
    }) + opt_entries_uris(related_documents(r))
}

/// The URIs that optional related documents name, in order.
pub open spec fn opt_entries_uris(o: Option<Vec<(String, ReportKind)>>) -> Seq<Seq<char>> {
    match o {
        Some(v) => entries_uris(v@),
        None => Seq::empty(),
    }
}

/// Whether `a` are `b` with (possibly) other URIs in their related information.
pub open spec fn same_diagnostics(a: Seq<Diagnostic>, b: Seq<Diagnostic>) -> bool {
    a.len() == b.len() && forall|i: int| 0 <= i < a.len() ==> same_diagnostic(#[trigger] a[i], b[i])
}

/// Whether related report `x` is `k` with (possibly) other URIs.
pub open spec fn same_kind(x: ReportKind, k: ReportKind) -> bool {
    match (x, k) {
        (ReportKind::Full { result_id: a, items: ia }, ReportKind::Full { result_id: b, items: ib }) => a == b
            && same_diagnostics(ia@, ib@),
        (ReportKind::Unchanged { result_id: a }, ReportKind::Unchanged { result_id: b }) => a == b,
        _ => false,
    }
}

/// Whether `x` is `r` with (possibly) other URIs.
pub open spec fn same_report(x: DocumentDiagnosticReport, r: DocumentDiagnosticReport) -> bool {
    &&& match (x, r) {
        (
            DocumentDiagnosticReport::Full { result_id: a, items: ia, .. },
            DocumentDiagnosticReport::Full { result_id: b, items: ib, .. },
        ) => a == b && same_diagnostics(ia@, ib@),
        (
            DocumentDiagnosticReport::Unchanged { result_id: a, .. },
            DocumentDiagnosticReport::Unchanged { result_id: b, .. },
        ) => a == b,
        _ => false,
    }
    &&& match (related_documents(x), related_documents(r)) {
        (None, None) => true,
        (Some(a), Some(b)) => a@.len() == b@.len() && forall|i: int|
            0 <= i < a@.len() ==> same_kind(#[trigger] a@[i].1, b@[i].1),
        _ => false,
    }
}

fn clean_kind(k: ReportKind, root: &str) -> (r: Result<ReportKind, TestSetupError>)
    ensures
        match clean_all(kind_uris(k), root@) {
            Ok(cs) => r matches Ok(x) && kind_uris(x) == cs && same_kind(x, k),
            Err(p) => r matches Err(e) && is_invalid_path(e, p),
        },
{
    match k {
        ReportKind::Full { result_id, items } => match clean_diagnostics(items, root) {
            Ok(c) => Ok(ReportKind::Full { result_id, items: c }),
            Err(e) => Err(e),
        },
        ReportKind::Unchanged { result_id } => {
            assert(clean_all(Seq::<Seq<char>>::empty(), root@) == Ok::<Seq<Seq<char>>, Seq<char>>(Seq::empty()));
            Ok(ReportKind::Unchanged { result_id })
        },
    }
}

fn clean_entry(e: (String, ReportKind), root: &str) -> (r: Result<(String, ReportKind), TestSetupError>)
    ensures
        match clean_all(entry_uris(e), root@) {
            Ok(cs) => r matches Ok(x) && entry_uris(x) == cs && same_kind(x.1, e.1),
            Err(p) => r matches Err(err) && is_invalid_path(err, p),
        },
{
    let (uri, kind) = e;
    proof {
        let s = seq![uri@];
        assert(s.take(0) =~= Seq::<Seq<char>>::empty());
        lemma_clean_all_step(s, root@, 0);
        assert(s.take(1) =~= s);
        lemma_clean_all_append(s, kind_uris(kind), root@);
    }
    let u = match clean_uri(uri.as_str(), root) {
        Ok(u) => u,
        Err(err) => {
            return Err(err);
        },
    };
    let ghost cu = u@;
    match clean_kind(kind, root) {
        Ok(k) => {
            let x = (u, k);
            assert(entry_uris(x) == seq![cu] + kind_uris(k));
            Ok(x)
        },
        Err(err) => Err(err),
    }
}

proof fn lemma_entries_uris_append(a: Seq<(String, ReportKind)>, b: Seq<(String, ReportKind)>)
    ensures
        entries_uris(a + b) == entries_uris(a) + entries_uris(b),
    decreases b.len(),
{
    if b.len() == 0 {
        assert(a + b =~= a);
        assert(entries_uris(a) + Seq::<Seq<char>>::empty() =~= entries_uris(a));
    } else {
        lemma_entries_uris_append(a, b.drop_last());
        assert((a + b).drop_last() =~= a + b.drop_last());
        assert((a + b).last() == b.last());
        assert(entries_uris(a) + entries_uris(b.drop_last()) + entry_uris(b.last()) =~= entries_uris(a) + (
        entries_uris(b.drop_last()) + entry_uris(b.last())));
    }
}

fn clean_entries(v: Vec<(String, ReportKind)>, root: &str) -> (r: Result<Vec<(String, ReportKind)>, TestSetupError>)
    ensures
        match clean_all(entries_uris(v@), root@) {
            Ok(cs) => r matches Ok(out) && entries_uris(out@) == cs && out@.len() == v@.len() && forall|i: int|
                0 <= i < out@.len() ==> same_kind(#[trigger] out@[i].1, v@[i].1),
            Err(p) => r matches Err(e) && is_invalid_path(e, p),
        },
{
    let ghost orig = v@;
    let mut rest = v;
    let n = rest.len();
    let mut out: Vec<(String, ReportKind)> = Vec::new();
    let mut i: usize = 0;
    assert(orig.take(0) =~= Seq::<(String, ReportKind)>::empty());
    assert(out@ =~= Seq::<(String, ReportKind)>::empty());
    assert(orig.skip(0) =~= orig);
    assert(clean_all(Seq::<Seq<char>>::empty(), root@) == Ok::<Seq<Seq<char>>, Seq<char>>(Seq::empty()));
    while rest.len() > 0
        invariant
            orig == v@,
            orig.len() == n,
            i + rest@.len() == orig.len(),
            rest@ == orig.skip(i as int),
            out@.len() == i,
            forall|k: int| 0 <= k < i ==> same_kind(#[trigger] out@[k].1, orig[k].1),
            clean_all(entries_uris(orig.take(i as int)), root@) == Ok::<Seq<Seq<char>>, Seq<char>>(entries_uris(out@)),
        decreases rest.len(),
    {
        let d = rest.remove(0);
        assert(orig[i as int] == d);
        let ghost before = entries_uris(orig.take(i as int));
        assert(orig.take(i + 1).drop_last() =~= orig.take(i as int));
        assert(orig.take(i + 1).last() == d);
        assert(entries_uris(orig.take(i + 1)) == before + entry_uris(d));
        proof { lemma_clean_all_append(before, entry_uris(d), root@); }
        match clean_entry(d, root) {
            Ok(x) => {
                let ghost done = out@;
                out.push(x);
                assert(out@.drop_last() =~= done);
                assert(out@.last() == x);
                assert(entries_uris(out@) == entries_uris(done) + entry_uris(x));
            },
            Err(e) => {
                proof {
                    lemma_entries_uris_append(orig.take(i + 1), orig.skip(i + 1));
                    assert(orig.take(i + 1) + orig.skip(i + 1) =~= orig);
                    lemma_clean_all_append(entries_uris(orig.take(i + 1)), entries_uris(orig.skip(i + 1)), root@);
                }
                return Err(e);
            },
        }
        assert(rest@ =~= orig.skip(i + 1));
        i = i + 1;
    }
    assert(orig.take(orig.len() as int) =~= orig);
    Ok(out)
}

fn clean_related_documents(v: Option<Vec<(String, ReportKind)>>, root: &str) -> (r: Result<
    Option<Vec<(String, ReportKind)>>,
    TestSetupError,
>)
    ensures
        match clean_all(opt_entries_uris(v), root@) {
            Ok(cs) => r matches Ok(x) && match (x, v) {
                (None, None) => cs.len() == 0,
                (Some(a), Some(b)) => entries_uris(a@) == cs && a@.len() == b@.len() && forall|i: int|
                    0 <= i < a@.len() ==> same_kind(#[trigger] a@[i].1, b@[i].1),
                _ => false,
            },
            Err(p) => r matches Err(e) && is_invalid_path(e, p),
        },
{
    match v {
        Some(d) => match clean_entries(d, root) {
            Ok(c) => Ok(Some(c)),
            Err(e) => Err(e),
        },
        None => {
            assert(clean_all(Seq::<Seq<char>>::empty(), root@) == Ok::<Seq<Seq<char>>, Seq<char>>(Seq::empty()));
            Ok(None)
        },
    }
}

impl DocumentDiagnosticReport {
    /// This report with the test's source directory `root` stripped from every URI it
    /// names (see `clean_uri`), in order: those in its diagnostics' related
    /// information, then each related document's URI and those in its report.
    /// Everything else is kept. The first URI that does not clean is an
    /// `InvalidFilePath` error.
    pub fn clean_response(self, root: &str) -> (r: Result<DocumentDiagnosticReport, TestSetupError>)
        ensures
            match clean_all(report_uris(self), root@) {
                Ok(cs) => r matches Ok(x) && report_uris(x) == cs && same_report(x, self),
                Err(p) => r matches Err(e) && is_invalid_path(e, p),
            },
    {
        match self {
            DocumentDiagnosticReport::Full { related_documents, result_id, items } => {
                proof {
                    lemma_clean_all_append(
                        diagnostics_uris(items@),
                        opt_entries_uris(related_documents),
                        root@,
                    );
                }
                let cleaned_items = match clean_diagnostics(items, root) {
                    Ok(c) => c,
                    Err(e) => {
                        return Err(e);
                    },
                };
                match clean_related_documents(related_documents, root) {
                    Ok(c) => Ok(DocumentDiagnosticReport::Full { related_documents: c, result_id, items: cleaned_items }),
                    Err(e) => Err(e),
                }
            },
            DocumentDiagnosticReport::Unchanged { related_documents, result_id } => {
                proof {
                    let rest = opt_entries_uris(related_documents);
                    assert(Seq::<Seq<char>>::empty() + rest =~= rest);
                }
                match clean_related_documents(related_documents, root) {
                    Ok(c) => {
                        let x = DocumentDiagnosticReport::Unchanged { related_documents: c, result_id };
                        proof {
                            let rest = opt_entries_uris(self::related_documents(x));
                            assert(Seq::<Seq<char>>::empty() + rest =~= rest);
                        }
                        Ok(x)
                    },
                    Err(e) => Err(e),
                }
            },
        }
    }
}

/// Whether `d` is the diagnostic the canned responses hold: an error over
/// (1, 2)-(3, 4) with the message `message`, described at `source`, related to
/// (5, 6)-(7, 8) of `related` with the message `related message`.
pub open spec fn is_fixture_diagnostic(d: Diagnostic, source: Seq<char>, related: Seq<char>) -> bool {
    &&& d.range == crate::fixtures::span(1, 2, 3, 4)
    &&& d.severity == Some(1i32)
    &&& d.code is None
    &&& d.code_description matches Some(h) && h@ == source
    &&& d.source is None
    &&& d.message@ == "message"@
    &&& d.tags is None
    &&& d.data is None
    &&& d.related_information matches Some(v) && v@.len() == 1 && v@[0].location.uri@ == related
        && v@[0].location.range == crate::fixtures::span(5, 6, 7, 8) && v@[0].message@ == "related message"@
}

/// Whether `items` are `count` copies of the canned diagnostic (see
/// `is_fixture_diagnostic`).
pub open spec fn fixture_items(items: Seq<Diagnostic>, count: nat, source: Seq<char>, related: Seq<char>) -> bool {
    items.len() == count && forall|i: int|
        0 <= i < items.len() ==> is_fixture_diagnostic(#[trigger] items[i], source, related)
}

/// Whether `related` holds exactly the report of `uri`: a full report, without a
/// result id, of one canned diagnostic.
pub open spec fn fixture_related(related: Option<Vec<(String, ReportKind)>>, uri: Seq<char>, source: Seq<char>) -> bool {
    match related {
        Some(v) => v@.len() == 1 && v@[0].0@ == uri && match v@[0].1 {
            ReportKind::Full { result_id, items } => result_id is None && fixture_items(items@, 1, source, source),
            _ => false,
        },
        None => false,
    }
}

/// Whether `r` is the diagnostic report numbered `n` for the document `uri`; `source`
/// is the dummy source file's path, which the diagnostics name as a URI.
pub open spec fn diagnostic_fixture(n: u32, uri: Seq<char>, source: Seq<char>, r: Option<DocumentDiagnosticReport>) -> bool {
    if n > 4 {
        r is None
    } else {
        match r {
            Some(DocumentDiagnosticReport::Full { related_documents, result_id, items }) => {
                &&& result_id is None
                &&& fixture_items(items@, if n == 0 || n == 1 { 0 } else if n == 4 { 2 } else { 1 }, source, source)
                &&& if n == 1 {
                    fixture_related(related_documents, uri, source)
                } else {
                    related_documents is None
                }
            },
            _ => false,
        }
    }
}

fn fixture_diagnostic(related: &str) -> (r: Diagnostic)
    ensures
        is_fixture_diagnostic(r, "main.dummy"@, related@),
{
    let info = RelatedInformation {
        location: Location {
            uri: String::from_str(related),
            range: Range { start: Position { line: 5, character: 6 }, end: Position { line: 7, character: 8 } },
        },
        message: String::from_str("related message"),
    };
    Diagnostic {
        range: Range { start: Position { line: 1, character: 2 }, end: Position { line: 3, character: 4 } },
        severity: Some(1),
        code: None,
        code_description: Some(crate::server::get_source_path()),
        source: None,
        message: String::from_str("message"),
        tags: None,
        related_information: Some(vec![info]),
        data: None,
    }
}

fn fixture_list(count: usize, related: &str) -> (r: Vec<Diagnostic>)
    requires
        count <= 2,
    ensures
        fixture_items(r@, count as nat, "main.dummy"@, related@),
{
    let mut v: Vec<Diagnostic> = Vec::new();
    let mut i: usize = 0;
    while i < count
        invariant
            i <= count,
            fixture_items(v@, i as nat, "main.dummy"@, related@),
        decreases count - i,
    {
        v.push(fixture_diagnostic(related));
        i = i + 1;
    }
    v
}

/// For use with `test_diagnostic`: the report numbered `response_num` for the
/// document `uri`, naming the dummy source file (see `get_source_path`).
pub fn get_diagnostic_response(response_num: u32, uri: &str) -> (r: Option<DocumentDiagnosticReport>)
    ensures
        diagnostic_fixture(response_num, uri@, "main.dummy"@, r),
{
    if response_num > 4 {
        return None;
    }
    let count: usize = if response_num == 0 || response_num == 1 { 0 } else if response_num == 4 { 2 } else { 1 };
    let source = crate::server::get_source_path();
    let items = fixture_list(count, source.as_str());
    let related_documents = if response_num == 1 {
        let related = ReportKind::Full { result_id: None, items: fixture_list(1, source.as_str()) };
        Some(vec![(String::from_str(uri), related)])
    } else {
        None
    };
    Some(DocumentDiagnosticReport::Full { related_documents, result_id: None, items })
}

/// The report for one document of the workspace.
#[derive(Debug)]
pub enum WorkspaceDocumentReport {
    Full { uri: String, version: Option<i64>, result_id: Option<String>, items: Vec<Diagnostic> },
    Unchanged { uri: String, version: Option<i64>, result_id: String },
}

/// A `workspace/diagnostic` response: a report per document.
#[derive(Debug)]
pub struct WorkspaceDiagnosticReport {
    pub items: Vec<WorkspaceDocumentReport>,
}

/// The URIs one document report names, in order: the document's, then those in its
/// diagnostics' related information.
pub open spec fn document_report_uris(r: WorkspaceDocumentReport) -> Seq<Seq<char>> {
    match r {
        WorkspaceDocumentReport::Full { uri, items, .. } => seq![uri@] + diagnostics_uris(items@),
        WorkspaceDocumentReport::Unchanged { uri, .. } => seq![uri@],
    }
}

/// The URIs that `reports` name, in order.
pub open spec fn workspace_report_uris(reports: Seq<WorkspaceDocumentReport>) -> Seq<Seq<char>>
    decreases reports.len(),
{
    if reports.len() == 0 {
        Seq::empty()
    } else {
        workspace_report_uris(reports.drop_last()) + document_report_uris(reports.last())
    }
}

/// Whether document report `x` is `r` with (possibly) other URIs.
pub open spec fn same_document_report(x: WorkspaceDocumentReport, r: WorkspaceDocumentReport) -> bool {
    match (x, r) {
        (
            WorkspaceDocumentReport::Full { version: v1, result_id: r1, items: i1, .. },
            WorkspaceDocumentReport::Full { version: v2, result_id: r2, items: i2, .. },
        ) => v1 == v2 && r1 == r2 && i1@.len() == i2@.len() && forall|k: int|
            0 <= k < i1@.len() ==> same_diagnostic(#[trigger] i1@[k], i2@[k]),
        (
            WorkspaceDocumentReport::Unchanged { version: v1, result_id: r1, .. },
            WorkspaceDocumentReport::Unchanged { version: v2, result_id: r2, .. },
        ) => v1 == v2 && r1 == r2,
        _ => false,
    }
}

fn clean_document_report(r: WorkspaceDocumentReport, root: &str) -> (out: Result<WorkspaceDocumentReport, TestSetupError>)
    ensures
        match clean_all(document_report_uris(r), root@) {
            Ok(cs) => out matches Ok(x) && document_report_uris(x) == cs && same_document_report(x, r),
            Err(p) => out matches Err(e) && is_invalid_path(e, p),
        },
{
    proof {
        let s = seq![document_report_uris(r)[0]];
        assert(s.take(0) =~= Seq::<Seq<char>>::empty());
        lemma_clean_all_step(s, root@, 0);
        assert(s.take(1) =~= s);
    }
    match r {
        WorkspaceDocumentReport::Full { uri, version, result_id, items } => {
            proof { lemma_clean_all_append(seq![uri@], diagnostics_uris(items@), root@); }
            let u = match clean_uri(uri.as_str(), root) {
                Ok(u) => u,
                Err(e) => {
                    return Err(e);
                },
            };
            let ghost cu = u@;
            match clean_diagnostics(items, root) {
                Ok(c) => {
                    let x = WorkspaceDocumentReport::Full { uri: u, version, result_id, items: c };
                    assert(document_report_uris(x) == seq![cu] + diagnostics_uris(c@));
                    Ok(x)
                },
                Err(e) => Err(e),
            }
        },
        WorkspaceDocumentReport::Unchanged { uri, version, result_id } => {
            match clean_uri(uri.as_str(), root) {
                Ok(u) => Ok(WorkspaceDocumentReport::Unchanged { uri: u, version, result_id }),
                Err(e) => Err(e),
            }
        },
    }
}

proof fn lemma_workspace_report_uris_append(a: Seq<WorkspaceDocumentReport>, b: Seq<WorkspaceDocumentReport>)
    ensures
        workspace_report_uris(a + b) == workspace_report_uris(a) + workspace_report_uris(b),
    decreases b.len(),
{
    if b.len() == 0 {
        assert(a + b =~= a);
        assert(workspace_report_uris(a) + Seq::<Seq<char>>::empty() =~= workspace_report_uris(a));
    } else {
        lemma_workspace_report_uris_append(a, b.drop_last());
        assert((a + b).drop_last() =~= a + b.drop_last());
        assert((a + b).last() == b.last());
        assert(workspace_report_uris(a) + workspace_report_uris(b.drop_last()) + document_report_uris(b.last())
            =~= workspace_report_uris(a) + (workspace_report_uris(b.drop_last()) + document_report_uris(b.last())));
    }
}

impl WorkspaceDiagnosticReport {
    /// This report with the test's source directory `root` stripped from every URI it
    /// names (see `clean_uri`): each document's URI, then those in the related
    /// information of its diagnostics, document by document. Everything else is kept.
    /// The first URI that does not clean is an `InvalidFilePath` error.
    pub fn clean_response(self, root: &str) -> (r: Result<WorkspaceDiagnosticReport, TestSetupError>)
        ensures
            match clean_all(workspace_report_uris(self.items@), root@) {
                Ok(cs) => r matches Ok(x) && workspace_report_uris(x.items@) == cs && x.items@.len()
                    == self.items@.len() && forall|i: int|
                    0 <= i < x.items@.len() ==> same_document_report(#[trigger] x.items@[i], self.items@[i]),
                Err(p) => r matches Err(e) && is_invalid_path(e, p),
            },
    {
        let ghost orig = self.items@;
        let mut rest = self.items;
        let n = rest.len();
        let mut out: Vec<WorkspaceDocumentReport> = Vec::new();
        let mut i: usize = 0;
        assert(orig.take(0) =~= Seq::<WorkspaceDocumentReport>::empty());
        assert(out@ =~= Seq::<WorkspaceDocumentReport>::empty());
        assert(orig.skip(0) =~= orig);
        assert(clean_all(Seq::<Seq<char>>::empty(), root@) == Ok::<Seq<Seq<char>>, Seq<char>>(Seq::empty()));
        while rest.len() > 0
            invariant
                orig == self.items@,
                orig.len() == n,
                i + rest@.len() == orig.len(),
                rest@ == orig.skip(i as int),
                out@.len() == i,
                forall|k: int| 0 <= k < i ==> same_document_report(#[trigger] out@[k], orig[k]),
                clean_all(workspace_report_uris(orig.take(i as int)), root@) == Ok::<Seq<Seq<char>>, Seq<char>>(
                    workspace_report_uris(out@),
                ),
            decreases rest.len(),
        {
            let d = rest.remove(0);
            assert(orig[i as int] == d);
            let ghost before = workspace_report_uris(orig.take(i as int));
            assert(orig.take(i + 1).drop_last() =~= orig.take(i as int));
            assert(orig.take(i + 1).last() == d);
            assert(workspace_report_uris(orig.take(i + 1)) == before + document_report_uris(d));
            proof { lemma_clean_all_append(before, document_report_uris(d), root@); }
            match clean_document_report(d, root) {
                Ok(x) => {
                    let ghost done = out@;
                    out.push(x);
                    assert(out@.drop_last() =~= done);
                    assert(out@.last() == x);
                    assert(workspace_report_uris(out@) == workspace_report_uris(done) + document_report_uris(x));
                },
                Err(e) => {
                    proof {
                        lemma_workspace_report_uris_append(orig.take(i + 1), orig.skip(i + 1));
                        assert(orig.take(i + 1) + orig.skip(i + 1) =~= orig);
                        lemma_clean_all_append(
                            workspace_report_uris(orig.take(i + 1)),
                            workspace_report_uris(orig.skip(i + 1)),
                            root@,
                        );
                    }
                    return Err(e);
                },
            }
            assert(rest@ =~= orig.skip(i + 1));
            i = i + 1;
        }
        assert(orig.take(orig.len() as int) =~= orig);
        Ok(WorkspaceDiagnosticReport { items: out })
    }
}

/// A `textDocument/publishDiagnostics` notification: a document's diagnostics.
#[derive(Debug)]
pub struct PublishDiagnostics {
    pub uri: String,
    pub diagnostics: Vec<Diagnostic>,
    pub version: Option<i32>,
}

/// Whether `r` is the published diagnostics numbered `n` for the document `uri`: `n`
/// canned diagnostics (up to two) related to `uri`, described at `source`.
pub open spec fn publish_fixture(n: u32, uri: Seq<char>, source: Seq<char>, r: Option<PublishDiagnostics>) -> bool {
    if n > 2 {
        r is None
    } else {
        r matches Some(p) && p.uri@ == uri && p.version is None && fixture_items(p.diagnostics@, n as nat, source, uri)
    }
}

/// For use with `test_publish_diagnostics`: the diagnostics numbered `response_num`
/// for the document `uri`.
pub fn get_publish_diagnostics_response(response_num: u32, uri: &str) -> (r: Option<PublishDiagnostics>)
    ensures
        publish_fixture(response_num, uri@, "main.dummy"@, r),
{
    if response_num > 2 {
        return None;
    }
    let diagnostics = fixture_list(response_num as usize, uri);
    Some(PublishDiagnostics { uri: String::from_str(uri), diagnostics, version: None })
}

/// Whether `r` is the full report of the document `uri` at version 0, without a
/// result id, of one canned diagnostic related to `uri`.
pub open spec fn fixture_full_document(r: WorkspaceDocumentReport, uri: Seq<char>, source: Seq<char>) -> bool {
    match r {
        WorkspaceDocumentReport::Full { uri: u, version, result_id, items } => u@ == uri && version == Some(0i64)
            && result_id is None && fixture_items(items@, 1, source, uri),
        _ => false,
    }
}

/// Whether `r` is the unchanged report of the document `uri` at version 0, with the
/// result id `result_id`.
pub open spec fn fixture_unchanged_document(r: WorkspaceDocumentReport, uri: Seq<char>) -> bool {
    match r {
        WorkspaceDocumentReport::Unchanged { uri: u, version, result_id } => u@ == uri && version == Some(0i64)
            && result_id@ == "result_id"@,
        _ => false,
    }
}

/// Whether `r` is the workspace report numbered `n` for the document `uri`: no
/// reports, the full one, the unchanged one, or both in that order.
pub open spec fn workspace_fixture(n: u32, uri: Seq<char>, source: Seq<char>, r: Option<WorkspaceDiagnosticReport>) -> bool {
    if n > 3 {
        r is None
    } else {
        r matches Some(w) && if n == 0 {
            w.items@.len() == 0
        } else if n == 1 {
            w.items@.len() == 1 && fixture_full_document(w.items@[0], uri, source)
        } else if n == 2 {
            w.items@.len() == 1 && fixture_unchanged_document(w.items@[0], uri)
        } else {
            w.items@.len() == 2 && fixture_full_document(w.items@[0], uri, source) && fixture_unchanged_document(
                w.items@[1],
                uri,
            )
        }
    }
}

fn full_document(uri: &str) -> (r: WorkspaceDocumentReport)
    ensures
        fixture_full_document(r, uri@, "main.dummy"@),
{
    WorkspaceDocumentReport::Full { uri: String::from_str(uri), version: Some(0), result_id: None, items: fixture_list(1, uri) }
}

fn unchanged_document(uri: &str) -> (r: WorkspaceDocumentReport)
    ensures
        fixture_unchanged_document(r, uri@),
{
    WorkspaceDocumentReport::Unchanged { uri: String::from_str(uri), version: Some(0), result_id: String::from_str("result_id") }
}

/// For use with `test_workspace_diagnostic`: the report numbered `response_num` for
/// the document `uri`.
pub fn get_workspace_diagnostics_response(response_num: u32, uri: &str) -> (r: Option<WorkspaceDiagnosticReport>)
    ensures
        workspace_fixture(response_num, uri@, "main.dummy"@, r),
{
    if response_num == 0 {
        Some(WorkspaceDiagnosticReport { items: Vec::new() })
    } else if response_num == 1 {
        Some(WorkspaceDiagnosticReport { items: vec![full_document(uri)] })
    } else if response_num == 2 {
        Some(WorkspaceDiagnosticReport { items: vec![unchanged_document(uri)] })
    } else if response_num == 3 {
        Some(WorkspaceDiagnosticReport { items: vec![full_document(uri), unchanged_document(uri)] })
    } else {
        None
    }
}

} // verus!
