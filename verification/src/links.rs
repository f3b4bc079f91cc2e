//! Document links and code lenses: cleaning the test directory out of the targets
//! of links, and the canned responses of the dummy server.
use vstd::prelude::*;

use crate::edits::lemma_clean_all_append;
use crate::fixtures::span;
use crate::json::JsonValue;
use crate::responses::{clean_all, is_invalid_path, lemma_clean_all_step};
use crate::types::{Position, Range, TestSetupError};
use crate::uri::clean_uri;

verus! {

/// A link in a document: its range, the URI it points to (where resolved), a
/// tooltip, and any data in the JSON form the protocol sends.
#[derive(Debug)]
pub struct DocumentLink {
    pub range: Range,
    pub target: Option<String>,
    pub tooltip: Option<String>,
    pub data: Option<JsonValue>,
}

/// A command: its title, its identifier and any arguments in JSON form.
#[derive(Debug)]
pub struct Command {
    pub title: String,
    pub command: String,
    pub arguments: Option<Vec<JsonValue>>,
}

/// A code lens: a range with, where resolved, a command, and any data in JSON form.
#[derive(Debug)]
pub struct CodeLens {
    pub range: Range,
    pub command: Option<Command>,
    pub data: Option<JsonValue>,
}

/// The URIs a link names: its target, where it has one.
pub open spec fn link_uris(l: DocumentLink) -> Seq<Seq<char>> {
    match l.target {
        Some(t) => seq![t@],
        None => Seq::empty(),
    }
}

/// The URIs that `links` name, in order.
pub open spec fn links_uris(links: Seq<DocumentLink>) -> Seq<Seq<char>>
    decreases links.len(),
{
    if links.len() == 0 {
        Seq::empty()
    } else {
        links_uris(links.drop_last()) + link_uris(links.last())
    }
}

/// Whether link `x` is `l` with (possibly) another target URI.
pub open spec fn same_link(x: DocumentLink, l: DocumentLink) -> bool {
    &&& x.range == l.range
    &&& x.target is Some == l.target is Some
    &&& x.tooltip == l.tooltip
    &&& x.data == l.data
}

impl DocumentLink {
    /// This link with the test's source directory `root` stripped from its target
    /// (see `clean_uri`), where it has one; an `InvalidFilePath` error where the
    /// target does not clean.
    pub fn clean_response(self, root: &str) -> (r: Result<DocumentLink, TestSetupError>)
        ensures
            match clean_all(link_uris(self), root@) {
                Ok(cs) => r matches Ok(x) && link_uris(x) == cs && same_link(x, self),
                Err(p) => r matches Err(e) && is_invalid_path(e, p),
            },
    {
        match self.target {
            Some(t) => {
                proof {
                    let s = seq![t@];
                    assert(s.take(0) =~= Seq::<Seq<char>>::empty());
                    lemma_clean_all_step(s, root@, 0);
                    assert(s.take(1) =~= s);
                }
                match clean_uri(t.as_str(), root) {
                    Ok(c) => Ok(DocumentLink { range: self.range, target: Some(c), tooltip: self.tooltip, data: self.data }),
                    Err(e) => Err(e),
                }
            },
            None => {
                assert(clean_all(Seq::<Seq<char>>::empty(), root@) == Ok::<Seq<Seq<char>>, Seq<char>>(Seq::empty()));
                Ok(DocumentLink { range: self.range, target: None, tooltip: self.tooltip, data: self.data })
            },
        }
    }
}

proof fn lemma_links_uris_append(a: Seq<DocumentLink>, b: Seq<DocumentLink>)
    ensures
        links_uris(a + b) == links_uris(a) + links_uris(b),
    decreases b.len(),
{
    if b.len() == 0 {
        assert(a + b =~= a);
        assert(links_uris(a) + Seq::<Seq<char>>::empty() =~= links_uris(a));
    } else {
        lemma_links_uris_append(a, b.drop_last());
        assert((a + b).drop_last() =~= a + b.drop_last());
        assert((a + b).last() == b.last());
        assert(links_uris(a) + links_uris(b.drop_last()) + link_uris(b.last()) =~= links_uris(a) + (links_uris(
            b.drop_last(),
        ) + link_uris(b.last())));
    }
}

/// `v` with the test's source directory `root` stripped from each link's target (see
/// `DocumentLink::clean_response`), in order; the first target that does not clean is
/// an `InvalidFilePath` error.
pub fn clean_links(v: Vec<DocumentLink>, root: &str) -> (r: Result<Vec<DocumentLink>, TestSetupError>)
    ensures
        match clean_all(links_uris(v@), root@) {
            Ok(cs) => r matches Ok(out) && links_uris(out@) == cs && out@.len() == v@.len() && forall|i: int|
                0 <= i < out@.len() ==> same_link(#[trigger] out@[i], v@[i]),
            Err(p) => r matches Err(e) && is_invalid_path(e, p),
        },
{
    let ghost orig = v@;
    let mut rest = v;
    let n = rest.len();
    let mut out: Vec<DocumentLink> = Vec::new();
    let mut i: usize = 0;
    assert(orig.take(0) =~= Seq::<DocumentLink>::empty());
    assert(out@ =~= Seq::<DocumentLink>::empty());
    assert(orig.skip(0) =~= orig);
    assert(clean_all(Seq::<Seq<char>>::empty(), root@) == Ok::<Seq<Seq<char>>, Seq<char>>(Seq::empty()));
    while rest.len() > 0
        invariant
            orig == v@,
            orig.len() == n,
            i + rest@.len() == orig.len(),
            rest@ == orig.skip(i as int),
            out@.len() == i,
            forall|k: int| 0 <= k < i ==> same_link(#[trigger] out@[k], orig[k]),
            clean_all(links_uris(orig.take(i as int)), root@) == Ok::<Seq<Seq<char>>, Seq<char>>(links_uris(out@)),
        decreases rest.len(),
    {
        let d = rest.remove(0);
        assert(orig[i as int] == d);
        let ghost before = links_uris(orig.take(i as int));
        assert(orig.take(i + 1).drop_last() =~= orig.take(i as int));
        assert(orig.take(i + 1).last() == d);
        assert(links_uris(orig.take(i + 1)) == before + link_uris(d));
        proof { lemma_clean_all_append(before, link_uris(d), root@); }
        match d.clean_response(root) {
            Ok(x) => {
                let ghost done = out@;
                out.push(x);
                assert(out@.drop_last() =~= done);
                assert(out@.last() == x);
                assert(links_uris(out@) == links_uris(done) + link_uris(x));
            },
            Err(e) => {
                proof {
                    lemma_links_uris_append(orig.take(i + 1), orig.skip(i + 1));
                    assert(orig.take(i + 1) + orig.skip(i + 1) =~= orig);
                    lemma_clean_all_append(links_uris(orig.take(i + 1)), links_uris(orig.skip(i + 1)), root@);
                }
                return Err(e);
            },
        }
        assert(rest@ =~= orig.skip(i + 1));
        i = i + 1;
    }
    assert(orig.take(orig.len() as int) =~= orig);
    Ok(out)
}

/// Whether `l` is the canned link numbered `i` (1 to 3) over (1, 2)-(3, 4): without a
/// target; to `source`; or to `source` with the tooltip `tooltip`.
pub open spec fn is_fixture_link(l: DocumentLink, i: nat, source: Seq<char>) -> bool {
    &&& l.range == span(1, 2, 3, 4)
    &&& l.data is None
    &&& if i == 1 {
        l.target is None && l.tooltip is None
    } else {
        &&& l.target matches Some(t) && t@ == source
        &&& if i == 2 {
            l.tooltip is None
        } else {
            l.tooltip matches Some(t) && t@ == "tooltip"@
        }
    }
}

/// Which canned links the response numbered `n` lists, in order.
pub open spec fn link_numbers(n: u32) -> Option<Seq<nat>> {
    if n == 0 {
        Some(seq![])
    } else if n == 1 {
        Some(seq![1nat])
    } else if n == 2 {
        Some(seq![2nat])
    } else if n == 3 {
        Some(seq![3nat])
    } else if n == 4 {
        Some(seq![1nat, 2nat, 3nat])
    } else {
        None
    }
}

fn fixture_link(i: u32) -> (r: DocumentLink)
    requires
        1 <= i <= 3,
    ensures
        is_fixture_link(r, i as nat, "main.dummy"@),
{
    let range = Range { start: Position { line: 1, character: 2 }, end: Position { line: 3, character: 4 } };
    if i == 1 {
        DocumentLink { range, target: None, tooltip: None, data: None }
    } else if i == 2 {
        DocumentLink { range, target: Some(crate::server::get_source_path()), tooltip: None, data: None }
    } else {
        DocumentLink {
            range,
            target: Some(crate::server::get_source_path()),
            tooltip: Some(String::from_str("tooltip")),
            data: None,
        }
    }
}

/// For use with `test_document_link`: the links numbered `response_num`, pointing at
/// the dummy source file.
pub fn get_document_link_response(response_num: u32) -> (r: Option<Vec<DocumentLink>>)
    ensures
        match (r, link_numbers(response_num)) {
            (Some(v), Some(ns)) => v@.len() == ns.len() && forall|k: int|
                0 <= k < ns.len() ==> is_fixture_link(#[trigger] v@[k], ns[k], "main.dummy"@),
            (None, None) => true,
            _ => false,
        },
{
    if response_num == 0 {
        Some(Vec::new())
    } else if response_num <= 3 {
        Some(vec![fixture_link(response_num)])
    } else if response_num == 4 {
        Some(vec![fixture_link(1), fixture_link(2), fixture_link(3)])
    } else {
        None
    }
}

/// For use with `test_document_link_resolve`: the link numbered `response_num + 1`
/// (see `is_fixture_link`), up to the third.
pub fn get_document_link_resolve_response(response_num: u32) -> (r: Option<DocumentLink>)
    ensures
        match r {
            Some(l) => response_num < 3 && is_fixture_link(l, (response_num + 1) as nat, "main.dummy"@),
            None => response_num >= 3,
        },
{
    if response_num < 3 {
        Some(fixture_link(response_num + 1))
    } else {
        None
    }
}

/// Whether `c` is the canned code lens numbered `i` (1 or 2): at (1, 2)-(3, 4) without
/// a command, or at (5, 6)-(7, 8) with the command `command` titled `title`; no data.
pub open spec fn is_fixture_lens(c: CodeLens, i: nat) -> bool {
    &&& c.data is None
    &&& if i == 1 {
        c.range == span(1, 2, 3, 4) && c.command is None
    } else {
        &&& c.range == span(5, 6, 7, 8)
        &&& c.command matches Some(cmd) && cmd.title@ == "title"@ && cmd.command@ == "command"@
            && cmd.arguments is None
    }
}

fn fixture_lens(i: u32) -> (r: CodeLens)
    requires
        i == 1 || i == 2,
    ensures
        is_fixture_lens(r, i as nat),
{
    if i == 1 {
        CodeLens { range: Range { start: Position { line: 1, character: 2 }, end: Position { line: 3, character: 4 } }, command: None, data: None }
    } else {
        CodeLens {
            range: Range { start: Position { line: 5, character: 6 }, end: Position { line: 7, character: 8 } },
            command: Some(Command { title: String::from_str("title"), command: String::from_str("command"), arguments: None }),
            data: None,
        }
    }
}

/// Which canned code lenses the response numbered `n` lists, in order.
pub open spec fn lens_numbers(n: u32) -> Option<Seq<nat>> {
    if n == 0 {
        Some(seq![])
    } else if n == 1 {
        Some(seq![1nat])
    } else if n == 2 {
        Some(seq![2nat])
    } else if n == 3 {
        Some(seq![1nat, 2nat])
    } else {
        None
    }
}

/// For use with `test_code_lens`: the code lenses numbered `response_num`.
pub fn get_code_lens_response(response_num: u32) -> (r: Option<Vec<CodeLens>>)
    ensures
        match (r, lens_numbers(response_num)) {
            (Some(v), Some(ns)) => v@.len() == ns.len() && forall|k: int|
                0 <= k < ns.len() ==> is_fixture_lens(#[trigger] v@[k], ns[k]),
            (None, None) => true,
            _ => false,
        },
{
    if response_num == 0 {
        Some(Vec::new())
    } else if response_num <= 2 {
        Some(vec![fixture_lens(response_num)])
    } else if response_num == 3 {
        Some(vec![fixture_lens(1), fixture_lens(2)])
    } else {
        None
    }
}

/// For use with `test_code_lens_resolve`: the code lens numbered `response_num + 1`
/// (see `is_fixture_lens`), up to the second.
pub fn get_code_lens_resolve_response(response_num: u32) -> (r: Option<CodeLens>)
    ensures
        match r {
            Some(c) => response_num < 2 && is_fixture_lens(c, (response_num + 1) as nat),
            None => response_num >= 2,
        },
{
    if response_num < 2 {
        Some(fixture_lens(response_num + 1))
    } else {
        None
    }
}

} // verus!
