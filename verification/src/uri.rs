//! URIs in test results: stripping the test directory from the paths a server
//! reports, and finding a test's directory from a URI inside it.
use vstd::prelude::*;

use crate::lua::test_root;
use crate::text::decimal;
use crate::path::{is_absolute, joined};
use crate::text::{
    chars_of, find_chars, first_occurrence, is_prefix, lemma_first_occurrence, occurs_at, strip_prefix_str, string_of,
};
use crate::types::TestSetupError;

verus! {

/// The path component of the URI written `text`, as lsp-types parses it (`None` where
/// `text` is not a URI). The path is kept as written, percent-encoding included.
pub uninterp spec fn uri_path_of(text: Seq<char>) -> Option<Seq<char>>;

/// The characters of an optional string.
pub open spec fn opt_chars(s: Option<String>) -> Option<Seq<char>> {
    match s {
        Some(t) => Some(t@),
        None => None,
    }
}

/// Parses `text` with `lsp_types::Uri::from_str` and gives the URI's path as its
/// `Display` writes it, or `None` where parsing fails. The contract names the result.
/// The parser (fluent-uri's) panics on text longer than `i32::MAX` bytes, so such text
/// is left out.
#[verifier::external_body]
pub(crate) fn parse_uri_path(text: &str) -> (r: Option<String>)
    requires
        utf8_len(text@) <= i32::MAX,
    ensures
        opt_chars(r) == uri_path_of(text@),
{
    match text.parse::<lsp_types::Uri>() {
        Ok(u) => Some(u.path().to_string()),
        Err(_) => None,
    }
}

/// The number of bytes UTF-8 takes for `s`.
pub open spec fn utf8_len(s: Seq<char>) -> nat {
    byte_offset(s, s.len() as int)
}

/// The path of the URI written `text`, as lsp-types parses it; `None` where `text` is
/// not a URI, and also where it is longer than `i32::MAX` bytes, which the parser
/// cannot take.
pub open spec fn parsed_uri_path(text: Seq<char>) -> Option<Seq<char>> {
    if utf8_len(text) <= i32::MAX {
        uri_path_of(text)
    } else {
        None
    }
}

/// The path of the URI written `text` (see `parsed_uri_path`).
pub fn parse_uri(text: &str) -> (r: Option<String>)
    ensures
        opt_chars(r) == parsed_uri_path(text@),
{
    let chars = chars_of(text);
    let bytes = byte_offset_of(&chars, chars.len());
    if bytes > 2147483647 {
        None
    } else {
        parse_uri_path(text)
    }
}

/// The text a cleaned URI is parsed from: the URI's path without the prefix `root`,
/// where it has that prefix.
pub open spec fn cleaned_path(path: Seq<char>, root: Seq<char>) -> Seq<char> {
    if is_prefix(root, path) {
        path.skip(root.len() as int)
    } else {
        path
    }
}

/// The cleaned text of the URI `uri` (see `clean_uri`), or the text that an
/// `InvalidFilePath` error names.
pub open spec fn clean_text(uri: Seq<char>, root: Seq<char>) -> Result<Seq<char>, Seq<char>> {
    match parsed_uri_path(uri) {
        None => Err(uri),
        Some(path) => match parsed_uri_path(cleaned_path(path, root)) {
            Some(_) => Ok(cleaned_path(path, root)),
            None => Err(path),
        },
    }
}

/// Strips the test's source directory `root` from the path of the URI `uri`, so
/// that `file:///tmp/lspresso-shot/<test-id>/src/foo.rs` becomes `foo.rs`; the
/// result is the text of the new URI. A path that does not parse as a URI again is
/// an `InvalidFilePath` error naming the path (naming `uri` where `uri` itself is
/// not a URI). Text longer than `i32::MAX` bytes, on which lsp-types' parser panics,
/// counts as no URI.
pub fn clean_uri(uri: &str, root: &str) -> (r: Result<String, TestSetupError>)
    ensures
        match parsed_uri_path(uri@) {
            None => r matches Err(TestSetupError::InvalidFilePath(p)) && p@ == uri@,
            Some(path) => match parsed_uri_path(cleaned_path(path, root@)) {
                Some(_) => r matches Ok(s) && s@ == cleaned_path(path, root@),
                None => r matches Err(TestSetupError::InvalidFilePath(p)) && p@ == path,
            },
        },
        match clean_text(uri@, root@) {
            Ok(c) => r matches Ok(s) && s@ == c,
            Err(p) => r matches Err(TestSetupError::InvalidFilePath(q)) && q@ == p,
        },
{
    let path = match parse_uri(uri) {
        Some(p) => p,
        None => {
            return Err(TestSetupError::InvalidFilePath(String::from_str(uri)));
        },
    };
    let cleaned = match strip_prefix_str(path.as_str(), root) {
        Some(rest) => rest,
        None => path.clone(),
    };
    match parse_uri(cleaned.as_str()) {
        Some(_) => Ok(cleaned),
        None => Err(TestSetupError::InvalidFilePath(path)),
    }
}

/// The number of bytes UTF-8 takes for `c`.
pub open spec fn utf8_width(c: char) -> nat {
    if (c as u32) < 0x80 {
        1
    } else if (c as u32) < 0x800 {
        2
    } else if (c as u32) < 0x10000 {
        3
    } else {
        4
    }
}

/// The byte offset in UTF-8 of the character at index `i` of `s`.
#[verifier::opaque]
pub open spec fn byte_offset(s: Seq<char>, i: int) -> nat
    decreases i,
{
    if i <= 0 || i > s.len() {
        0
    } else {
        byte_offset(s, i - 1) + utf8_width(s[i - 1])
    }
}

/// `c` is one of the ASCII digits `0` to `9`.
pub open spec fn is_ascii_digit(c: char) -> bool {
    48 <= (c as u32) <= 57
}

/// The index of the first character of `s` at or after index `from` that is not an
/// ASCII digit.
#[verifier::opaque]
pub open spec fn first_non_digit(s: Seq<char>, from: int) -> Option<int>
    decreases s.len() - from,
{
    if from < 0 || from >= s.len() {
        None
    } else if !is_ascii_digit(s[from]) {
        Some(from)
    } else {
        first_non_digit(s, from + 1)
    }
}

/// The name of the directory under the system's temporary directory that holds all
/// test directories.
pub open spec fn test_dir_marker() -> Seq<char> {
    "lspresso-shot"@
}

/// The test directory that `path` lies in: `path` up to the end of the run of digits
/// that follows the first `lspresso-shot` and one separator. The search finds the
/// marker's byte offset and then skips that many characters (the two agree on ASCII
/// paths), so a path with wide characters before the marker is read further along.
/// There is none where the marker does not occur or the digits run to the end.
pub open spec fn root_test_path(path: Seq<char>) -> Option<Seq<char>> {
    match first_occurrence(path, test_dir_marker()) {
        None => None,
        Some(i) => match first_non_digit(path, (byte_offset(path, i) + test_dir_marker().len() + 1) as int) {
            None => None,
            Some(e) => Some(path.take(e)),
        },
    }
}

fn char_width(c: char) -> (r: u128)
    ensures
        r == utf8_width(c),
{
    let n = c as u32;
    if n < 0x80 {
        1
    } else if n < 0x800 {
        2
    } else if n < 0x10000 {
        3
    } else {
        4
    }
}

proof fn lemma_first_non_digit_none(s: Seq<char>, from: int)
    requires
        from >= 0,
        forall|k: int| from <= k < s.len() ==> is_ascii_digit(#[trigger] s[k]),
    ensures
        first_non_digit(s, from) is None,
    decreases s.len() - from,
{
    reveal(first_non_digit);
    if from < s.len() {
        lemma_first_non_digit_none(s, from + 1);
    }
}

proof fn lemma_first_non_digit_at(s: Seq<char>, from: int, e: int)
    requires
        0 <= from <= e < s.len(),
        !is_ascii_digit(s[e]),
        forall|k: int| from <= k < e ==> is_ascii_digit(#[trigger] s[k]),
    ensures
        first_non_digit(s, from) == Some(e),
    decreases e - from,
{
    reveal(first_non_digit);
    if from < e {
        lemma_first_non_digit_at(s, from + 1, e);
    }
}

fn byte_offset_of(chars: &Vec<char>, i: usize) -> (r: u128)
    requires
        i <= chars@.len(),
    ensures
        r == byte_offset(chars@, i as int),
        r <= 4 * i,
{
    let mut offset: u128 = 0;
    let mut k: usize = 0;
    proof { reveal(byte_offset); }
    while k < i
        invariant
            k <= i <= chars@.len(),
            offset == byte_offset(chars@, k as int),
            offset <= 4 * k,
        decreases i - k,
    {
        proof { reveal(byte_offset); }
        offset = offset + char_width(chars[k]);
        k = k + 1;
    }
    offset
}

fn first_non_digit_from(chars: &Vec<char>, from: usize) -> (r: Option<usize>)
    ensures
        match r {
            Some(e) => first_non_digit(chars@, from as int) == Some(e as int) && e < chars@.len(),
            None => first_non_digit(chars@, from as int) is None,
        },
{
    let mut e: usize = from;
    while e < chars.len()
        invariant
            from <= e,
            forall|m: int| from <= m < e ==> is_ascii_digit(#[trigger] chars@[m]),
        decreases chars.len() - e,
    {
        let n = chars[e] as u32;
        if !(48 <= n && n <= 57) {
            proof { lemma_first_non_digit_at(chars@, from as int, e as int); }
            return Some(e);
        }
        e = e + 1;
    }
    proof { lemma_first_non_digit_none(chars@, from as int); }
    None
}

fn prefix_string(chars: &Vec<char>, e: usize) -> (r: String)
    requires
        e <= chars@.len(),
    ensures
        r@ == chars@.take(e as int),
{
    let mut out: Vec<char> = Vec::new();
    let mut m: usize = 0;
    while m < e
        invariant
            m <= e <= chars@.len(),
            out@ == chars@.take(m as int),
        decreases e - m,
    {
        out.push(chars[m]);
        assert(chars@.take(m + 1) == chars@.take(m as int).push(chars@[m as int]));
        m = m + 1;
    }
    string_of(&out)
}

proof fn lemma_byte_offset_ascii(s: Seq<char>, n: int)
    requires
        0 <= n <= s.len(),
        forall|k: int| 0 <= k < n ==> (#[trigger] s[k] as u32) < 0x80,
    ensures
        byte_offset(s, n) == n,
    decreases n,
{
    reveal(byte_offset);
    if n > 0 {
        lemma_byte_offset_ascii(s, n - 1);
    }
}

proof fn lemma_name_first(tmp_dir: Seq<char>, m: Seq<char>, rest: Seq<char>)
    requires
        m.len() > 0,
        forall|k: int| 0 <= k < m.len() ==> #[trigger] m[k] != '/' && (m[k] as u32) < 0x80,
        forall|k: int| 0 <= k < tmp_dir.len() ==> (#[trigger] tmp_dir[k] as u32) < 0x80,
        forall|k: int| !occurs_at(tmp_dir, m, k),
    ensures
        joined(tmp_dir, m).len() >= m.len(),
        first_occurrence(joined(tmp_dir, m) + rest, m) == Some(joined(tmp_dir, m).len() - m.len()),
        byte_offset(joined(tmp_dir, m) + rest, joined(tmp_dir, m).len() - m.len()) == joined(tmp_dir, m).len()
            - m.len(),
        joined(tmp_dir, m).last() == m.last(),
{
    let sep: Seq<char> = if tmp_dir.len() == 0 || tmp_dir.last() == '/' { Seq::empty() } else { seq!['/'] };
    let base = joined(tmp_dir, m);
    assert(!is_absolute(m));
    assert(base == tmp_dir + sep + m);
    let path = base + rest;
    let i0: int = (tmp_dir.len() + sep.len()) as int;
    let l = m.len() as int;
    assert(path.subrange(i0, i0 + l) =~= m);
    assert forall|j: int| 0 <= j < i0 implies !occurs_at(path, m, j) by {
        if j + l <= tmp_dir.len() {
            assert(path.subrange(j, j + l) =~= tmp_dir.subrange(j, j + l));
            assert(!occurs_at(tmp_dir, m, j));
        } else if occurs_at(path, m, j) {
            let slash: int = if sep.len() == 1 { tmp_dir.len() as int } else { tmp_dir.len() - 1 };
            assert(path[slash] == '/');
            assert(path.subrange(j, j + l)[slash - j] == path[slash]);
            assert(m[slash - j] != '/');
        }
    }
    lemma_first_occurrence(path, m, i0);
    assert forall|k: int| 0 <= k < i0 implies (#[trigger] path[k] as u32) < 0x80 by {
        if k < tmp_dir.len() {
            assert(path[k] == tmp_dir[k]);
        } else {
            assert(path[k] == '/');
        }
    }
    lemma_byte_offset_ascii(path, i0);
}

proof fn lemma_marker_first(tmp_dir: Seq<char>, rest: Seq<char>)
    requires
        forall|k: int| 0 <= k < tmp_dir.len() ==> (#[trigger] tmp_dir[k] as u32) < 0x80,
        forall|k: int| !occurs_at(tmp_dir, test_dir_marker(), k),
    ensures
        joined(tmp_dir, test_dir_marker()).len() >= 13,
        first_occurrence(joined(tmp_dir, test_dir_marker()) + rest, test_dir_marker()) == Some(
            joined(tmp_dir, test_dir_marker()).len() - 13,
        ),
        byte_offset(joined(tmp_dir, test_dir_marker()) + rest, joined(tmp_dir, test_dir_marker()).len() - 13)
            == joined(tmp_dir, test_dir_marker()).len() - 13,
        joined(tmp_dir, test_dir_marker()).last() == 't',
{
    let m = test_dir_marker();
    assert(m.len() == 13 && m.last() == 't' && forall|k: int| 0 <= k < m.len() ==> #[trigger] m[k] != '/' && (m[k] as u32) < 0x80) by {
        reveal_strlit("lspresso-shot");
    }
    lemma_name_first(tmp_dir, m, rest);
}

/// The test directory found from the path of a test's source file is the test's own
/// directory: for a temporary directory `tmp_dir` written in ASCII and not holding
/// `lspresso-shot`, a test id of ASCII digits (as test ids are made) and a relative
/// file path `file`, the path `<tmp_dir>/lspresso-shot/<test_id>/src/<file>` yields
/// `<tmp_dir>/lspresso-shot/<test_id>`.
#[verifier::rlimit(80)]
pub proof fn lemma_root_of_source_file(tmp_dir: Seq<char>, test_id: Seq<char>, file: Seq<char>)
    requires
        forall|k: int| 0 <= k < tmp_dir.len() ==> (#[trigger] tmp_dir[k] as u32) < 0x80,
        forall|k: int| !occurs_at(tmp_dir, test_dir_marker(), k),
        test_id.len() > 0,
        forall|k: int| 0 <= k < test_id.len() ==> is_ascii_digit(#[trigger] test_id[k]),
        !is_absolute(file),
    ensures
        root_test_path(joined(joined(test_root(tmp_dir, test_id), "src"@), file)) == Some(
            test_root(tmp_dir, test_id),
        ),
{
    reveal_strlit("lspresso-shot");
    reveal_strlit("src");
    let m = test_dir_marker();
    let base = joined(tmp_dir, m);
    let rest = seq!['/'] + test_id + seq!['/'] + "src"@ + seq!['/'] + file;
    lemma_marker_first(tmp_dir, rest);
    let root = test_root(tmp_dir, test_id);
    assert(!is_absolute(test_id));
    assert(root == base + seq!['/'] + test_id);
    let src = joined(root, "src"@);
    assert(root.last() == test_id.last());
    assert(src == root + seq!['/'] + "src"@);
    let path = joined(src, file);
    assert(src.last() == 'c');
    assert(path =~= base + rest);
    let i0: int = base.len() - 13;
    let start: int = i0 + 13 + 1;
    let e = root.len() as int;
    assert(e == start + test_id.len());
    assert forall|k: int| start <= k < e implies is_ascii_digit(#[trigger] path[k]) by {
        assert(path[k] == test_id[k - start]);
    }
    assert(path[e] == '/');
    lemma_first_non_digit_at(path, start, e);
    assert(path.take(e) =~= root);
}

proof fn lemma_decimal_digits(n: nat)
    ensures
        decimal(n).len() > 0,
        forall|k: int| 0 <= k < decimal(n).len() ==> is_ascii_digit(#[trigger] decimal(n)[k]),
    decreases n,
{
    if n >= 10 {
        lemma_decimal_digits(n / 10);
        let d = decimal(n / 10);
        assert forall|k: int| 0 <= k < decimal(n).len() implies is_ascii_digit(#[trigger] decimal(n)[k]) by {
            if k < d.len() {
                assert(decimal(n)[k] == d[k]);
            }
        }
    }
}

/// The test server finds the very directory a test was given: for a test whose id is
/// the decimal of `n` (as test ids are made), a temporary directory `tmp_dir` written
/// in ASCII and not holding `lspresso-shot`, and any URI whose path (as lsp-types
/// parses it) is that of the test's source file `file`, the root found from the URI
/// is `<tmp_dir>/lspresso-shot/<id>`.
pub proof fn lemma_test_directory_round_trip(tmp_dir: Seq<char>, n: nat, file: Seq<char>, uri: Seq<char>)
    requires
        forall|k: int| 0 <= k < tmp_dir.len() ==> (#[trigger] tmp_dir[k] as u32) < 0x80,
        forall|k: int| !occurs_at(tmp_dir, test_dir_marker(), k),
        !is_absolute(file),
        parsed_uri_path(uri) == Some(joined(joined(test_root(tmp_dir, decimal(n)), "src"@), file)),
    ensures
        (match parsed_uri_path(uri) {
            Some(path) => root_test_path(path),
            None => None,
        }) == Some(test_root(tmp_dir, decimal(n))),
{
    lemma_decimal_digits(n);
    lemma_root_of_source_file(tmp_dir, decimal(n), file);
}

/// The test directory that the path `path` lies in (see `root_test_path`).
#[verifier::rlimit(60)]
pub fn root_test_path_of(path: &str) -> (r: Option<String>)
    ensures
        opt_chars(r) == root_test_path(path@),
{
    let chars = chars_of(path);
    let marker = chars_of("lspresso-shot");
    let i = match find_chars(&chars, &marker) {
        Some(i) => i,
        None => {
            return None;
        },
    };
    let offset = byte_offset_of(&chars, i);
    let start: u128 = offset + marker.len() as u128 + 1;
    assert(marker@ == test_dir_marker());
    if start >= chars.len() as u128 {
        proof { lemma_first_non_digit_none(chars@, start as int); }
        return None;
    }
    match first_non_digit_from(&chars, start as usize) {
        Some(e) => Some(prefix_string(&chars, e)),
        None => None,
    }
}

/// The test directory that the file with URI `uri` lies in, such as
/// `/tmp/lspresso-shot/5382805252853875543` for
/// `file:///tmp/lspresso-shot/5382805252853875543/src/main.dummy` (see
/// `root_test_path`); none where `uri` is not a URI (or is longer than `i32::MAX`
/// bytes, which lsp-types' parser cannot take).
pub fn get_root_test_path(uri: &str) -> (r: Option<String>)
    ensures
        opt_chars(r) == match parsed_uri_path(uri@) {
            Some(path) => root_test_path(path),
            None => None,
        },
{
    match parse_uri(uri) {
        Some(path) => root_test_path_of(path.as_str()),
        None => None,
    }
}

} // verus!
