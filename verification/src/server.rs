//! The pure parts of the dummy language server used to test the harness itself:
//! where it lives, the name of its source file, and the response number that a
//! test hands it through a file.
use vstd::prelude::*;

use crate::path::{join_path, joined};
use crate::text::{chars_of, decimal, decimal_string, digit_char};
use crate::uri::{is_ascii_digit, opt_chars, parse_uri, parsed_uri_path};

verus! {

/// Returns `main.dummy`, the source file that the dummy server's tests open.
pub fn get_source_path() -> (r: String)
    ensures
        r@ == "main.dummy"@,
{
    String::from_str("main.dummy")
}

/// The path of the dummy server executable: `target/debug/test-server` under the
/// workspace directory `workspace_dir` (the parent of the server crate's directory).
pub fn get_dummy_server_path(workspace_dir: &str) -> (r: String)
    ensures
        r@ == joined(joined(joined(workspace_dir@, "target"@), "debug"@), "test-server"@),
{
    let a = join_path(workspace_dir, "target");
    let b = join_path(a.as_str(), "debug");
    join_path(b.as_str(), "test-server")
}

/// Why a response number could not be read, as `u32::from_str` reports it.
#[derive(Debug, Clone, Copy, PartialEq, Eq, Structural)]
pub enum ParseNumError {
    /// The text is empty.
    Empty,
    /// The text holds something other than an optional `+` and digits.
    InvalidDigit,
    /// The number does not fit in a `u32`.
    PosOverflow,
}

/// The value of the decimal digit `c`.
pub open spec fn digit_value(c: char) -> nat {
    ((c as u32) - 48) as nat
}

/// Reads the digits of `d` from index `i` on, onto the value `acc` read so far, as
/// `u32::from_str` does: left to right, a character that is not a digit is an
/// `InvalidDigit` and a value past `u32::MAX` a `PosOverflow`, whichever comes first.
pub open spec fn read_digits(d: Seq<char>, i: int, acc: nat) -> Result<u32, ParseNumError>
    decreases d.len() - i,
{
    if i < 0 || i >= d.len() {
        if acc <= u32::MAX {
            Ok(acc as u32)
        } else {
            Err(ParseNumError::PosOverflow)
        }
    } else if !is_ascii_digit(d[i]) {
        Err(ParseNumError::InvalidDigit)
    } else if acc * 10 + digit_value(d[i]) > u32::MAX {
        Err(ParseNumError::PosOverflow)
    } else {
        read_digits(d, i + 1, acc * 10 + digit_value(d[i]))
    }
}

/// `s` read as a `u32` the way `str::parse::<u32>` reads it: an optional leading
/// `+`, then at least one decimal digit and nothing else.
pub open spec fn parse_u32(s: Seq<char>) -> Result<u32, ParseNumError> {
    if s.len() == 0 {
        Err(ParseNumError::Empty)
    } else if s.len() == 1 && (s[0] == '+' || s[0] == '-') {
        Err(ParseNumError::InvalidDigit)
    } else if s[0] == '+' {
        read_digits(s, 1, 0)
    } else {
        read_digits(s, 0, 0)
    }
}

proof fn lemma_read_digits_step(d: Seq<char>, i: int, acc: nat)
    requires
        0 <= i < d.len(),
        is_ascii_digit(d[i]),
        acc * 10 + digit_value(d[i]) <= u32::MAX,
    ensures
        read_digits(d, i, acc) == read_digits(d, i + 1, acc * 10 + digit_value(d[i])),
{
}

/// Reads a response number from the text of the file a test wrote it to.
pub fn parse_response_num(text: &str) -> (r: Result<u32, ParseNumError>)
    ensures
        r == parse_u32(text@),
{
    let chars = chars_of(text);
    if chars.len() == 0 {
        return Err(ParseNumError::Empty);
    }
    if chars.len() == 1 && (chars[0] == '+' || chars[0] == '-') {
        return Err(ParseNumError::InvalidDigit);
    }
    let mut i: usize = if chars[0] == '+' { 1 } else { 0 };
    let ghost start = i as int;
    let mut acc: u32 = 0;
    while i < chars.len()
        invariant
            i <= chars@.len(),
            chars@ == text@,
            parse_u32(text@) == read_digits(chars@, i as int, acc as nat),
        decreases chars.len() - i,
    {
        let n = chars[i] as u32;
        if !(48 <= n && n <= 57) {
            return Err(ParseNumError::InvalidDigit);
        }
        let digit = n - 48;
        if acc > (u32::MAX - digit) / 10 {
            assert(acc * 10 + digit > u32::MAX) by (nonlinear_arith)
                requires
                    acc > (u32::MAX - digit) / 10,
                    digit <= 9,
            ;
            return Err(ParseNumError::PosOverflow);
        }
        assert(acc * 10 + digit <= u32::MAX) by (nonlinear_arith)
            requires
                acc <= (u32::MAX - digit) / 10,
                digit <= 9,
        ;
        proof { lemma_read_digits_step(chars@, i as int, acc as nat); }
        acc = acc * 10 + digit;
        i = i + 1;
    }
    Ok(acc)
}

impl ParseNumError {
    /// The message of this error, as `ParseIntError` words it.
    pub fn message(&self) -> (r: String)
        ensures
            r@ == match *self {
                ParseNumError::Empty => "cannot parse integer from empty string"@,
                ParseNumError::InvalidDigit => "invalid digit found in string"@,
                ParseNumError::PosOverflow => "number too large to fit in target type"@,
            },
    {
        match self {
            ParseNumError::Empty => String::from_str("cannot parse integer from empty string"),
            ParseNumError::InvalidDigit => String::from_str("invalid digit found in string"),
            ParseNumError::PosOverflow => String::from_str("number too large to fit in target type"),
        }
    }
}

/// The text a test writes for response number `n`: its decimal digits.
pub fn response_num_text(n: u32) -> (r: String)
    ensures
        r@ == decimal(n as nat),
{
    decimal_string(n as u64)
}

proof fn lemma_digit_char(d: nat)
    requires
        d < 10,
    ensures
        is_ascii_digit(digit_char(d)),
        digit_value(digit_char(d)) == d,
        digit_char(d) != '+',
        digit_char(d) != '-',
{
    assert(('0' as u32) == 48);
    assert(('1' as u32) == 49);
    assert(('2' as u32) == 50);
    assert(('3' as u32) == 51);
    assert(('4' as u32) == 52);
    assert(('5' as u32) == 53);
    assert(('6' as u32) == 54);
    assert(('7' as u32) == 55);
    assert(('8' as u32) == 56);
    assert(('9' as u32) == 57);
}

proof fn lemma_read_digits_push(s: Seq<char>, i: int, acc: nat, v: u32, d: nat)
    requires
        0 <= i <= s.len(),
        read_digits(s, i, acc) == Ok::<u32, ParseNumError>(v),
        d < 10,
        v * 10 + d <= u32::MAX,
    ensures
        read_digits(s.push(digit_char(d)), i, acc) == Ok::<u32, ParseNumError>((v * 10 + d) as u32),
    decreases s.len() - i,
{
    lemma_digit_char(d);
    let t = s.push(digit_char(d));
    if i == s.len() {
        assert(t[i] == digit_char(d));
        assert(acc == v);
        assert(read_digits(t, i + 1, acc * 10 + d) == Ok::<u32, ParseNumError>((v * 10 + d) as u32));
    } else {
        assert(t[i] == s[i]);
        let next = acc * 10 + digit_value(s[i]);
        lemma_read_digits_push(s, i + 1, next, v, d);
    }
}

proof fn lemma_decimal_reads_back(n: nat)
    requires
        n <= u32::MAX,
    ensures
        read_digits(decimal(n), 0, 0) == Ok::<u32, ParseNumError>(n as u32),
        decimal(n).len() > 0,
        is_ascii_digit(decimal(n)[0]),
    decreases n,
{
    if n < 10 {
        lemma_digit_char(n);
        let s = decimal(n);
        assert(s[0] == digit_char(n));
        assert(read_digits(s, 1, n) == Ok::<u32, ParseNumError>(n as u32));
    } else {
        lemma_decimal_reads_back(n / 10);
        lemma_read_digits_push(decimal(n / 10), 0, 0, (n / 10) as u32, n % 10);
        assert(decimal(n)[0] == decimal(n / 10)[0]);
    }
}

/// Reading back the text written for a response number gives that number: what
/// `response_num_text` writes, `parse_response_num` reads as the same number.
pub proof fn lemma_response_num_round_trip(n: u32)
    ensures
        parse_u32(decimal(n as nat)) == Ok::<u32, ParseNumError>(n),
{
    lemma_decimal_reads_back(n as nat);
    let s = decimal(n as nat);
    assert(s[0] != '+' && s[0] != '-') by {
        assert(is_ascii_digit(s[0]));
        assert(('+' as u32) == 43);
        assert(('-' as u32) == 45);
    }
}

/// The paths of the URIs `uris` that parse, in order.
pub open spec fn uri_paths(uris: Seq<Seq<char>>) -> Seq<Seq<char>>
    decreases uris.len(),
{
    if uris.len() == 0 {
        Seq::empty()
    } else {
        match parsed_uri_path(uris.last()) {
            Some(p) => uri_paths(uris.drop_last()).push(p),
            None => uri_paths(uris.drop_last()),
        }
    }
}

/// Where the project root may be, in the order the server tries them: the paths of
/// the workspace folders' URIs, then the path of the root URI, then the root path.
pub open spec fn root_candidates(folders: Seq<Seq<char>>, root_uri: Option<Seq<char>>, root_path: Option<
    Seq<char>,
>) -> Seq<Seq<char>> {
    uri_paths(folders) + match root_uri {
        Some(u) => uri_paths(seq![u]),
        None => Seq::empty(),
    } + match root_path {
        Some(p) => seq![p],
        None => Seq::empty(),
    }
}

/// The paths at which the server looks for the project root, in order; the first
/// that names an existing directory is the root.
pub fn project_root_candidates(folder_uris: &Vec<String>, root_uri: Option<&str>, root_path: Option<&str>) -> (r: Vec<String>)
    ensures
        r@.map_values(|s: String| s@) == root_candidates(
            folder_uris@.map_values(|s: String| s@),
            match root_uri {
                Some(u) => Some(u@),
                None => None,
            },
            match root_path {
                Some(p) => Some(p@),
                None => None,
            },
        ),
{
    let ghost fv = folder_uris@.map_values(|s: String| s@);
    let mut out: Vec<String> = Vec::new();
    let mut i: usize = 0;
    assert(fv.take(0) =~= Seq::<Seq<char>>::empty());
    while i < folder_uris.len()
        invariant
            i <= folder_uris@.len(),
            fv == folder_uris@.map_values(|s: String| s@),
            out@.map_values(|s: String| s@) == uri_paths(fv.take(i as int)),
        decreases folder_uris.len() - i,
    {
        let ghost before = out@.map_values(|s: String| s@);
        assert(fv.take(i + 1).drop_last() =~= fv.take(i as int));
        assert(fv.take(i + 1).last() == folder_uris@[i as int]@);
        match parse_uri(folder_uris[i].as_str()) {
            Some(p) => {
                out.push(p);
                assert(out@.map_values(|s: String| s@) =~= before.push(out@.last()@));
            },
            None => {},
        }
        i = i + 1;
    }
    assert(fv.take(folder_uris@.len() as int) =~= fv);
    let ghost mid = out@.map_values(|s: String| s@);
    let ghost x: Seq<Seq<char>> = match root_uri {
        Some(u) => uri_paths(seq![u@]),
        None => Seq::empty(),
    };
    match root_uri {
        Some(u) => {
            assert(seq![u@].drop_last() =~= Seq::<Seq<char>>::empty());
            assert(seq![u@].last() == u@);
            assert(uri_paths(Seq::<Seq<char>>::empty()) == Seq::<Seq<char>>::empty());
            match parse_uri(u) {
                Some(p) => {
                    out.push(p);
                    assert(out@.map_values(|s: String| s@) =~= mid + seq![out@.last()@]);
                },
                None => {
                    assert(out@.map_values(|s: String| s@) =~= mid + Seq::<Seq<char>>::empty());
                },
            }
        },
        None => {
            assert(out@.map_values(|s: String| s@) =~= mid + Seq::<Seq<char>>::empty());
        },
    }
    let ghost mid2 = out@.map_values(|s: String| s@);
    assert(mid2 == mid + x);
    match root_path {
        Some(p) => {
            out.push(String::from_str(p));
            assert(out@.map_values(|s: String| s@) =~= mid2 + seq![p@]);
        },
        None => {
            assert(out@.map_values(|s: String| s@) =~= mid2 + Seq::<Seq<char>>::empty());
        },
    }
    assert(out@.map_values(|s: String| s@) =~= uri_paths(fv) + x + match root_path {
        Some(p) => seq![p@],
        None => Seq::<Seq<char>>::empty(),
    });
    out
}

} // verus!
