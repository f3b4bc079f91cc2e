//! Character-level string operations used to build configuration files and messages.
use vstd::prelude::*;

verus! {

/// Appends one character to a string with std's `String::push`; the contract claims
/// what its documentation says: the old characters, then `c`.
#[verifier::external_body]
pub(crate) fn string_push(s: &mut String, c: char)
    ensures
        final(s)@ == old(s)@.push(c),
{
    s.push(c);
}

/// The characters of `s`, in order.
pub fn chars_of(s: &str) -> (r: Vec<char>)
    ensures
        r@ == s@,
{
    let mut r: Vec<char> = Vec::new();
    for c in it: s.chars()
        invariant
            r@ == it.seq().take(it.index() as int),
    {
        r.push(c);
    }
    r
}

/// A string holding exactly the characters of `v`.
pub fn string_of(v: &Vec<char>) -> (r: String)
    ensures
        r@ == v@,
{
    let mut r = String::new();
    let mut i: usize = 0;
    while i < v.len()
        invariant
            i <= v.len(),
            r@ == v@.take(i as int),
        decreases v.len() - i,
    {
        string_push(&mut r, v[i]);
        assert(v@.take(i + 1) == v@.take(i as int).push(v@[i as int]));
        i = i + 1;
    }
    assert(v@.take(v.len() as int) == v@);
    r
}


/// `s` with every non-overlapping occurrence of `from` (scanned left to right)
/// replaced by `to`; an empty `from` matches before every character and at the end.
pub open spec fn replaced(s: Seq<char>, from: Seq<char>, to: Seq<char>) -> Seq<char>
    decreases s.len(),
{
    if from.len() == 0 {
        if s.len() == 0 {
            to
        } else {
            to + seq![s[0]] + replaced(s.drop_first(), from, to)
        }
    } else if s.len() < from.len() {
        s
    } else if s.take(from.len() as int) == from {
        to + replaced(s.skip(from.len() as int), from, to)
    } else {
        seq![s[0]] + replaced(s.drop_first(), from, to)
    }
}

/// `p` occurs in `s` starting at index `i`.
pub open spec fn occurs_at(s: Seq<char>, p: Seq<char>, i: int) -> bool {
    0 <= i && i + p.len() <= s.len() && s.subrange(i, i + p.len()) == p
}

/// `p` is a prefix of `s`.
pub open spec fn is_prefix(p: Seq<char>, s: Seq<char>) -> bool {
    occurs_at(s, p, 0)
}

/// Whether `p` occurs in `v` at index `i`.
fn matches_at(v: &Vec<char>, i: usize, p: &Vec<char>) -> (r: bool)
    requires
        i <= v.len(),
    ensures
        r == occurs_at(v@, p@, i as int),
{
    if p.len() > v.len() - i {
        return false;
    }
    let mut k: usize = 0;
    while k < p.len()
        invariant
            i + p.len() <= v.len(),
            k <= p.len(),
            forall|j: int| 0 <= j < k ==> v@[i + j] == p@[j],
        decreases p.len() - k,
    {
        if v[i + k] != p[k] {
            assert(v@.subrange(i as int, i + p.len())[k as int] != p@[k as int]);
            return false;
        }
        k = k + 1;
    }
    assert(v@.subrange(i as int, i + p.len()) =~= p@);
    true
}

/// Whether the characters in `v` are exactly those of `s`.
pub fn same_chars(v: &Vec<char>, s: &str) -> (r: bool)
    ensures
        r == (v@ == s@),
{
    let w = chars_of(s);
    if v.len() != w.len() {
        return false;
    }
    let mut k: usize = 0;
    while k < v.len()
        invariant
            v.len() == w.len(),
            w@ == s@,
            k <= v.len(),
            forall|j: int| 0 <= j < k ==> v@[j] == w@[j],
        decreases v.len() - k,
    {
        if v[k] != w[k] {
            return false;
        }
        k = k + 1;
    }
    assert(v@ =~= w@);
    true
}

/// Appends all of `t` to `out`.
fn extend_chars(out: &mut Vec<char>, t: &Vec<char>)
    ensures
        final(out)@ == old(out)@ + t@,
{
    let mut k: usize = 0;
    while k < t.len()
        invariant
            k <= t.len(),
            out@ == old(out)@ + t@.take(k as int),
        decreases t.len() - k,
    {
        out.push(t[k]);
        assert(t@.take(k + 1) == t@.take(k as int).push(t@[k as int]));
        k = k + 1;
    }
    assert(t@.take(t.len() as int) == t@);
}

proof fn lemma_replaced_short(s: Seq<char>, from: Seq<char>, to: Seq<char>)
    requires
        from.len() > 0,
        s.len() < from.len(),
    ensures
        replaced(s, from, to) == s,
{
}

/// Replaces every occurrence of `from` in `s` with `to`, as `str::replace` does.
pub fn replace_all(s: &str, from: &str, to: &str) -> (r: String)
    ensures
        r@ == replaced(s@, from@, to@),
{
    let sv = chars_of(s);
    let fv = chars_of(from);
    let tv = chars_of(to);
    let ghost f = fv@;
    let ghost t = tv@;
    let mut out: Vec<char> = Vec::new();
    let mut i: usize = 0;
    assert(sv@.skip(0) =~= sv@);
    while i < sv.len()
        invariant
            i <= sv.len(),
            f == fv@,
            t == tv@,
            out@ + replaced(sv@.skip(i as int), f, t) == replaced(sv@, f, t),
        decreases sv.len() - i,
    {
        let ghost rest = sv@.skip(i as int);
        if fv.len() == 0 {
            extend_chars(&mut out, &tv);
            out.push(sv[i]);
            assert(rest.drop_first() =~= sv@.skip(i + 1));
            assert(rest[0] == sv@[i as int]);
            assert(out@ + replaced(sv@.skip(i + 1), f, t) =~= replaced(sv@, f, t));
            i = i + 1;
        } else if matches_at(&sv, i, &fv) {
            extend_chars(&mut out, &tv);
            assert(rest.take(f.len() as int) =~= sv@.subrange(i as int, i + f.len()));
            assert(rest.skip(f.len() as int) =~= sv@.skip(i + f.len()));
            assert(out@ + replaced(sv@.skip(i + f.len()), f, t) =~= replaced(sv@, f, t));
            i = i + fv.len();
        } else {
            out.push(sv[i]);
            assert(rest.drop_first() =~= sv@.skip(i + 1));
            proof {
                if rest.len() < f.len() {
                    lemma_replaced_short(rest, f, t);
                    lemma_replaced_short(rest.drop_first(), f, t);
                } else {
                    assert(rest.take(f.len() as int) =~= sv@.subrange(i as int, i + f.len()));
                }
            }
            assert(out@ + replaced(sv@.skip(i + 1), f, t) =~= replaced(sv@, f, t));
            i = i + 1;
        }
    }
    assert(sv@.skip(i as int) =~= Seq::<char>::empty());
    if fv.len() == 0 {
        extend_chars(&mut out, &tv);
    }
    assert(out@ =~= replaced(sv@, f, t));
    string_of(&out)
}


/// The character for decimal digit `d` (`0` for anything that is not a digit).
pub open spec fn digit_char(d: nat) -> char {
    if d == 1 { '1' } else if d == 2 { '2' } else if d == 3 { '3' } else if d == 4 { '4' }
    else if d == 5 { '5' } else if d == 6 { '6' } else if d == 7 { '7' } else if d == 8 { '8' }
    else if d == 9 { '9' } else { '0' }
}

/// The decimal rendering of `n`, without leading zeros.
pub open spec fn decimal(n: nat) -> Seq<char>
    decreases n,
{
    if n < 10 {
        seq![digit_char(n)]
    } else {
        decimal(n / 10).push(digit_char(n % 10))
    }
}

/// `s` written `n` times in a row.
pub open spec fn repeated(s: Seq<char>, n: nat) -> Seq<char>
    decreases n,
{
    if n == 0 {
        Seq::empty()
    } else {
        repeated(s, (n - 1) as nat) + s
    }
}

fn digit(d: u128) -> (c: char)
    requires
        d < 10,
    ensures
        c == digit_char(d as nat),
{
    if d == 1 { '1' } else if d == 2 { '2' } else if d == 3 { '3' } else if d == 4 { '4' }
    else if d == 5 { '5' } else if d == 6 { '6' } else if d == 7 { '7' } else if d == 8 { '8' }
    else if d == 9 { '9' } else { '0' }
}

fn push_decimal(n: u128, out: &mut String)
    ensures
        final(out)@ == old(out)@ + decimal(n as nat),
    decreases n,
{
    if n >= 10 {
        push_decimal(n / 10, out);
    }
    string_push(out, digit(n % 10));
}

/// The decimal rendering of `n`, as integers' `to_string` produces it.
pub fn decimal_string(n: u64) -> (r: String)
    ensures
        r@ == decimal(n as nat),
{
    decimal_string_wide(n as u128)
}

/// The decimal rendering of `n`, as integers' `to_string` produces it.
pub fn decimal_string_wide(n: u128) -> (r: String)
    ensures
        r@ == decimal(n as nat),
{
    let mut r = String::new();
    push_decimal(n, &mut r);
    r
}

/// `s` written `n` times in a row, as `str::repeat` produces it.
pub fn repeat_str(s: &str, n: usize) -> (r: String)
    ensures
        r@ == repeated(s@, n as nat),
{
    let mut r = String::new();
    let mut k: usize = 0;
    while k < n
        invariant
            k <= n,
            r@ == repeated(s@, k as nat),
        decreases n - k,
    {
        r.append(s);
        k = k + 1;
    }
    r
}

/// The index of the first occurrence of `p` in `s`, if any.
pub open spec fn first_occurrence(s: Seq<char>, p: Seq<char>) -> Option<int> {
    if exists|i: int| occurs_at(s, p, i) {
        Some(choose|i: int| occurs_at(s, p, i) && forall|j: int| 0 <= j < i ==> !occurs_at(s, p, j))
    } else {
        None
    }
}

pub proof fn lemma_first_occurrence(s: Seq<char>, p: Seq<char>, i: int)
    requires
        occurs_at(s, p, i),
        forall|j: int| 0 <= j < i ==> !occurs_at(s, p, j),
    ensures
        first_occurrence(s, p) == Some(i),
{
    let k = choose|k: int| occurs_at(s, p, k) && forall|j: int| 0 <= j < k ==> !occurs_at(s, p, j);
    assert(occurs_at(s, p, k) && forall|j: int| 0 <= j < k ==> !occurs_at(s, p, j));
    if k < i {
        assert(!occurs_at(s, p, k));
    }
    if i < k {
        assert(!occurs_at(s, p, i));
    }
}

/// The character index of the first occurrence of `p` in `v`, as `str::find` locates it.
pub fn find_chars(v: &Vec<char>, p: &Vec<char>) -> (r: Option<usize>)
    ensures
        match r {
            Some(i) => first_occurrence(v@, p@) == Some(i as int) && occurs_at(v@, p@, i as int),
            None => first_occurrence(v@, p@) is None,
        },
{
    let mut i: usize = 0;
    while i < v.len()
        invariant
            i <= v.len(),
            forall|j: int| 0 <= j < i ==> !occurs_at(v@, p@, j),
        decreases v.len() - i,
    {
        if matches_at(v, i, p) {
            proof { lemma_first_occurrence(v@, p@, i as int); }
            return Some(i);
        }
        i = i + 1;
    }
    if matches_at(v, i, p) {
        proof { lemma_first_occurrence(v@, p@, i as int); }
        return Some(i);
    }
    assert(forall|j: int| !occurs_at(v@, p@, j)) by {
        assert forall|j: int| !occurs_at(v@, p@, j) by {
            if 0 <= j <= i {
            } else if j > i {
                assert(j + p@.len() > v@.len());
            }
        }
    }
    None
}

/// `s` without its prefix `p`, if `p` is a prefix of `s` (as `str::strip_prefix`).
pub fn strip_prefix_str(s: &str, p: &str) -> (r: Option<String>)
    ensures
        match r {
            Some(rest) => is_prefix(p@, s@) && rest@ == s@.skip(p@.len() as int),
            None => !is_prefix(p@, s@),
        },
{
    let sv = chars_of(s);
    let pv = chars_of(p);
    if matches_at(&sv, 0, &pv) {
        let mut rest: Vec<char> = Vec::new();
        let mut k: usize = pv.len();
        while k < sv.len()
            invariant
                pv.len() <= k <= sv.len(),
                rest@ == sv@.subrange(pv.len() as int, k as int),
            decreases sv.len() - k,
        {
            rest.push(sv[k]);
            assert(sv@.subrange(pv.len() as int, k + 1) == sv@.subrange(pv.len() as int, k as int).push(sv@[k as int]));
            k = k + 1;
        }
        assert(rest@ =~= sv@.skip(pv.len() as int));
        Some(string_of(&rest))
    } else {
        None
    }
}

} // verus!
