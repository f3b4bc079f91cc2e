//! POSIX path text: joining, absoluteness, file names and extensions, with the
//! meaning that `std::path` documents for Unix paths.
use vstd::prelude::*;

use crate::text::{chars_of, string_of};

verus! {

/// `p` begins at the root directory.
pub open spec fn is_absolute(p: Seq<char>) -> bool {
    p.len() > 0 && p[0] == '/'
}

/// `part` appended to `base` as `PathBuf::push` does on Unix: an absolute `part`
/// replaces `base`; otherwise a separator is added unless `base` is empty or already
/// ends in one.
pub open spec fn joined(base: Seq<char>, part: Seq<char>) -> Seq<char> {
    if is_absolute(part) {
        part
    } else if base.len() == 0 || base.last() == '/' {
        base + part
    } else {
        base + seq!['/'] + part
    }
}

/// The characters after the last `/` of `p` (all of `p` if it has none).
pub open spec fn last_segment(p: Seq<char>) -> Seq<char>
    decreases p.len(),
{
    if p.len() == 0 {
        p
    } else if p.last() == '/' {
        Seq::empty()
    } else {
        last_segment(p.drop_last()).push(p.last())
    }
}

/// The final component of `p` when it is a normal name: trailing separators and `.`
/// components are ignored, and there is none for an empty path, the root, `.` or `..`.
pub open spec fn file_name(p: Seq<char>) -> Option<Seq<char>>
    decreases p.len(),
{
    if p.len() == 0 {
        None
    } else if p.last() == '/' {
        file_name(p.drop_last())
    } else if p.last() == '.' && (p.len() == 1 || p[p.len() - 2] == '/') {
        file_name(p.drop_last())
    } else if last_segment(p) == ".."@ {
        None
    } else {
        Some(last_segment(p))
    }
}

/// The characters of `name` after its last `.`.
pub open spec fn after_last_dot(name: Seq<char>) -> Seq<char>
    decreases name.len(),
{
    if name.len() == 0 {
        name
    } else if name.last() == '.' {
        Seq::empty()
    } else {
        after_last_dot(name.drop_last()).push(name.last())
    }
}

/// The extension of a file name: the text after its last `.`, unless it has no `.`
/// or its only `.` is the first character.
pub open spec fn name_extension(name: Seq<char>) -> Option<Seq<char>> {
    let after = after_last_dot(name);
    if after.len() == name.len() || after.len() + 1 == name.len() {
        None
    } else {
        Some(after)
    }
}

/// The extension of the file that `p` names, as `Path::extension` gives it.
pub open spec fn extension(p: Seq<char>) -> Option<Seq<char>> {
    match file_name(p) {
        Some(name) => name_extension(name),
        None => None,
    }
}

proof fn lemma_last_segment_len(p: Seq<char>)
    ensures
        last_segment(p).len() <= p.len(),
        last_segment(p) == p.skip(p.len() - last_segment(p).len()),
    decreases p.len(),
{
    if p.len() > 0 && p.last() != '/' {
        lemma_last_segment_len(p.drop_last());
        assert(p.skip(p.len() - last_segment(p).len()) =~= p.drop_last().skip(
            p.drop_last().len() - last_segment(p.drop_last()).len(),
        ).push(p.last()));
    } else if p.len() > 0 {
        assert(p.skip(p.len() as int) =~= Seq::<char>::empty());
    }
}

proof fn lemma_after_last_dot_len(p: Seq<char>)
    ensures
        after_last_dot(p).len() <= p.len(),
        after_last_dot(p) == p.skip(p.len() - after_last_dot(p).len()),
    decreases p.len(),
{
    if p.len() > 0 && p.last() != '.' {
        lemma_after_last_dot_len(p.drop_last());
        assert(p.skip(p.len() - after_last_dot(p).len()) =~= p.drop_last().skip(
            p.drop_last().len() - after_last_dot(p.drop_last()).len(),
        ).push(p.last()));
    } else if p.len() > 0 {
        assert(p.skip(p.len() as int) =~= Seq::<char>::empty());
    }
}

/// The start of the text after the last occurrence of `c` in `v.take(end)`.
fn after_last(v: &Vec<char>, end: usize, c: char) -> (k: usize)
    requires
        end <= v.len(),
    ensures
        k <= end,
        c == '/' ==> v@.subrange(k as int, end as int) == last_segment(v@.take(end as int)),
        c == '.' ==> v@.subrange(k as int, end as int) == after_last_dot(v@.take(end as int)),
{
    let mut k: usize = end;
    while k > 0 && v[k - 1] != c
        invariant
            k <= end <= v.len(),
            c == '/' ==> last_segment(v@.take(end as int)) == last_segment(v@.take(k as int))
                + v@.subrange(k as int, end as int),
            c == '.' ==> after_last_dot(v@.take(end as int)) == after_last_dot(v@.take(k as int))
                + v@.subrange(k as int, end as int),
        decreases k,
    {
        let ghost t = v@.take(k as int);
        assert(t.drop_last() =~= v@.take(k - 1));
        assert(v@.subrange(k - 1, end as int) =~= seq![t.last()] + v@.subrange(k as int, end as int));
        k = k - 1;
    }
    if k > 0 {
        let ghost t = v@.take(k as int);
        assert(t.last() == c);
    } else {
        assert(v@.take(0) =~= Seq::<char>::empty());
    }
    k
}

/// Whether `p` begins at the root directory.
pub fn path_is_absolute(p: &str) -> (r: bool)
    ensures
        r == is_absolute(p@),
{
    let v = chars_of(p);
    v.len() > 0 && v[0] == '/'
}

/// `part` appended to `base` as `PathBuf::push` does on Unix.
pub fn join_path(base: &str, part: &str) -> (r: String)
    ensures
        r@ == joined(base@, part@),
{
    if path_is_absolute(part) {
        return String::from_str(part);
    }
    let b = chars_of(base);
    let mut r = String::from_str(base);
    if b.len() > 0 && b[b.len() - 1] != '/' {
        r.append("/");
        proof { reveal_strlit("/"); }
        assert("/"@ =~= seq!['/']);
    }
    r.append(part);
    assert(b@.len() > 0 ==> b@.last() == b@[b@.len() - 1]);
    r
}

/// The final normal component of `p`, if it has one (as `Path::file_name`).
pub fn path_file_name(p: &str) -> (r: Option<String>)
    ensures
        match r {
            Some(n) => file_name(p@) == Some(n@),
            None => file_name(p@) is None,
        },
{
    let v = chars_of(p);
    let mut end: usize = v.len();
    assert(v@.take(end as int) =~= p@);
    loop
        invariant
            end <= v.len(),
            file_name(v@.take(end as int)) == file_name(p@),
        decreases end,
    {
        if end == 0 {
            return None;
        }
        let ghost t = v@.take(end as int);
        assert(t.drop_last() =~= v@.take(end - 1));
        if v[end - 1] == '/' {
            end = end - 1;
        } else if v[end - 1] == '.' && (end == 1 || v[end - 2] == '/') {
            end = end - 1;
        } else {
            let k = after_last(&v, end, '/');
            let ghost seg = v@.subrange(k as int, end as int);
            if end - k == 2 && v[k] == '.' && v[k + 1] == '.' {
                assert(seg =~= ".."@) by { reveal_strlit(".."); }
                return None;
            }
            proof {
                reveal_strlit("..");
                if seg == ".."@ {
                    assert(seg[0] == '.' && seg[1] == '.');
                }
            }
            let mut name: Vec<char> = Vec::new();
            let mut i: usize = k;
            while i < end
                invariant
                    k <= i <= end <= v.len(),
                    name@ == v@.subrange(k as int, i as int),
                decreases end - i,
            {
                name.push(v[i]);
                assert(v@.subrange(k as int, i + 1) =~= v@.subrange(k as int, i as int).push(v@[i as int]));
                i = i + 1;
            }
            return Some(string_of(&name));
        }
    }
}

/// The extension of the file that `p` names, if any (as `Path::extension`).
pub fn path_extension(p: &str) -> (r: Option<String>)
    ensures
        match r {
            Some(e) => extension(p@) == Some(e@),
            None => extension(p@) is None,
        },
{
    match path_file_name(p) {
        None => None,
        Some(name) => {
            let v = chars_of(name.as_str());
            let k = after_last(&v, v.len(), '.');
            assert(v@.take(v.len() as int) =~= v@);
            proof { lemma_after_last_dot_len(v@); }
            if k == 0 || k == 1 {
                assert(after_last_dot(v@).len() == v@.len() - k);
                None
            } else {
                let mut e: Vec<char> = Vec::new();
                let mut i: usize = k;
                while i < v.len()
                    invariant
                        k <= i <= v.len(),
                        e@ == v@.subrange(k as int, i as int),
                    decreases v.len() - i,
                {
                    e.push(v[i]);
                    assert(v@.subrange(k as int, i + 1) =~= v@.subrange(k as int, i as int).push(v@[i as int]));
                    i = i + 1;
                }
                Some(string_of(&e))
            }
        },
    }
}

/// The entries of a `PATH`-style list: the text between `:` separators, in order,
/// with empty entries kept (as `std::env::split_paths` reads it on Unix).
pub open spec fn split_path_list(s: Seq<char>) -> Seq<Seq<char>>
    decreases s.len(),
{
    if s.len() == 0 {
        seq![Seq::empty()]
    } else {
        let rest = split_path_list(s.drop_last());
        if s.last() == ':' {
            rest.push(Seq::empty())
        } else {
            rest.update(rest.len() - 1, rest.last().push(s.last()))
        }
    }
}

proof fn lemma_split_path_list_nonempty(s: Seq<char>)
    ensures
        split_path_list(s).len() >= 1,
    decreases s.len(),
{
    if s.len() > 0 {
        lemma_split_path_list_nonempty(s.drop_last());
    }
}

/// The entries of the `PATH`-style list `list`.
pub fn split_paths(list: &str) -> (r: Vec<String>)
    ensures
        r@.map_values(|e: String| e@) == split_path_list(list@),
{
    let chars = chars_of(list);
    let mut out: Vec<String> = Vec::new();
    let mut cur: Vec<char> = Vec::new();
    let mut i: usize = 0;
    proof { lemma_split_path_list_nonempty(chars@.take(0)); }
    assert(chars@.take(0) =~= Seq::<char>::empty());
    while i < chars.len()
        invariant
            i <= chars@.len(),
            chars@ == list@,
            split_path_list(chars@.take(i as int)) == out@.map_values(|e: String| e@).push(cur@),
        decreases chars.len() - i,
    {
        let ghost before = chars@.take(i as int);
        assert(chars@.take(i + 1).drop_last() =~= before);
        proof { lemma_split_path_list_nonempty(before); }
        if chars[i] == ':' {
            let done = string_of(&cur);
            out.push(done);
            cur = Vec::new();
            assert(out@.map_values(|e: String| e@).push(cur@) =~= split_path_list(before).push(Seq::empty()));
        } else {
            cur.push(chars[i]);
            assert(out@.map_values(|e: String| e@).push(cur@) =~= split_path_list(before).update(
                split_path_list(before).len() - 1,
                split_path_list(before).last().push(chars@[i as int]),
            ));
        }
        i = i + 1;
    }
    assert(chars@.take(chars@.len() as int) =~= chars@);
    let last = string_of(&cur);
    out.push(last);
    assert(out@.map_values(|e: String| e@) =~= split_path_list(list@));
    out
}

/// The paths at which a server command may be found: the command itself, then the
/// command joined to each entry of the `PATH` list `path_list`, in order.
pub open spec fn executable_candidates_of(command: Seq<char>, path_list: Seq<char>) -> Seq<Seq<char>> {
    seq![command] + split_path_list(path_list).map_values(|d: Seq<char>| joined(d, command))
}

/// The paths to check, in order, to tell whether `command` is executable: the
/// command is executable when one of them is an executable file.
pub fn executable_candidates(command: &str, path_list: &str) -> (r: Vec<String>)
    ensures
        r@.map_values(|e: String| e@) == executable_candidates_of(command@, path_list@),
{
    let dirs = split_paths(path_list);
    let ghost dv = dirs@.map_values(|e: String| e@);
    let mut out: Vec<String> = Vec::new();
    out.push(String::from_str(command));
    let mut i: usize = 0;
    while i < dirs.len()
        invariant
            i <= dirs@.len(),
            dv == dirs@.map_values(|e: String| e@),
            out@.len() == i + 1,
            out@[0]@ == command@,
            forall|k: int| 0 <= k < i ==> (#[trigger] out@[k + 1])@ == joined(dirs@[k]@, command@),
        decreases dirs.len() - i,
    {
        let p = join_path(dirs[i].as_str(), command);
        out.push(p);
        i = i + 1;
    }
    let ghost ov = out@.map_values(|e: String| e@);
    let ghost want = executable_candidates_of(command@, path_list@);
    assert(dv == split_path_list(path_list@));
    assert(ov.len() == want.len());
    assert forall|k: int| 0 <= k < ov.len() implies ov[k] == want[k] by {
        if k > 0 {
            assert(out@[(k - 1) + 1] == out@[k]);
            assert(dv[k - 1] == dirs@[k - 1]@);
        }
    }
    assert(ov =~= want);
    out
}

/// How far a path component moves down the directory tree: `..` one level up, an
/// empty component or `.` nowhere, any other name one level down.
pub open spec fn component_step(c: Seq<char>) -> int {
    if c == ".."@ {
        -1
    } else if c.len() == 0 || c == "."@ {
        0
    } else {
        1
    }
}

/// Reading the relative path `p` component by component: the depth reached by its
/// finished components, the component being read, and whether the depth has gone
/// below the starting directory.
pub open spec fn climb_scan(p: Seq<char>) -> (int, Seq<char>, bool)
    decreases p.len(),
{
    if p.len() == 0 {
        (0, Seq::empty(), false)
    } else {
        let (depth, cur, out) = climb_scan(p.drop_last());
        if p.last() == '/' {
            let d = depth + component_step(cur);
            (d, Seq::empty(), out || d < 0)
        } else {
            (depth, cur.push(p.last()), out)
        }
    }
}

/// Whether the relative path `p` leaves the directory it starts from: some prefix of
/// its components, `..` going up and names going down, ends above the start.
pub open spec fn climbs_out(p: Seq<char>) -> bool {
    let (depth, cur, out) = climb_scan(p);
    out || depth + component_step(cur) < 0
}

fn step_of(cur: &Vec<char>) -> (r: i128)
    ensures
        r == component_step(cur@),
{
    proof {
        reveal_strlit("..");
        reveal_strlit(".");
    }
    if cur.len() == 2 && cur[0] == '.' && cur[1] == '.' {
        assert(cur@ =~= ".."@);
        -1
    } else if cur.len() == 0 {
        0
    } else if cur.len() == 1 && cur[0] == '.' {
        assert(cur@ =~= "."@);
        0
    } else {
        assert(cur@ != ".."@ && cur@ != "."@);
        1
    }
}

/// Whether the relative path `p` leaves the directory it starts from (see
/// `climbs_out`).
pub fn path_climbs_out(p: &str) -> (r: bool)
    ensures
        r == climbs_out(p@),
{
    let chars = chars_of(p);
    let mut depth: i128 = 0;
    let mut cur: Vec<char> = Vec::new();
    let mut out = false;
    let mut i: usize = 0;
    assert(chars@.take(0) =~= Seq::<char>::empty());
    while i < chars.len()
        invariant
            i <= chars@.len(),
            chars@ == p@,
            -(i as int) <= depth <= i,
            climb_scan(chars@.take(i as int)) == (depth as int, cur@, out),
        decreases chars.len() - i,
    {
        assert(chars@.take(i + 1).drop_last() =~= chars@.take(i as int));
        assert(chars@.take(i + 1).last() == chars@[i as int]);
        if chars[i] == '/' {
            depth = depth + step_of(&cur);
            out = out || depth < 0;
            cur = Vec::new();
            assert(cur@ =~= Seq::<char>::empty());
        } else {
            cur.push(chars[i]);
        }
        i = i + 1;
    }
    assert(chars@.take(chars@.len() as int) =~= chars@);
    out || depth + step_of(&cur) < 0
}

} // verus!
