//! Paths held as text: their components, file name and extension, equality and joining,
//! with the meaning that `std::path::Path` gives them on Unix.

use vstd::prelude::*;
use crate::text::{chars_of, push_char};

verus! {

/// A part between slashes is kept unless it is empty or `.`.
pub open spec fn keep_part(done: Seq<Seq<char>>, part: Seq<char>) -> Seq<Seq<char>> {
    if part.len() == 0 || part == seq!['.'] {
        done
    } else {
        done.push(part)
    }
}

/// Reading a path left to right: the parts finished so far and the part in progress.
pub open spec fn scan_parts(s: Seq<char>) -> (Seq<Seq<char>>, Seq<char>)
    decreases s.len(),
{
    if s.len() == 0 {
        (Seq::empty(), Seq::empty())
    } else {
        let (done, part) = scan_parts(s.drop_last());
        if s.last() == '/' {
            (keep_part(done, part), Seq::empty())
        } else {
            (done, part.push(s.last()))
        }
    }
}

/// The named parts of a path (`..` included), without the root or a leading `.`.
pub open spec fn normal_parts(s: Seq<char>) -> Seq<Seq<char>> {
    keep_part(scan_parts(s).0, scan_parts(s).1)
}

/// The path starts with the current-directory component `.`.
pub open spec fn starts_with_cur_dir(s: Seq<char>) -> bool {
    s.len() > 0 && s[0] == '.' && (s.len() == 1 || s[1] == '/')
}

/// The components of a path, as `Path::components` yields them: the root written `/`,
/// a leading current directory written `.`, the parent directory written `..`,
/// and every other component by its name.
pub open spec fn components(s: Seq<char>) -> Seq<Seq<char>> {
    if s.len() > 0 && s[0] == '/' {
        seq![seq!['/']] + normal_parts(s)
    } else if starts_with_cur_dir(s) {
        seq![seq!['.']] + normal_parts(s)
    } else {
        normal_parts(s)
    }
}

/// The final component of a path when it is a name (`Path::file_name`).
pub open spec fn file_name(s: Seq<char>) -> Option<Seq<char>> {
    let c = components(s);
    if c.len() == 0 {
        None
    } else {
        let last = c.last();
        if last == seq!['/'] || last == seq!['.'] || last == seq!['.', '.'] {
            None
        } else {
            Some(last)
        }
    }
}

/// The position of the last `.` in a name, if any.
pub open spec fn last_dot(name: Seq<char>) -> Option<int>
    decreases name.len(),
{
    if name.len() == 0 {
        None
    } else if name.last() == '.' {
        Some(name.len() - 1)
    } else {
        last_dot(name.drop_last())
    }
}

/// The text after the last `.` of the file name, when that `.` is not its first
/// character (`Path::extension`).
pub open spec fn extension(s: Seq<char>) -> Option<Seq<char>> {
    match file_name(s) {
        None => None,
        Some(name) => match last_dot(name) {
            Some(i) if i > 0 => Some(name.subrange(i + 1, name.len() as int)),
            _ => None,
        },
    }
}

/// `last_dot` finds the last `.`.
pub proof fn lemma_last_dot(name: Seq<char>)
    ensures
        match last_dot(name) {
            None => forall|k: int| 0 <= k < name.len() ==> name[k] != '.',
            Some(i) => 0 <= i < name.len() && name[i] == '.' && forall|k: int|
                i < k < name.len() ==> name[k] != '.',
        },
    decreases name.len(),
{
    if name.len() > 0 && name.last() != '.' {
        lemma_last_dot(name.drop_last());
        assert forall|k: int| 0 <= k < name.len() - 1 implies name[k] == name.drop_last()[k] by {}
    }
}

/// The character sequences held by a vector of character vectors.
pub open spec fn parts_view(v: Seq<Vec<char>>) -> Seq<Seq<char>> {
    Seq::new(v.len(), |i: int| v[i]@)
}

/// The characters of `v` as a string.
pub fn string_from_chars(v: &Vec<char>) -> (s: String)
    ensures
        s@ == v@,
{
    let mut s = String::new();
    let mut i: usize = 0;
    while i < v.len()
        invariant
            i <= v@.len(),
            s@ == v@.take(i as int),
        decreases v@.len() - i,
    {
        push_char(&mut s, v[i]);
        i = i + 1;
        assert(s@ =~= v@.take(i as int));
    }
    assert(v@.take(v@.len() as int) =~= v@);
    s
}

/// Whether two character sequences are equal.
pub fn chars_equal(a: &Vec<char>, b: &Vec<char>) -> (r: bool)
    ensures
        r == (a@ == b@),
{
    if a.len() != b.len() {
        return false;
    }
    let mut i: usize = 0;
    while i < a.len()
        invariant
            a@.len() == b@.len(),
            i <= a@.len(),
            forall|k: int| 0 <= k < i ==> a@[k] == b@[k],
        decreases a@.len() - i,
    {
        if a[i] != b[i] {
            return false;
        }
        i = i + 1;
    }
    assert(a@ =~= b@);
    true
}

/// Whether two strings hold the same characters.
pub fn str_equal(a: &str, b: &str) -> (r: bool)
    ensures
        r == (a@ == b@),
{
    let va = chars_of(a);
    let vb = chars_of(b);
    chars_equal(&va, &vb)
}

/// Whether `part` is a single `.`.
fn is_dot(part: &Vec<char>) -> (r: bool)
    ensures
        r == (part@ == seq!['.']),
{
    if part.len() == 1 && part[0] == '.' {
        assert(part@ =~= seq!['.']);
        true
    } else {
        false
    }
}

/// The named parts of a path.
fn normal_parts_of(s: &Vec<char>) -> (parts: Vec<Vec<char>>)
    ensures
        parts_view(parts@) == normal_parts(s@),
{
    let mut done: Vec<Vec<char>> = Vec::new();
    let mut part: Vec<char> = Vec::new();
    let mut i: usize = 0;
    while i < s.len()
        invariant
            i <= s@.len(),
            (parts_view(done@), part@) == scan_parts(s@.take(i as int)),
        decreases s@.len() - i,
    {
        let ghost prefix = s@.take(i as int);
        let c = s[i];
        assert(s@.take(i + 1).drop_last() =~= prefix);
        assert(s@.take(i + 1).last() == c);
        if c == '/' {
            if part.len() > 0 && !is_dot(&part) {
                let ghost dv = parts_view(done@);
                done.push(part);
                assert(parts_view(done@) =~= dv.push(part@));
            }
            part = Vec::new();
        } else {
            part.push(c);
        }
        i = i + 1;
    }
    assert(s@.take(s@.len() as int) =~= s@);
    if part.len() > 0 && !is_dot(&part) {
        let ghost dv = parts_view(done@);
        done.push(part);
        assert(parts_view(done@) =~= dv.push(part@));
    }
    done
}

/// The components of a path (see `components`).
pub fn path_components(path: &str) -> (parts: Vec<Vec<char>>)
    ensures
        parts_view(parts@) == components(path@),
{
    let s = chars_of(path);
    let mut normal = normal_parts_of(&s);
    let ghost normal_view = parts_view(normal@);
    let mut parts: Vec<Vec<char>> = Vec::new();
    if s.len() > 0 && s[0] == '/' {
        let mut root: Vec<char> = Vec::new();
        root.push('/');
        parts.push(root);
    } else if s.len() > 0 && s[0] == '.' && (s.len() == 1 || s[1] == '/') {
        let mut cur: Vec<char> = Vec::new();
        cur.push('.');
        parts.push(cur);
    }
    let ghost head = parts_view(parts@);
    proof {
        if s@.len() > 0 && s@[0] == '/' {
            assert(head =~= seq![seq!['/']]);
        } else if starts_with_cur_dir(s@) {
            assert(head =~= seq![seq!['.']]);
        } else {
            assert(head =~= Seq::<Seq<char>>::empty());
        }
    }
    parts.append(&mut normal);
    assert(parts_view(parts@) =~= head + normal_view);
    parts
}

/// The final component of a path when it is a name (see `file_name`).
pub fn file_name_of(path: &str) -> (r: Option<Vec<char>>)
    ensures
        match r {
            None => file_name(path@) is None,
            Some(v) => file_name(path@) == Some(v@),
        },
{
    let mut parts = path_components(path);
    let ghost pv = parts_view(parts@);
    if parts.len() == 0 {
        return None;
    }
    let last = parts.pop().unwrap();
    assert(last@ == pv.last());
    let is_root = last.len() == 1 && last[0] == '/';
    let is_cur = last.len() == 1 && last[0] == '.';
    let is_parent = last.len() == 2 && last[0] == '.' && last[1] == '.';
    proof {
        if last@ == seq!['/'] || last@ == seq!['.'] || last@ == seq!['.', '.'] {
            assert(is_root || is_cur || is_parent);
        }
        if is_root { assert(last@ =~= seq!['/']); }
        if is_cur { assert(last@ =~= seq!['.']); }
        if is_parent { assert(last@ =~= seq!['.', '.']); }
    }
    if is_root || is_cur || is_parent {
        None
    } else {
        Some(last)
    }
}

/// The extension of a path (see `extension`).
pub fn extension_of(path: &str) -> (r: Option<Vec<char>>)
    ensures
        match r {
            None => extension(path@) is None,
            Some(v) => extension(path@) == Some(v@),
        },
{
    match file_name_of(path) {
        None => None,
        Some(name) => {
            proof { lemma_last_dot(name@); }
            let mut i: usize = name.len();
            while i > 0 && name[i - 1] != '.'
                invariant
                    i <= name@.len(),
                    forall|k: int| i <= k < name@.len() ==> name@[k] != '.',
                decreases i,
            {
                i = i - 1;
            }
            if i <= 1 {
                proof {
                    if i == 1 {
                        assert(name@[0] == '.');
                        assert(last_dot(name@) == Some(0int));
                    } else {
                        assert(last_dot(name@) is None);
                    }
                }
                return None;
            }
            let dot = i - 1;
            assert(name@[dot as int] == '.');
            assert(last_dot(name@) == Some(dot as int));
            let mut ext: Vec<char> = Vec::new();
            let mut j: usize = dot + 1;
            while j < name.len()
                invariant
                    dot + 1 <= j <= name@.len(),
                    ext@ == name@.subrange(dot + 1, j as int),
                decreases name@.len() - j,
            {
                ext.push(name[j]);
                j = j + 1;
                assert(ext@ =~= name@.subrange(dot + 1, j as int));
            }
            Some(ext)
        },
    }
}

/// Whether two paths have the same components (`Path` equality).
pub fn same_path(a: &str, b: &str) -> (r: bool)
    ensures
        r == (components(a@) == components(b@)),
{
    let pa = path_components(a);
    let pb = path_components(b);
    if pa.len() != pb.len() {
        assert(parts_view(pa@).len() != parts_view(pb@).len());
        return false;
    }
    let mut i: usize = 0;
    while i < pa.len()
        invariant
            pa@.len() == pb@.len(),
            parts_view(pa@) == components(a@),
            parts_view(pb@) == components(b@),
            i <= pa@.len(),
            forall|k: int| 0 <= k < i ==> pa@[k]@ == pb@[k]@,
        decreases pa@.len() - i,
    {
        if !chars_equal(&pa[i], &pb[i]) {
            assert(parts_view(pa@)[i as int] != parts_view(pb@)[i as int]);
            assert(components(a@)[i as int] != components(b@)[i as int]);
            return false;
        }
        i = i + 1;
    }
    assert(parts_view(pa@) =~= parts_view(pb@));
    true
}

/// `PathBuf::join` on Unix: an absolute `rel` replaces `base`; otherwise `rel` is
/// appended after a `/`, which is added unless `base` is empty or already ends in one.
pub open spec fn joined(base: Seq<char>, rel: Seq<char>) -> Seq<char> {
    if rel.len() > 0 && rel[0] == '/' {
        rel
    } else if base.len() > 0 && base.last() != '/' {
        base + seq!['/'] + rel
    } else {
        base + rel
    }
}

/// Joins `rel` onto `base` (see `joined`).
pub fn join_path(base: &str, rel: &str) -> (r: String)
    ensures
        r@ == joined(base@, rel@),
{
    let b = chars_of(base);
    let t = chars_of(rel);
    if t.len() > 0 && t[0] == '/' {
        return string_from_chars(&t);
    }
    let mut out = string_from_chars(&b);
    if b.len() > 0 && b[b.len() - 1] != '/' {
        push_char(&mut out, '/');
    }
    let ghost mid = out@;
    let mut i: usize = 0;
    while i < t.len()
        invariant
            i <= t@.len(),
            out@ == mid + t@.take(i as int),
        decreases t@.len() - i,
    {
        push_char(&mut out, t[i]);
        i = i + 1;
        assert(out@ =~= mid + t@.take(i as int));
    }
    assert(t@.take(t@.len() as int) =~= t@);
    out
}

} // verus!
