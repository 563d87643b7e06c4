//! Paths, held as strings and joined as on Unix.
use vstd::prelude::*;

verus! {

/// `base` joined with `rel`: an absolute `rel` replaces `base`; otherwise a
/// separator is put between them unless `base` is empty or already ends
/// with one.
pub open spec fn join_path(base: Seq<char>, rel: Seq<char>) -> Seq<char> {
    if rel.len() > 0 && rel[0] == '/' {
        rel
    } else if base.len() == 0 {
        rel
    } else if base.last() == '/' {
        base + rel
    } else {
        base + seq!['/'] + rel
    }
}

/// Joins two paths.
pub fn join(base: &str, rel: &str) -> (res: String)
    ensures
        res@ == join_path(base@, rel@),
{
    let b = crate::text::chars_of(base);
    let r = crate::text::chars_of(rel);
    if r.len() > 0 && r[0] == '/' {
        return String::from_str(rel);
    }
    if b.len() == 0 {
        return String::from_str(rel);
    }
    let mut res = String::from_str(base);
    if b[b.len() - 1] != '/' {
        crate::text::push_char(&mut res, '/');
    }
    res.append(rel);
    res
}

/// Index of the last occurrence of a character.
pub open spec fn last_index_of(s: Seq<char>, c: char) -> Option<int>
    decreases s.len(),
{
    if s.len() == 0 {
        None
    } else if s.last() == c {
        Some(s.len() - 1)
    } else {
        last_index_of(s.drop_last(), c)
    }
}

/// Where the file name of a path starts: after its last separator.
pub open spec fn file_name_start(p: Seq<char>) -> int {
    match last_index_of(p, '/') {
        Some(i) => i + 1,
        None => 0,
    }
}

/// A path is relative: it does not start with a separator.
pub open spec fn is_relative(p: Seq<char>) -> bool {
    !(p.len() > 0 && p[0] == '/')
}

/// The path with the extension of its file name set: the part of the file
/// name after its last dot is replaced when that dot does not start the
/// name, and `.` and the extension are appended otherwise.
pub open spec fn with_extension_path(p: Seq<char>, ext: Seq<char>) -> Seq<char> {
    match last_index_of(p, '.') {
        Some(d) => if d > file_name_start(p) {
            p.subrange(0, d) + seq!['.'] + ext
        } else {
            p + seq!['.'] + ext
        },
        None => p + seq!['.'] + ext,
    }
}

/// Index of the last occurrence of a character.
fn last_index(cs: &Vec<char>, c: char) -> (res: Option<usize>)
    ensures
        match res {
            Some(i) => last_index_of(cs@, c) == Some(i as int) && i < cs@.len(),
            None => last_index_of(cs@, c) is None,
        },
{
    let mut i: usize = cs.len();
    assert(cs@.subrange(0, cs@.len() as int) =~= cs@);
    while i > 0
        invariant
            i <= cs@.len(),
            last_index_of(cs@, c) == last_index_of(cs@.subrange(0, i as int), c),
        decreases i,
    {
        assert(cs@.subrange(0, i as int).drop_last() =~= cs@.subrange(0, i - 1));
        if cs[i - 1] == c {
            assert(cs@.subrange(0, i as int).last() == c);
            return Some(i - 1);
        }
        i = i - 1;
    }
    assert(cs@.subrange(0, 0) =~= Seq::<char>::empty());
    None
}

/// Whether a path is relative.
pub fn path_is_relative(p: &str) -> (res: bool)
    ensures
        res == is_relative(p@),
{
    let cs = crate::text::chars_of(p);
    !(cs.len() > 0 && cs[0] == '/')
}

/// The path with the extension of its file name set.  The path must not
/// end with a separator or a dot, and the extension must not be empty.
pub fn with_extension(p: &str, ext: &str) -> (res: String)
    requires
        p@.len() > 0,
        p@.last() != '/',
        p@.last() != '.',
        ext@.len() > 0,
    ensures
        res@ == with_extension_path(p@, ext@),
{
    let cs = crate::text::chars_of(p);
    let n = cs.len();
    let start: usize = match last_index(&cs, '/') {
        Some(i) => {
            assert(i < n);
            i + 1
        },
        None => 0,
    };
    let mut res = String::new();
    match last_index(&cs, '.') {
        Some(d) => {
            if d > start {
                let mut i: usize = 0;
                while i < d
                    invariant
                        i <= d,
                        d < cs@.len(),
                        res@ == cs@.subrange(0, i as int),
                    decreases d - i,
                {
                    crate::text::push_char(&mut res, cs[i]);
                    assert(res@ =~= cs@.subrange(0, i + 1));
                    i = i + 1;
                }
            } else {
                res.append(p);
            }
        },
        None => {
            res.append(p);
        },
    }
    crate::text::push_char(&mut res, '.');
    res.append(ext);
    res
}

} // verus!
