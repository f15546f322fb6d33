//! File-system paths as text, with `/` between components.

use vstd::prelude::*;
use crate::text::{push_char, split_on, str_chars, string_from_range};

verus! {

/// A component that names a file or directory: not empty and not `.`.
pub open spec fn is_named_segment(seg: Seq<char>) -> bool {
    seg.len() > 0 && seg != seq!['.']
}

/// The last segment that names something.
pub open spec fn last_named(segs: Seq<Seq<char>>) -> Option<Seq<char>>
    decreases segs.len(),
{
    if segs.len() == 0 {
        None
    } else if is_named_segment(segs.last()) {
        Some(segs.last())
    } else {
        last_named(segs.drop_last())
    }
}

/// The final component of a path, unless the path ends in `..` or has
/// none: what `Path::file_name` gives.
pub open spec fn file_name(path: Seq<char>) -> Option<Seq<char>> {
    match last_named(split_on(path, '/')) {
        Some(seg) => if seg == seq!['.', '.'] {
            None
        } else {
            Some(seg)
        },
        None => None,
    }
}

/// `base` extended by `part` as `PathBuf::push` does: an absolute `part`
/// replaces `base`; otherwise a `/` separates them where `base` does not end
/// with one.
pub open spec fn join_path(base: Seq<char>, part: Seq<char>) -> Seq<char> {
    if part.len() > 0 && part[0] == '/' {
        part
    } else if base.len() > 0 && base.last() != '/' {
        base + seq!['/'] + part
    } else {
        base + part
    }
}

fn is_named_range(c: &[char], a: usize, b: usize) -> (res: bool)
    requires
        a <= b <= c@.len(),
    ensures
        res == is_named_segment(c@.subrange(a as int, b as int)),
{
    if a == b {
        return false;
    }
    if b - a == 1 && c[a] == '.' {
        assert(c@.subrange(a as int, b as int) =~= seq!['.']);
        return false;
    }
    if b - a == 1 {
        assert(c@.subrange(a as int, b as int)[0] != '.');
    }
    true
}

/// The final component of `path`, as `Path::file_name` gives it.
pub fn path_file_name(path: &str) -> (res: Option<String>)
    ensures
        match file_name(path@) {
            Some(n) => res matches Some(r) && r@ == n,
            None => res is None,
        },
{
    let c = str_chars(path);
    let n = c.len();
    let mut seg_start: usize = 0;
    let mut last: Option<(usize, usize)> = None;
    let ghost mut done: Seq<Seq<char>> = Seq::empty();
    assert(c@.take(0) =~= Seq::<char>::empty());
    assert(c@.subrange(0, 0) =~= Seq::<char>::empty());
    assert(split_on(c@.take(0), '/') =~= done.push(c@.subrange(0, 0)));
    let mut i: usize = 0;
    while i < n
        invariant
            n == c@.len(),
            seg_start <= i <= n,
            split_on(c@.take(i as int), '/') == done.push(c@.subrange(seg_start as int, i as int)),
            match last {
                Some((a, b)) => a <= b <= n && last_named(done) == Some(
                    c@.subrange(a as int, b as int),
                ),
                None => last_named(done) is None,
            },
        decreases n - i,
    {
        assert(c@.take(i + 1).drop_last() =~= c@.take(i as int));
        if c[i] == '/' {
            let ghost seg = c@.subrange(seg_start as int, i as int);
            if is_named_range(&c, seg_start, i) {
                last = Some((seg_start, i));
            }
            proof {
                assert(done.push(seg).drop_last() =~= done);
                done = done.push(seg);
                assert(c@.subrange(i + 1, i + 1) =~= Seq::<char>::empty());
            }
            seg_start = i + 1;
        } else {
            assert(c@.subrange(seg_start as int, i + 1) =~= c@.subrange(
                seg_start as int,
                i as int,
            ).push(c@[i as int]));
            proof {
                crate::text::lemma_split_on_nonempty(c@.take(i as int), '/');
            }
            assert(split_on(c@.take(i + 1), '/') =~= done.push(
                c@.subrange(seg_start as int, i + 1),
            ));
        }
        i = i + 1;
    }
    assert(c@.take(n as int) =~= c@);
    let ghost segs = split_on(c@, '/');
    assert(segs.drop_last() =~= done);
    if is_named_range(&c, seg_start, n) {
        last = Some((seg_start, n));
    }
    match last {
        Some((a, b)) => {
            if b - a == 2 && c[a] == '.' && c[a + 1] == '.' {
                assert(c@.subrange(a as int, b as int) =~= seq!['.', '.']);
                None
            } else {
                assert(c@.subrange(a as int, b as int) != seq!['.', '.']) by {
                    if b - a == 2 {
                        assert(c@.subrange(a as int, b as int)[0] == c@[a as int]);
                        assert(c@.subrange(a as int, b as int)[1] == c@[a + 1]);
                    }
                }
                Some(string_from_range(&c, a, b))
            }
        },
        None => None,
    }
}

/// `base` extended by `part`, as `PathBuf::push` does it.
pub fn join(base: &str, part: &str) -> (res: String)
    ensures
        res@ == join_path(base@, part@),
{
    let p = str_chars(part);
    let b = str_chars(base);
    if p.len() > 0 && p[0] == '/' {
        return part.to_owned();
    }
    let mut res = base.to_owned();
    if b.len() > 0 && b[b.len() - 1] != '/' {
        push_char(&mut res, '/');
    }
    res.append(part);
    res
}

} // verus!
