//! Relative path resolution: `/`-separated segments, `.` and `..`.
use vstd::prelude::*;
use crate::archive::slash_from;

verus! {

/// The segments of `p` from position `start` on, split at each `/`.
pub open spec fn split_from(p: Seq<char>, start: int) -> Seq<Seq<char>>
    decreases p.len() - start,
{
    if start < 0 || start > p.len() {
        Seq::empty()
    } else {
        let e = slash_from(p, start);
        if e >= p.len() || e < start {
            seq![p.subrange(start, p.len() as int)]
        } else {
            seq![p.subrange(start, e)] + split_from(p, e + 1)
        }
    }
}

/// The segments of `p`, split at each `/`.
pub open spec fn segments(p: Seq<char>) -> Seq<Seq<char>> {
    split_from(p, 0)
}

/// The directory segments of a path: all segments but the file name.
pub open spec fn dir_segments(p: Seq<char>) -> Seq<Seq<char>> {
    segments(p).drop_last()
}

/// One segment applied to a directory stack: `.` and empty segments stay
/// put, `..` goes up and fails above the top, a name goes down.
pub open spec fn step(stack: Seq<Seq<char>>, seg: Seq<char>) -> Option<Seq<Seq<char>>> {
    if seg.len() == 0 || seg == seq!['.'] {
        Some(stack)
    } else if seg == seq!['.', '.'] {
        if stack.len() == 0 {
            None
        } else {
            Some(stack.drop_last())
        }
    } else {
        Some(stack.push(seg))
    }
}

/// The segments applied one by one to a directory stack.
pub open spec fn walk(stack: Seq<Seq<char>>, segs: Seq<Seq<char>>) -> Option<Seq<Seq<char>>>
    decreases segs.len(),
{
    if segs.len() == 0 {
        Some(stack)
    } else {
        match step(stack, segs[0]) {
            Some(next) => walk(next, segs.drop_first()),
            None => None,
        }
    }
}

/// Segments joined with `/`.
pub open spec fn join(segs: Seq<Seq<char>>) -> Seq<char>
    decreases segs.len(),
{
    if segs.len() == 0 {
        Seq::empty()
    } else if segs.len() == 1 {
        segs[0]
    } else {
        join(segs.drop_last()) + seq!['/'] + segs.last()
    }
}

/// `specifier` resolved against the directory of `referrer`: `None` where a
/// `..` would climb above the top.
pub open spec fn join_relative(referrer: Seq<char>, specifier: Seq<char>) -> Option<Seq<char>> {
    match walk(dir_segments(referrer), segments(specifier)) {
        Some(s) => Some(join(s)),
        None => None,
    }
}

/// The views of a sequence of strings.
pub open spec fn strings_view(v: Seq<String>) -> Seq<Seq<char>> {
    v.map_values(|s: String| s@)
}

/// Splits a path into its `/`-separated segments.
pub fn split_path(p: &str) -> (r: Vec<String>)
    ensures
        strings_view(r@) == segments(p@),
{
    let n = p.unicode_len();
    let mut out: Vec<String> = Vec::new();
    let mut start: usize = 0;
    loop
        invariant
            n == p@.len(),
            start <= n,
            strings_view(out@) + split_from(p@, start as int) == segments(p@),
        decreases n - start,
    {
        let mut e: usize = start;
        while e < n && p.get_char(e) != '/'
            invariant
                n == p@.len(),
                start <= e <= n,
                slash_from(p@, start as int) == slash_from(p@, e as int),
            decreases n - e,
        {
            e = e + 1;
        }
        let seg = p.substring_char(start, e).to_owned();
        let ghost before = strings_view(out@);
        out.push(seg);
        assert(strings_view(out@) =~= before.push(seg@));
        if e >= n {
            assert(strings_view(out@) =~= segments(p@));
            return out;
        }
        assert(strings_view(out@) + split_from(p@, e + 1) =~= before + split_from(p@, start as int));
        start = e + 1;
    }
}

/// Whether `s` is the single segment `.`.
fn is_dot(s: &str) -> (r: bool)
    ensures
        r == (s@ == seq!['.']),
{
    if s.unicode_len() == 1 && s.get_char(0) == '.' {
        assert(s@ =~= seq!['.']);
        true
    } else {
        false
    }
}

/// Whether `s` is the segment `..`.
fn is_dot_dot(s: &str) -> (r: bool)
    ensures
        r == (s@ == seq!['.', '.']),
{
    if s.unicode_len() == 2 && s.get_char(0) == '.' && s.get_char(1) == '.' {
        assert(s@ =~= seq!['.', '.']);
        true
    } else {
        false
    }
}

/// Applies `segs` one by one to the directory stack `stack`.
pub fn walk_segments(stack: Vec<String>, segs: &Vec<String>) -> (r: Option<Vec<String>>)
    ensures
        match r {
            Some(v) => walk(strings_view(stack@), strings_view(segs@)) == Some(strings_view(v@)),
            None => walk(strings_view(stack@), strings_view(segs@)) is None,
        },
{
    let ghost all = strings_view(segs@);
    let ghost start = strings_view(stack@);
    let mut cur = stack;
    let mut i: usize = 0;
    assert(all.subrange(0, all.len() as int) =~= all);
    while i < segs.len()
        invariant
            i <= segs@.len(),
            all == strings_view(segs@),
            start == strings_view(stack@),
            walk(start, all) == walk(strings_view(cur@), all.subrange(i as int, all.len() as int)),
        decreases segs.len() - i,
    {
        let ghost rest = all.subrange(i as int, all.len() as int);
        assert(rest[0] == segs@[i as int]@);
        assert(rest.drop_first() =~= all.subrange(i + 1, all.len() as int));
        let seg = segs[i].as_str();
        if seg.unicode_len() == 0 || is_dot(seg) {
        } else if is_dot_dot(seg) {
            if cur.len() == 0 {
                assert(strings_view(cur@).len() == 0);
                assert(step(strings_view(cur@), rest[0]) is None);
                assert(rest.len() > 0);
                assert(walk(strings_view(cur@), rest) is None);
                assert(walk(start, all) is None);
                return None;
            }
            let ghost prev = strings_view(cur@);
            cur.pop();
            assert(strings_view(cur@) =~= prev.drop_last());
        } else {
            let ghost prev = strings_view(cur@);
            cur.push(segs[i].clone());
            assert(strings_view(cur@) =~= prev.push(seg@));
        }
        i = i + 1;
    }
    assert(all.subrange(i as int, all.len() as int) =~= Seq::<Seq<char>>::empty());
    Some(cur)
}

/// Joins segments with `/`.
pub fn join_path(segs: &Vec<String>) -> (r: String)
    ensures
        r@ == join(strings_view(segs@)),
{
    let ghost all = strings_view(segs@);
    let mut out = String::new();
    let mut i: usize = 0;
    while i < segs.len()
        invariant
            i <= segs@.len(),
            all == strings_view(segs@),
            out@ == join(all.subrange(0, i as int)),
        decreases segs.len() - i,
    {
        let ghost prefix = all.subrange(0, i as int + 1);
        assert(prefix.drop_last() =~= all.subrange(0, i as int));
        if i > 0 {
            proof {
                reveal_strlit("/");
            }
            out.append("/");
        }
        out.append(segs[i].as_str());
        assert(out@ =~= join(prefix));
        i = i + 1;
    }
    assert(all.subrange(0, i as int) =~= all);
    out
}

/// Resolves `specifier` against the directory of `referrer`.
pub fn resolve_relative(referrer: &str, specifier: &str) -> (r: Option<String>)
    ensures
        match r {
            Some(s) => join_relative(referrer@, specifier@) == Some(s@),
            None => join_relative(referrer@, specifier@) is None,
        },
{
    let mut dir = split_path(referrer);
    let ghost whole = strings_view(dir@);
    dir.pop();
    assert(strings_view(dir@) =~= whole.drop_last());
    let segs = split_path(specifier);
    match walk_segments(dir, &segs) {
        Some(stack) => Some(join_path(&stack)),
        None => None,
    }
}

} // verus!
