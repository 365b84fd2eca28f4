//! Paths below a folder, as text with `/` between the segments.
use crate::text::chars_of;
use vstd::prelude::*;
use vstd::string::*;

verus! {

/// A path that starts at the root of the file system.
pub open spec fn absolute(path: Seq<char>) -> bool {
    path.len() > 0 && path[0] == '/'
}

/// Position `i` of `path` starts a segment that is `..`.
pub open spec fn parent_segment_at(path: Seq<char>, i: int) -> bool {
    &&& 0 <= i
    &&& i + 2 <= path.len()
    &&& path[i] == '.'
    &&& path[i + 1] == '.'
    &&& i == 0 || path[i - 1] == '/'
    &&& i + 2 == path.len() || path[i + 2] == '/'
}

/// Some segment of `path` is `..`.
pub open spec fn has_parent_segment(path: Seq<char>) -> bool {
    exists|i: int| parent_segment_at(path, i)
}

/// What `path` names when it is read from the directory `base`: `path` itself where it is absolute, and
/// otherwise the two with a separator between them, where `base` does not end in one already.
pub open spec fn joined(base: Seq<char>, path: Seq<char>) -> Seq<char> {
    if absolute(path) {
        path
    } else if base.len() > 0 && base.last() != '/' {
        base + seq!['/'] + path
    } else {
        base + path
    }
}

/// Whether `path` starts at the root of the file system.
pub fn is_absolute(path: &str) -> (yes: bool)
    ensures
        yes == absolute(path@),
{
    let chars: Vec<char> = chars_of(path);
    chars.len() > 0 && chars[0] == '/'
}

/// Whether some segment of `path` is `..`.
pub fn contains_parent_segment(path: &str) -> (yes: bool)
    ensures
        yes == has_parent_segment(path@),
{
    let chars: Vec<char> = chars_of(path);
    let mut i: usize = 0;
    while i < chars.len()
        invariant
            i <= chars@.len(),
            chars@ == path@,
            forall|j: int| 0 <= j < i ==> !parent_segment_at(path@, j),
        decreases chars@.len() - i,
    {
        if chars.len() - i >= 2 && chars[i] == '.' && chars[i + 1] == '.' && (i == 0 || chars[i - 1]
            == '/') && (chars.len() - i == 2 || chars[i + 2] == '/') {
            assert(parent_segment_at(path@, i as int));
            return true;
        }
        i = i + 1;
    }
    false
}

/// What `path` names when it is read from the directory `base`.
pub fn join(base: &str, path: &str) -> (out: String)
    ensures
        out@ == joined(base@, path@),
{
    if is_absolute(path) {
        return path.to_owned();
    }
    let chars: Vec<char> = chars_of(base);
    let mut out: String = base.to_owned();
    if chars.len() > 0 && chars[chars.len() - 1] != '/' {
        out.push('/');
        assert(out@ == base@ + seq!['/']);
    }
    out.append(path);
    out
}

/// A path is absolute where it starts with a separator.
pub proof fn absolute_paths_start_with_a_separator(path: Seq<char>)
    ensures
        absolute(seq!['/'] + path),
        absolute(path) <==> seq!['/'].is_prefix_of(path),
{
    if path.len() > 0 {
        assert(path.subrange(0, 1)[0] == path[0]);
        assert(seq!['/'][0] == '/');
        assert(path[0] == '/' ==> seq!['/'] =~= path.subrange(0, 1));
    }
}

/// Whether a path goes through a parent is judged by its segments, one by one: that of `a`, a separator and
/// `b` does where `a` or `b` does, and a segment alone does where it is `..`.
pub proof fn segments_are_judged_one_by_one(a: Seq<char>, b: Seq<char>, segment: Seq<char>)
    requires
        !segment.contains('/'),
    ensures
        has_parent_segment(a + seq!['/'] + b) <==> has_parent_segment(a) || has_parent_segment(b),
        has_parent_segment(segment) <==> segment == seq!['.', '.'],
{
    let both = a + seq!['/'] + b;
    let at = a.len() as int;
    assert(both[at] == '/');
    if has_parent_segment(both) {
        let i = choose|i: int| parent_segment_at(both, i);
        if i < at {
            assert(i + 1 < at) by {
                if i + 1 == at {
                    assert(both[i + 1] == '/');
                }
            }
            assert(parent_segment_at(a, i));
        } else {
            assert(parent_segment_at(b, i - at - 1));
        }
    }
    if has_parent_segment(a) {
        let i = choose|i: int| parent_segment_at(a, i);
        assert(parent_segment_at(both, i));
    }
    if has_parent_segment(b) {
        let i = choose|i: int| parent_segment_at(b, i);
        assert(parent_segment_at(both, i + at + 1));
    }
    if has_parent_segment(segment) {
        let i = choose|i: int| parent_segment_at(segment, i);
        if i > 0 {
            assert(segment.contains(segment[i - 1]));
        }
        if i + 2 < segment.len() {
            assert(segment.contains(segment[i + 2]));
        }
        assert(segment =~= seq!['.', '.']);
    }
    if segment == seq!['.', '.'] {
        assert(parent_segment_at(segment, 0));
    }
}

/// What a path names from a directory: an absolute path itself; a relative one below the directory, with
/// one separator between them; and from nowhere, itself.
pub proof fn relative_paths_lie_below(base: Seq<char>, path: Seq<char>)
    ensures
        joined(base, seq!['/'] + path) == seq!['/'] + path,
        joined(Seq::empty(), path) == path,
        !seq!['/'].is_prefix_of(path) ==> {
            &&& joined(base + seq!['/'], path) == base + seq!['/'] + path
            &&& base.len() > 0 && base.last() != '/' ==> joined(base, path) == base + seq!['/'] + path
        },
{
    absolute_paths_start_with_a_separator(path);
    assert(joined(Seq::empty(), path) =~= path);
    assert((base + seq!['/']).last() == '/');
}

} // verus!
