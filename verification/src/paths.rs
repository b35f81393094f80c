//! Paths, held as text, with `/` between their components. What the parent
//! of a path is, and what two paths joined give, goes by the rules of
//! `std::path` on Unix.

use crate::text::chars_of;
use vstd::prelude::*;

verus! {

/// Whether a path is `.` or starts with `./`: its first component is then
/// the directory from which it is seen.
pub open spec fn leads_with_dot(path: Seq<char>) -> bool {
    path.len() > 0 && path[0] == '.' && (path.len() == 1 || path[1] == '/')
}

/// Where the components begin that can be taken off a path: behind the root,
/// or behind the `.` that leads it.
pub open spec fn body_start(path: Seq<char>) -> int {
    if is_absolute(path) || leads_with_dot(path) {
        1
    } else {
        0
    }
}

/// Where `path`, cut at `end`, ends once the components that say nothing are
/// taken off its end: each `/` that ends it, and each `.` that stands alone
/// behind a `/` or alone as the body.
pub open spec fn trimmed_end(path: Seq<char>, start: int, end: int) -> int
    decreases end - start,
{
    if start < 0 || end <= start || end > path.len() {
        end
    } else if path[end - 1] == '/' {
        trimmed_end(path, start, end - 1)
    } else if path[end - 1] == '.' && end - 1 == start {
        start
    } else if path[end - 1] == '.' && end - 2 >= start && path[end - 2] == '/' {
        trimmed_end(path, start, end - 2)
    } else {
        end
    }
}

/// Where the component begins that ends at `end`: behind the last `/` before
/// `end`, or at `start`.
pub open spec fn component_start(path: Seq<char>, start: int, end: int) -> int
    decreases end - start,
{
    if start < 0 || end <= start || end > path.len() {
        start
    } else if path[end - 1] == '/' {
        end
    } else {
        component_start(path, start, end - 1)
    }
}

/// The path without its last component. Components that say nothing do not
/// count: `a/b/`, `a/b/.` and `a//b` all have the parent `a`. A path of one
/// component has the empty parent, or the root where it starts there. The
/// root and the empty path have none.
pub open spec fn parent_of(path: Seq<char>) -> Option<Seq<char>> {
    let start = body_start(path);
    let end = trimmed_end(path, start, path.len() as int);
    if end > start {
        let last = component_start(path, start, end);
        let cut = if last > start {
            last - 1
        } else {
            start
        };
        Some(path.take(trimmed_end(path, start, cut)))
    } else if !is_absolute(path) && leads_with_dot(path) {
        Some(Seq::empty())
    } else {
        None
    }
}

/// Whether a path starts at the root.
pub open spec fn is_absolute(path: Seq<char>) -> bool {
    path.len() > 0 && path[0] == '/'
}

/// The path `leaf` as seen from `base`: `leaf` itself where it starts at the
/// root, else `leaf` behind `base`, with a `/` between the two where `base`
/// does not end in one and is not empty.
pub open spec fn joined(base: Seq<char>, leaf: Seq<char>) -> Seq<char> {
    if is_absolute(leaf) {
        leaf
    } else if base.len() > 0 && base.last() != '/' {
        base + seq!['/'] + leaf
    } else {
        base + leaf
    }
}

fn trim_end(path: &Vec<char>, start: usize, end: usize) -> (r: usize)
    requires
        start <= end <= path.len(),
    ensures
        r == trimmed_end(path@, start as int, end as int),
        start <= r <= end,
{
    let mut e: usize = end;
    loop
        invariant
            start <= e <= end <= path.len(),
            trimmed_end(path@, start as int, end as int) == trimmed_end(
                path@,
                start as int,
                e as int,
            ),
        decreases e,
    {
        if e <= start {
            return e;
        } else if path[e - 1] == '/' {
            e = e - 1;
        } else if path[e - 1] == '.' && e - 1 == start {
            return start;
        } else if path[e - 1] == '.' && e - 2 >= start && path[e - 2] == '/' {
            e = e - 2;
        } else {
            return e;
        }
    }
}

fn last_component(path: &Vec<char>, start: usize, end: usize) -> (r: usize)
    requires
        start <= end <= path.len(),
    ensures
        r == component_start(path@, start as int, end as int),
        start <= r <= end,
{
    let mut e: usize = end;
    while e > start && path[e - 1] != '/'
        invariant
            start <= e <= end <= path.len(),
            component_start(path@, start as int, end as int) == component_start(
                path@,
                start as int,
                e as int,
            ),
        decreases e,
    {
        e = e - 1;
    }
    e
}

/// The path without its last component.
pub fn parent(path: &str) -> (r: Option<String>)
    ensures
        r is Some <==> parent_of(path@) is Some,
        r matches Some(p) ==> Some(p@) == parent_of(path@),
{
    let v = chars_of(path);
    let rooted = v.len() > 0 && v[0] == '/';
    let dotted = v.len() > 0 && v[0] == '.' && (v.len() == 1 || v[1] == '/');
    let start: usize = if rooted || dotted {
        1
    } else {
        0
    };
    let end = trim_end(&v, start, v.len());
    if end > start {
        let last = last_component(&v, start, end);
        let cut: usize = if last > start {
            last - 1
        } else {
            start
        };
        let kept = trim_end(&v, start, cut);
        Some(path.substring_char(0, kept).to_owned())
    } else if dotted {
        Some(String::new())
    } else {
        None
    }
}

/// The path `leaf` as seen from `base`.
pub fn join(base: &str, leaf: &str) -> (r: String)
    ensures
        r@ == joined(base@, leaf@),
{
    let b = chars_of(base);
    let l = chars_of(leaf);
    if l.len() > 0 && l[0] == '/' {
        return leaf.to_owned();
    }
    let mut out = base.to_owned();
    if b.len() > 0 && b[b.len() - 1] != '/' {
        proof {
            reveal_strlit("/");
        }
        out.append("/");
        assert(out@ =~= base@ + seq!['/']);
    }
    out.append(leaf);
    out
}

} // verus!
