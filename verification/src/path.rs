//! Unix path arithmetic on text.
//!
//! A path is a text cut into components by `/`. Empty components and components
//! `.` are not part of a path, except for a `.` that starts a relative path.

use crate::text::{chars_of, joined, joined3, string_of};
use vstd::prelude::*;
use vstd::string::*;

verus! {

/// `base` extended by `name`: an absolute `name` replaces it, and a separator is
/// put between the two where `base` does not end with one.
pub open spec fn joined_path(base: Seq<char>, name: Seq<char>) -> Seq<char> {
    if name.len() > 0 && name[0] == '/' {
        name
    } else if base.len() == 0 || base.last() == '/' {
        base + name
    } else {
        base.push('/') + name
    }
}

/// The length of the start of a path that is a component of its own: the root `/`,
/// or the `.` that starts a relative path.
pub open spec fn start_len(p: Seq<char>) -> int {
    if p.len() > 0 && (p[0] == '/' || (p[0] == '.' && (p.len() == 1 || p[1] == '/'))) {
        1
    } else {
        0
    }
}

/// Where the last component of `p[lo..end]` starts: after its last separator.
pub open spec fn component_start(p: Seq<char>, lo: int, end: int) -> int
    decreases end,
{
    if end <= lo || end <= 0 {
        lo
    } else if p[end - 1] == '/' {
        end
    } else {
        component_start(p, lo, end - 1)
    }
}

pub proof fn lemma_component_start(p: Seq<char>, lo: int, end: int)
    requires
        0 <= lo <= end <= p.len(),
    ensures
        lo <= component_start(p, lo, end) <= end,
        component_start(p, lo, end) > lo ==> p[component_start(p, lo, end) - 1] == '/',
        forall|j: int| component_start(p, lo, end) <= j < end ==> p[j] != '/',
    decreases end,
{
    if lo < end && p[end - 1] != '/' {
        lemma_component_start(p, lo, end - 1);
    }
}

/// Where `p` ends once the component that starts at `from` is taken off, with the
/// separator before it.
pub open spec fn cut_before(lo: int, from: int) -> int {
    if from > lo {
        from - 1
    } else {
        lo
    }
}

/// Whether `p[from..end]` names no component: it is empty or `.`.
pub open spec fn no_component(p: Seq<char>, from: int, end: int) -> bool {
    end <= from || (end == from + 1 && p[from] == '.')
}

/// Where `p[..end]` ends once everything after its last component is taken off.
pub open spec fn body_end(p: Seq<char>, end: int) -> int
    decreases end,
    when start_len(p) <= end <= p.len()
    via body_end_decreases
{
    let lo = start_len(p);
    let from = component_start(p, lo, end);
    if end <= lo || !no_component(p, from, end) {
        end
    } else {
        body_end(p, cut_before(lo, from))
    }
}

#[via_fn]
proof fn body_end_decreases(p: Seq<char>, end: int) {
    lemma_component_start(p, start_len(p), end);
}

/// The last component of a path where it is a name, neither the root, nor `.`,
/// nor `..`.
pub open spec fn file_name_of(p: Seq<char>) -> Option<Seq<char>> {
    let lo = start_len(p);
    let end = body_end(p, p.len() as int);
    let from = component_start(p, lo, end);
    if end <= lo || p.subrange(from, end) == seq!['.', '.'] {
        None
    } else {
        Some(p.subrange(from, end))
    }
}

/// A path without its last component; nothing for the root and the empty path.
pub open spec fn parent_of(p: Seq<char>) -> Option<Seq<char>> {
    let lo = start_len(p);
    let end = body_end(p, p.len() as int);
    if end <= lo {
        if p.len() > 0 && p[0] == '.' {
            Some(Seq::empty())
        } else {
            None
        }
    } else {
        Some(p.take(body_end(p, cut_before(lo, component_start(p, lo, end)))))
    }
}

/// The index of the last `.` in `s`, or -1.
pub open spec fn last_dot(s: Seq<char>) -> int
    decreases s.len(),
{
    if s.len() == 0 {
        -1
    } else if s.last() == '.' {
        s.len() - 1
    } else {
        last_dot(s.drop_last())
    }
}

pub proof fn lemma_last_dot(s: Seq<char>)
    ensures
        -1 <= last_dot(s) < s.len(),
        last_dot(s) >= 0 ==> s[last_dot(s)] == '.',
        forall|j: int| last_dot(s) < j < s.len() ==> s[j] != '.',
    decreases s.len(),
{
    if s.len() > 0 && s.last() != '.' {
        lemma_last_dot(s.drop_last());
        assert forall|j: int| last_dot(s) < j < s.len() implies s[j] != '.' by {
            if j < s.len() - 1 {
                assert(s.drop_last()[j] == s[j]);
            }
        }
    }
}

/// A file name without its extension: the part before the last `.`, or the whole
/// name where there is no `.` or only one at its start.
pub open spec fn name_stem(name: Seq<char>) -> Seq<char> {
    if last_dot(name) <= 0 {
        name
    } else {
        name.take(last_dot(name))
    }
}

/// The file name of a path without its extension.
pub open spec fn stem_of(p: Seq<char>) -> Option<Seq<char>> {
    match file_name_of(p) {
        Some(name) => Some(name_stem(name)),
        None => None,
    }
}

/// Extends `base` by `name`.
pub fn join(base: &str, name: &str) -> (r: String)
    ensures
        r@ == joined_path(base@, name@),
{
    let n = name.unicode_len();
    if n > 0 && name.get_char(0) == '/' {
        return name.to_owned();
    }
    let b = base.unicode_len();
    if b == 0 || base.get_char(b - 1) == '/' {
        joined(base, name)
    } else {
        proof {
            reveal_strlit("/");
            assert("/"@ =~= seq!['/']);
            assert(base@ + "/"@ =~= base@.push('/'));
        }
        joined3(base, "/", name)
    }
}

fn start_of(v: &Vec<char>) -> (r: usize)
    ensures
        r == start_len(v@),
        r <= v@.len(),
{
    if v.len() > 0 && (v[0] == '/' || (v[0] == '.' && (v.len() == 1 || v[1] == '/'))) {
        1
    } else {
        0
    }
}

fn last_component(v: &Vec<char>, lo: usize, end: usize) -> (r: usize)
    requires
        lo <= end <= v@.len(),
    ensures
        r == component_start(v@, lo as int, end as int),
        lo <= r <= end,
{
    let mut i: usize = end;
    while i > lo && v[i - 1] != '/'
        invariant
            lo <= i <= end <= v@.len(),
            component_start(v@, lo as int, i as int) == component_start(
                v@,
                lo as int,
                end as int,
            ),
        decreases i,
    {
        i -= 1;
    }
    i
}

fn end_of_body(v: &Vec<char>, start: usize) -> (r: usize)
    requires
        start_len(v@) <= start <= v@.len(),
    ensures
        r == body_end(v@, start as int),
        start_len(v@) <= r <= start,
{
    let lo = start_of(v);
    let mut end: usize = start;
    loop
        invariant
            lo == start_len(v@),
            lo <= end <= start <= v@.len(),
            body_end(v@, end as int) == body_end(v@, start as int),
        decreases end,
    {
        let from = last_component(v, lo, end);
        if end == lo || !(end == from || (end == from + 1 && v[from] == '.')) {
            return end;
        }
        end = if from > lo {
            from - 1
        } else {
            lo
        };
    }
}

/// The last component of a path where it is a name.
pub fn file_name(path: &str) -> (r: Option<String>)
    ensures
        crate::text::opt_text(r) == file_name_of(path@),
{
    let v = chars_of(path);
    let lo = start_of(&v);
    let end = end_of_body(&v, v.len());
    if end == lo {
        return None;
    }
    let from = last_component(&v, lo, end);
    let name = string_of(&v, from, end);
    if end - from == 2 && v[from] == '.' && v[from + 1] == '.' {
        assert(name@ =~= seq!['.', '.']);
        None
    } else {
        assert(name@ != seq!['.', '.']) by {
            if name@ == seq!['.', '.'] {
                assert(name@.len() == 2 && name@[0] == '.' && name@[1] == '.');
            }
        }
        Some(name)
    }
}

/// The path without its last component.
pub fn parent(path: &str) -> (r: Option<String>)
    ensures
        crate::text::opt_text(r) == parent_of(path@),
{
    let v = chars_of(path);
    let lo = start_of(&v);
    let end = end_of_body(&v, v.len());
    if end == lo {
        return if v.len() > 0 && v[0] == '.' {
            Some(String::new())
        } else {
            None
        };
    }
    let from = last_component(&v, lo, end);
    let cut = if from > lo {
        from - 1
    } else {
        lo
    };
    let stop = end_of_body(&v, cut);
    let r = string_of(&v, 0, stop);
    assert(r@ =~= path@.take(stop as int));
    Some(r)
}

/// The file name of a path without its extension.
pub fn file_stem(path: &str) -> (r: Option<String>)
    ensures
        crate::text::opt_text(r) == stem_of(path@),
{
    let name = match file_name(path) {
        Some(name) => name,
        None => return None,
    };
    let v = chars_of(name.as_str());
    let mut i: usize = v.len();
    assert(v@.take(v@.len() as int) =~= v@);
    while i > 0 && v[i - 1] != '.'
        invariant
            i <= v@.len(),
            last_dot(v@.take(i as int)) == last_dot(v@),
        decreases i,
    {
        assert(v@.take(i as int).drop_last() =~= v@.take(i - 1));
        i -= 1;
    }
    if i <= 1 {
        Some(name)
    } else {
        let stem = string_of(&v, 0, i - 1);
        assert(stem@ =~= v@.take(i - 1));
        Some(stem)
    }
}

// --- laws --------------------------------------------------------------------------

/// Whether `name` can be a single component of a path that stands for itself.
pub open spec fn is_plain_name(name: Seq<char>) -> bool {
    &&& name.len() > 0
    &&& forall|i: int| 0 <= i < name.len() ==> name[i] != '/'
    &&& name != seq!['.']
    &&& name != seq!['.', '.']
}

/// The last component starts where a separator, or the start, is followed by none.
proof fn lemma_component_start_is(p: Seq<char>, lo: int, end: int, from: int)
    requires
        0 <= lo <= from <= end <= p.len(),
        from > lo ==> p[from - 1] == '/',
        forall|j: int| from <= j < end ==> p[j] != '/',
    ensures
        component_start(p, lo, end) == from,
{
    lemma_component_start(p, lo, end);
    let k = component_start(p, lo, end);
    if k < from {
        assert(p[from - 1] != '/');
    }
    if from < k {
        assert(p[k - 1] == '/');
    }
}

proof fn lemma_component_start_prefix(p: Seq<char>, q: Seq<char>, lo: int, end: int)
    requires
        0 <= lo <= end,
        end <= p.len(),
        end <= q.len(),
        p.take(end) == q.take(end),
    ensures
        component_start(p, lo, end) == component_start(q, lo, end),
    decreases end,
{
    if lo < end {
        assert(p[end - 1] == p.take(end)[end - 1]);
        assert(q[end - 1] == q.take(end)[end - 1]);
        assert(p.take(end - 1) =~= p.take(end).take(end - 1));
        assert(q.take(end - 1) =~= q.take(end).take(end - 1));
        lemma_component_start_prefix(p, q, lo, end - 1);
    }
}

proof fn lemma_body_end_prefix(p: Seq<char>, q: Seq<char>, end: int)
    requires
        start_len(p) == start_len(q),
        start_len(p) <= end,
        end <= p.len(),
        end <= q.len(),
        p.take(end) == q.take(end),
    ensures
        body_end(p, end) == body_end(q, end),
    decreases end,
{
    let lo = start_len(p);
    lemma_component_start(p, lo, end);
    lemma_component_start_prefix(p, q, lo, end);
    let from = component_start(p, lo, end);
    if from < end {
        assert(p[from] == p.take(end)[from]);
        assert(q[from] == q.take(end)[from]);
    }
    if end > lo && no_component(p, from, end) {
        let cut = cut_before(lo, from);
        assert(p.take(cut) =~= p.take(end).take(cut));
        assert(q.take(cut) =~= q.take(end).take(cut));
        lemma_body_end_prefix(p, q, cut);
    }
}

/// `body_end` lies in range, at the end of a component, and is its own `body_end`.
proof fn lemma_body_end(p: Seq<char>, end: int)
    requires
        start_len(p) <= end <= p.len(),
        end == p.len() || p[end] == '/' || end == start_len(p),
    ensures
        ({
            let r = body_end(p, end);
            &&& start_len(p) <= r <= end
            &&& r == p.len() || p[r] == '/' || r == start_len(p)
            &&& body_end(p, r) == r
        }),
    decreases end,
{
    let lo = start_len(p);
    lemma_component_start(p, lo, end);
    let from = component_start(p, lo, end);
    if end > lo && no_component(p, from, end) {
        lemma_body_end(p, cut_before(lo, from));
    }
}

/// A prefix that ends with a component starts as the whole path does.
proof fn lemma_start_of_prefix(p: Seq<char>, r: int)
    requires
        start_len(p) <= r <= p.len(),
        r == p.len() || p[r] == '/' || r == start_len(p),
    ensures
        start_len(p.take(r)) == start_len(p),
{
    let q = p.take(r);
    if r >= 1 {
        assert(q[0] == p[0]);
    }
    if r >= 2 {
        assert(q[1] == p[1]);
    }
}

/// Joining a plain name and taking the path apart gives the name back; what is left
/// is the directory without what follows its last component. Nothing follows the name.
pub proof fn law_join_then_split(dir: Seq<char>, name: Seq<char>)
    requires
        is_plain_name(name),
    ensures
        file_name_of(joined_path(dir, name)) == Some(name),
        parent_of(joined_path(dir, name)) == Some(dir.take(body_end(dir, dir.len() as int))),
        body_end(joined_path(dir, name), joined_path(dir, name).len() as int) == joined_path(
            dir,
            name,
        ).len(),
{
    let p = joined_path(dir, name);
    let n0 = p.len() - name.len();
    let lo = start_len(p);
    assert(name[0] != '/');
    assert(p.skip(n0) =~= name);
    assert forall|j: int| n0 <= j < p.len() implies p[j] != '/' by {
        assert(p[j] == name[j - n0]);
    }
    if dir.len() == 0 {
        assert(p =~= name);
        if name[0] == '.' && name.len() == 1 {
            assert(name =~= seq!['.']);
        }
    } else {
        assert(p[0] == dir[0]);
        if dir.len() >= 2 {
            assert(p[1] == dir[1]);
        }
        if dir.last() != '/' {
            assert(p[n0 - 1] == '/');
        } else {
            assert(p[n0 - 1] == dir.last());
        }
        if dir.len() == 1 && dir[0] == '.' {
            assert(p[1] == '/');
        }
    }
    assert(lo == start_len(dir));
    assert(lo <= n0);
    lemma_component_start_is(p, lo, p.len() as int, n0);
    assert(!no_component(p, n0, p.len() as int)) by {
        if name.len() == 1 && p[n0] == '.' {
            assert(name =~= seq!['.']);
        }
    }
    assert(body_end(p, p.len() as int) == p.len());
    assert(p.subrange(n0, p.len() as int) =~= name);
    // What is left of the directory.
    let cut = cut_before(lo, n0);
    let d = dir.len() as int;
    assert(p.take(d) =~= dir);
    if dir.len() > 0 && dir.last() == '/' && n0 > lo {
        // The separator at the end of the directory is the one that is cut.
        assert(cut == d - 1);
        lemma_component_start_is(dir, lo, d, d);
        assert(body_end(dir, d) == body_end(dir, d - 1));
        assert(dir.take(d - 1) =~= p.take(d - 1));
        lemma_body_end_prefix(p, dir, d - 1);
    } else {
        assert(cut == d);
        assert(dir.take(d) =~= p.take(d));
        lemma_body_end_prefix(p, dir, d);
    }
    lemma_body_end(dir, d);
    let r = body_end(dir, d);
    assert(p.take(r) =~= dir.take(r));
}

/// The parent of a path is a directory that a plain name can be put in: joining the
/// name and taking the parent gives the same directory again.
pub proof fn law_sibling_has_same_parent(p: Seq<char>, name: Seq<char>)
    requires
        parent_of(p) is Some,
        is_plain_name(name),
    ensures
        parent_of(joined_path(parent_of(p)->0, name)) == parent_of(p),
{
    let lo = start_len(p);
    lemma_body_end(p, p.len() as int);
    let end = body_end(p, p.len() as int);
    if end <= lo {
        law_join_then_split(Seq::empty(), name);
        assert(Seq::<char>::empty().take(0) =~= Seq::empty());
    } else {
        lemma_component_start(p, lo, end);
        let from = component_start(p, lo, end);
        let cut = cut_before(lo, from);
        lemma_body_end(p, cut);
        let r = body_end(p, cut);
        let q = p.take(r);
        lemma_start_of_prefix(p, r);
        assert(q.take(r) =~= p.take(r));
        lemma_body_end_prefix(p, q, r);
        assert(body_end(q, q.len() as int) == q.len());
        law_join_then_split(q, name);
        assert(q.take(q.len() as int) =~= q);
    }
}

/// A component of a path is a plain name where it is a name at all.
pub proof fn lemma_file_name_is_plain(p: Seq<char>)
    requires
        file_name_of(p) is Some,
    ensures
        is_plain_name(file_name_of(p)->0),
{
    let lo = start_len(p);
    let end = body_end(p, p.len() as int);
    lemma_body_end(p, p.len() as int);
    lemma_component_start(p, lo, end);
    let from = component_start(p, lo, end);
    let name = p.subrange(from, end);
    assert(!no_component(p, from, end)) by {
        if no_component(p, from, end) {
            lemma_body_end(p, cut_before(lo, from));
        }
    }
    if name == seq!['.'] {
        assert(name.len() == 1 && name[0] == '.');
        assert(p[from] == '.');
    }
}

/// Joining puts one separator between the two; an absolute name stands for itself, and an
/// empty base adds nothing.
pub proof fn law_join(base: &str, name: &str, r: String)
    requires
        call_ensures(join, (base, name), r),
    ensures
        name@.len() > 0 && name@[0] == '/' ==> r@ == name@,
        (name@.len() == 0 || name@[0] != '/') && base@.len() == 0 ==> r@ == name@,
        (name@.len() == 0 || name@[0] != '/') && base@.len() > 0 && base@.last() == '/' ==> r@
            == base@ + name@,
        (name@.len() == 0 || name@[0] != '/') && base@.len() > 0 && base@.last() != '/' ==> r@
            == base@ + seq!['/'] + name@,
        r@ == joined_path(base@, name@),
{
    if base@.len() == 0 {
        assert(base@ + name@ =~= name@);
    }
    assert(base@.push('/') =~= base@ + seq!['/']);
}

/// The path of a name in a folder comes apart into the folder and the name, with or
/// without a separator behind it. `folder` is itself a name in some other folder.
pub proof fn law_paths_come_apart(
    above: Seq<char>,
    last: Seq<char>,
    name: Seq<char>,
    path: &str,
    up: Option<String>,
    file: Option<String>,
)
    requires
        last.len() > 0 && name.len() > 0,
        forall|i: int| 0 <= i < last.len() ==> last[i] != '/',
        forall|i: int| 0 <= i < name.len() ==> name[i] != '/',
        last != seq!['.'] && last != seq!['.', '.'],
        name != seq!['.'] && name != seq!['.', '.'],
        path@ == above + seq!['/'] + last + seq!['/'] + name || path@ == above + seq!['/'] + last
            + seq!['/'] + name + seq!['/'],
        call_ensures(parent, (path,), up),
        call_ensures(file_name, (path,), file),
    ensures
        up matches Some(dir) && dir@ == above + seq!['/'] + last,
        file matches Some(s) && s@ == name,
{
    let top = above + seq!['/'];
    let dir = top + last;
    assert(top.last() == '/');
    assert(joined_path(top, last) =~= dir);
    law_join_then_split(top, last);
    assert(dir[dir.len() - 1] == last[last.len() - 1]);
    assert(dir.last() != '/');
    let whole = joined_path(dir, name);
    assert(whole =~= dir + seq!['/'] + name);
    law_join_then_split(dir, name);
    assert(dir.take(dir.len() as int) =~= dir);
    if path@ != whole {
        let q = path@;
        assert(q =~= whole.push('/'));
        let n = whole.len() as int;
        assert(q[n] == '/');
        assert(whole.len() >= 2);
        assert(q[0] == whole[0] && q[1] == whole[1]);
        let lo = start_len(q);
        assert(lo == start_len(whole));
        lemma_component_start_is(q, lo, n + 1, n + 1);
        assert(body_end(q, n + 1) == body_end(q, n));
        assert(q.take(n) =~= whole.take(n));
        lemma_body_end_prefix(q, whole, n);
        lemma_component_start_prefix(q, whole, lo, n);
        let from = component_start(q, lo, n);
        lemma_component_start(whole, lo, n);
        assert(q.subrange(from, n) =~= whole.subrange(from, n));
        let cut = cut_before(lo, from);
        assert(q.take(cut) =~= whole.take(cut));
        lemma_body_end_prefix(q, whole, cut);
        lemma_body_end(whole, n);
        assert(whole.len() == n);
        let e = body_end(whole, cut);
        lemma_body_end(whole, cut);
        assert(q.take(e) =~= whole.take(e));
    }
}

/// A name alone lies in the folder without a name, and the root has neither a folder nor
/// a name.
pub proof fn law_short_paths_come_apart(
    name: &str,
    up: Option<String>,
    file: Option<String>,
    root: &str,
    root_up: Option<String>,
    root_file: Option<String>,
)
    requires
        name@.len() > 0,
        forall|i: int| 0 <= i < name@.len() ==> name@[i] != '/',
        name@ != seq!['.'] && name@ != seq!['.', '.'],
        call_ensures(parent, (name,), up),
        call_ensures(file_name, (name,), file),
        root@ == seq!['/'],
        call_ensures(parent, (root,), root_up),
        call_ensures(file_name, (root,), root_file),
    ensures
        up matches Some(dir) && dir@.len() == 0,
        file matches Some(s) && s@ == name@,
        root_up is None,
        root_file is None,
{
    law_join_then_split(Seq::empty(), name@);
    assert(joined_path(Seq::empty(), name@) =~= name@);
    assert(Seq::<char>::empty().take(0) =~= Seq::empty());
}

/// The stem of a file name is what comes before its last dot, and the whole name where
/// there is none or only one at its start.
pub proof fn law_stems(path: &str, file: Option<String>, stem: Option<String>)
    requires
        call_ensures(file_name, (path,), file),
        call_ensures(file_stem, (path,), stem),
    ensures
        file is Some <==> stem is Some,
        file matches Some(name) ==> {
            let n = stem->0@.len();
            &&& n <= name@.len()
            &&& stem->0@ == name@.take(n as int)
            &&& n < name@.len() ==> 0 < n && name@[n as int] == '.' && forall|i: int|
                n < i < name@.len() ==> name@[i] != '.'
            &&& n == name@.len() ==> forall|i: int| 0 < i < name@.len() ==> name@[i] != '.'
        },
{
    if file is Some {
        let name = file->0@;
        lemma_last_dot(name);
        assert(name.take(name.len() as int) =~= name);
    }
}

/// A separator at the end of a path, or a component `.`, changes neither its folder nor its
/// name.
pub proof fn law_nothing_follows_the_name(
    path: &str,
    up: Option<String>,
    file: Option<String>,
    longer: &str,
    longer_up: Option<String>,
    longer_file: Option<String>,
)
    requires
        path@.len() > 0,
        longer@ == path@ + seq!['/'] || longer@ == path@ + seq!['/', '.'],
        call_ensures(parent, (path,), up),
        call_ensures(file_name, (path,), file),
        call_ensures(parent, (longer,), longer_up),
        call_ensures(file_name, (longer,), longer_file),
    ensures
        up is Some <==> longer_up is Some,
        up is Some ==> up->0@ == longer_up->0@,
        file is Some <==> longer_file is Some,
        file is Some ==> file->0@ == longer_file->0@,
{
    lemma_body_of_longer(path@, longer@);
    let p = path@;
    let q = longer@;
    let n = p.len() as int;
    let lo = start_len(p);
    lemma_body_end(p, n);
    let end = body_end(p, n);
    assert(p.take(end) =~= q.take(end));
    lemma_component_start_prefix(p, q, lo, end);
    lemma_component_start(p, lo, end);
    let from = component_start(p, lo, end);
    assert(p.subrange(from, end) =~= q.subrange(from, end));
    let cut = cut_before(lo, from);
    if end > lo {
        assert(p.take(cut) =~= q.take(cut));
        lemma_body_end_prefix(p, q, cut);
        lemma_body_end(p, cut);
        let e = body_end(p, cut);
        assert(p.take(e) =~= q.take(e));
    }
    assert(p[0] == q[0]);
}

/// What follows the last component is no part of a path.
proof fn lemma_body_of_longer(p: Seq<char>, q: Seq<char>)
    requires
        p.len() > 0,
        q == p + seq!['/'] || q == p + seq!['/', '.'],
    ensures
        start_len(q) == start_len(p),
        body_end(q, q.len() as int) == body_end(p, p.len() as int),
{
    let n = p.len() as int;
    assert(q[0] == p[0]);
    assert(q[n] == '/');
    if n >= 2 {
        assert(q[1] == p[1]);
    }
    let lo = start_len(p);
    assert(start_len(q) == lo);
    lemma_component_start_is(q, lo, q.len() as int, n + 1);
    assert(body_end(q, q.len() as int) == body_end(q, n));
    assert(q.take(n) =~= p.take(n));
    lemma_body_end_prefix(q, p, n);
}

/// Separators that follow each other count as one, and so does a `.` between two; a name in
/// the root lies in the root.
pub proof fn law_separators_count_once(
    above: Seq<char>,
    last: Seq<char>,
    name: Seq<char>,
    path: &str,
    up: Option<String>,
    file: Option<String>,
    short: &str,
    short_up: Option<String>,
    short_file: Option<String>,
)
    requires
        last.len() > 0 && name.len() > 0,
        forall|i: int| 0 <= i < last.len() ==> last[i] != '/',
        forall|i: int| 0 <= i < name.len() ==> name[i] != '/',
        last != seq!['.'] && last != seq!['.', '.'],
        name != seq!['.'] && name != seq!['.', '.'],
        path@ == above + seq!['/'] + last + seq!['/', '/'] + name || path@ == above + seq!['/'] + last
            + seq!['/', '.', '/'] + name,
        call_ensures(parent, (path,), up),
        call_ensures(file_name, (path,), file),
        short@ == seq!['/'] + name,
        call_ensures(parent, (short,), short_up),
        call_ensures(file_name, (short,), short_file),
    ensures
        up matches Some(dir) && dir@ == above + seq!['/'] + last,
        file matches Some(s) && s@ == name,
        short_up matches Some(dir) && dir@ == seq!['/'],
        short_file matches Some(s) && s@ == name,
{
    let root = seq!['/'];
    law_join_then_split(root, name);
    assert(joined_path(root, name) =~= root + name);
    assert(body_end(root, 1) == 1);
    assert(root.take(1) =~= root);
    let top = above + seq!['/'];
    let dir = top + last;
    assert(top.last() == '/');
    assert(joined_path(top, last) =~= dir);
    law_join_then_split(top, last);
    assert(dir[dir.len() - 1] == last[last.len() - 1]);
    let n = dir.len() as int;
    if path@ == above + seq!['/'] + last + seq!['/', '/'] + name {
        let one = dir + seq!['/'];
        let two = one + seq!['/'];
        lemma_body_of_longer(dir, one);
        lemma_body_of_longer(one, two);
        assert(two.last() == '/');
        assert(path@ =~= joined_path(two, name));
        law_join_then_split(two, name);
        assert(two.take(n) =~= dir);
    } else {
        let one = dir + seq!['/', '.'];
        lemma_body_of_longer(dir, one);
        assert(one[n + 1] == '.');
        assert(one.last() == '.');
        assert(path@ =~= joined_path(one, name));
        law_join_then_split(one, name);
        assert(one.take(n) =~= dir);
    }
}

/// The component `..` is no name, and the folder of a path that ends with it is what comes
/// before it. The empty path and `.` have no name either.
pub proof fn law_dots_are_no_names(
    above: Seq<char>,
    last: Seq<char>,
    path: &str,
    up: Option<String>,
    file: Option<String>,
    empty: &str,
    empty_up: Option<String>,
    empty_file: Option<String>,
    here: &str,
    here_up: Option<String>,
    here_file: Option<String>,
)
    requires
        last.len() > 0,
        forall|i: int| 0 <= i < last.len() ==> last[i] != '/',
        last != seq!['.'] && last != seq!['.', '.'],
        path@ == above + seq!['/'] + last + seq!['/', '.', '.'],
        call_ensures(parent, (path,), up),
        call_ensures(file_name, (path,), file),
        empty@.len() == 0,
        call_ensures(parent, (empty,), empty_up),
        call_ensures(file_name, (empty,), empty_file),
        here@ == seq!['.'],
        call_ensures(parent, (here,), here_up),
        call_ensures(file_name, (here,), here_file),
    ensures
        file is None,
        up matches Some(dir) && dir@ == above + seq!['/'] + last,
        empty_up is None,
        empty_file is None,
        here_file is None,
        here_up matches Some(dir) && dir@.len() == 0,
{
    let top = above + seq!['/'];
    let dir = top + last;
    assert(joined_path(top, last) =~= dir);
    law_join_then_split(top, last);
    let q = path@;
    let n = dir.len() as int;
    assert(q.take(n) =~= dir);
    assert(q[n] == '/' && q[n + 1] == '.' && q[n + 2] == '.');
    assert(n >= 2);
    assert(q[0] == dir[0] && q[1] == dir[1]);
    let lo = start_len(q);
    assert(lo == start_len(dir));
    lemma_component_start_is(q, lo, n + 3, n + 1);
    assert(body_end(q, n + 3) == n + 3);
    assert(q.subrange(n + 1, n + 3) =~= seq!['.', '.']);
    assert(dir.take(n) =~= dir);
    lemma_body_end_prefix(q, dir, n);
    assert(cut_before(lo, n + 1) == n);
}

/// A name in a folder of the current one lies in that folder, and one in `.` lies in `.`.
pub proof fn law_relative_paths_come_apart(
    folder: Seq<char>,
    name: Seq<char>,
    path: &str,
    up: Option<String>,
    file: Option<String>,
)
    requires
        folder.len() > 0 && name.len() > 0,
        forall|i: int| 0 <= i < folder.len() ==> folder[i] != '/',
        forall|i: int| 0 <= i < name.len() ==> name[i] != '/',
        folder != seq!['.', '.'],
        name != seq!['.'] && name != seq!['.', '.'],
        path@ == folder + seq!['/'] + name,
        call_ensures(parent, (path,), up),
        call_ensures(file_name, (path,), file),
    ensures
        up matches Some(dir) && dir@ == folder,
        file matches Some(s) && s@ == name,
{
    law_join_then_split(folder, name);
    assert(folder.last() != '/');
    assert(joined_path(folder, name) =~= folder + seq!['/'] + name);
    let n = folder.len() as int;
    if folder == seq!['.'] {
        assert(start_len(folder) == 1);
        assert(body_end(folder, n) == n);
    } else {
        law_join_then_split(Seq::empty(), folder);
        assert(joined_path(Seq::empty(), folder) =~= folder);
    }
    assert(folder.take(n) =~= folder);
}

} // verus!
