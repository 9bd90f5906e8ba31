//! Paths as strings.
//!
//! A path is in canonical form when it is absolute, has no `.` or `..`
//! component, no doubled `/` and no `/` at its end (the root `/` apart).
//! The kernel prints mount points in this form and `realpath` returns it. The
//! functions here are defined on every string, and mean for canonical paths
//! what their names say.

use crate::text::chars_of;
use vstd::prelude::*;

verus! {

/// Whether the path starts at the root.
pub open spec fn is_absolute(p: Seq<char>) -> bool {
    p.len() > 0 && p[0] == '/'
}

/// `s` without the slashes that it starts with.
pub open spec fn trim_slashes(s: Seq<char>) -> Seq<char>
    decreases s.len(),
{
    if s.len() > 0 && s[0] == '/' {
        trim_slashes(s.skip(1))
    } else {
        s
    }
}

/// `rel` appended to `base` as further components: an absolute `rel` takes
/// the place of `base`, and a `/` is put between the two unless `base` is
/// empty or ends in one.
pub open spec fn join(base: Seq<char>, rel: Seq<char>) -> Seq<char> {
    if is_absolute(rel) {
        rel
    } else if base.len() == 0 || base.last() == '/' {
        base + rel
    } else {
        base + seq!['/'] + rel
    }
}

/// Whether `p` is `base` or lies below it: `base` is a prefix of `p` that
/// ends where a component of `p` ends.
pub open spec fn is_under(p: Seq<char>, base: Seq<char>) -> bool {
    &&& base.is_prefix_of(p)
    &&& (p.len() == base.len() || (base.len() > 0 && base.last() == '/') || p[base.len() as int]
        == '/')
}

/// What is left of `p` below `base`: the part after `base` and the slashes
/// that follow it. `None` unless `p` is `base` or lies below it.
pub open spec fn strip_prefix(p: Seq<char>, base: Seq<char>) -> Option<Seq<char>> {
    if is_under(p, base) {
        Some(trim_slashes(p.skip(base.len() as int)))
    } else {
        None
    }
}

/// The place of `p` in a tree that is rooted at `root`: `p` without its
/// leading slashes, joined to `root`. `None` for a path that is not absolute.
pub open spec fn rebase(root: Seq<char>, p: Seq<char>) -> Option<Seq<char>> {
    if is_absolute(p) {
        Some(join(root, trim_slashes(p)))
    } else {
        None
    }
}

/// The index of the last `/` among the first `n` characters of `p`, or -1.
pub open spec fn last_slash(p: Seq<char>, n: int) -> int
    decreases n,
{
    if n <= 0 {
        -1
    } else if p[n - 1] == '/' {
        n - 1
    } else {
        last_slash(p, n - 1)
    }
}

/// The directory that holds `p`: `None` for the root and for the empty
/// path, the root for a path directly below it, the empty path for a single
/// relative component, else `p` up to its last `/`.
pub open spec fn parent(p: Seq<char>) -> Option<Seq<char>> {
    let cut = last_slash(p, p.len() as int);
    if p.len() == 0 || p =~= seq!['/'] {
        None
    } else if cut < 0 {
        Some(Seq::empty())
    } else if cut == 0 {
        Some(seq!['/'])
    } else {
        Some(p.take(cut))
    }
}

/// `p` and the directories above it, from the topmost down to `p` itself.
pub open spec fn ancestors(p: Seq<char>) -> Seq<Seq<char>>
    decreases p.len(),
{
    match parent(p) {
        Some(q) => if q.len() < p.len() {
            ancestors(q).push(p)
        } else {
            seq![p]
        },
        None => seq![p],
    }
}

/// Whether the string holds a NUL character, which no path or argument
/// handed to the kernel can.
pub open spec fn has_nul(s: Seq<char>) -> bool {
    exists|i: int| 0 <= i < s.len() && s[i] == '\0'
}

/// Where the last slash stands: before `n`, at a `/`, and with no `/`
/// after it up to `n`.
pub proof fn lemma_last_slash(p: Seq<char>, n: int)
    requires
        0 <= n <= p.len(),
    ensures
        -1 <= last_slash(p, n) < n,
        last_slash(p, n) >= 0 ==> p[last_slash(p, n)] == '/',
        forall|j: int| last_slash(p, n) < j < n ==> p[j] != '/',
    decreases n,
{
    if n > 0 && p[n - 1] != '/' {
        lemma_last_slash(p, n - 1);
    }
}

/// A parent is shorter than the path it holds.
pub proof fn lemma_parent_shorter(p: Seq<char>)
    ensures
        parent(p) matches Some(q) ==> q.len() < p.len(),
{
    lemma_last_slash(p, p.len() as int);
    if p.len() > 0 && !(p =~= seq!['/']) {
        let cut = last_slash(p, p.len() as int);
        if cut == 0 {
            assert(p.len() >= 1);
            if p.len() == 1 {
                assert(p =~= seq!['/']);
            }
        }
    }
}

/// Whether the path starts at the root.
pub fn path_is_absolute(p: &str) -> (r: bool)
    ensures
        r == is_absolute(p@),
{
    let v = chars_of(p);
    v.len() > 0 && v[0] == '/'
}

/// Whether the string holds a NUL character.
pub fn contains_nul(s: &str) -> (r: bool)
    ensures
        r == has_nul(s@),
{
    let v = chars_of(s);
    let mut i: usize = 0;
    while i < v.len()
        invariant
            i <= v.len(),
            v@ == s@,
            forall|j: int| 0 <= j < i ==> v@[j] != '\0',
        decreases v.len() - i,
    {
        if v[i] == '\0' {
            return true;
        }
        i = i + 1;
    }
    false
}

/// The number of slashes that `v` has from index `from` on, before its first
/// other character.
fn count_slashes(v: &Vec<char>, from: usize) -> (k: usize)
    requires
        from <= v.len(),
    ensures
        from + k <= v.len(),
        trim_slashes(v@.skip(from as int)) == v@.skip(from + k),
{
    let mut k: usize = 0;
    while from + k < v.len() && v[from + k] == '/'
        invariant
            from + k <= v.len(),
            trim_slashes(v@.skip(from as int)) == trim_slashes(v@.skip(from + k)),
        decreases v.len() - from - k,
    {
        assert(v@.skip(from + k).skip(1) =~= v@.skip(from + k + 1));
        k = k + 1;
    }
    k
}

/// Joins `rel` to `base`.
pub fn path_join(base: &str, rel: &str) -> (r: String)
    ensures
        r@ == join(base@, rel@),
{
    proof {
        reveal_strlit("/");
    }
    let b = chars_of(base);
    let t = chars_of(rel);
    if t.len() > 0 && t[0] == '/' {
        return String::from_str(rel);
    }
    let mut out = String::from_str(base);
    if b.len() > 0 && b[b.len() - 1] != '/' {
        out.append("/");
    }
    out.append(rel);
    assert(out@ =~= join(base@, rel@));
    out
}

/// Whether `p` is `base` or lies below it.
pub fn path_is_under(p: &str, base: &str) -> (r: bool)
    ensures
        r == is_under(p@, base@),
{
    let v = chars_of(p);
    let b = chars_of(base);
    if b.len() > v.len() {
        return false;
    }
    let mut i: usize = 0;
    while i < b.len()
        invariant
            i <= b.len() <= v.len(),
            v@ == p@,
            b@ == base@,
            forall|j: int| 0 <= j < i ==> v@[j] == b@[j],
        decreases b.len() - i,
    {
        if v[i] != b[i] {
            assert(!b@.is_prefix_of(v@)) by {
                if b@.is_prefix_of(v@) {
                    assert(v@.subrange(0, b@.len() as int)[i as int] == b@[i as int]);
                }
            }
            return false;
        }
        i = i + 1;
    }
    assert(b@.is_prefix_of(v@)) by {
        assert(b@ =~= v@.subrange(0, b@.len() as int));
    }
    v.len() == b.len() || (b.len() > 0 && b[b.len() - 1] == '/') || v[b.len()] == '/'
}

/// What is left of `p` below `base`, if `p` is `base` or lies below it.
pub fn path_strip_prefix(p: &str, base: &str) -> (r: Option<String>)
    ensures
        r.is_some() == strip_prefix(p@, base@).is_some(),
        r matches Some(s) ==> s@ == strip_prefix(p@, base@).unwrap(),
{
    if !path_is_under(p, base) {
        return None;
    }
    let v = chars_of(p);
    let b = chars_of(base);
    let k = count_slashes(&v, b.len());
    let rest = p.substring_char(b.len() + k, v.len());
    assert(rest@ =~= p@.skip(b.len() + k));
    Some(String::from_str(rest))
}

/// The place of `p` in a tree that is rooted at `root`, if `p` is absolute.
pub fn path_rebase(root: &str, p: &str) -> (r: Option<String>)
    ensures
        r.is_some() == rebase(root@, p@).is_some(),
        r matches Some(s) ==> s@ == rebase(root@, p@).unwrap(),
{
    let v = chars_of(p);
    if v.len() == 0 || v[0] != '/' {
        return None;
    }
    assert(v@.skip(0) =~= v@);
    let k = count_slashes(&v, 0);
    let rest = p.substring_char(k, v.len());
    assert(rest@ =~= p@.skip(k as int));
    Some(path_join(root, rest))
}

/// The directory that holds `p`, if it has one.
pub fn path_parent(p: &str) -> (r: Option<String>)
    ensures
        r.is_some() == parent(p@).is_some(),
        r matches Some(s) ==> s@ == parent(p@).unwrap(),
{
    proof {
        reveal_strlit("/");
    }
    let v = chars_of(p);
    if v.len() == 0 || (v.len() == 1 && v[0] == '/') {
        assert(v.len() == 1 && v[0] == '/' ==> v@ =~= seq!['/']);
        return None;
    }
    assert(!(p@ =~= seq!['/']));
    let mut n: usize = v.len();
    while n > 0 && v[n - 1] != '/'
        invariant
            n <= v.len(),
            last_slash(v@, v.len() as int) == last_slash(v@, n as int),
        decreases n,
    {
        n = n - 1;
    }
    if n == 0 {
        let r = String::new();
        assert(r@ =~= Seq::<char>::empty());
        Some(r)
    } else if n == 1 {
        let r = String::from_str("/");
        assert(r@ =~= seq!['/']);
        Some(r)
    } else {
        let head = p.substring_char(0, n - 1);
        assert(head@ =~= p@.take(n - 1));
        Some(String::from_str(head))
    }
}

/// `p` and the directories above it, from the topmost down to `p` itself.
pub fn path_ancestors(p: &str) -> (r: Vec<String>)
    ensures
        r@.len() == ancestors(p@).len(),
        forall|i: int| 0 <= i < r@.len() ==> (#[trigger] r@[i])@ == ancestors(p@)[i],
{
    let mut up: Vec<String> = Vec::new();
    up.push(String::from_str(p));
    let mut cur: String = String::from_str(p);
    loop
        invariant
            up@.len() >= 1,
            up@.last()@ == cur@,
            ancestors(p@) =~= ancestors(cur@) + Seq::new(
                (up@.len() - 1) as nat,
                |i: int| up@[up@.len() - 2 - i]@,
            ),
        ensures
            up@.len() >= 1,
            ancestors(p@).len() == up@.len(),
            forall|i: int|
                0 <= i < up@.len() ==> ancestors(p@)[i] == (#[trigger] up@[up@.len() - 1 - i])@,
        decreases cur@.len(),
    {
        proof {
            lemma_parent_shorter(cur@);
        }
        match path_parent(cur.as_str()) {
            Some(q) => {
                let ghost before = up@;
                let ghost old_cur = cur@;
                up.push(q.clone());
                cur = q;
                assert(ancestors(old_cur) =~= ancestors(cur@).push(old_cur));
                assert(ancestors(p@) =~= ancestors(cur@) + Seq::new(
                    (up@.len() - 1) as nat,
                    |i: int| up@[up@.len() - 2 - i]@,
                )) by {
                    let tail_old = Seq::new(
                        (before.len() - 1) as nat,
                        |i: int| before[before.len() - 2 - i]@,
                    );
                    let tail_new = Seq::new(
                        (up@.len() - 1) as nat,
                        |i: int| up@[up@.len() - 2 - i]@,
                    );
                    assert(tail_new =~= seq![old_cur] + tail_old);
                    assert(ancestors(cur@).push(old_cur) + tail_old =~= ancestors(cur@) + (
                    seq![old_cur] + tail_old));
                }
            },
            None => {
                assert(ancestors(cur@) =~= seq![cur@]);
                break ;
            },
        }
    }
    let mut out: Vec<String> = Vec::new();
    let mut i: usize = up.len();
    while i > 0
        invariant
            i <= up@.len(),
            out@.len() == up@.len() - i,
            forall|j: int| 0 <= j < out@.len() ==> (#[trigger] out@[j])@ == up@[up@.len() - 1 - j]@,
        decreases i,
    {
        i = i - 1;
        out.push(up[i].clone());
    }
    out
}

} // verus!
