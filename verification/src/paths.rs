//! Text operations on mount prefixes and `/`-separated paths.

use vstd::prelude::*;
use vstd::string::*;

verus! {

/// `s` without the slashes at its end.
pub open spec fn trim_end_slashes(s: Seq<char>) -> Seq<char>
    decreases s.len(),
{
    if s.len() > 0 && s.last() == '/' {
        trim_end_slashes(s.drop_last())
    } else {
        s
    }
}

/// `s` without the slashes at its start.
pub open spec fn trim_start_slashes(s: Seq<char>) -> Seq<char>
    decreases s.len(),
{
    if s.len() > 0 && s[0] == '/' {
        trim_start_slashes(s.drop_first())
    } else {
        s
    }
}

/// The mount prefix that `s` stands for: one slash, then `s` without the
/// slashes around it.
pub open spec fn normalized_mount(s: Seq<char>) -> Seq<char> {
    seq!['/'] + trim_start_slashes(trim_end_slashes(s))
}

/// A mount prefix in normal form is exactly `/`, or starts with exactly one
/// slash and does not end with one.
pub open spec fn is_normalized_mount(m: Seq<char>) -> bool {
    &&& m.len() >= 1
    &&& m[0] == '/'
    &&& m.len() > 1 ==> m[1] != '/' && m.last() != '/'
}

/// What is left of `request` behind the prefix `mount`, without one leading
/// slash.
pub open spec fn relative_part(mount: Seq<char>, request: Seq<char>) -> Seq<char>
    recommends
        mount.is_prefix_of(request),
{
    let rest = request.subrange(mount.len() as int, request.len() as int);
    if rest.len() > 0 && rest[0] == '/' {
        rest.drop_first()
    } else {
        rest
    }
}

/// `rel` adjoined to `base`: an absolute `rel` replaces `base`; otherwise the
/// two are put together with one separator between them, unless `base` is
/// empty or already ends with one.
pub open spec fn joined(base: Seq<char>, rel: Seq<char>) -> Seq<char> {
    if rel.len() > 0 && rel[0] == '/' {
        rel
    } else if base.len() > 0 && base.last() != '/' {
        base + seq!['/'] + rel
    } else {
        base + rel
    }
}

/// `path` is `root` itself or lies below it: `root` is a prefix of `path`
/// that ends where a component of `path` ends.
pub open spec fn within(path: Seq<char>, root: Seq<char>) -> bool {
    &&& root.is_prefix_of(path)
    &&& (path.len() == root.len() || (root.len() > 0 && root.last() == '/')
        || path[root.len() as int] == '/')
}

proof fn lemma_trim_end(s: Seq<char>)
    ensures
        trim_end_slashes(s).is_prefix_of(s),
        trim_end_slashes(s).len() > 0 ==> trim_end_slashes(s).last() != '/',
    decreases s.len(),
{
    if s.len() > 0 && s.last() == '/' {
        lemma_trim_end(s.drop_last());
    }
}

proof fn lemma_trim_start(s: Seq<char>)
    ensures
        trim_start_slashes(s).is_suffix_of(s),
        trim_start_slashes(s).len() > 0 ==> trim_start_slashes(s)[0] != '/',
        trim_start_slashes(s).len() > 0 ==> trim_start_slashes(s).last() == s.last(),
    decreases s.len(),
{
    if s.len() > 0 && s[0] == '/' {
        lemma_trim_start(s.drop_first());
        let t = trim_start_slashes(s.drop_first());
        let d = s.drop_first();
        assert(t =~= s.subrange(s.len() - t.len(), s.len() as int)) by {
            assert(t =~= d.subrange(d.len() - t.len(), d.len() as int));
        }
    } else {
        assert(s =~= s.subrange(0, s.len() as int));
    }
}

/// Every text has a mount prefix in normal form.
pub proof fn lemma_normalized_mount_is_normalized(s: Seq<char>)
    ensures
        is_normalized_mount(normalized_mount(s)),
{
    let e = trim_end_slashes(s);
    let t = trim_start_slashes(e);
    lemma_trim_end(s);
    lemma_trim_start(e);
    let m = normalized_mount(s);
    if t.len() > 0 {
        assert(m[1] == t[0]);
        assert(m.last() == t.last());
    }
}

/// A mount prefix in normal form is its own normal form.
pub proof fn lemma_normalized_mount_fixed(m: Seq<char>)
    requires
        is_normalized_mount(m),
    ensures
        normalized_mount(m) == m,
{
    if m.len() == 1 {
        let e = m.drop_last();
        assert(e.len() == 0);
        assert(trim_end_slashes(e) == e);
        assert(trim_end_slashes(m) == e);
        assert(trim_start_slashes(e) == e);
        assert(normalized_mount(m) =~= m);
    } else {
        assert(trim_end_slashes(m) == m);
        let d = m.drop_first();
        assert(d[0] == m[1]);
        assert(trim_start_slashes(d) == d);
        assert(trim_start_slashes(m) == d);
        assert(seq!['/'] + d =~= m);
    }
}

/// Normalizing twice gives what normalizing once gives.
pub proof fn lemma_normalize_idempotent(s: Seq<char>)
    ensures
        normalized_mount(normalized_mount(s)) == normalized_mount(s),
{
    lemma_normalized_mount_is_normalized(s);
    lemma_normalized_mount_fixed(normalized_mount(s));
}

/// The mount prefix in normal form: `/` stays `/`; any other text loses the
/// slashes at its end and gets exactly one at its start.
pub fn normalize_mount_path(path: &str) -> (out: String)
    ensures
        out@ == normalized_mount(path@),
        is_normalized_mount(out@),
{
    let n: usize = path.unicode_len();
    let mut end: usize = n;
    assert(path@.subrange(0, n as int) =~= path@);
    while end > 0 && path.get_char(end - 1) == '/'
        invariant
            end <= n,
            n == path@.len(),
            trim_end_slashes(path@) == trim_end_slashes(path@.subrange(0, end as int)),
        decreases end,
    {
        proof {
            let cur = path@.subrange(0, end as int);
            assert(cur.last() == path@[end - 1]);
            assert(cur.drop_last() =~= path@.subrange(0, end - 1));
        }
        end -= 1;
    }
    let ghost kept = path@.subrange(0, end as int);
    assert(trim_end_slashes(kept) == kept) by {
        if end > 0 {
            assert(kept.last() == path@[end - 1]);
        }
    }
    let mut start: usize = 0;
    while start < end && path.get_char(start) == '/'
        invariant
            start <= end <= n,
            n == path@.len(),
            trim_start_slashes(kept) == trim_start_slashes(
                path@.subrange(start as int, end as int),
            ),
        decreases end - start,
    {
        proof {
            let cur = path@.subrange(start as int, end as int);
            assert(cur[0] == path@[start as int]);
            assert(cur.drop_first() =~= path@.subrange(start + 1, end as int));
        }
        start += 1;
    }
    let inner = path.substring_char(start, end);
    assert(trim_start_slashes(inner@) == inner@) by {
        if start < end {
            assert(inner@[0] == path@[start as int]);
        }
    }
    proof {
        reveal_strlit("/");
        lemma_normalized_mount_is_normalized(path@);
    }
    let out = String::from_str("/").concat(inner);
    assert(out@ =~= normalized_mount(path@));
    out
}

/// Whether `text` begins with `prefix`.
pub fn has_prefix(text: &str, prefix: &str) -> (out: bool)
    ensures
        out == prefix@.is_prefix_of(text@),
{
    let n: usize = text.unicode_len();
    let m: usize = prefix.unicode_len();
    if m > n {
        return false;
    }
    let mut i: usize = 0;
    while i < m
        invariant
            i <= m <= n,
            n == text@.len(),
            m == prefix@.len(),
            forall|k: int| 0 <= k < i ==> text@[k] == prefix@[k],
        decreases m - i,
    {
        if text.get_char(i) != prefix.get_char(i) {
            assert(text@.subrange(0, m as int)[i as int] == text@[i as int]);
            return false;
        }
        i += 1;
    }
    assert(prefix@ =~= text@.subrange(0, m as int));
    true
}

/// The part of `request` behind the prefix `mount`, without one leading
/// slash.
pub fn strip_mount<'a>(request: &'a str, mount: &str) -> (out: &'a str)
    requires
        mount@.is_prefix_of(request@),
    ensures
        out@ == relative_part(mount@, request@),
{
    let n: usize = request.unicode_len();
    let m: usize = mount.unicode_len();
    let ghost rest = request@.subrange(m as int, n as int);
    if m < n && request.get_char(m) == '/' {
        assert(rest[0] == request@[m as int]);
        let out = request.substring_char(m + 1, n);
        assert(out@ =~= rest.drop_first());
        out
    } else {
        if m < n {
            assert(rest[0] == request@[m as int]);
        }
        request.substring_char(m, n)
    }
}

/// `rel` adjoined to `base`.
pub fn join_path(base: &str, rel: &str) -> (out: String)
    ensures
        out@ == joined(base@, rel@),
{
    let b: usize = base.unicode_len();
    let r: usize = rel.unicode_len();
    if r > 0 && rel.get_char(0) == '/' {
        String::from_str(rel)
    } else if b > 0 && base.get_char(b - 1) != '/' {
        proof {
            reveal_strlit("/");
        }
        let out = String::from_str(base).concat("/").concat(rel);
        assert(out@ =~= base@ + seq!['/'] + rel@);
        out
    } else {
        String::from_str(base).concat(rel)
    }
}

/// Whether `path` is `root` or lies below it.
pub fn is_within(path: &str, root: &str) -> (out: bool)
    ensures
        out == within(path@, root@),
{
    if !has_prefix(path, root) {
        return false;
    }
    let n: usize = path.unicode_len();
    let m: usize = root.unicode_len();
    n == m || (m > 0 && root.get_char(m - 1) == '/') || path.get_char(m) == '/'
}

} // verus!
