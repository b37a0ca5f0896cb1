//! Directory-tree enumeration.
//!
//! The tree to walk is modelled as a value: a [`DirTree`] holds the
//! directory's name, its child directories, and the names of its
//! non-directory entries.  Walking a tree lists the full path of every
//! directory in pre-order — the root first, then each subtree — and never
//! lists a non-directory entry.  The binary around the library reads the
//! real filesystem into a `DirTree` and registers one watch per listed
//! path.

use vstd::prelude::*;

verus! {

/// One directory: its name, its child directories, and the names of its
/// non-directory entries.
pub struct DirTree {
    /// Name of this directory: for a subdirectory the bare entry name,
    /// for the root of a walk possibly a whole path.
    pub name: String,
    /// Child directories, in listing order.
    pub subdirs: Vec<DirTree>,
    /// Names of the non-directory entries, in listing order.
    pub files: Vec<String>,
}

/// The full paths of every directory of `t`, pre-order, each formed by
/// appending the directory names to `prefix` with `/` separators.
pub open spec fn spec_dir_paths(prefix: Seq<char>, t: DirTree) -> Seq<Seq<char>>
    decreases t,
{
    seq![prefix + t.name@] + spec_subdir_paths(
        prefix + t.name@ + seq!['/'],
        t.subdirs@,
        t.subdirs@.len() as int,
    )
}

/// The paths contributed by the first `n` subtrees of `ts`, in order.
pub open spec fn spec_subdir_paths(prefix: Seq<char>, ts: Seq<DirTree>, n: int) -> Seq<Seq<char>>
    decreases ts, n,
{
    if n <= 0 || n > ts.len() {
        Seq::empty()
    } else {
        spec_subdir_paths(prefix, ts, n - 1) + spec_dir_paths(prefix, ts[n - 1])
    }
}

/// How many directories `t` holds, itself included.
pub open spec fn spec_dir_count(t: DirTree) -> nat
    decreases t,
{
    1 + spec_subdir_count(t.subdirs@, t.subdirs@.len() as int)
}

/// How many directories the first `n` subtrees of `ts` hold together.
pub open spec fn spec_subdir_count(ts: Seq<DirTree>, n: int) -> nat
    decreases ts, n,
{
    if n <= 0 || n > ts.len() {
        0
    } else {
        spec_subdir_count(ts, n - 1) + spec_dir_count(ts[n - 1])
    }
}

/// Whether `p` is the path of some directory of `t`, under `prefix`.
pub open spec fn spec_is_dir_path(prefix: Seq<char>, t: DirTree, p: Seq<char>) -> bool
    decreases t,
{
    p == prefix + t.name@ || spec_is_subdir_path(
        prefix + t.name@ + seq!['/'],
        t.subdirs@,
        t.subdirs@.len() as int,
        p,
    )
}

/// Whether `p` is the path of a directory of one of the first `n` subtrees
/// of `ts`, under `prefix`.
pub open spec fn spec_is_subdir_path(
    prefix: Seq<char>,
    ts: Seq<DirTree>,
    n: int,
    p: Seq<char>,
) -> bool
    decreases ts, n,
{
    if n <= 0 || n > ts.len() {
        false
    } else {
        spec_is_subdir_path(prefix, ts, n - 1, p) || spec_is_dir_path(prefix, ts[n - 1], p)
    }
}

/// Walks `t`, returning the full path of every directory in pre-order:
/// the directory itself first, then each subtree in listing order.
pub fn walk_dirs(prefix: &str, t: &DirTree) -> (r: Vec<String>)
    ensures
        r.deep_view() == spec_dir_paths(prefix@, *t),
    decreases *t,
{
    let mut here = String::from_str(prefix);
    here.append(t.name.as_str());
    let mut out: Vec<String> = Vec::new();
    out.push(here.clone());
    let mut child_prefix = here;
    child_prefix.append("/");
    proof {
        reveal_strlit("/");
        assert(child_prefix@ =~= prefix@ + t.name@ + seq!['/']);
        assert(out.deep_view() =~= seq![prefix@ + t.name@] + spec_subdir_paths(
            child_prefix@,
            t.subdirs@,
            0,
        ));
    }
    let mut idx: usize = 0;
    while idx < t.subdirs.len()
        invariant
            idx <= t.subdirs@.len(),
            child_prefix@ == prefix@ + t.name@ + seq!['/'],
            out.deep_view() == seq![prefix@ + t.name@] + spec_subdir_paths(
                child_prefix@,
                t.subdirs@,
                idx as int,
            ),
        decreases t.subdirs@.len() - idx,
    {
        let mut sub = walk_dirs(child_prefix.as_str(), &t.subdirs[idx]);
        let ghost prev = out@;
        let ghost prev_dv = out.deep_view();
        let ghost sub_v = sub@;
        let ghost sub_dv = sub.deep_view();
        out.append(&mut sub);
        proof {
            assert forall|i: int| 0 <= i < out@.len() implies out.deep_view()[i] == (prev_dv
                + sub_dv)[i] by {
                if i < prev.len() {
                    assert(out@[i] == prev[i]);
                } else {
                    assert(out@[i] == sub_v[i - prev.len()]);
                }
            }
            assert(out.deep_view() =~= prev_dv + sub_dv);
            assert(out.deep_view() =~= seq![prefix@ + t.name@] + spec_subdir_paths(
                child_prefix@,
                t.subdirs@,
                idx as int + 1,
            ));
        }
        idx += 1;
    }
    proof {
        assert(out.deep_view() =~= spec_dir_paths(prefix@, *t));
    }
    out
}

/// Walking a tree visits one directory per entry of the result: the walk
/// lists as many paths as the tree holds directories.
pub proof fn lemma_walk_counts_each_dir_once(prefix: Seq<char>, t: DirTree)
    ensures
        spec_dir_paths(prefix, t).len() == spec_dir_count(t),
    decreases t,
{
    lemma_subdir_paths_count(
        prefix + t.name@ + seq!['/'],
        t.subdirs@,
        t.subdirs@.len() as int,
    );
}

proof fn lemma_subdir_paths_count(prefix: Seq<char>, ts: Seq<DirTree>, n: int)
    ensures
        spec_subdir_paths(prefix, ts, n).len() == spec_subdir_count(ts, n),
    decreases ts, n,
{
    if 0 < n <= ts.len() {
        lemma_subdir_paths_count(prefix, ts, n - 1);
        lemma_walk_counts_each_dir_once(prefix, ts[n - 1]);
    }
}

/// Walking a tree visits exactly its directories: a path is listed if and
/// only if it is the path of a directory of the tree — in particular, no
/// non-directory entry is ever listed.
pub proof fn lemma_walk_visits_exactly_the_dirs(prefix: Seq<char>, t: DirTree, p: Seq<char>)
    ensures
        spec_dir_paths(prefix, t).contains(p) <==> spec_is_dir_path(prefix, t, p),
    decreases t,
{
    let head = seq![prefix + t.name@];
    let child_prefix = prefix + t.name@ + seq!['/'];
    let rest = spec_subdir_paths(child_prefix, t.subdirs@, t.subdirs@.len() as int);
    lemma_contains_concat(head, rest, p);
    assert(head.contains(p) <==> p == prefix + t.name@) by {
        if p == prefix + t.name@ {
            assert(head[0] == p);
        }
    }
    lemma_subdir_paths_membership(child_prefix, t.subdirs@, t.subdirs@.len() as int, p);
}

proof fn lemma_subdir_paths_membership(prefix: Seq<char>, ts: Seq<DirTree>, n: int, p: Seq<char>)
    ensures
        spec_subdir_paths(prefix, ts, n).contains(p) <==> spec_is_subdir_path(prefix, ts, n, p),
    decreases ts, n,
{
    if 0 < n <= ts.len() {
        lemma_contains_concat(
            spec_subdir_paths(prefix, ts, n - 1),
            spec_dir_paths(prefix, ts[n - 1]),
            p,
        );
        lemma_subdir_paths_membership(prefix, ts, n - 1, p);
        lemma_walk_visits_exactly_the_dirs(prefix, ts[n - 1], p);
    }
}

/// Whether the subdirectories of `t` are well formed: as on a real
/// filesystem, sibling directories carry distinct names, and each name is
/// nonempty and free of the separator, recursively.  Nothing is asked of
/// the root's own name, which may be a whole path.
pub open spec fn spec_wf(t: DirTree) -> bool
    decreases t, 0int,
{
    &&& (forall|i: int, j: int|
        0 <= i < j < t.subdirs@.len() ==> (#[trigger] t.subdirs@[i]).name@ != (
        #[trigger] t.subdirs@[j]).name@)
    &&& (forall|i: int| 0 <= i < t.subdirs@.len() ==> spec_wf_entry(#[trigger] t.subdirs@[i]))
}

/// Well-formedness of one subdirectory: a nonempty, separator-free name,
/// and well-formed subdirectories of its own.
pub open spec fn spec_wf_entry(t: DirTree) -> bool
    decreases t, 1int,
{
    &&& t.name@.len() > 0
    &&& !t.name@.contains('/')
    &&& spec_wf(t)
}

/// A path listed somewhere in the first `n` subtrees is listed by one of
/// them.
proof fn lemma_subpaths_member_source(prefix: Seq<char>, ts: Seq<DirTree>, n: int, p: Seq<char>)
    requires
        spec_subdir_paths(prefix, ts, n).contains(p),
    ensures
        exists|i: int| 0 <= i < n && #[trigger] spec_dir_paths(prefix, ts[i]).contains(p),
    decreases n,
{
    if 0 < n <= ts.len() {
        lemma_contains_concat(
            spec_subdir_paths(prefix, ts, n - 1),
            spec_dir_paths(prefix, ts[n - 1]),
            p,
        );
        if spec_subdir_paths(prefix, ts, n - 1).contains(p) {
            lemma_subpaths_member_source(prefix, ts, n - 1, p);
        } else {
            assert(spec_dir_paths(prefix, ts[n - 1]).contains(p));
        }
    }
}

/// Every path a walk of `t` under `prefix` lists starts with
/// `prefix + t.name`, and is either exactly that or continues with the
/// separator.
proof fn lemma_path_shape(prefix: Seq<char>, t: DirTree, p: Seq<char>)
    requires
        spec_dir_paths(prefix, t).contains(p),
    ensures
        p.len() >= prefix.len() + t.name@.len(),
        p.subrange(0, (prefix.len() + t.name@.len()) as int) == prefix + t.name@,
        p.len() > prefix.len() + t.name@.len() ==> p[(prefix.len() + t.name@.len()) as int]
            == '/',
    decreases t,
{
    let base = prefix + t.name@;
    let bl = base.len() as int;
    let cp = base + seq!['/'];
    let rest = spec_subdir_paths(cp, t.subdirs@, t.subdirs@.len() as int);
    lemma_contains_concat(seq![base], rest, p);
    if seq![base].contains(p) {
        assert(p == seq![base][0]);
        assert(p.subrange(0, bl) =~= base);
    } else {
        assert(rest.contains(p));
        lemma_subpaths_member_source(cp, t.subdirs@, t.subdirs@.len() as int, p);
        let i = choose|i: int|
            0 <= i < t.subdirs@.len() && #[trigger] spec_dir_paths(cp, t.subdirs@[i]).contains(p);
        lemma_path_shape(cp, t.subdirs@[i], p);
        let m = (cp.len() + t.subdirs@[i].name@.len()) as int;
        assert forall|k: int| 0 <= k < bl implies p[k] == base[k] by {
            assert(p.subrange(0, m)[k] == p[k]);
            assert((cp + t.subdirs@[i].name@)[k] == cp[k]);
        }
        assert(p.subrange(0, bl) =~= base);
        assert(p.subrange(0, m)[bl] == p[bl]);
        assert((cp + t.subdirs@[i].name@)[bl] == cp[bl]);
        assert(p[bl] == '/');
    }
}

/// Two subtrees with different names never list the same path.
proof fn lemma_distinct_names_distinct_paths(prefix: Seq<char>, a: DirTree, b: DirTree, p: Seq<char>)
    requires
        !a.name@.contains('/'),
        !b.name@.contains('/'),
        a.name@ != b.name@,
        spec_dir_paths(prefix, a).contains(p),
    ensures
        !spec_dir_paths(prefix, b).contains(p),
{
    if spec_dir_paths(prefix, b).contains(p) {
        lemma_path_shape(prefix, a, p);
        lemma_path_shape(prefix, b, p);
        let pl = prefix.len() as int;
        let la = a.name@.len() as int;
        let lb = b.name@.len() as int;
        if la == lb {
            assert forall|k: int| 0 <= k < la implies a.name@[k] == b.name@[k] by {
                assert(p.subrange(0, pl + la)[pl + k] == p[pl + k]);
                assert(p.subrange(0, pl + lb)[pl + k] == p[pl + k]);
                assert((prefix + a.name@)[pl + k] == a.name@[k]);
                assert((prefix + b.name@)[pl + k] == b.name@[k]);
            }
            assert(a.name@ =~= b.name@);
        } else if la < lb {
            assert(p.subrange(0, pl + lb)[pl + la] == p[pl + la]);
            assert((prefix + b.name@)[pl + la] == b.name@[la]);
            assert(b.name@[la] != '/') by {
                if b.name@[la] == '/' {
                    assert(b.name@.contains('/'));
                }
            }
            assert(p.len() >= pl + lb > pl + la);
            assert(p[pl + la] == '/');
        } else {
            assert(p.subrange(0, pl + la)[pl + lb] == p[pl + lb]);
            assert((prefix + a.name@)[pl + lb] == a.name@[lb]);
            assert(a.name@[lb] != '/') by {
                if a.name@[lb] == '/' {
                    assert(a.name@.contains('/'));
                }
            }
            assert(p.len() >= pl + la > pl + lb);
            assert(p[pl + lb] == '/');
        }
    }
}

proof fn lemma_no_dup_concat<A>(a: Seq<A>, b: Seq<A>)
    requires
        a.no_duplicates(),
        b.no_duplicates(),
        forall|i: int, j: int| 0 <= i < a.len() && 0 <= j < b.len() ==> a[i] != b[j],
    ensures
        (a + b).no_duplicates(),
{
    assert forall|i: int, j: int|
        0 <= i < (a + b).len() && 0 <= j < (a + b).len() && i != j implies (a + b)[i] != (a
        + b)[j] by {
        if i < a.len() && j < a.len() {
            assert((a + b)[i] == a[i] && (a + b)[j] == a[j]);
        } else if i < a.len() {
            assert((a + b)[i] == a[i] && (a + b)[j] == b[j - a.len()]);
        } else if j < a.len() {
            assert((a + b)[i] == b[i - a.len()] && (a + b)[j] == a[j]);
        } else {
            assert((a + b)[i] == b[i - a.len()] && (a + b)[j] == b[j - a.len()]);
        }
    }
}

proof fn lemma_subpaths_no_dup(prefix: Seq<char>, ts: Seq<DirTree>, n: int)
    requires
        n <= ts.len(),
        forall|i: int| 0 <= i < ts.len() ==> spec_wf_entry(#[trigger] ts[i]),
        forall|i: int, j: int|
            0 <= i < j < ts.len() ==> (#[trigger] ts[i]).name@ != (#[trigger] ts[j]).name@,
    ensures
        spec_subdir_paths(prefix, ts, n).no_duplicates(),
    decreases ts, n,
{
    if 0 < n <= ts.len() {
        let prev = spec_subdir_paths(prefix, ts, n - 1);
        let last = spec_dir_paths(prefix, ts[n - 1]);
        lemma_subpaths_no_dup(prefix, ts, n - 1);
        assert(spec_wf_entry(ts[n - 1]));
        lemma_walk_lists_each_dir_once(prefix, ts[n - 1]);
        assert forall|i: int, j: int|
            0 <= i < prev.len() && 0 <= j < last.len() implies prev[i] != last[j] by {
            if prev[i] == last[j] {
                let p = prev[i];
                assert(prev.contains(p));
                assert(last.contains(p));
                lemma_subpaths_member_source(prefix, ts, n - 1, p);
                let k = choose|k: int|
                    0 <= k < n - 1 && #[trigger] spec_dir_paths(prefix, ts[k]).contains(p);
                assert(spec_wf_entry(ts[k]));
                lemma_distinct_names_distinct_paths(prefix, ts[k], ts[n - 1], p);
            }
        }
        lemma_no_dup_concat(prev, last);
    }
}

/// Walking a well-formed tree lists no path twice: together with
/// [`lemma_walk_counts_each_dir_once`] and
/// [`lemma_walk_visits_exactly_the_dirs`], every directory of the tree is
/// visited exactly once.
pub proof fn lemma_walk_lists_each_dir_once(prefix: Seq<char>, t: DirTree)
    requires
        spec_wf(t),
    ensures
        spec_dir_paths(prefix, t).no_duplicates(),
    decreases t,
{
    let base = prefix + t.name@;
    let cp = base + seq!['/'];
    let rest = spec_subdir_paths(cp, t.subdirs@, t.subdirs@.len() as int);
    lemma_subpaths_no_dup(cp, t.subdirs@, t.subdirs@.len() as int);
    assert forall|j: int| 0 <= j < rest.len() implies rest[j] != base by {
        if rest[j] == base {
            assert(rest.contains(base));
            lemma_subpaths_member_source(cp, t.subdirs@, t.subdirs@.len() as int, base);
            let i = choose|i: int|
                0 <= i < t.subdirs@.len() && #[trigger] spec_dir_paths(
                    cp,
                    t.subdirs@[i],
                ).contains(base);
            assert(spec_wf_entry(t.subdirs@[i]));
            lemma_path_shape(cp, t.subdirs@[i], base);
        }
    }
    assert forall|i: int, j: int|
        0 <= i < seq![base].len() && 0 <= j < rest.len() implies seq![base][i] != rest[j] by {
        assert(seq![base][i] == base);
    }
    lemma_no_dup_concat(seq![base], rest);
}

proof fn lemma_contains_concat<A>(a: Seq<A>, b: Seq<A>, x: A)
    ensures
        (a + b).contains(x) <==> a.contains(x) || b.contains(x),
{
    if a.contains(x) {
        let i = choose|i: int| 0 <= i < a.len() && a[i] == x;
        assert((a + b)[i] == x);
    }
    if b.contains(x) {
        let i = choose|i: int| 0 <= i < b.len() && b[i] == x;
        assert((a + b)[a.len() + i] == x);
    }
    if (a + b).contains(x) {
        let i = choose|i: int| 0 <= i < (a + b).len() && (a + b)[i] == x;
        if i < a.len() {
            assert(a[i] == x);
        } else {
            assert(b[i - a.len()] == x);
        }
    }
}

} // verus!
