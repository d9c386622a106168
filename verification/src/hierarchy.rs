//! The department hierarchy of a tenant, as the parent links of its
//! departments: which departments lie above which, and why a save that
//! passes the cycle check keeps the hierarchy free of cycles.
use vstd::prelude::*;

use crate::text::same_text;

verus! {

/// The parent links of a tenant's departments: each department's id and
/// the id of its parent, if it has one.
pub type Hierarchy = Seq<(Seq<char>, Option<Seq<char>>)>;

/// The text of an optional string.
pub open spec fn optional_text(s: Option<String>) -> Option<Seq<char>> {
    match s {
        Some(t) => Some(t@),
        None => None,
    }
}

/// The hierarchy that parent links (department id, parent id) describe.
pub open spec fn hierarchy(links: Seq<(String, Option<String>)>) -> Hierarchy {
    links.map_values(|l: (String, Option<String>)| (l.0@, optional_text(l.1)))
}

/// The position of the first entry for `x` in a table keyed by id (the
/// number of entries when there is none).
pub open spec fn find_link<V>(h: Seq<(Seq<char>, V)>, x: Seq<char>) -> nat
    decreases h.len(),
{
    if h.len() == 0 {
        0
    } else if h[0].0 == x {
        0
    } else {
        1 + find_link(h.drop_first(), x)
    }
}

/// The parent of department `x`: the one that its first link names, if any.
pub open spec fn parent_of(h: Hierarchy, x: Seq<char>) -> Option<Seq<char>> {
    if find_link(h, x) < h.len() {
        h[find_link(h, x) as int].1
    } else {
        None
    }
}

/// The department `k` levels above `x` (`x` itself at level 0), if the
/// chain of parents reaches that far.
pub open spec fn above(h: Hierarchy, x: Seq<char>, k: nat) -> Option<Seq<char>>
    decreases k,
{
    if k == 0 {
        Some(x)
    } else {
        match parent_of(h, x) {
            Some(p) => above(h, p, (k - 1) as nat),
            None => None,
        }
    }
}

/// Whether `a` is `d` or lies above `d` in the hierarchy.
pub open spec fn is_ancestor_or_self(h: Hierarchy, a: Seq<char>, d: Seq<char>) -> bool {
    exists|k: nat| above(h, d, k) == Some(a)
}

/// No department lies above itself.
pub open spec fn acyclic(h: Hierarchy) -> bool {
    forall|x: Seq<char>, k: nat| k >= 1 ==> above(h, x, k) != Some(x)
}

/// The hierarchy after department `id` is saved with parent `parent`:
/// its first link changes, or a link is added when it has none.
pub open spec fn with_parent(h: Hierarchy, id: Seq<char>, parent: Option<Seq<char>>) -> Hierarchy {
    if find_link(h, id) < h.len() {
        h.update(find_link(h, id) as int, (id, parent))
    } else {
        h.push((id, parent))
    }
}

/// `find_link` is the first position whose entry is for `x`.
pub proof fn lemma_find_link<V>(h: Seq<(Seq<char>, V)>, x: Seq<char>, j: int)
    requires
        0 <= j <= h.len(),
        forall|k: int| 0 <= k < j ==> #[trigger] h[k].0 != x,
        j == h.len() || h[j].0 == x,
    ensures
        find_link(h, x) == j,
    decreases j,
{
    if j > 0 {
        let t = h.drop_first();
        assert forall|k: int| 0 <= k < j - 1 implies #[trigger] t[k].0 != x by {
            assert(t[k] == h[k + 1]);
        }
        if j < h.len() {
            assert(t[j - 1] == h[j]);
        }
        assert(h[0].0 != x);
        lemma_find_link(t, x, j - 1);
    }
}

/// What `find_link` gives: no earlier entry is for `x`, and the one found is.
pub proof fn lemma_find_link_found<V>(h: Seq<(Seq<char>, V)>, x: Seq<char>)
    ensures
        find_link(h, x) <= h.len(),
        forall|k: int| 0 <= k < find_link(h, x) ==> #[trigger] h[k].0 != x,
        find_link(h, x) < h.len() ==> h[find_link(h, x) as int].0 == x,
    decreases h.len(),
{
    if h.len() > 0 && h[0].0 != x {
        let t = h.drop_first();
        lemma_find_link_found(t, x);
        assert forall|k: int| 0 <= k < find_link(h, x) implies #[trigger] h[k].0 != x by {
            if k > 0 {
                assert(h[k] == t[k - 1]);
            }
        }
        if find_link(h, x) < h.len() {
            assert(h[find_link(h, x) as int] == t[find_link(t, x) as int]);
        }
    }
}

/// Going up `a` levels and then `b` more is going up `a + b` levels.
pub proof fn lemma_above_compose(h: Hierarchy, x: Seq<char>, a: nat, b: nat, y: Seq<char>)
    requires
        above(h, x, a) == Some(y),
    ensures
        above(h, x, a + b) == above(h, y, b),
    decreases a,
{
    if a > 0 {
        let p = parent_of(h, x)->0;
        lemma_above_compose(h, p, (a - 1) as nat, b, y);
        assert((a + b - 1) as nat == (a - 1) as nat + b);
    }
}

/// Once a chain of parents reaches a department without a parent it ends:
/// if it met `id` on none of its levels, `id` is not above its start.
proof fn lemma_chain_ends(h: Hierarchy, start: Seq<char>, id: Seq<char>, k: nat, top: Seq<char>)
    requires
        above(h, start, k) == Some(top),
        parent_of(h, top) is None,
        top != id,
        forall|s: nat| s < k ==> above(h, start, s) != Some(id),
    ensures
        !is_ancestor_or_self(h, id, start),
{
    assert forall|m: nat| above(h, start, m) != Some(id) by {
        if m > k {
            lemma_above_compose(h, start, k, (m - k) as nat, top);
            assert(k + (m - k) as nat == m);
        }
    }
}

/// A chain of parents that comes back to a department it met before goes
/// round for ever: if it met `id` on none of the levels before, it never does.
proof fn lemma_chain_cycles(
    h: Hierarchy,
    start: Seq<char>,
    id: Seq<char>,
    s: nat,
    k: nat,
    c: Seq<char>,
    m: nat,
)
    requires
        s < k,
        above(h, start, s) == Some(c),
        above(h, start, k) == Some(c),
        forall|t: nat| t < k ==> above(h, start, t) != Some(id),
    ensures
        above(h, start, m) != Some(id),
    decreases m,
{
    if m >= k {
        lemma_above_compose(h, start, k, (m - k) as nat, c);
        lemma_above_compose(h, start, s, (m - k) as nat, c);
        assert(k + (m - k) as nat == m);
        lemma_chain_cycles(h, start, id, s, k, c, (s + (m - k)) as nat);
    }
}

/// The number of `true` entries of `s`.
pub open spec fn marked(s: Seq<bool>) -> nat
    decreases s.len(),
{
    if s.len() == 0 {
        0
    } else {
        marked(s.drop_last()) + if s.last() {
            1nat
        } else {
            0nat
        }
    }
}

proof fn lemma_marked_bound(s: Seq<bool>)
    ensures
        marked(s) <= s.len(),
    decreases s.len(),
{
    if s.len() > 0 {
        lemma_marked_bound(s.drop_last());
    }
}

proof fn lemma_marked_update(s: Seq<bool>, j: int)
    requires
        0 <= j < s.len(),
        !s[j],
    ensures
        marked(s.update(j, true)) == marked(s) + 1,
    decreases s.len(),
{
    let u = s.update(j, true);
    if j < s.len() - 1 {
        assert(u.drop_last() =~= s.drop_last().update(j, true));
        lemma_marked_update(s.drop_last(), j);
    } else {
        assert(u.drop_last() =~= s.drop_last());
    }
}

/// The position of the first link of department `x`.
fn find_link_of(links: &Vec<(String, Option<String>)>, x: &str) -> (j: usize)
    ensures
        j == find_link(hierarchy(links@), x@),
{
    let ghost h = hierarchy(links@);
    let n = links.len();
    let mut j: usize = 0;
    while j < n
        invariant
            n == links@.len(),
            h == hierarchy(links@),
            j <= n,
            forall|k: int| 0 <= k < j ==> #[trigger] h[k].0 != x@,
        decreases n - j,
    {
        if same_text(links[j].0.as_str(), x) {
            proof {
                lemma_find_link(h, x@, j as int);
            }
            return j;
        }
        j = j + 1;
    }
    proof {
        lemma_find_link(h, x@, n as int);
    }
    n
}

/// Whether saving department `id` with parent `parent` would close a cycle
/// in the hierarchy that `links` describe: whether `id` is `parent` itself
/// or lies above it.
pub fn closes_cycle(links: &Vec<(String, Option<String>)>, id: &str, parent: &str) -> (res: bool)
    ensures
        res == is_ancestor_or_self(hierarchy(links@), id@, parent@),
{
    let ghost h = hierarchy(links@);
    let n = links.len();
    let mut used: Vec<bool> = Vec::new();
    while used.len() < n
        invariant
            used@.len() <= n,
            forall|t: int| 0 <= t < used@.len() ==> !#[trigger] used@[t],
        decreases n - used@.len(),
    {
        used.push(false);
    }
    assert(marked(used@) == 0) by {
        lemma_marked_zero(used@);
    }
    let mut cur: &str = parent;
    let ghost mut k: nat = 0;
    loop
        invariant
            n == links@.len(),
            h == hierarchy(links@),
            used@.len() == n,
            above(h, parent@, k) == Some(cur@),
            forall|s: nat| s < k ==> above(h, parent@, s) != Some(id@),
            forall|t: int|
                0 <= t < n && #[trigger] used@[t] ==> exists|s: nat|
                    s < k && above(h, parent@, s) == Some(h[t].0),
            marked(used@) <= n,
        decreases n - marked(used@),
    {
        if same_text(cur, id) {
            return true;
        }
        let j = find_link_of(links, cur);
        proof {
            lemma_find_link_found(h, cur@);
        }
        if j == n {
            proof {
                lemma_chain_ends(h, parent@, id@, k, cur@);
            }
            return false;
        }
        assert(h[j as int].0 == cur@);
        match &links[j].1 {
            None => {
                proof {
                    lemma_chain_ends(h, parent@, id@, k, cur@);
                }
                return false;
            },
            Some(p) => {
                if used[j] {
                    proof {
                        let s = choose|s: nat| s < k && above(h, parent@, s) == Some(h[j as int].0);
                        assert forall|m: nat| above(h, parent@, m) != Some(id@) by {
                            lemma_chain_cycles(h, parent@, id@, s, k, cur@, m);
                        }
                    }
                    return false;
                }
                proof {
                    lemma_marked_update(used@, j as int);
                    lemma_marked_bound(used@.update(j as int, true));
                    assert(parent_of(h, cur@) == Some(p@));
                    assert(above(h, p@, 0) == Some(p@));
                    assert(above(h, cur@, 1) == Some(p@));
                    lemma_above_compose(h, parent@, k, 1, cur@);
                }
                let ghost before = used@;
                used.set(j, true);
                cur = p.as_str();
                proof {
                    assert forall|t: int|
                        0 <= t < n && #[trigger] used@[t] implies exists|s: nat|
                        s < k + 1 && above(h, parent@, s) == Some(h[t].0) by {
                        if t == j {
                            assert(above(h, parent@, k) == Some(h[t].0));
                        } else {
                            assert(before[t]);
                            let s = choose|s: nat| s < k && above(h, parent@, s) == Some(h[t].0);
                            assert(above(h, parent@, s) == Some(h[t].0));
                        }
                    }
                    k = k + 1;
                }
            },
        }
    }
}

proof fn lemma_marked_zero(s: Seq<bool>)
    requires
        forall|t: int| 0 <= t < s.len() ==> !#[trigger] s[t],
    ensures
        marked(s) == 0,
    decreases s.len(),
{
    if s.len() > 0 {
        lemma_marked_zero(s.drop_last());
    }
}

/// Saving department `id` with parent `parent` changes the parent of `id`
/// and of no other department.
pub proof fn lemma_parent_after_save(h: Hierarchy, id: Seq<char>, parent: Option<Seq<char>>, x: Seq<char>)
    ensures
        parent_of(with_parent(h, id, parent), x) == if x == id {
            parent
        } else {
            parent_of(h, x)
        },
{
    let g = with_parent(h, id, parent);
    let j = find_link(h, id);
    let jx = find_link(h, x);
    lemma_find_link_found(h, id);
    lemma_find_link_found(h, x);
    if j < h.len() {
        if x == id {
            assert forall|k: int| 0 <= k < j implies #[trigger] g[k].0 != x by {
                assert(g[k] == h[k]);
            }
            lemma_find_link(g, x, j as int);
        } else {
            assert forall|k: int| 0 <= k < jx implies #[trigger] g[k].0 != x by {
                if k != j {
                    assert(g[k] == h[k]);
                }
            }
            if jx < h.len() {
                assert(g[jx as int] == h[jx as int]);
            }
            lemma_find_link(g, x, jx as int);
        }
    } else {
        if x == id {
            assert forall|k: int| 0 <= k < j implies #[trigger] g[k].0 != x by {
                assert(g[k] == h[k]);
            }
            lemma_find_link(g, x, j as int);
        } else if jx < h.len() {
            assert forall|k: int| 0 <= k < jx implies #[trigger] g[k].0 != x by {
                assert(g[k] == h[k]);
            }
            assert(g[jx as int] == h[jx as int]);
            lemma_find_link(g, x, jx as int);
        } else {
            assert forall|k: int| 0 <= k < g.len() implies #[trigger] g[k].0 != x by {
                if k < h.len() {
                    assert(g[k] == h[k]);
                }
            }
            lemma_find_link(g, x, g.len() as int);
        }
    }
}

/// A chain of parents after a save either is one before it, or reaches the
/// saved department before it, and goes on from there.
proof fn lemma_chain_after_save(
    h: Hierarchy,
    id: Seq<char>,
    parent: Option<Seq<char>>,
    y: Seq<char>,
    m: nat,
    z: Seq<char>,
)
    requires
        above(with_parent(h, id, parent), y, m) == Some(z),
    ensures
        above(h, y, m) == Some(z) || exists|j: nat|
            j < m && above(h, y, j) == Some(id) && above(with_parent(h, id, parent), id, (m - j) as nat)
                == Some(z),
    decreases m,
{
    let g = with_parent(h, id, parent);
    if m > 0 {
        if y == id {
            assert(above(h, y, 0) == Some(id));
            assert((m - 0) as nat == m);
        } else {
            lemma_parent_after_save(h, id, parent, y);
            let q = parent_of(g, y)->0;
            lemma_chain_after_save(h, id, parent, q, (m - 1) as nat, z);
            if above(h, q, (m - 1) as nat) == Some(z) {
            } else {
                let j = choose|j: nat|
                    j < (m - 1) as nat && above(h, q, j) == Some(id) && above(g, id, ((m - 1) as nat - j) as nat)
                        == Some(z);
                assert(above(h, y, j + 1) == above(h, q, j));
                assert(((m - 1) as nat - j) as nat == (m - (j + 1)) as nat);
            }
        }
    }
}

/// Saving a department with a parent that it is not, and that it does not
/// lie above, keeps a hierarchy without cycles free of cycles.
pub proof fn lemma_save_keeps_acyclic(h: Hierarchy, id: Seq<char>, parent: Option<Seq<char>>)
    requires
        acyclic(h),
        parent matches Some(p) ==> !is_ancestor_or_self(h, id, p),
    ensures
        acyclic(with_parent(h, id, parent)),
{
    let g = with_parent(h, id, parent);
    assert forall|x: Seq<char>, k: nat| k >= 1 implies above(g, x, k) != Some(x) by {
        if above(g, x, k) == Some(x) {
            lemma_chain_after_save(h, id, parent, x, k, x);
            if above(h, x, k) == Some(x) {
                assert(false);
            } else {
                let j = choose|j: nat|
                    j < k && above(h, x, j) == Some(id) && above(g, id, (k - j) as nat) == Some(x);
                let r = (k - j) as nat;
                lemma_parent_after_save(h, id, parent, id);
                let p = parent->0;
                assert(above(g, p, (r - 1) as nat) == Some(x));
                lemma_chain_after_save(h, id, parent, p, (r - 1) as nat, x);
                if above(h, p, (r - 1) as nat) == Some(x) {
                    lemma_above_compose(h, p, (r - 1) as nat, j, x);
                    assert(above(h, p, (r - 1) as nat + j) == Some(id));
                } else {
                    let j2 = choose|j2: nat|
                        j2 < (r - 1) as nat && above(h, p, j2) == Some(id) && above(
                            g,
                            id,
                            ((r - 1) as nat - j2) as nat,
                        ) == Some(x);
                    assert(above(h, p, j2) == Some(id));
                }
            }
        }
    }
}

/// Whether some department has `id` as its parent.
pub open spec fn has_child(h: Hierarchy, id: Seq<char>) -> bool {
    exists|i: int| 0 <= i < h.len() && #[trigger] h[i].1 == Some(id)
}

/// Whether a department with id `x` is in the hierarchy.
pub open spec fn has_department(h: Hierarchy, x: Seq<char>) -> bool {
    exists|i: int| 0 <= i < h.len() && #[trigger] h[i].0 == x
}

/// Every parent that a link names is a department of the hierarchy.
pub open spec fn no_dangling_parent(h: Hierarchy) -> bool {
    forall|i: int|
        0 <= i < h.len() && (#[trigger] h[i]).1 is Some ==> has_department(h, h[i].1->0)
}

/// Whether a link is for a department other than `id`.
pub open spec fn other_than(id: Seq<char>) -> spec_fn((Seq<char>, Option<Seq<char>>)) -> bool {
    |l: (Seq<char>, Option<Seq<char>>)| l.0 != id
}

/// The hierarchy after department `id` is deleted.
pub open spec fn without_department(h: Hierarchy, id: Seq<char>) -> Hierarchy {
    h.filter(other_than(id))
}

/// Deleting a department that no department has as its parent leaves no
/// link naming a deleted parent.
pub proof fn lemma_delete_keeps_parents(h: Hierarchy, id: Seq<char>)
    requires
        no_dangling_parent(h),
        !has_child(h, id),
    ensures
        no_dangling_parent(without_department(h, id)),
{
    let pred = other_than(id);
    let g = without_department(h, id);
    broadcast use vstd::seq_lib::group_filter_ensures;

    assert forall|i: int| 0 <= i < g.len() && (#[trigger] g[i]).1 is Some implies has_department(
        g,
        g[i].1->0,
    ) by {
        assert(g.contains(g[i]));
        h.lemma_filter_contains_rev(pred, g[i]);
        assert(h.contains(g[i]));
        let a = choose|a: int| 0 <= a < h.len() && h[a] == g[i];
        let p = g[i].1->0;
        assert(h[a].1 is Some);
        assert(has_department(h, p));
        let k = choose|k: int| 0 <= k < h.len() && #[trigger] h[k].0 == p;
        if p == id {
            assert(h[a].1 == Some(id));
            assert(has_child(h, id));
        }
        assert(pred(h[k]));
        assert(g.contains(h[k]));
        let m = choose|m: int| 0 <= m < g.len() && g[m] == h[k];
        assert(g[m].0 == p);
    }
}

/// After a department is deleted no department with its id is left, so a
/// second delete of it finds nothing to delete.
pub proof fn lemma_deleted_department_is_gone(h: Hierarchy, id: Seq<char>)
    ensures
        !has_department(without_department(h, id), id),
        find_link(without_department(h, id), id) == without_department(h, id).len(),
{
    let pred = other_than(id);
    let g = without_department(h, id);
    broadcast use vstd::seq_lib::group_filter_ensures;

    assert forall|i: int| 0 <= i < g.len() implies #[trigger] g[i].0 != id by {
        assert(pred(g[i]));
    }
    lemma_find_link(g, id, g.len() as int);
}

/// Saving a department a second time with the same parent changes no link,
/// leaves every department in place, and passes the cycle check again.
pub proof fn lemma_save_again(h: Hierarchy, id: Seq<char>, parent: Option<Seq<char>>)
    ensures
        with_parent(with_parent(h, id, parent), id, parent) == with_parent(h, id, parent),
        forall|x: Seq<char>|
            has_department(h, x) ==> #[trigger] has_department(with_parent(h, id, parent), x),
        parent is Some && !is_ancestor_or_self(h, id, parent->0) ==> !is_ancestor_or_self(
            with_parent(h, id, parent),
            id,
            parent->0,
        ),
{
    let g = with_parent(h, id, parent);
    let j = find_link(h, id);
    lemma_find_link_found(h, id);
    if j < h.len() {
        assert forall|k: int| 0 <= k < j implies #[trigger] g[k].0 != id by {
            assert(g[k] == h[k]);
        }
        lemma_find_link(g, id, j as int);
        assert(g.update(j as int, (id, parent)) =~= g);
    } else {
        assert forall|k: int| 0 <= k < j implies #[trigger] g[k].0 != id by {
            assert(g[k] == h[k]);
        }
        lemma_find_link(g, id, j as int);
        assert(g.update(j as int, (id, parent)) =~= g);
    }
    assert forall|x: Seq<char>| has_department(h, x) implies #[trigger] has_department(g, x) by {
        let k = choose|k: int| 0 <= k < h.len() && #[trigger] h[k].0 == x;
        assert(g[k].0 == x);
    }
    if parent is Some && !is_ancestor_or_self(h, id, parent->0) {
        let p = parent->0;
        assert forall|m: nat| above(g, p, m) != Some(id) by {
            if above(g, p, m) == Some(id) {
                lemma_chain_after_save(h, id, parent, p, m, id);
                if above(h, p, m) == Some(id) {
                } else {
                    let j2 = choose|j2: nat|
                        j2 < m && above(h, p, j2) == Some(id) && above(g, id, (m - j2) as nat)
                            == Some(id);
                    assert(above(h, p, j2) == Some(id));
                }
            }
        }
    }
}

} // verus!
