//! Sub-assemblies: which boards are joined to which, directly or through
//! other boards.
use vstd::prelude::*;

verus! {

/// Whether boards `i` and `j` are joined, directly or through other boards,
/// by `edges` (pairs of board indices). Defined edge by edge: a path in the
/// graph with one more edge either avoids it or crosses it once.
pub open spec fn linked(edges: Seq<(usize, usize)>, i: int, j: int) -> bool
    decreases edges.len(),
{
    if edges.len() == 0 {
        i == j
    } else {
        let p = edges.drop_last();
        let a = edges.last().0 as int;
        let b = edges.last().1 as int;
        ||| linked(p, i, j)
        ||| linked(p, i, a) && linked(p, b, j)
        ||| linked(p, i, b) && linked(p, a, j)
    }
}

/// Being joined is an equivalence relation.
pub proof fn lemma_linked_equivalence(edges: Seq<(usize, usize)>)
    ensures
        forall|i: int| #[trigger] linked(edges, i, i),
        forall|i: int, j: int| #[trigger] linked(edges, i, j) ==> linked(edges, j, i),
        forall|i: int, j: int, k: int|
            #[trigger] linked(edges, i, j) && #[trigger] linked(edges, j, k) ==> linked(
                edges,
                i,
                k,
            ),
    decreases edges.len(),
{
    if edges.len() > 0 {
        let p = edges.drop_last();
        lemma_linked_equivalence(p);
        let a = edges.last().0 as int;
        let b = edges.last().1 as int;
        assert forall|i: int| #[trigger] linked(edges, i, i) by {
            assert(linked(p, i, i));
        }
        assert forall|i: int, j: int| #[trigger] linked(edges, i, j) implies linked(edges, j, i) by {
            if linked(p, i, j) {
                assert(linked(p, j, i));
            } else if linked(p, i, a) && linked(p, b, j) {
                assert(linked(p, j, b) && linked(p, a, i));
            } else {
                assert(linked(p, i, b) && linked(p, a, j));
                assert(linked(p, j, a) && linked(p, b, i));
            }
        }
        assert forall|i: int, j: int, k: int|
            #[trigger] linked(edges, i, j) && #[trigger] linked(edges, j, k) implies linked(
            edges,
            i,
            k,
        ) by {
            if linked(p, i, j) {
                if linked(p, j, k) {
                    assert(linked(p, i, k));
                } else if linked(p, j, a) && linked(p, b, k) {
                    assert(linked(p, i, a));
                } else {
                    assert(linked(p, j, b) && linked(p, a, k));
                    assert(linked(p, i, b));
                }
            } else if linked(p, i, a) && linked(p, b, j) {
                if linked(p, j, k) {
                    assert(linked(p, b, k));
                } else if linked(p, j, a) && linked(p, b, k) {
                } else {
                    assert(linked(p, j, b) && linked(p, a, k));
                    assert(linked(p, i, k));
                }
            } else {
                assert(linked(p, i, b) && linked(p, a, j));
                if linked(p, j, k) {
                    assert(linked(p, a, k));
                } else if linked(p, j, a) && linked(p, b, k) {
                    assert(linked(p, i, k));
                } else {
                    assert(linked(p, j, b) && linked(p, a, k));
                }
            }
        }
    }
}

/// Every edge joins its two boards.
pub proof fn lemma_edges_linked(edges: Seq<(usize, usize)>, t: int)
    requires
        0 <= t < edges.len(),
    ensures
        linked(edges, edges[t].0 as int, edges[t].1 as int),
    decreases edges.len(),
{
    let p = edges.drop_last();
    lemma_linked_equivalence(p);
    if t < edges.len() - 1 {
        lemma_edges_linked(p, t);
        assert(p[t] == edges[t]);
    } else {
        let a = edges.last().0 as int;
        let b = edges.last().1 as int;
        assert(linked(p, a, a) && linked(p, b, b));
    }
}

/// Being joined is the least such relation: any labelling of boards that
/// gives the two ends of every edge the same label gives joined boards the
/// same label.
pub proof fn lemma_linked_least(edges: Seq<(usize, usize)>, label: spec_fn(int) -> int, i: int, j: int)
    requires
        forall|t: int|
            0 <= t < edges.len() ==> label(#[trigger] edges[t].0 as int) == label(
                edges[t].1 as int,
            ),
        linked(edges, i, j),
    ensures
        label(i) == label(j),
    decreases edges.len(),
{
    if edges.len() > 0 {
        let p = edges.drop_last();
        let a = edges.last().0 as int;
        let b = edges.last().1 as int;
        assert(label(a) == label(b)) by {
            assert(edges[edges.len() - 1] == edges.last());
        }
        assert forall|t: int| 0 <= t < p.len() implies label(#[trigger] p[t].0 as int) == label(
            p[t].1 as int,
        ) by {
            assert(p[t] == edges[t]);
        }
        if linked(p, i, j) {
            lemma_linked_least(p, label, i, j);
        } else if linked(p, i, a) && linked(p, b, j) {
            lemma_linked_least(p, label, i, a);
            lemma_linked_least(p, label, b, j);
        } else {
            lemma_linked_least(p, label, i, b);
            lemma_linked_least(p, label, a, j);
        }
    }
}

/// Labels board indices `0..n` so that two boards share a label exactly
/// when they are joined.
fn component_labels(n: usize, edges: &Vec<(usize, usize)>) -> (labels: Vec<usize>)
    requires
        forall|t: int| 0 <= t < edges@.len() ==> (#[trigger] edges@[t]).0 < n && edges@[t].1 < n,
    ensures
        labels@.len() == n,
        forall|i: int, j: int|
            0 <= i < n && 0 <= j < n ==> (labels@[i] == labels@[j] <==> linked(edges@, i, j)),
{
    let mut labels: Vec<usize> = Vec::new();
    let mut i: usize = 0;
    while i < n
        invariant
            i <= n,
            labels@.len() == i,
            forall|k: int| 0 <= k < i ==> labels@[k] == k,
        decreases n - i,
    {
        labels.push(i);
        i = i + 1;
    }
    assert(edges@.take(0) =~= Seq::<(usize, usize)>::empty());
    let mut t: usize = 0;
    while t < edges.len()
        invariant
            forall|t: int| 0 <= t < edges@.len() ==> (#[trigger] edges@[t]).0 < n && edges@[t].1 < n,
            t <= edges.len(),
            labels@.len() == n,
            forall|i: int, j: int|
                0 <= i < n && 0 <= j < n ==> (labels@[i] == labels@[j] <==> linked(
                    edges@.take(t as int),
                    i,
                    j,
                )),
        decreases edges.len() - t,
    {
        let ghost p = edges@.take(t as int);
        let ghost before = labels@;
        let (a, b) = edges[t];
        let la = labels[a];
        let lb = labels[b];
        if la != lb {
            let mut k: usize = 0;
            while k < n
                invariant
                    k <= n,
                    labels@.len() == n,
                    before.len() == n,
                    la != lb,
                    forall|m: int|
                        0 <= m < k ==> labels@[m] == (if before[m] == lb {
                            la
                        } else {
                            before[m]
                        }),
                    forall|m: int| k <= m < n ==> labels@[m] == before[m],
                decreases n - k,
            {
                if labels[k] == lb {
                    labels.set(k, la);
                }
                k = k + 1;
            }
        }
        proof {
            lemma_linked_equivalence(p);
            let q = edges@.take(t + 1);
            assert(q.drop_last() =~= p);
            assert(q.last() == edges@[t as int]);
            assert forall|i: int, j: int| 0 <= i < n && 0 <= j < n implies (labels@[i]
                == labels@[j] <==> linked(q, i, j)) by {
                assert(before[a as int] == la && before[b as int] == lb);
                assert(linked(p, i, a as int) == (before[i] == la));
                assert(linked(p, i, b as int) == (before[i] == lb));
                assert(linked(p, j, a as int) == (before[j] == la));
                assert(linked(p, j, b as int) == (before[j] == lb));
                assert(linked(p, a as int, j) == linked(p, j, a as int));
                assert(linked(p, b as int, j) == linked(p, j, b as int));
                assert(linked(p, i, j) == (before[i] == before[j]));
                assert(linked(q, i, j) == (linked(p, i, j) || (linked(p, i, a as int) && linked(
                    p,
                    b as int,
                    j,
                )) || (linked(p, i, b as int) && linked(p, a as int, j))));
            }
        }
        t = t + 1;
    }
    assert(edges@.take(edges@.len() as int) =~= edges@);
    labels
}

/// All indices that share label `labels[i]`, ascending.
fn members(labels: &Vec<usize>, i: usize) -> (m: Vec<usize>)
    requires
        i < labels@.len(),
    ensures
        1 <= m@.len() <= labels@.len(),
        forall|x: int, y: int| 0 <= x < y < m@.len() ==> m@[x] < m@[y],
        forall|x: int|
            0 <= x < m@.len() ==> #[trigger] m@[x] < labels@.len() && labels@[m@[x] as int]
                == labels@[i as int],
        forall|k: int|
            0 <= k < labels@.len() && labels@[k] == labels@[i as int] ==> exists|x: int|
                0 <= x < m@.len() && #[trigger] m@[x] == k,
{
    let n = labels.len();
    let mut m: Vec<usize> = Vec::new();
    let mut k: usize = 0;
    while k < n
        invariant
            n == labels@.len(),
            i < n,
            k <= n,
            m@.len() <= k,
            k > i ==> m@.len() > 0,
            forall|x: int, y: int| 0 <= x < y < m@.len() ==> m@[x] < m@[y],
            forall|x: int|
                0 <= x < m@.len() ==> #[trigger] m@[x] < k && labels@[m@[x] as int] == labels@[i as int],
            forall|q: int|
                0 <= q < k && labels@[q] == labels@[i as int] ==> exists|x: int|
                    0 <= x < m@.len() && #[trigger] m@[x] == q,
        decreases n - k,
    {
        let ghost before = m@;
        if labels[k] == labels[i] {
            m.push(k);
            assert(m@[m@.len() - 1] == k);
        }
        assert forall|q: int|
            0 <= q < k + 1 && labels@[q] == labels@[i as int] implies exists|x: int|
                0 <= x < m@.len() && #[trigger] m@[x] == q by {
            if q < k {
                let x = choose|x: int| 0 <= x < before.len() && #[trigger] before[x] == q;
                assert(m@[x] == before[x]);
            } else {
                assert(m@[m@.len() - 1] == k);
            }
        }
        k = k + 1;
    }
    assert(labels@[i as int] == labels@[i as int]);
    m
}

fn copy_indices(v: &Vec<usize>) -> (c: Vec<usize>)
    ensures
        c@ == v@,
{
    let mut c: Vec<usize> = Vec::new();
    let mut k: usize = 0;
    while k < v.len()
        invariant
            k <= v.len(),
            c@ == v@.subrange(0, k as int),
        decreases v.len() - k,
    {
        c.push(v[k]);
        k = k + 1;
        assert(c@ =~= v@.subrange(0, k as int));
    }
    assert(v@.subrange(0, v.len() as int) =~= v@);
    c
}

/// Group `g` comes strictly before group `h`: it is smaller, or as large
/// and starting at a lower index.
pub open spec fn group_before(g: Seq<usize>, h: Seq<usize>) -> bool {
    g.len() < h.len() || (g.len() == h.len() && g[0] < h[0])
}

/// `groups` lists the classes of indices `0..n` under `same`: each group is
/// a whole class in ascending order, every index is in a group, different
/// groups are different classes, and groups run from smallest to largest
/// (equal sizes by lowest index).
pub open spec fn lists_classes(
    n: int,
    same: spec_fn(int, int) -> bool,
    groups: Seq<Seq<usize>>,
) -> bool {
    &&& forall|c: int| 0 <= c < groups.len() ==> #[trigger] groups[c].len() > 0
    &&& forall|c: int, x: int, y: int|
        0 <= c < groups.len() && 0 <= x < y < groups[c].len() ==> #[trigger] groups[c][x]
            < #[trigger] groups[c][y]
    &&& forall|c: int, x: int|
        0 <= c < groups.len() && 0 <= x < groups[c].len() ==> #[trigger] groups[c][x] < n
            && same(groups[c][0] as int, groups[c][x] as int)
    &&& forall|c: int, k: int|
        0 <= c < groups.len() && 0 <= k < n && #[trigger] same(groups[c][0] as int, k)
            ==> exists|x: int| 0 <= x < groups[c].len() && #[trigger] groups[c][x] == k
    &&& forall|c: int, d: int|
        0 <= c < groups.len() && 0 <= d < groups.len() && c != d ==> !same(
            #[trigger] groups[c][0] as int,
            #[trigger] groups[d][0] as int,
        )
    &&& forall|c: int, d: int|
        0 <= c < d < groups.len() ==> group_before(#[trigger] groups[c], #[trigger] groups[d])
    &&& forall|k: int| 0 <= k < n ==> #[trigger] in_some_group(groups, k)
}

/// Index `k` appears in one of the groups.
pub open spec fn in_some_group(groups: Seq<Seq<usize>>, k: int) -> bool {
    exists|c: int, x: int| 0 <= c < groups.len() && 0 <= x < groups[c].len() && #[trigger] groups[c][x] == k
}

/// Lists the classes of indices under equal labels (see `lists_classes`).
fn list_classes(labels: &Vec<usize>) -> (groups: Vec<Vec<usize>>)
    ensures
        lists_classes(
            labels@.len() as int,
            |i: int, j: int| labels@[i] == labels@[j],
            groups@.map_values(|g: Vec<usize>| g@),
        ),
{
    let n = labels.len();
    let mut all: Vec<Vec<usize>> = Vec::new();
    let mut i: usize = 0;
    while i < n
        invariant
            n == labels@.len(),
            i <= n,
            all@.len() == i,
            forall|r: int| 0 <= r < i ==> {
                let m = #[trigger] all@[r]@;
                &&& 1 <= m.len() <= n
                &&& forall|x: int, y: int| 0 <= x < y < m.len() ==> m[x] < m[y]
                &&& forall|x: int| 0 <= x < m.len() ==> #[trigger] m[x] < n && labels@[m[x] as int] == labels@[r]
                &&& forall|k: int| 0 <= k < n && labels@[k] == labels@[r] ==> exists|x: int|
                    0 <= x < m.len() && #[trigger] m[x] == k
            },
        decreases n - i,
    {
        let m = members(labels, i);
        all.push(m);
        i = i + 1;
    }
    let mut groups: Vec<Vec<usize>> = Vec::new();
    let ghost mut reps: Seq<usize> = Seq::empty();
    let mut s: usize = 0;
    while s < n
        invariant
            n == labels@.len(),
            all@.len() == n,
            s <= n,
            forall|r: int| 0 <= r < n ==> {
                let m = #[trigger] all@[r]@;
                &&& 1 <= m.len() <= n
                &&& forall|x: int, y: int| 0 <= x < y < m.len() ==> m[x] < m[y]
                &&& forall|x: int| 0 <= x < m.len() ==> #[trigger] m[x] < n && labels@[m[x] as int] == labels@[r]
                &&& forall|k: int| 0 <= k < n && labels@[k] == labels@[r] ==> exists|x: int|
                    0 <= x < m.len() && #[trigger] m[x] == k
            },
            reps.len() == groups@.len(),
            forall|c: int| 0 <= c < groups@.len() ==> #[trigger] reps[c] < n && groups@[c]@ == all@[reps[c] as int]@
                && all@[reps[c] as int]@[0] == reps[c] && all@[reps[c] as int]@.len() <= s,
            forall|c: int, d: int| 0 <= c < d < groups@.len() ==> group_before(#[trigger] groups@[c]@, #[trigger] groups@[d]@),
            forall|r: int| 0 <= r < n && all@[r]@[0] == r && #[trigger] all@[r]@.len() <= s ==> exists|c: int| 0 <= c < groups@.len() && #[trigger] reps[c] == r,
        decreases n - s,
    {
        let mut i: usize = 0;
        while i < n
            invariant
                n == labels@.len(),
                all@.len() == n,
                s < n,
                i <= n,
                forall|r: int| 0 <= r < n ==> {
                    let m = #[trigger] all@[r]@;
                    &&& 1 <= m.len() <= n
                    &&& forall|x: int, y: int| 0 <= x < y < m.len() ==> m[x] < m[y]
                    &&& forall|x: int| 0 <= x < m.len() ==> #[trigger] m[x] < n && labels@[m[x] as int] == labels@[r]
                    &&& forall|k: int| 0 <= k < n && labels@[k] == labels@[r] ==> exists|x: int|
                        0 <= x < m.len() && #[trigger] m[x] == k
                },
                reps.len() == groups@.len(),
                forall|c: int| 0 <= c < groups@.len() ==> #[trigger] reps[c] < n && groups@[c]@ == all@[reps[c] as int]@
                    && all@[reps[c] as int]@[0] == reps[c] && (all@[reps[c] as int]@.len() <= s
                    || (all@[reps[c] as int]@.len() == s + 1 && reps[c] < i)),
                forall|c: int, d: int| 0 <= c < d < groups@.len() ==> group_before(#[trigger] groups@[c]@, #[trigger] groups@[d]@),
                forall|r: int| 0 <= r < n && all@[r]@[0] == r && (#[trigger] all@[r]@.len() <= s
                    || (all@[r]@.len() == s + 1 && r < i)) ==> exists|c: int| 0 <= c < groups@.len() && #[trigger] reps[c] == r,
            decreases n - i,
        {
            assert(all@[i as int]@.len() > 0) by {
                assert(labels@[i as int] == labels@[i as int]);
            }
            let ghost old_reps = reps;
            if all[i][0] == i && all[i].len() == s + 1 {
                let g = copy_indices(&all[i]);
                proof {
                    let c = groups@.len();
                    assert forall|d: int| 0 <= d < c implies group_before(
                        #[trigger] groups@[d]@,
                        g@,
                    ) by {
                        let r = reps[d];
                        if all@[r as int]@.len() == s + 1 {
                            assert(g@[0] == i);
                        }
                    }
                }
                groups.push(g);
                proof {
                    reps = reps.push(i);
                }
            }
            proof {
                assert forall|r: int| 0 <= r < n && all@[r]@[0] == r && (#[trigger] all@[r]@.len() <= s
                    || (all@[r]@.len() == s + 1 && r < i + 1)) implies exists|c: int| 0 <= c < groups@.len() && #[trigger] reps[c] == r by {
                    if r == i && all@[r]@.len() == s + 1 {
                        assert(reps[reps.len() - 1] == i);
                    } else {
                        let c = choose|c: int| 0 <= c < old_reps.len() && #[trigger] old_reps[c] == r;
                        assert(reps[c] == old_reps[c]);
                    }
                }
            }
            i = i + 1;
        }
        s = s + 1;
    }
    let ghost gs = groups@.map_values(|g: Vec<usize>| g@);
    let ghost same = |i: int, j: int| labels@[i] == labels@[j];
    proof {
        assert forall|c: int| 0 <= c < gs.len() implies #[trigger] gs[c].len() > 0 by {
            assert(gs[c] == all@[reps[c] as int]@);
        }
        assert forall|c: int, d: int|
            0 <= c < gs.len() && 0 <= d < gs.len() && c != d implies !same(
            #[trigger] gs[c][0] as int,
            #[trigger] gs[d][0] as int,
        ) by {
            let rc = reps[c] as int;
            let rd = reps[d] as int;
            if labels@[rc] == labels@[rd] {
                let x = choose|x: int| 0 <= x < all@[rc]@.len() && #[trigger] all@[rc]@[x] == rd;
                let y = choose|y: int| 0 <= y < all@[rd]@.len() && #[trigger] all@[rd]@[y] == rc;
                if x > 0 {
                    assert(all@[rc]@[0] < all@[rc]@[x]);
                }
                if y > 0 {
                    assert(all@[rd]@[0] < all@[rd]@[y]);
                }
                assert(rc == rd);
                if c < d {
                    assert(group_before(groups@[c]@, groups@[d]@));
                } else {
                    assert(group_before(groups@[d]@, groups@[c]@));
                }
            }
        }
        assert forall|k: int| 0 <= k < n implies #[trigger] in_some_group(gs, k) by {
            let r = all@[k]@[0] as int;
            assert(labels@[k] == labels@[k]);
            assert(all@[k]@.len() > 0);
            assert(labels@[r] == labels@[k]);
            let y = choose|y: int| 0 <= y < all@[r]@.len() && #[trigger] all@[r]@[y] == k;
            let x = choose|x: int| 0 <= x < all@[k]@.len() && #[trigger] all@[k]@[x] == all@[r]@[0];
            if y > 0 {
                assert(all@[r]@[0] < all@[r]@[y]);
            }
            if x > 0 {
                assert(all@[k]@[0] < all@[k]@[x]);
            }
            assert(all@[r]@[0] == r);
            let c = choose|c: int| 0 <= c < groups@.len() && #[trigger] reps[c] == r;
            assert(gs[c] == all@[r]@);
            assert(gs[c][y] == k);
        }
        assert forall|c: int, k: int|
            0 <= c < gs.len() && 0 <= k < n && #[trigger] same(gs[c][0] as int, k) implies exists|x: int|
                0 <= x < gs[c].len() && #[trigger] gs[c][x] == k by {
            let r = reps[c] as int;
            assert(gs[c] == all@[r]@);
            assert(labels@[r] == labels@[k]);
        }
        assert forall|c: int, x: int|
            0 <= c < gs.len() && 0 <= x < gs[c].len() implies #[trigger] gs[c][x] < n
                && same(gs[c][0] as int, gs[c][x] as int) by {
            let r = reps[c] as int;
            assert(gs[c] == all@[r]@);
        }
        assert forall|c: int, x: int, y: int|
            0 <= c < gs.len() && 0 <= x < y < gs[c].len() implies #[trigger] gs[c][x]
                < #[trigger] gs[c][y] by {
            let r = reps[c] as int;
            assert(gs[c] == all@[r]@);
        }
        assert forall|c: int, d: int| 0 <= c < d < gs.len() implies group_before(
            #[trigger] gs[c],
            #[trigger] gs[d],
        ) by {
            assert(gs[c] == groups@[c]@ && gs[d] == groups@[d]@);
        }
    }
    groups
}

/// The sub-assemblies of boards `0..n` joined by `edges`, as index groups:
/// see `lists_classes`.
pub fn component_groups(n: usize, edges: &Vec<(usize, usize)>) -> (groups: Vec<Vec<usize>>)
    requires
        forall|t: int| 0 <= t < edges@.len() ==> (#[trigger] edges@[t]).0 < n && edges@[t].1 < n,
    ensures
        lists_classes(
            n as int,
            |i: int, j: int| linked(edges@, i, j),
            groups@.map_values(|g: Vec<usize>| g@),
        ),
{
    let labels = component_labels(n, edges);
    let groups = list_classes(&labels);
    proof {
        let gs = groups@.map_values(|g: Vec<usize>| g@);
        let by_label = |i: int, j: int| labels@[i] == labels@[j];
        let by_link = |i: int, j: int| linked(edges@, i, j);
        assert forall|c: int, x: int| 0 <= c < gs.len() && 0 <= x < gs[c].len() implies #[trigger] gs[c][x] < n
            && by_link(gs[c][0] as int, gs[c][x] as int) by {
            assert(gs[c][0] < n);
        }
        assert forall|c: int, k: int|
            0 <= c < gs.len() && 0 <= k < n && #[trigger] by_link(gs[c][0] as int, k)
                implies exists|x: int| 0 <= x < gs[c].len() && #[trigger] gs[c][x] == k by {
            assert(gs[c][0] < n);
            assert(by_label(gs[c][0] as int, k));
        }
        assert forall|c: int, d: int|
            0 <= c < gs.len() && 0 <= d < gs.len() && c != d implies !by_link(
            #[trigger] gs[c][0] as int,
            #[trigger] gs[d][0] as int,
        ) by {
            assert(gs[c][0] < n && gs[d][0] < n);
            assert(!by_label(gs[c][0] as int, gs[d][0] as int));
        }
    }
    groups
}

} // verus!
