//! The material list's bookkeeping: which boards are made of which
//! material, and how many pieces of each size a material provides.
use vstd::prelude::*;

use crate::instructions::positions_of;
use crate::output::{BoardInfo, CutListInput, PieceSummary};
use crate::text::{insert_sorted_distinct, strictly_sorted, string_views, text_eq};

verus! {

/// The materials of the boards, in board order.
pub open spec fn material_texts(boards: Seq<BoardInfo>) -> Seq<Seq<char>> {
    boards.map_values(|b: BoardInfo| b.material@)
}

/// The distinct materials of the boards, ascending.
pub fn sorted_materials(boards: &Vec<BoardInfo>) -> (r: Vec<String>)
    ensures
        strictly_sorted(string_views(r@)),
        string_views(r@).to_set() == material_texts(boards@).to_set(),
{
    let mut r: Vec<String> = Vec::new();
    let mut i: usize = 0;
    assert(string_views(r@).to_set() =~= material_texts(boards@).take(0).to_set());
    while i < boards.len()
        invariant
            i <= boards@.len(),
            strictly_sorted(string_views(r@)),
            string_views(r@).to_set() == material_texts(boards@).take(i as int).to_set(),
        decreases boards.len() - i,
    {
        let m = boards[i].material.clone();
        insert_sorted_distinct(&mut r, m);
        proof {
            let ms = material_texts(boards@);
            let a = ms.take(i as int);
            let b = ms.take(i + 1);
            assert(b =~= a.push(ms[i as int]));
            assert forall|x: Seq<char>| b.contains(x) <==> (a.contains(x) || x == ms[i as int]) by {
                if b.contains(x) {
                    let k = choose|k: int| 0 <= k < b.len() && b[k] == x;
                    if k < i {
                        assert(a[k] == x);
                    }
                }
                if a.contains(x) {
                    let k = choose|k: int| 0 <= k < a.len() && a[k] == x;
                    assert(b[k] == x);
                }
                if x == ms[i as int] {
                    assert(b[i as int] == x);
                }
            }
            assert(b.to_set() =~= a.to_set().insert(ms[i as int]));
        }
        i = i + 1;
    }
    assert(material_texts(boards@).take(boards@.len() as int) =~= material_texts(boards@));
    r
}

/// The positions of the boards made of `material`, ascending.
pub fn boards_of_material(boards: &Vec<BoardInfo>, material: &str) -> (r: Vec<usize>)
    ensures
        r@.map_values(|x: usize| x as int) == positions_of(material_texts(boards@), material@),
{
    let mut r: Vec<usize> = Vec::new();
    let mut i: usize = 0;
    while i < boards.len()
        invariant
            i <= boards@.len(),
            r@.map_values(|x: usize| x as int) == positions_of(material_texts(boards@).take(i as int), material@),
        decreases boards.len() - i,
    {
        let ghost ms = material_texts(boards@);
        assert(ms.take(i + 1).drop_last() =~= ms.take(i as int));
        assert(ms.take(i + 1).last() == boards@[i as int].material@);
        if text_eq(boards[i].material.as_str(), material) {
            r.push(i);
            assert(r@.map_values(|x: usize| x as int) =~= positions_of(ms.take(i as int), material@).push(i as int));
        }
        i = i + 1;
    }
    assert(material_texts(boards@).take(boards@.len() as int) =~= material_texts(boards@));
    r
}

/// The size keys of the boards at positions `g`, each once, in order of
/// first appearance.
pub open spec fn size_keys(sizes: Seq<(i64, i64, i64)>, g: Seq<usize>) -> Seq<(i64, i64, i64)>
    decreases g.len(),
{
    if g.len() == 0 {
        Seq::empty()
    } else {
        let prev = size_keys(sizes, g.drop_last());
        let k = sizes[g.last() as int];
        if prev.contains(k) {
            prev
        } else {
            prev.push(k)
        }
    }
}

/// How many of the boards at positions `g` have size `k`.
pub open spec fn size_count(sizes: Seq<(i64, i64, i64)>, g: Seq<usize>, k: (i64, i64, i64)) -> nat
    decreases g.len(),
{
    if g.len() == 0 {
        0
    } else {
        size_count(sizes, g.drop_last(), k) + if sizes[g.last() as int] == k {
            1nat
        } else {
            0nat
        }
    }
}

/// The first of the positions `g` whose board has size `k` (where one has).
pub open spec fn size_first(sizes: Seq<(i64, i64, i64)>, g: Seq<usize>, k: (i64, i64, i64)) -> int
    decreases g.len(),
{
    if g.len() == 0 {
        0
    } else if size_keys(sizes, g.drop_last()).contains(k) {
        size_first(sizes, g.drop_last(), k)
    } else {
        g.last() as int
    }
}

/// A piece summary as the contracts see it: label, quantity, dimensions.
pub open spec fn summary_view(p: PieceSummary) -> (Seq<char>, nat, Seq<char>) {
    (p.label@, p.quantity as nat, p.dimensions@)
}

/// One summary per size among the boards at positions `g`, in order of
/// first appearance: the label of the first of those boards, how many
/// boards have that size, and the printed dimensions of the first of them.
pub open spec fn size_summaries(
    boards: Seq<BoardInfo>,
    sizes: Seq<(i64, i64, i64)>,
    dims: Seq<Seq<char>>,
    g: Seq<usize>,
) -> Seq<(Seq<char>, nat, Seq<char>)> {
    size_keys(sizes, g).map_values(
        |k: (i64, i64, i64)| (boards[g[0] as int].label@, size_count(sizes, g, k), dims[size_first(sizes, g, k)]),
    )
}

/// The items whose quantity lies between `lo` and `hi`, the highest
/// quantity first and items of equal quantity in their given order.
pub open spec fn by_quantity(items: Seq<(Seq<char>, nat, Seq<char>)>, hi: int, lo: int) -> Seq<(Seq<char>, nat, Seq<char>)>
    decreases hi - lo + 1,
{
    if hi < lo {
        Seq::empty()
    } else {
        at_quantity(items, hi) + by_quantity(items, hi - 1, lo)
    }
}

/// The items of quantity `q`, in their given order.
pub open spec fn at_quantity(items: Seq<(Seq<char>, nat, Seq<char>)>, q: int) -> Seq<(Seq<char>, nat, Seq<char>)> {
    items.filter(has_quantity(q))
}

/// Whether an item has quantity `q`.
pub open spec fn has_quantity(q: int) -> spec_fn((Seq<char>, nat, Seq<char>)) -> bool {
    |t: (Seq<char>, nat, Seq<char>)| t.1 == q
}

/// Keys seen so far are distinct, and a key has been seen exactly when
/// some board has it.
proof fn lemma_size_keys(sizes: Seq<(i64, i64, i64)>, g: Seq<usize>)
    ensures
        size_keys(sizes, g).no_duplicates(),
        forall|k: (i64, i64, i64)| #[trigger] size_keys(sizes, g).contains(k) <==> size_count(sizes, g, k) > 0,
    decreases g.len(),
{
    if g.len() > 0 {
        let p = g.drop_last();
        lemma_size_keys(sizes, p);
        let prev = size_keys(sizes, p);
        let k = sizes[g.last() as int];
        if !prev.contains(k) {
            let nk = prev.push(k);
            assert forall|a: int, b: int| 0 <= a < nk.len() && 0 <= b < nk.len() && a != b implies nk[a] != nk[b] by {
                if a < prev.len() && b < prev.len() {
                    assert(nk[a] == prev[a] && nk[b] == prev[b]);
                } else if a < prev.len() {
                    assert(prev.contains(nk[a]));
                } else {
                    assert(prev.contains(nk[b]));
                }
            }
            assert forall|x: (i64, i64, i64)| #[trigger] nk.contains(x) <==> size_count(sizes, g, x) > 0 by {
                if nk.contains(x) && x != k {
                    let j = choose|j: int| 0 <= j < nk.len() && nk[j] == x;
                    assert(prev[j] == x);
                }
                if prev.contains(x) {
                    let j = choose|j: int| 0 <= j < prev.len() && prev[j] == x;
                    assert(nk[j] == x);
                }
                if x == k {
                    assert(nk[prev.len() as int] == x);
                }
            }
        }
    }
}

/// Taking in one more, lower quantity appends its items at the end.
proof fn lemma_by_quantity_extend(items: Seq<(Seq<char>, nat, Seq<char>)>, hi: int, lo: int)
    requires
        hi >= lo - 1,
    ensures
        by_quantity(items, hi, lo - 1) == by_quantity(items, hi, lo) + at_quantity(items, lo - 1),
    decreases hi - lo + 1,
{
    if hi >= lo {
        lemma_by_quantity_extend(items, hi - 1, lo);
        assert(by_quantity(items, hi, lo - 1) == at_quantity(items, hi) + by_quantity(items, hi - 1, lo - 1));
        assert(by_quantity(items, hi, lo) == at_quantity(items, hi) + by_quantity(items, hi - 1, lo));
        assert(by_quantity(items, hi, lo - 1) =~= by_quantity(items, hi, lo) + at_quantity(items, lo - 1));
    } else {
        assert(by_quantity(items, hi - 1, lo - 1) =~= Seq::<(Seq<char>, nat, Seq<char>)>::empty());
        assert(by_quantity(items, hi, lo) =~= Seq::<(Seq<char>, nat, Seq<char>)>::empty());
        assert(by_quantity(items, hi, lo - 1) =~= by_quantity(items, hi, lo) + at_quantity(items, lo - 1));
    }
}

/// Piece summaries come highest quantity first: every quantity lies between
/// the bounds, and no summary has a larger quantity than one before it.
pub proof fn lemma_by_quantity_sorted(items: Seq<(Seq<char>, nat, Seq<char>)>, hi: int, lo: int)
    ensures
        forall|i: int| 0 <= i < by_quantity(items, hi, lo).len() ==> lo <= (#[trigger] by_quantity(items, hi, lo)[i]).1 <= hi,
        forall|i: int, j: int|
            0 <= i < j < by_quantity(items, hi, lo).len() ==> (#[trigger] by_quantity(items, hi, lo)[i]).1
                >= (#[trigger] by_quantity(items, hi, lo)[j]).1,
    decreases hi - lo + 1,
{
    if hi >= lo {
        lemma_by_quantity_sorted(items, hi - 1, lo);
        let f = at_quantity(items, hi);
        let rest = by_quantity(items, hi - 1, lo);
        let all = by_quantity(items, hi, lo);
        assert(all == f + rest);
        assert forall|i: int| 0 <= i < f.len() implies (#[trigger] f[i]).1 == hi by {
            items.lemma_filter_pred(has_quantity(hi), i);
        }
        assert forall|i: int| 0 <= i < all.len() implies lo <= (#[trigger] all[i]).1 <= hi by {
            if i < f.len() {
                assert(all[i] == f[i]);
            } else {
                assert(all[i] == rest[i - f.len()]);
            }
        }
        assert forall|i: int, j: int| 0 <= i < j < all.len() implies (#[trigger] all[i]).1 >= (#[trigger] all[j]).1 by {
            if j < f.len() {
                assert(all[i] == f[i] && all[j] == f[j]);
            } else if i < f.len() {
                assert(all[i] == f[i] && all[j] == rest[j - f.len()]);
            } else {
                assert(all[i] == rest[i - f.len()] && all[j] == rest[j - f.len()]);
            }
        }
    }
}

/// Where `k` stands among `keys`, if it does.
fn key_index(keys: &Vec<(i64, i64, i64)>, k: (i64, i64, i64)) -> (r: Option<usize>)
    ensures
        r matches Some(c) ==> c < keys@.len() && keys@[c as int] == k,
        r is None ==> !keys@.contains(k),
{
    let mut c: usize = 0;
    while c < keys.len()
        invariant
            c <= keys@.len(),
            forall|d: int| 0 <= d < c ==> keys@[d] != k,
        decreases keys.len() - c,
    {
        let e = keys[c];
        if e.0 == k.0 && e.1 == k.1 && e.2 == k.2 {
            return Some(c);
        }
        c = c + 1;
    }
    None
}

/// The piece summaries of the boards at positions `g`, highest quantity
/// first (see `size_summaries` and `by_quantity`).
pub fn piece_summaries(
    boards: &Vec<BoardInfo>,
    sizes: &Vec<(i64, i64, i64)>,
    dims: &Vec<String>,
    g: &Vec<usize>,
) -> (r: Vec<PieceSummary>)
    requires
        sizes@.len() == boards@.len(),
        dims@.len() == boards@.len(),
        g@.len() <= u32::MAX,
        forall|x: int| 0 <= x < g@.len() ==> #[trigger] g@[x] < boards@.len(),
    ensures
        r@.map_values(|p: PieceSummary| summary_view(p)) == by_quantity(
            size_summaries(boards@, sizes@, string_views(dims@), g@),
            g@.len() as int,
            1,
        ),
{
    let mut keys: Vec<(i64, i64, i64)> = Vec::new();
    let mut counts: Vec<u32> = Vec::new();
    let mut firsts: Vec<usize> = Vec::new();
    let mut i: usize = 0;
    while i < g.len()
        invariant
            i <= g@.len(),
            g@.len() <= u32::MAX,
            sizes@.len() == boards@.len(),
            forall|x: int| 0 <= x < g@.len() ==> #[trigger] g@[x] < boards@.len(),
            keys@ == size_keys(sizes@, g@.take(i as int)),
            counts@.len() == keys@.len(),
            firsts@.len() == keys@.len(),
            forall|c: int| 0 <= c < keys@.len() ==> #[trigger] counts@[c] == size_count(sizes@, g@.take(i as int), keys@[c])
                && counts@[c] <= i,
            forall|c: int| 0 <= c < keys@.len() ==> #[trigger] firsts@[c] == size_first(sizes@, g@.take(i as int), keys@[c])
                && firsts@[c] < boards@.len(),
        decreases g.len() - i,
    {
        let x = g[i];
        let k = sizes[x];
        let ghost p = g@.take(i as int);
        let ghost q = g@.take(i + 1);
        proof {
            assert(q.drop_last() =~= p);
            assert(q.last() == x);
            lemma_size_keys(sizes@, p);
        }
        match key_index(&keys, k) {
            Some(c) => {
                let n = counts[c];
                counts.set(c, n + 1);
                proof {
                    assert forall|d: int| 0 <= d < keys@.len() implies #[trigger] counts@[d] == size_count(sizes@, q, keys@[d])
                        && counts@[d] <= i + 1 by {
                        if d != c {
                            assert(keys@[d] != keys@[c as int]);
                        }
                    }
                }
            },
            None => {
                proof {
                    assert(size_count(sizes@, p, k) == 0);
                }
                keys.push(k);
                counts.push(1);
                firsts.push(x);
                proof {
                    assert forall|d: int| 0 <= d < keys@.len() implies #[trigger] counts@[d] == size_count(sizes@, q, keys@[d])
                        && counts@[d] <= i + 1 by {
                        if d < keys@.len() - 1 {
                            assert(keys@[d] != k);
                        }
                    }
                    assert forall|d: int| 0 <= d < keys@.len() implies #[trigger] firsts@[d] == size_first(sizes@, q, keys@[d])
                        && firsts@[d] < boards@.len() by {
                        if d < keys@.len() - 1 {
                            assert(size_keys(sizes@, p).contains(keys@[d]));
                        }
                    }
                }
            },
        }
        i = i + 1;
    }
    proof {
        assert(g@.take(g@.len() as int) =~= g@);
    }
    let ghost items = size_summaries(boards@, sizes@, string_views(dims@), g@);
    let mut r: Vec<PieceSummary> = Vec::new();
    if g.len() == 0 {
        assert(items =~= Seq::<(Seq<char>, nat, Seq<char>)>::empty());
        assert(by_quantity(items, 0, 1) =~= Seq::<(Seq<char>, nat, Seq<char>)>::empty());
        return r;
    }
    let label = &boards[g[0]].label;
    let n = g.len() as u32;
    let mut level: u32 = n;
    while level >= 1
        invariant
            level <= n,
            n == g@.len(),
            items == size_summaries(boards@, sizes@, string_views(dims@), g@),
            keys@ == size_keys(sizes@, g@),
            counts@.len() == keys@.len(),
            firsts@.len() == keys@.len(),
            dims@.len() == boards@.len(),
            *label == boards@[g@[0] as int].label,
            forall|c: int| 0 <= c < keys@.len() ==> #[trigger] counts@[c] == size_count(sizes@, g@, keys@[c]),
            forall|c: int| 0 <= c < keys@.len() ==> #[trigger] firsts@[c] == size_first(sizes@, g@, keys@[c])
                && firsts@[c] < boards@.len(),
            r@.map_values(|p: PieceSummary| summary_view(p)) == by_quantity(items, n as int, level + 1),
        decreases level,
    {
        let mut c: usize = 0;
        while c < keys.len()
            invariant
                level >= 1,
                level <= n,
                n == g@.len(),
                items == size_summaries(boards@, sizes@, string_views(dims@), g@),
                keys@ == size_keys(sizes@, g@),
                counts@.len() == keys@.len(),
                firsts@.len() == keys@.len(),
                dims@.len() == boards@.len(),
                *label == boards@[g@[0] as int].label,
                c <= keys@.len(),
                forall|c: int| 0 <= c < keys@.len() ==> #[trigger] counts@[c] == size_count(sizes@, g@, keys@[c]),
                forall|c: int| 0 <= c < keys@.len() ==> #[trigger] firsts@[c] == size_first(sizes@, g@, keys@[c])
                    && firsts@[c] < boards@.len(),
                r@.map_values(|p: PieceSummary| summary_view(p)) == by_quantity(items, n as int, level + 1) + at_quantity(
                    items.take(c as int),
                    level as int,
                ),
            decreases keys.len() - c,
        {
            proof {
                reveal(Seq::filter);
                assert(items.take(c + 1).drop_last() =~= items.take(c as int));
                assert(items[c as int] == (boards@[g@[0] as int].label@, counts@[c as int] as nat, string_views(dims@)[firsts@[c as int] as int]));
            }
            let ghost before = r@.map_values(|p: PieceSummary| summary_view(p));
            if counts[c] == level {
                let p = PieceSummary {
                    label: label.clone(),
                    quantity: counts[c],
                    dimensions: dims[firsts[c]].clone(),
                };
                r.push(p);
                assert(r@.map_values(|p: PieceSummary| summary_view(p)) =~= before.push(items[c as int]));
            }
            assert(r@.map_values(|p: PieceSummary| summary_view(p)) =~= by_quantity(items, n as int, level + 1) + at_quantity(
                items.take(c + 1),
                level as int,
            ));
            c = c + 1;
        }
        proof {
            assert(items.take(keys@.len() as int) =~= items);
            lemma_by_quantity_extend(items, n as int, level + 1);
        }
        level = level - 1;
    }
    r
}

/// Positions are ascending, in range, and at most as many as the items.
proof fn lemma_positions_in_range(items: Seq<Seq<char>>, m: Seq<char>)
    ensures
        positions_of(items, m).len() <= items.len(),
        forall|x: int| 0 <= x < positions_of(items, m).len() ==> 0 <= #[trigger] positions_of(items, m)[x] < items.len(),
    decreases items.len(),
{
    if items.len() > 0 {
        lemma_positions_in_range(items.drop_last(), m);
    }
}

/// A material's share of the material list: the material, the positions
/// of its boards (ascending), and its piece summaries.
pub struct MaterialGroup {
    pub material: String,
    pub boards: Vec<usize>,
    pub pieces: Vec<PieceSummary>,
}

/// The boards grouped by material, materials ascending, each with the
/// positions of its boards and its piece summaries (see `piece_summaries`).
/// `sizes` and `dims` give each board's size key and printed dimensions.
pub fn material_groups(input: &CutListInput, sizes: &Vec<(i64, i64, i64)>, dims: &Vec<String>) -> (r: Vec<MaterialGroup>)
    requires
        sizes@.len() == input.boards@.len(),
        dims@.len() == input.boards@.len(),
        input.boards@.len() <= u32::MAX,
    ensures
        strictly_sorted(r@.map_values(|m: MaterialGroup| m.material@)),
        r@.map_values(|m: MaterialGroup| m.material@).to_set() == material_texts(input.boards@).to_set(),
        forall|c: int| 0 <= c < r@.len() ==> (#[trigger] r@[c]).boards@.map_values(|x: usize| x as int) == positions_of(
            material_texts(input.boards@),
            r@[c].material@,
        ),
        forall|c: int| 0 <= c < r@.len() ==> (#[trigger] r@[c]).pieces@.map_values(|p: PieceSummary| summary_view(p))
            == by_quantity(
            size_summaries(input.boards@, sizes@, string_views(dims@), r@[c].boards@),
            r@[c].boards@.len() as int,
            1,
        ),
{
    let boards = &input.boards;
    let materials = sorted_materials(boards);
    let mut r: Vec<MaterialGroup> = Vec::new();
    let mut c: usize = 0;
    while c < materials.len()
        invariant
            c <= materials@.len(),
            sizes@.len() == boards@.len(),
            dims@.len() == boards@.len(),
            boards@.len() <= u32::MAX,
            r@.len() == c,
            forall|d: int| 0 <= d < c ==> (#[trigger] r@[d]).material@ == materials@[d]@,
            forall|d: int| 0 <= d < c ==> (#[trigger] r@[d]).boards@.map_values(|x: usize| x as int) == positions_of(
                material_texts(boards@),
                r@[d].material@,
            ),
            forall|d: int| 0 <= d < c ==> (#[trigger] r@[d]).pieces@.map_values(|p: PieceSummary| summary_view(p))
                == by_quantity(
                size_summaries(boards@, sizes@, string_views(dims@), r@[d].boards@),
                r@[d].boards@.len() as int,
                1,
            ),
        decreases materials.len() - c,
    {
        let g = boards_of_material(boards, materials[c].as_str());
        proof {
            lemma_positions_in_range(material_texts(boards@), materials@[c as int]@);
            let ps = positions_of(material_texts(boards@), materials@[c as int]@);
            assert(g@.len() == ps.len());
            assert forall|x: int| 0 <= x < g@.len() implies #[trigger] g@[x] < boards@.len() by {
                assert(g@.map_values(|x: usize| x as int)[x] == ps[x]);
            }
        }
        let pieces = piece_summaries(boards, sizes, dims, &g);
        r.push(MaterialGroup { material: materials[c].clone(), boards: g, pieces });
        c = c + 1;
    }
    proof {
        assert(r@.map_values(|m: MaterialGroup| m.material@) =~= string_views(materials@));
    }
    r
}

} // verus!
