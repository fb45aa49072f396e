//! Properties of rendering that relate several operations, proved over the
//! models the renderers' contracts use.
use vstd::prelude::*;

use crate::formatter::{clamp, lemma_put_concat, put, put_doc, shift, spaces, Piece, INDENT_WIDTH};
use crate::import::{
    alias_lines, distinct_paths, distinct_vis, group_text, imports_text, key_index, paths_text, simple_line, simple_names, vis_text, ImportView,
};
use crate::text::join;
use crate::scope::{
    has_raw, is_render_order, item_key, ordered_doc, preamble_text, raws_text, registered, render_order, renders_before, scope_doc, scope_text, ItemView, ScopeView,
};

verus! {

/// `o` is ordered by `renders_before` over `items`.
pub open spec fn sorted_by(items: Seq<ItemView>, o: Seq<int>) -> bool {
    forall|j: int, k: int| 0 <= j < k < o.len() ==> renders_before(items, #[trigger] o[j], #[trigger] o[k])
}

spec fn ins(items: Seq<ItemView>, o: Seq<int>, x: int) -> Seq<int>
    decreases o.len(),
{
    if o.len() == 0 {
        seq![x]
    } else if renders_before(items, x, o[0]) {
        seq![x] + o
    } else {
        seq![o[0]] + ins(items, o.drop_first(), x)
    }
}

proof fn lemma_ins(items: Seq<ItemView>, o: Seq<int>, x: int)
    requires
        sorted_by(items, o),
        !o.contains(x),
    ensures
        sorted_by(items, ins(items, o, x)),
        forall|y: int| ins(items, o, x).contains(y) <==> (o.contains(y) || y == x),
    decreases o.len(),
{
    let r = ins(items, o, x);
    if o.len() == 0 {
        assert(r =~= seq![x]);
        assert forall|y: int| r.contains(y) <==> (o.contains(y) || y == x) by {
            if r.contains(y) {
                let k = choose|k: int| 0 <= k < r.len() && r[k] == y;
            }
            if y == x {
                assert(r[0] == x);
            }
        }
    } else if renders_before(items, x, o[0]) {
        assert forall|j: int, k: int| 0 <= j < k < r.len() implies renders_before(items, #[trigger] r[j], #[trigger] r[k]) by {
            if j == 0 {
                if k > 1 {
                    crate::scope::lemma_before_trans_pub(items, x, o[0], o[k - 1]);
                }
            } else {
                assert(r[j] == o[j - 1] && r[k] == o[k - 1]);
            }
        }
        assert forall|y: int| r.contains(y) <==> (o.contains(y) || y == x) by {
            if r.contains(y) {
                let k = choose|k: int| 0 <= k < r.len() && r[k] == y;
                if k > 0 {
                    assert(o[k - 1] == y);
                }
            }
            if o.contains(y) {
                let k = choose|k: int| 0 <= k < o.len() && o[k] == y;
                assert(r[k + 1] == y);
            }
            if y == x {
                assert(r[0] == x);
            }
        }
    } else {
        let t = o.drop_first();
        assert forall|j: int, k: int| 0 <= j < k < t.len() implies renders_before(items, #[trigger] t[j], #[trigger] t[k]) by {
            assert(t[j] == o[j + 1] && t[k] == o[k + 1]);
        }
        assert(!t.contains(x)) by {
            if t.contains(x) {
                let k = choose|k: int| 0 <= k < t.len() && t[k] == x;
                assert(o[k + 1] == x);
            }
        }
        lemma_ins(items, t, x);
        let ri = ins(items, t, x);
        assert(o[0] != x) by {
            assert(o.contains(o[0]));
        }
        crate::scope::lemma_before_total_pub(items, o[0], x);
        assert forall|j: int, k: int| 0 <= j < k < r.len() implies renders_before(items, #[trigger] r[j], #[trigger] r[k]) by {
            if j == 0 {
                assert(r[k] == ri[k - 1]);
                assert(ri.contains(ri[k - 1]));
                if ri[k - 1] != x {
                    assert(t.contains(ri[k - 1]));
                    let m = choose|m: int| 0 <= m < t.len() && t[m] == ri[k - 1];
                    assert(o[m + 1] == ri[k - 1]);
                }
            } else {
                assert(r[j] == ri[j - 1] && r[k] == ri[k - 1]);
            }
        }
        assert forall|y: int| r.contains(y) <==> (o.contains(y) || y == x) by {
            if r.contains(y) {
                let k = choose|k: int| 0 <= k < r.len() && r[k] == y;
                if k > 0 {
                    assert(ri[k - 1] == y);
                    assert(ri.contains(y));
                    if y != x {
                        assert(t.contains(y));
                        let m = choose|m: int| 0 <= m < t.len() && t[m] == y;
                        assert(o[m + 1] == y);
                    }
                }
            }
            if o.contains(y) {
                let k = choose|k: int| 0 <= k < o.len() && o[k] == y;
                if k == 0 {
                    assert(r[0] == y);
                } else {
                    assert(t[k - 1] == y);
                    assert(t.contains(y));
                    assert(ri.contains(y));
                    let m = choose|m: int| 0 <= m < ri.len() && ri[m] == y;
                    assert(r[m + 1] == y);
                }
            }
            if y == x {
                assert(ri.contains(x));
                let m = choose|m: int| 0 <= m < ri.len() && ri[m] == x;
                assert(r[m + 1] == x);
            }
        }
    }
}

spec fn build(items: Seq<ItemView>, k: nat) -> Seq<int>
    decreases k,
{
    if k == 0 || k > items.len() {
        Seq::empty()
    } else if items[k - 1] is Raw {
        build(items, (k - 1) as nat)
    } else {
        ins(items, build(items, (k - 1) as nat), k - 1)
    }
}

proof fn lemma_build(items: Seq<ItemView>, k: nat)
    requires
        k <= items.len(),
    ensures
        sorted_by(items, build(items, k)),
        forall|y: int| build(items, k).contains(y) <==> (0 <= y < k && !(items[y] is Raw)),
    decreases k,
{
    if k > 0 {
        lemma_build(items, (k - 1) as nat);
        let prev = build(items, (k - 1) as nat);
        if !(items[k - 1] is Raw) {
            assert(!prev.contains(k - 1));
            lemma_ins(items, prev, k - 1);
        }
        assert forall|y: int| build(items, k).contains(y) <==> (0 <= y < k && !(items[y] is Raw)) by {
            if y == k - 1 {
            } else {
                assert(prev.contains(y) <==> (0 <= y < k - 1 && !(items[y] is Raw)));
            }
        }
    }
}

/// Every list of declarations has a rendering order.
pub proof fn lemma_render_order_exists(items: Seq<ItemView>)
    ensures
        is_render_order(items, render_order(items)),
{
    let o = build(items, items.len());
    lemma_build(items, items.len());
    assert forall|k: int| 0 <= k < o.len() implies 0 <= #[trigger] o[k] < items.len() && !(items[o[k]] is Raw) by {
        assert(o.contains(o[k]));
    }
    assert(is_render_order(items, o));
}

/// Swaps positions `n` and `n + 1`.
spec fn swap(n: int, i: int) -> int {
    if i == n {
        n + 1
    } else if i == n + 1 {
        n
    } else {
        i
    }
}

proof fn lemma_raws_prefix(x: Seq<ItemView>, y: Seq<ItemView>, n: nat)
    requires
        n <= x.len(),
        n <= y.len(),
        forall|i: int| 0 <= i < n ==> x[i] == y[i],
    ensures
        raws_text(x, n) == raws_text(y, n),
    decreases n,
{
    if n > 0 {
        lemma_raws_prefix(x, y, (n - 1) as nat);
    }
}

proof fn lemma_ordered_doc_map(x: Seq<ItemView>, o: Seq<int>, y: Seq<ItemView>, p: Seq<int>, n: nat)
    requires
        n <= o.len(),
        o.len() == p.len(),
        forall|k: int| 0 <= k < o.len() ==> 0 <= #[trigger] o[k] < x.len() && 0 <= p[k] < y.len() && y[p[k]] == x[o[k]],
    ensures
        ordered_doc(x, o, n) == ordered_doc(y, p, n),
    decreases n,
{
    if n > 0 {
        lemma_ordered_doc_map(x, o, y, p, (n - 1) as nat);
        assert(y[p[n - 1]] == x[o[n - 1]]);
    }
}

/// Order independence: two declarations with different sort keys, added
/// after the same declarations in either order, render identically.
pub proof fn law_order_independent(s: ScopeView, a: ItemView, b: ItemView)
    requires
        !(a is Raw),
        !(b is Raw),
        item_key(a) != item_key(b),
    ensures
        scope_doc(ScopeView { items: s.items.push(a).push(b), ..s }) == scope_doc(
            ScopeView { items: s.items.push(b).push(a), ..s },
        ),
{
    let n = s.items.len() as int;
    let x = s.items.push(a).push(b);
    let y = s.items.push(b).push(a);
    let sx = ScopeView { items: x, ..s };
    let sy = ScopeView { items: y, ..s };
    assert forall|i: int| 0 <= i < x.len() implies #[trigger] y[swap(n, i)] == x[i] by {}
    // the preambles agree
    lemma_raws_prefix(x, y, n as nat);
    lemma_raws_prefix(x, s.items, n as nat);
    assert(raws_text(x, (n + 1) as nat) =~= raws_text(x, n as nat));
    assert(raws_text(x, (n + 2) as nat) =~= raws_text(x, (n + 1) as nat));
    assert(raws_text(y, (n + 1) as nat) =~= raws_text(y, n as nat));
    assert(raws_text(y, (n + 2) as nat) =~= raws_text(y, (n + 1) as nat));
    assert(raws_text(x, x.len()) == raws_text(y, y.len()));
    assert(has_raw(x) == has_raw(y)) by {
        if has_raw(x) {
            let i = choose|i: int| 0 <= i < x.len() && #[trigger] x[i] is Raw;
            assert(y[swap(n, i)] is Raw);
        }
        if has_raw(y) {
            let i = choose|i: int| 0 <= i < y.len() && #[trigger] y[i] is Raw;
            assert(x[swap(n, i)] == y[i]);
        }
    }
    assert(preamble_text(sx) == preamble_text(sy));
    // the orders correspond through the swap
    let o = render_order(x);
    lemma_render_order_exists(x);
    let p = Seq::new(o.len(), |k: int| swap(n, o[k]));
    assert forall|k: int| 0 <= k < p.len() implies 0 <= #[trigger] p[k] < y.len() && !(y[p[k]] is Raw) by {
        assert(0 <= o[k] < x.len());
    }
    assert forall|i: int| 0 <= i < y.len() && !(#[trigger] y[i] is Raw) implies p.contains(i) by {
        let j = swap(n, i);
        assert(x[j] == y[i]);
        assert(o.contains(j));
        let k = choose|k: int| 0 <= k < o.len() && o[k] == j;
        assert(p[k] == i);
    }
    assert forall|j: int, k: int| 0 <= j < k < p.len() implies renders_before(y, #[trigger] p[j], #[trigger] p[k]) by {
        assert(renders_before(x, o[j], o[k]));
        assert(y[p[j]] == x[o[j]] && y[p[k]] == x[o[k]]);
        if (o[j] == n || o[j] == n + 1) && (o[k] == n || o[k] == n + 1) {
            assert(o[j] != o[k]) by {
                crate::scope::lemma_before_irrefl_pub(x, o[j]);
            }
        }
    }
    assert(is_render_order(y, p));
    crate::scope::lemma_render_order_unique(y, p);
    assert forall|k: int| 0 <= k < o.len() implies 0 <= #[trigger] o[k] < x.len() && 0 <= p[k] < y.len() && y[p[k]] == x[o[k]] by {}
    lemma_ordered_doc_map(x, o, y, p, o.len());
}

/// Determinism: the rendered text is a function of the scope's value, so two
/// renderings of one scope are identical.
pub proof fn law_render_deterministic(a: ScopeView, b: ScopeView)
    requires
        a == b,
    ensures
        scope_text(a) == scope_text(b),
{
}


proof fn lemma_line_put(t: Seq<char>, level: nat, l: Seq<char>)
    requires
        crate::formatter::at_line_start(t),
        l.len() > 0,
        !l.contains('\n'),
    ensures
        put(t, level, l) == t + spaces(level * INDENT_WIDTH as nat) + l,
    decreases l.len(),
{
    let sp = spaces(level * INDENT_WIDTH as nat);
    assert(put(t, level, l) == crate::formatter::put_char(put(t, level, l.drop_last()), level, l.last()));
    if l.len() == 1 {
        assert(l.drop_last() =~= Seq::<char>::empty());
        assert(put(t, level, l.drop_last()) == t);
        assert(l.last() == l[0]);
        assert(l[0] != '\n') by {
            assert(l.contains(l[0]));
        }
        assert(t + sp + seq![l.last()] =~= t + sp + l);
    } else {
        let p = l.drop_last();
        assert(!p.contains('\n')) by {
            if p.contains('\n') {
                let k = choose|k: int| 0 <= k < p.len() && p[k] == '\n';
                assert(l[k] == '\n');
            }
        }
        lemma_line_put(t, level, p);
        assert((t + sp + p).last() == p.last());
        assert(p.last() != '\n') by {
            assert(l[p.len() - 1] == p.last());
            assert(l.contains(l[p.len() - 1]));
        }
        assert(l.last() != '\n') by {
            assert(l.contains(l[l.len() - 1]));
        }
        assert((t + sp + p).push(l.last()) =~= t + sp + l);
    }
}

/// Indentation: a line written from the start of a line at level `level`
/// begins with exactly `level` indentation units.
pub proof fn law_line_indented(t: Seq<char>, level: nat, l: Seq<char>)
    requires
        crate::formatter::at_line_start(t),
        l.len() > 0,
        !l.contains('\n'),
    ensures
        put(t, level, l + seq!['\n']) == t + spaces(level * INDENT_WIDTH as nat) + l + seq!['\n'],
{
    lemma_line_put(t, level, l);
    lemma_put_concat(t, level, l, seq!['\n']);
    let a = put(t, level, l);
    let nl = seq!['\n'];
    assert(nl.drop_last() =~= Seq::<char>::empty());
    assert(nl.last() == '\n');
    assert(put(a, level, nl.drop_last()) == a);
    assert(put(a, level, nl) == crate::formatter::put_char(put(a, level, nl.drop_last()), level, nl.last()));
}

/// Nesting: text placed `d` blocks deep is written `d` levels deeper, so each
/// of its lines is indented by `d` more units.
pub proof fn law_nested_depth(t: Seq<char>, level: nat, doc: Seq<Piece>, d: nat)
    requires
        level + d <= usize::MAX,
    ensures
        put_doc(t, level, shift(doc, d)) == put_doc(t, level + d, doc),
    decreases doc.len(),
{
    if doc.len() > 0 {
        law_nested_depth(t, level, doc.drop_last(), d);
        assert(shift(doc, d).drop_last() =~= shift(doc.drop_last(), d));
        let p = doc.last();
        match p {
            Piece::Text(k, x) => {
                assert(clamp(level + (k + d)) == clamp((level + d) + k));
            },
            Piece::Open(k) => {
                assert(clamp(level + (k + d)) == clamp((level + d) + k));
            },
        }
    }
}

proof fn lemma_key_found(
    e: Seq<(Seq<char>, Seq<char>, ImportView)>,
    path: Seq<char>,
    name: Seq<char>,
    x: (Seq<char>, Seq<char>, ImportView),
    from: nat,
)
    requires
        x.0 == path,
        x.1 == name,
        from <= e.len(),
    ensures
        key_index(e.push(x), path, name, from) is Some,
    decreases e.len() - from,
{
    let f = e.push(x);
    if from < e.len() && !(f[from as int].0 == path && f[from as int].1 == name) {
        lemma_key_found(e, path, name, x, from + 1);
    }
}

/// Import deduplication: registering the same `(path, name)` pair twice leaves
/// the table as one registration does, so the pair renders once.
pub proof fn law_import_dedup(
    e: Seq<(Seq<char>, Seq<char>, ImportView)>,
    path: Seq<char>,
    name: Seq<char>,
    imp: ImportView,
)
    ensures
        registered(registered(e, path, name, imp), path, name, imp) == registered(e, path, name, imp),
        imports_text(registered(registered(e, path, name, imp), path, name, imp)) == imports_text(
            registered(e, path, name, imp),
        ),
{
    if key_index(e, path, name, 0) is None {
        lemma_key_found(e, path, name, (path, name, imp), 0);
    }
}

/// Import grouping: three imports without alias from one path, with one
/// visibility, render as one `use path::{a, b, c};` line in registration order.
pub proof fn law_import_group(
    path: Seq<char>,
    a: Seq<char>,
    b: Seq<char>,
    c: Seq<char>,
    imp: ImportView,
)
    requires
        imp.alias is None,
    ensures
        imports_text(seq![(path, a, imp), (path, b, imp), (path, c, imp)]) == crate::field::vis_prefix(imp.vis)
            + "use "@ + path + "::"@ + "{"@ + a + ", "@ + b + ", "@ + c + "};\n"@,
{
    let e = seq![(path, a, imp), (path, b, imp), (path, c, imp)];
    let v = imp.vis;
    assert(e.len() == 3);
    assert(e[0] == (path, a, imp) && e[1] == (path, b, imp) && e[2] == (path, c, imp));
    assert(distinct_vis(e, 0) == Seq::<Option<Seq<char>>>::empty());
    assert(!Seq::<Option<Seq<char>>>::empty().contains(v));
    assert(seq![v].contains(v)) by {
        assert(seq![v][0] == v);
    }
    assert(distinct_paths(e, 0) == Seq::<Seq<char>>::empty());
    assert(!Seq::<Seq<char>>::empty().contains(path));
    assert(seq![path].contains(path)) by {
        assert(seq![path][0] == path);
    }
    assert(alias_lines(e, path, v, 0) == Seq::<char>::empty());
    assert(simple_names(e, path, v, 0) == Seq::<Seq<char>>::empty());
    assert(paths_text(e, seq![path], v, 0) == Seq::<char>::empty());
    assert(vis_text(e, seq![v], 0) == Seq::<char>::empty());
    assert(distinct_vis(e, 1) =~= seq![v]);
    assert(distinct_vis(e, 2) =~= seq![v]);
    assert(distinct_vis(e, 3) =~= seq![v]);
    assert(distinct_paths(e, 1) =~= seq![path]);
    assert(distinct_paths(e, 2) =~= seq![path]);
    assert(distinct_paths(e, 3) =~= seq![path]);
    assert(alias_lines(e, path, v, 1) =~= Seq::<char>::empty());
    assert(alias_lines(e, path, v, 2) =~= Seq::<char>::empty());
    assert(alias_lines(e, path, v, 3) =~= Seq::<char>::empty());
    assert(simple_names(e, path, v, 1) =~= seq![a]);
    assert(simple_names(e, path, v, 2) =~= seq![a, b]);
    assert(simple_names(e, path, v, 3) =~= seq![a, b, c]);
    let ns = seq![a, b, c];
    assert(join(ns, ", "@, 1) == a);
    assert(join(ns, ", "@, 2) == a + ", "@ + b);
    assert(join(ns, ", "@, 3) == a + ", "@ + b + ", "@ + c);
    let g = group_text(e, path, v);
    assert(g =~= Seq::<char>::empty() + simple_line(ns, path, v));
    assert(paths_text(e, seq![path], v, 1) =~= Seq::<char>::empty() + g);
    assert(vis_text(e, seq![v], 1) =~= Seq::<char>::empty() + paths_text(e, seq![path], v, 1));
    assert(simple_line(ns, path, v) =~= crate::field::vis_prefix(v) + "use "@ + path + "::"@ + "{"@ + a + ", "@ + b
        + ", "@ + c + "};\n"@);
}
} // verus!
