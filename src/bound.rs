//! `where` bounds and generic parameter lists.
use vstd::prelude::*;

use crate::formatter::{emit, lemma_text_concat, lemma_text_empty, text, Formatter};
use crate::text::{join, join_all, str_views};
use crate::type_ref::{lemma_type_views, type_text, type_views, Type, TypeView};

verus! {

/// A bound as plain values.
pub ghost struct BoundView {
    pub name: Seq<char>,
    pub bound: Seq<TypeView>,
}

/// Defines a `where` bound: a name and the types it must implement.
pub struct Bound {
    pub name: String,
    pub bound: Vec<Type>,
}

impl View for Bound {
    type V = BoundView;

    open spec fn view(&self) -> BoundView {
        BoundView { name: self.name@, bound: type_views(self.bound@, self.bound@.len()) }
    }
}

impl Clone for Bound {
    fn clone(&self) -> (r: Self)
        ensures
            r@ == self@,
    {
        Bound { name: self.name.clone(), bound: clone_types(&self.bound) }
    }
}

/// The views of a list of bounds.
pub open spec fn bound_views(bs: Seq<Bound>) -> Seq<BoundView> {
    bs.map_values(|b: Bound| b@)
}

/// The texts of `ts`.
pub open spec fn type_texts(ts: Seq<TypeView>) -> Seq<Seq<char>> {
    ts.map_values(|t: TypeView| type_text(t))
}

/// One line of a `where` clause; the first carries the keyword.
pub open spec fn bound_line(b: BoundView, first: bool) -> Seq<char> {
    (if first { "where "@ } else { "      "@ }) + b.name + ": "@ + join_all(type_texts(b.bound), " + "@) + ",\n"@
}

/// The first `n` lines of the `where` clause for `bs`.
pub open spec fn bound_lines(bs: Seq<BoundView>, n: nat) -> Seq<char>
    decreases n,
{
    if n == 0 || n > bs.len() {
        Seq::empty()
    } else {
        bound_lines(bs, (n - 1) as nat) + bound_line(bs[n - 1], n == 1)
    }
}

/// The `where` clause for `bs`, on lines of its own; nothing when there are none.
pub open spec fn bounds_text(bs: Seq<BoundView>) -> Seq<char> {
    if bs.len() == 0 {
        Seq::empty()
    } else {
        "\n"@ + bound_lines(bs, bs.len())
    }
}

/// A generic parameter list: `<A, B>`, or nothing when there are none.
pub open spec fn generics_text(gs: Seq<Seq<char>>) -> Seq<char> {
    if gs.len() == 0 {
        Seq::empty()
    } else {
        "<"@ + join_all(gs, ", "@) + ">"@
    }
}

/// A copy of a list of types.
pub fn clone_types(ts: &Vec<Type>) -> (r: Vec<Type>)
    ensures
        type_views(r@, r@.len()) == type_views(ts@, ts@.len()),
{
    let mut out: Vec<Type> = Vec::new();
    let mut i: usize = 0;
    proof {
        lemma_type_views(ts@, ts@.len());
        lemma_type_views(out@, 0);
    }
    while i < ts.len()
        invariant
            i <= ts.len(),
            out@.len() == i,
            type_views(out@, i as nat) == type_views(ts@, ts@.len()).take(i as int),
            type_views(ts@, ts@.len()).len() == ts@.len(),
            forall|k: int| 0 <= k < ts@.len() ==> #[trigger] type_views(ts@, ts@.len())[k] == ts@[k]@,
        decreases ts.len() - i,
    {
        let t = ts[i].clone();
        proof {
            crate::type_ref::lemma_type_views_push(out@, t);
        }
        out.push(t);
        i = i + 1;
        proof {
            assert(type_views(out@, i as nat) =~= type_views(ts@, ts@.len()).take(i as int));
        }
    }
    proof {
        assert(type_views(ts@, ts@.len()).take(i as int) =~= type_views(ts@, ts@.len()));
    }
    out
}

/// Writes the types of `tys` separated by `sep`.
pub fn fmt_types_joined(tys: &Vec<Type>, sep: &str, fmt: &mut Formatter)
    ensures
        final(fmt)@ == emit(old(fmt)@, text(join_all(type_texts(type_views(tys@, tys@.len())), sep@))),
{
    let ghost v0 = fmt@;
    let ghost views = type_views(tys@, tys@.len());
    let ghost texts = type_texts(views);
    proof {
        lemma_type_views(tys@, tys@.len());
        lemma_text_empty(v0);
    }
    let mut i: usize = 0;
    while i < tys.len()
        invariant
            i <= tys.len(),
            views == type_views(tys@, tys@.len()),
            texts == type_texts(views),
            views.len() == tys@.len(),
            forall|k: int| 0 <= k < views.len() ==> #[trigger] views[k] == tys@[k]@,
            fmt@ == emit(v0, text(join(texts, sep@, i as nat))),
        decreases tys.len() - i,
    {
        let ghost acc = join(texts, sep@, i as nat);
        if i != 0 {
            fmt.write_on(sep, Ghost(v0), Ghost(acc));
        }
        let ghost acc2 = if i != 0 { acc + sep@ } else { acc };
        tys[i].fmt(fmt);
        proof {
            lemma_text_concat(v0, acc2, type_text(views[i as int]));
        }
        i = i + 1;
        proof {
            if i == 1 {
                assert(acc2 + texts[0] =~= join(texts, sep@, 1));
            }
        }
    }
}

/// Writes the `where` clause for `bounds`.
pub fn fmt_bounds(bounds: &Vec<Bound>, fmt: &mut Formatter)
    ensures
        final(fmt)@ == emit(old(fmt)@, text(bounds_text(bound_views(bounds@)))),
{
    let ghost v0 = fmt@;
    let ghost bs = bound_views(bounds@);
    proof {
        lemma_text_empty(v0);
    }
    if bounds.len() > 0 {
        fmt.write("\n");
        let mut i: usize = 0;
        while i < bounds.len()
            invariant
                i <= bounds.len(),
                bs == bound_views(bounds@),
                fmt@ == emit(v0, text("\n"@ + bound_lines(bs, i as nat))),
            decreases bounds.len() - i,
        {
            let ghost acc = "\n"@ + bound_lines(bs, i as nat);
            let b = &bounds[i];
            if i == 0 {
                fmt.write_on("where ", Ghost(v0), Ghost(acc));
            } else {
                fmt.write_on("      ", Ghost(v0), Ghost(acc));
            }
            let ghost a1 = acc + (if i == 0 { "where "@ } else { "      "@ });
            fmt.write_on(b.name.as_str(), Ghost(v0), Ghost(a1));
            fmt.write_on(": ", Ghost(v0), Ghost(a1 + b@.name));
            let ghost a2 = a1 + b@.name + ": "@;
            fmt_types_joined(&b.bound, " + ", fmt);
            let ghost rhs = join_all(type_texts(b@.bound), " + "@);
            proof {
                lemma_text_concat(v0, a2, rhs);
            }
            fmt.write_on(",\n", Ghost(v0), Ghost(a2 + rhs));
            i = i + 1;
            proof {
                assert(a2 + rhs + ",\n"@ =~= "\n"@ + bound_lines(bs, i as nat));
            }
        }
        proof {
            assert(bound_lines(bs, i as nat) == bound_lines(bs, bs.len()));
        }
    } else {
        proof {
            assert(bounds_text(bs) =~= Seq::<char>::empty());
        }
    }
}

/// Writes the generic parameter list `generics`.
pub fn fmt_generics(generics: &Vec<String>, fmt: &mut Formatter)
    ensures
        final(fmt)@ == emit(old(fmt)@, text(generics_text(str_views(generics@)))),
{
    let ghost v0 = fmt@;
    let ghost gs = str_views(generics@);
    proof {
        lemma_text_empty(v0);
    }
    if generics.len() > 0 {
        fmt.write("<");
        let mut i: usize = 0;
        while i < generics.len()
            invariant
                i <= generics.len(),
                gs == str_views(generics@),
                fmt@ == emit(v0, text("<"@ + join(gs, ", "@, i as nat))),
            decreases generics.len() - i,
        {
            let ghost acc = "<"@ + join(gs, ", "@, i as nat);
            if i != 0 {
                fmt.write_on(", ", Ghost(v0), Ghost(acc));
            }
            let ghost a1 = if i != 0 { acc + ", "@ } else { acc };
            fmt.write_on(generics[i].as_str(), Ghost(v0), Ghost(a1));
            i = i + 1;
            proof {
                if i == 1 {
                    assert(a1 + gs[0] =~= "<"@ + join(gs, ", "@, 1));
                } else {
                    assert(a1 + gs[i - 1] =~= "<"@ + join(gs, ", "@, i as nat));
                }
            }
        }
        fmt.write_on(">", Ghost(v0), Ghost("<"@ + join(gs, ", "@, i as nat)));
    } else {
        proof {
            assert(generics_text(gs) =~= Seq::<char>::empty());
        }
    }
}

} // verus!
