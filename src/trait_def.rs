//! Trait declarations.
use vstd::prelude::*;

use crate::bound::{bound_views, fmt_types_joined, type_texts, Bound, BoundView};
use crate::formatter::{
    block_doc, emit, lemma_block, lemma_emit_concat, lemma_text_concat, lemma_text_empty, text, Formatter, Piece,
};
use crate::function::{bare_function, fmt_functions, function_views, functions_doc, Function, FunctionView};
use crate::impl_block::texts_concat;
use crate::text::join_all;
use crate::type_def::{bare_def, head_text, TypeDef, TypeDefView};
use crate::type_ref::{
    lemma_parsed_plain, lemma_type_views, lemma_type_views_push, named, parsed_type, parses, plain_name, type_views, IntoType, Type, TypeView,
};

verus! {

/// A trait as plain values.
pub ghost struct TraitView {
    pub type_def: TypeDefView,
    pub parents: Seq<TypeView>,
    pub associated_tys: Seq<BoundView>,
    pub fns: Seq<FunctionView>,
}

/// Defines a trait.
pub struct Trait {
    type_def: TypeDef,
    parents: Vec<Type>,
    associated_tys: Vec<Bound>,
    fns: Vec<Function>,
}

impl View for Trait {
    type V = TraitView;

    closed spec fn view(&self) -> TraitView {
        TraitView {
            type_def: self.type_def@,
            parents: type_views(self.parents@, self.parents@.len()),
            associated_tys: bound_views(self.associated_tys@),
            fns: function_views(self.fns@),
        }
    }
}

/// One associated type: `type Name;`, or `type Name: A + B;` when bounded.
pub open spec fn trait_type_text(b: BoundView) -> Seq<char> {
    "type "@ + b.name + (if b.bound.len() == 0 {
        Seq::empty()
    } else {
        ": "@ + join_all(type_texts(b.bound), " + "@)
    }) + ";\n"@
}

/// The rendering of a trait: its head with supertraits, then a block of its
/// associated types and its functions.
pub open spec fn trait_doc(t: TraitView) -> Seq<Piece> {
    let ts = t.associated_tys.map_values(|b: BoundView| trait_type_text(b));
    text(head_text(t.type_def, "trait"@, t.parents)) + block_doc(
        text(texts_concat(ts, ts.len())) + functions_doc(t.fns, t.associated_tys.len() > 0, t.fns.len()),
    )
}

impl Clone for Trait {
    fn clone(&self) -> (r: Self)
        ensures
            r@ == self@,
    {
        let mut tys: Vec<Bound> = Vec::new();
        let mut i: usize = 0;
        while i < self.associated_tys.len()
            invariant
                i <= self.associated_tys.len(),
                tys@.len() == i,
                forall|k: int| 0 <= k < i ==> #[trigger] tys@[k]@ == self.associated_tys@[k]@,
            decreases self.associated_tys.len() - i,
        {
            tys.push(self.associated_tys[i].clone());
            i = i + 1;
        }
        assert(bound_views(tys@) =~= bound_views(self.associated_tys@));
        let mut fns: Vec<Function> = Vec::new();
        let mut j: usize = 0;
        while j < self.fns.len()
            invariant
                j <= self.fns.len(),
                fns@.len() == j,
                forall|k: int| 0 <= k < j ==> #[trigger] fns@[k]@ == self.fns@[k]@,
            decreases self.fns.len() - j,
        {
            fns.push(self.fns[j].clone());
            j = j + 1;
        }
        assert(function_views(fns@) =~= function_views(self.fns@));
        Trait {
            type_def: self.type_def.clone(),
            parents: crate::bound::clone_types(&self.parents),
            associated_tys: tys,
            fns,
        }
    }
}

fn fmt_trait_type(b: &Bound, fmt: &mut Formatter)
    ensures
        final(fmt)@ == emit(old(fmt)@, text(trait_type_text(b@))),
{
    let ghost v0 = fmt@;
    fmt.write("type ");
    fmt.write_on(b.name.as_str(), Ghost(v0), Ghost("type "@));
    let ghost a = "type "@ + b@.name;
    proof {
        lemma_type_views(b.bound@, b.bound@.len());
    }
    if b.bound.len() > 0 {
        fmt.write_on(": ", Ghost(v0), Ghost(a));
        fmt_types_joined(&b.bound, " + ", fmt);
        proof {
            lemma_text_concat(v0, a + ": "@, join_all(type_texts(b@.bound), " + "@));
        }
        fmt.write_on(";\n", Ghost(v0), Ghost(a + ": "@ + join_all(type_texts(b@.bound), " + "@)));
        proof {
            assert(a + ": "@ + join_all(type_texts(b@.bound), " + "@) + ";\n"@ =~= trait_type_text(b@));
        }
    } else {
        fmt.write_on(";\n", Ghost(v0), Ghost(a));
        proof {
            assert(a + ";\n"@ =~= trait_type_text(b@));
        }
    }
}

fn last_function(v: &mut Vec<Function>) -> (r: &mut Function)
    requires
        old(v)@.len() > 0,
    ensures
        *r == old(v)@.last(),
        final(v)@ == old(v)@.update(old(v)@.len() - 1, *final(r)),
{
    let n = v.len();
    &mut v[n - 1]
}

impl Trait {
    /// Return a trait definition with the provided name.
    pub fn new(name: &str) -> (r: Self)
        requires
            parses(name@),
        ensures
            r@ == (TraitView {
                type_def: bare_def(parsed_type(name@)),
                parents: Seq::empty(),
                associated_tys: Seq::empty(),
                fns: Seq::empty(),
            }),
            plain_name(r@.type_def.ty),
    {
        proof {
            lemma_parsed_plain(name@);
        }
        let r = Trait { type_def: TypeDef::new(name), parents: Vec::new(), associated_tys: Vec::new(), fns: Vec::new() };
        proof {
            lemma_type_views(r.parents@, 0);
            assert(type_views(r.parents@, 0) =~= Seq::<TypeView>::empty());
            assert(bound_views(r.associated_tys@) =~= Seq::<BoundView>::empty());
            assert(function_views(r.fns@) =~= Seq::<FunctionView>::empty());
        }
        r
    }

    /// Returns a reference to the type.
    pub fn ty(&self) -> (r: &Type)
        ensures
            r@ == self@.type_def.ty,
    {
        self.type_def.ty()
    }

    /// Set the trait visibility.
    pub fn vis(&mut self, vis: &str) -> (r: &mut Self)
        ensures
            r@ == (TraitView { type_def: TypeDefView { vis: Some(vis@), ..old(self)@.type_def }, ..old(self)@ }),
            *final(self) == *final(r),
    {
        self.type_def.vis(vis);
        self
    }

    /// Add a generic to the trait.
    pub fn generic(&mut self, name: &str) -> (r: &mut Self)
        requires
            plain_name(old(self)@.type_def.ty),
        ensures
            r@ == (TraitView {
                type_def: TypeDefView {
                    ty: TypeView { generics: old(self)@.type_def.ty.generics.push(named(name@)), ..old(self)@.type_def.ty },
                    ..old(self)@.type_def
                },
                ..old(self)@
            }),
            *final(self) == *final(r),
    {
        self.type_def.generic(name);
        self
    }

    /// Add a `where` bound to the trait.
    pub fn bound<T: IntoType>(&mut self, name: &str, ty: T) -> (r: &mut Self)
        ensures
            r@ == (TraitView {
                type_def: TypeDefView {
                    bounds: old(self)@.type_def.bounds.push(BoundView { name: name@, bound: seq![ty.type_of()] }),
                    ..old(self)@.type_def
                },
                ..old(self)@
            }),
            *final(self) == *final(r),
    {
        self.type_def.bound(name, ty);
        self
    }

    /// Add a supertrait.
    pub fn parent<T: IntoType>(&mut self, ty: T) -> (r: &mut Self)
        ensures
            r@ == (TraitView { parents: old(self)@.parents.push(ty.type_of()), ..old(self)@ }),
            *final(self) == *final(r),
    {
        let t = ty.into_type();
        proof {
            lemma_type_views_push(self.parents@, t);
        }
        self.parents.push(t);
        self
    }

    /// Add an associated type without bounds.
    pub fn associated_type(&mut self, name: &str) -> (r: &mut Self)
        ensures
            r@ == (TraitView {
                associated_tys: old(self)@.associated_tys.push(BoundView { name: name@, bound: Seq::empty() }),
                ..old(self)@
            }),
            *final(self) == *final(r),
    {
        let b = Bound { name: name.to_string(), bound: Vec::new() };
        proof {
            lemma_type_views(b.bound@, 0);
            assert(b@.bound =~= Seq::<TypeView>::empty());
        }
        self.associated_tys.push(b);
        assert(bound_views(self.associated_tys@) =~= bound_views(old(self).associated_tys@).push(b@));
        self
    }

    /// Set the trait documentation.
    pub fn doc(&mut self, docs: &str) -> (r: &mut Self)
        ensures
            r@ == (TraitView { type_def: TypeDefView { docs: Some(docs@), ..old(self)@.type_def }, ..old(self)@ }),
            *final(self) == *final(r),
    {
        self.type_def.doc(docs);
        self
    }

    /// Add an arbitrary macro.
    pub fn add_macro(&mut self, mac: &str) -> (r: &mut Self)
        ensures
            r@ == (TraitView {
                type_def: TypeDefView { macros: old(self)@.type_def.macros.push(mac@), ..old(self)@.type_def },
                ..old(self)@
            }),
            *final(self) == *final(r),
    {
        self.type_def.add_macro(mac);
        self
    }

    /// Push a new function declaration, returning a mutable reference to it.
    pub fn new_fn(&mut self, name: &str) -> (r: &mut Function)
        ensures
            r@ == bare_function(name@),
            final(self)@.fns.len() == old(self)@.fns.len() + 1,
            final(self)@.fns.last() == final(r)@,
            forall|k: int| 0 <= k < old(self)@.fns.len() ==> #[trigger] final(self)@.fns[k] == old(self)@.fns[k],
    {
        self.fns.push(Function::new(name));
        last_function(&mut self.fns)
    }

    /// Push a function declaration.
    pub fn push_fn(&mut self, item: Function) -> (r: &mut Self)
        ensures
            r@ == (TraitView { fns: old(self)@.fns.push(item@), ..old(self)@ }),
            *final(self) == *final(r),
    {
        self.fns.push(item);
        assert(function_views(self.fns@) =~= function_views(old(self).fns@).push(item@));
        self
    }

    /// Formats the trait using the given formatter.
    pub fn fmt(&self, fmt: &mut Formatter)
        ensures
            final(fmt)@ == emit(old(fmt)@, trait_doc(self@)),
    {
        let ghost v0 = fmt@;
        let ghost tv = self@;
        self.type_def.fmt_head("trait", &self.parents, fmt);
        let ghost h = text(head_text(tv.type_def, "trait"@, tv.parents));
        let ghost vh = fmt@;
        let saved = fmt.open_block();
        let ghost v1 = fmt@;
        let ghost ts = tv.associated_tys.map_values(|b: BoundView| trait_type_text(b));
        proof {
            lemma_text_empty(v1);
        }
        let mut i: usize = 0;
        while i < self.associated_tys.len()
            invariant
                i <= self.associated_tys.len(),
                tv == self@,
                ts == tv.associated_tys.map_values(|b: BoundView| trait_type_text(b)),
                fmt@ == emit(v1, text(texts_concat(ts, i as nat))),
            decreases self.associated_tys.len() - i,
        {
            fmt_trait_type(&self.associated_tys[i], fmt);
            proof {
                lemma_text_concat(v1, texts_concat(ts, i as nat), ts[i as int]);
            }
            i = i + 1;
        }
        let ghost pre = text(texts_concat(ts, ts.len()));
        fmt_functions(&self.fns, self.associated_tys.len() > 0, fmt);
        let ghost body = pre + functions_doc(tv.fns, tv.associated_tys.len() > 0, tv.fns.len());
        proof {
            lemma_emit_concat(v1, pre, functions_doc(tv.fns, tv.associated_tys.len() > 0, tv.fns.len()));
        }
        let ghost v2 = fmt@;
        fmt.close_block(saved);
        proof {
            lemma_block(vh, body, v1, v2);
            lemma_emit_concat(v0, h, block_doc(body));
        }
    }
}

} // verus!
