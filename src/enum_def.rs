//! Enum declarations.
use vstd::prelude::*;

use crate::bound::BoundView;
use crate::fields::{fields_wf, FieldsView};
use crate::formatter::{block_doc, emit, lemma_block, lemma_emit_concat, lemma_emit_empty, text, Formatter, Piece};
use crate::type_def::{bare_def, head_text, TypeDef, TypeDefView};
use crate::type_ref::{lemma_parsed_plain, lemma_type_views, named, parsed_type, parses, plain_name, IntoType, Type, TypeView};
use crate::variant::{variant_doc, Variant, VariantView};

verus! {

/// An enum as plain values.
pub ghost struct EnumView {
    pub type_def: TypeDefView,
    pub variants: Seq<VariantView>,
}

/// Defines an enumeration.
pub struct Enum {
    type_def: TypeDef,
    variants: Vec<Variant>,
}

pub open spec fn variant_views(vs: Seq<Variant>) -> Seq<VariantView> {
    vs.map_values(|v: Variant| v@)
}

impl View for Enum {
    type V = EnumView;

    closed spec fn view(&self) -> EnumView {
        EnumView { type_def: self.type_def@, variants: variant_views(self.variants@) }
    }
}

impl Clone for Enum {
    fn clone(&self) -> (r: Self)
        ensures
            r@ == self@,
    {
        let mut vs: Vec<Variant> = Vec::new();
        let mut i: usize = 0;
        while i < self.variants.len()
            invariant
                i <= self.variants.len(),
                vs@.len() == i,
                forall|k: int| 0 <= k < i ==> #[trigger] vs@[k]@ == self.variants@[k]@,
            decreases self.variants.len() - i,
        {
            vs.push(self.variants[i].clone());
            i = i + 1;
        }
        assert(variant_views(vs@) =~= variant_views(self.variants@));
        Enum { type_def: self.type_def.clone(), variants: vs }
    }
}

/// Every variant's field list is well formed.
pub open spec fn variants_wf(vs: Seq<VariantView>) -> bool {
    forall|i: int| 0 <= i < vs.len() ==> fields_wf(#[trigger] vs[i].fields)
}

/// An enum that can take generic arguments and render.
pub open spec fn enum_wf(e: EnumView) -> bool {
    plain_name(e.type_def.ty) && variants_wf(e.variants)
}

/// The renderings of the first `n` variants, one after the other.
pub open spec fn variants_doc(vs: Seq<VariantView>, n: nat) -> Seq<Piece>
    decreases n,
{
    if n == 0 || n > vs.len() {
        Seq::empty()
    } else {
        variants_doc(vs, (n - 1) as nat) + variant_doc(vs[n - 1])
    }
}

/// The rendering of an enum: its head, then its variants in a block.
pub open spec fn enum_doc(e: EnumView) -> Seq<Piece> {
    text(head_text(e.type_def, "enum"@, Seq::empty())) + block_doc(variants_doc(e.variants, e.variants.len()))
}

fn last_variant(v: &mut Vec<Variant>) -> (r: &mut Variant)
    requires
        old(v)@.len() > 0,
    ensures
        *r == old(v)@.last(),
        final(v)@ == old(v)@.update(old(v)@.len() - 1, *final(r)),
{
    let n = v.len();
    &mut v[n - 1]
}

impl Enum {
    /// Return an enum definition with the provided name.
    pub fn new(name: &str) -> (r: Self)
        requires
            parses(name@),
        ensures
            r@ == (EnumView { type_def: bare_def(parsed_type(name@)), variants: Seq::empty() }),
            enum_wf(r@),
    {
        proof {
            lemma_parsed_plain(name@);
        }
        let r = Enum { type_def: TypeDef::new(name), variants: Vec::new() };
        assert(variant_views(r.variants@) =~= Seq::<VariantView>::empty());
        r
    }

    /// Returns a reference to the type.
    pub fn ty(&self) -> (r: &Type)
        ensures
            r@ == self@.type_def.ty,
    {
        self.type_def.ty()
    }

    /// Set the enum visibility.
    pub fn vis(&mut self, vis: &str) -> (r: &mut Self)
        ensures
            r@ == (EnumView { type_def: TypeDefView { vis: Some(vis@), ..old(self)@.type_def }, ..old(self)@ }),
            *final(self) == *final(r),
    {
        self.type_def.vis(vis);
        self
    }

    /// Add a generic to the enum.
    pub fn generic(&mut self, name: &str) -> (r: &mut Self)
        requires
            plain_name(old(self)@.type_def.ty),
        ensures
            r@ == (EnumView {
                type_def: TypeDefView {
                    ty: TypeView { generics: old(self)@.type_def.ty.generics.push(named(name@)), ..old(self)@.type_def.ty },
                    ..old(self)@.type_def
                },
                ..old(self)@
            }),
            *final(self) == *final(r),
    {
        self.type_def.generic(name);
        self
    }

    /// Add a `where` bound to the enum.
    pub fn bound<T: IntoType>(&mut self, name: &str, ty: T) -> (r: &mut Self)
        ensures
            r@ == (EnumView {
                type_def: TypeDefView {
                    bounds: old(self)@.type_def.bounds.push(BoundView { name: name@, bound: seq![ty.type_of()] }),
                    ..old(self)@.type_def
                },
                ..old(self)@
            }),
            *final(self) == *final(r),
    {
        self.type_def.bound(name, ty);
        self
    }

    /// Set the enum documentation.
    pub fn doc(&mut self, docs: &str) -> (r: &mut Self)
        ensures
            r@ == (EnumView { type_def: TypeDefView { docs: Some(docs@), ..old(self)@.type_def }, ..old(self)@ }),
            *final(self) == *final(r),
    {
        self.type_def.doc(docs);
        self
    }

    /// Add a new type that the enum should derive.
    pub fn derive(&mut self, name: &str) -> (r: &mut Self)
        ensures
            r@ == (EnumView {
                type_def: TypeDefView { derive: old(self)@.type_def.derive.push(name@), ..old(self)@.type_def },
                ..old(self)@
            }),
            *final(self) == *final(r),
    {
        self.type_def.derive(name);
        self
    }

    /// Specify lint attribute to suppress a warning or error.
    pub fn allow(&mut self, allow: &str) -> (r: &mut Self)
        ensures
            r@ == (EnumView {
                type_def: TypeDefView { allow: old(self)@.type_def.allow.push(allow@), ..old(self)@.type_def },
                ..old(self)@
            }),
            *final(self) == *final(r),
    {
        self.type_def.allow(allow);
        self
    }

    /// Specify representation.
    pub fn repr(&mut self, repr: &str) -> (r: &mut Self)
        ensures
            r@ == (EnumView { type_def: TypeDefView { repr: Some(repr@), ..old(self)@.type_def }, ..old(self)@ }),
            *final(self) == *final(r),
    {
        self.type_def.repr(repr);
        self
    }

    /// Add an arbitrary attribute.
    pub fn attr(&mut self, attribute: &str) -> (r: &mut Self)
        ensures
            r@ == (EnumView {
                type_def: TypeDefView { attributes: old(self)@.type_def.attributes.push(attribute@), ..old(self)@.type_def },
                ..old(self)@
            }),
            *final(self) == *final(r),
    {
        self.type_def.attr(attribute);
        self
    }

    /// Add an arbitrary macro.
    pub fn add_macro(&mut self, mac: &str) -> (r: &mut Self)
        ensures
            r@ == (EnumView {
                type_def: TypeDefView { macros: old(self)@.type_def.macros.push(mac@), ..old(self)@.type_def },
                ..old(self)@
            }),
            *final(self) == *final(r),
    {
        self.type_def.add_macro(mac);
        self
    }

    /// Push a variant to the enum, returning a mutable reference to it.
    pub fn new_variant(&mut self, name: &str) -> (r: &mut Variant)
        ensures
            r@ == (VariantView { name: name@, fields: FieldsView::Empty, annotations: Seq::empty() }),
            final(self)@.type_def == old(self)@.type_def,
            final(self)@.variants.len() == old(self)@.variants.len() + 1,
            final(self)@.variants.last() == final(r)@,
            forall|k: int| 0 <= k < old(self)@.variants.len() ==>
                #[trigger] final(self)@.variants[k] == old(self)@.variants[k],
    {
        self.variants.push(Variant::new(name));
        last_variant(&mut self.variants)
    }

    /// Push a variant to the enum.
    pub fn push_variant(&mut self, item: Variant) -> (r: &mut Self)
        ensures
            r@ == (EnumView { variants: old(self)@.variants.push(item@), ..old(self)@ }),
            *final(self) == *final(r),
    {
        self.variants.push(item);
        assert(variant_views(self.variants@) =~= variant_views(old(self).variants@).push(item@));
        self
    }

    /// Formats the enum using the given formatter.
    pub fn fmt(&self, fmt: &mut Formatter)
        requires
            variants_wf(self@.variants),
        ensures
            final(fmt)@ == emit(old(fmt)@, enum_doc(self@)),
    {
        let ghost v0 = fmt@;
        let ghost vs = self@.variants;
        let parents: Vec<Type> = Vec::new();
        proof {
            lemma_type_views(parents@, 0);
            assert(crate::type_ref::type_views(parents@, 0) =~= Seq::<TypeView>::empty());
        }
        self.type_def.fmt_head("enum", &parents, fmt);
        let ghost h = text(head_text(self@.type_def, "enum"@, Seq::empty()));
        let ghost vh = fmt@;
        let saved = fmt.open_block();
        let ghost v1 = fmt@;
        proof {
            lemma_emit_empty(v1);
        }
        let mut i: usize = 0;
        while i < self.variants.len()
            invariant
                i <= self.variants.len(),
                vs == self@.variants,
                variants_wf(vs),
                fmt@ == emit(v1, variants_doc(vs, i as nat)),
            decreases self.variants.len() - i,
        {
            assert(fields_wf(vs[i as int].fields));
            self.variants[i].fmt(fmt);
            proof {
                lemma_emit_concat(v1, variants_doc(vs, i as nat), variant_doc(vs[i as int]));
            }
            i = i + 1;
        }
        let ghost v2 = fmt@;
        fmt.close_block(saved);
        proof {
            lemma_block(vh, variants_doc(vs, vs.len()), v1, v2);
            lemma_emit_concat(v0, h, block_doc(variants_doc(vs, vs.len())));
        }
    }
}

} // verus!
