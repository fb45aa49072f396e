//! Enum variants.
use vstd::prelude::*;

use crate::field::plain_field;
use crate::fields::{fields_doc, fields_wf, named_of, tuple_of, Fields, FieldsView};
use crate::formatter::{emit, lemma_emit_concat, lemma_text_empty, text, Formatter, Piece};
use crate::text::{clone_strs, newline_each, str_views};
use crate::type_ref::{named, IntoType};

verus! {

/// A variant as plain values.
pub ghost struct VariantView {
    pub name: Seq<char>,
    pub fields: FieldsView,
    pub annotations: Seq<Seq<char>>,
}

/// Defines an enum variant.
pub struct Variant {
    name: String,
    fields: Fields,
    annotations: Vec<String>,
}

impl View for Variant {
    type V = VariantView;

    closed spec fn view(&self) -> VariantView {
        VariantView { name: self.name@, fields: self.fields@, annotations: str_views(self.annotations@) }
    }
}

impl Clone for Variant {
    fn clone(&self) -> (r: Self)
        ensures
            r@ == self@,
    {
        Variant { name: self.name.clone(), fields: self.fields.clone(), annotations: clone_strs(&self.annotations) }
    }
}

/// The rendering of a variant: its annotations on lines of their own, its
/// name, its fields, then a comma and a newline.
pub open spec fn variant_doc(v: VariantView) -> Seq<Piece> {
    text(newline_each(v.annotations, v.annotations.len()) + v.name) + fields_doc(v.fields) + text(",\n"@)
}

impl Variant {
    /// Return a new enum variant with the given name.
    pub fn new(name: &str) -> (r: Self)
        ensures
            r@ == (VariantView { name: name@, fields: FieldsView::Empty, annotations: Seq::empty() }),
    {
        let r = Variant { name: name.to_string(), fields: Fields::Empty, annotations: Vec::new() };
        assert(str_views(r.annotations@) =~= Seq::<Seq<char>>::empty());
        r
    }

    /// Add a named field to the variant.
    pub fn named<T: IntoType>(&mut self, name: &str, ty: T) -> (r: &mut Self)
        requires
            !(old(self)@.fields is Tuple),
        ensures
            r@ == (VariantView {
                fields: FieldsView::Named(named_of(old(self)@.fields).push(plain_field(name@, ty.type_of()))),
                ..old(self)@
            }),
            *final(self) == *final(r),
    {
        self.fields.named(name, ty);
        self
    }

    /// Add a tuple field to the variant.
    pub fn tuple(&mut self, ty: &str) -> (r: &mut Self)
        requires
            !(old(self)@.fields is Named),
        ensures
            r@ == (VariantView {
                fields: FieldsView::Tuple(tuple_of(old(self)@.fields).push((None, named(ty@)))),
                ..old(self)@
            }),
            *final(self) == *final(r),
    {
        self.fields.tuple(None, ty);
        self
    }

    /// Add an annotation to the variant.
    pub fn annotation(&mut self, annotation: &str) -> (r: &mut Self)
        ensures
            r@ == (VariantView { annotations: old(self)@.annotations.push(annotation@), ..old(self)@ }),
            *final(self) == *final(r),
    {
        self.annotations.push(annotation.to_string());
        assert(str_views(self.annotations@) =~= str_views(old(self).annotations@).push(annotation@));
        self
    }

    /// Formats the variant using the given formatter.
    pub fn fmt(&self, fmt: &mut Formatter)
        requires
            fields_wf(self@.fields),
        ensures
            final(fmt)@ == emit(old(fmt)@, variant_doc(self@)),
    {
        let ghost v0 = fmt@;
        let ghost anns = str_views(self.annotations@);
        proof {
            lemma_text_empty(v0);
        }
        let mut i: usize = 0;
        while i < self.annotations.len()
            invariant
                i <= self.annotations.len(),
                anns == str_views(self.annotations@),
                fmt@ == emit(v0, text(newline_each(anns, i as nat))),
            decreases self.annotations.len() - i,
        {
            let ghost acc = newline_each(anns, i as nat);
            fmt.write_on(self.annotations[i].as_str(), Ghost(v0), Ghost(acc));
            fmt.write_on("\n", Ghost(v0), Ghost(acc + anns[i as int]));
            i = i + 1;
        }
        fmt.write_on(self.name.as_str(), Ghost(v0), Ghost(newline_each(anns, anns.len())));
        let ghost v1 = fmt@;
        let ghost a = newline_each(anns, anns.len()) + self@.name;
        self.fields.fmt(fmt);
        let ghost v2 = fmt@;
        fmt.write(",\n");
        proof {
            lemma_emit_concat(v0, text(a), fields_doc(self@.fields));
            lemma_emit_concat(v0, text(a) + fields_doc(self@.fields), text(",\n"@));
        }
    }
}

} // verus!
