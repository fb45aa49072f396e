//! Struct declarations.
use vstd::prelude::*;

use crate::field::{plain_field, Field};
use crate::fields::{fields_doc, fields_wf, named_of, tuple_of, Fields, FieldsView};
use crate::formatter::{emit, lemma_emit_concat, lemma_text_empty, text, Formatter, Piece};
use crate::type_def::{bare_def, head_text, TypeDef, TypeDefView};
use crate::type_ref::{
    lemma_parsed_plain, lemma_type_views, named, parsed_type, parses, plain_name, IntoType, Type, TypeView,
};
use crate::bound::BoundView;

verus! {

/// A struct as plain values.
pub ghost struct StructView {
    pub type_def: TypeDefView,
    pub fields: FieldsView,
}

/// Defines a struct.
pub struct Struct {
    type_def: TypeDef,
    fields: Fields,
}

impl View for Struct {
    type V = StructView;

    closed spec fn view(&self) -> StructView {
        StructView { type_def: self.type_def@, fields: self.fields@ }
    }
}

impl Clone for Struct {
    fn clone(&self) -> (r: Self)
        ensures
            r@ == self@,
    {
        Struct { type_def: self.type_def.clone(), fields: self.fields.clone() }
    }
}

/// A struct that can take generic arguments and render: its name is free
/// of `<` and its field list is well formed.
pub open spec fn struct_wf(s: StructView) -> bool {
    plain_name(s.type_def.ty) && fields_wf(s.fields)
}

/// The rendering of a struct: its head, its fields, and a semicolon unless
/// the fields are named.
pub open spec fn struct_doc(s: StructView) -> Seq<Piece> {
    text(head_text(s.type_def, "struct"@, Seq::empty())) + fields_doc(s.fields) + match s.fields {
        FieldsView::Named(_) => Seq::empty(),
        _ => text(";\n"@),
    }
}

impl Struct {
    /// Return a structure definition with the provided name.
    pub fn new(name: &str) -> (r: Self)
        requires
            parses(name@),
        ensures
            r@ == (StructView { type_def: bare_def(parsed_type(name@)), fields: FieldsView::Empty }),
            struct_wf(r@),
    {
        proof {
            lemma_parsed_plain(name@);
        }
        Struct { type_def: TypeDef::new(name), fields: Fields::Empty }
    }

    /// Returns a reference to the type.
    pub fn ty(&self) -> (r: &Type)
        ensures
            r@ == self@.type_def.ty,
    {
        self.type_def.ty()
    }

    /// Set the structure visibility.
    pub fn vis(&mut self, vis: &str) -> (r: &mut Self)
        ensures
            r@ == (StructView { type_def: TypeDefView { vis: Some(vis@), ..old(self)@.type_def }, ..old(self)@ }),
            *final(self) == *final(r),
    {
        self.type_def.vis(vis);
        self
    }

    /// Add a generic to the struct.
    pub fn generic(&mut self, name: &str) -> (r: &mut Self)
        requires
            plain_name(old(self)@.type_def.ty),
        ensures
            r@ == (StructView {
                type_def: TypeDefView {
                    ty: TypeView { generics: old(self)@.type_def.ty.generics.push(named(name@)), ..old(self)@.type_def.ty },
                    ..old(self)@.type_def
                },
                ..old(self)@
            }),
            *final(self) == *final(r),
    {
        self.type_def.generic(name);
        self
    }

    /// Add a `where` bound to the struct.
    pub fn bound<T: IntoType>(&mut self, name: &str, ty: T) -> (r: &mut Self)
        ensures
            r@ == (StructView {
                type_def: TypeDefView {
                    bounds: old(self)@.type_def.bounds.push(BoundView { name: name@, bound: seq![ty.type_of()] }),
                    ..old(self)@.type_def
                },
                ..old(self)@
            }),
            *final(self) == *final(r),
    {
        self.type_def.bound(name, ty);
        self
    }

    /// Set the structure documentation.
    pub fn doc(&mut self, docs: &str) -> (r: &mut Self)
        ensures
            r@ == (StructView { type_def: TypeDefView { docs: Some(docs@), ..old(self)@.type_def }, ..old(self)@ }),
            *final(self) == *final(r),
    {
        self.type_def.doc(docs);
        self
    }

    /// Add a new type that the struct should derive.
    pub fn derive(&mut self, name: &str) -> (r: &mut Self)
        ensures
            r@ == (StructView {
                type_def: TypeDefView { derive: old(self)@.type_def.derive.push(name@), ..old(self)@.type_def },
                ..old(self)@
            }),
            *final(self) == *final(r),
    {
        self.type_def.derive(name);
        self
    }

    /// Add a new attribute to the struct.
    pub fn attr(&mut self, attr: &str) -> (r: &mut Self)
        ensures
            r@ == (StructView {
                type_def: TypeDefView { attributes: old(self)@.type_def.attributes.push(attr@), ..old(self)@.type_def },
                ..old(self)@
            }),
            *final(self) == *final(r),
    {
        self.type_def.attr(attr);
        self
    }

    /// Specify lint attribute to suppress a warning or error.
    pub fn allow(&mut self, allow: &str) -> (r: &mut Self)
        ensures
            r@ == (StructView {
                type_def: TypeDefView { allow: old(self)@.type_def.allow.push(allow@), ..old(self)@.type_def },
                ..old(self)@
            }),
            *final(self) == *final(r),
    {
        self.type_def.allow(allow);
        self
    }

    /// Specify representation.
    pub fn repr(&mut self, repr: &str) -> (r: &mut Self)
        ensures
            r@ == (StructView { type_def: TypeDefView { repr: Some(repr@), ..old(self)@.type_def }, ..old(self)@ }),
            *final(self) == *final(r),
    {
        self.type_def.repr(repr);
        self
    }

    /// Add an arbitrary macro.
    pub fn add_macro(&mut self, mac: &str) -> (r: &mut Self)
        ensures
            r@ == (StructView {
                type_def: TypeDefView { macros: old(self)@.type_def.macros.push(mac@), ..old(self)@.type_def },
                ..old(self)@
            }),
            *final(self) == *final(r),
    {
        self.type_def.add_macro(mac);
        self
    }

    /// Push a named field to the struct; its fields must not be positional.
    pub fn push_field(&mut self, field: Field) -> (r: &mut Self)
        requires
            !(old(self)@.fields is Tuple),
        ensures
            r@ == (StructView { fields: FieldsView::Named(named_of(old(self)@.fields).push(field@)), ..old(self)@ }),
            *final(self) == *final(r),
    {
        self.fields.push_named(field);
        self
    }

    /// Add a named field to the struct; its fields must not be positional.
    pub fn field<T: IntoType>(&mut self, name: &str, ty: T) -> (r: &mut Self)
        requires
            !(old(self)@.fields is Tuple),
        ensures
            r@ == (StructView {
                fields: FieldsView::Named(named_of(old(self)@.fields).push(plain_field(name@, ty.type_of()))),
                ..old(self)@
            }),
            *final(self) == *final(r),
    {
        self.fields.named(name, ty);
        self
    }

    /// Create a named field for the struct and return it.
    pub fn new_field<T: IntoType>(&mut self, name: &str, ty: T) -> (r: &mut Field)
        requires
            !(old(self)@.fields is Tuple),
        ensures
            r@ == plain_field(name@, ty.type_of()),
            final(self)@.type_def == old(self)@.type_def,
            final(self)@.fields is Named,
            named_of(final(self)@.fields).len() == named_of(old(self)@.fields).len() + 1,
            named_of(final(self)@.fields).last() == final(r)@,
            forall|k: int| 0 <= k < named_of(old(self)@.fields).len() ==>
                #[trigger] named_of(final(self)@.fields)[k] == named_of(old(self)@.fields)[k],
    {
        self.fields.new_named(name, ty)
    }

    /// Add a tuple field to the struct; its fields must not be named.
    pub fn tuple_field<T: IntoType>(&mut self, ty: T) -> (r: &mut Self)
        requires
            !(old(self)@.fields is Named),
        ensures
            r@ == (StructView {
                fields: FieldsView::Tuple(tuple_of(old(self)@.fields).push((None, ty.type_of()))),
                ..old(self)@
            }),
            *final(self) == *final(r),
    {
        self.fields.tuple(None, ty);
        self
    }

    /// Formats the struct using the given formatter.
    pub fn fmt(&self, fmt: &mut Formatter)
        requires
            fields_wf(self@.fields),
        ensures
            final(fmt)@ == emit(old(fmt)@, struct_doc(self@)),
    {
        let ghost v0 = fmt@;
        let parents: Vec<Type> = Vec::new();
        proof {
            lemma_type_views(parents@, 0);
        }
        self.type_def.fmt_head("struct", &parents, fmt);
        let ghost h = text(head_text(self@.type_def, "struct"@, Seq::empty()));
        proof {
            assert(crate::type_ref::type_views(parents@, 0) =~= Seq::<TypeView>::empty());
        }
        self.fields.fmt(fmt);
        proof {
            lemma_emit_concat(v0, h, fields_doc(self@.fields));
        }
        let ghost v2 = fmt@;
        match self.fields {
            Fields::Named(_) => {
                proof {
                    lemma_text_empty(v2);
                    assert(h + fields_doc(self@.fields) + Seq::<Piece>::empty() =~= h + fields_doc(self@.fields));
                    assert(emit(v2, Seq::<Piece>::empty()) == emit(v2, text(Seq::empty()))) by {
                        crate::formatter::lemma_emit_empty(v2);
                    }
                }
            },
            _ => {
                fmt.write(";\n");
                proof {
                    lemma_emit_concat(v0, h + fields_doc(self@.fields), text(";\n"@));
                }
            },
        }
    }
}

} // verus!
