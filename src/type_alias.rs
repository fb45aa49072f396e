//! Type alias declarations (`type Foo = Bar;`).
use vstd::prelude::*;

use crate::bound::BoundView;
use crate::formatter::{emit, lemma_text_concat, text, Formatter};
use crate::type_def::{bare_def, head_text, TypeDef, TypeDefView};
use crate::type_ref::{
    lemma_parsed_plain, lemma_type_views, named, parsed_type, parses, plain_name, type_text, IntoType, Type, TypeView,
};

verus! {

/// A type alias as plain values.
pub ghost struct TypeAliasView {
    pub type_def: TypeDefView,
    pub ty: TypeView,
}

/// Defines a type alias.
pub struct TypeAlias {
    type_def: TypeDef,
    ty: Type,
}

impl View for TypeAlias {
    type V = TypeAliasView;

    closed spec fn view(&self) -> TypeAliasView {
        TypeAliasView { type_def: self.type_def@, ty: self.ty@ }
    }
}

impl Clone for TypeAlias {
    fn clone(&self) -> (r: Self)
        ensures
            r@ == self@,
    {
        TypeAlias { type_def: self.type_def.clone(), ty: self.ty.clone() }
    }
}

/// The rendering of an alias: its head, `" = "`, the aliased type and `";"`
/// on the same line.
pub open spec fn alias_text(a: TypeAliasView) -> Seq<char> {
    head_text(a.type_def, "type"@, Seq::empty()) + " = "@ + type_text(a.ty) + ";\n"@
}

impl TypeAlias {
    /// Create a new type alias (`type name = ty;`).
    pub fn new(name: &str, ty: &str) -> (r: Self)
        requires
            parses(name@),
            parses(ty@),
        ensures
            r@ == (TypeAliasView { type_def: bare_def(parsed_type(name@)), ty: parsed_type(ty@) }),
            plain_name(r@.type_def.ty),
    {
        proof {
            lemma_parsed_plain(name@);
        }
        TypeAlias { type_def: TypeDef::new(name), ty: Type::new(ty) }
    }

    /// Format the alias.
    pub fn fmt(&self, fmt: &mut Formatter)
        ensures
            final(fmt)@ == emit(old(fmt)@, text(alias_text(self@))),
    {
        let ghost v0 = fmt@;
        let parents: Vec<Type> = Vec::new();
        proof {
            lemma_type_views(parents@, 0);
            assert(crate::type_ref::type_views(parents@, 0) =~= Seq::<TypeView>::empty());
        }
        self.type_def.fmt_head("type", &parents, fmt);
        let ghost h = head_text(self@.type_def, "type"@, Seq::empty());
        fmt.write_on(" = ", Ghost(v0), Ghost(h));
        self.ty.fmt(fmt);
        proof {
            lemma_text_concat(v0, h + " = "@, type_text(self@.ty));
        }
        fmt.write_on(";\n", Ghost(v0), Ghost(h + " = "@ + type_text(self@.ty)));
    }

    /// Returns a reference to the declared type.
    pub fn type_def(&self) -> (r: &Type)
        ensures
            r@ == self@.type_def.ty,
    {
        self.type_def.ty()
    }

    /// Set the alias visibility.
    pub fn vis(&mut self, vis: &str) -> (r: &mut Self)
        ensures
            r@ == (TypeAliasView { type_def: TypeDefView { vis: Some(vis@), ..old(self)@.type_def }, ..old(self)@ }),
            *final(self) == *final(r),
    {
        self.type_def.vis(vis);
        self
    }

    /// Add a generic to the alias.
    pub fn generic(&mut self, name: &str) -> (r: &mut Self)
        requires
            plain_name(old(self)@.type_def.ty),
        ensures
            r@ == (TypeAliasView {
                type_def: TypeDefView {
                    ty: TypeView { generics: old(self)@.type_def.ty.generics.push(named(name@)), ..old(self)@.type_def.ty },
                    ..old(self)@.type_def
                },
                ..old(self)@
            }),
            *final(self) == *final(r),
    {
        self.type_def.generic(name);
        self
    }

    /// Add a `where` bound to the alias.
    pub fn bound<T: IntoType>(&mut self, name: &str, ty: T) -> (r: &mut Self)
        ensures
            r@ == (TypeAliasView {
                type_def: TypeDefView {
                    bounds: old(self)@.type_def.bounds.push(BoundView { name: name@, bound: seq![ty.type_of()] }),
                    ..old(self)@.type_def
                },
                ..old(self)@
            }),
            *final(self) == *final(r),
    {
        self.type_def.bound(name, ty);
        self
    }

    /// Set the alias documentation.
    pub fn doc(&mut self, docs: &str) -> (r: &mut Self)
        ensures
            r@ == (TypeAliasView { type_def: TypeDefView { docs: Some(docs@), ..old(self)@.type_def }, ..old(self)@ }),
            *final(self) == *final(r),
    {
        self.type_def.doc(docs);
        self
    }

    /// Add a derived trait.
    pub fn derive(&mut self, name: &str) -> (r: &mut Self)
        ensures
            r@ == (TypeAliasView {
                type_def: TypeDefView { derive: old(self)@.type_def.derive.push(name@), ..old(self)@.type_def },
                ..old(self)@
            }),
            *final(self) == *final(r),
    {
        self.type_def.derive(name);
        self
    }

    /// Specify lint attribute to suppress a warning or error.
    pub fn allow(&mut self, allow: &str) -> (r: &mut Self)
        ensures
            r@ == (TypeAliasView {
                type_def: TypeDefView { allow: old(self)@.type_def.allow.push(allow@), ..old(self)@.type_def },
                ..old(self)@
            }),
            *final(self) == *final(r),
    {
        self.type_def.allow(allow);
        self
    }

    /// Specify representation.
    pub fn repr(&mut self, repr: &str) -> (r: &mut Self)
        ensures
            r@ == (TypeAliasView { type_def: TypeDefView { repr: Some(repr@), ..old(self)@.type_def }, ..old(self)@ }),
            *final(self) == *final(r),
    {
        self.type_def.repr(repr);
        self
    }

    /// Set the aliased type.
    pub fn set_ty(&mut self, ty: Type)
        ensures
            final(self)@ == (TypeAliasView { ty: ty@, ..old(self)@ }),
    {
        self.ty = ty;
    }

    /// Get a reference to the aliased type.
    pub fn ty(&self) -> (r: &Type)
        ensures
            r@ == self@.ty,
    {
        &self.ty
    }
}

} // verus!
