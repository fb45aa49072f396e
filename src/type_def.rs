//! The parts shared by named type declarations: the type, its visibility,
//! documentation, attributes and bounds, and the head they render as.
use vstd::prelude::*;

use crate::bound::{bound_views, bounds_text, fmt_bounds, fmt_types_joined, type_texts, Bound, BoundView};
use crate::docs::{docs_text, Docs};
use crate::field::vis_prefix;
use crate::formatter::{emit, lemma_text_concat, lemma_text_empty, text, Formatter};
use crate::text::{clone_strs, clone_opt, join, join_all, opt_view, str_views, wrap_all, wrapped_each};
use crate::type_ref::{
    lemma_type_views, lemma_type_views_push, parsed_type, parses, plain_name, type_text, type_views, IntoType, Type, TypeView,
};

verus! {

/// A declaration head as plain values.
pub ghost struct TypeDefView {
    pub ty: TypeView,
    pub vis: Option<Seq<char>>,
    pub docs: Option<Seq<char>>,
    pub derive: Seq<Seq<char>>,
    pub allow: Seq<Seq<char>>,
    pub attributes: Seq<Seq<char>>,
    pub repr: Option<Seq<char>>,
    pub bounds: Seq<BoundView>,
    pub macros: Seq<Seq<char>>,
    pub cfg_attrs: Seq<Seq<char>>,
}

/// Defines a type definition.
pub struct TypeDef {
    pub ty: Type,
    vis: Option<String>,
    docs: Option<Docs>,
    derive: Vec<String>,
    allow: Vec<String>,
    attributes: Vec<String>,
    repr: Option<String>,
    bounds: Vec<Bound>,
    macros: Vec<String>,
    cfg_attrs: Vec<String>,
}

pub open spec fn docs_view(d: Option<Docs>) -> Option<Seq<char>> {
    match d {
        Some(x) => Some(x@),
        None => None,
    }
}

impl View for TypeDef {
    type V = TypeDefView;

    closed spec fn view(&self) -> TypeDefView {
        TypeDefView {
            ty: self.ty@,
            vis: opt_view(self.vis),
            docs: docs_view(self.docs),
            derive: str_views(self.derive@),
            allow: str_views(self.allow@),
            attributes: str_views(self.attributes@),
            repr: opt_view(self.repr),
            bounds: bound_views(self.bounds@),
            macros: str_views(self.macros@),
            cfg_attrs: str_views(self.cfg_attrs@),
        }
    }
}

/// A head with only a type.
pub open spec fn bare_def(ty: TypeView) -> TypeDefView {
    TypeDefView {
        ty,
        vis: None,
        docs: None,
        derive: Seq::empty(),
        allow: Seq::empty(),
        attributes: Seq::empty(),
        repr: None,
        bounds: Seq::empty(),
        macros: Seq::empty(),
        cfg_attrs: Seq::empty(),
    }
}

/// The rendering of optional documentation.
pub open spec fn opt_docs_text(d: Option<Seq<char>>) -> Seq<char> {
    match d {
        Some(s) => docs_text(s),
        None => Seq::empty(),
    }
}

/// The derive attribute for `ds`, or nothing when there are none.
pub open spec fn derive_text(ds: Seq<Seq<char>>) -> Seq<char> {
    if ds.len() == 0 {
        Seq::empty()
    } else {
        "#[derive("@ + join_all(ds, ", "@) + ")]\n"@
    }
}

/// The representation attribute, or nothing.
pub open spec fn repr_text(r: Option<Seq<char>>) -> Seq<char> {
    match r {
        Some(s) => "#[repr("@ + s + ")]\n"@,
        None => Seq::empty(),
    }
}

/// The supertraits `": A + B"`, or nothing when there are none.
pub open spec fn parents_text(ps: Seq<TypeView>) -> Seq<char> {
    if ps.len() == 0 {
        Seq::empty()
    } else {
        ": "@ + join_all(type_texts(ps), " + "@)
    }
}

/// The lines before the keyword: documentation, lint allowances, derives,
/// representation, attributes, macros and conditional attributes, in that order.
pub open spec fn attrs_text(d: TypeDefView) -> Seq<char> {
    opt_docs_text(d.docs) + wrap_all(d.allow, "#[allow("@, ")]\n"@) + derive_text(d.derive) + repr_text(d.repr)
        + wrap_all(d.attributes, "#["@, "]\n"@) + wrap_all(d.macros, Seq::empty(), "\n"@)
        + wrap_all(d.cfg_attrs, "#[cfg_attr("@, ")]\n"@)
}

/// The head of a declaration: the attribute lines, the visibility, the
/// keyword, the type with its generics, the supertraits and the bounds.
pub open spec fn head_text(d: TypeDefView, keyword: Seq<char>, parents: Seq<TypeView>) -> Seq<char> {
    attrs_text(d) + vis_prefix(d.vis) + keyword + " "@ + type_text(d.ty) + parents_text(parents)
        + bounds_text(d.bounds)
}

/// Writes each string of `v` between `pre` and `post`.
pub(crate) fn fmt_wrapped(v: &Vec<String>, pre: &str, post: &str, fmt: &mut Formatter)
    ensures
        final(fmt)@ == emit(old(fmt)@, text(wrap_all(str_views(v@), pre@, post@))),
{
    let ghost v0 = fmt@;
    let ghost ls = str_views(v@);
    proof {
        lemma_text_empty(v0);
    }
    let mut i: usize = 0;
    while i < v.len()
        invariant
            i <= v.len(),
            ls == str_views(v@),
            fmt@ == emit(v0, text(wrapped_each(ls, pre@, post@, i as nat))),
        decreases v.len() - i,
    {
        let ghost acc = wrapped_each(ls, pre@, post@, i as nat);
        fmt.write_on(pre, Ghost(v0), Ghost(acc));
        fmt.write_on(v[i].as_str(), Ghost(v0), Ghost(acc + pre@));
        fmt.write_on(post, Ghost(v0), Ghost(acc + pre@ + ls[i as int]));
        i = i + 1;
    }
}

/// Writes `"name, name"`: the strings of `v` separated by `", "`.
pub(crate) fn fmt_comma_list(v: &Vec<String>, fmt: &mut Formatter)
    ensures
        final(fmt)@ == emit(old(fmt)@, text(join_all(str_views(v@), ", "@))),
{
    let ghost v0 = fmt@;
    let ghost ls = str_views(v@);
    proof {
        lemma_text_empty(v0);
    }
    let mut i: usize = 0;
    while i < v.len()
        invariant
            i <= v.len(),
            ls == str_views(v@),
            fmt@ == emit(v0, text(join(ls, ", "@, i as nat))),
        decreases v.len() - i,
    {
        let ghost acc = join(ls, ", "@, i as nat);
        if i != 0 {
            fmt.write_on(", ", Ghost(v0), Ghost(acc));
        }
        let ghost a1 = if i != 0 { acc + ", "@ } else { acc };
        fmt.write_on(v[i].as_str(), Ghost(v0), Ghost(a1));
        i = i + 1;
        proof {
            if i == 1 {
                assert(a1 + ls[0] =~= join(ls, ", "@, 1));
            }
        }
    }
}

/// Writes the optional string `s` between `pre` and `post`, or nothing.
pub(crate) fn fmt_opt_wrapped(s: &Option<String>, pre: &str, post: &str, fmt: &mut Formatter)
    ensures
        final(fmt)@ == emit(old(fmt)@, text(match opt_view(*s) {
            Some(x) => pre@ + x + post@,
            None => Seq::empty(),
        })),
{
    let ghost v0 = fmt@;
    proof {
        lemma_text_empty(v0);
    }
    match s {
        Some(x) => {
            fmt.write(pre);
            fmt.write_on(x.as_str(), Ghost(v0), Ghost(pre@));
            fmt.write_on(post, Ghost(v0), Ghost(pre@ + x@));
        },
        None => {},
    }
}

impl Clone for TypeDef {
    fn clone(&self) -> (r: Self)
        ensures
            r@ == self@,
    {
        let docs = match &self.docs {
            Some(d) => Some(d.clone()),
            None => None,
        };
        let mut bounds: Vec<Bound> = Vec::new();
        let mut i: usize = 0;
        while i < self.bounds.len()
            invariant
                i <= self.bounds.len(),
                bounds@.len() == i,
                forall|k: int| 0 <= k < i ==> #[trigger] bounds@[k]@ == self.bounds@[k]@,
            decreases self.bounds.len() - i,
        {
            bounds.push(self.bounds[i].clone());
            i = i + 1;
        }
        assert(bound_views(bounds@) =~= bound_views(self.bounds@));
        TypeDef {
            ty: self.ty.clone(),
            vis: clone_opt(&self.vis),
            docs,
            derive: clone_strs(&self.derive),
            allow: clone_strs(&self.allow),
            attributes: clone_strs(&self.attributes),
            repr: clone_opt(&self.repr),
            bounds,
            macros: clone_strs(&self.macros),
            cfg_attrs: clone_strs(&self.cfg_attrs),
        }
    }
}

impl TypeDef {
    /// Return a definition of the type `name`, parsed as `Type::new` does.
    pub fn new(name: &str) -> (r: Self)
        requires
            parses(name@),
        ensures
            r@ == bare_def(parsed_type(name@)),
    {
        let r = TypeDef {
            ty: Type::new(name),
            vis: None,
            docs: None,
            derive: Vec::new(),
            allow: Vec::new(),
            attributes: Vec::new(),
            repr: None,
            bounds: Vec::new(),
            macros: Vec::new(),
            cfg_attrs: Vec::new(),
        };
        assert(str_views(r.derive@) =~= Seq::<Seq<char>>::empty());
        assert(bound_views(r.bounds@) =~= Seq::<BoundView>::empty());
        r
    }

    /// The declared type.
    pub fn ty(&self) -> (r: &Type)
        ensures
            r@ == self@.ty,
    {
        &self.ty
    }

    /// Set the visibility.
    pub fn vis(&mut self, vis: &str)
        ensures
            final(self)@ == (TypeDefView { vis: Some(vis@), ..old(self)@ }),
    {
        self.vis = Some(vis.to_string());
    }

    /// Add a `where` bound `name: ty`.
    pub fn bound<T: IntoType>(&mut self, name: &str, ty: T)
        ensures
            final(self)@ == (TypeDefView {
                bounds: old(self)@.bounds.push(BoundView { name: name@, bound: seq![ty.type_of()] }),
                ..old(self)@
            }),
    {
        let t = ty.into_type();
        let mut tys: Vec<Type> = Vec::new();
        proof {
            lemma_type_views(tys@, 0);
            lemma_type_views_push(tys@, t);
        }
        tys.push(t);
        let b = Bound { name: name.to_string(), bound: tys };
        proof {
            assert(b@.bound =~= seq![ty.type_of()]);
        }
        self.bounds.push(b);
        assert(bound_views(self.bounds@) =~= bound_views(old(self).bounds@).push(b@));
    }

    /// Add a macro line.
    pub fn add_macro(&mut self, mac: &str)
        ensures
            final(self)@ == (TypeDefView { macros: old(self)@.macros.push(mac@), ..old(self)@ }),
    {
        self.macros.push(mac.to_string());
        assert(str_views(self.macros@) =~= str_views(old(self).macros@).push(mac@));
    }

    /// Add an attribute.
    pub fn attr(&mut self, attr: &str)
        ensures
            final(self)@ == (TypeDefView { attributes: old(self)@.attributes.push(attr@), ..old(self)@ }),
    {
        self.attributes.push(attr.to_string());
        assert(str_views(self.attributes@) =~= str_views(old(self).attributes@).push(attr@));
    }

    /// Set the documentation.
    pub fn doc(&mut self, docs: &str)
        ensures
            final(self)@ == (TypeDefView { docs: Some(docs@), ..old(self)@ }),
    {
        self.docs = Some(Docs::new(docs));
    }

    /// Add a derived trait.
    pub fn derive(&mut self, name: &str)
        ensures
            final(self)@ == (TypeDefView { derive: old(self)@.derive.push(name@), ..old(self)@ }),
    {
        self.derive.push(name.to_string());
        assert(str_views(self.derive@) =~= str_views(old(self).derive@).push(name@));
    }

    /// Add a lint allowance.
    pub fn allow(&mut self, allow: &str)
        ensures
            final(self)@ == (TypeDefView { allow: old(self)@.allow.push(allow@), ..old(self)@ }),
    {
        self.allow.push(allow.to_string());
        assert(str_views(self.allow@) =~= str_views(old(self).allow@).push(allow@));
    }

    /// Set the representation.
    pub fn repr(&mut self, repr: &str)
        ensures
            final(self)@ == (TypeDefView { repr: Some(repr@), ..old(self)@ }),
    {
        self.repr = Some(repr.to_string());
    }

    /// Add a conditional attribute.
    pub fn cfg_attr(&mut self, cfg_attr: &str)
        ensures
            final(self)@ == (TypeDefView { cfg_attrs: old(self)@.cfg_attrs.push(cfg_attr@), ..old(self)@ }),
    {
        self.cfg_attrs.push(cfg_attr.to_string());
        assert(str_views(self.cfg_attrs@) =~= str_views(old(self).cfg_attrs@).push(cfg_attr@));
    }

    /// Add a generic argument to the type.
    pub fn generic(&mut self, name: &str)
        requires
            plain_name(old(self)@.ty),
        ensures
            final(self)@ == (TypeDefView {
                ty: TypeView { generics: old(self)@.ty.generics.push(crate::type_ref::named(name@)), ..old(self)@.ty },
                ..old(self)@
            }),
    {
        self.ty.generic(name);
    }

    /// Writes the head of the declaration introduced by `keyword`.
    pub fn fmt_head(&self, keyword: &str, parents: &Vec<Type>, fmt: &mut Formatter)
        ensures
            final(fmt)@ == emit(old(fmt)@, text(head_text(self@, keyword@, type_views(parents@, parents@.len())))),
    {
        let ghost v0 = fmt@;
        let ghost d = self@;
        proof {
            lemma_text_empty(v0);
        }
        match &self.docs {
            Some(docs) => {
                docs.fmt(fmt);
            },
            None => {},
        }
        let ghost a = opt_docs_text(d.docs);
        fmt_wrapped(&self.allow, "#[allow(", ")]\n", fmt);
        proof {
            lemma_text_concat(v0, a, wrap_all(d.allow, "#[allow("@, ")]\n"@));
        }
        let ghost a = a + wrap_all(d.allow, "#[allow("@, ")]\n"@);
        self.fmt_derive(fmt);
        proof {
            lemma_text_concat(v0, a, derive_text(d.derive));
        }
        let ghost a = a + derive_text(d.derive);
        fmt_opt_wrapped(&self.repr, "#[repr(", ")]\n", fmt);
        proof {
            lemma_text_concat(v0, a, repr_text(d.repr));
        }
        let ghost a = a + repr_text(d.repr);
        fmt_wrapped(&self.attributes, "#[", "]\n", fmt);
        proof {
            lemma_text_concat(v0, a, wrap_all(d.attributes, "#["@, "]\n"@));
        }
        let ghost a = a + wrap_all(d.attributes, "#["@, "]\n"@);
        fmt_wrapped(&self.macros, "", "\n", fmt);
        proof {
            reveal_strlit("");
            assert(""@ =~= Seq::<char>::empty());
            lemma_text_concat(v0, a, wrap_all(d.macros, Seq::empty(), "\n"@));
        }
        let ghost a = a + wrap_all(d.macros, Seq::empty(), "\n"@);
        fmt_wrapped(&self.cfg_attrs, "#[cfg_attr(", ")]\n", fmt);
        proof {
            lemma_text_concat(v0, a, wrap_all(d.cfg_attrs, "#[cfg_attr("@, ")]\n"@));
        }
        let ghost a = a + wrap_all(d.cfg_attrs, "#[cfg_attr("@, ")]\n"@);
        proof {
            assert(a == attrs_text(d));
        }
        fmt_opt_wrapped(&self.vis, "", " ", fmt);
        proof {
            lemma_text_concat(v0, a, vis_prefix(d.vis));
            if d.vis is Some {
                assert(Seq::<char>::empty() + d.vis->0 + " "@ =~= vis_prefix(d.vis));
            }
        }
        let ghost a = a + vis_prefix(d.vis);
        fmt.write_on(keyword, Ghost(v0), Ghost(a));
        fmt.write_on(" ", Ghost(v0), Ghost(a + keyword@));
        let ghost a = a + keyword@ + " "@;
        self.ty.fmt(fmt);
        proof {
            lemma_text_concat(v0, a, type_text(d.ty));
        }
        let ghost a = a + type_text(d.ty);
        let ghost ps = type_views(parents@, parents@.len());
        if parents.len() > 0 {
            fmt.write_on(": ", Ghost(v0), Ghost(a));
            fmt_types_joined(parents, " + ", fmt);
            proof {
                lemma_type_views(parents@, parents@.len());
                lemma_text_concat(v0, a + ": "@, join_all(type_texts(ps), " + "@));
                assert(a + ": "@ + join_all(type_texts(ps), " + "@) =~= a + parents_text(ps));
            }
        } else {
            proof {
                lemma_type_views(parents@, parents@.len());
                assert(a =~= a + parents_text(ps));
            }
        }
        let ghost a = a + parents_text(ps);
        fmt_bounds(&self.bounds, fmt);
        proof {
            lemma_text_concat(v0, a, bounds_text(d.bounds));
        }
    }

    fn fmt_derive(&self, fmt: &mut Formatter)
        ensures
            final(fmt)@ == emit(old(fmt)@, text(derive_text(self@.derive))),
    {
        let ghost v0 = fmt@;
        proof {
            lemma_text_empty(v0);
        }
        if self.derive.len() > 0 {
            fmt.write("#[derive(");
            fmt_comma_list(&self.derive, fmt);
            proof {
                lemma_text_concat(v0, "#[derive("@, join_all(self@.derive, ", "@));
            }
            fmt.write_on(")]\n", Ghost(v0), Ghost("#[derive("@ + join_all(self@.derive, ", "@)));
        }
    }
}

} // verus!
