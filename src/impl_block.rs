//! `impl` blocks.
use vstd::prelude::*;

use crate::bound::{bound_views, bounds_text, fmt_bounds, fmt_generics, generics_text, Bound, BoundView};
use crate::field::{vis_prefix, Field, FieldView};
use crate::fields::{clone_fields, field_views};
use crate::formatter::{
    block_doc, emit, lemma_block, lemma_emit_concat, lemma_text_concat, lemma_text_empty, text, Formatter, Piece,
};
use crate::function::{bare_function, fmt_functions, function_views, functions_doc, Function, FunctionView};
use crate::text::{clone_strs, str_eq, str_views, wrap_all};
use crate::type_def::fmt_wrapped;
use crate::type_ref::{
    lemma_type_views, lemma_type_views_push, plain_name, type_text, IntoType, Type, TypeView,
};

verus! {

/// An impl block as plain values.
pub ghost struct ImplView {
    pub target: TypeView,
    pub generics: Seq<Seq<char>>,
    pub impl_trait: Option<TypeView>,
    pub assoc_csts: Seq<FieldView>,
    pub assoc_tys: Seq<FieldView>,
    pub bounds: Seq<BoundView>,
    pub fns: Seq<FunctionView>,
    pub macros: Seq<Seq<char>>,
}

/// Defines an impl block.
pub struct Impl {
    target: Type,
    generics: Vec<String>,
    impl_trait: Option<Type>,
    assoc_csts: Vec<Field>,
    assoc_tys: Vec<Field>,
    bounds: Vec<Bound>,
    fns: Vec<Function>,
    macros: Vec<String>,
}

impl View for Impl {
    type V = ImplView;

    closed spec fn view(&self) -> ImplView {
        ImplView {
            target: self.target@,
            generics: str_views(self.generics@),
            impl_trait: match self.impl_trait {
                Some(t) => Some(t@),
                None => None,
            },
            assoc_csts: field_views(self.assoc_csts@),
            assoc_tys: field_views(self.assoc_tys@),
            bounds: bound_views(self.bounds@),
            fns: function_views(self.fns@),
            macros: str_views(self.macros@),
        }
    }
}

/// The type an impl block is ordered by: its target, unless the target is
/// generic and a trait is implemented; then the trait, or, for `From`, the
/// type converted from.
pub open spec fn impl_key(i: ImplView) -> TypeView {
    if i.target.generics.len() == 0 || i.impl_trait is None {
        i.target
    } else if i.impl_trait->0.name == "From"@ {
        i.impl_trait->0.generics[0]
    } else {
        i.impl_trait->0
    }
}

/// Whether `impl_key` is defined: a `From` trait on a generic target has a
/// generic argument.
pub open spec fn impl_key_defined(i: ImplView) -> bool {
    i.target.generics.len() == 0 || i.impl_trait is None || i.impl_trait->0.name != "From"@
        || i.impl_trait->0.generics.len() > 0
}

/// One associated constant: `vis const NAME: Type = value;`.
pub open spec fn const_text(c: FieldView) -> Seq<char> {
    vis_prefix(c.visibility) + "const "@ + c.name + ": "@ + type_text(c.ty) + " = "@ + c.value + ";\n"@
}

/// One associated type: `type Name = Type;`.
pub open spec fn assoc_type_text(t: FieldView) -> Seq<char> {
    "type "@ + t.name + " = "@ + type_text(t.ty) + ";\n"@
}

pub open spec fn texts_concat(ts: Seq<Seq<char>>, n: nat) -> Seq<char>
    decreases n,
{
    if n == 0 || n > ts.len() {
        Seq::empty()
    } else {
        texts_concat(ts, (n - 1) as nat) + ts[n - 1]
    }
}

/// The line that opens the block: macros, `impl`, generics, the trait and
/// `for`, the target, and the bounds.
pub open spec fn impl_head_text(i: ImplView) -> Seq<char> {
    wrap_all(i.macros, Seq::empty(), "\n"@) + "impl"@ + generics_text(i.generics) + match i.impl_trait {
        Some(t) => " "@ + type_text(t) + " for"@,
        None => Seq::empty(),
    } + " "@ + type_text(i.target) + bounds_text(i.bounds)
}

/// What the block holds: constants, then types, then the functions, each
/// after a blank line except a first one that follows no associated type.
pub open spec fn impl_body_doc(i: ImplView) -> Seq<Piece> {
    let cs = i.assoc_csts.map_values(|c: FieldView| const_text(c));
    let ts = i.assoc_tys.map_values(|t: FieldView| assoc_type_text(t));
    text(texts_concat(cs, cs.len()) + texts_concat(ts, ts.len())) + functions_doc(
        i.fns,
        i.assoc_tys.len() > 0,
        i.fns.len(),
    )
}

/// The rendering of an impl block.
pub open spec fn impl_doc(i: ImplView) -> Seq<Piece> {
    text(impl_head_text(i)) + block_doc(impl_body_doc(i))
}

impl Clone for Impl {
    fn clone(&self) -> (r: Self)
        ensures
            r@ == self@,
    {
        let mut bounds: Vec<Bound> = Vec::new();
        let mut i: usize = 0;
        while i < self.bounds.len()
            invariant
                i <= self.bounds.len(),
                bounds@.len() == i,
                forall|k: int| 0 <= k < i ==> #[trigger] bounds@[k]@ == self.bounds@[k]@,
            decreases self.bounds.len() - i,
        {
            bounds.push(self.bounds[i].clone());
            i = i + 1;
        }
        assert(bound_views(bounds@) =~= bound_views(self.bounds@));
        let mut fns: Vec<Function> = Vec::new();
        let mut j: usize = 0;
        while j < self.fns.len()
            invariant
                j <= self.fns.len(),
                fns@.len() == j,
                forall|k: int| 0 <= k < j ==> #[trigger] fns@[k]@ == self.fns@[k]@,
            decreases self.fns.len() - j,
        {
            fns.push(self.fns[j].clone());
            j = j + 1;
        }
        assert(function_views(fns@) =~= function_views(self.fns@));
        Impl {
            target: self.target.clone(),
            generics: clone_strs(&self.generics),
            impl_trait: match &self.impl_trait {
                Some(t) => Some(t.clone()),
                None => None,
            },
            assoc_csts: clone_fields(&self.assoc_csts),
            assoc_tys: clone_fields(&self.assoc_tys),
            bounds,
            fns,
            macros: clone_strs(&self.macros),
        }
    }
}

fn fmt_const(c: &Field, fmt: &mut Formatter)
    ensures
        final(fmt)@ == emit(old(fmt)@, text(const_text(c@))),
{
    let ghost v0 = fmt@;
    let ghost cv = c@;
    proof {
        lemma_text_empty(v0);
    }
    match &c.visibility {
        Some(v) => {
            fmt.write(v.as_str());
            fmt.write_on(" ", Ghost(v0), Ghost(v@));
        },
        None => {},
    }
    let ghost b = vis_prefix(cv.visibility);
    fmt.write_on("const ", Ghost(v0), Ghost(b));
    fmt.write_on(c.name.as_str(), Ghost(v0), Ghost(b + "const "@));
    fmt.write_on(": ", Ghost(v0), Ghost(b + "const "@ + cv.name));
    let ghost b = b + "const "@ + cv.name + ": "@;
    c.ty.fmt(fmt);
    proof {
        lemma_text_concat(v0, b, type_text(cv.ty));
    }
    fmt.write_on(" = ", Ghost(v0), Ghost(b + type_text(cv.ty)));
    fmt.write_on(c.value.as_str(), Ghost(v0), Ghost(b + type_text(cv.ty) + " = "@));
    fmt.write_on(";\n", Ghost(v0), Ghost(b + type_text(cv.ty) + " = "@ + cv.value));
}

fn fmt_assoc_type(t: &Field, fmt: &mut Formatter)
    ensures
        final(fmt)@ == emit(old(fmt)@, text(assoc_type_text(t@))),
{
    let ghost v0 = fmt@;
    let ghost tv = t@;
    fmt.write("type ");
    fmt.write_on(t.name.as_str(), Ghost(v0), Ghost("type "@));
    fmt.write_on(" = ", Ghost(v0), Ghost("type "@ + tv.name));
    let ghost b = "type "@ + tv.name + " = "@;
    t.ty.fmt(fmt);
    proof {
        lemma_text_concat(v0, b, type_text(tv.ty));
    }
    fmt.write_on(";\n", Ghost(v0), Ghost(b + type_text(tv.ty)));
}

fn last_function(v: &mut Vec<Function>) -> (r: &mut Function)
    requires
        old(v)@.len() > 0,
    ensures
        *r == old(v)@.last(),
        final(v)@ == old(v)@.update(old(v)@.len() - 1, *final(r)),
{
    let n = v.len();
    &mut v[n - 1]
}

impl Impl {
    /// Return a new impl definition for `target`.
    pub fn new<T: IntoType>(target: T) -> (r: Self)
        ensures
            r@ == (ImplView {
                target: target.type_of(),
                generics: Seq::empty(),
                impl_trait: None,
                assoc_csts: Seq::empty(),
                assoc_tys: Seq::empty(),
                bounds: Seq::empty(),
                fns: Seq::empty(),
                macros: Seq::empty(),
            }),
    {
        let r = Impl {
            target: target.into_type(),
            generics: Vec::new(),
            impl_trait: None,
            assoc_csts: Vec::new(),
            assoc_tys: Vec::new(),
            bounds: Vec::new(),
            fns: Vec::new(),
            macros: Vec::new(),
        };
        assert(str_views(r.generics@) =~= Seq::<Seq<char>>::empty());
        assert(field_views(r.assoc_csts@) =~= Seq::<FieldView>::empty());
        assert(bound_views(r.bounds@) =~= Seq::<BoundView>::empty());
        assert(function_views(r.fns@) =~= Seq::<FunctionView>::empty());
        r
    }

    /// Returns the target of the impl.
    pub fn target(&self) -> (r: &Type)
        ensures
            r@ == self@.target,
    {
        &self.target
    }

    /// Returns the type the block is ordered by.
    pub fn key_for_sorting(&self) -> (r: &Type)
        requires
            impl_key_defined(self@),
        ensures
            r@ == impl_key(self@),
    {
        if self.target.generics().len() == 0 {
            return &self.target;
        }
        match &self.impl_trait {
            None => &self.target,
            Some(impl_type) => {
                if str_eq(impl_type.name().as_str(), "From") {
                    let gs = impl_type.generics();
                    &gs[0]
                } else {
                    impl_type
                }
            },
        }
    }

    /// Add a generic to the impl block (`impl<T>`), not to the target type.
    pub fn generic(&mut self, name: &str) -> (r: &mut Self)
        ensures
            r@ == (ImplView { generics: old(self)@.generics.push(name@), ..old(self)@ }),
            *final(self) == *final(r),
    {
        self.generics.push(name.to_string());
        assert(str_views(self.generics@) =~= str_views(old(self).generics@).push(name@));
        self
    }

    /// Add a generic to the target type.
    pub fn target_generic<T: IntoType>(&mut self, ty: T) -> (r: &mut Self)
        requires
            plain_name(old(self)@.target),
        ensures
            r@ == (ImplView {
                target: TypeView { generics: old(self)@.target.generics.push(ty.type_of()), ..old(self)@.target },
                ..old(self)@
            }),
            *final(self) == *final(r),
    {
        self.target.generic(ty);
        self
    }

    /// Set the trait that the impl block implements.
    pub fn impl_trait<T: IntoType>(&mut self, ty: T) -> (r: &mut Self)
        ensures
            r@ == (ImplView { impl_trait: Some(ty.type_of()), ..old(self)@ }),
            *final(self) == *final(r),
    {
        self.impl_trait = Some(ty.into_type());
        self
    }

    /// Add a macro line before the block (e.g. `"#[async_trait]"`).
    pub fn add_macro(&mut self, mac: &str) -> (r: &mut Self)
        ensures
            r@ == (ImplView { macros: old(self)@.macros.push(mac@), ..old(self)@ }),
            *final(self) == *final(r),
    {
        self.macros.push(mac.to_string());
        assert(str_views(self.macros@) =~= str_views(old(self).macros@).push(mac@));
        self
    }

    /// Add an associated constant.
    pub fn associate_const<T: IntoType>(&mut self, name: &str, ty: T, value: &str, visibility: &str) -> (r: &mut Self)
        ensures
            r@ == (ImplView {
                assoc_csts: old(self)@.assoc_csts.push(FieldView {
                    name: name@,
                    ty: ty.type_of(),
                    documentation: Seq::empty(),
                    annotation: Seq::empty(),
                    value: value@,
                    visibility: Some(visibility@),
                }),
                ..old(self)@
            }),
            *final(self) == *final(r),
    {
        let mut f = Field::new(name, ty);
        f.value = value.to_string();
        f.visibility = Some(visibility.to_string());
        self.assoc_csts.push(f);
        assert(field_views(self.assoc_csts@) =~= field_views(old(self).assoc_csts@).push(f@));
        self
    }

    /// Add an associated type.
    pub fn associate_type<T: IntoType>(&mut self, name: &str, ty: T) -> (r: &mut Self)
        ensures
            r@ == (ImplView {
                assoc_tys: old(self)@.assoc_tys.push(crate::field::plain_field(name@, ty.type_of())),
                ..old(self)@
            }),
            *final(self) == *final(r),
    {
        let f = Field::new(name, ty);
        self.assoc_tys.push(f);
        assert(field_views(self.assoc_tys@) =~= field_views(old(self).assoc_tys@).push(f@));
        self
    }

    /// Add a `where` bound to the impl block.
    pub fn bound<T: IntoType>(&mut self, name: &str, ty: T) -> (r: &mut Self)
        ensures
            r@ == (ImplView {
                bounds: old(self)@.bounds.push(BoundView { name: name@, bound: seq![ty.type_of()] }),
                ..old(self)@
            }),
            *final(self) == *final(r),
    {
        let t = ty.into_type();
        let mut tys: Vec<Type> = Vec::new();
        proof {
            lemma_type_views(tys@, 0);
            lemma_type_views_push(tys@, t);
        }
        tys.push(t);
        let b = Bound { name: name.to_string(), bound: tys };
        proof {
            assert(b@.bound =~= seq![ty.type_of()]);
        }
        self.bounds.push(b);
        assert(bound_views(self.bounds@) =~= bound_views(old(self).bounds@).push(b@));
        self
    }

    /// Push a new function definition, returning a mutable reference to it.
    pub fn new_fn(&mut self, name: &str) -> (r: &mut Function)
        ensures
            r@ == bare_function(name@),
            final(self)@.fns.len() == old(self)@.fns.len() + 1,
            final(self)@.fns.last() == final(r)@,
            forall|k: int| 0 <= k < old(self)@.fns.len() ==> #[trigger] final(self)@.fns[k] == old(self)@.fns[k],
    {
        self.fns.push(Function::new(name));
        last_function(&mut self.fns)
    }

    /// Push a function definition.
    pub fn push_fn(&mut self, item: Function) -> (r: &mut Self)
        ensures
            r@ == (ImplView { fns: old(self)@.fns.push(item@), ..old(self)@ }),
            *final(self) == *final(r),
    {
        self.fns.push(item);
        assert(function_views(self.fns@) =~= function_views(old(self).fns@).push(item@));
        self
    }

    /// Formats the impl block using the given formatter.
    pub fn fmt(&self, fmt: &mut Formatter)
        ensures
            final(fmt)@ == emit(old(fmt)@, impl_doc(self@)),
    {
        let ghost v0 = fmt@;
        let ghost iv = self@;
        fmt_wrapped(&self.macros, "", "\n", fmt);
        proof {
            reveal_strlit("");
            assert(""@ =~= Seq::<char>::empty());
        }
        let ghost a = wrap_all(iv.macros, Seq::empty(), "\n"@);
        fmt.write_on("impl", Ghost(v0), Ghost(a));
        fmt_generics(&self.generics, fmt);
        proof {
            lemma_text_concat(v0, a + "impl"@, generics_text(iv.generics));
        }
        let ghost a = a + "impl"@ + generics_text(iv.generics);
        match &self.impl_trait {
            Some(t) => {
                fmt.write_on(" ", Ghost(v0), Ghost(a));
                t.fmt(fmt);
                proof {
                    lemma_text_concat(v0, a + " "@, type_text(t@));
                }
                fmt.write_on(" for", Ghost(v0), Ghost(a + " "@ + type_text(t@)));
                proof {
                    assert(a + " "@ + type_text(t@) + " for"@ =~= a + (" "@ + type_text(t@) + " for"@));
                }
            },
            None => {
                proof {
                    assert(a =~= a + Seq::<char>::empty());
                }
            },
        }
        let ghost a = a + match iv.impl_trait {
            Some(t) => " "@ + type_text(t) + " for"@,
            None => Seq::empty(),
        };
        fmt.write_on(" ", Ghost(v0), Ghost(a));
        self.target.fmt(fmt);
        proof {
            lemma_text_concat(v0, a + " "@, type_text(iv.target));
        }
        let ghost a = a + " "@ + type_text(iv.target);
        fmt_bounds(&self.bounds, fmt);
        proof {
            lemma_text_concat(v0, a, bounds_text(iv.bounds));
            assert(a + bounds_text(iv.bounds) =~= impl_head_text(iv));
        }
        let ghost vh = fmt@;
        let saved = fmt.open_block();
        let ghost v1 = fmt@;
        let ghost cs = iv.assoc_csts.map_values(|c: FieldView| const_text(c));
        let ghost ts = iv.assoc_tys.map_values(|t: FieldView| assoc_type_text(t));
        proof {
            lemma_text_empty(v1);
        }
        let mut i: usize = 0;
        while i < self.assoc_csts.len()
            invariant
                i <= self.assoc_csts.len(),
                iv == self@,
                cs == iv.assoc_csts.map_values(|c: FieldView| const_text(c)),
                fmt@ == emit(v1, text(texts_concat(cs, i as nat))),
            decreases self.assoc_csts.len() - i,
        {
            let ghost acc = texts_concat(cs, i as nat);
            fmt_const(&self.assoc_csts[i], fmt);
            proof {
                lemma_text_concat(v1, acc, cs[i as int]);
            }
            i = i + 1;
        }
        let ghost c_all = texts_concat(cs, cs.len());
        let mut j: usize = 0;
        while j < self.assoc_tys.len()
            invariant
                j <= self.assoc_tys.len(),
                iv == self@,
                ts == iv.assoc_tys.map_values(|t: FieldView| assoc_type_text(t)),
                fmt@ == emit(v1, text(c_all + texts_concat(ts, j as nat))),
            decreases self.assoc_tys.len() - j,
        {
            let ghost acc = c_all + texts_concat(ts, j as nat);
            fmt_assoc_type(&self.assoc_tys[j], fmt);
            proof {
                lemma_text_concat(v1, acc, ts[j as int]);
            }
            j = j + 1;
            proof {
                assert(acc + ts[j - 1] =~= c_all + texts_concat(ts, j as nat));
            }
        }
        let ghost pre = text(c_all + texts_concat(ts, ts.len()));
        fmt_functions(&self.fns, self.assoc_tys.len() > 0, fmt);
        proof {
            lemma_emit_concat(v1, pre, functions_doc(iv.fns, iv.assoc_tys.len() > 0, iv.fns.len()));
        }
        let ghost v2 = fmt@;
        fmt.close_block(saved);
        proof {
            lemma_block(vh, impl_body_doc(iv), v1, v2);
            lemma_emit_concat(v0, text(impl_head_text(iv)), block_doc(impl_body_doc(iv)));
        }
    }
}

} // verus!
