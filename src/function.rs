//! Function declarations, rendered as a signature and a body of lines.
use vstd::prelude::*;

use crate::bound::{bound_views, bounds_text, fmt_bounds, fmt_generics, generics_text, Bound, BoundView};
use crate::docs::Docs;
use crate::field::{plain_field, vis_prefix, Field, FieldView};
use crate::fields::{clone_fields, field_views};
use crate::formatter::{
    block_doc, emit, lemma_block, lemma_emit_concat, lemma_emit_empty, lemma_text_concat, lemma_text_empty, text, Formatter, Piece,
};
use crate::text::{clone_opt, clone_strs, join, join_all, newline_each, opt_view, str_views, wrap_all};
use crate::type_def::{docs_view, fmt_opt_wrapped, fmt_wrapped, opt_docs_text};
use crate::type_ref::{lemma_type_views, lemma_type_views_push, type_text, IntoType, Type, TypeView};

verus! {

/// A function as plain values.
pub ghost struct FunctionView {
    pub name: Seq<char>,
    pub docs: Option<Seq<char>>,
    pub allow: Seq<Seq<char>>,
    pub vis: Option<Seq<char>>,
    pub generics: Seq<Seq<char>>,
    pub args: Seq<FieldView>,
    pub ret: Option<TypeView>,
    pub bounds: Seq<BoundView>,
    pub attributes: Seq<Seq<char>>,
    pub body: Option<Seq<Seq<char>>>,
}

/// Defines a function.
pub struct Function {
    name: String,
    docs: Option<Docs>,
    allow: Vec<String>,
    vis: Option<String>,
    generics: Vec<String>,
    args: Vec<Field>,
    ret: Option<Type>,
    bounds: Vec<Bound>,
    attributes: Vec<String>,
    body: Option<Vec<String>>,
}

impl View for Function {
    type V = FunctionView;

    closed spec fn view(&self) -> FunctionView {
        FunctionView {
            name: self.name@,
            docs: docs_view(self.docs),
            allow: str_views(self.allow@),
            vis: opt_view(self.vis),
            generics: str_views(self.generics@),
            args: field_views(self.args@),
            ret: match self.ret {
                Some(t) => Some(t@),
                None => None,
            },
            bounds: bound_views(self.bounds@),
            attributes: str_views(self.attributes@),
            body: match self.body {
                Some(b) => Some(str_views(b@)),
                None => None,
            },
        }
    }
}

/// One argument: `name: Type`.
pub open spec fn arg_text(f: FieldView) -> Seq<char> {
    f.name + ": "@ + type_text(f.ty)
}

/// The return type clause, or nothing.
pub open spec fn ret_text(r: Option<TypeView>) -> Seq<char> {
    match r {
        Some(t) => " -> "@ + type_text(t),
        None => Seq::empty(),
    }
}

/// The signature: documentation, lint allowances, attributes, visibility,
/// `fn`, name, generics, arguments, return type and bounds.
pub open spec fn signature_text(f: FunctionView) -> Seq<char> {
    opt_docs_text(f.docs) + wrap_all(f.allow, "#[allow("@, ")]\n"@) + wrap_all(f.attributes, "#["@, "]\n"@)
        + vis_prefix(f.vis) + "fn "@ + f.name + generics_text(f.generics) + "("@
        + join_all(f.args.map_values(|a: FieldView| arg_text(a)), ", "@) + ")"@ + ret_text(f.ret)
        + bounds_text(f.bounds)
}

/// The rendering of a function: its signature, then its body lines in a
/// block, or `;` when it has no body.
pub open spec fn function_doc(f: FunctionView) -> Seq<Piece> {
    text(signature_text(f)) + match f.body {
        Some(ls) => block_doc(text(newline_each(ls, ls.len()))),
        None => text(";\n"@),
    }
}

/// A function with only a name.
pub open spec fn bare_function(name: Seq<char>) -> FunctionView {
    FunctionView {
        name,
        docs: None,
        allow: Seq::empty(),
        vis: None,
        generics: Seq::empty(),
        args: Seq::empty(),
        ret: None,
        bounds: Seq::empty(),
        attributes: Seq::empty(),
        body: None,
    }
}

pub open spec fn function_views(fs: Seq<Function>) -> Seq<FunctionView> {
    fs.map_values(|f: Function| f@)
}

/// The first `n` functions of `fs`, each after a blank line except the first,
/// which follows one only when `gap_first` holds.
pub open spec fn functions_doc(fs: Seq<FunctionView>, gap_first: bool, n: nat) -> Seq<Piece>
    decreases n,
{
    if n == 0 || n > fs.len() {
        Seq::empty()
    } else {
        functions_doc(fs, gap_first, (n - 1) as nat) + (if n > 1 || gap_first {
            text("\n"@)
        } else {
            Seq::empty()
        }) + function_doc(fs[n - 1])
    }
}

/// Writes the functions `fns` as `functions_doc` describes.
pub(crate) fn fmt_functions(fns: &Vec<Function>, gap_first: bool, fmt: &mut Formatter)
    ensures
        final(fmt)@ == emit(old(fmt)@, functions_doc(function_views(fns@), gap_first, fns@.len())),
{
    let ghost v0 = fmt@;
    let ghost fs = function_views(fns@);
    proof {
        lemma_emit_empty(v0);
    }
    let mut i: usize = 0;
    while i < fns.len()
        invariant
            i <= fns.len(),
            fs == function_views(fns@),
            fmt@ == emit(v0, functions_doc(fs, gap_first, i as nat)),
        decreases fns.len() - i,
    {
        let ghost d = functions_doc(fs, gap_first, i as nat);
        let ghost vi = fmt@;
        if i != 0 || gap_first {
            fmt.write("\n");
            proof {
                lemma_emit_concat(v0, d, text("\n"@));
            }
        } else {
            proof {
                lemma_emit_empty(vi);
                assert(d + Seq::<Piece>::empty() =~= d);
            }
        }
        let ghost gap = if i != 0 || gap_first { text("\n"@) } else { Seq::<Piece>::empty() };
        fns[i].fmt(fmt);
        proof {
            lemma_emit_concat(v0, d + gap, function_doc(fs[i as int]));
        }
        i = i + 1;
    }
}

impl Clone for Function {
    fn clone(&self) -> (r: Self)
        ensures
            r@ == self@,
    {
        let mut bounds: Vec<Bound> = Vec::new();
        let mut i: usize = 0;
        while i < self.bounds.len()
            invariant
                i <= self.bounds.len(),
                bounds@.len() == i,
                forall|k: int| 0 <= k < i ==> #[trigger] bounds@[k]@ == self.bounds@[k]@,
            decreases self.bounds.len() - i,
        {
            bounds.push(self.bounds[i].clone());
            i = i + 1;
        }
        assert(bound_views(bounds@) =~= bound_views(self.bounds@));
        Function {
            name: self.name.clone(),
            docs: match &self.docs {
                Some(d) => Some(d.clone()),
                None => None,
            },
            allow: clone_strs(&self.allow),
            vis: clone_opt(&self.vis),
            generics: clone_strs(&self.generics),
            args: clone_fields(&self.args),
            ret: match &self.ret {
                Some(t) => Some(t.clone()),
                None => None,
            },
            bounds,
            attributes: clone_strs(&self.attributes),
            body: match &self.body {
                Some(b) => Some(clone_strs(b)),
                None => None,
            },
        }
    }
}

impl Function {
    /// Return a new function definition with no arguments and no body.
    pub fn new(name: &str) -> (r: Self)
        ensures
            r@ == bare_function(name@),
    {
        let r = Function {
            name: name.to_string(),
            docs: None,
            allow: Vec::new(),
            vis: None,
            generics: Vec::new(),
            args: Vec::new(),
            ret: None,
            bounds: Vec::new(),
            attributes: Vec::new(),
            body: None,
        };
        assert(str_views(r.allow@) =~= Seq::<Seq<char>>::empty());
        assert(field_views(r.args@) =~= Seq::<FieldView>::empty());
        assert(bound_views(r.bounds@) =~= Seq::<BoundView>::empty());
        r
    }

    /// The function's name.
    pub fn name(&self) -> (r: &String)
        ensures
            r@ == self@.name,
    {
        &self.name
    }

    /// Set the function documentation.
    pub fn doc(&mut self, docs: &str) -> (r: &mut Self)
        ensures
            r@ == (FunctionView { docs: Some(docs@), ..old(self)@ }),
            *final(self) == *final(r),
    {
        self.docs = Some(Docs::new(docs));
        self
    }

    /// Specify lint attribute to suppress a warning or error.
    pub fn allow(&mut self, allow: &str) -> (r: &mut Self)
        ensures
            r@ == (FunctionView { allow: old(self)@.allow.push(allow@), ..old(self)@ }),
            *final(self) == *final(r),
    {
        self.allow.push(allow.to_string());
        assert(str_views(self.allow@) =~= str_views(old(self).allow@).push(allow@));
        self
    }

    /// Set the function visibility.
    pub fn vis(&mut self, vis: &str) -> (r: &mut Self)
        ensures
            r@ == (FunctionView { vis: Some(vis@), ..old(self)@ }),
            *final(self) == *final(r),
    {
        self.vis = Some(vis.to_string());
        self
    }

    /// Add a generic parameter.
    pub fn generic(&mut self, name: &str) -> (r: &mut Self)
        ensures
            r@ == (FunctionView { generics: old(self)@.generics.push(name@), ..old(self)@ }),
            *final(self) == *final(r),
    {
        self.generics.push(name.to_string());
        assert(str_views(self.generics@) =~= str_views(old(self).generics@).push(name@));
        self
    }

    /// Add an argument `name: ty`.
    pub fn arg<T: IntoType>(&mut self, name: &str, ty: T) -> (r: &mut Self)
        ensures
            r@ == (FunctionView { args: old(self)@.args.push(plain_field(name@, ty.type_of())), ..old(self)@ }),
            *final(self) == *final(r),
    {
        let f = Field::new(name, ty);
        self.args.push(f);
        assert(field_views(self.args@) =~= field_views(old(self).args@).push(f@));
        self
    }

    /// Set the return type.
    pub fn ret<T: IntoType>(&mut self, ty: T) -> (r: &mut Self)
        ensures
            r@ == (FunctionView { ret: Some(ty.type_of()), ..old(self)@ }),
            *final(self) == *final(r),
    {
        self.ret = Some(ty.into_type());
        self
    }

    /// Add a `where` bound `name: ty`.
    pub fn bound<T: IntoType>(&mut self, name: &str, ty: T) -> (r: &mut Self)
        ensures
            r@ == (FunctionView {
                bounds: old(self)@.bounds.push(BoundView { name: name@, bound: seq![ty.type_of()] }),
                ..old(self)@
            }),
            *final(self) == *final(r),
    {
        let t = ty.into_type();
        let mut tys: Vec<Type> = Vec::new();
        proof {
            lemma_type_views(tys@, 0);
            lemma_type_views_push(tys@, t);
        }
        tys.push(t);
        let b = Bound { name: name.to_string(), bound: tys };
        proof {
            assert(b@.bound =~= seq![ty.type_of()]);
        }
        self.bounds.push(b);
        assert(bound_views(self.bounds@) =~= bound_views(old(self).bounds@).push(b@));
        self
    }

    /// Add an attribute.
    pub fn attr(&mut self, attr: &str) -> (r: &mut Self)
        ensures
            r@ == (FunctionView { attributes: old(self)@.attributes.push(attr@), ..old(self)@ }),
            *final(self) == *final(r),
    {
        self.attributes.push(attr.to_string());
        assert(str_views(self.attributes@) =~= str_views(old(self).attributes@).push(attr@));
        self
    }

    /// Add a line to the body; a function with a body renders it in a block.
    pub fn line(&mut self, line: &str) -> (r: &mut Self)
        ensures
            r@ == (FunctionView {
                body: Some(match old(self)@.body {
                    Some(ls) => ls,
                    None => Seq::empty(),
                }.push(line@)),
                ..old(self)@
            }),
            *final(self) == *final(r),
    {
        let mut b = match &self.body {
            Some(b) => clone_strs(b),
            None => Vec::new(),
        };
        let ghost before = b@;
        b.push(line.to_string());
        proof {
            assert(str_views(b@) =~= str_views(before).push(line@));
            if old(self)@.body is None {
                assert(str_views(before) =~= Seq::<Seq<char>>::empty());
            }
        }
        self.body = Some(b);
        self
    }

    fn fmt_args(&self, fmt: &mut Formatter)
        ensures
            final(fmt)@ == emit(old(fmt)@, text(join_all(self@.args.map_values(|a: FieldView| arg_text(a)), ", "@))),
    {
        let ghost v0 = fmt@;
        let ghost items = self@.args.map_values(|a: FieldView| arg_text(a));
        proof {
            lemma_text_empty(v0);
        }
        let mut i: usize = 0;
        while i < self.args.len()
            invariant
                i <= self.args.len(),
                items == self@.args.map_values(|a: FieldView| arg_text(a)),
                fmt@ == emit(v0, text(join(items, ", "@, i as nat))),
            decreases self.args.len() - i,
        {
            let ghost acc = join(items, ", "@, i as nat);
            if i != 0 {
                fmt.write_on(", ", Ghost(v0), Ghost(acc));
            }
            let ghost a1 = if i != 0 { acc + ", "@ } else { acc };
            let a = &self.args[i];
            fmt.write_on(a.name.as_str(), Ghost(v0), Ghost(a1));
            fmt.write_on(": ", Ghost(v0), Ghost(a1 + a@.name));
            a.ty.fmt(fmt);
            proof {
                lemma_text_concat(v0, a1 + a@.name + ": "@, type_text(a@.ty));
            }
            i = i + 1;
            proof {
                assert(a1 + a@.name + ": "@ + type_text(a@.ty) =~= a1 + items[i - 1]);
                if i == 1 {
                    assert(a1 + items[0] =~= join(items, ", "@, 1));
                }
            }
        }
    }

    /// Formats the function using the given formatter.
    pub fn fmt(&self, fmt: &mut Formatter)
        ensures
            final(fmt)@ == emit(old(fmt)@, function_doc(self@)),
    {
        let ghost v0 = fmt@;
        let ghost f = self@;
        proof {
            lemma_text_empty(v0);
        }
        match &self.docs {
            Some(docs) => {
                docs.fmt(fmt);
            },
            None => {},
        }
        let ghost a = opt_docs_text(f.docs);
        fmt_wrapped(&self.allow, "#[allow(", ")]\n", fmt);
        proof {
            lemma_text_concat(v0, a, wrap_all(f.allow, "#[allow("@, ")]\n"@));
        }
        let ghost a = a + wrap_all(f.allow, "#[allow("@, ")]\n"@);
        fmt_wrapped(&self.attributes, "#[", "]\n", fmt);
        proof {
            lemma_text_concat(v0, a, wrap_all(f.attributes, "#["@, "]\n"@));
        }
        let ghost a = a + wrap_all(f.attributes, "#["@, "]\n"@);
        fmt_opt_wrapped(&self.vis, "", " ", fmt);
        proof {
            reveal_strlit("");
            lemma_text_concat(v0, a, vis_prefix(f.vis));
            if f.vis is Some {
                assert(""@ + f.vis->0 + " "@ =~= vis_prefix(f.vis));
            }
        }
        let ghost a = a + vis_prefix(f.vis);
        fmt.write_on("fn ", Ghost(v0), Ghost(a));
        fmt.write_on(self.name.as_str(), Ghost(v0), Ghost(a + "fn "@));
        let ghost a = a + "fn "@ + f.name;
        fmt_generics(&self.generics, fmt);
        proof {
            lemma_text_concat(v0, a, generics_text(f.generics));
        }
        let ghost a = a + generics_text(f.generics);
        fmt.write_on("(", Ghost(v0), Ghost(a));
        self.fmt_args(fmt);
        let ghost args = join_all(f.args.map_values(|x: FieldView| arg_text(x)), ", "@);
        proof {
            lemma_text_concat(v0, a + "("@, args);
        }
        fmt.write_on(")", Ghost(v0), Ghost(a + "("@ + args));
        let ghost a = a + "("@ + args + ")"@;
        match &self.ret {
            Some(t) => {
                fmt.write_on(" -> ", Ghost(v0), Ghost(a));
                t.fmt(fmt);
                proof {
                    lemma_text_concat(v0, a + " -> "@, type_text(t@));
                    assert(a + " -> "@ + type_text(t@) =~= a + ret_text(f.ret));
                }
            },
            None => {
                proof {
                    assert(a =~= a + ret_text(f.ret));
                }
            },
        }
        let ghost a = a + ret_text(f.ret);
        fmt_bounds(&self.bounds, fmt);
        proof {
            lemma_text_concat(v0, a, bounds_text(f.bounds));
            assert(a + bounds_text(f.bounds) == signature_text(f));
        }
        let ghost s = text(signature_text(f));
        let ghost vs = fmt@;
        match &self.body {
            Some(lines) => {
                let saved = fmt.open_block();
                let ghost v1 = fmt@;
                let ghost ls = str_views(lines@);
                proof {
                    lemma_text_empty(v1);
                }
                let mut i: usize = 0;
                while i < lines.len()
                    invariant
                        i <= lines.len(),
                        ls == str_views(lines@),
                        fmt@ == emit(v1, text(newline_each(ls, i as nat))),
                    decreases lines.len() - i,
                {
                    let ghost acc = newline_each(ls, i as nat);
                    fmt.write_on(lines[i].as_str(), Ghost(v1), Ghost(acc));
                    fmt.write_on("\n", Ghost(v1), Ghost(acc + ls[i as int]));
                    i = i + 1;
                }
                let ghost v2 = fmt@;
                fmt.close_block(saved);
                proof {
                    lemma_block(vs, text(newline_each(ls, ls.len())), v1, v2);
                    lemma_emit_concat(v0, s, block_doc(text(newline_each(ls, ls.len()))));
                }
            },
            None => {
                fmt.write(";\n");
                proof {
                    lemma_emit_concat(v0, s, text(";\n"@));
                }
            },
        }
    }
}

} // verus!
