//! Field lists: empty, named, or positional, never mixed.
use vstd::prelude::*;

use crate::field::{field_text, plain_field, vis_prefix, Field, FieldView};
use crate::formatter::{
    block_doc, emit, lemma_block, lemma_text_concat, lemma_text_empty, text, Formatter, Piece,
};
use crate::text::{join, join_all, opt_view, clone_opt};
use crate::type_ref::{type_text, IntoType, Type, TypeView};

verus! {

/// A field list as plain values.
pub ghost enum FieldsView {
    Empty,
    Tuple(Seq<(Option<Seq<char>>, TypeView)>),
    Named(Seq<FieldView>),
}

/// Defines a set of fields.
pub enum Fields {
    Empty,
    Tuple(Vec<(Option<String>, Type)>),
    Named(Vec<Field>),
}

pub open spec fn tuple_views(ts: Seq<(Option<String>, Type)>) -> Seq<(Option<Seq<char>>, TypeView)> {
    ts.map_values(|t: (Option<String>, Type)| (opt_view(t.0), t.1@))
}

pub open spec fn field_views(fs: Seq<Field>) -> Seq<FieldView> {
    fs.map_values(|f: Field| f@)
}

impl View for Fields {
    type V = FieldsView;

    open spec fn view(&self) -> FieldsView {
        match self {
            Fields::Empty => FieldsView::Empty,
            Fields::Tuple(ts) => FieldsView::Tuple(tuple_views(ts@)),
            Fields::Named(fs) => FieldsView::Named(field_views(fs@)),
        }
    }
}

/// Whether a field list that is not empty holds at least one field.
pub open spec fn fields_wf(f: FieldsView) -> bool {
    match f {
        FieldsView::Empty => true,
        FieldsView::Tuple(ts) => ts.len() > 0,
        FieldsView::Named(fs) => fs.len() > 0,
    }
}

/// The named fields of `f`; none unless it is named.
pub open spec fn named_of(f: FieldsView) -> Seq<FieldView> {
    match f {
        FieldsView::Named(fs) => fs,
        _ => Seq::empty(),
    }
}

/// The positional fields of `f`; none unless it is positional.
pub open spec fn tuple_of(f: FieldsView) -> Seq<(Option<Seq<char>>, TypeView)> {
    match f {
        FieldsView::Tuple(ts) => ts,
        _ => Seq::empty(),
    }
}

/// The texts of the first `n` named fields, one after the other.
pub open spec fn fields_text(fs: Seq<FieldView>, n: nat) -> Seq<char>
    decreases n,
{
    if n == 0 || n > fs.len() {
        Seq::empty()
    } else {
        fields_text(fs, (n - 1) as nat) + field_text(fs[n - 1])
    }
}

/// One positional field: its visibility and a space, then its type.
pub open spec fn tuple_item_text(t: (Option<Seq<char>>, TypeView)) -> Seq<char> {
    vis_prefix(t.0) + type_text(t.1)
}

/// The rendering of a field list: named fields in a block, one per line;
/// positional fields in parentheses, separated by `", "`; nothing when empty.
pub open spec fn fields_doc(f: FieldsView) -> Seq<Piece> {
    match f {
        FieldsView::Empty => Seq::empty(),
        FieldsView::Tuple(ts) => text(
            "("@ + join_all(ts.map_values(|t: (Option<Seq<char>>, TypeView)| tuple_item_text(t)), ", "@) + ")"@,
        ),
        FieldsView::Named(fs) => block_doc(text(fields_text(fs, fs.len()))),
    }
}

pub fn clone_fields(fs: &Vec<Field>) -> (r: Vec<Field>)
    ensures
        field_views(r@) == field_views(fs@),
{
    let mut out: Vec<Field> = Vec::new();
    let mut i: usize = 0;
    while i < fs.len()
        invariant
            i <= fs.len(),
            out@.len() == i,
            forall|k: int| 0 <= k < i ==> #[trigger] out@[k]@ == fs@[k]@,
        decreases fs.len() - i,
    {
        out.push(fs[i].clone());
        i = i + 1;
    }
    assert(field_views(out@) =~= field_views(fs@));
    out
}

fn last_field(v: &mut Vec<Field>) -> (r: &mut Field)
    requires
        old(v)@.len() > 0,
    ensures
        *r == old(v)@.last(),
        final(v)@ == old(v)@.update(old(v)@.len() - 1, *final(r)),
{
    let n = v.len();
    &mut v[n - 1]
}

impl Clone for Fields {
    fn clone(&self) -> (r: Self)
        ensures
            r@ == self@,
    {
        match self {
            Fields::Empty => Fields::Empty,
            Fields::Named(fs) => Fields::Named(clone_fields(fs)),
            Fields::Tuple(ts) => {
                let mut out: Vec<(Option<String>, Type)> = Vec::new();
                let mut i: usize = 0;
                while i < ts.len()
                    invariant
                        i <= ts.len(),
                        out@.len() == i,
                        forall|k: int| 0 <= k < i ==> opt_view(#[trigger] out@[k].0) == opt_view(ts@[k].0)
                            && out@[k].1@ == ts@[k].1@,
                    decreases ts.len() - i,
                {
                    out.push((clone_opt(&ts[i].0), ts[i].1.clone()));
                    i = i + 1;
                }
                assert(tuple_views(out@) =~= tuple_views(ts@));
                Fields::Tuple(out)
            },
        }
    }
}

impl Fields {
    /// Pushes a named field; the list must not be positional.
    pub fn push_named(&mut self, field: Field) -> (r: &mut Self)
        requires
            !(old(self)@ is Tuple),
        ensures
            r@ == FieldsView::Named(named_of(old(self)@).push(field@)),
            *final(self) == *final(r),
    {
        let ghost fv = field@;
        match self {
            Fields::Named(fields) => {
                let ghost before = fields@;
                fields.push(field);
                proof {
                    assert(field_views(fields@) =~= field_views(before).push(fv));
                }
            },
            _ => {
                *self = Fields::Named(vec![field]);
                proof {
                    if let Fields::Named(v) = self {
                        assert(field_views(v@) =~= seq![fv]);
                    }
                }
            },
        }
        proof {
            assert(named_of(old(self)@).push(fv) =~= named_of(old(self)@).push(field@));
        }
        self
    }

    /// Pushes a named field with the given name and type.
    pub fn named<T: IntoType>(&mut self, name: &str, ty: T) -> (r: &mut Self)
        requires
            !(old(self)@ is Tuple),
        ensures
            r@ == FieldsView::Named(named_of(old(self)@).push(plain_field(name@, ty.type_of()))),
            *final(self) == *final(r),
    {
        self.push_named(Field::new(name, ty))
    }

    fn push_named_last(&mut self, field: Field) -> (r: &mut Field)
        requires
            !(old(self)@ is Tuple),
        ensures
            r@ == field@,
            final(self)@ is Named,
            named_of(final(self)@).len() == named_of(old(self)@).len() + 1,
            named_of(final(self)@).last() == final(r)@,
            forall|k: int| 0 <= k < named_of(old(self)@).len() ==> #[trigger] named_of(final(self)@)[k] == named_of(old(self)@)[k],
        decreases (if old(self)@ is Named { 0nat } else { 1nat }),
    {
        match *self {
            Fields::Named(ref mut fields) => {
                let ghost before = fields@;
                fields.push(field);
                let r = last_field(fields);
                proof {
                    assert(field_views(before.push(*final(r))) =~= field_views(before).push(final(r)@));
                    assert(before.push(field).update(before.len() as int, *final(r)) =~= before.push(*final(r)));
                }
                r
            },
            _ => {
                *self = Fields::Named(Vec::new());
                self.push_named_last(field)
            },
        }
    }

    /// Pushes a named field and returns it for further configuration.
    pub fn new_named<T: IntoType>(&mut self, name: &str, ty: T) -> (r: &mut Field)
        requires
            !(old(self)@ is Tuple),
        ensures
            r@ == plain_field(name@, ty.type_of()),
            final(self)@ is Named,
            named_of(final(self)@).len() == named_of(old(self)@).len() + 1,
            named_of(final(self)@).last() == final(r)@,
            forall|k: int| 0 <= k < named_of(old(self)@).len() ==> #[trigger] named_of(final(self)@)[k] == named_of(old(self)@)[k],
    {
        self.push_named_last(Field::new(name, ty))
    }

    /// Pushes a positional field; the list must not be named.
    pub fn tuple<T: IntoType>(&mut self, vis: Option<String>, ty: T) -> (r: &mut Self)
        requires
            !(old(self)@ is Named),
        ensures
            r@ == FieldsView::Tuple(tuple_of(old(self)@).push((opt_view(vis), ty.type_of()))),
            *final(self) == *final(r),
    {
        let ghost vv = opt_view(vis);
        let t = ty.into_type();
        let ghost tv = t@;
        match self {
            Fields::Tuple(fields) => {
                let ghost before = fields@;
                fields.push((vis, t));
                proof {
                    assert(tuple_views(fields@) =~= tuple_views(before).push((vv, tv)));
                }
            },
            _ => {
                *self = Fields::Tuple(vec![(vis, t)]);
                proof {
                    if let Fields::Tuple(v) = self {
                        assert(tuple_views(v@) =~= seq![(vv, tv)]);
                    }
                }
            },
        }
        self
    }

    /// Formats the fields using the given formatter.
    pub fn fmt(&self, fmt: &mut Formatter)
        requires
            fields_wf(self@),
        ensures
            final(fmt)@ == emit(old(fmt)@, fields_doc(self@)),
    {
        let ghost v0 = fmt@;
        match self {
            Fields::Named(fields) => {
                let ghost fs = field_views(fields@);
                let saved = fmt.open_block();
                let ghost v1 = fmt@;
                proof {
                    lemma_text_empty(v1);
                }
                let mut i: usize = 0;
                while i < fields.len()
                    invariant
                        i <= fields.len(),
                        fs == field_views(fields@),
                        fmt@ == emit(v1, text(fields_text(fs, i as nat))),
                    decreases fields.len() - i,
                {
                    fields[i].fmt(fmt);
                    proof {
                        lemma_text_concat(v1, fields_text(fs, i as nat), field_text(fs[i as int]));
                    }
                    i = i + 1;
                }
                let ghost v2 = fmt@;
                fmt.close_block(saved);
                proof {
                    lemma_block(v0, text(fields_text(fs, fs.len())), v1, v2);
                }
            },
            Fields::Tuple(tys) => {
                let ghost ts = tuple_views(tys@);
                let ghost items = ts.map_values(|t: (Option<Seq<char>>, TypeView)| tuple_item_text(t));
                fmt.write("(");
                let mut i: usize = 0;
                while i < tys.len()
                    invariant
                        i <= tys.len(),
                        ts == tuple_views(tys@),
                        items == ts.map_values(|t: (Option<Seq<char>>, TypeView)| tuple_item_text(t)),
                        fmt@ == emit(v0, text("("@ + join(items, ", "@, i as nat))),
                    decreases tys.len() - i,
                {
                    let ghost acc = "("@ + join(items, ", "@, i as nat);
                    if i != 0 {
                        fmt.write_on(", ", Ghost(v0), Ghost(acc));
                    }
                    let ghost a1 = if i != 0 { acc + ", "@ } else { acc };
                    match &tys[i].0 {
                        Some(v) => {
                            fmt.write_on(v.as_str(), Ghost(v0), Ghost(a1));
                            fmt.write_on(" ", Ghost(v0), Ghost(a1 + v@));
                            proof {
                                assert(a1 + v@ + " "@ =~= a1 + vis_prefix(ts[i as int].0));
                            }
                        },
                        None => {
                            proof {
                                assert(a1 =~= a1 + vis_prefix(ts[i as int].0));
                            }
                        },
                    }
                    let ghost a2 = a1 + vis_prefix(ts[i as int].0);
                    tys[i].1.fmt(fmt);
                    proof {
                        lemma_text_concat(v0, a2, type_text(ts[i as int].1));
                    }
                    i = i + 1;
                    proof {
                        assert(a2 + type_text(ts[i - 1].1) =~= a1 + items[i - 1]);
                        if i == 1 {
                            assert(a1 + items[0] =~= "("@ + join(items, ", "@, 1));
                        } else {
                            assert(a1 + items[i - 1] =~= "("@ + join(items, ", "@, i as nat));
                        }
                    }
                }
                fmt.write_on(")", Ghost(v0), Ghost("("@ + join(items, ", "@, i as nat)));
            },
            Fields::Empty => {
                proof {
                    lemma_text_empty(v0);
                }
            },
        }
    }
}

} // verus!
