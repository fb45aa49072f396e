//! Named fields of structs, enum variants and associated items.
use vstd::prelude::*;

use crate::formatter::{emit, lemma_text_concat, lemma_text_empty, text, Formatter};
use crate::text::{clone_opt, clone_strs, lines, lines_of, newline_each, opt_view, slash_each, str_views};
use crate::type_ref::{type_text, IntoType, Type, TypeView};

verus! {

/// A field as plain values.
pub ghost struct FieldView {
    pub name: Seq<char>,
    pub ty: TypeView,
    pub documentation: Seq<char>,
    pub annotation: Seq<Seq<char>>,
    pub value: Seq<char>,
    pub visibility: Option<Seq<char>>,
}

/// Defines a struct field.
pub struct Field {
    /// Field name
    pub name: String,
    /// Field type
    pub ty: Type,
    /// Field documentation
    pub documentation: String,
    /// Field annotation
    pub annotation: Vec<String>,
    /// Field value
    pub value: String,
    /// The visibility of the field
    pub visibility: Option<String>,
}

impl View for Field {
    type V = FieldView;

    open spec fn view(&self) -> FieldView {
        FieldView {
            name: self.name@,
            ty: self.ty@,
            documentation: self.documentation@,
            annotation: str_views(self.annotation@),
            value: self.value@,
            visibility: opt_view(self.visibility),
        }
    }
}

impl Clone for Field {
    fn clone(&self) -> (r: Self)
        ensures
            r@ == self@,
    {
        Field {
            name: self.name.clone(),
            ty: self.ty.clone(),
            documentation: self.documentation.clone(),
            annotation: clone_strs(&self.annotation),
            value: self.value.clone(),
            visibility: clone_opt(&self.visibility),
        }
    }
}

/// A field named `name` of type `ty`, with nothing else set.
pub open spec fn plain_field(name: Seq<char>, ty: TypeView) -> FieldView {
    FieldView {
        name,
        ty,
        documentation: Seq::empty(),
        annotation: Seq::empty(),
        value: Seq::empty(),
        visibility: None,
    }
}

/// The visibility of `f` followed by a space, or nothing.
pub open spec fn vis_prefix(v: Option<Seq<char>>) -> Seq<char> {
    match v {
        Some(s) => s + " "@,
        None => Seq::empty(),
    }
}

/// The text of a named field inside a field block: its documentation lines,
/// its annotations, then `vis name: Type,`.
pub open spec fn field_text(f: FieldView) -> Seq<char> {
    slash_each(lines(f.documentation), lines(f.documentation).len())
        + newline_each(f.annotation, f.annotation.len())
        + vis_prefix(f.visibility) + f.name + ": "@ + type_text(f.ty) + ",\n"@
}

impl Field {
    /// Return a field definition with the provided name and type.
    pub fn new<T: IntoType>(name: &str, ty: T) -> (r: Self)
        ensures
            r@ == plain_field(name@, ty.type_of()),
    {
        let r = Field {
            name: name.to_string(),
            ty: ty.into_type(),
            documentation: String::new(),
            annotation: Vec::new(),
            value: String::new(),
            visibility: None,
        };
        assert(str_views(r.annotation@) =~= Seq::<Seq<char>>::empty());
        r
    }

    /// Set field's documentation.
    pub fn doc(&mut self, documentation: &str) -> (r: &mut Self)
        ensures
            r@ == (FieldView { documentation: documentation@, ..old(self)@ }),
            *final(self) == *final(r),
    {
        self.documentation = documentation.to_string();
        self
    }

    /// Add an annotation to the field.
    pub fn annotation(&mut self, annotation: &str) -> (r: &mut Self)
        ensures
            r@ == (FieldView { annotation: old(self)@.annotation.push(annotation@), ..old(self)@ }),
            *final(self) == *final(r),
    {
        self.annotation.push(annotation.to_string());
        assert(str_views(self.annotation@) =~= str_views(old(self).annotation@).push(annotation@));
        self
    }

    /// Set the visibility of the field.
    pub fn vis(&mut self, visibility: &str) -> (r: &mut Self)
        ensures
            r@ == (FieldView { visibility: Some(visibility@), ..old(self)@ }),
            *final(self) == *final(r),
    {
        self.visibility = Some(visibility.to_string());
        self
    }

    /// Writes the field as it stands in a block of named fields.
    pub fn fmt(&self, fmt: &mut Formatter)
        ensures
            final(fmt)@ == emit(old(fmt)@, text(field_text(self@))),
    {
        let ghost v0 = fmt@;
        let ghost f = self@;
        let ls = lines_of(self.documentation.as_str());
        let ghost dl = lines(f.documentation);
        proof {
            lemma_text_empty(v0);
        }
        let mut i: usize = 0;
        while i < ls.len()
            invariant
                i <= ls.len(),
                ls@.len() == dl.len(),
                forall|k: int| 0 <= k < ls@.len() ==> #[trigger] ls@[k]@ == dl[k],
                fmt@ == emit(v0, text(slash_each(dl, i as nat))),
            decreases ls.len() - i,
        {
            let ghost acc = slash_each(dl, i as nat);
            fmt.write_on("/// ", Ghost(v0), Ghost(acc));
            fmt.write_chars_on(&ls[i], Ghost(v0), Ghost(acc + "/// "@));
            fmt.write_on("\n", Ghost(v0), Ghost(acc + "/// "@ + dl[i as int]));
            i = i + 1;
        }
        let ghost d = slash_each(dl, dl.len());
        let mut j: usize = 0;
        while j < self.annotation.len()
            invariant
                j <= self.annotation.len(),
                f == self@,
                d == slash_each(dl, dl.len()),
                fmt@ == emit(v0, text(d + newline_each(f.annotation, j as nat))),
            decreases self.annotation.len() - j,
        {
            let ghost acc = d + newline_each(f.annotation, j as nat);
            fmt.write_on(self.annotation[j].as_str(), Ghost(v0), Ghost(acc));
            fmt.write_on("\n", Ghost(v0), Ghost(acc + f.annotation[j as int]));
            j = j + 1;
            proof {
                assert(acc + f.annotation[j - 1] + "\n"@ =~= d + newline_each(f.annotation, j as nat));
            }
        }
        let ghost a = d + newline_each(f.annotation, f.annotation.len());
        match &self.visibility {
            Some(v) => {
                fmt.write_on(v.as_str(), Ghost(v0), Ghost(a));
                fmt.write_on(" ", Ghost(v0), Ghost(a + v@));
                proof {
                    assert(a + v@ + " "@ =~= a + vis_prefix(f.visibility));
                }
            },
            None => {
                proof {
                    assert(a =~= a + vis_prefix(f.visibility));
                }
            },
        }
        let ghost b = a + vis_prefix(f.visibility);
        fmt.write_on(self.name.as_str(), Ghost(v0), Ghost(b));
        fmt.write_on(": ", Ghost(v0), Ghost(b + f.name));
        self.ty.fmt(fmt);
        proof {
            lemma_text_concat(v0, b + f.name + ": "@, type_text(f.ty));
        }
        fmt.write_on(",\n", Ghost(v0), Ghost(b + f.name + ": "@ + type_text(f.ty)));
        proof {
            assert(b + f.name + ": "@ + type_text(f.ty) + ",\n"@ =~= field_text(f));
        }
    }
}

} // verus!
