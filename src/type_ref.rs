//! Type references: a name with an ordered list of generic arguments.
use vstd::prelude::*;

use crate::formatter::{emit, lemma_text_concat, lemma_text_empty, text, Formatter};
use crate::text::{after_last_sep, chars_of, has_char, last_sep, suffix_start};

verus! {

/// A type reference as plain values.
pub ghost struct TypeView {
    pub name: Seq<char>,
    pub generics: Seq<TypeView>,
}

/// Defines a type.
pub struct Type {
    name: String,
    generics: Vec<Type>,
}

pub closed spec fn type_view(t: Type) -> TypeView
    decreases t, 0nat,
{
    TypeView { name: t.name@, generics: type_views(t.generics@, t.generics@.len()) }
}

/// Views of the first `n` types of `ts`.
pub closed spec fn type_views(ts: Seq<Type>, n: nat) -> Seq<TypeView>
    decreases ts, n,
{
    if n == 0 || n > ts.len() {
        Seq::empty()
    } else {
        type_views(ts, (n - 1) as nat).push(type_view(ts[n - 1]))
    }
}

pub proof fn lemma_type_views(ts: Seq<Type>, n: nat)
    requires
        n <= ts.len(),
    ensures
        type_views(ts, n).len() == n,
        forall|i: int| 0 <= i < n ==> #[trigger] type_views(ts, n)[i] == type_view(ts[i]),
    decreases n,
{
    if n > 0 {
        lemma_type_views(ts, (n - 1) as nat);
    }
}

pub proof fn lemma_type_views_push(ts: Seq<Type>, t: Type)
    ensures
        type_views(ts.push(t), ts.len() + 1) == type_views(ts, ts.len()).push(type_view(t)),
{
    lemma_type_views(ts.push(t), ts.len() + 1);
    lemma_type_views(ts, ts.len());
    assert(type_views(ts.push(t), ts.len() + 1) =~= type_views(ts, ts.len()).push(type_view(t)));
}

impl View for Type {
    type V = TypeView;

    open spec fn view(&self) -> TypeView {
        type_view(*self)
    }
}

/// The text of a type: its name, then its generic arguments in angle brackets.
pub open spec fn type_text(t: TypeView) -> Seq<char>
    decreases t, 0nat,
{
    if t.generics.len() == 0 {
        t.name
    } else {
        t.name + "<"@ + list_text(t.generics, t.generics.len()) + ">"@
    }
}

/// The texts of the first `n` types of `ts`, separated by `", "`.
pub open spec fn list_text(ts: Seq<TypeView>, n: nat) -> Seq<char>
    decreases ts, n,
{
    if n == 0 || n > ts.len() {
        Seq::empty()
    } else if n == 1 {
        type_text(ts[0])
    } else {
        list_text(ts, (n - 1) as nat) + ", "@ + type_text(ts[n - 1])
    }
}

/// The plain type named `s`.
pub open spec fn named(s: Seq<char>) -> TypeView {
    TypeView { name: s, generics: Seq::empty() }
}

/// Index of the first `c` in `s` at or after `from` (`s.len()` when there is none).
pub open spec fn find_from(s: Seq<char>, c: char, from: nat) -> nat
    decreases s.len() - from,
{
    if from >= s.len() {
        s.len()
    } else if s[from as int] == c {
        from
    } else {
        find_from(s, c, from + 1)
    }
}

/// Index of the last `c` in `s[lo..hi]`, if any.
pub open spec fn rfind_in(s: Seq<char>, c: char, lo: nat, hi: nat) -> Option<nat>
    decreases hi,
{
    if hi <= lo || hi > s.len() {
        None
    } else if s[hi - 1] == c {
        Some((hi - 1) as nat)
    } else {
        rfind_in(s, c, lo, (hi - 1) as nat)
    }
}

/// The two groups that the pattern `([^<]*)<(.*)>` captures in its leftmost
/// match in `s` that starts at or after `start`. From a start, the first group
/// runs to the next `<`, and the second from there to the last `>` before the
/// end of that line (`.` does not match a newline).
pub open spec fn generic_captures(s: Seq<char>, start: nat) -> Option<(Seq<char>, Seq<char>)>
    decreases s.len() - start,
{
    if start >= s.len() {
        None
    } else {
        let i = find_from(s, '<', start);
        if i >= s.len() {
            None
        } else {
            match rfind_in(s, '>', i + 1, find_from(s, '\n', i + 1)) {
                Some(j) => Some((s.subrange(start as int, i as int), s.subrange((i + 1) as int, j as int))),
                None => generic_captures(s, start + 1),
            }
        }
    }
}

/// Whether `Type::new` accepts `s`: no `<` at all, or a `<` followed, on the
/// same line, by a `>`.
pub open spec fn parses(s: Seq<char>) -> bool {
    !s.contains('<') || generic_captures(s, 0) is Some
}

/// The type that `Type::new` builds from `s`: the part before the first `<`
/// as the name, and everything between it and the last `>` as one generic
/// argument (not split at commas).
pub open spec fn parsed_type(s: Seq<char>) -> TypeView {
    if !s.contains('<') {
        named(s)
    } else {
        match generic_captures(s, 0) {
            Some((n, g)) => TypeView { name: n, generics: seq![named(g)] },
            None => named(s),
        }
    }
}

/// Relies on regex's `Regex::new` and `Regex::captures`: the pattern is valid,
/// and the groups of the leftmost-first match are those `generic_captures` gives.
#[verifier::external_body]
fn split_name_and_generic(s: &str) -> (r: Option<(String, String)>)
    ensures
        match r {
            Some((n, g)) => generic_captures(s@, 0) == Some((n@, g@)),
            None => generic_captures(s@, 0) is None,
        },
{
    let re = regex::Regex::new(r"([^<]*)<(.*)>").unwrap();
    match re.captures(s) {
        Some(c) => Some((c[1].to_string(), c[2].to_string())),
        None => None,
    }
}

proof fn lemma_find_from(s: Seq<char>, c: char, from: nat)
    ensures
        from <= find_from(s, c, from) <= s.len() || (from > s.len() && find_from(s, c, from) == s.len()),
        find_from(s, c, from) < s.len() ==> s[find_from(s, c, from) as int] == c,
        forall|k: int| from <= k < find_from(s, c, from) ==> s[k] != c,
    decreases s.len() - from,
{
    if from < s.len() && s[from as int] != c {
        lemma_find_from(s, c, from + 1);
    }
}

proof fn lemma_captures_no_lt(s: Seq<char>, start: nat)
    ensures
        generic_captures(s, start) matches Some((n, g)) ==> !n.contains('<'),
    decreases s.len() - start,
{
    if start < s.len() {
        let i = find_from(s, '<', start);
        lemma_find_from(s, '<', start);
        if i < s.len() {
            match rfind_in(s, '>', i + 1, find_from(s, '\n', i + 1)) {
                Some(j) => {
                    let n = s.subrange(start as int, i as int);
                    assert forall|k: int| 0 <= k < n.len() implies n[k] != '<' by {
                        assert(n[k] == s[start + k]);
                    }
                },
                None => {
                    lemma_captures_no_lt(s, start + 1);
                },
            }
        }
    }
}

/// A name that `Type::new` accepts yields a name free of `<`.
pub proof fn lemma_parsed_plain(s: Seq<char>)
    requires
        parses(s),
    ensures
        plain_name(parsed_type(s)),
{
    lemma_captures_no_lt(s, 0);
}

/// Whether `t`'s name is free of `<`, so that generic arguments may be added.
pub open spec fn plain_name(t: TypeView) -> bool {
    !t.name.contains('<')
}

impl Clone for Type {
    fn clone(&self) -> (r: Self)
        ensures
            r@ == self@,
        decreases self,
    {
        let mut gs: Vec<Type> = Vec::new();
        let mut i: usize = 0;
        while i < self.generics.len()
            invariant
                i <= self.generics.len(),
                type_views(gs@, gs@.len()) == type_views(self.generics@, i as nat),
                gs@.len() == i,
            decreases self.generics.len() - i,
        {
            let g = self.generics[i].clone();
            proof {
                lemma_type_views_push(gs@, g);
            }
            gs.push(g);
            i = i + 1;
        }
        Type { name: self.name.clone(), generics: gs }
    }
}

/// Conversion into a [`Type`].
pub trait IntoType: Sized {
    /// What the conversion yields.
    spec fn type_of(&self) -> TypeView;

    fn into_type(self) -> (r: Type)
        ensures
            r@ == self.type_of(),
    ;
}

impl<'a> IntoType for &'a str {
    open spec fn type_of(&self) -> TypeView {
        named((*self)@)
    }

    fn into_type(self) -> (r: Type) {
        let r = Type { name: self.to_string(), generics: Vec::new() };
        proof {
            lemma_type_views(r.generics@, 0);
        }
        r
    }
}

impl IntoType for String {
    open spec fn type_of(&self) -> TypeView {
        named(self@)
    }

    fn into_type(self) -> (r: Type) {
        let r = Type { name: self, generics: Vec::new() };
        proof {
            lemma_type_views(r.generics@, 0);
        }
        r
    }
}

impl IntoType for Type {
    open spec fn type_of(&self) -> TypeView {
        self@
    }

    fn into_type(self) -> (r: Type) {
        self
    }
}

impl<'a> IntoType for &'a Type {
    open spec fn type_of(&self) -> TypeView {
        (*self)@
    }

    fn into_type(self) -> (r: Type) {
        self.clone()
    }
}

impl Type {
    /// Returns a new type with the given name. A name holding `<` is split
    /// at it: the text up to the last `>` becomes a single generic argument.
    pub fn new(name: &str) -> (r: Type)
        requires
            parses(name@),
        ensures
            r@ == parsed_type(name@),
            plain_name(r@),
    {
        if has_char(name, '<') {
            match split_name_and_generic(name) {
                Some((n, g)) => {
                    proof {
                        lemma_captures_no_lt(name@, 0);
                    }
                    let mut t = Type { name: n, generics: Vec::new() };
                    let gt = Type { name: g, generics: Vec::new() };
                    proof {
                        lemma_type_views(t.generics@, 0);
                        lemma_type_views(gt.generics@, 0);
                        lemma_type_views_push(t.generics@, gt);
                    }
                    t.generics.push(gt);
                    proof {
                        assert(t@.generics =~= seq![named(g@)]);
                    }
                    t
                },
                None => {
                    proof {
                        assert(false);
                    }
                    Type { name: name.to_string(), generics: Vec::new() }
                },
            }
        } else {
            let r = Type { name: name.to_string(), generics: Vec::new() };
            proof {
                lemma_type_views(r.generics@, 0);
            }
            r
        }
    }

    /// Returns the name of the type.
    pub fn name(&self) -> (r: &String)
        ensures
            r@ == self@.name,
    {
        &self.name
    }

    /// Returns the generic arguments of the type.
    pub fn generics(&self) -> (r: &Vec<Type>)
        ensures
            r@.len() == self@.generics.len(),
            forall|i: int| 0 <= i < r@.len() ==> #[trigger] r@[i]@ == self@.generics[i],
    {
        proof {
            lemma_type_views(self.generics@, self.generics@.len());
        }
        &self.generics
    }

    /// Returns the key for sorting: the name after its last `::`.
    pub fn key_for_sorting(&self) -> (r: &str)
        ensures
            r@ == after_last_sep(self@.name),
    {
        let cs = chars_of(self.name.as_str());
        let k = suffix_start(&cs);
        self.name.as_str().substring_char(k, cs.len())
    }

    /// Add a generic to the type.
    pub fn generic<T: IntoType>(&mut self, ty: T) -> (r: &mut Self)
        requires
            plain_name(old(self)@),
        ensures
            r@ == (TypeView { generics: old(self)@.generics.push(ty.type_of()), ..old(self)@ }),
            *final(self) == *final(r),
    {
        let g = ty.into_type();
        proof {
            lemma_type_views_push(self.generics@, g);
        }
        self.generics.push(g);
        self
    }

    /// Rewrite the `Type` with the provided path.
    pub fn path(&self, path: &str) -> (r: Type)
        requires
            last_sep(self@.name, self@.name.len()) is None,
        ensures
            r@ == (TypeView { name: path@ + "::"@ + self@.name, ..self@ }),
    {
        let mut name = path.to_string();
        name.append("::");
        name.append(self.name.as_str());
        let c = self.clone();
        Type { name, generics: c.generics }
    }

    /// Formats the type using the given formatter.
    pub fn fmt(&self, fmt: &mut Formatter)
        ensures
            final(fmt)@ == emit(old(fmt)@, text(type_text(self@))),
        decreases self, 1nat,
    {
        let ghost v0 = fmt@;
        fmt.write(self.name.as_str());
        let ghost v1 = fmt@;
        Type::fmt_slice(&self.generics, fmt);
        proof {
            let x = if self.generics@.len() == 0 {
                Seq::empty()
            } else {
                "<"@ + list_text(type_views(self.generics@, self.generics@.len()), self.generics@.len()) + ">"@
            };
            lemma_text_concat(v0, self@.name, x);
            lemma_type_views(self.generics@, self.generics@.len());
            if self.generics@.len() == 0 {
                assert(self@.name + Seq::<char>::empty() =~= self@.name);
            } else {
                assert(self@.name + ("<"@ + list_text(self@.generics, self@.generics.len()) + ">"@)
                    =~= type_text(self@));
            }
        }
    }

    fn fmt_slice(generics: &Vec<Type>, fmt: &mut Formatter)
        ensures
            final(fmt)@ == emit(old(fmt)@, text(
                if generics@.len() == 0 {
                    Seq::empty()
                } else {
                    "<"@ + list_text(type_views(generics@, generics@.len()), generics@.len()) + ">"@
                },
            )),
        decreases generics, 0nat,
    {
        let ghost v0 = fmt@;
        let ghost views = type_views(generics@, generics@.len());
        proof {
            lemma_type_views(generics@, generics@.len());
            lemma_text_empty(v0);
            assert("<"@ + list_text(views, 0) =~= "<"@);
        }
        if generics.len() > 0 {
            fmt.write("<");
            let mut i: usize = 0;
            while i < generics.len()
                invariant
                    i <= generics.len(),
                    views == type_views(generics@, generics@.len()),
                    views.len() == generics@.len(),
                    forall|k: int| 0 <= k < views.len() ==> #[trigger] views[k] == generics@[k]@,
                    fmt@ == emit(v0, text("<"@ + list_text(views, i as nat))),
                decreases generics.len() - i,
            {
                let ghost acc = "<"@ + list_text(views, i as nat);
                if i != 0 {
                    fmt.write(", ");
                    proof {
                        lemma_text_concat(v0, acc, ", "@);
                    }
                }
                let ghost acc2 = if i != 0 { acc + ", "@ } else { acc };
                generics[i].fmt(fmt);
                proof {
                    lemma_text_concat(v0, acc2, type_text(views[i as int]));
                }
                i = i + 1;
                proof {
                    if i == 1 {
                        assert(list_text(views, 0) =~= Seq::<char>::empty());
                        assert(acc2 + type_text(views[0]) =~= "<"@ + list_text(views, 1));
                    } else {
                        assert(acc2 + type_text(views[i - 1]) =~= "<"@ + list_text(views, i as nat));
                    }
                }
            }
            fmt.write(">");
            proof {
                lemma_text_concat(v0, "<"@ + list_text(views, i as nat), ">"@);
            }
        }
    }
}

} // verus!
