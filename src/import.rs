//! Import records and the ordered table that holds them.
use vstd::prelude::*;

use indexmap::IndexMap;

use crate::formatter::{emit, lemma_text_concat, lemma_text_empty, text, Formatter};
use crate::text::{clone_opt, join_all, opt_str_view, opt_view, own_opt, str_eq, str_views};
use crate::type_def::{fmt_comma_list, fmt_opt_wrapped};

verus! {

/// An import as plain values.
pub ghost struct ImportView {
    pub line: Seq<char>,
    pub vis: Option<Seq<char>>,
    pub alias: Option<Seq<char>>,
}

/// Defines an import (`use` statement).
pub struct Import {
    line: String,
    /// Import visibility
    pub vis: Option<String>,
    /// Alias using the `as` keyword
    pub alias: Option<String>,
}

impl View for Import {
    type V = ImportView;

    closed spec fn view(&self) -> ImportView {
        ImportView { line: self.line@, vis: opt_view(self.vis), alias: opt_view(self.alias) }
    }
}

impl Clone for Import {
    fn clone(&self) -> (r: Self)
        ensures
            r@ == self@,
    {
        Import { line: self.line.clone(), vis: clone_opt(&self.vis), alias: clone_opt(&self.alias) }
    }
}

impl Import {
    /// Return a new import of `ty` from `path`, with no visibility.
    pub fn new(path: &str, ty: &str, alias: Option<&str>) -> (r: Self)
        ensures
            r@.line == path@ + "::"@ + ty@ + match alias {
                Some(a) => " as "@ + a@,
                None => Seq::empty(),
            },
            r@.vis is None,
            r@.alias == opt_str_view(alias),
    {
        let mut line = path.to_string();
        line.append("::");
        line.append(ty);
        match alias {
            Some(a) => {
                line.append(" as ");
                line.append(a);
            },
            None => {},
        }
        Import { line, vis: None, alias: own_opt(alias) }
    }

    /// Set the import visibility.
    pub fn vis(&mut self, vis: &str) -> (r: &mut Self)
        ensures
            r@ == (ImportView { vis: Some(vis@), ..old(self)@ }),
            *final(self) == *final(r),
    {
        self.vis = Some(vis.to_string());
        self
    }

    /// Set the import alias.
    pub fn alias(&mut self, alias: Option<&str>) -> (r: &mut Self)
        ensures
            r@ == (ImportView { alias: opt_str_view(alias), ..old(self)@ }),
            *final(self) == *final(r),
    {
        self.alias = own_opt(alias);
        self
    }
}

/// indexmap's `IndexMap`, an insertion-ordered hash map; opaque here, its
/// contents are named by `import_entries`.
#[verifier::external_type_specification]
#[verifier::external_body]
#[verifier::reject_recursive_types(K)]
#[verifier::reject_recursive_types(V)]
#[verifier::reject_recursive_types(S)]
pub struct ExIndexMap<K, V, S>(IndexMap<K, V, S>);

/// The imports of a scope, keyed by source path and imported name.
pub type ImportMap = IndexMap<(String, String), Import>;

/// A borrowed entry of an import table.
pub type ImportRef<'a> = (&'a (String, String), &'a Import);

/// The plain values of a borrowed entry.
pub open spec fn entry_view(e: ImportRef) -> (Seq<char>, Seq<char>, ImportView) {
    let (k, v) = e;
    let (p, n) = *k;
    (p@, n@, v@)
}

/// The entries of an import table in their order: path, name, import. Keys
/// are unique, and an entry keeps its place when its value changes.
pub uninterp spec fn import_entries(m: ImportMap) -> Seq<(Seq<char>, Seq<char>, ImportView)>;

/// Index of the first entry of `e` keyed by `(path, name)`.
pub open spec fn key_index(e: Seq<(Seq<char>, Seq<char>, ImportView)>, path: Seq<char>, name: Seq<char>, from: nat) -> Option<nat>
    decreases e.len() - from,
{
    if from >= e.len() {
        None
    } else if e[from as int].0 == path && e[from as int].1 == name {
        Some(from)
    } else {
        key_index(e, path, name, from + 1)
    }
}

pub proof fn lemma_key_index(e: Seq<(Seq<char>, Seq<char>, ImportView)>, path: Seq<char>, name: Seq<char>, from: nat)
    ensures
        key_index(e, path, name, from) matches Some(i) ==> from <= i < e.len() && e[i as int].0 == path
            && e[i as int].1 == name,
    decreases e.len() - from,
{
    if from < e.len() && !(e[from as int].0 == path && e[from as int].1 == name) {
        lemma_key_index(e, path, name, from + 1);
    }
}

/// Relies on `IndexMap::new`: the map is empty.
#[verifier::external_body]
pub(crate) fn import_map_new() -> (r: ImportMap)
    ensures
        import_entries(r) == Seq::<(Seq<char>, Seq<char>, ImportView)>::empty(),
{
    IndexMap::new()
}

/// Relies on `IndexMap::len`: the number of entries.
#[verifier::external_body]
pub(crate) fn import_map_len(m: &ImportMap) -> (r: usize)
    ensures
        r == import_entries(*m).len(),
{
    m.len()
}

/// Relies on `IndexMap::get_index`: the entry at position `i`, if there is one.
#[verifier::external_body]
pub(crate) fn import_map_get(m: &ImportMap, i: usize) -> (r: Option<ImportRef<'_>>)
    ensures
        r is Some <==> i < import_entries(*m).len(),
        r is Some ==> entry_view(r->0) == import_entries(*m)[i as int],
{
    m.get_index(i)
}

/// Relies on `IndexMap::entry` and `Entry::or_insert`: the value kept under
/// `key`, inserted last in order when the key is new.
#[verifier::external_body]
pub(crate) fn import_map_entry(m: &mut ImportMap, key: (String, String), value: Import) -> (r: &mut Import)
    ensures
        match key_index(import_entries(*old(m)), key.0@, key.1@, 0) {
            Some(i) => {
                &&& r@ == import_entries(*old(m))[i as int].2
                &&& import_entries(*final(m)) == import_entries(*old(m)).update(
                    i as int,
                    (key.0@, key.1@, final(r)@),
                )
            },
            None => {
                &&& r@ == value@
                &&& import_entries(*final(m)) == import_entries(*old(m)).push((key.0@, key.1@, final(r)@))
            },
        },
{
    m.entry(key).or_insert(value)
}

/// Relies on `IndexMap`'s `Clone`, which clones each key and value in order.
#[verifier::external_body]
pub(crate) fn import_map_clone(m: &ImportMap) -> (r: ImportMap)
    ensures
        import_entries(r) == import_entries(*m),
{
    m.clone()
}

} // verus!

verus! {

/// The distinct visibilities among the first `n` entries, in first-seen order.
pub open spec fn distinct_vis(e: Seq<(Seq<char>, Seq<char>, ImportView)>, n: nat) -> Seq<Option<Seq<char>>>
    decreases n,
{
    if n == 0 || n > e.len() {
        Seq::empty()
    } else {
        let d = distinct_vis(e, (n - 1) as nat);
        if d.contains(e[n - 1].2.vis) {
            d
        } else {
            d.push(e[n - 1].2.vis)
        }
    }
}

/// The distinct paths among the first `n` entries, in first-seen order.
pub open spec fn distinct_paths(e: Seq<(Seq<char>, Seq<char>, ImportView)>, n: nat) -> Seq<Seq<char>>
    decreases n,
{
    if n == 0 || n > e.len() {
        Seq::empty()
    } else {
        let d = distinct_paths(e, (n - 1) as nat);
        if d.contains(e[n - 1].0) {
            d
        } else {
            d.push(e[n - 1].0)
        }
    }
}

/// One `use` line for an aliased import.
pub open spec fn alias_line(q: Seq<char>, v: Option<Seq<char>>, name: Seq<char>, alias: Seq<char>) -> Seq<char> {
    crate::field::vis_prefix(v) + "use "@ + q + "::"@ + name + " as "@ + alias + ";\n"@
}

/// The lines of the aliased imports from `q` with visibility `v` among the
/// first `n` entries, in order.
pub open spec fn alias_lines(e: Seq<(Seq<char>, Seq<char>, ImportView)>, q: Seq<char>, v: Option<Seq<char>>, n: nat) -> Seq<char>
    decreases n,
{
    if n == 0 || n > e.len() {
        Seq::empty()
    } else {
        alias_lines(e, q, v, (n - 1) as nat) + (if e[n - 1].0 == q && e[n - 1].2.vis == v
            && e[n - 1].2.alias is Some {
            alias_line(q, v, e[n - 1].1, e[n - 1].2.alias->0)
        } else {
            Seq::empty()
        })
    }
}

/// The names of the imports without alias from `q` with visibility `v`
/// among the first `n` entries, in order.
pub open spec fn simple_names(e: Seq<(Seq<char>, Seq<char>, ImportView)>, q: Seq<char>, v: Option<Seq<char>>, n: nat) -> Seq<Seq<char>>
    decreases n,
{
    if n == 0 || n > e.len() {
        Seq::empty()
    } else {
        let s = simple_names(e, q, v, (n - 1) as nat);
        if e[n - 1].0 == q && e[n - 1].2.vis == v && e[n - 1].2.alias is None {
            s.push(e[n - 1].1)
        } else {
            s
        }
    }
}

/// The one `use` line for the names `ns` of `q`: `q::name;` for one name,
/// `q::{a, b};` for more, nothing for none.
pub open spec fn simple_line(ns: Seq<Seq<char>>, q: Seq<char>, v: Option<Seq<char>>) -> Seq<char> {
    if ns.len() == 0 {
        Seq::empty()
    } else {
        crate::field::vis_prefix(v) + "use "@ + q + "::"@ + if ns.len() > 1 {
            "{"@ + join_all(ns, ", "@) + "};\n"@
        } else {
            ns[0] + ";\n"@
        }
    }
}

/// The imports from `q` with visibility `v`: aliased ones first, then the rest on one line.
pub open spec fn group_text(e: Seq<(Seq<char>, Seq<char>, ImportView)>, q: Seq<char>, v: Option<Seq<char>>) -> Seq<char> {
    alias_lines(e, q, v, e.len()) + simple_line(simple_names(e, q, v, e.len()), q, v)
}

/// The groups of visibility `v` for the first `n` paths of `ps`.
pub open spec fn paths_text(e: Seq<(Seq<char>, Seq<char>, ImportView)>, ps: Seq<Seq<char>>, v: Option<Seq<char>>, n: nat) -> Seq<char>
    decreases n,
{
    if n == 0 || n > ps.len() {
        Seq::empty()
    } else {
        paths_text(e, ps, v, (n - 1) as nat) + group_text(e, ps[n - 1], v)
    }
}

/// The groups of the first `n` visibilities of `vs`, each over all paths.
pub open spec fn vis_text(e: Seq<(Seq<char>, Seq<char>, ImportView)>, vs: Seq<Option<Seq<char>>>, n: nat) -> Seq<char>
    decreases n,
{
    if n == 0 || n > vs.len() {
        Seq::empty()
    } else {
        vis_text(e, vs, (n - 1) as nat) + paths_text(e, distinct_paths(e, e.len()), vs[n - 1], distinct_paths(e, e.len()).len())
    }
}

/// The consolidated import block: by visibility in first-seen order, then by
/// path in first-seen order.
pub open spec fn imports_text(e: Seq<(Seq<char>, Seq<char>, ImportView)>) -> Seq<char> {
    vis_text(e, distinct_vis(e, e.len()), distinct_vis(e, e.len()).len())
}

fn opt_eq(a: &Option<String>, b: &Option<String>) -> (r: bool)
    ensures
        r == (opt_view(*a) == opt_view(*b)),
{
    match (a, b) {
        (Some(x), Some(y)) => str_eq(x.as_str(), y.as_str()),
        (None, None) => true,
        _ => false,
    }
}

fn contains_opt(v: &Vec<Option<String>>, x: &Option<String>) -> (r: bool)
    ensures
        r == v@.map_values(|o: Option<String>| opt_view(o)).contains(opt_view(*x)),
{
    let ghost vs = v@.map_values(|o: Option<String>| opt_view(o));
    let mut i: usize = 0;
    while i < v.len()
        invariant
            i <= v.len(),
            vs == v@.map_values(|o: Option<String>| opt_view(o)),
            forall|k: int| 0 <= k < i ==> vs[k] != opt_view(*x),
        decreases v.len() - i,
    {
        if opt_eq(&v[i], x) {
            assert(vs[i as int] == opt_view(*x));
            return true;
        }
        i = i + 1;
    }
    false
}

fn contains_str(v: &Vec<String>, x: &String) -> (r: bool)
    ensures
        r == str_views(v@).contains(x@),
{
    let ghost vs = str_views(v@);
    let mut i: usize = 0;
    while i < v.len()
        invariant
            i <= v.len(),
            vs == str_views(v@),
            forall|k: int| 0 <= k < i ==> vs[k] != x@,
        decreases v.len() - i,
    {
        if str_eq(v[i].as_str(), x.as_str()) {
            assert(vs[i as int] == x@);
            return true;
        }
        i = i + 1;
    }
    false
}

/// The visibilities and the paths of the table's entries, each distinct and in first-seen order.
fn collect_keys(m: &ImportMap) -> (r: (Vec<Option<String>>, Vec<String>))
    ensures
        r.0@.map_values(|o: Option<String>| opt_view(o)) == distinct_vis(import_entries(*m), import_entries(*m).len()),
        str_views(r.1@) == distinct_paths(import_entries(*m), import_entries(*m).len()),
{
    let ghost e = import_entries(*m);
    let n = import_map_len(m);
    let mut vis: Vec<Option<String>> = Vec::new();
    let mut paths: Vec<String> = Vec::new();
    let mut i: usize = 0;
    while i < n
        invariant
            i <= n,
            n == e.len(),
            e == import_entries(*m),
            vis@.map_values(|o: Option<String>| opt_view(o)) == distinct_vis(e, i as nat),
            str_views(paths@) == distinct_paths(e, i as nat),
        decreases n - i,
    {
        match import_map_get(m, i) {
            Some((k, imp)) => {
                if !contains_opt(&vis, &imp.vis) {
                    let ghost before = vis@;
                    vis.push(clone_opt(&imp.vis));
                    assert(vis@.map_values(|o: Option<String>| opt_view(o)) =~= before.map_values(
                        |o: Option<String>| opt_view(o),
                    ).push(e[i as int].2.vis));
                }
                if !contains_str(&paths, &k.0) {
                    let ghost before = paths@;
                    paths.push(k.0.clone());
                    assert(str_views(paths@) =~= str_views(before).push(e[i as int].0));
                }
            },
            None => {},
        }
        i = i + 1;
    }
    (vis, paths)
}

/// Writes the imports of `q` with visibility `vis`, as `group_text` gives them.
fn fmt_group(m: &ImportMap, q: &String, vis: &Option<String>, fmt: &mut Formatter)
    ensures
        final(fmt)@ == emit(old(fmt)@, text(group_text(import_entries(*m), q@, opt_view(*vis)))),
{
    let ghost e = import_entries(*m);
    let ghost v = opt_view(*vis);
    let ghost v0 = fmt@;
    let n = import_map_len(m);
    let mut names: Vec<String> = Vec::new();
    proof {
        lemma_text_empty(v0);
    }
    let mut i: usize = 0;
    while i < n
        invariant
            i <= n,
            n == e.len(),
            e == import_entries(*m),
            v == opt_view(*vis),
            fmt@ == emit(v0, text(alias_lines(e, q@, v, i as nat))),
            str_views(names@) == simple_names(e, q@, v, i as nat),
        decreases n - i,
    {
        let ghost acc = alias_lines(e, q@, v, i as nat);
        match import_map_get(m, i) {
            Some((k, imp)) => {
                if str_eq(k.0.as_str(), q.as_str()) && opt_eq(&imp.vis, vis) {
                    match &imp.alias {
                        Some(a) => {
                            fmt_opt_wrapped(vis, "", " ", fmt);
                            proof {
                                reveal_strlit("");
                                lemma_text_concat(v0, acc, crate::field::vis_prefix(v));
                                if v is Some {
                                    assert(""@ + v->0 + " "@ =~= crate::field::vis_prefix(v));
                                }
                            }
                            let ghost b = acc + crate::field::vis_prefix(v);
                            fmt.write_on("use ", Ghost(v0), Ghost(b));
                            fmt.write_on(q.as_str(), Ghost(v0), Ghost(b + "use "@));
                            fmt.write_on("::", Ghost(v0), Ghost(b + "use "@ + q@));
                            fmt.write_on(k.1.as_str(), Ghost(v0), Ghost(b + "use "@ + q@ + "::"@));
                            let ghost c = b + "use "@ + q@ + "::"@ + k.1@;
                            fmt.write_on(" as ", Ghost(v0), Ghost(c));
                            fmt.write_on(a.as_str(), Ghost(v0), Ghost(c + " as "@));
                            fmt.write_on(";\n", Ghost(v0), Ghost(c + " as "@ + a@));
                            proof {
                                assert(c + " as "@ + a@ + ";\n"@ =~= alias_lines(e, q@, v, (i + 1) as nat));
                            }
                        },
                        None => {
                            let ghost before = names@;
                            names.push(k.1.clone());
                            proof {
                                assert(str_views(names@) =~= str_views(before).push(k.1@));
                                assert(acc =~= alias_lines(e, q@, v, (i + 1) as nat));
                            }
                        },
                    }
                } else {
                    proof {
                        assert(acc =~= alias_lines(e, q@, v, (i + 1) as nat));
                    }
                }
            },
            None => {},
        }
        i = i + 1;
    }
    let ghost acc = alias_lines(e, q@, v, e.len());
    let ghost ns = simple_names(e, q@, v, e.len());
    if names.len() > 0 {
        fmt_opt_wrapped(vis, "", " ", fmt);
        proof {
            reveal_strlit("");
            lemma_text_concat(v0, acc, crate::field::vis_prefix(v));
            if v is Some {
                assert(""@ + v->0 + " "@ =~= crate::field::vis_prefix(v));
            }
        }
        let ghost b = acc + crate::field::vis_prefix(v);
        fmt.write_on("use ", Ghost(v0), Ghost(b));
        fmt.write_on(q.as_str(), Ghost(v0), Ghost(b + "use "@));
        fmt.write_on("::", Ghost(v0), Ghost(b + "use "@ + q@));
        let ghost c = b + "use "@ + q@ + "::"@;
        if names.len() > 1 {
            fmt.write_on("{", Ghost(v0), Ghost(c));
            fmt_comma_list(&names, fmt);
            proof {
                lemma_text_concat(v0, c + "{"@, join_all(ns, ", "@));
            }
            fmt.write_on("};\n", Ghost(v0), Ghost(c + "{"@ + join_all(ns, ", "@)));
            proof {
                assert(c + "{"@ + join_all(ns, ", "@) + "};\n"@ =~= acc + simple_line(ns, q@, v));
            }
        } else {
            fmt.write_on(names[0].as_str(), Ghost(v0), Ghost(c));
            fmt.write_on(";\n", Ghost(v0), Ghost(c + ns[0]));
            proof {
                assert(c + ns[0] + ";\n"@ =~= acc + simple_line(ns, q@, v));
            }
        }
    } else {
        proof {
            assert(acc =~= acc + simple_line(ns, q@, v));
        }
    }
}

/// Writes the consolidated import block of `m`.
pub fn fmt_imports(m: &ImportMap, fmt: &mut Formatter)
    ensures
        final(fmt)@ == emit(old(fmt)@, text(imports_text(import_entries(*m)))),
{
    let ghost e = import_entries(*m);
    let ghost v0 = fmt@;
    let (visibilities, paths) = collect_keys(m);
    let ghost vs = visibilities@.map_values(|o: Option<String>| opt_view(o));
    let ghost ps = str_views(paths@);
    proof {
        lemma_text_empty(v0);
    }
    let mut i: usize = 0;
    while i < visibilities.len()
        invariant
            i <= visibilities.len(),
            e == import_entries(*m),
            vs == visibilities@.map_values(|o: Option<String>| opt_view(o)),
            vs == distinct_vis(e, e.len()),
            ps == str_views(paths@),
            ps == distinct_paths(e, e.len()),
            fmt@ == emit(v0, text(vis_text(e, vs, i as nat))),
        decreases visibilities.len() - i,
    {
        let ghost acc = vis_text(e, vs, i as nat);
        let mut j: usize = 0;
        proof {
            assert(acc + paths_text(e, ps, vs[i as int], 0) =~= acc);
        }
        while j < paths.len()
            invariant
                i < visibilities.len(),
                j <= paths.len(),
                e == import_entries(*m),
                vs == visibilities@.map_values(|o: Option<String>| opt_view(o)),
                ps == str_views(paths@),
                fmt@ == emit(v0, text(acc + paths_text(e, ps, vs[i as int], j as nat))),
            decreases paths.len() - j,
        {
            let ghost a2 = acc + paths_text(e, ps, vs[i as int], j as nat);
            fmt_group(m, &paths[j], &visibilities[i], fmt);
            proof {
                lemma_text_concat(v0, a2, group_text(e, ps[j as int], vs[i as int]));
            }
            j = j + 1;
            proof {
                assert(a2 + group_text(e, ps[j - 1], vs[i - 0]) =~= acc + paths_text(e, ps, vs[i as int], j as nat));
            }
        }
        i = i + 1;
    }
}

} // verus!
