//! The container: an ordered list of declarations with an import table,
//! rendered in a stable order.
use vstd::prelude::*;

use crate::docs::Docs;
use crate::enum_def::{enum_doc, variants_wf, Enum, EnumView};
use crate::field::vis_prefix;
use crate::fields::fields_wf;
use crate::formatter::{
    put_doc, block_doc, emit, lemma_block, lemma_emit_concat, lemma_emit_empty, lemma_text_concat, lemma_text_empty, text,
    FmtView, Formatter, Piece,
};
use crate::function::{function_doc, Function, FunctionView};
use crate::impl_block::{impl_doc, impl_key, impl_key_defined, Impl, ImplView};
use crate::import::{
    fmt_imports, import_entries, import_map_clone, import_map_entry, import_map_get, import_map_len, import_map_new,
    imports_text, key_index, lemma_key_index, Import, ImportMap, ImportView,
};
use crate::type_ref::{named, parsed_type};
use crate::struct_def::{struct_doc, Struct, StructView};
use crate::text::{after_last_sep, chars_of, clone_opt, clone_strs, opt_view, str_views, wrap_all};
use crate::trait_def::{trait_doc, Trait, TraitView};
use crate::type_alias::{alias_text, TypeAlias, TypeAliasView};
use crate::fields::FieldsView;
use crate::type_def::{bare_def, docs_view, fmt_opt_wrapped, fmt_wrapped, opt_docs_text};

verus! {

/// A declaration as plain values.
pub ghost enum ItemView {
    Module(ModuleView),
    Struct(StructView),
    Function(FunctionView),
    Trait(TraitView),
    Enum(EnumView),
    Impl(ImplView),
    Raw(Seq<char>),
    TypeAlias(TypeAliasView),
}

/// A module as plain values.
pub ghost struct ModuleView {
    pub name: Seq<char>,
    pub vis: Option<Seq<char>>,
    pub docs: Option<Seq<char>>,
    pub scope: ScopeView,
    pub attributes: Seq<Seq<char>>,
}

/// A scope as plain values.
pub ghost struct ScopeView {
    pub docs: Option<Seq<char>>,
    pub imports: Seq<(Seq<char>, Seq<char>, ImportView)>,
    pub items: Seq<ItemView>,
}

/// One declaration of a scope.
pub enum Item {
    Module(Module),
    Struct(Struct),
    Function(Function),
    Trait(Trait),
    Enum(Enum),
    Impl(Impl),
    Raw(String),
    TypeAlias(TypeAlias),
}

/// Defines a module.
pub struct Module {
    /// Module name
    pub name: String,
    vis: Option<String>,
    docs: Option<Docs>,
    scope: Scope,
    attributes: Vec<String>,
}

/// Defines a scope: modules, types, functions, imports and verbatim text.
pub struct Scope {
    docs: Option<Docs>,
    imports: ImportMap,
    items: Vec<Item>,
}

pub closed spec fn scope_view(s: Scope) -> ScopeView
    decreases s, 0nat,
{
    ScopeView {
        docs: docs_view(s.docs),
        imports: import_entries(s.imports),
        items: item_views(s.items@, s.items@.len()),
    }
}

/// Views of the first `n` items.
pub closed spec fn item_views(items: Seq<Item>, n: nat) -> Seq<ItemView>
    decreases items, n,
{
    if n == 0 || n > items.len() {
        Seq::empty()
    } else {
        item_views(items, (n - 1) as nat).push(item_view(items[n - 1]))
    }
}

pub closed spec fn item_view(i: Item) -> ItemView
    decreases i, 0nat,
{
    match i {
        Item::Module(m) => ItemView::Module(
            ModuleView {
                name: m.name@,
                vis: opt_view(m.vis),
                docs: docs_view(m.docs),
                scope: scope_view(m.scope),
                attributes: str_views(m.attributes@),
            },
        ),
        Item::Struct(s) => ItemView::Struct(s@),
        Item::Function(f) => ItemView::Function(f@),
        Item::Trait(t) => ItemView::Trait(t@),
        Item::Enum(e) => ItemView::Enum(e@),
        Item::Impl(x) => ItemView::Impl(x@),
        Item::Raw(s) => ItemView::Raw(s@),
        Item::TypeAlias(a) => ItemView::TypeAlias(a@),
    }
}

pub proof fn lemma_item_views(items: Seq<Item>, n: nat)
    requires
        n <= items.len(),
    ensures
        item_views(items, n).len() == n,
        forall|i: int| 0 <= i < n ==> #[trigger] item_views(items, n)[i] == item_view(items[i]),
    decreases n,
{
    if n > 0 {
        lemma_item_views(items, (n - 1) as nat);
    }
}

proof fn lemma_item_views_push(items: Seq<Item>, it: Item)
    ensures
        item_views(items.push(it), items.len() + 1) == item_views(items, items.len()).push(item_view(it)),
{
    lemma_item_views(items.push(it), items.len() + 1);
    lemma_item_views(items, items.len());
    assert(item_views(items.push(it), items.len() + 1) =~= item_views(items, items.len()).push(item_view(it)));
}

impl View for Scope {
    type V = ScopeView;

    open spec fn view(&self) -> ScopeView {
        scope_view(*self)
    }
}

impl View for Item {
    type V = ItemView;

    open spec fn view(&self) -> ItemView {
        item_view(*self)
    }
}

impl View for Module {
    type V = ModuleView;

    open spec fn view(&self) -> ModuleView {
        item_view(Item::Module(*self))->Module_0
    }
}

// ----- ordering -----

/// Lexicographic order on character sequences, by code point.
pub open spec fn chars_lt(a: Seq<char>, b: Seq<char>) -> bool
    decreases a.len(),
{
    if a.len() == 0 {
        b.len() > 0
    } else if b.len() == 0 {
        false
    } else if a[0] != b[0] {
        (a[0] as int) < (b[0] as int)
    } else {
        chars_lt(a.drop_first(), b.drop_first())
    }
}

/// The name a declaration is ordered by: the last segment of its type's
/// name, the key type of an impl block, or the name of a function or module.
pub open spec fn item_ident(i: ItemView) -> Seq<char> {
    match i {
        ItemView::Module(m) => m.name,
        ItemView::Struct(s) => after_last_sep(s.type_def.ty.name),
        ItemView::Function(f) => f.name,
        ItemView::Trait(t) => after_last_sep(t.type_def.ty.name),
        ItemView::Enum(e) => after_last_sep(e.type_def.ty.name),
        ItemView::Impl(x) => after_last_sep(impl_key(x).name),
        ItemView::TypeAlias(a) => after_last_sep(a.type_def.ty.name),
        ItemView::Raw(_) => Seq::empty(),
    }
}

/// The tie-break between declarations of one name: structs first.
pub open spec fn item_rank(i: ItemView) -> nat {
    match i {
        ItemView::Struct(_) => 0,
        ItemView::TypeAlias(_) => 1,
        ItemView::Enum(_) => 2,
        ItemView::Function(_) => 3,
        ItemView::Impl(_) => 4,
        ItemView::Module(_) => 5,
        ItemView::Trait(_) => 6,
        ItemView::Raw(_) => 7,
    }
}

/// The composite sort key of a declaration.
pub open spec fn item_key(i: ItemView) -> (Seq<char>, nat) {
    (item_ident(i), item_rank(i))
}

pub open spec fn key_lt(x: (Seq<char>, nat), y: (Seq<char>, nat)) -> bool {
    chars_lt(x.0, y.0) || (x.0 == y.0 && x.1 < y.1)
}

/// Whether item `a` renders before item `b`: by key, then by position.
pub open spec fn renders_before(items: Seq<ItemView>, a: int, b: int) -> bool {
    key_lt(item_key(items[a]), item_key(items[b])) || (item_key(items[a]) == item_key(items[b]) && a < b)
}

/// `ord` lists each declaration of `items` that is not verbatim text, once,
/// in rendering order.
pub open spec fn is_render_order(items: Seq<ItemView>, ord: Seq<int>) -> bool {
    &&& forall|k: int| 0 <= k < ord.len() ==> 0 <= #[trigger] ord[k] < items.len() && !(items[ord[k]] is Raw)
    &&& forall|i: int| 0 <= i < items.len() && !(#[trigger] items[i] is Raw) ==> ord.contains(i)
    &&& forall|j: int, k: int| 0 <= j < k < ord.len() ==> renders_before(items, #[trigger] ord[j], #[trigger] ord[k])
}

/// The rendering order of `items`, which `lemma_render_order_unique` shows to be unique.
pub open spec fn render_order(items: Seq<ItemView>) -> Seq<int> {
    choose|ord: Seq<int>| is_render_order(items, ord)
}

proof fn lemma_chars_lt_irrefl(a: Seq<char>)
    ensures
        !chars_lt(a, a),
    decreases a.len(),
{
    if a.len() > 0 {
        lemma_chars_lt_irrefl(a.drop_first());
    }
}

proof fn lemma_chars_lt_asym(a: Seq<char>, b: Seq<char>)
    ensures
        chars_lt(a, b) ==> !chars_lt(b, a),
    decreases a.len(),
{
    if a.len() > 0 && b.len() > 0 && a[0] == b[0] {
        lemma_chars_lt_asym(a.drop_first(), b.drop_first());
    }
}

proof fn lemma_chars_lt_trans(a: Seq<char>, b: Seq<char>, c: Seq<char>)
    ensures
        chars_lt(a, b) && chars_lt(b, c) ==> chars_lt(a, c),
    decreases a.len(),
{
    if a.len() > 0 && b.len() > 0 && c.len() > 0 {
        lemma_chars_lt_trans(a.drop_first(), b.drop_first(), c.drop_first());
    }
}

proof fn lemma_chars_lt_total(a: Seq<char>, b: Seq<char>)
    ensures
        a != b ==> chars_lt(a, b) || chars_lt(b, a),
    decreases a.len(),
{
    if a.len() > 0 && b.len() > 0 && a[0] == b[0] {
        lemma_chars_lt_total(a.drop_first(), b.drop_first());
        if a.drop_first() == b.drop_first() {
            assert(a =~= seq![a[0]] + a.drop_first());
            assert(b =~= seq![b[0]] + b.drop_first());
        }
    } else if a.len() == 0 && b.len() == 0 {
        assert(a =~= b);
    } else if a.len() > 0 && b.len() > 0 {
        assert((a[0] as int) != (b[0] as int));
    }
}

proof fn lemma_before_asym(items: Seq<ItemView>, a: int, b: int)
    ensures
        renders_before(items, a, b) ==> !renders_before(items, b, a),
{
    let x = item_key(items[a]);
    let y = item_key(items[b]);
    lemma_chars_lt_asym(x.0, y.0);
    lemma_chars_lt_irrefl(x.0);
}

proof fn lemma_before_trans(items: Seq<ItemView>, a: int, b: int, c: int)
    ensures
        renders_before(items, a, b) && renders_before(items, b, c) ==> renders_before(items, a, c),
{
    let x = item_key(items[a]);
    let y = item_key(items[b]);
    let z = item_key(items[c]);
    lemma_chars_lt_trans(x.0, y.0, z.0);
}

proof fn lemma_before_total(items: Seq<ItemView>, a: int, b: int)
    ensures
        a != b ==> renders_before(items, a, b) || renders_before(items, b, a),
{
    let x = item_key(items[a]);
    let y = item_key(items[b]);
    lemma_chars_lt_total(x.0, y.0);
}

pub proof fn lemma_before_trans_pub(items: Seq<ItemView>, a: int, b: int, c: int)
    ensures
        renders_before(items, a, b) && renders_before(items, b, c) ==> renders_before(items, a, c),
{
    lemma_before_trans(items, a, b, c);
}

pub proof fn lemma_before_total_pub(items: Seq<ItemView>, a: int, b: int)
    ensures
        a != b ==> renders_before(items, a, b) || renders_before(items, b, a),
{
    lemma_before_total(items, a, b);
}

pub proof fn lemma_before_irrefl_pub(items: Seq<ItemView>, a: int)
    ensures
        !renders_before(items, a, a),
{
    lemma_before_irrefl(items, a);
}

/// Two sequences sorted by one asymmetric relation, with the same elements, are equal.
proof fn lemma_sorted_unique(items: Seq<ItemView>, o1: Seq<int>, o2: Seq<int>)
    requires
        forall|j: int, k: int| 0 <= j < k < o1.len() ==> renders_before(items, #[trigger] o1[j], #[trigger] o1[k]),
        forall|j: int, k: int| 0 <= j < k < o2.len() ==> renders_before(items, #[trigger] o2[j], #[trigger] o2[k]),
        forall|x: int| o1.contains(x) <==> o2.contains(x),
    ensures
        o1 == o2,
    decreases o1.len(),
{
    if o1.len() == 0 {
        if o2.len() > 0 {
            assert(o2.contains(o2[0]));
        }
        assert(o1 =~= o2);
    } else {
        assert(o1.contains(o1[0]));
        let m = choose|m: int| 0 <= m < o2.len() && o2[m] == o1[0];
        assert(o2.contains(o2[0]));
        let p = choose|p: int| 0 <= p < o1.len() && o1[p] == o2[0];
        if o1[0] != o2[0] {
            assert(renders_before(items, o2[0], o2[m]));
            assert(renders_before(items, o1[0], o1[p]));
            lemma_before_asym(items, o1[0], o2[0]);
        }
        let r1 = o1.drop_first();
        let r2 = o2.drop_first();
        assert forall|j: int, k: int| 0 <= j < k < r1.len() implies renders_before(items, #[trigger] r1[j], #[trigger] r1[k]) by {
            assert(r1[j] == o1[j + 1] && r1[k] == o1[k + 1]);
        }
        assert forall|j: int, k: int| 0 <= j < k < r2.len() implies renders_before(items, #[trigger] r2[j], #[trigger] r2[k]) by {
            assert(r2[j] == o2[j + 1] && r2[k] == o2[k + 1]);
        }
        assert forall|x: int| r1.contains(x) <==> r2.contains(x) by {
            if r1.contains(x) {
                let a = choose|a: int| 0 <= a < r1.len() && r1[a] == x;
                assert(o1[a + 1] == x);
                assert(renders_before(items, o1[0], o1[a + 1]));
                lemma_before_asym(items, o1[0], x);
                lemma_before_irrefl(items, x);
                assert(o2.contains(x));
                let b = choose|b: int| 0 <= b < o2.len() && o2[b] == x;
                assert(b != 0);
                assert(r2[b - 1] == x);
            }
            if r2.contains(x) {
                let a = choose|a: int| 0 <= a < r2.len() && r2[a] == x;
                assert(o2[a + 1] == x);
                assert(renders_before(items, o2[0], o2[a + 1]));
                lemma_before_irrefl(items, x);
                assert(o1.contains(x));
                let b = choose|b: int| 0 <= b < o1.len() && o1[b] == x;
                assert(b != 0);
                assert(r1[b - 1] == x);
            }
        }
        lemma_sorted_unique(items, r1, r2);
        assert(o1 =~= seq![o1[0]] + r1);
        assert(o2 =~= seq![o2[0]] + r2);
    }
}

proof fn lemma_before_irrefl(items: Seq<ItemView>, a: int)
    ensures
        !renders_before(items, a, a),
{
    lemma_chars_lt_irrefl(item_key(items[a]).0);
}

/// There is one rendering order: any order meeting `is_render_order` is `render_order`.
pub proof fn lemma_render_order_unique(items: Seq<ItemView>, ord: Seq<int>)
    requires
        is_render_order(items, ord),
    ensures
        render_order(items) == ord,
{
    let o = render_order(items);
    assert(is_render_order(items, o));
    assert forall|x: int| o.contains(x) <==> ord.contains(x) by {
        if o.contains(x) {
            let k = choose|k: int| 0 <= k < o.len() && o[k] == x;
            assert(0 <= o[k] < items.len() && !(items[o[k]] is Raw));
        }
        if ord.contains(x) {
            let k = choose|k: int| 0 <= k < ord.len() && ord[k] == x;
            assert(0 <= ord[k] < items.len() && !(items[ord[k]] is Raw));
        }
    }
    lemma_sorted_unique(items, o, ord);
}

// ----- rendering -----

/// The verbatim texts among the first `n` items, each on its own line.
pub open spec fn raws_text(items: Seq<ItemView>, n: nat) -> Seq<char>
    decreases n,
{
    if n == 0 || n > items.len() {
        Seq::empty()
    } else {
        raws_text(items, (n - 1) as nat) + match items[n - 1] {
            ItemView::Raw(v) => v + "\n"@,
            _ => Seq::empty(),
        }
    }
}

pub open spec fn has_raw(items: Seq<ItemView>) -> bool {
    exists|i: int| 0 <= i < items.len() && #[trigger] items[i] is Raw
}

/// The part of a scope before its declarations: verbatim texts and a blank
/// line after them, then the import block and a blank line after it.
pub open spec fn preamble_text(s: ScopeView) -> Seq<char> {
    raws_text(s.items, s.items.len()) + (if has_raw(s.items) { "\n"@ } else { Seq::empty() }) + (if s.imports.len() > 0 {
        imports_text(s.imports) + "\n"@
    } else {
        Seq::empty()
    })
}

/// The rendering of a module: attributes, visibility, `mod name`, then its
/// scope in a block.
pub open spec fn module_doc(m: ModuleView) -> Seq<Piece>
    decreases m, 1nat,
{
    text(opt_docs_text(m.docs) + wrap_all(m.attributes, "#["@, "]\n"@) + vis_prefix(m.vis) + "mod "@ + m.name)
        + block_doc(scope_doc(m.scope))
}

pub open spec fn item_doc(i: ItemView) -> Seq<Piece>
    decreases i, 2nat,
{
    match i {
        ItemView::Module(m) => module_doc(m),
        ItemView::Struct(s) => struct_doc(s),
        ItemView::Function(f) => function_doc(f),
        ItemView::Trait(t) => trait_doc(t),
        ItemView::Enum(e) => enum_doc(e),
        ItemView::Impl(x) => impl_doc(x),
        ItemView::TypeAlias(a) => text(alias_text(a)),
        ItemView::Raw(_) => Seq::empty(),
    }
}

/// The first `n` declarations of `ord`, separated by blank lines.
pub open spec fn ordered_doc(items: Seq<ItemView>, ord: Seq<int>, n: nat) -> Seq<Piece>
    decreases items, n,
{
    if n == 0 || n > ord.len() {
        Seq::empty()
    } else {
        ordered_doc(items, ord, (n - 1) as nat) + (if n > 1 { text("\n"@) } else { Seq::empty() }) + if 0 <= ord[n - 1]
            < items.len() {
            item_doc(items[ord[n - 1]])
        } else {
            Seq::empty()
        }
    }
}

/// The rendering of a scope: its preamble, then its declarations in
/// rendering order, separated by blank lines.
pub open spec fn scope_doc(s: ScopeView) -> Seq<Piece>
    decreases s, 0nat,
{
    text(preamble_text(s)) + ordered_doc(s.items, render_order(s.items), render_order(s.items).len())
}

/// Whether every declaration, at every depth, can render.
pub open spec fn scope_wf(s: ScopeView) -> bool
    decreases s, 0nat,
{
    items_wf(s.items, s.items.len())
}

pub open spec fn items_wf(items: Seq<ItemView>, n: nat) -> bool
    decreases items, n,
{
    if n == 0 || n > items.len() {
        true
    } else {
        items_wf(items, (n - 1) as nat) && item_wf(items[n - 1])
    }
}

pub open spec fn item_wf(i: ItemView) -> bool
    decreases i, 0nat,
{
    match i {
        ItemView::Module(m) => scope_wf(m.scope),
        ItemView::Struct(s) => fields_wf(s.fields),
        ItemView::Enum(e) => variants_wf(e.variants),
        ItemView::Impl(x) => impl_key_defined(x),
        _ => true,
    }
}

pub proof fn lemma_items_wf(items: Seq<ItemView>, n: nat, k: int)
    requires
        items_wf(items, n),
        0 <= k < n <= items.len(),
    ensures
        item_wf(items[k]),
    decreases n,
{
    if k < n - 1 {
        lemma_items_wf(items, (n - 1) as nat, k);
    }
}

// ----- ordering, executable -----

fn chars_less(a: &Vec<char>, b: &Vec<char>) -> (r: bool)
    ensures
        r == chars_lt(a@, b@),
{
    let mut i: usize = 0;
    assert(a@.subrange(0, a.len() as int) =~= a@);
    assert(b@.subrange(0, b.len() as int) =~= b@);
    while i < a.len() && i < b.len()
        invariant
            i <= a.len(),
            i <= b.len(),
            chars_lt(a@, b@) == chars_lt(a@.subrange(i as int, a.len() as int), b@.subrange(i as int, b.len() as int)),
        decreases a.len() - i,
    {
        let ghost x = a@.subrange(i as int, a.len() as int);
        let ghost y = b@.subrange(i as int, b.len() as int);
        assert(x[0] == a@[i as int] && y[0] == b@[i as int]);
        if a[i] != b[i] {
            return a[i] < b[i];
        }
        assert(x.drop_first() =~= a@.subrange(i + 1, a.len() as int));
        assert(y.drop_first() =~= b@.subrange(i + 1, b.len() as int));
        i = i + 1;
    }
    let ghost x = a@.subrange(i as int, a.len() as int);
    let ghost y = b@.subrange(i as int, b.len() as int);
    i >= a.len() && i < b.len()
}

fn key_less(a: &(Vec<char>, u8), b: &(Vec<char>, u8)) -> (r: bool)
    ensures
        r == key_lt((a.0@, a.1 as nat), (b.0@, b.1 as nat)),
{
    if chars_less(&a.0, &b.0) {
        return true;
    }
    if a.1 < b.1 && !chars_less(&b.0, &a.0) {
        proof {
            lemma_chars_lt_total(a.0@, b.0@);
        }
        return true;
    }
    proof {
        lemma_chars_lt_total(a.0@, b.0@);
    }
    false
}

fn type_key(t: &crate::type_ref::Type) -> (r: Vec<char>)
    ensures
        r@ == after_last_sep(t@.name),
{
    chars_of(t.key_for_sorting())
}

fn item_sort_key(item: &Item) -> (r: (Vec<char>, u8))
    requires
        item_wf(item@),
    ensures
        r.0@ == item_ident(item@),
        r.1 as nat == item_rank(item@),
{
    match item {
        Item::Module(m) => (chars_of(m.name.as_str()), 5),
        Item::Struct(v) => (type_key(v.ty()), 0),
        Item::Function(v) => (chars_of(v.name().as_str()), 3),
        Item::Trait(v) => (type_key(v.ty()), 6),
        Item::Enum(v) => (type_key(v.ty()), 2),
        Item::Impl(v) => (type_key(v.key_for_sorting()), 4),
        Item::TypeAlias(v) => (type_key(v.type_def()), 1),
        Item::Raw(_) => (Vec::new(), 7),
    }
}

pub open spec fn ord_view(o: Seq<usize>) -> Seq<int> {
    o.map_values(|x: usize| x as int)
}

/// The positions of the declarations of `items` in rendering order.
fn sorted_positions(items: &Vec<Item>) -> (r: Vec<usize>)
    requires
        items_wf(item_views(items@, items@.len()), items@.len() as nat),
    ensures
        is_render_order(item_views(items@, items@.len()), ord_view(r@)),
{
    let ghost views = item_views(items@, items@.len());
    proof {
        lemma_item_views(items@, items@.len());
    }
    let mut keys: Vec<(Vec<char>, u8)> = Vec::new();
    let mut k: usize = 0;
    while k < items.len()
        invariant
            k <= items.len(),
            views == item_views(items@, items@.len()),
            views.len() == items@.len(),
            forall|j: int| 0 <= j < views.len() ==> #[trigger] views[j] == items@[j]@,
            items_wf(views, views.len()),
            keys@.len() == k,
            forall|j: int| 0 <= j < k ==> (#[trigger] keys@[j]).0@ == item_ident(views[j]) && keys@[j].1 as nat
                == item_rank(views[j]),
        decreases items.len() - k,
    {
        proof {
            lemma_items_wf(views, views.len(), k as int);
        }
        keys.push(item_sort_key(&items[k]));
        k = k + 1;
    }
    let mut ord: Vec<usize> = Vec::new();
    let mut i: usize = 0;
    while i < items.len()
        invariant
            i <= items.len(),
            views == item_views(items@, items@.len()),
            views.len() == items@.len(),
            forall|j: int| 0 <= j < views.len() ==> #[trigger] views[j] == items@[j]@,
            keys@.len() == items@.len(),
            forall|j: int| 0 <= j < keys@.len() ==> (#[trigger] keys@[j]).0@ == item_ident(views[j]) && keys@[j].1 as nat
                == item_rank(views[j]),
            forall|q: int| 0 <= q < ord@.len() ==> (#[trigger] ord@[q]) < i && !(views[ord@[q] as int] is Raw),
            forall|x: int| 0 <= x < i && !(#[trigger] views[x] is Raw) ==> ord_view(ord@).contains(x),
            forall|j: int, q: int| 0 <= j < q < ord@.len() ==> renders_before(views, #[trigger] ord@[j] as int, #[trigger] ord@[q] as int),
        decreases items.len() - i,
    {
        let raw = match &items[i] {
            Item::Raw(_) => true,
            _ => false,
        };
        if !raw {
            let mut p: usize = 0;
            while p < ord.len() && !key_less(&keys[i], &keys[ord[p]])
                invariant
                    p <= ord@.len(),
                    i < items.len(),
                    keys@.len() == items@.len(),
                    forall|q: int| 0 <= q < ord@.len() ==> (#[trigger] ord@[q]) < i,
                    forall|q: int| 0 <= q < p ==> renders_before(views, #[trigger] ord@[q] as int, i as int),
                    forall|j: int| 0 <= j < keys@.len() ==> (#[trigger] keys@[j]).0@ == item_ident(views[j]) && keys@[j].1 as nat
                        == item_rank(views[j]),
                decreases ord@.len() - p,
            {
                proof {
                    let q = ord@[p as int] as int;
                    lemma_before_total(views, q, i as int);
                    assert(!renders_before(views, i as int, q));
                }
                p = p + 1;
            }
            let ghost old_ord = ord@;
            proof {
                if p < old_ord.len() {
                    assert(renders_before(views, i as int, old_ord[p as int] as int));
                    assert forall|q: int| p <= q < old_ord.len() implies renders_before(views, i as int, #[trigger] old_ord[q] as int) by {
                        if q > p {
                            lemma_before_trans(views, i as int, old_ord[p as int] as int, old_ord[q] as int);
                        }
                    }
                }
            }
            ord.insert(p, i);
            proof {
                assert(ord@ == old_ord.insert(p as int, i));
                assert forall|j: int, q: int| 0 <= j < q < ord@.len() implies renders_before(views, #[trigger] ord@[j] as int, #[trigger] ord@[q] as int) by {
                    if j < p as int && q < p as int {
                        assert(ord@[j] == old_ord[j] && ord@[q] == old_ord[q]);
                    } else if j < p as int && q == p as int {
                    } else if j < p as int {
                        assert(ord@[j] == old_ord[j] && ord@[q] == old_ord[q - 1]);
                    } else if j == p as int {
                        assert(ord@[q] == old_ord[q - 1]);
                    } else {
                        assert(ord@[j] == old_ord[j - 1] && ord@[q] == old_ord[q - 1]);
                    }
                }
                assert forall|x: int| 0 <= x < i + 1 && !(#[trigger] views[x] is Raw) implies ord_view(ord@).contains(x) by {
                    if x == i {
                        assert(ord_view(ord@)[p as int] == x);
                    } else {
                        assert(ord_view(old_ord).contains(x));
                        let a = choose|a: int| 0 <= a < old_ord.len() && ord_view(old_ord)[a] == x;
                        if a < p {
                            assert(ord_view(ord@)[a] == x);
                        } else {
                            assert(ord_view(ord@)[a + 1] == x);
                        }
                    }
                }
            }
        } else {
            proof {
                assert(views[i as int] == items@[i as int]@);
            }
        }
        i = i + 1;
    }
    proof {
        assert forall|x: int| 0 <= x < views.len() && !(#[trigger] views[x] is Raw) implies ord_view(ord@).contains(x) by {
        }
    }
    ord
}

// ----- rendering, executable -----

#[verifier::rlimit(50)]
fn fmt_item(item: &Item, fmt: &mut Formatter)
    requires
        item_wf(item@),
    ensures
        final(fmt)@ == emit(old(fmt)@, item_doc(item@)),
    decreases item, 0nat,
{
    match item {
        Item::Module(v) => v.fmt(fmt),
        Item::Struct(v) => v.fmt(fmt),
        Item::Function(v) => v.fmt(fmt),
        Item::Trait(v) => v.fmt(fmt),
        Item::Enum(v) => v.fmt(fmt),
        Item::Impl(v) => v.fmt(fmt),
        Item::TypeAlias(v) => v.fmt(fmt),
        Item::Raw(_) => {
            proof {
                lemma_emit_empty(fmt@);
            }
        },
    }
}

impl Module {
    /// Formats the module using the given formatter.
    pub fn fmt(&self, fmt: &mut Formatter)
        requires
            scope_wf(self@.scope),
        ensures
            final(fmt)@ == emit(old(fmt)@, module_doc(self@)),
        decreases self, 0nat,
    {
        let ghost v0 = fmt@;
        let ghost m = self@;
        proof {
            lemma_text_empty(v0);
        }
        match &self.docs {
            Some(docs) => {
                docs.fmt(fmt);
            },
            None => {},
        }
        let ghost a = opt_docs_text(m.docs);
        fmt_wrapped(&self.attributes, "#[", "]\n", fmt);
        proof {
            lemma_text_concat(v0, a, wrap_all(m.attributes, "#["@, "]\n"@));
        }
        let ghost a = a + wrap_all(m.attributes, "#["@, "]\n"@);
        fmt_opt_wrapped(&self.vis, "", " ", fmt);
        proof {
            reveal_strlit("");
            lemma_text_concat(v0, a, vis_prefix(m.vis));
            if m.vis is Some {
                assert(""@ + m.vis->0 + " "@ =~= vis_prefix(m.vis));
            }
        }
        let ghost a = a + vis_prefix(m.vis);
        fmt.write_on("mod ", Ghost(v0), Ghost(a));
        fmt.write_on(self.name.as_str(), Ghost(v0), Ghost(a + "mod "@));
        let ghost h = text(a + "mod "@ + m.name);
        let ghost vh = fmt@;
        let saved = fmt.open_block();
        let ghost v1 = fmt@;
        self.scope.fmt(fmt);
        let ghost v2 = fmt@;
        fmt.close_block(saved);
        proof {
            lemma_block(vh, scope_doc(m.scope), v1, v2);
            lemma_emit_concat(v0, h, block_doc(scope_doc(m.scope)));
        }
    }
}

fn fmt_raws(items: &Vec<Item>, fmt: &mut Formatter) -> (any_raw: bool)
    ensures
        final(fmt)@ == emit(old(fmt)@, text(raws_text(item_views(items@, items@.len()), items@.len() as nat))),
        any_raw == has_raw(item_views(items@, items@.len())),
{
    let ghost v0 = fmt@;
    let ghost views = item_views(items@, items@.len());
    proof {
        lemma_item_views(items@, items@.len());
        lemma_text_empty(v0);
    }
    let mut any_raw = false;
    let mut i: usize = 0;
    while i < items.len()
        invariant
            i <= items.len(),
            views == item_views(items@, items@.len()),
            views.len() == items@.len(),
            forall|j: int| 0 <= j < views.len() ==> #[trigger] views[j] == item_view(items@[j]),
            fmt@ == emit(v0, text(raws_text(views, i as nat))),
            any_raw == exists|j: int| 0 <= j < i && #[trigger] views[j] is Raw,
        decreases items.len() - i,
    {
        let ghost acc = raws_text(views, i as nat);
        match &items[i] {
            Item::Raw(v) => {
                proof {
                    assert(views[i as int] == ItemView::Raw(v@));
                }
                fmt.write_on(v.as_str(), Ghost(v0), Ghost(acc));
                fmt.write_on("\n", Ghost(v0), Ghost(acc + v@));
                any_raw = true;
                proof {
                    assert(acc + v@ + "\n"@ =~= raws_text(views, (i + 1) as nat));
                }
            },
            _ => {
                proof {
                    assert(!(views[i as int] is Raw));
                    assert(acc =~= raws_text(views, (i + 1) as nat));
                }
            },
        }
        i = i + 1;
    }
    any_raw
}

fn fmt_ordered(items: &Vec<Item>, ord: &Vec<usize>, fmt: &mut Formatter)
    requires
        items_wf(item_views(items@, items@.len()), items@.len() as nat),
        forall|q: int| 0 <= q < ord@.len() ==> (#[trigger] ord@[q]) < items@.len(),
    ensures
        final(fmt)@ == emit(old(fmt)@, ordered_doc(item_views(items@, items@.len()), ord_view(ord@), ord@.len() as nat)),
    decreases items, 0nat,
{
    let ghost v0 = fmt@;
    let ghost views = item_views(items@, items@.len());
    let ghost ov = ord_view(ord@);
    proof {
        lemma_item_views(items@, items@.len());
        lemma_emit_empty(v0);
    }
    let mut k: usize = 0;
    while k < ord.len()
        invariant
            k <= ord.len(),
            views == item_views(items@, items@.len()),
            views.len() == items@.len(),
            forall|j: int| 0 <= j < views.len() ==> #[trigger] views[j] == items@[j]@,
            items_wf(views, views.len()),
            forall|q: int| 0 <= q < ord@.len() ==> (#[trigger] ord@[q]) < items@.len(),
            ov == ord_view(ord@),
            fmt@ == emit(v0, ordered_doc(views, ov, k as nat)),
        decreases ord.len() - k,
    {
        let ghost d = ordered_doc(views, ov, k as nat);
        if k > 0 {
            fmt.write("\n");
            proof {
                lemma_emit_concat(v0, d, text("\n"@));
            }
        } else {
            proof {
                lemma_emit_empty(fmt@);
                assert(d + Seq::<Piece>::empty() =~= d);
            }
        }
        let ghost gap = if k > 0 { text("\n"@) } else { Seq::<Piece>::empty() };
        let j = ord[k];
        proof {
            lemma_items_wf(views, views.len(), j as int);
        }
        fmt_item(&items[j], fmt);
        proof {
            lemma_emit_concat(v0, d + gap, item_doc(views[j as int]));
            assert(ov[k as int] == j as int);
        }
        k = k + 1;
    }
}

impl Scope {
    fn fmt_preamble(&self, fmt: &mut Formatter)
        ensures
            final(fmt)@ == emit(old(fmt)@, text(preamble_text(self@))),
    {
        let ghost v0 = fmt@;
        let ghost sv = self@;
        assert(sv == scope_view(*self));
        assert(sv.items == item_views(self.items@, self.items@.len()));
        assert(sv.imports == import_entries(self.imports));
        proof {
            lemma_item_views(self.items@, self.items@.len());
        }
        let any_raw = fmt_raws(&self.items, fmt);
        let ghost a = raws_text(sv.items, sv.items.len());
        if any_raw {
            fmt.write_on("\n", Ghost(v0), Ghost(a));
        } else {
            proof {
                assert(a =~= a + Seq::<char>::empty());
            }
        }
        let ghost a = a + (if has_raw(sv.items) { "\n"@ } else { Seq::<char>::empty() });
        let ghost e = sv.imports;
        fmt_imports(&self.imports, fmt);
        proof {
            lemma_text_concat(v0, a, imports_text(e));
        }
        if import_map_len(&self.imports) > 0 {
            fmt.write_on("\n", Ghost(v0), Ghost(a + imports_text(e)));
            proof {
                assert(a + imports_text(e) + "\n"@ =~= preamble_text(sv));
            }
        } else {
            proof {
                assert(imports_text(e) =~= Seq::<char>::empty());
                assert(a + imports_text(e) =~= preamble_text(sv));
            }
        }
    }

    /// Formats the scope using the given formatter.
    pub fn fmt(&self, fmt: &mut Formatter)
        requires
            scope_wf(self@),
        ensures
            final(fmt)@ == emit(old(fmt)@, scope_doc(self@)),
        decreases self, 0nat,
    {
        let ghost v0 = fmt@;
        let ghost sv = self@;
        let ghost views = sv.items;
        proof {
            lemma_item_views(self.items@, self.items@.len());
        }
        self.fmt_preamble(fmt);
        let ghost pre = text(preamble_text(sv));
        let ord = sorted_positions(&self.items);
        let ghost ov = ord_view(ord@);
        proof {
            lemma_render_order_unique(views, ov);
            assert(pre + ordered_doc(views, ov, 0) =~= pre);
        }
        proof {
            assert forall|q: int| 0 <= q < ord@.len() implies (#[trigger] ord@[q]) < views.len() by {
                assert(0 <= ov[q] < views.len());
            }
        }
        fmt_ordered(&self.items, &ord, fmt);
        proof {
            lemma_emit_concat(v0, pre, ordered_doc(views, ov, ov.len()));
        }
    }
}


fn last_item(v: &mut Vec<Item>) -> (r: &mut Item)
    requires
        old(v)@.len() > 0,
    ensures
        *r == old(v)@.last(),
        final(v)@ == old(v)@.update(old(v)@.len() - 1, *final(r)),
{
    let n = v.len();
    &mut v[n - 1]
}

fn item_at(v: &mut Vec<Item>, i: usize) -> (r: &mut Item)
    requires
        i < old(v)@.len(),
    ensures
        *r == old(v)@[i as int],
        final(v)@ == old(v)@.update(i as int, *final(r)),
{
    &mut v[i]
}

fn as_module(it: &mut Item) -> (r: &mut Module)
    requires
        *old(it) is Module,
    ensures
        *r == old(it)->Module_0,
        *final(it) == Item::Module(*final(r)),
    decreases 0nat,
{
    match it {
        Item::Module(v) => v,
        _ => as_module(it),
    }
}

fn as_struct(it: &mut Item) -> (r: &mut Struct)
    requires
        *old(it) is Struct,
    ensures
        *r == old(it)->Struct_0,
        *final(it) == Item::Struct(*final(r)),
    decreases 0nat,
{
    match it {
        Item::Struct(v) => v,
        _ => as_struct(it),
    }
}

fn as_function(it: &mut Item) -> (r: &mut Function)
    requires
        *old(it) is Function,
    ensures
        *r == old(it)->Function_0,
        *final(it) == Item::Function(*final(r)),
    decreases 0nat,
{
    match it {
        Item::Function(v) => v,
        _ => as_function(it),
    }
}

fn as_trait(it: &mut Item) -> (r: &mut Trait)
    requires
        *old(it) is Trait,
    ensures
        *r == old(it)->Trait_0,
        *final(it) == Item::Trait(*final(r)),
    decreases 0nat,
{
    match it {
        Item::Trait(v) => v,
        _ => as_trait(it),
    }
}

fn as_enum(it: &mut Item) -> (r: &mut Enum)
    requires
        *old(it) is Enum,
    ensures
        *r == old(it)->Enum_0,
        *final(it) == Item::Enum(*final(r)),
    decreases 0nat,
{
    match it {
        Item::Enum(v) => v,
        _ => as_enum(it),
    }
}

fn as_impl(it: &mut Item) -> (r: &mut Impl)
    requires
        *old(it) is Impl,
    ensures
        *r == old(it)->Impl_0,
        *final(it) == Item::Impl(*final(r)),
    decreases 0nat,
{
    match it {
        Item::Impl(v) => v,
        _ => as_impl(it),
    }
}

fn as_type_alias(it: &mut Item) -> (r: &mut TypeAlias)
    requires
        *old(it) is TypeAlias,
    ensures
        *r == old(it)->TypeAlias_0,
        *final(it) == Item::TypeAlias(*final(r)),
    decreases 0nat,
{
    match it {
        Item::TypeAlias(v) => v,
        _ => as_type_alias(it),
    }
}

/// Index of the first module named `name` among the items from `from` on.
pub open spec fn module_index(items: Seq<ItemView>, name: Seq<char>, from: nat) -> Option<nat>
    decreases items.len() - from,
{
    if from >= items.len() {
        None
    } else if items[from as int] is Module && items[from as int]->Module_0.name == name {
        Some(from)
    } else {
        module_index(items, name, from + 1)
    }
}

proof fn lemma_module_index(items: Seq<ItemView>, name: Seq<char>, from: nat)
    ensures
        module_index(items, name, from) matches Some(i) ==> from <= i < items.len() && items[i as int] is Module
            && items[i as int]->Module_0.name == name,
    decreases items.len() - from,
{
    if from < items.len() && !(items[from as int] is Module && items[from as int]->Module_0.name == name) {
        lemma_module_index(items, name, from + 1);
    }
}

/// The import table after registering `(path, name)`: unchanged when the
/// pair is already there, else with `imp` added last.
pub open spec fn registered(
    e: Seq<(Seq<char>, Seq<char>, ImportView)>,
    path: Seq<char>,
    name: Seq<char>,
    imp: ImportView,
) -> Seq<(Seq<char>, Seq<char>, ImportView)> {
    match key_index(e, path, name, 0) {
        Some(_) => e,
        None => e.push((path, name, imp)),
    }
}

/// The record that registering `name` from `path` creates.
pub open spec fn new_import_view(path: Seq<char>, name: Seq<char>, alias: Option<Seq<char>>) -> ImportView {
    ImportView {
        line: path + "::"@ + name + match alias {
            Some(a) => " as "@ + a,
            None => Seq::empty(),
        },
        vis: None,
        alias,
    }
}

/// A module with an empty scope.
pub open spec fn bare_module(name: Seq<char>) -> ModuleView {
    ModuleView {
        name,
        vis: None,
        docs: None,
        scope: ScopeView { docs: None, imports: Seq::empty(), items: Seq::empty() },
        attributes: Seq::empty(),
    }
}

/// `s` without one trailing newline.
pub open spec fn trim_newline(s: Seq<char>) -> Seq<char> {
    if s.len() > 0 && s.last() == '\n' {
        s.drop_last()
    } else {
        s
    }
}

/// The text of a scope rendered from the start, without its trailing newline.
pub open spec fn scope_text(s: ScopeView) -> Seq<char> {
    trim_newline(put_doc(Seq::empty(), 0, scope_doc(s)))
}

impl Module {
    /// Return a new, empty module.
    pub fn new(name: &str) -> (r: Self)
        ensures
            r@ == bare_module(name@),
    {
        let r = Module { name: name.to_string(), vis: None, docs: None, scope: Scope::new(), attributes: Vec::new() };
        assert(str_views(r.attributes@) =~= Seq::<Seq<char>>::empty());
        r
    }

    /// Returns a mutable reference to the module's scope.
    pub fn scope(&mut self) -> (r: &mut Scope)
        ensures
            r@ == old(self)@.scope,
            final(self)@ == (ModuleView { scope: final(r)@, ..old(self)@ }),
    {
        &mut self.scope
    }

    /// Set the module visibility.
    pub fn vis(&mut self, vis: &str) -> (r: &mut Self)
        ensures
            r@ == (ModuleView { vis: Some(vis@), ..old(self)@ }),
            *final(self) == *final(r),
    {
        self.vis = Some(vis.to_string());
        self
    }

    /// Set the module documentation.
    pub fn doc(&mut self, docs: &str) -> (r: &mut Self)
        ensures
            r@ == (ModuleView { docs: Some(docs@), ..old(self)@ }),
            *final(self) == *final(r),
    {
        self.docs = Some(Docs::new(docs));
        self
    }

    /// Add an attribute.
    pub fn attr(&mut self, attr: &str) -> (r: &mut Self)
        ensures
            r@ == (ModuleView { attributes: old(self)@.attributes.push(attr@), ..old(self)@ }),
            *final(self) == *final(r),
    {
        self.attributes.push(attr.to_string());
        assert(str_views(self.attributes@) =~= str_views(old(self).attributes@).push(attr@));
        self
    }

    /// Import `ty` from `path` into the module's scope.
    pub fn import(&mut self, path: &str, ty: &str) -> (r: &mut Self)
        ensures
            r@ == (ModuleView {
                scope: ScopeView {
                    imports: registered(
                        old(self)@.scope.imports,
                        path@,
                        crate::text::before_first_sep(ty@),
                        new_import_view(path@, crate::text::before_first_sep(ty@), None),
                    ),
                    ..old(self)@.scope
                },
                ..old(self)@
            }),
            *final(self) == *final(r),
    {
        self.scope.push_import(path, ty, None);
        self
    }
}

impl Scope {
    /// Returns a new, empty scope.
    pub fn new() -> (r: Self)
        ensures
            r@ == (ScopeView { docs: None, imports: Seq::empty(), items: Seq::empty() }),
    {
        let r = Scope { docs: None, imports: import_map_new(), items: Vec::new() };
        proof {
            lemma_item_views(r.items@, 0);
            assert(item_views(r.items@, 0) =~= Seq::<ItemView>::empty());
        }
        r
    }

    fn push_item(&mut self, item: Item)
        ensures
            final(self)@ == (ScopeView { items: old(self)@.items.push(item@), ..old(self)@ }),
    {
        proof {
            lemma_item_views_push(self.items@, item);
        }
        self.items.push(item);
    }

    /// Import `ty` from `path`, returning the import record; a pair already
    /// registered keeps its first record. Only the part of `ty` before its
    /// first `::` is imported.
    pub fn new_import(&mut self, path: &str, ty: &str, alias: Option<&str>) -> (r: &mut Import)
        ensures
            final(self)@.docs == old(self)@.docs,
            final(self)@.items == old(self)@.items,
            match key_index(old(self)@.imports, path@, crate::text::before_first_sep(ty@), 0) {
                Some(i) => {
                    &&& r@ == old(self)@.imports[i as int].2
                    &&& final(self)@.imports == old(self)@.imports.update(
                        i as int,
                        (path@, crate::text::before_first_sep(ty@), final(r)@),
                    )
                },
                None => {
                    &&& r@ == new_import_view(path@, crate::text::before_first_sep(ty@), crate::text::opt_str_view(alias))
                    &&& final(self)@.imports == old(self)@.imports.push(
                        (path@, crate::text::before_first_sep(ty@), final(r)@),
                    )
                },
            },
    {
        let cs = chars_of(ty);
        let end = crate::text::prefix_end(&cs);
        let name = crate::text::string_of_range(&cs, 0, end);
        let imp = Import::new(path, name.as_str(), alias);
        import_map_entry(&mut self.imports, (path.to_string(), name), imp)
    }

    /// Push a new import (`use` statement).
    pub fn push_import(&mut self, path: &str, ty: &str, alias: Option<&str>) -> (r: &mut Self)
        ensures
            r@ == (ScopeView {
                imports: registered(
                    old(self)@.imports,
                    path@,
                    crate::text::before_first_sep(ty@),
                    new_import_view(path@, crate::text::before_first_sep(ty@), crate::text::opt_str_view(alias)),
                ),
                ..old(self)@
            }),
            *final(self) == *final(r),
    {
        let imp = self.new_import(path, ty, alias);
        proof {
            let e = old(self)@.imports;
            let n = crate::text::before_first_sep(ty@);
            match key_index(e, path@, n, 0) {
                Some(i) => {
                    assert(e.update(i as int, (path@, n, imp@)) =~= e) by {
                        lemma_key_index(e, path@, n, 0);
                    }
                },
                None => {},
            }
        }
        self
    }

    /// The first module named `name`, if there is one.
    pub fn get_module(&self, name: &str) -> (r: Option<&Module>)
        ensures
            match module_index(self@.items, name@, 0) {
                Some(i) => r matches Some(m) && ItemView::Module(m@) == self@.items[i as int],
                None => r is None,
            },
    {
        let ghost views = self@.items;
        proof {
            lemma_item_views(self.items@, self.items@.len());
        }
        let mut i: usize = 0;
        while i < self.items.len()
            invariant
                i <= self.items.len(),
                views == self@.items,
                views.len() == self.items@.len(),
                forall|j: int| 0 <= j < views.len() ==> #[trigger] views[j] == self.items@[j]@,
                module_index(views, name@, 0) == module_index(views, name@, i as nat),
            decreases self.items.len() - i,
        {
            match &self.items[i] {
                Item::Module(m) => {
                    if crate::text::str_eq(m.name.as_str(), name) {
                        return Some(m);
                    }
                },
                _ => {},
            }
            i = i + 1;
        }
        None
    }

    fn module_position(&self, name: &str) -> (r: Option<usize>)
        ensures
            r is None <==> module_index(self@.items, name@, 0) is None,
            r matches Some(j) ==> module_index(self@.items, name@, 0) == Some(j as nat),
    {
        let ghost views = self@.items;
        proof {
            lemma_item_views(self.items@, self.items@.len());
        }
        let mut i: usize = 0;
        while i < self.items.len()
            invariant
                i <= self.items.len(),
                views == self@.items,
                views.len() == self.items@.len(),
                forall|j: int| 0 <= j < views.len() ==> #[trigger] views[j] == self.items@[j]@,
                module_index(views, name@, 0) == module_index(views, name@, i as nat),
            decreases self.items.len() - i,
        {
            match &self.items[i] {
                Item::Module(m) => {
                    if crate::text::str_eq(m.name.as_str(), name) {
                        return Some(i);
                    }
                },
                _ => {},
            }
            i = i + 1;
        }
        None
    }

    fn module_at(&mut self, i: usize) -> (r: &mut Module)
        requires
            i < old(self)@.items.len(),
            old(self)@.items[i as int] is Module,
        ensures
            ItemView::Module(r@) == old(self)@.items[i as int],
            final(self)@ == (ScopeView {
                items: old(self)@.items.update(i as int, ItemView::Module(final(r)@)),
                ..old(self)@
            }),
    {
        let ghost before = self.items@;
        proof {
            lemma_item_views(before, before.len());
        }
        let it = item_at(&mut self.items, i);
        let m = as_module(it);
        proof {
            let after = before.update(i as int, Item::Module(*final(m)));
            lemma_item_views(after, after.len());
            assert(item_views(after, after.len()) =~= item_views(before, before.len()).update(
                i as int,
                ItemView::Module(final(m)@),
            ));
        }
        m
    }

    /// The first module named `name`, for changes, if there is one.
    pub fn get_module_mut(&mut self, name: &str) -> (r: Option<&mut Module>)
        ensures
            match module_index(old(self)@.items, name@, 0) {
                Some(i) => r matches Some(m) && ItemView::Module(m@) == old(self)@.items[i as int]
                    && final(self)@ == (ScopeView {
                    items: old(self)@.items.update(i as int, ItemView::Module(final(m)@)),
                    ..old(self)@
                }),
                None => r is None && final(self)@ == old(self)@,
            },
    {
        proof {
            lemma_module_index(self@.items, name@, 0);
        }
        let ghost mi = module_index(self@.items, name@, 0);
        match self.module_position(name) {
            Some(i) => {
                proof {
                    lemma_item_views(self.items@, self.items@.len());
                    assert(mi is Some);
                    assert(mi->0 < self.items@.len());
                    assert(mi->0 == i as nat);
                }
                Some(self.module_at(i))
            },
            None => None,
        }
    }

    /// The first module named `name`, created empty and pushed when there is none.
    pub fn get_or_new_module(&mut self, name: &str) -> (r: &mut Module)
        ensures
            match module_index(old(self)@.items, name@, 0) {
                Some(i) => ItemView::Module(r@) == old(self)@.items[i as int] && final(self)@ == (ScopeView {
                    items: old(self)@.items.update(i as int, ItemView::Module(final(r)@)),
                    ..old(self)@
                }),
                None => r@ == bare_module(name@) && final(self)@ == (ScopeView {
                    items: old(self)@.items.push(ItemView::Module(final(r)@)),
                    ..old(self)@
                }),
            },
    {
        proof {
            lemma_module_index(self@.items, name@, 0);
        }
        let ghost mi = module_index(self@.items, name@, 0);
        match self.module_position(name) {
            Some(i) => {
                proof {
                    lemma_item_views(self.items@, self.items@.len());
                    assert(mi is Some);
                    assert(mi->0 < self.items@.len());
                    assert(mi->0 == i as nat);
                }
                self.module_at(i)
            },
            None => self.new_module(name),
        }
    }

    /// Push a module; no module of this scope may have its name.
    pub fn push_module(&mut self, item: Module) -> (r: &mut Self)
        requires
            module_index(old(self)@.items, item@.name, 0) is None,
        ensures
            r@ == (ScopeView { items: old(self)@.items.push(ItemView::Module(item@)), ..old(self)@ }),
            *final(self) == *final(r),
    {
        self.push_item(Item::Module(item));
        self
    }

    /// Push a verbatim text, rendered before the imports.
    pub fn raw(&mut self, val: &str) -> (r: &mut Self)
        ensures
            r@ == (ScopeView { items: old(self)@.items.push(ItemView::Raw(val@)), ..old(self)@ }),
            *final(self) == *final(r),
    {
        self.push_item(Item::Raw(val.to_string()));
        self
    }

    /// Push a new module definition, returning a mutable reference to it.
    pub fn new_module(&mut self, name: &str) -> (r: &mut Module)
        requires
            module_index(old(self)@.items, name@, 0) is None,
        ensures
            r@ == bare_module(name@),
            final(self)@ == (ScopeView { items: old(self)@.items.push(ItemView::Module(final(r)@)), ..old(self)@ }),
    {
        let ghost before = self.items@;
        let v = Module::new(name);
        self.items.push(Item::Module(v));
        let it = last_item(&mut self.items);
        let r = as_module(it);
        proof {
            let after = before.push(Item::Module(*final(r)));
            assert(before.push(Item::Module(v)).update(before.len() as int, Item::Module(*final(r))) =~= after);
            lemma_item_views_push(before, Item::Module(*final(r)));
        }
        r
    }

    /// Push a struct definition.
    pub fn push_struct(&mut self, item: Struct) -> (r: &mut Self)
        ensures
            r@ == (ScopeView { items: old(self)@.items.push(ItemView::Struct(item@)), ..old(self)@ }),
            *final(self) == *final(r),
    {
        self.push_item(Item::Struct(item));
        self
    }

    /// Push a new struct definition, returning a mutable reference to it.
    pub fn new_struct(&mut self, name: &str) -> (r: &mut Struct)
        requires
            crate::type_ref::parses(name@),
        ensures
            r@ == (StructView { type_def: bare_def(parsed_type(name@)), fields: FieldsView::Empty }),
            final(self)@ == (ScopeView { items: old(self)@.items.push(ItemView::Struct(final(r)@)), ..old(self)@ }),
    {
        let ghost before = self.items@;
        let v = Struct::new(name);
        self.items.push(Item::Struct(v));
        let it = last_item(&mut self.items);
        let r = as_struct(it);
        proof {
            let after = before.push(Item::Struct(*final(r)));
            assert(before.push(Item::Struct(v)).update(before.len() as int, Item::Struct(*final(r))) =~= after);
            lemma_item_views_push(before, Item::Struct(*final(r)));
        }
        r
    }

    /// Push a fn definition.
    pub fn push_fn(&mut self, item: Function) -> (r: &mut Self)
        ensures
            r@ == (ScopeView { items: old(self)@.items.push(ItemView::Function(item@)), ..old(self)@ }),
            *final(self) == *final(r),
    {
        self.push_item(Item::Function(item));
        self
    }

    /// Push a new fn definition, returning a mutable reference to it.
    pub fn new_fn(&mut self, name: &str) -> (r: &mut Function)
        ensures
            r@ == crate::function::bare_function(name@),
            final(self)@ == (ScopeView { items: old(self)@.items.push(ItemView::Function(final(r)@)), ..old(self)@ }),
    {
        let ghost before = self.items@;
        let v = Function::new(name);
        self.items.push(Item::Function(v));
        let it = last_item(&mut self.items);
        let r = as_function(it);
        proof {
            let after = before.push(Item::Function(*final(r)));
            assert(before.push(Item::Function(v)).update(before.len() as int, Item::Function(*final(r))) =~= after);
            lemma_item_views_push(before, Item::Function(*final(r)));
        }
        r
    }

    /// Push a trait definition.
    pub fn push_trait(&mut self, item: Trait) -> (r: &mut Self)
        ensures
            r@ == (ScopeView { items: old(self)@.items.push(ItemView::Trait(item@)), ..old(self)@ }),
            *final(self) == *final(r),
    {
        self.push_item(Item::Trait(item));
        self
    }

    /// Push a new trait definition, returning a mutable reference to it.
    pub fn new_trait(&mut self, name: &str) -> (r: &mut Trait)
        requires
            crate::type_ref::parses(name@),
        ensures
            r@ == (TraitView { type_def: bare_def(parsed_type(name@)), parents: Seq::empty(), associated_tys: Seq::empty(), fns: Seq::empty() }),
            final(self)@ == (ScopeView { items: old(self)@.items.push(ItemView::Trait(final(r)@)), ..old(self)@ }),
    {
        let ghost before = self.items@;
        let v = Trait::new(name);
        self.items.push(Item::Trait(v));
        let it = last_item(&mut self.items);
        let r = as_trait(it);
        proof {
            let after = before.push(Item::Trait(*final(r)));
            assert(before.push(Item::Trait(v)).update(before.len() as int, Item::Trait(*final(r))) =~= after);
            lemma_item_views_push(before, Item::Trait(*final(r)));
        }
        r
    }

    /// Push a enum definition.
    pub fn push_enum(&mut self, item: Enum) -> (r: &mut Self)
        ensures
            r@ == (ScopeView { items: old(self)@.items.push(ItemView::Enum(item@)), ..old(self)@ }),
            *final(self) == *final(r),
    {
        self.push_item(Item::Enum(item));
        self
    }

    /// Push a new enum definition, returning a mutable reference to it.
    pub fn new_enum(&mut self, name: &str) -> (r: &mut Enum)
        requires
            crate::type_ref::parses(name@),
        ensures
            r@ == (EnumView { type_def: bare_def(parsed_type(name@)), variants: Seq::empty() }),
            final(self)@ == (ScopeView { items: old(self)@.items.push(ItemView::Enum(final(r)@)), ..old(self)@ }),
    {
        let ghost before = self.items@;
        let v = Enum::new(name);
        self.items.push(Item::Enum(v));
        let it = last_item(&mut self.items);
        let r = as_enum(it);
        proof {
            let after = before.push(Item::Enum(*final(r)));
            assert(before.push(Item::Enum(v)).update(before.len() as int, Item::Enum(*final(r))) =~= after);
            lemma_item_views_push(before, Item::Enum(*final(r)));
        }
        r
    }

    /// Push a impl definition.
    pub fn push_impl(&mut self, item: Impl) -> (r: &mut Self)
        ensures
            r@ == (ScopeView { items: old(self)@.items.push(ItemView::Impl(item@)), ..old(self)@ }),
            *final(self) == *final(r),
    {
        self.push_item(Item::Impl(item));
        self
    }

    /// Push a new impl definition, returning a mutable reference to it.
    pub fn new_impl(&mut self, target: &str) -> (r: &mut Impl)
        ensures
            r@ == (ImplView {
                target: named(target@),
                generics: Seq::empty(),
                impl_trait: None,
                assoc_csts: Seq::empty(),
                assoc_tys: Seq::empty(),
                bounds: Seq::empty(),
                fns: Seq::empty(),
                macros: Seq::empty(),
            }),
            final(self)@ == (ScopeView { items: old(self)@.items.push(ItemView::Impl(final(r)@)), ..old(self)@ }),
    {
        let ghost before = self.items@;
        let v = Impl::new(target);
        self.items.push(Item::Impl(v));
        let it = last_item(&mut self.items);
        let r = as_impl(it);
        proof {
            let after = before.push(Item::Impl(*final(r)));
            assert(before.push(Item::Impl(v)).update(before.len() as int, Item::Impl(*final(r))) =~= after);
            lemma_item_views_push(before, Item::Impl(*final(r)));
        }
        r
    }

    /// Push a type alias definition.
    pub fn push_type_alias(&mut self, item: TypeAlias) -> (r: &mut Self)
        ensures
            r@ == (ScopeView { items: old(self)@.items.push(ItemView::TypeAlias(item@)), ..old(self)@ }),
            *final(self) == *final(r),
    {
        self.push_item(Item::TypeAlias(item));
        self
    }

    /// Push a new type alias definition, returning a mutable reference to it.
    pub fn new_type_alias(&mut self, name: &str, target: &str) -> (r: &mut TypeAlias)
        requires
            crate::type_ref::parses(name@),
            crate::type_ref::parses(target@),
        ensures
            r@ == (TypeAliasView { type_def: bare_def(parsed_type(name@)), ty: parsed_type(target@) }),
            final(self)@ == (ScopeView { items: old(self)@.items.push(ItemView::TypeAlias(final(r)@)), ..old(self)@ }),
    {
        let ghost before = self.items@;
        let v = TypeAlias::new(name, target);
        self.items.push(Item::TypeAlias(v));
        let it = last_item(&mut self.items);
        let r = as_type_alias(it);
        proof {
            let after = before.push(Item::TypeAlias(*final(r)));
            assert(before.push(Item::TypeAlias(v)).update(before.len() as int, Item::TypeAlias(*final(r))) =~= after);
            lemma_item_views_push(before, Item::TypeAlias(*final(r)));
        }
        r
    }
}


// ----- copies, merging and the entry point -----

fn clone_docs(d: &Option<Docs>) -> (r: Option<Docs>)
    ensures
        docs_view(r) == docs_view(*d),
{
    match d {
        Some(x) => Some(x.clone()),
        None => None,
    }
}

fn clone_scope(s: &Scope) -> (r: Scope)
    ensures
        r@ == s@,
    decreases s, 0nat,
{
    let items = clone_items(&s.items);
    Scope { docs: clone_docs(&s.docs), imports: import_map_clone(&s.imports), items }
}

fn clone_items(items: &Vec<Item>) -> (r: Vec<Item>)
    ensures
        item_views(r@, r@.len()) == item_views(items@, items@.len()),
    decreases items, 0nat,
{
    let mut out: Vec<Item> = Vec::new();
    let mut k: usize = 0;
    proof {
        lemma_item_views(items@, items@.len());
    }
    while k < items.len()
        invariant
            k <= items.len(),
            out@.len() == k,
            forall|j: int| 0 <= j < k ==> #[trigger] item_view(out@[j]) == item_view(items@[j]),
        decreases items.len() - k,
    {
        let c = clone_item(&items[k]);
        out.push(c);
        k = k + 1;
    }
    proof {
        lemma_item_views(out@, out@.len());
        assert(item_views(out@, out@.len()) =~= item_views(items@, items@.len()));
    }
    out
}

fn clone_item(i: &Item) -> (r: Item)
    ensures
        item_view(r) == item_view(*i),
    decreases i, 0nat,
{
    match i {
        Item::Module(m) => Item::Module(clone_module(m)),
        Item::Struct(v) => Item::Struct(v.clone()),
        Item::Function(v) => Item::Function(v.clone()),
        Item::Trait(v) => Item::Trait(v.clone()),
        Item::Enum(v) => Item::Enum(v.clone()),
        Item::Impl(v) => Item::Impl(v.clone()),
        Item::Raw(v) => Item::Raw(v.clone()),
        Item::TypeAlias(v) => Item::TypeAlias(v.clone()),
    }
}

fn clone_module(m: &Module) -> (r: Module)
    ensures
        r@ == m@,
    decreases m, 0nat,
{
    Module {
        name: m.name.clone(),
        vis: clone_opt(&m.vis),
        docs: clone_docs(&m.docs),
        scope: clone_scope(&m.scope),
        attributes: clone_strs(&m.attributes),
    }
}

impl Clone for Scope {
    fn clone(&self) -> (r: Self)
        ensures
            r@ == self@,
    {
        clone_scope(self)
    }
}

impl Clone for Item {
    fn clone(&self) -> (r: Self)
        ensures
            r@ == self@,
    {
        clone_item(self)
    }
}

impl Clone for Module {
    fn clone(&self) -> (r: Self)
        ensures
            r@ == self@,
    {
        clone_module(self)
    }
}

/// The import table after merging in one entry: an entry with its key is
/// replaced in place, a new one goes last.
pub open spec fn insert_entry(
    e: Seq<(Seq<char>, Seq<char>, ImportView)>,
    x: (Seq<char>, Seq<char>, ImportView),
) -> Seq<(Seq<char>, Seq<char>, ImportView)> {
    match key_index(e, x.0, x.1, 0) {
        Some(i) => e.update(i as int, x),
        None => e.push(x),
    }
}

/// The import table after merging in the first `n` entries of `o`, in order.
pub open spec fn merge_entries(
    e: Seq<(Seq<char>, Seq<char>, ImportView)>,
    o: Seq<(Seq<char>, Seq<char>, ImportView)>,
    n: nat,
) -> Seq<(Seq<char>, Seq<char>, ImportView)>
    decreases n,
{
    if n == 0 || n > o.len() {
        e
    } else {
        insert_entry(merge_entries(e, o, (n - 1) as nat), o[n - 1])
    }
}

/// The documentation of two merged scopes: both texts, in order.
pub open spec fn merged_docs(a: Option<Seq<char>>, b: Option<Seq<char>>) -> Option<Seq<char>> {
    match (a, b) {
        (Some(x), Some(y)) => Some(x + y),
        (Some(x), None) => Some(x),
        (None, Some(y)) => Some(y),
        (None, None) => None,
    }
}

/// Two scopes merged: documentation concatenated, imports merged key by key,
/// declarations of `a` then those of `b`.
pub open spec fn appended(a: ScopeView, b: ScopeView) -> ScopeView {
    ScopeView {
        docs: merged_docs(a.docs, b.docs),
        imports: merge_entries(a.imports, b.imports, b.imports.len()),
        items: a.items + b.items,
    }
}

impl Scope {
    /// Return a string representation of the scope, without a trailing newline.
    pub fn to_string(&self) -> (r: String)
        requires
            scope_wf(self@),
        ensures
            r@ == scope_text(self@),
    {
        let mut f = Formatter::new();
        proof {
            assert(f@.text =~= Seq::<char>::empty());
            assert(f@ == (FmtView { text: Seq::empty(), level: 0 }));
        }
        self.fmt(&mut f);
        f.into_string()
    }

    /// Merge `other` into this scope.
    pub fn append(&mut self, other: &Self) -> (r: &Self)
        ensures
            final(self)@ == appended(old(self)@, other@),
            r@ == appended(old(self)@, other@),
    {
        let docs = match (&self.docs, &other.docs) {
            (Some(a), Some(b)) => {
                let mut d = Docs::new("");
                proof {
                    reveal_strlit("");
                    assert(d@ =~= Seq::<char>::empty());
                }
                d.append(a.to_str());
                d.append(b.to_str());
                Some(d)
            },
            (Some(a), None) => Some(a.clone()),
            (None, Some(b)) => Some(b.clone()),
            (None, None) => None,
        };
        let ghost e0 = import_entries(self.imports);
        assert(e0 == old(self)@.imports);
        let ghost o = import_entries(other.imports);
        let n = import_map_len(&other.imports);
        let mut k: usize = 0;
        while k < n
            invariant
                k <= n,
                n == o.len(),
                o == import_entries(other.imports),
                import_entries(self.imports) == merge_entries(e0, o, k as nat),
                self.items@ == old(self).items@,
            decreases n - k,
        {
            match import_map_get(&other.imports, k) {
                Some((key, imp)) => {
                    let slot = import_map_entry(&mut self.imports, (key.0.clone(), key.1.clone()), imp.clone());
                    *slot = imp.clone();
                },
                None => {},
            }
            k = k + 1;
        }
        let ghost before = self.items@;
        let mut j: usize = 0;
        proof {
            lemma_item_views(other.items@, other.items@.len());
            lemma_item_views(before, before.len());
        }
        while j < other.items.len()
            invariant
                j <= other.items.len(),
                self.items@.len() == before.len() + j,
                forall|q: int| 0 <= q < before.len() ==> #[trigger] self.items@[q] == before[q],
                forall|q: int| 0 <= q < j ==> #[trigger] item_view(self.items@[before.len() + q]) == item_view(other.items@[q]),
                import_entries(self.imports) == merge_entries(e0, o, o.len()),
                before == old(self).items@,
            decreases other.items.len() - j,
        {
            let c = clone_item(&other.items[j]);
            self.items.push(c);
            j = j + 1;
        }
        self.docs = docs;
        proof {
            lemma_item_views(self.items@, self.items@.len());
            let all = item_views(before, before.len()) + item_views(other.items@, other.items@.len());
            assert forall|k: int| 0 <= k < self.items@.len() implies #[trigger] item_views(self.items@, self.items@.len())[k] == all[k] by {
                if k >= before.len() {
                    let q = k - before.len();
                    assert(item_view(self.items@[before.len() + q]) == item_view(other.items@[q]));
                }
            }
            assert(item_views(self.items@, self.items@.len()) =~= item_views(before, before.len()) + item_views(
                other.items@,
                other.items@.len(),
            ));
            assert(self@.items == old(self)@.items + other@.items);
            assert(self@.imports == merge_entries(old(self)@.imports, other@.imports, other@.imports.len()));
            assert(self@.docs == merged_docs(old(self)@.docs, other@.docs));
        }
        self
    }
}
} // verus!
