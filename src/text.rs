//! Character-level helpers shared by the renderers.
use vstd::prelude::*;

verus! {

/// The characters of `s`, in order.
pub fn chars_of(s: &str) -> (r: Vec<char>)
    ensures
        r@ == s@,
{
    let mut out: Vec<char> = Vec::new();
    for c in it: s.chars()
        invariant
            out@ == it.seq().take(it.index() as int),
            it.seq() == s@,
    {
        out.push(c);
    }
    out
}

/// Relies on `String`'s `FromIterator<&char>`: the string holds exactly the given characters.
#[verifier::external_body]
pub(crate) fn string_from_chars(v: &Vec<char>) -> (r: String)
    ensures
        r@ == v@,
{
    v.iter().collect()
}

/// Whether `s` holds `c`.
pub fn has_char(s: &str, c: char) -> (r: bool)
    ensures
        r == s@.contains(c),
{
    let cs = chars_of(s);
    let mut i: usize = 0;
    while i < cs.len()
        invariant
            i <= cs.len(),
            cs@ == s@,
            forall|k: int| 0 <= k < i ==> cs@[k] != c,
        decreases cs.len() - i,
    {
        if cs[i] == c {
            return true;
        }
        i = i + 1;
    }
    false
}

/// Start of the last `::` that ends at or before `end`.
pub open spec fn last_sep(s: Seq<char>, end: nat) -> Option<nat>
    decreases end,
{
    if end < 2 || end > s.len() {
        None
    } else if s[end - 2] == ':' && s[end - 1] == ':' {
        Some((end - 2) as nat)
    } else {
        last_sep(s, (end - 1) as nat)
    }
}

/// Start of the first `::` at or after `from`.
pub open spec fn first_sep(s: Seq<char>, from: nat) -> Option<nat>
    decreases s.len() - from,
{
    if from + 2 > s.len() {
        None
    } else if s[from as int] == ':' && s[(from + 1) as int] == ':' {
        Some(from)
    } else {
        first_sep(s, from + 1)
    }
}

/// What follows the last `::` of `s`, or all of `s` when it has none.
pub open spec fn after_last_sep(s: Seq<char>) -> Seq<char> {
    match last_sep(s, s.len()) {
        Some(j) => s.subrange((j + 2) as int, s.len() as int),
        None => s,
    }
}

/// What precedes the first `::` of `s`, or all of `s` when it has none.
pub open spec fn before_first_sep(s: Seq<char>) -> Seq<char> {
    match first_sep(s, 0) {
        Some(j) => s.subrange(0, j as int),
        None => s,
    }
}

/// Index just past the last `::` of `cs`, or zero when it has none.
pub fn suffix_start(cs: &Vec<char>) -> (r: usize)
    ensures
        r <= cs.len(),
        cs@.subrange(r as int, cs.len() as int) == after_last_sep(cs@),
{
    let mut end: usize = cs.len();
    while end >= 2
        invariant
            end <= cs.len(),
            last_sep(cs@, cs.len() as nat) == last_sep(cs@, end as nat),
        decreases end,
    {
        if cs[end - 2] == ':' && cs[end - 1] == ':' {
            return end;
        }
        end = end - 1;
    }
    assert(cs@.subrange(0, cs.len() as int) =~= cs@);
    0
}

/// Index of the first `::` of `cs`, or its length when it has none.
pub fn prefix_end(cs: &Vec<char>) -> (r: usize)
    ensures
        r <= cs.len(),
        cs@.subrange(0, r as int) == before_first_sep(cs@),
{
    let mut i: usize = 0;
    while cs.len() - i >= 2
        invariant
            i <= cs.len(),
            first_sep(cs@, 0) == first_sep(cs@, i as nat),
        decreases cs.len() - i,
    {
        if cs[i] == ':' && cs[i + 1] == ':' {
            return i;
        }
        i = i + 1;
    }
    assert(cs@.subrange(0, cs.len() as int) =~= cs@);
    cs.len()
}

/// The characters `cs[from..to]` as a string.
pub fn string_of_range(cs: &Vec<char>, from: usize, to: usize) -> (r: String)
    requires
        from <= to <= cs.len(),
    ensures
        r@ == cs@.subrange(from as int, to as int),
{
    let mut part: Vec<char> = Vec::new();
    let mut i: usize = from;
    while i < to
        invariant
            from <= i <= to <= cs.len(),
            part@ == cs@.subrange(from as int, i as int),
        decreases to - i,
    {
        part.push(cs[i]);
        i = i + 1;
        assert(part@ =~= cs@.subrange(from as int, i as int));
    }
    string_from_chars(&part)
}

} // verus!

verus! {

/// `s` cut at every `\n`: one more piece than `s` has newlines.
pub open spec fn split_nl(s: Seq<char>) -> Seq<Seq<char>>
    decreases s.len(),
{
    if s.len() == 0 {
        seq![Seq::empty()]
    } else if s.last() == '\n' {
        split_nl(s.drop_last()).push(Seq::empty())
    } else {
        let p = split_nl(s.drop_last());
        p.update(p.len() - 1, p.last().push(s.last()))
    }
}

/// `l` without one trailing `\r`.
pub open spec fn strip_cr(l: Seq<char>) -> Seq<char> {
    if l.len() > 0 && l.last() == '\r' {
        l.drop_last()
    } else {
        l
    }
}

/// The lines of `s` as `str::lines` gives them: pieces ended by `\n` lose a
/// trailing `\r`, and no empty line follows a final `\n`.
pub open spec fn lines(s: Seq<char>) -> Seq<Seq<char>> {
    let p = split_nl(s);
    if s.len() == 0 {
        Seq::empty()
    } else if s.last() == '\n' {
        Seq::new((p.len() - 1) as nat, |i: int| strip_cr(p[i]))
    } else {
        Seq::new(p.len(), |i: int| if i < p.len() - 1 { strip_cr(p[i]) } else { p[i] })
    }
}

proof fn lemma_split_nl_len(s: Seq<char>)
    ensures
        split_nl(s).len() >= 1,
    decreases s.len(),
{
    if s.len() > 0 {
        lemma_split_nl_len(s.drop_last());
    }
}

fn strip_cr_exec(l: Vec<char>) -> (r: Vec<char>)
    ensures
        r@ == strip_cr(l@),
{
    let mut l = l;
    if l.len() > 0 && l[l.len() - 1] == '\r' {
        l.pop();
    }
    l
}

/// The lines of `s`, as `lines` states them.
pub fn lines_of(s: &str) -> (r: Vec<Vec<char>>)
    ensures
        r@.len() == lines(s@).len(),
        forall|i: int| 0 <= i < r@.len() ==> #[trigger] r@[i]@ == lines(s@)[i],
{
    let cs = chars_of(s);
    let mut done: Vec<Vec<char>> = Vec::new();
    let ghost mut raw: Seq<Seq<char>> = Seq::empty();
    let mut cur: Vec<char> = Vec::new();
    let mut i: usize = 0;
    while i < cs.len()
        invariant
            i <= cs.len(),
            cs@ == s@,
            split_nl(cs@.take(i as int)) == raw.push(cur@),
            done@.len() == raw.len(),
            forall|k: int| 0 <= k < raw.len() ==> #[trigger] done@[k]@ == strip_cr(raw[k]),
        decreases cs.len() - i,
    {
        let c = cs[i];
        proof {
            assert(cs@.take(i + 1).drop_last() =~= cs@.take(i as int));
        }
        if c == '\n' {
            let line = cur;
            proof {
                raw = raw.push(line@);
            }
            done.push(strip_cr_exec(line));
            cur = Vec::new();
            proof {
                assert(split_nl(cs@.take(i + 1)) =~= raw.push(cur@));
            }
        } else {
            cur.push(c);
            proof {
                let old_p = split_nl(cs@.take(i as int));
                assert(split_nl(cs@.take(i + 1)) =~= raw.push(cur@));
            }
        }
        i = i + 1;
    }
    proof {
        assert(cs@.take(i as int) =~= s@);
        let p = split_nl(s@);
        assert(p == raw.push(cur@));
        assert(p.last() == cur@);
        if s@.len() > 0 && s@.last() != '\n' {
            lemma_split_nl_len(s@.drop_last());
            let q = split_nl(s@.drop_last());
            assert(p == q.update(q.len() - 1, q.last().push(s@.last())));
            assert(cur@.len() > 0);
        }
        if s@.len() > 0 && s@.last() == '\n' {
            assert(p == split_nl(s@.drop_last()).push(Seq::empty()));
            assert(cur@ =~= Seq::<char>::empty());
        }
    }
    let ghost raw_done = done@;
    if cur.len() > 0 {
        done.push(cur);
    }
    proof {
        let l = lines(s@);
        if s@.len() > 0 && s@.last() != '\n' {
            assert(l.len() == raw.len() + 1);
            assert forall|k: int| 0 <= k < done@.len() implies #[trigger] done@[k]@ == l[k] by {
                if k < raw.len() {
                    assert(done@[k] == raw_done[k]);
                }
            }
        }
    }
    done
}

} // verus!

verus! {

/// The view of an optional string.
pub open spec fn opt_view(o: Option<String>) -> Option<Seq<char>> {
    match o {
        Some(s) => Some(s@),
        None => None,
    }
}

/// The view of an optional string slice.
pub open spec fn opt_str_view(o: Option<&str>) -> Option<Seq<char>> {
    match o {
        Some(s) => Some(s@),
        None => None,
    }
}

/// The views of a sequence of strings.
pub open spec fn str_views(v: Seq<String>) -> Seq<Seq<char>> {
    v.map_values(|s: String| s@)
}

/// A copy of an optional string.
pub fn clone_opt(o: &Option<String>) -> (r: Option<String>)
    ensures
        opt_view(r) == opt_view(*o),
{
    match o {
        Some(s) => Some(s.clone()),
        None => None,
    }
}

/// An owned copy of an optional string slice.
pub fn own_opt(o: Option<&str>) -> (r: Option<String>)
    ensures
        opt_view(r) == opt_str_view(o),
{
    match o {
        Some(s) => Some(s.to_string()),
        None => None,
    }
}

/// A copy of a list of strings.
pub fn clone_strs(v: &Vec<String>) -> (r: Vec<String>)
    ensures
        str_views(r@) == str_views(v@),
{
    let mut out: Vec<String> = Vec::new();
    let mut i: usize = 0;
    while i < v.len()
        invariant
            i <= v.len(),
            out@.len() == i,
            forall|k: int| 0 <= k < i ==> #[trigger] out@[k]@ == v@[k]@,
        decreases v.len() - i,
    {
        out.push(v[i].clone());
        i = i + 1;
    }
    assert(str_views(out@) =~= str_views(v@));
    out
}

} // verus!

verus! {

/// The first `n` of `ss`, separated by `sep`.
pub open spec fn join(ss: Seq<Seq<char>>, sep: Seq<char>, n: nat) -> Seq<char>
    decreases n,
{
    if n == 0 || n > ss.len() {
        Seq::empty()
    } else if n == 1 {
        ss[0]
    } else {
        join(ss, sep, (n - 1) as nat) + sep + ss[n - 1]
    }
}

/// All of `ss`, separated by `sep`.
pub open spec fn join_all(ss: Seq<Seq<char>>, sep: Seq<char>) -> Seq<char> {
    join(ss, sep, ss.len())
}

} // verus!

verus! {

/// Each of the first `n` of `ls` followed by a newline.
pub open spec fn newline_each(ls: Seq<Seq<char>>, n: nat) -> Seq<char>
    decreases n,
{
    if n == 0 || n > ls.len() {
        Seq::empty()
    } else {
        newline_each(ls, (n - 1) as nat) + ls[n - 1] + "\n"@
    }
}

/// Each of the first `n` of `ls` as a `/// ` comment line.
pub open spec fn slash_each(ls: Seq<Seq<char>>, n: nat) -> Seq<char>
    decreases n,
{
    if n == 0 || n > ls.len() {
        Seq::empty()
    } else {
        slash_each(ls, (n - 1) as nat) + "/// "@ + ls[n - 1] + "\n"@
    }
}

} // verus!

verus! {

/// Each of the first `n` of `ls` between `pre` and `post`.
pub open spec fn wrapped_each(ls: Seq<Seq<char>>, pre: Seq<char>, post: Seq<char>, n: nat) -> Seq<char>
    decreases n,
{
    if n == 0 || n > ls.len() {
        Seq::empty()
    } else {
        wrapped_each(ls, pre, post, (n - 1) as nat) + pre + ls[n - 1] + post
    }
}

/// All of `ls`, each between `pre` and `post`.
pub open spec fn wrap_all(ls: Seq<Seq<char>>, pre: Seq<char>, post: Seq<char>) -> Seq<char> {
    wrapped_each(ls, pre, post, ls.len())
}

} // verus!

verus! {

/// Whether `a` and `b` hold the same characters.
pub fn str_eq(a: &str, b: &str) -> (r: bool)
    ensures
        r == (a@ == b@),
{
    let x = chars_of(a);
    let y = chars_of(b);
    if x.len() != y.len() {
        return false;
    }
    let mut i: usize = 0;
    while i < x.len()
        invariant
            i <= x.len(),
            x.len() == y.len(),
            x@ == a@,
            y@ == b@,
            forall|k: int| 0 <= k < i ==> x@[k] == y@[k],
        decreases x.len() - i,
    {
        if x[i] != y[i] {
            return false;
        }
        i = i + 1;
    }
    assert(x@ =~= y@);
    true
}

} // verus!
