//! The indentation-tracking text writer and its model.
//!
//! Rendered output is described by a sequence of [`Piece`]s: text written at
//! some depth relative to the writer's level, or the opening brace of a block.
//! Writing a character that starts a non-empty line first emits the current
//! indentation, [`INDENT_WIDTH`] spaces per level.
use vstd::prelude::*;

use crate::text::{chars_of, string_from_chars};

verus! {

/// Number of spaces per indentation level.
pub const INDENT_WIDTH: usize = 4;

/// The text written so far and the current indentation level.
pub ghost struct FmtView {
    pub text: Seq<char>,
    pub level: nat,
}

/// One step of rendered output, relative to the writer's level.
pub ghost enum Piece {
    /// Text written `depth` levels deeper than the base level.
    Text(nat, Seq<char>),
    /// The opening brace of a block, `depth` levels deeper than the base level:
    /// `"{\n"` at the start of a line, `" {\n"` otherwise.
    Open(nat),
}

pub open spec fn at_line_start(t: Seq<char>) -> bool {
    t.len() == 0 || t.last() == '\n'
}

pub open spec fn spaces(n: nat) -> Seq<char> {
    Seq::new(n, |i: int| ' ')
}

/// The level reached `n` levels deep: the writer's counter saturates.
pub open spec fn clamp(n: nat) -> nat {
    if n < usize::MAX {
        n
    } else {
        usize::MAX as nat
    }
}

/// Appends one character at indentation `level`.
pub open spec fn put_char(t: Seq<char>, level: nat, c: char) -> Seq<char> {
    if c != '\n' && at_line_start(t) {
        t + spaces(level * INDENT_WIDTH as nat) + seq![c]
    } else {
        t.push(c)
    }
}

/// Appends `s` at indentation `level`, character by character.
pub open spec fn put(t: Seq<char>, level: nat, s: Seq<char>) -> Seq<char>
    decreases s.len(),
{
    if s.len() == 0 {
        t
    } else {
        put_char(put(t, level, s.drop_last()), level, s.last())
    }
}

pub open spec fn open_brace(t: Seq<char>) -> Seq<char> {
    if at_line_start(t) {
        seq!['{', '\n']
    } else {
        seq![' ', '{', '\n']
    }
}

pub open spec fn put_piece(t: Seq<char>, level: nat, p: Piece) -> Seq<char> {
    match p {
        Piece::Text(d, s) => put(t, clamp(level + d), s),
        Piece::Open(d) => put(t, clamp(level + d), open_brace(t)),
    }
}

/// Appends every piece of `doc`, in order, relative to `level`.
pub open spec fn put_doc(t: Seq<char>, level: nat, doc: Seq<Piece>) -> Seq<char>
    decreases doc.len(),
{
    if doc.len() == 0 {
        t
    } else {
        put_piece(put_doc(t, level, doc.drop_last()), level, doc.last())
    }
}

/// The writer's state after rendering `doc` from state `v`.
pub open spec fn emit(v: FmtView, doc: Seq<Piece>) -> FmtView {
    FmtView { text: put_doc(v.text, v.level, doc), level: v.level }
}

pub open spec fn text(s: Seq<char>) -> Seq<Piece> {
    seq![Piece::Text(0, s)]
}

pub open spec fn shift_piece(p: Piece, k: nat) -> Piece {
    match p {
        Piece::Text(d, s) => Piece::Text(d + k, s),
        Piece::Open(d) => Piece::Open(d + k),
    }
}

/// `doc` moved `k` levels deeper.
pub open spec fn shift(doc: Seq<Piece>, k: nat) -> Seq<Piece> {
    Seq::new(doc.len(), |i: int| shift_piece(doc[i], k))
}

/// A brace-delimited block whose contents are one level deeper.
pub open spec fn block_doc(inner: Seq<Piece>) -> Seq<Piece> {
    seq![Piece::Open(0)] + shift(inner, 1) + text(seq!['}', '\n'])
}

/// Rendering `a` then `b` is rendering `a + b`.
pub proof fn lemma_emit_concat(v: FmtView, a: Seq<Piece>, b: Seq<Piece>)
    ensures
        emit(emit(v, a), b) == emit(v, a + b),
    decreases b.len(),
{
    if b.len() == 0 {
        assert(a + b =~= a);
    } else {
        lemma_emit_concat(v, a, b.drop_last());
        assert((a + b).drop_last() =~= a + b.drop_last());
    }
}

pub proof fn lemma_put_concat(t: Seq<char>, level: nat, a: Seq<char>, b: Seq<char>)
    ensures
        put(t, level, a + b) == put(put(t, level, a), level, b),
    decreases b.len(),
{
    if b.len() == 0 {
        assert(a + b =~= a);
    } else {
        lemma_put_concat(t, level, a, b.drop_last());
        assert((a + b).drop_last() =~= a + b.drop_last());
    }
}

proof fn lemma_put_doc_text(t: Seq<char>, level: nat, s: Seq<char>)
    ensures
        put_doc(t, level, text(s)) == put(t, clamp(level), s),
{
    assert(text(s).drop_last() =~= Seq::<Piece>::empty());
    assert(put_doc(t, level, text(s)) == put_piece(
        put_doc(t, level, Seq::<Piece>::empty()),
        level,
        Piece::Text(0, s),
    ));
}

/// Writing `a` then `b` is writing `a + b`.
pub proof fn lemma_text_concat(v: FmtView, a: Seq<char>, b: Seq<char>)
    ensures
        emit(emit(v, text(a)), text(b)) == emit(v, text(a + b)),
{
    lemma_put_doc_text(v.text, v.level, a);
    lemma_put_doc_text(put(v.text, clamp(v.level), a), v.level, b);
    lemma_put_doc_text(v.text, v.level, a + b);
    lemma_put_concat(v.text, clamp(v.level), a, b);
}

/// Rendering no pieces changes nothing.
pub proof fn lemma_emit_empty(v: FmtView)
    ensures
        emit(v, Seq::empty()) == v,
        emit(v, text(Seq::empty())) == v,
{
    lemma_put_doc_text(v.text, v.level, Seq::empty());
}

/// Writing nothing changes nothing.
pub proof fn lemma_text_empty(v: FmtView)
    ensures
        emit(v, text(Seq::empty())) == v,
{
    lemma_put_doc_text(v.text, v.level, Seq::empty());
}


pub proof fn lemma_put_doc_shift(t: Seq<char>, level: nat, doc: Seq<Piece>)
    requires
        level <= usize::MAX,
    ensures
        put_doc(t, clamp(level + 1), doc) == put_doc(t, level, shift(doc, 1)),
    decreases doc.len(),
{
    if doc.len() > 0 {
        lemma_put_doc_shift(t, level, doc.drop_last());
        assert(shift(doc, 1).drop_last() =~= shift(doc.drop_last(), 1));
    }
}

/// Closing a block whose contents rendered `inner` renders `block_doc(inner)`.
pub proof fn lemma_block(v0: FmtView, inner: Seq<Piece>, v1: FmtView, v2: FmtView)
    requires
        v0.level <= usize::MAX,
        v1.text == put_doc(v0.text, v0.level, seq![Piece::Open(0)]),
        v1.level == clamp(v0.level + 1),
        v2 == emit(v1, inner),
    ensures
        emit(FmtView { text: v2.text, level: v0.level }, text(seq!['}', '\n'])) == emit(v0, block_doc(inner)),
{
    lemma_put_doc_shift(v1.text, v0.level, inner);
    let a = seq![Piece::Open(0)];
    let b = shift(inner, 1);
    let w1 = FmtView { text: v1.text, level: v0.level };
    assert(w1 == emit(v0, a));
    assert(FmtView { text: v2.text, level: v0.level } == emit(w1, b));
    lemma_emit_concat(v0, a, b);
    lemma_emit_concat(v0, a + b, text(seq!['}', '\n']));
}

/// A text sink that tracks the current indentation level.
pub struct Formatter {
    buf: Vec<char>,
    level: usize,
}

impl View for Formatter {
    type V = FmtView;

    closed spec fn view(&self) -> FmtView {
        FmtView { text: self.buf@, level: self.level as nat }
    }
}

impl Formatter {
    /// A writer with no text, at level zero.
    pub fn new() -> (r: Formatter)
        ensures
            r@.text.len() == 0,
            r@.level == 0,
    {
        Formatter { buf: Vec::new(), level: 0 }
    }

    /// The current indentation level.
    pub fn level(&self) -> (r: usize)
        ensures
            r == self@.level,
    {
        self.level
    }

    /// Whether the next character written starts a line.
    pub fn is_start_of_line(&self) -> (r: bool)
        ensures
            r == at_line_start(self@.text),
    {
        self.buf.len() == 0 || self.buf[self.buf.len() - 1] == '\n'
    }

    fn put_spaces(&mut self)
        ensures
            final(self)@.text == old(self)@.text + spaces(old(self)@.level * INDENT_WIDTH as nat),
            final(self)@.level == old(self)@.level,
    {
        let mut j: usize = 0;
        while j < self.level
            invariant
                j <= self.level,
                self.level == old(self).level,
                self.buf@ == old(self).buf@ + spaces(j as nat * INDENT_WIDTH as nat),
            decreases self.level - j,
        {
            let mut k: usize = 0;
            while k < INDENT_WIDTH
                invariant
                    j < self.level,
                    k <= INDENT_WIDTH,
                    self.level == old(self).level,
                    self.buf@ == old(self).buf@ + spaces(j as nat * INDENT_WIDTH as nat + k as nat),
                decreases INDENT_WIDTH - k,
            {
                self.buf.push(' ');
                k = k + 1;
                assert(self.buf@ =~= old(self).buf@ + spaces(j as nat * INDENT_WIDTH as nat + k as nat));
            }
            j = j + 1;
            assert(j as nat * INDENT_WIDTH as nat == (j - 1) as nat * INDENT_WIDTH as nat + INDENT_WIDTH as nat) by (nonlinear_arith)
                requires
                    j >= 1,
            ;
        }
    }

    fn put_one(&mut self, c: char)
        ensures
            final(self)@.text == put_char(old(self)@.text, old(self)@.level, c),
            final(self)@.level == old(self)@.level,
    {
        if c != '\n' && self.is_start_of_line() {
            self.put_spaces();
        }
        self.buf.push(c);
    }

    fn put_chars(&mut self, cs: &Vec<char>)
        ensures
            final(self)@.text == put(old(self)@.text, old(self)@.level, cs@),
            final(self)@.level == old(self)@.level,
    {
        let mut i: usize = 0;
        while i < cs.len()
            invariant
                i <= cs.len(),
                self.level == old(self).level,
                self@.text == put(old(self)@.text, old(self)@.level, cs@.take(i as int)),
            decreases cs.len() - i,
        {
            self.put_one(cs[i]);
            i = i + 1;
            assert(cs@.take(i as int).drop_last() =~= cs@.take(i - 1));
        }
        assert(cs@.take(cs.len() as int) =~= cs@);
    }

    /// Appends `s`; each line it starts is first indented to the current level.
    pub fn write(&mut self, s: &str)
        ensures
            final(self)@ == emit(old(self)@, text(s@)),
            final(self)@.text == put(old(self)@.text, old(self)@.level, s@),
    {
        let cs = chars_of(s);
        self.put_chars(&cs);
        proof {
            let v = old(self)@;
            assert(text(s@).drop_last() =~= Seq::<Piece>::empty());
            assert(put_doc(v.text, v.level, text(s@)) == put_piece(
                put_doc(v.text, v.level, Seq::<Piece>::empty()),
                v.level,
                Piece::Text(0, s@),
            ));
        }
    }

    /// Appends the characters `cs`, as `write` does.
    pub(crate) fn write_chars(&mut self, cs: &Vec<char>)
        ensures
            final(self)@ == emit(old(self)@, text(cs@)),
    {
        self.put_chars(cs);
        proof {
            lemma_put_doc_text(old(self)@.text, old(self)@.level, cs@);
        }
    }

    /// Appends `s` to the text `acc` already rendered from `v0`.
    pub(crate) fn write_on(&mut self, s: &str, Ghost(v0): Ghost<FmtView>, Ghost(acc): Ghost<Seq<char>>)
        requires
            old(self)@ == emit(v0, text(acc)),
        ensures
            final(self)@ == emit(v0, text(acc + s@)),
    {
        self.write(s);
        proof {
            lemma_text_concat(v0, acc, s@);
        }
    }

    /// Appends `cs` to the text `acc` already rendered from `v0`.
    pub(crate) fn write_chars_on(&mut self, cs: &Vec<char>, Ghost(v0): Ghost<FmtView>, Ghost(acc): Ghost<Seq<char>>)
        requires
            old(self)@ == emit(v0, text(acc)),
        ensures
            final(self)@ == emit(v0, text(acc + cs@)),
    {
        self.write_chars(cs);
        proof {
            lemma_text_concat(v0, acc, cs@);
        }
    }

    /// Opens a brace-delimited block one level deeper; returns the level to
    /// restore when it closes.
    pub(crate) fn open_block(&mut self) -> (saved: usize)
        ensures
            saved == old(self)@.level,
            final(self)@.text == put_doc(old(self)@.text, old(self)@.level, seq![Piece::Open(0)]),
            final(self)@.level == clamp(old(self)@.level + 1),
    {
        let saved = self.level;
        if self.is_start_of_line() {
            self.write("{\n");
        } else {
            self.write(" {\n");
        }
        proof {
            reveal_strlit("{\n");
            reveal_strlit(" {\n");
            let v = old(self)@;
            assert(seq![Piece::Open(0)].drop_last() =~= Seq::<Piece>::empty());
            assert(put_doc(v.text, v.level, seq![Piece::Open(0)]) == put_piece(
                put_doc(v.text, v.level, Seq::<Piece>::empty()),
                v.level,
                Piece::Open(0),
            ));
            assert("{\n"@ =~= seq!['{', '\n']);
            assert(" {\n"@ =~= seq![' ', '{', '\n']);
        }
        if self.level < usize::MAX {
            self.level = self.level + 1;
        }
        saved
    }

    /// Closes a block opened by `open_block`, restoring the level it returned.
    pub(crate) fn close_block(&mut self, saved: usize)
        ensures
            final(self)@ == emit(FmtView { text: old(self)@.text, level: saved as nat }, text(seq!['}', '\n'])),
    {
        self.level = saved;
        self.write("}\n");
        proof {
            reveal_strlit("}\n");
            assert("}\n"@ =~= seq!['}', '\n']);
        }
    }

    /// Runs `body` one level deeper, then restores the level this writer had
    /// before the call, whatever `body` did to it, and returns `body`'s result.
    pub fn block<R, F: FnOnce(&mut Formatter) -> R>(&mut self, body: F) -> (r: R)
        requires
            forall|g: &mut Formatter| body.requires((g,)),
        ensures
            final(self)@.level == old(self)@.level,
    {
        let saved = self.level;
        if self.level < usize::MAX {
            self.level = self.level + 1;
        }
        let r = body(self);
        self.level = saved;
        r
    }

    /// The text written, with its trailing newline, if any, removed.
    pub fn into_string(self) -> (r: String)
        ensures
            r@ == if self@.text.len() > 0 && self@.text.last() == '\n' {
                self@.text.drop_last()
            } else {
                self@.text
            },
    {
        let mut buf = self.buf;
        if buf.len() > 0 && buf[buf.len() - 1] == '\n' {
            buf.pop();
        }
        string_from_chars(&buf)
    }
}

} // verus!
